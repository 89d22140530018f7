use number_pad::game::{Action, CellView, Event, Game};
use number_pad::limit::LimitMode;

fn picks(game: &mut Game, digits: &[u8]) {
    for &d in digits {
        game.pick(d);
    }
}

#[test]
fn fixed_digit_count_allows_repeats() {
    let mut game = Game::new(LimitMode::ByDigits, 3, 999);
    picks(&mut game, &[5, 5, 2]);
    assert_eq!(game.selection(), &vec![5, 5, 2]);
    assert_eq!(game.amount(), 255);
    assert_eq!(game.selection().len(), game.digits_needed() as usize);
    assert_eq!(game.action(), Action::Reset);
}

#[test]
fn pick_beyond_capacity_is_ignored() {
    let mut game = Game::new(LimitMode::ByDigits, 2, 999);
    picks(&mut game, &[1, 2, 3]);
    assert_eq!(game.selection(), &vec![1, 2]);
}

#[test]
fn max_amount_rejects_overflowing_pick() {
    let mut game = Game::new(LimitMode::ByMaxAmount, 4, 50);
    assert_eq!(game.digits_needed(), 2);
    game.pick(9);
    game.pick(9);
    assert_eq!(game.selection(), &vec![9]);
    game.pick(4);
    assert_eq!(game.selection(), &vec![9, 4]);
    assert_eq!(game.amount(), 49);
}

#[test]
fn no_repeat_click_removes_digit() {
    let mut game = Game::new(LimitMode::ByDigits, 4, 999);
    game.set_no_repeat(true);
    picks(&mut game, &[3, 7]);
    assert_eq!(game.selection(), &vec![3, 7]);
    game.pick(3);
    assert_eq!(game.selection(), &vec![7]);
}

#[test]
fn no_repeat_never_holds_a_digit_twice() {
    let mut game = Game::new(LimitMode::ByDigits, 5, 999);
    game.set_no_repeat(true);
    picks(&mut game, &[1, 2, 1, 1, 3, 2, 4]);
    assert_eq!(game.selection(), &vec![1, 3, 4]);
}

#[test]
fn hidden_mode_confirm_then_reset() {
    let mut game = Game::new(LimitMode::ByDigits, 2, 999);
    game.set_hidden_mode(true);
    picks(&mut game, &[4, 8]);
    assert!(!game.finished());
    assert_eq!(game.action(), Action::Confirm);
    assert_eq!(game.slot(0), None);
    assert_eq!(game.slot(1), None);
    game.confirm();
    assert!(game.finished());
    assert_eq!(game.slot(0), Some(4));
    assert_eq!(game.slot(1), Some(8));
    assert_eq!(game.action(), Action::Reset);
    game.pick(1);
    assert_eq!(game.selection(), &vec![4, 8]);
}

#[test]
fn confirm_is_ignored_until_full() {
    let mut game = Game::new(LimitMode::ByDigits, 2, 999);
    game.set_hidden_mode(true);
    game.pick(4);
    assert_eq!(game.action(), Action::Nothing);
    game.confirm();
    assert!(!game.finished());
}

#[test]
fn changing_max_amount_resets_selection() {
    let mut game = Game::new(LimitMode::ByMaxAmount, 4, 100);
    picks(&mut game, &[1, 2]);
    assert_eq!(game.selection(), &vec![1, 2]);
    game.set_max_amount(500);
    assert!(game.selection().is_empty());
    assert!(!game.finished());
    assert_eq!(game.max_amount(), 500);
}

#[test]
fn setting_changes_reset_selection() {
    let mut game = Game::new(LimitMode::ByDigits, 3, 999);
    picks(&mut game, &[1, 2]);
    game.set_mode(LimitMode::ByMaxAmount);
    assert!(game.selection().is_empty());
    picks(&mut game, &[1, 2]);
    game.set_no_repeat(true);
    assert!(game.selection().is_empty());
    game.set_mode(LimitMode::ByDigits);
    picks(&mut game, &[1, 2]);
    game.set_digit_count(12);
    assert!(game.selection().is_empty());
    assert_eq!(game.digit_count(), 9);
    game.set_digit_count(0);
    assert_eq!(game.digit_count(), 1);
}

#[test]
fn hidden_mode_keeps_selection() {
    let mut game = Game::new(LimitMode::ByDigits, 3, 999);
    picks(&mut game, &[1, 2]);
    game.set_hidden_mode(true);
    assert_eq!(game.selection(), &vec![1, 2]);
    assert!(game.hidden_mode());
}

#[test]
fn reset_twice_equals_once() {
    let mut game = Game::new(LimitMode::ByDigits, 2, 999);
    game.set_hidden_mode(true);
    picks(&mut game, &[4, 8]);
    game.confirm();
    game.reset();
    assert!(game.selection().is_empty());
    assert!(!game.finished());
    game.reset();
    assert!(game.selection().is_empty());
    assert!(!game.finished());
    assert!(game.hidden_mode());
    assert_eq!(game.digit_count(), 2);
}

#[test]
fn slots_show_most_significant_first() {
    let mut game = Game::new(LimitMode::ByDigits, 3, 999);
    picks(&mut game, &[1, 2]);
    assert_eq!(game.slots(), vec![None, Some(2), Some(1)]);
}

#[test]
fn cells_report_limits() {
    let mut game = Game::new(LimitMode::ByMaxAmount, 4, 50);
    game.pick(9);
    assert_eq!(
        game.cell(9),
        CellView { selected: true, disabled: true, exceeds: true }
    );
    assert_eq!(
        game.cell(4),
        CellView { selected: false, disabled: false, exceeds: false }
    );
    game.pick(4);
    assert_eq!(
        game.cell(1),
        CellView { selected: false, disabled: true, exceeds: false }
    );
}

#[test]
fn cells_under_no_repeat_stay_clickable_when_selected() {
    let mut game = Game::new(LimitMode::ByDigits, 1, 999);
    game.set_no_repeat(true);
    game.pick(6);
    assert_eq!(
        game.cell(6),
        CellView { selected: true, disabled: false, exceeds: false }
    );
    assert_eq!(
        game.cell(2),
        CellView { selected: false, disabled: true, exceeds: false }
    );
}

#[test]
fn events_dispatch_to_transitions() {
    let mut game = Game::new(LimitMode::ByDigits, 4, 999);
    game.handle(Event::SetNoRepeat(true));
    game.handle(Event::Pick(3));
    game.handle(Event::Pick(7));
    game.handle(Event::Pick(3));
    assert_eq!(game.selection(), &vec![7]);
    game.handle(Event::SetMaxAmount(10));
    assert!(game.selection().is_empty());
    game.handle(Event::SetMode(LimitMode::ByMaxAmount));
    assert_eq!(game.mode(), LimitMode::ByMaxAmount);
    assert_eq!(game.digits_needed(), 2);
    game.handle(Event::Pick(0));
    game.handle(Event::Pick(1));
    assert_eq!(game.amount(), 10);
    game.handle(Event::SetHiddenMode(true));
    game.handle(Event::Reset);
    assert!(game.selection().is_empty());
    assert!(game.no_repeat());
}

#[test]
fn amount_of_a_full_twenty_slot_round() {
    let mut game = Game::new(LimitMode::ByMaxAmount, 4, u64::MAX);
    assert_eq!(game.digits_needed(), 20);
    for _ in 0..19 {
        game.pick(0);
    }
    game.pick(1);
    assert_eq!(game.selection().len(), 20);
    assert_eq!(game.amount(), 10_000_000_000_000_000_000);
}
