use number_pad::config::{initial_config, query_entry, InitConfig, QueryKey};
use number_pad::limit::{current_amount, digits_needed, place_value, would_exceed, LimitMode};

#[test]
fn digits_needed_by_digit_count() {
    assert_eq!(digits_needed(LimitMode::ByDigits, 3, 50), 3);
}

#[test]
fn digits_needed_by_max_amount() {
    assert_eq!(digits_needed(LimitMode::ByMaxAmount, 3, 0), 1);
    assert_eq!(digits_needed(LimitMode::ByMaxAmount, 3, 1), 1);
    assert_eq!(digits_needed(LimitMode::ByMaxAmount, 3, 9), 1);
    assert_eq!(digits_needed(LimitMode::ByMaxAmount, 3, 10), 2);
    assert_eq!(digits_needed(LimitMode::ByMaxAmount, 3, 50), 2);
    assert_eq!(digits_needed(LimitMode::ByMaxAmount, 3, 999), 3);
    assert_eq!(digits_needed(LimitMode::ByMaxAmount, 3, 1000), 4);
    assert_eq!(digits_needed(LimitMode::ByMaxAmount, 3, u64::MAX), 20);
}

#[test]
fn amount_weights_first_pick_lowest() {
    assert_eq!(current_amount(&vec![]), 0);
    assert_eq!(current_amount(&vec![5, 5, 2]), 255);
    assert_eq!(current_amount(&vec![0, 0, 7]), 700);
    assert_eq!(current_amount(&vec![9; 19]), 9_999_999_999_999_999_999);
}

#[test]
fn place_values() {
    assert_eq!(place_value(0), 1);
    assert_eq!(place_value(3), 1000);
    assert_eq!(place_value(19), 10_000_000_000_000_000_000);
}

#[test]
fn would_exceed_examples() {
    assert!(would_exceed(&vec![9], 9, 50));
    assert!(!would_exceed(&vec![9], 4, 50));
    assert!(!would_exceed(&vec![], 5, 5));
    assert!(would_exceed(&vec![], 6, 5));
    assert!(would_exceed(&vec![9; 19], 1, u64::MAX));
    assert!(!would_exceed(&vec![9; 19], 0, u64::MAX));
}

#[test]
fn would_exceed_stays_true_for_larger_digits() {
    assert!(would_exceed(&vec![1, 2], 1, 120));
    assert!(would_exceed(&vec![3, 2], 1, 120));
    assert!(would_exceed(&vec![3, 5], 4, 120));
}

#[test]
fn initial_config_from_query() {
    assert_eq!(
        initial_config(Some(6), Some(50)),
        InitConfig { mode: LimitMode::ByDigits, digits: 6, max_amount: 999 }
    );
    assert_eq!(initial_config(Some(0), None).digits, 1);
    assert_eq!(initial_config(Some(12), None).digits, 9);
    assert_eq!(
        initial_config(None, Some(0)),
        InitConfig { mode: LimitMode::ByMaxAmount, digits: 4, max_amount: 1 }
    );
    assert_eq!(initial_config(None, Some(5000)).max_amount, 5000);
    assert_eq!(initial_config(Some(300), None).digits, 9);
    assert_eq!(initial_config(Some(-1), Some(50)).digits, 1);
    assert_eq!(initial_config(Some(-1), Some(50)).mode, LimitMode::ByDigits);
    assert_eq!(initial_config(None, Some(-5)).max_amount, 1);
    assert_eq!(initial_config(None, Some(1i128 << 70)).max_amount, u64::MAX);
    assert_eq!(initial_config(None, None), InitConfig::default());
    assert_eq!(
        InitConfig::default(),
        InitConfig { mode: LimitMode::ByDigits, digits: 4, max_amount: 999 }
    );
}

#[test]
fn query_echoes_the_active_mode() {
    assert_eq!(query_entry(LimitMode::ByDigits, 6, 50), (QueryKey::Digits, 6));
    assert_eq!(query_entry(LimitMode::ByMaxAmount, 6, 50), (QueryKey::Max, 50));
    assert_eq!(QueryKey::Digits.name(), "digits");
    assert_eq!(QueryKey::Max.name(), "max");
}
