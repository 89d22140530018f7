use vstd::prelude::*;

use crate::limit::{
    LimitMode, all_digits, amount_of, current_amount, digits_needed, exceeds,
    lemma_amount_below_place, lemma_amount_push, lemma_amount_remove, lemma_pow10_19,
    lemma_pow10_monotone, slots_for, would_exceed,
};

verus! {

/// Slot count used when nothing else is chosen.
pub const DEFAULT_DIGITS: u8 = 4;

/// Maximum amount used when nothing else is chosen.
pub const DEFAULT_MAX_AMOUNT: u64 = 999;

/// The action that the round offers the player.
#[derive(Clone, Copy, Debug, PartialEq, Eq, Structural)]
pub enum Action {
    /// Start a new round.
    Reset,
    /// Reveal the hidden digits and end the round.
    Confirm,
    /// Nothing to offer yet.
    Nothing,
}

/// How one keypad cell is shown.
#[derive(Clone, Copy, Debug, PartialEq, Eq, Structural)]
pub struct CellView {
    /// The cell's digit is in the selection.
    pub selected: bool,
    /// The cell takes no input.
    pub disabled: bool,
    /// Picking the cell would lift the amount above the maximum.
    pub exceeds: bool,
}

/// Something the player does to a round.
#[derive(Clone, Copy, Debug, PartialEq, Eq, Structural)]
pub enum Event {
    Pick(u8),
    Reset,
    Confirm,
    SetMode(LimitMode),
    SetDigitCount(u8),
    SetMaxAmount(u64),
    SetNoRepeat(bool),
    SetHiddenMode(bool),
}

/// An event that the keypad can produce: picks are decimal digits.
pub open spec fn event_ok(e: Event) -> bool {
    match e {
        Event::Pick(d) => d <= 9,
        _ => true,
    }
}

/// Abstract state of a round.
pub ghost struct GameState {
    pub mode: LimitMode,
    pub digit_count: u8,
    pub max_amount: u64,
    pub no_repeat: bool,
    pub hidden_mode: bool,
    pub selection: Seq<u8>,
    pub finished: bool,
}

/// A digit count brought into `1..=9`.
pub open spec fn clamp_digits(n: u8) -> u8 {
    if n < 1 {
        1
    } else if n > 9 {
        9
    } else {
        n
    }
}

impl GameState {
    pub open spec fn needed(self) -> nat {
        slots_for(self.mode, self.digit_count, self.max_amount)
    }

    pub open spec fn is_full(self) -> bool {
        self.selection.len() == self.needed()
    }

    pub open spec fn wf(self) -> bool {
        &&& 1 <= self.digit_count <= 9
        &&& self.selection.len() <= self.needed()
        &&& all_digits(self.selection)
        &&& self.no_repeat ==> self.selection.no_duplicates()
        &&& self.finished ==> self.is_full()
        &&& self.mode == LimitMode::ByMaxAmount ==> amount_of(self.selection)
            <= self.max_amount
    }

    /// The selection after a click on digit `d`.
    pub open spec fn picked(self, d: u8) -> Seq<u8> {
        let s = self.selection;
        if self.finished {
            s
        } else if self.no_repeat && s.contains(d) {
            s.remove(s.index_of(d))
        } else if s.len() < self.needed() {
            if self.mode == LimitMode::ByMaxAmount && exceeds(s, d, self.max_amount as nat) {
                s
            } else {
                s.push(d)
            }
        } else {
            s
        }
    }

    pub open spec fn after_pick(self, d: u8) -> GameState {
        GameState { selection: self.picked(d), ..self }
    }

    /// Empty selection, round not finished, settings kept.
    pub open spec fn after_reset(self) -> GameState {
        GameState { selection: Seq::empty(), finished: false, ..self }
    }

    pub open spec fn action(self) -> Action {
        if self.finished || (!self.hidden_mode && self.is_full()) {
            Action::Reset
        } else if self.hidden_mode && self.is_full() {
            Action::Confirm
        } else {
            Action::Nothing
        }
    }

    pub open spec fn after_confirm(self) -> GameState {
        if self.action() == Action::Confirm {
            GameState { finished: true, ..self }
        } else {
            self
        }
    }

    /// The state after event `e`.
    pub open spec fn after(self, e: Event) -> GameState {
        match e {
            Event::Pick(d) => self.after_pick(d),
            Event::Reset => self.after_reset(),
            Event::Confirm => self.after_confirm(),
            Event::SetMode(mode) => GameState { mode, ..self }.after_reset(),
            Event::SetDigitCount(n) => GameState {
                digit_count: clamp_digits(n),
                ..self
            }.after_reset(),
            Event::SetMaxAmount(max_amount) => GameState { max_amount, ..self }.after_reset(),
            Event::SetNoRepeat(no_repeat) => GameState { no_repeat, ..self }.after_reset(),
            Event::SetHiddenMode(hidden_mode) => GameState { hidden_mode, ..self },
        }
    }

    /// The state after the events of `es`, in order.
    pub open spec fn after_all(self, es: Seq<Event>) -> GameState
        decreases es.len(),
    {
        if es.len() == 0 {
            self
        } else {
            self.after(es[0]).after_all(es.drop_first())
        }
    }

    /// Digits are shown as they are once the round is over, or when nothing is hidden.
    pub open spec fn reveals(self) -> bool {
        self.finished || !self.hidden_mode
    }

    /// What slot `i` shows: its digit, or `None` for the placeholder.
    pub open spec fn slot(self, i: int) -> Option<u8> {
        if self.reveals() && 0 <= i < self.selection.len() {
            Some(self.selection[i])
        } else {
            None
        }
    }

    pub open spec fn cell(self, d: u8) -> CellView {
        let s = self.selection;
        let selected = s.contains(d);
        let at_capacity = s.len() >= self.needed();
        let over = self.mode == LimitMode::ByMaxAmount && !at_capacity && exceeds(
            s,
            d,
            self.max_amount as nat,
        );
        let disabled = if self.no_repeat {
            self.finished || (!selected && at_capacity) || (!selected && over)
        } else {
            self.finished || at_capacity || over
        };
        CellView { selected, disabled, exceeds: over }
    }
}

/// Taking out the entry at `i` keeps a sequence of distinct digits distinct.
proof fn lemma_remove_keeps(s: Seq<u8>, i: int)
    requires
        0 <= i < s.len(),
        all_digits(s),
    ensures
        all_digits(s.remove(i)),
        s.no_duplicates() ==> s.remove(i).no_duplicates(),
        s.no_duplicates() ==> !s.remove(i).contains(s[i]),
{
    s.remove_ensures(i);
    let t = s.remove(i);
    assert forall|a: int| 0 <= a < t.len() implies t[a] <= 9 by {
        let a0 = if a < i { a } else { a + 1 };
        assert(t[a] == s[a0]);
    }
    if s.no_duplicates() {
        assert forall|a: int, b: int|
            0 <= a < t.len() && 0 <= b < t.len() && a != b implies t[a] != t[b] by {
            let a0 = if a < i { a } else { a + 1 };
            let b0 = if b < i { b } else { b + 1 };
            assert(t[a] == s[a0]);
            assert(t[b] == s[b0]);
        }
        assert forall|a: int| 0 <= a < t.len() implies t[a] != s[i] by {
            let a0 = if a < i { a } else { a + 1 };
            assert(t[a] == s[a0]);
        }
    }
}

/// Appending a digit absent from a sequence of distinct digits keeps it distinct.
proof fn lemma_push_keeps(s: Seq<u8>, d: u8)
    requires
        all_digits(s),
        d <= 9,
    ensures
        all_digits(s.push(d)),
        s.no_duplicates() && !s.contains(d) ==> s.push(d).no_duplicates(),
{
    let t = s.push(d);
    assert forall|a: int| 0 <= a < t.len() implies t[a] <= 9 by {
        if a < s.len() {
            assert(t[a] == s[a]);
        }
    }
    if s.no_duplicates() && !s.contains(d) {
        assert forall|a: int, b: int|
            0 <= a < t.len() && 0 <= b < t.len() && a != b implies t[a] != t[b] by {
            if a == s.len() {
                assert(t[b] == s[b]);
            } else if b == s.len() {
                assert(t[a] == s[a]);
            } else {
                assert(t[a] == s[a] && t[b] == s[b]);
            }
        }
    }
}

/// Every event keeps a well-formed round well-formed.
pub proof fn lemma_event_keeps_wf(g: GameState, e: Event)
    requires
        g.wf(),
        event_ok(e),
    ensures
        g.after(e).wf(),
{
    if let Event::Pick(d) = e {
        let s = g.selection;
        if !g.finished && g.no_repeat && s.contains(d) {
            lemma_remove_keeps(s, s.index_of(d));
            lemma_amount_remove(s, s.index_of(d));
        } else if !g.finished && s.len() < g.needed() {
            lemma_push_keeps(s, d);
            lemma_amount_push(s, d);
        }
    }
}

/// Resetting a second time changes nothing: both leave an empty selection
/// and an unfinished round.
pub proof fn lemma_reset_idempotent(g: GameState)
    ensures
        g.after_reset().after_reset() == g.after_reset(),
        g.after_reset().selection.len() == 0,
        !g.after_reset().finished,
{
}

/// Under no-repeat, a click on a digit already picked takes out exactly that
/// one entry, keeping the order of the others.
pub proof fn lemma_toggle_removes_one(g: GameState, d: u8)
    requires
        g.wf(),
        g.no_repeat,
        !g.finished,
        g.selection.contains(d),
    ensures
        exists|i: int|
            0 <= i < g.selection.len() && g.selection[i] == d && g.picked(d)
                == g.selection.remove(i),
        g.picked(d).len() == g.selection.len() - 1,
        !g.picked(d).contains(d),
{
    let s = g.selection;
    let i = s.index_of(d);
    lemma_remove_keeps(s, i);
    s.remove_ensures(i);
}

/// Whatever the player does, a well-formed round stays well-formed: never
/// more digits than slots, under no-repeat never the same digit twice, and
/// under a maximum never an amount above it.
pub proof fn lemma_events_keep_invariants(g: GameState, es: Seq<Event>)
    requires
        g.wf(),
        forall|k: int| 0 <= k < es.len() ==> event_ok(#[trigger] es[k]),
    ensures
        g.after_all(es).wf(),
        g.after_all(es).selection.len() <= g.after_all(es).needed(),
        g.after_all(es).no_repeat ==> g.after_all(es).selection.no_duplicates(),
        g.after_all(es).mode == LimitMode::ByMaxAmount ==> amount_of(g.after_all(es).selection)
            <= g.after_all(es).max_amount,
    decreases es.len(),
{
    if es.len() > 0 {
        assert(event_ok(es[0]));
        lemma_event_keeps_wf(g, es[0]);
        let rest = es.drop_first();
        assert forall|k: int| 0 <= k < rest.len() implies event_ok(#[trigger] rest[k]) by {
            assert(rest[k] == es[k + 1]);
        }
        lemma_events_keep_invariants(g.after(es[0]), rest);
    }
}

/// One round of the game: the settings, the digits picked so far (the first
/// being the least significant) and whether the round is over.
pub struct Game {
    mode: LimitMode,
    digit_count: u8,
    max_amount: u64,
    no_repeat: bool,
    hidden_mode: bool,
    selection: Vec<u8>,
    finished: bool,
}

/// Position of `d` in `v`, if it is there.
fn position_of(v: &Vec<u8>, d: u8) -> (r: Option<usize>)
    ensures
        r.is_none() <==> !v@.contains(d),
        r.is_some() ==> r.unwrap() < v@.len() && v@[r.unwrap() as int] == d,
{
    let mut i: usize = 0;
    while i < v.len()
        invariant
            0 <= i <= v@.len(),
            forall|j: int| 0 <= j < i ==> v@[j] != d,
        decreases v@.len() - i,
    {
        if v[i] == d {
            return Some(i);
        }
        i = i + 1;
    }
    None
}

impl Game {
    pub closed spec fn view(&self) -> GameState {
        GameState {
            mode: self.mode,
            digit_count: self.digit_count,
            max_amount: self.max_amount,
            no_repeat: self.no_repeat,
            hidden_mode: self.hidden_mode,
            selection: self.selection@,
            finished: self.finished,
        }
    }

    /// A fresh round under the given limit; the digit count is brought into `1..=9`.
    pub fn new(mode: LimitMode, digit_count: u8, max_amount: u64) -> (r: Game)
        ensures
            r.view() == (GameState {
                mode,
                digit_count: clamp_digits(digit_count),
                max_amount,
                no_repeat: false,
                hidden_mode: false,
                selection: Seq::empty(),
                finished: false,
            }),
            r.view().wf(),
    {
        let dc = if digit_count < 1 {
            1
        } else if digit_count > 9 {
            9
        } else {
            digit_count
        };
        Game {
            mode,
            digit_count: dc,
            max_amount,
            no_repeat: false,
            hidden_mode: false,
            selection: Vec::new(),
            finished: false,
        }
    }

    pub fn mode(&self) -> (r: LimitMode)
        ensures
            r == self.view().mode,
    {
        self.mode
    }

    pub fn digit_count(&self) -> (r: u8)
        ensures
            r == self.view().digit_count,
    {
        self.digit_count
    }

    pub fn max_amount(&self) -> (r: u64)
        ensures
            r == self.view().max_amount,
    {
        self.max_amount
    }

    pub fn no_repeat(&self) -> (r: bool)
        ensures
            r == self.view().no_repeat,
    {
        self.no_repeat
    }

    pub fn hidden_mode(&self) -> (r: bool)
        ensures
            r == self.view().hidden_mode,
    {
        self.hidden_mode
    }

    pub fn finished(&self) -> (r: bool)
        ensures
            r == self.view().finished,
    {
        self.finished
    }

    pub fn selection(&self) -> (r: &Vec<u8>)
        ensures
            r@ == self.view().selection,
    {
        &self.selection
    }

    /// Number of slots of the round.
    pub fn digits_needed(&self) -> (r: u8)
        ensures
            r as nat == self.view().needed(),
            self.view().mode == LimitMode::ByMaxAmount ==> r <= 20,
    {
        digits_needed(self.mode, self.digit_count, self.max_amount)
    }

    /// The amount picked so far.
    pub fn amount(&self) -> (r: u64)
        requires
            self.view().wf(),
        ensures
            r as nat == amount_of(self.view().selection),
    {
        let slots = self.digits_needed();
        assert(self.selection@.len() <= slots);
        proof {
            if self.mode == LimitMode::ByDigits {
                lemma_amount_below_place(self.selection@);
                lemma_pow10_monotone(self.selection@.len(), 19);
                lemma_pow10_19();
            }
        }
        current_amount(&self.selection)
    }

    /// A click on digit `d`: frozen once finished; under no-repeat a digit
    /// already picked is taken out; otherwise `d` goes into the next slot,
    /// unless all slots are taken or the amount would pass the maximum.
    pub fn pick(&mut self, d: u8)
        requires
            old(self).view().wf(),
            d <= 9,
        ensures
            final(self).view() == old(self).view().after_pick(d),
            final(self).view().wf(),
    {
        let ghost s0 = self.selection@;
        if self.finished {
            return;
        }
        if self.no_repeat {
            match position_of(&self.selection, d) {
                Some(i) => {
                    proof {
                        let k = s0.index_of(d);
                        assert(s0[k] == d);
                        assert(k == i as int);
                    }
                    self.selection.remove(i);
                    proof {
                        lemma_remove_keeps(s0, i as int);
                        lemma_amount_remove(s0, i as int);
                    }
                    return;
                },
                None => {},
            }
        }
        let needed = self.digits_needed();
        if self.selection.len() < needed as usize {
            if self.mode == LimitMode::ByMaxAmount {
                if would_exceed(&self.selection, d, self.max_amount) {
                    return;
                }
            }
            self.selection.push(d);
            proof {
                assert(self.selection@ =~= s0.push(d));
                lemma_push_keeps(s0, d);
                lemma_amount_push(s0, d);
            }
        }
    }

    /// Empties the selection and leaves the round unfinished.
    pub fn reset(&mut self)
        requires
            old(self).view().wf(),
        ensures
            final(self).view() == old(self).view().after_reset(),
            final(self).view().wf(),
    {
        self.selection = Vec::new();
        self.finished = false;
    }

    /// The action that the round offers now.
    pub fn action(&self) -> (r: Action)
        ensures
            r == self.view().action(),
    {
        let full = self.selection.len() == self.digits_needed() as usize;
        if self.finished || (!self.hidden_mode && full) {
            Action::Reset
        } else if self.hidden_mode && full {
            Action::Confirm
        } else {
            Action::Nothing
        }
    }

    /// Ends the round when confirming is on offer; otherwise nothing changes.
    pub fn confirm(&mut self)
        requires
            old(self).view().wf(),
        ensures
            final(self).view() == old(self).view().after_confirm(),
            final(self).view().wf(),
    {
        if self.action() == Action::Confirm {
            self.finished = true;
        }
    }

    pub fn set_mode(&mut self, mode: LimitMode)
        requires
            old(self).view().wf(),
        ensures
            final(self).view() == (GameState { mode, ..old(self).view() }).after_reset(),
            final(self).view().wf(),
    {
        self.mode = mode;
        self.reset_round();
    }

    /// Sets the digit count, brought into `1..=9`.
    pub fn set_digit_count(&mut self, digit_count: u8)
        requires
            old(self).view().wf(),
        ensures
            final(self).view() == (GameState {
                digit_count: clamp_digits(digit_count),
                ..old(self).view()
            }).after_reset(),
            final(self).view().wf(),
    {
        self.digit_count = if digit_count < 1 {
            1
        } else if digit_count > 9 {
            9
        } else {
            digit_count
        };
        self.reset_round();
    }

    pub fn set_max_amount(&mut self, max_amount: u64)
        requires
            old(self).view().wf(),
        ensures
            final(self).view() == (GameState { max_amount, ..old(self).view() }).after_reset(),
            final(self).view().wf(),
    {
        self.max_amount = max_amount;
        self.reset_round();
    }

    pub fn set_no_repeat(&mut self, no_repeat: bool)
        requires
            old(self).view().wf(),
        ensures
            final(self).view() == (GameState { no_repeat, ..old(self).view() }).after_reset(),
            final(self).view().wf(),
    {
        self.no_repeat = no_repeat;
        self.reset_round();
    }

    /// Hides or shows digits; the round goes on.
    pub fn set_hidden_mode(&mut self, hidden_mode: bool)
        requires
            old(self).view().wf(),
        ensures
            final(self).view() == (GameState { hidden_mode, ..old(self).view() }),
            final(self).view().wf(),
    {
        self.hidden_mode = hidden_mode;
    }

    /// Applies one event.
    pub fn handle(&mut self, e: Event)
        requires
            old(self).view().wf(),
            event_ok(e),
        ensures
            final(self).view() == old(self).view().after(e),
            final(self).view().wf(),
    {
        match e {
            Event::Pick(d) => self.pick(d),
            Event::Reset => self.reset(),
            Event::Confirm => self.confirm(),
            Event::SetMode(mode) => self.set_mode(mode),
            Event::SetDigitCount(n) => self.set_digit_count(n),
            Event::SetMaxAmount(max_amount) => self.set_max_amount(max_amount),
            Event::SetNoRepeat(no_repeat) => self.set_no_repeat(no_repeat),
            Event::SetHiddenMode(hidden_mode) => self.set_hidden_mode(hidden_mode),
        }
    }

    fn reset_round(&mut self)
        requires
            1 <= old(self).digit_count <= 9,
        ensures
            final(self).view() == old(self).view().after_reset(),
            final(self).view().wf(),
    {
        self.selection = Vec::new();
        self.finished = false;
    }

    /// What slot `i` shows: its digit, or `None` for the placeholder.
    pub fn slot(&self, i: usize) -> (r: Option<u8>)
        ensures
            r == self.view().slot(i as int),
    {
        if (self.finished || !self.hidden_mode) && i < self.selection.len() {
            Some(self.selection[i])
        } else {
            None
        }
    }

    /// All slots, most significant first.
    pub fn slots(&self) -> (r: Vec<Option<u8>>)
        ensures
            r@.len() == self.view().needed(),
            forall|k: int|
                0 <= k < r@.len() ==> #[trigger] r@[k] == self.view().slot(
                    self.view().needed() - 1 - k,
                ),
    {
        let n = self.digits_needed() as usize;
        let mut out: Vec<Option<u8>> = Vec::new();
        let mut k: usize = 0;
        while k < n
            invariant
                n == self.view().needed(),
                0 <= k <= n,
                out@.len() == k,
                forall|j: int| 0 <= j < k ==> #[trigger] out@[j] == self.view().slot(n - 1 - j),
            decreases n - k,
        {
            out.push(self.slot(n - 1 - k));
            k = k + 1;
        }
        out
    }

    /// How the keypad cell of digit `d` is shown.
    pub fn cell(&self, d: u8) -> (r: CellView)
        requires
            self.view().wf(),
        ensures
            r == self.view().cell(d),
    {
        let needed = self.digits_needed() as usize;
        let selected = position_of(&self.selection, d).is_some();
        let at_capacity = self.selection.len() >= needed;
        let over = self.mode == LimitMode::ByMaxAmount && !at_capacity && would_exceed(
            &self.selection,
            d,
            self.max_amount,
        );
        let disabled = if self.no_repeat {
            self.finished || (!selected && at_capacity) || (!selected && over)
        } else {
            self.finished || at_capacity || over
        };
        CellView { selected, disabled, exceeds: over }
    }
}

} // verus!
