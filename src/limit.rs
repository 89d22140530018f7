use vstd::prelude::*;

verus! {

/// How the number of slots is decided.
#[derive(Clone, Copy, Debug, PartialEq, Eq, Structural)]
pub enum LimitMode {
    /// The slot count is chosen directly.
    ByDigits,
    /// The slot count follows from an upper bound on the amount.
    ByMaxAmount,
}

/// Largest place value that a `u64` amount can carry: `10^19`.
pub const MAX_PLACE: u64 = 10_000_000_000_000_000_000;

/// Place value of slot `i`: `10^i`.
pub open spec fn pow10(i: nat) -> nat
    decreases i,
{
    if i == 0 {
        1
    } else {
        10 * pow10((i - 1) as nat)
    }
}

/// Every entry is a decimal digit.
pub open spec fn all_digits(s: Seq<u8>) -> bool {
    forall|i: int| 0 <= i < s.len() ==> s[i] <= 9
}

/// The amount spelled by `s`, the first entry being the least significant:
/// the sum of `s[i] * 10^i`.
pub open spec fn amount_of(s: Seq<u8>) -> nat
    decreases s.len(),
{
    if s.len() == 0 {
        0
    } else {
        amount_of(s.drop_last()) + (s.last() as nat) * pow10((s.len() - 1) as nat)
    }
}

/// Whether appending `d` to `s`, in the next more significant slot, lifts the
/// amount above `max`.
pub open spec fn exceeds(s: Seq<u8>, d: u8, max: nat) -> bool {
    amount_of(s) + (d as nat) * pow10(s.len()) > max
}

/// Number of decimal digits of `n` (one for zero).
pub open spec fn decimal_len(n: nat) -> nat
    decreases n,
{
    if n < 10 {
        1
    } else {
        1 + decimal_len(n / 10)
    }
}

/// Number of slots for a configuration.
pub open spec fn slots_for(mode: LimitMode, digit_count: u8, max_amount: u64) -> nat {
    match mode {
        LimitMode::ByDigits => digit_count as nat,
        LimitMode::ByMaxAmount => if max_amount == 0 {
            1
        } else {
            decimal_len(max_amount as nat)
        },
    }
}

pub proof fn lemma_pow10_positive(i: nat)
    ensures
        pow10(i) >= 1,
    decreases i,
{
    if i > 0 {
        lemma_pow10_positive((i - 1) as nat);
    }
}

pub proof fn lemma_pow10_monotone(a: nat, b: nat)
    requires
        a <= b,
    ensures
        pow10(a) <= pow10(b),
    decreases b,
{
    if a < b {
        lemma_pow10_monotone(a, (b - 1) as nat);
        lemma_pow10_positive((b - 1) as nat);
    }
}

pub proof fn lemma_pow10_19()
    ensures
        pow10(19) == MAX_PLACE as nat,
        pow10(20) == 10 * (MAX_PLACE as nat),
{
    reveal_with_fuel(pow10, 21);
}

/// A sequence of `n` digits spells an amount below `10^n`.
pub proof fn lemma_amount_below_place(s: Seq<u8>)
    requires
        all_digits(s),
    ensures
        amount_of(s) < pow10(s.len()),
    decreases s.len(),
{
    if s.len() > 0 {
        let t = s.drop_last();
        assert(all_digits(t));
        lemma_amount_below_place(t);
        let p = pow10(t.len());
        assert(s.last() <= 9);
        assert((s.last() as nat) * p <= 9 * p) by (nonlinear_arith)
            requires
                s.last() <= 9,
        ;
    }
}

/// Taking one more entry of `s` adds that entry at its place value.
pub proof fn lemma_amount_prefix_step(s: Seq<u8>, i: int)
    requires
        0 <= i < s.len(),
    ensures
        amount_of(s.subrange(0, i + 1)) == amount_of(s.subrange(0, i)) + (s[i] as nat) * pow10(
            i as nat,
        ),
{
    let u = s.subrange(0, i + 1);
    assert(u.drop_last() =~= s.subrange(0, i));
}

/// Raising entries never lowers the amount.
pub proof fn lemma_amount_monotone(s: Seq<u8>, t: Seq<u8>)
    requires
        s.len() == t.len(),
        forall|i: int| 0 <= i < s.len() ==> s[i] <= t[i],
    ensures
        amount_of(s) <= amount_of(t),
    decreases s.len(),
{
    if s.len() > 0 {
        lemma_amount_monotone(s.drop_last(), t.drop_last());
        let p = pow10((s.len() - 1) as nat);
        let a = s.last() as nat;
        let b = t.last() as nat;
        assert(a * p <= b * p) by (nonlinear_arith)
            requires
                a <= b,
        ;
    }
}

/// Appending `d` adds it at the next place value.
pub proof fn lemma_amount_push(s: Seq<u8>, d: u8)
    ensures
        amount_of(s.push(d)) == amount_of(s) + (d as nat) * pow10(s.len()),
{
    assert(s.push(d).drop_last() =~= s);
}

/// Taking out one entry never raises the amount: the entries after it move
/// to lower place values.
pub proof fn lemma_amount_remove(s: Seq<u8>, i: int)
    requires
        0 <= i < s.len(),
    ensures
        amount_of(s.remove(i)) <= amount_of(s),
    decreases s.len(),
{
    let n = s.len();
    if i == n - 1 {
        assert(s.remove(i) =~= s.drop_last());
    } else {
        let t = s.drop_last();
        lemma_amount_remove(t, i);
        let r = s.remove(i);
        assert(r.drop_last() =~= t.remove(i));
        assert(r.last() == s.last());
        lemma_pow10_monotone((n - 2) as nat, (n - 1) as nat);
        let a = s.last() as nat;
        let p = pow10((n - 2) as nat);
        let q = pow10((n - 1) as nat);
        assert(a * p <= a * q) by (nonlinear_arith)
            requires
                p <= q,
        ;
    }
}

/// `decimal_len(n)` is the `k` with `10^(k-1) <= n < 10^k`, for `n >= 1`.
pub proof fn lemma_decimal_len_bounds(n: nat)
    requires
        n >= 1,
    ensures
        decimal_len(n) >= 1,
        pow10((decimal_len(n) - 1) as nat) <= n,
        n < pow10(decimal_len(n)),
    decreases n,
{
    if n >= 10 {
        lemma_decimal_len_bounds(n / 10);
    }
}

/// The amount that the digits in `selected` spell, the first picked being
/// the least significant.
pub fn current_amount(selected: &Vec<u8>) -> (r: u64)
    requires
        selected@.len() <= 20,
        all_digits(selected@),
        amount_of(selected@) <= u64::MAX,
    ensures
        r as nat == amount_of(selected@),
{
    let ghost s = selected@;
    let mut total: u128 = 0;
    let mut place: u128 = 1;
    let mut i: usize = 0;
    proof {
        assert(s.subrange(0, 0) =~= Seq::<u8>::empty());
    }
    while i < selected.len()
        invariant
            s == selected@,
            s.len() <= 20,
            all_digits(s),
            0 <= i <= s.len(),
            total as nat == amount_of(s.subrange(0, i as int)),
            place as nat == pow10(i as nat),
        decreases s.len() - i,
    {
        proof {
            lemma_amount_prefix_step(s, i as int);
            assert(all_digits(s.subrange(0, i as int)));
            lemma_amount_below_place(s.subrange(0, i as int));
            lemma_pow10_monotone((i + 1) as nat, 20);
            lemma_pow10_19();
            let d = s[i as int] as nat;
            assert(d * (place as nat) <= 9 * (place as nat)) by (nonlinear_arith)
                requires
                    d <= 9,
            ;
        }
        total = total + (selected[i] as u128) * place;
        place = place * 10;
        i = i + 1;
    }
    proof {
        assert(s.subrange(0, s.len() as int) =~= s);
    }
    total as u64
}

/// `10^i` as an integer.
pub fn place_value(i: usize) -> (r: u64)
    requires
        i <= 19,
    ensures
        r as nat == pow10(i as nat),
{
    let mut place: u64 = 1;
    let mut k: usize = 0;
    while k < i
        invariant
            k <= i <= 19,
            place as nat == pow10(k as nat),
        decreases i - k,
    {
        proof {
            lemma_pow10_monotone((k + 1) as nat, 19);
            lemma_pow10_19();
        }
        place = place * 10;
        k = k + 1;
    }
    place
}

/// Whether picking `candidate` into the next slot would lift the amount
/// above `max_amount`.
pub fn would_exceed(selected: &Vec<u8>, candidate: u8, max_amount: u64) -> (r: bool)
    requires
        selected@.len() <= 19,
        all_digits(selected@),
    ensures
        r == exceeds(selected@, candidate, max_amount as nat),
{
    proof {
        lemma_amount_below_place(selected@);
        lemma_pow10_monotone(selected@.len(), 19);
        lemma_pow10_19();
    }
    let amount = current_amount(selected);
    let place = place_value(selected.len());
    proof {
        lemma_pow10_monotone(selected@.len(), 19);
        lemma_pow10_19();
        assert((candidate as nat) * (place as nat) <= 255 * (MAX_PLACE as nat)) by (nonlinear_arith)
            requires
                candidate <= 255,
                place <= MAX_PLACE,
        ;
    }
    let next = (amount as u128) + (candidate as u128) * (place as u128);
    next > max_amount as u128
}

/// Number of slots: the digit count itself, or the number of decimal digits
/// of the maximum amount (one when it is zero).
pub fn digits_needed(mode: LimitMode, digit_count: u8, max_amount: u64) -> (r: u8)
    ensures
        r as nat == slots_for(mode, digit_count, max_amount),
        mode == LimitMode::ByMaxAmount ==> 1 <= r <= 20,
{
    match mode {
        LimitMode::ByDigits => digit_count,
        LimitMode::ByMaxAmount => {
            if max_amount == 0 {
                return 1;
            }
            proof {
                lemma_decimal_len_bounds(max_amount as nat);
                let k = decimal_len(max_amount as nat);
                if k > 20 {
                    lemma_pow10_monotone(20, (k - 1) as nat);
                    lemma_pow10_19();
                }
            }
            let mut n: u64 = max_amount;
            let mut count: u8 = 1;
            while n >= 10
                invariant
                    1 <= count,
                    decimal_len(max_amount as nat) <= 20,
                    count - 1 + decimal_len(n as nat) == decimal_len(max_amount as nat),
                decreases n,
            {
                n = n / 10;
                count = count + 1;
            }
            count
        },
    }
}

/// The slot count under a maximum amount is `floor(log10(max)) + 1`: the `k`
/// with `10^(k-1) <= max < 10^k`; a maximum of zero gives one slot.
pub proof fn lemma_slots_follow_max_amount(digit_count: u8, max_amount: u64)
    ensures
        max_amount == 0 ==> slots_for(LimitMode::ByMaxAmount, digit_count, max_amount) == 1,
        max_amount >= 1 ==> ({
            let k = slots_for(LimitMode::ByMaxAmount, digit_count, max_amount);
            k >= 1 && pow10((k - 1) as nat) <= max_amount && max_amount < pow10(k)
        }),
{
    if max_amount >= 1 {
        lemma_decimal_len_bounds(max_amount as nat);
    }
}

/// Once a pick would overflow the maximum, it still does with the same or
/// larger digits in every slot and the same or a larger candidate.
pub proof fn lemma_exceeds_monotone(s: Seq<u8>, t: Seq<u8>, d: u8, e: u8, max: nat)
    requires
        s.len() == t.len(),
        forall|i: int| 0 <= i < s.len() ==> s[i] <= t[i],
        d <= e,
        exceeds(s, d, max),
    ensures
        exceeds(t, e, max),
{
    lemma_amount_monotone(s, t);
    let p = pow10(s.len());
    assert((d as nat) * p <= (e as nat) * p) by (nonlinear_arith)
        requires
            d <= e,
    ;
}

} // verus!
