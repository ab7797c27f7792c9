//! The demo UI's state: the counter, the checkbox and the brightness slider,
//! and the text the UI shows for them.

use vstd::prelude::*;

verus! {

/// Lowest value of the brightness slider.
pub const SLIDER_MIN: i16 = 0;

/// Highest value of the brightness slider.
pub const SLIDER_MAX: i16 = 100;

/// What the demo UI remembers between frames.
#[derive(Clone, Copy, Debug, PartialEq, Eq, Structural)]
pub struct UiState {
    pub counter: i32,
    pub checked: bool,
    pub slider_val: i16,
}

/// `c + 1`, or `c` where that does not fit in an `i32`.
pub open spec fn saturating_inc(c: i32) -> i32 {
    if c < i32::MAX { (c + 1) as i32 } else { c }
}

/// `c - 1`, or `c` where that does not fit in an `i32`.
pub open spec fn saturating_dec(c: i32) -> i32 {
    if c > i32::MIN { (c - 1) as i32 } else { c }
}

/// The ASCII decimal digits of `n`, most significant first.
pub open spec fn decimal_digits(n: nat) -> Seq<u8>
    decreases n,
{
    if n < 10 {
        seq![(48 + n) as u8]
    } else {
        decimal_digits(n / 10).push((48 + n % 10) as u8)
    }
}

/// `n` in ASCII decimal, with a leading `-` when negative.
pub open spec fn decimal_text(n: int) -> Seq<u8> {
    if n < 0 {
        seq![45u8] + decimal_digits((-n) as nat)
    } else {
        decimal_digits(n as nat)
    }
}

/// Ten to the power `k`.
spec fn pow10(k: nat) -> nat
    decreases k,
{
    if k == 0 {
        1
    } else {
        10 * pow10((k - 1) as nat)
    }
}

/// A number below `10^k` has at most `k` digits.
proof fn lemma_digits_len(n: nat, k: nat)
    requires
        k >= 1,
        n < pow10(k),
    ensures
        decimal_digits(n).len() <= k,
    decreases k,
{
    if n >= 10 {
        assert(k >= 2) by {
            if k == 1 {
                assert(pow10(1) == 10 * pow10(0));
            }
        }
        assert(n / 10 < pow10((k - 1) as nat));
        lemma_digits_len(n / 10, (k - 1) as nat);
    }
}

/// Write the decimal digits of `m` into `buf` from position `pos` on and
/// return the position after the last one.
fn write_digits(buf: &mut [u8; 11], pos: usize, m: u32) -> (end: usize)
    requires
        pos + decimal_digits(m as nat).len() <= 11,
    ensures
        end == pos + decimal_digits(m as nat).len(),
        final(buf)@.subrange(pos as int, end as int) == decimal_digits(m as nat),
        forall|i: int| 0 <= i < pos ==> #[trigger] final(buf)@[i] == old(buf)@[i],
    decreases m,
{
    if m >= 10 {
        let p: usize = write_digits(buf, pos, m / 10);
        buf[p] = 48u8 + (m % 10) as u8;
        assert(buf@.subrange(pos as int, (p + 1) as int) =~= buf@.subrange(pos as int, p as int).push(
            (48 + (m as nat) % 10) as u8,
        ));
        p + 1
    } else {
        buf[pos] = 48u8 + m as u8;
        assert(buf@.subrange(pos as int, (pos + 1) as int) =~= seq![(48 + m as nat) as u8]);
        pos + 1
    }
}

/// The counter's value as ASCII decimal text: the text is the first `len`
/// bytes of the returned buffer.
pub fn counter_text(counter: i32) -> (res: ([u8; 11], usize))
    ensures
        res.1 <= 11,
        res.0@.subrange(0, res.1 as int) == decimal_text(counter as int),
        is_decimal_text_of(res.0@.subrange(0, res.1 as int), counter as int),
{
    proof {
        lemma_decimal_text_parses(counter as int);
    }
    let mut buf: [u8; 11] = [0u8; 11];
    let negative: bool = counter < 0;
    let mag: u32 = if negative { (0i64 - counter as i64) as u32 } else { counter as u32 };
    proof {
        reveal_with_fuel(pow10, 11);
        assert(pow10(10) == 10000000000);
        lemma_digits_len(mag as nat, 10);
    }
    if negative {
        buf[0] = 45u8;
        let end: usize = write_digits(&mut buf, 1, mag);
        assert(buf@.subrange(0, end as int) =~= seq![45u8] + buf@.subrange(1, end as int));
        (buf, end)
    } else {
        let end: usize = write_digits(&mut buf, 0, mag);
        (buf, end)
    }
}

/// The label shown beside the checkbox.
pub fn checkbox_label(checked: bool) -> (s: &'static str)
    ensures
        s@ == (if checked { "Enabled"@ } else { "Disabled"@ }),
{
    if checked {
        "Enabled"
    } else {
        "Disabled"
    }
}

impl UiState {
    /// The state at start-up: counter 0, checkbox off, slider at 50.
    pub fn new() -> (s: UiState)
        ensures
            s == (UiState { counter: 0, checked: false, slider_val: 50 }),
    {
        UiState { counter: 0, checked: false, slider_val: 50 }
    }

    /// Apply one frame's clicks of the counter buttons: "-" first, then "+",
    /// each saturating at the `i32` bounds.
    pub fn apply_buttons(&mut self, minus_clicked: bool, plus_clicked: bool)
        ensures
            final(self).checked == old(self).checked,
            final(self).slider_val == old(self).slider_val,
            !minus_clicked && !plus_clicked ==> final(self).counter == old(self).counter,
            !minus_clicked && plus_clicked && old(self).counter < i32::MAX ==> final(self).counter
                == old(self).counter + 1,
            minus_clicked && !plus_clicked && old(self).counter > i32::MIN ==> final(self).counter
                == old(self).counter - 1,
            final(self).counter == ({
                let c1 = if minus_clicked { saturating_dec(old(self).counter) } else { old(self).counter };
                if plus_clicked { saturating_inc(c1) } else { c1 }
            }),
    {
        if minus_clicked {
            self.counter = if self.counter > i32::MIN { self.counter - 1 } else { self.counter };
        }
        if plus_clicked {
            self.counter = if self.counter < i32::MAX { self.counter + 1 } else { self.counter };
        }
    }
}

/// A "+" click followed by a "-" click gives the counter back, unless the
/// "+" was lost to saturation at `i32::MAX`; likewise "-" then "+" unless
/// at `i32::MIN`.
pub proof fn lemma_increment_undone(c: i32)
    ensures
        c < i32::MAX ==> saturating_dec(saturating_inc(c)) == c,
        c > i32::MIN ==> saturating_inc(saturating_dec(c)) == c,
{
}


/// The number that the ASCII decimal digits of `s` spell, most significant
/// first.
pub open spec fn digits_value(s: Seq<u8>) -> int
    decreases s.len(),
{
    if s.len() == 0 {
        0
    } else {
        digits_value(s.drop_last()) * 10 + (s.last() as int - 48)
    }
}

/// Whether every byte of `s` is an ASCII digit.
pub open spec fn all_digits(s: Seq<u8>) -> bool {
    forall|i: int| 0 <= i < s.len() ==> 48 <= #[trigger] s[i] <= 57
}

/// Whether `s` is a nonempty run of digits spelling `m`, with no leading
/// zero unless it is the single digit `0`.
pub open spec fn spells(s: Seq<u8>, m: int) -> bool {
    &&& s.len() >= 1
    &&& all_digits(s)
    &&& digits_value(s) == m
    &&& (s.len() == 1 || s[0] != 48)
}

/// Whether `t` reads as the number `n`: a `-` exactly when `n` is negative,
/// followed by the digits of `|n|`.
pub open spec fn is_decimal_text_of(t: Seq<u8>, n: int) -> bool {
    if n < 0 {
        t.len() >= 1 && t[0] == 45 && spells(t.subrange(1, t.len() as int), -n)
    } else {
        spells(t, n)
    }
}

/// The decimal digits of `n` are ASCII digits that read back as `n`, with
/// no leading zero.
pub proof fn lemma_decimal_digits_parse(n: nat)
    ensures
        spells(decimal_digits(n), n as int),
        n >= 1 ==> decimal_digits(n)[0] != 48,
    decreases n,
{
    if n >= 10 {
        lemma_decimal_digits_parse(n / 10);
        let d = decimal_digits(n / 10);
        let s = decimal_digits(n);
        assert(s == d.push((48 + n % 10) as u8));
        assert(s.drop_last() =~= d);
        assert(s[0] == d[0]);
        assert forall|i: int| 0 <= i < s.len() implies 48 <= #[trigger] s[i] <= 57 by {
            if i < d.len() {
                assert(s[i] == d[i]);
            }
        }
        assert(digits_value(s) == digits_value(d) * 10 + (n % 10) as int);
        assert(n as int == (n / 10) as int * 10 + (n % 10) as int);
    } else {
        let s = decimal_digits(n);
        assert(s.drop_last() =~= Seq::<u8>::empty());
        assert(digits_value(s) == digits_value(s.drop_last()) * 10 + (s.last() as int - 48));
    }
}

/// The counter's text reads back as the counter: a `-` exactly when it is
/// negative, then the digits of its magnitude.
pub proof fn lemma_decimal_text_parses(n: int)
    ensures
        is_decimal_text_of(decimal_text(n), n),
{
    if n < 0 {
        lemma_decimal_digits_parse((-n) as nat);
        let t = decimal_text(n);
        assert(t.subrange(1, t.len() as int) =~= decimal_digits((-n) as nat));
    } else {
        lemma_decimal_digits_parse(n as nat);
    }
}

/// A "+" click adds one and a "-" click takes one away, except at the
/// `i32` bound, where the counter stays.
pub proof fn lemma_counter_steps(c: i32)
    ensures
        c < i32::MAX ==> saturating_inc(c) as int == c as int + 1,
        c == i32::MAX ==> saturating_inc(c) == c,
        c > i32::MIN ==> saturating_dec(c) as int == c as int - 1,
        c == i32::MIN ==> saturating_dec(c) == c,
{
}

} // verus!
