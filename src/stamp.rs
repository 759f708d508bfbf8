//! The build stamp: the local time of a build as `YYYYMMDDHHMMSS`.
use vstd::prelude::*;

use crate::error::VersionInfoError;
use crate::text::{digit_char, fixed_dec, is_dec_digit, push_fixed_dec};

verus! {

/// A broken-down local time, field for field as the clock reports it.
#[derive(Debug, Clone, Copy, PartialEq, Eq, Structural)]
pub struct CalendarTime {
    /// Years since 1900.
    pub tm_year: i32,
    /// Months since January, `0..=11`.
    pub tm_mon: i32,
    /// Day of the month, `1..=31`.
    pub tm_mday: i32,
    /// Hours after midnight, `0..=23`.
    pub tm_hour: i32,
    /// Minutes after the hour, `0..=59`.
    pub tm_min: i32,
    /// Seconds after the minute, `0..=60` (a leap second is 60).
    pub tm_sec: i32,
}

/// Strict lexicographic order on two strings of equal length: at the first
/// position where they differ, `a` has the smaller character.
pub open spec fn lex_lt(a: Seq<char>, b: Seq<char>) -> bool {
    exists|i: int|
        0 <= i < a.len() && i < b.len() && a.take(i) == b.take(i) && (a[i] as u32) < (
        b[i] as u32)
}

impl CalendarTime {
    /// Every field in its documented range, and a year of at most four digits.
    pub open spec fn wf(&self) -> bool {
        &&& 0 <= self.tm_year + 1900 <= 9999
        &&& 0 <= self.tm_mon <= 11
        &&& 1 <= self.tm_mday <= 31
        &&& 0 <= self.tm_hour <= 23
        &&& 0 <= self.tm_min <= 59
        &&& 0 <= self.tm_sec <= 60
    }

    /// The calendar year.
    pub open spec fn year(&self) -> int {
        self.tm_year + 1900
    }

    /// The fields in the order of significance, with the calendar year and
    /// month.
    pub open spec fn fields(&self) -> Seq<int> {
        seq![
            self.year(),
            self.tm_mon + 1,
            self.tm_mday as int,
            self.tm_hour as int,
            self.tm_min as int,
            self.tm_sec as int,
        ]
    }

    /// `self` is strictly earlier than `o`, at one-second granularity.
    pub open spec fn before(&self, o: &CalendarTime) -> bool {
        exists|k: int|
            0 <= k < 6 && self.fields().take(k) == o.fields().take(k) && self.fields()[k]
                < o.fields()[k]
    }

    /// The stamp: four digits of year, then two each of month, day, hour,
    /// minute and second, zero-padded.
    pub open spec fn stamp(&self) -> Seq<char> {
        fixed_dec(self.year() as nat, 4) + (fixed_dec((self.tm_mon + 1) as nat, 2) + (fixed_dec(
            self.tm_mday as nat,
            2,
        ) + (fixed_dec(self.tm_hour as nat, 2) + (fixed_dec(self.tm_min as nat, 2) + fixed_dec(
            self.tm_sec as nat,
            2,
        )))))
    }

    /// Whether every field is in range.
    pub fn is_valid(&self) -> (r: bool)
        ensures
            r == self.wf(),
    {
        -1900 <= self.tm_year && self.tm_year <= 8099 && 0 <= self.tm_mon && self.tm_mon <= 11
            && 1 <= self.tm_mday && self.tm_mday <= 31 && 0 <= self.tm_hour && self.tm_hour <= 23
            && 0 <= self.tm_min && self.tm_min <= 59 && 0 <= self.tm_sec && self.tm_sec <= 60
    }
}

/// Renders the build stamp of `t`.
pub fn build_stamp(t: &CalendarTime) -> (r: String)
    requires
        t.wf(),
    ensures
        r@ == t.stamp(),
        r@.len() == 14,
        forall|i: int| 0 <= i < r@.len() ==> is_dec_digit(#[trigger] r@[i]),
{
    let mut out = String::new();
    push_fixed_dec(&mut out, (t.tm_year + 1900) as u32, 4);
    push_fixed_dec(&mut out, (t.tm_mon + 1) as u32, 2);
    push_fixed_dec(&mut out, t.tm_mday as u32, 2);
    push_fixed_dec(&mut out, t.tm_hour as u32, 2);
    push_fixed_dec(&mut out, t.tm_min as u32, 2);
    push_fixed_dec(&mut out, t.tm_sec as u32, 2);
    assert(out@ =~= t.stamp());
    proof {
        lemma_stamp_digits(t);
    }
    out
}

proof fn lemma_fixed_digits(n: nat, w: nat)
    ensures
        fixed_dec(n, w).len() == w,
        forall|i: int| 0 <= i < w ==> is_dec_digit(#[trigger] fixed_dec(n, w)[i]),
    decreases w,
{
    if w > 0 {
        lemma_fixed_digits(n / 10, (w - 1) as nat);
        let f = fixed_dec(n, w);
        assert forall|i: int| 0 <= i < w implies is_dec_digit(#[trigger] f[i]) by {
            if i < w - 1 {
                assert(f[i] == fixed_dec(n / 10, (w - 1) as nat)[i]);
            } else {
                assert(f[i] == digit_char(n % 10));
            }
        }
    }
}

proof fn lemma_stamp_digits(t: &CalendarTime)
    ensures
        t.stamp().len() == 14,
        forall|i: int| 0 <= i < t.stamp().len() ==> is_dec_digit(#[trigger] t.stamp()[i]),
{
    lemma_fixed_digits(t.year() as nat, 4);
    lemma_fixed_digits((t.tm_mon + 1) as nat, 2);
    lemma_fixed_digits(t.tm_mday as nat, 2);
    lemma_fixed_digits(t.tm_hour as nat, 2);
    lemma_fixed_digits(t.tm_min as nat, 2);
    lemma_fixed_digits(t.tm_sec as nat, 2);
    let s = t.stamp();
    assert forall|i: int| 0 <= i < s.len() implies is_dec_digit(#[trigger] s[i]) by {
        if i < 4 {
            assert(s[i] == fixed_dec(t.year() as nat, 4)[i]);
        } else if i < 6 {
            assert(s[i] == fixed_dec((t.tm_mon + 1) as nat, 2)[i - 4]);
        } else if i < 8 {
            assert(s[i] == fixed_dec(t.tm_mday as nat, 2)[i - 6]);
        } else if i < 10 {
            assert(s[i] == fixed_dec(t.tm_hour as nat, 2)[i - 8]);
        } else if i < 12 {
            assert(s[i] == fixed_dec(t.tm_min as nat, 2)[i - 10]);
        } else {
            assert(s[i] == fixed_dec(t.tm_sec as nat, 2)[i - 12]);
        }
    }
}

/// Reads the local wall clock.
/// Relies on `time::now`, which returns the current local time broken down
/// into fields; nothing is assumed of their values, which callers check.
#[verifier::external_body]
pub(crate) fn local_now() -> (r: CalendarTime) {
    let t = time::now();
    CalendarTime {
        tm_year: t.tm_year,
        tm_mon: t.tm_mon,
        tm_mday: t.tm_mday,
        tm_hour: t.tm_hour,
        tm_min: t.tm_min,
        tm_sec: t.tm_sec,
    }
}

/// The build stamp of time `t`, or `Clock` when a field of `t` is out of range.
pub fn build_number_at(t: &CalendarTime) -> (r: Result<String, VersionInfoError>)
    ensures
        r matches Ok(s) ==> t.wf() && s@ == t.stamp(),
        r matches Err(e) ==> !t.wf() && e == VersionInfoError::Clock,
{
    if t.is_valid() {
        Ok(build_stamp(t))
    } else {
        Err(VersionInfoError::Clock)
    }
}

/// Takes the build stamp of the current local time: `build_number_at` of the
/// time the clock reports.
pub fn make_build_number() -> (r: Result<String, VersionInfoError>)
    ensures
        exists|t: CalendarTime|
            #[trigger] t.wf() == (r is Ok) && (r matches Ok(s) ==> s@ == t.stamp()) && (
            r matches Err(e) ==> e == VersionInfoError::Clock),
        r matches Ok(s) ==> s@.len() == 14 && forall|i: int|
            0 <= i < s@.len() ==> is_dec_digit(#[trigger] s@[i]),
{
    let now = local_now();
    let r = build_number_at(&now);
    proof {
        lemma_stamp_digits(&now);
    }
    r
}

/// `10` to the power `w`.
pub open spec fn pow10(w: nat) -> nat
    decreases w,
{
    if w == 0 {
        1
    } else {
        10 * pow10((w - 1) as nat)
    }
}

proof fn lemma_fixed_order(n: nat, m: nat, w: nat)
    requires
        n < m < pow10(w),
    ensures
        lex_lt(fixed_dec(n, w), fixed_dec(m, w)),
    decreases w,
{
    let w1 = (w - 1) as nat;
    let p = pow10(w1);
    let (a, b) = (fixed_dec(n, w), fixed_dec(m, w));
    let (pa, pb) = (fixed_dec(n / 10, w1), fixed_dec(m / 10, w1));
    lemma_fixed_digits(n / 10, w1);
    lemma_fixed_digits(m / 10, w1);
    assert(m / 10 < p) by (nonlinear_arith)
        requires
            m < 10 * p,
    ;
    assert(n / 10 <= m / 10) by (nonlinear_arith)
        requires
            n < m,
    ;
    if n / 10 < m / 10 {
        lemma_fixed_order(n / 10, m / 10, w1);
        let i = choose|i: int|
            0 <= i < pa.len() && i < pb.len() && pa.take(i) == pb.take(i) && (pa[i] as u32) < (
            pb[i] as u32);
        assert(a.take(i) =~= pa.take(i));
        assert(b.take(i) =~= pb.take(i));
        assert(a[i] == pa[i]);
        assert(b[i] == pb[i]);
    } else {
        assert(n % 10 < m % 10) by (nonlinear_arith)
            requires
                n < m,
                n / 10 == m / 10,
        ;
        assert(a.take(w1 as int) =~= pa);
        assert(b.take(w1 as int) =~= pb);
        assert((digit_char(n % 10) as u32) < (digit_char(m % 10) as u32));
        assert(a[w1 as int] == digit_char(n % 10));
        assert(b[w1 as int] == digit_char(m % 10));
    }
}

proof fn lemma_lt_head(a1: Seq<char>, b1: Seq<char>, a2: Seq<char>, b2: Seq<char>)
    requires
        a1.len() == b1.len(),
        lex_lt(a1, b1),
    ensures
        lex_lt(a1 + a2, b1 + b2),
{
    let i = choose|i: int|
        0 <= i < a1.len() && i < b1.len() && a1.take(i) == b1.take(i) && (a1[i] as u32) < (
        b1[i] as u32);
    assert((a1 + a2).take(i) =~= a1.take(i));
    assert((b1 + b2).take(i) =~= b1.take(i));
    assert((a1 + a2)[i] == a1[i]);
    assert((b1 + b2)[i] == b1[i]);
}

proof fn lemma_lt_tail(a: Seq<char>, a2: Seq<char>, b2: Seq<char>)
    requires
        lex_lt(a2, b2),
    ensures
        lex_lt(a + a2, a + b2),
{
    let i = choose|i: int|
        0 <= i < a2.len() && i < b2.len() && a2.take(i) == b2.take(i) && (a2[i] as u32) < (
        b2[i] as u32);
    let j = a.len() + i;
    assert((a + a2).take(j) =~= a + a2.take(i));
    assert((a + b2).take(j) =~= a + b2.take(i));
    assert((a + a2)[j] == a2[i]);
    assert((a + b2)[j] == b2[i]);
}

/// The width in digits of field `j` of a stamp.
spec fn block_width(j: int) -> nat {
    if j == 0 {
        4
    } else {
        2
    }
}

/// The digits of field `j` of the stamp of `t`.
spec fn block(t: CalendarTime, j: int) -> Seq<char> {
    fixed_dec(t.fields()[j] as nat, block_width(j))
}

/// The stamp of `t` from field `j` on.
spec fn stamp_from(t: CalendarTime, j: int) -> Seq<char>
    decreases 5 - j,
{
    if j >= 5 {
        block(t, 5)
    } else {
        block(t, j) + stamp_from(t, j + 1)
    }
}

proof fn lemma_stamp_from_lt(t1: CalendarTime, t2: CalendarTime, k: int, j: int)
    requires
        0 <= j <= k < 6,
        forall|i: int| j <= i < k ==> block(t1, i) == block(t2, i),
        block(t1, k).len() == block(t2, k).len(),
        lex_lt(block(t1, k), block(t2, k)),
    ensures
        lex_lt(stamp_from(t1, j), stamp_from(t2, j)),
    decreases k - j,
{
    if j == k {
        if j < 5 {
            lemma_lt_head(block(t1, j), block(t2, j), stamp_from(t1, j + 1), stamp_from(t2, j + 1));
        }
    } else {
        lemma_stamp_from_lt(t1, t2, k, j + 1);
        lemma_lt_tail(block(t1, j), stamp_from(t1, j + 1), stamp_from(t2, j + 1));
    }
}

/// Build stamps sort as the times they were taken: a strictly earlier time
/// (at one-second granularity) gives a strictly smaller stamp, and times in
/// the same second give the same stamp.
pub proof fn lemma_stamp_order(t1: CalendarTime, t2: CalendarTime)
    requires
        t1.wf(),
        t2.wf(),
    ensures
        t1.before(&t2) ==> lex_lt(t1.stamp(), t2.stamp()),
        t1.fields() == t2.fields() ==> t1.stamp() == t2.stamp(),
{
    reveal_with_fuel(stamp_from, 6);
    assert(t1.stamp() =~= stamp_from(t1, 0));
    assert(t2.stamp() =~= stamp_from(t2, 0));
    if t1.before(&t2) {
        let (f1, f2) = (t1.fields(), t2.fields());
        let k = choose|k: int| 0 <= k < 6 && f1.take(k) == f2.take(k) && f1[k] < f2[k];
        assert forall|i: int| 0 <= i < k implies block(t1, i) == block(t2, i) by {
            assert(f1[i] == f1.take(k)[i]);
            assert(f2[i] == f2.take(k)[i]);
        }
        reveal_with_fuel(pow10, 5);
        lemma_fixed_order(f1[k] as nat, f2[k] as nat, block_width(k));
        lemma_fixed_digits(f1[k] as nat, block_width(k));
        lemma_fixed_digits(f2[k] as nat, block_width(k));
        lemma_stamp_from_lt(t1, t2, k, 0);
    }
}

} // verus!
