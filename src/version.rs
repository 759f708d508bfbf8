//! The `major.minor.patch` version triple: parsing and rendering.
use vstd::prelude::*;

use crate::error::VersionInfoError;
use crate::text::{dec, dec_value, digit_char, is_dec_digit, push_char, push_dec};

verus! {

/// Splits `s` at every `.`: a string with `k` dots has `k + 1` segments.
pub open spec fn split_dots(s: Seq<char>) -> Seq<Seq<char>>
    decreases s.len(),
{
    if s.len() == 0 {
        seq![Seq::<char>::empty()]
    } else {
        let p = split_dots(s.drop_last());
        if s.last() == '.' {
            p.push(Seq::<char>::empty())
        } else {
            p.update(p.len() - 1, p.last().push(s.last()))
        }
    }
}

/// Whether every character of `s` is a decimal digit.
pub open spec fn all_digits(s: Seq<char>) -> bool {
    forall|i: int| 0 <= i < s.len() ==> is_dec_digit(#[trigger] s[i])
}

/// The number that the digits of `s` spell, most significant first.
pub open spec fn digits_value(s: Seq<char>) -> nat
    decreases s.len(),
{
    if s.len() == 0 {
        0
    } else {
        digits_value(s.drop_last()) * 10 + dec_value(s.last())
    }
}

/// `s` without one leading `+` sign, if it has one.
pub open spec fn unsigned_part(s: Seq<char>) -> Seq<char> {
    if s.len() > 0 && s[0] == '+' {
        s.drop_first()
    } else {
        s
    }
}

/// Whether `s` is a numeral: an optional `+` followed by at least one digit.
pub open spec fn is_numeral(s: Seq<char>) -> bool {
    unsigned_part(s).len() > 0 && all_digits(unsigned_part(s))
}

/// A base-10 `u32`: a numeral whose value fits in 32 bits.
pub open spec fn parse_u32(s: Seq<char>) -> Option<u32> {
    if is_numeral(s) && digits_value(unsigned_part(s)) <= u32::MAX {
        Some(digits_value(unsigned_part(s)) as u32)
    } else {
        None
    }
}

/// The version that `s` states: its first three dot-separated segments as
/// `u32`s; further segments are ignored.
pub open spec fn parse_version(s: Seq<char>) -> Option<Version> {
    let p = split_dots(s);
    if p.len() >= 3 && parse_u32(p[0]) is Some && parse_u32(p[1]) is Some && parse_u32(p[2]) is Some {
        Some(Version {
            major: parse_u32(p[0])->0,
            minor: parse_u32(p[1])->0,
            patch: parse_u32(p[2])->0,
        })
    } else {
        None
    }
}

/// A semantic version triple.
#[derive(Debug, Clone, Copy, PartialEq, Eq, Structural)]
pub struct Version {
    pub major: u32,
    pub minor: u32,
    pub patch: u32,
}

impl Version {
    /// The dotted rendering `major.minor.patch`.
    pub open spec fn text(self) -> Seq<char> {
        dec(self.major as nat) + seq!['.'] + dec(self.minor as nat) + seq!['.'] + dec(
            self.patch as nat,
        )
    }

    /// Parses a dotted version string. Fails with `VersionFormat` when there
    /// are fewer than three segments or one of the first three is not a `u32`.
    pub fn new(s: &str) -> (r: Result<Version, VersionInfoError>)
        ensures
            r == (match parse_version(s@) {
                Some(v) => Ok::<Version, VersionInfoError>(v),
                None => Err(VersionInfoError::VersionFormat),
            }),
    {
        let n = s.unicode_len();
        let mut done: Vec<Vec<char>> = Vec::new();
        let mut cur: Vec<char> = Vec::new();
        let mut i: usize = 0;
        while i < n
            invariant
                n == s@.len(),
                i <= n,
                split_dots(s@.take(i as int)) == done@.map_values(|v: Vec<char>| v@).push(cur@),
            decreases n - i,
        {
            let c = s.get_char(i);
            proof {
                lemma_split_step(s@, i as int);
            }
            if c == '.' {
                let finished = cur;
                done.push(finished);
                cur = Vec::new();
                assert(done@.map_values(|v: Vec<char>| v@).push(cur@) =~= split_dots(s@.take(i + 1)));
            } else {
                let ghost before = done@.map_values(|v: Vec<char>| v@).push(cur@);
                cur.push(c);
                assert(done@.map_values(|v: Vec<char>| v@).push(cur@) =~= before.update(
                    before.len() - 1,
                    before.last().push(c),
                ));
            }
            i = i + 1;
        }
        assert(s@.take(n as int) =~= s@);
        if done.len() < 2 {
            return Err(VersionInfoError::VersionFormat);
        }
        let major = parse_u32_chars(&done[0]);
        let minor = parse_u32_chars(&done[1]);
        let patch = if done.len() >= 3 {
            parse_u32_chars(&done[2])
        } else {
            parse_u32_chars(&cur)
        };
        match (major, minor, patch) {
            (Some(major), Some(minor), Some(patch)) => Ok(Version { major, minor, patch }),
            _ => Err(VersionInfoError::VersionFormat),
        }
    }

    /// Renders the version as `major.minor.patch`.
    pub fn as_string(&self) -> (r: String)
        ensures
            r@ == self.text(),
    {
        let mut out = String::new();
        push_dec(&mut out, self.major);
        push_char(&mut out, '.');
        push_dec(&mut out, self.minor);
        push_char(&mut out, '.');
        push_dec(&mut out, self.patch);
        out
    }
}

proof fn lemma_split_step(s: Seq<char>, i: int)
    requires
        0 <= i < s.len(),
    ensures
        split_dots(s.take(i + 1)) == ({
            let p = split_dots(s.take(i));
            if s[i] == '.' {
                p.push(Seq::<char>::empty())
            } else {
                p.update(p.len() - 1, p.last().push(s[i]))
            }
        }),
{
    assert(s.take(i + 1).drop_last() =~= s.take(i));
}

/// Parses the characters of `s` as a base-10 `u32`.
pub fn parse_u32_chars(s: &Vec<char>) -> (r: Option<u32>)
    ensures
        r == parse_u32(s@),
{
    let n = s.len();
    let start: usize = if n > 0 && s[0] == '+' { 1 } else { 0 };
    let ghost d = unsigned_part(s@);
    assert(d =~= s@.subrange(start as int, n as int));
    if start == n {
        return None;
    }
    let mut value: u64 = 0;
    let mut over = false;
    let mut i: usize = start;
    while i < n
        invariant
            start <= i <= n == s@.len(),
            d == s@.subrange(start as int, n as int),
            d == unsigned_part(s@),
            all_digits(s@.subrange(start as int, i as int)),
            !over ==> value == digits_value(s@.subrange(start as int, i as int)),
            !over ==> value <= u32::MAX,
            over ==> digits_value(s@.subrange(start as int, i as int)) > u32::MAX,
        decreases n - i,
    {
        let c = s[i];
        let cv = c as u32;
        let ghost pre = s@.subrange(start as int, i as int);
        let ghost next = s@.subrange(start as int, i + 1);
        assert(next.drop_last() =~= pre);
        if cv < 48 || cv > 57 {
            assert(!all_digits(d)) by {
                assert(d[i - start] == c);
                assert(!is_dec_digit(d[i - start]));
            }
            return None;
        }
        assert(all_digits(next)) by {
            assert forall|j: int| 0 <= j < next.len() implies is_dec_digit(#[trigger] next[j]) by {
                if j < pre.len() {
                    assert(next[j] == pre[j]);
                }
            }
        }
        let dv = (cv - 48) as u64;
        if !over {
            value = value * 10 + dv;
            if value > 0xffff_ffff {
                over = true;
            }
        }
        i = i + 1;
    }
    assert(s@.subrange(start as int, n as int) =~= d);
    if over {
        None
    } else {
        Some(value as u32)
    }
}

proof fn lemma_split_nonempty(s: Seq<char>)
    ensures
        split_dots(s).len() >= 1,
    decreases s.len(),
{
    if s.len() > 0 {
        lemma_split_nonempty(s.drop_last());
    }
}

proof fn lemma_split_without_dot(s: Seq<char>)
    requires
        forall|i: int| 0 <= i < s.len() ==> s[i] != '.',
    ensures
        split_dots(s) == seq![s],
    decreases s.len(),
{
    if s.len() > 0 {
        assert(s.last() != '.');
        lemma_split_without_dot(s.drop_last());
        assert(s.drop_last().push(s.last()) =~= s);
        assert(seq![s.drop_last()].update(0, s.drop_last().push(s.last())) =~= seq![s]);
    } else {
        assert(s =~= Seq::<char>::empty());
    }
}

proof fn lemma_split_at_dot(x: Seq<char>, y: Seq<char>)
    ensures
        split_dots(x + seq!['.'] + y) == split_dots(x) + split_dots(y),
    decreases y.len(),
{
    let s = x + seq!['.'] + y;
    lemma_split_nonempty(x);
    lemma_split_nonempty(y);
    if y.len() == 0 {
        assert(s.drop_last() =~= x);
        assert(split_dots(x).push(Seq::<char>::empty()) =~= split_dots(x) + split_dots(y));
    } else {
        let y0 = y.drop_last();
        assert(s.drop_last() =~= x + seq!['.'] + y0);
        lemma_split_at_dot(x, y0);
        lemma_split_nonempty(y0);
        let p = split_dots(x) + split_dots(y0);
        if y.last() == '.' {
            assert(p.push(Seq::<char>::empty()) =~= split_dots(x) + split_dots(y));
        } else {
            assert(p.update(p.len() - 1, p.last().push(y.last())) =~= split_dots(x) + split_dots(
                y,
            ));
        }
    }
}

proof fn lemma_dec_numeral(n: nat)
    ensures
        dec(n).len() > 0,
        all_digits(dec(n)),
        digits_value(dec(n)) == n,
        dec(n)[0] != '+',
        forall|i: int| 0 <= i < dec(n).len() ==> dec(n)[i] != '.',
    decreases n,
{
    if n >= 10 {
        lemma_dec_numeral(n / 10);
        let d = dec(n);
        assert(d.drop_last() =~= dec(n / 10));
        assert forall|i: int| 0 <= i < d.len() implies is_dec_digit(#[trigger] d[i]) && d[i]
            != '.' by {
            if i < d.len() - 1 {
                assert(d[i] == dec(n / 10)[i]);
            }
        }
    }
    let m = n % 10;
    assert(dec_value(digit_char(m)) == m);
    if n < 10 {
        assert(dec(n).drop_last() =~= Seq::<char>::empty());
        assert(digits_value(dec(n).drop_last()) == 0);
        assert(dec(n).last() == digit_char(m));
    } else {
        let d = dec(n);
        assert(d.last() == digit_char(m));
        assert(digits_value(d) == digits_value(dec(n / 10)) * 10 + dec_value(digit_char(m)));
        assert((n / 10) * 10 + m == n);
    }
}

/// Rendering a version and parsing the text gives the version back, and the
/// text of every canonical `a.b.c` (no leading zeros) is exactly its rendering.
pub proof fn lemma_version_round_trip(a: u32, b: u32, c: u32)
    ensures
        parse_version(dec(a as nat) + seq!['.'] + dec(b as nat) + seq!['.'] + dec(c as nat))
            == Some(Version { major: a, minor: b, patch: c }),
        (Version { major: a, minor: b, patch: c }).text() == dec(a as nat) + seq!['.'] + dec(
            b as nat,
        ) + seq!['.'] + dec(c as nat),
{
    let (da, db, dc) = (dec(a as nat), dec(b as nat), dec(c as nat));
    lemma_dec_numeral(a as nat);
    lemma_dec_numeral(b as nat);
    lemma_dec_numeral(c as nat);
    lemma_split_without_dot(da);
    lemma_split_without_dot(db);
    lemma_split_without_dot(dc);
    lemma_split_at_dot(db, dc);
    assert(da + seq!['.'] + db + seq!['.'] + dc =~= da + seq!['.'] + (db + seq!['.'] + dc));
    lemma_split_at_dot(da, db + seq!['.'] + dc);
    let p = split_dots(da + seq!['.'] + db + seq!['.'] + dc);
    assert(p =~= seq![da, db, dc]);
    assert(unsigned_part(da) == da);
    assert(unsigned_part(db) == db);
    assert(unsigned_part(dc) == dc);
}

/// A string with fewer than three dot-separated segments, or whose first,
/// second or third segment is not a numeral, is not a version.
pub proof fn lemma_malformed_version_rejected(s: Seq<char>)
    requires
        split_dots(s).len() < 3 || !is_numeral(split_dots(s)[0]) || !is_numeral(
            split_dots(s)[1],
        ) || !is_numeral(split_dots(s)[2]),
    ensures
        parse_version(s) is None,
{
}

} // verus!
