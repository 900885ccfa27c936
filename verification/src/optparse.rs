//! Best-effort typed parsing of an attribute value given as text, for
//! `key=value` options from a command line.
//!
//! The recognized lexical forms are fixed: `true` and `false` become
//! booleans, a signed 32-bit integer becomes an integer, `a..b` with
//! two integers becomes a range, `AxB` with an optional `dpi` or
//! `dpcm` suffix becomes a resolution, and anything else is a keyword.

use vstd::prelude::*;

use crate::names::{spec_dpcm_suffix, spec_dpi_suffix, spec_false_lit, spec_true_lit};
use crate::value::{IppResolution, IppValue, ValueV};

verus! {

/// Whether `c` is an ASCII decimal digit.
pub open spec fn is_digit(c: u8) -> bool {
    0x30 <= c <= 0x39
}

/// Whether `s` is one or more decimal digits.
pub open spec fn all_digits(s: Seq<u8>) -> bool {
    s.len() >= 1 && forall|i: int| 0 <= i < s.len() ==> is_digit(#[trigger] s[i])
}

/// The number the digits `s` spell.
pub open spec fn digits_val(s: Seq<u8>) -> int
    decreases s.len(),
{
    if s.len() == 0 {
        0
    } else {
        digits_val(s.take(s.len() - 1)) * 10 + (s[s.len() - 1] - 0x30)
    }
}

/// Whether `s` is an optionally negated digit string.
pub open spec fn is_int_lit(s: Seq<u8>) -> bool {
    if s.len() >= 1 && s[0] == 0x2D {
        all_digits(s.skip(1))
    } else {
        all_digits(s)
    }
}

/// The signed value an integer literal spells.
pub open spec fn int_lit_val(s: Seq<u8>) -> int
    recommends
        is_int_lit(s),
{
    if s.len() >= 1 && s[0] == 0x2D {
        -digits_val(s.skip(1))
    } else {
        digits_val(s)
    }
}

/// Whether `s` spells a value that fits an `i32`.
pub open spec fn is_i32_lit(s: Seq<u8>) -> bool {
    is_int_lit(s) && -0x8000_0000 <= int_lit_val(s) <= 0x7FFF_FFFF
}

/// The first position where `..` stands, if any.
pub open spec fn first_dotdot(s: Seq<u8>) -> Option<int>
    decreases s.len(),
{
    if s.len() < 2 {
        None
    } else if s[0] == 0x2E && s[1] == 0x2E {
        Some(0)
    } else {
        match first_dotdot(s.skip(1)) {
            None => None,
            Some(k) => Some(k + 1),
        }
    }
}

/// The first position of the byte `c`, if any.
pub open spec fn first_byte(s: Seq<u8>, c: u8) -> Option<int>
    decreases s.len(),
{
    if s.len() == 0 {
        None
    } else if s[0] == c {
        Some(0)
    } else {
        match first_byte(s.skip(1), c) {
            None => None,
            Some(k) => Some(k + 1),
        }
    }
}

/// Whether `s` ends with `suffix`.
pub open spec fn ends_with(s: Seq<u8>, suffix: Seq<u8>) -> bool {
    s.len() >= suffix.len() && s.skip(s.len() - suffix.len()) == suffix
}

/// Whether `s` is a range literal `a..b` of two `i32` parts, split at
/// the first `..`.
pub open spec fn is_range_lit(s: Seq<u8>) -> bool {
    match first_dotdot(s) {
        None => false,
        Some(k) => is_i32_lit(s.take(k)) && is_i32_lit(s.skip(k + 2)),
    }
}

/// The resolution core and unit byte of `s`: a `dpcm` suffix means
/// dots per centimetre (4), anything else dots per inch (3).
pub open spec fn resolution_core(s: Seq<u8>) -> (Seq<u8>, u8) {
    if ends_with(s, spec_dpcm_suffix()) {
        (s.take(s.len() - 4), 4u8)
    } else if ends_with(s, spec_dpi_suffix()) {
        (s.take(s.len() - 3), 3u8)
    } else {
        (s, 3u8)
    }
}

/// Whether the resolution core is `AxB` with two `i32` parts, split at
/// the first `x`.
pub open spec fn is_resolution_core(core: Seq<u8>) -> bool {
    match first_byte(core, 0x78) {
        None => false,
        Some(k) => is_i32_lit(core.take(k)) && is_i32_lit(core.skip(k + 1)),
    }
}

/// The typed value a text form spells: `true`/`false`, a signed
/// integer, `a..b`, `AxB[dpi|dpcm]`, or a keyword for anything else.
pub open spec fn parse_option_value_spec(s: Seq<u8>) -> ValueV {
    if s == spec_true_lit() {
        ValueV::Boolean(true)
    } else if s == spec_false_lit() {
        ValueV::Boolean(false)
    } else if is_i32_lit(s) {
        ValueV::Integer(int_lit_val(s) as i32)
    } else if is_range_lit(s) {
        let k = first_dotdot(s)->Some_0;
        ValueV::RangeOfInteger {
            min: int_lit_val(s.take(k)) as i32,
            max: int_lit_val(s.skip(k + 2)) as i32,
        }
    } else if is_resolution_core(resolution_core(s).0) {
        let core = resolution_core(s).0;
        let k = first_byte(core, 0x78)->Some_0;
        ValueV::Resolution(
            IppResolution {
                cross_feed: int_lit_val(core.take(k)) as i32,
                feed: int_lit_val(core.skip(k + 1)) as i32,
                units: resolution_core(s).1,
            },
        )
    } else {
        ValueV::Keyword(s)
    }
}

/// Parses the digits of `s[from..]`: the value when it fits 32 bits,
/// nothing when a byte is not a digit or the value is too large.
fn parse_digits(s: &Vec<u8>, from: usize) -> (r: Option<u64>)
    requires
        from <= s@.len(),
    ensures
        match r {
            Some(v) => all_digits(s@.skip(from as int)) && v == digits_val(s@.skip(from as int))
                && v < 0x1_0000_0000,
            None => !all_digits(s@.skip(from as int)) || digits_val(s@.skip(from as int))
                >= 0x1_0000_0000,
        },
{
    let ghost d = s@.skip(from as int);
    let n: usize = s.len();
    if from == n {
        return None;
    }
    let mut acc: u64 = 0;
    let mut over: bool = false;
    let mut i: usize = from;
    proof {
        assert(d.take(0) =~= Seq::<u8>::empty());
    }
    while i < n
        invariant
            from <= i <= n,
            n == s@.len(),
            from < n,
            d == s@.skip(from as int),
            forall|j: int| 0 <= j < i - from ==> is_digit(#[trigger] d[j]),
            !over ==> acc == digits_val(d.take(i - from)) && acc < 0x1_0000_0000,
            over ==> digits_val(d.take(i - from)) >= 0x1_0000_0000,
        decreases n - i,
    {
        let c = s[i];
        proof {
            assert(d[i - from] == s@[i as int]);
        }
        if !(0x30 <= c && c <= 0x39) {
            proof {
                assert(!is_digit(d[i - from]));
            }
            return None;
        }
        proof {
            assert(d.take(i - from + 1).take(i - from) =~= d.take(i - from));
            assert(d.take(i - from + 1)[i - from] == d[i - from]);
            assert(digits_val(d.take(i - from + 1)) == digits_val(d.take(i - from)) * 10 + (
            d[i - from] - 0x30));
        }
        if over || acc >= 0x1_0000_0000 {
            proof {
                assert(digits_val(d.take(i - from)) * 10 >= digits_val(d.take(i - from)));
            }
            over = true;
        } else {
            acc = acc * 10 + ((c - 0x30) as u64);
            if acc >= 0x1_0000_0000 {
                over = true;
            }
        }
        i = i + 1;
    }
    proof {
        assert(d.take(n - from) =~= d);
        assert(all_digits(d));
    }
    if over {
        None
    } else {
        Some(acc)
    }
}

/// Parses `s` as a signed 32-bit integer literal, exactly when
/// [`is_i32_lit`] holds of it.
pub fn parse_i32_lit(s: &Vec<u8>) -> (r: Option<i32>)
    ensures
        match r {
            Some(v) => is_i32_lit(s@) && v == int_lit_val(s@),
            None => !is_i32_lit(s@),
        },
{
    let n: usize = s.len();
    if n == 0 {
        return None;
    }
    if s[0] == 0x2D {
        match parse_digits(s, 1) {
            None => None,
            Some(v) => {
                if v <= 0x8000_0000 {
                    let r: i32 = (-(v as i64)) as i32;
                    Some(r)
                } else {
                    None
                }
            },
        }
    } else {
        proof {
            assert(s@.skip(0) =~= s@);
        }
        match parse_digits(s, 0) {
            None => None,
            Some(v) => {
                if v <= 0x7FFF_FFFF {
                    Some(v as i32)
                } else {
                    None
                }
            },
        }
    }
}

/// The index characterization of [`first_dotdot`].
proof fn lemma_first_dotdot(s: Seq<u8>, k: int)
    requires
        0 <= k,
        k + 2 <= s.len(),
        s[k] == 0x2E && s[k + 1] == 0x2E,
        forall|j: int| 0 <= j < k ==> !(#[trigger] s[j] == 0x2E && s[j + 1] == 0x2E),
    ensures
        first_dotdot(s) == Some(k),
    decreases k,
{
    if k > 0 {
        lemma_first_dotdot(s.skip(1), k - 1);
    }
}

/// When no `..` stands in `s`, the search is empty.
proof fn lemma_first_dotdot_none(s: Seq<u8>)
    requires
        forall|j: int| 0 <= j && j + 2 <= s.len() ==> !(#[trigger] s[j] == 0x2E && s[j + 1] == 0x2E),
    ensures
        first_dotdot(s) is None,
    decreases s.len(),
{
    if s.len() >= 2 {
        lemma_first_dotdot_none(s.skip(1));
    }
}

/// The index characterization of [`first_byte`].
proof fn lemma_first_byte(s: Seq<u8>, c: u8, k: int)
    requires
        0 <= k < s.len(),
        s[k] == c,
        forall|j: int| 0 <= j < k ==> s[j] != c,
    ensures
        first_byte(s, c) == Some(k),
    decreases k,
{
    if k > 0 {
        lemma_first_byte(s.skip(1), c, k - 1);
    }
}

/// When `c` does not stand in `s`, the search is empty.
proof fn lemma_first_byte_none(s: Seq<u8>, c: u8)
    requires
        forall|j: int| 0 <= j < s.len() ==> s[j] != c,
    ensures
        first_byte(s, c) is None,
    decreases s.len(),
{
    if s.len() > 0 {
        lemma_first_byte_none(s.skip(1), c);
    }
}

/// The first position of `..` in `s` (runtime form).
fn find_dotdot(s: &Vec<u8>) -> (r: Option<usize>)
    ensures
        match r {
            Some(k) => k + 2 <= s@.len() && first_dotdot(s@) == Some(k as int),
            None => first_dotdot(s@) is None,
        },
{
    let n: usize = s.len();
    if n < 2 {
        proof {
            lemma_first_dotdot_none(s@);
        }
        return None;
    }
    let mut i: usize = 0;
    while i < n - 1
        invariant
            i <= n - 1,
            n == s@.len(),
            n >= 2,
            forall|j: int| 0 <= j < i ==> !(#[trigger] s@[j] == 0x2E && s@[j + 1] == 0x2E),
        decreases n - i,
    {
        if s[i] == 0x2E && s[i + 1] == 0x2E {
            proof {
                lemma_first_dotdot(s@, i as int);
            }
            return Some(i);
        }
        i = i + 1;
    }
    proof {
        lemma_first_dotdot_none(s@);
    }
    None
}

/// The first position of `c` in `s` (runtime form).
fn find_byte(s: &Vec<u8>, c: u8) -> (r: Option<usize>)
    ensures
        match r {
            Some(k) => k < s@.len() && first_byte(s@, c) == Some(k as int),
            None => first_byte(s@, c) is None,
        },
{
    let n: usize = s.len();
    let mut i: usize = 0;
    while i < n
        invariant
            i <= n,
            n == s@.len(),
            forall|j: int| 0 <= j < i ==> s@[j] != c,
        decreases n - i,
    {
        if s[i] == c {
            proof {
                lemma_first_byte(s@, c, i as int);
            }
            return Some(i);
        }
        i = i + 1;
    }
    proof {
        lemma_first_byte_none(s@, c);
    }
    None
}

/// Whether `s` ends with `suffix` (runtime form).
fn ends_with_exec(s: &Vec<u8>, suffix: &Vec<u8>) -> (r: bool)
    ensures
        r == ends_with(s@, suffix@),
{
    let sn: usize = s.len();
    let xn: usize = suffix.len();
    if sn < xn {
        return false;
    }
    let tail = crate::wire::copy_range(s, sn - xn, sn);
    let eq = crate::attribute::bytes_eq(&tail, suffix);
    proof {
        assert(s@.subrange(sn - xn, sn as int) =~= s@.skip(sn - xn));
    }
    eq
}

/// Parses a textual option value into its typed form, exactly as
/// [`parse_option_value_spec`] says.
pub fn parse_option_value(s: Vec<u8>) -> (r: IppValue)
    ensures
        r@ == parse_option_value_spec(s@),
{
    let true_lit = crate::names::true_lit();
    let false_lit = crate::names::false_lit();
    if crate::attribute::bytes_eq(&s, &true_lit) {
        return IppValue::Boolean(true);
    }
    if crate::attribute::bytes_eq(&s, &false_lit) {
        return IppValue::Boolean(false);
    }
    if let Some(v) = parse_i32_lit(&s) {
        return IppValue::Integer(v);
    }
    if let Some(k) = find_dotdot(&s) {
        let total: usize = s.len();
        let left = crate::wire::copy_range(&s, 0, k);
        let right = crate::wire::copy_range(&s, k + 2, total);
        proof {
            assert(left@ =~= s@.take(k as int));
            assert(right@ =~= s@.skip(k as int + 2));
        }
        if let Some(min) = parse_i32_lit(&left) {
            if let Some(max) = parse_i32_lit(&right) {
                return IppValue::RangeOfInteger { min, max };
            }
        }
    }
    let dpcm = crate::names::dpcm_suffix();
    let dpi = crate::names::dpi_suffix();
    let (core, units): (Vec<u8>, u8) = if ends_with_exec(&s, &dpcm) {
        let c = crate::wire::copy_range(&s, 0, s.len() - 4);
        proof {
            assert(c@ =~= s@.take(s@.len() - 4));
        }
        (c, 4)
    } else if ends_with_exec(&s, &dpi) {
        let c = crate::wire::copy_range(&s, 0, s.len() - 3);
        proof {
            assert(c@ =~= s@.take(s@.len() - 3));
        }
        (c, 3)
    } else {
        let c = crate::wire::copy_range(&s, 0, s.len());
        proof {
            assert(c@ =~= s@);
        }
        (c, 3)
    };
    proof {
        assert(core@ == resolution_core(s@).0);
        assert(units == resolution_core(s@).1);
    }
    if let Some(k) = find_byte(&core, 0x78) {
        let left = crate::wire::copy_range(&core, 0, k);
        let right = crate::wire::copy_range(&core, k + 1, core.len());
        proof {
            assert(left@ =~= core@.take(k as int));
            assert(right@ =~= core@.skip(k as int + 1));
        }
        if let Some(cross_feed) = parse_i32_lit(&left) {
            if let Some(feed) = parse_i32_lit(&right) {
                return IppValue::Resolution(IppResolution { cross_feed, feed, units });
            }
        }
    }
    IppValue::Keyword(s)
}

} // verus!
