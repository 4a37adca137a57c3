//! Parsing of comma-separated trace lines: splitting on commas and reading
//! unsigned decimal numbers. A field that is not a plain decimal number, or
//! one whose value does not fit, parses to nothing.

use vstd::prelude::*;
use vstd::slice::{slice_subrange, slice_to_vec};
use crate::samples::window_view;

verus! {

/// Position of the first comma; the length when there is none.
pub open spec fn first_comma(s: Seq<u8>) -> int
    decreases s.len(),
{
    if s.len() == 0 {
        0
    } else if s[0] == 44u8 {
        0
    } else {
        1 + first_comma(s.drop_first())
    }
}

/// The fields of a line split at every comma; a line without commas is one
/// field, and every comma separates two (possibly empty) fields.
pub open spec fn csv_fields(s: Seq<u8>) -> Seq<Seq<u8>>
    decreases s.len(),
{
    let i = first_comma(s);
    if 0 <= i < s.len() {
        seq![s.take(i)] + csv_fields(s.skip(i + 1))
    } else {
        seq![s]
    }
}

/// Position of the first comma, if any.
#[verifier::loop_isolation(false)]
fn find_comma(line: &[u8]) -> (r: Option<usize>)
    ensures
        match r {
            Some(i) => i as int == first_comma(line@) && (i as int) < line@.len(),
            None => first_comma(line@) >= line@.len(),
        },
{
    let n = line.len();
    let mut i: usize = 0;
    proof {
        assert(line@.skip(0) =~= line@);
    }
    while i < n
        invariant
            i <= n,
            first_comma(line@) == i + first_comma(line@.skip(i as int)),
        decreases n - i,
    {
        if line[i] == 44 {
            return Some(i);
        }
        proof {
            assert(line@.skip(i as int).drop_first() =~= line@.skip(i as int + 1));
        }
        i = i + 1;
    }
    None
}

/// Split a line at every comma, in order.
#[verifier::loop_isolation(false)]
pub fn split_commas(line: &[u8]) -> (parts: Vec<Vec<u8>>)
    ensures
        window_view(parts@) == csv_fields(line@),
{
    let mut parts: Vec<Vec<u8>> = Vec::new();
    let mut rest: &[u8] = line;
    let ghost full = line@;
    loop
        invariant
            csv_fields(full) == window_view(parts@) + csv_fields(rest@),
        decreases rest@.len(),
    {
        match find_comma(rest) {
            Some(i) => {
                let rl = rest.len();
                let field = slice_to_vec(slice_subrange(rest, 0, i));
                let next = slice_subrange(rest, i + 1, rl);
                proof {
                    assert(field@ =~= rest@.take(i as int));
                    assert(next@ =~= rest@.skip(i as int + 1));
                }
                parts.push(field);
                proof {
                    assert(window_view(parts@) =~= window_view(parts@.drop_last()).push(
                        rest@.take(i as int),
                    ));
                    assert(csv_fields(full) =~= window_view(parts@) + csv_fields(next@));
                }
                rest = next;
            },
            None => {
                parts.push(slice_to_vec(rest));
                proof {
                    assert(window_view(parts@) =~= window_view(parts@.drop_last()).push(rest@));
                    assert(window_view(parts@) =~= window_view(parts@.drop_last()) + csv_fields(
                        rest@,
                    ));
                }
                return parts;
            },
        }
    }
}

/// A non-empty run of ASCII decimal digits.
pub open spec fn is_digits(s: Seq<u8>) -> bool {
    s.len() > 0 && forall|i: int| 0 <= i < s.len() ==> 48 <= #[trigger] s[i] <= 57
}

/// The number a run of decimal digits denotes.
pub open spec fn digits_value(s: Seq<u8>) -> int
    decreases s.len(),
{
    if s.len() == 0 {
        0
    } else {
        digits_value(s.drop_last()) * 10 + (s.last() - 48)
    }
}

/// A digit run's value is never negative.
pub proof fn lemma_digits_value_nonneg(s: Seq<u8>)
    requires
        forall|i: int| 0 <= i < s.len() ==> 48 <= #[trigger] s[i] <= 57,
    ensures
        digits_value(s) >= 0,
    decreases s.len(),
{
    if s.len() > 0 {
        assert(forall|i: int| 0 <= i < s.len() - 1 ==> s.drop_last()[i] == s[i]);
        lemma_digits_value_nonneg(s.drop_last());
    }
}

/// A prefix of a digit run never denotes more than the whole run.
pub proof fn lemma_digits_prefix_le(s: Seq<u8>, i: int)
    requires
        forall|k: int| 0 <= k < s.len() ==> 48 <= #[trigger] s[k] <= 57,
        0 <= i <= s.len(),
    ensures
        digits_value(s.take(i)) <= digits_value(s),
    decreases s.len() - i,
{
    if i < s.len() {
        assert(s.take(i + 1).drop_last() =~= s.take(i));
        assert(s.take(i + 1).last() == s[i]);
        lemma_digits_value_nonneg(s.take(i));
        lemma_digits_prefix_le(s, i + 1);
    } else {
        assert(s.take(i) =~= s);
    }
}

/// Read a field as an unsigned decimal number; nothing unless the field is a
/// non-empty run of digits whose value fits.
#[verifier::loop_isolation(false)]
pub fn parse_u64(field: &[u8]) -> (r: Option<u64>)
    ensures
        match r {
            Some(v) => is_digits(field@) && v == digits_value(field@),
            None => !is_digits(field@) || digits_value(field@) > u64::MAX,
        },
{
    let n = field.len();
    if n == 0 {
        return None;
    }
    let mut acc: u128 = 0;
    let mut i: usize = 0;
    proof {
        assert(field@.take(0) =~= Seq::<u8>::empty());
    }
    while i < n
        invariant
            i <= n,
            acc == digits_value(field@.take(i as int)),
            acc <= u64::MAX,
            forall|k: int| 0 <= k < i ==> 48 <= #[trigger] field@[k] <= 57,
        decreases n - i,
    {
        let b = field[i];
        if b < 48 || b > 57 {
            return None;
        }
        proof {
            assert(field@.take(i as int + 1).drop_last() =~= field@.take(i as int));
            assert(field@.take(i as int + 1).last() == field@[i as int]);
        }
        acc = acc * 10 + (b - 48) as u128;
        i = i + 1;
        if acc > u64::MAX as u128 {
            proof {
                if is_digits(field@) {
                    lemma_digits_prefix_le(field@, i as int);
                }
            }
            return None;
        }
    }
    proof {
        assert(field@.take(n as int) =~= field@);
    }
    Some(acc as u64)
}

/// Read a field as a 16-bit unsigned decimal number.
pub fn parse_u16(field: &[u8]) -> (r: Option<u16>)
    ensures
        match r {
            Some(v) => is_digits(field@) && v == digits_value(field@),
            None => !is_digits(field@) || digits_value(field@) > u16::MAX,
        },
{
    match parse_u64(field) {
        Some(v) => if v <= u16::MAX as u64 {
            Some(v as u16)
        } else {
            None
        },
        None => {
            proof {
                if is_digits(field@) {
                    lemma_digits_value_nonneg(field@);
                }
            }
            None
        },
    }
}

/// Read a field as a 32-bit unsigned decimal number.
pub fn parse_u32(field: &[u8]) -> (r: Option<u32>)
    ensures
        match r {
            Some(v) => is_digits(field@) && v == digits_value(field@),
            None => !is_digits(field@) || digits_value(field@) > u32::MAX,
        },
{
    match parse_u64(field) {
        Some(v) => if v <= u32::MAX as u64 {
            Some(v as u32)
        } else {
            None
        },
        None => {
            proof {
                if is_digits(field@) {
                    lemma_digits_value_nonneg(field@);
                }
            }
            None
        },
    }
}

} // verus!
