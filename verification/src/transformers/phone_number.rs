//! Validates and normalizes North-American-format phone numbers.

use vstd::prelude::*;

verus! {

use vstd::string::{StrSliceExecFns, StringExecFns};
use crate::text::{all_digits, is_digit, is_digit_char, str_range_all_digits};
use crate::transformer::{OutcomeV, TransformResult, TransformResultHelper, Transformer, error_v};

/// The position of the first digit of `t` at or after `i`, or `t.len()`
/// when there is none.
pub open spec fn first_digit_at(t: Seq<char>, i: int) -> int
    decreases t.len() - i,
{
    if i < 0 || i >= t.len() {
        t.len() as int
    } else if is_digit(t[i]) {
        i
    } else {
        first_digit_at(t, i + 1)
    }
}

/// The area, exchange and subscriber groups of a number without its country
/// code: runs of non-digits, then three consecutive digits, twice, then four
/// consecutive digits ending the value.
pub open spec fn nanp_groups(t: Seq<char>) -> Option<(Seq<char>, Seq<char>, Seq<char>)> {
    let a0 = first_digit_at(t, 0);
    if a0 + 3 <= t.len() && all_digits(t.subrange(a0, a0 + 3)) {
        let e0 = first_digit_at(t, a0 + 3);
        if e0 + 3 <= t.len() && all_digits(t.subrange(e0, e0 + 3)) {
            let u0 = first_digit_at(t, e0 + 3);
            if u0 + 4 == t.len() && all_digits(t.subrange(u0, u0 + 4)) {
                Some((t.subrange(a0, a0 + 3), t.subrange(e0, e0 + 3), t.subrange(u0, u0 + 4)))
            } else {
                None
            }
        } else {
            None
        }
    } else {
        None
    }
}

/// The groups of `s` read as a North-American number: an optional leading
/// country code `1` or `+1` is stripped when the remainder still parses,
/// else the whole value is read.
pub open spec fn nanp_parse(s: Seq<char>) -> Option<(Seq<char>, Seq<char>, Seq<char>)> {
    let stripped = if s.len() >= 2 && s[0] == '+' && s[1] == '1' {
        s.skip(2)
    } else if s.len() >= 1 && s[0] == '1' {
        s.skip(1)
    } else {
        s
    };
    if nanp_groups(stripped) is Some {
        nanp_groups(stripped)
    } else {
        nanp_groups(s)
    }
}

/// The normal form `+1 AAA EEE SSSS` of a matching value.
pub open spec fn nanp_normalized(s: Seq<char>) -> Option<Seq<char>> {
    match nanp_parse(s) {
        Some((a, e, u)) => Some("+1 "@ + a + seq![' '] + e + seq![' '] + u),
        None => None,
    }
}

proof fn lemma_first_digit_at_range(t: Seq<char>, i: int)
    requires
        0 <= i <= t.len(),
    ensures
        i <= first_digit_at(t, i) <= t.len(),
        forall|j: int| i <= j < first_digit_at(t, i) ==> !is_digit(#[trigger] t[j]),
        first_digit_at(t, i) < t.len() ==> is_digit(t[first_digit_at(t, i)]),
    decreases t.len() - i,
{
    if i < t.len() && !is_digit(t[i]) {
        lemma_first_digit_at_range(t, i + 1);
    }
}

/// The position of the first digit of `s` at or after `from`.
fn skip_non_digits(s: &str, from: usize, n: usize) -> (j: usize)
    requires
        from <= n,
        n == s@.len(),
    ensures
        from <= j <= n,
        j == first_digit_at(s@, from as int),
{
    let mut j: usize = from;
    while j < n && !is_digit_char(s.get_char(j))
        invariant
            from <= j <= n,
            n == s@.len(),
            first_digit_at(s@, from as int) == first_digit_at(s@, j as int),
        decreases n - j,
    {
        j = j + 1;
    }
    j
}

/// Reads the three groups of `s` starting at `start`, requiring the value
/// to end right after the subscriber group; `None` when it does not parse.
fn nanp_groups_exec(s: &str, start: usize, n: usize) -> (r: Option<(usize, usize, usize)>)
    requires
        start <= n,
        n == s@.len(),
    ensures
        match r {
            Some((a0, e0, u0)) => a0 + 3 <= n && e0 + 3 <= n && u0 + 4 == n && nanp_groups(
                s@.skip(start as int),
            ) == Some(
                (
                    s@.subrange(a0 as int, a0 + 3),
                    s@.subrange(e0 as int, e0 + 3),
                    s@.subrange(u0 as int, u0 + 4),
                ),
            ),
            None => nanp_groups(s@.skip(start as int)) is None,
        },
{
    let ghost t = s@.skip(start as int);
    proof {
        lemma_skip_first_digit(s@, start as int, start as int);
    }
    let a0 = skip_non_digits(s, start, n);
    if n - a0 < 3 {
        return None;
    }
    proof {
        lemma_subrange_shift(s@, start as int, a0 as int, a0 + 3);
    }
    if !str_range_all_digits(s, a0, a0 + 3) {
        return None;
    }
    proof {
        lemma_skip_first_digit(s@, start as int, a0 + 3);
    }
    let e0 = skip_non_digits(s, a0 + 3, n);
    if n - e0 < 3 {
        return None;
    }
    proof {
        lemma_subrange_shift(s@, start as int, e0 as int, e0 + 3);
    }
    if !str_range_all_digits(s, e0, e0 + 3) {
        return None;
    }
    proof {
        lemma_skip_first_digit(s@, start as int, e0 + 3);
    }
    let u0 = skip_non_digits(s, e0 + 3, n);
    if n - u0 != 4 {
        return None;
    }
    proof {
        lemma_subrange_shift(s@, start as int, u0 as int, u0 + 4);
    }
    if !str_range_all_digits(s, u0, u0 + 4) {
        return None;
    }
    Some((a0, e0, u0))
}

/// A window of the tail `s.skip(start)` is the same window of `s`, shifted.
proof fn lemma_subrange_shift(s: Seq<char>, start: int, x: int, y: int)
    requires
        0 <= start <= x <= y <= s.len(),
    ensures
        s.skip(start).subrange(x - start, y - start) == s.subrange(x, y),
{
    assert(s.skip(start).subrange(x - start, y - start) =~= s.subrange(x, y));
}

/// Skipping within the tail equals skipping within the whole, shifted.
proof fn lemma_skip_first_digit(s: Seq<char>, start: int, from: int)
    requires
        0 <= start <= from <= s.len(),
    ensures
        first_digit_at(s, from) - start == first_digit_at(s.skip(start), from - start),
    decreases s.len() - from,
{
    if from < s.len() {
        assert(s.skip(start)[from - start] == s[from]);
        if !is_digit(s[from]) {
            lemma_skip_first_digit(s, start, from + 1);
        }
    }
}

/// Accepts a North-American number tolerant of separators and parentheses,
/// with an optional leading country code `1`, normalizing it to
/// `+1 AAA EEE SSSS`; fails on anything else.
#[derive(Debug)]
pub struct PhoneNumberTransformer {

}

impl PhoneNumberTransformer {
    pub fn expect_nanp_format() -> (t: PhoneNumberTransformer)
        ensures
            t == (PhoneNumberTransformer {  }),
    {
        PhoneNumberTransformer {  }
    }
}

impl Transformer for PhoneNumberTransformer {
    open spec fn transform_spec(&self, field_value: Seq<char>, field_name: Seq<char>, record_n: int)
        -> OutcomeV {
        match nanp_normalized(field_value) {
            Some(p) => OutcomeV::Present(p),
            None => OutcomeV::Failed(
                error_v(
                    field_value,
                    field_name,
                    record_n,
                    "not a valid NANP format phone number"@,
                ),
            ),
        }
    }

    fn transform(&self, field_value: &str, field_name: &str, record_n: usize) -> (r:
        TransformResult) {
        let n = field_value.unicode_len();
        let prefix: usize = if n >= 2 && field_value.get_char(0) == '+' && field_value.get_char(1)
            == '1' {
            2
        } else if n >= 1 && field_value.get_char(0) == '1' {
            1
        } else {
            0
        };
        proof {
            assert(field_value@.skip(0) =~= field_value@);
        }
        let groups = match nanp_groups_exec(field_value, prefix, n) {
            Some(g) => Some(g),
            None => {
                if prefix > 0 {
                    nanp_groups_exec(field_value, 0, n)
                } else {
                    None
                }
            },
        };
        match groups {
            Some((a0, e0, u0)) => {
                let mut p = String::from_str("+1 ");
                p.append(field_value.substring_char(a0, a0 + 3));
                p.append(" ");
                p.append(field_value.substring_char(e0, e0 + 3));
                p.append(" ");
                p.append(field_value.substring_char(u0, u0 + 4));
                proof {
                    reveal_strlit(" ");
                    assert(nanp_parse(field_value@) == Some(
                        (
                            field_value@.subrange(a0 as int, a0 + 3),
                            field_value@.subrange(e0 as int, e0 + 3),
                            field_value@.subrange(u0 as int, u0 + 4),
                        ),
                    ));
                    assert(p@ =~= nanp_normalized(field_value@).unwrap());
                }
                Ok(Some(p))
            },
            None => {
                proof {
                    assert(nanp_normalized(field_value@) is None);
                }
                TransformResult::error(
                    field_value,
                    field_name,
                    record_n,
                    "not a valid NANP format phone number",
                )
            },
        }
    }
}

} // verus!
