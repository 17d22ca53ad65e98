//! Validates email addresses and lowercases them.

use vstd::prelude::*;

verus! {

use vstd::string::StrSliceExecFns;
use crate::text::{chars_to_string, is_digit, is_digit_char};
use crate::transformer::{OutcomeV, TransformResult, TransformResultHelper, Transformer, error_v};

/// An ASCII letter, of either case.
pub open spec fn is_ascii_alpha(c: char) -> bool {
    let u: int = c as int;
    (0x41 <= u && u <= 0x5A) || (0x61 <= u && u <= 0x7A)
}

/// An ASCII letter or digit.
pub open spec fn is_alnum(c: char) -> bool {
    is_ascii_alpha(c) || is_digit(c)
}

pub fn is_alnum_char(c: char) -> (b: bool)
    ensures
        b == is_alnum(c),
{
    let u: u32 = c as u32;
    (0x41 <= u && u <= 0x5A) || (0x61 <= u && u <= 0x7A) || is_digit_char(c)
}

/// A character allowed in the local part of an address, besides the dot:
/// letters, digits, and the symbols of the lite address grammar.
pub open spec fn is_local_char(c: char) -> bool {
    is_alnum(c) || c == '!' || c == '#' || c == '$' || c == '%' || c == '&' || c == '\'' || c == '*'
        || c == '+' || c == '/' || c == '=' || c == '?' || c == '^' || c == '_' || c == '`' || c
        == '{' || c == '|' || c == '}' || c == '~' || c == '-'
}

pub fn is_local_char_exec(c: char) -> (b: bool)
    ensures
        b == is_local_char(c),
{
    is_alnum_char(c) || c == '!' || c == '#' || c == '$' || c == '%' || c == '&' || c == '\'' || c
        == '*' || c == '+' || c == '/' || c == '=' || c == '?' || c == '^' || c == '_' || c == '`'
        || c == '{' || c == '|' || c == '}' || c == '~' || c == '-'
}

/// A valid local part: dot-separated runs of allowed characters, with no
/// leading, trailing or doubled dot.
pub open spec fn valid_local(l: Seq<char>) -> bool {
    l.len() > 0 && (forall|i: int|
        0 <= i < l.len() ==> is_local_char(#[trigger] l[i]) || l[i] == '.') && l[0] != '.' && l[l.len()
        - 1] != '.' && (forall|i: int| 0 <= i < l.len() - 1 ==> !(#[trigger] l[i] == '.' && l[i + 1]
        == '.'))
}

/// A valid domain: at least two dot-separated labels, each a run of letters,
/// digits and hyphens that starts and ends with a letter or digit.
pub open spec fn valid_domain(d: Seq<char>) -> bool {
    d.len() > 0 && (forall|i: int|
        0 <= i < d.len() ==> is_alnum(#[trigger] d[i]) || d[i] == '-' || d[i] == '.') && is_alnum(
        d[0],
    ) && is_alnum(d[d.len() - 1]) && (exists|i: int| 0 <= i < d.len() && d[i] == '.') && (forall|
        i: int,
    |
        0 <= i < d.len() && #[trigger] d[i] == '.' ==> is_alnum(d[i - 1]) && is_alnum(d[i + 1]))
}

/// A valid address: a valid local part and a valid domain joined by `@`.
/// The split is unique, since neither side may contain an `@` of its own.
pub open spec fn is_valid_email(s: Seq<char>) -> bool {
    exists|k: int|
        0 <= k < s.len() && #[trigger] s[k] == '@' && valid_local(s.take(k)) && valid_domain(
            s.skip(k + 1),
        )
}

/// The address with every ASCII capital letter lowered.  A matching address
/// is all ASCII, so this is the full lowercasing the transformer applies.
pub open spec fn ascii_lower_char(c: char) -> char {
    if c == 'A' {
        'a'
    } else if c == 'B' {
        'b'
    } else if c == 'C' {
        'c'
    } else if c == 'D' {
        'd'
    } else if c == 'E' {
        'e'
    } else if c == 'F' {
        'f'
    } else if c == 'G' {
        'g'
    } else if c == 'H' {
        'h'
    } else if c == 'I' {
        'i'
    } else if c == 'J' {
        'j'
    } else if c == 'K' {
        'k'
    } else if c == 'L' {
        'l'
    } else if c == 'M' {
        'm'
    } else if c == 'N' {
        'n'
    } else if c == 'O' {
        'o'
    } else if c == 'P' {
        'p'
    } else if c == 'Q' {
        'q'
    } else if c == 'R' {
        'r'
    } else if c == 'S' {
        's'
    } else if c == 'T' {
        't'
    } else if c == 'U' {
        'u'
    } else if c == 'V' {
        'v'
    } else if c == 'W' {
        'w'
    } else if c == 'X' {
        'x'
    } else if c == 'Y' {
        'y'
    } else if c == 'Z' {
        'z'
    } else {
        c
    }
}

pub open spec fn ascii_lower(s: Seq<char>) -> Seq<char> {
    s.map_values(|c: char| ascii_lower_char(c))
}

fn ascii_lower_char_exec(c: char) -> (r: char)
    ensures
        r == ascii_lower_char(c),
{
    if c == 'A' {
        'a'
    } else if c == 'B' {
        'b'
    } else if c == 'C' {
        'c'
    } else if c == 'D' {
        'd'
    } else if c == 'E' {
        'e'
    } else if c == 'F' {
        'f'
    } else if c == 'G' {
        'g'
    } else if c == 'H' {
        'h'
    } else if c == 'I' {
        'i'
    } else if c == 'J' {
        'j'
    } else if c == 'K' {
        'k'
    } else if c == 'L' {
        'l'
    } else if c == 'M' {
        'm'
    } else if c == 'N' {
        'n'
    } else if c == 'O' {
        'o'
    } else if c == 'P' {
        'p'
    } else if c == 'Q' {
        'q'
    } else if c == 'R' {
        'r'
    } else if c == 'S' {
        's'
    } else if c == 'T' {
        't'
    } else if c == 'U' {
        'u'
    } else if c == 'V' {
        'v'
    } else if c == 'W' {
        'w'
    } else if c == 'X' {
        'x'
    } else if c == 'Y' {
        'y'
    } else if c == 'Z' {
        'z'
    } else {
        c
    }
}

/// Lowercases every ASCII capital letter of `s`.
fn ascii_lower_exec(s: &str) -> (r: String)
    ensures
        r@ == ascii_lower(s@),
{
    let n = s.unicode_len();
    let mut v: Vec<char> = Vec::new();
    let mut i: usize = 0;
    while i < n
        invariant
            n == s@.len(),
            i <= n,
            v@ == s@.take(i as int).map_values(|c: char| ascii_lower_char(c)),
        decreases n - i,
    {
        v.push(ascii_lower_char_exec(s.get_char(i)));
        i = i + 1;
        proof {
            assert(v@ =~= s@.take(i as int).map_values(|c: char| ascii_lower_char(c)));
        }
    }
    proof {
        assert(s@.take(n as int) =~= s@);
    }
    chars_to_string(&v)
}

/// Whether the characters of `s` at positions `from..to` form a valid
/// local part.
fn check_local(s: &str, from: usize, to: usize) -> (b: bool)
    requires
        from <= to <= s@.len(),
    ensures
        b == valid_local(s@.subrange(from as int, to as int)),
{
    let ghost l = s@.subrange(from as int, to as int);
    if from == to {
        return false;
    }
    if s.get_char(from) == '.' || s.get_char(to - 1) == '.' {
        proof {
            assert(l[0] == s@[from as int]);
            assert(l[l.len() - 1] == s@[to - 1]);
        }
        return false;
    }
    let mut i: usize = from;
    while i < to
        invariant
            from <= i <= to <= s@.len(),
            l == s@.subrange(from as int, to as int),
            forall|j: int|
                0 <= j < i - from ==> (is_local_char(#[trigger] l[j]) || l[j] == '.') && !(j
                    < l.len() - 1 && l[j] == '.' && l[j + 1] == '.'),
        decreases to - i,
    {
        let c = s.get_char(i);
        proof {
            assert(l[i - from] == s@[i as int]);
        }
        if !(is_local_char_exec(c) || c == '.') {
            return false;
        }
        if c == '.' && i + 1 < to {
            if s.get_char(i + 1) == '.' {
                proof {
                    assert(l[i + 1 - from] == s@[i + 1]);
                }
                return false;
            }
            proof {
                assert(l[i + 1 - from] == s@[i + 1]);
            }
        }
        i = i + 1;
    }
    proof {
        assert(l[0] == s@[from as int]);
        assert(l[l.len() - 1] == s@[to - 1]);
        assert(valid_local(l));
    }
    true
}

/// Whether the characters of `s` at positions `from..to` form a valid
/// domain.
fn check_domain(s: &str, from: usize, to: usize) -> (b: bool)
    requires
        from <= to <= s@.len(),
    ensures
        b == valid_domain(s@.subrange(from as int, to as int)),
{
    let ghost d = s@.subrange(from as int, to as int);
    if from == to {
        return false;
    }
    if !is_alnum_char(s.get_char(from)) || !is_alnum_char(s.get_char(to - 1)) {
        proof {
            assert(d[0] == s@[from as int]);
            assert(d[d.len() - 1] == s@[to - 1]);
        }
        return false;
    }
    let mut i: usize = from;
    let mut seen_dot: bool = false;
    while i < to
        invariant
            from <= i <= to <= s@.len(),
            d == s@.subrange(from as int, to as int),
            is_alnum(d[0]),
            is_alnum(d[d.len() - 1]),
            seen_dot == exists|j: int| 0 <= j < i - from && d[j] == '.',
            forall|j: int|
                0 <= j < i - from ==> (is_alnum(#[trigger] d[j]) || d[j] == '-' || d[j] == '.')
                    && (d[j] == '.' ==> is_alnum(d[j - 1]) && is_alnum(d[j + 1])),
        decreases to - i,
    {
        let c = s.get_char(i);
        proof {
            assert(d[i - from] == s@[i as int]);
        }
        if c == '.' {
            if i == from || i + 1 >= to {
                return false;
            }
            if !is_alnum_char(s.get_char(i - 1)) || !is_alnum_char(s.get_char(i + 1)) {
                proof {
                    assert(d[i - 1 - from] == s@[i - 1]);
                    assert(d[i + 1 - from] == s@[i + 1]);
                }
                return false;
            }
            proof {
                assert(d[i - 1 - from] == s@[i - 1]);
                assert(d[i + 1 - from] == s@[i + 1]);
            }
            seen_dot = true;
        } else if !(is_alnum_char(c) || c == '-') {
            return false;
        }
        i = i + 1;
        proof {
            assert(seen_dot == exists|j: int| 0 <= j < i - from && d[j] == '.');
        }
    }
    proof {
        if seen_dot {
            assert(valid_domain(d));
        } else {
            assert(!exists|j: int| 0 <= j < d.len() && d[j] == '.');
        }
    }
    seen_dot
}

/// Accepts an address of the case-insensitive lite grammar — a local part
/// of allowed symbols, `@`, and at least two dot-separated labels — and
/// returns it lowercased; fails on anything else.
#[derive(Debug)]
pub struct EmailTransformer {

}

impl EmailTransformer {
    pub fn new() -> (t: EmailTransformer)
        ensures
            t == (EmailTransformer {  }),
    {
        EmailTransformer {  }
    }
}

impl Transformer for EmailTransformer {
    open spec fn transform_spec(&self, field_value: Seq<char>, field_name: Seq<char>, record_n: int)
        -> OutcomeV {
        if is_valid_email(field_value) {
            OutcomeV::Present(ascii_lower(field_value))
        } else {
            OutcomeV::Failed(
                error_v(field_value, field_name, record_n, "invalid email address"@),
            )
        }
    }

    fn transform(&self, field_value: &str, field_name: &str, record_n: usize) -> (r:
        TransformResult) {
        let n = field_value.unicode_len();
        let mut at: usize = n;
        let mut i: usize = 0;
        while i < n
            invariant
                n == field_value@.len(),
                i <= n,
                at <= n,
                at == n ==> forall|j: int| 0 <= j < i ==> field_value@[j] != '@',
                at < n ==> at < i && field_value@[at as int] == '@' && (forall|j: int|
                    0 <= j < at ==> field_value@[j] != '@'),
            decreases n - i,
        {
            if field_value.get_char(i) == '@' {
                if at == n {
                    at = i;
                }
            } else {
            }
            i = i + 1;
        }
        let ok: bool = if at < n {
            check_local(field_value, 0, at) && check_domain(field_value, at + 1, n)
        } else {
            false
        };
        proof {
            if ok {
                assert(field_value@.subrange(0, at as int) =~= field_value@.take(at as int));
                assert(field_value@.subrange(at + 1, n as int) =~= field_value@.skip(at + 1));
                assert(is_valid_email(field_value@));
            } else {
                if at < n {
                    assert(field_value@.subrange(0, at as int) =~= field_value@.take(at as int));
                    assert(field_value@.subrange(at + 1, n as int) =~= field_value@.skip(at + 1));
                }
                assert forall|k: int|
                    0 <= k < n && #[trigger] field_value@[k] == '@' implies !(valid_local(
                    field_value@.take(k),
                ) && valid_domain(field_value@.skip(k + 1))) by {
                    if at == n {
                    } else if k == at {
                    } else {
                        assert(at < k);
                        assert(field_value@.skip(k + 1).len() == n - k - 1);
                        if valid_local(field_value@.take(k)) {
                            assert(field_value@.take(k)[at as int] == field_value@[at as int]);
                            assert(!(is_local_char('@') || '@' == '.')) by {
                                assert(('@' as int) == 0x40);
                            }
                        }
                    }
                }
                assert(!is_valid_email(field_value@));
            }
        }
        if ok {
            let lowered = ascii_lower_exec(field_value);
            Ok(Some(lowered))
        } else {
            TransformResult::error(field_value, field_name, record_n, "invalid email address")
        }
    }
}

} // verus!
