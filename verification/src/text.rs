//! Character classes and small string algorithms shared by the transformers:
//! whitespace and digit tests, trimming, decimal rendering of indices, and
//! the bracketed list rendering used in failure reasons.

use vstd::prelude::*;

verus! {

use vstd::string::StrSliceExecFns;
use vstd::string::StringExecFns;

/// A character with the Unicode `White_Space` property, the set that
/// `str::trim` strips.
pub open spec fn is_space(c: char) -> bool {
    let u: int = c as int;
    (9 <= u && u <= 13) || u == 0x20 || u == 0x85 || u == 0xA0 || u == 0x1680 || (0x2000 <= u
        && u <= 0x200A) || u == 0x2028 || u == 0x2029 || u == 0x202F || u == 0x205F || u == 0x3000
}

/// A Unicode control character (the `Cc` category).
pub open spec fn is_control(c: char) -> bool {
    let u: int = c as int;
    u < 0x20 || (0x7F <= u && u <= 0x9F)
}

/// A character that counts as blank: whitespace or control.
pub open spec fn is_blank_char(c: char) -> bool {
    is_space(c) || is_control(c)
}

/// A value consisting only of blank characters (possibly empty).
pub open spec fn is_blank(s: Seq<char>) -> bool {
    forall|i: int| 0 <= i < s.len() ==> is_blank_char(#[trigger] s[i])
}

/// An ASCII decimal digit.
pub open spec fn is_digit(c: char) -> bool {
    let u: int = c as int;
    0x30 <= u && u <= 0x39
}

pub open spec fn all_digits(s: Seq<char>) -> bool {
    forall|i: int| 0 <= i < s.len() ==> is_digit(#[trigger] s[i])
}

pub open spec fn no_digits(s: Seq<char>) -> bool {
    forall|i: int| 0 <= i < s.len() ==> !is_digit(#[trigger] s[i])
}

pub fn is_space_char(c: char) -> (b: bool)
    ensures
        b == is_space(c),
{
    let u: u32 = c as u32;
    (9 <= u && u <= 13) || u == 0x20 || u == 0x85 || u == 0xA0 || u == 0x1680 || (0x2000 <= u
        && u <= 0x200A) || u == 0x2028 || u == 0x2029 || u == 0x202F || u == 0x205F || u == 0x3000
}

pub fn is_blank_char_exec(c: char) -> (b: bool)
    ensures
        b == is_blank_char(c),
{
    let u: u32 = c as u32;
    is_space_char(c) || u < 0x20 || (0x7F <= u && u <= 0x9F)
}

pub fn is_digit_char(c: char) -> (b: bool)
    ensures
        b == is_digit(c),
{
    let u: u32 = c as u32;
    0x30 <= u && u <= 0x39
}

/// Collects the characters of a string slice.
pub fn str_to_chars(s: &str) -> (v: Vec<char>)
    ensures
        v@ == s@,
{
    let n = s.unicode_len();
    let mut v: Vec<char> = Vec::new();
    let mut i: usize = 0;
    while i < n
        invariant
            n == s@.len(),
            i <= n,
            v@ == s@.take(i as int),
        decreases n - i,
    {
        v.push(s.get_char(i));
        i = i + 1;
        proof {
            assert(v@ =~= s@.take(i as int));
        }
    }
    proof {
        assert(s@.take(n as int) =~= s@);
    }
    v
}

/// Relies on `String`'s `FromIterator<char>` implementation: collecting
/// characters yields the string made of exactly those characters, in order.
#[verifier::external_body]
pub fn chars_to_string(v: &Vec<char>) -> (r: String)
    ensures
        r@ == v@,
{
    v.iter().collect()
}

/// Whether every character of `s` is blank.
pub fn str_is_blank(s: &str) -> (b: bool)
    ensures
        b == is_blank(s@),
{
    let n = s.unicode_len();
    let mut i: usize = 0;
    while i < n
        invariant
            n == s@.len(),
            i <= n,
            forall|j: int| 0 <= j < i ==> is_blank_char(#[trigger] s@[j]),
        decreases n - i,
    {
        if !is_blank_char_exec(s.get_char(i)) {
            return false;
        }
        i = i + 1;
    }
    true
}

/// Whether the characters of `s` at positions `from..to` are all digits.
pub fn str_range_all_digits(s: &str, from: usize, to: usize) -> (b: bool)
    requires
        from <= to <= s@.len(),
    ensures
        b == all_digits(s@.subrange(from as int, to as int)),
{
    let mut i: usize = from;
    while i < to
        invariant
            from <= i <= to <= s@.len(),
            forall|j: int| from <= j < i ==> is_digit(#[trigger] s@[j]),
        decreases to - i,
    {
        if !is_digit_char(s.get_char(i)) {
            proof {
                assert(!is_digit(s@.subrange(from as int, to as int)[i - from]));
            }
            return false;
        }
        i = i + 1;
    }
    proof {
        assert(forall|j: int|
            0 <= j < to - from ==> is_digit(#[trigger] s@.subrange(from as int, to as int)[j]));
    }
    true
}

/// Whether the characters of `s` at positions `from..to` are all non-digits.
pub fn str_range_no_digits(s: &str, from: usize, to: usize) -> (b: bool)
    requires
        from <= to <= s@.len(),
    ensures
        b == no_digits(s@.subrange(from as int, to as int)),
{
    let mut i: usize = from;
    while i < to
        invariant
            from <= i <= to <= s@.len(),
            forall|j: int| from <= j < i ==> !is_digit(#[trigger] s@[j]),
        decreases to - i,
    {
        if is_digit_char(s.get_char(i)) {
            proof {
                assert(is_digit(s@.subrange(from as int, to as int)[i - from]));
            }
            return false;
        }
        i = i + 1;
    }
    proof {
        assert(forall|j: int|
            0 <= j < to - from ==> !is_digit(#[trigger] s@.subrange(from as int, to as int)[j]));
    }
    true
}

/// `s` with its leading whitespace removed.
pub open spec fn trim_start_spec(s: Seq<char>) -> Seq<char>
    decreases s.len(),
{
    if s.len() > 0 && is_space(s[0]) {
        trim_start_spec(s.skip(1))
    } else {
        s
    }
}

/// `s` with its trailing whitespace removed.
pub open spec fn trim_end_spec(s: Seq<char>) -> Seq<char>
    decreases s.len(),
{
    if s.len() > 0 && is_space(s.last()) {
        trim_end_spec(s.drop_last())
    } else {
        s
    }
}

/// `s` with leading and trailing whitespace removed.
pub open spec fn trim_spec(s: Seq<char>) -> Seq<char> {
    trim_end_spec(trim_start_spec(s))
}

proof fn lemma_trim_start_skip(s: Seq<char>, k: int)
    requires
        0 <= k <= s.len(),
        forall|i: int| 0 <= i < k ==> is_space(#[trigger] s[i]),
    ensures
        trim_start_spec(s) == trim_start_spec(s.skip(k)),
    decreases k,
{
    if k > 0 {
        assert(s.skip(1).skip(k - 1) =~= s.skip(k));
        lemma_trim_start_skip(s.skip(1), k - 1);
    } else {
        assert(s.skip(0) =~= s);
    }
}

proof fn lemma_trim_end_take(s: Seq<char>, k: int)
    requires
        0 <= k <= s.len(),
        forall|i: int| k <= i < s.len() ==> is_space(#[trigger] s[i]),
    ensures
        trim_end_spec(s) == trim_end_spec(s.take(k)),
    decreases s.len() - k,
{
    if k < s.len() {
        assert(s.drop_last() =~= s.take(s.len() - 1));
        lemma_trim_end_take(s.take(s.len() - 1), k);
        assert(s.take(s.len() - 1).take(k) =~= s.take(k));
    } else {
        assert(s.take(k) =~= s);
    }
}

/// Strips leading and trailing whitespace from `s`.
pub fn trim(s: &str) -> (r: String)
    ensures
        r@ == trim_spec(s@),
{
    let n = s.unicode_len();
    let mut a: usize = 0;
    while a < n && is_space_char(s.get_char(a))
        invariant
            n == s@.len(),
            a <= n,
            forall|i: int| 0 <= i < a ==> is_space(#[trigger] s@[i]),
        decreases n - a,
    {
        a = a + 1;
    }
    let mut b: usize = n;
    while b > a && is_space_char(s.get_char(b - 1))
        invariant
            n == s@.len(),
            a <= b <= n,
            forall|i: int| b <= i < n ==> is_space(#[trigger] s@[i]),
        decreases b,
    {
        b = b - 1;
    }
    let r = s.substring_char(a, b);
    proof {
        lemma_trim_start_skip(s@, a as int);
        let t = s@.skip(a as int);
        if a < n {
            assert(!is_space(t[0]));
        }
        assert(trim_start_spec(t) == t);
        lemma_trim_end_take(t, b - a);
        let u = t.take(b - a);
        if b > a {
            assert(u.last() == s@[b - 1]);
            assert(!is_space(u.last()));
        }
        assert(trim_end_spec(u) == u);
        assert(r@ =~= u);
    }
    String::from_str(r)
}

/// The decimal digit `d` as a character.
pub open spec fn digit_char(d: int) -> char {
    if d == 0 {
        '0'
    } else if d == 1 {
        '1'
    } else if d == 2 {
        '2'
    } else if d == 3 {
        '3'
    } else if d == 4 {
        '4'
    } else if d == 5 {
        '5'
    } else if d == 6 {
        '6'
    } else if d == 7 {
        '7'
    } else if d == 8 {
        '8'
    } else {
        '9'
    }
}

/// The decimal rendering of `n`, without sign or leading zeros.
pub open spec fn dec_str(n: nat) -> Seq<char>
    decreases n,
{
    if n < 10 {
        seq![digit_char(n as int)]
    } else {
        dec_str(n / 10).push(digit_char((n % 10) as int))
    }
}

fn digit_char_exec(d: usize) -> (c: char)
    requires
        d < 10,
    ensures
        c == digit_char(d as int),
{
    if d == 0 {
        '0'
    } else if d == 1 {
        '1'
    } else if d == 2 {
        '2'
    } else if d == 3 {
        '3'
    } else if d == 4 {
        '4'
    } else if d == 5 {
        '5'
    } else if d == 6 {
        '6'
    } else if d == 7 {
        '7'
    } else if d == 8 {
        '8'
    } else {
        '9'
    }
}

/// Renders `n` in decimal.
pub fn usize_to_string(n: usize) -> (r: String)
    ensures
        r@ == dec_str(n as nat),
    decreases n,
{
    if n < 10 {
        let mut v: Vec<char> = Vec::new();
        v.push(digit_char_exec(n));
        let r = chars_to_string(&v);
        proof {
            assert(r@ =~= dec_str(n as nat));
        }
        r
    } else {
        let mut s = usize_to_string(n / 10);
        let mut v: Vec<char> = Vec::new();
        v.push(digit_char_exec(n % 10));
        let t = chars_to_string(&v);
        s.append(t.as_str());
        proof {
            assert(s@ =~= dec_str(n as nat));
        }
        s
    }
}

/// `name` wrapped in double quotes.
pub open spec fn quoted(name: Seq<char>) -> Seq<char> {
    seq!['"'] + name + seq!['"']
}

pub open spec fn comma_join(items: Seq<Seq<char>>) -> Seq<char>
    decreases items.len(),
{
    if items.len() == 0 {
        Seq::empty()
    } else if items.len() == 1 {
        items[0]
    } else {
        comma_join(items.drop_last()) + seq![',', ' '] + items.last()
    }
}

/// The names rendered as a bracketed, comma-separated list of quoted
/// strings: `["a", "b"]`.
pub open spec fn render_string_list(names: Seq<Seq<char>>) -> Seq<char> {
    seq!['['] + comma_join(names.map_values(|n: Seq<char>| quoted(n))) + seq![']']
}

/// Renders the names as `["a", "b"]`.
pub fn render_string_list_exec(names: &Vec<String>) -> (r: String)
    ensures
        r@ == render_string_list(names.deep_view()),
{
    let ghost mapped = names.deep_view().map_values(|n: Seq<char>| quoted(n));
    let mut r = String::from_str("[");
    proof {
        reveal_strlit("[");
        assert(r@ =~= seq!['[']);
    }
    let mut i: usize = 0;
    while i < names.len()
        invariant
            mapped == names.deep_view().map_values(|n: Seq<char>| quoted(n)),
            i <= names.len(),
            mapped.len() == names.len(),
            r@ == seq!['['] + comma_join(mapped.take(i as int)),
        decreases names.len() - i,
    {
        if i > 0 {
            r.append(", ");
            proof {
                reveal_strlit(", ");
            }
        }
        r.append("\"");
        r.append(names[i].as_str());
        r.append("\"");
        proof {
            reveal_strlit("\"");
            assert(mapped.take(i + 1).drop_last() =~= mapped.take(i as int));
            assert(mapped.take(i + 1).last() == quoted(names.deep_view()[i as int]));
            if i > 0 {
                assert(r@ =~= seq!['['] + comma_join(mapped.take(i + 1)));
            } else {
                assert(comma_join(mapped.take(1)) == mapped.take(1)[0]);
                assert(r@ =~= seq!['['] + comma_join(mapped.take(i + 1)));
            }
        }
        i = i + 1;
    }
    r.append("]");
    proof {
        reveal_strlit("]");
        assert(mapped.take(names.len() as int) =~= mapped);
        assert(r@ =~= render_string_list(names.deep_view()));
    }
    r
}

/// The words joined with a single space between neighbours.
pub open spec fn join_spaced(ws: Seq<Seq<char>>) -> Seq<char>
    decreases ws.len(),
{
    if ws.len() == 0 {
        Seq::empty()
    } else if ws.len() == 1 {
        ws[0]
    } else {
        join_spaced(ws.drop_last()) + seq![' '] + ws.last()
    }
}

} // verus!
