//! Character classes and small text utilities that the validation rules,
//! the password generator and the search all share.
//!
//! Lengths throughout the crate are counted in characters, and a string is
//! modelled by its sequence of characters.

use vstd::prelude::*;

verus! {

/// An ASCII lowercase letter.
pub open spec fn is_lowercase_char(c: char) -> bool {
    'a' <= c && c <= 'z'
}

/// An ASCII uppercase letter.
pub open spec fn is_uppercase_char(c: char) -> bool {
    'A' <= c && c <= 'Z'
}

/// An ASCII decimal digit.
pub open spec fn is_digit_char(c: char) -> bool {
    '0' <= c && c <= '9'
}

/// A special character accepted by the password composition policy.
pub open spec fn is_special_char(c: char) -> bool {
    c == '!' || c == '@' || c == '#' || c == '$' || c == '%' || c == '^' || c == '&' || c == '*'
        || c == '(' || c == ')' || c == '_' || c == '+' || c == '-' || c == '=' || c == '['
        || c == ']' || c == '{' || c == '}' || c == '|' || c == ';' || c == ':' || c == ','
        || c == '.' || c == '<' || c == '>' || c == '?'
}

/// A symbol the password generator may draw: the policy's special characters
/// plus `~`.
pub open spec fn is_symbol_char(c: char) -> bool {
    is_special_char(c) || c == '~'
}

/// Whether std's `char::is_alphanumeric` accepts the character: a Unicode
/// letter or number. Deterministic in the character; named here, stated by
/// the specification below.
pub uninterp spec fn is_alphanumeric_char(c: char) -> bool;

/// Relies on std's `char::is_alphanumeric`: true exactly for Unicode
/// letters and numbers, a function of the character alone; ASCII letters
/// and digits are among them.
pub assume_specification[ char::is_alphanumeric ](c: char) -> (r: bool)
    ensures
        r == is_alphanumeric_char(c),
        is_lowercase_char(c) || is_uppercase_char(c) || is_digit_char(c) ==> r,
;

/// A character a username may contain: any Unicode alphanumeric, `_` and
/// `-`.
pub open spec fn is_username_char(c: char) -> bool {
    is_alphanumeric_char(c) || c == '_' || c == '-'
}

/// A control character (the C0 range, DEL, and the C1 range).
pub open spec fn is_control_char(c: char) -> bool {
    c < ' ' || ('\u{7f}' <= c && c <= '\u{9f}')
}

/// Executable check matching [`is_lowercase_char`].
pub fn check_lowercase(c: char) -> (r: bool)
    ensures
        r == is_lowercase_char(c),
{
    'a' <= c && c <= 'z'
}

/// Executable check matching [`is_uppercase_char`].
pub fn check_uppercase(c: char) -> (r: bool)
    ensures
        r == is_uppercase_char(c),
{
    'A' <= c && c <= 'Z'
}

/// Executable check matching [`is_digit_char`].
pub fn check_digit(c: char) -> (r: bool)
    ensures
        r == is_digit_char(c),
{
    '0' <= c && c <= '9'
}

/// Executable check matching [`is_special_char`].
pub fn check_special(c: char) -> (r: bool)
    ensures
        r == is_special_char(c),
{
    c == '!' || c == '@' || c == '#' || c == '$' || c == '%' || c == '^' || c == '&' || c == '*'
        || c == '(' || c == ')' || c == '_' || c == '+' || c == '-' || c == '=' || c == '['
        || c == ']' || c == '{' || c == '}' || c == '|' || c == ';' || c == ':' || c == ','
        || c == '.' || c == '<' || c == '>' || c == '?'
}

/// Executable check matching [`is_symbol_char`].
pub fn check_symbol(c: char) -> (r: bool)
    ensures
        r == is_symbol_char(c),
{
    check_special(c) || c == '~'
}

/// Executable check matching [`is_username_char`].
pub fn check_username_char(c: char) -> (r: bool)
    ensures
        r == is_username_char(c),
{
    c.is_alphanumeric() || c == '_' || c == '-'
}

/// Executable check matching [`is_control_char`].
pub fn check_control(c: char) -> (r: bool)
    ensures
        r == is_control_char(c),
{
    c < ' ' || ('\u{7f}' <= c && c <= '\u{9f}')
}

/// Relies on std's `String::push`: appends the given character to the end
/// of the string.
pub assume_specification[ String::push ](s: &mut String, c: char)
    ensures
        final (s)@ == old(s)@.push(c),
;

/// Collects the characters of a vector into a string.
pub fn chars_to_string(chars: &Vec<char>) -> (r: String)
    ensures
        r@ == chars@,
{
    let n = chars.len();
    let mut out = String::new();
    let mut k: usize = 0;
    while k < n
        invariant
            k <= n,
            n == chars@.len(),
            out@ == chars@.subrange(0, k as int),
        decreases n - k,
    {
        out.push(chars[k]);
        proof {
            assert(out@ =~= chars@.subrange(0, k + 1));
        }
        k += 1;
    }
    proof {
        assert(chars@.subrange(0, n as int) =~= chars@);
    }
    out
}

/// Collects the characters of a string slice into a vector.
pub fn chars_vec(s: &str) -> (v: Vec<char>)
    ensures
        v@ == s@,
{
    let n = s.unicode_len();
    let mut v: Vec<char> = Vec::new();
    let mut i: usize = 0;
    while i < n
        invariant
            i <= n,
            n == s@.len(),
            v@ == s@.subrange(0, i as int),
        decreases n - i,
    {
        v.push(s.get_char(i));
        i += 1;
        proof {
            assert(v@ =~= s@.subrange(0, i as int));
        }
    }
    proof {
        assert(s@.subrange(0, n as int) =~= s@);
    }
    v
}

/// The sequence holds an ASCII lowercase letter.
pub open spec fn has_lowercase(s: Seq<char>) -> bool {
    exists|i: int| 0 <= i < s.len() && is_lowercase_char(#[trigger] s[i])
}

/// The sequence holds an ASCII uppercase letter.
pub open spec fn has_uppercase(s: Seq<char>) -> bool {
    exists|i: int| 0 <= i < s.len() && is_uppercase_char(#[trigger] s[i])
}

/// The sequence holds an ASCII digit.
pub open spec fn has_digit(s: Seq<char>) -> bool {
    exists|i: int| 0 <= i < s.len() && is_digit_char(#[trigger] s[i])
}

/// The sequence holds a special character of the composition policy.
pub open spec fn has_special(s: Seq<char>) -> bool {
    exists|i: int| 0 <= i < s.len() && is_special_char(#[trigger] s[i])
}

/// The sequence holds a generator symbol.
pub open spec fn has_symbol(s: Seq<char>) -> bool {
    exists|i: int| 0 <= i < s.len() && is_symbol_char(#[trigger] s[i])
}

/// Appending one character extends each class-presence predicate in the
/// obvious way.
pub proof fn lemma_class_push(s: Seq<char>, x: char)
    ensures
        has_lowercase(s.push(x)) == (has_lowercase(s) || is_lowercase_char(x)),
        has_uppercase(s.push(x)) == (has_uppercase(s) || is_uppercase_char(x)),
        has_digit(s.push(x)) == (has_digit(s) || is_digit_char(x)),
        has_special(s.push(x)) == (has_special(s) || is_special_char(x)),
        has_symbol(s.push(x)) == (has_symbol(s) || is_symbol_char(x)),
{
    let t = s.push(x);
    assert(t[s.len() as int] == x);
    assert(forall|i: int| 0 <= i < s.len() ==> #[trigger] t[i] == s[i]);
    if has_lowercase(s) {
        let i = choose|i: int| 0 <= i < s.len() && is_lowercase_char(#[trigger] s[i]);
        assert(is_lowercase_char(t[i]));
    }
    if has_lowercase(t) && !is_lowercase_char(x) {
        let i = choose|i: int| 0 <= i < t.len() && is_lowercase_char(#[trigger] t[i]);
        assert(is_lowercase_char(s[i]));
    }
    if has_uppercase(s) {
        let i = choose|i: int| 0 <= i < s.len() && is_uppercase_char(#[trigger] s[i]);
        assert(is_uppercase_char(t[i]));
    }
    if has_uppercase(t) && !is_uppercase_char(x) {
        let i = choose|i: int| 0 <= i < t.len() && is_uppercase_char(#[trigger] t[i]);
        assert(is_uppercase_char(s[i]));
    }
    if has_digit(s) {
        let i = choose|i: int| 0 <= i < s.len() && is_digit_char(#[trigger] s[i]);
        assert(is_digit_char(t[i]));
    }
    if has_digit(t) && !is_digit_char(x) {
        let i = choose|i: int| 0 <= i < t.len() && is_digit_char(#[trigger] t[i]);
        assert(is_digit_char(s[i]));
    }
    if has_special(s) {
        let i = choose|i: int| 0 <= i < s.len() && is_special_char(#[trigger] s[i]);
        assert(is_special_char(t[i]));
    }
    if has_special(t) && !is_special_char(x) {
        let i = choose|i: int| 0 <= i < t.len() && is_special_char(#[trigger] t[i]);
        assert(is_special_char(s[i]));
    }
    if has_symbol(s) {
        let i = choose|i: int| 0 <= i < s.len() && is_symbol_char(#[trigger] s[i]);
        assert(is_symbol_char(t[i]));
    }
    if has_symbol(t) && !is_symbol_char(x) {
        let i = choose|i: int| 0 <= i < t.len() && is_symbol_char(#[trigger] t[i]);
        assert(is_symbol_char(s[i]));
    }
}

/// Whether `needle` occurs as a contiguous run inside `hay`.
pub open spec fn is_substring_of(needle: Seq<char>, hay: Seq<char>) -> bool {
    exists|k: int|
        0 <= k && k + needle.len() <= hay.len() && #[trigger] hay.subrange(
            k,
            k + needle.len(),
        ) == needle
}

/// Whether the character sequences of `hay` starting at `k` equal `needle`.
fn matches_at(hay: &Vec<char>, needle: &Vec<char>, k: usize) -> (r: bool)
    requires
        k + needle@.len() <= hay@.len(),
    ensures
        r == (hay@.subrange(k as int, k as int + needle@.len() as int) == needle@),
{
    let n = needle.len();
    let hn = hay.len();
    let mut j: usize = 0;
    while j < n
        invariant
            j <= n,
            n == needle@.len(),
            hn == hay@.len(),
            k + n <= hn,
            forall|t: int| 0 <= t < j ==> hay@[k + t] == needle@[t],
        decreases n - j,
    {
        if hay[k + j] != needle[j] {
            proof {
                assert(hay@.subrange(k as int, k as int + needle@.len() as int)[j as int]
                    != needle@[j as int]);
            }
            return false;
        }
        j += 1;
    }
    proof {
        assert(hay@.subrange(k as int, k as int + needle@.len() as int) =~= needle@);
    }
    true
}

/// Whether `needle` occurs as a contiguous run inside `hay`; matches
/// [`is_substring_of`] exactly.
pub fn contains_chars(hay: &Vec<char>, needle: &Vec<char>) -> (r: bool)
    ensures
        r == is_substring_of(needle@, hay@),
{
    if needle.len() > hay.len() {
        return false;
    }
    let last = hay.len() - needle.len();
    let mut k: usize = 0;
    loop
        invariant
            k <= last,
            last + needle@.len() == hay@.len(),
            forall|t: int|
                0 <= t < k ==> #[trigger] hay@.subrange(t, t + needle@.len() as int) != needle@,
        decreases last - k,
    {
        if matches_at(hay, needle, k) {
            return true;
        }
        if k == last {
            proof {
                assert(forall|t: int|
                    0 <= t && t + needle@.len() <= hay@.len() ==> #[trigger] hay@.subrange(
                        t,
                        t + needle@.len(),
                    ) != needle@);
            }
            return false;
        }
        k += 1;
    }
}

} // verus!
