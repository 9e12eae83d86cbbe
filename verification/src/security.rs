//! Security utilities: scrubbed secret strings, the audit log, free-form
//! input validation, brute-force throttling and the password generator.

use vstd::prelude::*;

use crate::errors::{ValidationError, VaultError};
use crate::text::{
    chars_to_string,
    chars_vec, check_control, check_digit, check_lowercase, check_symbol, check_uppercase,
    has_digit, has_lowercase, has_symbol, has_uppercase, is_control_char, is_digit_char,
    is_lowercase_char, is_symbol_char, is_uppercase_char, lemma_class_push,
};
use vstd::slice::SliceAdditionalExecFns;
use zeroize::Zeroize;

verus! {

/// A secret string with explicit scrubbing: [`SecureString::wipe`] overwrites
/// the contents with zeros, and callers invoke it on every exit path once the
/// secret is no longer needed.
pub struct SecureString {
    data: String,
}

impl View for SecureString {
    type V = Seq<char>;

    closed spec fn view(&self) -> Seq<char> {
        self.data@
    }
}

impl SecureString {
    /// Wraps an owned string.
    pub fn new(data: String) -> (r: SecureString)
        ensures
            r@ == data@,
    {
        SecureString { data }
    }

    /// Borrows the secret contents.
    pub fn as_str(&self) -> (r: &str)
        ensures
            r@ == self@,
    {
        self.data.as_str()
    }

    /// Copies a borrowed string into a new secret.
    pub fn from_str(s: &str) -> (r: SecureString)
        ensures
            r@ == s@,
    {
        SecureString { data: String::from_str(s) }
    }

    /// Relies on zeroize's `Zeroize` for `String`: overwrites every byte of
    /// the buffer with zeros, then clears it, leaving the string empty.
    #[verifier::external_body]
    pub fn wipe(&mut self)
        ensures
            final (self)@ == Seq::<char>::empty(),
    {
        self.data.zeroize();
    }
}

impl Clone for SecureString {
    fn clone(&self) -> (r: Self)
        ensures
            r@ == self@,
    {
        SecureString { data: self.data.clone() }
    }
}

/// Relies on chrono's `Utc::now`: the current Unix timestamp in seconds.
/// Nothing is promised of the value; callers must handle every outcome.
#[verifier::external_body]
fn now_unix() -> (r: i64) {
    chrono::Utc::now().timestamp()
}

/// Relies on rand's `thread_rng` and `Rng::gen_range` over `0..n`: a value
/// below `n`. Nothing more can be promised of a random draw.
#[verifier::external_body]
fn rand_below(n: usize) -> (r: usize)
    requires
        n > 0,
    ensures
        r < n,
{
    rand::Rng::gen_range(&mut rand::thread_rng(), 0..n)
}

/// One record of the append-only audit trail.
pub struct SecurityEvent {
    /// Unix timestamp (seconds) when the event was recorded.
    pub timestamp: i64,
    /// What happened, as a short tag such as `LOGIN_FAILED`.
    pub event_type: String,
    /// The username concerned, where one applies.
    pub username: Option<String>,
    /// Whether the operation succeeded.
    pub success: bool,
    /// Free-form detail text.
    pub details: String,
}

impl Clone for SecurityEvent {
    fn clone(&self) -> (r: Self)
        ensures
            r == *self,
    {
        SecurityEvent {
            timestamp: self.timestamp,
            event_type: self.event_type.clone(),
            username: match &self.username {
                Some(u) => Some(u.clone()),
                None => None,
            },
            success: self.success,
            details: self.details.clone(),
        }
    }
}

/// The append-only audit trail. Records are only ever appended, never
/// changed or dropped; persisting them is a caller concern, and a caller
/// that fails to persist must never abort the operation that logged.
pub struct SecurityLogger {
    events: Vec<SecurityEvent>,
}

impl SecurityLogger {
    /// The recorded events, oldest first.
    pub closed spec fn events_seq(&self) -> Seq<SecurityEvent> {
        self.events@
    }

    /// An empty audit trail.
    pub fn new() -> (r: SecurityLogger)
        ensures
            r.events_seq() == Seq::<SecurityEvent>::empty(),
    {
        SecurityLogger { events: Vec::new() }
    }

    /// Appends one event, stamped with the current clock. Every earlier
    /// record is kept unchanged: the log only ever grows at the end.
    pub fn log_event(&mut self, event_type: &str, username: Option<&str>, success: bool, details: &str)
        ensures
            final (self).events_seq().len() == old(self).events_seq().len() + 1,
            forall|i: int|
                0 <= i < old(self).events_seq().len() ==> final (self).events_seq()[i] == old(
                    self,
                ).events_seq()[i],
            ({
                let ev = final (self).events_seq().last();
                &&& ev.event_type@ == event_type@
                &&& ev.success == success
                &&& ev.details@ == details@
                &&& match username {
                    Some(u) => ev.username matches Some(s) && s@ == u@,
                    None => ev.username is None,
                }
            }),
    {
        let timestamp = now_unix();
        let event = SecurityEvent {
            timestamp,
            event_type: String::from_str(event_type),
            username: match username {
                Some(u) => Some(String::from_str(u)),
                None => None,
            },
            success,
            details: String::from_str(details),
        };
        self.events.push(event);
    }

    /// The recorded events, for a caller that persists the trail.
    pub fn events(&self) -> (r: &Vec<SecurityEvent>)
        ensures
            r@ == self.events_seq(),
    {
        &self.events
    }
}

/// The sequence holds a NUL character.
pub open spec fn has_null(s: Seq<char>) -> bool {
    exists|i: int| 0 <= i < s.len() && #[trigger] s[i] == '\0'
}

/// A control character that free-form input may not hold: any control
/// character other than tab, newline and carriage return.
pub open spec fn is_forbidden_control(c: char) -> bool {
    is_control_char(c) && c != '\t' && c != '\n' && c != '\r'
}

/// The sequence holds a forbidden control character.
pub open spec fn has_forbidden_control(s: Seq<char>) -> bool {
    exists|i: int| 0 <= i < s.len() && is_forbidden_control(#[trigger] s[i])
}

/// The exact outcome of free-form input validation, first failing rule
/// first.
pub open spec fn validate_input_spec(s: Seq<char>, max_length: int, allow_special: bool) -> Result<
    (),
    VaultError,
> {
    if s.len() == 0 {
        Err(VaultError::Validation(ValidationError::InputEmpty))
    } else if s.len() > max_length {
        Err(VaultError::Validation(ValidationError::InputTooLong))
    } else if has_null(s) {
        Err(VaultError::Validation(ValidationError::InputNullChar))
    } else if !allow_special && has_forbidden_control(s) {
        Err(VaultError::Validation(ValidationError::InputControlChar))
    } else {
        Ok(())
    }
}

/// Appending one character extends the NUL and forbidden-control predicates
/// in the obvious way.
proof fn lemma_input_push(s: Seq<char>, x: char)
    ensures
        has_null(s.push(x)) == (has_null(s) || x == '\0'),
        has_forbidden_control(s.push(x)) == (has_forbidden_control(s) || is_forbidden_control(x)),
{
    let t = s.push(x);
    assert(t[s.len() as int] == x);
    assert(forall|i: int| 0 <= i < s.len() ==> #[trigger] t[i] == s[i]);
    if has_null(s) {
        let i = choose|i: int| 0 <= i < s.len() && #[trigger] s[i] == '\0';
        assert(t[i] == '\0');
    }
    if has_null(t) && x != '\0' {
        let i = choose|i: int| 0 <= i < t.len() && #[trigger] t[i] == '\0';
        assert(s[i] == '\0');
    }
    if has_forbidden_control(s) {
        let i = choose|i: int| 0 <= i < s.len() && is_forbidden_control(#[trigger] s[i]);
        assert(is_forbidden_control(t[i]));
    }
    if has_forbidden_control(t) && !is_forbidden_control(x) {
        let i = choose|i: int| 0 <= i < t.len() && is_forbidden_control(#[trigger] t[i]);
        assert(is_forbidden_control(s[i]));
    }
}

/// Validates free-form input: non-empty, at most `max_length` characters, no
/// NUL, and — unless `allow_special` — no control characters beyond tab,
/// newline and carriage return.
pub fn validate_input_string(input: &str, max_length: usize, allow_special: bool) -> (r: Result<
    (),
    VaultError,
>)
    ensures
        r == validate_input_spec(input@, max_length as int, allow_special),
{
    let chars = chars_vec(input);
    let n = chars.len();
    if n == 0 {
        return Err(VaultError::Validation(ValidationError::InputEmpty));
    }
    if n > max_length {
        return Err(VaultError::Validation(ValidationError::InputTooLong));
    }
    let mut null_seen = false;
    let mut control_seen = false;
    let mut i: usize = 0;
    while i < n
        invariant
            i <= n,
            n == input@.len(),
            chars@ == input@,
            null_seen == has_null(input@.subrange(0, i as int)),
            control_seen == has_forbidden_control(input@.subrange(0, i as int)),
        decreases n - i,
    {
        let c = chars[i];
        proof {
            let pre = input@.subrange(0, i as int);
            assert(input@.subrange(0, i + 1) =~= pre.push(input@[i as int]));
            lemma_input_push(pre, input@[i as int]);
        }
        null_seen = null_seen || c == '\0';
        control_seen = control_seen || (check_control(c) && c != '\t' && c != '\n' && c != '\r');
        i += 1;
    }
    proof {
        assert(input@.subrange(0, n as int) =~= input@);
    }
    if null_seen {
        return Err(VaultError::Validation(ValidationError::InputNullChar));
    }
    if !allow_special && control_seen {
        return Err(VaultError::Validation(ValidationError::InputControlChar));
    }
    Ok(())
}

/// A character whose code point lies in the lowercase, uppercase or digit
/// range belongs to that class.
proof fn lemma_code_classes(c: char)
    ensures
        97 <= (c as u32) && (c as u32) <= 122 ==> is_lowercase_char(c),
        65 <= (c as u32) && (c as u32) <= 90 ==> is_uppercase_char(c),
        48 <= (c as u32) && (c as u32) <= 57 ==> is_digit_char(c),
{
}

/// A character the generator may emit: a letter, a digit, or — when symbols
/// are requested — a symbol.
pub open spec fn is_generator_char(c: char, include_symbols: bool) -> bool {
    is_lowercase_char(c) || is_uppercase_char(c) || is_digit_char(c) || (include_symbols
        && is_symbol_char(c))
}

/// Swapping two positions leaves every class-presence predicate unchanged.
proof fn lemma_swap_classes(s1: Seq<char>, i: int, j: int)
    requires
        0 <= i < s1.len(),
        0 <= j < s1.len(),
    ensures
        ({
            let s2 = s1.update(i, s1[j]).update(j, s1[i]);
            &&& has_lowercase(s2) == has_lowercase(s1)
            &&& has_uppercase(s2) == has_uppercase(s1)
            &&& has_digit(s2) == has_digit(s1)
            &&& has_symbol(s2) == has_symbol(s1)
        }),
{
    let s2 = s1.update(i, s1[j]).update(j, s1[i]);
    if i == j {
        assert(s2 =~= s1);
    } else {
        assert(s2[i] == s1[j]);
        assert(s2[j] == s1[i]);
        assert(forall|k: int| 0 <= k < s1.len() && k != i && k != j ==> #[trigger] s2[k] == s1[k]);
        if has_lowercase(s1) {
            let k = choose|k: int| 0 <= k < s1.len() && is_lowercase_char(#[trigger] s1[k]);
            if k == i {
                assert(is_lowercase_char(s2[j]));
            } else if k == j {
                assert(is_lowercase_char(s2[i]));
            } else {
                assert(is_lowercase_char(s2[k]));
            }
        }
        if has_lowercase(s2) {
            let k = choose|k: int| 0 <= k < s2.len() && is_lowercase_char(#[trigger] s2[k]);
            if k == i {
                assert(is_lowercase_char(s1[j]));
            } else if k == j {
                assert(is_lowercase_char(s1[i]));
            } else {
                assert(is_lowercase_char(s1[k]));
            }
        }
        if has_uppercase(s1) {
            let k = choose|k: int| 0 <= k < s1.len() && is_uppercase_char(#[trigger] s1[k]);
            if k == i {
                assert(is_uppercase_char(s2[j]));
            } else if k == j {
                assert(is_uppercase_char(s2[i]));
            } else {
                assert(is_uppercase_char(s2[k]));
            }
        }
        if has_uppercase(s2) {
            let k = choose|k: int| 0 <= k < s2.len() && is_uppercase_char(#[trigger] s2[k]);
            if k == i {
                assert(is_uppercase_char(s1[j]));
            } else if k == j {
                assert(is_uppercase_char(s1[i]));
            } else {
                assert(is_uppercase_char(s1[k]));
            }
        }
        if has_digit(s1) {
            let k = choose|k: int| 0 <= k < s1.len() && is_digit_char(#[trigger] s1[k]);
            if k == i {
                assert(is_digit_char(s2[j]));
            } else if k == j {
                assert(is_digit_char(s2[i]));
            } else {
                assert(is_digit_char(s2[k]));
            }
        }
        if has_digit(s2) {
            let k = choose|k: int| 0 <= k < s2.len() && is_digit_char(#[trigger] s2[k]);
            if k == i {
                assert(is_digit_char(s1[j]));
            } else if k == j {
                assert(is_digit_char(s1[i]));
            } else {
                assert(is_digit_char(s1[k]));
            }
        }
        if has_symbol(s1) {
            let k = choose|k: int| 0 <= k < s1.len() && is_symbol_char(#[trigger] s1[k]);
            if k == i {
                assert(is_symbol_char(s2[j]));
            } else if k == j {
                assert(is_symbol_char(s2[i]));
            } else {
                assert(is_symbol_char(s2[k]));
            }
        }
        if has_symbol(s2) {
            let k = choose|k: int| 0 <= k < s2.len() && is_symbol_char(#[trigger] s2[k]);
            if k == i {
                assert(is_symbol_char(s1[j]));
            } else if k == j {
                assert(is_symbol_char(s1[i]));
            } else {
                assert(is_symbol_char(s1[k]));
            }
        }
    }
}

/// The consecutive ASCII characters from code `lo` through code `hi`.
fn class_range(lo: u8, hi: u8) -> (v: Vec<char>)
    requires
        lo <= hi,
        hi <= 127,
    ensures
        v@.len() == hi - lo + 1,
        forall|i: int| 0 <= i < v@.len() ==> (#[trigger] v@[i]) as u32 == lo + i,
{
    let mut v: Vec<char> = Vec::new();
    let mut u: u8 = lo;
    while u <= hi
        invariant
            lo <= u,
            u <= hi + 1,
            hi <= 127,
            v@.len() == u - lo,
            forall|i: int| 0 <= i < v@.len() ==> (#[trigger] v@[i]) as u32 == lo + i,
        decreases hi + 1 - u,
    {
        v.push(u as char);
        u += 1;
    }
    v
}

/// Appends every character of `src` to `dst`.
fn append_chars(dst: &mut Vec<char>, src: &Vec<char>)
    ensures
        final (dst)@ == old(dst)@ + src@,
{
    let n = src.len();
    let mut j: usize = 0;
    while j < n
        invariant
            j <= n,
            n == src@.len(),
            dst@ == old(dst)@ + src@.subrange(0, j as int),
        decreases n - j,
    {
        dst.push(src[j]);
        proof {
            assert(dst@ =~= old(dst)@ + src@.subrange(0, j + 1));
        }
        j += 1;
    }
    proof {
        assert(old(dst)@ + src@.subrange(0, n as int) =~= old(dst)@ + src@);
    }
}

/// The password generator: character classes for lowercase and uppercase
/// letters, digits and symbols.
pub struct SecurePasswordGenerator {
    lowercase: Vec<char>,
    uppercase: Vec<char>,
    digits: Vec<char>,
    symbols: Vec<char>,
}

impl SecurePasswordGenerator {
    /// The generator's classes hold exactly the 26 lowercase letters, the 26
    /// uppercase letters, the 10 digits, and symbols (every symbol present,
    /// nothing else).
    pub closed spec fn wf(&self) -> bool {
        &&& self.lowercase@.len() == 26 && forall|i: int|
            0 <= i < self.lowercase@.len() ==> (#[trigger] self.lowercase@[i]) as u32 == 97 + i
        &&& self.uppercase@.len() == 26 && forall|i: int|
            0 <= i < self.uppercase@.len() ==> (#[trigger] self.uppercase@[i]) as u32 == 65 + i
        &&& self.digits@.len() == 10 && forall|i: int|
            0 <= i < self.digits@.len() ==> (#[trigger] self.digits@[i]) as u32 == 48 + i
        &&& self.symbols@.len() > 0 && forall|i: int|
            0 <= i < self.symbols@.len() ==> is_symbol_char(#[trigger] self.symbols@[i])
        &&& forall|c: char| is_symbol_char(c) ==> self.symbols@.contains(c)
    }

    /// A generator over the full lowercase, uppercase, digit and symbol
    /// alphabets.
    pub fn new() -> (r: SecurePasswordGenerator)
        ensures
            r.wf(),
    {
        let lowercase = class_range(97, 122);
        let uppercase = class_range(65, 90);
        let digits = class_range(48, 57);
        let mut symbols: Vec<char> = Vec::new();
        let mut u: u8 = 33;
        while u <= 126
            invariant
                33 <= u,
                u <= 127,
                forall|i: int| 0 <= i < symbols@.len() ==> is_symbol_char(#[trigger] symbols@[i]),
                forall|c: char|
                    is_symbol_char(c) && (c as u32) < u ==> #[trigger] symbols@.contains(c),
            decreases 127 - u,
        {
            let c = u as char;
            let ghost pre = symbols@;
            if check_symbol(c) {
                symbols.push(c);
                proof {
                    assert(symbols@[pre.len() as int] == c);
                    assert(forall|k: int| 0 <= k < pre.len() ==> #[trigger] symbols@[k] == pre[k]);
                    assert forall|c2: char| pre.contains(c2) implies symbols@.contains(c2) by {
                        let k = choose|k: int| 0 <= k < pre.len() && pre[k] == c2;
                        assert(symbols@[k] == c2);
                    }
                }
            }
            proof {
                assert forall|c2: char| is_symbol_char(c2) && (c2 as u32) < u + 1 implies
                    symbols@.contains(c2) by {
                    if (c2 as u32) < u as u32 {
                        assert(pre.contains(c2));
                        let k = choose|k: int| 0 <= k < pre.len() && pre[k] == c2;
                        assert(symbols@[k] == c2);
                    } else {
                        assert(c2 as u32 == u as u32);
                        assert((c as u32) == u as u32);
                        vstd::utf8::char_u32_cast(c2, u as u32);
                        vstd::utf8::char_u32_cast(c, u as u32);
                        assert(c2 == c);
                        assert(symbols@[symbols@.len() - 1] == c);
                    }
                }
            }
            u += 1;
        }
        proof {
            assert(forall|c: char| is_symbol_char(c) ==> 33 <= (c as u32) && (c as u32) < 127);
            assert(is_symbol_char('!'));
            assert(symbols@.contains('!'));
        }
        SecurePasswordGenerator { lowercase, uppercase, digits, symbols }
    }

    /// Generates a random password of the requested length: one character
    /// from each required class is seeded, the rest are drawn from the union
    /// of allowed classes, and the whole buffer is shuffled (Fisher–Yates)
    /// so the mandatory characters sit at no predictable position. The
    /// result always holds a lowercase letter, an uppercase letter and a
    /// digit — and a symbol when requested — and nothing outside the allowed
    /// classes.
    pub fn generate_secure_password(&self, length: usize, include_symbols: bool) -> (r:
        SecureString)
        requires
            self.wf(),
            length >= 8,
        ensures
            r@.len() == length,
            has_lowercase(r@),
            has_uppercase(r@),
            has_digit(r@),
            include_symbols ==> has_symbol(r@),
            forall|i: int| 0 <= i < r@.len() ==> is_generator_char(#[trigger] r@[i], include_symbols),
    {
        proof {
            assert forall|i: int| 0 <= i < self.lowercase@.len() implies is_generator_char(
                #[trigger] self.lowercase@[i],
                include_symbols,
            ) by {
                lemma_code_classes(self.lowercase@[i]);
            }
            assert forall|i: int| 0 <= i < self.uppercase@.len() implies is_generator_char(
                #[trigger] self.uppercase@[i],
                include_symbols,
            ) by {
                lemma_code_classes(self.uppercase@[i]);
            }
            assert forall|i: int| 0 <= i < self.digits@.len() implies is_generator_char(
                #[trigger] self.digits@[i],
                include_symbols,
            ) by {
                lemma_code_classes(self.digits@[i]);
            }
        }
        let mut charset: Vec<char> = Vec::new();
        append_chars(&mut charset, &self.lowercase);
        let ghost s1 = charset@;
        append_chars(&mut charset, &self.uppercase);
        let ghost s2 = charset@;
        append_chars(&mut charset, &self.digits);
        let ghost s3 = charset@;
        if include_symbols {
            append_chars(&mut charset, &self.symbols);
        }
        proof {
            assert forall|i: int| 0 <= i < charset@.len() implies is_generator_char(
                #[trigger] charset@[i],
                include_symbols,
            ) by {
                if i < s1.len() {
                    assert(charset@[i] == self.lowercase@[i]);
                } else if i < s2.len() {
                    assert(charset@[i] == self.uppercase@[i - s1.len()]);
                } else if i < s3.len() {
                    assert(charset@[i] == self.digits@[i - s2.len()]);
                } else {
                    assert(charset@[i] == self.symbols@[i - s3.len()]);
                }
            }
        }
        let mut password: Vec<char> = Vec::new();
        let i0 = rand_below(self.lowercase.len());
        password.push(self.lowercase[i0]);
        let i1 = rand_below(self.uppercase.len());
        password.push(self.uppercase[i1]);
        let i2 = rand_below(self.digits.len());
        password.push(self.digits[i2]);
        if include_symbols {
            let i3 = rand_below(self.symbols.len());
            password.push(self.symbols[i3]);
        }
        proof {
            assert(self.lowercase@[i0 as int] as u32 == 97 + i0);
            assert(is_lowercase_char(password@[0]));
            assert(self.uppercase@[i1 as int] as u32 == 65 + i1);
            assert(is_uppercase_char(password@[1]));
            assert(self.digits@[i2 as int] as u32 == 48 + i2);
            assert(is_digit_char(password@[2]));
            if include_symbols {
                assert(is_symbol_char(password@[3]));
            }
        }
        while password.len() < length
            invariant
                password@.len() <= length,
                charset@.len() > 0,
                forall|i: int|
                    0 <= i < charset@.len() ==> is_generator_char(
                        #[trigger] charset@[i],
                        include_symbols,
                    ),
                has_lowercase(password@),
                has_uppercase(password@),
                has_digit(password@),
                include_symbols ==> has_symbol(password@),
                forall|i: int|
                    0 <= i < password@.len() ==> is_generator_char(
                        #[trigger] password@[i],
                        include_symbols,
                    ),
            decreases length - password.len(),
        {
            let idx = rand_below(charset.len());
            proof {
                lemma_class_push(password@, charset@[idx as int]);
            }
            password.push(charset[idx]);
        }
        let mut i: usize = password.len() - 1;
        while i > 0
            invariant
                password@.len() == length,
                i < length,
                has_lowercase(password@),
                has_uppercase(password@),
                has_digit(password@),
                include_symbols ==> has_symbol(password@),
                forall|k: int|
                    0 <= k < password@.len() ==> is_generator_char(
                        #[trigger] password@[k],
                        include_symbols,
                    ),
            decreases i,
        {
            let j = rand_below(i + 1);
            let ghost pre = password@;
            let a = password[i];
            let b = password[j];
            password.as_mut_slice()[i] = b;
            password.as_mut_slice()[j] = a;
            proof {
                assert(password@ == pre.update(i as int, pre[j as int]).update(
                    j as int,
                    pre[i as int],
                ));
                lemma_swap_classes(pre, i as int, j as int);
                assert forall|k: int|
                    0 <= k < password@.len() implies is_generator_char(
                    #[trigger] password@[k],
                    include_symbols,
                ) by {
                    assert(password@[k] == pre[i as int] || password@[k] == pre[j as int]
                        || password@[k] == pre[k]);
                }
            }
            i -= 1;
        }
        SecureString::new(chars_to_string(&password))
    }

    /// The size of the character pool an attacker must search, per the
    /// classes actually present in the password: 26 for lowercase, 26 for
    /// uppercase, 10 for digits and 28 for symbols.
    pub fn charset_size(&self, password: &str) -> (r: u32)
        ensures
            r == spec_charset_size(password@),
    {
        let chars = chars_vec(password);
        let n = chars.len();
        let mut lower = false;
        let mut upper = false;
        let mut digit = false;
        let mut symbol = false;
        let mut i: usize = 0;
        while i < n
            invariant
                i <= n,
                n == password@.len(),
                chars@ == password@,
                lower == has_lowercase(password@.subrange(0, i as int)),
                upper == has_uppercase(password@.subrange(0, i as int)),
                digit == has_digit(password@.subrange(0, i as int)),
                symbol == has_symbol(password@.subrange(0, i as int)),
            decreases n - i,
        {
            let c = chars[i];
            proof {
                let pre = password@.subrange(0, i as int);
                assert(password@.subrange(0, i + 1) =~= pre.push(password@[i as int]));
                lemma_class_push(pre, password@[i as int]);
            }
            lower = lower || check_lowercase(c);
            upper = upper || check_uppercase(c);
            digit = digit || check_digit(c);
            symbol = symbol || check_symbol(c);
            i += 1;
        }
        proof {
            assert(password@.subrange(0, n as int) =~= password@);
        }
        let mut size: u32 = 0;
        if lower {
            size += 26;
        }
        if upper {
            size += 26;
        }
        if digit {
            size += 10;
        }
        if symbol {
            size += 28;
        }
        size
    }
}

/// The character-pool size for entropy estimation: the sum of the sizes of
/// the classes present in the password (lowercase 26, uppercase 26, digits
/// 10, symbols 28). The entropy estimate itself is
/// `length × log2(charset size)` bits, computed by the caller.
pub open spec fn spec_charset_size(s: Seq<char>) -> int {
    (if has_lowercase(s) {
        26int
    } else {
        0int
    }) + (if has_uppercase(s) {
        26int
    } else {
        0int
    }) + (if has_digit(s) {
        10int
    } else {
        0int
    }) + (if has_symbol(s) {
        28int
    } else {
        0int
    })
}

/// One per-identifier attempt record of the rate limiter.
struct AttemptRecord {
    id: String,
    count: u32,
    window_start: i64,
}

/// The record identifiers are pairwise distinct.
spec fn unique_ids(s: Seq<AttemptRecord>) -> bool {
    forall|i: int, j: int|
        0 <= i < j < s.len() ==> (#[trigger] s[i]).id@ != (#[trigger] s[j]).id@
}

/// Some record carries this identifier.
spec fn has_id(s: Seq<AttemptRecord>, id: Seq<char>) -> bool {
    exists|i: int| 0 <= i < s.len() && (#[trigger] s[i]).id@ == id
}

/// The index of the record carrying this identifier.
spec fn idx_of(s: Seq<AttemptRecord>, id: Seq<char>) -> int {
    choose|i: int| 0 <= i < s.len() && (#[trigger] s[i]).id@ == id
}

/// The attempt state stored for an identifier: count and window start.
spec fn entry_in(s: Seq<AttemptRecord>, id: Seq<char>) -> Option<(u32, i64)> {
    if has_id(s, id) {
        let i = idx_of(s, id);
        Some((s[i].count, s[i].window_start))
    } else {
        None
    }
}

/// With unique identifiers, a record's index is the looked-up index, and the
/// lookup returns that record's state.
proof fn lemma_idx(s: Seq<AttemptRecord>, id: Seq<char>, i: int)
    requires
        unique_ids(s),
        0 <= i < s.len(),
        s[i].id@ == id,
    ensures
        has_id(s, id),
        idx_of(s, id) == i,
        entry_in(s, id) == Some((s[i].count, s[i].window_start)),
{
    assert(has_id(s, id));
    let k = idx_of(s, id);
    assert(0 <= k < s.len() && s[k].id@ == id);
    if k < i {
        assert(s[k].id@ != s[i].id@);
    }
    if i < k {
        assert(s[i].id@ != s[k].id@);
    }
}

/// Replacing the record at `i` by one with the same identifier keeps the
/// identifiers unique, sets that identifier's state, and leaves every other
/// identifier's state unchanged.
proof fn lemma_update_same_id(s1: Seq<AttemptRecord>, rec: AttemptRecord, i: int)
    requires
        unique_ids(s1),
        0 <= i < s1.len(),
        rec.id@ == s1[i].id@,
    ensures
        unique_ids(s1.update(i, rec)),
        entry_in(s1.update(i, rec), rec.id@) == Some((rec.count, rec.window_start)),
        forall|id2: Seq<char>|
            id2 != rec.id@ ==> entry_in(s1.update(i, rec), id2) == entry_in(s1, id2),
{
    let s2 = s1.update(i, rec);
    assert(s2[i] == rec);
    assert(forall|j: int| 0 <= j < s1.len() && j != i ==> #[trigger] s2[j] == s1[j]);
    assert forall|a: int, b: int| 0 <= a < b < s2.len() implies (#[trigger] s2[a]).id@
        != (#[trigger] s2[b]).id@ by {
        assert(s1[a].id@ != s1[b].id@);
    }
    lemma_idx(s2, rec.id@, i);
    assert forall|id2: Seq<char>| id2 != rec.id@ implies entry_in(s2, id2) == entry_in(
        s1,
        id2,
    ) by {
        if has_id(s1, id2) {
            let j = idx_of(s1, id2);
            assert(0 <= j < s1.len() && s1[j].id@ == id2);
            assert(j != i);
            lemma_idx(s1, id2, j);
            lemma_idx(s2, id2, j);
        } else {
            if has_id(s2, id2) {
                let j = idx_of(s2, id2);
                assert(0 <= j < s2.len() && s2[j].id@ == id2);
                assert(j != i);
                assert(s1[j].id@ == id2);
                assert(false);
            }
        }
    }
}

/// Appending a record with a fresh identifier keeps the identifiers unique,
/// sets that identifier's state, and leaves every other identifier's state
/// unchanged.
proof fn lemma_push_new_id(s1: Seq<AttemptRecord>, rec: AttemptRecord)
    requires
        unique_ids(s1),
        !has_id(s1, rec.id@),
    ensures
        unique_ids(s1.push(rec)),
        entry_in(s1.push(rec), rec.id@) == Some((rec.count, rec.window_start)),
        forall|id2: Seq<char>| id2 != rec.id@ ==> entry_in(s1.push(rec), id2) == entry_in(s1, id2),
{
    let s2 = s1.push(rec);
    let n = s1.len() as int;
    assert(s2[n] == rec);
    assert(forall|j: int| 0 <= j < n ==> #[trigger] s2[j] == s1[j]);
    assert forall|a: int, b: int| 0 <= a < b < s2.len() implies (#[trigger] s2[a]).id@
        != (#[trigger] s2[b]).id@ by {
        if b < n {
            assert(s1[a].id@ != s1[b].id@);
        } else {
            assert(s2[b] == rec);
            if s1[a].id@ == rec.id@ {
                assert(has_id(s1, rec.id@));
            }
        }
    }
    lemma_idx(s2, rec.id@, n);
    assert forall|id2: Seq<char>| id2 != rec.id@ implies entry_in(s2, id2) == entry_in(
        s1,
        id2,
    ) by {
        if has_id(s1, id2) {
            let j = idx_of(s1, id2);
            assert(0 <= j < n && s1[j].id@ == id2);
            lemma_idx(s1, id2, j);
            lemma_idx(s2, id2, j);
        } else {
            if has_id(s2, id2) {
                let j = idx_of(s2, id2);
                assert(0 <= j < s2.len() && s2[j].id@ == id2);
                assert(j != n);
                assert(s1[j].id@ == id2);
                assert(false);
            }
        }
    }
}

/// Removing the record at `i` keeps the identifiers unique, clears that
/// identifier's state, and leaves every other identifier's state unchanged.
proof fn lemma_remove_id(s1: Seq<AttemptRecord>, i: int)
    requires
        unique_ids(s1),
        0 <= i < s1.len(),
    ensures
        unique_ids(s1.remove(i)),
        entry_in(s1.remove(i), s1[i].id@) is None,
        forall|id2: Seq<char>|
            id2 != s1[i].id@ ==> entry_in(s1.remove(i), id2) == entry_in(s1, id2),
{
    let s2 = s1.remove(i);
    let id = s1[i].id@;
    assert(forall|j: int| 0 <= j < i ==> #[trigger] s2[j] == s1[j]);
    assert(forall|j: int| i <= j < s2.len() ==> #[trigger] s2[j] == s1[j + 1]);
    assert forall|a: int, b: int| 0 <= a < b < s2.len() implies (#[trigger] s2[a]).id@
        != (#[trigger] s2[b]).id@ by {
        let a1: int = if a < i {
            a
        } else {
            a + 1
        };
        let b1: int = if b < i {
            b
        } else {
            b + 1
        };
        assert(s2[a] == s1[a1]);
        assert(s2[b] == s1[b1]);
        assert(s1[a1].id@ != s1[b1].id@);
    }
    if has_id(s2, id) {
        let j = idx_of(s2, id);
        assert(0 <= j < s2.len() && s2[j].id@ == id);
        let j1: int = if j < i {
            j
        } else {
            j + 1
        };
        assert(s1[j1].id@ == id);
        assert(j1 != i);
        if j1 < i {
            assert(s1[j1].id@ != s1[i].id@);
        } else {
            assert(s1[i].id@ != s1[j1].id@);
        }
        assert(false);
    }
    assert forall|id2: Seq<char>| id2 != id implies entry_in(s2, id2) == entry_in(s1, id2) by {
        if has_id(s1, id2) {
            let j = idx_of(s1, id2);
            assert(0 <= j < s1.len() && s1[j].id@ == id2);
            assert(j != i);
            lemma_idx(s1, id2, j);
            let j2: int = if j < i {
                j
            } else {
                j - 1
            };
            assert(s2[j2] == s1[j]);
            lemma_idx(s2, id2, j2);
        } else {
            if has_id(s2, id2) {
                let j = idx_of(s2, id2);
                assert(0 <= j < s2.len() && s2[j].id@ == id2);
                let j1: int = if j < i {
                    j
                } else {
                    j + 1
                };
                assert(s1[j1].id@ == id2);
                assert(false);
            }
        }
    }
}

/// Whether the limiter lets an attempt through, given the identifier's
/// stored state: always for an unseen identifier or an expired window,
/// otherwise only below the attempt cap.
pub open spec fn limiter_allows(entry: Option<(u32, i64)>, max: u32, window: i64, now: i64) -> bool {
    match entry {
        None => true,
        Some(e) => now - e.1 > window || e.0 < max,
    }
}

/// The state stored after an allowed attempt: a fresh window of one attempt
/// when none was open or the old one had expired, otherwise one more
/// attempt with the window start kept — the policy is fixed-window, and an
/// in-window attempt never extends the window.
pub open spec fn bumped_entry(entry: Option<(u32, i64)>, window: i64, now: i64) -> (u32, i64) {
    match entry {
        None => (1u32, now),
        Some(e) => if now - e.1 > window {
            (1u32, now)
        } else {
            (((e.0 + 1) as u32), e.1)
        },
    }
}

/// Minutes until a denied identifier may try again: the window's remaining
/// seconds, measured from its start, rounded up past its end; a clock that
/// ran backwards counts as no elapsed time.
pub open spec fn retry_minutes(entry: (u32, i64), window: i64, now: i64) -> int {
    let since: int = if now - entry.1 < 0 {
        0
    } else {
        now - entry.1
    };
    (window - since) / 60 + 1
}

/// The limiter's transition for one attempt at time `now`: an allowed
/// attempt is recorded per [`bumped_entry`] and succeeds; a denied attempt
/// leaves the state unchanged and reports the remaining cooldown.
pub open spec fn recorded_at(
    pre: Option<(u32, i64)>,
    post: Option<(u32, i64)>,
    max: u32,
    window: i64,
    now: i64,
    r: Result<(), VaultError>,
) -> bool {
    if limiter_allows(pre, max, window, now) {
        r is Ok && post == Some(bumped_entry(pre, window, now))
    } else {
        &&& pre matches Some(e) && r == Err::<(), VaultError>(
            VaultError::RateLimited { retry_after_minutes: retry_minutes(e, window, now) as i64 },
        )
        &&& post == pre
    }
}

/// A fixed-window attempt counter per identifier. A client straddling a
/// window boundary can get up to twice the cap across the two windows — an
/// accepted imprecision of the fixed-window policy. State lives only for
/// the process lifetime.
pub struct RateLimiter {
    attempts: Vec<AttemptRecord>,
    max_attempts: u32,
    window_secs: i64,
}

impl RateLimiter {
    /// The attempt cap inside one window.
    pub closed spec fn max_attempts_spec(&self) -> u32 {
        self.max_attempts
    }

    /// The window length in seconds.
    pub closed spec fn window_secs_spec(&self) -> i64 {
        self.window_secs
    }

    /// The stored (count, window start) state for an identifier.
    pub closed spec fn entry_for(&self, id: Seq<char>) -> Option<(u32, i64)> {
        entry_in(self.attempts@, id)
    }

    /// The limiter's invariant: distinct identifiers, nonnegative window
    /// starts, nonnegative window length.
    pub closed spec fn wf(&self) -> bool {
        &&& unique_ids(self.attempts@)
        &&& forall|i: int|
            0 <= i < self.attempts@.len() ==> (#[trigger] self.attempts@[i]).window_start >= 0
        &&& self.window_secs >= 0
    }

    /// A limiter allowing `max_attempts` attempts per `window_minutes`
    /// window, with no identifier yet recorded.
    pub fn new(max_attempts: u32, window_minutes: i64) -> (r: RateLimiter)
        requires
            0 <= window_minutes <= i64::MAX / 60,
        ensures
            r.wf(),
            r.max_attempts_spec() == max_attempts,
            r.window_secs_spec() == window_minutes * 60,
            forall|id: Seq<char>| r.entry_for(id) is None,
    {
        RateLimiter { attempts: Vec::new(), max_attempts, window_secs: window_minutes * 60 }
    }

    /// The index of the record for `id`, when one exists.
    fn find_index(attempts: &Vec<AttemptRecord>, id: &String) -> (r: Option<usize>)
        ensures
            match r {
                Some(i) => i < attempts@.len() && attempts@[i as int].id@ == id@,
                None => !has_id(attempts@, id@),
            },
    {
        let n = attempts.len();
        let mut i: usize = 0;
        while i < n
            invariant
                i <= n,
                n == attempts@.len(),
                forall|j: int| 0 <= j < i ==> (#[trigger] attempts@[j]).id@ != id@,
            decreases n - i,
        {
            if attempts[i].id == *id {
                return Some(i);
            }
            i += 1;
        }
        None
    }

    /// Records one attempt for `identifier` at time `now` and says whether
    /// it is allowed, per [`recorded_at`]; every other identifier's state is
    /// untouched.
    pub fn check_and_record_at(&mut self, identifier: &str, now: i64) -> (r: Result<
        (),
        VaultError,
    >)
        requires
            old(self).wf(),
            now >= 0,
        ensures
            final (self).wf(),
            final (self).max_attempts_spec() == old(self).max_attempts_spec(),
            final (self).window_secs_spec() == old(self).window_secs_spec(),
            forall|other: Seq<char>|
                other != identifier@ ==> final (self).entry_for(other) == old(self).entry_for(
                    other,
                ),
            recorded_at(
                old(self).entry_for(identifier@),
                final (self).entry_for(identifier@),
                old(self).max_attempts_spec(),
                old(self).window_secs_spec(),
                now,
                r,
            ),
    {
        let id = String::from_str(identifier);
        match Self::find_index(&self.attempts, &id) {
            None => {
                let rec = AttemptRecord { id, count: 1, window_start: now };
                proof {
                    lemma_push_new_id(self.attempts@, rec);
                }
                self.attempts.push(rec);
                Ok(())
            },
            Some(i) => {
                let count = self.attempts[i].count;
                let start = self.attempts[i].window_start;
                proof {
                    lemma_idx(self.attempts@, identifier@, i as int);
                }
                if now - start > self.window_secs {
                    let rec = AttemptRecord { id, count: 1, window_start: now };
                    proof {
                        lemma_update_same_id(self.attempts@, rec, i as int);
                    }
                    self.attempts.as_mut_slice()[i] = rec;
                    Ok(())
                } else if count >= self.max_attempts {
                    let since: i64 = if now - start < 0 {
                        0
                    } else {
                        now - start
                    };
                    let retry = ((self.window_secs - since) as u64 / 60) as i64 + 1;
                    Err(VaultError::RateLimited { retry_after_minutes: retry })
                } else {
                    let rec = AttemptRecord { id, count: count + 1, window_start: start };
                    proof {
                        lemma_update_same_id(self.attempts@, rec, i as int);
                    }
                    self.attempts.as_mut_slice()[i] = rec;
                    Ok(())
                }
            },
        }
    }

    /// Records one attempt for `identifier` at the current clock. The clock
    /// is read once, clamped below at zero, and the attempt is recorded per
    /// [`recorded_at`] for that instant.
    pub fn check_and_record(&mut self, identifier: &str) -> (r: Result<(), VaultError>)
        requires
            old(self).wf(),
        ensures
            final (self).wf(),
            final (self).max_attempts_spec() == old(self).max_attempts_spec(),
            final (self).window_secs_spec() == old(self).window_secs_spec(),
            forall|other: Seq<char>|
                other != identifier@ ==> final (self).entry_for(other) == old(self).entry_for(
                    other,
                ),
            exists|now: i64|
                now >= 0 && recorded_at(
                    old(self).entry_for(identifier@),
                    final (self).entry_for(identifier@),
                    old(self).max_attempts_spec(),
                    old(self).window_secs_spec(),
                    now,
                    r,
                ),
    {
        let raw = now_unix();
        let now: i64 = if raw < 0 {
            0
        } else {
            raw
        };
        let r = self.check_and_record_at(identifier, now);
        proof {
            assert(recorded_at(
                old(self).entry_for(identifier@),
                final (self).entry_for(identifier@),
                old(self).max_attempts_spec(),
                old(self).window_secs_spec(),
                now,
                r,
            ));
        }
        r
    }

    /// Clears the stored state for `identifier` (called after a successful
    /// authentication); every other identifier's state is untouched.
    pub fn reset(&mut self, identifier: &str)
        requires
            old(self).wf(),
        ensures
            final (self).wf(),
            final (self).max_attempts_spec() == old(self).max_attempts_spec(),
            final (self).window_secs_spec() == old(self).window_secs_spec(),
            final (self).entry_for(identifier@) is None,
            forall|other: Seq<char>|
                other != identifier@ ==> final (self).entry_for(other) == old(self).entry_for(
                    other,
                ),
    {
        let id = String::from_str(identifier);
        match Self::find_index(&self.attempts, &id) {
            None => {},
            Some(i) => {
                proof {
                    lemma_remove_id(self.attempts@, i as int);
                }
                self.attempts.remove(i);
            },
        }
    }
}

} // verus!

