//! The credential store: user records, registration and authentication.
//!
//! A [`User`] carries a self-describing password hash (Argon2id in PHC string
//! form, salt and parameters embedded), distinct from the vault key
//! derivation. A [`UserManager`] holds the in-memory user collection;
//! persistence of that collection is a caller concern. Unknown-username and
//! wrong-password failures return the identical error value, so callers
//! cannot enumerate usernames.

use vstd::prelude::*;

use crate::errors::{ValidationError, VaultError};
use crate::text::{
    check_digit, check_lowercase, check_special, check_uppercase, check_username_char, chars_vec,
    has_digit, has_lowercase, has_special, has_uppercase, is_username_char, lemma_class_push,
};
use vstd::string::StringSliceAdditionalSpecFns;
use argon2::PasswordHasher;
use argon2::PasswordVerifier;

verus! {

/// The most encoded bytes argon2 accepts for a password.
pub const MAX_HASH_PASSWORD_BYTES: usize = 0xFFFF_FFFF;

/// A username is valid when it has 3 to 20 characters, each a Unicode
/// alphanumeric, `_` or `-`.
pub open spec fn valid_username(name: Seq<char>) -> bool {
    3 <= name.len() && name.len() <= 20 && forall|i: int|
        0 <= i < name.len() ==> is_username_char(#[trigger] name[i])
}

/// The exact outcome of username validation, first failing rule first.
pub open spec fn validate_username_spec(name: Seq<char>) -> Result<(), VaultError> {
    if name.len() == 0 {
        Err(VaultError::Validation(ValidationError::UsernameEmpty))
    } else if name.len() < 3 {
        Err(VaultError::Validation(ValidationError::UsernameTooShort))
    } else if name.len() > 20 {
        Err(VaultError::Validation(ValidationError::UsernameTooLong))
    } else if exists|i: int| 0 <= i < name.len() && !is_username_char(#[trigger] name[i]) {
        Err(VaultError::Validation(ValidationError::UsernameInvalidChar))
    } else {
        Ok(())
    }
}

/// Checks the username format: 3 to 20 characters, each a Unicode
/// alphanumeric, `_` or `-`.
pub fn validate_username(username: &str) -> (r: Result<(), VaultError>)
    ensures
        r == validate_username_spec(username@),
        r is Ok <==> valid_username(username@),
{
    let chars = chars_vec(username);
    let n = chars.len();
    if n == 0 {
        return Err(VaultError::Validation(ValidationError::UsernameEmpty));
    }
    if n < 3 {
        return Err(VaultError::Validation(ValidationError::UsernameTooShort));
    }
    if n > 20 {
        return Err(VaultError::Validation(ValidationError::UsernameTooLong));
    }
    let mut i: usize = 0;
    while i < n
        invariant
            i <= n,
            n == username@.len(),
            3 <= n <= 20,
            chars@ == username@,
            forall|j: int| 0 <= j < i ==> is_username_char(#[trigger] username@[j]),
        decreases n - i,
    {
        if !check_username_char(chars[i]) {
            proof {
                assert(!is_username_char(username@[i as int]));
            }
            return Err(VaultError::Validation(ValidationError::UsernameInvalidChar));
        }
        i += 1;
    }
    Ok(())
}

/// A password satisfies the full composition policy: at least 8 characters
/// with a lowercase letter, an uppercase letter, a digit and a special
/// character.
pub open spec fn valid_password(s: Seq<char>) -> bool {
    s.len() >= 8 && has_lowercase(s) && has_uppercase(s) && has_digit(s) && has_special(s)
}

/// The exact outcome of password-policy validation, first failing rule first.
pub open spec fn validate_password_spec(s: Seq<char>) -> Result<(), VaultError> {
    if s.len() < 8 {
        Err(VaultError::Validation(ValidationError::PasswordTooShort))
    } else if !has_lowercase(s) {
        Err(VaultError::Validation(ValidationError::PasswordMissingLowercase))
    } else if !has_uppercase(s) {
        Err(VaultError::Validation(ValidationError::PasswordMissingUppercase))
    } else if !has_digit(s) {
        Err(VaultError::Validation(ValidationError::PasswordMissingDigit))
    } else if !has_special(s) {
        Err(VaultError::Validation(ValidationError::PasswordMissingSpecial))
    } else {
        Ok(())
    }
}

/// Checks the full login-password composition policy: at least 8 characters,
/// with at least one lowercase letter, uppercase letter, digit and special
/// character.
pub fn validate_login_password(password: &str) -> (r: Result<(), VaultError>)
    ensures
        r == validate_password_spec(password@),
        r is Ok <==> valid_password(password@),
{
    let chars = chars_vec(password);
    let n = chars.len();
    if n < 8 {
        return Err(VaultError::Validation(ValidationError::PasswordTooShort));
    }
    let mut lower = false;
    let mut upper = false;
    let mut digit = false;
    let mut special = false;
    let mut i: usize = 0;
    while i < n
        invariant
            i <= n,
            n == password@.len(),
            chars@ == password@,
            lower == has_lowercase(password@.subrange(0, i as int)),
            upper == has_uppercase(password@.subrange(0, i as int)),
            digit == has_digit(password@.subrange(0, i as int)),
            special == has_special(password@.subrange(0, i as int)),
        decreases n - i,
    {
        let c = chars[i];
        proof {
            let pre = password@.subrange(0, i as int);
            assert(password@.subrange(0, i + 1) =~= pre.push(password@[i as int]));
            lemma_class_push(pre, password@[i as int]);
        }
        lower = lower || check_lowercase(c);
        upper = upper || check_uppercase(c);
        digit = digit || check_digit(c);
        special = special || check_special(c);
        i += 1;
    }
    proof {
        assert(password@.subrange(0, n as int) =~= password@);
    }
    if !lower {
        return Err(VaultError::Validation(ValidationError::PasswordMissingLowercase));
    }
    if !upper {
        return Err(VaultError::Validation(ValidationError::PasswordMissingUppercase));
    }
    if !digit {
        return Err(VaultError::Validation(ValidationError::PasswordMissingDigit));
    }
    if !special {
        return Err(VaultError::Validation(ValidationError::PasswordMissingSpecial));
    }
    Ok(())
}

/// Whether an Argon2 PHC hash string verifies a password. Deterministic in
/// the pair: the PHC string embeds its own salt and parameters. Named here;
/// the trusted wrappers below state what argon2 guarantees of it.
pub uninterp spec fn phc_verifies(hash: Seq<char>, password: Seq<char>) -> bool;

/// Relies on argon2's `PasswordHasher::hash_password` with a fresh random
/// salt from the operating-system RNG: hashing succeeds for any password of
/// at most `u32::MAX` encoded bytes, and per `PasswordVerifier`'s definition
/// the produced PHC string verifies exactly the password it hashed. Aborts
/// only if the operating-system RNG fails.
#[verifier::external_body]
fn phc_hash_password(password: &str) -> (r: String)
    requires
        password.spec_bytes().len() <= MAX_HASH_PASSWORD_BYTES,
    ensures
        phc_verifies(r@, password@),
{
    let salt = argon2::password_hash::SaltString::generate(
        &mut argon2::password_hash::rand_core::OsRng,
    );
    let hash = argon2::Argon2::default().hash_password(password.as_bytes(), &salt).unwrap();
    hash.to_string()
}

/// Relies on argon2's `PasswordVerifier::verify_password` (with
/// `PasswordHash` parsing): returns whether the PHC string verifies the
/// password; deterministic in the pair, and an unparsable hash verifies
/// nothing.
#[verifier::external_body]
fn phc_check_password(hash: &str, password: &str) -> (r: bool)
    ensures
        r == phc_verifies(hash@, password@),
{
    let parsed = match argon2::PasswordHash::new(hash) {
        Ok(h) => h,
        Err(_) => return false,
    };
    argon2::Argon2::default().verify_password(password.as_bytes(), &parsed).is_ok()
}

/// The vault file name derived for a username.
pub open spec fn vault_file_name(name: Seq<char>) -> Seq<char> {
    "vault_"@ + name + ".dat"@
}

/// One registered user: the unique username, the self-describing login
/// password hash, and the name of that user's vault file.
#[derive(Debug)]
pub struct User {
    pub username: String,
    pub password_hash: String,
    pub vault_file: String,
}

impl Clone for User {
    fn clone(&self) -> (r: Self)
        ensures
            r == *self,
    {
        User {
            username: self.username.clone(),
            password_hash: self.password_hash.clone(),
            vault_file: self.vault_file.clone(),
        }
    }
}

impl User {
    /// Builds a user record: hashes the password under a fresh random salt
    /// and derives the vault file name.
    pub fn new(username: String, password: &str) -> (r: Result<User, VaultError>)
        ensures
            r is Ok <==> password.spec_bytes().len() <= MAX_HASH_PASSWORD_BYTES,
            r matches Ok(u) ==> u.username == username && phc_verifies(
                u.password_hash@,
                password@,
            ) && u.vault_file@ == vault_file_name(username@),
            r matches Err(e) ==> e == VaultError::Validation(ValidationError::PasswordTooLong),
    {
        if password.as_bytes().len() > MAX_HASH_PASSWORD_BYTES {
            return Err(VaultError::Validation(ValidationError::PasswordTooLong));
        }
        let password_hash = phc_hash_password(password);
        let mut vault_file = String::from_str("vault_");
        vault_file.append(username.as_str());
        vault_file.append(".dat");
        Ok(User { username, password_hash, vault_file })
    }

    /// Checks the password against this user's stored hash.
    pub fn verify_password(&self, password: &str) -> (r: bool)
        ensures
            r == phc_verifies(self.password_hash@, password@),
    {
        phc_check_password(self.password_hash.as_str(), password)
    }
}

/// Some user in the collection carries this username.
pub open spec fn has_user(users: Seq<User>, name: Seq<char>) -> bool {
    exists|i: int| 0 <= i < users.len() && (#[trigger] users[i]).username@ == name
}

/// Index `i` holds the first user with this username.
pub open spec fn is_first_match(users: Seq<User>, name: Seq<char>, i: int) -> bool {
    0 <= i < users.len() && users[i].username@ == name && forall|j: int|
        0 <= j < i ==> (#[trigger] users[j]).username@ != name
}

/// Authentication succeeds: the first user with this username exists and the
/// password verifies against that user's hash.
pub open spec fn auth_ok(users: Seq<User>, name: Seq<char>, password: Seq<char>) -> bool {
    exists|i: int|
        #[trigger] is_first_match(users, name, i) && phc_verifies(
            users[i].password_hash@,
            password,
        )
}

/// At most one index is the first match for a username.
pub proof fn lemma_first_match_unique(users: Seq<User>, name: Seq<char>, i: int, j: int)
    requires
        is_first_match(users, name, i),
        is_first_match(users, name, j),
    ensures
        i == j,
{
    if i < j {
        assert(users[i].username@ != name);
    }
    if j < i {
        assert(users[j].username@ != name);
    }
}

/// Registering a user and then authenticating under the same name and
/// password succeeds: the freshly appended record is the only one with its
/// username, and its hash verifies the registration password. The
/// hypotheses are exactly what [`UserManager::register_user`] guarantees of
/// a successful registration into a collection that lacked the name.
pub proof fn lemma_register_then_authenticate(
    users: Seq<User>,
    u: User,
    name: Seq<char>,
    password: Seq<char>,
)
    requires
        !has_user(users, name),
        u.username@ == name,
        phc_verifies(u.password_hash@, password),
    ensures
        auth_ok(users.push(u), name, password),
{
    let s2 = users.push(u);
    let n = users.len() as int;
    assert(s2[n] == u);
    assert(forall|j: int| 0 <= j < n ==> #[trigger] s2[j] == users[j]);
    assert forall|j: int| 0 <= j < n implies (#[trigger] s2[j]).username@ != name by {
        if s2[j].username@ == name {
            assert(users[j].username@ == name);
        }
    }
    assert(is_first_match(s2, name, n));
}

/// A name just registered is present in the collection, so a second
/// registration under the same name must return the duplicate-user error,
/// by [`UserManager::register_user`]'s contract.
pub proof fn lemma_registered_name_present(users: Seq<User>, u: User)
    ensures
        has_user(users.push(u), u.username@),
{
    let s2 = users.push(u);
    let n = users.len() as int;
    assert(s2[n] == u);
}

/// The in-memory collection of registered users.
pub struct UserManager {
    users: Vec<User>,
}

impl UserManager {
    /// The user records this manager holds, in order.
    pub closed spec fn users_seq(&self) -> Seq<User> {
        self.users@
    }

    /// An empty user collection.
    pub fn new() -> (r: UserManager)
        ensures
            r.users_seq() == Seq::<User>::empty(),
    {
        UserManager { users: Vec::new() }
    }

    /// A manager holding exactly the given records (for a caller that loaded
    /// a persisted collection).
    pub fn with_users(users: Vec<User>) -> (r: UserManager)
        ensures
            r.users_seq() == users@,
    {
        UserManager { users }
    }

    /// The current records, for a caller that persists the collection.
    pub fn users(&self) -> (r: &Vec<User>)
        ensures
            r@ == self.users_seq(),
    {
        &self.users
    }

    /// Registers a new user: checks the username format, then username
    /// uniqueness, then — as a last-line check, the full composition policy
    /// being enforced upstream — the minimum password length; then hashes
    /// the password and appends the record. On any error the collection is
    /// unchanged.
    pub fn register_user(&mut self, username: &str, password: &str) -> (r: Result<
        User,
        VaultError,
    >)
        ensures
            r is Ok <==> valid_username(username@) && password@.len() >= 8
                && password.spec_bytes().len() <= MAX_HASH_PASSWORD_BYTES && !has_user(
                old(self).users_seq(),
                username@,
            ),
            r matches Ok(u) ==> final (self).users_seq() == old(self).users_seq().push(u)
                && u.username@ == username@ && phc_verifies(u.password_hash@, password@)
                && u.vault_file@ == vault_file_name(username@),
            r is Err ==> final (self).users_seq() == old(self).users_seq(),
            validate_username_spec(username@) matches Err(e) ==> r == Err::<User, VaultError>(e),
            valid_username(username@) && has_user(old(self).users_seq(), username@) ==> r == Err::<
                User,
                VaultError,
            >(VaultError::DuplicateUser),
            valid_username(username@) && !has_user(old(self).users_seq(), username@)
                && password@.len() < 8 ==> r == Err::<User, VaultError>(
                VaultError::Validation(ValidationError::PasswordTooShort),
            ),
            valid_username(username@) && !has_user(old(self).users_seq(), username@)
                && password@.len() >= 8 && password.spec_bytes().len() > MAX_HASH_PASSWORD_BYTES
                ==> r == Err::<User, VaultError>(
                VaultError::Validation(ValidationError::PasswordTooLong),
            ),
    {
        if let Err(e) = validate_username(username) {
            return Err(e);
        }
        if self.user_exists(username) {
            return Err(VaultError::DuplicateUser);
        }
        if password.unicode_len() < 8 {
            return Err(VaultError::Validation(ValidationError::PasswordTooShort));
        }
        let user = match User::new(String::from_str(username), password) {
            Ok(u) => u,
            Err(e) => {
                return Err(e);
            },
        };
        let copy = user.clone();
        self.users.push(copy);
        Ok(user)
    }

    /// Authenticates a user: finds the first record with this username and
    /// verifies the password against its hash. An unknown username and a
    /// wrong password return the identical error value.
    pub fn authenticate_user(&self, username: &str, password: &str) -> (r: Result<
        User,
        VaultError,
    >)
        ensures
            r is Ok <==> auth_ok(self.users_seq(), username@, password@),
            r matches Ok(u) ==> forall|i: int|
                is_first_match(self.users_seq(), username@, i) ==> u == self.users_seq()[i],
            r matches Err(e) ==> e == VaultError::InvalidCredentials,
    {
        let ghost users = self.users_seq();
        let name = String::from_str(username);
        let n = self.users.len();
        let mut i: usize = 0;
        while i < n
            invariant
                i <= n,
                n == users.len(),
                self.users_seq() == users,
                name@ == username@,
                forall|j: int| 0 <= j < i ==> (#[trigger] users[j]).username@ != username@,
            decreases n - i,
        {
            if self.users[i].username == name {
                proof {
                    assert(is_first_match(users, username@, i as int));
                }
                if phc_check_password(self.users[i].password_hash.as_str(), password) {
                    proof {
                        assert(auth_ok(users, username@, password@));
                        assert(forall|k: int|
                            #[trigger] is_first_match(users, username@, k) ==> k == i as int) by {
                            assert forall|k: int|
                                #[trigger] is_first_match(users, username@, k) implies k == i
                                as int by {
                                lemma_first_match_unique(users, username@, k, i as int);
                            }
                        }
                    }
                    return Ok(self.users[i].clone());
                } else {
                    proof {
                        assert forall|k: int|
                            !(#[trigger] is_first_match(users, username@, k) && phc_verifies(
                                users[k].password_hash@,
                                password@,
                            )) by {
                            if is_first_match(users, username@, k) {
                                lemma_first_match_unique(users, username@, k, i as int);
                            }
                        }
                    }
                    return Err(VaultError::InvalidCredentials);
                }
            }
            i += 1;
        }
        proof {
            assert forall|k: int|
                !(#[trigger] is_first_match(users, username@, k) && phc_verifies(
                    users[k].password_hash@,
                    password@,
                )) by {}
        }
        Err(VaultError::InvalidCredentials)
    }

    /// Whether some record carries this username.
    pub fn user_exists(&self, username: &str) -> (r: bool)
        ensures
            r == has_user(self.users_seq(), username@),
    {
        let name = String::from_str(username);
        let n = self.users.len();
        let mut i: usize = 0;
        while i < n
            invariant
                i <= n,
                n == self.users_seq().len(),
                name@ == username@,
                forall|j: int|
                    0 <= j < i ==> (#[trigger] self.users_seq()[j]).username@ != username@,
            decreases n - i,
        {
            if self.users[i].username == name {
                return true;
            }
            i += 1;
        }
        false
    }
}

} // verus!
