//! Stored credentials: the entries of a decrypted vault, their validation,
//! and case-insensitive search over them.
//!
//! Entries exist only inside the in-memory working copy of an unlocked
//! vault; they are never persisted unencrypted.

use vstd::prelude::*;

use crate::auth::{valid_password, validate_login_password, validate_password_spec};
use crate::errors::{ValidationError, VaultError};
use crate::security::validate_input_spec;
use crate::security::validate_input_string;
use crate::text::{chars_vec, contains_chars, is_substring_of};

verus! {

/// The most characters a site or username field of an entry may hold.
pub const ENTRY_FIELD_MAX: usize = 100;

/// One stored credential of a decrypted vault.
pub struct PasswordEntry {
    pub site: String,
    pub username: String,
    pub password: String,
}

impl PasswordEntry {
    /// Builds an entry from its three fields.
    pub fn new(site: String, username: String, password: String) -> (r: PasswordEntry)
        ensures
            r.site == site,
            r.username == username,
            r.password == password,
    {
        PasswordEntry { site, username, password }
    }
}

impl Clone for PasswordEntry {
    fn clone(&self) -> (r: Self)
        ensures
            r == *self,
    {
        PasswordEntry {
            site: self.site.clone(),
            username: self.username.clone(),
            password: self.password.clone(),
        }
    }
}

/// The exact outcome of entry validation: the site field, then the username
/// field, each as free-form input of at most [`ENTRY_FIELD_MAX`] characters,
/// then a non-empty password.
pub open spec fn validate_entry_spec(
    site: Seq<char>,
    username: Seq<char>,
    password: Seq<char>,
) -> Result<(), VaultError> {
    if validate_input_spec(site, ENTRY_FIELD_MAX as int, false) is Err {
        validate_input_spec(site, ENTRY_FIELD_MAX as int, false)
    } else if validate_input_spec(username, ENTRY_FIELD_MAX as int, false) is Err {
        validate_input_spec(username, ENTRY_FIELD_MAX as int, false)
    } else if password.len() == 0 {
        Err(VaultError::Validation(ValidationError::PasswordEmpty))
    } else {
        Ok(())
    }
}

/// Validates the fields of an entry before it is stored.
pub fn validate_entry(site: &str, username: &str, password: &str) -> (r: Result<(), VaultError>)
    ensures
        r == validate_entry_spec(site@, username@, password@),
{
    if let Err(e) = validate_input_string(site, ENTRY_FIELD_MAX, false) {
        return Err(e);
    }
    if let Err(e) = validate_input_string(username, ENTRY_FIELD_MAX, false) {
        return Err(e);
    }
    if password.is_empty() {
        return Err(VaultError::Validation(ValidationError::PasswordEmpty));
    }
    Ok(())
}

/// Checks the master-password composition policy, which is the same as the
/// login-password policy: at least 8 characters, with at least one lowercase
/// letter, uppercase letter, digit and special character.
pub fn validate_master_password(password: &str) -> (r: Result<(), VaultError>)
    ensures
        r == validate_password_spec(password@),
        r is Ok <==> valid_password(password@),
{
    validate_login_password(password)
}

/// The lowercase form of a character sequence, as `str::to_lowercase`
/// computes it. Deterministic in the characters alone; named here, stated
/// by [`lowercase_str`].
pub uninterp spec fn lower_of(s: Seq<char>) -> Seq<char>;

/// Relies on std's `str::to_lowercase`: the result depends on the
/// characters alone.
#[verifier::external_body]
fn lowercase_str(s: &str) -> (r: String)
    ensures
        r@ == lower_of(s@),
{
    s.to_lowercase()
}

/// Whether an entry matches a search query: the lowercased query occurs
/// inside the lowercased site name.
pub open spec fn entry_matches(e: PasswordEntry, query: Seq<char>) -> bool {
    is_substring_of(lower_of(query), lower_of(e.site@))
}

/// The indices, in ascending order, of exactly the entries whose site
/// matches the query, case-insensitively.
pub fn search_entries(entries: &Vec<PasswordEntry>, query: &str) -> (r: Vec<usize>)
    ensures
        forall|k: int|
            0 <= k < r@.len() ==> (#[trigger] r@[k]) < entries@.len() && entry_matches(
                entries@[r@[k] as int],
                query@,
            ),
        forall|i: int|
            0 <= i < entries@.len() && entry_matches(#[trigger] entries@[i], query@)
                ==> r@.contains(i as usize),
        forall|k1: int, k2: int| 0 <= k1 < k2 < r@.len() ==> r@[k1] < r@[k2],
{
    let lowered = lowercase_str(query);
    let needle = chars_vec(lowered.as_str());
    let mut out: Vec<usize> = Vec::new();
    let n = entries.len();
    let mut i: usize = 0;
    while i < n
        invariant
            i <= n,
            n == entries@.len(),
            needle@ == lower_of(query@),
            forall|k: int|
                0 <= k < out@.len() ==> (#[trigger] out@[k]) < i && entry_matches(
                    entries@[out@[k] as int],
                    query@,
                ),
            forall|j: int|
                0 <= j < i && entry_matches(#[trigger] entries@[j], query@) ==> out@.contains(
                    j as usize,
                ),
            forall|k1: int, k2: int| 0 <= k1 < k2 < out@.len() ==> out@[k1] < out@[k2],
        decreases n - i,
    {
        let ghost pre = out@;
        let site_lower = lowercase_str(entries[i].site.as_str());
        let hay = chars_vec(site_lower.as_str());
        if contains_chars(&hay, &needle) {
            out.push(i);
            proof {
                assert(out@[pre.len() as int] == i as usize);
                assert(forall|k: int| 0 <= k < pre.len() ==> #[trigger] out@[k] == pre[k]);
                assert forall|j: int|
                    0 <= j < i + 1 && entry_matches(#[trigger] entries@[j], query@) implies
                    out@.contains(j as usize) by {
                    if j < i {
                        let k = choose|k: int| 0 <= k < pre.len() && pre[k] == j as usize;
                        assert(out@[k] == j as usize);
                    } else {
                        assert(out@[pre.len() as int] == j as usize);
                    }
                }
            }
        } else {
            proof {
                assert(!entry_matches(entries@[i as int], query@));
            }
        }
        i += 1;
    }
    out
}

} // verus!
