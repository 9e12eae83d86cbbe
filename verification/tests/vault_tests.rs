use secure_vault::errors::{ValidationError, VaultError};
use secure_vault::vault::{
    search_entries, validate_entry, validate_master_password, PasswordEntry,
};

fn sample_entries() -> Vec<PasswordEntry> {
    vec![
        PasswordEntry::new(
            String::from("GitHub.com"),
            String::from("alice"),
            String::from("pw1"),
        ),
        PasswordEntry::new(
            String::from("example.org"),
            String::from("bob"),
            String::from("pw2"),
        ),
        PasswordEntry::new(
            String::from("git.example.org"),
            String::from("carol"),
            String::from("pw3"),
        ),
    ]
}

#[test]
fn search_is_case_insensitive() {
    let entries = sample_entries();
    let hits = search_entries(&entries, "GIT");
    assert_eq!(hits, vec![0, 2]);
}

#[test]
fn search_matches_substring_of_site() {
    let entries = sample_entries();
    assert_eq!(search_entries(&entries, "example"), vec![1, 2]);
    assert_eq!(search_entries(&entries, "hub"), vec![0]);
    assert_eq!(search_entries(&entries, "nothing-here"), Vec::<usize>::new());
}

#[test]
fn empty_query_matches_everything() {
    let entries = sample_entries();
    assert_eq!(search_entries(&entries, ""), vec![0, 1, 2]);
}

#[test]
fn entry_validation_cases() {
    assert!(validate_entry("example.com", "alice", "pw").is_ok());
    assert_eq!(
        validate_entry("", "alice", "pw").unwrap_err(),
        VaultError::Validation(ValidationError::InputEmpty)
    );
    assert_eq!(
        validate_entry("example.com", "alice", "").unwrap_err(),
        VaultError::Validation(ValidationError::PasswordEmpty)
    );
    let long = "x".repeat(101);
    assert_eq!(
        validate_entry(&long, "alice", "pw").unwrap_err(),
        VaultError::Validation(ValidationError::InputTooLong)
    );
}

#[test]
fn master_password_policy_matches_login_policy() {
    assert!(validate_master_password("Correct1!").is_ok());
    assert_eq!(
        validate_master_password("weakpass").unwrap_err(),
        VaultError::Validation(ValidationError::PasswordMissingUppercase)
    );
    assert_eq!(
        validate_master_password("Va1!").unwrap_err(),
        VaultError::Validation(ValidationError::PasswordTooShort)
    );
}

#[test]
fn entry_fields_are_kept() {
    let e = PasswordEntry::new(
        String::from("site"),
        String::from("user"),
        String::from("secret"),
    );
    assert_eq!(e.site, "site");
    assert_eq!(e.username, "user");
    assert_eq!(e.password, "secret");
    let c = e.clone();
    assert_eq!(c.site, e.site);
    assert_eq!(c.password, e.password);
}
