use secure_vault::auth::{validate_login_password, validate_username, User, UserManager};
use secure_vault::errors::{ValidationError, VaultError};

#[test]
fn register_then_authenticate_succeeds() {
    let mut manager = UserManager::new();
    let user = manager.register_user("valid_name-1", "ValidPass1!").unwrap();
    assert_eq!(user.username, "valid_name-1");
    assert_eq!(user.vault_file, "vault_valid_name-1.dat");
    let again = manager.authenticate_user("valid_name-1", "ValidPass1!").unwrap();
    assert_eq!(again.username, "valid_name-1");
}

#[test]
fn wrong_password_and_missing_user_share_one_error() {
    let mut manager = UserManager::new();
    manager.register_user("alice", "ValidPass1!").unwrap();
    let wrong = manager.authenticate_user("alice", "WrongPass1!").unwrap_err();
    let missing = manager.authenticate_user("nobody", "ValidPass1!").unwrap_err();
    assert_eq!(wrong, VaultError::InvalidCredentials);
    assert_eq!(missing, VaultError::InvalidCredentials);
    assert_eq!(wrong, missing);
}

#[test]
fn duplicate_registration_fails() {
    let mut manager = UserManager::new();
    manager.register_user("alice", "ValidPass1!").unwrap();
    let err = manager.register_user("alice", "Other2@").unwrap_err();
    assert_eq!(err, VaultError::DuplicateUser);
}

#[test]
fn username_policy_rejects_short_names() {
    let mut manager = UserManager::new();
    let err = manager.register_user("ab", "ValidPass1!").unwrap_err();
    assert_eq!(err, VaultError::Validation(ValidationError::UsernameTooShort));
}

#[test]
fn short_password_rejected_for_fresh_name() {
    let mut manager = UserManager::new();
    let err = manager.register_user("charlie", "Sh0rt!").unwrap_err();
    assert_eq!(err, VaultError::Validation(ValidationError::PasswordTooShort));
}

#[test]
fn user_exists_tracks_registration() {
    let mut manager = UserManager::new();
    assert!(!manager.user_exists("alice"));
    manager.register_user("alice", "ValidPass1!").unwrap();
    assert!(manager.user_exists("alice"));
    assert!(!manager.user_exists("bob"));
}

#[test]
fn stored_hash_is_self_describing_not_the_password() {
    let user = User::new(String::from("dave"), "ValidPass1!").unwrap();
    assert_ne!(user.password_hash, "ValidPass1!");
    assert!(user.password_hash.starts_with("$argon2"));
    assert!(user.verify_password("ValidPass1!"));
    assert!(!user.verify_password("ValidPass2!"));
}

#[test]
fn username_accepts_unicode_alphanumerics() {
    assert!(validate_username("ab\u{e9}").is_ok());
    assert!(validate_username("jos\u{e9}_1").is_ok());
    let mut manager = UserManager::new();
    let user = manager.register_user("jos\u{e9}_1", "ValidPass1!").unwrap();
    assert_eq!(user.username, "jos\u{e9}_1");
    assert!(manager.authenticate_user("jos\u{e9}_1", "ValidPass1!").is_ok());
}

#[test]
fn username_validation_cases() {
    assert!(validate_username("abc").is_ok());
    assert!(validate_username("valid_name-1").is_ok());
    assert_eq!(
        validate_username("").unwrap_err(),
        VaultError::Validation(ValidationError::UsernameEmpty)
    );
    assert_eq!(
        validate_username("ab").unwrap_err(),
        VaultError::Validation(ValidationError::UsernameTooShort)
    );
    assert_eq!(
        validate_username("a_very_long_username_x").unwrap_err(),
        VaultError::Validation(ValidationError::UsernameTooLong)
    );
    assert_eq!(
        validate_username("bad name!").unwrap_err(),
        VaultError::Validation(ValidationError::UsernameInvalidChar)
    );
}

#[test]
fn login_password_policy_cases() {
    assert!(validate_login_password("ValidPass1!").is_ok());
    assert_eq!(
        validate_login_password("Va1!").unwrap_err(),
        VaultError::Validation(ValidationError::PasswordTooShort)
    );
    assert_eq!(
        validate_login_password("UPPERCASE1!").unwrap_err(),
        VaultError::Validation(ValidationError::PasswordMissingLowercase)
    );
    assert_eq!(
        validate_login_password("lowercase1!").unwrap_err(),
        VaultError::Validation(ValidationError::PasswordMissingUppercase)
    );
    assert_eq!(
        validate_login_password("NoDigits!!").unwrap_err(),
        VaultError::Validation(ValidationError::PasswordMissingDigit)
    );
    assert_eq!(
        validate_login_password("NoSpecial11").unwrap_err(),
        VaultError::Validation(ValidationError::PasswordMissingSpecial)
    );
}

#[test]
fn manager_round_trips_its_records() {
    let mut manager = UserManager::new();
    manager.register_user("alice", "ValidPass1!").unwrap();
    manager.register_user("bob", "ValidPass2@").unwrap();
    let records = manager.users().clone();
    assert_eq!(records.len(), 2);
    let reloaded = UserManager::with_users(records);
    assert!(reloaded.user_exists("alice"));
    assert!(reloaded.authenticate_user("bob", "ValidPass2@").is_ok());
}
