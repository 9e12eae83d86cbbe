use secure_vault::errors::{ValidationError, VaultError};
use secure_vault::security::{
    validate_input_string, RateLimiter, SecurePasswordGenerator, SecureString, SecurityLogger,
};

#[test]
fn secure_string_round_trip_and_wipe() {
    let s = SecureString::new(String::from("hunter2!"));
    assert_eq!(s.as_str(), "hunter2!");
    let copied = SecureString::from_str("hunter2!");
    assert_eq!(copied.as_str(), "hunter2!");
    let mut c = s.clone();
    assert_eq!(c.as_str(), "hunter2!");
    c.wipe();
    assert_eq!(c.as_str(), "");
    assert_eq!(s.as_str(), "hunter2!");
}

#[test]
fn input_validation_cases() {
    assert!(validate_input_string("example.com", 100, false).is_ok());
    assert_eq!(
        validate_input_string("", 100, false).unwrap_err(),
        VaultError::Validation(ValidationError::InputEmpty)
    );
    assert_eq!(
        validate_input_string("toolong", 3, false).unwrap_err(),
        VaultError::Validation(ValidationError::InputTooLong)
    );
    assert_eq!(
        validate_input_string("a\0b", 100, false).unwrap_err(),
        VaultError::Validation(ValidationError::InputNullChar)
    );
    assert_eq!(
        validate_input_string("a\u{1b}b", 100, false).unwrap_err(),
        VaultError::Validation(ValidationError::InputControlChar)
    );
    // tab, newline and carriage return stay allowed
    assert!(validate_input_string("a\tb\nc\rd", 100, false).is_ok());
    // allow_special admits other control characters
    assert!(validate_input_string("a\u{1b}b", 100, true).is_ok());
}

#[test]
fn rate_limiter_scenario() {
    let mut limiter = RateLimiter::new(3, 15);
    assert!(limiter.check_and_record("alice").is_ok());
    assert!(limiter.check_and_record("alice").is_ok());
    assert!(limiter.check_and_record("alice").is_ok());
    let err = limiter.check_and_record("alice").unwrap_err();
    assert!(matches!(err, VaultError::RateLimited { .. }));
    limiter.reset("alice");
    assert!(limiter.check_and_record("alice").is_ok());
}

#[test]
fn rate_limiter_fixed_times() {
    let mut limiter = RateLimiter::new(3, 15);
    assert!(limiter.check_and_record_at("alice", 0).is_ok());
    assert!(limiter.check_and_record_at("alice", 1).is_ok());
    assert!(limiter.check_and_record_at("alice", 2).is_ok());
    let err = limiter.check_and_record_at("alice", 3).unwrap_err();
    // window 900 s, 3 s since the window start: (900 - 3) / 60 + 1 = 15 minutes
    assert_eq!(err, VaultError::RateLimited { retry_after_minutes: 15 });
    // an expired window opens a fresh one
    assert!(limiter.check_and_record_at("alice", 1000).is_ok());
}

#[test]
fn rate_limiter_window_is_fixed_not_sliding() {
    // window 900 s: attempts late in the window do not extend it
    let mut limiter = RateLimiter::new(2, 15);
    assert!(limiter.check_and_record_at("alice", 0).is_ok());
    assert!(limiter.check_and_record_at("alice", 800).is_ok());
    let err = limiter.check_and_record_at("alice", 850).unwrap_err();
    // 850 s into the window that began at 0: (900 - 850) / 60 + 1 = 1 minute
    assert_eq!(err, VaultError::RateLimited { retry_after_minutes: 1 });
    // the window still starts at 0, so at 901 s it has expired
    assert!(limiter.check_and_record_at("alice", 901).is_ok());
}

#[test]
fn rate_limiter_keeps_identifiers_apart() {
    let mut limiter = RateLimiter::new(1, 15);
    assert!(limiter.check_and_record_at("alice", 0).is_ok());
    assert!(limiter.check_and_record_at("bob", 0).is_ok());
    assert!(limiter.check_and_record_at("alice", 1).is_err());
    assert!(limiter.check_and_record_at("bob", 1).is_err());
    limiter.reset("alice");
    assert!(limiter.check_and_record_at("alice", 2).is_ok());
    assert!(limiter.check_and_record_at("bob", 2).is_err());
}

fn is_symbol(c: char) -> bool {
    "!@#$%^&*()_+-=[]{}|;:,.<>?~".contains(c)
}

#[test]
fn generated_password_has_required_classes() {
    let generator = SecurePasswordGenerator::new();
    let password = generator.generate_secure_password(12, true);
    let text = password.as_str();
    assert_eq!(text.chars().count(), 12);
    assert!(text.chars().any(|c| c.is_ascii_lowercase()));
    assert!(text.chars().any(|c| c.is_ascii_uppercase()));
    assert!(text.chars().any(|c| c.is_ascii_digit()));
    assert!(text.chars().any(is_symbol));
}

#[test]
fn generated_password_without_symbols_is_alphanumeric() {
    let generator = SecurePasswordGenerator::new();
    let password = generator.generate_secure_password(16, false);
    let text = password.as_str();
    assert_eq!(text.chars().count(), 16);
    assert!(text.chars().all(|c| c.is_ascii_alphanumeric()));
    assert!(text.chars().any(|c| c.is_ascii_lowercase()));
    assert!(text.chars().any(|c| c.is_ascii_uppercase()));
    assert!(text.chars().any(|c| c.is_ascii_digit()));
}

#[test]
fn generated_passwords_differ() {
    let generator = SecurePasswordGenerator::new();
    let a = generator.generate_secure_password(16, true);
    let b = generator.generate_secure_password(16, true);
    assert_ne!(a.as_str(), b.as_str());
}

#[test]
fn charset_size_counts_present_classes() {
    let generator = SecurePasswordGenerator::new();
    assert_eq!(generator.charset_size("abc"), 26);
    assert_eq!(generator.charset_size("aA"), 52);
    assert_eq!(generator.charset_size("a1"), 36);
    assert_eq!(generator.charset_size("a!"), 54);
    assert_eq!(generator.charset_size("~"), 28);
    assert_eq!(generator.charset_size("aA1!"), 90);
    assert_eq!(generator.charset_size(""), 0);
}

#[test]
fn entropy_estimate_for_alphanumeric_16() {
    let generator = SecurePasswordGenerator::new();
    let password = generator.generate_secure_password(16, false);
    let size = generator.charset_size(password.as_str());
    assert_eq!(size, 62);
    let entropy = 16.0_f64 * (size as f64).log2();
    assert!((entropy - 95.3).abs() < 0.1);
}

#[test]
fn logger_appends_records() {
    let mut logger = SecurityLogger::new();
    assert_eq!(logger.events().len(), 0);
    logger.log_event("LOGIN_SUCCESS", Some("alice"), true, "User login successful");
    logger.log_event("LOGIN_FAILED", Some("bob"), false, "Login attempt 1 failed");
    logger.log_event("RESET_COMPLETED", None, true, "Application reset completed");
    let events = logger.events();
    assert_eq!(events.len(), 3);
    assert_eq!(events[0].event_type, "LOGIN_SUCCESS");
    assert_eq!(events[0].username.as_deref(), Some("alice"));
    assert!(events[0].success);
    assert_eq!(events[0].details, "User login successful");
    assert_eq!(events[1].event_type, "LOGIN_FAILED");
    assert!(!events[1].success);
    assert_eq!(events[2].username, None);
}
