use proxmox_tui_installer::options::PasswordCandidate;
use proxmox_tui_installer::validate::{validate_password, PasswordError};

fn candidate(password: &str, confirm: &str, email: &str) -> PasswordCandidate {
    PasswordCandidate {
        root_password: password.to_owned(),
        confirm_password: confirm.to_owned(),
        admin_email: email.to_owned(),
    }
}

#[test]
fn password_of_length_four_is_rejected_as_too_short() {
    let r = validate_password(candidate("abcd", "abcd", "a@b.com"));
    assert_eq!(r.unwrap_err(), PasswordError::TooShort);
}

#[test]
fn password_of_length_five_is_accepted() {
    let r = validate_password(candidate("abcde", "abcde", "a@b.com")).unwrap();
    assert_eq!(r.root_password, "abcde");
    assert_eq!(r.admin_email, "a@b.com");
}

#[test]
fn mismatched_confirmation_is_rejected() {
    let r = validate_password(candidate("abcde", "abcdX", "a@b.com"));
    assert_eq!(r.unwrap_err(), PasswordError::Mismatch);
}

#[test]
fn reserved_test_domain_is_rejected() {
    let r = validate_password(candidate("abcde", "abcde", "a@b.invalid"));
    assert_eq!(r.unwrap_err(), PasswordError::ReservedEmailSuffix);
}

#[test]
fn short_password_wins_over_later_rules() {
    // Rules are ordered: the length rule fires although the
    // confirmation mismatches and the email is reserved too.
    let r = validate_password(candidate("abc", "xyz", "a@b.invalid"));
    assert_eq!(r.unwrap_err(), PasswordError::TooShort);
}

#[test]
fn password_error_messages() {
    assert_eq!(PasswordError::TooShort.message(), "password too short");
    assert_eq!(PasswordError::Mismatch.message(), "passwords do not match");
    assert_eq!(PasswordError::ReservedEmailSuffix.message(), "invalid email address");
}
