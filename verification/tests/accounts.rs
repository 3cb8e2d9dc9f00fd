use streamhead::accounts::{
    check_repeated_password, dashboard_window, new_password_hash, password_hash_with_salt, verify_login, AccountError,
    SECONDS_PER_DAY,
};

#[test]
fn repeated_passwords_must_match() {
    assert_eq!(check_repeated_password(&"pw".to_string(), &"pw".to_string()), Ok(()));
    assert_eq!(
        check_repeated_password(&"pw".to_string(), &"wp".to_string()),
        Err(AccountError::PasswordsDiffer)
    );
    assert_eq!(
        new_password_hash(&"pw".to_string(), &"other".to_string()),
        Err(AccountError::PasswordsDiffer)
    );
}

#[test]
fn a_new_hash_verifies_its_password_only() {
    let pw = "correct horse".to_string();
    let hash = new_password_hash(&pw, &pw).unwrap();
    assert!(hash.starts_with("$argon2"));
    assert_eq!(verify_login(Some((7, hash.clone())), &pw), Ok(Some(7)));
    assert_eq!(verify_login(Some((7, hash.clone())), &"battery".to_string()), Ok(None));
    let second = new_password_hash(&pw, &pw).unwrap();
    assert_ne!(hash, second);
}

#[test]
fn logins_without_an_account_or_with_a_broken_hash() {
    assert_eq!(verify_login(None, &"pw".to_string()), Ok(None));
    assert_eq!(
        verify_login(Some((1, "not a hash".to_string())), &"pw".to_string()),
        Err(AccountError::InvalidHash)
    );
}

#[test]
fn dashboard_window_starts_at_the_end_of_last_month() {
    // 2023-11-14 22:13:20 UTC, the 14th: the window starts on 2023-10-31.
    assert_eq!(dashboard_window(1_700_000_000, 14), (1_698_710_400, 1_701_388_800));
    assert_eq!(dashboard_window(0, 0), (0, 31 * SECONDS_PER_DAY));
    assert_eq!(dashboard_window(-1, 0), (-SECONDS_PER_DAY, 30 * SECONDS_PER_DAY));
}

#[test]
fn hashes_with_a_given_salt() {
    let pw = "hunter2".to_string();
    let a = password_hash_with_salt(&pw, &pw, "c2FsdHNhbHRzYWx0").unwrap();
    let b = password_hash_with_salt(&pw, &pw, "c2FsdHNhbHRzYWx0").unwrap();
    assert_eq!(a, b);
    assert!(a.contains("c2FsdHNhbHRzYWx0"));
    assert_eq!(verify_login(Some((3, a)), &pw), Ok(Some(3)));
    assert_eq!(password_hash_with_salt(&pw, &pw, "!"), Err(AccountError::HashFailed));
    assert_eq!(
        password_hash_with_salt(&pw, &"x".to_string(), "c2FsdHNhbHRzYWx0"),
        Err(AccountError::PasswordsDiffer)
    );
}
