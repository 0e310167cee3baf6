use kapto_rules::account_util::{
    check_email, check_username, EmailError, UsernameError, MAX_USERNAME_LENGTH,
};

#[test]
fn short_username_accepted() {
    assert!(check_username("player-one").is_ok());
    assert!(check_username("").is_ok());
}

#[test]
fn long_username_rejected() {
    let name = "x".repeat(65);
    assert_eq!(
        check_username(&name).unwrap_err(),
        UsernameError::TooLong {
            max_length: MAX_USERNAME_LENGTH,
            length: 65
        }
    );
    assert!(check_username(&"x".repeat(64)).is_ok());
}

#[test]
fn email_needs_at_sign() {
    assert!(check_email("player@example.test").is_ok());
    assert_eq!(check_email("player.example").unwrap_err(), EmailError::MissingAt);
    assert_eq!(check_email("").unwrap_err(), EmailError::MissingAt);
}
