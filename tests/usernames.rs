use blocchat_auth::profile::{
    can_change_username, check_username, plan_profile_username_update, plan_username_claim, validate_username,
    UsernameChange, UsernameError, DAY_MS,
};

#[test]
fn test_validate_username() {
    assert!(validate_username("alice").is_ok());
    assert!(validate_username("alice_123").is_ok());
    assert!(validate_username("user_name_2024").is_ok());

    assert!(validate_username("ab").is_err()); // Too short
    assert!(validate_username("a".repeat(31).as_str()).is_err()); // Too long
    assert!(validate_username("alice bob").is_err()); // Space
    assert!(validate_username("alice-bob").is_err()); // Hyphen
    assert!(validate_username("_alice").is_err()); // Starts with underscore
    assert!(validate_username("alice!").is_err()); // Special char
}

#[test]
fn username_errors_are_specific() {
    assert_eq!(validate_username("ab"), Err(UsernameError::TooShort));
    assert_eq!(validate_username(&"a".repeat(31)), Err(UsernameError::TooLong));
    assert_eq!(validate_username(&"a".repeat(30)), Ok(()));
    assert_eq!(validate_username("alice bob"), Err(UsernameError::InvalidCharacters));
    assert_eq!(validate_username("_alice"), Err(UsernameError::LeadingUnderscore));
    assert_eq!(check_username("_ab", true), Err(UsernameError::LeadingUnderscore));
    assert_eq!(check_username("abc", false), Err(UsernameError::InvalidCharacters));
}

#[test]
fn username_cooldown() {
    assert_eq!(can_change_username(None, 0), Ok(()));
    assert_eq!(can_change_username(Some(0), 30 * DAY_MS), Ok(()));
    assert_eq!(can_change_username(Some(0), 30 * DAY_MS - 1), Err(UsernameError::Cooldown(1)));
    assert_eq!(can_change_username(Some(0), 10 * DAY_MS + 5), Err(UsernameError::Cooldown(20)));
    assert_eq!(can_change_username(Some(2 * DAY_MS + 5), 0), Err(UsernameError::Cooldown(32)));
}

#[test]
fn claim_planning() {
    assert_eq!(plan_username_claim(Some("Alice"), "alice", Some(0), 0), Ok(UsernameChange::Unchanged));
    assert_eq!(plan_username_claim(Some("alice"), "bob_1", Some(0), DAY_MS), Err(UsernameError::Cooldown(29)));
    assert_eq!(
        plan_username_claim(Some("alice"), "bob_1", Some(0), 31 * DAY_MS),
        Ok(UsernameChange::CheckAvailability)
    );
    assert_eq!(plan_username_claim(None, "bob_1", None, 0), Ok(UsernameChange::CheckAvailability));
    assert_eq!(plan_username_claim(None, "_bob", None, 0), Err(UsernameError::LeadingUnderscore));
}

#[test]
fn update_planning() {
    assert_eq!(plan_profile_username_update(None, "bob_1", None, 0), Ok(UsernameChange::Store));
    assert_eq!(plan_profile_username_update(Some("Bob_1"), "bob_1", Some(0), 0), Ok(UsernameChange::Store));
    assert_eq!(
        plan_profile_username_update(Some("alice"), "bob_1", Some(0), DAY_MS),
        Err(UsernameError::Cooldown(29))
    );
    assert_eq!(
        plan_profile_username_update(Some("alice"), "bob_1", None, 0),
        Ok(UsernameChange::CheckAvailability)
    );
    assert_eq!(plan_profile_username_update(None, "bob bob", None, 0), Err(UsernameError::InvalidCharacters));
}
