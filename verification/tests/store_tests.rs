use imperial_verify::errors::Error;
use imperial_verify::store::{Store, UserState};

#[test]
fn create_user_then_exists() {
    let mut s = Store::new();
    assert!(!s.user_exists(7));
    let u = s.create_user(7).unwrap();
    assert_eq!(u.id, 7);
    assert!(u.imperial_email.is_none());
    assert!(matches!(u.state, UserState::Unverified));
    assert!(u.otps.is_empty());
    assert!(s.user_exists(7));
}

#[test]
fn create_user_twice_is_a_conflict() {
    let mut s = Store::new();
    s.create_user(7).unwrap();
    assert_eq!(s.create_user(7).unwrap_err(), Error::Conflict);
    assert!(s.user_exists(7));
}

#[test]
fn set_user_state_overwrites() {
    let mut s = Store::new();
    s.create_user(7).unwrap();
    assert_eq!(s.get_user_state(7), Some(UserState::Unverified));
    s.set_user_state(7, UserState::QueryingEmail).unwrap();
    assert_eq!(s.get_user_state(7), Some(UserState::QueryingEmail));
    assert!(!s.is_verified(7));
    s.set_user_state(7, UserState::Verified).unwrap();
    assert!(s.is_verified(7));
}

#[test]
fn updates_on_missing_user_match_nothing_and_succeed() {
    let mut s = Store::new();
    assert_eq!(s.set_user_state(9, UserState::Verified), Ok(()));
    assert_eq!(s.set_imperial_email(9, "a@imperial.ac.uk".to_owned()), Ok(()));
    assert_eq!(s.clear_imperial_email(9), Ok(()));
    assert_eq!(s.insert_otp(9, 123456), Ok(()));
    assert_eq!(s.clear_otps(9), Ok(()));
    // nothing was created by any of the updates
    assert!(!s.user_exists(9));
    assert_eq!(s.get_user_state(9), None);
    assert!(!s.is_verified(9));
    assert!(!s.otp_exists_for_user(9, 123456));
    assert!(!s.email_exists("a@imperial.ac.uk"));
}

#[test]
fn clear_imperial_email_unsets_the_address() {
    let mut s = Store::new();
    s.create_user(1).unwrap();
    s.set_imperial_email(1, "a@imperial.ac.uk".to_owned()).unwrap();
    assert_eq!(s.users[0].imperial_email.as_deref(), Some("a@imperial.ac.uk"));
    s.clear_imperial_email(1).unwrap();
    assert_eq!(s.users[0].imperial_email, None);
}

#[test]
fn email_exists_only_counts_verified_holders() {
    let mut s = Store::new();
    s.create_user(1).unwrap();
    s.set_imperial_email(1, "a@imperial.ac.uk".to_owned()).unwrap();
    // holder not verified yet
    assert!(!s.email_exists("a@imperial.ac.uk"));
    s.set_user_state(1, UserState::Verified).unwrap();
    assert!(s.email_exists("a@imperial.ac.uk"));
    assert!(!s.email_exists("b@imperial.ac.uk"));
}

#[test]
fn otp_lookup_and_clear() {
    let mut s = Store::new();
    s.create_user(1).unwrap();
    assert!(!s.otp_exists_for_user(1, 123456));
    s.insert_otp(1, 123456).unwrap();
    s.insert_otp(1, 654321).unwrap();
    assert!(s.otp_exists_for_user(1, 123456));
    assert!(s.otp_exists_for_user(1, 654321));
    assert!(!s.otp_exists_for_user(1, 111111));
    assert!(!s.otp_exists_for_user(2, 123456));
    s.clear_otps(1).unwrap();
    assert!(!s.otp_exists_for_user(1, 123456));
    assert!(!s.otp_exists_for_user(1, 654321));
}

#[test]
fn get_verified_returns_verified_rows() {
    let mut s = Store::new();
    s.create_user(1).unwrap();
    s.create_user(2).unwrap();
    s.create_user(3).unwrap();
    s.set_imperial_email(1, "a@imperial.ac.uk".to_owned()).unwrap();
    s.set_user_state(1, UserState::Verified).unwrap();
    s.set_imperial_email(3, "c@imperial.ac.uk".to_owned()).unwrap();
    s.set_user_state(3, UserState::Verified).unwrap();
    let v = s.get_verified();
    assert_eq!(v.len(), 2);
    assert_eq!(v[0].id, 1);
    assert_eq!(v[0].imperial_email.as_deref(), Some("a@imperial.ac.uk"));
    assert_eq!(v[1].id, 3);
}

#[test]
fn server_role_upsert_and_lookup() {
    let mut s = Store::new();
    assert!(!s.server_exists(100));
    assert_eq!(s.get_verified_role(100), None);
    s.set_verified_role(100, 555).unwrap();
    assert!(s.server_exists(100));
    assert_eq!(s.get_verified_role(100), Some(555));
    // changing the role updates in place
    s.set_verified_role(100, 556).unwrap();
    assert_eq!(s.get_verified_role(100), Some(556));
    let with_roles = s.get_servers_with_verified_roles();
    assert_eq!(with_roles.len(), 1);
    assert_eq!(with_roles[0].id, 100);
    assert_eq!(with_roles[0].verified_role_id, Some(556));
}
