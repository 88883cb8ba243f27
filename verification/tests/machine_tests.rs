use imperial_verify::machine::{
    on_guild_join, otp, set_email, set_verified_role, verify, GuildJoinOutcome, OtpOutcome,
    SetEmailOutcome, VerifyOutcome,
};
use imperial_verify::otp::is_well_formed;
use imperial_verify::roles::RoleGrant;
use imperial_verify::store::{Store, UserState};

/// Full happy path: verify-request, institutional email, correct code; the
/// user ends Verified with an empty code set and a grant in every guild
/// with a configured role.
#[test]
fn full_flow_verifies_and_grants_everywhere() {
    let mut s = Store::new();
    set_verified_role(&mut s, 100, 555, &Vec::new());
    set_verified_role(&mut s, 200, 777, &Vec::new());

    assert_eq!(verify(&mut s, 1), VerifyOutcome::Started);
    assert_eq!(s.get_user_state(1), Some(UserState::QueryingEmail));

    let code = match set_email(&mut s, 1, "a@imperial.ac.uk".to_owned()) {
        SetEmailOutcome::OtpIssued { to, code } => {
            assert_eq!(to, "a@imperial.ac.uk");
            code
        }
        other => panic!("expected an issued code, got {:?}", other),
    };
    // exactly one code persisted, the mailed one, and it is well formed
    assert!(is_well_formed(code));
    assert!(s.otp_exists_for_user(1, code));
    assert_eq!(s.get_user_state(1), Some(UserState::QueryingOTP));

    match otp(&mut s, 1, code) {
        OtpOutcome::Verified { grants } => {
            assert_eq!(
                grants,
                vec![
                    RoleGrant { guild_id: 100, user_id: 1, role_id: 555 },
                    RoleGrant { guild_id: 200, user_id: 1, role_id: 777 },
                ]
            );
        }
        other => panic!("expected verification, got {:?}", other),
    }
    assert!(s.is_verified(1));
    assert!(!s.otp_exists_for_user(1, code));
}

/// A non-institutional email is rejected: state stays at the email step and
/// no code is issued.
#[test]
fn foreign_email_is_rejected_without_issuing_a_code() {
    let mut s = Store::new();
    verify(&mut s, 1);
    let r = set_email(&mut s, 1, "a@gmail.com".to_owned());
    assert!(matches!(r, SetEmailOutcome::BadDomain));
    assert_eq!(s.get_user_state(1), Some(UserState::QueryingEmail));
    assert!(s.users[0].otps.is_empty());
}

/// The candidate email is trimmed before the checks.
#[test]
fn padded_email_is_trimmed_before_acceptance() {
    let mut s = Store::new();
    verify(&mut s, 1);
    match set_email(&mut s, 1, "  a@imperial.ac.uk\n".to_owned()) {
        SetEmailOutcome::OtpIssued { to, .. } => assert_eq!(to, "a@imperial.ac.uk"),
        other => panic!("expected an issued code, got {:?}", other),
    }
}

/// An email held by an already-Verified user is rejected for a second user;
/// the first user is unaffected.
#[test]
fn email_of_a_verified_user_is_taken() {
    let mut s = Store::new();
    verify(&mut s, 1);
    let code = match set_email(&mut s, 1, "a@imperial.ac.uk".to_owned()) {
        SetEmailOutcome::OtpIssued { code, .. } => code,
        other => panic!("expected an issued code, got {:?}", other),
    };
    assert!(matches!(otp(&mut s, 1, code), OtpOutcome::Verified { .. }));

    verify(&mut s, 2);
    let r = set_email(&mut s, 2, "a@imperial.ac.uk".to_owned());
    assert!(matches!(r, SetEmailOutcome::EmailTaken));
    assert_eq!(s.get_user_state(2), Some(UserState::QueryingEmail));
    assert!(s.is_verified(1));
    assert!(s.email_exists("a@imperial.ac.uk"));
}

/// While neither holder is Verified, the same email may be claimed by both;
/// only a Verified holder blocks it.
#[test]
fn unverified_holder_does_not_block_an_email() {
    let mut s = Store::new();
    verify(&mut s, 1);
    assert!(matches!(
        set_email(&mut s, 1, "a@imperial.ac.uk".to_owned()),
        SetEmailOutcome::OtpIssued { .. }
    ));
    verify(&mut s, 2);
    assert!(matches!(
        set_email(&mut s, 2, "a@imperial.ac.uk".to_owned()),
        SetEmailOutcome::OtpIssued { .. }
    ));
}

/// Submitting an email in any state but the email step changes nothing.
#[test]
fn email_outside_the_email_step_is_refused() {
    let mut s = Store::new();
    let r = set_email(&mut s, 1, "a@imperial.ac.uk".to_owned());
    assert!(matches!(r, SetEmailOutcome::WrongState));
    verify(&mut s, 1);
    let code = match set_email(&mut s, 1, "a@imperial.ac.uk".to_owned()) {
        SetEmailOutcome::OtpIssued { code, .. } => code,
        other => panic!("expected an issued code, got {:?}", other),
    };
    // already past the email step
    let r = set_email(&mut s, 1, "b@imperial.ac.uk".to_owned());
    assert!(matches!(r, SetEmailOutcome::WrongState));
    assert!(s.otp_exists_for_user(1, code));
}

/// A code outside the generation range is rejected before any lookup.
#[test]
fn malformed_codes_are_rejected() {
    let mut s = Store::new();
    assert!(!is_well_formed(99999));
    assert!(is_well_formed(100000));
    assert!(is_well_formed(99999999));
    assert!(!is_well_formed(100000000));
    assert!(!is_well_formed(0));
    assert!(!is_well_formed(-123456));
    assert!(matches!(otp(&mut s, 1, 99999), OtpOutcome::Malformed));
    assert!(matches!(otp(&mut s, 1, 100000000), OtpOutcome::Malformed));
}

/// A code not present in the user's persisted set always fails, and a
/// present code succeeds exactly once: afterwards the set is empty and every
/// previously issued code is invalid.
#[test]
fn codes_validate_against_persisted_state_exactly_once() {
    let mut s = Store::new();
    verify(&mut s, 1);
    let code = match set_email(&mut s, 1, "a@imperial.ac.uk".to_owned()) {
        SetEmailOutcome::OtpIssued { code, .. } => code,
        other => panic!("expected an issued code, got {:?}", other),
    };
    let wrong = if code == 100000 { 100001 } else { 100000 };
    assert!(matches!(otp(&mut s, 1, wrong), OtpOutcome::Incorrect));
    assert_eq!(s.get_user_state(1), Some(UserState::QueryingOTP));
    assert!(matches!(otp(&mut s, 1, code), OtpOutcome::Verified { .. }));
    // the same code no longer validates
    assert!(matches!(otp(&mut s, 1, code), OtpOutcome::Incorrect));
    assert!(s.is_verified(1));
}

/// Restarting verification is an explicit reset: the prior candidate email
/// and every previous code are discarded, and none of the old codes
/// validate afterwards.
#[test]
fn restart_discards_previous_email_and_codes() {
    let mut s = Store::new();
    verify(&mut s, 1);
    let code = match set_email(&mut s, 1, "a@imperial.ac.uk".to_owned()) {
        SetEmailOutcome::OtpIssued { code, .. } => code,
        other => panic!("expected an issued code, got {:?}", other),
    };
    assert!(s.otp_exists_for_user(1, code));
    assert!(s.users[0].imperial_email.is_some());
    assert_eq!(verify(&mut s, 1), VerifyOutcome::Restarted);
    assert!(!s.otp_exists_for_user(1, code));
    assert_eq!(s.users[0].imperial_email, None);
    assert!(matches!(otp(&mut s, 1, code), OtpOutcome::Incorrect));
    assert_eq!(s.get_user_state(1), Some(UserState::QueryingEmail));
}

/// Only `Verified` is sticky: a verify-request for a verified user is a
/// no-op report.
#[test]
fn verified_user_cannot_restart() {
    let mut s = Store::new();
    verify(&mut s, 1);
    let code = match set_email(&mut s, 1, "a@imperial.ac.uk".to_owned()) {
        SetEmailOutcome::OtpIssued { code, .. } => code,
        other => panic!("expected an issued code, got {:?}", other),
    };
    assert!(matches!(otp(&mut s, 1, code), OtpOutcome::Verified { .. }));
    assert_eq!(verify(&mut s, 1), VerifyOutcome::AlreadyVerified);
    assert!(s.is_verified(1));
}

/// Configuring a guild's role plans a grant for every already-Verified
/// listed member, and only for those.
#[test]
fn configuring_a_role_reaches_every_verified_member() {
    let mut s = Store::new();
    for uid in [1u64, 2, 3] {
        verify(&mut s, uid);
        let addr = format!("u{}@imperial.ac.uk", uid);
        let code = match set_email(&mut s, uid, addr) {
            SetEmailOutcome::OtpIssued { code, .. } => code,
            other => panic!("expected an issued code, got {:?}", other),
        };
        if uid != 2 {
            assert!(matches!(otp(&mut s, uid, code), OtpOutcome::Verified { .. }));
        }
    }
    // member 4 is not known at all; member 2 is mid-flow
    let members = vec![1u64, 2, 3, 4];
    let grants = set_verified_role(&mut s, 100, 555, &members);
    assert_eq!(
        grants,
        vec![
            RoleGrant { guild_id: 100, user_id: 1, role_id: 555 },
            RoleGrant { guild_id: 100, user_id: 3, role_id: 555 },
        ]
    );
    assert_eq!(s.get_verified_role(100), Some(555));
}

/// A guild join by a verified user grants the configured role at once and
/// skips the challenge; an unknown user is prompted instead.
#[test]
fn guild_join_grants_or_prompts() {
    let mut s = Store::new();
    set_verified_role(&mut s, 100, 555, &Vec::new());
    verify(&mut s, 1);
    let code = match set_email(&mut s, 1, "a@imperial.ac.uk".to_owned()) {
        SetEmailOutcome::OtpIssued { code, .. } => code,
        other => panic!("expected an issued code, got {:?}", other),
    };
    assert!(matches!(otp(&mut s, 1, code), OtpOutcome::Verified { .. }));

    let r = on_guild_join(&mut s, 1, 100);
    assert_eq!(
        r,
        GuildJoinOutcome::AlreadyVerified {
            grant: Some(RoleGrant { guild_id: 100, user_id: 1, role_id: 555 })
        }
    );
    // verified, but the guild has no configured role
    let r = on_guild_join(&mut s, 1, 200);
    assert_eq!(r, GuildJoinOutcome::AlreadyVerified { grant: None });

    // a stranger is prompted and enters the flow
    let r = on_guild_join(&mut s, 9, 100);
    assert_eq!(r, GuildJoinOutcome::Prompted);
    assert_eq!(s.get_user_state(9), Some(UserState::QueryingEmail));
}

/// A guild join mid-flow restarts the challenge, discarding the candidate
/// email and the old codes.
#[test]
fn guild_join_mid_flow_restarts() {
    let mut s = Store::new();
    verify(&mut s, 1);
    let code = match set_email(&mut s, 1, "a@imperial.ac.uk".to_owned()) {
        SetEmailOutcome::OtpIssued { code, .. } => code,
        other => panic!("expected an issued code, got {:?}", other),
    };
    let r = on_guild_join(&mut s, 1, 100);
    assert_eq!(r, GuildJoinOutcome::Prompted);
    assert_eq!(s.get_user_state(1), Some(UserState::QueryingEmail));
    assert!(!s.otp_exists_for_user(1, code));
    assert_eq!(s.users[0].imperial_email, None);
}
