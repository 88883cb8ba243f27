use crate::email;
use crate::otp;
use crate::roles::{self, RoleGrant};
use crate::store::{
    contains_server, contains_user, email_view, lemma_user_idx_of_witness, server_idx,
    spec_email_in_use, spec_is_verified, spec_otp_matches, spec_user, spec_verified_role,
    user_idx, user_inv, users_updated_at, users_wf, verified_emails_unique, Server, Store,
    UserState,
};
use vstd::prelude::*;

verus! {

/// Outcome of a verify-request.
#[derive(Clone, Copy, Debug, PartialEq, Eq, Structural)]
pub enum VerifyOutcome {
    /// A fresh user was created at the email step: prompt for the email.
    Started,
    /// The user existed short of `Verified`; the flow restarted from the
    /// email step, discarding the prior candidate email and codes: prompt
    /// for the email.
    Restarted,
    /// The user is already Verified: report so, change nothing.
    AlreadyVerified,
}

/// Outcome of an email submission.
#[derive(Debug)]
pub enum SetEmailOutcome {
    /// The user is absent or not at the email step; nothing changed.
    WrongState,
    /// The candidate does not end in the institutional domain; nothing
    /// changed, the user may correct it.
    BadDomain,
    /// A Verified user already holds this email; nothing changed.
    EmailTaken,
    /// The email was stored and a code issued and persisted: the adapter
    /// must now mail `code` to `to`.
    OtpIssued { to: String, code: i32 },
}

/// Outcome of a code submission.
#[derive(Debug)]
pub enum OtpOutcome {
    /// The code lies outside the generation range; rejected without any
    /// store lookup, nothing changed.
    Malformed,
    /// The code matches no outstanding code of this user; nothing changed,
    /// the user may retry.
    Incorrect,
    /// The user is now Verified: the adapter must perform each grant of the
    /// plan independently, skipping guilds where the user is no member.
    Verified { grants: Vec<RoleGrant> },
}

/// Outcome of a guild-join event.
#[derive(Clone, Copy, Debug, PartialEq, Eq, Structural)]
pub enum GuildJoinOutcome {
    /// The user is already Verified: perform the grant, when the guild has a
    /// configured role, and skip the challenge.
    AlreadyVerified { grant: Option<RoleGrant> },
    /// The verification flow was (re)started: prompt for the email.
    Prompted,
}

/// The user is present and at the email step.
pub open spec fn spec_at_email_step(s: Store, uid: u64) -> bool {
    contains_user(s.users@, uid) && spec_user(s.users@, uid).state == UserState::QueryingEmail
}

/// The row for `uid` was reset to the email step: state `QueryingEmail`,
/// outstanding codes and candidate email both discarded — an explicit reset,
/// not accumulation — and every other row untouched.
pub open spec fn restarted_flow(pre: Store, post: Store, uid: u64) -> bool {
    &&& users_updated_at(pre.users@, post.users@, user_idx(pre.users@, uid))
    &&& post.users@[user_idx(pre.users@, uid)].id == uid
    &&& post.users@[user_idx(pre.users@, uid)].state == UserState::QueryingEmail
    &&& post.users@[user_idx(pre.users@, uid)].otps@.len() == 0
    &&& post.users@[user_idx(pre.users@, uid)].imperial_email is None
}

/// A fresh row for `uid` was appended, already at the email step, with no
/// email and no codes; every other row untouched.
pub open spec fn started_flow(pre: Store, post: Store, uid: u64) -> bool {
    &&& post.users@.len() == pre.users@.len() + 1
    &&& forall|k: int| 0 <= k < pre.users@.len() ==> post.users@[k] == pre.users@[k]
    &&& post.users@.last().id == uid
    &&& post.users@.last().state == UserState::QueryingEmail
    &&& post.users@.last().otps@.len() == 0
    &&& post.users@.last().imperial_email is None
}

/// Starts or restarts the verification flow for a user, creating the row on
/// first contact. Only `Verified` is sticky: any other state is reset to the
/// email step, and the prior candidate email and codes are discarded.
pub fn verify(s: &mut Store, user_id: u64) -> (r: VerifyOutcome)
    requires
        old(s).inv(),
    ensures
        final(s).inv(),
        final(s).servers@ == old(s).servers@,
        spec_is_verified(*old(s), user_id) ==> r == VerifyOutcome::AlreadyVerified
            && final(s).users@ == old(s).users@,
        contains_user(old(s).users@, user_id) && !spec_is_verified(*old(s), user_id) ==> r
            == VerifyOutcome::Restarted && restarted_flow(*old(s), *final(s), user_id),
        !contains_user(old(s).users@, user_id) ==> r == VerifyOutcome::Started
            && started_flow(*old(s), *final(s), user_id),
        contains_user(final(s).users@, user_id),
        verified_emails_unique(old(s).users@) ==> verified_emails_unique(final(s).users@),
{
    if s.user_exists(user_id) {
        if s.is_verified(user_id) {
            return VerifyOutcome::AlreadyVerified;
        }
        let ghost pre = *s;
        let ghost idx = user_idx(pre.users@, user_id);
        let _ = s.set_user_state(user_id, UserState::QueryingEmail);
        proof {
            assert(s.users@[idx].id == user_id);
            lemma_user_idx_of_witness(s.users@, user_id, idx);
        }
        let _ = s.clear_otps(user_id);
        proof {
            assert(s.users@[idx].id == user_id);
            lemma_user_idx_of_witness(s.users@, user_id, idx);
        }
        let _ = s.clear_imperial_email(user_id);
        proof {
            assert(s.users@[idx].id == user_id);
            lemma_user_idx_of_witness(s.users@, user_id, idx);
            assert(restarted_flow(pre, *s, user_id));
        }
        VerifyOutcome::Restarted
    } else {
        let _ = s.create_user(user_id);
        let ghost mid = *s;
        let ghost idx = mid.users@.len() - 1;
        proof {
            assert(mid.users@[idx].id == user_id);
            lemma_user_idx_of_witness(mid.users@, user_id, idx);
        }
        let _ = s.set_user_state(user_id, UserState::QueryingEmail);
        proof {
            assert(started_flow(*old(s), *s, user_id));
            assert(s.users@[idx].id == user_id);
        }
        VerifyOutcome::Started
    }
}

/// Accepts a candidate email from a user at the email step. The candidate is
/// trimmed of padding; it must end in the institutional domain and must not
/// be held by any Verified user. On acceptance the email is stored, a fresh
/// code is generated and persisted, and the adapter must mail it out.
pub fn set_email(s: &mut Store, user_id: u64, email: String) -> (r: SetEmailOutcome)
    requires
        old(s).inv(),
    ensures
        final(s).inv(),
        final(s).servers@ == old(s).servers@,
        !spec_at_email_step(*old(s), user_id) ==> (r matches SetEmailOutcome::WrongState)
            && final(s).users@ == old(s).users@,
        spec_at_email_step(*old(s), user_id) && !email::spec_acceptable(email::spec_trim(email@))
            ==> (r matches SetEmailOutcome::BadDomain) && final(s).users@ == old(s).users@,
        spec_at_email_step(*old(s), user_id) && email::spec_acceptable(email::spec_trim(email@))
            && spec_email_in_use(old(s).users@, email::spec_trim(email@)) ==> (
        r matches SetEmailOutcome::EmailTaken) && final(s).users@ == old(s).users@,
        spec_at_email_step(*old(s), user_id) && email::spec_acceptable(email::spec_trim(email@))
            && !spec_email_in_use(old(s).users@, email::spec_trim(email@)) ==> (
        r matches SetEmailOutcome::OtpIssued { to, code } && {
            &&& to@ == email::spec_trim(email@)
            &&& otp::spec_is_well_formed(code)
            &&& users_updated_at(old(s).users@, final(s).users@, user_idx(old(s).users@, user_id))
            &&& final(s).users@[user_idx(old(s).users@, user_id)].id == user_id
            &&& final(s).users@[user_idx(old(s).users@, user_id)].state == UserState::QueryingOTP
            &&& final(s).users@[user_idx(old(s).users@, user_id)].imperial_email matches Some(e)
                && e@ == email::spec_trim(email@)
            &&& final(s).users@[user_idx(old(s).users@, user_id)].otps@ == seq![code]
        }),
        verified_emails_unique(old(s).users@) ==> verified_emails_unique(final(s).users@),
{
    let at_email_step = match s.get_user_state(user_id) {
        Some(UserState::QueryingEmail) => true,
        _ => false,
    };
    if !at_email_step {
        return SetEmailOutcome::WrongState;
    }
    let trimmed = email::trim(email.as_str());
    if !email::is_acceptable(trimmed) {
        return SetEmailOutcome::BadDomain;
    }
    if s.email_exists(trimmed) {
        return SetEmailOutcome::EmailTaken;
    }
    let to: String = trimmed.to_owned();
    let stored: String = to.clone();
    let code = otp::generate();
    let ghost pre = *s;
    let ghost idx = user_idx(pre.users@, user_id);
    let _ = s.set_imperial_email(user_id, stored);
    proof {
        assert(s.users@[idx].id == user_id);
        lemma_user_idx_of_witness(s.users@, user_id, idx);
    }
    let _ = s.set_user_state(user_id, UserState::QueryingOTP);
    proof {
        assert(s.users@[idx].id == user_id);
        lemma_user_idx_of_witness(s.users@, user_id, idx);
    }
    let _ = s.insert_otp(user_id, code);
    proof {
        assert(s.users@[idx].id == user_id);
        assert(spec_user(pre.users@, user_id).otps@.len() == 0);
        assert(s.users@[idx].otps@ =~= seq![code]);
        assert(users_updated_at(pre.users@, s.users@, idx));
    }
    SetEmailOutcome::OtpIssued { to, code }
}

/// Validates a submitted code. Validation is a pure function of persisted
/// state: a malformed code is rejected before any lookup, a code absent from
/// the user's outstanding set fails, and a present code verifies the user,
/// clears the set and yields the cross-guild grant plan.
///
/// Email uniqueness among Verified users is enforced at the email step and
/// not rechecked here, so the last clause preserves it under the proviso
/// that no Verified user holds the submitter's stored email at submission
/// time. The email step guarantees that, unless a second user claimed the
/// same address while this one was mid-flow.
pub fn otp(s: &mut Store, user_id: u64, code: i32) -> (r: OtpOutcome)
    requires
        old(s).inv(),
    ensures
        final(s).inv(),
        final(s).servers@ == old(s).servers@,
        !otp::spec_is_well_formed(code) ==> (r matches OtpOutcome::Malformed)
            && final(s).users@ == old(s).users@,
        otp::spec_is_well_formed(code) && !spec_otp_matches(*old(s), user_id, code) ==> (
        r matches OtpOutcome::Incorrect) && final(s).users@ == old(s).users@,
        otp::spec_is_well_formed(code) && spec_otp_matches(*old(s), user_id, code) ==> (
        r matches OtpOutcome::Verified { grants } && {
            &&& grants@ == roles::spec_grants_for_servers(old(s).servers@, user_id)
            &&& users_updated_at(old(s).users@, final(s).users@, user_idx(old(s).users@, user_id))
            &&& final(s).users@[user_idx(old(s).users@, user_id)].id == user_id
            &&& final(s).users@[user_idx(old(s).users@, user_id)].state == UserState::Verified
            &&& final(s).users@[user_idx(old(s).users@, user_id)].otps@.len() == 0
            &&& final(s).users@[user_idx(old(s).users@, user_id)].imperial_email == spec_user(
                old(s).users@,
                user_id,
            ).imperial_email
            &&& spec_is_verified(*final(s), user_id)
        }),
        verified_emails_unique(old(s).users@) && (spec_otp_matches(*old(s), user_id, code)
            ==> !spec_email_in_use(
            old(s).users@,
            (spec_user(old(s).users@, user_id).imperial_email->0)@,
        )) ==> verified_emails_unique(final(s).users@),
{
    if !otp::is_well_formed(code) {
        return OtpOutcome::Malformed;
    }
    if s.otp_exists_for_user(user_id, code) {
        let ghost pre = *s;
        let ghost idx = user_idx(pre.users@, user_id);
        proof {
            assert(spec_user(pre.users@, user_id).otps@.contains(code));
            assert(spec_user(pre.users@, user_id).otps@.len() > 0);
        }
        let _ = s.clear_otps(user_id);
        proof {
            assert(s.users@[idx].id == user_id);
            lemma_user_idx_of_witness(s.users@, user_id, idx);
        }
        let _ = s.set_user_state(user_id, UserState::Verified);
        proof {
            assert(s.users@[idx].id == user_id);
            lemma_user_idx_of_witness(s.users@, user_id, idx);
        }
        let grants = roles::verify_on_all_servers(s, user_id);
        OtpOutcome::Verified { grants }
    } else {
        OtpOutcome::Incorrect
    }
}

/// Handles a user joining a guild. An already-Verified user is granted the
/// guild's configured role at once and skips the challenge; anyone else has
/// the verification flow (re)started, exactly as a verify-request would.
pub fn on_guild_join(s: &mut Store, user_id: u64, guild_id: u64) -> (r: GuildJoinOutcome)
    requires
        old(s).inv(),
    ensures
        final(s).inv(),
        final(s).servers@ == old(s).servers@,
        spec_is_verified(*old(s), user_id) ==> final(s).users@ == old(s).users@ && r == (
        GuildJoinOutcome::AlreadyVerified {
            grant: match spec_verified_role(old(s).servers@, guild_id) {
                Some(rid) => Some(
                    (RoleGrant { guild_id, user_id, role_id: rid }),
                ),
                None => None,
            },
        }),
        !spec_is_verified(*old(s), user_id) ==> {
            &&& r == GuildJoinOutcome::Prompted
            &&& contains_user(old(s).users@, user_id) ==> restarted_flow(
                *old(s),
                *final(s),
                user_id,
            )
            &&& !contains_user(old(s).users@, user_id) ==> started_flow(
                *old(s),
                *final(s),
                user_id,
            )
        },
        verified_emails_unique(old(s).users@) ==> verified_emails_unique(final(s).users@),
{
    if s.user_exists(user_id) && s.is_verified(user_id) {
        match s.get_verified_role(guild_id) {
            Some(rid) => GuildJoinOutcome::AlreadyVerified {
                grant: Some(RoleGrant { guild_id, user_id, role_id: rid }),
            },
            None => GuildJoinOutcome::AlreadyVerified { grant: None },
        }
    } else {
        let _ = verify(s, user_id);
        GuildJoinOutcome::Prompted
    }
}

/// Configures (or changes) a guild's verified role, creating the guild row
/// when absent, and plans one grant per listed member who is already
/// Verified. The adapter performs each grant independently: one failing
/// member never blocks the rest.
pub fn set_verified_role(
    s: &mut Store,
    guild_id: u64,
    role_id: u64,
    members: &Vec<u64>,
) -> (grants: Vec<RoleGrant>)
    requires
        old(s).inv(),
    ensures
        final(s).inv(),
        final(s).users@ == old(s).users@,
        spec_verified_role(final(s).servers@, guild_id) == Some(role_id),
        contains_server(old(s).servers@, guild_id) ==> {
            &&& final(s).servers@.len() == old(s).servers@.len()
            &&& forall|k: int|
                0 <= k < old(s).servers@.len() && k != server_idx(old(s).servers@, guild_id)
                    ==> final(s).servers@[k] == old(s).servers@[k]
        },
        !contains_server(old(s).servers@, guild_id) ==> final(s).servers@ == old(
            s,
        ).servers@.push((Server { id: guild_id, verified_role_id: Some(role_id) })),
        grants@ == roles::spec_member_grants(old(s).users@, members@, guild_id, role_id),
        verified_emails_unique(old(s).users@) ==> verified_emails_unique(final(s).users@),
{
    let _ = s.set_verified_role(guild_id, role_id);
    let grants = roles::set_verified_role_for_verified_on_single_server(s, guild_id, members);
    grants
}

/// Submitting a code the user does not hold always fails; in particular a
/// user with no outstanding codes matches nothing, whatever the code.
pub proof fn lemma_no_codes_no_match(s: Store, uid: u64, code: i32)
    requires
        contains_user(s.users@, uid) ==> spec_user(s.users@, uid).otps@.len() == 0,
    ensures
        !spec_otp_matches(s, uid, code),
{
}

/// Restarting verification discards previous codes: after a restart of the
/// flow, no code whatsoever validates for that user, in particular none of
/// the codes issued before the restart.
pub proof fn lemma_restart_discards_otps(pre: Store, post: Store, uid: u64, code: i32)
    requires
        pre.wf(),
        contains_user(pre.users@, uid),
        restarted_flow(pre, post, uid),
    ensures
        !spec_otp_matches(post, uid, code),
{
    let idx = user_idx(pre.users@, uid);
    assert(0 <= idx < pre.users@.len() && pre.users@[idx].id == uid);
    assert(forall|k: int|
        0 <= k < post.users@.len() ==> post.users@[k].id == pre.users@[k].id);
    assert(users_wf(post.users@));
    lemma_user_idx_of_witness(post.users@, uid, idx);
}

/// A code validates at most once: a successful submission leaves the user's
/// outstanding set empty, so every previously issued code now fails.
pub proof fn lemma_otp_single_use(pre: Store, post: Store, uid: u64, earlier: i32)
    requires
        pre.wf(),
        contains_user(pre.users@, uid),
        users_updated_at(pre.users@, post.users@, user_idx(pre.users@, uid)),
        post.users@[user_idx(pre.users@, uid)].id == uid,
        post.users@[user_idx(pre.users@, uid)].otps@.len() == 0,
    ensures
        !spec_otp_matches(post, uid, earlier),
{
    let idx = user_idx(pre.users@, uid);
    assert(0 <= idx < pre.users@.len() && pre.users@[idx].id == uid);
    assert(forall|k: int|
        0 <= k < post.users@.len() ==> post.users@[k].id == pre.users@[k].id);
    assert(users_wf(post.users@));
    lemma_user_idx_of_witness(post.users@, uid, idx);
}

/// Every Verified user holds an email. Together with
/// `lemma_verified_emails_distinct` this is the shape of the store that the
/// machine maintains: `inv` and `verified_emails_unique` are carried by the
/// contract of every operation.
pub proof fn lemma_verified_email_present(s: Store, uid: u64)
    requires
        s.inv(),
        spec_is_verified(s, uid),
    ensures
        spec_user(s.users@, uid).imperial_email is Some,
{
    let idx = user_idx(s.users@, uid);
    assert(user_inv(s.users@[idx]));
}

/// Two distinct Verified users never hold the same email.
pub proof fn lemma_verified_emails_distinct(s: Store, uid1: u64, uid2: u64)
    requires
        s.wf(),
        verified_emails_unique(s.users@),
        spec_is_verified(s, uid1),
        spec_is_verified(s, uid2),
        uid1 != uid2,
    ensures
        email_view(spec_user(s.users@, uid1)) != email_view(spec_user(s.users@, uid2)),
{
    let i = user_idx(s.users@, uid1);
    let j = user_idx(s.users@, uid2);
    assert(0 <= i < s.users@.len() && s.users@[i].id == uid1);
    assert(0 <= j < s.users@.len() && s.users@[j].id == uid2);
    assert(i != j);
}

} // verus!
