use crate::store::{
    servers_wf, spec_verified_role, user_verified, Server, Store, User,
};
use vstd::prelude::*;

verus! {

/// One role grant the adapter must perform: give `user_id` the role
/// `role_id` in guild `guild_id`. Grants are executed independently, so one
/// failed grant never blocks the rest of a plan.
#[derive(Clone, Copy, Debug, PartialEq, Eq, Structural)]
pub struct RoleGrant {
    pub guild_id: u64,
    pub user_id: u64,
    pub role_id: u64,
}

/// The cross-guild plan for one user: one grant per guild whose verified
/// role is configured, in store order.
pub open spec fn spec_grants_for_servers(ss: Seq<Server>, uid: u64) -> Seq<RoleGrant>
    decreases ss.len(),
{
    if ss.len() == 0 {
        Seq::empty()
    } else {
        let rest = spec_grants_for_servers(ss.drop_last(), uid);
        match ss.last().verified_role_id {
            Some(rid) => rest.push(
                (RoleGrant { guild_id: ss.last().id, user_id: uid, role_id: rid }),
            ),
            None => rest,
        }
    }
}

/// The single-guild plan: one grant per listed member who is Verified, in
/// list order, all carrying the guild's configured role.
pub open spec fn spec_member_grants(
    us: Seq<User>,
    members: Seq<u64>,
    gid: u64,
    rid: u64,
) -> Seq<RoleGrant>
    decreases members.len(),
{
    if members.len() == 0 {
        Seq::empty()
    } else {
        let rest = spec_member_grants(us, members.drop_last(), gid, rid);
        if user_verified(us, members.last()) {
            rest.push((RoleGrant { guild_id: gid, user_id: members.last(), role_id: rid }))
        } else {
            rest
        }
    }
}

/// The plan produced after an administrator configures a guild's role: empty
/// when the guild has no configured role, else the single-guild plan over
/// the given member list.
pub open spec fn spec_single_server_plan(s: Store, gid: u64, members: Seq<u64>) -> Seq<RoleGrant> {
    match spec_verified_role(s.servers@, gid) {
        Some(rid) => spec_member_grants(s.users@, members, gid, rid),
        None => Seq::empty(),
    }
}

/// Plans the grants that make a newly verified user hold the verified role
/// in every guild that has one configured. The adapter performs each grant
/// independently, skipping guilds where the user is not a member.
pub fn verify_on_all_servers(s: &Store, user_id: u64) -> (grants: Vec<RoleGrant>)
    ensures
        grants@ == spec_grants_for_servers(s.servers@, user_id),
{
    let n = s.servers.len();
    let mut grants: Vec<RoleGrant> = Vec::new();
    let mut i: usize = 0;
    while i < n
        invariant
            n == s.servers@.len(),
            i <= n,
            grants@ == spec_grants_for_servers(s.servers@.take(i as int), user_id),
        decreases n - i,
    {
        proof {
            assert(s.servers@.take(i + 1 as int).drop_last() =~= s.servers@.take(i as int));
            assert(s.servers@.take(i + 1 as int).last() == s.servers@[i as int]);
        }
        match s.servers[i].verified_role_id {
            Some(rid) => {
                grants.push(RoleGrant { guild_id: s.servers[i].id, user_id, role_id: rid });
            },
            None => {},
        }
        i += 1;
    }
    proof {
        assert(s.servers@.take(n as int) =~= s.servers@);
    }
    grants
}

/// Plans the grants that give every already-Verified member of one guild its
/// configured verified role. `members` is the guild's member list as the
/// adapter fetched it; a guild without a configured role yields no grants.
pub fn set_verified_role_for_verified_on_single_server(
    s: &Store,
    guild_id: u64,
    members: &Vec<u64>,
) -> (grants: Vec<RoleGrant>)
    requires
        s.wf(),
    ensures
        grants@ == spec_single_server_plan(*s, guild_id, members@),
{
    let rid = match s.get_verified_role(guild_id) {
        Some(rid) => rid,
        None => {
            return Vec::new();
        },
    };
    let n = members.len();
    let mut grants: Vec<RoleGrant> = Vec::new();
    let mut i: usize = 0;
    while i < n
        invariant
            s.wf(),
            n == members@.len(),
            i <= n,
            grants@ == spec_member_grants(s.users@, members@.take(i as int), guild_id, rid),
        decreases n - i,
    {
        proof {
            assert(members@.take(i + 1 as int).drop_last() =~= members@.take(i as int));
            assert(members@.take(i + 1 as int).last() == members@[i as int]);
        }
        if s.is_verified(members[i]) {
            grants.push(RoleGrant { guild_id, user_id: members[i], role_id: rid });
        }
        i += 1;
    }
    proof {
        assert(members@.take(n as int) =~= members@);
    }
    grants
}

/// Every already-Verified listed member appears in the single-guild plan:
/// configuring a guild's role reaches each verified member of that guild.
pub proof fn lemma_member_grants_complete(
    us: Seq<User>,
    members: Seq<u64>,
    gid: u64,
    rid: u64,
    m: u64,
)
    requires
        members.contains(m),
        user_verified(us, m),
    ensures
        spec_member_grants(us, members, gid, rid).contains(
            (RoleGrant { guild_id: gid, user_id: m, role_id: rid }),
        ),
    decreases members.len(),
{
    let g = RoleGrant { guild_id: gid, user_id: m, role_id: rid };
    let plan = spec_member_grants(us, members, gid, rid);
    let rest = spec_member_grants(us, members.drop_last(), gid, rid);
    if members.last() == m {
        assert(plan[plan.len() - 1] == g);
    } else {
        let i = choose|i: int| 0 <= i < members.len() && members[i] == m;
        assert(members.drop_last()[i] == m);
        assert(members.drop_last().contains(m));
        lemma_member_grants_complete(us, members.drop_last(), gid, rid, m);
        let k = choose|k: int| 0 <= k < rest.len() && rest[k] == g;
        assert(plan[k] == g);
    }
}

/// Every grant of a cross-guild plan points at a guild row that carries
/// exactly that role, and the plan holds at most one grant per guild.
pub proof fn lemma_plan_guilds_from_servers(ss: Seq<Server>, uid: u64)
    ensures
        forall|k: int|
            0 <= k < spec_grants_for_servers(ss, uid).len() ==> exists|i: int|
                0 <= i < ss.len() && ss[i].id == #[trigger] spec_grants_for_servers(
                    ss,
                    uid,
                )[k].guild_id && ss[i].verified_role_id == Some(
                    spec_grants_for_servers(ss, uid)[k].role_id,
                ),
        forall|k: int|
            0 <= k < spec_grants_for_servers(ss, uid).len()
                ==> #[trigger] spec_grants_for_servers(ss, uid)[k].user_id == uid,
    decreases ss.len(),
{
    if ss.len() > 0 {
        lemma_plan_guilds_from_servers(ss.drop_last(), uid);
        let plan = spec_grants_for_servers(ss, uid);
        let rest = spec_grants_for_servers(ss.drop_last(), uid);
        assert(forall|k: int| 0 <= k < rest.len() ==> rest[k] == plan[k]);
        assert(forall|i: int|
            0 <= i < ss.drop_last().len() ==> ss.drop_last()[i] == ss[i]);
        assert forall|k: int| 0 <= k < plan.len() implies exists|i: int|
            0 <= i < ss.len() && ss[i].id == #[trigger] plan[k].guild_id
                && ss[i].verified_role_id == Some(plan[k].role_id) by {
            if k < rest.len() {
                let i = choose|i: int|
                    0 <= i < ss.drop_last().len() && ss.drop_last()[i].id == rest[k].guild_id
                        && ss.drop_last()[i].verified_role_id == Some(rest[k].role_id);
                assert(0 <= i < ss.len() && ss[i].id == plan[k].guild_id
                    && ss[i].verified_role_id == Some(plan[k].role_id));
            } else {
                let i = ss.len() - 1;
                assert(0 <= i < ss.len() && ss[i].id == plan[k].guild_id
                    && ss[i].verified_role_id == Some(plan[k].role_id));
            }
        }
    }
}

/// Role synchronization is idempotent. The cross-guild plan is a pure
/// function of the store, so re-running it for the same user yields the
/// identical grants; and within one plan no guild is granted twice, so no
/// duplicate grant is ever issued.
pub proof fn lemma_sync_idempotent(ss: Seq<Server>, uid: u64)
    requires
        servers_wf(ss),
    ensures
        forall|k1: int, k2: int|
            0 <= k1 < spec_grants_for_servers(ss, uid).len() && 0 <= k2
                < spec_grants_for_servers(ss, uid).len() && k1 != k2
                ==> #[trigger] spec_grants_for_servers(ss, uid)[k1].guild_id
                != #[trigger] spec_grants_for_servers(ss, uid)[k2].guild_id,
    decreases ss.len(),
{
    if ss.len() > 0 {
        assert(servers_wf(ss.drop_last()));
        lemma_sync_idempotent(ss.drop_last(), uid);
        lemma_plan_guilds_from_servers(ss.drop_last(), uid);
        let plan = spec_grants_for_servers(ss, uid);
        let rest = spec_grants_for_servers(ss.drop_last(), uid);
        assert(forall|k: int| 0 <= k < rest.len() ==> rest[k] == plan[k]);
        if plan.len() > rest.len() {
            let last = ss.len() - 1;
            assert forall|k: int| 0 <= k < rest.len() implies plan[k].guild_id != ss[last].id by {
                let i = choose|i: int|
                    0 <= i < ss.drop_last().len() && ss.drop_last()[i].id == rest[k].guild_id
                        && ss.drop_last()[i].verified_role_id == Some(rest[k].role_id);
                assert(ss[i].id == rest[k].guild_id);
                assert(ss[i].id != ss[last].id);
            }
        }
    }
}

} // verus!
