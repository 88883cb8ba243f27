use crate::errors::Error;
use crate::otp::spec_is_well_formed;
use vstd::prelude::*;

verus! {

/// Progress of a user through the verification challenge. Exactly one state
/// holds at a time; only `Verified` is sticky.
#[derive(Clone, Copy, Debug, PartialEq, Eq, Structural)]
pub enum UserState {
    Unverified,
    QueryingEmail,
    QueryingOTP,
    Verified,
}

/// One user row: stable external chat identity, the candidate institutional
/// email once submitted, the lifecycle state, and the outstanding one-time
/// passcodes issued to this user.
#[derive(Debug)]
pub struct User {
    pub id: u64,
    pub imperial_email: Option<String>,
    pub state: UserState,
    pub otps: Vec<i32>,
}

/// One guild row: stable external guild identity and the role granted to
/// verified members, `None` until an administrator configures it.
#[derive(Clone, Copy, Debug, PartialEq, Eq, Structural)]
pub struct Server {
    pub id: u64,
    pub verified_role_id: Option<u64>,
}

/// The email of a row viewed as a character sequence; `None` when unset.
pub open spec fn email_view(u: User) -> Option<Seq<char>> {
    match u.imperial_email {
        Some(e) => Some(e@),
        None => None,
    }
}

/// User ids are unique: at most one row per id.
pub open spec fn users_wf(us: Seq<User>) -> bool {
    forall|i: int, j: int|
        0 <= i < us.len() && 0 <= j < us.len() && i != j ==> us[i].id != us[j].id
}

/// Guild ids are unique: at most one row per id.
pub open spec fn servers_wf(ss: Seq<Server>) -> bool {
    forall|i: int, j: int|
        0 <= i < ss.len() && 0 <= j < ss.len() && i != j ==> ss[i].id != ss[j].id
}

/// Some row carries this user id.
pub open spec fn contains_user(us: Seq<User>, uid: u64) -> bool {
    exists|i: int| 0 <= i < us.len() && us[i].id == uid
}

/// The index of the row carrying this user id; meaningful only when
/// `contains_user` holds and the ids are unique.
pub open spec fn user_idx(us: Seq<User>, uid: u64) -> int {
    choose|i: int| 0 <= i < us.len() && us[i].id == uid
}

/// The row carrying this user id.
pub open spec fn spec_user(us: Seq<User>, uid: u64) -> User {
    us[user_idx(us, uid)]
}

/// Some row carries this guild id.
pub open spec fn contains_server(ss: Seq<Server>, gid: u64) -> bool {
    exists|i: int| 0 <= i < ss.len() && ss[i].id == gid
}

/// The index of the row carrying this guild id.
pub open spec fn server_idx(ss: Seq<Server>, gid: u64) -> int {
    choose|i: int| 0 <= i < ss.len() && ss[i].id == gid
}

/// The row carrying this guild id.
pub open spec fn spec_server(ss: Seq<Server>, gid: u64) -> Server {
    ss[server_idx(ss, gid)]
}

/// A row found at a concrete index is the row the lookup specs denote.
pub proof fn lemma_user_idx_of_witness(us: Seq<User>, uid: u64, i: int)
    requires
        users_wf(us),
        0 <= i < us.len(),
        us[i].id == uid,
    ensures
        contains_user(us, uid),
        user_idx(us, uid) == i,
        spec_user(us, uid) == us[i],
{
    assert(contains_user(us, uid));
    let j = user_idx(us, uid);
    assert(0 <= j < us.len() && us[j].id == uid);
}

/// A guild row found at a concrete index is the row the lookup specs denote.
pub proof fn lemma_server_idx_of_witness(ss: Seq<Server>, gid: u64, i: int)
    requires
        servers_wf(ss),
        0 <= i < ss.len(),
        ss[i].id == gid,
    ensures
        contains_server(ss, gid),
        server_idx(ss, gid) == i,
        spec_server(ss, gid) == ss[i],
{
    assert(contains_server(ss, gid));
    let j = server_idx(ss, gid);
    assert(0 <= j < ss.len() && ss[j].id == gid);
}

/// Per-row invariant of persisted state: a user past the email step holds an
/// email, outstanding codes exist only while the code is being queried, and
/// every stored code is well formed.
pub open spec fn user_inv(u: User) -> bool {
    &&& (u.state == UserState::QueryingOTP || u.state == UserState::Verified)
        ==> u.imperial_email is Some
    &&& u.otps@.len() > 0 ==> u.state == UserState::QueryingOTP
    &&& forall|k: int| 0 <= k < u.otps@.len() ==> spec_is_well_formed(#[trigger] u.otps@[k])
}

/// No two distinct Verified users hold the same email address.
pub open spec fn verified_emails_unique(us: Seq<User>) -> bool {
    forall|i: int, j: int|
        0 <= i < us.len() && 0 <= j < us.len() && i != j && us[i].state == UserState::Verified
            && us[j].state == UserState::Verified ==> email_view(us[i]) != email_view(us[j])
}

/// Some Verified user holds this email: the uniqueness gate consulted before
/// a candidate email is accepted.
pub open spec fn spec_email_in_use(us: Seq<User>, e: Seq<char>) -> bool {
    exists|i: int|
        0 <= i < us.len() && us[i].state == UserState::Verified && email_view(us[i]) == Some(e)
}

/// A freshly created row for `uid`: no email, no codes, unverified.
pub open spec fn is_fresh_user(u: User, uid: u64) -> bool {
    &&& u.id == uid
    &&& u.imperial_email is None
    &&& u.state == UserState::Unverified
    &&& u.otps@.len() == 0
}

/// Row count unchanged and every row but `idx` unchanged.
pub open spec fn users_updated_at(pre: Seq<User>, post: Seq<User>, idx: int) -> bool {
    &&& post.len() == pre.len()
    &&& forall|k: int| 0 <= k < pre.len() && k != idx ==> post[k] == pre[k]
}

/// The two rows agree on everything but the state field.
pub open spec fn only_state_changed(pre: User, post: User) -> bool {
    &&& post.id == pre.id
    &&& post.imperial_email == pre.imperial_email
    &&& post.otps == pre.otps
}

/// The two rows agree on everything but the email field.
pub open spec fn only_email_changed(pre: User, post: User) -> bool {
    &&& post.id == pre.id
    &&& post.state == pre.state
    &&& post.otps == pre.otps
}

/// The two rows agree on everything but the outstanding codes.
pub open spec fn only_otps_changed(pre: User, post: User) -> bool {
    &&& post.id == pre.id
    &&& post.imperial_email == pre.imperial_email
    &&& post.state == pre.state
}

/// The two rows carry the same content (ids, states and views agree), even
/// where one is a reconstructed copy of the other.
pub open spec fn user_like(a: User, b: User) -> bool {
    &&& a.id == b.id
    &&& a.state == b.state
    &&& email_view(a) == email_view(b)
    &&& a.otps@ == b.otps@
}

/// The record store: every user and guild row known to the system.
pub struct Store {
    pub users: Vec<User>,
    pub servers: Vec<Server>,
}

impl Store {
    /// Row keys are unique: at most one row per user id and per guild id.
    pub open spec fn wf(self) -> bool {
        users_wf(self.users@) && servers_wf(self.servers@)
    }

    /// Well-formed keys together with the per-row invariant on every user.
    pub open spec fn inv(self) -> bool {
        &&& self.wf()
        &&& forall|i: int| 0 <= i < self.users@.len() ==> user_inv(#[trigger] self.users@[i])
    }

    /// An empty store: no users, no guilds.
    pub fn new() -> (s: Store)
        ensures
            s.users@.len() == 0,
            s.servers@.len() == 0,
            s.inv(),
            verified_emails_unique(s.users@),
    {
        Store { users: Vec::new(), servers: Vec::new() }
    }

    /// Check whether a user row exists.
    pub fn user_exists(&self, user_id: u64) -> (r: bool)
        ensures
            r == contains_user(self.users@, user_id),
    {
        match index_of_user(&self.users, user_id) {
            Some(i) => {
                proof {
                    assert(self.users@[i as int].id == user_id);
                }
                true
            },
            None => false,
        }
    }

    /// Check whether a user is verified; a missing row counts as not verified.
    pub fn is_verified(&self, user_id: u64) -> (r: bool)
        requires
            self.wf(),
        ensures
            r == spec_is_verified(*self, user_id),
    {
        match index_of_user(&self.users, user_id) {
            Some(i) => {
                proof {
                    lemma_user_idx_of_witness(self.users@, user_id, i as int);
                }
                self.users[i].state == UserState::Verified
            },
            None => false,
        }
    }

    /// The state of a user, `None` when the row is absent.
    pub fn get_user_state(&self, user_id: u64) -> (r: Option<UserState>)
        requires
            self.wf(),
        ensures
            contains_user(self.users@, user_id) ==> r == Some(
                spec_user(self.users@, user_id).state,
            ),
            !contains_user(self.users@, user_id) ==> r is None,
    {
        match index_of_user(&self.users, user_id) {
            Some(i) => {
                proof {
                    lemma_user_idx_of_witness(self.users@, user_id, i as int);
                }
                Some(self.users[i].state)
            },
            None => None,
        }
    }

    /// Creates a new row in the `Unverified` state and returns its content;
    /// fails with `Conflict` when a row with this id already exists.
    pub fn create_user(&mut self, user_id: u64) -> (r: Result<User, Error>)
        requires
            old(self).wf(),
        ensures
            final(self).wf(),
            final(self).servers@ == old(self).servers@,
            contains_user(old(self).users@, user_id) ==> r == Err::<User, Error>(Error::Conflict)
                && final(self).users@ == old(self).users@,
            !contains_user(old(self).users@, user_id) ==> {
                &&& r matches Ok(u) && is_fresh_user(u, user_id)
                &&& final(self).users@.len() == old(self).users@.len() + 1
                &&& forall|k: int|
                    0 <= k < old(self).users@.len() ==> final(self).users@[k] == old(
                        self,
                    ).users@[k]
                &&& is_fresh_user(final(self).users@.last(), user_id)
            },
            contains_user(final(self).users@, user_id),
    {
        match index_of_user(&self.users, user_id) {
            Some(i) => {
                proof {
                    assert(self.users@[i as int].id == user_id);
                }
                Err(Error::Conflict)
            },
            None => {
                let row = User {
                    id: user_id,
                    imperial_email: None,
                    state: UserState::Unverified,
                    otps: Vec::new(),
                };
                self.users.push(row);
                let ghost n = self.users@.len() - 1;
                proof {
                    assert(self.users@[n].id == user_id);
                    assert(users_wf(self.users@));
                }
                Ok(
                    User {
                        id: user_id,
                        imperial_email: None,
                        state: UserState::Unverified,
                        otps: Vec::new(),
                    },
                )
            },
        }
    }

    /// Sets a user's state, an unconditional overwrite: the caller enforces
    /// the legality of the transition. An update addressed to an absent row
    /// matches nothing and succeeds without change.
    pub fn set_user_state(&mut self, user_id: u64, user_state: UserState) -> (r: Result<
        (),
        Error,
    >)
        requires
            old(self).wf(),
        ensures
            final(self).wf(),
            final(self).servers@ == old(self).servers@,
            r is Ok,
            !contains_user(old(self).users@, user_id) ==> final(self).users@ == old(self).users@,
            contains_user(old(self).users@, user_id) ==> {
                &&& users_updated_at(
                    old(self).users@,
                    final(self).users@,
                    user_idx(old(self).users@, user_id),
                )
                &&& only_state_changed(
                    spec_user(old(self).users@, user_id),
                    final(self).users@[user_idx(old(self).users@, user_id)],
                )
                &&& final(self).users@[user_idx(old(self).users@, user_id)].state == user_state
            },
    {
        match index_of_user(&self.users, user_id) {
            Some(i) => {
                proof {
                    lemma_user_idx_of_witness(self.users@, user_id, i as int);
                }
                let mut row = self.users.remove(i);
                row.state = user_state;
                self.users.insert(i, row);
                proof {
                    assert(users_updated_at(old(self).users@, self.users@, i as int));
                    assert(forall|k: int|
                        0 <= k < self.users@.len() ==> self.users@[k].id == old(
                            self,
                        ).users@[k].id);
                    assert(users_wf(self.users@));
                }
                Ok(())
            },
            None => Ok(()),
        }
    }
    /// Sets the user's institutional email. An update addressed to an absent
    /// row matches nothing and succeeds without change.
    pub fn set_imperial_email(&mut self, user_id: u64, email: String) -> (r: Result<(), Error>)
        requires
            old(self).wf(),
        ensures
            final(self).wf(),
            final(self).servers@ == old(self).servers@,
            r is Ok,
            !contains_user(old(self).users@, user_id) ==> final(self).users@ == old(self).users@,
            contains_user(old(self).users@, user_id) ==> {
                &&& users_updated_at(
                    old(self).users@,
                    final(self).users@,
                    user_idx(old(self).users@, user_id),
                )
                &&& only_email_changed(
                    spec_user(old(self).users@, user_id),
                    final(self).users@[user_idx(old(self).users@, user_id)],
                )
                &&& final(self).users@[user_idx(old(self).users@, user_id)].imperial_email
                    == Some(email)
            },
    {
        match index_of_user(&self.users, user_id) {
            Some(i) => {
                proof {
                    lemma_user_idx_of_witness(self.users@, user_id, i as int);
                }
                let mut row = self.users.remove(i);
                row.imperial_email = Some(email);
                self.users.insert(i, row);
                proof {
                    assert(users_updated_at(old(self).users@, self.users@, i as int));
                    assert(forall|k: int|
                        0 <= k < self.users@.len() ==> self.users@[k].id == old(
                            self,
                        ).users@[k].id);
                    assert(users_wf(self.users@));
                }
                Ok(())
            },
            None => Ok(()),
        }
    }

    /// Unsets the user's institutional email: the discard half of a flow
    /// restart. An update addressed to an absent row matches nothing and
    /// succeeds without change.
    pub fn clear_imperial_email(&mut self, user_id: u64) -> (r: Result<(), Error>)
        requires
            old(self).wf(),
        ensures
            final(self).wf(),
            final(self).servers@ == old(self).servers@,
            r is Ok,
            !contains_user(old(self).users@, user_id) ==> final(self).users@ == old(self).users@,
            contains_user(old(self).users@, user_id) ==> {
                &&& users_updated_at(
                    old(self).users@,
                    final(self).users@,
                    user_idx(old(self).users@, user_id),
                )
                &&& only_email_changed(
                    spec_user(old(self).users@, user_id),
                    final(self).users@[user_idx(old(self).users@, user_id)],
                )
                &&& final(self).users@[user_idx(old(self).users@, user_id)].imperial_email
                    is None
            },
    {
        match index_of_user(&self.users, user_id) {
            Some(i) => {
                proof {
                    lemma_user_idx_of_witness(self.users@, user_id, i as int);
                }
                let mut row = self.users.remove(i);
                row.imperial_email = None;
                self.users.insert(i, row);
                proof {
                    assert(users_updated_at(old(self).users@, self.users@, i as int));
                    assert(forall|k: int|
                        0 <= k < self.users@.len() ==> self.users@[k].id == old(
                            self,
                        ).users@[k].id);
                    assert(users_wf(self.users@));
                }
                Ok(())
            },
            None => Ok(()),
        }
    }

    /// Appends a code to the user's outstanding one-time passcodes. An update
    /// addressed to an absent row matches nothing and succeeds without change.
    pub fn insert_otp(&mut self, user_id: u64, otp: i32) -> (r: Result<(), Error>)
        requires
            old(self).wf(),
        ensures
            final(self).wf(),
            final(self).servers@ == old(self).servers@,
            r is Ok,
            !contains_user(old(self).users@, user_id) ==> final(self).users@ == old(self).users@,
            contains_user(old(self).users@, user_id) ==> {
                &&& users_updated_at(
                    old(self).users@,
                    final(self).users@,
                    user_idx(old(self).users@, user_id),
                )
                &&& only_otps_changed(
                    spec_user(old(self).users@, user_id),
                    final(self).users@[user_idx(old(self).users@, user_id)],
                )
                &&& final(self).users@[user_idx(old(self).users@, user_id)].otps@ == spec_user(
                    old(self).users@,
                    user_id,
                ).otps@.push(otp)
            },
    {
        match index_of_user(&self.users, user_id) {
            Some(i) => {
                proof {
                    lemma_user_idx_of_witness(self.users@, user_id, i as int);
                }
                let mut row = self.users.remove(i);
                row.otps.push(otp);
                self.users.insert(i, row);
                proof {
                    assert(users_updated_at(old(self).users@, self.users@, i as int));
                    assert(forall|k: int|
                        0 <= k < self.users@.len() ==> self.users@[k].id == old(
                            self,
                        ).users@[k].id);
                    assert(users_wf(self.users@));
                }
                Ok(())
            },
            None => Ok(()),
        }
    }

    /// Discards all the user's outstanding codes. An update addressed to an
    /// absent row matches nothing and succeeds without change.
    pub fn clear_otps(&mut self, user_id: u64) -> (r: Result<(), Error>)
        requires
            old(self).wf(),
        ensures
            final(self).wf(),
            final(self).servers@ == old(self).servers@,
            r is Ok,
            !contains_user(old(self).users@, user_id) ==> final(self).users@ == old(self).users@,
            contains_user(old(self).users@, user_id) ==> {
                &&& users_updated_at(
                    old(self).users@,
                    final(self).users@,
                    user_idx(old(self).users@, user_id),
                )
                &&& only_otps_changed(
                    spec_user(old(self).users@, user_id),
                    final(self).users@[user_idx(old(self).users@, user_id)],
                )
                &&& final(self).users@[user_idx(old(self).users@, user_id)].otps@.len() == 0
            },
    {
        match index_of_user(&self.users, user_id) {
            Some(i) => {
                proof {
                    lemma_user_idx_of_witness(self.users@, user_id, i as int);
                }
                let mut row = self.users.remove(i);
                row.otps = Vec::new();
                self.users.insert(i, row);
                proof {
                    assert(users_updated_at(old(self).users@, self.users@, i as int));
                    assert(forall|k: int|
                        0 <= k < self.users@.len() ==> self.users@[k].id == old(
                            self,
                        ).users@[k].id);
                    assert(users_wf(self.users@));
                }
                Ok(())
            },
            None => Ok(()),
        }
    }

    /// Checks whether a code is among the user's outstanding passcodes; a
    /// missing row counts as no match.
    pub fn otp_exists_for_user(&self, user_id: u64, otp: i32) -> (r: bool)
        requires
            self.wf(),
        ensures
            r == spec_otp_matches(*self, user_id, otp),
    {
        match index_of_user(&self.users, user_id) {
            Some(i) => {
                proof {
                    lemma_user_idx_of_witness(self.users@, user_id, i as int);
                }
                let codes = &self.users[i].otps;
                let n = codes.len();
                let mut k: usize = 0;
                while k < n
                    invariant
                        n == codes@.len(),
                        k <= n,
                        codes@ == spec_user(self.users@, user_id).otps@,
                        contains_user(self.users@, user_id),
                        forall|m: int| 0 <= m < k ==> codes@[m] != otp,
                    decreases n - k,
                {
                    if codes[k] == otp {
                        proof {
                            assert(spec_user(self.users@, user_id).otps@[k as int] == otp);
                        }
                        return true;
                    }
                    k += 1;
                }
                false
            },
            None => false,
        }
    }

    /// Checks whether this email is already held by a Verified user: the
    /// uniqueness gate consulted before a candidate email is accepted.
    pub fn email_exists(&self, email: &str) -> (r: bool)
        ensures
            r == spec_email_in_use(self.users@, email@),
    {
        let candidate: String = email.to_owned();
        let n = self.users.len();
        let mut i: usize = 0;
        while i < n
            invariant
                n == self.users@.len(),
                candidate@ == email@,
                forall|k: int|
                    0 <= k < i ==> !(self.users@[k].state == UserState::Verified && email_view(
                        self.users@[k],
                    ) == Some(email@)),
            decreases n - i,
        {
            if self.users[i].state == UserState::Verified {
                match &self.users[i].imperial_email {
                    Some(held) => {
                        if held.eq(&candidate) {
                            proof {
                                assert(email_view(self.users@[i as int]) == Some(email@));
                            }
                            return true;
                        }
                    },
                    None => {},
                }
            }
            i += 1;
        }
        false
    }

    /// All Verified users, as copied rows in store order.
    pub fn get_verified(&self) -> (r: Vec<User>)
        ensures
            r@.len() == spec_verified_users(self.users@).len(),
            forall|k: int|
                0 <= k < r@.len() ==> user_like(
                    #[trigger] r@[k],
                    spec_verified_users(self.users@)[k],
                ),
    {
        let n = self.users.len();
        let mut r: Vec<User> = Vec::new();
        let mut i: usize = 0;
        while i < n
            invariant
                n == self.users@.len(),
                i <= n,
                r@.len() == spec_verified_users(self.users@.take(i as int)).len(),
                forall|k: int|
                    0 <= k < r@.len() ==> user_like(
                        #[trigger] r@[k],
                        spec_verified_users(self.users@.take(i as int))[k],
                    ),
            decreases n - i,
        {
            proof {
                assert(self.users@.take(i + 1 as int).drop_last() =~= self.users@.take(i as int));
                assert(self.users@.take(i + 1 as int).last() == self.users@[i as int]);
            }
            if self.users[i].state == UserState::Verified {
                r.push(duplicate_user(&self.users[i]));
            }
            i += 1;
        }
        proof {
            assert(self.users@.take(n as int) =~= self.users@);
        }
        r
    }

    /// Check whether a guild row exists.
    pub fn server_exists(&self, guild_id: u64) -> (r: bool)
        ensures
            r == contains_server(self.servers@, guild_id),
    {
        match index_of_server(&self.servers, guild_id) {
            Some(i) => {
                proof {
                    assert(self.servers@[i as int].id == guild_id);
                }
                true
            },
            None => false,
        }
    }

    /// Sets the verified role for a guild, creating the row first when it is
    /// absent: an upsert, which cannot fail on a well-formed store.
    pub fn set_verified_role(&mut self, guild_id: u64, role_id: u64) -> (r: Result<(), Error>)
        requires
            old(self).wf(),
        ensures
            final(self).wf(),
            final(self).users@ == old(self).users@,
            r is Ok,
            contains_server(final(self).servers@, guild_id),
            spec_verified_role(final(self).servers@, guild_id) == Some(role_id),
            contains_server(old(self).servers@, guild_id) ==> {
                &&& final(self).servers@.len() == old(self).servers@.len()
                &&& forall|k: int|
                    0 <= k < old(self).servers@.len() && k != server_idx(
                        old(self).servers@,
                        guild_id,
                    ) ==> final(self).servers@[k] == old(self).servers@[k]
            },
            !contains_server(old(self).servers@, guild_id) ==> final(self).servers@ == old(
                self,
            ).servers@.push(
                (Server { id: guild_id, verified_role_id: Some(role_id) }),
            ),
    {
        match index_of_server(&self.servers, guild_id) {
            Some(i) => {
                proof {
                    lemma_server_idx_of_witness(self.servers@, guild_id, i as int);
                }
                let mut row = self.servers.remove(i);
                row.verified_role_id = Some(role_id);
                self.servers.insert(i, row);
                proof {
                    assert(forall|k: int|
                        0 <= k < self.servers@.len() ==> self.servers@[k].id == old(
                            self,
                        ).servers@[k].id);
                    assert(servers_wf(self.servers@));
                    lemma_server_idx_of_witness(self.servers@, guild_id, i as int);
                }
                Ok(())
            },
            None => {
                self.servers.push(Server { id: guild_id, verified_role_id: Some(role_id) });
                let ghost n = self.servers@.len() - 1;
                proof {
                    assert(self.servers@[n].id == guild_id);
                    assert(servers_wf(self.servers@));
                    lemma_server_idx_of_witness(self.servers@, guild_id, n);
                }
                Ok(())
            },
        }
    }

    /// The verified role configured for a guild; `None` when the row is
    /// absent or no role has been set.
    pub fn get_verified_role(&self, guild_id: u64) -> (r: Option<u64>)
        requires
            self.wf(),
        ensures
            r == spec_verified_role(self.servers@, guild_id),
    {
        match index_of_server(&self.servers, guild_id) {
            Some(i) => {
                proof {
                    lemma_server_idx_of_witness(self.servers@, guild_id, i as int);
                }
                self.servers[i].verified_role_id
            },
            None => None,
        }
    }

    /// All guild rows whose verified role is configured, in store order.
    pub fn get_servers_with_verified_roles(&self) -> (r: Vec<Server>)
        ensures
            r@ == spec_servers_with_roles(self.servers@),
    {
        let n = self.servers.len();
        let mut r: Vec<Server> = Vec::new();
        let mut i: usize = 0;
        while i < n
            invariant
                n == self.servers@.len(),
                i <= n,
                r@ == spec_servers_with_roles(self.servers@.take(i as int)),
            decreases n - i,
        {
            proof {
                assert(self.servers@.take(i + 1 as int).drop_last() =~= self.servers@.take(
                    i as int,
                ));
                assert(self.servers@.take(i + 1 as int).last() == self.servers@[i as int]);
            }
            if self.servers[i].verified_role_id.is_some() {
                r.push(self.servers[i]);
            }
            i += 1;
        }
        proof {
            assert(self.servers@.take(n as int) =~= self.servers@);
        }
        r
    }
}

/// The role configured for a guild, `None` when the guild row is absent or
/// holds no role.
pub open spec fn spec_verified_role(ss: Seq<Server>, gid: u64) -> Option<u64> {
    if contains_server(ss, gid) {
        spec_server(ss, gid).verified_role_id
    } else {
        None
    }
}

/// Some row carries this user id and is in the `Verified` state.
pub open spec fn user_verified(us: Seq<User>, uid: u64) -> bool {
    contains_user(us, uid) && spec_user(us, uid).state == UserState::Verified
}

/// The user is present and in the `Verified` state.
pub open spec fn spec_is_verified(s: Store, uid: u64) -> bool {
    user_verified(s.users@, uid)
}

/// The user is present and `code` is among their outstanding passcodes.
pub open spec fn spec_otp_matches(s: Store, uid: u64, code: i32) -> bool {
    contains_user(s.users@, uid) && spec_user(s.users@, uid).otps@.contains(code)
}

/// All Verified rows of `us`, in store order.
pub open spec fn spec_verified_users(us: Seq<User>) -> Seq<User>
    decreases us.len(),
{
    if us.len() == 0 {
        Seq::empty()
    } else {
        let rest = spec_verified_users(us.drop_last());
        if us.last().state == UserState::Verified {
            rest.push(us.last())
        } else {
            rest
        }
    }
}

/// All rows of `ss` whose verified role is configured, in store order.
pub open spec fn spec_servers_with_roles(ss: Seq<Server>) -> Seq<Server>
    decreases ss.len(),
{
    if ss.len() == 0 {
        Seq::empty()
    } else {
        let rest = spec_servers_with_roles(ss.drop_last());
        if ss.last().verified_role_id is Some {
            rest.push(ss.last())
        } else {
            rest
        }
    }
}

/// An element-wise copy of a code list.
fn copy_codes(v: &Vec<i32>) -> (r: Vec<i32>)
    ensures
        r@ == v@,
{
    let n = v.len();
    let mut r: Vec<i32> = Vec::new();
    let mut i: usize = 0;
    while i < n
        invariant
            n == v@.len(),
            i <= n,
            r@ == v@.take(i as int),
        decreases n - i,
    {
        r.push(v[i]);
        proof {
            assert(r@ =~= v@.take(i + 1 as int));
        }
        i += 1;
    }
    proof {
        assert(v@.take(n as int) =~= v@);
    }
    r
}

/// A field-by-field copy of a user row, carrying the same content.
fn duplicate_user(u: &User) -> (r: User)
    ensures
        user_like(r, *u),
{
    User {
        id: u.id,
        imperial_email: match &u.imperial_email {
            Some(e) => Some(e.clone()),
            None => None,
        },
        state: u.state,
        otps: copy_codes(&u.otps),
    }
}

/// Index of the row carrying `uid`, if any.
fn index_of_user(users: &Vec<User>, uid: u64) -> (r: Option<usize>)
    ensures
        match r {
            Some(i) => i < users@.len() && users@[i as int].id == uid,
            None => !contains_user(users@, uid),
        },
{
    let n = users.len();
    let mut i: usize = 0;
    while i < n
        invariant
            n == users@.len(),
            i <= n,
            forall|k: int| 0 <= k < i ==> users@[k].id != uid,
        decreases n - i,
    {
        if users[i].id == uid {
            return Some(i);
        }
        i += 1;
    }
    None
}

/// Index of the row carrying `gid`, if any.
fn index_of_server(servers: &Vec<Server>, gid: u64) -> (r: Option<usize>)
    ensures
        match r {
            Some(i) => i < servers@.len() && servers@[i as int].id == gid,
            None => !contains_server(servers@, gid),
        },
{
    let n = servers.len();
    let mut i: usize = 0;
    while i < n
        invariant
            n == servers@.len(),
            i <= n,
            forall|k: int| 0 <= k < i ==> servers@[k].id != gid,
        decreases n - i,
    {
        if servers[i].id == gid {
            return Some(i);
        }
        i += 1;
    }
    None
}

} // verus!
