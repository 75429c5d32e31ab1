use vstd::prelude::*;
use vstd::string::StringExecFns;
use crate::models::{InviteCode, Team, TeamKeyAccess, TeamMember, TeamRole, User};
use crate::requests::{RegisterRequest, SignupError};

verus! {

/// A model of the vault's relations (users, teams, memberships, key grants,
/// invite codes), over which the account rules are stated and proved. Each
/// method is one all-or-nothing unit of work: it either applies every write
/// it stands for or leaves the store as it was. A database-backed server
/// gets the same atomicity from its transactions, driven step by step by
/// `transaction::next_action`.
#[derive(Debug)]
pub struct Store {
    pub users: Vec<User>,
    pub teams: Vec<Team>,
    pub members: Vec<TeamMember>,
    pub key_access: Vec<TeamKeyAccess>,
    pub invites: Vec<InviteCode>,
    /// The next identifier to hand out; every identifier in use is below it.
    pub next_id: u128,
}

/// The display name of the personal team of a user called `name`.
pub open spec fn personal_team_name(name: Seq<char>) -> Seq<char> {
    name + "'s Personal Team"@
}

/// The display name of the personal team of a user called `name`.
pub fn personal_team_name_of(name: &String) -> (r: String)
    ensures
        r@ == personal_team_name(name@),
{
    name.clone().concat("'s Personal Team")
}

/// `new` is `old` with every unused invite whose code is `c` marked used.
pub open spec fn redeemed(old: Seq<InviteCode>, new: Seq<InviteCode>, c: Seq<char>) -> bool {
    &&& new.len() == old.len()
    &&& forall|i: int|
        0 <= i < old.len() ==> {
            &&& (#[trigger] new[i]).id == old[i].id
            &&& new[i].code == old[i].code
            &&& new[i].is_used == (old[i].is_used || old[i].code@ == c)
        }
}

/// The user row that a request creates.
pub open spec fn new_user(req: RegisterRequest, id: u128, now: i64) -> User {
    User {
        id,
        email: req.email,
        name: req.name,
        password_hash: req.password_hash,
        password_salt: req.password_salt,
        public_key: req.public_key,
        encrypted_private_key: req.encrypted_private_key,
        private_key_nonce: req.private_key_nonce,
        created_at: now,
    }
}

impl Store {
    pub open spec fn ids_below_next(&self) -> bool {
        &&& forall|i: int| 0 <= i < self.users@.len() ==> (#[trigger] self.users@[i]).id < self.next_id
        &&& forall|i: int| 0 <= i < self.teams@.len() ==> (#[trigger] self.teams@[i]).id < self.next_id
        &&& forall|i: int|
            0 <= i < self.members@.len() ==> (#[trigger] self.members@[i]).user_id < self.next_id
                && self.members@[i].team_id < self.next_id
        &&& forall|i: int|
            0 <= i < self.key_access@.len() ==> (#[trigger] self.key_access@[i]).user_id
                < self.next_id && self.key_access@[i].team_id < self.next_id
        &&& forall|i: int| 0 <= i < self.invites@.len() ==> (#[trigger] self.invites@[i]).id < self.next_id
    }

    pub open spec fn codes_unique(&self) -> bool {
        forall|i: int, j: int|
            0 <= i < self.invites@.len() && 0 <= j < self.invites@.len()
                && (#[trigger] self.invites@[i]).code@ == (#[trigger] self.invites@[j]).code@ ==> i == j
    }

    pub open spec fn emails_unique(&self) -> bool {
        forall|i: int, j: int|
            0 <= i < self.users@.len() && 0 <= j < self.users@.len()
                && (#[trigger] self.users@[i]).email@ == (#[trigger] self.users@[j]).email@ ==> i == j
    }

    /// Some key grant is for team `t` and user `u`.
    pub open spec fn has_grant(&self, t: u128, u: u128) -> bool {
        exists|k: int|
            0 <= k < self.key_access@.len() && (#[trigger] self.key_access@[k]).team_id == t
                && self.key_access@[k].user_id == u
    }

    /// Every membership has a key grant for the same team and user.
    pub open spec fn grants_cover_members(&self) -> bool {
        forall|j: int|
            0 <= j < self.members@.len() ==> self.has_grant(
                (#[trigger] self.members@[j]).team_id,
                self.members@[j].user_id,
            )
    }

    /// Some team with id `t` is a personal team.
    pub open spec fn is_personal_team(&self, t: u128) -> bool {
        exists|k: int| 0 <= k < self.teams@.len() && (#[trigger] self.teams@[k]).id == t && self.teams@[k].is_personal
    }

    /// Membership `j` is an admin membership of a personal team.
    pub open spec fn is_personal_membership(&self, j: int) -> bool {
        self.members@[j].role == TeamRole::Admin && self.is_personal_team(self.members@[j].team_id)
    }

    /// User `u` is admin of some personal team.
    pub open spec fn has_personal_team(&self, u: u128) -> bool {
        exists|j: int|
            0 <= j < self.members@.len() && (#[trigger] self.members@[j]).user_id == u
                && self.is_personal_membership(j)
    }

    /// Every user is admin of exactly one personal team.
    pub open spec fn one_personal_team_each(&self) -> bool {
        &&& forall|i: int|
            0 <= i < self.users@.len() ==> self.has_personal_team((#[trigger] self.users@[i]).id)
        &&& forall|a: int, b: int|
            0 <= a < self.members@.len() && 0 <= b < self.members@.len()
                && (#[trigger] self.members@[a]).user_id == (#[trigger] self.members@[b]).user_id
                && self.is_personal_membership(a) && self.is_personal_membership(b) ==> a == b
    }

    /// Identifiers are fresh, invite codes and emails are unique, every user
    /// has exactly one personal team, and no member lacks a key grant.
    pub open spec fn wf(&self) -> bool {
        &&& self.one_personal_team_each()
        &&& self.grants_cover_members()
        &&& self.ids_below_next()
        &&& self.codes_unique()
        &&& self.emails_unique()
    }

    /// An unused invite with code `c` exists.
    pub open spec fn has_open_invite(&self, c: Seq<char>) -> bool {
        exists|i: int|
            0 <= i < self.invites@.len() && (#[trigger] self.invites@[i]).code@ == c
                && !self.invites@[i].is_used
    }

    /// An invite with code `c` exists and is used.
    pub open spec fn invite_spent(&self, c: Seq<char>) -> bool {
        exists|i: int|
            0 <= i < self.invites@.len() && (#[trigger] self.invites@[i]).code@ == c
                && self.invites@[i].is_used
    }

    pub open spec fn email_taken(&self, e: Seq<char>) -> bool {
        exists|i: int| 0 <= i < self.users@.len() && (#[trigger] self.users@[i]).email@ == e
    }

    /// What the store answers to a bootstrap: the invite decides first, then
    /// the unique email and the room left for identifiers.
    pub open spec fn signup_outcome(&self, req: RegisterRequest) -> Result<(), SignupError> {
        if !self.has_open_invite(req.invite_code@) {
            Err(SignupError::Forbidden)
        } else if self.email_taken(req.email@) || self.next_id > u128::MAX - 2 {
            Err(SignupError::Internal)
        } else {
            Ok(())
        }
    }

    /// `new` is `old` after a complete account bootstrap for `req`: invite
    /// spent, user, personal team, admin membership and key grant added.
    pub open spec fn bootstrapped(old: &Store, new: &Store, req: RegisterRequest, now: i64) -> bool {
        let uid = old.next_id;
        let tid = (old.next_id + 1) as u128;
        &&& redeemed(old.invites@, new.invites@, req.invite_code@)
        &&& new.users@ == old.users@.push(new_user(req, uid, now))
        &&& new.teams@.len() == old.teams@.len() + 1
        &&& new.teams@.drop_last() == old.teams@
        &&& new.teams@.last().id == tid
        &&& new.teams@.last().name@ == personal_team_name(req.name@)
        &&& new.teams@.last().is_personal
        &&& new.teams@.last().created_at == now
        &&& new.members@ == old.members@.push(
            TeamMember { team_id: tid, user_id: uid, role: TeamRole::Admin },
        )
        &&& new.key_access@ == old.key_access@.push(
            TeamKeyAccess {
                team_id: tid,
                user_id: uid,
                encrypted_team_key: req.wrapped_personal_key,
                nonce: req.personal_key_nonce,
            },
        )
        &&& new.next_id == old.next_id + 2
    }

    /// An empty store.
    pub fn new() -> (r: Store)
        ensures
            r.wf(),
            r.users@.len() == 0,
            r.teams@.len() == 0,
            r.members@.len() == 0,
            r.key_access@.len() == 0,
            r.invites@.len() == 0,
    {
        Store {
            users: Vec::new(),
            teams: Vec::new(),
            members: Vec::new(),
            key_access: Vec::new(),
            invites: Vec::new(),
            next_id: 1,
        }
    }

    /// The position of an unused invite with code `c`.
    fn find_open_invite(&self, c: &String) -> (r: Option<usize>)
        ensures
            match r {
                Some(i) => i < self.invites@.len() && self.invites@[i as int].code@ == c@
                    && !self.invites@[i as int].is_used,
                None => !self.has_open_invite(c@),
            },
    {
        let mut i: usize = 0;
        while i < self.invites.len()
            invariant
                i <= self.invites@.len(),
                forall|j: int|
                    0 <= j < i ==> !((#[trigger] self.invites@[j]).code@ == c@
                        && !self.invites@[j].is_used),
            decreases self.invites@.len() - i,
        {
            if !self.invites[i].is_used && self.invites[i].code == *c {
                return Some(i);
            }
            i = i + 1;
        }
        None
    }

    /// Whether some user has email `e`.
    pub fn has_email(&self, e: &String) -> (r: bool)
        ensures
            r == self.email_taken(e@),
    {
        let mut i: usize = 0;
        while i < self.users.len()
            invariant
                i <= self.users@.len(),
                forall|j: int| 0 <= j < i ==> (#[trigger] self.users@[j]).email@ != e@,
            decreases self.users@.len() - i,
        {
            if self.users[i].email == *e {
                return true;
            }
            i = i + 1;
        }
        false
    }

    /// Whether an invite with code `c` exists, used or not.
    pub fn has_code(&self, c: &String) -> (r: bool)
        ensures
            r == exists|i: int| 0 <= i < self.invites@.len() && (#[trigger] self.invites@[i]).code@ == c@,
    {
        let mut i: usize = 0;
        while i < self.invites.len()
            invariant
                i <= self.invites@.len(),
                forall|j: int| 0 <= j < i ==> (#[trigger] self.invites@[j]).code@ != c@,
            decreases self.invites@.len() - i,
        {
            if self.invites[i].code == *c {
                return true;
            }
            i = i + 1;
        }
        false
    }

    /// Consumes invite `code` in one conditional step: succeeds exactly when
    /// an unused invite with that code exists, which it marks used.
    pub fn redeem(&mut self, code: &String) -> (r: bool)
        requires
            old(self).wf(),
        ensures
            r == old(self).has_open_invite(code@),
            redeemed(old(self).invites@, final(self).invites@, code@),
            final(self).users == old(self).users,
            final(self).teams == old(self).teams,
            final(self).members == old(self).members,
            final(self).key_access == old(self).key_access,
            final(self).next_id == old(self).next_id,
            final(self).wf(),
            !r ==> *final(self) == *old(self),
    {
        match self.find_open_invite(code) {
            None => {
                proof {
                    assert forall|i: int| 0 <= i < self.invites@.len() && self.invites@[i].code@ == code@
                        implies self.invites@[i].is_used by {
                        if !self.invites@[i].is_used {
                            assert(self.has_open_invite(code@));
                        }
                    }
                }
                false
            },
            Some(i) => {
                proof {
                    assert(self.has_open_invite(code@));
                }
                self.invites[i].is_used = true;
                proof {
                    assert(self.members@ == old(self).members@);
                    assert(self.key_access@ == old(self).key_access@);
                    assert(self.grants_cover_members());
                    assert(self.users@ == old(self).users@);
                    assert(self.teams@ == old(self).teams@);
                    assert(self.one_personal_team_each());
                    assert forall|j: int| 0 <= j < old(self).invites@.len() implies {
                        &&& (#[trigger] self.invites@[j]).id == old(self).invites@[j].id
                        &&& self.invites@[j].code == old(self).invites@[j].code
                        &&& self.invites@[j].is_used == (old(self).invites@[j].is_used
                            || old(self).invites@[j].code@ == code@)
                    } by {
                        if j != i && old(self).invites@[j].code@ == code@ {
                            assert(old(self).invites@[j].code@ == old(self).invites@[i as int].code@);
                        }
                    }
                    assert forall|a: int, b: int|
                        0 <= a < self.invites@.len() && 0 <= b < self.invites@.len()
                            && (#[trigger] self.invites@[a]).code@ == (#[trigger] self.invites@[b]).code@
                        implies a == b by {
                        assert(old(self).invites@[a].code@ == old(self).invites@[b].code@);
                    }
                    assert forall|a: int| 0 <= a < self.invites@.len()
                        implies (#[trigger] self.invites@[a]).id < self.next_id by {
                        assert(old(self).invites@[a].id < old(self).next_id);
                    }
                }
                true
            },
        }
    }

    /// The salt stored for the user with email `e`, if there is one.
    pub open spec fn stored_salt(&self, e: Seq<char>) -> Option<Seq<u8>> {
        if self.email_taken(e) {
            let i = choose|i: int| 0 <= i < self.users@.len() && (#[trigger] self.users@[i]).email@ == e;
            Some(self.users@[i].password_salt@)
        } else {
            None
        }
    }

    /// Looks up the password salt of the user with email `e`.
    pub fn password_salt(&self, e: &String) -> (r: Option<Vec<u8>>)
        requires
            self.wf(),
        ensures
            match r {
                Some(v) => self.stored_salt(e@) == Some(v@),
                None => self.stored_salt(e@) is None,
            },
    {
        let mut i: usize = 0;
        while i < self.users.len()
            invariant
                i <= self.users@.len(),
                self.wf(),
                forall|j: int| 0 <= j < i ==> (#[trigger] self.users@[j]).email@ != e@,
            decreases self.users@.len() - i,
        {
            if self.users[i].email == *e {
                proof {
                    assert(self.email_taken(e@));
                    let k = choose|k: int| 0 <= k < self.users@.len() && (#[trigger] self.users@[k]).email@ == e@;
                    assert(self.users@[k].email@ == self.users@[i as int].email@);
                    assert(k == i as int);
                    assert(self.stored_salt(e@) == Some(self.users@[i as int].password_salt@));
                }
                let v = self.users[i].password_salt.clone();
                proof {
                    assert(v@ =~= self.users@[i as int].password_salt@);
                }
                return Some(v);
            }
            i = i + 1;
        }
        None
    }

    /// Stores a new unused invite with code `code`; refused (`false`, store
    /// unchanged) where the code is already taken or identifiers are exhausted.
    pub fn insert_invite(&mut self, code: String) -> (r: bool)
        requires
            old(self).wf(),
        ensures
            final(self).wf(),
            r == (!(exists|i: int|
                0 <= i < old(self).invites@.len() && (#[trigger] old(self).invites@[i]).code@ == code@)
                && old(self).next_id < u128::MAX),
            r ==> final(self).invites@ == old(self).invites@.push(
                InviteCode { id: old(self).next_id, code, is_used: false },
            ) && final(self).next_id == old(self).next_id + 1
                && final(self).users == old(self).users && final(self).teams == old(self).teams
                && final(self).members == old(self).members
                && final(self).key_access == old(self).key_access,
            !r ==> *final(self) == *old(self),
    {
        if self.has_code(&code) || self.next_id == u128::MAX {
            return false;
        }
        let id = self.next_id;
        self.invites.push(InviteCode { id, code, is_used: false });
        self.next_id = id + 1;
        proof {
            assert(self.members@ == old(self).members@);
            assert(self.key_access@ == old(self).key_access@);
            assert(self.grants_cover_members());
            assert(self.users@ == old(self).users@);
            assert(self.teams@ == old(self).teams@);
            assert(self.one_personal_team_each());
            let n = old(self).invites@.len() as int;
            assert forall|a: int, b: int|
                0 <= a < self.invites@.len() && 0 <= b < self.invites@.len()
                    && (#[trigger] self.invites@[a]).code@ == (#[trigger] self.invites@[b]).code@
                implies a == b by {
                if a < n && b < n {
                    assert(old(self).invites@[a].code@ == old(self).invites@[b].code@);
                } else if a < n {
                    assert(old(self).invites@[a].code@ == code@);
                } else if b < n {
                    assert(old(self).invites@[b].code@ == code@);
                }
            }
            assert forall|a: int| 0 <= a < self.invites@.len()
                implies (#[trigger] self.invites@[a]).id < self.next_id by {
                if a < n {
                    assert(old(self).invites@[a].id < old(self).next_id);
                }
            }
        }
        true
    }

    /// The account bootstrap: spends the invite, then adds the user, the
    /// user's personal team, an admin membership and the wrapped team key,
    /// all together or not at all.
    pub fn bootstrap(&mut self, req: RegisterRequest, now: i64) -> (r: Result<(), SignupError>)
        requires
            old(self).wf(),
        ensures
            r == old(self).signup_outcome(req),
            r is Ok ==> Store::bootstrapped(old(self), final(self), req, now),
            r is Err ==> *final(self) == *old(self),
            final(self).wf(),
    {
        if self.find_open_invite(&req.invite_code).is_none() {
            return Err(SignupError::Forbidden);
        }
        if self.has_email(&req.email) || self.next_id > u128::MAX - 2 {
            return Err(SignupError::Internal);
        }
        let spent = self.redeem(&req.invite_code);
        let ghost mid = *self;
        let uid = self.next_id;
        let tid = uid + 1;
        let team_name = personal_team_name_of(&req.name);
        let user = User {
            id: uid,
            email: req.email,
            name: req.name,
            password_hash: req.password_hash,
            password_salt: req.password_salt,
            public_key: req.public_key,
            encrypted_private_key: req.encrypted_private_key,
            private_key_nonce: req.private_key_nonce,
            created_at: now,
        };
        self.users.push(user);
        self.teams.push(Team { id: tid, name: team_name, is_personal: true, created_at: now });
        self.members.push(TeamMember { team_id: tid, user_id: uid, role: TeamRole::Admin });
        self.key_access.push(
            TeamKeyAccess {
                team_id: tid,
                user_id: uid,
                encrypted_team_key: req.wrapped_personal_key,
                nonce: req.personal_key_nonce,
            },
        );
        self.next_id = uid + 2;
        proof {
            let nu = old(self).users@.len() as int;
            assert(self.teams@.drop_last() =~= old(self).teams@);
            assert forall|a: int, b: int|
                0 <= a < self.users@.len() && 0 <= b < self.users@.len()
                    && (#[trigger] self.users@[a]).email@ == (#[trigger] self.users@[b]).email@
                implies a == b by {
                if a < nu && b < nu {
                    assert(old(self).users@[a].email@ == old(self).users@[b].email@);
                } else if a < nu {
                    assert(old(self).users@[a].email@ == req.email@);
                } else if b < nu {
                    assert(old(self).users@[b].email@ == req.email@);
                }
            }
            assert forall|a: int, b: int|
                0 <= a < self.invites@.len() && 0 <= b < self.invites@.len()
                    && (#[trigger] self.invites@[a]).code@ == (#[trigger] self.invites@[b]).code@
                implies a == b by {
                assert(mid.invites@[a].code@ == mid.invites@[b].code@);
            }
            assert forall|a: int| 0 <= a < self.users@.len()
                implies (#[trigger] self.users@[a]).id < self.next_id by {
                if a < nu {
                    assert(old(self).users@[a].id < old(self).next_id);
                }
            }
            assert forall|a: int| 0 <= a < self.teams@.len()
                implies (#[trigger] self.teams@[a]).id < self.next_id by {
                if a < old(self).teams@.len() {
                    assert(old(self).teams@[a].id < old(self).next_id);
                }
            }
            assert forall|a: int| 0 <= a < self.members@.len()
                implies (#[trigger] self.members@[a]).user_id < self.next_id
                    && self.members@[a].team_id < self.next_id by {
                if a < old(self).members@.len() {
                    assert(old(self).members@[a].user_id < old(self).next_id);
                }
            }
            assert forall|a: int| 0 <= a < self.key_access@.len()
                implies (#[trigger] self.key_access@[a]).user_id < self.next_id
                    && self.key_access@[a].team_id < self.next_id by {
                if a < old(self).key_access@.len() {
                    assert(old(self).key_access@[a].user_id < old(self).next_id);
                }
            }
            assert forall|a: int| 0 <= a < self.invites@.len()
                implies (#[trigger] self.invites@[a]).id < self.next_id by {
                assert(mid.invites@[a].id < mid.next_id);
            }
            assert forall|j: int| 0 <= j < self.members@.len() implies self.has_grant(
                (#[trigger] self.members@[j]).team_id,
                self.members@[j].user_id,
            ) by {
                let nk = old(self).key_access@.len() as int;
                if j < old(self).members@.len() {
                    assert(old(self).has_grant(old(self).members@[j].team_id, old(self).members@[j].user_id));
                    let k = choose|k: int|
                        0 <= k < old(self).key_access@.len()
                            && (#[trigger] old(self).key_access@[k]).team_id == old(self).members@[j].team_id
                            && old(self).key_access@[k].user_id == old(self).members@[j].user_id;
                    assert(self.key_access@[k] == old(self).key_access@[k]);
                    assert(self.members@[j] == old(self).members@[j]);
                } else {
                    assert(self.key_access@[nk].team_id == self.members@[j].team_id);
                }
            }
            assert(self.grants_cover_members());
            let nm = old(self).members@.len() as int;
            let tid = (old(self).next_id + 1) as u128;
            assert(self.is_personal_team(tid)) by {
                assert(self.teams@[self.teams@.len() - 1].id == tid);
            }
            assert(self.is_personal_membership(nm));
            assert forall|j: int| 0 <= j < nm implies
                self.is_personal_membership(j) == old(self).is_personal_membership(j) by {
                assert(self.members@[j] == old(self).members@[j]);
                let t = old(self).members@[j].team_id;
                assert(t < old(self).next_id);
                if old(self).is_personal_team(t) {
                    let k = choose|k: int| 0 <= k < old(self).teams@.len()
                        && (#[trigger] old(self).teams@[k]).id == t && old(self).teams@[k].is_personal;
                    assert(self.teams@[k] == old(self).teams@[k]);
                }
                if self.is_personal_team(t) {
                    let k = choose|k: int| 0 <= k < self.teams@.len()
                        && (#[trigger] self.teams@[k]).id == t && self.teams@[k].is_personal;
                    if k < old(self).teams@.len() {
                        assert(self.teams@[k] == old(self).teams@[k]);
                    }
                }
            }
            assert forall|i: int| 0 <= i < self.users@.len()
                implies self.has_personal_team((#[trigger] self.users@[i]).id) by {
                if i < nu {
                    assert(self.users@[i] == old(self).users@[i]);
                    assert(old(self).has_personal_team(old(self).users@[i].id));
                    let j = choose|j: int| 0 <= j < old(self).members@.len()
                        && (#[trigger] old(self).members@[j]).user_id == old(self).users@[i].id
                        && old(self).is_personal_membership(j);
                    assert(self.members@[j] == old(self).members@[j]);
                    assert(self.is_personal_membership(j));
                } else {
                    assert(self.members@[nm].user_id == self.users@[i].id);
                }
            }
            assert forall|a: int, b: int|
                0 <= a < self.members@.len() && 0 <= b < self.members@.len()
                    && (#[trigger] self.members@[a]).user_id == (#[trigger] self.members@[b]).user_id
                    && self.is_personal_membership(a) && self.is_personal_membership(b)
                implies a == b by {
                if a < nm && b < nm {
                    assert(old(self).members@[a] == self.members@[a]);
                    assert(old(self).members@[b] == self.members@[b]);
                } else if a < nm {
                    assert(old(self).members@[a].user_id < old(self).next_id);
                } else if b < nm {
                    assert(old(self).members@[b].user_id < old(self).next_id);
                }
            }
            assert(self.one_personal_team_each());
            assert(self.ids_below_next());
            assert(self.codes_unique());
            assert(self.emails_unique());
        }
        Ok(())
    }
}

} // verus!
