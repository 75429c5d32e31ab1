use vstd::prelude::*;
use crate::models::TeamRole;
use crate::requests::{RegisterRequest, SignupError, SignupForm};
use crate::store::{redeemed, Store};

verus! {

/// The endpoints mounted under `/auth`.
#[derive(Debug, Clone, Copy, PartialEq, Eq, Structural)]
pub enum Endpoint {
    /// `POST /auth/signup`
    Signup,
    /// `POST /auth/invite`
    GenerateInvite,
    /// `GET /auth/salt?email=...`
    GetSalt,
}

/// The authentication endpoints, in mounting order.
pub fn auth_routes() -> (r: Vec<Endpoint>)
    ensures
        r@ == seq![Endpoint::Signup, Endpoint::GenerateInvite, Endpoint::GetSalt],
{
    let r = vec![Endpoint::Signup, Endpoint::GenerateInvite, Endpoint::GetSalt];
    proof {
        assert(r@ =~= seq![Endpoint::Signup, Endpoint::GenerateInvite, Endpoint::GetSalt]);
    }
    r
}

/// What a signup answers for form `f` on store `s`: malformed Base64 first,
/// then the invite, then the store's own constraints.
pub open spec fn signup_result(s: &Store, f: &SignupForm) -> Result<(), SignupError> {
    if !f.well_formed() {
        Err(SignupError::BadRequest)
    } else if !s.has_open_invite(f.invite_code@) {
        Err(SignupError::Forbidden)
    } else if s.email_taken(f.email@) || s.next_id > u128::MAX - 2 {
        Err(SignupError::Internal)
    } else {
        Ok(())
    }
}

/// Signs up a new user with a one-time invite code. The binary fields are
/// decoded before the store is touched; then the bootstrap runs as one unit.
pub fn signup(db: &mut Store, form: &SignupForm, now: i64) -> (r: Result<(), SignupError>)
    requires
        old(db).wf(),
    ensures
        final(db).wf(),
        r == signup_result(old(db), form),
        r is Err ==> *final(db) == *old(db),
        r is Ok ==> exists|req: RegisterRequest|
            req.decodes(form) && #[trigger] Store::bootstrapped(old(db), final(db), req, now),
{
    let req = match RegisterRequest::from_form(form) {
        Ok(req) => req,
        Err(e) => return Err(e),
    };
    let ghost g = req;
    let r = db.bootstrap(req, now);
    proof {
        if r is Ok {
            assert(Store::bootstrapped(old(db), final(db), g, now));
        }
    }
    r
}

/// A lowercase hexadecimal digit.
pub open spec fn is_lower_hex(c: char) -> bool {
    ('0' <= c && c <= '9') || ('a' <= c && c <= 'f')
}

/// The hyphenated text of a version-4 (random) UUID: 36 characters, hyphens
/// at 8, 13, 18 and 23, lowercase hex elsewhere, version digit `4` at 14 and
/// variant digit `8`, `9`, `a` or `b` at 19.
pub open spec fn is_uuid_v4_text(s: Seq<char>) -> bool {
    &&& s.len() == 36
    &&& forall|i: int|
        0 <= i < 36 ==> if i == 8 || i == 13 || i == 18 || i == 23 {
            s[i] == '-'
        } else {
            is_lower_hex(#[trigger] s[i])
        }
    &&& s[14] == '4'
    &&& (s[19] == '8' || s[19] == '9' || s[19] == 'a' || s[19] == 'b')
}

/// Relies on `uuid::Uuid::new_v4` and its `Display` (`LowerHex`, hyphenated):
/// random bytes with the version and variant bits set, written as lowercase
/// hyphenated text.
#[verifier::external_body]
fn new_invite_code() -> (r: String)
    ensures
        is_uuid_v4_text(r@),
{
    uuid::Uuid::new_v4().to_string()
}

/// Issues a fresh random invite code and stores it unused. It succeeds
/// wherever identifiers are left and no stored code has the shape of a
/// generated one; `None` (store unchanged) only where the fresh code clashes
/// with a stored one or identifiers are exhausted.
pub fn generate_invite(db: &mut Store) -> (r: Option<String>)
    requires
        old(db).wf(),
    ensures
        final(db).wf(),
        old(db).next_id < u128::MAX && (forall|i: int|
            0 <= i < old(db).invites@.len() ==> !is_uuid_v4_text((#[trigger] old(db).invites@[i]).code@))
            ==> r is Some,
        r is None ==> old(db).next_id == u128::MAX || exists|i: int|
            0 <= i < old(db).invites@.len() && is_uuid_v4_text((#[trigger] old(db).invites@[i]).code@),
        match r {
            Some(c) => {
                &&& is_uuid_v4_text(c@)
                &&& final(db).invites@ == old(db).invites@.push(
                    crate::models::InviteCode { id: old(db).next_id, code: c, is_used: false },
                )
                &&& final(db).next_id == old(db).next_id + 1
                &&& final(db).users == old(db).users
                &&& final(db).teams == old(db).teams
                &&& final(db).members == old(db).members
                &&& final(db).key_access == old(db).key_access
            },
            None => *final(db) == *old(db),
        },
{
    let code = new_invite_code();
    if db.insert_invite(code.clone()) {
        Some(code)
    } else {
        None
    }
}

/// Redeeming the same code twice: where it was open, the first redemption
/// succeeds and the second fails, and the code ends spent.
pub proof fn lemma_redeem_exactly_once(s0: Store, s1: Store, s2: Store, c: Seq<char>)
    requires
        s0.has_open_invite(c),
        redeemed(s0.invites@, s1.invites@, c),
        redeemed(s1.invites@, s2.invites@, c),
    ensures
        s0.has_open_invite(c),
        !s1.has_open_invite(c),
        s2.invite_spent(c),
        s2.invites@ == s1.invites@,
{
    let i = choose|i: int|
        0 <= i < s0.invites@.len() && (#[trigger] s0.invites@[i]).code@ == c && !s0.invites@[i].is_used;
    assert(s2.invites@[i].code@ == c);
    assert(s2.invites@[i].is_used);
    assert(s2.invites@ =~= s1.invites@) by {
        assert forall|k: int| 0 <= k < s1.invites@.len() implies s2.invites@[k] == s1.invites@[k] by {
            assert(s1.invites@[k].is_used == (s0.invites@[k].is_used || s0.invites@[k].code@ == c));
        }
    }
}

/// A bootstrap with an unused invite but an email that is already taken
/// fails with `Internal`, the outcome on which `bootstrap` leaves the store,
/// and so the invite, unchanged.
pub proof fn lemma_taken_email_fails_internal(s: Store, req: RegisterRequest)
    requires
        s.has_open_invite(req.invite_code@),
        s.email_taken(req.email@),
    ensures
        s.signup_outcome(req) == Err::<(), SignupError>(SignupError::Internal),
{
}

/// After a bootstrap, the new user has exactly one membership, as admin of
/// the new personal team, and exactly one key grant, for that same team.
pub proof fn lemma_bootstrap_links_owner(old: Store, new: Store, req: RegisterRequest, now: i64)
    requires
        old.wf(),
        Store::bootstrapped(&old, &new, req, now),
    ensures
        ({
            let uid = old.next_id;
            let tid = (old.next_id + 1) as u128;
            let m = new.members@.len() - 1;
            let k = new.key_access@.len() - 1;
            &&& new.users@.last().id == uid
            &&& new.teams@.last().id == tid && new.teams@.last().is_personal
            &&& new.members@[m].user_id == uid && new.members@[m].team_id == tid
            &&& new.members@[m].role == TeamRole::Admin
            &&& forall|j: int| 0 <= j < new.members@.len() && (#[trigger] new.members@[j]).user_id == uid ==> j == m
            &&& new.key_access@[k].user_id == uid && new.key_access@[k].team_id == tid
            &&& forall|j: int|
                0 <= j < new.key_access@.len() && (#[trigger] new.key_access@[j]).user_id == uid
                    && new.key_access@[j].team_id == tid ==> j == k
        }),
{
    let uid = old.next_id;
    assert forall|j: int| 0 <= j < new.members@.len() && (#[trigger] new.members@[j]).user_id == uid
        implies j == new.members@.len() - 1 by {
        if j < old.members@.len() {
            assert(new.members@[j] == old.members@[j]);
        }
    }
    assert forall|j: int| 0 <= j < new.key_access@.len() && (#[trigger] new.key_access@[j]).user_id == uid
        implies j == new.key_access@.len() - 1 by {
        if j < old.key_access@.len() {
            assert(new.key_access@[j] == old.key_access@[j]);
        }
    }
}

/// Once a signup with an invite code has succeeded, another signup with the
/// same code is forbidden.
pub proof fn lemma_invite_single_use(
    s0: Store,
    s1: Store,
    first: RegisterRequest,
    now: i64,
    second: SignupForm,
)
    requires
        Store::bootstrapped(&s0, &s1, first, now),
        second.well_formed(),
        second.invite_code@ == first.invite_code@,
    ensures
        signup_result(&s1, &second) == Err::<(), SignupError>(SignupError::Forbidden),
{
    let c = first.invite_code@;
    if s1.has_open_invite(c) {
        let i = choose|i: int|
            0 <= i < s1.invites@.len() && (#[trigger] s1.invites@[i]).code@ == c && !s1.invites@[i].is_used;
        assert(s1.invites@[i].is_used == (s0.invites@[i].is_used || s0.invites@[i].code@ == c));
    }
}

/// Two bootstraps with different invite codes and the same email: once the
/// first has succeeded, the second fails as a whole and its invite stays
/// unused.
pub proof fn lemma_same_email_second_fails(
    s0: Store,
    s1: Store,
    first: RegisterRequest,
    second: RegisterRequest,
    now: i64,
)
    requires
        Store::bootstrapped(&s0, &s1, first, now),
        s0.has_open_invite(second.invite_code@),
        second.invite_code@ != first.invite_code@,
        second.email@ == first.email@,
    ensures
        s1.has_open_invite(second.invite_code@),
        s1.signup_outcome(second) == Err::<(), SignupError>(SignupError::Internal),
{
    let c = second.invite_code@;
    let i = choose|i: int|
        0 <= i < s0.invites@.len() && (#[trigger] s0.invites@[i]).code@ == c && !s0.invites@[i].is_used;
    assert(s1.invites@[i].code@ == c && !s1.invites@[i].is_used);
    let last = s1.users@.len() - 1;
    assert(s1.users@[last].email@ == second.email@);
}

} // verus!
