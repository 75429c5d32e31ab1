use vstd::prelude::*;
use rand::{Rng, SeedableRng};
use crate::codec::{base64_bytes, base64_len, base64_of, encode_base64};
use crate::store::Store;

verus! {

/// Length in bytes of a fabricated salt.
pub const SALT_LEN: usize = 16;

/// The 64-bit digest of an email under std's `DefaultHasher` with its fixed keys.
pub uninterp spec fn email_digest(e: Seq<char>) -> u64;

/// The sixteen bytes drawn first from rand's `StdRng` seeded with `seed`.
pub uninterp spec fn seeded_salt(seed: u64) -> Seq<u8>;

/// The salt shown for an email that no user has.
pub open spec fn fake_salt(e: Seq<char>) -> Seq<u8> {
    seeded_salt(email_digest(e))
}

/// What the salt lookup answers for `e`: the stored salt where there is one,
/// else the fabricated one, as Base64 text.
pub open spec fn salt_response(stored: Option<Seq<u8>>, e: Seq<char>) -> Seq<char> {
    match stored {
        Some(s) => base64_of(s),
        None => base64_of(fake_salt(e)),
    }
}

/// Relies on std's `BuildHasher::hash_one` over `BuildHasherDefault<DefaultHasher>`:
/// a `DefaultHasher` made by `new` has fixed keys (unlike `RandomState`), so
/// within one build of the program the digest depends on the string alone.
#[verifier::external_body]
fn hash_email(e: &String) -> (r: u64)
    ensures
        r == email_digest(e@),
{
    std::hash::BuildHasher::hash_one(
        &std::hash::BuildHasherDefault::<std::collections::hash_map::DefaultHasher>::default(),
        e,
    )
}

/// Relies on rand's `StdRng::seed_from_u64` and `Rng::gen::<[u8; 16]>` on the
/// generator it returns: a generator seeded alike yields the same sixteen
/// bytes; the array type fixes the length.
#[verifier::external_body]
fn salt_from_seed(seed: u64) -> (r: Vec<u8>)
    ensures
        r@ == seeded_salt(seed),
        r@.len() == SALT_LEN,
{
    let mut rng = rand::rngs::StdRng::seed_from_u64(seed);
    let bytes: [u8; 16] = rng.gen();
    bytes.to_vec()
}

/// The fabricated salt for `e`: deterministic per email, `SALT_LEN` bytes.
pub fn fake_salt_for(e: &String) -> (r: Vec<u8>)
    ensures
        r@ == fake_salt(e@),
        r@.len() == SALT_LEN,
{
    let seed = hash_email(e);
    salt_from_seed(seed)
}

/// Renders the answer of the salt lookup from what the store held for `e`.
pub fn salt_text(stored: Option<Vec<u8>>, e: &String) -> (r: String)
    ensures
        r@ == salt_response(
            match stored {
                Some(v) => Some(v@),
                None => None,
            },
            e@,
        ),
        r@.len() == base64_len(
            match stored {
                Some(v) => v@.len(),
                None => SALT_LEN as nat,
            },
        ),
        base64_bytes(r@) == Some(
            match stored {
                Some(v) => v@,
                None => fake_salt(e@),
            },
        ),
        stored is None ==> fake_salt(e@).len() == SALT_LEN,
{
    match stored {
        Some(v) => encode_base64(v.as_slice()),
        None => {
            let fake = fake_salt_for(e);
            encode_base64(fake.as_slice())
        },
    }
}

/// The salt lookup: never reports that an email is unknown. An unknown email
/// gets a fabricated salt of `SALT_LEN` bytes, the same one on every call.
pub fn get_salt(db: &Store, email: &String) -> (r: String)
    requires
        db.wf(),
    ensures
        r@ == salt_response(db.stored_salt(email@), email@),
        db.stored_salt(email@) is None ==> r@.len() == base64_len(SALT_LEN as nat),
        db.stored_salt(email@) matches Some(s) ==> r@.len() == base64_len(s.len()),
        db.stored_salt(email@) is None ==> base64_bytes(r@) == Some(fake_salt(email@))
            && fake_salt(email@).len() == SALT_LEN,
        db.stored_salt(email@) matches Some(s) ==> base64_bytes(r@) == Some(s),
{
    let stored = db.password_salt(email);
    salt_text(stored, email)
}

/// Two stores that both lack `e` answer the salt lookup for `e` alike, and
/// the answer has the length of a `SALT_LEN`-byte salt.
pub proof fn lemma_unknown_email_salt_stable(a: Store, b: Store, e: Seq<char>)
    requires
        a.stored_salt(e) is None,
        b.stored_salt(e) is None,
    ensures
        salt_response(a.stored_salt(e), e) == salt_response(b.stored_salt(e), e),
        salt_response(a.stored_salt(e), e) == base64_of(fake_salt(e)),
{
}

} // verus!
