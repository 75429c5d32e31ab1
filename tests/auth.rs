use vault_server::codec::decode_field;
use vault_server::models::{SecretKind, TeamRole};
use vault_server::requests::{RegisterRequest, SignupError, SignupForm};
use vault_server::routes::{auth_routes, generate_invite, signup, Endpoint};
use vault_server::salt::{fake_salt_for, get_salt, SALT_LEN};
use vault_server::store::{personal_team_name_of, Store};
use vault_server::transaction::{next_action, TxAction, TxEvent, TxStep};

fn form(code: &str, email: &str, name: &str) -> SignupForm {
    SignupForm {
        invite_code: code.to_string(),
        email: email.to_string(),
        name: name.to_string(),
        password_hash: "aGFzaA==".to_string(),
        password_salt: "AAECAwQFBgcICQoLDA0ODw==".to_string(),
        public_key: "cHVi".to_string(),
        encrypted_private_key: "cHJpdg==".to_string(),
        private_key_nonce: "bm9uY2U=".to_string(),
        wrapped_personal_key: "d3JhcHBlZA==".to_string(),
        personal_key_nonce: "a25vbmNl".to_string(),
    }
}

fn store_with(codes: &[&str]) -> Store {
    let mut db = Store::new();
    for c in codes {
        assert!(db.insert_invite(c.to_string()));
    }
    db
}

fn row_counts(db: &Store) -> [usize; 5] {
    [db.users.len(), db.teams.len(), db.members.len(), db.key_access.len(), db.invites.len()]
}

#[test]
fn redeem_twice_succeeds_once() {
    let mut db = store_with(&["code-1"]);
    let code = "code-1".to_string();
    assert!(db.redeem(&code));
    assert!(!db.redeem(&code));
    assert!(db.invites[0].is_used);
}

#[test]
fn redeem_unknown_code_fails() {
    let mut db = store_with(&["code-1"]);
    assert!(!db.redeem(&"other".to_string()));
    assert!(!db.invites[0].is_used);
}

#[test]
fn duplicate_email_rolls_back_invite() {
    let mut db = store_with(&["a", "b"]);
    assert_eq!(signup(&mut db, &form("a", "x@example.com", "Xena"), 10), Ok(()));
    let before = row_counts(&db);
    assert_eq!(
        signup(&mut db, &form("b", "x@example.com", "Yuri"), 11),
        Err(SignupError::Internal)
    );
    assert_eq!(row_counts(&db), before);
    assert!(!db.invites[1].is_used);
    assert_eq!(db.invites[1].code, "b");
}

#[test]
fn signup_creates_linked_account() {
    let mut db = store_with(&["a"]);
    assert_eq!(signup(&mut db, &form("a", "alice@example.com", "Alice"), 42), Ok(()));
    assert_eq!(db.users.len(), 1);
    let user = &db.users[0];
    assert_eq!(user.email, "alice@example.com");
    assert_eq!(user.password_hash, b"hash".to_vec());
    assert_eq!(user.public_key, b"pub".to_vec());
    assert_eq!(user.created_at, 42);
    assert_eq!(db.teams.len(), 1);
    assert_eq!(db.teams[0].name, "Alice's Personal Team");
    assert!(db.teams[0].is_personal);
    let uid = user.id;
    let tid = db.teams[0].id;
    let memberships: Vec<_> = db.members.iter().filter(|m| m.user_id == uid).collect();
    assert_eq!(memberships.len(), 1);
    assert_eq!(memberships[0].role, TeamRole::Admin);
    assert_eq!(memberships[0].team_id, tid);
    let grants: Vec<_> =
        db.key_access.iter().filter(|k| k.user_id == uid && k.team_id == tid).collect();
    assert_eq!(grants.len(), 1);
    assert_eq!(grants[0].encrypted_team_key, b"wrapped".to_vec());
    assert_eq!(grants[0].nonce, b"knonce".to_vec());
}

#[test]
fn invite_reuse_is_forbidden() {
    let mut db = store_with(&["a"]);
    assert_eq!(signup(&mut db, &form("a", "p@example.com", "P"), 1), Ok(()));
    let before = row_counts(&db);
    assert_eq!(
        signup(&mut db, &form("a", "q@example.com", "Q"), 2),
        Err(SignupError::Forbidden)
    );
    assert_eq!(row_counts(&db), before);
}

#[test]
fn unknown_invite_is_forbidden() {
    let mut db = store_with(&["a"]);
    assert_eq!(
        signup(&mut db, &form("zzz", "p@example.com", "P"), 1),
        Err(SignupError::Forbidden)
    );
    assert_eq!(row_counts(&db), [0, 0, 0, 0, 1]);
}

#[test]
fn malformed_base64_writes_nothing() {
    let mut db = store_with(&["a"]);
    let mut f = form("a", "p@example.com", "P");
    f.wrapped_personal_key = "not base64!".to_string();
    assert_eq!(signup(&mut db, &f, 1), Err(SignupError::BadRequest));
    assert_eq!(row_counts(&db), [0, 0, 0, 0, 1]);
    assert!(!db.invites[0].is_used);
    let mut g = form("a", "p@example.com", "P");
    g.password_salt = "A".to_string();
    assert_eq!(signup(&mut db, &g, 1), Err(SignupError::BadRequest));
    assert!(!db.invites[0].is_used);
}

#[test]
fn from_form_decodes_fields() {
    let req = RegisterRequest::from_form(&form("a", "e", "n")).unwrap();
    assert_eq!(req.password_salt, (0u8..16).collect::<Vec<u8>>());
    assert_eq!(req.private_key_nonce, b"nonce".to_vec());
    assert_eq!(req.invite_code, "a");
}

#[test]
fn decode_field_known_values() {
    assert_eq!(decode_field(&"aGVsbG8=".to_string()), Some(b"hello".to_vec()));
    assert_eq!(decode_field(&"".to_string()), Some(Vec::new()));
    assert_eq!(decode_field(&"@@@@".to_string()), None);
}

#[test]
fn salt_of_known_user() {
    let mut db = store_with(&["a"]);
    assert_eq!(signup(&mut db, &form("a", "k@example.com", "K"), 1), Ok(()));
    assert_eq!(get_salt(&db, &"k@example.com".to_string()), "AAECAwQFBgcICQoLDA0ODw==");
}

#[test]
fn salt_of_unknown_email_is_stable_and_shaped() {
    let db = Store::new();
    let e = "ghost@example.com".to_string();
    let first = get_salt(&db, &e);
    let second = get_salt(&db, &e);
    assert_eq!(first, second);
    assert_eq!(first.len(), 24);
    assert_eq!(decode_field(&first).unwrap().len(), SALT_LEN);
    assert_eq!(decode_field(&first).unwrap(), fake_salt_for(&e));
    let other = get_salt(&db, &"phantom@example.com".to_string());
    assert_ne!(first, other);
}

#[test]
fn generate_invite_then_signup() {
    let mut db = Store::new();
    let code = generate_invite(&mut db).unwrap();
    assert_eq!(code.len(), 36);
    assert_eq!(db.invites.len(), 1);
    assert!(!db.invites[0].is_used);
    let code2 = generate_invite(&mut db).unwrap();
    assert_ne!(code, code2);
    assert_eq!(signup(&mut db, &form(&code, "n@example.com", "N"), 5), Ok(()));
    assert!(db.invites[0].is_used);
    assert!(!db.invites[1].is_used);
}

#[test]
fn duplicate_invite_code_refused() {
    let mut db = store_with(&["a"]);
    assert!(!db.insert_invite("a".to_string()));
    assert_eq!(db.invites.len(), 1);
}

#[test]
fn routes_in_order() {
    assert_eq!(
        auth_routes(),
        vec![Endpoint::Signup, Endpoint::GenerateInvite, Endpoint::GetSalt]
    );
}

#[test]
fn labels_and_team_name() {
    assert_eq!(TeamRole::Admin.label(), "admin");
    assert_eq!(TeamRole::Member.label(), "member");
    assert_eq!(SecretKind::SshKey.label(), "ssh_key");
    assert_eq!(SecretKind::Password.label(), "password");
    assert_eq!(personal_team_name_of(&"Bob".to_string()), "Bob's Personal Team");
}

#[test]
fn transaction_steps() {
    assert_eq!(next_action(TxStep::Begin, TxEvent::Done), TxAction::Run(TxStep::Redeem));
    assert_eq!(next_action(TxStep::GrantKey, TxEvent::Done), TxAction::Run(TxStep::Commit));
    assert_eq!(next_action(TxStep::Commit, TxEvent::Done), TxAction::Created);
    assert_eq!(
        next_action(TxStep::Redeem, TxEvent::NoRow),
        TxAction::Rollback(SignupError::Forbidden)
    );
    assert_eq!(
        next_action(TxStep::InsertUser, TxEvent::Failed),
        TxAction::Rollback(SignupError::Internal)
    );
    assert_eq!(
        next_action(TxStep::Begin, TxEvent::Failed),
        TxAction::Abort(SignupError::Internal)
    );
    assert_eq!(
        next_action(TxStep::Commit, TxEvent::Failed),
        TxAction::Abort(SignupError::Internal)
    );
}

#[test]
fn invite_code_has_uuid_v4_shape() {
    let mut db = Store::new();
    let code = generate_invite(&mut db).unwrap();
    let chars: Vec<char> = code.chars().collect();
    assert_eq!(chars.len(), 36);
    for (i, c) in chars.iter().enumerate() {
        if i == 8 || i == 13 || i == 18 || i == 23 {
            assert_eq!(*c, '-');
        } else {
            assert!(c.is_ascii_digit() || ('a'..='f').contains(c));
        }
    }
    assert_eq!(chars[14], '4');
    assert!(matches!(chars[19], '8' | '9' | 'a' | 'b'));
    assert_eq!(db.invites[0].code, code);
}
