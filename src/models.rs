use vstd::prelude::*;

verus! {

/// A member's standing within a team.
#[derive(Debug, Clone, Copy, PartialEq, Eq, Structural)]
pub enum TeamRole {
    Member,
    Admin,
}

impl TeamRole {
    pub open spec fn label_spec(self) -> Seq<char> {
        match self {
            TeamRole::Member => "member"@,
            TeamRole::Admin => "admin"@,
        }
    }

    /// The word under which the role is stored (`team_role` type).
    pub fn label(&self) -> (r: &'static str)
        ensures
            r@ == self.label_spec(),
    {
        proof {
            reveal_strlit("member");
            reveal_strlit("admin");
        }
        match self {
            TeamRole::Member => "member",
            TeamRole::Admin => "admin",
        }
    }
}

/// What a stored credential holds.
#[derive(Debug, Clone, Copy, PartialEq, Eq, Structural)]
pub enum SecretKind {
    Password,
    SshKey,
}

impl SecretKind {
    pub open spec fn label_spec(self) -> Seq<char> {
        match self {
            SecretKind::Password => "password"@,
            SecretKind::SshKey => "ssh_key"@,
        }
    }

    /// The word under which the kind is stored (`secret_kind` type).
    pub fn label(&self) -> (r: &'static str)
        ensures
            r@ == self.label_spec(),
    {
        proof {
            reveal_strlit("password");
            reveal_strlit("ssh_key");
        }
        match self {
            SecretKind::Password => "password",
            SecretKind::SshKey => "ssh_key",
        }
    }
}

/// A registered account. Identifiers are the 128-bit value of a UUID;
/// timestamps are seconds since the Unix epoch. All key material is
/// opaque client-produced bytes.
#[derive(Debug, Clone)]
pub struct User {
    pub id: u128,
    pub email: String,
    pub name: String,
    pub password_hash: Vec<u8>,
    pub password_salt: Vec<u8>,
    pub public_key: Vec<u8>,
    pub encrypted_private_key: Vec<u8>,
    pub private_key_nonce: Vec<u8>,
    pub created_at: i64,
}

/// A team; every user owns exactly one personal team.
#[derive(Debug, Clone)]
pub struct Team {
    pub id: u128,
    pub name: String,
    pub is_personal: bool,
    pub created_at: i64,
}

/// Membership of a user in a team.
#[derive(Debug, Clone, Copy, PartialEq, Eq, Structural)]
pub struct TeamMember {
    pub team_id: u128,
    pub user_id: u128,
    pub role: TeamRole,
}

/// A team's symmetric key, wrapped for one user.
#[derive(Debug, Clone)]
pub struct TeamKeyAccess {
    pub team_id: u128,
    pub user_id: u128,
    pub encrypted_team_key: Vec<u8>,
    pub nonce: Vec<u8>,
}

/// An encrypted secret owned by a team.
#[derive(Debug, Clone)]
pub struct Credential {
    pub id: u128,
    pub team_id: u128,
    pub title: String,
    pub hostname: String,
    pub username: String,
    pub kind: SecretKind,
    pub public_key: Option<String>,
    pub encrypted_secret: Vec<u8>,
    pub nonce: Vec<u8>,
    pub created_at: i64,
}

/// A single-use registration token.
#[derive(Debug, Clone)]
pub struct InviteCode {
    pub id: u128,
    pub code: String,
    pub is_used: bool,
}

} // verus!
