use vstd::prelude::*;
use crate::codec::{base64_bytes, decode_field};

verus! {

/// Why a signup did not create an account.
#[derive(Debug, Clone, Copy, PartialEq, Eq, Structural)]
pub enum SignupError {
    /// A binary field is not valid Base64; nothing was written.
    BadRequest,
    /// The invite code is unknown or already used; nothing was written.
    Forbidden,
    /// The store refused a write; everything was rolled back.
    Internal,
}

/// A signup request as it arrives: binary fields still as Base64 text.
#[derive(Debug, Clone)]
pub struct SignupForm {
    pub invite_code: String,
    pub email: String,
    pub name: String,
    pub password_hash: String,
    pub password_salt: String,
    pub public_key: String,
    pub encrypted_private_key: String,
    pub private_key_nonce: String,
    pub wrapped_personal_key: String,
    pub personal_key_nonce: String,
}

/// A signup request with its binary fields decoded.
#[derive(Debug, Clone)]
pub struct RegisterRequest {
    /// The single-use code that allows registration.
    pub invite_code: String,
    pub email: String,
    pub name: String,
    pub password_hash: Vec<u8>,
    pub password_salt: Vec<u8>,
    pub public_key: Vec<u8>,
    /// The private key, encrypted under a key derived from the password.
    pub encrypted_private_key: Vec<u8>,
    pub private_key_nonce: Vec<u8>,
    /// The personal team's key, wrapped for this user.
    pub wrapped_personal_key: Vec<u8>,
    pub personal_key_nonce: Vec<u8>,
}

/// A request that names an invite code.
#[derive(Debug, Clone)]
pub struct InviteRequest {
    pub code: String,
}

impl SignupForm {
    /// Every binary field is valid standard Base64.
    pub open spec fn well_formed(&self) -> bool {
        &&& base64_bytes(self.password_hash@) is Some
        &&& base64_bytes(self.password_salt@) is Some
        &&& base64_bytes(self.public_key@) is Some
        &&& base64_bytes(self.encrypted_private_key@) is Some
        &&& base64_bytes(self.private_key_nonce@) is Some
        &&& base64_bytes(self.wrapped_personal_key@) is Some
        &&& base64_bytes(self.personal_key_nonce@) is Some
    }
}

impl RegisterRequest {
    /// `self` is what `f` decodes to.
    pub open spec fn decodes(&self, f: &SignupForm) -> bool {
        &&& self.invite_code@ == f.invite_code@
        &&& self.email@ == f.email@
        &&& self.name@ == f.name@
        &&& base64_bytes(f.password_hash@) == Some(self.password_hash@)
        &&& base64_bytes(f.password_salt@) == Some(self.password_salt@)
        &&& base64_bytes(f.public_key@) == Some(self.public_key@)
        &&& base64_bytes(f.encrypted_private_key@) == Some(self.encrypted_private_key@)
        &&& base64_bytes(f.private_key_nonce@) == Some(self.private_key_nonce@)
        &&& base64_bytes(f.wrapped_personal_key@) == Some(self.wrapped_personal_key@)
        &&& base64_bytes(f.personal_key_nonce@) == Some(self.personal_key_nonce@)
    }

    /// Decodes the binary fields of a form; `BadRequest` exactly where one of
    /// them is not valid Base64.
    pub fn from_form(f: &SignupForm) -> (r: Result<RegisterRequest, SignupError>)
        ensures
            f.well_formed() <==> r is Ok,
            r is Err ==> r == Err::<RegisterRequest, SignupError>(SignupError::BadRequest),
            r matches Ok(req) ==> req.decodes(f),
    {
        let password_hash = match decode_field(&f.password_hash) {
            Some(v) => v,
            None => return Err(SignupError::BadRequest),
        };
        let password_salt = match decode_field(&f.password_salt) {
            Some(v) => v,
            None => return Err(SignupError::BadRequest),
        };
        let public_key = match decode_field(&f.public_key) {
            Some(v) => v,
            None => return Err(SignupError::BadRequest),
        };
        let encrypted_private_key = match decode_field(&f.encrypted_private_key) {
            Some(v) => v,
            None => return Err(SignupError::BadRequest),
        };
        let private_key_nonce = match decode_field(&f.private_key_nonce) {
            Some(v) => v,
            None => return Err(SignupError::BadRequest),
        };
        let wrapped_personal_key = match decode_field(&f.wrapped_personal_key) {
            Some(v) => v,
            None => return Err(SignupError::BadRequest),
        };
        let personal_key_nonce = match decode_field(&f.personal_key_nonce) {
            Some(v) => v,
            None => return Err(SignupError::BadRequest),
        };
        Ok(RegisterRequest {
            invite_code: f.invite_code.clone(),
            email: f.email.clone(),
            name: f.name.clone(),
            password_hash,
            password_salt,
            public_key,
            encrypted_private_key,
            private_key_nonce,
            wrapped_personal_key,
            personal_key_nonce,
        })
    }
}

} // verus!
