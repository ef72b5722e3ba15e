//! The people who vote: their records, and how a record gets its keys.

use vstd::prelude::*;
use crate::auth::{
    hash_password, issue_admin_token, issue_user_token, password_matches, token_of,
    verify_password, ADMIN_CLAIM, ADMIN_SECRET, USER_CLAIM, USER_SECRET,
};
use crate::keys::{
    address_of, all_zero, credential_seed, ed25519_public_key, generate_keys,
};
use crate::transaction::{clone_opt_string, opt_view};

verus! {

/// A refusal in the handling of users, with the message for the caller.
#[derive(Debug)]
pub enum UserError {
    /// The request is not acceptable as it stands.
    ValidationError { content: String },
    /// A fault that is not the caller's.
    InternalError { content: String },
}

impl UserError {
    /// The message of the refusal.
    pub open spec fn content(self) -> Seq<char> {
        match self {
            UserError::ValidationError { content } => content@,
            UserError::InternalError { content } => content@,
        }
    }

    /// The message of the refusal.
    pub fn message(&self) -> (out: String)
        ensures
            out@ == self.content(),
    {
        match self {
            UserError::ValidationError { content } => content.clone(),
            UserError::InternalError { content } => content.clone(),
        }
    }

    /// The HTTP status that answers this refusal: 400 for a request that
    /// is not acceptable, 500 for an internal fault.
    pub fn status_code(&self) -> (code: u16)
        ensures
            code == match self {
                UserError::ValidationError { .. } => 400u16,
                UserError::InternalError { .. } => 500u16,
            },
    {
        match self {
            UserError::ValidationError { .. } => 400,
            UserError::InternalError { .. } => 500,
        }
    }
}

/// A registered person. `public_key` is the person's address on a ledger,
/// once the record is enrolled.
#[derive(Debug)]
pub struct User {
    pub name: String,
    pub reg_no: String,
    pub password: String,
    pub email: String,
    pub department: String,
    pub facaulty: String,
    pub public_key: Option<String>,
}

/// An administrator.
#[derive(Debug)]
pub struct Admin {
    pub username: String,
    pub password: String,
}

/// What a user sends to log in.
#[derive(Debug)]
pub struct UserLoginDTO {
    pub reg_no: String,
    pub password: String,
}

/// What an administrator sends to log in.
#[derive(Debug)]
pub struct AdminLoginDTO {
    pub username: String,
    pub password: String,
}

/// The address of the voter with these credentials.
pub open spec fn voter_address(password: Seq<char>, reg_no: Seq<char>) -> Seq<char> {
    address_of(ed25519_public_key(credential_seed(password, reg_no)))
}

/// What a login that is not granted is refused with: nothing.
pub open spec fn msg_login_refused() -> Seq<char> {
    ""@
}

/// Whether `r` refuses a login.
pub open spec fn is_login_refusal(r: Result<String, UserError>) -> bool {
    r matches Err(UserError::InternalError { content }) && content@ == msg_login_refused()
}

/// What a login comes to: the token, where somebody was found, the
/// password matched and a token could be made; a refusal in every other
/// case.
pub open spec fn login_outcome(found: bool, password_ok: bool, token: Option<Seq<char>>) -> Option<
    Seq<char>,
> {
    if found && password_ok {
        token
    } else {
        None
    }
}

/// Whether `r` is the login outcome `expected`.
pub open spec fn is_login_outcome(r: Result<String, UserError>, expected: Option<Seq<char>>)
    -> bool {
    match expected {
        Some(token) => r matches Ok(t) && t@ == token,
        None => is_login_refusal(r),
    }
}

/// Grants or refuses a login from what was found out.
pub fn grant_login(found: bool, password_ok: bool, token: Option<String>) -> (r: Result<
    String,
    UserError,
>)
    ensures
        is_login_outcome(r, login_outcome(found, password_ok, opt_view(token))),
{
    if found && password_ok {
        match token {
            Some(t) => Ok(t),
            None => Err(UserError::InternalError { content: "".to_owned() }),
        }
    } else {
        Err(UserError::InternalError { content: "".to_owned() })
    }
}

/// Logs a user in: the token of the registration number in `data`, where
/// the lookup found a user whose stored hash matches the password.
pub fn login_user(found: &Option<User>, data: &UserLoginDTO) -> (r: Result<String, UserError>)
    ensures
        is_login_outcome(
            r,
            login_outcome(
                found is Some,
                found matches Some(known) && password_matches(data.password@, known.password@),
                token_of(USER_SECRET@, USER_CLAIM@, data.reg_no@),
            ),
        ),
{
    match found {
        Some(user) => {
            let password_ok = verify_password(data.password.as_str(), user.password.as_str());
            grant_login(true, password_ok, issue_user_token(data.reg_no.as_str()))
        },
        None => grant_login(false, false, None),
    }
}

/// Logs an administrator in: the token of the user name in `data`, where
/// the lookup found an administrator whose stored hash matches the
/// password.
pub fn login_admin(found: &Option<Admin>, data: &AdminLoginDTO) -> (r: Result<String, UserError>)
    ensures
        is_login_outcome(
            r,
            login_outcome(
                found is Some,
                found matches Some(known) && password_matches(data.password@, known.password@),
                token_of(ADMIN_SECRET@, ADMIN_CLAIM@, data.username@),
            ),
        ),
{
    match found {
        Some(admin) => {
            let password_ok = verify_password(data.password.as_str(), admin.password.as_str());
            grant_login(true, password_ok, issue_admin_token(data.username.as_str()))
        },
        None => grant_login(false, false, None),
    }
}

impl Clone for User {
    fn clone(&self) -> (out: User)
        ensures
            out.name@ == self.name@,
            out.reg_no@ == self.reg_no@,
            out.password@ == self.password@,
            out.email@ == self.email@,
            out.department@ == self.department@,
            out.facaulty@ == self.facaulty@,
            opt_view(out.public_key) == opt_view(self.public_key),
    {
        User {
            name: self.name.clone(),
            reg_no: self.reg_no.clone(),
            password: self.password.clone(),
            email: self.email.clone(),
            department: self.department.clone(),
            facaulty: self.facaulty.clone(),
            public_key: clone_opt_string(&self.public_key),
        }
    }
}

impl User {
    /// The record as it is stored at sign-up: the password is replaced by
    /// a fresh hash of it, which matches the password, and the address of
    /// the key pair that the password and the registration number give is
    /// entered. There is none where no hash or no key pair can be made.
    pub fn sign_up(self) -> (r: Option<User>)
        ensures
            match r {
                Some(user) => {
                    &&& !all_zero(credential_seed(self.password@, self.reg_no@))
                    &&& password_matches(self.password@, user.password@)
                    &&& user.public_key matches Some(address)
                    &&& address@ == voter_address(self.password@, self.reg_no@)
                    &&& user.name@ == self.name@
                    &&& user.reg_no@ == self.reg_no@
                    &&& user.email@ == self.email@
                    &&& user.department@ == self.department@
                    &&& user.facaulty@ == self.facaulty@
                },
                None => true,
            },
            all_zero(credential_seed(self.password@, self.reg_no@)) ==> r is None,
    {
        match hash_password(self.password.as_str()) {
            Some(hashed_password) => self.enrolled(hashed_password),
            None => None,
        }
    }

    /// The record as it is stored at sign-up: the address of the key pair
    /// that the password and the registration number give is entered, and
    /// the password is replaced by its hash. There is no such record where
    /// the credentials give no key pair.
    pub fn enrolled(self, hashed_password: String) -> (r: Option<User>)
        ensures
            match r {
                Some(user) => {
                    &&& !all_zero(credential_seed(self.password@, self.reg_no@))
                    &&& user.public_key matches Some(address)
                    &&& address@ == voter_address(self.password@, self.reg_no@)
                    &&& user.password@ == hashed_password@
                    &&& user.name@ == self.name@
                    &&& user.reg_no@ == self.reg_no@
                    &&& user.email@ == self.email@
                    &&& user.department@ == self.department@
                    &&& user.facaulty@ == self.facaulty@
                },
                None => all_zero(credential_seed(self.password@, self.reg_no@)),
            },
    {
        match generate_keys(&self.password, &self.reg_no) {
            Some(pair) => {
                let address = pair.pk.to_address();
                Some(
                    User {
                        name: self.name,
                        reg_no: self.reg_no,
                        password: hashed_password,
                        email: self.email,
                        department: self.department,
                        facaulty: self.facaulty,
                        public_key: Some(address),
                    },
                )
            },
            None => None,
        }
    }
}

} // verus!
