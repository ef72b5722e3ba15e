//! Passwords and session tokens.
//!
//! A session token carries one claim, signed with a secret of the service:
//! a user's token the registration number, an administrator's the user
//! name. The `bcrypt` and `jwt` crates hash and sign; their results are
//! named here, not defined.

use vstd::prelude::*;
use hmac::{Hmac, Mac};
use jwt::{SignWithKey, VerifyWithKey};
use sha2::Sha256;
use std::collections::BTreeMap;
use crate::transaction::opt_view;

verus! {

/// The secret that signs the tokens of users.
pub const USER_SECRET: &'static str = "USER_SECRETE";

/// The secret that signs the tokens of administrators.
pub const ADMIN_SECRET: &'static str = "ADMIN_SECRETE";

/// The claim of a user's token.
pub const USER_CLAIM: &'static str = "reg_no";

/// The claim of an administrator's token.
pub const ADMIN_CLAIM: &'static str = "username";

/// The token that carries the claim `name` with `value`, signed with
/// `secret`, if one can be made.
pub uninterp spec fn token_of(secret: Seq<char>, name: Seq<char>, value: Seq<char>) -> Option<
    Seq<char>,
>;

/// The claims of `token`, sorted by name, if `secret` signed it.
pub uninterp spec fn claims_of(secret: Seq<char>, token: Seq<char>) -> Option<
    Seq<(Seq<char>, Seq<char>)>,
>;

/// Whether `hash` is a bcrypt hash of `password`.
pub uninterp spec fn password_matches(password: Seq<char>, hash: Seq<char>) -> bool;

/// What each claim of a sequence holds.
pub open spec fn claim_views(claims: Seq<(String, String)>) -> Seq<(Seq<char>, Seq<char>)> {
    claims.map_values(|c: (String, String)| (c.0@, c.1@))
}

/// What optional claims hold.
pub open spec fn opt_claim_views(claims: Option<Vec<(String, String)>>) -> Option<
    Seq<(Seq<char>, Seq<char>)>,
> {
    match claims {
        Some(c) => Some(claim_views(c@)),
        None => None,
    }
}

/// `sign_with_key` of the `jwt` crate on a map of one claim, with an
/// HMAC-SHA256 key made from the secret: the token depends on secret, name
/// and value alone. It is named, not defined.
#[verifier::external_body]
fn sign_claim(secret: &str, name: &str, value: &str) -> (token: Option<String>)
    ensures
        opt_view(token) == token_of(secret@, name@, value@),
{
    let key: Hmac<Sha256> = Mac::new_from_slice(secret.as_bytes()).ok()?;
    let mut claims: BTreeMap<String, String> = BTreeMap::new();
    claims.insert(name.to_string(), value.to_string());
    claims.sign_with_key(&key).ok()
}

/// `verify_with_key` of the `jwt` crate for a map of claims, with an
/// HMAC-SHA256 key made from the secret: the claims in the map's order,
/// or nothing where the token is malformed or another key signed it. The
/// answer is named, not defined.
#[verifier::external_body]
fn verified_claims(secret: &str, token: &str) -> (claims: Option<Vec<(String, String)>>)
    ensures
        opt_claim_views(claims) == claims_of(secret@, token@),
{
    let key: Hmac<Sha256> = Mac::new_from_slice(secret.as_bytes()).ok()?;
    let claims: BTreeMap<String, String> = token.verify_with_key(&key).ok()?;
    Some(claims.into_iter().collect())
}

/// `bcrypt::hash` with cost 10. The salt is random, so two calls differ,
/// and the call fails where the system gives no random bytes. Whatever
/// the salt, the hash is one that `bcrypt::verify` accepts for the same
/// password: it is written in the form that `verify` reads, and `verify`
/// computes it again from the salt in it.
#[verifier::external_body]
fn bcrypt_hash(password: &str) -> (hash: Option<String>)
    ensures
        hash matches Some(h) ==> password_matches(password@, h@),
{
    bcrypt::hash(password, 10).ok()
}

/// `bcrypt::verify`: whether it answers that the hash is one of the
/// password. The answer is named, not defined.
#[verifier::external_body]
fn bcrypt_verify(password: &str, hash: &str) -> (ok: bool)
    ensures
        ok == password_matches(password@, hash@),
{
    matches!(bcrypt::verify(password, hash), Ok(true))
}

/// A hash of the password to store in its place, if one can be made: a
/// text that `verify_password` accepts for this password. Two hashes of
/// one password differ.
pub fn hash_password(password: &str) -> (hash: Option<String>)
    ensures
        hash matches Some(h) ==> password_matches(password@, h@),
{
    bcrypt_hash(password)
}

/// Whether `hash` is a hash of `password`.
pub fn verify_password(password: &str, hash: &str) -> (ok: bool)
    ensures
        ok == password_matches(password@, hash@),
{
    bcrypt_verify(password, hash)
}

/// The value of the first claim called `name`, if there is one.
pub open spec fn claim_value(claims: Seq<(Seq<char>, Seq<char>)>, name: Seq<char>) -> Option<
    Seq<char>,
>
    decreases claims.len(),
{
    if claims.len() == 0 {
        None
    } else if claims[0].0 == name {
        Some(claims[0].1)
    } else {
        claim_value(claims.skip(1), name)
    }
}

/// Whom a token speaks for: the value of the claim `name`, where the token
/// was accepted and carries that claim.
pub open spec fn subject(claims: Option<Seq<(Seq<char>, Seq<char>)>>, name: Seq<char>) -> Option<
    Seq<char>,
> {
    match claims {
        Some(c) => claim_value(c, name),
        None => None,
    }
}

/// The value of the first claim called `name`, if there is one.
pub fn find_claim(claims: &Vec<(String, String)>, name: &str) -> (value: Option<String>)
    ensures
        opt_view(value) == claim_value(claim_views(claims@), name@),
{
    let wanted = name.to_owned();
    let ghost all = claim_views(claims@);
    let mut i: usize = 0;
    assert(all.skip(0) =~= all);
    while i < claims.len()
        invariant
            i <= claims.len(),
            all == claim_views(claims@),
            wanted@ == name@,
            claim_value(all, name@) == claim_value(all.skip(i as int), name@),
        decreases claims.len() - i,
    {
        assert(all.skip(i as int)[0] == all[i as int]);
        assert(all.skip(i as int).skip(1) =~= all.skip(i + 1));
        if claims[i].0 == wanted {
            return Some(claims[i].1.clone());
        }
        i += 1;
    }
    None
}

/// What the check of a token reports from the claims that were read: that
/// the token is good, and whom it speaks for; or that it is not.
pub fn token_verdict(claims: &Option<Vec<(String, String)>>, name: &str) -> (r: (
    bool,
    Option<String>,
))
    ensures
        opt_view(r.1) == subject(opt_claim_views(*claims), name@),
        r.0 == r.1 is Some,
{
    match claims {
        Some(c) => match find_claim(c, name) {
            Some(value) => (true, Some(value)),
            None => (false, None),
        },
        None => (false, None),
    }
}

/// Checks a user's token: whether it is good, and the registration number
/// that it carries.
pub fn validate_user_token(token: &str) -> (r: (bool, Option<String>))
    ensures
        opt_view(r.1) == subject(claims_of(USER_SECRET@, token@), USER_CLAIM@),
        r.0 == r.1 is Some,
{
    token_verdict(&verified_claims(USER_SECRET, token), USER_CLAIM)
}

/// Checks an administrator's token: whether it is good, and the user name
/// that it carries.
pub fn validate_admin_token(token: &str) -> (r: (bool, Option<String>))
    ensures
        opt_view(r.1) == subject(claims_of(ADMIN_SECRET@, token@), ADMIN_CLAIM@),
        r.0 == r.1 is Some,
{
    token_verdict(&verified_claims(ADMIN_SECRET, token), ADMIN_CLAIM)
}

/// The token of the user with this registration number.
pub fn issue_user_token(reg_no: &str) -> (token: Option<String>)
    ensures
        opt_view(token) == token_of(USER_SECRET@, USER_CLAIM@, reg_no@),
{
    sign_claim(USER_SECRET, USER_CLAIM, reg_no)
}

/// The token of the administrator with this user name.
pub fn issue_admin_token(username: &str) -> (token: Option<String>)
    ensures
        opt_view(token) == token_of(ADMIN_SECRET@, ADMIN_CLAIM@, username@),
{
    sign_claim(ADMIN_SECRET, ADMIN_CLAIM, username)
}

} // verus!
