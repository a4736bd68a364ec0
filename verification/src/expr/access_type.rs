//! The methods by which access is granted.

use vstd::prelude::*;
use crate::expr::algorithm::Algorithm;
use crate::val::Value;

verus! {

/// A key that verifies tokens, and the algorithm that it is for.
#[derive(Clone, Debug, PartialEq, Eq)]
pub struct JwtAccessVerifyKey {
    pub alg: Algorithm,
    pub key: String,
}

/// The address of a set of keys that verify tokens.
#[derive(Clone, Debug, PartialEq, Eq)]
pub struct JwtAccessVerifyJwks {
    pub url: String,
}

/// How tokens are verified.
#[derive(Clone, Debug, PartialEq, Eq)]
pub enum JwtAccessVerify {
    Key(JwtAccessVerifyKey),
    Jwks(JwtAccessVerifyJwks),
}

/// A key that signs tokens, and the algorithm that it is for.
#[derive(Clone, Debug, PartialEq, Eq)]
pub struct JwtAccessIssue {
    pub alg: Algorithm,
    pub key: String,
}

/// Access by token: how tokens are verified and, where tokens are issued,
/// how they are signed.
#[derive(Clone, Debug, PartialEq, Eq)]
pub struct JwtAccess {
    pub verify: JwtAccessVerify,
    pub issue: Option<JwtAccessIssue>,
}

/// The kinds of bearer key.
#[derive(Clone, Copy, Debug, PartialEq, Eq, Structural)]
pub enum BearerAccessType {
    Bearer,
    Refresh,
}

/// Whom a bearer key stands for.
#[derive(Clone, Copy, Debug, PartialEq, Eq, Structural)]
pub enum BearerAccessSubject {
    Record,
    User,
}

/// Access by bearer key.
#[derive(Clone, Debug, PartialEq, Eq)]
pub struct BearerAccess {
    pub kind: BearerAccessType,
    pub subject: BearerAccessSubject,
    pub jwt: JwtAccess,
}

/// Access as a record of the database.
#[derive(Debug, PartialEq, Eq)]
pub struct RecordAccess {
    pub signup: Option<Value>,
    pub signin: Option<Value>,
    pub jwt: JwtAccess,
    pub bearer: Option<BearerAccess>,
}

/// The method by which access is granted.
#[derive(Debug, PartialEq, Eq)]
pub enum AccessType {
    Record(RecordAccess),
    Jwt(JwtAccess),
    Bearer(BearerAccess),
}

/// How long a grant, a token and a session last, in seconds; `None` where
/// they last for ever.
#[derive(Clone, Copy, Debug, PartialEq, Eq, Structural)]
pub struct AccessDuration {
    pub grant: Option<u64>,
    pub token: Option<u64>,
    pub session: Option<u64>,
}

impl AccessDuration {
    /// The durations of an access method for which none are said: a grant
    /// lasts for thirty days, a token for an hour, a session for ever.
    pub fn default() -> (r: AccessDuration)
        ensures
            r == (AccessDuration { grant: Some(2592000), token: Some(3600), session: None }),
    {
        AccessDuration { grant: Some(2592000), token: Some(3600), session: None }
    }
}

} // verus!
