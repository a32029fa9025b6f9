//! Decoding of the store's wire replies.
//!
//! A deployment reaches the store over a wire protocol whose raw reply
//! values arrive as one of a few shapes. Each operation's reply is decoded
//! here, once, into a closed set of outcomes, so that everything upstream
//! matches on a small fixed enum instead of raw protocol values. A reply
//! shape an operation never produces is an error, never coerced to a
//! default.

use vstd::prelude::*;

verus! {

/// A raw reply value from the store's wire protocol, reduced to the
/// shapes the service inspects; anything else arrives as `Other`.
#[derive(Debug)]
pub enum WireValue {
    /// The null reply: no value under the key.
    Nil,
    /// An integer reply.
    Integer(i64),
    /// A status-line reply such as `OK`.
    Simple(String),
    /// A bulk payload reply, carrying a stored value.
    Bulk(String),
    /// Any reply shape the service has no business receiving.
    Other,
}

/// What can go wrong adding an account through the wire.
#[derive(Debug)]
pub enum AddAccountError {
    /// The store answered with a shape the insert never produces.
    UnexpectedResp(WireValue),
}

impl AddAccountError {
    /// A short description of the error.
    pub fn describe(&self) -> (r: &'static str)
        ensures
            r@ == "unexpected response from the store"@,
    {
        "unexpected response from the store"
    }
}

/// What can go wrong reading an account or issuing a token.
#[derive(Debug)]
pub enum GetTokenError {
    /// A present record did not parse as an account: data corruption,
    /// distinct from the record being absent.
    DeserializationError,
    /// The store answered with a shape the operation never produces.
    UnexpectedResp(WireValue),
}

impl GetTokenError {
    /// A short description of the error.
    pub fn describe(&self) -> (r: &'static str)
        ensures
            self is DeserializationError ==> r@ == "stored account record is corrupt"@,
            self is UnexpectedResp ==> r@ == "unexpected response from the store"@,
    {
        match self {
            GetTokenError::DeserializationError => "stored account record is corrupt",
            GetTokenError::UnexpectedResp(_) => "unexpected response from the store",
        }
    }
}

/// The insert-if-absent reply: the store answers 1 when this call created
/// the record and 0 when one already existed; anything else is an error,
/// never treated as "already present".
pub fn decode_insert_reply(v: WireValue) -> (r: Result<bool, AddAccountError>)
    ensures
        match v {
            WireValue::Integer(n) => {
                if n == 1 { r == Ok::<bool, AddAccountError>(true) }
                else if n == 0 { r == Ok::<bool, AddAccountError>(false) }
                else { r == Err::<bool, AddAccountError>(AddAccountError::UnexpectedResp(v)) }
            },
            _ => r == Err::<bool, AddAccountError>(AddAccountError::UnexpectedResp(v)),
        },
{
    match v {
        WireValue::Integer(n) => {
            if n == 1 { Ok(true) }
            else if n == 0 { Ok(false) }
            else { Err(AddAccountError::UnexpectedResp(WireValue::Integer(n))) }
        },
        other => Err(AddAccountError::UnexpectedResp(other)),
    }
}

/// The get reply: null means the key is absent, a bulk payload carries the
/// value; anything else is an error, never treated as "absent".
pub fn decode_get_reply(v: WireValue) -> (r: Result<Option<String>, GetTokenError>)
    ensures
        match v {
            WireValue::Nil => r == Ok::<Option<String>, GetTokenError>(None),
            WireValue::Bulk(s) => r matches Ok(Some(out)) && out == s,
            _ => r == Err::<Option<String>, GetTokenError>(GetTokenError::UnexpectedResp(v)),
        },
{
    match v {
        WireValue::Nil => Ok(None),
        WireValue::Bulk(s) => Ok(Some(s)),
        other => Err(GetTokenError::UnexpectedResp(other)),
    }
}

/// The set-with-expiry reply: a status line acknowledges the write;
/// anything else is an error.
pub fn decode_set_reply(v: WireValue) -> (r: Result<(), GetTokenError>)
    ensures
        match v {
            WireValue::Simple(_) => r is Ok,
            _ => r == Err::<(), GetTokenError>(GetTokenError::UnexpectedResp(v)),
        },
{
    match v {
        WireValue::Simple(_) => Ok(()),
        other => Err(GetTokenError::UnexpectedResp(other)),
    }
}

} // verus!
