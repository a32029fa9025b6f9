//! Token issuer: mints a random opaque token on successful
//! authentication and records it under the identity's token key with a
//! fixed time to live; a later issue for the same identity replaces the
//! earlier token.

use vstd::prelude::*;

verus! {

use crate::json::hex_val;
use crate::kv::{KvStore, EntryV, live_value};
use crate::repo::{get_redis_token_key, spec_token_key};

/// Seconds a token stays live in the store.
pub const TOKEN_TTL_SECS: u64 = 60;

/// The hyphenated form of a version-4 UUID: 36 characters, hyphens after
/// the 8th, 13th, 18th and 23rd, lowercase hexadecimal elsewhere, the
/// version digit `4` and a variant digit among `8`, `9`, `a`, `b`.
pub open spec fn is_uuid_shape(s: Seq<char>) -> bool {
    &&& s.len() == 36
    &&& s[8] == '-'
    &&& s[13] == '-'
    &&& s[18] == '-'
    &&& s[23] == '-'
    &&& s[14] == '4'
    &&& (s[19] == '8' || s[19] == '9' || s[19] == 'a' || s[19] == 'b')
    &&& forall|i: int|
        0 <= i < 36 && i != 8 && i != 13 && i != 18 && i != 23 ==> #[trigger] hex_val(s[i]) >= 0
}

/// Relies on uuid's `Uuid::new_v4` and its `Hyphenated` display form: a
/// random version-4 UUID (version nibble 4, variant bits `10`) written as
/// 36 characters of lowercase hexadecimal with hyphens after the 8th,
/// 13th, 18th and 23rd. Nothing is assumed about which UUID comes back.
#[verifier::external_body]
fn new_token() -> (r: String)
    ensures
        is_uuid_shape(r@),
{
    uuid::Uuid::new_v4().hyphenated().to_string()
}

/// Mints a fresh random token for `login` and records it under the token
/// key, to expire [`TOKEN_TTL_SECS`] from `now`; whatever token was there
/// before is replaced.
pub fn issue(store: &mut KvStore, now: u64, login: &str) -> (r: String)
    requires
        now <= u64::MAX - TOKEN_TTL_SECS,
    ensures
        is_uuid_shape(r@),
        final(store)@ == old(store)@.push(
            EntryV {
                key: spec_token_key(login@),
                value: r@,
                expires_at: Some((now + TOKEN_TTL_SECS) as u64),
            },
        ),
{
    let token = new_token();
    let key = get_redis_token_key(login);
    store.set_with_expiry(&key, &token, now + TOKEN_TTL_SECS);
    token
}

/// The token currently live for `login`, if any; reading neither
/// refreshes nor extends its time to live.
pub fn inspect(store: &KvStore, now: u64, login: &str) -> (r: Option<String>)
    ensures
        match r {
            Some(t) => live_value(store@, spec_token_key(login@), now) == Some(t@),
            None => live_value(store@, spec_token_key(login@), now) is None,
        },
{
    let key = get_redis_token_key(login);
    store.get(&key, now)
}

} // verus!
