//! Account repository: key layout, record round trip, and
//! create-if-absent.
//!
//! Accounts live under `accounts:<identity>`, tokens under
//! `tokens:<identity>`; both prefixes must be kept stable so that other
//! readers of the same store find the records. Creation serializes the
//! account and claims its key atomically; lookup fetches and parses it
//! back, keeping "absent" and "present but corrupt" strictly apart.

use vstd::prelude::*;

verus! {

use crate::codec::Secret;
use crate::json::{account_to_json, account_from_json, spec_account_json, spec_parse_account};
use crate::kv::{KvStore, EntryV, live_value};
use crate::wire::GetTokenError;

/// An account: a unique identity and the salted-hash secret it
/// registered with. Created once, immutable thereafter.
pub struct Account {
    pub login: String,
    pub secret: Secret,
}

/// The key under which the account record for `login` is stored.
pub open spec fn spec_account_key(login: Seq<char>) -> Seq<char> {
    seq!['a', 'c', 'c', 'o', 'u', 'n', 't', 's', ':'] + login
}

/// The key under which the live token for `login` is stored.
pub open spec fn spec_token_key(login: Seq<char>) -> Seq<char> {
    seq!['t', 'o', 'k', 'e', 'n', 's', ':'] + login
}

/// Builds the store key `accounts:<login>` for an account record.
pub fn get_redis_account_key(login: &str) -> (r: String)
    ensures
        r@ == spec_account_key(login@),
{
    let mut key = String::from_str("accounts:");
    proof {
        reveal_strlit("accounts:");
        assert(key@ =~= seq!['a', 'c', 'c', 'o', 'u', 'n', 't', 's', ':']);
    }
    key.append(login);
    key
}

/// Builds the store key `tokens:<login>` for a token record.
pub fn get_redis_token_key(login: &str) -> (r: String)
    ensures
        r@ == spec_token_key(login@),
{
    let mut key = String::from_str("tokens:");
    proof {
        reveal_strlit("tokens:");
        assert(key@ =~= seq!['t', 'o', 'k', 'e', 'n', 's', ':']);
    }
    key.append(login);
    key
}

/// Creates the account record for `login` if and only if no live record
/// is under its key: true when this call created it, false when one
/// already existed, in which case nothing is overwritten.
pub fn create(store: &mut KvStore, now: u64, login: &str, secret: &Secret) -> (r: bool)
    ensures
        r == (live_value(old(store)@, spec_account_key(login@), now) is None),
        r ==> final(store)@ == old(store)@.push(
            EntryV {
                key: spec_account_key(login@),
                value: spec_account_json(login@, secret.hash@, secret.salt@),
                expires_at: None,
            },
        ),
        !r ==> final(store)@ == old(store)@,
{
    let key = get_redis_account_key(login);
    let json = account_to_json(login, secret);
    store.insert_if_absent(&key, &json, now)
}

/// Fetches and parses the account record for `login`: the login and
/// secret it was written from, `None` when no live record is there, and a
/// distinct corruption error when a present record does not parse.
pub fn lookup(store: &KvStore, now: u64, login: &str) -> (r: Result<
    Option<Account>,
    GetTokenError,
>)
    ensures
        match live_value(store@, spec_account_key(login@), now) {
            None => r matches Ok(o) && o is None,
            Some(text) => match spec_parse_account(text) {
                Some(rec) => r matches Ok(o) && o matches Some(a) && a.login@ == rec.0
                    && a.secret.hash@ == rec.1 && a.secret.salt@ == rec.2,
                None => r matches Err(e) && e is DeserializationError,
            },
        },
{
    let key = get_redis_account_key(login);
    match store.get(&key, now) {
        None => Ok(None),
        Some(text) => match account_from_json(text.as_str()) {
            Some(p) => Ok(Some(Account { login: p.0, secret: p.1 })),
            None => Err(GetTokenError::DeserializationError),
        },
    }
}

} // verus!
