//! The auth service: registration, authentication, their
//! externally-resolved variants, and token inspection. These are the only
//! entry points the surrounding request layer consumes.
//!
//! Every operation takes the store and the current instant explicitly;
//! cross-request coordination rests entirely on the store's atomic
//! insert-if-absent.

use vstd::prelude::*;

verus! {

use crate::codec::{Secret, sha256_pair};
use crate::json::spec_parse_account;
use crate::kv::{KvStore, EntryV, live_value, lemma_find_push};
use crate::repo::{create, lookup, spec_account_key, spec_token_key};
use crate::token::{issue, inspect, is_uuid_shape, TOKEN_TTL_SECS};
use crate::wire::GetTokenError;

/// The outcome of a registration.
pub enum SignupResponse {
    /// This call created the account.
    Created,
    /// An account already existed under the identity; nothing was written.
    UserAlreadyExists(String),
}

/// The outcome of an authentication attempt.
pub enum GetTokenResult {
    /// No such account, or the secret did not verify; the two are one
    /// result variant shape on purpose.
    InvalidCredentials(String),
    /// The secret verified; a fresh token was issued.
    Token(String),
}

/// The outcome of an externally-resolved registration.
pub enum ExternalSignupResponse {
    /// The external resolver did not recognise the presented token; the
    /// store was not touched.
    NotResolvable,
    /// This call created the account.
    Created,
    /// An account already existed under the resolved identity.
    UserAlreadyExists(String),
}

/// The outcome of an externally-resolved authentication.
pub enum ExternalAuthResult {
    /// The external resolver did not recognise the presented token.
    NotResolvable,
    /// No account under the resolved identity, or its secret is not the
    /// empty one external accounts carry.
    InvalidCredentials(String),
    /// A fresh token was issued for the resolved identity.
    Token(String),
}

/// The account record under `login` is live, parses, and its hash is the
/// salted hash of `secret` under the record's own salt.
pub open spec fn spec_credentials_ok(
    s: Seq<EntryV>,
    login: Seq<char>,
    secret: Seq<char>,
    now: u64,
) -> bool {
    match live_value(s, spec_account_key(login), now) {
        Some(text) => match spec_parse_account(text) {
            Some(rec) => rec.1 == sha256_pair(secret, rec.2),
            None => false,
        },
        None => false,
    }
}

/// A record is live under `login` but does not parse as an account.
pub open spec fn spec_record_corrupt(s: Seq<EntryV>, login: Seq<char>, now: u64) -> bool {
    match live_value(s, spec_account_key(login), now) {
        Some(text) => spec_parse_account(text) is None,
        None => false,
    }
}

/// Registration: encodes the supplied secret into a fresh salted hash and
/// creates the account if and only if the identity is free. An existing
/// account is reported, never overwritten; on creation the appended
/// record parses back to this login with a hash that is exactly the
/// salted hash of this secret.
pub fn register(
    store: &mut KvStore,
    rng: &mut rand::rngs::StdRng,
    now: u64,
    login: &str,
    secret: &str,
) -> (r: SignupResponse)
    ensures
        (r is Created) == (live_value(old(store)@, spec_account_key(login@), now) is None),
        r matches SignupResponse::UserAlreadyExists(l) ==> l@ == login@ && final(store)@ == old(store)@,
        r is Created ==> {
            &&& final(store)@ == old(store)@.push(final(store)@.last())
            &&& final(store)@.len() == old(store)@.len() + 1
            &&& final(store)@.last().key == spec_account_key(login@)
            &&& final(store)@.last().expires_at is None
            &&& spec_parse_account(final(store)@.last().value) matches Some(rec) && rec.0 == login@
                && rec.1 == sha256_pair(secret@, rec.2) && rec.2.len() == 32
        },
{
    let s = Secret::encode(rng, secret);
    let created = create(store, now, login, &s);
    if created {
        proof {
            crate::json::lemma_parse_account_roundtrip(login@, s.hash@, s.salt@);
        }
        SignupResponse::Created
    } else {
        SignupResponse::UserAlreadyExists(login.to_owned())
    }
}

/// Authentication: looks the account up, verifies the supplied secret
/// against the stored salted hash, and on success issues a fresh token
/// under the identity's token key. A missing account and a wrong secret
/// both come back as invalid credentials; a live record that does not
/// parse is a distinct corruption error. Only a successful attempt
/// writes to the store.
pub fn authenticate(store: &mut KvStore, now: u64, login: &str, secret: &str) -> (r: Result<
    GetTokenResult,
    GetTokenError,
>)
    requires
        now <= u64::MAX - TOKEN_TTL_SECS,
    ensures
        spec_record_corrupt(old(store)@, login@, now) ==> (r matches Err(e) && e
            is DeserializationError) && final(store)@ == old(store)@,
        !spec_record_corrupt(old(store)@, login@, now) && !spec_credentials_ok(
            old(store)@,
            login@,
            secret@,
            now,
        ) ==> (r matches Ok(o) && o matches GetTokenResult::InvalidCredentials(l) && l@ == login@)
            && final(store)@ == old(store)@,
        spec_credentials_ok(old(store)@, login@, secret@, now) ==> (r matches Ok(o) && o matches
            GetTokenResult::Token(t) && is_uuid_shape(t@) && final(store)@ == old(store)@.push(
            EntryV {
                key: spec_token_key(login@),
                value: t@,
                expires_at: Some((now + TOKEN_TTL_SECS) as u64),
            },
        )),
{
    match lookup(store, now, login) {
        Err(e) => Err(e),
        Ok(None) => Ok(GetTokenResult::InvalidCredentials(login.to_owned())),
        Ok(Some(found)) => {
            let sec = found.secret;
            if sec.contains(secret) {
                let t = issue(store, now, login);
                Ok(GetTokenResult::Token(t))
            } else {
                Ok(GetTokenResult::InvalidCredentials(login.to_owned()))
            }
        },
    }
}

/// The token currently live for `login`, if any; absent once its expiry
/// instant has been reached.
pub fn inspect_token(store: &KvStore, now: u64, login: &str) -> (r: Option<String>)
    ensures
        match r {
            Some(t) => live_value(store@, spec_token_key(login@), now) == Some(t@),
            None => live_value(store@, spec_token_key(login@), now) is None,
        },
{
    inspect(store, now, login)
}

/// Externally-authenticated registration. The external resolver belongs
/// to the collaborator; this takes its answer for the presented token. An
/// unresolved token is rejected outright with the store untouched; a
/// resolved identity registers exactly as a local account whose secret is
/// the empty string, the external provider having done the real check.
pub fn register_external(
    store: &mut KvStore,
    rng: &mut rand::rngs::StdRng,
    now: u64,
    resolved: Option<&str>,
) -> (r: ExternalSignupResponse)
    ensures
        resolved is None ==> r is NotResolvable && final(store)@ == old(store)@,
        resolved matches Some(id) ==> {
            &&& !(r is NotResolvable)
            &&& (r is Created) == (live_value(old(store)@, spec_account_key(id@), now) is None)
            &&& (r matches ExternalSignupResponse::UserAlreadyExists(l) ==> l@ == id@ && final(store)@ == old(store)@)
            &&& (r is Created ==> {
                &&& final(store)@ == old(store)@.push(final(store)@.last())
                &&& final(store)@.last().key == spec_account_key(id@)
                &&& final(store)@.last().expires_at is None
                &&& spec_parse_account(final(store)@.last().value) matches Some(rec) && rec.0
                    == id@ && rec.1 == sha256_pair(Seq::<char>::empty(), rec.2) && rec.2.len()
                    == 32
            })
        },
{
    match resolved {
        None => ExternalSignupResponse::NotResolvable,
        Some(id) => {
            proof {
                reveal_strlit("");
                assert(""@ =~= Seq::<char>::empty());
            }
            match register(store, rng, now, id, "") {
                SignupResponse::Created => ExternalSignupResponse::Created,
                SignupResponse::UserAlreadyExists(l) => ExternalSignupResponse::UserAlreadyExists(
                    l,
                ),
            }
        },
    }
}

/// Externally-authenticated login: the resolver's answer decides whether
/// the attempt proceeds at all, and a resolved identity authenticates as
/// a local account with the empty secret.
pub fn authenticate_external(store: &mut KvStore, now: u64, resolved: Option<&str>) -> (r: Result<
    ExternalAuthResult,
    GetTokenError,
>)
    requires
        now <= u64::MAX - TOKEN_TTL_SECS,
    ensures
        resolved is None ==> (r matches Ok(o) && o is NotResolvable) && final(store)@ == old(store)@,
        resolved matches Some(id) ==> {
            &&& (spec_record_corrupt(old(store)@, id@, now) ==> (r matches Err(e) && e
                is DeserializationError) && final(store)@ == old(store)@)
            &&& (!spec_record_corrupt(old(store)@, id@, now) && !spec_credentials_ok(
                old(store)@,
                id@,
                Seq::<char>::empty(),
                now,
            ) ==> (r matches Ok(o) && o matches ExternalAuthResult::InvalidCredentials(l) && l@
                == id@) && final(store)@ == old(store)@)
            &&& (spec_credentials_ok(old(store)@, id@, Seq::<char>::empty(), now) ==> (r matches
                Ok(o) && o matches ExternalAuthResult::Token(t) && is_uuid_shape(t@) && final(store)@ == old(store)@.push(
                EntryV {
                    key: spec_token_key(id@),
                    value: t@,
                    expires_at: Some((now + TOKEN_TTL_SECS) as u64),
                },
            )))
        },
{
    match resolved {
        None => Ok(ExternalAuthResult::NotResolvable),
        Some(id) => {
            proof {
                reveal_strlit("");
                assert(""@ =~= Seq::<char>::empty());
            }
            match authenticate(store, now, id, "") {
                Err(e) => Err(e),
                Ok(GetTokenResult::InvalidCredentials(l)) => Ok(
                    ExternalAuthResult::InvalidCredentials(l),
                ),
                Ok(GetTokenResult::Token(t)) => Ok(ExternalAuthResult::Token(t)),
            }
        },
    }
}

/// A created account is what a later creation attempt sees: the record a
/// successful creation appends stays the live one under its key at every
/// later instant, so creating the same identity again reports an existing
/// account and the store keeps the first call's record.
pub proof fn lemma_create_seen_later(
    s0: Seq<EntryV>,
    login: Seq<char>,
    value: Seq<char>,
    now2: u64,
)
    ensures
        live_value(
            s0.push(EntryV { key: spec_account_key(login), value, expires_at: None }),
            spec_account_key(login),
            now2,
        ) == Some(value),
{
    lemma_find_push(
        s0,
        EntryV { key: spec_account_key(login), value, expires_at: None },
        spec_account_key(login),
    );
}

/// A freshly registered account authenticates with the secret it was
/// registered under: the record a successful registration appends parses
/// back to a hash that is the salted hash of that secret, so the
/// credential check passes at every later instant.
pub proof fn lemma_register_then_credentials_ok(
    s0: Seq<EntryV>,
    e: EntryV,
    login: Seq<char>,
    secret: Seq<char>,
    now2: u64,
)
    requires
        e.key == spec_account_key(login),
        e.expires_at is None,
        spec_parse_account(e.value) matches Some(rec) && rec.1 == sha256_pair(secret, rec.2),
    ensures
        spec_credentials_ok(s0.push(e), login, secret, now2),
{
    lemma_find_push(s0, e, spec_account_key(login));
}

/// An issued token is what inspection sees while its expiry instant lies
/// ahead.
pub proof fn lemma_issued_token_visible(
    s0: Seq<EntryV>,
    login: Seq<char>,
    t: Seq<char>,
    deadline: u64,
    now2: u64,
)
    requires
        now2 < deadline,
    ensures
        live_value(
            s0.push(EntryV { key: spec_token_key(login), value: t, expires_at: Some(deadline) }),
            spec_token_key(login),
            now2,
        ) == Some(t),
{
    lemma_find_push(
        s0,
        EntryV { key: spec_token_key(login), value: t, expires_at: Some(deadline) },
        spec_token_key(login),
    );
}

/// Once the expiry window has elapsed, the token is gone: at and after
/// its expiry instant, inspection sees nothing under the token key.
pub proof fn lemma_token_expires(
    s0: Seq<EntryV>,
    login: Seq<char>,
    t: Seq<char>,
    deadline: u64,
    now2: u64,
)
    requires
        now2 >= deadline,
    ensures
        live_value(
            s0.push(EntryV { key: spec_token_key(login), value: t, expires_at: Some(deadline) }),
            spec_token_key(login),
            now2,
        ) is None,
{
    lemma_find_push(
        s0,
        EntryV { key: spec_token_key(login), value: t, expires_at: Some(deadline) },
        spec_token_key(login),
    );
}

/// Registering an account does not disturb the tokens: a write under an
/// account key leaves what is live under every token key as it was.
pub proof fn lemma_account_write_preserves_tokens(
    s0: Seq<EntryV>,
    login: Seq<char>,
    e: EntryV,
    now2: u64,
)
    requires
        e.key == spec_account_key(login),
    ensures
        forall|l2: Seq<char>|
            live_value(s0.push(e), spec_token_key(l2), now2) == live_value(
                s0,
                spec_token_key(l2),
                now2,
            ),
{
    assert forall|l2: Seq<char>|
        live_value(s0.push(e), spec_token_key(l2), now2) == live_value(
            s0,
            spec_token_key(l2),
            now2,
        ) by {
        assert(spec_account_key(login)[0] == 'a');
        assert(spec_token_key(l2)[0] == 't');
        lemma_find_push(s0, e, spec_token_key(l2));
    }
}

/// Issuing a token does not disturb the account records: a write under a
/// token key leaves what is live under every account key as it was.
pub proof fn lemma_token_write_preserves_accounts(
    s0: Seq<EntryV>,
    login: Seq<char>,
    e: EntryV,
    now2: u64,
)
    requires
        e.key == spec_token_key(login),
    ensures
        forall|l2: Seq<char>|
            live_value(s0.push(e), spec_account_key(l2), now2) == live_value(
                s0,
                spec_account_key(l2),
                now2,
            ),
{
    assert forall|l2: Seq<char>|
        live_value(s0.push(e), spec_account_key(l2), now2) == live_value(
            s0,
            spec_account_key(l2),
            now2,
        ) by {
        assert(spec_token_key(login)[0] == 't');
        assert(spec_account_key(l2)[0] == 'a');
        lemma_find_push(s0, e, spec_account_key(l2));
    }
}

} // verus!
