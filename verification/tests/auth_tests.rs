use authsrv::auth::ExternalAuthResult;
use authsrv::auth::ExternalSignupResponse;
use authsrv::auth::GetTokenResult;
use authsrv::auth::SignupResponse;
use authsrv::auth::authenticate;
use authsrv::auth::authenticate_external;
use authsrv::auth::inspect_token;
use authsrv::auth::register;
use authsrv::auth::register_external;
use authsrv::codec::Secret;
use authsrv::kv::KvStore;
use authsrv::repo::create;
use authsrv::repo::get_redis_account_key;
use authsrv::repo::get_redis_token_key;
use authsrv::repo::lookup;
use authsrv::wire::GetTokenError;
use rand::SeedableRng;
use rand::rngs::StdRng;

fn rng() -> StdRng {
    StdRng::from_seed([42; 32])
}

fn uuid_shaped(t: &str) -> bool {
    let chars: Vec<char> = t.chars().collect();
    chars.len() == 36
        && chars.iter().enumerate().all(|(i, c)| match i {
            8 | 13 | 18 | 23 => *c == '-',
            14 => *c == '4',
            19 => matches!(*c, '8' | '9' | 'a' | 'b'),
            _ => c.is_ascii_hexdigit() && !c.is_ascii_uppercase(),
        })
}

#[test]
fn test_register_authenticate_scenario() {
    let mut store = KvStore::new();
    let mut rng = rng();

    let first = register(&mut store, &mut rng, 0, "alice", "hunter2");
    assert!(matches!(first, SignupResponse::Created));

    let second = register(&mut store, &mut rng, 1, "alice", "other");
    assert!(matches!(second, SignupResponse::UserAlreadyExists(l) if l == "alice"));

    let good = authenticate(&mut store, 2, "alice", "hunter2").unwrap();
    assert!(matches!(good, GetTokenResult::Token(_)));

    let bad = authenticate(&mut store, 3, "alice", "wrong").unwrap();
    assert!(matches!(bad, GetTokenResult::InvalidCredentials(l) if l == "alice"));
}

#[test]
fn test_create_twice_keeps_first_record() {
    let mut store = KvStore::new();
    let mut rng = rng();

    let first_secret = Secret::encode(&mut rng, "hunter2");
    let second_secret = Secret::encode(&mut rng, "other");

    assert!(create(&mut store, 0, "alice", &first_secret));
    assert!(!create(&mut store, 1, "alice", &second_secret));

    let stored = lookup(&store, 2, "alice").unwrap().expect("record must exist");
    assert_eq!(stored.login, "alice");
    assert_eq!(stored.secret.hash, first_secret.hash);
    assert_eq!(stored.secret.salt, first_secret.salt);
}

#[test]
fn test_authenticate_unknown_identity() {
    let mut store = KvStore::new();
    let r = authenticate(&mut store, 0, "nobody", "whatever").unwrap();
    assert!(matches!(r, GetTokenResult::InvalidCredentials(l) if l == "nobody"));
}

#[test]
fn test_authenticate_wrong_secret() {
    let mut store = KvStore::new();
    let mut rng = rng();

    register(&mut store, &mut rng, 0, "alice", "hunter2");
    let r = authenticate(&mut store, 1, "alice", "qwerty").unwrap();
    assert!(matches!(r, GetTokenResult::InvalidCredentials(l) if l == "alice"));
    assert!(inspect_token(&store, 1, "alice").is_none());
}

#[test]
fn test_token_shape_and_inspection() {
    let mut store = KvStore::new();
    let mut rng = rng();

    register(&mut store, &mut rng, 0, "alice", "hunter2");
    let r = authenticate(&mut store, 10, "alice", "hunter2").unwrap();
    let token = match r {
        GetTokenResult::Token(t) => t,
        GetTokenResult::InvalidCredentials(_) => panic!("credentials must verify"),
    };
    assert!(uuid_shaped(&token));
    assert_eq!(inspect_token(&store, 10, "alice"), Some(token.clone()));
    assert_eq!(inspect_token(&store, 69, "alice"), Some(token));
}

#[test]
fn test_token_expires() {
    let mut store = KvStore::new();
    let mut rng = rng();

    register(&mut store, &mut rng, 0, "alice", "hunter2");
    let r = authenticate(&mut store, 100, "alice", "hunter2").unwrap();
    assert!(matches!(r, GetTokenResult::Token(_)));

    assert!(inspect_token(&store, 159, "alice").is_some());
    assert!(inspect_token(&store, 160, "alice").is_none());
    assert!(inspect_token(&store, 1000, "alice").is_none());
}

#[test]
fn test_new_login_replaces_token() {
    let mut store = KvStore::new();
    let mut rng = rng();

    register(&mut store, &mut rng, 0, "alice", "hunter2");
    let first = match authenticate(&mut store, 0, "alice", "hunter2").unwrap() {
        GetTokenResult::Token(t) => t,
        GetTokenResult::InvalidCredentials(_) => panic!("credentials must verify"),
    };
    let second = match authenticate(&mut store, 1, "alice", "hunter2").unwrap() {
        GetTokenResult::Token(t) => t,
        GetTokenResult::InvalidCredentials(_) => panic!("credentials must verify"),
    };
    assert_ne!(first, second);
    assert_eq!(inspect_token(&store, 2, "alice"), Some(second));
}

#[test]
fn test_register_external_unresolved() {
    let mut store = KvStore::new();
    let mut rng = rng();

    let r = register_external(&mut store, &mut rng, 0, None);
    assert!(matches!(r, ExternalSignupResponse::NotResolvable));

    // Nothing was written: the identity namespace is still entirely free.
    assert!(lookup(&store, 0, "ext:bob").unwrap().is_none());
    let again = register_external(&mut store, &mut rng, 1, Some("ext:bob"));
    assert!(matches!(again, ExternalSignupResponse::Created));
}

#[test]
fn test_register_external_resolved_flows() {
    let mut store = KvStore::new();
    let mut rng = rng();

    let created = register_external(&mut store, &mut rng, 0, Some("ext:bob"));
    assert!(matches!(created, ExternalSignupResponse::Created));

    let duplicate = register_external(&mut store, &mut rng, 1, Some("ext:bob"));
    assert!(matches!(duplicate, ExternalSignupResponse::UserAlreadyExists(l) if l == "ext:bob"));

    let auth = authenticate_external(&mut store, 2, Some("ext:bob")).unwrap();
    assert!(matches!(auth, ExternalAuthResult::Token(_)));

    let unresolved = authenticate_external(&mut store, 3, None).unwrap();
    assert!(matches!(unresolved, ExternalAuthResult::NotResolvable));

    let unknown = authenticate_external(&mut store, 4, Some("ext:carol")).unwrap();
    assert!(matches!(unknown, ExternalAuthResult::InvalidCredentials(l) if l == "ext:carol"));
}

#[test]
fn test_external_account_uses_empty_secret() {
    let mut store = KvStore::new();
    let mut rng = rng();

    register_external(&mut store, &mut rng, 0, Some("ext:bob"));
    let r = authenticate(&mut store, 1, "ext:bob", "").unwrap();
    assert!(matches!(r, GetTokenResult::Token(_)));
    let wrong = authenticate(&mut store, 2, "ext:bob", "guess").unwrap();
    assert!(matches!(wrong, GetTokenResult::InvalidCredentials(_)));
}

#[test]
fn test_corrupt_record_is_distinct_error() {
    let mut store = KvStore::new();

    let key = get_redis_account_key("carol");
    let garbage = String::from("not an account record");
    assert!(store.insert_if_absent(&key, &garbage, 0));

    let r = authenticate(&mut store, 1, "carol", "anything");
    assert!(matches!(r, Err(GetTokenError::DeserializationError)));
    let l = lookup(&store, 1, "carol");
    assert!(matches!(l, Err(GetTokenError::DeserializationError)));
}

#[test]
fn test_settings_shape() {
    let settings = authsrv::settings::Settings {
        listen_addr: String::from("127.0.0.1:8080"),
        logging: String::from("info"),
        redis_addr: String::from("127.0.0.1:6379"),
    };
    assert_eq!(settings.listen_addr, "127.0.0.1:8080");
    assert_eq!(settings.logging, "info");
    assert_eq!(settings.redis_addr, "127.0.0.1:6379");
}

#[test]
fn test_key_layout() {
    assert_eq!(get_redis_account_key("alice"), "accounts:alice");
    assert_eq!(get_redis_token_key("alice"), "tokens:alice");
}
