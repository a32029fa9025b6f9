use authsrv::codec::Secret;
use authsrv::json::account_from_json;
use authsrv::json::account_to_json;

fn secret_of(hash: Vec<u8>, salt: Vec<u8>) -> Secret {
    Secret { hash, salt }
}

#[test]
fn test_account_json_exact_text() {
    let secret = secret_of(vec![1, 2], vec![0, 170, 255]);
    let text = account_to_json("alice", &secret);
    assert_eq!(
        text,
        "{\"login\":\"alice\",\"secret\":{\"hash\":[1,2],\"salt\":[0,170,255]}}"
    );
}

#[test]
fn test_account_json_escapes_login() {
    let secret = secret_of(vec![], vec![]);
    let text = account_to_json("a\"b\\c\nd\u{1}e", &secret);
    assert_eq!(
        text,
        "{\"login\":\"a\\\"b\\\\c\\nd\\u0001e\",\"secret\":{\"hash\":[],\"salt\":[]}}"
    );
}

#[test]
fn test_account_json_round_trip() {
    let secret = secret_of((0..=255).collect(), vec![7; 32]);
    let text = account_to_json("bob", &secret);
    let (login, parsed) = account_from_json(&text).expect("round trip must parse");
    assert_eq!(login, "bob");
    assert_eq!(parsed.hash, secret.hash);
    assert_eq!(parsed.salt, secret.salt);
}

#[test]
fn test_account_json_round_trip_escaped_login() {
    let secret = secret_of(vec![9], vec![200]);
    let hard = "tab\there \"quoted\" back\\slash\r\n ctl\u{2}\u{1f}";
    let text = account_to_json(hard, &secret);
    let (login, parsed) = account_from_json(&text).expect("round trip must parse");
    assert_eq!(login, hard);
    assert_eq!(parsed.hash, vec![9]);
    assert_eq!(parsed.salt, vec![200]);
}

#[test]
fn test_account_json_matches_serde_json() {
    // The record text must be exactly what serde_json writes for the same
    // shape, so other readers and writers of the store agree with it.
    let secret = secret_of(vec![0, 12, 234], vec![45, 6]);
    let text = account_to_json("carol", &secret);

    let mut secret_map = serde_json::Map::new();
    secret_map.insert(
        String::from("hash"),
        serde_json::Value::Array(vec![
            serde_json::Value::from(0u64),
            serde_json::Value::from(12u64),
            serde_json::Value::from(234u64),
        ]),
    );
    secret_map.insert(
        String::from("salt"),
        serde_json::Value::Array(vec![
            serde_json::Value::from(45u64),
            serde_json::Value::from(6u64),
        ]),
    );
    let mut account_map = serde_json::Map::new();
    account_map.insert(
        String::from("login"),
        serde_json::Value::String(String::from("carol")),
    );
    account_map.insert(
        String::from("secret"),
        serde_json::Value::Object(secret_map),
    );
    let expected = serde_json::to_string(&serde_json::Value::Object(account_map)).unwrap();

    assert_eq!(text, expected);
}

#[test]
fn test_parse_rejects_malformed_records() {
    assert!(account_from_json("").is_none());
    assert!(account_from_json("{}").is_none());
    assert!(account_from_json("not json at all").is_none());
    assert!(account_from_json("{\"login\":\"a\"}").is_none());
    assert!(account_from_json("{\"login\":\"a\",\"secret\":{\"hash\":[],\"salt\":[]}").is_none());
    assert!(
        account_from_json("{\"login\":\"a\",\"secret\":{\"hash\":[256],\"salt\":[]}}").is_none()
    );
    assert!(
        account_from_json("{\"login\":\"a\",\"secret\":{\"hash\":[1],\"salt\":[2]}}x").is_none()
    );
    assert!(account_from_json("{\"login\":\"a\\x\",\"secret\":{\"hash\":[],\"salt\":[]}}").is_none());
}

#[test]
fn test_parse_accepts_empty_arrays() {
    let text = "{\"login\":\"d\",\"secret\":{\"hash\":[],\"salt\":[]}}";
    let (login, parsed) = account_from_json(text).expect("minimal record must parse");
    assert_eq!(login, "d");
    assert!(parsed.hash.is_empty());
    assert!(parsed.salt.is_empty());
}
