use authsrv::codec::Secret;
use rand::SeedableRng;
use rand::rngs::StdRng;
use sha2::Digest;
use sha2::Sha256;

#[test]
fn test_secret_should_match() {
    let seed = [0; 32];
    let mut rng = StdRng::from_seed(seed);

    let password = String::from("hunter2");
    let secret = Secret::encode(&mut rng, &password);
    assert!(secret.contains(&password));
}

#[test]
fn test_secret_should_not_match() {
    let seed = [0; 32];
    let mut rng = StdRng::from_seed(seed);

    let password = String::from("hunter2");
    let secret = Secret::encode(&mut rng, &password);
    assert!(!secret.contains("qwerty"));
}

#[test]
fn test_encode_lengths() {
    let mut rng = StdRng::from_seed([7; 32]);
    let secret = Secret::encode(&mut rng, "x");
    assert_eq!(secret.hash.len(), 32);
    assert_eq!(secret.salt.len(), 32);
}

#[test]
fn test_encode_matches_sha256_of_plaintext_and_salt() {
    let mut rng = StdRng::from_seed([1; 32]);
    let secret = Secret::encode(&mut rng, "hunter2");

    let mut hasher = Sha256::new();
    hasher.update("hunter2".as_bytes());
    hasher.update(&secret.salt);
    let expected: Vec<u8> = hasher.finalize().to_vec();

    assert_eq!(secret.hash, expected);
}

#[test]
fn test_two_encodes_differ() {
    let mut rng = StdRng::from_seed([9; 32]);
    let first = Secret::encode(&mut rng, "hunter2");
    let second = Secret::encode(&mut rng, "hunter2");
    assert_ne!(first.salt, second.salt);
    assert_ne!(first.hash, second.hash);
}

#[test]
fn test_empty_plaintext_still_salted() {
    let mut rng = StdRng::from_seed([3; 32]);
    let secret = Secret::encode(&mut rng, "");
    assert_eq!(secret.salt.len(), 32);
    assert!(secret.contains(""));
    assert!(!secret.contains("anything"));
}
