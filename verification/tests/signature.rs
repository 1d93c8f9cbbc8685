use hmac::Mac;
use shopify_ingest::auth::{canonical_message_exec, parse_query_exec, verify};

fn sign(secret: &[u8], msg: &[u8]) -> String {
    let mut mac = hmac::Hmac::<sha2::Sha256>::new_from_slice(secret).unwrap();
    mac.update(msg);
    hex::encode(mac.finalize().into_bytes())
}

#[test]
fn missing_hmac_param_is_rejected() {
    assert!(!verify(b"secret", b"shop=a.myshopify.com&code=42"));
    assert!(!verify(b"secret", b""));
}

#[test]
fn canonical_message_sorts_keys_and_drops_hmac() {
    let msg = canonical_message_exec(b"b=2&a=1&hmac=abcd");
    assert_eq!(msg, b"a=1&b=2".to_vec());
}

#[test]
fn canonical_message_last_binding_wins() {
    let msg = canonical_message_exec(b"a=1&a=2&hmac=x");
    assert_eq!(msg, b"a=2".to_vec());
}

#[test]
fn canonical_message_keeps_empty_values_and_skips_empty_components() {
    let msg = canonical_message_exec(b"b&&a=");
    assert_eq!(msg, b"a=&b=".to_vec());
}

#[test]
fn correctly_signed_query_is_accepted() {
    let secret = b"hush";
    let digest = sign(secret, b"code=99&shop=a.myshopify.com&timestamp=1337");
    let query = format!("shop=a.myshopify.com&timestamp=1337&code=99&hmac={digest}");
    assert!(verify(secret, query.as_bytes()));
}

#[test]
fn tampered_signature_is_rejected() {
    let secret = b"hush";
    let digest = sign(secret, b"code=99&shop=a.myshopify.com");
    let mut wrong = digest.clone().into_bytes();
    wrong[0] = if wrong[0] == b'0' { b'1' } else { b'0' };
    let query = format!(
        "shop=a.myshopify.com&code=99&hmac={}",
        String::from_utf8(wrong).unwrap()
    );
    assert!(!verify(secret, query.as_bytes()));
}

#[test]
fn tampered_query_is_rejected() {
    let secret = b"hush";
    let digest = sign(secret, b"code=99&shop=a.myshopify.com");
    let query = format!("shop=b.myshopify.com&code=99&hmac={digest}");
    assert!(!verify(secret, query.as_bytes()));
}

#[test]
fn recomputing_the_digest_is_deterministic() {
    let q = b"shop=a.myshopify.com&code=7&hmac=ff";
    let once = canonical_message_exec(q);
    let twice = canonical_message_exec(q);
    assert_eq!(once, twice);
    assert_eq!(sign(b"k", &once), sign(b"k", &twice));
}

#[test]
fn parse_query_splits_components() {
    let pairs = parse_query_exec(b"a=1&b=&c");
    assert_eq!(pairs.len(), 3);
    assert_eq!(pairs[0], (b"a".to_vec(), b"1".to_vec()));
    assert_eq!(pairs[1], (b"b".to_vec(), b"".to_vec()));
    assert_eq!(pairs[2], (b"c".to_vec(), b"".to_vec()));
}
