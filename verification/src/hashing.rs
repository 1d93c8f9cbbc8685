use vstd::prelude::*;

verus! {

/// One hex digit, lowercase: `0..=9` map to `'0'..='9'`, `10..=15` to `'a'..='f'`.
pub open spec fn hex_digit(n: u8) -> u8 {
    if n < 10 {
        (48 + n) as u8
    } else {
        (87 + n) as u8
    }
}

/// Lowercase hex encoding of a byte sequence: two digits per byte,
/// high nibble first.
pub open spec fn hex_lower_of(bs: Seq<u8>) -> Seq<u8>
    decreases bs.len(),
{
    if bs.len() == 0 {
        Seq::empty()
    } else {
        hex_lower_of(bs.drop_last()) + seq![
            hex_digit(bs.last() / 16),
            hex_digit(bs.last() % 16),
        ]
    }
}

pub proof fn lemma_hex_lower_len(bs: Seq<u8>)
    ensures
        hex_lower_of(bs).len() == 2 * bs.len(),
    decreases bs.len(),
{
    if bs.len() > 0 {
        lemma_hex_lower_len(bs.drop_last());
    }
}

/// The HMAC-SHA256 tag of a message under a key. A function of the key and
/// the message alone; its value is not modelled here.
pub uninterp spec fn hmac_sha256_of(key: Seq<u8>, msg: Seq<u8>) -> Seq<u8>;

/// Relies on hmac::Hmac over sha2::Sha256: the tag depends on the key and the
/// message alone and is 32 bytes long (SHA-256's output size). `new_from_slice`
/// accepts a key of any length for an HMAC instance, so it cannot fail here.
#[verifier::external_body]
pub(crate) fn hmac_sha256(key: &[u8], msg: &[u8]) -> (r: Vec<u8>)
    ensures
        r@ == hmac_sha256_of(key@, msg@),
        r@.len() == 32,
{
    let mut mac = <hmac::Hmac<sha2::Sha256> as hmac::Mac>::new_from_slice(key).unwrap();
    hmac::Mac::update(&mut mac, msg);
    hmac::Mac::finalize(mac).into_bytes().to_vec()
}

/// Relies on hex::encode: lowercase hex, two digits per byte, high nibble
/// first; the digits are ASCII, so the string's bytes are the digits.
#[verifier::external_body]
pub(crate) fn hex_lower(bytes: &[u8]) -> (r: Vec<u8>)
    ensures
        r@ == hex_lower_of(bytes@),
{
    hex::encode(bytes).into_bytes()
}

} // verus!
