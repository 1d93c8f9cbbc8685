use vstd::prelude::*;

use crate::auth::push_bytes;
use crate::hashing::hex_digit;
use vstd::string::StrSliceExecFns;
use vstd::utf8::encode_utf8;

verus! {

/// A byte that percent-encoding passes through unchanged: ASCII letters,
/// digits, `-`, `.`, `_` and `~`.
pub open spec fn unreserved_byte(b: u8) -> bool {
    (48 <= b <= 57) || (65 <= b <= 90) || (97 <= b <= 122) || b == 45 || b == 46 || b == 95 || b
        == 126
}

/// The percent-encoding of one byte: itself when unreserved, else `%` and
/// two lowercase hex digits.
pub open spec fn pct_byte(b: u8) -> Seq<u8> {
    if unreserved_byte(b) {
        seq![b]
    } else {
        seq![37u8, hex_digit(b / 16), hex_digit(b % 16)]
    }
}

/// The percent-encoding of a byte string, byte for byte. UTF-8 text is
/// encoded through its bytes, which is the standard treatment.
pub open spec fn pct_encode_of(s: Seq<u8>) -> Seq<u8>
    decreases s.len(),
{
    if s.len() == 0 {
        Seq::empty()
    } else {
        pct_encode_of(s.drop_last()) + pct_byte(s.last())
    }
}

/// Percent-encode a value for use inside a query string.
pub fn pct_encode(s: &[u8]) -> (r: Vec<u8>)
    ensures
        r@ == pct_encode_of(s@),
{
    let mut r: Vec<u8> = Vec::new();
    let mut i: usize = 0;
    proof {
        assert(s@.take(0) =~= Seq::<u8>::empty());
        assert(r@ =~= pct_encode_of(s@.take(0)));
    }
    while i < s.len()
        invariant
            i <= s@.len(),
            r@ == pct_encode_of(s@.take(i as int)),
        decreases s@.len() - i,
    {
        proof {
            assert(s@.take(i + 1).drop_last() =~= s@.take(i as int));
            assert(s@.take(i + 1).last() == s@[i as int]);
        }
        let b = s[i];
        if (48 <= b && b <= 57) || (65 <= b && b <= 90) || (97 <= b && b <= 122) || b == 45 || b
            == 46 || b == 95 || b == 126 {
            r.push(b);
        } else {
            r.push(37);
            if b / 16 < 10 {
                r.push(48 + b / 16);
            } else {
                r.push(87 + b / 16);
            }
            if b % 16 < 10 {
                r.push(48 + b % 16);
            } else {
                r.push(87 + b % 16);
            }
        }
        proof {
            assert(r@ =~= pct_encode_of(s@.take(i + 1)));
        }
        i += 1;
    }
    proof {
        assert(s@.take(s@.len() as int) =~= s@);
    }
    r
}

/// The bytes of `.myshopify.com`, the platform domain suffix a shop's
/// domain must carry.
pub open spec fn shop_suffix() -> Seq<u8> {
    seq![
        46u8, 109u8, 121u8, 115u8, 104u8, 111u8, 112u8, 105u8, 102u8, 121u8, 46u8, 99u8, 111u8,
        109u8,
    ]
}

/// An ASCII letter or digit.
pub open spec fn alnum_byte(b: u8) -> bool {
    (48 <= b <= 57) || (65 <= b <= 90) || (97 <= b <= 122)
}

/// A byte allowed inside a shop's label: a letter, a digit, or `-`.
pub open spec fn label_byte(b: u8) -> bool {
    alnum_byte(b) || b == 45
}

/// A well-formed shop domain: a non-empty label of letters, digits and
/// hyphens, starting with a letter or digit, followed by the platform
/// domain suffix and nothing else.
pub open spec fn valid_shop_domain(s: Seq<u8>) -> bool {
    s.len() >= 15 && s.skip(s.len() - 14) == shop_suffix() && alnum_byte(s[0]) && forall|i: int|
        0 <= i < s.len() - 14 ==> label_byte(#[trigger] s[i])
}

/// Whether a shop domain offered by an untrusted request is well-formed.
/// The token-exchange callback rejects the request otherwise.
pub fn is_valid_shop_domain(s: &[u8]) -> (r: bool)
    ensures
        r == valid_shop_domain(s@),
{
    if s.len() < 15 {
        return false;
    }
    let mut suffix: Vec<u8> = Vec::new();
    suffix.push(46);
    suffix.push(109);
    suffix.push(121);
    suffix.push(115);
    suffix.push(104);
    suffix.push(111);
    suffix.push(112);
    suffix.push(105);
    suffix.push(102);
    suffix.push(121);
    suffix.push(46);
    suffix.push(99);
    suffix.push(111);
    suffix.push(109);
    proof {
        assert(suffix@ =~= shop_suffix());
    }
    let tail = crate::auth::sub_vec(s, s.len() - 14, s.len());
    proof {
        assert(tail@ =~= s@.skip(s@.len() - 14));
    }
    if !crate::auth::bytes_eq(tail.as_slice(), suffix.as_slice()) {
        return false;
    }
    let b0 = s[0];
    if !((48 <= b0 && b0 <= 57) || (65 <= b0 && b0 <= 90) || (97 <= b0 && b0 <= 122)) {
        return false;
    }
    let mut i: usize = 0;
    while i < s.len() - 14
        invariant
            s@.len() >= 15,
            i <= s@.len() - 14,
            forall|m: int| 0 <= m < i ==> label_byte(#[trigger] s@[m]),
        decreases s@.len() - 14 - i,
    {
        let b = s[i];
        if !((48 <= b && b <= 57) || (65 <= b && b <= 90) || (97 <= b && b <= 122) || b == 45) {
            return false;
        }
        i += 1;
    }
    true
}

/// The authorization URL a verified install request redirects to: the
/// shop's OAuth endpoint, carrying the client id, the fixed scopes, the
/// callback redirect URI and the anti-forgery state token, each value
/// percent-encoded.
pub open spec fn authorize_url_of(
    shop: Seq<u8>,
    client_id: Seq<u8>,
    base_uri: Seq<u8>,
    state: Seq<u8>,
) -> Seq<u8> {
    encode_utf8("https://"@) + shop + encode_utf8("/admin/oauth/authorize?client_id="@)
        + pct_encode_of(client_id) + encode_utf8(
        "&scope=read_customers,read_orders,read_shopify_payments_disputes&redirect_uri="@,
    ) + pct_encode_of(base_uri + encode_utf8("api/auth"@)) + encode_utf8("&state="@)
        + pct_encode_of(state)
}

/// Build the authorization redirect URL for a verified install request.
pub fn authorize_url(shop: &[u8], client_id: &[u8], base_uri: &[u8], state: &[u8]) -> (r: Vec<u8>)
    ensures
        r@ == authorize_url_of(shop@, client_id@, base_uri@, state@),
{
    let mut r: Vec<u8> = Vec::new();
    push_bytes(&mut r, "https://".as_bytes());
    push_bytes(&mut r, shop);
    push_bytes(&mut r, "/admin/oauth/authorize?client_id=".as_bytes());
    let enc_id = pct_encode(client_id);
    push_bytes(&mut r, enc_id.as_slice());
    push_bytes(
        &mut r,
        "&scope=read_customers,read_orders,read_shopify_payments_disputes&redirect_uri=".as_bytes(),
    );
    let mut redirect: Vec<u8> = Vec::new();
    push_bytes(&mut redirect, base_uri);
    push_bytes(&mut redirect, "api/auth".as_bytes());
    let enc_redirect = pct_encode(redirect.as_slice());
    push_bytes(&mut r, enc_redirect.as_slice());
    push_bytes(&mut r, "&state=".as_bytes());
    let enc_state = pct_encode(state);
    push_bytes(&mut r, enc_state.as_slice());
    proof {
        assert(r@ =~= authorize_url_of(shop@, client_id@, base_uri@, state@));
    }
    r
}

/// The token-exchange URL of the OAuth callback: the shop's access-token
/// endpoint carrying client id, client secret and the authorization code.
pub open spec fn access_token_url_of(
    shop: Seq<u8>,
    client_id: Seq<u8>,
    client_secret: Seq<u8>,
    code: Seq<u8>,
) -> Seq<u8> {
    encode_utf8("https://"@) + shop + encode_utf8("/admin/oauth/access_token?client_id="@)
        + pct_encode_of(client_id) + encode_utf8("&client_secret="@) + pct_encode_of(client_secret)
        + encode_utf8("&code="@) + pct_encode_of(code)
}

/// Build the token-exchange URL for a verified OAuth callback.
pub fn access_token_url(shop: &[u8], client_id: &[u8], client_secret: &[u8], code: &[u8]) -> (r:
    Vec<u8>)
    ensures
        r@ == access_token_url_of(shop@, client_id@, client_secret@, code@),
{
    let mut r: Vec<u8> = Vec::new();
    push_bytes(&mut r, "https://".as_bytes());
    push_bytes(&mut r, shop);
    push_bytes(&mut r, "/admin/oauth/access_token?client_id=".as_bytes());
    let enc_id = pct_encode(client_id);
    push_bytes(&mut r, enc_id.as_slice());
    push_bytes(&mut r, "&client_secret=".as_bytes());
    let enc_secret = pct_encode(client_secret);
    push_bytes(&mut r, enc_secret.as_slice());
    push_bytes(&mut r, "&code=".as_bytes());
    let enc_code = pct_encode(code);
    push_bytes(&mut r, enc_code.as_slice());
    proof {
        assert(r@ =~= access_token_url_of(shop@, client_id@, client_secret@, code@));
    }
    r
}

/// One webhook subscription to register: where to POST, and the JSON body
/// naming the delivery address, the topic and the format.
pub struct WebhookRegistration {
    pub url: Vec<u8>,
    pub body: Vec<u8>,
}

/// The shop's webhook-registration endpoint.
pub open spec fn webhook_register_url_of(shop: Seq<u8>) -> Seq<u8> {
    encode_utf8("https://"@) + shop + encode_utf8("/admin/api/2023-01/webhooks.json"@)
}

/// The registration body for one topic: delivery goes to this service's
/// per-shop webhook route for that topic.
pub open spec fn webhook_body_of(
    base_uri: Seq<u8>,
    path: Seq<u8>,
    shop: Seq<u8>,
    topic: Seq<u8>,
) -> Seq<u8> {
    encode_utf8("{\"webhook\":{\"address\":\""@) + base_uri + path + encode_utf8("/"@) + shop
        + encode_utf8("\",\"topic\":\""@) + topic + encode_utf8("\",\"format\":\"json\"}}"@)
}

fn webhook_register_url(shop: &[u8]) -> (r: Vec<u8>)
    ensures
        r@ == webhook_register_url_of(shop@),
{
    let mut r: Vec<u8> = Vec::new();
    push_bytes(&mut r, "https://".as_bytes());
    push_bytes(&mut r, shop);
    push_bytes(&mut r, "/admin/api/2023-01/webhooks.json".as_bytes());
    proof {
        assert(r@ =~= webhook_register_url_of(shop@));
    }
    r
}

fn webhook_body(base_uri: &[u8], path: &str, shop: &[u8], topic: &str) -> (r: Vec<u8>)
    ensures
        r@ == webhook_body_of(base_uri@, encode_utf8(path@), shop@, encode_utf8(topic@)),
{
    let mut r: Vec<u8> = Vec::new();
    push_bytes(&mut r, "{\"webhook\":{\"address\":\"".as_bytes());
    push_bytes(&mut r, base_uri);
    push_bytes(&mut r, path.as_bytes());
    push_bytes(&mut r, "/".as_bytes());
    push_bytes(&mut r, shop);
    push_bytes(&mut r, "\",\"topic\":\"".as_bytes());
    push_bytes(&mut r, topic.as_bytes());
    push_bytes(&mut r, "\",\"format\":\"json\"}}".as_bytes());
    proof {
        assert(r@ =~= webhook_body_of(base_uri@, encode_utf8(path@), shop@, encode_utf8(topic@)));
    }
    r
}

/// The three webhook subscriptions a fresh install registers, in order:
/// order-paid, dispute-create, dispute-update, each POSTed independently
/// to the shop's registration endpoint.
pub fn webhook_registrations(base_uri: &[u8], shop: &[u8]) -> (r: Vec<WebhookRegistration>)
    ensures
        r@.len() == 3,
        forall|k: int| 0 <= k < 3 ==> (#[trigger] r@[k]).url@ == webhook_register_url_of(shop@),
        r@[0].body@ == webhook_body_of(
            base_uri@,
            encode_utf8("api/order_webhook"@),
            shop@,
            encode_utf8("orders/paid"@),
        ),
        r@[1].body@ == webhook_body_of(
            base_uri@,
            encode_utf8("api/dispute_create"@),
            shop@,
            encode_utf8("disputes/create"@),
        ),
        r@[2].body@ == webhook_body_of(
            base_uri@,
            encode_utf8("api/dispute_update"@),
            shop@,
            encode_utf8("disputes/update"@),
        ),
{
    let mut r: Vec<WebhookRegistration> = Vec::new();
    r.push(
        WebhookRegistration {
            url: webhook_register_url(shop),
            body: webhook_body(base_uri, "api/order_webhook", shop, "orders/paid"),
        },
    );
    r.push(
        WebhookRegistration {
            url: webhook_register_url(shop),
            body: webhook_body(base_uri, "api/dispute_create", shop, "disputes/create"),
        },
    );
    r.push(
        WebhookRegistration {
            url: webhook_register_url(shop),
            body: webhook_body(base_uri, "api/dispute_update", shop, "disputes/update"),
        },
    );
    r
}

/// The bulk-fetch URL for a shop's paid orders.
pub open spec fn orders_fetch_url_of(shop: Seq<u8>) -> Seq<u8> {
    encode_utf8("https://"@) + shop + encode_utf8(
        "/admin/api/2023-01/orders.json?financial_status=paid&fields=id,customer,line_items&limit=250"@,
    )
}

/// Build the bulk-fetch URL for a shop's paid orders.
pub fn orders_fetch_url(shop: &[u8]) -> (r: Vec<u8>)
    ensures
        r@ == orders_fetch_url_of(shop@),
{
    let mut r: Vec<u8> = Vec::new();
    push_bytes(&mut r, "https://".as_bytes());
    push_bytes(&mut r, shop);
    push_bytes(
        &mut r,
        "/admin/api/2023-01/orders.json?financial_status=paid&fields=id,customer,line_items&limit=250".as_bytes(),
    );
    proof {
        assert(r@ =~= orders_fetch_url_of(shop@));
    }
    r
}

/// The bulk-fetch URL for a shop's payment disputes.
pub open spec fn disputes_fetch_url_of(shop: Seq<u8>) -> Seq<u8> {
    encode_utf8("https://"@) + shop + encode_utf8(
        "/admin/api/2023-01/shopify_payments/disputes.json?limit=250"@,
    )
}

/// Build the bulk-fetch URL for a shop's payment disputes.
pub fn disputes_fetch_url(shop: &[u8]) -> (r: Vec<u8>)
    ensures
        r@ == disputes_fetch_url_of(shop@),
{
    let mut r: Vec<u8> = Vec::new();
    push_bytes(&mut r, "https://".as_bytes());
    push_bytes(&mut r, shop);
    push_bytes(&mut r, "/admin/api/2023-01/shopify_payments/disputes.json?limit=250".as_bytes());
    proof {
        assert(r@ =~= disputes_fetch_url_of(shop@));
    }
    r
}

/// What the RFC 3339 formatter prints for a Unix timestamp, in UTC. A
/// function of the timestamp alone; its text is not modelled here.
pub uninterp spec fn rfc3339_utc_of(ts: i64) -> Seq<char>;

/// Relies on time::OffsetDateTime::from_unix_timestamp and the RFC 3339
/// well-known format: the text is a function of the timestamp alone (the
/// offset is fixed to UTC, no locale enters). Out-of-range timestamps are
/// refused by the outside crate and reported here as `None`.
#[verifier::external_body]
fn format_rfc3339_utc(ts: i64) -> (r: Option<String>)
    ensures
        match r {
            Option::Some(s) => s@ == rfc3339_utc_of(ts),
            Option::None => true,
        },
{
    match time::OffsetDateTime::from_unix_timestamp(ts) {
        Ok(t) => t.format(&time::format_description::well_known::Rfc3339).ok(),
        Err(_) => None,
    }
}

/// The periodic-sync URL for a shop's open abandoned checkouts; when the
/// store has synced before, only checkouts created since that cursor are
/// requested.
pub open spec fn checkouts_sync_base_of(shop: Seq<u8>) -> Seq<u8> {
    encode_utf8("https://"@) + shop + encode_utf8(
        "/admin/api/2023-01/checkouts.json?limit=250&status=open"@,
    )
}

/// Build the periodic-sync URL. `None` only when the cursor's timestamp is
/// one the calendar formatter refuses.
pub fn checkouts_sync_url(shop: &[u8], last_sync: Option<i64>) -> (r: Option<Vec<u8>>)
    ensures
        match last_sync {
            Option::None => match r {
                Option::Some(v) => v@ == checkouts_sync_base_of(shop@),
                Option::None => false,
            },
            Option::Some(ts) => match r {
                Option::Some(v) => v@ == checkouts_sync_base_of(shop@) + encode_utf8(
                    "&created_at_min="@,
                ) + pct_encode_of(encode_utf8(rfc3339_utc_of(ts))),
                Option::None => true,
            },
        },
{
    let mut r: Vec<u8> = Vec::new();
    push_bytes(&mut r, "https://".as_bytes());
    push_bytes(&mut r, shop);
    push_bytes(&mut r, "/admin/api/2023-01/checkouts.json?limit=250&status=open".as_bytes());
    proof {
        assert(r@ =~= checkouts_sync_base_of(shop@));
    }
    match last_sync {
        Option::None => Option::Some(r),
        Option::Some(ts) => {
            match format_rfc3339_utc(ts) {
                Option::None => Option::None,
                Option::Some(stamp) => {
                    push_bytes(&mut r, "&created_at_min=".as_bytes());
                    let stamp_bytes = stamp.as_str().as_bytes_vec();
                    let enc = pct_encode(stamp_bytes.as_slice());
                    push_bytes(&mut r, enc.as_slice());
                    proof {
                        assert(r@ =~= checkouts_sync_base_of(shop@) + encode_utf8(
                            "&created_at_min="@,
                        ) + pct_encode_of(encode_utf8(rfc3339_utc_of(ts))));
                    }
                    Option::Some(r)
                },
            }
        },
    }
}

/// What the standard-alphabet, unpadded base64 decoder yields for a text:
/// the decoded bytes, or nothing for text that is not valid base64. A
/// function of the text alone.
pub uninterp spec fn b64_decoded(s: Seq<char>) -> Option<Seq<u8>>;

/// Relies on base64's STANDARD_NO_PAD engine: decoding depends on the
/// input text alone.
#[verifier::external_body]
fn base64_decode(s: &str) -> (r: Option<Vec<u8>>)
    ensures
        match r {
            Option::Some(v) => b64_decoded(s@) == Option::Some(v@),
            Option::None => b64_decoded(s@) is None,
        },
{
    base64::Engine::decode(&base64::engine::general_purpose::STANDARD_NO_PAD, s).ok()
}

/// The URL the OAuth callback finally redirects to: the base64-decoded
/// `host` parameter under https. `None` exactly when the parameter is not
/// valid base64.
pub fn host_redirect_url(host: &str) -> (r: Option<Vec<u8>>)
    ensures
        match r {
            Option::Some(v) => b64_decoded(host@) matches Option::Some(h) && v@ == encode_utf8(
                "https://"@,
            ) + h,
            Option::None => b64_decoded(host@) is None,
        },
{
    match base64_decode(host) {
        Option::None => Option::None,
        Option::Some(decoded) => {
            let mut r: Vec<u8> = Vec::new();
            push_bytes(&mut r, "https://".as_bytes());
            push_bytes(&mut r, decoded.as_slice());
            proof {
                assert(r@ =~= encode_utf8("https://"@) + decoded@);
            }
            Option::Some(r)
        },
    }
}

/// The header every authenticated platform request carries: the platform's
/// access-token header name, and the store's token as its value.
pub fn auth_header(token: &crate::model::Token) -> (r: (String, String))
    ensures
        r.0@ == "X-Shopify-Access-Token"@,
        r.1@ == token@,
{
    ("X-Shopify-Access-Token".to_owned(), token.access_token.clone())
}

/// Relies on rand::random: a machine-random value of which nothing is
/// promised.
#[verifier::external_body]
fn random_u64() -> u64 {
    rand::random::<u64>()
}

/// A fresh anti-forgery state token for the install redirect: sixteen hex
/// digits drawn from the process's random source.
pub fn state_token() -> (r: Vec<u8>)
    ensures
        r@.len() == 16,
{
    let n = random_u64();
    let mut bytes: Vec<u8> = Vec::new();
    bytes.push((n >> 56) as u8);
    bytes.push((n >> 48) as u8);
    bytes.push((n >> 40) as u8);
    bytes.push((n >> 32) as u8);
    bytes.push((n >> 24) as u8);
    bytes.push((n >> 16) as u8);
    bytes.push((n >> 8) as u8);
    bytes.push(n as u8);
    let r = crate::hashing::hex_lower(bytes.as_slice());
    proof {
        crate::hashing::lemma_hex_lower_len(bytes@);
    }
    r
}

} // verus!
