use shopify_ingest::urls::{
    access_token_url, authorize_url, checkouts_sync_url, disputes_fetch_url, host_redirect_url,
    is_valid_shop_domain, orders_fetch_url, pct_encode, state_token, webhook_registrations,
};

#[test]
fn shop_domain_pattern_is_enforced() {
    assert!(is_valid_shop_domain(b"shop1.myshopify.com"));
    assert!(is_valid_shop_domain(b"a-b-c.myshopify.com"));
    assert!(is_valid_shop_domain(b"0.myshopify.com"));
    assert!(!is_valid_shop_domain(b".myshopify.com"));
    assert!(!is_valid_shop_domain(b"-a.myshopify.com"));
    assert!(!is_valid_shop_domain(b"shop.example.com"));
    assert!(!is_valid_shop_domain(b"a.myshopify.comx"));
    assert!(!is_valid_shop_domain(b"a_b.myshopify.com"));
    assert!(!is_valid_shop_domain(b""));
}

#[test]
fn percent_encoding_escapes_reserved_bytes() {
    assert_eq!(pct_encode(b"abc-._~09"), b"abc-._~09".to_vec());
    assert_eq!(pct_encode(b"a b/c:d"), b"a%20b%2fc%3ad".to_vec());
}

#[test]
fn authorize_url_carries_scopes_state_and_encoded_redirect() {
    let url = authorize_url(
        b"shop1.myshopify.com",
        b"clientid",
        b"https://app.example.com/",
        b"abcd1234",
    );
    let expected = "https://shop1.myshopify.com/admin/oauth/authorize?client_id=clientid\
&scope=read_customers,read_orders,read_shopify_payments_disputes\
&redirect_uri=https%3a%2f%2fapp.example.com%2fapi%2fauth&state=abcd1234";
    assert_eq!(String::from_utf8(url).unwrap(), expected);
}

#[test]
fn access_token_url_carries_code_and_credentials() {
    let url = access_token_url(b"shop1.myshopify.com", b"id", b"sec", b"c0de");
    let expected =
        "https://shop1.myshopify.com/admin/oauth/access_token?client_id=id&client_secret=sec&code=c0de";
    assert_eq!(String::from_utf8(url).unwrap(), expected);
}

#[test]
fn install_registers_three_webhooks() {
    let regs = webhook_registrations(b"https://app.example.com/", b"shop1.myshopify.com");
    assert_eq!(regs.len(), 3);
    for reg in &regs {
        assert_eq!(
            String::from_utf8(reg.url.clone()).unwrap(),
            "https://shop1.myshopify.com/admin/api/2023-01/webhooks.json"
        );
    }
    assert_eq!(
        String::from_utf8(regs[0].body.clone()).unwrap(),
        "{\"webhook\":{\"address\":\"https://app.example.com/api/order_webhook/shop1.myshopify.com\",\"topic\":\"orders/paid\",\"format\":\"json\"}}"
    );
    assert!(String::from_utf8(regs[1].body.clone()).unwrap().contains("disputes/create"));
    assert!(String::from_utf8(regs[2].body.clone()).unwrap().contains("disputes/update"));
}

#[test]
fn resource_fetch_urls_follow_the_platform_layout() {
    assert_eq!(
        String::from_utf8(orders_fetch_url(b"s.myshopify.com")).unwrap(),
        "https://s.myshopify.com/admin/api/2023-01/orders.json?financial_status=paid&fields=id,customer,line_items&limit=250"
    );
    assert_eq!(
        String::from_utf8(disputes_fetch_url(b"s.myshopify.com")).unwrap(),
        "https://s.myshopify.com/admin/api/2023-01/shopify_payments/disputes.json?limit=250"
    );
}

#[test]
fn first_checkout_sync_asks_for_everything() {
    let url = checkouts_sync_url(b"s.myshopify.com", None).unwrap();
    assert_eq!(
        String::from_utf8(url).unwrap(),
        "https://s.myshopify.com/admin/api/2023-01/checkouts.json?limit=250&status=open"
    );
}

#[test]
fn later_checkout_syncs_ask_only_for_newer_checkouts() {
    let url = checkouts_sync_url(b"s.myshopify.com", Some(0)).unwrap();
    assert_eq!(
        String::from_utf8(url).unwrap(),
        "https://s.myshopify.com/admin/api/2023-01/checkouts.json?limit=250&status=open\
&created_at_min=1970-01-01T00%3a00%3a00Z"
    );
}

#[test]
fn host_redirect_decodes_the_base64_target() {
    let url = host_redirect_url("ZXhhbXBsZS5jb20").unwrap();
    assert_eq!(String::from_utf8(url).unwrap(), "https://example.com");
    assert!(host_redirect_url("not base64!").is_none());
}

#[test]
fn authenticated_requests_carry_the_access_token_header() {
    let token = shopify_ingest::model::Token { access_token: "tok".to_string() };
    let (name, value) = shopify_ingest::urls::auth_header(&token);
    assert_eq!(name, "X-Shopify-Access-Token");
    assert_eq!(value, "tok");
}

#[test]
fn state_tokens_are_sixteen_hex_digits() {
    let t = state_token();
    assert_eq!(t.len(), 16);
    assert!(t.iter().all(|b| b.is_ascii_hexdigit()));
}
