use shopify_ingest::model::{Customer, Dispute, LineItem, Order, Token};
use shopify_ingest::storage::Storage;

fn dispute(id: u64, status: &str) -> Dispute {
    Dispute {
        id,
        order_id: None,
        kind: "chargeback".to_string(),
        amount: "11.50".to_string(),
        currency: "USD".to_string(),
        reason: "fraudulent".to_string(),
        status: status.to_string(),
        initiated_at: "2023-01-02".to_string(),
        evidence_due_by: "2023-01-09".to_string(),
        evidence_sent_on: None,
    }
}

fn registered(names: &[&str]) -> Storage {
    let mut s = Storage::new();
    for n in names {
        let token = Token { access_token: format!("token-{n}") };
        s.insert_store(n, &token);
    }
    s
}

#[test]
fn dispute_create_webhook_persists_null_optionals_verbatim() {
    let mut s = Storage::new();
    let d = dispute(3, "needs_response");
    s.insert_dispute(&d, "s.myshopify.com");
    assert_eq!(s.disputes.len(), 1);
    let row = &s.disputes[0];
    assert_eq!(row.dispute.id, 3);
    assert_eq!(row.dispute.order_id, None);
    assert_eq!(row.dispute.evidence_sent_on, None);
    assert_eq!(row.dispute.amount, "11.50");
    assert_eq!(row.dispute.status, "needs_response");
    assert_eq!(row.store_name, "s.myshopify.com");
}

#[test]
fn updating_a_missing_dispute_id_is_a_no_op_not_an_error() {
    let mut s = Storage::new();
    s.insert_dispute(&dispute(5, "open"), "s.myshopify.com");
    s.update_dispute(&dispute(7, "won"));
    assert_eq!(s.disputes.len(), 1);
    assert_eq!(s.disputes[0].dispute.id, 5);
    assert_eq!(s.disputes[0].dispute.status, "open");
}

#[test]
fn updating_an_existing_dispute_replaces_its_mutable_fields() {
    let mut s = Storage::new();
    s.insert_dispute(&dispute(5, "open"), "s.myshopify.com");
    s.insert_dispute(&dispute(6, "open"), "t.myshopify.com");
    s.update_dispute(&dispute(5, "won"));
    assert_eq!(s.disputes.len(), 2);
    assert_eq!(s.disputes[0].dispute.status, "won");
    assert_eq!(s.disputes[0].store_name, "s.myshopify.com");
    assert_eq!(s.disputes[1].dispute.status, "open");
}

#[test]
fn shop_erasure_removes_exactly_the_named_store() {
    let mut s = registered(&["x.example.com", "y.example.com"]);
    s.insert_dispute(&dispute(1, "open"), "x.example.com");
    s.erase_shop("x.example.com");
    assert_eq!(s.stores.len(), 1);
    assert_eq!(s.stores[0].name, "y.example.com");
    assert_eq!(s.disputes.len(), 1);
}

#[test]
fn shop_erasure_of_an_unknown_domain_removes_nothing() {
    let mut s = registered(&["x.example.com"]);
    s.erase_shop("z.example.com");
    assert_eq!(s.stores.len(), 1);
}

#[test]
fn a_fresh_store_has_a_null_sync_cursor() {
    let s = registered(&["x.example.com"]);
    assert_eq!(s.stores[0].last_sync, None);
    assert_eq!(s.stores[0].access_token, "token-x.example.com");
}

#[test]
fn the_sync_cursor_advances_only_for_the_synced_store() {
    let mut s = registered(&["x.example.com", "y.example.com"]);
    s.set_sync_cursor("x.example.com", 1700000000);
    assert_eq!(s.stores[0].last_sync, Some(1700000000));
    assert_eq!(s.stores[1].last_sync, None);
    assert_eq!(s.stores[0].access_token, "token-x.example.com");
}

#[test]
fn data_erasure_removes_exactly_the_named_orders() {
    let mut s = Storage::new();
    for id in [1u64, 2, 3] {
        let o = Order {
            id,
            customer: Customer { first_name: None, last_name: None, email: None },
            line_items: vec![],
        };
        s.insert_order(&o, "s.myshopify.com");
    }
    s.erase_orders_by_ids(&vec![1, 3, 9]);
    assert_eq!(s.orders.len(), 1);
    assert_eq!(s.orders[0].id, 2);
}

#[test]
fn data_erasure_removes_exactly_the_named_customers_checkouts() {
    let mut s = Storage::new();
    for (id, email) in [(1u64, Some("a@b.com")), (2, Some("c@d.com")), (3, None)] {
        let c = shopify_ingest::model::Checkout {
            id,
            abandoned_checkout_url: "https://s/cart".to_string(),
            customer: Customer {
                first_name: None,
                last_name: None,
                email: email.map(|e| e.to_string()),
            },
        };
        s.insert_checkout(&c, "s.myshopify.com");
    }
    s.erase_checkouts_by_email("a@b.com");
    assert_eq!(s.checkouts.len(), 2);
    assert_eq!(s.checkouts[0].checkout.id, 2);
    assert_eq!(s.checkouts[1].checkout.id, 3);
}

#[test]
fn bulk_sync_persists_every_order_and_dispute_of_the_batch() {
    let mut s = Storage::new();
    let orders = shopify_ingest::model::Orders {
        orders: vec![
            Order {
                id: 1,
                customer: Customer { first_name: None, last_name: None, email: None },
                line_items: vec![LineItem { title: "tea".to_string() }],
            },
            Order {
                id: 2,
                customer: Customer { first_name: None, last_name: None, email: None },
                line_items: vec![],
            },
        ],
    };
    s.insert_orders(&orders, "s.myshopify.com");
    let disputes = shopify_ingest::model::Disputes {
        disputes: vec![dispute(8, "open"), dispute(9, "won")],
    };
    s.insert_disputes(&disputes, "s.myshopify.com");
    assert_eq!(s.orders.len(), 2);
    assert_eq!(s.line_items.len(), 1);
    assert_eq!(s.line_items[0].order_id, 1);
    assert_eq!(s.disputes.len(), 2);
    assert_eq!(s.disputes[1].dispute.id, 9);
}

#[test]
fn inserting_an_order_persists_its_line_items() {
    let mut s = Storage::new();
    let o = Order {
        id: 4,
        customer: Customer { first_name: None, last_name: None, email: None },
        line_items: vec![
            LineItem { title: "tea".to_string() },
            LineItem { title: "cup".to_string() },
        ],
    };
    s.insert_order(&o, "s.myshopify.com");
    assert_eq!(s.orders.len(), 1);
    assert_eq!(s.orders[0].email, None);
    assert_eq!(s.orders[0].store_name, "s.myshopify.com");
    assert_eq!(s.line_items.len(), 2);
    assert_eq!(s.line_items[0].title, "tea");
    assert_eq!(s.line_items[1].order_id, 4);
}
