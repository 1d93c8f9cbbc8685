use shopify_ingest::model::{Customer, Dispute, LineItem, Order, Orders};
use shopify_ingest::rows::SqlValue;

fn customer(email: Option<&str>) -> Customer {
    Customer {
        first_name: Some("Ada".to_string()),
        last_name: None,
        email: email.map(|s| s.to_string()),
    }
}

fn order(id: u64, email: Option<&str>, titles: &[&str]) -> Order {
    Order {
        id,
        customer: customer(email),
        line_items: titles.iter().map(|t| LineItem { title: t.to_string() }).collect(),
    }
}

fn dispute(id: u64, order_id: Option<u64>, evidence_sent_on: Option<&str>) -> Dispute {
    Dispute {
        id,
        order_id,
        kind: "chargeback".to_string(),
        amount: "11.50".to_string(),
        currency: "USD".to_string(),
        reason: "fraudulent".to_string(),
        status: "needs_response".to_string(),
        initiated_at: "2023-01-02".to_string(),
        evidence_due_by: "2023-01-09".to_string(),
        evidence_sent_on: evidence_sent_on.map(|s| s.to_string()),
    }
}

#[test]
fn absent_email_maps_to_null_marker() {
    let row = order(4, None, &[]).to_row("a.myshopify.com");
    assert_eq!(row[3], SqlValue::Null);
    assert_eq!(row[1], SqlValue::Text("Ada".to_string()));
    assert_eq!(row[2], SqlValue::Null);
}

#[test]
fn present_email_maps_to_its_literal_text() {
    let row = order(4, Some("a@b.com"), &[]).to_row("a.myshopify.com");
    assert_eq!(row[3], SqlValue::Text("a@b.com".to_string()));
    assert_eq!(row[0], SqlValue::Uint(4));
    assert_eq!(row[4], SqlValue::Text("a.myshopify.com".to_string()));
}

#[test]
fn empty_batch_plans_zero_storage_operations() {
    let batch = Orders { orders: vec![] };
    let plan = batch.insert_plan("a.myshopify.com");
    assert_eq!(plan.len(), 0);
}

#[test]
fn two_row_batch_plans_one_multi_row_write_to_the_primary_table() {
    let batch = Orders { orders: vec![order(1, None, &[]), order(2, Some("a@b.com"), &[])] };
    let plan = batch.insert_plan("a.myshopify.com");
    assert_eq!(plan.len(), 1);
    assert_eq!(
        plan[0].sql,
        "INSERT INTO Orders VALUES (?, ?, ?, ?, ?),(?, ?, ?, ?, ?);"
    );
    assert_eq!(plan[0].params.len(), 10);
    assert_eq!(plan[0].params[0], SqlValue::Uint(1));
    assert_eq!(plan[0].params[5], SqlValue::Uint(2));
}

#[test]
fn line_items_add_exactly_one_more_statement() {
    let batch = Orders {
        orders: vec![order(1, None, &["tea"]), order(2, None, &["pot", "cup"])],
    };
    let plan = batch.insert_plan("a.myshopify.com");
    assert_eq!(plan.len(), 2);
    assert_eq!(plan[1].sql, "INSERT INTO LineItems VALUES (?, ?),(?, ?),(?, ?);");
    assert_eq!(
        plan[1].params,
        vec![
            SqlValue::Text("tea".to_string()),
            SqlValue::Uint(1),
            SqlValue::Text("pot".to_string()),
            SqlValue::Uint(2),
            SqlValue::Text("cup".to_string()),
            SqlValue::Uint(2),
        ]
    );
}

#[test]
fn webhook_single_order_plan_matches_bulk_shape() {
    let plan = order(9, Some("a@b.com"), &["tea"]).insert_plan("s.myshopify.com");
    assert_eq!(plan.len(), 2);
    assert_eq!(plan[0].sql, "INSERT INTO Orders VALUES (?, ?, ?, ?, ?);");
    assert_eq!(plan[1].sql, "INSERT INTO LineItems VALUES (?, ?);");
}

#[test]
fn dispute_create_with_null_optionals_binds_null_markers() {
    let plan = dispute(3, None, None).insert_plan("s.myshopify.com");
    assert_eq!(plan.len(), 1);
    assert_eq!(
        plan[0].sql,
        "INSERT INTO Disputes VALUES (?, ?, ?, ?, ?, ?, ?, ?, ?, ?, ?);"
    );
    let p = &plan[0].params;
    assert_eq!(p[0], SqlValue::Uint(3));
    assert_eq!(p[1], SqlValue::Null);
    assert_eq!(p[2], SqlValue::Text("chargeback".to_string()));
    assert_eq!(p[3], SqlValue::Text("11.50".to_string()));
    assert_eq!(p[9], SqlValue::Null);
    assert_eq!(p[10], SqlValue::Text("s.myshopify.com".to_string()));
}

#[test]
fn dispute_update_statement_replaces_every_mutable_field() {
    let stmt = dispute(3, Some(77), Some("2023-01-05")).update_stmt();
    assert_eq!(
        stmt.sql,
        "UPDATE Disputes SET order_id = ?, type = ?, amount = ?, currency = ?, reason = ?, status = ?, initiated_at = ?, evidence_due_by = ?, evidence_sent_on = ? WHERE id = ?;"
    );
    assert_eq!(stmt.params[0], SqlValue::Uint(77));
    assert_eq!(stmt.params[8], SqlValue::Text("2023-01-05".to_string()));
    assert_eq!(stmt.params[9], SqlValue::Uint(3));
}

#[test]
fn id_set_queries_bind_ids_as_parameters() {
    let stmt = shopify_ingest::plan::orders_by_ids_stmt(&vec![5, 6]);
    assert_eq!(stmt.sql, "SELECT * FROM Orders WHERE id IN (?,?);");
    assert_eq!(stmt.params, vec![SqlValue::Uint(5), SqlValue::Uint(6)]);
    let del = shopify_ingest::plan::delete_orders_by_ids_stmt(&vec![5]);
    assert_eq!(del.sql, "DELETE FROM Orders WHERE id IN (?);");
}

#[test]
fn store_statements_bind_untrusted_text_as_parameters() {
    let token = shopify_ingest::model::Token { access_token: "tok'en".to_string() };
    let ins = shopify_ingest::plan::insert_store_stmt("s.myshopify.com", &token);
    assert_eq!(ins.sql, "INSERT INTO Stores VALUES (?, ?, NULL);");
    assert_eq!(
        ins.params,
        vec![
            SqlValue::Text("s.myshopify.com".to_string()),
            SqlValue::Text("tok'en".to_string()),
        ]
    );
    let upd = shopify_ingest::plan::update_store_sync_stmt("s.myshopify.com", 1700000000);
    assert_eq!(
        upd.sql,
        "UPDATE Stores SET last_abandoned_checkout_sync = ? WHERE name = ?;"
    );
    assert_eq!(upd.params[0], SqlValue::Uint(1700000000));
    let del = shopify_ingest::plan::delete_store_stmt("s.myshopify.com");
    assert_eq!(del.sql, "DELETE FROM Stores WHERE name = ?;");
    let sel = shopify_ingest::plan::checkouts_by_email_stmt("a@b.com");
    assert_eq!(sel.sql, "SELECT * FROM AbandonedCheckout WHERE email = ?;");
    assert_eq!(sel.params, vec![SqlValue::Text("a@b.com".to_string())]);
    let delc = shopify_ingest::plan::delete_checkouts_by_email_stmt("a@b.com");
    assert_eq!(delc.sql, "DELETE FROM AbandonedCheckout WHERE email = ?;");
}

#[test]
fn checkout_batch_plans_one_write() {
    let checkouts = vec![shopify_ingest::model::Checkout {
        id: 12,
        abandoned_checkout_url: "https://s/cart".to_string(),
        customer: customer(None),
    }];
    let plan = shopify_ingest::plan::checkouts_insert_plan(&checkouts, "s.myshopify.com");
    assert_eq!(plan.len(), 1);
    assert_eq!(plan[0].sql, "INSERT INTO AbandonedCheckout VALUES (?, ?, ?, ?, ?, ?);");
    assert_eq!(plan[0].params[2], SqlValue::Text("Ada".to_string()));
    assert_eq!(plan[0].params[4], SqlValue::Null);
    let none = shopify_ingest::plan::checkouts_insert_plan(&vec![], "s.myshopify.com");
    assert_eq!(none.len(), 0);
}
