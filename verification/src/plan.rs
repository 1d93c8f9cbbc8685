use vstd::prelude::*;

use crate::model::{Checkout, CheckoutV, Dispute, DisputeV, Disputes, Order, OrderV, Orders, Token};
use crate::rows::{
    checkout_row, dispute_row, line_item_row, opt_text_value, opt_uint_value, order_row,
    values_view, SqlV, SqlValue,
};
use vstd::string::StringExecFns;

verus! {

/// One parameterized storage operation: statement text holding only fixed
/// words and `?` placeholders, and the values bound to them. Field values
/// are never spliced into the text.
#[derive(Debug, PartialEq, Eq)]
pub struct Statement {
    pub sql: String,
    pub params: Vec<SqlValue>,
}

/// Ghost mirror of `Statement`.
pub ghost struct StatementV {
    pub sql: Seq<char>,
    pub params: Seq<SqlV>,
}

impl View for Statement {
    type V = StatementV;

    open spec fn view(&self) -> StatementV {
        StatementV { sql: self.sql@, params: values_view(self.params@) }
    }
}

/// The statements of a plan, viewed.
pub open spec fn statements_view(v: Seq<Statement>) -> Seq<StatementV> {
    v.map_values(|s: Statement| s@)
}

/// `n` copies of `tuple` joined by commas: the VALUES clause of an `n`-row
/// batched insert.
pub open spec fn values_clause(tuple: Seq<char>, n: nat) -> Seq<char>
    decreases n,
{
    if n == 0 {
        Seq::empty()
    } else if n == 1 {
        tuple
    } else {
        values_clause(tuple, (n - 1) as nat) + ","@ + tuple
    }
}

/// The text of an `n`-row batched insert.
pub open spec fn insert_sql(prefix: Seq<char>, tuple: Seq<char>, n: nat) -> Seq<char> {
    prefix + values_clause(tuple, n) + ";"@
}

/// Append `n` copies of `tuple` joined by commas to `dst`.
pub fn append_values_clause(dst: &mut String, tuple: &str, n: usize)
    ensures
        final(dst)@ == old(dst)@ + values_clause(tuple@, n as nat),
{
    let mut i: usize = 0;
    proof {
        assert(dst@ =~= old(dst)@ + values_clause(tuple@, 0));
    }
    while i < n
        invariant
            i <= n,
            dst@ == old(dst)@ + values_clause(tuple@, i as nat),
        decreases n - i,
    {
        if i > 0 {
            dst.append(",");
        }
        dst.append(tuple);
        proof {
            assert(dst@ =~= old(dst)@ + values_clause(tuple@, (i + 1) as nat));
        }
        i += 1;
    }
}

/// Build the text of an `n`-row batched insert: the prefix, `n` placeholder
/// tuples joined by commas, and a closing semicolon.
pub fn build_insert_sql(prefix: &str, tuple: &str, n: usize) -> (r: String)
    ensures
        r@ == insert_sql(prefix@, tuple@, n as nat),
{
    let mut r = prefix.to_owned();
    append_values_clause(&mut r, tuple, n);
    r.append(";");
    proof {
        assert(r@ =~= insert_sql(prefix@, tuple@, n as nat));
    }
    r
}

/// The concatenated rows of a batch of orders.
pub open spec fn orders_params(os: Seq<OrderV>, shop: Seq<char>) -> Seq<SqlV>
    decreases os.len(),
{
    if os.len() == 0 {
        Seq::empty()
    } else {
        orders_params(os.drop_last(), shop) + order_row(os.last(), shop)
    }
}

/// The concatenated line-item rows of a prefix of one order's items.
pub open spec fn lines_rows(titles: Seq<Seq<char>>, order_id: u64) -> Seq<SqlV>
    decreases titles.len(),
{
    if titles.len() == 0 {
        Seq::empty()
    } else {
        lines_rows(titles.drop_last(), order_id) + line_item_row(titles.last(), order_id)
    }
}

/// The concatenated line-item rows of a batch of orders.
pub open spec fn orders_lines_params(os: Seq<OrderV>) -> Seq<SqlV>
    decreases os.len(),
{
    if os.len() == 0 {
        Seq::empty()
    } else {
        orders_lines_params(os.drop_last()) + lines_rows(os.last().line_items, os.last().id)
    }
}

/// How many line items a batch of orders carries in all.
pub open spec fn orders_lines_count(os: Seq<OrderV>) -> nat
    decreases os.len(),
{
    if os.len() == 0 {
        0
    } else {
        orders_lines_count(os.drop_last()) + os.last().line_items.len()
    }
}

pub proof fn lemma_lines_rows_len(titles: Seq<Seq<char>>, order_id: u64)
    ensures
        lines_rows(titles, order_id).len() == 2 * titles.len(),
    decreases titles.len(),
{
    if titles.len() > 0 {
        lemma_lines_rows_len(titles.drop_last(), order_id);
    }
}

pub proof fn lemma_orders_lines_params_len(os: Seq<OrderV>)
    ensures
        orders_lines_params(os).len() == 2 * orders_lines_count(os),
    decreases os.len(),
{
    if os.len() > 0 {
        lemma_orders_lines_params_len(os.drop_last());
        lemma_lines_rows_len(os.last().line_items, os.last().id);
    }
}

/// The write plan for a batch of orders: one multi-row insert into the
/// orders table when the batch is non-empty, and one multi-row insert into
/// the line-items table when any order carries line items. An empty batch
/// plans no operation at all.
pub open spec fn orders_plan(os: Seq<OrderV>, shop: Seq<char>) -> Seq<StatementV> {
    let parents: Seq<StatementV> = if os.len() == 0 {
        Seq::empty()
    } else {
        seq![
            StatementV {
                sql: insert_sql("INSERT INTO Orders VALUES "@, "(?, ?, ?, ?, ?)"@, os.len()),
                params: orders_params(os, shop),
            },
        ]
    };
    let children: Seq<StatementV> = if orders_lines_count(os) == 0 {
        Seq::empty()
    } else {
        seq![
            StatementV {
                sql: insert_sql(
                    "INSERT INTO LineItems VALUES "@,
                    "(?, ?)"@,
                    orders_lines_count(os),
                ),
                params: orders_lines_params(os),
            },
        ]
    };
    parents + children
}

/// An empty batch plans zero storage operations; a non-empty batch plans
/// exactly one write to the primary table, carrying every row, first.
pub proof fn lemma_orders_plan_batching(os: Seq<OrderV>, shop: Seq<char>)
    ensures
        os.len() == 0 ==> orders_plan(os, shop).len() == 0,
        os.len() > 0 ==> orders_plan(os, shop).len() <= 2 && orders_plan(os, shop)[0].sql
            == insert_sql("INSERT INTO Orders VALUES "@, "(?, ?, ?, ?, ?)"@, os.len())
            && orders_plan(os, shop)[0].params == orders_params(os, shop),
{
    if os.len() == 0 {
        assert(orders_lines_count(os) == 0);
        assert(orders_plan(os, shop) =~= Seq::<StatementV>::empty());
    }
}

impl Orders {
    /// The write plan for this batch: parameterized statements only, rows
    /// mapped by the shared row mapper, round-trips bounded by the number
    /// of tables touched, never by the number of rows.
    pub fn insert_plan(&self, shop: &str) -> (r: Vec<Statement>)
        ensures
            statements_view(r@) == orders_plan(self@, shop@),
    {
        let ghost ov = self@;
        let mut params: Vec<SqlValue> = Vec::new();
        let mut i: usize = 0;
        proof {
            assert(ov.take(0) =~= Seq::<OrderV>::empty());
            assert(values_view(params@) =~= Seq::<SqlV>::empty());
        }
        while i < self.orders.len()
            invariant
                i <= self.orders.len(),
                ov == self@,
                values_view(params@) == orders_params(ov.take(i as int), shop@),
            decreases self.orders.len() - i,
        {
            proof {
                assert(ov.take(i + 1).drop_last() =~= ov.take(i as int));
                assert(ov.take(i + 1).last() == ov[i as int]);
                assert(ov[i as int] == self.orders@[i as int]@);
            }
            self.orders[i].push_row(shop, &mut params);
            i += 1;
        }
        proof {
            assert(ov.take(self.orders@.len() as int) =~= ov);
        }
        let mut lparams: Vec<SqlValue> = Vec::new();
        let mut i: usize = 0;
        proof {
            assert(ov.take(0) =~= Seq::<OrderV>::empty());
            assert(values_view(lparams@) =~= Seq::<SqlV>::empty());
        }
        while i < self.orders.len()
            invariant
                i <= self.orders.len(),
                ov == self@,
                values_view(lparams@) == orders_lines_params(ov.take(i as int)),
            decreases self.orders.len() - i,
        {
            let ghost o = ov[i as int];
            let mut j: usize = 0;
            proof {
                assert(o.line_items.take(0) =~= Seq::<Seq<char>>::empty());
                assert(values_view(lparams@) + Seq::<SqlV>::empty() =~= values_view(lparams@));
            }
            while j < self.orders[i].line_items.len()
                invariant
                    i < self.orders@.len(),
                    j <= self.orders@[i as int].line_items@.len(),
                    ov == self@,
                    o == ov[i as int],
                    values_view(lparams@) == orders_lines_params(ov.take(i as int)) + lines_rows(
                        o.line_items.take(j as int),
                        o.id,
                    ),
                decreases self.orders@[i as int].line_items@.len() - j,
            {
                proof {
                    assert(o.line_items.take(j + 1).drop_last() =~= o.line_items.take(j as int));
                    assert(o.line_items.take(j + 1).last() == o.line_items[j as int]);
                    assert(o.line_items[j as int] == self.orders@[i as int].line_items@[j as int]@);
                    assert(o.id == self.orders@[i as int].id);
                }
                self.orders[i].line_items[j].push_row(self.orders[i].id, &mut lparams);
                j += 1;
            }
            proof {
                assert(o.line_items.take(o.line_items.len() as int) =~= o.line_items);
                assert(ov.take(i + 1).drop_last() =~= ov.take(i as int));
                assert(ov.take(i + 1).last() == ov[i as int]);
            }
            i += 1;
        }
        proof {
            assert(ov.take(self.orders@.len() as int) =~= ov);
            lemma_orders_lines_params_len(ov);
        }
        let mut r: Vec<Statement> = Vec::new();
        if self.orders.len() > 0 {
            let sql = build_insert_sql(
                "INSERT INTO Orders VALUES ",
                "(?, ?, ?, ?, ?)",
                self.orders.len(),
            );
            r.push(Statement { sql, params });
        }
        if lparams.len() > 0 {
            let n = lparams.len() / 2;
            proof {
                assert(n == orders_lines_count(ov));
            }
            let sql = build_insert_sql("INSERT INTO LineItems VALUES ", "(?, ?)", n);
            r.push(Statement { sql, params: lparams });
        }
        proof {
            assert(statements_view(r@) =~~= orders_plan(ov, shop@));
        }
        r
    }
}

impl Order {
    /// The write plan of the single-order webhook path: the same mapping
    /// and the same batched shape as the bulk path, over one order.
    pub fn insert_plan(&self, shop: &str) -> (r: Vec<Statement>)
        ensures
            statements_view(r@) == orders_plan(seq![self@], shop@),
    {
        let ghost one = seq![self@];
        let mut params: Vec<SqlValue> = Vec::new();
        proof {
            assert(values_view(params@) =~= Seq::<SqlV>::empty());
        }
        self.push_row(shop, &mut params);
        proof {
            assert(one.drop_last() =~= Seq::<OrderV>::empty());
            assert(orders_params(Seq::<OrderV>::empty(), shop@) == Seq::<SqlV>::empty());
            assert(values_view(params@) =~= orders_params(one, shop@));
        }
        let mut lparams: Vec<SqlValue> = Vec::new();
        let ghost o = self@;
        let mut j: usize = 0;
        proof {
            assert(o.line_items.take(0) =~= Seq::<Seq<char>>::empty());
            assert(values_view(lparams@) =~= lines_rows(o.line_items.take(0), o.id));
        }
        while j < self.line_items.len()
            invariant
                j <= self.line_items.len(),
                o == self@,
                values_view(lparams@) == lines_rows(o.line_items.take(j as int), o.id),
            decreases self.line_items.len() - j,
        {
            proof {
                assert(o.line_items.take(j + 1).drop_last() =~= o.line_items.take(j as int));
                assert(o.line_items.take(j + 1).last() == o.line_items[j as int]);
                assert(o.line_items[j as int] == self.line_items@[j as int]@);
            }
            self.line_items[j].push_row(self.id, &mut lparams);
            j += 1;
        }
        proof {
            assert(o.line_items.take(self.line_items@.len() as int) =~= o.line_items);
            assert(one.drop_last() =~= Seq::<OrderV>::empty());
            assert(orders_lines_params(Seq::<OrderV>::empty()) == Seq::<SqlV>::empty());
            assert(orders_lines_count(Seq::<OrderV>::empty()) == 0);
            assert(orders_lines_params(one) =~= lines_rows(o.line_items, o.id));
            assert(orders_lines_count(one) == o.line_items.len());
            lemma_lines_rows_len(o.line_items, o.id);
        }
        let mut r: Vec<Statement> = Vec::new();
        let sql = build_insert_sql("INSERT INTO Orders VALUES ", "(?, ?, ?, ?, ?)", 1);
        r.push(Statement { sql, params });
        if lparams.len() > 0 {
            let n = lparams.len() / 2;
            let sql = build_insert_sql("INSERT INTO LineItems VALUES ", "(?, ?)", n);
            r.push(Statement { sql, params: lparams });
        }
        proof {
            assert(statements_view(r@) =~~= orders_plan(one, shop@));
        }
        r
    }
}

/// The concatenated rows of a batch of disputes.
pub open spec fn disputes_params(ds: Seq<DisputeV>, shop: Seq<char>) -> Seq<SqlV>
    decreases ds.len(),
{
    if ds.len() == 0 {
        Seq::empty()
    } else {
        disputes_params(ds.drop_last(), shop) + dispute_row(ds.last(), shop)
    }
}

/// The write plan for a batch of disputes: nothing for an empty batch, one
/// multi-row insert otherwise.
pub open spec fn disputes_plan(ds: Seq<DisputeV>, shop: Seq<char>) -> Seq<StatementV> {
    if ds.len() == 0 {
        Seq::empty()
    } else {
        seq![
            StatementV {
                sql: insert_sql(
                    "INSERT INTO Disputes VALUES "@,
                    "(?, ?, ?, ?, ?, ?, ?, ?, ?, ?, ?)"@,
                    ds.len(),
                ),
                params: disputes_params(ds, shop),
            },
        ]
    }
}

impl Disputes {
    /// The write plan for this batch: one parameterized multi-row insert,
    /// or nothing when the batch is empty.
    pub fn insert_plan(&self, shop: &str) -> (r: Vec<Statement>)
        ensures
            statements_view(r@) == disputes_plan(self@, shop@),
    {
        let ghost dv = self@;
        let mut params: Vec<SqlValue> = Vec::new();
        let mut i: usize = 0;
        proof {
            assert(dv.take(0) =~= Seq::<DisputeV>::empty());
            assert(values_view(params@) =~= Seq::<SqlV>::empty());
        }
        while i < self.disputes.len()
            invariant
                i <= self.disputes.len(),
                dv == self@,
                values_view(params@) == disputes_params(dv.take(i as int), shop@),
            decreases self.disputes.len() - i,
        {
            proof {
                assert(dv.take(i + 1).drop_last() =~= dv.take(i as int));
                assert(dv.take(i + 1).last() == dv[i as int]);
                assert(dv[i as int] == self.disputes@[i as int]@);
            }
            self.disputes[i].push_row(shop, &mut params);
            i += 1;
        }
        proof {
            assert(dv.take(self.disputes@.len() as int) =~= dv);
        }
        let mut r: Vec<Statement> = Vec::new();
        if self.disputes.len() > 0 {
            let sql = build_insert_sql(
                "INSERT INTO Disputes VALUES ",
                "(?, ?, ?, ?, ?, ?, ?, ?, ?, ?, ?)",
                self.disputes.len(),
            );
            r.push(Statement { sql, params });
        }
        proof {
            assert(statements_view(r@) =~~= disputes_plan(dv, shop@));
        }
        r
    }
}

impl Dispute {
    /// The write plan of the single-dispute create-webhook path.
    pub fn insert_plan(&self, shop: &str) -> (r: Vec<Statement>)
        ensures
            statements_view(r@) == disputes_plan(seq![self@], shop@),
    {
        let ghost one = seq![self@];
        let mut params: Vec<SqlValue> = Vec::new();
        proof {
            assert(values_view(params@) =~= Seq::<SqlV>::empty());
        }
        self.push_row(shop, &mut params);
        proof {
            assert(one.drop_last() =~= Seq::<DisputeV>::empty());
            assert(disputes_params(Seq::<DisputeV>::empty(), shop@) == Seq::<SqlV>::empty());
            assert(values_view(params@) =~= disputes_params(one, shop@));
        }
        let mut r: Vec<Statement> = Vec::new();
        let sql = build_insert_sql(
            "INSERT INTO Disputes VALUES ",
            "(?, ?, ?, ?, ?, ?, ?, ?, ?, ?, ?)",
            1,
        );
        r.push(Statement { sql, params });
        proof {
            assert(statements_view(r@) =~~= disputes_plan(one, shop@));
        }
        r
    }

    /// The full-row update the update-webhook applies, keyed by external
    /// id: every mutable field is replaced; id and owning store are not.
    pub fn update_stmt(&self) -> (r: Statement)
        ensures
            r@.sql
                == "UPDATE Disputes SET order_id = ?, type = ?, amount = ?, currency = ?, reason = ?, status = ?, initiated_at = ?, evidence_due_by = ?, evidence_sent_on = ? WHERE id = ?;"@,
            r@.params == seq![
                opt_uint_value(self@.order_id),
                SqlV::Text(self@.kind),
                SqlV::Text(self@.amount),
                SqlV::Text(self@.currency),
                SqlV::Text(self@.reason),
                SqlV::Text(self@.status),
                SqlV::Text(self@.initiated_at),
                SqlV::Text(self@.evidence_due_by),
                opt_text_value(self@.evidence_sent_on),
                SqlV::Uint(self@.id),
            ],
    {
        let mut params: Vec<SqlValue> = Vec::new();
        params.push(crate::rows::bind_opt_uint(&self.order_id));
        params.push(SqlValue::Text(self.kind.clone()));
        params.push(SqlValue::Text(self.amount.clone()));
        params.push(SqlValue::Text(self.currency.clone()));
        params.push(SqlValue::Text(self.reason.clone()));
        params.push(SqlValue::Text(self.status.clone()));
        params.push(SqlValue::Text(self.initiated_at.clone()));
        params.push(SqlValue::Text(self.evidence_due_by.clone()));
        params.push(crate::rows::bind_opt_text(&self.evidence_sent_on));
        params.push(SqlValue::Uint(self.id));
        let r = Statement {
            sql:
                "UPDATE Disputes SET order_id = ?, type = ?, amount = ?, currency = ?, reason = ?, status = ?, initiated_at = ?, evidence_due_by = ?, evidence_sent_on = ? WHERE id = ?;".to_owned(),
            params,
        };
        proof {
            assert(r@.params =~= seq![
                opt_uint_value(self@.order_id),
                SqlV::Text(self@.kind),
                SqlV::Text(self@.amount),
                SqlV::Text(self@.currency),
                SqlV::Text(self@.reason),
                SqlV::Text(self@.status),
                SqlV::Text(self@.initiated_at),
                SqlV::Text(self@.evidence_due_by),
                opt_text_value(self@.evidence_sent_on),
                SqlV::Uint(self@.id),
            ]);
        }
        r
    }
}

/// The concatenated rows of a batch of abandoned checkouts.
pub open spec fn checkouts_params(cs: Seq<CheckoutV>, shop: Seq<char>) -> Seq<SqlV>
    decreases cs.len(),
{
    if cs.len() == 0 {
        Seq::empty()
    } else {
        checkouts_params(cs.drop_last(), shop) + checkout_row(cs.last(), shop)
    }
}

/// The write plan for a batch of abandoned checkouts.
pub open spec fn checkouts_plan(cs: Seq<CheckoutV>, shop: Seq<char>) -> Seq<StatementV> {
    if cs.len() == 0 {
        Seq::empty()
    } else {
        seq![
            StatementV {
                sql: insert_sql(
                    "INSERT INTO AbandonedCheckout VALUES "@,
                    "(?, ?, ?, ?, ?, ?)"@,
                    cs.len(),
                ),
                params: checkouts_params(cs, shop),
            },
        ]
    }
}

/// The view of a checkout batch.
pub open spec fn checkouts_seq_view(cs: Seq<Checkout>) -> Seq<CheckoutV> {
    cs.map_values(|c: Checkout| c@)
}

/// The write plan for a batch of abandoned checkouts: one parameterized
/// multi-row insert, or nothing when the batch is empty.
pub fn checkouts_insert_plan(checkouts: &Vec<Checkout>, shop: &str) -> (r: Vec<Statement>)
    ensures
        statements_view(r@) == checkouts_plan(checkouts_seq_view(checkouts@), shop@),
{
    let ghost cv = checkouts_seq_view(checkouts@);
    let mut params: Vec<SqlValue> = Vec::new();
    let mut i: usize = 0;
    proof {
        assert(cv.take(0) =~= Seq::<CheckoutV>::empty());
        assert(values_view(params@) =~= Seq::<SqlV>::empty());
    }
    while i < checkouts.len()
        invariant
            i <= checkouts.len(),
            cv == checkouts_seq_view(checkouts@),
            values_view(params@) == checkouts_params(cv.take(i as int), shop@),
        decreases checkouts.len() - i,
    {
        proof {
            assert(cv.take(i + 1).drop_last() =~= cv.take(i as int));
            assert(cv.take(i + 1).last() == cv[i as int]);
            assert(cv[i as int] == checkouts@[i as int]@);
        }
        checkouts[i].push_row(shop, &mut params);
        i += 1;
    }
    proof {
        assert(cv.take(checkouts@.len() as int) =~= cv);
    }
    let mut r: Vec<Statement> = Vec::new();
    if checkouts.len() > 0 {
        let sql = build_insert_sql(
            "INSERT INTO AbandonedCheckout VALUES ",
            "(?, ?, ?, ?, ?, ?)",
            checkouts.len(),
        );
        r.push(Statement { sql, params });
    }
    proof {
        assert(statements_view(r@) =~~= checkouts_plan(cv, shop@));
    }
    r
}

/// The insert registering a new store with its access token; the sync
/// cursor starts out NULL.
pub fn insert_store_stmt(shop: &str, token: &Token) -> (r: Statement)
    ensures
        r@.sql == "INSERT INTO Stores VALUES (?, ?, NULL);"@,
        r@.params == seq![SqlV::Text(shop@), SqlV::Text(token@)],
{
    let mut params: Vec<SqlValue> = Vec::new();
    params.push(SqlValue::Text(shop.to_owned()));
    params.push(SqlValue::Text(token.access_token.clone()));
    let r = Statement { sql: "INSERT INTO Stores VALUES (?, ?, NULL);".to_owned(), params };
    proof {
        assert(r@.params =~= seq![SqlV::Text(shop@), SqlV::Text(token@)]);
    }
    r
}

/// The update advancing a store's abandoned-checkout sync cursor.
pub fn update_store_sync_stmt(shop: &str, ts: u64) -> (r: Statement)
    ensures
        r@.sql == "UPDATE Stores SET last_abandoned_checkout_sync = ? WHERE name = ?;"@,
        r@.params == seq![SqlV::Uint(ts), SqlV::Text(shop@)],
{
    let mut params: Vec<SqlValue> = Vec::new();
    params.push(SqlValue::Uint(ts));
    params.push(SqlValue::Text(shop.to_owned()));
    let r = Statement {
        sql: "UPDATE Stores SET last_abandoned_checkout_sync = ? WHERE name = ?;".to_owned(),
        params,
    };
    proof {
        assert(r@.params =~= seq![SqlV::Uint(ts), SqlV::Text(shop@)]);
    }
    r
}

/// The query listing every registered store.
pub fn select_stores_stmt() -> (r: Statement)
    ensures
        r@.sql == "SELECT * FROM Stores;"@,
        r@.params == Seq::<SqlV>::empty(),
{
    let r = Statement { sql: "SELECT * FROM Stores;".to_owned(), params: Vec::new() };
    proof {
        assert(r@.params =~= Seq::<SqlV>::empty());
    }
    r
}

/// The delete a shop-erasure request applies: exactly the store row with
/// the given domain.
pub fn delete_store_stmt(shop: &str) -> (r: Statement)
    ensures
        r@.sql == "DELETE FROM Stores WHERE name = ?;"@,
        r@.params == seq![SqlV::Text(shop@)],
{
    let mut params: Vec<SqlValue> = Vec::new();
    params.push(SqlValue::Text(shop.to_owned()));
    let r = Statement { sql: "DELETE FROM Stores WHERE name = ?;".to_owned(), params };
    proof {
        assert(r@.params =~= seq![SqlV::Text(shop@)]);
    }
    r
}

/// The bound id values of an id-set query.
pub fn id_params(ids: &Vec<u64>) -> (r: Vec<SqlValue>)
    ensures
        values_view(r@) == ids@.map_values(|id: u64| SqlV::Uint(id)),
{
    let ghost target = ids@.map_values(|id: u64| SqlV::Uint(id));
    let mut r: Vec<SqlValue> = Vec::new();
    let mut i: usize = 0;
    proof {
        assert(values_view(r@) =~= target.take(0));
    }
    while i < ids.len()
        invariant
            i <= ids.len(),
            target == ids@.map_values(|id: u64| SqlV::Uint(id)),
            values_view(r@) == target.take(i as int),
        decreases ids.len() - i,
    {
        let ghost prev = r@;
        r.push(SqlValue::Uint(ids[i]));
        proof {
            assert(r@ == prev.push(SqlValue::Uint(ids@[i as int])));
            assert(values_view(prev).len() == prev.len());
            assert(prev.len() == i);
            assert(r@.len() == i + 1);
            assert forall|k: int| 0 <= k < i implies values_view(r@)[k] == target[k] by {
                assert(values_view(r@)[k] == r@[k]@);
                assert(r@[k] == prev[k]);
                assert(values_view(prev)[k] == prev[k]@);
                assert(values_view(prev)[k] == target.take(i as int)[k]);
            }
            assert(values_view(r@)[i as int] == r@[i as int]@);
            assert(target[i as int] == SqlV::Uint(ids@[i as int]));
            assert(values_view(r@) =~~= target.take(i + 1));
        }
        i += 1;
    }
    proof {
        assert(target.take(ids@.len() as int) =~= target);
    }
    r
}

/// The query selecting the orders a data-access request names.
pub fn orders_by_ids_stmt(ids: &Vec<u64>) -> (r: Statement)
    ensures
        r@.sql == "SELECT * FROM Orders WHERE id IN ("@ + values_clause("?"@, ids@.len()) + ");"@,
        r@.params == ids@.map_values(|id: u64| SqlV::Uint(id)),
{
    let params = id_params(ids);
    let mut sql = "SELECT * FROM Orders WHERE id IN (".to_owned();
    append_values_clause(&mut sql, "?", ids.len());
    sql.append(");");
    proof {
        assert(sql@ =~= "SELECT * FROM Orders WHERE id IN ("@ + values_clause("?"@, ids@.len())
            + ");"@);
    }
    let r = Statement { sql, params };
    r
}

/// The delete a data-erasure request applies to the named orders.
pub fn delete_orders_by_ids_stmt(ids: &Vec<u64>) -> (r: Statement)
    ensures
        r@.sql == "DELETE FROM Orders WHERE id IN ("@ + values_clause("?"@, ids@.len()) + ");"@,
        r@.params == ids@.map_values(|id: u64| SqlV::Uint(id)),
{
    let params = id_params(ids);
    let mut sql = "DELETE FROM Orders WHERE id IN (".to_owned();
    append_values_clause(&mut sql, "?", ids.len());
    sql.append(");");
    proof {
        assert(sql@ =~= "DELETE FROM Orders WHERE id IN ("@ + values_clause("?"@, ids@.len())
            + ");"@);
    }
    let r = Statement { sql, params };
    r
}

/// The query selecting the abandoned checkouts of one customer email.
pub fn checkouts_by_email_stmt(email: &str) -> (r: Statement)
    ensures
        r@.sql == "SELECT * FROM AbandonedCheckout WHERE email = ?;"@,
        r@.params == seq![SqlV::Text(email@)],
{
    let mut params: Vec<SqlValue> = Vec::new();
    params.push(SqlValue::Text(email.to_owned()));
    let r = Statement { sql: "SELECT * FROM AbandonedCheckout WHERE email = ?;".to_owned(), params };
    proof {
        assert(r@.params =~= seq![SqlV::Text(email@)]);
    }
    r
}

/// The delete a data-erasure request applies to one customer email's
/// abandoned checkouts.
pub fn delete_checkouts_by_email_stmt(email: &str) -> (r: Statement)
    ensures
        r@.sql == "DELETE FROM AbandonedCheckout WHERE email = ?;"@,
        r@.params == seq![SqlV::Text(email@)],
{
    let mut params: Vec<SqlValue> = Vec::new();
    params.push(SqlValue::Text(email.to_owned()));
    let r = Statement { sql: "DELETE FROM AbandonedCheckout WHERE email = ?;".to_owned(), params };
    proof {
        assert(r@.params =~= seq![SqlV::Text(email@)]);
    }
    r
}

} // verus!
