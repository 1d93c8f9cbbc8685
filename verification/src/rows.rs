use vstd::prelude::*;

use crate::model::{Checkout, CheckoutV, Dispute, DisputeV, LineItem, Order, OrderV};

verus! {

/// A single positional value bound into a parameterized storage statement.
/// External text never enters statement text: it travels here, as data.
#[derive(Debug, PartialEq, Eq)]
pub enum SqlValue {
    /// The storage engine's NULL marker, used for absent optional fields.
    Null,
    /// A numeric value (platform-assigned ids, timestamps).
    Uint(u64),
    /// A text value, passed to the engine as a bound parameter.
    Text(String),
}

/// Ghost mirror of `SqlValue`, with text as a character sequence.
pub ghost enum SqlV {
    Null,
    Uint(u64),
    Text(Seq<char>),
}

impl View for SqlValue {
    type V = SqlV;

    open spec fn view(&self) -> SqlV {
        match self {
            SqlValue::Null => SqlV::Null,
            SqlValue::Uint(n) => SqlV::Uint(*n),
            SqlValue::Text(s) => SqlV::Text(s@),
        }
    }
}

/// The values of a parameter vector.
pub open spec fn values_view(v: Seq<SqlValue>) -> Seq<SqlV> {
    v.map_values(|x: SqlValue| x@)
}

/// The value an optional text field binds to: absent maps to the NULL
/// marker, present maps to the literal text.
pub open spec fn opt_text_value(o: Option<Seq<char>>) -> SqlV {
    match o {
        Option::None => SqlV::Null,
        Option::Some(s) => SqlV::Text(s),
    }
}

/// The value an optional numeric field binds to.
pub open spec fn opt_uint_value(o: Option<u64>) -> SqlV {
    match o {
        Option::None => SqlV::Null,
        Option::Some(n) => SqlV::Uint(n),
    }
}

/// The row an order maps to: id, the three optional customer fields under
/// NULL-coercion, and the owning store's domain.
pub open spec fn order_row(o: OrderV, shop: Seq<char>) -> Seq<SqlV> {
    seq![
        SqlV::Uint(o.id),
        opt_text_value(o.customer.first_name),
        opt_text_value(o.customer.last_name),
        opt_text_value(o.customer.email),
        SqlV::Text(shop),
    ]
}

/// The row a line item maps to: its title and the owning order's id.
pub open spec fn line_item_row(title: Seq<char>, order_id: u64) -> Seq<SqlV> {
    seq![SqlV::Text(title), SqlV::Uint(order_id)]
}

/// The row a dispute maps to, in schema order; optional fields under
/// NULL-coercion, the amount as decimal text.
pub open spec fn dispute_row(d: DisputeV, shop: Seq<char>) -> Seq<SqlV> {
    seq![
        SqlV::Uint(d.id),
        opt_uint_value(d.order_id),
        SqlV::Text(d.kind),
        SqlV::Text(d.amount),
        SqlV::Text(d.currency),
        SqlV::Text(d.reason),
        SqlV::Text(d.status),
        SqlV::Text(d.initiated_at),
        SqlV::Text(d.evidence_due_by),
        opt_text_value(d.evidence_sent_on),
        SqlV::Text(shop),
    ]
}

/// The row an abandoned checkout maps to.
pub open spec fn checkout_row(c: CheckoutV, shop: Seq<char>) -> Seq<SqlV> {
    seq![
        SqlV::Uint(c.id),
        SqlV::Text(c.abandoned_checkout_url),
        opt_text_value(c.customer.first_name),
        opt_text_value(c.customer.last_name),
        opt_text_value(c.customer.email),
        SqlV::Text(shop),
    ]
}

/// NULL-coercion for one optional text field.
pub fn bind_opt_text(o: &Option<String>) -> (r: SqlValue)
    ensures
        r@ == opt_text_value(crate::model::opt_view(*o)),
{
    match o {
        Option::None => SqlValue::Null,
        Option::Some(s) => SqlValue::Text(s.clone()),
    }
}

/// NULL-coercion for one optional numeric field.
pub fn bind_opt_uint(o: &Option<u64>) -> (r: SqlValue)
    ensures
        r@ == opt_uint_value(*o),
{
    match o {
        Option::None => SqlValue::Null,
        Option::Some(n) => SqlValue::Uint(*n),
    }
}

impl Order {
    /// Append this order's normalized row to a parameter vector.
    pub fn push_row(&self, shop: &str, dst: &mut Vec<SqlValue>)
        ensures
            values_view(final(dst)@) == values_view(old(dst)@) + order_row(self@, shop@),
    {
        dst.push(SqlValue::Uint(self.id));
        dst.push(bind_opt_text(&self.customer.first_name));
        dst.push(bind_opt_text(&self.customer.last_name));
        dst.push(bind_opt_text(&self.customer.email));
        dst.push(SqlValue::Text(shop.to_owned()));
        proof {
            assert(values_view(dst@) =~= values_view(old(dst)@) + order_row(self@, shop@));
        }
    }

    /// The one mapping from an order to its normalized row, shared by the
    /// webhook path and the bulk-sync path.
    pub fn to_row(&self, shop: &str) -> (r: Vec<SqlValue>)
        ensures
            values_view(r@) == order_row(self@, shop@),
    {
        let mut r: Vec<SqlValue> = Vec::new();
        proof {
            assert(values_view(r@) =~= Seq::<SqlV>::empty());
        }
        self.push_row(shop, &mut r);
        proof {
            assert(Seq::<SqlV>::empty() + order_row(self@, shop@) =~= order_row(self@, shop@));
        }
        r
    }
}

impl LineItem {
    /// Append this line item's normalized row to a parameter vector.
    pub fn push_row(&self, order_id: u64, dst: &mut Vec<SqlValue>)
        ensures
            values_view(final(dst)@) == values_view(old(dst)@) + line_item_row(self@, order_id),
    {
        dst.push(SqlValue::Text(self.title.clone()));
        dst.push(SqlValue::Uint(order_id));
        proof {
            assert(values_view(dst@) =~= values_view(old(dst)@) + line_item_row(self@, order_id));
        }
    }
}

impl Dispute {
    /// Append this dispute's normalized row to a parameter vector.
    pub fn push_row(&self, shop: &str, dst: &mut Vec<SqlValue>)
        ensures
            values_view(final(dst)@) == values_view(old(dst)@) + dispute_row(self@, shop@),
    {
        dst.push(SqlValue::Uint(self.id));
        dst.push(bind_opt_uint(&self.order_id));
        dst.push(SqlValue::Text(self.kind.clone()));
        dst.push(SqlValue::Text(self.amount.clone()));
        dst.push(SqlValue::Text(self.currency.clone()));
        dst.push(SqlValue::Text(self.reason.clone()));
        dst.push(SqlValue::Text(self.status.clone()));
        dst.push(SqlValue::Text(self.initiated_at.clone()));
        dst.push(SqlValue::Text(self.evidence_due_by.clone()));
        dst.push(bind_opt_text(&self.evidence_sent_on));
        dst.push(SqlValue::Text(shop.to_owned()));
        proof {
            assert(values_view(dst@) =~= values_view(old(dst)@) + dispute_row(self@, shop@));
        }
    }

    /// The one mapping from a dispute to its normalized row, shared by the
    /// create-webhook path and the bulk-sync path.
    pub fn to_row(&self, shop: &str) -> (r: Vec<SqlValue>)
        ensures
            values_view(r@) == dispute_row(self@, shop@),
    {
        let mut r: Vec<SqlValue> = Vec::new();
        proof {
            assert(values_view(r@) =~= Seq::<SqlV>::empty());
        }
        self.push_row(shop, &mut r);
        proof {
            assert(Seq::<SqlV>::empty() + dispute_row(self@, shop@) =~= dispute_row(self@, shop@));
        }
        r
    }
}

impl Checkout {
    /// Append this abandoned checkout's normalized row to a parameter vector.
    pub fn push_row(&self, shop: &str, dst: &mut Vec<SqlValue>)
        ensures
            values_view(final(dst)@) == values_view(old(dst)@) + checkout_row(self@, shop@),
    {
        dst.push(SqlValue::Uint(self.id));
        dst.push(SqlValue::Text(self.abandoned_checkout_url.clone()));
        dst.push(bind_opt_text(&self.customer.first_name));
        dst.push(bind_opt_text(&self.customer.last_name));
        dst.push(bind_opt_text(&self.customer.email));
        dst.push(SqlValue::Text(shop.to_owned()));
        proof {
            assert(values_view(dst@) =~= values_view(old(dst)@) + checkout_row(self@, shop@));
        }
    }

    /// The mapping from an abandoned checkout to its normalized row.
    pub fn to_row(&self, shop: &str) -> (r: Vec<SqlValue>)
        ensures
            values_view(r@) == checkout_row(self@, shop@),
    {
        let mut r: Vec<SqlValue> = Vec::new();
        proof {
            assert(values_view(r@) =~= Seq::<SqlV>::empty());
        }
        self.push_row(shop, &mut r);
        proof {
            assert(Seq::<SqlV>::empty() + checkout_row(self@, shop@) =~= checkout_row(
                self@,
                shop@,
            ));
        }
        r
    }
}

} // verus!
