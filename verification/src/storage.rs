use vstd::prelude::*;

use crate::model::{
    Checkout, CheckoutV, Customer, Dispute, DisputeV, Disputes, Order, OrderV, Orders, Token,
};

verus! {

/// A merchant installation: domain name (the key), opaque access token,
/// and the abandoned-checkout sync cursor, NULL until the first sync.
pub struct StoreRow {
    pub name: String,
    pub access_token: String,
    pub last_sync: Option<u64>,
}

/// Ghost mirror of `StoreRow`.
pub ghost struct StoreRowV {
    pub name: Seq<char>,
    pub access_token: Seq<char>,
    pub last_sync: Option<u64>,
}

impl View for StoreRow {
    type V = StoreRowV;

    open spec fn view(&self) -> StoreRowV {
        StoreRowV {
            name: self.name@,
            access_token: self.access_token@,
            last_sync: self.last_sync,
        }
    }
}

/// A normalized order row: the mapped order and its owning store.
pub struct OrderRow {
    pub id: u64,
    pub first_name: Option<String>,
    pub last_name: Option<String>,
    pub email: Option<String>,
    pub store_name: String,
}

/// Ghost mirror of `OrderRow`.
pub ghost struct OrderRowV {
    pub id: u64,
    pub first_name: Option<Seq<char>>,
    pub last_name: Option<Seq<char>>,
    pub email: Option<Seq<char>>,
    pub store_name: Seq<char>,
}

impl View for OrderRow {
    type V = OrderRowV;

    open spec fn view(&self) -> OrderRowV {
        OrderRowV {
            id: self.id,
            first_name: crate::model::opt_view(self.first_name),
            last_name: crate::model::opt_view(self.last_name),
            email: crate::model::opt_view(self.email),
            store_name: self.store_name@,
        }
    }
}

/// A normalized line-item row, owned by one order.
pub struct LineItemRow {
    pub title: String,
    pub order_id: u64,
}

/// Ghost mirror of `LineItemRow`.
pub ghost struct LineItemRowV {
    pub title: Seq<char>,
    pub order_id: u64,
}

impl View for LineItemRow {
    type V = LineItemRowV;

    open spec fn view(&self) -> LineItemRowV {
        LineItemRowV { title: self.title@, order_id: self.order_id }
    }
}

/// A normalized dispute row: the dispute and its owning store.
pub struct DisputeRow {
    pub dispute: Dispute,
    pub store_name: String,
}

/// Ghost mirror of `DisputeRow`.
pub ghost struct DisputeRowV {
    pub dispute: DisputeV,
    pub store_name: Seq<char>,
}

impl View for DisputeRow {
    type V = DisputeRowV;

    open spec fn view(&self) -> DisputeRowV {
        DisputeRowV { dispute: self.dispute@, store_name: self.store_name@ }
    }
}

/// A normalized abandoned-checkout row: the checkout and its owning store.
pub struct CheckoutRow {
    pub checkout: Checkout,
    pub store_name: String,
}

/// Ghost mirror of `CheckoutRow`.
pub ghost struct CheckoutRowV {
    pub checkout: CheckoutV,
    pub store_name: Seq<char>,
}

impl View for CheckoutRow {
    type V = CheckoutRowV;

    open spec fn view(&self) -> CheckoutRowV {
        CheckoutRowV { checkout: self.checkout@, store_name: self.store_name@ }
    }
}

/// The views of a table's rows.
pub open spec fn stores_view(v: Seq<StoreRow>) -> Seq<StoreRowV> {
    v.map_values(|r: StoreRow| r@)
}

pub open spec fn orders_view(v: Seq<OrderRow>) -> Seq<OrderRowV> {
    v.map_values(|r: OrderRow| r@)
}

pub open spec fn line_items_view(v: Seq<LineItemRow>) -> Seq<LineItemRowV> {
    v.map_values(|r: LineItemRow| r@)
}

pub open spec fn disputes_view(v: Seq<DisputeRow>) -> Seq<DisputeRowV> {
    v.map_values(|r: DisputeRow| r@)
}

pub open spec fn checkouts_view(v: Seq<CheckoutRow>) -> Seq<CheckoutRowV> {
    v.map_values(|r: CheckoutRow| r@)
}

/// The row an order's identity fields normalize to.
pub open spec fn order_record(o: OrderV, shop: Seq<char>) -> OrderRowV {
    OrderRowV {
        id: o.id,
        first_name: o.customer.first_name,
        last_name: o.customer.last_name,
        email: o.customer.email,
        store_name: shop,
    }
}

/// The line-item rows an order owns.
pub open spec fn line_records(titles: Seq<Seq<char>>, order_id: u64) -> Seq<LineItemRowV> {
    titles.map_values(|t: Seq<char>| LineItemRowV { title: t, order_id: order_id })
}

/// The rows a batch of orders normalizes to.
pub open spec fn orders_records(os: Seq<OrderV>, shop: Seq<char>) -> Seq<OrderRowV> {
    os.map_values(|o: OrderV| order_record(o, shop))
}

/// The line-item rows a batch of orders owns, in batch order.
pub open spec fn orders_line_records(os: Seq<OrderV>) -> Seq<LineItemRowV>
    decreases os.len(),
{
    if os.len() == 0 {
        Seq::empty()
    } else {
        orders_line_records(os.drop_last()) + line_records(os.last().line_items, os.last().id)
    }
}

/// The rows a batch of disputes normalizes to.
pub open spec fn dispute_records(ds: Seq<DisputeV>, shop: Seq<char>) -> Seq<DisputeRowV> {
    ds.map_values(|d: DisputeV| DisputeRowV { dispute: d, store_name: shop })
}

/// The whole persisted state: one logical table per entity. Every row
/// belongs to exactly one store, by name, not by containment. Writes are
/// visible to every later read of the same state.
pub struct Storage {
    pub stores: Vec<StoreRow>,
    pub orders: Vec<OrderRow>,
    pub line_items: Vec<LineItemRow>,
    pub disputes: Vec<DisputeRow>,
    pub checkouts: Vec<CheckoutRow>,
}

impl Customer {
    /// A field-for-field copy.
    pub fn duplicate(&self) -> (r: Customer)
        ensures
            r@ == self@,
    {
        Customer {
            first_name: match &self.first_name {
                Option::None => Option::None,
                Option::Some(s) => Option::Some(s.clone()),
            },
            last_name: match &self.last_name {
                Option::None => Option::None,
                Option::Some(s) => Option::Some(s.clone()),
            },
            email: match &self.email {
                Option::None => Option::None,
                Option::Some(s) => Option::Some(s.clone()),
            },
        }
    }
}

impl Dispute {
    /// A field-for-field copy.
    pub fn duplicate(&self) -> (r: Dispute)
        ensures
            r@ == self@,
    {
        Dispute {
            id: self.id,
            order_id: self.order_id,
            kind: self.kind.clone(),
            amount: self.amount.clone(),
            currency: self.currency.clone(),
            reason: self.reason.clone(),
            status: self.status.clone(),
            initiated_at: self.initiated_at.clone(),
            evidence_due_by: self.evidence_due_by.clone(),
            evidence_sent_on: match &self.evidence_sent_on {
                Option::None => Option::None,
                Option::Some(s) => Option::Some(s.clone()),
            },
        }
    }
}

/// Whether `id` is among the redacted ids.
fn contains_id(ids: &Vec<u64>, id: u64) -> (r: bool)
    ensures
        r == ids@.contains(id),
{
    let mut i: usize = 0;
    while i < ids.len()
        invariant
            i <= ids@.len(),
            forall|m: int| 0 <= m < i ==> ids@[m] != id,
        decreases ids@.len() - i,
    {
        if ids[i] == id {
            return true;
        }
        i += 1;
    }
    proof {
        assert(forall|m: int| 0 <= m < ids@.len() ==> ids@[m] != id);
    }
    false
}

impl Storage {
    /// Empty state: no store is registered, no row persisted.
    pub fn new() -> (r: Storage)
        ensures
            r.stores@ == Seq::<StoreRow>::empty(),
            r.orders@ == Seq::<OrderRow>::empty(),
            r.line_items@ == Seq::<LineItemRow>::empty(),
            r.disputes@ == Seq::<DisputeRow>::empty(),
            r.checkouts@ == Seq::<CheckoutRow>::empty(),
    {
        let r = Storage {
            stores: Vec::new(),
            orders: Vec::new(),
            line_items: Vec::new(),
            disputes: Vec::new(),
            checkouts: Vec::new(),
        };
        proof {
            assert(r.stores@ =~= Seq::<StoreRow>::empty());
            assert(r.orders@ =~= Seq::<OrderRow>::empty());
            assert(r.line_items@ =~= Seq::<LineItemRow>::empty());
            assert(r.disputes@ =~= Seq::<DisputeRow>::empty());
            assert(r.checkouts@ =~= Seq::<CheckoutRow>::empty());
        }
        r
    }

    /// Register a store after a successful install: its row is appended
    /// with the exchanged token and a NULL sync cursor.
    pub fn insert_store(&mut self, shop: &str, token: &Token)
        ensures
            stores_view(final(self).stores@) == stores_view(old(self).stores@).push(
                StoreRowV { name: shop@, access_token: token@, last_sync: Option::None },
            ),
            final(self).orders == old(self).orders,
            final(self).line_items == old(self).line_items,
            final(self).disputes == old(self).disputes,
            final(self).checkouts == old(self).checkouts,
    {
        self.stores.push(
            StoreRow {
                name: shop.to_owned(),
                access_token: token.access_token.clone(),
                last_sync: Option::None,
            },
        );
        proof {
            assert(stores_view(self.stores@) =~~= stores_view(old(self).stores@).push(
                StoreRowV { name: shop@, access_token: token@, last_sync: Option::None },
            ));
        }
    }

    /// Persist one order and the line items it owns.
    pub fn insert_order(&mut self, o: &Order, shop: &str)
        ensures
            orders_view(final(self).orders@) == orders_view(old(self).orders@).push(
                order_record(o@, shop@),
            ),
            line_items_view(final(self).line_items@) == line_items_view(old(self).line_items@)
                + line_records(o@.line_items, o@.id),
            final(self).stores == old(self).stores,
            final(self).disputes == old(self).disputes,
            final(self).checkouts == old(self).checkouts,
    {
        self.orders.push(
            OrderRow {
                id: o.id,
                first_name: match &o.customer.first_name {
                    Option::None => Option::None,
                    Option::Some(s) => Option::Some(s.clone()),
                },
                last_name: match &o.customer.last_name {
                    Option::None => Option::None,
                    Option::Some(s) => Option::Some(s.clone()),
                },
                email: match &o.customer.email {
                    Option::None => Option::None,
                    Option::Some(s) => Option::Some(s.clone()),
                },
                store_name: shop.to_owned(),
            },
        );
        proof {
            assert(orders_view(self.orders@) =~~= orders_view(old(self).orders@).push(
                order_record(o@, shop@),
            ));
        }
        let ghost mid = self.line_items@;
        let ghost target = line_records(o@.line_items, o@.id);
        let mut j: usize = 0;
        proof {
            assert(line_items_view(self.line_items@) =~= line_items_view(mid) + target.take(0));
        }
        while j < o.line_items.len()
            invariant
                j <= o.line_items@.len(),
                target == line_records(o@.line_items, o@.id),
                target.len() == o.line_items@.len(),
                line_items_view(self.line_items@) == line_items_view(mid) + target.take(j as int),
                self.stores == old(self).stores,
                orders_view(self.orders@) == orders_view(old(self).orders@).push(
                    order_record(o@, shop@),
                ),
                self.disputes == old(self).disputes,
                self.checkouts == old(self).checkouts,
                mid == old(self).line_items@,
            decreases o.line_items@.len() - j,
        {
            let ghost prev = self.line_items@;
            self.line_items.push(
                LineItemRow { title: o.line_items[j].title.clone(), order_id: o.id },
            );
            proof {
                assert(line_items_view(prev).len() == prev.len());
                assert(line_items_view(mid).len() == mid.len());
                assert(prev.len() == mid.len() + j);
                assert(self.line_items@.len() == prev.len() + 1);
                assert forall|m: int| 0 <= m < prev.len() implies line_items_view(
                    self.line_items@,
                )[m] == line_items_view(prev)[m] by {
                    assert(line_items_view(self.line_items@)[m] == self.line_items@[m]@);
                    assert(self.line_items@[m] == prev[m]);
                    assert(line_items_view(prev)[m] == prev[m]@);
                }
                assert(line_items_view(self.line_items@)[prev.len() as int]
                    == self.line_items@[prev.len() as int]@);
                assert(o@.line_items[j as int] == o.line_items@[j as int]@);
                assert(target[j as int] == LineItemRowV {
                    title: o@.line_items[j as int],
                    order_id: o@.id,
                });
                assert(self.line_items@[prev.len() as int]@ == target[j as int]);
                let ghost lhs = line_items_view(self.line_items@);
                let ghost rhs = line_items_view(mid) + target.take(j + 1);
                assert(lhs.len() == self.line_items@.len());
                assert(rhs.len() == mid.len() + j + 1);
                assert forall|m: int| 0 <= m < lhs.len() implies lhs[m] == rhs[m] by {
                    assert(lhs[m] == self.line_items@[m]@);
                    if m < prev.len() {
                        assert(self.line_items@[m] == prev[m]);
                        assert(line_items_view(prev)[m] == prev[m]@);
                        assert(line_items_view(prev)[m] == (line_items_view(mid) + target.take(
                            j as int,
                        ))[m]);
                        if m < mid.len() {
                            assert(rhs[m] == line_items_view(mid)[m]);
                        } else {
                            assert((line_items_view(mid) + target.take(j as int))[m]
                                == target.take(j as int)[m - mid.len()]);
                            assert(rhs[m] == target.take(j + 1)[m - mid.len()]);
                        }
                    } else {
                        assert(m == prev.len());
                        assert(rhs[m] == target.take(j + 1)[j as int]);
                    }
                }
                assert(lhs =~= rhs);
            }
            j += 1;
        }
        proof {
            assert(target.take(o.line_items@.len() as int) =~= target);
        }
    }

    /// Persist one dispute.
    pub fn insert_dispute(&mut self, d: &Dispute, shop: &str)
        ensures
            disputes_view(final(self).disputes@) == disputes_view(old(self).disputes@).push(
                DisputeRowV { dispute: d@, store_name: shop@ },
            ),
            final(self).stores == old(self).stores,
            final(self).orders == old(self).orders,
            final(self).line_items == old(self).line_items,
            final(self).checkouts == old(self).checkouts,
    {
        self.disputes.push(DisputeRow { dispute: d.duplicate(), store_name: shop.to_owned() });
        proof {
            assert(disputes_view(self.disputes@) =~~= disputes_view(old(self).disputes@).push(
                DisputeRowV { dispute: d@, store_name: shop@ },
            ));
        }
    }

    /// Persist one abandoned checkout.
    pub fn insert_checkout(&mut self, c: &Checkout, shop: &str)
        ensures
            checkouts_view(final(self).checkouts@) == checkouts_view(old(self).checkouts@).push(
                CheckoutRowV { checkout: c@, store_name: shop@ },
            ),
            final(self).stores == old(self).stores,
            final(self).orders == old(self).orders,
            final(self).line_items == old(self).line_items,
            final(self).disputes == old(self).disputes,
    {
        self.checkouts.push(
            CheckoutRow {
                checkout: Checkout {
                    id: c.id,
                    abandoned_checkout_url: c.abandoned_checkout_url.clone(),
                    customer: c.customer.duplicate(),
                },
                store_name: shop.to_owned(),
            },
        );
        proof {
            assert(checkouts_view(self.checkouts@) =~~= checkouts_view(old(self).checkouts@).push(
                CheckoutRowV { checkout: c@, store_name: shop@ },
            ));
        }
    }

    /// Persist a fetched batch of orders, each with its line items, through
    /// the same mapping as the webhook path.
    pub fn insert_orders(&mut self, batch: &Orders, shop: &str)
        ensures
            orders_view(final(self).orders@) == orders_view(old(self).orders@) + orders_records(
                batch@,
                shop@,
            ),
            line_items_view(final(self).line_items@) == line_items_view(old(self).line_items@)
                + orders_line_records(batch@),
            final(self).stores == old(self).stores,
            final(self).disputes == old(self).disputes,
            final(self).checkouts == old(self).checkouts,
    {
        let ghost bv = batch@;
        let mut i: usize = 0;
        proof {
            assert(bv.take(0) =~= Seq::<OrderV>::empty());
            assert(orders_records(bv.take(0), shop@) =~= Seq::<OrderRowV>::empty());
            assert(orders_view(self.orders@) + Seq::<OrderRowV>::empty() =~= orders_view(
                self.orders@,
            ));
            assert(line_items_view(self.line_items@) + Seq::<LineItemRowV>::empty()
                =~= line_items_view(self.line_items@));
        }
        while i < batch.orders.len()
            invariant
                i <= batch.orders@.len(),
                bv == batch@,
                bv.len() == batch.orders@.len(),
                orders_view(self.orders@) == orders_view(old(self).orders@) + orders_records(
                    bv.take(i as int),
                    shop@,
                ),
                line_items_view(self.line_items@) == line_items_view(old(self).line_items@)
                    + orders_line_records(bv.take(i as int)),
                self.stores == old(self).stores,
                self.disputes == old(self).disputes,
                self.checkouts == old(self).checkouts,
            decreases batch.orders@.len() - i,
        {
            proof {
                assert(bv.take(i + 1).drop_last() =~= bv.take(i as int));
                assert(bv.take(i + 1).last() == bv[i as int]);
                assert(bv[i as int] == batch.orders@[i as int]@);
            }
            let ghost before_orders = orders_view(self.orders@);
            let ghost before_lines = line_items_view(self.line_items@);
            self.insert_order(&batch.orders[i], shop);
            proof {
                assert(orders_records(bv.take(i + 1), shop@) =~= orders_records(
                    bv.take(i as int),
                    shop@,
                ).push(order_record(bv[i as int], shop@)));
                assert(orders_view(self.orders@) =~= orders_view(old(self).orders@)
                    + orders_records(bv.take(i + 1), shop@));
                assert(orders_line_records(bv.take(i + 1)) == orders_line_records(
                    bv.take(i as int),
                ) + line_records(bv[i as int].line_items, bv[i as int].id));
                assert(line_items_view(self.line_items@) =~= line_items_view(old(self).line_items@)
                    + orders_line_records(bv.take(i + 1)));
            }
            i += 1;
        }
        proof {
            assert(bv.take(batch.orders@.len() as int) =~= bv);
        }
    }

    /// Persist a fetched batch of disputes.
    pub fn insert_disputes(&mut self, batch: &Disputes, shop: &str)
        ensures
            disputes_view(final(self).disputes@) == disputes_view(old(self).disputes@)
                + dispute_records(batch@, shop@),
            final(self).stores == old(self).stores,
            final(self).orders == old(self).orders,
            final(self).line_items == old(self).line_items,
            final(self).checkouts == old(self).checkouts,
    {
        let ghost bv = batch@;
        let mut i: usize = 0;
        proof {
            assert(bv.take(0) =~= Seq::<DisputeV>::empty());
            assert(dispute_records(bv.take(0), shop@) =~= Seq::<DisputeRowV>::empty());
            assert(disputes_view(self.disputes@) + Seq::<DisputeRowV>::empty() =~= disputes_view(
                self.disputes@,
            ));
        }
        while i < batch.disputes.len()
            invariant
                i <= batch.disputes@.len(),
                bv == batch@,
                bv.len() == batch.disputes@.len(),
                disputes_view(self.disputes@) == disputes_view(old(self).disputes@)
                    + dispute_records(bv.take(i as int), shop@),
                self.stores == old(self).stores,
                self.orders == old(self).orders,
                self.line_items == old(self).line_items,
                self.checkouts == old(self).checkouts,
            decreases batch.disputes@.len() - i,
        {
            proof {
                assert(bv.take(i + 1).drop_last() =~= bv.take(i as int));
                assert(bv.take(i + 1).last() == bv[i as int]);
                assert(bv[i as int] == batch.disputes@[i as int]@);
            }
            self.insert_dispute(&batch.disputes[i], shop);
            proof {
                assert(dispute_records(bv.take(i + 1), shop@) =~= dispute_records(
                    bv.take(i as int),
                    shop@,
                ).push(DisputeRowV { dispute: bv[i as int], store_name: shop@ }));
                assert(disputes_view(self.disputes@) =~= disputes_view(old(self).disputes@)
                    + dispute_records(bv.take(i + 1), shop@));
            }
            i += 1;
        }
        proof {
            assert(bv.take(batch.disputes@.len() as int) =~= bv);
        }
    }

    /// Apply the update-webhook: a full-row replacement of every mutable
    /// field of each dispute row whose external id matches, keeping id and
    /// owning store. An id not present matches zero rows: the state is
    /// left exactly as it was, and that is no error.
    pub fn update_dispute(&mut self, d: &Dispute)
        ensures
            final(self).disputes@.len() == old(self).disputes@.len(),
            forall|k: int|
                0 <= k < old(self).disputes@.len() ==> (#[trigger] final(self).disputes@[k]@)
                    == if old(self).disputes@[k]@.dispute.id == d@.id {
                    DisputeRowV { dispute: d@, store_name: old(self).disputes@[k]@.store_name }
                } else {
                    old(self).disputes@[k]@
                },
            (forall|k: int|
                0 <= k < old(self).disputes@.len() ==> (#[trigger] old(
                    self,
                ).disputes@[k]@).dispute.id != d@.id) ==> final(self).disputes
                == old(self).disputes,
            final(self).stores == old(self).stores,
            final(self).orders == old(self).orders,
            final(self).line_items == old(self).line_items,
            final(self).checkouts == old(self).checkouts,
    {
        let mut k: usize = 0;
        while k < self.disputes.len()
            invariant
                k <= self.disputes@.len(),
                self.disputes@.len() == old(self).disputes@.len(),
                forall|m: int|
                    0 <= m < k ==> (#[trigger] self.disputes@[m]@) == if old(
                        self,
                    ).disputes@[m]@.dispute.id == d@.id {
                        DisputeRowV {
                            dispute: d@,
                            store_name: old(self).disputes@[m]@.store_name,
                        }
                    } else {
                        old(self).disputes@[m]@
                    },
                forall|m: int|
                    k <= m < self.disputes@.len() ==> #[trigger] self.disputes@[m] == old(
                        self,
                    ).disputes@[m],
                (forall|m: int|
                    0 <= m < k ==> (#[trigger] old(self).disputes@[m]@).dispute.id != d@.id)
                    ==> self.disputes == old(self).disputes,
                self.stores == old(self).stores,
                self.orders == old(self).orders,
                self.line_items == old(self).line_items,
                self.checkouts == old(self).checkouts,
            decreases self.disputes@.len() - k,
        {
            if self.disputes[k].dispute.id == d.id {
                proof {
                    assert((old(self).disputes@[k as int]@).dispute.id == d@.id);
                }
                let store_name = self.disputes[k].store_name.clone();
                self.disputes.set(k, DisputeRow { dispute: d.duplicate(), store_name });
                proof {
                    assert(self.disputes@[k as int]@ == DisputeRowV {
                        dispute: d@,
                        store_name: old(self).disputes@[k as int]@.store_name,
                    });
                }
            } else {
                proof {
                    assert((old(self).disputes@[k as int]@).dispute.id != d@.id);
                }
            }
            k += 1;
        }
    }

    /// Advance a store's abandoned-checkout sync cursor: every store row
    /// with the given domain carries the new timestamp; no other row, and
    /// no other field, changes.
    pub fn set_sync_cursor(&mut self, shop: &str, ts: u64)
        ensures
            final(self).stores@.len() == old(self).stores@.len(),
            forall|k: int|
                0 <= k < old(self).stores@.len() ==> (#[trigger] final(self).stores@[k]@)
                    == if old(self).stores@[k]@.name == shop@ {
                    StoreRowV {
                        name: old(self).stores@[k]@.name,
                        access_token: old(self).stores@[k]@.access_token,
                        last_sync: Option::Some(ts),
                    }
                } else {
                    old(self).stores@[k]@
                },
            final(self).orders == old(self).orders,
            final(self).line_items == old(self).line_items,
            final(self).disputes == old(self).disputes,
            final(self).checkouts == old(self).checkouts,
    {
        let target: String = shop.to_owned();
        let mut k: usize = 0;
        while k < self.stores.len()
            invariant
                k <= self.stores@.len(),
                target@ == shop@,
                self.stores@.len() == old(self).stores@.len(),
                forall|m: int|
                    0 <= m < k ==> (#[trigger] self.stores@[m]@) == if old(
                        self,
                    ).stores@[m]@.name == shop@ {
                        StoreRowV {
                            name: old(self).stores@[m]@.name,
                            access_token: old(self).stores@[m]@.access_token,
                            last_sync: Option::Some(ts),
                        }
                    } else {
                        old(self).stores@[m]@
                    },
                forall|m: int|
                    k <= m < self.stores@.len() ==> #[trigger] self.stores@[m] == old(
                        self,
                    ).stores@[m],
                self.orders == old(self).orders,
                self.line_items == old(self).line_items,
                self.disputes == old(self).disputes,
                self.checkouts == old(self).checkouts,
            decreases self.stores@.len() - k,
        {
            if self.stores[k].name == target {
                proof {
                    assert(old(self).stores@[k as int]@.name == shop@);
                }
                let name = self.stores[k].name.clone();
                let access_token = self.stores[k].access_token.clone();
                self.stores.set(k, StoreRow { name, access_token, last_sync: Option::Some(ts) });
                proof {
                    assert(self.stores@[k as int]@ == StoreRowV {
                        name: old(self).stores@[k as int]@.name,
                        access_token: old(self).stores@[k as int]@.access_token,
                        last_sync: Option::Some(ts),
                    });
                }
            } else {
                proof {
                    assert(old(self).stores@[k as int]@.name != shop@);
                }
            }
            k += 1;
        }
    }

    /// Apply a data-erasure request to the orders table: remove exactly
    /// the rows whose external id is among the redacted ids.
    pub fn erase_orders_by_ids(&mut self, ids: &Vec<u64>)
        ensures
            orders_view(final(self).orders@) == orders_view(old(self).orders@).filter(
                |r: OrderRowV| !ids@.contains(r.id),
            ),
            final(self).stores == old(self).stores,
            final(self).line_items == old(self).line_items,
            final(self).disputes == old(self).disputes,
            final(self).checkouts == old(self).checkouts,
    {
        let ghost pred = |r: OrderRowV| !ids@.contains(r.id);
        let ghost orig = orders_view(self.orders@);
        let mut kept: Vec<OrderRow> = Vec::new();
        let mut i: usize = 0;
        proof {
            assert(orig.take(0) =~= Seq::<OrderRowV>::empty());
            assert(Seq::<OrderRowV>::empty().filter(pred) =~= Seq::<OrderRowV>::empty()) by {
                reveal(Seq::filter);
            }
            assert(orders_view(kept@) =~= Seq::<OrderRowV>::empty());
        }
        while i < self.orders.len()
            invariant
                i <= self.orders@.len(),
                orig == orders_view(self.orders@),
                orig.len() == self.orders@.len(),
                orders_view(kept@) == orig.take(i as int).filter(pred),
                pred == (|r: OrderRowV| !ids@.contains(r.id)),
                self.stores == old(self).stores,
                self.line_items == old(self).line_items,
                self.disputes == old(self).disputes,
                self.checkouts == old(self).checkouts,
                self.orders == old(self).orders,
            decreases self.orders@.len() - i,
        {
            proof {
                assert(orig.take(i + 1) =~= orig.take(i as int).push(orig[i as int]));
                orig.take(i as int).lemma_filter_push(orig[i as int], pred);
            }
            let row = &self.orders[i];
            if !contains_id(ids, row.id) {
                let copy = OrderRow {
                    id: row.id,
                    first_name: match &row.first_name {
                        Option::None => Option::None,
                        Option::Some(s) => Option::Some(s.clone()),
                    },
                    last_name: match &row.last_name {
                        Option::None => Option::None,
                        Option::Some(s) => Option::Some(s.clone()),
                    },
                    email: match &row.email {
                        Option::None => Option::None,
                        Option::Some(s) => Option::Some(s.clone()),
                    },
                    store_name: row.store_name.clone(),
                };
                kept.push(copy);
                proof {
                    assert(orig[i as int] == self.orders@[i as int]@);
                    assert(pred(orig[i as int]));
                    assert(orders_view(kept@) =~~= orig.take(i as int).filter(pred).push(
                        orig[i as int],
                    ));
                }
            } else {
                proof {
                    assert(orig[i as int] == self.orders@[i as int]@);
                    assert(!pred(orig[i as int]));
                }
            }
            i += 1;
        }
        proof {
            assert(orig.take(self.orders@.len() as int) =~= orig);
        }
        self.orders = kept;
    }

    /// Apply a data-erasure request to the abandoned checkouts: remove
    /// exactly the rows whose customer email is the redacted one.
    pub fn erase_checkouts_by_email(&mut self, email: &str)
        ensures
            checkouts_view(final(self).checkouts@) == checkouts_view(old(self).checkouts@).filter(
                |r: CheckoutRowV| r.checkout.customer.email != Option::Some(email@),
            ),
            final(self).stores == old(self).stores,
            final(self).orders == old(self).orders,
            final(self).line_items == old(self).line_items,
            final(self).disputes == old(self).disputes,
    {
        let ghost pred = |r: CheckoutRowV| r.checkout.customer.email != Option::Some(email@);
        let ghost orig = checkouts_view(self.checkouts@);
        let target: String = email.to_owned();
        let mut kept: Vec<CheckoutRow> = Vec::new();
        let mut i: usize = 0;
        proof {
            assert(orig.take(0) =~= Seq::<CheckoutRowV>::empty());
            assert(Seq::<CheckoutRowV>::empty().filter(pred) =~= Seq::<CheckoutRowV>::empty()) by {
                reveal(Seq::filter);
            }
            assert(checkouts_view(kept@) =~= Seq::<CheckoutRowV>::empty());
        }
        while i < self.checkouts.len()
            invariant
                i <= self.checkouts@.len(),
                orig == checkouts_view(self.checkouts@),
                orig.len() == self.checkouts@.len(),
                checkouts_view(kept@) == orig.take(i as int).filter(pred),
                pred == (|r: CheckoutRowV| r.checkout.customer.email != Option::Some(email@)),
                target@ == email@,
                self.stores == old(self).stores,
                self.orders == old(self).orders,
                self.line_items == old(self).line_items,
                self.disputes == old(self).disputes,
                self.checkouts == old(self).checkouts,
            decreases self.checkouts@.len() - i,
        {
            proof {
                assert(orig.take(i + 1) =~= orig.take(i as int).push(orig[i as int]));
                orig.take(i as int).lemma_filter_push(orig[i as int], pred);
            }
            let row = &self.checkouts[i];
            let matches_email = match &row.checkout.customer.email {
                Option::None => false,
                Option::Some(e) => *e == target,
            };
            if !matches_email {
                let copy = CheckoutRow {
                    checkout: Checkout {
                        id: row.checkout.id,
                        abandoned_checkout_url: row.checkout.abandoned_checkout_url.clone(),
                        customer: row.checkout.customer.duplicate(),
                    },
                    store_name: row.store_name.clone(),
                };
                kept.push(copy);
                proof {
                    assert(orig[i as int] == self.checkouts@[i as int]@);
                    assert(pred(orig[i as int]));
                    assert(checkouts_view(kept@) =~~= orig.take(i as int).filter(pred).push(
                        orig[i as int],
                    ));
                }
            } else {
                proof {
                    assert(orig[i as int] == self.checkouts@[i as int]@);
                    assert(!pred(orig[i as int]));
                }
            }
            i += 1;
        }
        proof {
            assert(orig.take(self.checkouts@.len() as int) =~= orig);
        }
        self.checkouts = kept;
    }

    /// Apply a shop-erasure request: remove exactly the store rows whose
    /// domain equals the given one, and nothing else. Rows owned by the
    /// store in other tables are not cascaded here, as the schema does not
    /// enforce a cascade.
    pub fn erase_shop(&mut self, domain: &str)
        ensures
            stores_view(final(self).stores@) == stores_view(old(self).stores@).filter(
                |r: StoreRowV| r.name != domain@,
            ),
            final(self).orders == old(self).orders,
            final(self).line_items == old(self).line_items,
            final(self).disputes == old(self).disputes,
            final(self).checkouts == old(self).checkouts,
    {
        broadcast use Seq::lemma_filter_push;

        let ghost pred = |r: StoreRowV| r.name != domain@;
        let ghost orig = stores_view(self.stores@);
        let target: String = domain.to_owned();
        let mut kept: Vec<StoreRow> = Vec::new();
        let mut i: usize = 0;
        proof {
            assert(orig.take(0) =~= Seq::<StoreRowV>::empty());
            assert(Seq::<StoreRowV>::empty().filter(pred) =~= Seq::<StoreRowV>::empty()) by {
                reveal(Seq::filter);
            }
            assert(stores_view(kept@) =~= Seq::<StoreRowV>::empty());
        }
        while i < self.stores.len()
            invariant
                i <= self.stores@.len(),
                orig == stores_view(self.stores@),
                orig.len() == self.stores@.len(),
                stores_view(kept@) == orig.take(i as int).filter(pred),
                pred == (|r: StoreRowV| r.name != domain@),
                target@ == domain@,
                self.orders == old(self).orders,
                self.line_items == old(self).line_items,
                self.disputes == old(self).disputes,
                self.checkouts == old(self).checkouts,
                self.stores == old(self).stores,
            decreases self.stores@.len() - i,
        {
            proof {
                assert(orig.take(i + 1) =~= orig.take(i as int).push(orig[i as int]));
                orig.take(i as int).lemma_filter_push(orig[i as int], pred);
            }
            let row = &self.stores[i];
            if !(row.name == target) {
                let copy = StoreRow {
                    name: row.name.clone(),
                    access_token: row.access_token.clone(),
                    last_sync: row.last_sync,
                };
                kept.push(copy);
                proof {
                    assert(orig[i as int] == self.stores@[i as int]@);
                    assert(pred(orig[i as int]));
                    assert(stores_view(kept@) =~~= orig.take(i as int).filter(pred).push(
                        orig[i as int],
                    ));
                }
            } else {
                proof {
                    assert(orig[i as int] == self.stores@[i as int]@);
                    assert(!pred(orig[i as int]));
                }
            }
            i += 1;
        }
        proof {
            assert(orig.take(self.stores@.len() as int) =~= orig);
        }
        self.stores = kept;
    }
}

} // verus!
