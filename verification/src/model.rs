use vstd::prelude::*;

verus! {

/// The access credential obtained from the platform's token exchange.
pub struct Token {
    pub access_token: String,
}

impl View for Token {
    type V = Seq<char>;

    open spec fn view(&self) -> Seq<char> {
        self.access_token@
    }
}

/// Customer identity fields; each is independently optional.
pub struct Customer {
    pub first_name: Option<String>,
    pub last_name: Option<String>,
    pub email: Option<String>,
}

/// Ghost mirror of `Customer`.
pub ghost struct CustomerV {
    pub first_name: Option<Seq<char>>,
    pub last_name: Option<Seq<char>>,
    pub email: Option<Seq<char>>,
}

/// The view of one optional text field.
pub open spec fn opt_view(o: Option<String>) -> Option<Seq<char>> {
    match o {
        Option::None => Option::None,
        Option::Some(s) => Option::Some(s@),
    }
}

impl View for Customer {
    type V = CustomerV;

    open spec fn view(&self) -> CustomerV {
        CustomerV {
            first_name: opt_view(self.first_name),
            last_name: opt_view(self.last_name),
            email: opt_view(self.email),
        }
    }
}

/// One line of an order; owned by exactly one order.
pub struct LineItem {
    pub title: String,
}

impl View for LineItem {
    type V = Seq<char>;

    open spec fn view(&self) -> Seq<char> {
        self.title@
    }
}

/// An order as the platform delivers it, by webhook or by bulk fetch.
pub struct Order {
    pub id: u64,
    pub customer: Customer,
    pub line_items: Vec<LineItem>,
}

/// Ghost mirror of `Order`.
pub ghost struct OrderV {
    pub id: u64,
    pub customer: CustomerV,
    pub line_items: Seq<Seq<char>>,
}

impl View for Order {
    type V = OrderV;

    open spec fn view(&self) -> OrderV {
        OrderV {
            id: self.id,
            customer: self.customer@,
            line_items: self.line_items@.map_values(|li: LineItem| li@),
        }
    }
}

/// A page-shaped batch of orders.
pub struct Orders {
    pub orders: Vec<Order>,
}

impl View for Orders {
    type V = Seq<OrderV>;

    open spec fn view(&self) -> Seq<OrderV> {
        self.orders@.map_values(|o: Order| o@)
    }
}

/// A payment dispute. The monetary amount stays decimal text throughout:
/// it is never parsed as a floating-point number.
pub struct Dispute {
    pub id: u64,
    pub order_id: Option<u64>,
    pub kind: String,
    pub amount: String,
    pub currency: String,
    pub reason: String,
    pub status: String,
    pub initiated_at: String,
    pub evidence_due_by: String,
    pub evidence_sent_on: Option<String>,
}

/// Ghost mirror of `Dispute`.
pub ghost struct DisputeV {
    pub id: u64,
    pub order_id: Option<u64>,
    pub kind: Seq<char>,
    pub amount: Seq<char>,
    pub currency: Seq<char>,
    pub reason: Seq<char>,
    pub status: Seq<char>,
    pub initiated_at: Seq<char>,
    pub evidence_due_by: Seq<char>,
    pub evidence_sent_on: Option<Seq<char>>,
}

impl View for Dispute {
    type V = DisputeV;

    open spec fn view(&self) -> DisputeV {
        DisputeV {
            id: self.id,
            order_id: self.order_id,
            kind: self.kind@,
            amount: self.amount@,
            currency: self.currency@,
            reason: self.reason@,
            status: self.status@,
            initiated_at: self.initiated_at@,
            evidence_due_by: self.evidence_due_by@,
            evidence_sent_on: opt_view(self.evidence_sent_on),
        }
    }
}

/// A page-shaped batch of disputes.
pub struct Disputes {
    pub disputes: Vec<Dispute>,
}

impl View for Disputes {
    type V = Seq<DisputeV>;

    open spec fn view(&self) -> Seq<DisputeV> {
        self.disputes@.map_values(|d: Dispute| d@)
    }
}

/// An abandoned checkout, collected only by the periodic sync.
pub struct Checkout {
    pub id: u64,
    pub abandoned_checkout_url: String,
    pub customer: Customer,
}

/// Ghost mirror of `Checkout`.
pub ghost struct CheckoutV {
    pub id: u64,
    pub abandoned_checkout_url: Seq<char>,
    pub customer: CustomerV,
}

impl View for Checkout {
    type V = CheckoutV;

    open spec fn view(&self) -> CheckoutV {
        CheckoutV {
            id: self.id,
            abandoned_checkout_url: self.abandoned_checkout_url@,
            customer: self.customer@,
        }
    }
}

} // verus!
