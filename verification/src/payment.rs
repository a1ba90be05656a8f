//! Paying for an order: the payment that closes it, the ways to pay, and
//! when a sum suffices.
//!
//! Sums of money are whole numbers of the unit in which an order's total
//! price is counted.

use crate::text::same_text;
use vstd::prelude::*;
use vstd::string::StringExecFns;

verus! {

/// How many characters a card number has.
pub const CARD_NUMBER_LENGTH: usize = 16;

/// The number of a credit card: a text of exactly sixteen characters.
#[derive(Debug, PartialEq, Eq)]
pub struct CardNumber {
    text: String,
}

impl View for CardNumber {
    type V = Seq<char>;

    closed spec fn view(&self) -> Seq<char> {
        self.text@
    }
}

impl Clone for CardNumber {
    fn clone(&self) -> (r: Self)
        ensures
            r@ == self@,
    {
        proof {
            use_type_invariant(self);
        }
        CardNumber { text: self.text.clone() }
    }
}

impl CardNumber {
    #[verifier::type_invariant]
    spec fn sixteen_characters(&self) -> bool {
        self.text@.len() == CARD_NUMBER_LENGTH
    }

    /// The card number that the text spells, if it has sixteen characters.
    pub fn new(text: String) -> (r: Option<Self>)
        ensures
            r is Some <==> text@.len() == CARD_NUMBER_LENGTH,
            r is Some ==> r.unwrap()@ == text@,
    {
        if text.as_str().unicode_len() == CARD_NUMBER_LENGTH {
            Some(CardNumber { text })
        } else {
            None
        }
    }

    /// The number as text. It has sixteen characters.
    pub fn as_str(&self) -> (r: &str)
        ensures
            r@ == self@,
            r@.len() == CARD_NUMBER_LENGTH,
    {
        proof {
            use_type_invariant(self);
        }
        self.text.as_str()
    }
}

/// A payment as plain mathematical values.
pub enum PaymentView {
    Cash,
    CreditCard { card_number: Seq<char> },
}

/// How an order was paid.
#[derive(Debug, PartialEq, Eq)]
pub enum OrderPayment {
    Cash,
    CreditCard { card_number: CardNumber },
}

impl View for OrderPayment {
    type V = PaymentView;

    open spec fn view(&self) -> PaymentView {
        match self {
            OrderPayment::Cash => PaymentView::Cash,
            OrderPayment::CreditCard { card_number } => PaymentView::CreditCard {
                card_number: card_number@,
            },
        }
    }
}

/// The words that name a payment: `cash`, or `credit card` and the number.
pub open spec fn payment_label(payment: PaymentView) -> Seq<char> {
    match payment {
        PaymentView::Cash => "cash"@,
        PaymentView::CreditCard { card_number } => "credit card "@ + card_number,
    }
}

impl Clone for OrderPayment {
    fn clone(&self) -> (r: Self)
        ensures
            r@ == self@,
    {
        match self {
            OrderPayment::Cash => OrderPayment::Cash,
            OrderPayment::CreditCard { card_number } => OrderPayment::CreditCard {
                card_number: card_number.clone(),
            },
        }
    }
}

impl OrderPayment {
    /// The payment in words.
    pub fn label(&self) -> (r: String)
        ensures
            r@ == payment_label(self@),
    {
        match self {
            OrderPayment::Cash => "cash".to_owned(),
            OrderPayment::CreditCard { card_number } => {
                let mut words = "credit card ".to_owned();
                words.append(card_number.as_str());
                words
            },
        }
    }
}

/// A way to pay.
#[derive(Clone, Copy, Debug, PartialEq, Eq, Structural)]
pub enum PaymentMethod {
    Cash,
    CreditCard,
}

/// The way to pay that the words name: `cash` or `pay on delivery` for cash,
/// `credit` or `credit card` for a card. Other words name none.
pub open spec fn method_named(words: Seq<char>) -> Option<PaymentMethod> {
    if words == "cash"@ || words == "pay on delivery"@ {
        Some(PaymentMethod::Cash)
    } else if words == "credit"@ || words == "credit card"@ {
        Some(PaymentMethod::CreditCard)
    } else {
        None
    }
}

/// Whether a sum is enough to pay a total: it must not be less.
pub open spec fn covers(amount: int, total: int) -> bool {
    amount >= total
}

/// Reads the way to pay from the words a shopper typed.
pub fn parse_payment_method(words: &str) -> (r: Option<PaymentMethod>)
    ensures
        r == method_named(words@),
{
    if same_text(words, "cash") || same_text(words, "pay on delivery") {
        Some(PaymentMethod::Cash)
    } else if same_text(words, "credit") || same_text(words, "credit card") {
        Some(PaymentMethod::CreditCard)
    } else {
        None
    }
}

/// Pays a total in cash. A sum that covers the total gives a cash payment
/// and the change to hand back; a smaller sum gives nothing.
pub fn pay_in_cash(amount: i128, total: i128) -> (r: Option<(OrderPayment, u128)>)
    ensures
        r is Some <==> covers(amount as int, total as int),
        r matches Some((payment, change)) ==> payment@ == PaymentView::Cash && change as int
            == amount - total,
{
    if amount < total {
        return None;
    }
    let change: u128 = if total >= 0 || amount < 0 {
        (amount - total) as u128
    } else {
        let owed: u128 = (-(total + 1)) as u128 + 1;
        amount as u128 + owed
    };
    Some((OrderPayment::Cash, change))
}

/// Pays a total with a credit card. If the sum on the card covers the total
/// this gives a payment with that card; if not, nothing.
pub fn pay_by_card(card_number: CardNumber, amount: i128, total: i128) -> (r: Option<OrderPayment>)
    ensures
        r is Some <==> covers(amount as int, total as int),
        r matches Some(payment) ==> payment@ == (PaymentView::CreditCard {
            card_number: card_number@,
        }),
{
    if amount < total {
        None
    } else {
        Some(OrderPayment::CreditCard { card_number })
    }
}

} // verus!
