use vstd::prelude::*;

verus! {

/// The side of an order in a book.
#[derive(PartialEq, Eq, Structural, Clone, Copy, Debug)]
pub enum OrderSide {
    Bid,
    Ask,
}

#[verifier::external_type_specification]
#[verifier::external_body]
pub struct ExBigDecimal(bigdecimal::BigDecimal);

/// An order in a book: what is bought or sold, against what, on which
/// side, at which price and in which quantity.
pub struct Order<Asset> {
    pub order_id: u64,
    pub order_asset: Asset,
    pub price_asset: Asset,
    pub side: OrderSide,
    pub price: bigdecimal::BigDecimal,
    pub qty: bigdecimal::BigDecimal,
}

/// How an order is priced.
#[derive(PartialEq, Eq, Structural, Clone, Copy, Debug)]
pub enum OrderType {
    Market,
    Limit,
}

/// The assets the broker trades.
#[derive(PartialEq, Eq, Structural, Clone, Copy, Debug)]
pub enum BrokerAsset {
    ADA,
    BTC,
    DOT,
    ETH,
    EUR,
    GRIN,
    UNI,
    USD,
}

/// The side a lowercase side name denotes.
pub open spec fn side_of_name(s: Seq<char>) -> Option<OrderSide> {
    if s == "bid"@ {
        Some(OrderSide::Bid)
    } else if s == "ask"@ {
        Some(OrderSide::Ask)
    } else {
        None
    }
}

impl OrderSide {
    /// Reads a side name: `bid` or `ask`, exactly.
    pub fn from_string(side: &str) -> (r: Option<OrderSide>)
        ensures
            r == side_of_name(side@),
    {
        proof {
            reveal_strlit("bid");
            reveal_strlit("ask");
        }
        if crate::text::str_equal(side, "bid") {
            Some(OrderSide::Bid)
        } else if crate::text::str_equal(side, "ask") {
            Some(OrderSide::Ask)
        } else {
            None
        }
    }
}

/// The successor of `x`.
pub fn add_one(x: i32) -> (r: i32)
    requires
        x < i32::MAX,
    ensures
        r == x + 1,
{
    x + 1
}

} // verus!
