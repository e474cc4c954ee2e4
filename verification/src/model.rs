//! Domain event types produced by the load operations, and the scaled
//! price and quantity values they carry.

use vstd::prelude::*;
use crate::decimal::{parse_scaled_i64, spec_parse_scaled_i64};
use crate::errors::FaultKind;

verus! {

/// Order-book side of an order or level.
#[derive(Clone, Copy, PartialEq, Eq, Structural, Debug)]
pub enum OrderSide {
    Buy,
    Sell,
}

/// The mutation a delta applies to a book. `Clear` exists in the domain
/// model but is never derived from this source format, which has no
/// explicit clear-book event.
#[derive(Clone, Copy, PartialEq, Eq, Structural, Debug)]
pub enum BookAction {
    Add,
    Update,
    Delete,
    Clear,
}

/// Which side of a trade was the aggressor.
#[derive(Clone, Copy, PartialEq, Eq, Structural, Debug)]
pub enum AggressorSide {
    Buyer,
    Seller,
}

/// Record flag bit set on the final delta of an update batch.
pub const F_LAST: u8 = 128;

/// A signed decimal price at a fixed precision: the value is `raw` divided
/// by ten to the `precision`.
#[derive(Clone, Copy, PartialEq, Eq, Structural, Debug)]
pub struct Price {
    pub raw: i64,
    pub precision: u8,
}

/// A non-negative decimal quantity at a fixed precision: the value is `raw`
/// divided by ten to the `precision`.
#[derive(Clone, Copy, PartialEq, Eq, Structural, Debug)]
pub struct Quantity {
    pub raw: u64,
    pub precision: u8,
}

impl Price {
    /// A zero price at the given precision.
    pub fn zero(precision: u8) -> (r: Price)
        ensures
            r == (Price { raw: 0, precision }),
    {
        Price { raw: 0, precision }
    }

    /// Parses a decimal byte string into a price at `precision`, rounding
    /// half to even; `None` when the string is not a decimal literal or the
    /// scaled value does not fit.
    pub fn from_bytes(s: &Vec<u8>, precision: u8) -> (r: Option<Price>)
        requires
            precision <= 9,
        ensures
            r == match spec_parse_scaled_i64(s@, precision as nat) {
                Some(v) => Some(Price { raw: v, precision }),
                None => None::<Price>,
            },
    {
        match parse_scaled_i64(s, precision) {
            Some(v) => Some(Price { raw: v, precision }),
            None => None,
        }
    }
}

/// What `Quantity::from_bytes` yields for a byte string: the parsed scaled
/// value when it is a non-negative decimal, a decode fault when it is no
/// decimal at all, and a parse fault when it is negative.
pub open spec fn spec_quantity_of(s: Seq<u8>, precision: u8) -> Result<Quantity, FaultKind> {
    match spec_parse_scaled_i64(s, precision as nat) {
        Some(v) => if v >= 0 {
            Ok(Quantity { raw: v as u64, precision })
        } else {
            Err(FaultKind::Parse)
        },
        None => Err(FaultKind::Decode),
    }
}

impl Quantity {
    /// A zero quantity at the given precision.
    pub fn zero(precision: u8) -> (r: Quantity)
        ensures
            r == (Quantity { raw: 0, precision }),
    {
        Quantity { raw: 0, precision }
    }

    /// Parses a decimal byte string into a quantity at `precision`, rounding
    /// half to even; negative values are a domain error, not clamped.
    pub fn from_bytes(s: &Vec<u8>, precision: u8) -> (r: Result<Quantity, FaultKind>)
        requires
            precision <= 9,
        ensures
            r == spec_quantity_of(s@, precision),
    {
        match parse_scaled_i64(s, precision) {
            Some(v) => if v >= 0 {
                Ok(Quantity { raw: v as u64, precision })
            } else {
                Err(FaultKind::Parse)
            },
            None => Err(FaultKind::Decode),
        }
    }
}

/// Identifies an instrument by raw symbol and venue, composed
/// deterministically from the row's exchange and symbol fields.
#[derive(Clone, PartialEq, Eq, Debug)]
pub struct InstrumentId {
    pub symbol: Vec<u8>,
    pub venue: Vec<u8>,
}

#[verifier::ext_equal]
pub struct InstrumentIdView {
    pub symbol: Seq<u8>,
    pub venue: Seq<u8>,
}

impl View for InstrumentId {
    type V = InstrumentIdView;

    open spec fn view(&self) -> InstrumentIdView {
        InstrumentIdView { symbol: self.symbol@, venue: self.venue@ }
    }
}

/// Venue-assigned identifier of one trade.
#[derive(Clone, PartialEq, Eq, Debug)]
pub struct TradeId {
    pub value: Vec<u8>,
}

impl View for TradeId {
    type V = Seq<u8>;

    open spec fn view(&self) -> Seq<u8> {
        self.value@
    }
}

/// One order, or one level, of an order book.
#[derive(Clone, Copy, PartialEq, Eq, Structural, Debug)]
pub struct BookOrder {
    pub side: OrderSide,
    pub price: Price,
    pub size: Quantity,
    pub order_id: u64,
}

/// The sentinel standing for an absent price level in a fixed-shape array:
/// zero price, zero size, side `Buy`, order id zero. Callers tell it from a
/// legitimately zero-priced level only by convention.
pub open spec fn spec_null_order() -> BookOrder {
    BookOrder {
        side: OrderSide::Buy,
        price: Price { raw: 0, precision: 0 },
        size: Quantity { raw: 0, precision: 0 },
        order_id: 0,
    }
}

/// The empty-order sentinel.
pub fn null_order() -> (r: BookOrder)
    ensures
        r == spec_null_order(),
{
    BookOrder {
        side: OrderSide::Buy,
        price: Price { raw: 0, precision: 0 },
        size: Quantity { raw: 0, precision: 0 },
        order_id: 0,
    }
}

/// One atomic mutation of an order book.
#[derive(Clone, PartialEq, Eq, Debug)]
pub struct OrderBookDelta {
    pub instrument_id: InstrumentId,
    pub action: BookAction,
    pub order: BookOrder,
    pub flags: u8,
    pub sequence: u64,
    pub ts_event: u64,
    pub ts_init: u64,
}

#[verifier::ext_equal]
pub struct DeltaView {
    pub instrument_id: InstrumentIdView,
    pub action: BookAction,
    pub order: BookOrder,
    pub flags: u8,
    pub sequence: u64,
    pub ts_event: u64,
    pub ts_init: u64,
}

impl View for OrderBookDelta {
    type V = DeltaView;

    open spec fn view(&self) -> DeltaView {
        DeltaView {
            instrument_id: self.instrument_id@,
            action: self.action,
            order: self.order,
            flags: self.flags,
            sequence: self.sequence,
            ts_event: self.ts_event,
            ts_init: self.ts_init,
        }
    }
}

/// A snapshot of the best ten levels per side at one instant.
#[derive(Clone, PartialEq, Eq, Debug)]
pub struct OrderBookDepth10 {
    pub instrument_id: InstrumentId,
    pub bids: Vec<BookOrder>,
    pub asks: Vec<BookOrder>,
    pub bid_counts: Vec<u32>,
    pub ask_counts: Vec<u32>,
    pub flags: u8,
    pub sequence: u64,
    pub ts_event: u64,
    pub ts_init: u64,
}

#[verifier::ext_equal]
pub struct Depth10View {
    pub instrument_id: InstrumentIdView,
    pub bids: Seq<BookOrder>,
    pub asks: Seq<BookOrder>,
    pub bid_counts: Seq<u32>,
    pub ask_counts: Seq<u32>,
    pub flags: u8,
    pub sequence: u64,
    pub ts_event: u64,
    pub ts_init: u64,
}

impl View for OrderBookDepth10 {
    type V = Depth10View;

    open spec fn view(&self) -> Depth10View {
        Depth10View {
            instrument_id: self.instrument_id@,
            bids: self.bids@,
            asks: self.asks@,
            bid_counts: self.bid_counts@,
            ask_counts: self.ask_counts@,
            flags: self.flags,
            sequence: self.sequence,
            ts_event: self.ts_event,
            ts_init: self.ts_init,
        }
    }
}

/// Top-of-book quote at one instant.
#[derive(Clone, PartialEq, Eq, Debug)]
pub struct QuoteTick {
    pub instrument_id: InstrumentId,
    pub bid_price: Price,
    pub ask_price: Price,
    pub bid_size: Quantity,
    pub ask_size: Quantity,
    pub ts_event: u64,
    pub ts_init: u64,
}

#[verifier::ext_equal]
pub struct QuoteView {
    pub instrument_id: InstrumentIdView,
    pub bid_price: Price,
    pub ask_price: Price,
    pub bid_size: Quantity,
    pub ask_size: Quantity,
    pub ts_event: u64,
    pub ts_init: u64,
}

impl View for QuoteTick {
    type V = QuoteView;

    open spec fn view(&self) -> QuoteView {
        QuoteView {
            instrument_id: self.instrument_id@,
            bid_price: self.bid_price,
            ask_price: self.ask_price,
            bid_size: self.bid_size,
            ask_size: self.ask_size,
            ts_event: self.ts_event,
            ts_init: self.ts_init,
        }
    }
}

/// One executed trade.
#[derive(Clone, PartialEq, Eq, Debug)]
pub struct TradeTick {
    pub instrument_id: InstrumentId,
    pub price: Price,
    pub size: Quantity,
    pub aggressor_side: AggressorSide,
    pub trade_id: TradeId,
    pub ts_event: u64,
    pub ts_init: u64,
}

#[verifier::ext_equal]
pub struct TradeView {
    pub instrument_id: InstrumentIdView,
    pub price: Price,
    pub size: Quantity,
    pub aggressor_side: AggressorSide,
    pub trade_id: Seq<u8>,
    pub ts_event: u64,
    pub ts_init: u64,
}

impl View for TradeTick {
    type V = TradeView;

    open spec fn view(&self) -> TradeView {
        TradeView {
            instrument_id: self.instrument_id@,
            price: self.price,
            size: self.size,
            aggressor_side: self.aggressor_side,
            trade_id: self.trade_id@,
            ts_event: self.ts_event,
            ts_init: self.ts_init,
        }
    }
}

} // verus!
