//! Fixed-depth snapshots: one wide row in, one ten-level snapshot out.
//!
//! A snapshot row carries five or twenty-five price levels per side; the
//! output always has exactly ten slots per side. Slots the source populates
//! get a real order and a level count of one; the rest hold the empty-order
//! sentinel and a count of zero. Every snapshot is a complete batch, so its
//! flags are always `F_LAST`, and the source supplies no sequence numbers.

use vstd::prelude::*;
use crate::errors::{fault_error, spec_fault_error, FaultKind, FieldId, LoadError, RowFault};
use crate::fields::{parse_instrument_id, parse_timestamp_field, spec_instrument_id, spec_timestamp_field};
use crate::model::{
    null_order, spec_null_order, spec_quantity_of, BookOrder, Depth10View, OrderBookDepth10,
    OrderSide, Price, Quantity, F_LAST,
};
use crate::rows::{
    col_exchange, col_index, col_local_timestamp, col_symbol, col_timestamp, effective_take,
    find_column, get_optional, get_required, lemma_col_index_bounds, level_col, opt_bytes,
    spec_col_exchange, spec_col_local_timestamp, spec_col_opt, spec_col_symbol,
    spec_col_timestamp, spec_effective_take, spec_get_optional, spec_get_required,
    spec_level_col,
};
use crate::decimal::spec_parse_scaled_i64;
use crate::source::{csv_accepts, csv_rows, csv_rows_of, gunzip, gunzip_of, gunzip_ok, max_records, spec_max_records};

verus! {

/// Column indices of one depth level of the snapshot schema.
pub struct LevelCols {
    pub bid_price: Option<usize>,
    pub bid_amount: Option<usize>,
    pub ask_price: Option<usize>,
    pub ask_amount: Option<usize>,
}

impl LevelCols {
    /// The indices are those of level `i`'s column names within `hs`.
    pub open spec fn wf(self, hs: Seq<Seq<u8>>, i: int) -> bool {
        &&& spec_col_opt(self.bid_price) == col_index(hs, spec_level_col(false, i, false))
        &&& spec_col_opt(self.bid_amount) == col_index(hs, spec_level_col(false, i, true))
        &&& spec_col_opt(self.ask_price) == col_index(hs, spec_level_col(true, i, false))
        &&& spec_col_opt(self.ask_amount) == col_index(hs, spec_level_col(true, i, true))
    }
}

/// Column indices of the snapshot schema: the envelope columns, and one
/// entry per source level the variant reads.
pub struct DepthCols {
    pub exchange: Option<usize>,
    pub symbol: Option<usize>,
    pub timestamp: Option<usize>,
    pub local_timestamp: Option<usize>,
    pub levels: Vec<LevelCols>,
}

impl DepthCols {
    /// Each index is that of its column name within the header `hs`.
    pub open spec fn wf(self, hs: Seq<Seq<u8>>) -> bool {
        &&& spec_col_opt(self.exchange) == col_index(hs, spec_col_exchange())
        &&& spec_col_opt(self.symbol) == col_index(hs, spec_col_symbol())
        &&& spec_col_opt(self.timestamp) == col_index(hs, spec_col_timestamp())
        &&& spec_col_opt(self.local_timestamp) == col_index(hs, spec_col_local_timestamp())
        &&& forall|i: int| 0 <= i < self.levels@.len() ==> (#[trigger] self.levels@[i]).wf(hs, i)
    }
}

/// Locates the snapshot columns in a header row, for the first `nlevels`
/// source levels.
#[verifier::loop_isolation(false)]
pub fn depth_cols(headers: &Vec<Vec<u8>>, nlevels: u8) -> (r: DepthCols)
    requires
        nlevels <= 10,
    ensures
        r.wf(headers.deep_view()),
        r.levels@.len() == nlevels,
{
    let ghost hs = headers.deep_view();
    proof {
        broadcast use vstd::std_specs::vec::axiom_spec_len;

        assert(hs.len() == headers@.len());
        assert(headers.len() == headers@.len());
        lemma_col_index_bounds(hs, spec_col_exchange());
        lemma_col_index_bounds(hs, spec_col_symbol());
        lemma_col_index_bounds(hs, spec_col_timestamp());
        lemma_col_index_bounds(hs, spec_col_local_timestamp());
    }
    let mut levels: Vec<LevelCols> = Vec::new();
    let mut i: u8 = 0;
    while i < nlevels
        invariant
            0 <= i <= nlevels,
            levels@.len() == i,
            forall|j: int| 0 <= j < i ==> (#[trigger] levels@[j]).wf(hs, j),
        decreases nlevels - i,
    {
        proof {
            broadcast use vstd::std_specs::vec::axiom_spec_len;

            assert(hs.len() == headers@.len());
            assert(headers.len() == headers@.len());
            lemma_col_index_bounds(hs, spec_level_col(false, i as int, false));
            lemma_col_index_bounds(hs, spec_level_col(false, i as int, true));
            lemma_col_index_bounds(hs, spec_level_col(true, i as int, false));
            lemma_col_index_bounds(hs, spec_level_col(true, i as int, true));
        }
        let lc = LevelCols {
            bid_price: find_column(headers, &level_col(false, i, false)),
            bid_amount: find_column(headers, &level_col(false, i, true)),
            ask_price: find_column(headers, &level_col(true, i, false)),
            ask_amount: find_column(headers, &level_col(true, i, true)),
        };
        proof {
            assert(lc.wf(hs, i as int));
        }
        levels.push(lc);
        i = i + 1;
    }
    DepthCols {
        exchange: find_column(headers, &col_exchange()),
        symbol: find_column(headers, &col_symbol()),
        timestamp: find_column(headers, &col_timestamp()),
        local_timestamp: find_column(headers, &col_local_timestamp()),
        levels,
    }
}

/// The order and level count one side of one level denotes: an absent price
/// gives the empty-order sentinel with count zero; a present price gives an
/// order with count one, its amount defaulting to zero when absent.
pub open spec fn spec_book_order_of(
    side: OrderSide,
    price: Option<Seq<u8>>,
    amount: Option<Seq<u8>>,
    pp: u8,
    sp: u8,
) -> Result<(BookOrder, u32), FaultKind> {
    match price {
        None => Ok((spec_null_order(), 0u32)),
        Some(pb) => match spec_parse_scaled_i64(pb, pp as nat) {
            None => Err(FaultKind::Decode),
            Some(praw) => {
                let size = match amount {
                    Some(ab) => spec_quantity_of(ab, sp),
                    None => Ok(Quantity { raw: 0, precision: sp }),
                };
                match size {
                    Err(k) => Err(k),
                    Ok(q) => Ok(
                        (
                            BookOrder {
                                side,
                                price: Price { raw: praw, precision: pp },
                                size: q,
                                order_id: 0,
                            },
                            1u32,
                        ),
                    ),
                }
            },
        },
    }
}

/// Builds one side of one level from its raw price and amount fields.
pub fn create_book_order(
    side: OrderSide,
    price: &Option<Vec<u8>>,
    amount: &Option<Vec<u8>>,
    price_precision: u8,
    size_precision: u8,
) -> (r: Result<(BookOrder, u32), FaultKind>)
    requires
        price_precision <= 9,
        size_precision <= 9,
    ensures
        r == spec_book_order_of(
            side,
            opt_bytes(*price),
            opt_bytes(*amount),
            price_precision,
            size_precision,
        ),
{
    match price {
        None => Ok((null_order(), 0)),
        Some(pb) => match Price::from_bytes(pb, price_precision) {
            None => Err(FaultKind::Decode),
            Some(p) => {
                let size = match amount {
                    Some(ab) => Quantity::from_bytes(ab, size_precision),
                    None => Ok(Quantity::zero(size_precision)),
                };
                match size {
                    Err(k) => Err(k),
                    Ok(q) => Ok((BookOrder { side, price: p, size: q, order_id: 0 }, 1)),
                }
            },
        },
    }
}

/// One output slot of a snapshot row: level `i` of the source when the
/// variant reads that many levels, the sentinel with count zero otherwise.
pub open spec fn spec_slot(
    hs: Seq<Seq<u8>>,
    row: Seq<Seq<u8>>,
    pp: u8,
    sp: u8,
    nl: int,
    i: int,
    ask: bool,
) -> Result<(BookOrder, u32), FaultKind> {
    if i < nl {
        spec_book_order_of(
            if ask {
                OrderSide::Sell
            } else {
                OrderSide::Buy
            },
            spec_get_optional(row, col_index(hs, spec_level_col(ask, i, false))),
            spec_get_optional(row, col_index(hs, spec_level_col(ask, i, true))),
            pp,
            sp,
        )
    } else {
        Ok((spec_null_order(), 0u32))
    }
}

/// First output slot with a faulting side at or after `i`, or ten.
pub open spec fn depth_first_bad_slot(
    hs: Seq<Seq<u8>>,
    row: Seq<Seq<u8>>,
    pp: u8,
    sp: u8,
    nl: int,
    i: int,
) -> int
    decreases 10 - i,
{
    if i < 0 || i >= 10 {
        10
    } else if spec_slot(hs, row, pp, sp, nl, i, false) is Err || spec_slot(
        hs,
        row,
        pp,
        sp,
        nl,
        i,
        true,
    ) is Err {
        i
    } else {
        depth_first_bad_slot(hs, row, pp, sp, nl, i + 1)
    }
}

pub proof fn lemma_depth_first_bad_slot_at(
    hs: Seq<Seq<u8>>,
    row: Seq<Seq<u8>>,
    pp: u8,
    sp: u8,
    nl: int,
    k: int,
    i: int,
)
    requires
        0 <= k <= i <= 10,
        forall|j: int|
            k <= j < i ==> spec_slot(hs, row, pp, sp, nl, #[trigger] (j + 0), false) is Ok
                && spec_slot(hs, row, pp, sp, nl, j, true) is Ok,
        i == 10 || spec_slot(hs, row, pp, sp, nl, i, false) is Err || spec_slot(
            hs,
            row,
            pp,
            sp,
            nl,
            i,
            true,
        ) is Err,
    ensures
        depth_first_bad_slot(hs, row, pp, sp, nl, k) == i,
    decreases i - k,
{
    if k < i {
        assert(spec_slot(hs, row, pp, sp, nl, k + 0, false) is Ok);
        lemma_depth_first_bad_slot_at(hs, row, pp, sp, nl, k + 1, i);
    }
}

/// The fault of the first bad slot: the bid side's if it faults, else the
/// ask side's.
pub open spec fn spec_depth_fault(
    hs: Seq<Seq<u8>>,
    row: Seq<Seq<u8>>,
    pp: u8,
    sp: u8,
    nl: int,
    i: int,
) -> RowFault {
    if spec_slot(hs, row, pp, sp, nl, i, false) is Err {
        RowFault {
            kind: spec_slot(hs, row, pp, sp, nl, i, false)->Err_0,
            field: FieldId::BidLevel(i as u8),
        }
    } else {
        RowFault {
            kind: spec_slot(hs, row, pp, sp, nl, i, true)->Err_0,
            field: FieldId::AskLevel(i as u8),
        }
    }
}

/// The ten-level snapshot a wide row denotes, reading the first `nl` source
/// levels: level counts are one where the source has a price and zero
/// elsewhere (the format gives no per-level order count, so presence is
/// binarized), flags always `F_LAST`, sequence always zero; or the first
/// faulting field in checking order.
pub open spec fn spec_depth_of_row(
    hs: Seq<Seq<u8>>,
    row: Seq<Seq<u8>>,
    pp: u8,
    sp: u8,
    nl: int,
) -> Result<Depth10View, RowFault> {
    let c_ex = spec_get_required(row, col_index(hs, spec_col_exchange()));
    let c_sy = spec_get_required(row, col_index(hs, spec_col_symbol()));
    let c_ts = spec_get_required(row, col_index(hs, spec_col_timestamp()));
    let c_lt = spec_get_required(row, col_index(hs, spec_col_local_timestamp()));
    if c_ex is None {
        Err(RowFault { kind: FaultKind::Decode, field: FieldId::Exchange })
    } else if c_sy is None {
        Err(RowFault { kind: FaultKind::Decode, field: FieldId::Symbol })
    } else if c_ts is None || spec_timestamp_field(c_ts->Some_0) is None {
        Err(RowFault { kind: FaultKind::Decode, field: FieldId::Timestamp })
    } else if c_lt is None || spec_timestamp_field(c_lt->Some_0) is None {
        Err(RowFault { kind: FaultKind::Decode, field: FieldId::LocalTimestamp })
    } else {
        let fb = depth_first_bad_slot(hs, row, pp, sp, nl, 0);
        if fb < 10 {
            Err(spec_depth_fault(hs, row, pp, sp, nl, fb))
        } else {
            Ok(
                Depth10View {
                    instrument_id: spec_instrument_id(c_ex->Some_0, c_sy->Some_0),
                    bids: Seq::new(10, |i: int| spec_slot(hs, row, pp, sp, nl, i, false)->Ok_0.0),
                    asks: Seq::new(10, |i: int| spec_slot(hs, row, pp, sp, nl, i, true)->Ok_0.0),
                    bid_counts: Seq::new(
                        10,
                        |i: int| spec_slot(hs, row, pp, sp, nl, i, false)->Ok_0.1,
                    ),
                    ask_counts: Seq::new(
                        10,
                        |i: int| spec_slot(hs, row, pp, sp, nl, i, true)->Ok_0.1,
                    ),
                    flags: F_LAST,
                    sequence: 0,
                    ts_event: spec_timestamp_field(c_ts->Some_0)->Some_0,
                    ts_init: spec_timestamp_field(c_lt->Some_0)->Some_0,
                },
            )
        }
    }
}

/// The fixed shape of every snapshot: both sides have exactly ten slots; a
/// slot whose source price column is absent holds the empty-order sentinel
/// with level count zero, and a populated slot has level count exactly one.
pub proof fn lemma_depth_shape(hs: Seq<Seq<u8>>, row: Seq<Seq<u8>>, pp: u8, sp: u8, nl: int)
    requires
        spec_depth_of_row(hs, row, pp, sp, nl) is Ok,
    ensures
        ({
            let d = spec_depth_of_row(hs, row, pp, sp, nl)->Ok_0;
            &&& d.bids.len() == 10
            &&& d.asks.len() == 10
            &&& d.bid_counts.len() == 10
            &&& d.ask_counts.len() == 10
            &&& forall|i: int|
                0 <= i < 10 ==> {
                    let absent = i >= nl || spec_get_optional(
                        row,
                        col_index(hs, spec_level_col(false, i, false)),
                    ) is None;
                    &&& (absent ==> #[trigger] d.bids[i] == spec_null_order()
                        && d.bid_counts[i] == 0)
                    &&& (!absent ==> d.bid_counts[i] == 1)
                }
            &&& forall|i: int|
                0 <= i < 10 ==> {
                    let absent = i >= nl || spec_get_optional(
                        row,
                        col_index(hs, spec_level_col(true, i, false)),
                    ) is None;
                    &&& (absent ==> #[trigger] d.asks[i] == spec_null_order()
                        && d.ask_counts[i] == 0)
                    &&& (!absent ==> d.ask_counts[i] == 1)
                }
        }),
{
    let d = spec_depth_of_row(hs, row, pp, sp, nl)->Ok_0;
    assert forall|i: int| 0 <= i < 10 implies {
        let absent = i >= nl || spec_get_optional(
            row,
            col_index(hs, spec_level_col(false, i, false)),
        ) is None;
        &&& (absent ==> #[trigger] d.bids[i] == spec_null_order() && d.bid_counts[i] == 0)
        &&& (!absent ==> d.bid_counts[i] == 1)
    } by {
        assert(depth_first_bad_slot(hs, row, pp, sp, nl, 0) >= 10);
        lemma_depth_first_bad_ok(hs, row, pp, sp, nl, 0, i);
        assert(d.bids[i] == spec_slot(hs, row, pp, sp, nl, i, false)->Ok_0.0);
        assert(d.bid_counts[i] == spec_slot(hs, row, pp, sp, nl, i, false)->Ok_0.1);
    }
    assert forall|i: int| 0 <= i < 10 implies {
        let absent = i >= nl || spec_get_optional(
            row,
            col_index(hs, spec_level_col(true, i, false)),
        ) is None;
        &&& (absent ==> #[trigger] d.asks[i] == spec_null_order() && d.ask_counts[i] == 0)
        &&& (!absent ==> d.ask_counts[i] == 1)
    } by {
        assert(depth_first_bad_slot(hs, row, pp, sp, nl, 0) >= 10);
        lemma_depth_first_bad_ok(hs, row, pp, sp, nl, 0, i);
        assert(d.asks[i] == spec_slot(hs, row, pp, sp, nl, i, true)->Ok_0.0);
        assert(d.ask_counts[i] == spec_slot(hs, row, pp, sp, nl, i, true)->Ok_0.1);
    }
}

/// When no slot faults, every slot is good.
pub proof fn lemma_depth_first_bad_ok(
    hs: Seq<Seq<u8>>,
    row: Seq<Seq<u8>>,
    pp: u8,
    sp: u8,
    nl: int,
    k: int,
    i: int,
)
    requires
        0 <= k <= i < 10,
        depth_first_bad_slot(hs, row, pp, sp, nl, k) >= 10,
    ensures
        spec_slot(hs, row, pp, sp, nl, i, false) is Ok,
        spec_slot(hs, row, pp, sp, nl, i, true) is Ok,
    decreases i - k,
{
    if k < i {
        lemma_depth_first_bad_ok(hs, row, pp, sp, nl, k + 1, i);
    }
}

/// Builds the snapshot of one data row.
#[verifier::rlimit(60)]
#[verifier::loop_isolation(false)]
fn depth_of_row(
    cols: &DepthCols,
    row: &Vec<Vec<u8>>,
    pp: u8,
    sp: u8,
    Ghost(hs): Ghost<Seq<Seq<u8>>>,
) -> (r: Result<OrderBookDepth10, RowFault>)
    requires
        cols.wf(hs),
        cols.levels@.len() <= 10,
        pp <= 9,
        sp <= 9,
    ensures
        ({
            let m = spec_depth_of_row(hs, row.deep_view(), pp, sp, cols.levels@.len() as int);
            match r {
                Ok(d) => m == Ok::<Depth10View, RowFault>(d@),
                Err(f) => m == Err::<Depth10View, RowFault>(f),
            }
        }),
{
    let ghost nl = cols.levels@.len() as int;
    let exchange = match get_required(row, cols.exchange) {
        Some(v) => v,
        None => {
            return Err(RowFault { kind: FaultKind::Decode, field: FieldId::Exchange });
        },
    };
    let symbol = match get_required(row, cols.symbol) {
        Some(v) => v,
        None => {
            return Err(RowFault { kind: FaultKind::Decode, field: FieldId::Symbol });
        },
    };
    let ts_event = match get_required(row, cols.timestamp) {
        Some(v) => match parse_timestamp_field(&v) {
            Some(t) => t,
            None => {
                return Err(RowFault { kind: FaultKind::Decode, field: FieldId::Timestamp });
            },
        },
        None => {
            return Err(RowFault { kind: FaultKind::Decode, field: FieldId::Timestamp });
        },
    };
    let ts_init = match get_required(row, cols.local_timestamp) {
        Some(v) => match parse_timestamp_field(&v) {
            Some(t) => t,
            None => {
                return Err(
                    RowFault { kind: FaultKind::Decode, field: FieldId::LocalTimestamp },
                );
            },
        },
        None => {
            return Err(RowFault { kind: FaultKind::Decode, field: FieldId::LocalTimestamp });
        },
    };
    let mut bids: Vec<BookOrder> = Vec::new();
    let mut asks: Vec<BookOrder> = Vec::new();
    let mut bid_counts: Vec<u32> = Vec::new();
    let mut ask_counts: Vec<u32> = Vec::new();
    let mut i: usize = 0;
    while i < 10
        invariant
            0 <= i <= 10,
            bids@.len() == i,
            asks@.len() == i,
            bid_counts@.len() == i,
            ask_counts@.len() == i,
            forall|j: int|
                0 <= j < i ==> spec_slot(hs, row.deep_view(), pp, sp, nl, #[trigger] (j + 0), false)
                    is Ok && spec_slot(hs, row.deep_view(), pp, sp, nl, j, true) is Ok,
            forall|j: int|
                0 <= j < i ==> #[trigger] bids@[j] == spec_slot(
                    hs, row.deep_view(), pp, sp, nl, j, false,
                )->Ok_0.0,
            forall|j: int|
                0 <= j < i ==> #[trigger] bid_counts@[j] == spec_slot(
                    hs, row.deep_view(), pp, sp, nl, j, false,
                )->Ok_0.1,
            forall|j: int|
                0 <= j < i ==> #[trigger] asks@[j] == spec_slot(
                    hs, row.deep_view(), pp, sp, nl, j, true,
                )->Ok_0.0,
            forall|j: int|
                0 <= j < i ==> #[trigger] ask_counts@[j] == spec_slot(
                    hs, row.deep_view(), pp, sp, nl, j, true,
                )->Ok_0.1,
        decreases 10 - i,
    {
        if i < cols.levels.len() {
            let lc = &cols.levels[i];
            let bp = get_optional(row, lc.bid_price);
            let ba = get_optional(row, lc.bid_amount);
            match create_book_order(OrderSide::Buy, &bp, &ba, pp, sp) {
                Ok((o, c)) => {
                    bids.push(o);
                    bid_counts.push(c);
                },
                Err(k) => {
                    proof {
                        lemma_depth_first_bad_slot_at(hs, row.deep_view(), pp, sp, nl, 0, i as int);
                    }
                    return Err(RowFault { kind: k, field: FieldId::BidLevel(i as u8) });
                },
            }
            let ap = get_optional(row, lc.ask_price);
            let aa = get_optional(row, lc.ask_amount);
            match create_book_order(OrderSide::Sell, &ap, &aa, pp, sp) {
                Ok((o, c)) => {
                    asks.push(o);
                    ask_counts.push(c);
                },
                Err(k) => {
                    proof {
                        lemma_depth_first_bad_slot_at(hs, row.deep_view(), pp, sp, nl, 0, i as int);
                    }
                    return Err(RowFault { kind: k, field: FieldId::AskLevel(i as u8) });
                },
            }
        } else {
            bids.push(null_order());
            bid_counts.push(0);
            asks.push(null_order());
            ask_counts.push(0);
        }
        i = i + 1;
    }
    proof {
        lemma_depth_first_bad_slot_at(hs, row.deep_view(), pp, sp, nl, 0, 10);
    }
    let instrument_id = parse_instrument_id(&exchange, &symbol);
    let d = OrderBookDepth10 {
        instrument_id,
        bids,
        asks,
        bid_counts,
        ask_counts,
        flags: F_LAST,
        sequence: 0,
        ts_event,
        ts_init,
    };
    proof {
        let m = spec_depth_of_row(hs, row.deep_view(), pp, sp, nl)->Ok_0;
        assert(d@.bids =~= m.bids);
        assert(d@.asks =~= m.asks);
        assert(d@.bid_counts =~= m.bid_counts);
        assert(d@.ask_counts =~= m.ask_counts);
        assert(d@ =~= m);
    }
    Ok(d)
}

/// Index of the first of the data rows whose snapshot faults, or their count.
pub open spec fn depth_first_bad(
    hs: Seq<Seq<u8>>,
    drows: Seq<Seq<Seq<u8>>>,
    pp: u8,
    sp: u8,
    nl: int,
) -> int
    decreases drows.len(),
{
    if drows.len() == 0 {
        0
    } else if spec_depth_of_row(hs, drows[0], pp, sp, nl) is Err {
        0
    } else {
        1 + depth_first_bad(hs, drows.skip(1), pp, sp, nl)
    }
}

pub proof fn lemma_depth_first_bad_at(
    hs: Seq<Seq<u8>>,
    drows: Seq<Seq<Seq<u8>>>,
    pp: u8,
    sp: u8,
    nl: int,
    i: int,
)
    requires
        0 <= i <= drows.len(),
        forall|j: int|
            0 <= j < i ==> spec_depth_of_row(hs, #[trigger] drows[j], pp, sp, nl) is Ok,
        i == drows.len() || spec_depth_of_row(hs, drows[i], pp, sp, nl) is Err,
    ensures
        depth_first_bad(hs, drows, pp, sp, nl) == i,
    decreases i,
{
    if i > 0 {
        assert(spec_depth_of_row(hs, drows[0], pp, sp, nl) is Ok);
        lemma_depth_first_bad_at(hs, drows.skip(1), pp, sp, nl, i - 1);
        assert(forall|j: int|
            0 <= j < drows.skip(1).len() ==> #[trigger] drows.skip(1)[j] == drows[j + 1]);
    }
}

/// Views of a sequence of snapshots.
pub open spec fn depth_views(ds: Seq<OrderBookDepth10>) -> Seq<Depth10View> {
    ds.map_values(|d: OrderBookDepth10| d@)
}

/// What loading snapshots from parsed rows yields: one snapshot per data
/// row up to the effective row limit, reading the first `nl` source levels;
/// or the first failing row's error. A file without data rows yields the
/// empty output.
pub open spec fn spec_depths_of_rows(
    rows: Seq<Seq<Seq<u8>>>,
    pp: u8,
    sp: u8,
    limit: Option<usize>,
    nl: int,
) -> Result<Seq<Depth10View>, LoadError> {
    if rows.len() <= 1 {
        Ok(Seq::empty())
    } else {
        let hs = rows[0];
        let drows = rows.skip(1);
        let n = spec_effective_take(drows.len() as int, limit);
        let taken = drows.take(n);
        let fb = depth_first_bad(hs, taken, pp, sp, nl);
        if fb == n {
            Ok(Seq::new(n as nat, |i: int| spec_depth_of_row(hs, taken[i], pp, sp, nl)->Ok_0))
        } else {
            Err(
                spec_fault_error(
                    spec_depth_of_row(hs, taken[fb], pp, sp, nl)->Err_0,
                    fb as usize,
                ),
            )
        }
    }
}

/// When no row up to the count faults, every row's snapshot is good.
pub proof fn lemma_depth_all_ok(
    hs: Seq<Seq<u8>>,
    drows: Seq<Seq<Seq<u8>>>,
    pp: u8,
    sp: u8,
    nl: int,
)
    requires
        depth_first_bad(hs, drows, pp, sp, nl) == drows.len(),
    ensures
        forall|i: int|
            0 <= i < drows.len() ==> spec_depth_of_row(hs, #[trigger] drows[i], pp, sp, nl) is Ok,
    decreases drows.len(),
{
    if drows.len() > 0 {
        assert(spec_depth_of_row(hs, drows[0], pp, sp, nl) is Ok);
        lemma_depth_all_ok(hs, drows.skip(1), pp, sp, nl);
        assert forall|i: int|
            0 <= i < drows.len() implies spec_depth_of_row(hs, #[trigger] drows[i], pp, sp, nl)
            is Ok by {
            if i > 0 {
                assert(drows.skip(1)[i - 1] == drows[i]);
                assert(spec_depth_of_row(hs, drows.skip(1)[i - 1], pp, sp, nl) is Ok);
            }
        }
    }
}

/// The fixed shape of every snapshot of a successful load: both sides of
/// every output have exactly ten slots, flags `F_LAST` and sequence zero; a
/// slot whose source price column is absent (or beyond the variant's level
/// count) holds the empty-order sentinel with level count zero, and a
/// populated slot has level count exactly one.
pub proof fn lemma_depths_shape(
    rows: Seq<Seq<Seq<u8>>>,
    pp: u8,
    sp: u8,
    limit: Option<usize>,
    nl: int,
)
    requires
        spec_depths_of_rows(rows, pp, sp, limit, nl) is Ok,
    ensures
        ({
            let ds = spec_depths_of_rows(rows, pp, sp, limit, nl)->Ok_0;
            let hs = rows[0];
            forall|k: int|
                0 <= k < ds.len() ==> {
                    let d = #[trigger] ds[k];
                    let row = rows.skip(1)[k];
                    &&& d.bids.len() == 10
                    &&& d.asks.len() == 10
                    &&& d.bid_counts.len() == 10
                    &&& d.ask_counts.len() == 10
                    &&& d.flags == F_LAST
                    &&& d.sequence == 0
                    &&& forall|i: int|
                        0 <= i < 10 ==> {
                            let absent = i >= nl || spec_get_optional(
                                row,
                                col_index(hs, spec_level_col(false, i, false)),
                            ) is None;
                            &&& (absent ==> #[trigger] d.bids[i] == spec_null_order()
                                && d.bid_counts[i] == 0)
                            &&& (!absent ==> d.bid_counts[i] == 1)
                        }
                    &&& forall|i: int|
                        0 <= i < 10 ==> {
                            let absent = i >= nl || spec_get_optional(
                                row,
                                col_index(hs, spec_level_col(true, i, false)),
                            ) is None;
                            &&& (absent ==> #[trigger] d.asks[i] == spec_null_order()
                                && d.ask_counts[i] == 0)
                            &&& (!absent ==> d.ask_counts[i] == 1)
                        }
                }
        }),
{
    let ds = spec_depths_of_rows(rows, pp, sp, limit, nl)->Ok_0;
    let hs = rows[0];
    if rows.len() <= 1 {
    } else {
        let drows = rows.skip(1);
        let n = spec_effective_take(drows.len() as int, limit);
        let taken = drows.take(n);
        lemma_depth_all_ok(hs, taken, pp, sp, nl);
        assert forall|k: int| 0 <= k < ds.len() implies {
            let d = #[trigger] ds[k];
            let row = rows.skip(1)[k];
            &&& d.bids.len() == 10
            &&& d.asks.len() == 10
            &&& d.bid_counts.len() == 10
            &&& d.ask_counts.len() == 10
            &&& d.flags == F_LAST
            &&& d.sequence == 0
            &&& forall|i: int|
                0 <= i < 10 ==> {
                    let absent = i >= nl || spec_get_optional(
                        row,
                        col_index(hs, spec_level_col(false, i, false)),
                    ) is None;
                    &&& (absent ==> #[trigger] d.bids[i] == spec_null_order()
                        && d.bid_counts[i] == 0)
                    &&& (!absent ==> d.bid_counts[i] == 1)
                }
            &&& forall|i: int|
                0 <= i < 10 ==> {
                    let absent = i >= nl || spec_get_optional(
                        row,
                        col_index(hs, spec_level_col(true, i, false)),
                    ) is None;
                    &&& (absent ==> #[trigger] d.asks[i] == spec_null_order()
                        && d.ask_counts[i] == 0)
                    &&& (!absent ==> d.ask_counts[i] == 1)
                }
        } by {
            assert(taken[k] == rows.skip(1)[k]);
            assert(ds[k] == spec_depth_of_row(hs, taken[k], pp, sp, nl)->Ok_0);
            lemma_depth_shape(hs, taken[k], pp, sp, nl);
        }
    }
}

/// Loads ten-level snapshots from parsed rows (header first), reading the
/// first `nlevels` source levels of each data row; the output is truncated
/// by `limit`, checked after each append, and the first failing row aborts
/// the load.
#[verifier::rlimit(60)]
#[verifier::loop_isolation(false)]
pub fn load_depth10_from_rows(
    rows: &Vec<Vec<Vec<u8>>>,
    price_precision: u8,
    size_precision: u8,
    limit: Option<usize>,
    nlevels: u8,
) -> (r: Result<Vec<OrderBookDepth10>, LoadError>)
    requires
        price_precision <= 9,
        size_precision <= 9,
        nlevels <= 10,
    ensures
        ({
            let m = spec_depths_of_rows(
                rows.deep_view(),
                price_precision,
                size_precision,
                limit,
                nlevels as int,
            );
            match r {
                Ok(ds) => m == Ok::<Seq<Depth10View>, LoadError>(depth_views(ds@)),
                Err(e) => m == Err::<Seq<Depth10View>, LoadError>(e),
            }
        }),
{
    let ghost rs = rows.deep_view();
    let ghost nl = nlevels as int;
    proof {
        assert(rs.len() == rows@.len());
        assert(forall|j: int| 0 <= j < rs.len() ==> #[trigger] rs[j] == rows@[j].deep_view());
    }
    if rows.len() <= 1 {
        let empty: Vec<OrderBookDepth10> = Vec::new();
        proof {
            assert(depth_views(empty@) =~= Seq::<Depth10View>::empty());
        }
        return Ok(empty);
    }
    let pp = price_precision;
    let sp = size_precision;
    let cols = depth_cols(&rows[0], nlevels);
    let ghost hs = rs[0];
    let ghost drows = rs.skip(1);
    let nrows = rows.len() - 1;
    let n = effective_take(nrows, limit);
    let ghost taken = drows.take(n as int);
    proof {
        assert(forall|j: int| 0 <= j < n ==> #[trigger] taken[j] == rs[j + 1]);
    }
    let mut out: Vec<OrderBookDepth10> = Vec::new();
    let mut idx: usize = 0;
    while idx < n
        invariant
            0 <= idx <= n,
            out@.len() == idx,
            forall|j: int|
                0 <= j < idx ==> spec_depth_of_row(hs, #[trigger] taken[j], pp, sp, nl) is Ok,
            forall|j: int|
                0 <= j < idx ==> #[trigger] out@[j]@ == spec_depth_of_row(
                    hs,
                    taken[j],
                    pp,
                    sp,
                    nl,
                )->Ok_0,
        decreases n - idx,
    {
        let row = &rows[idx + 1];
        proof {
            assert(row.deep_view() == taken[idx as int]);
        }
        match depth_of_row(&cols, row, pp, sp, Ghost(hs)) {
            Err(f) => {
                proof {
                    lemma_depth_first_bad_at(hs, taken, pp, sp, nl, idx as int);
                }
                return Err(fault_error(f, idx));
            },
            Ok(d) => {
                out.push(d);
                idx = idx + 1;
            },
        }
    }
    proof {
        lemma_depth_first_bad_at(hs, taken, pp, sp, nl, n as int);
        assert(depth_views(out@) =~= Seq::new(
            n as nat,
            |i: int| spec_depth_of_row(hs, taken[i], pp, sp, nl)->Ok_0,
        ));
    }
    Ok(out)
}

/// Loads snapshots from uncompressed file bytes.
fn depths_from_plain(
    buf: &Vec<u8>,
    price_precision: u8,
    size_precision: u8,
    limit: Option<usize>,
    nlevels: u8,
) -> (r: Result<Vec<OrderBookDepth10>, LoadError>)
    requires
        price_precision <= 9,
        size_precision <= 9,
        nlevels <= 10,
    ensures
        ({
            let max = spec_max_records(limit);
            let m = spec_depths_of_rows(
                csv_rows_of(buf@, max),
                price_precision,
                size_precision,
                limit,
                nlevels as int,
            );
            &&& !(r matches Err(LoadError::Io { .. }))
            &&& ((r matches Err(LoadError::Malformed { .. })) <==> !csv_accepts(buf@, max))
            &&& (csv_accepts(buf@, max) ==> match r {
                Ok(ds) => m == Ok::<Seq<Depth10View>, LoadError>(depth_views(ds@)),
                Err(e) => m == Err::<Seq<Depth10View>, LoadError>(e),
            })
        }),
{
    let rows = match csv_rows(buf, max_records(limit)) {
        Ok(rw) => rw,
        Err((record, detail)) => {
            return Err(LoadError::Malformed { record, detail });
        },
    };
    load_depth10_from_rows(&rows, price_precision, size_precision, limit, nlevels)
}

/// Loads ten-level snapshots from the bytes of a five-level snapshot file,
/// gzip decompressing them first when `gzipped` holds: source levels zero
/// through four fill the first five output slots; the rest stay empty. The
/// call fails exactly when the compressed stream does not decode, the
/// reader rejects a consumed record, or a consumed row is bad.
pub fn load_depth10_from_snapshot5(
    data: &Vec<u8>,
    gzipped: bool,
    price_precision: u8,
    size_precision: u8,
    limit: Option<usize>,
) -> (r: Result<Vec<OrderBookDepth10>, LoadError>)
    requires
        price_precision <= 9,
        size_precision <= 9,
    ensures
        ({
            let src = if gzipped {
                gunzip_of(data@)
            } else {
                data@
            };
            let max = spec_max_records(limit);
            let m = spec_depths_of_rows(csv_rows_of(src, max), price_precision, size_precision, limit, 5);
            &&& ((r matches Err(LoadError::Io { .. })) <==> (gzipped && !gunzip_ok(data@)))
            &&& ((gzipped ==> gunzip_ok(data@)) ==> ((r matches Err(LoadError::Malformed { .. }))
                <==> !csv_accepts(src, max)))
            &&& ((gzipped ==> gunzip_ok(data@)) && csv_accepts(src, max) ==> match r {
                Ok(ds) => m == Ok::<Seq<Depth10View>, LoadError>(depth_views(ds@)),
                Err(e) => m == Err::<Seq<Depth10View>, LoadError>(e),
            })
        }),
{
    if gzipped {
        match gunzip(data) {
            Ok(b) => depths_from_plain(&b, price_precision, size_precision, limit, 5),
            Err(detail) => Err(LoadError::Io { detail }),
        }
    } else {
        depths_from_plain(data, price_precision, size_precision, limit, 5)
    }
}

/// Loads ten-level snapshots from the bytes of a twenty-five-level snapshot
/// file, gzip decompressing them first when `gzipped` holds: source levels
/// zero through nine fill the output; levels ten through twenty-four are
/// discarded unread. The call fails exactly when the compressed stream
/// does not decode, the reader rejects a consumed record, or a consumed
/// row is bad.
pub fn load_depth10_from_snapshot25(
    data: &Vec<u8>,
    gzipped: bool,
    price_precision: u8,
    size_precision: u8,
    limit: Option<usize>,
) -> (r: Result<Vec<OrderBookDepth10>, LoadError>)
    requires
        price_precision <= 9,
        size_precision <= 9,
    ensures
        ({
            let src = if gzipped {
                gunzip_of(data@)
            } else {
                data@
            };
            let max = spec_max_records(limit);
            let m = spec_depths_of_rows(csv_rows_of(src, max), price_precision, size_precision, limit, 10);
            &&& ((r matches Err(LoadError::Io { .. })) <==> (gzipped && !gunzip_ok(data@)))
            &&& ((gzipped ==> gunzip_ok(data@)) ==> ((r matches Err(LoadError::Malformed { .. }))
                <==> !csv_accepts(src, max)))
            &&& ((gzipped ==> gunzip_ok(data@)) && csv_accepts(src, max) ==> match r {
                Ok(ds) => m == Ok::<Seq<Depth10View>, LoadError>(depth_views(ds@)),
                Err(e) => m == Err::<Seq<Depth10View>, LoadError>(e),
            })
        }),
{
    if gzipped {
        match gunzip(data) {
            Ok(b) => depths_from_plain(&b, price_precision, size_precision, limit, 10),
            Err(detail) => Err(LoadError::Io { detail }),
        }
    } else {
        depths_from_plain(data, price_precision, size_precision, limit, 10)
    }
}

} // verus!
