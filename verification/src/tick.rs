//! Top-of-book quotes and trades: stateless one-row-to-one-event mappers.
//!
//! A quote row may omit either side; an omitted price or amount defaults to
//! zero at the caller's precision, reflecting the source's convention of
//! leaving a side out instead of asserting a zero. Trade rows carry all
//! their fields.

use vstd::prelude::*;
use crate::errors::{fault_error, spec_fault_error, FaultKind, FieldId, LoadError, RowFault};
use crate::fields::{
    parse_aggressor_side, parse_instrument_id, parse_timestamp_field, spec_aggressor_side,
    spec_instrument_id, spec_timestamp_field,
};
use crate::model::{
    spec_quantity_of, Price, Quantity, QuoteTick, QuoteView, TradeId, TradeTick, TradeView,
};
use crate::rows::{
    col_amount, col_ask_amount, col_ask_price, col_bid_amount, col_bid_price, col_exchange,
    col_id, col_index, col_local_timestamp, col_price, col_side, col_symbol, col_timestamp,
    effective_take, find_column, get_optional, get_required, lemma_col_index_bounds, opt_bytes,
    spec_col_amount, spec_col_ask_amount, spec_col_ask_price, spec_col_bid_amount,
    spec_col_bid_price, spec_col_exchange, spec_col_id, spec_col_local_timestamp, spec_col_opt,
    spec_col_price, spec_col_side, spec_col_symbol, spec_col_timestamp, spec_effective_take,
    spec_get_optional, spec_get_required,
};
use crate::decimal::spec_parse_scaled_i64;
use crate::source::{csv_accepts, csv_rows, csv_rows_of, gunzip, gunzip_of, gunzip_ok, max_records, spec_max_records};

verus! {

/// The price an optional field denotes: zero at the given precision when
/// the field is absent.
pub open spec fn spec_opt_price(o: Option<Seq<u8>>, pp: u8) -> Option<Price> {
    match o {
        None => Some(Price { raw: 0, precision: pp }),
        Some(b) => match spec_parse_scaled_i64(b, pp as nat) {
            Some(v) => Some(Price { raw: v, precision: pp }),
            None => None,
        },
    }
}

/// The quantity an optional field denotes: zero at the given precision when
/// the field is absent.
pub open spec fn spec_opt_quantity(o: Option<Seq<u8>>, sp: u8) -> Result<Quantity, FaultKind> {
    match o {
        None => Ok(Quantity { raw: 0, precision: sp }),
        Some(b) => spec_quantity_of(b, sp),
    }
}

/// Parses an optional price field, defaulting to zero.
fn opt_price(o: &Option<Vec<u8>>, pp: u8) -> (r: Option<Price>)
    requires
        pp <= 9,
    ensures
        r == spec_opt_price(opt_bytes(*o), pp),
{
    match o {
        None => Some(Price::zero(pp)),
        Some(b) => Price::from_bytes(b, pp),
    }
}

/// Parses an optional quantity field, defaulting to zero.
fn opt_quantity(o: &Option<Vec<u8>>, sp: u8) -> (r: Result<Quantity, FaultKind>)
    requires
        sp <= 9,
    ensures
        r == spec_opt_quantity(opt_bytes(*o), sp),
{
    match o {
        None => Ok(Quantity::zero(sp)),
        Some(b) => Quantity::from_bytes(b, sp),
    }
}

/// Column indices of the quote schema within one file's header.
pub struct QuoteCols {
    pub exchange: Option<usize>,
    pub symbol: Option<usize>,
    pub timestamp: Option<usize>,
    pub local_timestamp: Option<usize>,
    pub bid_price: Option<usize>,
    pub bid_amount: Option<usize>,
    pub ask_price: Option<usize>,
    pub ask_amount: Option<usize>,
}

impl QuoteCols {
    /// Each index is that of its column name within the header `hs`.
    pub open spec fn wf(self, hs: Seq<Seq<u8>>) -> bool {
        &&& spec_col_opt(self.exchange) == col_index(hs, spec_col_exchange())
        &&& spec_col_opt(self.symbol) == col_index(hs, spec_col_symbol())
        &&& spec_col_opt(self.timestamp) == col_index(hs, spec_col_timestamp())
        &&& spec_col_opt(self.local_timestamp) == col_index(hs, spec_col_local_timestamp())
        &&& spec_col_opt(self.bid_price) == col_index(hs, spec_col_bid_price())
        &&& spec_col_opt(self.bid_amount) == col_index(hs, spec_col_bid_amount())
        &&& spec_col_opt(self.ask_price) == col_index(hs, spec_col_ask_price())
        &&& spec_col_opt(self.ask_amount) == col_index(hs, spec_col_ask_amount())
    }
}

/// Locates the quote columns in a header row.
pub fn quote_cols(headers: &Vec<Vec<u8>>) -> (r: QuoteCols)
    ensures
        r.wf(headers.deep_view()),
{
    let ghost hs = headers.deep_view();
    proof {
        broadcast use vstd::std_specs::vec::axiom_spec_len;

        assert(hs.len() == headers@.len());
        assert(headers.len() == headers@.len());
        lemma_col_index_bounds(hs, spec_col_exchange());
        lemma_col_index_bounds(hs, spec_col_symbol());
        lemma_col_index_bounds(hs, spec_col_timestamp());
        lemma_col_index_bounds(hs, spec_col_local_timestamp());
        lemma_col_index_bounds(hs, spec_col_bid_price());
        lemma_col_index_bounds(hs, spec_col_bid_amount());
        lemma_col_index_bounds(hs, spec_col_ask_price());
        lemma_col_index_bounds(hs, spec_col_ask_amount());
    }
    QuoteCols {
        exchange: find_column(headers, &col_exchange()),
        symbol: find_column(headers, &col_symbol()),
        timestamp: find_column(headers, &col_timestamp()),
        local_timestamp: find_column(headers, &col_local_timestamp()),
        bid_price: find_column(headers, &col_bid_price()),
        bid_amount: find_column(headers, &col_bid_amount()),
        ask_price: find_column(headers, &col_ask_price()),
        ask_amount: find_column(headers, &col_ask_amount()),
    }
}

/// The quote a row denotes: either side's absent price or amount becomes
/// zero at the caller's precision; or the first faulting field in checking
/// order.
pub open spec fn spec_quote_of_row(
    hs: Seq<Seq<u8>>,
    row: Seq<Seq<u8>>,
    pp: u8,
    sp: u8,
) -> Result<QuoteView, RowFault> {
    let c_ex = spec_get_required(row, col_index(hs, spec_col_exchange()));
    let c_sy = spec_get_required(row, col_index(hs, spec_col_symbol()));
    let c_ts = spec_get_required(row, col_index(hs, spec_col_timestamp()));
    let c_lt = spec_get_required(row, col_index(hs, spec_col_local_timestamp()));
    let o_bp = spec_get_optional(row, col_index(hs, spec_col_bid_price()));
    let o_ba = spec_get_optional(row, col_index(hs, spec_col_bid_amount()));
    let o_ap = spec_get_optional(row, col_index(hs, spec_col_ask_price()));
    let o_aa = spec_get_optional(row, col_index(hs, spec_col_ask_amount()));
    if c_ex is None {
        Err(RowFault { kind: FaultKind::Decode, field: FieldId::Exchange })
    } else if c_sy is None {
        Err(RowFault { kind: FaultKind::Decode, field: FieldId::Symbol })
    } else if c_ts is None || spec_timestamp_field(c_ts->Some_0) is None {
        Err(RowFault { kind: FaultKind::Decode, field: FieldId::Timestamp })
    } else if c_lt is None || spec_timestamp_field(c_lt->Some_0) is None {
        Err(RowFault { kind: FaultKind::Decode, field: FieldId::LocalTimestamp })
    } else if spec_opt_price(o_bp, pp) is None {
        Err(RowFault { kind: FaultKind::Decode, field: FieldId::BidPrice })
    } else if spec_opt_quantity(o_ba, sp) is Err {
        Err(RowFault { kind: spec_opt_quantity(o_ba, sp)->Err_0, field: FieldId::BidAmount })
    } else if spec_opt_price(o_ap, pp) is None {
        Err(RowFault { kind: FaultKind::Decode, field: FieldId::AskPrice })
    } else if spec_opt_quantity(o_aa, sp) is Err {
        Err(RowFault { kind: spec_opt_quantity(o_aa, sp)->Err_0, field: FieldId::AskAmount })
    } else {
        Ok(
            QuoteView {
                instrument_id: spec_instrument_id(c_ex->Some_0, c_sy->Some_0),
                bid_price: spec_opt_price(o_bp, pp)->Some_0,
                ask_price: spec_opt_price(o_ap, pp)->Some_0,
                bid_size: spec_opt_quantity(o_ba, sp)->Ok_0,
                ask_size: spec_opt_quantity(o_aa, sp)->Ok_0,
                ts_event: spec_timestamp_field(c_ts->Some_0)->Some_0,
                ts_init: spec_timestamp_field(c_lt->Some_0)->Some_0,
            },
        )
    }
}

/// Builds the quote of one data row.
fn quote_of_row(
    cols: &QuoteCols,
    row: &Vec<Vec<u8>>,
    pp: u8,
    sp: u8,
    Ghost(hs): Ghost<Seq<Seq<u8>>>,
) -> (r: Result<QuoteTick, RowFault>)
    requires
        cols.wf(hs),
        pp <= 9,
        sp <= 9,
    ensures
        match r {
            Ok(q) => spec_quote_of_row(hs, row.deep_view(), pp, sp) == Ok::<QuoteView, RowFault>(
                q@,
            ),
            Err(f) => spec_quote_of_row(hs, row.deep_view(), pp, sp) == Err::<
                QuoteView,
                RowFault,
            >(f),
        },
{
    let exchange = match get_required(row, cols.exchange) {
        Some(v) => v,
        None => {
            return Err(RowFault { kind: FaultKind::Decode, field: FieldId::Exchange });
        },
    };
    let symbol = match get_required(row, cols.symbol) {
        Some(v) => v,
        None => {
            return Err(RowFault { kind: FaultKind::Decode, field: FieldId::Symbol });
        },
    };
    let ts_event = match get_required(row, cols.timestamp) {
        Some(v) => match parse_timestamp_field(&v) {
            Some(t) => t,
            None => {
                return Err(RowFault { kind: FaultKind::Decode, field: FieldId::Timestamp });
            },
        },
        None => {
            return Err(RowFault { kind: FaultKind::Decode, field: FieldId::Timestamp });
        },
    };
    let ts_init = match get_required(row, cols.local_timestamp) {
        Some(v) => match parse_timestamp_field(&v) {
            Some(t) => t,
            None => {
                return Err(
                    RowFault { kind: FaultKind::Decode, field: FieldId::LocalTimestamp },
                );
            },
        },
        None => {
            return Err(RowFault { kind: FaultKind::Decode, field: FieldId::LocalTimestamp });
        },
    };
    let o_bp = get_optional(row, cols.bid_price);
    let bid_price = match opt_price(&o_bp, pp) {
        Some(p) => p,
        None => {
            return Err(RowFault { kind: FaultKind::Decode, field: FieldId::BidPrice });
        },
    };
    let o_ba = get_optional(row, cols.bid_amount);
    let bid_size = match opt_quantity(&o_ba, sp) {
        Ok(q) => q,
        Err(k) => {
            return Err(RowFault { kind: k, field: FieldId::BidAmount });
        },
    };
    let o_ap = get_optional(row, cols.ask_price);
    let ask_price = match opt_price(&o_ap, pp) {
        Some(p) => p,
        None => {
            return Err(RowFault { kind: FaultKind::Decode, field: FieldId::AskPrice });
        },
    };
    let o_aa = get_optional(row, cols.ask_amount);
    let ask_size = match opt_quantity(&o_aa, sp) {
        Ok(q) => q,
        Err(k) => {
            return Err(RowFault { kind: k, field: FieldId::AskAmount });
        },
    };
    let instrument_id = parse_instrument_id(&exchange, &symbol);
    Ok(QuoteTick { instrument_id, bid_price, ask_price, bid_size, ask_size, ts_event, ts_init })
}

/// Index of the first of the data rows whose quote faults, or their count.
pub open spec fn quote_first_bad(
    hs: Seq<Seq<u8>>,
    drows: Seq<Seq<Seq<u8>>>,
    pp: u8,
    sp: u8,
) -> int
    decreases drows.len(),
{
    if drows.len() == 0 {
        0
    } else if spec_quote_of_row(hs, drows[0], pp, sp) is Err {
        0
    } else {
        1 + quote_first_bad(hs, drows.skip(1), pp, sp)
    }
}

pub proof fn lemma_quote_first_bad_at(
    hs: Seq<Seq<u8>>,
    drows: Seq<Seq<Seq<u8>>>,
    pp: u8,
    sp: u8,
    i: int,
)
    requires
        0 <= i <= drows.len(),
        forall|j: int| 0 <= j < i ==> spec_quote_of_row(hs, #[trigger] drows[j], pp, sp) is Ok,
        i == drows.len() || spec_quote_of_row(hs, drows[i], pp, sp) is Err,
    ensures
        quote_first_bad(hs, drows, pp, sp) == i,
    decreases i,
{
    if i > 0 {
        assert(spec_quote_of_row(hs, drows[0], pp, sp) is Ok);
        lemma_quote_first_bad_at(hs, drows.skip(1), pp, sp, i - 1);
        assert(forall|j: int|
            0 <= j < drows.skip(1).len() ==> #[trigger] drows.skip(1)[j] == drows[j + 1]);
    }
}

/// Views of a sequence of quotes.
pub open spec fn quote_views(qs: Seq<QuoteTick>) -> Seq<QuoteView> {
    qs.map_values(|q: QuoteTick| q@)
}

/// What loading quotes from parsed rows yields: one quote per data row up
/// to the effective row limit, or the first failing row's error.
pub open spec fn spec_quotes_of_rows(
    rows: Seq<Seq<Seq<u8>>>,
    pp: u8,
    sp: u8,
    limit: Option<usize>,
) -> Result<Seq<QuoteView>, LoadError> {
    if rows.len() <= 1 {
        Ok(Seq::empty())
    } else {
        let hs = rows[0];
        let drows = rows.skip(1);
        let n = spec_effective_take(drows.len() as int, limit);
        let taken = drows.take(n);
        let fb = quote_first_bad(hs, taken, pp, sp);
        if fb == n {
            Ok(Seq::new(n as nat, |i: int| spec_quote_of_row(hs, taken[i], pp, sp)->Ok_0))
        } else {
            Err(spec_fault_error(spec_quote_of_row(hs, taken[fb], pp, sp)->Err_0, fb as usize))
        }
    }
}

/// Loads quotes from parsed rows (header first); the output is truncated by
/// `limit`, checked after each append, and the first failing row aborts the
/// load.
#[verifier::rlimit(60)]
#[verifier::loop_isolation(false)]
pub fn load_quote_ticks_from_rows(
    rows: &Vec<Vec<Vec<u8>>>,
    price_precision: u8,
    size_precision: u8,
    limit: Option<usize>,
) -> (r: Result<Vec<QuoteTick>, LoadError>)
    requires
        price_precision <= 9,
        size_precision <= 9,
    ensures
        ({
            let m = spec_quotes_of_rows(rows.deep_view(), price_precision, size_precision, limit);
            match r {
                Ok(qs) => m == Ok::<Seq<QuoteView>, LoadError>(quote_views(qs@)),
                Err(e) => m == Err::<Seq<QuoteView>, LoadError>(e),
            }
        }),
{
    let ghost rs = rows.deep_view();
    proof {
        assert(rs.len() == rows@.len());
        assert(forall|j: int| 0 <= j < rs.len() ==> #[trigger] rs[j] == rows@[j].deep_view());
    }
    if rows.len() <= 1 {
        let empty: Vec<QuoteTick> = Vec::new();
        proof {
            assert(quote_views(empty@) =~= Seq::<QuoteView>::empty());
        }
        return Ok(empty);
    }
    let pp = price_precision;
    let sp = size_precision;
    let cols = quote_cols(&rows[0]);
    let ghost hs = rs[0];
    let ghost drows = rs.skip(1);
    let nrows = rows.len() - 1;
    let n = effective_take(nrows, limit);
    let ghost taken = drows.take(n as int);
    proof {
        assert(forall|j: int| 0 <= j < n ==> #[trigger] taken[j] == rs[j + 1]);
    }
    let mut out: Vec<QuoteTick> = Vec::new();
    let mut idx: usize = 0;
    while idx < n
        invariant
            0 <= idx <= n,
            out@.len() == idx,
            forall|j: int|
                0 <= j < idx ==> spec_quote_of_row(hs, #[trigger] taken[j], pp, sp) is Ok,
            forall|j: int|
                0 <= j < idx ==> #[trigger] out@[j]@ == spec_quote_of_row(
                    hs,
                    taken[j],
                    pp,
                    sp,
                )->Ok_0,
        decreases n - idx,
    {
        let row = &rows[idx + 1];
        proof {
            assert(row.deep_view() == taken[idx as int]);
        }
        match quote_of_row(&cols, row, pp, sp, Ghost(hs)) {
            Err(f) => {
                proof {
                    lemma_quote_first_bad_at(hs, taken, pp, sp, idx as int);
                }
                return Err(fault_error(f, idx));
            },
            Ok(q) => {
                out.push(q);
                idx = idx + 1;
            },
        }
    }
    proof {
        lemma_quote_first_bad_at(hs, taken, pp, sp, n as int);
        assert(quote_views(out@) =~= Seq::new(
            n as nat,
            |i: int| spec_quote_of_row(hs, taken[i], pp, sp)->Ok_0,
        ));
    }
    Ok(out)
}

/// Loads quotes from uncompressed file bytes.
fn quotes_from_plain(
    buf: &Vec<u8>,
    price_precision: u8,
    size_precision: u8,
    limit: Option<usize>,
) -> (r: Result<Vec<QuoteTick>, LoadError>)
    requires
        price_precision <= 9,
        size_precision <= 9,
    ensures
        ({
            let max = spec_max_records(limit);
            let m = spec_quotes_of_rows(csv_rows_of(buf@, max), price_precision, size_precision, limit);
            &&& !(r matches Err(LoadError::Io { .. }))
            &&& ((r matches Err(LoadError::Malformed { .. })) <==> !csv_accepts(buf@, max))
            &&& (csv_accepts(buf@, max) ==> match r {
                Ok(qs) => m == Ok::<Seq<QuoteView>, LoadError>(quote_views(qs@)),
                Err(e) => m == Err::<Seq<QuoteView>, LoadError>(e),
            })
        }),
{
    let rows = match csv_rows(buf, max_records(limit)) {
        Ok(rw) => rw,
        Err((record, detail)) => {
            return Err(LoadError::Malformed { record, detail });
        },
    };
    load_quote_ticks_from_rows(&rows, price_precision, size_precision, limit)
}

/// Loads top-of-book quotes from the bytes of a quote file, gzip
/// decompressing them first when `gzipped` holds. A blank side yields zero
/// price and zero size at the given precisions, never an error; the call
/// fails exactly when the compressed stream does not decode, the reader
/// rejects a consumed record, or a consumed row is bad.
pub fn load_quote_ticks(
    data: &Vec<u8>,
    gzipped: bool,
    price_precision: u8,
    size_precision: u8,
    limit: Option<usize>,
) -> (r: Result<Vec<QuoteTick>, LoadError>)
    requires
        price_precision <= 9,
        size_precision <= 9,
    ensures
        ({
            let src = if gzipped {
                gunzip_of(data@)
            } else {
                data@
            };
            let max = spec_max_records(limit);
            let m = spec_quotes_of_rows(csv_rows_of(src, max), price_precision, size_precision, limit);
            &&& ((r matches Err(LoadError::Io { .. })) <==> (gzipped && !gunzip_ok(data@)))
            &&& ((gzipped ==> gunzip_ok(data@)) ==> ((r matches Err(LoadError::Malformed { .. }))
                <==> !csv_accepts(src, max)))
            &&& ((gzipped ==> gunzip_ok(data@)) && csv_accepts(src, max) ==> match r {
                Ok(qs) => m == Ok::<Seq<QuoteView>, LoadError>(quote_views(qs@)),
                Err(e) => m == Err::<Seq<QuoteView>, LoadError>(e),
            })
        }),
{
    if gzipped {
        match gunzip(data) {
            Ok(b) => quotes_from_plain(&b, price_precision, size_precision, limit),
            Err(detail) => Err(LoadError::Io { detail }),
        }
    } else {
        quotes_from_plain(data, price_precision, size_precision, limit)
    }
}

/// Column indices of the trade schema within one file's header.
pub struct TradeCols {
    pub exchange: Option<usize>,
    pub symbol: Option<usize>,
    pub timestamp: Option<usize>,
    pub local_timestamp: Option<usize>,
    pub id: Option<usize>,
    pub side: Option<usize>,
    pub price: Option<usize>,
    pub amount: Option<usize>,
}

impl TradeCols {
    /// Each index is that of its column name within the header `hs`.
    pub open spec fn wf(self, hs: Seq<Seq<u8>>) -> bool {
        &&& spec_col_opt(self.exchange) == col_index(hs, spec_col_exchange())
        &&& spec_col_opt(self.symbol) == col_index(hs, spec_col_symbol())
        &&& spec_col_opt(self.timestamp) == col_index(hs, spec_col_timestamp())
        &&& spec_col_opt(self.local_timestamp) == col_index(hs, spec_col_local_timestamp())
        &&& spec_col_opt(self.id) == col_index(hs, spec_col_id())
        &&& spec_col_opt(self.side) == col_index(hs, spec_col_side())
        &&& spec_col_opt(self.price) == col_index(hs, spec_col_price())
        &&& spec_col_opt(self.amount) == col_index(hs, spec_col_amount())
    }
}

/// Locates the trade columns in a header row.
pub fn trade_cols(headers: &Vec<Vec<u8>>) -> (r: TradeCols)
    ensures
        r.wf(headers.deep_view()),
{
    let ghost hs = headers.deep_view();
    proof {
        broadcast use vstd::std_specs::vec::axiom_spec_len;

        assert(hs.len() == headers@.len());
        assert(headers.len() == headers@.len());
        lemma_col_index_bounds(hs, spec_col_exchange());
        lemma_col_index_bounds(hs, spec_col_symbol());
        lemma_col_index_bounds(hs, spec_col_timestamp());
        lemma_col_index_bounds(hs, spec_col_local_timestamp());
        lemma_col_index_bounds(hs, spec_col_id());
        lemma_col_index_bounds(hs, spec_col_side());
        lemma_col_index_bounds(hs, spec_col_price());
        lemma_col_index_bounds(hs, spec_col_amount());
    }
    TradeCols {
        exchange: find_column(headers, &col_exchange()),
        symbol: find_column(headers, &col_symbol()),
        timestamp: find_column(headers, &col_timestamp()),
        local_timestamp: find_column(headers, &col_local_timestamp()),
        id: find_column(headers, &col_id()),
        side: find_column(headers, &col_side()),
        price: find_column(headers, &col_price()),
        amount: find_column(headers, &col_amount()),
    }
}

/// The trade a row denotes, or the first faulting field in checking order.
pub open spec fn spec_trade_of_row(
    hs: Seq<Seq<u8>>,
    row: Seq<Seq<u8>>,
    pp: u8,
    sp: u8,
) -> Result<TradeView, RowFault> {
    let c_ex = spec_get_required(row, col_index(hs, spec_col_exchange()));
    let c_sy = spec_get_required(row, col_index(hs, spec_col_symbol()));
    let c_ts = spec_get_required(row, col_index(hs, spec_col_timestamp()));
    let c_lt = spec_get_required(row, col_index(hs, spec_col_local_timestamp()));
    let c_id = spec_get_required(row, col_index(hs, spec_col_id()));
    let c_sd = spec_get_required(row, col_index(hs, spec_col_side()));
    let c_pr = spec_get_required(row, col_index(hs, spec_col_price()));
    let c_am = spec_get_required(row, col_index(hs, spec_col_amount()));
    if c_ex is None {
        Err(RowFault { kind: FaultKind::Decode, field: FieldId::Exchange })
    } else if c_sy is None {
        Err(RowFault { kind: FaultKind::Decode, field: FieldId::Symbol })
    } else if c_ts is None || spec_timestamp_field(c_ts->Some_0) is None {
        Err(RowFault { kind: FaultKind::Decode, field: FieldId::Timestamp })
    } else if c_lt is None || spec_timestamp_field(c_lt->Some_0) is None {
        Err(RowFault { kind: FaultKind::Decode, field: FieldId::LocalTimestamp })
    } else if c_id is None {
        Err(RowFault { kind: FaultKind::Decode, field: FieldId::TradeId })
    } else if c_sd is None {
        Err(RowFault { kind: FaultKind::Decode, field: FieldId::Side })
    } else if spec_aggressor_side(c_sd->Some_0) is None {
        Err(RowFault { kind: FaultKind::Parse, field: FieldId::Side })
    } else if c_pr is None || spec_parse_scaled_i64(c_pr->Some_0, pp as nat) is None {
        Err(RowFault { kind: FaultKind::Decode, field: FieldId::Price })
    } else if c_am is None {
        Err(RowFault { kind: FaultKind::Decode, field: FieldId::Amount })
    } else if spec_quantity_of(c_am->Some_0, sp) is Err {
        Err(RowFault { kind: spec_quantity_of(c_am->Some_0, sp)->Err_0, field: FieldId::Amount })
    } else {
        Ok(
            TradeView {
                instrument_id: spec_instrument_id(c_ex->Some_0, c_sy->Some_0),
                price: Price {
                    raw: spec_parse_scaled_i64(c_pr->Some_0, pp as nat)->Some_0,
                    precision: pp,
                },
                size: spec_quantity_of(c_am->Some_0, sp)->Ok_0,
                aggressor_side: spec_aggressor_side(c_sd->Some_0)->Some_0,
                trade_id: c_id->Some_0,
                ts_event: spec_timestamp_field(c_ts->Some_0)->Some_0,
                ts_init: spec_timestamp_field(c_lt->Some_0)->Some_0,
            },
        )
    }
}

/// Builds the trade of one data row.
fn trade_of_row(
    cols: &TradeCols,
    row: &Vec<Vec<u8>>,
    pp: u8,
    sp: u8,
    Ghost(hs): Ghost<Seq<Seq<u8>>>,
) -> (r: Result<TradeTick, RowFault>)
    requires
        cols.wf(hs),
        pp <= 9,
        sp <= 9,
    ensures
        match r {
            Ok(t) => spec_trade_of_row(hs, row.deep_view(), pp, sp) == Ok::<TradeView, RowFault>(
                t@,
            ),
            Err(f) => spec_trade_of_row(hs, row.deep_view(), pp, sp) == Err::<
                TradeView,
                RowFault,
            >(f),
        },
{
    let exchange = match get_required(row, cols.exchange) {
        Some(v) => v,
        None => {
            return Err(RowFault { kind: FaultKind::Decode, field: FieldId::Exchange });
        },
    };
    let symbol = match get_required(row, cols.symbol) {
        Some(v) => v,
        None => {
            return Err(RowFault { kind: FaultKind::Decode, field: FieldId::Symbol });
        },
    };
    let ts_event = match get_required(row, cols.timestamp) {
        Some(v) => match parse_timestamp_field(&v) {
            Some(t) => t,
            None => {
                return Err(RowFault { kind: FaultKind::Decode, field: FieldId::Timestamp });
            },
        },
        None => {
            return Err(RowFault { kind: FaultKind::Decode, field: FieldId::Timestamp });
        },
    };
    let ts_init = match get_required(row, cols.local_timestamp) {
        Some(v) => match parse_timestamp_field(&v) {
            Some(t) => t,
            None => {
                return Err(
                    RowFault { kind: FaultKind::Decode, field: FieldId::LocalTimestamp },
                );
            },
        },
        None => {
            return Err(RowFault { kind: FaultKind::Decode, field: FieldId::LocalTimestamp });
        },
    };
    let id = match get_required(row, cols.id) {
        Some(v) => v,
        None => {
            return Err(RowFault { kind: FaultKind::Decode, field: FieldId::TradeId });
        },
    };
    let side_bytes = match get_required(row, cols.side) {
        Some(v) => v,
        None => {
            return Err(RowFault { kind: FaultKind::Decode, field: FieldId::Side });
        },
    };
    let aggressor_side = match parse_aggressor_side(&side_bytes) {
        Some(s) => s,
        None => {
            return Err(RowFault { kind: FaultKind::Parse, field: FieldId::Side });
        },
    };
    let price = match get_required(row, cols.price) {
        Some(v) => match Price::from_bytes(&v, pp) {
            Some(p) => p,
            None => {
                return Err(RowFault { kind: FaultKind::Decode, field: FieldId::Price });
            },
        },
        None => {
            return Err(RowFault { kind: FaultKind::Decode, field: FieldId::Price });
        },
    };
    let size = match get_required(row, cols.amount) {
        Some(v) => match Quantity::from_bytes(&v, sp) {
            Ok(q) => q,
            Err(k) => {
                return Err(RowFault { kind: k, field: FieldId::Amount });
            },
        },
        None => {
            return Err(RowFault { kind: FaultKind::Decode, field: FieldId::Amount });
        },
    };
    let instrument_id = parse_instrument_id(&exchange, &symbol);
    Ok(
        TradeTick {
            instrument_id,
            price,
            size,
            aggressor_side,
            trade_id: TradeId { value: id },
            ts_event,
            ts_init,
        },
    )
}

/// Index of the first of the data rows whose trade faults, or their count.
pub open spec fn trade_first_bad(
    hs: Seq<Seq<u8>>,
    drows: Seq<Seq<Seq<u8>>>,
    pp: u8,
    sp: u8,
) -> int
    decreases drows.len(),
{
    if drows.len() == 0 {
        0
    } else if spec_trade_of_row(hs, drows[0], pp, sp) is Err {
        0
    } else {
        1 + trade_first_bad(hs, drows.skip(1), pp, sp)
    }
}

pub proof fn lemma_trade_first_bad_at(
    hs: Seq<Seq<u8>>,
    drows: Seq<Seq<Seq<u8>>>,
    pp: u8,
    sp: u8,
    i: int,
)
    requires
        0 <= i <= drows.len(),
        forall|j: int| 0 <= j < i ==> spec_trade_of_row(hs, #[trigger] drows[j], pp, sp) is Ok,
        i == drows.len() || spec_trade_of_row(hs, drows[i], pp, sp) is Err,
    ensures
        trade_first_bad(hs, drows, pp, sp) == i,
    decreases i,
{
    if i > 0 {
        assert(spec_trade_of_row(hs, drows[0], pp, sp) is Ok);
        lemma_trade_first_bad_at(hs, drows.skip(1), pp, sp, i - 1);
        assert(forall|j: int|
            0 <= j < drows.skip(1).len() ==> #[trigger] drows.skip(1)[j] == drows[j + 1]);
    }
}

/// Views of a sequence of trades.
pub open spec fn trade_views(ts: Seq<TradeTick>) -> Seq<TradeView> {
    ts.map_values(|t: TradeTick| t@)
}

/// What loading trades from parsed rows yields: one trade per data row up
/// to the effective row limit, or the first failing row's error.
pub open spec fn spec_trades_of_rows(
    rows: Seq<Seq<Seq<u8>>>,
    pp: u8,
    sp: u8,
    limit: Option<usize>,
) -> Result<Seq<TradeView>, LoadError> {
    if rows.len() <= 1 {
        Ok(Seq::empty())
    } else {
        let hs = rows[0];
        let drows = rows.skip(1);
        let n = spec_effective_take(drows.len() as int, limit);
        let taken = drows.take(n);
        let fb = trade_first_bad(hs, taken, pp, sp);
        if fb == n {
            Ok(Seq::new(n as nat, |i: int| spec_trade_of_row(hs, taken[i], pp, sp)->Ok_0))
        } else {
            Err(spec_fault_error(spec_trade_of_row(hs, taken[fb], pp, sp)->Err_0, fb as usize))
        }
    }
}

/// Loads trades from parsed rows (header first); the output is truncated by
/// `limit`, checked after each append, and the first failing row aborts the
/// load.
#[verifier::rlimit(60)]
#[verifier::loop_isolation(false)]
pub fn load_trade_ticks_from_rows(
    rows: &Vec<Vec<Vec<u8>>>,
    price_precision: u8,
    size_precision: u8,
    limit: Option<usize>,
) -> (r: Result<Vec<TradeTick>, LoadError>)
    requires
        price_precision <= 9,
        size_precision <= 9,
    ensures
        ({
            let m = spec_trades_of_rows(rows.deep_view(), price_precision, size_precision, limit);
            match r {
                Ok(ts) => m == Ok::<Seq<TradeView>, LoadError>(trade_views(ts@)),
                Err(e) => m == Err::<Seq<TradeView>, LoadError>(e),
            }
        }),
{
    let ghost rs = rows.deep_view();
    proof {
        assert(rs.len() == rows@.len());
        assert(forall|j: int| 0 <= j < rs.len() ==> #[trigger] rs[j] == rows@[j].deep_view());
    }
    if rows.len() <= 1 {
        let empty: Vec<TradeTick> = Vec::new();
        proof {
            assert(trade_views(empty@) =~= Seq::<TradeView>::empty());
        }
        return Ok(empty);
    }
    let pp = price_precision;
    let sp = size_precision;
    let cols = trade_cols(&rows[0]);
    let ghost hs = rs[0];
    let ghost drows = rs.skip(1);
    let nrows = rows.len() - 1;
    let n = effective_take(nrows, limit);
    let ghost taken = drows.take(n as int);
    proof {
        assert(forall|j: int| 0 <= j < n ==> #[trigger] taken[j] == rs[j + 1]);
    }
    let mut out: Vec<TradeTick> = Vec::new();
    let mut idx: usize = 0;
    while idx < n
        invariant
            0 <= idx <= n,
            out@.len() == idx,
            forall|j: int|
                0 <= j < idx ==> spec_trade_of_row(hs, #[trigger] taken[j], pp, sp) is Ok,
            forall|j: int|
                0 <= j < idx ==> #[trigger] out@[j]@ == spec_trade_of_row(
                    hs,
                    taken[j],
                    pp,
                    sp,
                )->Ok_0,
        decreases n - idx,
    {
        let row = &rows[idx + 1];
        proof {
            assert(row.deep_view() == taken[idx as int]);
        }
        match trade_of_row(&cols, row, pp, sp, Ghost(hs)) {
            Err(f) => {
                proof {
                    lemma_trade_first_bad_at(hs, taken, pp, sp, idx as int);
                }
                return Err(fault_error(f, idx));
            },
            Ok(t) => {
                out.push(t);
                idx = idx + 1;
            },
        }
    }
    proof {
        lemma_trade_first_bad_at(hs, taken, pp, sp, n as int);
        assert(trade_views(out@) =~= Seq::new(
            n as nat,
            |i: int| spec_trade_of_row(hs, taken[i], pp, sp)->Ok_0,
        ));
    }
    Ok(out)
}

/// Loads trades from uncompressed file bytes.
fn trades_from_plain(
    buf: &Vec<u8>,
    price_precision: u8,
    size_precision: u8,
    limit: Option<usize>,
) -> (r: Result<Vec<TradeTick>, LoadError>)
    requires
        price_precision <= 9,
        size_precision <= 9,
    ensures
        ({
            let max = spec_max_records(limit);
            let m = spec_trades_of_rows(csv_rows_of(buf@, max), price_precision, size_precision, limit);
            &&& !(r matches Err(LoadError::Io { .. }))
            &&& ((r matches Err(LoadError::Malformed { .. })) <==> !csv_accepts(buf@, max))
            &&& (csv_accepts(buf@, max) ==> match r {
                Ok(ts) => m == Ok::<Seq<TradeView>, LoadError>(trade_views(ts@)),
                Err(e) => m == Err::<Seq<TradeView>, LoadError>(e),
            })
        }),
{
    let rows = match csv_rows(buf, max_records(limit)) {
        Ok(rw) => rw,
        Err((record, detail)) => {
            return Err(LoadError::Malformed { record, detail });
        },
    };
    load_trade_ticks_from_rows(&rows, price_precision, size_precision, limit)
}

/// Loads executed trades from the bytes of a trade file, gzip decompressing
/// them first when `gzipped` holds. The call fails exactly when the
/// compressed stream does not decode, the reader rejects a consumed
/// record, or a consumed row is bad.
pub fn load_trade_ticks(
    data: &Vec<u8>,
    gzipped: bool,
    price_precision: u8,
    size_precision: u8,
    limit: Option<usize>,
) -> (r: Result<Vec<TradeTick>, LoadError>)
    requires
        price_precision <= 9,
        size_precision <= 9,
    ensures
        ({
            let src = if gzipped {
                gunzip_of(data@)
            } else {
                data@
            };
            let max = spec_max_records(limit);
            let m = spec_trades_of_rows(csv_rows_of(src, max), price_precision, size_precision, limit);
            &&& ((r matches Err(LoadError::Io { .. })) <==> (gzipped && !gunzip_ok(data@)))
            &&& ((gzipped ==> gunzip_ok(data@)) ==> ((r matches Err(LoadError::Malformed { .. }))
                <==> !csv_accepts(src, max)))
            &&& ((gzipped ==> gunzip_ok(data@)) && csv_accepts(src, max) ==> match r {
                Ok(ts) => m == Ok::<Seq<TradeView>, LoadError>(trade_views(ts@)),
                Err(e) => m == Err::<Seq<TradeView>, LoadError>(e),
            })
        }),
{
    if gzipped {
        match gunzip(data) {
            Ok(b) => trades_from_plain(&b, price_precision, size_precision, limit),
            Err(detail) => Err(LoadError::Io { detail }),
        }
    } else {
        trades_from_plain(data, price_precision, size_precision, limit)
    }
}

} // verus!
