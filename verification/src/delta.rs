//! Order-book deltas: the streaming, single-pass batch-boundary transform.
//!
//! Each book-update row becomes one delta with flags zero. Before a new
//! delta is appended, if its event timestamp differs from the previous
//! delta's, that previous delta is retroactively stamped with `F_LAST`;
//! after the last row, the final delta is stamped unconditionally. So a
//! delta carries `F_LAST` exactly when it is the last of its run of equal
//! event timestamps, and the very last delta always carries it.

use vstd::prelude::*;
use crate::errors::{fault_error, spec_fault_error, FaultKind, FieldId, LoadError, RowFault};
use crate::fields::{
    parse_book_action, parse_bool_field, parse_instrument_id, parse_order_side,
    parse_timestamp_field, spec_bool_field, spec_book_action, spec_instrument_id,
    spec_order_side, spec_timestamp_field,
};
use crate::model::{
    BookOrder, DeltaView, OrderBookDelta, Price, Quantity, spec_quantity_of, F_LAST,
};
use crate::rows::{
    col_amount, col_exchange, col_index, col_is_snapshot, col_local_timestamp, col_price,
    col_side, col_symbol, col_timestamp, find_column, get_required, lemma_col_index_bounds,
    spec_col_amount, spec_col_exchange, spec_col_is_snapshot, spec_col_local_timestamp,
    spec_col_opt, spec_col_price, spec_col_side, spec_col_symbol, spec_col_timestamp,
    spec_effective_take, effective_take, spec_get_required,
};
use crate::decimal::spec_parse_scaled_i64;
use crate::source::{csv_accepts, csv_rows, csv_rows_of, gunzip, gunzip_of, gunzip_ok, max_records, spec_max_records};

verus! {

/// Column indices of the book-update schema within one file's header.
pub struct DeltaCols {
    pub exchange: Option<usize>,
    pub symbol: Option<usize>,
    pub timestamp: Option<usize>,
    pub local_timestamp: Option<usize>,
    pub is_snapshot: Option<usize>,
    pub side: Option<usize>,
    pub price: Option<usize>,
    pub amount: Option<usize>,
}

impl DeltaCols {
    /// Each index is that of its column name within the header `hs`.
    pub open spec fn wf(self, hs: Seq<Seq<u8>>) -> bool {
        &&& spec_col_opt(self.exchange) == col_index(hs, spec_col_exchange())
        &&& spec_col_opt(self.symbol) == col_index(hs, spec_col_symbol())
        &&& spec_col_opt(self.timestamp) == col_index(hs, spec_col_timestamp())
        &&& spec_col_opt(self.local_timestamp) == col_index(hs, spec_col_local_timestamp())
        &&& spec_col_opt(self.is_snapshot) == col_index(hs, spec_col_is_snapshot())
        &&& spec_col_opt(self.side) == col_index(hs, spec_col_side())
        &&& spec_col_opt(self.price) == col_index(hs, spec_col_price())
        &&& spec_col_opt(self.amount) == col_index(hs, spec_col_amount())
    }
}

/// Locates the book-update columns in a header row.
pub fn delta_cols(headers: &Vec<Vec<u8>>) -> (r: DeltaCols)
    ensures
        r.wf(headers.deep_view()),
{
    let ghost hs = headers.deep_view();
    proof {
        broadcast use vstd::std_specs::vec::axiom_spec_len;

        assert(hs.len() == headers@.len());
        assert(headers.len() == headers@.len());
        lemma_col_index_bounds(hs, spec_col_exchange());
        lemma_col_index_bounds(hs, spec_col_symbol());
        lemma_col_index_bounds(hs, spec_col_timestamp());
        lemma_col_index_bounds(hs, spec_col_local_timestamp());
        lemma_col_index_bounds(hs, spec_col_is_snapshot());
        lemma_col_index_bounds(hs, spec_col_side());
        lemma_col_index_bounds(hs, spec_col_price());
        lemma_col_index_bounds(hs, spec_col_amount());
    }
    DeltaCols {
        exchange: find_column(headers, &col_exchange()),
        symbol: find_column(headers, &col_symbol()),
        timestamp: find_column(headers, &col_timestamp()),
        local_timestamp: find_column(headers, &col_local_timestamp()),
        is_snapshot: find_column(headers, &col_is_snapshot()),
        side: find_column(headers, &col_side()),
        price: find_column(headers, &col_price()),
        amount: find_column(headers, &col_amount()),
    }
}

/// The delta a book-update row denotes, before batch stamping: flags zero,
/// sequence zero and order id zero, since this source is a pure level feed;
/// or the first faulting field, in checking order.
pub open spec fn spec_delta_of_row(
    hs: Seq<Seq<u8>>,
    row: Seq<Seq<u8>>,
    pp: u8,
    sp: u8,
) -> Result<DeltaView, RowFault> {
    let c_ex = spec_get_required(row, col_index(hs, spec_col_exchange()));
    let c_sy = spec_get_required(row, col_index(hs, spec_col_symbol()));
    let c_ts = spec_get_required(row, col_index(hs, spec_col_timestamp()));
    let c_lt = spec_get_required(row, col_index(hs, spec_col_local_timestamp()));
    let c_sn = spec_get_required(row, col_index(hs, spec_col_is_snapshot()));
    let c_sd = spec_get_required(row, col_index(hs, spec_col_side()));
    let c_pr = spec_get_required(row, col_index(hs, spec_col_price()));
    let c_am = spec_get_required(row, col_index(hs, spec_col_amount()));
    if c_ex is None {
        Err(RowFault { kind: FaultKind::Decode, field: FieldId::Exchange })
    } else if c_sy is None {
        Err(RowFault { kind: FaultKind::Decode, field: FieldId::Symbol })
    } else if c_ts is None || spec_timestamp_field(c_ts->Some_0) is None {
        Err(RowFault { kind: FaultKind::Decode, field: FieldId::Timestamp })
    } else if c_lt is None || spec_timestamp_field(c_lt->Some_0) is None {
        Err(RowFault { kind: FaultKind::Decode, field: FieldId::LocalTimestamp })
    } else if c_sn is None || spec_bool_field(c_sn->Some_0) is None {
        Err(RowFault { kind: FaultKind::Decode, field: FieldId::IsSnapshot })
    } else if c_sd is None {
        Err(RowFault { kind: FaultKind::Decode, field: FieldId::Side })
    } else if spec_order_side(c_sd->Some_0) is None {
        Err(RowFault { kind: FaultKind::Parse, field: FieldId::Side })
    } else if c_pr is None || spec_parse_scaled_i64(c_pr->Some_0, pp as nat) is None {
        Err(RowFault { kind: FaultKind::Decode, field: FieldId::Price })
    } else if c_am is None {
        Err(RowFault { kind: FaultKind::Decode, field: FieldId::Amount })
    } else if spec_quantity_of(c_am->Some_0, sp) is Err {
        Err(RowFault { kind: spec_quantity_of(c_am->Some_0, sp)->Err_0, field: FieldId::Amount })
    } else {
        let size = spec_quantity_of(c_am->Some_0, sp)->Ok_0;
        Ok(
            DeltaView {
                instrument_id: spec_instrument_id(c_ex->Some_0, c_sy->Some_0),
                action: spec_book_action(spec_bool_field(c_sn->Some_0)->Some_0, c_am->Some_0),
                order: BookOrder {
                    side: spec_order_side(c_sd->Some_0)->Some_0,
                    price: Price {
                        raw: spec_parse_scaled_i64(c_pr->Some_0, pp as nat)->Some_0,
                        precision: pp,
                    },
                    size,
                    order_id: 0,
                },
                flags: 0,
                sequence: 0,
                ts_event: spec_timestamp_field(c_ts->Some_0)->Some_0,
                ts_init: spec_timestamp_field(c_lt->Some_0)->Some_0,
            },
        )
    }
}

/// Builds the unstamped delta of one data row.
fn delta_of_row(
    cols: &DeltaCols,
    row: &Vec<Vec<u8>>,
    pp: u8,
    sp: u8,
    Ghost(hs): Ghost<Seq<Seq<u8>>>,
) -> (r: Result<OrderBookDelta, RowFault>)
    requires
        cols.wf(hs),
        pp <= 9,
        sp <= 9,
    ensures
        match r {
            Ok(d) => spec_delta_of_row(hs, row.deep_view(), pp, sp) == Ok::<DeltaView, RowFault>(
                d@,
            ),
            Err(f) => spec_delta_of_row(hs, row.deep_view(), pp, sp) == Err::<
                DeltaView,
                RowFault,
            >(f),
        },
{
    let exchange = match get_required(row, cols.exchange) {
        Some(v) => v,
        None => {
            return Err(RowFault { kind: FaultKind::Decode, field: FieldId::Exchange });
        },
    };
    let symbol = match get_required(row, cols.symbol) {
        Some(v) => v,
        None => {
            return Err(RowFault { kind: FaultKind::Decode, field: FieldId::Symbol });
        },
    };
    let ts_event = match get_required(row, cols.timestamp) {
        Some(v) => match parse_timestamp_field(&v) {
            Some(t) => t,
            None => {
                return Err(RowFault { kind: FaultKind::Decode, field: FieldId::Timestamp });
            },
        },
        None => {
            return Err(RowFault { kind: FaultKind::Decode, field: FieldId::Timestamp });
        },
    };
    let ts_init = match get_required(row, cols.local_timestamp) {
        Some(v) => match parse_timestamp_field(&v) {
            Some(t) => t,
            None => {
                return Err(
                    RowFault { kind: FaultKind::Decode, field: FieldId::LocalTimestamp },
                );
            },
        },
        None => {
            return Err(RowFault { kind: FaultKind::Decode, field: FieldId::LocalTimestamp });
        },
    };
    let is_snapshot = match get_required(row, cols.is_snapshot) {
        Some(v) => match parse_bool_field(&v) {
            Some(b) => b,
            None => {
                return Err(RowFault { kind: FaultKind::Decode, field: FieldId::IsSnapshot });
            },
        },
        None => {
            return Err(RowFault { kind: FaultKind::Decode, field: FieldId::IsSnapshot });
        },
    };
    let side_bytes = match get_required(row, cols.side) {
        Some(v) => v,
        None => {
            return Err(RowFault { kind: FaultKind::Decode, field: FieldId::Side });
        },
    };
    let side = match parse_order_side(&side_bytes) {
        Some(s) => s,
        None => {
            return Err(RowFault { kind: FaultKind::Parse, field: FieldId::Side });
        },
    };
    let price = match get_required(row, cols.price) {
        Some(v) => match Price::from_bytes(&v, pp) {
            Some(p) => p,
            None => {
                return Err(RowFault { kind: FaultKind::Decode, field: FieldId::Price });
            },
        },
        None => {
            return Err(RowFault { kind: FaultKind::Decode, field: FieldId::Price });
        },
    };
    let amount = match get_required(row, cols.amount) {
        Some(v) => v,
        None => {
            return Err(RowFault { kind: FaultKind::Decode, field: FieldId::Amount });
        },
    };
    let size = match Quantity::from_bytes(&amount, sp) {
        Ok(q) => q,
        Err(k) => {
            return Err(RowFault { kind: k, field: FieldId::Amount });
        },
    };
    let action = parse_book_action(is_snapshot, &amount);
    let instrument_id = parse_instrument_id(&exchange, &symbol);
    Ok(
        OrderBookDelta {
            instrument_id,
            action,
            order: BookOrder { side, price, size, order_id: 0 },
            flags: 0,
            sequence: 0,
            ts_event,
            ts_init,
        },
    )
}

/// The delta with the batch-boundary flag set.
pub open spec fn with_last(d: DeltaView) -> DeltaView {
    DeltaView { flags: F_LAST, ..d }
}

/// Batch stamping over a whole output: a delta carries `F_LAST` exactly
/// when it closes the output or the next delta's event timestamp differs.
pub open spec fn stamped(ds: Seq<DeltaView>) -> Seq<DeltaView> {
    Seq::new(
        ds.len(),
        |i: int|
            if i + 1 == ds.len() || ds[i].ts_event != ds[i + 1].ts_event {
                with_last(ds[i])
            } else {
                ds[i]
            },
    )
}

/// The last delta of a nonempty stamped output carries `F_LAST`.
pub proof fn lemma_stamped_last(ds: Seq<DeltaView>)
    requires
        ds.len() > 0,
    ensures
        stamped(ds).last().flags == F_LAST,
{
}

/// Exactly one delta per run of equal event timestamps carries `F_LAST`:
/// the one that ends the output or whose successor has another timestamp;
/// every other delta keeps flags zero. Timestamps are unchanged.
pub proof fn lemma_stamped_batch_boundaries(ds: Seq<DeltaView>, i: int)
    requires
        forall|j: int| 0 <= j < ds.len() ==> (#[trigger] ds[j]).flags == 0,
        0 <= i < ds.len(),
    ensures
        stamped(ds)[i].flags == if i + 1 == ds.len() || ds[i].ts_event != ds[i + 1].ts_event {
            F_LAST
        } else {
            0u8
        },
        stamped(ds)[i].ts_event == ds[i].ts_event,
{
}

/// Index of the first of the data rows whose delta faults, or their count.
pub open spec fn delta_first_bad(
    hs: Seq<Seq<u8>>,
    drows: Seq<Seq<Seq<u8>>>,
    pp: u8,
    sp: u8,
) -> int
    decreases drows.len(),
{
    if drows.len() == 0 {
        0
    } else if spec_delta_of_row(hs, drows[0], pp, sp) is Err {
        0
    } else {
        1 + delta_first_bad(hs, drows.skip(1), pp, sp)
    }
}

pub proof fn lemma_delta_first_bad_at(
    hs: Seq<Seq<u8>>,
    drows: Seq<Seq<Seq<u8>>>,
    pp: u8,
    sp: u8,
    i: int,
)
    requires
        0 <= i <= drows.len(),
        forall|j: int| 0 <= j < i ==> spec_delta_of_row(hs, #[trigger] drows[j], pp, sp) is Ok,
        i == drows.len() || spec_delta_of_row(hs, drows[i], pp, sp) is Err,
    ensures
        delta_first_bad(hs, drows, pp, sp) == i,
    decreases i,
{
    if i == 0 {
    } else {
        assert(spec_delta_of_row(hs, drows[0], pp, sp) is Ok);
        lemma_delta_first_bad_at(hs, drows.skip(1), pp, sp, i - 1);
        assert(forall|j: int|
            0 <= j < drows.skip(1).len() ==> #[trigger] drows.skip(1)[j] == drows[j + 1]);
    }
}

/// Views of a sequence of deltas.
pub open spec fn delta_views(ds: Seq<OrderBookDelta>) -> Seq<DeltaView> {
    ds.map_values(|d: OrderBookDelta| d@)
}

/// What loading deltas from parsed rows yields: one delta per data row up
/// to the effective row limit, batch-stamped; or the first failing row's
/// error. A file without data rows yields the empty output.
pub open spec fn spec_deltas_of_rows(
    rows: Seq<Seq<Seq<u8>>>,
    pp: u8,
    sp: u8,
    limit: Option<usize>,
) -> Result<Seq<DeltaView>, LoadError> {
    if rows.len() <= 1 {
        Ok(Seq::empty())
    } else {
        let hs = rows[0];
        let drows = rows.skip(1);
        let n = spec_effective_take(drows.len() as int, limit);
        let taken = drows.take(n);
        let fb = delta_first_bad(hs, taken, pp, sp);
        if fb == n {
            Ok(
                stamped(
                    Seq::new(n as nat, |i: int| spec_delta_of_row(hs, taken[i], pp, sp)->Ok_0),
                ),
            )
        } else {
            Err(spec_fault_error(spec_delta_of_row(hs, taken[fb], pp, sp)->Err_0, fb as usize))
        }
    }
}

/// When no row up to the count faults, every row's delta is good.
pub proof fn lemma_delta_all_ok(hs: Seq<Seq<u8>>, drows: Seq<Seq<Seq<u8>>>, pp: u8, sp: u8)
    requires
        delta_first_bad(hs, drows, pp, sp) == drows.len(),
    ensures
        forall|i: int| 0 <= i < drows.len() ==> spec_delta_of_row(hs, #[trigger] drows[i], pp, sp) is Ok,
    decreases drows.len(),
{
    if drows.len() > 0 {
        assert(spec_delta_of_row(hs, drows[0], pp, sp) is Ok);
        lemma_delta_all_ok(hs, drows.skip(1), pp, sp);
        assert forall|i: int|
            0 <= i < drows.len() implies spec_delta_of_row(hs, #[trigger] drows[i], pp, sp)
            is Ok by {
            if i > 0 {
                assert(drows.skip(1)[i - 1] == drows[i]);
                assert(spec_delta_of_row(hs, drows.skip(1)[i - 1], pp, sp) is Ok);
            }
        }
    }
}

/// Batch-boundary laws of a successful load: the last delta of a nonempty
/// output always carries `F_LAST`, and every delta carries it exactly when
/// it ends the output or its event timestamp differs from its successor's —
/// so each run of deltas sharing one event timestamp has `F_LAST` on its
/// last member, in row order, and on no other.
pub proof fn lemma_deltas_batch_flags(
    rows: Seq<Seq<Seq<u8>>>,
    pp: u8,
    sp: u8,
    limit: Option<usize>,
)
    requires
        spec_deltas_of_rows(rows, pp, sp, limit) is Ok,
    ensures
        ({
            let ds = spec_deltas_of_rows(rows, pp, sp, limit)->Ok_0;
            &&& ds.len() > 0 ==> ds.last().flags == F_LAST
            &&& forall|i: int|
                0 <= i < ds.len() ==> (#[trigger] ds[i]).flags == (if i + 1 == ds.len()
                    || ds[i].ts_event != ds[i + 1].ts_event {
                    F_LAST
                } else {
                    0u8
                })
        }),
{
    let ds = spec_deltas_of_rows(rows, pp, sp, limit)->Ok_0;
    if rows.len() <= 1 {
    } else {
        let hs = rows[0];
        let drows = rows.skip(1);
        let n = spec_effective_take(drows.len() as int, limit);
        let taken = drows.take(n);
        lemma_delta_all_ok(hs, taken, pp, sp);
        let raws = Seq::new(n as nat, |i: int| spec_delta_of_row(hs, taken[i], pp, sp)->Ok_0);
        assert(forall|j: int| 0 <= j < raws.len() ==> (#[trigger] raws[j]).flags == 0);
        assert(ds == stamped(raws));
        if ds.len() > 0 {
            lemma_stamped_last(raws);
        }
        assert forall|i: int| 0 <= i < ds.len() implies (#[trigger] ds[i]).flags == (if i + 1
            == ds.len() || ds[i].ts_event != ds[i + 1].ts_event {
            F_LAST
        } else {
            0u8
        }) by {
            lemma_stamped_batch_boundaries(raws, i);
            if i + 1 < ds.len() {
                lemma_stamped_batch_boundaries(raws, i + 1);
            }
        }
    }
}

/// Row-limit law: with a limit of at least one, a successful load yields
/// exactly the limit's worth of deltas when the file has at least that many
/// data rows, and exactly one delta per data row otherwise. (A limit of
/// zero is excluded: the limit is only checked after a row is appended, so
/// it behaves as a limit of one.)
pub proof fn lemma_deltas_limit(rows: Seq<Seq<Seq<u8>>>, pp: u8, sp: u8, l: usize)
    requires
        spec_deltas_of_rows(rows, pp, sp, Some(l)) is Ok,
        l >= 1,
    ensures
        ({
            let ds = spec_deltas_of_rows(rows, pp, sp, Some(l))->Ok_0;
            let n = if rows.len() <= 1 {
                0int
            } else {
                rows.len() - 1
            };
            ds.len() == if l as int <= n {
                l as int
            } else {
                n
            }
        }),
{
}

/// Loads order-book deltas from parsed rows (header first): one delta per
/// data row, truncated by `limit` (checked after each append), stamped with
/// batch boundaries; the first failing row aborts the load.
#[verifier::rlimit(60)]
#[verifier::loop_isolation(false)]
pub fn load_deltas_from_rows(
    rows: &Vec<Vec<Vec<u8>>>,
    price_precision: u8,
    size_precision: u8,
    limit: Option<usize>,
) -> (r: Result<Vec<OrderBookDelta>, LoadError>)
    requires
        price_precision <= 9,
        size_precision <= 9,
    ensures
        match r {
            Ok(ds) => spec_deltas_of_rows(rows.deep_view(), price_precision, size_precision, limit)
                == Ok::<Seq<DeltaView>, LoadError>(delta_views(ds@)),
            Err(e) => spec_deltas_of_rows(rows.deep_view(), price_precision, size_precision, limit)
                == Err::<Seq<DeltaView>, LoadError>(e),
        },
{
    let ghost rs = rows.deep_view();
    proof {
        assert(rs.len() == rows@.len());
        assert(forall|j: int| 0 <= j < rs.len() ==> #[trigger] rs[j] == rows@[j].deep_view());
    }
    if rows.len() <= 1 {
        let empty: Vec<OrderBookDelta> = Vec::new();
        proof {
            assert(delta_views(empty@) =~= Seq::<DeltaView>::empty());
        }
        return Ok(empty);
    }
    let pp = price_precision;
    let sp = size_precision;
    let cols = delta_cols(&rows[0]);
    let ghost hs = rs[0];
    let ghost drows = rs.skip(1);
    let nrows = rows.len() - 1;
    let n = effective_take(nrows, limit);
    let ghost taken = drows.take(n as int);
    proof {
        assert(forall|j: int| 0 <= j < n ==> #[trigger] taken[j] == rs[j + 1]);
    }
    let mut out: Vec<OrderBookDelta> = Vec::new();
    let mut idx: usize = 0;
    while idx < n
        invariant
            0 <= idx <= n,
            out@.len() == idx,
            forall|j: int|
                0 <= j < idx ==> spec_delta_of_row(hs, #[trigger] taken[j], pp, sp) is Ok,
            forall|j: int|
                0 <= j < idx - 1 ==> #[trigger] out@[j]@ == (if spec_delta_of_row(
                    hs,
                    taken[j],
                    pp,
                    sp,
                )->Ok_0.ts_event != spec_delta_of_row(hs, taken[j + 1], pp, sp)->Ok_0.ts_event {
                    with_last(spec_delta_of_row(hs, taken[j], pp, sp)->Ok_0)
                } else {
                    spec_delta_of_row(hs, taken[j], pp, sp)->Ok_0
                }),
            idx > 0 ==> out@[idx - 1]@ == spec_delta_of_row(hs, taken[idx - 1], pp, sp)->Ok_0,
        decreases n - idx,
    {
        let row = &rows[idx + 1];
        proof {
            assert(row.deep_view() == taken[idx as int]);
        }
        match delta_of_row(&cols, row, pp, sp, Ghost(hs)) {
            Err(f) => {
                proof {
                    lemma_delta_first_bad_at(hs, taken, pp, sp, idx as int);
                }
                return Err(fault_error(f, idx));
            },
            Ok(d) => {
                if out.len() > 0 {
                    let m = out.len() - 1;
                    if out[m].ts_event != d.ts_event {
                        let mut prev = out.pop().unwrap();
                        prev.flags = F_LAST;
                        out.push(prev);
                    }
                }
                out.push(d);
                idx = idx + 1;
            },
        }
    }
    proof {
        lemma_delta_first_bad_at(hs, taken, pp, sp, n as int);
    }
    if out.len() > 0 {
        let m = out.len() - 1;
        if out[m].flags != F_LAST {
            let mut last = out.pop().unwrap();
            last.flags = F_LAST;
            out.push(last);
        }
    }
    proof {
        let raws = Seq::new(n as nat, |i: int| spec_delta_of_row(hs, taken[i], pp, sp)->Ok_0);
        assert(delta_views(out@) =~= stamped(raws));
    }
    Ok(out)
}

/// Loads order-book deltas from the bytes of a book-update file, gzip
/// decompressing them first when `gzipped` holds. The call fails exactly
/// when the compressed stream does not decode, the reader rejects a record
/// it consumes, or a consumed row is bad; otherwise the result is exactly
/// the rows' deltas.
pub fn load_deltas(
    data: &Vec<u8>,
    gzipped: bool,
    price_precision: u8,
    size_precision: u8,
    limit: Option<usize>,
) -> (r: Result<Vec<OrderBookDelta>, LoadError>)
    requires
        price_precision <= 9,
        size_precision <= 9,
    ensures
        ({
            let src = if gzipped {
                gunzip_of(data@)
            } else {
                data@
            };
            let max = spec_max_records(limit);
            let m = spec_deltas_of_rows(csv_rows_of(src, max), price_precision, size_precision, limit);
            &&& ((r matches Err(LoadError::Io { .. })) <==> (gzipped && !gunzip_ok(data@)))
            &&& ((gzipped ==> gunzip_ok(data@)) ==> ((r matches Err(LoadError::Malformed { .. }))
                <==> !csv_accepts(src, max)))
            &&& ((gzipped ==> gunzip_ok(data@)) && csv_accepts(src, max) ==> match r {
                Ok(ds) => m == Ok::<Seq<DeltaView>, LoadError>(delta_views(ds@)),
                Err(e) => m == Err::<Seq<DeltaView>, LoadError>(e),
            })
        }),
{
    if gzipped {
        match gunzip(data) {
            Ok(b) => deltas_from_plain(&b, price_precision, size_precision, limit),
            Err(detail) => Err(LoadError::Io { detail }),
        }
    } else {
        deltas_from_plain(data, price_precision, size_precision, limit)
    }
}

/// Loads deltas from uncompressed file bytes.
fn deltas_from_plain(
    buf: &Vec<u8>,
    price_precision: u8,
    size_precision: u8,
    limit: Option<usize>,
) -> (r: Result<Vec<OrderBookDelta>, LoadError>)
    requires
        price_precision <= 9,
        size_precision <= 9,
    ensures
        ({
            let max = spec_max_records(limit);
            let m = spec_deltas_of_rows(csv_rows_of(buf@, max), price_precision, size_precision, limit);
            &&& !(r matches Err(LoadError::Io { .. }))
            &&& ((r matches Err(LoadError::Malformed { .. })) <==> !csv_accepts(buf@, max))
            &&& (csv_accepts(buf@, max) ==> match r {
                Ok(ds) => m == Ok::<Seq<DeltaView>, LoadError>(delta_views(ds@)),
                Err(e) => m == Err::<Seq<DeltaView>, LoadError>(e),
            })
        }),
{
    let rows = match csv_rows(buf, max_records(limit)) {
        Ok(rw) => rw,
        Err((record, detail)) => {
            return Err(LoadError::Malformed { record, detail });
        },
    };
    load_deltas_from_rows(&rows, price_precision, size_precision, limit)
}

} // verus!
