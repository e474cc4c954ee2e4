//! Error values returned by the load operations.

use vstd::prelude::*;

verus! {

/// Identifies the column of a row that a load operation could not use.
#[derive(Clone, Copy, PartialEq, Eq, Structural, Debug)]
pub enum FieldId {
    Exchange,
    Symbol,
    Timestamp,
    LocalTimestamp,
    IsSnapshot,
    Side,
    Price,
    Amount,
    TradeId,
    /// A bid level of a depth snapshot row, by level index.
    BidLevel(u8),
    /// An ask level of a depth snapshot row, by level index.
    AskLevel(u8),
    BidPrice,
    BidAmount,
    AskPrice,
    AskAmount,
}

/// What went wrong with one field of one row.
#[derive(Clone, Copy, PartialEq, Eq, Structural, Debug)]
pub enum FaultKind {
    /// The column is missing, or its value has the wrong shape for its type.
    Decode,
    /// The value is outside the field's expected enumeration.
    Parse,
}

/// A failure local to one row, before the row index is known.
#[derive(Clone, Copy, PartialEq, Eq, Structural, Debug)]
pub struct RowFault {
    pub kind: FaultKind,
    pub field: FieldId,
}

/// Error returned by a load operation. The first failing row aborts the
/// load. The `detail` payloads carry the outside reporter's diagnostic
/// message verbatim; the contracts fix when each variant occurs but leave
/// that text unspecified.
#[derive(Clone, PartialEq, Eq, Debug)]
pub enum LoadError {
    /// The compressed input could not be decoded.
    Io { detail: Vec<u8> },
    /// The tabular reader rejected a record outright; `record` is the
    /// zero-based record index it reported (the header is record zero).
    Malformed { record: u64, detail: Vec<u8> },
    /// A required column of data row `row` (zero-based, header excluded) is
    /// missing or its value has the wrong shape.
    RowDecode { row: usize, field: FieldId },
    /// A present value of data row `row` is outside its expected enumeration.
    FieldParse { row: usize, field: FieldId },
}

/// Attaches a row index to a row-local fault.
pub open spec fn spec_fault_error(f: RowFault, row: usize) -> LoadError {
    match f.kind {
        FaultKind::Decode => LoadError::RowDecode { row, field: f.field },
        FaultKind::Parse => LoadError::FieldParse { row, field: f.field },
    }
}

/// Attaches a row index to a row-local fault.
pub fn fault_error(f: RowFault, row: usize) -> (r: LoadError)
    ensures
        r == spec_fault_error(f, row),
{
    match f.kind {
        FaultKind::Decode => LoadError::RowDecode { row, field: f.field },
        FaultKind::Parse => LoadError::FieldParse { row, field: f.field },
    }
}

} // verus!
