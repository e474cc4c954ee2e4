//! Raw rows: header lookup and field projection.
//!
//! A parsed file is a sequence of rows, each a sequence of field byte
//! strings; the first row names the columns. Fields are found by column
//! name, so column order does not matter.

use vstd::prelude::*;

verus! {

/// Index of the first header equal to `name`, if any.
pub open spec fn col_index(headers: Seq<Seq<u8>>, name: Seq<u8>) -> Option<int>
    decreases headers.len(),
{
    if headers.len() == 0 {
        None
    } else if headers[0] == name {
        Some(0int)
    } else {
        match col_index(headers.skip(1), name) {
            Some(i) => Some(i + 1),
            None => None,
        }
    }
}

pub proof fn lemma_col_index_at(headers: Seq<Seq<u8>>, name: Seq<u8>, i: int)
    requires
        0 <= i <= headers.len(),
        forall|j: int| 0 <= j < i ==> headers[j] != name,
        i == headers.len() || headers[i] == name,
    ensures
        col_index(headers, name) == if i == headers.len() {
            None
        } else {
            Some(i)
        },
    decreases i,
{
    if i == 0 {
    } else {
        assert(headers[0] != name);
        lemma_col_index_at(headers.skip(1), name, i - 1);
        assert(forall|j: int|
            0 <= j < headers.skip(1).len() ==> headers.skip(1)[j] == headers[j + 1]);
    }
}

pub proof fn lemma_col_index_bounds(headers: Seq<Seq<u8>>, name: Seq<u8>)
    ensures
        col_index(headers, name) matches Some(i) ==> 0 <= i < headers.len() && headers[i]
            == name,
    decreases headers.len(),
{
    if headers.len() > 0 && headers[0] != name {
        lemma_col_index_bounds(headers.skip(1), name);
        assert(forall|j: int|
            0 <= j < headers.skip(1).len() ==> headers.skip(1)[j] == headers[j + 1]);
    }
}

/// Compares two byte strings.
pub fn bytes_eq(a: &Vec<u8>, b: &Vec<u8>) -> (r: bool)
    ensures
        r == (a@ == b@),
{
    if a.len() != b.len() {
        proof {
            assert(a@ != b@);
        }
        return false;
    }
    let mut i: usize = 0;
    while i < a.len()
        invariant
            0 <= i <= a.len(),
            a@.len() == b@.len(),
            forall|j: int| 0 <= j < i ==> a@[j] == b@[j],
        decreases a.len() - i,
    {
        if a[i] != b[i] {
            proof {
                assert(a@[i as int] != b@[i as int]);
            }
            return false;
        }
        i = i + 1;
    }
    proof {
        assert(a@ =~= b@);
    }
    true
}

/// Finds the first header equal to `name`.
#[verifier::loop_isolation(false)]
pub fn find_column(headers: &Vec<Vec<u8>>, name: &Vec<u8>) -> (r: Option<usize>)
    ensures
        r == match col_index(headers.deep_view(), name@) {
            Some(i) => Some(i as usize),
            None => None::<usize>,
        },
{
    let ghost hs = headers.deep_view();
    proof {
        assert(forall|j: int| 0 <= j < hs.len() ==> #[trigger] hs[j] == headers@[j]@);
    }
    let mut i: usize = 0;
    while i < headers.len()
        invariant
            0 <= i <= headers.len(),
            forall|j: int| 0 <= j < i ==> hs[j] != name@,
        decreases headers.len() - i,
    {
        if bytes_eq(&headers[i], name) {
            proof {
                lemma_col_index_at(hs, name@, i as int);
            }
            return Some(i);
        }
        i = i + 1;
    }
    proof {
        lemma_col_index_at(hs, name@, hs.len() as int);
    }
    None
}

/// A required field: the column must exist and the row must reach it.
pub open spec fn spec_get_required(row: Seq<Seq<u8>>, col: Option<int>) -> Option<Seq<u8>> {
    match col {
        Some(i) => if 0 <= i < row.len() {
            Some(row[i])
        } else {
            None
        },
        None => None,
    }
}

/// An optional field: absent when the column is missing, out of reach, or
/// holds the empty string, which this format writes for an omitted value.
pub open spec fn spec_get_optional(row: Seq<Seq<u8>>, col: Option<int>) -> Option<Seq<u8>> {
    match col {
        Some(i) => if 0 <= i < row.len() && row[i].len() > 0 {
            Some(row[i])
        } else {
            None
        },
        None => None,
    }
}

/// Projects a required field out of a row.
pub fn get_required(row: &Vec<Vec<u8>>, col: Option<usize>) -> (r: Option<Vec<u8>>)
    ensures
        match r {
            Some(v) => spec_get_required(row.deep_view(), spec_col_opt(col)) == Some(v@),
            None => spec_get_required(row.deep_view(), spec_col_opt(col)) is None,
        },
{
    proof {
        assert(forall|j: int|
            0 <= j < row.deep_view().len() ==> #[trigger] row.deep_view()[j] == row@[j]@);
    }
    match col {
        Some(i) => if i < row.len() {
            Some(row[i].clone())
        } else {
            None
        },
        None => None,
    }
}

/// Projects an optional field out of a row.
pub fn get_optional(row: &Vec<Vec<u8>>, col: Option<usize>) -> (r: Option<Vec<u8>>)
    ensures
        match r {
            Some(v) => spec_get_optional(row.deep_view(), spec_col_opt(col)) == Some(v@),
            None => spec_get_optional(row.deep_view(), spec_col_opt(col)) is None,
        },
{
    proof {
        assert(forall|j: int|
            0 <= j < row.deep_view().len() ==> #[trigger] row.deep_view()[j] == row@[j]@);
    }
    match col {
        Some(i) => if i < row.len() {
            if row[i].len() > 0 {
                Some(row[i].clone())
            } else {
                None
            }
        } else {
            None
        },
        None => None,
    }
}

/// Widens an executable column index to its mathematical form.
pub open spec fn spec_col_opt(col: Option<usize>) -> Option<int> {
    match col {
        Some(i) => Some(i as int),
        None => None,
    }
}

/// The view of an optional raw field.
pub open spec fn opt_bytes(o: Option<Vec<u8>>) -> Option<Seq<u8>> {
    match o {
        Some(v) => Some(v@),
        None => None,
    }
}

/// The name of a depth level's column: the side (`bids` or `asks`), the
/// level index in brackets, then `.price` or `.amount`.
pub open spec fn spec_level_col(ask: bool, i: int, amount: bool) -> Seq<u8> {
    (if ask {
        seq![97u8, 115, 107, 115, 91]
    } else {
        seq![98u8, 105, 100, 115, 91]
    }) + seq![(48 + i) as u8] + (if amount {
        seq![93u8, 46, 97, 109, 111, 117, 110, 116]
    } else {
        seq![93u8, 46, 112, 114, 105, 99, 101]
    })
}

/// Builds the name of a depth level's column, for levels zero through nine.
pub fn level_col(ask: bool, i: u8, amount: bool) -> (r: Vec<u8>)
    requires
        i <= 9,
    ensures
        r@ == spec_level_col(ask, i as int, amount),
{
    let mut v: Vec<u8> = Vec::new();
    if ask {
        v.push(97);
        v.push(115);
        v.push(107);
        v.push(115);
        v.push(91);
    } else {
        v.push(98);
        v.push(105);
        v.push(100);
        v.push(115);
        v.push(91);
    }
    v.push(48 + i);
    if amount {
        v.push(93);
        v.push(46);
        v.push(97);
        v.push(109);
        v.push(111);
        v.push(117);
        v.push(110);
        v.push(116);
    } else {
        v.push(93);
        v.push(46);
        v.push(112);
        v.push(114);
        v.push(105);
        v.push(99);
        v.push(101);
    }
    proof {
        assert(v@ =~= spec_level_col(ask, i as int, amount));
    }
    v
}

/// How many data rows a load consumes: all of them without a limit, and at
/// most the limit otherwise. The limit is checked only after a row has been
/// appended, so a limit of zero still consumes one row.
pub open spec fn spec_effective_take(len: int, limit: Option<usize>) -> int {
    match limit {
        None => len,
        Some(l) => {
            let l1 = if l == 0 {
                1int
            } else {
                l as int
            };
            if l1 < len {
                l1
            } else {
                len
            }
        },
    }
}

/// Computes the number of data rows a load consumes.
pub fn effective_take(len: usize, limit: Option<usize>) -> (r: usize)
    ensures
        r as int == spec_effective_take(len as int, limit),
        r <= len,
{
    match limit {
        None => len,
        Some(l) => {
            let l1 = if l == 0 {
                1
            } else {
                l
            };
            if l1 < len {
                l1
            } else {
                len
            }
        },
    }
}

/// The column name `exchange`.
pub open spec fn spec_col_exchange() -> Seq<u8> {
    seq![101u8, 120u8, 99u8, 104u8, 97u8, 110u8, 103u8, 101u8]
}

/// Builds the column name `exchange`.
pub fn col_exchange() -> (r: Vec<u8>)
    ensures
        r@ == spec_col_exchange(),
{
    let mut v: Vec<u8> = Vec::new();
    v.push(101); v.push(120); v.push(99); v.push(104); v.push(97); v.push(110); v.push(103); v.push(101);
    proof {
        assert(v@ =~= spec_col_exchange());
    }
    v
}

/// The column name `symbol`.
pub open spec fn spec_col_symbol() -> Seq<u8> {
    seq![115u8, 121u8, 109u8, 98u8, 111u8, 108u8]
}

/// Builds the column name `symbol`.
pub fn col_symbol() -> (r: Vec<u8>)
    ensures
        r@ == spec_col_symbol(),
{
    let mut v: Vec<u8> = Vec::new();
    v.push(115); v.push(121); v.push(109); v.push(98); v.push(111); v.push(108);
    proof {
        assert(v@ =~= spec_col_symbol());
    }
    v
}

/// The column name `timestamp`.
pub open spec fn spec_col_timestamp() -> Seq<u8> {
    seq![116u8, 105u8, 109u8, 101u8, 115u8, 116u8, 97u8, 109u8, 112u8]
}

/// Builds the column name `timestamp`.
pub fn col_timestamp() -> (r: Vec<u8>)
    ensures
        r@ == spec_col_timestamp(),
{
    let mut v: Vec<u8> = Vec::new();
    v.push(116); v.push(105); v.push(109); v.push(101); v.push(115); v.push(116); v.push(97); v.push(109); v.push(112);
    proof {
        assert(v@ =~= spec_col_timestamp());
    }
    v
}

/// The column name `local_timestamp`.
pub open spec fn spec_col_local_timestamp() -> Seq<u8> {
    seq![108u8, 111u8, 99u8, 97u8, 108u8, 95u8, 116u8, 105u8, 109u8, 101u8, 115u8, 116u8, 97u8, 109u8, 112u8]
}

/// Builds the column name `local_timestamp`.
pub fn col_local_timestamp() -> (r: Vec<u8>)
    ensures
        r@ == spec_col_local_timestamp(),
{
    let mut v: Vec<u8> = Vec::new();
    v.push(108); v.push(111); v.push(99); v.push(97); v.push(108); v.push(95); v.push(116); v.push(105); v.push(109); v.push(101); v.push(115); v.push(116); v.push(97); v.push(109); v.push(112);
    proof {
        assert(v@ =~= spec_col_local_timestamp());
    }
    v
}

/// The column name `is_snapshot`.
pub open spec fn spec_col_is_snapshot() -> Seq<u8> {
    seq![105u8, 115u8, 95u8, 115u8, 110u8, 97u8, 112u8, 115u8, 104u8, 111u8, 116u8]
}

/// Builds the column name `is_snapshot`.
pub fn col_is_snapshot() -> (r: Vec<u8>)
    ensures
        r@ == spec_col_is_snapshot(),
{
    let mut v: Vec<u8> = Vec::new();
    v.push(105); v.push(115); v.push(95); v.push(115); v.push(110); v.push(97); v.push(112); v.push(115); v.push(104); v.push(111); v.push(116);
    proof {
        assert(v@ =~= spec_col_is_snapshot());
    }
    v
}

/// The column name `side`.
pub open spec fn spec_col_side() -> Seq<u8> {
    seq![115u8, 105u8, 100u8, 101u8]
}

/// Builds the column name `side`.
pub fn col_side() -> (r: Vec<u8>)
    ensures
        r@ == spec_col_side(),
{
    let mut v: Vec<u8> = Vec::new();
    v.push(115); v.push(105); v.push(100); v.push(101);
    proof {
        assert(v@ =~= spec_col_side());
    }
    v
}

/// The column name `price`.
pub open spec fn spec_col_price() -> Seq<u8> {
    seq![112u8, 114u8, 105u8, 99u8, 101u8]
}

/// Builds the column name `price`.
pub fn col_price() -> (r: Vec<u8>)
    ensures
        r@ == spec_col_price(),
{
    let mut v: Vec<u8> = Vec::new();
    v.push(112); v.push(114); v.push(105); v.push(99); v.push(101);
    proof {
        assert(v@ =~= spec_col_price());
    }
    v
}

/// The column name `amount`.
pub open spec fn spec_col_amount() -> Seq<u8> {
    seq![97u8, 109u8, 111u8, 117u8, 110u8, 116u8]
}

/// Builds the column name `amount`.
pub fn col_amount() -> (r: Vec<u8>)
    ensures
        r@ == spec_col_amount(),
{
    let mut v: Vec<u8> = Vec::new();
    v.push(97); v.push(109); v.push(111); v.push(117); v.push(110); v.push(116);
    proof {
        assert(v@ =~= spec_col_amount());
    }
    v
}

/// The column name `id`.
pub open spec fn spec_col_id() -> Seq<u8> {
    seq![105u8, 100u8]
}

/// Builds the column name `id`.
pub fn col_id() -> (r: Vec<u8>)
    ensures
        r@ == spec_col_id(),
{
    let mut v: Vec<u8> = Vec::new();
    v.push(105); v.push(100);
    proof {
        assert(v@ =~= spec_col_id());
    }
    v
}

/// The column name `bid_price`.
pub open spec fn spec_col_bid_price() -> Seq<u8> {
    seq![98u8, 105u8, 100u8, 95u8, 112u8, 114u8, 105u8, 99u8, 101u8]
}

/// Builds the column name `bid_price`.
pub fn col_bid_price() -> (r: Vec<u8>)
    ensures
        r@ == spec_col_bid_price(),
{
    let mut v: Vec<u8> = Vec::new();
    v.push(98); v.push(105); v.push(100); v.push(95); v.push(112); v.push(114); v.push(105); v.push(99); v.push(101);
    proof {
        assert(v@ =~= spec_col_bid_price());
    }
    v
}

/// The column name `bid_amount`.
pub open spec fn spec_col_bid_amount() -> Seq<u8> {
    seq![98u8, 105u8, 100u8, 95u8, 97u8, 109u8, 111u8, 117u8, 110u8, 116u8]
}

/// Builds the column name `bid_amount`.
pub fn col_bid_amount() -> (r: Vec<u8>)
    ensures
        r@ == spec_col_bid_amount(),
{
    let mut v: Vec<u8> = Vec::new();
    v.push(98); v.push(105); v.push(100); v.push(95); v.push(97); v.push(109); v.push(111); v.push(117); v.push(110); v.push(116);
    proof {
        assert(v@ =~= spec_col_bid_amount());
    }
    v
}

/// The column name `ask_price`.
pub open spec fn spec_col_ask_price() -> Seq<u8> {
    seq![97u8, 115u8, 107u8, 95u8, 112u8, 114u8, 105u8, 99u8, 101u8]
}

/// Builds the column name `ask_price`.
pub fn col_ask_price() -> (r: Vec<u8>)
    ensures
        r@ == spec_col_ask_price(),
{
    let mut v: Vec<u8> = Vec::new();
    v.push(97); v.push(115); v.push(107); v.push(95); v.push(112); v.push(114); v.push(105); v.push(99); v.push(101);
    proof {
        assert(v@ =~= spec_col_ask_price());
    }
    v
}

/// The column name `ask_amount`.
pub open spec fn spec_col_ask_amount() -> Seq<u8> {
    seq![97u8, 115u8, 107u8, 95u8, 97u8, 109u8, 111u8, 117u8, 110u8, 116u8]
}

/// Builds the column name `ask_amount`.
pub fn col_ask_amount() -> (r: Vec<u8>)
    ensures
        r@ == spec_col_ask_amount(),
{
    let mut v: Vec<u8> = Vec::new();
    v.push(97); v.push(115); v.push(107); v.push(95); v.push(97); v.push(109); v.push(111); v.push(117); v.push(110); v.push(116);
    proof {
        assert(v@ =~= spec_col_ask_amount());
    }
    v
}

} // verus!
