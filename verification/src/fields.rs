//! Pure parsers for the individual fields of a source row.

use vstd::prelude::*;
use crate::decimal::{is_zero_decimal, spec_is_zero_decimal};
use crate::digits::{all_digits, digits_val, is_digit, lemma_digits_val_append, lemma_digits_val_bound};
use crate::model::{AggressorSide, BookAction, InstrumentId, InstrumentIdView, OrderSide};

verus! {

/// The bytes spell `bid`.
pub open spec fn is_kw_bid(s: Seq<u8>) -> bool {
    s.len() == 3 && s[0] == 98 && s[1] == 105 && s[2] == 100
}

/// The bytes spell `ask`.
pub open spec fn is_kw_ask(s: Seq<u8>) -> bool {
    s.len() == 3 && s[0] == 97 && s[1] == 115 && s[2] == 107
}

/// The bytes spell `buy`.
pub open spec fn is_kw_buy(s: Seq<u8>) -> bool {
    s.len() == 3 && s[0] == 98 && s[1] == 117 && s[2] == 121
}

/// The bytes spell `sell`.
pub open spec fn is_kw_sell(s: Seq<u8>) -> bool {
    s.len() == 4 && s[0] == 115 && s[1] == 101 && s[2] == 108 && s[3] == 108
}

/// The bytes spell `true`.
pub open spec fn is_kw_true(s: Seq<u8>) -> bool {
    s.len() == 4 && s[0] == 116 && s[1] == 114 && s[2] == 117 && s[3] == 101
}

/// The bytes spell `false`.
pub open spec fn is_kw_false(s: Seq<u8>) -> bool {
    s.len() == 5 && s[0] == 102 && s[1] == 97 && s[2] == 108 && s[3] == 115 && s[4] == 101
}

/// Book side named by a row's side field: `bid` or `ask`, nothing else.
pub open spec fn spec_order_side(s: Seq<u8>) -> Option<OrderSide> {
    if is_kw_bid(s) {
        Some(OrderSide::Buy)
    } else if is_kw_ask(s) {
        Some(OrderSide::Sell)
    } else {
        None
    }
}

/// Maps a side field to a book side: `bid` buys, `ask` sells; any other
/// value is outside the enumeration.
pub fn parse_order_side(s: &Vec<u8>) -> (r: Option<OrderSide>)
    ensures
        r == spec_order_side(s@),
{
    if s.len() == 3 && s[0] == 98 && s[1] == 105 && s[2] == 100 {
        Some(OrderSide::Buy)
    } else if s.len() == 3 && s[0] == 97 && s[1] == 115 && s[2] == 107 {
        Some(OrderSide::Sell)
    } else {
        None
    }
}

/// Aggressor named by a trade row's side field: `buy` or `sell`.
pub open spec fn spec_aggressor_side(s: Seq<u8>) -> Option<AggressorSide> {
    if is_kw_buy(s) {
        Some(AggressorSide::Buyer)
    } else if is_kw_sell(s) {
        Some(AggressorSide::Seller)
    } else {
        None
    }
}

/// Maps a trade side field to the aggressor side; any other value is
/// outside the enumeration.
pub fn parse_aggressor_side(s: &Vec<u8>) -> (r: Option<AggressorSide>)
    ensures
        r == spec_aggressor_side(s@),
{
    if s.len() == 3 && s[0] == 98 && s[1] == 117 && s[2] == 121 {
        Some(AggressorSide::Buyer)
    } else if s.len() == 4 && s[0] == 115 && s[1] == 101 && s[2] == 108 && s[3] == 108 {
        Some(AggressorSide::Seller)
    } else {
        None
    }
}

/// Boolean named by a row field: `true` or `false`, nothing else.
pub open spec fn spec_bool_field(s: Seq<u8>) -> Option<bool> {
    if is_kw_true(s) {
        Some(true)
    } else if is_kw_false(s) {
        Some(false)
    } else {
        None
    }
}

/// Parses a boolean field.
pub fn parse_bool_field(s: &Vec<u8>) -> (r: Option<bool>)
    ensures
        r == spec_bool_field(s@),
{
    if s.len() == 4 && s[0] == 116 && s[1] == 114 && s[2] == 117 && s[3] == 101 {
        Some(true)
    } else if s.len() == 5 && s[0] == 102 && s[1] == 97 && s[2] == 108 && s[3] == 115 && s[4]
        == 101 {
        Some(false)
    } else {
        None
    }
}

/// The unsigned integer a digit string denotes, when it has at least one
/// digit, only digits, and fits a `u64`.
pub open spec fn spec_parse_u64(s: Seq<u8>) -> Option<u64> {
    if s.len() > 0 && all_digits(s) && digits_val(s) <= u64::MAX {
        Some(digits_val(s) as u64)
    } else {
        None
    }
}

/// Parses an unsigned decimal integer field.
#[verifier::loop_isolation(false)]
pub fn parse_u64_field(s: &Vec<u8>) -> (r: Option<u64>)
    ensures
        r == spec_parse_u64(s@),
{
    let n = s.len();
    if n == 0 {
        return None;
    }
    let mut i: usize = 0;
    let mut acc: u128 = 0;
    while i < n
        invariant
            0 <= i <= n,
            forall|j: int| 0 <= j < i ==> is_digit(#[trigger] s@[j]),
            acc == digits_val(s@.subrange(0, i as int)),
            acc <= u64::MAX,
        decreases n - i,
    {
        let b = s[i];
        if !(48 <= b && b <= 57) {
            return None;
        }
        acc = acc * 10 + ((b - 48) as u128);
        i = i + 1;
        proof {
            assert(s@.subrange(0, i as int).drop_last() =~= s@.subrange(0, i - 1));
            assert(s@.subrange(0, i as int).last() == s@[i - 1]);
        }
        if acc > u64::MAX as u128 {
            proof {
                if all_digits(s@) {
                    let pre = s@.subrange(0, i as int);
                    let rest = s@.subrange(i as int, n as int);
                    assert(s@ =~= pre + rest);
                    assert(all_digits(rest)) by {
                        assert(forall|j: int|
                            0 <= j < rest.len() ==> rest[j] == s@[j + i]);
                    }
                    lemma_digits_val_append(pre, rest);
                    lemma_digits_val_bound(rest);
                    crate::digits::lemma_pow10_pos(rest.len());
                    assert(digits_val(pre) * crate::digits::pow10(rest.len()) >= digits_val(
                        pre,
                    )) by (nonlinear_arith)
                        requires
                            digits_val(pre) >= 0,
                            crate::digits::pow10(rest.len()) >= 1,
                    ;
                    assert(digits_val(s@) > u64::MAX);
                }
            }
            return None;
        }
    }
    proof {
        assert(s@.subrange(0, n as int) =~= s@);
    }
    Some(acc as u64)
}

/// Nanoseconds for a microsecond timestamp: an exact multiply by one
/// thousand, `None` when it cannot be represented.
pub open spec fn spec_micros_to_nanos(us: u64) -> Option<u64> {
    if us * 1000 <= u64::MAX {
        Some((us * 1000) as u64)
    } else {
        None
    }
}

/// Converts a vendor microsecond timestamp to nanoseconds, exactly.
pub fn parse_timestamp(us: u64) -> (r: Option<u64>)
    ensures
        r == spec_micros_to_nanos(us),
{
    if us > u64::MAX / 1000 {
        None
    } else {
        Some(us * 1000)
    }
}

/// The nanosecond timestamp a row's microsecond field denotes.
pub open spec fn spec_timestamp_field(s: Seq<u8>) -> Option<u64> {
    match spec_parse_u64(s) {
        Some(us) => spec_micros_to_nanos(us),
        None => None,
    }
}

/// Parses a microsecond timestamp field into nanoseconds.
pub fn parse_timestamp_field(s: &Vec<u8>) -> (r: Option<u64>)
    ensures
        r == spec_timestamp_field(s@),
{
    match parse_u64_field(s) {
        Some(us) => parse_timestamp(us),
        None => None,
    }
}

/// Derives the book action of a non-snapshot row from the raw amount field:
/// an amount denoting exactly zero deletes the level, anything else updates
/// it — even an amount that merely rounds to zero at the size precision;
/// snapshot rows always add. `Clear` is never produced.
pub open spec fn spec_book_action(is_snapshot: bool, amount: Seq<u8>) -> BookAction {
    if is_snapshot {
        BookAction::Add
    } else if spec_is_zero_decimal(amount) {
        BookAction::Delete
    } else {
        BookAction::Update
    }
}

/// Derives the book action from the snapshot flag and the raw amount field.
pub fn parse_book_action(is_snapshot: bool, amount: &Vec<u8>) -> (r: BookAction)
    ensures
        r == spec_book_action(is_snapshot, amount@),
{
    if is_snapshot {
        BookAction::Add
    } else if is_zero_decimal(amount) {
        BookAction::Delete
    } else {
        BookAction::Update
    }
}

/// ASCII letters uppercased, all other bytes unchanged.
pub open spec fn ascii_upper(s: Seq<u8>) -> Seq<u8> {
    s.map_values(
        |b: u8|
            if 97 <= b <= 122 {
                (b - 32) as u8
            } else {
                b
            },
    )
}

/// Uppercases the ASCII letters of a byte string.
#[verifier::loop_isolation(false)]
pub fn to_ascii_upper(s: &Vec<u8>) -> (r: Vec<u8>)
    ensures
        r@ == ascii_upper(s@),
{
    let mut r: Vec<u8> = Vec::new();
    let mut i: usize = 0;
    while i < s.len()
        invariant
            0 <= i <= s.len(),
            r@ =~= ascii_upper(s@).take(i as int),
        decreases s.len() - i,
    {
        let b = s[i];
        if 97 <= b && b <= 122 {
            r.push(b - 32);
        } else {
            r.push(b);
        }
        i = i + 1;
        proof {
            assert(ascii_upper(s@).take(i as int) =~= ascii_upper(s@).take(i - 1).push(
                ascii_upper(s@)[i - 1],
            ));
        }
    }
    proof {
        assert(ascii_upper(s@).take(s@.len() as int) =~= ascii_upper(s@));
    }
    r
}

/// The instrument identifier a row's exchange and symbol fields compose:
/// both uppercased, the symbol naming the instrument and the exchange the
/// venue. Identical inputs give identical identifiers.
pub open spec fn spec_instrument_id(exchange: Seq<u8>, symbol: Seq<u8>) -> InstrumentIdView {
    InstrumentIdView { symbol: ascii_upper(symbol), venue: ascii_upper(exchange) }
}

/// Composes the instrument identifier for a row, deterministically.
pub fn parse_instrument_id(exchange: &Vec<u8>, symbol: &Vec<u8>) -> (r: InstrumentId)
    ensures
        r@ == spec_instrument_id(exchange@, symbol@),
{
    InstrumentId { symbol: to_ascii_upper(symbol), venue: to_ascii_upper(exchange) }
}

} // verus!
