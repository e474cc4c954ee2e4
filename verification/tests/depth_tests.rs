use tardis_csv::errors::{FaultKind, FieldId, LoadError};
use tardis_csv::model::{null_order, OrderSide, F_LAST};
use tardis_csv::depth::{
    create_book_order, load_depth10_from_snapshot25, load_depth10_from_snapshot5,
};

fn b(s: &str) -> Vec<u8> {
    s.as_bytes().to_vec()
}

fn snapshot5_header() -> String {
    let mut h = String::from("exchange,symbol,timestamp,local_timestamp");
    for i in 0..5 {
        h.push_str(&format!(",asks[{i}].price,asks[{i}].amount,bids[{i}].price,bids[{i}].amount"));
    }
    h
}

fn snapshot25_header() -> String {
    let mut h = String::from("exchange,symbol,timestamp,local_timestamp");
    for i in 0..25 {
        h.push_str(&format!(",asks[{i}].price,asks[{i}].amount,bids[{i}].price,bids[{i}].amount"));
    }
    h
}

#[test]
fn partial_snapshot5_pads_with_the_sentinel() {
    // Only bid levels zero through two are populated; asks are fully blank.
    let header = snapshot5_header();
    let mut row = String::from("binance,BTCUSDT,100,110");
    let bids = ["100.5", "100.0", "99.5", "", ""];
    let amounts = ["1.0", "2.0", "3.0", "", ""];
    for i in 0..5 {
        row.push_str(&format!(",,,{},{}", bids[i], amounts[i]));
    }
    let text = format!("{header}\n{row}\n");
    let depths = load_depth10_from_snapshot5(&b(&text), false, 1, 1, None).unwrap();
    assert_eq!(depths.len(), 1);
    let d = &depths[0];
    assert_eq!(d.bids.len(), 10);
    assert_eq!(d.asks.len(), 10);
    assert_eq!(d.bid_counts.len(), 10);
    assert_eq!(d.ask_counts.len(), 10);
    for i in 0..3 {
        assert_eq!(d.bid_counts[i], 1);
        assert_eq!(d.bids[i].side, OrderSide::Buy);
        assert_eq!(d.bids[i].order_id, 0);
    }
    assert_eq!(d.bids[0].price.raw, 1005);
    assert_eq!(d.bids[0].price.precision, 1);
    assert_eq!(d.bids[0].size.raw, 10);
    assert_eq!(d.bids[2].price.raw, 995);
    for i in 3..10 {
        assert_eq!(d.bids[i], null_order());
        assert_eq!(d.bid_counts[i], 0);
    }
    for i in 0..10 {
        assert_eq!(d.asks[i], null_order());
        assert_eq!(d.ask_counts[i], 0);
    }
    assert_eq!(d.flags, F_LAST);
    assert_eq!(d.sequence, 0);
    assert_eq!(d.ts_event, 100_000);
    assert_eq!(d.ts_init, 110_000);
    assert_eq!(d.instrument_id.venue, b("BINANCE"));
}

#[test]
fn snapshot25_reads_only_ten_levels() {
    let header = snapshot25_header();
    let mut row = String::from("binance,BTCUSDT,100,110");
    for i in 0..25 {
        // Levels ten and beyond hold garbage the loader must never read.
        if i < 10 {
            row.push_str(&format!(",{}.5,1.0,{}.0,2.0", 200 + i, 100 + i));
        } else {
            row.push_str(",oops,bad,zzz,ouch");
        }
    }
    let text = format!("{header}\n{row}\n");
    let depths = load_depth10_from_snapshot25(&b(&text), false, 1, 1, None).unwrap();
    let d = &depths[0];
    for i in 0..10 {
        assert_eq!(d.bid_counts[i], 1);
        assert_eq!(d.ask_counts[i], 1);
        assert_eq!(d.bids[i].price.raw, (1000 + 10 * i) as i64);
        assert_eq!(d.asks[i].price.raw, (2005 + 10 * i) as i64);
        assert_eq!(d.asks[i].side, OrderSide::Sell);
    }
}

#[test]
fn a_malformed_level_price_aborts() {
    let header = snapshot5_header();
    let mut row = String::from("x,S,1,1,oops,1.0");
    for _ in 0..18 {
        row.push(',');
    }
    let text = format!("{header}\n{row}\n");
    let err = load_depth10_from_snapshot5(&b(&text), false, 1, 1, None).unwrap_err();
    assert_eq!(err, LoadError::RowDecode { row: 0, field: FieldId::AskLevel(0) });
}

#[test]
fn snapshot_limit_truncates() {
    let header = snapshot5_header();
    let mut row = String::from("x,S,1,1,1.0,1.0");
    for _ in 0..18 {
        row.push(',');
    }
    let text = format!("{header}\n{row}\n{row}\n{row}\n");
    let depths = load_depth10_from_snapshot5(&b(&text), false, 1, 1, Some(2)).unwrap();
    assert_eq!(depths.len(), 2);
}

#[test]
fn book_order_slots() {
    // An absent price is the sentinel with count zero, whatever the amount.
    assert_eq!(
        create_book_order(OrderSide::Buy, &None, &Some(b("3.0")), 1, 1),
        Ok((null_order(), 0))
    );
    // A present price with an absent amount defaults the size to zero.
    let (o, c) = create_book_order(OrderSide::Sell, &Some(b("2.5")), &None, 1, 1).unwrap();
    assert_eq!(c, 1);
    assert_eq!(o.price.raw, 25);
    assert_eq!(o.size.raw, 0);
    assert_eq!(o.size.precision, 1);
    // A negative amount is a domain error, not clamped.
    assert_eq!(
        create_book_order(OrderSide::Buy, &Some(b("2.5")), &Some(b("-1")), 1, 1),
        Err(FaultKind::Parse)
    );
}
