use tardis_csv::errors::{FieldId, LoadError};
use tardis_csv::fields::parse_aggressor_side;
use tardis_csv::model::AggressorSide;
use tardis_csv::tick::{load_quote_ticks, load_trade_ticks};

fn b(s: &str) -> Vec<u8> {
    s.as_bytes().to_vec()
}

const QUOTE_HEADER: &str =
    "exchange,symbol,timestamp,local_timestamp,ask_amount,ask_price,bid_price,bid_amount";
const TRADE_HEADER: &str = "exchange,symbol,timestamp,local_timestamp,id,side,price,amount";

#[test]
fn blank_ask_side_defaults_to_zero() {
    let text = format!("{QUOTE_HEADER}\nhuobi,BTC-USD,100,110,,,4275.5,12\n");
    let quotes = load_quote_ticks(&b(&text), false, 1, 0, None).unwrap();
    assert_eq!(quotes.len(), 1);
    let q = &quotes[0];
    assert_eq!(q.bid_price.raw, 42755);
    assert_eq!(q.bid_price.precision, 1);
    assert_eq!(q.bid_size.raw, 12);
    assert_eq!(q.ask_price.raw, 0);
    assert_eq!(q.ask_price.precision, 1);
    assert_eq!(q.ask_size.raw, 0);
    assert_eq!(q.ask_size.precision, 0);
    assert_eq!(q.ts_event, 100_000);
    assert_eq!(q.ts_init, 110_000);
    assert_eq!(q.instrument_id.symbol, b("BTC-USD"));
    assert_eq!(q.instrument_id.venue, b("HUOBI"));
}

#[test]
fn missing_quote_columns_also_default_to_zero() {
    let text = "exchange,symbol,timestamp,local_timestamp,bid_price,bid_amount\n\
                x,S,1,1,2.5,3\n";
    let quotes = load_quote_ticks(&b(text), false, 1, 0, None).unwrap();
    assert_eq!(quotes[0].bid_price.raw, 25);
    assert_eq!(quotes[0].ask_price.raw, 0);
    assert_eq!(quotes[0].ask_size.raw, 0);
}

#[test]
fn malformed_quote_side_aborts() {
    let text = format!("{QUOTE_HEADER}\nx,S,1,1,1.0,oops,2.0,1\n");
    let err = load_quote_ticks(&b(&text), false, 1, 0, None).unwrap_err();
    assert_eq!(err, LoadError::RowDecode { row: 0, field: FieldId::AskPrice });
}

#[test]
fn quote_limit_truncates() {
    let row = "x,S,1,1,1,1.0,1.0,1";
    let text = format!("{QUOTE_HEADER}\n{row}\n{row}\n{row}\n{row}\n");
    let quotes = load_quote_ticks(&b(&text), false, 1, 0, Some(2)).unwrap();
    assert_eq!(quotes.len(), 2);
}

#[test]
fn trades_carry_all_fields() {
    let text = format!(
        "{TRADE_HEADER}\nbitmex,XBTUSD,100,110,abc-123,buy,8750.5,1500\n\
         bitmex,XBTUSD,200,210,abc-124,sell,8750.0,300\n"
    );
    let trades = load_trade_ticks(&b(&text), false, 1, 0, None).unwrap();
    assert_eq!(trades.len(), 2);
    assert_eq!(trades[0].price.raw, 87505);
    assert_eq!(trades[0].size.raw, 1500);
    assert_eq!(trades[0].aggressor_side, AggressorSide::Buyer);
    assert_eq!(trades[1].aggressor_side, AggressorSide::Seller);
    assert_eq!(trades[0].trade_id.value, b("abc-123"));
    assert_eq!(trades[0].ts_event, 100_000);
    assert_eq!(trades[1].ts_init, 210_000);
    assert_eq!(trades[0].instrument_id.venue, b("BITMEX"));
}

#[test]
fn unknown_trade_side_is_a_field_parse_error() {
    let text = format!("{TRADE_HEADER}\nx,S,1,1,id1,unknown,1.0,1\n");
    let err = load_trade_ticks(&b(&text), false, 1, 0, None).unwrap_err();
    assert_eq!(err, LoadError::FieldParse { row: 0, field: FieldId::Side });
}

#[test]
fn missing_trade_id_column_aborts() {
    let text = "exchange,symbol,timestamp,local_timestamp,side,price,amount\n\
                x,S,1,1,buy,1.0,1\n";
    let err = load_trade_ticks(&b(text), false, 1, 0, None).unwrap_err();
    assert_eq!(err, LoadError::RowDecode { row: 0, field: FieldId::TradeId });
}

#[test]
fn gzipped_trades_round_trip() {
    let text = format!("{TRADE_HEADER}\nx,S,100,100,id1,buy,1.5,2\n");
    let mut encoder =
        flate2::write::GzEncoder::new(Vec::new(), flate2::Compression::default());
    std::io::Write::write_all(&mut encoder, text.as_bytes()).unwrap();
    let compressed = encoder.finish().unwrap();
    let trades = load_trade_ticks(&compressed, true, 1, 0, None).unwrap();
    let plain = load_trade_ticks(&b(&text), false, 1, 0, None).unwrap();
    assert_eq!(trades, plain);
    assert_eq!(trades[0].price.raw, 15);
}

#[test]
fn ragged_rows_are_malformed() {
    let text = format!("{TRADE_HEADER}\nx,S,1,1\n");
    let err = load_trade_ticks(&b(&text), false, 1, 0, None).unwrap_err();
    assert!(matches!(err, LoadError::Malformed { .. }));
}

#[test]
fn aggressor_parser() {
    assert_eq!(parse_aggressor_side(&b("buy")), Some(AggressorSide::Buyer));
    assert_eq!(parse_aggressor_side(&b("sell")), Some(AggressorSide::Seller));
    assert_eq!(parse_aggressor_side(&b("bid")), None);
    assert_eq!(parse_aggressor_side(&b("")), None);
}
