use tardis_csv::errors::{FieldId, LoadError};
use tardis_csv::fields::{parse_order_side, parse_timestamp};
use tardis_csv::model::{BookAction, OrderSide, F_LAST};
use tardis_csv::delta::{load_deltas, load_deltas_from_rows};

fn b(s: &str) -> Vec<u8> {
    s.as_bytes().to_vec()
}

fn rows_of(text: &str) -> Vec<Vec<Vec<u8>>> {
    text.lines().map(|l| l.split(',').map(|f| b(f)).collect()).collect()
}

const HEADER: &str = "exchange,symbol,timestamp,local_timestamp,is_snapshot,side,price,amount";

#[test]
fn three_rows_two_batches() {
    // Rows with event timestamps [100, 100, 200]: the second delta closes the
    // first batch and the third closes the file, so only they carry F_LAST.
    let text = format!(
        "{HEADER}\n\
         deribit,BTC-PERPETUAL,100,110,false,bid,4275.5,100\n\
         deribit,BTC-PERPETUAL,100,111,false,ask,4276.0,50\n\
         deribit,BTC-PERPETUAL,200,210,false,bid,4275.0,0\n"
    );
    let deltas = load_deltas(&b(&text), false, 1, 0, None).unwrap();
    assert_eq!(deltas.len(), 3);
    assert_eq!(deltas[0].flags, 0);
    assert_eq!(deltas[1].flags, F_LAST);
    assert_eq!(deltas[2].flags, F_LAST);
    assert_eq!(deltas[0].ts_event, 100_000);
    assert_eq!(deltas[0].ts_init, 110_000);
    assert_eq!(deltas[2].ts_event, 200_000);
    assert_eq!(deltas[0].order.side, OrderSide::Buy);
    assert_eq!(deltas[1].order.side, OrderSide::Sell);
    assert_eq!(deltas[0].order.price.raw, 42755);
    assert_eq!(deltas[0].order.price.precision, 1);
    assert_eq!(deltas[0].order.size.raw, 100);
    assert_eq!(deltas[0].order.order_id, 0);
    assert_eq!(deltas[0].sequence, 0);
    assert_eq!(deltas[0].action, BookAction::Update);
    assert_eq!(deltas[2].action, BookAction::Delete);
    assert_eq!(deltas[0].instrument_id.symbol, b("BTC-PERPETUAL"));
    assert_eq!(deltas[0].instrument_id.venue, b("DERIBIT"));
}

#[test]
fn single_row_carries_the_flag() {
    let text = format!("{HEADER}\ndummy,S,100,100,false,bid,1.0,2\n");
    let deltas = load_deltas(&b(&text), false, 1, 0, None).unwrap();
    assert_eq!(deltas.len(), 1);
    assert_eq!(deltas[0].flags, F_LAST);
}

#[test]
fn snapshot_rows_become_adds() {
    let text = format!("{HEADER}\nx,S,1,1,true,bid,1.0,0\n");
    let deltas = load_deltas(&b(&text), false, 1, 0, None).unwrap();
    assert_eq!(deltas[0].action, BookAction::Add);
}

#[test]
fn action_follows_the_raw_amount_not_the_rounded_one() {
    // An amount of 0.4 at size precision zero rounds to a zero quantity,
    // but the raw magnitude is not zero, so the level is updated, not
    // deleted.
    let text = format!("{HEADER}\nx,S,1,1,false,bid,1.0,0.4\n");
    let deltas = load_deltas(&b(&text), false, 1, 0, None).unwrap();
    assert_eq!(deltas[0].action, BookAction::Update);
    assert_eq!(deltas[0].order.size.raw, 0);
    // Amounts spelling exactly zero delete, however they are written.
    for zero in ["0", "0.000", "-0.0", "00"] {
        let text = format!("{HEADER}\nx,S,1,1,false,bid,1.0,{zero}\n");
        let deltas = load_deltas(&b(&text), false, 1, 0, None).unwrap();
        assert_eq!(deltas[0].action, BookAction::Delete);
    }
}

#[test]
fn limit_truncates_exactly() {
    let mut text = String::from(HEADER);
    for i in 0..5 {
        text.push_str(&format!("\nx,S,{},{},false,bid,1.0,2", 100 + i, 100 + i));
    }
    let all = load_deltas(&b(&text), false, 1, 0, None).unwrap();
    assert_eq!(all.len(), 5);
    let three = load_deltas(&b(&text), false, 1, 0, Some(3)).unwrap();
    assert_eq!(three.len(), 3);
    // The last consumed delta always closes a batch, even under a limit.
    assert_eq!(three[2].flags, F_LAST);
    let ten = load_deltas(&b(&text), false, 1, 0, Some(10)).unwrap();
    assert_eq!(ten.len(), 5);
    // The limit is checked only after a row is appended, so zero reads one.
    let zero = load_deltas(&b(&text), false, 1, 0, Some(0)).unwrap();
    assert_eq!(zero.len(), 1);
}

#[test]
fn empty_inputs_load_nothing() {
    assert_eq!(load_deltas(&b(""), false, 1, 0, None).unwrap().len(), 0);
    assert_eq!(load_deltas(&b(HEADER), false, 1, 0, None).unwrap().len(), 0);
}

#[test]
fn unknown_side_is_a_field_parse_error() {
    let text = format!(
        "{HEADER}\nx,S,1,1,false,bid,1.0,2\nx,S,1,1,false,mid,1.0,2\n"
    );
    let err = load_deltas(&b(&text), false, 1, 0, None).unwrap_err();
    assert_eq!(err, LoadError::FieldParse { row: 1, field: FieldId::Side });
}

#[test]
fn missing_column_is_a_row_decode_error() {
    let text = "exchange,symbol,timestamp,local_timestamp,is_snapshot,side,amount\n\
                x,S,1,1,false,bid,2\n";
    let err = load_deltas(&b(text), false, 1, 0, None).unwrap_err();
    assert_eq!(err, LoadError::RowDecode { row: 0, field: FieldId::Price });
}

#[test]
fn bad_fields_abort_with_their_row() {
    let good = "x,S,1,1,false,bid,1.0,2";
    let text = format!("{HEADER}\n{good}\nx,S,abc,1,false,bid,1.0,2\n");
    let err = load_deltas(&b(&text), false, 1, 0, None).unwrap_err();
    assert_eq!(err, LoadError::RowDecode { row: 1, field: FieldId::Timestamp });
    let text = format!("{HEADER}\n{good}\nx,S,1,1,maybe,bid,1.0,2\n");
    let err = load_deltas(&b(&text), false, 1, 0, None).unwrap_err();
    assert_eq!(err, LoadError::RowDecode { row: 1, field: FieldId::IsSnapshot });
    let text = format!("{HEADER}\n{good}\nx,S,1,1,false,bid,1.0,-2\n");
    let err = load_deltas(&b(&text), false, 1, 0, None).unwrap_err();
    assert_eq!(err, LoadError::FieldParse { row: 1, field: FieldId::Amount });
}

#[test]
fn rows_past_the_limit_are_never_read() {
    // The third row is malformed, but a limit of two stops before it.
    let text = format!(
        "{HEADER}\nx,S,1,1,false,bid,1.0,2\nx,S,2,2,false,ask,1.0,2\nx,S,zzz,3,false,bid,1.0,2\n"
    );
    assert!(load_deltas(&b(&text), false, 1, 0, None).is_err());
    let two = load_deltas(&b(&text), false, 1, 0, Some(2)).unwrap();
    assert_eq!(two.len(), 2);
}

#[test]
fn ragged_rows_past_the_limit_are_never_tokenized() {
    // The third row has the wrong number of fields, but a limit of two
    // means the reader never consumes it.
    let text = format!("{HEADER}\nx,S,1,1,false,bid,1.0,2\nx,S,2,2,false,ask,1.0,2\nx,S,3\n");
    assert!(matches!(
        load_deltas(&b(&text), false, 1, 0, None),
        Err(LoadError::Malformed { .. })
    ));
    let two = load_deltas(&b(&text), false, 1, 0, Some(2)).unwrap();
    assert_eq!(two.len(), 2);
}

#[test]
fn gzipped_input_round_trips() {
    let text = format!("{HEADER}\nx,S,100,100,false,bid,1.5,2\n");
    let mut encoder =
        flate2::write::GzEncoder::new(Vec::new(), flate2::Compression::default());
    std::io::Write::write_all(&mut encoder, text.as_bytes()).unwrap();
    let compressed = encoder.finish().unwrap();
    let deltas = load_deltas(&compressed, true, 1, 0, None).unwrap();
    assert_eq!(deltas.len(), 1);
    assert_eq!(deltas[0].order.price.raw, 15);
    let plain = load_deltas(&b(&text), false, 1, 0, None).unwrap();
    assert_eq!(deltas, plain);
}

#[test]
fn corrupt_gzip_is_an_io_error() {
    let err = load_deltas(&b("not gzip at all"), true, 1, 0, None).unwrap_err();
    assert!(matches!(err, LoadError::Io { .. }));
}

#[test]
fn columns_are_found_by_name_not_position() {
    let text = "amount,price,side,is_snapshot,local_timestamp,timestamp,symbol,exchange\n\
                2,1.5,bid,false,110,100,S,x\n";
    let deltas = load_deltas(&b(text), false, 1, 0, None).unwrap();
    assert_eq!(deltas[0].order.price.raw, 15);
    assert_eq!(deltas[0].order.size.raw, 2);
    assert_eq!(deltas[0].ts_event, 100_000);
}

#[test]
fn from_rows_matches_the_byte_loader() {
    let text = format!("{HEADER}\nx,S,100,100,false,bid,1.5,2\n");
    let rows = rows_of(&text);
    let a = load_deltas_from_rows(&rows, 1, 0, None).unwrap();
    let c = load_deltas(&b(&text), false, 1, 0, None).unwrap();
    assert_eq!(a, c);
}

#[test]
fn side_and_timestamp_parsers() {
    assert_eq!(parse_order_side(&b("bid")), Some(OrderSide::Buy));
    assert_eq!(parse_order_side(&b("ask")), Some(OrderSide::Sell));
    assert_eq!(parse_order_side(&b("buy")), None);
    assert_eq!(parse_order_side(&b("")), None);
    assert_eq!(parse_timestamp(1_585_699_200_245_000), Some(1_585_699_200_245_000_000));
    assert_eq!(parse_timestamp(u64::MAX / 1000 + 1), None);
}
