//! Trusted boundary to the tabular reader and the decompressor.
//!
//! The two functions here hold the only calls into outside crates. Their
//! contracts name the results; everything downstream is verified against
//! those names.

use vstd::prelude::*;

verus! {

/// The records the comma-separated content of `data` splits into, capped at
/// `max` records, each a sequence of raw field byte strings (the header, if
/// any, is the first record). A function of the bytes and the cap alone;
/// says nothing about inputs the reader rejects.
pub uninterp spec fn csv_rows_of(data: Seq<u8>, max: nat) -> Seq<Seq<Seq<u8>>>;

/// The reader accepts the comma-separated content of `data` within the
/// first `max` records (in its strict mode it rejects exactly the records
/// whose field count differs from the first record's). A function of the
/// bytes and the cap alone: the reader is a pure state machine over them.
pub uninterp spec fn csv_accepts(data: Seq<u8>, max: nat) -> bool;

/// Relies on `csv::Reader::byte_records` (with `has_headers` off) to split
/// the bytes into records of raw fields, stopping after `max` records; on a
/// rejected record, relies on `csv::Error::position` for the record index
/// reported beside the message.
#[verifier::external_body]
pub(crate) fn csv_rows(data: &Vec<u8>, max: usize) -> (r: Result<
    Vec<Vec<Vec<u8>>>,
    (u64, Vec<u8>),
>)
    ensures
        r is Ok <==> csv_accepts(data@, max as nat),
        r matches Ok(rows) ==> rows.deep_view() == csv_rows_of(data@, max as nat),
{
    let mut rdr = csv::ReaderBuilder::new().has_headers(false).from_reader(data.as_slice());
    let mut records = rdr.byte_records();
    let mut out: Vec<Vec<Vec<u8>>> = Vec::new();
    while out.len() < max {
        match records.next() {
            None => break ,
            Some(Ok(r)) => out.push(r.iter().map(|f| f.to_vec()).collect()),
            Some(Err(e)) => {
                let record = e.position().map_or(0, |p| p.record());
                return Err((record, format!("{e}").into_bytes()));
            },
        }
    }
    Ok(out)
}

/// How many records the reader may consume for a load with the given row
/// limit: the header record plus the effective number of data rows, or all
/// of them without a limit. Rows past this count are never read, so a flaw
/// in them cannot fail the load.
pub open spec fn spec_max_records(limit: Option<usize>) -> nat {
    match limit {
        None => usize::MAX as nat,
        Some(l) => {
            let l1: nat = if l == 0 {
                1
            } else {
                l as nat
            };
            if l1 + 1 > usize::MAX as nat {
                usize::MAX as nat
            } else {
                l1 + 1
            }
        },
    }
}

/// Computes the record cap for a load with the given row limit.
pub fn max_records(limit: Option<usize>) -> (r: usize)
    ensures
        r as nat == spec_max_records(limit),
{
    match limit {
        None => usize::MAX,
        Some(l) => {
            let l1 = if l == 0 {
                1
            } else {
                l
            };
            if l1 > usize::MAX - 1 {
                usize::MAX
            } else {
                l1 + 1
            }
        },
    }
}

/// The bytes the gzip stream `data` decompresses to: a function of the
/// bytes alone; says nothing about corrupt streams.
pub uninterp spec fn gunzip_of(data: Seq<u8>) -> Seq<u8>;

/// The gzip stream `data` decodes without error: a function of the bytes
/// alone, since the decoder reads only them.
pub uninterp spec fn gunzip_ok(data: Seq<u8>) -> bool;

/// Relies on `flate2::read::GzDecoder` to decompress a gzip stream held in
/// memory; the result depends on the compressed bytes alone.
#[verifier::external_body]
pub(crate) fn gunzip(data: &Vec<u8>) -> (r: Result<Vec<u8>, Vec<u8>>)
    ensures
        r is Ok <==> gunzip_ok(data@),
        r matches Ok(out) ==> out@ == gunzip_of(data@),
{
    let mut decoder = flate2::read::GzDecoder::new(data.as_slice());
    let mut out: Vec<u8> = Vec::new();
    match std::io::Read::read_to_end(&mut decoder, &mut out) {
        Ok(_) => Ok(out),
        Err(e) => Err(format!("{e}").into_bytes()),
    }
}

} // verus!
