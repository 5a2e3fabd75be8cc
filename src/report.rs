//! Fixed-size HID reports: framing of output payloads and the hexadecimal
//! text used for payloads on input and for reports on output.
use vstd::prelude::*;
use crate::ident::{hex_digit_value, all_hex};

verus! {

/// Length in bytes of every report exchanged with the device.
pub const REPORT_SIZE: usize = 64;

/// The output report that carries `payload`: the payload left-aligned,
/// truncated to the report size, and zero-filled on the right.
pub open spec fn padded_report(payload: Seq<u8>) -> Seq<u8> {
    Seq::new(REPORT_SIZE as nat, |i: int| if i < payload.len() { payload[i] } else { 0u8 })
}

/// Lowercase hexadecimal digit of a value below 16.
pub open spec fn lower_hex_char(n: int) -> char {
    seq!['0', '1', '2', '3', '4', '5', '6', '7', '8', '9', 'a', 'b', 'c', 'd', 'e', 'f'][n]
}

/// Two lowercase digits per byte, high nibble first.
pub open spec fn hex_encoding(b: Seq<u8>) -> Seq<char> {
    Seq::new(
        2 * b.len(),
        |i: int|
            if i % 2 == 0 {
                lower_hex_char(b[i / 2] as int / 16)
            } else {
                lower_hex_char(b[i / 2] as int % 16)
            },
    )
}

/// Text that decodes to bytes: an even number of hexadecimal digits.
pub open spec fn is_hex_text(t: Seq<char>) -> bool {
    t.len() % 2 == 0 && all_hex(t)
}

/// The bytes that a hexadecimal text stands for, one per pair of digits.
pub open spec fn hex_decoding(t: Seq<char>) -> Seq<u8> {
    Seq::new(
        t.len() / 2,
        |i: int| (hex_digit_value(t[2 * i]) * 16 + hex_digit_value(t[2 * i + 1])) as u8,
    )
}

#[verifier::external_type_specification]
#[verifier::external_body]
pub struct ExFromHexError(hex::FromHexError);

/// Relies on hex::encode: each byte becomes two lowercase hexadecimal
/// digits, high nibble first.
#[verifier::external_body]
fn encode_hex(b: &[u8]) -> (r: String)
    ensures
        r@ == hex_encoding(b@),
{
    hex::encode(b)
}

/// Relies on hex::decode: it fails on text of odd length or with a byte that
/// is no hexadecimal digit (either case accepted), and otherwise yields one
/// byte per pair of digits. A character that is not ASCII is no digit and
/// puts bytes that are none into the text, so the same holds of characters.
#[verifier::external_body]
fn decode_hex(text: &str) -> (r: Result<Vec<u8>, hex::FromHexError>)
    ensures
        r is Ok <==> is_hex_text(text@),
        r matches Ok(v) ==> v@ == hex_decoding(text@),
{
    hex::decode(text)
}

/// The payload given as hexadecimal text was not valid.
#[derive(Debug, Clone, Copy, PartialEq, Eq, Structural)]
pub struct PayloadDecodeError;

/// Decodes a payload written in hexadecimal (digits in either case).
pub fn decode_payload(text: &str) -> (r: Result<Vec<u8>, PayloadDecodeError>)
    ensures
        r is Ok <==> is_hex_text(text@),
        r matches Ok(v) ==> v@ == hex_decoding(text@),
{
    match decode_hex(text) {
        Ok(v) => Ok(v),
        Err(_) => Err(PayloadDecodeError),
    }
}

/// Copies `payload` into a report: left-aligned, zero-padded when shorter,
/// truncated when longer. The whole report is always what is sent.
pub fn build_output_report(payload: &[u8]) -> (r: [u8; REPORT_SIZE])
    ensures
        r@ == padded_report(payload@),
        payload@.len() <= REPORT_SIZE ==> r@ == payload@ + Seq::new(
            (REPORT_SIZE - payload@.len()) as nat,
            |i: int| 0u8,
        ),
        payload@.len() > REPORT_SIZE ==> r@ == payload@.take(REPORT_SIZE as int),
{
    let mut r = [0u8; REPORT_SIZE];
    let len = if payload.len() < REPORT_SIZE {
        payload.len()
    } else {
        REPORT_SIZE
    };
    let mut i: usize = 0;
    while i < len
        invariant
            len <= REPORT_SIZE,
            len <= payload@.len(),
            len == payload@.len() || len == REPORT_SIZE,
            i <= len,
            r@.len() == REPORT_SIZE,
            forall|j: int| 0 <= j < i ==> r@[j] == payload@[j],
            forall|j: int| i <= j < REPORT_SIZE ==> r@[j] == 0u8,
        decreases len - i,
    {
        r[i] = payload[i];
        i = i + 1;
    }
    assert(r@ =~= padded_report(payload@));
    proof {
        if payload@.len() <= REPORT_SIZE {
            assert(r@ =~= payload@ + Seq::new((REPORT_SIZE - payload@.len()) as nat, |i: int| 0u8));
        } else {
            assert(r@ =~= payload@.take(REPORT_SIZE as int));
        }
    }
    r
}

/// Decodes a hexadecimal payload and frames it as an output report.
pub fn prepare_output_report(text: &str) -> (r: Result<[u8; REPORT_SIZE], PayloadDecodeError>)
    ensures
        r is Ok <==> is_hex_text(text@),
        r matches Ok(rep) ==> rep@ == padded_report(hex_decoding(text@)),
{
    let payload = decode_payload(text)?;
    Ok(build_output_report(payload.as_slice()))
}

/// Hexadecimal text of the first `len` bytes of a received report.
pub fn report_hex(report: &[u8; REPORT_SIZE], len: usize) -> (r: String)
    requires
        len <= REPORT_SIZE,
    ensures
        r@ == hex_encoding(report@.take(len as int)),
{
    let part = &report[0..len];
    assert(part@ =~= report@.take(len as int));
    encode_hex(part)
}

/// Hexadecimal text of a whole report.
pub fn full_report_hex(report: &[u8; REPORT_SIZE]) -> (r: String)
    ensures
        r@ == hex_encoding(report@),
{
    encode_hex(report.as_slice())
}

} // verus!
