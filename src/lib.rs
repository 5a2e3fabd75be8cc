//! Host-side logic for talking to a vendor-defined HID interface: parsing of
//! identifiers, framing of fixed-size reports, candidate selection, and the
//! decision logic of the open-with-retry and report-exchange protocols.
pub mod ident;
pub mod report;
pub mod acquire;
pub mod exchange;

pub use ident::parse_hex;
