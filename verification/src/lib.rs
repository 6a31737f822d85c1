//! A deterministic payment-QR payload codec.
//!
//! Given a recipient phone-number identifier and a monetary amount, the
//! library produces a fixed-grammar text payload terminated by a verifiable
//! checksum, suitable for encoding into a scannable 2-D barcode. The codec
//! is a pure function of its inputs: no I/O, no randomness, no state across
//! calls. Rendering the barcode raster itself, and the surrounding
//! order-processing workflow, are the caller's concern.

pub mod amount;
pub mod checksum;
pub mod models;
pub mod payload;
pub mod phone;
pub mod errors;
pub mod text;
