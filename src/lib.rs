//! Discovery and settlement of stake-as-a-service invoices: address
//! derivation, invoice account decoding, the conversion amount that funds a
//! payment run, the ordered settlement plan and its partition into batches.

pub mod address;
pub mod batch;
pub mod codec;
pub mod config;
pub mod conversion;
pub mod error;
pub mod instruction;
pub mod invoice;
pub mod settlement;
