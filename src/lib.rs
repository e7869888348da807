//! Read-only query logic for a privacy-pool contract on a Starknet-style chain:
//! field-element codecs, selector and storage-slot derivation, the ordered
//! storage-probe fallback, the deposit-event scan and response decoding.

pub mod error;
pub mod events;
pub mod felt;
pub mod hex;
pub mod query;
pub mod selector;
pub mod storage;
