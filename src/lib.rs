//! Marshalling core of a bridge to an encrypted key-value wallet: a JSON
//! model, the entry codec, the bulk-import reducer, the category aggregator
//! and the rendering of result envelopes.

pub mod json;
pub mod codec;
pub mod import;
pub mod categories;
pub mod envelope;
pub mod marshal;
