//! Migration core for moving browsing-history rows into a fact-oriented
//! store: statement encoding, size-bounded transaction batching, temp
//! identifier minting, an id remap table, and the row-grouping pass.

pub mod escape;
pub mod numeral;
pub mod statement;
pub mod builder;
pub mod remap;
pub mod record;
pub mod grouping;
