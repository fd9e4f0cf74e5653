//! Analysis of the transactions of one blockchain address: a scan of the
//! latest blocks for the transactions that touch the address, the directed
//! graph of the accounts involved, with one edge per transaction, and the
//! texts and the state machine of a terminal view of both.

pub mod address;
pub mod amount;
pub mod cli;
pub mod graph;
pub mod graph_laws;
pub mod hex;
pub mod presenter;
pub mod render;
pub mod scanner;
pub mod scanner_laws;
pub mod text;
pub mod transaction;
