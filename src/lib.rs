//! Data-access layer for a social feed kept in a wide-column store:
//! row decoding, feed assembly, the post fan-out batch, the bulk-load
//! chunk planner and the connection-pool ledger, each with its contract.

use vstd::prelude::*;

pub mod bulk;
pub mod db;
pub mod decode;
pub mod fanout;
pub mod feed;
pub mod ids;
pub mod models;
pub mod pool;
pub mod time;

verus! {

} // verus!
