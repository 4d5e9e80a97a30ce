//! Incremental streaming session manager for tabular data.
//!
//! A caller opens a session, pushes bounded chunks of delimited text over
//! time, and finally asks for the accumulated table with a deferred operation
//! (a threshold filter or a group-and-sum) applied. Decoding the chunks and
//! executing the deferred operation are delegated to the polars engine behind
//! a small trusted boundary; everything else — the session registry, the
//! accumulation of rows, the schema rules, the descriptor language and the
//! re-materialization of the table — is verified.


pub mod cell;
pub mod descriptor;
pub mod engine;
pub mod errors;
pub mod frame;
pub mod laws;
pub mod sample;
pub mod session;
pub mod store;
pub mod table;
