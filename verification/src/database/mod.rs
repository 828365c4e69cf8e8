//! The storage engine: two in-memory record streams and the handlers of the
//! commands that reach them.

pub mod controller;
pub mod entity;
pub mod ledger;
