//! The gateway: the intake queue, the dispatch engine that drives queued
//! requests through the authorizer, and what surrounds them.

pub mod client;
pub mod controller;
pub mod ledger;
pub mod models;
pub mod repository;
pub mod service;
pub mod time;
pub mod vars;
