//! A verified request-handling core for a small shopping-list service.
//!
//! The service exposes CRUD operations over shopping lists and their items,
//! guarded by a per-request caller identity and simple ownership/sharing
//! rules. This crate holds the routing, access-control and store-transition
//! logic; the surrounding process does the HTTP and storage I/O and hands
//! plain values in and out.

pub mod api;
pub mod handler;
pub mod laws;
pub mod model;
pub mod ops;
pub mod order;
pub mod route;
pub mod sort;
