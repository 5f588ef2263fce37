//! Core logic of a location-based RPC service: a catalog of named points,
//! a per-call route accumulator, a chat hub that fans notes out to the other
//! open sessions, and the table that maps a method path to its call shape.

pub mod catalog;
pub mod chat;
pub mod dispatch;
pub mod geo;
pub mod index;
pub mod route;
pub mod text;
