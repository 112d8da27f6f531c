//! Identity generation and request orchestration for a small
//! scheduling-coordination service.
//!
//! Clients create events, attendees register their availability, and the
//! service keeps both in a storage backend that it reaches through one shared
//! adaptor. This crate holds what the service decides: how a new event gets an
//! identifier that can be shared and is not taken ([`slug`], [`names`],
//! [`ident`]), what each request does between its calls to the adaptor
//! ([`routes`]), and how the retention sweep reasons about time ([`time`]).
//! The transport, the adaptor and the lock around it belong to the program
//! that uses the crate.

pub mod ident;
pub mod model;
pub mod names;
pub mod routes;
pub mod slug;
pub mod state;
pub mod text;
pub mod time;
