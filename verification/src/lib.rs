//! The boundary between a gossip engine and the network it speaks through.
//!
//! A gossip engine decides what to send, to whom and when. It reaches the
//! network through the [`network::Network`] capability only: seven operations,
//! each of which hands exactly one request to the transport and returns.
//!
//! - [`network`] states the capability.
//! - [`adapter`] binds it to a transport, which is whatever can take a request
//!   and open a subscription ([`transport`]).
//! - [`memory`] is a network that lives in the memory of one process: it
//!   implements the capability without any peer, keeps what was asked of it,
//!   and lets its holder say what happens on the network.
//! - [`state`] says what a network is as far as a consumer can tell, and
//!   [`guarantees`] proves what a consumer may rely on.

pub mod adapter;
pub mod event;
pub mod guarantees;
pub mod memory;
pub mod network;
pub mod peer;
pub mod request;
pub mod state;
pub mod transport;
