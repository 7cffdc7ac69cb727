//! Verified core of a client for the Beckhoff ADS protocol.
//!
//! The client works beside an ADS router. It sends requests in frames that start
//! with an AMS header, finds for each response the request that waits for it, and
//! calls the callbacks that are registered for device notifications. This library
//! holds what the client computes and decides; the connection itself is left to
//! the program around it.
//!
//! - [`builder`]: the parts of a client, collected before there is a connection.
//! - [`client`]: the state of a client, and the address that it goes by.
//! - [`header`]: the AMS header, written and read.
//! - [`response`]: the reading of frames, one step at a time.
//! - [`command`]: the register of the requests that wait.
//! - [`notification`]: the walk over a notification stream.
//! - [`stream_laws`]: what holds of every notification stream.
//! - [`calls`]: what holds of every call, and of calls that follow each other.
//! - [`types`]: addresses, commands, timeouts and errors.
//! - [`wire`]: integers as they stand in a frame, and what is taken for granted of
//!   their conversion to bytes.
//! - [`buffer`], [`channel`]: what is taken for granted of `bytes` and `tokio`.

pub mod buffer;
pub mod builder;
pub mod calls;
pub mod channel;
pub mod client;
pub mod command;
pub mod header;
pub mod notification;
pub mod response;
pub mod stream_laws;
pub mod types;
pub mod wire;

pub use builder::ClientBuilder;
pub use client::Client;
pub use types::{AdsCommand, AdsError, AdsTimeout, AmsAddr, AmsNetId, AmsPort};
