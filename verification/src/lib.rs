//! Library for an HTTP gateway onto a peer-to-peer content network.
//!
//! The gateway serves content addressed by a fixed-size binary identifier
//! written as hexadecimal text.  This crate holds the logic of that gateway:
//! the address codec, the lossy text decoder used to render fetched bytes as
//! displayable text, and the route table that maps requests to handlers.

pub mod addr;
pub mod fetch;
pub mod logcfg;
pub mod routes;
pub mod strext;
pub mod text;
