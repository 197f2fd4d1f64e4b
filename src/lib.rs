//! Setting up a network block device through the kernel's generic netlink interface:
//! the connect request's parameters, the bytes of the request, and the reading of the reply.
pub mod config;
pub mod wire;
pub mod reply;

pub use config::{ConnectParams, NBDConnect};
pub use reply::{connect_reply, parse_reply, NbdError};
pub use wire::{encode_sockets, MAX_SOCKETS};
