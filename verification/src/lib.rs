//! The decisions of a transparent DNS-over-HTTPS proxy with a TLS relay.
//!
//! The packet filter sends DNS and TLS traffic to local proxies. This library holds what those
//! decide and compute: the rules, the lookup of where a connection was going, the sessions with
//! clients, the choice of source ports, and the order in which all of it is started and stopped.
//! It does no input or output. Each session is a state to which what happened is told, and which
//! tells what is to be done next.

pub mod addr;
pub mod anchor;
pub mod bytes;
pub mod command;
pub mod connect;
pub mod fragment;
pub mod framing;
pub mod https;
pub mod lifecycle;
pub mod listen;
pub mod natlook;
pub mod plan;
pub mod ports;
pub mod pump;
pub mod receive;
pub mod rules;
pub mod stop;
pub mod tcp;
pub mod text;
pub mod udp;
