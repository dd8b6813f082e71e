//! Netlink attribute and socket-diagnostics codec.
pub mod bytes;
pub mod error;
pub mod nla;
pub mod neighbour;
pub mod bitflags;
pub mod sock_diag;
