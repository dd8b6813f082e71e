//! Bit sets in their wire form: the TCP states a request selects, and the
//! extensions it asks the kernel to attach.
use vstd::prelude::*;

verus! {

pub const TCP_ESTABLISHED: u8 = 1;
pub const TCP_SYN_SENT: u8 = 2;
pub const TCP_SYN_RECV: u8 = 3;
pub const TCP_FIN_WAIT1: u8 = 4;
pub const TCP_FIN_WAIT2: u8 = 5;
pub const TCP_TIME_WAIT: u8 = 6;
pub const TCP_CLOSE: u8 = 7;
pub const TCP_CLOSE_WAIT: u8 = 8;
pub const TCP_LAST_ACK: u8 = 9;
pub const TCP_LISTEN: u8 = 10;
pub const TCP_CLOSING: u8 = 11;
pub const TCP_NEW_SYN_RECV: u8 = 12;

pub const INET_DIAG_MEMINFO: u8 = 1;
pub const INET_DIAG_INFO: u8 = 2;
pub const INET_DIAG_VEGASINFO: u8 = 3;
pub const INET_DIAG_CONG: u8 = 4;
pub const INET_DIAG_TOS: u8 = 5;
pub const INET_DIAG_TCLASS: u8 = 6;
pub const INET_DIAG_SKMEMINFO: u8 = 7;
pub const INET_DIAG_SHUTDOWN: u8 = 8;

/// The bits of every TCP state, `1 << state` for each state code.
pub const TCP_STATES_ALL: u32 = 0x1ffe;

/// A TCP state code.
pub open spec fn is_tcp_state(s: u8) -> bool {
    TCP_ESTABLISHED <= s <= TCP_NEW_SYN_RECV
}

/// An extension code; the codes start at one.
pub open spec fn is_extension(e: u8) -> bool {
    INET_DIAG_MEMINFO <= e <= INET_DIAG_SHUTDOWN
}

/// A set of TCP states, bit `s` for state `s`.
#[derive(Debug, Clone, Copy, PartialEq, Eq, Structural)]
pub struct TcpStates {
    pub bits: u32,
}

impl TcpStates {
    pub fn empty() -> (r: TcpStates)
        ensures
            r.bits == 0,
    {
        TcpStates { bits: 0 }
    }

    /// Every state.
    pub fn all() -> (r: TcpStates)
        ensures
            r.bits == TCP_STATES_ALL,
    {
        TcpStates { bits: TCP_STATES_ALL }
    }

    /// The one-state set of `state`.
    pub fn from_state(state: u8) -> (r: TcpStates)
        requires
            is_tcp_state(state),
        ensures
            r.bits == 1u32 << state,
    {
        TcpStates { bits: 1u32 << state }
    }

    pub fn insert(&mut self, other: TcpStates)
        ensures
            final(self).bits == old(self).bits | other.bits,
    {
        self.bits = self.bits | other.bits;
    }

    pub fn remove(&mut self, other: TcpStates)
        ensures
            final(self).bits == old(self).bits & !other.bits,
    {
        self.bits = self.bits & !other.bits;
    }

    /// Every bit of `other` is in the set.
    pub fn contains(&self, other: TcpStates) -> (r: bool)
        ensures
            r == (self.bits & other.bits == other.bits),
    {
        self.bits & other.bits == other.bits
    }
}

/// A set of requested extensions, bit `e - 1` for extension `e`.
#[derive(Debug, Clone, Copy, PartialEq, Eq, Structural)]
pub struct Extension {
    pub bits: u8,
}

impl Extension {
    pub fn empty() -> (r: Extension)
        ensures
            r.bits == 0,
    {
        Extension { bits: 0 }
    }

    /// The one-extension set of `ext`.
    pub fn from_extension(ext: u8) -> (r: Extension)
        requires
            is_extension(ext),
        ensures
            r.bits == 1u8 << (ext - 1) as u8,
    {
        Extension { bits: 1u8 << (ext - 1) }
    }

    pub fn insert(&mut self, other: Extension)
        ensures
            final(self).bits == old(self).bits | other.bits,
    {
        self.bits = self.bits | other.bits;
    }

    pub fn remove(&mut self, other: Extension)
        ensures
            final(self).bits == old(self).bits & !other.bits,
    {
        self.bits = self.bits & !other.bits;
    }

    /// Every bit of `other` is in the set.
    pub fn contains(&self, other: Extension) -> (r: bool)
        ensures
            r == (self.bits & other.bits == other.bits),
    {
        self.bits & other.bits == other.bits
    }
}

} // verus!
