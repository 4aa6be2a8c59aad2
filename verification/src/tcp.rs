//! TCP: control flags and connection states.
use vstd::prelude::*;
use crate::models::NetworkEvent;

verus! {

/// Reader of TCP segments.
#[derive(Clone, Copy, Debug)]
pub struct TcpParser;

/// The eight TCP control flags.
#[derive(Clone, Copy, Debug, PartialEq, Eq, Structural)]
pub struct TcpFlags {
    pub fin: bool,
    pub syn: bool,
    pub rst: bool,
    pub psh: bool,
    pub ack: bool,
    pub urg: bool,
    pub ece: bool,
    pub cwr: bool,
}

/// Whether bit `k` (0 is the least significant) of `flags` is set.
pub open spec fn bit_set(flags: u8, k: nat) -> bool {
    (flags as nat / vstd::arithmetic::power2::pow2(k)) % 2 == 1
}

impl TcpParser {
    /// Leaves the event as it is: TCP payloads add nothing to it.
    pub fn enrich(&self, event: &mut NetworkEvent, payload: &[u8])
        ensures
            *final(event) == *old(event),
    {
    }

    /// The flags of a TCP flags byte: FIN is bit 0, then SYN, RST, PSH, ACK,
    /// URG, ECE, and CWR is bit 7.
    pub fn parse_flags(&self, flags: u8) -> (f: TcpFlags)
        ensures
            f.fin == bit_set(flags, 0),
            f.syn == bit_set(flags, 1),
            f.rst == bit_set(flags, 2),
            f.psh == bit_set(flags, 3),
            f.ack == bit_set(flags, 4),
            f.urg == bit_set(flags, 5),
            f.ece == bit_set(flags, 6),
            f.cwr == bit_set(flags, 7),
    {
        proof {
            vstd::arithmetic::power2::lemma2_to64();
            assert(flags & 0x01 != 0 <==> (flags / 1) % 2 == 1) by (bit_vector);
            assert(flags & 0x02 != 0 <==> (flags / 2) % 2 == 1) by (bit_vector);
            assert(flags & 0x04 != 0 <==> (flags / 4) % 2 == 1) by (bit_vector);
            assert(flags & 0x08 != 0 <==> (flags / 8) % 2 == 1) by (bit_vector);
            assert(flags & 0x10 != 0 <==> (flags / 16) % 2 == 1) by (bit_vector);
            assert(flags & 0x20 != 0 <==> (flags / 32) % 2 == 1) by (bit_vector);
            assert(flags & 0x40 != 0 <==> (flags / 64) % 2 == 1) by (bit_vector);
            assert(flags & 0x80 != 0 <==> (flags / 128) % 2 == 1) by (bit_vector);
        }
        TcpFlags {
            fin: flags & 0x01 != 0,
            syn: flags & 0x02 != 0,
            rst: flags & 0x04 != 0,
            psh: flags & 0x08 != 0,
            ack: flags & 0x10 != 0,
            urg: flags & 0x20 != 0,
            ece: flags & 0x40 != 0,
            cwr: flags & 0x80 != 0,
        }
    }
}

impl TcpFlags {
    /// A connection opening: SYN without ACK.
    pub fn is_connection_start(&self) -> (r: bool)
        ensures
            r == (self.syn && !self.ack),
    {
        self.syn && !self.ack
    }

    /// A connection being accepted: SYN with ACK.
    pub fn is_connection_established(&self) -> (r: bool)
        ensures
            r == (self.syn && self.ack),
    {
        self.syn && self.ack
    }

    /// A connection closing: FIN or RST.
    pub fn is_connection_end(&self) -> (r: bool)
        ensures
            r == (self.fin || self.rst),
    {
        self.fin || self.rst
    }
}

/// A law of the connection states: a segment never both opens a connection
/// and accepts one.
pub proof fn lemma_open_and_accept_exclusive(f: TcpFlags)
    ensures
        !((f.syn && !f.ack) && (f.syn && f.ack)),
{
}

} // verus!
