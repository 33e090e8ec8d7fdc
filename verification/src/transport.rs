//! Where packets come from: the form of a source descriptor, and the packets that
//! a datagram carries.

use vstd::prelude::*;

verus! {

/// Bytes of a packet.
pub const PACKET_LEN: usize = 42;

/// The kind of source that a descriptor names.
#[derive(Clone, Copy, Debug, PartialEq, Eq, Structural)]
pub enum Transport {
    /// A socket bound to the address, taking datagrams from any sender.
    Datagram,
    /// A stream socket connected to the address.
    Stream,
    /// A file of packets.
    File,
}

/// A source descriptor taken apart.
#[derive(Clone, Copy, Debug, PartialEq, Eq, Structural)]
pub struct Source {
    pub transport: Transport,
    /// Where in the descriptor the address or the path begins.
    pub start: usize,
}

/// The prefix `udp://`.
pub open spec fn udp_prefix() -> Seq<u8> {
    seq![0x75u8, 0x64u8, 0x70u8, 0x3au8, 0x2fu8, 0x2fu8]
}

/// The prefix `tcp://`.
pub open spec fn tcp_prefix() -> Seq<u8> {
    seq![0x74u8, 0x63u8, 0x70u8, 0x3au8, 0x2fu8, 0x2fu8]
}

/// `prefix` stands at the start of `s`.
pub open spec fn starts_with(s: Seq<u8>, prefix: Seq<u8>) -> bool {
    prefix.len() <= s.len() && s.subrange(0, prefix.len() as int) == prefix
}

/// What a descriptor names: after `udp://` a datagram address, after `tcp://` a
/// stream address, and a file path otherwise.
pub open spec fn source_of(descriptor: Seq<u8>) -> Source {
    if starts_with(descriptor, udp_prefix()) {
        Source { transport: Transport::Datagram, start: 6 }
    } else if starts_with(descriptor, tcp_prefix()) {
        Source { transport: Transport::Stream, start: 6 }
    } else {
        Source { transport: Transport::File, start: 0 }
    }
}

/// Whether `s` begins with the three letters, a colon and two slashes.
fn has_scheme(s: &[u8], a: u8, b: u8, c: u8) -> (found: bool)
    ensures
        found == starts_with(s@, seq![a, b, c, 0x3au8, 0x2fu8, 0x2fu8]),
{
    let ghost prefix = seq![a, b, c, 0x3au8, 0x2fu8, 0x2fu8];
    if s.len() < 6 {
        return false;
    }
    let found = s[0] == a && s[1] == b && s[2] == c && s[3] == 0x3a && s[4] == 0x2f && s[5] == 0x2f;
    proof {
        let head = s@.subrange(0, 6);
        if found {
            assert(head =~= prefix);
        } else {
            assert(head[0] == s@[0] && head[1] == s@[1] && head[2] == s@[2] && head[3] == s@[3]
                && head[4] == s@[4] && head[5] == s@[5]);
            assert(prefix[0] == a && prefix[1] == b && prefix[2] == c && prefix[3] == 0x3a
                && prefix[4] == 0x2f && prefix[5] == 0x2f);
        }
    }
    found
}

/// Takes a source descriptor apart, given as its bytes.
pub fn parse_source(descriptor: &[u8]) -> (source: Source)
    ensures
        source == source_of(descriptor@),
        source.start <= descriptor@.len(),
{
    assert(seq![0x75u8, 0x64u8, 0x70u8, 0x3au8, 0x2fu8, 0x2fu8] =~= udp_prefix());
    assert(seq![0x74u8, 0x63u8, 0x70u8, 0x3au8, 0x2fu8, 0x2fu8] =~= tcp_prefix());
    if has_scheme(descriptor, 0x75, 0x64, 0x70) {
        Source { transport: Transport::Datagram, start: 6 }
    } else if has_scheme(descriptor, 0x74, 0x63, 0x70) {
        Source { transport: Transport::Stream, start: 6 }
    } else {
        Source { transport: Transport::File, start: 0 }
    }
}

/// The packets of a datagram: its bytes cut into runs of 42 where its length is a
/// multiple of 42, and none at all otherwise.
pub open spec fn packets_of(datagram: Seq<u8>) -> Seq<Seq<u8>> {
    if datagram.len() % PACKET_LEN as nat == 0 {
        Seq::new(
            datagram.len() / PACKET_LEN as nat,
            |i: int| datagram.subrange(i * PACKET_LEN, i * PACKET_LEN + PACKET_LEN),
        )
    } else {
        Seq::empty()
    }
}

/// Copies the 42 bytes from `at` on into a packet.
fn packet_at(datagram: &[u8], at: usize) -> (packet: [u8; 42])
    requires
        at + PACKET_LEN <= datagram@.len(),
    ensures
        packet@ == datagram@.subrange(at as int, at + PACKET_LEN),
{
    let total = datagram.len();
    let mut packet: [u8; 42] = [0u8; 42];
    let mut i: usize = 0;
    while i < PACKET_LEN
        invariant
            i <= PACKET_LEN,
            at + PACKET_LEN <= datagram@.len() == total,
            forall|k: int| 0 <= k < i ==> packet@[k] == datagram@[at + k],
        decreases PACKET_LEN - i,
    {
        packet[i] = datagram[at + i];
        i += 1;
    }
    assert(packet@ =~= datagram@.subrange(at as int, at + PACKET_LEN));
    packet
}

/// Cuts a datagram into packets. A datagram whose length is no multiple of 42 is
/// discarded whole.
pub fn datagram_packets(datagram: &[u8]) -> (packets: Vec<[u8; 42]>)
    ensures
        packets@.len() == packets_of(datagram@).len(),
        forall|i: int| 0 <= i < packets@.len() ==> (#[trigger] packets@[i])@ == packets_of(datagram@)[i],
{
    let mut packets: Vec<[u8; 42]> = Vec::new();
    if datagram.len() % PACKET_LEN != 0 {
        return packets;
    }
    let total = datagram.len();
    let count = total / PACKET_LEN;
    let mut n: usize = 0;
    while n < count
        invariant
            n <= count,
            total == datagram@.len(),
            count == datagram@.len() / PACKET_LEN as nat,
            datagram@.len() % PACKET_LEN as nat == 0,
            packets@.len() == n,
            forall|i: int| 0 <= i < n ==> (#[trigger] packets@[i])@ == packets_of(datagram@)[i],
        decreases count - n,
    {
        assert(n * PACKET_LEN + PACKET_LEN <= datagram@.len()) by (nonlinear_arith)
            requires
                n < count,
                count == datagram@.len() / PACKET_LEN as nat,
                datagram@.len() % PACKET_LEN as nat == 0,
        ;
        let packet = packet_at(datagram, n * PACKET_LEN);
        packets.push(packet);
        n += 1;
    }
    packets
}

} // verus!
