//! Fixed wire layouts for Ethernet, ARP, ICMP, IPv4 and IPv6 headers.
//!
//! Each header is plain data: fields in exact wire order, with no validation
//! and no byte-order translation — a multi-byte field holds whatever raw
//! value the caller put there, and `encode`/`decode` copy it to and from the
//! buffer in the field's in-memory byte order on a little-endian host
//! (least-significant byte first), reproducing a direct overlay of the
//! struct onto the packet buffer byte for byte.

use vstd::prelude::*;
use crate::checksum::checksum_spec;
use crate::checksum::lemma_checksum_self_check;
use crate::ARP_HEADER_SIZE;
use crate::ETH_HEADER_SIZE;
use crate::ICMP_HEADER_SIZE;
use crate::IPV4_LEN;
use crate::IPV6_LEN;
use crate::IP_HEADER_SIZE;
use crate::MAC_LEN;

verus! {

/// The two bytes of a 16-bit field, least-significant first.
pub open spec fn le16_bytes(v: u16) -> Seq<u8> {
    seq![(v % 0x100) as u8, (v / 0x100) as u8]
}

/// The four bytes of a 32-bit field, least-significant first.
pub open spec fn le32_bytes(v: u32) -> Seq<u8> {
    seq![
        (v % 0x100) as u8,
        ((v / 0x100) % 0x100) as u8,
        ((v / 0x1_0000) % 0x100) as u8,
        (v / 0x100_0000) as u8,
    ]
}

/// The 16-bit field value read back from two bytes, least-significant first.
pub open spec fn u16_of_le(lo: u8, hi: u8) -> u16 {
    (lo + hi * 0x100) as u16
}

/// The 32-bit field value read back from four bytes, least-significant
/// first.
pub open spec fn u32_of_le(b0: u8, b1: u8, b2: u8, b3: u8) -> u32 {
    (b0 + b1 * 0x100 + b2 * 0x1_0000 + b3 * 0x100_0000) as u32
}

/// Splitting a 16-bit field into bytes and reading them back is the
/// identity.
pub proof fn lemma_le16_round_trip(v: u16)
    ensures
        u16_of_le(le16_bytes(v)[0], le16_bytes(v)[1]) == v,
{
}

/// Splitting a 32-bit field into bytes and reading them back is the
/// identity.
pub proof fn lemma_le32_round_trip(v: u32)
    ensures
        u32_of_le(le32_bytes(v)[0], le32_bytes(v)[1], le32_bytes(v)[2], le32_bytes(v)[3]) == v,
{
}

/// Appends an octet array to a byte buffer.
fn push_array<const N: usize>(v: &mut Vec<u8>, a: &[u8; N])
    ensures
        final(v)@ == old(v)@ + a@,
{
    let mut i: usize = 0;
    while i < N
        invariant
            i <= N,
            v@ == old(v)@ + a@.take(i as int),
        decreases N - i,
    {
        v.push(a[i]);
        i = i + 1;
        proof {
            assert(a@.take(i as int) =~= a@.take(i as int - 1).push(a@[i as int - 1]));
        }
    }
    proof {
        assert(a@.take(N as int) =~= a@);
    }
}

/// Appends a 16-bit field, least-significant byte first.
fn push_le16(v: &mut Vec<u8>, x: u16)
    ensures
        final(v)@ == old(v)@ + le16_bytes(x),
{
    v.push((x % 0x100) as u8);
    v.push((x / 0x100) as u8);
    proof {
        assert(v@ =~= old(v)@ + le16_bytes(x));
    }
}

/// Appends a 32-bit field, least-significant byte first.
fn push_le32(v: &mut Vec<u8>, x: u32)
    ensures
        final(v)@ == old(v)@ + le32_bytes(x),
{
    v.push((x % 0x100) as u8);
    v.push(((x / 0x100) % 0x100) as u8);
    v.push(((x / 0x1_0000) % 0x100) as u8);
    v.push((x / 0x100_0000) as u8);
    proof {
        assert(v@ =~= old(v)@ + le32_bytes(x));
    }
}

/// An Ethernet header: destination MAC, source MAC, protocol.
pub struct EthHeader {
    pub dest: [u8; MAC_LEN],
    pub source: [u8; MAC_LEN],
    pub proto: u16,
}

/// The 14 bytes of an Ethernet header in wire order.
pub open spec fn eth_header_bytes(h: EthHeader) -> Seq<u8> {
    h.dest@ + h.source@ + le16_bytes(h.proto)
}

impl EthHeader {
    /// Writes the fields into a fresh buffer, in wire order, unpadded.
    pub fn encode(&self) -> (r: Vec<u8>)
        ensures
            r@ == eth_header_bytes(*self),
            r@.len() == ETH_HEADER_SIZE,
    {
        let mut v: Vec<u8> = Vec::new();
        push_array(&mut v, &self.dest);
        push_array(&mut v, &self.source);
        push_le16(&mut v, self.proto);
        proof {
            assert(v@ =~= eth_header_bytes(*self));
        }
        v
    }

    /// Reads the fields back out of the first 14 bytes of a buffer.
    pub fn decode(bytes: &[u8]) -> (r: Self)
        requires
            bytes@.len() >= ETH_HEADER_SIZE,
        ensures
            r.dest@ == bytes@.subrange(0, 6),
            r.source@ == bytes@.subrange(6, 12),
            r.proto == u16_of_le(bytes@[12], bytes@[13]),
            eth_header_bytes(r) == bytes@.take(ETH_HEADER_SIZE as int),
    {
        let dest: [u8; MAC_LEN] = [bytes[0], bytes[1], bytes[2], bytes[3], bytes[4], bytes[5]];
        let source: [u8; MAC_LEN] = [bytes[6], bytes[7], bytes[8], bytes[9], bytes[10], bytes[11]];
        let proto: u16 = bytes[12] as u16 + (bytes[13] as u16) * 0x100;
        let r = EthHeader { dest, source, proto };
        proof {
            assert(r.dest@ =~= bytes@.subrange(0, 6));
            assert(r.source@ =~= bytes@.subrange(6, 12));
            assert(eth_header_bytes(r) =~= bytes@.take(ETH_HEADER_SIZE as int));
        }
        r
    }
}

/// An ARP header: hardware and protocol kinds and lengths, opcode, and the
/// sender's and target's MAC and IPv4 octets.
pub struct ArpHeader {
    pub hardware_type: u16,
    pub protocol_type: u16,
    pub hardware_len: u8,
    pub protocol_len: u8,
    pub opcode: u16,
    pub sender_mac: [u8; MAC_LEN],
    pub sender_ip: [u8; IPV4_LEN],
    pub target_mac: [u8; MAC_LEN],
    pub target_ip: [u8; IPV4_LEN],
}

/// The 28 bytes of an ARP header in wire order.
pub open spec fn arp_header_bytes(h: ArpHeader) -> Seq<u8> {
    le16_bytes(h.hardware_type) + le16_bytes(h.protocol_type) + seq![h.hardware_len]
        + seq![h.protocol_len] + le16_bytes(h.opcode) + h.sender_mac@ + h.sender_ip@
        + h.target_mac@ + h.target_ip@
}

impl ArpHeader {
    /// Writes the fields into a fresh buffer, in wire order, unpadded.
    pub fn encode(&self) -> (r: Vec<u8>)
        ensures
            r@ == arp_header_bytes(*self),
            r@.len() == ARP_HEADER_SIZE,
    {
        let mut v: Vec<u8> = Vec::new();
        push_le16(&mut v, self.hardware_type);
        push_le16(&mut v, self.protocol_type);
        v.push(self.hardware_len);
        v.push(self.protocol_len);
        push_le16(&mut v, self.opcode);
        push_array(&mut v, &self.sender_mac);
        push_array(&mut v, &self.sender_ip);
        push_array(&mut v, &self.target_mac);
        push_array(&mut v, &self.target_ip);
        proof {
            assert(v@ =~= arp_header_bytes(*self));
        }
        v
    }

    /// Reads the fields back out of the first 28 bytes of a buffer.
    pub fn decode(bytes: &[u8]) -> (r: Self)
        requires
            bytes@.len() >= ARP_HEADER_SIZE,
        ensures
            r.hardware_type == u16_of_le(bytes@[0], bytes@[1]),
            r.protocol_type == u16_of_le(bytes@[2], bytes@[3]),
            r.hardware_len == bytes@[4],
            r.protocol_len == bytes@[5],
            r.opcode == u16_of_le(bytes@[6], bytes@[7]),
            r.sender_mac@ == bytes@.subrange(8, 14),
            r.sender_ip@ == bytes@.subrange(14, 18),
            r.target_mac@ == bytes@.subrange(18, 24),
            r.target_ip@ == bytes@.subrange(24, 28),
            arp_header_bytes(r) == bytes@.take(ARP_HEADER_SIZE as int),
    {
        let r = ArpHeader {
            hardware_type: bytes[0] as u16 + (bytes[1] as u16) * 0x100,
            protocol_type: bytes[2] as u16 + (bytes[3] as u16) * 0x100,
            hardware_len: bytes[4],
            protocol_len: bytes[5],
            opcode: bytes[6] as u16 + (bytes[7] as u16) * 0x100,
            sender_mac: [bytes[8], bytes[9], bytes[10], bytes[11], bytes[12], bytes[13]],
            sender_ip: [bytes[14], bytes[15], bytes[16], bytes[17]],
            target_mac: [bytes[18], bytes[19], bytes[20], bytes[21], bytes[22], bytes[23]],
            target_ip: [bytes[24], bytes[25], bytes[26], bytes[27]],
        };
        proof {
            assert(r.sender_mac@ =~= bytes@.subrange(8, 14));
            assert(r.sender_ip@ =~= bytes@.subrange(14, 18));
            assert(r.target_mac@ =~= bytes@.subrange(18, 24));
            assert(r.target_ip@ =~= bytes@.subrange(24, 28));
            assert(arp_header_bytes(r) =~= bytes@.take(ARP_HEADER_SIZE as int));
        }
        r
    }
}

/// An ICMP header: type, code, checksum, identifier and sequence number.
pub struct IcmpHeader {
    pub type_: u8,
    pub code: u8,
    pub check: u16,
    pub id: u16,
    pub sq: u16,
}

/// The 8 bytes of an ICMP header in wire order.  The checksum field sits at
/// byte offset 2.
pub open spec fn icmp_header_bytes(h: IcmpHeader) -> Seq<u8> {
    seq![h.type_, h.code] + le16_bytes(h.check) + le16_bytes(h.id) + le16_bytes(h.sq)
}

impl IcmpHeader {
    /// Writes the fields into a fresh buffer, in wire order, unpadded.
    pub fn encode(&self) -> (r: Vec<u8>)
        ensures
            r@ == icmp_header_bytes(*self),
            r@.len() == ICMP_HEADER_SIZE,
    {
        let mut v: Vec<u8> = Vec::new();
        v.push(self.type_);
        v.push(self.code);
        push_le16(&mut v, self.check);
        push_le16(&mut v, self.id);
        push_le16(&mut v, self.sq);
        proof {
            assert(v@ =~= icmp_header_bytes(*self));
        }
        v
    }

    /// Reads the fields back out of the first 8 bytes of a buffer.
    pub fn decode(bytes: &[u8]) -> (r: Self)
        requires
            bytes@.len() >= ICMP_HEADER_SIZE,
        ensures
            r.type_ == bytes@[0],
            r.code == bytes@[1],
            r.check == u16_of_le(bytes@[2], bytes@[3]),
            r.id == u16_of_le(bytes@[4], bytes@[5]),
            r.sq == u16_of_le(bytes@[6], bytes@[7]),
            icmp_header_bytes(r) == bytes@.take(ICMP_HEADER_SIZE as int),
    {
        let r = IcmpHeader {
            type_: bytes[0],
            code: bytes[1],
            check: bytes[2] as u16 + (bytes[3] as u16) * 0x100,
            id: bytes[4] as u16 + (bytes[5] as u16) * 0x100,
            sq: bytes[6] as u16 + (bytes[7] as u16) * 0x100,
        };
        proof {
            assert(icmp_header_bytes(r) =~= bytes@.take(ICMP_HEADER_SIZE as int));
        }
        r
    }
}

/// The checksum self-check on the ICMP layout: compute the checksum of a
/// header whose checksum field is zero, store it in the field, and the
/// checksum of the stored form is `0x0000`.
pub proof fn lemma_icmp_self_check(h: IcmpHeader)
    requires
        h.check == 0,
    ensures
        ({
            let c = checksum_spec(icmp_header_bytes(h));
            let filled = IcmpHeader { type_: h.type_, code: h.code, check: c, id: h.id, sq: h.sq };
            checksum_spec(icmp_header_bytes(filled)) == 0
        }),
{
    let bytes = icmp_header_bytes(h);
    let c = checksum_spec(bytes);
    let filled = IcmpHeader { type_: h.type_, code: h.code, check: c, id: h.id, sq: h.sq };
    assert(bytes[2] == 0 && bytes[3] == 0);
    lemma_checksum_self_check(bytes, 2);
    assert(icmp_header_bytes(filled) =~= bytes.update(2, (c as int % 0x100) as u8).update(
        3,
        (c as int / 0x100) as u8,
    ));
}

/// An IPv4 header: version/IHL, type of service, total length, identifier,
/// fragment word, TTL, protocol, checksum, and source and destination
/// octets.
pub struct Ipv4Header {
    pub verihl: u8,
    pub tos: u8,
    pub tot_len: u16,
    pub id: u16,
    pub frag: u16,
    pub ttl: u8,
    pub protocol: u8,
    pub check: u16,
    pub saddr: [u8; IPV4_LEN],
    pub daddr: [u8; IPV4_LEN],
}

/// The 20 bytes of an IPv4 header in wire order.  The checksum field sits at
/// byte offset 10.
pub open spec fn ipv4_header_bytes(h: Ipv4Header) -> Seq<u8> {
    seq![h.verihl, h.tos] + le16_bytes(h.tot_len) + le16_bytes(h.id) + le16_bytes(h.frag)
        + seq![h.ttl, h.protocol] + le16_bytes(h.check) + h.saddr@ + h.daddr@
}

impl Ipv4Header {
    /// Writes the fields into a fresh buffer, in wire order, unpadded.
    pub fn encode(&self) -> (r: Vec<u8>)
        ensures
            r@ == ipv4_header_bytes(*self),
            r@.len() == IP_HEADER_SIZE,
    {
        let mut v: Vec<u8> = Vec::new();
        v.push(self.verihl);
        v.push(self.tos);
        push_le16(&mut v, self.tot_len);
        push_le16(&mut v, self.id);
        push_le16(&mut v, self.frag);
        v.push(self.ttl);
        v.push(self.protocol);
        push_le16(&mut v, self.check);
        push_array(&mut v, &self.saddr);
        push_array(&mut v, &self.daddr);
        proof {
            assert(v@ =~= ipv4_header_bytes(*self));
        }
        v
    }

    /// Reads the fields back out of the first 20 bytes of a buffer.
    pub fn decode(bytes: &[u8]) -> (r: Self)
        requires
            bytes@.len() >= IP_HEADER_SIZE,
        ensures
            r.verihl == bytes@[0],
            r.tos == bytes@[1],
            r.tot_len == u16_of_le(bytes@[2], bytes@[3]),
            r.id == u16_of_le(bytes@[4], bytes@[5]),
            r.frag == u16_of_le(bytes@[6], bytes@[7]),
            r.ttl == bytes@[8],
            r.protocol == bytes@[9],
            r.check == u16_of_le(bytes@[10], bytes@[11]),
            r.saddr@ == bytes@.subrange(12, 16),
            r.daddr@ == bytes@.subrange(16, 20),
            ipv4_header_bytes(r) == bytes@.take(IP_HEADER_SIZE as int),
    {
        let r = Ipv4Header {
            verihl: bytes[0],
            tos: bytes[1],
            tot_len: bytes[2] as u16 + (bytes[3] as u16) * 0x100,
            id: bytes[4] as u16 + (bytes[5] as u16) * 0x100,
            frag: bytes[6] as u16 + (bytes[7] as u16) * 0x100,
            ttl: bytes[8],
            protocol: bytes[9],
            check: bytes[10] as u16 + (bytes[11] as u16) * 0x100,
            saddr: [bytes[12], bytes[13], bytes[14], bytes[15]],
            daddr: [bytes[16], bytes[17], bytes[18], bytes[19]],
        };
        proof {
            assert(r.saddr@ =~= bytes@.subrange(12, 16));
            assert(r.daddr@ =~= bytes@.subrange(16, 20));
            assert(ipv4_header_bytes(r) =~= bytes@.take(IP_HEADER_SIZE as int));
        }
        r
    }
}

/// The checksum self-check on the IPv4 layout: compute the checksum of a
/// header whose checksum field is zero, store it in the field, and the
/// checksum of the stored form is `0x0000`.
pub proof fn lemma_ipv4_self_check(h: Ipv4Header)
    requires
        h.check == 0,
    ensures
        ({
            let c = checksum_spec(ipv4_header_bytes(h));
            let filled = Ipv4Header {
                verihl: h.verihl,
                tos: h.tos,
                tot_len: h.tot_len,
                id: h.id,
                frag: h.frag,
                ttl: h.ttl,
                protocol: h.protocol,
                check: c,
                saddr: h.saddr,
                daddr: h.daddr,
            };
            checksum_spec(ipv4_header_bytes(filled)) == 0
        }),
{
    let bytes = ipv4_header_bytes(h);
    let c = checksum_spec(bytes);
    let filled = Ipv4Header {
        verihl: h.verihl,
        tos: h.tos,
        tot_len: h.tot_len,
        id: h.id,
        frag: h.frag,
        ttl: h.ttl,
        protocol: h.protocol,
        check: c,
        saddr: h.saddr,
        daddr: h.daddr,
    };
    assert(bytes[10] == 0 && bytes[11] == 0);
    lemma_checksum_self_check(bytes, 10);
    assert(ipv4_header_bytes(filled) =~= bytes.update(10, (c as int % 0x100) as u8).update(
        11,
        (c as int / 0x100) as u8,
    ));
}

/// Reads sixteen adjacent bytes out of a buffer.
fn read_octets16(bytes: &[u8], off: usize) -> (r: [u8; IPV6_LEN])
    requires
        off + 16 <= bytes@.len(),
    ensures
        r@ == bytes@.subrange(off as int, off as int + 16),
{
    let r: [u8; IPV6_LEN] = [
        bytes[off],
        bytes[off + 1],
        bytes[off + 2],
        bytes[off + 3],
        bytes[off + 4],
        bytes[off + 5],
        bytes[off + 6],
        bytes[off + 7],
        bytes[off + 8],
        bytes[off + 9],
        bytes[off + 10],
        bytes[off + 11],
        bytes[off + 12],
        bytes[off + 13],
        bytes[off + 14],
        bytes[off + 15],
    ];
    proof {
        assert(r@ =~= bytes@.subrange(off as int, off as int + 16));
    }
    r
}

/// An IPv6 header: version/class/flow word, payload length, next header,
/// hop limit, and source and destination octets.  Its wire size is 40 bytes.
pub struct Ipv6Header {
    pub verlab: u32,
    pub payload: u16,
    pub next: u8,
    pub hop: u8,
    pub src: [u8; IPV6_LEN],
    pub dst: [u8; IPV6_LEN],
}

/// The 40 bytes of an IPv6 header in wire order.
pub open spec fn ipv6_header_bytes(h: Ipv6Header) -> Seq<u8> {
    le32_bytes(h.verlab) + le16_bytes(h.payload) + seq![h.next, h.hop] + h.src@ + h.dst@
}

impl Ipv6Header {
    /// Writes the fields into a fresh buffer, in wire order, unpadded.
    pub fn encode(&self) -> (r: Vec<u8>)
        ensures
            r@ == ipv6_header_bytes(*self),
            r@.len() == 40,
    {
        let mut v: Vec<u8> = Vec::new();
        push_le32(&mut v, self.verlab);
        push_le16(&mut v, self.payload);
        v.push(self.next);
        v.push(self.hop);
        push_array(&mut v, &self.src);
        push_array(&mut v, &self.dst);
        proof {
            assert(v@ =~= ipv6_header_bytes(*self));
        }
        v
    }

    /// Reads the fields back out of the first 40 bytes of a buffer.
    #[verifier::rlimit(100)]
    pub fn decode(bytes: &[u8]) -> (r: Self)
        requires
            bytes@.len() >= 40,
        ensures
            r.verlab == u32_of_le(bytes@[0], bytes@[1], bytes@[2], bytes@[3]),
            r.payload == u16_of_le(bytes@[4], bytes@[5]),
            r.next == bytes@[6],
            r.hop == bytes@[7],
            r.src@ == bytes@.subrange(8, 24),
            r.dst@ == bytes@.subrange(24, 40),
            ipv6_header_bytes(r) == bytes@.take(40),
    {
        let r = Ipv6Header {
            verlab: bytes[0] as u32 + (bytes[1] as u32) * 0x100 + (bytes[2] as u32) * 0x1_0000 + (
            bytes[3] as u32) * 0x100_0000,
            payload: bytes[4] as u16 + (bytes[5] as u16) * 0x100,
            next: bytes[6],
            hop: bytes[7],
            src: read_octets16(bytes, 8),
            dst: read_octets16(bytes, 24),
        };
        proof {
            assert(r.src@ =~= bytes@.subrange(8, 24));
            assert(r.dst@ =~= bytes@.subrange(24, 40));
            assert(ipv6_header_bytes(r) =~= bytes@.take(40));
        }
        r
    }
}

} // verus!
