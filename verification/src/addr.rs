//! Typed address values: IPv4, IPv6 and MAC, each an immutable fixed-length
//! sequence of octets, built from and converted back to plain
//! representations through the [`Handle`] conversion contract.

use vstd::prelude::*;
use vstd::string::StringExecFns;
use crate::IPV4_LEN;
use crate::IPV6_LEN;
use crate::MAC_LEN;

verus! {

/// Bidirectional conversion between a value type and one of its external
/// representations, resolved statically.  A type may implement it for more
/// than one representation ([`Ipv4`] does, for a byte array and a `u32`).
pub trait Handle<T>: Sized {
    /// The representation that this value converts back to.
    spec fn to_spec(&self) -> T;

    /// Builds a value from the representation; nothing is validated or
    /// altered, so the value converts back to exactly `value`.
    fn from(value: T) -> (r: Self)
        ensures
            <Self as Handle<T>>::to_spec(&r) == value,
    ;

    /// Returns the representation: a fresh copy, never an alias into the
    /// value.
    fn to(&self) -> (r: T)
        ensures
            r == <Self as Handle<T>>::to_spec(self),
    ;
}

/// An IPv4 address: four octets, equal exactly when the octets are.
#[derive(Clone)]
pub struct Ipv4 {
    octets: [u8; IPV4_LEN],
}

impl View for Ipv4 {
    type V = Seq<u8>;

    closed spec fn view(&self) -> Seq<u8> {
        self.octets@
    }
}

/// The 32-bit integer with the first octet as its most significant byte
/// (network ordering): `[192, 168, 1, 1]` maps to `0xC0A80101`.
pub open spec fn u32_of_octets(s: Seq<u8>) -> u32
    recommends
        s.len() == 4,
{
    ((s[0] as int) * 0x100_0000 + (s[1] as int) * 0x1_0000 + (s[2] as int) * 0x100 + (
    s[3] as int)) as u32
}

/// The four octets of a 32-bit address value, most significant byte first.
pub open spec fn octets_of_u32(v: u32) -> Seq<u8> {
    seq![(v >> 24) as u8, ((v >> 16) & 0xFF) as u8, ((v >> 8) & 0xFF) as u8, (v & 0xFF) as u8]
}

impl Handle<[u8; IPV4_LEN]> for Ipv4 {
    closed spec fn to_spec(&self) -> [u8; IPV4_LEN] {
        self.octets
    }

    fn from(value: [u8; IPV4_LEN]) -> (r: Self) {
        Ipv4 { octets: value }
    }

    fn to(&self) -> (r: [u8; IPV4_LEN]) {
        self.octets
    }
}

/// The octets of the byte-array representation are the address's own: `to`
/// hands back exactly the octets the value was built from.
pub proof fn lemma_ipv4_to_bytes_view(a: &Ipv4)
    ensures
        (<Ipv4 as Handle<[u8; IPV4_LEN]>>::to_spec(a))@ == a@,
{
}

impl Handle<u32> for Ipv4 {
    open spec fn to_spec(&self) -> u32 {
        u32_of_octets(self@)
    }

    fn from(value: u32) -> (r: Self) {
        let o1: u8 = (value & 0xFF) as u8;
        let o2: u8 = ((value >> 8) & 0xFF) as u8;
        let o3: u8 = ((value >> 16) & 0xFF) as u8;
        let o4: u8 = ((value >> 24) & 0xFF) as u8;
        let octets: [u8; IPV4_LEN] = [o4, o3, o2, o1];
        proof {
            assert((value >> 24) & 0xFF == value >> 24) by (bit_vector);
            assert(octets@ =~= octets_of_u32(value));
            lemma_u32_octet_round_trip(value);
        }
        Ipv4 { octets }
    }

    fn to(&self) -> (r: u32) {
        let b0: u32 = self.octets[0] as u32;
        let b1: u32 = self.octets[1] as u32;
        let b2: u32 = self.octets[2] as u32;
        let b3: u32 = self.octets[3] as u32;
        proof {
            assert(b0 < 0x100 && b1 < 0x100 && b2 < 0x100 && b3 < 0x100 ==> (b0 << 24) == b0
                * 0x100_0000 && (b1 << 16) == b1 * 0x1_0000 && (b2 << 8) == b2 * 0x100)
                by (bit_vector);
        }
        (b0 << 24) + (b1 << 16) + (b2 << 8) + b3
    }
}

/// An IPv6 address: sixteen octets, equal exactly when the octets are.
#[derive(Clone)]
pub struct Ipv6 {
    octets: [u8; IPV6_LEN],
}

impl View for Ipv6 {
    type V = Seq<u8>;

    closed spec fn view(&self) -> Seq<u8> {
        self.octets@
    }
}

impl Handle<[u8; IPV6_LEN]> for Ipv6 {
    closed spec fn to_spec(&self) -> [u8; IPV6_LEN] {
        self.octets
    }

    fn from(value: [u8; IPV6_LEN]) -> (r: Self) {
        Ipv6 { octets: value }
    }

    fn to(&self) -> (r: [u8; IPV6_LEN]) {
        self.octets
    }
}

/// The octets of the byte-array representation are the address's own.
pub proof fn lemma_ipv6_to_bytes_view(a: &Ipv6)
    ensures
        (<Ipv6 as Handle<[u8; IPV6_LEN]>>::to_spec(a))@ == a@,
{
}

/// A MAC address: six octets, equal exactly when the octets are.
#[derive(Clone)]
pub struct Mac {
    mac_addr: [u8; MAC_LEN],
}

impl View for Mac {
    type V = Seq<u8>;

    closed spec fn view(&self) -> Seq<u8> {
        self.mac_addr@
    }
}

impl Handle<[u8; MAC_LEN]> for Mac {
    closed spec fn to_spec(&self) -> [u8; MAC_LEN] {
        self.mac_addr
    }

    fn from(value: [u8; MAC_LEN]) -> (r: Self) {
        Mac { mac_addr: value }
    }

    fn to(&self) -> (r: [u8; MAC_LEN]) {
        self.mac_addr
    }
}

/// The octets of the byte-array representation are the address's own.
pub proof fn lemma_mac_to_bytes_view(a: &Mac)
    ensures
        (<Mac as Handle<[u8; MAC_LEN]>>::to_spec(a))@ == a@,
{
}

/// Recomposing an address value's four octets yields the value back: the
/// `u32` representation round-trips exactly.
pub proof fn lemma_u32_octet_round_trip(v: u32)
    ensures
        u32_of_octets(octets_of_u32(v)) == v,
{
    let b0 = (v >> 24) as u8;
    let b1 = ((v >> 16) & 0xFF) as u8;
    let b2 = ((v >> 8) & 0xFF) as u8;
    let b3 = (v & 0xFF) as u8;
    assert((b0 as int) * 0x100_0000 + (b1 as int) * 0x1_0000 + (b2 as int) * 0x100 + (b3 as int)
        == v) by (bit_vector)
        requires
            b0 == (v >> 24) as u8,
            b1 == ((v >> 16) & 0xFF) as u8,
            b2 == ((v >> 8) & 0xFF) as u8,
            b3 == (v & 0xFF) as u8,
    ;
}

/// Splitting an address into octets and recomposing them is the identity on
/// four-octet sequences: the byte representation round-trips exactly.
pub proof fn lemma_octet_u32_round_trip(s: Seq<u8>)
    requires
        s.len() == 4,
    ensures
        octets_of_u32(u32_of_octets(s)) =~= s,
{
    let v = u32_of_octets(s);
    let b0 = s[0];
    let b1 = s[1];
    let b2 = s[2];
    let b3 = s[3];
    assert((v >> 24) as u8 == b0 && ((v >> 16) & 0xFF) as u8 == b1 && ((v >> 8) & 0xFF) as u8 == b2
        && (v & 0xFF) as u8 == b3) by (bit_vector)
        requires
            v == ((b0 as int) * 0x100_0000 + (b1 as int) * 0x1_0000 + (b2 as int) * 0x100 + (
            b3 as int)) as u32,
    ;
}

/// The lowercase character for a single hexadecimal (or decimal) digit.
pub open spec fn digit_char(d: u8) -> char
    recommends
        d < 16,
{
    if d < 10 {
        ((0x30 + d) as u8) as char
    } else {
        ((0x57 + d) as u8) as char
    }
}

/// The lowercase hexadecimal rendering of one octet, without zero-padding:
/// `0x0F` renders as `f`, not `0f`.
pub open spec fn hex_octet_chars(b: u8) -> Seq<char> {
    if b < 0x10 {
        seq![digit_char(b)]
    } else {
        seq![digit_char(b / 0x10), digit_char(b % 0x10)]
    }
}

/// The decimal rendering of one octet, without zero-padding.
pub open spec fn dec_octet_chars(b: u8) -> Seq<char> {
    if b < 10 {
        seq![digit_char(b)]
    } else if b < 100 {
        seq![digit_char(b / 10), digit_char(b % 10)]
    } else {
        seq![digit_char(b / 100), digit_char((b / 10) % 10), digit_char(b % 10)]
    }
}

/// A MAC address's text form: six lowercase hexadecimal octets joined by
/// colons.
pub open spec fn mac_chars(s: Seq<u8>) -> Seq<char>
    recommends
        s.len() == 6,
{
    hex_octet_chars(s[0]) + seq![':'] + hex_octet_chars(s[1]) + seq![':'] + hex_octet_chars(s[2])
        + seq![':'] + hex_octet_chars(s[3]) + seq![':'] + hex_octet_chars(s[4]) + seq![':']
        + hex_octet_chars(s[5])
}

/// An IPv4 address's text form: four decimal octets joined by periods.
pub open spec fn ipv4_chars(s: Seq<u8>) -> Seq<char>
    recommends
        s.len() == 4,
{
    dec_octet_chars(s[0]) + seq!['.'] + dec_octet_chars(s[1]) + seq!['.'] + dec_octet_chars(s[2])
        + seq!['.'] + dec_octet_chars(s[3])
}

/// The one-character string for a digit value below 16.
fn digit_str(d: u8) -> (r: &'static str)
    requires
        d < 16,
    ensures
        r@ == seq![digit_char(d)],
{
    proof {
        reveal_strlit("0");
        reveal_strlit("1");
        reveal_strlit("2");
        reveal_strlit("3");
        reveal_strlit("4");
        reveal_strlit("5");
        reveal_strlit("6");
        reveal_strlit("7");
        reveal_strlit("8");
        reveal_strlit("9");
        reveal_strlit("a");
        reveal_strlit("b");
        reveal_strlit("c");
        reveal_strlit("d");
        reveal_strlit("e");
        reveal_strlit("f");
    }
    let r: &'static str = match d {
        0 => "0",
        1 => "1",
        2 => "2",
        3 => "3",
        4 => "4",
        5 => "5",
        6 => "6",
        7 => "7",
        8 => "8",
        9 => "9",
        10 => "a",
        11 => "b",
        12 => "c",
        13 => "d",
        14 => "e",
        _ => "f",
    };
    proof {
        assert(r@ =~= seq![digit_char(d)]);
    }
    r
}

/// Appends one octet's lowercase hexadecimal rendering, unpadded.
fn push_hex_octet(s: &mut String, b: u8)
    ensures
        final(s)@ == old(s)@ + hex_octet_chars(b),
{
    if b < 0x10 {
        s.append(digit_str(b));
    } else {
        s.append(digit_str(b / 0x10));
        s.append(digit_str(b % 0x10));
    }
    proof {
        assert(s@ =~= old(s)@ + hex_octet_chars(b));
    }
}

/// Appends one octet's decimal rendering, unpadded.
fn push_dec_octet(s: &mut String, b: u8)
    ensures
        final(s)@ == old(s)@ + dec_octet_chars(b),
{
    if b < 10 {
        s.append(digit_str(b));
    } else if b < 100 {
        s.append(digit_str(b / 10));
        s.append(digit_str(b % 10));
    } else {
        s.append(digit_str(b / 100));
        s.append(digit_str((b / 10) % 10));
        s.append(digit_str(b % 10));
    }
    proof {
        assert(s@ =~= old(s)@ + dec_octet_chars(b));
    }
}

impl Mac {
    /// Renders the address as six lowercase hexadecimal octet values joined
    /// by colons, without zero-padding: `[0, 1, 2, 3, 4, 5]` renders as
    /// `0:1:2:3:4:5`.
    pub fn to_string(&self) -> (r: String)
        ensures
            r@ == mac_chars(self@),
    {
        let colon: &'static str = ":";
        proof {
            reveal_strlit(":");
            assert(colon@ =~= seq![':']);
        }
        let mut s = String::new();
        push_hex_octet(&mut s, self.mac_addr[0]);
        s.append(colon);
        push_hex_octet(&mut s, self.mac_addr[1]);
        s.append(colon);
        push_hex_octet(&mut s, self.mac_addr[2]);
        s.append(colon);
        push_hex_octet(&mut s, self.mac_addr[3]);
        s.append(colon);
        push_hex_octet(&mut s, self.mac_addr[4]);
        s.append(colon);
        push_hex_octet(&mut s, self.mac_addr[5]);
        proof {
            assert(s@ =~= mac_chars(self@));
        }
        s
    }
}

impl Ipv4 {
    /// Renders the address as four decimal octet values joined by periods:
    /// `[192, 168, 1, 1]` renders as `192.168.1.1`.
    pub fn to_string(&self) -> (r: String)
        ensures
            r@ == ipv4_chars(self@),
    {
        let period: &'static str = ".";
        proof {
            reveal_strlit(".");
            assert(period@ =~= seq!['.']);
        }
        let mut s = String::new();
        push_dec_octet(&mut s, self.octets[0]);
        s.append(period);
        push_dec_octet(&mut s, self.octets[1]);
        s.append(period);
        push_dec_octet(&mut s, self.octets[2]);
        s.append(period);
        push_dec_octet(&mut s, self.octets[3]);
        proof {
            assert(s@ =~= ipv4_chars(self@));
        }
        s
    }
}

} // verus!
