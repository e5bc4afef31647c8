use curuam::{
    checksum, ArpHeader, EthHeader, IcmpHeader, Ipv4Header, Ipv6Header, ARP_HEADER_SIZE,
    ETH_HEADER_SIZE, ICMP_HEADER_SIZE, IP_HEADER_SIZE,
};

#[test]
fn wire_sizes_match_the_protocols() {
    assert_eq!(ETH_HEADER_SIZE, 14);
    assert_eq!(ARP_HEADER_SIZE, 28);
    assert_eq!(ICMP_HEADER_SIZE, 8);
    assert_eq!(IP_HEADER_SIZE, 20);

    let eth = EthHeader { dest: [0; 6], source: [0; 6], proto: 0 };
    assert_eq!(eth.encode().len(), 14);

    let arp = ArpHeader {
        hardware_type: 0,
        protocol_type: 0,
        hardware_len: 0,
        protocol_len: 0,
        opcode: 0,
        sender_mac: [0; 6],
        sender_ip: [0; 4],
        target_mac: [0; 6],
        target_ip: [0; 4],
    };
    assert_eq!(arp.encode().len(), 28);

    let icmp = IcmpHeader { type_: 0, code: 0, check: 0, id: 0, sq: 0 };
    assert_eq!(icmp.encode().len(), 8);

    let ip4 = Ipv4Header {
        verihl: 0,
        tos: 0,
        tot_len: 0,
        id: 0,
        frag: 0,
        ttl: 0,
        protocol: 0,
        check: 0,
        saddr: [0; 4],
        daddr: [0; 4],
    };
    assert_eq!(ip4.encode().len(), 20);

    let ip6 = Ipv6Header { verlab: 0, payload: 0, next: 0, hop: 0, src: [0; 16], dst: [0; 16] };
    assert_eq!(ip6.encode().len(), 40);
}

#[test]
fn eth_header_bytes_and_back() {
    let eth = EthHeader {
        dest: [1, 2, 3, 4, 5, 6],
        source: [7, 8, 9, 10, 11, 12],
        proto: 0x0008,
    };
    let bytes = eth.encode();
    assert_eq!(&bytes[0..6], &[1, 2, 3, 4, 5, 6]);
    assert_eq!(&bytes[6..12], &[7, 8, 9, 10, 11, 12]);
    assert_eq!(&bytes[12..14], &[0x08, 0x00]);

    let back = EthHeader::decode(&bytes);
    assert_eq!(back.dest, eth.dest);
    assert_eq!(back.source, eth.source);
    assert_eq!(back.proto, eth.proto);
}

#[test]
fn arp_header_bytes_and_back() {
    let arp = ArpHeader {
        hardware_type: 0x0100,
        protocol_type: 0x0008,
        hardware_len: 6,
        protocol_len: 4,
        opcode: 0x0100,
        sender_mac: [1, 2, 3, 4, 5, 6],
        sender_ip: [192, 168, 1, 1],
        target_mac: [0, 0, 0, 0, 0, 0],
        target_ip: [192, 168, 1, 2],
    };
    let bytes = arp.encode();
    assert_eq!(&bytes[0..2], &[0x00, 0x01]);
    assert_eq!(&bytes[2..4], &[0x08, 0x00]);
    assert_eq!(bytes[4], 6);
    assert_eq!(bytes[5], 4);
    assert_eq!(&bytes[6..8], &[0x00, 0x01]);
    assert_eq!(&bytes[8..14], &[1, 2, 3, 4, 5, 6]);
    assert_eq!(&bytes[14..18], &[192, 168, 1, 1]);
    assert_eq!(&bytes[18..24], &[0, 0, 0, 0, 0, 0]);
    assert_eq!(&bytes[24..28], &[192, 168, 1, 2]);

    let back = ArpHeader::decode(&bytes);
    assert_eq!(back.hardware_type, arp.hardware_type);
    assert_eq!(back.protocol_type, arp.protocol_type);
    assert_eq!(back.hardware_len, arp.hardware_len);
    assert_eq!(back.protocol_len, arp.protocol_len);
    assert_eq!(back.opcode, arp.opcode);
    assert_eq!(back.sender_mac, arp.sender_mac);
    assert_eq!(back.sender_ip, arp.sender_ip);
    assert_eq!(back.target_mac, arp.target_mac);
    assert_eq!(back.target_ip, arp.target_ip);
}

#[test]
fn icmp_header_bytes_and_back() {
    let icmp = IcmpHeader { type_: 8, code: 0, check: 0xF7FF, id: 0x3412, sq: 0x0100 };
    let bytes = icmp.encode();
    assert_eq!(bytes, vec![8, 0, 0xFF, 0xF7, 0x12, 0x34, 0x00, 0x01]);

    let back = IcmpHeader::decode(&bytes);
    assert_eq!(back.type_, icmp.type_);
    assert_eq!(back.code, icmp.code);
    assert_eq!(back.check, icmp.check);
    assert_eq!(back.id, icmp.id);
    assert_eq!(back.sq, icmp.sq);
}

#[test]
fn ipv4_header_bytes_and_back() {
    let ip4 = Ipv4Header {
        verihl: 0x45,
        tos: 0,
        tot_len: 0x5400,
        id: 0x31d4,
        frag: 0x4000,
        ttl: 64,
        protocol: 1,
        check: 0,
        saddr: [192, 168, 1, 1],
        daddr: [192, 168, 1, 2],
    };
    let bytes = ip4.encode();
    assert_eq!(bytes[0], 0x45);
    assert_eq!(&bytes[2..4], &[0x00, 0x54]);
    assert_eq!(&bytes[4..6], &[0xd4, 0x31]);
    assert_eq!(&bytes[6..8], &[0x00, 0x40]);
    assert_eq!(bytes[8], 64);
    assert_eq!(bytes[9], 1);
    assert_eq!(&bytes[10..12], &[0, 0]);
    assert_eq!(&bytes[12..16], &[192, 168, 1, 1]);
    assert_eq!(&bytes[16..20], &[192, 168, 1, 2]);

    let back = Ipv4Header::decode(&bytes);
    assert_eq!(back.verihl, ip4.verihl);
    assert_eq!(back.tot_len, ip4.tot_len);
    assert_eq!(back.id, ip4.id);
    assert_eq!(back.frag, ip4.frag);
    assert_eq!(back.ttl, ip4.ttl);
    assert_eq!(back.protocol, ip4.protocol);
    assert_eq!(back.check, ip4.check);
    assert_eq!(back.saddr, ip4.saddr);
    assert_eq!(back.daddr, ip4.daddr);
}

#[test]
fn ipv6_header_bytes_and_back() {
    let ip6 = Ipv6Header {
        verlab: 0x12345678,
        payload: 0x2211,
        next: 58,
        hop: 255,
        src: [0xaa; 16],
        dst: [0xbb; 16],
    };
    let bytes = ip6.encode();
    assert_eq!(&bytes[0..4], &[0x78, 0x56, 0x34, 0x12]);
    assert_eq!(&bytes[4..6], &[0x11, 0x22]);
    assert_eq!(bytes[6], 58);
    assert_eq!(bytes[7], 255);
    assert_eq!(&bytes[8..24], &[0xaa; 16]);
    assert_eq!(&bytes[24..40], &[0xbb; 16]);

    let back = Ipv6Header::decode(&bytes);
    assert_eq!(back.verlab, ip6.verlab);
    assert_eq!(back.payload, ip6.payload);
    assert_eq!(back.next, ip6.next);
    assert_eq!(back.hop, ip6.hop);
    assert_eq!(back.src, ip6.src);
    assert_eq!(back.dst, ip6.dst);
}

#[test]
fn checksum_of_empty_is_all_ones() {
    let empty: [u8; 0] = [];
    assert_eq!(checksum(&empty, 0), 0xFFFF);
}

#[test]
fn checksum_of_single_byte_adds_it_unshifted() {
    assert_eq!(checksum(&[0x01], 1), 0xFFFE);
    assert_eq!(checksum(&[0x01, 0x02, 0x03], 3), 0xFDFB);
}

#[test]
fn checksum_exact_values() {
    assert_eq!(checksum(&[0x01, 0x02], 2), 0xFDFE);
    let buf = [0xFF, 0xFF, 0xFF, 0xFF];
    assert_eq!(checksum(&buf, 4), 0x0000);
}

#[test]
fn checksum_is_order_sensitive() {
    // The summing loop reads words in a fixed byte order, so reversing the
    // input's bytes generally changes the result.
    assert_eq!(checksum(&[0x12, 0x34], 2), 0xCBED);
    assert_eq!(checksum(&[0x34, 0x12], 2), 0xEDCB);
}

#[test]
fn checksum_respects_len_argument() {
    let buf = [0x01, 0x02, 0x03, 0x04];
    assert_eq!(checksum(&buf, 2), checksum(&[0x01, 0x02], 2));
}

#[test]
fn checksum_self_check_on_ipv4_header() {
    // Zero the checksum field, compute, write the value in, recompute: the
    // standard validation convention yields zero.
    let mut ip4 = Ipv4Header {
        verihl: 0x45,
        tos: 0,
        tot_len: 0x5400,
        id: 0x31d4,
        frag: 0x4000,
        ttl: 64,
        protocol: 1,
        check: 0,
        saddr: [192, 168, 1, 1],
        daddr: [192, 168, 1, 2],
    };
    let bytes = ip4.encode();
    let c = checksum(&bytes, bytes.len());
    assert_eq!(c, 0xE422);
    ip4.check = c;
    let filled = ip4.encode();
    assert_eq!(checksum(&filled, filled.len()), 0x0000);
}

#[test]
fn checksum_self_check_on_icmp_header() {
    let mut icmp = IcmpHeader { type_: 8, code: 0, check: 0, id: 0x1234, sq: 0x0001 };
    let bytes = icmp.encode();
    let c = checksum(&bytes, bytes.len());
    icmp.check = c;
    let filled = icmp.encode();
    assert_eq!(checksum(&filled, filled.len()), 0x0000);
}
