use curuam::{Handle, Ipv4, Ipv6, Mac, IPV4_LEN, IPV6_LEN, MAC_LEN};

#[test]
fn ipv4_byte_round_trip() {
    let bytes: [u8; IPV4_LEN] = [192, 168, 1, 1];
    let ip: Ipv4 = Handle::from(bytes);
    let out: [u8; IPV4_LEN] = ip.to();
    assert_eq!(out, bytes);

    let odd: [u8; IPV4_LEN] = [0, 255, 7, 13];
    let out2: [u8; IPV4_LEN] = <Ipv4 as Handle<[u8; IPV4_LEN]>>::to(&Handle::from(odd));
    assert_eq!(out2, odd);
}

#[test]
fn ipv4_u32_round_trip() {
    let ip: Ipv4 = Handle::from([192, 168, 1, 1]);
    let v: u32 = ip.to();
    let again: Ipv4 = Handle::from(v);
    let v2: u32 = again.to();
    assert_eq!(v2, v);

    let from_int: Ipv4 = Handle::from(0x01020304u32);
    let octets: [u8; IPV4_LEN] = from_int.to();
    assert_eq!(octets, [1, 2, 3, 4]);
}

#[test]
fn ipv4_u32_value() {
    let ip: Ipv4 = Handle::from([192, 168, 1, 1]);
    let v: u32 = ip.to();
    assert_eq!(v, 0xC0A80101);
}

#[test]
fn ipv6_byte_round_trip() {
    let mut bytes: [u8; IPV6_LEN] = [0; IPV6_LEN];
    for (i, b) in bytes.iter_mut().enumerate() {
        *b = (17 * i) as u8;
    }
    let ip: Ipv6 = Handle::from(bytes);
    let out: [u8; IPV6_LEN] = ip.to();
    assert_eq!(out, bytes);

    let zero: Ipv6 = Handle::from([0; IPV6_LEN]);
    let out0: [u8; IPV6_LEN] = zero.to();
    assert_eq!(out0, [0; IPV6_LEN]);
}

#[test]
fn mac_byte_round_trip() {
    let bytes: [u8; MAC_LEN] = [0xde, 0xad, 0xbe, 0xef, 0x00, 0x42];
    let mac: Mac = Handle::from(bytes);
    let out: [u8; MAC_LEN] = mac.to();
    assert_eq!(out, bytes);

    let all: Mac = Handle::from([0xff; MAC_LEN]);
    let out2: [u8; MAC_LEN] = all.to();
    assert_eq!(out2, [0xff; MAC_LEN]);
}

#[test]
fn mac_renders_without_padding() {
    let mac: Mac = Handle::from([0, 1, 2, 3, 4, 5]);
    assert_eq!(mac.to_string(), "0:1:2:3:4:5");

    let all: Mac = Handle::from([0xff; MAC_LEN]);
    assert_eq!(all.to_string(), "ff:ff:ff:ff:ff:ff");

    let mixed: Mac = Handle::from([0x0f, 0x10, 0xa0, 0x09, 0x7b, 0xcd]);
    assert_eq!(mixed.to_string(), "f:10:a0:9:7b:cd");
}

#[test]
fn ipv4_renders_as_decimal_octets() {
    let ip: Ipv4 = Handle::from([192, 168, 1, 1]);
    assert_eq!(ip.to_string(), "192.168.1.1");

    let edges: Ipv4 = Handle::from([0, 9, 10, 255]);
    assert_eq!(edges.to_string(), "0.9.10.255");
}

#[test]
fn addresses_clone_by_value() {
    let ip: Ipv4 = Handle::from([10, 0, 0, 1]);
    let copy = ip.clone();
    let a: [u8; IPV4_LEN] = ip.to();
    let b: [u8; IPV4_LEN] = copy.to();
    assert_eq!(a, b);

    let mac: Mac = Handle::from([1, 2, 3, 4, 5, 6]);
    let mac_copy = mac.clone();
    let ma: [u8; MAC_LEN] = mac.to();
    let mb: [u8; MAC_LEN] = mac_copy.to();
    assert_eq!(ma, mb);

    let ip6: Ipv6 = Handle::from([7; IPV6_LEN]);
    let ip6_copy = ip6.clone();
    let sa: [u8; IPV6_LEN] = ip6.to();
    let sb: [u8; IPV6_LEN] = ip6_copy.to();
    assert_eq!(sa, sb);
}
