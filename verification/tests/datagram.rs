use moblink_rust::address::Ipv4Address;
use moblink_rust::datagram::{read_datagram, PacketBuilder};

fn builder() -> PacketBuilder {
    PacketBuilder::new(
        Ipv4Address::new(172, 16, 0, 9),
        5000,
        Ipv4Address::new(10, 3, 3, 1),
        10000,
    )
}

#[test]
fn a_packet_is_laid_out_as_ipv4_and_udp() {
    let data = builder().pack(b"hello").unwrap();
    assert_eq!(data.len(), 33);
    assert_eq!(&data[0..4], &[0x45, 0, 0, 33]);
    assert_eq!(&data[4..10], &[0, 0, 0, 0, 0, 17]);
    assert_eq!(&data[12..16], &[172, 16, 0, 9]);
    assert_eq!(&data[16..20], &[10, 3, 3, 1]);
    assert_eq!(&data[20..26], &[0x13, 0x88, 0x27, 0x10, 0, 13]);
    assert_eq!(&data[28..], b"hello");
}

fn ones_sum(words: &[u8]) -> u32 {
    let mut sum: u32 = 0;
    let mut i = 0;
    while i + 1 < words.len() {
        sum += u32::from(words[i]) * 256 + u32::from(words[i + 1]);
        i += 2;
    }
    while sum > 0xffff {
        sum = (sum & 0xffff) + (sum >> 16);
    }
    sum
}

#[test]
fn the_header_checksum_is_right() {
    let data = builder().pack(b"hello!").unwrap();
    assert_eq!(ones_sum(&data[0..20]), 0xffff);
}

#[test]
fn the_checksums_are_written() {
    let empty = builder().pack(b"").unwrap();
    assert_eq!(&empty[10..12], &[0x01, 0xb5]);
    assert_eq!(&empty[26..28], &[0x0c, 0x29]);
    let even = builder().pack(b"hello!").unwrap();
    assert_eq!(&even[10..12], &[0x01, 0xaf]);
    assert_eq!(&even[26..28], &[0xc8, 0x29]);
    let odd = builder().pack(b"hello").unwrap();
    assert_eq!(&odd[10..12], &[0x01, 0xb0]);
    assert_eq!(&odd[26..28], &[0x37, 0x4d]);
}

/// The sum that a datagram's checksum brings to zero: with the two addresses,
/// the protocol and the length.
fn datagram_sum(data: &[u8]) -> u32 {
    let mut words: Vec<u8> = data[12..20].to_vec();
    words.extend_from_slice(&[0, 17]);
    words.extend_from_slice(&data[24..26]);
    words.extend_from_slice(&data[20..]);
    ones_sum(&words)
}

#[test]
fn the_datagram_checksum_leaves_an_odd_byte_out() {
    for length in 0..40usize {
        let payload: Vec<u8> = (0..length).map(|i| (i * 37 % 251) as u8).collect();
        let data = builder().pack(&payload).unwrap();
        assert_eq!(datagram_sum(&data), 0xffff);
        assert_eq!(ones_sum(&data[0..20]), 0xffff);
        assert_ne!(&data[26..28], &[0xff, 0xff]);
    }
}

#[test]
fn lengths_that_do_not_fit_are_cut() {
    let data = builder().pack(&[1u8; 65536]).unwrap();
    assert_eq!(data.len(), 65564);
    assert_eq!(&data[2..4], &[0, 28]);
    assert_eq!(&data[24..26], &[0, 8]);
    assert_eq!(ones_sum(&data[0..20]), 0xffff);
    assert_eq!(datagram_sum(&data), 0xffff);
}

#[test]
fn a_packed_payload_reads_back() {
    for payload in [&b""[..], &b"x"[..], &[7u8; 1500][..], &[9u8; 65507][..]] {
        let data = builder().pack(payload).unwrap();
        let datagram = read_datagram(&data).unwrap();
        assert_eq!(datagram.destination, Ipv4Address::new(10, 3, 3, 1));
        assert_eq!(datagram.source_port, 5000);
        assert_eq!(datagram.payload, payload);
    }
}

#[test]
fn what_stands_after_the_packet_is_left_out() {
    let mut data = builder().pack(b"hello").unwrap();
    data.extend_from_slice(b"trailer");
    assert_eq!(read_datagram(&data).unwrap().payload, b"hello");
}

#[test]
fn other_packets_carry_no_datagram() {
    let data = builder().pack(b"hello").unwrap();
    let mut tcp = data.clone();
    tcp[9] = 6;
    assert!(read_datagram(&tcp).is_none());
    let mut v6 = data.clone();
    v6[0] = 0x60;
    assert!(read_datagram(&v6).is_none());
    let mut v5 = data.clone();
    v5[0] = 0x55;
    assert!(read_datagram(&v5).is_none());
    assert!(read_datagram(&data[..19]).is_none());
    assert!(read_datagram(&data[..32]).is_none());
    assert!(read_datagram(&[0x45]).is_none());
    let mut long_udp = data.clone();
    long_udp[25] = 14;
    assert!(read_datagram(&long_udp).is_none());
}

#[test]
fn options_in_the_header_are_skipped() {
    let plain = builder().pack(b"hi").unwrap();
    let mut data = plain[..20].to_vec();
    data[0] = 0x46;
    data[3] = 34;
    data.extend_from_slice(&[1, 1, 1, 1]);
    data.extend_from_slice(&plain[20..]);
    let datagram = read_datagram(&data).unwrap();
    assert_eq!(datagram.payload, b"hi");
    assert_eq!(datagram.source_port, 5000);
}
