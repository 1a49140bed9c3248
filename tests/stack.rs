use packet_layers::ethernet::Ethernet;
use packet_layers::ipv4::Ipv4;
use packet_layers::layer::{Layer, Layers, SerializeError};
use packet_layers::payload::Payload;
use packet_layers::stack::serialize_layers;
use packet_layers::tcp::Tcp;
use packet_layers::udp::Udp;

fn udp_packet() -> Vec<Layers> {
    vec![
        Layers::Ethernet(Ethernet::new([0xBB; 6], [0xAA; 6], 0x0800)),
        Layers::Ipv4(Ipv4::new([10, 0, 0, 1], [10, 0, 0, 2], 17)),
        Layers::Udp(Udp::new(1234, 53)),
        Layers::Payload(Payload::new((0u8..20).collect())),
    ]
}

fn be16_at(buf: &[u8], at: usize) -> u16 {
    ((buf[at] as u16) << 8) | buf[at + 1] as u16
}

#[test]
fn length_fields_are_fixed_up() {
    let layers = udp_packet();
    let mut buf = vec![0u8; 100];
    let r = serialize_layers(&layers, &mut buf);
    assert_eq!(r, Ok(62));
    let ip_size = layers[1].get_size();
    let udp_size = layers[2].get_size();
    assert_eq!(be16_at(&buf, 16) as usize, ip_size + udp_size + 20);
    assert_eq!(be16_at(&buf, 38) as usize, udp_size + 20);
    assert_eq!(be16_at(&buf, 16), 48);
    assert_eq!(be16_at(&buf, 38), 28);
}

#[test]
fn stack_bytes_are_laid_out_in_order() {
    let layers = udp_packet();
    let mut buf = vec![0xEEu8; 70];
    assert_eq!(serialize_layers(&layers, &mut buf), Ok(62));
    assert_eq!(&buf[0..6], &[0xBB; 6]);
    assert_eq!(&buf[6..12], &[0xAA; 6]);
    assert_eq!(&buf[12..14], &[0x08, 0x00]);
    assert_eq!(buf[14], 0x45);
    assert_eq!(buf[22], 64);
    assert_eq!(buf[23], 17);
    assert_eq!(&buf[26..30], &[10, 0, 0, 1]);
    assert_eq!(&buf[30..34], &[10, 0, 0, 2]);
    assert_eq!(be16_at(&buf, 34), 1234);
    assert_eq!(be16_at(&buf, 36), 53);
    let payload: Vec<u8> = (0u8..20).collect();
    assert_eq!(&buf[42..62], &payload[..]);
    assert!(buf[62..].iter().all(|&b| b == 0xEE));
}

#[test]
fn one_byte_short_fails_without_writing() {
    let layers = udp_packet();
    let total: usize = layers.iter().map(|l| l.get_size()).sum();
    let mut buf = vec![0x5Au8; total - 1];
    let r = serialize_layers(&layers, &mut buf);
    assert_eq!(r, Err(SerializeError::BufferTooSmallError));
    assert!(buf.iter().all(|&b| b == 0x5A));
}

#[test]
fn exact_fit_succeeds() {
    let layers = udp_packet();
    let mut buf = vec![0u8; 62];
    assert_eq!(serialize_layers(&layers, &mut buf), Ok(62));
}

#[test]
fn empty_stack_writes_nothing() {
    let layers: Vec<Layers> = Vec::new();
    let mut empty: Vec<u8> = Vec::new();
    assert_eq!(serialize_layers(&layers, &mut empty), Ok(0));
    let mut buf = vec![7u8; 4];
    assert_eq!(serialize_layers(&layers, &mut buf), Ok(0));
    assert_eq!(buf, vec![7u8; 4]);
}

#[test]
fn regions_are_contiguous_and_disjoint() {
    let layers = udp_packet();
    let mut offset = 0usize;
    let mut regions = Vec::new();
    for l in &layers {
        regions.push((offset, offset + l.get_size()));
        offset += l.get_size();
    }
    assert_eq!(regions, vec![(0, 14), (14, 34), (34, 42), (42, 62)]);
    let mut buf = vec![0u8; offset];
    assert_eq!(serialize_layers(&layers, &mut buf), Ok(offset));
    // Each layer's own serialization matches its region of the stack.
    let mut eth = vec![0u8; 14];
    assert_eq!(layers[0].serialize(&mut eth), Ok(14));
    assert_eq!(&buf[0..14], &eth[..]);
    let mut udp = vec![0u8; 8];
    assert_eq!(layers[2].serialize_n(&mut udp, 28), Ok(8));
    assert_eq!(&buf[34..42], &udp[..]);
}

#[test]
fn reordering_keeps_sizes() {
    let layers = udp_packet();
    let mut reversed = layers.clone();
    reversed.reverse();
    let sizes: Vec<usize> = layers.iter().map(|l| l.get_size()).collect();
    let rsizes: Vec<usize> = reversed.iter().rev().map(|l| l.get_size()).collect();
    assert_eq!(sizes, rsizes);
    let mut a = vec![0u8; 62];
    let mut b = vec![0u8; 62];
    assert_eq!(serialize_layers(&layers, &mut a), Ok(62));
    assert_eq!(serialize_layers(&reversed, &mut b), Ok(62));
    // The UDP header now encapsulates the IPv4 and Ethernet headers too.
    assert_eq!(be16_at(&b, 24), 8 + 20 + 14);
}

#[test]
fn tcp_stack_keeps_tcp_fields() {
    let layers = vec![
        Layers::Ipv4(Ipv4::new([1, 2, 3, 4], [5, 6, 7, 8], 6)),
        Layers::Tcp(Tcp::new(80, 8080, 0x12)),
    ];
    let mut buf = vec![0u8; 40];
    assert_eq!(serialize_layers(&layers, &mut buf), Ok(40));
    assert_eq!(be16_at(&buf, 2), 40);
    assert_eq!(be16_at(&buf, 20), 80);
    assert_eq!(be16_at(&buf, 22), 8080);
    assert_eq!(buf[32], 0x50);
    assert_eq!(buf[33], 0x12);
    assert_eq!(be16_at(&buf, 34), 0xffff);
}
