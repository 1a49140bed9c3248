use packet_layers::arp::Arp;
use packet_layers::ethernet::Ethernet;
use packet_layers::ipv4::{checksum, Ipv4};
use packet_layers::layer::{Layer, LayerType, Layers, SerializeError};
use packet_layers::payload::Payload;
use packet_layers::tcp::Tcp;
use packet_layers::udp::Udp;

fn all_layers() -> Vec<Layers> {
    vec![
        Layers::Ethernet(Ethernet::new([1; 6], [2; 6], 0x0806)),
        Layers::Arp(Arp::new(1, [2; 6], [192, 168, 0, 1], [0; 6], [192, 168, 0, 2])),
        Layers::Ipv4(Ipv4::new([1, 1, 1, 1], [2, 2, 2, 2], 17)),
        Layers::Tcp(Tcp::new(1, 2, 0x02)),
        Layers::Udp(Udp::new(3, 4)),
        Layers::Payload(Payload::new(vec![9, 8, 7])),
    ]
}

#[test]
fn sizes_of_each_layer() {
    let sizes: Vec<usize> = all_layers().iter().map(|l| l.get_size()).collect();
    assert_eq!(sizes, vec![14, 28, 20, 20, 8, 3]);
}

#[test]
fn size_query_is_stable() {
    for l in all_layers() {
        assert_eq!(l.get_size(), l.get_size());
    }
}

#[test]
fn serialize_writes_exactly_its_size() {
    for l in all_layers() {
        let size = l.get_size();
        let mut buf = vec![0xCCu8; size + 5];
        assert_eq!(l.serialize(&mut buf), Ok(size));
        assert!(buf[size..].iter().all(|&b| b == 0xCC));
        let mut buf = vec![0xCCu8; size + 5];
        assert_eq!(l.serialize_n(&mut buf, size + 100), Ok(size));
        assert!(buf[size..].iter().all(|&b| b == 0xCC));
    }
}

#[test]
fn short_buffer_is_refused() {
    for l in all_layers() {
        let size = l.get_size();
        let mut buf = vec![0x11u8; size - 1];
        assert_eq!(l.serialize(&mut buf), Err(SerializeError::BufferTooSmallError));
        assert_eq!(
            l.serialize_n(&mut buf, size),
            Err(SerializeError::BufferTooSmallError)
        );
        assert!(buf.iter().all(|&b| b == 0x11));
    }
}

#[test]
fn encapsulated_size_below_own_size_is_refused() {
    for l in all_layers() {
        let size = l.get_size();
        let mut buf = vec![0u8; size];
        assert_eq!(
            l.serialize_n(&mut buf, size - 1),
            Err(SerializeError::LengthTooSmallError)
        );
        assert!(buf.iter().all(|&b| b == 0));
    }
}

#[test]
fn tags_and_names() {
    let tags: Vec<LayerType> = all_layers().iter().map(|l| l.get_type()).collect();
    assert_eq!(
        tags,
        vec![
            LayerType::ethernet(),
            LayerType::arp(),
            LayerType::ipv4(),
            LayerType::tcp(),
            LayerType::udp(),
            LayerType::payload()
        ]
    );
    let names: Vec<&str> = tags.iter().map(|t| t.name()).collect();
    assert_eq!(names, vec!["Ethernet", "ARP", "IPv4", "TCP", "UDP", "Payload"]);
    assert_eq!(LayerType(9).name(), "unknown");
    assert_eq!(LayerType::udp(), LayerType(4));
}

#[test]
fn error_messages() {
    assert_eq!(SerializeError::BufferTooSmallError.message(), "buffer too small");
    assert_eq!(
        SerializeError::LengthTooSmallError.message(),
        "encapsulated length too small"
    );
}

#[test]
fn ipv4_alone_writes_its_stored_length() {
    let mut ip = Ipv4::new([1, 2, 3, 4], [5, 6, 7, 8], 6);
    ip.total_length = 0x1234;
    let mut buf = vec![0u8; 20];
    assert_eq!(ip.serialize(&mut buf), Ok(20));
    assert_eq!(&buf[2..4], &[0x12, 0x34]);
    assert_eq!(ip.serialize_n(&mut buf, 0x1_0005), Ok(20));
    assert_eq!(&buf[2..4], &[0x00, 0x05]);
}

#[test]
fn udp_length_follows_encapsulated_size() {
    let u = Udp::new(0x0102, 0x0304);
    let mut buf = vec![0u8; 8];
    assert_eq!(u.serialize_n(&mut buf, 300), Ok(8));
    assert_eq!(buf, vec![1, 2, 3, 4, 0x01, 0x2C, 0, 0]);
    assert_eq!(u.serialize(&mut buf), Ok(8));
    assert_eq!(buf, vec![1, 2, 3, 4, 0, 0, 0, 0]);
}

#[test]
fn arp_bytes() {
    let a = Arp::new(2, [0xA; 6], [1, 2, 3, 4], [0xB; 6], [5, 6, 7, 8]);
    let mut buf = vec![0u8; 28];
    assert_eq!(a.serialize(&mut buf), Ok(28));
    assert_eq!(&buf[0..8], &[0, 1, 8, 0, 6, 4, 0, 2]);
    assert_eq!(&buf[8..14], &[0xA; 6]);
    assert_eq!(&buf[14..18], &[1, 2, 3, 4]);
    assert_eq!(&buf[18..24], &[0xB; 6]);
    assert_eq!(&buf[24..28], &[5, 6, 7, 8]);
}

#[test]
fn empty_payload_into_empty_buffer() {
    let p = Payload::new(Vec::new());
    let mut buf: Vec<u8> = Vec::new();
    assert_eq!(p.serialize(&mut buf), Ok(0));
    assert_eq!(p.serialize_n(&mut buf, 0), Ok(0));
}

#[test]
fn ipv4_checksum_of_known_header() {
    let mut ip = Ipv4::new([192, 168, 0, 1], [192, 168, 0, 199], 0x11);
    ip.total_length = 0x73;
    ip.flags_fragment = 0x4000;
    ip.ttl = 0x40;
    let mut buf = vec![0u8; 20];
    assert_eq!(ip.serialize(&mut buf), Ok(20));
    assert_eq!(&buf[10..12], &[0xB8, 0x61]);
    let words: Vec<u16> = buf.chunks(2).map(|c| ((c[0] as u16) << 8) | c[1] as u16).collect();
    assert_eq!(checksum(&words), 0);
}

#[test]
fn ipv4_checksum_follows_fixed_up_length() {
    let mut ip = Ipv4::new([192, 168, 0, 1], [192, 168, 0, 199], 0x11);
    ip.flags_fragment = 0x4000;
    ip.ttl = 0x40;
    let mut buf = vec![0u8; 20];
    assert_eq!(ip.serialize_n(&mut buf, 0x73), Ok(20));
    assert_eq!(&buf[2..4], &[0x00, 0x73]);
    assert_eq!(&buf[10..12], &[0xB8, 0x61]);
}

#[test]
fn checksum_with_carry() {
    assert_eq!(checksum(&[]), 0xFFFF);
    assert_eq!(checksum(&[0xFFFF, 0x0001]), 0xFFFE);
    assert_eq!(checksum(&[0x1234]), !0x1234);
}
