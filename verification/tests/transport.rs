use ttxi::transport::{datagram_packets, parse_source, Source, Transport};

#[test]
fn udp_descriptor_names_a_datagram_source() {
    let source = parse_source(b"udp://0.0.0.0:19761");
    assert_eq!(source, Source { transport: Transport::Datagram, start: 6 });
    assert_eq!(&b"udp://0.0.0.0:19761"[source.start..], b"0.0.0.0:19761");
}

#[test]
fn tcp_descriptor_names_a_stream_source() {
    let source = parse_source(b"tcp://127.0.0.1:80");
    assert_eq!(source, Source { transport: Transport::Stream, start: 6 });
}

#[test]
fn anything_else_is_a_path() {
    assert_eq!(parse_source(b"capture.t42"), Source { transport: Transport::File, start: 0 });
    assert_eq!(parse_source(b""), Source { transport: Transport::File, start: 0 });
    assert_eq!(parse_source(b"udp:/"), Source { transport: Transport::File, start: 0 });
    assert_eq!(parse_source(b"UDP://1.2.3.4:5"), Source { transport: Transport::File, start: 0 });
    assert_eq!(parse_source(b"/tmp/udp://x"), Source { transport: Transport::File, start: 0 });
    assert_eq!(parse_source(b"tcp:/x"), Source { transport: Transport::File, start: 0 });
}

#[test]
fn bare_scheme_has_an_empty_address() {
    assert_eq!(parse_source(b"udp://"), Source { transport: Transport::Datagram, start: 6 });
    assert_eq!(parse_source(b"tcp://"), Source { transport: Transport::Stream, start: 6 });
}

#[test]
fn datagram_of_whole_packets_is_cut_up() {
    let mut datagram = Vec::new();
    for i in 0..126u8 {
        datagram.push(i);
    }
    let packets = datagram_packets(&datagram);
    assert_eq!(packets.len(), 3);
    for (n, packet) in packets.iter().enumerate() {
        for (i, byte) in packet.iter().enumerate() {
            assert_eq!(*byte as usize, n * 42 + i);
        }
    }
}

#[test]
fn datagram_of_one_packet() {
    let datagram = [7u8; 42];
    let packets = datagram_packets(&datagram);
    assert_eq!(packets, vec![[7u8; 42]]);
}

#[test]
fn datagram_with_a_partial_packet_is_discarded() {
    assert!(datagram_packets(&[1u8; 41]).is_empty());
    assert!(datagram_packets(&[1u8; 43]).is_empty());
    assert!(datagram_packets(&[1u8; 85]).is_empty());
    assert!(datagram_packets(&[1u8; 1]).is_empty());
}

#[test]
fn empty_datagram_has_no_packets() {
    assert!(datagram_packets(&[]).is_empty());
}
