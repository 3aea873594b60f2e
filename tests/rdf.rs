use rignite::error::FwError;
use rignite::rdf::{check_image, download_mock, find_magic, MockDataSource, RdfHeader, RdfReceiver, RdfStep};
use sha2::{Digest, Sha256};

fn frame(image: &[u8], checksum: [u8; 32]) -> Vec<u8> {
    let mut v = b"RDF!".to_vec();
    v.extend_from_slice(&(image.len() as u64).to_le_bytes());
    v.extend_from_slice(&checksum);
    let mut target = [0u8; 64];
    target[..5].copy_from_slice(b"@core");
    v.extend_from_slice(&target);
    v.extend_from_slice(&[0u8; 20]);
    v.extend_from_slice(image);
    v
}

fn sha(b: &[u8]) -> [u8; 32] {
    Sha256::digest(b).into()
}

#[test]
fn rdf_happy_path() {
    let stream = frame(b"hello", sha(b"hello"));
    let mut rx = RdfReceiver::new();
    assert_eq!(rx.next_read(), (65536, 1000));
    match rx.on_packet(&stream) {
        RdfStep::Complete(img) => assert_eq!(img, b"hello"),
        _ => panic!("expected the image"),
    }
    assert!(rx.is_finished());
}

#[test]
fn rdf_checksum_mismatch() {
    let stream = frame(b"hello", [0u8; 32]);
    let mut rx = RdfReceiver::new();
    assert!(matches!(rx.on_packet(&stream), RdfStep::Fail(FwError::CrcError)));
    assert!(rx.is_finished());
    assert_eq!(rx.received(), 0);
}

#[test]
fn rdf_round_trip_over_many_packets() {
    let image: Vec<u8> = (0..200_000u32).map(|i| (i * 7 % 251) as u8).collect();
    let stream = frame(&image, sha(&image));
    let mut rx = RdfReceiver::new();
    let mut pos = 0;
    let mut result = None;
    while pos < stream.len() {
        let (want, _) = rx.next_read();
        let end = (pos + want).min(stream.len());
        // hand out shorter packets than asked for now and then
        let end = if end - pos > 1000 && pos % 3 == 0 { pos + 1000 } else { end };
        match rx.on_packet(&stream[pos..end]) {
            RdfStep::Continue => {}
            RdfStep::Complete(img) => {
                result = Some(img);
                pos = end;
                break;
            }
            _ => panic!("unexpected step"),
        }
        pos = end;
    }
    assert_eq!(pos, stream.len());
    assert_eq!(result.unwrap(), image);
}

#[test]
fn rdf_header_found_after_noise() {
    let mut packet = vec![0x11u8; 300];
    packet.extend_from_slice(&frame(b"abc", sha(b"abc")));
    assert_eq!(find_magic(&packet), Some(300));
    let mut rx = RdfReceiver::new();
    assert!(matches!(rx.on_packet(&packet), RdfStep::Complete(ref i) if i == b"abc"));
}

#[test]
fn rdf_streaming_asks_for_what_is_left() {
    let image = vec![5u8; 70_000];
    let stream = frame(&image, sha(&image));
    let mut rx = RdfReceiver::new();
    assert!(matches!(rx.on_packet(&stream[..200]), RdfStep::Continue));
    assert!(!rx.is_scanning());
    assert_eq!(rx.received(), 72);
    assert_eq!(rx.image_size(), 70_000);
    assert_eq!(rx.next_read(), (65536, 5000));
    assert!(matches!(rx.on_packet(&stream[200..200 + 65536]), RdfStep::Continue));
    assert_eq!(rx.next_read(), (70_000 - 72 - 65536, 5000));
    assert!(matches!(rx.on_packet(&stream[200 + 65536..]), RdfStep::Complete(_)));
}

#[test]
fn rdf_magic_near_end_of_packet_is_found_but_header_split() {
    let mut packet = vec![0u8; 65536];
    packet[65532..65536].copy_from_slice(b"RDF!");
    assert_eq!(find_magic(&packet), Some(65532));
    let mut rx = RdfReceiver::new();
    assert!(matches!(rx.on_packet(&packet), RdfStep::Fail(FwError::ProtocolError)));
}

#[test]
fn rdf_magic_across_packets_is_a_protocol_fault() {
    let mut first = vec![0u8; 65536];
    first[65534] = b'R';
    first[65535] = b'D';
    let mut second = b"F!".to_vec();
    second.extend_from_slice(&[0u8; 200]);
    let mut rx = RdfReceiver::new();
    assert!(matches!(rx.on_packet(&first), RdfStep::Continue));
    assert!(matches!(rx.on_packet(&second), RdfStep::Fail(FwError::ProtocolError)));
}

#[test]
fn rdf_zero_length_packet_is_try_again() {
    let mut rx = RdfReceiver::new();
    assert!(matches!(rx.on_packet(&[]), RdfStep::Continue));
    assert!(rx.is_scanning());
    let stream = frame(b"hello", sha(b"hello"));
    assert!(matches!(rx.on_packet(&stream[..130]), RdfStep::Continue));
    assert!(matches!(rx.on_packet(&[]), RdfStep::Continue));
    assert_eq!(rx.received(), 2);
    assert!(!rx.is_finished());
    assert!(matches!(rx.on_packet(&stream[130..]), RdfStep::Complete(ref i) if i == b"hello"));
}

#[test]
fn rdf_retries_then_end_of_file() {
    let stream = frame(b"hello", sha(b"hello"));
    let mut rx = RdfReceiver::new();
    assert!(matches!(rx.on_error(FwError::Timeout), RdfStep::Continue));
    assert!(matches!(rx.on_packet(&stream[..128]), RdfStep::Continue));
    for _ in 0..4 {
        assert!(matches!(rx.on_error(FwError::DeviceError), RdfStep::Stall(50_000)));
    }
    assert!(matches!(rx.on_error(FwError::Timeout), RdfStep::Fail(FwError::EndOfFile)));
}

#[test]
fn rdf_success_resets_retries() {
    let stream = frame(b"hello", sha(b"hello"));
    let mut rx = RdfReceiver::new();
    assert!(matches!(rx.on_packet(&stream[..128]), RdfStep::Continue));
    for _ in 0..4 {
        assert!(matches!(rx.on_error(FwError::DeviceError), RdfStep::Stall(_)));
    }
    assert!(matches!(rx.on_packet(&stream[128..130]), RdfStep::Continue));
    for _ in 0..4 {
        assert!(matches!(rx.on_error(FwError::DeviceError), RdfStep::Stall(_)));
    }
    assert!(matches!(rx.on_packet(&stream[130..]), RdfStep::Complete(_)));
}

#[test]
fn rdf_scanning_errors_are_retried_five_times() {
    let mut rx = RdfReceiver::new();
    for _ in 0..4 {
        assert!(matches!(rx.on_error(FwError::DeviceError), RdfStep::Stall(50_000)));
    }
    assert!(matches!(rx.on_error(FwError::DeviceError), RdfStep::Fail(FwError::DeviceError)));
}

#[test]
fn rdf_zero_length_read_uses_no_retry() {
    let stream = frame(b"hello", sha(b"hello"));
    let mut rx = RdfReceiver::new();
    assert!(matches!(rx.on_packet(&stream[..128]), RdfStep::Continue));
    for _ in 0..4 {
        assert!(matches!(rx.on_error(FwError::DeviceError), RdfStep::Stall(_)));
        assert!(matches!(rx.on_packet(&[]), RdfStep::Continue));
    }
    assert!(matches!(rx.on_error(FwError::DeviceError), RdfStep::Fail(FwError::EndOfFile)));
}

#[test]
fn mock_download_returns_pattern_after_header() {
    let mut src = MockDataSource::new();
    let (size, image) = download_mock(&mut src).unwrap();
    assert_eq!(size, 1024 * 1024);
    assert_eq!(image.len(), 1024 * 1024);
    assert_eq!(image[0], 0);
    assert_eq!(image[256], 1);
    let mut buf = [0u8; 4];
    assert_eq!(src.read(&mut buf), 0);
}

#[test]
fn rdf_empty_image() {
    let stream = frame(b"", sha(b""));
    let mut rx = RdfReceiver::new();
    assert!(matches!(rx.on_packet(&stream), RdfStep::Complete(ref i) if i.is_empty()));
}

#[test]
fn check_image_compares_digests() {
    let d = sha(b"x");
    assert_eq!(check_image(b"x".to_vec(), &d, &d).unwrap(), b"x");
    assert!(matches!(check_image(b"x".to_vec(), &d, &[0u8; 32]), Err(FwError::CrcError)));
}

#[test]
fn header_parse_and_validity() {
    let stream = frame(b"hello", sha(b"hello"));
    let h = RdfHeader::parse(&stream, 0);
    assert!(h.is_valid());
    let size = h.image_size;
    assert_eq!(size, 5);
    assert_eq!(h.checksum, sha(b"hello"));
    assert_eq!(&h.target_subvolume[..6], b"@core\0");
    assert!(!RdfHeader::default().is_valid());
}

#[test]
fn mock_source_streams_its_header_and_pattern() {
    let mut src = MockDataSource::new();
    let mut head = [0u8; 128];
    assert_eq!(src.read(&mut head), 128);
    let h = RdfHeader::parse(&head, 0);
    assert!(h.is_valid());
    let size = h.image_size;
    assert_eq!(size, 1024 * 1024);
    assert_eq!(h.checksum, [0xAA; 32]);
    let mut buf = vec![0u8; 1024];
    assert_eq!(src.read(&mut buf), 1024);
    assert_eq!(buf[0], 0);
    assert_eq!(buf[254], 254);
    assert_eq!(buf[255], 0);
    let mut total = 1024;
    loop {
        let n = src.read(&mut buf);
        if n == 0 {
            break;
        }
        total += n;
    }
    assert_eq!(total, 1024 * 1024);
}
