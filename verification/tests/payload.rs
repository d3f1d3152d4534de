use pistol::nsp_parser;
use pistol::service::identify::decode_response;
use pistol::service::payload::{probe_payload, udp_payload_for};

fn lines(text: &[&str]) -> Vec<String> {
    text.iter().map(|s| s.to_string()).collect()
}

#[test]
fn escapes_stand_for_bytes() {
    assert_eq!(probe_payload(""), Some(vec![]));
    assert_eq!(probe_payload("GET / HTTP/1.0\\r\\n\\r\\n"), Some(b"GET / HTTP/1.0\r\n\r\n".to_vec()));
    assert_eq!(
        probe_payload("\\0\\x06\\x01\\0\\0\\x01\\0\\0\\0\\0\\0\\0\\x07version\\x04bind\\0\\0\\x10\\0\\x03"),
        Some(b"\0\x06\x01\0\0\x01\0\0\0\0\0\0\x07version\x04bind\0\0\x10\0\x03".to_vec())
    );
    assert_eq!(
        probe_payload("\\\\\\0\\a\\b\\t\\n\\v\\f\\r"),
        Some(vec![0x5c, 0, 7, 8, 9, 10, 11, 12, 13])
    );
    assert_eq!(probe_payload("\\x00\\xff\\xAb\\xaB\\x7F"), Some(vec![0, 0xff, 0xab, 0xab, 0x7f]));
    assert_eq!(probe_payload("\u{e9}\u{ff}"), Some(vec![0xe9, 0xff]));
    assert_eq!(probe_payload("x\\x41y"), Some(b"xAy".to_vec()));
}

#[test]
fn malformed_escapes_are_refused() {
    for bad in ["\\", "a\\", "\\q", "\\x", "\\x4", "\\x4g", "\\xg4", "\\X41", "\u{100}", "ok\u{20ac}", "\\1", "\\e"] {
        assert_eq!(probe_payload(bad), None, "{:?}", bad);
    }
}

#[test]
fn udp_payload_is_drawn_from_the_database() {
    let db = nsp_parser(&lines(&[
        "Probe TCP GetRequest q|GET / HTTP/1.0\\r\\n\\r\\n|",
        "ports 53,80",
        "Probe UDP Help q|help\\r\\n\\r\\n| no-payload",
        "ports 53",
        "Probe UDP Bare q|bare|",
        "Probe UDP DNSVersionBindReq q|\\0\\x06\\x01\\0|",
        "ports 53,1967,2967",
        "Probe UDP DNSStatusRequest q|\\0\\0\\x10\\0|",
        "ports 53,69,135,1761",
        "Probe UDP Broken q|\\q|",
        "ports 7",
    ])).0;
    assert_eq!(udp_payload_for(&db, 53), vec![0, 6, 1, 0]);
    assert_eq!(udp_payload_for(&db, 2967), vec![0, 6, 1, 0]);
    assert_eq!(udp_payload_for(&db, 69), vec![0, 0, 0x10, 0]);
    assert_eq!(udp_payload_for(&db, 80), Vec::<u8>::new());
    assert_eq!(udp_payload_for(&db, 7), Vec::<u8>::new());
    assert_eq!(udp_payload_for(&db, 1), Vec::<u8>::new());
    assert_eq!(udp_payload_for(&[], 53), Vec::<u8>::new());
}

#[test]
fn responses_are_decoded_without_loss() {
    assert_eq!(decode_response(b""), "");
    assert_eq!(decode_response(b"SSH-2.0-OpenSSH_8.9p1 Ubuntu-3\r\n"), "SSH-2.0-OpenSSH_8.9p1 Ubuntu-3\r\n");
    assert_eq!(decode_response(&[0, 0x7f, 0x80, 0xe9, 0xff]), "\0\u{7f}\u{80}\u{e9}\u{ff}");
    let all: Vec<u8> = (0..=255).collect();
    let text = decode_response(&all);
    assert_eq!(text.chars().count(), 256);
    assert!(text.chars().enumerate().all(|(i, c)| c as usize == i));
}
