//! The response model: decoding a packet, emptiness, and the accessors.

use mdns::mdns::mDNSListener;
use mdns::net::IpAddress;
use mdns::net::Ipv4Address;
use mdns::net::Ipv6Address;
use mdns::DnsClass;
use mdns::Record;
use mdns::RecordKind;
use mdns::Response;
use mdns::TxtRecordValue;

fn record(name: &str, kind: RecordKind) -> Record {
    Record { name: name.to_string(), class: DnsClass::IN, ttl: 120, kind }
}

fn v4(a: u8, b: u8, c: u8, d: u8) -> RecordKind {
    RecordKind::A(Ipv4Address::new(a, b, c, d))
}

#[test]
fn is_empty_iff_all_sections_empty() {
    let empty = Response { answers: vec![], nameservers: vec![], additional: vec![] };
    assert!(empty.is_empty());

    let with_answer = Response {
        answers: vec![record("x.local", v4(1, 2, 3, 4))],
        nameservers: vec![],
        additional: vec![],
    };
    assert!(!with_answer.is_empty());

    let with_nameserver = Response {
        answers: vec![],
        nameservers: vec![record("x.local", RecordKind::NS("ns.local".to_string()))],
        additional: vec![],
    };
    assert!(!with_nameserver.is_empty());

    let with_additional = Response {
        answers: vec![],
        nameservers: vec![],
        additional: vec![record("x.local", v4(1, 2, 3, 4))],
    };
    assert!(!with_additional.is_empty());
}

#[test]
fn synthetic_a_record_round_trip() {
    // A DNS response encoding one A record binding "host.local" to 10.0.0.5:
    // header (id 0, response bit set, one answer), then the record.
    let mut bytes: Vec<u8> = vec![
        0x00, 0x00, // id
        0x80, 0x00, // flags: response
        0x00, 0x00, // questions
        0x00, 0x01, // answers
        0x00, 0x00, // nameservers
        0x00, 0x00, // additional
    ];
    bytes.extend_from_slice(&[4]);
    bytes.extend_from_slice(b"host");
    bytes.extend_from_slice(&[5]);
    bytes.extend_from_slice(b"local");
    bytes.extend_from_slice(&[0]);
    bytes.extend_from_slice(&[0x00, 0x01]); // type A
    bytes.extend_from_slice(&[0x00, 0x01]); // class IN
    bytes.extend_from_slice(&[0x00, 0x00, 0x00, 0x78]); // ttl 120
    bytes.extend_from_slice(&[0x00, 0x04]); // rdata length
    bytes.extend_from_slice(&[10, 0, 0, 5]);

    let packet = dns_parser::Packet::parse(&bytes).expect("the synthetic message decodes");
    let response = Response::from_packet(&packet);
    assert_eq!(response.answers.len(), 1);
    assert_eq!(response.answers[0].name, "host.local");
    assert_eq!(response.answers[0].class, DnsClass::IN);
    assert_eq!(response.answers[0].ttl, 120);
    assert_eq!(
        response.ip_addr(),
        Some(IpAddress::V4(Ipv4Address { octets: [10, 0, 0, 5] }))
    );
}

#[test]
fn decoding_through_the_listener_buffer() {
    let mut bytes: Vec<u8> = vec![
        0x00, 0x00, 0x80, 0x00, 0x00, 0x00, 0x00, 0x01, 0x00, 0x00, 0x00, 0x00,
    ];
    bytes.extend_from_slice(&[1]);
    bytes.extend_from_slice(b"a");
    bytes.extend_from_slice(&[0]);
    bytes.extend_from_slice(&[0x00, 0x01, 0x00, 0x01, 0x00, 0x00, 0x00, 0x01, 0x00, 0x04]);
    bytes.extend_from_slice(&[192, 168, 0, 9]);

    let mut buffer = bytes.clone();
    buffer.resize(4096, 0);
    let listener = mDNSListener { recv_buffer: buffer };
    let decoded = listener.handle_datagram(bytes.len()).expect("the datagram decodes");
    assert_eq!(
        decoded.ip_addr(),
        Some(IpAddress::V4(Ipv4Address { octets: [192, 168, 0, 9] }))
    );
    assert!(listener.handle_datagram(0).is_none());
}

#[test]
fn corrupted_datagram_is_skipped() {
    let mut buffer = vec![0xFF; 11];
    buffer.resize(4096, 0);
    let listener = mDNSListener { recv_buffer: buffer };
    assert!(listener.handle_datagram(11).is_none());
}

#[test]
fn ip_addr_takes_first_address_in_wire_order() {
    let response = Response {
        answers: vec![record("x.local", RecordKind::PTR("y.local".to_string()))],
        nameservers: vec![record(
            "x.local",
            RecordKind::AAAA(Ipv6Address { segments: [0x2001, 0, 0, 0, 0, 0, 0, 1] }),
        )],
        additional: vec![record("x.local", v4(10, 0, 0, 1))],
    };
    assert_eq!(
        response.ip_addr(),
        Some(IpAddress::V6(Ipv6Address { segments: [0x2001, 0, 0, 0, 0, 0, 0, 1] }))
    );
}

#[test]
fn hostname_takes_first_ptr_target() {
    let response = Response {
        answers: vec![record("x.local", v4(10, 0, 0, 1))],
        nameservers: vec![],
        additional: vec![record("x.local", RecordKind::PTR("host.x.local".to_string()))],
    };
    assert_eq!(response.hostname(), Some("host.x.local".to_string()));

    let without = Response { answers: vec![], nameservers: vec![], additional: vec![] };
    assert_eq!(without.hostname(), None);
}

#[test]
fn socket_address_needs_both_address_and_port() {
    let srv = RecordKind::SRV {
        priority: 0,
        weight: 0,
        port: 8009,
        target: "host.local".to_string(),
    };

    let with_both = Response {
        answers: vec![record("x.local", v4(10, 0, 0, 5)), record("x.local", srv.clone())],
        nameservers: vec![],
        additional: vec![],
    };
    let addr = with_both.socket_address().expect("address and port are both present");
    assert_eq!(addr.ip, IpAddress::V4(Ipv4Address { octets: [10, 0, 0, 5] }));
    assert_eq!(addr.port, 8009);

    let only_address = Response {
        answers: vec![record("x.local", v4(10, 0, 0, 5))],
        nameservers: vec![],
        additional: vec![],
    };
    assert!(only_address.socket_address().is_none());

    let only_port = Response {
        answers: vec![record("x.local", srv.clone())],
        nameservers: vec![],
        additional: vec![],
    };
    assert!(only_port.socket_address().is_none());
    assert_eq!(only_port.port(), Some(8009));
}

#[test]
fn records_flattens_sections_in_order() {
    let response = Response {
        answers: vec![record("a.local", v4(1, 1, 1, 1))],
        nameservers: vec![record("b.local", RecordKind::NS("ns.local".to_string()))],
        additional: vec![record("c.local", v4(2, 2, 2, 2))],
    };
    let all = response.records();
    assert_eq!(all.len(), 3);
    assert_eq!(all[0].name, "a.local");
    assert_eq!(all[1].name, "b.local");
    assert_eq!(all[2].name, "c.local");
}

#[test]
fn txt_records_flattens_every_txt_record() {
    let mut bytes: Vec<u8> = vec![
        0x00, 0x00, 0x80, 0x00, 0x00, 0x00, 0x00, 0x01, 0x00, 0x00, 0x00, 0x00,
    ];
    bytes.extend_from_slice(&[1]);
    bytes.extend_from_slice(b"t");
    bytes.extend_from_slice(&[0]);
    bytes.extend_from_slice(&[0x00, 0x10, 0x00, 0x01, 0x00, 0x00, 0x00, 0x01]); // TXT, IN, ttl 1
    let rdata: &[u8] = b"\x07passreq\x0cPlugIns=JPEG";
    bytes.extend_from_slice(&[0x00, rdata.len() as u8]);
    bytes.extend_from_slice(rdata);

    let packet = dns_parser::Packet::parse(&bytes).expect("the synthetic message decodes");
    let response = Response::from_packet(&packet);
    let pairs = response.txt_records();
    assert_eq!(pairs.len(), 2);
    assert_eq!(pairs[0].key.0, "passreq");
    assert_eq!(pairs[0].value, TxtRecordValue::Absent);
    assert_eq!(pairs[1].key.0, "PlugIns");
    assert_eq!(pairs[1].value, TxtRecordValue::Value(b"JPEG".to_vec()));
}

#[test]
fn dns_class_codes_round_trip() {
    assert_eq!(DnsClass::from_code(1), Some(DnsClass::IN));
    assert_eq!(DnsClass::from_code(2), Some(DnsClass::CS));
    assert_eq!(DnsClass::from_code(3), Some(DnsClass::CH));
    assert_eq!(DnsClass::from_code(4), Some(DnsClass::HS));
    assert_eq!(DnsClass::from_code(0), None);
    assert_eq!(DnsClass::from_code(5), None);
    assert_eq!(DnsClass::IN.code(), 1);
    assert_eq!(DnsClass::HS.code(), 4);
}
