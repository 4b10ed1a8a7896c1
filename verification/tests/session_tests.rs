//! The discovery session: query building and cadence, the output filter, and
//! the listener's terminal-failure behaviour.

use mdns::discover::all;
use mdns::discover::interface;
use mdns::discover::EngineAction;
use mdns::mdns::check_service_name;
use mdns::mdns::fill_buffer;
use mdns::mdns::listener_step;
use mdns::mdns::multicast_destination;
use mdns::mdns::ListenEvent;
use mdns::net::IpAddress;
use mdns::net::Ipv4Address;
use mdns::DnsClass;
use mdns::Error;
use mdns::Record;
use mdns::RecordKind;
use mdns::Response;
use mdns::StreamResult;

const SERVICE_NAME: &str = "_googlecast._tcp.local";

fn answer(name: &str) -> Record {
    Record {
        name: name.to_string(),
        class: DnsClass::IN,
        ttl: 60,
        kind: RecordKind::PTR("host.local".to_string()),
    }
}

fn response_with_answer(name: &str) -> Response {
    Response { answers: vec![answer(name)], nameservers: vec![], additional: vec![] }
}

#[test]
fn query_bytes_are_one_ptr_question() {
    let session = all(SERVICE_NAME, 5000);
    let bytes = session.mdns_sender.try_build_query().expect("the name is valid");

    let mut expected: Vec<u8> = vec![
        0x00, 0x00, // transaction id 0
        0x00, 0x00, // flags: query, recursion unset
        0x00, 0x01, // one question
        0x00, 0x00, 0x00, 0x00, 0x00, 0x00,
    ];
    expected.extend_from_slice(&[11]);
    expected.extend_from_slice(b"_googlecast");
    expected.extend_from_slice(&[4]);
    expected.extend_from_slice(b"_tcp");
    expected.extend_from_slice(&[5]);
    expected.extend_from_slice(b"local");
    expected.extend_from_slice(&[0]);
    expected.extend_from_slice(&[0x00, 12]); // type PTR
    expected.extend_from_slice(&[0x00, 1]); // class IN, unicast bit unset
    assert_eq!(bytes, expected);
}

#[test]
fn session_defaults() {
    let session = all(SERVICE_NAME, 5000);
    assert_eq!(session.service_name, SERVICE_NAME);
    assert_eq!(session.mdns_sender.service_name, SERVICE_NAME);
    assert!(session.ignore_empty);
    assert_eq!(session.query_interval_millis, 5000);
    assert_eq!(session.mdns_listener.recv_buffer.len(), 4096);

    let single = interface(SERVICE_NAME, 1000, Ipv4Address::new(192, 168, 0, 2));
    assert_eq!(single.service_name, SERVICE_NAME);
    assert_eq!(single.query_interval_millis, 1000);

    let admitting = all(SERVICE_NAME, 5000).ignore_empty(false);
    assert!(!admitting.ignore_empty);
}

#[test]
fn service_name_validity() {
    assert!(check_service_name(SERVICE_NAME));
    assert!(check_service_name("a.b"));
    assert!(check_service_name(""));
    let long_label = "x".repeat(63);
    assert!(!check_service_name(&long_label));
    let dotted = format!("a.{}.b", "y".repeat(62));
    assert!(check_service_name(&dotted));
    assert!(!check_service_name("caf\u{e9}.local"));

    let session = all(&long_label, 5000);
    assert!(session.mdns_sender.try_build_query().is_none());
}

#[test]
fn multicast_group() {
    let dest = multicast_destination();
    assert_eq!(dest.ip, IpAddress::V4(Ipv4Address { octets: [224, 0, 0, 251] }));
    assert_eq!(dest.port, 5353);
}

#[test]
fn tick_triggers_query_and_is_dropped() {
    let session = all(SERVICE_NAME, 5000);
    let action = session.handle_stream_item(StreamResult::Interval);
    assert_eq!(action, EngineAction::SendQuery);
}

#[test]
fn matching_response_is_forwarded() {
    let session = all(SERVICE_NAME, 5000);
    let resp = response_with_answer(SERVICE_NAME);
    let action = session.handle_stream_item(StreamResult::Response(Ok(resp.clone())));
    assert_eq!(action, EngineAction::Forward(Ok(resp)));
}

#[test]
fn unmatched_response_is_dropped_whatever_ignore_empty_says() {
    let resp = response_with_answer("_other._tcp.local");

    let suppressing = all(SERVICE_NAME, 5000);
    let action = suppressing.handle_stream_item(StreamResult::Response(Ok(resp.clone())));
    assert_eq!(action, EngineAction::Discard);

    let admitting = all(SERVICE_NAME, 5000).ignore_empty(false);
    let action = admitting.handle_stream_item(StreamResult::Response(Ok(resp)));
    assert_eq!(action, EngineAction::Discard);
}

#[test]
fn case_differing_answer_name_is_not_a_match() {
    let session = all(SERVICE_NAME, 5000);
    let resp = response_with_answer("_GOOGLECAST._tcp.local");
    let action = session.handle_stream_item(StreamResult::Response(Ok(resp)));
    assert_eq!(action, EngineAction::Discard);
}

#[test]
fn empty_response_is_dropped() {
    let session = all(SERVICE_NAME, 5000);
    let empty = Response { answers: vec![], nameservers: vec![], additional: vec![] };
    let action = session.handle_stream_item(StreamResult::Response(Ok(empty)));
    assert_eq!(action, EngineAction::Discard);
}

#[test]
fn errors_are_always_forwarded() {
    let session = all(SERVICE_NAME, 5000);
    let err = Error::Io("connection reset".to_string());
    let action = session.handle_stream_item(StreamResult::Response(Err(err.clone())));
    assert_eq!(action, EngineAction::Forward(Err(err)));

    let err = Error::Dns("truncated header".to_string());
    let action = session.handle_stream_item(StreamResult::Response(Err(err.clone())));
    assert_eq!(action, EngineAction::Forward(Err(err)));

    let action = session.handle_stream_item(StreamResult::Response(Err(Error::Timeout)));
    assert_eq!(action, EngineAction::Forward(Err(Error::Timeout)));
}

#[test]
fn receive_failure_ends_the_loop_after_one_error() {
    let events = vec![
        ListenEvent::Decoded(response_with_answer(SERVICE_NAME)),
        ListenEvent::Empty,
        ListenEvent::Malformed,
        ListenEvent::Decoded(response_with_answer(SERVICE_NAME)),
        ListenEvent::Failed(Error::Io("socket closed".to_string())),
        ListenEvent::Decoded(response_with_answer(SERVICE_NAME)),
    ];
    let mut outputs: Vec<Result<Response, Error>> = Vec::new();
    for event in events {
        let (item, go_on) = listener_step(event);
        if let Some(item) = item {
            outputs.push(item);
        }
        if !go_on {
            break;
        }
    }
    assert_eq!(outputs.len(), 3);
    assert!(outputs[0].is_ok());
    assert!(outputs[1].is_ok());
    assert_eq!(
        outputs[2],
        Err(Error::Io("socket closed".to_string()))
    );
}

#[test]
fn one_query_action_per_tick() {
    let session = all(SERVICE_NAME, 5000);
    let items = vec![
        StreamResult::Interval,
        StreamResult::Response(Ok(response_with_answer(SERVICE_NAME))),
        StreamResult::Interval,
        StreamResult::Response(Err(Error::Timeout)),
        StreamResult::Response(Ok(response_with_answer("_other._tcp.local"))),
    ];
    let tick_count = items.iter().filter(|it| matches!(it, StreamResult::Interval)).count();
    let mut query_actions: usize = 0;
    for item in items {
        if session.handle_stream_item(item) == EngineAction::SendQuery {
            query_actions += 1;
        }
    }
    assert_eq!(query_actions, tick_count);
}

#[test]
fn fill_buffer_copies_when_the_payload_fits() {
    let mut buf = vec![9u8; 8];
    let data = vec![1u8, 2, 3];
    assert_eq!(fill_buffer(&mut buf, &data), Some(3));
    assert_eq!(buf, vec![1, 2, 3, 9, 9, 9, 9, 9]);

    let mut small = vec![0u8; 2];
    assert_eq!(fill_buffer(&mut small, &data), None);
    assert_eq!(small, vec![0, 0]);
}
