use blinky_rs::bridge::{Bridge, LedProgram};
use blinky_rs::buffer::ByteBuffer;
use blinky_rs::frame::packet_size;
use blinky_rs::identity::hex_id;
use blinky_rs::message::{connect, discovery, ping, DeviceState, MqttMessage};
use blinky_rs::payload::{ColorMode, LedColor, LedPayload, LedState, State};
use blinky_rs::queue::{OutboundQueue, QUEUE_CAPACITY};
use blinky_rs::session::{on_keepalive, on_packet, FrameStatus, ReceiveBuffer, SessionEvent, RECEIVE_CAPACITY};
use blinky_rs::supervisor::{start_session, Action, Event, Op, Phase, Supervisor};
use blinky_rs::topic::{command_topic, discovery_topic, state_topic, status_topic, Topic};
use blinky_rs::wire::Inbound;
use mqttrust::encoding::v4::ConnectReturnCode;

const MAC: &[u8] = b"deadbeef0001";

fn frame(first: u8, body: &[u8]) -> Vec<u8> {
    let mut v = vec![first];
    let mut n = body.len();
    loop {
        let mut byte = (n % 128) as u8;
        n /= 128;
        if n > 0 {
            byte |= 128;
        }
        v.push(byte);
        if n == 0 {
            break;
        }
    }
    v.extend_from_slice(body);
    v
}

fn publish_frame(topic: &str, payload: &[u8]) -> Vec<u8> {
    let mut body = vec![(topic.len() >> 8) as u8, topic.len() as u8];
    body.extend_from_slice(topic.as_bytes());
    body.extend_from_slice(payload);
    frame(0x30, &body)
}

fn encode(m: MqttMessage, state_payload: &[u8]) -> Vec<u8> {
    let mut buf = vec![0u8; 4096];
    let n = m.build_packet("abcd", MAC, state_payload, &mut buf).unwrap();
    buf.truncate(n);
    buf
}

#[test]
fn frame_length_one_to_four_length_bytes() {
    for n in [0usize, 1, 127, 128, 200, 16383, 16384, 70000] {
        let f = frame(0x30, &vec![7u8; n]);
        let header = f.len() - n;
        assert_eq!(packet_size(&f), Some(f.len()));
        let mut longer = f.clone();
        longer.extend_from_slice(&[1, 2, 3]);
        assert_eq!(packet_size(&longer), Some(f.len()), "n = {}", n);
        assert!(header >= 2 && header <= 5);
    }
    assert_eq!(packet_size(&[0x20, 0x02, 0x00, 0x00]), Some(4));
    assert_eq!(packet_size(&[0xC0, 0x00]), Some(2));
}

#[test]
fn frame_length_fifth_length_byte_is_invalid() {
    assert_eq!(packet_size(&[0x30, 0xFF, 0xFF, 0xFF, 0xFF]), Some(0));
    assert_eq!(packet_size(&[0x30, 0x80, 0x80, 0x80, 0x80, 0x01, 0x00]), Some(0));
}

#[test]
fn frame_length_incomplete() {
    let f = frame(0x30, &vec![9u8; 300]);
    for m in 0..f.len() {
        assert_eq!(packet_size(&f[..m]), None, "prefix of {} bytes", m);
    }
    assert_eq!(packet_size(&[]), None);
    assert_eq!(packet_size(&[0x30, 0x80]), None);
}

#[test]
fn classify_command_topic_of_this_device() {
    assert_eq!(Topic::from_topic("abcd", "blinky/abcd/leds/set"), Some(Topic::LedCommand));
    assert_eq!(Topic::from_topic("abcd", "blinky/other/leds/set"), None);
    assert_eq!(Topic::from_topic("abcd", "homeassistant/status"), Some(Topic::HaState));
    assert_eq!(Topic::from_topic("abcd", "blinky/abcd/leds/state"), None);
    assert_eq!(Topic::from_topic("abcd", "blinky/ab"), None);
    assert_eq!(Topic::from_topic("abcd", "blinky/abcdx/leds/set"), None);
    assert_eq!(Topic::from_topic("abcd", ""), None);
}

#[test]
fn topic_strings() {
    assert_eq!(status_topic("abcd"), b"blinky/abcd/status".to_vec());
    assert_eq!(state_topic("abcd"), b"blinky/abcd/leds/state".to_vec());
    assert_eq!(command_topic("abcd"), b"blinky/abcd/leds/set".to_vec());
    assert_eq!(discovery_topic("abcd"), b"homeassistant/device/abcd/config".to_vec());
    assert_eq!(Topic::HaState.topic_for("abcd"), b"homeassistant/status".to_vec());
    assert_eq!(Topic::LedCommand.topic_for("abcd"), b"blinky/abcd/leds/set".to_vec());
}

#[test]
fn command_payload_on_with_colour() {
    let p = LedPayload::new(State::On, None, None, Some(LedColor { r: 10, g: 20, b: 30 }));
    assert_eq!(p.to_state(), LedState::On { red: 10, green: 20, blue: 30 });
}

#[test]
fn command_payload_off_wins() {
    let p = LedPayload::new(State::Off, None, None, None);
    assert_eq!(p.to_state(), LedState::Off);
    let p = LedPayload::new(State::Off, Some(40), Some(ColorMode::Rgb), Some(LedColor { r: 10, g: 20, b: 30 }));
    assert_eq!(p.to_state(), LedState::Off);
}

#[test]
fn command_payload_brightness_only() {
    let p = LedPayload::new(State::On, Some(77), None, None);
    assert_eq!(p.to_state(), LedState::On { red: 77, green: 77, blue: 77 });
    let p = LedPayload::new(State::On, None, None, None);
    assert_eq!(p.to_state(), LedState::Off);
}

#[test]
fn state_payload_round_trip() {
    let s = LedState::On { red: 1, green: 2, blue: 3 };
    let p = LedPayload::from_state(&s);
    assert_eq!(p.state, State::On);
    assert_eq!(p.color_mode, Some(ColorMode::Rgb));
    assert_eq!(p.color, Some(LedColor { r: 1, g: 2, b: 3 }));
    assert_eq!(p.brightness, None);
    assert_eq!(p.to_state(), s);
    assert_eq!(LedPayload::from_state(&LedState::Off).to_state(), LedState::Off);
}

#[test]
fn ping_packet() {
    assert_eq!(encode(MqttMessage::Ping, b""), vec![0xC0, 0x00]);
    let mut small = vec![0u8; 1];
    assert!(ping(&mut small).is_err());
}

#[test]
fn subscribe_packet() {
    let mut expected = vec![0x82, 25, 0x00, 0x01, 0x00, 20];
    expected.extend_from_slice(b"blinky/abcd/leds/set");
    expected.push(0);
    assert_eq!(encode(MqttMessage::Subscribe(Topic::LedCommand), b""), expected);
    let mut expected = vec![0x82, 25, 0x00, 0x01, 0x00, 20];
    expected.extend_from_slice(b"homeassistant/status");
    expected.push(0);
    assert_eq!(encode(MqttMessage::Subscribe(Topic::HaState), b""), expected);
}

#[test]
fn connect_packet() {
    let mut expected = vec![0x10, 45, 0, 4, b'M', b'Q', b'T', b'T', 4, 0x06, 0, 60, 0, 4];
    expected.extend_from_slice(b"abcd");
    expected.extend_from_slice(&[0, 18]);
    expected.extend_from_slice(b"blinky/abcd/status");
    expected.extend_from_slice(&[0, 7]);
    expected.extend_from_slice(b"offline");
    assert_eq!(encode(MqttMessage::Connect, b""), expected);
    let mut small = vec![0u8; 10];
    assert!(connect("abcd", &mut small).is_err());
}

#[test]
fn online_and_light_state_packets() {
    let mut expected = vec![0x30, 26, 0, 18];
    expected.extend_from_slice(b"blinky/abcd/status");
    expected.extend_from_slice(b"online");
    assert_eq!(encode(MqttMessage::SendState(DeviceState::Online), b""), expected);

    let json = br#"{"state":"ON","color_mode":"rgb","color":{"r":1,"g":2,"b":3}}"#;
    let packet = encode(MqttMessage::SendState(DeviceState::Led(LedState::On { red: 1, green: 2, blue: 3 })), json);
    assert_eq!(packet_size(&packet), Some(packet.len()));
    assert!(packet.ends_with(json));
    assert_eq!(packet[0], 0x30);
    assert_eq!(&packet[4..26], b"blinky/abcd/leds/state");
}

#[test]
fn encoding_needs_room_in_the_buffer() {
    let online = MqttMessage::SendState(DeviceState::Online);
    let mut exact = vec![0u8; 28];
    assert_eq!(online.build_packet("abcd", MAC, b"", &mut exact), Ok(28));
    let mut roomy = vec![0u8; 31];
    assert_eq!(online.build_packet("abcd", MAC, b"", &mut roomy), Ok(28));
    assert_eq!(roomy.len(), 31);
    let mut short = vec![0u8; 27];
    assert!(online.build_packet("abcd", MAC, b"", &mut short).is_err());
    let mut tiny = vec![0u8; 4];
    assert!(MqttMessage::Subscribe(Topic::HaState).build_packet("abcd", MAC, b"", &mut tiny).is_err());
}

#[test]
fn discovery_packet_and_document() {
    let doc = String::from_utf8(discovery("abcd", MAC)).unwrap();
    assert!(doc.contains("\"connections\": [[\"mac\", \"de:ad:be:ef:00:01\"]]"));
    assert!(doc.contains("\"name\": \"Blinky abcd\""));
    assert!(doc.contains("\"unique_id\": \"bl_abcd_leds\""));
    assert!(doc.contains("\"command_topic\": \"blinky/abcd/leds/set\""));
    assert!(doc.contains("\"supported_color_modes\": [\"rgb\"]"));
    assert!(doc.starts_with("{\n  \"device\": {"));
    assert!(doc.ends_with("}\n  }\n}"));
    let packet = encode(MqttMessage::SendDiscovery, b"");
    assert_eq!(packet_size(&packet), Some(packet.len()));
    assert!(packet.ends_with(doc.as_bytes()));
}

#[test]
fn connack_accepted_queues_discovery_and_subscriptions() {
    let mut rx = ReceiveBuffer::new(RECEIVE_CAPACITY);
    let r = rx.receive("abcd", &[0x20, 0x02, 0x00, 0x00]);
    assert!(!r.end);
    assert_eq!(
        r.outbound,
        vec![MqttMessage::SendDiscovery, MqttMessage::Subscribe(Topic::HaState), MqttMessage::Subscribe(Topic::LedCommand)]
    );
    assert_eq!(r.events.len(), 1);
    assert!(matches!(r.events[0], SessionEvent::Connected));
    assert_eq!(rx.status(), FrameStatus::Incomplete);
}

#[test]
fn connack_rejected_ends_session() {
    let mut rx = ReceiveBuffer::new(RECEIVE_CAPACITY);
    let r = rx.receive("abcd", &[0x20, 0x02, 0x00, 0x05]);
    assert!(r.end);
    assert!(r.outbound.is_empty());
    let r = on_packet("abcd", Inbound::Connack { code: ConnectReturnCode::NotAuthorized });
    assert!(r.end);
}

#[test]
fn frame_split_across_reads() {
    let mut rx = ReceiveBuffer::new(RECEIVE_CAPACITY);
    let r = rx.receive("abcd", &[0x20]);
    assert!(!r.end && r.outbound.is_empty() && r.events.is_empty());
    let r = rx.receive("abcd", &[0x02, 0x00]);
    assert!(!r.end && r.outbound.is_empty());
    let r = rx.receive("abcd", &[0x00, 0xD0]);
    assert_eq!(r.outbound.len(), 3);
    assert_eq!(rx.space(), RECEIVE_CAPACITY - 1);
    let r = rx.receive("abcd", &[0x00]);
    assert!(!r.end && r.outbound.is_empty() && r.events.is_empty());
    assert_eq!(rx.space(), RECEIVE_CAPACITY);
}

#[test]
fn two_frames_in_one_read() {
    let mut rx = ReceiveBuffer::new(RECEIVE_CAPACITY);
    let mut bytes = vec![0xD0, 0x00];
    bytes.extend(publish_frame("homeassistant/status", b"online"));
    let r = rx.receive("abcd", &bytes);
    assert!(!r.end);
    assert_eq!(r.outbound, vec![MqttMessage::SendDiscovery]);
    assert!(matches!(r.events[..], [SessionEvent::Connected]));
}

#[test]
fn socket_closed_ends_session() {
    let mut rx = ReceiveBuffer::new(RECEIVE_CAPACITY);
    let r = rx.receive("abcd", &[]);
    assert!(r.end);
}

#[test]
fn invalid_length_ends_session() {
    let mut rx = ReceiveBuffer::new(RECEIVE_CAPACITY);
    let r = rx.receive("abcd", &[0x30, 0xFF, 0xFF, 0xFF, 0xFF]);
    assert!(r.end);
}

#[test]
fn malformed_connack_ends_session() {
    let mut rx = ReceiveBuffer::new(RECEIVE_CAPACITY);
    let r = rx.receive("abcd", &[0x20, 0x00]);
    assert!(r.end);
    let mut rx = ReceiveBuffer::new(RECEIVE_CAPACITY);
    let r = rx.receive("abcd", &[0x20, 0x02, 0x00, 0x09]);
    assert!(r.end);
}

#[test]
fn command_publish_hands_payload_on() {
    let payload = br#"{"state":"ON","color":{"r":10,"g":20,"b":30}}"#;
    let mut rx = ReceiveBuffer::new(RECEIVE_CAPACITY);
    let r = rx.receive("abcd", &publish_frame("blinky/abcd/leds/set", payload));
    assert!(!r.end && r.outbound.is_empty());
    match &r.events[..] {
        [SessionEvent::LedCommand(p)] => assert_eq!(p.as_slice(), &payload[..]),
        other => panic!("unexpected events {:?}", other),
    }
    let r = rx.receive("abcd", &publish_frame("blinky/other/leds/set", payload));
    assert!(!r.end && r.outbound.is_empty() && r.events.is_empty());
}

#[test]
fn unexpected_packets_are_ignored() {
    let mut rx = ReceiveBuffer::new(RECEIVE_CAPACITY);
    let r = rx.receive("abcd", &[0x90, 0x03, 0x00, 0x01, 0x00]);
    assert!(!r.end && r.outbound.is_empty() && r.events.is_empty());
    let r = rx.receive("abcd", &[0x82, 0x02, 0x00, 0x01]);
    assert!(!r.end && r.outbound.is_empty() && r.events.is_empty());
    let connect = [0x10, 12, 0, 4, b'M', b'Q', b'T', b'T', 4, 0x02, 0, 60, 0, 0];
    let r = rx.receive("abcd", &connect);
    assert!(!r.end && r.outbound.is_empty() && r.events.is_empty());
    let r = on_packet("abcd", Inbound::Other);
    assert!(!r.end && r.outbound.is_empty());
}

#[test]
fn malformed_client_only_packets_end_session() {
    for bytes in [
        &[0x10u8, 0x00][..],
        &[0x10, 0x06, 0, 4, b'M', b'Q', b'T', b'T'][..],
        &[0x10, 0x08, 0, 4, b'M', b'Q', b'T', b'T', 4, 0x02][..],
        &[0x82, 0x00][..],
        &[0xA2, 0x01, 0x00][..],
        &[0x82, 0x02, 0x00, 0x00][..],
    ] {
        let mut rx = ReceiveBuffer::new(RECEIVE_CAPACITY);
        let r = rx.receive("abcd", bytes);
        assert!(r.end, "frame {:?}", bytes);
        assert!(r.outbound.is_empty() && r.events.is_empty());
    }
}

#[test]
fn publish_without_room_for_packet_id_ends_session() {
    let mut rx = ReceiveBuffer::new(RECEIVE_CAPACITY);
    let r = rx.receive("abcd", &[0x32, 0x03, 0x00, 0x01, b'a']);
    assert!(r.end);
    let mut rx = ReceiveBuffer::new(RECEIVE_CAPACITY);
    let r = rx.receive("abcd", &[0x32, 0x07, 0x00, 0x01, b'a', 0x00, 0x05, b'h', b'i']);
    assert!(!r.end && r.events.is_empty());
}

#[test]
fn keepalive_tick() {
    let r = on_keepalive();
    assert!(!r.end);
    assert_eq!(r.outbound, vec![MqttMessage::Ping]);
    assert!(matches!(r.events[..], [SessionEvent::Connected]));
}

#[test]
fn queue_backpressure() {
    let mut q = OutboundQueue::new();
    for _ in 0..QUEUE_CAPACITY {
        assert_eq!(q.try_send(MqttMessage::Ping), Ok(()));
    }
    assert!(q.is_full());
    assert_eq!(q.try_send(MqttMessage::SendDiscovery), Err(MqttMessage::SendDiscovery));
    assert_eq!(q.len(), 10);
    assert_eq!(q.try_receive(), Some(MqttMessage::Ping));
    assert_eq!(q.try_send(MqttMessage::SendDiscovery), Ok(()));
    assert_eq!(q.len(), 10);
}

#[test]
fn queue_fifo_and_clear() {
    let mut q = OutboundQueue::new();
    assert_eq!(q.try_receive(), None);
    q.try_send(MqttMessage::Ping).unwrap();
    q.try_send(MqttMessage::SendDiscovery).unwrap();
    assert_eq!(q.try_receive(), Some(MqttMessage::Ping));
    assert_eq!(q.try_receive(), Some(MqttMessage::SendDiscovery));
    q.try_send(MqttMessage::Ping).unwrap();
    q.clear();
    assert_eq!(q.len(), 0);
}

fn act(s: &mut Supervisor, e: Event) -> Action {
    s.step(e)
}

#[test]
fn happy_path_scenario() {
    let mut s = Supervisor::new();
    let mut q = OutboundQueue::new();
    assert_eq!(act(&mut s, Event::Start), Action { close_socket: false, delay_ms: 0, op: Op::Join });
    assert_eq!(act(&mut s, Event::JoinFailed), Action { close_socket: false, delay_ms: 1000, op: Op::Join });
    assert_eq!(act(&mut s, Event::JoinSucceeded).op, Op::CheckAddress);
    assert_eq!(act(&mut s, Event::AddressPending), Action { close_socket: false, delay_ms: 100, op: Op::CheckAddress });
    assert_eq!(act(&mut s, Event::AddressReady), Action { close_socket: false, delay_ms: 0, op: Op::Resolve });
    assert_eq!(act(&mut s, Event::Resolved).op, Op::Connect);
    assert_eq!(act(&mut s, Event::Connected).op, Op::RunSession);
    assert_eq!(s.phase, Phase::InSession);
    start_session(&mut q);
    let mut rx = ReceiveBuffer::new(RECEIVE_CAPACITY);
    let r = rx.receive("abcd", &[0x20, 0x02, 0x00, 0x00]);
    for m in r.outbound {
        q.try_send(m).unwrap();
    }
    let mut sent = Vec::new();
    while let Some(m) = q.try_receive() {
        sent.push(encode(m, b"")[0]);
    }
    assert_eq!(sent, vec![0x10, 0x30, 0x82, 0x82]);
}

#[test]
fn rejected_connection_scenario() {
    let mut s = Supervisor::new();
    act(&mut s, Event::Start);
    act(&mut s, Event::JoinSucceeded);
    act(&mut s, Event::AddressReady);
    act(&mut s, Event::Resolved);
    act(&mut s, Event::Connected);
    let mut rx = ReceiveBuffer::new(RECEIVE_CAPACITY);
    let r = rx.receive("abcd", &[0x20, 0x02, 0x00, 0x04]);
    assert!(r.end);
    assert_eq!(act(&mut s, Event::SessionEnded), Action { close_socket: true, delay_ms: 5000, op: Op::Resolve });
    assert_eq!(act(&mut s, Event::ResolveFailed), Action { close_socket: false, delay_ms: 5000, op: Op::Resolve });
    act(&mut s, Event::Resolved);
    assert_eq!(act(&mut s, Event::ConnectFailed), Action { close_socket: false, delay_ms: 5000, op: Op::Resolve });
}

#[test]
fn socket_closed_scenario() {
    let mut s = Supervisor::new();
    let mut q = OutboundQueue::new();
    act(&mut s, Event::Start);
    act(&mut s, Event::JoinSucceeded);
    act(&mut s, Event::AddressReady);
    act(&mut s, Event::Resolved);
    act(&mut s, Event::Connected);
    start_session(&mut q);
    q.try_send(MqttMessage::Ping).unwrap();
    q.try_send(MqttMessage::SendDiscovery).unwrap();
    let mut rx = ReceiveBuffer::new(RECEIVE_CAPACITY);
    assert!(rx.receive("abcd", &[]).end);
    let a = act(&mut s, Event::SessionEnded);
    assert!(a.close_socket);
    assert_eq!(a.delay_ms, 5000);
    act(&mut s, Event::Resolved);
    act(&mut s, Event::Connected);
    start_session(&mut q);
    assert_eq!(q.len(), 1);
    assert_eq!(q.try_receive(), Some(MqttMessage::Connect));
}

#[test]
fn bridge_announces_and_applies() {
    let mut b = Bridge::new(LedState::Off);
    assert_eq!(
        b.on_connected(),
        vec![MqttMessage::SendState(DeviceState::Online), MqttMessage::SendState(DeviceState::Led(LedState::Off))]
    );
    let p = LedPayload::new(State::On, None, Some(ColorMode::Rgb), Some(LedColor { r: 10, g: 20, b: 30 }));
    let on = LedState::On { red: 10, green: 20, blue: 30 };
    assert_eq!(b.on_command(&p), vec![MqttMessage::SendState(DeviceState::Led(on))]);
    assert_eq!(b.current(), on);
    assert_eq!(LedProgram::from_state(b.current()), LedProgram::Solid { red: 10, green: 20, blue: 30 });
    assert_eq!(LedProgram::from_state(LedState::Off), LedProgram::Off);
}

#[test]
fn encoded_packets_are_whole_frames() {
    let json = br#"{"state":"OFF"}"#;
    for m in [
        MqttMessage::Connect,
        MqttMessage::Ping,
        MqttMessage::SendDiscovery,
        MqttMessage::SendState(DeviceState::Online),
        MqttMessage::SendState(DeviceState::Led(LedState::Off)),
        MqttMessage::Subscribe(Topic::HaState),
        MqttMessage::Subscribe(Topic::LedCommand),
    ] {
        let p = encode(m, json);
        assert_eq!(packet_size(&p), Some(p.len()));
        let mut exact = vec![0u8; p.len()];
        assert_eq!(m.build_packet("abcd", MAC, json, &mut exact), Ok(p.len()));
        assert_eq!(exact, p);
        let mut short = vec![0u8; p.len() - 1];
        assert!(m.build_packet("abcd", MAC, json, &mut short).is_err());
    }
}

#[test]
fn hardware_address_hex() {
    assert_eq!(hex_id(&[0xde, 0xad, 0xbe, 0xef, 0x00, 0x01]), b"deadbeef0001".to_vec());
    assert_eq!(hex_id(&[]), Vec::<u8>::new());
    assert_eq!(hex_id(&[0x0a, 0xf0]), b"0af0".to_vec());
}

#[test]
fn byte_buffer_writes() {
    let mut b = ByteBuffer::<8>::new();
    assert_eq!(b.capacity(), 8);
    b.write(b"ab");
    b.write_str("cdef");
    assert_eq!(b.buffer(), b"abcdef");
    assert_eq!(b.as_str(), "abcdef");
    b.write_str("ghijk");
    assert_eq!(b.buffer(), b"abcdefgh");
    b.write_str("z");
    assert_eq!(b.as_str(), "abcdefgh");
}
