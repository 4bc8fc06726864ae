//! The MQTT wire format, through the mqttrust crate: the packets that the
//! device sends and the packets that it receives.
use vstd::prelude::*;
use vstd::string::StringSliceAdditionalSpecFns;
use vstd::utf8::valid_utf8;
use crate::frame::{frame_bytes, frame_size, length_field, lemma_complete_frame, size_from};
use mqttrust::encoding::v4::{decode_slice, encode_slice, Connect, LastWill, Protocol};
use mqttrust::{Packet, Publish, QoS, Subscribe, SubscribeTopic};

verus! {

#[verifier::external_type_specification]
#[verifier::external_body]
pub struct ExMqttError(mqttrust::encoding::v4::Error);

#[verifier::external_type_specification]
pub struct ExConnectReturnCode(mqttrust::encoding::v4::ConnectReturnCode);

/// An outbound packet, as plain values.
pub enum PacketModel {
    /// CONNECT with MQTT 3.1.1, no user name or password, and a QoS 0
    /// last will.
    Connect {
        client_id: Seq<u8>,
        keep_alive: u16,
        clean_session: bool,
        will_topic: Seq<u8>,
        will_message: Seq<u8>,
        will_retain: bool,
    },
    Pingreq,
    /// PUBLISH at QoS 0, not a duplicate.
    Publish { topic: Seq<u8>, payload: Seq<u8>, retain: bool },
    /// SUBSCRIBE to one filter at QoS 0.
    Subscribe { topic: Seq<u8> },
}

/// A length as two bytes, big-endian, cut to 16 bits as mqttrust does.
pub open spec fn be16(n: nat) -> Seq<u8> {
    seq![((n % 65536) / 256) as u8, (n % 256) as u8]
}

/// A string or byte field: its 16-bit length, then its bytes.
pub open spec fn field(s: Seq<u8>) -> Seq<u8> {
    be16(s.len()) + s
}

/// The first byte of a packet: its type and flags.
pub open spec fn first_byte(p: PacketModel) -> u8 {
    match p {
        PacketModel::Connect { .. } => 0x10,
        PacketModel::Pingreq => 0xC0,
        PacketModel::Publish { retain, .. } => if retain { 0x31 } else { 0x30 },
        PacketModel::Subscribe { .. } => 0x82,
    }
}

/// The CONNECT flags: clean session, a will at QoS 0, will retain.
pub open spec fn connect_flags(clean_session: bool, will_retain: bool) -> u8 {
    ((if clean_session { 2u8 } else { 0u8 }) + 4 + (if will_retain { 32u8 } else { 0u8 })) as u8
}

/// What follows the fixed header of a packet.
pub open spec fn body_of(p: PacketModel) -> Seq<u8> {
    match p {
        PacketModel::Connect { client_id, keep_alive, clean_session, will_topic, will_message, will_retain } =>
            seq![0u8, 4, 0x4D, 0x51, 0x54, 0x54, 4, connect_flags(clean_session, will_retain)]
                + be16(keep_alive as nat) + field(client_id) + field(will_topic) + field(will_message),
        PacketModel::Pingreq => seq![],
        PacketModel::Publish { topic, payload, .. } => field(topic) + payload,
        PacketModel::Subscribe { topic } => seq![0u8, 1u8] + field(topic) + seq![0u8],
    }
}

/// The remaining length of a packet: the bytes after its fixed header.
pub open spec fn remaining_of(p: PacketModel) -> nat {
    body_of(p).len()
}

/// The bytes that mqttrust writes for a packet: the first byte, the
/// remaining length, the body.
pub open spec fn wire_of(p: PacketModel) -> Seq<u8> {
    frame_bytes(first_byte(p), remaining_of(p), body_of(p))
}

/// A buffer of `len` bytes has room for the packet `p`, whose remaining
/// length fits the four-byte length field.
pub open spec fn fits(p: PacketModel, len: int) -> bool {
    remaining_of(p) <= 268435455 && len >= 1 + length_field(remaining_of(p)).len() + remaining_of(p)
}

/// Every packet that fits the length field is one whole frame.
pub proof fn lemma_wire_is_frame(p: PacketModel)
    requires
        remaining_of(p) <= 268435455,
    ensures
        wire_of(p).len() == 1 + length_field(remaining_of(p)).len() + remaining_of(p),
        frame_size(wire_of(p)) == Some(wire_of(p).len()),
{
    lemma_complete_frame(first_byte(p), remaining_of(p), body_of(p), seq![]);
    assert(wire_of(p) + seq![] =~= wire_of(p));
}

/// A received packet as the session sees it.
pub enum Inbound {
    Connack { code: mqttrust::encoding::v4::ConnectReturnCode },
    Pingresp,
    Publish { topic: String, payload: Vec<u8> },
    /// PUBACK, PUBREC, PUBCOMP or SUBACK: acknowledgements that need no
    /// answer at QoS 0.
    Ack,
    /// Any other packet type.
    Other,
}

/// A received packet, as plain values.
pub enum InboundModel {
    Connack { code: mqttrust::encoding::v4::ConnectReturnCode },
    Pingresp,
    Publish { topic: Seq<char>, payload: Seq<u8> },
    Ack,
    Other,
}

impl View for Inbound {
    type V = InboundModel;

    open spec fn view(&self) -> InboundModel {
        match self {
            Inbound::Connack { code } => InboundModel::Connack { code: *code },
            Inbound::Pingresp => InboundModel::Pingresp,
            Inbound::Publish { topic, payload } => InboundModel::Publish { topic: topic@, payload: payload@ },
            Inbound::Ack => InboundModel::Ack,
            Inbound::Other => InboundModel::Other,
        }
    }
}

/// What mqttrust decodes from a whole frame: `None` when it reports an error.
pub uninterp spec fn decode_of(frame: Seq<u8>) -> Option<InboundModel>;

/// Index just past the fixed header of the frame `b`.
pub open spec fn header_end(b: Seq<u8>, k: nat) -> nat
    decreases 5 - k,
{
    if k >= 5 || k >= b.len() || b[k as int] < 128 {
        k + 1
    } else {
        header_end(b, k + 1)
    }
}

/// `b` holds exactly one whole frame.
pub open spec fn whole_frame(b: Seq<u8>) -> bool {
    b.len() >= 2 && size_from(b, 1) == Some(b.len())
}

/// The packet type in a frame's first byte.
pub open spec fn packet_type(b: Seq<u8>) -> u8 {
    b[0] / 16
}

/// The two bytes at index `i` as a big-endian number.
pub open spec fn be16_at(b: Seq<u8>, i: int) -> int {
    b[i] as int * 256 + b[i + 1] as int
}

/// Whole frames on which mqttrust's decoder reads only within the frame.
/// Packet types that start with a packet id or a return code hold those
/// two bytes. A PUBLISH at QoS 1 or 2 whose topic fits holds its packet
/// id. A CONNECT whose protocol name fits holds the level, flags and
/// keep-alive bytes after it. (A string whose length runs past the frame
/// is an error that mqttrust reports without reading it.)
pub open spec fn decode_safe(b: Seq<u8>) -> bool {
    let h = header_end(b, 1) as int;
    let rem = b.len() - h;
    let t = packet_type(b);
    if t == 1 {
        rem < 2 || be16_at(b, h) + 2 > rem || be16_at(b, h) + 6 <= rem
    } else if t == 2 || t == 4 || t == 5 || t == 6 || t == 7 || t == 8 || t == 9 || t == 10 || t == 11 {
        rem >= 2
    } else if t == 3 {
        let qos = (b[0] / 2) % 4;
        qos == 0 || qos == 3 || rem < 2 || be16_at(b, h) + 2 > rem || be16_at(b, h) + 4 <= rem
    } else {
        true
    }
}

/// Relies on core::str::from_utf8: valid UTF-8 is accepted, as the same bytes.
#[verifier::external_body]
pub(crate) fn utf8_str(b: &[u8]) -> (r: Option<&str>)
    ensures
        valid_utf8(b@) ==> r is Some,
        r matches Some(s) ==> s.spec_bytes() == b@,
{
    core::str::from_utf8(b).ok()
}

/// Relies on mqttrust's encode_slice for a CONNECT packet (MQTT 3.1.1, a
/// QoS 0 last will, no user name or password): it fails exactly when the
/// packet does not fit, and otherwise writes it at the front of `buf` and
/// returns its length.
#[verifier::external_body]
pub(crate) fn encode_connect(
    client_id: &str,
    keep_alive: u16,
    clean_session: bool,
    will_topic: &str,
    will_message: &[u8],
    will_retain: bool,
    buf: &mut Vec<u8>,
) -> (r: Result<usize, mqttrust::encoding::v4::Error>)
    ensures
        final(buf)@.len() == old(buf)@.len(),
        r is Ok <==> fits(
            PacketModel::Connect {
                client_id: client_id.spec_bytes(),
                keep_alive,
                clean_session,
                will_topic: will_topic.spec_bytes(),
                will_message: will_message@,
                will_retain,
            },
            old(buf)@.len() as int,
        ),
        r matches Ok(n) ==> n <= final(buf)@.len() && n == wire_of(
            PacketModel::Connect {
                client_id: client_id.spec_bytes(),
                keep_alive,
                clean_session,
                will_topic: will_topic.spec_bytes(),
                will_message: will_message@,
                will_retain,
            },
        ).len() && final(buf)@.subrange(0, n as int) == wire_of(
            PacketModel::Connect {
                client_id: client_id.spec_bytes(),
                keep_alive,
                clean_session,
                will_topic: will_topic.spec_bytes(),
                will_message: will_message@,
                will_retain,
            },
        ),
{
    let last_will = Some(LastWill { topic: will_topic, message: will_message, qos: QoS::AtMostOnce, retain: will_retain });
    let packet = Connect { protocol: Protocol::MQTT311, keep_alive, client_id, clean_session, last_will, username: None, password: None };
    encode_slice(&packet.into(), buf.as_mut_slice())
}

/// Relies on mqttrust's encode_slice for PINGREQ: the two bytes 0xC0 0x00,
/// written when `buf` has room for them.
#[verifier::external_body]
pub(crate) fn encode_ping(buf: &mut Vec<u8>) -> (r: Result<usize, mqttrust::encoding::v4::Error>)
    ensures
        final(buf)@.len() == old(buf)@.len(),
        r is Ok <==> fits(
            PacketModel::Pingreq,
            old(buf)@.len() as int,
        ),
        r matches Ok(n) ==> n <= final(buf)@.len() && n == wire_of(
            PacketModel::Pingreq,
        ).len() && final(buf)@.subrange(0, n as int) == wire_of(
            PacketModel::Pingreq,
        ),
{
    encode_slice(&Packet::Pingreq, buf.as_mut_slice())
}

/// Relies on mqttrust's encode_slice for a QoS 0 PUBLISH (no duplicate
/// flag, no packet id): it fails exactly when the packet does not fit, and
/// otherwise writes it at the front of `buf` and returns its length.
#[verifier::external_body]
pub(crate) fn encode_publish(topic: &str, payload: &[u8], retain: bool, buf: &mut Vec<u8>) -> (r: Result<usize, mqttrust::encoding::v4::Error>)
    ensures
        final(buf)@.len() == old(buf)@.len(),
        r is Ok <==> fits(
            PacketModel::Publish { topic: topic.spec_bytes(), payload: payload@, retain },
            old(buf)@.len() as int,
        ),
        r matches Ok(n) ==> n <= final(buf)@.len() && n == wire_of(
            PacketModel::Publish { topic: topic.spec_bytes(), payload: payload@, retain },
        ).len() && final(buf)@.subrange(0, n as int) == wire_of(
            PacketModel::Publish { topic: topic.spec_bytes(), payload: payload@, retain },
        ),
{
    let packet = Publish { dup: false, qos: QoS::AtMostOnce, pid: None, retain, topic_name: topic, payload };
    encode_slice(&packet.into(), buf.as_mut_slice())
}

/// Relies on mqttrust's encode_slice for a SUBSCRIBE to one filter at QoS
/// 0, packet id 1: it fails exactly when the packet does not fit, and
/// otherwise writes it at the front of `buf` and returns its length.
#[verifier::external_body]
pub(crate) fn encode_subscribe(topic: &str, buf: &mut Vec<u8>) -> (r: Result<usize, mqttrust::encoding::v4::Error>)
    ensures
        final(buf)@.len() == old(buf)@.len(),
        r is Ok <==> fits(
            PacketModel::Subscribe { topic: topic.spec_bytes() },
            old(buf)@.len() as int,
        ),
        r matches Ok(n) ==> n <= final(buf)@.len() && n == wire_of(
            PacketModel::Subscribe { topic: topic.spec_bytes() },
        ).len() && final(buf)@.subrange(0, n as int) == wire_of(
            PacketModel::Subscribe { topic: topic.spec_bytes() },
        ),
{
    let topics = [SubscribeTopic { topic_path: topic, qos: QoS::AtMostOnce }];
    encode_slice(&Subscribe::new(&topics).into(), buf.as_mut_slice())
}

/// Relies on mqttrust's decode_slice on one whole frame, read only within
/// it; the packet is handed on with its topic and payload copied out.
#[verifier::external_body]
pub(crate) fn decode_frame(frame: &[u8]) -> (r: Result<Option<Inbound>, mqttrust::encoding::v4::Error>)
    requires
        whole_frame(frame@),
        decode_safe(frame@),
    ensures
        r matches Ok(Some(p)) ==> decode_of(frame@) == Some(p@),
        !(r matches Ok(Some(_))) ==> decode_of(frame@) is None,
{
    Ok(decode_slice(frame)?.map(|p| match p {
        Packet::Connack(a) => Inbound::Connack { code: a.code },
        Packet::Pingresp => Inbound::Pingresp,
        Packet::Publish(p) => Inbound::Publish { topic: p.topic_name.into(), payload: p.payload.to_vec() },
        Packet::Puback(_) | Packet::Pubrec(_) | Packet::Pubcomp(_) | Packet::Suback(_) => Inbound::Ack,
        _ => Inbound::Other,
    }))
}

} // verus!
