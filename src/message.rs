//! Outbound intents and the packets they become.
use vstd::prelude::*;
use vstd::slice::slice_subrange;
use vstd::string::StringSliceAdditionalSpecFns;
use vstd::utf8::{encode_utf8_valid_utf8, valid_utf8, valid_utf8_concat};
use crate::frame::{frame_size, length_field};
use crate::payload::LedState;
use crate::topic::{
    discovery_topic, discovery_topic_of, push_bytes, push_str, state_topic,
    state_topic_of, status_topic, status_topic_of, subscription_of, Topic,
};
use crate::wire::{
    encode_connect, encode_ping, encode_publish, encode_subscribe, fits, lemma_wire_is_frame, remaining_of,
    utf8_str, wire_of, field, first_byte, PacketModel,
};

verus! {

/// The keep-alive interval announced in CONNECT, in seconds.
pub const KEEP_ALIVE_SECS: u16 = 60;

/// What the device announces on its state topics.
#[derive(Clone, Copy, Debug, PartialEq, Eq, Structural)]
pub enum DeviceState {
    /// The device is up: `online` on the availability topic.
    Online,
    /// The light state, on the light state topic.
    Led(LedState),
}

/// An intent to send, consumed once by the send loop.
#[derive(Clone, Copy, Debug, PartialEq, Eq, Structural)]
pub enum MqttMessage {
    Connect,
    Ping,
    SendDiscovery,
    SendState(DeviceState),
    Subscribe(Topic),
}

/// A packet could not be encoded into the scratch buffer.
#[derive(Clone, Copy, Debug, PartialEq, Eq, Structural)]
pub struct EncodeError;

pub open spec fn discovery_document(c: Seq<u8>, m: Seq<u8>) -> Seq<u8> {
    "{\n  \"device\": {\n    \"identifiers\": [\n      \"".spec_bytes()
        + c
        + "\",\n      \"".spec_bytes()
        + m
        + "\"\n    ],\n    \"connections\": [[\"mac\", \"".spec_bytes()
        + m.subrange(0, 2)
        + ":".spec_bytes()
        + m.subrange(2, 4)
        + ":".spec_bytes()
        + m.subrange(4, 6)
        + ":".spec_bytes()
        + m.subrange(6, 8)
        + ":".spec_bytes()
        + m.subrange(8, 10)
        + ":".spec_bytes()
        + m.subrange(10, m.len() as int)
        + "\"]],\n    \"name\": \"Blinky ".spec_bytes()
        + c
        + "\"\n  },\n  \"origin\": {\n    \"name\": \"Blinky\"\n  },\n  \"components\": {\n    \"leds\": {\n      \"unique_id\": \"bl_".spec_bytes()
        + c
        + "_leds\",\n      \"name\": \"leds\",\n      \"platform\": \"light\",\n      \"schema\": \"json\",\n      \"availability_topic\": \"blinky/".spec_bytes()
        + c
        + "/status\",\n      \"state_topic\": \"blinky/".spec_bytes()
        + c
        + "/leds/state\",\n      \"command_topic\": \"blinky/".spec_bytes()
        + c
        + "/leds/set\",\n      \"supported_color_modes\": [\"rgb\"],\n      \"effect_list\": [\"rainbow\"]\n    }\n  }\n}".spec_bytes()
}

/// The packet that an intent becomes for client id `c`, hardware address
/// `m` (hex) and, for a light state, the JSON text `state_payload`.
pub open spec fn packet_of(msg: MqttMessage, c: Seq<u8>, m: Seq<u8>, state_payload: Seq<u8>) -> PacketModel {
    match msg {
        MqttMessage::Connect => PacketModel::Connect {
            client_id: c,
            keep_alive: 60,
            clean_session: true,
            will_topic: status_topic_of(c),
            will_message: "offline".spec_bytes(),
            will_retain: false,
        },
        MqttMessage::Ping => PacketModel::Pingreq,
        MqttMessage::SendDiscovery => PacketModel::Publish {
            topic: discovery_topic_of(c),
            payload: discovery_document(c, m),
            retain: false,
        },
        MqttMessage::SendState(DeviceState::Online) => PacketModel::Publish {
            topic: status_topic_of(c),
            payload: "online".spec_bytes(),
            retain: false,
        },
        MqttMessage::SendState(DeviceState::Led(_)) => PacketModel::Publish {
            topic: state_topic_of(c),
            payload: state_payload,
            retain: false,
        },
        MqttMessage::Subscribe(t) => PacketModel::Subscribe { topic: subscription_of(t, c) },
    }
}

/// The Home Assistant discovery document of the device: one light with
/// the RGB colour mode, keyed by client id and hardware address.
pub fn discovery(client_id: &str, mac_addr: &[u8]) -> (r: Vec<u8>)
    requires
        mac_addr@.len() >= 10,
    ensures
        r@ == discovery_document(client_id.spec_bytes(), mac_addr@),
{
    let c = client_id.as_bytes();
    let mut doc: Vec<u8> = Vec::new();
    push_str(&mut doc, "{\n  \"device\": {\n    \"identifiers\": [\n      \"");
    push_bytes(&mut doc, c);
    push_str(&mut doc, "\",\n      \"");
    push_bytes(&mut doc, mac_addr);
    push_str(&mut doc, "\"\n    ],\n    \"connections\": [[\"mac\", \"");
    push_bytes(&mut doc, slice_subrange(mac_addr, 0, 2));
    push_str(&mut doc, ":");
    push_bytes(&mut doc, slice_subrange(mac_addr, 2, 4));
    push_str(&mut doc, ":");
    push_bytes(&mut doc, slice_subrange(mac_addr, 4, 6));
    push_str(&mut doc, ":");
    push_bytes(&mut doc, slice_subrange(mac_addr, 6, 8));
    push_str(&mut doc, ":");
    push_bytes(&mut doc, slice_subrange(mac_addr, 8, 10));
    push_str(&mut doc, ":");
    push_bytes(&mut doc, slice_subrange(mac_addr, 10, mac_addr.len()));
    push_str(&mut doc, "\"]],\n    \"name\": \"Blinky ");
    push_bytes(&mut doc, c);
    push_str(&mut doc, "\"\n  },\n  \"origin\": {\n    \"name\": \"Blinky\"\n  },\n  \"components\": {\n    \"leds\": {\n      \"unique_id\": \"bl_");
    push_bytes(&mut doc, c);
    push_str(&mut doc, "_leds\",\n      \"name\": \"leds\",\n      \"platform\": \"light\",\n      \"schema\": \"json\",\n      \"availability_topic\": \"blinky/");
    push_bytes(&mut doc, c);
    push_str(&mut doc, "/status\",\n      \"state_topic\": \"blinky/");
    push_bytes(&mut doc, c);
    push_str(&mut doc, "/leds/state\",\n      \"command_topic\": \"blinky/");
    push_bytes(&mut doc, c);
    push_str(&mut doc, "/leds/set\",\n      \"supported_color_modes\": [\"rgb\"],\n      \"effect_list\": [\"rainbow\"]\n    }\n  }\n}");
    doc
}

/// A topic built by this library, as a `&str`.
fn topic_str(t: &Vec<u8>) -> (r: &str)
    requires
        valid_utf8(t@),
    ensures
        r.spec_bytes() == t@,
{
    match utf8_str(t.as_slice()) {
        Some(s) => s,
        None => {
            proof {
                assert(false);
            }
            ""
        },
    }
}

fn map_encoded(r: Result<usize, mqttrust::encoding::v4::Error>) -> (out: Result<usize, EncodeError>)
    ensures
        r matches Ok(n) ==> out == Ok::<usize, EncodeError>(n),
        r is Err ==> out is Err,
        r is Ok ==> out is Ok,
{
    match r {
        Ok(n) => Ok(n),
        Err(_) => Err(EncodeError),
    }
}

/// The light-state PUBLISH carries the JSON text it was given as its
/// payload, at the end of the packet.
pub proof fn lemma_state_publish_payload(c: Seq<u8>, s: LedState, state_payload: Seq<u8>)
    ensures
        ({
            let w = wire_of(packet_of(MqttMessage::SendState(DeviceState::Led(s)), c, seq![], state_payload));
            w.len() >= state_payload.len() && w.subrange(w.len() - state_payload.len(), w.len() as int) == state_payload
        }),
{
    let p = packet_of(MqttMessage::SendState(DeviceState::Led(s)), c, seq![], state_payload);
    let w = wire_of(p);
    let pre = seq![first_byte(p)] + length_field(remaining_of(p)) + field(state_topic_of(c));
    assert(w =~= pre + state_payload);
    assert(w.subrange(pre.len() as int, w.len() as int) =~= state_payload);
}

/// A topic made of a literal, a client id and a literal is valid UTF-8.
proof fn lemma_joined_utf8(a: &str, c: &str, b: &str)
    ensures
        valid_utf8(a.spec_bytes() + c.spec_bytes() + b.spec_bytes()),
{
    encode_utf8_valid_utf8(a@);
    encode_utf8_valid_utf8(c@);
    encode_utf8_valid_utf8(b@);
    valid_utf8_concat(a.spec_bytes(), c.spec_bytes());
    valid_utf8_concat(a.spec_bytes() + c.spec_bytes(), b.spec_bytes());
}

/// CONNECT: clean session, the keep-alive interval, and a last will of
/// `offline` on the availability topic.
pub fn connect(client_id: &str, buffer: &mut Vec<u8>) -> (r: Result<usize, EncodeError>)
    ensures
        final(buffer)@.len() == old(buffer)@.len(),
        r matches Ok(n) ==> n <= final(buffer)@.len() && final(buffer)@.subrange(0, n as int)
            == wire_of(packet_of(MqttMessage::Connect, client_id.spec_bytes(), seq![], seq![])),
        fits(packet_of(MqttMessage::Connect, client_id.spec_bytes(), seq![], seq![]), old(buffer)@.len() as int) <==> r is Ok,
{
    let will = status_topic(client_id);
    proof {
        lemma_joined_utf8("blinky/", client_id, "/status");
    }
    map_encoded(encode_connect(client_id, KEEP_ALIVE_SECS, true, topic_str(&will), "offline".as_bytes(), false, buffer))
}

/// PINGREQ.
pub fn ping(buffer: &mut Vec<u8>) -> (r: Result<usize, EncodeError>)
    ensures
        final(buffer)@.len() == old(buffer)@.len(),
        old(buffer)@.len() >= 2 <==> r is Ok,
        r matches Ok(n) ==> n == 2 && final(buffer)@.subrange(0, 2) == wire_of(PacketModel::Pingreq)
            && final(buffer)@.subrange(0, 2) == seq![0xC0u8, 0x00u8],
{
    assert(wire_of(PacketModel::Pingreq) =~= seq![0xC0u8, 0x00u8]);
    map_encoded(encode_ping(buffer))
}

/// PUBLISH of the discovery document on the discovery topic.
pub fn discovery_packet(client_id: &str, mac_addr: &[u8], buffer: &mut Vec<u8>) -> (r: Result<usize, EncodeError>)
    requires
        mac_addr@.len() >= 10,
    ensures
        final(buffer)@.len() == old(buffer)@.len(),
        r matches Ok(n) ==> n <= final(buffer)@.len() && final(buffer)@.subrange(0, n as int)
            == wire_of(packet_of(MqttMessage::SendDiscovery, client_id.spec_bytes(), mac_addr@, seq![])),
        fits(packet_of(MqttMessage::SendDiscovery, client_id.spec_bytes(), mac_addr@, seq![]), old(buffer)@.len() as int) <==> r is Ok,
{
    let topic = discovery_topic(client_id);
    proof {
        lemma_joined_utf8("homeassistant/device/", client_id, "/config");
    }
    let doc = discovery(client_id, mac_addr);
    map_encoded(encode_publish(topic_str(&topic), doc.as_slice(), false, buffer))
}

/// PUBLISH of a device state: `online` on the availability topic, or the
/// light payload `state_payload` on the light state topic.
pub fn state(client_id: &str, device_state: &DeviceState, state_payload: &[u8], buffer: &mut Vec<u8>) -> (r: Result<usize, EncodeError>)
    ensures
        final(buffer)@.len() == old(buffer)@.len(),
        r matches Ok(n) ==> n <= final(buffer)@.len() && final(buffer)@.subrange(0, n as int)
            == wire_of(packet_of(MqttMessage::SendState(*device_state), client_id.spec_bytes(), seq![], state_payload@)),
        fits(packet_of(MqttMessage::SendState(*device_state), client_id.spec_bytes(), seq![], state_payload@), old(buffer)@.len() as int) <==> r is Ok,
{
    match device_state {
        DeviceState::Online => {
            let topic = status_topic(client_id);
            proof {
                lemma_joined_utf8("blinky/", client_id, "/status");
            }
            map_encoded(encode_publish(topic_str(&topic), "online".as_bytes(), false, buffer))
        },
        DeviceState::Led(_) => {
            let topic = state_topic(client_id);
            proof {
                lemma_joined_utf8("blinky/", client_id, "/leds/state");
            }
            map_encoded(encode_publish(topic_str(&topic), state_payload, false, buffer))
        },
    }
}

/// SUBSCRIBE to the topic of `topic`.
pub fn subscribe(client_id: &str, topic: &Topic, buffer: &mut Vec<u8>) -> (r: Result<usize, EncodeError>)
    ensures
        final(buffer)@.len() == old(buffer)@.len(),
        r matches Ok(n) ==> n <= final(buffer)@.len() && final(buffer)@.subrange(0, n as int)
            == wire_of(packet_of(MqttMessage::Subscribe(*topic), client_id.spec_bytes(), seq![], seq![])),
        fits(packet_of(MqttMessage::Subscribe(*topic), client_id.spec_bytes(), seq![], seq![]), old(buffer)@.len() as int) <==> r is Ok,
{
    let t = topic.topic_for(client_id);
    proof {
        match topic {
            Topic::HaState => {
                encode_utf8_valid_utf8("homeassistant/status"@);
            },
            Topic::LedCommand => {
                lemma_joined_utf8("blinky/", client_id, "/leds/set");
            },
        }
    }
    map_encoded(encode_subscribe(topic_str(&t), buffer))
}

impl MqttMessage {
    /// Encodes the intent into `buffer`. On success the packet is the first
    /// `n` bytes; the buffer keeps its length either way.
    /// `state_payload` is the JSON text of `LedPayload::from_state` for a
    /// light state, and is not read for the other intents.
    pub fn build_packet(&self, client_id: &str, mac_addr: &[u8], state_payload: &[u8], buffer: &mut Vec<u8>) -> (r: Result<usize, EncodeError>)
        requires
            mac_addr@.len() >= 10,
        ensures
            final(buffer)@.len() == old(buffer)@.len(),
            r matches Ok(n) ==> n <= final(buffer)@.len() && final(buffer)@.subrange(0, n as int) == wire_of(
                packet_of(*self, client_id.spec_bytes(), mac_addr@, state_payload@),
            ),
            fits(packet_of(*self, client_id.spec_bytes(), mac_addr@, state_payload@), old(buffer)@.len() as int) <==> r is Ok,
            r matches Ok(n) ==> frame_size(final(buffer)@.subrange(0, n as int)) == Some(n as nat),
    {
        proof {
            let p = packet_of(*self, client_id.spec_bytes(), mac_addr@, state_payload@);
            if remaining_of(p) <= 268435455 {
                lemma_wire_is_frame(p);
            }
        }
        match self {
            MqttMessage::Connect => connect(client_id, buffer),
            MqttMessage::Ping => ping(buffer),
            MqttMessage::SendDiscovery => discovery_packet(client_id, mac_addr, buffer),
            MqttMessage::SendState(s) => state(client_id, s, state_payload, buffer),
            MqttMessage::Subscribe(t) => subscribe(client_id, t, buffer),
        }
    }
}

} // verus!
