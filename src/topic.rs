//! Topic names: the strings built from a client id and the classification
//! of the topics that the broker delivers.
use vstd::prelude::*;
use vstd::string::StringSliceAdditionalSpecFns;

verus! {

/// The topics that the device subscribes to.
#[derive(Clone, Copy, Debug, PartialEq, Eq, Structural)]
pub enum Topic {
    /// Home Assistant's global availability topic.
    HaState,
    /// This device's light command topic.
    LedCommand,
}

pub open spec fn ha_status_topic() -> Seq<u8> {
    "homeassistant/status".spec_bytes()
}

pub open spec fn status_topic_of(c: Seq<u8>) -> Seq<u8> {
    "blinky/".spec_bytes() + c + "/status".spec_bytes()
}

pub open spec fn state_topic_of(c: Seq<u8>) -> Seq<u8> {
    "blinky/".spec_bytes() + c + "/leds/state".spec_bytes()
}

pub open spec fn command_topic_of(c: Seq<u8>) -> Seq<u8> {
    "blinky/".spec_bytes() + c + "/leds/set".spec_bytes()
}

pub open spec fn discovery_topic_of(c: Seq<u8>) -> Seq<u8> {
    "homeassistant/device/".spec_bytes() + c + "/config".spec_bytes()
}

/// The topic of a subscription, for client id `c`.
pub open spec fn subscription_of(t: Topic, c: Seq<u8>) -> Seq<u8> {
    match t {
        Topic::HaState => ha_status_topic(),
        Topic::LedCommand => command_topic_of(c),
    }
}

/// What a received topic `t` means to the device with client id `c`.
pub open spec fn classify(c: Seq<u8>, t: Seq<u8>) -> Option<Topic> {
    if t == ha_status_topic() {
        Some(Topic::HaState)
    } else if t == command_topic_of(c) {
        Some(Topic::LedCommand)
    } else {
        None
    }
}

/// Appends the bytes of `s` to `v`.
pub fn push_bytes(v: &mut Vec<u8>, s: &[u8])
    ensures
        final(v)@ == old(v)@ + s@,
{
    let mut i: usize = 0;
    while i < s.len()
        invariant
            i <= s.len(),
            v@ == old(v)@ + s@.subrange(0, i as int),
        decreases s.len() - i,
    {
        v.push(s[i]);
        i += 1;
        assert(s@.subrange(0, i as int) == s@.subrange(0, i - 1) + seq![s@[i - 1]]);
    }
    assert(s@.subrange(0, i as int) == s@);
}

/// Appends the UTF-8 bytes of `s` to `v`.
pub fn push_str(v: &mut Vec<u8>, s: &str)
    ensures
        final(v)@ == old(v)@ + s.spec_bytes(),
{
    push_bytes(v, s.as_bytes());
}

/// `prefix`, then `middle`, then `suffix`, as one byte string.
fn join3(prefix: &str, middle: &[u8], suffix: &str) -> (r: Vec<u8>)
    ensures
        r@ == prefix.spec_bytes() + middle@ + suffix.spec_bytes(),
{
    let mut v: Vec<u8> = Vec::new();
    push_str(&mut v, prefix);
    push_bytes(&mut v, middle);
    push_str(&mut v, suffix);
    v
}

/// Whether two byte strings are equal.
pub fn bytes_eq(a: &[u8], b: &[u8]) -> (r: bool)
    ensures
        r == (a@ == b@),
{
    if a.len() != b.len() {
        return false;
    }
    let mut i: usize = 0;
    while i < a.len()
        invariant
            a.len() == b.len(),
            i <= a.len(),
            forall|j: int| 0 <= j < i ==> a@[j] == b@[j],
        decreases a.len() - i,
    {
        if a[i] != b[i] {
            return false;
        }
        i += 1;
    }
    assert(a@ == b@);
    true
}

/// The availability topic of the device.
pub fn status_topic(client_id: &str) -> (r: Vec<u8>)
    ensures
        r@ == status_topic_of(client_id.spec_bytes()),
{
    join3("blinky/", client_id.as_bytes(), "/status")
}

/// The topic on which the device announces its light state.
pub fn state_topic(client_id: &str) -> (r: Vec<u8>)
    ensures
        r@ == state_topic_of(client_id.spec_bytes()),
{
    join3("blinky/", client_id.as_bytes(), "/leds/state")
}

/// The topic on which the device takes light commands.
pub fn command_topic(client_id: &str) -> (r: Vec<u8>)
    ensures
        r@ == command_topic_of(client_id.spec_bytes()),
{
    join3("blinky/", client_id.as_bytes(), "/leds/set")
}

/// The topic of the device's Home Assistant discovery document.
pub fn discovery_topic(client_id: &str) -> (r: Vec<u8>)
    ensures
        r@ == discovery_topic_of(client_id.spec_bytes()),
{
    join3("homeassistant/device/", client_id.as_bytes(), "/config")
}

impl Topic {
    /// The topic string to subscribe to for this kind.
    pub fn topic_for(&self, client_id: &str) -> (r: Vec<u8>)
        ensures
            r@ == subscription_of(*self, client_id.spec_bytes()),
    {
        match self {
            Topic::HaState => {
                let mut v: Vec<u8> = Vec::new();
                push_str(&mut v, "homeassistant/status");
                v
            },
            Topic::LedCommand => command_topic(client_id),
        }
    }

    /// Classifies a received topic: the global availability topic, this
    /// device's command topic, or nothing the device listens to.
    pub fn from_topic(client_id: &str, topic: &str) -> (r: Option<Topic>)
        ensures
            r == classify(client_id.spec_bytes(), topic.spec_bytes()),
    {
        let t = topic.as_bytes();
        if bytes_eq(t, "homeassistant/status".as_bytes()) {
            return Some(Topic::HaState);
        }
        let expected = command_topic(client_id);
        if bytes_eq(t, expected.as_slice()) {
            Some(Topic::LedCommand)
        } else {
            None
        }
    }
}

} // verus!
