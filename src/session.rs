//! One MQTT session: the receive buffer that reassembles frames, the
//! reactions to received packets, and the keep-alive tick.
use vstd::prelude::*;
use vstd::slice::slice_subrange;
use vstd::string::StringSliceAdditionalSpecFns;
use vstd::utf8::encode_utf8;
use mqttrust::encoding::v4::ConnectReturnCode;
use crate::frame::{frame_size, packet_size, size_from, varint_value};
use crate::message::MqttMessage;
use crate::topic::{classify, push_bytes, Topic};
use crate::wire::{be16_at, decode_frame, decode_of, decode_safe, header_end, whole_frame, Inbound, InboundModel};

verus! {

/// Seconds between two keep-alive ticks.
pub const KEEPALIVE_INTERVAL_SECS: u64 = 45;

/// The capacity of the receive buffer, in bytes.
pub const RECEIVE_CAPACITY: usize = 4096;

/// Bytes received and not yet consumed, at most `capacity` of them.
pub struct ReceiveBuffer {
    data: Vec<u8>,
    capacity: usize,
}

impl View for ReceiveBuffer {
    type V = Seq<u8>;

    closed spec fn view(&self) -> Seq<u8> {
        self.data@
    }
}

/// What the front of the receive buffer holds.
#[derive(Clone, Copy, Debug, PartialEq, Eq, Structural)]
pub enum FrameStatus {
    /// Not yet a whole frame.
    Incomplete,
    /// A length field longer than four bytes: fatal for the session.
    Invalid,
    /// A whole frame of this many bytes.
    Complete(usize),
}

/// The status that `frame_size` gives for the buffered bytes `b`.
pub open spec fn status_of(b: Seq<u8>) -> FrameStatus {
    match frame_size(b) {
        None => FrameStatus::Incomplete,
        Some(n) => if n == 0 {
            FrameStatus::Invalid
        } else {
            FrameStatus::Complete(n as usize)
        },
    }
}

impl ReceiveBuffer {
    pub closed spec fn cap(&self) -> nat {
        self.capacity as nat
    }

    pub closed spec fn wf(&self) -> bool {
        self.data@.len() <= self.capacity
    }

    /// A well-formed buffer holds at most its capacity.
    pub proof fn lemma_bounds(&self)
        requires
            self.wf(),
        ensures
            self@.len() <= self.cap(),
    {
    }

    /// An empty buffer of `capacity` bytes.
    pub fn new(capacity: usize) -> (r: ReceiveBuffer)
        ensures
            r.wf(),
            r@ == Seq::<u8>::empty(),
            r.cap() == capacity,
    {
        ReceiveBuffer { data: Vec::new(), capacity }
    }

    /// The number of bytes that still fit.
    pub fn space(&self) -> (r: usize)
        requires
            self.wf(),
        ensures
            r == self.cap() - self@.len(),
    {
        self.capacity - self.data.len()
    }

    /// Appends received bytes after the ones already held.
    pub fn append(&mut self, bytes: &[u8])
        requires
            old(self).wf(),
            old(self)@.len() + bytes@.len() <= old(self).cap(),
        ensures
            final(self).wf(),
            final(self).cap() == old(self).cap(),
            final(self)@ == old(self)@ + bytes@,
    {
        push_bytes(&mut self.data, bytes);
    }

    /// Whether a whole frame is at the front.
    pub fn status(&self) -> (r: FrameStatus)
        requires
            self.wf(),
        ensures
            r == status_of(self@),
    {
        match packet_size(self.data.as_slice()) {
            None => FrameStatus::Incomplete,
            Some(n) => if n == 0 {
                FrameStatus::Invalid
            } else {
                FrameStatus::Complete(n)
            },
        }
    }

    /// Removes the first `n` bytes and returns them; the bytes after them
    /// stay, moved to the front.
    pub fn take(&mut self, n: usize) -> (r: Vec<u8>)
        requires
            old(self).wf(),
            n <= old(self)@.len(),
        ensures
            final(self).wf(),
            final(self).cap() == old(self).cap(),
            r@ == old(self)@.subrange(0, n as int),
            final(self)@ == old(self)@.subrange(n as int, old(self)@.len() as int),
            r@ + final(self)@ == old(self)@,
    {
        let all = self.data.as_slice();
        let mut front: Vec<u8> = Vec::new();
        push_bytes(&mut front, slice_subrange(all, 0, n));
        let mut rest: Vec<u8> = Vec::new();
        push_bytes(&mut rest, slice_subrange(all, n, all.len()));
        self.data = rest;
        assert(front@ + self.data@ =~= old(self)@);
        front
    }
}

/// What the session tells the rest of the device.
#[derive(Debug)]
pub enum SessionEvent {
    /// The broker accepted the session, or Home Assistant came back: the
    /// device should announce itself.
    Connected,
    /// A light command arrived, with its JSON payload.
    LedCommand(Vec<u8>),
}

pub enum EventModel {
    Connected,
    LedCommand(Seq<u8>),
}

impl View for SessionEvent {
    type V = EventModel;

    open spec fn view(&self) -> EventModel {
        match self {
            SessionEvent::Connected => EventModel::Connected,
            SessionEvent::LedCommand(p) => EventModel::LedCommand(p@),
        }
    }
}

/// The answer to one received packet or tick: whether the session ends,
/// the intents to queue in order, and the events for the device.
pub struct Reaction {
    pub end: bool,
    pub outbound: Vec<MqttMessage>,
    pub events: Vec<SessionEvent>,
}

pub struct ReactionModel {
    pub end: bool,
    pub outbound: Seq<MqttMessage>,
    pub events: Seq<EventModel>,
}

impl View for Reaction {
    type V = ReactionModel;

    open spec fn view(&self) -> ReactionModel {
        ReactionModel {
            end: self.end,
            outbound: self.outbound@,
            events: self.events@.map_values(|e: SessionEvent| e@),
        }
    }
}

pub open spec fn nothing() -> ReactionModel {
    ReactionModel { end: false, outbound: seq![], events: seq![] }
}

pub open spec fn ended() -> ReactionModel {
    ReactionModel { end: true, outbound: seq![], events: seq![] }
}

/// The reaction of the device with client id `c` to a received packet.
pub open spec fn reaction_to(c: Seq<u8>, p: InboundModel) -> ReactionModel {
    match p {
        InboundModel::Connack { code } => if code is Accepted {
            ReactionModel {
                end: false,
                outbound: seq![
                    MqttMessage::SendDiscovery,
                    MqttMessage::Subscribe(Topic::HaState),
                    MqttMessage::Subscribe(Topic::LedCommand),
                ],
                events: seq![EventModel::Connected],
            }
        } else {
            ended()
        },
        InboundModel::Publish { topic, payload } => match classify(c, encode_utf8(topic)) {
            Some(Topic::HaState) => ReactionModel {
                end: false,
                outbound: seq![MqttMessage::SendDiscovery],
                events: seq![EventModel::Connected],
            },
            Some(Topic::LedCommand) => ReactionModel {
                end: false,
                outbound: seq![],
                events: seq![EventModel::LedCommand(payload)],
            },
            None => nothing(),
        },
        _ => nothing(),
    }
}

/// The reaction to a whole frame `f`: frames that mqttrust cannot read
/// safely, or fails to decode, end the session; a decoded packet gets
/// `reaction_to`.
pub open spec fn frame_reaction(c: Seq<u8>, f: Seq<u8>) -> ReactionModel {
    if !decode_safe(f) {
        ended()
    } else {
        match decode_of(f) {
            Some(p) => reaction_to(c, p),
            None => ended(),
        }
    }
}

fn none() -> (r: Reaction)
    ensures
        r@ == nothing(),
{
    let r = Reaction { end: false, outbound: Vec::new(), events: Vec::new() };
    assert(r@.events =~= Seq::<EventModel>::empty());
    r
}

fn end() -> (r: Reaction)
    ensures
        r@ == ended(),
{
    let r = Reaction { end: true, outbound: Vec::new(), events: Vec::new() };
    assert(r@.events =~= Seq::<EventModel>::empty());
    r
}

/// Reacts to a decoded packet.
pub fn on_packet(client_id: &str, packet: Inbound) -> (r: Reaction)
    ensures
        r@ == reaction_to(client_id.spec_bytes(), packet@),
{
    match packet {
        Inbound::Connack { code } => {
            if let ConnectReturnCode::Accepted = code {
                let mut outbound: Vec<MqttMessage> = Vec::new();
                outbound.push(MqttMessage::SendDiscovery);
                outbound.push(MqttMessage::Subscribe(Topic::HaState));
                outbound.push(MqttMessage::Subscribe(Topic::LedCommand));
                let mut events: Vec<SessionEvent> = Vec::new();
                events.push(SessionEvent::Connected);
                let r = Reaction { end: false, outbound, events };
                assert(r@.outbound =~= seq![
                    MqttMessage::SendDiscovery,
                    MqttMessage::Subscribe(Topic::HaState),
                    MqttMessage::Subscribe(Topic::LedCommand),
                ]);
                assert(r@.events =~= seq![EventModel::Connected]);
                r
            } else {
                end()
            }
        },
        Inbound::Publish { topic, payload } => {
            match Topic::from_topic(client_id, topic.as_str()) {
                Some(Topic::HaState) => {
                    let mut outbound: Vec<MqttMessage> = Vec::new();
                    outbound.push(MqttMessage::SendDiscovery);
                    let mut events: Vec<SessionEvent> = Vec::new();
                    events.push(SessionEvent::Connected);
                    let r = Reaction { end: false, outbound, events };
                    assert(r@.outbound =~= seq![MqttMessage::SendDiscovery]);
                    assert(r@.events =~= seq![EventModel::Connected]);
                    r
                },
                Some(Topic::LedCommand) => {
                    let ghost p = payload@;
                    let mut events: Vec<SessionEvent> = Vec::new();
                    events.push(SessionEvent::LedCommand(payload));
                    let r = Reaction { end: false, outbound: Vec::new(), events };
                    assert(r@.outbound =~= Seq::<MqttMessage>::empty());
                    assert(r@.events =~= seq![EventModel::LedCommand(p)]);
                    r
                },
                None => none(),
            }
        },
        _ => none(),
    }
}

/// The index just past the fixed header of a whole frame.
fn header_len(frame: &[u8]) -> (r: usize)
    requires
        frame@.len() >= 2,
    ensures
        r == header_end(frame@, 1),
        r <= 6,
{
    let mut k: usize = 1;
    while k < 5 && k < frame.len() && frame[k] >= 128
        invariant
            1 <= k <= 5,
            header_end(frame@, 1) == header_end(frame@, k as nat),
        decreases 5 - k,
    {
        k += 1;
    }
    k + 1
}

/// The two bytes at `i` as a big-endian number.
fn be16_at_exec(frame: &[u8], i: usize) -> (r: usize)
    requires
        i + 1 < frame@.len(),
    ensures
        r == be16_at(frame@, i as int),
{
    frame[i] as usize * 256 + frame[i + 1] as usize
}

/// Whether mqttrust's decoder reads only within the whole frame `frame`.
fn is_decode_safe(frame: &[u8]) -> (r: bool)
    requires
        whole_frame(frame@),
    ensures
        r == decode_safe(frame@),
{
    let h = header_len(frame);
    let t = frame[0] / 16;
    if h > frame.len() {
        return t != 2 && t != 4 && t != 5 && t != 6 && t != 7 && t != 8 && t != 9 && t != 10 && t != 11;
    }
    let rem = frame.len() - h;
    if t == 1 {
        rem < 2 || {
            let name_len = be16_at_exec(frame, h);
            name_len + 2 > rem || name_len + 6 <= rem
        }
    } else if t == 2 || t == 4 || t == 5 || t == 6 || t == 7 || t == 8 || t == 9 || t == 10 || t == 11 {
        rem >= 2
    } else if t == 3 {
        let qos = (frame[0] / 2) % 4;
        if qos == 0 || qos == 3 || rem < 2 {
            true
        } else {
            let topic_len = be16_at_exec(frame, h);
            topic_len + 2 > rem || topic_len + 4 <= rem
        }
    } else {
        true
    }
}

/// Reacts to one whole frame.
pub fn on_frame(client_id: &str, frame: &[u8]) -> (r: Reaction)
    requires
        whole_frame(frame@),
    ensures
        r@ == frame_reaction(client_id.spec_bytes(), frame@),
{
    if !is_decode_safe(frame) {
        return end();
    }
    match decode_frame(frame) {
        Ok(Some(p)) => on_packet(client_id, p),
        _ => end(),
    }
}

/// Two reactions, one after the other.
pub open spec fn then(a: ReactionModel, b: ReactionModel) -> ReactionModel {
    ReactionModel { end: a.end || b.end, outbound: a.outbound + b.outbound, events: a.events + b.events }
}

/// A whole frame that `frame_size` finds takes at least two bytes and at
/// most what is buffered.
proof fn lemma_size_bounds(b: Seq<u8>, k: nat)
    requires
        1 <= k,
        size_from(b, k) matches Some(n) && n != 0,
    ensures
        size_from(b, k) matches Some(n) && 2 <= n <= b.len(),
    decreases 5 - k,
{
    if k < 5 && k < b.len() && b[k as int] >= 128 {
        lemma_size_bounds(b, k + 1);
    }
}

/// The length bytes lie within the first `m` bytes, so the value they
/// give is the same on that prefix.
proof fn lemma_varint_prefix(b: Seq<u8>, m: nat, k: nat)
    requires
        k < m <= b.len(),
    ensures
        varint_value(b.subrange(0, m as int), k) == varint_value(b, k),
    decreases k,
{
    if k > 0 {
        lemma_varint_prefix(b, m, (k - 1) as nat);
    }
}

/// A frame that `frame_size` finds is a whole frame on its own.
proof fn lemma_frame_prefix(b: Seq<u8>, k: nat, n: nat)
    requires
        1 <= k,
        size_from(b, k) == Some(n),
        n != 0,
    ensures
        size_from(b.subrange(0, n as int), k) == Some(n),
    decreases 5 - k,
{
    lemma_size_bounds(b, k);
    let p = b.subrange(0, n as int);
    if k < 5 && k < b.len() {
        if b[k as int] >= 128 {
            lemma_frame_prefix(b, k + 1, n);
        } else {
            lemma_varint_prefix(b, n, k);
        }
    }
}

proof fn lemma_then_assoc(a: ReactionModel, b: ReactionModel, d: ReactionModel)
    ensures
        then(a, then(b, d)) == then(then(a, b), d),
{
    assert(then(a, then(b, d)).outbound =~= then(then(a, b), d).outbound);
    assert(then(a, then(b, d)).events =~= then(then(a, b), d).events);
}

/// Works through the buffered bytes `b`, frame by frame, until a frame ends
/// the session, the length field is invalid, or only part of a frame is
/// left. Gives the reactions, one after the other, and the bytes left.
pub open spec fn drain(c: Seq<u8>, b: Seq<u8>) -> (ReactionModel, Seq<u8>)
    decreases b.len(),
{
    match frame_size(b) {
        None => (nothing(), b),
        Some(n) => if n == 0 {
            (ended(), b)
        } else if n < 2 || n > b.len() {
            (nothing(), b)
        } else {
            let r = frame_reaction(c, b.subrange(0, n as int));
            let rest = b.subrange(n as int, b.len() as int);
            if r.end {
                (r, rest)
            } else {
                let (r2, rest2) = drain(c, rest);
                (then(r, r2), rest2)
            }
        },
    }
}

/// The reaction to a read of `bytes` with `held` already buffered: an
/// empty read means that the peer closed the socket.
pub open spec fn read_reaction(c: Seq<u8>, held: Seq<u8>, bytes: Seq<u8>) -> (ReactionModel, Seq<u8>) {
    if bytes.len() == 0 {
        (ended(), held)
    } else {
        drain(c, held + bytes)
    }
}

/// While the buffered bytes hold less than a whole frame, a read decodes
/// nothing, ends nothing, and keeps every byte for the next read.
pub proof fn lemma_partial_read(c: Seq<u8>, held: Seq<u8>, bytes: Seq<u8>)
    requires
        bytes.len() > 0,
        frame_size(held + bytes) is None,
    ensures
        read_reaction(c, held, bytes) == (nothing(), held + bytes),
{
}

/// A read that returns no bytes means that the peer closed the socket:
/// the session ends and nothing is decoded.
pub proof fn lemma_closed_read(c: Seq<u8>, held: Seq<u8>)
    ensures
        read_reaction(c, held, seq![]) == (ended(), held),
{
}

/// The value of the length bytes does not change when bytes are appended.
proof fn lemma_varint_append(x: Seq<u8>, b: Seq<u8>, k: nat)
    requires
        k < x.len(),
    ensures
        varint_value(x + b, k) == varint_value(x, k),
    decreases k,
{
    if k > 0 {
        lemma_varint_append(x, b, (k - 1) as nat);
    }
}

/// Once `frame_size` has an answer other than "incomplete", appending bytes
/// does not change it.
proof fn lemma_size_append(x: Seq<u8>, b: Seq<u8>, k: nat)
    requires
        1 <= k,
        size_from(x, k) is Some,
    ensures
        size_from(x + b, k) == size_from(x, k),
    decreases 5 - k,
{
    if k < 5 && k < x.len() {
        assert((x + b)[k as int] == x[k as int]);
        if x[k as int] >= 128 {
            lemma_size_append(x, b, k + 1);
        } else {
            lemma_varint_append(x, b, k);
        }
    }
}

/// Appending bytes to what `drain` left behind, and draining again, gives
/// what draining everything at once gives.
proof fn lemma_drain_append(c: Seq<u8>, x: Seq<u8>, b: Seq<u8>)
    requires
        !drain(c, x).0.end,
    ensures
        drain(c, x + b) == (then(drain(c, x).0, drain(c, drain(c, x).1 + b).0), drain(c, drain(c, x).1 + b).1),
    decreases x.len(),
{
    match frame_size(x) {
        None => {
            let d = drain(c, x + b).0;
            assert(then(nothing(), d).outbound =~= d.outbound);
            assert(then(nothing(), d).events =~= d.events);
        },
        Some(n) => {
            lemma_size_bounds(x, 1);
            lemma_size_append(x, b, 1);
            let f = x.subrange(0, n as int);
            let rest = x.subrange(n as int, x.len() as int);
            assert((x + b).subrange(0, n as int) =~= f);
            assert((x + b).subrange(n as int, (x + b).len() as int) =~= rest + b);
            let r = frame_reaction(c, f);
            lemma_drain_append(c, rest, b);
            lemma_then_assoc(r, drain(c, rest).0, drain(c, drain(c, rest).1 + b).0);
        },
    }
}

/// The bytes of the stream are handled the same however the reads split
/// them: two reads give, one after the other, the reactions that one read
/// of both would give, and leave the same bytes (unless the first read
/// already ended the session).
pub proof fn lemma_split_reads(c: Seq<u8>, held: Seq<u8>, a: Seq<u8>, b: Seq<u8>)
    requires
        a.len() > 0,
        b.len() > 0,
        !read_reaction(c, held, a).0.end,
    ensures
        read_reaction(c, held, a + b) == ({
            let (r1, h1) = read_reaction(c, held, a);
            let (r2, h2) = read_reaction(c, h1, b);
            (then(r1, r2), h2)
        }),
{
    assert(held + (a + b) =~= (held + a) + b);
    lemma_drain_append(c, held + a, b);
}

fn join_reactions(a: Reaction, b: Reaction) -> (r: Reaction)
    ensures
        r@ == then(a@, b@),
{
    let Reaction { end, mut outbound, mut events } = a;
    let Reaction { end: end2, outbound: mut out2, events: mut ev2 } = b;
    let ghost e1 = events@;
    let ghost e2 = ev2@;
    outbound.append(&mut out2);
    events.append(&mut ev2);
    let r = Reaction { end: end || end2, outbound, events };
    assert(r@.events =~= e1.map_values(|e: SessionEvent| e@) + e2.map_values(|e: SessionEvent| e@));
    r
}

impl ReceiveBuffer {
    /// Takes the bytes of one read, then handles every whole frame that the
    /// buffer holds, in order, until one ends the session or a frame is
    /// incomplete; the bytes of an incomplete frame stay for the next read.
    pub fn receive(&mut self, client_id: &str, bytes: &[u8]) -> (r: Reaction)
        requires
            old(self).wf(),
            old(self)@.len() + bytes@.len() <= old(self).cap(),
        ensures
            final(self).wf(),
            final(self).cap() == old(self).cap(),
            (r@, final(self)@) == read_reaction(client_id.spec_bytes(), old(self)@, bytes@),
    {
        if bytes.len() == 0 {
            return end();
        }
        self.append(bytes);
        let ghost c = client_id.spec_bytes();
        let ghost start = self@;
        let mut acc = none();
        loop
            invariant
                self.wf(),
                self.cap() == old(self).cap(),
                !acc@.end,
                start == old(self)@ + bytes@,
                c == client_id.spec_bytes(),
                bytes@.len() > 0,
                drain(c, start) == (then(acc@, drain(c, self@).0), drain(c, self@).1),
            decreases self@.len(),
        {
            let ghost cur = self@;
            match self.status() {
                FrameStatus::Incomplete => {
                    assert(drain(c, cur) == (nothing(), cur));
                    assert(then(acc@, nothing()).outbound =~= acc@.outbound);
                    assert(then(acc@, nothing()).events =~= acc@.events);
                    return acc;
                },
                FrameStatus::Invalid => {
                    let e = end();
                    let r = join_reactions(acc, e);
                    assert(r@.outbound =~= then(acc@, ended()).outbound);
                    return r;
                },
                FrameStatus::Complete(n) => {
                    proof {
                        lemma_size_bounds(cur, 1);
                        lemma_frame_prefix(cur, 1, n as nat);
                    }
                    let frame = self.take(n);
                    let step = on_frame(client_id, frame.as_slice());
                    let stop = step.end;
                    let ghost before = acc@;
                    let ghost s = step@;
                    acc = join_reactions(acc, step);
                    proof {
                        if !stop {
                            assert(drain(c, cur) == (then(s, drain(c, self@).0), drain(c, self@).1));
                            lemma_then_assoc(before, s, drain(c, self@).0);
                        }
                    }
                    if stop {
                        return acc;
                    }
                },
            }
        }
    }
}

/// The keep-alive tick: queue a PINGREQ and tell the device that the
/// connection is alive.
pub fn on_keepalive() -> (r: Reaction)
    ensures
        r@ == (ReactionModel { end: false, outbound: seq![MqttMessage::Ping], events: seq![EventModel::Connected] }),
{
    let mut outbound: Vec<MqttMessage> = Vec::new();
    outbound.push(MqttMessage::Ping);
    let mut events: Vec<SessionEvent> = Vec::new();
    events.push(SessionEvent::Connected);
    let r = Reaction { end: false, outbound, events };
    assert(r@.outbound =~= seq![MqttMessage::Ping]);
    assert(r@.events =~= seq![EventModel::Connected]);
    r
}

} // verus!
