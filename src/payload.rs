//! Light state and the model of the JSON light payload: what a command
//! asks for and what the device announces.
use vstd::prelude::*;

verus! {

/// The state of the LED strip as the device announces it.
#[derive(Clone, Copy, Debug, PartialEq, Eq, Structural)]
pub enum LedState {
    Off,
    On { red: u8, green: u8, blue: u8 },
}

/// The `state` field of a light payload.
#[derive(Clone, Copy, Debug, PartialEq, Eq, Structural)]
pub enum State {
    On,
    Off,
}

/// The `color_mode` field of a light payload.
#[derive(Clone, Copy, Debug, PartialEq, Eq, Structural)]
pub enum ColorMode {
    Rgb,
}

/// The `color` object of a light payload.
#[derive(Clone, Copy, Debug, PartialEq, Eq, Structural)]
pub struct LedColor {
    pub r: u8,
    pub g: u8,
    pub b: u8,
}

/// A light payload: the JSON object exchanged on the state and command
/// topics, field by field. Absent optional fields are `None`.
#[derive(Clone, Copy, Debug, PartialEq, Eq, Structural)]
pub struct LedPayload {
    pub state: State,
    pub brightness: Option<u8>,
    pub color_mode: Option<ColorMode>,
    pub color: Option<LedColor>,
}

/// The light state that a payload asks for: a colour when it is on with a
/// colour, a grey of its brightness when it is on with a brightness only,
/// off otherwise.
pub open spec fn state_of(p: LedPayload) -> LedState {
    match (p.state, p.brightness, p.color) {
        (State::On, _, Some(c)) => LedState::On { red: c.r, green: c.g, blue: c.b },
        (State::On, Some(br), None) => LedState::On { red: br, green: br, blue: br },
        _ => LedState::Off,
    }
}

/// The payload that announces a light state.
pub open spec fn payload_of(s: LedState) -> LedPayload {
    match s {
        LedState::Off => LedPayload { state: State::Off, brightness: None, color_mode: None, color: None },
        LedState::On { red, green, blue } => LedPayload {
            state: State::On,
            brightness: None,
            color_mode: Some(ColorMode::Rgb),
            color: Some(LedColor { r: red, g: green, b: blue }),
        },
    }
}

impl LedPayload {
    /// A payload from its fields.
    pub fn new(
        state: State,
        brightness: Option<u8>,
        color_mode: Option<ColorMode>,
        color: Option<LedColor>,
    ) -> (r: LedPayload)
        ensures
            r == (LedPayload { state, brightness, color_mode, color }),
    {
        LedPayload { state, brightness, color_mode, color }
    }

    /// The payload that announces `state`: `OFF` alone, or `ON` with the
    /// RGB colour mode and the colour.
    pub fn from_state(state: &LedState) -> (r: LedPayload)
        ensures
            r == payload_of(*state),
    {
        match state {
            LedState::Off => LedPayload { state: State::Off, brightness: None, color_mode: None, color: None },
            LedState::On { red, green, blue } => LedPayload {
                state: State::On,
                brightness: None,
                color_mode: Some(ColorMode::Rgb),
                color: Some(LedColor { r: *red, g: *green, b: *blue }),
            },
        }
    }

    /// The light state that this payload asks for.
    pub fn to_state(&self) -> (r: LedState)
        ensures
            r == state_of(*self),
    {
        match (&self.state, &self.brightness, &self.color) {
            (State::On, _, Some(c)) => LedState::On { red: c.r, green: c.g, blue: c.b },
            (State::On, Some(br), None) => LedState::On { red: *br, green: *br, blue: *br },
            _ => LedState::Off,
        }
    }
}

/// A payload that announces a state asks for that same state again.
pub proof fn lemma_state_round_trip(s: LedState)
    ensures
        state_of(payload_of(s)) == s,
{
}

/// A payload whose state is `OFF` asks for off, whatever else it holds.
pub proof fn lemma_off_wins(p: LedPayload)
    requires
        p.state == State::Off,
    ensures
        state_of(p) == LedState::Off,
{
}

} // verus!
