//! The application bridge: remembers the light state and turns session
//! events into announcements.
use vstd::prelude::*;
use crate::message::{DeviceState, MqttMessage};
use crate::payload::{state_of, LedPayload, LedState};

verus! {

/// What the LED task runs.
#[derive(Clone, Copy, Debug, PartialEq, Eq, Structural)]
pub enum LedProgram {
    Off,
    Solid { red: u8, green: u8, blue: u8 },
    Flames,
}

pub open spec fn program_of(s: LedState) -> LedProgram {
    match s {
        LedState::Off => LedProgram::Off,
        LedState::On { red, green, blue } => LedProgram::Solid { red, green, blue },
    }
}

impl LedProgram {
    /// The program that shows a light state.
    pub fn from_state(s: LedState) -> (r: LedProgram)
        ensures
            r == program_of(s),
    {
        match s {
            LedState::Off => LedProgram::Off,
            LedState::On { red, green, blue } => LedProgram::Solid { red, green, blue },
        }
    }
}

/// Owns the last light state that was applied.
pub struct Bridge {
    current: LedState,
}

impl View for Bridge {
    type V = LedState;

    closed spec fn view(&self) -> LedState {
        self.current
    }
}

impl Bridge {
    pub fn new(initial: LedState) -> (r: Bridge)
        ensures
            r@ == initial,
    {
        Bridge { current: initial }
    }

    /// The light state last applied.
    pub fn current(&self) -> (r: LedState)
        ensures
            r == self@,
    {
        self.current
    }

    /// On connection: announce that the device is online, then its light
    /// state.
    pub fn on_connected(&self) -> (r: Vec<MqttMessage>)
        ensures
            r@ == seq![MqttMessage::SendState(DeviceState::Online), MqttMessage::SendState(DeviceState::Led(self@))],
    {
        let mut v: Vec<MqttMessage> = Vec::new();
        v.push(MqttMessage::SendState(DeviceState::Online));
        v.push(MqttMessage::SendState(DeviceState::Led(self.current)));
        assert(v@ =~= seq![MqttMessage::SendState(DeviceState::Online), MqttMessage::SendState(DeviceState::Led(self@))]);
        v
    }

    /// On a light command: remember the state it asks for and announce it.
    /// The caller applies `current()` to the LEDs.
    pub fn on_command(&mut self, payload: &LedPayload) -> (r: Vec<MqttMessage>)
        ensures
            final(self)@ == state_of(*payload),
            r@ == seq![MqttMessage::SendState(DeviceState::Led(state_of(*payload)))],
    {
        self.current = payload.to_state();
        let mut v: Vec<MqttMessage> = Vec::new();
        v.push(MqttMessage::SendState(DeviceState::Led(self.current)));
        assert(v@ =~= seq![MqttMessage::SendState(DeviceState::Led(state_of(*payload)))]);
        v
    }
}

} // verus!
