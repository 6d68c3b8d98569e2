//! Values exchanged with API clients.

use vstd::prelude::*;

use crate::state::StageMode;

verus! {

/// Generic colour of a 3-channel fixture, e.g. an `RgbFixture` or a `WhiteFixture`.
#[derive(Debug, Clone, Copy, PartialEq, Eq)]
pub struct FixtureColour(pub u16, pub u16, pub u16);

impl From<FixtureColour> for (u16, u16, u16) {
    fn from(c: FixtureColour) -> (r: (u16, u16, u16)) {
        (c.0, c.1, c.2)
    }
}

impl vstd::std_specs::convert::FromSpecImpl<FixtureColour> for (u16, u16, u16) {
    open spec fn obeys_from_spec() -> bool {
        true
    }

    open spec fn from_spec(c: FixtureColour) -> (u16, u16, u16) {
        (c.0, c.1, c.2)
    }
}

/// A single frame: the colours of all white and colour fixtures of the light
/// stage, by arc and then by light.
#[derive(Debug, Clone, PartialEq, Eq)]
pub struct StageFrame {
    pub white_fixtures: Vec<Vec<FixtureColour>>,
    pub rgb_fixtures: Vec<Vec<FixtureColour>>,
}

/// An event pushed to websocket clients.
#[derive(Debug, Clone, Copy, PartialEq, Eq)]
pub enum WsEvent {
    ModeChanged(StageMode),
}

/// Error codes that can be returned to websocket clients.
#[derive(Debug, Clone, Copy, PartialEq, Eq)]
pub enum WsErrorKind {
    InvalidPayload,
}

} // verus!
