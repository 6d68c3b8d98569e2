//! # KiNET and the light stage
//!
//! Serialisation for a subset of the KiNET (Philips Color Kinetics) v1 UDP
//! protocol, including:
//! - Power supply discovery (`PollPayload`, `PollReplyPayload`)
//! - DMX output (`DmxOutHeader`)
//!
//! and the core of a light stage server that drives power supplies with it:
//! fixtures and DMX universes, frame rendering, animators (one light at a
//! time, sequence playback), the stage's mode state machine, and power
//! supply discovery and addressing.
//!
//! ## Endianness
//!
//! The protocol appears to be primarily little-endian for most fields,
//! however for the DMX data, most fixtures that use multiple bytes per
//! channel are big-endian. The packet magic is big-endian.

pub mod animator;
pub mod api;
pub mod bytes;
pub mod config;
pub mod error;
pub mod fixture_config;
pub mod fixtures;
pub mod network;
pub mod packet;
pub mod payload;
pub mod renderer;
pub mod sequence;
pub mod state;

pub use error::{IoErrorKind, KinetError};
pub use fixture_config::FixtureConfiguration;
pub use packet::{KinetPacketHeader, KinetPacketType};
pub use payload::{DmxOutHeader, HeartBeatPayload, KinetPayload, PollPayload, PollReplyPayload};

use vstd::prelude::*;

verus! {

/// Default target UDP port
pub const KINET_UDP_PORT: u16 = 6038;

} // verus!
