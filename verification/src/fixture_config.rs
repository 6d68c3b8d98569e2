//! Fixture configuration items.

use vstd::prelude::*;

verus! {

/// Configuration items for a fixture
///
/// This was reverse engineered from iColor MR gen3 fixtures.
/// Other fixtures may be different.
#[derive(Debug, Clone, Copy, PartialEq, Eq)]
pub enum FixtureConfiguration {
    /// Zero indexed DMX address
    DmxAddress,
    /// `0x00`=linear, `0x01`=normal, `0x02`=tungsten
    DimmingCurve,
    /// `0x01`=8 bit, `0x00`=16 bit
    Resolution,
    StartupChannel1,
    StartupChannel2,
    StartupChannel3,
}

impl FixtureConfiguration {
    /// The byte that identifies this configuration item.
    pub fn code(self) -> (c: u8)
        ensures
            c == match self {
                FixtureConfiguration::DmxAddress => 0x41u8,
                FixtureConfiguration::DimmingCurve => 0x6d,
                FixtureConfiguration::Resolution => 0x6e,
                FixtureConfiguration::StartupChannel1 => 0x43,
                FixtureConfiguration::StartupChannel2 => 0x44,
                FixtureConfiguration::StartupChannel3 => 0x45,
            },
    {
        match self {
            FixtureConfiguration::DmxAddress => 0x41,
            FixtureConfiguration::DimmingCurve => 0x6d,
            FixtureConfiguration::Resolution => 0x6e,
            FixtureConfiguration::StartupChannel1 => 0x43,
            FixtureConfiguration::StartupChannel2 => 0x44,
            FixtureConfiguration::StartupChannel3 => 0x45,
        }
    }
}

} // verus!
