//! Light stage server configuration.

use vstd::prelude::*;

verus! {

/// An IP address: four IPv4 octets, or eight IPv6 segments.
#[derive(Debug, Clone, Copy, PartialEq, Eq)]
pub enum IpAddress {
    V4([u8; 4]),
    V6([u16; 8]),
}

/// Command line settings; each one left out takes its default.
#[derive(Debug, Clone, Copy)]
pub struct CliConfig {
    /// Maximum DMX refresh rate (in Hz) [default: 30]
    pub max_refresh_rate: Option<u64>,
    /// REST API bind address [default: 0.0.0.0]
    pub ip: Option<IpAddress>,
    /// REST API port [default: 8080]
    pub port: Option<u16>,
}

/// Configuration parameters for the light stage server.
///
/// Defines physical layout of the arcs/fixtures, network configuration of REST API, KiNET, etc.
#[derive(Debug, Clone, Copy)]
pub struct ServerConfig {
    pub num_arcs: usize,
    pub lights_per_arc: usize,
    pub kinet_port: u16,
    pub heartbeat_port: u16,
    /// KiNET / `DmxOut` refresh period in milliseconds
    pub refresh_rate_ms: u64,
    /// REST API bind address
    pub api_ip: IpAddress,
    /// REST API port
    pub api_port: u16,
}

/// The default configuration: 12 arcs of 14 lights, KiNET on 6038,
/// heartbeats on 6045, a 33 ms refresh period (30 Hz), API on 0.0.0.0:8080.
pub open spec fn spec_default_config() -> ServerConfig {
    ServerConfig {
        num_arcs: 12,
        lights_per_arc: 14,
        kinet_port: 6038,
        heartbeat_port: 6045,
        refresh_rate_ms: 33,
        api_ip: IpAddress::V4(spec_unspecified_v4()),
        api_port: 8080,
    }
}

/// The IPv4 address `0.0.0.0`.
pub open spec fn spec_unspecified_v4() -> [u8; 4] {
    vstd::array::spec_array_fill_for_copy_type::<u8, 4>(0u8)
}

impl Default for ServerConfig {
    fn default() -> (r: Self)
        ensures
            r == spec_default_config(),
    {
        Self {
            num_arcs: 12,
            lights_per_arc: 14,
            kinet_port: 6038,
            heartbeat_port: 6045,
            // 40Hz jitters a bit
            refresh_rate_ms: 1_000 / 30,
            api_ip: IpAddress::V4([0u8; 4]),
            api_port: 8080,
        }
    }
}

impl ServerConfig {
    /// The configuration that the command line asks for: the default, with
    /// the refresh period taken from the maximum refresh rate (`1000 / rate`
    /// ms) and the API address and port replaced where they are given.
    pub fn from_cli(cli: CliConfig) -> (r: Self)
        requires
            cli.max_refresh_rate != Some(0u64),
        ensures
            r == (ServerConfig {
                refresh_rate_ms: match cli.max_refresh_rate {
                    Some(rate) => (1000u64 / rate) as u64,
                    None => 33,
                },
                api_ip: match cli.ip {
                    Some(ip) => ip,
                    None => IpAddress::V4(spec_unspecified_v4()),
                },
                api_port: match cli.port {
                    Some(p) => p,
                    None => 8080,
                },
                ..spec_default_config()
            }),
    {
        let def = Self::default();
        Self {
            refresh_rate_ms: match cli.max_refresh_rate {
                Some(rate) => 1_000 / rate,
                None => def.refresh_rate_ms,
            },
            api_ip: match cli.ip {
                Some(ip) => ip,
                None => def.api_ip,
            },
            api_port: match cli.port {
                Some(p) => p,
                None => def.api_port,
            },
            ..def
        }
    }
}

} // verus!
