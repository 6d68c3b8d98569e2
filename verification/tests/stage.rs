use lightstage::animator::{Animator, OlatAnimator, PlaybackAnimator};
use lightstage::api::{FixtureColour, StageFrame};
use lightstage::config::{CliConfig, IpAddress, ServerConfig};
use lightstage::fixtures::{DmxAddress, DmxValue, Fixture, RgbFixture, WhiteFixture};
use lightstage::renderer::{LightStageFrame, Renderer};
use lightstage::state::{
    CaptureRequestError, ModeTransition, StageEvent, StageMode, StageState, TickResult,
};

fn small_config(num_arcs: usize, lights_per_arc: usize) -> ServerConfig {
    ServerConfig {
        num_arcs,
        lights_per_arc,
        ..ServerConfig::default()
    }
}

/// A renderer laid out as the server lays it out: each light an RGB and a
/// white fixture at channel `light * 6 + 1`.
fn stage_renderer(config: &ServerConfig) -> Renderer {
    let mut renderer = Renderer::new(config);
    for arc in 0..config.num_arcs {
        for light in 0..config.lights_per_arc {
            let address = DmxAddress::new((light * 6 + 1) as u16).unwrap();
            renderer.rgb_fixtures[arc].push(RgbFixture::new(address).unwrap());
            renderer.white_fixtures[arc].push(WhiteFixture::new(address).unwrap());
        }
    }
    renderer
}

fn empty_frame() -> StageFrame {
    StageFrame {
        white_fixtures: Vec::new(),
        rgb_fixtures: Vec::new(),
    }
}

#[test]
fn test_dmx_address_range() {
    assert!(DmxAddress::new(0).is_none());
    assert!(DmxAddress::new(513).is_none());
    assert_eq!(DmxAddress::new(1).unwrap().index(), 0);
    assert_eq!(DmxAddress::new(512).unwrap().index(), 511);
}

#[test]
fn test_fixture_fits_universe() {
    // 16-bit RGB needs 6 channels: 507..=512 fits, 508 does not
    assert!(RgbFixture::<u16>::new(DmxAddress::new(507).unwrap()).is_some());
    assert!(RgbFixture::<u16>::new(DmxAddress::new(508).unwrap()).is_none());
    // 8-bit needs 3 channels
    assert!(WhiteFixture::<u8>::new(DmxAddress::new(510).unwrap()).is_some());
    assert!(WhiteFixture::<u8>::new(DmxAddress::new(511).unwrap()).is_none());
    let f = RgbFixture::<u16>::new(DmxAddress::new(7).unwrap()).unwrap();
    assert_eq!(f.channels(), 6);
    assert_eq!(f.address().index(), 6);
    assert_eq!((f.r, f.g, f.b), (0, 0, 0));
}

#[test]
fn test_fixture_writes_big_endian_channels() {
    let mut f = RgbFixture::<u16>::new(DmxAddress::new(3).unwrap()).unwrap();
    f.set_color(0x0102, 0x0304, 0xFFFF);
    let mut universe = [0xAAu8; 512];
    f.write_to_universe(&mut universe);
    assert_eq!(&universe[0..2], &[0xAA, 0xAA]);
    assert_eq!(&universe[2..8], &[0x01, 0x02, 0x03, 0x04, 0xFF, 0xFF]);
    assert_eq!(universe[8], 0xAA);

    let mut w = WhiteFixture::<u8>::new(DmxAddress::new(1).unwrap()).unwrap();
    w.set_white(1, 2, 3);
    w.write_to_universe(&mut universe);
    assert_eq!(&universe[0..3], &[1, 2, 3]);

    let mut buf = [0u8; 4];
    0xBEEFu16.write_to(&mut buf, 1);
    assert_eq!(buf, [0, 0xBE, 0xEF, 0]);
    assert_eq!(<u16 as DmxValue>::CHANNELS, 2);
}

#[test]
fn test_frame_black_and_clear() {
    let mut frame = LightStageFrame::black(3);
    assert_eq!(frame.rgb_universes.len(), 3);
    assert_eq!(frame.white_universes.len(), 3);
    assert!(frame.rgb_universes.iter().all(|u| u.iter().all(|&b| b == 0)));
    frame.rgb_universes[1][7] = 9;
    frame.white_universes[2][0] = 9;
    frame.clear();
    assert_eq!(frame, LightStageFrame::black(3));
}

#[test]
fn test_renderer_update() {
    let config = small_config(2, 2);
    let mut renderer = stage_renderer(&config);
    renderer.rgb_fixtures[1][1].set_color(1, 2, 3);
    renderer.white_fixtures[0][0].set_white(0x100, 0, 0xFF00);
    let mut frame = LightStageFrame::black(2);
    renderer.update(&mut frame);
    assert_eq!(&frame.rgb_universes[1][6..12], &[0, 1, 0, 2, 0, 3]);
    assert_eq!(&frame.white_universes[0][0..6], &[1, 0, 0, 0, 0xFF, 0]);
    assert!(frame.rgb_universes[0].iter().all(|&b| b == 0));
}

#[test]
fn test_olat_visits_each_light_once() {
    let config = small_config(2, 3);
    let mut renderer = stage_renderer(&config);
    let mut olat = OlatAnimator::new(&config);
    assert_eq!(olat.total_frames(), Some(6));
    let mut lit = Vec::new();
    for _ in 0..6 {
        assert!(olat.tick(&mut renderer));
        let mut on = Vec::new();
        for (a, arc) in renderer.white_fixtures.iter().enumerate() {
            for (l, f) in arc.iter().enumerate() {
                if (f.warm, f.neutral, f.cool) == (u16::MAX, u16::MAX, u16::MAX) {
                    on.push((a, l));
                } else {
                    assert_eq!((f.warm, f.neutral, f.cool), (0, 0, 0));
                }
            }
        }
        assert_eq!(on.len(), 1);
        lit.push(on[0]);
    }
    assert_eq!(lit, vec![(0, 0), (0, 1), (0, 2), (1, 0), (1, 1), (1, 2)]);
    // done: everything off
    assert!(!olat.tick(&mut renderer));
    assert!(renderer
        .white_fixtures
        .iter()
        .flatten()
        .all(|f| (f.warm, f.neutral, f.cool) == (0, 0, 0)));
}

#[test]
fn test_playback_applies_frames_in_range() {
    let config = small_config(1, 2);
    let mut renderer = stage_renderer(&config);
    let frame = StageFrame {
        white_fixtures: vec![vec![FixtureColour(4, 5, 6)]],
        rgb_fixtures: vec![
            vec![FixtureColour(1, 2, 3), FixtureColour(7, 8, 9), FixtureColour(9, 9, 9)],
            vec![FixtureColour(9, 9, 9)],
        ],
    };
    let mut playback = PlaybackAnimator::new(vec![frame]);
    assert_eq!(playback.total_frames(), Some(1));
    assert!(playback.tick(&mut renderer));
    let rgb: Vec<_> = renderer.rgb_fixtures[0].iter().map(|f| (f.r, f.g, f.b)).collect();
    assert_eq!(rgb, vec![(1, 2, 3), (7, 8, 9)]);
    let w = &renderer.white_fixtures[0];
    assert_eq!((w[0].warm, w[0].neutral, w[0].cool), (4, 5, 6));
    assert_eq!((w[1].warm, w[1].neutral, w[1].cool), (0, 0, 0));
    assert!(!playback.tick(&mut renderer));
}

#[test]
fn test_fixture_colour_into_tuple() {
    let t: (u16, u16, u16) = FixtureColour(1, 2, 3).into();
    assert_eq!(t, (1, 2, 3));
}

#[test]
fn test_server_config_defaults_and_cli() {
    let d = ServerConfig::default();
    assert_eq!(d.num_arcs, 12);
    assert_eq!(d.lights_per_arc, 14);
    assert_eq!(d.kinet_port, 6038);
    assert_eq!(d.heartbeat_port, 6045);
    assert_eq!(d.refresh_rate_ms, 33);
    assert_eq!(d.api_ip, IpAddress::V4([0, 0, 0, 0]));
    assert_eq!(d.api_port, 8080);

    let c = ServerConfig::from_cli(CliConfig {
        max_refresh_rate: Some(40),
        ip: Some(IpAddress::V4([127, 0, 0, 1])),
        port: None,
    });
    assert_eq!(c.refresh_rate_ms, 25);
    assert_eq!(c.api_ip, IpAddress::V4([127, 0, 0, 1]));
    assert_eq!(c.api_port, 8080);
    assert_eq!(c.num_arcs, 12);
}

fn new_state(num_arcs: usize, lights_per_arc: usize) -> StageState<u32> {
    let config = small_config(num_arcs, lights_per_arc);
    StageState::new(stage_renderer(&config), config)
}

#[test]
fn test_manual_trigger_fires_once() {
    let mut state = new_state(1, 1);
    let mut dest = LightStageFrame::black(1);
    assert_eq!(
        state.request_manual_capture(),
        Err(CaptureRequestError::NotManual)
    );
    state.transition_to(ModeTransition::Manual);
    assert_eq!(state.mode(), StageMode::Manual);
    assert_eq!(
        state.take_events(),
        vec![StageEvent::ModeChanged(StageMode::Manual)]
    );
    assert_eq!(state.request_manual_capture(), Ok(()));
    assert_eq!(
        state.request_manual_capture(),
        Err(CaptureRequestError::AlreadyPending)
    );
    assert_eq!(
        state.advance_tick(&mut dest, &empty_frame()),
        TickResult::TriggerCapture
    );
    assert_eq!(
        state.advance_tick(&mut dest, &empty_frame()),
        TickResult::Continue
    );
    assert!(state.take_events().is_empty());
}

#[test]
fn test_manual_update_renders_and_drops_pending_trigger() {
    let mut state = new_state(2, 2);
    let mut dest = LightStageFrame::black(2);
    state.transition_to(ModeTransition::Manual);
    state.request_manual_capture().unwrap();
    state.update_rgb_and_white_single_fixture(1, 0, Some((0x0102, 0, 0)), None);
    // the update switched to manual again, which drops the queued trigger
    assert_eq!(
        state.advance_tick(&mut dest, &empty_frame()),
        TickResult::Continue
    );
    assert_eq!(&dest.rgb_universes[1][0..2], &[0x01, 0x02]);

    state.update_rgb_and_white_arc(0, None, Some((1, 1, 1)));
    state.advance_tick(&mut dest, &empty_frame());
    assert_eq!(&dest.white_universes[0][0..12], &[0, 1, 0, 1, 0, 1, 0, 1, 0, 1, 0, 1]);

    state.update_rgb_and_white_stage(Some((0, 0, 0)), None);
    state.advance_tick(&mut dest, &empty_frame());
    assert!(dest.rgb_universes.iter().flatten().all(|&b| b == 0));

    state.update_rgb_and_white_batch_fixtures(&vec![
        (0, 1, Some((5, 5, 5)), None),
        (0, 1, Some((6, 6, 6)), Some((2, 2, 2))),
    ]);
    state.advance_tick(&mut dest, &empty_frame());
    assert_eq!(&dest.rgb_universes[0][6..8], &[0, 6]);
    assert_eq!(&dest.white_universes[0][6..8], &[0, 2]);
    // only one mode change event: the first switch to manual
    assert_eq!(
        state.take_events(),
        vec![StageEvent::ModeChanged(StageMode::Manual)]
    );
}

#[test]
fn test_playback_session_runs_to_completion() {
    let mut state = new_state(1, 1);
    let mut dest = LightStageFrame::black(1);
    let frames = vec![
        StageFrame {
            white_fixtures: vec![],
            rgb_fixtures: vec![vec![FixtureColour(1, 0, 0)]],
        },
        StageFrame {
            white_fixtures: vec![],
            rgb_fixtures: vec![vec![FixtureColour(2, 0, 0)]],
        },
    ];
    state.transition_to(ModeTransition::Playback(25, frames));
    assert_eq!(state.mode(), StageMode::Playback);
    assert_eq!(state.capture_config(), Some(25));
    assert_eq!(
        state.advance_tick(&mut dest, &empty_frame()),
        TickResult::TriggerCapture
    );
    assert_eq!(dest.rgb_universes[0][1], 1);
    assert_eq!(
        state.advance_tick(&mut dest, &empty_frame()),
        TickResult::TriggerCapture
    );
    assert_eq!(dest.rgb_universes[0][1], 2);
    assert_eq!(
        state.advance_tick(&mut dest, &empty_frame()),
        TickResult::Finished
    );
    assert_eq!(state.mode(), StageMode::Demo);
    assert_eq!(state.capture_config(), None);
    assert_eq!(
        state.take_events(),
        vec![
            StageEvent::ModeChanged(StageMode::Playback),
            StageEvent::CaptureFinished,
            StageEvent::ModeChanged(StageMode::Demo),
        ]
    );
}

#[test]
fn test_olat_session_counts_every_light() {
    let mut state = new_state(2, 2);
    let mut dest = LightStageFrame::black(2);
    state.transition_to(ModeTransition::Olat(7));
    let mut captures = 0;
    loop {
        match state.advance_tick(&mut dest, &empty_frame()) {
            TickResult::TriggerCapture => captures += 1,
            TickResult::Finished => break,
            TickResult::Continue => panic!("OLAT should not continue without capture"),
        }
    }
    assert_eq!(captures, 4);
    assert_eq!(state.mode(), StageMode::Demo);
}

#[test]
fn test_demo_shows_demo_frame() {
    let mut state = new_state(1, 1);
    let mut dest = LightStageFrame::black(1);
    let demo = StageFrame {
        white_fixtures: vec![vec![FixtureColour(0x1234, 0, 0)]],
        rgb_fixtures: vec![],
    };
    assert_eq!(state.advance_tick(&mut dest, &demo), TickResult::Continue);
    assert_eq!(&dest.white_universes[0][0..2], &[0x12, 0x34]);
    assert_eq!(state.mode(), StageMode::Demo);
    // no event when the mode does not change
    state.transition_to(ModeTransition::Demo);
    assert!(state.take_events().is_empty());
}

#[test]
fn test_new_stage_accepts_any_renderer() {
    // a renderer with fewer arcs than configured, and no fixtures
    let config = small_config(3, 2);
    let renderer = Renderer::new(&small_config(1, 0));
    let mut state: StageState<u32> = StageState::new(renderer, config);
    assert_eq!(state.mode(), StageMode::Demo);
    assert_eq!(state.capture_config(), None);
    assert!(state.take_events().is_empty());
    let mut dest = LightStageFrame::black(3);
    assert_eq!(state.advance_tick(&mut dest, &empty_frame()), TickResult::Continue);
    assert_eq!(dest, LightStageFrame::black(3));
}

#[test]
fn test_new_stage_with_oversized_configuration() {
    // the number of lights does not fit a usize; only an OLAT session counts them
    let config = small_config(2, usize::MAX);
    let renderer = Renderer::new(&small_config(2, 0));
    let mut state: StageState<u32> = StageState::new(renderer, config);
    assert_eq!(state.mode(), StageMode::Demo);
    let mut dest = LightStageFrame::black(2);
    assert_eq!(state.advance_tick(&mut dest, &empty_frame()), TickResult::Continue);
    state.transition_to(ModeTransition::Manual);
    assert_eq!(state.mode(), StageMode::Manual);
}
