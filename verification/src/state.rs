//! The light stage state machine: modes, mode transitions, events and
//! animator frame stepping.
//!
//! `StageState` is the central source of truth of the server: API requests
//! change it, and the KiNET refresh loop asks it for each frame to send.

use vstd::prelude::*;

use crate::animator::{
    apply_stage_frame, frame_applied, olat_lit, olat_start, olat_step, same_fixtures, same_shape,
    Animator, OlatAnimator, OlatProgress, PlaybackAnimator,
};
use crate::api::StageFrame;
use crate::config::ServerConfig;
use crate::fixtures::{Fixture, RgbFixture, WhiteFixture};
use crate::renderer::{all_wf, rendered, LightStageFrame, Renderer};

verus! {

/// Defines the active operation mode of the light stage.
#[derive(Debug, Clone, Copy, PartialEq, Eq, Structural)]
pub enum StageMode {
    /// Runs a pleasing background animation
    Demo,
    /// Awaits explicitly defined frames via the API.
    ///
    /// Keeps refreshing the same frame if no new updates are sent.
    Manual,
    /// Plays back a pre-loaded sequence of frames. Used for capture.
    Playback,
    /// One Light At a Time
    OLAT,
}

/// State change events which can be emitted
#[derive(Debug, Clone, Copy, PartialEq, Eq, Structural)]
pub enum StageEvent {
    /// Emitted when stage transitions to a new `StageMode`
    ModeChanged(StageMode),
    /// Emitted when an active capture session completes.
    CaptureFinished,
}

/// Result of `StageState::advance_tick`: what the refresh loop should do.
#[derive(Debug, Clone, Copy, PartialEq, Eq, Structural)]
pub enum TickResult {
    /// Animator is still running, continue.
    Continue,
    /// Animator is running and requested cameras to fire
    TriggerCapture,
    /// Animator has ended
    Finished,
}

/// Why a manual capture could not be requested.
#[derive(Debug, Clone, Copy, PartialEq, Eq, Structural)]
pub enum CaptureRequestError {
    /// The stage is not in `StageMode::Manual`.
    NotManual,
    /// A manual trigger is already pending.
    AlreadyPending,
}

/// Metadata about an active capturing session (for `StageMode::OLAT` or `StageMode::Playback`).
///
/// `C` is the capture configuration, which this state machine carries but
/// does not inspect.
#[derive(Debug, Clone, Copy)]
pub struct CaptureSession<C> {
    /// Index of the frame currently being processed.
    pub current_frame_idx: usize,
    /// Total frames in the capture session
    pub total_frames: usize,
    /// Capture timing configuration
    pub config: C,
}

impl<C> CaptureSession<C> {
    /// A session of `total_frames` frames, at its first frame.
    pub fn new(total_frames: usize, config: C) -> (s: Self)
        ensures
            s == (CaptureSession { current_frame_idx: 0, total_frames, config }),
    {
        Self { current_frame_idx: 0, total_frames, config }
    }
}

/// The session after one more frame.
pub open spec fn session_advanced<C>(s: CaptureSession<C>) -> CaptureSession<C> {
    CaptureSession {
        current_frame_idx: if s.current_frame_idx < usize::MAX {
            (s.current_frame_idx + 1) as usize
        } else {
            s.current_frame_idx
        },
        ..s
    }
}

/// Requested transition.
pub enum ModeTransition<C> {
    /// Transition to `StageMode::Demo`
    Demo,
    /// Transition to `StageMode::Manual`
    Manual,
    /// Transition to `StageMode::OLAT`
    Olat(C),
    /// Transition to `StageMode::Playback`, playing these frames
    Playback(C, Vec<StageFrame>),
}

/// Internal execution states.
enum RuntimeMode<C> {
    /// `StageMode::Demo`
    Demo,
    /// `StageMode::Manual`, with a capture trigger queued or not
    Manual { capture_requested: bool },
    /// Animator and capture session for `StageMode::Playback`
    Playback { animator: PlaybackAnimator, session: CaptureSession<C> },
    /// Animator and capture session for `StageMode::OLAT`
    Olat { animator: OlatAnimator, session: CaptureSession<C> },
}

/// The abstract execution state.
pub enum RuntimeView<C> {
    Demo,
    Manual { capture_requested: bool },
    /// Playing `frames`; `next` is the index of the next frame to show.
    Playback { frames: Seq<StageFrame>, next: int, session: CaptureSession<C> },
    Olat { progress: OlatProgress, session: CaptureSession<C> },
}

/// The public-facing mode of an execution state.
pub open spec fn mode_of<C>(rt: RuntimeView<C>) -> StageMode {
    match rt {
        RuntimeView::Demo => StageMode::Demo,
        RuntimeView::Manual { .. } => StageMode::Manual,
        RuntimeView::Playback { .. } => StageMode::Playback,
        RuntimeView::Olat { .. } => StageMode::OLAT,
    }
}

/// The capture session of an execution state, if it has one.
pub open spec fn session_of<C>(rt: RuntimeView<C>) -> Option<CaptureSession<C>> {
    match rt {
        RuntimeView::Playback { session, .. } => Some(session),
        RuntimeView::Olat { session, .. } => Some(session),
        _ => None,
    }
}

/// The events emitted when the mode goes from `old` to `new`: a
/// `ModeChanged` exactly when the mode changes.
pub open spec fn mode_change_events(old: StageMode, new: StageMode) -> Seq<StageEvent> {
    if old != new {
        seq![StageEvent::ModeChanged(new)]
    } else {
        seq![]
    }
}

/// One tick of the refresh loop on an execution state: the next execution
/// state, what the loop should do, and the events emitted.
pub open spec fn spec_tick<C>(rt: RuntimeView<C>) -> (RuntimeView<C>, TickResult, Seq<StageEvent>) {
    match rt {
        RuntimeView::Demo => (RuntimeView::Demo, TickResult::Continue, seq![]),
        RuntimeView::Manual { capture_requested } => (
            RuntimeView::Manual { capture_requested: false },
            if capture_requested {
                TickResult::TriggerCapture
            } else {
                TickResult::Continue
            },
            seq![],
        ),
        RuntimeView::Playback { frames, next, session } => if next < frames.len() {
            (
                RuntimeView::Playback { frames, next: next + 1, session: session_advanced(session) },
                TickResult::TriggerCapture,
                seq![],
            )
        } else {
            (
                RuntimeView::Demo,
                TickResult::Finished,
                seq![StageEvent::CaptureFinished, StageEvent::ModeChanged(StageMode::Demo)],
            )
        },
        RuntimeView::Olat { progress, session } => if !progress.done {
            (
                RuntimeView::Olat {
                    progress: olat_step(progress),
                    session: session_advanced(session),
                },
                TickResult::TriggerCapture,
                seq![],
            )
        } else {
            (
                RuntimeView::Demo,
                TickResult::Finished,
                seq![StageEvent::CaptureFinished, StageEvent::ModeChanged(StageMode::Demo)],
            )
        },
    }
}

/// Requesting a manual capture: accepted, and queued, only in manual mode
/// with no capture queued yet.
pub open spec fn spec_request_capture<C>(rt: RuntimeView<C>) -> (
    RuntimeView<C>,
    Result<(), CaptureRequestError>,
) {
    match rt {
        RuntimeView::Manual { capture_requested: false } => (
            RuntimeView::Manual { capture_requested: true },
            Ok(()),
        ),
        RuntimeView::Manual { capture_requested: true } => (
            rt,
            Err(CaptureRequestError::AlreadyPending),
        ),
        _ => (rt, Err(CaptureRequestError::NotManual)),
    }
}

/// The execution state after `k` ticks.
pub open spec fn spec_ticks<C>(rt: RuntimeView<C>, k: nat) -> RuntimeView<C>
    decreases k,
{
    if k == 0 {
        rt
    } else {
        spec_tick(spec_ticks(rt, (k - 1) as nat)).0
    }
}

/// The session after `k` more frames.
pub open spec fn session_after<C>(s: CaptureSession<C>, k: nat) -> CaptureSession<C>
    decreases k,
{
    if k == 0 {
        s
    } else {
        session_advanced(session_after(s, (k - 1) as nat))
    }
}

/// A manual capture trigger fires exactly once: in manual mode with nothing
/// queued, a request is accepted; the next tick triggers the cameras and
/// consumes the request, so the tick after continues without triggering.
/// A second request before the tick is refused as already pending.
pub proof fn law_manual_trigger_fires_once<C>()
    ensures
        ({
            let (rt1, res) = spec_request_capture(RuntimeView::<C>::Manual { capture_requested: false });
            &&& res is Ok
            &&& spec_request_capture(rt1).1 == Err::<(), CaptureRequestError>(
                CaptureRequestError::AlreadyPending,
            )
            &&& spec_tick(rt1).1 == TickResult::TriggerCapture
            &&& spec_tick(spec_tick(rt1).0).1 == TickResult::Continue
            &&& spec_tick(spec_tick(rt1).0).0 == RuntimeView::<C>::Manual { capture_requested: false }
        }),
{
}

/// Only manual mode accepts capture requests.
pub proof fn law_capture_request_needs_manual<C>(rt: RuntimeView<C>)
    requires
        !(rt is Manual),
    ensures
        spec_request_capture(rt) == (rt, Err::<(), CaptureRequestError>(CaptureRequestError::NotManual)),
{
}

/// The demo animation never ends: a tick in demo mode stays in demo mode,
/// continues, and emits nothing.
pub proof fn law_demo_never_finishes<C>()
    ensures
        spec_tick(RuntimeView::<C>::Demo) == (RuntimeView::<C>::Demo, TickResult::Continue, Seq::<StageEvent>::empty()),
{
}

/// A playback of `n` frames shows frame `k` on tick `k`, triggering a
/// capture each time; the tick after the last frame finishes the session,
/// emits `CaptureFinished` then `ModeChanged(Demo)`, and returns to demo mode.
pub proof fn law_playback_runs_to_completion<C>(frames: Seq<StageFrame>, s: CaptureSession<C>, k: nat)
    requires
        k <= frames.len(),
    ensures
        spec_ticks(RuntimeView::Playback { frames, next: 0, session: s }, k) == (RuntimeView::Playback {
            frames,
            next: k as int,
            session: session_after(s, k),
        }),
        k < frames.len() ==> spec_tick(
            spec_ticks(RuntimeView::Playback { frames, next: 0, session: s }, k),
        ).1 == TickResult::TriggerCapture,
        k == frames.len() ==> spec_tick(
            spec_ticks(RuntimeView::Playback { frames, next: 0, session: s }, k),
        ) == (RuntimeView::<C>::Demo, TickResult::Finished, seq![StageEvent::CaptureFinished, StageEvent::ModeChanged(StageMode::Demo)]),
    decreases k,
{
    if k > 0 {
        law_playback_runs_to_completion(frames, s, (k - 1) as nat);
    }
}

/// An OLAT session over `num_arcs` arcs of `lights_per_arc` lights triggers
/// a capture on each of its first `num_arcs * lights_per_arc` ticks, its
/// progress after `k` ticks being `olat_after(olat_start(..), k)` (which
/// `law_olat_order` places at light `k % lights_per_arc` of arc
/// `k / lights_per_arc`); the tick
/// after that finishes the session, emits `CaptureFinished` then
/// `ModeChanged(Demo)`, and returns to demo mode.
pub proof fn law_olat_runs_to_completion<C>(
    num_arcs: usize,
    lights_per_arc: usize,
    s: CaptureSession<C>,
    k: nat,
)
    requires
        num_arcs > 0,
        lights_per_arc > 0,
        k <= num_arcs * lights_per_arc,
    ensures
        spec_ticks(
            RuntimeView::Olat { progress: olat_start(num_arcs, lights_per_arc), session: s },
            k,
        ) == (RuntimeView::Olat {
            progress: crate::animator::olat_after(olat_start(num_arcs, lights_per_arc), k),
            session: session_after(s, k),
        }),
        k < num_arcs * lights_per_arc ==> spec_tick(
            spec_ticks(
                RuntimeView::Olat { progress: olat_start(num_arcs, lights_per_arc), session: s },
                k,
            ),
        ).1 == TickResult::TriggerCapture,
        k == num_arcs * lights_per_arc ==> spec_tick(
            spec_ticks(
                RuntimeView::Olat { progress: olat_start(num_arcs, lights_per_arc), session: s },
                k,
            ),
        ) == (RuntimeView::<C>::Demo, TickResult::Finished, seq![StageEvent::CaptureFinished, StageEvent::ModeChanged(StageMode::Demo)]),
    decreases k,
{
    crate::animator::law_olat_order(num_arcs, lights_per_arc, k);
    if k > 0 {
        law_olat_runs_to_completion(num_arcs, lights_per_arc, s, (k - 1) as nat);
        crate::animator::law_olat_order(num_arcs, lights_per_arc, (k - 1) as nat);
    }
}

/// The execution state that a transition requests.
pub open spec fn transition_target<C>(t: ModeTransition<C>, config: ServerConfig) -> RuntimeView<
    C,
> {
    match t {
        ModeTransition::Demo => RuntimeView::Demo,
        ModeTransition::Manual => RuntimeView::Manual { capture_requested: false },
        ModeTransition::Olat(c) => RuntimeView::Olat {
            progress: olat_start(config.num_arcs, config.lights_per_arc),
            session: CaptureSession {
                current_frame_idx: 0,
                total_frames: (config.num_arcs * config.lights_per_arc) as usize,
                config: c,
            },
        },
        ModeTransition::Playback(c, frames) => RuntimeView::Playback {
            frames: frames@,
            next: 0,
            session: CaptureSession {
                current_frame_idx: 0,
                total_frames: frames@.len() as usize,
                config: c,
            },
        },
    }
}

/// An OLAT session that `transition_to` starts on a stage of `num_arcs` arcs
/// of `lights_per_arc` lights (`n` lights in all) triggers a capture on each
/// of its first `n` ticks and stays in OLAT mode; tick `n + 1` finishes it,
/// emitting `CaptureFinished` and `ModeChanged(Demo)`, and leaves the stage
/// in demo mode with no capture session. (`lemma_olat_light_exists` gives
/// `advance_tick`'s precondition on each of these ticks, for a renderer that
/// covers the configuration.)
pub proof fn law_olat_session_from_transition<C>(config: ServerConfig, c: C, k: nat)
    requires
        config.num_arcs > 0,
        config.lights_per_arc > 0,
        config.num_arcs * config.lights_per_arc <= usize::MAX,
        k <= config.num_arcs * config.lights_per_arc,
    ensures
        ({
            let n = config.num_arcs * config.lights_per_arc;
            let start = transition_target(ModeTransition::Olat(c), config);
            &&& k < n ==> spec_tick(spec_ticks(start, k)).1 == TickResult::TriggerCapture
                && mode_of(spec_tick(spec_ticks(start, k)).0) == StageMode::OLAT
            &&& k == n ==> spec_tick(spec_ticks(start, k)) == (
                RuntimeView::<C>::Demo,
                TickResult::Finished,
                seq![StageEvent::CaptureFinished, StageEvent::ModeChanged(StageMode::Demo)],
            )
            &&& k == n ==> session_of(spec_tick(spec_ticks(start, k)).0) is None
        }),
{
    let start = transition_target(ModeTransition::Olat(c), config);
    let s = CaptureSession {
        current_frame_idx: 0,
        total_frames: (config.num_arcs * config.lights_per_arc) as usize,
        config: c,
    };
    assert(start == RuntimeView::Olat {
        progress: olat_start(config.num_arcs, config.lights_per_arc),
        session: s,
    });
    law_olat_runs_to_completion(config.num_arcs, config.lights_per_arc, s, k);
}

/// A capture session runs exactly in the capture modes: an execution state
/// has one exactly when its mode is `Playback` or `OLAT`. A transition to
/// OLAT or to playback with capture configuration `c` starts a session with
/// configuration `c`, and a tick that stays in a capture mode keeps the
/// session's configuration.
pub proof fn law_capture_session_in_capture_modes<C>(
    rt: RuntimeView<C>,
    config: ServerConfig,
    c: C,
    frames: Vec<StageFrame>,
)
    ensures
        session_of(rt) is Some <==> (mode_of(rt) == StageMode::Playback || mode_of(rt)
            == StageMode::OLAT),
        session_of(transition_target(ModeTransition::Olat(c), config)) matches Some(s) && s.config
            == c,
        session_of(transition_target(ModeTransition::Playback(c, frames), config)) matches Some(s)
            && s.config == c,
        session_of(rt) matches Some(s) ==> (mode_of(spec_tick(rt).0) != StageMode::Demo ==> (
        session_of(spec_tick(rt).0) matches Some(t) && t.config == s.config)),
{
}

/// The abstract state of a `StageState`.
pub struct StageView<C> {
    pub runtime: RuntimeView<C>,
    /// Logical fixture states
    pub renderer: Renderer,
    /// Current rendered frame
    pub frame: LightStageFrame,
    pub config: ServerConfig,
    /// Events emitted and not yet taken
    pub events: Seq<StageEvent>,
}

/// Shared light stage state: the single source of truth for rendering, API and network.
pub struct StageState<C> {
    /// Internal state
    runtime: RuntimeMode<C>,
    /// Rendering engine that writes fixture states into `current_frame`.
    renderer: Renderer,
    /// Current rendered frame (a number of DMX universes).
    current_frame: LightStageFrame,
    /// A copy of the server's config, used for some validation.
    config: ServerConfig,
    /// Events emitted and not yet taken.
    events: Vec<StageEvent>,
}

impl<C> RuntimeMode<C> {
    closed spec fn view(&self) -> RuntimeView<C> {
        match self {
            RuntimeMode::Demo => RuntimeView::Demo,
            RuntimeMode::Manual { capture_requested } => RuntimeView::Manual {
                capture_requested: *capture_requested,
            },
            RuntimeMode::Playback { animator, session } => RuntimeView::Playback {
                frames: animator.spec_sequence(),
                next: animator.spec_index(),
                session: *session,
            },
            RuntimeMode::Olat { animator, session } => RuntimeView::Olat {
                progress: animator@,
                session: *session,
            },
        }
    }
}

impl<C> View for StageState<C> {
    type V = StageView<C>;

    closed spec fn view(&self) -> StageView<C> {
        StageView {
            runtime: self.runtime.view(),
            renderer: self.renderer,
            frame: self.current_frame,
            config: self.config,
            events: self.events@,
        }
    }
}

/// The renderer can render into a frame of `num_arcs` universes: it has at
/// most one colour and one white fixture list per arc, and every fixture is
/// well formed (as every fixture that `new` builds is).
pub open spec fn renderer_fits(r: Renderer, config: ServerConfig) -> bool {
    &&& r.rgb_fixtures@.len() <= config.num_arcs
    &&& r.white_fixtures@.len() <= config.num_arcs
    &&& all_wf(r.rgb_fixtures@)
    &&& all_wf(r.white_fixtures@)
}

/// Every configured arc has at least `lights_per_arc` white fixtures: every
/// light that an OLAT session over the configuration illuminates exists.
pub open spec fn renderer_covers(r: Renderer, config: ServerConfig) -> bool {
    &&& r.white_fixtures@.len() >= config.num_arcs
    &&& forall|a: int|
        0 <= a < config.num_arcs ==> (#[trigger] r.white_fixtures@[a])@.len()
            >= config.lights_per_arc
}

/// Keeping every fixture at its address keeps a renderer covering the configuration.
pub proof fn lemma_same_fixtures_covers(old: Renderer, new: Renderer, config: ServerConfig)
    requires
        renderer_covers(old, config),
        same_fixtures(old, new),
    ensures
        renderer_covers(new, config),
{
    assert forall|a: int| 0 <= a < config.num_arcs implies (
    #[trigger] new.white_fixtures@[a])@.len() >= config.lights_per_arc by {
        assert(old.white_fixtures@[a]@.len() >= config.lights_per_arc);
    }
}

/// Fixtures at the same addresses are well formed alike.
proof fn lemma_same_fixtures_fits(old: Renderer, new: Renderer, config: ServerConfig)
    requires
        renderer_fits(old, config),
        same_fixtures(old, new),
    ensures
        renderer_fits(new, config),
{
    assert forall|i: int, j: int|
        0 <= i < new.rgb_fixtures@.len() && 0 <= j < new.rgb_fixtures@[i]@.len() implies (
    #[trigger] new.rgb_fixtures@[i]@[j]).wf() by {
        assert(old.rgb_fixtures@[i]@[j].wf());
    }
    assert forall|i: int, j: int|
        0 <= i < new.white_fixtures@.len() && 0 <= j < new.white_fixtures@[i]@.len() implies (
    #[trigger] new.white_fixtures@[i]@[j]).wf() by {
        assert(old.white_fixtures@[i]@[j].wf());
    }
}

/// `new` has the colour fixtures of `old`, each with the colour `f` gives
/// it, or its old colour where `f` gives none.
pub open spec fn rgb_updated(
    old: Seq<Vec<RgbFixture<u16>>>,
    new: Seq<Vec<RgbFixture<u16>>>,
    f: spec_fn(int, int) -> Option<(u16, u16, u16)>,
) -> bool {
    &&& same_shape(old, new)
    &&& forall|a: int, l: int|
        0 <= a < old.len() && 0 <= l < old[a]@.len() ==> {
            &&& (#[trigger] new[a]@[l]).spec_address() == old[a]@[l].spec_address()
            &&& new[a]@[l].spec_colour() == match f(a, l) {
                Some(c) => c,
                None => old[a]@[l].spec_colour(),
            }
        }
}

/// Sets the colour of the fixture at `a`, `l`.
fn rgb_set_one(fixtures: &mut Vec<Vec<RgbFixture<u16>>>, a: usize, l: usize, c: (u16, u16, u16))
    requires
        a < old(fixtures)@.len(),
        l < old(fixtures)@[a as int]@.len(),
    ensures
        rgb_updated(
            old(fixtures)@,
            final(fixtures)@,
            (|x: int, y: int|
                if x == a && y == l {
                    Some(c)
                } else {
                    None
                }),
        ),
{
    fixtures[a][l].set_color(c.0, c.1, c.2);
}

/// Sets the colour of every fixture of arc `a`.
fn rgb_set_arc(fixtures: &mut Vec<Vec<RgbFixture<u16>>>, a: usize, c: (u16, u16, u16))
    requires
        a < old(fixtures)@.len(),
    ensures
        rgb_updated(
            old(fixtures)@,
            final(fixtures)@,
            (|x: int, y: int|
                if x == a {
                    Some(c)
                } else {
                    None
                }),
        ),
{
    let mut l: usize = 0;
    while l < fixtures[a].len()
        invariant
            a < fixtures@.len(),
            l <= fixtures@[a as int]@.len(),
            rgb_updated(
                old(fixtures)@,
                fixtures@,
                (|x: int, y: int|
                    if x == a && y < l {
                        Some(c)
                    } else {
                        None
                    }),
            ),
        decreases fixtures@[a as int]@.len() - l,
    {
        fixtures[a][l].set_color(c.0, c.1, c.2);
        l = l + 1;
    }
}

/// Sets the colour of every fixture.
fn rgb_set_all(fixtures: &mut Vec<Vec<RgbFixture<u16>>>, c: (u16, u16, u16))
    ensures
        rgb_updated(old(fixtures)@, final(fixtures)@, |x: int, y: int| Some(c)),
{
    let mut a: usize = 0;
    while a < fixtures.len()
        invariant
            a <= fixtures@.len(),
            rgb_updated(
                old(fixtures)@,
                fixtures@,
                (|x: int, y: int|
                    if x < a {
                        Some(c)
                    } else {
                        None
                    }),
            ),
        decreases fixtures@.len() - a,
    {
        let mut l: usize = 0;
        while l < fixtures[a].len()
            invariant
                a < fixtures@.len(),
                l <= fixtures@[a as int]@.len(),
                rgb_updated(
                    old(fixtures)@,
                    fixtures@,
                    (|x: int, y: int|
                        if x < a || (x == a && y < l) {
                            Some(c)
                        } else {
                            None
                        }),
                ),
            decreases fixtures@[a as int]@.len() - l,
        {
            fixtures[a][l].set_color(c.0, c.1, c.2);
            l = l + 1;
        }
        a = a + 1;
    }
}

/// `new` has the white fixtures of `old`, each with the values `f` give
/// it, or its old values where `f` gives none.
pub open spec fn white_updated(
    old: Seq<Vec<WhiteFixture<u16>>>,
    new: Seq<Vec<WhiteFixture<u16>>>,
    f: spec_fn(int, int) -> Option<(u16, u16, u16)>,
) -> bool {
    &&& same_shape(old, new)
    &&& forall|a: int, l: int|
        0 <= a < old.len() && 0 <= l < old[a]@.len() ==> {
            &&& (#[trigger] new[a]@[l]).spec_address() == old[a]@[l].spec_address()
            &&& new[a]@[l].spec_white() == match f(a, l) {
                Some(c) => c,
                None => old[a]@[l].spec_white(),
            }
        }
}

/// Sets the values of the fixture at `a`, `l`.
fn white_set_one(fixtures: &mut Vec<Vec<WhiteFixture<u16>>>, a: usize, l: usize, c: (u16, u16, u16))
    requires
        a < old(fixtures)@.len(),
        l < old(fixtures)@[a as int]@.len(),
    ensures
        white_updated(
            old(fixtures)@,
            final(fixtures)@,
            (|x: int, y: int|
                if x == a && y == l {
                    Some(c)
                } else {
                    None
                }),
        ),
{
    fixtures[a][l].set_white(c.0, c.1, c.2);
}

/// Sets the values of every fixture of arc `a`.
fn white_set_arc(fixtures: &mut Vec<Vec<WhiteFixture<u16>>>, a: usize, c: (u16, u16, u16))
    requires
        a < old(fixtures)@.len(),
    ensures
        white_updated(
            old(fixtures)@,
            final(fixtures)@,
            (|x: int, y: int|
                if x == a {
                    Some(c)
                } else {
                    None
                }),
        ),
{
    let mut l: usize = 0;
    while l < fixtures[a].len()
        invariant
            a < fixtures@.len(),
            l <= fixtures@[a as int]@.len(),
            white_updated(
                old(fixtures)@,
                fixtures@,
                (|x: int, y: int|
                    if x == a && y < l {
                        Some(c)
                    } else {
                        None
                    }),
            ),
        decreases fixtures@[a as int]@.len() - l,
    {
        fixtures[a][l].set_white(c.0, c.1, c.2);
        l = l + 1;
    }
}

/// Sets the values of every fixture.
fn white_set_all(fixtures: &mut Vec<Vec<WhiteFixture<u16>>>, c: (u16, u16, u16))
    ensures
        white_updated(old(fixtures)@, final(fixtures)@, |x: int, y: int| Some(c)),
{
    let mut a: usize = 0;
    while a < fixtures.len()
        invariant
            a <= fixtures@.len(),
            white_updated(
                old(fixtures)@,
                fixtures@,
                (|x: int, y: int|
                    if x < a {
                        Some(c)
                    } else {
                        None
                    }),
            ),
        decreases fixtures@.len() - a,
    {
        let mut l: usize = 0;
        while l < fixtures[a].len()
            invariant
                a < fixtures@.len(),
                l <= fixtures@[a as int]@.len(),
                white_updated(
                    old(fixtures)@,
                    fixtures@,
                    (|x: int, y: int|
                        if x < a || (x == a && y < l) {
                            Some(c)
                        } else {
                            None
                        }),
                ),
            decreases fixtures@[a as int]@.len() - l,
        {
            fixtures[a][l].set_white(c.0, c.1, c.2);
            l = l + 1;
        }
        a = a + 1;
    }
}

/// One fixture update of a batch: arc, light, new colour, new white values.
pub type FixtureUpdate = (usize, usize, Option<(u16, u16, u16)>, Option<(u16, u16, u16)>);

/// The colour that the last update of `updates` that sets one gives the
/// colour fixture at `a`, `l`.
pub open spec fn batch_rgb(updates: Seq<FixtureUpdate>, a: int, l: int) -> Option<(u16, u16, u16)>
    decreases updates.len(),
{
    if updates.len() == 0 {
        None
    } else {
        let u = updates.last();
        if u.0 == a && u.1 == l && u.2 is Some {
            u.2
        } else {
            batch_rgb(updates.drop_last(), a, l)
        }
    }
}

/// The values that the last update of `updates` that sets some gives the
/// white fixture at `a`, `l`.
pub open spec fn batch_white(updates: Seq<FixtureUpdate>, a: int, l: int) -> Option<
    (u16, u16, u16),
>
    decreases updates.len(),
{
    if updates.len() == 0 {
        None
    } else {
        let u = updates.last();
        if u.0 == a && u.1 == l && u.3 is Some {
            u.3
        } else {
            batch_white(updates.drop_last(), a, l)
        }
    }
}

/// Every update of `updates` addresses existing fixtures.
pub open spec fn batch_in_range(updates: Seq<FixtureUpdate>, r: Renderer) -> bool {
    forall|i: int|
        0 <= i < updates.len() ==> {
            &&& (#[trigger] updates[i]).2 is Some ==> updates[i].0 < r.rgb_fixtures@.len()
                && updates[i].1 < r.rgb_fixtures@[updates[i].0 as int]@.len()
            &&& updates[i].3 is Some ==> updates[i].0 < r.white_fixtures@.len() && updates[i].1
                < r.white_fixtures@[updates[i].0 as int]@.len()
        }
}

/// Applies each update of `updates`, in order.
fn apply_batch(renderer: &mut Renderer, updates: &Vec<FixtureUpdate>)
    requires
        batch_in_range(updates@, *old(renderer)),
    ensures
        rgb_updated(
            old(renderer).rgb_fixtures@,
            final(renderer).rgb_fixtures@,
            |x: int, y: int| batch_rgb(updates@, x, y),
        ),
        white_updated(
            old(renderer).white_fixtures@,
            final(renderer).white_fixtures@,
            |x: int, y: int| batch_white(updates@, x, y),
        ),
{
    let mut i: usize = 0;
    while i < updates.len()
        invariant
            i <= updates@.len(),
            batch_in_range(updates@, *old(renderer)),
            rgb_updated(
                old(renderer).rgb_fixtures@,
                renderer.rgb_fixtures@,
                |x: int, y: int| batch_rgb(updates@.take(i as int), x, y),
            ),
            white_updated(
                old(renderer).white_fixtures@,
                renderer.white_fixtures@,
                |x: int, y: int| batch_white(updates@.take(i as int), x, y),
            ),
        decreases updates@.len() - i,
    {
        let u = updates[i];
        assert(updates@.take(i + 1).drop_last() =~= updates@.take(i as int));
        assert(updates@.take(i + 1).last() == u);
        if let Some(c) = u.2 {
            renderer.rgb_fixtures[u.0][u.1].set_color(c.0, c.1, c.2);
        }
        if let Some(c) = u.3 {
            renderer.white_fixtures[u.0][u.1].set_white(c.0, c.1, c.2);
        }
        i = i + 1;
    }
    assert(updates@.take(i as int) =~= updates@);
}

/// Updating colours and white values keeps every fixture at its address.
proof fn lemma_updated_same_fixtures(
    old: Renderer,
    new: Renderer,
    f: spec_fn(int, int) -> Option<(u16, u16, u16)>,
    g: spec_fn(int, int) -> Option<(u16, u16, u16)>,
)
    requires
        rgb_updated(old.rgb_fixtures@, new.rgb_fixtures@, f),
        white_updated(old.white_fixtures@, new.white_fixtures@, g),
    ensures
        same_fixtures(old, new),
{
}

/// `i + 1`, or `i` if that would overflow.
fn saturating_inc(i: usize) -> (r: usize)
    ensures
        r == if i < usize::MAX {
            (i + 1) as usize
        } else {
            i
        },
{
    if i < usize::MAX {
        i + 1
    } else {
        i
    }
}

/// Applying a frame keeps every fixture at its address.
proof fn lemma_frame_applied_same_fixtures(old: Renderer, new: Renderer, frame: StageFrame)
    requires
        frame_applied(old, new, frame),
    ensures
        same_fixtures(old, new),
{
}

impl<C> StageState<C> {
    /// The frame has a universe per arc, and an OLAT sequence stays within
    /// the configured arcs and lights.
    pub closed spec fn wf(&self) -> bool {
        let n = self.config.num_arcs;
        let lpa = self.config.lights_per_arc;
        &&& self.current_frame.rgb_universes@.len() == n
        &&& self.current_frame.white_universes@.len() == n
        &&& (self.runtime matches RuntimeMode::Olat { animator, .. } ==> {
            &&& n > 0
            &&& lpa > 0
            &&& n * lpa <= usize::MAX
            &&& animator@.num_arcs == n
            &&& animator@.lights_per_arc == lpa
            &&& (animator@.done || (animator@.current_arc < n && animator@.current_light < lpa))
        })
    }

    /// A stage running the demo pattern (`StageMode::Demo`), with an all-off
    /// frame and no events.
    pub fn new(renderer: Renderer, config: ServerConfig) -> (s: Self)
        ensures
            s.wf(),
            s@.runtime == RuntimeView::<C>::Demo,
            s@.renderer == renderer,
            s@.config == config,
            s@.events == Seq::<StageEvent>::empty(),
            s@.frame.rgb_universes@.len() == config.num_arcs,
            s@.frame.white_universes@.len() == config.num_arcs,
            crate::renderer::all_black(s@.frame.rgb_universes@),
            crate::renderer::all_black(s@.frame.white_universes@),
    {
        Self {
            runtime: RuntimeMode::Demo,
            renderer,
            current_frame: LightStageFrame::black(config.num_arcs),
            config,
            events: Vec::new(),
        }
    }

    /// With a renderer that covers the configuration, the light that the
    /// next OLAT tick illuminates exists, so `advance_tick` may be called in
    /// every state of an OLAT session.
    pub proof fn lemma_olat_light_exists(&self)
        requires
            self.wf(),
            renderer_covers(self@.renderer, self@.config),
        ensures
            self@.runtime matches RuntimeView::Olat { progress, .. } ==> (!progress.done ==> {
                &&& progress.current_arc < self@.renderer.white_fixtures@.len()
                &&& progress.current_light < self@.renderer.white_fixtures@[progress.current_arc as int]@.len()
            }),
    {
        if let RuntimeMode::Olat { animator, .. } = &self.runtime {
            if !animator@.done {
                assert(self.renderer.white_fixtures@[animator@.current_arc as int]@.len()
                    >= self.config.lights_per_arc);
            }
        }
    }

    /// Returns the current `StageMode`.
    pub fn mode(&self) -> (m: StageMode)
        ensures
            m == mode_of(self@.runtime),
    {
        match &self.runtime {
            RuntimeMode::Demo => StageMode::Demo,
            RuntimeMode::Manual { .. } => StageMode::Manual,
            RuntimeMode::Playback { .. } => StageMode::Playback,
            RuntimeMode::Olat { .. } => StageMode::OLAT,
        }
    }

    /// Takes the events emitted so far, oldest first.
    pub fn take_events(&mut self) -> (events: Vec<StageEvent>)
        requires
            old(self).wf(),
        ensures
            final(self).wf(),
            events@ == old(self)@.events,
            final(self)@ == (StageView { events: Seq::empty(), ..old(self)@ }),
    {
        let mut events = Vec::new();
        std::mem::swap(&mut events, &mut self.events);
        events
    }

    /// Sets the execution state, emitting `ModeChanged` if the mode changes.
    fn set_runtime(&mut self, new_runtime: RuntimeMode<C>)
        requires
            old(self).wf(),
            new_runtime matches RuntimeMode::Olat { animator, .. } ==> {
                &&& old(self).config.num_arcs > 0
                &&& old(self).config.lights_per_arc > 0
                &&& old(self).config.num_arcs * old(self).config.lights_per_arc <= usize::MAX
                &&& animator@.num_arcs == old(self).config.num_arcs
                &&& animator@.lights_per_arc == old(self).config.lights_per_arc
                &&& (animator@.done || (animator@.current_arc < old(self).config.num_arcs
                    && animator@.current_light < old(self).config.lights_per_arc))
            },
        ensures
            final(self).wf(),
            final(self)@ == (StageView {
                runtime: new_runtime.view(),
                events: old(self)@.events + mode_change_events(
                    mode_of(old(self)@.runtime),
                    mode_of(new_runtime.view()),
                ),
                ..old(self)@
            }),
    {
        let old_mode = self.mode();
        let new_mode = match &new_runtime {
            RuntimeMode::Demo => StageMode::Demo,
            RuntimeMode::Manual { .. } => StageMode::Manual,
            RuntimeMode::Playback { .. } => StageMode::Playback,
            RuntimeMode::Olat { .. } => StageMode::OLAT,
        };
        self.runtime = new_runtime;
        if old_mode != new_mode {
            self.events.push(StageEvent::ModeChanged(new_mode));
        }
        assert(self.events@ =~= old(self)@.events + mode_change_events(old_mode, new_mode));
    }

    /// Changes to the requested mode, starting its animation and capture
    /// session afresh, and emits `ModeChanged` if the mode changes.
    ///
    /// The capture configuration is expected to have been validated by the caller.
    pub fn transition_to(&mut self, transition: ModeTransition<C>)
        requires
            old(self).wf(),
            transition is Olat ==> old(self)@.config.num_arcs > 0
                && old(self)@.config.lights_per_arc > 0 && old(self)@.config.num_arcs
                * old(self)@.config.lights_per_arc <= usize::MAX,
        ensures
            final(self).wf(),
            final(self)@ == (StageView {
                runtime: transition_target(transition, old(self)@.config),
                events: old(self)@.events + mode_change_events(
                    mode_of(old(self)@.runtime),
                    mode_of(transition_target(transition, old(self)@.config)),
                ),
                ..old(self)@
            }),
    {
        let ghost target = transition_target(transition, self@.config);
        match transition {
            ModeTransition::Demo => {
                self.set_runtime(RuntimeMode::Demo);
            },
            ModeTransition::Manual => {
                self.set_runtime(RuntimeMode::Manual { capture_requested: false });
            },
            ModeTransition::Playback(config, frames) => {
                let animator = PlaybackAnimator::new(frames);
                let total = match animator.total_frames() {
                    Some(n) => n,
                    None => 0,
                };
                let session = CaptureSession::new(total, config);
                self.set_runtime(RuntimeMode::Playback { animator, session });
            },
            ModeTransition::Olat(config) => {
                let animator = OlatAnimator::new(&self.config);
                let total = match animator.total_frames() {
                    Some(n) => n,
                    None => 0,
                };
                let session = CaptureSession::new(total, config);
                self.set_runtime(RuntimeMode::Olat { animator, session });
            },
        }
    }

    /// Renders every fixture into the current frame.
    fn commit_and_render(&mut self)
        requires
            old(self).wf(),
            renderer_fits(old(self)@.renderer, old(self)@.config),
        ensures
            final(self).wf(),
            final(self)@ == (StageView { frame: final(self)@.frame, ..old(self)@ }),
            rendered(old(self)@.frame, old(self)@.renderer, final(self)@.frame),
    {
        self.renderer.update(&mut self.current_frame);
    }

    /// Advances the active animation by one frame, and copies the frame to
    /// send into `dest`.
    ///
    /// In `StageMode::Manual` the current frame is sent again, and a queued
    /// capture trigger is consumed. In `StageMode::Demo` the fixtures take the
    /// colours of `demo_frame`, the frame that the demo animation shows now.
    /// In `StageMode::Playback` and `StageMode::OLAT` the animator shows its
    /// next frame and asks for a capture; when it has none left, the session
    /// ends (`CaptureFinished`) and the stage returns to `StageMode::Demo`.
    pub fn advance_tick(&mut self, dest: &mut LightStageFrame, demo_frame: &StageFrame) -> (r:
        TickResult)
        requires
            old(self).wf(),
            !(old(self)@.runtime is Manual) ==> renderer_fits(
                old(self)@.renderer,
                old(self)@.config,
            ),
            old(self)@.runtime matches RuntimeView::Olat { progress, .. } ==> (!progress.done ==> {
                &&& progress.current_arc < old(self)@.renderer.white_fixtures@.len()
                &&& progress.current_light < old(
                    self,
                )@.renderer.white_fixtures@[progress.current_arc as int]@.len()
            }),
        ensures
            final(self).wf(),
            renderer_fits(old(self)@.renderer, old(self)@.config) ==> renderer_fits(
                final(self)@.renderer,
                final(self)@.config,
            ),
            same_fixtures(old(self)@.renderer, final(self)@.renderer),
            final(self)@.runtime == spec_tick(old(self)@.runtime).0,
            r == spec_tick(old(self)@.runtime).1,
            final(self)@.events == old(self)@.events + spec_tick(old(self)@.runtime).2,
            final(self)@.config == old(self)@.config,
            final(dest).rgb_universes@ == final(self)@.frame.rgb_universes@,
            final(dest).white_universes@ == final(self)@.frame.white_universes@,
            match old(self)@.runtime {
                RuntimeView::Manual { .. } => final(self)@.renderer == old(self)@.renderer
                    && final(self)@.frame == old(self)@.frame,
                RuntimeView::Demo => frame_applied(
                    old(self)@.renderer,
                    final(self)@.renderer,
                    *demo_frame,
                ),
                RuntimeView::Playback { frames, next, .. } => if next < frames.len() {
                    frame_applied(old(self)@.renderer, final(self)@.renderer, frames[next])
                } else {
                    final(self)@.renderer == old(self)@.renderer
                },
                RuntimeView::Olat { progress, .. } => same_fixtures(
                    old(self)@.renderer,
                    final(self)@.renderer,
                ) && olat_lit(
                    final(self)@.renderer,
                    if progress.done {
                        None
                    } else {
                        Some((progress.current_arc as int, progress.current_light as int))
                    },
                ),
            },
            !(old(self)@.runtime is Manual) ==> rendered(
                old(self)@.frame,
                final(self)@.renderer,
                final(self)@.frame,
            ),
    {
        let mut rt = RuntimeMode::Demo;
        std::mem::swap(&mut rt, &mut self.runtime);
        match rt {
            RuntimeMode::Manual { capture_requested } => {
                self.runtime = RuntimeMode::Manual { capture_requested: false };
                dest.copy_from(&self.current_frame);
                if capture_requested {
                    TickResult::TriggerCapture
                } else {
                    TickResult::Continue
                }
            },
            RuntimeMode::Demo => {
                let ghost r0 = self.renderer;
                apply_stage_frame(&mut self.renderer, demo_frame);
                proof {
                    lemma_frame_applied_same_fixtures(r0, self.renderer, *demo_frame);
                    lemma_same_fixtures_fits(r0, self.renderer, self.config);
                }
                self.commit_and_render();
                dest.copy_from(&self.current_frame);
                TickResult::Continue
            },
            RuntimeMode::Playback { mut animator, mut session } => {
                let ghost r0 = self.renderer;
                let active = animator.tick(&mut self.renderer);
                proof {
                    lemma_same_fixtures_fits(r0, self.renderer, self.config);
                }
                session.current_frame_idx = saturating_inc(session.current_frame_idx);
                self.commit_and_render();
                dest.copy_from(&self.current_frame);
                if active {
                    self.runtime = RuntimeMode::Playback { animator, session };
                    TickResult::TriggerCapture
                } else {
                    self.events.push(StageEvent::CaptureFinished);
                    self.events.push(StageEvent::ModeChanged(StageMode::Demo));
                    TickResult::Finished
                }
            },
            RuntimeMode::Olat { mut animator, mut session } => {
                let ghost r0 = self.renderer;
                let active = animator.tick(&mut self.renderer);
                proof {
                    lemma_same_fixtures_fits(r0, self.renderer, self.config);
                }
                session.current_frame_idx = saturating_inc(session.current_frame_idx);
                self.commit_and_render();
                dest.copy_from(&self.current_frame);
                if active {
                    self.runtime = RuntimeMode::Olat { animator, session };
                    TickResult::TriggerCapture
                } else {
                    self.events.push(StageEvent::CaptureFinished);
                    self.events.push(StageEvent::ModeChanged(StageMode::Demo));
                    TickResult::Finished
                }
            },
        }
    }

    /// Switches to `StageMode::Manual`, with no capture queued.
    fn transition_to_manual(&mut self)
        requires
            old(self).wf(),
        ensures
            final(self).wf(),
            final(self)@ == (StageView {
                runtime: RuntimeView::Manual { capture_requested: false },
                events: old(self)@.events + mode_change_events(
                    mode_of(old(self)@.runtime),
                    StageMode::Manual,
                ),
                ..old(self)@
            }),
    {
        self.set_runtime(RuntimeMode::Manual { capture_requested: false });
    }

    /// Update an rgb and a white fixture as a pair.
    ///
    /// Sets mode to manual (dropping any queued capture) and renders the frame.
    pub fn update_rgb_and_white_single_fixture(
        &mut self,
        arc_idx: usize,
        light_idx: usize,
        rgb: Option<(u16, u16, u16)>,
        white: Option<(u16, u16, u16)>,
    )
        requires
            old(self).wf(),
            renderer_fits(old(self)@.renderer, old(self)@.config),
            rgb is Some ==> arc_idx < old(self)@.renderer.rgb_fixtures@.len() && light_idx < old(
                self,
            )@.renderer.rgb_fixtures@[arc_idx as int]@.len(),
            white is Some ==> arc_idx < old(self)@.renderer.white_fixtures@.len() && light_idx
                < old(self)@.renderer.white_fixtures@[arc_idx as int]@.len(),
        ensures
            final(self).wf(),
            renderer_fits(final(self)@.renderer, final(self)@.config),
            final(self)@.runtime == (RuntimeView::<C>::Manual { capture_requested: false }),
            final(self)@.events == old(self)@.events + mode_change_events(
                mode_of(old(self)@.runtime),
                StageMode::Manual,
            ),
            final(self)@.config == old(self)@.config,
            rgb_updated(
                old(self)@.renderer.rgb_fixtures@,
                final(self)@.renderer.rgb_fixtures@,
                (|a: int, l: int|
                    if a == arc_idx && l == light_idx {
                        rgb
                    } else {
                        None
                    }),
            ),
            white_updated(
                old(self)@.renderer.white_fixtures@,
                final(self)@.renderer.white_fixtures@,
                (|a: int, l: int|
                    if a == arc_idx && l == light_idx {
                        white
                    } else {
                        None
                    }),
            ),
            rendered(old(self)@.frame, final(self)@.renderer, final(self)@.frame),
    {
        self.transition_to_manual();
        let ghost r0 = self.renderer;
        if let Some(c) = rgb {
            rgb_set_one(&mut self.renderer.rgb_fixtures, arc_idx, light_idx, c);
        }
        if let Some(c) = white {
            white_set_one(&mut self.renderer.white_fixtures, arc_idx, light_idx, c);
        }
        proof {
            lemma_updated_same_fixtures(
                r0,
                self.renderer,
                (|a: int, l: int|
                    if a == arc_idx && l == light_idx {
                        rgb
                    } else {
                        None
                    }),
                (|a: int, l: int|
                    if a == arc_idx && l == light_idx {
                        white
                    } else {
                        None
                    }),
            );
            lemma_same_fixtures_fits(r0, self.renderer, self.config);
        }
        self.commit_and_render();
    }

    /// Batch update a set of rgb and white fixture pairs; later updates of a
    /// fixture win over earlier ones.
    ///
    /// Sets mode to manual (dropping any queued capture) and renders the frame.
    pub fn update_rgb_and_white_batch_fixtures(&mut self, fixtures: &Vec<FixtureUpdate>)
        requires
            old(self).wf(),
            renderer_fits(old(self)@.renderer, old(self)@.config),
            batch_in_range(fixtures@, old(self)@.renderer),
        ensures
            final(self).wf(),
            renderer_fits(final(self)@.renderer, final(self)@.config),
            final(self)@.runtime == (RuntimeView::<C>::Manual { capture_requested: false }),
            final(self)@.events == old(self)@.events + mode_change_events(
                mode_of(old(self)@.runtime),
                StageMode::Manual,
            ),
            final(self)@.config == old(self)@.config,
            rgb_updated(
                old(self)@.renderer.rgb_fixtures@,
                final(self)@.renderer.rgb_fixtures@,
                (|a: int, l: int| batch_rgb(fixtures@, a, l)),
            ),
            white_updated(
                old(self)@.renderer.white_fixtures@,
                final(self)@.renderer.white_fixtures@,
                (|a: int, l: int| batch_white(fixtures@, a, l)),
            ),
            rendered(old(self)@.frame, final(self)@.renderer, final(self)@.frame),
    {
        self.transition_to_manual();
        let ghost r0 = self.renderer;
        apply_batch(&mut self.renderer, fixtures);
        proof {
            lemma_updated_same_fixtures(
                r0,
                self.renderer,
                (|a: int, l: int| batch_rgb(fixtures@, a, l)),
                (|a: int, l: int| batch_white(fixtures@, a, l)),
            );
            lemma_same_fixtures_fits(r0, self.renderer, self.config);
        }
        self.commit_and_render();
    }

    /// Update rgb and white for every light of an arc.
    ///
    /// Sets mode to manual (dropping any queued capture) and renders the frame.
    pub fn update_rgb_and_white_arc(
        &mut self,
        arc_idx: usize,
        rgb: Option<(u16, u16, u16)>,
        white: Option<(u16, u16, u16)>,
    )
        requires
            old(self).wf(),
            renderer_fits(old(self)@.renderer, old(self)@.config),
            rgb is Some ==> arc_idx < old(self)@.renderer.rgb_fixtures@.len(),
            white is Some ==> arc_idx < old(self)@.renderer.white_fixtures@.len(),
        ensures
            final(self).wf(),
            renderer_fits(final(self)@.renderer, final(self)@.config),
            final(self)@.runtime == (RuntimeView::<C>::Manual { capture_requested: false }),
            final(self)@.events == old(self)@.events + mode_change_events(
                mode_of(old(self)@.runtime),
                StageMode::Manual,
            ),
            final(self)@.config == old(self)@.config,
            rgb_updated(
                old(self)@.renderer.rgb_fixtures@,
                final(self)@.renderer.rgb_fixtures@,
                (|a: int, l: int|
                    if a == arc_idx {
                        rgb
                    } else {
                        None
                    }),
            ),
            white_updated(
                old(self)@.renderer.white_fixtures@,
                final(self)@.renderer.white_fixtures@,
                (|a: int, l: int|
                    if a == arc_idx {
                        white
                    } else {
                        None
                    }),
            ),
            rendered(old(self)@.frame, final(self)@.renderer, final(self)@.frame),
    {
        self.transition_to_manual();
        let ghost r0 = self.renderer;
        if let Some(c) = rgb {
            rgb_set_arc(&mut self.renderer.rgb_fixtures, arc_idx, c);
        }
        if let Some(c) = white {
            white_set_arc(&mut self.renderer.white_fixtures, arc_idx, c);
        }
        proof {
            lemma_updated_same_fixtures(
                r0,
                self.renderer,
                (|a: int, l: int|
                    if a == arc_idx {
                        rgb
                    } else {
                        None
                    }),
                (|a: int, l: int|
                    if a == arc_idx {
                        white
                    } else {
                        None
                    }),
            );
            lemma_same_fixtures_fits(r0, self.renderer, self.config);
        }
        self.commit_and_render();
    }

    /// Update rgb and white for the entire stage.
    ///
    /// Sets mode to manual (dropping any queued capture) and renders the frame.
    pub fn update_rgb_and_white_stage(
        &mut self,
        rgb: Option<(u16, u16, u16)>,
        white: Option<(u16, u16, u16)>,
    )
        requires
            old(self).wf(),
            renderer_fits(old(self)@.renderer, old(self)@.config),
        ensures
            final(self).wf(),
            renderer_fits(final(self)@.renderer, final(self)@.config),
            final(self)@.runtime == (RuntimeView::<C>::Manual { capture_requested: false }),
            final(self)@.events == old(self)@.events + mode_change_events(
                mode_of(old(self)@.runtime),
                StageMode::Manual,
            ),
            final(self)@.config == old(self)@.config,
            rgb_updated(
                old(self)@.renderer.rgb_fixtures@,
                final(self)@.renderer.rgb_fixtures@,
                (|a: int, l: int| rgb),
            ),
            white_updated(
                old(self)@.renderer.white_fixtures@,
                final(self)@.renderer.white_fixtures@,
                (|a: int, l: int| white),
            ),
            rendered(old(self)@.frame, final(self)@.renderer, final(self)@.frame),
    {
        self.transition_to_manual();
        let ghost r0 = self.renderer;
        if let Some(c) = rgb {
            rgb_set_all(&mut self.renderer.rgb_fixtures, c);
        }
        if let Some(c) = white {
            white_set_all(&mut self.renderer.white_fixtures, c);
        }
        proof {
            lemma_updated_same_fixtures(r0, self.renderer, |a: int, l: int| rgb, |a: int, l: int| white);
            lemma_same_fixtures_fits(r0, self.renderer, self.config);
        }
        self.commit_and_render();
    }

    /// The configuration of the active capture session, if any.
    pub fn capture_config(&self) -> (r: Option<C>)
        where
            C: Copy,
        ensures
            r == match session_of(self@.runtime) {
                Some(s) => Some(s.config),
                None => None::<C>,
            },
    {
        match &self.runtime {
            RuntimeMode::Playback { session, .. } => Some(session.config),
            RuntimeMode::Olat { session, .. } => Some(session.config),
            _ => None,
        }
    }

    /// Queues triggering a manual capture.
    ///
    /// Fails if not in `StageMode::Manual` or if trigger is already pending.
    pub fn request_manual_capture(&mut self) -> (r: Result<(), CaptureRequestError>)
        requires
            old(self).wf(),
        ensures
            final(self).wf(),
            (final(self)@.runtime, r) == spec_request_capture(old(self)@.runtime),
            final(self)@ == (StageView { runtime: final(self)@.runtime, ..old(self)@ }),
    {
        match &self.runtime {
            RuntimeMode::Manual { capture_requested } => {
                if *capture_requested {
                    return Err(CaptureRequestError::AlreadyPending);
                }
            },
            _ => {
                return Err(CaptureRequestError::NotManual);
            },
        }
        self.runtime = RuntimeMode::Manual { capture_requested: true };
        Ok(())
    }
}

} // verus!
