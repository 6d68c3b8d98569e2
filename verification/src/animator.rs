//! Animators: things that generate frames (fixture states) to be rendered.

use vstd::prelude::*;

use crate::api::{FixtureColour, StageFrame};
use crate::config::ServerConfig;
use crate::fixtures::{RgbFixture, WhiteFixture};
use crate::renderer::Renderer;

verus! {

/// The colour that `rows` gives the light `l` of arc `a`, if it gives one.
pub open spec fn colour_at(rows: Seq<Vec<FixtureColour>>, a: int, l: int) -> Option<(u16, u16, u16)> {
    if 0 <= a < rows.len() && 0 <= l < rows[a]@.len() {
        let c = rows[a]@[l];
        Some((c.0, c.1, c.2))
    } else {
        None
    }
}

/// `new` has the shape of `old`: as many arcs, and as many lights in each.
pub open spec fn same_shape<T, U>(old: Seq<Vec<T>>, new: Seq<Vec<U>>) -> bool {
    &&& new.len() == old.len()
    &&& forall|a: int| 0 <= a < old.len() ==> (#[trigger] new[a])@.len() == old[a]@.len()
}

/// The colour fixtures of `new` are those of `old`, with the colour that
/// `rows` gives each one, or its old colour where `rows` gives none.
pub open spec fn rgb_applied(
    old: Seq<Vec<RgbFixture<u16>>>,
    new: Seq<Vec<RgbFixture<u16>>>,
    rows: Seq<Vec<FixtureColour>>,
) -> bool {
    &&& same_shape(old, new)
    &&& forall|a: int, l: int|
        0 <= a < old.len() && 0 <= l < old[a]@.len() ==> {
            &&& (#[trigger] new[a]@[l]).spec_address() == old[a]@[l].spec_address()
            &&& new[a]@[l].spec_colour() == match colour_at(rows, a, l) {
                Some(c) => c,
                None => old[a]@[l].spec_colour(),
            }
        }
}

/// The white fixtures of `new` are those of `old`, with the values that
/// `rows` gives each one, or its old values where `rows` gives none.
pub open spec fn white_applied(
    old: Seq<Vec<WhiteFixture<u16>>>,
    new: Seq<Vec<WhiteFixture<u16>>>,
    rows: Seq<Vec<FixtureColour>>,
) -> bool {
    &&& same_shape(old, new)
    &&& forall|a: int, l: int|
        0 <= a < old.len() && 0 <= l < old[a]@.len() ==> {
            &&& (#[trigger] new[a]@[l]).spec_address() == old[a]@[l].spec_address()
            &&& new[a]@[l].spec_white() == match colour_at(rows, a, l) {
                Some(c) => c,
                None => old[a]@[l].spec_white(),
            }
        }
}

/// Sets each colour fixture that `rows` gives a colour.
fn apply_rgb(fixtures: &mut Vec<Vec<RgbFixture<u16>>>, rows: &Vec<Vec<FixtureColour>>)
    ensures
        rgb_applied(old(fixtures)@, final(fixtures)@, rows@),
{
    let mut a: usize = 0;
    while a < rows.len() && a < fixtures.len()
        invariant
            a <= rows@.len(),
            same_shape(old(fixtures)@, fixtures@),
            forall|i: int, l: int|
                0 <= i < old(fixtures)@.len() && 0 <= l < old(fixtures)@[i]@.len() ==> {
                    &&& (#[trigger] fixtures@[i]@[l]).spec_address() == old(fixtures)@[i]@[l].spec_address()
                    &&& fixtures@[i]@[l].spec_colour() == if i < a {
                        match colour_at(rows@, i, l) {
                            Some(c) => c,
                            None => old(fixtures)@[i]@[l].spec_colour(),
                        }
                    } else {
                        old(fixtures)@[i]@[l].spec_colour()
                    }
                },
        decreases rows@.len() - a,
    {
        let row = &rows[a];
        let mut l: usize = 0;
        while l < row.len() && l < fixtures[a].len()
            invariant
                a < rows@.len(),
                a < fixtures@.len(),
                *row == rows@[a as int],
                l <= row@.len(),
                same_shape(old(fixtures)@, fixtures@),
                forall|i: int, k: int|
                    0 <= i < old(fixtures)@.len() && 0 <= k < old(fixtures)@[i]@.len() ==> {
                        &&& (#[trigger] fixtures@[i]@[k]).spec_address() == old(fixtures)@[i]@[k].spec_address()
                        &&& fixtures@[i]@[k].spec_colour() == if i < a || (i == a && k < l) {
                            match colour_at(rows@, i, k) {
                                Some(c) => c,
                                None => old(fixtures)@[i]@[k].spec_colour(),
                            }
                        } else {
                            old(fixtures)@[i]@[k].spec_colour()
                        }
                    },
            decreases row@.len() - l,
        {
            let c = row[l];
            fixtures[a][l].set_color(c.0, c.1, c.2);
            l = l + 1;
        }
        a = a + 1;
    }
}

/// Sets each white fixture that `rows` gives values.
fn apply_white(fixtures: &mut Vec<Vec<WhiteFixture<u16>>>, rows: &Vec<Vec<FixtureColour>>)
    ensures
        white_applied(old(fixtures)@, final(fixtures)@, rows@),
{
    let mut a: usize = 0;
    while a < rows.len() && a < fixtures.len()
        invariant
            a <= rows@.len(),
            same_shape(old(fixtures)@, fixtures@),
            forall|i: int, l: int|
                0 <= i < old(fixtures)@.len() && 0 <= l < old(fixtures)@[i]@.len() ==> {
                    &&& (#[trigger] fixtures@[i]@[l]).spec_address() == old(fixtures)@[i]@[l].spec_address()
                    &&& fixtures@[i]@[l].spec_white() == if i < a {
                        match colour_at(rows@, i, l) {
                            Some(c) => c,
                            None => old(fixtures)@[i]@[l].spec_white(),
                        }
                    } else {
                        old(fixtures)@[i]@[l].spec_white()
                    }
                },
        decreases rows@.len() - a,
    {
        let row = &rows[a];
        let mut l: usize = 0;
        while l < row.len() && l < fixtures[a].len()
            invariant
                a < rows@.len(),
                a < fixtures@.len(),
                *row == rows@[a as int],
                l <= row@.len(),
                same_shape(old(fixtures)@, fixtures@),
                forall|i: int, k: int|
                    0 <= i < old(fixtures)@.len() && 0 <= k < old(fixtures)@[i]@.len() ==> {
                        &&& (#[trigger] fixtures@[i]@[k]).spec_address() == old(fixtures)@[i]@[k].spec_address()
                        &&& fixtures@[i]@[k].spec_white() == if i < a || (i == a && k < l) {
                            match colour_at(rows@, i, k) {
                                Some(c) => c,
                                None => old(fixtures)@[i]@[k].spec_white(),
                            }
                        } else {
                            old(fixtures)@[i]@[k].spec_white()
                        }
                    },
            decreases row@.len() - l,
        {
            let c = row[l];
            fixtures[a][l].set_white(c.0, c.1, c.2);
            l = l + 1;
        }
        a = a + 1;
    }
}

/// The renderer `new` is `old` with every fixture that `frame` gives a colour set to it.
pub open spec fn frame_applied(old: Renderer, new: Renderer, frame: StageFrame) -> bool {
    &&& rgb_applied(old.rgb_fixtures@, new.rgb_fixtures@, frame.rgb_fixtures@)
    &&& white_applied(old.white_fixtures@, new.white_fixtures@, frame.white_fixtures@)
}

/// Sets every fixture of `renderer` that `frame` gives a colour; fixtures
/// that `frame` has no entry for, and entries that `renderer` has no fixture
/// for, are skipped.
pub fn apply_stage_frame(renderer: &mut Renderer, frame: &StageFrame)
    ensures
        frame_applied(*old(renderer), *final(renderer), *frame),
{
    apply_rgb(&mut renderer.rgb_fixtures, &frame.rgb_fixtures);
    apply_white(&mut renderer.white_fixtures, &frame.white_fixtures);
}

/// Applying a frame sets every fixture that the frame has an entry for, on
/// every arc, to exactly that entry's three values, and leaves every other
/// fixture as it was; each fixture keeps its address.
pub proof fn law_applied_frame_sets_its_entries(old: Renderer, new: Renderer, frame: StageFrame)
    requires
        frame_applied(old, new, frame),
    ensures
        new.rgb_fixtures@.len() == old.rgb_fixtures@.len(),
        new.white_fixtures@.len() == old.white_fixtures@.len(),
        forall|a: int, l: int|
            0 <= a < old.rgb_fixtures@.len() && 0 <= l < old.rgb_fixtures@[a]@.len() ==> {
                &&& (#[trigger] new.rgb_fixtures@[a]@[l]).spec_address()
                    == old.rgb_fixtures@[a]@[l].spec_address()
                &&& (a < frame.rgb_fixtures@.len() && l < frame.rgb_fixtures@[a]@.len()) ==> new.rgb_fixtures@[a]@[l].spec_colour() == (
                    frame.rgb_fixtures@[a]@[l].0,
                    frame.rgb_fixtures@[a]@[l].1,
                    frame.rgb_fixtures@[a]@[l].2,
                )
                &&& !(a < frame.rgb_fixtures@.len() && l < frame.rgb_fixtures@[a]@.len())
                    ==> new.rgb_fixtures@[a]@[l].spec_colour() == old.rgb_fixtures@[a]@[l].spec_colour()
            },
        forall|a: int, l: int|
            0 <= a < old.white_fixtures@.len() && 0 <= l < old.white_fixtures@[a]@.len() ==> {
                &&& (#[trigger] new.white_fixtures@[a]@[l]).spec_address()
                    == old.white_fixtures@[a]@[l].spec_address()
                &&& (a < frame.white_fixtures@.len() && l < frame.white_fixtures@[a]@.len()) ==> new.white_fixtures@[a]@[l].spec_white() == (
                    frame.white_fixtures@[a]@[l].0,
                    frame.white_fixtures@[a]@[l].1,
                    frame.white_fixtures@[a]@[l].2,
                )
                &&& !(a < frame.white_fixtures@.len() && l < frame.white_fixtures@[a]@.len())
                    ==> new.white_fixtures@[a]@[l].spec_white() == old.white_fixtures@[a]@[l].spec_white()
            },
{
    assert forall|a: int, l: int|
        0 <= a < old.rgb_fixtures@.len() && 0 <= l < old.rgb_fixtures@[a]@.len() implies {
            &&& (#[trigger] new.rgb_fixtures@[a]@[l]).spec_address()
                == old.rgb_fixtures@[a]@[l].spec_address()
            &&& (a < frame.rgb_fixtures@.len() && l < frame.rgb_fixtures@[a]@.len()) ==> new.rgb_fixtures@[a]@[l].spec_colour() == (
                frame.rgb_fixtures@[a]@[l].0,
                frame.rgb_fixtures@[a]@[l].1,
                frame.rgb_fixtures@[a]@[l].2,
            )
            &&& !(a < frame.rgb_fixtures@.len() && l < frame.rgb_fixtures@[a]@.len())
                ==> new.rgb_fixtures@[a]@[l].spec_colour() == old.rgb_fixtures@[a]@[l].spec_colour()
        } by {
        let _ = colour_at(frame.rgb_fixtures@, a, l);
    }
    assert forall|a: int, l: int|
        0 <= a < old.white_fixtures@.len() && 0 <= l < old.white_fixtures@[a]@.len() implies {
            &&& (#[trigger] new.white_fixtures@[a]@[l]).spec_address()
                == old.white_fixtures@[a]@[l].spec_address()
            &&& (a < frame.white_fixtures@.len() && l < frame.white_fixtures@[a]@.len()) ==> new.white_fixtures@[a]@[l].spec_white() == (
                frame.white_fixtures@[a]@[l].0,
                frame.white_fixtures@[a]@[l].1,
                frame.white_fixtures@[a]@[l].2,
            )
            &&& !(a < frame.white_fixtures@.len() && l < frame.white_fixtures@[a]@.len())
                ==> new.white_fixtures@[a]@[l].spec_white() == old.white_fixtures@[a]@[l].spec_white()
        } by {
        let _ = colour_at(frame.white_fixtures@, a, l);
    }
}

/// `new` has the fixtures of `old`, at the same addresses, whatever their values.
pub open spec fn same_fixtures(old: Renderer, new: Renderer) -> bool {
    &&& same_shape(old.rgb_fixtures@, new.rgb_fixtures@)
    &&& same_shape(old.white_fixtures@, new.white_fixtures@)
    &&& forall|a: int, l: int|
        0 <= a < old.rgb_fixtures@.len() && 0 <= l < old.rgb_fixtures@[a]@.len() ==> (
        #[trigger] new.rgb_fixtures@[a]@[l]).spec_address()
            == old.rgb_fixtures@[a]@[l].spec_address()
    &&& forall|a: int, l: int|
        0 <= a < old.white_fixtures@.len() && 0 <= l < old.white_fixtures@[a]@.len() ==> (
        #[trigger] new.white_fixtures@[a]@[l]).spec_address()
            == old.white_fixtures@[a]@[l].spec_address()
}

/// Something that generates frames (fixture states) to be rendered.
pub trait Animator {
    /// The next frame can be generated on `renderer`: every fixture it
    /// addresses exists.
    spec fn fits(&self, renderer: &Renderer) -> bool;

    /// What `total_frames` returns.
    spec fn spec_total_frames(&self) -> Option<usize>;

    /// Updates the state of the renderer with the next frame to display.
    ///
    /// Returns `true` if the sequence is still active, or `false` if completed.
    fn tick(&mut self, renderer: &mut Renderer) -> (active: bool)
        requires
            old(self).fits(old(renderer)),
        ensures
            same_fixtures(*old(renderer), *final(renderer)),
    ;

    /// Returns the total frame count for a fixed-length sequence or none for an infinite loop.
    fn total_frames(&self) -> (n: Option<usize>)
        ensures
            n == self.spec_total_frames(),
    ;
}

/// Plays back a loaded sequence of frames, one per tick.
#[derive(Debug)]
pub struct PlaybackAnimator {
    /// Loaded animation sequence
    sequence: Vec<StageFrame>,
    /// Current frame index within sequence
    seq_index: usize,
}

impl PlaybackAnimator {
    /// The frames to play.
    pub closed spec fn spec_sequence(&self) -> Seq<StageFrame> {
        self.sequence@
    }

    /// The index of the next frame to play.
    pub closed spec fn spec_index(&self) -> int {
        self.seq_index as int
    }

    /// An animator that plays `frames` from the first.
    pub fn new(frames: Vec<StageFrame>) -> (r: Self)
        ensures
            r.spec_sequence() == frames@,
            r.spec_index() == 0,
    {
        Self { sequence: frames, seq_index: 0 }
    }
}

impl Animator for PlaybackAnimator {
    open spec fn fits(&self, renderer: &Renderer) -> bool {
        true
    }

    open spec fn spec_total_frames(&self) -> Option<usize> {
        Some(self.spec_sequence().len() as usize)
    }

    /// Applies the next frame, if any is left, and moves on to the one after.
    fn tick(&mut self, renderer: &mut Renderer) -> (active: bool)
        ensures
            final(self).spec_sequence() == old(self).spec_sequence(),
            active == (old(self).spec_index() < old(self).spec_sequence().len()),
            active ==> final(self).spec_index() == old(self).spec_index() + 1 && frame_applied(
                *old(renderer),
                *final(renderer),
                old(self).spec_sequence()[old(self).spec_index()],
            ),
            !active ==> final(self).spec_index() == old(self).spec_index() && *final(renderer)
                == *old(renderer),
    {
        if self.seq_index >= self.sequence.len() {
            return false;
        }
        apply_stage_frame(renderer, &self.sequence[self.seq_index]);
        self.seq_index += 1;
        true
    }

    fn total_frames(&self) -> (n: Option<usize>) {
        Some(self.sequence.len())
    }
}

/// Where a One-Light-At-a-Time sequence stands.
#[derive(Debug, Clone, Copy, PartialEq, Eq)]
pub struct OlatProgress {
    /// Arc of the next light to illuminate
    pub current_arc: usize,
    /// Index within its arc of the next light to illuminate
    pub current_light: usize,
    pub num_arcs: usize,
    pub lights_per_arc: usize,
    /// Every light has been illuminated.
    pub done: bool,
}

/// The progress after one more tick: the next light of the arc, or the first
/// light of the next arc; past the last arc, back to the start, and done.
pub open spec fn olat_step(p: OlatProgress) -> OlatProgress {
    if p.done {
        p
    } else {
        let wrap = p.current_light + 1 >= p.lights_per_arc;
        let light: int = if wrap {
            0
        } else {
            p.current_light + 1
        };
        let arc: int = if wrap {
            p.current_arc + 1
        } else {
            p.current_arc as int
        };
        if arc >= p.num_arcs {
            OlatProgress { current_arc: 0, current_light: light as usize, done: true, ..p }
        } else {
            OlatProgress { current_arc: arc as usize, current_light: light as usize, ..p }
        }
    }
}

/// The progress after `k` more ticks.
pub open spec fn olat_after(p: OlatProgress, k: nat) -> OlatProgress
    decreases k,
{
    if k == 0 {
        p
    } else {
        olat_step(olat_after(p, (k - 1) as nat))
    }
}

/// The progress of a fresh sequence over `num_arcs` arcs of `lights_per_arc` lights.
pub open spec fn olat_start(num_arcs: usize, lights_per_arc: usize) -> OlatProgress {
    OlatProgress { current_arc: 0, current_light: 0, num_arcs, lights_per_arc, done: false }
}

/// A fresh OLAT sequence illuminates every white light exactly once, in
/// order: arc by arc, and within an arc light by light. After `k` ticks, for
/// `k` below `num_arcs * lights_per_arc`, the next light to illuminate is
/// light `k % lights_per_arc` of arc `k / lights_per_arc`; once all of them
/// have been illuminated the sequence is done.
pub proof fn law_olat_order(num_arcs: usize, lights_per_arc: usize, k: nat)
    requires
        num_arcs > 0,
        lights_per_arc > 0,
        k <= num_arcs * lights_per_arc,
    ensures
        k < num_arcs * lights_per_arc ==> olat_after(olat_start(num_arcs, lights_per_arc), k)
            == (OlatProgress {
            current_arc: (k / lights_per_arc as nat) as usize,
            current_light: (k % lights_per_arc as nat) as usize,
            num_arcs,
            lights_per_arc,
            done: false,
        }),
        k == num_arcs * lights_per_arc ==> olat_after(
            olat_start(num_arcs, lights_per_arc),
            k,
        ).done,
    decreases k,
{
    let n = num_arcs as int;
    let d = lights_per_arc as int;
    if k == 0 {
        vstd::arithmetic::div_mod::lemma_fundamental_div_mod_converse(0, d, 0, 0);
        assert(n * d > 0) by (nonlinear_arith)
            requires
                n > 0,
                d > 0,
        ;
    } else {
        let j = (k - 1) as nat;
        law_olat_order(num_arcs, lights_per_arc, j);
        let q = j as int / d;
        let r = j as int % d;
        let start = olat_start(num_arcs, lights_per_arc);
        let pj = olat_after(start, j);
        assert(olat_after(start, k) == olat_step(pj));
        vstd::arithmetic::div_mod::lemma_fundamental_div_mod(j as int, d);
        assert(0 <= r < d);
        assert(j / (lights_per_arc as nat) == q);
        assert(j % (lights_per_arc as nat) == r);
        assert(0 <= q) by (nonlinear_arith)
            requires
                j == d * q + r,
                0 <= r < d,
                j >= 0,
        ;
        if r + 1 >= d {
            assert(k == (q + 1) * d) by (nonlinear_arith)
                requires
                    j == d * q + r,
                    r + 1 == d,
                    k == j + 1,
            ;
            if k < n * d {
                assert(q + 1 < n) by (nonlinear_arith)
                    requires
                        k == (q + 1) * d,
                        k < n * d,
                        d > 0,
                ;
                vstd::arithmetic::div_mod::lemma_fundamental_div_mod_converse(k as int, d, q + 1, 0);
            } else {
                assert(q + 1 >= n) by (nonlinear_arith)
                    requires
                        k == (q + 1) * d,
                        k == n * d,
                        d > 0,
                ;
                assert(q < n) by (nonlinear_arith)
                    requires
                        j == d * q + r,
                        j < n * d,
                        0 <= r,
                        d > 0,
                ;
                assert(pj.current_arc == q && pj.current_light == r && !pj.done);
                assert(olat_step(pj).done);
            }
        } else {
            assert(k == q * d + (r + 1)) by (nonlinear_arith)
                requires
                    j == d * q + r,
                    k == j + 1,
            ;
            if k < n * d {
                assert(q < n) by (nonlinear_arith)
                    requires
                        k == q * d + (r + 1),
                        k < n * d,
                        d > 0,
                        0 <= r,
                ;
                vstd::arithmetic::div_mod::lemma_fundamental_div_mod_converse(
                    k as int,
                    d,
                    q,
                    r + 1,
                );
            } else {
                vstd::arithmetic::div_mod::lemma_fundamental_div_mod_converse(
                    k as int,
                    d,
                    q,
                    r + 1,
                );
                vstd::arithmetic::div_mod::lemma_fundamental_div_mod_converse(k as int, d, n, 0);
                assert(false);
            }
        }
    }
}

/// One-Light-At-a-Time animator.
///
/// Loops through each individual white fixture and sets it full on for a tick.
#[derive(Debug)]
pub struct OlatAnimator {
    current_arc: usize,
    current_light: usize,
    num_arcs: usize,
    lights_per_arc: usize,
    done: bool,
}

impl View for OlatAnimator {
    type V = OlatProgress;

    closed spec fn view(&self) -> OlatProgress {
        OlatProgress {
            current_arc: self.current_arc,
            current_light: self.current_light,
            num_arcs: self.num_arcs,
            lights_per_arc: self.lights_per_arc,
            done: self.done,
        }
    }
}

/// Every colour fixture is off; every white fixture is off, but for the one
/// at `lit` (arc, light), if any, which is fully on.
pub open spec fn olat_lit(r: Renderer, lit: Option<(int, int)>) -> bool {
    &&& forall|a: int, l: int|
        0 <= a < r.rgb_fixtures@.len() && 0 <= l < r.rgb_fixtures@[a]@.len() ==> (
        #[trigger] r.rgb_fixtures@[a]@[l]).spec_colour() == (0u16, 0u16, 0u16)
    &&& forall|a: int, l: int|
        0 <= a < r.white_fixtures@.len() && 0 <= l < r.white_fixtures@[a]@.len() ==> (
        #[trigger] r.white_fixtures@[a]@[l]).spec_white() == if lit == Some((a, l)) {
            (u16::MAX, u16::MAX, u16::MAX)
        } else {
            (0u16, 0u16, 0u16)
        }
}

/// Sets every colour fixture off.
fn rgb_off(fixtures: &mut Vec<Vec<RgbFixture<u16>>>)
    ensures
        same_shape(old(fixtures)@, final(fixtures)@),
        forall|a: int, l: int|
            0 <= a < old(fixtures)@.len() && 0 <= l < old(fixtures)@[a]@.len() ==> {
                &&& (#[trigger] final(fixtures)@[a]@[l]).spec_address() == old(
                    fixtures,
                )@[a]@[l].spec_address()
                &&& final(fixtures)@[a]@[l].spec_colour() == (0u16, 0u16, 0u16)
            },
{
    let mut a: usize = 0;
    while a < fixtures.len()
        invariant
            a <= fixtures@.len(),
            same_shape(old(fixtures)@, fixtures@),
            forall|i: int, l: int|
                0 <= i < old(fixtures)@.len() && 0 <= l < old(fixtures)@[i]@.len() ==> {
                    &&& (#[trigger] fixtures@[i]@[l]).spec_address() == old(
                        fixtures,
                    )@[i]@[l].spec_address()
                    &&& i < a ==> fixtures@[i]@[l].spec_colour() == (0u16, 0u16, 0u16)
                },
        decreases fixtures@.len() - a,
    {
        let mut l: usize = 0;
        while l < fixtures[a].len()
            invariant
                a < fixtures@.len(),
                l <= fixtures@[a as int]@.len(),
                same_shape(old(fixtures)@, fixtures@),
                forall|i: int, k: int|
                    0 <= i < old(fixtures)@.len() && 0 <= k < old(fixtures)@[i]@.len() ==> {
                        &&& (#[trigger] fixtures@[i]@[k]).spec_address() == old(
                            fixtures,
                        )@[i]@[k].spec_address()
                        &&& (i < a || (i == a && k < l)) ==> fixtures@[i]@[k].spec_colour() == (
                        0u16, 0u16, 0u16)
                    },
            decreases fixtures@[a as int]@.len() - l,
        {
            fixtures[a][l].set_color(0, 0, 0);
            l = l + 1;
        }
        a = a + 1;
    }
}

/// Sets every white fixture off.
fn white_off(fixtures: &mut Vec<Vec<WhiteFixture<u16>>>)
    ensures
        same_shape(old(fixtures)@, final(fixtures)@),
        forall|a: int, l: int|
            0 <= a < old(fixtures)@.len() && 0 <= l < old(fixtures)@[a]@.len() ==> {
                &&& (#[trigger] final(fixtures)@[a]@[l]).spec_address() == old(
                    fixtures,
                )@[a]@[l].spec_address()
                &&& final(fixtures)@[a]@[l].spec_white() == (0u16, 0u16, 0u16)
            },
{
    let mut a: usize = 0;
    while a < fixtures.len()
        invariant
            a <= fixtures@.len(),
            same_shape(old(fixtures)@, fixtures@),
            forall|i: int, l: int|
                0 <= i < old(fixtures)@.len() && 0 <= l < old(fixtures)@[i]@.len() ==> {
                    &&& (#[trigger] fixtures@[i]@[l]).spec_address() == old(
                        fixtures,
                    )@[i]@[l].spec_address()
                    &&& i < a ==> fixtures@[i]@[l].spec_white() == (0u16, 0u16, 0u16)
                },
        decreases fixtures@.len() - a,
    {
        let mut l: usize = 0;
        while l < fixtures[a].len()
            invariant
                a < fixtures@.len(),
                l <= fixtures@[a as int]@.len(),
                same_shape(old(fixtures)@, fixtures@),
                forall|i: int, k: int|
                    0 <= i < old(fixtures)@.len() && 0 <= k < old(fixtures)@[i]@.len() ==> {
                        &&& (#[trigger] fixtures@[i]@[k]).spec_address() == old(
                            fixtures,
                        )@[i]@[k].spec_address()
                        &&& (i < a || (i == a && k < l)) ==> fixtures@[i]@[k].spec_white() == (
                        0u16, 0u16, 0u16)
                    },
            decreases fixtures@[a as int]@.len() - l,
        {
            fixtures[a][l].set_white(0, 0, 0);
            l = l + 1;
        }
        a = a + 1;
    }
}

impl OlatAnimator {
    #[verifier::type_invariant]
    spec fn position_in_range(self) -> bool {
        &&& (self.current_light == 0 || self.current_light < self.lights_per_arc)
        &&& (self.current_arc == 0 || self.current_arc < self.num_arcs)
        &&& self.num_arcs * self.lights_per_arc <= usize::MAX
    }

    /// A fresh sequence over the configured arcs and lights.
    pub fn new(config: &ServerConfig) -> (r: Self)
        requires
            config.num_arcs * config.lights_per_arc <= usize::MAX,
        ensures
            r@ == olat_start(config.num_arcs, config.lights_per_arc),
    {
        Self {
            current_arc: 0,
            current_light: 0,
            num_arcs: config.num_arcs,
            lights_per_arc: config.lights_per_arc,
            done: false,
        }
    }
}

impl Animator for OlatAnimator {
    open spec fn fits(&self, renderer: &Renderer) -> bool {
        !self@.done ==> {
            &&& self@.current_arc < renderer.white_fixtures@.len()
            &&& self@.current_light < renderer.white_fixtures@[self@.current_arc as int]@.len()
        }
    }

    open spec fn spec_total_frames(&self) -> Option<usize> {
        Some((self@.num_arcs * self@.lights_per_arc) as usize)
    }

    /// Turns every fixture off, then, unless the sequence is done, turns the
    /// current white fixture fully on and moves on to the next one.
    fn tick(&mut self, renderer: &mut Renderer) -> (active: bool)
        ensures
            final(self)@ == olat_step(old(self)@),
            active == !old(self)@.done,
            olat_lit(
                *final(renderer),
                if active {
                    Some((old(self)@.current_arc as int, old(self)@.current_light as int))
                } else {
                    None
                },
            ),
    {
        proof {
            use_type_invariant(&*self);
        }
        rgb_off(&mut renderer.rgb_fixtures);
        white_off(&mut renderer.white_fixtures);

        if self.done {
            return false;
        }

        renderer.white_fixtures[self.current_arc][self.current_light].set_white(
            u16::MAX,
            u16::MAX,
            u16::MAX,
        );

        let mut light = self.current_light + 1;
        let mut arc = self.current_arc;
        if light >= self.lights_per_arc {
            light = 0;
            arc += 1;
        }
        let mut done = false;
        if arc >= self.num_arcs {
            arc = 0;
            done = true;
        }
        self.current_light = light;
        self.current_arc = arc;
        self.done = done;
        true
    }

    fn total_frames(&self) -> (n: Option<usize>) {
        proof {
            use_type_invariant(self);
        }
        Some(self.num_arcs * self.lights_per_arc)
    }
}

} // verus!
