//! Frame rendering: translation of logical fixture states into raw DMX512
//! universes for each power supply.

use vstd::prelude::*;

use crate::config::ServerConfig;
use crate::fixtures::{Fixture, RgbFixture, WhiteFixture};
use crate::payload::zeros;

verus! {

/// A universe with every channel off.
pub open spec fn is_black(u: [u8; 512]) -> bool {
    u@ == zeros(512)
}

/// Every universe of `us` is off.
pub open spec fn all_black(us: Seq<[u8; 512]>) -> bool {
    forall|i: int| 0 <= i < us.len() ==> #[trigger] is_black(us[i])
}

/// The universe `u` after each fixture of `fs` has written its channels
/// into it, in order.
pub open spec fn render<F: Fixture>(u: Seq<u8>, fs: Seq<F>) -> Seq<u8>
    decreases fs.len(),
{
    if fs.len() == 0 {
        u
    } else {
        fs.last().spec_write(render(u, fs.drop_last()))
    }
}

/// Every fixture of every universe of `fs` is well formed.
pub open spec fn all_wf<F: Fixture>(fs: Seq<Vec<F>>) -> bool {
    forall|i: int, j: int|
        0 <= i < fs.len() && 0 <= j < fs[i]@.len() ==> (#[trigger] fs[i]@[j]).wf()
}

/// `new` is `old` with each fixture list of `fixtures` rendered into the
/// universe at the same index; universes beyond `fixtures` are unchanged.
pub open spec fn rendered_universes<F: Fixture>(
    old: Seq<[u8; 512]>,
    fixtures: Seq<Vec<F>>,
    new: Seq<[u8; 512]>,
) -> bool {
    &&& new.len() == old.len()
    &&& forall|i: int|
        0 <= i < new.len() ==> (#[trigger] new[i])@ == if i < fixtures.len() {
            render(old[i]@, fixtures[i]@)
        } else {
            old[i]@
        }
}

/// `new` is the frame `old` with every fixture of `renderer` written into it.
pub open spec fn rendered(old: LightStageFrame, renderer: Renderer, new: LightStageFrame) -> bool {
    &&& rendered_universes(old.rgb_universes@, renderer.rgb_fixtures@, new.rgb_universes@)
    &&& rendered_universes(old.white_universes@, renderer.white_fixtures@, new.white_universes@)
}

/// A collection of DMX universes for the entire light stage.
#[derive(Debug, Clone, PartialEq, Eq)]
pub struct LightStageFrame {
    /// List of RGB DMX512 universe buffers.
    pub rgb_universes: Vec<[u8; 512]>,
    /// List of white DMX512 universe buffers.
    pub white_universes: Vec<[u8; 512]>,
}

/// `n` universes, all off.
fn black_universes(n: usize) -> (v: Vec<[u8; 512]>)
    ensures
        v@.len() == n,
        all_black(v@),
{
    let mut v: Vec<[u8; 512]> = Vec::new();
    let mut i: usize = 0;
    while i < n
        invariant
            i <= n,
            v@.len() == i,
            all_black(v@),
        decreases n - i,
    {
        let u = [0u8; 512];
        assert(u@ =~= zeros(512));
        v.push(u);
        i = i + 1;
    }
    v
}

/// Sets every universe of `v` off.
fn blacken(v: &mut Vec<[u8; 512]>)
    ensures
        final(v)@.len() == old(v)@.len(),
        all_black(final(v)@),
{
    let mut i: usize = 0;
    while i < v.len()
        invariant
            i <= v@.len() == old(v)@.len(),
            forall|j: int| 0 <= j < i ==> #[trigger] is_black(v@[j]),
        decreases v@.len() - i,
    {
        let u = [0u8; 512];
        assert(u@ =~= zeros(512));
        v[i] = u;
        i = i + 1;
    }
}

/// A copy of `v`.
fn copy_universes(v: &Vec<[u8; 512]>) -> (c: Vec<[u8; 512]>)
    ensures
        c@ == v@,
{
    let mut c: Vec<[u8; 512]> = Vec::new();
    let mut i: usize = 0;
    while i < v.len()
        invariant
            i <= v@.len(),
            c@ == v@.take(i as int),
        decreases v@.len() - i,
    {
        c.push(v[i]);
        i = i + 1;
        assert(c@ =~= v@.take(i as int));
    }
    assert(v@.take(i as int) =~= v@);
    c
}

impl LightStageFrame {
    /// Returns a new, fully off frame of `num_arcs` colour and white universes.
    #[must_use]
    pub fn black(num_arcs: usize) -> (f: Self)
        ensures
            f.rgb_universes@.len() == num_arcs,
            f.white_universes@.len() == num_arcs,
            all_black(f.rgb_universes@),
            all_black(f.white_universes@),
    {
        Self { rgb_universes: black_universes(num_arcs), white_universes: black_universes(num_arcs) }
    }

    /// Clears the frame: every channel of every universe off.
    pub fn clear(&mut self)
        ensures
            final(self).rgb_universes@.len() == old(self).rgb_universes@.len(),
            final(self).white_universes@.len() == old(self).white_universes@.len(),
            all_black(final(self).rgb_universes@),
            all_black(final(self).white_universes@),
    {
        blacken(&mut self.rgb_universes);
        blacken(&mut self.white_universes);
    }

    /// Makes this frame a copy of `other`.
    pub fn copy_from(&mut self, other: &LightStageFrame)
        ensures
            final(self).rgb_universes@ == other.rgb_universes@,
            final(self).white_universes@ == other.white_universes@,
    {
        self.rgb_universes = copy_universes(&other.rgb_universes);
        self.white_universes = copy_universes(&other.white_universes);
    }
}

/// Translates logical light fixture states into raw DMX universes.
///
/// Maintains logical fixture objects organised by arc and light index, and
/// bakes their 3-channel 16-bit intensities into DMX512 buffers.
#[derive(Debug)]
pub struct Renderer {
    /// RGB fixtures per universe.
    pub rgb_fixtures: Vec<Vec<RgbFixture<u16>>>,
    /// White fixtures per universe.
    pub white_fixtures: Vec<Vec<WhiteFixture<u16>>>,
}

/// `u` with each fixture of `fs` written into it, in order.
fn render_universe<F: Fixture>(u: &mut [u8; 512], fs: &Vec<F>)
    requires
        forall|j: int| 0 <= j < fs@.len() ==> (#[trigger] fs@[j]).wf(),
    ensures
        final(u)@ == render(old(u)@, fs@),
{
    let ghost u0 = u@;
    let mut j: usize = 0;
    while j < fs.len()
        invariant
            j <= fs@.len(),
            forall|k: int| 0 <= k < fs@.len() ==> (#[trigger] fs@[k]).wf(),
            u@ == render(u0, fs@.take(j as int)),
        decreases fs@.len() - j,
    {
        fs[j].write_to_universe(u);
        assert(fs@.take(j + 1).drop_last() =~= fs@.take(j as int));
        j = j + 1;
    }
    assert(fs@.take(j as int) =~= fs@);
}

/// Renders each fixture list of `fixtures` into the universe of `universes` at the same index.
fn render_all<F: Fixture>(fixtures: &Vec<Vec<F>>, universes: &mut Vec<[u8; 512]>)
    requires
        fixtures@.len() <= old(universes)@.len(),
        all_wf(fixtures@),
    ensures
        final(universes)@.len() == old(universes)@.len(),
        forall|i: int|
            0 <= i < final(universes)@.len() ==> (#[trigger] final(universes)@[i])@ == if i
                < fixtures@.len() {
                render(old(universes)@[i]@, fixtures@[i]@)
            } else {
                old(universes)@[i]@
            },
{
    let mut idx: usize = 0;
    while idx < fixtures.len()
        invariant
            idx <= fixtures@.len() <= universes@.len() == old(universes)@.len(),
            all_wf(fixtures@),
            forall|i: int|
                0 <= i < universes@.len() ==> (#[trigger] universes@[i])@ == if i < idx {
                    render(old(universes)@[i]@, fixtures@[i]@)
                } else {
                    old(universes)@[i]@
                },
        decreases fixtures@.len() - idx,
    {
        let mut u = universes[idx];
        render_universe(&mut u, &fixtures[idx]);
        universes[idx] = u;
        idx = idx + 1;
    }
}

impl Renderer {
    /// A renderer with no fixtures, for the configured number of arcs.
    pub fn new(config: &ServerConfig) -> (r: Self)
        ensures
            r.rgb_fixtures@.len() == config.num_arcs,
            r.white_fixtures@.len() == config.num_arcs,
            forall|i: int|
                0 <= i < config.num_arcs ==> (#[trigger] r.rgb_fixtures@[i])@.len() == 0,
            forall|i: int|
                0 <= i < config.num_arcs ==> (#[trigger] r.white_fixtures@[i])@.len() == 0,
    {
        let num_arcs = config.num_arcs;
        let mut rgb_fixtures: Vec<Vec<RgbFixture<u16>>> = Vec::new();
        let mut white_fixtures: Vec<Vec<WhiteFixture<u16>>> = Vec::new();
        let mut i: usize = 0;
        while i < num_arcs
            invariant
                i <= num_arcs,
                rgb_fixtures@.len() == i,
                white_fixtures@.len() == i,
                forall|k: int| 0 <= k < i ==> (#[trigger] rgb_fixtures@[k])@.len() == 0,
                forall|k: int| 0 <= k < i ==> (#[trigger] white_fixtures@[k])@.len() == 0,
            decreases num_arcs - i,
        {
            rgb_fixtures.push(Vec::new());
            white_fixtures.push(Vec::new());
            i = i + 1;
        }
        Self { rgb_fixtures, white_fixtures }
    }

    /// Bake current logical state of all fixtures into provided target frame.
    ///
    /// Each fixture of arc `i` writes its channels into universe `i`, in
    /// order; universes beyond the renderer's arcs are left unchanged.
    pub fn update(&mut self, next_frame: &mut LightStageFrame)
        requires
            old(self).rgb_fixtures@.len() <= old(next_frame).rgb_universes@.len(),
            old(self).white_fixtures@.len() <= old(next_frame).white_universes@.len(),
            all_wf(old(self).rgb_fixtures@),
            all_wf(old(self).white_fixtures@),
        ensures
            *final(self) == *old(self),
            rendered(*old(next_frame), *old(self), *final(next_frame)),
    {
        render_all(&self.rgb_fixtures, &mut next_frame.rgb_universes);
        render_all(&self.white_fixtures, &mut next_frame.white_universes);
    }
}

} // verus!
