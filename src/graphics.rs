//! The decisions taken at the native hook points: which surfaces show a
//! replacement, what an upload or a draw substitutes, and the registry that
//! pairs surfaces with the replacement images bound to them.

use vstd::prelude::*;
use crate::addr::{original_of, Image, ImageAddr, ImageContainer, ImageContainerAddr, KnownBuffers, SurfaceAddr};
use crate::background::{write_result, Background, BackgroundWrites, is_scene_write, SCENE_HEIGHT, SCENE_WIDTH};
use crate::catalog::{collides, first_at, is_loaded_in, load_result, HqImage, HqImageContainer};
use crate::pixels::HqImageAsyncData;

verus! {

pub type Pair = (SurfaceAddr, ImageAddr);

/// The map that a list of pairs stands for: a later pair for a surface wins.
pub open spec fn pairs_map(s: Seq<Pair>) -> Map<SurfaceAddr, ImageAddr>
    decreases s.len(),
{
    if s.len() == 0 {
        Map::empty()
    } else {
        pairs_map(s.drop_last()).insert(s.last().0, s.last().1)
    }
}

/// No surface appears twice.
pub open spec fn unique_keys(s: Seq<Pair>) -> bool {
    forall|i: int, j: int| 0 <= i < j < s.len() ==> s[i].0 != s[j].0
}

proof fn lemma_pairs_lookup(s: Seq<Pair>, k: SurfaceAddr)
    requires
        unique_keys(s),
    ensures
        pairs_map(s).contains_key(k) <==> exists|i: int| 0 <= i < s.len() && #[trigger] s[i].0 == k,
        forall|i: int| 0 <= i < s.len() && #[trigger] s[i].0 == k ==> pairs_map(s)[k] == s[i].1,
    decreases s.len(),
{
    if s.len() > 0 {
        let t = s.drop_last();
        assert(unique_keys(t));
        lemma_pairs_lookup(t, k);
        if pairs_map(s).contains_key(k) && s.last().0 != k {
            let i = choose|i: int| 0 <= i < t.len() && #[trigger] t[i].0 == k;
            assert(s[i].0 == k);
        }
        if exists|i: int| 0 <= i < s.len() && #[trigger] s[i].0 == k {
            let i = choose|i: int| 0 <= i < s.len() && #[trigger] s[i].0 == k;
            if i < s.len() - 1 {
                assert(t[i].0 == k);
            }
        }
        assert forall|i: int| 0 <= i < s.len() && #[trigger] s[i].0 == k implies pairs_map(s)[k] == s[i].1 by {
            if i < s.len() - 1 {
                assert(t[i].0 == k);
            }
        }
    }
}

spec fn in_prefix(s: Seq<Pair>, i: int, e: Pair) -> bool {
    exists|n: int| 0 <= n < i && #[trigger] s[n] == e
}

/// Whether `c` holds a replacement of `addr`.
pub open spec fn owns<D>(c: HqImageContainer<D>, addr: ImageAddr) -> bool {
    exists|j: int| 0 <= j < c.images@.len() && #[trigger] c.images@[j].original_addr == addr
}

/// `m` without the pairs whose image `c` replaces.
pub open spec fn unpaired<D>(m: Map<SurfaceAddr, ImageAddr>, c: HqImageContainer<D>) -> Map<SurfaceAddr, ImageAddr> {
    Map::new(|k: SurfaceAddr| m.contains_key(k) && !owns(c, m[k]), |k: SurfaceAddr| m[k])
}

/// Surfaces paired with the replacement image bound to them. A pair lives until
/// the draw setup of its surface consumes it, or its surface is rebound or
/// deleted.
pub struct OverlayRegistry {
    pub pairs: Vec<Pair>,
}

impl View for OverlayRegistry {
    type V = Map<SurfaceAddr, ImageAddr>;

    open spec fn view(&self) -> Map<SurfaceAddr, ImageAddr> {
        pairs_map(self.pairs@)
    }
}

fn owns_exec<D>(c: &HqImageContainer<D>, addr: ImageAddr) -> (r: bool)
    ensures
        r == owns(*c, addr),
{
    let mut j: usize = 0;
    while j < c.images.len()
        invariant
            0 <= j <= c.images@.len(),
            forall|j2: int| 0 <= j2 < j ==> #[trigger] c.images@[j2].original_addr != addr,
        decreases c.images@.len() - j,
    {
        if c.images[j].original_addr == addr {
            return true;
        }
        j = j + 1;
    }
    false
}

impl OverlayRegistry {
    pub open spec fn wf(&self) -> bool {
        unique_keys(self.pairs@)
    }

    pub fn new() -> (r: OverlayRegistry)
        ensures
            r.wf(),
            r@ == Map::<SurfaceAddr, ImageAddr>::empty(),
    {
        OverlayRegistry { pairs: Vec::new() }
    }

    /// The pairs kept: those of other surfaces than `key` whose image `drop`
    /// does not replace (all of them when `drop` is `None`).
    fn kept<D>(&self, key: Option<SurfaceAddr>, drop: Option<&HqImageContainer<D>>) -> (r: Vec<Pair>)
        requires
            self.wf(),
        ensures
            unique_keys(r@),
            forall|k: SurfaceAddr| #[trigger] pairs_map(r@).contains_key(k) <==> (self@.contains_key(k)
                && key != Some(k) && !(drop is Some && owns(*drop.unwrap(), self@[k]))),
            forall|k: SurfaceAddr| #[trigger] pairs_map(r@).contains_key(k) ==> pairs_map(r@)[k] == self@[k],
    {
        let mut out: Vec<Pair> = Vec::new();
        let mut i: usize = 0;
        while i < self.pairs.len()
            invariant
                0 <= i <= self.pairs@.len(),
                unique_keys(self.pairs@),
                unique_keys(out@),
                forall|m: int| 0 <= m < out@.len() ==> in_prefix(self.pairs@, i as int, #[trigger] out@[m]),
                forall|n: int| 0 <= n < i ==> (key != Some(#[trigger] self.pairs@[n].0) && !(drop is Some && owns(*drop.unwrap(), self.pairs@[n].1)))
                    ==> out@.contains(self.pairs@[n]),
                forall|m: int| 0 <= m < out@.len() ==> key != Some(#[trigger] out@[m].0) && !(drop is Some && owns(*drop.unwrap(), out@[m].1)),
            decreases self.pairs@.len() - i,
        {
            let e = self.pairs[i];
            let skip_key = match key {
                Some(k) => k == e.0,
                None => false,
            };
            let skip_owned = match drop {
                Some(c) => owns_exec(c, e.1),
                None => false,
            };
            let ghost before = out@;
            if !skip_key && !skip_owned {
                out.push(e);
                assert forall|m: int| 0 <= m < before.len() implies out@[m].0 != e.0 by {
                    let n = choose|n: int| 0 <= n < i && #[trigger] self.pairs@[n] == before[m];
                    assert(self.pairs@[n].0 != self.pairs@[i as int].0);
                }
                assert(out@[before.len() as int] == self.pairs@[i as int]);
                assert(in_prefix(self.pairs@, i + 1, e));
            }
            assert forall|n: int| 0 <= n < i + 1 && (key != Some(#[trigger] self.pairs@[n].0) && !(drop is Some && owns(*drop.unwrap(), self.pairs@[n].1)))
                implies out@.contains(self.pairs@[n]) by {
                if n < i {
                    let m = choose|m: int| 0 <= m < before.len() && #[trigger] before[m] == self.pairs@[n];
                    assert(out@[m] == self.pairs@[n]);
                } else {
                    assert(out@[out@.len() - 1] == self.pairs@[n]);
                }
            }
            assert forall|m: int| 0 <= m < out@.len() implies in_prefix(self.pairs@, i + 1, #[trigger] out@[m]) by {
                if m < out@.len() - 1 || skip_key || skip_owned {
                    let n = choose|n: int| 0 <= n < i && #[trigger] self.pairs@[n] == out@[m];
                    assert(self.pairs@[n] == out@[m]);
                }
            }
            i = i + 1;
        }
        proof {
            assert forall|k: SurfaceAddr| #[trigger] pairs_map(out@).contains_key(k) <==> (self@.contains_key(k)
                && key != Some(k) && !(drop is Some && owns(*drop.unwrap(), self@[k]))) by {
                lemma_pairs_lookup(out@, k);
                lemma_pairs_lookup(self.pairs@, k);
                if pairs_map(out@).contains_key(k) {
                    let m = choose|m: int| 0 <= m < out@.len() && #[trigger] out@[m].0 == k;
                    let n = choose|n: int| 0 <= n < i && #[trigger] self.pairs@[n] == out@[m];
                    assert(self.pairs@[n].0 == k);
                }
                if self@.contains_key(k) && key != Some(k) && !(drop is Some && owns(*drop.unwrap(), self@[k])) {
                    let n = choose|n: int| 0 <= n < self.pairs@.len() && #[trigger] self.pairs@[n].0 == k;
                    let m = choose|m: int| 0 <= m < out@.len() && #[trigger] out@[m] == self.pairs@[n];
                    assert(out@[m].0 == k);
                }
            }
            assert forall|k: SurfaceAddr| #[trigger] pairs_map(out@).contains_key(k) implies pairs_map(out@)[k] == self@[k] by {
                lemma_pairs_lookup(out@, k);
                lemma_pairs_lookup(self.pairs@, k);
                let m = choose|m: int| 0 <= m < out@.len() && #[trigger] out@[m].0 == k;
                let n = choose|n: int| 0 <= n < i && #[trigger] self.pairs@[n] == out@[m];
                assert(self.pairs@[n].0 == k);
            }
        }
        out
    }

    /// Pairs `surface` with `image`, replacing any earlier pair of that surface.
    pub fn insert(&mut self, surface: SurfaceAddr, image: ImageAddr)
        requires
            old(self).wf(),
        ensures
            final(self).wf(),
            final(self)@ == old(self)@.insert(surface, image),
    {
        let mut out = self.kept::<()>(Some(surface), None);
        let ghost before = out@;
        out.push((surface, image));
        proof {
            assert(out@.drop_last() =~= before);
            assert forall|m: int| 0 <= m < before.len() implies out@[m].0 != surface by {
                lemma_pairs_lookup(before, surface);
                assert(before[m].0 == surface ==> pairs_map(before).contains_key(surface));
            }
            assert(pairs_map(before) =~= old(self)@.remove(surface));
            assert(out@.last() == (surface, image));
            assert(pairs_map(out@) == pairs_map(before).insert(surface, image));
            assert(pairs_map(out@) =~= old(self)@.insert(surface, image));
        }
        self.pairs = out;
    }

    /// Removes the pair of `surface`, returning its image.
    pub fn remove(&mut self, surface: SurfaceAddr) -> (r: Option<ImageAddr>)
        requires
            old(self).wf(),
        ensures
            final(self).wf(),
            final(self)@ == old(self)@.remove(surface),
            r == (if old(self)@.contains_key(surface) {
                Some(old(self)@[surface])
            } else {
                None
            }),
    {
        let r = self.get(surface);
        let out = self.kept::<()>(Some(surface), None);
        assert(pairs_map(out@) =~= old(self)@.remove(surface));
        self.pairs = out;
        r
    }

    /// The image paired with `surface`.
    pub fn get(&self, surface: SurfaceAddr) -> (r: Option<ImageAddr>)
        requires
            self.wf(),
        ensures
            r == (if self@.contains_key(surface) {
                Some(self@[surface])
            } else {
                None
            }),
    {
        proof {
            lemma_pairs_lookup(self.pairs@, surface);
        }
        let mut i: usize = 0;
        while i < self.pairs.len()
            invariant
                0 <= i <= self.pairs@.len(),
                unique_keys(self.pairs@),
                forall|n: int| 0 <= n < i ==> #[trigger] self.pairs@[n].0 != surface,
            decreases self.pairs@.len() - i,
        {
            if self.pairs[i].0 == surface {
                proof {
                    lemma_pairs_lookup(self.pairs@, surface);
                }
                assert(self.pairs@[i as int].0 == surface);
                return Some(self.pairs[i].1);
            }
            i = i + 1;
        }
        None
    }

    pub fn contains_key(&self, surface: SurfaceAddr) -> (r: bool)
        requires
            self.wf(),
        ensures
            r == self@.contains_key(surface),
    {
        self.get(surface).is_some()
    }
}

/// Removes every pair whose image the dropped container `hq_image_container`
/// replaced.
pub fn unpair_overlay_surfaces<D>(overlays: &mut OverlayRegistry, hq_image_container: &HqImageContainer<D>)
    requires
        old(overlays).wf(),
    ensures
        final(overlays).wf(),
        final(overlays)@ == unpaired(old(overlays)@, *hq_image_container),
{
    let out = overlays.kept(None, Some(hq_image_container));
    assert(pairs_map(out@) =~= unpaired(old(overlays)@, *hq_image_container));
    overlays.pairs = out;
}

/// Which replacement pixel source an upload or a draw of a surface shows.
#[derive(Clone, Copy, Debug, PartialEq, Eq, Structural)]
pub enum Target {
    Background,
    Image(ImageAddr),
}

/// The replacement that an upload in progress pushes.
pub enum TargetMut<'a, D> {
    Background(&'a Background),
    Image(&'a HqImage<D>),
}

/// A native draw: its address, the surface it samples and its sampler.
#[derive(Clone, Copy, Debug, PartialEq, Eq, Structural)]
pub struct Draw {
    pub addr: usize,
    pub surface: SurfaceAddr,
    pub sampler: u32,
}

/// What to do with a native surface upload.
#[derive(Clone, Copy, Debug, PartialEq, Eq, Structural)]
pub enum UploadAction {
    /// Forward it unmodified, after an upload without data when `reset_first`
    /// (to clear a size left by an earlier replacement).
    Native { reset_first: bool },
    /// Run it once with the texture upload and row length redirected to `Target`.
    Substitute(Target),
    /// Do nothing: a replacement target with no data to replace.
    Skip,
}

/// The state overrides around a native draw setup.
#[derive(Clone, Copy, Debug, PartialEq, Eq, Structural)]
pub struct DrawSetup {
    /// Swap in the full-resolution pass-through shader before the setup.
    pub swap_shader: bool,
    /// Force linear min/mag filtering on the draw's sampler after the setup.
    pub linear_filter: bool,
    /// Enable source-over alpha blending after the setup.
    pub blend: bool,
}

/// The target that `surface` resolves to.
pub open spec fn target_of(surface: SurfaceAddr, underlays: Option<SurfaceAddr>, background: Option<Background>, overlays: Map<SurfaceAddr, ImageAddr>) -> Option<Target> {
    if underlays == Some(surface) {
        if background is Some {
            Some(Target::Background)
        } else {
            None
        }
    } else if overlays.contains_key(surface) {
        Some(Target::Image(overlays[surface]))
    } else {
        None
    }
}

/// Whether a draw of `surface` shows a replacement.
pub open spec fn shows_hq(surface: SurfaceAddr, underlays: Option<SurfaceAddr>, background: Option<Background>, overlays: Map<SurfaceAddr, ImageAddr>) -> bool {
    (underlays == Some(surface) && background is Some) || overlays.contains_key(surface)
}

/// Resolves the target of `surface`: the background for the background pass's
/// surface while a background is active, else the image paired with it.
pub fn get_target(surface_addr: SurfaceAddr, underlays: Option<SurfaceAddr>, background: &Option<Background>, overlays: &OverlayRegistry) -> (r: Option<Target>)
    requires
        overlays.wf(),
    ensures
        r == target_of(surface_addr, underlays, *background, overlays@),
{
    if surface_addr.is_bitmap_underlays(underlays) {
        if background.is_some() {
            Some(Target::Background)
        } else {
            None
        }
    } else {
        match overlays.get(surface_addr) {
            Some(image) => Some(Target::Image(image)),
            None => None,
        }
    }
}

impl Draw {
    /// Whether the draw shows a replacement: the background pass's surface while
    /// a background is active, or a surface paired with a replacement.
    pub fn is_hq(&self, underlays: Option<SurfaceAddr>, background: &Option<Background>, overlays: &OverlayRegistry) -> (r: bool)
        requires
            overlays.wf(),
        ensures
            r == shows_hq(self.surface, underlays, *background, overlays@),
    {
        (self.surface.is_bitmap_underlays(underlays) && background.is_some()) || overlays.contains_key(self.surface)
    }

    /// Whether the draw samples the video surface.
    pub fn is_smush(&self, smush_surface: Option<SurfaceAddr>) -> (r: bool)
        ensures
            r == (smush_surface == Some(self.surface)),
    {
        match smush_surface {
            Some(s) => s == self.surface,
            None => false,
        }
    }
}

/// The native `resource` state that signals teardown.
pub const RESOURCE_RELEASED: i32 = 2;

/// Offset of a texture name within its native surface.
pub const TEXTURE_OFFSET: usize = 0x20;

/// The whole replacement state, passed by handle into the hook callbacks: the
/// catalog, the overlay pairs, the active background with its write log, the
/// target of an upload in progress, the last decompressed image, the video
/// surface, and the singleton buffer addresses.
pub struct HqState<D> {
    pub catalog: Vec<HqImageContainer<D>>,
    pub overlays: OverlayRegistry,
    pub background: Option<Background>,
    pub writes: BackgroundWrites,
    pub target: Option<Target>,
    pub decompressed: Option<ImageAddr>,
    pub smush_surface: Option<SurfaceAddr>,
    pub buffers: KnownBuffers,
}

impl<D> HqState<D> {
    pub open spec fn wf(&self) -> bool {
        self.overlays.wf()
    }

    pub fn new(buffers: KnownBuffers) -> (r: HqState<D>)
        ensures
            r.wf(),
            r.catalog@.len() == 0,
            r.overlays@ == Map::<SurfaceAddr, ImageAddr>::empty(),
            r.background is None,
            r.writes@ == Map::<(u32, u32), (u32, u32)>::empty(),
            r.target is None,
            r.decompressed is None,
            r.smush_surface is None,
            r.buffers == buffers,
    {
        HqState {
            catalog: Vec::new(),
            overlays: OverlayRegistry::new(),
            background: None,
            writes: BackgroundWrites::new(),
            target: None,
            decompressed: None,
            smush_surface: None,
            buffers,
        }
    }

    /// A native container was opened and `opened` is its replacement, if one was
    /// found: it enters the catalog, and the entry it displaces by address reuse
    /// leaves it with all of its overlay pairs. Returns the displaced entry.
    pub fn open_bm_image(&mut self, image_container: &ImageContainer, opened: Option<HqImageContainer<D>>) -> (r: Option<HqImageContainer<D>>)
        requires
            old(self).wf(),
        ensures
            final(self).wf(),
            opened is None ==> *final(self) == *old(self) && r is None,
            opened is Some ==> load_result(old(self).catalog@, final(self).catalog@, image_container.image_addrs@, opened.unwrap(), r),
            opened is Some ==> final(self).overlays@ == match r {
                Some(c) => unpaired(old(self).overlays@, c),
                None => old(self).overlays@,
            },
            final(self).background == old(self).background,
            final(self).writes == old(self).writes,
    {
        match opened {
            Some(c) => {
                let removed = HqImageContainer::load(&mut self.catalog, image_container, c);
                match &removed {
                    Some(old_container) => unpair_overlay_surfaces(&mut self.overlays, old_container),
                    None => {},
                }
                removed
            },
            None => None,
        }
    }

    /// A native resource changed state: on teardown the replacement of its
    /// container leaves the catalog with all of its overlay pairs.
    pub fn manage_resource(&mut self, state: i32, image_container_addr: ImageContainerAddr) -> (r: Option<HqImageContainer<D>>)
        requires
            old(self).wf(),
        ensures
            final(self).wf(),
            state != RESOURCE_RELEASED ==> *final(self) == *old(self) && r is None,
            state == RESOURCE_RELEASED && (exists|k: int| 0 <= k < old(self).catalog@.len() && #[trigger] old(self).catalog@[k].original_addr == image_container_addr) ==> exists|k: int|
                0 <= k < old(self).catalog@.len() && #[trigger] old(self).catalog@[k].original_addr == image_container_addr
                    && (forall|k2: int| 0 <= k2 < k ==> #[trigger] old(self).catalog@[k2].original_addr != image_container_addr)
                    && r == Some(old(self).catalog@[k]) && final(self).catalog@ == old(self).catalog@.remove(k)
                    && final(self).overlays@ == unpaired(old(self).overlays@, old(self).catalog@[k]),
            state == RESOURCE_RELEASED && !(exists|k: int| 0 <= k < old(self).catalog@.len() && #[trigger] old(self).catalog@[k].original_addr == image_container_addr) ==> r is None
                && final(self).catalog@ == old(self).catalog@ && final(self).overlays@ == old(self).overlays@,
            final(self).background == old(self).background,
            final(self).writes == old(self).writes,
    {
        if state == RESOURCE_RELEASED {
            let removed = HqImageContainer::unload(&mut self.catalog, image_container_addr);
            match &removed {
                Some(old_container) => unpair_overlay_surfaces(&mut self.overlays, old_container),
                None => {},
            }
            removed
        } else {
            None
        }
    }

    /// Remembers the image being decompressed: it is about to be copied on.
    pub fn decompress_image(&mut self, image: ImageAddr)
        ensures
            final(self).decompressed == Some(image),
            final(self).catalog == old(self).catalog,
            final(self).overlays == old(self).overlays,
            final(self).background == old(self).background,
            final(self).writes == old(self).writes,
    {
        self.decompressed = Some(image);
    }

    /// The image a copy from `src_image` really copies, seen through the
    /// decompression buffer, when the copy goes to the composite buffer; the
    /// caller reads that native image for `copy_image`.
    pub fn copy_source(&self, dst_image: ImageAddr, src_image: ImageAddr) -> (r: Option<ImageAddr>)
        ensures
            r == (if dst_image.0 == self.buffers.clean {
                Some(original_of(src_image, self.buffers, self.decompressed))
            } else {
                None
            }),
    {
        if dst_image.is_clean_buffer(&self.buffers) {
            Some(src_image.original(&self.buffers, self.decompressed))
        } else {
            None
        }
    }

    /// A native copy of `src_image` to `dst_image` at native (`x`, `y`). A copy
    /// to the composite buffer writes the background with `source`, the native
    /// image that `copy_source` names, and `data`, the pixels that
    /// `Background::write_source` names. A full-screen video frame copied to the
    /// back buffer drops the background, unless the scene cuts the video out.
    pub fn copy_image(
        &mut self,
        dst_image: ImageAddr,
        src_image: ImageAddr,
        source: Option<Image>,
        x: u32,
        y: u32,
        data: &HqImageAsyncData,
        smush_frame: Option<(i32, i32)>,
        stencilled: bool,
    )
        requires
            old(self).wf(),
        ensures
            final(self).wf(),
            final(self).catalog == old(self).catalog,
            final(self).overlays == old(self).overlays,
            ({
                let drops = dst_image.0 == old(self).buffers.back
                    && original_of(src_image, old(self).buffers, old(self).decompressed).0 == old(self).buffers.smush
                    && smush_frame == Some((SCENE_WIDTH, SCENE_HEIGHT)) && !stencilled;
                &&& drops ==> final(self).background is None
                &&& dst_image.0 != old(self).buffers.clean ==> final(self).writes == old(self).writes
                &&& dst_image.0 != old(self).buffers.clean && !drops ==> final(self).background == old(self).background
                &&& dst_image.0 == old(self).buffers.clean && source is None ==> final(self).writes == old(self).writes
                    && (!drops ==> final(self).background == old(self).background)
                &&& dst_image.0 == old(self).buffers.clean && source is Some ==> exists|mid: Option<Background>|
                    #[trigger] write_result(source.unwrap(), x, y, old(self).catalog@, old(self).background, mid,
                        old(self).writes@, final(self).writes@, *data)
                        && final(self).background == if drops { None } else { mid }
            }),
    {
        let src = src_image.original(&self.buffers, self.decompressed);
        if dst_image.is_clean_buffer(&self.buffers) {
            match source {
                Some(image) => {
                    Background::write(&image, x, y, &self.catalog, &mut self.background, &mut self.writes, data);
                },
                None => {},
            }
        }
        let ghost mid = self.background;
        if dst_image.is_back_buffer(&self.buffers) {
            let full_frame = match smush_frame {
                Some((w, h)) => w == SCENE_WIDTH && h == SCENE_HEIGHT,
                None => false,
            };
            if src.is_smush_buffer(&self.buffers) && full_frame && !stencilled {
                self.background = None;
            }
        }
        assert(dst_image.0 == old(self).buffers.clean && source is Some ==> write_result(source.unwrap(), x, y,
            old(self).catalog@, old(self).background, mid, old(self).writes@, self.writes@, *data));
    }

    /// A native image was bound to `surface`: the surface is paired with the
    /// image (seen through the decompression buffer) when that has a
    /// replacement, else unpaired. Binding the video buffer records the video surface.
    pub fn bind_image_surface(&mut self, image: ImageAddr, surface: SurfaceAddr)
        requires
            old(self).wf(),
        ensures
            final(self).wf(),
            ({
                let addr = original_of(image, old(self).buffers, old(self).decompressed);
                &&& final(self).overlays@ == if is_loaded_in(old(self).catalog@, addr) {
                    old(self).overlays@.insert(surface, addr)
                } else {
                    old(self).overlays@.remove(surface)
                }
                &&& final(self).smush_surface == if addr.0 == old(self).buffers.smush {
                    Some(surface)
                } else {
                    old(self).smush_surface
                }
            }),
            final(self).catalog == old(self).catalog,
            final(self).background == old(self).background,
            final(self).writes == old(self).writes,
    {
        let image_addr = image.original(&self.buffers, self.decompressed);
        let is_hq = HqImage::is_loaded(image_addr, &self.catalog);
        if image_addr.is_smush_buffer(&self.buffers) {
            self.smush_surface = Some(surface);
        }
        if is_hq {
            self.overlays.insert(surface, image_addr);
        } else {
            let _ = self.overlays.remove(surface);
        }
    }

    /// Native textures at `textures` are deleted: the pair of their surface goes.
    pub fn delete_textures(&mut self, textures: usize)
        requires
            old(self).wf(),
        ensures
            final(self).wf(),
            textures >= TEXTURE_OFFSET ==> final(self).overlays@ == old(self).overlays@.remove(SurfaceAddr((textures - TEXTURE_OFFSET) as usize)),
            textures < TEXTURE_OFFSET ==> final(self).overlays@ == old(self).overlays@,
            final(self).catalog == old(self).catalog,
            final(self).background == old(self).background,
    {
        if textures >= TEXTURE_OFFSET {
            let _ = self.overlays.remove(SurfaceAddr(textures - TEXTURE_OFFSET));
        }
    }

    /// Decides a native upload of `surface`, with or without pixel data. A
    /// substitution records its target until `finish_upload`.
    pub fn surface_upload(&mut self, surface: SurfaceAddr, has_data: bool, underlays: Option<SurfaceAddr>) -> (r: UploadAction)
        requires
            old(self).wf(),
        ensures
            final(self).wf(),
            ({
                let t = target_of(surface, underlays, old(self).background, old(self).overlays@);
                &&& r == match t {
                    None => UploadAction::Native { reset_first: has_data },
                    Some(target) => if has_data {
                        UploadAction::Substitute(target)
                    } else {
                        UploadAction::Skip
                    },
                }
                &&& final(self).target == if t is Some && has_data {
                    t
                } else {
                    old(self).target
                }
            }),
            final(self).catalog == old(self).catalog,
            final(self).overlays == old(self).overlays,
            final(self).background == old(self).background,
            final(self).writes == old(self).writes,
    {
        match get_target(surface, underlays, &self.background, &self.overlays) {
            None => UploadAction::Native { reset_first: has_data },
            Some(target) => {
                if has_data {
                    self.target = Some(target);
                    UploadAction::Substitute(target)
                } else {
                    UploadAction::Skip
                }
            },
        }
    }

    /// The substituted upload is over.
    pub fn finish_upload(&mut self)
        ensures
            final(self).target is None,
            final(self).catalog == old(self).catalog,
            final(self).overlays == old(self).overlays,
            final(self).background == old(self).background,
            final(self).writes == old(self).writes,
    {
        self.target = None;
    }

    /// The replacement that the upload in progress pushes: the active
    /// background, or the first replacement of the target image.
    pub fn with_target_hq_image(&self) -> (r: Option<TargetMut<'_, D>>)
        ensures
            match self.target {
                None => r is None,
                Some(Target::Background) => if self.background is Some {
                    (r matches Some(TargetMut::Background(b)) && *b == self.background.unwrap())
                } else {
                    r is None
                },
                Some(Target::Image(a)) => if is_loaded_in(self.catalog@, a) {
                    (r matches Some(TargetMut::Image(h)) && exists|i: int, j: int|
                        first_at(self.catalog@, i, j, a) && *h == self.catalog@[i].images@[j])
                } else {
                    r is None
                },
            },
    {
        match self.target {
            Some(Target::Background) => match &self.background {
                Some(b) => Some(TargetMut::Background(b)),
                None => None,
            },
            Some(Target::Image(addr)) => match HqImage::find(addr, &self.catalog) {
                Some(h) => Some(TargetMut::Image(h)),
                None => None,
            },
            None => None,
        }
    }

    /// The row length, in pixels, that the upload in progress pushes.
    pub fn target_row_length(&self) -> (r: Option<u32>)
        ensures
            match self.target {
                None => r is None,
                Some(Target::Background) => if self.background is Some {
                    r == Some(self.background.unwrap().width)
                } else {
                    r is None
                },
                Some(Target::Image(a)) => if is_loaded_in(self.catalog@, a) {
                    exists|i: int, j: int|
                        first_at(self.catalog@, i, j, a) && r == Some(self.catalog@[i].images@[j].width)
                } else {
                    r is None
                },
            },
    {
        match self.with_target_hq_image() {
            Some(TargetMut::Background(b)) => Some(b.width),
            Some(TargetMut::Image(h)) => Some(h.width),
            None => None,
        }
    }

    /// The overrides around a native draw setup: a draw showing a replacement
    /// gets the pass-through shader and linear filtering, and blending unless it
    /// draws the opaque background. The draw consumes the overlay pair of its
    /// surface: an overlay redrawn next frame is paired anew.
    pub fn setup_draw(&mut self, draw: Option<Draw>, underlays: Option<SurfaceAddr>) -> (r: DrawSetup)
        requires
            old(self).wf(),
        ensures
            final(self).wf(),
            ({
                let hq = draw is Some && shows_hq(draw.unwrap().surface, underlays, old(self).background, old(self).overlays@);
                &&& r.swap_shader == hq
                &&& r.linear_filter == hq
                &&& r.blend == (hq && underlays != Some(draw.unwrap().surface))
            }),
            final(self).overlays@ == if draw is Some {
                old(self).overlays@.remove(draw.unwrap().surface)
            } else {
                old(self).overlays@
            },
            final(self).catalog == old(self).catalog,
            final(self).background == old(self).background,
            final(self).writes == old(self).writes,
            final(self).target == old(self).target,
            final(self).smush_surface == old(self).smush_surface,
    {
        match draw {
            Some(d) => {
                let hq = d.is_hq(underlays, &self.background, &self.overlays);
                let _ = self.overlays.remove(d.surface);
                DrawSetup { swap_shader: hq, linear_filter: hq, blend: hq && !d.surface.is_bitmap_underlays(underlays) }
            },
            None => DrawSetup { swap_shader: false, linear_filter: false, blend: false },
        }
    }

    /// Whether an indexed draw is wrapped in the stencil test of the scene's
    /// cutout mask: a draw of the video surface in a stencilled video scene.
    pub fn draw_indexed_primitives(&self, draw: Option<Draw>, stencilled: bool) -> (r: bool)
        ensures
            r == (stencilled && draw is Some && self.smush_surface == Some(draw.unwrap().surface)),
    {
        stencilled && match draw {
            Some(d) => d.is_smush(self.smush_surface),
            None => false,
        }
    }
}

impl Background {
    /// Whether the active scene cuts the video out: cutouts are enabled, a
    /// background is active, and a mask exists for it.
    pub fn is_stencilled_video_scene(video_cutouts: bool, background: &Option<Background>, has_mask: bool) -> (r: bool)
        ensures
            r == (video_cutouts && background is Some && has_mask),
    {
        video_cutouts && background.is_some() && has_mask
    }
}

/// Loading a container whose sub-image addresses collide with exactly one
/// catalog entry removes exactly that entry, appends the new one, and drops
/// exactly the overlay pairs whose image the removed entry replaced.
pub proof fn lemma_load_evicts_the_collider<D>(
    before: Seq<HqImageContainer<D>>,
    after: Seq<HqImageContainer<D>>,
    addrs: Seq<ImageAddr>,
    opened: HqImageContainer<D>,
    r: Option<HqImageContainer<D>>,
    i: int,
    overlays_before: Map<SurfaceAddr, ImageAddr>,
    overlays_after: Map<SurfaceAddr, ImageAddr>,
)
    requires
        load_result(before, after, addrs, opened, r),
        0 <= i < before.len(),
        collides(before[i], addrs),
        forall|i2: int| 0 <= i2 < before.len() && i2 != i ==> !#[trigger] collides(before[i2], addrs),
        overlays_after == match r {
            Some(c) => unpaired(overlays_before, c),
            None => overlays_before,
        },
    ensures
        r == Some(before[i]),
        after == before.remove(i).push(opened),
        forall|k: SurfaceAddr| #[trigger] overlays_after.contains_key(k) <==> overlays_before.contains_key(k)
            && !owns(before[i], overlays_before[k]),
{
    let i1 = choose|i1: int|
        0 <= i1 < before.len() && #[trigger] collides(before[i1], addrs)
            && (forall|i2: int| 0 <= i2 < i1 ==> !#[trigger] collides(before[i2], addrs))
            && r == Some(before[i1]) && after == before.remove(i1).push(opened);
    assert(i1 == i);
}

} // verus!
