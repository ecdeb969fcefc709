//! The single active high-resolution scene background: installing it, blitting
//! overlays onto it, and restoring the pixels an overlay covered.

use vstd::prelude::*;
use vstd::arithmetic::div_mod::lemma_fundamental_div_mod_converse;
use crate::addr::{Image, ImageAddr};
use crate::catalog::{first_at, is_loaded_in, HqImage, HqImageContainer};
use crate::pixels::{HqImageAsyncData, HqImageState};

verus! {

/// An RGBA pixel.
pub type Pixel = (u8, u8, u8, u8);

/// Offset of channel `c` of pixel (`row`, `col`) in an RGBA buffer `width` pixels wide.
pub open spec fn pixel_index(width: int, row: int, col: int, c: int) -> int {
    (row * width + col) * 4 + c
}

/// Pixel (`row`, `col`) of an RGBA buffer `width` pixels wide.
pub open spec fn pixel_at(buf: Seq<u8>, width: int, row: int, col: int) -> Pixel {
    (
        buf[pixel_index(width, row, col, 0)],
        buf[pixel_index(width, row, col, 1)],
        buf[pixel_index(width, row, col, 2)],
        buf[pixel_index(width, row, col, 3)],
    )
}

/// Whether `buf` holds at least `width` × `height` RGBA pixels.
pub open spec fn is_frame(buf: Seq<u8>, width: int, height: int) -> bool {
    buf.len() >= width * height * 4
}

/// Whether `after` keeps the bytes of `before` past its `width` × `height` pixels.
pub open spec fn tail_kept(before: Seq<u8>, after: Seq<u8>, width: int, height: int) -> bool {
    forall|k: int| width * height * 4 <= k < before.len() ==> #[trigger] after[k] == before[k]
}

/// Whether (`row`, `col`) lies in the `w` × `h` rectangle whose corner is (`px`, `py`).
pub open spec fn in_rect(px: int, py: int, w: int, h: int, row: int, col: int) -> bool {
    py <= row < py + h && px <= col < px + w
}

/// One channel composited straight-alpha over the destination.
pub open spec fn blend_channel(b: u8, f: u8, a: u8) -> u8 {
    ((f as int * a as int + b as int * (255 - a as int)) / 255) as u8
}

pub open spec fn blend(background: Pixel, foreground: Pixel) -> (u8, u8, u8) {
    (
        blend_channel(background.0, foreground.0, foreground.3),
        blend_channel(background.1, foreground.1, foreground.3),
        blend_channel(background.2, foreground.2, foreground.3),
    )
}

/// A destination pixel after an overlay pixel is drawn on it: copied when the
/// overlay is opaque, else blended with the destination's alpha kept.
pub open spec fn overlay_pixel(dst: Pixel, src: Pixel, has_alpha: bool) -> Pixel {
    if has_alpha {
        let (r, g, b) = blend(dst, src);
        (r, g, b, dst.3)
    } else {
        src
    }
}

proof fn lemma_row_major_unique(width: int, r1: int, c1: int, r2: int, c2: int)
    requires
        0 <= c1 < width,
        0 <= c2 < width,
        r1 * width + c1 == r2 * width + c2,
    ensures
        r1 == r2,
        c1 == c2,
{
    lemma_fundamental_div_mod_converse(r1 * width + c1, width, r1, c1);
    lemma_fundamental_div_mod_converse(r2 * width + c2, width, r2, c2);
}

proof fn lemma_pixel_in_frame(width: int, height: int, row: int, col: int)
    requires
        0 <= row < height,
        0 <= col < width,
    ensures
        0 <= pixel_index(width, row, col, 0),
        pixel_index(width, row, col, 3) < width * height * 4,
{
    assert(0 <= row * width) by (nonlinear_arith)
        requires
            0 <= row,
            0 <= width,
    ;
    assert(row * width + col < width * height) by (nonlinear_arith)
        requires
            0 <= row < height,
            0 <= col < width,
    ;
}

/// Reads pixel (`row`, `col`).
fn get_pixel(buf: &Vec<u8>, width: usize, height: usize, row: usize, col: usize) -> (r: Pixel)
    requires
        buf@.len() >= width * height * 4,
        row < height,
        col < width,
    ensures
        r == pixel_at(buf@, width as int, row as int, col as int),
{
    proof {
        lemma_pixel_in_frame(width as int, height as int, row as int, col as int);
    }
    let n = buf.len();
    assert(pixel_index(width as int, row as int, col as int, 3) < n);
    let base = (row * width + col) * 4;
    (buf[base], buf[base + 1], buf[base + 2], buf[base + 3])
}

/// Overwrites pixel (`row`, `col`) and no other.
fn set_pixel(buf: &mut Vec<u8>, width: usize, height: usize, row: usize, col: usize, p: Pixel)
    requires
        is_frame(old(buf)@, width as int, height as int),
        row < height,
        col < width,
    ensures
        final(buf)@.len() == old(buf)@.len(),
        tail_kept(old(buf)@, final(buf)@, width as int, height as int),
        forall|r: int, c: int|
            0 <= r < height && 0 <= c < width ==> #[trigger] pixel_at(final(buf)@, width as int, r, c)
                == if r == row && c == col {
                p
            } else {
                pixel_at(old(buf)@, width as int, r, c)
            },
{
    proof {
        lemma_pixel_in_frame(width as int, height as int, row as int, col as int);
    }
    let n = buf.len();
    assert(pixel_index(width as int, row as int, col as int, 3) < n);
    let base = (row * width + col) * 4;
    buf.set(base, p.0);
    buf.set(base + 1, p.1);
    buf.set(base + 2, p.2);
    buf.set(base + 3, p.3);
    assert forall|r: int, c: int| 0 <= r < height && 0 <= c < width implies #[trigger] pixel_at(
        buf@,
        width as int,
        r,
        c,
    ) == if r == row && c == col {
        p
    } else {
        pixel_at(old(buf)@, width as int, r, c)
    } by {
        lemma_pixel_in_frame(width as int, height as int, r, c);
        if r * width + c == row * width + col {
            lemma_row_major_unique(width as int, r, c, row as int, col as int);
        }
    }
}

proof fn lemma_blend_fits(b: u8, f: u8, a: u8)
    ensures
        0 <= f as int * a as int + b as int * (255 - a as int) <= 255 * 255,
{
    assert(0 <= f as int * a as int + b as int * (255 - a as int) <= 255 * 255) by (nonlinear_arith)
        requires
            0 <= f <= 255,
            0 <= b <= 255,
            0 <= a <= 255,
    ;
}

/// A fully opaque foreground pixel replaces the background's colour; a fully
/// transparent one leaves it.
pub proof fn lemma_blend_extremes(background: Pixel, foreground: Pixel)
    ensures
        foreground.3 == 255 ==> blend(background, foreground) == (foreground.0, foreground.1, foreground.2),
        foreground.3 == 0 ==> blend(background, foreground) == (background.0, background.1, background.2),
{
}

/// The single active scene background: the name and address of the
/// replacement it came from, its dimensions and scale, and its live pixels.
pub struct Background {
    pub name: String,
    pub width: u32,
    pub height: u32,
    pub scale: u32,
    pub original_addr: ImageAddr,
    pub buffer: Vec<u8>,
}

/// Whether a `w` × `h` patch with pixels `src`, drawn at native (`x`, `y`),
/// lies within the background and `src` holds all of its pixels.
pub open spec fn patch_fits(bg: Background, x: u32, y: u32, w: u32, h: u32, src: Seq<u8>) -> bool {
    &&& is_frame(bg.buffer@, bg.width as int, bg.height as int)
    &&& x * bg.scale + w <= bg.width
    &&& y * bg.scale + h <= bg.height
    &&& src.len() >= w * h * 4
}

/// Whether a region copied back from `src` at native (`x`, `y`) lies within the
/// background and `src` holds at least the background's pixels.
pub open spec fn region_fits(bg: Background, x: u32, y: u32, w: u32, h: u32, src: Seq<u8>) -> bool {
    &&& is_frame(bg.buffer@, bg.width as int, bg.height as int)
    &&& x * bg.scale + w <= bg.width
    &&& y * bg.scale + h <= bg.height
    &&& src.len() >= bg.width * bg.height * 4
}

/// `after` is `before` with the `w` × `h` patch `src` drawn at (`px`, `py`).
pub open spec fn overlaid(before: Seq<u8>, after: Seq<u8>, width: int, height: int, px: int, py: int, w: int, h: int, src: Seq<u8>, has_alpha: bool) -> bool {
    &&& after.len() == before.len()
    &&& tail_kept(before, after, width, height)
    &&& forall|row: int, col: int|
        0 <= row < height && 0 <= col < width ==> #[trigger] pixel_at(after, width, row, col) == if in_rect(px, py, w, h, row, col) {
            overlay_pixel(pixel_at(before, width, row, col), pixel_at(src, w, row - py, col - px), has_alpha)
        } else {
            pixel_at(before, width, row, col)
        }
}

/// `after` is `before` with the `w` × `h` rectangle at (`px`, `py`) copied from
/// `src`, a buffer of the same size.
pub open spec fn copied(before: Seq<u8>, after: Seq<u8>, width: int, height: int, px: int, py: int, w: int, h: int, src: Seq<u8>) -> bool {
    &&& after.len() == before.len()
    &&& tail_kept(before, after, width, height)
    &&& forall|row: int, col: int|
        0 <= row < height && 0 <= col < width ==> #[trigger] pixel_at(after, width, row, col) == if in_rect(px, py, w, h, row, col) {
            pixel_at(src, width, row, col)
        } else {
            pixel_at(before, width, row, col)
        }
}

/// The pixels and alpha flag of a loaded cell.
pub open spec fn loaded_pixels(data: HqImageAsyncData) -> Option<(Seq<u8>, bool)> {
    match data.state {
        HqImageState::Loaded { buffer, has_alpha } => Some((buffer@, has_alpha)),
        _ => None,
    }
}

/// Whether the checked dimensions hold: `buf` has `width` × `height` pixels at least.
fn holds_frame(len: usize, width: u32, height: u32) -> (r: bool)
    ensures
        r == (len >= width as int * height as int * 4),
{
    assert((width as int) * (height as int) <= 0xffff_ffff * 0xffff_ffff) by (nonlinear_arith)
        requires
            width <= 0xffff_ffff,
            height <= 0xffff_ffff,
    ;
    (len as u128) >= (width as u128) * (height as u128) * 4
}

/// Whether the rectangle at native `x` scaled by `scale` with extent `w` ends
/// within `limit`.
fn span_fits(x: u32, scale: u32, w: u32, limit: u32) -> (r: bool)
    ensures
        r == (x * scale + w <= limit),
{
    assert((x as int) * (scale as int) <= 0xffff_ffff * 0xffff_ffff) by (nonlinear_arith)
        requires
            x <= 0xffff_ffff,
            scale <= 0xffff_ffff,
    ;
    (x as u64) * (scale as u64) + (w as u64) <= (limit as u64)
}

impl Background {
    /// Composites one foreground pixel over a background pixel, per RGB channel
    /// `out = (f * a + b * (255 - a)) / 255`.
    pub fn blend_pixels(background: Pixel, foreground: Pixel) -> (r: (u8, u8, u8))
        ensures
            r == blend(background, foreground),
    {
        let (br, bg, bb, _) = background;
        let (fr, fg, fb, fa) = foreground;
        proof {
            lemma_blend_fits(br, fr, fa);
            lemma_blend_fits(bg, fg, fa);
            lemma_blend_fits(bb, fb, fa);
        }
        let r = (fr as u32 * fa as u32 + br as u32 * (255 - fa) as u32) / 255;
        let g = (fg as u32 * fa as u32 + bg as u32 * (255 - fa) as u32) / 255;
        let b = (fb as u32 * fa as u32 + bb as u32 * (255 - fa) as u32) / 255;
        (r as u8, g as u8, b as u8)
    }

    /// Draws the replacement `overlay` onto the background at native (`x`, `y`),
    /// that is at (`x * scale`, `y * scale`) in background pixels: copied when
    /// opaque, blended when it carries alpha. Nothing changes when the scales
    /// differ, the pixels are not loaded, or the patch does not fit.
    pub fn overlay<D>(&mut self, x: u32, y: u32, overlay: &HqImage<D>, data: &HqImageAsyncData)
        ensures
            ({
                let applies = old(self).scale == overlay.scale && loaded_pixels(*data) is Some
                    && patch_fits(*old(self), x, y, overlay.width, overlay.height, loaded_pixels(*data).unwrap().0);
                &&& !applies ==> *final(self) == *old(self)
                &&& applies ==> {
                    &&& final(self).name == old(self).name
                    &&& final(self).width == old(self).width
                    &&& final(self).height == old(self).height
                    &&& final(self).scale == old(self).scale
                    &&& final(self).original_addr == old(self).original_addr
                    &&& overlaid(old(self).buffer@, final(self).buffer@, old(self).width as int,
                        old(self).height as int, x * old(self).scale, y * old(self).scale,
                        overlay.width as int, overlay.height as int, loaded_pixels(*data).unwrap().0,
                        loaded_pixels(*data).unwrap().1)
                }
            }),
    {
        if self.scale != overlay.scale {
            return;
        }
        let (src, has_alpha) = match &data.state {
            HqImageState::Loaded { buffer, has_alpha } => (buffer, *has_alpha),
            _ => {
                return;
            },
        };
        let w = overlay.width;
        let h = overlay.height;
        if !holds_frame(self.buffer.len(), self.width, self.height) || !span_fits(
            x,
            self.scale,
            w,
            self.width,
        ) || !span_fits(y, self.scale, h, self.height) || !holds_frame(src.len(), w, h) {
            return;
        }
        let bw = self.width as usize;
        let bh = self.height as usize;
        let px = (x as u64 * self.scale as u64) as usize;
        let py = (y as u64 * self.scale as u64) as usize;
        let w = w as usize;
        let h = h as usize;
        let ghost before = self.buffer@;
        let mut i: usize = 0;
        while i < h
            invariant
                0 <= i <= h,
                bw == old(self).width,
                bh == old(self).height,
                px + w <= bw,
                py + h <= bh,
                px == x * old(self).scale,
                py == y * old(self).scale,
                src@.len() >= w * h * 4,
                before == old(self).buffer@,
                is_frame(before, bw as int, bh as int),
                self.buffer@.len() == before.len(),
                tail_kept(before, self.buffer@, bw as int, bh as int),
                self.name == old(self).name,
                self.width == old(self).width,
                self.height == old(self).height,
                self.scale == old(self).scale,
                self.original_addr == old(self).original_addr,
                forall|row: int, col: int|
                    0 <= row < bh && 0 <= col < bw ==> #[trigger] pixel_at(self.buffer@, bw as int, row, col) == if in_rect(px as int, py as int, w as int, i as int, row, col) {
                        overlay_pixel(pixel_at(before, bw as int, row, col), pixel_at(src@, w as int, row - py, col - px), has_alpha)
                    } else {
                        pixel_at(before, bw as int, row, col)
                    },
            decreases h - i,
        {
            let mut j: usize = 0;
            while j < w
                invariant
                    0 <= i < h,
                    0 <= j <= w,
                    bw == old(self).width,
                    bh == old(self).height,
                    px + w <= bw,
                    py + h <= bh,
                    src@.len() >= w * h * 4,
                    is_frame(before, bw as int, bh as int),
                    self.buffer@.len() == before.len(),
                    tail_kept(before, self.buffer@, bw as int, bh as int),
                    self.name == old(self).name,
                    self.width == old(self).width,
                    self.height == old(self).height,
                    self.scale == old(self).scale,
                    self.original_addr == old(self).original_addr,
                    forall|row: int, col: int|
                        0 <= row < bh && 0 <= col < bw ==> #[trigger] pixel_at(self.buffer@, bw as int, row, col) == if in_rect(px as int, py as int, w as int, i as int, row, col) || (row == py + i && px <= col < px + j) {
                            overlay_pixel(pixel_at(before, bw as int, row, col), pixel_at(src@, w as int, row - py, col - px), has_alpha)
                        } else {
                            pixel_at(before, bw as int, row, col)
                        },
                decreases w - j,
            {
                let dst = get_pixel(&self.buffer, bw, bh, py + i, px + j);
                let fg = get_pixel(src, w, h, i, j);
                let out = if has_alpha {
                    let (r, g, b) = Background::blend_pixels(dst, fg);
                    (r, g, b, dst.3)
                } else {
                    fg
                };
                set_pixel(&mut self.buffer, bw, bh, py + i, px + j, out);
                j = j + 1;
            }
            i = i + 1;
        }
    }

    /// Copies the `width` × `height` rectangle at native (`x`, `y`), that is at
    /// (`x * scale`, `y * scale`), back from the loaded pixels of `data`, a buffer
    /// of the background's own size. Nothing changes when the pixels are not
    /// loaded or the region does not fit.
    pub fn copy_from(&mut self, data: &HqImageAsyncData, x: u32, y: u32, width: u32, height: u32)
        ensures
            ({
                let applies = loaded_pixels(*data) is Some
                    && region_fits(*old(self), x, y, width, height, loaded_pixels(*data).unwrap().0);
                &&& !applies ==> *final(self) == *old(self)
                &&& applies ==> {
                    &&& final(self).name == old(self).name
                    &&& final(self).width == old(self).width
                    &&& final(self).height == old(self).height
                    &&& final(self).scale == old(self).scale
                    &&& final(self).original_addr == old(self).original_addr
                    &&& copied(old(self).buffer@, final(self).buffer@, old(self).width as int,
                        old(self).height as int, x * old(self).scale, y * old(self).scale,
                        width as int, height as int, loaded_pixels(*data).unwrap().0)
                }
            }),
    {
        let src = match &data.state {
            HqImageState::Loaded { buffer, .. } => buffer,
            _ => {
                return;
            },
        };
        if !holds_frame(self.buffer.len(), self.width, self.height) || !span_fits(
            x,
            self.scale,
            width,
            self.width,
        ) || !span_fits(y, self.scale, height, self.height) || !holds_frame(
            src.len(),
            self.width,
            self.height,
        ) {
            return;
        }
        let bw = self.width as usize;
        let bh = self.height as usize;
        let px = (x as u64 * self.scale as u64) as usize;
        let py = (y as u64 * self.scale as u64) as usize;
        let w = width as usize;
        let h = height as usize;
        let ghost before = self.buffer@;
        let mut i: usize = 0;
        while i < h
            invariant
                0 <= i <= h,
                bw == old(self).width,
                bh == old(self).height,
                px + w <= bw,
                py + h <= bh,
                px == x * old(self).scale,
                py == y * old(self).scale,
                src@.len() >= bw * bh * 4,
                before == old(self).buffer@,
                is_frame(before, bw as int, bh as int),
                self.buffer@.len() == before.len(),
                tail_kept(before, self.buffer@, bw as int, bh as int),
                self.name == old(self).name,
                self.width == old(self).width,
                self.height == old(self).height,
                self.scale == old(self).scale,
                self.original_addr == old(self).original_addr,
                forall|row: int, col: int|
                    0 <= row < bh && 0 <= col < bw ==> #[trigger] pixel_at(self.buffer@, bw as int, row, col) == if in_rect(px as int, py as int, w as int, i as int, row, col) {
                        pixel_at(src@, bw as int, row, col)
                    } else {
                        pixel_at(before, bw as int, row, col)
                    },
            decreases h - i,
        {
            let mut j: usize = 0;
            while j < w
                invariant
                    0 <= i < h,
                    0 <= j <= w,
                    bw == old(self).width,
                    bh == old(self).height,
                    px + w <= bw,
                    py + h <= bh,
                    src@.len() >= bw * bh * 4,
                    is_frame(before, bw as int, bh as int),
                    self.buffer@.len() == before.len(),
                    tail_kept(before, self.buffer@, bw as int, bh as int),
                    self.name == old(self).name,
                    self.width == old(self).width,
                    self.height == old(self).height,
                    self.scale == old(self).scale,
                    self.original_addr == old(self).original_addr,
                    forall|row: int, col: int|
                        0 <= row < bh && 0 <= col < bw ==> #[trigger] pixel_at(self.buffer@, bw as int, row, col) == if in_rect(px as int, py as int, w as int, i as int, row, col) || (row == py + i && px <= col < px + j) {
                            pixel_at(src@, bw as int, row, col)
                        } else {
                            pixel_at(before, bw as int, row, col)
                        },
                decreases w - j,
            {
                let p = get_pixel(src, bw, bh, py + i, px + j);
                set_pixel(&mut self.buffer, bw, bh, py + i, px + j, p);
                j = j + 1;
            }
            i = i + 1;
        }
    }
}

/// A region of the background covered by an overlay: its native corner and its
/// size in background pixels.
pub type WriteEntry = ((u32, u32), (u32, u32));

/// The map that a log of entries stands for: a later entry for a corner wins.
pub open spec fn writes_map(s: Seq<WriteEntry>) -> Map<(u32, u32), (u32, u32)>
    decreases s.len(),
{
    if s.len() == 0 {
        Map::empty()
    } else {
        writes_map(s.drop_last()).insert(s.last().0, s.last().1)
    }
}

/// The regions of the background most recently covered by an overlay, by
/// native corner, so that their pixels can be restored.
pub struct BackgroundWrites {
    pub entries: Vec<WriteEntry>,
}

impl View for BackgroundWrites {
    type V = Map<(u32, u32), (u32, u32)>;

    open spec fn view(&self) -> Map<(u32, u32), (u32, u32)> {
        writes_map(self.entries@)
    }
}

impl BackgroundWrites {
    pub fn new() -> (r: BackgroundWrites)
        ensures
            r@ == Map::<(u32, u32), (u32, u32)>::empty(),
    {
        BackgroundWrites { entries: Vec::new() }
    }

    /// The entries without `key`, and the size recorded for `key`.
    fn without(&self, key: (u32, u32)) -> (r: (Vec<WriteEntry>, Option<(u32, u32)>))
        ensures
            writes_map(r.0@) == self@.remove(key),
            r.1 == (if self@.contains_key(key) {
                Some(self@[key])
            } else {
                None
            }),
    {
        let mut kept: Vec<WriteEntry> = Vec::new();
        let mut found: Option<(u32, u32)> = None;
        let mut i: usize = 0;
        while i < self.entries.len()
            invariant
                0 <= i <= self.entries@.len(),
                writes_map(kept@) == writes_map(self.entries@.subrange(0, i as int)).remove(key),
                found == (if writes_map(self.entries@.subrange(0, i as int)).contains_key(key) {
                    Some(writes_map(self.entries@.subrange(0, i as int))[key])
                } else {
                    None
                }),
            decreases self.entries@.len() - i,
        {
            let e = self.entries[i];
            let ghost prefix = self.entries@.subrange(0, i as int);
            assert(self.entries@.subrange(0, i + 1).drop_last() =~= prefix);
            assert(self.entries@.subrange(0, i + 1).last() == e);
            if e.0.0 == key.0 && e.0.1 == key.1 {
                found = Some(e.1);
                assert(writes_map(prefix).insert(e.0, e.1).remove(key) =~= writes_map(prefix).remove(key));
            } else {
                let ghost before = kept@;
                kept.push(e);
                assert(kept@.drop_last() =~= before);
                assert(writes_map(prefix).remove(key).insert(e.0, e.1) =~= writes_map(prefix).insert(e.0, e.1).remove(key));
            }
            i = i + 1;
        }
        assert(self.entries@.subrange(0, self.entries@.len() as int) =~= self.entries@);
        (kept, found)
    }

    pub fn insert(&mut self, key: (u32, u32), value: (u32, u32))
        ensures
            final(self)@ == old(self)@.insert(key, value),
    {
        let (mut kept, _) = self.without(key);
        let ghost before = kept@;
        kept.push((key, value));
        assert(kept@.drop_last() =~= before);
        assert(writes_map(before).insert(key, value) =~= old(self)@.insert(key, value));
        self.entries = kept;
    }

    pub fn remove(&mut self, key: (u32, u32)) -> (r: Option<(u32, u32)>)
        ensures
            final(self)@ == old(self)@.remove(key),
            r == (if old(self)@.contains_key(key) {
                Some(old(self)@[key])
            } else {
                None
            }),
    {
        let (kept, found) = self.without(key);
        self.entries = kept;
        found
    }

    pub fn clear(&mut self)
        ensures
            final(self)@ == Map::<(u32, u32), (u32, u32)>::empty(),
    {
        self.entries = Vec::new();
    }
}

/// Native size of a full-scene background image.
pub const SCENE_WIDTH: i32 = 640;

pub const SCENE_HEIGHT: i32 = 480;

/// `after` is `before` with `overlay` drawn at native (`x`, `y`), as
/// `Background::overlay` does it.
pub open spec fn overlay_result<D>(before: Background, after: Background, x: u32, y: u32, overlay: HqImage<D>, data: HqImageAsyncData) -> bool {
    let applies = before.scale == overlay.scale && loaded_pixels(data) is Some
        && patch_fits(before, x, y, overlay.width, overlay.height, loaded_pixels(data).unwrap().0);
    &&& !applies ==> after == before
    &&& applies ==> {
        &&& after.name == before.name
        &&& after.width == before.width
        &&& after.height == before.height
        &&& after.scale == before.scale
        &&& after.original_addr == before.original_addr
        &&& overlaid(before.buffer@, after.buffer@, before.width as int, before.height as int,
            x * before.scale, y * before.scale, overlay.width as int, overlay.height as int,
            loaded_pixels(data).unwrap().0, loaded_pixels(data).unwrap().1)
    }
}

/// `after` is `before` with the region at native (`x`, `y`) copied back from
/// `data`, as `Background::copy_from` does it.
pub open spec fn copy_result(before: Background, after: Background, data: HqImageAsyncData, x: u32, y: u32, width: u32, height: u32) -> bool {
    let applies = loaded_pixels(data) is Some
        && region_fits(before, x, y, width, height, loaded_pixels(data).unwrap().0);
    &&& !applies ==> after == before
    &&& applies ==> {
        &&& after.name == before.name
        &&& after.width == before.width
        &&& after.height == before.height
        &&& after.scale == before.scale
        &&& after.original_addr == before.original_addr
        &&& copied(before.buffer@, after.buffer@, before.width as int, before.height as int,
            x * before.scale, y * before.scale, width as int, height as int,
            loaded_pixels(data).unwrap().0)
    }
}

/// `r` is the background that a replacement image becomes: present exactly
/// when its pixels are loaded, and then a copy of them with its name,
/// dimensions, scale and address.
pub open spec fn background_from<D>(image: HqImage<D>, data: HqImageAsyncData, r: Option<Background>) -> bool {
    match data.state {
        HqImageState::Loaded { buffer, .. } => {
            &&& r is Some
            &&& r.unwrap().name == image.name
            &&& r.unwrap().width == image.width
            &&& r.unwrap().height == image.height
            &&& r.unwrap().scale == image.scale
            &&& r.unwrap().original_addr == image.original_addr
            &&& r.unwrap().buffer@ == buffer@
        },
        _ => r is None,
    }
}

/// Whether copying a native image to (`x`, `y`) installs a new scene background.
pub open spec fn is_scene_write(image: Image, x: u32, y: u32) -> bool {
    x == 0 && y == 0 && image.width == SCENE_WIDTH && image.height == SCENE_HEIGHT
}

/// The state after `animate`.
pub open spec fn animate_result<D>(
    bg_before: Option<Background>,
    bg_after: Option<Background>,
    writes_before: Map<(u32, u32), (u32, u32)>,
    writes_after: Map<(u32, u32), (u32, u32)>,
    x: u32,
    y: u32,
    overlay: HqImage<D>,
    data: HqImageAsyncData,
) -> bool {
    match bg_before {
        None => bg_after is None && writes_after == writes_before,
        Some(b) => {
            &&& writes_after == if overlay.index == 0 {
                writes_before.insert((x, y), (overlay.width, overlay.height))
            } else {
                writes_before
            }
            &&& bg_after is Some
            &&& overlay_result(b, bg_after.unwrap(), x, y, overlay, data)
        },
    }
}

/// The state and answer after `restore`, where `source_loaded` tells whether the
/// background's own source image is still in the catalog.
pub open spec fn restore_result(
    bg_before: Option<Background>,
    bg_after: Option<Background>,
    writes_before: Map<(u32, u32), (u32, u32)>,
    writes_after: Map<(u32, u32), (u32, u32)>,
    x: u32,
    y: u32,
    source_loaded: bool,
    data: HqImageAsyncData,
    r: Option<()>,
) -> bool {
    match bg_before {
        None => bg_after is None && writes_after == writes_before && r is None,
        Some(b) => {
            &&& writes_after == writes_before.remove((x, y))
            &&& bg_after is Some
            &&& if writes_before.contains_key((x, y)) && source_loaded {
                let (w, h) = writes_before[(x, y)];
                &&& r == Some(())
                &&& copy_result(b, bg_after.unwrap(), data, x, y, w, h)
            } else {
                r is None && bg_after == bg_before
            }
        },
    }
}

/// Whether there is a background whose own source image is in the catalog.
pub open spec fn source_loaded<D>(catalog: Seq<HqImageContainer<D>>, background: Option<Background>) -> bool {
    background is Some && is_loaded_in(catalog, background.unwrap().original_addr)
}

/// The background and write log after `write` of `image` at native (`x`, `y`).
pub open spec fn write_result<D>(
    image: Image,
    x: u32,
    y: u32,
    catalog: Seq<HqImageContainer<D>>,
    bg_before: Option<Background>,
    bg_after: Option<Background>,
    writes_before: Map<(u32, u32), (u32, u32)>,
    writes_after: Map<(u32, u32), (u32, u32)>,
    data: HqImageAsyncData,
) -> bool {
    if is_scene_write(image, x, y) {
        &&& writes_after == Map::<(u32, u32), (u32, u32)>::empty()
        &&& !is_loaded_in(catalog, image.addr) ==> bg_after is None
        &&& is_loaded_in(catalog, image.addr) ==> exists|i: int, j: int|
            first_at(catalog, i, j, image.addr) && background_from(catalog[i].images@[j], data, bg_after)
    } else if is_loaded_in(catalog, image.addr) {
        exists|i: int, j: int|
            first_at(catalog, i, j, image.addr) && animate_result(bg_before, bg_after, writes_before,
                writes_after, x, y, catalog[i].images@[j], data)
    } else {
        exists|r: Option<()>|
            #[trigger] restore_result(bg_before, bg_after, writes_before, writes_after, x, y,
                source_loaded(catalog, bg_before), data, r)
    }
}

impl<D> HqImage<D> {
    /// The background this replacement becomes, once its pixels are loaded.
    pub fn to_background_mut(&self, data: &HqImageAsyncData) -> (r: Option<Background>)
        ensures
            background_from(*self, *data, r),
    {
        match &data.state {
            HqImageState::Loaded { buffer, .. } => {
                let buffer = buffer.clone();
                assert(buffer@ =~= data.state->buffer@);
                Some(
                    Background {
                        name: self.name.clone(),
                        width: self.width,
                        height: self.height,
                        scale: self.scale,
                        original_addr: self.original_addr,
                        buffer,
                    },
                )
            },
            _ => None,
        }
    }
}

impl Background {
    /// Records that the `width` × `height` region at native (`x`, `y`) is about to
    /// be covered.
    pub fn save(writes: &mut BackgroundWrites, x: u32, y: u32, width: u32, height: u32)
        ensures
            final(writes)@ == old(writes)@.insert((x, y), (width, height)),
    {
        writes.insert((x, y), (width, height));
    }

    /// Draws a frame of `overlay` onto the active background, first recording
    /// the region it covers when it is the first frame of its asset.
    pub fn animate<D>(
        background: &mut Option<Background>,
        writes: &mut BackgroundWrites,
        x: u32,
        y: u32,
        overlay: &HqImage<D>,
        data: &HqImageAsyncData,
    )
        ensures
            animate_result(*old(background), *final(background), old(writes)@, final(writes)@, x, y, *overlay, *data),
    {
        match background {
            Some(bg) => {
                if overlay.index == 0 {
                    Background::save(writes, x, y, overlay.width, overlay.height);
                }
                bg.overlay(x, y, overlay, data);
            },
            None => {},
        }
    }

    /// Undoes the overlay last drawn at native (`x`, `y`): the region recorded
    /// for that corner is copied back from `data`, the pixels of the
    /// background's own source image. `Some` when that happened.
    pub fn restore<D>(
        background: &mut Option<Background>,
        writes: &mut BackgroundWrites,
        x: u32,
        y: u32,
        catalog: &Vec<HqImageContainer<D>>,
        data: &HqImageAsyncData,
    ) -> (r: Option<()>)
        ensures
            restore_result(*old(background), *final(background), old(writes)@, final(writes)@, x, y,
                source_loaded(catalog@, *old(background)), *data, r),
    {
        match background {
            Some(bg) => {
                let (width, height) = match writes.remove((x, y)) {
                    Some(size) => size,
                    None => {
                        return None;
                    },
                };
                if HqImage::is_loaded(bg.original_addr, catalog) {
                    bg.copy_from(data, x, y, width, height);
                    Some(())
                } else {
                    None
                }
            },
            None => None,
        }
    }

    /// Installs the replacement of `image_addr` as the background (none when it
    /// has no replacement or its pixels failed) and forgets all recorded regions.
    pub fn set_from_image<D>(
        background: &mut Option<Background>,
        writes: &mut BackgroundWrites,
        image_addr: ImageAddr,
        catalog: &Vec<HqImageContainer<D>>,
        data: &HqImageAsyncData,
    )
        ensures
            final(writes)@ == Map::<(u32, u32), (u32, u32)>::empty(),
            !is_loaded_in(catalog@, image_addr) ==> *final(background) is None,
            is_loaded_in(catalog@, image_addr) ==> exists|i: int, j: int|
                first_at(catalog@, i, j, image_addr) && background_from(catalog@[i].images@[j], *data, *final(background)),
    {
        *background = match HqImage::find(image_addr, catalog) {
            Some(image) => image.to_background_mut(data),
            None => None,
        };
        writes.clear();
    }

    /// The replacement image whose pixels `write` of `image` at native (`x`, `y`)
    /// will read, if it reads any.
    pub fn write_source<D>(
        image: &Image,
        x: u32,
        y: u32,
        catalog: &Vec<HqImageContainer<D>>,
        background: &Option<Background>,
        writes: &BackgroundWrites,
    ) -> (r: Option<ImageAddr>)
        ensures
            r == (if is_scene_write(*image, x, y) || is_loaded_in(catalog@, image.addr) {
                if is_loaded_in(catalog@, image.addr) && (is_scene_write(*image, x, y) || background is Some) {
                    Some(image.addr)
                } else {
                    None
                }
            } else {
                match background {
                    Some(b) => if writes@.contains_key((x, y)) && is_loaded_in(catalog@, b.original_addr) {
                        Some(b.original_addr)
                    } else {
                        None
                    },
                    None => None,
                }
            }),
    {
        let scene = x == 0 && y == 0 && image.width == SCENE_WIDTH && image.height == SCENE_HEIGHT;
        let loaded = HqImage::is_loaded(image.addr, catalog);
        if scene || loaded {
            if loaded && (scene || background.is_some()) {
                Some(image.addr)
            } else {
                None
            }
        } else {
            match background {
                Some(b) => {
                    let recorded = writes.without((x, y)).1.is_some();
                    if recorded && HqImage::is_loaded(b.original_addr, catalog) {
                        Some(b.original_addr)
                    } else {
                        None
                    }
                },
                None => None,
            }
        }
    }

    /// Handles a native copy of `image` to the composite buffer at native
    /// (`x`, `y`). A full-scene image at the origin installs a new background;
    /// an image with a replacement is drawn onto the background; any other
    /// image restores what an earlier overlay at that corner covered. `data`
    /// holds the pixels of the image that `write_source` names.
    pub fn write<D>(
        image: &Image,
        x: u32,
        y: u32,
        catalog: &Vec<HqImageContainer<D>>,
        background: &mut Option<Background>,
        writes: &mut BackgroundWrites,
        data: &HqImageAsyncData,
    )
        ensures
            write_result(*image, x, y, catalog@, *old(background), *final(background), old(writes)@, final(writes)@, *data),
    {
        if x == 0 && y == 0 && image.width == SCENE_WIDTH && image.height == SCENE_HEIGHT {
            Background::set_from_image(background, writes, image.addr, catalog, data);
        } else {
            match HqImage::locate(image.addr, catalog) {
                Some((i, j)) => {
                    Background::animate(background, writes, x, y, &catalog[i].images[j], data);
                },
                None => {
                    let _ = Background::restore(background, writes, x, y, catalog, data);
                },
            }
        }
    }
}

/// Drawing an opaque replacement and reading the covered rectangle back gives
/// the replacement's pixels exactly: pixel (`r`, `c`) of the patch lands at
/// (`y * scale + r`, `x * scale + c`).
pub proof fn lemma_opaque_overlay_reads_back<D>(
    before: Background,
    after: Background,
    x: u32,
    y: u32,
    overlay: HqImage<D>,
    data: HqImageAsyncData,
)
    requires
        overlay_result(before, after, x, y, overlay, data),
        before.scale == overlay.scale,
        data.state is Loaded,
        !data.state->has_alpha,
        patch_fits(before, x, y, overlay.width, overlay.height, data.state->buffer@),
    ensures
        forall|r: int, c: int|
            0 <= r < overlay.height && 0 <= c < overlay.width ==> pixel_at(
                after.buffer@,
                before.width as int,
                y * before.scale + r,
                x * before.scale + c,
            ) == #[trigger] pixel_at(data.state->buffer@, overlay.width as int, r, c),
{
    assert forall|r: int, c: int| 0 <= r < overlay.height && 0 <= c < overlay.width implies pixel_at(
        after.buffer@,
        before.width as int,
        y * before.scale + r,
        x * before.scale + c,
    ) == #[trigger] pixel_at(data.state->buffer@, overlay.width as int, r, c) by {
        let row = y * before.scale + r;
        let col = x * before.scale + c;
        assert(pixel_at(after.buffer@, before.width as int, row, col) == overlay_pixel(
            pixel_at(before.buffer@, before.width as int, row, col),
            pixel_at(data.state->buffer@, overlay.width as int, row - y * before.scale, col - x * before.scale),
            false,
        ));
    }
}

/// Drawing the first frame of an overlay and then restoring its corner, with the
/// background's source pixels at hand, succeeds and leaves the covered
/// rectangle equal to those source pixels.
pub proof fn lemma_restore_after_animate<D>(
    bg0: Option<Background>,
    bg1: Option<Background>,
    bg2: Option<Background>,
    writes0: Map<(u32, u32), (u32, u32)>,
    writes1: Map<(u32, u32), (u32, u32)>,
    writes2: Map<(u32, u32), (u32, u32)>,
    x: u32,
    y: u32,
    overlay: HqImage<D>,
    overlay_data: HqImageAsyncData,
    source: HqImageAsyncData,
    r: Option<()>,
)
    requires
        bg0 is Some,
        overlay.index == 0,
        animate_result(bg0, bg1, writes0, writes1, x, y, overlay, overlay_data),
        restore_result(bg1, bg2, writes1, writes2, x, y, true, source, r),
        source.state is Loaded,
        region_fits(bg0.unwrap(), x, y, overlay.width, overlay.height, source.state->buffer@),
    ensures
        r == Some(()),
        writes2 == writes0.insert((x, y), (overlay.width, overlay.height)).remove((x, y)),
        forall|row: int, col: int|
            in_rect(
                x * bg0.unwrap().scale,
                y * bg0.unwrap().scale,
                overlay.width as int,
                overlay.height as int,
                row,
                col,
            ) ==> #[trigger] pixel_at(bg2.unwrap().buffer@, bg0.unwrap().width as int, row, col)
                == pixel_at(source.state->buffer@, bg0.unwrap().width as int, row, col),
{
    let b0 = bg0.unwrap();
    let b1 = bg1.unwrap();
    assert(writes1.contains_key((x, y)));
    assert(region_fits(b1, x, y, overlay.width, overlay.height, source.state->buffer@));
    assert forall|row: int, col: int|
        in_rect(
            x * b0.scale,
            y * b0.scale,
            overlay.width as int,
            overlay.height as int,
            row,
            col,
        ) implies #[trigger] pixel_at(bg2.unwrap().buffer@, b0.width as int, row, col)
            == pixel_at(source.state->buffer@, b0.width as int, row, col) by {
        assert(0 <= row < b1.height && 0 <= col < b1.width);
    }
}

} // verus!
