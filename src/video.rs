//! Pixel conversion for decoded video frames: studio-range BT.601 YUV to RGBA,
//! an alpha plane merged into RGBA, and the order in which demuxed blocks
//! become frames.

use vstd::prelude::*;
use crate::background::{pixel_at, pixel_index, Pixel};

verus! {

/// A value clamped to the byte range.
pub open spec fn clamp_byte(v: int) -> u8 {
    if v < 0 {
        0
    } else if v > 255 {
        255
    } else {
        v as u8
    }
}

/// The luma term `298 * (y - 16)`.
pub open spec fn luma_term(y: u8) -> i32 {
    (298 * (y as int - 16)) as i32
}

pub open spec fn red_sum(y: u8, v: u8) -> i32 {
    (luma_term(y) + 409 * (v as int - 128) + 128) as i32
}

pub open spec fn green_sum(y: u8, u: u8, v: u8) -> i32 {
    (luma_term(y) - 100 * (u as int - 128) - 208 * (v as int - 128) + 128) as i32
}

pub open spec fn blue_sum(y: u8, u: u8) -> i32 {
    (luma_term(y) + 516 * (u as int - 128) + 128) as i32
}

/// The RGB triple of one studio-range YUV sample.
pub open spec fn yuv_rgb(y: u8, u: u8, v: u8) -> (u8, u8, u8) {
    (
        clamp_byte((red_sum(y, v) >> 8i32) as int),
        clamp_byte((green_sum(y, u, v) >> 8i32) as int),
        clamp_byte((blue_sum(y, u) >> 8i32) as int),
    )
}

fn clamp_to_byte(v: i32) -> (r: u8)
    ensures
        r == clamp_byte(v as int),
{
    if v < 0 {
        0
    } else if v > 255 {
        255
    } else {
        v as u8
    }
}

/// Converts one studio-range BT.601 sample to RGB.
pub fn yuv_to_rgb(y: u8, u: u8, v: u8) -> (r: (u8, u8, u8))
    ensures
        r == yuv_rgb(y, u, v),
{
    let shifted_y: i32 = 298 * (y as i32 - 16);
    let r: i32 = (shifted_y + 409 * (v as i32 - 128) + 128) >> 8;
    let g: i32 = (shifted_y - 100 * (u as i32 - 128) - 208 * (v as i32 - 128) + 128) >> 8;
    let b: i32 = (shifted_y + 516 * (u as i32 - 128) + 128) >> 8;
    (clamp_to_byte(r), clamp_to_byte(g), clamp_to_byte(b))
}

/// `rgba` with the alpha byte of each pixel taken from `alpha`.
pub open spec fn with_alpha(rgba: Seq<u8>, alpha: Seq<u8>) -> Seq<u8> {
    Seq::new(rgba.len(), |k: int| if k % 4 == 3 { alpha[k / 4] } else { rgba[k] })
}

/// Writes each alpha sample into the fourth byte of its pixel; the buffer is left
/// unchanged unless it holds exactly four bytes per alpha sample.
pub fn merge_alpha(rgba: &mut Vec<u8>, alpha: &[u8])
    ensures
        old(rgba)@.len() == 4 * alpha@.len() ==> final(rgba)@ == with_alpha(old(rgba)@, alpha@),
        old(rgba)@.len() != 4 * alpha@.len() ==> final(rgba)@ == old(rgba)@,
{
    if rgba.len() % 4 == 0 && rgba.len() / 4 == alpha.len() {
        assert(old(rgba)@.len() == 4 * alpha@.len());
        let n: usize = rgba.len();
        let mut i: usize = 0;
        while i < alpha.len()
            invariant
                n == rgba@.len(),
                old(rgba)@.len() == 4 * alpha@.len(),
                rgba@.len() == old(rgba)@.len(),
                0 <= i <= alpha@.len(),
                forall|k: int|
                    0 <= k < rgba@.len() ==> #[trigger] rgba@[k] == if k % 4 == 3 && k / 4 < i {
                        alpha@[k / 4]
                    } else {
                        old(rgba)@[k]
                    },
            decreases alpha@.len() - i,
        {
            assert(i * 4 + 3 < rgba@.len()) by (nonlinear_arith)
                requires
                    i < alpha@.len(),
                    rgba@.len() == 4 * alpha@.len(),
            ;
            rgba.set(i * 4 + 3, alpha[i]);
            i = i + 1;
        }
        assert(rgba@ =~= with_alpha(old(rgba)@, alpha@));
    } else {
        assert(old(rgba)@.len() != 4 * alpha@.len());
    }
}

/// The RGBA pixel of a 4:2:0 frame at (`row`, `col`): the luma sample of its
/// own position, the chroma samples of its 2 × 2 block, and opaque alpha.
pub open spec fn yuv_pixel(y_plane: Seq<u8>, y_stride: int, u_plane: Seq<u8>, v_plane: Seq<u8>, uv_stride: int, row: int, col: int) -> Pixel {
    let (r, g, b) = yuv_rgb(
        y_plane[row * y_stride + col],
        u_plane[(row / 2) * uv_stride + col / 2],
        v_plane[(row / 2) * uv_stride + col / 2],
    );
    (r, g, b, 255)
}

/// Whether the planes of a `width` × `height` 4:2:0 frame hold every sample
/// the frame reads.
pub open spec fn planes_fit(width: int, height: int, y_len: int, y_stride: int, u_len: int, v_len: int, uv_stride: int) -> bool {
    &&& width <= y_stride
    &&& (width + 1) / 2 <= uv_stride
    &&& y_len >= height * y_stride
    &&& u_len >= ((height + 1) / 2) * uv_stride
    &&& v_len >= ((height + 1) / 2) * uv_stride
}

proof fn lemma_earlier_pixel(width: int, r: int, c: int, row: int, col: int)
    requires
        0 <= r,
        0 <= c < width,
        0 <= col,
        r < row || (r == row && c < col),
    ensures
        pixel_index(width, r, c, 3) < pixel_index(width, row, col, 0),
{
    if r < row {
        assert(r * width + c < row * width) by (nonlinear_arith)
            requires
                0 <= c < width,
                r < row,
        ;
        assert(row * width <= row * width + col);
    }
}

proof fn lemma_sample_in_plane(stride: int, rows: int, row: int, col: int)
    requires
        0 <= row < rows,
        0 <= col < stride,
    ensures
        0 <= row * stride + col < rows * stride,
{
    assert(0 <= row * stride + col < rows * stride) by (nonlinear_arith)
        requires
            0 <= row < rows,
            0 <= col < stride,
    ;
}

fn plane_sizes_fit(width: usize, height: usize, y_len: usize, y_stride: usize, u_len: usize, v_len: usize, uv_stride: usize) -> (r: bool)
    ensures
        r == planes_fit(width as int, height as int, y_len as int, y_stride as int, u_len as int, v_len as int, uv_stride as int),
{
    let chroma_rows = (height as u128 + 1) / 2;
    assert((height as int) * (y_stride as int) <= 0xffff_ffff_ffff_ffff * 0xffff_ffff_ffff_ffff) by (nonlinear_arith)
        requires
            height <= 0xffff_ffff_ffff_ffff,
            y_stride <= 0xffff_ffff_ffff_ffff,
    ;
    assert(chroma_rows * (uv_stride as int) <= 0xffff_ffff_ffff_ffff * 0xffff_ffff_ffff_ffff) by (nonlinear_arith)
        requires
            chroma_rows <= 0xffff_ffff_ffff_ffff,
            uv_stride <= 0xffff_ffff_ffff_ffff,
    ;
    (width as u128) <= (y_stride as u128) && (width as u128 + 1) / 2 <= (uv_stride as u128)
        && (y_len as u128) >= (height as u128) * (y_stride as u128)
        && (u_len as u128) >= chroma_rows * (uv_stride as u128)
        && (v_len as u128) >= chroma_rows * (uv_stride as u128)
}

/// Converts a decoded `width` × `height` 4:2:0 frame to interleaved RGBA with
/// opaque alpha; `None` when the planes are too small for the frame.
pub fn planes_to_rgba(
    width: usize,
    height: usize,
    y_plane: &Vec<u8>,
    y_stride: usize,
    u_plane: &Vec<u8>,
    v_plane: &Vec<u8>,
    uv_stride: usize,
) -> (r: Option<Vec<u8>>)
    ensures
        r is Some <==> planes_fit(width as int, height as int, y_plane@.len() as int, y_stride as int,
            u_plane@.len() as int, v_plane@.len() as int, uv_stride as int),
        r matches Some(out) ==> {
            &&& out@.len() == width * height * 4
            &&& forall|row: int, col: int|
                0 <= row < height && 0 <= col < width ==> #[trigger] pixel_at(out@, width as int, row, col)
                    == yuv_pixel(y_plane@, y_stride as int, u_plane@, v_plane@, uv_stride as int, row, col)
        },
{
    if !plane_sizes_fit(width, height, y_plane.len(), y_stride, u_plane.len(), v_plane.len(), uv_stride) {
        return None;
    }
    let y_len = y_plane.len();
    let u_len = u_plane.len();
    let mut out: Vec<u8> = Vec::new();
    let mut row: usize = 0;
    while row < height
        invariant
            y_len == y_plane@.len(),
            u_len == u_plane@.len(),
            planes_fit(width as int, height as int, y_plane@.len() as int, y_stride as int,
                u_plane@.len() as int, v_plane@.len() as int, uv_stride as int),
            0 <= row <= height,
            out@.len() == (row * width) * 4,
            forall|r: int, c: int|
                0 <= r < row && 0 <= c < width ==> #[trigger] pixel_at(out@, width as int, r, c)
                    == yuv_pixel(y_plane@, y_stride as int, u_plane@, v_plane@, uv_stride as int, r, c),
        decreases height - row,
    {
        let mut col: usize = 0;
        while col < width
            invariant
                y_len == y_plane@.len(),
                u_len == u_plane@.len(),
                planes_fit(width as int, height as int, y_plane@.len() as int, y_stride as int,
                    u_plane@.len() as int, v_plane@.len() as int, uv_stride as int),
                0 <= row < height,
                0 <= col <= width,
                out@.len() == (row * width + col) * 4,
                forall|r: int, c: int|
                    0 <= r < height && 0 <= c < width && (r < row || (r == row && c < col)) ==> #[trigger] pixel_at(out@, width as int, r, c)
                        == yuv_pixel(y_plane@, y_stride as int, u_plane@, v_plane@, uv_stride as int, r, c),
            decreases width - col,
        {
            proof {
                lemma_sample_in_plane(y_stride as int, height as int, row as int, col as int);
                lemma_sample_in_plane(uv_stride as int, (height as int + 1) / 2, row as int / 2, col as int / 2);
            }
            let y_index = row * y_stride + col;
            let uv_index = (row / 2) * uv_stride + (col / 2);
            let (r, g, b) = yuv_to_rgb(y_plane[y_index], u_plane[uv_index], v_plane[uv_index]);
            let ghost before = out@;
            out.push(r);
            out.push(g);
            out.push(b);
            out.push(255);
            proof {
                assert forall|r2: int, c2: int|
                    0 <= r2 < height && 0 <= c2 < width && (r2 < row || (r2 == row && c2 < col + 1)) implies #[trigger] pixel_at(out@, width as int, r2, c2)
                        == yuv_pixel(y_plane@, y_stride as int, u_plane@, v_plane@, uv_stride as int, r2, c2) by {
                    if r2 < row || c2 < col {
                        lemma_earlier_pixel(width as int, r2, c2, row as int, col as int);
                        assert(pixel_at(out@, width as int, r2, c2) == pixel_at(before, width as int, r2, c2));
                    }
                }
            }
            col = col + 1;
        }
        assert((row * width + width) * 4 == ((row + 1) * width) * 4) by (nonlinear_arith);
        row = row + 1;
    }
    assert(out@.len() == width * height * 4) by (nonlinear_arith)
        requires
            out@.len() == (row * width) * 4,
            row == height,
    ;
    Some(out)
}

/// The luma plane of a decoded `width` × `height` frame, row by row without
/// stride padding; `None` when the plane is too small.
pub fn plane_to_alpha(width: usize, height: usize, y_plane: &Vec<u8>, y_stride: usize) -> (r: Option<Vec<u8>>)
    ensures
        r is Some <==> width <= y_stride && y_plane@.len() >= height * y_stride,
        r matches Some(out) ==> {
            &&& out@.len() == width * height
            &&& forall|row: int, col: int|
                0 <= row < height && 0 <= col < width ==> #[trigger] out@[row * width + col] == y_plane@[row * y_stride + col]
        },
{
    assert((height as int) * (y_stride as int) <= 0xffff_ffff_ffff_ffff * 0xffff_ffff_ffff_ffff) by (nonlinear_arith)
        requires
            height <= 0xffff_ffff_ffff_ffff,
            y_stride <= 0xffff_ffff_ffff_ffff,
    ;
    if width > y_stride || (y_plane.len() as u128) < (height as u128) * (y_stride as u128) {
        return None;
    }
    let y_len = y_plane.len();
    let mut out: Vec<u8> = Vec::new();
    let mut row: usize = 0;
    while row < height
        invariant
            y_len == y_plane@.len(),
            width <= y_stride,
            y_plane@.len() >= height * y_stride,
            0 <= row <= height,
            out@.len() == row * width,
            forall|r: int, c: int|
                0 <= r < row && 0 <= c < width ==> #[trigger] out@[r * width + c] == y_plane@[r * y_stride + c],
        decreases height - row,
    {
        let mut col: usize = 0;
        while col < width
            invariant
                y_len == y_plane@.len(),
                width <= y_stride,
                y_plane@.len() >= height * y_stride,
                0 <= row < height,
                0 <= col <= width,
                out@.len() == row * width + col,
                forall|r: int, c: int|
                    0 <= r < height && 0 <= c < width && (r < row || (r == row && c < col)) ==> #[trigger] out@[r * width + c] == y_plane@[r * y_stride + c],
            decreases width - col,
        {
            proof {
                lemma_sample_in_plane(y_stride as int, height as int, row as int, col as int);
            }
            let ghost before = out@;
            out.push(y_plane[row * y_stride + col]);
            proof {
                assert forall|r2: int, c2: int|
                    0 <= r2 < height && 0 <= c2 < width && (r2 < row || (r2 == row && c2 < col + 1)) implies #[trigger] out@[r2 * width + c2] == y_plane@[r2 * y_stride + c2] by {
                    if r2 < row || c2 < col {
                        lemma_earlier_pixel(width as int, r2, c2, row as int, col as int);
                        assert(out@[r2 * width + c2] == before[r2 * width + c2]);
                    }
                }
            }
            col = col + 1;
        }
        assert(row * width + width == (row + 1) * width) by (nonlinear_arith);
        row = row + 1;
    }
    assert(out@.len() == width * height) by (nonlinear_arith)
        requires
            out@.len() == row * width,
            row == height,
    ;
    Some(out)
}

/// The width of a Matroska variable-length integer whose first byte is `b`:
/// one more than the number of leading zero bits.
pub open spec fn vint_width(b: u8) -> int {
    if b >= 128 {
        1
    } else if b >= 64 {
        2
    } else if b >= 32 {
        3
    } else if b >= 16 {
        4
    } else if b >= 8 {
        5
    } else if b >= 4 {
        6
    } else if b >= 2 {
        7
    } else {
        8
    }
}

fn vint_width_exec(b: u8) -> (r: usize)
    ensures
        r == vint_width(b),
{
    if b >= 128 {
        1
    } else if b >= 64 {
        2
    } else if b >= 32 {
        3
    } else if b >= 16 {
        4
    } else if b >= 8 {
        5
    } else if b >= 4 {
        6
    } else if b >= 2 {
        7
    } else {
        8
    }
}

/// The coded frame carried by a Matroska block: what follows the track-number
/// integer, the two timestamp bytes and the flags byte.
pub open spec fn block_payload_of(data: Seq<u8>) -> Seq<u8> {
    data.subrange(vint_width(data[0]) + 3, data.len() as int)
}

/// Relies on webm_iterable's `Block::try_from(&Vec<u8>)` and
/// `Block::raw_frame_data`: the block header is a track-number vint, two
/// timestamp bytes and a flags byte, and the raw frame data is the rest. The
/// parse fails on an empty block or a zero first byte, and slices out of range
/// on a block shorter than its header.
#[verifier::external_body]
fn block_payload(data: &Vec<u8>) -> (r: Option<Vec<u8>>)
    requires
        data@.len() > 0 && data@[0] != 0 ==> data@.len() >= vint_width(data@[0]) + 3,
    ensures
        r.is_some() == (data@.len() > 0 && data@[0] != 0),
        r.is_some() ==> r.unwrap()@ == block_payload_of(data@),
{
    let block: webm_iterable::matroska_spec::Block = match data.try_into() {
        Ok(block) => block,
        Err(_) => return None,
    };
    Some(block.raw_frame_data().to_vec())
}

/// Which stream a decoder serves.
#[derive(Clone, Copy, Debug, PartialEq, Eq, Structural)]
pub enum DecoderMode {
    /// Color blocks, whose coded frame sits inside a block header.
    Color,
    /// Alpha blocks (block additions), which are the coded frame itself.
    Alpha,
}

/// The coded frame a decoder of `mode` reads from `data`: the block's payload
/// for color, `data` itself for alpha; `None` when a color block is malformed.
pub fn coded_frame(mode: DecoderMode, data: &Vec<u8>) -> (r: Option<Vec<u8>>)
    ensures
        mode == DecoderMode::Alpha ==> (r matches Some(p) && p@ == data@),
        mode == DecoderMode::Color ==> (r is Some <==> data@.len() > 0 && data@[0] != 0 && data@.len() >= vint_width(data@[0]) + 3),
        mode == DecoderMode::Color ==> (r matches Some(p) ==> p@ == block_payload_of(data@)),
{
    match mode {
        DecoderMode::Alpha => {
            let copy = data.clone();
            assert(copy@ =~= data@);
            Some(copy)
        },
        DecoderMode::Color => {
            if data.len() == 0 || data[0] == 0 {
                return None;
            }
            if data.len() < vint_width_exec(data[0]) + 3 {
                return None;
            }
            block_payload(data)
        },
    }
}

/// The block-addition identifier that tags alpha data.
pub const ALPHA_BLOCK_ID: u64 = 1;

/// The Matroska alpha mode that marks a video as carrying alpha.
pub const ALPHA_MODE_PRESENT: u64 = 1;

/// The order in which demuxed, decoded blocks become frames: simple blocks are
/// frames as they are; a block group's color block and alpha addition are
/// merged when the group ends. Frames go to consecutive slots.
pub struct FrameAssembler {
    pub has_alpha: bool,
    pub block_id: u64,
    pub buffer: Vec<u8>,
    pub alpha: Vec<u8>,
    pub next_slot: usize,
}

/// A finished frame: the slot it goes to, its RGBA pixels, and whether the
/// video carries alpha.
pub struct Frame {
    pub slot: usize,
    pub buffer: Vec<u8>,
    pub has_alpha: bool,
}

impl FrameAssembler {
    pub fn new() -> (r: FrameAssembler)
        ensures
            !r.has_alpha,
            r.block_id == 0,
            r.buffer@.len() == 0,
            r.alpha@.len() == 0,
            r.next_slot == 0,
    {
        FrameAssembler { has_alpha: false, block_id: 0, buffer: Vec::new(), alpha: Vec::new(), next_slot: 0 }
    }

    /// The track's alpha mode was read.
    pub fn alpha_mode(&mut self, mode: u64)
        ensures
            final(self).has_alpha == (mode == ALPHA_MODE_PRESENT),
            final(self).block_id == old(self).block_id,
            final(self).buffer == old(self).buffer,
            final(self).alpha == old(self).alpha,
            final(self).next_slot == old(self).next_slot,
    {
        self.has_alpha = mode == ALPHA_MODE_PRESENT;
    }

    /// A block addition's identifier was read.
    pub fn block_add_id(&mut self, id: u64)
        ensures
            final(self).block_id == id,
            final(self).has_alpha == old(self).has_alpha,
            final(self).buffer == old(self).buffer,
            final(self).alpha == old(self).alpha,
            final(self).next_slot == old(self).next_slot,
    {
        self.block_id = id;
    }

    /// Whether the block addition now read is alpha data, to be decoded.
    pub fn wants_additional(&self) -> (r: bool)
        ensures
            r == (self.block_id == ALPHA_BLOCK_ID),
    {
        self.block_id == ALPHA_BLOCK_ID
    }

    /// A decoded simple block is the next frame.
    pub fn simple_block(&mut self, decoded: Vec<u8>) -> (r: Option<Frame>)
        ensures
            old(self).next_slot < usize::MAX ==> (r matches Some(f) && f.slot == old(self).next_slot && f.buffer == decoded
                && f.has_alpha == old(self).has_alpha && final(self).next_slot == old(self).next_slot + 1),
            old(self).next_slot == usize::MAX ==> r is None && final(self).next_slot == old(self).next_slot,
            final(self).has_alpha == old(self).has_alpha,
            final(self).block_id == old(self).block_id,
            final(self).buffer == old(self).buffer,
            final(self).alpha == old(self).alpha,
    {
        if self.next_slot == usize::MAX {
            return None;
        }
        let slot = self.next_slot;
        self.next_slot = slot + 1;
        Some(Frame { slot, buffer: decoded, has_alpha: self.has_alpha })
    }

    /// A decoded color block of a block group.
    pub fn block(&mut self, decoded: Vec<u8>)
        ensures
            final(self).buffer == decoded,
            final(self).has_alpha == old(self).has_alpha,
            final(self).block_id == old(self).block_id,
            final(self).alpha == old(self).alpha,
            final(self).next_slot == old(self).next_slot,
    {
        self.buffer = decoded;
    }

    /// A decoded alpha plane of a block group.
    pub fn block_additional(&mut self, decoded: Vec<u8>)
        ensures
            final(self).alpha == decoded,
            final(self).has_alpha == old(self).has_alpha,
            final(self).block_id == old(self).block_id,
            final(self).buffer == old(self).buffer,
            final(self).next_slot == old(self).next_slot,
    {
        self.alpha = decoded;
    }

    /// A block group ended: its color block, with the group's alpha plane
    /// merged in when the sizes agree, is the next frame. The alpha plane is
    /// then dropped, so a later group without one keeps opaque alpha.
    pub fn block_group_end(&mut self) -> (r: Option<Frame>)
        ensures
            final(self).block_id == 0,
            final(self).has_alpha == old(self).has_alpha,
            final(self).alpha@.len() == 0,
            old(self).next_slot < usize::MAX ==> {
                &&& r matches Some(f)
                &&& f.slot == old(self).next_slot
                &&& f.has_alpha == old(self).has_alpha
                &&& old(self).buffer@.len() == 4 * old(self).alpha@.len() ==> f.buffer@ == with_alpha(old(self).buffer@, old(self).alpha@)
                &&& old(self).buffer@.len() != 4 * old(self).alpha@.len() ==> f.buffer@ == old(self).buffer@
                &&& final(self).next_slot == old(self).next_slot + 1
                &&& final(self).buffer@.len() == 0
            },
            old(self).next_slot == usize::MAX ==> r is None && final(self).next_slot == old(self).next_slot,
    {
        self.block_id = 0;
        let alpha = self.alpha.split_off(0);
        if self.next_slot == usize::MAX {
            return None;
        }
        let slot = self.next_slot;
        self.next_slot = slot + 1;
        let mut buffer = self.buffer.split_off(0);
        merge_alpha(&mut buffer, alpha.as_slice());
        Some(Frame { slot, buffer, has_alpha: self.has_alpha })
    }

    /// The slots below `slot_count` that no frame has gone to yet: on a decode
    /// failure each of them fails, so no reader waits on it forever.
    pub fn undelivered(&self, slot_count: usize) -> (r: Vec<usize>)
        ensures
            r@.len() == (if self.next_slot < slot_count {
                slot_count - self.next_slot
            } else {
                0
            }),
            forall|k: int| 0 <= k < r@.len() ==> #[trigger] r@[k] == self.next_slot + k,
    {
        let mut r: Vec<usize> = Vec::new();
        let mut slot = self.next_slot;
        while slot < slot_count
            invariant
                slot == self.next_slot || slot <= slot_count,
                slot >= self.next_slot,
                r@.len() == slot - self.next_slot,
                forall|k: int| 0 <= k < r@.len() ==> #[trigger] r@[k] == self.next_slot + k,
            decreases slot_count - slot,
        {
            r.push(slot);
            slot = slot + 1;
        }
        r
    }
}

} // verus!
