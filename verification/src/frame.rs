//! Captured frames, their crops, and the cached OCR reading of a frame.

use crate::types::{OcrBlock, PixelBounds};
use bytes::Bytes;
use vstd::arithmetic::div_mod::*;
use vstd::arithmetic::mul::*;
use vstd::prelude::*;

verus! {

/// `bytes::Bytes`, a shared immutable byte buffer.
#[verifier::external_type_specification]
#[verifier::external_body]
pub struct ExBytes(bytes::Bytes);

/// The bytes that a buffer holds.
pub uninterp spec fn bytes_of(buffer: Bytes) -> Seq<u8>;

/// Calls `Bytes::as_ref`: the slice holds the bytes of the buffer.
#[verifier::external_body]
pub(crate) fn bytes_slice(buffer: &Bytes) -> (r: &[u8])
    ensures
        r@ == bytes_of(*buffer),
{
    buffer.as_ref()
}

/// Calls `Bytes::from` for a vector: the buffer holds the bytes of the vector.
#[verifier::external_body]
pub(crate) fn bytes_from(data: Vec<u8>) -> (r: Bytes)
    ensures
        bytes_of(r) == data@,
{
    Bytes::from(data)
}

/// Calls `Bytes::clone`: the copy holds the same bytes.
#[verifier::external_body]
pub(crate) fn bytes_clone(buffer: &Bytes) -> (r: Bytes)
    ensures
        bytes_of(r) == bytes_of(*buffer),
{
    buffer.clone()
}

/// Calls `Bytes::eq`: true when both buffers hold the same bytes.
#[verifier::external_body]
fn bytes_equal(a: &Bytes, b: &Bytes) -> (r: bool)
    ensures
        r == (bytes_of(*a) == bytes_of(*b)),
{
    a == b
}

/// A captured frame in tightly packed RGBA8 (`width * height * 4`, no row padding).
#[derive(Debug)]
pub struct CapturedFrame {
    pub width: u32,
    pub height: u32,
    pub rgba: Bytes,
    pub sequence: u64,
}

impl Clone for CapturedFrame {
    fn clone(&self) -> (r: Self)
        ensures
            r.same_frame(*self),
    {
        CapturedFrame {
            width: self.width,
            height: self.height,
            rgba: bytes_clone(&self.rgba),
            sequence: self.sequence,
        }
    }
}

/// A frame as plain values.
pub struct FrameView {
    pub width: u32,
    pub height: u32,
    pub rgba: Seq<u8>,
    pub sequence: u64,
}

impl View for CapturedFrame {
    type V = FrameView;

    open spec fn view(&self) -> FrameView {
        FrameView {
            width: self.width,
            height: self.height,
            rgba: bytes_of(self.rgba),
            sequence: self.sequence,
        }
    }
}

impl CapturedFrame {
    /// Same size, sequence and pixels.
    pub open spec fn same_frame(self, other: CapturedFrame) -> bool {
        &&& self.width == other.width
        &&& self.height == other.height
        &&& self.sequence == other.sequence
        &&& bytes_of(self.rgba) == bytes_of(other.rgba)
    }

    /// Frame from its pixels.
    pub fn new(width: u32, height: u32, rgba: Vec<u8>, sequence: u64) -> (r: CapturedFrame)
        ensures
            r.width == width,
            r.height == height,
            r.sequence == sequence,
            bytes_of(r.rgba) == rgba@,
    {
        CapturedFrame { width, height, rgba: bytes_from(rgba), sequence }
    }
}

/// Bytes of a `width × height` RGBA8 frame.
pub open spec fn rgba_len(width: u32, height: u32) -> int {
    width * height * 4
}

/// Smallest crop that is sent to the detector (px).
pub const MIN_CROP_PX: u32 = 8;

/// Integer crop of a packed RGB8 buffer (`width * height * 3`).
#[derive(Debug, PartialEq, Eq)]
pub struct Rgb8Crop {
    pub x: u32,
    pub y: u32,
    pub width: u32,
    pub height: u32,
    pub rgb: Vec<u8>,
}

/// Index, in a frame of width `width`, of byte `k` of a crop that is `cw` pixels wide, begins at
/// `(x0, y0)` and keeps `depth` of the four bytes of each pixel.
pub open spec fn source_index(width: int, x0: int, y0: int, cw: int, depth: int, k: int) -> int {
    let pixel = k / depth;
    ((y0 + pixel / cw) * width + x0 + pixel % cw) * 4 + k % depth
}

/// The bytes of a crop, row by row, `depth` bytes of each pixel.
pub open spec fn cropped(rgba: Seq<u8>, width: u32, bounds: PixelBounds, depth: int) -> Seq<u8> {
    let cw = bounds.x1 - bounds.x0;
    let ch = bounds.y1 - bounds.y0;
    Seq::new(
        (cw * ch * depth) as nat,
        |k: int|
            rgba[source_index(
                width as int,
                bounds.x0 as int,
                bounds.y0 as int,
                cw,
                depth,
                k,
            )],
    )
}

proof fn lemma_source_index(
    width: int,
    x0: int,
    y0: int,
    cw: int,
    depth: int,
    row: int,
    col: int,
    part: int,
)
    requires
        0 <= col < cw,
        0 <= row,
        0 <= part < depth,
    ensures
        source_index(width, x0, y0, cw, depth, (row * cw + col) * depth + part) == ((y0 + row)
            * width + x0 + col) * 4 + part,
{
    let pixel = row * cw + col;
    lemma_fundamental_div_mod_converse(pixel * depth + part, depth, pixel, part);
    lemma_fundamental_div_mod_converse(pixel, cw, row, col);
}

proof fn lemma_source_in_frame(
    width: int,
    height: int,
    x: int,
    y: int,
    part: int,
)
    requires
        0 <= x < width,
        0 <= y < height,
        0 <= part < 4,
    ensures
        0 <= (y * width + x) * 4 + part < width * height * 4,
        0 <= y * width + x < width * height,
        0 <= y * width,
{
    assert(y * width + x < width * height) by (nonlinear_arith)
        requires
            0 <= x < width,
            0 <= y < height,
    ;
    assert(0 <= y * width) by (nonlinear_arith)
        requires
            0 <= width,
            0 <= y,
    ;
}

/// Copy a crop out of a frame, `depth` bytes of each pixel.
fn copy_crop(rgba: &[u8], width: u32, height: u32, bounds: PixelBounds, depth: usize) -> (out: Vec<
    u8,
>)
    requires
        bounds.within(width, height),
        1 <= depth <= 4,
        rgba@.len() >= rgba_len(width, height),
    ensures
        out@ == cropped(rgba@, width, bounds, depth as int),
{
    let cw: u32 = bounds.x1 - bounds.x0;
    let ch: u32 = bounds.y1 - bounds.y0;
    let ghost want = cropped(rgba@, width, bounds, depth as int);
    let total: usize = rgba.len();
    let mut out: Vec<u8> = Vec::new();
    let mut row: u32 = 0;
    assert(0 * cw == 0);
    while row < ch
        invariant
            row <= ch,
            cw == bounds.x1 - bounds.x0,
            ch == bounds.y1 - bounds.y0,
            bounds.within(width, height),
            1 <= depth <= 4,
            total == rgba@.len(),
            rgba@.len() >= rgba_len(width, height),
            want == cropped(rgba@, width, bounds, depth as int),
            out@.len() == row * cw * depth,
            out@.len() <= want.len(),
            forall|k: int| 0 <= k < out@.len() ==> #[trigger] out@[k] == want[k],
        decreases ch - row,
    {
        let mut col: u32 = 0;
        assert((row * cw + 0) * depth == row * cw * depth);
        while col < cw
            invariant
                col <= cw,
                row < ch,
                cw == bounds.x1 - bounds.x0,
                ch == bounds.y1 - bounds.y0,
                bounds.within(width, height),
                1 <= depth <= 4,
                total == rgba@.len(),
                rgba@.len() >= rgba_len(width, height),
                want == cropped(rgba@, width, bounds, depth as int),
                out@.len() == (row * cw + col) * depth,
                forall|k: int| 0 <= k < out@.len() ==> #[trigger] out@[k] == want[k],
                out@.len() <= want.len(),
            decreases cw - col,
        {
            proof {
                lemma_source_in_frame(
                    width as int,
                    height as int,
                    bounds.x0 + col,
                    bounds.y0 + row,
                    3,
                );
                lemma_source_in_frame(cw as int, ch as int, col as int, row as int, 0);
                assert((row * cw + col) * depth + depth <= cw * ch * depth) by (nonlinear_arith)
                    requires
                        row * cw + col < cw * ch,
                        depth >= 1,
                ;
                assert(((row * cw + col) + 1) * depth == (row * cw + col) * depth + depth)
                    by (nonlinear_arith);
            }
            let at: usize = ((bounds.y0 + row) as usize * width as usize + (bounds.x0 + col) as usize)
                * 4;
            let mut part: usize = 0;
            while part < depth
                invariant
                    part <= depth,
                    col < cw,
                    row < ch,
                    cw == bounds.x1 - bounds.x0,
                    ch == bounds.y1 - bounds.y0,
                    1 <= depth <= 4,
                    at == ((bounds.y0 + row) * width + bounds.x0 + col) * 4,
                    at + 4 <= rgba@.len(),
                    want == cropped(rgba@, width, bounds, depth as int),
                    (row * cw + col) * depth + depth <= want.len(),
                    out@.len() == (row * cw + col) * depth + part,
                    forall|k: int| 0 <= k < out@.len() ==> #[trigger] out@[k] == want[k],
                decreases depth - part,
            {
                proof {
                    lemma_source_index(
                        width as int,
                        bounds.x0 as int,
                        bounds.y0 as int,
                        cw as int,
                        depth as int,
                        row as int,
                        col as int,
                        part as int,
                    );
                }
                let byte: u8 = rgba[at + part];
                out.push(byte);
                part = part + 1;
            }
            col = col + 1;
        }
        assert((row * cw + cw) * depth == (row + 1) * cw * depth) by (nonlinear_arith);
        row = row + 1;
    }
    assert(ch * cw * depth == cw * ch * depth) by (nonlinear_arith);
    assert(out@ =~= want);
    out
}

/// What cropping a frame to RGB8 gives.
pub open spec fn rgb8_crop(width: u32, height: u32, rgba: Seq<u8>, bounds: PixelBounds) -> bool {
    &&& width > 0
    &&& height > 0
    &&& rgba_len(width, height) <= usize::MAX
    &&& rgba.len() >= rgba_len(width, height)
    &&& bounds.x1 - bounds.x0 >= MIN_CROP_PX
    &&& bounds.y1 - bounds.y0 >= MIN_CROP_PX
}

/// Crop `rgba` to `bounds` and drop alpha in one pass.
///
/// `None` for an empty frame, a buffer that is too short, or a crop below [`MIN_CROP_PX`].
pub fn crop_to_rgb8(width: u32, height: u32, rgba: &[u8], bounds: PixelBounds) -> (r: Option<
    Rgb8Crop,
>)
    requires
        bounds.within(width, height),
    ensures
        r is Some == rgb8_crop(width, height, rgba@, bounds),
        r matches Some(c) ==> {
            &&& c.x == bounds.x0
            &&& c.y == bounds.y0
            &&& c.width == bounds.x1 - bounds.x0
            &&& c.height == bounds.y1 - bounds.y0
            &&& c.rgb@ == cropped(rgba@, width, bounds, 3)
        },
{
    if width == 0 || height == 0 {
        return None;
    }
    let expected: u128 = frame_bytes(width, height);
    if (rgba.len() as u128) < expected {
        return None;
    }
    if bounds.x1 - bounds.x0 < MIN_CROP_PX || bounds.y1 - bounds.y0 < MIN_CROP_PX {
        return None;
    }
    Some(
        Rgb8Crop {
            x: bounds.x0,
            y: bounds.y0,
            width: bounds.x1 - bounds.x0,
            height: bounds.y1 - bounds.y0,
            rgb: copy_crop(rgba, width, height, bounds, 3),
        },
    )
}

/// The pixels of a frame without alpha.
pub fn rgb_of(width: u32, height: u32, rgba: &[u8]) -> (r: Vec<u8>)
    requires
        rgba@.len() >= rgba_len(width, height),
    ensures
        r@ == cropped(
            rgba@,
            width,
            PixelBounds { x0: 0, y0: 0, x1: width, y1: height },
            3,
        ),
        r@.len() == width * height * 3,
{
    proof {
        assert(0 <= width * height) by (nonlinear_arith)
            requires
                0 <= width,
                0 <= height,
        ;
    }
    copy_crop(rgba, width, height, PixelBounds { x0: 0, y0: 0, x1: width, y1: height }, 3)
}

/// Number of bytes of a `width × height` RGBA8 frame.
pub fn frame_bytes(width: u32, height: u32) -> (r: u128)
    ensures
        r == rgba_len(width, height),
{
    proof {
        assert(0 <= width * height <= 0xFFFF_FFFF * 0xFFFF_FFFF) by (nonlinear_arith)
            requires
                0 <= width <= 0xFFFF_FFFF,
                0 <= height <= 0xFFFF_FFFF,
        ;
    }
    (width as u128) * (height as u128) * 4
}

/// Raw OCR of one capture frame, keyed by frame identity.
///
/// Static windows stop producing frames; running inference again on the same frame would give
/// the same blocks. Only the inference is skipped: persistence, gate and remap still consume the
/// cached blocks on every tick.
#[derive(Debug)]
pub struct LastRawOcr {
    pub sequence: u64,
    pub width: u32,
    pub height: u32,
    /// Pixels the OCR result depends on: one packed RGBA crop per OCR rect (whole frame when no
    /// regions are configured).
    pub scope: Vec<Bytes>,
    pub blocks: Vec<OcrBlock>,
}

/// Every rect lies in the frame.
pub open spec fn all_within(rects: Seq<PixelBounds>, width: u32, height: u32) -> bool {
    forall|i: int| 0 <= i < rects.len() ==> #[trigger] rects[i].within(width, height)
}

/// The pixels that an OCR pass over `rects` of `frame` reads.
pub open spec fn scope_of(frame: CapturedFrame, rects: Seq<PixelBounds>) -> Seq<Seq<u8>> {
    if rects.len() == 0 {
        seq![bytes_of(frame.rgba)]
    } else {
        rects.map_values(|r: PixelBounds| cropped(bytes_of(frame.rgba), frame.width, r, 4))
    }
}

/// Contents of a list of buffers.
pub open spec fn contents(buffers: Seq<Bytes>) -> Seq<Seq<u8>> {
    buffers.map_values(|b: Bytes| bytes_of(b))
}

/// The OCR of one frame as plain values.
pub struct RawOcr {
    pub sequence: u64,
    pub width: u32,
    pub height: u32,
    pub scope: Seq<Seq<u8>>,
    pub blocks: Seq<OcrBlock>,
}

impl View for LastRawOcr {
    type V = RawOcr;

    open spec fn view(&self) -> RawOcr {
        RawOcr {
            sequence: self.sequence,
            width: self.width,
            height: self.height,
            scope: contents(self.scope@),
            blocks: self.blocks@,
        }
    }
}

impl RawOcr {
    /// The stored scope is what an OCR pass over `rects` of `frame` would read.
    pub open spec fn covers(self, frame: CapturedFrame, rects: Seq<PixelBounds>) -> bool {
        &&& self.width == frame.width
        &&& self.height == frame.height
        &&& bytes_of(frame.rgba).len() == rgba_len(frame.width, frame.height)
        &&& self.scope == scope_of(frame, rects)
    }

    /// The very same frame, by number and size.
    pub open spec fn is_of(self, frame: CapturedFrame) -> bool {
        &&& self.sequence == frame.sequence
        &&& self.width == frame.width
        &&& self.height == frame.height
    }
}

impl LastRawOcr {
    /// The same frame, or one whose OCR scope holds the same pixels.
    pub fn matches_frame(&self, frame: &CapturedFrame, rects: &Vec<PixelBounds>) -> (r: bool)
        requires
            all_within(rects@, frame.width, frame.height),
        ensures
            r == (self@.is_of(*frame) || self@.covers(*frame, rects@)),
    {
        (self.sequence == frame.sequence && self.width == frame.width && self.height
            == frame.height) || self.same_content(frame, rects)
    }

    /// Pack the OCR scope of `frame`: each rect's rows, or the whole frame when no regions are
    /// configured.
    pub fn pack_scope(frame: &CapturedFrame, rects: &Vec<PixelBounds>) -> (r: Vec<Bytes>)
        requires
            all_within(rects@, frame.width, frame.height),
            bytes_of(frame.rgba).len() >= rgba_len(frame.width, frame.height),
        ensures
            contents(r@) == scope_of(*frame, rects@),
    {
        let mut out: Vec<Bytes> = Vec::new();
        if rects.len() == 0 {
            out.push(bytes_clone(&frame.rgba));
            assert(contents(out@) =~= scope_of(*frame, rects@));
            return out;
        }
        let ghost want = scope_of(*frame, rects@);
        let mut i: usize = 0;
        while i < rects.len()
            invariant
                i <= rects@.len(),
                rects@.len() > 0,
                want == scope_of(*frame, rects@),
                all_within(rects@, frame.width, frame.height),
                bytes_of(frame.rgba).len() >= rgba_len(frame.width, frame.height),
                out@.len() == i,
                forall|k: int| 0 <= k < i ==> bytes_of(#[trigger] out@[k]) == want[k],
            decreases rects@.len() - i,
        {
            assert(rects@[i as int].within(frame.width, frame.height));
            out.push(pack_rect(frame, rects[i]));
            i = i + 1;
        }
        assert(contents(out@) =~= want);
        out
    }

    /// Same scope pixels: an OCR pass would return the same blocks.
    ///
    /// Compares RGBA, a superset of what OCR reads. A buffer of the wrong length is a miss.
    pub fn same_content(&self, frame: &CapturedFrame, rects: &Vec<PixelBounds>) -> (r: bool)
        requires
            all_within(rects@, frame.width, frame.height),
        ensures
            r == self@.covers(*frame, rects@),
    {
        if self.width != frame.width || self.height != frame.height {
            return false;
        }
        if bytes_slice(&frame.rgba).len() as u128 != frame_bytes(frame.width, frame.height) {
            return false;
        }
        let ghost want = scope_of(*frame, rects@);
        let ghost have = contents(self.scope@);
        if rects.len() == 0 {
            if self.scope.len() != 1 {
                assert(have.len() != want.len());
                return false;
            }
            let same: bool = bytes_equal(&self.scope[0], &frame.rgba);
            proof {
                if same {
                    assert(have =~= want);
                } else {
                    assert(have[0] != want[0]);
                }
            }
            return same;
        }
        if self.scope.len() != rects.len() {
            assert(have.len() != want.len());
            return false;
        }
        let mut i: usize = 0;
        while i < rects.len()
            invariant
                i <= rects@.len(),
                rects@.len() > 0,
                self.scope@.len() == rects@.len(),
                want == scope_of(*frame, rects@),
                have == contents(self.scope@),
                all_within(rects@, frame.width, frame.height),
                bytes_of(frame.rgba).len() == rgba_len(frame.width, frame.height),
                forall|k: int| 0 <= k < i ==> #[trigger] have[k] == want[k],
            decreases rects@.len() - i,
        {
            assert(rects@[i as int].within(frame.width, frame.height));
            if !rect_unchanged(frame, rects[i], &self.scope[i]) {
                assert(have[i as int] != want[i as int]);
                return false;
            }
            assert(have[i as int] == want[i as int]);
            i = i + 1;
        }
        assert(have =~= want);
        true
    }
}

/// Pack one rect's rows out of a tightly packed RGBA frame.
fn pack_rect(frame: &CapturedFrame, rect: PixelBounds) -> (r: Bytes)
    requires
        rect.within(frame.width, frame.height),
        bytes_of(frame.rgba).len() >= rgba_len(frame.width, frame.height),
    ensures
        bytes_of(r) == cropped(bytes_of(frame.rgba), frame.width, rect, 4),
{
    bytes_from(copy_crop(bytes_slice(&frame.rgba), frame.width, frame.height, rect, 4))
}

/// Compare one rect against its packed copy.
fn rect_unchanged(frame: &CapturedFrame, rect: PixelBounds, stored: &Bytes) -> (r: bool)
    requires
        rect.within(frame.width, frame.height),
        bytes_of(frame.rgba).len() >= rgba_len(frame.width, frame.height),
    ensures
        r == (bytes_of(*stored) == cropped(bytes_of(frame.rgba), frame.width, rect, 4)),
{
    let now: Vec<u8> = copy_crop(
        bytes_slice(&frame.rgba),
        frame.width,
        frame.height,
        rect,
        4,
    );
    same_bytes(bytes_slice(stored), now.as_slice())
}

fn same_bytes(a: &[u8], b: &[u8]) -> (r: bool)
    ensures
        r == (a@ == b@),
{
    if a.len() != b.len() {
        return false;
    }
    let mut i: usize = 0;
    while i < a.len()
        invariant
            i <= a@.len(),
            a@.len() == b@.len(),
            forall|k: int| 0 <= k < i ==> #[trigger] a@[k] == b@[k],
        decreases a@.len() - i,
    {
        if a[i] != b[i] {
            assert(a@[i as int] != b@[i as int]);
            return false;
        }
        i = i + 1;
    }
    assert(a@ =~= b@);
    true
}

/// A packed scope is found unchanged in the frame that it was packed from.
pub proof fn law_packed_scope_is_unchanged(
    cache: RawOcr,
    frame: CapturedFrame,
    rects: Seq<PixelBounds>,
)
    requires
        bytes_of(frame.rgba).len() == rgba_len(frame.width, frame.height),
        cache.width == frame.width,
        cache.height == frame.height,
        cache.scope == scope_of(frame, rects),
    ensures
        cache.covers(frame, rects),
{
}

/// Pixels outside the OCR rects do not matter: two frames that agree inside every rect are the
/// same content.
pub proof fn law_pixels_outside_regions_are_ignored(
    cache: RawOcr,
    a: CapturedFrame,
    b: CapturedFrame,
    rects: Seq<PixelBounds>,
)
    requires
        rects.len() > 0,
        a.width == b.width,
        a.height == b.height,
        bytes_of(a.rgba).len() == bytes_of(b.rgba).len(),
        forall|i: int|
            0 <= i < rects.len() ==> cropped(bytes_of(a.rgba), a.width, #[trigger] rects[i], 4)
                == cropped(bytes_of(b.rgba), b.width, rects[i], 4),
    ensures
        cache.covers(a, rects) == cache.covers(b, rects),
{
    assert(scope_of(a, rects) =~= scope_of(b, rects));
}

/// A crop holds the pixels of its place: each byte of the pixel at a row and a column is that of
/// the frame's pixel there, moved by the corner of the crop.
pub proof fn law_crop_holds_its_pixels(
    rgba: Seq<u8>,
    width: u32,
    bounds: PixelBounds,
    depth: int,
    row: int,
    col: int,
    part: int,
)
    requires
        bounds.x0 <= bounds.x1,
        bounds.y0 <= bounds.y1,
        0 <= row < bounds.y1 - bounds.y0,
        0 <= col < bounds.x1 - bounds.x0,
        0 <= part < depth,
    ensures
        cropped(rgba, width, bounds, depth).len() == (bounds.x1 - bounds.x0) * (bounds.y1
            - bounds.y0) * depth,
        0 <= (row * (bounds.x1 - bounds.x0) + col) * depth + part < cropped(
            rgba,
            width,
            bounds,
            depth,
        ).len(),
        cropped(rgba, width, bounds, depth)[(row * (bounds.x1 - bounds.x0) + col) * depth + part]
            == rgba[((bounds.y0 + row) * width + bounds.x0 + col) * 4 + part],
{
    let cw = bounds.x1 - bounds.x0;
    let ch = bounds.y1 - bounds.y0;
    lemma_source_index(
        width as int,
        bounds.x0 as int,
        bounds.y0 as int,
        cw,
        depth,
        row,
        col,
        part,
    );
    assert(0 <= row * cw + col < cw * ch) by (nonlinear_arith)
        requires
            0 <= col < cw,
            0 <= row < ch,
    ;
    let pixel = row * cw + col;
    let pixels = cw * ch;
    assert(0 <= pixel * depth + part < pixels * depth) by (nonlinear_arith)
        requires
            0 <= pixel < pixels,
            0 <= part < depth,
    ;
}

/// A crop of a frame is read when both sides have at least eight pixels and the buffer holds the
/// frame.
pub proof fn law_tiny_crops_are_not_read(
    width: u32,
    height: u32,
    rgba: Seq<u8>,
    bounds: PixelBounds,
)
    requires
        rgba.len() <= usize::MAX,
        width > 0,
        height > 0,
    ensures
        rgb8_crop(width, height, rgba, bounds) <==> bounds.x0 + 8 <= bounds.x1 && bounds.y0 + 8
            <= bounds.y1 && rgba.len() >= width * height * 4,
        !rgb8_crop(0, height, rgba, bounds),
        !rgb8_crop(width, 0, rgba, bounds),
{
}

/// A pixel that changed inside a region is noticed, whatever else is the same: what was read of
/// the frame before does not stand for the frame now.
pub proof fn law_changed_pixel_is_noticed(
    cache: RawOcr,
    before: CapturedFrame,
    now: CapturedFrame,
    rects: Seq<PixelBounds>,
    r: int,
    x: int,
    y: int,
    part: int,
)
    requires
        0 <= r < rects.len(),
        rects[r].x0 <= x < rects[r].x1,
        rects[r].y0 <= y < rects[r].y1,
        0 <= part < 4,
        before.width == now.width,
        bytes_of(before.rgba)[(y * now.width + x) * 4 + part] != bytes_of(
            now.rgba,
        )[(y * now.width + x) * 4 + part],
        cache.covers(before, rects),
    ensures
        !cache.covers(now, rects),
{
    let rect = rects[r];
    let row = y - rect.y0;
    let col = x - rect.x0;
    law_crop_holds_its_pixels(bytes_of(before.rgba), now.width, rect, 4, row, col, part);
    law_crop_holds_its_pixels(bytes_of(now.rgba), now.width, rect, 4, row, col, part);
    let k = (row * (rect.x1 - rect.x0) + col) * 4 + part;
    let a = cropped(bytes_of(before.rgba), before.width, rect, 4);
    let b = cropped(bytes_of(now.rgba), now.width, rect, 4);
    assert(a[k] != b[k]);
    assert(scope_of(before, rects)[r] == a);
    assert(scope_of(now, rects)[r] == b);
}

/// Without regions the whole frame counts, byte by byte; a frame of another size is always new,
/// and a frame is known by its number and size.
pub proof fn law_whole_frame_counts_without_regions(cache: RawOcr, frame: CapturedFrame)
    ensures
        cache.covers(frame, Seq::empty()) ==> cache.scope.len() == 1 && cache.scope[0] == bytes_of(
            frame.rgba,
        ),
        cache.scope == seq![bytes_of(frame.rgba)] && cache.width == frame.width && cache.height
            == frame.height && bytes_of(frame.rgba).len() == frame.width * frame.height * 4
            ==> cache.covers(frame, Seq::empty()),
        cache.width != frame.width || cache.height != frame.height ==> !cache.is_of(frame)
            && forall|rects: Seq<PixelBounds>| !(#[trigger] cache.covers(frame, rects)),
        cache.sequence != frame.sequence ==> !cache.is_of(frame),
        cache.sequence == frame.sequence && cache.width == frame.width && cache.height
            == frame.height ==> cache.is_of(frame),
{
}

} // verus!
