//! Shared domain types: boxes, OCR blocks, translated blocks and model tiers.

use crate::scalar::Scalar;
use vstd::prelude::*;

verus! {

/// Axis-aligned bounding box in capture-image pixel coordinates.
#[derive(Clone, Copy, Debug, PartialEq, Eq, Structural)]
pub struct Rect {
    pub x: Scalar,
    pub y: Scalar,
    pub width: Scalar,
    pub height: Scalar,
}

/// Measurements between a box and a candidate for its next position.
#[derive(Clone, Copy, Debug, PartialEq, Eq, Structural)]
pub struct RelayoutMeasure {
    /// Candidate width over previous width, both at least one pixel.
    pub width_ratio: Scalar,
    /// Candidate height over previous height, both at least one pixel.
    pub height_ratio: Scalar,
    /// Intersection over union of the two boxes.
    pub iou: Scalar,
    /// Distance between the centers along each axis, and the tolerance for it.
    pub dx: Scalar,
    pub dy: Scalar,
    pub tol_x: Scalar,
    pub tol_y: Scalar,
}

/// Smallest size ratio that counts as the same size (0.65).
pub const SIZE_RATIO_MIN: u32 = 0x3F26_6666;

/// Largest size ratio that counts as the same size (1.55).
pub const SIZE_RATIO_MAX: u32 = 0x3FC6_6666;

/// Overlap from which a box of similar size is only jitter (0.35).
pub const IOU_JITTER: u32 = 0x3EB3_3333;

/// Overlap from which a box of another size is a relayout in place (0.15).
pub const IOU_RESIZED: u32 = 0x3E19_999A;

impl RelayoutMeasure {
    /// The size left the range that counts as unchanged.
    pub open spec fn size_changed(self) -> bool {
        let lo = (Scalar { bits: SIZE_RATIO_MIN });
        let hi = (Scalar { bits: SIZE_RATIO_MAX });
        !(lo.at_most(self.width_ratio) && self.width_ratio.at_most(hi)) || !(lo.at_most(
            self.height_ratio,
        ) && self.height_ratio.at_most(hi))
    }

    /// A center moved further than its tolerance.
    pub open spec fn center_moved(self) -> bool {
        self.tol_x.less(self.dx) || self.tol_y.less(self.dy)
    }

    /// A real layout change: not a strongly overlapping box of similar size, and either a box of
    /// another size at the same spot or a center that moved.
    pub open spec fn significant(self) -> bool {
        let jitter = (Scalar { bits: IOU_JITTER }).at_most(self.iou) && !self.size_changed();
        let resized = self.size_changed() && (Scalar { bits: IOU_RESIZED }).at_most(self.iou);
        !jitter && (resized || self.center_moved())
    }

    /// True when the candidate is a real layout change, not detector noise.
    pub fn is_significant_relayout(&self) -> (r: bool)
        ensures
            r == self.significant(),
    {
        let lo: Scalar = Scalar { bits: SIZE_RATIO_MIN };
        let hi: Scalar = Scalar { bits: SIZE_RATIO_MAX };
        let size_changed: bool = !(lo.le(self.width_ratio) && self.width_ratio.le(hi)) || !(lo.le(
            self.height_ratio,
        ) && self.height_ratio.le(hi));
        if (Scalar { bits: IOU_JITTER }).le(self.iou) && !size_changed {
            return false;
        }
        if size_changed && (Scalar { bits: IOU_RESIZED }).le(self.iou) {
            return true;
        }
        self.tol_x.lt(self.dx) || self.tol_y.lt(self.dy)
    }
}

impl Rect {
    /// Box from its corner and size.
    pub fn new(x: Scalar, y: Scalar, width: Scalar, height: Scalar) -> (r: Rect)
        ensures
            r == (Rect { x, y, width, height }),
    {
        Rect { x, y, width, height }
    }

    /// Equal as numbers, component by component.
    pub open spec fn same(self, other: Rect) -> bool {
        self.x.same(other.x) && self.y.same(other.y) && self.width.same(other.width)
            && self.height.same(other.height)
    }

    /// Equal as numbers, component by component.
    pub fn same_box(self, other: Rect) -> (r: bool)
        ensures
            r == self.same(other),
    {
        self.x.same_number(other.x) && self.y.same_number(other.y) && self.width.same_number(
            other.width,
        ) && self.height.same_number(other.height)
    }

    /// Keep `self` when `candidate` is only OCR jitter; otherwise take `candidate`.
    pub fn stabilize_against(self, candidate: Rect, measure: &RelayoutMeasure) -> (r: Rect)
        ensures
            r == if measure.significant() {
                candidate
            } else {
                self
            },
    {
        if measure.is_significant_relayout() {
            candidate
        } else {
            self
        }
    }
}

/// Axis-aligned region as fractions of the capture client area (`0..=1`).
///
/// An empty list of regions means the whole window.
#[derive(Clone, Copy, Debug, PartialEq, Eq, Structural)]
pub struct NormRect {
    pub x: Scalar,
    pub y: Scalar,
    pub width: Scalar,
    pub height: Scalar,
}

impl NormRect {
    /// Region from its corner and size.
    pub fn new(x: Scalar, y: Scalar, width: Scalar, height: Scalar) -> (r: NormRect)
        ensures
            r == (NormRect { x, y, width, height }),
    {
        NormRect { x, y, width, height }
    }
}

/// Integer pixel bounds inside a frame; the far edges are exclusive.
#[derive(Clone, Copy, Debug, PartialEq, Eq, Structural)]
pub struct PixelBounds {
    pub x0: u32,
    pub y0: u32,
    pub x1: u32,
    pub y1: u32,
}

impl PixelBounds {
    /// Ordered edges inside a `width × height` frame.
    pub open spec fn within(self, width: u32, height: u32) -> bool {
        self.x0 <= self.x1 <= width && self.y0 <= self.y1 <= height
    }

    /// Bounds with each edge held to the frame and the far edges not before the near ones.
    pub fn clamped_bounds(
        x0: u32,
        y0: u32,
        x1: u32,
        y1: u32,
        width: u32,
        height: u32,
    ) -> (r: PixelBounds)
        ensures
            r.within(width, height),
            r.x0 == if x0 < width { x0 } else { width },
            r.y0 == if y0 < height { y0 } else { height },
            r.x1 as int == vstd::math::max(
                r.x0 as int,
                vstd::math::min(x1 as int, width as int),
            ),
            r.y1 as int == vstd::math::max(
                r.y0 as int,
                vstd::math::min(y1 as int, height as int),
            ),
    {
        let a: u32 = if x0 < width { x0 } else { width };
        let b: u32 = if y0 < height { y0 } else { height };
        let c: u32 = if x1 < width { x1 } else { width };
        let d: u32 = if y1 < height { y1 } else { height };
        PixelBounds { x0: a, y0: b, x1: if c < a { a } else { c }, y1: if d < b { b } else { d } }
    }
}

/// One OCR text region.
#[derive(Debug, PartialEq)]
pub struct OcrBlock {
    pub id: u32,
    pub text: String,
    pub confidence: Scalar,
    pub bbox: Rect,
    /// Detector lines merged into this block (`1` = single line).
    pub source_lines: u32,
}

impl Clone for OcrBlock {
    fn clone(&self) -> (r: Self)
        ensures
            r == *self,
    {
        OcrBlock {
            id: self.id,
            text: self.text.clone(),
            confidence: self.confidence,
            bbox: self.bbox,
            source_lines: self.source_lines,
        }
    }
}

/// OCR block after translation.
#[derive(Debug, PartialEq)]
pub struct TranslatedBlock {
    pub id: u32,
    pub source: String,
    pub translation: String,
    pub confidence: Scalar,
    pub bbox: Rect,
    /// Detector lines in the source (`1` = single line; overlay may widen/shrink).
    pub source_lines: u32,
}

impl Clone for TranslatedBlock {
    fn clone(&self) -> (r: Self)
        ensures
            r == *self,
    {
        TranslatedBlock {
            id: self.id,
            source: self.source.clone(),
            translation: self.translation.clone(),
            confidence: self.confidence,
            bbox: self.bbox,
            source_lines: self.source_lines,
        }
    }
}

/// Copy of a list of OCR blocks.
pub fn copy_blocks(blocks: &Vec<OcrBlock>) -> (r: Vec<OcrBlock>)
    ensures
        r@ == blocks@,
{
    let r: Vec<OcrBlock> = blocks.clone();
    assert(r@ =~= blocks@);
    r
}

/// Copy of a list of translated blocks.
pub fn copy_translated(blocks: &Vec<TranslatedBlock>) -> (r: Vec<TranslatedBlock>)
    ensures
        r@ == blocks@,
{
    let r: Vec<TranslatedBlock> = blocks.clone();
    assert(r@ =~= blocks@);
    r
}

/// Copy of a list of regions.
pub fn copy_regions(regions: &Vec<NormRect>) -> (r: Vec<NormRect>)
    ensures
        r@ == regions@,
{
    let r: Vec<NormRect> = regions.clone();
    assert(r@ =~= regions@);
    r
}

/// The blocks with their ids replaced by their positions.
pub open spec fn numbered(blocks: Seq<OcrBlock>) -> Seq<OcrBlock> {
    Seq::new(blocks.len(), |i: int| OcrBlock { id: i as u32, ..blocks[i] })
}

/// Number the blocks in order, starting at zero.
pub fn reindex(blocks: Vec<OcrBlock>) -> (r: Vec<OcrBlock>)
    ensures
        r@ == numbered(blocks@),
{
    let mut blocks = blocks;
    let ghost before = blocks@;
    let n: usize = blocks.len();
    let mut i: usize = 0;
    while i < n
        invariant
            n == blocks@.len(),
            blocks@.len() == before.len(),
            i <= n,
            forall|j: int| 0 <= j < i ==> blocks@[j] == (OcrBlock { id: j as u32, ..before[j] }),
            forall|j: int| i <= j < n ==> blocks@[j] == before[j],
        decreases n - i,
    {
        let id: u32 = i as u32;
        let mut b: OcrBlock = blocks[i].clone();
        b.id = id;
        blocks.set(i, b);
        i = i + 1;
    }
    assert(blocks@ =~= numbered(before));
    blocks
}

/// PP-OCRv6 model size tier.
#[derive(Clone, Copy, Debug, PartialEq, Eq, Hash, Structural)]
pub enum ModelTier {
    Tiny,
    Small,
    Medium,
}

impl Default for ModelTier {
    fn default() -> (r: Self)
        ensures
            r == ModelTier::Small,
    {
        ModelTier::Small
    }
}

/// A box of the same size that overlaps its place well stays where it is, however far its center
/// seems to move; a box of another size over the same place is taken at once; elsewhere a center
/// beyond its tolerance on either axis decides.
pub proof fn law_jitter_keeps_the_box(m: RelayoutMeasure)
    requires
        !m.width_ratio.nan(),
        !m.height_ratio.nan(),
        !m.iou.nan(),
        !m.dx.nan(),
        !m.dy.nan(),
        !m.tol_x.nan(),
        !m.tol_y.nan(),
    ensures
        ({
            let same_size = scalar_of(0x3F26_6666).rank() <= m.width_ratio.rank()
                && m.width_ratio.rank() <= scalar_of(0x3FC6_6666).rank() && scalar_of(
                0x3F26_6666,
            ).rank() <= m.height_ratio.rank() && m.height_ratio.rank() <= scalar_of(
                0x3FC6_6666,
            ).rank();
            let overlaps_well = scalar_of(0x3EB3_3333).rank() <= m.iou.rank();
            let overlaps = scalar_of(0x3E19_999A).rank() <= m.iou.rank();
            let moved = m.tol_x.rank() < m.dx.rank() || m.tol_y.rank() < m.dy.rank();
            &&& same_size && overlaps_well ==> !m.significant()
            &&& !same_size && overlaps ==> m.significant()
            &&& same_size && !overlaps_well ==> m.significant() == moved
            &&& !same_size && !overlaps ==> m.significant() == moved
        }),
{
}

/// The number with the given bits.
pub open spec fn scalar_of(bits: u32) -> Scalar {
    Scalar { bits }
}

/// Numbering changes the ids only: they become the positions.
pub proof fn law_numbering_changes_ids_only(blocks: Seq<OcrBlock>)
    ensures
        numbered(blocks).len() == blocks.len(),
        forall|i: int|
            #![trigger numbered(blocks)[i]]
            0 <= i < blocks.len() ==> {
                &&& numbered(blocks)[i].id == i as u32
                &&& numbered(blocks)[i].text == blocks[i].text
                &&& numbered(blocks)[i].bbox == blocks[i].bbox
                &&& numbered(blocks)[i].confidence == blocks[i].confidence
                &&& numbered(blocks)[i].source_lines == blocks[i].source_lines
            },
{
}

} // verus!
