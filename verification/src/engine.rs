//! From detector regions to OCR blocks.

use crate::config::{LineMergeConfig, OcrConfig};
use crate::download::OcrError;
use crate::filter::{
    filter_single_char_blocks, is_single_latin_or_digit, is_single_token,
    law_only_single_characters_are_dropped, lemma_one_character, one_character,
    without_single_tokens,
};
use crate::frame::{
    crop_to_rgb8, cropped, frame_bytes, law_crop_holds_its_pixels, rgb8_crop, rgb_of, rgba_len,
};
use crate::merge::{MergeLimits, Neighbor, PairMeasure};
use crate::paragraphs::{
    measures_lines, merge_line_blocks_with, merge_outcome, total_lines, GroupBox,
    OrderMeasure,
};
use crate::scalar::Scalar;
use crate::text::{decimal, owned, push_decimal, trim, trimmed};
use crate::types::{numbered, reindex, OcrBlock, PixelBounds, Rect};
use vstd::prelude::*;

verus! {

/// One region as the recognizer reports it.
#[derive(Debug)]
pub struct TextRegion {
    /// Text and confidence, where any text was read.
    pub reading: Option<(String, Scalar)>,
    pub bbox: Rect,
}

/// Thresholds of the recognizer that change without reloading its models.
#[derive(Clone, Copy, Debug, PartialEq, Eq, Structural)]
pub struct RecognizerSettings {
    pub confidence_threshold: Scalar,
    pub filter_single_char: bool,
}

impl RecognizerSettings {
    /// The region is kept: its text is sure enough, not blank and, where single characters are
    /// filtered, more than one letter or digit.
    pub open spec fn keeps(self, region: TextRegion) -> bool {
        region.reading matches Some(r) && !r.1.less(self.confidence_threshold) && trim(r.0@).len()
            > 0 && !(self.filter_single_char && is_single_token(trim(r.0@)))
    }

    /// `block` is the block of a region that was kept as number `id`.
    pub open spec fn is_block(self, block: OcrBlock, region: TextRegion, id: int) -> bool {
        &&& block.id == id as u32
        &&& block.text@ == trim((region.reading->0).0@)
        &&& block.confidence == (region.reading->0).1
        &&& block.bbox == region.bbox
        &&& block.source_lines == 1
    }

    /// Positions of the kept regions among the first `n`.
    pub open spec fn kept(self, regions: Seq<TextRegion>, n: int) -> Seq<int>
        decreases n,
    {
        if n <= 0 {
            Seq::empty()
        } else if self.keeps(regions[n - 1]) {
            self.kept(regions, n - 1).push(n - 1)
        } else {
            self.kept(regions, n - 1)
        }
    }

    /// `blocks` are the blocks of the regions that are kept, in order.
    pub open spec fn selects(self, regions: Seq<TextRegion>, blocks: Seq<OcrBlock>) -> bool {
        let kept = self.kept(regions, regions.len() as int);
        &&& blocks.len() == kept.len()
        &&& forall|k: int|
            0 <= k < blocks.len() ==> self.is_block(
                #[trigger] blocks[k],
                regions[kept[k]],
                kept[k],
            )
    }

    /// Blocks of the regions that are kept, each with the position of its region as id.
    pub fn select_regions(&self, regions: &Vec<TextRegion>) -> (r: Vec<OcrBlock>)
        ensures
            self.selects(regions@, r@),
    {
        let mut out: Vec<OcrBlock> = Vec::new();
        let mut i: usize = 0;
        while i < regions.len()
            invariant
                i <= regions@.len(),
                out@.len() == self.kept(regions@, i as int).len(),
                forall|k: int|
                    0 <= k < out@.len() ==> {
                        let at = self.kept(regions@, i as int)[k];
                        self.is_block(#[trigger] out@[k], regions@[at], at)
                    },
            decreases regions@.len() - i,
        {
            match &regions[i].reading {
                Some((text, confidence)) => {
                    if !confidence.lt(self.confidence_threshold) {
                        let text: String = trimmed(text.as_str());
                        if !text.as_str().is_empty() && !(self.filter_single_char
                            && is_single_latin_or_digit(text.as_str())) {
                            out.push(
                                OcrBlock {
                                    id: i as u32,
                                    text,
                                    confidence: *confidence,
                                    bbox: regions[i].bbox,
                                    source_lines: 1,
                                },
                            );
                        }
                    }
                },
                None => {},
            }
            i = i + 1;
        }
        out
    }

    /// Last step after merging: single characters are filtered once more, and the blocks are
    /// numbered.
    pub fn finish_blocks(&self, blocks: Vec<OcrBlock>) -> (r: Vec<OcrBlock>)
        ensures
            r@ == self.finished(blocks@),
    {
        if self.filter_single_char {
            filter_single_char_blocks(blocks)
        } else {
            reindex(blocks)
        }
    }

    /// The merged blocks without single characters, where these are filtered, and numbered.
    pub open spec fn finished(self, blocks: Seq<OcrBlock>) -> Seq<OcrBlock> {
        if self.filter_single_char {
            numbered(without_single_tokens(blocks))
        } else {
            numbered(blocks)
        }
    }

    /// `out` is what one image makes of its regions: kept ones, merged, finished.
    pub open spec fn page<
        P: Fn(&Vec<OcrBlock>, Neighbor, u32, u32) -> (Vec<Vec<PairMeasure>>, MergeLimits),
        B: Fn(&Vec<OcrBlock>, &Vec<usize>) -> GroupBox,
        O: Fn(&Vec<OcrBlock>, u32, u32) -> OrderMeasure,
    >(
        self,
        regions: Seq<TextRegion>,
        cfg: LineMergeConfig,
        frame_w: u32,
        frame_h: u32,
        merge_all: bool,
        pairs: P,
        boxes: B,
        order: O,
        out: Seq<OcrBlock>,
    ) -> bool {
        exists|selected: &Vec<OcrBlock>, merged: Seq<OcrBlock>|
            #![trigger merge_outcome(selected, cfg, frame_w, frame_h, merge_all, pairs, boxes, order, merged)]
            {
                &&& self.selects(regions, selected@)
                &&& merge_outcome(
                    selected,
                    cfg,
                    frame_w,
                    frame_h,
                    merge_all,
                    pairs,
                    boxes,
                    order,
                    merged,
                )
                &&& out == self.finished(merged)
            }
    }

    /// From the regions of one image to its blocks: keep what is sure enough, merge lines, filter
    /// single characters once more.
    ///
    /// `frame_w` / `frame_h` are the full capture size (merge thresholds). `merge_all` is true
    /// only for a user-drawn region with whole-region merge on.
    pub fn read_page<
        P: Fn(&Vec<OcrBlock>, Neighbor, u32, u32) -> (Vec<Vec<PairMeasure>>, MergeLimits),
        B: Fn(&Vec<OcrBlock>, &Vec<usize>) -> GroupBox,
        O: Fn(&Vec<OcrBlock>, u32, u32) -> OrderMeasure,
    >(
        &self,
        regions: &Vec<TextRegion>,
        cfg: &LineMergeConfig,
        frame_w: u32,
        frame_h: u32,
        merge_all: bool,
        pairs: &P,
        boxes: &B,
        order: &O,
    ) -> (r: Vec<OcrBlock>)
        requires
            regions@.len() <= u32::MAX,
            measures_lines(*pairs, *boxes, *order),
        ensures
            self.page(
                regions@,
                *cfg,
                frame_w,
                frame_h,
                merge_all,
                *pairs,
                *boxes,
                *order,
                r@,
            ),
    {
        let selected: Vec<OcrBlock> = self.select_regions(regions);
        proof {
            lemma_kept_len(*self, regions@, regions@.len() as int);
            lemma_single_lines(selected@);
        }
        let ghost first = selected;
        let merged: Vec<OcrBlock> = merge_line_blocks_with(
            selected,
            cfg,
            frame_w,
            frame_h,
            merge_all,
            pairs,
            boxes,
            order,
        );
        assert(self.selects(regions@, first@) && merge_outcome(
            &first,
            *cfg,
            frame_w,
            frame_h,
            merge_all,
            *pairs,
            *boxes,
            *order,
            merged@,
        ));
        self.finish_blocks(merged)
    }
}

proof fn lemma_kept_len(settings: RecognizerSettings, regions: Seq<TextRegion>, n: int)
    requires
        0 <= n,
    ensures
        settings.kept(regions, n).len() <= n,
    decreases n,
{
    if n > 0 {
        lemma_kept_len(settings, regions, n - 1);
    }
}

proof fn lemma_single_lines(blocks: Seq<OcrBlock>)
    requires
        forall|i: int| 0 <= i < blocks.len() ==> (#[trigger] blocks[i]).source_lines == 1,
    ensures
        total_lines(blocks) == blocks.len(),
    decreases blocks.len(),
{
    if blocks.len() > 0 {
        lemma_single_lines(blocks.drop_last());
    }
}

/// Loaded OCR models: `oar_ocr::oarocr::OAROCR`, opaque here.
#[verifier::external_type_specification]
#[verifier::external_body]
pub struct ExOarOcr(oar_ocr::oarocr::OAROCR);

/// Axis-aligned corners of a detected region.
#[derive(Clone, Copy, Debug, PartialEq, Eq, Structural)]
pub struct Corners {
    pub x_min: Scalar,
    pub y_min: Scalar,
    pub x_max: Scalar,
    pub y_max: Scalar,
}

/// One region as the models report it, numbers by their bits.
#[derive(Debug)]
pub struct RawRegion {
    /// Text and confidence, where any text was read.
    pub reading: Option<(String, u32)>,
    /// Least x and y, greatest x and y.
    pub corners: [u32; 4],
}

impl RawRegion {
    /// Text and confidence, where any text was read.
    pub open spec fn read(self) -> Option<(String, Scalar)> {
        match self.reading {
            Some((text, bits)) => Some((text, Scalar { bits })),
            None => None,
        }
    }

    /// The corners as numbers.
    pub open spec fn spanned(self) -> Corners {
        Corners {
            x_min: Scalar { bits: self.corners@[0] },
            y_min: Scalar { bits: self.corners@[1] },
            x_max: Scalar { bits: self.corners@[2] },
            y_max: Scalar { bits: self.corners@[3] },
        }
    }
}

/// `answer` is one that the models can give to one RGB8 image: the regions of every page, or the
/// text of an error. The device that the models run on decides among several.
pub uninterp spec fn may_answer(
    models: oar_ocr::oarocr::OAROCR,
    width: u32,
    height: u32,
    rgb: Seq<u8>,
    answer: Result<Vec<Vec<RawRegion>>, String>,
) -> bool;

/// Calls `oar_ocr::oarocr::OAROCR::predict` on one `image::RgbImage` made of `rgb`, and hands out
/// the regions of every page it reports: `text_with_confidence` and the `aabb` of the box, or the
/// text of the error. An image without pixels is read as a blank one of the least size.
/// The result is an answer to this image; what is recognized depends on the loaded models and on
/// the device they run on, so nothing more is said of it.
#[verifier::external_body]
fn predict(models: &oar_ocr::oarocr::OAROCR, width: u32, height: u32, rgb: Vec<u8>) -> (r: Result<
    Vec<Vec<RawRegion>>,
    String,
>)
    requires
        rgb@.len() == width * height * 3,
    ensures
        may_answer(*models, width, height, rgb@, r),
{
    let image = image::RgbImage::from_raw(width, height, rgb).ok_or("no image".to_string())?;
    let pages = models.predict(vec![image]).map_err(|e| e.to_string())?;
    let regions = |page: &oar_ocr::oarocr::OAROCRResult| {
        page.text_regions.iter().map(|r| {
            let (x_min, y_min, x_max, y_max) = r.bounding_box.aabb();
            RawRegion {
                reading: r.text_with_confidence().map(|(t, c)| (t.to_string(), c.to_bits())),
                corners: [x_min, y_min, x_max, y_max].map(|v| v.to_bits()),
            }
        }).collect()
    };
    Ok(pages.iter().map(regions).collect())
}

/// `regions` are `raw` with a box for each pair of corners.
pub open spec fn boxed<R: Fn(Corners) -> Rect>(
    raw: Seq<RawRegion>,
    rect: R,
    regions: Seq<TextRegion>,
) -> bool {
    &&& regions.len() == raw.len()
    &&& forall|i: int|
        0 <= i < raw.len() ==> (#[trigger] regions[i]).reading == raw[i].read() && call_ensures(
            rect,
            (raw[i].spanned(),),
            regions[i].bbox,
        )
}

/// Give each region the box that `rect` makes of its corners.
pub fn box_regions<R: Fn(Corners) -> Rect>(raw: &Vec<RawRegion>, rect: &R) -> (r: Vec<TextRegion>)
    requires
        forall|c: Corners| call_requires(*rect, (c,)),
    ensures
        boxed(raw@, *rect, r@),
{
    let mut out: Vec<TextRegion> = Vec::new();
    let mut i: usize = 0;
    while i < raw.len()
        invariant
            i <= raw@.len(),
            forall|c: Corners| call_requires(*rect, (c,)),
            boxed(raw@.take(i as int), *rect, out@),
        decreases raw@.len() - i,
    {
        let reading: Option<(String, Scalar)> = match &raw[i].reading {
            Some((text, bits)) => Some((text.clone(), Scalar { bits: *bits })),
            None => None,
        };
        let corners: [u32; 4] = raw[i].corners;
        let bbox: Rect = rect(
            Corners {
                x_min: Scalar { bits: corners[0] },
                y_min: Scalar { bits: corners[1] },
                x_max: Scalar { bits: corners[2] },
                y_max: Scalar { bits: corners[3] },
            },
        );
        let ghost before = out@;
        out.push(TextRegion { reading, bbox });
        proof {
            let t = raw@.take(i + 1);
            assert forall|k: int| 0 <= k < t.len() implies (#[trigger] out@[k]).reading
                == t[k].read() && call_ensures(*rect, (t[k].spanned(),), out@[k].bbox) by {
                if k < i {
                    assert(out@[k] == before[k]);
                    assert(raw@.take(i as int)[k] == t[k]);
                }
            }
        }
        i = i + 1;
    }
    assert(raw@.take(i as int) =~= raw@);
    out
}

/// `after` are `before` with every box moved by the origin of a crop.
pub open spec fn shifted<S: Fn(Rect, u32, u32) -> Rect>(
    before: Seq<OcrBlock>,
    x: u32,
    y: u32,
    shift: S,
    after: Seq<OcrBlock>,
) -> bool {
    &&& after.len() == before.len()
    &&& forall|i: int|
        0 <= i < before.len() ==> (#[trigger] after[i]) == (OcrBlock {
            bbox: after[i].bbox,
            ..before[i]
        }) && call_ensures(shift, (before[i].bbox, x, y), after[i].bbox)
}

/// Move every box by the origin of a crop.
pub fn shift_blocks<S: Fn(Rect, u32, u32) -> Rect>(
    blocks: &Vec<OcrBlock>,
    x: u32,
    y: u32,
    shift: &S,
) -> (r: Vec<OcrBlock>)
    requires
        forall|b: Rect, x: u32, y: u32| call_requires(*shift, (b, x, y)),
    ensures
        shifted(blocks@, x, y, *shift, r@),
{
    let mut out: Vec<OcrBlock> = Vec::new();
    let mut i: usize = 0;
    while i < blocks.len()
        invariant
            i <= blocks@.len(),
            forall|b: Rect, x: u32, y: u32| call_requires(*shift, (b, x, y)),
            shifted(blocks@.take(i as int), x, y, *shift, out@),
        decreases blocks@.len() - i,
    {
        let mut block: OcrBlock = blocks[i].clone();
        block.bbox = shift(block.bbox, x, y);
        let ghost before = out@;
        out.push(block);
        proof {
            let t = blocks@.take(i + 1);
            assert forall|k: int| 0 <= k < t.len() implies (#[trigger] out@[k]) == (OcrBlock {
                bbox: out@[k].bbox,
                ..t[k]
            }) && call_ensures(*shift, (t[k].bbox, x, y), out@[k].bbox) by {
                if k < i {
                    assert(out@[k] == before[k]);
                    assert(blocks@.take(i as int)[k] == t[k]);
                }
            }
        }
        i = i + 1;
    }
    assert(blocks@.take(i as int) =~= blocks@);
    out
}

/// One image for the models: packed RGB8 pixels.
pub struct Image {
    pub width: u32,
    pub height: u32,
    pub rgb: Seq<u8>,
}

impl Image {
    /// A whole frame, without alpha.
    pub open spec fn of_frame(width: u32, height: u32, rgba: Seq<u8>) -> Image {
        Image {
            width,
            height,
            rgb: cropped(rgba, width, PixelBounds { x0: 0, y0: 0, x1: width, y1: height }, 3),
        }
    }

    /// A crop of a frame, without alpha.
    pub open spec fn of_crop(width: u32, rgba: Seq<u8>, bounds: PixelBounds) -> Image {
        Image {
            width: (bounds.x1 - bounds.x0) as u32,
            height: (bounds.y1 - bounds.y0) as u32,
            rgb: cropped(rgba, width, bounds, 3),
        }
    }

    /// The models can answer so to the image.
    pub open spec fn answered(
        self,
        models: oar_ocr::oarocr::OAROCR,
        answer: Result<Vec<Vec<RawRegion>>, String>,
    ) -> bool {
        may_answer(models, self.width, self.height, self.rgb, answer)
    }
}

/// Loaded PP-OCRv6 engine.
pub struct OcrEngine {
    pub models: oar_ocr::oarocr::OAROCR,
    pub settings: RecognizerSettings,
    pub line_merge: LineMergeConfig,
}

impl RecognizerSettings {
    /// The thresholds of `config`.
    pub open spec fn of_config(config: OcrConfig) -> RecognizerSettings {
        RecognizerSettings {
            confidence_threshold: config.confidence_threshold,
            filter_single_char: config.filter_single_char,
        }
    }
}

impl OcrEngine {
    /// Engine of loaded models, set up for `config`.
    pub fn new(models: oar_ocr::oarocr::OAROCR, config: &OcrConfig) -> (r: OcrEngine)
        ensures
            r.models == models,
            r.settings == RecognizerSettings::of_config(*config),
            r.line_merge == config.line_merge,
    {
        OcrEngine {
            models,
            settings: RecognizerSettings {
                confidence_threshold: config.confidence_threshold,
                filter_single_char: config.filter_single_char,
            },
            line_merge: config.line_merge,
        }
    }

    /// Update thresholds / merge knobs without reloading the models.
    pub fn apply_runtime_config(&mut self, config: &OcrConfig)
        ensures
            final(self).models == old(self).models,
            final(self).settings == RecognizerSettings::of_config(*config),
            final(self).line_merge == config.line_merge,
    {
        self.settings.confidence_threshold = config.confidence_threshold;
        self.settings.filter_single_char = config.filter_single_char;
        self.line_merge = config.line_merge;
    }

    /// `out` is what the engine makes of an answer: the regions of the first page, boxed by `rect`
    /// and read as one page. No page means no blocks.
    pub open spec fn makes<
        R: Fn(Corners) -> Rect,
        P: Fn(&Vec<OcrBlock>, Neighbor, u32, u32) -> (Vec<Vec<PairMeasure>>, MergeLimits),
        B: Fn(&Vec<OcrBlock>, &Vec<usize>) -> GroupBox,
        O: Fn(&Vec<OcrBlock>, u32, u32) -> OrderMeasure,
    >(
        self,
        pages: Seq<Vec<RawRegion>>,
        frame_w: u32,
        frame_h: u32,
        merge_all: bool,
        rect: R,
        pairs: P,
        boxes: B,
        order: O,
        out: Seq<OcrBlock>,
    ) -> bool {
        if pages.len() == 0 {
            out.len() == 0
        } else {
            exists|regions: Seq<TextRegion>| #[trigger]
                boxed(pages[0]@, rect, regions) && self.settings.page(
                    regions,
                    self.line_merge,
                    frame_w,
                    frame_h,
                    merge_all,
                    pairs,
                    boxes,
                    order,
                    out,
                )
        }
    }

    /// `out` is what the engine makes of an answer of its models to one image.
    pub open spec fn reads<
        R: Fn(Corners) -> Rect,
        P: Fn(&Vec<OcrBlock>, Neighbor, u32, u32) -> (Vec<Vec<PairMeasure>>, MergeLimits),
        B: Fn(&Vec<OcrBlock>, &Vec<usize>) -> GroupBox,
        O: Fn(&Vec<OcrBlock>, u32, u32) -> OrderMeasure,
    >(
        self,
        image: Image,
        frame_w: u32,
        frame_h: u32,
        merge_all: bool,
        rect: R,
        pairs: P,
        boxes: B,
        order: O,
        out: Seq<OcrBlock>,
    ) -> bool {
        exists|pages: Vec<Vec<RawRegion>>| #[trigger]
            image.answered(self.models, Ok(pages)) && self.makes(
                pages@,
                frame_w,
                frame_h,
                merge_all,
                rect,
                pairs,
                boxes,
                order,
                out,
            )
    }

    /// The engine fails so on one image: with the text that its models gave, or because they
    /// found more regions than can be numbered.
    pub open spec fn fails(self, image: Image, error: OcrError) -> bool {
        error matches OcrError::Engine(text) && (image.answered(self.models, Err(text)) || (text@
            == "too many text regions"@ && exists|pages: Vec<Vec<RawRegion>>| #[trigger]
            image.answered(self.models, Ok(pages)) && pages@.len() > 0 && pages@[0]@.len()
                > u32::MAX))
    }

    /// Run OCR on packed RGB8 pixels. No page means no blocks; a failure of the models is
    /// reported with its text.
    fn recognize<
        R: Fn(Corners) -> Rect,
        P: Fn(&Vec<OcrBlock>, Neighbor, u32, u32) -> (Vec<Vec<PairMeasure>>, MergeLimits),
        B: Fn(&Vec<OcrBlock>, &Vec<usize>) -> GroupBox,
        O: Fn(&Vec<OcrBlock>, u32, u32) -> OrderMeasure,
    >(
        &self,
        width: u32,
        height: u32,
        rgb: Vec<u8>,
        frame_w: u32,
        frame_h: u32,
        merge_all: bool,
        rect: &R,
        pairs: &P,
        boxes: &B,
        order: &O,
    ) -> (r: Result<Vec<OcrBlock>, OcrError>)
        requires
            rgb@.len() == width * height * 3,
            forall|c: Corners| call_requires(*rect, (c,)),
            measures_lines(*pairs, *boxes, *order),
        ensures
            match r {
                Ok(blocks) => self.reads(
                    Image { width, height, rgb: rgb@ },
                    frame_w,
                    frame_h,
                    merge_all,
                    *rect,
                    *pairs,
                    *boxes,
                    *order,
                    blocks@,
                ),
                Err(e) => self.fails(Image { width, height, rgb: rgb@ }, e),
            },
    {
        let ghost image = Image { width, height, rgb: rgb@ };
        let mut pages: Vec<Vec<RawRegion>> = match predict(&self.models, width, height, rgb) {
            Ok(pages) => pages,
            Err(e) => {
                assert(image.answered(self.models, Err(e)));
                return Err(OcrError::Engine(e));
            },
        };
        let ghost answer = pages;
        assert(image.answered(self.models, Ok(answer)));
        if pages.len() == 0 {
            return Ok(Vec::new());
        }
        let raw: Vec<RawRegion> = pages.remove(0);
        if raw.len() as u64 > u32::MAX as u64 {
            return Err(OcrError::Engine(owned("too many text regions")));
        }
        let regions: Vec<TextRegion> = box_regions(&raw, rect);
        assert(boxed(answer@[0]@, *rect, regions@));
        Ok(
            self.settings.read_page(
                &regions,
                &self.line_merge,
                frame_w,
                frame_h,
                merge_all,
                pairs,
                boxes,
                order,
            ),
        )
    }

    /// `out` holds the blocks of each crop that is large enough, in crop order, moved to the
    /// crop's place and numbered.
    pub open spec fn reads_regions<
        R: Fn(Corners) -> Rect,
        S: Fn(Rect, u32, u32) -> Rect,
        P: Fn(&Vec<OcrBlock>, Neighbor, u32, u32) -> (Vec<Vec<PairMeasure>>, MergeLimits),
        B: Fn(&Vec<OcrBlock>, &Vec<usize>) -> GroupBox,
        O: Fn(&Vec<OcrBlock>, u32, u32) -> OrderMeasure,
    >(
        self,
        width: u32,
        height: u32,
        rgba: Seq<u8>,
        rects: Seq<PixelBounds>,
        rect: R,
        shift: S,
        pairs: P,
        boxes: B,
        order: O,
        parts: Seq<Vec<OcrBlock>>,
    ) -> bool {
        let kept = usable_crops(width, height, rgba, rects, rects.len() as int);
        &&& parts.len() == kept.len()
        &&& forall|k: int|
            0 <= k < parts.len() ==> self.reads_crop(
                width,
                height,
                rgba,
                rects[kept[k]],
                rect,
                shift,
                pairs,
                boxes,
                order,
                #[trigger] parts[k]@,
            )
    }

    /// `part` is what the engine makes of one crop, moved to the crop's place.
    pub open spec fn reads_crop<
        R: Fn(Corners) -> Rect,
        S: Fn(Rect, u32, u32) -> Rect,
        P: Fn(&Vec<OcrBlock>, Neighbor, u32, u32) -> (Vec<Vec<PairMeasure>>, MergeLimits),
        B: Fn(&Vec<OcrBlock>, &Vec<usize>) -> GroupBox,
        O: Fn(&Vec<OcrBlock>, u32, u32) -> OrderMeasure,
    >(
        self,
        width: u32,
        height: u32,
        rgba: Seq<u8>,
        bounds: PixelBounds,
        rect: R,
        shift: S,
        pairs: P,
        boxes: B,
        order: O,
        part: Seq<OcrBlock>,
    ) -> bool {
        exists|local: Seq<OcrBlock>| #[trigger]
            shifted(local, bounds.x0, bounds.y0, shift, part) && self.reads(
                Image::of_crop(width, rgba, bounds),
                width,
                height,
                self.line_merge.merge_whole_region,
                rect,
                pairs,
                boxes,
                order,
                local,
            )
    }

    /// Run OCR on each crop and move the boxes back into full-frame coordinates.
    ///
    /// Without crops the whole frame is read (geometry rules only). Crops merge on their own so
    /// that independent boxes do not glue together; merge thresholds always use the full frame
    /// size. A crop that is too small is skipped; a failure of the engine ends the pass.
    pub fn recognize_rgba_regions<
        R: Fn(Corners) -> Rect,
        S: Fn(Rect, u32, u32) -> Rect,
        P: Fn(&Vec<OcrBlock>, Neighbor, u32, u32) -> (Vec<Vec<PairMeasure>>, MergeLimits),
        B: Fn(&Vec<OcrBlock>, &Vec<usize>) -> GroupBox,
        O: Fn(&Vec<OcrBlock>, u32, u32) -> OrderMeasure,
    >(
        &self,
        width: u32,
        height: u32,
        rgba: &[u8],
        rects: &Vec<PixelBounds>,
        rect: &R,
        shift: &S,
        pairs: &P,
        boxes: &B,
        order: &O,
    ) -> (r: Result<Vec<OcrBlock>, OcrError>)
        requires
            crate::frame::all_within(rects@, width, height),
            forall|c: Corners| call_requires(*rect, (c,)),
            forall|b: Rect, x: u32, y: u32| call_requires(*shift, (b, x, y)),
            measures_lines(*pairs, *boxes, *order),
        ensures
            rects@.len() == 0 ==> match r {
                Ok(blocks) => rgba@.len() >= rgba_len(width, height) && self.reads(
                    Image::of_frame(width, height, rgba@),
                    width,
                    height,
                    false,
                    *rect,
                    *pairs,
                    *boxes,
                    *order,
                    blocks@,
                ),
                Err(OcrError::Image(text)) => buffer_complaint(width, height, rgba@.len()) == Some(
                    text@,
                ),
                Err(e) => self.fails(Image::of_frame(width, height, rgba@), e),
            },
            rects@.len() == 0 && buffer_complaint(width, height, rgba@.len()) is Some ==> r matches
                Err(OcrError::Image(_)),
            rects@.len() > 0 ==> match r {
                Ok(blocks) => exists|parts: Seq<Vec<OcrBlock>>|
                    blocks@ == numbered(#[trigger] all_blocks(parts)) && self.reads_regions(
                        width,
                        height,
                        rgba@,
                        rects@,
                        *rect,
                        *shift,
                        *pairs,
                        *boxes,
                        *order,
                        parts,
                    ),
                Err(e) => exists|k: int|
                    0 <= k < rects@.len() && rgb8_crop(width, height, rgba@, #[trigger] rects@[k])
                        && self.fails(Image::of_crop(width, rgba@, rects@[k]), e),
            },
            rects@.len() > 0 && usable_crops(width, height, rgba@, rects@, rects@.len() as int).len()
                == 0 ==> (r matches Ok(blocks) && blocks@.len() == 0),
    {
        if rects.len() == 0 {
            match check_buffer(width, height, rgba.len()) {
                Ok(_) => {},
                Err(e) => {
                    return Err(e);
                },
            }
            let rgb: Vec<u8> = rgb_of(width, height, rgba);
            return self.recognize(
                width,
                height,
                rgb,
                width,
                height,
                false,
                rect,
                pairs,
                boxes,
                order,
            );
        }
        let mut parts: Vec<Vec<OcrBlock>> = Vec::new();
        let mut i: usize = 0;
        while i < rects.len()
            invariant
                i <= rects@.len(),
                crate::frame::all_within(rects@, width, height),
                forall|c: Corners| call_requires(*rect, (c,)),
                forall|b: Rect, x: u32, y: u32| call_requires(*shift, (b, x, y)),
                measures_lines(*pairs, *boxes, *order),
                rects@.len() > 0,
                parts@.len() == usable_crops(width, height, rgba@, rects@, i as int).len(),
                forall|k: int|
                    0 <= k < parts@.len() ==> self.reads_crop(
                        width,
                        height,
                        rgba@,
                        rects@[usable_crops(width, height, rgba@, rects@, i as int)[k]],
                        *rect,
                        *shift,
                        *pairs,
                        *boxes,
                        *order,
                        #[trigger] parts@[k]@,
                    ),
            decreases rects@.len() - i,
        {
            let ghost before = parts@;
            match crop_to_rgb8(width, height, rgba, rects[i]) {
                Some(crop) => {
                    proof {
                        lemma_crop_pixels(rgba@, width, rects@[i as int]);
                        lemma_usable_prefix(
                            width,
                            height,
                            rgba@,
                            rects@,
                            i + 1,
                            rects@.len() as int,
                        );
                    }
                    let local: Vec<OcrBlock> = match self.recognize(
                        crop.width,
                        crop.height,
                        crop.rgb,
                        width,
                        height,
                        self.line_merge.merge_whole_region,
                        rect,
                        pairs,
                        boxes,
                        order,
                    ) {
                        Ok(blocks) => blocks,
                        Err(e) => {
                            return Err(e);
                        },
                    };
                    let part: Vec<OcrBlock> = shift_blocks(&local, crop.x, crop.y, shift);
                    assert(shifted(local@, crop.x, crop.y, *shift, part@));
                    parts.push(part);
                    proof {
                        let kept = usable_crops(width, height, rgba@, rects@, i + 1);
                        assert forall|k: int| 0 <= k < parts@.len() implies self.reads_crop(
                            width,
                            height,
                            rgba@,
                            rects@[kept[k]],
                            *rect,
                            *shift,
                            *pairs,
                            *boxes,
                            *order,
                            #[trigger] parts@[k]@,
                        ) by {
                            if k < before.len() {
                                assert(parts@[k] == before[k]);
                            }
                        }
                    }
                },
                None => {},
            }
            i = i + 1;
        }
        let ghost all = parts@;
        let blocks: Vec<OcrBlock> = combine_regions(parts);
        assert(blocks@ == numbered(all_blocks(all)));
        Ok(blocks)
    }
}

/// Positions, among the first `n` rects, of those that make a crop the detector can use.
pub open spec fn usable_crops(
    width: u32,
    height: u32,
    rgba: Seq<u8>,
    rects: Seq<PixelBounds>,
    n: int,
) -> Seq<int>
    decreases n,
{
    if n <= 0 {
        Seq::empty()
    } else if rgb8_crop(width, height, rgba, rects[n - 1]) {
        usable_crops(width, height, rgba, rects, n - 1).push(n - 1)
    } else {
        usable_crops(width, height, rgba, rects, n - 1)
    }
}

proof fn lemma_usable_prefix(
    width: u32,
    height: u32,
    rgba: Seq<u8>,
    rects: Seq<PixelBounds>,
    n: int,
    m: int,
)
    requires
        0 <= n <= m,
    ensures
        usable_crops(width, height, rgba, rects, n).len() <= usable_crops(
            width,
            height,
            rgba,
            rects,
            m,
        ).len(),
    decreases m - n,
{
    if n < m {
        lemma_usable_prefix(width, height, rgba, rects, n, m - 1);
    }
}

proof fn lemma_crop_pixels(rgba: Seq<u8>, width: u32, bounds: PixelBounds)
    requires
        bounds.x0 <= bounds.x1,
        bounds.y0 <= bounds.y1,
    ensures
        cropped(rgba, width, bounds, 3).len() == (bounds.x1 - bounds.x0) * (bounds.y1 - bounds.y0)
            * 3,
{
    assert(0 <= (bounds.x1 - bounds.x0) * (bounds.y1 - bounds.y0)) by (nonlinear_arith)
        requires
            bounds.x0 <= bounds.x1,
            bounds.y0 <= bounds.y1,
    ;
}

/// Blocks of all crops, in crop order.
pub open spec fn all_blocks(parts: Seq<Vec<OcrBlock>>) -> Seq<OcrBlock>
    decreases parts.len(),
{
    if parts.len() == 0 {
        Seq::empty()
    } else {
        all_blocks(parts.drop_last()) + parts.last()@
    }
}

/// Put the blocks of all crops together, in crop order, and number them.
pub fn combine_regions(parts: Vec<Vec<OcrBlock>>) -> (r: Vec<OcrBlock>)
    ensures
        r@ == numbered(all_blocks(parts@)),
{
    let mut all: Vec<OcrBlock> = Vec::new();
    let mut i: usize = 0;
    assert(parts@.take(0) =~= Seq::<Vec<OcrBlock>>::empty());
    while i < parts.len()
        invariant
            i <= parts@.len(),
            all@ == all_blocks(parts@.take(i as int)),
        decreases parts@.len() - i,
    {
        let mut part: Vec<OcrBlock> = crate::types::copy_blocks(&parts[i]);
        all.append(&mut part);
        assert(parts@.take(i + 1).drop_last() =~= parts@.take(i as int));
        assert(parts@.take(i + 1).last() == parts@[i as int]);
        i = i + 1;
    }
    assert(parts@.take(i as int) =~= parts@);
    reindex(all)
}

/// What is wrong with a buffer of `len` bytes for a frame, if anything.
pub open spec fn buffer_complaint(width: u32, height: u32, len: nat) -> Option<Seq<char>> {
    if rgba_len(width, height) > usize::MAX {
        Some("frame dimensions overflow"@)
    } else if len < rgba_len(width, height) {
        Some(
            "buffer too small: "@ + decimal(len) + " < "@ + decimal(
                rgba_len(width, height) as nat,
            ),
        )
    } else {
        None
    }
}

/// Number of bytes of a frame, if the buffer holds as many.
pub fn check_buffer(width: u32, height: u32, len: usize) -> (r: Result<usize, OcrError>)
    ensures
        match r {
            Ok(n) => n == rgba_len(width, height) && buffer_complaint(
                width,
                height,
                len as nat,
            ) is None,
            Err(OcrError::Image(text)) => buffer_complaint(width, height, len as nat) == Some(
                text@,
            ),
            Err(_) => false,
        },
{
    let expected: u128 = frame_bytes(width, height);
    if expected > usize::MAX as u128 {
        return Err(OcrError::Image(owned("frame dimensions overflow")));
    }
    let expected: usize = expected as usize;
    if len < expected {
        let mut text: String = owned("buffer too small: ");
        push_decimal(&mut text, len as u64);
        text.append(" < ");
        push_decimal(&mut text, expected as u64);
        return Err(OcrError::Image(text));
    }
    Ok(expected)
}

/// The texts of the blocks, one per line.
pub open spec fn block_lines(blocks: Seq<OcrBlock>) -> Seq<char>
    decreases blocks.len(),
{
    if blocks.len() == 0 {
        Seq::empty()
    } else if blocks.len() == 1 {
        blocks[0].text@
    } else {
        block_lines(blocks.drop_last()) + seq!['\n'] + blocks.last().text@
    }
}

/// Join block texts for display, one per line.
pub fn blocks_to_text(blocks: &Vec<OcrBlock>) -> (r: String)
    ensures
        r@ == block_lines(blocks@),
{
    let mut out: String = String::new();
    let mut i: usize = 0;
    assert(blocks@.take(0) =~= Seq::<OcrBlock>::empty());
    while i < blocks.len()
        invariant
            i <= blocks@.len(),
            out@ == block_lines(blocks@.take(i as int)),
        decreases blocks@.len() - i,
    {
        if i > 0 {
            out.push('\n');
        }
        out.append(blocks[i].text.as_str());
        proof {
            let t = blocks@.take(i + 1);
            assert(t.drop_last() =~= blocks@.take(i as int));
            assert(t.last() == blocks@[i as int]);
            if i == 0 {
                assert(out@ =~= blocks@[0].text@);
            }
            assert(out@ =~= block_lines(t));
        }
        i = i + 1;
    }
    assert(blocks@.take(i as int) =~= blocks@);
    out
}

proof fn lemma_kept(settings: RecognizerSettings, regions: Seq<TextRegion>, n: int)
    requires
        0 <= n <= regions.len(),
    ensures
        forall|k: int|
            0 <= k < settings.kept(regions, n).len() ==> 0 <= #[trigger] settings.kept(regions, n)[k]
                < n && settings.keeps(regions[settings.kept(regions, n)[k]]),
        forall|j: int, k: int|
            0 <= j < k < settings.kept(regions, n).len() ==> #[trigger] settings.kept(regions, n)[j]
                < #[trigger] settings.kept(regions, n)[k],
        forall|i: int|
            0 <= i < n && settings.keeps(#[trigger] regions[i]) ==> settings.kept(
                regions,
                n,
            ).contains(i),
    decreases n,
{
    if n > 0 {
        lemma_kept(settings, regions, n - 1);
        let before = settings.kept(regions, n - 1);
        let now = settings.kept(regions, n);
        assert forall|i: int| 0 <= i < n && settings.keeps(#[trigger] regions[i]) implies
            now.contains(i) by {
            if i < n - 1 {
                assert(before.contains(i));
                let k = choose|k: int| 0 <= k < before.len() && before[k] == i;
                assert(now[k] == i);
            } else {
                assert(now[before.len() as int] == i);
            }
        }
    }
}

/// Text that is sure enough becomes a block, in the order of the regions: exactly the regions
/// whose text is not below the threshold, not blank and not a single letter or digit (where these
/// are filtered), each with its own trimmed text, confidence and box.
pub proof fn law_sure_text_becomes_a_block(
    settings: RecognizerSettings,
    regions: Seq<TextRegion>,
    blocks: Seq<OcrBlock>,
)
    requires
        settings.selects(regions, blocks),
        regions.len() <= u32::MAX,
    ensures
        forall|i: int|
            #![trigger regions[i]]
            0 <= i < regions.len() && regions[i].reading is Some ==> ({
                let text = trim((regions[i].reading->0).0@);
                let sure = (regions[i].reading->0).1;
                let low = !sure.nan() && !settings.confidence_threshold.nan() && sure.rank()
                    < settings.confidence_threshold.rank();
                !low && text.len() > 0 && !(settings.filter_single_char && one_character(text)) ==> exists|k: int|
                    0 <= k < blocks.len() && (#[trigger] blocks[k]).id == i && blocks[k].text@
                        == text && blocks[k].confidence == sure && blocks[k].bbox
                        == regions[i].bbox && blocks[k].source_lines == 1
            }),
        forall|k: int|
            #![trigger blocks[k]]
            0 <= k < blocks.len() ==> ({
                let i = blocks[k].id as int;
                &&& 0 <= i < regions.len()
                &&& regions[i].reading is Some
                &&& !(regions[i].reading->0).1.less(settings.confidence_threshold)
                &&& blocks[k].text@ == trim((regions[i].reading->0).0@)
                &&& blocks[k].text@.len() > 0
                &&& settings.filter_single_char ==> !one_character(blocks[k].text@)
            }),
        forall|j: int, k: int|
            0 <= j < k < blocks.len() ==> (#[trigger] blocks[j]).id < (#[trigger] blocks[k]).id,
{
    let n = regions.len() as int;
    let kept = settings.kept(regions, n);
    lemma_kept(settings, regions, n);
    assert forall|k: int| 0 <= k < blocks.len() implies settings.is_block(
        #[trigger] blocks[k],
        regions[kept[k]],
        kept[k],
    ) && blocks[k].id == kept[k] && settings.keeps(regions[kept[k]]) by {
        assert(0 <= kept[k] < n);
    }
    assert forall|i: int| #![trigger regions[i]] 0 <= i < regions.len()
        && regions[i].reading is Some implies ({
        let text = trim((regions[i].reading->0).0@);
        let sure = (regions[i].reading->0).1;
        let low = !sure.nan() && !settings.confidence_threshold.nan() && sure.rank()
            < settings.confidence_threshold.rank();
        !low && text.len() > 0 && !(settings.filter_single_char && one_character(text)) ==> exists|k: int|
            0 <= k < blocks.len() && (#[trigger] blocks[k]).id == i && blocks[k].text@ == text
                && blocks[k].confidence == sure && blocks[k].bbox == regions[i].bbox
                && blocks[k].source_lines == 1
    }) by {
        crate::text::lemma_trim_is_tight((regions[i].reading->0).0@);
        lemma_one_character(trim((regions[i].reading->0).0@));
        if settings.keeps(regions[i]) {
            assert(kept.contains(i));
            let k = choose|k: int| 0 <= k < kept.len() && kept[k] == i;
            assert(settings.is_block(blocks[k], regions[kept[k]], kept[k]));
            assert(blocks[k].id == i);
        }
    }
    assert forall|k: int| #![trigger blocks[k]] 0 <= k < blocks.len() implies ({
        let i = blocks[k].id as int;
        &&& 0 <= i < regions.len()
        &&& regions[i].reading is Some
        &&& !(regions[i].reading->0).1.less(settings.confidence_threshold)
        &&& blocks[k].text@ == trim((regions[i].reading->0).0@)
        &&& blocks[k].text@.len() > 0
        &&& settings.filter_single_char ==> !one_character(blocks[k].text@)
    }) by {
        assert(0 <= kept[k] < n);
        crate::text::lemma_trim_is_tight((regions[kept[k]].reading->0).0@);
        lemma_one_character(trim((regions[kept[k]].reading->0).0@));
    }
}

/// The last step changes nothing but the ids, and drops single letters and digits only where
/// these are filtered.
pub proof fn law_finished_page_is_numbered(settings: RecognizerSettings, blocks: Seq<OcrBlock>)
    ensures
        !settings.filter_single_char ==> settings.finished(blocks).len() == blocks.len() && forall|
            i: int,
        |
            #![trigger settings.finished(blocks)[i]]
            0 <= i < blocks.len() ==> settings.finished(blocks)[i].text == blocks[i].text
                && settings.finished(blocks)[i].bbox == blocks[i].bbox,
        settings.filter_single_char ==> forall|i: int|
            #![trigger settings.finished(blocks)[i]]
            0 <= i < settings.finished(blocks).len() ==> !one_character(
                settings.finished(blocks)[i].text@,
            ),
        forall|i: int|
            #![trigger settings.finished(blocks)[i]]
            0 <= i < settings.finished(blocks).len() ==> settings.finished(blocks)[i].id == i as u32,
{
    law_only_single_characters_are_dropped(blocks);
}

/// Crops are put together in their order, and nothing is lost: the blocks of some crops and then
/// of others are the blocks of all.
pub proof fn law_crops_are_put_together_in_order(
    a: Seq<Vec<OcrBlock>>,
    v: Vec<OcrBlock>,
    b: Seq<Vec<OcrBlock>>,
)
    ensures
        all_blocks(a + b) == all_blocks(a) + all_blocks(b),
        all_blocks(seq![v]) == v@,
    decreases b.len(),
{
    reveal_with_fuel(all_blocks, 2);
    assert(seq![v].drop_last() =~= Seq::<Vec<OcrBlock>>::empty());
    assert(all_blocks(seq![v]) =~= v@);
    if b.len() == 0 {
        assert(a + b =~= a);
        assert(all_blocks(a) + all_blocks(b) =~= all_blocks(a));
    } else {
        assert((a + b).drop_last() =~= a + b.drop_last());
        law_crops_are_put_together_in_order(a, v, b.drop_last());
        assert(all_blocks(a + b) =~= all_blocks(a) + all_blocks(b));
    }
}

/// A crop is read if and only if it is large enough and inside the buffer, in the order of the
/// regions.
pub proof fn law_usable_crops_are_read(
    width: u32,
    height: u32,
    rgba: Seq<u8>,
    rects: Seq<PixelBounds>,
    n: int,
)
    requires
        0 <= n <= rects.len(),
    ensures
        ({
            let kept = usable_crops(width, height, rgba, rects, n);
            &&& forall|i: int|
                0 <= i < n && rgb8_crop(width, height, rgba, #[trigger] rects[i]) ==> kept.contains(
                    i,
                )
            &&& forall|k: int|
                0 <= k < kept.len() ==> 0 <= #[trigger] kept[k] < n && rgb8_crop(
                    width,
                    height,
                    rgba,
                    rects[kept[k]],
                )
            &&& forall|j: int, k: int|
                0 <= j < k < kept.len() ==> #[trigger] kept[j] < #[trigger] kept[k]
        }),
    decreases n,
{
    if n > 0 {
        law_usable_crops_are_read(width, height, rgba, rects, n - 1);
        let before = usable_crops(width, height, rgba, rects, n - 1);
        let now = usable_crops(width, height, rgba, rects, n);
        assert forall|i: int|
            0 <= i < n && rgb8_crop(width, height, rgba, #[trigger] rects[i]) implies now.contains(
            i,
        ) by {
            if i < n - 1 {
                assert(before.contains(i));
                let k = choose|k: int| 0 <= k < before.len() && before[k] == i;
                assert(now[k] == i);
            } else {
                assert(now[before.len() as int] == i);
            }
        }
    }
}

/// The text of a page is the texts of its blocks in order, one per line.
pub proof fn law_page_text_has_a_line_per_block(a: Seq<OcrBlock>, block: OcrBlock, b: Seq<OcrBlock>)
    ensures
        block_lines(seq![block]) == block.text@,
        a.len() > 0 && b.len() > 0 ==> block_lines(a + b) == block_lines(a) + seq!['\n']
            + block_lines(b),
        block_lines(Seq::empty()) == Seq::<char>::empty(),
    decreases b.len(),
{
    if a.len() > 0 && b.len() > 0 {
        assert((a + b).drop_last() =~= a + b.drop_last());
        assert((a + b).last() == b.last());
        if b.len() == 1 {
            assert(a + b.drop_last() =~= a);
        } else {
            law_page_text_has_a_line_per_block(a, block, b.drop_last());
        }
        assert(block_lines(a + b) =~= block_lines(a) + seq!['\n'] + block_lines(b));
    }
}

/// A buffer is refused exactly when it is shorter than its frame, or the frame cannot be held.
pub proof fn law_short_buffer_is_refused(width: u32, height: u32, len: nat)
    ensures
        buffer_complaint(width, height, len) is None <==> width * height * 4 <= usize::MAX && len
            >= width * height * 4,
{
}

/// The crop that goes to the models has the size of its region, and is the region's pixels.
pub proof fn law_models_see_the_region(width: u32, rgba: Seq<u8>, bounds: PixelBounds)
    requires
        bounds.x0 <= bounds.x1,
        bounds.y0 <= bounds.y1,
    ensures
        ({
            let image = Image::of_crop(width, rgba, bounds);
            &&& image.width == bounds.x1 - bounds.x0
            &&& image.height == bounds.y1 - bounds.y0
            &&& image.rgb.len() == image.width * image.height * 3
            &&& forall|row: int, col: int, part: int|
                0 <= row < image.height && 0 <= col < image.width && 0 <= part < 3
                    ==> #[trigger] image.rgb[(row * image.width + col) * 3 + part] == rgba[((
                bounds.y0 + row) * width + bounds.x0 + col) * 4 + part]
        }),
{
    lemma_crop_pixels(rgba, width, bounds);
    let image = Image::of_crop(width, rgba, bounds);
    assert forall|row: int, col: int, part: int|
        0 <= row < image.height && 0 <= col < image.width && 0 <= part < 3 implies #[trigger] image.rgb[(
    row * image.width + col) * 3 + part] == rgba[((bounds.y0 + row) * width + bounds.x0 + col) * 4
        + part] by {
        law_crop_holds_its_pixels(rgba, width, bounds, 3, row, col, part);
    }
}

/// The thresholds of the recognizer are those of the config.
pub proof fn law_thresholds_are_those_of_the_config(config: OcrConfig)
    ensures
        RecognizerSettings::of_config(config).confidence_threshold == config.confidence_threshold,
        RecognizerSettings::of_config(config).filter_single_char == config.filter_single_char,
{
}

/// Corners and readings are taken as the models report them.
pub proof fn law_reported_region_is_taken_as_it_is(raw: RawRegion)
    ensures
        raw.spanned().x_min.bits == raw.corners@[0],
        raw.spanned().y_min.bits == raw.corners@[1],
        raw.spanned().x_max.bits == raw.corners@[2],
        raw.spanned().y_max.bits == raw.corners@[3],
        raw.read() is Some == raw.reading is Some,
        raw.reading matches Some(r) ==> (raw.read()->0).0 == r.0 && (raw.read()->0).1.bits == r.1,
{
}

/// Without regions the models see the whole frame, without alpha.
pub proof fn law_models_see_the_whole_frame(
    width: u32,
    height: u32,
    rgba: Seq<u8>,
    row: int,
    col: int,
    part: int,
)
    requires
        0 <= row < height,
        0 <= col < width,
        0 <= part < 3,
    ensures
        ({
            let image = Image::of_frame(width, height, rgba);
            &&& image.width == width
            &&& image.height == height
            &&& image.rgb.len() == width * height * 3
            &&& image.rgb[(row * width + col) * 3 + part] == rgba[(row * width + col) * 4 + part]
        }),
{
    let bounds = PixelBounds { x0: 0, y0: 0, x1: width, y1: height };
    law_crop_holds_its_pixels(rgba, width, bounds, 3, row, col, part);
}

/// A crop that is read has its boxes moved back to its place, and nothing else of its blocks
/// changed.
pub proof fn law_boxes_are_moved_to_the_crop<S: Fn(Rect, u32, u32) -> Rect>(
    before: Seq<OcrBlock>,
    x: u32,
    y: u32,
    shift: S,
    after: Seq<OcrBlock>,
    i: int,
)
    requires
        shifted(before, x, y, shift, after),
        0 <= i < before.len(),
    ensures
        after.len() == before.len(),
        after[i].text == before[i].text,
        after[i].id == before[i].id,
        after[i].confidence == before[i].confidence,
        after[i].source_lines == before[i].source_lines,
        call_ensures(shift, (before[i].bbox, x, y), after[i].bbox),
{
    assert(after[i] == after[i]);
}

proof fn lemma_finished_is_no_longer(settings: RecognizerSettings, blocks: Seq<OcrBlock>)
    ensures
        settings.finished(blocks).len() <= blocks.len(),
{
    lemma_no_more_tokens(blocks);
}

proof fn lemma_no_more_tokens(blocks: Seq<OcrBlock>)
    ensures
        without_single_tokens(blocks).len() <= blocks.len(),
    decreases blocks.len(),
{
    if blocks.len() > 0 {
        lemma_no_more_tokens(blocks.drop_last());
    }
}

/// A region that the user drew makes one block at most where whole regions are joined.
pub proof fn law_drawn_region_makes_one_block<
    R: Fn(Corners) -> Rect,
    S: Fn(Rect, u32, u32) -> Rect,
    P: Fn(&Vec<OcrBlock>, Neighbor, u32, u32) -> (Vec<Vec<PairMeasure>>, MergeLimits),
    B: Fn(&Vec<OcrBlock>, &Vec<usize>) -> GroupBox,
    O: Fn(&Vec<OcrBlock>, u32, u32) -> OrderMeasure,
>(
    engine: OcrEngine,
    width: u32,
    height: u32,
    rgba: Seq<u8>,
    bounds: PixelBounds,
    rect: R,
    shift: S,
    pairs: P,
    boxes: B,
    order: O,
    part: Seq<OcrBlock>,
)
    requires
        engine.reads_crop(width, height, rgba, bounds, rect, shift, pairs, boxes, order, part),
        engine.line_merge.enabled,
        engine.line_merge.merge_whole_region,
    ensures
        part.len() <= 1,
{
    let image = Image::of_crop(width, rgba, bounds);
    let local = choose|local: Seq<OcrBlock>| #[trigger]
        shifted(local, bounds.x0, bounds.y0, shift, part) && engine.reads(
            image,
            width,
            height,
            engine.line_merge.merge_whole_region,
            rect,
            pairs,
            boxes,
            order,
            local,
        );
    let pages = choose|pages: Vec<Vec<RawRegion>>| #[trigger]
        image.answered(engine.models, Ok(pages)) && engine.makes(
            pages@,
            width,
            height,
            true,
            rect,
            pairs,
            boxes,
            order,
            local,
        );
    if pages@.len() > 0 {
        let regions = choose|regions: Seq<TextRegion>| #[trigger]
            boxed(pages@[0]@, rect, regions) && engine.settings.page(
                regions,
                engine.line_merge,
                width,
                height,
                true,
                pairs,
                boxes,
                order,
                local,
            );
        let (selected, merged) = choose|selected: &Vec<OcrBlock>, merged: Seq<OcrBlock>|
            #![trigger merge_outcome(selected, engine.line_merge, width, height, true, pairs, boxes, order, merged)]
            {
                &&& engine.settings.selects(regions, selected@)
                &&& merge_outcome(
                    selected,
                    engine.line_merge,
                    width,
                    height,
                    true,
                    pairs,
                    boxes,
                    order,
                    merged,
                )
                &&& local == engine.settings.finished(merged)
            };
        lemma_finished_is_no_longer(engine.settings, merged);
    }
}

} // verus!
