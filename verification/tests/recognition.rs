//! From detector regions to OCR blocks.

use translator::config::{LineMergeConfig, OcrConfig};
use translator::download::OcrError;
use translator::engine::{
    blocks_to_text, box_regions, check_buffer, combine_regions, shift_blocks, Corners, RawRegion, RecognizerSettings,
    TextRegion,
};
use translator::frame::rgb_of;
use translator::merge::{MergeLimits, Neighbor, PairMeasure};
use translator::paragraphs::{GroupBox, OrderMeasure};
use translator::scalar::Scalar;
use translator::types::{OcrBlock, Rect};

fn scalar(v: f32) -> Scalar {
    Scalar::from_bits(v.to_bits())
}

fn number(v: Scalar) -> f32 {
    f32::from_bits(v.to_bits())
}

fn rect(x: f32, y: f32, w: f32, h: f32) -> Rect {
    Rect::new(scalar(x), scalar(y), scalar(w), scalar(h))
}

fn region(text: &str, confidence: f32) -> TextRegion {
    TextRegion { reading: Some((text.to_string(), scalar(confidence))), bbox: rect(1.0, 2.0, 3.0, 4.0) }
}

fn settings(filter_single_char: bool) -> RecognizerSettings {
    RecognizerSettings { confidence_threshold: scalar(0.5), filter_single_char }
}

fn texts(blocks: &[OcrBlock]) -> Vec<&str> {
    blocks.iter().map(|b| b.text.as_str()).collect()
}

fn block(id: u32, text: &str) -> OcrBlock {
    OcrBlock { id, text: text.to_string(), confidence: scalar(0.9), bbox: rect(1.0, 2.0, 3.0, 4.0), source_lines: 1 }
}

#[test]
fn unsure_blank_and_single_characters_are_dropped() {
    let regions = vec![
        region("  hello ", 0.9),
        region("unsure", 0.4),
        region("   ", 0.9),
        TextRegion { reading: None, bbox: rect(0.0, 0.0, 1.0, 1.0) },
        region("a", 0.9),
        region("edge", 0.5),
    ];
    let kept = settings(true).select_regions(&regions);
    assert_eq!(texts(&kept), ["hello", "edge"]);
    assert_eq!(kept.iter().map(|b| b.id).collect::<Vec<_>>(), [0, 5]);
    assert_eq!(kept[0].source_lines, 1);
    assert_eq!(texts(&settings(false).select_regions(&regions)), ["hello", "a", "edge"]);
}

#[test]
fn finished_blocks_are_numbered() {
    let blocks = vec![block(7, "one"), block(9, "x"), block(9, "two")];
    let filtered = settings(true).finish_blocks(blocks.clone());
    assert_eq!(texts(&filtered), ["one", "two"]);
    assert_eq!(filtered.iter().map(|b| b.id).collect::<Vec<_>>(), [0, 1]);
    let all = settings(false).finish_blocks(blocks);
    assert_eq!(all.iter().map(|b| b.id).collect::<Vec<_>>(), [0, 1, 2]);
}

fn read(regions: Vec<TextRegion>, cfg: LineMergeConfig, merge_all: bool) -> Vec<OcrBlock> {
    let zero = scalar(0.0);
    let far = scalar(1.0e6);
    let apart = PairMeasure {
        reach: zero,
        gap: far,
        gap_slack: far,
        gap_ratio: far,
        height_ratio: far,
        edge_ratio: far,
        center_ratio: far,
        width_slack: zero,
        width: zero,
        width_ratio: far,
        open_ratio: far,
        beyond_ratio: far,
        before_ratio: far,
    };
    settings(true).read_page(
        &regions,
        &cfg,
        800,
        600,
        merge_all,
        &|b: &Vec<OcrBlock>, _n: Neighbor, _w: u32, _h: u32| {
            let limits = MergeLimits {
                gap: zero,
                height: zero,
                align: zero,
                zero,
                width: zero,
                reject_short_long: true,
            };
            (b.iter().map(|_| b.iter().map(|_| apart).collect()).collect(), limits)
        },
        &|b: &Vec<OcrBlock>, m: &Vec<usize>| GroupBox { bbox: b[m[0]].bbox, confidence: b[m[0]].confidence },
        &|b: &Vec<OcrBlock>, _w: u32, _h: u32| OrderMeasure {
            coord: b.iter().map(|_| zero).collect(),
            step: b.iter().map(|_| b.iter().map(|_| zero).collect()).collect(),
            band_limit: zero,
        },
    )
}

#[test]
fn page_keeps_merges_and_numbers() {
    let regions = || vec![region("one", 0.9), region("dim", 0.1), region("x", 0.9), region("two", 0.9)];
    let apart = read(regions(), LineMergeConfig::default(), false);
    assert_eq!(texts(&apart), ["one", "two"]);
    assert_eq!(apart.iter().map(|b| b.id).collect::<Vec<_>>(), [0, 1]);
    let whole = read(regions(), LineMergeConfig::default(), true);
    assert_eq!(texts(&whole), ["one two"]);
    assert_eq!(whole[0].source_lines, 2);
    let off = LineMergeConfig { enabled: false, ..Default::default() };
    assert_eq!(texts(&read(regions(), off, true)), ["one", "two"]);
}

#[test]
fn detected_corners_become_boxes() {
    let raw = vec![
        RawRegion {
            reading: Some(("hi".to_string(), 0.75f32.to_bits())),
            corners: [1.0f32, 2.0, 11.0, 22.0].map(|v| v.to_bits()),
        },
        RawRegion { reading: None, corners: [0; 4] },
    ];
    let boxed = box_regions(&raw, &|c: Corners| {
        let (x0, y0) = (number(c.x_min), number(c.y_min));
        rect(x0, y0, number(c.x_max) - x0, number(c.y_max) - y0)
    });
    assert_eq!(boxed.len(), 2);
    assert_eq!(boxed[0].bbox, rect(1.0, 2.0, 10.0, 20.0));
    assert_eq!(boxed[0].reading, Some(("hi".to_string(), scalar(0.75))));
    assert!(boxed[1].reading.is_none());
}

#[test]
fn crop_blocks_move_back_into_the_frame() {
    let shift = |b: Rect, x: u32, y: u32| {
        Rect::new(scalar(number(b.x) + x as f32), scalar(number(b.y) + y as f32), b.width, b.height)
    };
    let moved = shift_blocks(&vec![block(3, "line")], 100, 50, &shift);
    assert_eq!(moved[0].bbox, rect(101.0, 52.0, 3.0, 4.0));
    assert_eq!((moved[0].id, moved[0].text.as_str()), (3, "line"));
}

#[test]
fn crops_are_put_together_in_order() {
    let all = combine_regions(vec![vec![block(0, "a1"), block(1, "a2")], vec![], vec![block(0, "c1")]]);
    assert_eq!(texts(&all), ["a1", "a2", "c1"]);
    assert_eq!(all.iter().map(|b| b.id).collect::<Vec<_>>(), [0, 1, 2]);
    assert_eq!(blocks_to_text(&all), "a1\na2\nc1");
    assert_eq!(blocks_to_text(&Vec::new()), "");
}

#[test]
fn buffers_are_measured() {
    assert!(matches!(check_buffer(2, 3, 24), Ok(24)));
    assert!(matches!(check_buffer(2, 3, 30), Ok(24)));
    match check_buffer(2, 3, 23) {
        Err(OcrError::Image(text)) => assert_eq!(text, "buffer too small: 23 < 24"),
        other => panic!("{other:?}"),
    }
    match check_buffer(u32::MAX, u32::MAX, 23) {
        Err(OcrError::Image(text)) => assert_eq!(text, "frame dimensions overflow"),
        other => panic!("{other:?}"),
    }
}

#[test]
fn pixels_lose_their_alpha() {
    let rgba: Vec<u8> = (0..16).collect();
    assert_eq!(rgb_of(2, 2, &rgba), [0, 1, 2, 4, 5, 6, 8, 9, 10, 12, 13, 14]);
}

#[test]
fn settings_come_from_the_config() {
    let config = OcrConfig::default();
    let made = RecognizerSettings {
        confidence_threshold: config.confidence_threshold,
        filter_single_char: config.filter_single_char,
    };
    assert_eq!(texts(&made.select_regions(&vec![region("sure", 1.0)])), ["sure"]);
}
