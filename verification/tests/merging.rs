//! Merging OCR lines into paragraphs.

use translator::config::{LineMergeConfig, LineMergeOrder};
use translator::merge::{Forest, MergeLimits, Neighbor, PairMeasure};
use translator::paragraphs::{merge_line_blocks_with as merge, GroupBox, OrderMeasure};
use translator::scalar::Scalar;
use translator::types::{OcrBlock, Rect};

const RATIO_EPS: f32 = 1e-5;
const DEFAULT_FRAME_W: u32 = 1920;
const DEFAULT_FRAME_H: u32 = 1080;

fn scalar(v: f32) -> Scalar {
    Scalar::from_bits(v.to_bits())
}

fn number(v: Scalar) -> f32 {
    f32::from_bits(v.to_bits())
}

/// Edges of a line along and across a direction: start, end, center, other start, other center.
fn edges(b: &OcrBlock, neighbor: Neighbor) -> (f32, f32, f32, f32, f32) {
    let (x, y, w, h) = (number(b.bbox.x), number(b.bbox.y), number(b.bbox.width), number(b.bbox.height));
    match neighbor {
        Neighbor::Below => (y, y + h, y + h * 0.5, x, x + w * 0.5),
        Neighbor::Right => (x, x + w, x + w * 0.5, y, y + h * 0.5),
    }
}

fn pair(a: &OcrBlock, b: &OcrBlock, cfg: &LineMergeConfig, neighbor: Neighbor, w: u32, h: u32) -> PairMeasure {
    let (span, across) = match neighbor {
        Neighbor::Below => (h as f32, w as f32),
        Neighbor::Right => (w as f32, h as f32),
    };
    let size = match neighbor {
        Neighbor::Below => number(b.bbox.height),
        Neighbor::Right => number(b.bbox.width),
    };
    let (_, end_i, center_i, edge_i, mid_i) = edges(a, neighbor);
    let (start_j, _, center_j, edge_j, mid_j) = edges(b, neighbor);
    let slack = size * number(cfg.below_mid_ratio);
    let gap = (start_j - end_i).abs();
    let (ah, bh) = (number(a.bbox.height).max(1.0), number(b.bbox.height).max(1.0));
    let (aw, bw) = (number(a.bbox.width).max(1.0), number(b.bbox.width).max(1.0));
    PairMeasure {
        reach: scalar((start_j + slack - center_i) / span.max(1.0) + RATIO_EPS),
        gap: scalar(gap),
        gap_slack: scalar(gap + RATIO_EPS),
        gap_ratio: scalar(gap / span),
        height_ratio: scalar((ah - bh).abs() / ah.max(bh)),
        edge_ratio: scalar((edge_i - edge_j).abs() / across.max(1.0)),
        center_ratio: scalar((mid_i - mid_j).abs() / across.max(1.0)),
        width_slack: scalar(aw + RATIO_EPS),
        width: scalar(bw),
        width_ratio: scalar((bw - aw) / bw + RATIO_EPS),
        open_ratio: scalar((start_j - end_i) / span.max(1.0)),
        beyond_ratio: scalar((center_j - end_i) / span.max(1.0)),
        before_ratio: scalar((center_i - start_j) / span.max(1.0) + RATIO_EPS),
    }
}

fn limits(cfg: &LineMergeConfig, neighbor: Neighbor) -> MergeLimits {
    let gap = match neighbor {
        Neighbor::Below => cfg.gap_ratio,
        Neighbor::Right => cfg.horizontal_gap_ratio,
    };
    MergeLimits {
        gap: scalar(number(gap) + RATIO_EPS),
        height: scalar(number(cfg.height_delta_ratio) + RATIO_EPS),
        align: scalar(number(cfg.align_ratio) + RATIO_EPS),
        zero: scalar(0.0 + RATIO_EPS),
        width: cfg.width_delta_ratio,
        reject_short_long: cfg.reject_short_long,
    }
}

fn group_box(blocks: &Vec<OcrBlock>, members: &Vec<usize>) -> GroupBox {
    let mut conf = 0.0f32;
    let (mut x0, mut y0, mut x1) = (f32::MAX, f32::MAX, f32::MIN);
    let mut heights: Vec<f32> = Vec::new();
    for &i in members {
        let b = &blocks[i].bbox;
        conf += number(blocks[i].confidence);
        x0 = x0.min(number(b.x));
        y0 = y0.min(number(b.y));
        x1 = x1.max(number(b.x) + number(b.width));
        heights.push(number(b.height).max(1.0));
    }
    conf /= members.len() as f32;
    heights.sort_by(|a, b| a.partial_cmp(b).unwrap_or(std::cmp::Ordering::Equal));
    let line_h = heights.get(heights.len() / 2).copied().unwrap_or(16.0);
    GroupBox {
        bbox: Rect::new(scalar(x0), scalar(y0), scalar((x1 - x0).max(1.0)), scalar(line_h)),
        confidence: scalar(conf),
    }
}

fn order_measure(blocks: &Vec<OcrBlock>, cfg: &LineMergeConfig, w: u32, h: u32) -> OrderMeasure {
    let (coords, span): (Vec<f32>, f32) = match cfg.order {
        LineMergeOrder::LeftToRightTopToBottom => {
            (blocks.iter().map(|b| number(b.bbox.y) + number(b.bbox.height) * 0.5).collect(), h as f32)
        }
        LineMergeOrder::TopToBottomLeftToRight => (blocks.iter().map(|b| number(b.bbox.x)).collect(), w as f32),
    };
    let span = span.max(1.0);
    OrderMeasure {
        step: coords.iter().map(|a| coords.iter().map(|b| scalar((b - a) / span)).collect()).collect(),
        coord: coords.into_iter().map(scalar).collect(),
        band_limit: scalar(number(cfg.order_band_ratio) + RATIO_EPS),
    }
}

fn merge_line_blocks_with(blocks: Vec<OcrBlock>, cfg: &LineMergeConfig, w: u32, h: u32, merge_all: bool) -> Vec<OcrBlock> {
    merge(
        blocks,
        cfg,
        w,
        h,
        merge_all,
        &|b: &Vec<OcrBlock>, n: Neighbor, w: u32, h: u32| {
            let table = b.iter().map(|i| b.iter().map(|j| pair(i, j, cfg, n, w, h)).collect()).collect();
            (table, limits(cfg, n))
        },
        &|b: &Vec<OcrBlock>, m: &Vec<usize>| group_box(b, m),
        &|b: &Vec<OcrBlock>, w: u32, h: u32| order_measure(b, cfg, w, h),
    )
}

fn merge_line_blocks(blocks: Vec<OcrBlock>) -> Vec<OcrBlock> {
    merge_line_blocks_with(blocks, &LineMergeConfig::default(), DEFAULT_FRAME_W, DEFAULT_FRAME_H, false)
}

fn line(id: u32, text: &str, x: f32, y: f32, w: f32, h: f32) -> OcrBlock {
    OcrBlock {
        id,
        text: text.to_string(),
        confidence: scalar(0.9),
        bbox: Rect::new(scalar(x), scalar(y), scalar(w), scalar(h)),
        source_lines: 1,
    }
}

fn merge_with(blocks: Vec<OcrBlock>, cfg: LineMergeConfig, merge_all: bool) -> Vec<OcrBlock> {
    merge_line_blocks_with(blocks, &cfg, DEFAULT_FRAME_W, DEFAULT_FRAME_H, merge_all)
}

#[test]
fn merges_stacked_english_lines() {
    let blocks = vec![line(0, "Hello", 10.0, 10.0, 100.0, 18.0), line(1, "world", 12.0, 32.0, 90.0, 18.0)];
    let merged = merge_line_blocks(blocks);
    assert_eq!(merged.len(), 1);
    assert_eq!(merged[0].text, "Hello world");
    assert!(number(merged[0].bbox.height) <= 22.0, "h={}", number(merged[0].bbox.height));
    assert_eq!(merged[0].source_lines, 2, "merged block tracks line count");
}

#[test]
fn merge_disabled_passthrough() {
    let cfg = LineMergeConfig {
        enabled: false,
        ..Default::default()
    };
    let blocks = vec![line(0, "Hello", 10.0, 10.0, 100.0, 18.0), line(1, "world", 12.0, 32.0, 90.0, 18.0)];
    let merged = merge_with(blocks, cfg, false);
    assert_eq!(merged.len(), 2);
}

#[test]
fn disabled_ignores_merge_all() {
    let cfg = LineMergeConfig {
        enabled: false,
        merge_whole_region: true,
        ..Default::default()
    };
    let blocks = vec![line(0, "Hello", 10.0, 10.0, 100.0, 18.0), line(1, "world", 12.0, 32.0, 90.0, 18.0)];
    let merged = merge_with(blocks, cfg, true);
    assert_eq!(merged.len(), 2);
}

#[test]
fn join_without_space_concatenates() {
    let cfg = LineMergeConfig {
        join_with_space: false,
        ..Default::default()
    };
    let blocks = vec![line(0, "甲乙", 10.0, 10.0, 100.0, 20.0), line(1, "丙丁", 10.0, 34.0, 80.0, 20.0)];
    let merged = merge_with(blocks, cfg, false);
    assert_eq!(merged.len(), 1);
    assert_eq!(merged[0].text, "甲乙丙丁");
}

#[test]
fn equal_width_nearby_lines_merge() {
    let blocks = vec![line(0, "甲乙", 10.0, 10.0, 80.0, 20.0), line(1, "丙丁", 10.0, 34.0, 80.0, 20.0)];
    let merged = merge_line_blocks(blocks);
    assert_eq!(merged.len(), 1);
    assert_eq!(merged[0].text, "甲乙 丙丁");
}

#[test]
fn short_upper_stays_separate_by_default() {
    let blocks = vec![
        line(0, "short", 10.0, 10.0, 60.0, 18.0),
        line(1, "much longer body", 10.0, 32.0, 160.0, 18.0),
    ];
    let merged = merge_line_blocks(blocks);
    assert_eq!(merged.len(), 2);
}

#[test]
fn short_upper_merges_when_guard_off() {
    let cfg = LineMergeConfig {
        reject_short_long: false,
        ..Default::default()
    };
    let blocks = vec![
        line(0, "short", 10.0, 10.0, 60.0, 18.0),
        line(1, "much longer body", 10.0, 32.0, 160.0, 18.0),
    ];
    let merged = merge_with(blocks, cfg, false);
    assert_eq!(merged.len(), 1);
    assert_eq!(merged[0].text, "short much longer body");
}

#[test]
fn merges_short_left_into_long_right() {
    let blocks = vec![
        line(0, "short", 10.0, 10.0, 60.0, 18.0),
        line(1, "much longer body", 75.0, 12.0, 160.0, 18.0),
    ];
    let merged = merge_line_blocks(blocks);
    assert_eq!(merged.len(), 1);
    assert_eq!(merged[0].text, "short much longer body");
}

#[test]
fn split_first_line_short_wrap_joins_upper_not_next() {
    let h = 18.0;
    let blocks = vec![
        line(0, "Hi", 10.0, 10.0, 40.0, h),
        line(1, "there this line is long", 55.0, 10.0, 180.0, h),
        line(2, "wraps.", 10.0, 32.0, 90.0, h),
        line(3, "Next paragraph here", 10.0, 54.0, 140.0, h),
    ];
    let merged = merge_line_blocks(blocks);
    assert_eq!(merged.len(), 2, "{:?}", merged.iter().map(|b| &b.text).collect::<Vec<_>>());
    assert_eq!(merged[0].text, "Hi there this line is long wraps.");
    assert_eq!(merged[1].text, "Next paragraph here");
}

#[test]
fn split_first_line_all_merge_when_guard_off() {
    let cfg = LineMergeConfig {
        reject_short_long: false,
        ..Default::default()
    };
    let h = 18.0;
    let blocks = vec![
        line(0, "Hi", 10.0, 10.0, 40.0, h),
        line(1, "there this line is long", 55.0, 10.0, 180.0, h),
        line(2, "wraps.", 10.0, 32.0, 90.0, h),
        line(3, "Next paragraph here", 10.0, 54.0, 140.0, h),
    ];
    let merged = merge_with(blocks, cfg, false);
    assert_eq!(merged.len(), 1);
    assert_eq!(merged[0].text, "Hi there this line is long wraps. Next paragraph here");
}

#[test]
fn long_short_long_wraps_upward_not_down() {
    let h = 18.0;
    let blocks = vec![
        line(0, "Long first line of paragraph", 10.0, 10.0, 200.0, h),
        line(1, "short wrap", 10.0, 32.0, 150.0, h),
        line(2, "Long next paragraph line", 10.0, 54.0, 200.0, h),
    ];
    let merged = merge_line_blocks(blocks);
    assert_eq!(merged.len(), 2, "{:?}", merged.iter().map(|b| &b.text).collect::<Vec<_>>());
    assert_eq!(merged[0].text, "Long first line of paragraph short wrap");
    assert_eq!(merged[1].text, "Long next paragraph line");
}

#[test]
fn three_line_wrap_last_slightly_wider_still_merges() {
    let h = 18.0;
    let blocks = vec![
        line(0, "This is a long first line", 10.0, 10.0, 220.0, h),
        line(1, "middle wraps shorter", 10.0, 32.0, 160.0, h),
        line(2, "last line a bit longer.", 10.0, 54.0, 161.0, h),
    ];
    let merged = merge_line_blocks(blocks);
    assert_eq!(merged.len(), 1, "{:?}", merged.iter().map(|b| &b.text).collect::<Vec<_>>());
    assert_eq!(merged[0].text, "This is a long first line middle wraps shorter last line a bit longer.");
}

#[test]
fn four_long_lines_merge_despite_width_jitter() {
    let h = 18.0;
    let blocks = vec![
        line(0, "Line one of a long paragraph", 10.0, 10.0, 200.0, h),
        line(1, "Line two of a long paragraph", 10.0, 32.0, 188.0, h),
        line(2, "Line three of a long paragraph", 10.0, 54.0, 196.0, h),
        line(3, "Line four of a long paragraph", 10.0, 76.0, 190.0, h),
    ];
    let merged = merge_line_blocks(blocks);
    assert_eq!(merged.len(), 1, "{:?}", merged.iter().map(|b| &b.text).collect::<Vec<_>>());
    assert_eq!(
        merged[0].text,
        "Line one of a long paragraph Line two of a long paragraph Line three of a long paragraph Line four of a long paragraph"
    );
}

#[test]
fn merges_three_line_paragraph() {
    let h = 20.0;
    let blocks = vec![
        line(0, "This is a long", 10.0, 10.0, 220.0, h),
        line(1, "paragraph that wraps", 10.0, 10.0 + h + 5.0, 200.0, h),
        line(2, "across three lines.", 10.0, 10.0 + 2.0 * (h + 5.0), 160.0, h),
    ];
    let merged = merge_line_blocks(blocks);
    assert_eq!(merged.len(), 1);
    assert_eq!(merged[0].text, "This is a long paragraph that wraps across three lines.");
    assert!((number(merged[0].bbox.height) - h).abs() < 1.0);
}

#[test]
fn does_not_merge_side_by_side_far_apart() {
    let blocks = vec![line(0, "Left", 10.0, 10.0, 40.0, 18.0), line(1, "Right", 200.0, 12.0, 40.0, 18.0)];
    let merged = merge_line_blocks(blocks);
    assert_eq!(merged.len(), 2);
}

#[test]
fn merges_side_by_side_when_gap_small() {
    let blocks = vec![line(0, "Left", 10.0, 10.0, 40.0, 18.0), line(1, "Right", 55.0, 12.0, 40.0, 18.0)];
    let merged = merge_line_blocks(blocks);
    assert_eq!(merged.len(), 1);
    assert_eq!(merged[0].text, "Left Right");
}

#[test]
fn horizontal_gap_at_threshold_still_merges() {
    let cfg = LineMergeConfig::default();
    let w = 40.0;
    let h = 18.0;
    let gap = number(cfg.horizontal_gap_ratio) * DEFAULT_FRAME_W as f32;
    let blocks = vec![line(0, "Left", 10.0, 10.0, w, h), line(1, "Right", 10.0 + w + gap, 10.0, w, h)];
    let merged = merge_with(blocks, cfg, false);
    assert_eq!(merged.len(), 1);
    assert_eq!(merged[0].text, "Left Right");
}

#[test]
fn horizontal_gap_beyond_threshold_stays_separate() {
    let cfg = LineMergeConfig::default();
    let w = 40.0;
    let h = 18.0;
    let gap = number(cfg.horizontal_gap_ratio) * DEFAULT_FRAME_W as f32 + 2.0;
    let blocks = vec![line(0, "Left", 10.0, 10.0, w, h), line(1, "Right", 10.0 + w + gap, 10.0, w, h)];
    let merged = merge_with(blocks, cfg, false);
    assert_eq!(merged.len(), 2);
}

#[test]
fn horizontal_gap_disabled_keeps_neighbors_separate() {
    let cfg = LineMergeConfig {
        horizontal_gap_ratio: scalar(0.0),
        ..Default::default()
    };
    let blocks = vec![line(0, "Left", 10.0, 10.0, 40.0, 18.0), line(1, "Right", 55.0, 12.0, 40.0, 18.0)];
    let merged = merge_with(blocks, cfg, false);
    assert_eq!(merged.len(), 2);
}

#[test]
fn does_not_merge_far_vertical_gap() {
    let blocks = vec![line(0, "A", 10.0, 10.0, 80.0, 18.0), line(1, "B", 10.0, 120.0, 40.0, 18.0)];
    let merged = merge_line_blocks(blocks);
    assert_eq!(merged.len(), 2);
}

#[test]
fn gap_at_threshold_still_merges() {
    let cfg = LineMergeConfig::default();
    let h = 18.0;
    let gap = number(cfg.gap_ratio) * DEFAULT_FRAME_H as f32;
    let blocks = vec![
        line(0, "Hello", 10.0, 10.0, 120.0, h),
        line(1, "world", 12.0, 10.0 + h + gap, 90.0, h),
    ];
    let merged = merge_with(blocks, cfg, false);
    assert_eq!(merged.len(), 1);
}

#[test]
fn overlapping_gap_within_abs_threshold_merges() {
    let h = 18.0;
    // Negative gap (2px overlap) is the same |gap| as a 2px space.
    let blocks = vec![
        line(0, "Hello", 10.0, 10.0, 120.0, h),
        line(1, "world", 12.0, 10.0 + h - 2.0, 90.0, h),
    ];
    let merged = merge_line_blocks(blocks);
    assert_eq!(merged.len(), 1);
}

#[test]
fn gap_just_beyond_threshold_stays_separate() {
    let cfg = LineMergeConfig::default();
    let h = 18.0;
    let gap = number(cfg.gap_ratio) * DEFAULT_FRAME_H as f32 + 2.0;
    let blocks = vec![
        line(0, "Hello", 10.0, 10.0, 120.0, h),
        line(1, "world", 12.0, 10.0 + h + gap, 90.0, h),
    ];
    let merged = merge_with(blocks, cfg, false);
    assert_eq!(merged.len(), 2);
}

#[test]
fn does_not_merge_paragraph_spacing() {
    let blocks = vec![
        line(0, "Line one", 10.0, 10.0, 140.0, 18.0),
        line(1, "Line two", 10.0, 30.0, 120.0, 18.0),
        line(2, "Next block", 10.0, 80.0, 120.0, 18.0),
    ];
    let merged = merge_line_blocks(blocks);
    assert_eq!(merged.len(), 2);
    assert_eq!(merged[0].text, "Line one Line two");
    assert_eq!(merged[1].text, "Next block");
}

#[test]
fn keeps_two_columns_separate() {
    let blocks = vec![
        line(0, "L1", 10.0, 10.0, 80.0, 16.0),
        line(1, "L2", 10.0, 30.0, 60.0, 16.0),
        line(2, "R1", 200.0, 10.0, 80.0, 16.0),
        line(3, "R2", 200.0, 30.0, 60.0, 16.0),
    ];
    let merged = merge_line_blocks(blocks);
    assert_eq!(merged.len(), 2);
    let texts: Vec<_> = merged.iter().map(|b| b.text.as_str()).collect();
    assert!(texts.contains(&"L1 L2"));
    assert!(texts.contains(&"R1 R2"));
}

#[test]
fn does_not_chain_merge_via_growing_bbox() {
    let blocks = vec![
        line(0, "L1", 10.0, 10.0, 100.0, 16.0),
        line(1, "L2", 10.0, 28.0, 80.0, 16.0),
        line(2, "P2", 10.0, 70.0, 80.0, 16.0),
        line(3, "P3", 10.0, 112.0, 80.0, 16.0),
    ];
    let merged = merge_line_blocks(blocks);
    assert_eq!(merged.len(), 3);
    assert_eq!(merged[0].text, "L1 L2");
}

#[test]
fn height_mismatch_does_not_merge() {
    let blocks = vec![line(0, "A", 10.0, 10.0, 80.0, 18.0), line(1, "B", 10.0, 32.0, 80.0, 40.0)];
    let merged = merge_line_blocks(blocks);
    assert_eq!(merged.len(), 2);
}

#[test]
fn unaligned_column_does_not_merge() {
    let blocks = vec![line(0, "A", 10.0, 10.0, 80.0, 18.0), line(1, "B", 120.0, 32.0, 80.0, 18.0)];
    let merged = merge_line_blocks(blocks);
    assert_eq!(merged.len(), 2);
}

#[test]
fn aligned_short_over_long_merges_when_guard_off() {
    // Left edges within align_ratio; gap covers stacked proximity (including overlap).
    let cfg = LineMergeConfig {
        reject_short_long: false,
        ..Default::default()
    };
    let blocks = vec![line(0, "A", 100.0, 10.0, 15.0, 18.0), line(1, "B", 110.0, 32.0, 200.0, 18.0)];
    let merged = merge_with(blocks, cfg, false);
    assert_eq!(merged.len(), 1);
    assert_eq!(merged[0].text, "A B");
}

#[test]
fn large_list_pitch_stays_separate() {
    let h = 42.0;
    let x = 1334.0;
    let pitch = h + 19.0;
    let blocks = vec![
        line(0, "あ", x, 224.0, 86.0, h),
        line(1, "い", x, 224.0 + pitch, 78.0, h),
        line(2, "ううう", x, 224.0 + 2.0 * pitch, 164.0, h),
    ];
    let merged = merge_line_blocks(blocks);
    assert_eq!(merged.len(), 3, "{:?}", merged.iter().map(|b| &b.text).collect::<Vec<_>>());
}

#[test]
fn single_line_only_passthrough() {
    let blocks = vec![line(0, "only", 322.0, 876.0, 434.0, 60.0)];
    let merged = merge_line_blocks(blocks);
    assert_eq!(merged.len(), 1);
    assert_eq!(merged[0].text, "only");
}

#[test]
fn wrap_with_positive_gap_still_merges_on_dense_page() {
    let h = 40.0;
    let mut blocks = Vec::new();
    for i in 0..5 {
        blocks.push(line(i, &format!("row{i}"), 600.0, 20.0 + i as f32 * 80.0, 400.0, h));
    }
    blocks.push(line(5, "W1A", 600.0, 500.0, 850.0, h));
    blocks.push(line(6, "W1B", 600.0, 500.0 + h + 14.0, 220.0, h));

    let merged = merge_line_blocks(blocks);
    assert!(
        merged.iter().any(|b| b.text.contains("W1A") && b.text.contains("W1B")),
        "{:?}",
        merged.iter().map(|b| &b.text).collect::<Vec<_>>()
    );
}

#[test]
fn same_pixel_gap_depends_on_frame_height() {
    let blocks = vec![
        line(0, "Hello", 10.0, 10.0, 120.0, 18.0),
        line(1, "world", 12.0, 10.0 + 18.0 + 20.0, 90.0, 18.0),
    ];
    let cfg = LineMergeConfig::default();
    // 20px / 1080 ≈ 0.0185 > 0.015 → no merge; 20px / 2000 = 0.01 < 0.015 → merge.
    let tall = merge_line_blocks_with(blocks.clone(), &cfg, 1920, 2000, false);
    let short = merge_line_blocks_with(blocks, &cfg, 1920, 1080, false);
    assert_eq!(tall.len(), 1, "larger frame makes 20px a small relative gap");
    assert_eq!(short.len(), 2, "1080p treats 20px as too far");
}

#[test]
fn whole_region_merges_side_by_side() {
    let cfg = LineMergeConfig::default();
    let blocks = vec![line(0, "Left", 10.0, 10.0, 40.0, 18.0), line(1, "Right", 200.0, 12.0, 40.0, 18.0)];
    let merged = merge_with(blocks, cfg, true);
    assert_eq!(merged.len(), 1);
    assert_eq!(merged[0].text, "Left Right");
    assert_eq!(merged[0].source_lines, 2);
}

#[test]
fn whole_region_without_merge_all_stays_paragraph() {
    let cfg = LineMergeConfig {
        merge_whole_region: true,
        ..Default::default()
    };
    let blocks = vec![line(0, "Left", 10.0, 10.0, 40.0, 18.0), line(1, "Right", 200.0, 12.0, 40.0, 18.0)];
    let merged = merge_with(blocks, cfg, false);
    assert_eq!(merged.len(), 2);
}

#[test]
fn whole_region_order_top_to_bottom_left_to_right() {
    let cfg = LineMergeConfig {
        order: LineMergeOrder::TopToBottomLeftToRight,
        ..Default::default()
    };
    let blocks = vec![
        line(0, "A", 10.0, 10.0, 20.0, 16.0),
        line(1, "B", 80.0, 10.0, 20.0, 16.0),
        line(2, "C", 10.0, 40.0, 20.0, 16.0),
        line(3, "D", 80.0, 40.0, 20.0, 16.0),
    ];
    let merged = merge_with(blocks, cfg, true);
    assert_eq!(merged.len(), 1);
    assert_eq!(merged[0].text, "A C B D");
}

#[test]
fn whole_region_order_left_to_right_top_to_bottom() {
    let cfg = LineMergeConfig {
        order: LineMergeOrder::LeftToRightTopToBottom,
        ..Default::default()
    };
    let blocks = vec![
        line(0, "A", 10.0, 10.0, 20.0, 16.0),
        line(1, "B", 80.0, 10.0, 20.0, 16.0),
        line(2, "C", 10.0, 40.0, 20.0, 16.0),
        line(3, "D", 80.0, 40.0, 20.0, 16.0),
    ];
    let merged = merge_with(blocks, cfg, true);
    assert_eq!(merged.len(), 1);
    assert_eq!(merged[0].text, "A B C D");
}

#[test]
fn default_whole_region_order_is_left_to_right() {
    let cfg = LineMergeConfig::default();
    let blocks = vec![
        line(0, "A", 10.0, 10.0, 20.0, 16.0),
        line(1, "B", 80.0, 10.0, 20.0, 16.0),
        line(2, "C", 10.0, 40.0, 20.0, 16.0),
        line(3, "D", 80.0, 40.0, 20.0, 16.0),
    ];
    let merged = merge_with(blocks, cfg, true);
    assert_eq!(merged[0].text, "A B C D");
}

/// Joining and reordering keep every detector line, whatever the layout.
#[test]
fn merging_loses_no_line() {
    let blocks: Vec<OcrBlock> =
        (0..12).map(|i| line(i, &format!("t{i}"), (i % 3) as f32 * 70.0, (i / 3) as f32 * 21.0, 60.0, 18.0)).collect();
    for merge_all in [false, true] {
        let merged = merge_with(blocks.clone(), LineMergeConfig::default(), merge_all);
        assert_eq!(merged.iter().map(|b| b.source_lines).sum::<u32>(), 12);
        for (i, b) in merged.iter().enumerate() {
            assert_eq!(b.id, i as u32);
        }
    }
}

/// Lines that are each joined to a common neighbor end in one group, and no other line joins them.
#[test]
fn joined_neighbors_share_a_group() {
    let blocks = vec![
        line(0, "A1", 10.0, 10.0, 100.0, 16.0),
        line(1, "A2", 10.0, 28.0, 100.0, 16.0),
        line(2, "A3", 10.0, 46.0, 100.0, 16.0),
        line(3, "B1", 400.0, 300.0, 100.0, 16.0),
        line(4, "B2", 400.0, 318.0, 100.0, 16.0),
    ];
    let merged = merge_line_blocks(blocks);
    assert_eq!(merged.iter().map(|b| (b.text.as_str(), b.source_lines)).collect::<Vec<_>>(), [("A1 A2 A3", 3), ("B1 B2", 2)]);
}

/// Where nothing is merged, line counts are not added up.
#[test]
fn unmerged_blocks_may_count_any_number_of_lines() {
    let mut blocks = vec![line(0, "A", 10.0, 10.0, 100.0, 16.0), line(1, "B", 10.0, 28.0, 100.0, 16.0)];
    for b in blocks.iter_mut() {
        b.source_lines = u32::MAX;
    }
    let cfg = LineMergeConfig { enabled: false, ..LineMergeConfig::default() };
    let kept = merge_with(blocks, cfg, false);
    assert_eq!(kept.iter().map(|b| b.source_lines).collect::<Vec<_>>(), [u32::MAX, u32::MAX]);
}

/// A union joins two groups and leaves the others apart.
#[test]
fn union_joins_exactly_two_groups() {
    let mut forest = Forest::new(7);
    assert_eq!((0..7).map(|i| forest.find(i)).collect::<Vec<_>>(), [0, 1, 2, 3, 4, 5, 6]);
    forest.union(0, 1);
    forest.union(2, 3);
    forest.union(4, 5);
    assert_ne!(forest.find(1), forest.find(2));
    forest.union(1, 3);
    forest.union(3, 0);
    let roots: Vec<usize> = (0..7).map(|i| forest.find(i)).collect();
    assert!(roots[..4].iter().all(|r| *r == roots[0]));
    assert_eq!(roots[4], roots[5]);
    assert!(roots[0] != roots[4] && roots[0] != roots[6] && roots[4] != roots[6]);
}
