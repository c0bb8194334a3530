//! Noise filters: single characters and temporal persistence.

use translator::filter::{
    filter_single_char_blocks, is_single_latin_or_digit, BlockPersistenceFilter, TrackMeasure,
};
use translator::scalar::Scalar;
use translator::types::{OcrBlock, Rect};

const MS: u128 = 1_000_000;

fn scalar(v: f32) -> Scalar {
    Scalar::from_bits(v.to_bits())
}

fn number(v: Scalar) -> f32 {
    f32::from_bits(v.to_bits())
}

fn rect(x: f32, y: f32, w: f32, h: f32) -> Rect {
    Rect::new(scalar(x), scalar(y), scalar(w), scalar(h))
}

fn block_wh(text: &str, x: f32, y: f32, w: f32, h: f32) -> OcrBlock {
    OcrBlock { id: 0, text: text.to_string(), confidence: scalar(0.9), bbox: rect(x, y, w, h), source_lines: 1 }
}

fn block(text: &str, x: f32, y: f32) -> OcrBlock {
    block_wh(text, x, y, 80.0, 20.0)
}

fn corners(b: Rect) -> (f32, f32, f32, f32) {
    (number(b.x), number(b.y), number(b.width), number(b.height))
}

fn iou(a: Rect, b: Rect) -> f32 {
    let ((ax, ay, aw, ah), (bx, by, bw, bh)) = (corners(a), corners(b));
    let iw = ((ax + aw).min(bx + bw) - ax.max(bx)).max(0.0);
    let ih = ((ay + ah).min(by + bh) - ay.max(by)).max(0.0);
    let inter = iw * ih;
    if inter <= 0.0 {
        return 0.0;
    }
    let union = aw * ah + bw * bh - inter;
    if union <= 0.0 {
        0.0
    } else {
        inter / union
    }
}

fn measure(block: Rect, track: Rect) -> TrackMeasure {
    let ((x, y, w, h), (tx, ty, tw, th)) = (corners(block), corners(track));
    let q = 16.0f32;
    let dx = (x + w * 0.5 - (tx + tw * 0.5)).abs();
    let dy = (y + h * 0.5 - (ty + th * 0.5)).abs();
    let max_dx = (w.max(tw) * 0.65).max(q * 3.0).max(24.0);
    let max_dy = (h.max(th) * 0.90).max(q * 2.5).max(16.0);
    let iou = iou(block, track);
    let center = 1.0 - (dx / max_dx).clamp(0.0, 1.0) * 0.5 - (dy / max_dy).clamp(0.0, 1.0) * 0.5;
    TrackMeasure {
        dx: scalar(dx),
        dy: scalar(dy),
        max_dx: scalar(max_dx),
        max_dy: scalar(max_dy),
        near_dx: scalar(max_dx * 0.45),
        near_dy: scalar(max_dy * 0.45),
        iou: scalar(iou),
        score_same_text: scalar(iou + 1.0 + center),
        score_other_text: scalar(iou * 0.5 + center),
    }
}

/// A filter that is fed frames at given times.
struct Fed {
    filter: BlockPersistenceFilter,
    now: u128,
}

impl Fed {
    fn new(persist_ms: u64, max_miss_ms: u64) -> Fed {
        Fed { filter: BlockPersistenceFilter::new(persist_ms, max_miss_ms), now: 0 }
    }

    fn with_max_unstable(persist_ms: u64, max_miss_ms: u64, max_unstable_ms: u64) -> Fed {
        Fed { filter: BlockPersistenceFilter::with_max_unstable(persist_ms, max_miss_ms, max_unstable_ms), now: 0 }
    }

    fn sleep(&mut self, ms: u128) {
        self.now += ms * MS;
    }

    fn filter(&mut self, blocks: Vec<OcrBlock>) -> Vec<OcrBlock> {
        let tracks = self.filter.track_boxes();
        let measures = blocks.iter().map(|b| tracks.iter().map(|t| measure(b.bbox, *t)).collect()).collect();
        self.filter.filter_at(blocks, &measures, self.now)
    }
}

#[test]
fn detects_single_latin_and_digit() {
    assert!(is_single_latin_or_digit("0"));
    assert!(is_single_latin_or_digit("V"));
    assert!(is_single_latin_or_digit(" c "));
    assert!(is_single_latin_or_digit("9"));
    assert!(!is_single_latin_or_digit("OK"));
    assert!(!is_single_latin_or_digit("甲"));
    assert!(!is_single_latin_or_digit("甲乙"));
    assert!(!is_single_latin_or_digit(""));
    assert!(!is_single_latin_or_digit("!"));
}

#[test]
fn filter_drops_single_chars() {
    let blocks = vec![
        block("Hello", 10.0, 10.0),
        block("V", 100.0, 10.0),
        block("甲乙", 10.0, 40.0),
        block("0", 200.0, 10.0),
    ];
    let kept = filter_single_char_blocks(blocks);
    assert_eq!(kept.len(), 2);
    assert_eq!(kept[0].text, "Hello");
    assert_eq!(kept[1].text, "甲乙");
    assert_eq!(kept[0].id, 0);
    assert_eq!(kept[1].id, 1);
}

#[test]
fn persistence_drops_flickering_text() {
    let mut f = Fed::new(80, 200);
    let out1 = f.filter(vec![block("HP", 10.0, 10.0), block("x#?", 200.0, 50.0)]);
    assert!(out1.is_empty(), "first sight should not emit");

    f.sleep(40);
    let out2 = f.filter(vec![block("HP", 11.0, 10.0), block("@@", 201.0, 51.0)]);
    assert!(out2.is_empty(), "still under persist window");

    f.sleep(50);
    let out3 = f.filter(vec![block("HP", 10.0, 11.0), block("!!", 199.0, 49.0)]);
    assert_eq!(out3.len(), 1);
    assert_eq!(out3[0].text, "HP");
}

#[test]
fn persistence_keeps_confirmed_across_missed_frame() {
    let mut f = Fed::new(50, 300);
    let _ = f.filter(vec![block("Menu", 10.0, 10.0)]);
    f.sleep(60);
    let confirmed = f.filter(vec![block("Menu", 12.0, 10.0)]);
    assert_eq!(confirmed.len(), 1);

    let held = f.filter(vec![]);
    assert_eq!(held.len(), 1, "hysteresis should keep confirmed text");
    assert_eq!(held[0].text, "Menu");
}

#[test]
fn persistence_freezes_confirmed_bbox_against_jitter() {
    let mut f = Fed::new(50, 300);
    let _ = f.filter(vec![block("Menu", 100.0, 200.0)]);
    f.sleep(60);
    let confirmed = f.filter(vec![block("Menu", 100.0, 200.0)]);
    assert_eq!(confirmed.len(), 1);
    let frozen = confirmed[0].bbox;

    let mut jittered = block("Menu", 104.0, 197.0);
    jittered.bbox.width = scalar(76.0);
    jittered.bbox.height = scalar(22.0);
    let out = f.filter(vec![jittered]);
    assert_eq!(out.len(), 1);
    assert_eq!(out[0].bbox, frozen, "confirmed track should keep stable bbox");
}

#[test]
fn persistence_freezes_confirmed_bbox_on_real_move() {
    let mut f = Fed::new(50, 300);
    let _ = f.filter(vec![block("Menu", 100.0, 200.0)]);
    f.sleep(60);
    let confirmed = f.filter(vec![block("Menu", 100.0, 200.0)]);
    assert_eq!(confirmed.len(), 1);
    let frozen = confirmed[0].bbox;

    let moved = block("Menu", 100.0, 220.0);
    let out = f.filter(vec![moved]);
    assert_eq!(out.len(), 1);
    assert_eq!(out[0].bbox, frozen);
}

#[test]
fn persistence_pending_text_keeps_bbox_until_adopt() {
    let mut f = Fed::new(50, 300);
    let origin = block_wh("セリフ", 100.0, 200.0, 80.0, 22.0);
    let _ = f.filter(vec![origin.clone()]);
    f.sleep(60);
    let confirmed = f.filter(vec![origin.clone()]);
    assert_eq!(confirmed.len(), 1);
    let frozen = confirmed[0].bbox;

    let next = block_wh("次の台詞です", 100.0, 200.0, 200.0, 24.0);
    let held = f.filter(vec![next.clone()]);
    assert_eq!(held.len(), 1);
    assert_eq!(held[0].text, "セリフ");
    assert_eq!(held[0].bbox, frozen, "pending text must not walk or resize the box");

    f.sleep(60);
    let adopted = f.filter(vec![next.clone()]);
    assert_eq!(adopted.len(), 1);
    assert_eq!(adopted[0].text, "次の台詞です");
    assert_eq!(adopted[0].bbox, next.bbox, "adopt new text and its box together");
}

#[test]
fn persistence_reset_drops_confirmed_tracks() {
    let mut f = Fed::new(50, 300);
    let _ = f.filter(vec![block("Menu", 100.0, 200.0)]);
    f.sleep(60);
    assert_eq!(f.filter(vec![block("Menu", 100.0, 200.0)]).len(), 1);

    f.filter.reset();
    let scaled = f.filter(vec![block("Menu", 150.0, 300.0)]);
    assert!(scaled.is_empty(), "reset must drop confirmed tracks");
}

#[test]
fn persistence_disabled_passthrough() {
    let mut f = Fed::with_max_unstable(0, 0, 0);
    let blocks = vec![block("now", 0.0, 0.0)];
    let out = f.filter(blocks.clone());
    assert_eq!(out, blocks);
}

#[test]
fn thrashing_text_force_confirms_after_max_unstable() {
    let mut f = Fed::with_max_unstable(10_000, 500, 80);
    let _ = f.filter(vec![block("hello!", 10.0, 10.0)]);
    assert!(f.filter(vec![block("hello", 11.0, 10.0)]).is_empty());

    f.sleep(90);
    let out = f.filter(vec![block("hello?", 10.0, 11.0)]);
    assert_eq!(out.len(), 1, "thrash should force-confirm after max_unstable");
    assert_eq!(out[0].text, "hello?");
}

#[test]
fn thrashing_with_bbox_width_swing_still_force_confirms() {
    let mut f = Fed::with_max_unstable(10_000, 400, 80);
    let _ = f.filter(vec![block_wh("セリフ", 100.0, 200.0, 80.0, 22.0)]);
    let _ = f.filter(vec![block_wh("セリフ。", 98.0, 199.0, 160.0, 24.0)]);
    let _ = f.filter(vec![block_wh("セリフ", 102.0, 201.0, 84.0, 20.0)]);
    f.sleep(90);
    let out = f.filter(vec![block_wh("セリフ…", 96.0, 198.0, 170.0, 26.0)]);
    assert_eq!(out.len(), 1);
    assert!(out[0].text.starts_with("セリフ"));
}

#[test]
fn unconfirmed_track_survives_longer_than_max_miss_for_force() {
    let mut f = Fed::with_max_unstable(10_000, 50, 120);
    let _ = f.filter(vec![block("a!", 10.0, 10.0)]);
    f.sleep(70);
    let mid = f.filter(vec![]);
    assert!(mid.is_empty());
    f.sleep(30);
    let out = f.filter(vec![block("a", 11.0, 10.0)]);
    assert!(out.is_empty() || out.len() == 1);
    f.sleep(40);
    let forced = f.filter(vec![block("a?", 10.0, 11.0)]);
    assert_eq!(forced.len(), 1, "should force after total first_seen >= 120ms");
}

#[test]
fn persistence_ellipsis_length_is_same_text() {
    let mut f = Fed::new(50, 300);
    let origin = block_wh("待って…", 100.0, 200.0, 80.0, 22.0);
    let _ = f.filter(vec![origin.clone()]);
    f.sleep(60);
    let confirmed = f.filter(vec![origin.clone()]);
    assert_eq!(confirmed.len(), 1);
    let frozen = confirmed[0].bbox;

    let longer = block_wh("待って………", 96.0, 198.0, 170.0, 26.0);
    let out = f.filter(vec![longer]);
    assert_eq!(out.len(), 1);
    assert_eq!(out[0].text, "待って…");
    assert_eq!(out[0].bbox, frozen, "ellipsis-length flicker must keep frozen bbox");
}

#[test]
fn persistence_fullwidth_question_is_same_text() {
    let mut f = Fed::new(50, 300);
    let origin = block_wh("何？", 100.0, 200.0, 80.0, 22.0);
    let _ = f.filter(vec![origin.clone()]);
    f.sleep(60);
    let confirmed = f.filter(vec![origin.clone()]);
    assert_eq!(confirmed.len(), 1);
    let frozen = confirmed[0].bbox;

    let half = block_wh("何?", 102.0, 201.0, 76.0, 20.0);
    let out = f.filter(vec![half]);
    assert_eq!(out.len(), 1);
    assert_eq!(out[0].text, "何？");
    assert_eq!(out[0].bbox, frozen, "？ vs ? must keep frozen bbox");
}

#[test]
fn stacked_unmerged_lines_do_not_share_a_track() {
    let mut f = Fed::new(50, 300);
    let lines = vec![
        block_wh("一行目です", 100.0, 200.0, 240.0, 32.0),
        block_wh("二行目です", 100.0, 228.0, 240.0, 32.0),
        block_wh("三行目です", 100.0, 256.0, 240.0, 32.0),
        block_wh("四行目です", 100.0, 284.0, 240.0, 32.0),
    ];
    let _ = f.filter(lines.clone());
    f.sleep(60);
    let out = f.filter(lines);
    assert_eq!(out.len(), 4, "texts={:?}", out.iter().map(|b| b.text.as_str()).collect::<Vec<_>>());
    assert_eq!(out[0].text, "一行目です");
    assert_eq!(out[3].text, "四行目です");
}

/// The filter that reads the clock itself passes a frame on once its window has no length.
#[test]
fn clock_driven_filter_confirms_on_second_sight() {
    let mut filter = BlockPersistenceFilter::with_max_unstable(1, 0, 0);
    let first = filter.filter(vec![block("Menu", 0.0, 0.0)], &vec![vec![]]);
    assert!(first.is_empty());
    let mut seen = Vec::new();
    for _ in 0..2_000_000 {
        let tracks = filter.track_boxes();
        let row = tracks.iter().map(|t| measure(rect(0.0, 0.0, 80.0, 20.0), *t)).collect();
        seen = filter.filter(vec![block("Menu", 0.0, 0.0)], &vec![row]);
        if !seen.is_empty() {
            break;
        }
    }
    assert_eq!(seen.len(), 1);
}

/// Whatever came before, what is emitted was read, is not blank, and comes by row, then column.
#[test]
fn emitted_blocks_were_read() {
    let mut f = Fed::with_max_unstable(50, 300, 120);
    let mut read: Vec<(String, Rect)> = Vec::new();
    let mut emitted = 0;
    for turn in 0..40u32 {
        let shift = (turn % 3) as f32;
        let mut blocks = vec![
            block("below", 10.0 + shift, 90.0),
            block(if turn % 2 == 0 { "flip" } else { "flop" }, 200.0, 50.0),
            block("   ", 300.0, 10.0),
            block("right", 160.0, 10.0 + shift),
        ];
        if turn % 5 != 4 {
            blocks.push(block("left", 10.0, 10.0));
        }
        read.extend(blocks.iter().map(|b| (b.text.clone(), b.bbox)));
        let out = f.filter(blocks);
        for (i, b) in out.iter().enumerate() {
            assert_eq!(b.id, i as u32);
            assert!(!b.text.trim().is_empty());
            assert!(read.iter().any(|(text, bbox)| *text == b.text && *bbox == b.bbox));
        }
        let whole = |s: Scalar| f32::from_bits(s.to_bits()) as i32;
        assert!(out.windows(2).all(|w| (whole(w[0].bbox.y), whole(w[0].bbox.x)) <= (whole(w[1].bbox.y), whole(w[1].bbox.x))));
        emitted += out.len();
        f.sleep(20);
    }
    assert!(emitted > 40);
}
