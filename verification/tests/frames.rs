//! Frames, crops, client areas and capture sessions.

use bytes::Bytes;
use translator::client_area::{scale_ceil, scale_floor, ClientAreaMetrics};
use translator::frame::{crop_to_rgb8, CapturedFrame, LastRawOcr};
use translator::scalar::Scalar;
use translator::session::SharedLatest;
use translator::types::{PixelBounds, Rect, RelayoutMeasure};

fn scalar(v: f32) -> Scalar {
    Scalar::from_bits(v.to_bits())
}

fn number(v: Scalar) -> f32 {
    f32::from_bits(v.to_bits())
}

fn rect(x: f32, y: f32, w: f32, h: f32) -> Rect {
    Rect::new(scalar(x), scalar(y), scalar(w), scalar(h))
}

fn bounds(x: f32, y: f32, w: f32, h: f32, width: u32, height: u32) -> PixelBounds {
    PixelBounds::clamped_bounds(
        x.round() as u32,
        y.round() as u32,
        (x + w).round() as u32,
        (y + h).round() as u32,
        width,
        height,
    )
}

fn frame(w: u32, h: u32, seq: u64) -> CapturedFrame {
    CapturedFrame::new(w, h, vec![0u8; (w * h * 4) as usize], seq)
}

fn cache(w: u32, h: u32, seq: u64, px: u8) -> LastRawOcr {
    LastRawOcr {
        sequence: seq,
        width: w,
        height: h,
        scope: vec![Bytes::from(vec![px; (w * h * 4) as usize])],
        blocks: Vec::new(),
    }
}

#[test]
fn same_content_whole_frame_compares_all_pixels() {
    let cache = cache(8, 8, 1, 5);
    let same_pixels = CapturedFrame::new(8, 8, vec![5u8; 8 * 8 * 4], 99);
    assert!(cache.same_content(&same_pixels, &vec![]), "identical pixels must hit");

    let mut other = same_pixels.clone();
    other.rgba = Bytes::from(vec![6u8; 8 * 8 * 4]);
    assert!(!cache.same_content(&other, &vec![]), "different pixels must miss");

    assert!(!cache.same_content(&frame(16, 4, 1), &vec![]), "different dimensions must miss");
}

#[test]
fn same_content_short_buffer_is_miss() {
    let cache = cache(8, 8, 1, 5);
    let short = CapturedFrame::new(8, 8, vec![5u8; 10], 2);
    assert!(!cache.same_content(&short, &vec![]), "short whole-frame buffer must miss");
    assert!(
        !cache.same_content(&short, &vec![bounds(0.0, 0.0, 4.0, 4.0, 8, 8)]),
        "short buffer must miss before any rect slicing"
    );
}

#[test]
fn same_content_ignores_pixels_outside_regions() {
    let rect = bounds(4.0, 4.0, 8.0, 8.0, 32, 32);
    let mut base = vec![7u8; 32 * 32 * 4];
    let src = CapturedFrame::new(32, 32, base.clone(), 1);
    let cache = LastRawOcr {
        sequence: 1,
        width: 32,
        height: 32,
        scope: LastRawOcr::pack_scope(&src, &vec![rect]),
        blocks: Vec::new(),
    };

    let i = (31 * 32 + 31) as usize * 4;
    base[i] = 9;
    let outside = CapturedFrame::new(32, 32, base, 2);
    assert!(cache.same_content(&outside, &vec![rect]), "changes outside regions must hit");

    let mut inside = cache.scope[0].to_vec();
    inside[(8 + 1) * 4] = 9;
    let scope = vec![Bytes::from(inside)];
    let cache = LastRawOcr { scope, ..cache };
    assert!(!cache.same_content(&src, &vec![rect]), "changes inside regions must miss");

    assert!(!cache.same_content(&src, &vec![rect, rect]));
}

fn metrics(window_w: u32, window_h: u32, client_w: u32, client_h: u32, offset_x: u32, offset_y: u32) -> ClientAreaMetrics {
    ClientAreaMetrics {
        window_width: window_w,
        window_height: window_h,
        client_width: client_w,
        client_height: client_h,
        offset_x,
        offset_y,
        frame_left: 0,
        frame_top: 0,
    }
}

#[test]
fn crop_frame_extracts_subrect() {
    let mut rgba = vec![0u8; 4 * 3 * 4];
    let i = (4 + 1) * 4;
    rgba[i] = 255;
    rgba[i + 3] = 255;

    let frame = CapturedFrame::new(4, 3, rgba, 1);
    let cropped = metrics(4, 3, 2, 2, 1, 1).crop_frame(&frame);
    assert_eq!(cropped.width, 2);
    assert_eq!(cropped.height, 2);
    assert_eq!(cropped.rgba[0], 255);
    assert_eq!(cropped.rgba[3], 255);
}

#[test]
fn crop_frame_noop_reuses_bytes() {
    let frame = CapturedFrame::new(4, 3, vec![7u8; 4 * 3 * 4], 2);
    let cropped = metrics(4, 3, 4, 3, 0, 0).crop_frame(&frame);
    assert_eq!(cropped.rgba.as_ptr(), frame.rgba.as_ptr());
    assert_eq!(cropped.sequence, 2);
}

#[test]
fn crop_scales_title_bar_with_ceil() {
    let cropped = metrics(800, 600, 784, 553, 8, 31).crop_frame(&CapturedFrame::new(1200, 900, vec![0u8; 1200 * 900 * 4], 0));
    assert_eq!(cropped.width, 1176);
    assert_eq!(cropped.height, 829);

    let y = scale_ceil(31, 899, 600);
    assert_eq!(y, 47);
    assert_eq!(scale_ceil(31, 900, 900), 31);
    assert_eq!(scale_floor(553, 900, 900), 553);
}

#[test]
fn collapsed_caption_and_top_safety() {
    let mut m = metrics(800, 600, 800, 600, 0, 0);
    m.offset_y = 31;
    m.clamp();
    assert_eq!(m.client_height, 569);
    assert_eq!(m.screen_rect(), (0, 31, 800, 569));

    let inset = metrics(800, 600, 784, 553, 8, 31);
    assert_ne!(inset.client_height, inset.window_height);

    let mut m = metrics(800, 600, 784, 553, 8, 31);
    m.offset_y = m.offset_y.saturating_add(1);
    m.client_height = m.client_height.saturating_sub(1).max(1);
    m.clamp();
    assert_eq!(m.offset_y, 32);
    assert_eq!(m.client_height, 552);

    let mut flush = metrics(800, 600, 800, 600, 0, 0);
    if flush.offset_y > 0 {
        flush.offset_y = flush.offset_y.saturating_add(1);
    }
    assert_eq!(flush.offset_y, 0);
}

#[test]
fn remap_onto_dwm_ceils_title() {
    let mut m = metrics(800, 600, 784, 553, 8, 31);
    let num_w = 1200u32;
    let num_h = 900u32;
    m.offset_x = scale_ceil(m.offset_x, num_w, m.window_width);
    m.offset_y = scale_ceil(m.offset_y, num_h, m.window_height);
    m.client_width = scale_floor(m.client_width, num_w, m.window_width);
    m.client_height = scale_floor(m.client_height, num_h, m.window_height);
    m.window_width = num_w;
    m.window_height = num_h;
    m.frame_left = 10;
    m.frame_top = 20;
    m.clamp();
    assert_eq!(m.offset_x, 12);
    assert_eq!(m.offset_y, 47);
    assert_eq!(m.client_width, 1176);
    assert_eq!(m.client_height, 829);
    assert_eq!(m.screen_rect(), (22, 67, 1176, 829));
}

#[test]
fn latest_overwrites_unread() {
    let one = |seq: u64| CapturedFrame::new(1, 1, vec![1, 2, 3, 4], seq);
    let mut slot = SharedLatest::new();
    slot.publish(one(1));
    slot.publish(one(2));
    let got = slot.latest().expect("frame");
    assert_eq!(got.sequence, 2);
    assert_eq!(slot.latest().expect("still there").sequence, 2);
    slot.publish(one(3));
    assert_eq!(slot.latest().expect("replaced").sequence, 3);
}

fn solid(w: u32, h: u32, r: u8, g: u8, b: u8, a: u8) -> Vec<u8> {
    let mut v = Vec::with_capacity((w * h * 4) as usize);
    for _ in 0..(w * h) {
        v.extend_from_slice(&[r, g, b, a]);
    }
    v
}

#[test]
fn crop_copies_window_and_drops_alpha() {
    let w = 16u32;
    let h = 16u32;
    let mut rgba = vec![0u8; (w * h * 4) as usize];
    let i = (3 * w + 5) as usize * 4;
    rgba[i] = 9;
    rgba[i + 1] = 8;
    rgba[i + 2] = 7;
    rgba[i + 3] = 6;
    let crop = crop_to_rgb8(w, h, &rgba, bounds(4.0, 2.0, 8.0, 8.0, w, h)).unwrap();
    assert_eq!(crop.x, 4);
    assert_eq!(crop.y, 2);
    assert_eq!(crop.width, 8);
    assert_eq!(crop.height, 8);
    let dest = (8 + 1) * 3;
    assert_eq!(&crop.rgb[dest..dest + 3], &[9, 8, 7]);
}

#[test]
fn crop_rejects_tiny_and_oob() {
    let rgba = solid(32, 32, 1, 2, 3, 255);
    assert!(crop_to_rgb8(32, 32, &rgba, bounds(0.0, 0.0, 4.0, 4.0, 32, 32)).is_none());
    assert!(crop_to_rgb8(32, 32, &rgba, bounds(40.0, 40.0, 10.0, 10.0, 32, 32)).is_none());
    assert!(crop_to_rgb8(32, 32, &rgba, bounds(0.0, 0.0, 16.0, 16.0, 32, 32)).is_some());
}

fn relayout(a: Rect, b: Rect) -> RelayoutMeasure {
    let (aw, ah) = (number(a.width), number(a.height));
    let (bw, bh) = (number(b.width), number(b.height));
    let (ax, ay) = (number(a.x), number(a.y));
    let (bx, by) = (number(b.x), number(b.y));
    let iw = ((ax + aw).min(bx + bw) - ax.max(bx)).max(0.0);
    let ih = ((ay + ah).min(by + bh) - ay.max(by)).max(0.0);
    let inter = iw * ih;
    let union = aw * ah + bw * bh - inter;
    RelayoutMeasure {
        width_ratio: scalar(bw.max(1.0) / aw.max(1.0)),
        height_ratio: scalar(bh.max(1.0) / ah.max(1.0)),
        iou: scalar(if inter <= 0.0 || union <= 0.0 { 0.0 } else { inter / union }),
        dx: scalar((ax + aw * 0.5 - (bx + bw * 0.5)).abs()),
        dy: scalar((ay + ah * 0.5 - (by + bh * 0.5)).abs()),
        tol_x: scalar((aw.max(bw) * 0.22).max(10.0)),
        tol_y: scalar((ah.max(bh) * 0.40).max(8.0)),
    }
}

#[test]
fn stabilize_keeps_bbox_under_small_jitter() {
    let prev = rect(100.0, 200.0, 180.0, 28.0);
    let jitter = rect(103.0, 197.0, 176.0, 30.0);
    let m = relayout(prev, jitter);
    assert!(!m.is_significant_relayout());
    assert_eq!(prev.stabilize_against(jitter, &m), prev);
}

#[test]
fn stabilize_adopts_real_move() {
    let prev = rect(100.0, 200.0, 180.0, 28.0);
    let moved = rect(100.0, 320.0, 180.0, 28.0);
    let m = relayout(prev, moved);
    assert!(m.is_significant_relayout());
    assert_eq!(prev.stabilize_against(moved, &m), moved);
}

#[test]
fn stabilize_adopts_large_size_change() {
    let prev = rect(100.0, 200.0, 80.0, 24.0);
    let merged = rect(98.0, 198.0, 240.0, 72.0);
    let m = relayout(prev, merged);
    assert!(m.is_significant_relayout());
    assert_eq!(prev.stabilize_against(merged, &m), merged);
}

/// Bit-level comparison agrees with the numbers, signed zeros and values that are no number too.
#[test]
fn scalars_compare_like_numbers() {
    let values = [0.0f32, -0.0, 1.0, -1.0, 0.35, f32::MIN_POSITIVE, f32::MAX, f32::INFINITY, f32::NEG_INFINITY, f32::NAN, 1.0e-40];
    for a in values {
        for b in values {
            assert_eq!(scalar(a).lt(scalar(b)), a < b, "{a} < {b}");
            assert_eq!(scalar(a).le(scalar(b)), a <= b, "{a} <= {b}");
            assert_eq!(scalar(a).same_number(scalar(b)), a == b, "{a} == {b}");
        }
        assert_eq!(scalar(a).trunc_i32(), a as i32, "{a} as i32");
    }
    for a in [2.5f32, -2.5, 99.99, -0.7, 16_777_217.0, 3.0e9, -3.0e9] {
        assert_eq!(scalar(a).trunc_i32(), a as i32, "{a} as i32");
    }
}
