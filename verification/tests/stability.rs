//! Text normal form, page fingerprints and the stability gate.

use translator::fingerprint::OcrFingerprint;
use translator::normalize::normalize_ocr_text;
use translator::scalar::Scalar;
use translator::stability::{StabilityGate, StabilityOutcome};
use translator::types::{OcrBlock, Rect};

const MS: u128 = 1_000_000;

fn scalar(v: f32) -> Scalar {
    Scalar::from_bits(v.to_bits())
}

fn rect(x: f32, y: f32, w: f32, h: f32) -> Rect {
    Rect::new(scalar(x), scalar(y), scalar(w), scalar(h))
}

fn block(text: &str) -> OcrBlock {
    OcrBlock { id: 0, text: text.to_string(), confidence: scalar(0.9), bbox: rect(0.0, 0.0, 10.0, 10.0), source_lines: 1 }
}

#[test]
fn normalize_collapses_whitespace() {
    assert_eq!(normalize_ocr_text("hello   world"), "hello world");
    assert_eq!(normalize_ocr_text("  a\n\tb  "), "a b");
}

#[test]
fn normalize_collapses_ellipsis_length() {
    assert_eq!(normalize_ocr_text("…"), "…");
    assert_eq!(normalize_ocr_text("……"), "…");
    assert_eq!(normalize_ocr_text("………"), "…");
    assert_eq!(normalize_ocr_text("..."), "…");
    assert_eq!(normalize_ocr_text("・・・"), "…");
    assert_eq!(normalize_ocr_text("待って………"), "待って");
    assert_eq!(normalize_ocr_text("待って…"), "待って");
    assert_eq!(normalize_ocr_text("待って"), "待って");
    assert_eq!(normalize_ocr_text("待って…ください"), "待って…ください");
    assert_eq!(normalize_ocr_text("セリフ。"), "セリフ。");
    assert_eq!(normalize_ocr_text("Hello."), "Hello.");
}

#[test]
fn normalize_folds_fullwidth_question_and_bang() {
    assert_eq!(normalize_ocr_text("何？"), "何?");
    assert_eq!(normalize_ocr_text("何?"), "何?");
    assert_eq!(normalize_ocr_text("嘘！"), "嘘!");
    assert_eq!(normalize_ocr_text("嘘!"), "嘘!");
}

#[test]
fn normal_form_is_its_own_normal_form() {
    for text in ["", "  ", "a…b...", "…。…", "x ？ ！ ...", "..a", "a . b", "a… …", "… …", "a. …", "a ... .. …"] {
        let once = normalize_ocr_text(text);
        assert_eq!(normalize_ocr_text(&once), once, "{text:?}");
    }
}

#[test]
fn cold_start_waits_stable_duration() {
    let mut gate = StabilityGate::with_max_unstable(40, 0);
    let fp = OcrFingerprint::from_text("hello");
    assert!(matches!(gate.observe_at(fp, 0), StabilityOutcome::Changed));
    assert!(matches!(gate.observe_at(fp, 50 * MS), StabilityOutcome::Ready { .. }));
    assert!(matches!(gate.observe_at(fp, 50 * MS), StabilityOutcome::AlreadyEmitted { .. }));
}

#[test]
fn stable_duration_zero_ready_on_first_hit() {
    let mut gate = StabilityGate::with_max_unstable(0, 0);
    let fp = OcrFingerprint::from_text("hello");
    assert!(matches!(gate.observe(fp), StabilityOutcome::Ready { .. }));
    assert!(matches!(gate.observe(fp), StabilityOutcome::AlreadyEmitted { .. }));
}

#[test]
fn cold_start_after_reset_all_waits_duration() {
    let mut gate = StabilityGate::with_max_unstable(40, 0);
    let fp = OcrFingerprint::from_text("page");
    assert!(matches!(gate.observe_at(fp, 0), StabilityOutcome::Changed));
    assert!(matches!(gate.observe_at(fp, 50 * MS), StabilityOutcome::Ready { .. }));

    gate.reset_all();
    assert!(matches!(gate.observe_at(fp, 50 * MS), StabilityOutcome::Changed));
    assert!(matches!(gate.observe_at(fp, 100 * MS), StabilityOutcome::Ready { .. }));
}

#[test]
fn duration_alone_can_ready_when_min_hits_high() {
    let mut gate = StabilityGate::with_max_unstable(40, 0);
    gate.min_hits = 100;
    let fp = OcrFingerprint::from_text("hello");
    assert!(matches!(gate.observe_at(fp, 0), StabilityOutcome::Changed));
    assert!(matches!(gate.observe_at(fp, 50 * MS), StabilityOutcome::Ready { .. }));
}

#[test]
fn single_frame_blip_does_not_reset_active() {
    let mut gate = StabilityGate::with_max_unstable(0, 0);
    let a = OcrFingerprint::from_text("menu");
    let b = OcrFingerprint::from_text("noise");
    assert!(matches!(gate.observe(a), StabilityOutcome::Ready { .. }));
    assert!(matches!(gate.observe(b), StabilityOutcome::AlreadyEmitted { .. }));
    assert!(matches!(gate.observe(a), StabilityOutcome::AlreadyEmitted { .. }));
}

#[test]
fn sustained_change_switches_fingerprint() {
    let mut gate = StabilityGate::with_max_unstable(0, 0);
    let a = OcrFingerprint::from_text("old");
    let b = OcrFingerprint::from_text("new");
    assert!(matches!(gate.observe(a), StabilityOutcome::Ready { .. }));
    assert!(matches!(gate.observe(b), StabilityOutcome::AlreadyEmitted { .. }));
    assert!(matches!(gate.observe(b), StabilityOutcome::Ready { .. }));
}

#[test]
fn thrashing_force_ready_after_max_unstable() {
    let mut gate = StabilityGate::with_max_unstable(10_000, 80);
    gate.min_hits = 100;
    gate.switch_hits = 1;
    let a = OcrFingerprint::from_text("alpha");
    let b = OcrFingerprint::from_text("beta");

    assert!(matches!(gate.observe_at(a, 0), StabilityOutcome::Changed));
    assert!(matches!(gate.observe_at(b, 40 * MS), StabilityOutcome::Changed | StabilityOutcome::Waiting { .. }));
    assert!(matches!(
        gate.observe_at(a, 90 * MS),
        StabilityOutcome::Ready { fingerprint: fp, .. } if fp == a
    ));
}

#[test]
fn post_emit_thrash_force_ready_without_two_identical_hits() {
    let mut gate = StabilityGate::with_max_unstable(0, 90);
    let a = OcrFingerprint::from_text("line-a");
    let b = OcrFingerprint::from_text("line-b");

    assert!(matches!(gate.observe_at(a, 0), StabilityOutcome::Ready { .. }));
    assert!(matches!(gate.observe_at(b, 0), StabilityOutcome::AlreadyEmitted { .. }));
    assert!(matches!(gate.observe_at(a, 0), StabilityOutcome::AlreadyEmitted { .. }));
    assert!(matches!(gate.observe_at(b, 50 * MS), StabilityOutcome::AlreadyEmitted { .. }));
    assert!(matches!(
        gate.observe_at(b, 100 * MS),
        StabilityOutcome::Ready { fingerprint: fp, .. } if fp == b
    ));
}

#[test]
fn force_emit_bypasses_wait() {
    let mut gate = StabilityGate::with_max_unstable(10_000, 0);
    let fp = OcrFingerprint::from_text("now");
    assert!(matches!(gate.force_emit(fp), StabilityOutcome::Ready { elapsed_ms: 0, .. }));
}

#[test]
fn ready_reports_the_whole_wait() {
    let mut gate = StabilityGate::with_max_unstable(40, 0);
    let fp = OcrFingerprint::from_text("hello");
    let _ = gate.observe_at(fp, 7 * MS);
    assert!(matches!(gate.observe_at(fp, 50 * MS), StabilityOutcome::Ready { elapsed_ms: 43, .. }));
}

#[test]
fn fingerprint_ignores_ellipsis_length() {
    let a = OcrFingerprint::from_blocks(&vec![block("待って…")]);
    let b = OcrFingerprint::from_blocks(&vec![block("待って………")]);
    let c = OcrFingerprint::from_blocks(&vec![block("待って")]);
    let d = OcrFingerprint::from_text("……");
    let e = OcrFingerprint::from_text("………");
    assert_eq!(a, b);
    assert_eq!(a, c);
    assert_eq!(d, e);
}

#[test]
fn fingerprint_ignores_fullwidth_question() {
    let a = OcrFingerprint::from_blocks(&vec![block("何？")]);
    let b = OcrFingerprint::from_blocks(&vec![block("何?")]);
    assert_eq!(a, b);
}

#[test]
fn fingerprint_changes_with_text() {
    let a = OcrFingerprint::from_blocks(&vec![block("a")]);
    let b = OcrFingerprint::from_blocks(&vec![block("b")]);
    assert_ne!(a, b);
}

#[test]
fn fingerprint_ignores_bbox_jitter() {
    let a = OcrBlock { bbox: rect(10.0, 10.0, 100.0, 20.0), ..block("Hello") };
    let b = OcrBlock { bbox: rect(14.0, 18.0, 98.0, 22.0), ..block("Hello") };
    assert_eq!(OcrFingerprint::from_blocks(&vec![a]), OcrFingerprint::from_blocks(&vec![b]));
}

#[test]
fn fingerprint_ignores_block_order() {
    let a = block("one");
    let mut b = block("two");
    b.bbox.y = scalar(40.0);
    assert_eq!(
        OcrFingerprint::from_blocks(&vec![a.clone(), b.clone()]),
        OcrFingerprint::from_blocks(&vec![b, a])
    );
}

/// A trailing ellipsis goes, however it is spaced, unless the line is nothing else.
#[test]
fn no_trailing_ellipsis_is_left() {
    assert_eq!(normalize_ocr_text("a… …"), "a");
    assert_eq!(normalize_ocr_text("a ... ・・・ …"), "a");
    assert_eq!(normalize_ocr_text("a. …"), "a.");
    assert_eq!(normalize_ocr_text("… …"), "…");
    assert_eq!(normalize_ocr_text("... x …"), "… x");
}
