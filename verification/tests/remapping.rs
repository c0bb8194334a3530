//! Captions that follow the OCR text.

use translator::remap::{remap_translations_to_ocr, translated_geometry_changed};
use translator::scalar::Scalar;
use translator::types::{OcrBlock, Rect, TranslatedBlock};

fn scalar(v: f32) -> Scalar {
    Scalar::from_bits(v.to_bits())
}

fn rect(x: f32, y: f32, w: f32, h: f32) -> Rect {
    Rect::new(scalar(x), scalar(y), scalar(w), scalar(h))
}

fn ocr(text: &str, bbox: Rect) -> OcrBlock {
    OcrBlock { id: 0, text: text.to_string(), confidence: scalar(0.9), bbox, source_lines: 1 }
}

fn translated(source: &str, translation: &str, bbox: Rect) -> TranslatedBlock {
    TranslatedBlock {
        id: 0,
        source: source.to_string(),
        translation: translation.to_string(),
        confidence: scalar(0.9),
        bbox,
        source_lines: 1,
    }
}

fn keeps_size_when_same_source_grows() {
    let prev_box = rect(100.0, 200.0, 80.0, 24.0);
    let wider = rect(100.0, 200.0, 160.0, 24.0);
    let prior = vec![translated("セリフ", "line", prev_box)];
    let now = vec![ocr("セリフ", wider)];
    let out = remap_translations_to_ocr(&prior, &now, false);
    assert_eq!(out.len(), 1);
    assert_eq!(out[0].translation, "line");
    assert_eq!(out[0].bbox, prev_box);
}

#[test]
fn remap_remap_keeps_size_when_same_source_grows() {
    keeps_size_when_same_source_grows();
}

#[test]
fn worker_remap_keeps_size_when_same_source_grows() {
    keeps_size_when_same_source_grows();
}

fn freezes_box_until_retranslate() {
    let prev_box = rect(100.0, 200.0, 180.0, 28.0);
    let moved = rect(100.0, 320.0, 180.0, 28.0);
    let prior = vec![translated("menu", "選單", prev_box)];
    let now = vec![ocr("menu", moved)];
    let out = remap_translations_to_ocr(&prior, &now, false);
    assert_eq!(out.len(), 1);
    assert_eq!(out[0].bbox, prev_box, "same source must not walk the caption");
}

#[test]
fn remap_remap_freezes_box_until_retranslate() {
    freezes_box_until_retranslate();
}

#[test]
fn worker_remap_freezes_box_until_retranslate() {
    freezes_box_until_retranslate();
}

fn drops_caption_when_source_differs() {
    let box_a = rect(100.0, 200.0, 80.0, 24.0);
    let box_b = rect(98.0, 198.0, 160.0, 26.0);
    let prior = vec![translated("セリフ", "old line", box_a)];
    let now = vec![ocr("次の台詞", box_b)];
    let out = remap_translations_to_ocr(&prior, &now, false);
    assert!(out.is_empty(), "different source must not reuse the caption");
}

#[test]
fn remap_remap_drops_caption_when_source_differs() {
    drops_caption_when_source_differs();
}

#[test]
fn worker_remap_drops_caption_when_source_differs() {
    drops_caption_when_source_differs();
}

fn adopts_ocr_box_after_content_resize() {
    let prev_box = rect(50.0, 80.0, 100.0, 20.0);
    let scaled = rect(75.0, 120.0, 150.0, 30.0);
    let prior = vec![translated("hello", "你好", prev_box)];
    let now = vec![ocr("hello", scaled)];
    let out = remap_translations_to_ocr(&prior, &now, true);
    assert_eq!(out.len(), 1);
    assert_eq!(out[0].bbox, scaled);
}

#[test]
fn remap_remap_adopts_ocr_box_after_content_resize() {
    adopts_ocr_box_after_content_resize();
}

#[test]
fn worker_remap_adopts_ocr_box_after_content_resize() {
    adopts_ocr_box_after_content_resize();
}

#[test]
fn remap_hits_across_ellipsis_length() {
    let prev_box = rect(100.0, 200.0, 80.0, 22.0);
    let wider = rect(96.0, 198.0, 170.0, 26.0);
    let prior = vec![translated("待って…", "等等", prev_box)];
    let now = vec![ocr("待って………", wider)];
    let out = remap_translations_to_ocr(&prior, &now, false);
    assert_eq!(out.len(), 1);
    assert_eq!(out[0].translation, "等等");
    assert_eq!(out[0].bbox, prev_box);
    assert!(!translated_geometry_changed(&prior, &out));
}

#[test]
fn remap_hits_across_fullwidth_question() {
    let prev_box = rect(100.0, 200.0, 80.0, 22.0);
    let jitter = rect(102.0, 201.0, 76.0, 20.0);
    let prior = vec![translated("何？", "什麼？", prev_box)];
    let now = vec![ocr("何?", jitter)];
    let out = remap_translations_to_ocr(&prior, &now, false);
    assert_eq!(out.len(), 1);
    assert_eq!(out[0].bbox, prev_box);
    assert!(!translated_geometry_changed(&prior, &out));
}

/// A caption answers one OCR line only, and keeps the number of the line it answers.
#[test]
fn repeated_line_needs_a_caption_of_its_own() {
    let at = rect(0.0, 0.0, 10.0, 10.0);
    let prior = vec![translated("a", "one", at), translated("a", "two", at)];
    let out = remap_translations_to_ocr(&prior, &vec![ocr("x", at), ocr("a", at), ocr("a", at), ocr("a", at)], false);
    assert_eq!(out.iter().map(|b| (b.id, b.translation.as_str())).collect::<Vec<_>>(), vec![(1, "one"), (2, "two")]);
}

#[test]
fn geometry_changes_with_count_text_or_box() {
    let at = rect(0.0, 0.0, 10.0, 10.0);
    let prior = vec![translated("a", "one", at), translated("b", "two", at)];
    let swapped = vec![translated("b", "two", at), translated("a", "one", at)];
    assert!(!translated_geometry_changed(&prior, &swapped));
    assert!(translated_geometry_changed(&prior, &vec![translated("a", "one", at)]));
    let moved = vec![translated("a", "one", rect(1.0, 0.0, 10.0, 10.0)), translated("b", "two", at)];
    assert!(translated_geometry_changed(&prior, &moved));
}

/// Captions that show the same text in other boxes are told apart.
#[test]
fn repeated_captions_are_no_change_to_themselves() {
    let (left, right) = (rect(0.0, 0.0, 10.0, 10.0), rect(50.0, 0.0, 10.0, 10.0));
    let prior = vec![translated("OK", "好", left), translated("OK", "好", right)];
    assert!(!translated_geometry_changed(&prior, &prior));
    let swapped = vec![translated("OK", "好", right), translated("OK", "好", left)];
    assert!(!translated_geometry_changed(&prior, &swapped));
    let doubled = vec![translated("OK", "好", left), translated("OK", "好", left)];
    assert!(translated_geometry_changed(&prior, &doubled));
    assert!(translated_geometry_changed(&doubled, &prior));
    let found = remap_translations_to_ocr(&prior, &vec![ocr("OK", right), ocr("OK", left)], false);
    assert_eq!(found.len(), 2);
    assert!(!translated_geometry_changed(&prior, &found));
}

#[test]
fn two_texts_are_not_answered_by_one() {
    let at = rect(0.0, 0.0, 10.0, 10.0);
    let both = vec![translated("x", "one", at), translated("y", "two", at)];
    let twice = vec![translated("x", "one", at), translated("x", "one", at)];
    assert!(translated_geometry_changed(&both, &twice));
    assert!(translated_geometry_changed(&twice, &both));
}
