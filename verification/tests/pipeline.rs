//! The pipeline and the polling worker, driven by a host that does nothing.

use translator::config::AppConfig;
use translator::download::ModelLoadUpdate;
use translator::filter::TrackMeasure;
use translator::fingerprint::OcrFingerprint;
use translator::frame::CapturedFrame;
use translator::pipeline::command::{Action, OverlayCommand, OverlayEvent, PipelineCommand};
use translator::pipeline::ocr::{FrameStep, OcrStep, PollStep};
use translator::pipeline::translate::{CacheRequest, TranslateOutcome};
use translator::pipeline::worker::{CommandStep, PendingPage, Pipeline};
use translator::polling::{
    follow_captions, followed_captions_changed, takes_back_turn, PageOutcome, PollingCommand, PollingStep,
    PollingWorker,
};
use translator::scalar::Scalar;
use translator::session::CaptureTarget;
use translator::state::{AppState, PipelineStatus};
use translator::types::{ModelTier, NormRect, OcrBlock, Rect, RelayoutMeasure, TranslatedBlock};

const MS: u128 = 1_000_000;

fn scalar(v: f32) -> Scalar {
    Scalar::from_bits(v.to_bits())
}

fn rect(x: f32, y: f32) -> Rect {
    Rect::new(scalar(x), scalar(y), scalar(80.0), scalar(20.0))
}

fn block(id: u32, text: &str) -> OcrBlock {
    OcrBlock {
        id,
        text: text.to_string(),
        confidence: scalar(0.9),
        bbox: rect(10.0, 10.0 + 40.0 * id as f32),
        source_lines: 1,
    }
}

fn caption(source: &OcrBlock, translation: &str) -> TranslatedBlock {
    TranslatedBlock {
        id: source.id,
        source: source.text.clone(),
        translation: translation.to_string(),
        confidence: source.confidence,
        bbox: source.bbox,
        source_lines: source.source_lines,
    }
}

/// Every block is where every track is.
fn same_place() -> TrackMeasure {
    TrackMeasure {
        dx: scalar(0.0),
        dy: scalar(0.0),
        max_dx: scalar(48.0),
        max_dy: scalar(40.0),
        near_dx: scalar(20.0),
        near_dy: scalar(18.0),
        iou: scalar(1.0),
        score_same_text: scalar(3.0),
        score_other_text: scalar(1.5),
    }
}

fn config() -> AppConfig {
    let mut config = AppConfig::default();
    config.ocr.stable_duration_ms = 100;
    config.ocr.max_unstable_ms = 0;
    config.ocr.block_persist_ms = 0;
    config.ocr.block_max_miss_ms = 500;
    config
}

fn running() -> Pipeline {
    let mut p = Pipeline::idle(AppState::new(config()), true);
    p.on_capture_started(7, "Game".to_string(), 250, Some((800, 600)));
    p.engine_ready = true;
    p.take_actions();
    p
}

fn consume(p: &mut Pipeline, blocks: Vec<OcrBlock>, now: u128) -> Option<CacheRequest> {
    let boxes = p.boxes_to_measure(800, 600);
    let measures = blocks.iter().map(|_| boxes.iter().map(|_| same_place()).collect()).collect();
    p.consume_raw_ocr(blocks, 800, 600, &measures, now)
}

/// Read a page until it is asked for, and start its request.
fn request(p: &mut Pipeline, text: &str, now: u128) -> PendingPage {
    assert!(consume(p, vec![block(0, text)], now).is_none());
    let asked = consume(p, vec![block(0, text)], now + 150 * MS).expect("stable page");
    assert!(!asked.force);
    asked.page
}

fn send(p: &mut Pipeline, page: PendingPage) {
    let misses = page.blocks.clone();
    let hits = misses.iter().map(|_| None).collect();
    p.on_resolved(page, hits, misses, Vec::new(), 0, 3);
}

fn done(p: &Pipeline, text: &str) -> TranslateOutcome {
    let job = p.inflight.as_ref().expect("request runs");
    TranslateOutcome::Done {
        translated: job.blocks.iter().map(|b| caption(b, text)).collect(),
        translated_text: text.to_string(),
        cache_len: 1,
    }
}

fn translate(p: &mut Pipeline, text: &str, translation: &str, now: u128) {
    let page = request(p, text, now);
    send(p, page);
    let outcome = done(p, translation);
    p.finish_translate(outcome, Vec::new());
    p.take_actions();
}

fn overlay(actions: &[Action]) -> Vec<String> {
    actions
        .iter()
        .filter_map(|a| match a {
            Action::Overlay(OverlayCommand::Clear) => Some("clear".to_string()),
            Action::Overlay(OverlayCommand::Detach) => Some("detach".to_string()),
            Action::Overlay(OverlayCommand::CancelRegionSelect) => Some("cancel".to_string()),
            Action::Overlay(OverlayCommand::Attach { target_hwnd }) => Some(format!("attach {target_hwnd}")),
            Action::Overlay(OverlayCommand::SetBlocks { blocks, .. }) => Some(format!("show {}", blocks.len())),
            _ => None,
        })
        .collect()
}

#[test]
fn new_pipeline_asks_for_models_once() {
    let mut p = Pipeline::new(AppState::new(config()), false);
    let actions = p.take_actions();
    assert!(matches!(actions[..], [Action::StartModelLoad(_), Action::SyncModelLoad]));
    assert_eq!(p.model_load, Some(ModelTier::default()));
    p.start_model_load();
    assert!(matches!(p.take_actions()[..], [Action::SyncModelLoad]), "one load at a time");
}

#[test]
fn load_of_another_tier_is_followed_by_the_configured_one() {
    let mut p = Pipeline::new(AppState::new(config()), false);
    p.take_actions();
    let first = p.state.config.ocr.model_tier;
    let other = if first == ModelTier::Tiny { ModelTier::Medium } else { ModelTier::Tiny };
    p.state.config.ocr.model_tier = other;
    p.sync_model_load(ModelLoadUpdate::Ready, true);
    assert!(!p.engine_ready);
    assert_eq!(p.model_load, Some(other));
    p.take_actions();
    p.sync_model_load(ModelLoadUpdate::Ready, true);
    assert!(p.engine_ready);
    assert_eq!(p.model_load, None);
    assert!(p.take_actions().iter().any(|a| matches!(a, Action::InstallEngine)));
}

#[test]
fn failed_load_is_shown() {
    let mut p = Pipeline::new(AppState::new(config()), false);
    p.sync_model_load(ModelLoadUpdate::Failed("no net".to_string()), true);
    assert_eq!(p.state.status, PipelineStatus::Error { message: "models: no net".to_string() });
    let mut p = Pipeline::new(AppState::new(config()), false);
    p.sync_model_load(ModelLoadUpdate::Loading, false);
    assert_eq!(p.state.status, PipelineStatus::LoadingModels);
    p.sync_model_load(ModelLoadUpdate::Loading, true);
    assert_eq!(
        p.state.status,
        PipelineStatus::Error { message: "models: load task ended unexpectedly".to_string() }
    );
}

#[test]
fn capture_start_clears_and_attaches_the_overlay() {
    let mut p = Pipeline::idle(AppState::new(config()), true);
    let start = || PipelineCommand::StartCapture { hwnd: 7, title: "Game".to_string() };
    assert!(matches!(p.handle_command(start()), CommandStep::Done));
    assert_eq!(p.state.last_error.as_deref(), Some("OCR engine is not ready"));
    p.model_load = Some(ModelTier::Small);
    assert!(matches!(p.handle_command(start()), CommandStep::Done));
    assert_eq!(p.state.last_error.as_deref(), Some("OCR models are still downloading or loading"));
    p.model_load = None;
    p.engine_ready = true;
    match p.handle_command(start()) {
        CommandStep::StartCapture { hwnd, title, min_interval_ms } => {
            assert_eq!((hwnd, title.as_str()), (7, "Game"));
            assert_eq!(min_interval_ms, config().capture.min_interval_ms);
        }
        other => panic!("{other:?}"),
    }
    p.take_actions();
    p.on_capture_started(7, "Game".to_string(), 250, None);
    assert_eq!(overlay(&p.take_actions()), ["clear", "attach 7"]);
    assert_eq!(p.state.status, PipelineStatus::Capturing);
    assert_eq!(p.state.target_hwnd, Some(7));
    assert!(p.state.auto_running);
    p.on_capture_failed("no window".to_string());
    assert!(p.state.status.is_error());
}

#[test]
fn page_is_translated_once_it_is_stable() {
    let mut p = running();
    let page = request(&mut p, "hello", 0);
    assert_eq!(page.source_text, "hello");
    assert!(p.take_actions().iter().any(|a| matches!(a, Action::UpdateClient(_))));
    send(&mut p, page);
    assert!(p.state.translate_in_flight);
    assert_eq!(p.state.status, PipelineStatus::Translating);
    assert!(matches!(p.take_actions()[..], [Action::SpawnTranslate]));
    assert!(p.next_wait(false).is_none(), "nothing is read while a request runs");
    let outcome = done(&p, "hallo");
    p.finish_translate(outcome, Vec::new());
    assert!(!p.state.translate_in_flight);
    assert_eq!(p.state.status, PipelineStatus::OverlayActive);
    assert_eq!(p.state.latest_translated_blocks[0].translation, "hallo");
    assert_eq!(p.state.history[0].source_text, "hello");
    assert_eq!(p.state.history[0].translated_text, "hallo");
    let actions = p.take_actions();
    assert!(matches!(actions[0], Action::CommitTurn));
    assert_eq!(overlay(&actions), ["attach 7", "show 1"]);
    assert!(consume(&mut p, vec![block(0, "hello")], 400 * MS).is_none(), "the page is not sent again");
    assert_eq!(p.state.status, PipelineStatus::OverlayActive);
}

#[test]
fn translated_page_is_repeated_only_when_forced() {
    let mut p = running();
    translate(&mut p, "hello", "hallo", 0);
    let page = || PendingPage {
        blocks: vec![block(0, "hello")],
        source_text: "hello".to_string(),
        fingerprint: OcrFingerprint::from_text("hello"),
        content_width: 800,
        content_height: 600,
    };
    p.last_translated_fp = Some(page().fingerprint);
    assert!(p.start_translate(page(), false).is_none());
    assert!(p.start_translate(page(), true).expect("forced").force);
    send(&mut p, page());
    assert!(p.start_translate(page(), true).is_none(), "one request at a time");
}

#[test]
fn empty_page_clears_the_overlay() {
    let mut p = running();
    translate(&mut p, "hello", "hallo", 0);
    let page = PendingPage {
        blocks: vec![block(0, "  ")],
        source_text: "  ".to_string(),
        fingerprint: OcrFingerprint::from_text("  "),
        content_width: 800,
        content_height: 600,
    };
    assert!(p.start_translate(page, true).is_none());
    assert_eq!(overlay(&p.take_actions()), ["clear"]);
    assert!(p.state.latest_translated_blocks.is_empty());
}

#[test]
fn remembered_texts_need_no_request() {
    let mut p = running();
    let page = request(&mut p, "hello", 0);
    let known = vec![caption(&page.blocks[0], "hallo")];
    p.take_actions();
    p.on_resolved(page, vec![Some("hallo".to_string())], Vec::new(), known, 4, 0);
    assert!(p.inflight.is_none());
    assert_eq!(p.state.translation_cache_len, 4);
    assert_eq!(overlay(&p.take_actions()), ["attach 7", "show 1"]);
}

#[test]
fn unfinished_request_takes_back_its_turn() {
    for (outcome, message) in [
        (TranslateOutcome::Failed("timeout".to_string()), Some("translate: timeout")),
        (TranslateOutcome::BadReply("no json".to_string()), Some("translate parse: no json")),
        (TranslateOutcome::Cancelled, None),
    ] {
        let mut p = running();
        let page = request(&mut p, "hello", 0);
        send(&mut p, page);
        let before = vec![caption(&block(0, "hello"), "old")];
        p.inflight.as_mut().unwrap().revert_blocks = before.clone();
        p.take_actions();
        p.finish_translate(outcome, Vec::new());
        let actions = p.take_actions();
        assert!(matches!(actions[0], Action::RollbackTurn));
        assert_eq!(overlay(&actions), ["attach 7", "show 1"]);
        assert_eq!(p.state.latest_translated_blocks[0].translation, "old");
        assert!(p.inflight.is_none());
        assert_eq!(p.state.last_error.as_deref(), message);
    }
}

#[test]
fn attention_is_asked_for_once_until_a_success() {
    let mut p = running();
    let flashes = |p: &mut Pipeline, outcome: TranslateOutcome, text: &str, now: u128| {
        let page = request(p, text, now);
        send(p, page);
        p.take_actions();
        p.finish_translate(outcome, Vec::new());
        p.take_actions().iter().filter(|a| matches!(a, Action::FlashTaskbar)).count()
    };
    let failed = || TranslateOutcome::Failed("down".to_string());
    assert_eq!(flashes(&mut p, failed(), "page one", 0), 1);
    assert_eq!(flashes(&mut p, failed(), "quite another", 1000 * MS), 0);
    translate(&mut p, "something else", "etwas anderes", 2000 * MS);
    assert_eq!(flashes(&mut p, failed(), "the fourth page", 3000 * MS), 1);
}

#[test]
fn retry_is_shown_with_its_reason() {
    let mut p = running();
    p.on_translate_retry(1, 3, "timeout".to_string());
    assert_eq!(p.state.status.label(), "Retrying translation (1/3)");
    assert_eq!(p.state.last_error.as_deref(), Some("timeout"));
}

#[test]
fn streamed_pairs_fill_the_captions() {
    let mut p = running();
    assert!(p.begin_stream_preview(&vec![(0, "x".to_string())]).is_none(), "no request runs");
    let page = request(&mut p, "hello", 0);
    send(&mut p, page);
    let (blocks, hits) = p.begin_stream_preview(&vec![(0, "hal".to_string()), (9, "x".to_string())]).unwrap();
    assert_eq!(hits, [Some("hal".to_string())]);
    p.take_actions();
    p.apply_stream_preview(vec![caption(&blocks[0], "hal")]);
    assert_eq!(overlay(&p.take_actions()), ["attach 7", "show 1"]);
    assert_eq!(p.state.status, PipelineStatus::Translating, "the request still runs");
}

#[test]
fn stopping_leaves_no_page_and_keeps_the_history() {
    let mut p = running();
    translate(&mut p, "hello", "hallo", 0);
    let page = request(&mut p, "another page", 1000 * MS);
    send(&mut p, page);
    p.take_actions();
    assert!(matches!(p.handle_command(PipelineCommand::StopCapture), CommandStep::Done));
    let actions = p.take_actions();
    assert_eq!(overlay(&actions), ["cancel", "detach", "clear"]);
    assert!(actions.iter().any(|a| matches!(a, Action::CancelJob)));
    assert!(actions.iter().any(|a| matches!(a, Action::RollbackTurn)));
    assert!(actions.iter().any(|a| matches!(a, Action::StopStream)));
    assert!(p.inflight.is_none() && p.last_page.is_none() && p.session.stream.is_none());
    assert!(p.state.latest_ocr_blocks.is_empty() && p.state.latest_translated_blocks.is_empty());
    assert_eq!(p.state.status, PipelineStatus::Idle);
    assert_eq!(p.state.history.len(), 1);
    assert_eq!(p.state.translation_cache_len, 1);
}

#[test]
fn blank_screen_keeps_captions_for_the_grace() {
    let mut config = config();
    config.ocr.block_persist_ms = 50;
    let mut p = Pipeline::idle(AppState::new(config), true);
    p.on_capture_started(7, "Game".to_string(), 250, Some((800, 600)));
    assert!(consume(&mut p, vec![block(0, "hello")], 0).is_none());
    assert!(p.state.status.is_waiting());
    assert!(consume(&mut p, vec![block(0, "hello")], 100 * MS).is_none());
    let page = consume(&mut p, vec![block(0, "hello")], 300 * MS).expect("stable page").page;
    send(&mut p, page);
    let outcome = done(&p, "hallo");
    p.finish_translate(outcome, Vec::new());
    p.take_actions();
    assert!(consume(&mut p, Vec::new(), 400 * MS).is_none());
    assert_eq!(p.state.latest_translated_blocks.len(), 1, "captions outlive their text");
    p.maybe_expire_raw_empty(899 * MS);
    assert_eq!(p.state.latest_translated_blocks.len(), 1);
    p.expire_pending(900 * MS);
    assert!(p.state.latest_translated_blocks.is_empty());
    assert!(p.persist.tracks.is_empty() && p.last_page.is_none());
    assert_eq!(overlay(&p.take_actions()).last().map(String::as_str), Some("clear"));
}

#[test]
fn captions_go_with_their_text() {
    let mut p = running();
    translate(&mut p, "hello", "hallo", 0);
    p.apply_sticky_overlay(&vec![block(0, "hello")], 800, 600, 500 * MS);
    assert_eq!(p.state.latest_translated_blocks.len(), 1);
    p.apply_sticky_overlay(&vec![block(0, "goodbye")], 800, 600, 600 * MS);
    assert!(p.state.latest_translated_blocks.is_empty());
    assert_eq!(overlay(&p.take_actions()), ["clear"]);
}

#[test]
fn other_regions_forget_the_page() {
    let mut p = running();
    translate(&mut p, "hello", "hallo", 0);
    let region = NormRect { x: scalar(0.1), y: scalar(0.1), width: scalar(0.5), height: scalar(0.5) };
    p.apply_overlay_event(OverlayEvent::RegionsCommitted(vec![Some(region), None]));
    assert_eq!(p.regions(), [region]);
    assert!(p.last_page.is_none() && p.last_raw_ocr.is_none() && p.last_translated_fp.is_none());
    assert!(p.state.latest_translated_blocks.is_empty());
    assert!(!p.state.region_select_active);
    assert_eq!(overlay(&p.take_actions()), ["clear"]);
}

fn frame(sequence: u64) -> CapturedFrame {
    CapturedFrame::new(2, 1, vec![sequence as u8; 8], sequence)
}

#[test]
fn renumbered_stream_publishes_higher_sequences() {
    let mut p = running();
    p.update_preview(&frame(5));
    assert_eq!(p.state.preview.sequence, 5);
    p.on_stream_restarted(CaptureTarget { hwnd: 7, title: "Game".to_string() }, Some((2, 1)));
    p.update_preview(&frame(1));
    assert_eq!(p.state.preview.sequence, 6);
    assert_eq!(p.state.preview.rgba.as_deref(), Some(&[1u8; 8][..]));
}

/// Each restart adds what was published last to the bias.
#[test]
fn every_restart_raises_the_bias() {
    let mut p = running();
    let restart = |p: &mut Pipeline| {
        p.on_stream_restarted(CaptureTarget { hwnd: 7, title: "Game".to_string() }, Some((2, 1)));
    };
    p.update_preview(&frame(5));
    restart(&mut p);
    p.update_preview(&frame(5));
    assert_eq!((p.preview_seq_bias, p.state.preview.sequence), (5, 10));
    restart(&mut p);
    p.update_preview(&frame(1));
    assert_eq!((p.preview_seq_bias, p.state.preview.sequence), (15, 16));
    let mut last = 16;
    for _ in 0..200 {
        restart(&mut p);
        p.update_preview(&frame(1));
        assert!(p.state.preview.sequence > last || last == u64::MAX);
        last = p.state.preview.sequence;
    }
    assert_eq!((p.preview_seq_bias, last), (u64::MAX, u64::MAX));
}

/// A request that is dropped is not in flight any more.
#[test]
fn dropped_request_is_not_in_flight() {
    let mut p = running();
    let page = request(&mut p, "hello", 0);
    send(&mut p, page);
    let mut cfg = config();
    cfg.api.model = "another-model".to_string();
    p.handle_command(PipelineCommand::ApplyConfig(Box::new(cfg)));
    assert!(p.inflight.is_none() && !p.state.translate_in_flight);

    let mut p = running();
    let page = request(&mut p, "hello", 0);
    send(&mut p, page);
    p.handle_command(PipelineCommand::StartCapture { hwnd: 8, title: "Gone".to_string() });
    p.on_capture_failed("invalid hwnd".to_string());
    assert!(p.inflight.is_none() && !p.state.translate_in_flight);
}

/// The same settings with the same model leave a running request alone.
#[test]
fn request_outlives_settings_of_the_same_model() {
    let mut p = running();
    let page = request(&mut p, "hello", 0);
    send(&mut p, page);
    let same = p.state.config.clone();
    p.handle_command(PipelineCommand::ApplyConfig(Box::new(same)));
    assert!(p.inflight.is_some() && p.state.translate_in_flight);
}

#[test]
fn unchanged_frame_is_not_read_again() {
    let mut p = running();
    assert!(matches!(p.next_frame(None), FrameStep::NoFrame));
    let stream = p.session.stream.as_mut().unwrap();
    stream.on_frame_arrived(false, 2, 1, vec![1; 8]);
    let shown = match p.next_frame(None) {
        FrameStep::Frame(f) => f,
        other => panic!("{other:?}"),
    };
    assert!(matches!(p.run_ocr_auto(&shown, &Vec::new()), OcrStep::Infer));
    assert_eq!(p.state.status, PipelineStatus::RunningOcr);
    assert_eq!(p.on_ocr(&shown, &Vec::new(), Ok(vec![block(0, "hi")]), 12).unwrap().len(), 1);
    assert_eq!(p.state.last_ocr_ms, Some(12));
    assert!(matches!(p.next_frame(None), FrameStep::Stale { width: 2, height: 1, .. }));
    p.session.stream.as_mut().unwrap().on_frame_arrived(false, 2, 1, vec![1; 8]);
    let again = match p.next_frame(None) {
        FrameStep::Frame(f) => f,
        other => panic!("{other:?}"),
    };
    assert!(matches!(p.run_ocr_auto(&again, &Vec::new()), OcrStep::Cached(b) if b[0].text == "hi"));
    assert!(p.on_ocr(&again, &Vec::new(), Err("broken".to_string()), 1).is_none());
    assert!(p.state.status.is_error());
}

#[test]
fn resized_window_restarts_the_stream() {
    let mut p = running();
    assert!(matches!(p.poll_capture(true), PollStep::Wait), "the stream has ended");
    assert!(matches!(p.poll_capture(false), PollStep::Ready));
    p.session.resize.pending = true;
    assert!(matches!(p.poll_capture(false), PollStep::Restart(t) if t.hwnd == 7));
}

#[test]
fn settings_changes_reach_client_and_overlay() {
    let mut p = running();
    let mut changed = config();
    changed.api.model = "other-model".to_string();
    let step = p.handle_command(PipelineCommand::ApplyConfig(Box::new(changed.clone())));
    assert!(matches!(step, CommandStep::SaveConfig(c) if c.api.model == "other-model"));
    let actions = p.take_actions();
    assert!(actions.iter().any(|a| matches!(a, Action::ClearConversation)), "another model knows nothing");
    assert!(actions.iter().any(|a| matches!(a, Action::UpdateClient(c) if c.model == "other-model")));
    assert!(actions.iter().any(|a| matches!(a, Action::Overlay(OverlayCommand::UpdateConfig(_)))));
    p.finish_apply_config(changed, Ok(()), 0);
    assert_eq!(p.state.config.api.model, "other-model");
    assert_eq!(p.state.settings_message.as_deref(), Some("Saved"));
    assert!(p.take_actions().iter().any(|a| matches!(a, Action::ConfigureEngine(_))));
    p.finish_apply_config(config(), Err("disk full".to_string()), 0);
    assert_eq!(p.state.last_error.as_deref(), Some("save config: disk full"));
}

#[test]
fn shutdown_ends_the_worker() {
    let mut p = running();
    assert!(matches!(p.handle_command(PipelineCommand::Shutdown), CommandStep::Shutdown));
}

fn polling() -> PollingWorker {
    let mut w = PollingWorker::new(AppState::new(config()), true, true);
    w.on_started(CaptureTarget { hwnd: 7, title: "Game".to_string() });
    w.core.engine_ready = true;
    w.core.take_actions();
    w
}

fn page(text: &str) -> PendingPage {
    PendingPage {
        blocks: vec![block(0, text)],
        source_text: text.to_string(),
        fingerprint: OcrFingerprint::from_text(text),
        content_width: 800,
        content_height: 600,
    }
}

#[test]
fn failed_page_is_sent_again_on_retry() {
    let mut w = polling();
    w.core.last_page = Some(page("hello"));
    w.start_translate(page("hello"), true);
    assert!(w.job.is_some());
    w.finish_translate(PageOutcome::Failed("timeout".to_string()));
    assert!(w.job.is_none() && w.can_retry);
    assert_eq!(w.core.state.last_error.as_deref(), Some("translate: timeout"));
    assert!(matches!(w.handle_command(PollingCommand::RetryTranslate), PollingStep::Done));
    assert_eq!(w.job.as_ref().map(|j| j.source_text.as_str()), Some("hello"));
    w.finish_translate(PageOutcome::Done {
        translated: vec![caption(&block(0, "hello"), "hallo")],
        translated_text: "hallo".to_string(),
    });
    assert_eq!(w.core.state.latest_translated_blocks[0].translation, "hallo");
    assert_eq!(w.core.state.status, PipelineStatus::OverlayActive);
}

#[test]
fn static_window_is_read_again_after_the_interval() {
    let mut w = polling();
    let interval = config().capture.min_interval_ms as u128;
    assert!(w.capture_turn(true, None, 0).is_none());
    assert_eq!(w.capture_turn(true, Some(frame(1)), MS).map(|f| f.sequence), Some(1));
    assert!(w.capture_turn(true, None, 2 * MS).is_none());
    assert_eq!(w.capture_turn(true, None, (1 + interval) * MS).map(|f| f.sequence), Some(1));
    assert!(w.capture_turn(false, Some(frame(2)), 9000 * MS).is_none());
}

#[test]
fn frame_without_engine_is_only_previewed() {
    let mut w = polling();
    w.core.engine_ready = false;
    assert!(w.capture_turn(true, Some(frame(3)), 0).is_none());
    assert_eq!(w.core.state.status, PipelineStatus::Capturing);
    assert_eq!(w.core.state.preview.sequence, 3);
}

#[test]
fn polling_commands_name_the_next_step() {
    let mut w = polling();
    let step = w.handle_command(PollingCommand::StartCapture { hwnd: 3, title: "Other".to_string() });
    assert!(matches!(step, PollingStep::StartWindow { hwnd: 3, .. }));
    assert!(matches!(w.handle_command(PollingCommand::StartForeground), PollingStep::StartForeground { .. }));
    assert!(matches!(w.handle_command(PollingCommand::Shutdown), PollingStep::Shutdown));
}

fn relayout(iou: f32, dx: f32) -> RelayoutMeasure {
    RelayoutMeasure {
        width_ratio: scalar(1.0),
        height_ratio: scalar(1.0),
        iou: scalar(iou),
        dx: scalar(dx),
        dy: scalar(0.0),
        tol_x: scalar(20.0),
        tol_y: scalar(20.0),
    }
}

#[test]
fn captions_keep_their_box_under_jitter() {
    let before = vec![caption(&block(0, "hello"), "hallo")];
    let mut moved = block(0, "hello");
    moved.bbox = rect(13.0, 10.0);
    let now = vec![moved.clone()];
    let still = follow_captions(&before, &now, &vec![vec![relayout(0.93, 3.0)]], true);
    assert_eq!(still[0].bbox, before[0].bbox);
    assert!(!followed_captions_changed(&before, &still));
    let free = follow_captions(&before, &now, &vec![vec![relayout(0.93, 3.0)]], false);
    assert_eq!(free[0].bbox, moved.bbox);
    assert!(followed_captions_changed(&before, &free));
    assert!(follow_captions(&before, &vec![block(0, "other")], &vec![vec![relayout(1.0, 0.0)]], true).is_empty());
}

#[test]
fn only_the_last_user_turn_is_taken_back() {
    assert!(takes_back_turn(3, 3, true));
    assert!(!takes_back_turn(3, 3, false));
    assert!(!takes_back_turn(4, 3, true));
}

#[test]
fn aborted_page_is_not_in_flight() {
    let mut w = polling();
    w.start_translate(page("hello"), true);
    assert!(w.core.state.translate_in_flight);
    w.handle_command(PollingCommand::StartCapture { hwnd: 3, title: "Gone".to_string() });
    w.on_failed("invalid hwnd".to_string());
    assert!(w.job.is_none() && !w.core.state.translate_in_flight);
}

#[test]
fn polling_engine_is_taken_or_its_error_shown() {
    let mut w = PollingWorker::new(AppState::new(config()), true, true);
    w.on_first_models(Err("no net".to_string()));
    assert_eq!(w.core.state.last_error.as_deref(), Some("models: no net"));
    assert!(!w.on_manual_models(Err("no file".to_string())) && !w.core.engine_ready);
    assert_eq!(w.core.state.last_error.as_deref(), Some("OCR: no file"));
    assert!(w.on_manual_models(Ok(())) && w.core.engine_ready);
    let mut w = PollingWorker::new(AppState::new(config()), true, true);
    w.on_first_models(Ok(()));
    assert!(w.core.engine_ready);
}

#[test]
fn one_shot_capture_attaches_the_overlay() {
    let mut w = PollingWorker::new(AppState::new(config()), true, true);
    w.core.take_actions();
    w.on_one_shot(CaptureTarget { hwnd: 9, title: "Once".to_string() });
    assert_eq!(overlay(&w.core.take_actions()), ["attach 9"]);
    assert_eq!(w.core.state.target_hwnd, Some(9));
    assert_eq!(w.core.state.target_window_title.as_deref(), Some("Once"));
}
