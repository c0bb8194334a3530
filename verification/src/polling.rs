//! Polling worker: a loop that looks for commands, finished requests and frames in turn.
//!
//! It shares state, gate, filter and overlay with [`crate::pipeline`]. It reads every new frame,
//! reads the last one again on the capture interval, sends whole pages without a cache, and lets
//! captions follow detector boxes except for jitter.

use crate::clock::{has_lasted, lasted};
use crate::config::{ApiConfig, AppConfig, OcrConfig};
use crate::engine::blocks_to_text;
use crate::filter::{measured, rows, Persistence, Track, TrackMeasure};
use crate::fingerprint::{page_fingerprint, OcrFingerprint};
use crate::frame::{bytes_clone, bytes_of, CapturedFrame, FrameView};
use crate::normalize::{collapse, normalize_match_text};
use crate::pipeline::command::{Action, Effect, OverlayCommand, OverlayOrder};
use crate::pipeline::ocr::{or_now, since_or_now};
use crate::pipeline::translate::has_text;
use crate::pipeline::worker::{
    optional_view, pipeline_view, Page, PendingPage, Pipeline, PipelineView,
};
use crate::session::CaptureTarget;
use crate::stability::StabilityOutcome;
use crate::state::{app_view, AppState, AppView, PipelineStatus, PreviewView, StatusView};
use crate::text::{joined, owned, trimmed};
use crate::types::{copy_blocks, OcrBlock, Rect, RelayoutMeasure, TranslatedBlock};
use vstd::prelude::*;

verus! {

/// Commands the UI sends to the polling worker.
#[derive(Debug)]
pub enum PollingCommand {
    StartCapture { hwnd: isize, title: String },
    StartForeground,
    StopCapture,
    /// Grab one frame and OCR + translate immediately (bypass stability wait).
    ManualCapture,
    SetShowPreview(bool),
    /// Drop LLM conversation history (keeps OCR models).
    ResetConversation,
    /// Apply a full config snapshot (saved from the settings UI).
    ApplyConfig { config: Box<AppConfig>, show_preview: bool },
    /// Cancel the in-flight translation request (if any).
    CancelTranslate,
    /// Re-run translation on the latest page.
    RetryTranslate,
    Shutdown,
}

/// What the host does next after a command.
#[derive(Debug)]
pub enum PollingStep {
    Done,
    /// The worker is to end.
    Shutdown,
    /// Start a capture of the window, then report [`PollingWorker::on_started`] or
    /// [`PollingWorker::on_failed`].
    StartWindow { hwnd: isize, title: String, min_interval_ms: u64 },
    /// Start a capture of the foreground window, then report as above.
    StartForeground { min_interval_ms: u64 },
    /// Grab a frame, after loading the engine if it is missing, then report
    /// [`PollingWorker::on_manual_frame`].
    ManualCapture { load_engine: bool },
    /// Save the config, then report [`PollingWorker::finish_apply_config`].
    SaveConfig(Box<AppConfig>),
    /// Save the current config.
    SaveShowPreview,
}

/// A step as a plain value.
pub enum PollingRequest {
    Done,
    Shutdown,
    StartWindow { hwnd: isize, title: Seq<char>, min_interval_ms: u64 },
    StartForeground { min_interval_ms: u64 },
    ManualCapture { load_engine: bool },
    SaveConfig(AppConfig),
    SaveShowPreview,
}

impl View for PollingStep {
    type V = PollingRequest;

    open spec fn view(&self) -> PollingRequest {
        match *self {
            PollingStep::Done => PollingRequest::Done,
            PollingStep::Shutdown => PollingRequest::Shutdown,
            PollingStep::StartWindow { hwnd, title, min_interval_ms } =>
            PollingRequest::StartWindow { hwnd, title: title@, min_interval_ms },
            PollingStep::StartForeground { min_interval_ms } => PollingRequest::StartForeground {
                min_interval_ms,
            },
            PollingStep::ManualCapture { load_engine } => PollingRequest::ManualCapture {
                load_engine,
            },
            PollingStep::SaveConfig(cfg) => PollingRequest::SaveConfig(*cfg),
            PollingStep::SaveShowPreview => PollingRequest::SaveShowPreview,
        }
    }
}

/// How a request of the polling worker ended.
#[derive(Debug)]
pub enum PageOutcome {
    Done { translated: Vec<TranslatedBlock>, translated_text: String },
    /// The reply could not be read.
    BadReply(String),
    Cancelled,
    Failed(String),
}

/// A user turn is taken back only if it is the last message and the one that the request added.
pub fn takes_back_turn(messages: usize, after_user: usize, last_is_user: bool) -> (r: bool)
    ensures
        r == (messages == after_user && last_is_user),
{
    messages == after_user && last_is_user
}

/// Polling worker.
#[derive(Debug)]
pub struct PollingWorker {
    pub core: Pipeline,
    /// The page of the request that runs.
    pub job: Option<PendingPage>,
    /// There is a page to translate again.
    pub can_retry: bool,
    /// Sequence of the latest frame.
    pub frame_count: u64,
    pub show_preview: bool,
    /// A static window may deliver a single frame: it is read again on the capture interval.
    pub last_frame: Option<CapturedFrame>,
    pub last_ocr_at: Option<u128>,
}

/// The polling worker as plain values.
pub struct PollingView {
    pub core: PipelineView,
    pub job: Option<Page>,
    pub can_retry: bool,
    pub frame_count: u64,
    pub show_preview: bool,
    pub last_frame: Option<FrameView>,
    pub last_ocr_at: Option<u128>,
}

impl View for PollingWorker {
    type V = PollingView;

    open spec fn view(&self) -> PollingView {
        PollingView {
            core: self.core@,
            job: optional_view(self.job),
            can_retry: self.can_retry,
            frame_count: self.frame_count,
            show_preview: self.show_preview,
            last_frame: optional_view(self.last_frame),
            last_ocr_at: self.last_ocr_at,
        }
    }
}

/// Position of the first of the first `n` captions with the collapsed source.
pub open spec fn first_source(captions: Seq<TranslatedBlock>, key: Seq<char>, n: int) -> Option<int>
    decreases n,
{
    if n <= 0 {
        None
    } else {
        match first_source(captions, key, n - 1) {
            Some(i) => Some(i),
            None => if collapse(captions[n - 1].source@) == key {
                Some(n - 1)
            } else {
                None
            },
        }
    }
}

/// Measures of each block against each caption.
pub open spec fn relayouts(measures: Seq<Vec<RelayoutMeasure>>) -> Seq<Seq<RelayoutMeasure>> {
    measures.map_values(|v: Vec<RelayoutMeasure>| v@)
}

/// Captions that follow the first `n` blocks. With `stabilize` a box moves only for a real layout
/// change.
pub open spec fn followed(
    captions: Seq<TranslatedBlock>,
    blocks: Seq<OcrBlock>,
    measures: Seq<Seq<RelayoutMeasure>>,
    stabilize: bool,
    n: int,
) -> Seq<TranslatedBlock>
    decreases n,
{
    if n <= 0 {
        Seq::empty()
    } else {
        let out = followed(captions, blocks, measures, stabilize, n - 1);
        let block = blocks[n - 1];
        let key = collapse(block.text@);
        if key.len() == 0 {
            out
        } else {
            match first_source(captions, key, captions.len() as int) {
                Some(t) => out.push(
                    TranslatedBlock {
                        id: (n - 1) as u32,
                        confidence: block.confidence,
                        bbox: if stabilize && !measures[n - 1][t].significant() {
                            captions[t].bbox
                        } else {
                            block.bbox
                        },
                        ..captions[t]
                    },
                ),
                None => out,
            }
        }
    }
}

fn find_source(captions: &Vec<TranslatedBlock>, key: &String) -> (r: Option<usize>)
    ensures
        match r {
            Some(i) => i < captions@.len() && first_source(
                captions@,
                key@,
                captions@.len() as int,
            ) == Some(i as int),
            None => first_source(captions@, key@, captions@.len() as int) is None,
        },
{
    let mut i: usize = 0;
    while i < captions.len()
        invariant
            i <= captions@.len(),
            first_source(captions@, key@, i as int) is None,
        decreases captions@.len() - i,
    {
        if normalize_match_text(captions[i].source.as_str()) == *key {
            proof {
                lemma_first_source_extends(captions@, key@, i + 1);
            }
            return Some(i);
        }
        i = i + 1;
    }
    None
}

proof fn lemma_first_source_extends(captions: Seq<TranslatedBlock>, key: Seq<char>, n: int)
    requires
        0 <= n <= captions.len(),
    ensures
        first_source(captions, key, n) is Some ==> first_source(
            captions,
            key,
            captions.len() as int,
        ) == first_source(captions, key, n),
    decreases captions.len() - n,
{
    if n < captions.len() {
        lemma_first_source_extends(captions, key, n + 1);
    }
}

/// Rebuild displayed translations from current OCR (match by source text).
///
/// With `stabilize_bbox`, small detector jitter keeps the previous overlay box; real layout moves
/// take the new OCR box. Without it, as after a window resize, coordinates are refreshed.
pub fn follow_captions(
    translated: &Vec<TranslatedBlock>,
    ocr: &Vec<OcrBlock>,
    measures: &Vec<Vec<RelayoutMeasure>>,
    stabilize_bbox: bool,
) -> (r: Vec<TranslatedBlock>)
    requires
        measures@.len() == ocr@.len(),
        forall|i: int| 0 <= i < measures@.len() ==> (#[trigger] measures@[i])@.len()
            == translated@.len(),
    ensures
        r@ == followed(
            translated@,
            ocr@,
            relayouts(measures@),
            stabilize_bbox,
            ocr@.len() as int,
        ),
{
    let mut out: Vec<TranslatedBlock> = Vec::new();
    let ghost table = relayouts(measures@);
    let mut n: usize = 0;
    while n < ocr.len()
        invariant
            n <= ocr@.len(),
            measures@.len() == ocr@.len(),
            forall|i: int| 0 <= i < measures@.len() ==> (#[trigger] measures@[i])@.len()
                == translated@.len(),
            table == relayouts(measures@),
            out@ == followed(translated@, ocr@, table, stabilize_bbox, n as int),
        decreases ocr@.len() - n,
    {
        let key: String = normalize_match_text(ocr[n].text.as_str());
        if !key.as_str().is_empty() {
            match find_source(translated, &key) {
                Some(t) => {
                    assert(table[n as int] == measures@[n as int]@);
                    let caption: &TranslatedBlock = &translated[t];
                    let bbox: Rect = if stabilize_bbox {
                        caption.bbox.stabilize_against(ocr[n].bbox, &measures[n][t])
                    } else {
                        ocr[n].bbox
                    };
                    out.push(
                        TranslatedBlock {
                            id: n as u32,
                            source: caption.source.clone(),
                            translation: caption.translation.clone(),
                            confidence: ocr[n].confidence,
                            bbox,
                            source_lines: caption.source_lines,
                        },
                    );
                },
                None => {},
            }
        }
        n = n + 1;
    }
    out
}

/// The captions differ in box, translation or source.
pub open spec fn caption_differs(a: TranslatedBlock, b: TranslatedBlock) -> bool {
    !a.bbox.same(b.bbox) || a.translation@ != b.translation@ || collapse(a.source@) != collapse(
        b.source@,
    )
}

/// The sets differ in count, or at some position.
pub open spec fn captions_differ(a: Seq<TranslatedBlock>, b: Seq<TranslatedBlock>) -> bool {
    a.len() != b.len() || exists|i: int| 0 <= i < a.len() && #[trigger] caption_differs(a[i], b[i])
}

/// True when the followed captions differ in count, text, or box.
pub fn followed_captions_changed(
    previous: &Vec<TranslatedBlock>,
    now: &Vec<TranslatedBlock>,
) -> (r: bool)
    ensures
        r == captions_differ(previous@, now@),
{
    if previous.len() != now.len() {
        return true;
    }
    let mut i: usize = 0;
    while i < previous.len()
        invariant
            i <= previous@.len(),
            previous@.len() == now@.len(),
            forall|k: int| 0 <= k < i ==> !#[trigger] caption_differs(previous@[k], now@[k]),
        decreases previous@.len() - i,
    {
        let a: &TranslatedBlock = &previous[i];
        let b: &TranslatedBlock = &now[i];
        if !a.bbox.same_box(b.bbox) || a.translation != b.translation || normalize_match_text(
            a.source.as_str(),
        ) != normalize_match_text(b.source.as_str()) {
            assert(caption_differs(previous@[i as int], now@[i as int]));
            return true;
        }
        i = i + 1;
    }
    false
}

impl PipelineView {
    /// The captions of a page are shown and kept in the history.
    #[verifier::opaque]
    pub open spec fn page_finished(
        self,
        page: Page,
        captions: Seq<TranslatedBlock>,
        translated: Seq<char>,
    ) -> PipelineView {
        let c = (PipelineView {
            last_translated_fp: Some(page.fingerprint),
            ..self.asks(Effect::CommitTurn)
        }).painted(captions, page.width, page.height);
        c.with_app(
            (AppView {
                captions,
                translate_in_flight: false,
                last_error: None,
                status: StatusView::OverlayActive,
                ..c.app
            }).remembered(page.source, translated),
        )
    }

    /// A request failed; its turn is taken back.
    #[verifier::opaque]
    pub open spec fn request_failed(self, message: Seq<char>) -> PipelineView {
        let c = self.asks(Effect::RollbackTurn);
        c.with_app((AppView { translate_in_flight: false, ..c.app }).failed(message))
    }

    /// A request was cancelled; its turn is taken back.
    #[verifier::opaque]
    pub open spec fn request_cancelled(self) -> PipelineView {
        let c = self.asks(Effect::RollbackTurn);
        c.with_app(
            (AppView { translate_in_flight: false, ..c.app }).resting(StatusView::Cancelled),
        )
    }

    /// A translation runs.
    pub open spec fn is_translating(self) -> bool {
        self.app.translate_in_flight || self.app.status is Translating
    }

    /// An empty page clears captions and overlay.
    #[verifier::opaque]
    pub open spec fn page_emptied(self) -> PipelineView {
        (PipelineView {
            last_translated_fp: None,
            page: None,
            app: (AppView {
                captions: Seq::empty(),
                translate_in_flight: false,
                ..self.app
            }).resting(StatusView::Idle),
            ..self
        }).orders(OverlayOrder::Clear)
    }

    /// The page that was translated last is still shown.
    #[verifier::opaque]
    pub open spec fn page_unchanged(self) -> PipelineView {
        self.with_app(
            AppView {
                translate_in_flight: false,
                status: if self.app.captions.len() > 0 {
                    StatusView::OverlayActive
                } else if self.app.auto_running {
                    StatusView::Capturing
                } else {
                    self.app.status
                },
                ..self.app
            },
        )
    }

    /// A request for a page starts.
    #[verifier::opaque]
    pub open spec fn page_sent(self) -> PipelineView {
        let d = (PipelineView { client_api: self.app.config.api, ..self }).asks(
            Effect::UpdateClient(self.app.config.api),
        );
        d.with_app(
            AppView {
                status: StatusView::Translating,
                translate_in_flight: true,
                last_error: None,
                ..d.app
            },
        ).asks(Effect::SpawnTranslate)
    }

    /// Followed captions are shown; they are painted anew only if something about them changed.
    #[verifier::opaque]
    pub open spec fn captions_shown(
        self,
        kept: Seq<TranslatedBlock>,
        repaint: bool,
        width: u32,
        height: u32,
    ) -> PipelineView {
        let d = if repaint {
            let painted = self.painted(kept, width, height);
            PipelineView {
                page: match painted.page {
                    Some(page) => Some(Page { width, height, ..page }),
                    None => None,
                },
                app: AppView { captions: kept, ..painted.app },
                ..painted
            }
        } else {
            self
        };
        d.with_app(AppView { status: StatusView::OverlayActive, ..d.app })
    }
}

impl PollingView {
    /// The shared part is replaced.
    pub open spec fn with(self, core: PipelineView) -> PollingView {
        PollingView { core, ..self }
    }

    /// The flag that a request is in flight is true exactly while one is.
    pub open spec fn in_flight_is_job(self) -> bool {
        self.core.app.translate_in_flight == (self.job is Some)
    }

    /// The running request is aborted; its turn stays for the next one to judge.
    #[verifier::opaque]
    pub open spec fn job_aborted(self) -> PollingView {
        if self.job is Some {
            PollingView {
                job: None,
                core: self.core.with_app(
                    AppView { translate_in_flight: false, ..self.core.app },
                ).asks(Effect::CancelJob),
                ..self
            }
        } else {
            self
        }
    }

    /// The worker ends.
    #[verifier::opaque]
    pub open spec fn shut_down(self) -> PollingView {
        let p = self.job_aborted();
        let c = p.core.asks(Effect::StopStream);
        p.with(
            if c.overlay_up {
                PipelineView {
                    overlay_up: false,
                    ..c.orders(OverlayOrder::Clear).asks(Effect::CloseOverlay)
                }
            } else {
                c
            },
        )
    }

    /// Gate, tracks, timers and frames start over; blocks, captions and page stay.
    #[verifier::opaque]
    pub open spec fn reading_reset(self) -> PollingView {
        PollingView {
            core: PipelineView {
                gate: self.core.gate.cleared(),
                tracks: Seq::empty(),
                last_translated_fp: None,
                raw_empty_since: None,
                ..self.core
            },
            last_frame: None,
            last_ocr_at: None,
            ..self
        }
    }

    /// Capture has ended.
    #[verifier::opaque]
    pub open spec fn capture_stopped(self) -> PollingView {
        let p = self.job_aborted();
        let q = p.with(p.core.asks(Effect::StopStream)).reading_reset();
        let c = q.core.orders(OverlayOrder::Detach).orders(OverlayOrder::Clear);
        q.with(
            c.with_app(
                AppView {
                    auto_running: false,
                    hwnd: None,
                    translate_in_flight: false,
                    status: StatusView::Idle,
                    ..c.app
                },
            ),
        )
    }

    /// A capture of the window has started.
    #[verifier::opaque]
    pub open spec fn capture_started(self, target: CaptureTarget) -> PollingView {
        let p = self.reading_reset();
        let c = p.core.asks(Effect::ClearConversation).orders(OverlayOrder::Clear).orders(
            OverlayOrder::Attach { target_hwnd: target.hwnd },
        );
        p.with(
            c.with_app(
                AppView {
                    auto_running: true,
                    title: Some(target.title@),
                    hwnd: Some(target.hwnd),
                    translate_in_flight: false,
                    last_error: None,
                    status: StatusView::Capturing,
                    ..c.app
                },
            ),
        )
    }

    /// The page is sent: nothing runs, there is text, and it is not the page that was translated
    /// last, unless forced.
    pub open spec fn sends(self, page: Page, force: bool) -> bool {
        self.job is None && has_text(page) && (force || self.core.last_translated_fp != Some(
            page.fingerprint,
        ))
    }

    /// The worker after it was given a page to translate.
    #[verifier::opaque]
    pub open spec fn translate_begun(self, page: Page, force: bool) -> PollingView {
        let c = self.core.with_app(AppView { ocr: page.blocks, ..self.core.app });
        if self.job is Some {
            self
        } else if !has_text(page) {
            PollingView { can_retry: false, core: c.page_emptied(), ..self }
        } else if !self.sends(page, force) {
            self.with(c.page_unchanged())
        } else {
            PollingView { job: Some(page), can_retry: true, core: c.page_sent(), ..self }
        }
    }

    /// The last page is translated again, or there is none.
    #[verifier::opaque]
    pub open spec fn retried(self) -> PollingView {
        if self.job is Some {
            self
        } else {
            match self.core.page {
                Some(page) => self.with(
                    PipelineView { last_translated_fp: None, ..self.core },
                ).translate_begun(page, true),
                None => self.with(
                    self.core.with_app(self.core.app.failed("nothing to retry"@)),
                ),
            }
        }
    }

    /// The user cancels the translation.
    #[verifier::opaque]
    pub open spec fn translate_cancelled(self) -> PollingView {
        if self.job is Some {
            self.with(self.core.asks(Effect::CancelJob))
        } else {
            self.with(
                self.core.with_app(
                    (AppView { translate_in_flight: false, ..self.core.app }).resting(
                        StatusView::Cancelled,
                    ),
                ),
            )
        }
    }

    /// The conversation starts over; a running translation keeps its status.
    #[verifier::opaque]
    pub open spec fn conversation_reset(self) -> PollingView {
        let c = PipelineView {
            last_translated_fp: None,
            ..self.core.asks(Effect::ClearConversation)
        };
        self.with(
            if c.app.translate_in_flight {
                c
            } else {
                c.with_app(c.app.restored())
            },
        )
    }

    /// A config takes effect on everything but the shared state and the OCR engine.
    #[verifier::opaque]
    pub open spec fn config_begun(self, cfg: AppConfig, show_preview: bool) -> PollingView {
        PollingView {
            show_preview,
            core: (PipelineView {
                gate: self.core.gate.reconfigured(cfg.ocr),
                persistence: Persistence::of_config(cfg.ocr),
                tracks: Seq::empty(),
                client_api: cfg.api,
                ..self.core
            }).asks(Effect::UpdateClient(cfg.api)).orders(OverlayOrder::UpdateConfig(cfg.overlay)),
            ..self
        }
    }

    /// The worker and the step after a command.
    pub open spec fn commanded(self, cmd: PollingCommand) -> (PollingView, PollingRequest) {
        let interval = self.core.app.config.capture.min_interval_ms;
        match cmd {
            PollingCommand::Shutdown => (self.shut_down(), PollingRequest::Shutdown),
            PollingCommand::CancelTranslate => (self.translate_cancelled(), PollingRequest::Done),
            PollingCommand::RetryTranslate => (self.retried(), PollingRequest::Done),
            PollingCommand::ApplyConfig { config, show_preview } => (
                self.config_begun(*config, show_preview),
                PollingRequest::SaveConfig(*config),
            ),
            PollingCommand::StopCapture => (self.capture_stopped(), PollingRequest::Done),
            PollingCommand::StartForeground => (
                self.job_aborted(),
                PollingRequest::StartForeground { min_interval_ms: interval },
            ),
            PollingCommand::StartCapture { hwnd, title } => (
                self.job_aborted(),
                PollingRequest::StartWindow { hwnd, title: title@, min_interval_ms: interval },
            ),
            PollingCommand::ManualCapture => if self.job is Some {
                (self, PollingRequest::Done)
            } else {
                (self, PollingRequest::ManualCapture { load_engine: !self.core.engine_ready })
            },
            PollingCommand::SetShowPreview(v) => (
                PollingView { show_preview: v, ..self },
                PollingRequest::SaveShowPreview,
            ),
            PollingCommand::ResetConversation => (self.conversation_reset(), PollingRequest::Done),
        }
    }

    /// Captions are gone from state and overlay.
    #[verifier::opaque]
    pub open spec fn captions_cleared(self) -> PollingView {
        if self.core.app.captions.len() == 0 {
            self
        } else {
            self.with(
                (PipelineView {
                    app: AppView { captions: Seq::empty(), ..self.core.app },
                    last_translated_fp: None,
                    ..self.core
                }).orders(OverlayOrder::Clear),
            )
        }
    }

    /// Nothing of a vanished page is left.
    #[verifier::opaque]
    pub open spec fn stale_cleared(self) -> PollingView {
        PollingView {
            can_retry: self.can_retry && self.core.app.captions.len() == 0
                && self.core.app.ocr.len() == 0,
            core: self.core.stale_cleared(),
            ..self
        }
    }

    /// The screen has been blank for the grace: everything goes.
    #[verifier::opaque]
    pub open spec fn raw_empty_expired(self, now: u128) -> PollingView {
        match self.core.raw_empty_since {
            Some(since) => if lasted(now, since, self.core.grace_ms()) {
                self.with(PipelineView { raw_empty_since: None, ..self.core }).stale_cleared()
            } else {
                self
            },
            None => self,
        }
    }

    /// The filter has seen the blocks of a frame.
    #[verifier::opaque]
    pub open spec fn filtered(
        self,
        raw: Seq<OcrBlock>,
        measures: Seq<Seq<TrackMeasure>>,
        now: u128,
    ) -> PollingView {
        self.with(
            PipelineView {
                tracks: self.core.persistence.kept(self.core.tracks, raw, measures, now),
                ..self.core
            },
        )
    }

    /// What lingers of a frame.
    pub open spec fn durable(
        self,
        raw: Seq<OcrBlock>,
        measures: Seq<Seq<TrackMeasure>>,
        now: u128,
    ) -> Seq<OcrBlock> {
        self.core.persistence.emitted(self.core.tracks, raw, measures, now)
    }

    /// The screen is not blank.
    #[verifier::opaque]
    pub open spec fn text_seen(self) -> PollingView {
        self.with(PipelineView { raw_empty_since: None, ..self.core })
    }

    /// A frame without text.
    #[verifier::opaque]
    pub open spec fn blank_read(self, durable: Seq<OcrBlock>, now: u128) -> PollingView {
        let since = or_now(self.core.raw_empty_since, now);
        if durable.len() == 0 || lasted(now, since, self.core.grace_ms()) {
            self.with(PipelineView { raw_empty_since: None, ..self.core }).stale_cleared()
        } else {
            self.with(PipelineView { raw_empty_since: Some(since), ..self.core })
        }
    }

    /// Text that does not linger yet: it is shown, and old captions go.
    #[verifier::opaque]
    pub open spec fn lingering(self, raw: Seq<OcrBlock>) -> PollingView {
        let p = self.captions_cleared();
        PollingView {
            can_retry: false,
            core: p.core.with_app(
                AppView {
                    ocr: raw,
                    status: if p.core.app.auto_running {
                        StatusView::Capturing
                    } else {
                        p.core.app.status
                    },
                    ..p.core.app
                },
            ),
            ..p
        }
    }

    /// Blocks are shown while the text settles.
    pub open spec fn settling(self, blocks: Seq<OcrBlock>, elapsed_ms: u64) -> PollingView {
        self.with(
            self.core.with_app(
                AppView {
                    ocr: blocks,
                    status: StatusView::WaitingForStable { elapsed_ms },
                    ..self.core.app
                },
            ),
        )
    }

    /// A page is recorded for translation.
    #[verifier::opaque]
    pub open spec fn page_recorded(self, page: Page) -> PollingView {
        PollingView {
            can_retry: true,
            core: PipelineView {
                page: Some(page),
                app: AppView { ocr: page.blocks, ..self.core.app },
                ..self.core
            },
            ..self
        }
    }

    /// The worker after the stability gate saw a reading, up to the captions of a known page.
    #[verifier::opaque]
    pub open spec fn gated(
        self,
        blocks: Seq<OcrBlock>,
        width: u32,
        height: u32,
        now: u128,
    ) -> PollingView {
        let p = self.with(self.core.gate_observed(blocks, now));
        match self.core.gate_outcome(blocks, now) {
            StabilityOutcome::Changed => {
                let q = p.captions_cleared();
                PollingView { can_retry: false, ..q.settling(blocks, 0) }
            },
            StabilityOutcome::Waiting { elapsed_ms } => p.settling(blocks, elapsed_ms),
            StabilityOutcome::Ready { fingerprint, .. } => {
                let page = PipelineView::page_of(blocks, fingerprint, width, height);
                p.page_recorded(page).translate_begun(page, false)
            },
            StabilityOutcome::AlreadyEmitted { .. } => p,
        }
    }

    /// The worker after the blocks of a frame were read, up to the captions of a known page.
    #[verifier::opaque]
    pub open spec fn raw_consumed(
        self,
        raw: Seq<OcrBlock>,
        width: u32,
        height: u32,
        measures: Seq<Seq<TrackMeasure>>,
        now: u128,
    ) -> PollingView {
        let durable = self.durable(raw, measures, now);
        let p = self.filtered(raw, measures, now);
        if raw.len() == 0 {
            p.blank_read(durable, now)
        } else {
            let q = p.text_seen();
            if durable.len() == 0 {
                q.lingering(raw)
            } else {
                q.gated(durable, width, height, now)
            }
        }
    }

    /// The blocks whose captions are to follow after a frame was read.
    #[verifier::opaque]
    pub open spec fn blocks_to_follow(
        self,
        raw: Seq<OcrBlock>,
        measures: Seq<Seq<TrackMeasure>>,
        now: u128,
    ) -> Option<Seq<OcrBlock>> {
        let durable = self.durable(raw, measures, now);
        if raw.len() > 0 && durable.len() > 0 && self.core.gate_outcome(
            durable,
            now,
        ) is AlreadyEmitted {
            Some(durable)
        } else {
            None
        }
    }

    /// The page is of another size, or there is none.
    pub open spec fn size_changed(self, width: u32, height: u32) -> bool {
        self.core.page is None || self.core.content_resized(width, height)
    }

    /// Captions follow the text of a known page.
    #[verifier::opaque]
    pub open spec fn captions_followed(
        self,
        blocks: Seq<OcrBlock>,
        measures: Seq<Seq<RelayoutMeasure>>,
        width: u32,
        height: u32,
    ) -> PollingView {
        let resized = self.size_changed(width, height);
        let before = self.core.app.captions;
        let kept = followed(before, blocks, measures, !resized, blocks.len() as int);
        let c = self.core.with_app(AppView { ocr: blocks, ..self.core.app });
        let p = self.with(c);
        if kept.len() == 0 && before.len() > 0 {
            p.stale_cleared()
        } else if kept.len() > 0 {
            p.with(
                c.captions_shown(kept, captions_differ(before, kept) || resized, width, height),
            )
        } else if c.app.auto_running {
            p.with(c.with_app(AppView { status: StatusView::Capturing, ..c.app }))
        } else {
            p
        }
    }

    /// The request of a page has ended.
    #[verifier::opaque]
    pub open spec fn translate_finished(self, page: Page, outcome: PageOutcome) -> PollingView {
        PollingView {
            job: None,
            can_retry: true,
            core: match outcome {
                PageOutcome::Done { translated, translated_text } => self.core.page_finished(
                    page,
                    translated@,
                    translated_text@,
                ),
                PageOutcome::BadReply(e) => self.core.request_failed("translate parse: "@ + e@),
                PageOutcome::Cancelled => self.core.request_cancelled(),
                PageOutcome::Failed(e) => self.core.request_failed("translate: "@ + e@),
            },
            ..self
        }
    }

    /// A frame is published to the preview.
    #[verifier::opaque]
    pub open spec fn previewed(self, frame: FrameView) -> PollingView {
        PollingView {
            frame_count: frame.sequence,
            core: self.core.with_app(
                AppView {
                    preview: PreviewView {
                        width: frame.width,
                        height: frame.height,
                        sequence: frame.sequence,
                        rgba: if self.show_preview {
                            Some(frame.rgba)
                        } else {
                            self.core.app.preview.rgba
                        },
                    },
                    ..self.core.app
                },
            ),
            ..self
        }
    }

    /// The last frame is due to be read again.
    pub open spec fn rereads(self, now: u128) -> bool {
        let ms = self.core.app.config.capture.min_interval_ms;
        let interval = if ms < 50 {
            50
        } else {
            ms
        };
        match self.last_ocr_at {
            Some(t) => lasted(now, t, interval),
            None => true,
        }
    }

    /// The frame that is read in this turn.
    pub open spec fn frame_to_read(self, new_frame: Option<FrameView>, now: u128) -> Option<
        FrameView,
    > {
        match new_frame {
            Some(f) => Some(f),
            None => if self.rereads(now) {
                self.last_frame
            } else {
                None
            },
        }
    }

    /// A frame without engine.
    #[verifier::opaque]
    pub open spec fn without_engine(self) -> PollingView {
        let s = self.core.app.status;
        if s is Error || s is LoadingModels || s is Translating || s is OverlayActive
            || s is Cancelled {
            self
        } else {
            self.with(
                self.core.with_app(AppView { status: StatusView::Capturing, ..self.core.app }),
            )
        }
    }

    /// The worker after a capture turn.
    #[verifier::opaque]
    pub open spec fn turned(
        self,
        running: bool,
        new_frame: Option<FrameView>,
        now: u128,
    ) -> PollingView {
        if !running || self.job is Some {
            self
        } else {
            match self.frame_to_read(new_frame, now) {
                Some(f) => {
                    let p = (PollingView {
                        last_frame: if new_frame is Some {
                            new_frame
                        } else {
                            self.last_frame
                        },
                        last_ocr_at: Some(now),
                        ..self
                    }).previewed(f);
                    if self.core.engine_ready {
                        p
                    } else {
                        p.without_engine()
                    }
                },
                None => self.raw_empty_expired(now),
            }
        }
    }

    /// The frame that the engine is to read after a capture turn.
    pub open spec fn turn_frame(
        self,
        running: bool,
        new_frame: Option<FrameView>,
        now: u128,
    ) -> Option<FrameView> {
        if !running || self.job is Some || !self.core.engine_ready {
            None
        } else {
            self.frame_to_read(new_frame, now)
        }
    }
}

impl Pipeline {
    fn forget_reading(&mut self)
        ensures
            final(self)@ == (PipelineView {
                gate: old(self)@.gate.cleared(),
                tracks: Seq::empty(),
                last_translated_fp: None,
                raw_empty_since: None,
                ..old(self)@
            }),
    {
        reveal(pipeline_view);
        self.gate.reset_all();
        self.persist.reset();
        assert(self.persist.tracks@ =~= Seq::<Track>::empty());
        self.last_translated_fp = None;
        self.raw_empty_since = None;
    }

    fn show_target(&mut self, target: &CaptureTarget)
        ensures
            final(self)@ == old(self)@.with_app(
                AppView {
                    title: Some(target.title@),
                    hwnd: Some(target.hwnd),
                    ..old(self)@.app
                },
            ),
    {
        reveal(pipeline_view);
        reveal(app_view);
        self.state.target_window_title = Some(target.title.clone());
        self.state.target_hwnd = Some(target.hwnd);
    }

    fn show_running(&mut self)
        ensures
            final(self)@ == old(self)@.with_app(
                AppView {
                    auto_running: true,
                    translate_in_flight: false,
                    last_error: None,
                    status: StatusView::Capturing,
                    ..old(self)@.app
                },
            ),
    {
        reveal(pipeline_view);
        reveal(app_view);
        self.state.auto_running = true;
        self.state.translate_in_flight = false;
        self.state.last_error = None;
        self.state.status = PipelineStatus::Capturing;
    }

    fn show_ended(&mut self)
        ensures
            final(self)@ == old(self)@.with_app(
                AppView {
                    auto_running: false,
                    hwnd: None,
                    translate_in_flight: false,
                    status: StatusView::Idle,
                    ..old(self)@.app
                },
            ),
    {
        reveal(pipeline_view);
        reveal(app_view);
        self.state.auto_running = false;
        self.state.target_hwnd = None;
        self.state.translate_in_flight = false;
        self.state.status = PipelineStatus::Idle;
    }

    fn show_translating(&mut self)
        ensures
            final(self)@ == old(self)@.with_app(
                AppView {
                    status: StatusView::Translating,
                    translate_in_flight: true,
                    last_error: None,
                    ..old(self)@.app
                },
            ),
    {
        reveal(pipeline_view);
        reveal(app_view);
        self.state.status = PipelineStatus::Translating;
        self.state.translate_in_flight = true;
        self.state.last_error = None;
    }

    fn show_translated(
        &mut self,
        captions: Vec<TranslatedBlock>,
        source: String,
        translated: String,
    )
        ensures
            final(self)@ == old(self)@.with_app(
                (AppView {
                    captions: captions@,
                    translate_in_flight: false,
                    last_error: None,
                    status: StatusView::OverlayActive,
                    ..old(self)@.app
                }).remembered(source@, translated@),
            ),
    {
        reveal(pipeline_view);
        reveal(app_view);
        self.state.latest_translated_blocks = captions;
        self.state.translate_in_flight = false;
        self.state.last_error = None;
        self.state.status = PipelineStatus::OverlayActive;
        self.state.push_history(source, translated);
    }

    fn end_flight(&mut self)
        ensures
            final(self)@ == old(self)@.with_app(
                AppView { translate_in_flight: false, ..old(self)@.app },
            ),
    {
        reveal(pipeline_view);
        reveal(app_view);
        self.state.translate_in_flight = false;
    }

    fn forget_translated(&mut self)
        ensures
            final(self)@ == (PipelineView { last_translated_fp: None, ..old(self)@ }),
    {
        reveal(pipeline_view);
        self.last_translated_fp = None;
    }

    fn in_flight(&self) -> (r: bool)
        ensures
            r == self@.app.translate_in_flight,
    {
        reveal(pipeline_view);
        reveal(app_view);
        self.state.translate_in_flight
    }

    fn page(&self) -> (r: Option<PendingPage>)
        ensures
            optional_view(r) == self@.page,
    {
        reveal(pipeline_view);
        match &self.last_page {
            Some(p) => Some(p.copy()),
            None => None,
        }
    }

    fn drop_overlay_captions(&mut self)
        ensures
            final(self)@ == (PipelineView {
                app: AppView { captions: Seq::empty(), ..old(self)@.app },
                last_translated_fp: None,
                ..old(self)@
            }),
    {
        reveal(pipeline_view);
        reveal(app_view);
        self.state.latest_translated_blocks = Vec::new();
        self.last_translated_fp = None;
    }

    fn filter_blocks(
        &mut self,
        raw: &Vec<OcrBlock>,
        measures: &Vec<Vec<TrackMeasure>>,
        now: u128,
    ) -> (r: Vec<OcrBlock>)
        requires
            measured(old(self)@.tracks, raw@, measures@),
        ensures
            r@ == old(self)@.persistence.emitted(old(self)@.tracks, raw@, rows(measures@), now),
            final(self)@ == (PipelineView {
                tracks: old(self)@.persistence.kept(
                    old(self)@.tracks,
                    raw@,
                    rows(measures@),
                    now,
                ),
                ..old(self)@
            }),
    {
        reveal(pipeline_view);
        self.persist.filter_at(copy_blocks(raw), measures, now)
    }

    fn force_gate(&mut self, fingerprint: OcrFingerprint, now: u128)
        ensures
            final(self)@ == (PipelineView {
                gate: old(self)@.gate.forced(fingerprint, now),
                ..old(self)@
            }),
    {
        reveal(pipeline_view);
        let _ = self.gate.force_emit_at(fingerprint, now);
    }

    fn show_ocr_run(&mut self, ocr_ms: u64, count: usize)
        ensures
            final(self)@ == old(self)@.with_app(
                AppView {
                    last_ocr_ms: Some(ocr_ms),
                    last_ocr_block_count: count as u32,
                    ..old(self)@.app
                },
            ),
    {
        reveal(pipeline_view);
        reveal(app_view);
        self.state.last_ocr_ms = Some(ocr_ms);
        self.state.last_ocr_block_count = count as u32;
    }

    fn preview_frame(&mut self, frame: &CapturedFrame, with_pixels: bool)
        ensures
            final(self)@ == old(self)@.with_app(
                AppView {
                    preview: PreviewView {
                        width: frame.width,
                        height: frame.height,
                        sequence: frame.sequence,
                        rgba: if with_pixels {
                            Some(bytes_of(frame.rgba))
                        } else {
                            old(self)@.app.preview.rgba
                        },
                    },
                    ..old(self)@.app
                },
            ),
    {
        reveal(pipeline_view);
        reveal(app_view);
        self.state.preview.width = frame.width;
        self.state.preview.height = frame.height;
        self.state.preview.sequence = frame.sequence;
        if with_pixels {
            self.state.preview.rgba = Some(bytes_clone(&frame.rgba));
        }
    }

    fn finish_page(
        &mut self,
        page: PendingPage,
        translated: Vec<TranslatedBlock>,
        translated_text: String,
    )
        ensures
            final(self)@ == old(self)@.page_finished(page@, translated@, translated_text@),
    {
        reveal(PipelineView::page_finished);
        self.ask(Action::CommitTurn);
        self.set_translated(page.fingerprint);
        self.paint(&translated, page.content_width, page.content_height);
        self.show_translated(translated, page.source_text, translated_text);
    }

    fn translates(&self) -> (r: bool)
        ensures
            r == self@.is_translating(),
    {
        let translating: bool = match self.status() {
            PipelineStatus::Translating => true,
            _ => false,
        };
        self.in_flight() || translating
    }

    fn empty_page(&mut self)
        ensures
            final(self)@ == old(self)@.page_emptied(),
    {
        reveal(PipelineView::page_emptied);
        self.clear_empty_page();
        self.order(OverlayCommand::Clear);
    }

    fn keep_page(&mut self)
        ensures
            final(self)@ == old(self)@.page_unchanged(),
    {
        reveal(PipelineView::page_unchanged);
        self.show_unchanged();
    }

    fn send_page(&mut self)
        ensures
            final(self)@ == old(self)@.page_sent(),
    {
        reveal(PipelineView::page_sent);
        let api: ApiConfig = self.api_settings();
        self.set_client(&api);
        self.ask(Action::UpdateClient(api));
        self.show_translating();
        self.ask(Action::SpawnTranslate);
    }

    fn fail_request(&mut self, message: String)
        ensures
            final(self)@ == old(self)@.request_failed(message@),
    {
        reveal(PipelineView::request_failed);
        self.ask(Action::RollbackTurn);
        self.end_flight();
        self.fail(message);
    }

    fn cancel_request(&mut self)
        ensures
            final(self)@ == old(self)@.request_cancelled(),
    {
        reveal(PipelineView::request_cancelled);
        self.ask(Action::RollbackTurn);
        self.mark_cancelled();
    }

    fn show_followed(
        &mut self,
        kept: Vec<TranslatedBlock>,
        repaint: bool,
        width: u32,
        height: u32,
    )
        ensures
            final(self)@ == old(self)@.captions_shown(kept@, repaint, width, height),
    {
        reveal(PipelineView::captions_shown);
        // The same captions are not painted again.
        if repaint {
            self.paint(&kept, width, height);
            self.set_page_size(width, height);
            self.set_captions(kept);
        }
        self.set_status(PipelineStatus::OverlayActive);
    }

    fn cache_len(&self) -> (r: usize)
        ensures
            r == self@.app.cache_len,
    {
        reveal(pipeline_view);
        reveal(app_view);
        self.state.translation_cache_len
    }
}

/// How a config change of the polling worker goes on.
#[derive(Clone, Copy, Debug, PartialEq, Eq, Structural)]
pub enum ConfigStep {
    Done,
    /// Load the engine, then report [`PollingWorker::on_models`].
    LoadEngine,
}

impl PollingWorker {
    /// Worker for a host whose overlay has been started or not. No engine is loaded yet.
    pub fn new(state: AppState, overlay_up: bool, show_preview: bool) -> (r: PollingWorker)
        ensures
            r@.core.is_fresh(state@, overlay_up),
            r@ == (PollingView {
                core: r@.core,
                job: None,
                can_retry: false,
                frame_count: 0,
                show_preview,
                last_frame: None,
                last_ocr_at: None,
            }),
    {
        PollingWorker {
            core: Pipeline::idle(state, overlay_up),
            job: None,
            can_retry: false,
            frame_count: 0,
            show_preview,
            last_frame: None,
            last_ocr_at: None,
        }
    }

    fn abort_job(&mut self)
        ensures
            final(self)@ == old(self)@.job_aborted(),
    {
        reveal(PollingView::job_aborted);
        if self.job.is_some() {
            self.job = None;
            self.core.end_flight();
            self.core.ask(Action::CancelJob);
        }
    }

    fn shutdown(&mut self)
        ensures
            final(self)@ == old(self)@.shut_down(),
    {
        reveal(PollingView::shut_down);
        self.abort_job();
        self.core.ask(Action::StopStream);
        if self.core.has_overlay() {
            self.core.order(OverlayCommand::Clear);
            self.core.ask(Action::CloseOverlay);
            self.core.on_overlay_lost();
        }
    }

    fn reset_reading(&mut self)
        ensures
            final(self)@ == old(self)@.reading_reset(),
    {
        reveal(PollingView::reading_reset);
        self.core.forget_reading();
        self.last_frame = None;
        self.last_ocr_at = None;
    }

    /// End capture and clear the overlay.
    pub fn stop_capture(&mut self)
        ensures
            final(self)@ == old(self)@.capture_stopped(),
    {
        reveal(PollingView::capture_stopped);
        self.abort_job();
        self.core.ask(Action::StopStream);
        self.reset_reading();
        self.core.order(OverlayCommand::Detach);
        self.core.order(OverlayCommand::Clear);
        self.core.show_ended();
    }

    /// The host started a capture of the window.
    pub fn on_started(&mut self, target: CaptureTarget)
        ensures
            final(self)@ == old(self)@.capture_started(target),
    {
        reveal(PollingView::capture_started);
        self.reset_reading();
        self.core.ask(Action::ClearConversation);
        self.core.order(OverlayCommand::Clear);
        self.core.order(OverlayCommand::Attach { target_hwnd: target.hwnd });
        self.core.show_target(&target);
        self.core.show_running();
    }

    /// The host could not start a capture.
    pub fn on_failed(&mut self, message: String)
        ensures
            final(self)@ == old(self)@.with(
                old(self)@.core.with_app(old(self)@.core.app.failed(message@)),
            ),
    {
        self.core.fail(message);
    }

    /// Take a page to translate.
    ///
    /// An empty page clears the captions. The page that was translated last is not translated
    /// again, unless forced.
    pub fn start_translate(&mut self, page: PendingPage, force: bool)
        ensures
            final(self)@ == old(self)@.translate_begun(page@, force),
    {
        reveal(PollingView::translate_begun);
        if self.job.is_some() {
            return;
        }
        self.core.set_ocr_blocks(&page.blocks);
        if page.blocks.len() == 0 || trimmed(page.source_text.as_str()).as_str().is_empty() {
            self.core.empty_page();
            self.can_retry = false;
            return;
        }
        if !force && self.core.is_last_translated(page.fingerprint) {
            self.core.keep_page();
            return;
        }
        self.core.send_page();
        self.can_retry = true;
        self.job = Some(page);
    }

    fn retry(&mut self)
        ensures
            final(self)@ == old(self)@.retried(),
    {
        reveal(PollingView::retried);
        if self.job.is_some() {
            return;
        }
        match self.core.page() {
            Some(page) => {
                // The same page is sent again.
                self.core.forget_translated();
                self.start_translate(page, true);
            },
            None => {
                self.core.fail(owned("nothing to retry"));
            },
        }
    }

    fn cancel_translate(&mut self)
        ensures
            final(self)@ == old(self)@.translate_cancelled(),
    {
        reveal(PollingView::translate_cancelled);
        if self.job.is_some() {
            self.core.ask(Action::CancelJob);
        } else {
            self.core.mark_cancelled();
        }
    }

    fn reset_conversation(&mut self)
        ensures
            final(self)@ == old(self)@.conversation_reset(),
    {
        reveal(PollingView::conversation_reset);
        self.core.ask(Action::ClearConversation);
        self.core.forget_translated();
        if !self.core.in_flight() {
            self.core.restore_status();
        }
    }

    fn begin_apply_config(&mut self, cfg: &AppConfig, show_preview: bool)
        ensures
            final(self)@ == old(self)@.config_begun(*cfg, show_preview),
    {
        reveal(PollingView::config_begun);
        self.show_preview = show_preview;
        self.core.reconfigure_filters(&cfg.ocr);
        self.core.set_client(&cfg.api);
        self.core.ask(Action::UpdateClient(cfg.api.clone()));
        self.core.order(OverlayCommand::UpdateConfig(cfg.overlay));
    }

    /// Follow a command of the UI.
    pub fn handle_command(&mut self, cmd: PollingCommand) -> (r: PollingStep)
        ensures
            final(self)@ == old(self)@.commanded(cmd).0,
            r@ == old(self)@.commanded(cmd).1,
    {
        match cmd {
            PollingCommand::Shutdown => {
                self.shutdown();
                PollingStep::Shutdown
            },
            PollingCommand::CancelTranslate => {
                self.cancel_translate();
                PollingStep::Done
            },
            PollingCommand::RetryTranslate => {
                self.retry();
                PollingStep::Done
            },
            PollingCommand::ApplyConfig { config, show_preview } => {
                self.begin_apply_config(&config, show_preview);
                PollingStep::SaveConfig(config)
            },
            PollingCommand::StopCapture => {
                self.stop_capture();
                PollingStep::Done
            },
            PollingCommand::StartForeground => {
                let min_interval_ms: u64 = self.core.capture_interval();
                self.abort_job();
                PollingStep::StartForeground { min_interval_ms }
            },
            PollingCommand::StartCapture { hwnd, title } => {
                let min_interval_ms: u64 = self.core.capture_interval();
                self.abort_job();
                PollingStep::StartWindow { hwnd, title, min_interval_ms }
            },
            PollingCommand::ManualCapture => {
                if self.job.is_some() {
                    return PollingStep::Done;
                }
                PollingStep::ManualCapture { load_engine: !self.core.has_engine() }
            },
            PollingCommand::SetShowPreview(v) => {
                self.show_preview = v;
                PollingStep::SaveShowPreview
            },
            PollingCommand::ResetConversation => {
                self.reset_conversation();
                PollingStep::Done
            },
        }
    }

    /// The engine is about to be loaded.
    pub fn begin_load(&mut self)
        ensures
            final(self)@ == old(self)@.with(
                old(self)@.core.with_app(
                    AppView { status: StatusView::LoadingModels, ..old(self)@.core.app },
                ),
            ),
    {
        self.core.set_status(PipelineStatus::LoadingModels);
    }

    /// The engine that the start asked for is there, or could not be loaded.
    pub fn on_first_models(&mut self, loaded: Result<(), String>)
        ensures
            final(self)@ == match loaded {
                Ok(_) => old(self)@.with(
                    PipelineView { engine_ready: true, ..old(self)@.core },
                ),
                Err(e) => old(self)@.with(
                    old(self)@.core.with_app(old(self)@.core.app.failed("models: "@ + e@)),
                ),
            },
    {
        match loaded {
            Ok(_) => {
                self.set_engine();
            },
            Err(e) => {
                self.core.fail(joined("models: ", e.as_str()));
            },
        }
    }

    fn set_engine(&mut self)
        ensures
            final(self)@ == old(self)@.with(PipelineView { engine_ready: true, ..old(self)@.core }),
    {
        reveal(pipeline_view);
        self.core.engine_ready = true;
    }

    /// The engine that a manual capture asked for is there, or could not be loaded. True when the
    /// capture goes on.
    pub fn on_manual_models(&mut self, loaded: Result<(), String>) -> (r: bool)
        ensures
            r == loaded is Ok,
            final(self)@ == match loaded {
                Ok(_) => old(self)@.with(
                    PipelineView { engine_ready: true, ..old(self)@.core },
                ),
                Err(e) => old(self)@.with(
                    old(self)@.core.with_app(old(self)@.core.app.failed("OCR: "@ + e@)),
                ),
            },
    {
        match loaded {
            Ok(_) => {
                self.set_engine();
                true
            },
            Err(e) => {
                self.core.fail(joined("OCR: ", e.as_str()));
                false
            },
        }
    }

    /// The host saved the config, or could not. Another model tier needs another engine.
    pub fn finish_apply_config(&mut self, cfg: AppConfig, saved: Result<(), String>) -> (r:
        ConfigStep)
        ensures
            match saved {
                Err(e) => r == ConfigStep::Done && final(self)@ == old(self)@.with(
                    old(self)@.core.settings_unsaved(cfg, e@),
                ),
                Ok(_) => {
                    let c = old(self)@.core.settings_saved(cfg, old(self)@.core.app.cache_len);
                    if c.ocr_tier != cfg.ocr.model_tier {
                        let d = c.engine_dropped(cfg.ocr.model_tier);
                        r == ConfigStep::LoadEngine && final(self)@ == old(self)@.with(
                            d.with_app(AppView { status: StatusView::LoadingModels, ..d.app }),
                        )
                    } else {
                        let d = if c.engine_ready {
                            c.asks(Effect::ConfigureEngine(cfg.ocr))
                        } else {
                            c
                        };
                        r == ConfigStep::Done && final(self)@ == old(self)@.with(
                            d.status_restored(),
                        )
                    }
                },
            },
    {
        let ocr: OcrConfig = cfg.ocr.clone();
        match saved {
            Err(e) => {
                self.core.keep_unsaved(cfg, e);
                return ConfigStep::Done;
            },
            Ok(_) => {},
        }
        let cache_len: usize = self.core.cache_len();
        self.core.keep_saved(cfg, cache_len);
        if self.core.engine_tier() != ocr.model_tier {
            self.core.drop_engine(ocr.model_tier);
            self.begin_load();
            return ConfigStep::LoadEngine;
        }
        if self.core.has_engine() {
            self.core.ask(Action::ConfigureEngine(ocr));
        }
        self.core.restore();
        ConfigStep::Done
    }

    /// The engine that a config change asked for is there, or could not be loaded.
    pub fn on_models(&mut self, loaded: Result<(), String>)
        ensures
            final(self)@ == match loaded {
                Ok(_) => {
                    let c = PipelineView { engine_ready: true, ..old(self)@.core };
                    old(self)@.with(c.with_app(c.app.restored()))
                },
                Err(e) => old(self)@.with(
                    old(self)@.core.with_app(old(self)@.core.app.failed("models: "@ + e@)),
                ),
            },
    {
        match loaded {
            Ok(_) => {
                self.set_engine();
                self.core.restore_status();
            },
            Err(e) => {
                self.core.fail(joined("models: ", e.as_str()));
            },
        }
    }

    fn clear_translated_captions_only(&mut self)
        ensures
            final(self)@ == old(self)@.captions_cleared(),
    {
        reveal(PollingView::captions_cleared);
        if !self.core.has_captions() {
            return;
        }
        self.core.drop_overlay_captions();
        self.core.order(OverlayCommand::Clear);
    }

    fn clear_stale_overlay(&mut self)
        ensures
            final(self)@ == old(self)@.stale_cleared(),
    {
        reveal(PollingView::stale_cleared);
        if self.core.has_captions() || self.core.has_blocks() {
            self.can_retry = false;
        }
        self.core.clear_stale_overlay();
    }

    /// Expire captions after raw OCR went empty, even when capture stops producing frames.
    pub fn maybe_expire_raw_empty(&mut self, now: u128)
        ensures
            final(self)@ == old(self)@.raw_empty_expired(now),
    {
        reveal(PollingView::raw_empty_expired);
        let (empty, content, miss): (Option<u128>, Option<u128>, Option<u128>) =
            self.core.timers();
        match empty {
            Some(since) => {
                if has_lasted(now, since, self.core.raw_empty_grace()) {
                    self.core.set_timers(None, content, miss);
                    self.clear_stale_overlay();
                }
            },
            None => {},
        }
    }

    fn read_blank(&mut self, durable: &Vec<OcrBlock>, now: u128)
        ensures
            final(self)@ == old(self)@.blank_read(durable@, now),
    {
        reveal(PollingView::blank_read);
        let (empty, content, miss): (Option<u128>, Option<u128>, Option<u128>) =
            self.core.timers();
        let since: u128 = since_or_now(empty, now);
        if durable.len() == 0 || has_lasted(now, since, self.core.raw_empty_grace()) {
            self.core.set_timers(None, content, miss);
            self.clear_stale_overlay();
        } else {
            self.core.set_timers(Some(since), content, miss);
        }
    }

    fn filter_raw(
        &mut self,
        raw: &Vec<OcrBlock>,
        measures: &Vec<Vec<TrackMeasure>>,
        now: u128,
    ) -> (r: Vec<OcrBlock>)
        requires
            measured(old(self)@.core.tracks, raw@, measures@),
        ensures
            r@ == old(self)@.durable(raw@, rows(measures@), now),
            final(self)@ == old(self)@.filtered(raw@, rows(measures@), now),
            final(self)@.core.gate == old(self)@.core.gate,
    {
        reveal(PollingView::filtered);
        self.core.filter_blocks(raw, measures, now)
    }

    fn see_text(&mut self)
        ensures
            final(self)@ == old(self)@.text_seen(),
            final(self)@.core.gate == old(self)@.core.gate,
    {
        reveal(PollingView::text_seen);
        let (_, content, miss): (Option<u128>, Option<u128>, Option<u128>) = self.core.timers();
        self.core.set_timers(None, content, miss);
    }

    fn linger(&mut self, raw: &Vec<OcrBlock>)
        ensures
            final(self)@ == old(self)@.lingering(raw@),
    {
        reveal(PollingView::lingering);
        // Tracks stay: text would never linger otherwise.
        self.clear_translated_captions_only();
        self.core.set_ocr_blocks(raw);
        self.can_retry = false;
        if self.core.is_auto_running() {
            self.core.set_status(PipelineStatus::Capturing);
        }
    }

    fn settle(&mut self, blocks: &Vec<OcrBlock>, elapsed_ms: u64)
        ensures
            final(self)@ == old(self)@.settling(blocks@, elapsed_ms),
    {
        self.core.set_ocr_blocks(blocks);
        self.core.set_status(PipelineStatus::WaitingForStable { elapsed_ms });
    }

    fn record_page(&mut self, page: &PendingPage)
        ensures
            final(self)@ == old(self)@.page_recorded(page@),
    {
        reveal(PollingView::page_recorded);
        self.core.set_page(page);
        self.core.set_ocr_blocks(&page.blocks);
        self.can_retry = true;
    }

    fn pass_gate(&mut self, blocks: Vec<OcrBlock>, width: u32, height: u32, now: u128) -> (r:
        Option<Vec<OcrBlock>>)
        ensures
            final(self)@ == old(self)@.gated(blocks@, width, height, now),
            match r {
                Some(b) => old(self)@.core.gate_outcome(blocks@, now) is AlreadyEmitted && b@
                    == blocks@,
                None => !(old(self)@.core.gate_outcome(blocks@, now) is AlreadyEmitted),
            },
    {
        reveal(PollingView::gated);
        match self.core.observe(&blocks, now) {
            StabilityOutcome::Changed => {
                self.clear_translated_captions_only();
                self.settle(&blocks, 0);
                self.can_retry = false;
                None
            },
            StabilityOutcome::Waiting { elapsed_ms } => {
                self.settle(&blocks, elapsed_ms);
                None
            },
            StabilityOutcome::Ready { fingerprint, elapsed_ms: _ } => {
                let source_text: String = blocks_to_text(&blocks);
                let page: PendingPage = PendingPage {
                    blocks,
                    source_text,
                    fingerprint,
                    content_width: width,
                    content_height: height,
                };
                self.record_page(&page);
                self.start_translate(page, false);
                None
            },
            StabilityOutcome::AlreadyEmitted { fingerprint: _ } => Some(blocks),
        }
    }

    /// Begin the automatic OCR of a frame. False when a translation runs.
    pub fn begin_ocr(&mut self) -> (r: bool)
        ensures
            r == !old(self)@.core.is_translating(),
            final(self)@ == if r {
                old(self)@.with(old(self)@.core.ocr_begun())
            } else {
                old(self)@
            },
    {
        if self.core.translates() {
            return false;
        }
        self.core.begin_ocr();
        true
    }

    /// The engine read a frame, or failed. The blocks that are returned go to
    /// [`Self::consume_raw_ocr`].
    pub fn on_ocr(&mut self, result: Result<Vec<OcrBlock>, String>, ocr_ms: u64) -> (r: Option<
        Vec<OcrBlock>,
    >)
        ensures
            match result {
                Ok(blocks) => {
                    &&& r matches Some(b)
                    &&& b@ == blocks@
                    &&& final(self)@ == old(self)@.with(
                        old(self)@.core.with_app(
                            AppView {
                                last_ocr_ms: Some(ocr_ms),
                                last_ocr_block_count: blocks@.len() as u32,
                                ..old(self)@.core.app
                            },
                        ),
                    )
                },
                Err(e) => r is None && final(self)@ == old(self)@.with(
                    old(self)@.core.with_app(old(self)@.core.app.failed("OCR: "@ + e@)),
                ),
            },
    {
        match result {
            Ok(blocks) => {
                self.core.show_ocr_run(ocr_ms, blocks.len());
                Some(blocks)
            },
            Err(e) => {
                self.core.fail(joined("OCR: ", e.as_str()));
                None
            },
        }
    }

    /// Follow the blocks that were read from a frame. The blocks that are returned are those of a
    /// page whose captions are shown: they go to [`Self::follow_page`].
    ///
    /// `measures` holds, for each block, how it lies to each track of the filter.
    pub fn consume_raw_ocr(
        &mut self,
        raw: Vec<OcrBlock>,
        width: u32,
        height: u32,
        measures: &Vec<Vec<TrackMeasure>>,
        now: u128,
    ) -> (r: Option<Vec<OcrBlock>>)
        requires
            measured(old(self)@.core.tracks, raw@, measures@),
        ensures
            final(self)@ == old(self)@.raw_consumed(raw@, width, height, rows(measures@), now),
            match r {
                Some(b) => old(self)@.blocks_to_follow(raw@, rows(measures@), now) == Some(b@),
                None => old(self)@.blocks_to_follow(raw@, rows(measures@), now) is None,
            },
    {
        reveal(PollingView::raw_consumed);
        reveal(PollingView::blocks_to_follow);
        let ghost gate = self@.core.gate;
        let durable: Vec<OcrBlock> = self.filter_raw(&raw, measures, now);
        if raw.len() == 0 {
            self.read_blank(&durable, now);
            return None;
        }
        self.see_text();
        assert(self@.core.gate == gate);
        if durable.len() == 0 {
            self.linger(&raw);
            return None;
        }
        self.pass_gate(durable, width, height, now)
    }

    /// Let the captions follow the blocks of their page. `measures` holds, for each block, how it
    /// lies to each caption shown.
    pub fn follow_page(
        &mut self,
        blocks: &Vec<OcrBlock>,
        measures: &Vec<Vec<RelayoutMeasure>>,
        width: u32,
        height: u32,
    )
        requires
            measures@.len() == blocks@.len(),
            forall|i: int| 0 <= i < measures@.len() ==> (#[trigger] measures@[i])@.len()
                == old(self)@.core.app.captions.len(),
        ensures
            final(self)@ == old(self)@.captions_followed(
                blocks@,
                relayouts(measures@),
                width,
                height,
            ),
    {
        reveal(PollingView::captions_followed);
        let resized: bool = !self.core.has_page() || self.core.capture_content_resized(
            width,
            height,
        );
        let before: Vec<TranslatedBlock> = self.core.captions();
        let kept: Vec<TranslatedBlock> = follow_captions(&before, blocks, measures, !resized);
        let changed: bool = followed_captions_changed(&before, &kept);
        self.core.set_ocr_blocks(blocks);
        if kept.len() == 0 && before.len() > 0 {
            self.clear_stale_overlay();
            return;
        }
        if kept.len() > 0 {
            self.core.show_followed(kept, changed || resized, width, height);
        } else if self.core.is_auto_running() {
            self.core.set_status(PipelineStatus::Capturing);
        }
    }

    /// The engine read the frame of a manual capture. The page goes past the stability gate.
    pub fn run_ocr_manual(
        &mut self,
        result: Result<Vec<OcrBlock>, String>,
        ocr_ms: u64,
        width: u32,
        height: u32,
        now: u128,
    )
        ensures
            match result {
                Ok(blocks) => {
                    let fp = OcrFingerprint(page_fingerprint(blocks@));
                    let page = PipelineView::page_of(blocks@, fp, width, height);
                    let c = old(self)@.core.with_app(
                        AppView {
                            last_ocr_ms: Some(ocr_ms),
                            last_ocr_block_count: blocks@.len() as u32,
                            ..old(self)@.core.app
                        },
                    );
                    final(self)@ == old(self)@.with(
                        PipelineView { gate: c.gate.forced(fp, now), ..c },
                    ).page_recorded(page).translate_begun(page, true)
                },
                Err(e) => final(self)@ == old(self)@.with(
                    old(self)@.core.with_app(old(self)@.core.app.failed("OCR: "@ + e@)),
                ),
            },
    {
        match self.on_ocr(result, ocr_ms) {
            Some(blocks) => {
                let source_text: String = blocks_to_text(&blocks);
                let fingerprint: OcrFingerprint = OcrFingerprint::from_blocks(&blocks);
                self.core.force_gate(fingerprint, now);
                let page: PendingPage = PendingPage {
                    blocks,
                    source_text,
                    fingerprint,
                    content_width: width,
                    content_height: height,
                };
                self.record_page(&page);
                self.start_translate(page, true);
            },
            None => {},
        }
    }

    /// The window of a one-shot capture: the overlay is put on it.
    pub fn on_one_shot(&mut self, target: CaptureTarget)
        ensures
            ({
                let c = old(self)@.core.orders(OverlayOrder::Attach { target_hwnd: target.hwnd });
                final(self)@ == old(self)@.with(
                    c.with_app(
                        AppView { title: Some(target.title@), hwnd: Some(target.hwnd), ..c.app },
                    ),
                )
            }),
    {
        self.core.order(OverlayCommand::Attach { target_hwnd: target.hwnd });
        self.core.show_target(&target);
    }

    /// The frame of a manual capture came, or did not come in time. True when the engine is to
    /// read it.
    pub fn on_manual_frame(&mut self, frame: Option<&CapturedFrame>) -> (r: bool)
        ensures
            r == (frame is Some && old(self)@.core.engine_ready),
            final(self)@ == match frame {
                Some(f) => {
                    let p = old(self)@.previewed(f@);
                    if p.core.engine_ready {
                        p.with(
                            p.core.with_app(
                                AppView { status: StatusView::RunningOcr, ..p.core.app },
                            ),
                        )
                    } else {
                        p
                    }
                },
                None => old(self)@.with(
                    old(self)@.core.with_app(
                        old(self)@.core.app.failed("manual capture timeout"@),
                    ),
                ),
            },
    {
        reveal(PollingView::previewed);
        match frame {
            Some(f) => {
                self.update_preview(f);
                let ready: bool = self.core.has_engine();
                if ready {
                    self.core.set_status(PipelineStatus::RunningOcr);
                }
                ready
            },
            None => {
                self.core.fail(owned("manual capture timeout"));
                false
            },
        }
    }

    fn update_preview(&mut self, frame: &CapturedFrame)
        ensures
            final(self)@ == old(self)@.previewed(frame@),
    {
        reveal(PollingView::previewed);
        self.frame_count = frame.sequence;
        self.core.preview_frame(frame, self.show_preview);
    }

    fn should_reread(&self, now: u128) -> (r: bool)
        ensures
            r == self@.rereads(now),
    {
        let ms: u64 = self.core.capture_interval();
        let interval: u64 = if ms < 50 {
            50
        } else {
            ms
        };
        match self.last_ocr_at {
            Some(t) => has_lasted(now, t, interval),
            None => true,
        }
    }

    fn show_without_engine(&mut self)
        ensures
            final(self)@ == old(self)@.without_engine(),
    {
        reveal(PollingView::without_engine);
        let stays: bool = match self.core.status() {
            PipelineStatus::Error { .. } => true,
            PipelineStatus::LoadingModels => true,
            PipelineStatus::Translating => true,
            PipelineStatus::OverlayActive => true,
            PipelineStatus::Cancelled => true,
            _ => false,
        };
        if !stays {
            self.core.set_status(PipelineStatus::Capturing);
        }
    }

    /// One capture turn: the frame that is returned is for the engine to read.
    ///
    /// New frames are read at once. Without one, the last frame is read again on the capture
    /// interval, so that persistence and stability advance on a static window. In between,
    /// captions of a blank screen expire.
    pub fn capture_turn(
        &mut self,
        running: bool,
        new_frame: Option<CapturedFrame>,
        now: u128,
    ) -> (r: Option<CapturedFrame>)
        ensures
            final(self)@ == old(self)@.turned(running, optional_view(new_frame), now),
            optional_view(r) == old(self)@.turn_frame(running, optional_view(new_frame), now),
    {
        reveal(PollingView::turned);
        if !running || self.job.is_some() {
            return None;
        }
        let ready: bool = self.core.has_engine();
        let frame: Option<CapturedFrame> = match new_frame {
            Some(f) => {
                self.last_frame = Some(f.clone());
                Some(f)
            },
            None => if self.should_reread(now) {
                match &self.last_frame {
                    Some(f) => Some(f.clone()),
                    None => None,
                }
            } else {
                None
            },
        };
        match frame {
            Some(f) => {
                self.last_ocr_at = Some(now);
                self.update_preview(&f);
                if ready {
                    Some(f)
                } else {
                    self.show_without_engine();
                    None
                }
            },
            None => {
                self.maybe_expire_raw_empty(now);
                None
            },
        }
    }

    /// The running request ended.
    pub fn finish_translate(&mut self, outcome: PageOutcome)
        ensures
            final(self)@ == match old(self)@.job {
                Some(page) => old(self)@.translate_finished(page, outcome),
                None => old(self)@,
            },
    {
        reveal(PollingView::translate_finished);
        let mut job: Option<PendingPage> = None;
        std::mem::swap(&mut job, &mut self.job);
        let page: PendingPage = match job {
            Some(p) => p,
            None => {
                return;
            },
        };
        self.can_retry = true;
        match outcome {
            PageOutcome::Done { translated, translated_text } => {
                self.core.finish_page(page, translated, translated_text);
            },
            PageOutcome::BadReply(e) => {
                // No unreadable reply stays as conversation context.
                self.core.fail_request(joined("translate parse: ", e.as_str()));
            },
            PageOutcome::Cancelled => {
                self.core.cancel_request();
            },
            PageOutcome::Failed(e) => {
                self.core.fail_request(joined("translate: ", e.as_str()));
            },
        }
    }
}

/// A page stays translatable: after a failed or cancelled request the same page is sent again on
/// retry.
pub proof fn law_failed_page_can_be_retried(p: PollingView, page: Page, outcome: PageOutcome)
    requires
        !(outcome is Done),
        p.core.page == Some(page),
        has_text(page),
    ensures
        p.translate_finished(page, outcome).can_retry,
        p.translate_finished(page, outcome).retried().job == Some(page),
        p.translate_finished(page, outcome).retried().core.app.status == StatusView::Translating,
{
    reveal(PipelineView::asks);
    reveal(PipelineView::orders);
    reveal(PollingView::translate_finished);
    reveal(PipelineView::request_failed);
    reveal(PipelineView::request_cancelled);
    reveal(PollingView::retried);
    reveal(PollingView::translate_begun);
    reveal(PipelineView::page_sent);
    reveal(AppView::failed);
    reveal(AppView::resting);
}

/// The flag that a request is in flight is set exactly while one is: every command keeps it so,
/// and so does a request that starts or ends, or a capture that starts while there is none.
pub proof fn law_in_flight_while_a_request_runs(
    p: PollingView,
    cmd: PollingCommand,
    target: CaptureTarget,
    page: Page,
    force: bool,
    outcome: PageOutcome,
)
    requires
        p.in_flight_is_job(),
    ensures
        p.commanded(cmd).0.in_flight_is_job(),
        p.job is None ==> p.capture_started(target).in_flight_is_job(),
        p.translate_begun(page, force).in_flight_is_job(),
        p.translate_finished(page, outcome).in_flight_is_job(),
{
    reveal(PipelineView::asks);
    reveal(PipelineView::orders);
    reveal(PipelineView::painted);
    reveal(PipelineView::page_finished);
    reveal(PipelineView::request_failed);
    reveal(PipelineView::request_cancelled);
    reveal(PipelineView::page_emptied);
    reveal(PipelineView::page_unchanged);
    reveal(PipelineView::page_sent);
    reveal(PollingView::job_aborted);
    reveal(PollingView::shut_down);
    reveal(PollingView::reading_reset);
    reveal(PollingView::capture_stopped);
    reveal(PollingView::capture_started);
    reveal(PollingView::translate_begun);
    reveal(PollingView::retried);
    reveal(PollingView::translate_cancelled);
    reveal(PollingView::conversation_reset);
    reveal(PollingView::config_begun);
    reveal(PollingView::translate_finished);
    reveal(AppView::failed);
    reveal(AppView::resting);
    reveal(AppView::restored);
    reveal(AppView::remembered);
}

spec fn same_flight(p: PollingView, q: PollingView) -> bool {
    p.core.app.translate_in_flight == q.core.app.translate_in_flight && p.job == q.job
}

proof fn lemma_cleared_flight(p: PollingView, now: u128)
    ensures
        same_flight(p, p.captions_cleared()),
        same_flight(p, p.stale_cleared()),
        same_flight(p, p.raw_empty_expired(now)),
{
    reveal(PipelineView::orders);
    reveal(PipelineView::asks);
    reveal(PipelineView::stale_cleared);
    reveal(PollingView::captions_cleared);
    reveal(PollingView::stale_cleared);
    reveal(PollingView::raw_empty_expired);
    reveal(AppView::resting);
}

proof fn lemma_begun_flight(p: PollingView, page: Page, force: bool)
    requires
        p.in_flight_is_job(),
    ensures
        p.translate_begun(page, force).in_flight_is_job(),
{
    reveal(PipelineView::orders);
    reveal(PipelineView::asks);
    reveal(PipelineView::page_emptied);
    reveal(PipelineView::page_unchanged);
    reveal(PipelineView::page_sent);
    reveal(PollingView::translate_begun);
    reveal(AppView::resting);
}

proof fn lemma_gated_flight(
    p: PollingView,
    blocks: Seq<OcrBlock>,
    width: u32,
    height: u32,
    now: u128,
)
    requires
        p.in_flight_is_job(),
    ensures
        p.gated(blocks, width, height, now).in_flight_is_job(),
{
    reveal(PollingView::gated);
    let q = p.with(p.core.gate_observed(blocks, now));
    lemma_cleared_flight(q, now);
    match p.core.gate_outcome(blocks, now) {
        StabilityOutcome::Ready { fingerprint, .. } => {
            let page = PipelineView::page_of(blocks, fingerprint, width, height);
            assert(same_flight(q, q.page_recorded(page))) by {
                reveal(PollingView::page_recorded);
            }
            lemma_begun_flight(q.page_recorded(page), page, false);
        },
        _ => {},
    }
}

proof fn lemma_followed_flight(
    p: PollingView,
    blocks: Seq<OcrBlock>,
    measures: Seq<Seq<RelayoutMeasure>>,
    width: u32,
    height: u32,
)
    ensures
        same_flight(p, p.captions_followed(blocks, measures, width, height)),
{
    reveal(PollingView::captions_followed);
    let c = p.core.with_app(AppView { ocr: blocks, ..p.core.app });
    lemma_cleared_flight(p.with(c), 0);
    assert forall|kept: Seq<TranslatedBlock>, repaint: bool|
        (#[trigger] c.captions_shown(kept, repaint, width, height)).app.translate_in_flight
            == c.app.translate_in_flight by {
        reveal(PipelineView::orders);
        reveal(PipelineView::asks);
        reveal(PipelineView::painted);
        reveal(PipelineView::captions_shown);
    }
}

/// Reading frames leaves the flag that a request is in flight true exactly while one is.
pub proof fn law_in_flight_is_kept_by_readings(
    p: PollingView,
    raw: Seq<OcrBlock>,
    width: u32,
    height: u32,
    measures: Seq<Seq<TrackMeasure>>,
    relayout: Seq<Seq<RelayoutMeasure>>,
    running: bool,
    frame: Option<FrameView>,
    now: u128,
)
    requires
        p.in_flight_is_job(),
    ensures
        p.raw_consumed(raw, width, height, measures, now).in_flight_is_job(),
        p.captions_followed(raw, relayout, width, height).in_flight_is_job(),
        p.turned(running, frame, now).in_flight_is_job(),
{
    lemma_followed_flight(p, raw, relayout, width, height);
    assert(same_flight(p, p.turned(running, frame, now))) by {
        reveal(PollingView::turned);
        reveal(PollingView::previewed);
        reveal(PollingView::without_engine);
        lemma_cleared_flight(p, now);
    }
    reveal(PollingView::raw_consumed);
    let durable = p.durable(raw, measures, now);
    let q = p.filtered(raw, measures, now);
    assert(same_flight(p, q)) by {
        reveal(PollingView::filtered);
    }
    let seen = q.text_seen();
    assert(same_flight(q, seen)) by {
        reveal(PollingView::text_seen);
    }
    assert(same_flight(q, q.blank_read(durable, now))) by {
        reveal(PollingView::blank_read);
        lemma_cleared_flight(
            q.with(PipelineView { raw_empty_since: None, ..q.core }),
            now,
        );
    }
    assert(same_flight(seen, seen.lingering(raw))) by {
        reveal(PollingView::lingering);
        lemma_cleared_flight(seen, now);
    }
    lemma_gated_flight(seen, durable, width, height, now);
}

/// A static window is read again: once the interval is over, the last frame is read without a new
/// one.
pub proof fn law_static_window_is_read_again(p: PollingView, frame: FrameView, now: u128)
    requires
        p.last_frame == Some(frame),
        p.job is None,
        p.core.engine_ready,
        p.rereads(now),
    ensures
        p.turn_frame(true, None, now) == Some(frame),
        p.turned(true, None, now).last_ocr_at == Some(now),
{
    reveal(PollingView::turned);
    reveal(PollingView::previewed);
}

/// Captions of unchanged text keep their boxes under detector jitter.
pub proof fn law_jitter_keeps_boxes(
    captions: Seq<TranslatedBlock>,
    blocks: Seq<OcrBlock>,
    measures: Seq<Seq<RelayoutMeasure>>,
    n: int,
    k: int,
)
    requires
        0 <= n <= blocks.len(),
        forall|i: int, j: int|
            0 <= i < blocks.len() && 0 <= j < captions.len()
                ==> !(#[trigger] measures[i][j]).significant(),
        0 <= k < followed(captions, blocks, measures, true, n).len(),
    ensures
        exists|t: int|
            0 <= t < captions.len() && (#[trigger] captions[t]).bbox == followed(
                captions,
                blocks,
                measures,
                true,
                n,
            )[k].bbox && captions[t].translation == followed(
                captions,
                blocks,
                measures,
                true,
                n,
            )[k].translation,
    decreases n,
{
    if n > 0 {
        let before = followed(captions, blocks, measures, true, n - 1);
        if k < before.len() {
            law_jitter_keeps_boxes(captions, blocks, measures, n - 1, k);
        } else {
            let key = collapse(blocks[n - 1].text@);
            let t = first_source(captions, key, captions.len() as int)->0;
            lemma_first_source_bound(captions, key, captions.len() as int);
            assert(!measures[n - 1][t].significant());
            assert(captions[t].bbox == followed(captions, blocks, measures, true, n)[k].bbox);
        }
    }
}

proof fn lemma_first_source_bound(captions: Seq<TranslatedBlock>, key: Seq<char>, n: int)
    ensures
        first_source(captions, key, n) matches Some(i) ==> 0 <= i < n,
    decreases n,
{
    if n > 0 {
        lemma_first_source_bound(captions, key, n - 1);
    }
}

} // verus!
