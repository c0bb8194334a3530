//! Pipeline worker: owns capture, OCR and translation state and answers commands.

use crate::config::{ApiConfig, AppConfig};
use crate::filter::{BlockPersistenceFilter, Persistence, Track};
use crate::fingerprint::OcrFingerprint;
use crate::frame::{bytes_clone, bytes_of, CapturedFrame, LastRawOcr, RawOcr};
use crate::pipeline::command::{
    effects, Action, Effect, OverlayCommand, OverlayEvent, OverlayOrder, PipelineCommand,
};
use crate::region_presets::{sanitize_regions, surviving};
use crate::resize_watch::ResizeWatch;
use crate::session::{CaptureSession, CaptureTarget};
use crate::stability::StabilityGate;
use crate::state::{app_view, AppState, AppView, PipelineStatus, PreviewView, StatusView};
use crate::text::{joined, owned};
use crate::types::{
    copy_blocks, copy_regions, ModelTier, NormRect, OcrBlock, TranslatedBlock,
};
use vstd::prelude::*;

verus! {

/// A page of text that is to be translated.
#[derive(Debug)]
pub struct PendingPage {
    pub blocks: Vec<OcrBlock>,
    pub source_text: String,
    pub fingerprint: OcrFingerprint,
    pub content_width: u32,
    pub content_height: u32,
}

/// A page as plain values.
pub struct Page {
    pub blocks: Seq<OcrBlock>,
    pub source: Seq<char>,
    pub fingerprint: OcrFingerprint,
    pub width: u32,
    pub height: u32,
}

impl View for PendingPage {
    type V = Page;

    open spec fn view(&self) -> Page {
        Page {
            blocks: self.blocks@,
            source: self.source_text@,
            fingerprint: self.fingerprint,
            width: self.content_width,
            height: self.content_height,
        }
    }
}

impl PendingPage {
    /// Copy of the page.
    pub fn copy(&self) -> (r: PendingPage)
        ensures
            r@ == self@,
    {
        PendingPage {
            blocks: copy_blocks(&self.blocks),
            source_text: self.source_text.clone(),
            fingerprint: self.fingerprint,
            content_width: self.content_width,
            content_height: self.content_height,
        }
    }
}

/// A translation request that runs.
#[derive(Debug)]
pub struct InflightTranslate {
    pub fingerprint: OcrFingerprint,
    pub blocks: Vec<OcrBlock>,
    pub content_width: u32,
    pub content_height: u32,
    /// Unique blocks actually sent to the model (ids preserved).
    pub miss_blocks: Vec<OcrBlock>,
    /// Remembered translation of each source block (`None` = wait for the model).
    pub cached_hits: Vec<Option<String>>,
    /// Overlay at job start. Restored on retry / fail.
    pub revert_blocks: Vec<TranslatedBlock>,
}

/// A translation request as plain values.
pub struct Job {
    pub fingerprint: OcrFingerprint,
    pub blocks: Seq<OcrBlock>,
    pub width: u32,
    pub height: u32,
    pub misses: Seq<OcrBlock>,
    pub hits: Seq<Option<String>>,
    pub revert: Seq<TranslatedBlock>,
}

impl View for InflightTranslate {
    type V = Job;

    open spec fn view(&self) -> Job {
        Job {
            fingerprint: self.fingerprint,
            blocks: self.blocks@,
            width: self.content_width,
            height: self.content_height,
            misses: self.miss_blocks@,
            hits: self.cached_hits@,
            revert: self.revert_blocks@,
        }
    }
}

/// Pipeline state machine.
#[derive(Debug)]
pub struct Pipeline {
    pub state: AppState,
    pub session: CaptureSession,
    pub gate: StabilityGate,
    pub persist: BlockPersistenceFilter,
    /// The host has a loaded OCR engine.
    pub engine_ready: bool,
    /// Settings of the translation client.
    pub client_api: ApiConfig,
    pub last_translated_fp: Option<OcrFingerprint>,
    pub last_page: Option<PendingPage>,
    pub inflight: Option<InflightTranslate>,
    /// Tier of the background model load that runs.
    pub model_load: Option<ModelTier>,
    pub ocr_tier: ModelTier,
    pub last_raw_ocr: Option<LastRawOcr>,
    /// Raise-on-restart offset added to frame sequences in preview state, so a renumbered stream
    /// never reuses a sequence the preview skip / UI cache saw.
    pub preview_seq_bias: u64,
    /// When raw OCR first went empty (tracks may still linger).
    pub raw_empty_since: Option<u128>,
    /// When raw OCR last became non-empty.
    pub raw_content_since: Option<u128>,
    /// When the remap of captions first failed while captions are still present.
    pub remap_miss_since: Option<u128>,
    /// The overlay host runs.
    pub overlay_up: bool,
    /// Work left for the host, in order.
    pub actions: Vec<Action>,
}

/// The pipeline as plain values.
pub struct PipelineView {
    pub app: AppView,
    pub session: CaptureSession,
    pub gate: StabilityGate,
    pub persistence: Persistence,
    pub tracks: Seq<Track>,
    pub engine_ready: bool,
    pub client_api: ApiConfig,
    pub last_translated_fp: Option<OcrFingerprint>,
    pub page: Option<Page>,
    pub job: Option<Job>,
    pub model_load: Option<ModelTier>,
    pub ocr_tier: ModelTier,
    pub raw: Option<RawOcr>,
    pub preview_seq_bias: u64,
    pub raw_empty_since: Option<u128>,
    pub raw_content_since: Option<u128>,
    pub remap_miss_since: Option<u128>,
    pub overlay_up: bool,
    pub effects: Seq<Effect>,
}

/// View of an optional value.
pub open spec fn optional_view<T: View>(value: Option<T>) -> Option<T::V> {
    match value {
        Some(v) => Some(v@),
        None => None,
    }
}

/// The pipeline as plain values.
#[verifier::opaque]
pub open spec fn pipeline_view(p: Pipeline) -> PipelineView {
    PipelineView {
        app: p.state@,
        session: p.session,
        gate: p.gate,
        persistence: p.persist.settings,
        tracks: p.persist.tracks@,
        engine_ready: p.engine_ready,
        client_api: p.client_api,
        last_translated_fp: p.last_translated_fp,
        page: optional_view(p.last_page),
        job: optional_view(p.inflight),
        model_load: p.model_load,
        ocr_tier: p.ocr_tier,
        raw: optional_view(p.last_raw_ocr),
        preview_seq_bias: p.preview_seq_bias,
        raw_empty_since: p.raw_empty_since,
        raw_content_since: p.raw_content_since,
        remap_miss_since: p.remap_miss_since,
        overlay_up: p.overlay_up,
        effects: effects(p.actions@),
    }
}

impl View for Pipeline {
    type V = PipelineView;

    open spec fn view(&self) -> PipelineView {
        pipeline_view(*self)
    }
}

impl PipelineView {
    /// Nothing has happened yet: the stability gate and the filter are set up for the config and
    /// have seen nothing.
    pub open spec fn is_fresh(self, app: AppView, overlay_up: bool) -> bool {
        &&& self.gate.cold()
        &&& self.gate.stable_duration_ms == app.config.ocr.stable_duration_ms
        &&& self.gate.max_unstable_ms == app.config.ocr.max_unstable_ms
        &&& self.gate.min_hits == 1
        &&& self.gate.switch_hits == 2
        &&& self == (PipelineView {
            app,
            session: CaptureSession {
                stream: None,
                target: None,
                min_interval_ms: 250,
                resize: ResizeWatch::following(0, None),
            },
            gate: self.gate,
            persistence: Persistence::of_config(app.config.ocr),
            tracks: Seq::empty(),
            engine_ready: false,
            client_api: app.config.api,
            last_translated_fp: None,
            page: None,
            job: None,
            model_load: None,
            ocr_tier: app.config.ocr.model_tier,
            raw: None,
            preview_seq_bias: 0,
            raw_empty_since: None,
            raw_content_since: None,
            remap_miss_since: None,
            overlay_up,
            effects: Seq::empty(),
        })
    }

    /// One more thing for the host to do.
    #[verifier::opaque]
    pub open spec fn asks(self, effect: Effect) -> PipelineView {
        PipelineView { effects: self.effects.push(effect), ..self }
    }

    /// An order to the overlay, if there is one.
    #[verifier::opaque]
    pub open spec fn orders(self, order: OverlayOrder) -> PipelineView {
        if self.overlay_up {
            self.asks(Effect::Overlay(order))
        } else {
            self
        }
    }

    /// The flag that a request is in flight is true exactly while one is.
    pub open spec fn in_flight_is_job(self) -> bool {
        self.app.translate_in_flight == (self.job is Some)
    }

    /// The running request is aborted and its user turn taken back.
    #[verifier::opaque]
    pub open spec fn job_dropped(self) -> PipelineView {
        if self.job is Some {
            (PipelineView {
                job: None,
                app: AppView { translate_in_flight: false, ..self.app },
                ..self
            }).asks(Effect::CancelJob).asks(Effect::RollbackTurn)
        } else {
            self
        }
    }

    /// Nothing of an earlier page is left: gate, tracks, timers, blocks and captions.
    #[verifier::opaque]
    pub open spec fn pages_forgotten(self) -> PipelineView {
        PipelineView {
            gate: self.gate.cleared(),
            tracks: Seq::empty(),
            last_translated_fp: None,
            page: None,
            raw: None,
            raw_empty_since: None,
            raw_content_since: None,
            remap_miss_since: None,
            app: AppView {
                ocr: Seq::empty(),
                captions: Seq::empty(),
                translate_in_flight: false,
                ..self.app
            },
            ..self
        }
    }

    /// The OCR session starts over, with or without the conversation.
    #[verifier::opaque]
    pub open spec fn session_reset(self, clear_conversation: bool) -> PipelineView {
        if clear_conversation {
            self.pages_forgotten().asks(Effect::ClearConversation).asks(Effect::ResetClientSession)
        } else {
            self.pages_forgotten()
        }
    }

    /// The last published preview sequence is added to the bias.
    #[verifier::opaque]
    pub open spec fn sequence_absorbed(self) -> PipelineView {
        PipelineView {
            preview_seq_bias: saturated(self.preview_seq_bias + self.app.preview.sequence),
            ..self
        }
    }

    /// A capture session has started on the target of the session.
    #[verifier::opaque]
    pub open spec fn capture_started(self) -> PipelineView {
        let p = self.session_reset(true).sequence_absorbed().orders(OverlayOrder::Clear);
        let q = match p.session.target {
            Some(t) => p.orders(OverlayOrder::Attach { target_hwnd: t.hwnd }),
            None => p,
        };
        PipelineView {
            app: AppView {
                auto_running: true,
                title: match q.session.target {
                    Some(t) => Some(t.title@),
                    None => None,
                },
                hwnd: match q.session.target {
                    Some(t) => Some(t.hwnd),
                    None => None,
                },
                translate_in_flight: false,
                last_error: None,
                status: StatusView::Capturing,
                ..q.app
            },
            ..q
        }
    }

    /// Capture has ended; the overlay shows nothing.
    #[verifier::opaque]
    pub open spec fn capture_stopped(self) -> PipelineView {
        let p = self.orders(OverlayOrder::CancelRegionSelect).job_dropped();
        let q = (PipelineView { session: p.session.stopped(), ..p }).asks(
            Effect::StopStream,
        ).session_reset(false).orders(OverlayOrder::Detach).orders(OverlayOrder::Clear);
        PipelineView {
            app: AppView {
                auto_running: false,
                hwnd: None,
                translate_in_flight: false,
                status: StatusView::Idle,
                ..q.app
            },
            ..q
        }
    }

    /// The OCR crops are replaced.
    #[verifier::opaque]
    pub open spec fn regions_applied(self, regions: Seq<NormRect>) -> PipelineView {
        (PipelineView {
            app: AppView {
                regions,
                region_draft: Seq::empty(),
                region_select_active: false,
                ..self.app
            },
            ..self
        }).job_dropped().pages_forgotten().orders(OverlayOrder::Clear)
    }

    /// The shared state is replaced.
    pub open spec fn with_app(self, app: AppView) -> PipelineView {
        PipelineView { app, ..self }
    }

    /// The conversation starts over.
    #[verifier::opaque]
    pub open spec fn conversation_reset(self) -> PipelineView {
        let p = self.asks(Effect::ClearConversation).asks(Effect::ResetClientSession);
        let app = AppView { history: Seq::empty(), ..p.app };
        PipelineView {
            last_translated_fp: None,
            app: if p.model_load is None {
                app.restored()
            } else {
                app
            },
            ..p
        }
    }

    /// The translation cache is empty.
    #[verifier::opaque]
    pub open spec fn cache_cleared(self) -> PipelineView {
        let p = self.asks(Effect::ClearCache);
        let app = AppView { cache_len: 0, ..p.app };
        p.with_app(
            if p.model_load is None {
                app.restored()
            } else {
                app
            },
        )
    }

    /// A frame is published to the preview, unless it is the one shown.
    #[verifier::opaque]
    pub open spec fn previewed(self, frame: CapturedFrame) -> PipelineView {
        let sequence = saturated(frame.sequence + self.preview_seq_bias);
        let shown = self.app.preview;
        if shown.sequence == sequence && shown.width == frame.width && shown.height
            == frame.height {
            self
        } else {
            self.with_app(
                AppView {
                    preview: PreviewView {
                        width: frame.width,
                        height: frame.height,
                        sequence,
                        rgba: Some(bytes_of(frame.rgba)),
                    },
                    ..self.app
                },
            )
        }
    }
}

/// The number, held at the largest one that fits.
pub open spec fn saturated(n: int) -> u64 {
    if n > u64::MAX {
        u64::MAX
    } else {
        n as u64
    }
}

/// What the host does next after a command.
#[derive(Debug)]
pub enum CommandStep {
    Done,
    /// The worker is to end.
    Shutdown,
    /// Start a capture stream, then report [`Pipeline::on_capture_started`] or
    /// [`Pipeline::on_capture_failed`].
    StartCapture { hwnd: isize, title: String, min_interval_ms: u64 },
    /// Run a manual capture, starting with [`Pipeline::begin_manual`].
    ManualCapture,
    /// Save the config, then report [`Pipeline::finish_apply_config`].
    SaveConfig(Box<AppConfig>),
    /// Save the current config, then report [`Pipeline::on_display_saved`].
    SaveDisplay,
    /// Attach the overlay and open its region picker, then report
    /// [`Pipeline::on_region_picker`].
    OpenRegionPicker { hwnd: isize, regions: Vec<NormRect> },
}

/// A step as a plain value.
pub enum Request {
    Done,
    Shutdown,
    StartCapture { hwnd: isize, title: Seq<char>, min_interval_ms: u64 },
    ManualCapture,
    SaveConfig(AppConfig),
    SaveDisplay,
    OpenRegionPicker { hwnd: isize, regions: Seq<NormRect> },
}

impl View for CommandStep {
    type V = Request;

    open spec fn view(&self) -> Request {
        match *self {
            CommandStep::Done => Request::Done,
            CommandStep::Shutdown => Request::Shutdown,
            CommandStep::StartCapture { hwnd, title, min_interval_ms } => Request::StartCapture {
                hwnd,
                title: title@,
                min_interval_ms,
            },
            CommandStep::ManualCapture => Request::ManualCapture,
            CommandStep::SaveConfig(cfg) => Request::SaveConfig(*cfg),
            CommandStep::SaveDisplay => Request::SaveDisplay,
            CommandStep::OpenRegionPicker { hwnd, regions } => Request::OpenRegionPicker {
                hwnd,
                regions: regions@,
            },
        }
    }
}

impl PipelineView {
    /// The worker ends: nothing runs any more.
    #[verifier::opaque]
    pub open spec fn shut_down(self) -> PipelineView {
        let p = self.job_dropped();
        let q = (PipelineView { model_load: None, session: p.session.stopped(), ..p }).asks(
            Effect::StopStream,
        );
        if q.overlay_up {
            PipelineView {
                overlay_up: false,
                ..q.orders(OverlayOrder::Clear).asks(Effect::CloseOverlay)
            }
        } else {
            q
        }
    }

    /// The user cancels the translation.
    #[verifier::opaque]
    pub open spec fn translate_cancelled(self) -> PipelineView {
        if self.job is Some {
            self.asks(Effect::CancelJob)
        } else {
            self.with_app(
                (AppView { translate_in_flight: false, ..self.app }).resting(StatusView::Cancelled),
            )
        }
    }

    /// The pipeline and the step after a command.
    pub open spec fn commanded(self, cmd: PipelineCommand) -> (PipelineView, Request) {
        match cmd {
            PipelineCommand::Shutdown => (self.shut_down(), Request::Shutdown),
            PipelineCommand::CancelTranslate => (self.translate_cancelled(), Request::Done),
            PipelineCommand::ApplyConfig(cfg) => (
                self.config_begun(*cfg),
                Request::SaveConfig(*cfg),
            ),
            PipelineCommand::SetOverlayDisplay { enabled, reader_enabled } => (
                self.display_set(enabled, reader_enabled),
                Request::SaveDisplay,
            ),
            PipelineCommand::StopCapture => (self.capture_stopped(), Request::Done),
            PipelineCommand::BeginRegionSelect { hwnd } => if self.overlay_up {
                (self, Request::OpenRegionPicker { hwnd, regions: self.app.regions })
            } else {
                (
                    self.with_app(self.app.failed("overlay is not available"@)),
                    Request::Done,
                )
            },
            PipelineCommand::ConfirmRegionSelect => (
                self.orders(OverlayOrder::ConfirmRegionSelect),
                Request::Done,
            ),
            PipelineCommand::ClearRegionSelect => {
                let p = self.orders(OverlayOrder::ClearRegionSelect);
                (p.with_app(AppView { region_draft: Seq::empty(), ..p.app }), Request::Done)
            },
            PipelineCommand::SetCaptureRegions { regions } => (
                self.orders(OverlayOrder::CancelRegionSelect).regions_applied(
                    surviving(regions@),
                ),
                Request::Done,
            ),
            PipelineCommand::StartCapture { hwnd, title } => if self.model_load is Some {
                (
                    self.with_app(
                        AppView {
                            last_error: Some("OCR models are still downloading or loading"@),
                            ..self.app
                        },
                    ),
                    Request::Done,
                )
            } else if !self.engine_ready {
                (self.with_app(self.app.failed("OCR engine is not ready"@)), Request::Done)
            } else {
                (
                    self.job_dropped(),
                    Request::StartCapture {
                        hwnd,
                        title: title@,
                        min_interval_ms: self.app.config.capture.min_interval_ms,
                    },
                )
            },
            PipelineCommand::ManualCapture => (self, Request::ManualCapture),
            PipelineCommand::ResetConversation => (self.conversation_reset(), Request::Done),
            PipelineCommand::ClearTranslationCache => (self.cache_cleared(), Request::Done),
        }
    }
}

impl Pipeline {
    /// Pipeline for a host whose overlay has been started or not. A model load is asked for.
    pub fn new(state: AppState, overlay_up: bool) -> (r: Pipeline)
        ensures
            exists|p: PipelineView| p.is_fresh(state@, overlay_up) && r@ == #[trigger] p.load_started(),
    {
        let mut pipeline: Pipeline = Pipeline::idle(state, overlay_up);
        // Download and load without blocking the command loop.
        pipeline.start_model_load();
        pipeline
    }

    /// Pipeline that nothing has happened to yet, for a host whose overlay has been started or
    /// not.
    pub fn idle(state: AppState, overlay_up: bool) -> (r: Pipeline)
        ensures
            r@.is_fresh(state@, overlay_up),
    {
        reveal(pipeline_view);
        reveal(app_view);
        let gate: StabilityGate = StabilityGate::from_config(&state.config.ocr);
        let persist: BlockPersistenceFilter = BlockPersistenceFilter::from_config(
            &state.config.ocr,
        );
        let client_api: ApiConfig = state.config.api.clone();
        let ocr_tier: ModelTier = state.config.ocr.model_tier;
        let pipeline: Pipeline = Pipeline {
            state,
            session: CaptureSession::new(),
            gate,
            persist,
            engine_ready: false,
            client_api,
            last_translated_fp: None,
            last_page: None,
            inflight: None,
            model_load: None,
            ocr_tier,
            last_raw_ocr: None,
            preview_seq_bias: 0,
            raw_empty_since: None,
            raw_content_since: None,
            remap_miss_since: None,
            overlay_up,
            actions: Vec::new(),
        };
        assert(effects(pipeline.actions@) =~= Seq::<Effect>::empty());
        assert(pipeline.persist.tracks@ =~= Seq::<Track>::empty());
        pipeline
    }

    /// The work left for the host, which is then no longer left.
    pub fn take_actions(&mut self) -> (r: Vec<Action>)
        ensures
            r@ == old(self).actions@,
            final(self)@ == (PipelineView { effects: Seq::empty(), ..old(self)@ }),
    {
        reveal(pipeline_view);
        let mut taken: Vec<Action> = Vec::new();
        std::mem::swap(&mut taken, &mut self.actions);
        assert(effects(self.actions@) =~= Seq::<Effect>::empty());
        taken
    }

    /// Leave something for the host to do.
    pub fn ask(&mut self, action: Action)
        ensures
            final(self)@ == old(self)@.asks(action@),
    {
        reveal(PipelineView::asks);
        reveal(pipeline_view);
        let ghost before = self.actions@;
        self.actions.push(action);
        assert(effects(self.actions@) =~= effects(before).push(action@));
    }

    /// Give the overlay an order, if there is one.
    pub fn order(&mut self, command: OverlayCommand)
        ensures
            final(self)@ == old(self)@.orders(command@),
    {
        reveal(PipelineView::orders);
        reveal(pipeline_view);
        if self.overlay_up {
            self.ask(Action::Overlay(command));
        }
    }

    /// Abort the running request.
    ///
    /// The pending user turn is taken back, so that stopping in the middle of a request does not
    /// leave a dangling turn for the next translation.
    pub fn cancel_inflight(&mut self)
        ensures
            final(self)@ == old(self)@.job_dropped(),
    {
        reveal(PipelineView::job_dropped);
        reveal(pipeline_view);
        reveal(app_view);
        if self.inflight.is_some() {
            self.inflight = None;
            self.state.translate_in_flight = false;
            self.ask(Action::CancelJob);
            self.ask(Action::RollbackTurn);
        }
    }

    /// How long to wait for the next event: the capture interval while capture runs and nothing
    /// is being translated, else until something happens.
    pub fn next_wait(&self, finished: bool) -> (r: Option<u64>)
        ensures
            r == if self@.session.stream is Some && !finished && self@.job is None {
                let ms = self@.app.config.capture.min_interval_ms;
                Some(
                    if ms < 50 {
                        50u64
                    } else {
                        ms
                    },
                )
            } else {
                None
            },
    {
        reveal(pipeline_view);
        reveal(app_view);
        if self.session.is_running(finished) && self.inflight.is_none() {
            let ms: u64 = self.state.config.capture.min_interval_ms;
            Some(
                if ms < 50 {
                    50
                } else {
                    ms
                },
            )
        } else {
            None
        }
    }

    fn forget_pages(&mut self)
        ensures
            final(self)@ == old(self)@.pages_forgotten(),
    {
        reveal(PipelineView::pages_forgotten);
        reveal(pipeline_view);
        reveal(app_view);
        self.gate.reset_all();
        self.persist.reset();
        self.last_translated_fp = None;
        self.last_page = None;
        self.last_raw_ocr = None;
        self.raw_empty_since = None;
        self.raw_content_since = None;
        self.remap_miss_since = None;
        // No blocks or captions may come back from an earlier session.
        self.state.latest_ocr_blocks = Vec::new();
        self.state.latest_translated_blocks = Vec::new();
        self.state.translate_in_flight = false;
        assert(self.persist.tracks@ =~= Seq::<Track>::empty());
    }

    /// Reset gate, timers and captions, and the conversation if asked for.
    pub fn reset_ocr_session(&mut self, clear_conversation: bool)
        ensures
            final(self)@ == old(self)@.session_reset(clear_conversation),
    {
        reveal(PipelineView::session_reset);
        self.forget_pages();
        if clear_conversation {
            self.ask(Action::ClearConversation);
            self.ask(Action::ResetClientSession);
        }
    }

    /// Absorb the last published preview sequence into the bias.
    ///
    /// A renumbered stream then publishes strictly higher sequences, so the preview skip and the
    /// preview cache never match a stale entry.
    pub fn absorb_preview_sequence(&mut self)
        ensures
            final(self)@ == old(self)@.sequence_absorbed(),
    {
        reveal(PipelineView::sequence_absorbed);
        reveal(pipeline_view);
        reveal(app_view);
        self.preview_seq_bias = self.preview_seq_bias.saturating_add(self.state.preview.sequence);
    }

    /// The host started a capture stream: the session follows it, and everything starts over.
    pub fn on_capture_started(
        &mut self,
        hwnd: isize,
        title: String,
        min_interval_ms: u64,
        size: Option<(u32, u32)>,
    )
        ensures
            final(self)@ == (PipelineView {
                session: CaptureSession::capturing(
                    CaptureTarget { hwnd, title },
                    min_interval_ms,
                    size,
                ),
                ..old(self)@
            }).capture_started(),
    {
        reveal(PipelineView::capture_started);
        self.start_session(hwnd, title, min_interval_ms, size);
        self.reset_ocr_session(true);
        // The fresh stream numbers its frames from one.
        self.absorb_preview_sequence();
        self.order(OverlayCommand::Clear);
        match self.target() {
            Some(t) => {
                self.order(OverlayCommand::Attach { target_hwnd: t.hwnd });
            },
            None => {},
        }
        self.show_capturing();
    }

    fn start_session(
        &mut self,
        hwnd: isize,
        title: String,
        min_interval_ms: u64,
        size: Option<(u32, u32)>,
    )
        ensures
            final(self)@ == (PipelineView {
                session: CaptureSession::capturing(
                    CaptureTarget { hwnd, title },
                    min_interval_ms,
                    size,
                ),
                ..old(self)@
            }),
    {
        reveal(pipeline_view);
        self.session.on_started(hwnd, title, min_interval_ms, size);
    }

    /// The captured window.
    pub fn target(&self) -> (r: Option<CaptureTarget>)
        ensures
            r == self@.session.target,
    {
        reveal(pipeline_view);
        match &self.session.target {
            Some(t) => Some(t.clone()),
            None => None,
        }
    }

    fn show_capturing(&mut self)
        ensures
            final(self)@ == old(self)@.with_app(
                AppView {
                    auto_running: true,
                    title: match old(self)@.session.target {
                        Some(t) => Some(t.title@),
                        None => None,
                    },
                    hwnd: match old(self)@.session.target {
                        Some(t) => Some(t.hwnd),
                        None => None,
                    },
                    translate_in_flight: false,
                    last_error: None,
                    status: StatusView::Capturing,
                    ..old(self)@.app
                },
            ),
    {
        reveal(pipeline_view);
        reveal(app_view);
        self.state.auto_running = true;
        self.state.target_window_title = self.session.target_title();
        self.state.target_hwnd = self.session.target_hwnd();
        self.state.translate_in_flight = false;
        self.state.last_error = None;
        self.state.status = PipelineStatus::Capturing;
    }

    /// Show an error and keep its message.
    pub fn fail(&mut self, message: String)
        ensures
            final(self)@ == old(self)@.with_app(old(self)@.app.failed(message@)),
    {
        reveal(pipeline_view);
        self.state.set_error(message);
    }

    /// Bring the status back to what the flags and the overlay content stand for.
    pub fn restore_status(&mut self)
        ensures
            final(self)@ == old(self)@.with_app(old(self)@.app.restored()),
    {
        reveal(pipeline_view);
        self.state.restore_operational_status();
    }

    /// The overlay host runs.
    pub fn has_overlay(&self) -> (r: bool)
        ensures
            r == self@.overlay_up,
    {
        reveal(pipeline_view);
        self.overlay_up
    }

    /// A translation request runs.
    pub fn has_job(&self) -> (r: bool)
        ensures
            r == (self@.job is Some),
    {
        reveal(pipeline_view);
        self.inflight.is_some()
    }

    /// Tier of the model load that runs.
    pub fn loading(&self) -> (r: Option<ModelTier>)
        ensures
            r == self@.model_load,
    {
        reveal(pipeline_view);
        self.model_load
    }

    /// The host has a loaded OCR engine.
    pub fn has_engine(&self) -> (r: bool)
        ensures
            r == self@.engine_ready,
    {
        reveal(pipeline_view);
        self.engine_ready
    }

    /// The OCR crops.
    pub fn regions(&self) -> (r: Vec<NormRect>)
        ensures
            r@ == self@.app.regions,
    {
        reveal(pipeline_view);
        reveal(app_view);
        copy_regions(&self.state.ocr_regions)
    }

    fn clear_region_draft(&mut self)
        ensures
            final(self)@ == old(self)@.with_app(
                AppView { region_draft: Seq::empty(), ..old(self)@.app },
            ),
    {
        reveal(pipeline_view);
        reveal(app_view);
        self.state.region_select_draft = Vec::new();
    }

    pub(crate) fn capture_interval(&self) -> (r: u64)
        ensures
            r == self@.app.config.capture.min_interval_ms,
    {
        reveal(pipeline_view);
        reveal(app_view);
        self.state.config.capture.min_interval_ms
    }

    /// Say that the models are not loaded yet.
    pub fn warn_loading(&mut self)
        ensures
            final(self)@ == old(self)@.with_app(
                AppView {
                    last_error: Some("OCR models are still downloading or loading"@),
                    ..old(self)@.app
                },
            ),
    {
        reveal(pipeline_view);
        reveal(app_view);
        self.state.last_error = Some(owned("OCR models are still downloading or loading"));
    }

    pub(crate) fn stop_session(&mut self)
        ensures
            final(self)@ == (PipelineView {
                session: old(self)@.session.stopped(),
                ..old(self)@
            }).asks(Effect::StopStream),
    {
        reveal(pipeline_view);
        self.session.stop();
        self.ask(Action::StopStream);
    }

    fn show_stopped(&mut self)
        ensures
            final(self)@ == old(self)@.with_app(
                AppView {
                    auto_running: false,
                    hwnd: None,
                    translate_in_flight: false,
                    status: StatusView::Idle,
                    ..old(self)@.app
                },
            ),
    {
        reveal(pipeline_view);
        reveal(app_view);
        self.state.auto_running = false;
        self.state.target_hwnd = None;
        self.state.translate_in_flight = false;
        self.state.status = PipelineStatus::Idle;
    }

    /// The host could not start a capture stream.
    pub fn on_capture_failed(&mut self, message: String)
        ensures
            final(self)@ == old(self)@.with_app(old(self)@.app.failed(message@)),
    {
        reveal(pipeline_view);
        self.state.set_error(message);
    }

    /// The host opened the region picker, or could not.
    pub fn on_region_picker(&mut self, hwnd: isize, opened: Result<(), String>)
        ensures
            final(self)@ == old(self)@.with_app(
                match opened {
                    Ok(_) => AppView {
                        hwnd: Some(
                            match old(self)@.app.hwnd {
                                Some(h) => h,
                                None => hwnd,
                            },
                        ),
                        region_select_active: true,
                        region_draft: old(self)@.app.regions,
                        ..old(self)@.app
                    },
                    Err(e) => old(self)@.app.failed("region select: "@ + e@),
                },
            ),
    {
        reveal(pipeline_view);
        reveal(app_view);
        match opened {
            Ok(_) => {
                if self.state.target_hwnd.is_none() {
                    self.state.target_hwnd = Some(hwnd);
                }
                self.state.region_select_active = true;
                self.state.region_select_draft = copy_regions(&self.state.ocr_regions);
            },
            Err(e) => {
                self.state.set_error(joined("region select: ", e.as_str()));
            },
        }
    }

    /// Replace the OCR crops by those that have a sanitized form.
    pub fn apply_ocr_regions(&mut self, regions: &Vec<Option<NormRect>>)
        ensures
            final(self)@ == old(self)@.regions_applied(surviving(regions@)),
    {
        reveal(PipelineView::regions_applied);
        reveal(pipeline_view);
        reveal(app_view);
        self.state.ocr_regions = sanitize_regions(regions);
        self.state.region_select_draft = Vec::new();
        self.state.region_select_active = false;
        assert(self@ =~= PipelineView {
            app: AppView {
                regions: surviving(regions@),
                region_draft: Seq::empty(),
                region_select_active: false,
                ..old(self)@.app
            },
            ..old(self)@
        });
        self.on_regions_changed();
    }

    /// Everything read from other crops is forgotten.
    pub fn on_regions_changed(&mut self)
        ensures
            final(self)@ == old(self)@.job_dropped().pages_forgotten().orders(OverlayOrder::Clear),
    {
        self.cancel_inflight();
        self.forget_pages();
        self.order(OverlayCommand::Clear);
    }

    /// Follow what the overlay host reports.
    pub fn apply_overlay_event(&mut self, event: OverlayEvent)
        ensures
            final(self)@ == match event {
                OverlayEvent::RegionsCommitted(regions) => old(self)@.regions_applied(
                    surviving(regions@),
                ),
                OverlayEvent::RegionSelectCancelled => old(self)@.with_app(
                    AppView {
                        region_select_active: false,
                        region_draft: Seq::empty(),
                        ..old(self)@.app
                    },
                ),
                OverlayEvent::RegionSelectUpdated(regions) => old(self)@.with_app(
                    AppView { region_draft: regions@, ..old(self)@.app },
                ),
            },
    {
        reveal(pipeline_view);
        reveal(app_view);
        match event {
            OverlayEvent::RegionsCommitted(regions) => {
                self.apply_ocr_regions(&regions);
            },
            OverlayEvent::RegionSelectCancelled => {
                self.state.region_select_active = false;
                self.state.region_select_draft = Vec::new();
            },
            OverlayEvent::RegionSelectUpdated(regions) => {
                self.state.region_select_draft = regions;
            },
        }
    }

    /// The overlay host has gone.
    pub fn on_overlay_lost(&mut self)
        ensures
            final(self)@ == (PipelineView { overlay_up: false, ..old(self)@ }),
    {
        reveal(pipeline_view);
        self.overlay_up = false;
    }

    /// End capture and clear the overlay.
    pub fn stop_capture(&mut self)
        ensures
            final(self)@ == old(self)@.capture_stopped(),
    {
        reveal(PipelineView::capture_stopped);
        self.order(OverlayCommand::CancelRegionSelect);
        self.cancel_inflight();
        self.stop_session();
        self.reset_ocr_session(false);
        self.order(OverlayCommand::Detach);
        self.order(OverlayCommand::Clear);
        self.show_stopped();
    }

    /// Publish a frame to the preview, unless it is the one shown.
    pub fn update_preview(&mut self, frame: &CapturedFrame)
        ensures
            final(self)@ == old(self)@.previewed(*frame),
    {
        reveal(PipelineView::previewed);
        reveal(pipeline_view);
        reveal(app_view);
        let sequence: u64 = frame.sequence.saturating_add(self.preview_seq_bias);
        if self.state.preview.sequence == sequence && self.state.preview.width == frame.width
            && self.state.preview.height == frame.height {
            return;
        }
        self.state.preview.width = frame.width;
        self.state.preview.height = frame.height;
        self.state.preview.sequence = sequence;
        self.state.preview.rgba = Some(bytes_clone(&frame.rgba));
    }

    fn shutdown(&mut self)
        ensures
            final(self)@ == old(self)@.shut_down(),
    {
        reveal(PipelineView::shut_down);
        self.cancel_inflight();
        self.end_load();
        self.stop_session();
        if self.has_overlay() {
            self.order(OverlayCommand::Clear);
            self.ask(Action::CloseOverlay);
            self.on_overlay_lost();
        }
    }

    /// No model load runs any more.
    pub fn end_load(&mut self)
        ensures
            final(self)@ == (PipelineView { model_load: None, ..old(self)@ }),
    {
        reveal(pipeline_view);
        self.model_load = None;
    }

    fn cancel_translate(&mut self)
        ensures
            final(self)@ == old(self)@.translate_cancelled(),
    {
        reveal(PipelineView::translate_cancelled);
        reveal(pipeline_view);
        reveal(app_view);
        if self.inflight.is_some() {
            self.ask(Action::CancelJob);
        } else {
            self.state.translate_in_flight = false;
            self.state.rest_as(PipelineStatus::Cancelled);
        }
    }

    fn reset_conversation(&mut self)
        ensures
            final(self)@ == old(self)@.conversation_reset(),
    {
        reveal(PipelineView::conversation_reset);
        self.ask(Action::ClearConversation);
        self.ask(Action::ResetClientSession);
        self.forget_history();
        // The status of a model load is left alone.
        if self.loading().is_none() {
            self.restore_status();
        }
    }

    fn forget_history(&mut self)
        ensures
            final(self)@ == (PipelineView {
                last_translated_fp: None,
                app: AppView { history: Seq::empty(), ..old(self)@.app },
                ..old(self)@
            }),
    {
        reveal(pipeline_view);
        self.last_translated_fp = None;
        self.state.trim_history(0);
        assert(self.state@.history =~= Seq::empty());
    }

    fn clear_cache(&mut self)
        ensures
            final(self)@ == old(self)@.cache_cleared(),
    {
        reveal(PipelineView::cache_cleared);
        self.ask(Action::ClearCache);
        self.set_cache_len(0);
        if self.loading().is_none() {
            self.restore_status();
        }
    }

    /// The translation cache has this many entries.
    pub fn set_cache_len(&mut self, cache_len: usize)
        ensures
            final(self)@ == old(self)@.with_app(AppView { cache_len, ..old(self)@.app }),
    {
        reveal(pipeline_view);
        reveal(app_view);
        self.state.translation_cache_len = cache_len;
    }

    /// Follow a command of the UI.
    pub fn handle_command(&mut self, cmd: PipelineCommand) -> (r: CommandStep)
        ensures
            final(self)@ == old(self)@.commanded(cmd).0,
            r@ == old(self)@.commanded(cmd).1,
    {
        match cmd {
            PipelineCommand::Shutdown => {
                self.shutdown();
                CommandStep::Shutdown
            },
            PipelineCommand::CancelTranslate => {
                self.cancel_translate();
                CommandStep::Done
            },
            PipelineCommand::ApplyConfig(cfg) => {
                self.begin_apply_config(&cfg);
                CommandStep::SaveConfig(cfg)
            },
            PipelineCommand::SetOverlayDisplay { enabled, reader_enabled } => {
                self.set_overlay_display(enabled, reader_enabled);
                CommandStep::SaveDisplay
            },
            PipelineCommand::StopCapture => {
                self.stop_capture();
                CommandStep::Done
            },
            PipelineCommand::BeginRegionSelect { hwnd } => {
                if !self.has_overlay() {
                    self.fail(owned("overlay is not available"));
                    return CommandStep::Done;
                }
                CommandStep::OpenRegionPicker { hwnd, regions: self.regions() }
            },
            PipelineCommand::ConfirmRegionSelect => {
                self.order(OverlayCommand::ConfirmRegionSelect);
                CommandStep::Done
            },
            PipelineCommand::ClearRegionSelect => {
                self.order(OverlayCommand::ClearRegionSelect);
                self.clear_region_draft();
                CommandStep::Done
            },
            PipelineCommand::SetCaptureRegions { regions } => {
                self.order(OverlayCommand::CancelRegionSelect);
                self.apply_ocr_regions(&regions);
                CommandStep::Done
            },
            PipelineCommand::StartCapture { hwnd, title } => {
                if self.loading().is_some() {
                    self.warn_loading();
                    return CommandStep::Done;
                }
                if !self.has_engine() {
                    self.fail(owned("OCR engine is not ready"));
                    return CommandStep::Done;
                }
                let min_interval_ms: u64 = self.capture_interval();
                self.cancel_inflight();
                CommandStep::StartCapture { hwnd, title, min_interval_ms }
            },
            PipelineCommand::ManualCapture => CommandStep::ManualCapture,
            PipelineCommand::ResetConversation => {
                self.reset_conversation();
                CommandStep::Done
            },
            PipelineCommand::ClearTranslationCache => {
                self.clear_cache();
                CommandStep::Done
            },
        }
    }
}

} // verus!
