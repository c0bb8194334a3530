//! Automatic and manual OCR, sticky captions, and their expiry.

use crate::clock::{elapsed_millis, has_lasted, lasted, millis_between};
use crate::engine::{block_lines, blocks_to_text};
use crate::filter::{measured, rows, Track, TrackMeasure};
use crate::fingerprint::{page_fingerprint, OcrFingerprint};
use crate::frame::{all_within, bytes_of, rgba_len, scope_of, CapturedFrame, LastRawOcr, RawOcr};
use crate::pipeline::command::{OverlayCommand, OverlayOrder};
use crate::pipeline::translate::CacheRequest;
use crate::pipeline::worker::{pipeline_view, Page, PendingPage, Pipeline, PipelineView};
use crate::client_area::WindowFacts;
use crate::remap::{
    geometry_changed, remap_of, remap_translations_to_ocr, translated_geometry_changed,
};
use crate::session::{CaptureSession, CaptureTarget};
use crate::stability::StabilityOutcome;
use crate::state::{app_view, AppView, PipelineStatus, StatusView};
use crate::text::{joined, owned};
use crate::types::{copy_blocks, copy_translated, OcrBlock, PixelBounds, Rect, TranslatedBlock};
use vstd::prelude::*;

verus! {

/// The point in time, `now` where there was none.
pub open spec fn or_now(since: Option<u128>, now: u128) -> u128 {
    match since {
        Some(t) => t,
        None => now,
    }
}

/// The point in time, `now` where there was none.
pub fn since_or_now(since: Option<u128>, now: u128) -> (r: u128)
    ensures
        r == or_now(since, now),
{
    match since {
        Some(t) => t,
        None => now,
    }
}

/// What the host does next while capture runs.
#[derive(Debug)]
pub enum PollStep {
    /// Nothing to read now.
    Wait,
    /// Make the capture stream anew; report success to [`Pipeline::on_stream_restarted`], then
    /// ask for the frame.
    Restart(CaptureTarget),
    /// Ask for the frame.
    Ready,
}

/// What there is to read.
#[derive(Debug)]
pub enum FrameStep {
    /// No new frame: the blocks of the last one are used again.
    Stale { blocks: Vec<OcrBlock>, width: u32, height: u32 },
    /// A frame for the OCR.
    Frame(CapturedFrame),
    /// A frame that no engine can read yet.
    NoEngine(CapturedFrame),
    NoFrame,
}

/// How the blocks of a frame are had.
#[derive(Debug)]
pub enum OcrStep {
    Skip,
    /// The frame is unchanged.
    Cached(Vec<OcrBlock>),
    /// Run the engine, then report to [`Pipeline::on_ocr`].
    Infer,
}

impl PipelineView {
    /// Captions are gone from state and overlay; blocks, gate, tracks and page stay, so a layout
    /// change in the middle of a page does not restart stability.
    #[verifier::opaque]
    pub open spec fn captions_cleared(self) -> PipelineView {
        if self.app.captions.len() == 0 {
            self
        } else {
            (PipelineView {
                app: AppView { captions: Seq::empty(), ..self.app },
                last_translated_fp: None,
                remap_miss_since: None,
                ..self
            }).orders(OverlayOrder::Clear)
        }
    }

    /// Nothing of a vanished page is left, so that it can be translated anew when it returns.
    #[verifier::opaque]
    pub open spec fn stale_cleared(self) -> PipelineView {
        if self.app.captions.len() == 0 && self.app.ocr.len() == 0 {
            if !(self.app.status is WaitingForStable) && self.app.auto_running {
                self.with_app(AppView { status: StatusView::Capturing, ..self.app })
            } else {
                self
            }
        } else {
            (PipelineView {
                app: (AppView {
                    ocr: Seq::empty(),
                    captions: Seq::empty(),
                    ..self.app
                }).resting(StatusView::Idle),
                tracks: Seq::empty(),
                gate: self.gate.cleared(),
                last_translated_fp: None,
                page: None,
                remap_miss_since: None,
                ..self
            }).orders(OverlayOrder::Clear)
        }
    }

    /// How long captions outlive their text (ms).
    pub open spec fn grace_ms(self) -> u64 {
        let ms = self.app.config.ocr.block_max_miss_ms;
        if ms < 1 {
            1
        } else {
            ms
        }
    }

    /// A blank screen has outlasted the grace: everything goes.
    #[verifier::opaque]
    pub open spec fn raw_empty_expired(self, now: u128) -> PipelineView {
        match self.raw_empty_since {
            Some(since) => if lasted(now, since, self.grace_ms()) {
                (PipelineView { raw_empty_since: None, ..self }).stale_cleared()
            } else {
                self
            },
            None => self,
        }
    }

    /// Captions without text have outlasted the grace: they go.
    #[verifier::opaque]
    pub open spec fn remap_miss_expired(self, now: u128) -> PipelineView {
        match self.remap_miss_since {
            Some(since) => if lasted(now, since, self.grace_ms()) {
                (PipelineView { remap_miss_since: None, ..self }).captions_cleared()
            } else {
                self
            },
            None => self,
        }
    }

    /// The capture surface has another size than the page.
    pub open spec fn content_resized(self, width: u32, height: u32) -> bool {
        self.page matches Some(p) && (p.width != width || p.height != height)
    }

    /// The tracks that the blocks of a frame of this size are compared with: tracks in another
    /// pixel space are dropped.
    pub open spec fn tracks_for(self, width: u32, height: u32) -> Seq<Track> {
        if self.content_resized(width, height) {
            Seq::empty()
        } else {
            self.tracks
        }
    }

    /// Captions follow the text that is still there; without any they go at once, or after the
    /// grace when nothing was read at all.
    #[verifier::opaque]
    pub open spec fn sticky(
        self,
        blocks: Seq<OcrBlock>,
        width: u32,
        height: u32,
        now: u128,
    ) -> PipelineView {
        let resized = self.content_resized(width, height) || self.page is None;
        let kept = remap_of(self.app.captions, blocks, resized);
        let had = self.app.captions.len() > 0;
        let changed = geometry_changed(self.app.captions, kept);
        let p = self.with_app(AppView { ocr: blocks, ..self.app });
        if kept.len() == 0 {
            if had && blocks.len() > 0 {
                p.captions_cleared()
            } else if had {
                (PipelineView {
                    remap_miss_since: Some(or_now(p.remap_miss_since, now)),
                    ..p
                }).remap_miss_expired(now)
            } else {
                p
            }
        } else {
            let q = PipelineView { remap_miss_since: None, ..p };
            if !changed {
                q
            } else {
                let r = q.painted(kept, width, height);
                PipelineView {
                    page: match r.page {
                        Some(page) => Some(Page { width, height, ..page }),
                        None => None,
                    },
                    app: AppView { captions: kept, ..r.app },
                    ..r
                }
            }
        }
    }

    /// Captions follow the text if at least half of them still have theirs; else they go.
    #[verifier::opaque]
    pub open spec fn sticky_or_cleared(
        self,
        blocks: Seq<OcrBlock>,
        width: u32,
        height: u32,
        now: u128,
    ) -> PipelineView {
        let resized = self.content_resized(width, height) || self.page is None;
        let kept = remap_of(self.app.captions, blocks, resized);
        if self.app.captions.len() == 0 {
            self.with_app(AppView { ocr: blocks, ..self.app })
        } else if kept.len() * 2 < self.app.captions.len() {
            self.with_app(AppView { ocr: blocks, ..self.app }).captions_cleared()
        } else {
            self.sticky(blocks, width, height, now)
        }
    }

    /// The page that a stable reading makes.
    pub open spec fn page_of(
        blocks: Seq<OcrBlock>,
        fingerprint: OcrFingerprint,
        width: u32,
        height: u32,
    ) -> Page {
        Page { blocks, source: block_lines(blocks), fingerprint, width, height }
    }

    /// A stable page is about to be translated: the captions of the page before are gone.
    #[verifier::opaque]
    pub open spec fn page_ready(self, page: Page, now: u128) -> PipelineView {
        let p = self.with_app(AppView { ocr: page.blocks, ..self.app }).captions_cleared();
        PipelineView { raw_content_since: Some(now), page: Some(page), ..p }
    }

    /// The stability gate after a reading.
    pub open spec fn gate_observed(self, blocks: Seq<OcrBlock>, now: u128) -> PipelineView {
        PipelineView {
            gate: self.gate.observed(OcrFingerprint(page_fingerprint(blocks)), now).0,
            ..self
        }
    }

    /// What the stability gate says to a reading.
    pub open spec fn gate_outcome(self, blocks: Seq<OcrBlock>, now: u128) -> StabilityOutcome {
        self.gate.observed(OcrFingerprint(page_fingerprint(blocks)), now).1
    }

    /// The pipeline after the stability gate saw a reading.
    #[verifier::opaque]
    pub open spec fn gated(
        self,
        blocks: Seq<OcrBlock>,
        width: u32,
        height: u32,
        now: u128,
    ) -> PipelineView {
        let p = self.gate_observed(blocks, now);
        match self.gate_outcome(blocks, now) {
            StabilityOutcome::Changed => p.with_app(
                AppView {
                    ocr: blocks,
                    status: StatusView::WaitingForStable { elapsed_ms: 0 },
                    ..p.app
                },
            ).captions_cleared(),
            StabilityOutcome::Waiting { elapsed_ms } => {
                let q = p.sticky_or_cleared(blocks, width, height, now);
                q.with_app(
                    AppView { status: StatusView::WaitingForStable { elapsed_ms }, ..q.app },
                )
            },
            StabilityOutcome::Ready { fingerprint, .. } => {
                let page = Self::page_of(blocks, fingerprint, width, height);
                p.page_ready(page, now).translate_begun(page, false)
            },
            StabilityOutcome::AlreadyEmitted { .. } => {
                let q = p.sticky(blocks, width, height, now);
                if q.app.auto_running && q.app.captions.len() > 0 {
                    q.with_app(AppView { status: StatusView::OverlayActive, ..q.app })
                } else {
                    q
                }
            },
        }
    }

    /// The page that is to be looked up after the stability gate saw a reading.
    #[verifier::opaque]
    pub open spec fn gate_request(
        self,
        blocks: Seq<OcrBlock>,
        width: u32,
        height: u32,
        now: u128,
    ) -> Option<Page> {
        match self.gate_outcome(blocks, now) {
            StabilityOutcome::Ready { fingerprint, .. } => {
                let page = Self::page_of(blocks, fingerprint, width, height);
                if self.gate_observed(blocks, now).page_ready(page, now).wants_cache(page, false) {
                    Some(page)
                } else {
                    None
                }
            },
            _ => None,
        }
    }

    /// The pipeline after its filter has seen the blocks of a frame.
    #[verifier::opaque]
    pub open spec fn filtered(
        self,
        raw: Seq<OcrBlock>,
        width: u32,
        height: u32,
        measures: Seq<Seq<TrackMeasure>>,
        now: u128,
    ) -> PipelineView {
        PipelineView {
            tracks: self.persistence.kept(self.tracks_for(width, height), raw, measures, now),
            ..self
        }
    }

    /// A frame without text: captions stay for a grace, unless nothing lingers either.
    #[verifier::opaque]
    pub open spec fn blank_read(self, durable: Seq<OcrBlock>, now: u128) -> PipelineView {
        let since = or_now(self.raw_empty_since, now);
        let p = PipelineView {
            raw_content_since: None,
            remap_miss_since: None,
            raw_empty_since: Some(since),
            ..self
        };
        if durable.len() == 0 || lasted(now, since, self.grace_ms()) {
            (PipelineView { raw_empty_since: None, ..p }).stale_cleared()
        } else {
            p
        }
    }

    /// The blocks that go to the stability gate: what lingers, or the raw reading in a new pixel
    /// space or when it has not settled for too long.
    #[verifier::opaque]
    pub open spec fn chosen(
        self,
        raw: Seq<OcrBlock>,
        durable: Seq<OcrBlock>,
        resized: bool,
        now: u128,
    ) -> Option<Seq<OcrBlock>> {
        let limit = self.app.config.ocr.max_unstable_ms;
        if resized {
            Some(raw)
        } else if durable.len() > 0 {
            Some(durable)
        } else if limit > 0 && lasted(now, or_now(self.raw_content_since, now), limit) {
            Some(raw)
        } else {
            None
        }
    }

    /// Text has been on screen since some time.
    #[verifier::opaque]
    pub open spec fn content_seen(self, now: u128) -> PipelineView {
        PipelineView {
            raw_empty_since: None,
            raw_content_since: Some(or_now(self.raw_content_since, now)),
            ..self
        }
    }

    /// Text that neither lingers nor is forced yet: it is shown, and captions stay.
    #[verifier::opaque]
    pub open spec fn lingering(self, raw: Seq<OcrBlock>, now: u128) -> PipelineView {
        self.with_app(
            AppView {
                ocr: raw,
                status: StatusView::WaitingForStable {
                    elapsed_ms: elapsed_millis(now, or_now(self.raw_content_since, now)),
                },
                ..self.app
            },
        )
    }

    /// What lingers of a frame.
    pub open spec fn durable(
        self,
        raw: Seq<OcrBlock>,
        width: u32,
        height: u32,
        measures: Seq<Seq<TrackMeasure>>,
        now: u128,
    ) -> Seq<OcrBlock> {
        self.persistence.emitted(self.tracks_for(width, height), raw, measures, now)
    }

    /// The pipeline after the blocks of a frame were read.
    #[verifier::opaque]
    pub open spec fn raw_consumed(
        self,
        raw: Seq<OcrBlock>,
        width: u32,
        height: u32,
        measures: Seq<Seq<TrackMeasure>>,
        now: u128,
    ) -> PipelineView {
        let durable = self.durable(raw, width, height, measures, now);
        let p = self.filtered(raw, width, height, measures, now);
        if raw.len() == 0 {
            p.blank_read(durable, now)
        } else {
            let q = p.content_seen(now);
            match q.chosen(raw, durable, self.content_resized(width, height), now) {
                Some(blocks) => q.gated(blocks, width, height, now),
                None => q.lingering(raw, now),
            }
        }
    }

    /// The page that is to be looked up after the blocks of a frame were read.
    #[verifier::opaque]
    pub open spec fn raw_request(
        self,
        raw: Seq<OcrBlock>,
        width: u32,
        height: u32,
        measures: Seq<Seq<TrackMeasure>>,
        now: u128,
    ) -> Option<Page> {
        let durable = self.durable(raw, width, height, measures, now);
        if raw.len() == 0 {
            None
        } else {
            let q = self.filtered(raw, width, height, measures, now).content_seen(now);
            match q.chosen(raw, durable, self.content_resized(width, height), now) {
                Some(blocks) => q.gate_request(blocks, width, height, now),
                None => None,
            }
        }
    }

    /// Capture can be read: it runs, nothing is translated, and the target is not dragged.
    pub open spec fn readable(self, finished: bool) -> bool {
        self.session.stream is Some && !finished && self.job is None
            && !self.session.resize.in_movesize
    }

    /// A pending size change has been taken.
    pub open spec fn stream_synced(self, finished: bool) -> PipelineView {
        PipelineView { session: self.session.synced(finished), ..self }
    }

    /// The stream was made anew: its frames are numbered from one.
    #[verifier::opaque]
    pub open spec fn stream_restarted(
        self,
        target: CaptureTarget,
        size: Option<(u32, u32)>,
    ) -> PipelineView {
        (PipelineView {
            session: CaptureSession::capturing(target, self.session.min_interval_ms, size),
            raw: None,
            ..self
        }).sequence_absorbed()
    }

    /// The last reading is of the latest published frame.
    pub open spec fn is_stale(self) -> bool {
        self.raw matches Some(c) && self.session.published() == Some(c.sequence)
    }

    /// A frame came while there is no engine.
    #[verifier::opaque]
    pub open spec fn without_engine(self) -> PipelineView {
        let p = if self.app.status is Error {
            self
        } else {
            self.engine_ensured()
        };
        let s = p.app.status;
        if s is Error || s is DownloadingModels || s is LoadingModels || s is Translating
            || s is RetryingTranslate || s is OverlayActive || s is Cancelled {
            p
        } else {
            p.with_app(AppView { status: StatusView::Capturing, ..p.app })
        }
    }

    /// OCR of frames rests while a translation runs.
    pub open spec fn ocr_rests(self) -> bool {
        self.app.translate_in_flight || self.app.status.translating()
    }

    /// OCR of a frame begins; waiting and overlay are not hidden by it.
    #[verifier::opaque]
    pub open spec fn ocr_begun(self) -> PipelineView {
        if self.app.status is WaitingForStable || self.app.status is OverlayActive {
            self
        } else {
            self.with_app(AppView { status: StatusView::RunningOcr, ..self.app })
        }
    }

    /// The engine has read a frame.
    #[verifier::opaque]
    pub open spec fn ocr_done(
        self,
        frame: CapturedFrame,
        rects: Seq<PixelBounds>,
        blocks: Seq<OcrBlock>,
        ocr_ms: u64,
    ) -> PipelineView {
        PipelineView {
            app: AppView {
                last_ocr_ms: Some(ocr_ms),
                last_ocr_block_count: blocks.len() as u32,
                ..self.app
            },
            raw: Some(
                RawOcr {
                    sequence: frame.sequence,
                    width: frame.width,
                    height: frame.height,
                    scope: scope_of(frame, rects),
                    blocks,
                },
            ),
            ..self
        }
    }

    /// A manual reading goes past the stability gate.
    #[verifier::opaque]
    pub open spec fn forced_page(self, page: Page, now: u128) -> PipelineView {
        PipelineView {
            gate: self.gate.forced(page.fingerprint, now),
            page: Some(page),
            app: AppView { ocr: page.blocks, ..self.app },
            ..self
        }
    }

    /// The page of a manual reading.
    pub open spec fn manual_page(blocks: Seq<OcrBlock>, width: u32, height: u32) -> Page {
        Self::page_of(blocks, OcrFingerprint(page_fingerprint(blocks)), width, height)
    }
}

impl Pipeline {
    pub(crate) fn captions(&self) -> (r: Vec<TranslatedBlock>)
        ensures
            r@ == self@.app.captions,
    {
        reveal(pipeline_view);
        reveal(app_view);
        copy_translated(&self.state.latest_translated_blocks)
    }

    fn drop_captions(&mut self)
        ensures
            final(self)@ == (PipelineView {
                app: AppView { captions: Seq::empty(), ..old(self)@.app },
                last_translated_fp: None,
                remap_miss_since: None,
                ..old(self)@
            }),
    {
        reveal(pipeline_view);
        reveal(app_view);
        self.state.latest_translated_blocks = Vec::new();
        self.last_translated_fp = None;
        self.remap_miss_since = None;
    }

    pub(crate) fn has_captions(&self) -> (r: bool)
        ensures
            r == (self@.app.captions.len() > 0),
    {
        reveal(pipeline_view);
        reveal(app_view);
        self.state.latest_translated_blocks.len() > 0
    }

    /// Clear captions and overlay only.
    pub fn clear_translated_captions_only(&mut self)
        ensures
            final(self)@ == old(self)@.captions_cleared(),
    {
        reveal(PipelineView::captions_cleared);
        if !self.has_captions() {
            return;
        }
        self.drop_captions();
        self.order(OverlayCommand::Clear);
    }

    pub(crate) fn drop_page(&mut self)
        ensures
            final(self)@ == (PipelineView {
                app: (AppView {
                    ocr: Seq::empty(),
                    captions: Seq::empty(),
                    ..old(self)@.app
                }).resting(StatusView::Idle),
                tracks: Seq::empty(),
                gate: old(self)@.gate.cleared(),
                last_translated_fp: None,
                page: None,
                remap_miss_since: None,
                ..old(self)@
            }),
    {
        reveal(pipeline_view);
        reveal(app_view);
        self.state.latest_ocr_blocks = Vec::new();
        self.state.latest_translated_blocks = Vec::new();
        self.state.rest_as(PipelineStatus::Idle);
        self.persist.reset();
        assert(self.persist.tracks@ =~= Seq::<Track>::empty());
        self.gate.reset_all();
        self.last_translated_fp = None;
        self.last_page = None;
        self.remap_miss_since = None;
    }

    pub(crate) fn has_blocks(&self) -> (r: bool)
        ensures
            r == (self@.app.ocr.len() > 0),
    {
        reveal(pipeline_view);
        reveal(app_view);
        self.state.latest_ocr_blocks.len() > 0
    }

    pub(crate) fn is_auto_running(&self) -> (r: bool)
        ensures
            r == self@.app.auto_running,
    {
        reveal(pipeline_view);
        reveal(app_view);
        self.state.auto_running
    }

    /// The status shown.
    pub fn status(&self) -> (r: PipelineStatus)
        ensures
            r@ == self@.app.status,
    {
        reveal(pipeline_view);
        reveal(app_view);
        self.state.status.clone()
    }

    /// Drop stale captions, and forget fingerprints and tracks so the same page can be translated
    /// again if it reappears. For blank screens, not for layout changes.
    pub fn clear_stale_overlay(&mut self)
        ensures
            final(self)@ == old(self)@.stale_cleared(),
    {
        reveal(PipelineView::stale_cleared);
        if !self.has_captions() && !self.has_blocks() {
            // Still warming up: the waiting status stays.
            if !self.status().is_waiting() && self.is_auto_running() {
                self.set_status(PipelineStatus::Capturing);
            }
            return;
        }
        self.drop_page();
        self.order(OverlayCommand::Clear);
    }

    pub(crate) fn raw_empty_grace(&self) -> (r: u64)
        ensures
            r == self@.grace_ms(),
    {
        reveal(pipeline_view);
        reveal(app_view);
        let ms: u64 = self.state.config.ocr.block_max_miss_ms;
        if ms < 1 {
            1
        } else {
            ms
        }
    }

    pub(crate) fn timers(&self) -> (r: (Option<u128>, Option<u128>, Option<u128>))
        ensures
            r.0 == self@.raw_empty_since,
            r.1 == self@.raw_content_since,
            r.2 == self@.remap_miss_since,
    {
        reveal(pipeline_view);
        (self.raw_empty_since, self.raw_content_since, self.remap_miss_since)
    }

    pub(crate) fn set_timers(
        &mut self,
        empty: Option<u128>,
        content: Option<u128>,
        miss: Option<u128>,
    )
        ensures
            final(self)@ == (PipelineView {
                raw_empty_since: empty,
                raw_content_since: content,
                remap_miss_since: miss,
                ..old(self)@
            }),
    {
        reveal(pipeline_view);
        self.raw_empty_since = empty;
        self.raw_content_since = content;
        self.remap_miss_since = miss;
    }

    /// Expire captions after raw OCR went empty, even when capture stops producing frames.
    pub fn maybe_expire_raw_empty(&mut self, now: u128)
        ensures
            final(self)@ == old(self)@.raw_empty_expired(now),
    {
        reveal(PipelineView::raw_empty_expired);
        let (empty, content, miss): (Option<u128>, Option<u128>, Option<u128>) = self.timers();
        match empty {
            Some(since) => {
                if has_lasted(now, since, self.raw_empty_grace()) {
                    self.set_timers(None, content, miss);
                    self.clear_stale_overlay();
                }
            },
            None => {},
        }
    }

    /// Expire sticky captions when nothing has matched them past the grace.
    pub fn maybe_expire_remap_miss(&mut self, now: u128)
        ensures
            final(self)@ == old(self)@.remap_miss_expired(now),
    {
        reveal(PipelineView::remap_miss_expired);
        let (empty, content, miss): (Option<u128>, Option<u128>, Option<u128>) = self.timers();
        match miss {
            Some(since) => {
                if has_lasted(now, since, self.raw_empty_grace()) {
                    self.set_timers(empty, content, None);
                    self.clear_translated_captions_only();
                }
            },
            None => {},
        }
    }

    /// Run pending expiry. To be called every capture interval, with or without OCR.
    pub fn expire_pending(&mut self, now: u128)
        ensures
            final(self)@ == old(self)@.raw_empty_expired(now).remap_miss_expired(now),
    {
        self.maybe_expire_raw_empty(now);
        self.maybe_expire_remap_miss(now);
    }

    pub(crate) fn capture_content_resized(&self, frame_w: u32, frame_h: u32) -> (r: bool)
        ensures
            r == self@.content_resized(frame_w, frame_h),
    {
        reveal(pipeline_view);
        match &self.last_page {
            Some(p) => p.content_width != frame_w || p.content_height != frame_h,
            None => false,
        }
    }

    pub(crate) fn has_page(&self) -> (r: bool)
        ensures
            r == (self@.page is Some),
    {
        reveal(pipeline_view);
        self.last_page.is_some()
    }

    pub(crate) fn set_page_size(&mut self, width: u32, height: u32)
        ensures
            final(self)@ == (PipelineView {
                page: match old(self)@.page {
                    Some(page) => Some(Page { width, height, ..page }),
                    None => None,
                },
                ..old(self)@
            }),
    {
        reveal(pipeline_view);
        let mut page: Option<PendingPage> = None;
        std::mem::swap(&mut page, &mut self.last_page);
        self.last_page = match page {
            Some(p) => Some(
                PendingPage {
                    blocks: p.blocks,
                    source_text: p.source_text,
                    fingerprint: p.fingerprint,
                    content_width: width,
                    content_height: height,
                },
            ),
            None => None,
        };
    }

    /// Keep captions on their text; clear them when their text is gone.
    pub fn apply_sticky_overlay(
        &mut self,
        blocks: &Vec<OcrBlock>,
        frame_w: u32,
        frame_h: u32,
        now: u128,
    )
        ensures
            final(self)@ == old(self)@.sticky(blocks@, frame_w, frame_h, now),
    {
        reveal(PipelineView::sticky);
        let resized: bool = self.capture_content_resized(frame_w, frame_h) || !self.has_page();
        let captions: Vec<TranslatedBlock> = self.captions();
        let had: bool = captions.len() > 0;
        let kept: Vec<TranslatedBlock> = remap_translations_to_ocr(&captions, blocks, resized);
        let changed: bool = translated_geometry_changed(&captions, &kept);
        self.set_ocr_blocks(blocks);
        if kept.len() == 0 {
            if had && blocks.len() > 0 {
                self.clear_translated_captions_only();
            } else if had {
                let (empty, content, miss): (Option<u128>, Option<u128>, Option<u128>) =
                    self.timers();
                self.set_timers(empty, content, Some(since_or_now(miss, now)));
                self.maybe_expire_remap_miss(now);
            }
            return;
        }
        let (empty, content, _): (Option<u128>, Option<u128>, Option<u128>) = self.timers();
        self.set_timers(empty, content, None);
        // Unchanged captions are not painted again.
        if !changed {
            return;
        }
        self.paint(&kept, frame_w, frame_h);
        self.set_page_size(frame_w, frame_h);
        self.set_captions(kept);
    }

    /// Keep captions on their text when most of it is still there; clear them on low coverage.
    pub fn apply_sticky_or_clear_low_hit(
        &mut self,
        blocks: &Vec<OcrBlock>,
        frame_w: u32,
        frame_h: u32,
        now: u128,
    )
        ensures
            final(self)@ == old(self)@.sticky_or_cleared(blocks@, frame_w, frame_h, now),
    {
        reveal(PipelineView::sticky_or_cleared);
        let captions: Vec<TranslatedBlock> = self.captions();
        if captions.len() == 0 {
            self.set_ocr_blocks(blocks);
            return;
        }
        let resized: bool = self.capture_content_resized(frame_w, frame_h) || !self.has_page();
        let kept: Vec<TranslatedBlock> = remap_translations_to_ocr(&captions, blocks, resized);
        if (kept.len() as u128) * 2 < captions.len() as u128 {
            self.set_ocr_blocks(blocks);
            self.clear_translated_captions_only();
            return;
        }
        self.apply_sticky_overlay(blocks, frame_w, frame_h, now);
    }

    pub(crate) fn observe(&mut self, blocks: &Vec<OcrBlock>, now: u128) -> (r: StabilityOutcome)
        ensures
            r == old(self)@.gate_outcome(blocks@, now),
            final(self)@ == old(self)@.gate_observed(blocks@, now),
    {
        reveal(pipeline_view);
        let fp: OcrFingerprint = OcrFingerprint::from_blocks(blocks);
        self.gate.observe_at(fp, now)
    }

    pub(crate) fn set_page(&mut self, page: &PendingPage)
        ensures
            final(self)@ == (PipelineView { page: Some(page@), ..old(self)@ }),
    {
        reveal(pipeline_view);
        self.last_page = Some(page.copy());
    }

    fn ready_page(
        &mut self,
        blocks: Vec<OcrBlock>,
        fingerprint: OcrFingerprint,
        width: u32,
        height: u32,
        now: u128,
    ) -> (r: PendingPage)
        ensures
            r@ == PipelineView::page_of(blocks@, fingerprint, width, height),
            final(self)@ == old(self)@.page_ready(r@, now),
    {
        reveal(PipelineView::page_ready);
        self.set_ocr_blocks(&blocks);
        self.clear_translated_captions_only();
        let (empty, _, miss): (Option<u128>, Option<u128>, Option<u128>) = self.timers();
        self.set_timers(empty, Some(now), miss);
        let source_text: String = blocks_to_text(&blocks);
        let page: PendingPage = PendingPage {
            blocks,
            source_text,
            fingerprint,
            content_width: width,
            content_height: height,
        };
        self.set_page(&page);
        page
    }

    fn pass_gate(&mut self, blocks: Vec<OcrBlock>, width: u32, height: u32, now: u128) -> (r:
        Option<CacheRequest>)
        ensures
            final(self)@ == old(self)@.gated(blocks@, width, height, now),
            match r {
                Some(q) => old(self)@.gate_request(blocks@, width, height, now) == Some(q.page@)
                    && !q.force,
                None => old(self)@.gate_request(blocks@, width, height, now) is None,
            },
    {
        reveal(PipelineView::gated);
        reveal(PipelineView::gate_request);
        match self.observe(&blocks, now) {
            StabilityOutcome::Changed => {
                // A confirmed switch: no caption of the old page over the new scene.
                self.set_ocr_blocks(&blocks);
                self.set_status(PipelineStatus::WaitingForStable { elapsed_ms: 0 });
                self.clear_translated_captions_only();
                None
            },
            StabilityOutcome::Waiting { elapsed_ms } => {
                self.apply_sticky_or_clear_low_hit(&blocks, width, height, now);
                self.set_status(PipelineStatus::WaitingForStable { elapsed_ms });
                None
            },
            StabilityOutcome::Ready { fingerprint, elapsed_ms: _ } => {
                let page: PendingPage = self.ready_page(blocks, fingerprint, width, height, now);
                self.start_translate(page, false)
            },
            StabilityOutcome::AlreadyEmitted { fingerprint: _ } => {
                self.apply_sticky_overlay(&blocks, width, height, now);
                if self.is_auto_running() && self.has_captions() {
                    self.set_status(PipelineStatus::OverlayActive);
                }
                None
            },
        }
    }

    /// The boxes that the blocks of a frame of this size are to be measured against.
    pub fn boxes_to_measure(&self, width: u32, height: u32) -> (r: Vec<Rect>)
        ensures
            r@ == self@.tracks_for(width, height).map_values(|t: Track| t.bbox),
    {
        reveal(pipeline_view);
        if self.capture_content_resized(width, height) {
            let none: Vec<Rect> = Vec::new();
            assert(none@ =~= self@.tracks_for(width, height).map_values(|t: Track| t.bbox));
            none
        } else {
            self.persist.track_boxes()
        }
    }

    fn filter_raw(
        &mut self,
        raw: &Vec<OcrBlock>,
        width: u32,
        height: u32,
        measures: &Vec<Vec<TrackMeasure>>,
        now: u128,
    ) -> (r: Vec<OcrBlock>)
        requires
            measured(old(self)@.tracks_for(width, height), raw@, measures@),
        ensures
            r@ == old(self)@.durable(raw@, width, height, rows(measures@), now),
            final(self)@ == old(self)@.filtered(raw@, width, height, rows(measures@), now),
    {
        reveal(pipeline_view);
        reveal(PipelineView::filtered);
        if self.capture_content_resized(width, height) {
            // Old tracks are in another pixel space.
            self.persist.reset();
            assert(self.persist.tracks@ =~= Seq::<Track>::empty());
        }
        self.persist.filter_at(copy_blocks(raw), measures, now)
    }

    fn max_unstable(&self) -> (r: u64)
        ensures
            r == self@.app.config.ocr.max_unstable_ms,
    {
        reveal(pipeline_view);
        reveal(app_view);
        self.state.config.ocr.max_unstable_ms
    }

    fn read_blank(&mut self, durable: &Vec<OcrBlock>, now: u128)
        ensures
            final(self)@ == old(self)@.blank_read(durable@, now),
    {
        reveal(PipelineView::blank_read);
        let (empty, _, _): (Option<u128>, Option<u128>, Option<u128>) = self.timers();
        let since: u128 = since_or_now(empty, now);
        self.set_timers(Some(since), None, None);
        if durable.len() == 0 || has_lasted(now, since, self.raw_empty_grace()) {
            self.set_timers(None, None, None);
            self.clear_stale_overlay();
        }
    }

    fn choose_blocks(
        &self,
        raw: &Vec<OcrBlock>,
        durable: Vec<OcrBlock>,
        resized: bool,
        now: u128,
    ) -> (r: Option<Vec<OcrBlock>>)
        ensures
            match r {
                Some(b) => self@.chosen(raw@, durable@, resized, now) == Some(b@),
                None => self@.chosen(raw@, durable@, resized, now) is None,
            },
    {
        reveal(PipelineView::chosen);
        if resized {
            return Some(copy_blocks(raw));
        }
        if durable.len() > 0 {
            return Some(durable);
        }
        let (_, content, _): (Option<u128>, Option<u128>, Option<u128>) = self.timers();
        let limit: u64 = self.max_unstable();
        if limit > 0 && has_lasted(now, since_or_now(content, now), limit) {
            return Some(copy_blocks(raw));
        }
        None
    }

    fn see_content(&mut self, now: u128)
        ensures
            final(self)@ == old(self)@.content_seen(now),
    {
        reveal(PipelineView::content_seen);
        let (_, content, miss): (Option<u128>, Option<u128>, Option<u128>) = self.timers();
        self.set_timers(None, Some(since_or_now(content, now)), miss);
    }

    fn linger(&mut self, raw: &Vec<OcrBlock>, now: u128)
        ensures
            final(self)@ == old(self)@.lingering(raw@, now),
    {
        reveal(PipelineView::lingering);
        let (_, content, _): (Option<u128>, Option<u128>, Option<u128>) = self.timers();
        self.set_ocr_blocks(raw);
        self.set_status(
            PipelineStatus::WaitingForStable {
                elapsed_ms: millis_between(now, since_or_now(content, now)),
            },
        );
    }

    /// Follow the blocks that were read from a frame. What is returned is to be looked up in the
    /// translation cache.
    ///
    /// `measures` holds, for each block, how it lies to each of [`Self::boxes_to_measure`].
    pub fn consume_raw_ocr(
        &mut self,
        raw: Vec<OcrBlock>,
        width: u32,
        height: u32,
        measures: &Vec<Vec<TrackMeasure>>,
        now: u128,
    ) -> (r: Option<CacheRequest>)
        requires
            measured(old(self)@.tracks_for(width, height), raw@, measures@),
        ensures
            final(self)@ == old(self)@.raw_consumed(raw@, width, height, rows(measures@), now),
            match r {
                Some(q) => old(self)@.raw_request(raw@, width, height, rows(measures@), now)
                    == Some(q.page@) && !q.force,
                None => old(self)@.raw_request(raw@, width, height, rows(measures@), now) is None,
            },
    {
        reveal(PipelineView::raw_consumed);
        reveal(PipelineView::raw_request);
        let resized: bool = self.capture_content_resized(width, height);
        let durable: Vec<OcrBlock> = self.filter_raw(&raw, width, height, measures, now);
        if raw.len() == 0 {
            self.read_blank(&durable, now);
            return None;
        }
        self.see_content(now);
        match self.choose_blocks(&raw, durable, resized, now) {
            Some(blocks) => self.pass_gate(blocks, width, height, now),
            None => {
                self.linger(&raw, now);
                None
            },
        }
    }

    fn can_read(&self, finished: bool) -> (r: bool)
        ensures
            r == self@.readable(finished),
    {
        reveal(pipeline_view);
        self.session.is_running(finished) && self.inflight.is_none() && !self.session.in_movesize()
    }

    fn sync_stream(&mut self, finished: bool) -> (r: Option<CaptureTarget>)
        ensures
            r == old(self)@.session.restart_target(finished),
            final(self)@ == old(self)@.stream_synced(finished),
    {
        reveal(pipeline_view);
        self.session.sync_stream(finished)
    }

    /// Begin a capture tick. `finished` says that the capture stream has ended by itself.
    ///
    /// Nothing is read while a translation runs or while the target is moved or sized. A settled
    /// resize asks for a new stream.
    pub fn poll_capture(&mut self, finished: bool) -> (r: PollStep)
        ensures
            match r {
                PollStep::Wait => !old(self)@.readable(finished) && final(self)@ == old(self)@,
                PollStep::Restart(t) => old(self)@.readable(finished)
                    && old(self)@.session.restart_target(finished) == Some(t) && final(self)@
                    == old(self)@.stream_synced(finished),
                PollStep::Ready => old(self)@.readable(finished)
                    && old(self)@.session.restart_target(finished) is None && final(self)@
                    == old(self)@.stream_synced(finished),
            },
    {
        if !self.can_read(finished) {
            return PollStep::Wait;
        }
        match self.sync_stream(finished) {
            Some(target) => PollStep::Restart(target),
            None => PollStep::Ready,
        }
    }

    /// The host made the stream anew.
    ///
    /// The raw-OCR cache is dropped and the preview bias raised, so that a repeated sequence is
    /// never taken for an unchanged frame.
    pub fn on_stream_restarted(&mut self, target: CaptureTarget, size: Option<(u32, u32)>)
        ensures
            final(self)@ == old(self)@.stream_restarted(target, size),
    {
        reveal(PipelineView::stream_restarted);
        self.renew_stream(target, size);
        self.absorb_preview_sequence();
    }

    fn renew_stream(&mut self, target: CaptureTarget, size: Option<(u32, u32)>)
        ensures
            final(self)@ == (PipelineView {
                session: CaptureSession::capturing(
                    target,
                    old(self)@.session.min_interval_ms,
                    size,
                ),
                raw: None,
                ..old(self)@
            }),
    {
        reveal(pipeline_view);
        let interval: u64 = self.session.min_interval_ms;
        self.session.on_started(target.hwnd, target.title, interval, size);
        self.last_raw_ocr = None;
    }

    fn stale_blocks(&self) -> (r: Option<(Vec<OcrBlock>, u32, u32)>)
        ensures
            match r {
                Some(t) => self@.is_stale() && t.0@ == self@.raw->0.blocks && t.1
                    == self@.raw->0.width && t.2 == self@.raw->0.height,
                None => !self@.is_stale(),
            },
    {
        reveal(pipeline_view);
        match &self.last_raw_ocr {
            Some(c) => match self.session.latest_sequence() {
                Some(seq) => if seq == c.sequence {
                    Some((copy_blocks(&c.blocks), c.width, c.height))
                } else {
                    None
                },
                None => None,
            },
            None => None,
        }
    }

    fn session_frame(&self, facts: Option<WindowFacts>) -> (r: Option<CapturedFrame>)
        requires
            self@.session.frame_fits(),
        ensures
            match r {
                Some(f) => self@.session.has_frame() && self@.session.delivers(facts, f),
                None => !self@.session.has_frame(),
            },
    {
        reveal(pipeline_view);
        self.session.latest_frame(facts)
    }

    /// What there is to read in this tick. `facts` is what the window system reports of the
    /// target.
    ///
    /// Without a new frame the blocks of the last one are used again, without crop or preview. A
    /// frame without engine asks for a model load, unless the last one failed.
    pub fn next_frame(&mut self, facts: Option<WindowFacts>) -> (r: FrameStep)
        requires
            old(self)@.session.frame_fits(),
        ensures
            match r {
                FrameStep::Stale { blocks, width, height } => {
                    &&& old(self)@.is_stale()
                    &&& blocks@ == old(self)@.raw->0.blocks
                    &&& width == old(self)@.raw->0.width
                    &&& height == old(self)@.raw->0.height
                    &&& final(self)@ == old(self)@
                },
                FrameStep::NoFrame => !old(self)@.is_stale() && !old(self)@.session.has_frame()
                    && final(self)@ == old(self)@,
                FrameStep::Frame(f) => {
                    &&& !old(self)@.is_stale()
                    &&& old(self)@.session.has_frame()
                    &&& old(self)@.session.delivers(facts, f)
                    &&& old(self)@.engine_ready
                    &&& final(self)@ == old(self)@.previewed(f)
                },
                FrameStep::NoEngine(f) => {
                    &&& !old(self)@.is_stale()
                    &&& old(self)@.session.has_frame()
                    &&& old(self)@.session.delivers(facts, f)
                    &&& !old(self)@.engine_ready
                    &&& final(self)@ == old(self)@.previewed(f).without_engine()
                },
            },
    {
        reveal(PipelineView::without_engine);
        match self.stale_blocks() {
            Some((blocks, width, height)) => {
                return FrameStep::Stale { blocks, width, height };
            },
            None => {},
        }
        let frame: CapturedFrame = match self.session_frame(facts) {
            Some(f) => f,
            None => {
                return FrameStep::NoFrame;
            },
        };
        let ready: bool = self.has_engine();
        self.update_preview(&frame);
        if ready {
            return FrameStep::Frame(frame);
        }
        // A failed load is not tried again before the settings change.
        if !self.status().is_error() {
            let _ = self.ensure_engine();
        }
        if keeps_status(&self.status()) {
            return FrameStep::NoEngine(frame);
        }
        self.set_status(PipelineStatus::Capturing);
        FrameStep::NoEngine(frame)
    }

    fn rests(&self) -> (r: bool)
        ensures
            r == self@.ocr_rests(),
    {
        reveal(pipeline_view);
        reveal(app_view);
        self.state.translate_in_flight || self.state.status.is_translating()
    }

    fn cached_blocks(&self, frame: &CapturedFrame, rects: &Vec<PixelBounds>) -> (r: Option<
        Vec<OcrBlock>,
    >)
        requires
            all_within(rects@, frame.width, frame.height),
        ensures
            match r {
                Some(b) => self@.raw matches Some(c) && (c.is_of(*frame) || c.covers(
                    *frame,
                    rects@,
                )) && b@ == c.blocks,
                None => self@.raw matches Some(c) ==> !c.is_of(*frame) && !c.covers(
                    *frame,
                    rects@,
                ),
            },
    {
        reveal(pipeline_view);
        match &self.last_raw_ocr {
            Some(c) => if c.matches_frame(frame, rects) {
                Some(copy_blocks(&c.blocks))
            } else {
                None
            },
            None => None,
        }
    }

    pub(crate) fn begin_ocr(&mut self)
        ensures
            final(self)@ == old(self)@.ocr_begun(),
    {
        reveal(PipelineView::ocr_begun);
        // OCR can take long; a status that says more than that it runs stays.
        let waiting: bool = match self.status() {
            PipelineStatus::WaitingForStable { .. } => true,
            PipelineStatus::OverlayActive => true,
            _ => false,
        };
        if !waiting {
            self.set_status(PipelineStatus::RunningOcr);
        }
    }

    /// Begin the automatic OCR of a frame; `rects` are the OCR crops in it.
    ///
    /// An unchanged frame is not read again: only the inference is skipped.
    pub fn run_ocr_auto(&mut self, frame: &CapturedFrame, rects: &Vec<PixelBounds>) -> (r: OcrStep)
        requires
            all_within(rects@, frame.width, frame.height),
        ensures
            ({
                let cached = old(self)@.raw matches Some(c) && (c.is_of(*frame) || c.covers(
                    *frame,
                    rects@,
                ));
                let idle = !cached && !old(self)@.engine_ready;
                if old(self)@.ocr_rests() {
                    r is Skip && final(self)@ == old(self)@
                } else {
                    &&& final(self)@ == old(self)@.ocr_begun()
                    &&& (r is Skip) == idle
                    &&& (r is Infer) == (!cached && !idle)
                    &&& r matches OcrStep::Cached(b) ==> cached && b@ == old(self)@.raw->0.blocks
                }
            }),
    {
        if self.rests() {
            return OcrStep::Skip;
        }
        let cached: Option<Vec<OcrBlock>> = self.cached_blocks(frame, rects);
        let ready: bool = self.has_engine();
        self.begin_ocr();
        match cached {
            Some(blocks) => OcrStep::Cached(blocks),
            None => if ready {
                OcrStep::Infer
            } else {
                OcrStep::Skip
            },
        }
    }

    fn record_ocr(
        &mut self,
        frame: &CapturedFrame,
        rects: &Vec<PixelBounds>,
        blocks: &Vec<OcrBlock>,
        ocr_ms: u64,
    )
        requires
            all_within(rects@, frame.width, frame.height),
            bytes_of(frame.rgba).len() >= rgba_len(frame.width, frame.height),
        ensures
            final(self)@ == old(self)@.ocr_done(*frame, rects@, blocks@, ocr_ms),
    {
        reveal(pipeline_view);
        reveal(app_view);
        reveal(PipelineView::ocr_done);
        self.state.last_ocr_ms = Some(ocr_ms);
        self.state.last_ocr_block_count = blocks.len() as u32;
        self.last_raw_ocr = Some(
            LastRawOcr {
                sequence: frame.sequence,
                width: frame.width,
                height: frame.height,
                scope: LastRawOcr::pack_scope(frame, rects),
                blocks: copy_blocks(blocks),
            },
        );
    }

    /// The engine read the frame, or failed. The blocks that are returned go to
    /// [`Self::consume_raw_ocr`].
    pub fn on_ocr(
        &mut self,
        frame: &CapturedFrame,
        rects: &Vec<PixelBounds>,
        result: Result<Vec<OcrBlock>, String>,
        ocr_ms: u64,
    ) -> (r: Option<Vec<OcrBlock>>)
        requires
            all_within(rects@, frame.width, frame.height),
            result is Ok ==> bytes_of(frame.rgba).len() >= rgba_len(frame.width, frame.height),
        ensures
            match result {
                Ok(blocks) => {
                    &&& r matches Some(b)
                    &&& b@ == blocks@
                    &&& final(self)@ == old(self)@.ocr_done(*frame, rects@, blocks@, ocr_ms)
                },
                Err(e) => r is None && final(self)@ == old(self)@.with_app(
                    old(self)@.app.failed("OCR: "@ + e@),
                ),
            },
    {
        match result {
            Ok(blocks) => {
                self.record_ocr(frame, rects, &blocks, ocr_ms);
                Some(blocks)
            },
            Err(e) => {
                self.fail(joined("OCR: ", e.as_str()));
                None
            },
        }
    }

    fn is_dragged(&self) -> (r: bool)
        ensures
            r == self@.session.resize.in_movesize,
    {
        reveal(pipeline_view);
        self.session.in_movesize()
    }

    /// Begin a manual capture.
    ///
    /// It is ignored while a translation runs, while models load or are missing (a load is asked
    /// for), and while the target is moved or sized.
    pub fn begin_manual(&mut self, finished: bool) -> (r: PollStep)
        ensures
            ({
                let p = old(self)@;
                if p.job is Some {
                    r is Wait && final(self)@ == p
                } else if p.model_load is Some {
                    r is Wait && final(self)@ == p.with_app(
                        AppView {
                            last_error: Some("OCR models are still downloading or loading"@),
                            ..p.app
                        },
                    )
                } else if !p.engine_ready {
                    r is Wait && final(self)@ == p.engine_ensured()
                } else if p.session.resize.in_movesize {
                    r is Wait && final(self)@ == p
                } else {
                    &&& final(self)@ == p.stream_synced(finished)
                    &&& match p.session.restart_target(finished) {
                        Some(t) => r == PollStep::Restart(t),
                        None => r == PollStep::Ready,
                    }
                }
            }),
    {
        reveal(PipelineView::engine_ensured);
        if self.has_job() {
            return PollStep::Wait;
        }
        if self.loading().is_some() {
            self.warn_loading();
            return PollStep::Wait;
        }
        if !self.ensure_engine() {
            return PollStep::Wait;
        }
        if self.is_dragged() {
            return PollStep::Wait;
        }
        match self.sync_stream(finished) {
            Some(target) => PollStep::Restart(target),
            None => PollStep::Ready,
        }
    }

    /// The frame of a manual capture, for the engine to read.
    pub fn manual_frame(&mut self, facts: Option<WindowFacts>) -> (r: Option<CapturedFrame>)
        requires
            old(self)@.session.frame_fits(),
        ensures
            match r {
                Some(f) => {
                    let p = old(self)@.previewed(f);
                    &&& old(self)@.session.has_frame()
                    &&& old(self)@.session.delivers(facts, f)
                    &&& final(self)@ == p.with_app(
                        AppView { status: StatusView::RunningOcr, ..p.app },
                    )
                },
                None => !old(self)@.session.has_frame() && final(self)@ == old(self)@.with_app(
                    old(self)@.app.failed("no capture frame"@),
                ),
            },
    {
        match self.session_frame(facts) {
            Some(frame) => {
                self.update_preview(&frame);
                self.set_status(PipelineStatus::RunningOcr);
                Some(frame)
            },
            None => {
                self.fail(owned("no capture frame"));
                None
            },
        }
    }

    fn force_page(&mut self, page: &PendingPage, now: u128)
        ensures
            final(self)@ == old(self)@.forced_page(page@, now),
    {
        reveal(pipeline_view);
        reveal(app_view);
        reveal(PipelineView::forced_page);
        let _ = self.gate.force_emit_at(page.fingerprint, now);
        self.last_page = Some(page.copy());
        self.state.latest_ocr_blocks = copy_blocks(&page.blocks);
    }

    /// The engine read the frame of a manual capture, or failed. The page goes past the stability
    /// gate, and a manual capture always asks the model.
    pub fn run_ocr_manual(
        &mut self,
        frame: &CapturedFrame,
        rects: &Vec<PixelBounds>,
        result: Result<Vec<OcrBlock>, String>,
        ocr_ms: u64,
        now: u128,
    ) -> (r: Option<CacheRequest>)
        requires
            all_within(rects@, frame.width, frame.height),
            result is Ok ==> bytes_of(frame.rgba).len() >= rgba_len(frame.width, frame.height),
        ensures
            match result {
                Ok(blocks) => {
                    let page = PipelineView::manual_page(blocks@, frame.width, frame.height);
                    let p = old(self)@.ocr_done(*frame, rects@, blocks@, ocr_ms).forced_page(
                        page,
                        now,
                    );
                    &&& final(self)@ == p.translate_begun(page, true)
                    &&& match r {
                        Some(q) => p.wants_cache(page, true) && q.page@ == page && q.force,
                        None => !p.wants_cache(page, true),
                    }
                },
                Err(e) => r is None && final(self)@ == old(self)@.with_app(
                    old(self)@.app.failed("OCR: "@ + e@),
                ),
            },
    {
        match self.on_ocr(frame, rects, result, ocr_ms) {
            Some(blocks) => {
                let source_text: String = blocks_to_text(&blocks);
                let fingerprint: OcrFingerprint = OcrFingerprint::from_blocks(&blocks);
                let page: PendingPage = PendingPage {
                    blocks,
                    source_text,
                    fingerprint,
                    content_width: frame.width,
                    content_height: frame.height,
                };
                self.force_page(&page, now);
                self.start_translate(page, true)
            },
            None => None,
        }
    }
}

/// A status that a frame without engine does not replace.
fn keeps_status(status: &PipelineStatus) -> (r: bool)
    ensures
        r == {
            let s = status@;
            s is Error || s is DownloadingModels || s is LoadingModels || s is Translating
                || s is RetryingTranslate || s is OverlayActive || s is Cancelled
        },
{
    match status {
        PipelineStatus::Error { .. } => true,
        PipelineStatus::DownloadingModels { .. } => true,
        PipelineStatus::LoadingModels => true,
        PipelineStatus::Translating => true,
        PipelineStatus::RetryingTranslate { .. } => true,
        PipelineStatus::OverlayActive => true,
        PipelineStatus::Cancelled => true,
        _ => false,
    }
}

} // verus!
