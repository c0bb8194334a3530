//! Translation jobs: start, stream, finish, and how their captions are shown.

use crate::config::ApiConfig;
use crate::engine::{block_lines, blocks_to_text};
use crate::fingerprint::OcrFingerprint;
use crate::pipeline::command::{Action, Effect, OverlayCommand, OverlayOrder};
use crate::pipeline::worker::{
    optional_view, pipeline_view, InflightTranslate, Job, Page, PendingPage, Pipeline, PipelineView,
};
use crate::state::{app_view, recent, AppView, PipelineStatus, StatusView};
use crate::text::{joined, trim, trimmed};
use crate::types::{copy_blocks, copy_translated, OcrBlock, TranslatedBlock};
use vstd::prelude::*;

verus! {

/// A page whose blocks are to be looked up in the translation cache; the host then reports to
/// [`Pipeline::on_resolved`].
#[derive(Debug)]
pub struct CacheRequest {
    pub page: PendingPage,
    /// Ask the model even for remembered texts.
    pub force: bool,
}

/// How a translation request ended.
#[derive(Debug)]
pub enum TranslateOutcome {
    /// The reply was merged and stored.
    Done { translated: Vec<TranslatedBlock>, translated_text: String, cache_len: usize },
    /// The reply could not be read.
    BadReply(String),
    Cancelled,
    Failed(String),
}

/// There is something to translate on the page.
pub open spec fn has_text(page: Page) -> bool {
    page.blocks.len() > 0 && trim(page.source).len() > 0
}

/// Position of the first of the first `n` blocks that has the id.
pub open spec fn block_with_id(blocks: Seq<OcrBlock>, id: u32, n: int) -> Option<int>
    decreases n,
{
    if n <= 0 {
        None
    } else {
        match block_with_id(blocks, id, n - 1) {
            Some(i) => Some(i),
            None => if blocks[n - 1].id == id {
                Some(n - 1)
            } else {
                None
            },
        }
    }
}

/// The translations of the blocks after the first `n` streamed pairs of id and text.
pub open spec fn streamed_hits(job: Job, pairs: Seq<(u32, String)>, n: int) -> Seq<Option<String>>
    decreases n,
{
    if n <= 0 {
        job.hits
    } else {
        let hits = streamed_hits(job, pairs, n - 1);
        match block_with_id(job.blocks, pairs[n - 1].0, job.blocks.len() as int) {
            Some(i) => hits.update(i, Some(pairs[n - 1].1)),
            None => hits,
        }
    }
}

impl PipelineView {
    /// The overlay is put on its target and shows the captions.
    #[verifier::opaque]
    pub open spec fn painted(
        self,
        blocks: Seq<TranslatedBlock>,
        content_width: u32,
        content_height: u32,
    ) -> PipelineView {
        let p = match self.app.hwnd {
            Some(target_hwnd) => self.orders(OverlayOrder::Attach { target_hwnd }),
            None => self,
        };
        p.orders(OverlayOrder::SetBlocks { blocks, content_width, content_height })
    }

    /// Captions are shown while their job still runs.
    #[verifier::opaque]
    pub open spec fn caption_preview(
        self,
        blocks: Seq<TranslatedBlock>,
        width: u32,
        height: u32,
    ) -> PipelineView {
        let p = self.painted(blocks, width, height);
        p.with_app(AppView { captions: blocks, ..p.app })
    }

    /// The captions of a finished page are shown.
    #[verifier::opaque]
    pub open spec fn page_translated(
        self,
        blocks: Seq<TranslatedBlock>,
        width: u32,
        height: u32,
    ) -> PipelineView {
        let p = self.painted(blocks, width, height);
        p.with_app(
            AppView {
                captions: blocks,
                translate_in_flight: false,
                last_error: None,
                status: StatusView::OverlayActive,
                attention_sent: false,
                ..p.app
            },
        )
    }

    /// The page is to be looked up in the cache: nothing runs, there is text, and it is not the
    /// page that was translated last, unless forced.
    pub open spec fn wants_cache(self, page: Page, force: bool) -> bool {
        self.job is None && has_text(page) && (force || self.last_translated_fp != Some(
            page.fingerprint,
        ))
    }

    /// The pipeline after it was given a page to translate.
    #[verifier::opaque]
    pub open spec fn translate_begun(self, page: Page, force: bool) -> PipelineView {
        let p = self.with_app(AppView { ocr: page.blocks, ..self.app });
        if self.job is Some {
            self
        } else if !has_text(page) {
            (PipelineView {
                last_translated_fp: None,
                page: None,
                app: (AppView {
                    captions: Seq::empty(),
                    translate_in_flight: false,
                    ..p.app
                }).resting(StatusView::Idle),
                ..p
            }).orders(OverlayOrder::Clear)
        } else if !self.wants_cache(page, force) {
            p.with_app(
                AppView {
                    translate_in_flight: false,
                    status: if p.app.captions.len() > 0 {
                        StatusView::OverlayActive
                    } else if p.app.auto_running {
                        StatusView::Capturing
                    } else {
                        p.app.status
                    },
                    ..p.app
                },
            )
        } else {
            (PipelineView { client_api: p.app.config.api, ..p }).asks(
                Effect::UpdateClient(p.app.config.api),
            )
        }
    }

    /// The pipeline after the cache was asked. With all texts remembered the page is finished;
    /// else what is remembered is shown and a request starts.
    #[verifier::opaque]
    pub open spec fn cache_resolved(
        self,
        page: Page,
        hits: Seq<Option<String>>,
        misses: Seq<OcrBlock>,
        known: Seq<TranslatedBlock>,
        cache_len: usize,
        turns: usize,
    ) -> PipelineView {
        if misses.len() == 0 {
            (PipelineView {
                last_translated_fp: Some(page.fingerprint),
                app: AppView { cache_len, ..self.app },
                ..self
            }).page_translated(known, page.width, page.height)
        } else {
            let p = if known.len() > 0 {
                self.caption_preview(known, page.width, page.height)
            } else {
                self
            };
            (PipelineView {
                app: AppView {
                    history: recent(p.app.history, turns as nat),
                    status: StatusView::Translating,
                    translate_in_flight: true,
                    last_error: None,
                    ..p.app
                },
                job: Some(
                    Job {
                        fingerprint: page.fingerprint,
                        blocks: page.blocks,
                        width: page.width,
                        height: page.height,
                        misses,
                        hits,
                        revert: p.app.captions,
                    },
                ),
                ..p
            }).asks(Effect::SpawnTranslate)
        }
    }

    /// The captions of before the job are shown again, or else what was remembered.
    pub open spec fn reverted(self, job: Job, known: Seq<TranslatedBlock>) -> PipelineView {
        self.caption_preview(
            if job.revert.len() > 0 {
                job.revert
            } else {
                known
            },
            job.width,
            job.height,
        )
    }

    /// A translation failed; the user's attention is asked for once until the next success.
    #[verifier::opaque]
    pub open spec fn translate_failed(self, message: Seq<char>) -> PipelineView {
        let p = self.with_app(
            AppView {
                attention_sent: true,
                ..(AppView { translate_in_flight: false, ..self.app }).failed(message)
            },
        );
        if self.app.attention_sent {
            p
        } else {
            p.asks(Effect::FlashTaskbar)
        }
    }

    /// The job is gone.
    pub open spec fn job_taken(self) -> PipelineView {
        PipelineView { job: None, ..self }
    }

    /// The pipeline after the running request ended. `known` is what is remembered of its page.
    #[verifier::opaque]
    pub open spec fn translate_finished(
        self,
        job: Job,
        outcome: TranslateOutcome,
        known: Seq<TranslatedBlock>,
    ) -> PipelineView {
        match outcome {
            TranslateOutcome::Done { translated, translated_text, cache_len } => {
                let p = (PipelineView {
                    last_translated_fp: Some(job.fingerprint),
                    ..self.job_taken().asks(Effect::CommitTurn)
                });
                p.with_app(
                    (AppView { cache_len, ..p.app }).remembered(
                        block_lines(job.blocks),
                        translated_text@,
                    ),
                ).page_translated(translated@, job.width, job.height)
            },
            TranslateOutcome::BadReply(e) => self.job_taken().asks(Effect::RollbackTurn).reverted(
                job,
                known,
            ).translate_failed("translate parse: "@ + e@),
            TranslateOutcome::Cancelled => {
                let p = self.job_taken().asks(Effect::RollbackTurn).reverted(job, known);
                p.with_app(
                    (AppView { translate_in_flight: false, ..p.app }).resting(
                        StatusView::Cancelled,
                    ),
                )
            },
            TranslateOutcome::Failed(e) => self.job_taken().asks(Effect::RollbackTurn).reverted(
                job,
                known,
            ).translate_failed("translate: "@ + e@),
        }
    }
}

fn copy_hits(hits: &Vec<Option<String>>) -> (r: Vec<Option<String>>)
    ensures
        r@ == hits@,
{
    let mut out: Vec<Option<String>> = Vec::new();
    let mut i: usize = 0;
    while i < hits.len()
        invariant
            i <= hits@.len(),
            out@ == hits@.take(i as int),
        decreases hits@.len() - i,
    {
        out.push(
            match &hits[i] {
                Some(t) => Some(t.clone()),
                None => None,
            },
        );
        i = i + 1;
        assert(out@ =~= hits@.take(i as int));
    }
    assert(hits@.take(i as int) =~= hits@);
    out
}

fn position_of_id(blocks: &Vec<OcrBlock>, id: u32) -> (r: Option<usize>)
    ensures
        match r {
            Some(i) => i < blocks@.len() && block_with_id(blocks@, id, blocks@.len() as int)
                == Some(i as int),
            None => block_with_id(blocks@, id, blocks@.len() as int) is None,
        },
{
    let mut i: usize = 0;
    while i < blocks.len()
        invariant
            i <= blocks@.len(),
            block_with_id(blocks@, id, i as int) is None,
        decreases blocks@.len() - i,
    {
        if blocks[i].id == id {
            proof {
                lemma_block_with_id_extends(blocks@, id, i + 1);
            }
            return Some(i);
        }
        i = i + 1;
    }
    None
}

proof fn lemma_block_with_id_extends(blocks: Seq<OcrBlock>, id: u32, n: int)
    requires
        0 <= n <= blocks.len(),
    ensures
        block_with_id(blocks, id, n) is Some ==> block_with_id(blocks, id, blocks.len() as int)
            == block_with_id(blocks, id, n),
    decreases blocks.len() - n,
{
    if n < blocks.len() {
        lemma_block_with_id_extends(blocks, id, n + 1);
    }
}

impl InflightTranslate {
    /// Remembered and streamed translations of the blocks.
    pub fn hits_with(&self, pairs: &Vec<(u32, String)>) -> (r: Vec<Option<String>>)
        requires
            self@.hits.len() == self@.blocks.len(),
        ensures
            r@ == streamed_hits(self@, pairs@, pairs@.len() as int),
    {
        let mut hits: Vec<Option<String>> = copy_hits(&self.cached_hits);
        let mut n: usize = 0;
        while n < pairs.len()
            invariant
                n <= pairs@.len(),
                hits@.len() == self@.blocks.len(),
                hits@ == streamed_hits(self@, pairs@, n as int),
            decreases pairs@.len() - n,
        {
            match position_of_id(&self.blocks, pairs[n].0) {
                Some(i) => {
                    hits.set(i, Some(pairs[n].1.clone()));
                },
                None => {},
            }
            n = n + 1;
        }
        hits
    }
}

impl Pipeline {
    pub(crate) fn paint(
        &mut self,
        blocks: &Vec<TranslatedBlock>,
        content_width: u32,
        content_height: u32,
    )
        ensures
            final(self)@ == old(self)@.painted(blocks@, content_width, content_height),
    {
        reveal(PipelineView::painted);
        match self.target_window() {
            Some(target_hwnd) => {
                self.order(OverlayCommand::Attach { target_hwnd });
            },
            None => {},
        }
        self.order(
            OverlayCommand::SetBlocks {
                blocks: copy_translated(blocks),
                content_width,
                content_height,
            },
        );
    }

    fn target_window(&self) -> (r: Option<isize>)
        ensures
            r == self@.app.hwnd,
    {
        reveal(pipeline_view);
        reveal(app_view);
        self.state.target_hwnd
    }

    pub(crate) fn set_captions(&mut self, captions: Vec<TranslatedBlock>)
        ensures
            final(self)@ == old(self)@.with_app(AppView { captions: captions@, ..old(self)@.app }),
    {
        reveal(pipeline_view);
        reveal(app_view);
        self.state.latest_translated_blocks = captions;
    }

    /// Show remembered captions at once. Neither ends the job nor adds history.
    pub fn apply_cached_preview(
        &mut self,
        translated: Vec<TranslatedBlock>,
        content_width: u32,
        content_height: u32,
    )
        ensures
            final(self)@ == old(self)@.caption_preview(translated@, content_width, content_height),
    {
        reveal(PipelineView::caption_preview);
        self.paint(&translated, content_width, content_height);
        self.set_captions(translated);
    }

    /// Show the captions of a finished page.
    pub fn apply_translated(
        &mut self,
        translated: Vec<TranslatedBlock>,
        content_width: u32,
        content_height: u32,
    )
        ensures
            final(self)@ == old(self)@.page_translated(translated@, content_width, content_height),
    {
        reveal(PipelineView::page_translated);
        self.paint(&translated, content_width, content_height);
        self.set_captions(translated);
        self.mark_success();
    }

    fn mark_success(&mut self)
        ensures
            final(self)@ == old(self)@.with_app(
                AppView {
                    translate_in_flight: false,
                    last_error: None,
                    status: StatusView::OverlayActive,
                    attention_sent: false,
                    ..old(self)@.app
                },
            ),
    {
        reveal(pipeline_view);
        reveal(app_view);
        self.state.translate_in_flight = false;
        self.state.last_error = None;
        self.state.status = PipelineStatus::OverlayActive;
        self.state.attention_sent = false;
    }

    /// Show the OCR blocks.
    pub fn set_ocr_blocks(&mut self, blocks: &Vec<OcrBlock>)
        ensures
            final(self)@ == old(self)@.with_app(AppView { ocr: blocks@, ..old(self)@.app }),
    {
        reveal(pipeline_view);
        reveal(app_view);
        self.state.latest_ocr_blocks = copy_blocks(blocks);
    }

    pub(crate) fn clear_empty_page(&mut self)
        ensures
            final(self)@ == (PipelineView {
                last_translated_fp: None,
                page: None,
                app: (AppView {
                    captions: Seq::empty(),
                    translate_in_flight: false,
                    ..old(self)@.app
                }).resting(StatusView::Idle),
                ..old(self)@
            }),
    {
        reveal(pipeline_view);
        reveal(app_view);
        self.last_translated_fp = None;
        self.last_page = None;
        self.state.latest_translated_blocks = Vec::new();
        self.state.translate_in_flight = false;
        self.state.rest_as(PipelineStatus::Idle);
    }

    pub(crate) fn show_unchanged(&mut self)
        ensures
            final(self)@ == old(self)@.with_app(
                AppView {
                    translate_in_flight: false,
                    status: if old(self)@.app.captions.len() > 0 {
                        StatusView::OverlayActive
                    } else if old(self)@.app.auto_running {
                        StatusView::Capturing
                    } else {
                        old(self)@.app.status
                    },
                    ..old(self)@.app
                },
            ),
    {
        reveal(pipeline_view);
        reveal(app_view);
        self.state.translate_in_flight = false;
        if self.state.latest_translated_blocks.len() > 0 {
            self.state.status = PipelineStatus::OverlayActive;
        } else if self.state.auto_running {
            self.state.status = PipelineStatus::Capturing;
        }
    }

    pub(crate) fn is_last_translated(&self, fingerprint: OcrFingerprint) -> (r: bool)
        ensures
            r == (self@.last_translated_fp == Some(fingerprint)),
    {
        reveal(pipeline_view);
        match self.last_translated_fp {
            Some(fp) => fp == fingerprint,
            None => false,
        }
    }

    pub(crate) fn api_settings(&self) -> (r: ApiConfig)
        ensures
            r == self@.app.config.api,
    {
        reveal(pipeline_view);
        reveal(app_view);
        self.state.config.api.clone()
    }

    /// Take a page to translate. What is returned is to be looked up in the translation cache.
    ///
    /// An empty page clears the captions. The page that was translated last is not translated
    /// again, unless forced.
    pub fn start_translate(&mut self, page: PendingPage, force: bool) -> (r: Option<CacheRequest>)
        ensures
            final(self)@ == old(self)@.translate_begun(page@, force),
            match r {
                Some(q) => old(self)@.wants_cache(page@, force) && q.page@ == page@ && q.force
                    == force,
                None => !old(self)@.wants_cache(page@, force),
            },
    {
        reveal(PipelineView::translate_begun);
        if self.has_job() {
            return None;
        }
        self.set_ocr_blocks(&page.blocks);
        if page.blocks.len() == 0 || trimmed(page.source_text.as_str()).as_str().is_empty() {
            self.clear_empty_page();
            self.order(OverlayCommand::Clear);
            return None;
        }
        if !force && self.is_last_translated(page.fingerprint) {
            self.show_unchanged();
            return None;
        }
        let api: ApiConfig = self.api_settings();
        self.set_client(&api);
        self.ask(Action::UpdateClient(api));
        Some(CacheRequest { page, force })
    }

    fn begin_job(
        &mut self,
        page: PendingPage,
        hits: Vec<Option<String>>,
        misses: Vec<OcrBlock>,
        turns: usize,
    )
        ensures
            final(self)@ == (PipelineView {
                app: AppView {
                    history: recent(old(self)@.app.history, turns as nat),
                    status: StatusView::Translating,
                    translate_in_flight: true,
                    last_error: None,
                    ..old(self)@.app
                },
                job: Some(
                    Job {
                        fingerprint: page@.fingerprint,
                        blocks: page@.blocks,
                        width: page@.width,
                        height: page@.height,
                        misses: misses@,
                        hits: hits@,
                        revert: old(self)@.app.captions,
                    },
                ),
                ..old(self)@
            }),
    {
        reveal(pipeline_view);
        self.state.trim_history(turns);
        reveal(app_view);
        self.state.status = PipelineStatus::Translating;
        self.state.translate_in_flight = true;
        self.state.last_error = None;
        self.inflight = Some(
            InflightTranslate {
                fingerprint: page.fingerprint,
                blocks: page.blocks,
                content_width: page.content_width,
                content_height: page.content_height,
                miss_blocks: misses,
                cached_hits: hits,
                revert_blocks: copy_translated(&self.state.latest_translated_blocks),
            },
        );
    }

    pub(crate) fn set_translated(&mut self, fingerprint: OcrFingerprint)
        ensures
            final(self)@ == (PipelineView {
                last_translated_fp: Some(fingerprint),
                ..old(self)@
            }),
    {
        reveal(pipeline_view);
        self.last_translated_fp = Some(fingerprint);
    }

    /// The host looked the page up: `hits` are the remembered translations of its blocks,
    /// `misses` the blocks to be sent, `known` the captions that the hits make. `turns` is the
    /// number of conversation turns that a request would build on.
    pub fn on_resolved(
        &mut self,
        page: PendingPage,
        hits: Vec<Option<String>>,
        misses: Vec<OcrBlock>,
        known: Vec<TranslatedBlock>,
        cache_len: usize,
        turns: usize,
    )
        ensures
            final(self)@ == old(self)@.cache_resolved(
                page@,
                hits@,
                misses@,
                known@,
                cache_len,
                turns,
            ),
            misses@.len() > 0 ==> final(self).inflight is Some,
            misses@.len() > 0 ==> final(self).inflight->0.miss_blocks@ == misses@,
            misses@.len() > 0 ==> final(self).inflight->0.cached_hits@ == hits@,
            misses@.len() > 0 ==> final(self).inflight->0.blocks@ == page.blocks@,
    {
        reveal(PipelineView::cache_resolved);
        if misses.len() == 0 {
            self.set_translated(page.fingerprint);
            self.set_cache_len(cache_len);
            self.apply_translated(known, page.content_width, page.content_height);
            return;
        }
        // Remembered captions are shown now; new lines wait for the model.
        if known.len() > 0 {
            self.apply_cached_preview(known, page.content_width, page.content_height);
        }
        self.begin_job(page, hits, misses, turns);
        self.ask(Action::SpawnTranslate);
        proof {
            reveal(pipeline_view);
            reveal(PipelineView::asks);
            assert(self@.job is Some);
        }
    }

    /// The request failed for now and is tried again.
    pub fn on_translate_retry(&mut self, attempt: u32, max_retries: u32, message: String)
        ensures
            final(self)@ == old(self)@.with_app(
                AppView {
                    last_error: Some(message@),
                    status: StatusView::RetryingTranslate {
                        attempt,
                        max_retries,
                        message: message@,
                    },
                    ..old(self)@.app
                },
            ),
    {
        reveal(pipeline_view);
        reveal(app_view);
        self.state.last_error = Some(message.clone());
        self.state.status = PipelineStatus::RetryingTranslate { attempt, max_retries, message };
    }

    /// Translated pairs of block id and text arrived. What is returned is to be turned into
    /// captions for [`Self::apply_stream_preview`].
    ///
    /// Without pairs, as on a retry, the captions of before the job are shown again.
    pub fn begin_stream_preview(&mut self, pairs: &Vec<(u32, String)>) -> (r: Option<
        (Vec<OcrBlock>, Vec<Option<String>>),
    >)
        requires
            old(self)@.job matches Some(j) ==> j.hits.len() == j.blocks.len(),
        ensures
            match old(self)@.job {
                None => r is None && final(self)@ == old(self)@,
                Some(job) => if pairs@.len() == 0 && job.revert.len() > 0 {
                    r is None && final(self)@ == old(self)@.caption_preview(
                        job.revert,
                        job.width,
                        job.height,
                    )
                } else {
                    &&& final(self)@ == old(self)@
                    &&& r matches Some(q)
                    &&& q.0@ == job.blocks
                    &&& q.1@ == streamed_hits(job, pairs@, pairs@.len() as int)
                },
            },
    {
        let revert: Option<(Vec<TranslatedBlock>, u32, u32)> = self.revert_captions();
        match revert {
            None => None,
            Some((captions, width, height)) => {
                if pairs.len() == 0 && captions.len() > 0 {
                    self.apply_cached_preview(captions, width, height);
                    None
                } else {
                    self.job_hits(pairs)
                }
            },
        }
    }

    fn revert_captions(&self) -> (r: Option<(Vec<TranslatedBlock>, u32, u32)>)
        ensures
            match r {
                Some(t) => self@.job matches Some(j) && t.0@ == j.revert && t.1 == j.width && t.2
                    == j.height,
                None => self@.job is None,
            },
    {
        reveal(pipeline_view);
        match &self.inflight {
            Some(job) => Some(
                (copy_translated(&job.revert_blocks), job.content_width, job.content_height),
            ),
            None => None,
        }
    }

    fn job_hits(&self, pairs: &Vec<(u32, String)>) -> (r: Option<
        (Vec<OcrBlock>, Vec<Option<String>>),
    >)
        requires
            self@.job matches Some(j) && j.hits.len() == j.blocks.len(),
        ensures
            r matches Some(q) && q.0@ == self@.job->0.blocks && q.1@ == streamed_hits(
                self@.job->0,
                pairs@,
                pairs@.len() as int,
            ),
    {
        reveal(pipeline_view);
        match &self.inflight {
            Some(job) => Some((copy_blocks(&job.blocks), job.hits_with(pairs))),
            None => None,
        }
    }

    /// Show the captions that the streamed translations make.
    pub fn apply_stream_preview(&mut self, preview: Vec<TranslatedBlock>)
        ensures
            final(self)@ == match old(self)@.job {
                Some(job) => old(self)@.caption_preview(preview@, job.width, job.height),
                None => old(self)@,
            },
    {
        match self.revert_captions() {
            Some((_, width, height)) => {
                self.apply_cached_preview(preview, width, height);
            },
            None => {},
        }
    }

    fn take_job(&mut self) -> (r: Option<InflightTranslate>)
        ensures
            optional_view(r) == old(self)@.job,
            final(self)@ == old(self)@.job_taken(),
    {
        reveal(pipeline_view);
        let mut job: Option<InflightTranslate> = None;
        std::mem::swap(&mut job, &mut self.inflight);
        job
    }

    pub(crate) fn remember(&mut self, source_text: String, translated_text: String)
        ensures
            final(self)@ == old(self)@.with_app(
                old(self)@.app.remembered(source_text@, translated_text@),
            ),
    {
        reveal(pipeline_view);
        self.state.push_history(source_text, translated_text);
    }

    fn revert(&mut self, job: &InflightTranslate, known: Vec<TranslatedBlock>)
        ensures
            final(self)@ == old(self)@.reverted(job@, known@),
    {
        if job.revert_blocks.len() > 0 {
            self.apply_cached_preview(
                copy_translated(&job.revert_blocks),
                job.content_width,
                job.content_height,
            );
        } else {
            self.apply_cached_preview(known, job.content_width, job.content_height);
        }
    }

    pub(crate) fn mark_cancelled(&mut self)
        ensures
            final(self)@ == old(self)@.with_app(
                (AppView { translate_in_flight: false, ..old(self)@.app }).resting(
                    StatusView::Cancelled,
                ),
            ),
    {
        reveal(pipeline_view);
        reveal(app_view);
        self.state.translate_in_flight = false;
        self.state.rest_as(PipelineStatus::Cancelled);
    }

    fn mark_failed(&mut self, message: String) -> (r: bool)
        ensures
            r == !old(self)@.app.attention_sent,
            final(self)@ == old(self)@.with_app(
                AppView {
                    attention_sent: true,
                    ..(AppView { translate_in_flight: false, ..old(self)@.app }).failed(message@)
                },
            ),
    {
        reveal(pipeline_view);
        reveal(app_view);
        reveal(AppView::failed);
        self.state.translate_in_flight = false;
        self.state.set_error(message);
        let flash: bool = !self.state.attention_sent;
        self.state.attention_sent = true;
        flash
    }

    fn fail_translate(&mut self, message: String)
        ensures
            final(self)@ == old(self)@.translate_failed(message@),
    {
        reveal(PipelineView::translate_failed);
        if self.mark_failed(message) {
            self.ask(Action::FlashTaskbar);
        }
    }

    /// The running request ended. `known` is what is remembered of its page, shown on failure
    /// when there were no captions before.
    pub fn finish_translate(&mut self, outcome: TranslateOutcome, known: Vec<TranslatedBlock>)
        ensures
            final(self)@ == match old(self)@.job {
                Some(job) => old(self)@.translate_finished(job, outcome, known@),
                None => old(self)@,
            },
    {
        reveal(PipelineView::translate_finished);
        let job: InflightTranslate = match self.take_job() {
            Some(j) => j,
            None => {
                assert(self@ == old(self)@);
                return;
            },
        };
        match outcome {
            TranslateOutcome::Done { translated, translated_text, cache_len } => {
                self.ask(Action::CommitTurn);
                self.set_translated(job.fingerprint);
                self.set_cache_len(cache_len);
                self.remember(blocks_to_text(&job.blocks), translated_text);
                self.apply_translated(translated, job.content_width, job.content_height);
            },
            TranslateOutcome::BadReply(e) => {
                // No unreadable reply stays as conversation context.
                self.ask(Action::RollbackTurn);
                self.revert(&job, known);
                self.fail_translate(joined("translate parse: ", e.as_str()));
            },
            TranslateOutcome::Cancelled => {
                self.ask(Action::RollbackTurn);
                self.revert(&job, known);
                self.mark_cancelled();
            },
            TranslateOutcome::Failed(e) => {
                self.ask(Action::RollbackTurn);
                self.revert(&job, known);
                self.fail_translate(joined("translate: ", e.as_str()));
            },
        }
    }
}

} // verus!
