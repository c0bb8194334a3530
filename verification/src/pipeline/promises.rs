//! What the pipeline does for its user, step by step.

use crate::config::{AppConfig, OverlayConfig};
use crate::download::ModelLoadUpdate;
use crate::engine::block_lines;
use crate::fingerprint::{page_fingerprint, OcrFingerprint};
use crate::frame::{bytes_of, CapturedFrame};
use crate::pipeline::command::{Effect, OverlayOrder, PipelineCommand};
use crate::pipeline::translate::{streamed_hits, TranslateOutcome};
use crate::pipeline::worker::{pipeline_view, Job, Page, Pipeline, PipelineView, Request};
use crate::remap::remap_of;
use crate::stability::StabilityOutcome;
use crate::state::{app_view, AppState, AppView, StatusView, HISTORY_ROWS};
use crate::text::trim;
use crate::types::{ModelTier, NormRect, OcrBlock, TranslatedBlock};
use vstd::prelude::*;

verus! {

/// What the plain values of the pipeline stand for.
pub proof fn law_pipeline_is_seen_as_it_is(p: Pipeline)
    ensures
        p@.app == p.state@,
        p@.session == p.session,
        p@.gate == p.gate,
        p@.persistence == p.persist.settings,
        p@.tracks == p.persist.tracks@,
        p@.engine_ready == p.engine_ready,
        p@.client_api == p.client_api,
        p@.last_translated_fp == p.last_translated_fp,
        p@.page is Some == p.last_page is Some,
        p.last_page matches Some(page) ==> {
            &&& p@.page->0.blocks == page.blocks@
            &&& p@.page->0.source == page.source_text@
            &&& p@.page->0.fingerprint == page.fingerprint
            &&& p@.page->0.width == page.content_width
            &&& p@.page->0.height == page.content_height
        },
        p@.job is Some == p.inflight is Some,
        p.inflight matches Some(job) ==> {
            &&& p@.job->0.fingerprint == job.fingerprint
            &&& p@.job->0.blocks == job.blocks@
            &&& p@.job->0.misses == job.miss_blocks@
            &&& p@.job->0.hits == job.cached_hits@
            &&& p@.job->0.revert == job.revert_blocks@
            &&& p@.job->0.width == job.content_width
            &&& p@.job->0.height == job.content_height
        },
        p@.model_load == p.model_load,
        p@.ocr_tier == p.ocr_tier,
        p@.raw is Some == p.last_raw_ocr is Some,
        p@.preview_seq_bias == p.preview_seq_bias,
        p@.raw_empty_since == p.raw_empty_since,
        p@.raw_content_since == p.raw_content_since,
        p@.remap_miss_since == p.remap_miss_since,
        p@.overlay_up == p.overlay_up,
        p@.effects.len() == p.actions@.len(),
        forall|i: int| 0 <= i < p.actions@.len() ==> #[trigger] p@.effects[i] == p.actions@[i]@,
{
    reveal(pipeline_view);
}

/// What the plain values of the shared state stand for.
pub proof fn law_state_is_seen_as_it_is(s: AppState)
    ensures
        s@.config == s.config,
        s@.ocr == s.latest_ocr_blocks@,
        s@.captions == s.latest_translated_blocks@,
        s@.history.len() == s.history@.len(),
        forall|i: int|
            0 <= i < s.history@.len() ==> #[trigger] s@.history[i] == (
                s.history@[i].source_text@,
                s.history@[i].translated_text@,
            ),
        s@.title is Some == s.target_window_title is Some,
        s.target_window_title matches Some(t) ==> s@.title->0 == t@,
        s@.hwnd == s.target_hwnd,
        s@.auto_running == s.auto_running,
        s@.translate_in_flight == s.translate_in_flight,
        s@.last_error is Some == s.last_error is Some,
        s.last_error matches Some(t) ==> s@.last_error->0 == t@,
        s@.settings_message is Some == s.settings_message is Some,
        s.settings_message matches Some(t) ==> s@.settings_message->0 == t@,
        s@.last_ocr_ms == s.last_ocr_ms,
        s@.last_ocr_block_count == s.last_ocr_block_count,
        s@.regions == s.ocr_regions@,
        s@.region_select_active == s.region_select_active,
        s@.region_draft == s.region_select_draft@,
        s@.cache_len == s.translation_cache_len,
        s@.attention_sent == s.attention_sent,
        s@.preview.width == s.preview.width,
        s@.preview.height == s.preview.height,
        s@.preview.sequence == s.preview.sequence,
{
    reveal(app_view);
}

/// Nothing of `more` beyond the effects of `p` asks for a request.
pub open spec fn no_request_asked(p: PipelineView, more: PipelineView) -> bool {
    forall|k: int|
        p.effects.len() <= k < more.effects.len() ==> #[trigger] more.effects[k]
            != Effect::SpawnTranslate
}

/// Only lines that are not remembered are sent: the request that starts for a page has exactly
/// the missing lines to send, so a line with a remembered translation is not among them unless
/// it is missing; what is remembered is kept with the page and shown meanwhile, and comes back
/// should the request fail. The history keeps what the conversation still holds.
pub proof fn law_only_missing_lines_are_sent(
    p: PipelineView,
    page: Page,
    hits: Seq<Option<String>>,
    misses: Seq<OcrBlock>,
    known: Seq<TranslatedBlock>,
    cache_len: usize,
    turns: usize,
)
    requires
        misses.len() > 0,
    ensures
        ({
            let q = p.cache_resolved(page, hits, misses, known, cache_len, turns);
            &&& q.job matches Some(job)
            &&& job.misses == misses
            &&& job.hits == hits
            &&& job.blocks == page.blocks
            &&& job.fingerprint == page.fingerprint
            &&& job.width == page.width
            &&& job.height == page.height
            &&& forall|i: int|
                0 <= i < hits.len() && hits[i] is Some && !misses.contains(
                    #[trigger] page.blocks[i],
                ) ==> !job.misses.contains(page.blocks[i])
        }),
        ({
            let q = p.cache_resolved(page, hits, misses, known, cache_len, turns);
            &&& q.effects.last() == Effect::SpawnTranslate
            &&& q.app.translate_in_flight
            &&& q.app.status == StatusView::Translating
            &&& q.app.captions == if known.len() > 0 {
                known
            } else {
                p.app.captions
            }
            &&& q.app.ocr == p.app.ocr
            &&& q.app.config == p.app.config
            &&& q.app.last_error is None
            &&& q.last_translated_fp == p.last_translated_fp
            &&& q.page == p.page
            &&& q.app.history.len() == if p.app.history.len() < turns {
                p.app.history.len()
            } else {
                turns as nat
            }
            &&& forall|i: int|
                0 <= i < q.app.history.len() ==> #[trigger] q.app.history[i] == p.app.history[i]
        }),
        ({
            let q = p.cache_resolved(page, hits, misses, known, cache_len, turns);
            &&& known.len() > 0 ==> q.job->0.revert == known
            &&& known.len() == 0 ==> q.job->0.revert == p.app.captions
        }),
{
    reveal(PipelineView::asks);
    reveal(PipelineView::orders);
    reveal(PipelineView::painted);
    reveal(PipelineView::caption_preview);
    reveal(PipelineView::cache_resolved);
}

/// A page of which every line is remembered needs no request: its captions are shown at once, and
/// it counts as translated.
pub proof fn law_remembered_page_needs_no_request(
    p: PipelineView,
    page: Page,
    hits: Seq<Option<String>>,
    known: Seq<TranslatedBlock>,
    cache_len: usize,
    turns: usize,
)
    ensures
        ({
            let q = p.cache_resolved(page, hits, Seq::empty(), known, cache_len, turns);
            &&& q.job == p.job
            &&& q.app.captions == known
            &&& q.last_translated_fp == Some(page.fingerprint)
            &&& !q.app.translate_in_flight
            &&& q.app.history == p.app.history
            &&& q.app.cache_len == cache_len
            &&& q.app.status == StatusView::OverlayActive
            &&& no_request_asked(p, q)
            &&& p.overlay_up ==> q.effects.last() == Effect::Overlay(
                OverlayOrder::SetBlocks {
                    blocks: known,
                    content_width: page.width,
                    content_height: page.height,
                },
            )
        }),
{
    reveal(PipelineView::asks);
    reveal(PipelineView::orders);
    reveal(PipelineView::painted);
    reveal(PipelineView::page_translated);
    reveal(PipelineView::cache_resolved);
}

/// A page with text is looked up unless a request runs, or it is the page that was translated
/// last and is not forced. A blank page clears the captions. Either way nothing else is asked of
/// the translation service.
pub proof fn law_new_page_is_looked_up(p: PipelineView, page: Page, force: bool)
    requires
        p.job is None,
    ensures
        p.wants_cache(page, force) <==> page.blocks.len() > 0 && trim(page.source).len() > 0 && (
        force || p.last_translated_fp != Some(page.fingerprint)),
        ({
            let q = p.translate_begun(page, force);
            let text = page.blocks.len() > 0 && trim(page.source).len() > 0;
            let new = force || p.last_translated_fp != Some(page.fingerprint);
            &&& q.app.ocr == page.blocks
            &&& q.job is None
            &&& no_request_asked(p, q)
            &&& text && new ==> {
                &&& q.effects == p.effects.push(Effect::UpdateClient(p.app.config.api))
                &&& q.client_api == p.app.config.api
                &&& q.app.captions == p.app.captions
                &&& q.last_translated_fp == p.last_translated_fp
                &&& q.page == p.page
            }
            &&& text && !new ==> {
                &&& q.effects == p.effects
                &&& q.app.captions == p.app.captions
                &&& q.last_translated_fp == p.last_translated_fp
                &&& !q.app.translate_in_flight
                &&& p.app.captions.len() > 0 ==> q.app.status == StatusView::OverlayActive
                &&& p.app.captions.len() == 0 && p.app.auto_running ==> q.app.status
                    == StatusView::Capturing
                &&& p.app.captions.len() == 0 && !p.app.auto_running ==> q.app.status
                    == p.app.status
            }
            &&& !text ==> {
                &&& p.app.auto_running ==> q.app.status == StatusView::Capturing
                &&& !p.app.auto_running ==> q.app.status == StatusView::Idle
                &&& q.app.captions.len() == 0
                &&& q.last_translated_fp is None
                &&& q.page is None
                &&& !q.app.translate_in_flight
                &&& p.overlay_up ==> q.effects == p.effects.push(
                    Effect::Overlay(OverlayOrder::Clear),
                )
            }
        }),
{
    reveal(PipelineView::asks);
    reveal(PipelineView::orders);
    reveal(PipelineView::translate_begun);
    reveal(AppView::resting);
}

/// A streamed translation belongs to the block with its id: the block has the text that was
/// streamed for it last, and what it had before if none was.
pub proof fn law_streamed_text_fills_its_block(
    job: Job,
    pairs: Seq<(u32, String)>,
    n: int,
    i: int,
)
    requires
        0 <= n <= pairs.len(),
        job.hits.len() == job.blocks.len(),
        0 <= i < job.blocks.len(),
        forall|j: int| 0 <= j < i ==> (#[trigger] job.blocks[j]).id != job.blocks[i].id,
    ensures
        streamed_hits(job, pairs, n).len() == job.hits.len(),
        forall|k: int|
            0 <= k < n && pairs[k].0 == job.blocks[i].id && (forall|m: int|
                k < m < n ==> (#[trigger] pairs[m]).0 != job.blocks[i].id) ==> streamed_hits(
                job,
                pairs,
                n,
            )[i] == Some((#[trigger] pairs[k]).1),
        (forall|k: int| 0 <= k < n ==> (#[trigger] pairs[k]).0 != job.blocks[i].id)
            ==> streamed_hits(job, pairs, n)[i] == job.hits[i],
    decreases n,
{
    if n > 0 {
        law_streamed_text_fills_its_block(job, pairs, n - 1, i);
        let id = pairs[n - 1].0;
        let total = job.blocks.len() as int;
        lemma_block_with_id(job.blocks, id, total);
        let before = streamed_hits(job, pairs, n - 1);
        let after = streamed_hits(job, pairs, n);
        let at = crate::pipeline::translate::block_with_id(job.blocks, id, total);
        if id == job.blocks[i].id {
            assert(at == Some(i));
            assert(after[i] == Some(pairs[n - 1].1));
        } else {
            assert(after[i] == before[i]);
        }
        assert forall|k: int|
            0 <= k < n && pairs[k].0 == job.blocks[i].id && (forall|m: int|
                k < m < n ==> (#[trigger] pairs[m]).0 != job.blocks[i].id) implies after[i] == Some(
            (#[trigger] pairs[k]).1,
        ) by {
            if k < n - 1 {
                assert(pairs[n - 1].0 != job.blocks[i].id);
            }
        }
        if forall|k: int| 0 <= k < n ==> (#[trigger] pairs[k]).0 != job.blocks[i].id {
            assert(pairs[n - 1].0 != job.blocks[i].id);
        }
    }
}

proof fn lemma_block_with_id(blocks: Seq<OcrBlock>, id: u32, n: int)
    requires
        0 <= n <= blocks.len(),
    ensures
        match crate::pipeline::translate::block_with_id(blocks, id, n) {
            Some(i) => 0 <= i < n && blocks[i].id == id && forall|j: int|
                0 <= j < i ==> (#[trigger] blocks[j]).id != id,
            None => forall|j: int| 0 <= j < n ==> (#[trigger] blocks[j]).id != id,
        },
    decreases n,
{
    if n > 0 {
        lemma_block_with_id(blocks, id, n - 1);
    }
}

/// A translated page is shown, remembered as the newest of the history, and ends its request; its
/// turn is kept for the conversation.
pub proof fn law_finished_page_is_shown(
    p: PipelineView,
    job: Job,
    translated: Vec<TranslatedBlock>,
    text: String,
    cache_len: usize,
    known: Seq<TranslatedBlock>,
)
    ensures
        ({
            let q = p.translate_finished(
                job,
                TranslateOutcome::Done { translated, translated_text: text, cache_len },
                known,
            );
            &&& q.job is None
            &&& q.app.captions == translated@
            &&& q.last_translated_fp == Some(job.fingerprint)
            &&& q.app.cache_len == cache_len
            &&& !q.app.translate_in_flight
            &&& q.app.last_error is None
            &&& q.app.status == StatusView::OverlayActive
            &&& q.app.history.len() == if p.app.history.len() < HISTORY_ROWS {
                p.app.history.len() + 1
            } else {
                HISTORY_ROWS as nat
            }
            &&& q.app.history[0] == (block_lines(job.blocks), text@)
            &&& forall|i: int|
                0 < i < q.app.history.len() ==> #[trigger] q.app.history[i] == p.app.history[i - 1]
            &&& q.effects[p.effects.len() as int] == Effect::CommitTurn
            &&& no_request_asked(p, q)
            &&& p.overlay_up ==> q.effects.last() == Effect::Overlay(
                OverlayOrder::SetBlocks {
                    blocks: translated@,
                    content_width: job.width,
                    content_height: job.height,
                },
            )
        }),
{
    reveal(PipelineView::asks);
    reveal(PipelineView::orders);
    reveal(PipelineView::painted);
    reveal(PipelineView::page_translated);
    reveal(PipelineView::translate_finished);
    reveal(AppView::remembered);
}

/// Capture of a window starts only when the models are there: while they load or are missing the
/// user is told so and nothing starts; else the chosen window is captured, and a running request
/// is dropped.
pub proof fn law_capture_starts_with_models_only(p: PipelineView, hwnd: isize, title: String)
    ensures
        ({
            let (q, step) = p.commanded(PipelineCommand::StartCapture { hwnd, title });
            &&& p.model_load is Some || !p.engine_ready ==> step == Request::Done && q.job == p.job
                && q.session == p.session && q.app.last_error is Some && q.effects == p.effects
            &&& p.model_load is None && p.engine_ready ==> q.job is None && step
                == (Request::StartCapture {
                hwnd,
                title: title@,
                min_interval_ms: p.app.config.capture.min_interval_ms,
            })
        }),
{
    reveal(PipelineView::asks);
    reveal(PipelineView::job_dropped);
    reveal(AppView::failed);
}

/// The started capture follows the chosen window and starts over: no page, caption or frame of
/// before is left, the conversation is cleared and the overlay is put on the window.
pub proof fn law_started_capture_starts_over(p: PipelineView)
    requires
        p.session.target is Some,
    ensures
        ({
            let q = p.capture_started();
            let target = p.session.target->0;
            &&& q.app.auto_running
            &&& q.app.hwnd == Some(target.hwnd)
            &&& q.app.title == Some(target.title@)
            &&& q.app.status == StatusView::Capturing
            &&& q.app.last_error is None
            &&& q.app.captions.len() == 0
            &&& q.app.ocr.len() == 0
            &&& q.page is None
            &&& q.raw is None
            &&& q.last_translated_fp is None
            &&& q.tracks.len() == 0
            &&& q.gate.active is None
            &&& q.gate.last_emitted is None
            &&& q.session == p.session
            &&& q.app.config == p.app.config
            &&& q.app.regions == p.app.regions
            &&& q.app.history == p.app.history
            &&& q.effects[p.effects.len() as int] == Effect::ClearConversation
            &&& q.effects[p.effects.len() as int + 1] == Effect::ResetClientSession
            &&& p.overlay_up ==> q.effects.last() == Effect::Overlay(
                OverlayOrder::Attach { target_hwnd: target.hwnd },
            )
        }),
{
    reveal(PipelineView::asks);
    reveal(PipelineView::orders);
    reveal(PipelineView::pages_forgotten);
    reveal(PipelineView::session_reset);
    reveal(PipelineView::sequence_absorbed);
    reveal(PipelineView::capture_started);
}

/// A manual reading skips the wait: a page with text is looked up whatever the stability gate has
/// seen and whatever was translated last, and counts as handed out.
pub proof fn law_manual_reading_skips_the_wait(
    p: PipelineView,
    blocks: Seq<OcrBlock>,
    width: u32,
    height: u32,
    now: u128,
)
    ensures
        ({
            let page = PipelineView::manual_page(blocks, width, height);
            let q = p.forced_page(page, now);
            &&& page.blocks == blocks
            &&& page.source == block_lines(blocks)
            &&& page.fingerprint == OcrFingerprint(page_fingerprint(blocks))
            &&& page.width == width
            &&& page.height == height
            &&& q.page == Some(page)
            &&& q.app.ocr == blocks
            &&& q.gate.last_emitted == Some(page.fingerprint)
            &&& q.gate.active == Some(page.fingerprint)
            &&& q.effects == p.effects
            &&& q.app.captions == p.app.captions
            &&& q.wants_cache(page, true) <==> p.job is None && blocks.len() > 0 && trim(
                block_lines(blocks),
            ).len() > 0
        }),
{
    reveal(PipelineView::forced_page);
}

/// A page goes to translation exactly when the stability gate hands it out, unless a request
/// runs, it has no text, or it is still the page that was translated last and nothing is shown.
/// It has the blocks that were read and the text of all of them.
pub proof fn law_gate_decides_what_is_translated(
    p: PipelineView,
    blocks: Seq<OcrBlock>,
    width: u32,
    height: u32,
    now: u128,
)
    ensures
        ({
            let outcome = p.gate.observed(OcrFingerprint(page_fingerprint(blocks)), now).1;
            let request = p.gate_request(blocks, width, height, now);
            match outcome {
                StabilityOutcome::Ready { fingerprint, .. } => request == if p.job is None
                    && blocks.len() > 0 && trim(block_lines(blocks)).len() > 0 && (
                p.app.captions.len() > 0 || p.last_translated_fp != Some(fingerprint)) {
                    Some(
                        Page { blocks, source: block_lines(blocks), fingerprint, width, height },
                    )
                } else {
                    None
                },
                _ => request is None,
            }
        }),
        p.gated(blocks, width, height, now).gate == p.gate.observed(
            OcrFingerprint(page_fingerprint(blocks)),
            now,
        ).0 || p.gate.observed(OcrFingerprint(page_fingerprint(blocks)), now).1 !is Ready,
{
    reveal(PipelineView::asks);
    reveal(PipelineView::orders);
    reveal(PipelineView::captions_cleared);
    reveal(PipelineView::page_ready);
    reveal(PipelineView::gate_request);
    reveal(PipelineView::gated);
    reveal(PipelineView::translate_begun);
    reveal(AppView::resting);
}

/// What goes to the stability gate: the raw reading on a surface of another size, else what
/// lingers, else the raw reading once text has been unsettled for the limit, else nothing.
pub proof fn law_lingering_text_goes_to_the_gate(
    p: PipelineView,
    raw: Seq<OcrBlock>,
    durable: Seq<OcrBlock>,
    resized: bool,
    now: u128,
)
    ensures
        resized ==> p.chosen(raw, durable, resized, now) == Some(raw),
        !resized && durable.len() > 0 ==> p.chosen(raw, durable, resized, now) == Some(durable),
        !resized && durable.len() == 0 ==> p.chosen(raw, durable, resized, now) == if (
        p.app.config.ocr.max_unstable_ms > 0 && (p.raw_content_since matches Some(since) && now
            >= since + p.app.config.ocr.max_unstable_ms * 1_000_000)) {
            Some(raw)
        } else {
            None
        },
{
    reveal(PipelineView::chosen);
}

/// Captions of a screen without text go once nothing lingers, or once the screen has been blank
/// for the miss grace; until then they stay.
pub proof fn law_blank_screen_keeps_captions_for_the_grace(
    p: PipelineView,
    durable: Seq<OcrBlock>,
    now: u128,
)
    ensures
        ({
            let q = p.blank_read(durable, now);
            let grace = if p.app.config.ocr.block_max_miss_ms < 1 {
                1_000_000
            } else {
                p.app.config.ocr.block_max_miss_ms * 1_000_000
            };
            let over = p.raw_empty_since matches Some(since) && now >= since + grace;
            &&& durable.len() == 0 || over ==> q.app.captions.len() == 0 && q.app.ocr.len() == 0
                && q.raw_empty_since is None
            &&& durable.len() > 0 && !over ==> q.app.captions == p.app.captions && q.app.ocr
                == p.app.ocr && q.effects == p.effects && q.raw_empty_since == Some(
                match p.raw_empty_since {
                    Some(since) => since,
                    None => now,
                },
            )
            &&& (durable.len() == 0 || over) && p.app.captions.len() > 0 && p.overlay_up
                ==> q.effects == p.effects.push(Effect::Overlay(OverlayOrder::Clear))
        }),
{
    reveal(PipelineView::asks);
    reveal(PipelineView::orders);
    reveal(PipelineView::blank_read);
    reveal(PipelineView::stale_cleared);
    reveal(AppView::resting);
}

/// Captions outlive their text for the miss grace where nothing was read, not longer, and go at
/// once where other text was read.
pub proof fn law_captions_without_text_go(
    p: PipelineView,
    blocks: Seq<OcrBlock>,
    width: u32,
    height: u32,
    now: u128,
)
    requires
        remap_of(
            p.app.captions,
            blocks,
            p.page is None || p.page->0.width != width || p.page->0.height != height,
        ).len() == 0,
    ensures
        ({
            let q = p.sticky(blocks, width, height, now);
            let grace = if p.app.config.ocr.block_max_miss_ms < 1 {
                1_000_000
            } else {
                p.app.config.ocr.block_max_miss_ms * 1_000_000
            };
            let over = p.remap_miss_since matches Some(since) && now >= since + grace;
            &&& q.app.ocr == blocks
            &&& blocks.len() > 0 || over ==> q.app.captions.len() == 0
            &&& blocks.len() == 0 && !over ==> q.app.captions == p.app.captions
            &&& (blocks.len() > 0 || over) && p.app.captions.len() > 0 && p.overlay_up
                ==> q.effects == p.effects.push(Effect::Overlay(OverlayOrder::Clear))
        }),
{
    reveal(PipelineView::asks);
    reveal(PipelineView::orders);
    reveal(PipelineView::sticky);
    reveal(PipelineView::captions_cleared);
    reveal(PipelineView::remap_miss_expired);
    if p.app.captions.len() == 0 {
        assert(p.app.captions =~= Seq::<TranslatedBlock>::empty());
    }
}

/// While a new page settles, its captions follow the text if at least half of them are found
/// again, and go otherwise.
pub proof fn law_settling_page_keeps_most_captions(
    p: PipelineView,
    blocks: Seq<OcrBlock>,
    width: u32,
    height: u32,
    now: u128,
)
    requires
        p.app.captions.len() > 0,
    ensures
        ({
            let found = remap_of(
                p.app.captions,
                blocks,
                p.page is None || p.page->0.width != width || p.page->0.height != height,
            ).len();
            let q = p.sticky_or_cleared(blocks, width, height, now);
            &&& q.app.ocr == blocks
            &&& found * 2 < p.app.captions.len() ==> q.app.captions.len() == 0
            &&& found * 2 >= p.app.captions.len() ==> q == p.sticky(blocks, width, height, now)
        }),
{
    reveal(PipelineView::asks);
    reveal(PipelineView::orders);
    reveal(PipelineView::sticky_or_cleared);
    reveal(PipelineView::captions_cleared);
    reveal(PipelineView::sticky);
    reveal(PipelineView::painted);
    reveal(PipelineView::remap_miss_expired);
}

/// Overlay and reader switches take effect at once, on the config and on the overlay, and change
/// nothing else.
pub proof fn law_display_switches_apply_at_once(p: PipelineView, enabled: bool, reader: bool)
    ensures
        ({
            let q = p.display_set(enabled, reader);
            let overlay = OverlayConfig {
                enabled,
                reader_enabled: reader,
                ..p.app.config.overlay
            };
            &&& q.app.config == (AppConfig { overlay, ..p.app.config })
            &&& q.app.captions == p.app.captions
            &&& q.app.status == p.app.status
            &&& q.job == p.job
            &&& q.effects == if p.overlay_up {
                p.effects.push(Effect::Overlay(OverlayOrder::UpdateConfig(overlay)))
            } else {
                p.effects
            }
        }),
{
    reveal(PipelineView::asks);
    reveal(PipelineView::orders);
    reveal(PipelineView::display_set);
}

/// A config that is applied reaches the translation client, its cache, the filter and the overlay;
/// a request to another model is dropped, one to the same model goes on.
pub proof fn law_applied_config_reaches_every_part(p: PipelineView, cfg: AppConfig)
    ensures
        ({
            let q = p.config_begun(cfg);
            let other = p.client_api.model@ != cfg.api.model@ || p.client_api.http_api
                != cfg.api.http_api || p.client_api.provider != cfg.api.provider;
            &&& q.client_api == cfg.api
            &&& q.tracks.len() == 0
            &&& q.persistence.persist_ms == cfg.ocr.block_persist_ms
            &&& q.persistence.max_unstable_ms == cfg.ocr.max_unstable_ms
            &&& q.persistence.max_miss_ms >= cfg.ocr.block_max_miss_ms
            &&& q.gate.stable_duration_ms == cfg.ocr.stable_duration_ms
            &&& q.gate.max_unstable_ms == cfg.ocr.max_unstable_ms
            &&& q.gate.last_emitted is None
            &&& q.app.captions == p.app.captions
            &&& q.app.history == p.app.history
            &&& other ==> q.job is None && q.effects.contains(Effect::ClearConversation)
            &&& other && p.job is Some ==> q.effects.contains(Effect::CancelJob)
                && q.effects.contains(Effect::RollbackTurn)
            &&& !other ==> q.job == p.job
            &&& q.effects.contains(Effect::UpdateClient(cfg.api))
            &&& q.effects.contains(Effect::ResizeCache(cfg.translation.cache_capacity()))
            &&& p.overlay_up ==> q.effects.last() == Effect::Overlay(
                OverlayOrder::UpdateConfig(cfg.overlay),
            )
        }),
{
    reveal(PipelineView::asks);
    reveal(PipelineView::orders);
    reveal(PipelineView::job_dropped);
    reveal(PipelineView::config_begun);
    let q = p.config_begun(cfg);
    let n = p.effects.len() as int;
    let other = p.client_api.model@ != cfg.api.model@ || p.client_api.http_api != cfg.api.http_api
        || p.client_api.provider != cfg.api.provider;
    let at = if !other {
        n
    } else if p.job is Some {
        n + 3
    } else {
        n + 1
    };
    assert(q.effects[at] == Effect::UpdateClient(cfg.api));
    assert(q.effects[at + 1] == Effect::ResizeCache(cfg.translation.cache_capacity()));
    if other {
        assert(q.effects[at - 1] == Effect::ClearConversation);
        if p.job is Some {
            assert(q.effects[n] == Effect::CancelJob);
            assert(q.effects[n + 1] == Effect::RollbackTurn);
        }
    }
}

/// A saved config is the one in use, and the user is told; another model size is loaded, a
/// missing engine too, and an engine that stays takes the new settings. A config that could not
/// be saved is in use all the same, and the error is shown.
pub proof fn law_saved_config_is_in_use(
    p: PipelineView,
    cfg: AppConfig,
    error: Seq<char>,
    cache_len: usize,
)
    ensures
        ({
            let q = p.config_saved(cfg, None, cache_len);
            &&& q.app.config == cfg
            &&& q.app.settings_message == Some("Saved"@)
            &&& q.app.last_error is None
            &&& q.app.cache_len == cache_len
            &&& p.ocr_tier != cfg.ocr.model_tier && p.model_load is None ==> !q.engine_ready
                && q.model_load == Some(cfg.ocr.model_tier) && q.effects.contains(
                Effect::StartModelLoad(cfg.ocr),
            ) && q.effects.contains(Effect::DropEngine)
            &&& p.ocr_tier == cfg.ocr.model_tier && p.engine_ready ==> q.engine_ready
                && q.model_load == p.model_load && q.effects == p.effects.push(
                Effect::ConfigureEngine(cfg.ocr),
            )
            &&& p.ocr_tier == cfg.ocr.model_tier && !p.engine_ready && p.model_load is None
                ==> q.model_load == Some(cfg.ocr.model_tier)
            &&& p.model_load is Some ==> q.model_load == p.model_load
            &&& q.job == p.job
            &&& q.app.captions == p.app.captions
        }),
        ({
            let q = p.config_saved(cfg, Some(error), cache_len);
            &&& q.app.config == cfg
            &&& q.app.last_error == Some("save config: "@ + error)
            &&& q.engine_ready == p.engine_ready
            &&& q.effects == p.effects
        }),
{
    reveal(PipelineView::asks);
    reveal(PipelineView::settings_saved);
    reveal(PipelineView::settings_unsaved);
    reveal(PipelineView::engine_followed);
    reveal(PipelineView::engine_dropped);
    reveal(PipelineView::load_started);
    reveal(PipelineView::status_restored);
    reveal(AppView::failed);
    reveal(AppView::restored);
    let q = p.config_saved(cfg, None, cache_len);
    let n = p.effects.len() as int;
    if p.ocr_tier != cfg.ocr.model_tier && p.model_load is None {
        assert(q.effects[n] == Effect::DropEngine);
        assert(q.effects[n + 1] == Effect::StartModelLoad(cfg.ocr));
    }
}

/// A cancelled translation is stopped if one runs, and the request reports its own end; a missing
/// one leaves the flag clear.
pub proof fn law_cancel_stops_the_request(p: PipelineView)
    ensures
        p.job is Some ==> p.commanded(PipelineCommand::CancelTranslate).0.effects == p.effects.push(
            Effect::CancelJob,
        ) && p.commanded(PipelineCommand::CancelTranslate).0.job == p.job,
        p.job is None ==> !p.commanded(PipelineCommand::CancelTranslate).0.app.translate_in_flight
            && p.commanded(PipelineCommand::CancelTranslate).0.effects == p.effects,
        p.job is None && p.app.auto_running ==> p.commanded(
            PipelineCommand::CancelTranslate,
        ).0.app.status == StatusView::Capturing,
        p.job is None && !p.app.auto_running ==> p.commanded(
            PipelineCommand::CancelTranslate,
        ).0.app.status == StatusView::Cancelled,
        p.commanded(PipelineCommand::CancelTranslate).0.app.captions == p.app.captions,
{
    reveal(PipelineView::asks);
    reveal(PipelineView::translate_cancelled);
    reveal(AppView::resting);
}

/// A frame that is not the one shown is shown whole, under its own number raised by the bias.
pub proof fn law_new_frame_is_previewed(p: PipelineView, frame: CapturedFrame)
    requires
        frame.sequence + p.preview_seq_bias <= u64::MAX,
    ensures
        ({
            let q = p.previewed(frame);
            let same = p.app.preview.sequence == frame.sequence + p.preview_seq_bias
                && p.app.preview.width == frame.width && p.app.preview.height == frame.height;
            &&& same ==> q == p
            &&& !same ==> {
                &&& q.app.preview.sequence == frame.sequence + p.preview_seq_bias
                &&& q.app.preview.width == frame.width
                &&& q.app.preview.height == frame.height
                &&& q.app.preview.rgba == Some(bytes_of(frame.rgba))
            }
            &&& q.app.captions == p.app.captions
            &&& q.effects == p.effects
            &&& q.job == p.job
        }),
{
    reveal(PipelineView::previewed);
}

/// A reset conversation forgets the context and the history, so that the page can be translated
/// anew; an emptied cache is empty. Neither touches the captions.
pub proof fn law_resets_forget_what_they_name(p: PipelineView)
    ensures
        ({
            let q = p.commanded(PipelineCommand::ResetConversation).0;
            &&& q.app.history.len() == 0
            &&& q.last_translated_fp is None
            &&& q.effects == p.effects.push(Effect::ClearConversation).push(
                Effect::ResetClientSession,
            )
            &&& q.app.captions == p.app.captions
            &&& q.app.config == p.app.config
            &&& q.job == p.job
        }),
        ({
            let q = p.commanded(PipelineCommand::ClearTranslationCache).0;
            &&& q.app.cache_len == 0
            &&& q.effects == p.effects.push(Effect::ClearCache)
            &&& q.app.captions == p.app.captions
            &&& q.app.history == p.app.history
            &&& q.app.config == p.app.config
            &&& q.job == p.job
        }),
{
    reveal(PipelineView::asks);
    reveal(PipelineView::conversation_reset);
    reveal(PipelineView::cache_cleared);
    reveal(AppView::restored);
}

/// A dropped request is aborted, and its turn is taken back; without one nothing happens.
pub proof fn law_dropped_request_is_aborted(p: PipelineView)
    ensures
        p.job is Some ==> p.job_dropped().effects == p.effects.push(Effect::CancelJob).push(
            Effect::RollbackTurn,
        ),
        p.job is None ==> p.job_dropped() == p,
        p.job_dropped().job is None,
        p.job_dropped().app.captions == p.app.captions,
        p.job_dropped().app.config == p.app.config,
{
    reveal(PipelineView::asks);
    reveal(PipelineView::job_dropped);
}

/// The worker that ends leaves nothing running, and clears and closes the overlay.
pub proof fn law_shutdown_ends_everything(p: PipelineView)
    ensures
        ({
            let (q, step) = p.commanded(PipelineCommand::Shutdown);
            &&& step == Request::Shutdown
            &&& q.job is None
            &&& q.model_load is None
            &&& q.session.stream is None
            &&& !q.overlay_up
            &&& q.effects.contains(Effect::StopStream)
            &&& p.job is Some ==> q.effects.contains(Effect::CancelJob)
            &&& p.overlay_up ==> q.effects.last() == Effect::CloseOverlay
        }),
{
    reveal(PipelineView::asks);
    reveal(PipelineView::orders);
    reveal(PipelineView::job_dropped);
    reveal(PipelineView::shut_down);
    let q = p.shut_down();
    let n = p.effects.len() as int;
    if p.job is Some {
        assert(q.effects[n] == Effect::CancelJob);
        assert(q.effects[n + 2] == Effect::StopStream);
    } else {
        assert(q.effects[n] == Effect::StopStream);
    }
}

/// Regions are picked on the overlay: the picker opens on the window with the regions in use, or
/// the user is told that there is no overlay; what is set is used after the picker has closed.
pub proof fn law_regions_are_picked_on_the_overlay(
    p: PipelineView,
    hwnd: isize,
    regions: Vec<Option<NormRect>>,
)
    ensures
        p.overlay_up ==> p.commanded(PipelineCommand::BeginRegionSelect { hwnd }) == (
            p,
            Request::OpenRegionPicker { hwnd, regions: p.app.regions },
        ),
        !p.overlay_up ==> p.commanded(PipelineCommand::BeginRegionSelect { hwnd }).1
            == Request::Done && p.commanded(
            PipelineCommand::BeginRegionSelect { hwnd },
        ).0.app.last_error == Some("overlay is not available"@),
        p.overlay_up ==> p.commanded(PipelineCommand::ConfirmRegionSelect).0.effects
            == p.effects.push(Effect::Overlay(OverlayOrder::ConfirmRegionSelect)),
        p.overlay_up ==> p.commanded(PipelineCommand::ClearRegionSelect).0.effects
            == p.effects.push(Effect::Overlay(OverlayOrder::ClearRegionSelect)),
        p.commanded(PipelineCommand::ClearRegionSelect).0.app.region_draft.len() == 0,
        p.commanded(PipelineCommand::ClearRegionSelect).0.app.regions == p.app.regions,
{
    reveal(PipelineView::asks);
    reveal(PipelineView::orders);
    reveal(AppView::failed);
}

/// A load of models that runs shows its phase; one that ends well for the configured size has its
/// engine taken over and set up; one that fails says why; and one of another size is followed by a
/// load of the configured size.
pub proof fn law_model_load_ends_in_an_engine(
    p: PipelineView,
    tier: ModelTier,
    update: ModelLoadUpdate,
    message: String,
)
    requires
        p.model_load == Some(tier),
    ensures
        ({
            let ocr = p.app.config.ocr;
            let ready = p.load_synced(ModelLoadUpdate::Ready, false);
            let failed = p.load_synced(ModelLoadUpdate::Failed(message), false);
            let lost = p.load_synced(ModelLoadUpdate::Loading, true);
            let running = p.load_synced(ModelLoadUpdate::Loading, false);
            &&& running.app.status == StatusView::LoadingModels
            &&& running.model_load == p.model_load
            &&& running.effects == p.effects
            &&& tier == ocr.model_tier ==> {
                &&& ready.engine_ready
                &&& ready.ocr_tier == tier
                &&& ready.model_load is None
                &&& ready.effects == p.effects.push(Effect::InstallEngine).push(
                    Effect::ConfigureEngine(ocr),
                )
                &&& p.app.auto_running && !p.app.translate_in_flight ==> ready.app.status
                    == StatusView::Capturing
                &&& failed.model_load is None
                &&& failed.engine_ready == p.engine_ready
                &&& failed.app.last_error == Some("models: "@ + message@)
                &&& lost.model_load is None
                &&& lost.app.last_error == Some("models: load task ended unexpectedly"@)
            }
            &&& tier != ocr.model_tier ==> {
                &&& ready.model_load == Some(ocr.model_tier)
                &&& ready.ocr_tier == ocr.model_tier
                &&& ready.effects == p.effects.push(Effect::StartModelLoad(ocr)).push(
                    Effect::SyncModelLoad,
                )
                &&& failed.effects == ready.effects
                &&& lost.effects == ready.effects
            }
        }),
{
    reveal(PipelineView::asks);
    reveal(PipelineView::load_started);
    reveal(PipelineView::load_ended);
    reveal(PipelineView::engine_installed);
    reveal(PipelineView::status_restored);
    reveal(PipelineView::failed);
    reveal(PipelineView::load_shown);
    reveal(AppView::failed);
    reveal(AppView::restored);
}

/// A download shows which file it fetches, and how much of it is there.
pub proof fn law_download_shows_its_file(
    p: PipelineView,
    tier: ModelTier,
    file: String,
    file_index: u32,
    file_count: u32,
    percent: u8,
)
    requires
        p.model_load == Some(tier),
    ensures
        p.load_synced(
            ModelLoadUpdate::Downloading { file, file_index, file_count, percent },
            false,
        ).app.status == (StatusView::DownloadingModels {
            file: file@,
            file_index,
            file_count,
            percent,
        }),
{
    reveal(PipelineView::load_shown);
}

/// Nothing of an earlier page is left after a new start: neither what was read nor the waits that
/// it began.
pub proof fn law_forgotten_pages_leave_no_waits(p: PipelineView)
    ensures
        ({
            let q = p.pages_forgotten();
            &&& q.raw is None && q.page is None && q.last_translated_fp is None
            &&& q.raw_empty_since is None && q.raw_content_since is None
                && q.remap_miss_since is None
            &&& q.tracks.len() == 0 && q.gate.active is None && q.gate.last_emitted is None
                && q.gate.unstable_since is None && q.gate.pending is None
            &&& q.app.captions.len() == 0 && q.app.ocr.len() == 0
            &&& q.app.config == p.app.config && q.app.regions == p.app.regions && q.app.history
                == p.app.history
            &&& q.gate.stable_duration_ms == p.gate.stable_duration_ms && q.gate.max_unstable_ms
                == p.gate.max_unstable_ms
            &&& q.effects == p.effects
        }),
        p.session_reset(false) == p.pages_forgotten(),
{
    reveal(PipelineView::pages_forgotten);
    reveal(PipelineView::session_reset);
}

} // verus!
