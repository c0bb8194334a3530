//! What holds of the pipeline as a whole.

use crate::clock::lasted;
use crate::config::AppConfig;
use crate::download::ModelLoadUpdate;
use crate::filter::{Persistence, TrackMeasure};
use crate::frame::CapturedFrame;
use crate::pipeline::command::{Effect, OverlayOrder, PipelineCommand};
use crate::pipeline::ocr::or_now;
use crate::pipeline::translate::{has_text, TranslateOutcome};
use crate::pipeline::worker::{Job, Page, PipelineView};
use crate::region_presets::surviving;
use crate::remap::remap_of;
use crate::stability::StabilityOutcome;
use crate::state::{AppView, StatusView};
use crate::types::{NormRect, OcrBlock, PixelBounds, TranslatedBlock};
use vstd::prelude::*;

verus! {

/// A stream that numbers its frames anew never repeats a published preview sequence: after the
/// last sequence was absorbed, every frame is published with a higher one, as long as the numbers
/// fit 64 bits, and with no lower one even then.
pub proof fn law_restarted_stream_publishes_higher_sequences(p: PipelineView, frame: CapturedFrame)
    requires
        frame.sequence >= 1,
    ensures
        p.sequence_absorbed().previewed(frame).app.preview.sequence >= p.app.preview.sequence,
        p.preview_seq_bias + p.app.preview.sequence + frame.sequence <= u64::MAX ==> {
            let q = p.sequence_absorbed().previewed(frame);
            &&& q.app.preview.sequence > p.app.preview.sequence
            &&& q.app.preview.width == frame.width
            &&& q.app.preview.height == frame.height
        },
{
    reveal(PipelineView::asks);
    reveal(PipelineView::orders);
    reveal(PipelineView::sequence_absorbed);
    reveal(PipelineView::previewed);
}

/// Stopping leaves no page, no caption, no request and no stream, and keeps settings, history,
/// regions and the count of remembered translations.
pub proof fn law_stop_leaves_nothing(p: PipelineView)
    ensures
        ({
            let q = p.capture_stopped();
            &&& q.job is None
            &&& q.page is None
            &&& q.raw is None
            &&& q.last_translated_fp is None
            &&& q.gate.cold()
            &&& q.tracks.len() == 0
            &&& q.session.stream is None
            &&& q.session.target is None
            &&& q.app.captions.len() == 0
            &&& q.app.ocr.len() == 0
            &&& q.app.hwnd is None
            &&& !q.app.auto_running
            &&& !q.app.translate_in_flight
            &&& q.app.status == StatusView::Idle
            &&& q.app.config == p.app.config
            &&& q.app.history == p.app.history
            &&& q.app.regions == p.app.regions
            &&& q.app.cache_len == p.app.cache_len
            &&& p.overlay_up ==> q.effects.last() == Effect::Overlay(OverlayOrder::Clear)
        }),
{
    reveal(PipelineView::asks);
    reveal(PipelineView::orders);
    reveal(PipelineView::capture_stopped);
    reveal(PipelineView::job_dropped);
    reveal(PipelineView::session_reset);
    reveal(PipelineView::pages_forgotten);
}

/// While a request runs nothing else is translated and no frame is read.
pub proof fn law_one_translation_at_a_time(p: PipelineView, page: Page, force: bool, finished: bool)
    requires
        p.job is Some,
    ensures
        !p.wants_cache(page, force),
        p.translate_begun(page, force) == p,
        !p.readable(finished),
{
    reveal(PipelineView::asks);
    reveal(PipelineView::orders);
    reveal(PipelineView::translate_begun);
}

/// A page that has just been translated is not translated again, unless it is forced.
pub proof fn law_translated_page_is_not_repeated(
    p: PipelineView,
    job: Job,
    translated: Vec<TranslatedBlock>,
    text: String,
    cache_len: usize,
    known: Seq<TranslatedBlock>,
    page: Page,
)
    requires
        page.fingerprint == job.fingerprint,
        has_text(page),
    ensures
        ({
            let q = p.translate_finished(
                job,
                TranslateOutcome::Done { translated, translated_text: text, cache_len },
                known,
            );
            &&& !q.wants_cache(page, false)
            &&& q.wants_cache(page, true)
            &&& q.translate_begun(page, false).app.captions == translated@
            &&& q.translate_begun(page, false).effects == q.effects
        }),
{
    reveal(PipelineView::asks);
    reveal(PipelineView::orders);
    reveal(PipelineView::translate_finished);
    reveal(PipelineView::page_translated);
    reveal(PipelineView::painted);
    reveal(PipelineView::translate_begun);
    reveal(AppView::remembered);
}

/// A request that fails or is cancelled takes back its turn and shows the captions of before.
pub proof fn law_unfinished_request_restores_captions(
    p: PipelineView,
    job: Job,
    outcome: TranslateOutcome,
    known: Seq<TranslatedBlock>,
)
    requires
        !(outcome is Done),
        job.revert.len() > 0,
    ensures
        ({
            let q = p.translate_finished(job, outcome, known);
            &&& q.job is None
            &&& !q.app.translate_in_flight
            &&& q.app.captions == job.revert
            &&& q.app.history == p.app.history
            &&& q.last_translated_fp == p.last_translated_fp
            &&& q.effects.contains(Effect::RollbackTurn)
        }),
{
    reveal(PipelineView::asks);
    reveal(PipelineView::orders);
    reveal(PipelineView::translate_finished);
    reveal(PipelineView::caption_preview);
    reveal(PipelineView::painted);
    reveal(PipelineView::translate_failed);
    reveal(AppView::failed);
    reveal(AppView::resting);
    let q = p.translate_finished(job, outcome, known);
    assert(q.effects[p.effects.len() as int] == Effect::RollbackTurn);
}

/// Errors in a row ask for the user's attention once; a success makes the next error ask again.
pub proof fn law_attention_is_asked_once(
    p: PipelineView,
    first: Seq<char>,
    second: Seq<char>,
    captions: Seq<TranslatedBlock>,
    width: u32,
    height: u32,
)
    requires
        !p.app.attention_sent,
    ensures
        p.translate_failed(first).effects == p.effects.push(Effect::FlashTaskbar),
        p.translate_failed(first).translate_failed(second).effects == p.translate_failed(
            first,
        ).effects,
        ({
            let q = p.translate_failed(first).page_translated(captions, width, height);
            q.translate_failed(second).effects == q.effects.push(Effect::FlashTaskbar)
        }),
{
    reveal(PipelineView::asks);
    reveal(PipelineView::orders);
    reveal(PipelineView::translate_failed);
    reveal(PipelineView::page_translated);
    reveal(PipelineView::painted);
    reveal(AppView::failed);
}

/// A blank screen keeps captions for the grace while something lingers, and drops captions,
/// blocks, tracks and page once the grace is over, with or without new frames.
pub proof fn law_blank_screen_drops_captions_after_grace(
    p: PipelineView,
    durable: Seq<OcrBlock>,
    now: u128,
)
    ensures
        ({
            let q = p.blank_read(durable, now);
            let over = durable.len() == 0 || lasted(
                now,
                or_now(p.raw_empty_since, now),
                p.grace_ms(),
            );
            if over {
                q.app.captions.len() == 0 && q.app.ocr.len() == 0
            } else {
                q.app.captions == p.app.captions && q.effects == p.effects
            }
        }),
        (p.raw_empty_since matches Some(t) && lasted(now, t, p.grace_ms())) ==> {
            let q = p.raw_empty_expired(now);
            q.app.captions.len() == 0 && q.app.ocr.len() == 0
        },
{
    reveal(PipelineView::asks);
    reveal(PipelineView::orders);
    reveal(PipelineView::blank_read);
    reveal(PipelineView::raw_empty_expired);
    reveal(PipelineView::stale_cleared);
    reveal(AppView::resting);
}

/// Captions in the state and on the overlay go together: clearing captions ends with a clear of
/// the overlay, showing captions ends with their order.
pub proof fn law_overlay_follows_captions(
    p: PipelineView,
    captions: Seq<TranslatedBlock>,
    width: u32,
    height: u32,
)
    requires
        p.overlay_up,
    ensures
        p.captions_cleared().app.captions.len() == 0,
        p.app.captions.len() > 0 ==> p.captions_cleared().effects.last() == Effect::Overlay(
            OverlayOrder::Clear,
        ),
        p.caption_preview(captions, width, height).app.captions == captions,
        p.caption_preview(captions, width, height).effects.last() == Effect::Overlay(
            OverlayOrder::SetBlocks {
                blocks: captions,
                content_width: width,
                content_height: height,
            },
        ),
        p.page_translated(captions, width, height).app.captions == captions,
        p.page_translated(captions, width, height).effects.last() == Effect::Overlay(
            OverlayOrder::SetBlocks {
                blocks: captions,
                content_width: width,
                content_height: height,
            },
        ),
{
    reveal(PipelineView::asks);
    reveal(PipelineView::orders);
    reveal(PipelineView::captions_cleared);
    reveal(PipelineView::caption_preview);
    reveal(PipelineView::page_translated);
    reveal(PipelineView::painted);
}

/// Captions that stay on a page of text are those whose text is still there; when none is, they
/// are gone.
pub proof fn law_sticky_shows_only_matching_captions(
    p: PipelineView,
    blocks: Seq<OcrBlock>,
    width: u32,
    height: u32,
    now: u128,
)
    requires
        blocks.len() > 0,
    ensures
        ({
            let resized = p.content_resized(width, height) || p.page is None;
            let kept = remap_of(p.app.captions, blocks, resized);
            let q = p.sticky(blocks, width, height, now);
            &&& q.app.ocr == blocks
            &&& kept.len() == 0 ==> q.app.captions.len() == 0
            &&& q.app.captions == kept || q.app.captions == p.app.captions
        }),
{
    reveal(PipelineView::asks);
    reveal(PipelineView::orders);
    reveal(PipelineView::sticky);
    reveal(PipelineView::captions_cleared);
    reveal(PipelineView::painted);
    let resized = p.content_resized(width, height) || p.page is None;
    let kept = remap_of(p.app.captions, blocks, resized);
    if kept.len() == 0 {
        assert(kept =~= Seq::<TranslatedBlock>::empty());
        if p.app.captions.len() == 0 {
            assert(p.app.captions =~= kept);
        }
    }
}

/// At most one model load runs, and a finished load of another tier is followed by a load of the
/// configured tier; its engine is not taken over.
pub proof fn law_model_loads_follow_the_configured_tier(p: PipelineView, update: ModelLoadUpdate)
    requires
        p.model_load is Some,
    ensures
        p.load_started() == p.asks(Effect::SyncModelLoad),
        ({
            let tier = p.app.config.ocr.model_tier;
            let q = p.load_synced(update, true);
            &&& p.model_load != Some(tier) ==> q.model_load == Some(tier) && q.engine_ready
                == p.engine_ready
            &&& p.model_load == Some(tier) ==> q.model_load is None && (q.engine_ready == (
            p.engine_ready || update is Ready))
        }),
{
    reveal(PipelineView::asks);
    reveal(PipelineView::orders);
    reveal(PipelineView::load_started);
    reveal(PipelineView::load_ended);
    reveal(PipelineView::engine_installed);
    reveal(PipelineView::status_restored);
    reveal(PipelineView::failed);
    reveal(PipelineView::load_shown);
}

/// Other OCR crops forget everything that was read from the old ones.
pub proof fn law_new_regions_forget_old_pages(
    p: PipelineView,
    regions: Seq<NormRect>,
)
    ensures
        ({
            let q = p.regions_applied(regions);
            &&& q.app.regions == regions
            &&& q.app.captions.len() == 0
            &&& q.app.ocr.len() == 0
            &&& q.job is None
            &&& q.raw is None
            &&& q.page is None
            &&& q.last_translated_fp is None
            &&& q.tracks.len() == 0
            &&& q.gate.cold()
            &&& !q.app.region_select_active
        }),
{
    reveal(PipelineView::asks);
    reveal(PipelineView::orders);
    reveal(PipelineView::regions_applied);
    reveal(PipelineView::job_dropped);
    reveal(PipelineView::pages_forgotten);
}

/// Both have the same request, and say so alike.
spec fn same_flight(p: PipelineView, q: PipelineView) -> bool {
    p.app.translate_in_flight == q.app.translate_in_flight && p.job == q.job
}

proof fn lemma_asks_flight(p: PipelineView, effect: Effect, order: OverlayOrder)
    ensures
        same_flight(p, p.asks(effect)),
        same_flight(p, p.orders(order)),
{
    reveal(PipelineView::asks);
    reveal(PipelineView::orders);
}

proof fn lemma_painted_flight(
    p: PipelineView,
    blocks: Seq<TranslatedBlock>,
    width: u32,
    height: u32,
)
    ensures
        same_flight(p, p.painted(blocks, width, height)),
{
    reveal(PipelineView::asks);
    reveal(PipelineView::orders);
    reveal(PipelineView::painted);
}

proof fn lemma_dropped_flight(p: PipelineView)
    requires
        p.in_flight_is_job(),
    ensures
        !p.job_dropped().app.translate_in_flight,
        p.job_dropped().job is None,
{
    reveal(PipelineView::asks);
    reveal(PipelineView::job_dropped);
}

proof fn lemma_reset_keeps_job(p: PipelineView, clear_conversation: bool)
    ensures
        p.session_reset(clear_conversation).job == p.job,
{
    reveal(PipelineView::asks);
    reveal(PipelineView::session_reset);
    reveal(PipelineView::pages_forgotten);
}

proof fn lemma_started_flight(p: PipelineView)
    requires
        p.in_flight_is_job(),
    ensures
        p.job is None ==> p.capture_started().in_flight_is_job(),
        p.capture_stopped().in_flight_is_job(),
{
    lemma_reset_keeps_job(p, true);
    assert(p.capture_started().job == p.job) by {
        reveal(PipelineView::orders);
        reveal(PipelineView::asks);
        reveal(PipelineView::sequence_absorbed);
        reveal(PipelineView::capture_started);
    }
    assert(!p.capture_started().app.translate_in_flight) by {
        reveal(PipelineView::capture_started);
    }
    reveal(PipelineView::capture_stopped);
    let q = p.orders(OverlayOrder::CancelRegionSelect);
    lemma_asks_flight(p, Effect::StopStream, OverlayOrder::CancelRegionSelect);
    lemma_dropped_flight(q);
    let d = q.job_dropped();
    let r = (PipelineView { session: d.session.stopped(), ..d }).asks(Effect::StopStream);
    assert(r.job is None) by {
        reveal(PipelineView::asks);
    }
    lemma_reset_keeps_job(r, false);
    let reset = r.session_reset(false);
    lemma_asks_flight(reset, Effect::StopStream, OverlayOrder::Detach);
    lemma_asks_flight(reset.orders(OverlayOrder::Detach), Effect::StopStream, OverlayOrder::Clear);
}

proof fn lemma_regions_flight(p: PipelineView, regions: Seq<NormRect>)
    requires
        p.in_flight_is_job(),
    ensures
        p.regions_applied(regions).in_flight_is_job(),
{
    let q = p.with_app(
        AppView {
            regions,
            region_draft: Seq::empty(),
            region_select_active: false,
            ..p.app
        },
    );
    lemma_dropped_flight(q);
    reveal(PipelineView::orders);
    reveal(PipelineView::asks);
    reveal(PipelineView::regions_applied);
    reveal(PipelineView::pages_forgotten);
}

proof fn lemma_shut_down_flight(p: PipelineView)
    requires
        p.in_flight_is_job(),
    ensures
        p.shut_down().in_flight_is_job(),
{
    reveal(PipelineView::orders);
    reveal(PipelineView::asks);
    reveal(PipelineView::shut_down);
    lemma_dropped_flight(p);
}

proof fn lemma_config_flight(p: PipelineView, cfg: AppConfig)
    requires
        p.in_flight_is_job(),
    ensures
        p.config_begun(cfg).in_flight_is_job(),
{
    reveal(PipelineView::orders);
    reveal(PipelineView::asks);
    reveal(PipelineView::config_begun);
    let q = PipelineView {
        gate: p.gate.reconfigured(cfg.ocr),
        persistence: Persistence::of_config(cfg.ocr),
        tracks: Seq::empty(),
        ..p
    };
    lemma_dropped_flight(q);
}

proof fn lemma_reset_flight(p: PipelineView, enabled: bool, reader_enabled: bool)
    ensures
        same_flight(p, p.conversation_reset()),
        same_flight(p, p.cache_cleared()),
        same_flight(p, p.display_set(enabled, reader_enabled)),
{
    reveal(PipelineView::orders);
    reveal(PipelineView::asks);
    reveal(PipelineView::conversation_reset);
    reveal(PipelineView::cache_cleared);
    reveal(PipelineView::display_set);
    reveal(AppView::restored);
}

/// A pipeline that nothing has happened to has no request, in flight or not.
pub proof fn law_fresh_pipeline_has_no_request(p: PipelineView, app: AppView, overlay_up: bool)
    requires
        p.is_fresh(app, overlay_up),
        !app.translate_in_flight,
    ensures
        p.job is None,
        p.in_flight_is_job(),
        p.load_started().in_flight_is_job(),
{
    reveal(PipelineView::asks);
    reveal(PipelineView::load_started);
}

/// The flag that a request is in flight is set exactly while one is: every command keeps it so,
/// and so do other regions, a request that is dropped, and a capture that starts while there is
/// none.
pub proof fn law_in_flight_while_a_request_runs(
    p: PipelineView,
    cmd: PipelineCommand,
    regions: Seq<NormRect>,
)
    requires
        p.in_flight_is_job(),
    ensures
        p.commanded(cmd).0.in_flight_is_job(),
        p.job is None ==> p.capture_started().in_flight_is_job(),
        p.regions_applied(regions).in_flight_is_job(),
        p.job_dropped().in_flight_is_job(),
{
    lemma_dropped_flight(p);
    lemma_started_flight(p);
    lemma_regions_flight(p, regions);
    match cmd {
        PipelineCommand::Shutdown => {
            lemma_shut_down_flight(p);
        },
        PipelineCommand::CancelTranslate => {
            reveal(PipelineView::asks);
            reveal(PipelineView::translate_cancelled);
            reveal(AppView::resting);
        },
        PipelineCommand::ApplyConfig(cfg) => {
            lemma_config_flight(p, *cfg);
        },
        PipelineCommand::SetOverlayDisplay { enabled, reader_enabled } => {
            lemma_reset_flight(p, enabled, reader_enabled);
        },
        PipelineCommand::BeginRegionSelect { .. } | PipelineCommand::StartCapture { .. } => {
            reveal(AppView::failed);
        },
        PipelineCommand::ConfirmRegionSelect => {
            lemma_asks_flight(p, Effect::CancelJob, OverlayOrder::ConfirmRegionSelect);
        },
        PipelineCommand::ClearRegionSelect => {
            lemma_asks_flight(p, Effect::CancelJob, OverlayOrder::ClearRegionSelect);
        },
        PipelineCommand::SetCaptureRegions { regions: wanted } => {
            lemma_asks_flight(p, Effect::CancelJob, OverlayOrder::CancelRegionSelect);
            lemma_regions_flight(
                p.orders(OverlayOrder::CancelRegionSelect),
                surviving(wanted@),
            );
        },
        PipelineCommand::ResetConversation | PipelineCommand::ClearTranslationCache => {
            lemma_reset_flight(p, false, false);
        },
        _ => {},
    }
}

/// Translations set the flag that a request is in flight when one starts and clear it when it
/// ends.
pub proof fn law_in_flight_follows_the_request(
    p: PipelineView,
    page: Page,
    force: bool,
    hits: Seq<Option<String>>,
    misses: Seq<OcrBlock>,
    known: Seq<TranslatedBlock>,
    cache_len: usize,
    turns: usize,
    job: Job,
    outcome: TranslateOutcome,
)
    requires
        p.in_flight_is_job(),
    ensures
        p.translate_begun(page, force).in_flight_is_job(),
        p.job is None ==> p.cache_resolved(
            page,
            hits,
            misses,
            known,
            cache_len,
            turns,
        ).in_flight_is_job(),
        p.caption_preview(known, page.width, page.height).in_flight_is_job(),
        p.translate_finished(job, outcome, known).in_flight_is_job(),
        misses.len() > 0 ==> p.cache_resolved(
            page,
            hits,
            misses,
            known,
            cache_len,
            turns,
        ).app.translate_in_flight,
        !p.translate_finished(job, outcome, known).app.translate_in_flight,
{
    reveal(PipelineView::asks);
    reveal(PipelineView::orders);
    reveal(PipelineView::painted);
    reveal(PipelineView::caption_preview);
    reveal(PipelineView::page_translated);
    reveal(PipelineView::translate_begun);
    reveal(PipelineView::cache_resolved);
    reveal(PipelineView::translate_failed);
    reveal(PipelineView::translate_finished);
    reveal(AppView::failed);
    reveal(AppView::resting);
    reveal(AppView::remembered);
}

proof fn lemma_cleared_flight(p: PipelineView, now: u128)
    ensures
        same_flight(p, p.captions_cleared()),
        same_flight(p, p.stale_cleared()),
        same_flight(p, p.raw_empty_expired(now)),
        same_flight(p, p.remap_miss_expired(now)),
{
    reveal(PipelineView::raw_empty_expired);
    reveal(PipelineView::remap_miss_expired);
    let p1 = PipelineView { raw_empty_since: None, ..p };
    let p2 = PipelineView { remap_miss_since: None, ..p };
    lemma_cleared_once_flight(p);
    lemma_cleared_once_flight(p1);
    lemma_cleared_once_flight(p2);
}

proof fn lemma_cleared_once_flight(p: PipelineView)
    ensures
        same_flight(p, p.captions_cleared()),
        same_flight(p, p.stale_cleared()),
{
    reveal(PipelineView::orders);
    reveal(PipelineView::asks);
    reveal(PipelineView::captions_cleared);
    reveal(PipelineView::stale_cleared);
    reveal(AppView::resting);
}

proof fn lemma_sticky_flight(
    p: PipelineView,
    blocks: Seq<OcrBlock>,
    width: u32,
    height: u32,
    now: u128,
)
    ensures
        same_flight(p, p.sticky(blocks, width, height, now)),
        same_flight(p, p.sticky_or_cleared(blocks, width, height, now)),
{
    reveal(PipelineView::sticky);
    reveal(PipelineView::sticky_or_cleared);
    let q = p.with_app(AppView { ocr: blocks, ..p.app });
    lemma_cleared_flight(q, now);
    lemma_cleared_flight(
        PipelineView { remap_miss_since: Some(or_now(q.remap_miss_since, now)), ..q },
        now,
    );
    let resized = p.content_resized(width, height) || p.page is None;
    lemma_painted_flight(
        PipelineView { remap_miss_since: None, ..q },
        remap_of(p.app.captions, blocks, resized),
        width,
        height,
    );
}

proof fn lemma_begun_flight(p: PipelineView, page: Page, force: bool)
    requires
        p.in_flight_is_job(),
    ensures
        p.translate_begun(page, force).in_flight_is_job(),
{
    reveal(PipelineView::orders);
    reveal(PipelineView::asks);
    reveal(PipelineView::translate_begun);
    reveal(AppView::resting);
}

proof fn lemma_gated_flight(
    p: PipelineView,
    blocks: Seq<OcrBlock>,
    width: u32,
    height: u32,
    now: u128,
)
    requires
        p.in_flight_is_job(),
    ensures
        p.gated(blocks, width, height, now).in_flight_is_job(),
{
    reveal(PipelineView::gated);
    let q = p.gate_observed(blocks, now);
    match p.gate_outcome(blocks, now) {
        StabilityOutcome::Changed => {
            lemma_cleared_once_flight(
                q.with_app(
                    AppView {
                        ocr: blocks,
                        status: StatusView::WaitingForStable { elapsed_ms: 0 },
                        ..q.app
                    },
                ),
            );
        },
        StabilityOutcome::Ready { fingerprint, .. } => {
            let page = PipelineView::page_of(blocks, fingerprint, width, height);
            assert(same_flight(q, q.page_ready(page, now))) by {
                reveal(PipelineView::page_ready);
                lemma_cleared_once_flight(q.with_app(AppView { ocr: page.blocks, ..q.app }));
            }
            lemma_begun_flight(q.page_ready(page, now), page, false);
        },
        _ => {
            lemma_sticky_flight(q, blocks, width, height, now);
        },
    }
}

proof fn lemma_engine_flight(p: PipelineView)
    ensures
        same_flight(p, p.load_started()),
        same_flight(p, p.engine_ensured()),
        same_flight(p, p.without_engine()),
{
    reveal(PipelineView::asks);
    reveal(PipelineView::load_started);
    reveal(PipelineView::engine_ensured);
    reveal(PipelineView::without_engine);
}

/// Reading frames leaves the flag that a request is in flight true exactly while one is.
pub proof fn law_in_flight_is_kept_by_readings(
    p: PipelineView,
    frame: CapturedFrame,
    rects: Seq<PixelBounds>,
    raw: Seq<OcrBlock>,
    ocr_ms: u64,
    measures: Seq<Seq<TrackMeasure>>,
    page: Page,
    now: u128,
)
    requires
        p.in_flight_is_job(),
    ensures
        p.previewed(frame).in_flight_is_job(),
        p.without_engine().in_flight_is_job(),
        p.ocr_begun().in_flight_is_job(),
        p.ocr_done(frame, rects, raw, ocr_ms).in_flight_is_job(),
        p.raw_consumed(raw, frame.width, frame.height, measures, now).in_flight_is_job(),
        p.forced_page(page, now).in_flight_is_job(),
        p.raw_empty_expired(now).in_flight_is_job(),
        p.remap_miss_expired(now).in_flight_is_job(),
{
    lemma_cleared_flight(p, now);
    lemma_engine_flight(p);
    reveal(PipelineView::previewed);
    reveal(PipelineView::ocr_begun);
    reveal(PipelineView::ocr_done);
    reveal(PipelineView::forced_page);
    reveal(PipelineView::raw_consumed);
    let q = p.filtered(raw, frame.width, frame.height, measures, now);
    assert(same_flight(p, q)) by {
        reveal(PipelineView::filtered);
    }
    if raw.len() == 0 {
        let durable = p.durable(raw, frame.width, frame.height, measures, now);
        assert(same_flight(q, q.blank_read(durable, now))) by {
            reveal(PipelineView::blank_read);
            lemma_cleared_once_flight(
                PipelineView {
                    raw_content_since: None,
                    remap_miss_since: None,
                    raw_empty_since: None,
                    ..q
                },
            );
        }
    } else {
        let seen = q.content_seen(now);
        assert(same_flight(q, seen)) by {
            reveal(PipelineView::content_seen);
        }
        let durable = p.durable(raw, frame.width, frame.height, measures, now);
        let resized = p.content_resized(frame.width, frame.height);
        match seen.chosen(raw, durable, resized, now) {
            Some(blocks) => {
                lemma_gated_flight(seen, blocks, frame.width, frame.height, now);
            },
            None => {
                assert(same_flight(seen, seen.lingering(raw, now))) by {
                    reveal(PipelineView::lingering);
                }
            },
        }
    }
}

/// Settings and model loads leave the flag that a request is in flight true exactly while one is.
pub proof fn law_in_flight_is_kept_by_settings(
    p: PipelineView,
    cfg: AppConfig,
    failure: Option<Seq<char>>,
    cache_len: usize,
    update: ModelLoadUpdate,
    ended: bool,
)
    requires
        p.in_flight_is_job(),
    ensures
        p.config_saved(cfg, failure, cache_len).in_flight_is_job(),
        p.load_started().in_flight_is_job(),
        p.load_synced(update, ended).in_flight_is_job(),
{
    reveal(PipelineView::asks);
    reveal(PipelineView::load_started);
    reveal(PipelineView::settings_saved);
    reveal(PipelineView::settings_unsaved);
    reveal(PipelineView::engine_followed);
    reveal(PipelineView::engine_dropped);
    reveal(PipelineView::status_restored);
    reveal(PipelineView::failed);
    reveal(PipelineView::load_ended);
    reveal(PipelineView::engine_installed);
    reveal(PipelineView::load_shown);
    reveal(AppView::failed);
    reveal(AppView::restored);
}

} // verus!
