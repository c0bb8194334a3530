//! What readings of the screen do to pages and captions.

use crate::filter::TrackMeasure;
use crate::fingerprint::{page_fingerprint, OcrFingerprint};
use crate::frame::{bytes_of, scope_of, CapturedFrame};
use crate::pipeline::command::{Effect, OverlayOrder};
use crate::pipeline::translate::TranslateOutcome;
use crate::pipeline::worker::{Job, Page, PipelineView};
use crate::remap::{geometry_changed, remap_of};
use crate::session::CaptureTarget;
use crate::stability::StabilityOutcome;
use crate::state::{AppView, StatusView};
use crate::types::{OcrBlock, PixelBounds, TranslatedBlock};
use vstd::prelude::*;

verus! {

/// A page that begins to change shows no captions of the page before; a page that settles counts
/// its wait; a page that is handed out becomes the page at hand, without old captions; and a page
/// that was handed out keeps its captions with the text.
pub proof fn law_stability_decides_what_is_shown(
    p: PipelineView,
    blocks: Seq<OcrBlock>,
    width: u32,
    height: u32,
    now: u128,
)
    ensures
        ({
            let (gate, outcome) = p.gate.observed(OcrFingerprint(page_fingerprint(blocks)), now);
            let q = p.gated(blocks, width, height, now);
            let seen = PipelineView { gate, ..p };
            match outcome {
                StabilityOutcome::Changed => {
                    &&& q.app.captions.len() == 0
                    &&& q.app.ocr == blocks
                    &&& q.app.status == (StatusView::WaitingForStable { elapsed_ms: 0 })
                    &&& q.gate == gate
                    &&& q.page == p.page
                },
                StabilityOutcome::Waiting { elapsed_ms } => {
                    &&& q.app.status == (StatusView::WaitingForStable { elapsed_ms })
                    &&& q.app.captions == seen.sticky_or_cleared(
                        blocks,
                        width,
                        height,
                        now,
                    ).app.captions
                    &&& q.app.ocr == blocks
                },
                StabilityOutcome::Ready { fingerprint, .. } => p.job is None ==> {
                    &&& q.app.captions.len() == 0
                    &&& q.app.ocr == blocks
                    &&& q.page matches Some(page) ==> page.blocks == blocks && page.fingerprint
                        == fingerprint && page.width == width && page.height == height
                    &&& q.raw_content_since == Some(now)
                },
                StabilityOutcome::AlreadyEmitted { .. } => {
                    let s = seen.sticky(blocks, width, height, now);
                    &&& q.app.captions == s.app.captions
                    &&& q.effects == s.effects
                    &&& q.page == s.page
                    &&& s.app.auto_running && s.app.captions.len() > 0 ==> q.app.status
                        == StatusView::OverlayActive
                    &&& !(s.app.auto_running && s.app.captions.len() > 0) ==> q.app.status
                        == s.app.status
                },
            }
        }),
{
    reveal(PipelineView::gated);
    let (gate, outcome) = p.gate.observed(OcrFingerprint(page_fingerprint(blocks)), now);
    let seen = PipelineView { gate, ..p };
    match outcome {
        StabilityOutcome::Changed => {
            reveal(PipelineView::asks);
            reveal(PipelineView::orders);
            reveal(PipelineView::captions_cleared);
        },
        StabilityOutcome::Waiting { elapsed_ms } => {
            lemma_settling_shows_blocks(seen, blocks, width, height, now);
        },
        StabilityOutcome::Ready { fingerprint, .. } => {
            if p.job is None {
                let page = PipelineView::page_of(blocks, fingerprint, width, height);
                lemma_ready_page_is_at_hand(seen, page, now);
            }
        },
        StabilityOutcome::AlreadyEmitted { .. } => {},
    }
}

proof fn lemma_settling_shows_blocks(
    p: PipelineView,
    blocks: Seq<OcrBlock>,
    width: u32,
    height: u32,
    now: u128,
)
    ensures
        p.sticky_or_cleared(blocks, width, height, now).app.ocr == blocks,
{
    reveal(PipelineView::asks);
    reveal(PipelineView::orders);
    reveal(PipelineView::captions_cleared);
    reveal(PipelineView::sticky_or_cleared);
    reveal(PipelineView::sticky);
    reveal(PipelineView::painted);
    reveal(PipelineView::remap_miss_expired);
}

proof fn lemma_ready_page_is_at_hand(p: PipelineView, page: Page, now: u128)
    requires
        p.job is None,
    ensures
        ({
            let q = p.page_ready(page, now).translate_begun(page, false);
            &&& q.app.captions.len() == 0
            &&& q.app.ocr == page.blocks
            &&& q.page is Some ==> q.page == Some(page)
            &&& q.raw_content_since == Some(now)
        }),
{
    reveal(PipelineView::asks);
    reveal(PipelineView::orders);
    reveal(PipelineView::captions_cleared);
    reveal(PipelineView::page_ready);
    reveal(PipelineView::translate_begun);
    reveal(AppView::resting);
}

/// Captions whose text is found again are shown at the place of the text: where something moved,
/// all found captions are painted, for a surface of this size; where nothing did, nothing is.
pub proof fn law_found_captions_are_shown(
    p: PipelineView,
    blocks: Seq<OcrBlock>,
    width: u32,
    height: u32,
    now: u128,
)
    ensures
        ({
            let anew = p.page is None || p.page->0.width != width || p.page->0.height != height;
            let found = remap_of(p.app.captions, blocks, anew);
            let q = p.sticky(blocks, width, height, now);
            found.len() > 0 ==> {
                &&& q.remap_miss_since is None
                &&& q.app.ocr == blocks
                &&& geometry_changed(p.app.captions, found) ==> {
                    &&& q.app.captions == found
                    &&& p.overlay_up ==> q.effects.last() == Effect::Overlay(
                        OverlayOrder::SetBlocks {
                            blocks: found,
                            content_width: width,
                            content_height: height,
                        },
                    )
                    &&& q.page matches Some(page) ==> page.width == width && page.height == height
                }
                &&& !geometry_changed(p.app.captions, found) ==> q.app.captions == p.app.captions
                    && q.effects == p.effects && q.page == p.page
            }
        }),
{
    reveal(PipelineView::asks);
    reveal(PipelineView::orders);
    reveal(PipelineView::sticky);
    reveal(PipelineView::painted);
}

/// Captions that are cleared go from the state and from the overlay, and the page can be
/// translated anew; blocks, tracks, page and stability stay.
pub proof fn law_cleared_captions_can_return(p: PipelineView)
    requires
        p.app.captions.len() > 0,
    ensures
        ({
            let q = p.captions_cleared();
            &&& q.app.captions.len() == 0
            &&& q.last_translated_fp is None
            &&& q.app.ocr == p.app.ocr
            &&& q.tracks == p.tracks
            &&& q.gate == p.gate
            &&& q.page == p.page
            &&& q.app.status == p.app.status
            &&& p.overlay_up ==> q.effects == p.effects.push(Effect::Overlay(OverlayOrder::Clear))
        }),
{
    reveal(PipelineView::asks);
    reveal(PipelineView::orders);
    reveal(PipelineView::captions_cleared);
}

/// Waits that are over are over without a new frame too: the captions of a blank screen and those
/// without text go when the miss grace ends, and not before.
pub proof fn law_graces_end_without_frames(p: PipelineView, now: u128, since: u128)
    requires
        now >= since,
    ensures
        ({
            let grace = if p.app.config.ocr.block_max_miss_ms < 1 {
                1_000_000
            } else {
                p.app.config.ocr.block_max_miss_ms * 1_000_000
            };
            let blank = PipelineView { raw_empty_since: Some(since), ..p };
            let lost = PipelineView { remap_miss_since: Some(since), ..p };
            &&& now >= since + grace ==> {
                &&& blank.raw_empty_expired(now).app.captions.len() == 0
                &&& blank.raw_empty_expired(now).app.ocr.len() == 0
                &&& blank.raw_empty_expired(now).raw_empty_since is None
                &&& lost.remap_miss_expired(now).app.captions.len() == 0
                &&& lost.remap_miss_expired(now).remap_miss_since is None
            }
            &&& now < since + grace ==> {
                &&& blank.raw_empty_expired(now) == blank
                &&& lost.remap_miss_expired(now) == lost
            }
        }),
        p.raw_empty_since is None ==> p.raw_empty_expired(now) == p,
        p.remap_miss_since is None ==> p.remap_miss_expired(now) == p,
{
    reveal(PipelineView::asks);
    reveal(PipelineView::orders);
    reveal(PipelineView::raw_empty_expired);
    reveal(PipelineView::remap_miss_expired);
    reveal(PipelineView::stale_cleared);
    reveal(PipelineView::captions_cleared);
    reveal(AppView::resting);
}

/// Text starts the wait of unsettled text with its first frame and ends that of a blank screen.
pub proof fn law_text_starts_its_wait_once(p: PipelineView, now: u128)
    ensures
        p.content_seen(now).raw_empty_since is None,
        p.raw_content_since is None ==> p.content_seen(now).raw_content_since == Some(now),
        p.raw_content_since is Some ==> p.content_seen(now).raw_content_since
            == p.raw_content_since,
        p.content_seen(now).app == p.app,
        p.content_seen(now).effects == p.effects,
{
    reveal(PipelineView::content_seen);
}

/// Text that flashes is shown as read, and says how long it has been there; captions stay.
pub proof fn law_flashing_text_keeps_captions(
    p: PipelineView,
    raw: Seq<OcrBlock>,
    now: u128,
    since: u128,
)
    requires
        p.raw_content_since == Some(since),
        since <= now < since + 1_000_000 * u64::MAX,
    ensures
        p.lingering(raw, now).app.captions == p.app.captions,
        p.lingering(raw, now).app.ocr == raw,
        p.lingering(raw, now).effects == p.effects,
        p.lingering(raw, now).app.status matches StatusView::WaitingForStable { elapsed_ms }
            && elapsed_ms * 1_000_000 <= now - since && now - since < (elapsed_ms + 1) * 1_000_000,
{
    reveal(PipelineView::lingering);
}

/// A frame without text asks for nothing; on a surface of another size the reading itself goes to
/// the stability gate, and what was followed in the old pixels is not compared with it.
pub proof fn law_new_surface_starts_afresh(
    p: PipelineView,
    raw: Seq<OcrBlock>,
    width: u32,
    height: u32,
    measures: Seq<Seq<TrackMeasure>>,
    now: u128,
)
    ensures
        p.raw_request(Seq::empty(), width, height, measures, now) is None,
        p.page is Some && (p.page->0.width != width || p.page->0.height != height)
            ==> p.tracks_for(width, height).len() == 0,
        !(p.page is Some && (p.page->0.width != width || p.page->0.height != height))
            ==> p.tracks_for(width, height) == p.tracks,
        raw.len() > 0 && p.page is Some && (p.page->0.width != width || p.page->0.height != height)
            ==> p.raw_request(raw, width, height, measures, now) == p.filtered(
            raw,
            width,
            height,
            measures,
            now,
        ).content_seen(now).gate_request(raw, width, height, now),
{
    reveal(PipelineView::raw_request);
    reveal(PipelineView::chosen);
}

/// Frames are read while capture runs, nothing is translated and the window is not dragged.
pub proof fn law_frames_are_read_between_requests(p: PipelineView, finished: bool)
    ensures
        p.readable(finished) <==> p.session.stream is Some && !finished && p.job is None
            && !p.session.resize.in_movesize,
        p.app.translate_in_flight ==> p.ocr_rests(),
        p.app.status == StatusView::Translating ==> p.ocr_rests(),
        !p.app.translate_in_flight && p.app.status == StatusView::Capturing ==> !p.ocr_rests(),
        !p.app.translate_in_flight && p.app.status == StatusView::OverlayActive
            ==> !p.ocr_rests(),
{
}

/// A frame is read again only when a new one was published since.
pub proof fn law_same_frame_is_not_read_again(p: PipelineView)
    ensures
        p.raw is None ==> !p.is_stale(),
        p.raw is Some ==> (p.is_stale() <==> p.session.stream is Some
            && p.session.stream->0.latest.slot is Some
            && p.session.stream->0.latest.slot->0.sequence == p.raw->0.sequence),
{
}

/// A reading is kept with the frame, its size and the pixels that it was made of, and is
/// reported with its time and count.
pub proof fn law_reading_is_kept_with_its_frame(
    p: PipelineView,
    frame: CapturedFrame,
    rects: Seq<PixelBounds>,
    blocks: Seq<OcrBlock>,
    ms: u64,
)
    requires
        blocks.len() <= u32::MAX,
    ensures
        ({
            let q = p.ocr_done(frame, rects, blocks, ms);
            &&& q.raw matches Some(raw)
            &&& raw.blocks == blocks
            &&& raw.is_of(frame)
            &&& bytes_of(frame.rgba).len() == frame.width * frame.height * 4 ==> raw.covers(
                frame,
                rects,
            )
        }),
        p.ocr_done(frame, rects, blocks, ms).app.last_ocr_ms == Some(ms),
        p.ocr_done(frame, rects, blocks, ms).app.last_ocr_block_count == blocks.len(),
        p.ocr_done(frame, rects, blocks, ms).app.captions == p.app.captions,
        p.ocr_done(frame, rects, blocks, ms).effects == p.effects,
{
    reveal(PipelineView::ocr_done);
}

/// Reading shows itself, but hides neither a wait nor shown captions.
pub proof fn law_reading_hides_no_captions(p: PipelineView)
    ensures
        p.app.status is WaitingForStable ==> p.ocr_begun() == p,
        p.app.status == StatusView::OverlayActive ==> p.ocr_begun() == p,
        !(p.app.status is WaitingForStable) && p.app.status != StatusView::OverlayActive
            ==> p.ocr_begun().app.status == StatusView::RunningOcr,
        p.ocr_begun().app.captions == p.app.captions,
        p.ocr_begun().effects == p.effects,
{
    reveal(PipelineView::ocr_begun);
}

/// A stream that is made anew follows the same window, at the same pace, and what was read of the
/// old one is not taken for new.
pub proof fn law_restarted_stream_reads_anew(
    p: PipelineView,
    target: CaptureTarget,
    size: Option<(u32, u32)>,
)
    ensures
        ({
            let q = p.stream_restarted(target, size);
            &&& q.raw is None
            &&& q.session.target == Some(target)
            &&& q.session.min_interval_ms == p.session.min_interval_ms
            &&& q.session.stream is Some
            &&& q.session.published() is None
            &&& q.app.captions == p.app.captions
            &&& q.page == p.page
            &&& q.gate == p.gate
            &&& q.effects == p.effects
        }),
{
    reveal(PipelineView::stream_restarted);
    reveal(PipelineView::sequence_absorbed);
}

/// A frame that comes without an engine has one loaded, unless a load runs or failed.
pub proof fn law_missing_engine_is_loaded(p: PipelineView)
    requires
        !p.engine_ready,
    ensures
        p.model_load is None && !(p.app.status is Error) ==> {
            &&& p.without_engine().model_load == Some(p.app.config.ocr.model_tier)
            &&& p.without_engine().effects.contains(Effect::StartModelLoad(p.app.config.ocr))
        },
        p.model_load is Some || p.app.status is Error ==> {
            &&& p.without_engine().effects == p.effects
            &&& p.without_engine().model_load == p.model_load
        },
        p.without_engine().app.captions == p.app.captions,
{
    reveal(PipelineView::asks);
    reveal(PipelineView::without_engine);
    reveal(PipelineView::engine_ensured);
    reveal(PipelineView::load_started);
    if p.model_load is None && !(p.app.status is Error) {
        assert(p.without_engine().effects[p.effects.len() as int] == Effect::StartModelLoad(
            p.app.config.ocr,
        ));
    }
}

/// A request that failed says why and asks for attention; one that was cancelled rests; both show
/// again what was shown before, or what is remembered where nothing was.
pub proof fn law_unfinished_request_says_why(
    p: PipelineView,
    job: Job,
    e: String,
    known: Seq<TranslatedBlock>,
)
    ensures
        ({
            let failed = p.translate_finished(job, TranslateOutcome::Failed(e), known);
            let bad = p.translate_finished(job, TranslateOutcome::BadReply(e), known);
            let cancelled = p.translate_finished(job, TranslateOutcome::Cancelled, known);
            let back = if job.revert.len() > 0 {
                job.revert
            } else {
                known
            };
            &&& failed.app.last_error == Some("translate: "@ + e@)
            &&& bad.app.last_error == Some("translate parse: "@ + e@)
            &&& failed.app.captions == back && bad.app.captions == back && cancelled.app.captions
                == back
            &&& failed.job is None && bad.job is None && cancelled.job is None
            &&& !failed.app.translate_in_flight && !bad.app.translate_in_flight
                && !cancelled.app.translate_in_flight
            &&& !p.app.attention_sent ==> failed.effects.last() == Effect::FlashTaskbar
                && bad.effects.last() == Effect::FlashTaskbar
            &&& p.app.auto_running ==> cancelled.app.status == StatusView::Capturing
            &&& !p.app.auto_running ==> cancelled.app.status == StatusView::Cancelled
            &&& cancelled.app.last_error == p.app.last_error
            &&& cancelled.app.attention_sent == p.app.attention_sent
        }),
{
    reveal(PipelineView::asks);
    reveal(PipelineView::orders);
    reveal(PipelineView::painted);
    reveal(PipelineView::caption_preview);
    reveal(PipelineView::translate_failed);
    reveal(PipelineView::translate_finished);
    reveal(AppView::failed);
    reveal(AppView::resting);
}

/// Captions are painted on the window that is followed, and the overlay is put there first.
pub proof fn law_captions_are_painted_on_the_window(
    p: PipelineView,
    blocks: Seq<TranslatedBlock>,
    width: u32,
    height: u32,
    hwnd: isize,
)
    ensures
        p.overlay_up && p.app.hwnd == Some(hwnd) ==> p.painted(blocks, width, height).effects
            == p.effects.push(Effect::Overlay(OverlayOrder::Attach { target_hwnd: hwnd })).push(
            Effect::Overlay(
                OverlayOrder::SetBlocks { blocks, content_width: width, content_height: height },
            ),
        ),
        p.overlay_up && p.app.hwnd is None ==> p.painted(blocks, width, height).effects
            == p.effects.push(
            Effect::Overlay(
                OverlayOrder::SetBlocks { blocks, content_width: width, content_height: height },
            ),
        ),
        !p.overlay_up ==> p.painted(blocks, width, height) == p,
        p.painted(blocks, width, height).app == p.app,
{
    reveal(PipelineView::asks);
    reveal(PipelineView::orders);
    reveal(PipelineView::painted);
}

/// An unread page cannot be handed out: the page that is looked up after a reading has blocks
/// that were read in this frame or have lingered.
pub proof fn law_only_what_was_read_is_looked_up(
    p: PipelineView,
    raw: Seq<OcrBlock>,
    width: u32,
    height: u32,
    measures: Seq<Seq<TrackMeasure>>,
    now: u128,
)
    ensures
        p.raw_request(raw, width, height, measures, now) matches Some(page) ==> {
            &&& raw.len() > 0
            &&& page.width == width
            &&& page.height == height
            &&& page.blocks == raw || page.blocks == p.persistence.emitted(
                p.tracks_for(width, height),
                raw,
                measures,
                now,
            )
            &&& p.job is None
        },
{
    reveal(PipelineView::raw_request);
    reveal(PipelineView::chosen);
    reveal(PipelineView::gate_request);
    reveal(PipelineView::filtered);
    reveal(PipelineView::content_seen);
    reveal(PipelineView::page_ready);
    reveal(PipelineView::captions_cleared);
    reveal(PipelineView::orders);
    reveal(PipelineView::asks);
}

/// A page that vanished leaves nothing that would keep it from being translated anew: no text, no
/// captions, no tracks, no page, and a stability gate that has seen nothing.
pub proof fn law_vanished_page_leaves_nothing(p: PipelineView)
    requires
        p.app.captions.len() > 0 || p.app.ocr.len() > 0,
    ensures
        ({
            let q = p.stale_cleared();
            &&& q.app.captions.len() == 0 && q.app.ocr.len() == 0
            &&& q.tracks.len() == 0
            &&& q.page is None
            &&& q.last_translated_fp is None
            &&& q.remap_miss_since is None
            &&& q.gate.active is None && q.gate.last_emitted is None && q.gate.unstable_since is None
            &&& p.app.auto_running ==> q.app.status == StatusView::Capturing
            &&& !p.app.auto_running ==> q.app.status == StatusView::Idle
            &&& p.overlay_up ==> q.effects == p.effects.push(Effect::Overlay(OverlayOrder::Clear))
            &&& q.app.history == p.app.history && q.job == p.job && q.session == p.session
        }),
{
    reveal(PipelineView::asks);
    reveal(PipelineView::orders);
    reveal(PipelineView::stale_cleared);
    reveal(AppView::resting);
}

/// A screen without text or captions says no more than that capture runs.
pub proof fn law_blank_screen_stays_blank(p: PipelineView)
    requires
        p.app.captions.len() == 0,
        p.app.ocr.len() == 0,
    ensures
        p.stale_cleared().effects == p.effects,
        p.stale_cleared().gate == p.gate,
        p.app.auto_running && !(p.app.status is WaitingForStable) ==> p.stale_cleared().app.status
            == StatusView::Capturing,
        !p.app.auto_running || p.app.status is WaitingForStable ==> p.stale_cleared() == p,
{
    reveal(PipelineView::stale_cleared);
}

proof fn lemma_gated_keeps_tracks(
    p: PipelineView,
    blocks: Seq<OcrBlock>,
    width: u32,
    height: u32,
    now: u128,
)
    ensures
        p.gated(blocks, width, height, now).tracks == p.tracks,
        p.gated(blocks, width, height, now).gate == p.gate.observed(
            OcrFingerprint(page_fingerprint(blocks)),
            now,
        ).0,
{
    let seen = p.gate_observed(blocks, now);
    lemma_sticky_keeps_tracks(seen, blocks, width, height, now);
    reveal(PipelineView::gated);
    reveal(PipelineView::asks);
    reveal(PipelineView::orders);
    reveal(PipelineView::captions_cleared);
    reveal(PipelineView::page_ready);
    reveal(PipelineView::translate_begun);
}

proof fn lemma_sticky_keeps_tracks(
    p: PipelineView,
    blocks: Seq<OcrBlock>,
    width: u32,
    height: u32,
    now: u128,
)
    ensures
        p.sticky(blocks, width, height, now).tracks == p.tracks,
        p.sticky(blocks, width, height, now).gate == p.gate,
        p.sticky_or_cleared(blocks, width, height, now).tracks == p.tracks,
        p.sticky_or_cleared(blocks, width, height, now).gate == p.gate,
{
    reveal(PipelineView::asks);
    reveal(PipelineView::orders);
    reveal(PipelineView::captions_cleared);
    reveal(PipelineView::sticky_or_cleared);
    reveal(PipelineView::sticky);
    reveal(PipelineView::painted);
    reveal(PipelineView::remap_miss_expired);
}

/// Every frame with text moves its tracks on; what lingers of it goes to the stability gate, which
/// sees nothing of a frame of which nothing lingers yet.
pub proof fn law_every_frame_moves_its_tracks(
    p: PipelineView,
    raw: Seq<OcrBlock>,
    width: u32,
    height: u32,
    measures: Seq<Seq<TrackMeasure>>,
    now: u128,
)
    requires
        raw.len() > 0,
        p.page is None || (p.page->0.width == width && p.page->0.height == height),
    ensures
        ({
            let q = p.raw_consumed(raw, width, height, measures, now);
            let durable = p.persistence.emitted(p.tracks, raw, measures, now);
            &&& q.tracks == p.persistence.kept(p.tracks, raw, measures, now)
            &&& durable.len() > 0 ==> q.gate == p.gate.observed(
                OcrFingerprint(page_fingerprint(durable)),
                now,
            ).0
            &&& durable.len() == 0 && p.app.config.ocr.max_unstable_ms == 0 ==> q.gate == p.gate
                && q.app.captions == p.app.captions && q.app.ocr == raw
            &&& durable.len() == 0 && p.app.config.ocr.max_unstable_ms > 0
                && p.raw_content_since is None ==> q.gate == p.gate && q.app.captions
                == p.app.captions && q.raw_content_since == Some(now)
        }),
{
    let durable = p.persistence.emitted(p.tracks, raw, measures, now);
    let f = p.filtered(raw, width, height, measures, now);
    let q = f.content_seen(now);
    assert(q.tracks == p.persistence.kept(p.tracks, raw, measures, now) && q.gate == p.gate && q.app
        == p.app && q.raw_content_since == Some(
        match p.raw_content_since {
            Some(t) => t,
            None => now,
        },
    )) by {
        reveal(PipelineView::filtered);
        reveal(PipelineView::content_seen);
    }
    lemma_gated_keeps_tracks(q, durable, width, height, now);
    lemma_gated_keeps_tracks(q, raw, width, height, now);
    reveal(PipelineView::raw_consumed);
    reveal(PipelineView::chosen);
    reveal(PipelineView::lingering);
}

/// A frame without text ends the wait of unsettled text and starts that of the blank screen; the
/// wait for captions without text starts with the first frame that lost them.
pub proof fn law_waits_start_with_their_first_frame(
    p: PipelineView,
    durable: Seq<OcrBlock>,
    width: u32,
    height: u32,
    now: u128,
)
    ensures
        p.blank_read(durable, now).raw_content_since is None,
        p.blank_read(durable, now).remap_miss_since is None,
        durable.len() > 0 && p.raw_empty_since is None && p.app.config.ocr.block_max_miss_ms > 0
            ==> p.blank_read(durable, now).raw_empty_since == Some(now),
        p.app.captions.len() > 0 && p.remap_miss_since is None
            && p.app.config.ocr.block_max_miss_ms > 0 && remap_of(
            p.app.captions,
            Seq::empty(),
            p.page is None || p.page->0.width != width || p.page->0.height != height,
        ).len() == 0 ==> p.sticky(Seq::empty(), width, height, now).remap_miss_since == Some(now),
        p.captions_cleared().app.captions.len() == 0,
        p.app.captions.len() > 0 ==> p.captions_cleared().remap_miss_since is None,
{
    reveal(PipelineView::asks);
    reveal(PipelineView::orders);
    reveal(PipelineView::blank_read);
    reveal(PipelineView::stale_cleared);
    reveal(PipelineView::captions_cleared);
    reveal(PipelineView::sticky);
    reveal(PipelineView::remap_miss_expired);
    reveal(AppView::resting);
}

/// A frame that no engine can read yet says that capture runs, but hides neither an error nor a
/// load, a request or shown captions.
pub proof fn law_unread_frame_hides_nothing(p: PipelineView)
    requires
        p.engine_ready || p.model_load is Some,
    ensures
        ({
            let s = p.app.status;
            let busy = s is Error || s is DownloadingModels || s is LoadingModels
                || s is Translating || s is RetryingTranslate || s is OverlayActive
                || s is Cancelled;
            &&& busy ==> p.without_engine().app.status == s
            &&& !busy ==> p.without_engine().app.status == StatusView::Capturing
        }),
{
    reveal(PipelineView::without_engine);
    reveal(PipelineView::engine_ensured);
}

} // verus!
