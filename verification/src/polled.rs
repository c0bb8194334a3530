//! What the polling worker does for its user, step by step.

use crate::config::AppConfig;
use crate::filter::TrackMeasure;
use crate::fingerprint::{page_fingerprint, OcrFingerprint};
use crate::frame::FrameView;
use crate::normalize::collapse;
use crate::pipeline::command::{Effect, OverlayOrder};
use crate::pipeline::worker::{Page, PipelineView};
use crate::polling::{
    captions_differ, first_source, followed, PageOutcome, PollingCommand, PollingRequest,
    PollingView,
};
use crate::session::CaptureTarget;
use crate::stability::StabilityOutcome;
use crate::state::{AppView, StatusView, HISTORY_ROWS};
use crate::text::trim;
use crate::types::{OcrBlock, RelayoutMeasure, TranslatedBlock};
use vstd::prelude::*;

verus! {

proof fn lemma_first_source(captions: Seq<TranslatedBlock>, key: Seq<char>, n: int)
    requires
        0 <= n <= captions.len(),
    ensures
        match first_source(captions, key, n) {
            Some(i) => 0 <= i < n && collapse(captions[i].source@) == key && forall|j: int|
                0 <= j < i ==> collapse((#[trigger] captions[j]).source@) != key,
            None => forall|j: int| 0 <= j < n ==> collapse((#[trigger] captions[j]).source@) != key,
        },
    decreases n,
{
    if n > 0 {
        lemma_first_source(captions, key, n - 1);
    }
}

proof fn lemma_followed_prefix(
    captions: Seq<TranslatedBlock>,
    blocks: Seq<OcrBlock>,
    measures: Seq<Seq<RelayoutMeasure>>,
    stabilize: bool,
    m: int,
    n: int,
)
    requires
        0 <= m <= n <= blocks.len(),
    ensures
        followed(captions, blocks, measures, stabilize, m).len() <= followed(
            captions,
            blocks,
            measures,
            stabilize,
            n,
        ).len(),
        forall|k: int|
            0 <= k < followed(captions, blocks, measures, stabilize, m).len()
                ==> #[trigger] followed(captions, blocks, measures, stabilize, n)[k] == followed(
                captions,
                blocks,
                measures,
                stabilize,
                m,
            )[k],
    decreases n,
{
    if m < n {
        lemma_followed_prefix(captions, blocks, measures, stabilize, m, n - 1);
    }
}

/// Text that is still read keeps its caption: every block gets the first caption of its text, at
/// the block's box, or at the caption's own where boxes are held still and nothing really moved.
pub proof fn law_captions_follow_their_text(
    captions: Seq<TranslatedBlock>,
    blocks: Seq<OcrBlock>,
    measures: Seq<Seq<RelayoutMeasure>>,
    stabilize: bool,
    b: int,
    t: int,
)
    requires
        0 <= b < blocks.len(),
        0 <= t < captions.len(),
        collapse(blocks[b].text@).len() > 0,
        collapse(blocks[b].text@) == collapse(captions[t].source@),
        forall|i: int|
            0 <= i < t ==> collapse((#[trigger] captions[i]).source@) != collapse(blocks[b].text@),
    ensures
        exists|k: int|
            #![trigger followed(captions, blocks, measures, stabilize, blocks.len() as int)[k]]
            0 <= k < followed(
                captions,
                blocks,
                measures,
                stabilize,
                blocks.len() as int,
            ).len() && ({
                let c = followed(
                    captions,
                    blocks,
                    measures,
                    stabilize,
                    blocks.len() as int,
                )[k];
                &&& c.id == b as u32
                &&& c.source == captions[t].source
                &&& c.translation == captions[t].translation
                &&& c.source_lines == captions[t].source_lines
                &&& c.confidence == blocks[b].confidence
                &&& !stabilize || measures[b][t].significant() ==> c.bbox == blocks[b].bbox
                &&& stabilize && !measures[b][t].significant() ==> c.bbox == captions[t].bbox
            }),
{
    let n = blocks.len() as int;
    let key = collapse(blocks[b].text@);
    lemma_first_source(captions, key, captions.len() as int);
    let first = first_source(captions, key, captions.len() as int);
    assert(first == Some(t)) by {
        if first is Some && first->0 > t {
            assert(collapse(captions[t].source@) != key);
        }
    }
    let before = followed(captions, blocks, measures, stabilize, b);
    let next = followed(captions, blocks, measures, stabilize, b + 1);
    assert(next.len() == before.len() + 1);
    lemma_followed_prefix(captions, blocks, measures, stabilize, b + 1, n);
    let k = before.len() as int;
    assert(followed(captions, blocks, measures, stabilize, n)[k] == next[k]);
}

/// Text without a caption gets none: every caption that is shown has the text of a block.
pub proof fn law_captions_without_text_are_dropped(
    captions: Seq<TranslatedBlock>,
    blocks: Seq<OcrBlock>,
    measures: Seq<Seq<RelayoutMeasure>>,
    stabilize: bool,
    n: int,
    k: int,
)
    requires
        0 <= n <= blocks.len(),
        0 <= k < followed(captions, blocks, measures, stabilize, n).len(),
    ensures
        exists|b: int|
            0 <= b < n && collapse((#[trigger] blocks[b]).text@) == collapse(
                followed(captions, blocks, measures, stabilize, n)[k].source@,
            ),
        collapse(followed(captions, blocks, measures, stabilize, n)[k].source@).len() > 0,
    decreases n,
{
    if n > 0 {
        let before = followed(captions, blocks, measures, stabilize, n - 1);
        let key = collapse(blocks[n - 1].text@);
        lemma_first_source(captions, key, captions.len() as int);
        if k < before.len() {
            law_captions_without_text_are_dropped(
                captions,
                blocks,
                measures,
                stabilize,
                n - 1,
                k,
            );
            let b = choose|b: int|
                0 <= b < n - 1 && collapse((#[trigger] blocks[b]).text@) == collapse(
                    before[k].source@,
                );
            assert(followed(captions, blocks, measures, stabilize, n)[k] == before[k]);
            assert(collapse(blocks[b].text@) == collapse(before[k].source@));
        } else {
            assert(collapse(blocks[n - 1].text@) == collapse(
                followed(captions, blocks, measures, stabilize, n)[k].source@,
            ));
        }
    }
}

/// A set is painted anew for a caption that moved or says something else, or for one more or less.
pub proof fn law_moved_caption_is_painted(
    a: Seq<TranslatedBlock>,
    b: Seq<TranslatedBlock>,
    i: int,
)
    ensures
        a.len() != b.len() ==> captions_differ(a, b),
        a.len() == b.len() && 0 <= i < a.len() && (a[i].translation@ != b[i].translation@
            || collapse(a[i].source@) != collapse(b[i].source@) || a[i].bbox.x.rank()
            != b[i].bbox.x.rank() || a[i].bbox.y.rank() != b[i].bbox.y.rank()
            || a[i].bbox.width.rank() != b[i].bbox.width.rank() || a[i].bbox.height.rank()
            != b[i].bbox.height.rank()) ==> captions_differ(a, b),
{
    if a.len() == b.len() && 0 <= i < a.len() {
        let d = crate::polling::caption_differs(a[i], b[i]);
        assert(d || !d);
    }
}

/// A new page with text is sent whole; the page that was translated last is not, unless it is
/// forced; a blank page clears the captions; and while a request runs nothing happens.
pub proof fn law_new_page_is_sent(p: PollingView, page: Page, force: bool)
    ensures
        ({
            let q = p.translate_begun(page, force);
            let text = page.blocks.len() > 0 && trim(page.source).len() > 0;
            let new = force || p.core.last_translated_fp != Some(page.fingerprint);
            &&& p.job is Some ==> q == p
            &&& p.job is None && text && new ==> {
                &&& q.job == Some(page)
                &&& q.can_retry
                &&& q.core.app.translate_in_flight
                &&& q.core.app.status == StatusView::Translating
                &&& q.core.app.ocr == page.blocks
                &&& q.core.app.captions == p.core.app.captions
                &&& q.core.effects == p.core.effects.push(
                    Effect::UpdateClient(p.core.app.config.api),
                ).push(Effect::SpawnTranslate)
                &&& q.core.client_api == p.core.app.config.api
            }
            &&& p.job is None && text && !new ==> {
                &&& q.job is None
                &&& q.core.effects == p.core.effects
                &&& q.core.app.captions == p.core.app.captions
                &&& !q.core.app.translate_in_flight
            }
            &&& p.job is None && !text ==> {
                &&& q.job is None
                &&& !q.can_retry
                &&& q.core.app.captions.len() == 0
                &&& q.core.page is None
                &&& q.core.last_translated_fp is None
                &&& p.core.overlay_up ==> q.core.effects == p.core.effects.push(
                    Effect::Overlay(OverlayOrder::Clear),
                )
            }
        }),
{
    reveal(PipelineView::asks);
    reveal(PipelineView::orders);
    reveal(PipelineView::page_emptied);
    reveal(PipelineView::page_unchanged);
    reveal(PipelineView::page_sent);
    reveal(PollingView::translate_begun);
    reveal(AppView::resting);
}

/// A translated page is shown, counts as translated, and is the newest of the history; its turn is
/// kept.
pub proof fn law_translated_page_is_shown(
    p: PollingView,
    page: Page,
    translated: Vec<TranslatedBlock>,
    text: String,
)
    ensures
        ({
            let q = p.translate_finished(
                page,
                PageOutcome::Done { translated, translated_text: text },
            );
            &&& q.job is None
            &&& q.can_retry
            &&& q.core.app.captions == translated@
            &&& q.core.last_translated_fp == Some(page.fingerprint)
            &&& !q.core.app.translate_in_flight
            &&& q.core.app.last_error is None
            &&& q.core.app.status == StatusView::OverlayActive
            &&& q.core.app.history.len() <= HISTORY_ROWS
            &&& q.core.app.history[0] == (page.source, text@)
            &&& forall|i: int|
                0 < i < q.core.app.history.len() ==> #[trigger] q.core.app.history[i]
                    == p.core.app.history[i - 1]
            &&& q.core.effects[p.core.effects.len() as int] == Effect::CommitTurn
            &&& p.core.overlay_up ==> q.core.effects.last() == Effect::Overlay(
                OverlayOrder::SetBlocks {
                    blocks: translated@,
                    content_width: page.width,
                    content_height: page.height,
                },
            )
        }),
{
    reveal(PipelineView::asks);
    reveal(PipelineView::orders);
    reveal(PipelineView::painted);
    reveal(PipelineView::page_finished);
    reveal(PollingView::translate_finished);
    reveal(AppView::remembered);
}

/// A request that did not end well takes its turn back, leaves captions and history as they are,
/// and says why; a cancelled one says nothing.
pub proof fn law_failed_request_leaves_captions(p: PollingView, page: Page, e: String)
    ensures
        ({
            let failed = p.translate_finished(page, PageOutcome::Failed(e));
            let bad = p.translate_finished(page, PageOutcome::BadReply(e));
            let cancelled = p.translate_finished(page, PageOutcome::Cancelled);
            &&& failed.core.app.last_error == Some("translate: "@ + e@)
            &&& bad.core.app.last_error == Some("translate parse: "@ + e@)
            &&& cancelled.core.app.last_error == p.core.app.last_error
            &&& failed.core.effects == p.core.effects.push(Effect::RollbackTurn)
            &&& bad.core.effects == p.core.effects.push(Effect::RollbackTurn)
            &&& cancelled.core.effects == p.core.effects.push(Effect::RollbackTurn)
            &&& failed.core.app.captions == p.core.app.captions
            &&& cancelled.core.app.captions == p.core.app.captions
            &&& failed.core.app.history == p.core.app.history
            &&& failed.core.last_translated_fp == p.core.last_translated_fp
            &&& failed.job is None && bad.job is None && cancelled.job is None
            &&& p.core.app.auto_running ==> cancelled.core.app.status == StatusView::Capturing
            &&& !p.core.app.auto_running ==> cancelled.core.app.status == StatusView::Cancelled
        }),
{
    reveal(PipelineView::asks);
    reveal(PipelineView::request_failed);
    reveal(PipelineView::request_cancelled);
    reveal(PollingView::translate_finished);
    reveal(AppView::failed);
    reveal(AppView::resting);
}

/// The stability gate decides: a page that begins to change shows no captions, one that settles
/// counts its wait, one that is handed out is the page at hand, and one that was handed out is
/// left alone.
pub proof fn law_stability_decides_what_is_sent(
    p: PollingView,
    blocks: Seq<OcrBlock>,
    width: u32,
    height: u32,
    now: u128,
)
    ensures
        ({
            let (gate, outcome) = p.core.gate.observed(
                OcrFingerprint(page_fingerprint(blocks)),
                now,
            );
            let q = p.gated(blocks, width, height, now);
            &&& q.core.gate == gate
            &&& outcome is Changed ==> q.core.app.captions.len() == 0 && !q.can_retry
                && q.core.app.ocr == blocks && q.job == p.job
            &&& outcome matches StabilityOutcome::Waiting { elapsed_ms } ==> q.core.app.captions
                == p.core.app.captions && q.core.app.status == (StatusView::WaitingForStable {
                elapsed_ms,
            }) && q.core.effects == p.core.effects && q.job == p.job
            &&& outcome is AlreadyEmitted ==> q.core.app == p.core.app && q.core.effects
                == p.core.effects && q.job == p.job
            &&& outcome matches StabilityOutcome::Ready { fingerprint, .. } ==> (p.job is None
                && q.job is Some ==> q.job->0.blocks == blocks && q.job->0.fingerprint
                == fingerprint && q.job->0.width == width && q.job->0.height == height
                && q.core.page == q.job)
        }),
{
    reveal(PipelineView::asks);
    reveal(PipelineView::orders);
    reveal(PollingView::gated);
    reveal(PollingView::captions_cleared);
    reveal(PollingView::page_recorded);
    reveal(PollingView::translate_begun);
    reveal(PipelineView::page_emptied);
    reveal(PipelineView::page_unchanged);
    reveal(PipelineView::page_sent);
    reveal(AppView::resting);
}

/// Text that flashes shows no captions of before; a blank screen keeps them for the miss grace
/// while something lingers.
pub proof fn law_flashing_text_drops_captions(
    p: PollingView,
    raw: Seq<OcrBlock>,
    durable: Seq<OcrBlock>,
    now: u128,
)
    ensures
        p.lingering(raw).core.app.captions.len() == 0,
        p.lingering(raw).core.app.ocr == raw,
        !p.lingering(raw).can_retry,
        p.core.app.auto_running ==> p.lingering(raw).core.app.status == StatusView::Capturing,
        ({
            let grace = if p.core.app.config.ocr.block_max_miss_ms < 1 {
                1_000_000
            } else {
                p.core.app.config.ocr.block_max_miss_ms * 1_000_000
            };
            let over = p.core.raw_empty_since matches Some(since) && now >= since + grace;
            let q = p.blank_read(durable, now);
            &&& durable.len() == 0 || over ==> q.core.app.captions.len() == 0
                && q.core.app.ocr.len() == 0 && q.core.raw_empty_since is None
            &&& durable.len() > 0 && !over ==> q.core.app == p.core.app && q.core.effects
                == p.core.effects && q.core.raw_empty_since == Some(
                match p.core.raw_empty_since {
                    Some(since) => since,
                    None => now,
                },
            )
        }),
{
    reveal(PipelineView::asks);
    reveal(PipelineView::orders);
    reveal(PollingView::lingering);
    reveal(PollingView::captions_cleared);
    reveal(PollingView::blank_read);
    reveal(PollingView::stale_cleared);
    reveal(PipelineView::stale_cleared);
    reveal(AppView::resting);
}

/// Captions that follow the text are shown; where none is found again they go; they are painted
/// anew where one moved or the surface has another size.
pub proof fn law_followed_captions_are_shown(
    p: PollingView,
    blocks: Seq<OcrBlock>,
    measures: Seq<Seq<RelayoutMeasure>>,
    width: u32,
    height: u32,
)
    ensures
        ({
            let anew = p.core.page is None || p.core.page->0.width != width
                || p.core.page->0.height != height;
            let before = p.core.app.captions;
            let found = followed(before, blocks, measures, !anew, blocks.len() as int);
            let q = p.captions_followed(blocks, measures, width, height);
            &&& found.len() == 0 && before.len() > 0 ==> q.core.app.captions.len() == 0
            &&& found.len() > 0 && (anew || captions_differ(before, found)) ==> {
                &&& q.core.app.captions == found
                &&& q.core.app.status == StatusView::OverlayActive
                &&& p.core.overlay_up ==> q.core.effects.last() == Effect::Overlay(
                    OverlayOrder::SetBlocks {
                        blocks: found,
                        content_width: width,
                        content_height: height,
                    },
                )
            }
            &&& found.len() > 0 && !anew && !captions_differ(before, found) ==> {
                &&& q.core.app.captions == before
                &&& q.core.effects == p.core.effects
                &&& q.core.app.status == StatusView::OverlayActive
            }
        }),
{
    reveal(PipelineView::asks);
    reveal(PipelineView::orders);
    reveal(PipelineView::painted);
    reveal(PollingView::captions_followed);
    reveal(PipelineView::captions_shown);
    reveal(PollingView::stale_cleared);
    reveal(PipelineView::stale_cleared);
    reveal(AppView::resting);
}

/// A frame is read when it is new; the last one is read again once the capture interval, at least
/// fifty milliseconds, is over.
pub proof fn law_last_frame_is_read_on_the_interval(
    p: PollingView,
    frame: FrameView,
    now: u128,
)
    ensures
        ({
            let ms = p.core.app.config.capture.min_interval_ms;
            let interval = if ms < 50 {
                50_000_000
            } else {
                ms * 1_000_000
            };
            &&& p.last_ocr_at is None ==> p.rereads(now)
            &&& p.last_ocr_at matches Some(t) ==> (p.rereads(now) <==> now >= t + interval)
            &&& p.frame_to_read(Some(frame), now) == Some(frame)
            &&& p.frame_to_read(None, now) == if p.rereads(now) {
                p.last_frame
            } else {
                None
            }
            &&& p.turn_frame(true, Some(frame), now) == if p.job is None && p.core.engine_ready {
                Some(frame)
            } else {
                None
            }
            &&& p.turn_frame(false, Some(frame), now) is None
        }),
{
}

/// A frame that is read is kept and counted; its pixels are shown only where the preview is on.
pub proof fn law_preview_shows_the_frame_if_wanted(p: PollingView, frame: FrameView)
    ensures
        ({
            let q = p.previewed(frame);
            &&& q.frame_count == frame.sequence
            &&& q.core.app.preview.sequence == frame.sequence
            &&& q.core.app.preview.width == frame.width
            &&& q.core.app.preview.height == frame.height
            &&& p.show_preview ==> q.core.app.preview.rgba == Some(frame.rgba)
            &&& !p.show_preview ==> q.core.app.preview.rgba == p.core.app.preview.rgba
            &&& q.core.app.captions == p.core.app.captions
        }),
        p.job is None ==> p.turned(true, Some(frame), 0).last_frame == Some(frame),
{
    reveal(PollingView::previewed);
    reveal(PollingView::turned);
    reveal(PollingView::without_engine);
}

/// A capture that starts follows its window, forgets what was read and clears the conversation; one
/// that stops leaves nothing running and nothing shown.
pub proof fn law_capture_starts_and_stops_clean(p: PollingView, target: CaptureTarget)
    ensures
        ({
            let q = p.capture_started(target);
            &&& q.core.app.auto_running
            &&& q.core.app.hwnd == Some(target.hwnd)
            &&& q.core.app.title == Some(target.title@)
            &&& q.core.app.status == StatusView::Capturing
            &&& q.core.tracks.len() == 0
            &&& q.core.last_translated_fp is None
            &&& q.last_frame is None
            &&& q.last_ocr_at is None
            &&& q.core.effects[p.core.effects.len() as int] == Effect::ClearConversation
            &&& p.core.overlay_up ==> q.core.effects.last() == Effect::Overlay(
                OverlayOrder::Attach { target_hwnd: target.hwnd },
            )
        }),
        ({
            let q = p.capture_stopped();
            &&& !q.core.app.auto_running
            &&& q.core.app.hwnd is None
            &&& q.job is None
            &&& !q.core.app.translate_in_flight
            &&& q.core.app.status == StatusView::Idle
            &&& q.last_frame is None
            &&& q.core.effects.contains(Effect::StopStream)
            &&& p.job is Some ==> q.core.effects.contains(Effect::CancelJob)
            &&& p.core.overlay_up ==> q.core.effects.last() == Effect::Overlay(OverlayOrder::Clear)
        }),
{
    reveal(PipelineView::asks);
    reveal(PipelineView::orders);
    reveal(PollingView::job_aborted);
    reveal(PollingView::reading_reset);
    reveal(PollingView::capture_started);
    reveal(PollingView::capture_stopped);
    let n = p.core.effects.len() as int;
    let q = p.capture_stopped();
    if p.job is Some {
        assert(q.core.effects[n] == Effect::CancelJob);
        assert(q.core.effects[n + 1] == Effect::StopStream);
    } else {
        assert(q.core.effects[n] == Effect::StopStream);
    }
}

/// Commands reach the host as they were given: a capture starts on the chosen window, a manual one
/// waits for a running request and loads a missing engine, and a retry without a page is an error.
pub proof fn law_commands_reach_the_host(p: PollingView, hwnd: isize, title: String)
    ensures
        p.commanded(PollingCommand::StartCapture { hwnd, title }).1 == (
        PollingRequest::StartWindow {
            hwnd,
            title: title@,
            min_interval_ms: p.core.app.config.capture.min_interval_ms,
        }),
        p.commanded(PollingCommand::StartCapture { hwnd, title }).0.job is None,
        p.commanded(PollingCommand::StartForeground).1 == (PollingRequest::StartForeground {
            min_interval_ms: p.core.app.config.capture.min_interval_ms,
        }),
        p.job is Some ==> p.commanded(PollingCommand::ManualCapture) == (p, PollingRequest::Done),
        p.job is None ==> p.commanded(PollingCommand::ManualCapture) == (
            p,
            PollingRequest::ManualCapture { load_engine: !p.core.engine_ready },
        ),
        p.job is None && p.core.page is None ==> p.commanded(
            PollingCommand::RetryTranslate,
        ).0.core.app.last_error == Some("nothing to retry"@),
        p.job is Some ==> p.commanded(PollingCommand::RetryTranslate).0 == p,
        p.job is Some ==> p.commanded(PollingCommand::CancelTranslate).0.core.effects
            == p.core.effects.push(Effect::CancelJob),
        p.commanded(PollingCommand::SetShowPreview(true)).0.show_preview,
        !p.commanded(PollingCommand::SetShowPreview(false)).0.show_preview,
{
    reveal(PipelineView::asks);
    reveal(PollingView::job_aborted);
    reveal(PollingView::retried);
    reveal(PollingView::translate_cancelled);
    reveal(AppView::failed);
}

/// A config that is applied reaches the client, the filter, the stability gate and the overlay.
pub proof fn law_config_reaches_every_part(p: PollingView, cfg: AppConfig, show: bool)
    ensures
        ({
            let q = p.config_begun(cfg, show);
            &&& q.show_preview == show
            &&& q.core.client_api == cfg.api
            &&& q.core.tracks.len() == 0
            &&& q.core.persistence.persist_ms == cfg.ocr.block_persist_ms
            &&& q.core.gate.stable_duration_ms == cfg.ocr.stable_duration_ms
            &&& q.core.gate.max_unstable_ms == cfg.ocr.max_unstable_ms
            &&& q.job == p.job
            &&& q.core.effects[p.core.effects.len() as int] == Effect::UpdateClient(cfg.api)
            &&& p.core.overlay_up ==> q.core.effects.last() == Effect::Overlay(
                OverlayOrder::UpdateConfig(cfg.overlay),
            )
        }),
        p.conversation_reset().core.last_translated_fp is None,
        p.conversation_reset().core.effects == p.core.effects.push(Effect::ClearConversation),
        p.conversation_reset().core.app.captions == p.core.app.captions,
{
    reveal(PipelineView::asks);
    reveal(PipelineView::orders);
    reveal(PollingView::config_begun);
    reveal(PollingView::conversation_reset);
    reveal(AppView::restored);
}

/// Every frame with text moves its tracks on; what lingers of it goes to the stability gate, and
/// text of which nothing lingers shows no captions.
pub proof fn law_every_frame_moves_its_tracks(
    p: PollingView,
    raw: Seq<OcrBlock>,
    width: u32,
    height: u32,
    measures: Seq<Seq<TrackMeasure>>,
    now: u128,
)
    requires
        raw.len() > 0,
    ensures
        ({
            let q = p.raw_consumed(raw, width, height, measures, now);
            let durable = p.core.persistence.emitted(p.core.tracks, raw, measures, now);
            &&& q.core.tracks == p.core.persistence.kept(p.core.tracks, raw, measures, now)
            &&& q.core.raw_empty_since is None
            &&& durable.len() > 0 ==> q.core.gate == p.core.gate.observed(
                OcrFingerprint(page_fingerprint(durable)),
                now,
            ).0
            &&& durable.len() == 0 ==> q.core.gate == p.core.gate && q.core.app.captions.len() == 0
                && q.core.app.ocr == raw && q.job == p.job
        }),
{
    reveal(PipelineView::asks);
    reveal(PipelineView::orders);
    reveal(PollingView::raw_consumed);
    reveal(PollingView::filtered);
    reveal(PollingView::text_seen);
    reveal(PollingView::lingering);
    reveal(PollingView::gated);
    reveal(PollingView::captions_cleared);
    reveal(PollingView::page_recorded);
    reveal(PollingView::translate_begun);
    reveal(PipelineView::page_emptied);
    reveal(PipelineView::page_unchanged);
    reveal(PipelineView::page_sent);
}

} // verus!
