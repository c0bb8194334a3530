//! OCR noise filters: single-token junk and temporal block persistence.

use crate::clock::{elapsed_nanos, has_lasted, lasted, nanos_between, Clock};
use crate::config::OcrConfig;
use crate::normalize::{normalize_ocr_text, normalized};
use crate::scalar::Scalar;
use crate::sorting::{
    all_positions, lemma_ordered_below, ordered, placed, positions, positions_below, stable_order,
    SortKey,
};
use crate::text::{chars_of, end_of, start_of, trim};
use crate::types::{numbered, reindex, OcrBlock, Rect};
use vstd::prelude::*;

verus! {

/// An ASCII letter or digit.
pub open spec fn is_latin_or_digit(c: char) -> bool {
    48 <= c as u32 <= 57 || 65 <= c as u32 <= 90 || 97 <= c as u32 <= 122
}

/// Nothing but one ASCII letter or digit, surrounding space aside.
pub open spec fn is_single_token(text: Seq<char>) -> bool {
    trim(text).len() == 1 && is_latin_or_digit(trim(text)[0])
}

fn latin_or_digit(c: char) -> (r: bool)
    ensures
        r == is_latin_or_digit(c),
{
    let u: u32 = c as u32;
    (48 <= u && u <= 57) || (65 <= u && u <= 90) || (97 <= u && u <= 122)
}

/// True when `text` is a single ASCII letter or digit (e.g. `"0"`, `"V"`, `"c"`).
///
/// Icons and HUD glyphs are often misread as one Latin char; real words/CJK stay.
pub fn is_single_latin_or_digit(text: &str) -> (r: bool)
    ensures
        r == is_single_token(text@),
{
    let chars: Vec<char> = chars_of(text);
    let from: usize = start_of(&chars);
    let to: usize = end_of(&chars, from);
    assert(trim(text@) =~= chars@.subrange(from as int, to as int));
    if to - from == 1 {
        assert(trim(text@)[0] == chars@[from as int]);
        latin_or_digit(chars[from])
    } else {
        false
    }
}

/// The blocks that are more than one letter or digit, in order.
pub open spec fn without_single_tokens(blocks: Seq<OcrBlock>) -> Seq<OcrBlock>
    decreases blocks.len(),
{
    if blocks.len() == 0 {
        blocks
    } else {
        let before = without_single_tokens(blocks.drop_last());
        if is_single_token(blocks.last().text@) {
            before
        } else {
            before.push(blocks.last())
        }
    }
}

/// Drop blocks that are only one English letter or digit, and number the rest.
pub fn filter_single_char_blocks(blocks: Vec<OcrBlock>) -> (r: Vec<OcrBlock>)
    ensures
        r@ == numbered(without_single_tokens(blocks@)),
{
    let mut kept: Vec<OcrBlock> = Vec::new();
    let mut i: usize = 0;
    assert(blocks@.take(0) =~= Seq::<OcrBlock>::empty());
    while i < blocks.len()
        invariant
            i <= blocks@.len(),
            kept@ == without_single_tokens(blocks@.take(i as int)),
        decreases blocks@.len() - i,
    {
        assert(blocks@.take(i + 1).drop_last() =~= blocks@.take(i as int));
        assert(blocks@.take(i + 1).last() == blocks@[i as int]);
        if !is_single_latin_or_digit(blocks[i].text.as_str()) {
            kept.push(blocks[i].clone());
        }
        i = i + 1;
    }
    assert(blocks@.take(blocks@.len() as int) =~= blocks@);
    reindex(kept)
}

/// One spot on screen and the text read there over time.
#[derive(Debug)]
pub struct Track {
    pub text: String,
    pub bbox: Rect,
    /// First sighting at this spot (not reset on text thrash).
    pub first_seen: u128,
    pub first_stable_since: u128,
    pub last_seen: u128,
    /// True once the text has lingered long enough at this spot.
    pub confirmed: bool,
    /// Last good sample (kept when a frame misses the region).
    pub last_block: OcrBlock,
    /// While confirmed, OCR text that differs from the emitted text.
    pub pending_text: Option<String>,
    /// When `pending_text` first appeared (or last changed).
    pub pending_since: Option<u128>,
    /// When confirmed text first diverged from OCR.
    pub thrash_since: Option<u128>,
}

impl Clone for Track {
    fn clone(&self) -> (r: Self)
        ensures
            r == *self,
    {
        Track {
            text: self.text.clone(),
            bbox: self.bbox,
            first_seen: self.first_seen,
            first_stable_since: self.first_stable_since,
            last_seen: self.last_seen,
            confirmed: self.confirmed,
            last_block: self.last_block.clone(),
            pending_text: self.pending_text.clone(),
            pending_since: self.pending_since,
            thrash_since: self.thrash_since,
        }
    }
}

/// How a block of this frame lies to a track.
#[derive(Clone, Copy, Debug, PartialEq, Eq, Structural)]
pub struct TrackMeasure {
    /// Distance of the centers and its limit, along each axis.
    pub dx: Scalar,
    pub dy: Scalar,
    pub max_dx: Scalar,
    pub max_dy: Scalar,
    /// Tighter limits, for text that differs and boxes that hardly overlap.
    pub near_dx: Scalar,
    pub near_dy: Scalar,
    /// Intersection over union of the boxes.
    pub iou: Scalar,
    /// Match score if the texts agree, and if they differ.
    pub score_same_text: Scalar,
    pub score_other_text: Scalar,
}

/// Overlap below which differing text needs nearly the same center (0.05).
pub const IOU_TOUCHING: u32 = 0x3D4C_CCCD;

impl TrackMeasure {
    /// The block may continue the track.
    pub open spec fn in_reach(self, same_text: bool) -> bool {
        let far = self.max_dx.less(self.dx) || self.max_dy.less(self.dy);
        let apart = self.iou.less(Scalar { bits: IOU_TOUCHING }) && (self.near_dx.less(self.dx)
            || self.near_dy.less(self.dy));
        !far && (same_text || !apart)
    }

    /// How well the block continues the track.
    pub open spec fn score(self, same_text: bool) -> Scalar {
        if same_text {
            self.score_same_text
        } else {
            self.score_other_text
        }
    }

    fn reaches(&self, same_text: bool) -> (r: bool)
        ensures
            r == self.in_reach(same_text),
    {
        if self.max_dx.lt(self.dx) || self.max_dy.lt(self.dy) {
            return false;
        }
        if !same_text && self.iou.lt(Scalar { bits: IOU_TOUCHING }) && (self.near_dx.lt(self.dx)
            || self.near_dy.lt(self.dy)) {
            return false;
        }
        true
    }

    fn match_score(&self, same_text: bool) -> (r: Scalar)
        ensures
            r == self.score(same_text),
    {
        if same_text {
            self.score_same_text
        } else {
            self.score_other_text
        }
    }
}

/// Durations of a persistence filter.
#[derive(Clone, Copy, Debug, PartialEq, Eq, Structural)]
pub struct Persistence {
    pub persist_ms: u64,
    pub max_miss_ms: u64,
    /// Force-confirm thrashing tracks after this long. Zero = disabled.
    pub max_unstable_ms: u64,
}

/// Tracks per-region text over time and only emits blocks that stay put.
///
/// Fast-changing OCR (animated icons, particle effects) never reaches the persistence threshold
/// and is discarded. Static UI text is kept. Once a track is confirmed, it keeps being emitted
/// for the miss grace even if OCR misses it for a frame or two.
///
/// If the reading at a spot keeps flipping, it is confirmed by force after the limit for
/// unsettled text, counted from its first sighting. Unconfirmed tracks are retained at least
/// that long.
#[derive(Debug)]
pub struct BlockPersistenceFilter {
    pub settings: Persistence,
    pub tracks: Vec<Track>,
    pub clock: Clock,
}

/// The text of the track agrees with the text of the block.
pub open spec fn same_reading(track: Track, block: OcrBlock) -> bool {
    normalized(track.text@) == normalized(block.text@)
}

/// The best continuation of `block` among the first `n` tracks: reachable, not claimed yet, and
/// with a score that no earlier such track has reached.
pub open spec fn best_track(
    tracks: Seq<Track>,
    claimed: Seq<bool>,
    block: OcrBlock,
    row: Seq<TrackMeasure>,
    n: int,
) -> Option<int>
    decreases n,
{
    if n <= 0 {
        None
    } else {
        let best = best_track(tracks, claimed, block, row, n - 1);
        let i = n - 1;
        let same = same_reading(tracks[i], block);
        if claimed[i] || !row[i].in_reach(same) {
            best
        } else {
            match best {
                None => Some(i),
                Some(b) => if row[b].score(same_reading(tracks[b], block)).less(
                    row[i].score(same),
                ) {
                    Some(i)
                } else {
                    best
                },
            }
        }
    }
}

/// The track that a block starts.
pub open spec fn started(block: OcrBlock, now: u128) -> Track {
    Track {
        text: block.text,
        bbox: block.bbox,
        first_seen: now,
        first_stable_since: now,
        last_seen: now,
        confirmed: false,
        last_block: block,
        pending_text: None,
        pending_since: None,
        thrash_since: None,
    }
}

impl Persistence {
    /// The differing text of a confirmed track was already pending.
    pub open spec fn still_pending(track: Track, block: OcrBlock) -> bool {
        track.pending_text matches Some(p) && normalized(p@) == normalized(block.text@)
    }

    /// The differing reading of a confirmed track takes its place.
    pub open spec fn adopts(self, track: Track, block: OcrBlock, now: u128) -> bool {
        let lingered = Self::still_pending(track, block) && lasted(
            now,
            match track.pending_since {
                Some(t) => t,
                None => now,
            },
            self.persist_ms,
        );
        let thrashed = self.max_unstable_ms > 0 && lasted(
            now,
            match track.thrash_since {
                Some(t) => t,
                None => now,
            },
            self.max_unstable_ms,
        );
        lingered || thrashed
    }

    /// The track after `block` continued it, before any confirmation by force.
    pub open spec fn continued(self, track: Track, block: OcrBlock, now: u128) -> Track {
        if same_reading(track, block) {
            Track {
                last_seen: now,
                pending_text: None,
                pending_since: None,
                thrash_since: None,
                bbox: if track.confirmed {
                    track.bbox
                } else {
                    block.bbox
                },
                last_block: if track.confirmed {
                    OcrBlock { confidence: block.confidence, ..track.last_block }
                } else {
                    block
                },
                confirmed: track.confirmed || lasted(
                    now,
                    track.first_stable_since,
                    self.persist_ms,
                ),
                ..track
            }
        } else if track.confirmed {
            if self.adopts(track, block, now) {
                Track {
                    text: block.text,
                    bbox: block.bbox,
                    last_block: block,
                    pending_text: None,
                    pending_since: None,
                    thrash_since: None,
                    first_stable_since: now,
                    last_seen: now,
                    ..track
                }
            } else {
                Track {
                    last_seen: now,
                    thrash_since: Some(
                        match track.thrash_since {
                            Some(t) => t,
                            None => now,
                        },
                    ),
                    pending_text: if Self::still_pending(track, block) {
                        track.pending_text
                    } else {
                        Some(block.text)
                    },
                    pending_since: if Self::still_pending(track, block) {
                        track.pending_since
                    } else {
                        Some(now)
                    },
                    ..track
                }
            }
        } else {
            Track {
                text: block.text,
                bbox: block.bbox,
                first_stable_since: now,
                last_seen: now,
                last_block: block,
                pending_text: None,
                pending_since: None,
                thrash_since: None,
                ..track
            }
        }
    }

    /// The track after `block` continued it.
    pub open spec fn updated(self, track: Track, block: OcrBlock, now: u128) -> Track {
        let t = self.continued(track, block, now);
        Track {
            confirmed: t.confirmed || (self.max_unstable_ms > 0 && lasted(
                now,
                t.first_seen,
                self.max_unstable_ms,
            )),
            ..t
        }
    }

    /// Tracks and claims after the first `n` blocks of a frame.
    pub open spec fn after_blocks(
        self,
        tracks: Seq<Track>,
        blocks: Seq<OcrBlock>,
        measures: Seq<Seq<TrackMeasure>>,
        now: u128,
        n: int,
    ) -> (Seq<Track>, Seq<bool>)
        decreases n,
    {
        if n <= 0 {
            (tracks, Seq::new(tracks.len(), |i: int| false))
        } else {
            let (ts, claimed) = self.after_blocks(tracks, blocks, measures, now, n - 1);
            let block = blocks[n - 1];
            if normalized(block.text@).len() == 0 {
                (ts, claimed)
            } else {
                match best_track(ts, claimed, block, measures[n - 1], tracks.len() as int) {
                    Some(i) => (
                        ts.update(i, self.updated(ts[i], block, now)),
                        claimed.update(i, true),
                    ),
                    None => (ts.push(started(block, now)), claimed.push(true)),
                }
            }
        }
    }

    /// The track is shown: confirmed, and seen within the miss grace.
    pub open spec fn shows(self, track: Track, now: u128) -> bool {
        track.confirmed && elapsed_nanos(now, track.last_seen) <= self.max_miss_ms * 1_000_000
    }

    /// Samples of the tracks that are shown, in track order.
    pub open spec fn shown(self, tracks: Seq<Track>, now: u128) -> Seq<OcrBlock>
        decreases tracks.len(),
    {
        if tracks.len() == 0 {
            Seq::empty()
        } else {
            let before = self.shown(tracks.drop_last(), now);
            if self.shows(tracks.last(), now) {
                before.push(tracks.last().last_block)
            } else {
                before
            }
        }
    }

    /// How long a track is kept without being seen.
    pub open spec fn retain_ms(self, confirmed: bool) -> u64 {
        if confirmed || self.max_unstable_ms == 0 || self.max_miss_ms >= self.max_unstable_ms {
            self.max_miss_ms
        } else {
            self.max_unstable_ms
        }
    }

    /// The tracks that are kept for the next frame, in order.
    pub open spec fn retained(self, tracks: Seq<Track>, now: u128) -> Seq<Track>
        decreases tracks.len(),
    {
        if tracks.len() == 0 {
            tracks
        } else {
            let before = self.retained(tracks.drop_last(), now);
            let t = tracks.last();
            if elapsed_nanos(now, t.last_seen) <= self.retain_ms(t.confirmed) * 1_000_000 {
                before.push(t)
            } else {
                before
            }
        }
    }

    /// What a frame emits: the shown samples by row, then column, numbered.
    pub open spec fn emission(self, tracks: Seq<Track>, now: u128) -> Seq<OcrBlock> {
        in_reading_order(self.shown(tracks, now))
    }

    /// Durations for which the miss grace outlasts the persistence by 100 ms.
    pub open spec fn configured(persist_ms: u64, max_miss_ms: u64, max_unstable_ms: u64) -> Persistence {
        let least = if persist_ms + 100 > u64::MAX {
            u64::MAX
        } else {
            (persist_ms + 100) as u64
        };
        Persistence {
            persist_ms,
            max_miss_ms: if max_miss_ms >= least {
                max_miss_ms
            } else {
                least
            },
            max_unstable_ms,
        }
    }

    /// The durations of `config`.
    pub open spec fn of_config(config: OcrConfig) -> Persistence {
        Persistence::configured(
            config.block_persist_ms,
            config.block_max_miss_ms,
            config.max_unstable_ms,
        )
    }

    /// What a frame of `blocks` that is read at `now` emits.
    pub open spec fn emitted(
        self,
        tracks: Seq<Track>,
        blocks: Seq<OcrBlock>,
        measures: Seq<Seq<TrackMeasure>>,
        now: u128,
    ) -> Seq<OcrBlock> {
        if self.persist_ms == 0 {
            blocks
        } else {
            self.emission(
                self.after_blocks(tracks, blocks, measures, now, blocks.len() as int).0,
                now,
            )
        }
    }

    /// The tracks after a frame of `blocks` that is read at `now`.
    pub open spec fn kept(
        self,
        tracks: Seq<Track>,
        blocks: Seq<OcrBlock>,
        measures: Seq<Seq<TrackMeasure>>,
        now: u128,
    ) -> Seq<Track> {
        if self.persist_ms == 0 {
            tracks
        } else {
            self.retained(
                self.after_blocks(tracks, blocks, measures, now, blocks.len() as int).0,
                now,
            )
        }
    }

    /// Durations for which the miss grace outlasts the persistence by 100 ms.
    fn with_grace(persist_ms: u64, max_miss_ms: u64, max_unstable_ms: u64) -> (r: Persistence)
        ensures
            r == Persistence::configured(persist_ms, max_miss_ms, max_unstable_ms),
    {
        let least: u64 = persist_ms.saturating_add(100);
        Persistence {
            persist_ms,
            max_miss_ms: if max_miss_ms >= least {
                max_miss_ms
            } else {
                least
            },
            max_unstable_ms,
        }
    }
}

impl BlockPersistenceFilter {
    /// Filter with the default limit for unsettled text.
    pub fn new(persist_ms: u64, max_miss_ms: u64) -> (r: BlockPersistenceFilter)
        ensures
            r.is_fresh(persist_ms, max_miss_ms, 2_000),
    {
        BlockPersistenceFilter::with_max_unstable(persist_ms, max_miss_ms, 2_000)
    }

    /// A filter with these durations that has seen nothing.
    pub open spec fn is_fresh(
        self,
        persist_ms: u64,
        max_miss_ms: u64,
        max_unstable_ms: u64,
    ) -> bool {
        &&& self.settings == Persistence::configured(persist_ms, max_miss_ms, max_unstable_ms)
        &&& self.tracks@.len() == 0
    }

    /// Filter with a chosen limit for unsettled text.
    pub fn with_max_unstable(persist_ms: u64, max_miss_ms: u64, max_unstable_ms: u64) -> (r:
        BlockPersistenceFilter)
        ensures
            r.is_fresh(persist_ms, max_miss_ms, max_unstable_ms),
    {
        BlockPersistenceFilter {
            settings: Persistence::with_grace(persist_ms, max_miss_ms, max_unstable_ms),
            tracks: Vec::new(),
            clock: Clock::start(),
        }
    }

    /// Filter with the durations of `config`.
    pub fn from_config(config: &OcrConfig) -> (r: BlockPersistenceFilter)
        ensures
            r.is_fresh(config.block_persist_ms, config.block_max_miss_ms, config.max_unstable_ms),
    {
        BlockPersistenceFilter::with_max_unstable(
            config.block_persist_ms,
            config.block_max_miss_ms,
            config.max_unstable_ms,
        )
    }

    /// The durations of `other`.
    pub open spec fn same_settings(self, other: BlockPersistenceFilter) -> bool {
        self.settings == other.settings && self.clock == other.clock
    }

    /// Take the durations of `config` and forget every track.
    pub fn reconfigure(&mut self, config: &OcrConfig)
        ensures
            final(self).settings == Persistence::of_config(*config),
            final(self).tracks@.len() == 0,
            final(self).clock == old(self).clock,
    {
        self.settings = Persistence::with_grace(
            config.block_persist_ms,
            config.block_max_miss_ms,
            config.max_unstable_ms,
        );
        self.tracks.clear();
    }

    /// Forget every track.
    pub fn reset(&mut self)
        ensures
            final(self).tracks@.len() == 0,
            final(self).same_settings(*old(self)),
    {
        self.tracks.clear();
    }

    /// False when persistence is switched off.
    pub fn is_enabled(&self) -> (r: bool)
        ensures
            r == (self.settings.persist_ms > 0),
    {
        self.settings.persist_ms > 0
    }

    /// The boxes of the tracks, in track order, for measuring the blocks of a frame.
    pub fn track_boxes(&self) -> (r: Vec<Rect>)
        ensures
            r@ == self.tracks@.map_values(|t: Track| t.bbox),
    {
        let mut out: Vec<Rect> = Vec::new();
        let mut i: usize = 0;
        while i < self.tracks.len()
            invariant
                i <= self.tracks@.len(),
                out@ == self.tracks@.take(i as int).map_values(|t: Track| t.bbox),
            decreases self.tracks@.len() - i,
        {
            out.push(self.tracks[i].bbox);
            assert(self.tracks@.take(i + 1).map_values(|t: Track| t.bbox) =~= self.tracks@.take(
                i as int,
            ).map_values(|t: Track| t.bbox).push(self.tracks@[i as int].bbox));
            i = i + 1;
        }
        assert(self.tracks@.take(i as int) =~= self.tracks@);
        out
    }

    /// Update tracks from this frame and return only persistent blocks, at the current time.
    ///
    /// `measures` holds, for each block, how it lies to each track. The result is that of
    /// [`Self::filter_at`] for the time that the clock gave.
    pub fn filter(&mut self, blocks: Vec<OcrBlock>, measures: &Vec<Vec<TrackMeasure>>) -> (r: Vec<
        OcrBlock,
    >)
        requires
            measured(old(self).tracks@, blocks@, measures@),
        ensures
            old(self).settings.persist_ms == 0 ==> r@ == blocks@,
            exists|now: u128| #[trigger]
                old(self).frame(*final(self), blocks@, rows(measures@), now, r@),
    {
        let now: u128 = self.clock.now();
        self.filter_at(blocks, measures, now)
    }

    /// `after` and `out` are what a frame of `blocks` read at `now` makes of this filter.
    pub open spec fn frame(
        self,
        after: BlockPersistenceFilter,
        blocks: Seq<OcrBlock>,
        measures: Seq<Seq<TrackMeasure>>,
        now: u128,
        out: Seq<OcrBlock>,
    ) -> bool {
        &&& after.same_settings(self)
        &&& out == self.settings.emitted(self.tracks@, blocks, measures, now)
        &&& after.tracks@ == self.settings.kept(self.tracks@, blocks, measures, now)
    }

    /// Update tracks from a frame that was read at `now` and return only persistent blocks.
    ///
    /// When persistence is off, returns `blocks` unchanged.
    pub fn filter_at(
        &mut self,
        blocks: Vec<OcrBlock>,
        measures: &Vec<Vec<TrackMeasure>>,
        now: u128,
    ) -> (r: Vec<OcrBlock>)
        requires
            measured(old(self).tracks@, blocks@, measures@),
        ensures
            old(self).frame(*final(self), blocks@, rows(measures@), now, r@),
    {
        if !self.is_enabled() {
            return blocks;
        }
        let ghost start = *self;
        let ghost table = rows(measures@);
        let known: usize = self.tracks.len();
        // One OCR box per track per frame: stacked lines sit inside the match radius of their
        // neighbors and would otherwise collapse onto the last couple of tracks.
        let mut claimed: Vec<bool> = Vec::new();
        let mut k: usize = 0;
        while k < known
            invariant
                k <= known,
                claimed@ == Seq::new(k as nat, |i: int| false),
            decreases known - k,
        {
            claimed.push(false);
            k = k + 1;
            assert(claimed@ =~= Seq::new(k as nat, |i: int| false));
        }
        let mut n: usize = 0;
        while n < blocks.len()
            invariant
                n <= blocks@.len(),
                self.same_settings(start),
                known == start.tracks@.len(),
                known <= self.tracks@.len(),
                claimed@.len() == self.tracks@.len(),
                table == rows(measures@),
                measured(start.tracks@, blocks@, measures@),
                (self.tracks@, claimed@) == start.settings.after_blocks(
                    start.tracks@,
                    blocks@,
                    table,
                    now,
                    n as int,
                ),
            decreases blocks@.len() - n,
        {
            let key: String = normalize_ocr_text(blocks[n].text.as_str());
            if !key.as_str().is_empty() {
                assert(measures@[n as int]@.len() == known);
                assert(table[n as int] == measures@[n as int]@);
                match self.find_track(&blocks[n], &measures[n], &claimed) {
                    Some(idx) => {
                        claimed.set(idx, true);
                        let next: Track = self.next_track(&self.tracks[idx], &blocks[n], now);
                        self.tracks.set(idx, next);
                    },
                    None => {
                        self.tracks.push(
                            Track {
                                text: blocks[n].text.clone(),
                                bbox: blocks[n].bbox,
                                first_seen: now,
                                first_stable_since: now,
                                last_seen: now,
                                confirmed: false,
                                last_block: blocks[n].clone(),
                                pending_text: None,
                                pending_since: None,
                                thrash_since: None,
                            },
                        );
                        claimed.push(true);
                    },
                }
            }
            n = n + 1;
        }
        let out: Vec<OcrBlock> = self.samples(now);
        self.drop_expired(now);
        sort_for_reading(out)
    }

    fn find_track(&self, block: &OcrBlock, row: &Vec<TrackMeasure>, claimed: &Vec<bool>) -> (r:
        Option<usize>)
        requires
            row@.len() <= self.tracks@.len(),
            claimed@.len() == self.tracks@.len(),
        ensures
            match r {
                Some(i) => i < row@.len() && best_track(
                    self.tracks@,
                    claimed@,
                    *block,
                    row@,
                    row@.len() as int,
                ) == Some(i as int),
                None => best_track(self.tracks@, claimed@, *block, row@, row@.len() as int) is None,
            },
    {
        let key: String = normalize_ocr_text(block.text.as_str());
        let mut best: Option<usize> = None;
        let mut best_score: Scalar = Scalar { bits: 0 };
        let mut i: usize = 0;
        while i < row.len()
            invariant
                i <= row@.len(),
                row@.len() <= self.tracks@.len(),
                claimed@.len() == self.tracks@.len(),
                key@ == normalized(block.text@),
                match best {
                    Some(b) => b < i && best_track(self.tracks@, claimed@, *block, row@, i as int)
                        == Some(b as int) && best_score == row@[b as int].score(
                        same_reading(self.tracks@[b as int], *block),
                    ),
                    None => best_track(self.tracks@, claimed@, *block, row@, i as int) is None,
                },
            decreases row@.len() - i,
        {
            if !claimed[i] {
                let same: bool = normalize_ocr_text(self.tracks[i].text.as_str()) == key;
                if row[i].reaches(same) {
                    let score: Scalar = row[i].match_score(same);
                    let better: bool = match best {
                        Some(_) => best_score.lt(score),
                        None => true,
                    };
                    if better {
                        best = Some(i);
                        best_score = score;
                    }
                }
            }
            i = i + 1;
        }
        best
    }

    fn next_track(&self, track: &Track, block: &OcrBlock, now: u128) -> (r: Track)
        ensures
            r == self.settings.updated(*track, *block, now),
    {
        let mut t: Track = track.clone();
        let key: String = normalize_ocr_text(block.text.as_str());
        if normalize_ocr_text(t.text.as_str()) == key {
            // Same region and same text: accumulate persistence.
            t.last_seen = now;
            t.pending_text = None;
            t.pending_since = None;
            t.thrash_since = None;
            // Once confirmed, the box is frozen: detector jitter must not walk it.
            if t.confirmed {
                t.last_block.confidence = block.confidence;
            } else {
                t.bbox = block.bbox;
                t.last_block = block.clone();
            }
            if has_lasted(now, t.first_stable_since, self.settings.persist_ms) {
                t.confirmed = true;
            }
        } else if t.confirmed {
            // Keep the emitted text and box until the new reading lingered or thrashed.
            t.last_seen = now;
            let thrash: u128 = match t.thrash_since {
                Some(s) => s,
                None => now,
            };
            t.thrash_since = Some(thrash);
            let pending_same: bool = match &t.pending_text {
                Some(p) => normalize_ocr_text(p.as_str()) == key,
                None => false,
            };
            if !pending_same {
                t.pending_text = Some(block.text.clone());
                t.pending_since = Some(now);
            }
            let since: u128 = match t.pending_since {
                Some(s) => s,
                None => now,
            };
            let linger_ready: bool = pending_same && has_lasted(
                now,
                since,
                self.settings.persist_ms,
            );
            let thrash_force: bool = self.settings.max_unstable_ms > 0 && has_lasted(
                now,
                thrash,
                self.settings.max_unstable_ms,
            );
            if linger_ready || thrash_force {
                adopt_reading(&mut t, block, now);
            }
        } else {
            // Unconfirmed text flip: restart the same-text timer, keep the first sighting.
            t.text = block.text.clone();
            t.bbox = block.bbox;
            t.first_stable_since = now;
            t.last_seen = now;
            t.last_block = block.clone();
            t.pending_text = None;
            t.pending_since = None;
            t.thrash_since = None;
        }
        if !t.confirmed && self.settings.max_unstable_ms > 0 && has_lasted(
            now,
            t.first_seen,
            self.settings.max_unstable_ms,
        ) {
            t.confirmed = true;
        }
        t
    }

    fn samples(&self, now: u128) -> (r: Vec<OcrBlock>)
        ensures
            r@ == self.settings.shown(self.tracks@, now),
    {
        let mut out: Vec<OcrBlock> = Vec::new();
        let mut i: usize = 0;
        assert(self.tracks@.take(0) =~= Seq::<Track>::empty());
        while i < self.tracks.len()
            invariant
                i <= self.tracks@.len(),
                out@ == self.settings.shown(self.tracks@.take(i as int), now),
            decreases self.tracks@.len() - i,
        {
            assert(self.tracks@.take(i + 1).drop_last() =~= self.tracks@.take(i as int));
            assert(self.tracks@.take(i + 1).last() == self.tracks@[i as int]);
            let t: &Track = &self.tracks[i];
            if t.confirmed && nanos_between(now, t.last_seen) <= (self.settings.max_miss_ms as u128)
                * 1_000_000 {
                out.push(t.last_block.clone());
            }
            i = i + 1;
        }
        assert(self.tracks@.take(i as int) =~= self.tracks@);
        out
    }

    fn track_retain(&self, confirmed: bool) -> (r: u64)
        ensures
            r == self.settings.retain_ms(confirmed),
    {
        if confirmed || self.settings.max_unstable_ms == 0 || self.settings.max_miss_ms >= self.settings.max_unstable_ms {
            self.settings.max_miss_ms
        } else {
            self.settings.max_unstable_ms
        }
    }

    fn drop_expired(&mut self, now: u128)
        ensures
            final(self).same_settings(*old(self)),
            final(self).tracks@ == old(self).settings.retained(old(self).tracks@, now),
    {
        let mut kept: Vec<Track> = Vec::new();
        let mut i: usize = 0;
        assert(self.tracks@.take(0) =~= Seq::<Track>::empty());
        while i < self.tracks.len()
            invariant
                i <= self.tracks@.len(),
                *self == *old(self),
                kept@ == self.settings.retained(self.tracks@.take(i as int), now),
            decreases self.tracks@.len() - i,
        {
            assert(self.tracks@.take(i + 1).drop_last() =~= self.tracks@.take(i as int));
            assert(self.tracks@.take(i + 1).last() == self.tracks@[i as int]);
            let t: &Track = &self.tracks[i];
            let limit: u64 = self.track_retain(t.confirmed);
            if nanos_between(now, t.last_seen) <= (limit as u128) * 1_000_000 {
                kept.push(t.clone());
            }
            i = i + 1;
        }
        assert(self.tracks@.take(i as int) =~= self.tracks@);
        self.tracks = kept;
    }
}

/// Swap a confirmed track to a new OCR reading (text and box together).
fn adopt_reading(track: &mut Track, block: &OcrBlock, now: u128)
    ensures
        *final(track) == (Track {
            text: block.text,
            bbox: block.bbox,
            last_block: *block,
            pending_text: None,
            pending_since: None,
            thrash_since: None,
            first_stable_since: now,
            ..*old(track)
        }),
{
    track.text = block.text.clone();
    track.bbox = block.bbox;
    track.last_block = block.clone();
    track.pending_text = None;
    track.pending_since = None;
    track.thrash_since = None;
    track.first_stable_since = now;
}

/// The rows of a measure table.
pub open spec fn rows(measures: Seq<Vec<TrackMeasure>>) -> Seq<Seq<TrackMeasure>> {
    measures.map_values(|v: Vec<TrackMeasure>| v@)
}

/// Every block is measured against every track.
pub open spec fn measured(
    tracks: Seq<Track>,
    blocks: Seq<OcrBlock>,
    measures: Seq<Vec<TrackMeasure>>,
) -> bool {
    &&& measures.len() == blocks.len()
    &&& forall|i: int| 0 <= i < measures.len() ==> #[trigger] measures[i]@.len() == tracks.len()
}

/// Row, then column, of a block in whole pixels.
pub open spec fn row_then_column(block: OcrBlock) -> SortKey {
    SortKey {
        major: block.bbox.y.truncated() as i64,
        middle: block.bbox.x.truncated() as i64,
        minor: 0,
    }
}

/// `s` with `block` behind every block that does not come after it.
pub open spec fn inserted_by_row(s: Seq<OcrBlock>, block: OcrBlock) -> Seq<OcrBlock>
    decreases s.len(),
{
    if s.len() == 0 || row_then_column(s.last()).le(row_then_column(block)) {
        s.push(block)
    } else {
        inserted_by_row(s.drop_last(), block).push(s.last())
    }
}

/// `blocks` by row, then column, equal ones in their order.
pub open spec fn by_row(blocks: Seq<OcrBlock>) -> Seq<OcrBlock>
    decreases blocks.len(),
{
    if blocks.len() == 0 {
        blocks
    } else {
        inserted_by_row(by_row(blocks.drop_last()), blocks.last())
    }
}

/// `blocks` by row, then column, equal ones in their order, numbered from zero.
pub open spec fn in_reading_order(blocks: Seq<OcrBlock>) -> Seq<OcrBlock> {
    numbered(by_row(blocks))
}

/// Ordering the positions orders the blocks.
proof fn lemma_ordered_blocks(blocks: Seq<OcrBlock>, keys: Seq<SortKey>, n: nat)
    requires
        n <= blocks.len() <= usize::MAX,
        keys == blocks.map_values(|b: OcrBlock| row_then_column(b)),
    ensures
        positions_below(ordered(keys, all_positions(n)), blocks.len() as int),
        ordered(keys, all_positions(n)).map_values(|i: usize| blocks[i as int]) == by_row(
            blocks.take(n as int),
        ),
    decreases n,
{
    let pick = |i: usize| blocks[i as int];
    let all = all_positions(n);
    lemma_ordered_below(keys, all, blocks.len() as int);
    if n == 0 {
        assert(ordered(keys, all).map_values(pick) =~= by_row(blocks.take(0)));
    } else {
        let m = (n - 1) as nat;
        lemma_ordered_blocks(blocks, keys, m);
        assert(all.drop_last() =~= all_positions(m));
        assert(all.last() == m as usize);
        assert(blocks.take(n as int).drop_last() =~= blocks.take(m as int));
        lemma_placed_block(blocks, keys, ordered(keys, all_positions(m)), m as usize);
    }
}

proof fn lemma_placed_block(
    blocks: Seq<OcrBlock>,
    keys: Seq<SortKey>,
    s: Seq<usize>,
    x: usize,
)
    requires
        positions_below(s, blocks.len() as int),
        x < blocks.len(),
        keys == blocks.map_values(|b: OcrBlock| row_then_column(b)),
    ensures
        placed(keys, s, x).map_values(|i: usize| blocks[i as int]) == inserted_by_row(
            s.map_values(|i: usize| blocks[i as int]),
            blocks[x as int],
        ),
    decreases s.len(),
{
    let pick = |i: usize| blocks[i as int];
    let picked = s.map_values(pick);
    if s.len() == 0 || keys[s.last() as int].le(keys[x as int]) {
        assert(s.push(x).map_values(pick) =~= picked.push(blocks[x as int]));
        if s.len() > 0 {
            assert(picked.last() == blocks[s.last() as int]);
        }
    } else {
        lemma_placed_block(blocks, keys, s.drop_last(), x);
        assert(picked.drop_last() =~= s.drop_last().map_values(pick));
        assert(picked.last() == blocks[s.last() as int]);
        assert(placed(keys, s, x).map_values(pick) =~= placed(keys, s.drop_last(), x).map_values(
            pick,
        ).push(picked.last()));
    }
}

/// Ordering by row and column keeps the blocks and puts them in order.
proof fn lemma_by_row(blocks: Seq<OcrBlock>)
    ensures
        by_row(blocks).len() == blocks.len(),
        forall|i: int|
            0 <= i < by_row(blocks).len() ==> blocks.contains(#[trigger] by_row(blocks)[i]),
        forall|i: int, j: int|
            0 <= i <= j < by_row(blocks).len() ==> row_then_column(#[trigger] by_row(blocks)[i]).le(
                row_then_column(#[trigger] by_row(blocks)[j]),
            ),
    decreases blocks.len(),
{
    if blocks.len() > 0 {
        let rest = blocks.drop_last();
        lemma_by_row(rest);
        lemma_inserted_by_row(by_row(rest), blocks.last());
        let out = by_row(blocks);
        assert forall|i: int| 0 <= i < out.len() implies blocks.contains(#[trigger] out[i]) by {
            if out[i] == blocks.last() {
                assert(blocks[blocks.len() - 1] == out[i]);
            } else {
                let k = choose|k: int| 0 <= k < by_row(rest).len() && by_row(rest)[k] == out[i];
                assert(rest.contains(by_row(rest)[k]));
                let m = choose|m: int| 0 <= m < rest.len() && rest[m] == out[i];
                assert(blocks[m] == out[i]);
            }
        }
    }
}

proof fn lemma_inserted_by_row(s: Seq<OcrBlock>, block: OcrBlock)
    requires
        forall|i: int, j: int|
            0 <= i <= j < s.len() ==> row_then_column(#[trigger] s[i]).le(
                row_then_column(#[trigger] s[j]),
            ),
    ensures
        inserted_by_row(s, block).len() == s.len() + 1,
        forall|i: int|
            0 <= i < inserted_by_row(s, block).len() ==> (#[trigger] inserted_by_row(s, block)[i]
                == block || s.contains(inserted_by_row(s, block)[i])),
        forall|i: int, j: int|
            0 <= i <= j < inserted_by_row(s, block).len() ==> row_then_column(
                #[trigger] inserted_by_row(s, block)[i],
            ).le(row_then_column(#[trigger] inserted_by_row(s, block)[j])),
    decreases s.len(),
{
    let out = inserted_by_row(s, block);
    if s.len() == 0 || row_then_column(s.last()).le(row_then_column(block)) {
        assert forall|i: int| 0 <= i < out.len() implies (#[trigger] out[i] == block || s.contains(
            out[i],
        )) by {
            if i < s.len() {
                assert(s[i] == out[i]);
            }
        }
        assert forall|i: int, j: int| 0 <= i <= j < out.len() implies row_then_column(
            #[trigger] out[i],
        ).le(row_then_column(#[trigger] out[j])) by {
            if i < s.len() {
                assert(row_then_column(s[i]).le(row_then_column(s[s.len() - 1])));
                if j < s.len() {
                    assert(row_then_column(s[i]).le(row_then_column(s[j])));
                }
            }
        }
    } else {
        let rest = s.drop_last();
        lemma_inserted_by_row(rest, block);
        let before = inserted_by_row(rest, block);
        assert forall|i: int| 0 <= i < before.len() implies (#[trigger] before[i] == block
            || s.contains(before[i])) && row_then_column(before[i]).le(row_then_column(s.last())) by {
            if before[i] != block {
                let k = choose|k: int| 0 <= k < rest.len() && rest[k] == before[i];
                assert(s[k] == before[i]);
                assert(row_then_column(s[k]).le(row_then_column(s[s.len() - 1])));
            }
        }
        assert forall|i: int| 0 <= i < out.len() implies (#[trigger] out[i] == block || s.contains(
            out[i],
        )) by {
            if i < before.len() {
                assert(out[i] == before[i]);
            } else {
                assert(s[s.len() - 1] == out[i]);
            }
        }
        assert forall|i: int, j: int| 0 <= i <= j < out.len() implies row_then_column(
            #[trigger] out[i],
        ).le(row_then_column(#[trigger] out[j])) by {
            if i < before.len() {
                assert(out[i] == before[i]);
                if j < before.len() {
                    assert(out[j] == before[j]);
                }
            }
        }
    }
}

/// Sort by row, then column, and number the blocks.
pub fn sort_for_reading(blocks: Vec<OcrBlock>) -> (r: Vec<OcrBlock>)
    ensures
        r@ == in_reading_order(blocks@),
{
    let mut keys: Vec<SortKey> = Vec::new();
    let mut i: usize = 0;
    let ghost key = |b: OcrBlock| row_then_column(b);
    while i < blocks.len()
        invariant
            i <= blocks@.len(),
            key == (|b: OcrBlock| row_then_column(b)),
            keys@ == blocks@.take(i as int).map_values(key),
        decreases blocks@.len() - i,
    {
        keys.push(
            SortKey {
                major: blocks[i].bbox.y.trunc_i32() as i64,
                middle: blocks[i].bbox.x.trunc_i32() as i64,
                minor: 0,
            },
        );
        assert(blocks@.take(i + 1).map_values(key) =~= blocks@.take(i as int).map_values(key).push(
            row_then_column(blocks@[i as int]),
        ));
        i = i + 1;
    }
    assert(blocks@.take(i as int) =~= blocks@);
    let all: Vec<usize> = positions(blocks.len());
    let order: Vec<usize> = stable_order(&keys, &all);
    proof {
        lemma_ordered_blocks(blocks@, keys@, blocks@.len());
    }
    let mut out: Vec<OcrBlock> = Vec::new();
    let mut j: usize = 0;
    let ghost pick = |i: usize| blocks@[i as int];
    while j < order.len()
        invariant
            j <= order@.len(),
            pick == (|i: usize| blocks@[i as int]),
            positions_below(order@, blocks@.len() as int),
            out@ == order@.take(j as int).map_values(pick),
        decreases order@.len() - j,
    {
        assert(order@[j as int] < blocks@.len());
        out.push(blocks[order[j]].clone());
        assert(order@.take(j + 1).map_values(pick) =~= order@.take(j as int).map_values(pick).push(
            blocks@[order@[j as int] as int],
        ));
        j = j + 1;
    }
    assert(order@.take(j as int) =~= order@);
    reindex(out)
}

/// A track is claimed by at most one block of a frame: the best track is one that no earlier
/// block of the frame has claimed.
pub proof fn law_claimed_tracks_are_skipped(
    tracks: Seq<Track>,
    claimed: Seq<bool>,
    block: OcrBlock,
    row: Seq<TrackMeasure>,
    n: int,
)
    ensures
        best_track(tracks, claimed, block, row, n) matches Some(i) ==> 0 <= i < n && !claimed[i]
            && row[i].in_reach(same_reading(tracks[i], block)),
    decreases n,
{
    if n > 0 {
        law_claimed_tracks_are_skipped(tracks, claimed, block, row, n - 1);
    }
}

/// Frames only add tracks before the expiry: every block continues one track or starts one, so a
/// frame has at most one new track for each of its blocks, and as many claims as tracks.
pub proof fn law_frame_adds_at_most_one_track_per_block(
    filter: Persistence,
    tracks: Seq<Track>,
    blocks: Seq<OcrBlock>,
    measures: Seq<Seq<TrackMeasure>>,
    now: u128,
    n: int,
)
    requires
        0 <= n <= blocks.len(),
    ensures
        ({
            let (ts, claimed) = filter.after_blocks(tracks, blocks, measures, now, n);
            claimed.len() == ts.len() && tracks.len() <= ts.len() <= tracks.len() + n
        }),
    decreases n,
{
    if n > 0 {
        law_frame_adds_at_most_one_track_per_block(filter, tracks, blocks, measures, now, n - 1);
        let (ts, claimed) = filter.after_blocks(tracks, blocks, measures, now, n - 1);
        law_claimed_tracks_are_skipped(
            ts,
            claimed,
            blocks[n - 1],
            measures[n - 1],
            tracks.len() as int,
        );
    }
}

/// A confirmed track that is read again keeps its text and its box: only the confidence of the
/// shown sample follows the reading.
pub proof fn law_confirmed_box_is_frozen(
    filter: Persistence,
    track: Track,
    block: OcrBlock,
    now: u128,
)
    requires
        track.confirmed,
        same_reading(track, block),
    ensures
        ({
            let t = filter.updated(track, block, now);
            &&& t.confirmed
            &&& t.text == track.text
            &&& t.bbox == track.bbox
            &&& t.last_block == (OcrBlock { confidence: block.confidence, ..track.last_block })
        }),
{
}

/// A confirmed track that reads another text shows what it showed, until it takes over text and
/// box of the reading together.
pub proof fn law_pending_text_changes_nothing_shown(
    filter: Persistence,
    track: Track,
    block: OcrBlock,
    now: u128,
)
    requires
        track.confirmed,
        !same_reading(track, block),
    ensures
        ({
            let t = filter.updated(track, block, now);
            &&& t.confirmed
            &&& if filter.adopts(track, block, now) {
                t.text == block.text && t.bbox == block.bbox && t.last_block == block
            } else {
                t.text == track.text && t.bbox == track.bbox && t.last_block == track.last_block
            }
        }),
{
}

/// A spot whose text keeps changing is confirmed once the limit for unsettled text has passed
/// since its first sighting.
pub proof fn law_thrashing_track_is_confirmed(
    filter: Persistence,
    track: Track,
    block: OcrBlock,
    now: u128,
)
    requires
        filter.max_unstable_ms > 0,
        lasted(now, track.first_seen, filter.max_unstable_ms),
    ensures
        filter.updated(track, block, now).confirmed,
        filter.updated(track, block, now).first_seen == track.first_seen,
{
}

/// An unconfirmed track is kept at least as long as the limit for unsettled text, and no track
/// is dropped while it is shown.
pub proof fn law_tracks_live_long_enough(filter: Persistence)
    ensures
        filter.retain_ms(false) >= filter.max_unstable_ms,
        filter.retain_ms(false) >= filter.max_miss_ms,
        filter.retain_ms(true) == filter.max_miss_ms,
{
}

/// A frame without blocks shows what is confirmed and within the miss grace: vanished text stays
/// for a short while.
pub proof fn law_missed_frame_keeps_confirmed(
    filter: Persistence,
    tracks: Seq<Track>,
    measures: Seq<Seq<TrackMeasure>>,
    now: u128,
    i: int,
)
    requires
        0 <= i < tracks.len(),
        filter.shows(tracks[i], now),
    ensures
        filter.after_blocks(tracks, Seq::empty(), measures, now, 0).0 == tracks,
        filter.shown(tracks, now).contains(tracks[i].last_block),
    decreases tracks.len(),
{
    let t = tracks.drop_last();
    let out = filter.shown(tracks, now);
    if i == tracks.len() - 1 {
        assert(out.last() == tracks[i].last_block);
    } else {
        assert(t[i] == tracks[i]);
        law_missed_frame_keeps_confirmed(filter, t, measures, now, i);
        let before = filter.shown(t, now);
        let k = choose|k: int| 0 <= k < before.len() && before[k] == tracks[i].last_block;
        assert(out[k] == before[k]);
    }
}

/// A frame that was handed to a filter.
pub struct Reading {
    pub blocks: Seq<OcrBlock>,
    pub measures: Seq<Seq<TrackMeasure>>,
    pub now: u128,
}

impl Persistence {
    /// The tracks of a filter that has been handed the readings since it last had none.
    pub open spec fn tracks_after(self, history: Seq<Reading>) -> Seq<Track>
        decreases history.len(),
    {
        if history.len() == 0 {
            Seq::empty()
        } else {
            let f = history.last();
            self.kept(self.tracks_after(history.drop_last()), f.blocks, f.measures, f.now)
        }
    }

    /// What the last of the readings made the filter emit.
    pub open spec fn emitted_after(self, history: Seq<Reading>) -> Seq<OcrBlock> {
        let f = history.last();
        self.emitted(self.tracks_after(history.drop_last()), f.blocks, f.measures, f.now)
    }

    /// The tracks at the last of the readings, before any of them expires.
    pub open spec fn tracks_at(self, history: Seq<Reading>) -> Seq<Track> {
        let f = history.last();
        self.after_blocks(
            self.tracks_after(history.drop_last()),
            f.blocks,
            f.measures,
            f.now,
            f.blocks.len() as int,
        ).0
    }
}

/// One of the readings had a block with this text and this box, and the text is not blank.
pub open spec fn was_read(history: Seq<Reading>, block: OcrBlock) -> bool {
    normalized(block.text@).len() > 0 && exists|f: int, b: int|
        #![trigger history[f].blocks[b]]
        0 <= f < history.len() && 0 <= b < history[f].blocks.len() && history[f].blocks[b].text
            == block.text && history[f].blocks[b].bbox == block.bbox
}

spec fn all_read(history: Seq<Reading>, tracks: Seq<Track>) -> bool {
    forall|i: int| 0 <= i < tracks.len() ==> was_read(history, (#[trigger] tracks[i]).last_block)
}

/// Of any history, whatever a filter that is switched on emits was read: each block has the text
/// and the box of one block of this or an earlier reading, and is not blank. The blocks come by
/// row, then by column, and are numbered from zero.
pub proof fn law_emitted_blocks_were_read(filter: Persistence, history: Seq<Reading>)
    requires
        filter.persist_ms > 0,
        history.len() > 0,
    ensures
        ({
            let out = filter.emitted_after(history);
            &&& forall|i: int|
                0 <= i < out.len() ==> (#[trigger] out[i]).id == i as u32 && was_read(
                    history,
                    out[i],
                )
            &&& forall|i: int, j: int|
                0 <= i <= j < out.len() ==> row_then_column(#[trigger] out[i]).le(
                    row_then_column(#[trigger] out[j]),
                )
        }),
{
    let f = history.last();
    let before = history.drop_last();
    let n = f.blocks.len() as int;
    lemma_tracks_read(filter, before);
    lemma_history_grows(before, f, filter.tracks_after(before));
    assert(before.push(f) =~= history);
    let tracks = filter.tracks_at(history);
    lemma_frame_read(filter, filter.tracks_after(before), history, n);
    let samples = filter.shown(tracks, f.now);
    lemma_shown_read(filter, history, tracks, f.now);
    lemma_by_row(samples);
    let order = by_row(samples);
    let out = filter.emitted_after(history);
    assert forall|i: int| 0 <= i < out.len() implies (#[trigger] out[i]).id == i as u32
        && was_read(history, out[i]) && row_then_column(out[i]) == row_then_column(order[i]) by {
        assert(samples.contains(order[i]));
        let k = choose|k: int| 0 <= k < samples.len() && samples[k] == order[i];
        assert(was_read(history, samples[k]));
        assert(out[i] == (OcrBlock { id: i as u32, ..order[i] }));
    }
    assert forall|i: int, j: int| 0 <= i <= j < out.len() implies row_then_column(
        #[trigger] out[i],
    ).le(row_then_column(#[trigger] out[j])) by {
        assert(row_then_column(order[i]).le(row_then_column(order[j])));
    }
}

proof fn lemma_was_read_longer(history: Seq<Reading>, f: Reading, block: OcrBlock)
    requires
        was_read(history, block),
    ensures
        was_read(history.push(f), block),
{
    let (g, b) = choose|g: int, b: int|
        #![trigger history[g].blocks[b]]
        0 <= g < history.len() && 0 <= b < history[g].blocks.len() && history[g].blocks[b].text
            == block.text && history[g].blocks[b].bbox == block.bbox;
    assert(history.push(f)[g].blocks[b] == history[g].blocks[b]);
}

proof fn lemma_history_grows(history: Seq<Reading>, f: Reading, tracks: Seq<Track>)
    requires
        all_read(history, tracks),
    ensures
        all_read(history.push(f), tracks),
{
    assert forall|i: int| 0 <= i < tracks.len() implies was_read(
        history.push(f),
        (#[trigger] tracks[i]).last_block,
    ) by {
        lemma_was_read_longer(history, f, tracks[i].last_block);
    }
}

proof fn lemma_tracks_read(filter: Persistence, history: Seq<Reading>)
    requires
        filter.persist_ms > 0,
    ensures
        all_read(history, filter.tracks_after(history)),
    decreases history.len(),
{
    if history.len() > 0 {
        let f = history.last();
        let before = history.drop_last();
        lemma_tracks_read(filter, before);
        lemma_history_grows(before, f, filter.tracks_after(before));
        assert(before.push(f) =~= history);
        lemma_frame_read(filter, filter.tracks_after(before), history, f.blocks.len() as int);
        lemma_retained_read(filter, history, filter.tracks_at(history), f.now);
    }
}

proof fn lemma_frame_read(filter: Persistence, tracks: Seq<Track>, history: Seq<Reading>, n: int)
    requires
        history.len() > 0,
        0 <= n <= history.last().blocks.len(),
        all_read(history, tracks),
    ensures
        ({
            let f = history.last();
            all_read(history, filter.after_blocks(tracks, f.blocks, f.measures, f.now, n).0)
        }),
    decreases n,
{
    if n > 0 {
        let f = history.last();
        lemma_frame_read(filter, tracks, history, n - 1);
        let (ts, claimed) = filter.after_blocks(tracks, f.blocks, f.measures, f.now, n - 1);
        let block = f.blocks[n - 1];
        law_frame_adds_at_most_one_track_per_block(
            filter,
            tracks,
            f.blocks,
            f.measures,
            f.now,
            n - 1,
        );
        law_claimed_tracks_are_skipped(ts, claimed, block, f.measures[n - 1], tracks.len() as int);
        if normalized(block.text@).len() > 0 {
            assert(history[history.len() - 1].blocks[n - 1] == block);
            assert(was_read(history, block));
            match best_track(ts, claimed, block, f.measures[n - 1], tracks.len() as int) {
                Some(i) => {
                    assert(was_read(history, ts[i].last_block));
                    assert(was_read(history, filter.updated(ts[i], block, f.now).last_block));
                },
                None => {
                    assert(was_read(history, started(block, f.now).last_block));
                },
            }
        }
    }
}

proof fn lemma_retained_read(
    filter: Persistence,
    history: Seq<Reading>,
    tracks: Seq<Track>,
    now: u128,
)
    requires
        all_read(history, tracks),
    ensures
        all_read(history, filter.retained(tracks, now)),
    decreases tracks.len(),
{
    if tracks.len() > 0 {
        let rest = tracks.drop_last();
        assert(all_read(history, rest)) by {
            assert forall|i: int| 0 <= i < rest.len() implies was_read(
                history,
                (#[trigger] rest[i]).last_block,
            ) by {
                assert(rest[i] == tracks[i]);
            }
        }
        lemma_retained_read(filter, history, rest, now);
        assert(was_read(history, tracks[tracks.len() - 1].last_block));
    }
}

proof fn lemma_shown_read(
    filter: Persistence,
    history: Seq<Reading>,
    tracks: Seq<Track>,
    now: u128,
)
    requires
        all_read(history, tracks),
    ensures
        filter.shown(tracks, now).len() <= tracks.len(),
        forall|i: int|
            0 <= i < filter.shown(tracks, now).len() ==> was_read(
                history,
                #[trigger] filter.shown(tracks, now)[i],
            ),
    decreases tracks.len(),
{
    if tracks.len() > 0 {
        let rest = tracks.drop_last();
        assert(all_read(history, rest)) by {
            assert forall|i: int| 0 <= i < rest.len() implies was_read(
                history,
                (#[trigger] rest[i]).last_block,
            ) by {
                assert(rest[i] == tracks[i]);
            }
        }
        lemma_shown_read(filter, history, rest, now);
        assert(was_read(history, tracks[tracks.len() - 1].last_block));
    }
}

/// In reading `f`, a block with text was where track `k` is, or started it: the distance of the
/// centers is within its limits, and text that differs also overlaps or is nearly in place. The
/// track was last seen then.
pub open spec fn sighted(filter: Persistence, history: Seq<Reading>, f: int, k: int) -> bool {
    let known = filter.tracks_after(history.take(f));
    let tracks = filter.tracks_at(history.take(f + 1));
    &&& 0 <= f < history.len()
    &&& 0 <= k < tracks.len()
    &&& tracks[k].last_seen == history[f].now
    &&& exists|b: int|
        #![trigger history[f].blocks[b]]
        0 <= b < history[f].blocks.len() && normalized(history[f].blocks[b].text@).len() > 0 && (k
            >= known.len() || near_track(known[k], history[f].blocks[b], history[f].measures[b][k]))
}

/// The block lies where the track is.
pub open spec fn near_track(track: Track, block: OcrBlock, m: TrackMeasure) -> bool {
    &&& !m.max_dx.less(m.dx)
    &&& !m.max_dy.less(m.dy)
    &&& normalized(track.text@) == normalized(block.text@) || !(m.iou.less(
        Scalar { bits: IOU_TOUCHING },
    ) && (m.near_dx.less(m.dx) || m.near_dy.less(m.dy)))
}

/// Track `k` is as it was, or a block of the frame was where it is.
spec fn frame_sight(
    known: Seq<Track>,
    blocks: Seq<OcrBlock>,
    measures: Seq<Seq<TrackMeasure>>,
    now: u128,
    n: int,
    ts: Seq<Track>,
    k: int,
) -> bool {
    ||| k < known.len() && ts[k] == known[k]
    ||| ts[k].last_seen == now && exists|b: int|
        #![trigger blocks[b]]
        0 <= b < n && normalized(blocks[b].text@).len() > 0 && (k >= known.len() || near_track(
            known[k],
            blocks[b],
            measures[b][k],
        ))
}

proof fn lemma_frame_sights(
    filter: Persistence,
    known: Seq<Track>,
    blocks: Seq<OcrBlock>,
    measures: Seq<Seq<TrackMeasure>>,
    now: u128,
    n: int,
)
    requires
        0 <= n <= blocks.len(),
    ensures
        ({
            let (ts, claimed) = filter.after_blocks(known, blocks, measures, now, n);
            &&& claimed.len() == ts.len()
            &&& ts.len() >= known.len()
            &&& forall|k: int|
                0 <= k < known.len() && !claimed[k] ==> #[trigger] ts[k] == known[k]
            &&& forall|k: int|
                0 <= k < ts.len() ==> frame_sight(
                    known,
                    blocks,
                    measures,
                    now,
                    n,
                    ts,
                    k,
                ) && #[trigger] ts[k] == ts[k]
        }),
    decreases n,
{
    if n > 0 {
        lemma_frame_sights(filter, known, blocks, measures, now, n - 1);
        let (before, claimed) = filter.after_blocks(known, blocks, measures, now, n - 1);
        let (ts, after_claimed) = filter.after_blocks(known, blocks, measures, now, n);
        let block = blocks[n - 1];
        let row = measures[n - 1];
        law_claimed_tracks_are_skipped(before, claimed, block, row, known.len() as int);
        assert forall|k: int| 0 <= k < ts.len() implies frame_sight(
            known,
            blocks,
            measures,
            now,
            n,
            ts,
            k,
        ) && #[trigger] ts[k] == ts[k] by {
            if k < before.len() && ts[k] == before[k] {
                assert(before[k] == before[k]);
                assert(frame_sight(known, blocks, measures, now, n - 1, before, k));
                if !(k < known.len() && ts[k] == known[k]) {
                    let b = choose|b: int|
                        #![trigger blocks[b]]
                        0 <= b < n - 1 && normalized(blocks[b].text@).len() > 0 && (k >= known.len()
                            || near_track(known[k], blocks[b], measures[b][k]));
                    assert(blocks[b] == blocks[b]);
                }
            } else {
                assert(blocks[n - 1] == block);
                if k < before.len() {
                    assert(before[k] == known[k]);
                    assert(near_track(known[k], block, row[k]));
                }
            }
        }
    }
}

proof fn lemma_known_sighted(filter: Persistence, history: Seq<Reading>, t: int)
    requires
        filter.persist_ms > 0,
        0 <= t < filter.tracks_after(history).len(),
    ensures
        exists|f: int, k: int| #[trigger]
            sighted(filter, history, f, k) && filter.tracks_at(history.take(f + 1))[k]
                == filter.tracks_after(history)[t],
        history.len() > 0,
    decreases history.len(), 1int,
{
    let last = history.last();
    let tracks = filter.tracks_at(history);
    let kept = filter.retained(tracks, last.now);
    lemma_retained_from(filter, tracks, last.now);
    let k = choose|k: int| 0 <= k < tracks.len() && #[trigger] tracks[k] == kept[t];
    lemma_current_sighted(filter, history, k);
}

proof fn lemma_current_sighted(filter: Persistence, history: Seq<Reading>, k: int)
    requires
        filter.persist_ms > 0,
        history.len() > 0,
        0 <= k < filter.tracks_at(history).len(),
    ensures
        exists|f: int, j: int| #[trigger]
            sighted(filter, history, f, j) && filter.tracks_at(history.take(f + 1))[j]
                == filter.tracks_at(history)[k],
    decreases history.len(), 0int,
{
    let n = history.len() - 1;
    let last = history.last();
    let before = history.drop_last();
    assert(history.take(n + 1) =~= history);
    assert(history.take(n) =~= before);
    let known = filter.tracks_after(before);
    let ts = filter.tracks_at(history);
    lemma_frame_sights(filter, known, last.blocks, last.measures, last.now, last.blocks.len() as int);
    assert(ts[k] == ts[k]);
    if k < known.len() && ts[k] == known[k] {
        lemma_known_sighted(filter, before, k);
        let (f, j) = choose|f: int, j: int| #[trigger]
            sighted(filter, before, f, j) && filter.tracks_at(before.take(f + 1))[j] == known[k];
        assert(before.take(f) =~= history.take(f));
        assert(before.take(f + 1) =~= history.take(f + 1));
        assert(before[f] == history[f]);
        let b = choose|b: int|
            #![trigger before[f].blocks[b]]
            0 <= b < before[f].blocks.len() && normalized(before[f].blocks[b].text@).len() > 0 && (j
                >= filter.tracks_after(before.take(f)).len() || near_track(
                filter.tracks_after(before.take(f))[j],
                before[f].blocks[b],
                before[f].measures[b][j],
            ));
        assert(history[f].blocks[b] == before[f].blocks[b]);
        assert(sighted(filter, history, f, j));
    } else {
        let b = choose|b: int|
            #![trigger last.blocks[b]]
            0 <= b < last.blocks.len() && normalized(last.blocks[b].text@).len() > 0 && (k
                >= known.len() || near_track(known[k], last.blocks[b], last.measures[b][k]));
        assert(history[n].blocks[b] == last.blocks[b]);
        assert(sighted(filter, history, n, k));
    }
}

proof fn lemma_retained_from(filter: Persistence, tracks: Seq<Track>, now: u128)
    ensures
        ({
            let kept = filter.retained(tracks, now);
            forall|t: int|
                0 <= t < kept.len() ==> (exists|k: int|
                    0 <= k < tracks.len() && #[trigger] tracks[k] == kept[t]) && (
                (#[trigger] kept[t]).confirmed ==> now <= kept[t].last_seen + filter.max_miss_ms
                    * 1_000_000)
        }),
    decreases tracks.len(),
{
    if tracks.len() > 0 {
        let rest = tracks.drop_last();
        lemma_retained_from(filter, rest, now);
        let before = filter.retained(rest, now);
        let kept = filter.retained(tracks, now);
        assert forall|t: int| 0 <= t < kept.len() implies (exists|k: int|
            0 <= k < tracks.len() && #[trigger] tracks[k] == kept[t]) && ((
        #[trigger] kept[t]).confirmed ==> now <= kept[t].last_seen + filter.max_miss_ms * 1_000_000) by {
            if t < before.len() {
                assert(kept[t] == before[t]);
                let k = choose|k: int| 0 <= k < rest.len() && #[trigger] rest[k] == before[t];
                assert(tracks[k] == kept[t]);
            } else {
                assert(tracks[tracks.len() - 1] == kept[t]);
            }
        }
    }
}

/// The block is the sample of a confirmed track that was seen within the miss grace.
spec fn sample_of(filter: Persistence, tracks: Seq<Track>, now: u128, block: OcrBlock) -> bool {
    exists|k: int|
        0 <= k < tracks.len() && (#[trigger] tracks[k]).last_block == block && tracks[k].confirmed
            && now <= tracks[k].last_seen + filter.max_miss_ms * 1_000_000
}

proof fn lemma_shown_from(filter: Persistence, tracks: Seq<Track>, now: u128)
    ensures
        forall|i: int|
            0 <= i < filter.shown(tracks, now).len() ==> sample_of(
                filter,
                tracks,
                now,
                #[trigger] filter.shown(tracks, now)[i],
            ),
    decreases tracks.len(),
{
    if tracks.len() > 0 {
        let rest = tracks.drop_last();
        lemma_shown_from(filter, rest, now);
        let before = filter.shown(rest, now);
        let out = filter.shown(tracks, now);
        assert forall|i: int| 0 <= i < out.len() implies sample_of(
            filter,
            tracks,
            now,
            #[trigger] out[i],
        ) by {
            if i < before.len() {
                assert(out[i] == before[i]);
                let k = choose|k: int|
                    0 <= k < rest.len() && (#[trigger] rest[k]).last_block == before[i]
                        && rest[k].confirmed && now <= rest[k].last_seen + filter.max_miss_ms
                        * 1_000_000;
                assert(tracks[k] == rest[k]);
            } else {
                assert(tracks[tracks.len() - 1].last_block == out[i]);
            }
        }
    }
}

/// In a reading no older than the miss grace, a track with the text and the box of the block was
/// sighted.
pub open spec fn seen_within_grace(
    filter: Persistence,
    history: Seq<Reading>,
    block: OcrBlock,
) -> bool {
    exists|f: int, k: int| #[trigger]
        sighted(filter, history, f, k) && history.last().now <= history[f].now + filter.max_miss_ms
            * 1_000_000 && filter.tracks_at(history.take(f + 1))[k].last_block.text == block.text
            && filter.tracks_at(history.take(f + 1))[k].last_block.bbox == block.bbox
}

/// Text that left the screen is not shown for longer than the miss grace: every block that is
/// emitted has the text and the box of a track that, in a reading no older than the grace, was
/// sighted where it is. No confirmed track that was last seen earlier is kept.
pub proof fn law_vanished_text_is_dropped(filter: Persistence, history: Seq<Reading>)
    requires
        filter.persist_ms > 0,
        history.len() > 0,
    ensures
        forall|i: int|
            0 <= i < filter.emitted_after(history).len() ==> seen_within_grace(
                filter,
                history,
                #[trigger] filter.emitted_after(history)[i],
            ),
        forall|t: int|
            0 <= t < filter.tracks_after(history).len() && (
            #[trigger] filter.tracks_after(history)[t]).confirmed ==> history.last().now
                <= filter.tracks_after(history)[t].last_seen + filter.max_miss_ms * 1_000_000,
{
    let now = history.last().now;
    let tracks = filter.tracks_at(history);
    lemma_retained_from(filter, tracks, now);
    lemma_shown_from(filter, tracks, now);
    let samples = filter.shown(tracks, now);
    lemma_by_row(samples);
    let order = by_row(samples);
    let out = filter.emitted_after(history);
    assert forall|i: int| 0 <= i < out.len() implies seen_within_grace(
        filter,
        history,
        #[trigger] out[i],
    ) by {
        assert(out[i] == (OcrBlock { id: i as u32, ..order[i] }));
        assert(samples.contains(order[i]));
        let m = choose|m: int| 0 <= m < samples.len() && samples[m] == order[i];
        assert(sample_of(filter, tracks, now, samples[m]));
        let k = choose|k: int|
            0 <= k < tracks.len() && (#[trigger] tracks[k]).last_block == samples[m]
                && tracks[k].confirmed && now <= tracks[k].last_seen + filter.max_miss_ms
                * 1_000_000;
        lemma_current_sighted(filter, history, k);
        let (f, j) = choose|f: int, j: int| #[trigger]
            sighted(filter, history, f, j) && filter.tracks_at(history.take(f + 1))[j] == tracks[k];
        assert(sighted(filter, history, f, j));
    }
}

/// Confirmed text that was seen within the miss grace is shown, and kept for the next frame,
/// whether or not it is read in this one.
pub proof fn law_recent_text_is_shown(
    filter: Persistence,
    tracks: Seq<Track>,
    blocks: Seq<OcrBlock>,
    measures: Seq<Seq<TrackMeasure>>,
    now: u128,
    k: int,
)
    requires
        filter.persist_ms > 0,
        ({
            let ts = filter.after_blocks(tracks, blocks, measures, now, blocks.len() as int).0;
            &&& 0 <= k < ts.len()
            &&& ts[k].confirmed
            &&& now <= ts[k].last_seen + filter.max_miss_ms * 1_000_000
        }),
    ensures
        ({
            let t = filter.after_blocks(tracks, blocks, measures, now, blocks.len() as int).0[k];
            let out = filter.emitted(tracks, blocks, measures, now);
            &&& filter.kept(tracks, blocks, measures, now).contains(t)
            &&& exists|i: int|
                0 <= i < out.len() && (#[trigger] out[i]).text == t.last_block.text && out[i].bbox
                    == t.last_block.bbox && out[i].confidence == t.last_block.confidence
                    && out[i].source_lines == t.last_block.source_lines
        }),
{
    let ts = filter.after_blocks(tracks, blocks, measures, now, blocks.len() as int).0;
    let samples = filter.shown(ts, now);
    lemma_shown_has(filter, ts, now, k);
    lemma_retained_has(filter, ts, now, k);
    let m = choose|m: int| 0 <= m < samples.len() && samples[m] == ts[k].last_block;
    lemma_by_row_keeps(samples, m);
    let order = by_row(samples);
    let i = choose|i: int| 0 <= i < order.len() && order[i] == samples[m];
    let out = filter.emitted(tracks, blocks, measures, now);
    assert(out[i] == (OcrBlock { id: i as u32, ..order[i] }));
}

proof fn lemma_shown_has(filter: Persistence, tracks: Seq<Track>, now: u128, k: int)
    requires
        0 <= k < tracks.len(),
        tracks[k].confirmed,
        now <= tracks[k].last_seen + filter.max_miss_ms * 1_000_000,
    ensures
        filter.shown(tracks, now).contains(tracks[k].last_block),
    decreases tracks.len(),
{
    let rest = tracks.drop_last();
    let out = filter.shown(tracks, now);
    if k == tracks.len() - 1 {
        assert(out[out.len() - 1] == tracks[k].last_block);
    } else {
        assert(rest[k] == tracks[k]);
        lemma_shown_has(filter, rest, now, k);
        let before = filter.shown(rest, now);
        let m = choose|m: int| 0 <= m < before.len() && before[m] == tracks[k].last_block;
        assert(out[m] == before[m]);
    }
}

proof fn lemma_retained_has(filter: Persistence, tracks: Seq<Track>, now: u128, k: int)
    requires
        0 <= k < tracks.len(),
        now <= tracks[k].last_seen + filter.max_miss_ms * 1_000_000,
    ensures
        filter.retained(tracks, now).contains(tracks[k]),
    decreases tracks.len(),
{
    let rest = tracks.drop_last();
    let out = filter.retained(tracks, now);
    if k == tracks.len() - 1 {
        assert(out[out.len() - 1] == tracks[k]);
    } else {
        assert(rest[k] == tracks[k]);
        lemma_retained_has(filter, rest, now, k);
        let before = filter.retained(rest, now);
        let m = choose|m: int| 0 <= m < before.len() && before[m] == tracks[k];
        assert(out[m] == before[m]);
    }
}

proof fn lemma_by_row_keeps(blocks: Seq<OcrBlock>, m: int)
    requires
        0 <= m < blocks.len(),
    ensures
        by_row(blocks).contains(blocks[m]),
    decreases blocks.len(),
{
    let rest = blocks.drop_last();
    lemma_inserted_keeps(by_row(rest), blocks.last());
    if m < rest.len() {
        lemma_by_row_keeps(rest, m);
        assert(rest[m] == blocks[m]);
    }
}

proof fn lemma_inserted_keeps(s: Seq<OcrBlock>, block: OcrBlock)
    ensures
        inserted_by_row(s, block).contains(block),
        forall|b: OcrBlock| s.contains(b) ==> #[trigger] inserted_by_row(s, block).contains(b),
    decreases s.len(),
{
    let out = inserted_by_row(s, block);
    if s.len() == 0 || row_then_column(s.last()).le(row_then_column(block)) {
        assert(out[out.len() - 1] == block);
        assert forall|b: OcrBlock| s.contains(b) implies #[trigger] out.contains(b) by {
            let i = choose|i: int| 0 <= i < s.len() && s[i] == b;
            assert(out[i] == b);
        }
    } else {
        let rest = s.drop_last();
        lemma_inserted_keeps(rest, block);
        let before = inserted_by_row(rest, block);
        let j = choose|j: int| 0 <= j < before.len() && before[j] == block;
        assert(out[j] == block);
        assert forall|b: OcrBlock| s.contains(b) implies #[trigger] out.contains(b) by {
            let i = choose|i: int| 0 <= i < s.len() && s[i] == b;
            if i < rest.len() {
                assert(rest[i] == b);
                assert(before.contains(b));
                let m = choose|m: int| 0 <= m < before.len() && before[m] == b;
                assert(out[m] == b);
            } else {
                assert(out[out.len() - 1] == b);
            }
        }
    }
}

/// A track that reads the same text again is confirmed when the text has lingered for the
/// persistence, or the spot has been unsettled for its limit, and not before.
pub proof fn law_lingering_text_is_confirmed(
    filter: Persistence,
    track: Track,
    block: OcrBlock,
    now: u128,
)
    requires
        filter.persist_ms > 0,
        normalized(track.text@) == normalized(block.text@),
    ensures
        ({
            let t = filter.updated(track, block, now);
            &&& t.confirmed <==> track.confirmed || now >= track.first_stable_since
                + filter.persist_ms * 1_000_000 || (filter.max_unstable_ms > 0 && now
                >= track.first_seen + filter.max_unstable_ms * 1_000_000)
            &&& t.last_seen == now
            &&& t.first_seen == track.first_seen
            &&& t.first_stable_since == track.first_stable_since
            &&& t.text == track.text
            &&& t.pending_text is None
            &&& t.thrash_since is None
            &&& !track.confirmed ==> t.bbox == block.bbox && t.last_block == block
        }),
{
}

/// A track that is not confirmed and reads another text follows the reading, and its time starts
/// over; it is confirmed only if the spot has been unsettled for its limit.
pub proof fn law_flickering_text_starts_over(
    filter: Persistence,
    track: Track,
    block: OcrBlock,
    now: u128,
)
    requires
        filter.persist_ms > 0,
        normalized(track.text@) != normalized(block.text@),
        !track.confirmed,
    ensures
        ({
            let t = filter.updated(track, block, now);
            &&& t.confirmed <==> filter.max_unstable_ms > 0 && now >= track.first_seen
                + filter.max_unstable_ms * 1_000_000
            &&& t.text == block.text
            &&& t.bbox == block.bbox
            &&& t.last_block == block
            &&& t.first_seen == track.first_seen
            &&& t.first_stable_since == now
            &&& t.last_seen == now
        }),
{
}

/// A confirmed track takes another text over, with its box, when that text has been read for the
/// persistence, or texts other than its own for the limit of unsettled text; until then it shows
/// what it showed, and remembers what it waits for.
pub proof fn law_other_text_takes_over(
    filter: Persistence,
    track: Track,
    block: OcrBlock,
    now: u128,
)
    requires
        filter.persist_ms > 0,
        track.confirmed,
        normalized(track.text@) != normalized(block.text@),
    ensures
        ({
            let t = filter.updated(track, block, now);
            let lingered = track.pending_text matches Some(p) && normalized(p@) == normalized(
                block.text@,
            ) && (track.pending_since matches Some(since) && now >= since + filter.persist_ms
                * 1_000_000);
            let thrashed = filter.max_unstable_ms > 0 && (track.thrash_since matches Some(since)
                && now >= since + filter.max_unstable_ms * 1_000_000);
            &&& t.confirmed
            &&& t.last_seen == now
            &&& lingered || thrashed ==> t.text == block.text && t.bbox == block.bbox
                && t.last_block == block && t.pending_text is None && t.thrash_since is None
            &&& !lingered && !thrashed ==> {
                &&& t.text == track.text
                &&& t.bbox == track.bbox
                &&& t.last_block == track.last_block
                &&& t.thrash_since == Some(
                    match track.thrash_since {
                        Some(since) => since,
                        None => now,
                    },
                )
                &&& (t.pending_text matches Some(p) && normalized(p@) == normalized(block.text@))
                &&& t.pending_since == if (track.pending_text matches Some(p) && normalized(p@)
                    == normalized(block.text@)) {
                    track.pending_since
                } else {
                    Some(now)
                }
            }
        }),
{
}

/// A block that lies at a track continues one: the track with the best score among those that no
/// other block continues, where scores are numbers. A block that lies at none starts a track.
pub proof fn law_block_continues_the_best_track(
    tracks: Seq<Track>,
    claimed: Seq<bool>,
    block: OcrBlock,
    row: Seq<TrackMeasure>,
    n: int,
)
    requires
        0 <= n <= tracks.len(),
        n <= row.len(),
        n <= claimed.len(),
        forall|i: int|
            0 <= i < n ==> !(#[trigger] row[i]).score_same_text.nan()
                && !row[i].score_other_text.nan(),
    ensures
        match best_track(tracks, claimed, block, row, n) {
            Some(b) => {
                &&& 0 <= b < n
                &&& !claimed[b]
                &&& near_track(tracks[b], block, row[b])
                &&& forall|i: int|
                    0 <= i < n && !claimed[i] && near_track(tracks[i], block, #[trigger] row[i])
                        ==> (if normalized(tracks[i].text@) == normalized(block.text@) {
                        row[i].score_same_text.rank()
                    } else {
                        row[i].score_other_text.rank()
                    }) <= (if normalized(tracks[b].text@) == normalized(block.text@) {
                        row[b].score_same_text.rank()
                    } else {
                        row[b].score_other_text.rank()
                    })
            },
            None => forall|i: int|
                0 <= i < n && !claimed[i] ==> !near_track(tracks[i], block, #[trigger] row[i]),
        },
    decreases n,
{
    if n > 0 {
        law_block_continues_the_best_track(tracks, claimed, block, row, n - 1);
        assert(row[n - 1] == row[n - 1]);
    }
}

/// Readings come in the order of their times.
pub open spec fn in_time_order(history: Seq<Reading>) -> bool {
    forall|i: int, j: int|
        0 <= i <= j < history.len() ==> (#[trigger] history[i]).now <= (#[trigger] history[j]).now
}

/// A confirmed track was on screen for the persistence, or for the limit of unsettled text.
spec fn has_lingered(filter: Persistence, t: Track, now: u128) -> bool {
    &&& t.first_seen <= t.first_stable_since <= t.last_seen <= now
    &&& t.confirmed ==> t.last_seen >= t.first_seen + filter.persist_ms * 1_000_000 || (
    filter.max_unstable_ms > 0 && t.last_seen >= t.first_seen + filter.max_unstable_ms * 1_000_000)
}

proof fn lemma_frame_lingers(
    filter: Persistence,
    known: Seq<Track>,
    blocks: Seq<OcrBlock>,
    measures: Seq<Seq<TrackMeasure>>,
    now: u128,
    n: int,
)
    requires
        filter.persist_ms > 0,
        0 <= n <= blocks.len(),
        forall|k: int| 0 <= k < known.len() ==> has_lingered(filter, #[trigger] known[k], now),
    ensures
        forall|k: int|
            0 <= k < filter.after_blocks(known, blocks, measures, now, n).0.len() ==> has_lingered(
                filter,
                #[trigger] filter.after_blocks(known, blocks, measures, now, n).0[k],
                now,
            ),
    decreases n,
{
    if n > 0 {
        lemma_frame_lingers(filter, known, blocks, measures, now, n - 1);
        lemma_frame_sights(filter, known, blocks, measures, now, n - 1);
        let (before, claimed) = filter.after_blocks(known, blocks, measures, now, n - 1);
        law_claimed_tracks_are_skipped(
            before,
            claimed,
            blocks[n - 1],
            measures[n - 1],
            known.len() as int,
        );
        let ts = filter.after_blocks(known, blocks, measures, now, n).0;
        assert forall|k: int| 0 <= k < ts.len() implies has_lingered(
            filter,
            #[trigger] ts[k],
            now,
        ) by {
            if k < before.len() {
                assert(has_lingered(filter, before[k], now));
            }
        }
    }
}

proof fn lemma_history_lingers(filter: Persistence, history: Seq<Reading>, now: u128)
    requires
        filter.persist_ms > 0,
        in_time_order(history),
        history.len() > 0 ==> history.last().now <= now,
    ensures
        forall|k: int|
            0 <= k < filter.tracks_after(history).len() ==> has_lingered(
                filter,
                #[trigger] filter.tracks_after(history)[k],
                now,
            ),
    decreases history.len(),
{
    if history.len() > 0 {
        let last = history.last();
        let before = history.drop_last();
        assert(in_time_order(before)) by {
            assert forall|i: int, j: int| 0 <= i <= j < before.len() implies (
            #[trigger] before[i]).now <= (#[trigger] before[j]).now by {
                assert(before[i] == history[i] && before[j] == history[j]);
            }
        }
        if before.len() > 0 {
            assert(history[history.len() - 2].now <= history[history.len() - 1].now);
        }
        lemma_history_lingers(filter, before, last.now);
        let known = filter.tracks_after(before);
        lemma_frame_lingers(
            filter,
            known,
            last.blocks,
            last.measures,
            last.now,
            last.blocks.len() as int,
        );
        let tracks = filter.tracks_at(history);
        lemma_retained_from(filter, tracks, last.now);
        let kept = filter.tracks_after(history);
        assert forall|t: int| 0 <= t < kept.len() implies has_lingered(
            filter,
            #[trigger] kept[t],
            now,
        ) by {
            let k = choose|k: int| 0 <= k < tracks.len() && #[trigger] tracks[k] == kept[t];
            assert(has_lingered(filter, tracks[k], last.now));
        }
    }
}

/// Text that only flashes up is not shown: what is emitted is the sample of a track whose first
/// and last sightings are at least the persistence apart, or the limit of unsettled text where
/// there is one.
pub proof fn law_flashing_text_is_not_shown(filter: Persistence, history: Seq<Reading>)
    requires
        filter.persist_ms > 0,
        history.len() > 0,
        in_time_order(history),
    ensures
        ({
            let out = filter.emitted_after(history);
            let tracks = filter.tracks_at(history);
            forall|i: int|
                0 <= i < out.len() ==> exists|k: int|
                    0 <= k < tracks.len() && (#[trigger] tracks[k]).last_block.text == (
                    #[trigger] out[i]).text && tracks[k].last_block.bbox == out[i].bbox && (
                    tracks[k].last_seen >= tracks[k].first_seen + filter.persist_ms * 1_000_000 || (
                    filter.max_unstable_ms > 0 && tracks[k].last_seen >= tracks[k].first_seen
                        + filter.max_unstable_ms * 1_000_000))
        }),
{
    let last = history.last();
    let before = history.drop_last();
    let now = last.now;
    assert(in_time_order(before)) by {
        assert forall|i: int, j: int| 0 <= i <= j < before.len() implies (#[trigger] before[i]).now
            <= (#[trigger] before[j]).now by {
            assert(before[i] == history[i] && before[j] == history[j]);
        }
    }
    if before.len() > 0 {
        assert(history[history.len() - 2].now <= history[history.len() - 1].now);
    }
    lemma_history_lingers(filter, before, now);
    lemma_frame_lingers(
        filter,
        filter.tracks_after(before),
        last.blocks,
        last.measures,
        now,
        last.blocks.len() as int,
    );
    let tracks = filter.tracks_at(history);
    lemma_shown_from(filter, tracks, now);
    let samples = filter.shown(tracks, now);
    lemma_by_row(samples);
    let order = by_row(samples);
    let out = filter.emitted_after(history);
    assert forall|i: int| 0 <= i < out.len() implies exists|k: int|
        0 <= k < tracks.len() && (#[trigger] tracks[k]).last_block.text == (#[trigger] out[i]).text
            && tracks[k].last_block.bbox == out[i].bbox && (tracks[k].last_seen
            >= tracks[k].first_seen + filter.persist_ms * 1_000_000 || (filter.max_unstable_ms > 0
            && tracks[k].last_seen >= tracks[k].first_seen + filter.max_unstable_ms * 1_000_000)) by {
        assert(out[i] == (OcrBlock { id: i as u32, ..order[i] }));
        assert(samples.contains(order[i]));
        let m = choose|m: int| 0 <= m < samples.len() && samples[m] == order[i];
        assert(sample_of(filter, tracks, now, samples[m]));
        let k = choose|k: int|
            0 <= k < tracks.len() && (#[trigger] tracks[k]).last_block == samples[m]
                && tracks[k].confirmed && now <= tracks[k].last_seen + filter.max_miss_ms
                * 1_000_000;
        assert(has_lingered(filter, tracks[k], now));
    }
}

/// A line that is alone on screen is shown when it is read a second time, at the same spot, at
/// least the persistence after the first, and is not shown before; once shown, it stays through a
/// frame that misses it within the grace, and is gone behind it.
pub proof fn law_lone_line_lifecycle(
    filter: Persistence,
    first: OcrBlock,
    second: OcrBlock,
    at: TrackMeasure,
    start: u128,
    again: u128,
    later: u128,
)
    requires
        filter.persist_ms > 0,
        normalized(first.text@).len() > 0,
        normalized(second.text@) == normalized(first.text@),
        near_track(started(first, start), second, at),
        start <= again <= later,
        again - start <= filter.max_miss_ms * 1_000_000,
    ensures
        ({
            let one = Reading { blocks: seq![first], measures: seq![Seq::empty()], now: start };
            let two = Reading { blocks: seq![second], measures: seq![seq![at]], now: again };
            let none = Reading { blocks: Seq::empty(), measures: Seq::empty(), now: later };
            let lingered = again - start >= filter.persist_ms * 1_000_000 || (filter.max_unstable_ms
                > 0 && again - start >= filter.max_unstable_ms * 1_000_000);
            let shown = seq![OcrBlock { id: 0, ..second }];
            &&& filter.emitted_after(seq![one]).len() == 0
            &&& filter.emitted_after(seq![one, two]) == if lingered {
                shown
            } else {
                Seq::empty()
            }
            &&& lingered ==> filter.emitted_after(seq![one, two, none]) == if later - again
                <= filter.max_miss_ms * 1_000_000 {
                shown
            } else {
                Seq::empty()
            }
        }),
{
    let one = Reading { blocks: seq![first], measures: seq![Seq::empty()], now: start };
    let two = Reading { blocks: seq![second], measures: seq![seq![at]], now: again };
    let none = Reading { blocks: Seq::empty(), measures: Seq::empty(), now: later };
    let h1 = seq![one];
    let h2 = seq![one, two];
    let h3 = seq![one, two, none];
    assert(h1.drop_last() =~= Seq::<Reading>::empty());
    assert(h2.drop_last() =~= h1);
    assert(h3.drop_last() =~= h2);
    reveal_with_fuel(Persistence::after_blocks, 3);
    reveal_with_fuel(best_track, 3);
    reveal_with_fuel(Persistence::shown, 3);
    reveal_with_fuel(Persistence::retained, 3);
    reveal_with_fuel(Persistence::tracks_after, 4);
    reveal_with_fuel(by_row, 3);
    let t1 = started(first, start);
    assert(filter.tracks_at(h1) =~= seq![t1]);
    assert(seq![t1].drop_last() =~= Seq::<Track>::empty());
    assert(filter.tracks_after(h1) =~= seq![t1]);
    let t2 = filter.updated(t1, second, again);
    assert(filter.tracks_at(h2) =~= seq![t2]);
    assert(seq![t2].drop_last() =~= Seq::<Track>::empty());
    let b = t2.last_block;
    assert(seq![b].drop_last() =~= Seq::<OcrBlock>::empty());
    assert(by_row(Seq::<OcrBlock>::empty()) =~= Seq::<OcrBlock>::empty());
    assert(by_row(seq![b]) =~= seq![b]);
    assert(filter.emitted_after(h1) =~= Seq::<OcrBlock>::empty());
    let lingered = again - start >= filter.persist_ms * 1_000_000 || (filter.max_unstable_ms > 0
        && again - start >= filter.max_unstable_ms * 1_000_000);
    let shown = seq![OcrBlock { id: 0, ..second }];
    if lingered {
        assert(filter.shown(seq![t2], again) =~= seq![b]);
        assert(filter.emitted_after(h2) =~= shown);
        assert(filter.tracks_after(h2) =~= seq![t2]);
        assert(filter.tracks_at(h3) =~= seq![t2]);
        if later - again <= filter.max_miss_ms * 1_000_000 {
            assert(filter.shown(seq![t2], later) =~= seq![b]);
            assert(filter.emitted_after(h3) =~= shown);
        } else {
            assert(filter.shown(seq![t2], later) =~= Seq::<OcrBlock>::empty());
            assert(filter.emitted_after(h3) =~= Seq::<OcrBlock>::empty());
        }
    } else {
        assert(filter.shown(seq![t2], again) =~= Seq::<OcrBlock>::empty());
        assert(filter.emitted_after(h2) =~= Seq::<OcrBlock>::empty());
    }
}

/// One ASCII letter or digit, whitespace around it aside.
pub open spec fn one_character(text: Seq<char>) -> bool {
    trim(text).len() == 1 && ('0' <= trim(text)[0] <= '9' || 'A' <= trim(text)[0] <= 'Z' || 'a'
        <= trim(text)[0] <= 'z')
}

/// Letters and digits are told by their places in ASCII.
pub proof fn lemma_one_character(text: Seq<char>)
    ensures
        is_single_token(text) == one_character(text),
{
    lemma_latin_or_digit(trim(text)[0]);
}

proof fn lemma_latin_or_digit(c: char)
    ensures
        is_latin_or_digit(c) <==> '0' <= c <= '9' || 'A' <= c <= 'Z' || 'a' <= c <= 'z',
{
}

/// Exactly the blocks that are one ASCII letter or digit are dropped; all others stay, in order.
pub proof fn law_only_single_characters_are_dropped(blocks: Seq<OcrBlock>)
    ensures
        without_single_tokens(blocks) == blocks.filter(|b: OcrBlock| !one_character(b.text@)),
        forall|i: int|
            0 <= i < without_single_tokens(blocks).len() ==> !one_character(
                (#[trigger] without_single_tokens(blocks)[i]).text@,
            ),
    decreases blocks.len(),
{
    reveal(Seq::filter);
    if blocks.len() > 0 {
        law_only_single_characters_are_dropped(blocks.drop_last());
        let before = without_single_tokens(blocks.drop_last());
        lemma_one_character(blocks.last().text@);
        if !one_character(blocks.last().text@) {
            assert(without_single_tokens(blocks) == before.push(blocks.last()));
        }
    } else {
        assert(without_single_tokens(blocks) =~= blocks.filter(
            |b: OcrBlock| !one_character(b.text@),
        ));
    }
}

/// Without persistence every reading passes as it is, and nothing is followed.
pub proof fn law_without_persistence_readings_pass(
    filter: Persistence,
    tracks: Seq<Track>,
    blocks: Seq<OcrBlock>,
    measures: Seq<Seq<TrackMeasure>>,
    now: u128,
)
    requires
        filter.persist_ms == 0,
    ensures
        filter.emitted(tracks, blocks, measures, now) == blocks,
        filter.kept(tracks, blocks, measures, now) == tracks,
{
}

/// The miss grace is the configured one, but outlasts the persistence by a tenth of a second at
/// least; the other durations are as configured.
pub proof fn law_grace_outlasts_persistence(
    persist_ms: u64,
    max_miss_ms: u64,
    max_unstable_ms: u64,
    config: OcrConfig,
)
    ensures
        ({
            let p = Persistence::configured(persist_ms, max_miss_ms, max_unstable_ms);
            &&& p.persist_ms == persist_ms
            &&& p.max_unstable_ms == max_unstable_ms
            &&& max_miss_ms >= persist_ms + 100 ==> p.max_miss_ms == max_miss_ms
            &&& max_miss_ms < persist_ms + 100 <= u64::MAX ==> p.max_miss_ms == persist_ms + 100
            &&& persist_ms + 100 > u64::MAX ==> p.max_miss_ms == u64::MAX
        }),
        Persistence::of_config(config) == Persistence::configured(
            config.block_persist_ms,
            config.block_max_miss_ms,
            config.max_unstable_ms,
        ),
{
}

/// A block continues a track only near it: its center is within the limits on both axes; other
/// text must overlap the track, or lie within the tighter limits.
pub proof fn law_block_continues_a_near_track(m: TrackMeasure)
    requires
        !m.dx.nan(),
        !m.dy.nan(),
        !m.max_dx.nan(),
        !m.max_dy.nan(),
        !m.near_dx.nan(),
        !m.near_dy.nan(),
        !m.iou.nan(),
    ensures
        m.in_reach(true) <==> m.dx.rank() <= m.max_dx.rank() && m.dy.rank() <= m.max_dy.rank(),
        m.in_reach(false) <==> m.dx.rank() <= m.max_dx.rank() && m.dy.rank() <= m.max_dy.rank() && (
        m.iou.rank() >= 0x3D4C_CCCD || (m.dx.rank() <= m.near_dx.rank() && m.dy.rank()
            <= m.near_dy.rank())),
        m.score(true) == m.score_same_text,
        m.score(false) == m.score_other_text,
{
}

/// A track that is not seen is kept for the miss grace; one that is not confirmed yet also for
/// the limit of unsettled text.
pub proof fn law_unseen_tracks_are_kept_for_their_time(filter: Persistence)
    ensures
        filter.retain_ms(true) == filter.max_miss_ms,
        filter.max_unstable_ms <= filter.max_miss_ms ==> filter.retain_ms(false)
            == filter.max_miss_ms,
        filter.max_unstable_ms > filter.max_miss_ms ==> filter.retain_ms(false)
            == filter.max_unstable_ms,
{
}

proof fn lemma_put_by_row(s: Seq<OcrBlock>, block: OcrBlock)
    requires
        forall|i: int, j: int|
            0 <= i < j < s.len() ==> row_then_column(#[trigger] s[i]).le(
                row_then_column(#[trigger] s[j]),
            ),
    ensures
        exists|k: int|
            0 <= k <= s.len() && #[trigger] s.insert(k, block) == inserted_by_row(s, block) && (
            forall|i: int| 0 <= i < k ==> row_then_column(#[trigger] s[i]).le(row_then_column(block)))
                && (forall|i: int|
                k <= i < s.len() ==> !row_then_column(#[trigger] s[i]).le(row_then_column(block))),
    decreases s.len(),
{
    if s.len() == 0 || row_then_column(s.last()).le(row_then_column(block)) {
        let k = s.len() as int;
        assert(s.insert(k, block) =~= s.push(block));
        assert forall|i: int| 0 <= i < k implies row_then_column(#[trigger] s[i]).le(
            row_then_column(block),
        ) by {
            if i < k - 1 {
                assert(row_then_column(s[i]).le(row_then_column(s[k - 1])));
            }
        }
    } else {
        let t = s.drop_last();
        assert forall|i: int, j: int| 0 <= i < j < t.len() implies row_then_column(
            #[trigger] t[i],
        ).le(row_then_column(#[trigger] t[j])) by {
            assert(row_then_column(s[i]).le(row_then_column(s[j])));
        }
        lemma_put_by_row(t, block);
        let k = choose|k: int|
            0 <= k <= t.len() && #[trigger] t.insert(k, block) == inserted_by_row(t, block) && (
            forall|i: int| 0 <= i < k ==> row_then_column(#[trigger] t[i]).le(row_then_column(block)))
                && (forall|i: int|
                k <= i < t.len() ==> !row_then_column(#[trigger] t[i]).le(row_then_column(block)));
        assert(s.insert(k, block) =~= inserted_by_row(t, block).push(s.last()));
        assert forall|i: int| 0 <= i < k implies row_then_column(#[trigger] s[i]).le(
            row_then_column(block),
        ) by {
            assert(s[i] == t[i]);
        }
        assert forall|i: int| k <= i < s.len() implies !row_then_column(#[trigger] s[i]).le(
            row_then_column(block),
        ) by {
            if i < t.len() {
                assert(s[i] == t[i]);
            }
        }
    }
}

proof fn lemma_rows_are_ordered(blocks: Seq<OcrBlock>)
    ensures
        by_row(blocks).len() == blocks.len(),
        forall|i: int, j: int|
            0 <= i < j < blocks.len() ==> row_then_column(#[trigger] by_row(blocks)[i]).le(
                row_then_column(#[trigger] by_row(blocks)[j]),
            ),
        by_row(blocks).to_multiset() == blocks.to_multiset(),
    decreases blocks.len(),
{
    broadcast use vstd::seq_lib::group_to_multiset_ensures;

    if blocks.len() > 0 {
        let t = blocks.drop_last();
        lemma_rows_are_ordered(t);
        let s = by_row(t);
        let x = blocks.last();
        lemma_put_by_row(s, x);
        let k = choose|k: int|
            0 <= k <= s.len() && #[trigger] s.insert(k, x) == inserted_by_row(s, x) && (forall|
                i: int,
            |
                0 <= i < k ==> row_then_column(#[trigger] s[i]).le(row_then_column(x))) && (forall|
                i: int,
            |
                k <= i < s.len() ==> !row_then_column(#[trigger] s[i]).le(row_then_column(x)));
        let out = by_row(blocks);
        assert(out == s.insert(k, x));
        assert forall|i: int, j: int| 0 <= i < j < blocks.len() implies row_then_column(
            #[trigger] out[i],
        ).le(row_then_column(#[trigger] out[j])) by {
            if j < k {
                assert(out[i] == s[i] && out[j] == s[j]);
            } else if j == k {
                assert(out[i] == s[i]);
            } else if i < k {
                assert(out[i] == s[i] && out[j] == s[j - 1]);
            } else if i == k {
                assert(out[j] == s[j - 1]);
            } else {
                assert(out[i] == s[i - 1] && out[j] == s[j - 1]);
            }
        }
        assert(blocks =~= t.push(x));
        vstd::seq_lib::to_multiset_build(t, x);
        vstd::seq_lib::to_multiset_insert(s, k, x);
        assert(out.to_multiset() =~= blocks.to_multiset());
    }
}

/// What is shown is in reading order: from top to bottom, and from left to right within a row of
/// pixels; nothing is lost on the way, and ids are the positions.
pub proof fn law_shown_text_is_in_reading_order(blocks: Seq<OcrBlock>)
    ensures
        ({
            let out = in_reading_order(blocks);
            &&& out.len() == blocks.len()
            &&& forall|i: int, j: int|
                #![trigger out[i], out[j]]
                0 <= i < j < out.len() ==> out[i].bbox.y.truncated() < out[j].bbox.y.truncated()
                    || (out[i].bbox.y.truncated() == out[j].bbox.y.truncated()
                    && out[i].bbox.x.truncated() <= out[j].bbox.x.truncated())
            &&& forall|i: int| 0 <= i < out.len() ==> (#[trigger] out[i]).id == i as u32
        }),
        by_row(blocks).to_multiset() == blocks.to_multiset(),
        in_reading_order(blocks) == numbered(by_row(blocks)),
{
    lemma_rows_are_ordered(blocks);
    let s = by_row(blocks);
    let out = in_reading_order(blocks);
    assert forall|i: int, j: int| #![trigger out[i], out[j]] 0 <= i < j < out.len() implies out[i].bbox.y.truncated()
        < out[j].bbox.y.truncated() || (out[i].bbox.y.truncated() == out[j].bbox.y.truncated()
        && out[i].bbox.x.truncated() <= out[j].bbox.x.truncated()) by {
        assert(row_then_column(s[i]).le(row_then_column(s[j])));
        crate::scalar::law_truncation_is_toward_zero(s[i].bbox.x);
        crate::scalar::law_truncation_is_toward_zero(s[i].bbox.y);
        crate::scalar::law_truncation_is_toward_zero(s[j].bbox.x);
        crate::scalar::law_truncation_is_toward_zero(s[j].bbox.y);
    }
}

} // verus!
