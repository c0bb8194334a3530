//! Capture session: the latest frame wins, and a resized target restarts the stream.

use crate::client_area::{crop_frame_to_client, CaptureError, WindowFacts};
use crate::frame::{bytes_of, rgba_len, CapturedFrame};
use crate::resize_watch::ResizeWatch;
use crate::text::owned;
use vstd::prelude::*;

verus! {

/// Latest-wins slot: a frame overwrites the one before, reading does not consume it.
#[derive(Debug)]
pub struct SharedLatest {
    pub slot: Option<CapturedFrame>,
}

impl SharedLatest {
    /// Empty slot.
    pub fn new() -> (r: SharedLatest)
        ensures
            r.slot is None,
    {
        SharedLatest { slot: None }
    }

    /// Put a frame in place of the one before.
    pub fn publish(&mut self, frame: CapturedFrame)
        ensures
            final(self).slot == Some(frame),
    {
        self.slot = Some(frame);
    }

    /// The frame in the slot.
    pub fn latest(&self) -> (r: Option<CapturedFrame>)
        ensures
            r is Some == self.slot is Some,
            r matches Some(f) ==> f.same_frame(self.slot->0),
    {
        match &self.slot {
            Some(f) => Some(f.clone()),
            None => None,
        }
    }

    /// Sequence of the frame in the slot, without copying the frame.
    pub fn latest_sequence(&self) -> (r: Option<u64>)
        ensures
            r == match self.slot {
                Some(f) => Some(f.sequence),
                None => None,
            },
    {
        match &self.slot {
            Some(f) => Some(f.sequence),
            None => None,
        }
    }
}

/// Frames of one capture stream, numbered from one.
#[derive(Debug)]
pub struct FrameStream {
    pub latest: SharedLatest,
    pub sequence: u64,
}

impl FrameStream {
    /// Stream without frames.
    pub fn new() -> (r: FrameStream)
        ensures
            r.sequence == 0,
            r.latest.slot is None,
    {
        FrameStream { latest: SharedLatest::new(), sequence: 0 }
    }

    /// A frame is taken: the target is not being dragged, and the frame has an area.
    pub open spec fn takes(in_movesize: bool, width: u32, height: u32) -> bool {
        !in_movesize && width > 0 && height > 0
    }

    /// True when an arriving frame is to be copied.
    pub fn wants_frame(in_movesize: bool, width: u32, height: u32) -> (r: bool)
        ensures
            r == Self::takes(in_movesize, width, height),
    {
        !in_movesize && width > 0 && height > 0
    }

    /// Number and publish an arriving frame.
    pub fn on_frame_arrived(&mut self, in_movesize: bool, width: u32, height: u32, rgba: Vec<u8>)
        requires
            old(self).sequence < u64::MAX,
        ensures
            !Self::takes(in_movesize, width, height) ==> *final(self) == *old(self),
            Self::takes(in_movesize, width, height) ==> {
                &&& final(self).sequence == old(self).sequence + 1
                &&& (final(self).latest.slot matches Some(f) && f.width == width && f.height
                    == height && f.sequence == old(self).sequence + 1 && bytes_of(f.rgba) == rgba@)
            },
    {
        if !FrameStream::wants_frame(in_movesize, width, height) {
            return;
        }
        self.sequence = self.sequence + 1;
        self.latest.publish(CapturedFrame::new(width, height, rgba, self.sequence));
    }
}

/// The captured window.
#[derive(Debug)]
pub struct CaptureTarget {
    pub hwnd: isize,
    pub title: String,
}

impl Clone for CaptureTarget {
    fn clone(&self) -> (r: Self)
        ensures
            r == *self,
    {
        CaptureTarget { hwnd: self.hwnd, title: self.title.clone() }
    }
}

/// Shortest time between frames that is asked of the capture (ms).
pub const MIN_UPDATE_INTERVAL_MS: u64 = 50;

/// Active capture session. The host runs the stream and says whether it has finished.
#[derive(Debug)]
pub struct CaptureSession {
    pub stream: Option<FrameStream>,
    pub target: Option<CaptureTarget>,
    pub min_interval_ms: u64,
    pub resize: ResizeWatch,
}

impl CaptureSession {
    /// Session without stream or target.
    pub fn new() -> (r: CaptureSession)
        ensures
            r == (CaptureSession {
                stream: None,
                target: None,
                min_interval_ms: 250,
                resize: ResizeWatch::following(0, None),
            }),
    {
        CaptureSession {
            stream: None,
            target: None,
            min_interval_ms: 250,
            resize: ResizeWatch::new(),
        }
    }

    /// A stream is there and has not finished.
    pub fn is_running(&self, finished: bool) -> (r: bool)
        ensures
            r == (self.stream is Some && !finished),
    {
        self.stream.is_some() && !finished
    }

    /// The captured window.
    pub fn target_hwnd(&self) -> (r: Option<isize>)
        ensures
            r == match self.target {
                Some(t) => Some(t.hwnd),
                None => None,
            },
    {
        match &self.target {
            Some(t) => Some(t.hwnd),
            None => None,
        }
    }

    /// Title of the captured window.
    pub fn target_title(&self) -> (r: Option<String>)
        ensures
            r == match self.target {
                Some(t) => Some(t.title),
                None => None,
            },
    {
        match &self.target {
            Some(t) => Some(t.title.clone()),
            None => None,
        }
    }

    /// Interactive title-bar drag or edge resize is in progress.
    pub fn in_movesize(&self) -> (r: bool)
        ensures
            r == self.resize.in_movesize,
    {
        self.resize.in_movesize
    }

    /// Sequence of the latest published frame.
    pub open spec fn published(self) -> Option<u64> {
        match self.stream {
            Some(s) => match s.latest.slot {
                Some(f) => Some(f.sequence),
                None => None,
            },
            None => None,
        }
    }

    /// Latest published sequence.
    pub fn latest_sequence(&self) -> (r: Option<u64>)
        ensures
            r == self.published(),
    {
        match &self.stream {
            Some(s) => s.latest.latest_sequence(),
            None => None,
        }
    }

    /// Prepare a start: refuse while a stream runs, drop a finished one, refuse an invalid
    /// window. The interval to ask of the capture is returned.
    pub fn prepare_start(&mut self, finished: bool, window_valid: bool, min_interval_ms: u64) -> (r:
        Result<u64, CaptureError>)
        ensures
            final(self).target == old(self).target,
            final(self).resize == old(self).resize,
            final(self).min_interval_ms == old(self).min_interval_ms,
            match r {
                Ok(ms) => !(old(self).stream is Some && !finished) && window_valid && ms
                    == if min_interval_ms < MIN_UPDATE_INTERVAL_MS {
                    MIN_UPDATE_INTERVAL_MS
                } else {
                    min_interval_ms
                },
                Err(CaptureError::AlreadyRunning) => old(self).stream is Some && !finished,
                Err(CaptureError::Window(text)) => !(old(self).stream is Some && !finished)
                    && !window_valid && text@ == "invalid hwnd"@,
                Err(_) => false,
            },
            final(self).stream == if old(self).stream is Some && !finished {
                old(self).stream
            } else {
                None
            },
    {
        if self.is_running(finished) {
            return Err(CaptureError::AlreadyRunning);
        }
        self.stream = None;
        if !window_valid {
            return Err(CaptureError::Window(owned("invalid hwnd")));
        }
        Ok(
            if min_interval_ms < MIN_UPDATE_INTERVAL_MS {
                MIN_UPDATE_INTERVAL_MS
            } else {
                min_interval_ms
            },
        )
    }

    /// Session with a stream that has no frame yet.
    pub open spec fn capturing(
        target: CaptureTarget,
        min_interval_ms: u64,
        size: Option<(u32, u32)>,
    ) -> CaptureSession {
        CaptureSession {
            stream: Some(FrameStream { latest: SharedLatest { slot: None }, sequence: 0 }),
            target: Some(target),
            min_interval_ms,
            resize: ResizeWatch::following(target.hwnd, size),
        }
    }

    /// Session without stream or target.
    pub open spec fn stopped(self) -> CaptureSession {
        CaptureSession {
            stream: None,
            target: None,
            resize: ResizeWatch::following(0, None),
            ..self
        }
    }

    /// The host started a stream for a window.
    pub fn on_started(
        &mut self,
        hwnd: isize,
        title: String,
        min_interval_ms: u64,
        size: Option<(u32, u32)>,
    )
        ensures
            *final(self) == CaptureSession::capturing(
                CaptureTarget { hwnd, title },
                min_interval_ms,
                size,
            ),
    {
        self.min_interval_ms = min_interval_ms;
        self.stream = Some(FrameStream::new());
        self.target = Some(CaptureTarget { hwnd, title });
        self.resize.set_target(hwnd, size);
    }

    /// Stop capture if running and clear the target window.
    pub fn stop(&mut self)
        ensures
            *final(self) == old(self).stopped(),
    {
        self.stream = None;
        self.target = None;
        self.resize.set_target(0, None);
    }

    /// A size change is pending while the stream runs.
    pub open spec fn restart_due(self, finished: bool) -> bool {
        self.stream is Some && !finished && self.resize.pending
    }

    /// The window whose stream is to be made anew.
    pub open spec fn restart_target(self, finished: bool) -> Option<CaptureTarget> {
        if self.restart_due(finished) {
            self.target
        } else {
            None
        }
    }

    /// The session after a due size change was taken: its old stream is gone.
    pub open spec fn synced(self, finished: bool) -> CaptureSession {
        if self.restart_due(finished) {
            CaptureSession {
                stream: if self.target is Some {
                    None
                } else {
                    self.stream
                },
                resize: ResizeWatch { pending: false, ..self.resize },
                ..self
            }
        } else {
            self
        }
    }

    /// Whether the stream is to be made anew after a target-window resize settled, and for which
    /// window.
    ///
    /// The capture keeps the buffer layout from the start of the stream. A pending change is
    /// taken only while the stream runs.
    pub fn sync_stream(&mut self, finished: bool) -> (r: Option<CaptureTarget>)
        ensures
            r == old(self).restart_target(finished),
            *final(self) == old(self).synced(finished),
    {
        if !self.is_running(finished) {
            return None;
        }
        if !self.resize.take_pending() {
            return None;
        }
        match &self.target {
            Some(t) => {
                let target: CaptureTarget = t.clone();
                self.stream = None;
                Some(target)
            },
            None => None,
        }
    }

    /// A frame has been published and the target is not being dragged.
    pub open spec fn has_frame(self) -> bool {
        !self.resize.in_movesize && self.stream is Some && self.stream->0.latest.slot is Some
    }

    /// `out` is the published frame, cut to the client area of the target where it is known.
    pub open spec fn delivers(self, facts: Option<WindowFacts>, out: CapturedFrame) -> bool {
        let frame = self.stream->0.latest.slot->0;
        let metrics = match facts {
            Some(w) => w.metrics(),
            None => None,
        };
        if self.target is Some && metrics is Some {
            metrics->0.is_crop(frame, out)
        } else {
            out.same_frame(frame)
        }
    }

    /// The published frame can be held in memory.
    pub open spec fn frame_fits(self) -> bool {
        self.stream matches Some(s) ==> (s.latest.slot matches Some(f) ==> rgba_len(
            f.width,
            f.height,
        ) <= usize::MAX)
    }

    /// Latest published frame, cropped to the client area. Does not consume the slot.
    ///
    /// `None` during interactive move/size, so that no frame from before the drag is read.
    /// `facts` is what the window system reports of the target.
    pub fn latest_frame(&self, facts: Option<WindowFacts>) -> (r: Option<CapturedFrame>)
        requires
            self.frame_fits(),
        ensures
            match r {
                Some(out) => self.has_frame() && self.delivers(facts, out),
                None => !self.has_frame(),
            },
    {
        if self.resize.in_movesize {
            return None;
        }
        match &self.stream {
            Some(s) => match s.latest.latest() {
                Some(frame) => {
                    if self.target.is_some() {
                        Some(crop_frame_to_client(facts, frame))
                    } else {
                        Some(frame)
                    }
                },
                None => None,
            },
            None => None,
        }
    }
}

/// Frames of a window that is being dragged, and frames without an area, are not taken; all
/// others are.
pub proof fn law_dragged_window_gives_no_frame(width: u32, height: u32)
    ensures
        !FrameStream::takes(true, width, height),
        !FrameStream::takes(false, 0, height),
        !FrameStream::takes(false, width, 0),
        width > 0 && height > 0 ==> FrameStream::takes(false, width, height),
{
}

/// A started session follows its window, has no frame yet, and owes no restart.
pub proof fn law_started_session_waits_for_a_frame(
    target: CaptureTarget,
    ms: u64,
    size: Option<(u32, u32)>,
    finished: bool,
)
    ensures
        ({
            let s = CaptureSession::capturing(target, ms, size);
            &&& s.target == Some(target)
            &&& s.min_interval_ms == ms
            &&& s.resize.target == target.hwnd
            &&& s.stream is Some
            &&& s.stream->0.sequence == 0
            &&& !s.has_frame()
            &&& s.published() is None
            &&& s.restart_target(finished) is None
            &&& s.synced(finished) == s
        }),
{
}

/// A stopped session has no stream and no window.
pub proof fn law_stopped_session_is_empty(s: CaptureSession, finished: bool)
    ensures
        s.stopped().stream is None,
        s.stopped().target is None,
        s.stopped().resize.target == 0,
        !s.stopped().resize.pending,
        !s.stopped().resize.in_movesize,
        s.stopped().published() is None,
        !s.stopped().has_frame(),
        s.stopped().restart_target(finished) is None,
{
}

/// A running stream whose window has another size is made anew, once, for the same window; a
/// stream that is gone or finished leaves the change pending.
pub proof fn law_resized_window_restarts_once(s: CaptureSession, finished: bool)
    ensures
        s.stream is Some && !finished && s.resize.pending ==> {
            &&& s.restart_target(finished) == s.target
            &&& !s.synced(finished).resize.pending
            &&& s.target is Some ==> s.synced(finished).stream is None
            &&& s.synced(finished).restart_target(finished) is None
        },
        !(s.stream is Some && !finished && s.resize.pending) ==> {
            &&& s.restart_target(finished) is None
            &&& s.synced(finished) == s
        },
        s.synced(finished).target == s.target,
        s.synced(finished).resize.target == s.resize.target,
        s.synced(finished).resize.last_width == s.resize.last_width,
        s.synced(finished).resize.last_height == s.resize.last_height,
        s.synced(finished).min_interval_ms == s.min_interval_ms,
{
}

/// While the window is dragged there is no frame; without a drag the latest one is there, under
/// its own number.
pub proof fn law_latest_frame_is_read(s: CaptureSession, stream: FrameStream, frame: CapturedFrame)
    requires
        s.stream == Some(stream),
        stream.latest.slot == Some(frame),
    ensures
        s.has_frame() == !s.resize.in_movesize,
        s.published() == Some(frame.sequence),
        forall|out: CapturedFrame|
            s.target is None ==> #[trigger] s.delivers(None, out) == out.same_frame(frame),
{
}

} // verus!
