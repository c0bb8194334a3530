//! Target resize, followed through window events.
//!
//! Interactive drag has a start and an end event: the capture restarts only when the user
//! releases. Maximize, snap and programmatic moves only report a changed location and restart as
//! soon as the size changes.

use crate::client_area::ScreenRect;
use vstd::prelude::*;

verus! {

/// The user began to move or size the window.
pub const EVENT_MOVESIZE_START: u32 = 0x000A;

/// The user let go of the window.
pub const EVENT_MOVESIZE_END: u32 = 0x000B;

/// The window has another position or size.
pub const EVENT_LOCATION_CHANGE: u32 = 0x800B;

/// The event is about the window itself.
pub const OBJECT_WINDOW: i32 = 0;

/// What is known of the capture target's size.
#[derive(Clone, Copy, Debug, PartialEq, Eq, Structural)]
pub struct ResizeWatch {
    /// Watched window, zero for none.
    pub target: isize,
    /// The size changed and the change has not been taken yet.
    pub pending: bool,
    pub in_movesize: bool,
    pub last_width: u32,
    pub last_height: u32,
}

/// Size of a window rectangle; `None` when it is unknown or empty.
pub open spec fn size_of_window(rect: Option<ScreenRect>) -> Option<(u32, u32)> {
    match rect {
        Some(r) => if r.solid() {
            Some(((r.right - r.left) as u32, (r.bottom - r.top) as u32))
        } else {
            None
        },
        None => None,
    }
}

/// Size of a window rectangle; `None` when it is unknown or empty.
pub fn window_size(rect: Option<ScreenRect>) -> (r: Option<(u32, u32)>)
    ensures
        r == size_of_window(rect),
{
    match rect {
        Some(r) => if r.right > r.left && r.bottom > r.top {
            Some(
                (
                    (r.right as i64 - r.left as i64) as u32,
                    (r.bottom as i64 - r.top as i64) as u32,
                ),
            )
        } else {
            None
        },
        None => None,
    }
}

impl ResizeWatch {
    /// Watch that follows no window.
    pub fn new() -> (r: ResizeWatch)
        ensures
            r == (ResizeWatch {
                target: 0,
                pending: false,
                in_movesize: false,
                last_width: 0,
                last_height: 0,
            }),
    {
        ResizeWatch { target: 0, pending: false, in_movesize: false, last_width: 0, last_height: 0 }
    }

    /// Watch of a window that nothing has happened to yet.
    pub open spec fn following(hwnd: isize, size: Option<(u32, u32)>) -> ResizeWatch {
        ResizeWatch {
            target: hwnd,
            pending: false,
            in_movesize: false,
            last_width: match size {
                Some(s) => s.0,
                None => 0,
            },
            last_height: match size {
                Some(s) => s.1,
                None => 0,
            },
        }
    }

    /// Follow another window, whose size is `size` where it is known.
    pub fn set_target(&mut self, hwnd: isize, size: Option<(u32, u32)>)
        ensures
            *final(self) == ResizeWatch::following(hwnd, size),
    {
        self.target = hwnd;
        self.in_movesize = false;
        match size {
            Some((w, h)) => {
                self.last_width = w;
                self.last_height = h;
            },
            None => {
                self.last_width = 0;
                self.last_height = 0;
            },
        }
        self.pending = false;
    }

    /// Take a pending size change.
    pub fn take_pending(&mut self) -> (r: bool)
        ensures
            r == old(self).pending,
            *final(self) == (ResizeWatch { pending: false, ..*old(self) }),
    {
        let was: bool = self.pending;
        self.pending = false;
        was
    }

    /// A known size that differs from the last one is remembered and pending.
    pub open spec fn resized(self, size: Option<(u32, u32)>) -> ResizeWatch {
        match size {
            Some((w, h)) => if w == self.last_width && h == self.last_height {
                self
            } else {
                ResizeWatch { last_width: w, last_height: h, pending: true, ..self }
            },
            None => self,
        }
    }

    /// Remember the size and mark it pending if it changed.
    pub fn mark_if_resized(&mut self, size: Option<(u32, u32)>)
        ensures
            *final(self) == old(self).resized(size),
    {
        match size {
            Some((w, h)) => {
                if w == self.last_width && h == self.last_height {
                    return;
                }
                self.last_width = w;
                self.last_height = h;
                self.pending = true;
            },
            None => {},
        }
    }

    /// The watch after a window event.
    pub open spec fn after(
        self,
        event: u32,
        hwnd: isize,
        id_object: i32,
        size: Option<(u32, u32)>,
    ) -> ResizeWatch {
        if id_object != OBJECT_WINDOW || self.target == 0 || hwnd != self.target {
            self
        } else if event == EVENT_MOVESIZE_START {
            ResizeWatch { in_movesize: true, ..self }
        } else if event == EVENT_MOVESIZE_END {
            (ResizeWatch { in_movesize: false, ..self }).resized(size)
        } else if event == EVENT_LOCATION_CHANGE && !self.in_movesize {
            self.resized(size)
        } else {
            self
        }
    }

    /// Take in a window event; `size` is the size of the target now.
    pub fn on_win_event(
        &mut self,
        event: u32,
        hwnd: isize,
        id_object: i32,
        size: Option<(u32, u32)>,
    )
        ensures
            *final(self) == old(self).after(event, hwnd, id_object, size),
    {
        if id_object != OBJECT_WINDOW {
            return;
        }
        if self.target == 0 || hwnd != self.target {
            return;
        }
        if event == EVENT_MOVESIZE_START {
            self.in_movesize = true;
        } else if event == EVENT_MOVESIZE_END {
            self.in_movesize = false;
            self.mark_if_resized(size);
        } else if event == EVENT_LOCATION_CHANGE && !self.in_movesize {
            self.mark_if_resized(size);
        }
    }
}

/// While the user drags the window, no size change becomes pending, whatever sizes it passes
/// through.
pub proof fn law_drag_is_not_pending(
    watch: ResizeWatch,
    event: u32,
    hwnd: isize,
    id_object: i32,
    size: Option<(u32, u32)>,
)
    requires
        watch.in_movesize,
        event != EVENT_MOVESIZE_END,
    ensures
        watch.after(event, hwnd, id_object, size) == watch,
{
}

/// Letting go of the window reports a change exactly when its size differs from the one before
/// the drag.
pub proof fn law_release_reports_a_new_size(watch: ResizeWatch, w: u32, h: u32)
    requires
        watch.target != 0,
        !watch.pending,
    ensures
        watch.after(EVENT_MOVESIZE_END, watch.target, OBJECT_WINDOW, Some((w, h))).pending == (w
            != watch.last_width || h != watch.last_height),
{
}

/// The size of a window is the distance of its edges; a window without an area has none.
pub proof fn law_size_is_the_distance_of_the_edges(rect: ScreenRect)
    ensures
        size_of_window(Some(rect)) is Some <==> rect.left < rect.right && rect.top < rect.bottom,
        size_of_window(Some(rect)) matches Some(s) ==> s.0 == rect.right - rect.left && s.1
            == rect.bottom - rect.top,
        size_of_window(None) is None,
{
}

/// Events of other windows and of parts of the window change nothing.
pub proof fn law_only_the_target_counts(
    watch: ResizeWatch,
    event: u32,
    hwnd: isize,
    id_object: i32,
    size: Option<(u32, u32)>,
)
    requires
        hwnd != watch.target || watch.target == 0 || id_object != 0,
    ensures
        watch.after(event, hwnd, id_object, size) == watch,
{
}

/// A window that is maximized, snapped or moved by a program reports its new size at once; one
/// that keeps its size reports nothing.
pub proof fn law_snapped_window_reports_at_once(watch: ResizeWatch, w: u32, h: u32)
    requires
        watch.target != 0,
        !watch.in_movesize,
    ensures
        ({
            let next = watch.after(0x800B, watch.target, 0, Some((w, h)));
            &&& next.last_width == w && next.last_height == h
            &&& next.pending == (watch.pending || w != watch.last_width || h != watch.last_height)
            &&& !next.in_movesize
            &&& next.target == watch.target
        }),
        watch.after(0x800B, watch.target, 0, None) == watch,
{
}

/// A drag in which the window passes through any size reports once, on release, and only if the
/// size differs from the one at its start.
pub proof fn law_drag_reports_on_release(
    watch: ResizeWatch,
    during: (u32, u32),
    end: (u32, u32),
)
    requires
        watch.target != 0,
        !watch.pending,
    ensures
        ({
            let start = watch.after(0x000A, watch.target, 0, Some(during));
            let dragged = start.after(0x800B, watch.target, 0, Some(during));
            let released = dragged.after(0x000B, watch.target, 0, Some(end));
            &&& start.in_movesize && dragged.in_movesize && !released.in_movesize
            &&& !start.pending && !dragged.pending
            &&& released.pending == (end != (watch.last_width, watch.last_height))
            &&& released.last_width == end.0 && released.last_height == end.1
        }),
{
}

/// A window that is followed anew owes nothing: its own size is not a change.
pub proof fn law_new_target_owes_nothing(hwnd: isize, size: (u32, u32), event: u32)
    requires
        hwnd != 0,
    ensures
        ({
            let watch = ResizeWatch::following(hwnd, Some(size));
            &&& !watch.pending && !watch.in_movesize && watch.target == hwnd
            &&& !watch.after(event, hwnd, 0, Some(size)).pending
        }),
        ({
            let watch = ResizeWatch::following(hwnd, None);
            size != (0u32, 0u32) ==> watch.after(0x000B, hwnd, 0, Some(size)).pending
        }),
{
}

} // verus!
