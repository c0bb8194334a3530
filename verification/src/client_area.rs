//! Map window chrome to client-area crop offsets for captured frames.

use crate::frame::{bytes_from, bytes_of, bytes_slice, rgba_len, CapturedFrame};
use crate::text::owned;
use vstd::arithmetic::div_mod::*;
use vstd::prelude::*;

verus! {

/// Why a capture operation failed.
#[derive(Debug)]
pub enum CaptureError {
    Capture(String),
    Window(String),
    Frame(String),
    AlreadyRunning,
}

impl CaptureError {
    /// The message shown for the error.
    pub open spec fn text(self) -> Seq<char> {
        match self {
            CaptureError::Capture(m) => "capture failed: "@ + m@,
            CaptureError::Window(m) => "window error: "@ + m@,
            CaptureError::Frame(m) => "frame conversion failed: "@ + m@,
            CaptureError::AlreadyRunning => "capture already running"@,
        }
    }

    /// The message shown for the error.
    pub fn message(&self) -> (r: String)
        ensures
            r@ == self.text(),
    {
        match self {
            CaptureError::Capture(m) => crate::text::joined("capture failed: ", m.as_str()),
            CaptureError::Window(m) => crate::text::joined("window error: ", m.as_str()),
            CaptureError::Frame(m) => crate::text::joined(
                "frame conversion failed: ",
                m.as_str(),
            ),
            CaptureError::AlreadyRunning => owned("capture already running"),
        }
    }
}

/// Rectangle in screen coordinates; the far edges are exclusive.
#[derive(Clone, Copy, Debug, PartialEq, Eq, Structural)]
pub struct ScreenRect {
    pub left: i32,
    pub top: i32,
    pub right: i32,
    pub bottom: i32,
}

impl ScreenRect {
    /// Width, zero for an inverted rectangle.
    pub open spec fn spec_width(self) -> int {
        if self.right > self.left {
            self.right - self.left
        } else {
            0
        }
    }

    /// Height, zero for an inverted rectangle.
    pub open spec fn spec_height(self) -> int {
        if self.bottom > self.top {
            self.bottom - self.top
        } else {
            0
        }
    }

    /// Not empty.
    pub open spec fn solid(self) -> bool {
        self.right > self.left && self.bottom > self.top
    }

    /// `inner` is not empty and lies inside.
    pub open spec fn contains(self, inner: ScreenRect) -> bool {
        &&& inner.left >= self.left
        &&& inner.top >= self.top
        &&& inner.right <= self.right
        &&& inner.bottom <= self.bottom
        &&& inner.solid()
    }

    fn width(&self) -> (r: u32)
        ensures
            r == self.spec_width(),
    {
        span(self.left, self.right)
    }

    fn height(&self) -> (r: u32)
        ensures
            r == self.spec_height(),
    {
        span(self.top, self.bottom)
    }
}

/// Distance from `from` to `to`, zero when `to` lies before.
fn span(from: i32, to: i32) -> (r: u32)
    ensures
        r == if to > from {
            to - from
        } else {
            0
        },
{
    if to > from {
        (to as i64 - from as i64) as u32
    } else {
        0
    }
}

/// What the window system reports of a window.
#[derive(Clone, Copy, Debug, PartialEq, Eq, Structural)]
pub struct WindowFacts {
    /// Window rectangle.
    pub window: ScreenRect,
    /// Client rectangle.
    pub client: ScreenRect,
    /// Extended frame bounds of the compositor, if it reports any.
    pub dwm: Option<ScreenRect>,
    /// The window has a caption.
    pub has_caption: bool,
    /// Height of caption, frame and padded border at the window's DPI.
    pub caption_px: i32,
}

/// Sizes and offsets of the client area inside the captured window frame.
#[derive(Clone, Copy, Debug, PartialEq, Eq, Structural)]
pub struct ClientAreaMetrics {
    pub window_width: u32,
    pub window_height: u32,
    pub client_width: u32,
    pub client_height: u32,
    pub offset_x: u32,
    pub offset_y: u32,
    pub frame_left: i32,
    pub frame_top: i32,
}

/// `v * num / den`, rounded up; `v` when nothing is to be scaled or the result does not fit.
pub open spec fn scaled_up(v: u32, num: u32, den: u32) -> u32 {
    if den == 0 || den == num {
        v
    } else {
        let q = (v * num + den - 1) / (den as int);
        if q <= u32::MAX {
            q as u32
        } else {
            v
        }
    }
}

/// `v * num / den`, rounded down; `v` when nothing is to be scaled or the result does not fit.
pub open spec fn scaled_down(v: u32, num: u32, den: u32) -> u32 {
    if den == 0 || den == num {
        v
    } else {
        let q = (v * num) / (den as int);
        if q <= u32::MAX {
            q as u32
        } else {
            v
        }
    }
}

proof fn lemma_product_fits(v: u32, num: u32)
    ensures
        0 <= v * num <= 0xFFFF_FFFE_0000_0001,
{
    assert(0 <= v * num <= 0xFFFF_FFFF * 0xFFFF_FFFF) by (nonlinear_arith)
        requires
            0 <= v <= 0xFFFF_FFFF,
            0 <= num <= 0xFFFF_FFFF,
    ;
}

/// Scale toward the outer edge so a fractional title bar cannot leak into the crop.
pub fn scale_ceil(v: u32, num: u32, den: u32) -> (r: u32)
    ensures
        r == scaled_up(v, num, den),
{
    if den == 0 || den == num {
        return v;
    }
    proof {
        lemma_product_fits(v, num);
    }
    let q: u64 = ((v as u64) * (num as u64) + (den as u64 - 1)) / (den as u64);
    if q <= u32::MAX as u64 {
        q as u32
    } else {
        v
    }
}

/// Scale toward the inner edge.
pub fn scale_floor(v: u32, num: u32, den: u32) -> (r: u32)
    ensures
        r == scaled_down(v, num, den),
{
    if den == 0 || den == num {
        return v;
    }
    proof {
        lemma_product_fits(v, num);
    }
    let q: u64 = ((v as u64) * (num as u64)) / (den as u64);
    if q <= u32::MAX as u64 {
        q as u32
    } else {
        v
    }
}

/// Scaling up never falls below scaling down, and they differ by at most one.
pub proof fn law_scales_enclose(v: u32, num: u32, den: u32)
    requires
        den > 0,
        (v * num + den - 1) / (den as int) <= u32::MAX,
    ensures
        scaled_down(v, num, den) <= scaled_up(v, num, den) <= scaled_down(v, num, den) + 1,
{
    if den != num {
        let n = v * num;
        let d = den as int;
        assert(n >= 0) by (nonlinear_arith)
            requires
                n == v * num,
                v >= 0,
                num >= 0,
        ;
        assert(n / d <= (n + d - 1) / d <= n / d + 1) by (nonlinear_arith)
            requires
                d > 0,
                n >= 0,
        ;
    }
}

pub open spec fn least(a: int, b: int) -> int {
    if a < b {
        a
    } else {
        b
    }
}

pub open spec fn most(a: int, b: int) -> int {
    if a > b {
        a
    } else {
        b
    }
}

fn min_u32(a: u32, b: u32) -> (r: u32)
    ensures
        r == least(a as int, b as int),
{
    if a < b {
        a
    } else {
        b
    }
}

fn max_u32(a: u32, b: u32) -> (r: u32)
    ensures
        r == most(a as int, b as int),
{
    if a > b {
        a
    } else {
        b
    }
}

impl WindowFacts {
    /// Compositor bounds that are not empty.
    pub open spec fn frame(self) -> Option<ScreenRect> {
        match self.dwm {
            Some(d) => if d.solid() {
                Some(d)
            } else {
                None
            },
            None => None,
        }
    }

    /// The compositor bounds enclose the client rectangle.
    pub open spec fn encloses(self) -> bool {
        self.frame() matches Some(d) && d.contains(self.client)
    }

    /// Metrics as the rectangles give them, against the enclosing frame.
    pub open spec fn measured(self) -> ClientAreaMetrics {
        let outer = if self.encloses() {
            self.frame()->0
        } else {
            self.window
        };
        ClientAreaMetrics {
            window_width: outer.spec_width() as u32,
            window_height: outer.spec_height() as u32,
            client_width: self.client.spec_width() as u32,
            client_height: self.client.spec_height() as u32,
            offset_x: most(self.client.left - outer.left, 0) as u32,
            offset_y: most(self.client.top - outer.top, 0) as u32,
            frame_left: outer.left,
            frame_top: outer.top,
        }
    }

    /// A window that reports its client area as the whole window gets the height of its caption
    /// as offset.
    pub open spec fn captioned(self) -> ClientAreaMetrics {
        let m = self.measured();
        let collapsed = m.offset_x == 0 && m.offset_y == 0 && m.client_width == m.window_width
            && m.client_height == m.window_height;
        if !self.encloses() && collapsed && self.has_caption && self.caption_px > 0 {
            ClientAreaMetrics {
                offset_y: least(self.caption_px as int, most(m.window_height - 1, 0)) as u32,
                ..m
            }
        } else {
            m
        }
    }

    /// Compositor bounds that do not enclose the client area replace the window rectangle; the
    /// offsets and sizes are scaled to them.
    pub open spec fn framed(self) -> ClientAreaMetrics {
        let m = self.captioned();
        match self.frame() {
            Some(d) => if self.encloses() {
                m
            } else {
                let w = d.spec_width() as u32;
                let h = d.spec_height() as u32;
                ClientAreaMetrics {
                    window_width: w,
                    window_height: h,
                    client_width: scaled_down(m.client_width, w, m.window_width),
                    client_height: scaled_down(m.client_height, h, m.window_height),
                    offset_x: scaled_up(m.offset_x, w, m.window_width),
                    offset_y: scaled_up(m.offset_y, h, m.window_height),
                    frame_left: d.left,
                    frame_top: d.top,
                }
            },
            None => m,
        }
    }

    /// The metrics of the window, `None` when it has no area.
    pub open spec fn metrics(self) -> Option<ClientAreaMetrics> {
        let m = self.framed();
        if m.window_width == 0 || m.window_height == 0 || m.client_width == 0 || m.client_height
            == 0 {
            None
        } else {
            let c = m.clamped();
            Some(
                if c.offset_y > 0 {
                    c.lowered().clamped()
                } else {
                    c
                },
            )
        }
    }
}

impl ClientAreaMetrics {
    /// Offsets inside the window, client area inside the rest, at least one pixel.
    pub open spec fn clamped(self) -> ClientAreaMetrics {
        if self.window_width == 0 || self.window_height == 0 {
            self
        } else {
            let x = least(self.offset_x as int, self.window_width - 1);
            let y = least(self.offset_y as int, self.window_height - 1);
            ClientAreaMetrics {
                offset_x: x as u32,
                offset_y: y as u32,
                client_width: most(
                    least(self.client_width as int, self.window_width - x),
                    1,
                ) as u32,
                client_height: most(
                    least(self.client_height as int, self.window_height - y),
                    1,
                ) as u32,
                ..self
            }
        }
    }

    /// One more pixel of inset at the top.
    pub open spec fn lowered(self) -> ClientAreaMetrics {
        ClientAreaMetrics {
            offset_y: least(self.offset_y + 1, u32::MAX as int) as u32,
            client_height: most(self.client_height - 1, 1) as u32,
            ..self
        }
    }

    /// The client area lies inside the window and is not empty.
    pub open spec fn fits(self) -> bool {
        &&& self.window_width > 0
        &&& self.window_height > 0
        &&& self.client_width > 0
        &&& self.client_height > 0
        &&& self.offset_x + self.client_width <= self.window_width
        &&& self.offset_y + self.client_height <= self.window_height
    }

    /// Metrics of a window from what the window system reports of it.
    ///
    /// Fails for a window without area.
    pub fn from_window(facts: &WindowFacts) -> (r: Result<ClientAreaMetrics, CaptureError>)
        ensures
            match r {
                Ok(m) => facts.metrics() == Some(m) && m.fits(),
                Err(e) => facts.metrics() is None && (e matches CaptureError::Window(text) && text@
                    == "empty window/client rect"@),
            },
    {
        let dwm: Option<ScreenRect> = match facts.dwm {
            Some(d) => if d.right > d.left && d.bottom > d.top {
                Some(d)
            } else {
                None
            },
            None => None,
        };
        let client: ScreenRect = facts.client;
        let encloses: bool = match dwm {
            Some(d) => client.left >= d.left && client.top >= d.top && client.right <= d.right
                && client.bottom <= d.bottom && client.right > client.left && client.bottom
                > client.top,
            None => false,
        };
        let outer: ScreenRect = match dwm {
            Some(d) => if encloses {
                d
            } else {
                facts.window
            },
            None => facts.window,
        };
        let mut m: ClientAreaMetrics = ClientAreaMetrics {
            window_width: outer.width(),
            window_height: outer.height(),
            client_width: client.width(),
            client_height: client.height(),
            offset_x: span(outer.left, client.left),
            offset_y: span(outer.top, client.top),
            frame_left: outer.left,
            frame_top: outer.top,
        };
        assert(m == facts.measured());
        let collapsed: bool = m.offset_x == 0 && m.offset_y == 0 && m.client_width == m.window_width
            && m.client_height == m.window_height;
        if !encloses && collapsed && facts.has_caption && facts.caption_px > 0 {
            let room: u32 = if m.window_height > 0 {
                m.window_height - 1
            } else {
                0
            };
            m.offset_y = min_u32(facts.caption_px as u32, room);
        }
        assert(m == facts.captioned());
        if !encloses {
            match dwm {
                Some(d) => {
                    let num_w: u32 = d.width();
                    let num_h: u32 = d.height();
                    m.offset_x = scale_ceil(m.offset_x, num_w, m.window_width);
                    m.offset_y = scale_ceil(m.offset_y, num_h, m.window_height);
                    m.client_width = scale_floor(m.client_width, num_w, m.window_width);
                    m.client_height = scale_floor(m.client_height, num_h, m.window_height);
                    m.window_width = num_w;
                    m.window_height = num_h;
                    m.frame_left = d.left;
                    m.frame_top = d.top;
                },
                None => {},
            }
        }
        assert(m == facts.framed());
        if m.window_width == 0 || m.window_height == 0 || m.client_width == 0 || m.client_height
            == 0 {
            return Err(CaptureError::Window(owned("empty window/client rect")));
        }
        m.clamp();
        // The captured frame can sit one pixel above the client area; bump an existing inset,
        // never invent one.
        if m.offset_y > 0 {
            m.offset_y = if m.offset_y < u32::MAX {
                m.offset_y + 1
            } else {
                m.offset_y
            };
            m.client_height = max_u32(
                if m.client_height > 0 {
                    m.client_height - 1
                } else {
                    0
                },
                1,
            );
            m.clamp();
        }
        Ok(m)
    }

    /// Hold offsets and client area to the window.
    pub fn clamp(&mut self)
        ensures
            *final(self) == old(self).clamped(),
    {
        if self.window_width == 0 || self.window_height == 0 {
            return;
        }
        self.offset_x = min_u32(self.offset_x, self.window_width - 1);
        self.offset_y = min_u32(self.offset_y, self.window_height - 1);
        self.client_width = max_u32(
            min_u32(self.client_width, self.window_width - self.offset_x),
            1,
        );
        self.client_height = max_u32(
            min_u32(self.client_height, self.window_height - self.offset_y),
            1,
        );
    }

    /// Client rect on screen `(left, top, width, height)`, same geometry as the crop.
    pub fn screen_rect(&self) -> (r: (i32, i32, i32, i32))
        ensures
            r.0 == least(self.frame_left + self.offset_x, i32::MAX as int),
            r.1 == least(self.frame_top + self.offset_y, i32::MAX as int),
            r.2 == most(self.client_width as int, 1) as u32 as i32,
            r.3 == most(self.client_height as int, 1) as u32 as i32,
    {
        (
            plus(self.frame_left, self.offset_x),
            plus(self.frame_top, self.offset_y),
            max_u32(self.client_width, 1) as i32,
            max_u32(self.client_height, 1) as i32,
        )
    }

    /// Where the client area lies in a `width × height` frame: `(x, y, width, height)`.
    pub open spec fn crop_in(self, width: u32, height: u32) -> (u32, u32, u32, u32) {
        let den_w = most(self.window_width as int, 1) as u32;
        let den_h = most(self.window_height as int, 1) as u32;
        let x = least(scaled_up(self.offset_x, width, den_w) as int, width - 1);
        let y = least(scaled_up(self.offset_y, height, den_h) as int, height - 1);
        let w = least(most(scaled_down(self.client_width, width, den_w) as int, 1), width - x);
        let h = least(most(scaled_down(self.client_height, height, den_h) as int, 1), height - y);
        (x as u32, y as u32, w as u32, h as u32)
    }

    /// `out` is the client area of `frame`.
    pub open spec fn is_crop(self, frame: CapturedFrame, out: CapturedFrame) -> bool {
        let (x, y, w, h) = self.crop_in(frame.width, frame.height);
        if frame.width == 0 || frame.height == 0 || (x == 0 && y == 0 && w == frame.width && h
            == frame.height) {
            out.same_frame(frame)
        } else {
            &&& out.width == w
            &&& out.height == h
            &&& out.sequence == frame.sequence
            &&& bytes_of(out.rgba) == cut(bytes_of(frame.rgba), frame.width, x, y, w, h)
        }
    }

    /// Crop a frame to the client area.
    ///
    /// Rows that the buffer does not hold stay black; a crop of the whole frame shares its
    /// buffer.
    pub fn crop_frame(&self, frame: &CapturedFrame) -> (r: CapturedFrame)
        requires
            rgba_len(frame.width, frame.height) <= usize::MAX,
        ensures
            self.is_crop(*frame, r),
    {
        if frame.width == 0 || frame.height == 0 {
            return frame.clone();
        }
        let den_w: u32 = max_u32(self.window_width, 1);
        let den_h: u32 = max_u32(self.window_height, 1);
        let x: u32 = min_u32(scale_ceil(self.offset_x, frame.width, den_w), frame.width - 1);
        let y: u32 = min_u32(scale_ceil(self.offset_y, frame.height, den_h), frame.height - 1);
        let w: u32 = min_u32(
            max_u32(scale_floor(self.client_width, frame.width, den_w), 1),
            frame.width - x,
        );
        let h: u32 = min_u32(
            max_u32(scale_floor(self.client_height, frame.height, den_h), 1),
            frame.height - y,
        );
        if x == 0 && y == 0 && w == frame.width && h == frame.height {
            return frame.clone();
        }
        let rgba: Vec<u8> = cut_out(
            bytes_slice(&frame.rgba),
            frame.width,
            frame.height,
            x,
            y,
            w,
            h,
        );
        CapturedFrame { width: w, height: h, rgba: bytes_from(rgba), sequence: frame.sequence }
    }
}

fn plus(base: i32, by: u32) -> (r: i32)
    ensures
        r == least(base + by, i32::MAX as int),
{
    let sum: i64 = base as i64 + by as i64;
    if sum < i32::MAX as i64 {
        sum as i32
    } else {
        i32::MAX
    }
}

/// First byte, in a frame of width `width`, of row `row` of a cut at `(x, y)`.
pub open spec fn row_start(width: u32, x: u32, y: u32, row: int) -> int {
    ((y + row) * width + x) * 4
}

/// A `w × h` cut at `(x, y)`; rows that the buffer does not hold are zero.
pub open spec fn cut(rgba: Seq<u8>, width: u32, x: u32, y: u32, w: u32, h: u32) -> Seq<u8> {
    Seq::new(
        (w * h * 4) as nat,
        |k: int|
            {
                let start = row_start(width, x, y, k / (w * 4));
                if start + w * 4 <= rgba.len() {
                    rgba[start + k % (w * 4)]
                } else {
                    0u8
                }
            },
    )
}

fn cut_out(rgba: &[u8], width: u32, height: u32, x: u32, y: u32, w: u32, h: u32) -> (out: Vec<u8>)
    requires
        0 < w,
        0 < h,
        x + w <= width,
        y + h <= height,
        rgba_len(width, height) <= usize::MAX,
    ensures
        out@ == cut(rgba@, width, x, y, w, h),
{
    let ghost want = cut(rgba@, width, x, y, w, h);
    let mut out: Vec<u8> = Vec::new();
    let mut row: u32 = 0;
    proof {
        lemma_cut_bounds(width as int, height as int, x as int, y as int, w as int, 0);
    }
    let n: usize = w as usize * 4;
    assert(0 * n == 0);
    while row < h
        invariant
            row <= h,
            n == w * 4,
            n > 0,
            x + w <= width,
            y + h <= height,
            rgba_len(width, height) <= usize::MAX,
            want == cut(rgba@, width, x, y, w, h),
            out@.len() == row * n,
            forall|k: int| 0 <= k < out@.len() ==> #[trigger] out@[k] == want[k],
        decreases h - row,
    {
        proof {
            lemma_cut_bounds(width as int, height as int, x as int, y as int, w as int, row as int);
            assert((row + 1) * n == row * n + n) by (nonlinear_arith);
            assert((row + 1) * n <= w * h * 4) by (nonlinear_arith)
                requires
                    row + 1 <= h,
                    n == w * 4,
            ;
        }
        let src: usize = ((y + row) as usize * width as usize + x as usize) * 4;
        let held: bool = src + n <= rgba.len();
        let mut k: usize = 0;
        while k < n
            invariant
                k <= n,
                row < h,
                n == w * 4,
                n > 0,
                src == row_start(width, x, y, row as int),
                src + n <= usize::MAX,
                held == (src + n <= rgba@.len()),
                (row + 1) * n == row * n + n,
                (row + 1) * n <= w * h * 4,
                want == cut(rgba@, width, x, y, w, h),
                out@.len() == row * n + k,
                forall|j: int| 0 <= j < out@.len() ==> #[trigger] out@[j] == want[j],
            decreases n - k,
        {
            proof {
                lemma_fundamental_div_mod_converse(row * n + k, n as int, row as int, k as int);
            }
            if held {
                let byte: u8 = rgba[src + k];
                out.push(byte);
            } else {
                out.push(0);
            }
            k = k + 1;
        }
        row = row + 1;
    }
    assert(h * n == w * h * 4) by (nonlinear_arith)
        requires
            n == w * 4,
    ;
    assert(out@ =~= want);
    out
}

proof fn lemma_cut_bounds(width: int, height: int, x: int, y: int, w: int, row: int)
    requires
        0 <= x,
        0 <= y,
        0 < w,
        0 <= row,
        x + w <= width,
        y + row < height,
    ensures
        0 <= (y + row) * width,
        0 <= ((y + row) * width + x) * 4,
        ((y + row) * width + x) * 4 + w * 4 <= width * height * 4,
{
    assert(0 <= (y + row) * width) by (nonlinear_arith)
        requires
            0 <= y + row,
            0 <= width,
    ;
    assert((y + row) * width + width <= width * height) by (nonlinear_arith)
        requires
            0 <= y + row,
            y + row + 1 <= height,
            0 <= width,
    ;
}

/// Client rect on screen of a window, `None` when the window has no area or is gone.
pub fn client_screen_rect(facts: Option<WindowFacts>) -> (r: Option<(i32, i32, i32, i32)>)
    ensures
        r is Some == (facts matches Some(f) && f.metrics() is Some),
        r matches Some(rect) ==> {
            let m = facts->0.metrics()->0;
            &&& rect.0 == least(m.frame_left + m.offset_x, i32::MAX as int)
            &&& rect.1 == least(m.frame_top + m.offset_y, i32::MAX as int)
            &&& rect.2 == most(m.client_width as int, 1) as u32 as i32
            &&& rect.3 == most(m.client_height as int, 1) as u32 as i32
        },
{
    match facts {
        Some(f) => match ClientAreaMetrics::from_window(&f) {
            Ok(m) => Some(m.screen_rect()),
            Err(_) => None,
        },
        None => None,
    }
}

/// Crop a frame to the client area of its window; the frame itself when the window has no area
/// or is gone.
pub fn crop_frame_to_client(facts: Option<WindowFacts>, frame: CapturedFrame) -> (r: CapturedFrame)
    requires
        rgba_len(frame.width, frame.height) <= usize::MAX,
    ensures
        !(facts matches Some(f) && f.metrics() is Some) ==> r == frame,
        facts matches Some(f) ==> (f.metrics() matches Some(m) ==> m.is_crop(frame, r)),
{
    match facts {
        Some(f) => match ClientAreaMetrics::from_window(&f) {
            Ok(m) => m.crop_frame(&frame),
            Err(_) => frame,
        },
        None => frame,
    }
}

/// Clamping settles at once.
pub proof fn law_clamp_idempotent(m: ClientAreaMetrics)
    ensures
        m.clamped().clamped() == m.clamped(),
        m.window_width > 0 && m.window_height > 0 ==> m.clamped().fits(),
{
}

/// Scaling multiplies by the ratio and rounds to the next whole pixel, outward or inward; equal
/// sides leave the value alone.
pub proof fn law_scaling_rounds_outward_or_inward(v: u32, num: u32, den: u32)
    requires
        den > 0,
        (v * num + den - 1) / (den as int) <= u32::MAX,
    ensures
        num == den ==> scaled_up(v, num, den) == v && scaled_down(v, num, den) == v,
        num != den ==> {
            &&& scaled_up(v, num, den) * den >= v * num
            &&& (scaled_up(v, num, den) - 1) * den < v * num
            &&& scaled_down(v, num, den) * den <= v * num
            &&& (scaled_down(v, num, den) + 1) * den > v * num
        },
{
    if num != den {
        let n = v * num;
        let d = den as int;
        assert(n >= 0) by (nonlinear_arith)
            requires
                n == v * num,
                v >= 0,
                num >= 0,
        ;
        law_scales_enclose(v, num, den);
        let up = (n + d - 1) / d;
        let down = n / d;
        assert(up >= 0 && down >= 0 && down <= up) by (nonlinear_arith)
            requires
                n >= 0,
                d > 0,
                up == (n + d - 1) / d,
                down == n / d,
        ;
        assert(up * d >= n && (up - 1) * d < n && down * d <= n && (down + 1) * d > n)
            by (nonlinear_arith)
            requires
                n >= 0,
                d > 0,
                up == (n + d - 1) / d,
                down == n / d,
        ;
    }
}

/// A frame of the compositor that encloses the client area is what is captured: the client area
/// lies in it at the distance of their edges, one pixel lower where there is a title bar.
pub proof fn law_client_area_is_found_in_the_frame(facts: WindowFacts, d: ScreenRect)
    requires
        facts.dwm == Some(d),
        facts.client.left < facts.client.right,
        facts.client.top < facts.client.bottom,
        d.left <= facts.client.left,
        facts.client.right <= d.right,
        d.top <= facts.client.top,
        facts.client.bottom <= d.bottom,
    ensures
        facts.metrics() is Some,
        ({
            let m = facts.metrics()->0;
            &&& m.window_width == d.right - d.left
            &&& m.window_height == d.bottom - d.top
            &&& m.frame_left == d.left
            &&& m.frame_top == d.top
            &&& m.offset_x == facts.client.left - d.left
            &&& m.client_width == facts.client.right - facts.client.left
            &&& facts.client.top == d.top ==> m.offset_y == 0 && m.client_height
                == facts.client.bottom - facts.client.top
            &&& facts.client.top > d.top && facts.client.bottom - facts.client.top > 1
                ==> m.offset_y == facts.client.top - d.top + 1 && m.client_height
                == facts.client.bottom - facts.client.top - 1
        }),
{
}

/// Without a frame of the compositor the client area is found in the window; a window that
/// reports the whole of itself as client area is cut below its caption.
pub proof fn law_client_area_is_found_in_the_window(facts: WindowFacts)
    requires
        facts.dwm is None,
        facts.client.left < facts.client.right,
        facts.client.top < facts.client.bottom,
        facts.window.left <= facts.client.left,
        facts.client.right <= facts.window.right,
        facts.window.top <= facts.client.top,
        facts.client.bottom <= facts.window.bottom,
    ensures
        facts.metrics() is Some,
        ({
            let m = facts.metrics()->0;
            let whole = facts.client == facts.window;
            let height = facts.window.bottom - facts.window.top;
            &&& m.window_width == facts.window.right - facts.window.left
            &&& m.window_height == height
            &&& m.frame_left == facts.window.left
            &&& m.frame_top == facts.window.top
            &&& m.offset_x == facts.client.left - facts.window.left
            &&& m.client_width == facts.client.right - facts.client.left
            &&& whole && !(facts.has_caption && facts.caption_px > 0) ==> m.offset_y == 0
                && m.client_height == height
            &&& whole && facts.has_caption && 0 < facts.caption_px < height - 1 ==> m.offset_y
                == facts.caption_px + 1 && m.client_height == height - facts.caption_px - 1
            &&& !whole && facts.client.top == facts.window.top ==> m.offset_y == 0
                && m.client_height == facts.client.bottom - facts.client.top
            &&& facts.client.top > facts.window.top && facts.client.bottom - facts.client.top > 1
                ==> m.offset_y == facts.client.top - facts.window.top + 1 && m.client_height
                == facts.client.bottom - facts.client.top - 1
        }),
{
}

/// A window or a client area without an area has no metrics; what has metrics fits its window.
pub proof fn law_empty_window_has_no_metrics(facts: WindowFacts)
    ensures
        facts.client.right <= facts.client.left ==> facts.metrics() is None,
        facts.client.bottom <= facts.client.top ==> facts.metrics() is None,
        facts.metrics() matches Some(m) ==> m.client_width > 0 && m.client_height > 0 && m.offset_x
            + m.client_width <= m.window_width && m.offset_y + m.client_height
            <= m.window_height,
{
    let m = facts.framed();
    law_clamp_idempotent(m);
    law_clamp_idempotent(m.clamped().lowered());
    if facts.client.right <= facts.client.left {
        assert(facts.captioned().client_width == 0);
        assert forall|num: u32, den: u32| #[trigger] scaled_down(0, num, den) == 0 by {
            lemma_nothing_scaled(num, den);
        }
    }
    if facts.client.bottom <= facts.client.top {
        assert(facts.captioned().client_height == 0);
        assert forall|num: u32, den: u32| #[trigger] scaled_down(0, num, den) == 0 by {
            lemma_nothing_scaled(num, den);
        }
    }
}

proof fn lemma_nothing_scaled(num: u32, den: u32)
    ensures
        scaled_down(0, num, den) == 0,
{
    if den > 0 {
        assert(0 * num == 0);
        assert(0int / (den as int) == 0) by (nonlinear_arith)
            requires
                den > 0,
        ;
    }
}

/// The crop lies inside the frame and is not empty; a frame of the size of the window is cut at
/// the very offsets of the client area.
pub proof fn law_crop_lies_in_the_frame(m: ClientAreaMetrics, width: u32, height: u32)
    requires
        width > 0,
        height > 0,
    ensures
        ({
            let (x, y, w, h) = m.crop_in(width, height);
            &&& w > 0 && h > 0
            &&& x + w <= width
            &&& y + h <= height
            &&& m.fits() && width == m.window_width && height == m.window_height ==> x == m.offset_x
                && y == m.offset_y && w == m.client_width && h == m.client_height
        }),
{
}

/// A cut holds the pixels of its place, where the buffer holds them.
pub proof fn law_cut_holds_its_pixels(
    rgba: Seq<u8>,
    width: u32,
    x: u32,
    y: u32,
    w: u32,
    h: u32,
    row: int,
    col: int,
    part: int,
)
    requires
        0 <= row < h,
        0 <= col < w,
        0 <= part < 4,
    ensures
        cut(rgba, width, x, y, w, h).len() == w * h * 4,
        0 <= (row * w + col) * 4 + part < w * h * 4,
        ((y + row) * width + x + w) * 4 <= rgba.len() ==> cut(rgba, width, x, y, w, h)[(row * w
            + col) * 4 + part] == rgba[((y + row) * width + x + col) * 4 + part],
        ((y + row) * width + x + w) * 4 > rgba.len() ==> cut(rgba, width, x, y, w, h)[(row * w
            + col) * 4 + part] == 0,
{
    let n = w * 4;
    let k = col * 4 + part;
    assert((row * w + col) * 4 + part == row * n + k) by (nonlinear_arith)
        requires
            n == w * 4,
            k == col * 4 + part,
    ;
    lemma_fundamental_div_mod_converse(row * n + k, n as int, row, k);
    assert(0 <= row * n + k < w * h * 4) by (nonlinear_arith)
        requires
            0 <= row < h,
            0 <= k < n,
            n == w * 4,
    ;
}

} // verus!
