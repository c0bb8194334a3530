//! Recognizing shell and control windows, and the repair of the taskbar z-order.

use crate::fingerprint::{lemma_lex_total, lemma_lex_trans, lex_at_most, lex_le};
use crate::sorting::positions_below;
use crate::text::{chars_of, trim, trimmed};
use vstd::prelude::*;

verus! {

/// Title of the control window.
pub const APP_TITLE: &'static str = "Translator Overlay";

/// Window class of the control window.
pub const MAIN_WINDOW_CLASS: &'static str = "WinUIDesktopWin32WindowClass";

/// Window class of the taskbar on the primary display.
pub const PRIMARY_TASKBAR_CLASS: &'static str = "Shell_TrayWnd";

/// Window class of the taskbar on other displays.
pub const SECONDARY_TASKBAR_CLASS: &'static str = "Shell_SecondaryTrayWnd";

/// Window message: an application was activated or deactivated.
pub const WM_ACTIVATEAPP: u32 = 0x001C;

/// Window message: the window is being destroyed.
pub const WM_NCDESTROY: u32 = 0x0082;

/// UTF-16 units of a character.
pub open spec fn utf16_units(c: char) -> Seq<u16> {
    let u = c as u32;
    if u < 0x1_0000 {
        seq![u as u16]
    } else {
        seq![(0xD800 + (u - 0x1_0000) / 0x400) as u16, (0xDC00 + (u - 0x1_0000) % 0x400) as u16]
    }
}

/// UTF-16 units of a text.
pub open spec fn utf16(s: Seq<char>) -> Seq<u16>
    decreases s.len(),
{
    if s.len() == 0 {
        Seq::empty()
    } else {
        utf16(s.drop_last()) + utf16_units(s.last())
    }
}

fn push_units(out: &mut Vec<u16>, c: char)
    ensures
        final(out)@ == old(out)@ + utf16_units(c),
{
    let u: u32 = c as u32;
    if u < 0x1_0000 {
        out.push(u as u16);
    } else {
        out.push((0xD800 + (u - 0x1_0000) / 0x400) as u16);
        out.push((0xDC00 + (u - 0x1_0000) % 0x400) as u16);
    }
    assert(out@ =~= old(out)@ + utf16_units(c));
}

/// True when `value` is the UTF-16 form of `expected`.
pub fn utf16_matches(value: &[u16], expected: &str) -> (r: bool)
    ensures
        r == (value@ == utf16(expected@)),
{
    let chars: Vec<char> = chars_of(expected);
    let mut units: Vec<u16> = Vec::new();
    let mut i: usize = 0;
    assert(chars@.take(0) =~= Seq::<char>::empty());
    while i < chars.len()
        invariant
            i <= chars@.len(),
            units@ == utf16(chars@.take(i as int)),
        decreases chars@.len() - i,
    {
        push_units(&mut units, chars[i]);
        assert(chars@.take(i + 1).drop_last() =~= chars@.take(i as int));
        i = i + 1;
    }
    assert(chars@.take(i as int) =~= chars@);
    if value.len() != units.len() {
        return false;
    }
    let mut k: usize = 0;
    while k < units.len()
        invariant
            k <= units@.len(),
            value@.len() == units@.len(),
            units@ == utf16(expected@),
            forall|j: int| 0 <= j < k ==> #[trigger] value@[j] == units@[j],
        decreases units@.len() - k,
    {
        if value[k] != units[k] {
            assert(value@[k as int] != units@[k as int]);
            return false;
        }
        k = k + 1;
    }
    assert(value@ =~= units@);
    true
}

/// True for the window classes of the primary and secondary taskbars.
pub fn is_taskbar_class(class_name: &[u16]) -> (r: bool)
    ensures
        r == (class_name@ == utf16(PRIMARY_TASKBAR_CLASS@) || class_name@ == utf16(
            SECONDARY_TASKBAR_CLASS@,
        )),
{
    utf16_matches(class_name, PRIMARY_TASKBAR_CLASS) || utf16_matches(
        class_name,
        SECONDARY_TASKBAR_CLASS,
    )
}

/// True for the control window, by class and title.
pub fn is_main_window(class_name: &[u16], title: &[u16]) -> (r: bool)
    ensures
        r == (class_name@ == utf16(MAIN_WINDOW_CLASS@) && title@ == utf16(APP_TITLE@)),
{
    utf16_matches(class_name, MAIN_WINDOW_CLASS) && utf16_matches(title, APP_TITLE)
}

/// What a message of the control window leads to.
#[derive(Clone, Copy, Debug, PartialEq, Eq, Structural)]
pub enum MessageAction {
    Delegate,
    ScheduleRestore,
    RestoreTaskbars,
    RemoveSubclass,
}

/// What a message of the control window leads to: the private message restores the taskbars,
/// activation schedules that, destruction ends it, everything else is passed on.
pub fn classify_message(message: u32, wparam: usize, restore_message: u32) -> (r: MessageAction)
    ensures
        r == if message == restore_message {
            MessageAction::RestoreTaskbars
        } else if message == WM_ACTIVATEAPP && wparam != 0 {
            MessageAction::ScheduleRestore
        } else if message == WM_NCDESTROY {
            MessageAction::RemoveSubclass
        } else {
            MessageAction::Delegate
        },
{
    if message == restore_message {
        MessageAction::RestoreTaskbars
    } else if message == WM_ACTIVATEAPP && wparam != 0 {
        MessageAction::ScheduleRestore
    } else if message == WM_NCDESTROY {
        MessageAction::RemoveSubclass
    } else {
        MessageAction::Delegate
    }
}

/// Counts of one repair of the taskbar z-order.
#[derive(Clone, Copy, Debug, PartialEq, Eq, Structural)]
pub struct RestackStats {
    pub matched: u32,
    pub restored_topmost: u32,
    pub restored_non_topmost: u32,
    pub restored: u32,
    pub failed: u32,
}

impl RestackStats {
    /// Every taskbar that was found was restored or failed, each restored one was of one kind.
    pub open spec fn balanced(self) -> bool {
        &&& self.matched == self.restored + self.failed
        &&& self.restored == self.restored_topmost + self.restored_non_topmost
    }

    /// Nothing counted.
    pub fn new() -> (r: RestackStats)
        ensures
            r.balanced(),
            r.matched == 0,
    {
        RestackStats {
            matched: 0,
            restored_topmost: 0,
            restored_non_topmost: 0,
            restored: 0,
            failed: 0,
        }
    }

    /// Count one taskbar.
    pub fn record(&mut self, is_topmost: bool, restored: bool)
        requires
            old(self).balanced(),
            old(self).matched < u32::MAX,
        ensures
            final(self).balanced(),
            final(self).matched == old(self).matched + 1,
            final(self).failed == old(self).failed + if restored {
                0int
            } else {
                1int
            },
            final(self).restored_topmost == old(self).restored_topmost + if restored && is_topmost {
                1int
            } else {
                0int
            },
    {
        self.matched = self.matched + 1;
        if restored {
            self.restored = self.restored + 1;
            if is_topmost {
                self.restored_topmost = self.restored_topmost + 1;
            } else {
                self.restored_non_topmost = self.restored_non_topmost + 1;
            }
        } else {
            self.failed = self.failed + 1;
        }
    }
}

/// Extended style bit of a topmost window.
pub const WS_EX_TOPMOST: u32 = 0x0000_0008;

/// True when the extended style marks a topmost window.
pub fn is_topmost_style(extended_style: u32) -> (r: bool)
    ensures
        r == (extended_style & WS_EX_TOPMOST != 0),
{
    extended_style & WS_EX_TOPMOST != 0
}

/// True for the control window of the process `own`, by process and class.
pub fn is_control_window(process: u32, own: u32, class_name: &[u16]) -> (r: bool)
    ensures
        r == (process == own && class_name@ == utf16(MAIN_WINDOW_CLASS@)),
{
    process == own && utf16_matches(class_name, MAIN_WINDOW_CLASS)
}

/// The control window to flash: none where there is none or it is focused.
pub fn flash_target(control: Option<isize>, focused_root: isize) -> (r: Option<isize>)
    ensures
        r == match control {
            Some(hwnd) => if hwnd == focused_root {
                None
            } else {
                Some(hwnd)
            },
            None => None,
        },
{
    match control {
        Some(hwnd) => if hwnd == focused_root {
            None
        } else {
            Some(hwnd)
        },
        None => None,
    }
}

/// A window that can be captured, as the window system lists it.
#[derive(Debug)]
pub struct WindowCandidate {
    pub title: String,
    pub hwnd: isize,
    pub valid: bool,
}

/// Summary of a capturable window for UI lists.
#[derive(Debug, PartialEq)]
pub struct WindowInfo {
    pub title: String,
    pub hwnd: isize,
}

impl Clone for WindowInfo {
    fn clone(&self) -> (r: Self)
        ensures
            r == *self,
    {
        WindowInfo { title: self.title.clone(), hwnd: self.hwnd }
    }
}

/// The lowercase form of a text.
pub uninterp spec fn lowercase_of(s: Seq<char>) -> Seq<char>;

/// Calls `str::to_lowercase`: the lowercase form of the text by Unicode rules.
#[verifier::external_body]
fn lowercase(s: &str) -> (r: String)
    ensures
        r@ == lowercase_of(s@),
{
    s.to_lowercase()
}

/// Capturable windows: valid ones with a title, in order.
pub open spec fn listed(candidates: Seq<WindowCandidate>) -> Seq<WindowInfo>
    decreases candidates.len(),
{
    if candidates.len() == 0 {
        Seq::empty()
    } else {
        let before = listed(candidates.drop_last());
        let c = candidates.last();
        if c.valid && trim(c.title@).len() > 0 {
            before.push(WindowInfo { title: c.title, hwnd: c.hwnd })
        } else {
            before
        }
    }
}

/// `x` put behind every position of `s` whose key does not come after its own.
pub open spec fn placed_by_key(keys: Seq<Seq<char>>, s: Seq<usize>, x: usize) -> Seq<usize>
    decreases s.len(),
{
    if s.len() == 0 || lex_le(keys[s.last() as int], keys[x as int]) {
        s.push(x)
    } else {
        placed_by_key(keys, s.drop_last(), x).push(s.last())
    }
}

/// The first `n` positions by key; equal keys keep their order.
pub open spec fn key_order(keys: Seq<Seq<char>>, n: int) -> Seq<usize>
    decreases n,
{
    if n <= 0 {
        Seq::empty()
    } else {
        placed_by_key(keys, key_order(keys, n - 1), (n - 1) as usize)
    }
}

/// Characters of a list of texts.
pub open spec fn text_views(texts: Seq<String>) -> Seq<Seq<char>> {
    texts.map_values(|t: String| t@)
}

fn place_by_key(keys: &Vec<String>, s: &mut Vec<usize>, x: usize)
    requires
        x < keys@.len(),
        positions_below(old(s)@, keys@.len() as int),
    ensures
        final(s)@ == placed_by_key(text_views(keys@), old(s)@, x),
        positions_below(final(s)@, keys@.len() as int),
{
    let ghost before = s@;
    let ghost all = text_views(keys@);
    let key: Vec<char> = chars_of(keys[x].as_str());
    let mut at: usize = s.len();
    assert(before.take(before.len() as int) =~= before);
    assert(before.skip(before.len() as int) =~= Seq::<usize>::empty());
    assert(placed_by_key(all, before, x) =~= placed_by_key(all, before, x) + Seq::<usize>::empty());
    while at > 0 && !lex_at_most(&chars_of(keys[s[at - 1]].as_str()), &key)
        invariant
            at <= before.len(),
            s@ == before,
            x < keys@.len(),
            all == text_views(keys@),
            positions_below(before, keys@.len() as int),
            key@ == all[x as int],
            placed_by_key(all, before, x) == placed_by_key(all, before.take(at as int), x)
                + before.skip(at as int),
        decreases at,
    {
        proof {
            let t = before.take(at as int);
            assert(t.last() == before[at - 1]);
            assert(t.drop_last() =~= before.take(at - 1));
            assert(placed_by_key(all, t, x) == placed_by_key(all, before.take(at - 1), x).push(
                t.last(),
            ));
            assert(placed_by_key(all, before.take(at - 1), x).push(t.last()) + before.skip(
                at as int,
            ) =~= placed_by_key(all, before.take(at - 1), x) + before.skip(at - 1));
        }
        at = at - 1;
    }
    proof {
        let t = before.take(at as int);
        if at > 0 {
            assert(t.last() == before[at - 1]);
        }
        assert(placed_by_key(all, t, x) == t.push(x));
        assert(t.push(x) + before.skip(at as int) =~= before.insert(at as int, x));
    }
    s.insert(at, x);
    assert forall|i: int| 0 <= i < s@.len() implies #[trigger] s@[i] < keys@.len() by {
        if i < at {
            assert(s@[i] == before[i]);
        } else if i > at {
            assert(s@[i] == before[i - 1]);
        }
    }
}

/// Positions of `keys` in text order; equal keys keep their order.
pub fn order_by_key(keys: &Vec<String>) -> (r: Vec<usize>)
    ensures
        r@ == key_order(text_views(keys@), keys@.len() as int),
        positions_below(r@, keys@.len() as int),
{
    let mut out: Vec<usize> = Vec::new();
    let mut i: usize = 0;
    while i < keys.len()
        invariant
            i <= keys@.len(),
            positions_below(out@, keys@.len() as int),
            out@ == key_order(text_views(keys@), i as int),
        decreases keys@.len() - i,
    {
        place_by_key(keys, &mut out, i);
        i = i + 1;
    }
    out
}

/// Windows that can be captured, by lowercase title.
pub fn list_windows(candidates: &Vec<WindowCandidate>) -> (r: Vec<WindowInfo>)
    ensures
        ({
            let windows = listed(candidates@);
            let keys = windows.map_values(|w: WindowInfo| lowercase_of(w.title@));
            r@ == key_order(keys, keys.len() as int).map_values(|i: usize| windows[i as int])
        }),
{
    let mut windows: Vec<WindowInfo> = Vec::new();
    let mut keys: Vec<String> = Vec::new();
    let mut i: usize = 0;
    let ghost lower = |w: WindowInfo| lowercase_of(w.title@);
    assert(candidates@.take(0) =~= Seq::<WindowCandidate>::empty());
    assert(text_views(keys@) =~= windows@.map_values(lower));
    while i < candidates.len()
        invariant
            i <= candidates@.len(),
            lower == (|w: WindowInfo| lowercase_of(w.title@)),
            windows@ == listed(candidates@.take(i as int)),
            text_views(keys@) == windows@.map_values(lower),
        decreases candidates@.len() - i,
    {
        assert(candidates@.take(i + 1).drop_last() =~= candidates@.take(i as int));
        assert(candidates@.take(i + 1).last() == candidates@[i as int]);
        let c: &WindowCandidate = &candidates[i];
        if c.valid && !trimmed(c.title.as_str()).as_str().is_empty() {
            let ghost before = windows@;
            let ghost keys_before = keys@;
            windows.push(WindowInfo { title: c.title.clone(), hwnd: c.hwnd });
            keys.push(lowercase(c.title.as_str()));
            assert(text_views(keys@) =~= text_views(keys_before).push(lowercase_of(c.title@)));
            assert(windows@.map_values(lower) =~= before.map_values(lower).push(
                lowercase_of(c.title@),
            ));
        }
        i = i + 1;
    }
    assert(candidates@.take(i as int) =~= candidates@);
    let order: Vec<usize> = order_by_key(&keys);
    let mut out: Vec<WindowInfo> = Vec::new();
    let mut k: usize = 0;
    let ghost pick = |i: usize| windows@[i as int];
    assert(text_views(keys@).len() == windows@.len());
    while k < order.len()
        invariant
            k <= order@.len(),
            pick == (|i: usize| windows@[i as int]),
            positions_below(order@, windows@.len() as int),
            out@ == order@.take(k as int).map_values(pick),
        decreases order@.len() - k,
    {
        assert(order@[k as int] < windows@.len());
        out.push(windows[order[k]].clone());
        assert(order@.take(k + 1).map_values(pick) =~= order@.take(k as int).map_values(pick).push(
            windows@[order@[k as int] as int],
        ));
        k = k + 1;
    }
    assert(order@.take(k as int) =~= order@);
    out
}

/// The windows that can be captured are those that are valid and have a title, in the order in
/// which they are found.
pub proof fn law_valid_windows_with_a_title_are_listed(
    a: Seq<WindowCandidate>,
    c: WindowCandidate,
    b: Seq<WindowCandidate>,
)
    ensures
        listed(a + b) == listed(a) + listed(b),
        c.valid && trim(c.title@).len() > 0 ==> listed(seq![c]).len() == 1 && listed(
            seq![c],
        )[0].title == c.title && listed(seq![c])[0].hwnd == c.hwnd,
        !c.valid || trim(c.title@).len() == 0 ==> listed(seq![c]).len() == 0,
    decreases b.len(),
{
    reveal_with_fuel(listed, 2);
    assert(seq![c].drop_last() =~= Seq::<WindowCandidate>::empty());
    if b.len() == 0 {
        assert(a + b =~= a);
        assert(listed(a) + listed(b) =~= listed(a));
    } else {
        assert((a + b).drop_last() =~= a + b.drop_last());
        law_valid_windows_with_a_title_are_listed(a, c, b.drop_last());
        assert(listed(a + b) =~= listed(a) + listed(b));
    }
}

/// Each position comes before those with a later key, and before later ones with the same key.
pub open spec fn in_key_order(keys: Seq<Seq<char>>, s: Seq<usize>) -> bool {
    forall|i: int, j: int|
        0 <= i < j < s.len() ==> lex_le(
            keys[#[trigger] s[i] as int],
            keys[#[trigger] s[j] as int],
        ) && (keys[s[i] as int] == keys[s[j] as int] ==> s[i] < s[j])
}

proof fn lemma_placed_by_key(keys: Seq<Seq<char>>, s: Seq<usize>, x: usize)
    requires
        in_key_order(keys, s),
        forall|i: int| 0 <= i < s.len() ==> #[trigger] s[i] < x,
    ensures
        exists|k: int|
            0 <= k <= s.len() && #[trigger] s.insert(k, x) == placed_by_key(keys, s, x) && (forall|
                i: int,
            |
                0 <= i < k ==> lex_le(keys[#[trigger] s[i] as int], keys[x as int])) && (forall|
                i: int,
            |
                k <= i < s.len() ==> !lex_le(keys[#[trigger] s[i] as int], keys[x as int])),
    decreases s.len(),
{
    if s.len() == 0 || lex_le(keys[s.last() as int], keys[x as int]) {
        let k = s.len() as int;
        assert(s.insert(k, x) =~= s.push(x));
        assert forall|i: int| 0 <= i < k implies lex_le(
            keys[#[trigger] s[i] as int],
            keys[x as int],
        ) by {
            if i < k - 1 {
                assert(lex_le(keys[s[i] as int], keys[s[k - 1] as int]));
                lemma_lex_trans(keys[s[i] as int], keys[s.last() as int], keys[x as int]);
            }
        }
    } else {
        let t = s.drop_last();
        assert(in_key_order(keys, t)) by {
            assert forall|i: int, j: int| 0 <= i < j < t.len() implies lex_le(
                keys[#[trigger] t[i] as int],
                keys[#[trigger] t[j] as int],
            ) && (keys[t[i] as int] == keys[t[j] as int] ==> t[i] < t[j]) by {
                assert(t[i] == s[i] && t[j] == s[j]);
            }
        }
        assert forall|i: int| 0 <= i < t.len() implies #[trigger] t[i] < x by {
            assert(t[i] == s[i]);
        }
        lemma_placed_by_key(keys, t, x);
        let k = choose|k: int|
            0 <= k <= t.len() && #[trigger] t.insert(k, x) == placed_by_key(keys, t, x) && (forall|
                i: int,
            |
                0 <= i < k ==> lex_le(keys[#[trigger] t[i] as int], keys[x as int])) && (forall|
                i: int,
            |
                k <= i < t.len() ==> !lex_le(keys[#[trigger] t[i] as int], keys[x as int]));
        assert(s.insert(k, x) =~= placed_by_key(keys, t, x).push(s.last()));
        assert forall|i: int| 0 <= i < k implies lex_le(
            keys[#[trigger] s[i] as int],
            keys[x as int],
        ) by {
            assert(s[i] == t[i]);
        }
        assert forall|i: int| k <= i < s.len() implies !lex_le(
            keys[#[trigger] s[i] as int],
            keys[x as int],
        ) by {
            if i < t.len() {
                assert(s[i] == t[i]);
            }
        }
    }
}

/// The list of windows is in the order of the titles, and windows with the same title stay in
/// the order in which they were found. Each is listed once.
pub proof fn law_windows_are_in_title_order(keys: Seq<Seq<char>>, n: int)
    requires
        0 <= n <= keys.len(),
        keys.len() <= usize::MAX,
    ensures
        key_order(keys, n).len() == n,
        forall|i: int| 0 <= i < n ==> #[trigger] key_order(keys, n)[i] < n,
        forall|x: usize| x < n ==> #[trigger] key_order(keys, n).contains(x),
        in_key_order(keys, key_order(keys, n)),
    decreases n,
{
    if n > 0 {
        law_windows_are_in_title_order(keys, n - 1);
        let s = key_order(keys, n - 1);
        let x = (n - 1) as usize;
        lemma_placed_by_key(keys, s, x);
        let k = choose|k: int|
            0 <= k <= s.len() && #[trigger] s.insert(k, x) == placed_by_key(keys, s, x) && (forall|
                i: int,
            |
                0 <= i < k ==> lex_le(keys[#[trigger] s[i] as int], keys[x as int])) && (forall|
                i: int,
            |
                k <= i < s.len() ==> !lex_le(keys[#[trigger] s[i] as int], keys[x as int]));
        let now = key_order(keys, n);
        assert(now == s.insert(k, x));
        assert forall|i: int| 0 <= i < n implies #[trigger] now[i] < n by {
            if i < k {
                assert(now[i] == s[i]);
            } else if i > k {
                assert(now[i] == s[i - 1]);
            }
        }
        assert forall|y: usize| y < n implies #[trigger] now.contains(y) by {
            if y == x {
                assert(now[k] == y);
            } else {
                assert(s.contains(y));
                let j = choose|j: int| 0 <= j < s.len() && s[j] == y;
                if j < k {
                    assert(now[j] == y);
                } else {
                    assert(now[j + 1] == y);
                }
            }
        }
        assert forall|i: int, j: int| 0 <= i < j < now.len() implies lex_le(
            keys[#[trigger] now[i] as int],
            keys[#[trigger] now[j] as int],
        ) && (keys[now[i] as int] == keys[now[j] as int] ==> now[i] < now[j]) by {
            if i < k && j < k {
                assert(now[i] == s[i] && now[j] == s[j]);
            } else if i < k && j == k {
                assert(now[i] == s[i]);
            } else if i < k {
                assert(now[i] == s[i] && now[j] == s[j - 1]);
            } else if i == k {
                assert(now[j] == s[j - 1]);
                lemma_lex_total(keys[s[j - 1] as int], keys[x as int]);
            } else {
                assert(now[i] == s[i - 1] && now[j] == s[j - 1]);
            }
        }
    }
}

/// A text in UTF-16 is the texts of its parts in order; a character stands for itself, or for
/// the pair of units that gives it back.
pub proof fn law_utf16_gives_the_characters_back(a: Seq<char>, c: char, b: Seq<char>)
    ensures
        utf16(a + b) == utf16(a) + utf16(b),
        utf16(seq![c]) == utf16_units(c),
        (c as u32) < 0x1_0000 ==> utf16_units(c).len() == 1 && utf16_units(c)[0] == c as u32,
        (c as u32) >= 0x1_0000 ==> utf16_units(c).len() == 2 && 0xD800 <= utf16_units(c)[0] < 0xDC00
            && 0xDC00 <= utf16_units(c)[1] < 0xE000 && 0x1_0000 + (utf16_units(c)[0] - 0xD800)
            * 0x400 + (utf16_units(c)[1] - 0xDC00) == c as u32,
    decreases b.len(),
{
    reveal_with_fuel(utf16, 2);
    assert(seq![c].drop_last() =~= Seq::<char>::empty());
    assert(utf16(seq![c]) =~= utf16_units(c));
    if b.len() == 0 {
        assert(a + b =~= a);
        assert(utf16(a) + utf16(b) =~= utf16(a));
    } else {
        assert((a + b).drop_last() =~= a + b.drop_last());
        law_utf16_gives_the_characters_back(a, c, b.drop_last());
        assert(utf16(a + b) =~= utf16(a) + utf16(b));
    }
}

} // verus!
