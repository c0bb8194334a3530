//! Operator workspace: window and regions, preview actions, results.

use crate::engine::{block_lines, blocks_to_text};
use crate::pipeline::command::PipelineCommand;
use crate::state::{AppState, HistoryEntry};
use crate::text::{decimal, owned, push_decimal};
use crate::types::{copy_regions, NormRect, TranslatedBlock};
use crate::ui::chrome::{picked_hwnd, selected_hwnd};
use crate::ui::presets::{in_list, within_list};
use crate::ui::root::{shortened, truncate};
use crate::windowing::WindowInfo;
use vstd::prelude::*;

verus! {

/// Longest window label of the picker.
pub const WINDOW_LABEL_MAX: usize = 72;

/// What the dashboard shows of the running state and the window list.
#[derive(Debug)]
pub struct DashSnap {
    pub auto_running: bool,
    pub translate_in_flight: bool,
    pub last_ocr_ms: Option<u64>,
    pub last_ocr_block_count: u32,
    /// Regions drawn on the preview: those being picked, else those in use.
    pub preview_regions: Vec<NormRect>,
    pub ocr_text: String,
    pub translation: String,
    /// Recent pages, newest first.
    pub history: Vec<HistoryEntry>,
    pub selected_idx: Option<usize>,
    pub selected_hwnd: Option<isize>,
    pub target_hwnd: Option<isize>,
    pub window_labels: Vec<String>,
    pub region_select_active: bool,
}

/// The translations of the captions, one per line.
pub open spec fn caption_lines(blocks: Seq<TranslatedBlock>) -> Seq<char>
    decreases blocks.len(),
{
    if blocks.len() == 0 {
        Seq::empty()
    } else if blocks.len() == 1 {
        blocks[0].translation@
    } else {
        caption_lines(blocks.drop_last()) + seq!['\n'] + blocks.last().translation@
    }
}

fn captions_to_text(blocks: &Vec<TranslatedBlock>) -> (r: String)
    ensures
        r@ == caption_lines(blocks@),
{
    let mut out: String = String::new();
    let mut i: usize = 0;
    assert(blocks@.take(0) =~= Seq::<TranslatedBlock>::empty());
    while i < blocks.len()
        invariant
            i <= blocks@.len(),
            out@ == caption_lines(blocks@.take(i as int)),
        decreases blocks@.len() - i,
    {
        if i > 0 {
            out.push('\n');
        }
        out.append(blocks[i].translation.as_str());
        proof {
            let t = blocks@.take(i + 1);
            assert(t.drop_last() =~= blocks@.take(i as int));
            assert(t.last() == blocks@[i as int]);
            if i == 0 {
                assert(out@ =~= blocks@[0].translation@);
            }
            assert(out@ =~= caption_lines(t));
        }
        i = i + 1;
    }
    assert(blocks@.take(i as int) =~= blocks@);
    out
}

/// Labels of the window picker.
pub open spec fn labels(windows: Seq<WindowInfo>) -> Seq<Seq<char>> {
    windows.map_values(|w: WindowInfo| shortened(w.title@, WINDOW_LABEL_MAX as nat))
}

/// The characters of a list of texts.
pub open spec fn texts(list: Seq<String>) -> Seq<Seq<char>> {
    list.map_values(|s: String| s@)
}

fn window_labels(windows: &Vec<WindowInfo>) -> (r: Vec<String>)
    ensures
        texts(r@) == labels(windows@),
{
    let mut out: Vec<String> = Vec::new();
    let mut i: usize = 0;
    while i < windows.len()
        invariant
            i <= windows@.len(),
            texts(out@) =~= labels(windows@).take(i as int),
        decreases windows@.len() - i,
    {
        let ghost before = out@;
        out.push(truncate(windows[i].title.as_str(), WINDOW_LABEL_MAX));
        assert(texts(out@) =~= texts(before).push(labels(windows@)[i as int]));
        assert(labels(windows@).take(i + 1) =~= labels(windows@).take(i as int).push(
            labels(windows@)[i as int],
        ));
        i = i + 1;
    }
    assert(labels(windows@).take(i as int) =~= labels(windows@));
    out
}

fn copy_history(state: &AppState) -> (r: Vec<HistoryEntry>)
    ensures
        r@ == state.history@,
{
    let mut out: Vec<HistoryEntry> = Vec::new();
    let mut i: usize = 0;
    while i < state.history.len()
        invariant
            i <= state.history@.len(),
            out@ =~= state.history@.take(i as int),
        decreases state.history@.len() - i,
    {
        let entry: HistoryEntry = HistoryEntry {
            source_text: state.history[i].source_text.clone(),
            translated_text: state.history[i].translated_text.clone(),
        };
        out.push(entry);
        i = i + 1;
    }
    assert(state.history@.take(i as int) =~= state.history@);
    out
}

/// What the dashboard shows.
pub fn take_dash(state: &AppState, windows: &Vec<WindowInfo>, selected: Option<usize>) -> (r:
    DashSnap)
    ensures
        r.auto_running == state.auto_running,
        r.translate_in_flight == state.translate_in_flight,
        r.last_ocr_ms == state.last_ocr_ms,
        r.last_ocr_block_count == state.last_ocr_block_count,
        r.preview_regions@ == if state.region_select_active {
            state.region_select_draft@
        } else {
            state.ocr_regions@
        },
        r.ocr_text@ == block_lines(state.latest_ocr_blocks@),
        r.translation@ == caption_lines(state.latest_translated_blocks@),
        r.history@ == state.history@,
        r.selected_idx == in_list(selected, windows@.len()),
        r.selected_hwnd == picked_hwnd(windows@, selected),
        r.target_hwnd == state.target_hwnd,
        texts(r.window_labels@) == labels(windows@),
        r.region_select_active == state.region_select_active,
{
    DashSnap {
        auto_running: state.auto_running,
        translate_in_flight: state.translate_in_flight,
        last_ocr_ms: state.last_ocr_ms,
        last_ocr_block_count: state.last_ocr_block_count,
        preview_regions: if state.region_select_active {
            copy_regions(&state.region_select_draft)
        } else {
            copy_regions(&state.ocr_regions)
        },
        ocr_text: blocks_to_text(&state.latest_ocr_blocks),
        translation: captions_to_text(&state.latest_translated_blocks),
        history: copy_history(state),
        selected_idx: within_list(selected, windows.len()),
        selected_hwnd: selected_hwnd(windows, selected),
        target_hwnd: state.target_hwnd,
        window_labels: window_labels(windows),
        region_select_active: state.region_select_active,
    }
}

/// How long the last OCR run took and how many blocks it gave.
pub open spec fn ocr_line(last_ocr_ms: Option<u64>, blocks: u32) -> Seq<char> {
    (match last_ocr_ms {
        Some(ms) => decimal(ms as nat) + " ms"@,
        None => "—"@,
    }) + " · "@ + decimal(blocks as nat) + " blocks"@
}

/// How long the last OCR run took and how many blocks it gave.
pub fn ocr_summary(last_ocr_ms: Option<u64>, blocks: u32) -> (r: String)
    ensures
        r@ == ocr_line(last_ocr_ms, blocks),
{
    let mut out: String = owned("");
    proof {
        reveal_strlit("");
    }
    match last_ocr_ms {
        Some(ms) => {
            push_decimal(&mut out, ms);
            assert(out@ =~= decimal(ms as nat));
            out.append(" ms");
        },
        None => {
            out.append("—");
            assert(out@ =~= "—"@);
        },
    }
    out.append(" · ");
    push_decimal(&mut out, blocks as u64);
    out.append(" blocks");
    out
}

/// A row of the results table.
#[derive(Debug)]
pub struct ResultRow {
    pub source: String,
    pub translation: String,
    /// On screen now; the other rows are dimmed.
    pub live: bool,
}

/// A row as plain values.
pub struct ResultRowView {
    pub source: Seq<char>,
    pub translation: Seq<char>,
    pub live: bool,
}

impl View for ResultRow {
    type V = ResultRowView;

    open spec fn view(&self) -> ResultRowView {
        ResultRowView {
            source: self.source@,
            translation: self.translation@,
            live: self.live,
        }
    }
}

impl DashSnap {
    /// There is text on screen.
    pub open spec fn has_live(self) -> bool {
        self.ocr_text@.len() > 0 || self.translation@.len() > 0
    }

    /// The rows of the recent pages. The newest one is left out while the live row already shows
    /// it and nothing is being translated.
    pub open spec fn past_rows(self, newest_is_live: bool) -> Seq<ResultRowView> {
        let all = self.history@.map_values(
            |h: HistoryEntry|
                ResultRowView {
                    source: h.source_text@,
                    translation: h.translated_text@,
                    live: false,
                },
        );
        if self.has_live() && !self.translate_in_flight && self.history@.len() > 0
            && newest_is_live {
            all.skip(1)
        } else {
            all
        }
    }

    /// The rows of the results table: the live one first.
    pub open spec fn rows(self, newest_is_live: bool) -> Seq<ResultRowView> {
        if self.has_live() {
            seq![
                ResultRowView {
                    source: self.ocr_text@,
                    translation: self.translation@,
                    live: true,
                },
            ] + self.past_rows(newest_is_live)
        } else {
            self.past_rows(newest_is_live)
        }
    }

    /// Rows of the results table. `newest_is_live`: the newest page is what is on screen.
    pub fn result_rows(&self, newest_is_live: bool) -> (r: Vec<ResultRow>)
        ensures
            r@.map_values(|row: ResultRow| row@) == self.rows(newest_is_live),
    {
        let mut out: Vec<ResultRow> = Vec::new();
        let live: bool = !self.ocr_text.as_str().is_empty() || !self.translation.as_str().is_empty();
        if live {
            out.push(
                ResultRow {
                    source: self.ocr_text.clone(),
                    translation: self.translation.clone(),
                    live: true,
                },
            );
        }
        let first: usize = if live && !self.translate_in_flight && self.history.len() > 0
            && newest_is_live {
            1
        } else {
            0
        };
        let ghost lead = out@.map_values(|row: ResultRow| row@);
        let ghost past = self.history@.map_values(
            |h: HistoryEntry|
                ResultRowView {
                    source: h.source_text@,
                    translation: h.translated_text@,
                    live: false,
                },
        );
        let mut i: usize = first;
        assert(past.subrange(first as int, first as int) =~= Seq::<ResultRowView>::empty());
        assert(lead + past.subrange(first as int, first as int) =~= lead);
        while i < self.history.len()
            invariant
                first <= i <= self.history@.len(),
                past == self.history@.map_values(
                    |h: HistoryEntry|
                        ResultRowView {
                            source: h.source_text@,
                            translation: h.translated_text@,
                            live: false,
                        },
                ),
                out@.map_values(|row: ResultRow| row@) == lead + past.subrange(
                    first as int,
                    i as int,
                ),
            decreases self.history@.len() - i,
        {
            let ghost before = out@;
            out.push(
                ResultRow {
                    source: self.history[i].source_text.clone(),
                    translation: self.history[i].translated_text.clone(),
                    live: false,
                },
            );
            assert(out@.map_values(|row: ResultRow| row@) =~= before.map_values(
                |row: ResultRow| row@,
            ).push(past[i as int]));
            assert(past.subrange(first as int, i + 1) =~= past.subrange(
                first as int,
                i as int,
            ).push(past[i as int]));
            assert(lead + past.subrange(first as int, i + 1) =~= (lead + past.subrange(
                first as int,
                i as int,
            )).push(past[i as int]));
            i = i + 1;
        }
        assert(past.subrange(first as int, i as int) =~= past.skip(first as int));
        assert(past.skip(0) =~= past);
        if live {
            assert(lead =~= seq![
                ResultRowView {
                    source: self.ocr_text@,
                    translation: self.translation@,
                    live: true,
                },
            ]);
        } else {
            assert(lead =~= Seq::<ResultRowView>::empty());
            assert(lead + past =~= past);
        }
        out
    }

    /// Cancel button: enabled, and its tooltip.
    pub fn cancel_button(&self) -> (r: (bool, &'static str))
        ensures
            r.0 == self.translate_in_flight,
            r.1@ == if self.translate_in_flight {
                "Cancel the translation in progress"@
            } else {
                "No translation in progress"@
            },
    {
        if self.translate_in_flight {
            (true, "Cancel the translation in progress")
        } else {
            (false, "No translation in progress")
        }
    }

    /// Retry button: enabled, and its tooltip.
    pub fn retry_button(&self) -> (r: (bool, &'static str))
        ensures
            r.0 == (self.auto_running && !self.translate_in_flight),
            r.1@ == if self.translate_in_flight {
                "Cancel the translation in progress first"@
            } else if self.auto_running {
                "Capture now and run OCR + translation"@
            } else {
                "Start capture first"@
            },
    {
        if self.translate_in_flight {
            (false, "Cancel the translation in progress first")
        } else if self.auto_running {
            (true, "Capture now and run OCR + translation")
        } else {
            (false, "Start capture first")
        }
    }
}

/// Text in place of an empty results table.
pub const NO_HISTORY: &'static str = "(no history yet)";

/// Window list of the dashboard and the window picked in it.
#[derive(Debug)]
pub struct WindowPicker {
    pub windows: Vec<WindowInfo>,
    pub selected: Option<usize>,
}

impl WindowPicker {
    /// A list with nothing picked.
    pub fn new(windows: Vec<WindowInfo>) -> (r: WindowPicker)
        ensures
            r.windows == windows,
            r.selected is None,
    {
        WindowPicker { windows, selected: None }
    }

    /// Pick a window. Another window than before drops the regions that were drawn on the old
    /// one: then the command that clears them is handed out.
    pub fn select(&mut self, idx: Option<usize>, state: &AppState) -> (r: Option<PipelineCommand>)
        ensures
            match in_list(idx, old(self).windows@.len()) {
                Some(i) => {
                    let moved = picked_hwnd(old(self).windows@, old(self).selected) != Some(
                        old(self).windows@[i as int].hwnd,
                    );
                    let drawn = state.ocr_regions@.len() > 0 || state.region_select_active;
                    &&& *final(self) == (WindowPicker { selected: Some(i), ..*old(self) })
                    &&& moved && drawn ==> (r matches Some(
                        PipelineCommand::SetCaptureRegions { regions },
                    ) && regions@.len() == 0)
                    &&& !(moved && drawn) ==> r is None
                },
                None => *final(self) == *old(self) && r is None,
            },
    {
        let i: usize = match within_list(idx, self.windows.len()) {
            Some(i) => i,
            None => {
                return None;
            },
        };
        let moved: bool = match selected_hwnd(&self.windows, self.selected) {
            Some(hwnd) => hwnd != self.windows[i].hwnd,
            None => true,
        };
        self.selected = Some(i);
        if moved && (state.ocr_regions.len() > 0 || state.region_select_active) {
            Some(PipelineCommand::SetCaptureRegions { regions: Vec::new() })
        } else {
            None
        }
    }

    /// Take over a new list. A picked position that it does not have is dropped.
    pub fn refresh(&mut self, windows: Vec<WindowInfo>)
        ensures
            *final(self) == (WindowPicker {
                windows,
                selected: in_list(old(self).selected, windows@.len()),
            }),
    {
        self.selected = within_list(self.selected, windows.len());
        self.windows = windows;
    }
}

/// Window row of the dashboard.
#[derive(Debug)]
pub struct WindowRow {
    pub items: Vec<String>,
    pub picker_enabled: bool,
    pub refresh_enabled: bool,
    pub refresh_tip: &'static str,
}

/// Window row of the dashboard: the labels, or a line that says there are none.
pub fn build_window_row(snap: &DashSnap) -> (r: WindowRow)
    ensures
        texts(r.items@) == if snap.window_labels@.len() == 0 {
            seq!["(no windows — refresh)"@]
        } else {
            texts(snap.window_labels@)
        },
        r.picker_enabled == (snap.window_labels@.len() > 0 && !snap.auto_running),
        r.refresh_enabled == !snap.auto_running,
        r.refresh_tip@ == if snap.auto_running {
            "Stop capture to change window"@
        } else {
            "Refresh window list"@
        },
{
    let mut items: Vec<String> = Vec::new();
    if snap.window_labels.len() == 0 {
        items.push(owned("(no windows — refresh)"));
        assert(texts(items@) =~= seq!["(no windows — refresh)"@]);
    } else {
        let mut i: usize = 0;
        while i < snap.window_labels.len()
            invariant
                i <= snap.window_labels@.len(),
                texts(items@) =~= texts(snap.window_labels@).take(i as int),
            decreases snap.window_labels@.len() - i,
        {
            let ghost all = texts(snap.window_labels@);
            let ghost before = items@;
            items.push(snap.window_labels[i].clone());
            assert(texts(items@) =~= texts(before).push(all[i as int]));
            assert(all.take(i + 1) =~= all.take(i as int).push(all[i as int]));
            i = i + 1;
        }
        assert(texts(snap.window_labels@).take(i as int) =~= texts(snap.window_labels@));
    }
    WindowRow {
        items,
        picker_enabled: snap.window_labels.len() > 0 && !snap.auto_running,
        refresh_enabled: !snap.auto_running,
        refresh_tip: if snap.auto_running {
            "Stop capture to change window"
        } else {
            "Refresh window list"
        },
    }
}

/// Regions pane of the dashboard.
#[derive(Debug)]
pub struct RegionsPane {
    pub label: String,
    pub select_label: &'static str,
    pub select_tip: &'static str,
    pub select_enabled: bool,
    pub select_accented: bool,
    pub clear_enabled: bool,
    pub save_enabled: bool,
    pub save_tip: &'static str,
    pub presets_enabled: bool,
    /// Load and Delete.
    pub preset_actions_enabled: bool,
}

/// Window on which regions are picked: the captured one while capture runs, else the picked one.
pub open spec fn region_window(snap: DashSnap) -> Option<isize> {
    if snap.auto_running {
        snap.target_hwnd
    } else {
        snap.selected_hwnd
    }
}

/// Window on which regions are picked: the captured one while capture runs, else the picked one.
pub fn select_hwnd(snap: &DashSnap) -> (r: Option<isize>)
    ensures
        r == region_window(*snap),
{
    if snap.auto_running {
        snap.target_hwnd
    } else {
        snap.selected_hwnd
    }
}

/// Regions pane, for a list of `presets` entries of which `picked` is picked.
pub fn build_regions_pane(snap: &DashSnap, presets: usize, picked: Option<usize>) -> (r:
    RegionsPane)
    ensures
        ({
            let selecting = snap.region_select_active;
            let count = snap.preview_regions@.len();
            let can_select = region_window(*snap) is Some;
            &&& r.label@ == if selecting {
                "Selecting…"@
            } else if count == 0 {
                "Whole window"@
            } else {
                decimal(count) + " selected"@
            }
            &&& r.select_label@ == if selecting {
                "Done"@
            } else {
                "Select regions"@
            }
            &&& r.select_tip@ == if selecting {
                "Use the selected areas"@
            } else if can_select {
                "Only recognize text in the areas you select on the window"@
            } else {
                "Select a window first"@
            }
            &&& r.select_enabled == (selecting || can_select)
            &&& r.select_accented == selecting
            &&& r.clear_enabled == (selecting || count > 0)
            &&& r.save_enabled == (!selecting && count > 0)
            &&& r.save_tip@ == if selecting {
                "Finish region select (Done) before saving a preset"@
            } else if count == 0 {
                "Select OCR regions first"@
            } else {
                "Save current OCR regions as a named preset"@
            }
            &&& r.presets_enabled == (presets > 0)
            &&& r.preset_actions_enabled == (presets > 0 && picked is Some)
        }),
{
    let selecting: bool = snap.region_select_active;
    let count: usize = snap.preview_regions.len();
    let can_select: bool = select_hwnd(snap).is_some();
    let label: String = if selecting {
        owned("Selecting…")
    } else if count == 0 {
        owned("Whole window")
    } else {
        let mut text: String = owned("");
        proof {
            reveal_strlit("");
        }
        push_decimal(&mut text, count as u64);
        assert(text@ =~= decimal(count as nat));
        text.append(" selected");
        text
    };
    RegionsPane {
        label,
        select_label: if selecting {
            "Done"
        } else {
            "Select regions"
        },
        select_tip: if selecting {
            "Use the selected areas"
        } else if can_select {
            "Only recognize text in the areas you select on the window"
        } else {
            "Select a window first"
        },
        select_enabled: selecting || can_select,
        select_accented: selecting,
        clear_enabled: selecting || count > 0,
        save_enabled: !selecting && count > 0,
        save_tip: if selecting {
            "Finish region select (Done) before saving a preset"
        } else if count == 0 {
            "Select OCR regions first"
        } else {
            "Save current OCR regions as a named preset"
        },
        presets_enabled: presets > 0,
        preset_actions_enabled: presets > 0 && picked.is_some(),
    }
}

/// Command of a click on the select button.
pub fn select_command(snap: &DashSnap) -> (r: Option<PipelineCommand>)
    ensures
        r == if snap.region_select_active {
            Some(PipelineCommand::ConfirmRegionSelect)
        } else {
            match region_window(*snap) {
                Some(hwnd) => Some(PipelineCommand::BeginRegionSelect { hwnd }),
                None => None,
            }
        },
{
    if snap.region_select_active {
        Some(PipelineCommand::ConfirmRegionSelect)
    } else {
        match select_hwnd(snap) {
            Some(hwnd) => Some(PipelineCommand::BeginRegionSelect { hwnd }),
            None => None,
        }
    }
}

/// Command of a click on the clear button: an empty pick, or the whole window.
pub fn clear_command(snap: &DashSnap) -> (r: PipelineCommand)
    ensures
        snap.region_select_active ==> r == PipelineCommand::ClearRegionSelect,
        !snap.region_select_active ==> (r matches PipelineCommand::SetCaptureRegions { regions }
            && regions@.len() == 0),
{
    if snap.region_select_active {
        PipelineCommand::ClearRegionSelect
    } else {
        PipelineCommand::SetCaptureRegions { regions: Vec::new() }
    }
}

/// The text of the captions is their translations in order, one per line.
pub proof fn law_caption_text_has_a_line_per_caption(
    a: Seq<TranslatedBlock>,
    block: TranslatedBlock,
    b: Seq<TranslatedBlock>,
)
    ensures
        caption_lines(seq![block]) == block.translation@,
        a.len() > 0 && b.len() > 0 ==> caption_lines(a + b) == caption_lines(a) + seq!['\n']
            + caption_lines(b),
    decreases b.len(),
{
    if a.len() > 0 && b.len() > 0 {
        assert((a + b).drop_last() =~= a + b.drop_last());
        assert((a + b).last() == b.last());
        if b.len() == 1 {
            assert(a + b.drop_last() =~= a);
        } else {
            law_caption_text_has_a_line_per_caption(a, block, b.drop_last());
        }
        assert(caption_lines(a + b) =~= caption_lines(a) + seq!['\n'] + caption_lines(b));
    }
}

/// What is on screen comes first, and the pages of before follow, newest first; the newest of
/// them is left out only where it is what is on screen and nothing is being translated.
pub proof fn law_rows_begin_with_the_screen(snap: DashSnap, newest_is_live: bool)
    ensures
        ({
            let rows = snap.rows(newest_is_live);
            let live = snap.ocr_text@.len() > 0 || snap.translation@.len() > 0;
            let first = if live {
                1int
            } else {
                0
            };
            let skipped = if live && !snap.translate_in_flight && snap.history@.len() > 0
                && newest_is_live {
                1int
            } else {
                0
            };
            &&& rows.len() == first + snap.history@.len() - skipped
            &&& live ==> rows[0].live && rows[0].source == snap.ocr_text@ && rows[0].translation
                == snap.translation@
            &&& forall|i: int|
                #![trigger rows[i]]
                first <= i < rows.len() ==> !rows[i].live && rows[i].source
                    == snap.history@[i - first + skipped].source_text@ && rows[i].translation
                    == snap.history@[i - first + skipped].translated_text@
        }),
{
}

/// Regions are picked on the window that is captured, or on the chosen one while none is.
pub proof fn law_regions_are_picked_on_the_captured_window(snap: DashSnap)
    ensures
        snap.auto_running ==> region_window(snap) == snap.target_hwnd,
        !snap.auto_running ==> region_window(snap) == snap.selected_hwnd,
{
}

} // verus!
