//! Named region presets of the dashboard: picking, saving, loading and deleting.

use crate::region_presets::{
    first_named, preset_views, sanitize_regions, stored, surviving, validate_preset, NamedRegions,
    RegionPreset, RegionPresetFile, RegionPresetsError,
};
use crate::state::AppState;
use crate::text::{joined, owned, same_text, trim, trimmed};
use crate::types::{copy_regions, NormRect};
use crate::ui::chrome::DialogText;
use vstd::prelude::*;

verus! {

/// Dialogs of a list of named entries.
#[derive(Debug)]
pub enum PresetDialog {
    Closed,
    /// Compact inline name row under the controls.
    SaveName,
    Overwrite { name: String },
    Delete { name: String },
}

impl Default for PresetDialog {
    fn default() -> (r: PresetDialog)
        ensures
            r == PresetDialog::Closed,
    {
        PresetDialog::Closed
    }
}

/// A dialog as a plain value.
pub enum DialogView {
    Closed,
    SaveName,
    Overwrite { name: Seq<char> },
    Delete { name: Seq<char> },
}

impl View for PresetDialog {
    type V = DialogView;

    open spec fn view(&self) -> DialogView {
        match *self {
            PresetDialog::Closed => DialogView::Closed,
            PresetDialog::SaveName => DialogView::SaveName,
            PresetDialog::Overwrite { name } => DialogView::Overwrite { name: name@ },
            PresetDialog::Delete { name } => DialogView::Delete { name: name@ },
        }
    }
}

impl PresetDialog {
    /// Texts of the confirmation for entries called `what`, whose content is `content`.
    pub open spec fn confirms(self, text: DialogText, what: Seq<char>, content: Seq<char>) -> bool {
        match self@ {
            DialogView::Overwrite { name } => {
                &&& text.open
                &&& text.title@ == "Overwrite "@ + what + "?"@
                &&& text.body@ == "Replace the "@ + content + " saved in \""@ + name + "\"?"@
                &&& text.primary@ == "Overwrite"@
            },
            DialogView::Delete { name } => {
                &&& text.open
                &&& text.title@ == "Delete "@ + what + "?"@
                &&& text.body@ == "Delete "@ + what + " \""@ + name + "\"? This cannot be undone."@
                &&& text.primary@ == "Delete"@
            },
            _ => text.says(false, ""@, ""@, "OK"@),
        }
    }

    /// Texts of the confirmation for entries called `what`, whose content is `content`.
    pub fn confirm_text(&self, what: &str, content: &str) -> (r: DialogText)
        ensures
            self.confirms(r, what@, content@),
    {
        match self {
            PresetDialog::Overwrite { name } => {
                let mut title: String = joined("Overwrite ", what);
                title.append("?");
                let mut body: String = joined("Replace the ", content);
                body.append(" saved in \"");
                body.append(name.as_str());
                body.append("\"?");
                DialogText { open: true, title, body, primary: "Overwrite" }
            },
            PresetDialog::Delete { name } => {
                let mut title: String = joined("Delete ", what);
                title.append("?");
                let mut body: String = joined("Delete ", what);
                body.append(" \"");
                body.append(name.as_str());
                body.append("\"? This cannot be undone.");
                DialogText { open: true, title, body, primary: "Delete" }
            },
            _ => DialogText { open: false, title: owned(""), body: owned(""), primary: "OK" },
        }
    }
}

/// What is left to do after a control of the pane was used.
#[derive(Debug)]
pub enum PaneStep {
    Nothing,
    /// Store the pending entry under this name.
    Commit(String),
    /// Write the list to disk.
    Save,
}

/// What is left to do, as a plain value.
pub enum StepView {
    Nothing,
    Commit(Seq<char>),
    Save,
}

impl View for PaneStep {
    type V = StepView;

    open spec fn view(&self) -> StepView {
        match *self {
            PaneStep::Nothing => StepView::Nothing,
            PaneStep::Commit(name) => StepView::Commit(name@),
            PaneStep::Save => StepView::Save,
        }
    }
}

/// Named OCR region presets and the controls that manage them.
#[derive(Debug)]
pub struct PresetPane {
    pub file: RegionPresetFile,
    /// Position picked in the list.
    pub selected: Option<usize>,
    pub name_draft: String,
    /// Regions to be stored once they have a name.
    pub pending: Vec<NormRect>,
    pub dialog: PresetDialog,
}

/// The pane as plain values.
pub struct PresetPaneView {
    pub sets: Seq<NamedRegions>,
    pub selected: Option<usize>,
    pub name_draft: Seq<char>,
    pub pending: Seq<NormRect>,
    pub dialog: DialogView,
}

impl View for PresetPane {
    type V = PresetPaneView;

    open spec fn view(&self) -> PresetPaneView {
        PresetPaneView {
            sets: preset_views(self.file.presets@),
            selected: self.selected,
            name_draft: self.name_draft@,
            pending: self.pending@,
            dialog: self.dialog@,
        }
    }
}

/// A picked position, where it is one of the list.
pub open spec fn in_list(idx: Option<usize>, len: nat) -> Option<usize> {
    match idx {
        Some(i) => if i < len {
            Some(i)
        } else {
            None
        },
        None => None,
    }
}

/// A picked position, where it is one of the list.
pub fn within_list(idx: Option<usize>, len: usize) -> (r: Option<usize>)
    ensures
        r == in_list(idx, len as nat),
{
    match idx {
        Some(i) => if i < len {
            Some(i)
        } else {
            None
        },
        None => None,
    }
}

/// The sets that do not have this name, in order.
pub open spec fn without(sets: Seq<NamedRegions>, name: Seq<char>) -> Seq<NamedRegions>
    decreases sets.len(),
{
    if sets.len() == 0 {
        sets
    } else if sets.last().name == name {
        without(sets.drop_last(), name)
    } else {
        without(sets.drop_last(), name).push(sets.last())
    }
}

impl PresetPaneView {
    /// The set picked in the list.
    pub open spec fn picked(self) -> Option<NamedRegions> {
        match in_list(self.selected, self.sets.len()) {
            Some(i) => Some(self.sets[i as int]),
            None => None,
        }
    }

    /// Save was clicked with these regions on screen.
    pub open spec fn naming(self, regions: Seq<NormRect>) -> PresetPaneView {
        PresetPaneView {
            pending: regions,
            name_draft: match self.picked() {
                Some(set) => set.name,
                None => Seq::empty(),
            },
            dialog: DialogView::SaveName,
            ..self
        }
    }

    /// The regions were stored under `name` and written to disk.
    pub open spec fn committed(self, name: Seq<char>) -> PresetPaneView {
        PresetPaneView {
            name_draft: name,
            selected: match first_named(self.sets, name) {
                Some(i) => Some(i as usize),
                None => None,
            },
            pending: Seq::empty(),
            dialog: DialogView::Closed,
            ..self
        }
    }
}

impl PresetPane {
    /// The presets of a file, none picked.
    pub fn new(file: RegionPresetFile) -> (r: PresetPane)
        ensures
            r@.sets == preset_views(file.presets@),
            r@.selected is None,
            r@.name_draft.len() == 0,
            r@.pending.len() == 0,
            r@.dialog == DialogView::Closed,
    {
        proof {
            reveal_strlit("");
        }
        PresetPane {
            file,
            selected: None,
            name_draft: owned(""),
            pending: Vec::new(),
            dialog: PresetDialog::Closed,
        }
    }

    /// Pick a preset; a position outside the list picks none.
    pub fn select(&mut self, idx: Option<usize>)
        ensures
            final(self)@ == (PresetPaneView {
                selected: in_list(idx, old(self)@.sets.len()),
                ..old(self)@
            }),
    {
        self.selected = within_list(idx, self.file.presets.len());
    }

    /// Selected preset, if the position is in range.
    pub fn selected_preset(&self) -> (r: Option<&RegionPreset>)
        ensures
            match r {
                Some(p) => self@.picked() == Some(p@),
                None => self@.picked() is None,
            },
    {
        match within_list(self.selected, self.file.presets.len()) {
            Some(i) => Some(&self.file.presets[i]),
            None => None,
        }
    }

    /// Save was clicked: with regions on screen, ask for a name. `cleaned` holds each region
    /// flipped and clamped, or `None` where it is unusable.
    pub fn begin_save(&mut self, state: &mut AppState, cleaned: &Vec<Option<NormRect>>)
        ensures
            surviving(cleaned@).len() == 0 ==> final(self)@ == old(self)@ && final(state)@ == old(
                state,
            )@.failed("Nothing to save: select at least one OCR region."@),
            surviving(cleaned@).len() > 0 ==> final(self)@ == old(self)@.naming(
                surviving(cleaned@),
            ) && final(state)@ == old(state)@,
    {
        let regions: Vec<NormRect> = sanitize_regions(cleaned);
        if regions.len() == 0 {
            state.set_error(owned("Nothing to save: select at least one OCR region."));
            return ;
        }
        proof {
            reveal_strlit("");
        }
        let name: String = match self.selected_preset() {
            Some(p) => p.name.clone(),
            None => owned(""),
        };
        self.pending = regions;
        self.name_draft = name;
        self.dialog = PresetDialog::SaveName;
        assert(self@.name_draft =~= old(self)@.naming(surviving(cleaned@)).name_draft);
    }

    /// Load was clicked: the regions of the picked preset.
    pub fn load(&self) -> (r: Option<Vec<NormRect>>)
        ensures
            match r {
                Some(regions) => self@.picked() matches Some(set) && set.regions == regions@,
                None => self@.picked() is None,
            },
    {
        match self.selected_preset() {
            Some(p) => Some(copy_regions(&p.regions)),
            None => None,
        }
    }

    /// Delete was clicked: ask before deleting the picked preset.
    pub fn begin_delete(&mut self)
        ensures
            final(self)@ == match old(self)@.picked() {
                Some(set) => PresetPaneView {
                    dialog: DialogView::Delete { name: set.name },
                    ..old(self)@
                },
                None => old(self)@,
            },
    {
        let name: Option<String> = match self.selected_preset() {
            Some(p) => Some(p.name.clone()),
            None => None,
        };
        match name {
            Some(name) => {
                self.dialog = PresetDialog::Delete { name };
            },
            None => {},
        }
    }

    /// The name was edited.
    pub fn edit_name(&mut self, text: String)
        ensures
            final(self)@ == (PresetPaneView { name_draft: text@, ..old(self)@ }),
    {
        self.name_draft = text;
    }

    /// The name was confirmed: a blank one is refused, a known one asks before overwriting, a
    /// new one is stored.
    pub fn confirm_name(&mut self, state: &mut AppState) -> (r: PaneStep)
        ensures
            ({
                let name = trim(old(self)@.name_draft);
                if name.len() == 0 {
                    &&& r@ == StepView::Nothing
                    &&& final(self)@ == old(self)@
                    &&& final(state)@ == old(state)@.failed("Preset name is required."@)
                } else if first_named(old(self)@.sets, name) is Some {
                    &&& r@ == StepView::Nothing
                    &&& final(self)@ == (PresetPaneView {
                        dialog: DialogView::Overwrite { name },
                        ..old(self)@
                    })
                    &&& final(state)@ == old(state)@
                } else {
                    &&& r@ == StepView::Commit(name)
                    &&& final(self)@ == old(self)@
                    &&& final(state)@ == old(state)@
                }
            }),
    {
        let name: String = trimmed(self.name_draft.as_str());
        if name.as_str().is_empty() {
            state.set_error(owned("Preset name is required."));
            return PaneStep::Nothing;
        }
        if self.file.position(name.as_str()).is_some() {
            self.dialog = PresetDialog::Overwrite { name };
            return PaneStep::Nothing;
        }
        PaneStep::Commit(name)
    }

    /// The name row was closed.
    pub fn cancel_name(&mut self)
        ensures
            final(self)@ == (PresetPaneView {
                dialog: DialogView::Closed,
                pending: Seq::empty(),
                name_draft: Seq::empty(),
                ..old(self)@
            }),
    {
        proof {
            reveal_strlit("");
        }
        self.dialog = PresetDialog::Closed;
        self.pending = Vec::new();
        self.name_draft = owned("");
        assert(self@.name_draft =~= Seq::<char>::empty());
    }

    /// Put the pending regions under `name` (exact match overwrites). `cleaned` holds the
    /// pending regions in their sanitized form. The name that was stored under is handed out:
    /// the list is then to be written to disk.
    pub fn commit_pending_preset(
        &mut self,
        state: &mut AppState,
        name: &str,
        cleaned: &Vec<Option<NormRect>>,
    ) -> (r: Option<String>)
        ensures
            ({
                let trimmed_name = trim(name@);
                let regions = surviving(cleaned@);
                if trimmed_name.len() == 0 {
                    &&& r is None
                    &&& final(self)@ == old(self)@
                    &&& final(state)@ == old(state)@.failed("Preset name is required."@)
                } else if regions.len() == 0 {
                    &&& r is None
                    &&& final(self)@ == old(self)@
                    &&& final(state)@ == old(state)@.failed(
                        "A preset needs at least one OCR region."@,
                    )
                } else {
                    &&& r matches Some(n) && n@ == trimmed_name
                    &&& final(self)@ == (PresetPaneView {
                        sets: stored(old(self)@.sets, trimmed_name, regions),
                        ..old(self)@
                    })
                    &&& final(state)@ == old(state)@
                }
            }),
    {
        match validate_preset(name, cleaned) {
            Ok((name, regions)) => {
                self.file.upsert(name.clone(), regions);
                Some(name)
            },
            Err(RegionPresetsError::Invalid(text)) => {
                state.set_error(text);
                None
            },
        }
    }

    /// The list with the pending regions was written to disk, or could not be.
    pub fn finish_commit(&mut self, state: &mut AppState, name: String, saved: Result<(), String>)
        ensures
            match saved {
                Ok(_) => final(self)@ == old(self)@.committed(name@) && final(state)@ == old(
                    state,
                )@,
                Err(e) => final(self)@ == old(self)@ && final(state)@ == old(state)@.failed(
                    "Could not save region presets: "@ + e@,
                ),
            },
    {
        match saved {
            Ok(_) => {
                self.selected = self.file.position(name.as_str());
                self.name_draft = name;
                self.pending = Vec::new();
                self.dialog = PresetDialog::Closed;
            },
            Err(e) => {
                state.set_error(joined("Could not save region presets: ", e.as_str()));
            },
        }
    }

    /// Texts of the confirmation dialog.
    pub fn dialog_text(&self) -> (r: DialogText)
        ensures
            self.dialog.confirms(r, "preset"@, "regions"@),
    {
        self.dialog.confirm_text("preset", "regions")
    }

    /// The confirmation was answered. A refused overwrite goes back to the name; a confirmed
    /// deletion takes the entry out of the list.
    pub fn close_dialog(&mut self, confirmed: bool) -> (r: PaneStep)
        ensures
            match (old(self)@.dialog, confirmed) {
                (DialogView::Overwrite { name }, true) => r@ == StepView::Commit(name) && final(
                    self)@ == (PresetPaneView { dialog: DialogView::Closed, ..old(self)@ }),
                (DialogView::Overwrite { name }, false) => r@ == StepView::Nothing && final(
                    self)@ == (PresetPaneView { dialog: DialogView::SaveName, ..old(self)@ }),
                (DialogView::Delete { name }, true) => r@ == StepView::Save && final(self)@ == (
                PresetPaneView {
                    sets: without(old(self)@.sets, name),
                    selected: None,
                    name_draft: Seq::empty(),
                    dialog: DialogView::Closed,
                    ..old(self)@
                }),
                _ => r@ == StepView::Nothing && final(self)@ == (PresetPaneView {
                    dialog: DialogView::Closed,
                    ..old(self)@
                }),
            },
    {
        let mut action: PresetDialog = PresetDialog::Closed;
        std::mem::swap(&mut action, &mut self.dialog);
        match action {
            PresetDialog::Overwrite { name } => {
                if confirmed {
                    PaneStep::Commit(name)
                } else {
                    self.dialog = PresetDialog::SaveName;
                    PaneStep::Nothing
                }
            },
            PresetDialog::Delete { name } => {
                if confirmed {
                    self.remove(name.as_str());
                    PaneStep::Save
                } else {
                    PaneStep::Nothing
                }
            },
            _ => PaneStep::Nothing,
        }
    }

    /// Take the entries of this name out of the list.
    fn remove(&mut self, name: &str)
        ensures
            final(self)@ == (PresetPaneView {
                sets: without(old(self)@.sets, name@),
                selected: None,
                name_draft: Seq::empty(),
                ..old(self)@
            }),
    {
        let ghost all = self@.sets;
        let mut kept: Vec<RegionPreset> = Vec::new();
        let mut i: usize = 0;
        assert(all.take(0) =~= Seq::<NamedRegions>::empty());
        assert(preset_views(kept@) =~= Seq::<NamedRegions>::empty());
        while i < self.file.presets.len()
            invariant
                i <= self.file.presets@.len(),
                all == preset_views(self.file.presets@),
                *self == *old(self),
                preset_views(kept@) == without(all.take(i as int), name@),
            decreases self.file.presets@.len() - i,
        {
            assert(all.take(i + 1).drop_last() =~= all.take(i as int));
            assert(all.take(i + 1).last() == self.file.presets@[i as int]@);
            if !same_text(self.file.presets[i].name.as_str(), name) {
                let ghost before = kept@;
                kept.push(
                    RegionPreset {
                        name: self.file.presets[i].name.clone(),
                        regions: copy_regions(&self.file.presets[i].regions),
                    },
                );
                assert(preset_views(kept@) =~= preset_views(before).push(kept@.last()@));
            }
            i = i + 1;
        }
        assert(all.take(i as int) =~= all);
        self.file.presets = kept;
        self.selected = None;
        proof {
            reveal_strlit("");
        }
        self.name_draft = owned("");
        assert(self@.name_draft =~= Seq::<char>::empty());
    }

    /// The list without the deleted entry was written to disk, or could not be.
    pub fn finish_delete(&self, state: &mut AppState, saved: Result<(), String>)
        ensures
            final(state)@ == match saved {
                Ok(_) => old(state)@,
                Err(e) => old(state)@.failed("Could not save region presets: "@ + e@),
            },
    {
        match saved {
            Ok(_) => {},
            Err(e) => {
                state.set_error(joined("Could not save region presets: ", e.as_str()));
            },
        }
    }
}

/// Deleting a name leaves no entry of that name, and every entry of another name.
pub proof fn law_deleted_preset_is_gone(
    sets: Seq<NamedRegions>,
    name: Seq<char>,
    other: NamedRegions,
)
    ensures
        first_named(without(sets, name), name) is None,
        other.name != name ==> (without(sets, name).contains(other) <==> sets.contains(other)),
    decreases sets.len(),
{
    if sets.len() > 0 {
        let t = sets.drop_last();
        law_deleted_preset_is_gone(t, name, other);
        let out = without(sets, name);
        let rest = without(t, name);
        assert(sets =~= t.push(sets.last()));
        if sets.last().name == name {
            if other.name != name && sets.contains(other) {
                let i = choose|i: int| 0 <= i < sets.len() && sets[i] == other;
                assert(t[i] == other);
            }
            if t.contains(other) {
                let i = choose|i: int| 0 <= i < t.len() && t[i] == other;
                assert(sets[i] == other);
            }
        } else {
            assert(out.drop_last() =~= rest);
            if other.name != name {
                if sets.contains(other) {
                    let i = choose|i: int| 0 <= i < sets.len() && sets[i] == other;
                    if i < t.len() {
                        assert(t[i] == other);
                        let j = choose|j: int| 0 <= j < rest.len() && rest[j] == other;
                        assert(out[j] == other);
                    } else {
                        assert(out[rest.len() as int] == other);
                    }
                }
                if out.contains(other) {
                    let i = choose|i: int| 0 <= i < out.len() && out[i] == other;
                    if i < rest.len() {
                        assert(rest[i] == other);
                        let j = choose|j: int| 0 <= j < t.len() && t[j] == other;
                        assert(sets[j] == other);
                    } else {
                        assert(sets[t.len() as int] == other);
                    }
                }
            }
        }
    }
}

/// A preset that was saved is the one picked afterwards, and loads the regions that were saved.
pub proof fn law_saved_preset_is_picked(
    pane: PresetPaneView,
    name: Seq<char>,
    regions: Seq<NormRect>,
)
    requires
        pane.sets.len() < usize::MAX,
    ensures
        (PresetPaneView { sets: stored(pane.sets, name, regions), ..pane }).committed(
            name,
        ).picked() == Some(NamedRegions { name, regions }),
{
    crate::region_presets::law_stored_regions_are_found(pane.sets, name, regions, name);
    let after = stored(pane.sets, name, regions);
    crate::region_presets::lemma_first_named(after, name);
}

/// A choice counts while the list has it; saving begins with the regions at hand and the name of
/// the chosen preset.
pub proof fn law_saving_begins_with_the_choice(pane: PresetPaneView, regions: Seq<NormRect>)
    ensures
        pane.selected matches Some(i) ==> (i < pane.sets.len() ==> pane.picked() == Some(
            pane.sets[i as int],
        )),
        pane.selected matches Some(i) ==> (i >= pane.sets.len() ==> pane.picked() is None),
        pane.selected is None ==> pane.picked() is None,
        pane.naming(regions).pending == regions,
        pane.naming(regions).dialog is SaveName,
        pane.naming(regions).sets == pane.sets,
        pane.naming(regions).selected == pane.selected,
        pane.picked() is None ==> pane.naming(regions).name_draft.len() == 0,
        pane.picked() matches Some(set) ==> pane.naming(regions).name_draft == set.name,
{
}

/// A committed preset closes the dialog and leaves nothing pending; the list is as it was.
pub proof fn law_commit_closes_the_dialog(pane: PresetPaneView, name: Seq<char>)
    ensures
        pane.committed(name).dialog is Closed,
        pane.committed(name).pending.len() == 0,
        pane.committed(name).name_draft == name,
        pane.committed(name).sets == pane.sets,
{
}

/// Presets that stay keep their order.
pub proof fn law_deleting_keeps_the_order(
    a: Seq<NamedRegions>,
    b: Seq<NamedRegions>,
    name: Seq<char>,
)
    ensures
        without(a + b, name) == without(a, name) + without(b, name),
    decreases b.len(),
{
    if b.len() == 0 {
        assert(a + b =~= a);
        assert(without(a, name) + without(b, name) =~= without(a, name));
    } else {
        assert((a + b).drop_last() =~= a + b.drop_last());
        law_deleting_keeps_the_order(a, b.drop_last(), name);
        assert(without(a + b, name) =~= without(a, name) + without(b, name));
    }
}

} // verus!
