//! Named API profiles of the API page: picking, saving, loading and deleting.

use crate::api_profiles::{cleaned_profiles, ApiProfile, ApiProfileFile};
use crate::config::{ApiConfig, AppConfig};
use crate::state::AppState;
use crate::text::{joined, owned, same_text, trim, trimmed};
use crate::ui::cards::{label_of, provider_label, Choices};
use crate::ui::chrome::DialogText;
use crate::ui::form::{provider_position, OptionalApi, SettingsForm};
use crate::ui::presets::{in_list, within_list, DialogView, PaneStep, PresetDialog, StepView};
use vstd::prelude::*;

verus! {

/// Named API profiles and the controls that manage them.
#[derive(Debug)]
pub struct ProfilePane {
    pub profiles: Vec<ApiProfile>,
    /// Position picked in the list.
    pub selected: Option<usize>,
    pub name_draft: String,
    pub dialog: PresetDialog,
}

/// The pane as plain values.
pub struct ProfilePaneView {
    pub profiles: Seq<ApiProfile>,
    pub selected: Option<usize>,
    pub name_draft: Seq<char>,
    pub dialog: DialogView,
}

impl View for ProfilePane {
    type V = ProfilePaneView;

    open spec fn view(&self) -> ProfilePaneView {
        ProfilePaneView {
            profiles: self.profiles@,
            selected: self.selected,
            name_draft: self.name_draft@,
            dialog: self.dialog@,
        }
    }
}

/// Position of the first profile with exactly this name.
pub open spec fn profile_named(profiles: Seq<ApiProfile>, name: Seq<char>) -> Option<int>
    decreases profiles.len(),
{
    if profiles.len() == 0 {
        None
    } else {
        match profile_named(profiles.drop_last(), name) {
            Some(i) => Some(i),
            None => if profiles.last().name@ == name {
                Some(profiles.len() - 1)
            } else {
                None
            },
        }
    }
}

/// `after` is `profiles` with `api` stored under exactly `name`: in place of the first profile
/// of that name, or as a new last profile.
pub open spec fn profile_stored(
    profiles: Seq<ApiProfile>,
    name: Seq<char>,
    api: ApiConfig,
    after: Seq<ApiProfile>,
) -> bool {
    match profile_named(profiles, name) {
        Some(i) => after == profiles.update(i, ApiProfile { api, ..profiles[i] }),
        None => {
            &&& after.len() == profiles.len() + 1
            &&& after.drop_last() == profiles
            &&& after.last().name@ == name
            &&& after.last().api == api
        },
    }
}

/// The profiles that do not have this name, in order.
pub open spec fn profiles_without(profiles: Seq<ApiProfile>, name: Seq<char>) -> Seq<ApiProfile>
    decreases profiles.len(),
{
    if profiles.len() == 0 {
        profiles
    } else if profiles.last().name@ == name {
        profiles_without(profiles.drop_last(), name)
    } else {
        profiles_without(profiles.drop_last(), name).push(profiles.last())
    }
}

proof fn lemma_named_prefix(profiles: Seq<ApiProfile>, name: Seq<char>, n: int)
    requires
        0 <= n <= profiles.len(),
        profile_named(profiles.take(n), name) is Some,
    ensures
        profile_named(profiles, name) == profile_named(profiles.take(n), name),
    decreases profiles.len() - n,
{
    if n < profiles.len() {
        assert(profiles.take(n + 1).drop_last() =~= profiles.take(n));
        lemma_named_prefix(profiles, name, n + 1);
    } else {
        assert(profiles.take(n) =~= profiles);
    }
}

proof fn lemma_profile_named(profiles: Seq<ApiProfile>, name: Seq<char>)
    ensures
        profile_named(profiles, name) matches Some(i) ==> 0 <= i < profiles.len()
            && profiles[i].name@ == name && forall|j: int|
            0 <= j < i ==> (#[trigger] profiles[j]).name@ != name,
        profile_named(profiles, name) is None ==> forall|j: int|
            0 <= j < profiles.len() ==> (#[trigger] profiles[j]).name@ != name,
    decreases profiles.len(),
{
    if profiles.len() > 0 {
        let t = profiles.drop_last();
        lemma_profile_named(t, name);
        assert forall|j: int| 0 <= j < t.len() implies #[trigger] profiles[j] == t[j] by {}
        if profile_named(t, name) is None {
            assert forall|j: int| 0 <= j < t.len() implies (#[trigger] profiles[j]).name@
                != name by {
                assert(t[j].name@ != name);
            }
        } else {
            let i = profile_named(t, name)->0;
            assert forall|j: int| 0 <= j < i implies (#[trigger] profiles[j]).name@ != name by {
                assert(t[j].name@ != name);
            }
        }
    }
}

impl ProfilePaneView {
    /// The profile picked in the list.
    pub open spec fn picked(self) -> Option<ApiProfile> {
        match in_list(self.selected, self.profiles.len()) {
            Some(i) => Some(self.profiles[i as int]),
            None => None,
        }
    }

    /// `self` is `before` with `api` stored under `name`, picked, and no dialog open.
    pub open spec fn committed(
        self,
        before: ProfilePaneView,
        name: Seq<char>,
        api: ApiConfig,
    ) -> bool {
        &&& profile_stored(before.profiles, name, api, self.profiles)
        &&& self == ProfilePaneView {
            profiles: self.profiles,
            selected: match profile_named(self.profiles, name) {
                Some(i) => Some(i as usize),
                None => None,
            },
            name_draft: name,
            dialog: DialogView::Closed,
        }
    }
}

impl ProfilePane {
    /// The profiles of a file, none picked.
    pub fn new(profiles: Vec<ApiProfile>) -> (r: ProfilePane)
        ensures
            r@.profiles == profiles@,
            r@.selected is None,
            r@.name_draft.len() == 0,
            r@.dialog == DialogView::Closed,
    {
        proof {
            reveal_strlit("");
        }
        ProfilePane {
            profiles,
            selected: None,
            name_draft: owned(""),
            dialog: PresetDialog::Closed,
        }
    }

    /// Pick a profile; a position outside the list picks none.
    pub fn select(&mut self, idx: Option<usize>)
        ensures
            final(self)@ == (ProfilePaneView {
                selected: in_list(idx, old(self)@.profiles.len()),
                ..old(self)@
            }),
    {
        self.selected = within_list(idx, self.profiles.len());
    }

    /// Selected API profile, if the position is in range.
    pub fn selected_api_profile(&self) -> (r: Option<&ApiProfile>)
        ensures
            match r {
                Some(p) => self@.picked() == Some(*p),
                None => self@.picked() is None,
            },
    {
        match within_list(self.selected, self.profiles.len()) {
            Some(i) => Some(&self.profiles[i]),
            None => None,
        }
    }

    /// Position of the first profile with exactly this name.
    fn position(&self, name: &str) -> (r: Option<usize>)
        ensures
            match r {
                Some(i) => i < self.profiles@.len() && profile_named(self.profiles@, name@) == Some(
                    i as int,
                ),
                None => profile_named(self.profiles@, name@) is None,
            },
    {
        let ghost all = self.profiles@;
        let mut i: usize = 0;
        assert(all.take(0) =~= Seq::<ApiProfile>::empty());
        while i < self.profiles.len()
            invariant
                i <= self.profiles@.len(),
                all == self.profiles@,
                profile_named(all.take(i as int), name@) is None,
            decreases self.profiles@.len() - i,
        {
            assert(all.take(i + 1).drop_last() =~= all.take(i as int));
            assert(all.take(i + 1).last() == all[i as int]);
            if same_text(self.profiles[i].name.as_str(), name) {
                proof {
                    lemma_named_prefix(all, name@, i + 1);
                }
                return Some(i);
            }
            i = i + 1;
        }
        assert(all.take(i as int) =~= all);
        None
    }

    /// Save was clicked: ask for a name, starting from the picked profile's or the provider's.
    pub fn begin_save(&mut self, form: &SettingsForm)
        ensures
            final(self)@ == (ProfilePaneView {
                name_draft: match old(self)@.picked() {
                    Some(p) => p.name@,
                    None => label_of(
                        Choices::Provider,
                        provider_position(form.draft.api.provider),
                    ),
                },
                dialog: DialogView::SaveName,
                ..old(self)@
            }),
    {
        let name: String = match self.selected_api_profile() {
            Some(p) => p.name.clone(),
            None => owned(provider_label(form.draft.api.provider)),
        };
        self.name_draft = name;
        self.dialog = PresetDialog::SaveName;
    }

    /// Copy the selected profile into the API form. Does not apply until Settings Save.
    pub fn load_api_profile(&mut self, form: &mut SettingsForm, state: &mut AppState)
        ensures
            match old(self)@.picked() {
                Some(p) => {
                    &&& final(self)@ == (ProfilePaneView { dialog: DialogView::Closed, ..old(self)@ })
                    &&& final(form).optional.shown(p.api)
                    &&& *final(form) == (SettingsForm {
                        draft: AppConfig { api: p.api, ..old(form).draft },
                        optional: final(form).optional,
                        form_error: None,
                        ..*old(form)
                    })
                    &&& final(state)@ == old(state)@.unsaved()
                },
                None => {
                    &&& final(self)@ == old(self)@
                    &&& *final(form) == *old(form)
                    &&& final(state)@ == old(state)@.failed("Select a profile to load."@)
                },
            },
    {
        let api: ApiConfig = match self.selected_api_profile() {
            Some(p) => p.api.clone(),
            None => {
                state.set_error(owned("Select a profile to load."));
                return ;
            },
        };
        form.optional = OptionalApi::of_config(&api);
        form.draft.api = api;
        self.dialog = PresetDialog::Closed;
        form.mark_dirty(state);
    }

    /// Delete was clicked: ask before deleting the picked profile.
    pub fn begin_delete(&mut self)
        ensures
            final(self)@ == match old(self)@.picked() {
                Some(p) => ProfilePaneView {
                    dialog: DialogView::Delete { name: p.name@ },
                    ..old(self)@
                },
                None => old(self)@,
            },
    {
        let name: Option<String> = match self.selected_api_profile() {
            Some(p) => Some(p.name.clone()),
            None => None,
        };
        match name {
            Some(name) => {
                self.dialog = PresetDialog::Delete { name };
            },
            None => {},
        }
    }

    /// The name was edited.
    pub fn edit_name(&mut self, text: String)
        ensures
            final(self)@ == (ProfilePaneView { name_draft: text@, ..old(self)@ }),
    {
        self.name_draft = text;
    }

    /// The name was confirmed: a blank one is refused, a known one asks before overwriting, a
    /// new one is stored.
    pub fn confirm_name(&mut self, state: &mut AppState) -> (r: PaneStep)
        ensures
            ({
                let name = trim(old(self)@.name_draft);
                if name.len() == 0 {
                    &&& r@ == StepView::Nothing
                    &&& final(self)@ == old(self)@
                    &&& final(state)@ == old(state)@.failed("Profile name is required."@)
                } else if profile_named(old(self)@.profiles, name) is Some {
                    &&& r@ == StepView::Nothing
                    &&& final(self)@ == (ProfilePaneView {
                        dialog: DialogView::Overwrite { name },
                        ..old(self)@
                    })
                    &&& final(state)@ == old(state)@
                } else {
                    &&& r@ == StepView::Commit(name)
                    &&& final(self)@ == old(self)@
                    &&& final(state)@ == old(state)@
                }
            }),
    {
        let name: String = trimmed(self.name_draft.as_str());
        if name.as_str().is_empty() {
            state.set_error(owned("Profile name is required."));
            return PaneStep::Nothing;
        }
        if self.position(name.as_str()).is_some() {
            self.dialog = PresetDialog::Overwrite { name };
            return PaneStep::Nothing;
        }
        PaneStep::Commit(name)
    }

    /// The name row was closed.
    pub fn cancel_name(&mut self)
        ensures
            final(self)@ == (ProfilePaneView {
                dialog: DialogView::Closed,
                name_draft: Seq::empty(),
                ..old(self)@
            }),
    {
        proof {
            reveal_strlit("");
        }
        self.dialog = PresetDialog::Closed;
        self.name_draft = owned("");
        assert(self@.name_draft =~= Seq::<char>::empty());
    }

    /// Store the form's API settings under `name` (exact match overwrites). True when the list
    /// is to be written to disk.
    pub fn commit_api_profile(
        &mut self,
        form: &SettingsForm,
        state: &mut AppState,
        name: &str,
    ) -> (r: bool)
        ensures
            r == (trim(name@).len() > 0),
            !r ==> final(self)@ == old(self)@ && final(state)@ == old(state)@.failed(
                "Profile name is required."@,
            ),
            r ==> final(state)@ == old(state)@ && exists|config: AppConfig| #[trigger]
                form.stands_for(config) && final(self)@.committed(
                    old(self)@,
                    trim(name@),
                    config.api,
                ),
    {
        let name: String = trimmed(name);
        if name.as_str().is_empty() {
            state.set_error(owned("Profile name is required."));
            return false;
        }
        let config: AppConfig = form.effective_draft();
        let ghost before = self.profiles@;
        match self.position(name.as_str()) {
            Some(i) => {
                let profile: ApiProfile = ApiProfile {
                    name: self.profiles[i].name.clone(),
                    api: config.api.clone(),
                };
                self.profiles.set(i, profile);
                assert(self.profiles@ =~= before.update(
                    i as int,
                    ApiProfile { api: config.api, ..before[i as int] },
                ));
            },
            None => {
                self.profiles.push(ApiProfile { name: name.clone(), api: config.api.clone() });
                assert(self.profiles@.drop_last() =~= before);
            },
        }
        self.selected = self.position(name.as_str());
        self.name_draft = name;
        self.dialog = PresetDialog::Closed;
        assert(form.stands_for(config) && self@.committed(old(self)@, name@, config.api));
        true
    }

    /// The file to write: names trimmed, nameless profiles dropped, fields that a provider does
    /// not use cleared.
    pub fn file_to_save(&self) -> (r: ApiProfileFile)
        ensures
            cleaned_profiles(r.profiles@, self@.profiles, self@.profiles.len() as int),
    {
        let mut copies: Vec<ApiProfile> = Vec::new();
        let mut i: usize = 0;
        while i < self.profiles.len()
            invariant
                i <= self.profiles@.len(),
                copies@ == self.profiles@.take(i as int),
            decreases self.profiles@.len() - i,
        {
            copies.push(self.profiles[i].clone());
            assert(self.profiles@.take(i + 1) =~= self.profiles@.take(i as int).push(
                self.profiles@[i as int],
            ));
            i = i + 1;
        }
        assert(copies@ =~= self.profiles@);
        let mut file: ApiProfileFile = ApiProfileFile { profiles: copies };
        file.sanitize_in_place();
        file
    }

    /// The file was written, or could not be. What was written becomes the list.
    pub fn finish_save(&mut self, state: &mut AppState, saved: Result<ApiProfileFile, String>)
        ensures
            match saved {
                Ok(file) => final(self)@ == (ProfilePaneView {
                    profiles: file.profiles@,
                    ..old(self)@
                }) && final(state)@ == old(state)@,
                Err(e) => final(self)@ == old(self)@ && final(state)@ == old(state)@.failed(
                    "Could not save API profiles: "@ + e@,
                ),
            },
    {
        match saved {
            Ok(file) => {
                self.profiles = file.profiles;
            },
            Err(e) => {
                state.set_error(joined("Could not save API profiles: ", e.as_str()));
            },
        }
    }

    /// Texts of the confirmation dialog.
    pub fn dialog_text(&self) -> (r: DialogText)
        ensures
            self.dialog.confirms(r, "profile"@, "API settings"@),
    {
        self.dialog.confirm_text("profile", "API settings")
    }

    /// The confirmation was answered. A refused overwrite goes back to the name; a confirmed
    /// deletion takes the entry out of the list.
    pub fn close_dialog(&mut self, confirmed: bool) -> (r: PaneStep)
        ensures
            match (old(self)@.dialog, confirmed) {
                (DialogView::Overwrite { name }, true) => r@ == StepView::Commit(name) && final(
                    self)@ == (ProfilePaneView { dialog: DialogView::Closed, ..old(self)@ }),
                (DialogView::Overwrite { name }, false) => r@ == StepView::Nothing && final(
                    self)@ == (ProfilePaneView { dialog: DialogView::SaveName, ..old(self)@ }),
                (DialogView::Delete { name }, true) => r@ == StepView::Save && final(self)@ == (
                ProfilePaneView {
                    profiles: profiles_without(old(self)@.profiles, name),
                    selected: None,
                    name_draft: Seq::empty(),
                    dialog: DialogView::Closed,
                }),
                _ => r@ == StepView::Nothing && final(self)@ == (ProfilePaneView {
                    dialog: DialogView::Closed,
                    ..old(self)@
                }),
            },
    {
        let mut action: PresetDialog = PresetDialog::Closed;
        std::mem::swap(&mut action, &mut self.dialog);
        match action {
            PresetDialog::Overwrite { name } => {
                if confirmed {
                    PaneStep::Commit(name)
                } else {
                    self.dialog = PresetDialog::SaveName;
                    PaneStep::Nothing
                }
            },
            PresetDialog::Delete { name } => {
                if confirmed {
                    self.remove(name.as_str());
                    PaneStep::Save
                } else {
                    PaneStep::Nothing
                }
            },
            _ => PaneStep::Nothing,
        }
    }

    /// Take the entries of this name out of the list.
    fn remove(&mut self, name: &str)
        ensures
            final(self)@ == (ProfilePaneView {
                profiles: profiles_without(old(self)@.profiles, name@),
                selected: None,
                name_draft: Seq::empty(),
                ..old(self)@
            }),
    {
        let ghost all = self.profiles@;
        let mut kept: Vec<ApiProfile> = Vec::new();
        let mut i: usize = 0;
        assert(all.take(0) =~= Seq::<ApiProfile>::empty());
        while i < self.profiles.len()
            invariant
                i <= self.profiles@.len(),
                all == self.profiles@,
                *self == *old(self),
                kept@ == profiles_without(all.take(i as int), name@),
            decreases self.profiles@.len() - i,
        {
            assert(all.take(i + 1).drop_last() =~= all.take(i as int));
            assert(all.take(i + 1).last() == all[i as int]);
            if !same_text(self.profiles[i].name.as_str(), name) {
                kept.push(self.profiles[i].clone());
            }
            i = i + 1;
        }
        assert(all.take(i as int) =~= all);
        self.profiles = kept;
        self.selected = None;
        proof {
            reveal_strlit("");
        }
        self.name_draft = owned("");
        assert(self@.name_draft =~= Seq::<char>::empty());
    }
}

/// A profile that was stored is the one picked afterwards, and loads the settings that were
/// stored.
pub proof fn law_stored_profile_is_picked(
    before: ProfilePaneView,
    after: ProfilePaneView,
    name: Seq<char>,
    api: ApiConfig,
)
    requires
        before.profiles.len() < usize::MAX,
        after.committed(before, name, api),
    ensures
        after.picked() matches Some(p) && p.name@ == name && p.api == api,
{
    lemma_profile_named(before.profiles, name);
    lemma_profile_named(after.profiles, name);
    let at = match profile_named(before.profiles, name) {
        Some(i) => i,
        None => before.profiles.len() as int,
    };
    assert(after.profiles[at].name@ == name);
    assert(profile_named(after.profiles, name) is Some);
    let k = profile_named(after.profiles, name)->0;
    assert(k <= at);
    if k < at {
        if profile_named(before.profiles, name) is None {
            assert(after.profiles.drop_last()[k] == after.profiles[k]);
        }
        assert(after.profiles[k] == before.profiles[k]);
    }
}

/// A deleted profile is gone, the others stay in their order.
pub proof fn law_deleted_profile_is_gone(
    a: Seq<ApiProfile>,
    b: Seq<ApiProfile>,
    name: Seq<char>,
    profile: ApiProfile,
)
    ensures
        profiles_without(a + b, name) == profiles_without(a, name) + profiles_without(b, name),
        profile.name@ == name ==> profiles_without(seq![profile], name).len() == 0,
        profile.name@ != name ==> profiles_without(seq![profile], name) == seq![profile],
        forall|i: int|
            0 <= i < profiles_without(b, name).len() ==> (#[trigger] profiles_without(
                b,
                name,
            )[i]).name@ != name,
    decreases b.len(),
{
    reveal_with_fuel(profiles_without, 2);
    assert(seq![profile].drop_last() =~= Seq::<ApiProfile>::empty());
    if profile.name@ != name {
        assert(profiles_without(seq![profile], name) =~= seq![profile]);
    }
    if b.len() == 0 {
        assert(a + b =~= a);
        assert(profiles_without(a, name) + profiles_without(b, name) =~= profiles_without(a, name));
    } else {
        assert((a + b).drop_last() =~= a + b.drop_last());
        law_deleted_profile_is_gone(a, b.drop_last(), name, profile);
        assert(profiles_without(a + b, name) =~= profiles_without(a, name) + profiles_without(
            b,
            name,
        ));
    }
}

/// Storing a profile changes no profile of another name, and adds one only where there was none of
/// the name.
pub proof fn law_stored_profile_changes_no_other(
    before: Seq<ApiProfile>,
    name: Seq<char>,
    api: ApiConfig,
    after: Seq<ApiProfile>,
    i: int,
)
    requires
        profile_stored(before, name, api, after),
        0 <= i < before.len(),
    ensures
        before[i].name@ != name ==> after[i] == before[i],
        after.len() == before.len() || after.len() == before.len() + 1,
        before[i].name@ == name ==> after.len() == before.len(),
{
    lemma_profile_named(before, name);
    if profile_named(before, name) is None {
        assert(after.drop_last()[i] == after[i]);
    }
}

} // verus!
