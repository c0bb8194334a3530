//! Root of the control window: pages, navigation pane, and messages.

use crate::config::{ApiConfig, ModelProvider};
use crate::normalize::{collapse, normalize_match_text};
use crate::text::{chars_of, same_text, string_between};
use vstd::prelude::*;

verus! {

/// Messages the root component accepts.
#[derive(Debug)]
pub enum AppMsg {
    /// UI-thread refresh (do not re-arm the pipeline waiter).
    Refresh,
    /// Background pipeline requested a rerender; re-arm the waiter.
    PipelineWake,
    SelectPage(String),
    PaneOpen(bool),
    TogglePane,
    /// Load model ids for the current API draft (`debounce` waits first).
    FetchModelList { debounce: bool },
    ModelListDone { generation: u64, ids: Vec<String> },
}

/// What the host does after a message.
#[derive(Debug, Clone, Copy, PartialEq, Eq, Structural)]
pub enum RootStep {
    Nothing,
    /// Wait for the next pipeline ping.
    ArmPipelinePing,
}

/// Page and pane of the control window.
#[derive(Debug)]
pub struct AppRoot {
    pub page_tag: String,
    pub is_pane_open: bool,
}

/// A page of the control window.
#[derive(Debug, Clone, Copy, PartialEq, Eq, Structural)]
pub enum PageKind {
    Dashboard,
    Api,
    Translation,
    Ocr,
    Overlay,
}

/// The page that a tag names; the dashboard for any other tag.
pub open spec fn page_of(tag: Seq<char>) -> PageKind {
    if tag == "api"@ {
        PageKind::Api
    } else if tag == "translation"@ {
        PageKind::Translation
    } else if tag == "ocr"@ {
        PageKind::Ocr
    } else if tag == "overlay"@ {
        PageKind::Overlay
    } else {
        PageKind::Dashboard
    }
}

impl PageKind {
    /// Heading of a settings page; the dashboard brings its own.
    pub open spec fn heading(self) -> Option<Seq<char>> {
        match self {
            PageKind::Dashboard => None,
            PageKind::Api => Some("API"@),
            PageKind::Translation => Some("Translation"@),
            PageKind::Ocr => Some("OCR"@),
            PageKind::Overlay => Some("Overlay"@),
        }
    }

    /// Heading of a settings page; the dashboard brings its own.
    pub fn settings_title(self) -> (r: Option<&'static str>)
        ensures
            match r {
                Some(t) => self.heading() == Some(t@),
                None => self.heading() is None,
            },
    {
        match self {
            PageKind::Dashboard => None,
            PageKind::Api => Some("API"),
            PageKind::Translation => Some("Translation"),
            PageKind::Ocr => Some("OCR"),
            PageKind::Overlay => Some("Overlay"),
        }
    }
}

/// Entry of the navigation pane.
#[derive(Debug)]
pub struct NavItem {
    pub tag: &'static str,
    pub label: &'static str,
    pub selected: bool,
}

impl NavItem {
    /// Entry of the page `tag` while `current` is shown.
    pub open spec fn entry(self, tag: Seq<char>, label: Seq<char>, current: Seq<char>) -> bool {
        self.tag@ == tag && self.label@ == label && self.selected == (tag == current)
    }
}

fn nav_item(tag: &'static str, label: &'static str, current: &str) -> (r: NavItem)
    ensures
        r.entry(tag@, label@, current@),
{
    NavItem { tag, label, selected: same_text(tag, current) }
}

impl AppRoot {
    /// The dashboard, with the pane open.
    pub fn new() -> (r: AppRoot)
        ensures
            r.page_tag@ == "dashboard"@,
            r.is_pane_open,
    {
        AppRoot { page_tag: "dashboard".to_owned(), is_pane_open: true }
    }

    /// Take a message in.
    pub fn update(&mut self, message: AppMsg) -> (r: RootStep)
        ensures
            r == if message is PipelineWake {
                RootStep::ArmPipelinePing
            } else {
                RootStep::Nothing
            },
            *final(self) == match message {
                AppMsg::SelectPage(tag) => if tag@.len() > 0 && tag@ != old(self).page_tag@ {
                    AppRoot { page_tag: tag, ..*old(self) }
                } else {
                    *old(self)
                },
                AppMsg::PaneOpen(open) => AppRoot { is_pane_open: open, ..*old(self) },
                AppMsg::TogglePane => AppRoot {
                    is_pane_open: !old(self).is_pane_open,
                    ..*old(self)
                },
                _ => *old(self),
            },
    {
        match message {
            AppMsg::PipelineWake => {
                return RootStep::ArmPipelinePing;
            },
            AppMsg::SelectPage(tag) => {
                if !tag.as_str().is_empty() && tag != self.page_tag {
                    self.page_tag = tag;
                }
            },
            AppMsg::PaneOpen(open) => {
                self.is_pane_open = open;
            },
            AppMsg::TogglePane => {
                self.is_pane_open = !self.is_pane_open;
            },
            _ => {},
        }
        RootStep::Nothing
    }

    /// The page to show.
    pub fn page(&self) -> (r: PageKind)
        ensures
            r == page_of(self.page_tag@),
    {
        let tag: &str = self.page_tag.as_str();
        if same_text(tag, "api") {
            PageKind::Api
        } else if same_text(tag, "translation") {
            PageKind::Translation
        } else if same_text(tag, "ocr") {
            PageKind::Ocr
        } else if same_text(tag, "overlay") {
            PageKind::Overlay
        } else {
            PageKind::Dashboard
        }
    }

    /// Entries of the navigation pane, with the shown page selected.
    pub fn nav_items(&self) -> (r: Vec<NavItem>)
        ensures
            r@.len() == 5,
            r@[0].entry("dashboard"@, "Dashboard"@, self.page_tag@),
            r@[1].entry("api"@, "API"@, self.page_tag@),
            r@[2].entry("translation"@, "Translation"@, self.page_tag@),
            r@[3].entry("ocr"@, "OCR"@, self.page_tag@),
            r@[4].entry("overlay"@, "Overlay"@, self.page_tag@),
    {
        let tag: &str = self.page_tag.as_str();
        let mut out: Vec<NavItem> = Vec::new();
        out.push(nav_item("dashboard", "Dashboard", tag));
        out.push(nav_item("api", "API", tag));
        out.push(nav_item("translation", "Translation", tag));
        out.push(nav_item("ocr", "OCR", tag));
        out.push(nav_item("overlay", "Overlay", tag));
        out
    }
}

/// One line of at most `max` characters: whitespace collapsed, a longer text cut and ended by
/// an ellipsis.
pub open spec fn shortened(s: Seq<char>, max: nat) -> Seq<char> {
    let t = collapse(s);
    if t.len() <= max {
        t
    } else {
        t.take(if max == 0 {
            0
        } else {
            max - 1
        }).push('…')
    }
}

/// One line of at most `max` characters.
pub fn truncate(s: &str, max: usize) -> (r: String)
    ensures
        r@ == shortened(s@, max as nat),
{
    let line: String = normalize_match_text(s);
    let chars: Vec<char> = chars_of(line.as_str());
    if chars.len() <= max {
        line
    } else {
        let keep: usize = if max == 0 {
            0
        } else {
            max - 1
        };
        let mut out: String = string_between(&chars, 0, keep);
        out.push('…');
        assert(chars@.subrange(0, keep as int) =~= chars@.take(keep as int));
        out
    }
}

/// A shortened text fits, except that one character is always left for the ellipsis.
pub proof fn law_truncate_fits(s: Seq<char>, max: nat)
    ensures
        max > 0 ==> shortened(s, max).len() <= max,
        collapse(s).len() <= max ==> shortened(s, max) == collapse(s),
        shortened(s, max).len() <= 1 || shortened(s, max).len() <= max,
{
}

/// Model ids known for the current provider, and the request that fetches them.
#[derive(Debug)]
pub struct ModelCatalog {
    pub ids: Vec<String>,
    pub loading: bool,
    /// Provider that the ids were asked for.
    pub provider: Option<ModelProvider>,
    pub generation: u64,
}

impl ModelCatalog {
    /// Nothing asked for yet.
    pub fn new() -> (r: ModelCatalog)
        ensures
            r.ids@.len() == 0,
            !r.loading,
            r.provider is None,
            r.generation == 0,
    {
        ModelCatalog { ids: Vec::new(), loading: false, provider: None, generation: 0 }
    }

    /// A new request for `provider` replaces the list.
    pub open spec fn asked(self, before: ModelCatalog, provider: ModelProvider) -> bool {
        &&& self.ids@.len() == 0
        &&& self.loading
        &&& self.provider == Some(provider)
        &&& self.generation == if before.generation == u64::MAX {
            u64::MAX
        } else {
            (before.generation + 1) as u64
        }
    }

    fn start(&mut self, provider: ModelProvider, debounce: bool) -> (r: AppMsg)
        ensures
            final(self).asked(*old(self), provider),
            r == (AppMsg::FetchModelList { debounce }),
    {
        self.generation = self.generation.saturating_add(1);
        self.provider = Some(provider);
        self.ids = Vec::new();
        self.loading = true;
        AppMsg::FetchModelList { debounce }
    }

    /// Ask for the list of the draft's provider, unless it is the one last asked for.
    pub fn schedule_model_list_if_needed(&mut self, api: &ApiConfig) -> (r: Option<AppMsg>)
        ensures
            old(self).provider == Some(api.provider) ==> r is None && *final(self) == *old(self),
            old(self).provider != Some(api.provider) ==> r == Some(
                AppMsg::FetchModelList { debounce: true },
            ) && final(self).asked(*old(self), api.provider),
    {
        match self.provider {
            Some(p) => {
                if p == api.provider {
                    return None;
                }
            },
            None => {},
        }
        Some(self.start(api.provider, true))
    }

    /// Ask for the list of the draft's provider at once.
    pub fn request_model_list(&mut self, api: &ApiConfig) -> (r: AppMsg)
        ensures
            r == (AppMsg::FetchModelList { debounce: false }),
            final(self).asked(*old(self), api.provider),
    {
        self.start(api.provider, false)
    }
}

/// Every page has its tag; anything else is the dashboard.
pub proof fn law_tags_name_their_pages(tag: Seq<char>)
    ensures
        page_of("api"@) == PageKind::Api,
        page_of("translation"@) == PageKind::Translation,
        page_of("ocr"@) == PageKind::Ocr,
        page_of("overlay"@) == PageKind::Overlay,
        tag != "api"@ && tag != "translation"@ && tag != "ocr"@ && tag != "overlay"@ ==> page_of(
            tag,
        ) == PageKind::Dashboard,
{
    reveal_strlit("api");
    reveal_strlit("translation");
    reveal_strlit("ocr");
    reveal_strlit("overlay");
    assert("api"@.len() == 3 && "ocr"@.len() == 3 && "api"@[0] != "ocr"@[0]);
    assert("translation"@.len() == 11 && "overlay"@.len() == 7);
}

/// A text that is too long is cut at the end and ends in an ellipsis.
pub proof fn law_long_text_is_cut_at_the_end(s: Seq<char>, max: nat)
    requires
        0 < max < collapse(s).len(),
    ensures
        shortened(s, max).len() == max,
        shortened(s, max).last() == '…',
        forall|i: int| 0 <= i < max - 1 ==> #[trigger] shortened(s, max)[i] == collapse(s)[i],
{
}

} // verus!
