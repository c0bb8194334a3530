//! Chrome around the pages: status bar, title-bar strip, start/stop button, settings actions.

use crate::pipeline::command::PipelineCommand;
use crate::state::{AppState, PipelineStatus};
use crate::text::{decimal, joined, owned, push_decimal};
use crate::ui::form::{ConfirmAction, SettingsForm};
use crate::windowing::WindowInfo;
use vstd::prelude::*;

verus! {

/// Title bar, nav Start/Stop, settings Save bar, dashboard status.
#[derive(Debug)]
pub struct ChromeSnap {
    pub status: PipelineStatus,
    pub target: Option<String>,
    pub last_error: Option<String>,
    pub auto_running: bool,
    pub selected_hwnd: Option<isize>,
    pub settings_dirty: bool,
    pub form_error: Option<String>,
    pub settings_message: Option<String>,
    pub confirm: ConfirmAction,
}

/// The window that a list position picks.
pub open spec fn picked(windows: Seq<WindowInfo>, selected: Option<usize>) -> Option<WindowInfo> {
    match selected {
        Some(i) => if i < windows.len() {
            Some(windows[i as int])
        } else {
            None
        },
        None => None,
    }
}

/// Handle of the window that a list position picks.
pub open spec fn picked_hwnd(windows: Seq<WindowInfo>, selected: Option<usize>) -> Option<isize> {
    match picked(windows, selected) {
        Some(w) => Some(w.hwnd),
        None => None,
    }
}

/// Handle of the window that a list position picks.
pub fn selected_hwnd(windows: &Vec<WindowInfo>, selected: Option<usize>) -> (r: Option<isize>)
    ensures
        r == picked_hwnd(windows@, selected),
{
    match selected {
        Some(i) => if i < windows.len() {
            Some(windows[i].hwnd)
        } else {
            None
        },
        None => None,
    }
}

fn copy_text(text: &Option<String>) -> (r: Option<String>)
    ensures
        r == *text,
{
    match text {
        Some(s) => Some(s.clone()),
        None => None,
    }
}

/// What the chrome shows of the running state, the form and the window list.
pub fn take_chrome(
    state: &AppState,
    form: &SettingsForm,
    windows: &Vec<WindowInfo>,
    selected: Option<usize>,
) -> (r: ChromeSnap)
    ensures
        r == (ChromeSnap {
            status: state.status,
            target: state.target_window_title,
            last_error: state.last_error,
            auto_running: state.auto_running,
            selected_hwnd: picked_hwnd(windows@, selected),
            settings_dirty: form.differs(state.config),
            form_error: form.form_error,
            settings_message: state.settings_message,
            confirm: form.confirm,
        }),
{
    ChromeSnap {
        status: state.status.clone(),
        target: copy_text(&state.target_window_title),
        last_error: copy_text(&state.last_error),
        auto_running: state.auto_running,
        selected_hwnd: selected_hwnd(windows, selected),
        settings_dirty: form.draft_differs_from(&state.config),
        form_error: copy_text(&form.form_error),
        settings_message: copy_text(&state.settings_message),
        confirm: form.confirm,
    }
}

/// How urgent the status bar is.
#[derive(Debug, Clone, Copy, PartialEq, Eq, Structural)]
pub enum Severity {
    Informational,
    Warning,
    Error,
}

/// Content of the dashboard status bar.
#[derive(Debug)]
pub struct StatusBar {
    pub title: String,
    pub message: String,
    pub severity: Severity,
}

/// The text, or `(none)`.
pub open spec fn or_none(text: Option<String>) -> Seq<char> {
    match text {
        Some(s) => s@,
        None => "(none)"@,
    }
}

fn text_or_none(text: &Option<String>) -> (r: String)
    ensures
        r@ == or_none(*text),
{
    match text {
        Some(s) => s.clone(),
        None => owned("(none)"),
    }
}

/// The last error, where it has text.
pub open spec fn shown_error(snap: ChromeSnap) -> Option<Seq<char>> {
    match snap.last_error {
        Some(s) => if s@.len() > 0 {
            Some(s@)
        } else {
            None
        },
        None => None,
    }
}

/// Pipeline status bar of the dashboard: an error while one is known (with the retry count while
/// a request is being retried), else the status and its target.
pub fn status_infobar(snap: &ChromeSnap) -> (r: StatusBar)
    ensures
        match (shown_error(*snap), snap.status) {
            (Some(err), PipelineStatus::RetryingTranslate { attempt, max_retries, .. }) => {
                &&& r.title@ == err
                &&& r.message@ == "Retrying "@ + decimal(attempt as nat) + " of "@ + decimal(
                    max_retries as nat,
                )
                &&& r.severity == Severity::Warning
            },
            (Some(err), _) => {
                &&& r.title@ == err
                &&& r.message@ == ""@
                &&& r.severity == Severity::Error
            },
            (None, _) => {
                &&& r.title@ == snap.status.text()
                &&& r.message@ == or_none(snap.target)
                &&& r.severity == Severity::Informational
            },
        },
{
    match &snap.last_error {
        Some(err) => {
            if !err.as_str().is_empty() {
                return match &snap.status {
                    PipelineStatus::RetryingTranslate { attempt, max_retries, .. } => {
                        let mut message: String = owned("Retrying ");
                        push_decimal(&mut message, *attempt as u64);
                        message.append(" of ");
                        push_decimal(&mut message, *max_retries as u64);
                        StatusBar { title: err.clone(), message, severity: Severity::Warning }
                    },
                    _ => StatusBar {
                        title: err.clone(),
                        message: owned(""),
                        severity: Severity::Error,
                    },
                };
            }
        },
        None => {},
    }
    StatusBar {
        title: snap.status.label(),
        message: text_or_none(&snap.target),
        severity: Severity::Informational,
    }
}

/// Compact title-bar status: pipeline label and target window only.
pub fn app_status_strip(snap: &ChromeSnap) -> (r: String)
    ensures
        r@ == snap.status.text() + "  ·  "@ + or_none(snap.target),
{
    let mut out: String = snap.status.label();
    out.append("  ·  ");
    out.append(text_or_none(&snap.target).as_str());
    out
}

/// Weight of a button.
#[derive(Debug, Clone, Copy, PartialEq, Eq, Structural)]
pub enum Emphasis {
    Standard,
    Accent,
    Subtle,
}

/// Start/Stop button of the navigation pane footer.
#[derive(Debug)]
pub struct StartStopButton {
    pub label: &'static str,
    pub glyph: char,
    pub tip: &'static str,
    /// Identity: the button is mounted anew when its style or shape changes.
    pub key: &'static str,
    pub enabled: bool,
    pub emphasis: Emphasis,
    /// The label is shown beside the glyph.
    pub labelled: bool,
}

/// Start/Stop for the navigation pane footer.
pub fn capture_start_stop_button(snap: &ChromeSnap, pane_open: bool) -> (r: StartStopButton)
    ensures
        r.enabled == (snap.auto_running || snap.selected_hwnd is Some),
        r.label@ == if snap.auto_running {
            "Stop"@
        } else {
            "Start"@
        },
        r.glyph == if snap.auto_running {
            '\u{EE95}'
        } else {
            '\u{F5B0}'
        },
        r.tip@ == if snap.auto_running {
            "Stop continuous capture"@
        } else if snap.selected_hwnd is Some {
            "Start continuous capture of the selected window"@
        } else {
            "Select a window first"@
        },
        r.key@ == match (snap.auto_running, pane_open) {
            (true, true) => "btn-stop-wide"@,
            (true, false) => "btn-stop-compact"@,
            (false, true) => "btn-start-wide"@,
            (false, false) => "btn-start-compact"@,
        },
        r.emphasis == if snap.auto_running {
            Emphasis::Accent
        } else if !pane_open {
            Emphasis::Subtle
        } else {
            Emphasis::Standard
        },
        r.labelled == pane_open,
{
    let running: bool = snap.auto_running;
    let has_window: bool = snap.selected_hwnd.is_some();
    let tip: &'static str = if running {
        "Stop continuous capture"
    } else if has_window {
        "Start continuous capture of the selected window"
    } else {
        "Select a window first"
    };
    let key: &'static str = match (running, pane_open) {
        (true, true) => "btn-stop-wide",
        (true, false) => "btn-stop-compact",
        (false, true) => "btn-start-wide",
        (false, false) => "btn-start-compact",
    };
    let emphasis: Emphasis = if running {
        Emphasis::Accent
    } else if !pane_open {
        Emphasis::Subtle
    } else {
        Emphasis::Standard
    };
    StartStopButton {
        label: if running {
            "Stop"
        } else {
            "Start"
        },
        glyph: if running {
            '\u{EE95}'
        } else {
            '\u{F5B0}'
        },
        tip,
        key,
        enabled: running || has_window,
        emphasis,
        labelled: pane_open,
    }
}

/// Command of a click on Start/Stop: stop a running capture, else start one of the picked
/// window.
pub fn start_stop_command(
    auto_running: bool,
    windows: &Vec<WindowInfo>,
    selected: Option<usize>,
) -> (r: Option<PipelineCommand>)
    ensures
        r == if auto_running {
            Some(PipelineCommand::StopCapture)
        } else {
            match picked(windows@, selected) {
                Some(w) => Some(PipelineCommand::StartCapture { hwnd: w.hwnd, title: w.title }),
                None => None,
            }
        },
{
    if auto_running {
        return Some(PipelineCommand::StopCapture);
    }
    match selected {
        Some(i) => if i < windows.len() {
            Some(
                PipelineCommand::StartCapture {
                    hwnd: windows[i].hwnd,
                    title: windows[i].title.clone(),
                },
            )
        } else {
            None
        },
        None => None,
    }
}

/// Line beside the settings actions.
#[derive(Debug)]
pub enum StatusHint {
    /// A validation message.
    Critical(String),
    /// The banner of the last save.
    Accent(String),
    Blank,
}

/// Save / Reload / Discard bar of the settings pages.
#[derive(Debug)]
pub struct SettingsActions {
    pub save_tip: String,
    pub save_accented: bool,
    pub hint: StatusHint,
    pub reload_tip: &'static str,
    pub discard_tip: &'static str,
}

/// Shared Save / Reload / Discard bar for settings pages.
pub fn settings_actions(snap: &ChromeSnap) -> (r: SettingsActions)
    ensures
        r.save_tip@ == match snap.form_error {
            Some(err) => "Cannot save: "@ + err@,
            None => if snap.settings_dirty {
                "Unsaved changes — click to save and apply"@
            } else {
                "Save to config.toml and apply now"@
            },
        },
        r.save_accented == (snap.settings_dirty || snap.form_error is Some),
        r.hint == match (snap.form_error, snap.settings_message) {
            (Some(err), _) => StatusHint::Critical(err),
            (None, Some(msg)) => if msg@.len() > 0 {
                StatusHint::Accent(msg)
            } else {
                StatusHint::Blank
            },
            (None, None) => StatusHint::Blank,
        },
        r.reload_tip@ == "Reload config.toml from disk and apply"@,
        r.discard_tip@ == "Discard edits and restore currently running settings"@,
{
    let save_tip: String = match &snap.form_error {
        Some(err) => joined("Cannot save: ", err.as_str()),
        None => if snap.settings_dirty {
            owned("Unsaved changes — click to save and apply")
        } else {
            owned("Save to config.toml and apply now")
        },
    };
    let hint: StatusHint = match (&snap.form_error, &snap.settings_message) {
        (Some(err), _) => StatusHint::Critical(err.clone()),
        (None, Some(msg)) => if !msg.as_str().is_empty() {
            StatusHint::Accent(msg.clone())
        } else {
            StatusHint::Blank
        },
        (None, None) => StatusHint::Blank,
    };
    SettingsActions {
        save_tip,
        save_accented: snap.settings_dirty || snap.form_error.is_some(),
        hint,
        reload_tip: "Reload config.toml from disk and apply",
        discard_tip: "Discard edits and restore currently running settings",
    }
}

/// Texts of a confirmation dialog.
#[derive(Debug)]
pub struct DialogText {
    pub open: bool,
    pub title: String,
    pub body: String,
    pub primary: &'static str,
}

impl DialogText {
    /// The dialog says exactly this.
    pub open spec fn says(
        self,
        open: bool,
        title: Seq<char>,
        body: Seq<char>,
        primary: Seq<char>,
    ) -> bool {
        self.open == open && self.title@ == title && self.body@ == body && self.primary@ == primary
    }
}

/// Confirmation of Reload or Discard.
pub fn confirm_dialog(confirm: ConfirmAction) -> (r: DialogText)
    ensures
        match confirm {
            ConfirmAction::Reload => r.says(
                true,
                "Reload from disk?"@,
                "Unsaved edits will be lost. The file on disk will replace the current draft."@,
                "Reload"@,
            ),
            ConfirmAction::Discard => r.says(
                true,
                "Discard changes?"@,
                "Unsaved edits will be lost. Running settings will be restored."@,
                "Discard"@,
            ),
            ConfirmAction::Nothing => r.says(false, ""@, ""@, "OK"@),
        },
{
    match confirm {
        ConfirmAction::Reload => DialogText {
            open: true,
            title: owned("Reload from disk?"),
            body: owned(
                "Unsaved edits will be lost. The file on disk will replace the current draft.",
            ),
            primary: "Reload",
        },
        ConfirmAction::Discard => DialogText {
            open: true,
            title: owned("Discard changes?"),
            body: owned("Unsaved edits will be lost. Running settings will be restored."),
            primary: "Discard",
        },
        ConfirmAction::Nothing => DialogText {
            open: false,
            title: owned(""),
            body: owned(""),
            primary: "OK",
        },
    }
}

} // verus!
