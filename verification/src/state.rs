//! Runtime application / pipeline state.

use crate::config::AppConfig;
use crate::frame::bytes_of;
use crate::text::{decimal, owned, push_decimal};
use crate::types::{NormRect, OcrBlock, TranslatedBlock};
use bytes::Bytes;
use std::collections::VecDeque;
use vstd::prelude::*;

verus! {

/// High-level pipeline status shown in the control UI.
#[derive(Debug, PartialEq)]
pub enum PipelineStatus {
    Idle,
    Capturing,
    RunningOcr,
    WaitingForStable { elapsed_ms: u64 },
    /// Model download into the models directory; the UI stays operable.
    DownloadingModels {
        file: String,
        /// 1-based index among files being fetched this run.
        file_index: u32,
        file_count: u32,
        percent: u8,
    },
    /// Building the inference session after files are on disk.
    LoadingModels,
    Translating,
    /// Auto-retry after a transient translate API / network / CLI error.
    RetryingTranslate {
        /// 1-based retry about to run.
        attempt: u32,
        max_retries: u32,
        /// The error that triggered this retry.
        message: String,
    },
    /// In-flight translation was aborted by the user.
    Cancelled,
    OverlayActive,
    Error { message: String },
}

impl Default for PipelineStatus {
    fn default() -> (r: Self)
        ensures
            r == PipelineStatus::Idle,
    {
        PipelineStatus::Idle
    }
}

impl Clone for PipelineStatus {
    fn clone(&self) -> (r: Self)
        ensures
            r == *self,
    {
        match self {
            PipelineStatus::Idle => PipelineStatus::Idle,
            PipelineStatus::Capturing => PipelineStatus::Capturing,
            PipelineStatus::RunningOcr => PipelineStatus::RunningOcr,
            PipelineStatus::WaitingForStable { elapsed_ms } => PipelineStatus::WaitingForStable {
                elapsed_ms: *elapsed_ms,
            },
            PipelineStatus::DownloadingModels { file, file_index, file_count, percent } =>
            PipelineStatus::DownloadingModels {
                file: file.clone(),
                file_index: *file_index,
                file_count: *file_count,
                percent: *percent,
            },
            PipelineStatus::LoadingModels => PipelineStatus::LoadingModels,
            PipelineStatus::Translating => PipelineStatus::Translating,
            PipelineStatus::RetryingTranslate { attempt, max_retries, message } =>
            PipelineStatus::RetryingTranslate {
                attempt: *attempt,
                max_retries: *max_retries,
                message: message.clone(),
            },
            PipelineStatus::Cancelled => PipelineStatus::Cancelled,
            PipelineStatus::OverlayActive => PipelineStatus::OverlayActive,
            PipelineStatus::Error { message } => PipelineStatus::Error { message: message.clone() },
        }
    }
}

impl PipelineStatus {
    /// The text shown for a status.
    pub open spec fn text(self) -> Seq<char> {
        match self {
            PipelineStatus::Idle => "Idle"@,
            PipelineStatus::Capturing => "Capturing"@,
            PipelineStatus::RunningOcr => "Running OCR"@,
            PipelineStatus::WaitingForStable { elapsed_ms } => "Waiting for stable text ("@
                + decimal(elapsed_ms as nat) + " ms)"@,
            PipelineStatus::DownloadingModels { file, file_index, file_count, percent } =>
            "Downloading OCR models ("@ + decimal(file_index as nat) + "/"@ + decimal(
                file_count as nat,
            ) + " · "@ + file@ + " · "@ + decimal(percent as nat) + "%)"@,
            PipelineStatus::LoadingModels => "Loading OCR models"@,
            PipelineStatus::Translating => "Translating"@,
            PipelineStatus::RetryingTranslate { attempt, max_retries, .. } =>
            "Retrying translation ("@ + decimal(attempt as nat) + "/"@ + decimal(
                max_retries as nat,
            ) + ")"@,
            PipelineStatus::Cancelled => "Cancelled"@,
            PipelineStatus::OverlayActive => "Overlay active"@,
            PipelineStatus::Error { message } => "Error: "@ + message@,
        }
    }

    /// The text shown for a status.
    pub fn label(&self) -> (r: String)
        ensures
            r@ == self.text(),
    {
        match self {
            PipelineStatus::Idle => owned("Idle"),
            PipelineStatus::Capturing => owned("Capturing"),
            PipelineStatus::RunningOcr => owned("Running OCR"),
            PipelineStatus::WaitingForStable { elapsed_ms } => {
                let mut out: String = owned("Waiting for stable text (");
                push_decimal(&mut out, *elapsed_ms);
                out.append(" ms)");
                out
            },
            PipelineStatus::DownloadingModels { file, file_index, file_count, percent } => {
                let mut out: String = owned("Downloading OCR models (");
                push_decimal(&mut out, *file_index as u64);
                out.append("/");
                push_decimal(&mut out, *file_count as u64);
                out.append(" · ");
                out.append(file.as_str());
                out.append(" · ");
                push_decimal(&mut out, *percent as u64);
                out.append("%)");
                out
            },
            PipelineStatus::LoadingModels => owned("Loading OCR models"),
            PipelineStatus::Translating => owned("Translating"),
            PipelineStatus::RetryingTranslate { attempt, max_retries, message: _ } => {
                let mut out: String = owned("Retrying translation (");
                push_decimal(&mut out, *attempt as u64);
                out.append("/");
                push_decimal(&mut out, *max_retries as u64);
                out.append(")");
                out
            },
            PipelineStatus::Cancelled => owned("Cancelled"),
            PipelineStatus::OverlayActive => owned("Overlay active"),
            PipelineStatus::Error { message } => {
                let mut out: String = owned("Error: ");
                out.append(message.as_str());
                out
            },
        }
    }

    /// A translation runs or is being retried.
    pub open spec fn translating(self) -> bool {
        self is Translating || self is RetryingTranslate
    }

    /// True while a translation runs or is being retried.
    pub fn is_translating(&self) -> (r: bool)
        ensures
            r == self.translating(),
    {
        match self {
            PipelineStatus::Translating => true,
            PipelineStatus::RetryingTranslate { .. } => true,
            _ => false,
        }
    }

    /// True for a failed pipeline.
    pub fn is_error(&self) -> (r: bool)
        ensures
            r == (self is Error),
    {
        match self {
            PipelineStatus::Error { .. } => true,
            _ => false,
        }
    }

    /// True while waiting for text to settle.
    pub fn is_waiting(&self) -> (r: bool)
        ensures
            r == (self is WaitingForStable),
    {
        match self {
            PipelineStatus::WaitingForStable { .. } => true,
            _ => false,
        }
    }
}

/// A status with its texts as characters.
pub enum StatusView {
    Idle,
    Capturing,
    RunningOcr,
    WaitingForStable { elapsed_ms: u64 },
    DownloadingModels { file: Seq<char>, file_index: u32, file_count: u32, percent: u8 },
    LoadingModels,
    Translating,
    RetryingTranslate { attempt: u32, max_retries: u32, message: Seq<char> },
    Cancelled,
    OverlayActive,
    Error { message: Seq<char> },
}

impl StatusView {
    /// A translation runs or is being retried.
    pub open spec fn translating(self) -> bool {
        self is Translating || self is RetryingTranslate
    }
}

impl View for PipelineStatus {
    type V = StatusView;

    open spec fn view(&self) -> StatusView {
        match *self {
            PipelineStatus::Idle => StatusView::Idle,
            PipelineStatus::Capturing => StatusView::Capturing,
            PipelineStatus::RunningOcr => StatusView::RunningOcr,
            PipelineStatus::WaitingForStable { elapsed_ms } => StatusView::WaitingForStable {
                elapsed_ms,
            },
            PipelineStatus::DownloadingModels { file, file_index, file_count, percent } =>
            StatusView::DownloadingModels { file: file@, file_index, file_count, percent },
            PipelineStatus::LoadingModels => StatusView::LoadingModels,
            PipelineStatus::Translating => StatusView::Translating,
            PipelineStatus::RetryingTranslate { attempt, max_retries, message } =>
            StatusView::RetryingTranslate { attempt, max_retries, message: message@ },
            PipelineStatus::Cancelled => StatusView::Cancelled,
            PipelineStatus::OverlayActive => StatusView::OverlayActive,
            PipelineStatus::Error { message } => StatusView::Error { message: message@ },
        }
    }
}

/// Characters of an optional text.
pub open spec fn optional_text(text: Option<String>) -> Option<Seq<char>> {
    match text {
        Some(t) => Some(t@),
        None => None,
    }
}

/// One translated page of the session.
#[derive(Debug, PartialEq)]
pub struct HistoryEntry {
    pub source_text: String,
    pub translated_text: String,
}

/// Capture thumbnail shared with the control UI.
#[derive(Debug)]
pub struct PreviewInfo {
    pub width: u32,
    pub height: u32,
    pub sequence: u64,
    /// Tightly packed RGBA8 (`width * height * 4`).
    pub rgba: Option<Bytes>,
}

impl Default for PreviewInfo {
    fn default() -> (r: Self)
        ensures
            r.width == 0,
            r.height == 0,
            r.sequence == 0,
            r.rgba is None,
    {
        PreviewInfo { width: 0, height: 0, sequence: 0, rgba: None }
    }
}

/// Rows of the Dashboard Recent pane.
pub const HISTORY_ROWS: usize = 5;

/// Mutable runtime state shared between UI and workers.
#[derive(Debug)]
pub struct AppState {
    pub status: PipelineStatus,
    pub config: AppConfig,
    pub latest_ocr_blocks: Vec<OcrBlock>,
    pub latest_translated_blocks: Vec<TranslatedBlock>,
    pub history: VecDeque<HistoryEntry>,
    pub target_window_title: Option<String>,
    pub target_hwnd: Option<isize>,
    pub preview: PreviewInfo,
    pub auto_running: bool,
    /// True while an LLM request is in flight (cancellable).
    pub translate_in_flight: bool,
    /// Last error message (kept after status changes so the UI can show it).
    pub last_error: Option<String>,
    /// Settings last saved successfully (shown in UI).
    pub settings_message: Option<String>,
    /// Duration of the last OCR inference (ms), if any.
    pub last_ocr_ms: Option<u64>,
    /// Number of text blocks from the last OCR pass.
    pub last_ocr_block_count: u32,
    /// Session OCR crops (normalized client rects). Empty = whole window.
    pub ocr_regions: Vec<NormRect>,
    /// True while the on-target region picker is open.
    pub region_select_active: bool,
    /// Working copy while picking (for Dashboard count / preview outlines).
    pub region_select_draft: Vec<NormRect>,
    /// Unique source strings currently in the session translation cache.
    pub translation_cache_len: usize,
    /// The user's attention was asked for since the last success.
    pub attention_sent: bool,
}

/// A preview with its pixels as bytes.
pub struct PreviewView {
    pub width: u32,
    pub height: u32,
    pub sequence: u64,
    pub rgba: Option<Seq<u8>>,
}

impl View for PreviewInfo {
    type V = PreviewView;

    open spec fn view(&self) -> PreviewView {
        PreviewView {
            width: self.width,
            height: self.height,
            sequence: self.sequence,
            rgba: match self.rgba {
                Some(b) => Some(bytes_of(b)),
                None => None,
            },
        }
    }
}

/// The runtime state as plain values.
pub struct AppView {
    pub status: StatusView,
    pub config: AppConfig,
    pub ocr: Seq<OcrBlock>,
    pub captions: Seq<TranslatedBlock>,
    /// Source text and translation of each page, the newest first.
    pub history: Seq<(Seq<char>, Seq<char>)>,
    pub title: Option<Seq<char>>,
    pub hwnd: Option<isize>,
    pub preview: PreviewView,
    pub auto_running: bool,
    pub translate_in_flight: bool,
    pub last_error: Option<Seq<char>>,
    pub settings_message: Option<Seq<char>>,
    pub last_ocr_ms: Option<u64>,
    pub last_ocr_block_count: u32,
    pub regions: Seq<NormRect>,
    pub region_select_active: bool,
    pub region_draft: Seq<NormRect>,
    pub cache_len: usize,
    pub attention_sent: bool,
}

/// Texts of a history entry.
pub open spec fn entry_texts(entry: HistoryEntry) -> (Seq<char>, Seq<char>) {
    (entry.source_text@, entry.translated_text@)
}

/// The runtime state as plain values.
#[verifier::opaque]
pub open spec fn app_view(state: AppState) -> AppView {
    AppView {
        status: state.status@,
        config: state.config,
        ocr: state.latest_ocr_blocks@,
        captions: state.latest_translated_blocks@,
        history: state.history@.map_values(|e: HistoryEntry| entry_texts(e)),
        title: optional_text(state.target_window_title),
        hwnd: state.target_hwnd,
        preview: state.preview@,
        auto_running: state.auto_running,
        translate_in_flight: state.translate_in_flight,
        last_error: optional_text(state.last_error),
        settings_message: optional_text(state.settings_message),
        last_ocr_ms: state.last_ocr_ms,
        last_ocr_block_count: state.last_ocr_block_count,
        regions: state.ocr_regions@,
        region_select_active: state.region_select_active,
        region_draft: state.region_select_draft@,
        cache_len: state.translation_cache_len,
        attention_sent: state.attention_sent,
    }
}

impl View for AppState {
    type V = AppView;

    open spec fn view(&self) -> AppView {
        app_view(*self)
    }
}

impl AppView {
    /// An error is shown and kept.
    #[verifier::opaque]
    pub open spec fn failed(self, message: Seq<char>) -> AppView {
        AppView { last_error: Some(message), status: StatusView::Error { message }, ..self }
    }

    /// The status that the flags and the overlay content stand for.
    #[verifier::opaque]
    pub open spec fn restored(self) -> AppView {
        AppView {
            status: if self.translate_in_flight {
                StatusView::Translating
            } else if self.auto_running {
                StatusView::Capturing
            } else if self.captions.len() > 0 {
                StatusView::OverlayActive
            } else {
                StatusView::Idle
            },
            ..self
        }
    }

    /// Capturing while capture runs, else `rest`.
    #[verifier::opaque]
    pub open spec fn resting(self, rest: StatusView) -> AppView {
        AppView {
            status: if self.auto_running {
                StatusView::Capturing
            } else {
                rest
            },
            ..self
        }
    }

    /// The newest page comes first; at most [`HISTORY_ROWS`] are kept.
    #[verifier::opaque]
    pub open spec fn remembered(self, source: Seq<char>, translated: Seq<char>) -> AppView {
        AppView {
            history: recent(seq![(source, translated)] + self.history, HISTORY_ROWS as nat),
            ..self
        }
    }
}

impl AppState {
    /// State of an idle application.
    pub fn new(config: AppConfig) -> (r: AppState)
        ensures
            r.status == PipelineStatus::Idle,
            r.config == config,
            r.latest_ocr_blocks@.len() == 0,
            r.latest_translated_blocks@.len() == 0,
            r.history@.len() == 0,
            r.target_window_title is None,
            r.target_hwnd is None,
            r.preview.width == 0,
            r.preview.height == 0,
            r.preview.sequence == 0,
            r.preview.rgba is None,
            !r.auto_running,
            !r.translate_in_flight,
            r.last_error is None,
            r.settings_message is None,
            r.last_ocr_ms is None,
            r.last_ocr_block_count == 0,
            r.ocr_regions@.len() == 0,
            !r.region_select_active,
            r.region_select_draft@.len() == 0,
            r.translation_cache_len == 0,
            !r.attention_sent,
    {
        AppState {
            status: PipelineStatus::Idle,
            config,
            latest_ocr_blocks: Vec::new(),
            latest_translated_blocks: Vec::new(),
            history: VecDeque::new(),
            target_window_title: None,
            target_hwnd: None,
            preview: PreviewInfo::default(),
            auto_running: false,
            translate_in_flight: false,
            last_error: None,
            settings_message: None,
            last_ocr_ms: None,
            last_ocr_block_count: 0,
            ocr_regions: Vec::new(),
            region_select_active: false,
            region_select_draft: Vec::new(),
            translation_cache_len: 0,
            attention_sent: false,
        }
    }

    /// Show an error and keep its message.
    pub fn set_error(&mut self, message: String)
        ensures
            final(self)@ == old(self)@.failed(message@),
            *final(self) == (AppState {
                last_error: Some(message),
                status: PipelineStatus::Error { message },
                ..*old(self)
            }),
    {
        reveal(AppView::failed);
        reveal(app_view);
        self.last_error = Some(message.clone());
        self.status = PipelineStatus::Error { message };
    }

    /// Restore a non-error operational status from current flags / overlay content.
    pub fn restore_operational_status(&mut self)
        ensures
            final(self)@ == old(self)@.restored(),
            *final(self) == (AppState { status: final(self).status, ..*old(self) }),
    {
        reveal(AppView::restored);
        reveal(app_view);
        if self.translate_in_flight {
            self.status = PipelineStatus::Translating;
        } else if self.auto_running {
            self.status = PipelineStatus::Capturing;
        } else if self.latest_translated_blocks.len() > 0 {
            self.status = PipelineStatus::OverlayActive;
        } else {
            self.status = PipelineStatus::Idle;
        }
    }

    /// Show capturing while capture runs, else `rest`.
    pub fn rest_as(&mut self, rest: PipelineStatus)
        ensures
            final(self)@ == old(self)@.resting(rest@),
            *final(self) == (AppState { status: final(self).status, ..*old(self) }),
    {
        reveal(AppView::resting);
        reveal(app_view);
        if self.auto_running {
            self.status = PipelineStatus::Capturing;
        } else {
            self.status = rest;
        }
    }

    /// Put the newest page first and keep at most [`HISTORY_ROWS`] of them.
    pub fn push_history(&mut self, source_text: String, translated_text: String)
        ensures
            final(self)@ == old(self)@.remembered(source_text@, translated_text@),
            final(self).history@ == recent(
                seq![HistoryEntry { source_text, translated_text }] + old(self).history@,
                HISTORY_ROWS as nat,
            ),
            *final(self) == (AppState { history: final(self).history, ..*old(self) }),
    {
        reveal(AppView::remembered);
        reveal(app_view);
        let ghost all = seq![HistoryEntry { source_text, translated_text }] + self.history@;
        self.history.push_front(HistoryEntry { source_text, translated_text });
        assert(self.history@ =~= all);
        self.trim_history(HISTORY_ROWS);
        proof {
            let texts = |e: HistoryEntry| entry_texts(e);
            assert(recent(all, HISTORY_ROWS as nat).map_values(texts) =~= recent(
                seq![(source_text@, translated_text@)] + old(self).history@.map_values(texts),
                HISTORY_ROWS as nat,
            ));
        }
    }

    /// Keep at most `rows` of the newest pages.
    pub fn trim_history(&mut self, rows: usize)
        ensures
            final(self)@ == (AppView {
                history: recent(old(self)@.history, rows as nat),
                ..old(self)@
            }),
            final(self).history@ == recent(old(self).history@, rows as nat),
            *final(self) == (AppState { history: final(self).history, ..*old(self) }),
    {
        reveal(app_view);
        let ghost all = self.history@;
        assert(all.take(all.len() as int) =~= all);
        while self.history.len() > rows
            invariant
                self.history@.len() <= all.len(),
                self.history@ == all.take(self.history@.len() as int),
                rows < all.len() ==> self.history@.len() >= rows,
                rows >= all.len() ==> self.history@.len() == all.len(),
                *self == (AppState { history: self.history, ..*old(self) }),
            decreases self.history@.len(),
        {
            let _ = self.history.pop_back();
            assert(self.history@ =~= all.take(self.history@.len() as int));
        }
        proof {
            let texts = |e: HistoryEntry| entry_texts(e);
            assert(recent(all, rows as nat).map_values(texts) =~= recent(
                all.map_values(texts),
                rows as nat,
            ));
        }
    }
}

/// The first `rows` entries.
pub open spec fn recent<T>(history: Seq<T>, rows: nat) -> Seq<T> {
    if history.len() > rows {
        history.take(rows as int)
    } else {
        history
    }
}

/// The newest page is always in the history, which never grows beyond its rows.
pub proof fn law_history_is_bounded(before: Seq<HistoryEntry>, entry: HistoryEntry)
    ensures
        recent(seq![entry] + before, HISTORY_ROWS as nat).len() <= HISTORY_ROWS,
        recent(seq![entry] + before, HISTORY_ROWS as nat)[0] == entry,
{
}

/// The rows keep the newest pages in their order, and drop the oldest only.
pub proof fn law_history_drops_the_oldest<T>(history: Seq<T>, rows: nat)
    ensures
        recent(history, rows).len() == if history.len() < rows {
            history.len()
        } else {
            rows
        },
        forall|i: int|
            0 <= i < recent(history, rows).len() ==> #[trigger] recent(history, rows)[i]
                == history[i],
        HISTORY_ROWS == 5,
{
}

/// The status of the operation follows the work that goes on: a request first, capture next, and
/// captions that are shown last; nothing else changes.
pub proof fn law_status_follows_the_work(app: AppView)
    ensures
        app.translate_in_flight ==> app.restored().status == StatusView::Translating,
        !app.translate_in_flight && app.auto_running ==> app.restored().status
            == StatusView::Capturing,
        !app.translate_in_flight && !app.auto_running && app.captions.len() > 0
            ==> app.restored().status == StatusView::OverlayActive,
        !app.translate_in_flight && !app.auto_running && app.captions.len() == 0
            ==> app.restored().status == StatusView::Idle,
        app.restored() == (AppView { status: app.restored().status, ..app }),
{
    reveal(AppView::restored);
}

/// While capture runs the application rests as capturing, else as it is told.
pub proof fn law_capture_outranks_the_rest(app: AppView, rest: StatusView)
    ensures
        app.auto_running ==> app.resting(rest).status == StatusView::Capturing,
        !app.auto_running ==> app.resting(rest).status == rest,
        app.resting(rest) == (AppView { status: app.resting(rest).status, ..app }),
{
    reveal(AppView::resting);
}

/// An error is shown, and kept beyond the status that shows it.
pub proof fn law_error_is_kept(app: AppView, message: Seq<char>, rest: StatusView)
    ensures
        app.failed(message).status == (StatusView::Error { message }),
        app.failed(message).last_error == Some(message),
        app.failed(message).restored().last_error == Some(message),
        app.failed(message).resting(rest).last_error == Some(message),
        app.failed(message).captions == app.captions,
        app.failed(message).translate_in_flight == app.translate_in_flight,
        app.failed(message).auto_running == app.auto_running,
{
    reveal(AppView::failed);
    reveal(AppView::restored);
    reveal(AppView::resting);
}

/// A status that retries translates as well, and no other than these two does.
pub proof fn law_retrying_is_translating(status: PipelineStatus)
    ensures
        status.translating() <==> (status is Translating || status is RetryingTranslate),
        status.translating() == status@.translating(),
        status is Idle || status is Capturing || status is RunningOcr || status is OverlayActive
            || status is Error || status is Cancelled || status is WaitingForStable
            ==> !status.translating(),
        status is Translating ==> status.translating(),
        status is RetryingTranslate ==> status.translating(),
{
}

/// The text of an error is its message; the text of a wait ends with how long it has lasted.
pub proof fn law_status_text_tells_its_numbers(message: String, elapsed_ms: u64)
    ensures
        (PipelineStatus::Error { message }).text() == "Error: "@ + message@,
        (PipelineStatus::WaitingForStable { elapsed_ms }).text() == "Waiting for stable text ("@
            + decimal(elapsed_ms as nat) + " ms)"@,
{
}

} // verus!
