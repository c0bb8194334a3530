//! What the UI asks of the pipeline, and what the pipeline asks of its host.

use crate::config::{ApiConfig, AppConfig, OcrConfig, OverlayConfig};
use crate::types::{NormRect, TranslatedBlock};
use vstd::prelude::*;

verus! {

/// Commands the UI sends to the pipeline worker.
#[derive(Debug)]
pub enum PipelineCommand {
    StartCapture { hwnd: isize, title: String },
    StopCapture,
    /// Grab one frame and OCR + translate immediately (bypass stability wait).
    ManualCapture,
    /// Drop LLM conversation history (keeps OCR models and translation cache).
    ResetConversation,
    /// Drop the session translation cache (keeps conversation history).
    ClearTranslationCache,
    /// Apply a full config snapshot (saved from the settings UI).
    ApplyConfig(Box<AppConfig>),
    /// Persist and apply overlay / reader visibility without saving the rest of the draft.
    SetOverlayDisplay { enabled: bool, reader_enabled: bool },
    /// Cancel the in-flight translation request (if any).
    CancelTranslate,
    /// Open the on-target region picker (`hwnd` is the capture / selected window).
    BeginRegionSelect { hwnd: isize },
    ConfirmRegionSelect,
    ClearRegionSelect,
    /// Replace session OCR crops (empty = whole window), each in its sanitized form where it has
    /// one. Not persisted.
    SetCaptureRegions { regions: Vec<Option<NormRect>> },
    Shutdown,
}

/// What the overlay host reports.
#[derive(Debug)]
pub enum OverlayEvent {
    /// The picked regions, each in its sanitized form where it has one.
    RegionsCommitted(Vec<Option<NormRect>>),
    RegionSelectCancelled,
    RegionSelectUpdated(Vec<NormRect>),
}

/// Orders to the overlay host.
#[derive(Debug)]
pub enum OverlayCommand {
    Clear,
    Attach { target_hwnd: isize },
    Detach,
    SetBlocks { blocks: Vec<TranslatedBlock>, content_width: u32, content_height: u32 },
    UpdateConfig(OverlayConfig),
    ConfirmRegionSelect,
    ClearRegionSelect,
    CancelRegionSelect,
}

/// An order to the overlay host as a plain value.
pub enum OverlayOrder {
    Clear,
    Attach { target_hwnd: isize },
    Detach,
    SetBlocks { blocks: Seq<TranslatedBlock>, content_width: u32, content_height: u32 },
    UpdateConfig(OverlayConfig),
    ConfirmRegionSelect,
    ClearRegionSelect,
    CancelRegionSelect,
}

impl View for OverlayCommand {
    type V = OverlayOrder;

    open spec fn view(&self) -> OverlayOrder {
        match *self {
            OverlayCommand::Clear => OverlayOrder::Clear,
            OverlayCommand::Attach { target_hwnd } => OverlayOrder::Attach { target_hwnd },
            OverlayCommand::Detach => OverlayOrder::Detach,
            OverlayCommand::SetBlocks { blocks, content_width, content_height } =>
            OverlayOrder::SetBlocks { blocks: blocks@, content_width, content_height },
            OverlayCommand::UpdateConfig(c) => OverlayOrder::UpdateConfig(c),
            OverlayCommand::ConfirmRegionSelect => OverlayOrder::ConfirmRegionSelect,
            OverlayCommand::ClearRegionSelect => OverlayOrder::ClearRegionSelect,
            OverlayCommand::CancelRegionSelect => OverlayOrder::CancelRegionSelect,
        }
    }
}

/// Work for the host that has no answer.
#[derive(Debug)]
pub enum Action {
    Overlay(OverlayCommand),
    /// Shut the overlay host down.
    CloseOverlay,
    /// End the capture stream.
    StopStream,
    /// Abort the running translation request.
    CancelJob,
    /// Take back the user turn of a request that did not finish.
    RollbackTurn,
    /// Keep the finished exchange as conversation context.
    CommitTurn,
    ClearConversation,
    /// Start a new session with the translation service.
    ResetClientSession,
    UpdateClient(ApiConfig),
    ClearCache,
    ResizeCache(usize),
    /// Start the translation request whose job has just been recorded.
    SpawnTranslate,
    /// Download and load OCR models in the background.
    StartModelLoad(OcrConfig),
    /// Report the latest phase of the running model load.
    SyncModelLoad,
    /// Take over the engine that the load has finished.
    InstallEngine,
    DropEngine,
    ConfigureEngine(OcrConfig),
    /// Ask for the user's attention.
    FlashTaskbar,
}

/// Work for the host as a plain value.
pub enum Effect {
    Overlay(OverlayOrder),
    CloseOverlay,
    StopStream,
    CancelJob,
    RollbackTurn,
    CommitTurn,
    ClearConversation,
    ResetClientSession,
    UpdateClient(ApiConfig),
    ClearCache,
    ResizeCache(usize),
    SpawnTranslate,
    StartModelLoad(OcrConfig),
    SyncModelLoad,
    InstallEngine,
    DropEngine,
    ConfigureEngine(OcrConfig),
    FlashTaskbar,
}

impl View for Action {
    type V = Effect;

    open spec fn view(&self) -> Effect {
        match *self {
            Action::Overlay(c) => Effect::Overlay(c@),
            Action::CloseOverlay => Effect::CloseOverlay,
            Action::StopStream => Effect::StopStream,
            Action::CancelJob => Effect::CancelJob,
            Action::RollbackTurn => Effect::RollbackTurn,
            Action::CommitTurn => Effect::CommitTurn,
            Action::ClearConversation => Effect::ClearConversation,
            Action::ResetClientSession => Effect::ResetClientSession,
            Action::UpdateClient(c) => Effect::UpdateClient(c),
            Action::ClearCache => Effect::ClearCache,
            Action::ResizeCache(n) => Effect::ResizeCache(n),
            Action::SpawnTranslate => Effect::SpawnTranslate,
            Action::StartModelLoad(c) => Effect::StartModelLoad(c),
            Action::SyncModelLoad => Effect::SyncModelLoad,
            Action::InstallEngine => Effect::InstallEngine,
            Action::DropEngine => Effect::DropEngine,
            Action::ConfigureEngine(c) => Effect::ConfigureEngine(c),
            Action::FlashTaskbar => Effect::FlashTaskbar,
        }
    }
}

/// Work for the host as plain values.
pub open spec fn effects(actions: Seq<Action>) -> Seq<Effect> {
    actions.map_values(|a: Action| a@)
}

} // verus!
