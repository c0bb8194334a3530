//! Config changes and the OCR model load.

use crate::config::{ApiConfig, AppConfig, OcrConfig, OverlayConfig};
use crate::download::ModelLoadUpdate;
use crate::filter::Persistence;
use crate::pipeline::command::{Action, Effect, OverlayCommand, OverlayOrder};
use crate::pipeline::worker::{pipeline_view, Pipeline, PipelineView};
use crate::state::{app_view, AppView, PipelineStatus, StatusView};
use crate::text::{joined, owned};
use crate::types::ModelTier;
use vstd::prelude::*;

verus! {

/// The configs speak to different models.
pub open spec fn identity_changed(before: ApiConfig, after: ApiConfig) -> bool {
    before.model@ != after.model@ || before.http_api != after.http_api || before.provider
        != after.provider
}

impl PipelineView {
    /// Overlay and reader visibility are changed on the live config.
    #[verifier::opaque]
    pub open spec fn display_set(self, enabled: bool, reader_enabled: bool) -> PipelineView {
        let overlay = OverlayConfig {
            enabled,
            reader_enabled,
            ..self.app.config.overlay
        };
        self.with_app(
            AppView { config: AppConfig { overlay, ..self.app.config }, ..self.app },
        ).orders(OverlayOrder::UpdateConfig(overlay))
    }

    /// A config takes effect on everything but the shared state and the OCR engine.
    #[verifier::opaque]
    pub open spec fn config_begun(self, cfg: AppConfig) -> PipelineView {
        let p = PipelineView {
            gate: self.gate.reconfigured(cfg.ocr),
            persistence: Persistence::of_config(cfg.ocr),
            tracks: Seq::empty(),
            ..self
        };
        let q = if identity_changed(self.client_api, cfg.api) {
            p.job_dropped().asks(Effect::ClearConversation)
        } else {
            p
        };
        (PipelineView { client_api: cfg.api, ..q }).asks(Effect::UpdateClient(cfg.api)).asks(
            Effect::ResizeCache(cfg.translation.cache_capacity()),
        ).orders(OverlayOrder::UpdateConfig(cfg.overlay))
    }

    /// A load of the configured models is asked for, unless one runs; the host is to report its
    /// phase.
    #[verifier::opaque]
    pub open spec fn load_started(self) -> PipelineView {
        let ocr = self.app.config.ocr;
        if self.model_load is Some {
            self.asks(Effect::SyncModelLoad)
        } else {
            (PipelineView {
                ocr_tier: ocr.model_tier,
                model_load: Some(ocr.model_tier),
                ..self
            }).asks(Effect::StartModelLoad(ocr)).asks(Effect::SyncModelLoad)
        }
    }

    /// A missing engine is being loaded.
    #[verifier::opaque]
    pub open spec fn engine_ensured(self) -> PipelineView {
        if self.engine_ready || self.model_load is Some {
            self
        } else {
            self.load_started()
        }
    }

    /// The settings are in place and the user is told so.
    #[verifier::opaque]
    pub open spec fn settings_saved(self, cfg: AppConfig, cache_len: usize) -> PipelineView {
        self.with_app(
            AppView {
                config: cfg,
                cache_len,
                settings_message: Some("Saved"@),
                last_error: None,
                ..self.app
            },
        )
    }

    /// The settings are in place but could not be saved.
    #[verifier::opaque]
    pub open spec fn settings_unsaved(self, cfg: AppConfig, error: Seq<char>) -> PipelineView {
        self.with_app((AppView { config: cfg, ..self.app }).failed("save config: "@ + error))
    }

    /// The engine follows the settings: another tier is loaded, an engine that stays takes the
    /// runtime settings, a missing engine is loaded unless a load runs.
    #[verifier::opaque]
    pub open spec fn engine_followed(self, ocr: OcrConfig) -> PipelineView {
        if self.ocr_tier != ocr.model_tier {
            self.engine_dropped(ocr.model_tier).load_started()
        } else if self.engine_ready {
            self.asks(Effect::ConfigureEngine(ocr)).status_restored()
        } else if self.model_load is None {
            self.load_started()
        } else {
            self.asks(Effect::SyncModelLoad)
        }
    }

    /// The engine is given up for one of another tier.
    #[verifier::opaque]
    pub open spec fn engine_dropped(self, tier: ModelTier) -> PipelineView {
        (PipelineView { ocr_tier: tier, engine_ready: false, ..self }).asks(Effect::DropEngine)
    }

    /// The status is what the flags and the overlay content stand for.
    #[verifier::opaque]
    pub open spec fn status_restored(self) -> PipelineView {
        self.with_app(self.app.restored())
    }

    /// An error is shown and kept.
    #[verifier::opaque]
    pub open spec fn failed(self, message: Seq<char>) -> PipelineView {
        self.with_app(self.app.failed(message))
    }

    /// The config was saved, or could not be.
    pub open spec fn config_saved(
        self,
        cfg: AppConfig,
        failure: Option<Seq<char>>,
        cache_len: usize,
    ) -> PipelineView {
        match failure {
            Some(e) => self.settings_unsaved(cfg, e),
            None => self.settings_saved(cfg, cache_len).engine_followed(cfg.ocr),
        }
    }

    /// No model load runs.
    #[verifier::opaque]
    pub open spec fn load_ended(self) -> PipelineView {
        PipelineView { model_load: None, ..self }
    }

    /// The engine of a finished load is taken over.
    #[verifier::opaque]
    pub open spec fn engine_installed(self, tier: ModelTier, ocr: OcrConfig) -> PipelineView {
        (PipelineView { ocr_tier: tier, engine_ready: true, ..self }).asks(
            Effect::InstallEngine,
        ).asks(Effect::ConfigureEngine(ocr)).status_restored()
    }

    /// The phase of a load is shown.
    #[verifier::opaque]
    pub open spec fn load_shown(self, update: ModelLoadUpdate) -> PipelineView {
        self.with_app(
            AppView {
                status: match update.shown_as() {
                    Some(s) => s@,
                    None => StatusView::LoadingModels,
                },
                ..self.app
            },
        )
    }

    /// The pipeline after the host reported the latest phase of the model load. `ended` says that
    /// the load task is gone.
    pub open spec fn load_synced(self, update: ModelLoadUpdate, ended: bool) -> PipelineView {
        match self.model_load {
            None => self,
            Some(tier) => {
                let ocr = self.app.config.ocr;
                let stale = tier != ocr.model_tier;
                match update {
                    ModelLoadUpdate::Ready => if stale {
                        self.load_ended().load_started()
                    } else {
                        self.load_ended().engine_installed(tier, ocr)
                    },
                    ModelLoadUpdate::Failed(message) => if stale {
                        self.load_ended().load_started()
                    } else {
                        self.load_ended().failed("models: "@ + message@)
                    },
                    _ => if !ended {
                        self.load_shown(update)
                    } else if stale {
                        self.load_ended().load_started()
                    } else {
                        self.load_ended().failed("models: load task ended unexpectedly"@)
                    },
                }
            },
        }
    }
}

impl Pipeline {
    /// Change only overlay and reader visibility on the live config; the host then saves it.
    pub fn set_overlay_display(&mut self, enabled: bool, reader_enabled: bool)
        ensures
            final(self)@ == old(self)@.display_set(enabled, reader_enabled),
    {
        reveal(PipelineView::display_set);
        let overlay: OverlayConfig = self.set_display_flags(enabled, reader_enabled);
        self.order(OverlayCommand::UpdateConfig(overlay));
    }

    fn set_display_flags(&mut self, enabled: bool, reader_enabled: bool) -> (r: OverlayConfig)
        ensures
            r == (OverlayConfig { enabled, reader_enabled, ..old(self)@.app.config.overlay }),
            final(self)@ == old(self)@.with_app(
                AppView {
                    config: AppConfig { overlay: r, ..old(self)@.app.config },
                    ..old(self)@.app
                },
            ),
    {
        reveal(pipeline_view);
        reveal(app_view);
        self.state.config.overlay.enabled = enabled;
        self.state.config.overlay.reader_enabled = reader_enabled;
        self.state.config.overlay
    }

    /// The host saved the overlay display flags, or could not.
    pub fn on_display_saved(&mut self, saved: Result<(), String>)
        ensures
            final(self)@ == match saved {
                Ok(_) => old(self)@,
                Err(e) => old(self)@.with_app(old(self)@.app.failed("save config: "@ + e@)),
            },
    {
        match saved {
            Ok(_) => {},
            Err(e) => {
                self.fail(joined("save config: ", e.as_str()));
            },
        }
    }

    /// Let a config take effect; the host then saves it and reports to
    /// [`Self::finish_apply_config`].
    pub fn begin_apply_config(&mut self, cfg: &AppConfig)
        ensures
            final(self)@ == old(self)@.config_begun(*cfg),
    {
        reveal(PipelineView::config_begun);
        let other: bool = self.is_other_model(&cfg.api);
        self.reconfigure_filters(&cfg.ocr);
        if other {
            self.cancel_inflight();
            self.ask(Action::ClearConversation);
        }
        self.set_client(&cfg.api);
        self.ask(Action::UpdateClient(cfg.api.clone()));
        self.ask(Action::ResizeCache(cfg.translation.cache_max_entries_clamped()));
        self.order(OverlayCommand::UpdateConfig(cfg.overlay));
    }

    fn is_other_model(&self, api: &ApiConfig) -> (r: bool)
        ensures
            r == identity_changed(self@.client_api, *api),
    {
        reveal(pipeline_view);
        self.client_api.model != api.model || self.client_api.http_api != api.http_api
            || self.client_api.provider != api.provider
    }

    pub(crate) fn reconfigure_filters(&mut self, ocr: &OcrConfig)
        ensures
            final(self)@ == (PipelineView {
                gate: old(self)@.gate.reconfigured(*ocr),
                persistence: Persistence::of_config(*ocr),
                tracks: Seq::empty(),
                ..old(self)@
            }),
    {
        reveal(pipeline_view);
        self.gate.reconfigure(ocr);
        self.persist.reconfigure(ocr);
        assert(self.persist.tracks@ =~= Seq::empty());
    }

    /// The translation client has these settings.
    pub fn set_client(&mut self, api: &ApiConfig)
        ensures
            final(self)@ == (PipelineView { client_api: *api, ..old(self)@ }),
    {
        reveal(pipeline_view);
        self.client_api = api.clone();
    }

    /// The host saved the config, or could not; `cache_len` is the size of the resized cache.
    ///
    /// Another model tier drops the engine and loads the other one. An engine that stays takes
    /// the runtime settings. A missing engine is loaded again, unless a load runs.
    pub fn finish_apply_config(
        &mut self,
        cfg: AppConfig,
        saved: Result<(), String>,
        cache_len: usize,
    )
        ensures
            final(self)@ == old(self)@.config_saved(
                cfg,
                match saved {
                    Ok(_) => None,
                    Err(e) => Some(e@),
                },
                cache_len,
            ),
    {
        match saved {
            Err(e) => {
                self.keep_unsaved(cfg, e);
            },
            Ok(_) => {
                let ocr: OcrConfig = cfg.ocr.clone();
                self.keep_saved(cfg, cache_len);
                self.follow_engine(ocr);
            },
        }
    }

    pub(crate) fn keep_unsaved(&mut self, cfg: AppConfig, error: String)
        ensures
            final(self)@ == old(self)@.settings_unsaved(cfg, error@),
    {
        reveal(PipelineView::settings_unsaved);
        self.set_config(cfg);
        self.fail(joined("save config: ", error.as_str()));
    }

    pub(crate) fn keep_saved(&mut self, cfg: AppConfig, cache_len: usize)
        ensures
            final(self)@ == old(self)@.settings_saved(cfg, cache_len),
    {
        reveal(PipelineView::settings_saved);
        reveal(pipeline_view);
        reveal(app_view);
        self.state.config = cfg;
        self.state.translation_cache_len = cache_len;
        self.state.settings_message = Some(owned("Saved"));
        self.state.last_error = None;
    }

    fn follow_engine(&mut self, ocr: OcrConfig)
        ensures
            final(self)@ == old(self)@.engine_followed(ocr),
    {
        reveal(PipelineView::engine_followed);
        if self.engine_tier() != ocr.model_tier {
            self.drop_engine(ocr.model_tier);
            self.start_model_load();
        } else if self.has_engine() {
            self.ask(Action::ConfigureEngine(ocr));
            self.restore();
        } else if self.loading().is_none() {
            self.start_model_load();
        } else {
            // The status of the running load stays.
            self.ask(Action::SyncModelLoad);
        }
    }

    pub(crate) fn restore(&mut self)
        ensures
            final(self)@ == old(self)@.status_restored(),
    {
        reveal(PipelineView::status_restored);
        self.restore_status();
    }

    pub(crate) fn set_config(&mut self, config: AppConfig)
        ensures
            final(self)@ == old(self)@.with_app(AppView { config, ..old(self)@.app }),
    {
        reveal(pipeline_view);
        reveal(app_view);
        self.state.config = config;
    }

    pub(crate) fn engine_tier(&self) -> (r: ModelTier)
        ensures
            r == self@.ocr_tier,
    {
        reveal(pipeline_view);
        self.ocr_tier
    }

    pub(crate) fn drop_engine(&mut self, tier: ModelTier)
        ensures
            final(self)@ == old(self)@.engine_dropped(tier),
    {
        reveal(PipelineView::engine_dropped);
        reveal(PipelineView::asks);
        reveal(pipeline_view);
        self.ocr_tier = tier;
        self.engine_ready = false;
        self.ask(Action::DropEngine);
    }

    /// True when the OCR engine is ready. Starts a background load if needed.
    pub fn ensure_engine(&mut self) -> (r: bool)
        ensures
            r == old(self)@.engine_ready,
            final(self)@ == old(self)@.engine_ensured(),
    {
        reveal(PipelineView::engine_ensured);
        if self.has_engine() {
            return true;
        }
        if self.loading().is_none() {
            self.start_model_load();
        }
        false
    }

    /// The OCR settings.
    pub fn ocr_settings(&self) -> (r: OcrConfig)
        ensures
            r == self@.app.config.ocr,
    {
        reveal(pipeline_view);
        reveal(app_view);
        self.state.config.ocr.clone()
    }

    fn record_load(&mut self, tier: ModelTier)
        ensures
            final(self)@ == (PipelineView {
                ocr_tier: tier,
                model_load: Some(tier),
                ..old(self)@
            }),
    {
        reveal(pipeline_view);
        self.ocr_tier = tier;
        self.model_load = Some(tier);
    }

    fn install_engine(&mut self, tier: ModelTier, ocr: OcrConfig)
        ensures
            final(self)@ == old(self)@.engine_installed(tier, ocr),
    {
        reveal(PipelineView::engine_installed);
        self.record_engine(tier);
        self.ask(Action::InstallEngine);
        self.ask(Action::ConfigureEngine(ocr));
        self.restore();
    }

    fn record_engine(&mut self, tier: ModelTier)
        ensures
            final(self)@ == (PipelineView { ocr_tier: tier, engine_ready: true, ..old(self)@ }),
    {
        reveal(pipeline_view);
        self.ocr_tier = tier;
        self.engine_ready = true;
    }

    fn fail_load(&mut self, message: String)
        ensures
            final(self)@ == old(self)@.failed(message@),
    {
        reveal(PipelineView::failed);
        self.fail(message);
    }

    fn stop_load(&mut self)
        ensures
            final(self)@ == old(self)@.load_ended(),
    {
        reveal(PipelineView::load_ended);
        self.end_load();
    }

    fn show_load(&mut self, update: &ModelLoadUpdate)
        ensures
            final(self)@ == old(self)@.load_shown(*update),
    {
        reveal(PipelineView::load_shown);
        self.set_status(
            match update.to_status() {
                Some(s) => s,
                None => PipelineStatus::LoadingModels,
            },
        );
    }

    /// Start a background OCR download and load if none runs.
    ///
    /// A running load is neither cancelled nor replaced. A load of another tier is left alone;
    /// [`Self::sync_model_load`] starts the desired tier once it has finished.
    pub fn start_model_load(&mut self)
        ensures
            final(self)@ == old(self)@.load_started(),
    {
        reveal(PipelineView::load_started);
        if self.loading().is_none() {
            let ocr: OcrConfig = self.ocr_settings();
            self.record_load(ocr.model_tier);
            self.ask(Action::StartModelLoad(ocr));
        }
        self.ask(Action::SyncModelLoad);
    }

    /// Show a status.
    pub fn set_status(&mut self, status: PipelineStatus)
        ensures
            final(self)@ == old(self)@.with_app(AppView { status: status@, ..old(self)@.app }),
    {
        reveal(pipeline_view);
        reveal(app_view);
        self.state.status = status;
    }

    /// Follow the latest phase of the model load. `ended` says that the load task is gone.
    pub fn sync_model_load(&mut self, update: ModelLoadUpdate, ended: bool)
        ensures
            final(self)@ == old(self)@.load_synced(update, ended),
    {
        let tier: ModelTier = match self.loading() {
            Some(t) => t,
            None => {
                return;
            },
        };
        let ocr: OcrConfig = self.ocr_settings();
        let stale: bool = tier != ocr.model_tier;
        match &update {
            ModelLoadUpdate::Ready => {
                self.stop_load();
                if stale {
                    self.start_model_load();
                } else {
                    self.install_engine(tier, ocr);
                }
            },
            ModelLoadUpdate::Failed(message) => {
                self.stop_load();
                if stale {
                    self.start_model_load();
                } else {
                    self.fail_load(joined("models: ", message.as_str()));
                }
            },
            _ => {
                if !ended {
                    self.show_load(&update);
                    return;
                }
                self.stop_load();
                if stale {
                    self.start_model_load();
                } else {
                    self.fail_load(owned("models: load task ended unexpectedly"));
                }
            },
        }
    }
}

} // verus!
