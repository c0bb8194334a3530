//! Control window: form, cards, chrome, dashboard and dialogs.

use translator::api_profiles::ApiProfile;
use translator::config::{ApiConfig, AppConfig, LineMergeOrder, ModelProvider};
use translator::pipeline::command::PipelineCommand;
use translator::region_presets::RegionPresetFile;
use translator::scalar::Scalar;
use translator::state::{AppState, PipelineStatus};
use translator::types::{ModelTier, NormRect, OcrBlock, Rect, TranslatedBlock};
use translator::ui::cards::{api_page, choice_label, ocr_page, offered, overlay_page, translation_page, Choices, Control, Item};
use translator::ui::chrome::{
    app_status_strip, capture_start_stop_button, confirm_dialog, settings_actions, start_stop_command, status_infobar,
    take_chrome, Emphasis, Severity, StatusHint,
};
use translator::ui::controls::{argb_channels, picked_notation, reveal_button, Channels, ColorPopupParams, ModelSuggestParams};
use translator::ui::dashboard::{
    build_regions_pane, build_window_row, clear_command, ocr_summary, select_command, take_dash, WindowPicker,
};
use translator::ui::form::{
    ApiEdit, ConfirmAction, DisplaySwitch, MergeEdit, OcrEdit, OptionalEdit, SettingsForm, TranslationEdit,
};
use translator::ui::presets::{PaneStep, PresetDialog, PresetPane};
use translator::ui::profiles::ProfilePane;
use translator::ui::root::{truncate, AppMsg, AppRoot, ModelCatalog, PageKind, RootStep};
use translator::windowing::WindowInfo;

fn scalar(v: f32) -> Scalar {
    Scalar::from_bits(v.to_bits())
}

fn fresh() -> (SettingsForm, AppState) {
    let config = AppConfig::default();
    (SettingsForm::of_config(&config), AppState::new(config))
}

#[test]
fn fresh_form_has_nothing_to_save() {
    let (form, state) = fresh();
    assert!(!form.draft_differs_from(&state.config));
    assert!(form.form_validation_error().is_none());
}

#[test]
fn edits_are_held_to_their_ranges() {
    let (mut form, mut state) = fresh();
    state.settings_message = Some("Saved".to_string());
    form.form_error = Some("old".to_string());
    form.edit_api(&mut state, ApiEdit::RetryDelay(-5));
    assert_eq!(form.draft.api.retry_backoff_ms, 50);
    assert!(form.form_error.is_none() && state.settings_message.is_none());
    form.edit_api(&mut state, ApiEdit::Timeout(-1));
    assert_eq!(form.draft.api.request_timeout_secs, 0);
    form.edit_api(&mut state, ApiEdit::Retries(i64::MAX));
    assert_eq!(form.draft.api.max_retries, u32::MAX);
    form.edit_interval(&mut state, 10);
    assert_eq!(form.draft.capture.min_interval_ms, 50);
    form.edit_translation(&mut state, TranslationEdit::CacheSize(1_000_000));
    assert_eq!(form.draft.translation.cache_max_entries, 8192);
    form.edit_translation(&mut state, TranslationEdit::RecentTranslations(0));
    assert_eq!(form.draft.translation.history_max_items, 1);
    form.edit_merge(&mut state, MergeEdit::OrderBand(scalar(0.5)));
    assert_eq!(form.draft.ocr.line_merge.order_band_ratio, scalar(0.05));
    form.edit_merge(&mut state, MergeEdit::Gap(scalar(-1.0)));
    assert_eq!(form.draft.ocr.line_merge.gap_ratio, scalar(0.0));
    form.edit_ocr(&mut state, OcrEdit::MinConfidence(scalar(2.0)));
    assert_eq!(form.draft.ocr.confidence_threshold, scalar(1.0));
    form.edit_reader_font(&mut state, 500);
    assert_eq!(form.draft.overlay.reader_font_px, 72);
    assert!(form.draft_differs_from(&state.config));
}

#[test]
fn choices_pick_by_position() {
    let (mut form, mut state) = fresh();
    for (choice, provider) in [
        (0, ModelProvider::OpenaiCompatible),
        (1, ModelProvider::GrokCli),
        (2, ModelProvider::OpenCodeCli),
        (3, ModelProvider::CodexCli),
    ] {
        form.edit_api(&mut state, ApiEdit::Provider(choice));
        assert_eq!(form.draft.api.provider, provider);
    }
    form.edit_ocr(&mut state, OcrEdit::Tier(2));
    assert_eq!(form.draft.ocr.model_tier, ModelTier::Medium);
    form.edit_merge(&mut state, MergeEdit::Order(0));
    assert_eq!(form.draft.ocr.line_merge.order, LineMergeOrder::TopToBottomLeftToRight);
    assert_eq!(offered(Choices::Order), vec![1, 0]);
    assert_eq!(choice_label(Choices::Provider, 3), "Codex CLI");
    assert_eq!(choice_label(Choices::Order, 1), "Left to right, then top to bottom (rows)");
}

#[test]
fn optional_parameters_are_sent_only_when_on() {
    let (mut form, mut state) = fresh();
    form.edit_optional(&mut state, OptionalEdit::Temperature(scalar(3.0)));
    assert_eq!(form.effective_draft().api.temperature, None);
    form.edit_optional(&mut state, OptionalEdit::TemperatureOn(true));
    assert_eq!(form.effective_draft().api.temperature, Some(scalar(2.0)));
    form.edit_optional(&mut state, OptionalEdit::MaxTokensOn(true));
    assert_eq!(form.effective_draft().api.max_tokens, Some(2048));
    form.edit_optional(&mut state, OptionalEdit::MaxTokens(0));
    assert_eq!(form.effective_draft().api.max_tokens, Some(1));
    form.edit_optional(&mut state, OptionalEdit::ReasoningOn(true));
    form.edit_optional(&mut state, OptionalEdit::Reasoning("  high ".to_string()));
    assert_eq!(form.effective_draft().api.reasoning_effort.as_deref(), Some("high"));
}

#[test]
fn every_issue_blocks_save_with_its_message() {
    let issue = |change: &dyn Fn(&mut SettingsForm)| {
        let (mut form, mut state) = fresh();
        change(&mut form);
        let before = state.config.clone();
        assert!(form.save(&mut state).is_none());
        assert!(state.config.same_settings(&before));
        form.form_error.unwrap()
    };
    assert_eq!(issue(&|f| f.draft.api.model = " ".to_string()), "Model name is required.");
    assert_eq!(issue(&|f| f.draft.api.base_url = "".to_string()), "Base URL is required.");
    assert_eq!(
        issue(&|f| {
            f.optional.reasoning_on = true;
            f.optional.reasoning = " ".to_string();
        }),
        "Reasoning effort is on but empty."
    );
    assert_eq!(
        issue(&|f| f.text_argb = "#12".to_string()),
        "Text color must be #AARRGGBB hex (e.g. #FFFFFFFF)."
    );
    assert_eq!(
        issue(&|f| f.background_argb = "red".to_string()),
        "Background color must be #AARRGGBB hex (e.g. #C8000000)."
    );
}

#[test]
fn save_applies_the_form() {
    let (mut form, mut state) = fresh();
    state.last_error = Some("old".to_string());
    form.edit_text_color(&mut state, "#80112233".to_string());
    form.edit_system_prompt(&mut state, "  be brief \n");
    let applied = form.save(&mut state).unwrap();
    assert_eq!(applied.overlay.text_color_argb, 0x8011_2233);
    assert_eq!(applied.translation.system_prompt.as_deref(), Some("be brief"));
    assert!(state.config.same_settings(&applied));
    assert!(state.last_error.is_none());
    assert!(!form.draft_differs_from(&state.config));
}

#[test]
fn discard_and_reload_ask_while_there_are_edits() {
    let (mut form, mut state) = fresh();
    let live = state.config.clone();
    assert!(form.ask_reload(&live));
    form.edit_api(&mut state, ApiEdit::Model("other".to_string()));
    assert!(!form.ask_reload(&live));
    assert_eq!(form.confirm, ConfirmAction::Reload);
    assert!(form.close_confirm(&live, true));
    assert_eq!(form.confirm, ConfirmAction::Nothing);
    form.ask_discard(&live);
    assert_eq!(form.confirm, ConfirmAction::Discard);
    assert_eq!(form.draft.api.model, "other");
    assert!(!form.close_confirm(&live, true));
    assert!(!form.draft_differs_from(&live));
    assert_eq!(confirm_dialog(ConfirmAction::Discard).title, "Discard changes?");
    assert!(!confirm_dialog(ConfirmAction::Nothing).open);
    assert!(form.finish_reload(&mut state, Err("no file".to_string())).is_none());
    assert_eq!(state.last_error.as_deref(), Some("Could not reload config: no file"));
}

#[test]
fn display_switches_apply_at_once_and_only_when_changed() {
    let (mut form, _) = fresh();
    assert_eq!(form.switch_overlay(true), None);
    assert_eq!(form.switch_overlay(false), Some(DisplaySwitch { enabled: false, reader_enabled: true }));
    assert_eq!(form.switch_reader(false), Some(DisplaySwitch { enabled: false, reader_enabled: false }));
}

#[test]
fn pickers_exclude_each_other() {
    let (mut form, _) = fresh();
    form.toggle_text_picker();
    form.toggle_background_picker();
    assert!(!form.text_picker_open && form.background_picker_open);
    form.toggle_background_picker();
    assert!(!form.background_picker_open);
    form.toggle_key();
    assert_eq!(reveal_button(form.key_revealed).1, "Hide key");
}

fn keys(items: &[Item]) -> Vec<&'static str> {
    items
        .iter()
        .filter_map(|i| match i {
            Item::Card(c) => Some(c.key),
            Item::OptionalText(p) => Some(p.key),
            Item::Color(p) => Some(p.key),
            _ => None,
        })
        .collect()
}

#[test]
fn api_page_follows_the_provider() {
    let (mut form, _) = fresh();
    let http = keys(&api_page(&form));
    assert_eq!(http[..4], ["api-provider", "api-http-api", "api-base-url", "api-key"]);
    assert!(!http.contains(&"api-priority-mode"));
    form.draft.api.provider = ModelProvider::CodexCli;
    let codex = keys(&api_page(&form));
    assert_eq!(codex[..4], ["api-provider", "api-cli-path", "api-priority-mode", "api-model"]);
    form.draft.api.provider = ModelProvider::GrokCli;
    assert_eq!(keys(&api_page(&form))[..3], ["api-provider", "api-cli-path", "api-model"]);
}

#[test]
fn cards_show_the_draft() {
    let (mut form, _) = fresh();
    form.draft.api.request_timeout_secs = 90;
    let page = api_page(&form);
    let timeout = page.iter().find_map(|i| match i {
        Item::Card(c) if c.key == "api-timeout" => Some(c),
        _ => None,
    });
    match &timeout.unwrap().control {
        Control::Number { value, range } => assert_eq!((*value, range.max), (90, 600_000_000)),
        other => panic!("{other:?}"),
    }
    assert_eq!(keys(&ocr_page(&form)).len(), 20);
    assert_eq!(keys(&overlay_page(&form)), ["ov-enabled", "ov-reader", "ov-text-color", "ov-bg-color", "ov-reader-font"]);
    let translation = translation_page(&form, 3);
    let clear = translation.iter().find_map(|i| match i {
        Item::Card(c) if c.key == "tr-cache-clear" => Some(c),
        _ => None,
    });
    assert_eq!(clear.unwrap().description, "3 of 128 phrases cached this session. Closing the app also clears it.");
}

#[test]
fn colours_are_shown_as_picked() {
    let picked = Channels { alpha: 1, red: 2, green: 0xAB, blue: 255 };
    let row = ColorPopupParams {
        key: "k",
        header: "h".to_string(),
        hex: picked_notation(picked),
        open: true,
        placeholder: "p".to_string(),
    };
    assert_eq!(row.hex, "#0102ABFF");
    assert_eq!(row.channels(), picked);
    assert_eq!(row.swatch_tip(), "Close color picker");
    assert_eq!(argb_channels(0xFF00_0000), Channels { alpha: 255, red: 0, green: 0, blue: 0 });
    let nameless = ColorPopupParams { hex: "?".to_string(), open: false, ..row };
    assert_eq!(nameless.channels(), argb_channels(0xFF00_0000));
}

#[test]
fn model_list_is_asked_for_once_per_provider() {
    let mut catalog = ModelCatalog::new();
    let mut api = ApiConfig::default();
    assert!(matches!(
        catalog.schedule_model_list_if_needed(&api),
        Some(AppMsg::FetchModelList { debounce: true })
    ));
    assert!(catalog.loading && catalog.generation == 1);
    assert!(catalog.schedule_model_list_if_needed(&api).is_none());
    assert!(matches!(catalog.request_model_list(&api), AppMsg::FetchModelList { debounce: false }));
    assert_eq!(catalog.generation, 2);
    api.provider = ModelProvider::GrokCli;
    assert!(catalog.schedule_model_list_if_needed(&api).is_some());
    let row = ModelSuggestParams {
        key: "api-model",
        header: "Model".to_string(),
        description: "d".to_string(),
        value: "v".to_string(),
        placeholder: "p".to_string(),
        suggestions: Vec::new(),
        loading: true,
    };
    assert!(!row.refresh_button().enabled);
    assert_eq!(row.refresh_button().tip, "Loading model list");
}

#[test]
fn root_follows_its_messages() {
    let mut root = AppRoot::new();
    assert_eq!(root.page(), PageKind::Dashboard);
    assert_eq!(root.update(AppMsg::SelectPage("ocr".to_string())), RootStep::Nothing);
    assert_eq!(root.page(), PageKind::Ocr);
    root.update(AppMsg::SelectPage(String::new()));
    assert_eq!(root.page(), PageKind::Ocr);
    assert_eq!(root.page().settings_title(), Some("OCR"));
    root.update(AppMsg::TogglePane);
    assert!(!root.is_pane_open);
    assert_eq!(root.update(AppMsg::PipelineWake), RootStep::ArmPipelinePing);
    let items = root.nav_items();
    assert_eq!(items.iter().filter(|i| i.selected).map(|i| i.tag).collect::<Vec<_>>(), vec!["ocr"]);
}

#[test]
fn long_titles_are_cut() {
    assert_eq!(truncate(" a  b\nc ", 10), "a b c");
    assert_eq!(truncate("abcdef", 4), "abc…");
    assert_eq!(truncate("abcdef", 6), "abcdef");
    assert_eq!(truncate("abc", 0), "…");
}

fn window(title: &str, hwnd: isize) -> WindowInfo {
    WindowInfo { title: title.to_string(), hwnd }
}

#[test]
fn chrome_tells_errors_from_status() {
    let (form, mut state) = fresh();
    let windows = vec![window("Game", 11)];
    let calm = take_chrome(&state, &form, &windows, Some(0));
    assert_eq!(status_infobar(&calm).severity, Severity::Informational);
    assert_eq!(status_infobar(&calm).message, "(none)");
    assert_eq!(app_status_strip(&calm), format!("{}  ·  (none)", state.status.label()));
    let start = capture_start_stop_button(&calm, false);
    assert_eq!((start.label, start.enabled, start.key, start.emphasis), ("Start", true, "btn-start-compact", Emphasis::Subtle));
    state.status = PipelineStatus::RetryingTranslate { attempt: 2, max_retries: 5, message: "m".to_string() };
    state.last_error = Some("rate limit".to_string());
    state.auto_running = true;
    let bar = status_infobar(&take_chrome(&state, &form, &windows, None));
    assert_eq!((bar.title.as_str(), bar.message.as_str(), bar.severity), ("rate limit", "Retrying 2 of 5", Severity::Warning));
    state.set_error("broken".to_string());
    let bar = status_infobar(&take_chrome(&state, &form, &windows, None));
    assert_eq!((bar.title.as_str(), bar.message.as_str(), bar.severity), ("broken", "", Severity::Error));
    assert!(matches!(start_stop_command(true, &windows, None), Some(PipelineCommand::StopCapture)));
    assert!(matches!(
        start_stop_command(false, &windows, Some(0)),
        Some(PipelineCommand::StartCapture { hwnd: 11, .. })
    ));
    assert!(start_stop_command(false, &windows, Some(1)).is_none());
}

#[test]
fn settings_bar_explains_itself() {
    let (mut form, mut state) = fresh();
    let bar = settings_actions(&take_chrome(&state, &form, &vec![], None));
    assert_eq!(bar.save_tip, "Save to config.toml and apply now");
    assert!(!bar.save_accented);
    form.edit_api(&mut state, ApiEdit::Model("x".to_string()));
    let bar = settings_actions(&take_chrome(&state, &form, &vec![], None));
    assert_eq!(bar.save_tip, "Unsaved changes — click to save and apply");
    form.form_error = Some("bad".to_string());
    let bar = settings_actions(&take_chrome(&state, &form, &vec![], None));
    assert_eq!(bar.save_tip, "Cannot save: bad");
    assert!(matches!(bar.hint, StatusHint::Critical(t) if t == "bad"));
}

fn rect() -> Rect {
    Rect::new(scalar(0.0), scalar(0.0), scalar(10.0), scalar(10.0))
}

#[test]
fn results_hide_the_page_that_is_live() {
    let (_, mut state) = fresh();
    state.latest_ocr_blocks =
        vec![OcrBlock { id: 0, text: "a".to_string(), confidence: scalar(1.0), bbox: rect(), source_lines: 1 }];
    state.latest_translated_blocks = vec![TranslatedBlock {
        id: 0,
        source: "a".to_string(),
        translation: "A".to_string(),
        confidence: scalar(1.0),
        bbox: rect(),
        source_lines: 1,
    }];
    state.push_history("old".to_string(), "OLD".to_string());
    state.push_history("a".to_string(), "A".to_string());
    let windows = vec![window("  Some \n title ", 5)];
    let snap = take_dash(&state, &windows, Some(0));
    assert_eq!(snap.window_labels, vec!["Some title"]);
    let texts = |covered: bool| {
        snap.result_rows(covered).iter().map(|r| (r.source.clone(), r.live)).collect::<Vec<_>>()
    };
    assert_eq!(texts(true), vec![("a".to_string(), true), ("old".to_string(), false)]);
    assert_eq!(texts(false).len(), 3);
    assert_eq!(ocr_summary(Some(12), 3), "12 ms · 3 blocks");
    assert_eq!(ocr_summary(None, 0), "— · 0 blocks");
    assert_eq!(snap.retry_button(), (false, "Start capture first"));
    assert_eq!(snap.cancel_button(), (false, "No translation in progress"));
    let row = build_window_row(&take_dash(&state, &vec![], None));
    assert_eq!(row.items, vec!["(no windows — refresh)"]);
    assert!(!row.picker_enabled);
}

#[test]
fn another_window_drops_the_regions() {
    let (_, mut state) = fresh();
    let mut picker = WindowPicker::new(vec![window("a", 1), window("b", 2)]);
    assert!(picker.select(Some(0), &state).is_none());
    state.ocr_regions.push(NormRect::new(scalar(0.0), scalar(0.0), scalar(0.5), scalar(0.5)));
    assert!(picker.select(Some(0), &state).is_none());
    assert!(matches!(
        picker.select(Some(1), &state),
        Some(PipelineCommand::SetCaptureRegions { regions }) if regions.is_empty()
    ));
    assert!(picker.select(Some(9), &state).is_none());
    assert_eq!(picker.selected, Some(1));
    picker.refresh(vec![window("a", 1)]);
    assert_eq!(picker.selected, None);
}

#[test]
fn regions_pane_follows_the_picker() {
    let (_, mut state) = fresh();
    let windows = vec![window("a", 1)];
    let pane = build_regions_pane(&take_dash(&state, &windows, None), 0, None);
    assert_eq!((pane.label.as_str(), pane.select_enabled, pane.save_tip), ("Whole window", false, "Select OCR regions first"));
    let snap = take_dash(&state, &windows, Some(0));
    assert!(matches!(select_command(&snap), Some(PipelineCommand::BeginRegionSelect { hwnd: 1 })));
    state.ocr_regions.push(NormRect::new(scalar(0.0), scalar(0.0), scalar(0.5), scalar(0.5)));
    let snap = take_dash(&state, &windows, Some(0));
    assert_eq!(build_regions_pane(&snap, 2, Some(1)).label, "1 selected");
    assert!(matches!(clear_command(&snap), PipelineCommand::SetCaptureRegions { .. }));
    state.region_select_active = true;
    let snap = take_dash(&state, &windows, Some(0));
    let pane = build_regions_pane(&snap, 2, Some(1));
    assert_eq!((pane.label.as_str(), pane.select_label), ("Selecting…", "Done"));
    assert!(matches!(select_command(&snap), Some(PipelineCommand::ConfirmRegionSelect)));
    assert!(matches!(clear_command(&snap), PipelineCommand::ClearRegionSelect));
}

#[test]
fn preset_is_saved_picked_loaded_and_deleted() {
    let (_, mut state) = fresh();
    let region = NormRect::new(scalar(0.0), scalar(0.0), scalar(0.5), scalar(0.5));
    let mut pane = PresetPane::new(RegionPresetFile::empty());
    pane.begin_save(&mut state, &vec![None]);
    assert_eq!(state.last_error.as_deref(), Some("Nothing to save: select at least one OCR region."));
    pane.begin_save(&mut state, &vec![Some(region)]);
    assert!(matches!(pane.dialog, PresetDialog::SaveName));
    assert!(matches!(pane.confirm_name(&mut state), PaneStep::Nothing));
    assert_eq!(state.last_error.as_deref(), Some("Preset name is required."));
    pane.edit_name(" HUD ".to_string());
    let name = match pane.confirm_name(&mut state) {
        PaneStep::Commit(name) => name,
        other => panic!("{other:?}"),
    };
    assert!(pane.commit_pending_preset(&mut state, &name, &vec![None]).is_none());
    assert_eq!(state.last_error.as_deref(), Some("A preset needs at least one OCR region."));
    let name = pane.commit_pending_preset(&mut state, &name, &vec![Some(region)]).unwrap();
    pane.finish_commit(&mut state, name, Ok(()));
    assert_eq!(pane.selected, Some(0));
    assert_eq!(pane.load(), Some(vec![region]));
    pane.edit_name("HUD".to_string());
    assert!(matches!(pane.confirm_name(&mut state), PaneStep::Nothing));
    assert_eq!(pane.dialog_text().title, "Overwrite preset?");
    assert_eq!(pane.dialog_text().body, "Replace the regions saved in \"HUD\"?");
    assert!(matches!(pane.close_dialog(false), PaneStep::Nothing));
    assert!(matches!(pane.dialog, PresetDialog::SaveName));
    pane.cancel_name();
    pane.begin_delete();
    assert_eq!(pane.dialog_text().body, "Delete preset \"HUD\"? This cannot be undone.");
    assert!(matches!(pane.close_dialog(true), PaneStep::Save));
    assert!(pane.file.presets.is_empty() && pane.selected.is_none());
    pane.finish_delete(&mut state, Err("disk".to_string()));
    assert_eq!(state.last_error.as_deref(), Some("Could not save region presets: disk"));
}

#[test]
fn profile_is_stored_picked_loaded_and_deleted() {
    let (mut form, mut state) = fresh();
    let mut pane = ProfilePane::new(vec![ApiProfile { name: "Old".to_string(), api: ApiConfig::default() }]);
    pane.load_api_profile(&mut form, &mut state);
    assert_eq!(state.last_error.as_deref(), Some("Select a profile to load."));
    pane.begin_save(&form);
    assert_eq!(pane.name_draft, "OpenAI-compatible");
    form.edit_api(&mut state, ApiEdit::Model("m1".to_string()));
    assert!(!pane.commit_api_profile(&form, &mut state, "  "));
    assert_eq!(state.last_error.as_deref(), Some("Profile name is required."));
    assert!(pane.commit_api_profile(&form, &mut state, " Mine "));
    assert_eq!((pane.selected, pane.profiles[1].name.as_str()), (Some(1), "Mine"));
    let file = pane.file_to_save();
    pane.finish_save(&mut state, Ok(file));
    form.edit_api(&mut state, ApiEdit::Model("m2".to_string()));
    pane.load_api_profile(&mut form, &mut state);
    assert_eq!(form.draft.api.model, "m1");
    pane.edit_name("Mine".to_string());
    assert!(matches!(pane.confirm_name(&mut state), PaneStep::Nothing));
    assert_eq!(pane.dialog_text().body, "Replace the API settings saved in \"Mine\"?");
    assert!(matches!(pane.close_dialog(true), PaneStep::Commit(n) if n == "Mine"));
    pane.select(Some(0));
    pane.begin_delete();
    assert!(matches!(pane.close_dialog(true), PaneStep::Save));
    assert_eq!(pane.profiles.len(), 1);
    pane.finish_save(&mut state, Err("disk".to_string()));
    assert_eq!(state.last_error.as_deref(), Some("Could not save API profiles: disk"));
}
