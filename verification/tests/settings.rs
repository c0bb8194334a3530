//! Configuration, profiles, presets, models and paths.

use std::path::Path;

use translator::api_profiles::{ApiProfile, ApiProfileFile};
use translator::cli::{cli_lookup_name, path_candidates, resolve_cli_binary, CliProbe, PathCandidate};
use translator::config::{
    format_argb_hex, parse_argb_hex, ApiConfig, AppConfig, HttpApi, LineMergeConfig, ModelProvider, OverlayConfig,
    ServiceTier, TranslationConfig, READER_FONT_PX_DEFAULT, READER_FONT_PX_MAX, READER_FONT_PX_MIN,
    TRANSLATION_CACHE_MAX_CAP, TRANSLATION_CACHE_MAX_DEFAULT, TRANSLATION_CACHE_MAX_MIN,
};
use translator::download::{
    check_complete, check_content_length, check_loadable, check_written, part_name_for, plan_file, DownloadMeter,
    DownloadProgress, FilePlan, OcrError, ProgressPublisher,
};
use translator::lenient::{from_toml_lenient, insert_by_path, remove_by_path, ConfigError, Entry, Node};
use translator::models::{artifacts_for_tier, missing_artifacts, registry_names, FileSizes, ModelPaths, RELEASE_BASE};
use translator::paths::{config_path, exe_dir, resolve_path, resolve_under_exe, PathError};
use translator::region_presets::{sanitize_regions, validate_preset, RegionPresetFile, RegionPresetsError};
use translator::region_profiles::{validate_profile, RegionProfileFile};
use translator::scalar::Scalar;
use translator::state::{AppState, PipelineStatus};
use translator::types::{ModelTier, NormRect};

fn scalar(v: f32) -> Scalar {
    Scalar::from_bits(v.to_bits())
}

fn number(v: Scalar) -> f32 {
    f32::from_bits(v.to_bits())
}

fn norm(x: f32, y: f32, w: f32, h: f32) -> NormRect {
    NormRect::new(scalar(x), scalar(y), scalar(w), scalar(h))
}

/// A region flipped and clamped, or nothing where it is unusable.
fn sanitize(r: NormRect) -> Option<NormRect> {
    let (mut x, mut y, mut w, mut h) = (number(r.x), number(r.y), number(r.width), number(r.height));
    if ![x, y, w, h].iter().all(|v| v.is_finite()) {
        return None;
    }
    if w < 0.0 {
        x += w;
        w = -w;
    }
    if h < 0.0 {
        y += h;
        h = -h;
    }
    let (x0, y0) = (x.clamp(0.0, 1.0), y.clamp(0.0, 1.0));
    let (x1, y1) = ((x + w).clamp(0.0, 1.0), (y + h).clamp(0.0, 1.0));
    let (w, h) = (x1 - x0, y1 - y0);
    if w < 0.004 || h < 0.004 {
        return None;
    }
    Some(norm(x0, y0, w, h))
}

fn cleaned(regions: &[NormRect]) -> Vec<Option<NormRect>> {
    regions.iter().map(|r| sanitize(*r)).collect()
}

#[test]
fn parse_argb_hex_hash_argb() {
    assert_eq!(parse_argb_hex("#AABBCCDD"), Some(0xAABB_CCDD));
    assert_eq!(parse_argb_hex("#aabbccdd"), Some(0xAABB_CCDD));
    assert_eq!(parse_argb_hex("  #C8000000  "), Some(0xC800_0000));
    assert_eq!(parse_argb_hex("0xC8000000"), None);
    assert_eq!(parse_argb_hex("#AABBCC"), None);
    assert_eq!(parse_argb_hex("FFFFFFFF"), None);
    assert_eq!(parse_argb_hex("#FFFF"), None);
    assert_eq!(parse_argb_hex("#"), None);
}

#[test]
fn colours_survive_being_written() {
    for argb in [0u32, 1, 0xC800_0000, 0xFFFF_FFFF, 0x0123_4567, 0x89AB_CDEF] {
        assert_eq!(parse_argb_hex(&format_argb_hex(argb)), Some(argb));
    }
    assert_eq!(format_argb_hex(0xC80A_0000), "#C80A0000");
    assert_eq!(parse_argb_hex("#+1234567"), None);
    assert_eq!(parse_argb_hex("#1234567g"), None);
}

#[test]
fn overlay_display_defaults_on() {
    let overlay = OverlayConfig::default();
    assert!(overlay.enabled);
    assert!(overlay.reader_enabled);
    assert_eq!(overlay.reader_font_px, READER_FONT_PX_DEFAULT);
    assert_eq!(overlay.reader_font_px_clamped(), READER_FONT_PX_DEFAULT as i32);
}

#[test]
fn overlay_reader_font_clamps() {
    let mut overlay = OverlayConfig { reader_font_px: 0, ..OverlayConfig::default() };
    assert_eq!(overlay.reader_font_px_clamped(), READER_FONT_PX_MIN as i32);
    overlay.reader_font_px = 200;
    assert_eq!(overlay.reader_font_px_clamped(), READER_FONT_PX_MAX as i32);
}

#[test]
fn translation_cache_defaults_and_clamp() {
    let config = AppConfig::default();
    assert!(config.translation.cache_enabled);
    assert_eq!(config.translation.cache_max_entries, TRANSLATION_CACHE_MAX_DEFAULT);
    assert_eq!(config.translation.cache_max_entries_clamped(), TRANSLATION_CACHE_MAX_DEFAULT);

    let mut cfg = TranslationConfig { cache_max_entries: 0, ..TranslationConfig::default() };
    assert_eq!(cfg.cache_max_entries_clamped(), TRANSLATION_CACHE_MAX_MIN);
    cfg.cache_max_entries = 1_000_000;
    assert_eq!(cfg.cache_max_entries_clamped(), TRANSLATION_CACHE_MAX_CAP);
}

#[test]
fn defaults_of_a_new_config() {
    let config = AppConfig::default();
    assert_eq!(config.translation.target_lang, "zh-TW");
    assert_eq!(config.ocr.model_tier, ModelTier::Small);
    assert_eq!(config.api.provider, ModelProvider::OpenaiCompatible);
    assert_eq!(config.api.http_api, HttpApi::ChatCompletions);
    assert!(config.api.cli_path.is_empty());
    assert!(!config.api.provider.is_cli());
    assert!(config.api.structured_outputs && config.api.stream && config.api.send_reasoning_content);
    assert!((number(config.ocr.line_merge.gap_ratio) - 0.015).abs() < 1e-6);
    assert!(config.same_settings(&AppConfig::default()));
}

#[test]
fn resolve_cli_missing_path_is_none() {
    let nothing = |components: usize| CliProbe { is_file: false, components, search: Vec::new() };
    assert!(resolve_cli_binary(ModelProvider::OpenaiCompatible, "", &nothing(0)).is_none());
    assert!(resolve_cli_binary(ModelProvider::GrokCli, r"C:\definitely-missing\grok.exe", &nothing(1)).is_none());
    assert!(resolve_cli_binary(ModelProvider::CodexCli, r"Z:\no-such-codex.exe", &nothing(1)).is_none());
    assert!(resolve_cli_binary(ModelProvider::OpenCodeCli, r"Z:\no-such-opencode.exe", &nothing(1)).is_none());
}

#[test]
fn cli_is_found_on_the_search_path() {
    assert_eq!(cli_lookup_name(ModelProvider::GrokCli, "  "), "grok");
    assert_eq!(cli_lookup_name(ModelProvider::GrokCli, " my-grok "), "my-grok");
    let dirs = vec!["/a".to_string(), "/b".to_string()];
    assert_eq!(path_candidates(&dirs, "grok", false), vec!["/a/grok", "/b/grok"]);
    assert_eq!(path_candidates(&dirs, "grok", true).len(), 8);
    let probe = CliProbe {
        is_file: false,
        components: 0,
        search: vec![
            PathCandidate { path: "/a/grok".to_string(), is_file: false },
            PathCandidate { path: "/b/grok".to_string(), is_file: true },
        ],
    };
    assert_eq!(resolve_cli_binary(ModelProvider::GrokCli, "", &probe), Some("/b/grok".to_string()));
}

/// The value at a dotted path.
fn at<'a>(table: &'a Vec<Entry>, path: &str) -> Option<&'a Node> {
    let mut here = table;
    let mut found = None;
    for part in path.split('.') {
        let entry = here.iter().find(|e| e.key == part)?;
        found = Some(&entry.value);
        if let Node::Table(inner) = &entry.value {
            here = inner;
        }
    }
    found
}

fn leaf<'a>(table: &'a Vec<Entry>, path: &str) -> Option<&'a str> {
    match at(table, path) {
        Some(Node::Leaf(text)) => Some(text.as_str()),
        _ => None,
    }
}

/// A schema for the fields the cases below use: a value that is there must have the right form.
fn fits(table: &Vec<Entry>) -> bool {
    let is_bool = |p: &str| leaf(table, p).map_or(at(table, p).is_none(), |v| v == "true" || v == "false");
    let is_number = |p: &str| leaf(table, p).map_or(at(table, p).is_none(), |v| v.parse::<f64>().is_ok());
    let one_of = |p: &str, all: &[&str]| leaf(table, p).map_or(at(table, p).is_none(), |v| all.contains(&v));
    let colour = |p: &str| {
        leaf(table, p).map_or(at(table, p).is_none(), |v| parse_argb_hex(v.trim_matches('"')).is_some())
    };
    one_of("api.provider", &["\"openai_compatible\"", "\"grok_cli\"", "\"opencode_cli\"", "\"codex_cli\""])
        && is_bool("overlay.enabled")
        && colour("overlay.text_color_argb")
        && colour("overlay.background_color_argb")
        && is_number("translation.history_max_items")
        && is_bool("ocr.line_merge.enabled")
        && is_number("ocr.line_merge.gap_ratio")
        && is_bool("ocr.line_merge.join_with_space")
}

#[test]
fn invalid_fields_are_dropped_not_whole_config() {
    let text = r##"
[api]
model = "keep-me"
provider = "not_a_real_provider"

[overlay]
enabled = false
text_color_argb = "FFFFFFFF"
background_color_argb = "#C8000000"

[translation]
target_lang = "ja"
history_max_items = "nope"
"##;
    let table = from_toml_lenient(text, &fits).unwrap();
    assert_eq!(leaf(&table, "api.model"), Some("\"keep-me\""));
    assert!(at(&table, "api.provider").is_none());
    assert_eq!(leaf(&table, "overlay.enabled"), Some("false"));
    assert!(at(&table, "overlay.text_color_argb").is_none());
    assert_eq!(leaf(&table, "overlay.background_color_argb"), Some("\"#C8000000\""));
    assert_eq!(leaf(&table, "translation.target_lang"), Some("\"ja\""));
    assert!(at(&table, "translation.history_max_items").is_none());
}

#[test]
fn nested_invalid_field_keeps_siblings() {
    let text = r#"
[ocr.line_merge]
enabled = false
gap_ratio = "bad"
join_with_space = false
"#;
    let table = from_toml_lenient(text, &fits).unwrap();
    assert_eq!(leaf(&table, "ocr.line_merge.enabled"), Some("false"));
    assert_eq!(leaf(&table, "ocr.line_merge.join_with_space"), Some("false"));
    assert!(at(&table, "ocr.line_merge.gap_ratio").is_none());
}

#[test]
fn syntax_error_still_fails_lenient_parse() {
    let refused = from_toml_lenient("[[[not valid", &fits);
    match refused {
        Err(ConfigError::Parse(text)) => {
            assert!(!text.is_empty());
            assert!(ConfigError::Parse(text).message().starts_with("failed to parse config TOML: "));
        }
        other => panic!("{other:?}"),
    }
}

#[test]
fn valid_document_is_kept_whole() {
    let table = from_toml_lenient("a = 1\n[b]\nc = \"x\"\n[b.d]\ne = [1, 2]\n", &fits).unwrap();
    assert_eq!(leaf(&table, "a"), Some("1"));
    assert_eq!(leaf(&table, "b.c"), Some("\"x\""));
    assert_eq!(leaf(&table, "b.d.e"), Some("[1, 2]"));
}

fn sample_http() -> ApiConfig {
    ApiConfig {
        provider: ModelProvider::OpenaiCompatible,
        http_api: HttpApi::Responses,
        base_url: "https://api.openai.com/v1".into(),
        api_key: "sk-test".into(),
        model: "gpt-4o-mini".into(),
        temperature: Some(scalar(0.4)),
        max_tokens: Some(1024),
        ..ApiConfig::default()
    }
}

fn sample_cli() -> ApiConfig {
    ApiConfig {
        provider: ModelProvider::GrokCli,
        cli_path: r"C:\tools\grok.exe".into(),
        model: "grok-4.5".into(),
        service_tier: ServiceTier::Standard,
        reasoning_effort: Some("high".into()),
        ..ApiConfig::default()
    }
}

#[test]
fn sanitize_drops_empty_names() {
    let mut file = ApiProfileFile {
        profiles: vec![
            ApiProfile { name: "  ".into(), api: sample_http() },
            ApiProfile { name: "  keep  ".into(), api: sample_cli() },
        ],
    };
    file.sanitize_in_place();
    assert_eq!(file.profiles.len(), 1);
    assert_eq!(file.profiles[0].name, "keep");
}

#[test]
fn profiles_keep_only_what_their_provider_uses() {
    let mut http = sample_http();
    http.cli_path = r"C:\tools\leftover.exe".into();
    http.service_tier = ServiceTier::Priority;
    let mut cli = sample_cli();
    cli.base_url = "https://old.example/v1".into();
    cli.api_key = "sk-old".into();
    let mut file = ApiProfileFile {
        profiles: vec![ApiProfile { name: "h".into(), api: http }, ApiProfile { name: "c".into(), api: cli }],
    };
    file.sanitize_in_place();
    assert!(file.profiles[0].api.same_settings(&sample_http()));
    assert!(file.profiles[1].api.base_url.is_empty());
    assert!(file.profiles[1].api.api_key.is_empty());
    assert_eq!(file.profiles[1].api.model, "grok-4.5");
    assert_eq!(file.profiles[1].api.cli_path, r"C:\tools\grok.exe");
}

fn sample_regions() -> Vec<NormRect> {
    vec![norm(0.02, 0.80, 0.40, 0.18), norm(0.70, 0.05, 0.28, 0.12)]
}

#[test]
fn region_presets_case_sensitive_upsert() {
    let mut file = RegionPresetFile::empty();
    file.upsert("HUD".into(), sample_regions());
    file.upsert("hud".into(), vec![norm(0.1, 0.1, 0.2, 0.2)]);
    assert_eq!(file.presets.len(), 2);
    file.upsert("HUD".into(), vec![norm(0.5, 0.5, 0.2, 0.2)]);
    assert_eq!(file.presets.len(), 2);
    assert_eq!(file.presets[0].regions.len(), 1);
    assert!((number(file.presets[0].regions[0].x) - 0.5).abs() < f32::EPSILON);
}

#[test]
fn region_presets_sanitize_and_validate() {
    let bad = [norm(0.0, 0.0, 0.001, 0.5), norm(0.1, 0.2, 0.3, 0.4)];
    let kept = sanitize_regions(&cleaned(&bad));
    assert_eq!(kept.len(), 1);
    assert!(matches!(
        validate_preset("  ", &cleaned(&kept)),
        Err(RegionPresetsError::Invalid(t)) if t == "Preset name is required."
    ));
    assert!(matches!(
        validate_preset("ok", &vec![]),
        Err(RegionPresetsError::Invalid(t)) if t == "A preset needs at least one OCR region."
    ));
    let (name, regions) = validate_preset("  ok  ", &cleaned(&bad)).unwrap();
    assert_eq!(name, "ok");
    assert_eq!(regions.len(), 1);
}

#[test]
fn region_profiles_case_sensitive_upsert() {
    let mut file = RegionProfileFile::empty();
    file.upsert("HUD".into(), sample_regions());
    file.upsert("hud".into(), vec![norm(0.1, 0.1, 0.2, 0.2)]);
    assert_eq!(file.profiles.len(), 2);
    file.upsert("HUD".into(), vec![norm(0.5, 0.5, 0.2, 0.2)]);
    assert_eq!(file.profiles.len(), 2);
    assert_eq!(file.profiles[0].regions.len(), 1);
    assert!((number(file.profiles[0].regions[0].x) - 0.5).abs() < f32::EPSILON);
}

#[test]
fn region_profiles_sanitize_and_validate() {
    let bad = [norm(0.0, 0.0, 0.001, 0.5), norm(0.1, 0.2, 0.3, 0.4)];
    let kept = sanitize_regions(&cleaned(&bad));
    assert_eq!(kept.len(), 1);
    assert!(validate_profile("  ", &cleaned(&kept)).is_err());
    assert!(validate_profile("ok", &vec![]).is_err());
    let (name, regions) = validate_profile("  ok  ", &cleaned(&bad)).unwrap();
    assert_eq!(name, "ok");
    assert_eq!(regions.len(), 1);
}

#[test]
fn resolve_absolute_unchanged() {
    let abs = "/models";
    let resolved = resolve_under_exe(abs, Err(PathError::NoParent)).expect("resolve");
    assert_eq!(resolved, abs);
}

#[test]
fn sidecar_files_lie_beside_the_executable() {
    let dir = exe_dir(false, Some("/elsewhere".to_string()), Ok(Some("/opt/app".to_string()))).unwrap();
    assert_eq!(dir, "/opt/app");
    assert_eq!(exe_dir(true, Some("/elsewhere".to_string()), Ok(None)).unwrap(), "/elsewhere");
    assert_eq!(Path::new(&config_path(Ok(dir.clone())).unwrap()), Path::new("/opt/app/config.toml"));
    assert_eq!(Path::new(&resolve_under_exe("models", Ok(dir)).unwrap()), Path::new("/opt/app/models"));
    assert!(matches!(exe_dir(false, None, Ok(None)), Err(PathError::NoParent)));
    assert!(matches!(exe_dir(false, None, Err("gone".to_string())), Err(PathError::CurrentExe(m)) if m == "gone"));
}

#[test]
fn retrying_status_label_is_compact() {
    let status = PipelineStatus::RetryingTranslate {
        attempt: 1,
        max_retries: 2,
        message: "API returned status 429: {\"error\":\"rate\"}".into(),
    };
    assert_eq!(status.label(), "Retrying translation (1/2)");
    assert!(status.is_translating());
}

#[test]
fn translating_status() {
    assert!(PipelineStatus::Translating.is_translating());
    assert!(!PipelineStatus::Capturing.is_translating());
}

#[test]
fn download_label() {
    let downloading = PipelineStatus::DownloadingModels {
        file: "pp-ocrv6_small_det.onnx".into(),
        file_index: 1,
        file_count: 3,
        percent: 42,
    };
    assert_eq!(downloading.label(), "Downloading OCR models (1/3 · pp-ocrv6_small_det.onnx · 42%)");
}

#[test]
fn history_keeps_the_newest_rows() {
    let mut state = AppState::new(AppConfig::default());
    for i in 0..7 {
        state.push_history(format!("s{i}"), format!("t{i}"));
    }
    let rows: Vec<&str> = state.history.iter().map(|h| h.source_text.as_str()).collect();
    assert_eq!(rows, vec!["s6", "s5", "s4", "s3", "s2"]);
}

#[test]
fn percent_caps_at_100() {
    let p = DownloadProgress {
        file_name: "x".into(),
        file_index: 0,
        file_count: 1,
        bytes_downloaded: 50,
        bytes_total: 100,
    };
    assert_eq!(p.percent(), 50);
    let done = DownloadProgress { bytes_downloaded: 100, ..p };
    assert_eq!(done.percent(), 100);
    let over = DownloadProgress { bytes_downloaded: u64::MAX, ..done };
    assert_eq!(over.percent(), 100);
    assert_eq!(DownloadProgress { bytes_total: 0, ..over }.percent(), 0);
}

#[test]
fn part_path_is_hidden_sibling() {
    let name = part_name_for(Some("pp-ocrv6_small_det.onnx"), 4711);
    assert!(name.starts_with(".pp-ocrv6_small_det.onnx."));
    assert!(name.ends_with(".part"));
    assert_eq!(part_name_for(None, 1), ".model.1.part");
}

#[test]
fn small_has_three_artifacts() {
    assert_eq!(artifacts_for_tier(ModelTier::Small).len(), 3);
}

#[test]
fn paths_join_file_names() {
    let paths = ModelPaths::from_dir("models", ModelTier::Small);
    assert!(paths.det.ends_with("pp-ocrv6_small_det.onnx"));
    assert!(paths.rec.ends_with("pp-ocrv6_small_rec.onnx"));
    assert!(paths.dict.ends_with("ppocrv6_dict.txt"));
}

fn file_name(path: &str) -> Option<&str> {
    path.rsplit('/').next()
}

#[test]
fn medium_shares_dict_with_small() {
    let small = ModelPaths::from_dir("models", ModelTier::Small);
    let medium = ModelPaths::from_dir("models", ModelTier::Medium);
    assert_eq!(file_name(&small.dict), file_name(&medium.dict), "small/medium share ppocrv6_dict.txt");
    assert_eq!(
        artifacts_for_tier(ModelTier::Small)[2].expected_bytes,
        artifacts_for_tier(ModelTier::Medium)[2].expected_bytes
    );
}

#[test]
fn all_tiers_have_registry_names_and_sizes() {
    for tier in [ModelTier::Tiny, ModelTier::Small, ModelTier::Medium] {
        assert_eq!(artifacts_for_tier(tier).len(), 3, "{tier:?}");
        let (det, rec, dict) = registry_names(tier);
        assert!(det.ends_with(".onnx"), "{tier:?} det");
        assert!(rec.ends_with(".onnx"), "{tier:?} rec");
        assert!(dict.ends_with(".txt"), "{tier:?} dict");
        for a in artifacts_for_tier(tier) {
            assert!(a.expected_bytes > 0, "{tier:?} {}", a.file_name);
            assert!(a.download_url().starts_with(RELEASE_BASE));
        }
    }
}

#[test]
fn missing_file_is_not_present() {
    let paths = ModelPaths::from_dir("definitely-missing-models-dir", ModelTier::Tiny);
    let sizes = FileSizes { det: None, rec: None, dict: None };
    assert!(!paths.all_present(&sizes));
    assert_eq!(missing_artifacts(ModelTier::Tiny, &sizes).len(), 3);
}

#[test]
fn short_file_is_missing() {
    let all = artifacts_for_tier(ModelTier::Small);
    let full = FileSizes {
        det: Some(all[0].expected_bytes),
        rec: Some(all[1].expected_bytes),
        dict: Some(all[2].expected_bytes),
    };
    let paths = ModelPaths::from_dir("models", ModelTier::Small);
    assert!(paths.all_present(&full));
    let short = FileSizes { rec: Some(all[1].expected_bytes - 1), ..full };
    assert!(!paths.all_present(&short));
    assert_eq!(missing_artifacts(ModelTier::Small, &short)[0].file_name, all[1].file_name);
}

#[test]
fn download_is_held_to_the_expected_length() {
    let art = artifacts_for_tier(ModelTier::Tiny).remove(2);
    let expected = art.expected_bytes;
    assert!(check_content_length(&art, None).is_ok());
    assert!(check_content_length(&art, Some(expected)).is_ok());
    assert!(matches!(check_content_length(&art, Some(expected + 1)), Err(OcrError::Download(_))));
    let mut meter = DownloadMeter::new(art, 1, 3);
    assert!(meter.on_chunk(expected - 1).is_ok());
    assert!(matches!(meter.finish(), Err(OcrError::Download(_))));
    let last = meter.on_chunk(1).unwrap();
    assert_eq!(last.percent(), 100);
    assert!(meter.finish().is_ok());
    assert!(meter.on_chunk(1).is_err());
}

#[test]
fn progress_is_published_once_per_percent() {
    let at = |done: u64| DownloadProgress {
        file_name: "x".into(),
        file_index: 1,
        file_count: 1,
        bytes_downloaded: done,
        bytes_total: 1000,
    };
    let mut publisher = ProgressPublisher::new();
    assert!(publisher.on_progress(at(0)).is_some());
    assert!(publisher.on_progress(at(5)).is_none());
    assert!(publisher.on_progress(at(10)).is_some());
}

#[test]
fn merge_defaults_are_the_documented_ones() {
    let m = LineMergeConfig::default();
    assert!((number(m.order_band_ratio) - 0.012).abs() < 1e-6);
    assert!((number(m.below_mid_ratio) - 0.25).abs() < 1e-6);
    assert!((number(m.height_delta_ratio) - 0.45).abs() < 1e-6);
    assert!((number(m.width_delta_ratio) - 0.25).abs() < 1e-6);
    assert!(m.enabled && m.join_with_space && m.reject_short_long && !m.merge_whole_region);
}

#[test]
fn wrong_sized_file_is_fetched_again() {
    let art = artifacts_for_tier(ModelTier::Small)[0];
    assert_eq!(plan_file(&art, true, Some(art.expected_bytes)), FilePlan::Keep);
    assert_eq!(plan_file(&art, true, Some(art.expected_bytes - 1)), FilePlan::Replace);
    assert_eq!(plan_file(&art, true, None), FilePlan::Replace);
    assert_eq!(plan_file(&art, false, None), FilePlan::Fetch);
    assert!(check_written(&art, Some(art.expected_bytes)).is_ok());
    let refused = check_written(&art, Some(3)).unwrap_err();
    assert_eq!(refused.message(), "pp-ocrv6_small_det.onnx: size check failed after rename");
}

#[test]
fn models_load_only_when_complete() {
    let paths = ModelPaths::from_dir("models", ModelTier::Tiny);
    let arts = artifacts_for_tier(ModelTier::Tiny);
    let size = |i: usize| Some(arts[i].expected_bytes);
    let all = FileSizes { det: size(0), rec: size(1), dict: size(2) };
    assert!(check_complete(&paths, &all).is_ok());
    assert!(check_loadable(&paths, &all, "models").is_ok());
    let short = FileSizes { det: size(0), rec: Some(1), dict: size(2) };
    assert_eq!(check_complete(&paths, &short).unwrap_err().message(), "models still incomplete after download");
    assert_eq!(
        check_loadable(&paths, &short, "models").unwrap_err().message(),
        "OCR models missing or wrong size under models (run ensure_models first)"
    );
}

/// A path is joined to the folder of the executable as the host joins paths.
#[test]
fn relative_paths_are_joined_by_the_host() {
    for dir in ["/opt/app", "/opt/app/", "", "app", r"C:\app", "C:", r"\\host\share\app", r"\\?\C:\app"] {
        for name in ["models", "./models", "../models", r"\models", "/models", "D:models", "a/b", "."] {
            let expected = Path::new(dir).join(name).to_string_lossy().into_owned();
            assert_eq!(resolve_path(name, false, Ok(dir.to_string())).unwrap(), expected, "{dir} {name}");
            let either = if Path::new(name).is_absolute() { name.to_string() } else { expected };
            assert_eq!(resolve_under_exe(name, Ok(dir.to_string())).unwrap(), either, "{dir} {name}");
        }
    }
    assert_eq!(resolve_path("kept", true, Err(PathError::NoParent)).unwrap(), "kept");
    assert!(matches!(resolve_under_exe("models", Err(PathError::NoParent)), Err(PathError::NoParent)));
}

/// A key that holds a dot is a field of its own, not one of a table.
#[test]
fn dotted_key_does_not_touch_the_table_field() {
    let model_is_text = |table: &Vec<Entry>| {
        let flat = table.iter().find(|e| e.key == "api.model");
        flat.map_or(true, |e| matches!(&e.value, Node::Leaf(v) if v.starts_with('"')))
    };
    for text in ["\"api.model\" = 3\n[api]\nmodel = \"m\"\n", "\"api.model\" = 3\napi = { model = \"m\" }\n"] {
        let table = from_toml_lenient(text, &model_is_text).unwrap();
        assert_eq!(leaf(&table, "api.model"), Some("\"m\""));
        assert!(table.iter().all(|e| e.key != "api.model"));
    }
}

#[test]
fn rejected_value_leaves_no_trace() {
    let mut table = from_toml_lenient("a = 1\n[b]\nc = 2\n", &fits).unwrap();
    let path: Vec<String> = vec!["b".to_string(), "d.e".to_string()];
    insert_by_path(&mut table, &path, Node::Leaf("3".to_string()));
    match at(&table, "b") {
        Some(Node::Table(inner)) => assert_eq!(inner.iter().map(|e| e.key.as_str()).collect::<Vec<_>>(), ["c", "d.e"]),
        other => panic!("{other:?}"),
    }
    remove_by_path(&mut table, &path);
    assert_eq!(leaf(&table, "a"), Some("1"));
    match at(&table, "b") {
        Some(Node::Table(inner)) => assert_eq!(inner.iter().map(|e| e.key.as_str()).collect::<Vec<_>>(), ["c"]),
        other => panic!("{other:?}"),
    }
    insert_by_path(&mut table, &Vec::new(), Node::Leaf("9".to_string()));
    assert_eq!(table.len(), 2);
}
