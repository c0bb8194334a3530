//! Settings form: the editable draft of the config and what an edit does to it.

use crate::config::{
    argb_notation, argb_of, format_argb_hex, law_argb_round_trip, parse_argb_hex, ApiConfig,
    AppConfig, CaptureConfig, HttpApi, LineMergeConfig, LineMergeOrder, ModelProvider, OcrConfig,
    OverlayConfig, ServiceTier, TranslationConfig, READER_FONT_PX_MAX, READER_FONT_PX_MIN,
    TRANSLATION_CACHE_MAX_CAP, TRANSLATION_CACHE_MAX_MIN,
};
use crate::scalar::Scalar;
use crate::state::{app_view, optional_text, AppState, AppView};
use crate::text::{joined, owned, trim, trimmed};
use crate::types::ModelTier;
use vstd::prelude::*;

verus! {

/// One.
pub const ONE: u32 = 0x3F80_0000;

/// Two.
pub const TWO: u32 = 0x4000_0000;

/// Smallest row/column band (0.001).
pub const BAND_MIN: u32 = 0x3A83_126F;

/// 0.05.
pub const FIVE_PERCENT: u32 = 0x3D4C_CCCD;

/// 0.08.
pub const EIGHT_PERCENT: u32 = 0x3DA3_D70A;

/// 0.5.
pub const HALF: u32 = 0x3F00_0000;

/// 0.9.
pub const NINETY_PERCENT: u32 = 0x3F66_6666;

/// Temperature shown while none is set (0.7).
pub const TEMPERATURE_DEFAULT: u32 = 0x3F33_3333;

/// Top P shown while none is set (0.9).
pub const TOP_P_DEFAULT: u32 = 0x3F66_6666;

/// Reply length shown while none is set.
pub const MAX_TOKENS_DEFAULT: i64 = 2048;

/// Longest reply that can be asked for.
pub const MAX_TOKENS_CAP: i64 = 1_000_000;

/// The value with these bits.
pub open spec fn ratio(bits: u32) -> Scalar {
    Scalar { bits }
}

/// The number, or the bound below it.
pub open spec fn at_least(v: i64, lo: int) -> int {
    if v < lo {
        lo
    } else {
        v as int
    }
}

/// The number held between two bounds.
pub open spec fn held(v: i64, lo: int, hi: int) -> int {
    if v < lo {
        lo
    } else if v > hi {
        hi
    } else {
        v as int
    }
}

fn raised(v: i64, lo: u64) -> (r: u64)
    requires
        lo <= i64::MAX,
    ensures
        r == at_least(v, lo as int),
{
    if v < lo as i64 {
        lo
    } else {
        v as u64
    }
}

fn limited(v: i64, lo: u64, hi: u64) -> (r: u64)
    requires
        lo <= hi <= i64::MAX,
    ensures
        r == held(v, lo as int, hi as int),
{
    if v < lo as i64 {
        lo
    } else if v > hi as i64 {
        hi
    } else {
        v as u64
    }
}

fn counted(v: i64) -> (r: usize)
    ensures
        r == held(v, 1, usize::MAX as int),
{
    if v < 1 {
        1
    } else if v as u64 > usize::MAX as u64 {
        usize::MAX
    } else {
        v as usize
    }
}

/// The provider at a position of the provider choice.
pub open spec fn provider_choice(choice: usize) -> ModelProvider {
    match choice {
        1 => ModelProvider::GrokCli,
        2 => ModelProvider::OpenCodeCli,
        3 => ModelProvider::CodexCli,
        _ => ModelProvider::OpenaiCompatible,
    }
}

fn pick_provider(choice: usize) -> (r: ModelProvider)
    ensures
        r == provider_choice(choice),
{
    match choice {
        1 => ModelProvider::GrokCli,
        2 => ModelProvider::OpenCodeCli,
        3 => ModelProvider::CodexCli,
        _ => ModelProvider::OpenaiCompatible,
    }
}

/// Position of the provider in the provider choice.
pub open spec fn provider_position(provider: ModelProvider) -> usize {
    match provider {
        ModelProvider::OpenaiCompatible => 0,
        ModelProvider::GrokCli => 1,
        ModelProvider::OpenCodeCli => 2,
        ModelProvider::CodexCli => 3,
    }
}

/// Position of the provider in the provider choice.
pub fn provider_index(provider: ModelProvider) -> (r: usize)
    ensures
        r == provider_position(provider),
{
    match provider {
        ModelProvider::OpenaiCompatible => 0,
        ModelProvider::GrokCli => 1,
        ModelProvider::OpenCodeCli => 2,
        ModelProvider::CodexCli => 3,
    }
}

/// The endpoint style at a position of its choice.
pub open spec fn http_choice(choice: usize) -> HttpApi {
    if choice == 1 {
        HttpApi::Responses
    } else {
        HttpApi::ChatCompletions
    }
}

fn pick_http_api(choice: usize) -> (r: HttpApi)
    ensures
        r == http_choice(choice),
{
    if choice == 1 {
        HttpApi::Responses
    } else {
        HttpApi::ChatCompletions
    }
}

/// Position of the endpoint style in its choice.
pub open spec fn http_position(api: HttpApi) -> usize {
    match api {
        HttpApi::ChatCompletions => 0,
        HttpApi::Responses => 1,
    }
}

/// Position of the endpoint style in its choice.
pub fn http_index(api: HttpApi) -> (r: usize)
    ensures
        r == http_position(api),
{
    match api {
        HttpApi::ChatCompletions => 0,
        HttpApi::Responses => 1,
    }
}

/// The tier that priority mode stands for.
pub open spec fn tier_choice(on: bool) -> ServiceTier {
    if on {
        ServiceTier::Priority
    } else {
        ServiceTier::Standard
    }
}

fn pick_service_tier(on: bool) -> (r: ServiceTier)
    ensures
        r == tier_choice(on),
{
    if on {
        ServiceTier::Priority
    } else {
        ServiceTier::Standard
    }
}

/// The model size at a position of its choice.
pub open spec fn tier_of_choice(choice: usize) -> ModelTier {
    match choice {
        0 => ModelTier::Tiny,
        2 => ModelTier::Medium,
        _ => ModelTier::Small,
    }
}

fn pick_tier(choice: usize) -> (r: ModelTier)
    ensures
        r == tier_of_choice(choice),
{
    match choice {
        0 => ModelTier::Tiny,
        2 => ModelTier::Medium,
        _ => ModelTier::Small,
    }
}

/// Position of the model size in its choice.
pub open spec fn tier_position(tier: ModelTier) -> usize {
    match tier {
        ModelTier::Tiny => 0,
        ModelTier::Small => 1,
        ModelTier::Medium => 2,
    }
}

/// Position of the model size in its choice.
pub fn tier_index(tier: ModelTier) -> (r: usize)
    ensures
        r == tier_position(tier),
{
    match tier {
        ModelTier::Tiny => 0,
        ModelTier::Small => 1,
        ModelTier::Medium => 2,
    }
}

/// The reading order at a position of its choice.
pub open spec fn order_choice(choice: usize) -> LineMergeOrder {
    match choice {
        1 => LineMergeOrder::LeftToRightTopToBottom,
        _ => LineMergeOrder::TopToBottomLeftToRight,
    }
}

fn pick_order(choice: usize) -> (r: LineMergeOrder)
    ensures
        r == order_choice(choice),
{
    match choice {
        1 => LineMergeOrder::LeftToRightTopToBottom,
        _ => LineMergeOrder::TopToBottomLeftToRight,
    }
}

/// Position of the reading order in its choice.
pub open spec fn order_position(order: LineMergeOrder) -> usize {
    match order {
        LineMergeOrder::TopToBottomLeftToRight => 0,
        LineMergeOrder::LeftToRightTopToBottom => 1,
    }
}

/// Position of the reading order in its choice.
pub fn order_index(order: LineMergeOrder) -> (r: usize)
    ensures
        r == order_position(order),
{
    match order {
        LineMergeOrder::TopToBottomLeftToRight => 0,
        LineMergeOrder::LeftToRightTopToBottom => 1,
    }
}

/// What a choice shows is what picking it gives: every setting is found at its own position.
pub proof fn law_choices_round_trip(
    provider: ModelProvider,
    api: HttpApi,
    tier: ModelTier,
    order: LineMergeOrder,
)
    ensures
        provider_choice(provider_position(provider)) == provider,
        http_choice(http_position(api)) == api,
        tier_of_choice(tier_position(tier)) == tier,
        order_choice(order_position(order)) == order,
{
}

/// An edit of the connection settings. Numbers are whole, rounded toward zero.
#[derive(Debug)]
pub enum ApiEdit {
    Provider(usize),
    HttpApi(usize),
    Model(String),
    PriorityMode(bool),
    CliPath(String),
    BaseUrl(String),
    ApiKey(String),
    StructuredOutputs(bool),
    Stream(bool),
    SendReasoning(bool),
    Timeout(i64),
    Retries(i64),
    RetryDelay(i64),
}

impl ApiEdit {
    /// The settings after the edit.
    pub open spec fn changed(self, api: ApiConfig) -> ApiConfig {
        match self {
            ApiEdit::Provider(v) => ApiConfig { provider: provider_choice(v), ..api },
            ApiEdit::HttpApi(v) => ApiConfig { http_api: http_choice(v), ..api },
            ApiEdit::Model(v) => ApiConfig { model: v, ..api },
            ApiEdit::PriorityMode(v) => ApiConfig { service_tier: tier_choice(v), ..api },
            ApiEdit::CliPath(v) => ApiConfig { cli_path: v, ..api },
            ApiEdit::BaseUrl(v) => ApiConfig { base_url: v, ..api },
            ApiEdit::ApiKey(v) => ApiConfig { api_key: v, ..api },
            ApiEdit::StructuredOutputs(v) => ApiConfig { structured_outputs: v, ..api },
            ApiEdit::Stream(v) => ApiConfig { stream: v, ..api },
            ApiEdit::SendReasoning(v) => ApiConfig { send_reasoning_content: v, ..api },
            ApiEdit::Timeout(v) => ApiConfig { request_timeout_secs: at_least(v, 0) as u64, ..api },
            ApiEdit::Retries(v) => ApiConfig {
                max_retries: held(v, 0, u32::MAX as int) as u32,
                ..api
            },
            ApiEdit::RetryDelay(v) => ApiConfig { retry_backoff_ms: at_least(v, 50) as u64, ..api },
        }
    }

    /// The settings after the edit.
    pub fn apply(self, api: &mut ApiConfig)
        ensures
            *final(api) == self.changed(*old(api)),
    {
        match self {
            ApiEdit::Provider(v) => {
                api.provider = pick_provider(v);
            },
            ApiEdit::HttpApi(v) => {
                api.http_api = pick_http_api(v);
            },
            ApiEdit::Model(v) => {
                api.model = v;
            },
            ApiEdit::PriorityMode(v) => {
                api.service_tier = pick_service_tier(v);
            },
            ApiEdit::CliPath(v) => {
                api.cli_path = v;
            },
            ApiEdit::BaseUrl(v) => {
                api.base_url = v;
            },
            ApiEdit::ApiKey(v) => {
                api.api_key = v;
            },
            ApiEdit::StructuredOutputs(v) => {
                api.structured_outputs = v;
            },
            ApiEdit::Stream(v) => {
                api.stream = v;
            },
            ApiEdit::SendReasoning(v) => {
                api.send_reasoning_content = v;
            },
            ApiEdit::Timeout(v) => {
                api.request_timeout_secs = raised(v, 0);
            },
            ApiEdit::Retries(v) => {
                api.max_retries = limited(v, 0, 0xFFFF_FFFF) as u32;
            },
            ApiEdit::RetryDelay(v) => {
                api.retry_backoff_ms = raised(v, 50);
            },
        }
    }
}

/// An edit of the optional request parameters.
#[derive(Debug)]
pub enum OptionalEdit {
    Temperature(Scalar),
    TemperatureOn(bool),
    TopP(Scalar),
    TopPOn(bool),
    MaxTokens(i64),
    MaxTokensOn(bool),
    Reasoning(String),
    ReasoningOn(bool),
}

/// Optional request parameters. A value is kept while its switch is off, so that switching it on
/// again restores it.
#[derive(Debug)]
pub struct OptionalApi {
    pub temperature: Scalar,
    pub top_p: Scalar,
    pub max_tokens: i64,
    pub reasoning: String,
    pub temperature_on: bool,
    pub top_p_on: bool,
    pub max_tokens_on: bool,
    pub reasoning_on: bool,
}

impl OptionalEdit {
    /// The parameters after the edit.
    pub open spec fn changed(self, optional: OptionalApi) -> OptionalApi {
        match self {
            OptionalEdit::Temperature(v) => OptionalApi { temperature: v, ..optional },
            OptionalEdit::TemperatureOn(v) => OptionalApi { temperature_on: v, ..optional },
            OptionalEdit::TopP(v) => OptionalApi { top_p: v, ..optional },
            OptionalEdit::TopPOn(v) => OptionalApi { top_p_on: v, ..optional },
            OptionalEdit::MaxTokens(v) => OptionalApi { max_tokens: v, ..optional },
            OptionalEdit::MaxTokensOn(v) => OptionalApi { max_tokens_on: v, ..optional },
            OptionalEdit::Reasoning(v) => OptionalApi { reasoning: v, ..optional },
            OptionalEdit::ReasoningOn(v) => OptionalApi { reasoning_on: v, ..optional },
        }
    }

    /// The parameters after the edit.
    pub fn apply(self, optional: &mut OptionalApi)
        ensures
            *final(optional) == self.changed(*old(optional)),
    {
        match self {
            OptionalEdit::Temperature(v) => {
                optional.temperature = v;
            },
            OptionalEdit::TemperatureOn(v) => {
                optional.temperature_on = v;
            },
            OptionalEdit::TopP(v) => {
                optional.top_p = v;
            },
            OptionalEdit::TopPOn(v) => {
                optional.top_p_on = v;
            },
            OptionalEdit::MaxTokens(v) => {
                optional.max_tokens = v;
            },
            OptionalEdit::MaxTokensOn(v) => {
                optional.max_tokens_on = v;
            },
            OptionalEdit::Reasoning(v) => {
                optional.reasoning = v;
            },
            OptionalEdit::ReasoningOn(v) => {
                optional.reasoning_on = v;
            },
        }
    }
}

/// An edit of the OCR settings.
#[derive(Debug)]
pub enum OcrEdit {
    Tier(usize),
    StableWait(i64),
    ForceTranslate(i64),
    KeepAfterGone(i64),
    DropAfterMiss(i64),
    MinConfidence(Scalar),
    FilterSingle(bool),
}

impl OcrEdit {
    /// The settings after the edit.
    pub open spec fn changed(self, ocr: OcrConfig) -> OcrConfig {
        match self {
            OcrEdit::Tier(v) => OcrConfig { model_tier: tier_of_choice(v), ..ocr },
            OcrEdit::StableWait(v) => OcrConfig {
                stable_duration_ms: at_least(v, 0) as u64,
                ..ocr
            },
            OcrEdit::ForceTranslate(v) => OcrConfig {
                max_unstable_ms: at_least(v, 0) as u64,
                ..ocr
            },
            OcrEdit::KeepAfterGone(v) => OcrConfig {
                block_persist_ms: at_least(v, 0) as u64,
                ..ocr
            },
            OcrEdit::DropAfterMiss(v) => OcrConfig {
                block_max_miss_ms: at_least(v, 0) as u64,
                ..ocr
            },
            OcrEdit::MinConfidence(v) => OcrConfig {
                confidence_threshold: v.clamped(ratio(0), ratio(ONE)),
                ..ocr
            },
            OcrEdit::FilterSingle(v) => OcrConfig { filter_single_char: v, ..ocr },
        }
    }

    /// The settings after the edit.
    pub fn apply(self, ocr: &mut OcrConfig)
        ensures
            *final(ocr) == self.changed(*old(ocr)),
    {
        match self {
            OcrEdit::Tier(v) => {
                ocr.model_tier = pick_tier(v);
            },
            OcrEdit::StableWait(v) => {
                ocr.stable_duration_ms = raised(v, 0);
            },
            OcrEdit::ForceTranslate(v) => {
                ocr.max_unstable_ms = raised(v, 0);
            },
            OcrEdit::KeepAfterGone(v) => {
                ocr.block_persist_ms = raised(v, 0);
            },
            OcrEdit::DropAfterMiss(v) => {
                ocr.block_max_miss_ms = raised(v, 0);
            },
            OcrEdit::MinConfidence(v) => {
                ocr.confidence_threshold = v.clamp_between(
                    Scalar { bits: 0 },
                    Scalar { bits: ONE },
                );
            },
            OcrEdit::FilterSingle(v) => {
                ocr.filter_single_char = v;
            },
        }
    }
}

/// An edit of the line merge settings. Ratios are fractions.
#[derive(Debug)]
pub enum MergeEdit {
    MergeLines(bool),
    MergeWholeRegion(bool),
    JoinWithSpace(bool),
    Order(usize),
    OrderBand(Scalar),
    Gap(Scalar),
    BelowMid(Scalar),
    HeightDelta(Scalar),
    HorizontalGap(Scalar),
    Align(Scalar),
    RejectShort(bool),
    WidthDelta(Scalar),
}

impl MergeEdit {
    /// The settings after the edit.
    pub open spec fn changed(self, merge: LineMergeConfig) -> LineMergeConfig {
        match self {
            MergeEdit::MergeLines(v) => LineMergeConfig { enabled: v, ..merge },
            MergeEdit::MergeWholeRegion(v) => LineMergeConfig { merge_whole_region: v, ..merge },
            MergeEdit::JoinWithSpace(v) => LineMergeConfig { join_with_space: v, ..merge },
            MergeEdit::Order(v) => LineMergeConfig { order: order_choice(v), ..merge },
            MergeEdit::OrderBand(v) => LineMergeConfig {
                order_band_ratio: v.clamped(ratio(BAND_MIN), ratio(FIVE_PERCENT)),
                ..merge
            },
            MergeEdit::Gap(v) => LineMergeConfig {
                gap_ratio: v.clamped(ratio(0), ratio(EIGHT_PERCENT)),
                ..merge
            },
            MergeEdit::BelowMid(v) => LineMergeConfig {
                below_mid_ratio: v.clamped(ratio(0), ratio(HALF)),
                ..merge
            },
            MergeEdit::HeightDelta(v) => LineMergeConfig {
                height_delta_ratio: v.clamped(ratio(0), ratio(NINETY_PERCENT)),
                ..merge
            },
            MergeEdit::HorizontalGap(v) => LineMergeConfig {
                horizontal_gap_ratio: v.clamped(ratio(0), ratio(EIGHT_PERCENT)),
                ..merge
            },
            MergeEdit::Align(v) => LineMergeConfig {
                align_ratio: v.clamped(ratio(0), ratio(FIVE_PERCENT)),
                ..merge
            },
            MergeEdit::RejectShort(v) => LineMergeConfig { reject_short_long: v, ..merge },
            MergeEdit::WidthDelta(v) => LineMergeConfig {
                width_delta_ratio: v.clamped(ratio(0), ratio(NINETY_PERCENT)),
                ..merge
            },
        }
    }

    /// The settings after the edit.
    pub fn apply(self, merge: &mut LineMergeConfig)
        ensures
            *final(merge) == self.changed(*old(merge)),
    {
        match self {
            MergeEdit::MergeLines(v) => {
                merge.enabled = v;
            },
            MergeEdit::MergeWholeRegion(v) => {
                merge.merge_whole_region = v;
            },
            MergeEdit::JoinWithSpace(v) => {
                merge.join_with_space = v;
            },
            MergeEdit::Order(v) => {
                merge.order = pick_order(v);
            },
            MergeEdit::OrderBand(v) => {
                merge.order_band_ratio = v.clamp_between(
                    Scalar { bits: BAND_MIN },
                    Scalar { bits: FIVE_PERCENT },
                );
            },
            MergeEdit::Gap(v) => {
                merge.gap_ratio = v.clamp_between(
                    Scalar { bits: 0 },
                    Scalar { bits: EIGHT_PERCENT },
                );
            },
            MergeEdit::BelowMid(v) => {
                merge.below_mid_ratio = v.clamp_between(Scalar { bits: 0 }, Scalar { bits: HALF });
            },
            MergeEdit::HeightDelta(v) => {
                merge.height_delta_ratio = v.clamp_between(
                    Scalar { bits: 0 },
                    Scalar { bits: NINETY_PERCENT },
                );
            },
            MergeEdit::HorizontalGap(v) => {
                merge.horizontal_gap_ratio = v.clamp_between(
                    Scalar { bits: 0 },
                    Scalar { bits: EIGHT_PERCENT },
                );
            },
            MergeEdit::Align(v) => {
                merge.align_ratio = v.clamp_between(
                    Scalar { bits: 0 },
                    Scalar { bits: FIVE_PERCENT },
                );
            },
            MergeEdit::RejectShort(v) => {
                merge.reject_short_long = v;
            },
            MergeEdit::WidthDelta(v) => {
                merge.width_delta_ratio = v.clamp_between(
                    Scalar { bits: 0 },
                    Scalar { bits: NINETY_PERCENT },
                );
            },
        }
    }
}

/// An edit of the translation settings.
#[derive(Debug)]
pub enum TranslationEdit {
    SourceLang(String),
    TargetLang(String),
    RecentTranslations(i64),
    ContextTurns(i64),
    CacheEnabled(bool),
    CacheSize(i64),
}

impl TranslationEdit {
    /// The settings after the edit.
    pub open spec fn changed(self, translation: TranslationConfig) -> TranslationConfig {
        match self {
            TranslationEdit::SourceLang(v) => TranslationConfig { source_lang: v, ..translation },
            TranslationEdit::TargetLang(v) => TranslationConfig { target_lang: v, ..translation },
            TranslationEdit::RecentTranslations(v) => TranslationConfig {
                history_max_items: held(v, 1, usize::MAX as int) as usize,
                ..translation
            },
            TranslationEdit::ContextTurns(v) => TranslationConfig {
                conversation_max_turns: held(v, 1, usize::MAX as int) as usize,
                ..translation
            },
            TranslationEdit::CacheEnabled(v) => TranslationConfig {
                cache_enabled: v,
                ..translation
            },
            TranslationEdit::CacheSize(v) => TranslationConfig {
                cache_max_entries: held(
                    v,
                    TRANSLATION_CACHE_MAX_MIN as int,
                    TRANSLATION_CACHE_MAX_CAP as int,
                ) as usize,
                ..translation
            },
        }
    }

    /// The settings after the edit.
    pub fn apply(self, translation: &mut TranslationConfig)
        ensures
            *final(translation) == self.changed(*old(translation)),
    {
        match self {
            TranslationEdit::SourceLang(v) => {
                translation.source_lang = v;
            },
            TranslationEdit::TargetLang(v) => {
                translation.target_lang = v;
            },
            TranslationEdit::RecentTranslations(v) => {
                translation.history_max_items = counted(v);
            },
            TranslationEdit::ContextTurns(v) => {
                translation.conversation_max_turns = counted(v);
            },
            TranslationEdit::CacheEnabled(v) => {
                translation.cache_enabled = v;
            },
            TranslationEdit::CacheSize(v) => {
                translation.cache_max_entries = limited(
                    v,
                    TRANSLATION_CACHE_MAX_MIN as u64,
                    TRANSLATION_CACHE_MAX_CAP as u64,
                ) as usize;
            },
        }
    }
}

/// Pending destructive settings action awaiting confirmation.
#[derive(Debug, Clone, Copy, PartialEq, Eq, Structural)]
pub enum ConfirmAction {
    Nothing,
    Reload,
    Discard,
}

impl Default for ConfirmAction {
    fn default() -> (r: ConfirmAction)
        ensures
            r == ConfirmAction::Nothing,
    {
        ConfirmAction::Nothing
    }
}

/// Overlay and reader visibility to apply at once.
#[derive(Debug, Clone, Copy, PartialEq, Eq, Structural)]
pub struct DisplaySwitch {
    pub enabled: bool,
    pub reader_enabled: bool,
}

/// Editable draft of the settings, committed on Save.
#[derive(Debug)]
pub struct SettingsForm {
    pub draft: AppConfig,
    pub optional: OptionalApi,
    pub text_argb: String,
    pub background_argb: String,
    /// Colour picker panels; at most one is open.
    pub text_picker_open: bool,
    pub background_picker_open: bool,
    /// Show the API key as plain text.
    pub key_revealed: bool,
    pub confirm: ConfirmAction,
    /// Inline validation message (blocks Save until fixed).
    pub form_error: Option<String>,
}

impl AppView {
    /// The banner of the last save is gone.
    pub open spec fn unsaved(self) -> AppView {
        AppView { settings_message: None, ..self }
    }
}

/// Drop the banner of the last save.
fn clear_message(state: &mut AppState)
    ensures
        final(state)@ == old(state)@.unsaved(),
{
    reveal(app_view);
    state.settings_message = None;
}

impl OptionalApi {
    /// The parameters that the form shows for `api`: its own where they are set, else values to
    /// start from.
    pub open spec fn shown(self, api: ApiConfig) -> bool {
        &&& self.temperature_on == api.temperature is Some
        &&& self.top_p_on == api.top_p is Some
        &&& self.max_tokens_on == api.max_tokens is Some
        &&& self.reasoning_on == (api.reasoning_effort matches Some(s) && trim(s@).len() > 0)
        &&& self.temperature == match api.temperature {
            Some(v) => v,
            None => ratio(TEMPERATURE_DEFAULT),
        }
        &&& self.top_p == match api.top_p {
            Some(v) => v,
            None => ratio(TOP_P_DEFAULT),
        }
        &&& self.max_tokens == match api.max_tokens {
            Some(v) => v as i64,
            None => MAX_TOKENS_DEFAULT,
        }
        &&& self.reasoning@ == match api.reasoning_effort {
            Some(s) => s@,
            None => "medium"@,
        }
    }

    /// The parameters to show for `api`.
    pub fn of_config(api: &ApiConfig) -> (r: OptionalApi)
        ensures
            r.shown(*api),
    {
        let temperature: Scalar = match api.temperature {
            Some(v) => v,
            None => Scalar { bits: TEMPERATURE_DEFAULT },
        };
        let top_p: Scalar = match api.top_p {
            Some(v) => v,
            None => Scalar { bits: TOP_P_DEFAULT },
        };
        let max_tokens: i64 = match api.max_tokens {
            Some(v) => v as i64,
            None => MAX_TOKENS_DEFAULT,
        };
        let reasoning: String = match &api.reasoning_effort {
            Some(s) => s.clone(),
            None => owned("medium"),
        };
        let reasoning_on: bool = match &api.reasoning_effort {
            Some(s) => !trimmed(s.as_str()).as_str().is_empty(),
            None => false,
        };
        OptionalApi {
            temperature,
            top_p,
            max_tokens,
            reasoning,
            temperature_on: api.temperature.is_some(),
            top_p_on: api.top_p.is_some(),
            max_tokens_on: api.max_tokens.is_some(),
            reasoning_on,
        }
    }

    /// Reasoning effort that the form asks for.
    pub open spec fn effort(self) -> Option<Seq<char>> {
        if self.reasoning_on && trim(self.reasoning@).len() > 0 {
            Some(trim(self.reasoning@))
        } else {
            None
        }
    }

    /// `after` is `api` with the parameters that are switched on, each held to its range, and
    /// without the others.
    pub open spec fn merged(self, api: ApiConfig, after: ApiConfig) -> bool {
        &&& optional_text(after.reasoning_effort) == self.effort()
        &&& after == ApiConfig {
            temperature: if self.temperature_on {
                Some(self.temperature.clamped(ratio(0), ratio(TWO)))
            } else {
                None
            },
            top_p: if self.top_p_on {
                Some(self.top_p.clamped(ratio(0), ratio(ONE)))
            } else {
                None
            },
            max_tokens: if self.max_tokens_on {
                Some(held(self.max_tokens, 1, MAX_TOKENS_CAP as int) as u32)
            } else {
                None
            },
            reasoning_effort: after.reasoning_effort,
            ..api
        }
    }

    /// Write the parameters that are switched on into `api`, and drop the others.
    fn merge_into(&self, api: &mut ApiConfig)
        ensures
            self.merged(*old(api), *final(api)),
    {
        api.temperature =
        if self.temperature_on {
            Some(self.temperature.clamp_between(Scalar { bits: 0 }, Scalar { bits: TWO }))
        } else {
            None
        };
        api.top_p =
        if self.top_p_on {
            Some(self.top_p.clamp_between(Scalar { bits: 0 }, Scalar { bits: ONE }))
        } else {
            None
        };
        api.max_tokens =
        if self.max_tokens_on {
            Some(limited(self.max_tokens, 1, MAX_TOKENS_CAP as u64) as u32)
        } else {
            None
        };
        let mut effort: Option<String> = None;
        if self.reasoning_on {
            let text: String = trimmed(self.reasoning.as_str());
            if !text.as_str().is_empty() {
                effort = Some(text);
            }
        }
        api.reasoning_effort = effort;
    }
}

/// A colour as its text says, or as it was where the text names none.
pub open spec fn colour_after(text: Seq<char>, before: u32) -> u32 {
    match argb_of(text) {
        Some(v) => v,
        None => before,
    }
}

fn pick_colour(text: &str, before: u32) -> (r: u32)
    ensures
        r == colour_after(text@, before),
{
    match parse_argb_hex(text) {
        Some(v) => v,
        None => before,
    }
}

/// Notations of the text and background colours.
pub fn overlay_color_strings(config: &AppConfig) -> (r: (String, String))
    ensures
        r.0@ == argb_notation(config.overlay.text_color_argb),
        r.1@ == argb_notation(config.overlay.background_color_argb),
{
    (
        format_argb_hex(config.overlay.text_color_argb),
        format_argb_hex(config.overlay.background_color_argb),
    )
}

impl SettingsForm {
    /// The form shows `config` as it stands.
    pub open spec fn shows(self, config: AppConfig) -> bool {
        &&& self.draft == config
        &&& self.optional.shown(config.api)
        &&& self.text_argb@ == argb_notation(config.overlay.text_color_argb)
        &&& self.background_argb@ == argb_notation(config.overlay.background_color_argb)
    }

    /// Form that shows the running config.
    pub fn of_config(config: &AppConfig) -> (r: SettingsForm)
        ensures
            r.shows(*config),
            !r.text_picker_open,
            !r.background_picker_open,
            !r.key_revealed,
            r.confirm == ConfirmAction::Nothing,
            r.form_error is None,
    {
        let (text_argb, background_argb): (String, String) = overlay_color_strings(config);
        SettingsForm {
            draft: config.clone(),
            optional: OptionalApi::of_config(&config.api),
            text_argb,
            background_argb,
            text_picker_open: false,
            background_picker_open: false,
            key_revealed: false,
            confirm: ConfirmAction::Nothing,
            form_error: None,
        }
    }

    /// The config that the draft, the optional parameters and the colour texts stand for.
    pub open spec fn stands_for(self, config: AppConfig) -> bool {
        &&& self.optional.merged(self.draft.api, config.api)
        &&& config == AppConfig {
            api: config.api,
            overlay: OverlayConfig {
                text_color_argb: colour_after(
                    self.text_argb@,
                    self.draft.overlay.text_color_argb,
                ),
                background_color_argb: colour_after(
                    self.background_argb@,
                    self.draft.overlay.background_color_argb,
                ),
                ..self.draft.overlay
            },
            ..self.draft
        }
    }

    /// Merge the optional parameters and the colour texts into a copy of the draft.
    pub fn effective_draft(&self) -> (r: AppConfig)
        ensures
            self.stands_for(r),
    {
        let mut config: AppConfig = self.draft.clone();
        self.optional.merge_into(&mut config.api);
        config.overlay.text_color_argb = pick_colour(
            self.text_argb.as_str(),
            config.overlay.text_color_argb,
        );
        config.overlay.background_color_argb = pick_colour(
            self.background_argb.as_str(),
            config.overlay.background_color_argb,
        );
        config
    }

    /// The form stands for settings other than `live`.
    pub open spec fn differs(self, live: AppConfig) -> bool {
        exists|config: AppConfig| #[trigger] self.stands_for(config) && !config.same(live)
    }

    /// True when the form (draft and free-text fields) differs from `live`.
    pub fn draft_differs_from(&self, live: &AppConfig) -> (r: bool)
        ensures
            r == self.differs(*live),
    {
        let config: AppConfig = self.effective_draft();
        proof {
            lemma_one_meaning(*self, config);
        }
        !config.same_settings(live)
    }

    /// What a real user edit does beside the edited value: the save banner and the validation
    /// message go.
    pub fn mark_dirty(&mut self, state: &mut AppState)
        ensures
            *final(self) == (SettingsForm { form_error: None, ..*old(self) }),
            final(state)@ == old(state)@.unsaved(),
    {
        self.form_error = None;
        clear_message(state);
    }

    /// Edit the connection settings.
    pub fn edit_api(&mut self, state: &mut AppState, edit: ApiEdit)
        ensures
            *final(self) == (SettingsForm {
                draft: AppConfig { api: edit.changed(old(self).draft.api), ..old(self).draft },
                form_error: None,
                ..*old(self)
            }),
            final(state)@ == old(state)@.unsaved(),
    {
        edit.apply(&mut self.draft.api);
        self.mark_dirty(state);
    }

    /// Edit the optional request parameters.
    pub fn edit_optional(&mut self, state: &mut AppState, edit: OptionalEdit)
        ensures
            *final(self) == (SettingsForm {
                optional: edit.changed(old(self).optional),
                form_error: None,
                ..*old(self)
            }),
            final(state)@ == old(state)@.unsaved(),
    {
        edit.apply(&mut self.optional);
        self.mark_dirty(state);
    }

    /// Edit the OCR settings.
    pub fn edit_ocr(&mut self, state: &mut AppState, edit: OcrEdit)
        ensures
            *final(self) == (SettingsForm {
                draft: AppConfig { ocr: edit.changed(old(self).draft.ocr), ..old(self).draft },
                form_error: None,
                ..*old(self)
            }),
            final(state)@ == old(state)@.unsaved(),
    {
        edit.apply(&mut self.draft.ocr);
        self.mark_dirty(state);
    }

    /// Edit the line merge settings.
    pub fn edit_merge(&mut self, state: &mut AppState, edit: MergeEdit)
        ensures
            *final(self) == (SettingsForm {
                draft: AppConfig {
                    ocr: OcrConfig {
                        line_merge: edit.changed(old(self).draft.ocr.line_merge),
                        ..old(self).draft.ocr
                    },
                    ..old(self).draft
                },
                form_error: None,
                ..*old(self)
            }),
            final(state)@ == old(state)@.unsaved(),
    {
        edit.apply(&mut self.draft.ocr.line_merge);
        self.mark_dirty(state);
    }

    /// Edit the translation settings.
    pub fn edit_translation(&mut self, state: &mut AppState, edit: TranslationEdit)
        ensures
            *final(self) == (SettingsForm {
                draft: AppConfig {
                    translation: edit.changed(old(self).draft.translation),
                    ..old(self).draft
                },
                form_error: None,
                ..*old(self)
            }),
            final(state)@ == old(state)@.unsaved(),
    {
        edit.apply(&mut self.draft.translation);
        self.mark_dirty(state);
    }

    /// Edit the capture interval, at least fifty milliseconds.
    pub fn edit_interval(&mut self, state: &mut AppState, interval_ms: i64)
        ensures
            *final(self) == (SettingsForm {
                draft: AppConfig {
                    capture: CaptureConfig { min_interval_ms: at_least(interval_ms, 50) as u64 },
                    ..old(self).draft
                },
                form_error: None,
                ..*old(self)
            }),
            final(state)@ == old(state)@.unsaved(),
    {
        self.draft.capture.min_interval_ms = raised(interval_ms, 50);
        self.mark_dirty(state);
    }

    /// Edit the system prompt. A blank text stands for the built-in prompt.
    pub fn edit_system_prompt(&mut self, state: &mut AppState, text: &str)
        ensures
            *final(self) == (SettingsForm {
                draft: AppConfig {
                    translation: TranslationConfig {
                        system_prompt: final(self).draft.translation.system_prompt,
                        ..old(self).draft.translation
                    },
                    ..old(self).draft
                },
                form_error: None,
                ..*old(self)
            }),
            optional_text(final(self).draft.translation.system_prompt) == if trim(text@).len() > 0 {
                Some(trim(text@))
            } else {
                None
            },
            final(state)@ == old(state)@.unsaved(),
    {
        let prompt: String = trimmed(text);
        self.draft.translation.system_prompt =
        if prompt.as_str().is_empty() {
            None
        } else {
            Some(prompt)
        };
        self.mark_dirty(state);
    }

    /// Edit the text colour. A control that reports the text it already shows edits nothing.
    pub fn edit_text_color(&mut self, state: &mut AppState, text: String)
        ensures
            old(self).text_argb@ == text@ ==> *final(self) == *old(self) && final(state)@
                == old(state)@,
            old(self).text_argb@ != text@ ==> *final(self) == (SettingsForm {
                text_argb: text,
                form_error: None,
                ..*old(self)
            }) && final(state)@ == old(state)@.unsaved(),
    {
        if self.text_argb != text {
            self.text_argb = text;
            self.mark_dirty(state);
        }
    }

    /// Edit the background colour. A control that reports the text it already shows edits
    /// nothing.
    pub fn edit_background_color(&mut self, state: &mut AppState, text: String)
        ensures
            old(self).background_argb@ == text@ ==> *final(self) == *old(self) && final(state)@
                == old(state)@,
            old(self).background_argb@ != text@ ==> *final(self) == (SettingsForm {
                background_argb: text,
                form_error: None,
                ..*old(self)
            }) && final(state)@ == old(state)@.unsaved(),
    {
        if self.background_argb != text {
            self.background_argb = text;
            self.mark_dirty(state);
        }
    }

    /// Edit the reader font, held to its range. The size it already has edits nothing.
    pub fn edit_reader_font(&mut self, state: &mut AppState, px: i64)
        ensures
            ({
                let held_px = held(
                    px,
                    READER_FONT_PX_MIN as int,
                    READER_FONT_PX_MAX as int,
                ) as u32;
                if old(self).draft.overlay.reader_font_px == held_px {
                    *final(self) == *old(self) && final(state)@ == old(state)@
                } else {
                    *final(self) == (SettingsForm {
                        draft: AppConfig {
                            overlay: OverlayConfig {
                                reader_font_px: held_px,
                                ..old(self).draft.overlay
                            },
                            ..old(self).draft
                        },
                        form_error: None,
                        ..*old(self)
                    }) && final(state)@ == old(state)@.unsaved()
                }
            }),
    {
        let px: u32 = limited(px, READER_FONT_PX_MIN as u64, READER_FONT_PX_MAX as u64) as u32;
        if self.draft.overlay.reader_font_px != px {
            self.draft.overlay.reader_font_px = px;
            self.mark_dirty(state);
        }
    }

    /// Open or close the text colour picker; opening it closes the other one.
    pub fn toggle_text_picker(&mut self)
        ensures
            *final(self) == (SettingsForm {
                text_picker_open: !old(self).text_picker_open,
                background_picker_open: old(self).background_picker_open
                    && old(self).text_picker_open,
                ..*old(self)
            }),
    {
        self.text_picker_open = !self.text_picker_open;
        if self.text_picker_open {
            self.background_picker_open = false;
        }
    }

    /// Open or close the background colour picker; opening it closes the other one.
    pub fn toggle_background_picker(&mut self)
        ensures
            *final(self) == (SettingsForm {
                background_picker_open: !old(self).background_picker_open,
                text_picker_open: old(self).text_picker_open && old(self).background_picker_open,
                ..*old(self)
            }),
    {
        self.background_picker_open = !self.background_picker_open;
        if self.background_picker_open {
            self.text_picker_open = false;
        }
    }

    /// Show or hide the API key.
    pub fn toggle_key(&mut self)
        ensures
            *final(self) == (SettingsForm { key_revealed: !old(self).key_revealed, ..*old(self) }),
    {
        self.key_revealed = !self.key_revealed;
    }

    /// The draft with other overlay visibility.
    pub open spec fn displaying(self, switch: DisplaySwitch) -> SettingsForm {
        SettingsForm {
            draft: AppConfig {
                overlay: OverlayConfig {
                    enabled: switch.enabled,
                    reader_enabled: switch.reader_enabled,
                    ..self.draft.overlay
                },
                ..self.draft
            },
            ..self
        }
    }

    /// Apply overlay / reader visibility immediately, and keep the draft in sync.
    pub fn send_overlay_display(&mut self, enabled: bool, reader_enabled: bool) -> (r:
        DisplaySwitch)
        ensures
            r == (DisplaySwitch { enabled, reader_enabled }),
            *final(self) == old(self).displaying(r),
    {
        self.draft.overlay.enabled = enabled;
        self.draft.overlay.reader_enabled = reader_enabled;
        DisplaySwitch { enabled, reader_enabled }
    }

    /// Switch the in-place overlay; nothing is sent where it already is as asked.
    pub fn switch_overlay(&mut self, on: bool) -> (r: Option<DisplaySwitch>)
        ensures
            r == if old(self).draft.overlay.enabled == on {
                None
            } else {
                Some(
                    DisplaySwitch {
                        enabled: on,
                        reader_enabled: old(self).draft.overlay.reader_enabled,
                    },
                )
            },
            *final(self) == match r {
                Some(switch) => old(self).displaying(switch),
                None => *old(self),
            },
    {
        if self.draft.overlay.enabled != on {
            let reader: bool = self.draft.overlay.reader_enabled;
            Some(self.send_overlay_display(on, reader))
        } else {
            None
        }
    }

    /// Switch the translation window; nothing is sent where it already is as asked.
    pub fn switch_reader(&mut self, on: bool) -> (r: Option<DisplaySwitch>)
        ensures
            r == if old(self).draft.overlay.reader_enabled == on {
                None
            } else {
                Some(
                    DisplaySwitch {
                        enabled: old(self).draft.overlay.enabled,
                        reader_enabled: on,
                    },
                )
            },
            *final(self) == match r {
                Some(switch) => old(self).displaying(switch),
                None => *old(self),
            },
    {
        if self.draft.overlay.reader_enabled != on {
            let enabled: bool = self.draft.overlay.enabled;
            Some(self.send_overlay_display(enabled, on))
        } else {
            None
        }
    }

    /// The first issue that blocks Save.
    pub open spec fn issue(self) -> Option<Seq<char>> {
        if trim(self.draft.api.model@).len() == 0 {
            Some("Model name is required."@)
        } else if !self.draft.api.provider.cli() && trim(self.draft.api.base_url@).len() == 0 {
            Some("Base URL is required."@)
        } else if self.optional.reasoning_on && trim(self.optional.reasoning@).len() == 0 {
            Some("Reasoning effort is on but empty."@)
        } else if trim(self.text_argb@).len() > 0 && argb_of(trim(self.text_argb@)) is None {
            Some("Text color must be #AARRGGBB hex (e.g. #FFFFFFFF)."@)
        } else if trim(self.background_argb@).len() > 0 && argb_of(
            trim(self.background_argb@),
        ) is None {
            Some("Background color must be #AARRGGBB hex (e.g. #C8000000)."@)
        } else {
            None
        }
    }

    /// Soft validation issues that should block Save.
    pub fn form_validation_error(&self) -> (r: Option<String>)
        ensures
            optional_text(r) == self.issue(),
    {
        if trimmed(self.draft.api.model.as_str()).as_str().is_empty() {
            return Some(owned("Model name is required."));
        }
        if !self.draft.api.provider.is_cli() && trimmed(
            self.draft.api.base_url.as_str(),
        ).as_str().is_empty() {
            return Some(owned("Base URL is required."));
        }
        if self.optional.reasoning_on && trimmed(
            self.optional.reasoning.as_str(),
        ).as_str().is_empty() {
            return Some(owned("Reasoning effort is on but empty."));
        }
        let text: String = trimmed(self.text_argb.as_str());
        if !text.as_str().is_empty() && parse_argb_hex(text.as_str()).is_none() {
            return Some(owned("Text color must be #AARRGGBB hex (e.g. #FFFFFFFF)."));
        }
        let background: String = trimmed(self.background_argb.as_str());
        if !background.as_str().is_empty() && parse_argb_hex(background.as_str()).is_none() {
            return Some(owned("Background color must be #AARRGGBB hex (e.g. #C8000000)."));
        }
        None
    }

    /// Save: an issue is shown and nothing else happens; otherwise the form's settings become
    /// the draft and the running config, the banner and the last error go, and the config is
    /// handed out to be applied.
    pub fn save(&mut self, state: &mut AppState) -> (r: Option<AppConfig>)
        ensures
            match old(self).issue() {
                Some(text) => r is None && final(state)@ == old(state)@ && *final(self) == (
                SettingsForm { form_error: final(self).form_error, ..*old(self) }) && optional_text(
                    final(self).form_error,
                ) == Some(text),
                None => match r {
                    Some(config) => {
                        &&& old(self).stands_for(config)
                        &&& *final(self) == (SettingsForm {
                            draft: config,
                            form_error: None,
                            ..*old(self)
                        })
                        &&& final(state)@ == (AppView {
                            config,
                            settings_message: None,
                            last_error: None,
                            ..old(state)@
                        })
                    },
                    None => false,
                },
            },
    {
        let issue: Option<String> = self.form_validation_error();
        if issue.is_some() {
            self.form_error = issue;
            return None;
        }
        reveal(app_view);
        let config: AppConfig = self.effective_draft();
        self.draft = config.clone();
        self.form_error = None;
        state.config = config.clone();
        state.settings_message = None;
        state.last_error = None;
        Some(config)
    }

    /// Reload was asked for: with unsaved edits it waits for confirmation. True when the file is
    /// to be read now.
    pub fn ask_reload(&mut self, live: &AppConfig) -> (r: bool)
        ensures
            r == !old(self).differs(*live),
            *final(self) == (SettingsForm {
                confirm: if r {
                    old(self).confirm
                } else {
                    ConfirmAction::Reload
                },
                ..*old(self)
            }),
    {
        if self.draft_differs_from(live) {
            self.confirm = ConfirmAction::Reload;
            false
        } else {
            true
        }
    }

    /// Discard was asked for: with unsaved edits it waits for confirmation.
    pub fn ask_discard(&mut self, live: &AppConfig)
        ensures
            old(self).differs(*live) ==> *final(self) == (SettingsForm {
                confirm: ConfirmAction::Discard,
                ..*old(self)
            }),
            !old(self).differs(*live) ==> final(self).discarded_from(*old(self), *live),
    {
        if self.draft_differs_from(live) {
            self.confirm = ConfirmAction::Discard;
        } else {
            self.do_discard(live);
        }
    }

    /// `self` is `before` with its edits replaced by `live`.
    pub open spec fn discarded_from(self, before: SettingsForm, live: AppConfig) -> bool {
        &&& self.shows(live)
        &&& self == SettingsForm {
            draft: self.draft,
            optional: self.optional,
            text_argb: self.text_argb,
            background_argb: self.background_argb,
            form_error: None,
            confirm: ConfirmAction::Nothing,
            ..before
        }
    }

    /// Show `config`, keeping everything but the edits.
    pub fn reload_draft(&mut self, config: &AppConfig)
        ensures
            final(self).shows(*config),
            *final(self) == (SettingsForm {
                draft: final(self).draft,
                optional: final(self).optional,
                text_argb: final(self).text_argb,
                background_argb: final(self).background_argb,
                ..*old(self)
            }),
    {
        let (text_argb, background_argb): (String, String) = overlay_color_strings(config);
        self.draft = config.clone();
        self.optional = OptionalApi::of_config(&config.api);
        self.text_argb = text_argb;
        self.background_argb = background_argb;
    }

    /// Replace the edits by the running settings.
    pub fn do_discard(&mut self, live: &AppConfig)
        ensures
            final(self).discarded_from(*old(self), *live),
    {
        self.reload_draft(live);
        self.form_error = None;
        self.confirm = ConfirmAction::Nothing;
    }

    /// The config file was read: show it and hand it out to be applied. A failure is reported
    /// and leaves the edits.
    pub fn finish_reload(
        &mut self,
        state: &mut AppState,
        read: Result<AppConfig, String>,
    ) -> (r: Option<AppConfig>)
        ensures
            match read {
                Ok(config) => r == Some(config) && final(self).discarded_from(*old(self), config)
                    && final(state)@ == old(state)@,
                Err(e) => r is None && *final(self) == (SettingsForm {
                    confirm: ConfirmAction::Nothing,
                    ..*old(self)
                }) && final(state)@ == old(state)@.failed("Could not reload config: "@ + e@),
            },
    {
        match read {
            Ok(config) => {
                self.do_discard(&config);
                Some(config)
            },
            Err(e) => {
                state.set_error(joined("Could not reload config: ", e.as_str()));
                self.confirm = ConfirmAction::Nothing;
                None
            },
        }
    }

    /// The confirmation was answered. True when the file is to be read now.
    pub fn close_confirm(&mut self, live: &AppConfig, confirmed: bool) -> (r: bool)
        ensures
            r == (confirmed && old(self).confirm == ConfirmAction::Reload),
            confirmed && old(self).confirm == ConfirmAction::Discard ==> final(self).discarded_from(
                *old(self),
                *live,
            ),
            !(confirmed && old(self).confirm == ConfirmAction::Discard) ==> *final(self) == (
            SettingsForm { confirm: ConfirmAction::Nothing, ..*old(self) }),
    {
        let action: ConfirmAction = self.confirm;
        self.confirm = ConfirmAction::Nothing;
        if confirmed {
            match action {
                ConfirmAction::Reload => {
                    return true;
                },
                ConfirmAction::Discard => {
                    self.do_discard(live);
                },
                ConfirmAction::Nothing => {},
            }
        }
        false
    }
}

proof fn lemma_one_meaning(form: SettingsForm, config: AppConfig)
    requires
        form.stands_for(config),
    ensures
        forall|other: AppConfig, live: AppConfig| #[trigger]
            form.stands_for(other) ==> other.same(live) == #[trigger] config.same(live),
{
}

/// The pickers exclude each other: whichever is toggled, at most one is open.
pub proof fn law_one_picker_at_most(before: SettingsForm, text: SettingsForm, back: SettingsForm)
    requires
        !(before.text_picker_open && before.background_picker_open),
        text == (SettingsForm {
            text_picker_open: !before.text_picker_open,
            background_picker_open: before.background_picker_open && before.text_picker_open,
            ..before
        }),
        back == (SettingsForm {
            background_picker_open: !before.background_picker_open,
            text_picker_open: before.text_picker_open && before.background_picker_open,
            ..before
        }),
    ensures
        !(text.text_picker_open && text.background_picker_open),
        !(back.text_picker_open && back.background_picker_open),
{
}

/// A config that the form can hold without change: its optional parameters are in range and
/// its reasoning effort, where it has one, is trimmed text.
pub open spec fn representable(config: AppConfig) -> bool {
    &&& config.same(config)
    &&& config.api.temperature matches Some(v) ==> v.clamped(ratio(0), ratio(TWO)).same(v)
    &&& config.api.top_p matches Some(v) ==> v.clamped(ratio(0), ratio(ONE)).same(v)
    &&& config.api.max_tokens matches Some(v) ==> 1 <= v <= MAX_TOKENS_CAP
    &&& config.api.reasoning_effort matches Some(s) ==> trim(s@) == s@ && s@.len() > 0
}

/// A form that shows the running config has nothing to save, whatever the config holds that
/// the form can hold without change.
pub proof fn law_fresh_form_is_clean(form: SettingsForm, live: AppConfig)
    requires
        form.shows(live),
        representable(live),
    ensures
        !form.differs(live),
{
    law_argb_round_trip(live.overlay.text_color_argb);
    law_argb_round_trip(live.overlay.background_color_argb);
    assert forall|config: AppConfig| #[trigger] form.stands_for(config) implies config.same(
        live,
    ) by {
        assert(config.api.same(live.api));
    }
}

/// A number that is held to a range lies in it, and is the number itself where that does.
pub proof fn law_numbers_are_held_to_their_range(v: i64, lo: int, hi: int)
    requires
        lo <= hi,
    ensures
        lo <= held(v, lo, hi) <= hi,
        lo <= v <= hi ==> held(v, lo, hi) == v,
        v < lo ==> held(v, lo, hi) == lo,
        v > hi ==> held(v, lo, hi) == hi,
        at_least(v, lo) >= lo,
        v >= lo ==> at_least(v, lo) == v,
        v < lo ==> at_least(v, lo) == lo,
{
}

/// An edit of the API changes the setting that it names and no other; durations and counts are
/// held to what makes sense.
pub proof fn law_api_edit_changes_its_setting(edit: ApiEdit, api: ApiConfig)
    ensures
        ({
            let now = edit.changed(api);
            &&& now.provider != api.provider ==> edit is Provider
            &&& now.http_api != api.http_api ==> edit is HttpApi
            &&& now.model != api.model ==> edit is Model
            &&& now.service_tier != api.service_tier ==> edit is PriorityMode
            &&& now.cli_path != api.cli_path ==> edit is CliPath
            &&& now.base_url != api.base_url ==> edit is BaseUrl
            &&& now.api_key != api.api_key ==> edit is ApiKey
            &&& now.structured_outputs != api.structured_outputs ==> edit is StructuredOutputs
            &&& now.stream != api.stream ==> edit is Stream
            &&& now.send_reasoning_content != api.send_reasoning_content ==> edit is SendReasoning
            &&& now.request_timeout_secs != api.request_timeout_secs ==> edit is Timeout
            &&& now.max_retries != api.max_retries ==> edit is Retries
            &&& now.retry_backoff_ms != api.retry_backoff_ms ==> edit is RetryDelay
            &&& now.temperature == api.temperature && now.top_p == api.top_p && now.max_tokens
                == api.max_tokens && now.reasoning_effort == api.reasoning_effort
            &&& edit matches ApiEdit::Model(v) ==> now.model == v
            &&& edit matches ApiEdit::CliPath(v) ==> now.cli_path == v
            &&& edit matches ApiEdit::BaseUrl(v) ==> now.base_url == v
            &&& edit matches ApiEdit::ApiKey(v) ==> now.api_key == v
            &&& edit matches ApiEdit::StructuredOutputs(v) ==> now.structured_outputs == v
            &&& edit matches ApiEdit::Stream(v) ==> now.stream == v
            &&& edit matches ApiEdit::SendReasoning(v) ==> now.send_reasoning_content == v
            &&& edit matches ApiEdit::PriorityMode(v) ==> (now.service_tier
                == ServiceTier::Priority) == v
            &&& edit matches ApiEdit::Timeout(v) ==> now.request_timeout_secs == if v < 0 {
                0
            } else {
                v as int
            }
            &&& edit matches ApiEdit::Retries(v) ==> (0 <= v <= u32::MAX ==> now.max_retries == v)
                && (v < 0 ==> now.max_retries == 0)
            &&& edit matches ApiEdit::RetryDelay(v) ==> now.retry_backoff_ms == if v < 50 {
                50
            } else {
                v as int
            }
        }),
{
}

/// An edit of the recognition changes the setting that it names and no other.
pub proof fn law_ocr_edit_changes_its_setting(edit: OcrEdit, ocr: OcrConfig)
    ensures
        ({
            let now = edit.changed(ocr);
            &&& now.model_tier != ocr.model_tier ==> edit is Tier
            &&& now.stable_duration_ms != ocr.stable_duration_ms ==> edit is StableWait
            &&& now.max_unstable_ms != ocr.max_unstable_ms ==> edit is ForceTranslate
            &&& now.block_persist_ms != ocr.block_persist_ms ==> edit is KeepAfterGone
            &&& now.block_max_miss_ms != ocr.block_max_miss_ms ==> edit is DropAfterMiss
            &&& now.confidence_threshold != ocr.confidence_threshold ==> edit is MinConfidence
            &&& now.filter_single_char != ocr.filter_single_char ==> edit is FilterSingle
            &&& now.models_dir == ocr.models_dir && now.line_merge == ocr.line_merge
            &&& edit matches OcrEdit::StableWait(v) ==> now.stable_duration_ms == if v < 0 {
                0
            } else {
                v as int
            }
            &&& edit matches OcrEdit::ForceTranslate(v) ==> now.max_unstable_ms == if v < 0 {
                0
            } else {
                v as int
            }
            &&& edit matches OcrEdit::KeepAfterGone(v) ==> now.block_persist_ms == if v < 0 {
                0
            } else {
                v as int
            }
            &&& edit matches OcrEdit::DropAfterMiss(v) ==> now.block_max_miss_ms == if v < 0 {
                0
            } else {
                v as int
            }
            &&& edit matches OcrEdit::FilterSingle(v) ==> now.filter_single_char == v
            &&& edit matches OcrEdit::MinConfidence(v) ==> (!v.nan() ==> 0
                <= now.confidence_threshold.rank() <= 0x3F80_0000) && (!v.nan() && 0 <= v.rank()
                <= 0x3F80_0000 ==> now.confidence_threshold == v)
        }),
{
}

/// An edit of the merge settings changes the setting that it names and no other; ratios are held
/// to their ranges.
pub proof fn law_merge_edit_changes_its_setting(edit: MergeEdit, merge: LineMergeConfig)
    ensures
        ({
            let now = edit.changed(merge);
            &&& now.enabled != merge.enabled ==> edit is MergeLines
            &&& now.merge_whole_region != merge.merge_whole_region ==> edit is MergeWholeRegion
            &&& now.join_with_space != merge.join_with_space ==> edit is JoinWithSpace
            &&& now.order != merge.order ==> edit is Order
            &&& now.order_band_ratio != merge.order_band_ratio ==> edit is OrderBand
            &&& now.gap_ratio != merge.gap_ratio ==> edit is Gap
            &&& now.below_mid_ratio != merge.below_mid_ratio ==> edit is BelowMid
            &&& now.height_delta_ratio != merge.height_delta_ratio ==> edit is HeightDelta
            &&& now.horizontal_gap_ratio != merge.horizontal_gap_ratio ==> edit is HorizontalGap
            &&& now.align_ratio != merge.align_ratio ==> edit is Align
            &&& now.reject_short_long != merge.reject_short_long ==> edit is RejectShort
            &&& now.width_delta_ratio != merge.width_delta_ratio ==> edit is WidthDelta
            &&& edit matches MergeEdit::MergeLines(v) ==> now.enabled == v
            &&& edit matches MergeEdit::MergeWholeRegion(v) ==> now.merge_whole_region == v
            &&& edit matches MergeEdit::JoinWithSpace(v) ==> now.join_with_space == v
            &&& edit matches MergeEdit::RejectShort(v) ==> now.reject_short_long == v
        }),
        ({
            let now = edit.changed(merge);
            &&& edit matches MergeEdit::Gap(v) ==> !v.nan() ==> 0 <= now.gap_ratio.rank()
                <= 0x3DA3_D70A && (0 <= v.rank() <= 0x3DA3_D70A ==> now.gap_ratio == v)
            &&& edit matches MergeEdit::HorizontalGap(v) ==> !v.nan() ==> 0
                <= now.horizontal_gap_ratio.rank() <= 0x3DA3_D70A && (0 <= v.rank() <= 0x3DA3_D70A
                ==> now.horizontal_gap_ratio == v)
            &&& edit matches MergeEdit::BelowMid(v) ==> !v.nan() ==> 0
                <= now.below_mid_ratio.rank() <= 0x3F00_0000 && (0 <= v.rank() <= 0x3F00_0000
                ==> now.below_mid_ratio == v)
            &&& edit matches MergeEdit::HeightDelta(v) ==> !v.nan() ==> 0
                <= now.height_delta_ratio.rank() <= 0x3F66_6666 && (0 <= v.rank() <= 0x3F66_6666
                ==> now.height_delta_ratio == v)
            &&& edit matches MergeEdit::WidthDelta(v) ==> !v.nan() ==> 0
                <= now.width_delta_ratio.rank() <= 0x3F66_6666 && (0 <= v.rank() <= 0x3F66_6666
                ==> now.width_delta_ratio == v)
            &&& edit matches MergeEdit::Align(v) ==> !v.nan() ==> 0 <= now.align_ratio.rank()
                <= 0x3D4C_CCCD && (0 <= v.rank() <= 0x3D4C_CCCD ==> now.align_ratio == v)
            &&& edit matches MergeEdit::OrderBand(v) ==> !v.nan() ==> 0x3A83_126F
                <= now.order_band_ratio.rank() <= 0x3D4C_CCCD && (0x3A83_126F <= v.rank()
                <= 0x3D4C_CCCD ==> now.order_band_ratio == v)
        }),
{
}

/// An edit of the translation changes the setting that it names and no other; counts are at least
/// one, and the cache is held to its range.
pub proof fn law_translation_edit_changes_its_setting(
    edit: TranslationEdit,
    translation: TranslationConfig,
)
    ensures
        ({
            let now = edit.changed(translation);
            &&& now.source_lang != translation.source_lang ==> edit is SourceLang
            &&& now.target_lang != translation.target_lang ==> edit is TargetLang
            &&& now.history_max_items != translation.history_max_items
                ==> edit is RecentTranslations
            &&& now.conversation_max_turns != translation.conversation_max_turns
                ==> edit is ContextTurns
            &&& now.cache_enabled != translation.cache_enabled ==> edit is CacheEnabled
            &&& now.cache_max_entries != translation.cache_max_entries ==> edit is CacheSize
            &&& now.system_prompt == translation.system_prompt
            &&& edit matches TranslationEdit::SourceLang(v) ==> now.source_lang == v
            &&& edit matches TranslationEdit::TargetLang(v) ==> now.target_lang == v
            &&& edit matches TranslationEdit::CacheEnabled(v) ==> now.cache_enabled == v
            &&& edit matches TranslationEdit::CacheSize(v) ==> 1 <= now.cache_max_entries <= 8192
                && (1 <= v <= 8192 ==> now.cache_max_entries == v)
            &&& edit matches TranslationEdit::RecentTranslations(v) ==> now.history_max_items >= 1
                && (1 <= v <= usize::MAX ==> now.history_max_items == v)
            &&& edit matches TranslationEdit::ContextTurns(v) ==> now.conversation_max_turns >= 1
                && (1 <= v <= usize::MAX ==> now.conversation_max_turns == v)
        }),
{
}

/// A setting of the sampling is sent only while it is switched on, held to its range; what the
/// API section holds besides is left alone.
pub proof fn law_switched_off_setting_is_not_sent(
    optional: OptionalApi,
    api: ApiConfig,
    after: ApiConfig,
)
    requires
        optional.merged(api, after),
    ensures
        after.temperature is Some == optional.temperature_on,
        after.top_p is Some == optional.top_p_on,
        after.max_tokens is Some == optional.max_tokens_on,
        !optional.reasoning_on ==> after.reasoning_effort is None,
        optional.reasoning_on && trim(optional.reasoning@).len() > 0
            ==> after.reasoning_effort is Some && after.reasoning_effort->0@ == trim(
            optional.reasoning@,
        ),
        after.temperature is Some && !optional.temperature.nan() ==> 0
            <= after.temperature->0.rank() <= 0x4000_0000,
        after.top_p is Some && !optional.top_p.nan() ==> 0 <= after.top_p->0.rank()
            <= 0x3F80_0000,
        after.max_tokens is Some ==> 1 <= after.max_tokens->0 <= 1_000_000,
        after.max_tokens is Some && 1 <= optional.max_tokens <= 1_000_000 ==> after.max_tokens->0
            == optional.max_tokens,
        after.model == api.model,
        after.provider == api.provider,
        after.base_url == api.base_url,
        after.api_key == api.api_key,
        after.request_timeout_secs == api.request_timeout_secs,
{
}

/// A colour that cannot be read changes nothing; one that can is used.
pub proof fn law_unreadable_colour_is_not_used(text: Seq<char>, before: u32, colour: u32)
    ensures
        argb_of(text) is None ==> colour_after(text, before) == before,
        argb_of(text) is Some ==> colour_after(text, before) == argb_of(text)->0,
        colour_after(argb_notation(colour), before) == colour,
{
    law_argb_round_trip(colour);
}

/// A form can be saved exactly when it has a model, an HTTP provider has an address, a reasoning
/// effort that is on is not blank, and the colours that are given can be read.
pub proof fn law_complete_form_can_be_saved(form: SettingsForm)
    ensures
        form.issue() is None <==> {
            &&& trim(form.draft.api.model@).len() > 0
            &&& form.draft.api.provider == ModelProvider::OpenaiCompatible ==> trim(
                form.draft.api.base_url@,
            ).len() > 0
            &&& form.optional.reasoning_on ==> trim(form.optional.reasoning@).len() > 0
            &&& trim(form.text_argb@).len() > 0 ==> argb_of(form.text_argb@) is Some
            &&& trim(form.background_argb@).len() > 0 ==> argb_of(form.background_argb@) is Some
        },
{
    crate::text::lemma_trim_is_tight(form.text_argb@);
    crate::text::lemma_trim_is_tight(form.background_argb@);
}

/// What a form stands for is its draft, with the sampling and the colours that it shows.
pub proof fn law_form_stands_for_its_draft(form: SettingsForm, config: AppConfig)
    requires
        form.stands_for(config),
    ensures
        config.ocr == form.draft.ocr,
        config.translation == form.draft.translation,
        config.capture == form.draft.capture,
        config.api.model == form.draft.api.model,
        config.api.provider == form.draft.api.provider,
        config.api.base_url == form.draft.api.base_url,
        config.overlay.enabled == form.draft.overlay.enabled,
        config.overlay.reader_enabled == form.draft.overlay.reader_enabled,
        config.overlay.reader_font_px == form.draft.overlay.reader_font_px,
        argb_of(form.text_argb@) matches Some(c) ==> config.overlay.text_color_argb == c,
        argb_of(form.background_argb@) matches Some(c) ==> config.overlay.background_color_argb
            == c,
{
}

} // verus!
