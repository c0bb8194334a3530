//! Application configuration: the settings of every page, their defaults and their limits.

use crate::scalar::Scalar;
use crate::text::{chars_of, end_of, owned, start_of, trim};
use crate::types::ModelTier;
use vstd::prelude::*;

verus! {

/// How the translator reaches a model.
#[derive(Clone, Copy, Debug, PartialEq, Eq, Structural)]
pub enum ModelProvider {
    /// OpenAI-compatible HTTP chat completions or Responses API.
    OpenaiCompatible,
    /// Local Grok Build CLI over ACP stdio (`grok agent stdio`).
    GrokCli,
    /// Local OpenCode CLI over ACP stdio (`opencode acp`).
    OpenCodeCli,
    /// Local Codex CLI over app-server stdio (`codex app-server`).
    CodexCli,
}

impl Default for ModelProvider {
    fn default() -> (r: Self)
        ensures
            r == ModelProvider::OpenaiCompatible,
    {
        ModelProvider::OpenaiCompatible
    }
}

/// HTTP wire format when [`ModelProvider::OpenaiCompatible`] is selected.
#[derive(Clone, Copy, Debug, PartialEq, Eq, Structural)]
pub enum HttpApi {
    ChatCompletions,
    Responses,
}

impl Default for HttpApi {
    fn default() -> (r: Self)
        ensures
            r == HttpApi::ChatCompletions,
    {
        HttpApi::ChatCompletions
    }
}

/// Preferred processing tier when the selected provider supports one.
#[derive(Clone, Copy, Debug, PartialEq, Eq, Structural)]
pub enum ServiceTier {
    Standard,
    Priority,
}

impl Default for ServiceTier {
    fn default() -> (r: Self)
        ensures
            r == ServiceTier::Standard,
    {
        ServiceTier::Standard
    }
}

impl ModelProvider {
    /// Every provider but the HTTP one runs a local command.
    pub open spec fn cli(self) -> bool {
        self != ModelProvider::OpenaiCompatible
    }

    /// True for providers that run a local command.
    pub fn is_cli(self) -> (r: bool)
        ensures
            r == self.cli(),
    {
        match self {
            ModelProvider::OpenaiCompatible => false,
            ModelProvider::GrokCli | ModelProvider::OpenCodeCli | ModelProvider::CodexCli => true,
        }
    }

    /// Name of the command that the provider runs by default.
    pub open spec fn command(self) -> Seq<char> {
        match self {
            ModelProvider::OpenaiCompatible => ""@,
            ModelProvider::GrokCli => "grok"@,
            ModelProvider::OpenCodeCli => "opencode"@,
            ModelProvider::CodexCli => "codex"@,
        }
    }

    /// Default executable name when `cli_path` is empty.
    pub fn default_bin(self) -> (r: &'static str)
        ensures
            r@ == self.command(),
    {
        match self {
            ModelProvider::OpenaiCompatible => "",
            ModelProvider::GrokCli => "grok",
            ModelProvider::OpenCodeCli => "opencode",
            ModelProvider::CodexCli => "codex",
        }
    }
}

/// True when a flag has its default; flags of [`ApiConfig`] default to on.
pub fn is_true(value: &bool) -> (r: bool)
    ensures
        r == *value,
{
    *value
}

/// OpenAI-compatible API settings.
///
/// Optional sampling parameters are left out of requests when unset.
#[derive(Debug)]
pub struct ApiConfig {
    pub provider: ModelProvider,
    /// HTTP endpoint style. Ignored for CLI providers.
    pub http_api: HttpApi,
    /// Absolute path or bare command. Empty = look up the provider's command on PATH.
    pub cli_path: String,
    /// Preferred processing tier. Ignored by providers that do not support it.
    pub service_tier: ServiceTier,
    pub base_url: String,
    pub api_key: String,
    pub model: String,
    pub temperature: Option<Scalar>,
    pub top_p: Option<Scalar>,
    pub max_tokens: Option<u32>,
    pub reasoning_effort: Option<String>,
    /// Request JSON Schema Structured Outputs on HTTP OpenAI-compatible APIs.
    pub structured_outputs: bool,
    /// Request SSE streaming on HTTP OpenAI-compatible APIs.
    pub stream: bool,
    /// Replay assistant `reasoning_content` on follow-up Chat Completions turns.
    pub send_reasoning_content: bool,
    /// Idle timeout for HTTP reads / CLI prompts (seconds). 0 = no limit.
    pub request_timeout_secs: u64,
    /// Extra attempts after the first failure (0 = try once only).
    pub max_retries: u32,
    /// Base backoff between retries in milliseconds (doubles each attempt).
    pub retry_backoff_ms: u64,
}

impl Clone for ApiConfig {
    fn clone(&self) -> (r: Self)
        ensures
            r == *self,
    {
        ApiConfig {
            provider: self.provider,
            http_api: self.http_api,
            cli_path: self.cli_path.clone(),
            service_tier: self.service_tier,
            base_url: self.base_url.clone(),
            api_key: self.api_key.clone(),
            model: self.model.clone(),
            temperature: self.temperature,
            top_p: self.top_p,
            max_tokens: self.max_tokens,
            reasoning_effort: self.reasoning_effort.clone(),
            structured_outputs: self.structured_outputs,
            stream: self.stream,
            send_reasoning_content: self.send_reasoning_content,
            request_timeout_secs: self.request_timeout_secs,
            max_retries: self.max_retries,
            retry_backoff_ms: self.retry_backoff_ms,
        }
    }
}

impl ApiConfig {
    /// The settings of a fresh installation.
    pub open spec fn is_initial(self) -> bool {
        &&& self.provider == ModelProvider::OpenaiCompatible
        &&& self.http_api == HttpApi::ChatCompletions
        &&& self.cli_path@ == ""@
        &&& self.service_tier == ServiceTier::Standard
        &&& self.base_url@ == "https://localhost/v1"@
        &&& self.api_key@ == ""@
        &&& self.model@ == "gptoss"@
        &&& self.temperature is None
        &&& self.top_p is None
        &&& self.max_tokens is None
        &&& self.reasoning_effort is None
        &&& self.structured_outputs
        &&& self.stream
        &&& self.send_reasoning_content
        &&& self.request_timeout_secs == 60
        &&& self.max_retries == 2
        &&& self.retry_backoff_ms == 500
    }

    /// `self` holds what `before` held, without the fields that its provider does not use.
    pub open spec fn blanked_from(self, before: ApiConfig) -> bool {
        let cli = before.provider.cli();
        &&& self.provider == before.provider
        &&& self.http_api == if cli {
            HttpApi::ChatCompletions
        } else {
            before.http_api
        }
        &&& self.cli_path@ == if cli {
            before.cli_path@
        } else {
            Seq::empty()
        }
        &&& self.service_tier == if before.provider == ModelProvider::CodexCli {
            before.service_tier
        } else {
            ServiceTier::Standard
        }
        &&& self.base_url@ == if cli {
            Seq::empty()
        } else {
            before.base_url@
        }
        &&& self.api_key@ == if cli {
            Seq::empty()
        } else {
            before.api_key@
        }
        &&& self.structured_outputs == (cli || before.structured_outputs)
        &&& self.stream == (cli || before.stream)
        &&& self.send_reasoning_content == (cli || before.send_reasoning_content)
        &&& self.model == before.model
        &&& self.temperature == before.temperature
        &&& self.top_p == before.top_p
        &&& self.max_tokens == before.max_tokens
        &&& self.reasoning_effort == before.reasoning_effort
        &&& self.request_timeout_secs == before.request_timeout_secs
        &&& self.max_retries == before.max_retries
        &&& self.retry_backoff_ms == before.retry_backoff_ms
    }

    /// Clear fields the selected provider does not store on an API profile.
    ///
    /// `base_url` is emptied, not replaced with the localhost default, so it is left out of the
    /// stored profile.
    pub fn blank_inapplicable(&mut self)
        ensures
            final(self).blanked_from(*old(self)),
    {
        if self.provider.is_cli() {
            self.http_api = HttpApi::ChatCompletions;
            self.base_url = String::new();
            self.api_key = String::new();
            self.structured_outputs = true;
            self.stream = true;
            self.send_reasoning_content = true;
        } else {
            self.cli_path = String::new();
        }
        match self.provider {
            ModelProvider::CodexCli => {},
            _ => {
                self.service_tier = ServiceTier::Standard;
            },
        }
    }

    /// Equal settings, numbers compared as numbers.
    pub open spec fn same(self, other: ApiConfig) -> bool {
        &&& self.provider == other.provider
        &&& self.http_api == other.http_api
        &&& self.cli_path@ == other.cli_path@
        &&& self.service_tier == other.service_tier
        &&& self.base_url@ == other.base_url@
        &&& self.api_key@ == other.api_key@
        &&& self.model@ == other.model@
        &&& same_optional_number(self.temperature, other.temperature)
        &&& same_optional_number(self.top_p, other.top_p)
        &&& self.max_tokens == other.max_tokens
        &&& same_optional_text(self.reasoning_effort, other.reasoning_effort)
        &&& self.structured_outputs == other.structured_outputs
        &&& self.stream == other.stream
        &&& self.send_reasoning_content == other.send_reasoning_content
        &&& self.request_timeout_secs == other.request_timeout_secs
        &&& self.max_retries == other.max_retries
        &&& self.retry_backoff_ms == other.retry_backoff_ms
    }

    /// True when both hold the same settings.
    pub fn same_settings(&self, other: &ApiConfig) -> (r: bool)
        ensures
            r == self.same(*other),
    {
        self.provider == other.provider && self.http_api == other.http_api && self.cli_path
            == other.cli_path && self.service_tier == other.service_tier && self.base_url
            == other.base_url && self.api_key == other.api_key && self.model == other.model
            && equal_optional_number(self.temperature, other.temperature) && equal_optional_number(
            self.top_p,
            other.top_p,
        ) && equal_optional_u32(self.max_tokens, other.max_tokens) && equal_optional_text(
            &self.reasoning_effort,
            &other.reasoning_effort,
        ) && self.structured_outputs == other.structured_outputs && self.stream == other.stream
            && self.send_reasoning_content == other.send_reasoning_content
            && self.request_timeout_secs == other.request_timeout_secs && self.max_retries
            == other.max_retries && self.retry_backoff_ms == other.retry_backoff_ms
    }
}

impl Default for ApiConfig {
    fn default() -> (r: Self)
        ensures
            r.is_initial(),
    {
        ApiConfig {
            provider: ModelProvider::OpenaiCompatible,
            http_api: HttpApi::ChatCompletions,
            cli_path: owned(""),
            service_tier: ServiceTier::Standard,
            base_url: owned("https://localhost/v1"),
            api_key: owned(""),
            model: owned("gptoss"),
            temperature: None,
            top_p: None,
            max_tokens: None,
            reasoning_effort: None,
            structured_outputs: true,
            stream: true,
            send_reasoning_content: true,
            request_timeout_secs: 60,
            max_retries: 2,
            retry_backoff_ms: 500,
        }
    }
}

/// Equal optional numbers.
pub open spec fn same_optional_number(a: Option<Scalar>, b: Option<Scalar>) -> bool {
    match (a, b) {
        (Some(x), Some(y)) => x.same(y),
        (None, None) => true,
        _ => false,
    }
}

/// Equal optional texts.
pub open spec fn same_optional_text(a: Option<String>, b: Option<String>) -> bool {
    match (a, b) {
        (Some(x), Some(y)) => x@ == y@,
        (None, None) => true,
        _ => false,
    }
}

fn equal_optional_number(a: Option<Scalar>, b: Option<Scalar>) -> (r: bool)
    ensures
        r == same_optional_number(a, b),
{
    match (a, b) {
        (Some(x), Some(y)) => x.same_number(y),
        (None, None) => true,
        _ => false,
    }
}

fn equal_optional_u32(a: Option<u32>, b: Option<u32>) -> (r: bool)
    ensures
        r == (a == b),
{
    match (a, b) {
        (Some(x), Some(y)) => x == y,
        (None, None) => true,
        _ => false,
    }
}

/// True when both are absent or hold the same characters.
pub fn equal_optional_text(a: &Option<String>, b: &Option<String>) -> (r: bool)
    ensures
        r == same_optional_text(*a, *b),
{
    match (a, b) {
        (Some(x), Some(y)) => *x == *y,
        (None, None) => true,
        _ => false,
    }
}

/// Clearing the fields that a provider does not use settles at once: doing it again changes
/// nothing.
pub proof fn law_blank_inapplicable_idempotent(before: ApiConfig, once: ApiConfig, twice: ApiConfig)
    requires
        once.blanked_from(before),
        twice.blanked_from(once),
    ensures
        twice.blanked_from(before),
        twice.http_api == once.http_api,
        twice.cli_path@ == once.cli_path@,
        twice.service_tier == once.service_tier,
        twice.base_url@ == once.base_url@,
        twice.api_key@ == once.api_key@,
        twice.structured_outputs == once.structured_outputs,
        twice.stream == once.stream,
        twice.send_reasoning_content == once.send_reasoning_content,
{
}

/// Smallest allowed translation-cache capacity.
pub const TRANSLATION_CACHE_MAX_MIN: usize = 1;

/// Default translation-cache capacity (session LFU).
pub const TRANSLATION_CACHE_MAX_DEFAULT: usize = 128;

/// Hard cap applied when reading config / constructing the cache.
pub const TRANSLATION_CACHE_MAX_CAP: usize = 8192;

/// Languages, history and cache.
#[derive(Debug)]
pub struct TranslationConfig {
    pub source_lang: String,
    pub target_lang: String,
    pub history_max_items: usize,
    pub conversation_max_turns: usize,
    /// Skip the API for OCR block texts already translated this session.
    pub cache_enabled: bool,
    /// Max unique source strings kept in the in-memory LFU cache.
    pub cache_max_entries: usize,
    pub system_prompt: Option<String>,
}

impl Clone for TranslationConfig {
    fn clone(&self) -> (r: Self)
        ensures
            r == *self,
    {
        TranslationConfig {
            source_lang: self.source_lang.clone(),
            target_lang: self.target_lang.clone(),
            history_max_items: self.history_max_items,
            conversation_max_turns: self.conversation_max_turns,
            cache_enabled: self.cache_enabled,
            cache_max_entries: self.cache_max_entries,
            system_prompt: self.system_prompt.clone(),
        }
    }
}

impl TranslationConfig {
    /// The settings of a fresh installation.
    pub open spec fn is_initial(self) -> bool {
        &&& self.source_lang@ == "auto"@
        &&& self.target_lang@ == "zh-TW"@
        &&& self.history_max_items == 8
        &&& self.conversation_max_turns == 20
        &&& self.cache_enabled
        &&& self.cache_max_entries == TRANSLATION_CACHE_MAX_DEFAULT
        &&& self.system_prompt is None
    }

    /// Cache capacity held to the allowed range.
    pub open spec fn cache_capacity(self) -> usize {
        if self.cache_max_entries < TRANSLATION_CACHE_MAX_MIN {
            TRANSLATION_CACHE_MAX_MIN
        } else if self.cache_max_entries > TRANSLATION_CACHE_MAX_CAP {
            TRANSLATION_CACHE_MAX_CAP
        } else {
            self.cache_max_entries
        }
    }

    /// Cache capacity clamped to `[TRANSLATION_CACHE_MAX_MIN, TRANSLATION_CACHE_MAX_CAP]`.
    pub fn cache_max_entries_clamped(&self) -> (r: usize)
        ensures
            r == self.cache_capacity(),
            TRANSLATION_CACHE_MAX_MIN <= r <= TRANSLATION_CACHE_MAX_CAP,
    {
        if self.cache_max_entries < TRANSLATION_CACHE_MAX_MIN {
            TRANSLATION_CACHE_MAX_MIN
        } else if self.cache_max_entries > TRANSLATION_CACHE_MAX_CAP {
            TRANSLATION_CACHE_MAX_CAP
        } else {
            self.cache_max_entries
        }
    }

    /// Equal settings.
    pub open spec fn same(self, other: TranslationConfig) -> bool {
        &&& self.source_lang@ == other.source_lang@
        &&& self.target_lang@ == other.target_lang@
        &&& self.history_max_items == other.history_max_items
        &&& self.conversation_max_turns == other.conversation_max_turns
        &&& self.cache_enabled == other.cache_enabled
        &&& self.cache_max_entries == other.cache_max_entries
        &&& same_optional_text(self.system_prompt, other.system_prompt)
    }

    /// True when both hold the same settings.
    pub fn same_settings(&self, other: &TranslationConfig) -> (r: bool)
        ensures
            r == self.same(*other),
    {
        self.source_lang == other.source_lang && self.target_lang == other.target_lang
            && self.history_max_items == other.history_max_items && self.conversation_max_turns
            == other.conversation_max_turns && self.cache_enabled == other.cache_enabled
            && self.cache_max_entries == other.cache_max_entries && equal_optional_text(
            &self.system_prompt,
            &other.system_prompt,
        )
    }
}

impl Default for TranslationConfig {
    fn default() -> (r: Self)
        ensures
            r.is_initial(),
    {
        TranslationConfig {
            source_lang: owned("auto"),
            target_lang: owned("zh-TW"),
            history_max_items: 8,
            conversation_max_turns: 20,
            cache_enabled: true,
            cache_max_entries: TRANSLATION_CACHE_MAX_DEFAULT,
            system_prompt: None,
        }
    }
}

/// Reading order when joining lines inside a merged block.
#[derive(Clone, Copy, Debug, PartialEq, Eq, Structural)]
pub enum LineMergeOrder {
    /// Down each column, then the next column to the right (column-major).
    TopToBottomLeftToRight,
    /// Across each row left-to-right, then the next row down (row-major).
    LeftToRightTopToBottom,
}

impl Default for LineMergeOrder {
    fn default() -> (r: Self)
        ensures
            r == LineMergeOrder::LeftToRightTopToBottom,
    {
        LineMergeOrder::LeftToRightTopToBottom
    }
}

/// Tunable multi-line OCR merge (geometry + join style).
///
/// Distance thresholds are fractions of the full capture frame. Shape comparisons stay
/// box-to-box.
#[derive(Clone, Copy, Debug, PartialEq, Eq, Structural)]
pub struct LineMergeConfig {
    /// Master switch. `false` keeps every OCR line as its own block.
    pub enabled: bool,
    /// When hand-drawn OCR regions exist, join every line in each region.
    pub merge_whole_region: bool,
    /// Join order inside a merged group.
    pub order: LineMergeOrder,
    /// Allowed `|vertical gap|` as a fraction of frame height.
    pub gap_ratio: Scalar,
    /// Allowed `|horizontal gap|` as a fraction of frame width.
    pub horizontal_gap_ratio: Scalar,
    /// Edge or center delta, as a fraction of the frame, that counts as aligned.
    pub align_ratio: Scalar,
    /// Allowed `|h1 − h2| / larger(h)` to treat lines as the same size.
    pub height_delta_ratio: Scalar,
    /// Row / column banding as a fraction of frame height / width.
    pub order_band_ratio: Scalar,
    /// Lower counts as below if `top + height × this ≥` the upper vertical mid.
    pub below_mid_ratio: Scalar,
    /// When true, do not glue a shorter upper line onto a much wider line below.
    pub reject_short_long: bool,
    /// A shorter upper line stays separate if `(w_lower − w_upper) / w_lower` is at least this.
    pub width_delta_ratio: Scalar,
    /// Insert a space between joined lines (`false` concatenates).
    pub join_with_space: bool,
}

impl LineMergeConfig {
    /// The settings of a fresh installation: ratios 0.015, 0.015, 0.012, 0.45, 0.012, 0.25 and
    /// 0.25.
    pub open spec fn is_initial(self) -> bool {
        &&& self.enabled
        &&& !self.merge_whole_region
        &&& self.order == LineMergeOrder::LeftToRightTopToBottom
        &&& self.gap_ratio.bits == 0x3C75_C28F
        &&& self.horizontal_gap_ratio.bits == 0x3C75_C28F
        &&& self.align_ratio.bits == 0x3C44_9BA6
        &&& self.height_delta_ratio.bits == 0x3EE6_6666
        &&& self.order_band_ratio.bits == 0x3C44_9BA6
        &&& self.below_mid_ratio.bits == 0x3E80_0000
        &&& self.reject_short_long
        &&& self.width_delta_ratio.bits == 0x3E80_0000
        &&& self.join_with_space
    }

    /// Equal settings, numbers compared as numbers.
    pub open spec fn same(self, other: LineMergeConfig) -> bool {
        &&& self.enabled == other.enabled
        &&& self.merge_whole_region == other.merge_whole_region
        &&& self.order == other.order
        &&& self.gap_ratio.same(other.gap_ratio)
        &&& self.horizontal_gap_ratio.same(other.horizontal_gap_ratio)
        &&& self.align_ratio.same(other.align_ratio)
        &&& self.height_delta_ratio.same(other.height_delta_ratio)
        &&& self.order_band_ratio.same(other.order_band_ratio)
        &&& self.below_mid_ratio.same(other.below_mid_ratio)
        &&& self.reject_short_long == other.reject_short_long
        &&& self.width_delta_ratio.same(other.width_delta_ratio)
        &&& self.join_with_space == other.join_with_space
    }

    /// True when both hold the same settings.
    pub fn same_settings(&self, other: &LineMergeConfig) -> (r: bool)
        ensures
            r == self.same(*other),
    {
        self.enabled == other.enabled && self.merge_whole_region == other.merge_whole_region
            && self.order == other.order && self.gap_ratio.same_number(other.gap_ratio)
            && self.horizontal_gap_ratio.same_number(other.horizontal_gap_ratio)
            && self.align_ratio.same_number(other.align_ratio)
            && self.height_delta_ratio.same_number(other.height_delta_ratio)
            && self.order_band_ratio.same_number(other.order_band_ratio)
            && self.below_mid_ratio.same_number(other.below_mid_ratio) && self.reject_short_long
            == other.reject_short_long && self.width_delta_ratio.same_number(
            other.width_delta_ratio,
        ) && self.join_with_space == other.join_with_space
    }
}

impl Default for LineMergeConfig {
    fn default() -> (r: Self)
        ensures
            r.is_initial(),
    {
        LineMergeConfig {
            enabled: true,
            merge_whole_region: false,
            order: LineMergeOrder::LeftToRightTopToBottom,
            // ~16px on 1080p: below typical UI list pitch, above wrap leading.
            gap_ratio: Scalar { bits: 0x3C75_C28F },
            // ~29px on 1920: side-by-side neighbors in the same row.
            horizontal_gap_ratio: Scalar { bits: 0x3C75_C28F },
            align_ratio: Scalar { bits: 0x3C44_9BA6 },
            height_delta_ratio: Scalar { bits: 0x3EE6_6666 },
            order_band_ratio: Scalar { bits: 0x3C44_9BA6 },
            below_mid_ratio: Scalar { bits: 0x3E80_0000 },
            reject_short_long: true,
            width_delta_ratio: Scalar { bits: 0x3E80_0000 },
            join_with_space: true,
        }
    }
}

/// Detection, filtering and timing of OCR.
#[derive(Debug)]
pub struct OcrConfig {
    /// PP-OCRv6 tier: tiny | small | medium
    pub model_tier: ModelTier,
    /// Directory for model files (relative to exe dir unless absolute).
    pub models_dir: String,
    pub confidence_threshold: Scalar,
    /// Page-level: wait this long with unchanged OCR before translating.
    pub stable_duration_ms: u64,
    /// If OCR content keeps changing, force-translate after this many ms anyway. 0 = off.
    pub max_unstable_ms: u64,
    /// Drop single ASCII letter/digit OCR hits (e.g. "0", "V", "C").
    pub filter_single_char: bool,
    /// Per-block: text must stay at roughly the same place this long before emit. 0 = disabled.
    pub block_persist_ms: u64,
    /// Forget a track if it is missing from frames longer than this.
    pub block_max_miss_ms: u64,
    /// Multi-line / paragraph merge heuristics.
    pub line_merge: LineMergeConfig,
}

impl Clone for OcrConfig {
    fn clone(&self) -> (r: Self)
        ensures
            r == *self,
    {
        OcrConfig {
            model_tier: self.model_tier,
            models_dir: self.models_dir.clone(),
            confidence_threshold: self.confidence_threshold,
            stable_duration_ms: self.stable_duration_ms,
            max_unstable_ms: self.max_unstable_ms,
            filter_single_char: self.filter_single_char,
            block_persist_ms: self.block_persist_ms,
            block_max_miss_ms: self.block_max_miss_ms,
            line_merge: self.line_merge,
        }
    }
}

impl OcrConfig {
    /// The settings of a fresh installation; confidence threshold 0.8.
    pub open spec fn is_initial(self) -> bool {
        &&& self.model_tier == ModelTier::Small
        &&& self.models_dir@ == "models"@
        &&& self.confidence_threshold.bits == 0x3F4C_CCCD
        &&& self.stable_duration_ms == 500
        &&& self.max_unstable_ms == 1000
        &&& self.filter_single_char
        &&& self.block_persist_ms == 500
        &&& self.block_max_miss_ms == 750
        &&& self.line_merge.is_initial()
    }

    /// Equal settings, numbers compared as numbers.
    pub open spec fn same(self, other: OcrConfig) -> bool {
        &&& self.model_tier == other.model_tier
        &&& self.models_dir@ == other.models_dir@
        &&& self.confidence_threshold.same(other.confidence_threshold)
        &&& self.stable_duration_ms == other.stable_duration_ms
        &&& self.max_unstable_ms == other.max_unstable_ms
        &&& self.filter_single_char == other.filter_single_char
        &&& self.block_persist_ms == other.block_persist_ms
        &&& self.block_max_miss_ms == other.block_max_miss_ms
        &&& self.line_merge.same(other.line_merge)
    }

    /// True when both hold the same settings.
    pub fn same_settings(&self, other: &OcrConfig) -> (r: bool)
        ensures
            r == self.same(*other),
    {
        self.model_tier == other.model_tier && self.models_dir == other.models_dir
            && self.confidence_threshold.same_number(other.confidence_threshold)
            && self.stable_duration_ms == other.stable_duration_ms && self.max_unstable_ms
            == other.max_unstable_ms && self.filter_single_char == other.filter_single_char
            && self.block_persist_ms == other.block_persist_ms && self.block_max_miss_ms
            == other.block_max_miss_ms && self.line_merge.same_settings(&other.line_merge)
    }
}

impl Default for OcrConfig {
    fn default() -> (r: Self)
        ensures
            r.is_initial(),
    {
        OcrConfig {
            model_tier: ModelTier::Small,
            models_dir: owned("models"),
            confidence_threshold: Scalar { bits: 0x3F4C_CCCD },
            stable_duration_ms: 500,
            max_unstable_ms: 1000,
            filter_single_char: true,
            block_persist_ms: 500,
            block_max_miss_ms: 750,
            line_merge: LineMergeConfig::default(),
        }
    }
}

/// Capture pacing.
#[derive(Clone, Copy, Debug, PartialEq, Eq, Structural)]
pub struct CaptureConfig {
    pub min_interval_ms: u64,
}

impl Default for CaptureConfig {
    fn default() -> (r: Self)
        ensures
            r.min_interval_ms == 250,
    {
        CaptureConfig { min_interval_ms: 250 }
    }
}

/// Smallest translation-window font (CreateFont cell height).
pub const READER_FONT_PX_MIN: u32 = 8;

/// Largest translation-window font.
pub const READER_FONT_PX_MAX: u32 = 72;

/// Default translation-window font.
pub const READER_FONT_PX_DEFAULT: u32 = 20;

/// Overlay and translation-window display.
#[derive(Clone, Copy, Debug, PartialEq, Eq, Structural)]
pub struct OverlayConfig {
    /// Draw the click-through overlay on the capture target.
    pub enabled: bool,
    /// Show the independent always-on-top translation window.
    pub reader_enabled: bool,
    /// Translation-window font size in pixels (Segoe UI). Clamped when applied.
    pub reader_font_px: u32,
    /// Text colour including alpha (`#AARRGGBB` in config.toml).
    pub text_color_argb: u32,
    /// Box fill colour including alpha (`#AARRGGBB` in config.toml).
    pub background_color_argb: u32,
}

impl Default for OverlayConfig {
    fn default() -> (r: Self)
        ensures
            r.enabled,
            r.reader_enabled,
            r.reader_font_px == READER_FONT_PX_DEFAULT,
            r.text_color_argb == 0xFFFF_FFFF,
            r.background_color_argb == 0xC800_0000,
    {
        OverlayConfig {
            enabled: true,
            reader_enabled: true,
            reader_font_px: READER_FONT_PX_DEFAULT,
            text_color_argb: 0xFFFF_FFFF,
            background_color_argb: 0xC800_0000,
        }
    }
}

impl OverlayConfig {
    /// Font size used by the translation window (clamped).
    pub fn reader_font_px_clamped(&self) -> (r: i32)
        ensures
            r == if self.reader_font_px < READER_FONT_PX_MIN {
                READER_FONT_PX_MIN as int
            } else if self.reader_font_px > READER_FONT_PX_MAX {
                READER_FONT_PX_MAX as int
            } else {
                self.reader_font_px as int
            },
    {
        if self.reader_font_px < READER_FONT_PX_MIN {
            READER_FONT_PX_MIN as i32
        } else if self.reader_font_px > READER_FONT_PX_MAX {
            READER_FONT_PX_MAX as i32
        } else {
            self.reader_font_px as i32
        }
    }
}

/// Root application configuration.
#[derive(Debug)]
pub struct AppConfig {
    pub api: ApiConfig,
    pub translation: TranslationConfig,
    pub ocr: OcrConfig,
    pub capture: CaptureConfig,
    pub overlay: OverlayConfig,
}

impl Clone for AppConfig {
    fn clone(&self) -> (r: Self)
        ensures
            r == *self,
    {
        AppConfig {
            api: self.api.clone(),
            translation: self.translation.clone(),
            ocr: self.ocr.clone(),
            capture: self.capture,
            overlay: self.overlay,
        }
    }
}

impl AppConfig {
    /// Equal settings, numbers compared as numbers.
    pub open spec fn same(self, other: AppConfig) -> bool {
        &&& self.api.same(other.api)
        &&& self.translation.same(other.translation)
        &&& self.ocr.same(other.ocr)
        &&& self.capture == other.capture
        &&& self.overlay == other.overlay
    }

    /// True when both hold the same settings.
    pub fn same_settings(&self, other: &AppConfig) -> (r: bool)
        ensures
            r == self.same(*other),
    {
        self.api.same_settings(&other.api) && self.translation.same_settings(&other.translation)
            && self.ocr.same_settings(&other.ocr) && self.capture == other.capture && self.overlay
            == other.overlay
    }
}

impl Default for AppConfig {
    fn default() -> (r: Self)
        ensures
            r.api.is_initial(),
            r.translation.is_initial(),
            r.ocr.is_initial(),
            r.capture.min_interval_ms == 250,
            r.overlay.enabled,
            r.overlay.reader_enabled,
            r.overlay.reader_font_px == READER_FONT_PX_DEFAULT,
            r.overlay.text_color_argb == 0xFFFF_FFFF,
            r.overlay.background_color_argb == 0xC800_0000,
    {
        AppConfig {
            api: ApiConfig::default(),
            translation: TranslationConfig::default(),
            ocr: OcrConfig::default(),
            capture: CaptureConfig::default(),
            overlay: OverlayConfig::default(),
        }
    }
}

/// One hexadecimal digit, upper case.
pub open spec fn hex_digit(d: nat) -> char {
    if d < 10 {
        (48 + d) as char
    } else {
        (55 + d) as char
    }
}

/// The lowest `k` hexadecimal digits of `n`, highest first.
pub open spec fn hex_digits(n: nat, k: nat) -> Seq<char>
    decreases k,
{
    if k == 0 {
        Seq::empty()
    } else {
        hex_digits(n / 16, (k - 1) as nat).push(hex_digit(n % 16))
    }
}

/// Colour notation `#AARRGGBB`.
pub open spec fn argb_notation(argb: u32) -> Seq<char> {
    seq!['#'] + hex_digits(argb as nat, 8)
}

/// Value of a hexadecimal digit of either case.
pub open spec fn hex_value(c: char) -> Option<nat> {
    if 48 <= c as u32 <= 57 {
        Some((c as u32 - 48) as nat)
    } else if 65 <= c as u32 <= 70 {
        Some((c as u32 - 55) as nat)
    } else if 97 <= c as u32 <= 102 {
        Some((c as u32 - 87) as nat)
    } else {
        None
    }
}

/// Value of a text made of hexadecimal digits.
pub open spec fn hex_number(s: Seq<char>) -> Option<nat>
    decreases s.len(),
{
    if s.len() == 0 {
        Some(0)
    } else {
        match (hex_number(s.drop_last()), hex_value(s.last())) {
            (Some(n), Some(d)) => Some(n * 16 + d),
            _ => None,
        }
    }
}

/// Colour that a text in `#AARRGGBB` notation stands for, surrounding space allowed.
pub open spec fn argb_of(s: Seq<char>) -> Option<u32> {
    let t = trim(s);
    if t.len() == 9 && t[0] == '#' {
        match hex_number(t.skip(1)) {
            Some(n) => Some(n as u32),
            None => None,
        }
    } else {
        None
    }
}

fn hex_char(d: u32) -> (r: char)
    requires
        d < 16,
    ensures
        r == hex_digit(d as nat),
{
    match d {
        0 => '0',
        1 => '1',
        2 => '2',
        3 => '3',
        4 => '4',
        5 => '5',
        6 => '6',
        7 => '7',
        8 => '8',
        9 => '9',
        10 => 'A',
        11 => 'B',
        12 => 'C',
        13 => 'D',
        14 => 'E',
        _ => 'F',
    }
}

fn push_hex(out: &mut String, n: u32, k: u32)
    ensures
        final(out)@ == old(out)@ + hex_digits(n as nat, k as nat),
    decreases k,
{
    if k > 0 {
        push_hex(out, n / 16, k - 1);
        out.push(hex_char(n % 16));
    }
    assert(out@ =~= old(out)@ + hex_digits(n as nat, k as nat));
}

/// Format ARGB as `"#AARRGGBB"`.
pub fn format_argb_hex(argb: u32) -> (r: String)
    ensures
        r@ == argb_notation(argb),
{
    let mut out: String = String::new();
    out.push('#');
    push_hex(&mut out, argb, 8);
    assert(out@ =~= argb_notation(argb));
    out
}

fn hex_char_value(c: char) -> (r: Option<u32>)
    ensures
        match r {
            Some(d) => hex_value(c) == Some(d as nat) && d < 16,
            None => hex_value(c) is None,
        },
{
    let u: u32 = c as u32;
    if 48 <= u && u <= 57 {
        Some(u - 48)
    } else if 65 <= u && u <= 70 {
        Some(u - 55)
    } else if 97 <= u && u <= 102 {
        Some(u - 87)
    } else {
        None
    }
}

proof fn lemma_hex_number_bound(s: Seq<char>)
    ensures
        hex_number(s) matches Some(n) ==> n < vstd::arithmetic::power2::pow2(4 * s.len()),
    decreases s.len(),
{
    vstd::arithmetic::power2::lemma2_to64();
    if s.len() > 0 {
        lemma_hex_number_bound(s.drop_last());
        vstd::arithmetic::power2::lemma_pow2_adds(
            (4 * s.drop_last().len()) as nat,
            4,
        );
        assert(4 * s.drop_last().len() + 4 == 4 * s.len());
    }
}

/// Parse `"#AARRGGBB"` (optional surrounding space; hex digits case-insensitive).
pub fn parse_argb_hex(s: &str) -> (r: Option<u32>)
    ensures
        r == argb_of(s@),
{
    let chars: Vec<char> = chars_of(s);
    let from: usize = start_of(&chars);
    let to: usize = end_of(&chars, from);
    let ghost t = trim(s@);
    assert(t =~= chars@.subrange(from as int, to as int));
    if to - from != 9 || chars[from] != '#' {
        return None;
    }
    let ghost digits = t.skip(1);
    let mut n: u32 = 0;
    let mut i: usize = 0;
    assert(digits.take(0) =~= Seq::<char>::empty());
    while i < 8
        invariant
            i <= 8,
            from + 9 == to,
            to <= chars@.len(),
            t == chars@.subrange(from as int, to as int),
            digits == t.skip(1),
            digits.len() == 8,
            hex_number(digits.take(i as int)) == Some(n as nat),
            t == trim(s@),
            t.len() == 9,
            t[0] == '#',
        decreases 8 - i,
    {
        assert(digits[i as int] == chars@[from + 1 + i]);
        assert(digits.take(i + 1).drop_last() =~= digits.take(i as int));
        assert(digits.take(i + 1).last() == digits[i as int]);
        proof {
            lemma_hex_number_bound(digits.take(i as int));
            vstd::arithmetic::power2::lemma2_to64();
            vstd::arithmetic::power2::lemma2_to64_rest();
            if i < 7 {
                vstd::arithmetic::power2::lemma_pow2_strictly_increases((4 * i) as nat, 28);
            }
        }
        match hex_char_value(chars[from + 1 + i]) {
            Some(d) => {
                assert(n < 0x1000_0000);
                n = n * 16 + d;
            },
            None => {
                proof {
                    lemma_no_number(digits, i as int);
                }
                return None;
            },
        }
        i = i + 1;
    }
    assert(digits.take(8) =~= digits);
    Some(n)
}

proof fn lemma_no_number(s: Seq<char>, i: int)
    requires
        0 <= i < s.len(),
        hex_value(s[i]) is None,
    ensures
        hex_number(s) is None,
    decreases s.len(),
{
    if i < s.len() - 1 {
        lemma_no_number(s.drop_last(), i);
    }
}

/// Every colour survives being written and read back.
pub proof fn law_argb_round_trip(argb: u32)
    ensures
        argb_of(argb_notation(argb)) == Some(argb),
{
    let t = argb_notation(argb);
    vstd::arithmetic::power2::lemma2_to64();
    lemma_hex_digits_number(argb as nat, 8);
    lemma_hex_digits_plain(argb as nat, 8);
    let d = hex_digits(argb as nat, 8);
    assert(t.skip(1) =~= d);
    assert(t[0] == '#');
    assert(t.last() == d.last());
    assert(!crate::text::is_space(t[0]));
    assert(!crate::text::is_space(t.last()));
    assert(trim(t) == t);
}

proof fn lemma_hex_digits_plain(n: nat, k: nat)
    ensures
        hex_digits(n, k).len() == k,
        k > 0 ==> !crate::text::is_space(hex_digits(n, k).last()),
    decreases k,
{
    if k > 0 {
        lemma_hex_digits_plain(n / 16, (k - 1) as nat);
    }
}

proof fn lemma_hex_digits_number(n: nat, k: nat)
    requires
        n < vstd::arithmetic::power2::pow2(4 * k),
    ensures
        hex_number(hex_digits(n, k)) == Some(n),
    decreases k,
{
    vstd::arithmetic::power2::lemma2_to64();
    if k > 0 {
        let j = (k - 1) as nat;
        vstd::arithmetic::power2::lemma_pow2_adds(4 * j, 4);
        assert(4 * j + 4 == 4 * k);
        assert(n / 16 < vstd::arithmetic::power2::pow2(4 * j));
        lemma_hex_digits_number(n / 16, j);
        let d = hex_digits(n, k);
        assert(d.drop_last() =~= hex_digits(n / 16, j));
        assert(d.last() == hex_digit(n % 16));
        assert(hex_value(hex_digit(n % 16)) == Some(n % 16));
    }
}

/// The capacity of the cache is what is configured, held between one and 8192.
pub proof fn law_cache_capacity_is_held_to_its_range(cfg: TranslationConfig)
    ensures
        1 <= cfg.cache_capacity() <= 8192,
        1 <= cfg.cache_max_entries <= 8192 ==> cfg.cache_capacity() == cfg.cache_max_entries,
        cfg.cache_max_entries == 0 ==> cfg.cache_capacity() == 1,
        cfg.cache_max_entries > 8192 ==> cfg.cache_capacity() == 8192,
{
}

/// A provider stores what it uses: a command has no address, no key and the plain HTTP settings,
/// and keeps its path; an HTTP provider keeps its address and key and has no path; only Codex
/// has a service tier. The model and its sampling are always kept.
pub proof fn law_provider_keeps_what_it_uses(before: ApiConfig, now: ApiConfig)
    requires
        now.blanked_from(before),
    ensures
        now.provider == before.provider,
        before.provider == ModelProvider::OpenaiCompatible ==> {
            &&& now.base_url@ == before.base_url@
            &&& now.api_key@ == before.api_key@
            &&& now.http_api == before.http_api
            &&& now.structured_outputs == before.structured_outputs
            &&& now.stream == before.stream
            &&& now.send_reasoning_content == before.send_reasoning_content
            &&& now.cli_path@.len() == 0
        },
        before.provider != ModelProvider::OpenaiCompatible ==> {
            &&& now.cli_path@ == before.cli_path@
            &&& now.base_url@.len() == 0
            &&& now.api_key@.len() == 0
            &&& now.http_api == HttpApi::ChatCompletions
            &&& now.structured_outputs
            &&& now.stream
            &&& now.send_reasoning_content
        },
        before.provider == ModelProvider::CodexCli ==> now.service_tier == before.service_tier,
        before.provider != ModelProvider::CodexCli ==> now.service_tier == ServiceTier::Standard,
        now.model == before.model,
        now.temperature == before.temperature,
        now.top_p == before.top_p,
        now.max_tokens == before.max_tokens,
        now.reasoning_effort == before.reasoning_effort,
        now.request_timeout_secs == before.request_timeout_secs,
        now.max_retries == before.max_retries,
        now.retry_backoff_ms == before.retry_backoff_ms,
{
}

/// Commands are run for every provider but the HTTP one, under their own names.
pub proof fn law_providers_run_their_commands()
    ensures
        !ModelProvider::OpenaiCompatible.cli(),
        ModelProvider::GrokCli.cli(),
        ModelProvider::OpenCodeCli.cli(),
        ModelProvider::CodexCli.cli(),
        ModelProvider::GrokCli.command() == "grok"@,
        ModelProvider::OpenCodeCli.command() == "opencode"@,
        ModelProvider::CodexCli.command() == "codex"@,
{
}

/// Every setting counts: configs are the same only if no setting differs.
pub proof fn law_every_api_setting_counts(a: ApiConfig, b: ApiConfig)
    ensures
        a.same(b) <==> {
            &&& a.provider == b.provider && a.http_api == b.http_api && a.cli_path@ == b.cli_path@
            &&& a.service_tier == b.service_tier && a.base_url@ == b.base_url@
            &&& a.api_key@ == b.api_key@ && a.model@ == b.model@
            &&& a.temperature is Some == b.temperature is Some
            &&& a.temperature is Some ==> a.temperature->0.same(b.temperature->0)
            &&& a.top_p is Some == b.top_p is Some
            &&& a.top_p is Some ==> a.top_p->0.same(b.top_p->0)
            &&& a.max_tokens == b.max_tokens
            &&& a.reasoning_effort is Some == b.reasoning_effort is Some
            &&& a.reasoning_effort is Some ==> a.reasoning_effort->0@ == b.reasoning_effort->0@
            &&& a.structured_outputs == b.structured_outputs && a.stream == b.stream
            &&& a.send_reasoning_content == b.send_reasoning_content
            &&& a.request_timeout_secs == b.request_timeout_secs
            &&& a.max_retries == b.max_retries && a.retry_backoff_ms == b.retry_backoff_ms
        },
{
}

/// Every setting of the translation counts.
pub proof fn law_every_translation_setting_counts(a: TranslationConfig, b: TranslationConfig)
    ensures
        a.same(b) <==> {
            &&& a.source_lang@ == b.source_lang@ && a.target_lang@ == b.target_lang@
            &&& a.history_max_items == b.history_max_items
            &&& a.conversation_max_turns == b.conversation_max_turns
            &&& a.cache_enabled == b.cache_enabled
            &&& a.cache_max_entries == b.cache_max_entries
            &&& a.system_prompt is Some == b.system_prompt is Some
            &&& a.system_prompt is Some ==> a.system_prompt->0@ == b.system_prompt->0@
        },
{
}

/// Every setting of the recognition counts.
pub proof fn law_every_ocr_setting_counts(a: OcrConfig, b: OcrConfig)
    ensures
        a.same(b) ==> {
            &&& a.model_tier == b.model_tier && a.models_dir@ == b.models_dir@
            &&& a.confidence_threshold.rank() == b.confidence_threshold.rank()
            &&& a.stable_duration_ms == b.stable_duration_ms
            &&& a.max_unstable_ms == b.max_unstable_ms
            &&& a.filter_single_char == b.filter_single_char
            &&& a.block_persist_ms == b.block_persist_ms
            &&& a.block_max_miss_ms == b.block_max_miss_ms
            &&& a.line_merge.enabled == b.line_merge.enabled
            &&& a.line_merge.merge_whole_region == b.line_merge.merge_whole_region
            &&& a.line_merge.order == b.line_merge.order
            &&& a.line_merge.gap_ratio.rank() == b.line_merge.gap_ratio.rank()
            &&& a.line_merge.horizontal_gap_ratio.rank()
                == b.line_merge.horizontal_gap_ratio.rank()
            &&& a.line_merge.align_ratio.rank() == b.line_merge.align_ratio.rank()
            &&& a.line_merge.height_delta_ratio.rank() == b.line_merge.height_delta_ratio.rank()
            &&& a.line_merge.order_band_ratio.rank() == b.line_merge.order_band_ratio.rank()
            &&& a.line_merge.below_mid_ratio.rank() == b.line_merge.below_mid_ratio.rank()
            &&& a.line_merge.reject_short_long == b.line_merge.reject_short_long
            &&& a.line_merge.width_delta_ratio.rank() == b.line_merge.width_delta_ratio.rank()
            &&& a.line_merge.join_with_space == b.line_merge.join_with_space
        },
{
}

/// A config is the same as another only in all of its parts.
pub proof fn law_every_part_counts(a: AppConfig, b: AppConfig)
    ensures
        a.same(b) <==> a.api.same(b.api) && a.translation.same(b.translation) && a.ocr.same(b.ocr)
            && a.capture == b.capture && a.overlay == b.overlay,
{
}

/// Hexadecimal digits of either case have the values zero to fifteen; nothing else is a digit.
pub proof fn law_hex_digits_have_their_values(c: char)
    ensures
        '0' <= c <= '9' ==> hex_value(c) == Some((c as int - '0' as int) as nat),
        'A' <= c <= 'F' ==> hex_value(c) == Some((c as int - 'A' as int + 10) as nat),
        'a' <= c <= 'f' ==> hex_value(c) == Some((c as int - 'a' as int + 10) as nat),
        !('0' <= c <= '9') && !('A' <= c <= 'F') && !('a' <= c <= 'f') ==> hex_value(c) is None,
{
}

/// A colour is read from exactly one hash and eight digits, whitespace around it aside.
pub proof fn law_colour_has_a_hash_and_eight_digits(s: Seq<char>)
    ensures
        argb_of(s) is Some ==> trim(s).len() == 9 && trim(s)[0] == '#' && forall|i: int|
            1 <= i < 9 ==> hex_value(#[trigger] trim(s)[i]) is Some,
        trim(s).len() != 9 ==> argb_of(s) is None,
        argb_of(s) == argb_of(trim(s)),
{
    crate::text::lemma_trim_is_tight(s);
    let t = trim(s).skip(1);
    if argb_of(s) is Some {
        lemma_hex_number_digits(t);
        assert forall|i: int| 1 <= i < 9 implies hex_value(#[trigger] trim(s)[i]) is Some by {
            assert(t[i - 1] == trim(s)[i]);
        }
    }
}

proof fn lemma_hex_number_digits(s: Seq<char>)
    requires
        hex_number(s) is Some,
    ensures
        forall|i: int| 0 <= i < s.len() ==> hex_value(#[trigger] s[i]) is Some,
    decreases s.len(),
{
    if s.len() > 0 {
        lemma_hex_number_digits(s.drop_last());
        assert forall|i: int| 0 <= i < s.len() implies hex_value(#[trigger] s[i]) is Some by {
            if i < s.len() - 1 {
                assert(s.drop_last()[i] == s[i]);
            }
        }
    }
}

} // verus!
