//! Settings pages: the cards of each page, with their texts, values and ranges.

use crate::config::{ApiConfig, ModelProvider, ServiceTier};
use crate::scalar::Scalar;
use crate::text::{decimal, owned, push_decimal};
use crate::ui::controls::{
    ColorPopupParams, ColorPopupView, OptionalTextParams, OptionalTextView,
};
use crate::ui::form::{
    http_index, http_position, order_index, order_position, provider_index, provider_position,
    tier_index, tier_position, SettingsForm,
};
use vstd::prelude::*;

verus! {

/// Bounds and step of a slider, in millionths.
#[derive(Debug, Clone, Copy, PartialEq, Eq, Structural)]
pub struct Range {
    pub min: u64,
    pub max: u64,
    pub step: u64,
}

/// Sets of exclusive choices.
#[derive(Debug, Clone, Copy, PartialEq, Eq, Structural)]
pub enum Choices {
    Provider,
    HttpApi,
    Tier,
    Order,
}

/// Control at the right of a card.
#[derive(Debug)]
pub enum Control {
    Choice { of: Choices, selected: usize },
    Text { value: String, placeholder: &'static str },
    /// Text that is hidden until revealed.
    Secret { value: String, revealed: bool },
    Toggle { on: bool },
    /// Slider and number box over whole numbers.
    Number { value: u64, range: Range },
    /// Slider and number box over fractions, shown as they are or in percent.
    Ratio { value: Scalar, percent: bool, range: Range },
    /// Fraction with a switch; off leaves the parameter out and keeps the value.
    OptionalRatio { value: Scalar, on: bool, range: Range },
    /// Number box with a switch.
    OptionalNumber { value: i64, on: bool, range: Range },
    Multiline { value: String, placeholder: &'static str },
    Button { label: &'static str, tip: &'static str, enabled: bool },
}

/// A control as a plain value.
pub enum ControlView {
    Choice { of: Choices, selected: usize },
    Text { value: Seq<char>, placeholder: Seq<char> },
    Secret { value: Seq<char>, revealed: bool },
    Toggle { on: bool },
    Number { value: int, range: Range },
    Ratio { value: Scalar, percent: bool, range: Range },
    OptionalRatio { value: Scalar, on: bool, range: Range },
    OptionalNumber { value: int, on: bool, range: Range },
    Multiline { value: Seq<char>, placeholder: Seq<char> },
    Button { label: Seq<char>, tip: Seq<char>, enabled: bool },
}

impl View for Control {
    type V = ControlView;

    open spec fn view(&self) -> ControlView {
        match *self {
            Control::Choice { of, selected } => ControlView::Choice { of, selected },
            Control::Text { value, placeholder } => ControlView::Text {
                value: value@,
                placeholder: placeholder@,
            },
            Control::Secret { value, revealed } => ControlView::Secret { value: value@, revealed },
            Control::Toggle { on } => ControlView::Toggle { on },
            Control::Number { value, range } => ControlView::Number { value: value as int, range },
            Control::Ratio { value, percent, range } => ControlView::Ratio {
                value,
                percent,
                range,
            },
            Control::OptionalRatio { value, on, range } => ControlView::OptionalRatio {
                value,
                on,
                range,
            },
            Control::OptionalNumber { value, on, range } => ControlView::OptionalNumber {
                value: value as int,
                on,
                range,
            },
            Control::Multiline { value, placeholder } => ControlView::Multiline {
                value: value@,
                placeholder: placeholder@,
            },
            Control::Button { label, tip, enabled } => ControlView::Button {
                label: label@,
                tip: tip@,
                enabled,
            },
        }
    }
}

/// A settings card: header and description at the left, control at the right.
#[derive(Debug)]
pub struct Card {
    pub key: &'static str,
    pub header: &'static str,
    pub description: String,
    pub control: Control,
}

/// A settings card as a plain value.
pub struct CardView {
    pub key: Seq<char>,
    pub header: Seq<char>,
    pub description: Seq<char>,
    pub control: ControlView,
}

impl View for Card {
    type V = CardView;

    open spec fn view(&self) -> CardView {
        CardView {
            key: self.key@,
            header: self.header@,
            description: self.description@,
            control: self.control@,
        }
    }
}

/// Something on a settings page.
#[derive(Debug)]
pub enum Item {
    Section(&'static str),
    Subsection(&'static str),
    Note(&'static str),
    Card(Card),
    OptionalText(OptionalTextParams),
    Color(ColorPopupParams),
}

/// Something on a settings page as a plain value.
pub enum ItemView {
    Section(Seq<char>),
    Subsection(Seq<char>),
    Note(Seq<char>),
    Card(CardView),
    OptionalText(OptionalTextView),
    Color(ColorPopupView),
}

impl View for Item {
    type V = ItemView;

    open spec fn view(&self) -> ItemView {
        match *self {
            Item::Section(t) => ItemView::Section(t@),
            Item::Subsection(t) => ItemView::Subsection(t@),
            Item::Note(t) => ItemView::Note(t@),
            Item::Card(c) => ItemView::Card(c@),
            Item::OptionalText(p) => ItemView::OptionalText(p@),
            Item::Color(p) => ItemView::Color(p@),
        }
    }
}

/// The items of a page as plain values.
pub open spec fn views(items: Seq<Item>) -> Seq<ItemView> {
    items.map_values(|i: Item| i@)
}

/// A card.
pub open spec fn card_view(
    key: Seq<char>,
    header: Seq<char>,
    description: Seq<char>,
    control: ControlView,
) -> ItemView {
    ItemView::Card(CardView { key, header, description, control })
}

fn push_item(items: &mut Vec<Item>, item: Item)
    ensures
        views(final(items)@) == views(old(items)@).push(item@),
{
    items.push(item);
    assert(views(items@) =~= views(old(items)@).push(item@));
}

fn push_card(
    items: &mut Vec<Item>,
    key: &'static str,
    header: &'static str,
    description: &str,
    control: Control,
)
    ensures
        views(final(items)@) == views(old(items)@).push(
            card_view(key@, header@, description@, control@),
        ),
{
    push_item(items, Item::Card(Card { key, header, description: owned(description), control }));
}

/// Label of a choice.
pub open spec fn label_of(of: Choices, choice: usize) -> Seq<char> {
    match of {
        Choices::Provider => match choice {
            0 => "OpenAI-compatible"@,
            1 => "Grok CLI"@,
            2 => "OpenCode CLI"@,
            _ => "Codex CLI"@,
        },
        Choices::HttpApi => if choice == 0 {
            "Chat Completions"@
        } else {
            "Responses"@
        },
        Choices::Tier => match choice {
            0 => "tiny"@,
            1 => "small"@,
            _ => "medium"@,
        },
        Choices::Order => if choice == 1 {
            "Left to right, then top to bottom (rows)"@
        } else {
            "Top to bottom, then left to right (columns)"@
        },
    }
}

/// Label of a choice.
pub fn choice_label(of: Choices, choice: usize) -> (r: &'static str)
    ensures
        r@ == label_of(of, choice),
{
    match of {
        Choices::Provider => match choice {
            0 => "OpenAI-compatible",
            1 => "Grok CLI",
            2 => "OpenCode CLI",
            _ => "Codex CLI",
        },
        Choices::HttpApi => if choice == 0 {
            "Chat Completions"
        } else {
            "Responses"
        },
        Choices::Tier => match choice {
            0 => "tiny",
            1 => "small",
            _ => "medium",
        },
        Choices::Order => if choice == 1 {
            "Left to right, then top to bottom (rows)"
        } else {
            "Top to bottom, then left to right (columns)"
        },
    }
}

/// Name of a provider.
pub fn provider_label(provider: ModelProvider) -> (r: &'static str)
    ensures
        r@ == label_of(Choices::Provider, provider_position(provider)),
{
    choice_label(Choices::Provider, provider_index(provider))
}

/// Positions of a choice, in the order they are offered: rows before columns, else ascending.
pub fn offered(of: Choices) -> (r: Vec<usize>)
    ensures
        r@ == match of {
            Choices::Provider => seq![0usize, 1, 2, 3],
            Choices::HttpApi => seq![0usize, 1],
            Choices::Tier => seq![0usize, 1, 2],
            Choices::Order => seq![1usize, 0],
        },
{
    match of {
        Choices::Provider => vec![0, 1, 2, 3],
        Choices::HttpApi => vec![0, 1],
        Choices::Tier => vec![0, 1, 2],
        Choices::Order => vec![1, 0],
    }
}

/// Model name shown while the field is empty.
pub open spec fn model_example(provider: ModelProvider) -> Seq<char> {
    match provider {
        ModelProvider::GrokCli => "grok-4.5"@,
        ModelProvider::OpenCodeCli => "opencode/gpt-5"@,
        ModelProvider::CodexCli => "gpt-5.6"@,
        ModelProvider::OpenaiCompatible => "gpt-4o-mini"@,
    }
}

fn example_of_model(provider: ModelProvider) -> (r: &'static str)
    ensures
        r@ == model_example(provider),
{
    match provider {
        ModelProvider::GrokCli => "grok-4.5",
        ModelProvider::OpenCodeCli => "opencode/gpt-5",
        ModelProvider::CodexCli => "gpt-5.6",
        ModelProvider::OpenaiCompatible => "gpt-4o-mini",
    }
}

/// Description of the model field.
pub open spec fn model_hint(provider: ModelProvider) -> Seq<char> {
    match provider {
        ModelProvider::OpenCodeCli => "Model id as provider/model, e.g. opencode/gpt-5."@,
        ModelProvider::GrokCli => "Model id passed to the local CLI."@,
        ModelProvider::CodexCli => "Model id passed to the local CLI."@,
        ModelProvider::OpenaiCompatible => "Model name, e.g. gpt-4o-mini."@,
    }
}

fn hint_of_model(provider: ModelProvider) -> (r: &'static str)
    ensures
        r@ == model_hint(provider),
{
    match provider {
        ModelProvider::OpenCodeCli => "Model id as provider/model, e.g. opencode/gpt-5.",
        ModelProvider::GrokCli => "Model id passed to the local CLI.",
        ModelProvider::CodexCli => "Model id passed to the local CLI.",
        ModelProvider::OpenaiCompatible => "Model name, e.g. gpt-4o-mini.",
    }
}

/// What the optional parameters apply to.
pub open spec fn sampling_note(provider: ModelProvider) -> Seq<char> {
    if provider.cli() {
        "Turn On to include. Temperature, Top P, and Max tokens apply to HTTP only. Reasoning effort is sent to the CLI."@
    } else {
        "Turn On to include in the request. Off = omit."@
    }
}

fn note_of_sampling(provider: ModelProvider) -> (r: &'static str)
    ensures
        r@ == sampling_note(provider),
{
    if provider.is_cli() {
        "Turn On to include. Temperature, Top P, and Max tokens apply to HTTP only. Reasoning effort is sent to the CLI."
    } else {
        "Turn On to include in the request. Off = omit."
    }
}

/// What the timeout bounds.
pub open spec fn timeout_hint(api: ApiConfig) -> Seq<char> {
    if api.provider.cli() {
        "Idle timeout between CLI events. 0 = wait up to 1 hour."@
    } else if api.stream {
        "Idle timeout between stream chunks. 0 = wait forever."@
    } else {
        "Max wait for the HTTP response. 0 = wait forever."@
    }
}

fn hint_of_timeout(api: &ApiConfig) -> (r: &'static str)
    ensures
        r@ == timeout_hint(*api),
{
    if api.provider.is_cli() {
        "Idle timeout between CLI events. 0 = wait up to 1 hour."
    } else if api.stream {
        "Idle timeout between stream chunks. 0 = wait forever."
    } else {
        "Max wait for the HTTP response. 0 = wait forever."
    }
}

/// How full the session cache is.
pub open spec fn cache_line(cached: nat, max: nat) -> Seq<char> {
    decimal(cached) + " of "@ + decimal(max)
        + " phrases cached this session. Closing the app also clears it."@
}

fn line_of_cache(cached: usize, max: usize) -> (r: String)
    ensures
        r@ == cache_line(cached as nat, max as nat),
{
    let mut out: String = owned("");
    proof {
        reveal_strlit("");
    }
    push_decimal(&mut out, cached as u64);
    assert(out@ =~= decimal(cached as nat));
    out.append(" of ");
    push_decimal(&mut out, max as u64);
    out.append(" phrases cached this session. Closing the app also clears it.");
    out
}

/// The text, or nothing.
pub open spec fn text_or_empty(text: Option<String>) -> Seq<char> {
    match text {
        Some(s) => s@,
        None => ""@,
    }
}

fn copy_or_empty(text: &Option<String>) -> (r: String)
    ensures
        r@ == text_or_empty(*text),
{
    match text {
        Some(s) => s.clone(),
        None => owned(""),
    }
}

/// Connection to a local CLI.
pub open spec fn cli_connection_items(form: SettingsForm) -> Seq<ItemView> {
    seq![
        ItemView::Section("Connection"@),
        card_view(
            "api-provider"@,
            "Provider"@,
            "HTTP endpoint or a local CLI."@,
            ControlView::Choice {
                of: Choices::Provider,
                selected: provider_position(form.draft.api.provider),
            },
        ),
        card_view(
            "api-cli-path"@,
            "CLI path"@,
            "Leave empty to use grok / opencode / codex on PATH. Uses your existing CLI login."@,
            ControlView::Text {
                value: form.draft.api.cli_path@,
                placeholder: form.draft.api.provider.command(),
            },
        ),
    ]
}

fn push_cli_connection(items: &mut Vec<Item>, form: &SettingsForm)
    ensures
        views(final(items)@) == views(old(items)@) + cli_connection_items(*form),
{
    push_item(items, Item::Section("Connection"));
    push_card(
        items,
        "api-provider",
        "Provider",
        "HTTP endpoint or a local CLI.",
        Control::Choice {
            of: Choices::Provider,
            selected: provider_index(form.draft.api.provider),
        },
    );
    push_card(
        items,
        "api-cli-path",
        "CLI path",
        "Leave empty to use grok / opencode / codex on PATH. Uses your existing CLI login.",
        Control::Text {
            value: form.draft.api.cli_path.clone(),
            placeholder: form.draft.api.provider.default_bin(),
        },
    );
    assert(views(items@) =~= views(old(items)@) + cli_connection_items(*form));
}

/// Connection to an HTTP endpoint.
pub open spec fn http_connection_items(form: SettingsForm) -> Seq<ItemView> {
    seq![
        ItemView::Section("Connection"@),
        card_view(
            "api-provider"@,
            "Provider"@,
            "HTTP endpoint or a local CLI."@,
            ControlView::Choice {
                of: Choices::Provider,
                selected: provider_position(form.draft.api.provider),
            },
        ),
        card_view(
            "api-http-api"@,
            "API type"@,
            "Select standard /chat/completions or newer /responses endpoint."@,
            ControlView::Choice {
                of: Choices::HttpApi,
                selected: http_position(form.draft.api.http_api),
            },
        ),
        card_view(
            "api-base-url"@,
            "Base URL"@,
            "OpenAI-compatible API endpoint."@,
            ControlView::Text {
                value: form.draft.api.base_url@,
                placeholder: "https://api.openai.com/v1"@,
            },
        ),
        card_view(
            "api-key"@,
            "API key"@,
            "Stored only on this PC."@,
            ControlView::Secret { value: form.draft.api.api_key@, revealed: form.key_revealed },
        ),
    ]
}

fn push_http_connection(items: &mut Vec<Item>, form: &SettingsForm)
    ensures
        views(final(items)@) == views(old(items)@) + http_connection_items(*form),
{
    push_item(items, Item::Section("Connection"));
    push_card(
        items,
        "api-provider",
        "Provider",
        "HTTP endpoint or a local CLI.",
        Control::Choice {
            of: Choices::Provider,
            selected: provider_index(form.draft.api.provider),
        },
    );
    push_card(
        items,
        "api-http-api",
        "API type",
        "Select standard /chat/completions or newer /responses endpoint.",
        Control::Choice { of: Choices::HttpApi, selected: http_index(form.draft.api.http_api) },
    );
    push_card(
        items,
        "api-base-url",
        "Base URL",
        "OpenAI-compatible API endpoint.",
        Control::Text {
            value: form.draft.api.base_url.clone(),
            placeholder: "https://api.openai.com/v1",
        },
    );
    push_card(
        items,
        "api-key",
        "API key",
        "Stored only on this PC.",
        Control::Secret { value: form.draft.api.api_key.clone(), revealed: form.key_revealed },
    );
    assert(views(items@) =~= views(old(items)@) + http_connection_items(*form));
}

/// Model of a local CLI.
pub open spec fn cli_model_items(form: SettingsForm) -> Seq<ItemView> {
    seq![
        ItemView::Note(
            "A local agent session stays open and only the new turn is sent. Tools are denied."@,
        ),
        card_view(
            "api-model"@,
            "Model"@,
            model_hint(form.draft.api.provider),
            ControlView::Text {
                value: form.draft.api.model@,
                placeholder: model_example(form.draft.api.provider),
            },
        ),
    ]
}

fn push_cli_model(items: &mut Vec<Item>, form: &SettingsForm)
    ensures
        views(final(items)@) == views(old(items)@) + cli_model_items(*form),
{
    push_item(
        items,
        Item::Note(
            "A local agent session stays open and only the new turn is sent. Tools are denied.",
        ),
    );
    push_card(
        items,
        "api-model",
        "Model",
        hint_of_model(form.draft.api.provider),
        Control::Text {
            value: form.draft.api.model.clone(),
            placeholder: example_of_model(form.draft.api.provider),
        },
    );
    assert(views(items@) =~= views(old(items)@) + cli_model_items(*form));
}

/// Model and request options of an HTTP endpoint.
pub open spec fn http_model_items(form: SettingsForm) -> Seq<ItemView> {
    seq![
        card_view(
            "api-model"@,
            "Model"@,
            model_hint(form.draft.api.provider),
            ControlView::Text {
                value: form.draft.api.model@,
                placeholder: model_example(form.draft.api.provider),
            },
        ),
        card_view(
            "api-structured-outputs"@,
            "Structured outputs"@,
            "Ask the model to return JSON matching the translation schema. Turn off if the endpoint rejects json_schema."@,
            ControlView::Toggle { on: form.draft.api.structured_outputs },
        ),
        card_view(
            "api-stream"@,
            "Stream"@,
            "Receive the response as it is generated. Turn off if the endpoint rejects stream."@,
            ControlView::Toggle { on: form.draft.api.stream },
        ),
        card_view(
            "api-send-reasoning-content"@,
            "Send reasoning"@,
            "Replay the model's reasoning with assistant messages on follow-up turns. Turn off if the endpoint rejects reasoning_content."@,
            ControlView::Toggle { on: form.draft.api.send_reasoning_content },
        ),
    ]
}

fn push_http_model(items: &mut Vec<Item>, form: &SettingsForm)
    ensures
        views(final(items)@) == views(old(items)@) + http_model_items(*form),
{
    push_card(
        items,
        "api-model",
        "Model",
        hint_of_model(form.draft.api.provider),
        Control::Text {
            value: form.draft.api.model.clone(),
            placeholder: example_of_model(form.draft.api.provider),
        },
    );
    push_card(
        items,
        "api-structured-outputs",
        "Structured outputs",
        "Ask the model to return JSON matching the translation schema. Turn off if the endpoint rejects json_schema.",
        Control::Toggle { on: form.draft.api.structured_outputs },
    );
    push_card(
        items,
        "api-stream",
        "Stream",
        "Receive the response as it is generated. Turn off if the endpoint rejects stream.",
        Control::Toggle { on: form.draft.api.stream },
    );
    push_card(
        items,
        "api-send-reasoning-content",
        "Send reasoning",
        "Replay the model's reasoning with assistant messages on follow-up turns. Turn off if the endpoint rejects reasoning_content.",
        Control::Toggle { on: form.draft.api.send_reasoning_content },
    );
    assert(views(items@) =~= views(old(items)@) + http_model_items(*form));
}

/// Optional request parameters.
pub open spec fn sampling_items(form: SettingsForm) -> Seq<ItemView> {
    seq![
        ItemView::Section("Optional parameters"@),
        ItemView::Note(sampling_note(form.draft.api.provider)),
        card_view(
            "api-temperature"@,
            "Temperature"@,
            "Higher = more random (0–2)."@,
            ControlView::OptionalRatio {
                value: form.optional.temperature,
                on: form.optional.temperature_on,
                range: Range { min: 0, max: 2_000_000, step: 50_000 },
            },
        ),
        card_view(
            "api-top-p"@,
            "Top P"@,
            "Nucleus sampling limit (0–1)."@,
            ControlView::OptionalRatio {
                value: form.optional.top_p,
                on: form.optional.top_p_on,
                range: Range { min: 0, max: 1_000_000, step: 10_000 },
            },
        ),
        card_view(
            "api-max-tokens"@,
            "Max tokens"@,
            "Max reply length. Limit depends on the model."@,
            ControlView::OptionalNumber {
                value: form.optional.max_tokens as int,
                on: form.optional.max_tokens_on,
                range: Range { min: 1_000_000, max: 1_000_000_000_000, step: 1_000_000 },
            },
        ),
        ItemView::OptionalText(
            OptionalTextView {
                key: "api-reasoning"@,
                header: "Reasoning effort"@,
                description: Some(
                    "For models that support it: none, minimal, low, medium, high, xhigh, or max."@,
                ),
                text: form.optional.reasoning@,
                enabled: form.optional.reasoning_on,
                placeholder: "none | minimal | low | medium | high | xhigh | max"@,
            },
        ),
    ]
}

fn push_sampling(items: &mut Vec<Item>, form: &SettingsForm)
    ensures
        views(final(items)@) == views(old(items)@) + sampling_items(*form),
{
    push_item(items, Item::Section("Optional parameters"));
    push_item(items, Item::Note(note_of_sampling(form.draft.api.provider)));
    push_card(
        items,
        "api-temperature",
        "Temperature",
        "Higher = more random (0–2).",
        Control::OptionalRatio {
            value: form.optional.temperature,
            on: form.optional.temperature_on,
            range: Range { min: 0, max: 2_000_000, step: 50_000 },
        },
    );
    push_card(
        items,
        "api-top-p",
        "Top P",
        "Nucleus sampling limit (0–1).",
        Control::OptionalRatio {
            value: form.optional.top_p,
            on: form.optional.top_p_on,
            range: Range { min: 0, max: 1_000_000, step: 10_000 },
        },
    );
    push_card(
        items,
        "api-max-tokens",
        "Max tokens",
        "Max reply length. Limit depends on the model.",
        Control::OptionalNumber {
            value: form.optional.max_tokens,
            on: form.optional.max_tokens_on,
            range: Range { min: 1_000_000, max: 1_000_000_000_000, step: 1_000_000 },
        },
    );
    push_item(
        items,
        Item::OptionalText(
            OptionalTextParams {
                key: "api-reasoning",
                header: owned("Reasoning effort"),
                description: Some(
                    owned(
                        "For models that support it: none, minimal, low, medium, high, xhigh, or max.",
                    ),
                ),
                text: form.optional.reasoning.clone(),
                enabled: form.optional.reasoning_on,
                placeholder: owned("none | minimal | low | medium | high | xhigh | max"),
            },
        ),
    );
    assert(views(items@) =~= views(old(items)@) + sampling_items(*form));
}

/// Timeout and retries.
pub open spec fn reliability_items(form: SettingsForm) -> Seq<ItemView> {
    seq![
        ItemView::Section("Reliability"@),
        card_view(
            "api-timeout"@,
            "Timeout (seconds)"@,
            timeout_hint(form.draft.api),
            ControlView::Number {
                value: form.draft.api.request_timeout_secs as int,
                range: Range { min: 0, max: 600_000_000, step: 1_000_000 },
            },
        ),
        card_view(
            "api-retries"@,
            "Retries"@,
            "Extra attempts after a failed request."@,
            ControlView::Number {
                value: form.draft.api.max_retries as int,
                range: Range { min: 0, max: 10_000_000, step: 1_000_000 },
            },
        ),
        card_view(
            "api-backoff"@,
            "Retry delay (ms)"@,
            "Wait before retry; doubles each attempt."@,
            ControlView::Number {
                value: form.draft.api.retry_backoff_ms as int,
                range: Range { min: 50_000_000, max: 30_000_000_000, step: 50_000_000 },
            },
        ),
    ]
}

fn push_reliability(items: &mut Vec<Item>, form: &SettingsForm)
    ensures
        views(final(items)@) == views(old(items)@) + reliability_items(*form),
{
    push_item(items, Item::Section("Reliability"));
    push_card(
        items,
        "api-timeout",
        "Timeout (seconds)",
        hint_of_timeout(&form.draft.api),
        Control::Number {
            value: form.draft.api.request_timeout_secs as u64,
            range: Range { min: 0, max: 600_000_000, step: 1_000_000 },
        },
    );
    push_card(
        items,
        "api-retries",
        "Retries",
        "Extra attempts after a failed request.",
        Control::Number {
            value: form.draft.api.max_retries as u64,
            range: Range { min: 0, max: 10_000_000, step: 1_000_000 },
        },
    );
    push_card(
        items,
        "api-backoff",
        "Retry delay (ms)",
        "Wait before retry; doubles each attempt.",
        Control::Number {
            value: form.draft.api.retry_backoff_ms as u64,
            range: Range { min: 50_000_000, max: 30_000_000_000, step: 50_000_000 },
        },
    );
    assert(views(items@) =~= views(old(items)@) + reliability_items(*form));
}

/// OCR model.
pub open spec fn recognition_items(form: SettingsForm) -> Seq<ItemView> {
    seq![
        ItemView::Section("Model"@),
        card_view(
            "ocr-tier"@,
            "Model size"@,
            "Smaller is faster; larger is more accurate. Reloads on Save."@,
            ControlView::Choice {
                of: Choices::Tier,
                selected: tier_position(form.draft.ocr.model_tier),
            },
        ),
    ]
}

fn push_recognition(items: &mut Vec<Item>, form: &SettingsForm)
    ensures
        views(final(items)@) == views(old(items)@) + recognition_items(*form),
{
    push_item(items, Item::Section("Model"));
    push_card(
        items,
        "ocr-tier",
        "Model size",
        "Smaller is faster; larger is more accurate. Reloads on Save.",
        Control::Choice { of: Choices::Tier, selected: tier_index(form.draft.ocr.model_tier) },
    );
    assert(views(items@) =~= views(old(items)@) + recognition_items(*form));
}

/// Capture and stability timing.
pub open spec fn timing_items(form: SettingsForm) -> Seq<ItemView> {
    seq![
        ItemView::Section("Timing"@),
        card_view(
            "ocr-interval-ms"@,
            "Capture interval (ms)"@,
            "How often to grab a new frame."@,
            ControlView::Number {
                value: form.draft.capture.min_interval_ms as int,
                range: Range { min: 50_000_000, max: 5_000_000_000, step: 50_000_000 },
            },
        ),
        card_view(
            "ocr-stable-ms"@,
            "Stable wait (ms)"@,
            "Wait until text stops changing, then translate."@,
            ControlView::Number {
                value: form.draft.ocr.stable_duration_ms as int,
                range: Range { min: 0, max: 10_000_000_000, step: 50_000_000 },
            },
        ),
        card_view(
            "ocr-max-unstable-ms"@,
            "Force translate (ms)"@,
            "If OCR keeps changing, translate anyway after this long. 0 = off."@,
            ControlView::Number {
                value: form.draft.ocr.max_unstable_ms as int,
                range: Range { min: 0, max: 15_000_000_000, step: 100_000_000 },
            },
        ),
        card_view(
            "ocr-persist-ms"@,
            "Keep after gone (ms)"@,
            "Keep text on overlay after it disappears. 0 = off."@,
            ControlView::Number {
                value: form.draft.ocr.block_persist_ms as int,
                range: Range { min: 0, max: 5_000_000_000, step: 50_000_000 },
            },
        ),
        card_view(
            "ocr-miss-ms"@,
            "Drop after miss (ms)"@,
            "Remove text if not seen again within this time."@,
            ControlView::Number {
                value: form.draft.ocr.block_max_miss_ms as int,
                range: Range { min: 0, max: 10_000_000_000, step: 50_000_000 },
            },
        ),
    ]
}

fn push_timing(items: &mut Vec<Item>, form: &SettingsForm)
    ensures
        views(final(items)@) == views(old(items)@) + timing_items(*form),
{
    push_item(items, Item::Section("Timing"));
    push_card(
        items,
        "ocr-interval-ms",
        "Capture interval (ms)",
        "How often to grab a new frame.",
        Control::Number {
            value: form.draft.capture.min_interval_ms as u64,
            range: Range { min: 50_000_000, max: 5_000_000_000, step: 50_000_000 },
        },
    );
    push_card(
        items,
        "ocr-stable-ms",
        "Stable wait (ms)",
        "Wait until text stops changing, then translate.",
        Control::Number {
            value: form.draft.ocr.stable_duration_ms as u64,
            range: Range { min: 0, max: 10_000_000_000, step: 50_000_000 },
        },
    );
    push_card(
        items,
        "ocr-max-unstable-ms",
        "Force translate (ms)",
        "If OCR keeps changing, translate anyway after this long. 0 = off.",
        Control::Number {
            value: form.draft.ocr.max_unstable_ms as u64,
            range: Range { min: 0, max: 15_000_000_000, step: 100_000_000 },
        },
    );
    push_card(
        items,
        "ocr-persist-ms",
        "Keep after gone (ms)",
        "Keep text on overlay after it disappears. 0 = off.",
        Control::Number {
            value: form.draft.ocr.block_persist_ms as u64,
            range: Range { min: 0, max: 5_000_000_000, step: 50_000_000 },
        },
    );
    push_card(
        items,
        "ocr-miss-ms",
        "Drop after miss (ms)",
        "Remove text if not seen again within this time.",
        Control::Number {
            value: form.draft.ocr.block_max_miss_ms as u64,
            range: Range { min: 0, max: 10_000_000_000, step: 50_000_000 },
        },
    );
    assert(views(items@) =~= views(old(items)@) + timing_items(*form));
}

/// What counts as text.
pub open spec fn detection_items(form: SettingsForm) -> Seq<ItemView> {
    seq![
        ItemView::Section("Detection"@),
        card_view(
            "ocr-confidence"@,
            "Min confidence"@,
            "Ignore text below this score (0–1)."@,
            ControlView::Ratio {
                value: form.draft.ocr.confidence_threshold,
                percent: false,
                range: Range { min: 0, max: 1_000_000, step: 10_000 },
            },
        ),
        card_view(
            "ocr-filter-single"@,
            "Ignore single characters"@,
            "Drop lone single-character detections."@,
            ControlView::Toggle { on: form.draft.ocr.filter_single_char },
        ),
    ]
}

fn push_detection(items: &mut Vec<Item>, form: &SettingsForm)
    ensures
        views(final(items)@) == views(old(items)@) + detection_items(*form),
{
    push_item(items, Item::Section("Detection"));
    push_card(
        items,
        "ocr-confidence",
        "Min confidence",
        "Ignore text below this score (0–1).",
        Control::Ratio {
            value: form.draft.ocr.confidence_threshold,
            percent: false,
            range: Range { min: 0, max: 1_000_000, step: 10_000 },
        },
    );
    push_card(
        items,
        "ocr-filter-single",
        "Ignore single characters",
        "Drop lone single-character detections.",
        Control::Toggle { on: form.draft.ocr.filter_single_char },
    );
    assert(views(items@) =~= views(old(items)@) + detection_items(*form));
}

/// Which lines are joined.
pub open spec fn merge_join_items(form: SettingsForm) -> Seq<ItemView> {
    seq![
        ItemView::Section("Line merge"@),
        card_view(
            "ocr-line-merge"@,
            "Merge lines"@,
            "Join nearby lines that share a column or row, similar height, and a small gap."@,
            ControlView::Toggle { on: form.draft.ocr.line_merge.enabled },
        ),
        card_view(
            "ocr-merge-whole-region"@,
            "Merge entire selected region"@,
            "Join every line in each drawn OCR region. Ignored for whole-window capture."@,
            ControlView::Toggle { on: form.draft.ocr.line_merge.merge_whole_region },
        ),
        card_view(
            "ocr-merge-join-space"@,
            "Join with space"@,
            "On: space between joined lines. Off: glue them (typical for CJK)."@,
            ControlView::Toggle { on: form.draft.ocr.line_merge.join_with_space },
        ),
    ]
}

fn push_merge_join(items: &mut Vec<Item>, form: &SettingsForm)
    ensures
        views(final(items)@) == views(old(items)@) + merge_join_items(*form),
{
    push_item(items, Item::Section("Line merge"));
    push_card(
        items,
        "ocr-line-merge",
        "Merge lines",
        "Join nearby lines that share a column or row, similar height, and a small gap.",
        Control::Toggle { on: form.draft.ocr.line_merge.enabled },
    );
    push_card(
        items,
        "ocr-merge-whole-region",
        "Merge entire selected region",
        "Join every line in each drawn OCR region. Ignored for whole-window capture.",
        Control::Toggle { on: form.draft.ocr.line_merge.merge_whole_region },
    );
    push_card(
        items,
        "ocr-merge-join-space",
        "Join with space",
        "On: space between joined lines. Off: glue them (typical for CJK).",
        Control::Toggle { on: form.draft.ocr.line_merge.join_with_space },
    );
    assert(views(items@) =~= views(old(items)@) + merge_join_items(*form));
}

/// Reading order.
pub open spec fn merge_order_items(form: SettingsForm) -> Seq<ItemView> {
    seq![
        ItemView::Subsection("Reading order"@),
        card_view(
            "ocr-merge-order"@,
            "Reading order"@,
            "Order for joining lines and listing the blocks."@,
            ControlView::Choice {
                of: Choices::Order,
                selected: order_position(form.draft.ocr.line_merge.order),
            },
        ),
        card_view(
            "merge-order-band"@,
            "Row/column band (% of window)"@,
            "How close lines must be to count as the same row or column. Default 1.2."@,
            ControlView::Ratio {
                value: form.draft.ocr.line_merge.order_band_ratio,
                percent: true,
                range: Range { min: 100_000, max: 5_000_000, step: 100_000 },
            },
        ),
    ]
}

fn push_merge_order(items: &mut Vec<Item>, form: &SettingsForm)
    ensures
        views(final(items)@) == views(old(items)@) + merge_order_items(*form),
{
    push_item(items, Item::Subsection("Reading order"));
    push_card(
        items,
        "ocr-merge-order",
        "Reading order",
        "Order for joining lines and listing the blocks.",
        Control::Choice {
            of: Choices::Order,
            selected: order_index(form.draft.ocr.line_merge.order),
        },
    );
    push_card(
        items,
        "merge-order-band",
        "Row/column band (% of window)",
        "How close lines must be to count as the same row or column. Default 1.2.",
        Control::Ratio {
            value: form.draft.ocr.line_merge.order_band_ratio,
            percent: true,
            range: Range { min: 100_000, max: 5_000_000, step: 100_000 },
        },
    );
    assert(views(items@) =~= views(old(items)@) + merge_order_items(*form));
}

/// Stacked lines.
pub open spec fn merge_stacking_items(form: SettingsForm) -> Seq<ItemView> {
    seq![
        ItemView::Subsection("Vertical"@),
        card_view(
            "merge-gap"@,
            "Gap (% of window height)"@,
            "Max distance between stacked lines. A small overlap counts as a small gap. Default 1.5."@,
            ControlView::Ratio {
                value: form.draft.ocr.line_merge.gap_ratio,
                percent: true,
                range: Range { min: 0, max: 8_000_000, step: 100_000 },
            },
        ),
        card_view(
            "merge-below-mid"@,
            "Midpoint slack (% of line size)"@,
            "How far a line may sit past the previous midpoint and still count as below or to the right. Default 25."@,
            ControlView::Ratio {
                value: form.draft.ocr.line_merge.below_mid_ratio,
                percent: true,
                range: Range { min: 0, max: 50_000_000, step: 1_000_000 },
            },
        ),
        card_view(
            "merge-height-delta"@,
            "Height difference (%)"@,
            "Max height difference vs the taller line. Default 45."@,
            ControlView::Ratio {
                value: form.draft.ocr.line_merge.height_delta_ratio,
                percent: true,
                range: Range { min: 0, max: 90_000_000, step: 1_000_000 },
            },
        ),
    ]
}

fn push_merge_stacking(items: &mut Vec<Item>, form: &SettingsForm)
    ensures
        views(final(items)@) == views(old(items)@) + merge_stacking_items(*form),
{
    push_item(items, Item::Subsection("Vertical"));
    push_card(
        items,
        "merge-gap",
        "Gap (% of window height)",
        "Max distance between stacked lines. A small overlap counts as a small gap. Default 1.5.",
        Control::Ratio {
            value: form.draft.ocr.line_merge.gap_ratio,
            percent: true,
            range: Range { min: 0, max: 8_000_000, step: 100_000 },
        },
    );
    push_card(
        items,
        "merge-below-mid",
        "Midpoint slack (% of line size)",
        "How far a line may sit past the previous midpoint and still count as below or to the right. Default 25.",
        Control::Ratio {
            value: form.draft.ocr.line_merge.below_mid_ratio,
            percent: true,
            range: Range { min: 0, max: 50_000_000, step: 1_000_000 },
        },
    );
    push_card(
        items,
        "merge-height-delta",
        "Height difference (%)",
        "Max height difference vs the taller line. Default 45.",
        Control::Ratio {
            value: form.draft.ocr.line_merge.height_delta_ratio,
            percent: true,
            range: Range { min: 0, max: 90_000_000, step: 1_000_000 },
        },
    );
    assert(views(items@) =~= views(old(items)@) + merge_stacking_items(*form));
}

/// Lines side by side.
pub open spec fn merge_column_items(form: SettingsForm) -> Seq<ItemView> {
    seq![
        ItemView::Subsection("Horizontal"@),
        card_view(
            "merge-horizontal-gap"@,
            "Gap (% of window width)"@,
            "Max distance between side-by-side lines. A small overlap counts as a small gap. 0 = only if they touch. Default 1.5."@,
            ControlView::Ratio {
                value: form.draft.ocr.line_merge.horizontal_gap_ratio,
                percent: true,
                range: Range { min: 0, max: 8_000_000, step: 100_000 },
            },
        ),
        card_view(
            "merge-align"@,
            "Align tolerance (%)"@,
            "Max left/center drift for one column, or top/center for one row. Default 1.2."@,
            ControlView::Ratio {
                value: form.draft.ocr.line_merge.align_ratio,
                percent: true,
                range: Range { min: 0, max: 5_000_000, step: 100_000 },
            },
        ),
    ]
}

fn push_merge_column(items: &mut Vec<Item>, form: &SettingsForm)
    ensures
        views(final(items)@) == views(old(items)@) + merge_column_items(*form),
{
    push_item(items, Item::Subsection("Horizontal"));
    push_card(
        items,
        "merge-horizontal-gap",
        "Gap (% of window width)",
        "Max distance between side-by-side lines. A small overlap counts as a small gap. 0 = only if they touch. Default 1.5.",
        Control::Ratio {
            value: form.draft.ocr.line_merge.horizontal_gap_ratio,
            percent: true,
            range: Range { min: 0, max: 8_000_000, step: 100_000 },
        },
    );
    push_card(
        items,
        "merge-align",
        "Align tolerance (%)",
        "Max left/center drift for one column, or top/center for one row. Default 1.2.",
        Control::Ratio {
            value: form.draft.ocr.line_merge.align_ratio,
            percent: true,
            range: Range { min: 0, max: 5_000_000, step: 100_000 },
        },
    );
    assert(views(items@) =~= views(old(items)@) + merge_column_items(*form));
}

/// Short lines beside long ones.
pub open spec fn merge_short_items(form: SettingsForm) -> Seq<ItemView> {
    seq![
        ItemView::Subsection("Short into long"@),
        card_view(
            "ocr-merge-reject-short"@,
            "Don't merge short into long"@,
            "Keep a short line separate from a much wider line below."@,
            ControlView::Toggle { on: form.draft.ocr.line_merge.reject_short_long },
        ),
        card_view(
            "merge-width-delta"@,
            "Width difference (%)"@,
            "If the lower line is at least this much wider, keep the short line separate. Default 25."@,
            ControlView::Ratio {
                value: form.draft.ocr.line_merge.width_delta_ratio,
                percent: true,
                range: Range { min: 0, max: 90_000_000, step: 1_000_000 },
            },
        ),
    ]
}

fn push_merge_short(items: &mut Vec<Item>, form: &SettingsForm)
    ensures
        views(final(items)@) == views(old(items)@) + merge_short_items(*form),
{
    push_item(items, Item::Subsection("Short into long"));
    push_card(
        items,
        "ocr-merge-reject-short",
        "Don't merge short into long",
        "Keep a short line separate from a much wider line below.",
        Control::Toggle { on: form.draft.ocr.line_merge.reject_short_long },
    );
    push_card(
        items,
        "merge-width-delta",
        "Width difference (%)",
        "If the lower line is at least this much wider, keep the short line separate. Default 25.",
        Control::Ratio {
            value: form.draft.ocr.line_merge.width_delta_ratio,
            percent: true,
            range: Range { min: 0, max: 90_000_000, step: 1_000_000 },
        },
    );
    assert(views(items@) =~= views(old(items)@) + merge_short_items(*form));
}

/// Where translations are shown.
pub open spec fn display_items(form: SettingsForm) -> Seq<ItemView> {
    seq![
        ItemView::Section("Display"@),
        card_view(
            "ov-enabled"@,
            "In-place overlay"@,
            "Draw translations on the target window (click-through)."@,
            ControlView::Toggle { on: form.draft.overlay.enabled },
        ),
        card_view(
            "ov-reader"@,
            "Translation window"@,
            "Borderless always-on-top window. Drag to move, resize from the edges. Hide with this switch."@,
            ControlView::Toggle { on: form.draft.overlay.reader_enabled },
        ),
    ]
}

fn push_display(items: &mut Vec<Item>, form: &SettingsForm)
    ensures
        views(final(items)@) == views(old(items)@) + display_items(*form),
{
    push_item(items, Item::Section("Display"));
    push_card(
        items,
        "ov-enabled",
        "In-place overlay",
        "Draw translations on the target window (click-through).",
        Control::Toggle { on: form.draft.overlay.enabled },
    );
    push_card(
        items,
        "ov-reader",
        "Translation window",
        "Borderless always-on-top window. Drag to move, resize from the edges. Hide with this switch.",
        Control::Toggle { on: form.draft.overlay.reader_enabled },
    );
    assert(views(items@) =~= views(old(items)@) + display_items(*form));
}

/// Colours and font.
pub open spec fn appearance_items(form: SettingsForm) -> Seq<ItemView> {
    seq![
        ItemView::Section("Appearance"@),
        ItemView::Color(
            ColorPopupView {
                key: "ov-text-color"@,
                header: "Text color"@,
                hex: form.text_argb@,
                open: form.text_picker_open,
                placeholder: "#FFFFFFFF"@,
            },
        ),
        ItemView::Color(
            ColorPopupView {
                key: "ov-bg-color"@,
                header: "Background color"@,
                hex: form.background_argb@,
                open: form.background_picker_open,
                placeholder: "#C8000000"@,
            },
        ),
        card_view(
            "ov-reader-font"@,
            "Font size"@,
            "Segoe UI size for the translation window. Overlay captions still fit the source text."@,
            ControlView::Number {
                value: form.draft.overlay.reader_font_px as int,
                range: Range { min: 8_000_000, max: 72_000_000, step: 1_000_000 },
            },
        ),
    ]
}

fn push_appearance(items: &mut Vec<Item>, form: &SettingsForm)
    ensures
        views(final(items)@) == views(old(items)@) + appearance_items(*form),
{
    push_item(items, Item::Section("Appearance"));
    push_item(
        items,
        Item::Color(
            ColorPopupParams {
                key: "ov-text-color",
                header: owned("Text color"),
                hex: form.text_argb.clone(),
                open: form.text_picker_open,
                placeholder: owned("#FFFFFFFF"),
            },
        ),
    );
    push_item(
        items,
        Item::Color(
            ColorPopupParams {
                key: "ov-bg-color",
                header: owned("Background color"),
                hex: form.background_argb.clone(),
                open: form.background_picker_open,
                placeholder: owned("#C8000000"),
            },
        ),
    );
    push_card(
        items,
        "ov-reader-font",
        "Font size",
        "Segoe UI size for the translation window. Overlay captions still fit the source text.",
        Control::Number {
            value: form.draft.overlay.reader_font_px as u64,
            range: Range { min: 8_000_000, max: 72_000_000, step: 1_000_000 },
        },
    );
    assert(views(items@) =~= views(old(items)@) + appearance_items(*form));
}

/// How the two displays behave.
pub open spec fn overlay_notes_items(form: SettingsForm) -> Seq<ItemView> {
    seq![
        ItemView::Section("Notes"@),
        ItemView::Note(
            "The in-place overlay is click-through and follows the target window only while it is in the foreground. OBS Window Capture should use Translator Overlay Captions, not the control window. The translation window is borderless and semi-transparent, uses the same colours and typeface, and stays visible independently."@,
        ),
    ]
}

fn push_overlay_notes(items: &mut Vec<Item>, form: &SettingsForm)
    ensures
        views(final(items)@) == views(old(items)@) + overlay_notes_items(*form),
{
    push_item(items, Item::Section("Notes"));
    push_item(
        items,
        Item::Note(
            "The in-place overlay is click-through and follows the target window only while it is in the foreground. OBS Window Capture should use Translator Overlay Captions, not the control window. The translation window is borderless and semi-transparent, uses the same colours and typeface, and stays visible independently.",
        ),
    );
    assert(views(items@) =~= views(old(items)@) + overlay_notes_items(*form));
}

/// Languages.
pub open spec fn languages_items(form: SettingsForm) -> Seq<ItemView> {
    seq![
        ItemView::Section("Languages"@),
        card_view(
            "tr-source-lang"@,
            "Source language"@,
            "Language on screen, or auto."@,
            ControlView::Text { value: form.draft.translation.source_lang@, placeholder: "auto"@ },
        ),
        card_view(
            "tr-target-lang"@,
            "Target language"@,
            "Language for the translation."@,
            ControlView::Text {
                value: form.draft.translation.target_lang@,
                placeholder: "e.g. zh-TW"@,
            },
        ),
    ]
}

fn push_languages(items: &mut Vec<Item>, form: &SettingsForm)
    ensures
        views(final(items)@) == views(old(items)@) + languages_items(*form),
{
    push_item(items, Item::Section("Languages"));
    push_card(
        items,
        "tr-source-lang",
        "Source language",
        "Language on screen, or auto.",
        Control::Text { value: form.draft.translation.source_lang.clone(), placeholder: "auto" },
    );
    push_card(
        items,
        "tr-target-lang",
        "Target language",
        "Language for the translation.",
        Control::Text {
            value: form.draft.translation.target_lang.clone(),
            placeholder: "e.g. zh-TW",
        },
    );
    assert(views(items@) =~= views(old(items)@) + languages_items(*form));
}

/// How much is remembered.
pub open spec fn history_items(form: SettingsForm) -> Seq<ItemView> {
    seq![
        ItemView::Section("History"@),
        card_view(
            "tr-history-max"@,
            "Recent translations"@,
            "How many past translations to keep."@,
            ControlView::Number {
                value: form.draft.translation.history_max_items as int,
                range: Range { min: 1_000_000, max: 100_000_000, step: 1_000_000 },
            },
        ),
        card_view(
            "tr-conv-max"@,
            "Chat context turns"@,
            "How much conversation history the model sees."@,
            ControlView::Number {
                value: form.draft.translation.conversation_max_turns as int,
                range: Range { min: 1_000_000, max: 200_000_000, step: 1_000_000 },
            },
        ),
    ]
}

fn push_history(items: &mut Vec<Item>, form: &SettingsForm)
    ensures
        views(final(items)@) == views(old(items)@) + history_items(*form),
{
    push_item(items, Item::Section("History"));
    push_card(
        items,
        "tr-history-max",
        "Recent translations",
        "How many past translations to keep.",
        Control::Number {
            value: form.draft.translation.history_max_items as u64,
            range: Range { min: 1_000_000, max: 100_000_000, step: 1_000_000 },
        },
    );
    push_card(
        items,
        "tr-conv-max",
        "Chat context turns",
        "How much conversation history the model sees.",
        Control::Number {
            value: form.draft.translation.conversation_max_turns as u64,
            range: Range { min: 1_000_000, max: 200_000_000, step: 1_000_000 },
        },
    );
    assert(views(items@) =~= views(old(items)@) + history_items(*form));
}

/// Session cache, which holds `cached` phrases.
pub open spec fn cache_items(form: SettingsForm, cached: usize) -> Seq<ItemView> {
    seq![
        ItemView::Section("Cache"@),
        card_view(
            "tr-cache-enabled"@,
            "Enable translation cache"@,
            "Reuse translations for source text already seen this session. Skips the API for repeats."@,
            ControlView::Toggle { on: form.draft.translation.cache_enabled },
        ),
        card_view(
            "tr-cache-max"@,
            "Cache size"@,
            "Max unique phrases kept in memory. Full cache evicts the least-used first."@,
            ControlView::Number {
                value: form.draft.translation.cache_max_entries as int,
                range: Range { min: 1_000_000, max: 8_192_000_000, step: 1_000_000 },
            },
        ),
        card_view(
            "tr-cache-clear"@,
            "Clear cache"@,
            cache_line(cached as nat, form.draft.translation.cache_max_entries as nat),
            ControlView::Button {
                label: "Clear cache"@,
                tip: "Drop all cached translations. Does not clear chat history."@,
                enabled: cached > 0,
            },
        ),
    ]
}

fn push_cache(items: &mut Vec<Item>, form: &SettingsForm, cached: usize)
    ensures
        views(final(items)@) == views(old(items)@) + cache_items(*form, cached),
{
    push_item(items, Item::Section("Cache"));
    push_card(
        items,
        "tr-cache-enabled",
        "Enable translation cache",
        "Reuse translations for source text already seen this session. Skips the API for repeats.",
        Control::Toggle { on: form.draft.translation.cache_enabled },
    );
    push_card(
        items,
        "tr-cache-max",
        "Cache size",
        "Max unique phrases kept in memory. Full cache evicts the least-used first.",
        Control::Number {
            value: form.draft.translation.cache_max_entries as u64,
            range: Range { min: 1_000_000, max: 8_192_000_000, step: 1_000_000 },
        },
    );
    push_card(
        items,
        "tr-cache-clear",
        "Clear cache",
        line_of_cache(cached, form.draft.translation.cache_max_entries).as_str(),
        Control::Button {
            label: "Clear cache",
            tip: "Drop all cached translations. Does not clear chat history.",
            enabled: cached > 0,
        },
    );
    assert(views(items@) =~= views(old(items)@) + cache_items(*form, cached));
}

/// System prompt.
pub open spec fn prompt_items(form: SettingsForm) -> Seq<ItemView> {
    seq![
        ItemView::Section("Prompt"@),
        card_view(
            "tr-system-prompt"@,
            "System prompt"@,
            "Leave empty for the built-in prompt. Custom text must reply {\"b\":[[id,\"translation\"],...]}."@,
            ControlView::Multiline {
                value: text_or_empty(form.draft.translation.system_prompt),
                placeholder: "Built-in prompt"@,
            },
        ),
    ]
}

fn push_prompt(items: &mut Vec<Item>, form: &SettingsForm)
    ensures
        views(final(items)@) == views(old(items)@) + prompt_items(*form),
{
    push_item(items, Item::Section("Prompt"));
    push_card(
        items,
        "tr-system-prompt",
        "System prompt",
        "Leave empty for the built-in prompt. Custom text must reply {\"b\":[[id,\"translation\"],...]}.",
        Control::Multiline {
            value: copy_or_empty(&form.draft.translation.system_prompt),
            placeholder: "Built-in prompt",
        },
    );
    assert(views(items@) =~= views(old(items)@) + prompt_items(*form));
}

/// The priority switch, which only one provider has.
pub open spec fn priority_items(form: SettingsForm) -> Seq<ItemView> {
    if form.draft.api.provider == ModelProvider::CodexCli {
        seq![
            card_view(
            "api-priority-mode"@,
            "Priority mode"@,
            "Request the provider's faster processing tier. May consume more credits."@,
            ControlView::Toggle { on: form.draft.api.service_tier == ServiceTier::Priority },
        ),
        ]
    } else {
        Seq::empty()
    }
}

fn push_priority(items: &mut Vec<Item>, form: &SettingsForm)
    ensures
        views(final(items)@) == views(old(items)@) + priority_items(*form),
{
    if form.draft.api.provider == ModelProvider::CodexCli {
        push_card(
        items,
        "api-priority-mode",
        "Priority mode",
        "Request the provider's faster processing tier. May consume more credits.",
        Control::Toggle { on: form.draft.api.service_tier == ServiceTier::Priority },
    );
    }
    assert(views(items@) =~= views(old(items)@) + priority_items(*form));
}

/// Cards of the connection: those of the CLI or of the HTTP endpoint, as the provider asks.
pub open spec fn connection_items(form: SettingsForm) -> Seq<ItemView> {
    if form.draft.api.provider.cli() {
        cli_connection_items(form) + priority_items(form) + cli_model_items(form)
    } else {
        http_connection_items(form) + priority_items(form) + http_model_items(form)
    }
}

fn push_connection(items: &mut Vec<Item>, form: &SettingsForm)
    ensures
        views(final(items)@) == views(old(items)@) + connection_items(*form),
{
    if form.draft.api.provider.is_cli() {
        push_cli_connection(items, form);
        push_priority(items, form);
        push_cli_model(items, form);
    } else {
        push_http_connection(items, form);
        push_priority(items, form);
        push_http_model(items, form);
    }
    assert(views(items@) =~= views(old(items)@) + connection_items(*form));
}

/// Cards of the API page, below its profiles.
pub open spec fn api_page_items(form: SettingsForm) -> Seq<ItemView> {
    connection_items(form) + sampling_items(form) + reliability_items(form)
}

/// Cards of the API page, below its profiles.
pub fn api_page(form: &SettingsForm) -> (r: Vec<Item>)
    ensures
        views(r@) == api_page_items(*form),
{
    let mut items: Vec<Item> = Vec::new();
    push_connection(&mut items, form);
    push_sampling(&mut items, form);
    push_reliability(&mut items, form);
    assert(views(items@) =~= api_page_items(*form));
    items
}

/// Cards of the OCR page.
pub open spec fn ocr_page_items(form: SettingsForm) -> Seq<ItemView> {
    recognition_items(form) + timing_items(form) + detection_items(form) + merge_join_items(form) + merge_order_items(form) + merge_stacking_items(form) + merge_column_items(form) + merge_short_items(form)
}

/// Cards of the OCR page.
pub fn ocr_page(form: &SettingsForm) -> (r: Vec<Item>)
    ensures
        views(r@) == ocr_page_items(*form),
{
    let mut items: Vec<Item> = Vec::new();
    push_recognition(&mut items, form);
    push_timing(&mut items, form);
    push_detection(&mut items, form);
    push_merge_join(&mut items, form);
    push_merge_order(&mut items, form);
    push_merge_stacking(&mut items, form);
    push_merge_column(&mut items, form);
    push_merge_short(&mut items, form);
    assert(views(items@) =~= ocr_page_items(*form));
    items
}

/// Cards of the overlay page.
pub open spec fn overlay_page_items(form: SettingsForm) -> Seq<ItemView> {
    display_items(form) + appearance_items(form) + overlay_notes_items(form)
}

/// Cards of the overlay page.
pub fn overlay_page(form: &SettingsForm) -> (r: Vec<Item>)
    ensures
        views(r@) == overlay_page_items(*form),
{
    let mut items: Vec<Item> = Vec::new();
    push_display(&mut items, form);
    push_appearance(&mut items, form);
    push_overlay_notes(&mut items, form);
    assert(views(items@) =~= overlay_page_items(*form));
    items
}

/// Cards of the translation page, while the session cache holds `cached` phrases.
pub open spec fn translation_page_items(form: SettingsForm, cached: usize) -> Seq<ItemView> {
    languages_items(form) + history_items(form) + cache_items(form, cached) + prompt_items(form)
}

/// Cards of the translation page, while the session cache holds `cached` phrases.
pub fn translation_page(form: &SettingsForm, cached: usize) -> (r: Vec<Item>)
    ensures
        views(r@) == translation_page_items(*form, cached),
{
    let mut items: Vec<Item> = Vec::new();
    push_languages(&mut items, form);
    push_history(&mut items, form);
    push_cache(&mut items, form, cached);
    push_prompt(&mut items, form);
    assert(views(items@) =~= translation_page_items(*form, cached));
    items
}

/// A card with the key shows the number.
pub open spec fn shows_number(items: Seq<ItemView>, key: Seq<char>, number: int) -> bool {
    exists|i: int|
        0 <= i < items.len() && (#[trigger] items[i] matches ItemView::Card(card) && card.key == key
            && (card.control matches ControlView::Number { value, .. } && value == number))
}

/// A card with the key shows the ratio.
pub open spec fn shows_ratio(items: Seq<ItemView>, key: Seq<char>, ratio: Scalar) -> bool {
    exists|i: int|
        0 <= i < items.len() && (#[trigger] items[i] matches ItemView::Card(card) && card.key == key
            && (card.control matches ControlView::Ratio { value, .. } && value == ratio))
}

/// A card with the key shows the switch.
pub open spec fn shows_toggle(items: Seq<ItemView>, key: Seq<char>, switch: bool) -> bool {
    exists|i: int|
        0 <= i < items.len() && (#[trigger] items[i] matches ItemView::Card(card) && card.key == key
            && (card.control matches ControlView::Toggle { on } && on == switch))
}

/// A card with the key shows the text.
pub open spec fn shows_text(items: Seq<ItemView>, key: Seq<char>, text: Seq<char>) -> bool {
    exists|i: int|
        0 <= i < items.len() && (#[trigger] items[i] matches ItemView::Card(card) && card.key == key
            && (card.control matches ControlView::Text { value, .. } && value == text))
}

/// The recognition page shows every setting of the draft under its own key.
pub proof fn law_ocr_page_shows_the_draft(form: SettingsForm)
    ensures
        shows_number(ocr_page_items(form), "ocr-interval-ms"@, form.draft.capture.min_interval_ms as int),
        shows_number(ocr_page_items(form), "ocr-stable-ms"@, form.draft.ocr.stable_duration_ms as int),
        shows_number(ocr_page_items(form), "ocr-max-unstable-ms"@, form.draft.ocr.max_unstable_ms as int),
        shows_number(ocr_page_items(form), "ocr-persist-ms"@, form.draft.ocr.block_persist_ms as int),
        shows_number(ocr_page_items(form), "ocr-miss-ms"@, form.draft.ocr.block_max_miss_ms as int),
        shows_ratio(ocr_page_items(form), "ocr-confidence"@, form.draft.ocr.confidence_threshold),
        shows_toggle(ocr_page_items(form), "ocr-filter-single"@, form.draft.ocr.filter_single_char),
        shows_toggle(ocr_page_items(form), "ocr-line-merge"@, form.draft.ocr.line_merge.enabled),
        shows_toggle(ocr_page_items(form), "ocr-merge-whole-region"@, form.draft.ocr.line_merge.merge_whole_region),
        shows_toggle(ocr_page_items(form), "ocr-merge-join-space"@, form.draft.ocr.line_merge.join_with_space),
        shows_ratio(ocr_page_items(form), "merge-order-band"@, form.draft.ocr.line_merge.order_band_ratio),
        shows_ratio(ocr_page_items(form), "merge-gap"@, form.draft.ocr.line_merge.gap_ratio),
        shows_ratio(ocr_page_items(form), "merge-below-mid"@, form.draft.ocr.line_merge.below_mid_ratio),
        shows_ratio(ocr_page_items(form), "merge-height-delta"@, form.draft.ocr.line_merge.height_delta_ratio),
        shows_ratio(ocr_page_items(form), "merge-horizontal-gap"@, form.draft.ocr.line_merge.horizontal_gap_ratio),
        shows_ratio(ocr_page_items(form), "merge-align"@, form.draft.ocr.line_merge.align_ratio),
        shows_toggle(ocr_page_items(form), "ocr-merge-reject-short"@, form.draft.ocr.line_merge.reject_short_long),
        shows_ratio(ocr_page_items(form), "merge-width-delta"@, form.draft.ocr.line_merge.width_delta_ratio),
{
    let page = ocr_page_items(form);
    assert(page[3] == timing_items(form)[1]);
    assert(page[4] == timing_items(form)[2]);
    assert(page[5] == timing_items(form)[3]);
    assert(page[6] == timing_items(form)[4]);
    assert(page[7] == timing_items(form)[5]);
    assert(page[9] == detection_items(form)[1]);
    assert(page[10] == detection_items(form)[2]);
    assert(page[12] == merge_join_items(form)[1]);
    assert(page[13] == merge_join_items(form)[2]);
    assert(page[14] == merge_join_items(form)[3]);
    assert(page[17] == merge_order_items(form)[2]);
    assert(page[19] == merge_stacking_items(form)[1]);
    assert(page[20] == merge_stacking_items(form)[2]);
    assert(page[21] == merge_stacking_items(form)[3]);
    assert(page[23] == merge_column_items(form)[1]);
    assert(page[24] == merge_column_items(form)[2]);
    assert(page[26] == merge_short_items(form)[1]);
    assert(page[27] == merge_short_items(form)[2]);
}

/// The translation page shows every setting of the draft under its own key.
pub proof fn law_translation_page_shows_the_draft(form: SettingsForm, cached: usize)
    ensures
        shows_text(translation_page_items(form, cached), "tr-source-lang"@, form.draft.translation.source_lang@),
        shows_text(translation_page_items(form, cached), "tr-target-lang"@, form.draft.translation.target_lang@),
        shows_number(translation_page_items(form, cached), "tr-history-max"@, form.draft.translation.history_max_items as int),
        shows_number(translation_page_items(form, cached), "tr-conv-max"@, form.draft.translation.conversation_max_turns as int),
        shows_toggle(translation_page_items(form, cached), "tr-cache-enabled"@, form.draft.translation.cache_enabled),
        shows_number(translation_page_items(form, cached), "tr-cache-max"@, form.draft.translation.cache_max_entries as int),
{
    let page = translation_page_items(form, cached);
    assert(page[1] == languages_items(form)[1]);
    assert(page[2] == languages_items(form)[2]);
    assert(page[4] == history_items(form)[1]);
    assert(page[5] == history_items(form)[2]);
    assert(page[7] == cache_items(form, cached)[1]);
    assert(page[8] == cache_items(form, cached)[2]);
}

/// The overlay page shows every setting of the draft under its own key.
pub proof fn law_overlay_page_shows_the_draft(form: SettingsForm)
    ensures
        shows_toggle(overlay_page_items(form), "ov-enabled"@, form.draft.overlay.enabled),
        shows_toggle(overlay_page_items(form), "ov-reader"@, form.draft.overlay.reader_enabled),
        shows_number(overlay_page_items(form), "ov-reader-font"@, form.draft.overlay.reader_font_px as int),
{
    let page = overlay_page_items(form);
    assert(page[1] == display_items(form)[1]);
    assert(page[2] == display_items(form)[2]);
    assert(page[6] == appearance_items(form)[3]);
}

/// The API page shows what its provider uses: an HTTP provider its address and request options, a
/// command its path, and either the model and the limits of its requests.
pub proof fn law_api_page_shows_what_the_provider_uses(form: SettingsForm)
    ensures
        ({
            let page = api_page_items(form);
            let api = form.draft.api;
            &&& shows_text(page, "api-model"@, api.model@)
            &&& shows_number(page, "api-timeout"@, api.request_timeout_secs as int)
            &&& shows_number(page, "api-retries"@, api.max_retries as int)
            &&& shows_number(page, "api-backoff"@, api.retry_backoff_ms as int)
            &&& api.provider == ModelProvider::OpenaiCompatible ==> {
                &&& shows_text(page, "api-base-url"@, api.base_url@)
                &&& shows_toggle(page, "api-structured-outputs"@, api.structured_outputs)
                &&& shows_toggle(page, "api-stream"@, api.stream)
                &&& shows_toggle(page, "api-send-reasoning-content"@, api.send_reasoning_content)
            }
            &&& api.provider != ModelProvider::OpenaiCompatible ==> shows_text(
                page,
                "api-cli-path"@,
                api.cli_path@,
            )
            &&& api.provider == ModelProvider::CodexCli ==> shows_toggle(
                page,
                "api-priority-mode"@,
                api.service_tier == ServiceTier::Priority,
            )
        }),
{
    let page = api_page_items(form);
    let first = connection_items(form);
    let n = first.len() as int;
    let provider = form.draft.api.provider;
    if provider == ModelProvider::OpenaiCompatible {
        assert(first[3] == http_connection_items(form)[3]);
        assert(first[5] == http_model_items(form)[0]);
        assert(first[6] == http_model_items(form)[1]);
        assert(first[7] == http_model_items(form)[2]);
        assert(first[8] == http_model_items(form)[3]);
        assert(page[3] == first[3]);
        assert(page[5] == first[5]);
        assert(page[6] == first[6]);
        assert(page[7] == first[7]);
        assert(page[8] == first[8]);
    } else {
        assert(first[2] == cli_connection_items(form)[2]);
        assert(page[2] == first[2]);
        if provider == ModelProvider::CodexCli {
            assert(first[3] == priority_items(form)[0]);
            assert(page[3] == first[3]);
            assert(first[5] == cli_model_items(form)[1]);
            assert(page[5] == first[5]);
        } else {
            assert(first[4] == cli_model_items(form)[1]);
            assert(page[4] == first[4]);
        }
    }
    let m = n + sampling_items(form).len();
    assert(page[m + 1] == reliability_items(form)[1]);
    assert(page[m + 2] == reliability_items(form)[2]);
    assert(page[m + 3] == reliability_items(form)[3]);
}

} // verus!
