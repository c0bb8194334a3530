//! Setting rows that are more than one control: colours, optional text, model names.

use crate::config::{argb_notation, argb_of, format_argb_hex, parse_argb_hex};
use crate::state::optional_text;
use vstd::prelude::*;

verus! {

/// Optional text field with a switch.
#[derive(Debug)]
pub struct OptionalTextParams {
    pub key: &'static str,
    pub header: String,
    pub description: Option<String>,
    pub text: String,
    pub enabled: bool,
    pub placeholder: String,
}

/// Optional text field as a plain value.
pub struct OptionalTextView {
    pub key: Seq<char>,
    pub header: Seq<char>,
    pub description: Option<Seq<char>>,
    pub text: Seq<char>,
    pub enabled: bool,
    pub placeholder: Seq<char>,
}

impl View for OptionalTextParams {
    type V = OptionalTextView;

    open spec fn view(&self) -> OptionalTextView {
        OptionalTextView {
            key: self.key@,
            header: self.header@,
            description: optional_text(self.description),
            text: self.text@,
            enabled: self.enabled,
            placeholder: self.placeholder@,
        }
    }
}

/// Compact colour row: swatch and notation; the picker expands under them.
#[derive(Debug)]
pub struct ColorPopupParams {
    pub key: &'static str,
    pub header: String,
    pub hex: String,
    pub open: bool,
    pub placeholder: String,
}

/// Colour row as a plain value.
pub struct ColorPopupView {
    pub key: Seq<char>,
    pub header: Seq<char>,
    pub hex: Seq<char>,
    pub open: bool,
    pub placeholder: Seq<char>,
}

impl View for ColorPopupParams {
    type V = ColorPopupView;

    open spec fn view(&self) -> ColorPopupView {
        ColorPopupView {
            key: self.key@,
            header: self.header@,
            hex: self.hex@,
            open: self.open,
            placeholder: self.placeholder@,
        }
    }
}

/// Channels of a colour.
#[derive(Debug, Clone, Copy, PartialEq, Eq, Structural)]
pub struct Channels {
    pub alpha: u8,
    pub red: u8,
    pub green: u8,
    pub blue: u8,
}

impl Channels {
    /// The colour with these channels, highest first.
    pub open spec fn packed(self) -> int {
        self.alpha * 0x100_0000 + self.red * 0x1_0000 + self.green * 0x100 + self.blue
    }

    /// The colour with these channels.
    pub fn to_argb(self) -> (r: u32)
        ensures
            r == self.packed(),
    {
        self.alpha as u32 * 0x100_0000 + self.red as u32 * 0x1_0000 + self.green as u32 * 0x100
            + self.blue as u32
    }
}

/// Channels of a colour.
pub fn argb_channels(argb: u32) -> (r: Channels)
    ensures
        r.packed() == argb,
{
    let high: u32 = argb / 0x1_0000;
    let low: u32 = argb % 0x1_0000;
    Channels {
        alpha: (high / 0x100) as u8,
        red: (high % 0x100) as u8,
        green: (low / 0x100) as u8,
        blue: (low % 0x100) as u8,
    }
}

/// A colour has one set of channels.
pub proof fn law_channels_are_unique(a: Channels, b: Channels)
    requires
        a.packed() == b.packed(),
    ensures
        a == b,
{
}

/// Colour of a swatch whose notation names none: opaque black.
pub const UNNAMED_COLOUR: u32 = 0xFF00_0000;

impl ColorPopupParams {
    /// The colour that the swatch and the picker show.
    pub open spec fn colour(self) -> u32 {
        match argb_of(self.hex@) {
            Some(v) => v,
            None => UNNAMED_COLOUR,
        }
    }

    /// Channels that the picker shows. The swatch shows them without transparency.
    pub fn channels(&self) -> (r: Channels)
        ensures
            r.packed() == self.colour(),
    {
        match parse_argb_hex(self.hex.as_str()) {
            Some(v) => argb_channels(v),
            None => argb_channels(UNNAMED_COLOUR),
        }
    }

    /// Tooltip of the swatch.
    pub fn swatch_tip(&self) -> (r: &'static str)
        ensures
            r@ == if self.open {
                "Close color picker"@
            } else {
                "Open color picker"@
            },
    {
        if self.open {
            "Close color picker"
        } else {
            "Open color picker"
        }
    }

    /// Description of every colour row.
    pub fn description(&self) -> (r: &'static str)
        ensures
            r@ == "Click the swatch to pick colour and opacity, or type #AARRGGBB hex."@,
    {
        "Click the swatch to pick colour and opacity, or type #AARRGGBB hex."
    }
}

/// Notation of a picked colour.
pub fn picked_notation(picked: Channels) -> (r: String)
    ensures
        r@ == argb_notation(picked.packed() as u32),
{
    format_argb_hex(picked.to_argb())
}

/// Glyph and tooltip of the button that shows or hides a secret.
pub fn reveal_button(revealed: bool) -> (r: (char, &'static str))
    ensures
        r.0 == if revealed {
            '\u{E7B3}'
        } else {
            '\u{E890}'
        },
        r.1@ == if revealed {
            "Hide key"@
        } else {
            "Show key"@
        },
{
    if revealed {
        ('\u{E7B3}', "Hide key")
    } else {
        ('\u{E890}', "Show key")
    }
}

/// Model name field with suggestions and a button that reloads them.
#[derive(Debug)]
pub struct ModelSuggestParams {
    pub key: &'static str,
    pub header: String,
    pub description: String,
    pub value: String,
    pub placeholder: String,
    pub suggestions: Vec<String>,
    pub loading: bool,
}

/// Button that reloads the suggestions.
#[derive(Debug)]
pub struct RefreshButton {
    pub enabled: bool,
    pub tip: &'static str,
    /// A glyph, or a spinner while the list loads.
    pub glyph: Option<char>,
}

impl ModelSuggestParams {
    /// Button that reloads the suggestions.
    pub fn refresh_button(&self) -> (r: RefreshButton)
        ensures
            r.enabled == !self.loading,
            r.tip@ == if self.loading {
                "Loading model list"@
            } else {
                "Reload model list"@
            },
            r.glyph == if self.loading {
                None
            } else {
                Some('\u{E72C}')
            },
    {
        if self.loading {
            RefreshButton { enabled: false, tip: "Loading model list", glyph: None }
        } else {
            RefreshButton { enabled: true, tip: "Reload model list", glyph: Some('\u{E72C}') }
        }
    }
}

/// A colour that is picked is the colour that its row shows.
pub proof fn law_picked_colour_is_shown(picked: Channels, row: ColorPopupParams, shown: Channels)
    requires
        row.hex@ == argb_notation(picked.packed() as u32),
        shown.packed() == row.colour(),
    ensures
        shown == picked,
{
    crate::config::law_argb_round_trip(picked.packed() as u32);
    law_channels_are_unique(shown, picked);
}

} // verus!
