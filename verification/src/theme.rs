//! The palette of terminal message kinds: each kind is written in its own
//! style when colors are on, and as the bare text when they are off.
use vstd::prelude::*;
use crate::markdown::{ansi_off, ansi_on, is_plain, owo_style, style_off, style_on, AnsiColor, TextStyle};
use crate::text::append;

verus! {

/// The styles of the message kinds.
#[derive(Clone, Copy, Debug, PartialEq, Eq)]
pub struct ColorPalette {
    pub error: TextStyle,
    pub warning: TextStyle,
    pub success: TextStyle,
    pub metadata: TextStyle,
    pub muted: TextStyle,
    pub accent: TextStyle,
}

/// A style of a color and, optionally, bold.
pub open spec fn color_style(c: Option<AnsiColor>, bold: bool, dimmed: bool) -> TextStyle {
    TextStyle {
        fg: c,
        bold,
        dimmed,
        italic: false,
        underline: false,
        reversed: false,
        strikethrough: false,
    }
}

/// The default palette: errors bold red, warnings bold yellow, successes
/// bold green, metadata cyan, muted text dimmed, accents bold white.
pub open spec fn default_palette() -> ColorPalette {
    ColorPalette {
        error: color_style(Some(AnsiColor::Red), true, false),
        warning: color_style(Some(AnsiColor::Yellow), true, false),
        success: color_style(Some(AnsiColor::Green), true, false),
        metadata: color_style(Some(AnsiColor::Cyan), false, false),
        muted: color_style(None, false, true),
        accent: color_style(Some(AnsiColor::White), true, false),
    }
}

/// A text written in a style: wrapped in the style's escape sequences when
/// colors are on, bare when they are off.
pub open spec fn painted(text: Seq<char>, style: TextStyle, colors: bool) -> Seq<char> {
    if colors {
        ansi_on(style) + text + ansi_off(style)
    } else {
        text
    }
}

fn style_of(fg: Option<AnsiColor>, bold: bool, dimmed: bool) -> (r: TextStyle)
    ensures
        r == color_style(fg, bold, dimmed),
{
    TextStyle { fg, bold, dimmed, italic: false, underline: false, reversed: false, strikethrough: false }
}

impl Default for ColorPalette {
    fn default() -> (r: Self)
        ensures
            r == default_palette(),
    {
        ColorPalette {
            error: style_of(Some(AnsiColor::Red), true, false),
            warning: style_of(Some(AnsiColor::Yellow), true, false),
            success: style_of(Some(AnsiColor::Green), true, false),
            metadata: style_of(Some(AnsiColor::Cyan), false, false),
            muted: style_of(None, false, true),
            accent: style_of(Some(AnsiColor::White), true, false),
        }
    }
}

impl ColorPalette {
    /// Writes a text in a style, or bare when colors are off.
    fn paint(text: &str, style: TextStyle, colors: bool) -> (r: String)
        ensures
            r@ == painted(text@, style, colors),
    {
        if colors {
            let mut out = style_on(owo_style(style));
            append(&mut out, text);
            let off = style_off(owo_style(style));
            append(&mut out, off.as_str());
            out
        } else {
            String::from_str(text)
        }
    }

    /// An error message.
    pub fn error_text(&self, text: &str, colors: bool) -> (r: String)
        ensures
            r@ == painted(text@, self.error, colors),
    {
        Self::paint(text, self.error, colors)
    }

    /// A warning.
    pub fn warning_text(&self, text: &str, colors: bool) -> (r: String)
        ensures
            r@ == painted(text@, self.warning, colors),
    {
        Self::paint(text, self.warning, colors)
    }

    /// A success message.
    pub fn success_text(&self, text: &str, colors: bool) -> (r: String)
        ensures
            r@ == painted(text@, self.success, colors),
    {
        Self::paint(text, self.success, colors)
    }

    /// Metadata, such as a ledger or a hash.
    pub fn metadata_text(&self, text: &str, colors: bool) -> (r: String)
        ensures
            r@ == painted(text@, self.metadata, colors),
    {
        Self::paint(text, self.metadata, colors)
    }

    /// Secondary detail.
    pub fn muted_text(&self, text: &str, colors: bool) -> (r: String)
        ensures
            r@ == painted(text@, self.muted, colors),
    {
        Self::paint(text, self.muted, colors)
    }

    /// Highlighted text.
    pub fn accent_text(&self, text: &str, colors: bool) -> (r: String)
        ensures
            r@ == painted(text@, self.accent, colors),
    {
        Self::paint(text, self.accent, colors)
    }
}

/// With colors on, a text written in any style that changes something
/// starts with an escape character; with colors off, it is the bare text.
pub proof fn lemma_painted_marks_text(text: Seq<char>, style: TextStyle)
    requires
        !is_plain(style),
    ensures
        painted(text, style, true).len() > 0 && painted(text, style, true)[0] == '\x1b',
        painted(text, style, false) == text,
{
}

/// Every style of the default palette changes something, so each message
/// kind is marked with escape sequences when colors are on.
pub proof fn lemma_default_palette_styled()
    ensures
        !is_plain(default_palette().error),
        !is_plain(default_palette().warning),
        !is_plain(default_palette().success),
        !is_plain(default_palette().metadata),
        !is_plain(default_palette().muted),
        !is_plain(default_palette().accent),
{
}

} // verus!
