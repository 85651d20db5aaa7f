//! Status badges printed in front of terminal messages.

use vstd::prelude::*;
use crate::text::append;

verus! {

/// The category of a message.
#[derive(Debug, Clone, Copy, PartialEq, Eq, Structural)]
pub enum DiagnosticCategory {
    Success,
    Info,
    Warning,
    Error,
}

/// The Unicode icon of a category.
pub open spec fn icon_text(c: DiagnosticCategory) -> Seq<char> {
    match c {
        DiagnosticCategory::Success => "✔"@,
        DiagnosticCategory::Info => "ℹ"@,
        DiagnosticCategory::Warning => "⚠"@,
        DiagnosticCategory::Error => "✖"@,
    }
}

/// The plain-text tag of a category.
pub open spec fn fallback_text(c: DiagnosticCategory) -> Seq<char> {
    match c {
        DiagnosticCategory::Success => "[SUCCESS]"@,
        DiagnosticCategory::Info => "[INFO]"@,
        DiagnosticCategory::Warning => "[WARN]"@,
        DiagnosticCategory::Error => "[ERROR]"@,
    }
}

/// The ANSI color escape of a category.
pub open spec fn color_text(c: DiagnosticCategory) -> Seq<char> {
    match c {
        DiagnosticCategory::Success => "\x1b[32m"@,
        DiagnosticCategory::Info => "\x1b[34m"@,
        DiagnosticCategory::Warning => "\x1b[33m"@,
        DiagnosticCategory::Error => "\x1b[31m"@,
    }
}

impl DiagnosticCategory {
    /// The Unicode icon: ✔, ℹ, ⚠ or ✖.
    pub fn icon(&self) -> (r: &'static str)
        ensures
            r@ == icon_text(*self),
    {
        match self {
            DiagnosticCategory::Success => "✔",
            DiagnosticCategory::Info => "ℹ",
            DiagnosticCategory::Warning => "⚠",
            DiagnosticCategory::Error => "✖",
        }
    }

    /// The plain-text tag, for terminals without Unicode.
    pub fn fallback(&self) -> (r: &'static str)
        ensures
            r@ == fallback_text(*self),
    {
        match self {
            DiagnosticCategory::Success => "[SUCCESS]",
            DiagnosticCategory::Info => "[INFO]",
            DiagnosticCategory::Warning => "[WARN]",
            DiagnosticCategory::Error => "[ERROR]",
        }
    }

    /// The ANSI color escape: green, blue, yellow or red.
    pub fn color_code(&self) -> (r: &'static str)
        ensures
            r@ == color_text(*self),
    {
        match self {
            DiagnosticCategory::Success => "\x1b[32m",
            DiagnosticCategory::Info => "\x1b[34m",
            DiagnosticCategory::Warning => "\x1b[33m",
            DiagnosticCategory::Error => "\x1b[31m",
        }
    }
}

/// A badge: a category shown as an icon or, without Unicode support, as a
/// plain-text tag.
#[derive(Debug, Clone, Copy, PartialEq, Eq, Structural)]
pub struct DiagnosticBadge {
    pub category: DiagnosticCategory,
    pub supports_unicode: bool,
}

impl DiagnosticBadge {
    /// The text of the badge itself.
    pub open spec fn badge_spec(self) -> Seq<char> {
        if self.supports_unicode {
            icon_text(self.category)
        } else {
            fallback_text(self.category)
        }
    }

    /// A badge.
    pub fn new(category: DiagnosticCategory, supports_unicode: bool) -> (r: Self)
        ensures
            r == (DiagnosticBadge { category, supports_unicode }),
    {
        DiagnosticBadge { category, supports_unicode }
    }

    /// A message behind the colored badge: color, badge, a space, the color
    /// reset, then the message.
    pub fn format_message(&self, message: &str) -> (r: String)
        ensures
            r@ == color_text(self.category) + self.badge_spec() + " \x1b[0m"@ + message@,
    {
        let badge_text = if self.supports_unicode {
            self.category.icon()
        } else {
            self.category.fallback()
        };
        let mut s = String::from_str(self.category.color_code());
        append(&mut s, badge_text);
        append(&mut s, " \x1b[0m");
        append(&mut s, message);
        s
    }

    /// The colored badge alone: color, badge, color reset (what the badge
    /// displays as).
    pub fn to_text(&self) -> (r: String)
        ensures
            r@ == color_text(self.category) + self.badge_spec() + "\x1b[0m"@,
    {
        let badge_text = if self.supports_unicode {
            self.category.icon()
        } else {
            self.category.fallback()
        };
        let mut s = String::from_str(self.category.color_code());
        append(&mut s, badge_text);
        append(&mut s, "\x1b[0m");
        s
    }
}

} // verus!
