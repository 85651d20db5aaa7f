use grat_core::theme::ColorPalette;

fn has_ansi(s: &str) -> bool {
    s.contains('\x1b')
}

// ---------------------------------------------------------------------------
// Colors off
// ---------------------------------------------------------------------------

#[test]
fn error_text_no_ansi_when_colors_disabled() {
    let palette = ColorPalette::default();
    let result = palette.error_text("something failed", false);
    assert_eq!(result, "something failed");
    assert!(!has_ansi(&result), "expected no ANSI codes, got: {:?}", result);
}

#[test]
fn warning_text_no_ansi_when_colors_disabled() {
    let palette = ColorPalette::default();
    let result = palette.warning_text("low disk space", false);
    assert_eq!(result, "low disk space");
    assert!(!has_ansi(&result), "expected no ANSI codes, got: {:?}", result);
}

#[test]
fn success_text_no_ansi_when_colors_disabled() {
    let palette = ColorPalette::default();
    let result = palette.success_text("transaction confirmed", false);
    assert_eq!(result, "transaction confirmed");
    assert!(!has_ansi(&result), "expected no ANSI codes, got: {:?}", result);
}

#[test]
fn metadata_text_no_ansi_when_colors_disabled() {
    let palette = ColorPalette::default();
    let result = palette.metadata_text("ledger: 12345", false);
    assert_eq!(result, "ledger: 12345");
    assert!(!has_ansi(&result), "expected no ANSI codes, got: {:?}", result);
}

#[test]
fn muted_text_no_ansi_when_colors_disabled() {
    let palette = ColorPalette::default();
    let result = palette.muted_text("optional detail", false);
    assert_eq!(result, "optional detail");
    assert!(!has_ansi(&result), "expected no ANSI codes, got: {:?}", result);
}

#[test]
fn accent_text_no_ansi_when_colors_disabled() {
    let palette = ColorPalette::default();
    let result = palette.accent_text("highlighted", false);
    assert_eq!(result, "highlighted");
    assert!(!has_ansi(&result), "expected no ANSI codes, got: {:?}", result);
}

#[test]
fn all_methods_return_raw_string_when_colors_disabled() {
    let palette = ColorPalette::default();
    let input = "test string";

    for result in [
        palette.error_text(input, false),
        palette.warning_text(input, false),
        palette.success_text(input, false),
        palette.metadata_text(input, false),
        palette.muted_text(input, false),
        palette.accent_text(input, false),
    ] {
        assert_eq!(result, input, "expected raw string, got: {:?}", result);
        assert!(!has_ansi(&result), "unexpected ANSI in: {:?}", result);
    }
}

// ---------------------------------------------------------------------------
// Colors on
// ---------------------------------------------------------------------------

#[test]
fn error_text_contains_ansi_when_colors_enabled() {
    let palette = ColorPalette::default();
    let result = palette.error_text("something failed", true);
    assert!(has_ansi(&result), "expected ANSI codes, got: {:?}", result);
}

#[test]
fn warning_text_contains_ansi_when_colors_enabled() {
    let palette = ColorPalette::default();
    let result = palette.warning_text("low disk space", true);
    assert!(has_ansi(&result), "expected ANSI codes, got: {:?}", result);
}

#[test]
fn success_text_contains_ansi_when_colors_enabled() {
    let palette = ColorPalette::default();
    let result = palette.success_text("transaction confirmed", true);
    assert!(has_ansi(&result), "expected ANSI codes, got: {:?}", result);
}

#[test]
fn metadata_text_contains_ansi_when_colors_enabled() {
    let palette = ColorPalette::default();
    let result = palette.metadata_text("ledger: 12345", true);
    assert!(has_ansi(&result), "expected ANSI codes, got: {:?}", result);
}

#[test]
fn muted_text_contains_ansi_when_colors_enabled() {
    let palette = ColorPalette::default();
    let result = palette.muted_text("optional detail", true);
    assert!(has_ansi(&result), "expected ANSI codes, got: {:?}", result);
}

#[test]
fn accent_text_contains_ansi_when_colors_enabled() {
    let palette = ColorPalette::default();
    let result = palette.accent_text("highlighted", true);
    assert!(has_ansi(&result), "expected ANSI codes, got: {:?}", result);
}

#[test]
fn toggling_colors_off_then_on_restores_colored_output() {
    let palette = ColorPalette::default();

    let with_color = palette.error_text("err", true);
    assert!(has_ansi(&with_color), "expected ANSI when enabled: {:?}", with_color);

    let without_color = palette.error_text("err", false);
    assert_eq!(without_color, "err");
    assert!(!has_ansi(&without_color), "expected no ANSI when disabled: {:?}", without_color);

    let restored = palette.error_text("err", true);
    assert!(has_ansi(&restored), "expected ANSI restored: {:?}", restored);
}

// ---------------------------------------------------------------------------
// The exact escape sequences
// ---------------------------------------------------------------------------

#[test]
fn palette_styles_write_their_escape_sequences() {
    let palette = ColorPalette::default();
    assert_eq!(palette.error_text("x", true), "\x1b[31;1mx\x1b[0m");
    assert_eq!(palette.warning_text("x", true), "\x1b[33;1mx\x1b[0m");
    assert_eq!(palette.success_text("x", true), "\x1b[32;1mx\x1b[0m");
    assert_eq!(palette.metadata_text("x", true), "\x1b[36mx\x1b[0m");
    assert_eq!(palette.muted_text("x", true), "\x1b[2mx\x1b[0m");
    assert_eq!(palette.accent_text("x", true), "\x1b[37;1mx\x1b[0m");
}
