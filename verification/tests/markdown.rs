use grat_core::markdown::{MdEvent, MdHeadingLevel, MdTag, MdTagEnd};
use grat_core::markdown_parse::parse_markdown;
use grat_core::markdown_render::{bullet_for_depth, items_nested, MarkdownRenderer};
use pulldown_cmark::{Event, HeadingLevel, Options, Parser, Tag, TagEnd};

fn level(level: HeadingLevel) -> MdHeadingLevel {
    match level {
        HeadingLevel::H1 => MdHeadingLevel::H1,
        HeadingLevel::H2 => MdHeadingLevel::H2,
        HeadingLevel::H3 => MdHeadingLevel::H3,
        HeadingLevel::H4 => MdHeadingLevel::H4,
        HeadingLevel::H5 => MdHeadingLevel::H5,
        HeadingLevel::H6 => MdHeadingLevel::H6,
    }
}

fn tag(tag: Tag<'_>) -> MdTag {
    match tag {
        Tag::Paragraph => MdTag::Paragraph,
        Tag::Heading { .. } => MdTag::Heading,
        Tag::CodeBlock(_) => MdTag::CodeBlock,
        Tag::HtmlBlock => MdTag::HtmlBlock,
        Tag::List(start) => MdTag::List(start),
        Tag::Item => MdTag::Item,
        Tag::BlockQuote(_) => MdTag::BlockQuote,
        Tag::Table(_) => MdTag::Table,
        Tag::TableHead => MdTag::TableHead,
        Tag::TableRow => MdTag::TableRow,
        Tag::TableCell => MdTag::TableCell,
        Tag::FootnoteDefinition(name) => MdTag::FootnoteDefinition(name.into_string()),
        Tag::Emphasis => MdTag::Emphasis,
        Tag::Strong => MdTag::Strong,
        Tag::Strikethrough => MdTag::Strikethrough,
        Tag::Link { dest_url, .. } => MdTag::Link(dest_url.into_string()),
        Tag::Image { .. } => MdTag::Image,
        _ => MdTag::Other,
    }
}

fn tag_end(tag: TagEnd) -> MdTagEnd {
    match tag {
        TagEnd::Paragraph => MdTagEnd::Paragraph,
        TagEnd::Heading(l) => MdTagEnd::Heading(level(l)),
        TagEnd::CodeBlock => MdTagEnd::CodeBlock,
        TagEnd::HtmlBlock => MdTagEnd::HtmlBlock,
        TagEnd::List(_) => MdTagEnd::List,
        TagEnd::Item => MdTagEnd::Item,
        TagEnd::BlockQuote(_) => MdTagEnd::BlockQuote,
        TagEnd::Table => MdTagEnd::Table,
        TagEnd::TableHead => MdTagEnd::TableHead,
        TagEnd::TableRow => MdTagEnd::TableRow,
        TagEnd::TableCell => MdTagEnd::TableCell,
        TagEnd::Link => MdTagEnd::Link,
        TagEnd::Image => MdTagEnd::Image,
        TagEnd::Emphasis => MdTagEnd::Emphasis,
        TagEnd::Strong => MdTagEnd::Strong,
        TagEnd::Strikethrough => MdTagEnd::Strikethrough,
        _ => MdTagEnd::Other,
    }
}

fn event(event: Event<'_>) -> MdEvent {
    match event {
        Event::Start(t) => MdEvent::Start(tag(t)),
        Event::End(t) => MdEvent::End(tag_end(t)),
        Event::Text(text) => MdEvent::Text(text.into_string()),
        Event::Code(text) => MdEvent::Code(text.into_string()),
        Event::Html(text) => MdEvent::Html(text.into_string()),
        Event::InlineHtml(text) => MdEvent::InlineHtml(text.into_string()),
        Event::FootnoteReference(name) => MdEvent::FootnoteReference(name.into_string()),
        Event::HardBreak => MdEvent::HardBreak,
        Event::Rule => MdEvent::Rule,
        Event::TaskListMarker(checked) => MdEvent::TaskListMarker(checked),
        Event::SoftBreak | Event::InlineMath(_) | Event::DisplayMath(_) => MdEvent::Ignored,
    }
}

fn parse(markdown: &str) -> Vec<MdEvent> {
    let options = Options::ENABLE_TABLES
        | Options::ENABLE_FOOTNOTES
        | Options::ENABLE_STRIKETHROUGH
        | Options::ENABLE_TASKLISTS;
    Parser::new_ext(markdown, options).map(event).collect()
}

fn render_with(renderer: MarkdownRenderer, markdown: &str, colors: bool) -> String {
    renderer.render(markdown, colors)
}

fn strip_ansi(text: &str) -> String {
    let mut out = String::new();
    let mut chars = text.chars();
    while let Some(ch) = chars.next() {
        if ch == '\u{1b}' {
            for next in chars.by_ref() {
                if next == 'm' {
                    break;
                }
            }
        } else {
            out.push(ch);
        }
    }
    out
}

fn render(markdown: &str) -> String {
    render_with(MarkdownRenderer::with_width(80), markdown, true)
}

fn render_plain(markdown: &str) -> String {
    strip_ansi(&render(markdown))
}

#[test]
fn renders_headings_and_emphasis() {
    let out = render_plain("# Title\n\nSome **bold** and *italic* and ~~struck~~ text.");
    assert!(out.contains("Title"), "heading text missing: {out:?}");
    assert!(
        out.contains("Some bold and italic and struck text."),
        "paragraph text missing: {out:?}"
    );
    let colored = render("# Title");
    assert!(colored.contains('\u{1b}'), "expected ANSI escapes when colors are on");
}

#[test]
fn renders_unordered_list_with_bullets() {
    let out = render_plain("- one\n- two\n- three");
    assert!(out.contains("• one"), "bullet missing: {out:?}");
    assert!(out.contains("• two"));
    assert!(out.contains("• three"));
}

#[test]
fn renders_ordered_list_with_numbers() {
    let out = render_plain("1. first\n2. second");
    assert!(out.contains("1. first"), "numbering missing: {out:?}");
    assert!(out.contains("2. second"));
}

#[test]
fn renders_nested_list_with_indentation() {
    let out = render_plain("- outer\n  - inner");
    assert!(out.contains("• outer"));
    assert!(out.contains("◦ inner"), "nested bullet missing: {out:?}");
}

#[test]
fn renders_task_list_checkboxes() {
    let out = render_plain("- [x] done\n- [ ] pending");
    assert!(out.contains("• [x] done"), "checked marker missing: {out:?}");
    assert!(out.contains("• [ ] pending"));
}

#[test]
fn renders_code_blocks_verbatim() {
    let out = render_plain("```rust\nfn main() {\n    let x = 1;\n}\n```");
    assert!(out.contains("fn main() {"), "code missing: {out:?}");
    assert!(out.contains("let x = 1;"));
    assert!(out.contains('}'));
}

#[test]
fn renders_blockquotes_with_bar() {
    let out = render_plain("> quoted wisdom");
    assert!(out.contains("│ quoted wisdom"), "quote bar missing: {out:?}");
}

#[test]
fn renders_links_with_url() {
    let out = render_plain("See [docs](https://example.com) for details.");
    assert!(
        out.contains("See docs (https://example.com) for details."),
        "link missing: {out:?}"
    );
}

#[test]
fn wraps_long_paragraph_to_width() {
    let width = 30;
    let out = strip_ansi(&render_with(
        MarkdownRenderer::with_width(width),
        "one two three four five six seven eight nine ten eleven twelve thirteen",
        true,
    ));
    for line in out.lines() {
        assert!(line.chars().count() <= width, "line {line:?} exceeds width {width}");
    }
}

#[test]
fn wraps_list_items_with_hanging_indent() {
    let width = 20;
    let out = strip_ansi(&render_with(
        MarkdownRenderer::with_width(width),
        "- a long list item that really should wrap onto several lines of text",
        true,
    ));
    let lines: Vec<&str> = out.lines().collect();
    assert!(lines.len() > 1, "expected wrapping: {out:?}");
    for line in &lines {
        assert!(line.chars().count() <= width, "line {line:?} exceeds width");
    }
}

#[test]
fn renders_tables() {
    let out = render_plain("| A | B |\n|---|---|\n| 1 | 2 |");
    assert!(out.contains("A | B"), "header missing: {out:?}");
    assert!(out.contains("1 | 2"));
}

#[test]
fn renders_footnotes() {
    let out = render_plain("Reference[^1].\n\n[^1]: The footnote body.");
    assert!(out.contains("[1] The footnote body."), "footnote missing: {out:?}");
}

#[test]
fn renders_horizontal_rule() {
    let out = render_plain("---");
    assert!(out.contains('─'), "rule missing: {out:?}");
}

#[test]
fn empty_input_renders_empty_output() {
    assert_eq!(render(""), "");
    assert_eq!(render("   \n\n  "), "");
}

#[test]
fn colors_can_be_disabled() {
    let out = render_with(MarkdownRenderer::with_width(80), "# Heading\n\nSome **bold** text.", false);
    assert!(!out.contains('\u{1b}'), "expected no ANSI codes: {out:?}");
    assert!(out.contains("Heading"));
    assert!(out.contains("Some bold text."));
}

#[test]
fn code_spans_are_rendered_inline() {
    let out = render_plain("Run `grat decode` now.");
    assert!(out.contains("Run grat decode now."), "code span missing: {out:?}");
}

#[test]
fn renders_loose_list_with_paragraph_items() {
    let out = render_plain("- first paragraph\n\n- second paragraph");
    assert!(out.contains("• first paragraph"));
    assert!(out.contains("• second paragraph"));
}

#[test]
fn paragraphs_and_headings_are_separated_by_blank_lines() {
    let out = render_plain("# Title\n\nFirst paragraph.\n\nSecond paragraph.");
    assert!(out.contains("Title\n\nFirst paragraph."), "missing blank: {out:?}");
    assert!(
        out.contains("First paragraph.\n\nSecond paragraph."),
        "missing blank between paragraphs: {out:?}"
    );
}

#[test]
fn wrapped_lines_do_not_end_with_trailing_spaces() {
    let out = strip_ansi(&render_with(
        MarkdownRenderer::with_width(20),
        "alpha beta gamma delta epsilon zeta eta theta iota kappa lambda",
        true,
    ));
    for line in out.lines() {
        assert!(!line.ends_with(' '), "line has trailing space: {line:?} (full: {out:?})");
    }
}

#[test]
fn heading_levels_produce_style_codes() {
    let out = render("# One\n\n## Two\n\n### Three");
    assert!(out.contains("\u{1b}["), "headings not styled: {out:?}");
    assert!(out.contains("One"));
    assert!(out.contains("Two"));
    assert!(out.contains("Three"));
}

#[test]
fn heading_output_is_exact() {
    let out = render("# Title");
    assert_eq!(out, "\u{1b}[37;1;4mTitle\u{1b}[0m\n");
    let plain = render_with(MarkdownRenderer::with_width(80), "# Title", false);
    assert_eq!(plain, "Title\n");
}

#[test]
fn nested_emphasis_gets_styled_inside_plain_outer_style() {
    // At the top level an emphasis opens the plain style; nested inside it,
    // strong adds bold to that plain style.
    let out = render("*a **b***");
    assert_eq!(out, "a \u{1b}[1mb\u{1b}[0m\n");
}

#[test]
fn width_is_at_least_twenty() {
    let out = strip_ansi(&render_with(MarkdownRenderer::with_width(5), "aaaa bbbb cccc dddd eeee ffff", false));
    assert_eq!(out, "aaaa bbbb cccc dddd\neeee ffff\n");
}

#[test]
fn narrow_widths_render_as_the_narrowest() {
    let doc = "# Title\n\nsome words that wrap at twenty columns and no fewer\n\n- item one\n- item two";
    for width in [0usize, 1, 7, 19] {
        assert_eq!(
            render_with(MarkdownRenderer::with_width(width), doc, true),
            render_with(MarkdownRenderer::with_width(20), doc, true)
        );
    }
}

#[test]
fn unknown_terminal_size_falls_back_to_eighty_columns() {
    let words = "word ".repeat(30);
    let out = render_with(MarkdownRenderer::for_terminal(None), &words, false);
    let first = out.lines().next().unwrap_or("");
    assert_eq!(first.chars().count(), 79);
    let narrow = render_with(MarkdownRenderer::for_terminal(Some(10)), &words, false);
    assert_eq!(narrow.lines().next().unwrap_or("").chars().count(), 19);
}

#[test]
fn bullets_cycle_with_depth() {
    assert_eq!(bullet_for_depth(1), "• ");
    assert_eq!(bullet_for_depth(2), "◦ ");
    assert_eq!(bullet_for_depth(3), "▪ ");
    assert_eq!(bullet_for_depth(4), "• ");
}

#[test]
fn rule_spans_the_width() {
    let out = render_with(MarkdownRenderer::with_width(30), "---", false);
    assert_eq!(out, format!("{}\n", "─".repeat(30)));
}

#[test]
fn block_quote_continuation_repeats_the_bar() {
    let out = render_with(
        MarkdownRenderer::with_width(20),
        "> alpha beta gamma delta epsilon",
        false,
    );
    assert_eq!(out, "│ alpha beta gamma\n│ delta epsilon\n");
}

#[test]
fn library_parse_gives_the_parser_events() {
    let doc = "# Title\n\nSome *em* **strong** ~~gone~~ `code` <b>x</b> [link](https://x.y) ![img](a.png)[^1]\n\n\
               - [x] done\n- [ ] open\n  1. first\n  2. second\n\n> quoted\n\n```\ncode block\n```\n\n\
               | a | b |\n|---|---|\n| 1 | 2 |\n\n---\n\n<div>html</div>\n\n[^1]: note\n\n###### Small\nline  \nbreak\n";
    assert_eq!(parse_markdown(doc), parse(doc));
    assert!(parse(doc).len() > 40);
}

#[test]
fn checked_render_refuses_nothing_that_parses_into_lists() {
    let renderer = MarkdownRenderer::with_width(40);
    assert_eq!(renderer.checked_render("- a\n- b\n", false), Some(renderer.render("- a\n- b\n", false)));
    assert!(items_nested(&parse("- a\n  - b\n")));
    assert!(!items_nested(&[MdEvent::Start(MdTag::Item)]));
}
