//! Parsing Markdown with `pulldown-cmark` (tables, footnotes,
//! strikethrough and task lists) into the renderer's event model.
//!
//! Each reading below parses the document and looks at one event; the
//! events are put together by verified code.
use vstd::prelude::*;
use pulldown_cmark::Event::{Code, End, FootnoteReference, HardBreak, Html, InlineHtml, Rule, Start, TaskListMarker, Text};
use pulldown_cmark::HeadingLevel::{H1, H2, H3, H4, H5, H6};
use pulldown_cmark::Tag::{
    BlockQuote, CodeBlock, Emphasis, FootnoteDefinition, Heading, HtmlBlock, Image, Item, Link, List, Paragraph,
    Strikethrough, Strong, Table, TableCell, TableHead, TableRow,
};
use pulldown_cmark::{Options, Parser, TagEnd};
use crate::markdown::{MdEvent, MdHeadingLevel, MdTag, MdTagEnd};

verus! {

/// The parse events of a Markdown document, as `pulldown-cmark` gives them
/// with tables, footnotes, strikethrough and task lists enabled, in the
/// renderer's event model.
pub uninterp spec fn md_events(md: Seq<char>) -> Seq<MdEvent>;

/// The number of an event's kind.
pub open spec fn event_shape(e: MdEvent) -> u8 {
    match e {
        MdEvent::Start(_) => 0,
        MdEvent::End(_) => 1,
        MdEvent::Text(_) => 2,
        MdEvent::Code(_) => 3,
        MdEvent::Html(_) => 4,
        MdEvent::InlineHtml(_) => 5,
        MdEvent::FootnoteReference(_) => 6,
        MdEvent::HardBreak => 7,
        MdEvent::Rule => 8,
        MdEvent::TaskListMarker(_) => 9,
        MdEvent::Ignored => 10,
    }
}

/// The number of an opening tag's kind.
pub open spec fn start_code(t: MdTag) -> u8 {
    match t {
        MdTag::Paragraph => 0,
        MdTag::Heading => 1,
        MdTag::CodeBlock => 2,
        MdTag::HtmlBlock => 3,
        MdTag::List(_) => 4,
        MdTag::Item => 5,
        MdTag::BlockQuote => 6,
        MdTag::Table => 7,
        MdTag::TableHead => 8,
        MdTag::TableRow => 9,
        MdTag::TableCell => 10,
        MdTag::FootnoteDefinition(_) => 11,
        MdTag::Emphasis => 12,
        MdTag::Strong => 13,
        MdTag::Strikethrough => 14,
        MdTag::Link(_) => 15,
        MdTag::Image => 16,
        MdTag::Other => 17,
    }
}

/// The number of a closing tag's kind.
pub open spec fn end_code(t: MdTagEnd) -> u8 {
    match t {
        MdTagEnd::Paragraph => 0,
        MdTagEnd::Heading(_) => 1,
        MdTagEnd::CodeBlock => 2,
        MdTagEnd::HtmlBlock => 3,
        MdTagEnd::List => 4,
        MdTagEnd::Item => 5,
        MdTagEnd::BlockQuote => 6,
        MdTagEnd::Table => 7,
        MdTagEnd::TableHead => 8,
        MdTagEnd::TableRow => 9,
        MdTagEnd::TableCell => 10,
        MdTagEnd::Link => 11,
        MdTagEnd::Image => 12,
        MdTagEnd::Emphasis => 13,
        MdTagEnd::Strong => 14,
        MdTagEnd::Strikethrough => 15,
        MdTagEnd::Other => 16,
    }
}

/// The number of a heading level.
pub open spec fn level_code(l: MdHeadingLevel) -> u8 {
    match l {
        MdHeadingLevel::H1 => 1,
        MdHeadingLevel::H2 => 2,
        MdHeadingLevel::H3 => 3,
        MdHeadingLevel::H4 => 4,
        MdHeadingLevel::H5 => 5,
        MdHeadingLevel::H6 => 6,
    }
}

/// The number of events of a document (`Parser::new_ext` of
/// `pulldown-cmark`).
///
/// Trusted: the events depend on the text alone.
#[verifier::external_body]
fn md_event_count(md: &str) -> (r: usize)
    ensures
        r == md_events(md@).len(),
{
    let options = Options::ENABLE_TABLES | Options::ENABLE_FOOTNOTES | Options::ENABLE_STRIKETHROUGH;
    Parser::new_ext(md, options | Options::ENABLE_TASKLISTS).count()
}

/// The kind of event `i` of a document (`Parser::new_ext` of
/// `pulldown-cmark`). Soft breaks and math are of the dropped kind.
///
/// Trusted: the events depend on the text alone.
#[verifier::external_body]
fn md_event_shape(md: &str, i: usize) -> (r: u8)
    requires
        i < md_events(md@).len(),
    ensures
        r == event_shape(md_events(md@)[i as int]),
{
    let options = Options::ENABLE_TABLES | Options::ENABLE_FOOTNOTES | Options::ENABLE_STRIKETHROUGH;
    match Parser::new_ext(md, options | Options::ENABLE_TASKLISTS).nth(i) {
        Some(Start(_)) => 0,
        Some(End(_)) => 1,
        Some(Text(_)) => 2,
        Some(Code(_)) => 3,
        Some(Html(_)) => 4,
        Some(InlineHtml(_)) => 5,
        Some(FootnoteReference(_)) => 6,
        Some(HardBreak) => 7,
        Some(Rule) => 8,
        Some(TaskListMarker(_)) => 9,
        _ => 10,
    }
}

/// The text of event `i` of a document, when it is a text, code, HTML or
/// footnote reference event (`Parser::new_ext` of `pulldown-cmark`).
///
/// Trusted: the events depend on the text alone.
#[verifier::external_body]
fn md_event_text(md: &str, i: usize) -> (r: String)
    requires
        i < md_events(md@).len(),
    ensures
        md_events(md@)[i as int] matches MdEvent::Text(t) ==> r == t,
        md_events(md@)[i as int] matches MdEvent::Code(t) ==> r == t,
        md_events(md@)[i as int] matches MdEvent::Html(t) ==> r == t,
        md_events(md@)[i as int] matches MdEvent::InlineHtml(t) ==> r == t,
        md_events(md@)[i as int] matches MdEvent::FootnoteReference(t) ==> r == t,
{
    let options = Options::ENABLE_TABLES | Options::ENABLE_FOOTNOTES | Options::ENABLE_STRIKETHROUGH;
    match Parser::new_ext(md, options | Options::ENABLE_TASKLISTS).nth(i) {
        Some(Text(t) | Code(t) | Html(t) | InlineHtml(t) | FootnoteReference(t)) => t.into_string(),
        _ => String::new(),
    }
}

/// Whether the task list marker at event `i` of a document is checked
/// (`Parser::new_ext` of `pulldown-cmark`).
///
/// Trusted: the events depend on the text alone.
#[verifier::external_body]
fn md_task_checked(md: &str, i: usize) -> (r: bool)
    requires
        i < md_events(md@).len(),
    ensures
        md_events(md@)[i as int] matches MdEvent::TaskListMarker(b) ==> r == b,
{
    let options = Options::ENABLE_TABLES | Options::ENABLE_FOOTNOTES | Options::ENABLE_STRIKETHROUGH;
    matches!(Parser::new_ext(md, options | Options::ENABLE_TASKLISTS).nth(i), Some(TaskListMarker(true)))
}

/// The kind of the block tag that event `i` of a document opens, or 11
/// for any other tag (`Parser::new_ext` of `pulldown-cmark`).
///
/// Trusted: the events depend on the text alone.
#[verifier::external_body]
fn md_block_start(md: &str, i: usize) -> (r: u8)
    requires
        i < md_events(md@).len(),
    ensures
        md_events(md@)[i as int] matches MdEvent::Start(t) ==> r == if start_code(t) < 11 { start_code(t) } else { 11 },
{
    let options = Options::ENABLE_TABLES | Options::ENABLE_FOOTNOTES | Options::ENABLE_STRIKETHROUGH;
    match Parser::new_ext(md, options | Options::ENABLE_TASKLISTS).nth(i) {
        Some(Start(Paragraph)) => 0,
        Some(Start(Heading { .. })) => 1,
        Some(Start(CodeBlock(_))) => 2,
        Some(Start(HtmlBlock)) => 3,
        Some(Start(List(_))) => 4,
        Some(Start(Item)) => 5,
        Some(Start(BlockQuote(_))) => 6,
        Some(Start(Table(_))) => 7,
        Some(Start(TableHead)) => 8,
        Some(Start(TableRow)) => 9,
        Some(Start(TableCell)) => 10,
        _ => 11,
    }
}

/// The kind of the other tag that event `i` of a document opens
/// (`Parser::new_ext` of `pulldown-cmark`): footnote definitions,
/// emphasis, strong, strikethrough, links, images, or 17 for the rest.
///
/// Trusted: the events depend on the text alone.
#[verifier::external_body]
fn md_inline_start(md: &str, i: usize) -> (r: u8)
    requires
        i < md_events(md@).len(),
    ensures
        md_events(md@)[i as int] matches MdEvent::Start(t) ==> (start_code(t) >= 11 ==> r == start_code(t)),
{
    let options = Options::ENABLE_TABLES | Options::ENABLE_FOOTNOTES | Options::ENABLE_STRIKETHROUGH;
    match Parser::new_ext(md, options | Options::ENABLE_TASKLISTS).nth(i) {
        Some(Start(FootnoteDefinition(_))) => 11,
        Some(Start(Emphasis)) => 12,
        Some(Start(Strong)) => 13,
        Some(Start(Strikethrough)) => 14,
        Some(Start(Link { .. })) => 15,
        Some(Start(Image { .. })) => 16,
        _ => 17,
    }
}

/// The number of the first item of the list that event `i` of a document
/// opens, when ordered (`Parser::new_ext` of `pulldown-cmark`).
///
/// Trusted: the events depend on the text alone.
#[verifier::external_body]
fn md_list_start(md: &str, i: usize) -> (r: Option<u64>)
    requires
        i < md_events(md@).len(),
    ensures
        md_events(md@)[i as int] matches MdEvent::Start(MdTag::List(s)) ==> r == s,
{
    let options = Options::ENABLE_TABLES | Options::ENABLE_FOOTNOTES | Options::ENABLE_STRIKETHROUGH;
    match Parser::new_ext(md, options | Options::ENABLE_TASKLISTS).nth(i) {
        Some(Start(List(start))) => start,
        _ => None,
    }
}

/// The label of the footnote definition, or the destination of the link,
/// that event `i` of a document opens (`Parser::new_ext` of
/// `pulldown-cmark`).
///
/// Trusted: the events depend on the text alone.
#[verifier::external_body]
fn md_tag_text(md: &str, i: usize) -> (r: String)
    requires
        i < md_events(md@).len(),
    ensures
        md_events(md@)[i as int] matches MdEvent::Start(MdTag::FootnoteDefinition(t)) ==> r == t,
        md_events(md@)[i as int] matches MdEvent::Start(MdTag::Link(t)) ==> r == t,
{
    let options = Options::ENABLE_TABLES | Options::ENABLE_FOOTNOTES | Options::ENABLE_STRIKETHROUGH;
    match Parser::new_ext(md, options | Options::ENABLE_TASKLISTS).nth(i) {
        Some(Start(FootnoteDefinition(label))) => label.into_string(),
        Some(Start(Link { dest_url, .. })) => dest_url.into_string(),
        _ => String::new(),
    }
}

/// The kind of the block tag that event `i` of a document closes, or 11
/// for any other tag (`Parser::new_ext` of `pulldown-cmark`).
///
/// Trusted: the events depend on the text alone.
#[verifier::external_body]
fn md_block_end(md: &str, i: usize) -> (r: u8)
    requires
        i < md_events(md@).len(),
    ensures
        md_events(md@)[i as int] matches MdEvent::End(t) ==> r == if end_code(t) < 11 { end_code(t) } else { 11 },
{
    let options = Options::ENABLE_TABLES | Options::ENABLE_FOOTNOTES | Options::ENABLE_STRIKETHROUGH;
    match Parser::new_ext(md, options | Options::ENABLE_TASKLISTS).nth(i) {
        Some(End(TagEnd::Paragraph)) => 0,
        Some(End(TagEnd::Heading(_))) => 1,
        Some(End(TagEnd::CodeBlock)) => 2,
        Some(End(TagEnd::HtmlBlock)) => 3,
        Some(End(TagEnd::List(_))) => 4,
        Some(End(TagEnd::Item)) => 5,
        Some(End(TagEnd::BlockQuote(_))) => 6,
        Some(End(TagEnd::Table)) => 7,
        Some(End(TagEnd::TableHead)) => 8,
        Some(End(TagEnd::TableRow)) => 9,
        Some(End(TagEnd::TableCell)) => 10,
        _ => 11,
    }
}

/// The kind of the other tag that event `i` of a document closes
/// (`Parser::new_ext` of `pulldown-cmark`): links, images, emphasis,
/// strong, strikethrough, or 16 for the rest.
///
/// Trusted: the events depend on the text alone.
#[verifier::external_body]
fn md_inline_end(md: &str, i: usize) -> (r: u8)
    requires
        i < md_events(md@).len(),
    ensures
        md_events(md@)[i as int] matches MdEvent::End(t) ==> (end_code(t) >= 11 ==> r == end_code(t)),
{
    let options = Options::ENABLE_TABLES | Options::ENABLE_FOOTNOTES | Options::ENABLE_STRIKETHROUGH;
    match Parser::new_ext(md, options | Options::ENABLE_TASKLISTS).nth(i) {
        Some(End(TagEnd::Link)) => 11,
        Some(End(TagEnd::Image)) => 12,
        Some(End(TagEnd::Emphasis)) => 13,
        Some(End(TagEnd::Strong)) => 14,
        Some(End(TagEnd::Strikethrough)) => 15,
        _ => 16,
    }
}

/// The level of the heading that event `i` of a document closes
/// (`Parser::new_ext` of `pulldown-cmark`).
///
/// Trusted: the events depend on the text alone.
#[verifier::external_body]
fn md_heading_level(md: &str, i: usize) -> (r: u8)
    requires
        i < md_events(md@).len(),
    ensures
        md_events(md@)[i as int] matches MdEvent::End(MdTagEnd::Heading(l)) ==> r == level_code(l),
{
    let options = Options::ENABLE_TABLES | Options::ENABLE_FOOTNOTES | Options::ENABLE_STRIKETHROUGH;
    match Parser::new_ext(md, options | Options::ENABLE_TASKLISTS).nth(i) {
        Some(End(TagEnd::Heading(H1))) => 1,
        Some(End(TagEnd::Heading(H2))) => 2,
        Some(End(TagEnd::Heading(H3))) => 3,
        Some(End(TagEnd::Heading(H4))) => 4,
        Some(End(TagEnd::Heading(H5))) => 5,
        _ => 6,
    }
}

fn start_tag(md: &str, i: usize) -> (r: MdTag)
    requires
        i < md_events(md@).len(),
        md_events(md@)[i as int] is Start,
    ensures
        md_events(md@)[i as int] == MdEvent::Start(r),
{
    let block = md_block_start(md, i);
    let code = if block < 11 { block } else { md_inline_start(md, i) };
    match code {
        0 => MdTag::Paragraph,
        1 => MdTag::Heading,
        2 => MdTag::CodeBlock,
        3 => MdTag::HtmlBlock,
        4 => MdTag::List(md_list_start(md, i)),
        5 => MdTag::Item,
        6 => MdTag::BlockQuote,
        7 => MdTag::Table,
        8 => MdTag::TableHead,
        9 => MdTag::TableRow,
        10 => MdTag::TableCell,
        11 => MdTag::FootnoteDefinition(md_tag_text(md, i)),
        12 => MdTag::Emphasis,
        13 => MdTag::Strong,
        14 => MdTag::Strikethrough,
        15 => MdTag::Link(md_tag_text(md, i)),
        16 => MdTag::Image,
        _ => MdTag::Other,
    }
}

fn end_tag(md: &str, i: usize) -> (r: MdTagEnd)
    requires
        i < md_events(md@).len(),
        md_events(md@)[i as int] is End,
    ensures
        md_events(md@)[i as int] == MdEvent::End(r),
{
    let block = md_block_end(md, i);
    let code = if block < 11 { block } else { md_inline_end(md, i) };
    match code {
        0 => MdTagEnd::Paragraph,
        1 => MdTagEnd::Heading(match md_heading_level(md, i) {
            1 => MdHeadingLevel::H1,
            2 => MdHeadingLevel::H2,
            3 => MdHeadingLevel::H3,
            4 => MdHeadingLevel::H4,
            5 => MdHeadingLevel::H5,
            _ => MdHeadingLevel::H6,
        }),
        2 => MdTagEnd::CodeBlock,
        3 => MdTagEnd::HtmlBlock,
        4 => MdTagEnd::List,
        5 => MdTagEnd::Item,
        6 => MdTagEnd::BlockQuote,
        7 => MdTagEnd::Table,
        8 => MdTagEnd::TableHead,
        9 => MdTagEnd::TableRow,
        10 => MdTagEnd::TableCell,
        11 => MdTagEnd::Link,
        12 => MdTagEnd::Image,
        13 => MdTagEnd::Emphasis,
        14 => MdTagEnd::Strong,
        15 => MdTagEnd::Strikethrough,
        _ => MdTagEnd::Other,
    }
}

fn md_event(md: &str, i: usize) -> (r: MdEvent)
    requires
        i < md_events(md@).len(),
    ensures
        r == md_events(md@)[i as int],
{
    match md_event_shape(md, i) {
        0 => MdEvent::Start(start_tag(md, i)),
        1 => MdEvent::End(end_tag(md, i)),
        2 => MdEvent::Text(md_event_text(md, i)),
        3 => MdEvent::Code(md_event_text(md, i)),
        4 => MdEvent::Html(md_event_text(md, i)),
        5 => MdEvent::InlineHtml(md_event_text(md, i)),
        6 => MdEvent::FootnoteReference(md_event_text(md, i)),
        7 => MdEvent::HardBreak,
        8 => MdEvent::Rule,
        9 => MdEvent::TaskListMarker(md_task_checked(md, i)),
        _ => MdEvent::Ignored,
    }
}

/// The parse events of a Markdown document.
pub fn parse_markdown(md: &str) -> (r: Vec<MdEvent>)
    ensures
        r@ == md_events(md@),
{
    let n = md_event_count(md);
    let mut events: Vec<MdEvent> = Vec::new();
    for i in 0..n
        invariant
            n == md_events(md@).len(),
            events@ == md_events(md@).take(i as int),
    {
        let e = md_event(md, i);
        events.push(e);
        assert(md_events(md@).take(i + 1) =~= md_events(md@).take(i as int).push(md_events(md@)[i as int]));
    }
    assert(md_events(md@).take(n as int) =~= md_events(md@));
    events
}

} // verus!
