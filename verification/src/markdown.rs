//! Terminal rendering of Markdown: the document model, the text styles,
//! and the meaning of rendering stated as a machine that consumes parse
//! events one by one.
//!
//! The parse events are those of a CommonMark parser with tables,
//! footnotes, strikethrough and task lists switched on; the library holds
//! them as [`MdEvent`] values. The renderer turns them into lines of text
//! for a terminal of a given width: prose is wrapped at word boundaries,
//! lists and block quotes carry a prefix on every line, and inline styles
//! become ANSI escape sequences when colors are enabled.
use vstd::prelude::*;
use crate::text::{dec_nat, is_ws, join};

verus! {

// ---------------------------------------------------------------------------
// The parse events
// ---------------------------------------------------------------------------

/// The level of a heading.
#[derive(Clone, Copy, Debug, PartialEq, Eq)]
pub enum MdHeadingLevel {
    H1,
    H2,
    H3,
    H4,
    H5,
    H6,
}

/// The opening tag of a Markdown element.
#[derive(Clone, Debug, PartialEq, Eq)]
pub enum MdTag {
    Paragraph,
    Heading,
    CodeBlock,
    HtmlBlock,
    /// A list; ordered lists carry the number of their first item.
    List(Option<u64>),
    Item,
    BlockQuote,
    Table,
    TableHead,
    TableRow,
    TableCell,
    /// A footnote definition with its label.
    FootnoteDefinition(String),
    Emphasis,
    Strong,
    Strikethrough,
    /// A link with its destination.
    Link(String),
    Image,
    /// Any other element (definition lists, metadata blocks, ...).
    Other,
}

/// The closing tag of a Markdown element.
#[derive(Clone, Copy, Debug, PartialEq, Eq)]
pub enum MdTagEnd {
    Paragraph,
    Heading(MdHeadingLevel),
    CodeBlock,
    HtmlBlock,
    List,
    Item,
    BlockQuote,
    Table,
    TableHead,
    TableRow,
    TableCell,
    Link,
    Image,
    Emphasis,
    Strong,
    Strikethrough,
    /// Any other element.
    Other,
}

/// One parse event of a Markdown document.
#[derive(Clone, Debug, PartialEq, Eq)]
pub enum MdEvent {
    Start(MdTag),
    End(MdTagEnd),
    Text(String),
    /// An inline code span.
    Code(String),
    /// A line of a block of HTML.
    Html(String),
    InlineHtml(String),
    FootnoteReference(String),
    HardBreak,
    Rule,
    /// A task list checkbox, checked or not.
    TaskListMarker(bool),
    /// Soft breaks and math, which the renderer drops.
    Ignored,
}

// ---------------------------------------------------------------------------
// Text styles
// ---------------------------------------------------------------------------

/// The foreground colors of the renderer and of the message palette.
#[derive(Clone, Copy, Debug, PartialEq, Eq)]
pub enum AnsiColor {
    Red,
    Green,
    Yellow,
    Cyan,
    White,
}

/// A terminal text style: a foreground color and a set of effects.
#[derive(Clone, Copy, Debug, PartialEq, Eq)]
pub struct TextStyle {
    pub fg: Option<AnsiColor>,
    pub bold: bool,
    pub dimmed: bool,
    pub italic: bool,
    pub underline: bool,
    pub reversed: bool,
    pub strikethrough: bool,
}

/// The style with no color and no effect.
pub open spec fn plain_style() -> TextStyle {
    TextStyle {
        fg: None,
        bold: false,
        dimmed: false,
        italic: false,
        underline: false,
        reversed: false,
        strikethrough: false,
    }
}

/// Whether a style changes nothing.
pub open spec fn is_plain(s: TextStyle) -> bool {
    s == plain_style()
}

/// The ANSI parameter codes of a style, in the order they are written:
/// the color, then bold, dimmed, italic, underline, reversed, struck.
pub open spec fn ansi_codes(s: TextStyle) -> Seq<Seq<char>> {
    (match s.fg {
        Some(AnsiColor::Red) => seq![seq!['3', '1']],
        Some(AnsiColor::Green) => seq![seq!['3', '2']],
        Some(AnsiColor::Yellow) => seq![seq!['3', '3']],
        Some(AnsiColor::Cyan) => seq![seq!['3', '6']],
        Some(AnsiColor::White) => seq![seq!['3', '7']],
        None => Seq::empty(),
    }) + (if s.bold { seq![seq!['1']] } else { Seq::empty() }) + (if s.dimmed {
        seq![seq!['2']]
    } else {
        Seq::empty()
    }) + (if s.italic { seq![seq!['3']] } else { Seq::empty() }) + (if s.underline {
        seq![seq!['4']]
    } else {
        Seq::empty()
    }) + (if s.reversed { seq![seq!['7']] } else { Seq::empty() }) + (if s.strikethrough {
        seq![seq!['9']]
    } else {
        Seq::empty()
    })
}

/// The escape sequence that switches a style on.
pub open spec fn ansi_on(s: TextStyle) -> Seq<char> {
    if is_plain(s) {
        Seq::empty()
    } else {
        seq!['\x1b', '['] + join(ansi_codes(s), seq![';']) + seq!['m']
    }
}

/// The escape sequence that switches a style off.
pub open spec fn ansi_off(s: TextStyle) -> Seq<char> {
    if is_plain(s) {
        Seq::empty()
    } else {
        seq!['\x1b', '[', '0', 'm']
    }
}

/// The display width, as `unicode-width` measures it, of a text that is
/// not all printable ASCII.
pub uninterp spec fn unicode_display_width(text: Seq<char>) -> nat;

/// Whether every character of a text is printable ASCII (`' '` to `'~'`).
pub open spec fn printable_ascii(text: Seq<char>) -> bool {
    forall|i: int| 0 <= i < text.len() ==> ' ' <= #[trigger] text[i] <= '~'
}

/// The display width of a text in terminal columns, as `unicode-width`
/// measures it: a text of printable ASCII is as wide as it is long.
#[verifier::opaque]
pub open spec fn display_width(text: Seq<char>) -> nat {
    if printable_ascii(text) {
        text.len()
    } else {
        unicode_display_width(text)
    }
}

/// A text of printable ASCII is as wide as it is long.
pub proof fn lemma_ascii_width(text: Seq<char>)
    requires
        printable_ascii(text),
    ensures
        display_width(text) == text.len(),
{
    reveal(display_width);
}

/// `owo_colors::Style`: a foreground and a background color, bold, and a
/// set of further effects.
#[verifier::external_type_specification]
#[verifier::external_body]
pub struct ExStyle(owo_colors::Style);

/// The color and effects an `owo_colors::Style` holds, when it holds no
/// background color and no effect beyond those of [`TextStyle`] (blink,
/// fast blink, hidden), and its color is one of [`AnsiColor`]; nothing
/// otherwise.
pub uninterp spec fn owo_effects(style: owo_colors::Style) -> Option<TextStyle>;

/// A style with its foreground color replaced.
pub open spec fn with_fg(t: TextStyle, c: AnsiColor) -> TextStyle {
    TextStyle { fg: Some(c), ..t }
}

/// `owo_colors::Style::new`: no color and no effect.
pub assume_specification[ owo_colors::Style::new ]() -> (r: owo_colors::Style)
    ensures
        owo_effects(r) == Some(plain_style()),
;

/// `owo_colors::Style::red`: the foreground color becomes red.
pub assume_specification[ owo_colors::Style::red ](style: owo_colors::Style) -> (r: owo_colors::Style)
    ensures
        owo_effects(style) matches Some(t) ==> owo_effects(r) == Some(with_fg(t, AnsiColor::Red)),
;

/// `owo_colors::Style::green`: the foreground color becomes green.
pub assume_specification[ owo_colors::Style::green ](style: owo_colors::Style) -> (r: owo_colors::Style)
    ensures
        owo_effects(style) matches Some(t) ==> owo_effects(r) == Some(with_fg(t, AnsiColor::Green)),
;

/// `owo_colors::Style::yellow`: the foreground color becomes yellow.
pub assume_specification[ owo_colors::Style::yellow ](style: owo_colors::Style) -> (r: owo_colors::Style)
    ensures
        owo_effects(style) matches Some(t) ==> owo_effects(r) == Some(with_fg(t, AnsiColor::Yellow)),
;

/// `owo_colors::Style::cyan`: the foreground color becomes cyan.
pub assume_specification[ owo_colors::Style::cyan ](style: owo_colors::Style) -> (r: owo_colors::Style)
    ensures
        owo_effects(style) matches Some(t) ==> owo_effects(r) == Some(with_fg(t, AnsiColor::Cyan)),
;

/// `owo_colors::Style::white`: the foreground color becomes white.
pub assume_specification[ owo_colors::Style::white ](style: owo_colors::Style) -> (r: owo_colors::Style)
    ensures
        owo_effects(style) matches Some(t) ==> owo_effects(r) == Some(with_fg(t, AnsiColor::White)),
;

/// `owo_colors::Style::bold`: bold is set.
pub assume_specification[ owo_colors::Style::bold ](style: owo_colors::Style) -> (r: owo_colors::Style)
    ensures
        owo_effects(style) matches Some(t) ==> owo_effects(r) == Some(TextStyle { bold: true, ..t }),
;

/// `owo_colors::Style::dimmed`: the dimmed effect is set.
pub assume_specification[ owo_colors::Style::dimmed ](style: owo_colors::Style) -> (r: owo_colors::Style)
    ensures
        owo_effects(style) matches Some(t) ==> owo_effects(r) == Some(TextStyle { dimmed: true, ..t }),
;

/// `owo_colors::Style::italic`: the italic effect is set.
pub assume_specification[ owo_colors::Style::italic ](style: owo_colors::Style) -> (r: owo_colors::Style)
    ensures
        owo_effects(style) matches Some(t) ==> owo_effects(r) == Some(TextStyle { italic: true, ..t }),
;

/// `owo_colors::Style::underline`: the underline effect is set.
pub assume_specification[ owo_colors::Style::underline ](style: owo_colors::Style) -> (r: owo_colors::Style)
    ensures
        owo_effects(style) matches Some(t) ==> owo_effects(r) == Some(TextStyle { underline: true, ..t }),
;

/// `owo_colors::Style::reversed`: the reversed effect is set.
pub assume_specification[ owo_colors::Style::reversed ](style: owo_colors::Style) -> (r: owo_colors::Style)
    ensures
        owo_effects(style) matches Some(t) ==> owo_effects(r) == Some(TextStyle { reversed: true, ..t }),
;

/// `owo_colors::Style::strikethrough`: the strikethrough effect is set.
pub assume_specification[ owo_colors::Style::strikethrough ](style: owo_colors::Style) -> (r: owo_colors::Style)
    ensures
        owo_effects(style) matches Some(t) ==> owo_effects(r) == Some(TextStyle { strikethrough: true, ..t }),
;

/// The `owo_colors` style with the color and effects of a style.
pub(crate) fn owo_style(s: TextStyle) -> (r: owo_colors::Style)
    ensures
        owo_effects(r) == Some(s),
{
    let mut o = owo_colors::Style::new();
    match s.fg {
        Some(AnsiColor::Red) => { o = o.red(); },
        Some(AnsiColor::Green) => { o = o.green(); },
        Some(AnsiColor::Yellow) => { o = o.yellow(); },
        Some(AnsiColor::Cyan) => { o = o.cyan(); },
        Some(AnsiColor::White) => { o = o.white(); },
        None => {},
    }
    if s.bold {
        o = o.bold();
    }
    if s.dimmed {
        o = o.dimmed();
    }
    if s.italic {
        o = o.italic();
    }
    if s.underline {
        o = o.underline();
    }
    if s.reversed {
        o = o.reversed();
    }
    if s.strikethrough {
        o = o.strikethrough();
    }
    assert(owo_effects(o) == Some(s));
    o
}

/// The escape sequence that switches a style on (`Style::prefix_formatter`
/// of `owo_colors`).
///
/// Trusted: for a style of no background and no further effect,
/// `owo_colors` writes nothing when it is plain, and otherwise `ESC [`, the
/// code of the color and of each effect joined by `;`, and `m`
/// (`Style::fmt_prefix`).
#[verifier::external_body]
pub(crate) fn style_on(style: owo_colors::Style) -> (r: String)
    requires
        owo_effects(style) is Some,
    ensures
        r@ == ansi_on(owo_effects(style)->Some_0),
{
    format!("{}", style.prefix_formatter())
}

/// The escape sequence that switches a style off (`Style::suffix_formatter`
/// of `owo_colors`).
///
/// Trusted: for a style of no background and no further effect,
/// `owo_colors` writes nothing when it is plain and `ESC [0m` otherwise
/// (`Style::fmt_suffix`).
#[verifier::external_body]
pub(crate) fn style_off(style: owo_colors::Style) -> (r: String)
    requires
        owo_effects(style) is Some,
    ensures
        r@ == ansi_off(owo_effects(style)->Some_0),
{
    format!("{}", style.suffix_formatter())
}

/// The display width of a text (`UnicodeWidthStr::width` of
/// `unicode-width`).
///
/// Trusted: the width is a function of the characters alone; a text of
/// printable ASCII characters (`' '` to `'~'`) is as wide as it is long,
/// each of them being one column wide with no sequence among them that the
/// crate's rules measure otherwise.
#[verifier::external_body]
pub(crate) fn text_width(text: &[char]) -> (r: usize)
    ensures
        r == display_width(text@),
        printable_ascii(text@) ==> r == text@.len(),
        !printable_ascii(text@) ==> r == unicode_display_width(text@),
{
    let s: String = text.iter().collect();
    unicode_width::UnicodeWidthStr::width(s.as_str())
}

/// The number of columns of the terminal (`crossterm::terminal::size`),
/// or nothing when it cannot be detected.
///
/// Trusted: no claim is made of the result, which depends on the terminal.
#[verifier::external_body]
pub(crate) fn terminal_columns() -> (r: Option<u16>) {
    match crossterm::terminal::size() {
        Ok((columns, _)) => Some(columns),
        Err(_) => None,
    }
}


// ---------------------------------------------------------------------------
// The renderer's state
// ---------------------------------------------------------------------------

/// A unit of inline content: a word, a run of white space, or a styled
/// span, with the style it is written in.
pub type PieceV = (Seq<char>, Option<TextStyle>);

/// A table being collected: finished rows, the row and the cell being
/// filled, and whether a header row was seen.
pub struct TableV {
    pub rows: Seq<Seq<Seq<PieceV>>>,
    pub row: Seq<Seq<PieceV>>,
    pub cell: Seq<PieceV>,
    pub in_cell: bool,
    pub has_header: bool,
}

/// The block whose content is being collected.
pub enum PendingV {
    Idle,
    /// A paragraph, with the label of the footnote it defines.
    Paragraph(Seq<PieceV>, Option<Seq<char>>),
    Heading(Seq<PieceV>),
    Code(Seq<char>),
    Html(Seq<Seq<char>>),
    Table(TableV),
}

/// The state of the renderer between two events.
pub struct EngineV {
    pub width: int,
    pub colors: bool,
    /// What has been written so far.
    pub out: Seq<char>,
    pub at_line_start: bool,
    /// The prefixes of the enclosing blocks: for each, what starts a line
    /// and what starts a wrapped continuation line.
    pub prefixes: Seq<(Seq<char>, Seq<char>)>,
    /// The enclosing lists: ordered or not, and the next item number.
    pub lists: Seq<(bool, u64)>,
    /// The destinations of the enclosing links.
    pub links: Seq<Seq<char>>,
    /// The inline styles in force, innermost last.
    pub inline: Seq<Option<TextStyle>>,
    pub pending: PendingV,
    pub item_depth: int,
}

/// The state before the first event.
pub open spec fn initial(width: int, colors: bool) -> EngineV {
    EngineV {
        width,
        colors,
        out: Seq::empty(),
        at_line_start: true,
        prefixes: Seq::empty(),
        lists: Seq::empty(),
        links: Seq::empty(),
        inline: seq![None],
        pending: PendingV::Idle,
        item_depth: 0,
    }
}

/// A style when colors are enabled, no style otherwise.
pub open spec fn styled(colors: bool, s: TextStyle) -> Option<TextStyle> {
    if colors {
        Some(s)
    } else {
        None
    }
}

/// The plain style with a foreground color.
pub open spec fn colored(c: AnsiColor) -> TextStyle {
    TextStyle { fg: Some(c), ..plain_style() }
}

/// The plain style, dimmed.
pub open spec fn dimmed_style() -> TextStyle {
    TextStyle { dimmed: true, ..plain_style() }
}

/// The plain style, bold.
pub open spec fn bold_style() -> TextStyle {
    TextStyle { bold: true, ..plain_style() }
}

/// The style of a heading of a level.
pub open spec fn heading_style(level: MdHeadingLevel) -> TextStyle {
    match level {
        MdHeadingLevel::H1 => TextStyle {
            fg: Some(AnsiColor::White),
            bold: true,
            underline: true,
            ..plain_style()
        },
        MdHeadingLevel::H2 => TextStyle { fg: Some(AnsiColor::Cyan), bold: true, ..plain_style() },
        MdHeadingLevel::H3 => colored(AnsiColor::Cyan),
        _ => bold_style(),
    }
}

/// `n` copies of a character.
pub open spec fn repeat_char(c: char, n: nat) -> Seq<char> {
    Seq::new(n, |i: int| c)
}

/// Whether a text ends with a line break.
pub open spec fn ends_nl(out: Seq<char>) -> bool {
    out.len() > 0 && out.last() == '\n'
}

/// Whether a text ends with two line breaks.
pub open spec fn ends_2nl(out: Seq<char>) -> bool {
    out.len() > 1 && out.last() == '\n' && out[out.len() - 2] == '\n'
}

/// What starts a line: the line prefixes of all enclosing blocks.
pub open spec fn line_prefix(ps: Seq<(Seq<char>, Seq<char>)>) -> Seq<char>
    decreases ps.len(),
{
    if ps.len() == 0 {
        Seq::empty()
    } else {
        line_prefix(ps.drop_last()) + ps.last().0
    }
}

/// What starts a wrapped continuation line.
pub open spec fn continuation_prefix(ps: Seq<(Seq<char>, Seq<char>)>) -> Seq<char>
    decreases ps.len(),
{
    if ps.len() == 0 {
        Seq::empty()
    } else {
        continuation_prefix(ps.drop_last()) + ps.last().1
    }
}

/// A text written in a style: switched on before and off after.
pub open spec fn styled_text(text: Seq<char>, style: Option<TextStyle>) -> Seq<char> {
    match style {
        Some(s) => ansi_on(s) + text + ansi_off(s),
        None => text,
    }
}

/// Switching off an active style.
pub open spec fn off_text(active: Option<TextStyle>) -> Seq<char> {
    match active {
        Some(s) => ansi_off(s),
        None => Seq::empty(),
    }
}

/// Switching on a style.
pub open spec fn on_text(style: Option<TextStyle>) -> Seq<char> {
    match style {
        Some(s) => ansi_on(s),
        None => Seq::empty(),
    }
}

/// Going from the active style to another: nothing when they are equal,
/// else the active one off and the other on.
pub open spec fn switch_text(active: Option<TextStyle>, style: Option<TextStyle>) -> Seq<char> {
    if active == style {
        Seq::empty()
    } else {
        off_text(active) + on_text(style)
    }
}

// ---------------------------------------------------------------------------
// Writing lines
// ---------------------------------------------------------------------------

/// Appends text to the output.
pub open spec fn emit(e: EngineV, t: Seq<char>) -> EngineV {
    EngineV { out: e.out + t, ..e }
}

/// Ends the current line.
pub open spec fn newline(e: EngineV) -> EngineV {
    EngineV { out: e.out.push('\n'), at_line_start: true, ..e }
}

/// Ends the current line unless the output already ends with one.
pub open spec fn ensure_newline(e: EngineV) -> EngineV {
    if ends_nl(e.out) {
        e
    } else {
        newline(e)
    }
}

/// Separates a new block from what precedes it: by a line break inside a
/// list item, by a blank line elsewhere (nothing at the very start).
pub open spec fn before_block(e: EngineV) -> EngineV {
    if e.item_depth > 0 {
        ensure_newline(e)
    } else if e.out.len() == 0 {
        e
    } else {
        let e1 = if ends_nl(e.out) { e } else { newline(e) };
        if ends_2nl(e1.out) {
            e1
        } else {
            newline(e1)
        }
    }
}

/// Writes the line prefix if a line has just begun.
pub open spec fn emit_line_start(e: EngineV) -> EngineV {
    if e.at_line_start {
        EngineV { out: e.out + line_prefix(e.prefixes), at_line_start: false, ..e }
    } else {
        e
    }
}

/// Writes one unwrapped line, in a style.
pub open spec fn write_raw_line(e: EngineV, text: Seq<char>, style: Option<TextStyle>) -> EngineV {
    newline(emit(emit_line_start(e), styled_text(text, style)))
}

// ---------------------------------------------------------------------------
// Wrapping prose
// ---------------------------------------------------------------------------

/// The state of wrapping a run of pieces: the output, the column reached,
/// whether the line holds a word, whether a space is owed before the next
/// word, and the style in force.
pub struct WrapV {
    pub out: Seq<char>,
    pub at_line_start: bool,
    pub column: int,
    pub has_content: bool,
    pub pending_space: bool,
    pub active: Option<TextStyle>,
}

/// Whether every character of a text is white space.
pub open spec fn all_ws(t: Seq<char>) -> bool {
    forall|i: int| 0 <= i < t.len() ==> is_ws(#[trigger] t[i])
}

/// A column count, saturating at the largest `usize`.
pub open spec fn sat(n: int) -> int {
    if n > usize::MAX {
        usize::MAX as int
    } else {
        n
    }
}

/// Breaks the line while wrapping: the style off, a line break, and the
/// continuation prefix.
pub open spec fn wrap_break(w: WrapV, cont: Seq<char>, cw: int) -> WrapV {
    WrapV {
        out: w.out + off_text(w.active) + seq!['\n'] + cont,
        at_line_start: true,
        column: cw,
        has_content: false,
        pending_space: false,
        active: None,
    }
}

/// Wraps one piece. An empty piece is skipped, a line break piece breaks
/// the line, white space is owed as one space before the next word, and a
/// word goes on the line after that space when it fits in `width`, else on
/// a new line.
pub open spec fn wrap_piece(w: WrapV, p: PieceV, width: int, cont: Seq<char>, cw: int) -> WrapV {
    let t = p.0;
    if t.len() == 0 {
        w
    } else if t == seq!['\n'] {
        wrap_break(w, cont, cw)
    } else if all_ws(t) {
        WrapV { pending_space: true, ..w }
    } else {
        let pw = display_width(t) as int;
        let w1 = if w.pending_space {
            if w.has_content && w.column + 1 + pw <= width {
                WrapV { out: w.out.push(' '), column: w.column + 1, pending_space: false, ..w }
            } else if w.has_content {
                wrap_break(w, cont, cw)
            } else {
                WrapV { pending_space: false, ..w }
            }
        } else {
            w
        };
        WrapV {
            out: w1.out + switch_text(w1.active, p.1) + t,
            column: sat(w1.column + pw),
            has_content: true,
            active: p.1,
            ..w1
        }
    }
}

/// The state after wrapping the first `n` pieces.
pub open spec fn wrap_upto(
    w0: WrapV,
    pieces: Seq<PieceV>,
    n: int,
    width: int,
    cont: Seq<char>,
    cw: int,
) -> WrapV
    decreases n,
{
    if n <= 0 {
        w0
    } else {
        wrap_piece(wrap_upto(w0, pieces, n - 1, width, cont, cw), pieces[n - 1], width, cont, cw)
    }
}

/// Writes pieces as prose wrapped to the renderer's width, starting after
/// the line prefix, continuing wrapped lines after the continuation prefix.
pub open spec fn emit_wrapped(e: EngineV, pieces: Seq<PieceV>) -> EngineV {
    let cont = continuation_prefix(e.prefixes);
    let cw = display_width(cont) as int;
    let e1 = emit_line_start(e);
    let w0 = WrapV {
        out: e1.out,
        at_line_start: e1.at_line_start,
        column: display_width(line_prefix(e.prefixes)) as int,
        has_content: false,
        pending_space: false,
        active: None,
    };
    let w = wrap_upto(w0, pieces, pieces.len() as int, e.width, cont, cw);
    EngineV { out: w.out + off_text(w.active), at_line_start: w.at_line_start, ..e1 }
}

// ---------------------------------------------------------------------------
// Inline content
// ---------------------------------------------------------------------------

/// The text and final style after writing the first `n` pieces unwrapped,
/// switching styles between them.
pub open spec fn inline_upto(pieces: Seq<PieceV>, n: int) -> (Seq<char>, Option<TextStyle>)
    decreases n,
{
    if n <= 0 {
        (Seq::empty(), None)
    } else {
        let (o, a) = inline_upto(pieces, n - 1);
        (o + switch_text(a, pieces[n - 1].1) + pieces[n - 1].0, pieces[n - 1].1)
    }
}

/// Pieces written on one line, unwrapped, with their styles.
pub open spec fn inline_text(pieces: Seq<PieceV>) -> Seq<char> {
    let (o, a) = inline_upto(pieces, pieces.len() as int);
    o + off_text(a)
}

/// The maximal runs of white space and of other characters of the first
/// `n` characters of a text.
pub open spec fn runs_upto(t: Seq<char>, n: int) -> Seq<Seq<char>>
    decreases n,
{
    if n <= 0 {
        Seq::empty()
    } else {
        let r = runs_upto(t, n - 1);
        let c = t[n - 1];
        if r.len() > 0 && r.last().len() > 0 && is_ws(r.last().last()) == is_ws(c) {
            r.drop_last().push(r.last().push(c))
        } else {
            r.push(seq![c])
        }
    }
}

/// A text split into its maximal runs of white space and of words, each
/// run a piece in a style.
pub open spec fn word_pieces(t: Seq<char>, style: Option<TextStyle>) -> Seq<PieceV> {
    runs_upto(t, t.len() as int).map_values(|r: Seq<char>| (r, style))
}

/// The lines of the first `n` characters of a text split at each line
/// break (`str::split('\n')`: one more line than breaks).
pub open spec fn split_upto(t: Seq<char>, n: int) -> Seq<Seq<char>>
    decreases n,
{
    if n <= 0 {
        seq![Seq::empty()]
    } else {
        let r = split_upto(t, n - 1);
        if t[n - 1] == '\n' {
            r.push(Seq::empty())
        } else {
            r.drop_last().push(r.last().push(t[n - 1]))
        }
    }
}

/// Lines with the trailing empty ones dropped.
pub open spec fn drop_trailing_empty(lines: Seq<Seq<char>>) -> Seq<Seq<char>>
    decreases lines.len(),
{
    if lines.len() > 0 && lines.last().len() == 0 {
        drop_trailing_empty(lines.drop_last())
    } else {
        lines
    }
}

/// The lines of a code block: split at line breaks, trailing empty lines
/// dropped.
pub open spec fn code_lines(text: Seq<char>) -> Seq<Seq<char>> {
    drop_trailing_empty(split_upto(text, text.len() as int))
}

/// A line of a code block as written: indented by two spaces unless empty.
pub open spec fn code_line(line: Seq<char>) -> Seq<char> {
    if line.len() == 0 {
        Seq::empty()
    } else {
        seq![' ', ' '] + line
    }
}

/// Writes the first `n` lines of a code block, dimmed.
pub open spec fn code_upto(e: EngineV, lines: Seq<Seq<char>>, n: int) -> EngineV
    decreases n,
{
    if n <= 0 {
        e
    } else {
        write_raw_line(
            code_upto(e, lines, n - 1),
            code_line(lines[n - 1]),
            styled(e.colors, dimmed_style()),
        )
    }
}

/// Writes a code block.
pub open spec fn emit_code(e: EngineV, text: Seq<char>) -> EngineV {
    let lines = code_lines(text);
    code_upto(e, lines, lines.len() as int)
}

/// The cells of a table row, each written unwrapped.
pub open spec fn cell_texts(row: Seq<Seq<PieceV>>) -> Seq<Seq<char>> {
    row.map_values(|c: Seq<PieceV>| inline_text(c))
}

/// A table row as written: its cells unwrapped, separated by ` | `.
pub open spec fn row_text(row: Seq<Seq<PieceV>>) -> Seq<char> {
    join(cell_texts(row), seq![' ', '|', ' '])
}

/// Writes the first `n` rows of a table, the header row in bold.
pub open spec fn table_upto(e: EngineV, t: TableV, n: int) -> EngineV
    decreases n,
{
    if n <= 0 {
        e
    } else {
        write_raw_line(
            table_upto(e, t, n - 1),
            row_text(t.rows[n - 1]),
            if t.has_header && n - 1 == 0 {
                styled(e.colors, bold_style())
            } else {
                None
            },
        )
    }
}

/// Writes the lines of HTML of a block.
pub open spec fn html_upto(e: EngineV, lines: Seq<Seq<char>>, n: int) -> EngineV
    decreases n,
{
    if n <= 0 {
        e
    } else {
        write_raw_line(html_upto(e, lines, n - 1), lines[n - 1], None)
    }
}

/// The piece that labels a footnote definition.
pub open spec fn footnote_piece(colors: bool, name: Seq<char>) -> PieceV {
    (seq!['['] + name + seq![']', ' '], styled(colors, colored(AnsiColor::Cyan)))
}

/// Writes the pending paragraph, if it has content; in any case nothing is
/// pending afterwards.
pub open spec fn flush_paragraph(e: EngineV) -> EngineV {
    let e0 = EngineV { pending: PendingV::Idle, ..e };
    match e.pending {
        PendingV::Paragraph(pieces, footnote) => {
            if pieces.len() == 0 {
                e0
            } else {
                let all = match footnote {
                    Some(name) => seq![footnote_piece(e.colors, name)] + pieces,
                    None => pieces,
                };
                newline(emit_wrapped(e0, all))
            }
        },
        _ => e0,
    }
}

/// Adds a piece to the pending paragraph, heading, or table cell.
pub open spec fn push_piece(e: EngineV, p: PieceV) -> EngineV {
    match e.pending {
        PendingV::Paragraph(ps, f) => EngineV { pending: PendingV::Paragraph(ps.push(p), f), ..e },
        PendingV::Heading(ps) => EngineV { pending: PendingV::Heading(ps.push(p)), ..e },
        PendingV::Table(t) => if t.in_cell {
            EngineV { pending: PendingV::Table(TableV { cell: t.cell.push(p), ..t }), ..e }
        } else {
            e
        },
        _ => e,
    }
}

/// The inline style in force.
pub open spec fn current_style(e: EngineV) -> Option<TextStyle> {
    if e.inline.len() == 0 {
        None
    } else {
        e.inline.last()
    }
}

/// The effects that inline elements add to the style around them.
pub enum StyleStep {
    Italic,
    Bold,
    Strikethrough,
    Link,
    Dimmed,
}

/// A style with an inline element's effect added.
pub open spec fn apply_step(s: TextStyle, step: StyleStep) -> TextStyle {
    match step {
        StyleStep::Italic => TextStyle { italic: true, ..s },
        StyleStep::Bold => TextStyle { bold: true, ..s },
        StyleStep::Strikethrough => TextStyle { strikethrough: true, ..s },
        StyleStep::Link => TextStyle { fg: Some(AnsiColor::Cyan), underline: true, ..s },
        StyleStep::Dimmed => TextStyle { dimmed: true, ..s },
    }
}

/// Opens an inline element: its style is the one in force with its effect
/// added, or the plain style when no style is in force.
pub open spec fn push_style(e: EngineV, step: StyleStep) -> EngineV {
    let next = match current_style(e) {
        Some(b) => apply_step(b, step),
        None => plain_style(),
    };
    EngineV { inline: e.inline.push(styled(e.colors, next)), ..e }
}

/// Closes an inline element, keeping the outermost style.
pub open spec fn pop_style(e: EngineV) -> EngineV {
    if e.inline.len() > 1 {
        EngineV { inline: e.inline.drop_last(), ..e }
    } else {
        e
    }
}

/// The text of the pieces of a heading, in the heading's style.
pub open spec fn restyled(pieces: Seq<PieceV>, style: Option<TextStyle>) -> Seq<PieceV> {
    pieces.map_values(|p: PieceV| (p.0, style))
}

// ---------------------------------------------------------------------------
// Blocks
// ---------------------------------------------------------------------------

/// Writes a horizontal rule across the width left after the line prefix
/// (at least three columns), dimmed.
pub open spec fn handle_rule(e: EngineV) -> EngineV {
    let e1 = before_block(e);
    let pw = display_width(line_prefix(e1.prefixes)) as int;
    let available = if e1.width > pw { e1.width - pw } else { 0 };
    let n = if available > 3 { available } else { 3 };
    write_raw_line(e1, repeat_char('─', n as nat), styled(e1.colors, dimmed_style()))
}

/// The bullet of an unordered list item at a nesting depth (from 1).
pub open spec fn bullet_text(depth: int) -> Seq<char> {
    if (depth - 1) % 3 == 0 {
        seq!['•', ' ']
    } else if (depth - 1) % 3 == 1 {
        seq!['◦', ' ']
    } else {
        seq!['▪', ' ']
    }
}

/// Begins a list item: ends the line, opens an implicit paragraph when
/// nothing is pending, and pushes the item's bullet or number as a line
/// prefix, indented two columns per enclosing list, with spaces of the
/// same width for continuation lines.
pub open spec fn start_item(e: EngineV) -> EngineV
    recommends
        e.lists.len() > 0,
{
    let e1 = ensure_newline(e);
    let e2 = if e1.pending is Idle {
        EngineV { pending: PendingV::Paragraph(Seq::empty(), None), ..e1 }
    } else {
        e1
    };
    let depth = e2.lists.len();
    let ctx = e2.lists.last();
    let bullet = if ctx.0 { dec_nat(ctx.1 as nat) + seq!['.', ' '] } else { bullet_text(depth as int) };
    let lists = if ctx.0 {
        e2.lists.update(depth - 1, (true, if ctx.1 < u64::MAX { (ctx.1 + 1) as u64 } else { ctx.1 }))
    } else {
        e2.lists
    };
    let line = repeat_char(' ', (2 * (depth - 1)) as nat) + bullet;
    let w = display_width(line);
    EngineV {
        lists,
        prefixes: e2.prefixes.push((line, repeat_char(' ', w))),
        item_depth: sat(e2.item_depth + 1),
        ..e2
    }
}

/// Begins a block quote: a bar on every line.
pub open spec fn start_block_quote(e: EngineV) -> EngineV {
    let e1 = before_block(e);
    EngineV { prefixes: e1.prefixes.push((seq!['│', ' '], seq!['│', ' '])), ..e1 }
}

/// The checkbox of a task list item.
pub open spec fn task_marker(checked: bool) -> Seq<char> {
    if checked {
        seq!['[', 'x', ']', ' ']
    } else {
        seq!['[', ' ', ']', ' ']
    }
}

/// Adds a checkbox to the innermost line prefix, and spaces of its width
/// to the continuation prefix.
pub open spec fn add_task_marker(e: EngineV, checked: bool) -> EngineV {
    if e.prefixes.len() == 0 {
        e
    } else {
        let k = e.prefixes.len() - 1;
        let (l, c) = e.prefixes[k];
        let m = task_marker(checked);
        EngineV { prefixes: e.prefixes.update(k, (l + m, c + repeat_char(' ', display_width(m)))), ..e }
    }
}

/// Starts collecting a new block after separating it from what precedes.
pub open spec fn begin_block(e: EngineV, p: PendingV) -> EngineV {
    EngineV { pending: p, ..before_block(e) }
}

/// The table being collected, updated, when a table is pending.
pub open spec fn with_table(e: EngineV, f: spec_fn(TableV) -> TableV) -> EngineV {
    match e.pending {
        PendingV::Table(t) => EngineV { pending: PendingV::Table(f(t)), ..e },
        _ => e,
    }
}

/// An empty table.
pub open spec fn empty_table() -> TableV {
    TableV { rows: Seq::empty(), row: Seq::empty(), cell: Seq::empty(), in_cell: false, has_header: false }
}

/// The effect of an opening tag.
pub open spec fn handle_start(e: EngineV, tag: MdTag) -> EngineV
    recommends
        tag is Item ==> e.lists.len() > 0,
{
    match tag {
        MdTag::Paragraph => if e.pending is Idle {
            begin_block(e, PendingV::Paragraph(Seq::empty(), None))
        } else {
            e
        },
        MdTag::Heading => begin_block(e, PendingV::Heading(Seq::empty())),
        MdTag::CodeBlock => begin_block(e, PendingV::Code(Seq::empty())),
        MdTag::HtmlBlock => begin_block(e, PendingV::Html(Seq::empty())),
        MdTag::List(start) => {
            let e1 = flush_paragraph(e);
            let e2 = if e1.lists.len() == 0 { before_block(e1) } else { e1 };
            let first = match start {
                Some(n) => n,
                None => 1u64,
            };
            EngineV { lists: e2.lists.push((start is Some, first)), ..e2 }
        },
        MdTag::Item => start_item(e),
        MdTag::BlockQuote => start_block_quote(e),
        MdTag::Table => begin_block(e, PendingV::Table(empty_table())),
        MdTag::TableHead => with_table(e, |t: TableV| TableV { has_header: true, ..t }),
        MdTag::TableRow => with_table(e, |t: TableV| TableV { row: Seq::empty(), ..t }),
        MdTag::TableCell => with_table(e, |t: TableV| TableV { cell: Seq::empty(), in_cell: true, ..t }),
        MdTag::FootnoteDefinition(name) => begin_block(e, PendingV::Paragraph(Seq::empty(), Some(name@))),
        MdTag::Emphasis => push_style(e, StyleStep::Italic),
        MdTag::Strong => push_style(e, StyleStep::Bold),
        MdTag::Strikethrough => push_style(e, StyleStep::Strikethrough),
        MdTag::Link(url) => push_style(EngineV { links: e.links.push(url@), ..e }, StyleStep::Link),
        MdTag::Image => push_style(e, StyleStep::Dimmed),
        MdTag::Other => e,
    }
}

/// An ordered list is numbered from its start: opening a list that starts
/// at `n` and then its first item gives that item the marker `n. `,
/// indented by the list's depth, and leaves `n + 1` for the item after it.
pub proof fn lemma_ordered_list_numbering(e: EngineV, n: u64)
    requires
        n < u64::MAX,
    ensures
        ({
            let opened = handle_start(e, MdTag::List(Some(n)));
            let first = handle_start(opened, MdTag::Item);
            let depth = opened.lists.len();
            &&& depth > 0
            &&& first.prefixes.last().0 == repeat_char(' ', (2 * (depth - 1)) as nat) + dec_nat(n as nat) + ". "@
            &&& first.lists.len() == depth
            &&& first.lists.last() == (true, (n + 1) as u64)
        }),
{
    let opened = handle_start(e, MdTag::List(Some(n)));
    assert(opened.lists.last() == (true, n));
    let e1 = ensure_newline(opened);
    assert(e1.lists == opened.lists);
    assert(seq!['.', ' '] =~= ". "@) by {
        reveal_strlit(". ");
    }
}

/// Ends a table row: the row, when it has cells, joins the finished rows.
pub open spec fn end_row(t: TableV) -> TableV {
    if t.row.len() > 0 {
        TableV { in_cell: false, rows: t.rows.push(t.row), row: Seq::empty(), ..t }
    } else {
        TableV { in_cell: false, ..t }
    }
}

/// The effect of a closing tag.
pub open spec fn handle_end(e: EngineV, tag: MdTagEnd) -> EngineV {
    let idle = EngineV { pending: PendingV::Idle, ..e };
    match tag {
        MdTagEnd::Paragraph => flush_paragraph(e),
        MdTagEnd::Heading(level) => match e.pending {
            PendingV::Heading(pieces) => newline(
                emit_wrapped(idle, restyled(pieces, styled(e.colors, heading_style(level)))),
            ),
            _ => idle,
        },
        MdTagEnd::CodeBlock => match e.pending {
            PendingV::Code(text) => emit_code(idle, text),
            _ => idle,
        },
        MdTagEnd::HtmlBlock => match e.pending {
            PendingV::Html(lines) => html_upto(idle, lines, lines.len() as int),
            _ => idle,
        },
        MdTagEnd::List => if e.lists.len() > 0 {
            EngineV { lists: e.lists.drop_last(), ..e }
        } else {
            e
        },
        MdTagEnd::Item => {
            let e1 = flush_paragraph(e);
            EngineV {
                prefixes: if e1.prefixes.len() > 0 { e1.prefixes.drop_last() } else { e1.prefixes },
                item_depth: if e1.item_depth > 0 { e1.item_depth - 1 } else { 0 },
                ..e1
            }
        },
        MdTagEnd::BlockQuote => if e.prefixes.len() > 0 {
            EngineV { prefixes: e.prefixes.drop_last(), ..e }
        } else {
            e
        },
        MdTagEnd::Table => match e.pending {
            PendingV::Table(t) => table_upto(idle, t, t.rows.len() as int),
            _ => idle,
        },
        MdTagEnd::TableHead => with_table(e, |t: TableV| end_row(t)),
        MdTagEnd::TableRow => with_table(e, |t: TableV| end_row(t)),
        MdTagEnd::TableCell => with_table(
            e,
            |t: TableV| TableV { in_cell: false, row: t.row.push(t.cell), cell: Seq::empty(), ..t },
        ),
        MdTagEnd::Link => {
            let e1 = EngineV {
                inline: if e.inline.len() > 0 { e.inline.drop_last() } else { e.inline },
                ..e
            };
            if e1.links.len() > 0 {
                let url = e1.links.last();
                let e2 = EngineV { links: e1.links.drop_last(), ..e1 };
                if url.len() > 0 {
                    push_piece(
                        e2,
                        (seq![' ', '('] + url + seq![')'], styled(e.colors, dimmed_style())),
                    )
                } else {
                    e2
                }
            } else {
                e1
            }
        },
        MdTagEnd::Image | MdTagEnd::Emphasis | MdTagEnd::Strong | MdTagEnd::Strikethrough => pop_style(e),
        MdTagEnd::Other => e,
    }
}

/// The effect of a run of text: words and spaces join the pending
/// paragraph, heading or table cell, code and HTML take it whole.
pub open spec fn handle_text(e: EngineV, text: Seq<char>) -> EngineV {
    let style = current_style(e);
    match e.pending {
        PendingV::Paragraph(ps, f) => EngineV {
            pending: PendingV::Paragraph(ps + word_pieces(text, style), f),
            ..e
        },
        PendingV::Heading(ps) => EngineV { pending: PendingV::Heading(ps + word_pieces(text, style)), ..e },
        PendingV::Table(t) => if t.in_cell {
            EngineV {
                pending: PendingV::Table(TableV { cell: t.cell + word_pieces(text, style), ..t }),
                ..e
            }
        } else {
            e
        },
        PendingV::Code(code) => EngineV { pending: PendingV::Code(code + text), ..e },
        PendingV::Html(lines) => EngineV { pending: PendingV::Html(lines.push(text)), ..e },
        PendingV::Idle => e,
    }
}

/// The effect of one event.
pub open spec fn step(e: EngineV, ev: MdEvent) -> EngineV
    recommends
        ev matches MdEvent::Start(MdTag::Item) ==> e.lists.len() > 0,
{
    match ev {
        MdEvent::Start(tag) => handle_start(e, tag),
        MdEvent::End(tag) => handle_end(e, tag),
        MdEvent::Text(t) => handle_text(e, t@),
        MdEvent::Code(t) => push_piece(e, (t@, styled(e.colors, TextStyle { reversed: true, ..plain_style() }))),
        MdEvent::Html(t) => match e.pending {
            PendingV::Html(lines) => EngineV { pending: PendingV::Html(lines.push(t@)), ..e },
            _ => push_piece(e, (t@, styled(e.colors, dimmed_style()))),
        },
        MdEvent::InlineHtml(t) => push_piece(e, (t@, styled(e.colors, dimmed_style()))),
        MdEvent::FootnoteReference(name) => push_piece(
            e,
            (seq!['['] + name@ + seq![']'], styled(e.colors, colored(AnsiColor::Cyan))),
        ),
        MdEvent::HardBreak => push_piece(e, (seq!['\n'], None)),
        MdEvent::Rule => handle_rule(e),
        MdEvent::TaskListMarker(checked) => add_task_marker(e, checked),
        MdEvent::Ignored => e,
    }
}

/// The state after the first `n` events.
pub open spec fn run(e0: EngineV, events: Seq<MdEvent>, n: int) -> EngineV
    decreases n,
{
    if n <= 0 {
        e0
    } else {
        step(run(e0, events, n - 1), events[n - 1])
    }
}

/// The number of lists open after the first `n` events.
pub open spec fn list_depth(events: Seq<MdEvent>, n: int) -> int
    decreases n,
{
    if n <= 0 {
        0
    } else {
        let d = list_depth(events, n - 1);
        match events[n - 1] {
            MdEvent::Start(MdTag::List(_)) => d + 1,
            MdEvent::End(MdTagEnd::List) => if d > 0 { d - 1 } else { 0 },
            _ => d,
        }
    }
}

/// Whether every list item opens inside a list.
pub open spec fn items_in_lists(events: Seq<MdEvent>) -> bool {
    forall|k: int|
        0 <= k < events.len() && (#[trigger] events[k] matches MdEvent::Start(MdTag::Item)) ==> list_depth(
            events,
            k,
        ) > 0
}

/// Only lists open and close lists.
pub proof fn lemma_step_lists(e: EngineV, ev: MdEvent)
    requires
        ev matches MdEvent::Start(MdTag::Item) ==> e.lists.len() > 0,
    ensures
        step(e, ev).lists.len() == match ev {
            MdEvent::Start(MdTag::List(_)) => e.lists.len() + 1int,
            MdEvent::End(MdTagEnd::List) => if e.lists.len() > 0 { e.lists.len() - 1 } else { 0 },
            _ => e.lists.len() as int,
        },
{
    match ev {
        MdEvent::End(tag) => {
            let idle = EngineV { pending: PendingV::Idle, ..e };
            match tag {
                MdTagEnd::Paragraph | MdTagEnd::Item => lemma_flush_lists(e),
                MdTagEnd::CodeBlock => {
                    if let PendingV::Code(text) = e.pending {
                        lemma_code_lists(idle, code_lines(text), code_lines(text).len() as int);
                    }
                },
                MdTagEnd::HtmlBlock => {
                    if let PendingV::Html(lines) = e.pending {
                        lemma_html_lists(idle, lines, lines.len() as int);
                    }
                },
                MdTagEnd::Table => {
                    if let PendingV::Table(t) = e.pending {
                        lemma_table_lists(idle, t, t.rows.len() as int);
                    }
                },
                _ => {},
            }
        },
        _ => {},
    }
}

proof fn lemma_flush_lists(e: EngineV)
    ensures
        flush_paragraph(e).lists == e.lists,
{
    let e0 = EngineV { pending: PendingV::Idle, ..e };
    match e.pending {
        PendingV::Paragraph(pieces, footnote) => {
            let all = match footnote {
                Some(name) => seq![footnote_piece(e.colors, name)] + pieces,
                None => pieces,
            };
            assert(emit_wrapped(e0, all).lists == e.lists);
        },
        _ => {},
    }
}

proof fn lemma_code_lists(e: EngineV, lines: Seq<Seq<char>>, n: int)
    ensures
        code_upto(e, lines, n).lists == e.lists,
    decreases n,
{
    if n > 0 {
        lemma_code_lists(e, lines, n - 1);
    }
}

proof fn lemma_html_lists(e: EngineV, lines: Seq<Seq<char>>, n: int)
    ensures
        html_upto(e, lines, n).lists == e.lists,
    decreases n,
{
    if n > 0 {
        lemma_html_lists(e, lines, n - 1);
    }
}

proof fn lemma_table_lists(e: EngineV, t: TableV, n: int)
    ensures
        table_upto(e, t, n).lists == e.lists,
    decreases n,
{
    if n > 0 {
        lemma_table_lists(e, t, n - 1);
    }
}

/// The lists open after the first `n` events from the start.
pub proof fn lemma_run_lists(width: int, colors: bool, events: Seq<MdEvent>, n: int)
    requires
        0 <= n <= events.len(),
        items_in_lists(events),
    ensures
        run(initial(width, colors), events, n).lists.len() == list_depth(events, n),
    decreases n,
{
    if n > 0 {
        lemma_run_lists(width, colors, events, n - 1);
        if events[n - 1] matches MdEvent::Start(MdTag::Item) {
            assert(list_depth(events, n - 1) > 0);
        }
        lemma_step_lists(run(initial(width, colors), events, n - 1), events[n - 1]);
    }
}

/// A text with its trailing line breaks removed.
pub open spec fn strip_newlines(out: Seq<char>) -> Seq<char>
    decreases out.len(),
{
    if ends_nl(out) {
        strip_newlines(out.drop_last())
    } else {
        out
    }
}

/// The finished output: nothing for nothing, else ending in exactly one
/// line break.
pub open spec fn finished(out: Seq<char>) -> Seq<char> {
    if out.len() == 0 {
        Seq::empty()
    } else {
        strip_newlines(out).push('\n')
    }
}

/// A document rendered for a terminal of a width.
pub open spec fn rendered(width: int, colors: bool, events: Seq<MdEvent>) -> Seq<char> {
    finished(run(initial(width, colors), events, events.len() as int).out)
}

/// Whether a piece is a word: neither empty, a line break, nor white space.
pub open spec fn is_word(p: PieceV) -> bool {
    p.0.len() > 0 && p.0 != seq!['\n'] && !all_ws(p.0)
}

proof fn lemma_wrap_invariant(
    w0: WrapV,
    pieces: Seq<PieceV>,
    n: int,
    width: int,
    cont: Seq<char>,
    cw: int,
)
    requires
        0 <= n <= pieces.len(),
        w0.column <= width,
        cw <= width,
        !w0.has_content,
        forall|i: int| 0 <= i < pieces.len() ==> (#[trigger] pieces[i]).0.len() > 0,
        forall|i: int|
            0 <= i < pieces.len() && is_word(#[trigger] pieces[i]) ==> w0.column + display_width(
                pieces[i].0,
            ) <= width && cw + display_width(pieces[i].0) <= width,
        forall|i: int|
            0 <= i < pieces.len() - 1 && is_word(#[trigger] pieces[i]) ==> !is_word(pieces[i + 1]),
    ensures
        ({
            let w = wrap_upto(w0, pieces, n, width, cont, cw);
            &&& w.column <= width
            &&& !w.has_content ==> (w.column == w0.column || w.column == cw)
            &&& w.has_content && !w.pending_space ==> n > 0 && is_word(pieces[n - 1])
        }),
    decreases n,
{
    if n > 0 {
        lemma_wrap_invariant(w0, pieces, n - 1, width, cont, cw);
        let w = wrap_upto(w0, pieces, n - 1, width, cont, cw);
        let p = pieces[n - 1];
        if is_word(p) && w.has_content && !w.pending_space {
            assert(is_word(pieces[n - 2]));
            assert(!is_word(pieces[n - 2 + 1]));
        }
    }
}

/// Prose that wraps cleanly stays within the width: when the pieces are
/// words and the white space between them, no two words adjacent, and
/// every word fits on a line after the first line's prefix and after the
/// continuation prefix, no line reaches past the width.
pub proof fn lemma_wrapped_prose_fits(e: EngineV, pieces: Seq<PieceV>)
    requires
        display_width(line_prefix(e.prefixes)) <= e.width,
        display_width(continuation_prefix(e.prefixes)) <= e.width,
        forall|i: int| 0 <= i < pieces.len() ==> (#[trigger] pieces[i]).0.len() > 0,
        forall|i: int|
            0 <= i < pieces.len() && is_word(#[trigger] pieces[i]) ==> display_width(line_prefix(e.prefixes))
                + display_width(pieces[i].0) <= e.width && display_width(continuation_prefix(e.prefixes))
                + display_width(pieces[i].0) <= e.width,
        forall|i: int|
            0 <= i < pieces.len() - 1 && is_word(#[trigger] pieces[i]) ==> !is_word(pieces[i + 1]),
    ensures
        forall|n: int|
            0 <= n <= pieces.len() ==> (#[trigger] wrap_upto(
                WrapV {
                    out: emit_line_start(e).out,
                    at_line_start: emit_line_start(e).at_line_start,
                    column: display_width(line_prefix(e.prefixes)) as int,
                    has_content: false,
                    pending_space: false,
                    active: None,
                },
                pieces,
                n,
                e.width,
                continuation_prefix(e.prefixes),
                display_width(continuation_prefix(e.prefixes)) as int,
            )).column <= e.width,
{
    let w0 = WrapV {
        out: emit_line_start(e).out,
        at_line_start: emit_line_start(e).at_line_start,
        column: display_width(line_prefix(e.prefixes)) as int,
        has_content: false,
        pending_space: false,
        active: None,
    };
    let cont = continuation_prefix(e.prefixes);
    let cw = display_width(cont) as int;
    assert forall|n: int| 0 <= n <= pieces.len() implies (#[trigger] wrap_upto(
        w0,
        pieces,
        n,
        e.width,
        cont,
        cw,
    )).column <= e.width by {
        lemma_wrap_invariant(w0, pieces, n, e.width, cont, cw);
    }
}

/// Printable ASCII prose wraps within the width: when the prefixes and the
/// words are printable ASCII, the pieces are words and the white space
/// between them with no two words adjacent, and every word fits on a line
/// after either prefix by its length, no line reaches past the width.
pub proof fn lemma_ascii_prose_fits(e: EngineV, pieces: Seq<PieceV>)
    requires
        printable_ascii(line_prefix(e.prefixes)),
        printable_ascii(continuation_prefix(e.prefixes)),
        forall|i: int| 0 <= i < pieces.len() ==> (#[trigger] pieces[i]).0.len() > 0,
        forall|i: int|
            0 <= i < pieces.len() && is_word(#[trigger] pieces[i]) ==> printable_ascii(pieces[i].0)
                && line_prefix(e.prefixes).len() + pieces[i].0.len() <= e.width
                && continuation_prefix(e.prefixes).len() + pieces[i].0.len() <= e.width,
        forall|i: int|
            0 <= i < pieces.len() - 1 && is_word(#[trigger] pieces[i]) ==> !is_word(pieces[i + 1]),
        line_prefix(e.prefixes).len() <= e.width,
        continuation_prefix(e.prefixes).len() <= e.width,
    ensures
        forall|n: int|
            0 <= n <= pieces.len() ==> (#[trigger] wrap_upto(
                WrapV {
                    out: emit_line_start(e).out,
                    at_line_start: emit_line_start(e).at_line_start,
                    column: line_prefix(e.prefixes).len() as int,
                    has_content: false,
                    pending_space: false,
                    active: None,
                },
                pieces,
                n,
                e.width,
                continuation_prefix(e.prefixes),
                continuation_prefix(e.prefixes).len() as int,
            )).column <= e.width,
{
    lemma_ascii_width(line_prefix(e.prefixes));
    lemma_ascii_width(continuation_prefix(e.prefixes));
    assert forall|i: int| 0 <= i < pieces.len() && is_word(#[trigger] pieces[i]) implies display_width(
        line_prefix(e.prefixes),
    ) + display_width(pieces[i].0) <= e.width && display_width(continuation_prefix(e.prefixes)) + display_width(
        pieces[i].0,
    ) <= e.width by {
        lemma_ascii_width(pieces[i].0);
    }
    lemma_wrapped_prose_fits(e, pieces);
}

/// Texts joined end to end.
pub open spec fn concat_all(parts: Seq<Seq<char>>) -> Seq<char>
    decreases parts.len(),
{
    if parts.len() == 0 {
        Seq::empty()
    } else {
        concat_all(parts.drop_last()) + parts.last()
    }
}

/// Whether a sequence of runs is well formed: none empty, each all white
/// space or all other characters, and no two neighbours of the same kind.
pub open spec fn alternating_runs(rs: Seq<Seq<char>>) -> bool {
    &&& forall|i: int| 0 <= i < rs.len() ==> (#[trigger] rs[i]).len() > 0
    &&& forall|i: int, j: int|
        0 <= i < rs.len() && 0 <= j < rs[i].len() ==> is_ws(#[trigger] rs[i][j]) == is_ws(rs[i][0])
    &&& forall|i: int| 0 <= i < rs.len() - 1 ==> is_ws((#[trigger] rs[i])[0]) != is_ws(rs[i + 1][0])
}

proof fn lemma_runs_prefix(t: Seq<char>, n: int)
    requires
        0 <= n <= t.len(),
    ensures
        concat_all(runs_upto(t, n)) == t.take(n),
        alternating_runs(runs_upto(t, n)),
    decreases n,
{
    if n > 0 {
        lemma_runs_prefix(t, n - 1);
        let r = runs_upto(t, n - 1);
        let c = t[n - 1];
        if r.len() > 0 && r.last().len() > 0 && is_ws(r.last().last()) == is_ws(c) {
            let r2 = r.drop_last().push(r.last().push(c));
            assert(r2.drop_last() =~= r.drop_last());
            assert(concat_all(r) == concat_all(r.drop_last()) + r.last());
            assert(concat_all(r2) == concat_all(r.drop_last()) + r.last().push(c));
            assert(t.take(n) =~= t.take(n - 1).push(c));
            assert(concat_all(r2) =~= t.take(n));
            let k = r.len() - 1;
            assert(is_ws(r[k][r[k].len() - 1]) == is_ws(r[k][0]));
            assert forall|i: int, j: int|
                0 <= i < r2.len() && 0 <= j < r2[i].len() implies is_ws(#[trigger] r2[i][j]) == is_ws(r2[i][0]) by {
                if i < k {
                    assert(r2[i] == r[i]);
                } else if j < r[k].len() {
                    assert(r2[i][j] == r[k][j]);
                    assert(r2[i][0] == r[k][0]);
                }
            }
            assert forall|i: int| 0 <= i < r2.len() - 1 implies is_ws((#[trigger] r2[i])[0]) != is_ws(r2[i + 1][0]) by {
                if i + 1 < k {
                    assert(r2[i] == r[i] && r2[i + 1] == r[i + 1]);
                } else {
                    assert(r2[i] == r[i]);
                    assert(r2[i + 1][0] == r[k][0]);
                }
            }
        } else {
            let r2 = r.push(seq![c]);
            assert(r2.drop_last() =~= r);
            assert(t.take(n) =~= t.take(n - 1).push(c));
            assert(concat_all(r2) =~= t.take(n));
            assert forall|i: int| 0 <= i < r2.len() - 1 implies is_ws((#[trigger] r2[i])[0]) != is_ws(r2[i + 1][0]) by {
                if i + 1 < r.len() {
                    assert(r2[i] == r[i] && r2[i + 1] == r[i + 1]);
                } else {
                    let k = r.len() - 1;
                    assert(is_ws(r[k][r[k].len() - 1]) == is_ws(r[k][0]));
                }
            }
        }
    }
}

/// A run of text becomes pieces without loss: joined end to end they give
/// the text back, none is empty, each is all white space or a word, and
/// no two words (nor two white space runs) are neighbours.
pub proof fn lemma_word_pieces(t: Seq<char>, style: Option<TextStyle>)
    ensures
        concat_all(runs_upto(t, t.len() as int)) == t,
        alternating_runs(runs_upto(t, t.len() as int)),
        word_pieces(t, style).len() == runs_upto(t, t.len() as int).len(),
        forall|i: int|
            0 <= i < word_pieces(t, style).len() ==> (#[trigger] word_pieces(t, style)[i]) == (
                runs_upto(t, t.len() as int)[i],
                style,
            ),
{
    lemma_runs_prefix(t, t.len() as int);
    assert(t.take(t.len() as int) =~= t);
}

// ---------------------------------------------------------------------------
// Without colors, no escape sequence
// ---------------------------------------------------------------------------

/// A text without the escape character.
pub open spec fn no_esc(s: Seq<char>) -> bool {
    forall|i: int| 0 <= i < s.len() ==> #[trigger] s[i] != '\x1b'
}

/// Pieces without escapes and without styles.
pub open spec fn plain_pieces(ps: Seq<PieceV>) -> bool {
    forall|i: int| 0 <= i < ps.len() ==> no_esc((#[trigger] ps[i]).0) && ps[i].1 is None
}

/// Lines without escapes.
pub open spec fn plain_lines(ls: Seq<Seq<char>>) -> bool {
    forall|i: int| 0 <= i < ls.len() ==> no_esc(#[trigger] ls[i])
}

/// A table whose collected pieces are plain.
pub open spec fn plain_table(t: TableV) -> bool {
    &&& plain_pieces(t.cell)
    &&& forall|i: int| 0 <= i < t.row.len() ==> plain_pieces(#[trigger] t.row[i])
    &&& forall|i: int, j: int|
        0 <= i < t.rows.len() && 0 <= j < t.rows[i].len() ==> plain_pieces(#[trigger] t.rows[i][j])
}

/// A pending block whose content is plain.
pub open spec fn plain_pending(p: PendingV) -> bool {
    match p {
        PendingV::Idle => true,
        PendingV::Paragraph(ps, f) => plain_pieces(ps) && (f matches Some(n) ==> no_esc(n)),
        PendingV::Heading(ps) => plain_pieces(ps),
        PendingV::Code(t) => no_esc(t),
        PendingV::Html(ls) => plain_lines(ls),
        PendingV::Table(t) => plain_table(t),
    }
}

/// A renderer state without colors and without escapes anywhere.
pub open spec fn plain_state(e: EngineV) -> bool {
    &&& !e.colors
    &&& no_esc(e.out)
    &&& forall|i: int| 0 <= i < e.prefixes.len() ==> no_esc((#[trigger] e.prefixes[i]).0) && no_esc(e.prefixes[i].1)
    &&& plain_lines(e.links)
    &&& forall|i: int| 0 <= i < e.inline.len() ==> (#[trigger] e.inline[i]) is None
    &&& plain_pending(e.pending)
}

/// An event whose texts hold no escape character.
pub open spec fn plain_event(ev: MdEvent) -> bool {
    match ev {
        MdEvent::Start(MdTag::FootnoteDefinition(n)) => no_esc(n@),
        MdEvent::Start(MdTag::Link(u)) => no_esc(u@),
        MdEvent::Text(t) => no_esc(t@),
        MdEvent::Code(t) => no_esc(t@),
        MdEvent::Html(t) => no_esc(t@),
        MdEvent::InlineHtml(t) => no_esc(t@),
        MdEvent::FootnoteReference(t) => no_esc(t@),
        _ => true,
    }
}

proof fn lemma_no_esc_concat(a: Seq<char>, b: Seq<char>)
    ensures
        no_esc(a + b) == (no_esc(a) && no_esc(b)),
{
    if no_esc(a + b) {
        assert forall|i: int| 0 <= i < a.len() implies #[trigger] a[i] != '\x1b' by {
            assert((a + b)[i] == a[i]);
        }
        assert forall|i: int| 0 <= i < b.len() implies #[trigger] b[i] != '\x1b' by {
            assert((a + b)[a.len() + i] == b[i]);
        }
    }
}

proof fn lemma_dec_no_esc(n: nat)
    ensures
        no_esc(dec_nat(n)),
    decreases n,
{
    if n >= 10 {
        lemma_dec_no_esc(n / 10);
        lemma_no_esc_concat(dec_nat(n / 10), seq![crate::text::digit(n % 10)]);
        assert(dec_nat(n) =~= dec_nat(n / 10) + seq![crate::text::digit(n % 10)]);
        assert(crate::text::digit(n % 10) as u32 == n % 10 + 48);
    } else {
        assert(crate::text::digit(n) as u32 == n + 48);
    }
}

proof fn lemma_prefixes_no_esc(ps: Seq<(Seq<char>, Seq<char>)>)
    requires
        forall|i: int| 0 <= i < ps.len() ==> no_esc((#[trigger] ps[i]).0) && no_esc(ps[i].1),
    ensures
        no_esc(line_prefix(ps)),
        no_esc(continuation_prefix(ps)),
    decreases ps.len(),
{
    if ps.len() > 0 {
        let q = ps.drop_last();
        assert forall|i: int| 0 <= i < q.len() implies no_esc((#[trigger] q[i]).0) && no_esc(q[i].1) by {
            assert(q[i] == ps[i]);
        }
        lemma_prefixes_no_esc(q);
        assert(no_esc(ps[ps.len() - 1].0) && no_esc(ps[ps.len() - 1].1));
        lemma_no_esc_concat(line_prefix(q), ps.last().0);
        lemma_no_esc_concat(continuation_prefix(q), ps.last().1);
    }
}

proof fn lemma_newline_plain(e: EngineV)
    requires
        plain_state(e),
    ensures
        plain_state(newline(e)),
        plain_state(ensure_newline(e)),
        plain_state(before_block(e)),
        plain_state(emit_line_start(e)),
{
    lemma_no_esc_concat(e.out, seq!['\n']);
    assert(e.out.push('\n') =~= e.out + seq!['\n']);
    let e1 = newline(e);
    lemma_no_esc_concat(e1.out, seq!['\n']);
    assert(e1.out.push('\n') =~= e1.out + seq!['\n']);
    lemma_prefixes_no_esc(e.prefixes);
    lemma_no_esc_concat(e.out, line_prefix(e.prefixes));
}

proof fn lemma_write_raw_plain(e: EngineV, text: Seq<char>)
    requires
        plain_state(e),
        no_esc(text),
    ensures
        plain_state(write_raw_line(e, text, None)),
{
    lemma_newline_plain(e);
    let e1 = emit_line_start(e);
    lemma_no_esc_concat(e1.out, text);
    lemma_newline_plain(emit(e1, text));
}

proof fn lemma_wrap_plain(w0: WrapV, pieces: Seq<PieceV>, n: int, width: int, cont: Seq<char>, cw: int)
    requires
        0 <= n <= pieces.len(),
        no_esc(w0.out),
        w0.active is None,
        no_esc(cont),
        plain_pieces(pieces),
    ensures
        no_esc(wrap_upto(w0, pieces, n, width, cont, cw).out),
        wrap_upto(w0, pieces, n, width, cont, cw).active is None,
    decreases n,
{
    if n > 0 {
        lemma_wrap_plain(w0, pieces, n - 1, width, cont, cw);
        let w = wrap_upto(w0, pieces, n - 1, width, cont, cw);
        let p = pieces[n - 1];
        assert(no_esc(p.0) && p.1 is None);
        lemma_no_esc_concat(w.out, seq!['\n']);
        lemma_no_esc_concat(w.out + seq!['\n'], cont);
        assert(w.out + off_text(w.active) + seq!['\n'] + cont =~= (w.out + seq!['\n']) + cont);
        lemma_no_esc_concat(w.out, seq![' ']);
        assert(w.out.push(' ') =~= w.out + seq![' ']);
        let w1 = if w.pending_space {
            if w.has_content && w.column + 1 + display_width(p.0) <= width {
                WrapV { out: w.out.push(' '), column: w.column + 1, pending_space: false, ..w }
            } else if w.has_content {
                wrap_break(w, cont, cw)
            } else {
                WrapV { pending_space: false, ..w }
            }
        } else {
            w
        };
        lemma_no_esc_concat(w1.out, p.0);
        assert(w1.out + switch_text(w1.active, p.1) + p.0 =~= w1.out + p.0);
    }
}

proof fn lemma_emit_wrapped_plain(e: EngineV, pieces: Seq<PieceV>)
    requires
        plain_state(e),
        plain_pieces(pieces),
    ensures
        plain_state(emit_wrapped(e, pieces)),
{
    lemma_newline_plain(e);
    lemma_prefixes_no_esc(e.prefixes);
    let cont = continuation_prefix(e.prefixes);
    let e1 = emit_line_start(e);
    let w0 = WrapV {
        out: e1.out,
        at_line_start: e1.at_line_start,
        column: display_width(line_prefix(e.prefixes)) as int,
        has_content: false,
        pending_space: false,
        active: None,
    };
    lemma_wrap_plain(w0, pieces, pieces.len() as int, e.width, cont, display_width(cont) as int);
    let w = wrap_upto(w0, pieces, pieces.len() as int, e.width, cont, display_width(cont) as int);
    assert(w.out + off_text(w.active) =~= w.out);
}

proof fn lemma_inline_plain(pieces: Seq<PieceV>, n: int)
    requires
        0 <= n <= pieces.len(),
        plain_pieces(pieces),
    ensures
        no_esc(inline_upto(pieces, n).0),
        inline_upto(pieces, n).1 is None,
    decreases n,
{
    if n > 0 {
        lemma_inline_plain(pieces, n - 1);
        let (o, a) = inline_upto(pieces, n - 1);
        assert(no_esc(pieces[n - 1].0) && pieces[n - 1].1 is None);
        lemma_no_esc_concat(o, pieces[n - 1].0);
        assert(o + switch_text(a, pieces[n - 1].1) + pieces[n - 1].0 =~= o + pieces[n - 1].0);
    }
}

proof fn lemma_join_plain(parts: Seq<Seq<char>>, sep: Seq<char>)
    requires
        plain_lines(parts),
        no_esc(sep),
    ensures
        no_esc(join(parts, sep)),
    decreases parts.len(),
{
    if parts.len() > 1 {
        let q = parts.drop_last();
        assert forall|i: int| 0 <= i < q.len() implies no_esc(#[trigger] q[i]) by {
            assert(q[i] == parts[i]);
        }
        lemma_join_plain(q, sep);
        assert(no_esc(parts[parts.len() - 1]));
        lemma_no_esc_concat(join(q, sep), sep);
        lemma_no_esc_concat(join(q, sep) + sep, parts.last());
    } else if parts.len() == 1 {
        assert(no_esc(parts[0]));
    }
}

proof fn lemma_row_plain(row: Seq<Seq<PieceV>>)
    requires
        forall|i: int| 0 <= i < row.len() ==> plain_pieces(#[trigger] row[i]),
    ensures
        no_esc(row_text(row)),
{
    let texts = cell_texts(row);
    assert forall|i: int| 0 <= i < texts.len() implies no_esc(#[trigger] texts[i]) by {
        assert(plain_pieces(row[i]));
        lemma_inline_plain(row[i], row[i].len() as int);
        let (o, a) = inline_upto(row[i], row[i].len() as int);
        assert(o + off_text(a) =~= o);
    }
    lemma_join_plain(texts, seq![' ', '|', ' ']);
}

proof fn lemma_blocks_plain(e: EngineV, t: TableV, lines: Seq<Seq<char>>, n: int)
    requires
        plain_state(e),
        plain_table(t),
        plain_lines(lines),
    ensures
        plain_state(table_upto(e, t, n)) || n > t.rows.len(),
        n <= lines.len() ==> plain_state(html_upto(e, lines, n)),
        n <= lines.len() ==> plain_state(code_upto(e, lines, n)),
    decreases n,
{
    if n > 0 {
        lemma_blocks_plain(e, t, lines, n - 1);
        if n <= t.rows.len() {
            assert forall|j: int| 0 <= j < t.rows[n - 1].len() implies plain_pieces(#[trigger] t.rows[n - 1][j]) by {
            }
            lemma_row_plain(t.rows[n - 1]);
            lemma_write_raw_plain(table_upto(e, t, n - 1), row_text(t.rows[n - 1]));
        }
        if n <= lines.len() {
            assert(no_esc(lines[n - 1]));
            lemma_write_raw_plain(html_upto(e, lines, n - 1), lines[n - 1]);
            lemma_no_esc_concat(seq![' ', ' '], lines[n - 1]);
            lemma_write_raw_plain(code_upto(e, lines, n - 1), code_line(lines[n - 1]));
        }
    }
}

proof fn lemma_split_plain(t: Seq<char>, n: int)
    requires
        0 <= n <= t.len(),
        no_esc(t),
    ensures
        plain_lines(split_upto(t, n)),
        split_upto(t, n).len() > 0,
    decreases n,
{
    if n > 0 {
        lemma_split_plain(t, n - 1);
        let r = split_upto(t, n - 1);
        assert(t[n - 1] != '\x1b');
        if t[n - 1] != '\n' {
            let last = r.last().push(t[n - 1]);
            assert(no_esc(r[r.len() - 1]));
            lemma_no_esc_concat(r.last(), seq![t[n - 1]]);
            assert(last =~= r.last() + seq![t[n - 1]]);
            let r2 = r.drop_last().push(last);
            assert forall|i: int| 0 <= i < r2.len() implies no_esc(#[trigger] r2[i]) by {
                if i < r.len() - 1 {
                    assert(r2[i] == r[i]);
                }
            }
        } else {
            let r2 = r.push(Seq::empty());
            assert forall|i: int| 0 <= i < r2.len() implies no_esc(#[trigger] r2[i]) by {
                if i < r.len() {
                    assert(r2[i] == r[i]);
                }
            }
        }
    }
}

proof fn lemma_drop_empty_plain(lines: Seq<Seq<char>>)
    requires
        plain_lines(lines),
    ensures
        plain_lines(drop_trailing_empty(lines)),
    decreases lines.len(),
{
    if lines.len() > 0 && lines.last().len() == 0 {
        let q = lines.drop_last();
        assert forall|i: int| 0 <= i < q.len() implies no_esc(#[trigger] q[i]) by {
            assert(q[i] == lines[i]);
        }
        lemma_drop_empty_plain(q);
    }
}

proof fn lemma_runs_plain(t: Seq<char>, n: int)
    requires
        0 <= n <= t.len(),
        no_esc(t),
    ensures
        plain_lines(runs_upto(t, n)),
    decreases n,
{
    if n > 0 {
        lemma_runs_plain(t, n - 1);
        let r = runs_upto(t, n - 1);
        let c = t[n - 1];
        assert(c != '\x1b');
        if r.len() > 0 && r.last().len() > 0 && is_ws(r.last().last()) == is_ws(c) {
            let last = r.last().push(c);
            assert(no_esc(r[r.len() - 1]));
            lemma_no_esc_concat(r.last(), seq![c]);
            assert(last =~= r.last() + seq![c]);
            let r2 = r.drop_last().push(last);
            assert forall|i: int| 0 <= i < r2.len() implies no_esc(#[trigger] r2[i]) by {
                if i < r.len() - 1 {
                    assert(r2[i] == r[i]);
                }
            }
        } else {
            let r2 = r.push(seq![c]);
            assert forall|i: int| 0 <= i < r2.len() implies no_esc(#[trigger] r2[i]) by {
                if i < r.len() {
                    assert(r2[i] == r[i]);
                }
            }
        }
    }
}

proof fn lemma_word_pieces_plain(t: Seq<char>)
    requires
        no_esc(t),
    ensures
        plain_pieces(word_pieces(t, None)),
{
    lemma_runs_plain(t, t.len() as int);
    let rs = runs_upto(t, t.len() as int);
    assert forall|i: int| 0 <= i < word_pieces(t, None).len() implies no_esc((#[trigger] word_pieces(t, None)[i]).0)
        && word_pieces(t, None)[i].1 is None by {
        assert(word_pieces(t, None)[i] == (rs[i], None::<TextStyle>));
        assert(no_esc(rs[i]));
    }
}

proof fn lemma_pieces_push_plain(ps: Seq<PieceV>, p: PieceV)
    requires
        plain_pieces(ps),
        no_esc(p.0),
        p.1 is None,
    ensures
        plain_pieces(ps.push(p)),
{
    assert forall|i: int| 0 <= i < ps.push(p).len() implies no_esc((#[trigger] ps.push(p)[i]).0) && ps.push(p)[i].1 is None by {
        if i < ps.len() {
            assert(ps.push(p)[i] == ps[i]);
        }
    }
}

proof fn lemma_pieces_concat_plain(a: Seq<PieceV>, b: Seq<PieceV>)
    requires
        plain_pieces(a),
        plain_pieces(b),
    ensures
        plain_pieces(a + b),
{
    assert forall|i: int| 0 <= i < (a + b).len() implies no_esc((#[trigger] (a + b)[i]).0) && (a + b)[i].1 is None by {
        if i < a.len() {
            assert((a + b)[i] == a[i]);
        } else {
            assert((a + b)[i] == b[i - a.len()]);
        }
    }
}

proof fn lemma_push_piece_plain(e: EngineV, p: PieceV)
    requires
        plain_state(e),
        no_esc(p.0),
        p.1 is None,
    ensures
        plain_state(push_piece(e, p)),
{
    match e.pending {
        PendingV::Paragraph(ps, f) => lemma_pieces_push_plain(ps, p),
        PendingV::Heading(ps) => lemma_pieces_push_plain(ps, p),
        PendingV::Table(t) => if t.in_cell {
            lemma_pieces_push_plain(t.cell, p);
        },
        _ => {},
    }
}

proof fn lemma_flush_plain(e: EngineV)
    requires
        plain_state(e),
    ensures
        plain_state(flush_paragraph(e)),
{
    let e0 = EngineV { pending: PendingV::Idle, ..e };
    match e.pending {
        PendingV::Paragraph(pieces, footnote) => {
            if pieces.len() > 0 {
                let all = match footnote {
                    Some(name) => seq![footnote_piece(e.colors, name)] + pieces,
                    None => pieces,
                };
                match footnote {
                    Some(name) => {
                        let label = seq!['['] + name + seq![']', ' '];
                        lemma_no_esc_concat(seq!['['], name);
                        lemma_no_esc_concat(seq!['['] + name, seq![']', ' ']);
                        lemma_pieces_push_plain(Seq::empty(), footnote_piece(e.colors, name));
                        assert(seq![footnote_piece(e.colors, name)] =~= Seq::<PieceV>::empty().push(footnote_piece(e.colors, name)));
                        lemma_pieces_concat_plain(seq![footnote_piece(e.colors, name)], pieces);
                    },
                    None => {},
                }
                lemma_emit_wrapped_plain(e0, all);
                lemma_newline_plain(emit_wrapped(e0, all));
            }
        },
        _ => {},
    }
}

proof fn lemma_prefix_push_plain(ps: Seq<(Seq<char>, Seq<char>)>, l: Seq<char>, c: Seq<char>)
    requires
        forall|i: int| 0 <= i < ps.len() ==> no_esc((#[trigger] ps[i]).0) && no_esc(ps[i].1),
        no_esc(l),
        no_esc(c),
    ensures
        forall|i: int| 0 <= i < ps.push((l, c)).len() ==> no_esc((#[trigger] ps.push((l, c))[i]).0) && no_esc(
            ps.push((l, c))[i].1,
        ),
{
    assert forall|i: int| 0 <= i < ps.push((l, c)).len() implies no_esc((#[trigger] ps.push((l, c))[i]).0) && no_esc(
        ps.push((l, c))[i].1,
    ) by {
        if i < ps.len() {
            assert(ps.push((l, c))[i] == ps[i]);
        }
    }
}

proof fn lemma_start_plain(e: EngineV, tag: MdTag)
    requires
        plain_state(e),
        plain_event(MdEvent::Start(tag)),
        tag is Item ==> e.lists.len() > 0,
    ensures
        plain_state(handle_start(e, tag)),
{
    lemma_newline_plain(e);
    assert(plain_pieces(Seq::<PieceV>::empty()));
    assert(plain_lines(Seq::<Seq<char>>::empty()));
    match tag {
        MdTag::List(start) => {
            lemma_flush_plain(e);
            lemma_newline_plain(flush_paragraph(e));
        },
        MdTag::Item => {
            let e1 = ensure_newline(e);
            let e2 = if e1.pending is Idle {
                EngineV { pending: PendingV::Paragraph(Seq::empty(), None), ..e1 }
            } else {
                e1
            };
            let depth = e2.lists.len();
            let ctx = e2.lists.last();
            let bullet = if ctx.0 { dec_nat(ctx.1 as nat) + seq!['.', ' '] } else { bullet_text(depth as int) };
            lemma_dec_no_esc(ctx.1 as nat);
            lemma_no_esc_concat(dec_nat(ctx.1 as nat), seq!['.', ' ']);
            let line = repeat_char(' ', (2 * (depth - 1)) as nat) + bullet;
            lemma_no_esc_concat(repeat_char(' ', (2 * (depth - 1)) as nat), bullet);
            lemma_prefix_push_plain(e2.prefixes, line, repeat_char(' ', display_width(line)));
        },
        MdTag::BlockQuote => {
            lemma_prefix_push_plain(before_block(e).prefixes, seq!['│', ' '], seq!['│', ' ']);
        },
        MdTag::Table => {
            assert(plain_table(empty_table()));
        },
        MdTag::TableRow => {},
        MdTag::TableCell => {},
        MdTag::Link(url) => {
            let links = e.links.push(url@);
            assert forall|i: int| 0 <= i < links.len() implies no_esc(#[trigger] links[i]) by {
                if i < e.links.len() {
                    assert(links[i] == e.links[i]);
                }
            }
            let e1 = EngineV { links, ..e };
            assert(e1.inline.push(None::<TextStyle>).len() == e1.inline.len() + 1);
            assert forall|i: int| 0 <= i < e1.inline.push(None::<TextStyle>).len() implies (#[trigger] e1.inline.push(None::<TextStyle>)[i]) is None by {
                if i < e1.inline.len() {
                    assert(e1.inline.push(None::<TextStyle>)[i] == e1.inline[i]);
                }
            }
        },
        MdTag::Emphasis | MdTag::Strong | MdTag::Strikethrough | MdTag::Image => {
            assert forall|i: int| 0 <= i < e.inline.push(None::<TextStyle>).len() implies (#[trigger] e.inline.push(None::<TextStyle>)[i]) is None by {
                if i < e.inline.len() {
                    assert(e.inline.push(None::<TextStyle>)[i] == e.inline[i]);
                }
            }
        },
        _ => {},
    }
}

proof fn lemma_end_plain(e: EngineV, tag: MdTagEnd)
    requires
        plain_state(e),
    ensures
        plain_state(handle_end(e, tag)),
{
    let idle = EngineV { pending: PendingV::Idle, ..e };
    assert(plain_table(empty_table()));
    match tag {
        MdTagEnd::Paragraph => lemma_flush_plain(e),
        MdTagEnd::Heading(level) => {
            match e.pending {
                PendingV::Heading(pieces) => {
                    let p = restyled(pieces, styled(e.colors, heading_style(level)));
                    assert forall|i: int| 0 <= i < p.len() implies no_esc((#[trigger] p[i]).0) && p[i].1 is None by {
                        assert(no_esc(pieces[i].0));
                    }
                    lemma_emit_wrapped_plain(idle, p);
                    lemma_newline_plain(emit_wrapped(idle, p));
                },
                _ => {},
            }
        },
        MdTagEnd::CodeBlock => {
            match e.pending {
                PendingV::Code(text) => {
                    lemma_split_plain(text, text.len() as int);
                    lemma_drop_empty_plain(split_upto(text, text.len() as int));
                    let lines = code_lines(text);
                    lemma_blocks_plain(idle, empty_table(), lines, lines.len() as int);
                },
                _ => {},
            }
        },
        MdTagEnd::HtmlBlock => {
            match e.pending {
                PendingV::Html(lines) => {
                    lemma_blocks_plain(idle, empty_table(), lines, lines.len() as int);
                },
                _ => {},
            }
        },
        MdTagEnd::Item => {
            lemma_flush_plain(e);
            let e1 = flush_paragraph(e);
            if e1.prefixes.len() > 0 {
                let ps = e1.prefixes.drop_last();
                assert forall|i: int| 0 <= i < ps.len() implies no_esc((#[trigger] ps[i]).0) && no_esc(ps[i].1) by {
                    assert(ps[i] == e1.prefixes[i]);
                }
            }
        },
        MdTagEnd::BlockQuote => {
            if e.prefixes.len() > 0 {
                let ps = e.prefixes.drop_last();
                assert forall|i: int| 0 <= i < ps.len() implies no_esc((#[trigger] ps[i]).0) && no_esc(ps[i].1) by {
                    assert(ps[i] == e.prefixes[i]);
                }
            }
        },
        MdTagEnd::Table => {
            match e.pending {
                PendingV::Table(t) => {
                    lemma_blocks_plain(idle, t, Seq::empty(), t.rows.len() as int);
                },
                _ => {},
            }
        },
        MdTagEnd::TableHead | MdTagEnd::TableRow => {
            match e.pending {
                PendingV::Table(t) => {
                    let t2 = end_row(t);
                    assert forall|i: int, j: int| 0 <= i < t2.rows.len() && 0 <= j < t2.rows[i].len() implies plain_pieces(
                        #[trigger] t2.rows[i][j],
                    ) by {
                        if i < t.rows.len() {
                            assert(t2.rows[i] == t.rows[i]);
                        } else {
                            assert(t2.rows[i] == t.row);
                        }
                    }
                    assert(plain_table(t2));
                },
                _ => {},
            }
        },
        MdTagEnd::TableCell => {
            match e.pending {
                PendingV::Table(t) => {
                    let row = t.row.push(t.cell);
                    assert forall|i: int| 0 <= i < row.len() implies plain_pieces(#[trigger] row[i]) by {
                        if i < t.row.len() {
                            assert(row[i] == t.row[i]);
                        }
                    }
                    assert(plain_pieces(Seq::<PieceV>::empty()));
                },
                _ => {},
            }
        },
        MdTagEnd::Link => {
            let e1 = EngineV {
                inline: if e.inline.len() > 0 { e.inline.drop_last() } else { e.inline },
                ..e
            };
            assert forall|i: int| 0 <= i < e1.inline.len() implies (#[trigger] e1.inline[i]) is None by {
                assert(e1.inline[i] == e.inline[i]);
            }
            if e1.links.len() > 0 {
                let url = e1.links.last();
                let links = e1.links.drop_last();
                assert forall|i: int| 0 <= i < links.len() implies no_esc(#[trigger] links[i]) by {
                    assert(links[i] == e1.links[i]);
                }
                let e2 = EngineV { links, ..e1 };
                assert(no_esc(e1.links[e1.links.len() - 1]));
                lemma_no_esc_concat(seq![' ', '('], url);
                lemma_no_esc_concat(seq![' ', '('] + url, seq![')']);
                lemma_push_piece_plain(e2, (seq![' ', '('] + url + seq![')'], styled(e.colors, dimmed_style())));
            }
        },
        MdTagEnd::Image | MdTagEnd::Emphasis | MdTagEnd::Strong | MdTagEnd::Strikethrough => {
            if e.inline.len() > 1 {
                let il = e.inline.drop_last();
                assert forall|i: int| 0 <= i < il.len() implies (#[trigger] il[i]) is None by {
                    assert(il[i] == e.inline[i]);
                }
            }
        },
        _ => {},
    }
}

proof fn lemma_step_plain(e: EngineV, ev: MdEvent)
    requires
        plain_state(e),
        plain_event(ev),
        ev matches MdEvent::Start(MdTag::Item) ==> e.lists.len() > 0,
    ensures
        plain_state(step(e, ev)),
{
    match ev {
        MdEvent::Start(tag) => lemma_start_plain(e, tag),
        MdEvent::End(tag) => lemma_end_plain(e, tag),
        MdEvent::Text(t) => {
            let style = current_style(e);
            assert(style is None) by {
                if e.inline.len() > 0 {
                    assert(e.inline[e.inline.len() - 1] is None);
                }
            }
            lemma_word_pieces_plain(t@);
            match e.pending {
                PendingV::Paragraph(ps, f) => lemma_pieces_concat_plain(ps, word_pieces(t@, None)),
                PendingV::Heading(ps) => lemma_pieces_concat_plain(ps, word_pieces(t@, None)),
                PendingV::Table(tb) => if tb.in_cell {
                    lemma_pieces_concat_plain(tb.cell, word_pieces(t@, None));
                },
                PendingV::Code(code) => lemma_no_esc_concat(code, t@),
                PendingV::Html(lines) => {
                    let l2 = lines.push(t@);
                    assert forall|i: int| 0 <= i < l2.len() implies no_esc(#[trigger] l2[i]) by {
                        if i < lines.len() {
                            assert(l2[i] == lines[i]);
                        }
                    }
                },
                PendingV::Idle => {},
            }
        },
        MdEvent::Code(t) => lemma_push_piece_plain(e, (t@, None)),
        MdEvent::Html(t) => {
            match e.pending {
                PendingV::Html(lines) => {
                    let l2 = lines.push(t@);
                    assert forall|i: int| 0 <= i < l2.len() implies no_esc(#[trigger] l2[i]) by {
                        if i < lines.len() {
                            assert(l2[i] == lines[i]);
                        }
                    }
                },
                _ => lemma_push_piece_plain(e, (t@, None)),
            }
        },
        MdEvent::InlineHtml(t) => lemma_push_piece_plain(e, (t@, None)),
        MdEvent::FootnoteReference(name) => {
            lemma_no_esc_concat(seq!['['], name@);
            lemma_no_esc_concat(seq!['['] + name@, seq![']']);
            lemma_push_piece_plain(e, (seq!['['] + name@ + seq![']'], None));
        },
        MdEvent::HardBreak => lemma_push_piece_plain(e, (seq!['\n'], None)),
        MdEvent::Rule => {
            lemma_newline_plain(e);
            let e1 = before_block(e);
            let pw = display_width(line_prefix(e1.prefixes)) as int;
            let available = if e1.width > pw { e1.width - pw } else { 0 };
            let n = if available > 3 { available } else { 3 };
            lemma_write_raw_plain(e1, repeat_char('─', n as nat));
        },
        MdEvent::TaskListMarker(checked) => {
            if e.prefixes.len() > 0 {
                let k = e.prefixes.len() - 1;
                let (l, c) = e.prefixes[k];
                let m = task_marker(checked);
                lemma_no_esc_concat(l, m);
                lemma_no_esc_concat(c, repeat_char(' ', display_width(m)));
                let ps = e.prefixes.update(k, (l + m, c + repeat_char(' ', display_width(m))));
                assert forall|i: int| 0 <= i < ps.len() implies no_esc((#[trigger] ps[i]).0) && no_esc(ps[i].1) by {
                    if i < k {
                        assert(ps[i] == e.prefixes[i]);
                    }
                }
            }
        },
        MdEvent::Ignored => {},
    }
}

/// Without colors, rendering writes no escape sequence: when no text of
/// the document holds the escape character, neither does the output.
pub proof fn lemma_plain_without_colors(width: int, events: Seq<MdEvent>)
    requires
        items_in_lists(events),
        forall|k: int| 0 <= k < events.len() ==> plain_event(#[trigger] events[k]),
    ensures
        no_esc(rendered(width, false, events)),
{
    let e0 = initial(width, false);
    assert(plain_state(e0)) by {
        assert(plain_lines(Seq::<Seq<char>>::empty()));
        assert(e0.inline[0] is None);
    }
    assert forall|n: int| 0 <= n <= events.len() implies plain_state(#[trigger] run(e0, events, n)) by {
        lemma_run_plain(width, events, n);
    }
    let out = run(e0, events, events.len() as int).out;
    lemma_strip_plain(out);
    if out.len() > 0 {
        lemma_no_esc_concat(strip_newlines(out), seq!['\n']);
        assert(strip_newlines(out).push('\n') =~= strip_newlines(out) + seq!['\n']);
    }
}

proof fn lemma_run_plain(width: int, events: Seq<MdEvent>, n: int)
    requires
        0 <= n <= events.len(),
        items_in_lists(events),
        forall|k: int| 0 <= k < events.len() ==> plain_event(#[trigger] events[k]),
    ensures
        plain_state(run(initial(width, false), events, n)),
    decreases n,
{
    let e0 = initial(width, false);
    if n == 0 {
        assert(plain_lines(Seq::<Seq<char>>::empty()));
        assert(e0.inline[0] is None);
    } else {
        lemma_run_plain(width, events, n - 1);
        lemma_run_lists(width, false, events, n - 1);
        assert(plain_event(events[n - 1]));
        if events[n - 1] matches MdEvent::Start(MdTag::Item) {
            assert(list_depth(events, n - 1) > 0);
        }
        lemma_step_plain(run(e0, events, n - 1), events[n - 1]);
    }
}

proof fn lemma_strip_plain(out: Seq<char>)
    requires
        no_esc(out),
    ensures
        no_esc(strip_newlines(out)),
    decreases out.len(),
{
    if ends_nl(out) {
        assert forall|i: int| 0 <= i < out.drop_last().len() implies #[trigger] out.drop_last()[i] != '\x1b' by {
            assert(out.drop_last()[i] == out[i]);
        }
        lemma_strip_plain(out.drop_last());
    }
}

/// Blocks are set apart: at the top level a new block follows a blank
/// line (nothing precedes the first one), inside a list item it starts on
/// a line of its own; what was written before is kept.
pub proof fn lemma_blocks_separated(e: EngineV)
    ensures
        e.out.is_prefix_of(before_block(e).out),
        e.item_depth == 0 && e.out.len() > 0 ==> ends_2nl(before_block(e).out),
        e.item_depth == 0 && e.out.len() == 0 ==> before_block(e).out.len() == 0,
        e.item_depth > 0 ==> ends_nl(before_block(e).out),
{
    let e1 = if ends_nl(e.out) { e } else { newline(e) };
    assert(e.out.is_prefix_of(e1.out));
    assert(e1.out.is_prefix_of(newline(e1).out));
    assert(e.out.is_prefix_of(newline(e).out));
}

} // verus!
