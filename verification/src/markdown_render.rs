//! The Markdown renderer: consumes parse events and writes terminal text,
//! step by step as the machine of [`crate::markdown`] describes.
use vstd::prelude::*;
use crate::markdown::{
    add_task_marker, all_ws, cell_texts, ansi_off, ansi_on, before_block, begin_block, bullet_text, code_line,
    code_lines, code_upto, colored, lemma_run_lists, list_depth, continuation_prefix, current_style, display_width,
    dimmed_style, drop_trailing_empty, emit, emit_code, emit_line_start, emit_wrapped, empty_table,
    end_row, ends_2nl, ends_nl, ensure_newline, finished, flush_paragraph, footnote_piece,
    handle_end, handle_rule, handle_start, handle_text, heading_style, html_upto, initial,
    inline_text, inline_upto, items_in_lists, line_prefix, newline, off_text, on_text, plain_style,
    pop_style, push_piece, push_style, rendered, repeat_char, restyled, row_text, run, runs_upto,
    sat, split_upto, start_block_quote, start_item, step, strip_newlines, owo_style, style_off, style_on,
    styled, styled_text, switch_text, table_upto, task_marker, text_width, word_pieces, wrap_break,
    wrap_piece, wrap_upto, write_raw_line, AnsiColor, EngineV, MdEvent, MdHeadingLevel, MdTag, MdTagEnd, PendingV,
    PieceV, StyleStep, TableV, TextStyle, WrapV, apply_step, bold_style,
};
use crate::text::{chars_of, is_whitespace, is_ws, join, string_of, dec_nat, push_dec};
use crate::markdown_parse::{md_events, parse_markdown};

verus! {

/// A piece of inline content.
struct Piece {
    text: Vec<char>,
    style: Option<TextStyle>,
}

impl Piece {
    spec fn v(&self) -> PieceV {
        (self.text@, self.style)
    }
}

spec fn pieces_v(s: Seq<Piece>) -> Seq<PieceV> {
    s.map_values(|p: Piece| p.v())
}

spec fn cells_v(s: Seq<Vec<Piece>>) -> Seq<Seq<PieceV>> {
    s.map_values(|c: Vec<Piece>| pieces_v(c@))
}

spec fn rows_v(s: Seq<Vec<Vec<Piece>>>) -> Seq<Seq<Seq<PieceV>>> {
    s.map_values(|r: Vec<Vec<Piece>>| cells_v(r@))
}

spec fn lines_v(s: Seq<Vec<char>>) -> Seq<Seq<char>> {
    s.map_values(|l: Vec<char>| l@)
}

/// The prefix an enclosing block puts on its lines.
struct PrefixComponent {
    line: Vec<char>,
    continuation: Vec<char>,
}

spec fn prefixes_v(s: Seq<PrefixComponent>) -> Seq<(Seq<char>, Seq<char>)> {
    s.map_values(|c: PrefixComponent| (c.line@, c.continuation@))
}

struct ListContext {
    ordered: bool,
    next_number: u64,
}

spec fn lists_v(s: Seq<ListContext>) -> Seq<(bool, u64)> {
    s.map_values(|c: ListContext| (c.ordered, c.next_number))
}

struct TableState {
    rows: Vec<Vec<Vec<Piece>>>,
    row: Vec<Vec<Piece>>,
    cell: Vec<Piece>,
    in_cell: bool,
    has_header: bool,
}

impl TableState {
    spec fn v(&self) -> TableV {
        TableV {
            rows: rows_v(self.rows@),
            row: cells_v(self.row@),
            cell: pieces_v(self.cell@),
            in_cell: self.in_cell,
            has_header: self.has_header,
        }
    }
}

enum Pending {
    Idle,
    Paragraph(Vec<Piece>, Option<Vec<char>>),
    Heading(Vec<Piece>),
    Code(Vec<char>),
    Html(Vec<Vec<char>>),
    Table(TableState),
}

impl Pending {
    spec fn v(&self) -> PendingV {
        match self {
            Pending::Idle => PendingV::Idle,
            Pending::Paragraph(ps, f) => PendingV::Paragraph(
                pieces_v(ps@),
                match f {
                    Some(n) => Some(n@),
                    None => None,
                },
            ),
            Pending::Heading(ps) => PendingV::Heading(pieces_v(ps@)),
            Pending::Code(t) => PendingV::Code(t@),
            Pending::Html(ls) => PendingV::Html(lines_v(ls@)),
            Pending::Table(t) => PendingV::Table(t.v()),
        }
    }
}

struct RenderEngine {
    width: usize,
    colors: bool,
    out: Vec<char>,
    at_line_start: bool,
    prefix_stack: Vec<PrefixComponent>,
    list_stack: Vec<ListContext>,
    link_urls: Vec<Vec<char>>,
    inline_stack: Vec<Option<TextStyle>>,
    pending: Pending,
    item_depth: usize,
}

/// Appends characters to a vector.
fn append_chars(out: &mut Vec<char>, t: &[char])
    ensures
        final(out)@ == old(out)@ + t@,
{
    let n = t.len();
    for i in 0..n
        invariant
            n == t@.len(),
            out@ == old(out)@ + t@.take(i as int),
    {
        out.push(t[i]);
        assert(t@.take(i + 1) == t@.take(i as int).push(t@[i as int]));
    }
    assert(t@.take(n as int) == t@);
}

/// A copy of a character vector.
fn copy_chars(t: &[char]) -> (r: Vec<char>)
    ensures
        r@ == t@,
{
    let mut r: Vec<char> = Vec::new();
    append_chars(&mut r, t);
    r
}

/// Appends the characters of a string.
fn append_str(out: &mut Vec<char>, s: &str)
    ensures
        final(out)@ == old(out)@ + s@,
{
    let cs = chars_of(s);
    append_chars(out, cs.as_slice());
}

/// `n` copies of a character.
fn repeat(c: char, n: usize) -> (r: Vec<char>)
    ensures
        r@ == repeat_char(c, n as nat),
{
    let mut r: Vec<char> = Vec::new();
    for i in 0..n
        invariant
            r@ == repeat_char(c, i as nat),
    {
        r.push(c);
        assert(r@ =~= repeat_char(c, (i + 1) as nat));
    }
    r
}

fn style_on_chars(out: &mut Vec<char>, s: Option<TextStyle>)
    ensures
        final(out)@ == old(out)@ + on_text(s),
{
    match s {
        Some(st) => {
            let t = style_on(owo_style(st));
            append_str(out, t.as_str());
        },
        None => {},
    }
}

fn style_off_chars(out: &mut Vec<char>, s: Option<TextStyle>)
    ensures
        final(out)@ == old(out)@ + off_text(s),
{
    match s {
        Some(st) => {
            let t = style_off(owo_style(st));
            append_str(out, t.as_str());
        },
        None => {},
    }
}

fn same_style(a: Option<TextStyle>, b: Option<TextStyle>) -> (r: bool)
    ensures
        r == (a == b),
{
    match (a, b) {
        (None, None) => true,
        (Some(x), Some(y)) => {
            let fg = match (x.fg, y.fg) {
                (None, None) => true,
                (Some(AnsiColor::Red), Some(AnsiColor::Red)) => true,
                (Some(AnsiColor::Green), Some(AnsiColor::Green)) => true,
                (Some(AnsiColor::Yellow), Some(AnsiColor::Yellow)) => true,
                (Some(AnsiColor::Cyan), Some(AnsiColor::Cyan)) => true,
                (Some(AnsiColor::White), Some(AnsiColor::White)) => true,
                _ => false,
            };
            fg && x.bold == y.bold && x.dimmed == y.dimmed && x.italic == y.italic && x.underline
                == y.underline && x.reversed == y.reversed && x.strikethrough == y.strikethrough
        },
        _ => false,
    }
}

/// Switches the style in force to another.
fn switch_chars(out: &mut Vec<char>, active: Option<TextStyle>, style: Option<TextStyle>)
    ensures
        final(out)@ == old(out)@ + switch_text(active, style),
{
    if !same_style(active, style) {
        style_off_chars(out, active);
        style_on_chars(out, style);
        assert(out@ =~= old(out)@ + switch_text(active, style));
    } else {
        assert(out@ =~= old(out)@ + switch_text(active, style));
    }
}

impl RenderEngine {
    spec fn v(&self) -> EngineV {
        EngineV {
            width: self.width as int,
            colors: self.colors,
            out: self.out@,
            at_line_start: self.at_line_start,
            prefixes: prefixes_v(self.prefix_stack@),
            lists: lists_v(self.list_stack@),
            links: lines_v(self.link_urls@),
            inline: self.inline_stack@,
            pending: self.pending.v(),
            item_depth: self.item_depth as int,
        }
    }

    fn new(width: usize, colors: bool) -> (r: Self)
        ensures
            r.v() == initial(width as int, colors),
    {
        let mut inline_stack: Vec<Option<TextStyle>> = Vec::new();
        inline_stack.push(None);
        let r = RenderEngine {
            width,
            colors,
            out: Vec::new(),
            at_line_start: true,
            prefix_stack: Vec::new(),
            list_stack: Vec::new(),
            link_urls: Vec::new(),
            inline_stack,
            pending: Pending::Idle,
            item_depth: 0,
        };
        assert(r.v().prefixes =~= Seq::empty());
        assert(r.v().lists =~= Seq::empty());
        assert(r.v().links =~= Seq::empty());
        assert(r.v().inline =~= seq![None]);
        assert(r.v().out =~= Seq::empty());
        r
    }

    fn ends_with_newline(&self) -> (r: bool)
        ensures
            r == ends_nl(self.v().out),
    {
        self.out.len() > 0 && self.out[self.out.len() - 1] == '\n'
    }

    fn newline(&mut self)
        ensures
            final(self).v() == newline(old(self).v()),
    {
        self.out.push('\n');
        self.at_line_start = true;
    }

    fn ensure_newline(&mut self)
        ensures
            final(self).v() == ensure_newline(old(self).v()),
    {
        if !self.ends_with_newline() {
            self.newline();
        }
    }

    fn before_block(&mut self)
        ensures
            final(self).v() == before_block(old(self).v()),
    {
        if self.item_depth > 0 {
            self.ensure_newline();
            return ;
        }
        if self.out.len() == 0 {
            return ;
        }
        if !self.ends_with_newline() {
            self.newline();
        }
        let n = self.out.len();
        if !(n > 1 && self.out[n - 1] == '\n' && self.out[n - 2] == '\n') {
            self.newline();
        }
    }

    fn current_prefix(&self) -> (r: Vec<char>)
        ensures
            r@ == line_prefix(self.v().prefixes),
    {
        let mut r: Vec<char> = Vec::new();
        let n = self.prefix_stack.len();
        for i in 0..n
            invariant
                n == self.prefix_stack@.len(),
                r@ == line_prefix(prefixes_v(self.prefix_stack@).take(i as int)),
        {
            append_chars(&mut r, self.prefix_stack[i].line.as_slice());
            assert(prefixes_v(self.prefix_stack@).take(i + 1).drop_last() =~= prefixes_v(
                self.prefix_stack@,
            ).take(i as int));
        }
        assert(prefixes_v(self.prefix_stack@).take(n as int) =~= prefixes_v(self.prefix_stack@));
        r
    }

    fn current_continuation(&self) -> (r: Vec<char>)
        ensures
            r@ == continuation_prefix(self.v().prefixes),
    {
        let mut r: Vec<char> = Vec::new();
        let n = self.prefix_stack.len();
        for i in 0..n
            invariant
                n == self.prefix_stack@.len(),
                r@ == continuation_prefix(prefixes_v(self.prefix_stack@).take(i as int)),
        {
            append_chars(&mut r, self.prefix_stack[i].continuation.as_slice());
            assert(prefixes_v(self.prefix_stack@).take(i + 1).drop_last() =~= prefixes_v(
                self.prefix_stack@,
            ).take(i as int));
        }
        assert(prefixes_v(self.prefix_stack@).take(n as int) =~= prefixes_v(self.prefix_stack@));
        r
    }

    fn emit_line_start(&mut self)
        ensures
            final(self).v() == emit_line_start(old(self).v()),
    {
        if self.at_line_start {
            let p = self.current_prefix();
            append_chars(&mut self.out, p.as_slice());
            self.at_line_start = false;
        }
    }

    fn write_raw_line(&mut self, text: &[char], style: Option<TextStyle>)
        ensures
            final(self).v() == write_raw_line(old(self).v(), text@, style),
    {
        self.emit_line_start();
        let ghost e1 = self.v();
        style_on_chars(&mut self.out, style);
        append_chars(&mut self.out, text);
        style_off_chars(&mut self.out, style);
        assert(self.out@ =~= e1.out + styled_text(text@, style));
        self.newline();
    }
}

/// Whether a text is a single line break.
fn is_line_break(t: &[char]) -> (r: bool)
    ensures
        r == (t@ == seq!['\n']),
{
    let r = t.len() == 1 && t[0] == '\n';
    proof {
        if r {
            assert(t@ =~= seq!['\n']);
        }
    }
    r
}

/// Whether every character of a text is white space.
fn all_whitespace(t: &[char]) -> (r: bool)
    ensures
        r == all_ws(t@),
{
    let n = t.len();
    for i in 0..n
        invariant
            n == t@.len(),
            forall|k: int| 0 <= k < i ==> is_ws(#[trigger] t@[k]),
    {
        if !is_whitespace(t[i]) {
            return false;
        }
    }
    true
}

impl RenderEngine {
    /// Writes pieces as prose wrapped to the width.
    fn emit_wrapped(&mut self, pieces: &Vec<Piece>)
        ensures
            final(self).v() == emit_wrapped(old(self).v(), pieces_v(pieces@)),
    {
        let ghost e0 = self.v();
        let ghost pv = pieces_v(pieces@);
        let cont = self.current_continuation();
        let cw = text_width(cont.as_slice());
        self.emit_line_start();
        let ghost e1 = self.v();
        let lp = self.current_prefix();
        let mut column = text_width(lp.as_slice());
        let mut has_content = false;
        let mut pending_space = false;
        let mut active: Option<TextStyle> = None;
        let ghost w0 = WrapV {
            out: self.out@,
            at_line_start: self.at_line_start,
            column: column as int,
            has_content: false,
            pending_space: false,
            active: None,
        };
        let n = pieces.len();
        for i in 0..n
            invariant
                n == pieces@.len(),
                pv == pieces_v(pieces@),
                e1 == emit_line_start(e0),
                self.v() == (EngineV { out: self.out@, at_line_start: self.at_line_start, ..e1 }),
                cont@ == continuation_prefix(e0.prefixes),
                cw as int == display_width(cont@) as int,
                self.width as int == e0.width,
                w0.column == display_width(line_prefix(e0.prefixes)) as int,
                w0.out == e1.out,
                w0.at_line_start == e1.at_line_start,
                !w0.has_content,
                !w0.pending_space,
                w0.active is None,
                wrap_upto(w0, pv, i as int, e0.width, cont@, cw as int) == (WrapV {
                    out: self.out@,
                    at_line_start: self.at_line_start,
                    column: column as int,
                    has_content,
                    pending_space,
                    active,
                }),
        {
            let ghost wi = wrap_upto(w0, pv, i as int, e0.width, cont@, cw as int);
            let p = &pieces[i];
            assert(pv[i as int] == p.v());
            let t = p.text.as_slice();
            if t.len() == 0 {
            } else if is_line_break(t) {
                style_off_chars(&mut self.out, active);
                active = None;
                self.newline();
                append_chars(&mut self.out, cont.as_slice());
                column = cw;
                has_content = false;
                pending_space = false;
                assert(self.out@ =~= wi.out + off_text(wi.active) + seq!['\n'] + cont@);
            } else if all_whitespace(t) {
                pending_space = true;
            } else {
                let pw = text_width(t);
                if pending_space {
                    let fits = match column.checked_add(1) {
                        Some(c1) => match c1.checked_add(pw) {
                            Some(c2) => c2 <= self.width,
                            None => false,
                        },
                        None => false,
                    };
                    if has_content && fits {
                        self.out.push(' ');
                        column = column + 1;
                    } else if has_content {
                        let ghost before = self.out@;
                        style_off_chars(&mut self.out, active);
                        active = None;
                        self.newline();
                        append_chars(&mut self.out, cont.as_slice());
                        column = cw;
                        has_content = false;
                        assert(self.out@ =~= before + off_text(wi.active) + seq!['\n'] + cont@);
                    }
                    pending_space = false;
                }
                let ghost before = self.out@;
                let ghost a0 = active;
                switch_chars(&mut self.out, active, p.style);
                active = p.style;
                append_chars(&mut self.out, t);
                column = column.saturating_add(pw);
                has_content = true;
                assert(self.out@ =~= before + switch_text(a0, p.style) + t@);
            }
        }
        style_off_chars(&mut self.out, active);
    }
}

/// Pieces written on one line, unwrapped, with their styles.
fn inline_to_chars(pieces: &Vec<Piece>) -> (r: Vec<char>)
    ensures
        r@ == inline_text(pieces_v(pieces@)),
{
    let ghost pv = pieces_v(pieces@);
    let mut out: Vec<char> = Vec::new();
    let mut active: Option<TextStyle> = None;
    let n = pieces.len();
    for i in 0..n
        invariant
            n == pieces@.len(),
            pv == pieces_v(pieces@),
            inline_upto(pv, i as int) == (out@, active),
    {
        let p = &pieces[i];
        assert(pv[i as int] == p.v());
        let ghost before = out@;
        switch_chars(&mut out, active, p.style);
        active = p.style;
        append_chars(&mut out, p.text.as_slice());
        assert(out@ =~= before + switch_text(inline_upto(pv, i as int).1, p.style) + p.text@);
    }
    style_off_chars(&mut out, active);
    out
}

proof fn lemma_pieces_push(s: Seq<Piece>, p: Piece)
    ensures
        pieces_v(s.push(p)) == pieces_v(s).push(p.v()),
{
    assert(pieces_v(s.push(p)) =~= pieces_v(s).push(p.v()));
}

/// Appends a text split into its maximal runs of white space and of other
/// characters, each run a piece in a style.
fn push_words(pieces: &mut Vec<Piece>, text: &[char], style: Option<TextStyle>)
    ensures
        pieces_v(final(pieces)@) == pieces_v(old(pieces)@) + word_pieces(text@, style),
{
    let ghost base = pieces_v(pieces@);
    let ghost f = |r: Seq<char>| (r, style);
    let ghost mut done: Seq<Seq<char>> = Seq::empty();
    let mut run: Vec<char> = Vec::new();
    let mut run_ws = false;
    let n = text.len();
    for i in 0..n
        invariant
            n == text@.len(),
            f == (|r: Seq<char>| (r, style)),
            pieces_v(pieces@) == base + done.map_values(f),
            i == 0 ==> run@.len() == 0 && done.len() == 0,
            i > 0 ==> run@.len() > 0 && run_ws == is_ws(run@.last()) && runs_upto(text@, i as int)
                == done.push(run@),
    {
        let c = text[i];
        let w = is_whitespace(c);
        let ghost r = runs_upto(text@, i as int);
        let ghost old_run = run@;
        let ghost old_done = done;
        assert(runs_upto(text@, i + 1) == if r.len() > 0 && r.last().len() > 0 && is_ws(r.last().last()) == is_ws(c) {
            r.drop_last().push(r.last().push(c))
        } else {
            r.push(seq![c])
        });
        if i > 0 && w == run_ws {
            run.push(c);
            assert(runs_upto(text@, i + 1) =~= done.push(run@));
        } else {
            if i > 0 {
                let mut full: Vec<char> = Vec::new();
                std::mem::swap(&mut full, &mut run);
                assert(full@ == old_run);
                assert(run@.len() == 0);
                proof { lemma_pieces_push(pieces@, Piece { text: full, style }); }
                pieces.push(Piece { text: full, style });
                proof {
                    assert(done.push(full@).map_values(f) =~= done.map_values(f).push((full@, style)));
                    done = done.push(full@);
                }
            }
            run.push(c);
            proof {
                if i > 0 {
                    assert(r.last() == old_run);
                    assert(r == old_done.push(old_run));
                    assert(done == old_done.push(old_run));
                    assert(run@ =~= seq![c]);
                    assert(r.push(seq![c]) =~= done.push(run@));
                } else {
                    assert(r.len() == 0);
                    assert(run@ =~= seq![c]);
                    assert(r.push(seq![c]) =~= done.push(run@));
                }
            }
        }
        run_ws = w;
    }
    if n > 0 {
        proof { lemma_pieces_push(pieces@, Piece { text: run, style }); }
        pieces.push(Piece { text: run, style });
        assert(done.push(run@).map_values(f) =~= done.map_values(f).push((run@, style)));
    }
    assert(pieces_v(pieces@) =~= base + word_pieces(text@, style));
}

fn plain() -> (r: TextStyle)
    ensures
        r == plain_style(),
{
    TextStyle {
        fg: None,
        bold: false,
        dimmed: false,
        italic: false,
        underline: false,
        reversed: false,
        strikethrough: false,
    }
}

fn dimmed() -> (r: TextStyle)
    ensures
        r == dimmed_style(),
{
    TextStyle { dimmed: true, ..plain() }
}

fn bold() -> (r: TextStyle)
    ensures
        r == bold_style(),
{
    TextStyle { bold: true, ..plain() }
}

fn cyan() -> (r: TextStyle)
    ensures
        r == colored(AnsiColor::Cyan),
{
    TextStyle { fg: Some(AnsiColor::Cyan), ..plain() }
}

fn reversed() -> (r: TextStyle)
    ensures
        r == (TextStyle { reversed: true, ..plain_style() }),
{
    TextStyle { reversed: true, ..plain() }
}

fn heading(level: MdHeadingLevel) -> (r: TextStyle)
    ensures
        r == heading_style(level),
{
    match level {
        MdHeadingLevel::H1 => TextStyle { fg: Some(AnsiColor::White), bold: true, underline: true, ..plain() },
        MdHeadingLevel::H2 => TextStyle { fg: Some(AnsiColor::Cyan), bold: true, ..plain() },
        MdHeadingLevel::H3 => cyan(),
        _ => bold(),
    }
}

fn apply(s: TextStyle, step: StyleStep) -> (r: TextStyle)
    ensures
        r == apply_step(s, step),
{
    match step {
        StyleStep::Italic => TextStyle { italic: true, ..s },
        StyleStep::Bold => TextStyle { bold: true, ..s },
        StyleStep::Strikethrough => TextStyle { strikethrough: true, ..s },
        StyleStep::Link => TextStyle { fg: Some(AnsiColor::Cyan), underline: true, ..s },
        StyleStep::Dimmed => TextStyle { dimmed: true, ..s },
    }
}

/// The lines of a text split at each line break.
fn split_lines_nl(text: &[char]) -> (r: Vec<Vec<char>>)
    ensures
        lines_v(r@) == split_upto(text@, text@.len() as int),
{
    let mut lines: Vec<Vec<char>> = Vec::new();
    let mut cur: Vec<char> = Vec::new();
    let n = text.len();
    for i in 0..n
        invariant
            n == text@.len(),
            lines_v(lines@).push(cur@) == split_upto(text@, i as int),
    {
        let ghost prev = split_upto(text@, i as int);
        if text[i] == '\n' {
            let mut full: Vec<char> = Vec::new();
            std::mem::swap(&mut full, &mut cur);
            lines.push(full);
            assert(lines_v(lines@).push(cur@) =~= prev.push(Seq::empty()));
        } else {
            cur.push(text[i]);
            assert(lines_v(lines@).push(cur@) =~= prev.drop_last().push(prev.last().push(text@[i as int])));
        }
    }
    lines.push(cur);
    assert(lines_v(lines@) =~= split_upto(text@, n as int));
    lines
}

/// Joins texts with a separator.
fn join_chars(parts: &Vec<Vec<char>>, sep: &[char]) -> (r: Vec<char>)
    ensures
        r@ == join(lines_v(parts@), sep@),
{
    let n = parts.len();
    if n == 0 {
        return Vec::new();
    }
    let mut r = copy_chars(parts[0].as_slice());
    assert(lines_v(parts@).take(1) =~= seq![parts@[0]@]);
    for i in 1..n
        invariant
            n == parts@.len(),
            r@ == join(lines_v(parts@).take(i as int), sep@),
    {
        append_chars(&mut r, sep);
        append_chars(&mut r, parts[i].as_slice());
        assert(lines_v(parts@).take(i + 1).drop_last() =~= lines_v(parts@).take(i as int));
    }
    assert(lines_v(parts@).take(n as int) =~= lines_v(parts@));
    r
}

/// The bullet of an unordered list item at a nesting depth (from 1).
pub fn bullet_for_depth(depth: usize) -> (r: &'static str)
    requires
        depth >= 1,
    ensures
        r@ == bullet_text(depth as int),
{
    if (depth - 1) % 3 == 0 {
        proof { reveal_strlit("• "); }
        "• "
    } else if (depth - 1) % 3 == 1 {
        proof { reveal_strlit("◦ "); }
        "◦ "
    } else {
        proof { reveal_strlit("▪ "); }
        "▪ "
    }
}

impl RenderEngine {
    fn styled(&self, s: TextStyle) -> (r: Option<TextStyle>)
        ensures
            r == styled(self.colors, s),
    {
        if self.colors {
            Some(s)
        } else {
            None
        }
    }

    fn emit_code(&mut self, text: &[char])
        ensures
            final(self).v() == emit_code(old(self).v(), text@),
    {
        let mut lines = split_lines_nl(text);
        while lines.len() > 0 && lines[lines.len() - 1].len() == 0
            invariant
                drop_trailing_empty(lines_v(lines@)) == code_lines(text@),
            decreases lines.len(),
        {
            let ghost before = lines_v(lines@);
            lines.pop();
            assert(lines_v(lines@) =~= before.drop_last());
        }
        let ghost ls = lines_v(lines@);
        assert(drop_trailing_empty(ls) == ls);
        let style = self.styled(dimmed());
        let ghost e0 = self.v();
        let n = lines.len();
        for i in 0..n
            invariant
                n == lines@.len(),
                ls == lines_v(lines@),
                ls == code_lines(text@),
                style == styled(e0.colors, dimmed_style()),
                self.v() == code_upto(e0, ls, i as int),
        {
            let line = &lines[i];
            let written = if line.len() == 0 {
                Vec::new()
            } else {
                let mut w: Vec<char> = Vec::new();
                w.push(' ');
                w.push(' ');
                append_chars(&mut w, line.as_slice());
                w
            };
            assert(written@ =~= code_line(ls[i as int]));
            self.write_raw_line(written.as_slice(), style);
        }
    }

    fn emit_table(&mut self, t: &TableState)
        ensures
            final(self).v() == table_upto(old(self).v(), t.v(), t.v().rows.len() as int),
    {
        let ghost e0 = self.v();
        let ghost tv = t.v();
        let n = t.rows.len();
        for i in 0..n
            invariant
                n == t.rows@.len(),
                tv == t.v(),
                self.v() == table_upto(e0, tv, i as int),
        {
            let row = &t.rows[i];
            let mut cells: Vec<Vec<char>> = Vec::new();
            let m = row.len();
            for k in 0..m
                invariant
                    m == row@.len(),
                    row == t.rows@[i as int],
                    tv == t.v(),
                    lines_v(cells@) == cell_texts(cells_v(row@).take(k as int)),
            {
                let text = inline_to_chars(&row[k]);
                assert(cells_v(row@)[k as int] == pieces_v(row@[k as int]@));
                let ghost before = lines_v(cells@);
                cells.push(text);
                assert(lines_v(cells@) =~= before.push(text@));
                assert(cell_texts(cells_v(row@).take(k + 1)) =~= cell_texts(cells_v(row@).take(k as int)).push(
                    inline_text(cells_v(row@)[k as int]),
                ));
            }
            assert(cells_v(row@).take(m as int) =~= cells_v(row@));
            assert(lines_v(cells@) == cell_texts(cells_v(row@)));
            assert(tv.rows[i as int] == cells_v(row@));
            let sep = [' ', '|', ' '];
            assert(sep@ =~= seq![' ', '|', ' ']);
            let line = join_chars(&cells, &sep);
            let style = if t.has_header && i == 0 {
                self.styled(bold())
            } else {
                None
            };
            self.write_raw_line(line.as_slice(), style);
        }
    }

    fn emit_html(&mut self, lines: &Vec<Vec<char>>)
        ensures
            final(self).v() == html_upto(old(self).v(), lines_v(lines@), lines@.len() as int),
    {
        let ghost e0 = self.v();
        let n = lines.len();
        for i in 0..n
            invariant
                n == lines@.len(),
                self.v() == html_upto(e0, lines_v(lines@), i as int),
        {
            self.write_raw_line(lines[i].as_slice(), None);
        }
    }
}

impl RenderEngine {
    /// Takes the pending block out, leaving nothing pending.
    fn take_pending(&mut self) -> (r: Pending)
        ensures
            r == old(self).pending,
            final(self).v() == (EngineV { pending: PendingV::Idle, ..old(self).v() }),
    {
        let mut p = Pending::Idle;
        std::mem::swap(&mut p, &mut self.pending);
        p
    }

    fn flush_paragraph(&mut self)
        ensures
            final(self).v() == flush_paragraph(old(self).v()),
    {
        let ghost e = self.v();
        let pending = self.take_pending();
        match pending {
            Pending::Paragraph(mut pieces, footnote) => {
                let ghost pv = pieces_v(pieces@);
                let ghost e0 = self.v();
                assert(e0 == (EngineV { pending: PendingV::Idle, ..e }));
                if pieces.len() == 0 {
                    return ;
                }
                let mut all: Vec<Piece> = Vec::new();
                match footnote {
                    Some(name) => {
                        let mut label: Vec<char> = Vec::new();
                        label.push('[');
                        append_chars(&mut label, name.as_slice());
                        label.push(']');
                        label.push(' ');
                        let style = self.styled(cyan());
                        assert(label@ =~= seq!['['] + name@ + seq![']', ' ']);
                        all.push(Piece { text: label, style });
                    },
                    None => {},
                }
                let ghost head = pieces_v(all@);
                all.append(&mut pieces);
                assert(pieces_v(all@) =~= head + pv);
                assert(pieces_v(all@) == match e.pending {
                    PendingV::Paragraph(ps, fo) => match fo {
                        Some(name) => seq![footnote_piece(e.colors, name)] + ps,
                        None => ps,
                    },
                    _ => Seq::empty(),
                });
                self.emit_wrapped(&all);
                self.newline();
            },
            _ => {},
        }
    }

    fn push_inline_piece(&mut self, piece: Piece)
        ensures
            final(self).v() == push_piece(old(self).v(), piece.v()),
    {
        let ghost e = self.v();
        let pending = self.take_pending();
        let next = match pending {
            Pending::Paragraph(mut ps, f) => {
                proof { lemma_pieces_push(ps@, piece); }
                ps.push(piece);
                Pending::Paragraph(ps, f)
            },
            Pending::Heading(mut ps) => {
                proof { lemma_pieces_push(ps@, piece); }
                ps.push(piece);
                Pending::Heading(ps)
            },
            Pending::Table(mut t) => {
                if t.in_cell {
                    proof { lemma_pieces_push(t.cell@, piece); }
                    t.cell.push(piece);
                }
                Pending::Table(t)
            },
            other => other,
        };
        self.pending = next;
        assert(self.v() == push_piece(e, piece.v()));
    }

    fn current_inline_style(&self) -> (r: Option<TextStyle>)
        ensures
            r == current_style(self.v()),
    {
        if self.inline_stack.len() == 0 {
            None
        } else {
            self.inline_stack[self.inline_stack.len() - 1]
        }
    }

    fn push_inline_style(&mut self, step: StyleStep)
        ensures
            final(self).v() == push_style(old(self).v(), step),
    {
        let next = match self.current_inline_style() {
            Some(b) => apply(b, step),
            None => plain(),
        };
        let s = self.styled(next);
        self.inline_stack.push(s);
    }

    fn pop_inline_style(&mut self)
        ensures
            final(self).v() == pop_style(old(self).v()),
    {
        if self.inline_stack.len() > 1 {
            self.inline_stack.pop();
        }
    }

    fn handle_rule(&mut self)
        ensures
            final(self).v() == handle_rule(old(self).v()),
    {
        self.before_block();
        let p = self.current_prefix();
        let pw = text_width(p.as_slice());
        let available = self.width.saturating_sub(pw);
        let n = if available > 3 { available } else { 3 };
        let rule = repeat('─', n);
        let style = self.styled(dimmed());
        self.write_raw_line(rule.as_slice(), style);
    }

    fn start_item(&mut self)
        requires
            old(self).v().lists.len() > 0,
        ensures
            final(self).v() == start_item(old(self).v()),
    {
        self.ensure_newline();
        let idle = match self.pending {
            Pending::Idle => true,
            _ => false,
        };
        if idle {
            self.pending = Pending::Paragraph(Vec::new(), None);
            assert(pieces_v(Seq::<Piece>::empty()) =~= Seq::empty());
        }
        let ghost e2 = self.v();
        let depth = self.list_stack.len();
        let last = depth - 1;
        let ordered = self.list_stack[last].ordered;
        let number = self.list_stack[last].next_number;
        let bullet: Vec<char> = if ordered {
            let next = if number < u64::MAX { number + 1 } else { number };
            self.list_stack.set(last, ListContext { ordered: true, next_number: next });
            let digits = crate::text::fmt_u128(number as u128);
            let mut b = chars_of(digits.as_str());
            b.push('.');
            b.push(' ');
            assert(b@ =~= dec_nat(number as nat) + seq!['.', ' ']);
            b
        } else {
            let b = bullet_for_depth(depth);
            chars_of(b)
        };
        let mut line: Vec<char> = Vec::new();
        for k in 0..last
            invariant
                line@ == repeat_char(' ', (2 * k) as nat),
        {
            line.push(' ');
            line.push(' ');
            assert(line@ =~= repeat_char(' ', (2 * (k + 1)) as nat));
        }
        proof {
            let bv = if ordered { dec_nat(number as nat) + seq!['.', ' '] } else { bullet_text(depth as int) };
            assert(bullet@ =~= bv);
        }
        append_chars(&mut line, bullet.as_slice());
        let w = text_width(line.as_slice());
        let continuation = repeat(' ', w);
        let ghost lv = line@;
        let ghost cv = continuation@;
        self.prefix_stack.push(PrefixComponent { line, continuation });
        self.item_depth = self.item_depth.saturating_add(1);
        proof {
            assert(e2.lists.last() == (ordered, number));
            assert(lists_v(self.list_stack@) =~= (if ordered {
                e2.lists.update(depth - 1, (true, if number < u64::MAX { (number + 1) as u64 } else { number }))
            } else {
                e2.lists
            }));
            assert(prefixes_v(self.prefix_stack@) =~= e2.prefixes.push((lv, cv)));
        }
    }

    fn start_block_quote(&mut self)
        ensures
            final(self).v() == start_block_quote(old(self).v()),
    {
        self.before_block();
        let ghost e1 = self.v();
        let mut line: Vec<char> = Vec::new();
        line.push('│');
        line.push(' ');
        let mut continuation: Vec<char> = Vec::new();
        continuation.push('│');
        continuation.push(' ');
        let ghost lv = line@;
        let ghost cv = continuation@;
        self.prefix_stack.push(PrefixComponent { line, continuation });
        assert(lv =~= seq!['│', ' ']);
        assert(cv =~= seq!['│', ' ']);
        assert(prefixes_v(self.prefix_stack@) =~= e1.prefixes.push((lv, cv)));
    }

    fn add_task_marker(&mut self, checked: bool)
        ensures
            final(self).v() == add_task_marker(old(self).v(), checked),
    {
        let ghost e = self.v();
        match self.prefix_stack.pop() {
            Some(mut component) => {
                let mut marker: Vec<char> = Vec::new();
                marker.push('[');
                marker.push(if checked { 'x' } else { ' ' });
                marker.push(']');
                marker.push(' ');
                assert(marker@ =~= task_marker(checked));
                let w = text_width(marker.as_slice());
                append_chars(&mut component.line, marker.as_slice());
                let spaces = repeat(' ', w);
                append_chars(&mut component.continuation, spaces.as_slice());
                let ghost lv = component.line@;
                let ghost cv = component.continuation@;
                self.prefix_stack.push(component);
                assert(prefixes_v(self.prefix_stack@) =~= e.prefixes.update(
                    e.prefixes.len() - 1,
                    (lv, cv),
                ));
            },
            None => {},
        }
    }

    fn handle_text(&mut self, text: &[char])
        ensures
            final(self).v() == handle_text(old(self).v(), text@),
    {
        let ghost e = self.v();
        let style = self.current_inline_style();
        let pending = self.take_pending();
        let next = match pending {
            Pending::Paragraph(mut ps, f) => {
                push_words(&mut ps, text, style);
                Pending::Paragraph(ps, f)
            },
            Pending::Heading(mut ps) => {
                push_words(&mut ps, text, style);
                Pending::Heading(ps)
            },
            Pending::Table(mut t) => {
                if t.in_cell {
                    push_words(&mut t.cell, text, style);
                }
                Pending::Table(t)
            },
            Pending::Code(mut code) => {
                append_chars(&mut code, text);
                Pending::Code(code)
            },
            Pending::Html(mut lines) => {
                let ghost before = lines_v(lines@);
                lines.push(copy_chars(text));
                assert(lines_v(lines@) =~= before.push(text@));
                Pending::Html(lines)
            },
            Pending::Idle => Pending::Idle,
        };
        self.pending = next;
        assert(self.v() == handle_text(e, text@));
    }
}

impl RenderEngine {
    fn begin_block(&mut self, p: Pending)
        ensures
            final(self).v() == begin_block(old(self).v(), p.v()),
    {
        self.before_block();
        self.pending = p;
    }

    fn handle_start(&mut self, tag: &MdTag)
        requires
            *tag is Item ==> old(self).v().lists.len() > 0,
        ensures
            final(self).v() == handle_start(old(self).v(), *tag),
    {
        match tag {
            MdTag::Paragraph => {
                if let Pending::Idle = self.pending {
                    let p = Pending::Paragraph(Vec::new(), None);
                    assert(p.v() == PendingV::Paragraph(Seq::empty(), None)) by {
                        assert(pieces_v(Seq::<Piece>::empty()) =~= Seq::empty());
                    }
                    self.begin_block(p);
                }
            },
            MdTag::Heading => {
                let p = Pending::Heading(Vec::new());
                assert(pieces_v(Seq::<Piece>::empty()) =~= Seq::empty());
                self.begin_block(p);
            },
            MdTag::CodeBlock => {
                let p = Pending::Code(Vec::new());
                self.begin_block(p);
            },
            MdTag::HtmlBlock => {
                let p = Pending::Html(Vec::new());
                assert(lines_v(Seq::<Vec<char>>::empty()) =~= Seq::empty());
                self.begin_block(p);
            },
            MdTag::List(start) => {
                self.flush_paragraph();
                if self.list_stack.len() == 0 {
                    self.before_block();
                }
                let ghost e2 = self.v();
                let first = match start {
                    Some(n) => *n,
                    None => 1u64,
                };
                let ordered = match start {
                    Some(_) => true,
                    None => false,
                };
                self.list_stack.push(ListContext { ordered, next_number: first });
                assert(lists_v(self.list_stack@) =~= e2.lists.push((ordered, first)));
            },
            MdTag::Item => self.start_item(),
            MdTag::BlockQuote => self.start_block_quote(),
            MdTag::Table => {
                let t = TableState {
                    rows: Vec::new(),
                    row: Vec::new(),
                    cell: Vec::new(),
                    in_cell: false,
                    has_header: false,
                };
                assert(t.v() == empty_table()) by {
                    assert(rows_v(t.rows@) =~= Seq::empty());
                    assert(cells_v(t.row@) =~= Seq::empty());
                    assert(pieces_v(t.cell@) =~= Seq::empty());
                }
                self.begin_block(Pending::Table(t));
            },
            MdTag::TableHead => {
                if let Pending::Table(t) = &mut self.pending {
                    t.has_header = true;
                }
            },
            MdTag::TableRow => {
                if let Pending::Table(t) = &mut self.pending {
                    t.row = Vec::new();
                    assert(cells_v(Seq::<Vec<Piece>>::empty()) =~= Seq::empty());
                }
            },
            MdTag::TableCell => {
                if let Pending::Table(t) = &mut self.pending {
                    t.cell = Vec::new();
                    t.in_cell = true;
                    assert(pieces_v(Seq::<Piece>::empty()) =~= Seq::empty());
                }
            },
            MdTag::FootnoteDefinition(name) => {
                let label = chars_of(name.as_str());
                let p = Pending::Paragraph(Vec::new(), Some(label));
                assert(p.v() == PendingV::Paragraph(Seq::empty(), Some(name@))) by {
                    assert(pieces_v(Seq::<Piece>::empty()) =~= Seq::empty());
                }
                self.begin_block(p);
            },
            MdTag::Emphasis => self.push_inline_style(StyleStep::Italic),
            MdTag::Strong => self.push_inline_style(StyleStep::Bold),
            MdTag::Strikethrough => self.push_inline_style(StyleStep::Strikethrough),
            MdTag::Link(url) => {
                let u = chars_of(url.as_str());
                let ghost before = lines_v(self.link_urls@);
                self.link_urls.push(u);
                assert(lines_v(self.link_urls@) =~= before.push(url@));
                self.push_inline_style(StyleStep::Link);
            },
            MdTag::Image => self.push_inline_style(StyleStep::Dimmed),
            MdTag::Other => {},
        }
    }

    fn end_row(t: &mut TableState)
        ensures
            final(t).v() == end_row(old(t).v()),
    {
        t.in_cell = false;
        if t.row.len() > 0 {
            let mut row: Vec<Vec<Piece>> = Vec::new();
            std::mem::swap(&mut row, &mut t.row);
            let ghost before = rows_v(t.rows@);
            let ghost rv = cells_v(row@);
            t.rows.push(row);
            assert(rows_v(t.rows@) =~= before.push(rv));
            assert(cells_v(t.row@) =~= Seq::empty());
        }
    }

    fn handle_end(&mut self, tag: MdTagEnd)
        ensures
            final(self).v() == handle_end(old(self).v(), tag),
    {
        match tag {
            MdTagEnd::Paragraph => self.flush_paragraph(),
            MdTagEnd::Heading(level) => {
                let pending = self.take_pending();
                if let Pending::Heading(pieces) = pending {
                    let base = self.styled(heading(level));
                    let mut restyled_pieces: Vec<Piece> = Vec::new();
                    let n = pieces.len();
                    let ghost pv = pieces_v(pieces@);
                    for i in 0..n
                        invariant
                            n == pieces@.len(),
                            pv == pieces_v(pieces@),
                            pieces_v(restyled_pieces@) == restyled(pv.take(i as int), base),
                    {
                        let text = copy_chars(pieces[i].text.as_slice());
                        proof { lemma_pieces_push(restyled_pieces@, Piece { text, style: base }); }
                        restyled_pieces.push(Piece { text, style: base });
                        assert(restyled(pv.take(i + 1), base) =~= restyled(pv.take(i as int), base).push(
                            (pv[i as int].0, base),
                        ));
                    }
                    assert(pv.take(n as int) =~= pv);
                    self.emit_wrapped(&restyled_pieces);
                    self.newline();
                }
            },
            MdTagEnd::CodeBlock => {
                let pending = self.take_pending();
                if let Pending::Code(text) = pending {
                    self.emit_code(text.as_slice());
                }
            },
            MdTagEnd::HtmlBlock => {
                let pending = self.take_pending();
                if let Pending::Html(lines) = pending {
                    self.emit_html(&lines);
                }
            },
            MdTagEnd::List => {
                let ghost before = lists_v(self.list_stack@);
                self.list_stack.pop();
                assert(lists_v(self.list_stack@) =~= if before.len() > 0 { before.drop_last() } else { before });
            },
            MdTagEnd::Item => {
                self.flush_paragraph();
                let ghost before = prefixes_v(self.prefix_stack@);
                self.prefix_stack.pop();
                assert(prefixes_v(self.prefix_stack@) =~= if before.len() > 0 { before.drop_last() } else { before });
                self.item_depth = self.item_depth.saturating_sub(1);
            },
            MdTagEnd::BlockQuote => {
                let ghost before = prefixes_v(self.prefix_stack@);
                self.prefix_stack.pop();
                assert(prefixes_v(self.prefix_stack@) =~= if before.len() > 0 { before.drop_last() } else { before });
            },
            MdTagEnd::Table => {
                let pending = self.take_pending();
                if let Pending::Table(t) = pending {
                    self.emit_table(&t);
                }
            },
            MdTagEnd::TableHead | MdTagEnd::TableRow => {
                if let Pending::Table(t) = &mut self.pending {
                    Self::end_row(t);
                }
            },
            MdTagEnd::TableCell => {
                if let Pending::Table(t) = &mut self.pending {
                    t.in_cell = false;
                    let mut cell: Vec<Piece> = Vec::new();
                    std::mem::swap(&mut cell, &mut t.cell);
                    let ghost before = cells_v(t.row@);
                    let ghost cv = pieces_v(cell@);
                    t.row.push(cell);
                    assert(cells_v(t.row@) =~= before.push(cv));
                    assert(pieces_v(t.cell@) =~= Seq::empty());
                }
            },
            MdTagEnd::Link => {
                self.inline_stack.pop();
                let ghost before = lines_v(self.link_urls@);
                match self.link_urls.pop() {
                    Some(url) => {
                        assert(lines_v(self.link_urls@) =~= before.drop_last());
                        if url.len() > 0 {
                            let mut text: Vec<char> = Vec::new();
                            text.push(' ');
                            text.push('(');
                            append_chars(&mut text, url.as_slice());
                            text.push(')');
                            assert(text@ =~= seq![' ', '('] + url@ + seq![')']);
                            let style = self.styled(dimmed());
                            self.push_inline_piece(Piece { text, style });
                        }
                    },
                    None => {},
                }
            },
            MdTagEnd::Image | MdTagEnd::Emphasis | MdTagEnd::Strong | MdTagEnd::Strikethrough => {
                self.pop_inline_style();
            },
            MdTagEnd::Other => {},
        }
    }

    fn handle(&mut self, event: &MdEvent)
        requires
            *event matches MdEvent::Start(MdTag::Item) ==> old(self).v().lists.len() > 0,
        ensures
            final(self).v() == step(old(self).v(), *event),
    {
        match event {
            MdEvent::Start(tag) => self.handle_start(tag),
            MdEvent::End(tag) => self.handle_end(*tag),
            MdEvent::Text(text) => {
                let t = chars_of(text.as_str());
                self.handle_text(t.as_slice());
            },
            MdEvent::Code(text) => {
                let t = chars_of(text.as_str());
                let style = self.styled(reversed());
                self.push_inline_piece(Piece { text: t, style });
            },
            MdEvent::Html(text) => {
                let t = chars_of(text.as_str());
                if let Pending::Html(lines) = &mut self.pending {
                    let ghost before = lines_v(lines@);
                    lines.push(t);
                    assert(lines_v(lines@) =~= before.push(text@));
                } else {
                    let style = self.styled(dimmed());
                    self.push_inline_piece(Piece { text: t, style });
                }
            },
            MdEvent::InlineHtml(text) => {
                let t = chars_of(text.as_str());
                let style = self.styled(dimmed());
                self.push_inline_piece(Piece { text: t, style });
            },
            MdEvent::FootnoteReference(name) => {
                let mut t: Vec<char> = Vec::new();
                t.push('[');
                append_str(&mut t, name.as_str());
                t.push(']');
                assert(t@ =~= seq!['['] + name@ + seq![']']);
                let style = self.styled(cyan());
                self.push_inline_piece(Piece { text: t, style });
            },
            MdEvent::HardBreak => {
                let mut t: Vec<char> = Vec::new();
                t.push('\n');
                assert(t@ =~= seq!['\n']);
                self.push_inline_piece(Piece { text: t, style: None });
            },
            MdEvent::Rule => self.handle_rule(),
            MdEvent::TaskListMarker(checked) => self.add_task_marker(*checked),
            MdEvent::Ignored => {},
        }
    }

    /// The finished output.
    fn finish(self) -> (r: String)
        ensures
            r@ == finished(self.v().out),
    {
        let mut out = self.out;
        if out.len() == 0 {
            return String::new();
        }
        while out.len() > 0 && out[out.len() - 1] == '\n'
            invariant
                strip_newlines(out@) == strip_newlines(self.out@),
            decreases out.len(),
        {
            out.pop();
        }
        out.push('\n');
        string_of(&out)
    }
}

/// The width used when the terminal size cannot be detected.
pub const FALLBACK_WIDTH: usize = 80;

/// The narrowest width the renderer wraps to.
pub const MIN_WIDTH: usize = 20;

/// The width a renderer asked for `width` columns wraps to: `width`, but
/// never less than the narrowest width.
pub open spec fn wrap_width(width: usize) -> int {
    if width >= MIN_WIDTH {
        width as int
    } else {
        MIN_WIDTH as int
    }
}

/// A renderer asked for fewer columns than the narrowest width renders
/// every document exactly as one asked for the narrowest width.
pub proof fn lemma_narrow_width_renders_as_narrowest(width: usize, colors: bool, events: Seq<MdEvent>)
    requires
        width < MIN_WIDTH,
    ensures
        wrap_width(width) == wrap_width(MIN_WIDTH),
        rendered(wrap_width(width), colors, events) == rendered(wrap_width(MIN_WIDTH), colors, events),
{
}

/// Renders Markdown into ANSI-escaped terminal text.
#[derive(Debug, Clone, Copy)]
pub struct MarkdownRenderer {
    width: usize,
}

impl MarkdownRenderer {
    /// The width the renderer wraps to.
    pub closed spec fn columns(self) -> int {
        self.width as int
    }

    /// Creates a renderer sized to the current terminal window.
    pub fn new() -> (r: Self)
        ensures
            r.columns() >= MIN_WIDTH,
    {
        Self::for_terminal(crate::markdown::terminal_columns())
    }

    /// A renderer for a terminal of a number of columns: at least the
    /// narrowest width, and the fallback width when the size is unknown.
    pub fn for_terminal(columns: Option<u16>) -> (r: Self)
        ensures
            r.columns() == match columns {
                Some(c) => if c >= MIN_WIDTH { c as int } else { MIN_WIDTH as int },
                None => FALLBACK_WIDTH as int,
            },
    {
        match columns {
            Some(c) => Self::with_width(c as usize),
            None => MarkdownRenderer { width: FALLBACK_WIDTH },
        }
    }

    /// Creates a renderer with an explicit width, at least the narrowest.
    pub fn with_width(width: usize) -> (r: Self)
        ensures
            r.columns() == wrap_width(width),
    {
        MarkdownRenderer { width: if width >= MIN_WIDTH { width } else { MIN_WIDTH } }
    }

    /// Renders the parse events of a document, with ANSI styles when
    /// `colors` is set.
    pub fn render_events(self, events: &[MdEvent], colors: bool) -> (r: String)
        requires
            items_in_lists(events@),
        ensures
            r@ == rendered(self.columns(), colors, events@),
    {
        let mut engine = RenderEngine::new(self.width, colors);
        let ghost e0 = initial(self.width as int, colors);
        let n = events.len();
        for i in 0..n
            invariant
                n == events@.len(),
                e0 == initial(self.width as int, colors),
                items_in_lists(events@),
                engine.v() == run(e0, events@, i as int),
        {
            proof {
                lemma_run_lists(self.width as int, colors, events@, i as int);
                if events@[i as int] matches MdEvent::Start(MdTag::Item) {
                    assert(list_depth(events@, i as int) > 0);
                }
            }
            engine.handle(&events[i]);
        }
        engine.finish()
    }

    /// Renders a Markdown document, with ANSI styles when `colors` is set.
    pub fn render(self, markdown: &str, colors: bool) -> (r: String)
        requires
            items_in_lists(md_events(markdown@)),
        ensures
            r@ == rendered(self.columns(), colors, md_events(markdown@)),
    {
        let events = parse_markdown(markdown);
        self.render_events(events.as_slice(), colors)
    }

    /// Renders a Markdown document, or nothing when a list item of it opens
    /// outside any list.
    pub fn checked_render(self, markdown: &str, colors: bool) -> (r: Option<String>)
        ensures
            match r {
                Some(s) => items_in_lists(md_events(markdown@)) && s@ == rendered(
                    self.columns(),
                    colors,
                    md_events(markdown@),
                ),
                None => !items_in_lists(md_events(markdown@)),
            },
    {
        let events = parse_markdown(markdown);
        if items_nested(events.as_slice()) {
            Some(self.render(markdown, colors))
        } else {
            None
        }
    }
}

/// Whether every list item of a sequence of parse events opens inside a
/// list.
pub fn items_nested(events: &[MdEvent]) -> (r: bool)
    ensures
        r == items_in_lists(events@),
{
    let n = events.len();
    let mut depth: usize = 0;
    for i in 0..n
        invariant
            n == events@.len(),
            depth == list_depth(events@, i as int),
            depth <= i,
            forall|k: int|
                0 <= k < i && (#[trigger] events@[k] matches MdEvent::Start(MdTag::Item)) ==> list_depth(events@, k)
                    > 0,
    {
        match &events[i] {
            MdEvent::Start(MdTag::List(_)) => {
                depth = depth + 1;
            },
            MdEvent::End(MdTagEnd::List) => {
                if depth > 0 {
                    depth = depth - 1;
                }
            },
            MdEvent::Start(MdTag::Item) => {
                if depth == 0 {
                    assert(!items_in_lists(events@)) by {
                        assert(events@[i as int] matches MdEvent::Start(MdTag::Item));
                    }
                    return false;
                }
            },
            _ => {},
        }
    }
    true
}

impl Default for MarkdownRenderer {
    fn default() -> (r: Self)
        ensures
            r.columns() >= MIN_WIDTH,
    {
        Self::new()
    }
}

} // verus!
