//! Validation rules of the error taxonomy files, and the lookup of the
//! line a field of an entry stands on. Listing, reading and parsing the
//! files are the application's business.

use vstd::prelude::*;
use crate::events::{lemma_views, views};
use crate::text::{
    append, chars_of, contains, dec_nat, eq_chars, occurs_at, push_char, push_dec, seq_contains,
    seq_starts_with, starts_with, str_eq, string_of, trim, trim_chars,
};

verus! {

/// The shortest accepted description, in bytes.
pub const MIN_DESCRIPTION_LEN: usize = 15;

// ---------------------------------------------------------------------------
// Lines of a file
// ---------------------------------------------------------------------------

/// The index of the first line break at or after `i`, if any.
pub open spec fn next_newline(s: Seq<char>, i: int) -> Option<int>
    decreases s.len() - i,
{
    if i < 0 || i >= s.len() {
        None
    } else if s[i] == '\n' {
        Some(i)
    } else {
        next_newline(s, i + 1)
    }
}

/// A line ended by `\n`, without a carriage return before it.
pub open spec fn strip_cr(line: Seq<char>) -> Seq<char> {
    if line.len() > 0 && line.last() == '\r' {
        line.drop_last()
    } else {
        line
    }
}

/// The lines of a text (`str::lines`): split at `\n` (a `\r` before it
/// dropped), the last line ending optional.
pub open spec fn lines_of(s: Seq<char>) -> Seq<Seq<char>>
    decreases s.len(),
{
    if s.len() == 0 {
        Seq::empty()
    } else {
        match next_newline(s, 0) {
            None => seq![s],
            Some(i) => {
                if 0 <= i && i < s.len() {
                    seq![strip_cr(s.take(i))] + lines_of(s.skip(i + 1))
                } else {
                    Seq::empty()
                }
            },
        }
    }
}

proof fn lemma_next_newline(s: Seq<char>, i: int)
    requires
        0 <= i,
    ensures
        next_newline(s, i) matches Some(k) ==> i <= k < s.len() && s[k] == '\n' && forall|j: int| i <= j < k ==> s[j] != '\n',
        next_newline(s, i) is None ==> forall|j: int| i <= j < s.len() ==> s[j] != '\n',
    decreases s.len() - i,
{
    if i < s.len() && s[i] != '\n' {
        lemma_next_newline(s, i + 1);
    }
}

/// The lines of a text.
pub fn split_lines(text: &str) -> (r: Vec<Vec<char>>)
    ensures
        r@.map_values(|l: Vec<char>| l@) == lines_of(text@),
{
    let chars = chars_of(text);
    let mut out: Vec<Vec<char>> = Vec::new();
    let mut current: Vec<char> = Vec::new();
    let mut start: usize = 0;
    let n = chars.len();
    let ghost s = text@;
    assert(s.skip(0) =~= s);
    assert(out@.map_values(|l: Vec<char>| l@) + lines_of(s) =~= lines_of(s));
    for i in 0..n
        invariant
            n == chars.len(),
            chars@ == s,
            start <= i,
            current@ == s.subrange(start as int, i as int),
            forall|j: int| start <= j < i ==> s[j] != '\n',
            out@.map_values(|l: Vec<char>| l@) + lines_of(s.skip(start as int)) == lines_of(s),
    {
        if chars[i] == '\n' {
            proof {
                let rest = s.skip(start as int);
                let k = (i - start) as int;
                lemma_next_newline(rest, 0);
                assert forall|j: int| 0 <= j < k implies rest[j] != '\n' by {
                    assert(rest[j] == s[start + j]);
                }
                assert(rest[k] == '\n');
                assert(next_newline(rest, 0) == Some(k)) by {
                    lemma_first_newline(rest, k);
                }
                assert(rest.take(k) =~= current@);
                assert(rest.skip(k + 1) =~= s.skip(i + 1));
            }
            let line = if current.len() > 0 && current[current.len() - 1] == '\r' {
                let mut l = current.clone();
                l.pop();
                l
            } else {
                current.clone()
            };
            proof {
                if current@.len() > 0 && current@.last() == '\r' {
                    assert(line@ =~= current@.drop_last());
                }
            }
            let ghost before = out@;
            out.push(line);
            proof {
                assert(out@.map_values(|l: Vec<char>| l@) =~= before.map_values(|l: Vec<char>| l@).push(strip_cr(current@)));
            }
            current = Vec::new();
            start = i + 1;
        } else {
            current.push(chars[i]);
            assert(s.subrange(start as int, i + 1) =~= s.subrange(start as int, i as int).push(s[i as int]));
        }
    }
    proof {
        let rest = s.skip(start as int);
        assert(rest =~= current@);
        if rest.len() > 0 {
            lemma_next_newline(rest, 0);
            assert forall|j: int| 0 <= j < rest.len() implies rest[j] != '\n' by {
                assert(rest[j] == s[start + j]);
            }
            lemma_no_newline(rest, 0);
        }
    }
    if current.len() > 0 {
        let ghost before = out@;
        out.push(current);
        assert(out@.map_values(|l: Vec<char>| l@) =~= before.map_values(|l: Vec<char>| l@).push(s.skip(start as int)));
    } else {
        assert(out@.map_values(|l: Vec<char>| l@) =~= out@.map_values(|l: Vec<char>| l@) + Seq::<Seq<char>>::empty());
    }
    out
}

proof fn lemma_first_newline(s: Seq<char>, k: int)
    requires
        0 <= k < s.len(),
        s[k] == '\n',
        forall|j: int| 0 <= j < k ==> s[j] != '\n',
    ensures
        next_newline(s, 0) == Some(k),
{
    lemma_first_newline_from(s, 0, k);
}

proof fn lemma_first_newline_from(s: Seq<char>, i: int, k: int)
    requires
        0 <= i <= k < s.len(),
        s[k] == '\n',
        forall|j: int| i <= j < k ==> s[j] != '\n',
    ensures
        next_newline(s, i) == Some(k),
    decreases k - i,
{
    if i < k {
        lemma_first_newline_from(s, i + 1, k);
    }
}

proof fn lemma_no_newline(s: Seq<char>, i: int)
    requires
        0 <= i,
        forall|j: int| i <= j < s.len() ==> s[j] != '\n',
    ensures
        next_newline(s, i) is None,
    decreases s.len() - i,
{
    if i < s.len() {
        lemma_no_newline(s, i + 1);
    }
}

// ---------------------------------------------------------------------------
// Locating entries and fields
// ---------------------------------------------------------------------------

/// A line with its spaces removed.
pub open spec fn without_spaces(s: Seq<char>) -> Seq<char> {
    s.filter(|c: char| c != ' ')
}

/// A line with its spaces removed and single quotes turned into double.
pub open spec fn cleaned(s: Seq<char>) -> Seq<char> {
    without_spaces(s).map_values(|c: char| if c == '\'' { '"' } else { c })
}

/// The line declaring entry `id` mentions `id="<id>"` once cleaned.
pub open spec fn declares(line: Seq<char>, id: Seq<char>) -> bool {
    seq_contains(cleaned(line), "id=\""@ + id + "\""@)
}

/// The index of the first line declaring entry `id`, from `i` on.
pub open spec fn entry_line_from(lines: Seq<Seq<char>>, id: Seq<char>, i: int) -> Option<int>
    decreases lines.len() - i,
{
    if i < 0 || i >= lines.len() {
        None
    } else if declares(lines[i], id) {
        Some(i)
    } else {
        entry_line_from(lines, id, i + 1)
    }
}

/// A line that opens the next table of the file.
pub open spec fn opens_table(line: Seq<char>) -> bool {
    let t = trim(line);
    seq_starts_with(t, "[[errors]]"@) || seq_starts_with(t, "[metadata]"@) || seq_starts_with(t, "[category]"@)
}

/// Line `idx` sets `field`.
pub open spec fn sets_field(line: Seq<char>, field: Seq<char>) -> bool {
    seq_starts_with(without_spaces(line), field + "="@) || (field == "description"@ && seq_starts_with(
        trim(line),
        "description ="@,
    ))
}

/// The index of the line setting `field` from line `i` on, within the
/// entry starting at line `entry`.
pub open spec fn field_line_from(lines: Seq<Seq<char>>, entry: int, field: Seq<char>, i: int) -> Option<int>
    decreases lines.len() - i,
{
    if i < 0 || i >= lines.len() {
        None
    } else if i > entry && opens_table(lines[i]) {
        None
    } else if sets_field(lines[i], field) {
        Some(i)
    } else {
        field_line_from(lines, entry, field, i + 1)
    }
}

/// The 1-based line of `field` of entry `id` (or of the entry itself when
/// no field is asked, or the field is not found within the entry); `None`
/// when no line declares the entry.
pub open spec fn line_number(content: Seq<char>, id: Seq<char>, field: Option<Seq<char>>) -> Option<int> {
    let lines = lines_of(content);
    match entry_line_from(lines, id, 0) {
        None => None,
        Some(e) => match field {
            Some(f) => match field_line_from(lines, e, f, e) {
                Some(k) => Some(k + 1),
                None => Some(e + 1),
            },
            None => Some(e + 1),
        },
    }
}

fn remove_spaces(v: &Vec<char>) -> (r: Vec<char>)
    ensures
        r@ == without_spaces(v@),
{
    let mut out: Vec<char> = Vec::new();
    let n = v.len();
    for i in 0..n
        invariant
            n == v.len(),
            out@ == without_spaces(v@.take(i as int)),
    {
        proof {
            reveal(Seq::filter);
            assert(v@.take(i + 1).drop_last() =~= v@.take(i as int));
        }
        if v[i] != ' ' {
            out.push(v[i]);
        }
    }
    assert(v@.take(n as int) =~= v@);
    out
}

fn clean_line(v: &Vec<char>) -> (r: Vec<char>)
    ensures
        r@ == cleaned(v@),
{
    let w = remove_spaces(v);
    let mut out: Vec<char> = Vec::new();
    let n = w.len();
    for i in 0..n
        invariant
            n == w.len(),
            out@ == w@.take(i as int).map_values(|c: char| if c == '\'' { '"' } else { c }),
    {
        let c = w[i];
        out.push(if c == '\'' { '"' } else { c });
        assert(out@ =~= w@.take(i + 1).map_values(|c: char| if c == '\'' { '"' } else { c }));
    }
    assert(w@.take(n as int) =~= w@);
    out
}

fn is_table_line(line: &Vec<char>) -> (r: bool)
    ensures
        r == opens_table(line@),
{
    let t = trim_chars(line.as_slice());
    starts_with(t.as_slice(), chars_of("[[errors]]").as_slice()) || starts_with(
        t.as_slice(),
        chars_of("[metadata]").as_slice(),
    ) || starts_with(t.as_slice(), chars_of("[category]").as_slice())
}

fn sets_field_exec(line: &Vec<char>, field: &str) -> (r: bool)
    ensures
        r == sets_field(line@, field@),
{
    let w = remove_spaces(line);
    let mut pat = String::from_str(field);
    append(&mut pat, "=");
    if starts_with(w.as_slice(), chars_of(pat.as_str()).as_slice()) {
        return true;
    }
    if str_eq(field, "description") {
        let t = trim_chars(line.as_slice());
        return starts_with(t.as_slice(), chars_of("description =").as_slice());
    }
    false
}

/// The 1-based line of `field_name` of entry `entry_id` in a taxonomy
/// file, or of the entry itself; `None` when no line declares the entry.
pub fn get_line_number(toml_content: &str, entry_id: &str, field_name: Option<&str>) -> (r: Option<usize>)
    ensures
        match r {
            Some(k) => line_number(toml_content@, entry_id@, crate::operations::opt_str(field_name)) == Some(k as int),
            None => line_number(toml_content@, entry_id@, crate::operations::opt_str(field_name)) is None,
        },
{
    let lines = split_lines(toml_content);
    let ghost ls = lines@.map_values(|l: Vec<char>| l@);
    let mut pat = String::from_str("id=\"");
    append(&mut pat, entry_id);
    append(&mut pat, "\"");
    let pat_chars = chars_of(pat.as_str());
    let n = lines.len();
    let mut entry: Option<usize> = None;
    assert(ls.len() == n);
    for i in 0..n
        invariant
            n == lines.len(),
            ls == lines@.map_values(|l: Vec<char>| l@),
            ls.len() == n,
            pat_chars@ == "id=\""@ + entry_id@ + "\""@,
            entry is None ==> entry_line_from(ls, entry_id@, 0) == entry_line_from(ls, entry_id@, i as int),
            entry matches Some(e) ==> e < n && entry_line_from(ls, entry_id@, 0) == Some(e as int),
    {
        if entry.is_none() {
            let c = clean_line(&lines[i]);
            assert(ls[i as int] == lines@[i as int]@);
            if contains(c.as_slice(), pat_chars.as_slice()) {
                entry = Some(i);
            }
        }
    }
    let e = match entry {
        Some(e) => e,
        None => {
            assert(entry_line_from(ls, entry_id@, n as int) is None);
            return None;
        },
    };
    match field_name {
        Some(field) => {
            let mut idx = e;
            while idx < n
                invariant
                    e <= idx <= n,
                    e < n,
                    n == lines.len(),
                    ls == lines_of(toml_content@),
                    entry_line_from(ls, entry_id@, 0) == Some(e as int),
                    field_name == Some(field),
                    ls == lines@.map_values(|l: Vec<char>| l@),
                    ls.len() == n,
                    field_line_from(ls, e as int, field@, e as int) == field_line_from(ls, e as int, field@, idx as int),
                decreases n - idx,
            {
                assert(ls[idx as int] == lines@[idx as int]@);
                if idx > e && is_table_line(&lines[idx]) {
                    return Some(e + 1);
                }
                if sets_field_exec(&lines[idx], field) {
                    return Some(idx + 1);
                }
                idx = idx + 1;
            }
            Some(e + 1)
        },
        None => Some(e + 1),
    }
}

// ---------------------------------------------------------------------------
// Taxonomy entries and their rules
// ---------------------------------------------------------------------------

/// An entry of the error taxonomy, as read from its file.
#[derive(Debug, Clone, PartialEq, Eq)]
pub struct TaxonomyEntry {
    pub id: String,
    /// The category as written in the file (e.g. `budget`).
    pub category: String,
    pub code: u32,
    pub name: String,
    pub severity: String,
    pub since_protocol: Option<u32>,
    pub deprecated_protocol: Option<u32>,
    pub summary: String,
    pub detailed_explanation: String,
    /// The descriptions of the common causes.
    pub common_causes: Vec<String>,
    /// The descriptions of the suggested fixes.
    pub suggested_fixes: Vec<String>,
    pub related_errors: Vec<String>,
    pub documentation_url: Option<String>,
}

/// A parsed taxonomy file.
#[derive(Debug, Clone, PartialEq, Eq)]
pub struct TaxonomyFile {
    pub file_name: String,
    pub content: String,
    pub category_description: String,
    pub entries: Vec<TaxonomyEntry>,
}

/// The UTF-8 length of a character.
pub open spec fn char_utf8_len(c: char) -> nat {
    let u = c as u32;
    if u < 0x80 {
        1
    } else if u < 0x800 {
        2
    } else if u < 0x10000 {
        3
    } else {
        4
    }
}

/// The UTF-8 length of a text (`str::len`).
pub open spec fn utf8_len(s: Seq<char>) -> nat
    decreases s.len(),
{
    if s.len() == 0 {
        0
    } else {
        utf8_len(s.drop_last()) + char_utf8_len(s.last())
    }
}

/// A text too short once trimmed.
pub open spec fn too_short(s: Seq<char>) -> bool {
    utf8_len(trim(s)) < MIN_DESCRIPTION_LEN
}

fn utf8_length(v: &Vec<char>) -> (r: usize)
    ensures
        r as nat == utf8_len(v@) || (r == MIN_DESCRIPTION_LEN && utf8_len(v@) >= MIN_DESCRIPTION_LEN),
{
    let mut total: usize = 0;
    let n = v.len();
    for i in 0..n
        invariant
            n == v.len(),
            total <= MIN_DESCRIPTION_LEN,
            total as nat == utf8_len(v@.take(i as int)) || (total == MIN_DESCRIPTION_LEN && utf8_len(v@.take(i as int)) >= MIN_DESCRIPTION_LEN),
    {
        assert(v@.take(i + 1).drop_last() =~= v@.take(i as int));
        let u = v[i] as u32;
        let w: usize = if u < 0x80 { 1 } else if u < 0x800 { 2 } else if u < 0x10000 { 3 } else { 4 };
        total = if total + w >= MIN_DESCRIPTION_LEN { MIN_DESCRIPTION_LEN } else { total + w };
    }
    assert(v@.take(n as int) =~= v@);
    total
}

/// Whether a text is too short once trimmed.
pub fn is_too_short(s: &str) -> (r: bool)
    ensures
        r == too_short(s@),
{
    let t = trim_chars(chars_of(s).as_slice());
    utf8_length(&t) < MIN_DESCRIPTION_LEN
}

/// A documentation URL that parses as a URL.
pub uninterp spec fn url_parses(s: Seq<char>) -> bool;

/// Whether text parses as a URL (`url::Url::parse`).
///
/// Trusted: the outcome depends on the text alone.
#[verifier::external_body]
fn parses_as_url(s: &str) -> (r: bool)
    ensures
        r == url_parses(s@),
{
    url::Url::parse(s).is_ok()
}

/// The start of every validation message.
pub open spec fn msg(file: Seq<char>, line: int, rest: Seq<char>) -> Seq<char> {
    "Taxonomy validation error in "@ + file + " at line "@ + dec_nat(line as nat) + ": "@ + rest
}

/// The line of a field of an entry, defaulting to 1.
pub open spec fn line_or_one(content: Seq<char>, id: Seq<char>, field: Option<Seq<char>>) -> int {
    match line_number(content, id, field) {
        Some(k) => k,
        None => 1,
    }
}

/// A known severity.
pub open spec fn known_severity(s: Seq<char>) -> bool {
    s == "Error"@ || s == "Warning"@ || s == "Info"@ || s == "Fatal"@
}

/// The first description among `ds` that is too short.
pub open spec fn any_too_short(ds: Seq<String>) -> bool {
    exists|i: int| 0 <= i < ds.len() && too_short(#[trigger] ds[i]@)
}

/// The first rule an entry breaks, as its message.
pub open spec fn entry_error(file: Seq<char>, content: Seq<char>, e: TaxonomyEntry) -> Option<Seq<char>> {
    let id = e.id@;
    if trim(id).len() == 0 {
        Some(msg(file, line_or_one(content, id, None), "entry id is empty"@))
    } else if trim(e.name@).len() == 0 {
        Some(msg(file, line_or_one(content, id, Some("name"@)), "name is empty"@))
    } else if too_short(e.summary@) {
        Some(msg(file, line_or_one(content, id, Some("summary"@)), "summary for entry '"@ + id + "' is too short (must be at least 15 characters)"@))
    } else if too_short(e.detailed_explanation@) {
        Some(msg(file, line_or_one(content, id, Some("detailed_explanation"@)), "detailed_explanation for entry '"@ + id + "' is too short (must be at least 15 characters)"@))
    } else if !known_severity(e.severity@) {
        Some(msg(file, line_or_one(content, id, Some("severity"@)), "invalid severity '"@ + e.severity@ + "': must be one of Error, Warning, Info, Fatal"@))
    } else if e.since_protocol == Some(0u32) {
        Some(msg(file, line_or_one(content, id, Some("since_protocol"@)), "since_protocol must be > 0"@))
    } else if e.deprecated_protocol is Some && e.since_protocol is Some && e.deprecated_protocol->Some_0 < e.since_protocol->Some_0 {
        Some(msg(file, line_or_one(content, id, Some("deprecated_protocol"@)), "deprecated_protocol ("@ + dec_nat(e.deprecated_protocol->Some_0 as nat) + ") must be >= since_protocol ("@ + dec_nat(e.since_protocol->Some_0 as nat) + ")"@))
    } else if e.documentation_url is Some && !url_parses(e.documentation_url->Some_0@) {
        Some(msg(file, line_or_one(content, id, Some("documentation_url"@)), "documentation_url '"@ + e.documentation_url->Some_0@ + "' is not a valid URL"@))
    } else if any_too_short(e.common_causes@) {
        Some(msg(file, line_or_one(content, id, Some("description"@)), "common cause description is too short (must be at least 15 characters)"@))
    } else if any_too_short(e.suggested_fixes@) {
        Some(msg(file, line_or_one(content, id, Some("description"@)), "suggested fix description is too short (must be at least 15 characters)"@))
    } else {
        None
    }
}

fn line_of(content: &str, id: &str, field: Option<&str>) -> (r: usize)
    ensures
        r as int == line_or_one(content@, id@, crate::operations::opt_str(field)),
{
    match get_line_number(content, id, field) {
        Some(k) => k,
        None => 1,
    }
}

fn message(file: &str, line: usize, rest: &str) -> (r: String)
    ensures
        r@ == msg(file@, line as int, rest@),
{
    let mut s = String::from_str("Taxonomy validation error in ");
    append(&mut s, file);
    append(&mut s, " at line ");
    push_dec(&mut s, line as u128);
    append(&mut s, ": ");
    append(&mut s, rest);
    s
}

fn any_short(ds: &Vec<String>) -> (r: bool)
    ensures
        r == any_too_short(ds@),
{
    let n = ds.len();
    for i in 0..n
        invariant
            n == ds.len(),
            forall|k: int| 0 <= k < i ==> !too_short(#[trigger] ds@[k]@),
    {
        if is_too_short(ds[i].as_str()) {
            return true;
        }
    }
    false
}

/// Checks one entry of a file against the rules, in order; the message of
/// the first rule it breaks.
pub fn check_entry(file_name: &str, content: &str, entry: &TaxonomyEntry) -> (r: Result<(), String>)
    ensures
        match entry_error(file_name@, content@, *entry) {
            Some(m) => r matches Err(x) && x@ == m,
            None => r is Ok,
        },
{
    let id = entry.id.as_str();
    if trim_chars(chars_of(id).as_slice()).len() == 0 {
        return Err(message(file_name, line_of(content, id, None), "entry id is empty"));
    }
    if trim_chars(chars_of(entry.name.as_str()).as_slice()).len() == 0 {
        return Err(message(file_name, line_of(content, id, Some("name")), "name is empty"));
    }
    if is_too_short(entry.summary.as_str()) {
        let mut rest = String::from_str("summary for entry '");
        append(&mut rest, id);
        append(&mut rest, "' is too short (must be at least 15 characters)");
        return Err(message(file_name, line_of(content, id, Some("summary")), rest.as_str()));
    }
    if is_too_short(entry.detailed_explanation.as_str()) {
        let mut rest = String::from_str("detailed_explanation for entry '");
        append(&mut rest, id);
        append(&mut rest, "' is too short (must be at least 15 characters)");
        return Err(message(file_name, line_of(content, id, Some("detailed_explanation")), rest.as_str()));
    }
    let sev = entry.severity.as_str();
    if !(str_eq(sev, "Error") || str_eq(sev, "Warning") || str_eq(sev, "Info") || str_eq(sev, "Fatal")) {
        let mut rest = String::from_str("invalid severity '");
        append(&mut rest, sev);
        append(&mut rest, "': must be one of Error, Warning, Info, Fatal");
        return Err(message(file_name, line_of(content, id, Some("severity")), rest.as_str()));
    }
    if entry.since_protocol == Some(0u32) {
        return Err(message(file_name, line_of(content, id, Some("since_protocol")), "since_protocol must be > 0"));
    }
    if let (Some(dp), Some(sp)) = (entry.deprecated_protocol, entry.since_protocol) {
        if dp < sp {
            let mut rest = String::from_str("deprecated_protocol (");
            push_dec(&mut rest, dp as u128);
            append(&mut rest, ") must be >= since_protocol (");
            push_dec(&mut rest, sp as u128);
            append(&mut rest, ")");
            return Err(message(file_name, line_of(content, id, Some("deprecated_protocol")), rest.as_str()));
        }
    }
    if let Some(url) = &entry.documentation_url {
        if !parses_as_url(url.as_str()) {
            let mut rest = String::from_str("documentation_url '");
            append(&mut rest, url.as_str());
            append(&mut rest, "' is not a valid URL");
            return Err(message(file_name, line_of(content, id, Some("documentation_url")), rest.as_str()));
        }
    }
    if any_short(&entry.common_causes) {
        return Err(message(file_name, line_of(content, id, Some("description")), "common cause description is too short (must be at least 15 characters)"));
    }
    if any_short(&entry.suggested_fixes) {
        return Err(message(file_name, line_of(content, id, Some("description")), "suggested fix description is too short (must be at least 15 characters)"));
    }
    Ok(())
}

/// The first line of a text that starts a description, 1-based (1 when
/// there is none).
pub open spec fn description_line(content: Seq<char>) -> int {
    match first_description(lines_of(content), 0) {
        Some(k) => k + 1,
        None => 1,
    }
}

/// The first line from `i` on whose trimmed text starts with
/// `description =`.
pub open spec fn first_description(lines: Seq<Seq<char>>, i: int) -> Option<int>
    decreases lines.len() - i,
{
    if i < 0 || i >= lines.len() {
        None
    } else if seq_starts_with(trim(lines[i]), "description ="@) {
        Some(i)
    } else {
        first_description(lines, i + 1)
    }
}

/// The first rule a file breaks, as its message: its category
/// description, then its entries in order.
pub open spec fn file_error(f: TaxonomyFile) -> Option<Seq<char>> {
    if too_short(f.category_description@) {
        Some(msg(f.file_name@, description_line(f.content@), "category description is too short (must be at least 15 characters)"@))
    } else {
        entries_error(f.file_name@, f.content@, f.entries@)
    }
}

/// The first rule broken by the entries.
pub open spec fn entries_error(file: Seq<char>, content: Seq<char>, es: Seq<TaxonomyEntry>) -> Option<Seq<char>>
    decreases es.len(),
{
    if es.len() == 0 {
        None
    } else {
        match entry_error(file, content, es[0]) {
            Some(m) => Some(m),
            None => entries_error(file, content, es.drop_first()),
        }
    }
}

/// Checks the rules of one file.
pub fn check_file(file: &TaxonomyFile) -> (r: Result<(), String>)
    ensures
        match file_error(*file) {
            Some(m) => r matches Err(x) && x@ == m,
            None => r is Ok,
        },
{
    if is_too_short(file.category_description.as_str()) {
        let lines = split_lines(file.content.as_str());
        let ghost ls = lines@.map_values(|l: Vec<char>| l@);
        let n = lines.len();
        let mut found: Option<usize> = None;
        for i in 0..n
            invariant
                n == lines.len(),
                ls == lines@.map_values(|l: Vec<char>| l@),
                ls == lines_of(file.content@),
                ls.len() == n,
                found is None ==> first_description(ls, 0) == first_description(ls, i as int),
                found matches Some(k) ==> k < n && first_description(ls, 0) == Some(k as int),
        {
            if found.is_none() {
                assert(ls[i as int] == lines@[i as int]@);
                let t = trim_chars(lines[i].as_slice());
                if starts_with(t.as_slice(), chars_of("description =").as_slice()) {
                    found = Some(i);
                }
            }
        }
        let line: usize = match found {
            Some(k) => k + 1,
            None => 1,
        };
        proof {
            if found is None {
                assert(first_description(ls, n as int) is None);
            }
        }
        assert(line as int == description_line(file.content@));
        return Err(message(file.file_name.as_str(), line, "category description is too short (must be at least 15 characters)"));
    }
    let n = file.entries.len();
    assert(file.entries@.skip(0) =~= file.entries@);
    for i in 0..n
        invariant
            n == file.entries.len(),
            !too_short(file.category_description@),
            file_error(*file) == entries_error(file.file_name@, file.content@, file.entries@.skip(i as int)),
    {
        assert(file.entries@.skip(i as int)[0] == file.entries@[i as int]);
        assert(file.entries@.skip(i as int).drop_first() =~= file.entries@.skip(i + 1));
        match check_entry(file.file_name.as_str(), file.content.as_str(), &file.entries[i]) {
            Err(m) => return Err(m),
            Ok(()) => {},
        }
    }
    Ok(())
}

// ---------------------------------------------------------------------------
// Rules across files
// ---------------------------------------------------------------------------

/// Positions (file, entry) of all entries, file by file, in order.
pub open spec fn positions(files: Seq<TaxonomyFile>) -> Seq<(int, int)>
    decreases files.len(),
{
    if files.len() == 0 {
        Seq::empty()
    } else {
        let f = files.len() - 1;
        positions(files.drop_last()) + Seq::new(files.last().entries@.len(), |j: int| (f, j))
    }
}

/// The entry at a position.
pub open spec fn entry_at(files: Seq<TaxonomyFile>, p: (int, int)) -> TaxonomyEntry {
    files[p.0].entries@[p.1]
}

/// Two entries share category and code.
pub open spec fn same_key(a: TaxonomyEntry, b: TaxonomyEntry) -> bool {
    a.category@ == b.category@ && a.code == b.code
}

/// The first position before `k` (from `j` on) sharing the key of
/// position `k`.
pub open spec fn first_same(files: Seq<TaxonomyFile>, ps: Seq<(int, int)>, k: int, j: int) -> Option<int>
    decreases k - j,
{
    if j < 0 || j >= k {
        None
    } else if same_key(entry_at(files, ps[j]), entry_at(files, ps[k])) {
        Some(j)
    } else {
        first_same(files, ps, k, j + 1)
    }
}

/// The message for a duplicate of the entry at position `j` at position `k`.
pub open spec fn dup_message(files: Seq<TaxonomyFile>, ps: Seq<(int, int)>, k: int, j: int) -> Seq<char> {
    let f = files[ps[k].0];
    let e = entry_at(files, ps[k]);
    let prev = entry_at(files, ps[j]);
    msg(f.file_name@, line_or_one(f.content@, e.id@, Some("code"@)), "duplicate (category, code) pair ("@ + e.category@
        + ", "@ + dec_nat(e.code as nat) + ") already defined by entry '"@ + prev.id@ + "' in "@ + files[ps[j].0].file_name@)
}

/// The first duplicate (category, code) pair from position `k` on.
pub open spec fn dup_from(files: Seq<TaxonomyFile>, ps: Seq<(int, int)>, k: int) -> Option<Seq<char>>
    decreases ps.len() - k,
{
    if k < 0 || k >= ps.len() {
        None
    } else {
        match first_same(files, ps, k, 0) {
            Some(j) => Some(dup_message(files, ps, k, j)),
            None => dup_from(files, ps, k + 1),
        }
    }
}

/// Some entry has id `r`.
pub open spec fn id_known(files: Seq<TaxonomyFile>, ps: Seq<(int, int)>, r: Seq<char>) -> bool {
    exists|k: int| 0 <= k < ps.len() && #[trigger] entry_at(files, ps[k]).id@ == r
}

/// The first unknown related error of the entry at position `k`, from its
/// `i`-th reference on.
pub open spec fn unknown_ref_from(files: Seq<TaxonomyFile>, ps: Seq<(int, int)>, k: int, i: int) -> Option<Seq<char>>
    decreases entry_at(files, ps[k]).related_errors@.len() - i,
{
    let rs = entry_at(files, ps[k]).related_errors@;
    if i < 0 || i >= rs.len() {
        None
    } else if !id_known(files, ps, rs[i]@) {
        Some(rs[i]@)
    } else {
        unknown_ref_from(files, ps, k, i + 1)
    }
}

/// The first reference to an unknown entry, from position `k` on.
pub open spec fn related_from(files: Seq<TaxonomyFile>, ps: Seq<(int, int)>, k: int) -> Option<Seq<char>>
    decreases ps.len() - k,
{
    if k < 0 || k >= ps.len() {
        None
    } else {
        match unknown_ref_from(files, ps, k, 0) {
            Some(r) => {
                let f = files[ps[k].0];
                let e = entry_at(files, ps[k]);
                Some(msg(f.file_name@, line_or_one(f.content@, e.id@, Some("related_errors"@)), "related_errors references '"@
                    + r + "' which does not exist in any loaded file"@))
            },
            None => related_from(files, ps, k + 1),
        }
    }
}

/// The first rule broken across files: a duplicate (category, code) pair,
/// then a reference to an entry that no file defines.
pub open spec fn cross_error(files: Seq<TaxonomyFile>) -> Option<Seq<char>> {
    let ps = positions(files);
    match dup_from(files, ps, 0) {
        Some(m) => Some(m),
        None => related_from(files, ps, 0),
    }
}

proof fn lemma_positions(files: Seq<TaxonomyFile>)
    ensures
        forall|k: int| 0 <= k < positions(files).len() ==> 0 <= #[trigger] positions(files)[k].0 < files.len()
            && 0 <= positions(files)[k].1 < files[positions(files)[k].0].entries@.len(),
    decreases files.len(),
{
    if files.len() > 0 {
        lemma_positions(files.drop_last());
        let prev = positions(files.drop_last());
        assert forall|k: int| 0 <= k < prev.len() implies files.drop_last()[prev[k].0] == files[prev[k].0] by {}
    }
}

fn collect_positions(files: &[TaxonomyFile]) -> (r: Vec<(usize, usize)>)
    ensures
        r@.map_values(|p: (usize, usize)| (p.0 as int, p.1 as int)) == positions(files@),
{
    let mut out: Vec<(usize, usize)> = Vec::new();
    let n = files.len();
    for f in 0..n
        invariant
            n == files.len(),
            out@.map_values(|p: (usize, usize)| (p.0 as int, p.1 as int)) == positions(files@.take(f as int)),
    {
        let ghost before = out@.map_values(|p: (usize, usize)| (p.0 as int, p.1 as int));
        let m = files[f].entries.len();
        for j in 0..m
            invariant
                m == files@[f as int].entries@.len(),
                f < n,
                n == files.len(),
                out@.map_values(|p: (usize, usize)| (p.0 as int, p.1 as int)) == before + Seq::new(j as nat, |q: int| (f as int, q)),
        {
            let ghost old_out = out@;
            out.push((f, j));
            assert(out@ =~= old_out.push((f, j)));
            assert(out@.map_values(|p: (usize, usize)| (p.0 as int, p.1 as int)) =~= old_out.map_values(|p: (usize, usize)| (p.0 as int, p.1 as int)).push((f as int, j as int)));
            assert(out@.map_values(|p: (usize, usize)| (p.0 as int, p.1 as int)) =~= before + Seq::new((j + 1) as nat, |q: int| (f as int, q)));
        }
        assert(files@.take(f + 1).drop_last() =~= files@.take(f as int));
        assert(files@.take(f + 1).last() == files@[f as int]);
    }
    assert(files@.take(n as int) =~= files@);
    out
}

/// Checks the rules across all files.
pub fn check_cross(files: &[TaxonomyFile]) -> (r: Result<(), String>)
    ensures
        match cross_error(files@) {
            Some(m) => r matches Err(x) && x@ == m,
            None => r is Ok,
        },
{
    let ps = collect_positions(files);
    let ghost sp = ps@.map_values(|p: (usize, usize)| (p.0 as int, p.1 as int));
    proof { lemma_positions(files@); }
    let n = ps.len();
    assert(sp.len() == n);
    for k in 0..n
        invariant
            n == ps.len(),
            sp == ps@.map_values(|p: (usize, usize)| (p.0 as int, p.1 as int)),
            sp == positions(files@),
            sp.len() == n,
            forall|q: int| 0 <= q < sp.len() ==> 0 <= #[trigger] sp[q].0 < files@.len() && 0 <= sp[q].1 < files@[sp[q].0].entries@.len(),
            dup_from(files@, sp, 0) == dup_from(files@, sp, k as int),
    {
        let (fk, ek) = ps[k];
        assert(sp[k as int] == (fk as int, ek as int));
        let entry = &files[fk].entries[ek];
        let mut found: Option<usize> = None;
        for j in 0..k
            invariant
                k < n,
                n == ps.len(),
                sp == ps@.map_values(|p: (usize, usize)| (p.0 as int, p.1 as int)),
                sp.len() == n,
                forall|q: int| 0 <= q < sp.len() ==> 0 <= #[trigger] sp[q].0 < files@.len() && 0 <= sp[q].1 < files@[sp[q].0].entries@.len(),
                *entry == entry_at(files@, sp[k as int]),
                found is None ==> first_same(files@, sp, k as int, 0) == first_same(files@, sp, k as int, j as int),
                found matches Some(x) ==> x < k && first_same(files@, sp, k as int, 0) == Some(x as int),
        {
            if found.is_none() {
                let (fj, ej) = ps[j];
                assert(sp[j as int] == (fj as int, ej as int));
                let other = &files[fj].entries[ej];
                if str_eq(other.category.as_str(), entry.category.as_str()) && other.code == entry.code {
                    found = Some(j);
                }
            }
        }
        if let Some(j) = found {
            let (fj, ej) = ps[j];
            assert(sp[j as int] == (fj as int, ej as int));
            let mut rest = String::from_str("duplicate (category, code) pair (");
            append(&mut rest, entry.category.as_str());
            append(&mut rest, ", ");
            push_dec(&mut rest, entry.code as u128);
            append(&mut rest, ") already defined by entry '");
            append(&mut rest, files[fj].entries[ej].id.as_str());
            append(&mut rest, "' in ");
            append(&mut rest, files[fj].file_name.as_str());
            let line = line_of(files[fk].content.as_str(), entry.id.as_str(), Some("code"));
            return Err(message(files[fk].file_name.as_str(), line, rest.as_str()));
        }
        assert(first_same(files@, sp, k as int, k as int) is None);
    }
    for k in 0..n
        invariant
            n == ps.len(),
            sp == ps@.map_values(|p: (usize, usize)| (p.0 as int, p.1 as int)),
            sp == positions(files@),
            sp.len() == n,
            forall|q: int| 0 <= q < sp.len() ==> 0 <= #[trigger] sp[q].0 < files@.len() && 0 <= sp[q].1 < files@[sp[q].0].entries@.len(),
            dup_from(files@, sp, 0) is None,
            related_from(files@, sp, 0) == related_from(files@, sp, k as int),
    {
        let (fk, ek) = ps[k];
        assert(sp[k as int] == (fk as int, ek as int));
        let entry = &files[fk].entries[ek];
        let m = entry.related_errors.len();
        for i in 0..m
            invariant
                k < n,
                n == ps.len(),
                sp == ps@.map_values(|p: (usize, usize)| (p.0 as int, p.1 as int)),
                sp.len() == n,
                forall|q: int| 0 <= q < sp.len() ==> 0 <= #[trigger] sp[q].0 < files@.len() && 0 <= sp[q].1 < files@[sp[q].0].entries@.len(),
                *entry == entry_at(files@, sp[k as int]),
                sp[k as int] == (fk as int, ek as int),
                sp == positions(files@),
                dup_from(files@, sp, 0) is None,
                m == entry.related_errors@.len(),
                unknown_ref_from(files@, sp, k as int, 0) == unknown_ref_from(files@, sp, k as int, i as int),
                related_from(files@, sp, 0) == related_from(files@, sp, k as int),
        {
            let rel = entry.related_errors[i].as_str();
            let mut known = false;
            for q in 0..n
                invariant
                    n == ps.len(),
                    sp == ps@.map_values(|p: (usize, usize)| (p.0 as int, p.1 as int)),
                    sp.len() == n,
                    forall|q2: int| 0 <= q2 < sp.len() ==> 0 <= #[trigger] sp[q2].0 < files@.len() && 0 <= sp[q2].1 < files@[sp[q2].0].entries@.len(),
                    rel@ == entry.related_errors@[i as int]@,
                    known ==> id_known(files@, sp, rel@),
                    !known ==> forall|q2: int| 0 <= q2 < q ==> #[trigger] entry_at(files@, sp[q2]).id@ != rel@,
            {
                if !known {
                    let (fq, eq) = ps[q];
                    assert(sp[q as int] == (fq as int, eq as int));
                    if str_eq(files[fq].entries[eq].id.as_str(), rel) {
                        known = true;
                        assert(entry_at(files@, sp[q as int]).id@ == rel@);
                    }
                }
            }
            if !known {
                let mut rest = String::from_str("related_errors references '");
                append(&mut rest, rel);
                append(&mut rest, "' which does not exist in any loaded file");
                let line = line_of(files[fk].content.as_str(), entry.id.as_str(), Some("related_errors"));
                return Err(message(files[fk].file_name.as_str(), line, rest.as_str()));
            }
        }
    }
    Ok(())
}

/// The 1-based line and column of byte offset `k` of a text: lines and
/// columns counted over the bytes before it.
pub open spec fn position_of(bytes: Seq<u8>, k: int) -> (int, int)
    decreases k,
{
    if k <= 0 || bytes.len() == 0 {
        (1, 1)
    } else if k > bytes.len() {
        position_of(bytes, bytes.len() as int)
    } else {
        let (line, col) = position_of(bytes, k - 1);
        if bytes[k - 1] == 10u8 {
            (line + 1, 1)
        } else {
            (line, col + 1)
        }
    }
}

/// The line and column of a TOML parse error starting at byte `span_start`
/// (line 1, column 1 when the error has no position).
pub fn parse_error_position(content: &[u8], span_start: Option<usize>) -> (r: (usize, usize))
    requires
        content@.len() < usize::MAX,
    ensures
        (r.0 as int, r.1 as int) == match span_start {
            Some(k) => position_of(content@, k as int),
            None => (1, 1),
        },
{
    let k = match span_start {
        Some(k) => if k > content.len() { content.len() } else { k },
        None => return (1, 1),
    };
    proof {
        if span_start->Some_0 > content@.len() && content@.len() > 0 {
            assert(position_of(content@, span_start->Some_0 as int) == position_of(content@, content@.len() as int));
        }
    }
    let mut line: usize = 1;
    let mut col: usize = 1;
    for i in 0..k
        invariant
            k <= content.len(),
            content@.len() < usize::MAX,
            line <= i + 1,
            col <= i + 1,
            (line as int, col as int) == position_of(content@, i as int),
    {
        if content[i] == 10u8 {
            line = line + 1;
            col = 1;
        } else {
            col = col + 1;
        }
    }
    proof {
        if content@.len() == 0 {
            assert(position_of(content@, span_start->Some_0 as int) == (1int, 1int));
        }
    }
    (line, col)
}

/// The message of a TOML parse error.
pub fn parse_error_message(file_name: &str, line: usize, column: usize, error: &str) -> (r: String)
    ensures
        r@ == "Taxonomy TOML parse error in "@ + file_name@ + " at line "@ + dec_nat(line as nat) + " (column "@
            + dec_nat(column as nat) + "): "@ + error@,
{
    let mut s = String::from_str("Taxonomy TOML parse error in ");
    append(&mut s, file_name);
    append(&mut s, " at line ");
    push_dec(&mut s, line as u128);
    append(&mut s, " (column ");
    push_dec(&mut s, column as u128);
    append(&mut s, "): ");
    append(&mut s, error);
    s
}

/// The first rule broken by a set of parsed files: each file's own rules in
/// file order, then the rules across files.
pub open spec fn files_error(files: Seq<TaxonomyFile>) -> Option<Seq<char>> {
    match first_file_error(files, 0) {
        Some(m) => Some(m),
        None => cross_error(files),
    }
}

/// The first file rule broken from file `i` on.
pub open spec fn first_file_error(files: Seq<TaxonomyFile>, i: int) -> Option<Seq<char>>
    decreases files.len() - i,
{
    if i < 0 || i >= files.len() {
        None
    } else {
        match file_error(files[i]) {
            Some(m) => Some(m),
            None => first_file_error(files, i + 1),
        }
    }
}

proof fn lemma_entries_error_some(file: Seq<char>, content: Seq<char>, es: Seq<TaxonomyEntry>, j: int)
    requires
        0 <= j < es.len(),
        entry_error(file, content, es[j]) is Some,
    ensures
        entries_error(file, content, es) is Some,
    decreases j,
{
    if j > 0 && entry_error(file, content, es[0]) is None {
        assert(es.drop_first()[j - 1] == es[j]);
        lemma_entries_error_some(file, content, es.drop_first(), j - 1);
    }
}

proof fn lemma_first_file_error_some(files: Seq<TaxonomyFile>, i: int, k: int)
    requires
        0 <= i <= k < files.len(),
        file_error(files[k]) is Some,
    ensures
        first_file_error(files, i) is Some,
    decreases k - i,
{
    if i < k && file_error(files[i]) is None {
        lemma_first_file_error_some(files, i + 1, k);
    }
}

/// An entry is refused when one of its common causes or suggested fixes
/// has a description shorter than the minimum once trimmed: checking the
/// entry fails, and so does linting any set of files that holds it.
pub proof fn lemma_short_description_refused(files: Seq<TaxonomyFile>, k: int, j: int, i: int)
    requires
        0 <= k < files.len(),
        0 <= j < files[k].entries@.len(),
        ({
            let e = files[k].entries@[j];
            ||| 0 <= i < e.common_causes@.len() && utf8_len(trim(e.common_causes@[i]@)) < MIN_DESCRIPTION_LEN
            ||| 0 <= i < e.suggested_fixes@.len() && utf8_len(trim(e.suggested_fixes@[i]@)) < MIN_DESCRIPTION_LEN
        }),
    ensures
        entry_error(files[k].file_name@, files[k].content@, files[k].entries@[j]) is Some,
        files_error(files) is Some,
{
    let f = files[k];
    let e = f.entries@[j];
    if 0 <= i < e.common_causes@.len() && too_short(e.common_causes@[i]@) {
        assert(any_too_short(e.common_causes@));
    } else {
        assert(any_too_short(e.suggested_fixes@));
    }
    if !too_short(f.category_description@) {
        lemma_entries_error_some(f.file_name@, f.content@, f.entries@, j);
    }
    lemma_first_file_error_some(files, 0, k);
}

/// Checks parsed taxonomy files: every file's rules, then the rules across
/// them; the message of the first rule broken.
pub fn lint_files(files: &[TaxonomyFile]) -> (r: Result<(), String>)
    ensures
        match files_error(files@) {
            Some(m) => r matches Err(x) && x@ == m,
            None => r is Ok,
        },
{
    let n = files.len();
    for i in 0..n
        invariant
            n == files.len(),
            first_file_error(files@, 0) == first_file_error(files@, i as int),
    {
        match check_file(&files[i]) {
            Err(m) => return Err(m),
            Ok(()) => {},
        }
    }
    check_cross(files)
}

} // verus!
