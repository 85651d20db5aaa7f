//! Text utilities with exact specifications over `Seq<char>`.
//!
//! The decoders build human-readable strings; every helper here states the
//! produced characters exactly, so the contracts of the decoders can speak of
//! the text they return.

use vstd::prelude::*;

verus! {

// ---------------------------------------------------------------------------
// Specifications
// ---------------------------------------------------------------------------

/// ASCII lower-casing of one character (`char::to_ascii_lowercase`).
pub open spec fn lower_ascii(c: char) -> char {
    if 'A' <= c && c <= 'Z' {
        ((c as u32) + 32) as char
    } else {
        c
    }
}

/// ASCII lower-casing of a character sequence (`str::to_ascii_lowercase`).
pub open spec fn lower_seq(s: Seq<char>) -> Seq<char> {
    s.map_values(|c: char| lower_ascii(c))
}

/// `needle` occurs in `hay` starting at index `i`.
pub open spec fn occurs_at(hay: Seq<char>, needle: Seq<char>, i: int) -> bool {
    0 <= i && i + needle.len() <= hay.len() && hay.subrange(i, i + needle.len()) == needle
}

/// `needle` is a substring of `hay` (`str::contains`).
pub open spec fn seq_contains(hay: Seq<char>, needle: Seq<char>) -> bool {
    exists|i: int| occurs_at(hay, needle, i)
}

/// `hay` begins with `prefix` (`str::starts_with`).
pub open spec fn seq_starts_with(hay: Seq<char>, prefix: Seq<char>) -> bool {
    prefix.len() <= hay.len() && hay.take(prefix.len() as int) == prefix
}

/// The Unicode `White_Space` property, as used by `char::is_whitespace`.
pub open spec fn is_ws(c: char) -> bool {
    let u = c as u32;
    (9 <= u && u <= 13) || u == 32 || u == 0x85 || u == 0xA0 || u == 0x1680 || (0x2000 <= u
        && u <= 0x200A) || u == 0x2028 || u == 0x2029 || u == 0x202F || u == 0x205F || u == 0x3000
}

/// Leading white space removed (`str::trim_start`).
pub open spec fn trim_start(s: Seq<char>) -> Seq<char>
    decreases s.len(),
{
    if s.len() > 0 && is_ws(s[0]) {
        trim_start(s.drop_first())
    } else {
        s
    }
}

/// Trailing white space removed (`str::trim_end`).
pub open spec fn trim_end(s: Seq<char>) -> Seq<char>
    decreases s.len(),
{
    if s.len() > 0 && is_ws(s.last()) {
        trim_end(s.drop_last())
    } else {
        s
    }
}

/// Both ends trimmed (`str::trim`).
pub open spec fn trim(s: Seq<char>) -> Seq<char> {
    trim_end(trim_start(s))
}

/// The decimal digit for `d < 10`.
pub open spec fn digit(d: nat) -> char {
    ((d + 48) as u32) as char
}

/// Decimal representation of a natural number (no sign, no leading zeros).
pub open spec fn dec_nat(n: nat) -> Seq<char>
    decreases n,
{
    if n < 10 {
        seq![digit(n)]
    } else {
        dec_nat(n / 10).push(digit(n % 10))
    }
}

/// Decimal representation of an integer, with a leading `-` when negative.
pub open spec fn dec_int(i: int) -> Seq<char> {
    if i < 0 {
        seq!['-'] + dec_nat((-i) as nat)
    } else {
        dec_nat(i as nat)
    }
}

/// Decimal representation left-padded with zeros to at least three digits
/// (`format!("{:03}", n)`).
pub open spec fn dec_pad3(n: nat) -> Seq<char> {
    if n < 10 {
        seq!['0', '0'] + dec_nat(n)
    } else if n < 100 {
        seq!['0'] + dec_nat(n)
    } else {
        dec_nat(n)
    }
}

/// Lower-case hexadecimal digit for `d < 16`.
pub open spec fn hex_digit(d: nat) -> char {
    if d < 10 {
        digit(d)
    } else {
        ((d - 10 + 97) as u32) as char
    }
}

/// Two lower-case hex digits of a byte (`format!("{b:02x}")`).
pub open spec fn hex_byte(b: u8) -> Seq<char> {
    seq![hex_digit((b / 16) as nat), hex_digit((b % 16) as nat)]
}

/// Lower-case hex of a byte sequence (`hex::encode`).
pub open spec fn hex_seq(bytes: Seq<u8>) -> Seq<char>
    decreases bytes.len(),
{
    if bytes.len() == 0 {
        Seq::empty()
    } else {
        hex_seq(bytes.drop_last()) + hex_byte(bytes.last())
    }
}

/// The `k` lowest hex digits of `x`, most significant first, zero-padded.
pub open spec fn hex_fixed(x: nat, k: nat) -> Seq<char>
    decreases k,
{
    if k == 0 {
        Seq::empty()
    } else {
        hex_fixed(x / 16, (k - 1) as nat).push(hex_digit(x % 16))
    }
}

/// Sixteen hex digits of a 64-bit value (`format!("{:016x}")`).
pub open spec fn hex_u64(x: u64) -> Seq<char> {
    hex_fixed(x as nat, 16)
}

/// Elements joined by a separator (`slice::join`).
pub open spec fn join(parts: Seq<Seq<char>>, sep: Seq<char>) -> Seq<char>
    decreases parts.len(),
{
    if parts.len() == 0 {
        Seq::empty()
    } else if parts.len() == 1 {
        parts[0]
    } else {
        join(parts.drop_last(), sep) + sep + parts.last()
    }
}

/// Unicode lower-casing as done by `str::to_lowercase`.
pub uninterp spec fn unicode_lowercase(s: Seq<char>) -> Seq<char>;

// ---------------------------------------------------------------------------
// Trusted std operations
// ---------------------------------------------------------------------------

/// Appends one character to a string (wraps `String::push`).
///
/// Trusted: `String::push` appends exactly the given character.
#[verifier::external_body]
pub(crate) fn push_char(s: &mut String, c: char)
    ensures
        final(s)@ == old(s)@.push(c),
{
    s.push(c);
}

/// Unicode lower-casing (wraps `str::to_lowercase`).
///
/// Trusted: the result is a function of the characters alone (Rust's
/// lower-casing is locale independent); nothing more is claimed of it.
#[verifier::external_body]
pub(crate) fn to_lowercase(s: &str) -> (r: String)
    ensures
        r@ == unicode_lowercase(s@),
{
    s.to_lowercase()
}

// ---------------------------------------------------------------------------
// Verified helpers
// ---------------------------------------------------------------------------

/// Collects the characters of a string slice into a vector.
pub fn chars_of(s: &str) -> (v: Vec<char>)
    ensures
        v@ == s@,
{
    let mut v: Vec<char> = Vec::new();
    for c in it: s.chars()
        invariant
            v@ == it.seq().take(it.index() as int),
    {
        v.push(c);
    }
    v
}

/// Builds a string from a character vector.
pub fn string_of(v: &Vec<char>) -> (s: String)
    ensures
        s@ == v@,
{
    let mut s = String::new();
    let n = v.len();
    for i in 0..n
        invariant
            n == v.len(),
            s@ == v@.take(i as int),
    {
        push_char(&mut s, v[i]);
        assert(v@.take(i + 1) == v@.take(i as int).push(v@[i as int]));
    }
    assert(v@.take(n as int) == v@);
    s
}

/// Appends a string slice to a string.
pub fn append(s: &mut String, t: &str)
    ensures
        final(s)@ == old(s)@ + t@,
{
    s.append(t);
}

/// Character-wise equality of two character sequences.
pub fn eq_chars(a: &[char], b: &[char]) -> (r: bool)
    ensures
        r == (a@ == b@),
{
    if a.len() != b.len() {
        return false;
    }
    let n = a.len();
    for i in 0..n
        invariant
            n == a.len(),
            n == b.len(),
            forall|j: int| 0 <= j < i ==> a@[j] == b@[j],
    {
        if a[i] != b[i] {
            return false;
        }
    }
    assert(a@ =~= b@);
    true
}

/// Equality of two string slices.
pub fn str_eq(a: &str, b: &str) -> (r: bool)
    ensures
        r == (a@ == b@),
{
    let va = chars_of(a);
    let vb = chars_of(b);
    eq_chars(va.as_slice(), vb.as_slice())
}

/// ASCII lower-casing (`str::to_ascii_lowercase`).
pub fn to_ascii_lowercase(v: &[char]) -> (r: Vec<char>)
    ensures
        r@ == lower_seq(v@),
{
    let mut r: Vec<char> = Vec::new();
    let n = v.len();
    for i in 0..n
        invariant
            n == v.len(),
            r@ == lower_seq(v@.take(i as int)),
    {
        let c = v[i];
        let l = if 'A' <= c && c <= 'Z' {
            let u: u32 = (c as u32) + 32;
            assert(u == 'a' as u32 + (c as u32 - 'A' as u32));
            char_from_ascii(u)
        } else {
            c
        };
        r.push(l);
        assert(lower_seq(v@.take(i + 1)) =~= lower_seq(v@.take(i as int)).push(lower_ascii(c)));
    }
    assert(v@.take(n as int) == v@);
    r
}

/// The character with an ASCII code point.
fn char_from_ascii(u: u32) -> (c: char)
    requires
        u < 128,
    ensures
        c == u as char,
        c as u32 == u,
{
    let b: u8 = u as u8;
    let c = b as char;
    c
}

/// Whether `needle` occurs in `hay` at position `i`.
pub fn occurs_at_exec(hay: &[char], needle: &[char], i: usize) -> (r: bool)
    ensures
        r == occurs_at(hay@, needle@, i as int),
{
    if needle.len() > hay.len() || i > hay.len() - needle.len() {
        return false;
    }
    let m = needle.len();
    for j in 0..m
        invariant
            m == needle.len(),
            i + m <= hay.len(),
            forall|k: int| 0 <= k < j ==> hay@[i + k] == needle@[k],
    {
        if hay[i + j] != needle[j] {
            assert(hay@.subrange(i as int, i + m)[j as int] != needle@[j as int]);
            return false;
        }
    }
    assert(hay@.subrange(i as int, i + m) =~= needle@);
    true
}

/// Substring search (`str::contains`).
pub fn contains(hay: &[char], needle: &[char]) -> (r: bool)
    ensures
        r == seq_contains(hay@, needle@),
{
    if needle.len() > hay.len() {
        return false;
    }
    let last = hay.len() - needle.len();
    let mut i: usize = 0;
    while i <= last
        invariant
            last == hay.len() - needle.len(),
            needle.len() <= hay.len(),
            i <= last + 1,
            forall|k: int| 0 <= k < i ==> !occurs_at(hay@, needle@, k),
        decreases last + 1 - i,
    {
        if occurs_at_exec(hay, needle, i) {
            return true;
        }
        if i == last {
            return false;
        }
        i = i + 1;
    }
    false
}

/// Prefix test (`str::starts_with`).
pub fn starts_with(hay: &[char], prefix: &[char]) -> (r: bool)
    ensures
        r == seq_starts_with(hay@, prefix@),
{
    let r = occurs_at_exec(hay, prefix, 0);
    if r {
        assert(hay@.take(prefix@.len() as int) == hay@.subrange(0, prefix@.len() as int));
    } else if prefix.len() <= hay.len() {
        assert(hay@.take(prefix@.len() as int) == hay@.subrange(0, prefix@.len() as int));
    }
    r
}

/// White-space test (`char::is_whitespace`).
pub fn is_whitespace(c: char) -> (r: bool)
    ensures
        r == is_ws(c),
{
    let u = c as u32;
    (9 <= u && u <= 13) || u == 32 || u == 0x85 || u == 0xA0 || u == 0x1680 || (0x2000 <= u && u
        <= 0x200A) || u == 0x2028 || u == 0x2029 || u == 0x202F || u == 0x205F || u == 0x3000
}

proof fn lemma_trim_start_skip(s: Seq<char>, i: int)
    requires
        0 <= i <= s.len(),
        forall|k: int| 0 <= k < i ==> is_ws(s[k]),
    ensures
        trim_start(s) == trim_start(s.subrange(i, s.len() as int)),
    decreases i,
{
    if i > 0 {
        assert(is_ws(s[0]));
        let t = s.drop_first();
        lemma_trim_start_skip(t, i - 1);
        assert(t.subrange(i - 1, t.len() as int) =~= s.subrange(i, s.len() as int));
    } else {
        assert(s.subrange(0, s.len() as int) =~= s);
    }
}

proof fn lemma_trim_end_skip(s: Seq<char>, j: int)
    requires
        0 <= j <= s.len(),
        forall|k: int| j <= k < s.len() ==> is_ws(s[k]),
    ensures
        trim_end(s) == trim_end(s.subrange(0, j)),
    decreases s.len() - j,
{
    if j < s.len() {
        assert(is_ws(s.last()));
        let t = s.drop_last();
        lemma_trim_end_skip(t, j);
        assert(t.subrange(0, j) =~= s.subrange(0, j));
    } else {
        assert(s.subrange(0, j) =~= s);
    }
}

/// Trims white space at both ends (`str::trim`).
pub fn trim_chars(v: &[char]) -> (r: Vec<char>)
    ensures
        r@ == trim(v@),
{
    let n = v.len();
    let mut i: usize = 0;
    while i < n && is_whitespace(v[i])
        invariant
            n == v.len(),
            i <= n,
            forall|k: int| 0 <= k < i ==> is_ws(v@[k]),
        decreases n - i,
    {
        i = i + 1;
    }
    let ghost s1 = v@.subrange(i as int, n as int);
    proof {
        lemma_trim_start_skip(v@, i as int);
        if s1.len() > 0 {
            assert(s1[0] == v@[i as int]);
        }
        assert(trim_start(s1) == s1);
    }
    let mut j: usize = n;
    while j > i && is_whitespace(v[j - 1])
        invariant
            n == v.len(),
            i <= j <= n,
            forall|k: int| j <= k < n ==> is_ws(v@[k]),
        decreases j,
    {
        j = j - 1;
    }
    let mut r: Vec<char> = Vec::new();
    let mut k: usize = i;
    while k < j
        invariant
            i <= k <= j <= n,
            n == v.len(),
            r@ == v@.subrange(i as int, k as int),
        decreases j - k,
    {
        r.push(v[k]);
        assert(v@.subrange(i as int, k + 1) == v@.subrange(i as int, k as int).push(v@[k as int]));
        k = k + 1;
    }
    proof {
        let jj = (j - i) as int;
        assert forall|q: int| jj <= q < s1.len() implies is_ws(s1[q]) by {
            assert(s1[q] == v@[i + q]);
        }
        lemma_trim_end_skip(s1, jj);
        assert(s1.subrange(0, jj) =~= v@.subrange(i as int, j as int));
        let s2 = s1.subrange(0, jj);
        if s2.len() > 0 {
            assert(s2.last() == v@[j - 1]);
        }
        assert(trim_end(s2) == s2);
    }
    r
}

/// The character of a decimal digit.
fn digit_char(d: u64) -> (c: char)
    requires
        d < 10,
    ensures
        c == digit(d as nat),
{
    char_from_ascii((d as u32) + 48)
}

/// The character of a lower-case hex digit.
fn hex_digit_char(d: u64) -> (c: char)
    requires
        d < 16,
    ensures
        c == hex_digit(d as nat),
{
    if d < 10 {
        char_from_ascii((d as u32) + 48)
    } else {
        char_from_ascii((d as u32) - 10 + 97)
    }
}

proof fn lemma_dec_nat_len(n: nat)
    ensures
        1 <= dec_nat(n).len(),
        n < 10 ==> dec_nat(n).len() == 1,
    decreases n,
{
    if n >= 10 {
        lemma_dec_nat_len(n / 10);
    }
}

/// Appends the decimal text of `n` to `s`.
pub fn push_dec(s: &mut String, n: u128)
    ensures
        final(s)@ == old(s)@ + dec_nat(n as nat),
    decreases n,
{
    if n >= 10 {
        push_dec(s, n / 10);
    }
    push_char(s, digit_char((n % 10) as u64));
    assert(dec_nat(n as nat) == if n < 10 { seq![digit(n as nat)] } else { dec_nat((n / 10) as nat).push(digit((n % 10) as nat)) });
}

/// Decimal text of an unsigned value (`u128::to_string`, `u64::to_string`, ...).
pub fn fmt_u128(n: u128) -> (s: String)
    ensures
        s@ == dec_nat(n as nat),
{
    let mut s = String::new();
    push_dec(&mut s, n);
    assert(s@ =~= dec_nat(n as nat));
    s
}

/// Decimal text of a signed value (`i128::to_string`, `i64::to_string`, ...).
pub fn fmt_i128(n: i128) -> (s: String)
    ensures
        s@ == dec_int(n as int),
{
    let mut s = String::new();
    if n < 0 {
        push_char(&mut s, '-');
        let m: u128 = if n == i128::MIN {
            (i128::MAX as u128) + 1
        } else {
            (-n) as u128
        };
        push_dec(&mut s, m);
    } else {
        push_dec(&mut s, n as u128);
    }
    assert(s@ =~= dec_int(n as int));
    s
}

/// Appends the two hex digits of a byte.
pub fn push_hex_byte(s: &mut String, b: u8)
    ensures
        final(s)@ == old(s)@ + hex_byte(b),
{
    push_char(s, hex_digit_char((b / 16) as u64));
    push_char(s, hex_digit_char((b % 16) as u64));
    assert(final(s)@ =~= old(s)@ + hex_byte(b));
}

/// Lower-case hex text of a byte sequence.
pub fn hex_of(bytes: &[u8]) -> (s: String)
    ensures
        s@ == hex_seq(bytes@),
{
    let mut s = String::new();
    let n = bytes.len();
    for i in 0..n
        invariant
            n == bytes.len(),
            s@ == hex_seq(bytes@.take(i as int)),
    {
        push_hex_byte(&mut s, bytes[i]);
        assert(bytes@.take(i + 1).drop_last() =~= bytes@.take(i as int));
    }
    assert(bytes@.take(n as int) =~= bytes@);
    s
}

/// Appends the `k` lowest hex digits of `x`, zero-padded.
fn push_hex_fixed(s: &mut String, x: u64, k: u64)
    requires
        k <= 16,
    ensures
        final(s)@ == old(s)@ + hex_fixed(x as nat, k as nat),
    decreases k,
{
    if k > 0 {
        push_hex_fixed(s, x / 16, k - 1);
        push_char(s, hex_digit_char(x % 16));
        assert(hex_fixed(x as nat, k as nat) == hex_fixed((x / 16) as nat, (k - 1) as nat).push(hex_digit((x % 16) as nat)));
    } else {
        assert(final(s)@ =~= old(s)@ + hex_fixed(x as nat, k as nat));
    }
}

/// Appends sixteen zero-padded hex digits of a 64-bit value.
pub fn push_hex_u64(s: &mut String, x: u64)
    ensures
        final(s)@ == old(s)@ + hex_u64(x),
{
    push_hex_fixed(s, x, 16);
}

/// Joins strings with a separator (`[String]::join`).
pub fn join_strings(parts: &Vec<String>, sep: &str) -> (s: String)
    ensures
        s@ == join(parts@.map_values(|p: String| p@), sep@),
{
    let ghost views = parts@.map_values(|p: String| p@);
    let mut s = String::new();
    let n = parts.len();
    for i in 0..n
        invariant
            n == parts.len(),
            views == parts@.map_values(|p: String| p@),
            s@ == join(views.take(i as int), sep@),
    {
        if i != 0 {
            s.append(sep);
        }
        s.append(parts[i].as_str());
        assert(views.take(i + 1).drop_last() =~= views.take(i as int));
        assert(views.take(i + 1).last() == parts[i as int]@);
    }
    assert(views.take(n as int) =~= views);
    s
}

/// Decimal digits grouped by thousands with commas (`12,345,678`).
pub open spec fn grouped(n: nat) -> Seq<char>
    decreases n,
{
    if n < 1000 {
        dec_nat(n)
    } else {
        grouped(n / 1000) + seq![','] + dec_pad3(n % 1000)
    }
}

/// A text with its commas removed.
pub open spec fn drop_commas(s: Seq<char>) -> Seq<char>
    decreases s.len(),
{
    if s.len() == 0 {
        Seq::empty()
    } else {
        drop_commas(s.drop_last()) + if s.last() == ',' {
            Seq::<char>::empty()
        } else {
            seq![s.last()]
        }
    }
}

proof fn lemma_drop_commas_concat(a: Seq<char>, b: Seq<char>)
    ensures
        drop_commas(a + b) == drop_commas(a) + drop_commas(b),
    decreases b.len(),
{
    if b.len() == 0 {
        assert(a + b =~= a);
    } else {
        lemma_drop_commas_concat(a, b.drop_last());
        assert((a + b).drop_last() =~= a + b.drop_last());
        assert((a + b).last() == b.last());
    }
}

proof fn lemma_dec_digits(n: nat)
    ensures
        drop_commas(dec_nat(n)) == dec_nat(n),
    decreases n,
{
    if n >= 10 {
        lemma_dec_digits(n / 10);
        assert(dec_nat(n).drop_last() =~= dec_nat(n / 10));
        assert(dec_nat(n).last() == digit(n % 10));
        assert(digit(n % 10) as u32 == n % 10 + 48);
    } else {
        assert(dec_nat(n).drop_last() =~= Seq::<char>::empty());
        assert(drop_commas(Seq::<char>::empty()) == Seq::<char>::empty());
        assert(digit(n) as u32 == n + 48);
    }
    assert(dec_nat(n).last() != ',');
    assert(drop_commas(dec_nat(n)) =~= drop_commas(dec_nat(n).drop_last()) + seq![dec_nat(n).last()]);
    assert(dec_nat(n) =~= dec_nat(n).drop_last().push(dec_nat(n).last()));
}

proof fn lemma_dec_split(n: nat)
    requires
        n >= 1000,
    ensures
        dec_nat(n) == dec_nat(n / 1000) + dec_pad3(n % 1000),
{
    let a = n / 1000;
    let b = n % 1000;
    assert(n / 10 / 10 == n / 100);
    assert(n / 100 / 10 == a);
    assert(n / 10 >= 100 && n / 100 >= 10 && a >= 1);
    assert((n / 100) % 10 == b / 100);
    assert((n / 10) % 10 == (b / 10) % 10);
    assert(n % 10 == b % 10);
    assert(dec_nat(n) == dec_nat(n / 10).push(digit(n % 10)));
    assert(dec_nat(n / 10) == dec_nat(n / 100).push(digit((n / 10) % 10)));
    assert(dec_nat(n / 100) == dec_nat(a).push(digit((n / 100) % 10)));
    assert(b < 1000);
    let tail = seq![digit((n / 100) % 10), digit((n / 10) % 10), digit(n % 10)];
    assert(dec_nat(n) =~= dec_nat(a) + tail);
    if b < 10 {
        assert(b / 100 == 0 && (b / 10) % 10 == 0);
        assert(dec_pad3(b) =~= tail);
    } else if b < 100 {
        assert(b / 100 == 0);
        assert(b / 10 < 10);
        assert((b / 10) % 10 == b / 10);
        assert(dec_nat(b) == dec_nat(b / 10).push(digit(b % 10)));
        assert(dec_nat(b / 10) == seq![digit(b / 10)]);
        assert(dec_nat(b) =~= seq![digit(b / 10), digit(b % 10)]);
        assert(dec_pad3(b) =~= tail);
    } else {
        assert(b / 10 / 10 == b / 100);
        assert(b / 10 >= 10 && b / 100 < 10);
        assert(dec_nat(b) == dec_nat(b / 10).push(digit(b % 10)));
        assert(dec_nat(b / 10) == dec_nat(b / 100).push(digit((b / 10) % 10)));
        assert(dec_nat(b) =~= seq![digit(b / 100), digit((b / 10) % 10), digit(b % 10)]);
        assert(dec_pad3(b) =~= tail);
    }
}

/// Grouping by thousands only adds commas: without them, the grouped text
/// is the plain decimal text.
pub proof fn lemma_grouped_digits(n: nat)
    ensures
        drop_commas(grouped(n)) == dec_nat(n),
    decreases n,
{
    if n < 1000 {
        lemma_dec_digits(n);
    } else {
        lemma_grouped_digits(n / 1000);
        lemma_drop_commas_concat(grouped(n / 1000) + seq![','], dec_pad3(n % 1000));
        lemma_drop_commas_concat(grouped(n / 1000), seq![',']);
        assert(drop_commas(seq![',']) =~= Seq::<char>::empty()) by {
            assert(seq![','].drop_last() =~= Seq::<char>::empty());
            assert(drop_commas(Seq::<char>::empty()) == Seq::<char>::empty());
        }
        let b = n % 1000;
        if b < 10 {
            lemma_drop_commas_concat(seq!['0', '0'], dec_nat(b));
            assert(drop_commas(seq!['0', '0']) =~= seq!['0', '0']) by {
                assert(seq!['0', '0'].drop_last() =~= seq!['0']);
                assert(seq!['0'].drop_last() =~= Seq::<char>::empty());
                assert(drop_commas(Seq::<char>::empty()) == Seq::<char>::empty());
                assert(drop_commas(seq!['0']) =~= seq!['0']);
            }
        } else if b < 100 {
            lemma_drop_commas_concat(seq!['0'], dec_nat(b));
            assert(drop_commas(seq!['0']) =~= seq!['0']) by {
                assert(seq!['0'].drop_last() =~= Seq::<char>::empty());
                assert(drop_commas(Seq::<char>::empty()) == Seq::<char>::empty());
            }
        }
        lemma_dec_digits(b);
        lemma_dec_split(n);
    }
}

/// Appends `n` (below 1000) left-padded with zeros to three digits.
pub fn push_dec_pad3(s: &mut String, n: u64)
    requires
        n < 1000,
    ensures
        final(s)@ == old(s)@ + dec_pad3(n as nat),
{
    if n < 10 {
        push_char(s, '0');
        push_char(s, '0');
    } else if n < 100 {
        push_char(s, '0');
    }
    push_dec(s, n as u128);
    assert(final(s)@ =~= old(s)@ + dec_pad3(n as nat));
}

/// Appends `n` in decimal, grouped by thousands with commas.
pub fn push_grouped(s: &mut String, n: u64)
    ensures
        final(s)@ == old(s)@ + grouped(n as nat),
    decreases n,
{
    if n < 1000 {
        push_dec(s, n as u128);
    } else {
        push_grouped(s, n / 1000);
        push_char(s, ',');
        push_dec_pad3(s, n % 1000);
        assert(final(s)@ =~= old(s)@ + grouped(n as nat));
    }
}

/// Whether `needle` occurs in `hay` (`str::contains`).
pub fn str_contains(hay: &str, needle: &str) -> (r: bool)
    ensures
        r == seq_contains(hay@, needle@),
{
    let h = chars_of(hay);
    let n = chars_of(needle);
    contains(h.as_slice(), n.as_slice())
}

} // verus!
