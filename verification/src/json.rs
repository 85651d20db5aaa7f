//! A JSON document model, the shape of the values that RPC clients hand in
//! and that the decoders produce.
//!
//! Objects keep their keys sorted and unique, as a `serde_json` map does, so
//! that two documents with the same members are equal and print alike.

use vstd::prelude::*;
use crate::text::{push_char, append, chars_of, eq_chars, fmt_i128, push_hex_byte, hex_byte, dec_int};

verus! {

/// A JSON value.
#[derive(Debug, PartialEq)]
pub enum Json {
    Null,
    Bool(bool),
    /// An integer within the `i64` / `u64` range.
    Number(i128),
    /// A non-integral number, carried as its decimal text.
    Float(String),
    String(String),
    Array(Vec<Json>),
    /// Members sorted by key, keys unique.
    Object(Vec<(String, Json)>),
}

/// The mathematical value of a [`Json`] document.
pub enum JsonV {
    Null,
    Bool(bool),
    Number(int),
    Float(Seq<char>),
    String(Seq<char>),
    Array(Seq<JsonV>),
    Object(Seq<(Seq<char>, JsonV)>),
}

impl Json {
    /// The value of this document.
    pub open spec fn v(self) -> JsonV
        decreases self, 0nat,
    {
        match self {
            Json::Null => JsonV::Null,
            Json::Bool(b) => JsonV::Bool(b),
            Json::Number(n) => JsonV::Number(n as int),
            Json::Float(t) => JsonV::Float(t@),
            Json::String(s) => JsonV::String(s@),
            Json::Array(items) => JsonV::Array(Json::vs(items@)),
            Json::Object(members) => JsonV::Object(Json::vm(members@)),
        }
    }

    /// The values of a sequence of documents.
    pub open spec fn vs(s: Seq<Json>) -> Seq<JsonV>
        decreases s, s.len(),
    {
        if s.len() == 0 {
            Seq::empty()
        } else {
            Json::vs(s.drop_last()).push(s.last().v())
        }
    }

    /// The values of a sequence of object members.
    pub open spec fn vm(s: Seq<(String, Json)>) -> Seq<(Seq<char>, JsonV)>
        decreases s, s.len(),
    {
        if s.len() == 0 {
            Seq::empty()
        } else {
            Json::vm(s.drop_last()).push((s.last().0@, s.last().1.v()))
        }
    }
}


// ---------------------------------------------------------------------------
// Object members: sorted insertion and lookup
// ---------------------------------------------------------------------------

/// Lexicographic order on character sequences by code point (the order of
/// `str` and of the keys of a `serde_json` map).
pub open spec fn lex_lt(a: Seq<char>, b: Seq<char>) -> bool
    decreases a.len(),
{
    if a.len() == 0 {
        b.len() > 0
    } else if b.len() == 0 {
        false
    } else if a[0] != b[0] {
        (a[0] as u32) < (b[0] as u32)
    } else {
        lex_lt(a.drop_first(), b.drop_first())
    }
}

/// The members after inserting `k: v` into sorted members `m`: an existing
/// member with key `k` has its value replaced, otherwise the member is placed
/// before the first greater key (`serde_json::Map::insert`).
pub open spec fn obj_insert(m: Seq<(Seq<char>, JsonV)>, k: Seq<char>, v: JsonV) -> Seq<(Seq<char>, JsonV)>
    decreases m.len(),
{
    if m.len() == 0 {
        seq![(k, v)]
    } else if m[0].0 == k {
        seq![(k, v)] + m.drop_first()
    } else if lex_lt(k, m[0].0) {
        seq![(k, v)] + m
    } else {
        seq![m[0]] + obj_insert(m.drop_first(), k, v)
    }
}

/// The value of the first member with key `k` (`serde_json::Map::get`).
pub open spec fn obj_get(m: Seq<(Seq<char>, JsonV)>, k: Seq<char>) -> Option<JsonV>
    decreases m.len(),
{
    if m.len() == 0 {
        None
    } else if m[0].0 == k {
        Some(m[0].1)
    } else {
        obj_get(m.drop_first(), k)
    }
}

/// Member lookup on a value: `None` unless it is an object holding `k`.
pub open spec fn get_v(j: JsonV, k: Seq<char>) -> Option<JsonV> {
    match j {
        JsonV::Object(m) => obj_get(m, k),
        _ => None,
    }
}

/// `serde_json::Value::as_str`.
pub open spec fn as_str_v(j: Option<JsonV>) -> Option<Seq<char>> {
    match j {
        Some(JsonV::String(s)) => Some(s),
        _ => None,
    }
}

/// `serde_json::Value::as_u64`.
pub open spec fn as_u64_v(j: Option<JsonV>) -> Option<u64> {
    match j {
        Some(JsonV::Number(n)) => if 0 <= n && n <= u64::MAX {
            Some(n as u64)
        } else {
            None
        },
        _ => None,
    }
}

/// `serde_json::Value::as_i64`.
pub open spec fn as_i64_v(j: Option<JsonV>) -> Option<i64> {
    match j {
        Some(JsonV::Number(n)) => if i64::MIN <= n && n <= i64::MAX {
            Some(n as i64)
        } else {
            None
        },
        _ => None,
    }
}

/// `serde_json::Value::as_array`, on values.
pub open spec fn as_array_v(j: Option<JsonV>) -> Option<Seq<JsonV>> {
    match j {
        Some(JsonV::Array(items)) => Some(items),
        _ => None,
    }
}

/// `serde_json::Value::as_object`, on values.
pub open spec fn as_object_v(j: Option<JsonV>) -> Option<Seq<(Seq<char>, JsonV)>> {
    match j {
        Some(JsonV::Object(m)) => Some(m),
        _ => None,
    }
}

/// An optional document's value.
pub open spec fn opt_v(j: Option<&Json>) -> Option<JsonV> {
    match j {
        Some(x) => Some(x.v()),
        None => None,
    }
}

/// `a < b` in the order of [`lex_lt`].
pub fn chars_lt(a: &[char], b: &[char]) -> (r: bool)
    ensures
        r == lex_lt(a@, b@),
{
    let mut i: usize = 0;
    assert(a@.skip(0) =~= a@);
    assert(b@.skip(0) =~= b@);
    while i < a.len() && i < b.len()
        invariant
            i <= a.len(),
            i <= b.len(),
            lex_lt(a@, b@) == lex_lt(a@.skip(i as int), b@.skip(i as int)),
        decreases a.len() - i,
    {
        if a[i] != b[i] {
            assert(a@.skip(i as int)[0] == a@[i as int]);
            assert(b@.skip(i as int)[0] == b@[i as int]);
            return (a[i] as u32) < (b[i] as u32);
        }
        assert(a@.skip(i as int).drop_first() =~= a@.skip(i + 1));
        assert(b@.skip(i as int).drop_first() =~= b@.skip(i + 1));
        i = i + 1;
    }
    i < b.len()
}

impl Json {
    /// Inserts or replaces a member of an object, keeping keys sorted.
    pub fn insert_member(members: Vec<(String, Json)>, k: String, v: Json) -> (r: Vec<(String, Json)>)
        ensures
            Json::vm(r@) == obj_insert(Json::vm(members@), k@, v.v()),
    {
        let ghost m0 = Json::vm(members@);
        let ghost target = obj_insert(m0, k@, v.v());
        let mut rest = members;
        let mut done: Vec<(String, Json)> = Vec::new();
        let kc = chars_of(k.as_str());
        loop
            invariant
                kc@ == k@,
                target == obj_insert(m0, k@, v.v()),
                m0 == Json::vm(members@),
                target == Json::vm(done@) + obj_insert(Json::vm(rest@), k@, v.v()),
            decreases rest.len(),
        {
            if rest.len() == 0 {
                proof { Json::lemma_vm_push(done@, (k, v)); }
                done.push((k, v));
                assert(Json::vm(done@) =~= target);
                return done;
            }
            let ghost before = rest@;
            let (mk, mv) = rest.remove(0);
            proof {
                Json::lemma_vm_first(before);
                let m = Json::vm(before);
                assert(m.drop_first() =~= Json::vm(rest@));
                assert(m[0] == (mk@, mv.v()));
            }
            let mc = chars_of(mk.as_str());
            if eq_chars(mc.as_slice(), kc.as_slice()) {
                proof { Json::lemma_vm_push(done@, (k, v)); }
                done.push((k, v));
                proof { Json::lemma_vm_append(done@, rest@); }
                done.append(&mut rest);
                assert(Json::vm(done@) =~= target);
                return done;
            } else if chars_lt(kc.as_slice(), mc.as_slice()) {
                proof { Json::lemma_vm_push(done@, (k, v)); }
                done.push((k, v));
                proof { Json::lemma_vm_push(done@, (mk, mv)); }
                done.push((mk, mv));
                proof { Json::lemma_vm_append(done@, rest@); }
                done.append(&mut rest);
                assert(Json::vm(done@) =~= target);
                return done;
            } else {
                proof { Json::lemma_vm_push(done@, (mk, mv)); }
                done.push((mk, mv));
            }
        }
    }

    /// `vs` is element-wise.
    pub proof fn lemma_vs(s: Seq<Json>)
        ensures
            Json::vs(s).len() == s.len(),
            forall|i: int| 0 <= i < s.len() ==> #[trigger] Json::vs(s)[i] == s[i].v(),
        decreases s.len(),
    {
        if s.len() > 0 {
            Json::lemma_vs(s.drop_last());
        }
    }

    /// `vm` is element-wise.
    pub proof fn lemma_vm(s: Seq<(String, Json)>)
        ensures
            Json::vm(s).len() == s.len(),
            forall|i: int| 0 <= i < s.len() ==> #[trigger] Json::vm(s)[i] == (s[i].0@, s[i].1.v()),
        decreases s.len(),
    {
        if s.len() > 0 {
            Json::lemma_vm(s.drop_last());
        }
    }

    proof fn lemma_vm_push(s: Seq<(String, Json)>, e: (String, Json))
        ensures
            Json::vm(s.push(e)) == Json::vm(s).push((e.0@, e.1.v())),
    {
        assert(s.push(e).drop_last() =~= s);
    }

    proof fn lemma_vm_first(s: Seq<(String, Json)>)
        requires
            s.len() > 0,
        ensures
            Json::vm(s) == seq![(s[0].0@, s[0].1.v())] + Json::vm(s.drop_first()),
        decreases s.len(),
    {
        if s.len() > 1 {
            Json::lemma_vm_first(s.drop_last());
            assert(s.drop_last().drop_first() =~= s.drop_first().drop_last());
        } else {
            assert(s.drop_last() =~= Seq::<(String, Json)>::empty());
            assert(s.drop_first() =~= Seq::<(String, Json)>::empty());
        }
        assert(Json::vm(s) =~= seq![(s[0].0@, s[0].1.v())] + Json::vm(s.drop_first()));
    }

    proof fn lemma_vm_append(a: Seq<(String, Json)>, b: Seq<(String, Json)>)
        ensures
            Json::vm(a + b) == Json::vm(a) + Json::vm(b),
        decreases b.len(),
    {
        if b.len() == 0 {
            assert(a + b =~= a);
            assert(Json::vm(b) =~= Seq::<(Seq<char>, JsonV)>::empty());
            assert(Json::vm(a) + Json::vm(b) =~= Json::vm(a));
        } else {
            Json::lemma_vm_append(a, b.drop_last());
            assert((a + b).drop_last() =~= a + b.drop_last());
            assert((a + b).last() == b.last());
            assert(Json::vm(a + b) =~= Json::vm(a) + Json::vm(b));
        }
    }
}

// ---------------------------------------------------------------------------
// Compact serialization (`serde_json::to_string`)
// ---------------------------------------------------------------------------

/// The escaped form of one character inside a JSON string literal.
pub open spec fn escape_char(c: char) -> Seq<char> {
    if c == '"' {
        seq!['\\', '"']
    } else if c == '\\' {
        seq!['\\', '\\']
    } else if c == '\n' {
        seq!['\\', 'n']
    } else if c == '\r' {
        seq!['\\', 'r']
    } else if c == '\t' {
        seq!['\\', 't']
    } else if (c as u32) == 8 {
        seq!['\\', 'b']
    } else if (c as u32) == 12 {
        seq!['\\', 'f']
    } else if (c as u32) < 32 {
        seq!['\\', 'u', '0', '0'] + hex_byte((c as u32) as u8)
    } else {
        seq![c]
    }
}

/// The escaped characters of a string.
pub open spec fn escape_seq(s: Seq<char>) -> Seq<char>
    decreases s.len(),
{
    if s.len() == 0 {
        Seq::empty()
    } else {
        escape_seq(s.drop_last()) + escape_char(s.last())
    }
}

/// A JSON string literal.
pub open spec fn quoted(s: Seq<char>) -> Seq<char> {
    seq!['"'] + escape_seq(s) + seq!['"']
}

/// Compact JSON text of a value, as `serde_json::to_string` prints it.
pub open spec fn render(j: JsonV) -> Seq<char>
    decreases j, 1nat,
{
    match j {
        JsonV::Null => seq!['n', 'u', 'l', 'l'],
        JsonV::Bool(b) => if b {
            seq!['t', 'r', 'u', 'e']
        } else {
            seq!['f', 'a', 'l', 's', 'e']
        },
        JsonV::Number(n) => dec_int(n),
        JsonV::Float(t) => t,
        JsonV::String(s) => quoted(s),
        JsonV::Array(items) => seq!['['] + render_items(items) + seq![']'],
        JsonV::Object(members) => seq!['{'] + render_members(members) + seq!['}'],
    }
}

/// Array elements separated by commas.
pub open spec fn render_items(items: Seq<JsonV>) -> Seq<char>
    decreases items, 0nat,
{
    if items.len() == 0 {
        Seq::empty()
    } else if items.len() == 1 {
        render(items[0])
    } else {
        render_items(items.drop_last()) + seq![','] + render(items.last())
    }
}

/// Object members `"key":value` separated by commas.
pub open spec fn render_members(members: Seq<(Seq<char>, JsonV)>) -> Seq<char>
    decreases members, 0nat,
{
    if members.len() == 0 {
        Seq::empty()
    } else if members.len() == 1 {
        quoted(members[0].0) + seq![':'] + render(members[0].1)
    } else {
        render_members(members.drop_last()) + seq![','] + quoted(members.last().0) + seq![':']
            + render(members.last().1)
    }
}

/// Appends the escaped characters of a string literal body.
pub fn push_escaped(out: &mut String, s: &str)
    ensures
        final(out)@ == old(out)@ + escape_seq(s@),
{
    let cs = chars_of(s);
    let n = cs.len();
    for i in 0..n
        invariant
            n == cs.len(),
            cs@ == s@,
            out@ == old(out)@ + escape_seq(cs@.take(i as int)),
    {
        let c = cs[i];
        let ghost before = out@;
        let u = c as u32;
        if c == '"' {
            push_char(out, '\\');
            push_char(out, '"');
        } else if c == '\\' {
            push_char(out, '\\');
            push_char(out, '\\');
        } else if c == '\n' {
            push_char(out, '\\');
            push_char(out, 'n');
        } else if c == '\r' {
            push_char(out, '\\');
            push_char(out, 'r');
        } else if c == '\t' {
            push_char(out, '\\');
            push_char(out, 't');
        } else if u == 8 {
            push_char(out, '\\');
            push_char(out, 'b');
        } else if u == 12 {
            push_char(out, '\\');
            push_char(out, 'f');
        } else if u < 32 {
            push_char(out, '\\');
            push_char(out, 'u');
            push_char(out, '0');
            push_char(out, '0');
            let b: u8 = u as u8;
            push_hex_byte(out, b);
        } else {
            push_char(out, c);
        }
        assert(out@ =~= before + escape_char(c));
        assert(cs@.take(i + 1).drop_last() =~= cs@.take(i as int));
    }
    assert(cs@.take(n as int) =~= cs@);
}

/// Appends a JSON string literal.
pub fn push_quoted(out: &mut String, s: &str)
    ensures
        final(out)@ == old(out)@ + quoted(s@),
{
    push_char(out, '"');
    push_escaped(out, s);
    push_char(out, '"');
    assert(final(out)@ =~= old(out)@ + quoted(s@));
}

impl Json {
    /// Appends the compact JSON text of this value.
    pub fn write_compact(&self, out: &mut String)
        ensures
            final(out)@ == old(out)@ + render(self.v()),
        decreases self,
    {
        match self {
            Json::Null => {
                append(out, "null");
                proof { reveal_strlit("null"); }
                assert(final(out)@ =~= old(out)@ + render(self.v()));
            },
            Json::Bool(b) => {
                if *b {
                    append(out, "true");
                    proof { reveal_strlit("true"); }
                } else {
                    append(out, "false");
                    proof { reveal_strlit("false"); }
                }
                assert(final(out)@ =~= old(out)@ + render(self.v()));
            },
            Json::Number(n) => {
                let t = fmt_i128(*n);
                append(out, t.as_str());
            },
            Json::Float(t) => {
                append(out, t.as_str());
            },
            Json::String(s) => {
                push_quoted(out, s.as_str());
            },
            Json::Array(items) => {
                push_char(out, '[');
                let ghost start = out@;
                let n = items.len();
                for i in 0..n
                    invariant
                        n == items.len(),
                        *self == Json::Array(*items),
                        out@ == start + render_items(Json::vs(items@.take(i as int))),
                {
                    if i > 0 {
                        push_char(out, ',');
                    }
                    proof {
                        assert(decreases_to!(*self => self->Array_0));
                        assert(decreases_to!(*items => items[i as int]));
                    }
                    items[i].write_compact(out);
                    proof {
                        let t = items@.take(i + 1);
                        assert(t.drop_last() =~= items@.take(i as int));
                        assert(Json::vs(t).drop_last() =~= Json::vs(items@.take(i as int)));
                        if i == 0 {
                            assert(Json::vs(items@.take(i as int)) =~= Seq::<JsonV>::empty());
                        }
                    }
                    assert(out@ =~= start + render_items(Json::vs(items@.take(i + 1))));
                }
                assert(items@.take(n as int) =~= items@);
                push_char(out, ']');
                assert(final(out)@ =~= old(out)@ + render(self.v()));
            },
            Json::Object(members) => {
                push_char(out, '{');
                let ghost start = out@;
                let n = members.len();
                for i in 0..n
                    invariant
                        n == members.len(),
                        *self == Json::Object(*members),
                        out@ == start + render_members(Json::vm(members@.take(i as int))),
                {
                    if i > 0 {
                        push_char(out, ',');
                    }
                    push_quoted(out, members[i].0.as_str());
                    push_char(out, ':');
                    proof {
                        assert(decreases_to!(*self => self->Object_0));
                        assert(decreases_to!(*members => members[i as int]));
                        assert(decreases_to!(members[i as int] => members[i as int].1));
                    }
                    members[i].1.write_compact(out);
                    proof {
                        let t = members@.take(i + 1);
                        assert(t.drop_last() =~= members@.take(i as int));
                        assert(Json::vm(t).drop_last() =~= Json::vm(members@.take(i as int)));
                        if i == 0 {
                            assert(Json::vm(members@.take(i as int)) =~= Seq::<(Seq<char>, JsonV)>::empty());
                        }
                    }
                    assert(out@ =~= start + render_members(Json::vm(members@.take(i + 1))));
                }
                assert(members@.take(n as int) =~= members@);
                push_char(out, '}');
                assert(final(out)@ =~= old(out)@ + render(self.v()));
            },
        }
    }

    /// Compact JSON text of this value (`serde_json::to_string`).
    pub fn to_compact_string(&self) -> (s: String)
        ensures
            s@ == render(self.v()),
    {
        let mut s = String::new();
        self.write_compact(&mut s);
        assert(s@ =~= render(self.v()));
        s
    }
}

impl Json {
    /// The member `key` of an object; `None` for a missing key or a value
    /// that is not an object (`serde_json::Value::get` with a string key).
    pub fn get(&self, key: &str) -> (r: Option<&Json>)
        ensures
            opt_v(r) == get_v(self.v(), key@),
    {
        match self {
            Json::Object(members) => {
                proof { Json::lemma_vm(members@); }
                let ghost m = Json::vm(members@);
                let n = members.len();
                assert(m.skip(0) =~= m);
                for i in 0..n
                    invariant
                        self.v() == JsonV::Object(m),
                        n == members.len(),
                        m == Json::vm(members@),
                        m.len() == n,
                        forall|k: int| 0 <= k < n ==> #[trigger] m[k] == (members@[k].0@, members@[k].1.v()),
                        obj_get(m, key@) == obj_get(m.skip(i as int), key@),
                {
                    let ghost rest = m.skip(i as int);
                    assert(rest[0] == m[i as int]);
                    assert(rest.drop_first() =~= m.skip(i + 1));
                    if crate::text::str_eq(members[i].0.as_str(), key) {
                        assert(rest.len() > 0 && rest[0].0 == key@);
                        assert(obj_get(rest, key@) == Some(rest[0].1));
                        return Some(&members[i].1);
                    }
                }
                assert(m.skip(n as int) =~= Seq::<(Seq<char>, JsonV)>::empty());
                None
            },
            _ => None,
        }
    }

    /// The items of an array (`serde_json::Value::as_array`).
    pub fn as_array(&self) -> (r: Option<&Vec<Json>>)
        ensures
            match r {
                Some(items) => as_array_v(Some(self.v())) == Some(Json::vs(items@)),
                None => as_array_v(Some(self.v())) is None,
            },
    {
        match self {
            Json::Array(items) => Some(items),
            _ => None,
        }
    }

    /// The members of an object (`serde_json::Value::as_object`).
    pub fn as_object(&self) -> (r: Option<&Vec<(String, Json)>>)
        ensures
            match r {
                Some(m) => as_object_v(Some(self.v())) == Some(Json::vm(m@)),
                None => as_object_v(Some(self.v())) is None,
            },
    {
        match self {
            Json::Object(m) => Some(m),
            _ => None,
        }
    }

    /// The text of a string (`serde_json::Value::as_str`).
    pub fn as_str(&self) -> (r: Option<&String>)
        ensures
            match r {
                Some(t) => as_str_v(Some(self.v())) == Some(t@),
                None => as_str_v(Some(self.v())) is None,
            },
    {
        match self {
            Json::String(t) => Some(t),
            _ => None,
        }
    }

    /// A non-negative integer (`serde_json::Value::as_u64`).
    pub fn as_u64(&self) -> (r: Option<u64>)
        ensures
            r == as_u64_v(Some(self.v())),
    {
        match self {
            Json::Number(n) => if 0 <= *n && *n <= 0xffff_ffff_ffff_ffff {
                Some(*n as u64)
            } else {
                None
            },
            _ => None,
        }
    }

    /// An integer in the `i64` range (`serde_json::Value::as_i64`).
    pub fn as_i64(&self) -> (r: Option<i64>)
        ensures
            r == as_i64_v(Some(self.v())),
    {
        match self {
            Json::Number(n) => if -0x8000_0000_0000_0000 <= *n && *n <= 0x7fff_ffff_ffff_ffff {
                Some(*n as i64)
            } else {
                None
            },
            _ => None,
        }
    }
}


/// Reading a member back after setting it gives what was set; every other
/// member reads as before.
pub proof fn lemma_insert_then_get(m: Seq<(Seq<char>, JsonV)>, k: Seq<char>, v: JsonV, k2: Seq<char>)
    ensures
        obj_get(obj_insert(m, k, v), k2) == if k2 == k {
            Some(v)
        } else {
            obj_get(m, k2)
        },
    decreases m.len(),
{
    if m.len() == 0 {
        assert(seq![(k, v)].drop_first() =~= Seq::<(Seq<char>, JsonV)>::empty());
    } else {
        let r = obj_insert(m, k, v);
        if m[0].0 == k {
            assert((seq![(k, v)] + m.drop_first()).drop_first() =~= m.drop_first());
        } else if lex_lt(k, m[0].0) {
            assert((seq![(k, v)] + m).drop_first() =~= m);
        } else {
            lemma_insert_then_get(m.drop_first(), k, v, k2);
            assert((seq![m[0]] + obj_insert(m.drop_first(), k, v)).drop_first() =~= obj_insert(m.drop_first(), k, v));
        }
    }
}

} // verus!
