//! Decoding of contract values into JSON, guided by contract type
//! specifications when they are known.

use vstd::prelude::*;
use crate::json::{Json, JsonV, lex_lt, obj_insert, render};
use crate::scval::{
    ContractEnumDef, ContractFunction, ContractSpec, ContractStructDef, ContractStructField, ContractUnionCase,
    ContractUnionDef, ScAddressValue, ScErrorValue, ScErrorCodeValue, ScErrorKind, ScMapEntry, ScValue, SpecType,
};
use crate::strkey::{address_text, address_to_string};
use crate::text::{str_eq, append, dec_int, dec_nat, fmt_i128, fmt_u128, hex_fixed, hex_of, hex_seq, push_hex_u64};

verus! {

// ---------------------------------------------------------------------------
// Text of leaf values
// ---------------------------------------------------------------------------

/// Name of a host error kind.
pub open spec fn error_kind_text(k: ScErrorKind) -> Seq<char> {
    match k {
        ScErrorKind::WasmVm => "WasmVm"@,
        ScErrorKind::Context => "Context"@,
        ScErrorKind::Storage => "Storage"@,
        ScErrorKind::Object => "Object"@,
        ScErrorKind::Crypto => "Crypto"@,
        ScErrorKind::Events => "Events"@,
        ScErrorKind::Budget => "Budget"@,
        ScErrorKind::Value => "Value"@,
        ScErrorKind::Auth => "Auth"@,
    }
}

/// Name of a host error code.
pub open spec fn error_code_text(c: ScErrorCodeValue) -> Seq<char> {
    match c {
        ScErrorCodeValue::ArithDomain => "ArithDomain"@,
        ScErrorCodeValue::IndexBounds => "IndexBounds"@,
        ScErrorCodeValue::InvalidInput => "InvalidInput"@,
        ScErrorCodeValue::MissingValue => "MissingValue"@,
        ScErrorCodeValue::ExistingValue => "ExistingValue"@,
        ScErrorCodeValue::ExceededLimit => "ExceededLimit"@,
        ScErrorCodeValue::InvalidAction => "InvalidAction"@,
        ScErrorCodeValue::InternalError => "InternalError"@,
        ScErrorCodeValue::UnexpectedType => "UnexpectedType"@,
        ScErrorCodeValue::UnexpectedSize => "UnexpectedSize"@,
    }
}

/// Debug text of an error value, e.g. `Contract(7)` or `Budget(ExceededLimit)`.
pub open spec fn error_text(e: ScErrorValue) -> Seq<char> {
    match e {
        ScErrorValue::Contract(c) => "Contract("@ + dec_nat(c as nat) + ")"@,
        ScErrorValue::Host(k, c) => error_kind_text(k) + "("@ + error_code_text(c) + ")"@,
    }
}

/// The unsigned value of the bit pattern of an `i64`.
pub open spec fn twos64(x: i64) -> nat {
    if x < 0 {
        (x + 0x1_0000_0000_0000_0000) as nat
    } else {
        x as nat
    }
}

/// `0x` followed by four zero-padded 16-digit hex words.
pub open spec fn hex256_text(a: nat, b: nat, c: nat, d: nat) -> Seq<char> {
    "0x"@ + hex_fixed(a, 16) + hex_fixed(b, 16) + hex_fixed(c, 16) + hex_fixed(d, 16)
}

/// The value of a 128-bit unsigned integer given by its halves.
pub open spec fn u128_value(hi: u64, lo: u64) -> nat {
    (hi as nat) * 0x1_0000_0000_0000_0000 + (lo as nat)
}

/// The value of a 128-bit signed integer given by its halves.
pub open spec fn i128_value(hi: i64, lo: u64) -> int {
    (hi as int) * 0x1_0000_0000_0000_0000 + (lo as int)
}

/// Debug text of the values that have no JSON shape of their own.
pub open spec fn debug_text(val: ScValue) -> Seq<char> {
    match val {
        ScValue::Vec(None) => "Vec(None)"@,
        ScValue::MapEntries(None) => "Map(None)"@,
        ScValue::Other(t) => t@,
        _ => Seq::empty(),
    }
}

// ---------------------------------------------------------------------------
// Dynamic decoding (no type information)
// ---------------------------------------------------------------------------

/// Accumulator of a map decoding: object members for string keys, whether
/// every key was a string, and `[key, value]` pairs for the other keys.
pub type MapAcc = (Seq<(Seq<char>, JsonV)>, bool, Seq<JsonV>);

/// One entry folded into a map accumulator.
pub open spec fn map_step(acc: MapAcc, k: JsonV, v: JsonV) -> MapAcc {
    match k {
        JsonV::String(ks) => (obj_insert(acc.0, ks, v), acc.1, acc.2),
        _ => (acc.0, false, acc.2.push(JsonV::Array(seq![k, v]))),
    }
}

/// The JSON of a folded map: an object when all keys were strings, else the
/// array of the pairs with non-string keys.
pub open spec fn map_result(acc: MapAcc) -> JsonV {
    if acc.1 {
        JsonV::Object(acc.0)
    } else {
        JsonV::Array(acc.2)
    }
}

/// The empty accumulator.
pub open spec fn map_start() -> MapAcc {
    (Seq::empty(), true, Seq::empty())
}

/// JSON of a value without type information.
pub open spec fn dynamic(val: ScValue) -> JsonV
    decreases val, 1nat,
{
    match val {
        ScValue::Void => JsonV::Null,
        ScValue::Bool(b) => JsonV::Bool(b),
        ScValue::U32(u) => JsonV::Number(u as int),
        ScValue::I32(i) => JsonV::Number(i as int),
        ScValue::U64(u) => JsonV::Number(u as int),
        ScValue::I64(i) => JsonV::Number(i as int),
        ScValue::Timepoint(t) => JsonV::Number(t as int),
        ScValue::Duration(d) => JsonV::Number(d as int),
        ScValue::U128 { hi, lo } => JsonV::String(dec_nat(u128_value(hi, lo))),
        ScValue::I128 { hi, lo } => JsonV::String(dec_int(i128_value(hi, lo))),
        ScValue::U256 { hi_hi, hi_lo, lo_hi, lo_lo } => JsonV::String(
            hex256_text(hi_hi as nat, hi_lo as nat, lo_hi as nat, lo_lo as nat),
        ),
        ScValue::I256 { hi_hi, hi_lo, lo_hi, lo_lo } => JsonV::String(
            hex256_text(twos64(hi_hi), hi_lo as nat, lo_hi as nat, lo_lo as nat),
        ),
        ScValue::Bytes(b) => JsonV::String("0x"@ + hex_seq(b@)),
        ScValue::String(s) => JsonV::String(s@),
        ScValue::Symbol(s) => JsonV::String(s@),
        ScValue::Address(a) => JsonV::String(address_text(a)),
        ScValue::Error(e) => JsonV::String(error_text(e)),
        ScValue::Vec(Some(v)) => JsonV::Array(dynamic_seq(v@)),
        ScValue::MapEntries(Some(m)) => map_result(dynamic_map(m@)),
        _ => JsonV::String(debug_text(val)),
    }
}

/// Dynamic JSON of each element.
pub open spec fn dynamic_seq(s: Seq<ScValue>) -> Seq<JsonV>
    decreases s, 0nat,
{
    if s.len() == 0 {
        Seq::empty()
    } else {
        dynamic_seq(s.drop_last()).push(dynamic(s.last()))
    }
}

/// Dynamic decoding folded over map entries.
pub open spec fn dynamic_map(s: Seq<ScMapEntry>) -> MapAcc
    decreases s, 0nat,
{
    if s.len() == 0 {
        map_start()
    } else {
        map_step(dynamic_map(s.drop_last()), dynamic(s.last().key), dynamic(s.last().val))
    }
}

// ---------------------------------------------------------------------------
// Typed decoding
// ---------------------------------------------------------------------------

/// Size of an optional type specification (a termination measure).
pub open spec fn tsize(td: Option<SpecType>) -> nat {
    match td {
        Some(t) => tsize_t(t),
        None => 0,
    }
}

/// Nesting depth of `Option` specifications, plus one.
pub open spec fn tsize_t(t: SpecType) -> nat
    decreases t,
{
    match t {
        SpecType::Option(inner) => 1 + tsize_t(*inner),
        _ => 1,
    }
}

/// The optional type of element `i` of a sequence: the uniform type, or the
/// `i`-th of the indexed types (none past their end).
pub open spec fn elem_type(uniform: Option<SpecType>, indexed: Seq<SpecType>, use_index: bool, i: int) -> Option<SpecType> {
    if use_index {
        if 0 <= i < indexed.len() {
            Some(indexed[i])
        } else {
            None
        }
    } else {
        uniform
    }
}

/// Index of the first element satisfying `p`, or -1.
pub open spec fn find_first<A>(s: Seq<A>, p: spec_fn(A) -> bool) -> int
    decreases s.len(),
{
    if s.len() == 0 {
        -1
    } else if p(s[0]) {
        0
    } else {
        let r = find_first(s.drop_first(), p);
        if r < 0 { -1 } else { r + 1 }
    }
}

/// `find_first` is the least index satisfying `p`, or -1 when none does.
pub proof fn lemma_find_first<A>(s: Seq<A>, p: spec_fn(A) -> bool, i: int)
    requires
        0 <= i <= s.len(),
        forall|j: int| 0 <= j < i ==> !p(s[j]),
    ensures
        i < s.len() && p(s[i]) ==> find_first(s, p) == i,
        i == s.len() ==> find_first(s, p) == -1,
    decreases i,
{
    if i > 0 {
        lemma_find_first(s.drop_first(), p, i - 1);
    }
}

/// Index of the first struct named `name`, or -1.
pub open spec fn find_struct(s: Seq<ContractStructDef>, name: Seq<char>) -> int {
    find_first(s, |d: ContractStructDef| d.name@ == name)
}

/// Index of the first enum named `name`, or -1.
pub open spec fn find_enum(s: Seq<ContractEnumDef>, name: Seq<char>) -> int {
    find_first(s, |d: ContractEnumDef| d.name@ == name)
}

/// Index of the first union named `name`, or -1.
pub open spec fn find_union(s: Seq<ContractUnionDef>, name: Seq<char>) -> int {
    find_first(s, |d: ContractUnionDef| d.name@ == name)
}

/// Index of the first union case named `name`, or -1.
pub open spec fn find_case(s: Seq<ContractUnionCase>, name: Seq<char>) -> int {
    find_first(s, |d: ContractUnionCase| d.name@ == name)
}

/// The text of a symbol or string value.
pub open spec fn key_text(v: ScValue) -> Option<Seq<char>> {
    match v {
        ScValue::Symbol(s) => Some(s@),
        ScValue::String(s) => Some(s@),
        _ => None,
    }
}

/// Index of the first entry whose key is a symbol or string equal to `name`, or -1.
pub open spec fn find_entry(s: Seq<ScMapEntry>, name: Seq<char>) -> int {
    find_first(s, |e: ScMapEntry| key_text(e.key) == Some(name))
}

/// Name of the first enum case with value `u`, if any.
pub open spec fn enum_case_name(cases: Seq<crate::scval::ContractEnumCase>, u: u32) -> Option<Seq<char>>
    decreases cases.len(),
{
    if cases.len() == 0 {
        None
    } else if cases[0].value == u {
        Some(cases[0].name@)
    } else {
        enum_case_name(cases.drop_first(), u)
    }
}

/// JSON of an integer-enum value.
pub open spec fn decode_enum_v(val: ScValue, e: ContractEnumDef) -> JsonV {
    match val {
        ScValue::Symbol(s) => JsonV::String(s@),
        ScValue::String(s) => JsonV::String(s@),
        ScValue::U32(u) => match enum_case_name(e.cases@, u) {
            Some(n) => JsonV::String(n),
            None => JsonV::Number(u as int),
        },
        ScValue::I32(i) => if i >= 0 {
            match enum_case_name(e.cases@, i as u32) {
                Some(n) => JsonV::String(n),
                None => JsonV::Number(i as int),
            }
        } else {
            dynamic(val)
        },
        _ => dynamic(val),
    }
}

/// A single-member object.
pub open spec fn single(k: Seq<char>, v: JsonV) -> JsonV {
    JsonV::Object(seq![(k, v)])
}

/// JSON of a value of type `td`, or `None` where decoding fails (a union
/// value naming an unknown case and carrying no payload).
pub open spec fn decode_v(val: ScValue, td: Option<SpecType>, cs: Option<ContractSpec>) -> Option<JsonV>
    decreases val, tsize(td), 2nat,
{
    match td {
        None => Some(dynamic(val)),
        Some(t) => match t {
            SpecType::Void => Some(JsonV::Null),
            SpecType::Option(inner) => match val {
                ScValue::Void => Some(JsonV::Null),
                ScValue::Vec(Some(v)) => if v@.len() == 0 {
                    Some(JsonV::Null)
                } else if v@.len() == 1 {
                    decode_v(v@[0], Some(*inner), cs)
                } else {
                    decode_v(val, Some(*inner), cs)
                },
                _ => decode_v(val, Some(*inner), cs),
            },
            SpecType::Result(ok, err) => match val {
                ScValue::Vec(Some(v)) => if v@.len() == 2 {
                    match v@[0] {
                        ScValue::Symbol(sym) => if sym@ == "Ok"@ {
                            match decode_v(v@[1], Some(*ok), cs) {
                                Some(x) => Some(single("Ok"@, x)),
                                None => None,
                            }
                        } else if sym@ == "Err"@ {
                            match decode_v(v@[1], Some(*err), cs) {
                                Some(x) => Some(single("Err"@, x)),
                                None => None,
                            }
                        } else {
                            Some(dynamic(val))
                        },
                        _ => Some(dynamic(val)),
                    }
                } else {
                    Some(dynamic(val))
                },
                ScValue::Error(e) => Some(single("Err"@, JsonV::String(error_text(e)))),
                _ => Some(dynamic(val)),
            },
            SpecType::Vec(elem) => match val {
                ScValue::Vec(Some(v)) => match decode_seq(v@, Some(*elem), Seq::empty(), false, cs) {
                    Some(items) => Some(JsonV::Array(items)),
                    None => None,
                },
                _ => Some(dynamic(val)),
            },
            SpecType::Tuple(tds) => match val {
                ScValue::Vec(Some(v)) => match decode_seq(v@, None, tds@, true, cs) {
                    Some(items) => Some(JsonV::Array(items)),
                    None => None,
                },
                _ => Some(dynamic(val)),
            },
            SpecType::MapOf(kt, vt) => match val {
                ScValue::MapEntries(Some(m)) => match decode_map(m@, *kt, *vt, cs) {
                    Some(acc) => Some(map_result(acc)),
                    None => None,
                },
                _ => Some(dynamic(val)),
            },
            SpecType::Udt(name) => match cs {
                Some(c) => if 0 <= find_struct(c.structs@, name@) < c.structs@.len() {
                    decode_struct_v(val, c.structs@[find_struct(c.structs@, name@)], c)
                } else if 0 <= find_enum(c.enums@, name@) < c.enums@.len() {
                    Some(decode_enum_v(val, c.enums@[find_enum(c.enums@, name@)]))
                } else if 0 <= find_union(c.unions@, name@) < c.unions@.len() {
                    decode_union_v(val, c.unions@[find_union(c.unions@, name@)], c)
                } else {
                    Some(dynamic(val))
                },
                None => Some(dynamic(val)),
            },
            _ => Some(dynamic(val)),
        },
    }
}

proof fn lemma_first_case_name(cases: Seq<crate::scval::ContractEnumCase>, k: int)
    requires
        0 <= k < cases.len(),
        forall|j: int| 0 <= j < k ==> cases[j].value != cases[k].value,
    ensures
        enum_case_name(cases, cases[k].value) == Some(cases[k].name@),
    decreases k,
{
    if k > 0 {
        assert(cases.drop_first()[k - 1] == cases[k]);
        assert forall|j: int| 0 <= j < k - 1 implies (#[trigger] cases.drop_first()[j]).value != cases.drop_first()[k - 1].value by {
            assert(cases.drop_first()[j] == cases[j + 1]);
        }
        lemma_first_case_name(cases.drop_first(), k - 1);
    }
}

/// A contract's integer enum decodes a `u32` (or a non-negative `i32`) to
/// the name of its first case with that value: when `name` names no struct
/// and enum `e` is the first of that name, the value of its case `k`, which
/// no earlier case shares, decodes to the JSON string of case `k`'s name.
pub proof fn lemma_enum_value_decodes_to_case_name(name: String, c: ContractSpec, e: int, k: int)
    requires
        forall|j: int| 0 <= j < c.structs@.len() ==> c.structs@[j].name@ != name@,
        0 <= e < c.enums@.len(),
        c.enums@[e].name@ == name@,
        forall|j: int| 0 <= j < e ==> c.enums@[j].name@ != name@,
        0 <= k < c.enums@[e].cases@.len(),
        forall|j: int| 0 <= j < k ==> c.enums@[e].cases@[j].value != c.enums@[e].cases@[k].value,
    ensures
        decode_v(ScValue::U32(c.enums@[e].cases@[k].value), Some(SpecType::Udt(name)), Some(c)) == Some(
            JsonV::String(c.enums@[e].cases@[k].name@),
        ),
        c.enums@[e].cases@[k].value <= i32::MAX ==> decode_v(
            ScValue::I32(c.enums@[e].cases@[k].value as i32),
            Some(SpecType::Udt(name)),
            Some(c),
        ) == Some(JsonV::String(c.enums@[e].cases@[k].name@)),
{
    lemma_find_first(c.structs@, |d: ContractStructDef| d.name@ == name@, c.structs@.len() as int);
    lemma_find_first(c.enums@, |d: ContractEnumDef| d.name@ == name@, e);
    lemma_first_case_name(c.enums@[e].cases@, k);
}

/// Typed JSON of each element of a sequence.
pub open spec fn decode_seq(
    s: Seq<ScValue>,
    uniform: Option<SpecType>,
    indexed: Seq<SpecType>,
    use_index: bool,
    cs: Option<ContractSpec>,
) -> Option<Seq<JsonV>>
    decreases s, 0nat, s.len(),
{
    if s.len() == 0 {
        Some(Seq::empty())
    } else {
        match decode_seq(s.drop_last(), uniform, indexed, use_index, cs) {
            Some(prev) => match decode_v(s.last(), elem_type(uniform, indexed, use_index, s.len() - 1), cs) {
                Some(x) => Some(prev.push(x)),
                None => None,
            },
            None => None,
        }
    }
}

/// Typed decoding folded over map entries.
pub open spec fn decode_map(s: Seq<ScMapEntry>, kt: SpecType, vt: SpecType, cs: Option<ContractSpec>) -> Option<MapAcc>
    decreases s, 0nat, s.len(),
{
    if s.len() == 0 {
        Some(map_start())
    } else {
        match decode_map(s.drop_last(), kt, vt, cs) {
            Some(acc) => match (decode_v(s.last().key, Some(kt), cs), decode_v(s.last().val, Some(vt), cs)) {
                (Some(k), Some(v)) => Some(map_step(acc, k, v)),
                _ => None,
            },
            None => None,
        }
    }
}

/// Object members for struct fields looked up by name among map entries
/// (missing fields are `null`).
pub open spec fn fields_from_map(m: Seq<ScMapEntry>, fields: Seq<ContractStructField>, c: ContractSpec) -> Option<Seq<(Seq<char>, JsonV)>>
    decreases m, 0nat, fields.len(),
{
    if fields.len() == 0 {
        Some(Seq::empty())
    } else {
        let f = fields.last();
        match fields_from_map(m, fields.drop_last(), c) {
            Some(prev) => {
                let j = find_entry(m, f.name@);
                if 0 <= j < m.len() {
                    match decode_v(m[j].val, f.type_def, Some(c)) {
                        Some(x) => Some(obj_insert(prev, f.name@, x)),
                        None => None,
                    }
                } else {
                    Some(obj_insert(prev, f.name@, JsonV::Null))
                }
            },
            None => None,
        }
    }
}

/// Object members for struct fields taken by position from `items`
/// (missing fields are `null`).
pub open spec fn fields_from_seq(items: Seq<ScValue>, fields: Seq<ContractStructField>, c: ContractSpec) -> Option<Seq<(Seq<char>, JsonV)>>
    decreases items, 0nat, fields.len(),
{
    if fields.len() == 0 {
        Some(Seq::empty())
    } else {
        let i = fields.len() - 1;
        let f = fields.last();
        match fields_from_seq(items, fields.drop_last(), c) {
            Some(prev) => if i < items.len() {
                match decode_v(items[i], f.type_def, Some(c)) {
                    Some(x) => Some(obj_insert(prev, f.name@, x)),
                    None => None,
                }
            } else {
                Some(obj_insert(prev, f.name@, JsonV::Null))
            },
            None => None,
        }
    }
}

/// JSON of a struct value given as a map (fields by name) or a vector
/// (fields by position).
pub open spec fn decode_struct_v(val: ScValue, sd: ContractStructDef, c: ContractSpec) -> Option<JsonV>
    decreases val, 0nat, 1nat,
{
    match val {
        ScValue::MapEntries(Some(m)) => match fields_from_map(m@, sd.fields@, c) {
            Some(members) => Some(JsonV::Object(members)),
            None => None,
        },
        ScValue::Vec(Some(v)) => match fields_from_seq(v@, sd.fields@, c) {
            Some(members) => Some(JsonV::Object(members)),
            None => None,
        },
        _ => Some(dynamic(val)),
    }
}

/// JSON of a union value: a bare case name, or `{case: payload}`.
pub open spec fn decode_union_v(val: ScValue, ud: ContractUnionDef, c: ContractSpec) -> Option<JsonV>
    decreases val, 0nat, 1nat,
{
    match val {
        ScValue::Symbol(sym) => Some(JsonV::String(sym@)),
        ScValue::Vec(Some(v)) => if v@.len() == 0 {
            Some(dynamic(val))
        } else {
            match key_text(v@[0]) {
                None => Some(dynamic(val)),
                Some(name) => {
                    let k = find_case(ud.cases@, name);
                    let rest = v@.subrange(1, v@.len() as int);
                    if 0 <= k < ud.cases@.len() {
                        let case = ud.cases@[k];
                        match case.value_types {
                            Some(tds) => match decode_seq(rest, None, tds@, true, Some(c)) {
                                Some(payload) => if payload.len() == 1 {
                                    Some(single(name, payload[0]))
                                } else {
                                    Some(single(name, JsonV::Array(payload)))
                                },
                                None => None,
                            },
                            None => match case.fields {
                                Some(fs) => match fields_from_seq(rest, fs@, c) {
                                    Some(members) => Some(single(name, JsonV::Object(members))),
                                    None => None,
                                },
                                None => Some(JsonV::String(name)),
                            },
                        }
                    } else if v@.len() >= 2 {
                        Some(single(name, dynamic(v@[1])))
                    } else {
                        None
                    }
                },
            }
        },
        _ => Some(dynamic(val)),
    }
}

// ---------------------------------------------------------------------------
// Executable decoding
// ---------------------------------------------------------------------------

/// Text of an error value (`format!("{e:?}")`).
pub fn error_to_string(e: &ScErrorValue) -> (s: String)
    ensures
        s@ == error_text(*e),
{
    let mut s = String::new();
    match e {
        ScErrorValue::Contract(c) => {
            append(&mut s, "Contract(");
            let d = fmt_u128(*c as u128);
            append(&mut s, d.as_str());
            append(&mut s, ")");
        },
        ScErrorValue::Host(k, c) => {
            let kt = match k {
                ScErrorKind::WasmVm => "WasmVm",
                ScErrorKind::Context => "Context",
                ScErrorKind::Storage => "Storage",
                ScErrorKind::Object => "Object",
                ScErrorKind::Crypto => "Crypto",
                ScErrorKind::Events => "Events",
                ScErrorKind::Budget => "Budget",
                ScErrorKind::Value => "Value",
                ScErrorKind::Auth => "Auth",
            };
            let ct = match c {
                ScErrorCodeValue::ArithDomain => "ArithDomain",
                ScErrorCodeValue::IndexBounds => "IndexBounds",
                ScErrorCodeValue::InvalidInput => "InvalidInput",
                ScErrorCodeValue::MissingValue => "MissingValue",
                ScErrorCodeValue::ExistingValue => "ExistingValue",
                ScErrorCodeValue::ExceededLimit => "ExceededLimit",
                ScErrorCodeValue::InvalidAction => "InvalidAction",
                ScErrorCodeValue::InternalError => "InternalError",
                ScErrorCodeValue::UnexpectedType => "UnexpectedType",
                ScErrorCodeValue::UnexpectedSize => "UnexpectedSize",
            };
            append(&mut s, kt);
            append(&mut s, "(");
            append(&mut s, ct);
            append(&mut s, ")");
        },
    }
    assert(s@ =~= error_text(*e));
    s
}

/// `0x` and four 16-digit hex words.
fn hex256_string(a: u64, b: u64, c: u64, d: u64) -> (s: String)
    ensures
        s@ == hex256_text(a as nat, b as nat, c as nat, d as nat),
{
    let mut s = String::new();
    append(&mut s, "0x");
    push_hex_u64(&mut s, a);
    push_hex_u64(&mut s, b);
    push_hex_u64(&mut s, c);
    push_hex_u64(&mut s, d);
    assert(s@ =~= hex256_text(a as nat, b as nat, c as nat, d as nat));
    s
}

/// The bit pattern of an `i64` as a `u64`.
fn bits64(x: i64) -> (r: u64)
    ensures
        r as nat == twos64(x),
{
    if x < 0 {
        ((x as i128) + 0x1_0000_0000_0000_0000i128) as u64
    } else {
        x as u64
    }
}

/// The JSON of a two-element array.
fn pair_array(k: Json, v: Json) -> (r: Json)
    ensures
        r.v() == JsonV::Array(seq![k.v(), v.v()]),
{
    let ghost kv = k.v();
    let ghost vv = v.v();
    let mut items: Vec<Json> = Vec::new();
    items.push(k);
    let ghost one = items@;
    assert(one.drop_last() =~= Seq::<Json>::empty());
    assert(Json::vs(one.drop_last()) =~= Seq::<JsonV>::empty());
    assert(one.last().v() == kv);
    assert(Json::vs(one) =~= seq![kv]);
    items.push(v);
    assert(items@.drop_last() =~= one);
    assert(items@.last().v() == vv);
    assert(Json::vs(items@) =~= seq![kv, vv]);
    Json::Array(items)
}

/// One map entry folded into the accumulator, executably.
fn map_step_exec(
    members: Vec<(String, Json)>,
    all_strings: bool,
    mut pairs: Vec<Json>,
    k: Json,
    v: Json,
) -> (r: (Vec<(String, Json)>, bool, Vec<Json>))
    ensures
        (Json::vm(r.0@), r.1, Json::vs(r.2@)) == map_step((Json::vm(members@), all_strings, Json::vs(pairs@)), k.v(), v.v()),
{
    match k {
        Json::String(ks) => {
            let m = Json::insert_member(members, ks, v);
            (m, all_strings, pairs)
        },
        other => {
            let ghost old_pairs = pairs@;
            let a = pair_array(other, v);
            pairs.push(a);
            assert(pairs@.drop_last() =~= old_pairs);
            (members, false, pairs)
        },
    }
}

/// The JSON of a folded map.
fn map_result_exec(members: Vec<(String, Json)>, all_strings: bool, pairs: Vec<Json>) -> (r: Json)
    ensures
        r.v() == map_result((Json::vm(members@), all_strings, Json::vs(pairs@))),
{
    if all_strings {
        Json::Object(members)
    } else {
        Json::Array(pairs)
    }
}

/// Decodes contract values into JSON using type specifications when given.
#[derive(Debug, Clone, Copy, Default)]
pub struct ReturnValueDecoder;

impl ReturnValueDecoder {
    /// A decoder.
    pub fn new() -> (r: Self) {
        ReturnValueDecoder
    }

    /// JSON of a value without type information.
    pub fn decode_dynamic(val: &ScValue) -> (r: Json)
        ensures
            r.v() == dynamic(*val),
        decreases val, 1nat,
    {
        match val {
            ScValue::Void => Json::Null,
            ScValue::Bool(b) => Json::Bool(*b),
            ScValue::U32(u) => Json::Number(*u as i128),
            ScValue::I32(i) => Json::Number(*i as i128),
            ScValue::U64(u) => Json::Number(*u as i128),
            ScValue::I64(i) => Json::Number(*i as i128),
            ScValue::Timepoint(t) => Json::Number(*t as i128),
            ScValue::Duration(d) => Json::Number(*d as i128),
            ScValue::U128 { hi, lo } => {
                let n: u128 = (*hi as u128) * 0x1_0000_0000_0000_0000u128 + (*lo as u128);
                Json::String(fmt_u128(n))
            },
            ScValue::I128 { hi, lo } => {
                let n: i128 = (*hi as i128) * 0x1_0000_0000_0000_0000i128 + (*lo as i128);
                Json::String(fmt_i128(n))
            },
            ScValue::U256 { hi_hi, hi_lo, lo_hi, lo_lo } => Json::String(
                hex256_string(*hi_hi, *hi_lo, *lo_hi, *lo_lo),
            ),
            ScValue::I256 { hi_hi, hi_lo, lo_hi, lo_lo } => Json::String(
                hex256_string(bits64(*hi_hi), *hi_lo, *lo_hi, *lo_lo),
            ),
            ScValue::Bytes(b) => {
                let mut s = String::new();
                append(&mut s, "0x");
                let h = hex_of(b.as_slice());
                append(&mut s, h.as_str());
                Json::String(s)
            },
            ScValue::String(t) => Json::String(t.clone()),
            ScValue::Symbol(t) => Json::String(t.clone()),
            ScValue::Address(a) => Json::String(address_to_string(a)),
            ScValue::Error(e) => Json::String(error_to_string(e)),
            ScValue::Vec(Some(v)) => {
                let mut items: Vec<Json> = Vec::new();
                let n = v.len();
                for i in 0..n
                    invariant
                        n == v.len(),
                        *val == ScValue::Vec(Some(*v)),
                        Json::vs(items@) == dynamic_seq(v@.take(i as int)),
                {
                    proof {
                        assert(decreases_to!(*val => val->Vec_0));
                        assert(decreases_to!(val->Vec_0 => val->Vec_0->Some_0));
                        assert(decreases_to!(*v => v[i as int]));
                    }
                    let x = Self::decode_dynamic(&v[i]);
                    let ghost before = items@;
                    items.push(x);
                    assert(items@.drop_last() =~= before);
                    assert(v@.take(i + 1).drop_last() =~= v@.take(i as int));
                }
                assert(v@.take(n as int) =~= v@);
                Json::Array(items)
            },
            ScValue::MapEntries(Some(m)) => {
                let mut members: Vec<(String, Json)> = Vec::new();
                let mut all_strings = true;
                let mut pairs: Vec<Json> = Vec::new();
                let n = m.len();
                for i in 0..n
                    invariant
                        n == m.len(),
                        *val == ScValue::MapEntries(Some(*m)),
                        (Json::vm(members@), all_strings, Json::vs(pairs@)) == dynamic_map(m@.take(i as int)),
                {
                    proof {
                        assert(decreases_to!(*val => val->MapEntries_0));
                        assert(decreases_to!(val->MapEntries_0 => val->MapEntries_0->Some_0));
                        assert(decreases_to!(*m => m[i as int]));
                        assert(decreases_to!(m[i as int] => m[i as int].key));
                        assert(decreases_to!(m[i as int] => m[i as int].val));
                    }
                    let k = Self::decode_dynamic(&m[i].key);
                    let v = Self::decode_dynamic(&m[i].val);
                    let r = map_step_exec(members, all_strings, pairs, k, v);
                    members = r.0;
                    all_strings = r.1;
                    pairs = r.2;
                    assert(m@.take(i + 1).drop_last() =~= m@.take(i as int));
                }
                assert(m@.take(n as int) =~= m@);
                map_result_exec(members, all_strings, pairs)
            },
            ScValue::Vec(None) => Json::String(String::from_str("Vec(None)")),
            ScValue::MapEntries(None) => Json::String(String::from_str("Map(None)")),
            ScValue::Other(t) => Json::String(t.clone()),
        }
    }
}


/// The values of an optional document.
pub open spec fn opt_v(o: Option<Json>) -> Option<JsonV> {
    match o {
        Some(j) => Some(j.v()),
        None => None,
    }
}

/// An optional reference, dereferenced.
pub open spec fn od<T>(o: Option<&T>) -> Option<T> {
    match o {
        Some(x) => Some(*x),
        None => None,
    }
}

/// Index of the first struct named `name`.
fn find_struct_exec(s: &Vec<ContractStructDef>, name: &str) -> (r: Option<usize>)
    ensures
        match r {
            Some(i) => i < s.len() && find_struct(s@, name@) == i,
            None => find_struct(s@, name@) == -1,
        },
{
    let n = s.len();
    for i in 0..n
        invariant
            n == s.len(),
            forall|j: int| 0 <= j < i ==> !(|d: ContractStructDef| d.name@ == name@)(s@[j]),
    {
        if str_eq(s[i].name.as_str(), name) {
            proof { lemma_find_first(s@, |d: ContractStructDef| d.name@ == name@, i as int); }
            return Some(i);
        }
    }
    proof { lemma_find_first(s@, |d: ContractStructDef| d.name@ == name@, n as int); }
    None
}

/// Index of the first enum named `name`.
fn find_enum_exec(s: &Vec<ContractEnumDef>, name: &str) -> (r: Option<usize>)
    ensures
        match r {
            Some(i) => i < s.len() && find_enum(s@, name@) == i,
            None => find_enum(s@, name@) == -1,
        },
{
    let n = s.len();
    for i in 0..n
        invariant
            n == s.len(),
            forall|j: int| 0 <= j < i ==> !(|d: ContractEnumDef| d.name@ == name@)(s@[j]),
    {
        if str_eq(s[i].name.as_str(), name) {
            proof { lemma_find_first(s@, |d: ContractEnumDef| d.name@ == name@, i as int); }
            return Some(i);
        }
    }
    proof { lemma_find_first(s@, |d: ContractEnumDef| d.name@ == name@, n as int); }
    None
}

/// Index of the first union named `name`.
fn find_union_exec(s: &Vec<ContractUnionDef>, name: &str) -> (r: Option<usize>)
    ensures
        match r {
            Some(i) => i < s.len() && find_union(s@, name@) == i,
            None => find_union(s@, name@) == -1,
        },
{
    let n = s.len();
    for i in 0..n
        invariant
            n == s.len(),
            forall|j: int| 0 <= j < i ==> !(|d: ContractUnionDef| d.name@ == name@)(s@[j]),
    {
        if str_eq(s[i].name.as_str(), name) {
            proof { lemma_find_first(s@, |d: ContractUnionDef| d.name@ == name@, i as int); }
            return Some(i);
        }
    }
    proof { lemma_find_first(s@, |d: ContractUnionDef| d.name@ == name@, n as int); }
    None
}

/// Index of the first union case named `name`.
fn find_case_exec(s: &Vec<ContractUnionCase>, name: &str) -> (r: Option<usize>)
    ensures
        match r {
            Some(i) => i < s.len() && find_case(s@, name@) == i,
            None => find_case(s@, name@) == -1,
        },
{
    let n = s.len();
    for i in 0..n
        invariant
            n == s.len(),
            forall|j: int| 0 <= j < i ==> !(|d: ContractUnionCase| d.name@ == name@)(s@[j]),
    {
        if str_eq(s[i].name.as_str(), name) {
            proof { lemma_find_first(s@, |d: ContractUnionCase| d.name@ == name@, i as int); }
            return Some(i);
        }
    }
    proof { lemma_find_first(s@, |d: ContractUnionCase| d.name@ == name@, n as int); }
    None
}

/// The text of a symbol or string value.
fn key_text_exec(v: &ScValue) -> (r: Option<&str>)
    ensures
        match r {
            Some(t) => key_text(*v) == Some(t@),
            None => key_text(*v) is None,
        },
{
    match v {
        ScValue::Symbol(s) => Some(s.as_str()),
        ScValue::String(s) => Some(s.as_str()),
        _ => None,
    }
}

/// Index of the first entry keyed by `name`.
fn find_entry_exec(s: &Vec<ScMapEntry>, name: &str) -> (r: Option<usize>)
    ensures
        match r {
            Some(i) => i < s.len() && find_entry(s@, name@) == i,
            None => find_entry(s@, name@) == -1,
        },
{
    let n = s.len();
    for i in 0..n
        invariant
            n == s.len(),
            forall|j: int| 0 <= j < i ==> !(|e: ScMapEntry| key_text(e.key) == Some(name@))(s@[j]),
    {
        match key_text_exec(&s[i].key) {
            Some(t) => {
                if str_eq(t, name) {
                    proof { lemma_find_first(s@, |e: ScMapEntry| key_text(e.key) == Some(name@), i as int); }
                    return Some(i);
                }
            },
            None => {},
        }
    }
    proof { lemma_find_first(s@, |e: ScMapEntry| key_text(e.key) == Some(name@), n as int); }
    None
}

/// Name of the first enum case with value `u`.
fn enum_case_name_exec(cases: &Vec<crate::scval::ContractEnumCase>, u: u32) -> (r: Option<String>)
    ensures
        opt_seq(r) == enum_case_name(cases@, u),
{
    let n = cases.len();
    assert(cases@.skip(0) =~= cases@);
    for i in 0..n
        invariant
            n == cases.len(),
            enum_case_name(cases@, u) == enum_case_name(cases@.skip(i as int), u),
    {
        assert(cases@.skip(i as int)[0] == cases@[i as int]);
        assert(cases@.skip(i as int).drop_first() =~= cases@.skip(i + 1));
        if cases[i].value == u {
            return Some(cases[i].name.clone());
        }
    }
    None
}

/// The views of an optional string.
pub open spec fn opt_seq(o: Option<String>) -> Option<Seq<char>> {
    match o {
        Some(s) => Some(s@),
        None => None,
    }
}

/// JSON of an integer-enum value.
fn decode_enum(val: &ScValue, e: &ContractEnumDef) -> (r: Json)
    ensures
        r.v() == decode_enum_v(*val, *e),
{
    match val {
        ScValue::Symbol(s) => Json::String(s.clone()),
        ScValue::String(s) => Json::String(s.clone()),
        ScValue::U32(u) => match enum_case_name_exec(&e.cases, *u) {
            Some(n) => Json::String(n),
            None => Json::Number(*u as i128),
        },
        ScValue::I32(i) => {
            if *i >= 0 {
                match enum_case_name_exec(&e.cases, *i as u32) {
                    Some(n) => Json::String(n),
                    None => Json::Number(*i as i128),
                }
            } else {
                ReturnValueDecoder::decode_dynamic(val)
            }
        },
        _ => ReturnValueDecoder::decode_dynamic(val),
    }
}

/// A single-member object.
fn single_exec(k: String, v: Json) -> (r: Json)
    ensures
        r.v() == single(k@, v.v()),
{
    let ghost kv = k@;
    let ghost vv = v.v();
    let mut m: Vec<(String, Json)> = Vec::new();
    m.push((k, v));
    assert(m@.drop_last() =~= Seq::<(String, Json)>::empty());
    assert(Json::vm(m@.drop_last()) =~= Seq::<(Seq<char>, JsonV)>::empty());
    assert(Json::vm(m@) =~= seq![(kv, vv)]);
    Json::Object(m)
}

impl ReturnValueDecoder {
    /// JSON of `val` of type `td`, or `None` where typed decoding cannot
    /// proceed: a union value naming a case the union does not declare and
    /// carrying no payload (see [`decode_v`]).
    pub fn decode_value(val: &ScValue, td: Option<&SpecType>, cs: Option<&ContractSpec>) -> (r: Option<Json>)
        ensures
            opt_v(r) == decode_v(*val, od(td), od(cs)),
        decreases *val, tsize(od(td)), 2nat,
    {
        let t = match td {
            None => { return Some(Self::decode_dynamic(val)); },
            Some(t) => t,
        };
        match t {
            SpecType::Void => Some(Json::Null),
            SpecType::Option(inner) => {
                match val {
                    ScValue::Void => Some(Json::Null),
                    ScValue::Vec(Some(v)) => {
                        if v.len() == 0 {
                            Some(Json::Null)
                        } else if v.len() == 1 {
                            proof {
                                assert(decreases_to!(*val => val->Vec_0));
                                assert(decreases_to!(val->Vec_0 => val->Vec_0->Some_0));
                                assert(decreases_to!(*v => v[0]));
                            }
                            Self::decode_value(&v[0], Some(&**inner), cs)
                        } else {
                            Self::decode_value(val, Some(&**inner), cs)
                        }
                    },
                    _ => Self::decode_value(val, Some(&**inner), cs),
                }
            },
            SpecType::Result(ok, err) => {
                match val {
                    ScValue::Vec(Some(v)) => {
                        if v.len() == 2 {
                            proof {
                                assert(decreases_to!(*val => val->Vec_0));
                                assert(decreases_to!(val->Vec_0 => val->Vec_0->Some_0));
                                assert(decreases_to!(*v => v[1]));
                            }
                            match &v[0] {
                                ScValue::Symbol(sym) => {
                                    if str_eq(sym.as_str(), "Ok") {
                                        match Self::decode_value(&v[1], Some(&**ok), cs) {
                                            Some(x) => Some(single_exec(String::from_str("Ok"), x)),
                                            None => None,
                                        }
                                    } else if str_eq(sym.as_str(), "Err") {
                                        match Self::decode_value(&v[1], Some(&**err), cs) {
                                            Some(x) => Some(single_exec(String::from_str("Err"), x)),
                                            None => None,
                                        }
                                    } else {
                                        Some(Self::decode_dynamic(val))
                                    }
                                },
                                _ => Some(Self::decode_dynamic(val)),
                            }
                        } else {
                            Some(Self::decode_dynamic(val))
                        }
                    },
                    ScValue::Error(e) => Some(single_exec(String::from_str("Err"), Json::String(error_to_string(e)))),
                    _ => Some(Self::decode_dynamic(val)),
                }
            },
            SpecType::Vec(elem) => {
                match val {
                    ScValue::Vec(Some(v)) => {
                        proof {
                            assert(decreases_to!(*val => val->Vec_0));
                            assert(decreases_to!(val->Vec_0 => val->Vec_0->Some_0));
                        }
                        assert(v@.subrange(0, v@.len() as int) =~= v@);
                        let empty: Vec<SpecType> = Vec::new();
                        match Self::decode_items(v, 0, Some(&**elem), &empty, false, cs) {
                            Some(items) => Some(Json::Array(items)),
                            None => None,
                        }
                    },
                    _ => Some(Self::decode_dynamic(val)),
                }
            },
            SpecType::Tuple(tds) => {
                match val {
                    ScValue::Vec(Some(v)) => {
                        proof {
                            assert(decreases_to!(*val => val->Vec_0));
                            assert(decreases_to!(val->Vec_0 => val->Vec_0->Some_0));
                        }
                        assert(v@.subrange(0, v@.len() as int) =~= v@);
                        match Self::decode_items(v, 0, None, tds, true, cs) {
                            Some(items) => Some(Json::Array(items)),
                            None => None,
                        }
                    },
                    _ => Some(Self::decode_dynamic(val)),
                }
            },
            SpecType::MapOf(kt, vt) => {
                match val {
                    ScValue::MapEntries(Some(m)) => {
                        proof {
                            assert(decreases_to!(*val => val->MapEntries_0));
                            assert(decreases_to!(val->MapEntries_0 => val->MapEntries_0->Some_0));
                        }
                        Self::decode_map_entries(m, &**kt, &**vt, cs)
                    },
                    _ => Some(Self::decode_dynamic(val)),
                }
            },
            SpecType::Udt(name) => {
                match cs {
                    Some(c) => {
                        match find_struct_exec(&c.structs, name.as_str()) {
                            Some(i) => Self::decode_struct(val, &c.structs[i], c),
                            None => match find_enum_exec(&c.enums, name.as_str()) {
                                Some(i) => Some(decode_enum(val, &c.enums[i])),
                                None => match find_union_exec(&c.unions, name.as_str()) {
                                    Some(i) => Self::decode_union(val, &c.unions[i], c),
                                    None => Some(Self::decode_dynamic(val)),
                                },
                            },
                        }
                    },
                    None => Some(Self::decode_dynamic(val)),
                }
            },
            _ => Some(Self::decode_dynamic(val)),
        }
    }

    /// Typed JSON of `v[start..]`, element `i` of it typed by `uniform` or by
    /// `indexed[i]`.
    fn decode_items(
        v: &Vec<ScValue>,
        start: usize,
        uniform: Option<&SpecType>,
        indexed: &Vec<SpecType>,
        use_index: bool,
        cs: Option<&ContractSpec>,
    ) -> (r: Option<Vec<Json>>)
        requires
            start <= v.len(),
        ensures
            match r {
                Some(items) => decode_seq(v@.subrange(start as int, v@.len() as int), od(uniform), indexed@, use_index, od(cs)) == Some(Json::vs(items@)),
                None => decode_seq(v@.subrange(start as int, v@.len() as int), od(uniform), indexed@, use_index, od(cs)) is None,
            },
        decreases *v, 0nat, 0nat,
    {
        let mut items: Vec<Json> = Vec::new();
        let n = v.len();
        let mut i: usize = start;
        assert(v@.subrange(start as int, start as int) =~= Seq::<ScValue>::empty());
        while i < n
            invariant
                start <= i <= n,
                n == v.len(),
                decode_seq(v@.subrange(start as int, i as int), od(uniform), indexed@, use_index, od(cs)) == Some(Json::vs(items@)),
            decreases n - i,
        {
            let k = i - start;
            let td: Option<&SpecType> = if use_index {
                if k < indexed.len() { Some(&indexed[k]) } else { None }
            } else {
                uniform
            };
            assert(od(td) == elem_type(od(uniform), indexed@, use_index, k as int));
            proof { assert(decreases_to!(*v => v[i as int])); }
            let x = Self::decode_value(&v[i], td, cs);
            let ghost sub = v@.subrange(start as int, i + 1);
            assert(sub.drop_last() =~= v@.subrange(start as int, i as int));
            assert(sub.last() == v@[i as int]);
            match x {
                Some(x) => {
                    let ghost before = items@;
                    items.push(x);
                    assert(items@.drop_last() =~= before);
                },
                None => {
                    proof { Self::lemma_seq_none_extends(v@, start as int, i as int + 1, od(uniform), indexed@, use_index, od(cs)); }
                    return None;
                },
            }
            i = i + 1;
        }
        Some(items)
    }

    /// A failure in a prefix is a failure of the whole.
    proof fn lemma_seq_none_extends(
        v: Seq<ScValue>,
        start: int,
        j: int,
        uniform: Option<SpecType>,
        indexed: Seq<SpecType>,
        use_index: bool,
        cs: Option<ContractSpec>,
    )
        requires
            0 <= start <= j <= v.len(),
            decode_seq(v.subrange(start, j), uniform, indexed, use_index, cs) is None,
        ensures
            decode_seq(v.subrange(start, v.len() as int), uniform, indexed, use_index, cs) is None,
        decreases v.len() - j,
    {
        if j < v.len() {
            let sub = v.subrange(start, j + 1);
            assert(sub.drop_last() =~= v.subrange(start, j));
            Self::lemma_seq_none_extends(v, start, j + 1, uniform, indexed, use_index, cs);
        }
    }

    /// Typed decoding of map entries.
    fn decode_map_entries(m: &Vec<ScMapEntry>, kt: &SpecType, vt: &SpecType, cs: Option<&ContractSpec>) -> (r: Option<Json>)
        ensures
            opt_v(r) == (match decode_map(m@, *kt, *vt, od(cs)) {
                Some(acc) => Some(map_result(acc)),
                None => None,
            }),
        decreases *m, 0nat, 0nat,
    {
        let mut members: Vec<(String, Json)> = Vec::new();
        let mut all_strings = true;
        let mut pairs: Vec<Json> = Vec::new();
        let n = m.len();
        for i in 0..n
            invariant
                n == m.len(),
                decode_map(m@.take(i as int), *kt, *vt, od(cs)) == Some((Json::vm(members@), all_strings, Json::vs(pairs@))),
        {
            proof {
                assert(decreases_to!(*m => m[i as int]));
                assert(decreases_to!(m[i as int] => m[i as int].key));
                assert(decreases_to!(m[i as int] => m[i as int].val));
            }
            assert(m@.take(i + 1).drop_last() =~= m@.take(i as int));
            let k = Self::decode_value(&m[i].key, Some(kt), cs);
            let v = Self::decode_value(&m[i].val, Some(vt), cs);
            match (k, v) {
                (Some(k), Some(v)) => {
                    let r = map_step_exec(members, all_strings, pairs, k, v);
                    members = r.0;
                    all_strings = r.1;
                    pairs = r.2;
                },
                _ => {
                    proof { Self::lemma_map_none_extends(m@, i as int + 1, *kt, *vt, od(cs)); }
                    return None;
                },
            }
        }
        assert(m@.take(n as int) =~= m@);
        Some(map_result_exec(members, all_strings, pairs))
    }

    /// Struct fields looked up by name among map entries.
    fn fields_from_map_exec(m: &Vec<ScMapEntry>, fields: &Vec<ContractStructField>, c: &ContractSpec) -> (r: Option<Vec<(String, Json)>>)
        ensures
            match r {
                Some(members) => fields_from_map(m@, fields@, *c) == Some(Json::vm(members@)),
                None => fields_from_map(m@, fields@, *c) is None,
            },
        decreases *m, 0nat, 0nat,
    {
        let mut members: Vec<(String, Json)> = Vec::new();
        let n = fields.len();
        for i in 0..n
            invariant
                n == fields.len(),
                fields_from_map(m@, fields@.take(i as int), *c) == Some(Json::vm(members@)),
        {
            let f = &fields[i];
            assert(fields@.take(i + 1).drop_last() =~= fields@.take(i as int));
            assert(fields@.take(i + 1).last() == *f);
            match find_entry_exec(m, f.name.as_str()) {
                Some(j) => {
                    proof {
                        assert(decreases_to!(*m => m[j as int]));
                        assert(decreases_to!(m[j as int] => m[j as int].val));
                    }
                    match Self::decode_value(&m[j].val, f.type_def.as_ref(), Some(c)) {
                        Some(x) => {
                            members = Json::insert_member(members, f.name.clone(), x);
                        },
                        None => {
                            proof { Self::lemma_fields_map_none(m@, fields@, i as int + 1, *c); }
                            return None;
                        },
                    }
                },
                None => {
                    members = Json::insert_member(members, f.name.clone(), Json::Null);
                },
            }
        }
        assert(fields@.take(n as int) =~= fields@);
        Some(members)
    }

    proof fn lemma_fields_map_none(m: Seq<ScMapEntry>, fields: Seq<ContractStructField>, j: int, c: ContractSpec)
        requires
            0 <= j <= fields.len(),
            fields_from_map(m, fields.take(j), c) is None,
        ensures
            fields_from_map(m, fields, c) is None,
        decreases fields.len() - j,
    {
        if j < fields.len() {
            assert(fields.take(j + 1).drop_last() =~= fields.take(j));
            Self::lemma_fields_map_none(m, fields, j + 1, c);
        } else {
            assert(fields.take(j) =~= fields);
        }
    }

    /// Struct fields taken by position from `v[start..]`.
    fn fields_from_seq_exec(v: &Vec<ScValue>, start: usize, fields: &Vec<ContractStructField>, c: &ContractSpec) -> (r: Option<Vec<(String, Json)>>)
        requires
            start <= v.len(),
        ensures
            match r {
                Some(members) => fields_from_seq(v@.subrange(start as int, v@.len() as int), fields@, *c) == Some(Json::vm(members@)),
                None => fields_from_seq(v@.subrange(start as int, v@.len() as int), fields@, *c) is None,
            },
        decreases *v, 0nat, 0nat,
    {
        let ghost items = v@.subrange(start as int, v@.len() as int);
        let mut members: Vec<(String, Json)> = Vec::new();
        let n = fields.len();
        for i in 0..n
            invariant
                n == fields.len(),
                start <= v.len(),
                items == v@.subrange(start as int, v@.len() as int),
                fields_from_seq(items, fields@.take(i as int), *c) == Some(Json::vm(members@)),
        {
            let f = &fields[i];
            assert(fields@.take(i + 1).drop_last() =~= fields@.take(i as int));
            assert(fields@.take(i + 1).last() == *f);
            if i < v.len() - start {
                let k = start + i;
                assert(items[i as int] == v@[k as int]);
                proof { assert(decreases_to!(*v => v[k as int])); }
                match Self::decode_value(&v[k], f.type_def.as_ref(), Some(c)) {
                    Some(x) => {
                        members = Json::insert_member(members, f.name.clone(), x);
                    },
                    None => {
                        proof { Self::lemma_fields_seq_none(items, fields@, i as int + 1, *c); }
                        return None;
                    },
                }
            } else {
                members = Json::insert_member(members, f.name.clone(), Json::Null);
            }
        }
        assert(fields@.take(n as int) =~= fields@);
        Some(members)
    }

    proof fn lemma_fields_seq_none(items: Seq<ScValue>, fields: Seq<ContractStructField>, j: int, c: ContractSpec)
        requires
            0 <= j <= fields.len(),
            fields_from_seq(items, fields.take(j), c) is None,
        ensures
            fields_from_seq(items, fields, c) is None,
        decreases fields.len() - j,
    {
        if j < fields.len() {
            assert(fields.take(j + 1).drop_last() =~= fields.take(j));
            Self::lemma_fields_seq_none(items, fields, j + 1, c);
        } else {
            assert(fields.take(j) =~= fields);
        }
    }

    /// JSON of a struct value.
    fn decode_struct(val: &ScValue, sd: &ContractStructDef, c: &ContractSpec) -> (r: Option<Json>)
        ensures
            opt_v(r) == decode_struct_v(*val, *sd, *c),
        decreases *val, 0nat, 1nat,
    {
        match val {
            ScValue::MapEntries(Some(m)) => {
                proof {
                    assert(decreases_to!(*val => val->MapEntries_0));
                    assert(decreases_to!(val->MapEntries_0 => val->MapEntries_0->Some_0));
                }
                match Self::fields_from_map_exec(m, &sd.fields, c) {
                    Some(members) => Some(Json::Object(members)),
                    None => None,
                }
            },
            ScValue::Vec(Some(v)) => {
                proof {
                    assert(decreases_to!(*val => val->Vec_0));
                    assert(decreases_to!(val->Vec_0 => val->Vec_0->Some_0));
                }
                assert(v@.subrange(0, v@.len() as int) =~= v@);
                match Self::fields_from_seq_exec(v, 0, &sd.fields, c) {
                    Some(members) => Some(Json::Object(members)),
                    None => None,
                }
            },
            _ => Some(Self::decode_dynamic(val)),
        }
    }

    /// JSON of a union value.
    fn decode_union(val: &ScValue, ud: &ContractUnionDef, c: &ContractSpec) -> (r: Option<Json>)
        ensures
            opt_v(r) == decode_union_v(*val, *ud, *c),
        decreases *val, 0nat, 1nat,
    {
        match val {
            ScValue::Symbol(sym) => Some(Json::String(sym.clone())),
            ScValue::Vec(Some(v)) => {
                if v.len() == 0 {
                    return Some(Self::decode_dynamic(val));
                }
                let name: String = match key_text_exec(&v[0]) {
                    None => { return Some(Self::decode_dynamic(val)); },
                    Some(t) => String::from_str(t),
                };
                proof {
                    assert(decreases_to!(*val => val->Vec_0));
                    assert(decreases_to!(val->Vec_0 => val->Vec_0->Some_0));
                }
                match find_case_exec(&ud.cases, name.as_str()) {
                    Some(k) => {
                        let case = &ud.cases[k];
                        match &case.value_types {
                            Some(tds) => {
                                match Self::decode_items(v, 1, None, tds, true, Some(c)) {
                                    Some(mut payload) => {
                                        if payload.len() == 1 {
                                            let ghost pold = payload@;
                                            proof { Json::lemma_vs(pold); }
                                            let x = payload.pop().unwrap();
                                            assert(Json::vs(pold)[0] == x.v());
                                            let r = Some(single_exec(name, x));
                                            assert(opt_v(r) == decode_union_v(*val, *ud, *c));
                                            r
                                        } else {
                                            proof { Json::lemma_vs(payload@); }
                                            let r = Some(single_exec(name, Json::Array(payload)));
                                            assert(opt_v(r) == decode_union_v(*val, *ud, *c));
                                            r
                                        }
                                    },
                                    None => None,
                                }
                            },
                            None => {
                                match &case.fields {
                                    Some(fs) => {
                                        match Self::fields_from_seq_exec(v, 1, fs, c) {
                                            Some(members) => {
                                                let r = Some(single_exec(name, Json::Object(members)));
                                                assert(opt_v(r) == decode_union_v(*val, *ud, *c));
                                                r
                                            },
                                            None => None,
                                        }
                                    },
                                    None => Some(Json::String(name)),
                                }
                            },
                        }
                    },
                    None => {
                        if v.len() >= 2 {
                            let d = Self::decode_dynamic(&v[1]);
                            let r = Some(single_exec(name, d));
                            assert(opt_v(r) == decode_union_v(*val, *ud, *c));
                            r
                        } else {
                            None
                        }
                    },
                }
            },
            _ => Some(Self::decode_dynamic(val)),
        }
    }

    proof fn lemma_map_none_extends(m: Seq<ScMapEntry>, j: int, kt: SpecType, vt: SpecType, cs: Option<ContractSpec>)
        requires
            0 <= j <= m.len(),
            decode_map(m.take(j), kt, vt, cs) is None,
        ensures
            decode_map(m, kt, vt, cs) is None,
        decreases m.len() - j,
    {
        if j < m.len() {
            assert(m.take(j + 1).drop_last() =~= m.take(j));
            Self::lemma_map_none_extends(m, j + 1, kt, vt, cs);
        } else {
            assert(m.take(j) =~= m);
        }
    }
}



/// The text form of decoded JSON: a string as its characters, anything else
/// as compact JSON.
pub open spec fn text_of(j: JsonV) -> Seq<char> {
    match j {
        JsonV::String(s) => s,
        _ => render(j),
    }
}

/// Text form of decoded JSON (strings unquoted, anything else compact JSON).
pub fn json_text(j: &Json) -> (s: String)
    ensures
        s@ == text_of(j.v()),
{
    match j {
        Json::String(t) => t.clone(),
        _ => j.to_compact_string(),
    }
}

impl ReturnValueDecoder {
    /// JSON of a return value of type `type_def` (dynamic when `None`), with
    /// user-defined types looked up in `contract_spec`.
    pub fn decode(&self, val: &ScValue, type_def: Option<&SpecType>, contract_spec: Option<&ContractSpec>) -> (r: Json)
        requires
            decode_v(*val, od(type_def), od(contract_spec)) is Some,
        ensures
            decode_v(*val, od(type_def), od(contract_spec)) == Some(r.v()),
    {
        Self::decode_value(val, type_def, contract_spec).unwrap()
    }

    /// The decoded return value as text: a JSON string as its characters,
    /// anything else as compact JSON.
    pub fn decode_to_string(&self, val: &ScValue, type_def: Option<&SpecType>, contract_spec: Option<&ContractSpec>) -> (r: String)
        requires
            decode_v(*val, od(type_def), od(contract_spec)) is Some,
        ensures
            r@ == text_of(decode_v(*val, od(type_def), od(contract_spec))->Some_0),
    {
        let decoded = self.decode(val, type_def, contract_spec);
        json_text(&decoded)
    }

    /// JSON of the return value of `func`.
    pub fn decode_function_return(&self, val: &ScValue, func: &ContractFunction, contract_spec: Option<&ContractSpec>) -> (r: Json)
        requires
            decode_v(*val, func.return_type_def, od(contract_spec)) is Some,
        ensures
            decode_v(*val, func.return_type_def, od(contract_spec)) == Some(r.v()),
    {
        self.decode(val, func.return_type_def.as_ref(), contract_spec)
    }
}

} // verus!
