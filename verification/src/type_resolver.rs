//! Human-readable names of contract type specifications.

use vstd::prelude::*;
use crate::scval::SpecType;
use crate::text::{append, dec_nat, fmt_u128, join, push_char};

verus! {

/// The name of a type specification: base types by their Rust-like name,
/// containers as `Option<T>`, `Vec<T>`, `Map<K, V>`, `Result<T, E>`,
/// tuples as `(A, B)`, fixed byte arrays as `BytesN<n>`, user types by name.
pub open spec fn type_text(t: SpecType) -> Seq<char>
    decreases t, 1nat,
{
    match t {
        SpecType::Val => "Val"@,
        SpecType::Bool => "bool"@,
        SpecType::Void => "void"@,
        SpecType::Error => "Error"@,
        SpecType::U32 => "u32"@,
        SpecType::I32 => "i32"@,
        SpecType::U64 => "u64"@,
        SpecType::I64 => "i64"@,
        SpecType::Timepoint => "Timepoint"@,
        SpecType::Duration => "Duration"@,
        SpecType::U128 => "u128"@,
        SpecType::I128 => "i128"@,
        SpecType::U256 => "U256"@,
        SpecType::I256 => "I256"@,
        SpecType::Bytes => "Bytes"@,
        SpecType::String => "String"@,
        SpecType::Symbol => "Symbol"@,
        SpecType::Address => "Address"@,
        SpecType::BytesN(n) => "BytesN<"@ + dec_nat(n as nat) + ">"@,
        SpecType::Option(inner) => "Option<"@ + type_text(*inner) + ">"@,
        SpecType::Vec(elem) => "Vec<"@ + type_text(*elem) + ">"@,
        SpecType::MapOf(k, v) => "Map<"@ + type_text(*k) + ", "@ + type_text(*v) + ">"@,
        SpecType::Result(ok, err) => "Result<"@ + type_text(*ok) + ", "@ + type_text(*err) + ">"@,
        SpecType::Tuple(items) => "("@ + join(type_texts(items@), ", "@) + ")"@,
        SpecType::Udt(name) => name@,
    }
}

/// The names of a sequence of type specifications.
pub open spec fn type_texts(s: Seq<SpecType>) -> Seq<Seq<char>>
    decreases s, 0nat,
{
    if s.len() == 0 {
        Seq::empty()
    } else {
        type_texts(s.drop_last()).push(type_text(s.last()))
    }
}

proof fn lemma_type_texts_len(s: Seq<SpecType>)
    ensures
        type_texts(s).len() == s.len(),
    decreases s.len(),
{
    if s.len() > 0 {
        lemma_type_texts_len(s.drop_last());
    }
}

/// Translates type specifications into developer-readable names.
pub struct TypeResolver;

impl TypeResolver {
    /// The readable name of `type_def`. Every specification variant of the
    /// live protocol has a name, so this always succeeds.
    pub fn resolve(type_def: &SpecType) -> (r: Result<String, String>)
        ensures
            r matches Ok(s) && s@ == type_text(*type_def),
        decreases type_def,
    {
        let mut out = String::new();
        Self::write_name(type_def, &mut out);
        assert(out@ =~= type_text(*type_def));
        Ok(out)
    }

    /// Appends the readable name of `t`.
    fn write_name(t: &SpecType, out: &mut String)
        ensures
            final(out)@ == old(out)@ + type_text(*t),
        decreases t,
    {
        match t {
            SpecType::Val => { append(out, "Val"); },
            SpecType::Bool => { append(out, "bool"); },
            SpecType::Void => { append(out, "void"); },
            SpecType::Error => { append(out, "Error"); },
            SpecType::U32 => { append(out, "u32"); },
            SpecType::I32 => { append(out, "i32"); },
            SpecType::U64 => { append(out, "u64"); },
            SpecType::I64 => { append(out, "i64"); },
            SpecType::Timepoint => { append(out, "Timepoint"); },
            SpecType::Duration => { append(out, "Duration"); },
            SpecType::U128 => { append(out, "u128"); },
            SpecType::I128 => { append(out, "i128"); },
            SpecType::U256 => { append(out, "U256"); },
            SpecType::I256 => { append(out, "I256"); },
            SpecType::Bytes => { append(out, "Bytes"); },
            SpecType::String => { append(out, "String"); },
            SpecType::Symbol => { append(out, "Symbol"); },
            SpecType::Address => { append(out, "Address"); },
            SpecType::BytesN(n) => {
                append(out, "BytesN<");
                let d = fmt_u128(*n as u128);
                append(out, d.as_str());
                append(out, ">");
                assert(final(out)@ =~= old(out)@ + type_text(*t));
            },
            SpecType::Option(inner) => {
                append(out, "Option<");
                Self::write_name(inner, out);
                append(out, ">");
                assert(final(out)@ =~= old(out)@ + type_text(*t));
            },
            SpecType::Vec(elem) => {
                append(out, "Vec<");
                Self::write_name(elem, out);
                append(out, ">");
                assert(final(out)@ =~= old(out)@ + type_text(*t));
            },
            SpecType::MapOf(k, v) => {
                append(out, "Map<");
                Self::write_name(k, out);
                append(out, ", ");
                Self::write_name(v, out);
                append(out, ">");
                assert(final(out)@ =~= old(out)@ + type_text(*t));
            },
            SpecType::Result(ok, err) => {
                append(out, "Result<");
                Self::write_name(ok, out);
                append(out, ", ");
                Self::write_name(err, out);
                append(out, ">");
                assert(final(out)@ =~= old(out)@ + type_text(*t));
            },
            SpecType::Tuple(items) => {
                append(out, "(");
                let ghost start = out@;
                let n = items.len();
                for i in 0..n
                    invariant
                        n == items.len(),
                        *t == SpecType::Tuple(*items),
                        out@ == start + join(type_texts(items@.take(i as int)), ", "@),
                {
                    if i > 0 {
                        append(out, ", ");
                    }
                    proof {
                        assert(decreases_to!(*t => t->Tuple_0));
                        assert(decreases_to!(*items => items[i as int]));
                    }
                    Self::write_name(&items[i], out);
                    proof {
                        let s = items@.take(i + 1);
                        assert(s.drop_last() =~= items@.take(i as int));
                        assert(s.last() == items@[i as int]);
                        assert(type_texts(s) == type_texts(items@.take(i as int)).push(type_text(items@[i as int])));
                        assert(type_texts(s).drop_last() =~= type_texts(items@.take(i as int)));
                        lemma_type_texts_len(s);
                        if i == 0 {
                            assert(type_texts(items@.take(0)) =~= Seq::<Seq<char>>::empty());
                            assert(type_texts(s) =~= seq![type_text(items@[0])]);
                        }
                    }
                    assert(out@ =~= start + join(type_texts(items@.take(i + 1)), ", "@));
                }
                assert(items@.take(n as int) =~= items@);
                append(out, ")");
                assert(final(out)@ =~= old(out)@ + type_text(*t));
            },
            SpecType::Udt(name) => { append(out, name.as_str()); },
        }
    }
}

} // verus!
