//! Decoding of contract call arguments against parameter specifications.

use vstd::prelude::*;
use crate::json::{Json, JsonV};
use crate::return_decoder::{decode_v, od, text_of, json_text, ReturnValueDecoder};
use crate::scval::{ContractFunction, ContractSpec, ScValue, SpecType};
use crate::text::{append, dec_nat, fmt_u128};

verus! {

/// One decoded argument: its name, its JSON value and the value as text.
#[derive(Debug, PartialEq)]
pub struct DecodedArgument {
    pub name: String,
    pub value: Json,
    pub formatted: String,
}

/// The fallback name `arg{i}` of an argument without a parameter spec.
pub open spec fn fallback_name(i: int) -> Seq<char> {
    "arg"@ + dec_nat(i as nat)
}

/// Name of argument `i`: the parameter's when there is one, else `arg{i}`.
pub open spec fn param_name(defs: Seq<(String, SpecType)>, i: int) -> Seq<char> {
    if i < defs.len() {
        defs[i].0@
    } else {
        fallback_name(i)
    }
}

/// Type of argument `i`: the parameter's when there is one.
pub open spec fn param_type(defs: Seq<(String, SpecType)>, i: int) -> Option<SpecType> {
    if i < defs.len() {
        Some(defs[i].1)
    } else {
        None
    }
}

/// `d` is the decoding of `val` named `name` with type `td`.
pub open spec fn decoded_as(d: DecodedArgument, name: Seq<char>, val: ScValue, td: Option<SpecType>, cs: Option<ContractSpec>) -> bool {
    &&& d.name@ == name
    &&& decode_v(val, td, cs) == Some(d.value.v())
    &&& d.formatted@ == text_of(d.value.v())
}

/// Every argument decodes against its parameter specification.
pub open spec fn args_decodable(args: Seq<ScValue>, defs: Seq<(String, SpecType)>, cs: Option<ContractSpec>) -> bool {
    forall|i: int| 0 <= i < args.len() ==> (#[trigger] decode_v(args[i], param_type(defs, i), cs)) is Some
}

/// Name of argument `i` when only parameter names are known.
pub open spec fn name_from_params(params: Seq<(String, String)>, i: int) -> Seq<char> {
    if i < params.len() {
        params[i].0@
    } else {
        fallback_name(i)
    }
}

/// `arg{i}`.
fn fallback_name_exec(i: usize) -> (s: String)
    ensures
        s@ == fallback_name(i as int),
{
    let mut s = String::new();
    append(&mut s, "arg");
    let d = fmt_u128(i as u128);
    append(&mut s, d.as_str());
    s
}

/// Decodes contract call arguments.
#[derive(Debug, Clone, Copy, Default)]
pub struct ArgumentDecoder {
    return_decoder: ReturnValueDecoder,
}

impl ArgumentDecoder {
    /// A decoder.
    pub fn new() -> (r: Self) {
        ArgumentDecoder { return_decoder: ReturnValueDecoder::new() }
    }

    /// Decodes `args` against `param_defs`: argument `i` takes the name and
    /// type of parameter `i`; extra arguments are decoded dynamically under
    /// the name `arg{i}`; missing arguments produce nothing.
    pub fn decode(&self, args: &[ScValue], param_defs: &[(String, SpecType)], contract_spec: Option<&ContractSpec>) -> (r: Vec<DecodedArgument>)
        requires
            args_decodable(args@, param_defs@, od(contract_spec)),
        ensures
            r.len() == args.len(),
            forall|i: int| 0 <= i < args.len() ==> decoded_as(#[trigger] r@[i], param_name(param_defs@, i), args@[i], param_type(param_defs@, i), od(contract_spec)),
    {
        let mut out: Vec<DecodedArgument> = Vec::new();
        let n = args.len();
        for i in 0..n
            invariant
                n == args.len(),
                args_decodable(args@, param_defs@, od(contract_spec)),
                out.len() == i,
                forall|k: int| 0 <= k < i ==> decoded_as(#[trigger] out@[k], param_name(param_defs@, k), args@[k], param_type(param_defs@, k), od(contract_spec)),
        {
            assert(decode_v(args@[i as int], param_type(param_defs@, i as int), od(contract_spec)) is Some);
            let d = if i < param_defs.len() {
                let (pname, ptype) = &param_defs[i];
                self.decode_single_argument(pname.as_str(), &args[i], Some(ptype), contract_spec)
            } else {
                let name = fallback_name_exec(i);
                self.decode_single_argument(name.as_str(), &args[i], None, contract_spec)
            };
            out.push(d);
        }
        out
    }

    /// Decodes `args` for `func`: against its parameter specifications when
    /// it has any, else dynamically under its parameter names (or `arg{i}`).
    pub fn decode_function_args(&self, args: &[ScValue], func: &ContractFunction, contract_spec: Option<&ContractSpec>) -> (r: Vec<DecodedArgument>)
        requires
            func.param_defs@.len() > 0 ==> args_decodable(args@, func.param_defs@, od(contract_spec)),
        ensures
            r.len() == args.len(),
            func.param_defs@.len() > 0 ==> forall|i: int| 0 <= i < args.len() ==> decoded_as(#[trigger] r@[i], param_name(func.param_defs@, i), args@[i], param_type(func.param_defs@, i), od(contract_spec)),
            func.param_defs@.len() == 0 ==> forall|i: int| 0 <= i < args.len() ==> decoded_as(#[trigger] r@[i], name_from_params(func.params@, i), args@[i], None, od(contract_spec)),
    {
        if func.param_defs.len() == 0 {
            let mut out: Vec<DecodedArgument> = Vec::new();
            let n = args.len();
            for i in 0..n
                invariant
                    n == args.len(),
                    out.len() == i,
                    forall|k: int| 0 <= k < i ==> decoded_as(#[trigger] out@[k], name_from_params(func.params@, k), args@[k], None, od(contract_spec)),
            {
                let d = if i < func.params.len() {
                    self.decode_single_argument(func.params[i].0.as_str(), &args[i], None, contract_spec)
                } else {
                    let name = fallback_name_exec(i);
                    self.decode_single_argument(name.as_str(), &args[i], None, contract_spec)
                };
                out.push(d);
            }
            out
        } else {
            self.decode(args, func.param_defs.as_slice(), contract_spec)
        }
    }

    /// Decodes `args` dynamically under the names `arg0`, `arg1`, ...
    pub fn decode_dynamic(&self, args: &[ScValue]) -> (r: Vec<DecodedArgument>)
        ensures
            r.len() == args.len(),
            forall|i: int| 0 <= i < args.len() ==> decoded_as(#[trigger] r@[i], fallback_name(i), args@[i], None, None),
    {
        let mut out: Vec<DecodedArgument> = Vec::new();
        let n = args.len();
        for i in 0..n
            invariant
                n == args.len(),
                out.len() == i,
                forall|k: int| 0 <= k < i ==> decoded_as(#[trigger] out@[k], fallback_name(k), args@[k], None, None),
        {
            let name = fallback_name_exec(i);
            let d = self.decode_single_argument(name.as_str(), &args[i], None, None);
            out.push(d);
        }
        out
    }

    /// Decodes one argument named `name` of type `type_def`.
    pub fn decode_single_argument(&self, name: &str, val: &ScValue, type_def: Option<&SpecType>, contract_spec: Option<&ContractSpec>) -> (r: DecodedArgument)
        requires
            decode_v(*val, od(type_def), od(contract_spec)) is Some,
        ensures
            decoded_as(r, name@, *val, od(type_def), od(contract_spec)),
    {
        let value = self.return_decoder.decode(val, type_def, contract_spec);
        let formatted = Self::format_value(&value);
        DecodedArgument { name: String::from_str(name), value, formatted }
    }

    /// Text of a decoded value: a string as its characters, `null`, `true`,
    /// `false` and numbers as printed, arrays and objects as compact JSON.
    pub fn format_value(value: &Json) -> (s: String)
        ensures
            s@ == text_of(value.v()),
    {
        json_text(value)
    }
}

} // verus!
