//! Decoding of a whole contract function call: its arguments and its return
//! value.

use vstd::prelude::*;
use crate::argument_decoder::{
    args_decodable, decoded_as, fallback_name, name_from_params, param_name, param_type,
    ArgumentDecoder, DecodedArgument,
};
use crate::json::{Json, JsonV};
use crate::return_decoder::{decode_v, od, text_of, json_text, ReturnValueDecoder};
use crate::scval::{ContractFunction, ContractSpec, ScValue, SpecType};

verus! {

/// A decoded function call.
#[derive(Debug, PartialEq)]
pub struct DecodedFunctionCall {
    pub function_name: String,
    pub arguments: Vec<DecodedArgument>,
    pub return_value: Option<Json>,
    pub formatted_return_value: Option<String>,
}

/// The return type of an optional function specification.
pub open spec fn return_type_of(f: Option<ContractFunction>) -> Option<SpecType> {
    match f {
        Some(func) => func.return_type_def,
        None => None,
    }
}

/// The arguments of a call decode: against the function's parameters when
/// it is known (and has parameter specifications), dynamically otherwise.
pub open spec fn call_args_decodable(args: Seq<ScValue>, f: Option<ContractFunction>, cs: Option<ContractSpec>) -> bool {
    match f {
        Some(func) => func.param_defs@.len() > 0 ==> args_decodable(args, func.param_defs@, cs),
        None => true,
    }
}

/// `r` is argument `i` of a call decoded as `decode` does it.
pub open spec fn call_arg_decoded(r: DecodedArgument, args: Seq<ScValue>, i: int, f: Option<ContractFunction>, cs: Option<ContractSpec>) -> bool {
    match f {
        Some(func) => if func.param_defs@.len() > 0 {
            decoded_as(r, param_name(func.param_defs@, i), args[i], param_type(func.param_defs@, i), cs)
        } else {
            decoded_as(r, name_from_params(func.params@, i), args[i], None, cs)
        },
        None => decoded_as(r, fallback_name(i), args[i], None, None),
    }
}

/// Decodes contract function calls.
#[derive(Debug, Clone, Copy, Default)]
pub struct FunctionCallDecoder {
    argument_decoder: ArgumentDecoder,
    return_decoder: ReturnValueDecoder,
}

impl FunctionCallDecoder {
    /// A decoder.
    pub fn new() -> (r: Self) {
        FunctionCallDecoder { argument_decoder: ArgumentDecoder::new(), return_decoder: ReturnValueDecoder::new() }
    }

    /// Decodes a call of `function_name` with `raw_args` and, when given, its
    /// return value, using the function's specification when it is known.
    pub fn decode(
        &self,
        function_name: &str,
        raw_args: &[ScValue],
        func_spec: Option<&ContractFunction>,
        return_val: Option<&ScValue>,
        contract_spec: Option<&ContractSpec>,
    ) -> (r: DecodedFunctionCall)
        requires
            call_args_decodable(raw_args@, od(func_spec), od(contract_spec)),
            return_val matches Some(v) ==> decode_v(*v, return_type_of(od(func_spec)), od(contract_spec)) is Some,
        ensures
            r.function_name@ == function_name@,
            r.arguments.len() == raw_args.len(),
            forall|i: int| 0 <= i < raw_args.len() ==> call_arg_decoded(#[trigger] r.arguments@[i], raw_args@, i, od(func_spec), od(contract_spec)),
            match return_val {
                Some(v) => {
                    &&& r.return_value matches Some(j)
                    &&& decode_v(*v, return_type_of(od(func_spec)), od(contract_spec)) == Some(j.v())
                    &&& r.formatted_return_value matches Some(t)
                    &&& t@ == text_of(j.v())
                },
                None => r.return_value is None && r.formatted_return_value is None,
            },
    {
        let arguments = match func_spec {
            Some(func) => self.argument_decoder.decode_function_args(raw_args, func, contract_spec),
            None => self.argument_decoder.decode_dynamic(raw_args),
        };
        let (return_value, formatted_return_value) = match return_val {
            Some(val) => {
                let type_def: Option<&SpecType> = match func_spec {
                    Some(f) => f.return_type_def.as_ref(),
                    None => None,
                };
                let json_val = self.return_decoder.decode(val, type_def, contract_spec);
                let formatted = self.return_decoder.decode_to_string(val, type_def, contract_spec);
                (Some(json_val), Some(formatted))
            },
            None => (None, None),
        };
        DecodedFunctionCall {
            function_name: String::from_str(function_name),
            arguments,
            return_value,
            formatted_return_value,
        }
    }
}

} // verus!
