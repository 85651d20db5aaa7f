use grat_core::argument_decoder::ArgumentDecoder;
use grat_core::function_call_decoder::FunctionCallDecoder;
use grat_core::json::Json;
use grat_core::return_decoder::ReturnValueDecoder;
use grat_core::scval::{
    ContractFunction, ContractSpec, ContractStructDef, ContractStructField, ScAddressValue, ScMapEntry, ScValue,
    SpecType,
};

fn sym(s: &str) -> ScValue {
    ScValue::Symbol(s.to_string())
}

fn str_val(s: &str) -> ScValue {
    ScValue::String(s.to_string())
}

fn num(n: i128) -> Json {
    Json::Number(n)
}

fn text(s: &str) -> Json {
    Json::String(s.to_string())
}

fn object(members: Vec<(&str, Json)>) -> Json {
    let mut m: Vec<(String, Json)> = Vec::new();
    for (k, v) in members {
        m = Json::insert_member(m, k.to_string(), v);
    }
    Json::Object(m)
}

fn contract_strkey(seed: u8) -> String {
    format!("{}", stellar_strkey::Contract([seed; 32]))
}

fn spec_with_struct(def: ContractStructDef) -> ContractSpec {
    ContractSpec {
        errors: vec![],
        functions: vec![],
        structs: vec![def],
        name: None,
        version: None,
        enums: vec![],
        unions: vec![],
    }
}

#[test]
fn test_primitive_argument_decoding() {
    let decoder = ArgumentDecoder::new();
    let args = vec![ScValue::U32(42), ScValue::Bool(true), sym("admin")];
    let param_defs = vec![
        ("amount".to_string(), SpecType::U32),
        ("active".to_string(), SpecType::Bool),
        ("role".to_string(), SpecType::Symbol),
    ];
    let decoded = decoder.decode(&args, &param_defs, None);
    assert_eq!(decoded.len(), 3);
    assert_eq!(decoded[0].name, "amount");
    assert_eq!(decoded[0].value, num(42));
    assert_eq!(decoded[0].formatted, "42");
    assert_eq!(decoded[1].name, "active");
    assert_eq!(decoded[1].value, Json::Bool(true));
    assert_eq!(decoded[1].formatted, "true");
    assert_eq!(decoded[2].name, "role");
    assert_eq!(decoded[2].value, text("admin"));
    assert_eq!(decoded[2].formatted, "admin");
}

#[test]
fn test_argument_count_mismatch_extra_arguments() {
    let decoder = ArgumentDecoder::new();
    let args = vec![ScValue::U32(100), ScValue::I32(-5), sym("extra")];
    let param_defs = vec![("count".to_string(), SpecType::U32)];
    let decoded = decoder.decode(&args, &param_defs, None);
    assert_eq!(decoded.len(), 3);
    assert_eq!(decoded[0].name, "count");
    assert_eq!(decoded[0].value, num(100));
    assert_eq!(decoded[1].name, "arg1");
    assert_eq!(decoded[1].value, num(-5));
    assert_eq!(decoded[1].formatted, "-5");
    assert_eq!(decoded[2].name, "arg2");
    assert_eq!(decoded[2].value, text("extra"));
    assert_eq!(decoded[2].formatted, "extra");
}

#[test]
fn test_argument_count_mismatch_fewer_arguments() {
    let decoder = ArgumentDecoder::new();
    let args = vec![ScValue::U32(10)];
    let param_defs = vec![("first".to_string(), SpecType::U32), ("second".to_string(), SpecType::String)];
    let decoded = decoder.decode(&args, &param_defs, None);
    assert_eq!(decoded.len(), 1);
    assert_eq!(decoded[0].name, "first");
    assert_eq!(decoded[0].value, num(10));
}

#[test]
fn test_type_conflict_fallback() {
    let decoder = ArgumentDecoder::new();
    let args = vec![sym("not_a_number")];
    let param_defs = vec![("expected_num".to_string(), SpecType::U32)];
    let decoded = decoder.decode(&args, &param_defs, None);
    assert_eq!(decoded.len(), 1);
    assert_eq!(decoded[0].name, "expected_num");
    assert_eq!(decoded[0].value, text("not_a_number"));
    assert_eq!(decoded[0].formatted, "not_a_number");
}

#[test]
fn test_udt_struct_argument_decoding() {
    let decoder = ArgumentDecoder::new();
    let struct_def = ContractStructDef {
        name: "Recipient".to_string(),
        fields: vec![
            ContractStructField {
                name: "address".to_string(),
                type_label: "Address".to_string(),
                doc: None,
                type_def: Some(SpecType::Address),
            },
            ContractStructField {
                name: "weight".to_string(),
                type_label: "U32".to_string(),
                doc: None,
                type_def: Some(SpecType::U32),
            },
        ],
        doc: None,
    };
    let contract_spec = spec_with_struct(struct_def);
    let map_val = ScValue::MapEntries(Some(vec![
        ScMapEntry { key: sym("address"), val: ScValue::Address(ScAddressValue::Contract([1u8; 32])) },
        ScMapEntry { key: sym("weight"), val: ScValue::U32(50) },
    ]));
    let param_defs = vec![("target".to_string(), SpecType::Udt("Recipient".to_string()))];
    let decoded = decoder.decode(&[map_val], &param_defs, Some(&contract_spec));
    assert_eq!(decoded.len(), 1);
    assert_eq!(decoded[0].name, "target");
    assert_eq!(
        decoded[0].value,
        object(vec![("address", text(&contract_strkey(1))), ("weight", num(50))])
    );
    assert!(decoded[0].formatted.contains("weight"));
}

#[test]
fn test_decode_function_args_convenience() {
    let decoder = ArgumentDecoder::new();
    let func = ContractFunction {
        name: "transfer".to_string(),
        params: vec![("to".to_string(), "Address".to_string()), ("amount".to_string(), "U128".to_string())],
        return_type: "Void".to_string(),
        doc: None,
        return_type_def: Some(SpecType::Void),
        param_defs: vec![("to".to_string(), SpecType::Address), ("amount".to_string(), SpecType::U64)],
    };
    let args = vec![ScValue::Address(ScAddressValue::Contract([2u8; 32])), ScValue::U64(1000)];
    let decoded = decoder.decode_function_args(&args, &func, None);
    assert_eq!(decoded.len(), 2);
    assert_eq!(decoded[0].name, "to");
    assert_eq!(decoded[0].value, text(&contract_strkey(2)));
    assert_eq!(decoded[1].name, "amount");
    assert_eq!(decoded[1].value, num(1000));
}

#[test]
fn test_decode_dynamic() {
    let decoder = ArgumentDecoder::new();
    let args = vec![ScValue::U32(1), str_val("test")];
    let decoded = decoder.decode_dynamic(&args);
    assert_eq!(decoded.len(), 2);
    assert_eq!(decoded[0].name, "arg0");
    assert_eq!(decoded[0].value, num(1));
    assert_eq!(decoded[1].name, "arg1");
    assert_eq!(decoded[1].value, text("test"));
}

#[test]
fn test_primitive_return_decoding() {
    let decoder = ReturnValueDecoder::new();
    assert_eq!(decoder.decode(&ScValue::U32(42), Some(&SpecType::U32), None), num(42));
    assert_eq!(decoder.decode(&ScValue::Bool(true), Some(&SpecType::Bool), None), Json::Bool(true));
    assert_eq!(decoder.decode(&ScValue::Void, Some(&SpecType::Void), None), Json::Null);
}

#[test]
fn test_struct_return_decoding_map_encoded() {
    let decoder = ReturnValueDecoder::new();
    let struct_def = ContractStructDef {
        name: "User".to_string(),
        fields: vec![
            ContractStructField {
                name: "id".to_string(),
                type_label: "U64".to_string(),
                doc: None,
                type_def: Some(SpecType::U64),
            },
            ContractStructField {
                name: "name".to_string(),
                type_label: "String".to_string(),
                doc: None,
                type_def: Some(SpecType::String),
            },
        ],
        doc: None,
    };
    let contract_spec = spec_with_struct(struct_def);
    let map_val = ScValue::MapEntries(Some(vec![
        ScMapEntry { key: sym("id"), val: ScValue::U64(100) },
        ScMapEntry { key: sym("name"), val: str_val("Alice") },
    ]));
    let decoded = decoder.decode(&map_val, Some(&SpecType::Udt("User".to_string())), Some(&contract_spec));
    assert_eq!(decoded, object(vec![("id", num(100)), ("name", text("Alice"))]));
}

#[test]
fn test_result_return_decoding() {
    let decoder = ReturnValueDecoder::new();
    let ok_val = ScValue::Vec(Some(vec![sym("Ok"), ScValue::U32(200)]));
    let res_spec = SpecType::Result(Box::new(SpecType::U32), Box::new(SpecType::U32));
    let decoded = decoder.decode(&ok_val, Some(&res_spec), None);
    assert_eq!(decoded, object(vec![("Ok", num(200))]));
}

#[test]
fn test_dynamic_fallback() {
    let val = sym("hello");
    assert_eq!(ReturnValueDecoder::decode_dynamic(&val), text("hello"));
}

#[test]
fn test_function_call_decoder_with_specs() {
    let decoder = FunctionCallDecoder::new();
    let func = ContractFunction {
        name: "add".to_string(),
        params: vec![("a".to_string(), "U32".to_string()), ("b".to_string(), "U32".to_string())],
        return_type: "U32".to_string(),
        doc: None,
        return_type_def: Some(SpecType::U32),
        param_defs: vec![("a".to_string(), SpecType::U32), ("b".to_string(), SpecType::U32)],
    };
    let raw_args = vec![ScValue::U32(10), ScValue::U32(20)];
    let return_val = ScValue::U32(30);
    let decoded = decoder.decode("add", &raw_args, Some(&func), Some(&return_val), None);
    assert_eq!(decoded.function_name, "add");
    assert_eq!(decoded.arguments.len(), 2);
    assert_eq!(decoded.arguments[0].name, "a");
    assert_eq!(decoded.arguments[0].value, num(10));
    assert_eq!(decoded.arguments[1].name, "b");
    assert_eq!(decoded.arguments[1].value, num(20));
    assert_eq!(decoded.return_value, Some(num(30)));
    assert_eq!(decoded.formatted_return_value, Some("30".to_string()));
}

#[test]
fn test_function_call_decoder_dynamic_fallback() {
    let decoder = FunctionCallDecoder::new();
    let raw_args = vec![ScValue::U32(5)];
    let decoded = decoder.decode("test_func", &raw_args, None, None, None);
    assert_eq!(decoded.function_name, "test_func");
    assert_eq!(decoded.arguments.len(), 1);
    assert_eq!(decoded.arguments[0].name, "arg0");
    assert_eq!(decoded.arguments[0].value, num(5));
    assert!(decoded.return_value.is_none());
}

#[test]
fn typed_decode_of_a_union_without_its_case_is_refused() {
    let spec = ContractSpec {
        errors: vec![],
        functions: vec![],
        structs: vec![],
        name: None,
        version: None,
        enums: vec![],
        unions: vec![grat_core::scval::ContractUnionDef { name: "Choice".to_string(), cases: vec![] }],
    };
    let val = ScValue::Vec(Some(vec![sym("Missing")]));
    let t = SpecType::Udt("Choice".to_string());
    assert_eq!(ReturnValueDecoder::decode_value(&val, Some(&t), Some(&spec)), None);
}

#[test]
fn compact_json_escapes_and_sorts() {
    let j = object(vec![("b", text("x\"y")), ("a", Json::Array(vec![num(-1), Json::Null]))]);
    assert_eq!(j.to_compact_string(), "{\"a\":[-1,null],\"b\":\"x\\\"y\"}");
}
