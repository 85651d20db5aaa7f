use grat_core::scval::SpecType;
use grat_core::type_resolver::TypeResolver;

#[test]
fn resolve_val() {
    assert_eq!(TypeResolver::resolve(&SpecType::Val).unwrap(), "Val");
}

#[test]
fn resolve_bool() {
    assert_eq!(TypeResolver::resolve(&SpecType::Bool).unwrap(), "bool");
}

#[test]
fn resolve_void() {
    assert_eq!(TypeResolver::resolve(&SpecType::Void).unwrap(), "void");
}

#[test]
fn resolve_error() {
    assert_eq!(TypeResolver::resolve(&SpecType::Error).unwrap(), "Error");
}

#[test]
fn resolve_u32() {
    assert_eq!(TypeResolver::resolve(&SpecType::U32).unwrap(), "u32");
}

#[test]
fn resolve_i32() {
    assert_eq!(TypeResolver::resolve(&SpecType::I32).unwrap(), "i32");
}

#[test]
fn resolve_u64() {
    assert_eq!(TypeResolver::resolve(&SpecType::U64).unwrap(), "u64");
}

#[test]
fn resolve_i64() {
    assert_eq!(TypeResolver::resolve(&SpecType::I64).unwrap(), "i64");
}

#[test]
fn resolve_timepoint() {
    assert_eq!(TypeResolver::resolve(&SpecType::Timepoint).unwrap(), "Timepoint");
}

#[test]
fn resolve_duration() {
    assert_eq!(TypeResolver::resolve(&SpecType::Duration).unwrap(), "Duration");
}

#[test]
fn resolve_u128() {
    assert_eq!(TypeResolver::resolve(&SpecType::U128).unwrap(), "u128");
}

#[test]
fn resolve_i128() {
    assert_eq!(TypeResolver::resolve(&SpecType::I128).unwrap(), "i128");
}

#[test]
fn resolve_u256() {
    assert_eq!(TypeResolver::resolve(&SpecType::U256).unwrap(), "U256");
}

#[test]
fn resolve_i256() {
    assert_eq!(TypeResolver::resolve(&SpecType::I256).unwrap(), "I256");
}

#[test]
fn resolve_bytes() {
    assert_eq!(TypeResolver::resolve(&SpecType::Bytes).unwrap(), "Bytes");
}

#[test]
fn resolve_string() {
    assert_eq!(TypeResolver::resolve(&SpecType::String).unwrap(), "String");
}

#[test]
fn resolve_symbol() {
    assert_eq!(TypeResolver::resolve(&SpecType::Symbol).unwrap(), "Symbol");
}

#[test]
fn resolve_address() {
    assert_eq!(TypeResolver::resolve(&SpecType::Address).unwrap(), "Address");
}

#[test]
fn resolve_bytes_n() {
    let t = SpecType::BytesN(32);
    assert_eq!(TypeResolver::resolve(&t).unwrap(), "BytesN<32>");
}

#[test]
fn resolve_bytes_n_zero() {
    let t = SpecType::BytesN(0);
    assert_eq!(TypeResolver::resolve(&t).unwrap(), "BytesN<0>");
}

#[test]
fn resolve_option_u32() {
    let t = SpecType::Option(Box::new(SpecType::U32));
    assert_eq!(TypeResolver::resolve(&t).unwrap(), "Option<u32>");
}

#[test]
fn resolve_nested_option() {
    let inner = SpecType::Option(Box::new(SpecType::Bool));
    let outer = SpecType::Option(Box::new(inner));
    assert_eq!(TypeResolver::resolve(&outer).unwrap(), "Option<Option<bool>>");
}

#[test]
fn resolve_vec_i64() {
    let t = SpecType::Vec(Box::new(SpecType::I64));
    assert_eq!(TypeResolver::resolve(&t).unwrap(), "Vec<i64>");
}

#[test]
fn resolve_vec_of_vec() {
    let inner = SpecType::Vec(Box::new(SpecType::U32));
    let outer = SpecType::Vec(Box::new(inner));
    assert_eq!(TypeResolver::resolve(&outer).unwrap(), "Vec<Vec<u32>>");
}

#[test]
fn resolve_map_symbol_i128() {
    let t = SpecType::MapOf(Box::new(SpecType::Symbol), Box::new(SpecType::I128));
    assert_eq!(TypeResolver::resolve(&t).unwrap(), "Map<Symbol, i128>");
}

#[test]
fn resolve_map_of_vec_values() {
    let vec_type = SpecType::Vec(Box::new(SpecType::U32));
    let t = SpecType::MapOf(Box::new(SpecType::Symbol), Box::new(vec_type));
    assert_eq!(TypeResolver::resolve(&t).unwrap(), "Map<Symbol, Vec<u32>>");
}

#[test]
fn resolve_result_u32_error() {
    let t = SpecType::Result(Box::new(SpecType::U32), Box::new(SpecType::Error));
    assert_eq!(TypeResolver::resolve(&t).unwrap(), "Result<u32, Error>");
}

#[test]
fn resolve_result_void_error() {
    let t = SpecType::Result(Box::new(SpecType::Void), Box::new(SpecType::Error));
    assert_eq!(TypeResolver::resolve(&t).unwrap(), "Result<void, Error>");
}

#[test]
fn resolve_tuple_two_elements() {
    let t = SpecType::Tuple(vec![SpecType::U32, SpecType::Bool]);
    assert_eq!(TypeResolver::resolve(&t).unwrap(), "(u32, bool)");
}

#[test]
fn resolve_tuple_three_elements() {
    let t = SpecType::Tuple(vec![SpecType::Symbol, SpecType::I128, SpecType::Address]);
    assert_eq!(TypeResolver::resolve(&t).unwrap(), "(Symbol, i128, Address)");
}

#[test]
fn resolve_empty_tuple() {
    let t = SpecType::Tuple(vec![]);
    assert_eq!(TypeResolver::resolve(&t).unwrap(), "()");
}

#[test]
fn resolve_udt() {
    let t = SpecType::Udt("MyStruct".to_string());
    assert_eq!(TypeResolver::resolve(&t).unwrap(), "MyStruct");
}

#[test]
fn resolve_deeply_nested_map_symbol_vec_result() {
    let result_t = SpecType::Result(Box::new(SpecType::U32), Box::new(SpecType::Error));
    let vec_t = SpecType::Vec(Box::new(result_t));
    let map_t = SpecType::MapOf(Box::new(SpecType::Symbol), Box::new(vec_t));
    assert_eq!(TypeResolver::resolve(&map_t).unwrap(), "Map<Symbol, Vec<Result<u32, Error>>>");
}

#[test]
fn diagnostic_message_uses_resolved_types() {
    let expected_type = SpecType::I128;
    let received_type = SpecType::U32;
    let expected_name = TypeResolver::resolve(&expected_type).unwrap();
    let received_name = TypeResolver::resolve(&received_type).unwrap();
    let msg = format!(
        "Expected parameter 'amount' to be of type '{expected_name}', but received '{received_name}'"
    );
    assert_eq!(msg, "Expected parameter 'amount' to be of type 'i128', but received 'u32'");
}
