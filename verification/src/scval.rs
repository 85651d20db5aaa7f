//! The library's model of Soroban contract values (`ScValue`), of contract
//! type specifications (`ScSpecTypeDef`) and of the contract interface
//! descriptions that decoders consult.

use vstd::prelude::*;

verus! {

/// Host error kinds carried by `ScErrorValue` besides contract errors.
#[derive(Debug, Clone, Copy, PartialEq, Eq, Structural)]
pub enum ScErrorKind {
    WasmVm,
    Context,
    Storage,
    Object,
    Crypto,
    Events,
    Budget,
    Value,
    Auth,
}

/// Host error codes.
#[derive(Debug, Clone, Copy, PartialEq, Eq, Structural)]
pub enum ScErrorCodeValue {
    ArithDomain,
    IndexBounds,
    InvalidInput,
    MissingValue,
    ExistingValue,
    ExceededLimit,
    InvalidAction,
    InternalError,
    UnexpectedType,
    UnexpectedSize,
}

/// An error value: a contract-defined error code or a host error.
#[derive(Debug, Clone, Copy, PartialEq, Eq, Structural)]
pub enum ScErrorValue {
    Contract(u32),
    Host(ScErrorKind, ScErrorCodeValue),
}

/// An address: an account public key (`G...`) or a contract hash (`C...`).
#[derive(Debug, Clone, Copy, PartialEq, Eq)]
pub enum ScAddressValue {
    Account([u8; 32]),
    Contract([u8; 32]),
}

/// A contract value.
#[derive(Debug, PartialEq)]
#[allow(inconsistent_fields)]
pub enum ScValue {
    Bool(bool),
    Void,
    Error(ScErrorValue),
    U32(u32),
    I32(i32),
    U64(u64),
    I64(i64),
    Timepoint(u64),
    Duration(u64),
    U128 { hi: u64, lo: u64 },
    I128 { hi: i64, lo: u64 },
    U256 { hi_hi: u64, hi_lo: u64, lo_hi: u64, lo_lo: u64 },
    I256 { hi_hi: i64, hi_lo: u64, lo_hi: u64, lo_lo: u64 },
    Bytes(Vec<u8>),
    String(String),
    Symbol(String),
    Vec(Option<Vec<ScValue>>),
    MapEntries(Option<Vec<ScMapEntry>>),
    Address(ScAddressValue),
    /// Ledger-key and contract-instance values, carried by their debug text.
    Other(String),
}

/// One entry of a map value.
#[derive(Debug, PartialEq)]
pub struct ScMapEntry {
    pub key: ScValue,
    pub val: ScValue,
}

/// A contract type specification.
#[derive(Debug, PartialEq)]
pub enum SpecType {
    Val,
    Bool,
    Void,
    Error,
    U32,
    I32,
    U64,
    I64,
    Timepoint,
    Duration,
    U128,
    I128,
    U256,
    I256,
    Bytes,
    String,
    Symbol,
    Address,
    Option(Box<SpecType>),
    Result(Box<SpecType>, Box<SpecType>),
    Vec(Box<SpecType>),
    MapOf(Box<SpecType>, Box<SpecType>),
    Tuple(Vec<SpecType>),
    BytesN(u32),
    Udt(String),
}

/// A field of a user-defined struct (or of a struct-like union case).
#[derive(Debug, PartialEq)]
pub struct ContractStructField {
    pub name: String,
    pub type_label: String,
    pub doc: Option<String>,
    pub type_def: Option<SpecType>,
}

/// A user-defined struct.
#[derive(Debug, PartialEq)]
pub struct ContractStructDef {
    pub name: String,
    pub fields: Vec<ContractStructField>,
    pub doc: Option<String>,
}

/// A case of a user-defined integer enum.
#[derive(Debug, PartialEq)]
pub struct ContractEnumCase {
    pub name: String,
    pub value: u32,
}

/// A user-defined integer enum.
#[derive(Debug, PartialEq)]
pub struct ContractEnumDef {
    pub name: String,
    pub cases: Vec<ContractEnumCase>,
}

/// A case of a user-defined union: tuple-like (`value_types`), struct-like
/// (`fields`) or a bare name.
#[derive(Debug, PartialEq)]
pub struct ContractUnionCase {
    pub name: String,
    pub value_types: Option<Vec<SpecType>>,
    pub fields: Option<Vec<ContractStructField>>,
}

/// A user-defined union.
#[derive(Debug, PartialEq)]
pub struct ContractUnionDef {
    pub name: String,
    pub cases: Vec<ContractUnionCase>,
}

/// A contract error entry.
#[derive(Debug, PartialEq)]
pub struct ContractErrorEntry {
    pub name: String,
    pub value: u32,
}

/// A contract function.
#[derive(Debug, PartialEq)]
pub struct ContractFunction {
    pub name: String,
    /// Parameter names with their type names.
    pub params: Vec<(String, String)>,
    pub return_type: String,
    pub doc: Option<String>,
    pub return_type_def: Option<SpecType>,
    /// Parameter names with their type specifications.
    pub param_defs: Vec<(String, SpecType)>,
}

/// The interface description of a contract.
#[derive(Debug, PartialEq)]
pub struct ContractSpec {
    pub errors: Vec<ContractErrorEntry>,
    pub functions: Vec<ContractFunction>,
    pub structs: Vec<ContractStructDef>,
    pub name: Option<String>,
    pub version: Option<String>,
    pub enums: Vec<ContractEnumDef>,
    pub unions: Vec<ContractUnionDef>,
}

} // verus!
