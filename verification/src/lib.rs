//! Verified core of the Grat Soroban transaction diagnostics toolkit.
//!
//! Everything here works on plain values: the Soroban values, events and
//! specifications that the decoders read are modelled by the library's own
//! types, and the JSON documents handed in by RPC clients by [`json::Json`].
#![allow(unused_imports)]

pub mod error;
pub mod text;
pub mod json;
pub mod scval;
pub mod type_resolver;
pub mod strkey;
pub mod return_decoder;
pub mod argument_decoder;
pub mod function_call_decoder;
pub mod events;
pub mod deepest_error;
pub mod event_walker;
pub mod resource_analyzer;
pub mod report;
pub mod diagnostic;
pub mod fee_analyzer;
pub mod operations;
pub mod multi_op_decoder;
pub mod auth_signature;
pub mod badges;
pub mod config;
pub mod cache;
pub mod replay;
pub mod sandbox;
pub mod ledger_state;
pub mod linter;
pub mod key_map;
pub mod updater;
pub mod commands;
pub mod markdown;
pub mod markdown_parse;
pub mod markdown_render;
pub mod theme;
pub mod xdr_decode;
