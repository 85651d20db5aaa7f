use grat_core::commands::{batch_progress_message, batch_reports, BatchArgs, SearchErrorArgs};
use grat_core::error::GratError;
use grat_core::json::Json;
use grat_core::key_map::KeyMap;
use grat_core::ledger_state::{
    config_keys, config_setting_key, envelope_bytes, hot_path_request, hot_path_state, keys_to_fetch, prepare_invocation, sort_ledger_entries,
    ConfigKeys, ConfigSetting, EnvelopeKind, InvokeOp, ReplayEnvelope, SorobanData, BASE_RESERVE_STROOPS,
};
use grat_core::replay::{latest_ledger_sequence, transaction_ledger, HostTraceKind, ReconstructionPath, TraceEventType};
use grat_core::sandbox::{
    apply_ledger_changes, budget_error, budget_limits, encode_ttl_entry, footprint_inputs, replay_seed, sandbox_result,
    setup_error, trace_event, LedgerChange, MEM_BYTES_CEILING,
};
use sha2::{Digest, Sha256};
use stellar_xdr::curr::{
    AccountId, ConfigSettingEntry, ConfigSettingId, ContractCostParams, ExtensionPoint, HostFunction,
    InvokeHostFunctionOp, LedgerEntry, LedgerEntryData, LedgerEntryExt, LedgerFootprint, LedgerKey,
    LedgerKeyConfigSetting, Limits, Memo, MuxedAccount, Operation, OperationBody, Preconditions, PublicKey,
    SequenceNumber, SorobanResources, SorobanTransactionData, StateArchivalSettings, Transaction, TransactionEnvelope,
    TransactionExt, TransactionV1Envelope, Uint256, WriteXdr,
};

fn object(members: Vec<(&str, Json)>) -> Json {
    let mut m: Vec<(String, Json)> = Vec::new();
    for (k, v) in members {
        m = Json::insert_member(m, k.to_string(), v);
    }
    Json::Object(m)
}

fn text(s: &str) -> Json {
    Json::String(s.to_string())
}

fn digest(bytes: &[u8]) -> Vec<u8> {
    Sha256::digest(bytes).to_vec()
}

fn config_entry_b64(setting: ConfigSettingEntry) -> String {
    let entry = LedgerEntry {
        last_modified_ledger_seq: 1,
        data: LedgerEntryData::ConfigSetting(setting),
        ext: LedgerEntryExt::V0,
    };
    entry.to_xdr_base64(Limits::none()).unwrap()
}

fn archival_settings() -> ConfigSettingEntry {
    ConfigSettingEntry::StateArchival(StateArchivalSettings {
        max_entry_ttl: 3_110_400,
        min_temporary_ttl: 17_280,
        min_persistent_ttl: 2_073_600,
        persistent_rent_rate_denominator: 1,
        temp_rent_rate_denominator: 1,
        max_entries_to_archive: 1,
        bucket_list_size_window_sample_size: 1,
        bucket_list_window_sample_period: 1,
        eviction_scan_size: 1,
        starting_eviction_scan_level: 1,
    })
}

fn keys() -> ConfigKeys {
    config_keys().unwrap()
}

fn item(key: &str, xdr: &str) -> Json {
    object(vec![("key", text(key)), ("xdr", text(xdr))])
}

fn network_items() -> Vec<Json> {
    let k = keys();
    let empty = || ContractCostParams(Vec::new().try_into().unwrap());
    vec![
        item(&k.cpu, &config_entry_b64(ConfigSettingEntry::ContractCostParamsCpuInstructions(empty()))),
        item(&k.mem, &config_entry_b64(ConfigSettingEntry::ContractCostParamsMemoryBytes(empty()))),
        item(&k.archival, &config_entry_b64(archival_settings())),
    ]
}

fn network_items_without(skip: usize) -> Vec<Json> {
    let mut items = network_items();
    items.remove(skip);
    items
}

fn response(entries: Vec<Json>) -> Json {
    object(vec![("entries", Json::Array(entries))])
}

fn replay_message(r: Result<grat_core::ledger_state::SortedEntries, GratError>) -> String {
    match r {
        Err(GratError::ReplayError(m)) => m,
        Err(other) => panic!("unexpected error {:?}", other),
        Ok(_) => panic!("expected an error"),
    }
}

// ---------------------------------------------------------------------------
// Configuration keys
// ---------------------------------------------------------------------------

#[test]
fn config_keys_are_the_setting_ledger_keys_in_base64() {
    let k = keys();
    assert_eq!(k.cpu, "AAAACAAAAAY=");
    assert_eq!(k.mem, "AAAACAAAAAc=");
    assert_eq!(k.archival, "AAAACAAAAAo=");
    assert_eq!(config_setting_key(ConfigSetting::StateArchival).unwrap(), "AAAACAAAAAo=");
}

// ---------------------------------------------------------------------------
// Sorting a getLedgerEntries response
// ---------------------------------------------------------------------------

#[test]
fn entries_array_is_required() {
    let r = sort_ledger_entries(&object(vec![("latestLedger", Json::Number(5))]), &keys());
    assert_eq!(replay_message(r), "getLedgerEntries response is missing an entries array");
}

#[test]
fn entry_without_xdr_is_refused() {
    let r = sort_ledger_entries(&response(vec![object(vec![("key", text("AAAA"))])]), &keys());
    assert_eq!(replay_message(r), "getLedgerEntries entry is missing its xdr field");
}

#[test]
fn entry_without_key_is_refused() {
    let mut items = network_items();
    items.push(object(vec![("xdr", text("AAAA"))]));
    let r = sort_ledger_entries(&response(items), &keys());
    assert_eq!(
        replay_message(r),
        "getLedgerEntries entry is missing its key field — RPC node is too old to support replay"
    );
}

#[test]
fn entry_xdr_must_be_base64() {
    let r = sort_ledger_entries(&response(vec![item("AAAA", "not base64!")]), &keys());
    match r {
        Err(GratError::XdrDecodingFailed { xdr_type, reason }) => {
            assert_eq!(xdr_type, "LedgerEntry");
            assert!(reason.starts_with("invalid base64: "));
        },
        _ => panic!("expected a base64 error"),
    }
}

#[test]
fn entry_xdr_must_be_a_ledger_entry() {
    let r = sort_ledger_entries(&response(vec![item("AAAA", "AAAA")]), &keys());
    match r {
        Err(GratError::XdrDecodingFailed { xdr_type, .. }) => assert_eq!(xdr_type, "LedgerEntry"),
        _ => panic!("expected a decoding error"),
    }
}

#[test]
fn cost_parameters_and_archival_settings_are_required() {
    let r = sort_ledger_entries(&response(network_items_without(0)), &keys());
    assert_eq!(replay_message(r), "Network CPU cost parameters are unavailable — cannot build an execution budget");
    let r = sort_ledger_entries(&response(network_items_without(1)), &keys());
    assert_eq!(
        replay_message(r),
        "Network memory cost parameters are unavailable — cannot build an execution budget"
    );
    let r = sort_ledger_entries(&response(network_items_without(2)), &keys());
    assert_eq!(replay_message(r), "Network state-archival settings are unavailable — cannot determine entry TTLs");
}

#[test]
fn footprint_entries_are_sorted_apart_from_settings() {
    let mut items = network_items();
    let footprint_entry = config_entry_b64(archival_settings());
    items.push(object(vec![
        ("key", text("AAAA")),
        ("xdr", text(&footprint_entry)),
        ("liveUntilLedgerSeq", Json::Number(4_294_967_296 + 7)),
    ]));
    items.push(item("BBBB", &footprint_entry));
    let sorted = sort_ledger_entries(&response(items), &keys()).unwrap();
    assert_eq!(sorted.min_temp_entry_ttl, 17_280);
    assert_eq!(sorted.min_persistent_entry_ttl, 2_073_600);
    assert_eq!(sorted.max_entry_ttl, 3_110_400);
    let expected = LedgerEntry {
        last_modified_ledger_seq: 1,
        data: LedgerEntryData::ConfigSetting(archival_settings()),
        ext: LedgerEntryExt::V0,
    }
    .to_xdr(Limits::none())
    .unwrap();
    assert_eq!(sorted.entries.get("AAAA"), Some(&expected));
    assert_eq!(sorted.entries.get("BBBB"), Some(&expected));
    assert_eq!(sorted.entries.get(&keys().cpu), None);
    // The live-until ledger is cut to 32 bits.
    assert_eq!(sorted.ttl_by_key.get("AAAA"), Some(&7));
    assert_eq!(sorted.ttl_by_key.get("BBBB"), None);
}

// ---------------------------------------------------------------------------
// Reading the invocation of an envelope
// ---------------------------------------------------------------------------

fn invoke(tag: u8) -> Option<InvokeOp> {
    Some(InvokeOp { host_function_xdr: vec![tag], auth_xdr: vec![vec![tag, tag]] })
}

fn soroban_data() -> SorobanData {
    SorobanData {
        read_only_keys_xdr: vec![vec![0, 0, 0]],
        read_write_keys_xdr: vec![vec![0, 0, 0, 8, 0, 0, 0, 6]],
        resources_xdr: vec![5, 5],
        instructions: 1_000_000,
    }
}

fn envelope(kind: EnvelopeKind, operations: Vec<Option<InvokeOp>>, data: Option<SorobanData>) -> ReplayEnvelope {
    ReplayEnvelope { kind, operations, soroban_data: data, source_account_xdr: vec![0, 0, 0, 0] }
}

#[test]
fn pre_soroban_envelope_cannot_be_replayed() {
    match prepare_invocation(envelope(EnvelopeKind::V0, vec![invoke(1)], Some(soroban_data()))) {
        Err(GratError::ReplayError(m)) => {
            assert_eq!(m, "Transaction envelope is a pre-Soroban V0 envelope and cannot invoke a host function")
        },
        _ => panic!("expected a replay error"),
    }
}

#[test]
fn envelope_without_invocation_is_not_soroban() {
    let r = prepare_invocation(envelope(EnvelopeKind::Tx, vec![None, None], Some(soroban_data())));
    assert!(matches!(r, Err(GratError::NotSorobanTransaction)));
}

#[test]
fn invocation_needs_soroban_data() {
    match prepare_invocation(envelope(EnvelopeKind::FeeBump, vec![invoke(1)], None)) {
        Err(GratError::ReplayError(m)) => assert_eq!(m, "Transaction has no Soroban resource data attached"),
        _ => panic!("expected a replay error"),
    }
}

#[test]
fn first_invocation_is_replayed_with_base64_footprint() {
    let inv = prepare_invocation(envelope(EnvelopeKind::Tx, vec![None, invoke(2), invoke(3)], Some(soroban_data())))
        .unwrap_or_else(|_| panic!("expected an invocation"));
    assert_eq!(inv.host_function_xdr, vec![2]);
    assert_eq!(inv.auth_entries_xdr, vec![vec![2, 2]]);
    assert_eq!(inv.resources_xdr, vec![5, 5]);
    assert_eq!(inv.source_account_xdr, vec![0, 0, 0, 0]);
    assert_eq!(inv.read_only_keys, vec!["AAAA".to_string()]);
    assert_eq!(inv.read_write_keys, vec!["AAAACAAAAAY=".to_string()]);
    assert_eq!(inv.cpu_instructions_limit, 1_000_000);

    let fetch = keys_to_fetch(&inv, &keys());
    assert_eq!(fetch, vec!["AAAA", "AAAACAAAAAY=", "AAAACAAAAAY=", "AAAACAAAAAc=", "AAAACAAAAAo="]);
}

#[test]
fn hot_path_state_carries_network_id_and_close_time() {
    let inv = prepare_invocation(envelope(EnvelopeKind::Tx, vec![invoke(4)], Some(soroban_data())))
        .unwrap_or_else(|_| panic!("expected an invocation"));
    let sorted = sort_ledger_entries(&response(network_items()), &keys()).unwrap();
    let passphrase = "Test SDF Network ; September 2015";
    let state = hot_path_state(77, 22, None, passphrase, inv, sorted);
    assert_eq!(state.ledger_sequence, 77);
    assert_eq!(state.reconstruction_path, ReconstructionPath::HotPath);
    assert_eq!(state.invocation.network_id.to_vec(), digest(passphrase.as_bytes()));
    assert_eq!(state.invocation.protocol_version, 22);
    assert_eq!(state.invocation.timestamp, 0);
    assert_eq!(state.invocation.base_reserve, BASE_RESERVE_STROOPS);
    assert_eq!(state.invocation.min_temp_entry_ttl, 17_280);
    assert_eq!(state.invocation.host_function_xdr, vec![4]);

    let inv = prepare_invocation(envelope(EnvelopeKind::Tx, vec![invoke(4)], Some(soroban_data())))
        .unwrap_or_else(|_| panic!("expected an invocation"));
    let sorted = sort_ledger_entries(&response(network_items()), &keys()).unwrap();
    let state = hot_path_state(77, 22, Some(1_700_000_000), passphrase, inv, sorted);
    assert_eq!(state.invocation.timestamp, 1_700_000_000);
}

// ---------------------------------------------------------------------------
// The sandbox's footprint and the host's changes
// ---------------------------------------------------------------------------

#[test]
fn ttl_entry_is_key_hash_then_big_endian_ledger() {
    let bytes = encode_ttl_entry("AAAA", 0x0102_0304).unwrap();
    let mut expected = digest(&[0, 0, 0]);
    expected.extend_from_slice(&[1, 2, 3, 4]);
    assert_eq!(bytes, expected);
}

#[test]
fn ttl_entry_key_must_be_base64() {
    match encode_ttl_entry("@@", 1) {
        Err(GratError::XdrDecodingFailed { xdr_type, reason }) => {
            assert_eq!(xdr_type, "LedgerKey");
            assert!(reason.starts_with("invalid base64: "));
        },
        _ => panic!("expected a base64 error"),
    }
}

#[test]
fn footprint_inputs_follow_read_only_then_read_write_keys() {
    let mut entries: KeyMap<Vec<u8>> = KeyMap::new();
    entries.insert("AAAA".to_string(), vec![1, 2]);
    entries.insert("AAAB".to_string(), vec![3]);
    let mut ttls: KeyMap<u32> = KeyMap::new();
    ttls.insert("AAAA".to_string(), 50);
    let read_only = vec!["AAAA".to_string(), "CCCC".to_string()];
    let read_write = vec!["AAAB".to_string()];
    let (ledger, ttl) = footprint_inputs(&entries, &ttls, &read_only, &read_write).unwrap();
    assert_eq!(ledger, vec![vec![1, 2], vec![3]]);
    let mut first = digest(&[0, 0, 0]);
    first.extend_from_slice(&[0, 0, 0, 50]);
    // A key with an entry but no known TTL gets no TTL bytes.
    assert_eq!(ttl, vec![first, Vec::new()]);
}

#[test]
fn footprint_key_with_entry_must_be_base64() {
    let mut entries: KeyMap<Vec<u8>> = KeyMap::new();
    entries.insert("@@".to_string(), vec![1]);
    let mut ttls: KeyMap<u32> = KeyMap::new();
    ttls.insert("@@".to_string(), 3);
    let r = footprint_inputs(&entries, &ttls, &vec!["@@".to_string()], &Vec::new());
    assert!(matches!(r, Err(GratError::XdrDecodingFailed { .. })));
}

#[test]
fn host_changes_write_and_delete_entries() {
    let mut entries: KeyMap<Vec<u8>> = KeyMap::new();
    entries.insert("AAAA".to_string(), vec![1]);
    entries.insert("AAAB".to_string(), vec![2]);
    let changes = vec![
        LedgerChange { read_only: false, encoded_key: vec![0, 0, 0], encoded_new_value: Some(vec![9]) },
        LedgerChange { read_only: false, encoded_key: vec![0, 0, 1], encoded_new_value: None },
        LedgerChange { read_only: true, encoded_key: vec![0, 0, 2], encoded_new_value: Some(vec![7]) },
    ];
    let after = apply_ledger_changes(entries, &changes);
    assert_eq!(after.get("AAAA"), Some(&vec![9]));
    assert_eq!(after.get("AAAB"), None);
    assert_eq!(after.get("AAAC"), None);
}

// ---------------------------------------------------------------------------
// The key map
// ---------------------------------------------------------------------------

#[test]
fn key_map_reads_back_the_last_write() {
    let mut m: KeyMap<u32> = KeyMap::new();
    assert_eq!(m.get("a"), None);
    m.insert("a".to_string(), 1);
    m.insert("b".to_string(), 2);
    m.insert("a".to_string(), 3);
    assert_eq!(m.get("a"), Some(&3));
    assert_eq!(m.get("b"), Some(&2));
    m.remove("a");
    assert_eq!(m.get("a"), None);
    assert_eq!(m.get("b"), Some(&2));
    m.remove("zzz");
    assert_eq!(m.get("b"), Some(&2));
}

// ---------------------------------------------------------------------------
// Reading what the network answered
// ---------------------------------------------------------------------------

#[test]
fn envelope_must_be_present_and_base64() {
    match envelope_bytes(None) {
        Err(GratError::ReplayError(m)) => assert_eq!(m, "Transaction envelope XDR is missing from getTransaction"),
        _ => panic!("expected a replay error"),
    }
    match envelope_bytes(Some("%%")) {
        Err(GratError::XdrDecodingFailed { xdr_type, reason }) => {
            assert_eq!(xdr_type, "TransactionEnvelope");
            assert!(reason.starts_with("invalid base64: "));
        },
        _ => panic!("expected a base64 error"),
    }
    assert_eq!(envelope_bytes(Some("AAAACA==")).unwrap(), vec![0, 0, 0, 8]);
}

#[test]
fn transaction_ledger_is_required() {
    assert_eq!(transaction_ledger(Some(12)), Ok(12));
    assert_eq!(transaction_ledger(None), Err(GratError::ReplayError("Cannot determine transaction ledger".to_string())));
}

#[test]
fn latest_ledger_sequence_defaults_to_zero() {
    assert_eq!(latest_ledger_sequence(&object(vec![("sequence", Json::Number(123))])), 123);
    assert_eq!(latest_ledger_sequence(&object(vec![("sequence", Json::Number(4_294_967_296 + 9))])), 9);
    assert_eq!(latest_ledger_sequence(&object(vec![("sequence", text("123"))])), 0);
    assert_eq!(latest_ledger_sequence(&object(vec![])), 0);
}

// ---------------------------------------------------------------------------
// The batch command
// ---------------------------------------------------------------------------

#[test]
fn batch_keeps_the_reports_of_decoded_transactions_in_order() {
    let outcomes: Vec<Result<Vec<u32>, GratError>> = vec![
        Ok(vec![1, 2]),
        Err(GratError::NotSorobanTransaction),
        Ok(vec![]),
        Ok(vec![3]),
    ];
    assert_eq!(batch_reports(outcomes), vec![1, 2, 3]);
    let none: Vec<Result<Vec<u32>, GratError>> = vec![Err(GratError::Internal("x".to_string()))];
    assert!(batch_reports(none).is_empty());
}

#[test]
fn batch_progress_message_counts_transactions() {
    assert_eq!(batch_progress_message(3), "Decoding 3 transactions...");
    assert_eq!(batch_progress_message(0), "Decoding 0 transactions...");
}

#[test]
fn command_arguments_hold_their_values() {
    let batch = BatchArgs { tx_hashes: vec!["abc".to_string()] };
    assert_eq!(batch.tx_hashes.len(), 1);
    let search = SearchErrorArgs { query: "budget".to_string() };
    assert_eq!(search.query, "budget");
}

// ---------------------------------------------------------------------------
// The host's run
// ---------------------------------------------------------------------------

#[test]
fn budget_limits_keep_the_transaction_instructions() {
    assert_eq!(budget_limits(40_000_000), (40_000_000, 524_288_000));
    assert_eq!(budget_limits(0), (1, MEM_BYTES_CEILING));
}

#[test]
fn sandbox_errors_name_their_cause() {
    assert_eq!(
        budget_error("bad params"),
        GratError::ReplayError("failed to build execution budget: bad params".to_string())
    );
    assert_eq!(
        setup_error("abc", "trap"),
        GratError::ReplayError("sandbox execution setup failed for transaction abc: trap".to_string())
    );
}

#[test]
fn replay_seed_is_the_hash_of_the_transaction_hash_text() {
    assert_eq!(replay_seed("deadbeef").to_vec(), digest(b"deadbeef"));
}

#[test]
fn trace_events_carry_the_budget_consumed() {
    let e = trace_event(&HostTraceKind::Begin, 10, 20, 5);
    assert_eq!(e.event_type, TraceEventType::BudgetCheckpoint);
    assert_eq!(e.timestamp_us, 5);
    assert_eq!(e.data.to_compact_string(), r#"{"cpu_insns":10,"mem_bytes":20,"phase":"begin"}"#);

    let e = trace_event(
        &HostTraceKind::PopCtx { detail: "pop VM:abc:transfer -> Ok(())".to_string(), is_error: false },
        1,
        2,
        3,
    );
    assert_eq!(e.event_type, TraceEventType::InvocationEnd);
    assert_eq!(
        e.data.to_compact_string(),
        r#"{"contract_id":"VM:abc","cpu_insns":1,"detail":"pop VM:abc:transfer -> Ok(())","function":"transfer","is_error":false,"mem_bytes":2}"#
    );
}

#[test]
fn sandbox_result_applies_the_host_changes_to_a_copy() {
    let mut entries: KeyMap<Vec<u8>> = KeyMap::new();
    entries.insert("AAAA".to_string(), vec![1]);
    entries.insert("AAAB".to_string(), vec![2]);
    let changes = vec![LedgerChange { read_only: false, encoded_key: vec![0, 0, 1], encoded_new_value: None }];
    let events = vec![trace_event(&HostTraceKind::End, 7, 8, 9)];
    let r = sandbox_result(&entries, true, &changes, events, 70, 80, Vec::new());
    assert!(r.success);
    assert_eq!(r.events.len(), 1);
    assert_eq!(r.total_cpu, 70);
    assert_eq!(r.total_memory, 80);
    assert_eq!(r.final_state.get("AAAA"), Some(&vec![1]));
    assert_eq!(r.final_state.get("AAAB"), None);
    // The state replayed against is left as it was.
    assert_eq!(entries.get("AAAB"), Some(&vec![2]));
    let copy = entries.copy();
    assert_eq!(copy.get("AAAA"), Some(&vec![1]));
    assert_eq!(copy.get("AAAB"), Some(&vec![2]));
}

// ---------------------------------------------------------------------------
// The hot path's request
// ---------------------------------------------------------------------------

fn soroban_envelope() -> (String, Vec<u8>, Vec<u8>) {
    let host_function = HostFunction::UploadContractWasm(vec![1u8, 2, 3].try_into().unwrap());
    let op = Operation {
        source_account: None,
        body: OperationBody::InvokeHostFunction(InvokeHostFunctionOp {
            host_function: host_function.clone(),
            auth: Vec::new().try_into().unwrap(),
        }),
    };
    let footprint = LedgerFootprint {
        read_only: vec![LedgerKey::ConfigSetting(LedgerKeyConfigSetting {
            config_setting_id: ConfigSettingId::StateArchival,
        })]
        .try_into()
        .unwrap(),
        read_write: Vec::new().try_into().unwrap(),
    };
    let tx = Transaction {
        source_account: MuxedAccount::Ed25519(Uint256([1; 32])),
        fee: 100,
        seq_num: SequenceNumber(1),
        cond: Preconditions::None,
        memo: Memo::None,
        operations: vec![op].try_into().unwrap(),
        ext: TransactionExt::V1(SorobanTransactionData {
            ext: ExtensionPoint::V0,
            resources: SorobanResources { footprint, instructions: 777, read_bytes: 0, write_bytes: 0 },
            resource_fee: 0,
        }),
    };
    let env = TransactionEnvelope::Tx(TransactionV1Envelope { tx, signatures: Vec::new().try_into().unwrap() });
    let account = AccountId(PublicKey::PublicKeyTypeEd25519(Uint256([1; 32]))).to_xdr(Limits::none()).unwrap();
    (env.to_xdr_base64(Limits::none()).unwrap(), host_function.to_xdr(Limits::none()).unwrap(), account)
}

#[test]
fn hot_path_request_reads_the_envelope() {
    let (b64, host_function, account) = soroban_envelope();
    let req = hot_path_request(Some(&b64)).unwrap_or_else(|e| panic!("unexpected error {:?}", e));
    assert_eq!(req.invocation.host_function_xdr, host_function);
    assert_eq!(req.invocation.source_account_xdr, account);
    assert!(req.invocation.auth_entries_xdr.is_empty());
    assert_eq!(req.invocation.read_only_keys, vec!["AAAACAAAAAo=".to_string()]);
    assert!(req.invocation.read_write_keys.is_empty());
    assert_eq!(req.invocation.cpu_instructions_limit, 777);
    assert_eq!(req.keys, vec!["AAAACAAAAAo=", "AAAACAAAAAY=", "AAAACAAAAAc=", "AAAACAAAAAo="]);
    assert_eq!(req.config.cpu, "AAAACAAAAAY=");
}

#[test]
fn hot_path_request_refuses_a_missing_or_unreadable_envelope() {
    match hot_path_request(None) {
        Err(GratError::ReplayError(m)) => assert_eq!(m, "Transaction envelope XDR is missing from getTransaction"),
        _ => panic!("expected a replay error"),
    }
    match hot_path_request(Some("%%")) {
        Err(GratError::XdrDecodingFailed { xdr_type, reason }) => {
            assert_eq!(xdr_type, "TransactionEnvelope");
            assert!(reason.starts_with("invalid base64: "));
        },
        _ => panic!("expected a base64 error"),
    }
    match hot_path_request(Some("AAAA")) {
        Err(GratError::XdrDecodingFailed { xdr_type, reason }) => {
            assert_eq!(xdr_type, "TransactionEnvelope");
            assert!(!reason.starts_with("invalid base64"));
        },
        _ => panic!("expected a decoding error"),
    }
}
