use grat_core::auth_signature::{
    decode_auth_entry_signature_info, decode_auth_entry_signatures, decode_signature_bytes, outcome_signature_info,
    outcome_signatures, AddressCredentials, AuthEntryOutcome, AuthSignatureInfo, SignatureKind,
};
use grat_core::fee_analyzer::{analyze_fee_breakdown, checked_fee_breakdown, fee_breakdown, inject_fee_metadata};
use grat_core::json::Json;
use grat_core::multi_op_decoder::{MultiOpDecoder, TxResultModel};
use grat_core::xdr_decode::{result_code_text, xdr_argument_texts};
use grat_core::operations::{
    decode_operation_result, operation_explanation, to_pascal_case, OperationKind, OperationModel,
    OperationResultModel,
};
use grat_core::resource_analyzer::{
    format_number, MetricKind, ResourceMetrics, ResourceUsageAnalyzer, TransactionResultMeta,
};
use grat_core::scval::{ScAddressValue, ScMapEntry, ScValue};
use stellar_xdr::curr::{
    AccountId, BumpSequenceOp, BumpSequenceResult, InvokeContractArgs, Operation, OperationBody, OperationResult,
    OperationResultTr, PublicKey, ScBytes, ScMap, ScSymbol, ScVal, ScVec, SorobanAddressCredentials,
    SorobanAuthorizationEntry, SorobanAuthorizedFunction, SorobanAuthorizedInvocation, SorobanCredentials,
    ExtensionPoint, Limits, Memo, MuxedAccount, Preconditions, SequenceNumber, SorobanTransactionMeta,
    SorobanTransactionMetaExt, SorobanTransactionMetaExtV1, Transaction, TransactionEnvelope, TransactionExt,
    TransactionMeta, TransactionMetaV3, TransactionResult, TransactionResultExt, TransactionResultResult,
    TransactionV1Envelope, Uint256, WriteXdr,
};

fn object(members: Vec<(&str, Json)>) -> Json {
    let mut m: Vec<(String, Json)> = Vec::new();
    for (k, v) in members {
        m = Json::insert_member(m, k.to_string(), v);
    }
    Json::Object(m)
}

fn text(s: &str) -> Json {
    Json::String(s.to_string())
}

// ---------------------------------------------------------------------------
// Signatures
// ---------------------------------------------------------------------------

#[test]
fn decode_valid_64_bytes() {
    let bytes = vec![0xabu8; 64];
    let hex = decode_signature_bytes(&bytes);
    assert_eq!(hex.len(), 128);
    assert!(hex.chars().all(|c| c.is_ascii_hexdigit()));
    assert!(hex.starts_with("ab"));
}

#[test]
fn decode_empty_bytes_returns_error_label() {
    let result = decode_signature_bytes(&[]);
    assert_eq!(result, "<invalid: empty signature>");
}

#[test]
fn decode_wrong_length_returns_error_label() {
    let result = decode_signature_bytes(&[0u8; 32]);
    assert!(result.starts_with("<invalid: expected 64 bytes"));
}

#[test]
fn wrong_length_label_names_the_length() {
    assert_eq!(decode_signature_bytes(&[1u8; 3]), "<invalid: expected 64 bytes, got 3>");
}

#[test]
fn decode_invalid_base64_returns_error_label() {
    let result = decode_auth_entry_signatures("!!!not-base64!!!");
    assert_eq!(result, vec!["<invalid: base64 decode failed>"]);
}

#[test]
fn decode_invalid_xdr_returns_error_label() {
    // Valid base64 but not a valid SorobanAuthorizationEntry
    let result = decode_auth_entry_signatures("AAAA");
    assert_eq!(result, vec!["<invalid: xdr decode failed>"]);
}

#[test]
fn existing_decode_auth_entry_signatures_unchanged() {
    let result = decode_auth_entry_signatures("not-valid-base64!!!");
    assert_eq!(result, vec!["<invalid: base64 decode failed>"]);

    let result = decode_auth_entry_signatures("AAAA");
    assert_eq!(result, vec!["<invalid: xdr decode failed>"]);
}

#[test]
fn outcome_labels_for_undecodable_entries() {
    assert_eq!(outcome_signatures(&AuthEntryOutcome::Base64Failed), vec!["<invalid: base64 decode failed>"]);
    assert_eq!(outcome_signatures(&AuthEntryOutcome::XdrFailed), vec!["<invalid: xdr decode failed>"]);
    assert!(outcome_signatures(&AuthEntryOutcome::SourceAccount).is_empty());
    assert_eq!(
        outcome_signature_info(&AuthEntryOutcome::XdrFailed).unwrap_err(),
        "<invalid: xdr decode failed>"
    );
}

#[test]
fn signature_kind_from_g_address_is_ed25519() {
    let kind = SignatureKind::from_address("GABC...");
    assert_eq!(kind, SignatureKind::Ed25519);
    assert_eq!(kind.label(), "Ed25519");
}

#[test]
fn signature_kind_from_c_address_is_smart_wallet() {
    let kind = SignatureKind::from_address("CABC...");
    assert_eq!(kind, SignatureKind::SmartWallet);
    assert_eq!(kind.label(), "Smart Wallet");
}

#[test]
fn signature_kind_from_unknown_prefix_is_unknown() {
    let kind = SignatureKind::from_address("XABC...");
    assert_eq!(kind, SignatureKind::Unknown);
    assert_eq!(kind.label(), "Unknown");
}

#[test]
fn signature_kind_from_empty_address_is_unknown() {
    let kind = SignatureKind::from_address("");
    assert_eq!(kind, SignatureKind::Unknown);
}

fn info_for(address: ScAddressValue, signature: ScValue) -> AuthSignatureInfo {
    let outcome = AuthEntryOutcome::Address(AddressCredentials { address, signature });
    outcome_signature_info(&outcome).expect("no error").expect("address credential")
}

fn xdr_account_address(seed: u8) -> stellar_xdr::curr::ScAddress {
    stellar_xdr::curr::ScAddress::Account(AccountId(PublicKey::PublicKeyTypeEd25519(Uint256([seed; 32]))))
}

fn xdr_contract_address(seed: u8) -> stellar_xdr::curr::ScAddress {
    stellar_xdr::curr::ScAddress::Contract(stellar_xdr::curr::Hash([seed; 32]))
}

fn root_invocation(name: &str) -> stellar_xdr::curr::SorobanAuthorizedInvocation {
    SorobanAuthorizedInvocation {
        function: SorobanAuthorizedFunction::ContractFn(InvokeContractArgs {
            contract_address: xdr_contract_address(1),
            function_name: ScSymbol(name.try_into().unwrap()),
            args: vec![].try_into().unwrap(),
        }),
        sub_invocations: vec![].try_into().unwrap(),
    }
}

fn auth_entry_b64(address: stellar_xdr::curr::ScAddress, signature: stellar_xdr::curr::ScVal) -> String {
    let entry = SorobanAuthorizationEntry {
        credentials: SorobanCredentials::Address(SorobanAddressCredentials {
            address,
            nonce: 0,
            signature_expiration_ledger: 0,
            signature,
        }),
        root_invocation: root_invocation("f"),
    };
    entry.to_xdr_base64(Limits::none()).expect("encode")
}

#[test]
fn auth_signature_info_ed25519_from_account_address() {
    let b64 = auth_entry_b64(xdr_account_address(3), stellar_xdr::curr::ScVal::Void);
    let info = decode_auth_entry_signature_info(&b64).expect("no error").expect("address credential");
    assert_eq!(info.kind, SignatureKind::Ed25519);
    assert!(info.address.starts_with('G'), "address should start with G, got {}", info.address);
}

#[test]
fn auth_signature_info_smart_wallet_from_contract_address() {
    let b64 = auth_entry_b64(xdr_contract_address(7), stellar_xdr::curr::ScVal::Void);
    let info = decode_auth_entry_signature_info(&b64).expect("no error").expect("address credential");
    assert_eq!(info.kind, SignatureKind::SmartWallet);
    assert!(info.address.starts_with('C'), "address should start with C, got {}", info.address);
}

#[test]
fn contract_id_extracted_for_smart_wallet() {
    let b64 = auth_entry_b64(xdr_contract_address(42), stellar_xdr::curr::ScVal::Void);
    let info = decode_auth_entry_signature_info(&b64).expect("no error").expect("address credential");
    // Contract ID must be a valid strkey starting with 'C'.
    assert!(info.address.starts_with('C'));
    assert!(!info.address.is_empty());
    assert_eq!(info.address, format!("{}", stellar_strkey::Contract([42u8; 32])));
}

#[test]
fn outcome_info_of_account_address() {
    let info = info_for(ScAddressValue::Account([3u8; 32]), ScValue::Void);
    assert_eq!(info.kind, SignatureKind::Ed25519);
    assert_eq!(
        info.address,
        format!("{}", stellar_strkey::ed25519::PublicKey([3u8; 32]))
    );
}

#[test]
fn decode_auth_entry_signature_info_invalid_payload() {
    let result = decode_auth_entry_signature_info("!!!bad-base64!!!");
    assert!(result.is_err());
    assert_eq!(result.unwrap_err(), "<invalid: base64 decode failed>");
}

#[test]
fn decode_auth_entry_signature_info_source_account_returns_none() {
    let entry = SorobanAuthorizationEntry {
        credentials: SorobanCredentials::SourceAccount,
        root_invocation: root_invocation("g"),
    };
    let b64 = entry.to_xdr_base64(Limits::none()).expect("encode");
    let result = decode_auth_entry_signature_info(&b64).expect("no error");
    assert!(result.is_none(), "SourceAccount should yield None");
}

#[test]
fn signatures_of_an_encoded_entry_are_hex() {
    let sig = ScVal::Map(Some(ScMap(
        vec![
            stellar_xdr::curr::ScMapEntry {
                key: ScVal::Symbol(ScSymbol("public_key".try_into().unwrap())),
                val: ScVal::Bytes(ScBytes(vec![1u8; 32].try_into().unwrap())),
            },
            stellar_xdr::curr::ScMapEntry {
                key: ScVal::Symbol(ScSymbol("signature".try_into().unwrap())),
                val: ScVal::Bytes(ScBytes(vec![0xabu8; 64].try_into().unwrap())),
            },
        ]
        .try_into()
        .unwrap(),
    )));
    let b64 = auth_entry_b64(xdr_account_address(5), ScVal::Vec(Some(ScVec(vec![sig].try_into().unwrap()))));
    assert_eq!(decode_auth_entry_signatures(&b64), vec!["ab".repeat(64)]);
}

#[test]
fn signatures_are_taken_from_signature_keys_only() {
    let entry = ScValue::MapEntries(Some(vec![
        ScMapEntry { key: ScValue::Symbol("public_key".to_string()), val: ScValue::Bytes(vec![1u8; 32]) },
        ScMapEntry { key: ScValue::Symbol("signature".to_string()), val: ScValue::Bytes(vec![0x0fu8; 64]) },
    ]));
    let info = info_for(ScAddressValue::Account([1u8; 32]), ScValue::Vec(Some(vec![entry, ScValue::Bytes(vec![])])));
    assert_eq!(info.signatures.len(), 2);
    assert_eq!(info.signatures[0], "0f".repeat(64));
    assert_eq!(info.signatures[1], "<invalid: empty signature>");
}

// ---------------------------------------------------------------------------
// Resources
// ---------------------------------------------------------------------------

#[test]
fn test_memory_limit_breach_format() {
    let meta = TransactionResultMeta::new(
        ResourceMetrics::new(50_000, 10_000, 1_000, 500),
        ResourceMetrics::new(45_000, 10_500, 800, 400),
        true,
    );
    let diagnostics = ResourceUsageAnalyzer::analyze_meta(&meta);
    let memory_summary = diagnostics.memory.format_summary("105");
    assert_eq!(
        memory_summary,
        "Memory Utilization: 105% (Allocated: 10,000 bytes, Consumed: 10,500 bytes. Overage: 500 bytes)."
    );
    assert!(diagnostics.memory.breached_limit);
    assert_eq!(diagnostics.breached_metrics, vec![MetricKind::Memory]);
}

#[test]
fn test_all_four_metrics_delta_and_utilization() {
    let meta = TransactionResultMeta::new(
        ResourceMetrics::new(100_000, 20_000, 50_000, 10_000),
        ResourceMetrics::new(110_000, 15_000, 50_000, 5_000),
        false,
    );
    let diag = ResourceUsageAnalyzer::analyze_meta(&meta);
    assert_eq!(diag.cpu.delta, 10_000);
    assert!(diag.cpu.breached_limit);
    assert_eq!(diag.memory.delta, -5_000);
    assert!(!diag.memory.breached_limit);
    assert_eq!(
        diag.memory.format_summary("75"),
        "Memory Utilization: 75% (Allocated: 20,000 bytes, Consumed: 15,000 bytes. Remaining: 5,000 bytes)."
    );
    assert_eq!(diag.reads.delta, 0);
    assert!(!diag.reads.breached_limit);
    assert_eq!(diag.writes.delta, -5_000);
}

#[test]
fn test_from_tx_data_extraction() {
    let cpu = object(vec![("category", text("cpu")), ("used", Json::Number(12000)), ("limit", Json::Number(10000))]);
    let memory = object(vec![("category", text("memory")), ("used", Json::Number(8000)), ("limit", Json::Number(10000))]);
    let tx_data = object(vec![
        ("status", text("FAILED")),
        ("error", text("Budget limit exceeded")),
        (
            "diagnosticEvents",
            Json::Array(vec![
                object(vec![("type", text("budget")), ("data", cpu)]),
                object(vec![("type", text("budget")), ("data", memory)]),
            ]),
        ),
    ]);
    let meta = TransactionResultMeta::from_tx_data(&tx_data);
    assert!(meta.is_budget_error);
    assert_eq!(meta.resources_allocated.cpu_instructions, 10000);
    assert_eq!(meta.resources_consumed.cpu_instructions, 12000);
    assert_eq!(meta.resources_allocated.memory_bytes, 10000);
    assert_eq!(meta.resources_consumed.memory_bytes, 8000);
    let diag = ResourceUsageAnalyzer::analyze_meta(&meta);
    assert_eq!(diag.breached_metrics, vec![MetricKind::Cpu]);
}

#[test]
fn test_resource_diagnostics_helpers() {
    let meta = TransactionResultMeta::new(
        ResourceMetrics::new(100, 100, 100, 100),
        ResourceMetrics::new(200, 50, 150, 80),
        true,
    );
    let diag = ResourceUsageAnalyzer::analyze_meta(&meta);
    assert!(diag.has_breach());
    assert_eq!(diag.breached_diagnostics().len(), 2);
    assert_eq!(diag.get_metric(MetricKind::Cpu).consumed, 200);
    assert_eq!(diag.metrics().len(), 4);
}

#[test]
fn explicit_resource_objects_override_budget_events() {
    let tx_data = object(vec![
        ("resourcesAllocated", object(vec![("cpuInstructions", Json::Number(500)), ("writeBytes", Json::Number(9))])),
        ("resourcesConsumed", object(vec![("readBytes", Json::Number(7))])),
    ]);
    let meta = TransactionResultMeta::from_tx_data(&tx_data);
    assert_eq!(meta.resources_allocated, ResourceMetrics::new(500, 0, 0, 9));
    assert_eq!(meta.resources_consumed, ResourceMetrics::new(0, 0, 7, 0));
    assert!(!meta.is_budget_error);
}

#[test]
fn numbers_are_grouped_by_thousands() {
    assert_eq!(format_number(0), "0");
    assert_eq!(format_number(999), "999");
    assert_eq!(format_number(1000), "1,000");
    assert_eq!(format_number(1_234_567), "1,234,567");
    assert_eq!(format_number(1_000_005), "1,000,005");
    assert_eq!(MetricKind::Cpu.name(), "CPU");
    assert_eq!(MetricKind::Cpu.unit(), "instructions");
    assert_eq!(MetricKind::Writes.unit(), "bytes");
}

// ---------------------------------------------------------------------------
// Fees
// ---------------------------------------------------------------------------

fn envelope_b64(fee: u32) -> String {
    let tx = Transaction {
        source_account: MuxedAccount::Ed25519(Uint256([0; 32])),
        fee,
        seq_num: SequenceNumber(1),
        cond: Preconditions::None,
        memo: Memo::None,
        operations: vec![].try_into().unwrap(),
        ext: TransactionExt::V0,
    };
    let envelope = TransactionEnvelope::Tx(TransactionV1Envelope { tx, signatures: vec![].try_into().unwrap() });
    envelope.to_xdr_base64(Limits::none()).unwrap()
}

fn result_b64(fee_charged: i64) -> String {
    let result = TransactionResult {
        fee_charged,
        result: TransactionResultResult::TxSuccess(vec![].try_into().unwrap()),
        ext: TransactionResultExt::V0,
    };
    result.to_xdr_base64(Limits::none()).unwrap()
}

#[test]
fn analyzes_non_soroban_fee_breakdown() {
    let tx_data = object(vec![("envelopeXdr", text(&envelope_b64(150))), ("resultXdr", text(&result_b64(120)))]);
    let breakdown = analyze_fee_breakdown(&tx_data);
    assert_eq!(breakdown.total_charged_fee, 120);
    assert_eq!(breakdown.bid_fee, Some(150));
    assert_eq!(breakdown.inclusion_fee, 120);
    assert_eq!(breakdown.resource_fee, 0);
    assert_eq!(breakdown.refundable_resource_fee, 0);
    assert_eq!(breakdown.refundable_fee, 0);
    assert_eq!(breakdown.non_refundable_fee, 0);
}

#[test]
fn analyzes_soroban_fee_breakdown() {
    let meta = TransactionMeta::V3(TransactionMetaV3 {
        ext: ExtensionPoint::V0,
        tx_changes_before: vec![].try_into().unwrap(),
        operations: vec![].try_into().unwrap(),
        tx_changes_after: vec![].try_into().unwrap(),
        soroban_meta: Some(SorobanTransactionMeta {
            ext: SorobanTransactionMetaExt::V1(SorobanTransactionMetaExtV1 {
                ext: ExtensionPoint::V0,
                total_non_refundable_resource_fee_charged: 100,
                total_refundable_resource_fee_charged: 200,
                rent_fee_charged: 50,
            }),
            events: vec![].try_into().unwrap(),
            return_value: stellar_xdr::curr::ScVal::Void,
            diagnostic_events: vec![].try_into().unwrap(),
        }),
    });
    let meta_xdr = meta.to_xdr_base64(Limits::none()).unwrap();
    let tx_data = object(vec![
        ("envelopeXdr", text(&envelope_b64(500))),
        ("resultXdr", text(&result_b64(450))),
        ("resultMetaXdr", text(&meta_xdr)),
    ]);
    let breakdown = analyze_fee_breakdown(&tx_data);
    assert_eq!(breakdown.total_charged_fee, 450);
    assert_eq!(breakdown.bid_fee, Some(500));
    assert_eq!(breakdown.resource_fee, 350);
    assert_eq!(breakdown.inclusion_fee, 100);
    assert_eq!(breakdown.refundable_resource_fee, 200);
    assert_eq!(breakdown.refundable_fee, 250);
    assert_eq!(breakdown.non_refundable_fee, 100);
}

#[test]
fn handles_insufficient_fee_surges() {
    let tx_data = object(vec![("envelopeXdr", text(&envelope_b64(400))), ("resultXdr", text(&result_b64(600)))]);
    let breakdown = analyze_fee_breakdown(&tx_data);
    assert_eq!(breakdown.total_charged_fee, 600);
    assert_eq!(breakdown.bid_fee, Some(400));
    assert_eq!(breakdown.inclusion_fee, 600);
    assert_eq!(breakdown.resource_fee, 0);
    assert_eq!(breakdown.refundable_fee, 0);
}

#[test]
fn resource_fee_object_and_fee_bid_members_are_read() {
    let tx_data = object(vec![
        ("feeBid", Json::Number(77)),
        (
            "resourceFee",
            object(vec![
                ("totalNonRefundableResourceFeeCharged", Json::Number(10)),
                ("totalRefundableResourceFeeCharged", Json::Number(20)),
            ]),
        ),
    ]);
    let breakdown = fee_breakdown(&tx_data, 100, None, None);
    assert_eq!(breakdown.resource_fee, 30);
    assert_eq!(breakdown.inclusion_fee, 70);
    assert_eq!(breakdown.refundable_fee, 20);
    assert_eq!(breakdown.bid_fee, Some(77));
}

#[test]
fn undecodable_xdr_counts_as_missing() {
    let tx_data = object(vec![("resultXdr", text("not xdr")), ("envelopeXdr", text("AAAA"))]);
    let breakdown = checked_fee_breakdown(&tx_data).expect("fits");
    assert_eq!(breakdown.total_charged_fee, 0);
    assert_eq!(breakdown.bid_fee, None);
}

#[test]
fn fee_metadata_is_written_back() {
    let mut tx_data = object(vec![
        (
            "resourceFee",
            object(vec![
                ("totalNonRefundableResourceFeeCharged", Json::Number(10)),
                ("totalRefundableResourceFeeCharged", Json::Number(20)),
                ("rentFeeCharged", Json::Number(5)),
            ]),
        ),
        ("resultXdr", text(&result_b64(100))),
    ]);
    inject_fee_metadata(&mut tx_data).expect("written");
    assert_eq!(
        tx_data.to_compact_string(),
        format!(
            "{{\"inclusionFee\":65,\"resourceFee\":{{\"rentFeeCharged\":5,\"totalNonRefundableResourceFeeCharged\":10,\"totalRefundableResourceFeeCharged\":20}},\"resultXdr\":\"{}\"}}",
            result_b64(100)
        )
    );
}

// ---------------------------------------------------------------------------
// Operations
// ---------------------------------------------------------------------------

fn classic(name: &str) -> OperationModel {
    OperationModel { kind: OperationKind::Classic, body_name: name.to_string(), xdr_arguments: vec![] }
}

#[test]
fn classic_success_is_not_reported_as_non_invoke_failure() {
    let operation = classic("Inflation");
    let result = OperationResultModel::Inner { op_name: "Inflation".to_string(), raw_code: Some("success".to_string()) };
    let decoded = decode_operation_result(&operation, Some(&result), None);
    assert!(decoded.success);
    assert!(decoded.attempted);
    assert_eq!(decoded.category, "ClassicStellar");
    assert_eq!(decoded.code, "Success");
}

#[test]
fn missing_result_is_not_fabricated_as_success() {
    let operation = classic("Inflation");
    let decoded = decode_operation_result(&operation, None, Some("TxBadSeq"));
    assert!(!decoded.success);
    assert!(!decoded.attempted);
    assert_eq!(decoded.code, "TxBadSeq");
}

#[test]
fn result_type_must_match_envelope_operation() {
    let operation = classic("Inflation");
    let result = OperationResultModel::Inner { op_name: "InvokeHostFunction".to_string(), raw_code: Some("trapped".to_string()) };
    let decoded = decode_operation_result(&operation, Some(&result), Some("TxFailed"));
    assert!(!decoded.success);
    assert_eq!(decoded.category, "Xdr");
    assert_eq!(decoded.code, "OperationResultTypeMismatch");
}

#[test]
fn pascal_case_of_result_codes() {
    assert_eq!(to_pascal_case("resource_limit_exceeded"), "ResourceLimitExceeded");
    assert_eq!(to_pascal_case("__a__b"), "AB");
    assert_eq!(to_pascal_case(""), "");
}

#[test]
fn soroban_budget_failure_is_categorized() {
    let op = OperationModel {
        kind: OperationKind::RestoreFootprint,
        body_name: "RestoreFootprint".to_string(),
        xdr_arguments: vec![],
    };
    let result = OperationResultModel::Inner {
        op_name: "RestoreFootprint".to_string(),
        raw_code: Some("resource_limit_exceeded".to_string()),
    };
    let decoded = decode_operation_result(&op, Some(&result), Some("TxFailed"));
    assert_eq!(decoded.category, "Budget");
    assert_eq!(
        operation_explanation(0, 2, "RestoreFootprint", &decoded, false),
        "Operation 1/2 is a RestoreFootprint operation. Its XDR result is ResourceLimitExceeded."
    );
}

#[test]
fn every_operation_gets_a_report() {
    let ops = vec![
        classic("Payment"),
        OperationModel {
            kind: OperationKind::InvokeContract {
                contract: ScAddressValue::Contract([5u8; 32]),
                function_name: "transfer".to_string(),
                args: vec![ScValue::U32(7)],
            },
            body_name: "InvokeHostFunction".to_string(),
            xdr_arguments: vec![],
        },
    ];
    let result = TxResultModel::TxFailed(vec![
        OperationResultModel::Inner { op_name: "Payment".to_string(), raw_code: Some("success".to_string()) },
        OperationResultModel::Inner { op_name: "InvokeHostFunction".to_string(), raw_code: Some("trapped".to_string()) },
    ]);
    let tx_data = object(vec![("hash", text("abc")), ("ledger", Json::Number(12))]);
    let reports = MultiOpDecoder::new().decode_transaction(&tx_data, &ops, &result, None).expect("reports");
    assert_eq!(reports.len(), 2);
    assert_eq!(reports[0].summary, "Operation 1/2 (Payment) was rolled back");
    assert_eq!(reports[0].error_name, "Success");
    assert_eq!(reports[1].summary, "Operation 2/2 (InvokeHostFunction) failed");
    assert_eq!(reports[1].error_category, "Soroban");
    assert_eq!(reports[1].error_name, "Trapped");
    let context = reports[1].transaction_context.as_ref().expect("context");
    assert_eq!(context.tx_hash, "abc");
    assert_eq!(context.ledger_sequence, 12);
    assert_eq!(context.function_name.as_deref(), Some("transfer"));
    assert_eq!(context.arguments, vec!["arg0: 7".to_string()]);
    assert_eq!(reports[1].operation_index, Some(1));
}

#[test]
fn injected_fees_read_back_the_same() {
    let mut tx_data = object(vec![
        (
            "resourceFee",
            object(vec![
                ("totalNonRefundableResourceFeeCharged", Json::Number(10)),
                ("totalRefundableResourceFeeCharged", Json::Number(20)),
                ("rentFeeCharged", Json::Number(5)),
            ]),
        ),
        ("resultXdr", text(&result_b64(100))),
    ]);
    let before = analyze_fee_breakdown(&tx_data);
    inject_fee_metadata(&mut tx_data).expect("written");
    let after = analyze_fee_breakdown(&tx_data);
    assert_eq!(before, after);
    assert_eq!(after.inclusion_fee + after.resource_fee, after.total_charged_fee);
    assert_eq!(after.resource_fee, after.non_refundable_fee + after.refundable_fee);
}

#[test]
fn grouped_numbers_are_the_plain_digits_with_commas() {
    for n in [0u64, 7, 999, 1_000, 1_000_005, 987_654_321, u64::MAX] {
        assert_eq!(format_number(n).replace(',', ""), n.to_string());
    }
}

// ---------------------------------------------------------------------------
// Transaction documents
// ---------------------------------------------------------------------------

fn bump_envelope_b64(count: usize) -> String {
    let operations: Vec<Operation> = (0..count)
        .map(|i| Operation {
            source_account: None,
            body: OperationBody::BumpSequence(BumpSequenceOp { bump_to: SequenceNumber(10 + i as i64) }),
        })
        .collect();
    let tx = Transaction {
        source_account: MuxedAccount::Ed25519(Uint256([0; 32])),
        fee: 100,
        seq_num: SequenceNumber(1),
        cond: Preconditions::None,
        memo: Memo::None,
        operations: operations.try_into().unwrap(),
        ext: TransactionExt::V0,
    };
    let envelope = TransactionEnvelope::Tx(TransactionV1Envelope { tx, signatures: vec![].try_into().unwrap() });
    envelope.to_xdr_base64(Limits::none()).unwrap()
}

fn bump_failed_result_b64(count: usize) -> String {
    let results: Vec<OperationResult> =
        (0..count).map(|_| OperationResult::OpInner(OperationResultTr::BumpSequence(BumpSequenceResult::Success))).collect();
    let result = TransactionResult {
        fee_charged: 100,
        result: TransactionResultResult::TxFailed(results.try_into().unwrap()),
        ext: TransactionResultExt::V0,
    };
    result.to_xdr_base64(Limits::none()).unwrap()
}

fn internal_message(error: grat_core::error::GratError) -> String {
    match error {
        grat_core::error::GratError::Internal(m) => m,
        other => panic!("expected an internal error, got {other:?}"),
    }
}

#[test]
fn document_reports_every_operation_and_narrows_to_one() {
    let tx_data = object(vec![
        ("hash", text("abc")),
        ("envelopeXdr", text(&bump_envelope_b64(2))),
        ("resultXdr", text(&bump_failed_result_b64(2))),
    ]);
    let decoder = MultiOpDecoder::new();
    let reports = decoder.decode_transaction_document(&tx_data, None).expect("reports");
    assert_eq!(reports.len(), 2);
    assert_eq!(reports[0].summary, "Operation 1/2 (BumpSequence) was rolled back");
    let context = reports[0].transaction_context.as_ref().expect("context");
    assert_eq!(context.arguments.len(), 1);
    assert!(context.arguments[0].starts_with("bump_to: "), "{:?}", context.arguments);
    assert_eq!(reports[1].operation_index, Some(1));

    let one = decoder.decode_transaction_document(&tx_data, Some(1)).expect("one report");
    assert_eq!(one, vec![reports[1].clone()]);

    let error = decoder.decode_transaction_document(&tx_data, Some(5)).unwrap_err();
    assert_eq!(internal_message(error), "Operation index 5 is out of range for a transaction with 2 operations");
}

#[test]
fn document_without_operations_has_no_reports() {
    let tx_data = object(vec![("envelopeXdr", text(&envelope_b64(150))), ("resultXdr", text(&result_b64(120)))]);
    let decoder = MultiOpDecoder::new();
    assert!(decoder.decode_transaction_document(&tx_data, None).expect("reports").is_empty());
    let error = decoder.decode_transaction_document(&tx_data, Some(0)).unwrap_err();
    assert_eq!(internal_message(error), "Operation index 0 is out of range for a transaction with 0 operations");
}

#[test]
fn document_members_that_are_missing_or_undecodable() {
    let decoder = MultiOpDecoder::new();
    let error = decoder.decode_transaction_document(&object(vec![]), None).unwrap_err();
    assert_eq!(internal_message(error), "Missing envelopeXdr in transaction data");

    let only_envelope = object(vec![("envelopeXdr", text(&envelope_b64(150)))]);
    let error = decoder.decode_transaction_document(&only_envelope, None).unwrap_err();
    assert_eq!(internal_message(error), "Missing resultXdr in transaction data");

    let bad_envelope = object(vec![("envelopeXdr", text("AAAA")), ("resultXdr", text(&result_b64(120)))]);
    let message = internal_message(decoder.decode_transaction_document(&bad_envelope, None).unwrap_err());
    assert!(message.starts_with("Failed to decode envelopeXdr: "), "{message}");

    let bad_meta = object(vec![
        ("envelopeXdr", text(&bump_envelope_b64(1))),
        ("resultXdr", text(&bump_failed_result_b64(1))),
        ("resultMetaXdr", text("not base64")),
    ]);
    let message = internal_message(decoder.decode_transaction_document(&bad_meta, None).unwrap_err());
    assert!(message.starts_with("Failed to decode resultMetaXdr: "), "{message}");
}

#[test]
fn serialized_bodies_give_argument_texts() {
    let field = |k: &str, v: Json| object(vec![(k, v)]);
    // A variant with a struct payload: one text per field.
    let body = field("payment", object(vec![("amount", Json::Number(5)), ("asset", text("native"))]));
    assert_eq!(xdr_argument_texts(&Some(body)), vec!["amount: 5".to_string(), "asset: \"native\"".to_string()]);
    // A variant without fields serializes as its name.
    assert!(xdr_argument_texts(&Some(text("inflation"))).is_empty());
    // A variant with a plain payload: its compact JSON.
    let body = field("bump_sequence", Json::Array(vec![Json::Number(1), Json::Bool(true)]));
    assert_eq!(xdr_argument_texts(&Some(body)), vec!["[1,true]".to_string()]);
    // A null payload, or none at all.
    assert!(xdr_argument_texts(&Some(field("x", Json::Null))).is_empty());
    assert!(xdr_argument_texts(&None).is_empty());
    // An object of several members is itself the payload.
    let body = object(vec![("a", Json::Number(1)), ("b", Json::Number(2))]);
    assert_eq!(xdr_argument_texts(&Some(body)), vec!["a: 1".to_string(), "b: 2".to_string()]);
}

#[test]
fn serialized_inner_results_give_result_codes() {
    let code = result_code_text(&Some(object(vec![("bump_sequence", text("success"))])));
    assert_eq!(code.as_deref(), Some("success"));
    let with_payload = object(vec![("invoke_host_function", object(vec![("success", text("00ff"))]))]);
    assert_eq!(result_code_text(&Some(with_payload)).as_deref(), Some("success"));
    assert_eq!(result_code_text(&Some(object(vec![("x", Json::Number(3))]))), None);
    assert_eq!(result_code_text(&Some(text("success"))), None);
    assert_eq!(result_code_text(&None), None);
}
