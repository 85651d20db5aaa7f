use grat_core::deepest_error::{find_deepest_error, DeepestErrorFinder};
use grat_core::diagnostic::{
    add_deepest_error_root_cause, analyze_diagnostic_event, decode_diagnostic_events, deepest_error_event, enrich_report,
    enrich_report_from_document,
};
use grat_core::json::Json;
use stellar_xdr::curr::{ContractEvent, ContractEventBody, ContractEventV0, ExtensionPoint, Limits, ScVal, WriteXdr};
use grat_core::event_walker::DiagnosticEventWalker;
use grat_core::events::{ContractEventData, ContractEventType, DiagnosticEventData};
use grat_core::report::DiagnosticReport;
use grat_core::scval::{ScErrorValue, ScValue};

fn contract_hash(seed: u8) -> [u8; 32] {
    [seed; 32]
}

fn strkey(seed: u8) -> String {
    format!("{}", stellar_strkey::Contract([seed; 32]))
}

fn sym(s: &str) -> ScValue {
    ScValue::Symbol(s.to_string())
}

fn make_typed_event(
    event_type: ContractEventType,
    contract_id: Option<[u8; 32]>,
    topics: Vec<ScValue>,
    data: ScValue,
    in_successful_contract_call: bool,
) -> DiagnosticEventData {
    let data_debug = format!("{:?}", data);
    DiagnosticEventData {
        in_successful_contract_call,
        event: ContractEventData { contract_id, event_type, topics, data, data_debug },
    }
}

fn make_event(contract_id: Option<[u8; 32]>, topics: Vec<ScValue>, data: ScValue, ok: bool) -> DiagnosticEventData {
    make_typed_event(ContractEventType::Diagnostic, contract_id, topics, data, ok)
}

fn fn_call(contract: [u8; 32], function: &str) -> DiagnosticEventData {
    make_event(Some(contract), vec![sym("fn_call"), sym(function)], ScValue::Void, true)
}

fn fn_return(contract: [u8; 32]) -> DiagnosticEventData {
    make_event(Some(contract), vec![sym("fn_return")], ScValue::Void, true)
}

fn error_event(contract: [u8; 32], msg: &str) -> DiagnosticEventData {
    make_event(Some(contract), vec![sym("error"), sym(msg)], ScValue::Void, false)
}

fn contract_error(contract: [u8; 32], code: u32) -> DiagnosticEventData {
    make_event(Some(contract), vec![sym("error")], ScValue::Error(ScErrorValue::Contract(code)), true)
}

// ---------------------------------------------------------------------------
// Deepest error finder
// ---------------------------------------------------------------------------

#[test]
fn find_deepest_returns_none_for_no_events() {
    assert!(DeepestErrorFinder::new().find_deepest(&[]).is_none());
}

#[test]
fn find_deepest_returns_none_when_no_failures() {
    let events = vec![fn_call(contract_hash(1), "swap"), fn_return(contract_hash(1))];
    assert!(DeepestErrorFinder::new().find_deepest(&events).is_none());
}

#[test]
fn find_deepest_returns_none_when_all_calls_return_successfully() {
    let (h1, h2, h3) = (contract_hash(1), contract_hash(2), contract_hash(3));
    let events = vec![
        fn_call(h1, "route"),
        fn_call(h2, "swap"),
        fn_call(h3, "transfer"),
        fn_return(h3),
        fn_return(h2),
        fn_return(h1),
    ];
    assert!(DeepestErrorFinder::new().find_deepest(&events).is_none());
}

#[test]
fn single_contract_failure_is_reported_at_depth_zero() {
    let h1 = contract_hash(1);
    let events = vec![fn_call(h1, "transfer"), error_event(h1, "insufficient balance")];
    let deepest = DeepestErrorFinder::new().find_deepest(&events).expect("deepest error should be found");
    assert_eq!(deepest.contract_address, strkey(1));
    assert_eq!(deepest.function_name.as_deref(), Some("transfer"));
    assert_eq!(deepest.depth, 0);
}

#[test]
fn deepest_failure_wins_over_shallow_generic_failure() {
    let (router, pool, token) = (contract_hash(1), contract_hash(2), contract_hash(3));
    let events = vec![
        fn_call(router, "route"),
        fn_call(pool, "swap"),
        fn_call(token, "transfer"),
        contract_error(token, 7),
    ];
    let deepest = DeepestErrorFinder::new().find_deepest(&events).expect("deepest error should be found");
    assert_eq!(deepest.contract_address, strkey(3));
    assert_eq!(deepest.function_name.as_deref(), Some("transfer"));
    assert_eq!(deepest.depth, 2);
    assert_eq!(deepest.error_code, Some(7));
}

#[test]
fn four_level_nested_failure_pinpoints_the_deepest_layer() {
    let (router, pool, vault, token) = (contract_hash(1), contract_hash(2), contract_hash(3), contract_hash(4));
    let events = vec![
        fn_call(router, "route"),
        fn_call(pool, "swap"),
        fn_call(vault, "withdraw"),
        fn_call(token, "transfer"),
        contract_error(token, 11),
        error_event(vault, "Trapped"),
        error_event(pool, "Reverted"),
        error_event(router, "Transaction Failed"),
    ];
    let deepest = DeepestErrorFinder::new().find_deepest(&events).expect("deepest error should be found");
    assert_eq!(deepest.contract_address, strkey(4));
    assert_eq!(deepest.depth, 3);
    assert_eq!(deepest.error_code, Some(11));
}

#[test]
fn find_deepest_prefers_deeper_of_two_failures_regardless_of_order() {
    let (h1, h2, h3) = (contract_hash(10), contract_hash(20), contract_hash(30));
    let events = vec![
        fn_call(h1, "entry"),
        contract_error(h1, 1),
        fn_call(h2, "middle"),
        fn_call(h3, "inner"),
        contract_error(h3, 99),
    ];
    let deepest = DeepestErrorFinder::new().find_deepest(&events).expect("deepest error should be found");
    assert_eq!(deepest.contract_address, strkey(30));
    assert_eq!(deepest.depth, 2);
    assert_eq!(deepest.error_code, Some(99));
}

#[test]
fn completed_frame_is_not_counted_when_later_failure_occurs() {
    let (h1, h2, h3) = (contract_hash(1), contract_hash(2), contract_hash(3));
    let events = vec![
        fn_call(h1, "outer"),
        fn_call(h2, "inner"),
        fn_return(h2),
        fn_call(h3, "another"),
        error_event(h3, "failed"),
    ];
    let deepest = DeepestErrorFinder::new().find_deepest(&events).expect("deepest error should be found");
    assert_eq!(deepest.contract_address, strkey(3));
    assert_eq!(deepest.depth, 1);
}

#[test]
fn find_deepest_keeps_first_when_tied_depth() {
    let (h1, h2) = (contract_hash(1), contract_hash(2));
    let events = vec![
        fn_call(h1, "a"),
        contract_error(h1, 1),
        fn_return(h1),
        fn_call(h2, "b"),
        contract_error(h2, 2),
    ];
    let deepest = DeepestErrorFinder::new().find_deepest(&events).expect("deepest error should be found");
    assert_eq!(deepest.contract_address, strkey(1));
    assert_eq!(deepest.error_code, Some(1));
}

#[test]
fn recursive_call_does_not_loop_and_finds_deepest_recurrence() {
    let (h1, h2) = (contract_hash(10), contract_hash(20));
    let events = vec![fn_call(h1, "entry"), fn_call(h2, "helper"), fn_call(h1, "callback"), error_event(h1, "panic")];
    let deepest = DeepestErrorFinder::new().find_deepest(&events).expect("deepest error should be found");
    assert_eq!(deepest.contract_address, strkey(10));
    assert_eq!(deepest.depth, 2);
    assert_eq!(deepest.function_name.as_deref(), Some("callback"));
}

#[test]
fn find_deepest_returns_none_error_code_for_non_error_payload() {
    let h1 = contract_hash(5);
    let events = vec![fn_call(h1, "go"), error_event(h1, "panic")];
    let deepest = DeepestErrorFinder::new().find_deepest(&events).expect("deepest error should be found");
    assert_eq!(deepest.error_code, None);
    assert_eq!(deepest.contract_address, strkey(5));
}

#[test]
fn scval_error_payload_triggers_failure_detection() {
    let h1 = contract_hash(7);
    let events = vec![
        fn_call(h1, "call"),
        make_event(Some(h1), vec![sym("status")], ScValue::Error(ScErrorValue::Contract(42)), true),
    ];
    let deepest = DeepestErrorFinder::new().find_deepest(&events).expect("deepest error should be found");
    assert_eq!(deepest.error_code, Some(42));
}

#[test]
fn unsuccessful_call_flag_triggers_failure_detection() {
    let h1 = contract_hash(8);
    let events = vec![fn_call(h1, "execute"), make_event(Some(h1), vec![sym("transfer")], ScValue::Void, false)];
    let deepest = DeepestErrorFinder::new().find_deepest(&events).expect("deepest error should be found");
    assert_eq!(deepest.contract_address, strkey(8));
    assert_eq!(deepest.error_code, None);
}

#[test]
fn find_deepest_handles_failure_before_any_fn_call() {
    let h1 = contract_hash(9);
    let events = vec![contract_error(h1, 42)];
    let deepest = DeepestErrorFinder::new().find_deepest(&events).expect("deepest error should be found");
    assert_eq!(deepest.depth, 0);
    assert_eq!(deepest.contract_address, strkey(9));
    assert_eq!(deepest.error_code, Some(42));
}

#[test]
fn find_deepest_handles_failure_with_no_contract_id_and_empty_stack() {
    let events = vec![make_event(None, vec![sym("panic")], ScValue::Void, false)];
    let deepest = DeepestErrorFinder::new().find_deepest(&events).expect("deepest error should be found");
    assert_eq!(deepest.contract_address, "<unknown>");
    assert_eq!(deepest.depth, 0);
}

#[test]
fn find_deepest_error_free_fn_matches_struct() {
    let h1 = contract_hash(6);
    let events = vec![fn_call(h1, "go"), contract_error(h1, 3)];
    let via_fn = find_deepest_error(&events);
    let via_struct = DeepestErrorFinder::new().find_deepest(&events);
    assert_eq!(via_fn, via_struct);
}

#[test]
fn deepest_error_finder_default_behaves_like_new() {
    let h1 = contract_hash(4);
    let events = vec![contract_error(h1, 1)];
    let a = DeepestErrorFinder::new().find_deepest(&events);
    let b = DeepestErrorFinder::default().find_deepest(&events);
    assert_eq!(a, b);
}

#[test]
fn fn_call_without_contract_falls_back_to_function_topic() {
    let events = vec![
        make_event(None, vec![sym("fn_call"), sym("host_fn")], ScValue::Void, true),
        make_event(None, vec![sym("panic")], ScValue::Void, false),
    ];
    let deepest = DeepestErrorFinder::new().find_deepest(&events).expect("deepest error should be found");
    assert_eq!(deepest.contract_address, "host_fn");
    assert_eq!(deepest.function_name.as_deref(), Some("host_fn"));
}

// ---------------------------------------------------------------------------
// Event walker
// ---------------------------------------------------------------------------

fn walk(events: &[DiagnosticEventData]) -> Option<String> {
    DiagnosticEventWalker::new().locate_failing_contract(events)
}

#[test]
fn returns_contract_that_emitted_direct_failure() {
    let events = vec![
        make_typed_event(ContractEventType::System, Some(contract_hash(2)), vec![sym("fn_call"), sym("do_thing")], ScValue::Void, true),
        make_typed_event(ContractEventType::Contract, Some(contract_hash(2)), vec![sym("panic"), sym("out_of_bounds")], ScValue::Void, false),
    ];
    assert_eq!(walk(&events), Some(strkey(2)));
}

#[test]
fn returns_deepest_contract_in_nested_chain() {
    let events = vec![
        make_typed_event(ContractEventType::System, Some(contract_hash(2)), vec![sym("fn_call"), sym("b_func")], ScValue::Void, true),
        make_typed_event(ContractEventType::System, Some(contract_hash(3)), vec![sym("fn_call"), sym("c_func")], ScValue::Void, true),
        make_typed_event(ContractEventType::Contract, Some(contract_hash(3)), vec![sym("error"), sym("index_oob")], ScValue::Void, false),
    ];
    assert_eq!(walk(&events), Some(strkey(3)));
}

#[test]
fn returns_own_contract_id_when_stack_is_empty() {
    let events = vec![make_typed_event(ContractEventType::Contract, Some(contract_hash(1)), vec![sym("panic")], ScValue::Void, false)];
    assert_eq!(walk(&events), Some(strkey(1)));
}

#[test]
fn returns_none_when_no_failure() {
    let events = vec![
        make_typed_event(ContractEventType::System, Some(contract_hash(2)), vec![sym("fn_call"), sym("do_thing")], ScValue::Void, true),
        make_typed_event(ContractEventType::System, Some(contract_hash(2)), vec![sym("fn_return")], ScValue::Void, true),
    ];
    assert_eq!(walk(&events), None);
}

#[test]
fn returns_none_on_empty_input() {
    assert_eq!(walk(&[]), None);
}

#[test]
fn returns_none_when_all_events_are_successful() {
    let events = vec![
        make_typed_event(ContractEventType::Contract, Some(contract_hash(1)), vec![sym("transfer")], ScValue::Void, true),
        make_typed_event(ContractEventType::Contract, Some(contract_hash(2)), vec![sym("mint")], ScValue::Void, true),
    ];
    assert_eq!(walk(&events), None);
}

#[test]
fn returns_first_failure_chronologically() {
    let events = vec![
        make_typed_event(ContractEventType::Contract, Some(contract_hash(1)), vec![sym("error")], ScValue::Void, false),
        make_typed_event(ContractEventType::Contract, Some(contract_hash(2)), vec![sym("panic")], ScValue::Void, false),
    ];
    assert_eq!(walk(&events), Some(strkey(1)));
}

#[test]
fn stack_tracks_nested_calls_correctly() {
    let events = vec![
        make_typed_event(ContractEventType::System, Some(contract_hash(2)), vec![sym("fn_call"), sym("b_func")], ScValue::Void, true),
        make_typed_event(ContractEventType::System, Some(contract_hash(3)), vec![sym("fn_call"), sym("c_func")], ScValue::Void, true),
        make_typed_event(ContractEventType::Contract, Some(contract_hash(3)), vec![sym("panic")], ScValue::Void, false),
    ];
    assert_eq!(walk(&events), Some(strkey(3)));
}

#[test]
fn detects_failure_via_scval_error_payload() {
    let events = vec![
        make_typed_event(ContractEventType::System, Some(contract_hash(2)), vec![sym("fn_call"), sym("do_thing")], ScValue::Void, true),
        make_typed_event(ContractEventType::Contract, Some(contract_hash(2)), vec![sym("fn_return")], ScValue::Error(ScErrorValue::Contract(4)), true),
    ];
    assert_eq!(walk(&events), Some(strkey(2)));
}

#[test]
fn detects_failure_via_revert_topic() {
    let events = vec![
        make_typed_event(ContractEventType::System, Some(contract_hash(2)), vec![sym("fn_call"), sym("b_func")], ScValue::Void, true),
        make_typed_event(ContractEventType::System, Some(contract_hash(3)), vec![sym("fn_call"), sym("c_func")], ScValue::Void, true),
        make_typed_event(ContractEventType::Contract, Some(contract_hash(3)), vec![sym("revert")], ScValue::Void, true),
    ];
    assert_eq!(walk(&events), Some(strkey(3)));
}

#[test]
fn detects_failure_via_hosterror_topic() {
    let events = vec![
        make_typed_event(ContractEventType::System, Some(contract_hash(2)), vec![sym("fn_call"), sym("risky_op")], ScValue::Void, true),
        make_typed_event(ContractEventType::Contract, Some(contract_hash(2)), vec![sym("hosterror"), sym("budget_exceeded")], ScValue::Void, true),
    ];
    assert_eq!(walk(&events), Some(strkey(2)));
}

#[test]
fn detects_failure_via_trap_topic() {
    let events = vec![make_typed_event(ContractEventType::Contract, Some(contract_hash(1)), vec![sym("trap"), sym("division_by_zero")], ScValue::Void, true)];
    assert_eq!(walk(&events), Some(strkey(1)));
}

#[test]
fn detects_failure_via_failed_topic() {
    let events = vec![
        make_typed_event(ContractEventType::System, Some(contract_hash(2)), vec![sym("fn_call"), sym("do_thing")], ScValue::Void, true),
        make_typed_event(ContractEventType::Contract, Some(contract_hash(2)), vec![sym("assertion_failed")], ScValue::Void, true),
    ];
    assert_eq!(walk(&events), Some(strkey(2)));
}

#[test]
fn fn_call_without_contract_id_does_not_push() {
    let events = vec![
        make_typed_event(ContractEventType::System, None, vec![sym("fn_call"), sym("some_func")], ScValue::Void, true),
        make_typed_event(ContractEventType::Contract, Some(contract_hash(1)), vec![sym("error")], ScValue::Void, false),
    ];
    assert_eq!(walk(&events), Some(strkey(1)));
}

#[test]
fn default_walker_matches_new_walker() {
    let events = vec![make_typed_event(ContractEventType::Contract, Some(contract_hash(7)), vec![sym("error")], ScValue::Void, false)];
    assert_eq!(
        DiagnosticEventWalker.locate_failing_contract(&events),
        DiagnosticEventWalker::new().locate_failing_contract(&events)
    );
}

#[test]
fn fn_return_removes_contract_from_stack() {
    let events = vec![
        make_typed_event(ContractEventType::System, Some(contract_hash(2)), vec![sym("fn_call"), sym("b_func")], ScValue::Void, true),
        make_typed_event(ContractEventType::System, Some(contract_hash(2)), vec![sym("fn_return")], ScValue::Void, true),
        make_typed_event(ContractEventType::System, Some(contract_hash(1)), vec![sym("fn_call"), sym("c_func")], ScValue::Void, true),
        make_typed_event(ContractEventType::Contract, Some(contract_hash(1)), vec![sym("error")], ScValue::Void, true),
    ];
    assert_eq!(walk(&events), Some(strkey(1)));
}

#[test]
fn events_after_the_first_failure_do_not_change_the_answer() {
    let mut events = vec![
        fn_call(contract_hash(1), "a"),
        make_event(Some(contract_hash(1)), vec![sym("panic")], ScValue::Void, false),
    ];
    let before = walk(&events);
    events.push(fn_call(contract_hash(9), "late"));
    events.push(make_event(Some(contract_hash(9)), vec![sym("error")], ScValue::Void, false));
    assert_eq!(walk(&events), before);
    assert_eq!(before, Some(strkey(1)));
}

#[test]
fn first_failure_without_any_contract_locates_nothing() {
    let events = vec![
        make_event(None, vec![sym("panic")], ScValue::Void, false),
        make_event(Some(contract_hash(3)), vec![sym("error")], ScValue::Void, false),
    ];
    assert_eq!(walk(&events), None);
}

// ---------------------------------------------------------------------------
// Diagnostic enrichment
// ---------------------------------------------------------------------------

fn diagnostic_event(topic: &str, data: ScValue) -> DiagnosticEventData {
    make_event(None, vec![sym(topic)], data, false)
}

fn nested_cascade() -> Vec<DiagnosticEventData> {
    vec![
        diagnostic_event("fn_call", ScValue::Void),
        diagnostic_event("error", sym("outer")),
        diagnostic_event("fn_call", ScValue::Void),
        diagnostic_event("error", sym("inner")),
        diagnostic_event("fn_return", ScValue::Void),
        diagnostic_event("fn_return", ScValue::Void),
    ]
}

#[test]
fn deepest_error_event_prefers_nested_payload() {
    let deepest = deepest_error_event(&nested_cascade()).expect("deepest error event");
    assert_eq!(deepest.depth, 2);
    assert_eq!(deepest.payload, "inner");
    assert_eq!(deepest.topics, vec!["error".to_string()]);
}

fn xdr_diagnostic_event(topic: &str, data: stellar_xdr::curr::ScVal) -> stellar_xdr::curr::DiagnosticEvent {
    stellar_xdr::curr::DiagnosticEvent {
        in_successful_contract_call: false,
        event: ContractEvent {
            ext: ExtensionPoint::V0,
            contract_id: None,
            type_: stellar_xdr::curr::ContractEventType::Diagnostic,
            body: ContractEventBody::V0(ContractEventV0 {
                topics: vec![ScVal::Symbol(topic.try_into().unwrap())].try_into().unwrap(),
                data,
            }),
        },
    }
}

fn event_b64(topic: &str, data: stellar_xdr::curr::ScVal) -> String {
    xdr_diagnostic_event(topic, data).to_xdr_base64(Limits::none()).expect("encode diagnostic event")
}

fn xdr_sym(s: &str) -> stellar_xdr::curr::ScVal {
    stellar_xdr::curr::ScVal::Symbol(s.try_into().unwrap())
}

fn events_document(entries: Vec<Json>) -> Json {
    Json::Object(vec![("diagnosticEventsXdr".to_string(), Json::Array(entries))])
}

#[test]
fn enrich_report_adds_deepest_error_root_cause() {
    let tx_data = events_document(vec![
        Json::String(event_b64("fn_call", ScVal::Void)),
        Json::String(event_b64("error", xdr_sym("outer"))),
        Json::String(event_b64("fn_call", ScVal::Void)),
        Json::String(event_b64("error", xdr_sym("inner"))),
        Json::String(event_b64("fn_return", ScVal::Void)),
        Json::String(event_b64("fn_return", ScVal::Void)),
    ]);
    let mut report = DiagnosticReport::new("contract", 1, "HostError", "failure");
    enrich_report_from_document(&mut report, &tx_data).expect("enrich report");
    assert!(report
        .root_causes
        .iter()
        .any(|cause| cause.description.contains("call depth 2") && cause.description.contains("inner")));
    assert!(report.detailed_explanation.contains("Deepest error event"));
    assert!(report.detailed_explanation.contains("inner"));
}

#[test]
fn undecodable_entries_are_skipped_and_a_document_without_events_changes_nothing() {
    let decoded = decode_diagnostic_events(&vec![
        "not base64!".to_string(),
        event_b64("error", xdr_sym("boom")),
        "AAAA".to_string(),
    ]);
    assert_eq!(decoded.len(), 1);
    assert_eq!(decoded[0].event.topics, vec![sym("error")]);
    assert_eq!(decoded[0].event.data, sym("boom"));
    assert!(!decoded[0].in_successful_contract_call);
    assert_eq!(decoded[0].event.event_type, ContractEventType::Diagnostic);

    let mut report = DiagnosticReport::new("contract", 1, "HostError", "failure");
    let before = report.clone();
    enrich_report_from_document(&mut report, &Json::Object(vec![])).expect("enrich report");
    assert_eq!(report, before);

    let tx_data = events_document(vec![Json::Number(3), Json::String(event_b64("fn_call", ScVal::Void))]);
    enrich_report_from_document(&mut report, &tx_data).expect("enrich report");
    assert_eq!(report.detailed_explanation, "Diagnostic events trace:\n- [fn_call]");
}

#[test]
fn enrich_report_from_decoded_cascade() {
    let mut report = DiagnosticReport::new("contract", 1, "HostError", "failure");
    enrich_report(&mut report, &nested_cascade()).expect("enrich report");
    assert!(report
        .root_causes
        .iter()
        .any(|cause| cause.description.contains("call depth 2") && cause.description.contains("inner")));
    assert!(report.detailed_explanation.contains("Deepest error event"));
    assert!(report.detailed_explanation.contains("inner"));
}

#[test]
fn enrich_report_exact_texts() {
    let mut report = DiagnosticReport::new("contract", 1, "HostError", "failure");
    let events = vec![
        diagnostic_event("fn_call", ScValue::Void),
        make_event(None, vec![sym("budget_exceeded")], ScValue::U32(7), false),
    ];
    enrich_report(&mut report, &events).expect("enrich report");
    assert_eq!(report.root_causes.len(), 1);
    assert_eq!(report.root_causes[0].description, "Resource limit was exceeded during contract execution.");
    assert_eq!(report.suggested_fixes.len(), 1);
    assert_eq!(report.suggested_fixes[0].id, "increase_limits");
    assert_eq!(
        report.detailed_explanation,
        "Diagnostic events trace:\n- [fn_call]\n- [budget_exceeded]"
    );
    enrich_report(&mut report, &events).expect("enrich report again");
    assert_eq!(report.root_causes.len(), 1);
    assert_eq!(report.suggested_fixes.len(), 1);
}

#[test]
fn error_signal_in_topics_uses_joined_topics_without_payload() {
    let events = vec![make_event(None, vec![sym("call"), sym("Error"), ScValue::U64(5)], ScValue::Void, true)];
    let deepest = deepest_error_event(&events).expect("deepest error event");
    assert_eq!(deepest.depth, 1);
    assert_eq!(deepest.payload, "call > Error > 5");
}

#[test]
fn analyzing_an_event_twice_changes_nothing_more() {
    let event = make_event(None, vec![sym("storage"), sym("auth")], ScValue::U32(1), false);
    let mut report = DiagnosticReport::new("contract", 1, "HostError", "failure");
    analyze_diagnostic_event(&mut report, &event);
    let causes = report.root_causes.clone();
    let fixes = report.suggested_fixes.clone();
    let explanation = report.detailed_explanation.clone();
    assert_eq!(causes.len(), 2);
    analyze_diagnostic_event(&mut report, &event);
    assert_eq!(report.root_causes, causes);
    assert_eq!(report.suggested_fixes, fixes);
    assert_eq!(report.detailed_explanation, explanation);
}

#[test]
fn adding_the_deepest_root_cause_twice_changes_nothing_more() {
    let deepest = deepest_error_event(&nested_cascade()).expect("deepest error event");
    let mut report = DiagnosticReport::new("contract", 1, "HostError", "failure");
    add_deepest_error_root_cause(&mut report, &deepest);
    let causes = report.root_causes.clone();
    let explanation = report.detailed_explanation.clone();
    assert_eq!(causes.len(), 1);
    add_deepest_error_root_cause(&mut report, &deepest);
    assert_eq!(report.root_causes, causes);
    assert_eq!(report.detailed_explanation, explanation);
}
