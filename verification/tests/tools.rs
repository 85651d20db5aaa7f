use grat_core::updater::update_check_due;
use grat_core::badges::{DiagnosticBadge, DiagnosticCategory};
use grat_core::cache::{eviction_victim, total_cache_size, CacheCategory, CacheFileInfo, CacheStore, WasmCache};
use grat_core::config::{join_path, ConfigManager};
use grat_core::error::GratError;
use grat_core::json::Json;
use grat_core::linter::{
    get_line_number, lint_files, parse_error_message, parse_error_position, TaxonomyEntry, TaxonomyFile,
};
use grat_core::replay::{
    choose_reconstruction_path, classify_trace_event, cold_path_error, parse_frame_label, parse_protocol_version, parse_u64,
    HostTraceKind, ReconstructionPath, TraceEventType,
};

// ---------------------------------------------------------------------------
// Configuration
// ---------------------------------------------------------------------------

#[test]
fn default_path_uses_prism_config_toml() {
    let manager = ConfigManager::new().expect("manager with default path");
    let path = manager.path();
    assert!(path.ends_with(".prism/config.toml") || path.ends_with(".prism\\config.toml"));
}

#[test]
fn explicit_path_is_kept() {
    let manager = ConfigManager::with_path("/tmp/x/config.toml".to_string());
    assert_eq!(manager.path(), "/tmp/x/config.toml");
    assert_eq!(join_path("/home/u/", ".prism"), "/home/u/.prism");
    assert_eq!(join_path("/home/u", "/abs"), "/abs");
}

// ---------------------------------------------------------------------------
// Badges
// ---------------------------------------------------------------------------

#[test]
fn badge_formats_with_icon_or_fallback() {
    let b = DiagnosticBadge::new(DiagnosticCategory::Error, true);
    assert_eq!(b.format_message("boom"), "\x1b[31m✖ \x1b[0mboom");
    let plain = DiagnosticBadge::new(DiagnosticCategory::Warning, false);
    assert_eq!(plain.format_message("careful"), "\x1b[33m[WARN] \x1b[0mcareful");
    assert_eq!(plain.to_text(), "\x1b[33m[WARN]\x1b[0m");
    assert_eq!(DiagnosticCategory::Success.icon(), "✔");
    assert_eq!(DiagnosticCategory::Info.fallback(), "[INFO]");
    assert_eq!(DiagnosticCategory::Info.color_code(), "\x1b[34m");
}

// ---------------------------------------------------------------------------
// Cache
// ---------------------------------------------------------------------------

#[test]
fn cache_entries_live_under_their_category() {
    let store = CacheStore::new("/var/cache/grat".to_string(), 10);
    assert_eq!(store.max_size(), 10 * 1024 * 1024);
    assert_eq!(store.entry_path(CacheCategory::WasmBlob, "test_key"), "/var/cache/grat/wasm/test_key");
    assert_eq!(CacheCategory::TransactionResult.as_str(), "tx");
    assert!(store.check_entry_size(10 * 1024 * 1024).is_ok());
    match store.check_entry_size(10 * 1024 * 1024 + 1) {
        Err(GratError::CacheError(m)) => {
            assert_eq!(m, "Cache entry exceeds configured cache size limit of 10485760 bytes")
        },
        other => panic!("unexpected {other:?}"),
    }
    assert!(store.needs_eviction(10 * 1024 * 1024, 1));
    assert!(!store.needs_eviction(5, 5));
    assert!(store.needs_eviction(u64::MAX, 1));
}

#[test]
fn oldest_file_is_evicted_first() {
    let file = |t: u128, p: &[&str], size: u64| CacheFileInfo {
        accessed_nanos: t,
        path_components: p.iter().map(|s| s.to_string()).collect(),
        size,
    };
    let files = vec![file(5, &["b"], 1), file(3, &["z"], 2), file(3, &["a", "b"], 3), file(9, &["a"], 4)];
    assert_eq!(eviction_victim(&files), Some(2));
    assert_eq!(eviction_victim(&[]), None);
    assert_eq!(total_cache_size(&[1, 2, 3]), 6);
    assert_eq!(total_cache_size(&[u64::MAX, 2]), u64::MAX);
}

#[test]
fn wasm_cache_key_is_sha256_hex() {
    assert_eq!(
        WasmCache::<()>::hash_bytecode(b"abc"),
        "ba7816bf8f01cfea414140de5dae2223b00361a396177a9cb410ff61f20015ad"
    );
    let cache = WasmCache::new(7u8);
    assert_eq!(*cache.provider(), 7u8);
}

#[test]
fn test_wasm_cache_hash_consistency() {
    let bytecode = b"test bytes";
    let hash1 = WasmCache::<()>::hash_bytecode(bytecode);
    let hash2 = WasmCache::<()>::hash_bytecode(bytecode);
    assert_eq!(hash1, hash2);

    let hash3 = WasmCache::<()>::hash_bytecode(b"other bytes");
    assert_ne!(hash1, hash3);
}

// ---------------------------------------------------------------------------
// Replay
// ---------------------------------------------------------------------------

#[test]
fn reconstruction_path_depends_on_age() {
    assert_eq!(choose_reconstruction_path(100_000, 60_000), ReconstructionPath::HotPath);
    assert_eq!(choose_reconstruction_path(100_000, 40_000), ReconstructionPath::ColdPath);
    assert_eq!(choose_reconstruction_path(10, 20), ReconstructionPath::HotPath);
    match cold_path_error(7) {
        GratError::ReplayError(m) => assert!(m.starts_with("Cold-path (archived) ledger reconstruction for ledger 7 ")),
        other => panic!("unexpected {other:?}"),
    }
}

#[test]
fn protocol_version_from_number_or_text() {
    assert_eq!(parse_protocol_version(Some(&Json::Number(22))), 22);
    assert_eq!(parse_protocol_version(Some(&Json::String("21".to_string()))), 21);
    assert_eq!(parse_protocol_version(Some(&Json::String("+7".to_string()))), 7);
    assert_eq!(parse_protocol_version(Some(&Json::String("x1".to_string()))), 0);
    assert_eq!(parse_protocol_version(Some(&Json::String("99999999999999999999".to_string()))), 0);
    assert_eq!(parse_protocol_version(Some(&Json::Number(4294967297))), 1);
    assert_eq!(parse_protocol_version(None), 0);
}

#[test]
fn frame_labels_name_contract_and_function() {
    assert_eq!(
        parse_frame_label("push VM:abc:transfer(1, 2)", "push ", "("),
        (Some("VM:abc".to_string()), Some("transfer".to_string()))
    );
    assert_eq!(parse_frame_label("pop VM:abc: -> Ok(())", "pop ", " ->"), (Some("VM:abc".to_string()), None));
    assert_eq!(parse_frame_label("push ::f(", "push ", "("), (None, Some("f".to_string())));
    assert_eq!(parse_frame_label("other", "push ", "("), (None, None));
    assert_eq!(parse_frame_label("push nothing", "push ", "("), (None, None));
}

#[test]
fn trace_events_are_classified() {
    let (kind, data) = classify_trace_event(&HostTraceKind::Begin);
    assert_eq!(kind, TraceEventType::BudgetCheckpoint);
    assert_eq!(data.to_compact_string(), "{\"phase\":\"begin\"}");
    let (kind, data) = classify_trace_event(&HostTraceKind::PopCtx { detail: "pop VM:c1:go -> Err".to_string(), is_error: true });
    assert_eq!(kind, TraceEventType::InvocationEnd);
    assert_eq!(
        data.to_compact_string(),
        "{\"contract_id\":\"VM:c1\",\"detail\":\"pop VM:c1:go -> Err\",\"function\":\"go\",\"is_error\":true}"
    );
}

// ---------------------------------------------------------------------------
// Taxonomy linter
// ---------------------------------------------------------------------------

fn valid_entry(id: &str, category: &str, code: u32) -> TaxonomyEntry {
    TaxonomyEntry {
        id: id.to_string(),
        category: category.to_string(),
        code,
        name: format!("TestName{code}"),
        severity: "Error".to_string(),
        since_protocol: Some(20),
        deprecated_protocol: None,
        summary: "Test summary is long enough.".to_string(),
        detailed_explanation: "Test detailed explanation is also long enough.".to_string(),
        common_causes: vec![],
        suggested_fixes: vec![],
        related_errors: vec![],
        documentation_url: None,
    }
}

fn render_file(entries: &[TaxonomyEntry]) -> String {
    let mut s = String::from(
        "[category]\nname = \"Test\"\ndescription = \"Test data (must be long enough)\"\nsource_module = \"test\"\n",
    );
    for e in entries {
        s.push_str(&format!(
            "\n[[errors]]\nid = \"{}\"\ncategory = \"{}\"\ncode = {}\nname = \"{}\"\nseverity = \"{}\"\nsummary = \"{}\"\ndetailed_explanation = \"{}\"\n",
            e.id, e.category, e.code, e.name, e.severity, e.summary, e.detailed_explanation
        ));
    }
    s
}

fn file_of(entries: Vec<TaxonomyEntry>) -> TaxonomyFile {
    TaxonomyFile {
        file_name: "test.toml".to_string(),
        content: render_file(&entries),
        category_description: "Test data (must be long enough)".to_string(),
        entries,
    }
}

fn lint_or_panic(files: &[TaxonomyFile]) {
    if let Err(m) = lint_files(files) {
        panic!("{}", m);
    }
}

#[test]
fn valid_entry_passes() {
    let files = vec![file_of(vec![valid_entry("test.entry.1", "budget", 1), valid_entry("test.entry.2", "storage", 2)])];
    assert!(lint_files(&files).is_ok());
}

#[test]
#[should_panic(expected = "duplicate (category, code) pair")]
fn duplicate_category_code_fails() {
    lint_or_panic(&[file_of(vec![valid_entry("test.dup.a", "budget", 1), valid_entry("test.dup.b", "budget", 1)])]);
}

#[test]
#[should_panic(expected = "documentation_url")]
fn malformed_documentation_url_fails() {
    let mut entry = valid_entry("test.bad.url", "budget", 42);
    entry.documentation_url = Some("not a url".to_string());
    lint_or_panic(&[file_of(vec![entry])]);
}

#[test]
fn valid_documentation_url_passes() {
    let mut entry = valid_entry("test.good.url", "budget", 43);
    entry.documentation_url = Some("https://example.com/docs".to_string());
    assert!(lint_files(&[file_of(vec![entry])]).is_ok());
}

#[test]
#[should_panic(expected = "invalid severity")]
fn bad_severity_fails() {
    let mut entry = valid_entry("test.bad.severity", "budget", 44);
    entry.severity = "BadSeverity".to_string();
    lint_or_panic(&[file_of(vec![entry])]);
}

#[test]
#[should_panic(expected = "since_protocol must be > 0")]
fn since_protocol_zero_fails() {
    let mut entry = valid_entry("test.bad.sp", "budget", 45);
    entry.since_protocol = Some(0);
    lint_or_panic(&[file_of(vec![entry])]);
}

#[test]
#[should_panic(expected = "deprecated_protocol")]
fn deprecated_before_since_fails() {
    let mut entry = valid_entry("test.bad.depr", "budget", 46);
    entry.since_protocol = Some(20);
    entry.deprecated_protocol = Some(15);
    lint_or_panic(&[file_of(vec![entry])]);
}

#[test]
#[should_panic(expected = "related_errors references")]
fn unresolved_related_error_fails() {
    let mut entry = valid_entry("test.rel", "budget", 47);
    entry.related_errors = vec!["nonexistent.id".to_string()];
    lint_or_panic(&[file_of(vec![entry])]);
}

#[test]
#[should_panic(expected = "summary for entry 'test.short' is too short")]
fn short_summary_fails() {
    let mut entry = valid_entry("test.short", "budget", 48);
    entry.summary = "Error occurred".to_string();
    lint_or_panic(&[file_of(vec![entry])]);
}

#[test]
fn lint_messages_point_at_the_line() {
    let mut entry = valid_entry("test.short", "budget", 48);
    entry.summary = "Error occurred".to_string();
    let file = file_of(vec![entry]);
    assert_eq!(
        lint_files(&[file]).unwrap_err(),
        "Taxonomy validation error in test.toml at line 12: summary for entry 'test.short' is too short (must be at least 15 characters)"
    );
    let a = valid_entry("a.1", "budget", 1);
    let b = valid_entry("b.1", "budget", 1);
    let files = vec![file_of(vec![a]), TaxonomyFile { file_name: "other.toml".to_string(), ..file_of(vec![b]) }];
    assert_eq!(
        lint_files(&files).unwrap_err(),
        "Taxonomy validation error in other.toml at line 9: duplicate (category, code) pair (budget, 1) already defined by entry 'a.1' in test.toml"
    );
}

#[test]
fn line_numbers_of_entries_and_fields() {
    let content = "[[errors]]\nid = 'x.1'\nname = \"A\"\r\n\n[[errors]]\nid = \"x.2\"\n  description = \"d\"\n";
    assert_eq!(get_line_number(content, "x.1", None), Some(2));
    assert_eq!(get_line_number(content, "x.1", Some("name")), Some(3));
    assert_eq!(get_line_number(content, "x.1", Some("summary")), Some(2));
    assert_eq!(get_line_number(content, "x.2", Some("description")), Some(7));
    assert_eq!(get_line_number(content, "x.3", None), None);
}

#[test]
fn parse_errors_report_line_and_column() {
    let content = b"a = 1\nbb = ]\n";
    assert_eq!(parse_error_position(content, Some(11)), (2, 6));
    assert_eq!(parse_error_position(content, None), (1, 1));
    assert_eq!(
        parse_error_message("t.toml", 2, 6, "invalid"),
        "Taxonomy TOML parse error in t.toml at line 2 (column 6): invalid"
    );
}

#[test]
fn decimal_text_parses_back() {
    for n in [0u64, 9, 10, 12_345, u64::MAX] {
        assert_eq!(parse_u64(&n.to_string()), Some(n));
    }
    assert_eq!(parse_u64("+42"), Some(42));
    assert_eq!(parse_u64("18446744073709551616"), None);
    assert_eq!(parse_u64(""), None);
}

#[test]
fn json_member_reads_back_what_was_set() {
    let m = Json::insert_member(Vec::new(), "b".to_string(), Json::Number(1));
    let m = Json::insert_member(m, "a".to_string(), Json::Number(2));
    let m = Json::insert_member(m, "b".to_string(), Json::Number(3));
    let doc = Json::Object(m);
    assert_eq!(doc.get("b"), Some(&Json::Number(3)));
    assert_eq!(doc.get("a"), Some(&Json::Number(2)));
    assert_eq!(doc.get("c"), None);
}

#[test]
fn taxonomy_update_is_checked_at_most_daily() {
    assert!(!update_check_due(true, None));
    assert!(!update_check_due(true, Some(1_000_000)));
    assert!(update_check_due(false, None));
    assert!(!update_check_due(false, Some(86_399)));
    assert!(update_check_due(false, Some(86_400)));
}

#[test]
fn config_path_follows_the_home_directory() {
    let m = ConfigManager::for_home(Some("/home/ada".to_string())).unwrap();
    assert_eq!(m.path(), "/home/ada/.prism/config.toml");
    let m = ConfigManager::for_home(Some("/home/ada/".to_string())).unwrap();
    assert_eq!(m.path(), "/home/ada/.prism/config.toml");
    assert_eq!(
        ConfigManager::for_home(None),
        Err(GratError::Internal("Could not determine home directory for Prism config".to_string()))
    );
}
