use goslop::model::{CallSite, FunctionFingerprint, ParsedFile, ParsedFunction, Severity};
use goslop::rust_rules::{
    evaluate_rust_file_findings, has_nearby_safety_comment, non_test_call_findings,
    non_test_macro_findings, path_extension, unsafe_without_safety_comment_findings,
    RustAnalyzer, SourceLanguage,
};

fn function(name: &str, calls: Vec<CallSite>, is_test: bool, unsafe_lines: Vec<usize>, safety: Vec<usize>) -> ParsedFunction {
    ParsedFunction {
        fingerprint: FunctionFingerprint {
            name: name.to_string(),
            receiver_type: None,
            start_line: 1,
            end_line: 10,
            type_assertion_count: 0,
            call_count: calls.len(),
        },
        calls,
        has_context_parameter: false,
        doc_comment: None,
        dropped_error_lines: vec![],
        panic_on_error_lines: vec![],
        errorf_calls: vec![],
        context_factory_calls: vec![],
        goroutine_launch_lines: vec![],
        goroutine_without_shutdown_lines: vec![],
        sleep_in_loop_lines: vec![],
        busy_wait_lines: vec![],
        mutex_lock_in_loop_lines: vec![],
        allocation_in_loop_lines: vec![],
        fmt_in_loop_lines: vec![],
        reflection_in_loop_lines: vec![],
        string_concat_in_loop_lines: vec![],
        json_marshal_in_loop_lines: vec![],
        db_query_calls: vec![],
        is_test_function: is_test,
        unsafe_lines,
        safety_comment_lines: safety,
    }
}

fn call(receiver: Option<&str>, name: &str, line: usize) -> CallSite {
    CallSite { receiver: receiver.map(|r| r.to_string()), name: name.to_string(), line }
}

fn file(functions: Vec<ParsedFunction>) -> ParsedFile {
    ParsedFile {
        path: "src/lib.rs".to_string(),
        package_name: None,
        syntax_error: false,
        byte_size: 42,
        functions,
        imports: vec![],
        symbols: vec![],
    }
}

#[test]
fn flags_macro_leftovers_with_exact_messages() {
    let f = file(vec![function(
        "work",
        vec![call(None, "todo!", 3), call(None, "dbg!", 4), call(None, "println!", 5)],
        false,
        vec![],
        vec![],
    )]);
    let findings = evaluate_rust_file_findings(&f);
    assert_eq!(findings.len(), 2);
    assert_eq!(findings[0].rule_id, "todo_macro_leftover");
    assert_eq!(findings[0].message, "function work leaves todo! in non-test Rust code");
    assert_eq!(findings[0].evidence, vec!["macro invocation: todo!".to_string()]);
    assert_eq!(findings[0].start_line, 3);
    assert_eq!(findings[0].end_line, 3);
    assert_eq!(findings[0].path, "src/lib.rs");
    assert_eq!(findings[0].function_name.as_deref(), Some("work"));
    assert!(matches!(findings[0].severity, Severity::Warning));
    assert_eq!(findings[1].rule_id, "dbg_macro_leftover");
    assert_eq!(findings[1].start_line, 4);
}

#[test]
fn flags_unwrap_and_expect_with_receivers() {
    let f = file(vec![function(
        "load",
        vec![call(Some("value"), "unwrap", 7), call(None, "expect", 8)],
        false,
        vec![],
        vec![],
    )]);
    let findings = evaluate_rust_file_findings(&f);
    assert_eq!(findings.len(), 2);
    assert_eq!(findings[0].rule_id, "unwrap_in_non_test_code");
    assert_eq!(findings[0].evidence, vec!["method call: value.unwrap()".to_string()]);
    assert_eq!(findings[0].message, "function load calls unwrap() in non-test Rust code");
    assert_eq!(findings[1].rule_id, "expect_in_non_test_code");
    assert_eq!(findings[1].evidence, vec!["call: expect()".to_string()]);
}

#[test]
fn test_functions_only_get_unsafe_findings() {
    let f = file(vec![function(
        "it_works",
        vec![call(None, "panic!", 2), call(Some("x"), "unwrap", 3)],
        true,
        vec![12],
        vec![],
    )]);
    let findings = evaluate_rust_file_findings(&f);
    assert_eq!(findings.len(), 1);
    assert_eq!(findings[0].rule_id, "unsafe_without_safety_comment");
    assert_eq!(findings[0].evidence, vec!["unsafe usage line: 12".to_string()]);
    assert_eq!(
        findings[0].message,
        "function it_works uses unsafe without a nearby SAFETY comment"
    );
    let function = &f.functions[0];
    assert!(non_test_macro_findings(&f, function, "panic!", "panic_macro_leftover", "x").is_empty());
    assert!(non_test_call_findings(&f, function, "unwrap", "unwrap_in_non_test_code", "x").is_empty());
}

#[test]
fn documented_unsafe_is_accepted() {
    let f = file(vec![function("raw", vec![], false, vec![20, 40, 7], vec![18, 39, 2])]);
    let findings = unsafe_without_safety_comment_findings(&f, &f.functions[0]);
    assert_eq!(findings.len(), 1);
    assert_eq!(findings[0].start_line, 7);
    assert_eq!(findings[0].evidence, vec!["unsafe usage line: 7".to_string()]);
}

#[test]
fn safety_comment_window_is_two_lines_above() {
    assert!(has_nearby_safety_comment(10, &[8]));
    assert!(has_nearby_safety_comment(10, &[10]));
    assert!(!has_nearby_safety_comment(10, &[7]));
    assert!(!has_nearby_safety_comment(10, &[11]));
    assert!(has_nearby_safety_comment(1, &[0]));
    assert!(has_nearby_safety_comment(0, &[0]));
    assert!(!has_nearby_safety_comment(0, &[]));
}

#[test]
fn findings_come_function_by_function_in_rule_order() {
    let f = file(vec![
        function("a", vec![call(None, "unwrap", 5), call(None, "unimplemented!", 6)], false, vec![7], vec![]),
        function("b", vec![call(None, "unreachable!", 9)], false, vec![], vec![]),
    ]);
    let findings = evaluate_rust_file_findings(&f);
    let ids: Vec<&str> = findings.iter().map(|f| f.rule_id.as_str()).collect();
    assert_eq!(
        ids,
        vec![
            "unimplemented_macro_leftover",
            "unwrap_in_non_test_code",
            "unsafe_without_safety_comment",
            "unreachable_macro_leftover"
        ]
    );
    for finding in &findings {
        assert_eq!(finding.start_line, finding.end_line);
        assert!(matches!(finding.severity, Severity::Warning));
        assert_eq!(finding.path, "src/lib.rs");
    }
}

#[test]
fn report_keeps_fingerprints_in_order() {
    let f = file(vec![
        function("first", vec![], false, vec![], vec![]),
        function("second", vec![call(None, "x", 1)], false, vec![], vec![]),
    ]);
    let report = f.to_report();
    assert_eq!(report.path, "src/lib.rs");
    assert_eq!(report.byte_size, 42);
    assert!(!report.syntax_error);
    assert_eq!(report.package_name, None);
    let names: Vec<&str> = report.functions.iter().map(|f| f.name.as_str()).collect();
    assert_eq!(names, vec!["first", "second"]);
    assert_eq!(report.functions[1].call_count, 1);
}

#[test]
fn rust_backend_recognizes_rs_paths() {
    let backend = RustAnalyzer;
    assert!(matches!(backend.language(), SourceLanguage::Rust));
    assert_eq!(backend.supported_extensions(), vec!["rs".to_string()]);
    assert!(backend.supports_path("src/main.rs"));
    assert!(backend.supports_path("lib.tar.rs"));
    assert!(backend.supports_path("dir.rs/"));
    assert!(backend.supports_path("a/b.rs/."));
    assert!(!backend.supports_path(".rs"));
    assert!(!backend.supports_path("main.go"));
    assert!(!backend.supports_path("a.rs/.."));
    assert!(!backend.supports_path("Makefile"));
    assert!(!backend.supports_path("x.RS"));
    assert_eq!(path_extension("archive.tar.gz").as_deref(), Some("gz"));
    assert_eq!(path_extension("noext"), None);
    assert_eq!(path_extension("trailing."), Some(String::new()));
    assert_eq!(path_extension("/"), None);
}

#[test]
fn evaluate_file_findings_matches_the_file_rules() {
    let f = file(vec![function("w", vec![call(None, "todo!", 1)], false, vec![], vec![])]);
    let backend = RustAnalyzer;
    assert_eq!(backend.evaluate_file_findings(&f).len(), 1);
}
