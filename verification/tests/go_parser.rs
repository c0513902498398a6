use goslop::go::comments::extract_doc_comment;
use goslop::go::patterns::package_alias_from_import_path;
use goslop::go::treecopy::parse_file;
use goslop::model::SymbolKind;

#[test]
fn derives_import_alias_from_path() {
    assert_eq!(
        package_alias_from_import_path("github.com/acme/utils"),
        "utils"
    );
}

#[test]
fn collects_package_level_function_alias_vars_as_symbols() {
    let source = r#"package pdf

import font "example.com/font"

var (
    IsCustomFont = font.IsCustomFont
    PlainValue = 42
)

func collectAllStandardFontsInTemplate() {
    IsCustomFont("Helvetica")
}
"#;

    let parsed = parse_file("sample.go", source).expect("parse should work");
    assert!(parsed.symbols.iter().any(|symbol| {
        symbol.name == "IsCustomFont" && matches!(symbol.kind, SymbolKind::Function)
    }));
    assert!(
        !parsed
            .symbols
            .iter()
            .any(|symbol| symbol.name == "PlainValue")
    );
}

#[test]
fn extracts_doc_comment_text() {
    let source = "// Run Processes The Input\n// This function does X by doing Y because Z\nfunc Run() {}\n";

    let comment = extract_doc_comment(source, 2).expect("doc comment should exist");
    assert_eq!(
        comment,
        "Run Processes The Input\nThis function does X by doing Y because Z"
    );
}

#[test]
fn collects_error_handling_signals() {
    let source = r#"package sample

import (
    "fmt"
    "log"
)

func Run(err error) error {
    _ = err
    if err != nil {
        panic(err)
    }
    return fmt.Errorf("wrap: %v", err)
}

func LogOnly(err error) {
    if err != nil {
        log.Fatal(err)
    }
}
"#;

    let parsed = parse_file("sample.go", source).expect("parse should work");
    let run = parsed
        .functions
        .iter()
        .find(|function| function.fingerprint.name == "Run")
        .expect("Run should be parsed");
    let log_only = parsed
        .functions
        .iter()
        .find(|function| function.fingerprint.name == "LogOnly")
        .expect("LogOnly should be parsed");

    assert_eq!(run.dropped_error_lines, vec![9]);
    assert_eq!(run.panic_on_error_lines, vec![10]);
    assert_eq!(run.errorf_calls.len(), 1);
    assert!(run.errorf_calls[0].mentions_err);
    assert!(!run.errorf_calls[0].uses_percent_w);
    assert_eq!(log_only.panic_on_error_lines, vec![17]);
}

#[test]
fn collects_context_and_sleep_signals() {
    let source = r#"package sample

import (
    "context"
    "time"
)

func Poll(ctx context.Context) {
    for {
        time.Sleep(time.Second)
        _ = ctx
    }
}
"#;

    let parsed = parse_file("sample.go", source).expect("parse should work");
    let poll = parsed
        .functions
        .iter()
        .find(|function| function.fingerprint.name == "Poll")
        .expect("Poll should be parsed");

    assert!(poll.has_context_parameter);
    assert_eq!(poll.sleep_in_loop_lines, vec![10]);
}

#[test]
fn collects_context_factory_busy_wait_and_json_signals() {
    let source = r#"package sample

import (
    "context"
    "encoding/json"
    "time"
)

func Run(parent context.Context, items []string) {
    ctx, cancel := context.WithTimeout(parent, time.Second)
    _ = ctx

    for {
        select {
        default:
            return
        }
    }

    for _, item := range items {
        _, _ = json.Marshal(item)
    }

    _ = cancel
}
"#;

    let parsed = parse_file("sample.go", source).expect("parse should work");
    let run = parsed
        .functions
        .iter()
        .find(|function| function.fingerprint.name == "Run")
        .expect("Run should be parsed");

    assert_eq!(run.context_factory_calls.len(), 1);
    assert_eq!(run.context_factory_calls[0].cancel_name, "cancel");
    assert_eq!(run.context_factory_calls[0].factory_name, "WithTimeout");
    assert_eq!(run.busy_wait_lines, vec![14]);
    assert_eq!(run.json_marshal_in_loop_lines, vec![21]);
}

#[test]
fn collects_concurrency_and_db_signals() {
    let source = r#"package sample

import (
    "context"
    "fmt"
    "reflect"
    "time"
)

func Run(ctx context.Context, db Queryer, items []string, mu MutexLike) {
    go func() {
        for {
            _ = ctx
        }
    }()

    for _, item := range items {
        mu.Lock()
        time.Sleep(time.Millisecond)
        _, _ = db.QueryContext(ctx, "SELECT * FROM widgets WHERE name LIKE '%foo%'")
        _ = fmt.Sprintf("%s", item)
        _ = reflect.TypeOf(item)
        _ = make([]byte, 16)
        mu.Unlock()
    }
}

type Queryer interface {
    QueryContext(context.Context, string) (any, error)
}

type MutexLike interface {
    Lock()
    Unlock()
}
"#;

    let parsed = parse_file("sample.go", source).expect("parse should work");
    let run = parsed
        .functions
        .iter()
        .find(|function| function.fingerprint.name == "Run")
        .expect("Run should be parsed");

    assert_eq!(run.goroutine_without_shutdown_lines, vec![11]);
    assert_eq!(run.mutex_lock_in_loop_lines, vec![18]);
    assert_eq!(run.allocation_in_loop_lines, vec![23]);
    assert_eq!(run.fmt_in_loop_lines, vec![21]);
    assert_eq!(run.reflection_in_loop_lines, vec![22]);
    assert_eq!(run.db_query_calls.len(), 1);
    assert!(run.db_query_calls[0].in_loop);
    assert_eq!(
        run.db_query_calls[0].query_text.as_deref(),
        Some("SELECT * FROM widgets WHERE name LIKE '%foo%'")
    );
}

#[test]
fn collects_string_concat_and_goroutine_signals() {
    let source = r#"package sample

func Build(parts []string) string {
    out := ""
    for _, part := range parts {
        out += part
        go notify(part)
    }
    return out
}

func notify(value string) {}
"#;

    let parsed = parse_file("sample.go", source).expect("parse should work");
    let build = parsed
        .functions
        .iter()
        .find(|function| function.fingerprint.name == "Build")
        .expect("Build should be parsed");

    assert_eq!(build.string_concat_in_loop_lines, vec![6]);
    assert_eq!(build.goroutine_launch_lines, vec![7]);
}

#[test]
fn orders_functions_symbols_and_imports() {
    let source = r#"package demo

import (
    z "zeta/pkg"
    "alpha/pkg"
    "context"
)

type Shape interface {
    Area() float64
}

type Point struct {
    X int
}

type ID int

func (p *Point) Move(dx int) {
    p.X += dx
}

func helper() {}

var Handler func()
"#;
    let parsed = parse_file("demo.go", source).expect("parse should work");
    assert_eq!(parsed.package_name.as_deref(), Some("demo"));
    assert!(!parsed.syntax_error);
    assert_eq!(parsed.byte_size, source.len());
    assert_eq!(parsed.path, "demo.go");
    let aliases: Vec<&str> = parsed.imports.iter().map(|i| i.alias.as_str()).collect();
    assert_eq!(aliases, vec!["context", "pkg", "z"]);
    let names: Vec<&str> = parsed.functions.iter().map(|f| f.fingerprint.name.as_str()).collect();
    assert_eq!(names, vec!["Move", "helper"]);
    let mv = &parsed.functions[0];
    assert_eq!(mv.fingerprint.receiver_type.as_deref(), Some("Point"));
    assert_eq!(mv.fingerprint.start_line, 19);
    assert_eq!(mv.fingerprint.end_line, 21);
    let symbols: Vec<(&str, SymbolKind, usize)> = parsed
        .symbols
        .iter()
        .map(|s| (s.name.as_str(), s.kind, s.line))
        .collect();
    assert_eq!(
        symbols,
        vec![
            ("Shape", SymbolKind::Interface, 9),
            ("Point", SymbolKind::Struct, 13),
            ("ID", SymbolKind::Type, 17),
            ("Move", SymbolKind::Method, 19),
            ("helper", SymbolKind::Function, 23),
            ("Handler", SymbolKind::Function, 25),
        ]
    );
    assert_eq!(parsed.symbols[3].receiver_type.as_deref(), Some("Point"));
    for window in parsed.functions.windows(2) {
        assert!(window[0].fingerprint.start_line <= window[1].fingerprint.start_line);
    }
}

#[test]
fn keeps_syntax_error_files_and_reports_them() {
    let source = "package broken\n\nfunc Run( {\n";
    let parsed = parse_file("broken.go", source).expect("parse should work");
    assert!(parsed.syntax_error);
    let report = parsed.to_report();
    assert!(report.syntax_error);
    assert_eq!(report.path, "broken.go");
}

#[test]
fn records_calls_errorf_and_doc_comments() {
    let source = r#"package sample

import "fmt"

// Wrap adds context.
func Wrap(err error) error {
    log.Println("x")
    helper()
    v, ok := any(err).(fmt.Stringer)
    _, _ = v, ok
    return fmt.Errorf("wrap: %w", err)
}
"#;
    let parsed = parse_file("sample.go", source).expect("parse should work");
    let wrap = &parsed.functions[0];
    assert_eq!(wrap.doc_comment.as_deref(), Some("Wrap adds context."));
    let calls: Vec<(Option<&str>, &str, usize)> = wrap
        .calls
        .iter()
        .map(|c| (c.receiver.as_deref(), c.name.as_str(), c.line))
        .collect();
    assert_eq!(
        calls,
        vec![
            (Some("log"), "Println", 7),
            (None, "helper", 8),
            (None, "any", 9),
            (Some("fmt"), "Errorf", 11),
        ]
    );
    assert_eq!(wrap.fingerprint.call_count, 4);
    assert_eq!(wrap.fingerprint.type_assertion_count, 1);
    assert_eq!(wrap.errorf_calls.len(), 1);
    assert_eq!(wrap.errorf_calls[0].format_string.as_deref(), Some("wrap: %w"));
    assert!(wrap.errorf_calls[0].uses_percent_w);
    assert!(wrap.errorf_calls[0].mentions_err);
    assert!(!wrap.has_context_parameter);
    assert!(!wrap.is_test_function);
    assert!(wrap.unsafe_lines.is_empty());
}

#[test]
fn goroutines_with_shutdown_signals_are_not_flagged() {
    let source = r#"package sample

func Serve(done chan struct{}) {
    go func() {
        for {
            select {
            case <-done:
                return
            }
        }
    }()
}
"#;
    let parsed = parse_file("sample.go", source).expect("parse should work");
    let serve = &parsed.functions[0];
    assert!(serve.goroutine_without_shutdown_lines.is_empty());
    assert_eq!(serve.goroutine_launch_lines, vec![4]);
    assert!(serve.busy_wait_lines.is_empty());
}

#[test]
fn signals_outside_loops_are_not_flagged() {
    let source = r#"package sample

import (
    "fmt"
    "time"
)

func Once(db DB) {
    time.Sleep(time.Second)
    _ = fmt.Sprintf("%d", 1)
    _ = make([]int, 3)
    db.Exec("DELETE FROM t")
}
"#;
    let parsed = parse_file("sample.go", source).expect("parse should work");
    let once = &parsed.functions[0];
    assert!(once.sleep_in_loop_lines.is_empty());
    assert!(once.fmt_in_loop_lines.is_empty());
    assert!(once.allocation_in_loop_lines.is_empty());
    assert_eq!(once.db_query_calls.len(), 1);
    assert!(!once.db_query_calls[0].in_loop);
    assert_eq!(once.db_query_calls[0].receiver.as_deref(), Some("db"));
    assert_eq!(once.db_query_calls[0].method_name, "Exec");
    assert_eq!(once.db_query_calls[0].query_text.as_deref(), Some("DELETE FROM t"));
}

#[test]
fn local_vars_are_not_package_symbols() {
    let source = r#"package sample

var Top = strings.ToUpper

func f() {
    var inner = strings.ToLower
    _ = inner
}
"#;
    let parsed = parse_file("sample.go", source).expect("parse should work");
    let names: Vec<&str> = parsed.symbols.iter().map(|s| s.name.as_str()).collect();
    assert_eq!(names, vec!["Top", "f"]);
}

#[test]
fn non_ascii_text_keeps_positions() {
    let source = "package sample\n\n// Grüße — 世界\nfunc Hello() {\n    s := \"héllo\"\n    for {\n        s += \"é\"\n    }\n}\n";
    let parsed = parse_file("sample.go", source).expect("parse should work");
    let hello = &parsed.functions[0];
    assert_eq!(hello.fingerprint.name, "Hello");
    assert_eq!(hello.doc_comment.as_deref(), Some("Grüße — 世界"));
    assert_eq!(hello.string_concat_in_loop_lines, vec![7]);
    assert_eq!(parsed.byte_size, source.len());
}

#[test]
fn recorded_lines_lie_within_the_function_body() {
    let source = r#"package sample

import (
    "context"
    "database/sql"
    "fmt"
    "time"
)

func Work(ctx context.Context, db *sql.DB, items []string) error {
    for _, item := range items {
        time.Sleep(time.Second)
        if _, err := db.Query("SELECT 1"); err != nil {
            return fmt.Errorf("query %s: %w", item, err)
        }
    }
    c, cancel := context.WithTimeout(ctx, time.Second)
    defer cancel()
    go func() {
        _ = c
    }()
    return nil
}

func After() {}
"#;

    let parsed = parse_file("sample.go", source).expect("parse should work");
    let work = parsed
        .functions
        .iter()
        .find(|f| f.fingerprint.name == "Work")
        .expect("Work should be parsed");
    let lo = work.fingerprint.start_line;
    let hi = work.fingerprint.end_line;
    assert_eq!((lo, hi), (10, 23));
    let mut recorded: Vec<usize> = Vec::new();
    recorded.extend(work.calls.iter().map(|c| c.line));
    recorded.extend(work.errorf_calls.iter().map(|c| c.line));
    recorded.extend(work.context_factory_calls.iter().map(|c| c.line));
    recorded.extend(work.db_query_calls.iter().map(|c| c.line));
    recorded.extend(work.sleep_in_loop_lines.iter().copied());
    recorded.extend(work.goroutine_launch_lines.iter().copied());
    assert!(!recorded.is_empty());
    assert!(work.sleep_in_loop_lines.contains(&12));
    assert!(work.errorf_calls.iter().any(|c| c.line == 14));
    assert!(recorded.iter().all(|line| lo <= *line && *line <= hi));
}
