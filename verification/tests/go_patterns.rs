use goslop::go::comments::extract_doc_comment;
use goslop::go::patterns::{
    contains_string_literal, context_factory_name, extract_cancel_name, is_allocation_call,
    is_database_query_method, is_expression_node_kind, is_fmt_hot_path_call,
    is_identifier_name, is_json_marshal_call, is_mutex_lock_call, is_reflection_call,
    is_string_concat_assignment, is_time_sleep_call, package_alias_from_import_path,
    split_assignment,
};
use goslop::model::ImportSpec;

fn imports(pairs: &[(&str, &str)]) -> Vec<ImportSpec> {
    pairs
        .iter()
        .map(|(alias, path)| ImportSpec { alias: alias.to_string(), path: path.to_string() })
        .collect()
}

#[test]
fn import_alias_is_the_last_path_segment() {
    assert_eq!(package_alias_from_import_path("fmt"), "fmt");
    assert_eq!(package_alias_from_import_path("encoding/json"), "json");
    assert_eq!(package_alias_from_import_path("example.com/x/"), "");
    for path in ["a/b/c", "github.com/acme/utils", "/", "plain"] {
        assert!(!package_alias_from_import_path(path).contains('/'));
    }
}

#[test]
fn sleep_calls_follow_the_time_alias() {
    let plain = imports(&[("time", "time")]);
    let renamed = imports(&[("clock", "time"), ("time", "example.com/time")]);
    assert!(is_time_sleep_call("time.Sleep", &plain));
    assert!(!is_time_sleep_call("time.Sleep", &renamed));
    assert!(is_time_sleep_call("clock.Sleep", &renamed));
    assert!(!is_time_sleep_call("time.Sleeps", &plain));
    assert!(!is_time_sleep_call("time.Sleep", &[]));
}

#[test]
fn lock_calls_end_in_lock_or_rlock() {
    assert!(is_mutex_lock_call("mu.Lock"));
    assert!(is_mutex_lock_call("s.mu.RLock"));
    assert!(!is_mutex_lock_call("mu.Unlock"));
    assert!(!is_mutex_lock_call("Lock"));
}

#[test]
fn allocation_calls_are_make_new_and_buffers() {
    let b = imports(&[("bytes", "bytes")]);
    assert!(is_allocation_call("make", &[]));
    assert!(is_allocation_call("new", &[]));
    assert!(is_allocation_call("bytes.NewBuffer", &b));
    assert!(is_allocation_call("bytes.NewBufferString", &b));
    assert!(!is_allocation_call("bytes.NewBuffer", &[]));
    assert!(!is_allocation_call("makeThing", &b));
}

#[test]
fn fmt_reflection_and_json_calls() {
    let i = imports(&[("fmt", "fmt"), ("r", "reflect"), ("json", "encoding/json")]);
    for name in ["Sprintf", "Sprint", "Sprintln", "Fprintf", "Fprint", "Fprintln"] {
        assert!(is_fmt_hot_path_call(&format!("fmt.{name}"), &i));
    }
    assert!(!is_fmt_hot_path_call("fmt.Println", &i));
    assert!(is_reflection_call("r.TypeOf", &i));
    assert!(is_reflection_call("r.", &i));
    assert!(!is_reflection_call("reflect.TypeOf", &i));
    assert!(is_json_marshal_call("json.Marshal", &i));
    assert!(is_json_marshal_call("json.MarshalIndent", &i));
    assert!(!is_json_marshal_call("json.Unmarshal", &i));
}

#[test]
fn database_methods_and_expression_kinds() {
    for name in ["Query", "QueryContext", "QueryRow", "QueryRowContext", "Exec", "ExecContext", "Get", "Select", "Raw", "First", "Find", "Take", "Preload"] {
        assert!(is_database_query_method(name));
    }
    assert!(!is_database_query_method("query"));
    assert!(is_expression_node_kind("call_expression"));
    assert!(is_expression_node_kind("interpreted_string_literal"));
    assert!(!is_expression_node_kind("expression_list"));
    assert!(!is_expression_node_kind("block"));
}

#[test]
fn assignments_split_at_walrus_first() {
    assert_eq!(split_assignment("a := b == c"), Some(("a ".to_string(), " b == c".to_string())));
    assert_eq!(split_assignment("x = y"), Some(("x ".to_string(), " y".to_string())));
    assert_eq!(split_assignment("f(x)"), None);
}

#[test]
fn identifiers_and_string_literals() {
    assert!(is_identifier_name("_x1"));
    assert!(is_identifier_name("Name"));
    assert!(!is_identifier_name("1x"));
    assert!(!is_identifier_name(""));
    assert!(!is_identifier_name("a.b"));
    assert!(!is_identifier_name("é"));
    assert!(contains_string_literal("x + \"y\""));
    assert!(contains_string_literal("`raw`"));
    assert!(!contains_string_literal("x + y"));
}

#[test]
fn context_factories_and_cancel_names() {
    let i = imports(&[("ctxpkg", "context")]);
    assert_eq!(context_factory_name(" ctxpkg.WithCancel (parent)", &i).as_deref(), Some("WithCancel"));
    assert_eq!(context_factory_name("ctxpkg.WithDeadline(p, d)", &i).as_deref(), Some("WithDeadline"));
    assert_eq!(context_factory_name("context.WithTimeout(p, d)", &i), None);
    assert_eq!(extract_cancel_name("ctx, cancel "), Some("cancel".to_string()));
    assert_eq!(extract_cancel_name("var ctx, stop"), Some("stop".to_string()));
    assert_eq!(extract_cancel_name("ctx, _"), None);
    assert_eq!(extract_cancel_name("ctx, "), None);
    assert_eq!(extract_cancel_name("a, b.c"), None);
}

#[test]
fn string_concatenation_assignments() {
    let vars = vec!["out".to_string()];
    assert!(is_string_concat_assignment("out += part", &vars));
    assert!(is_string_concat_assignment("other += \"x\"", &vars));
    assert!(!is_string_concat_assignment("count += 1", &vars));
    assert!(is_string_concat_assignment("out = out + part", &vars));
    assert!(is_string_concat_assignment("out = prefix + \"x\"", &vars));
    assert!(!is_string_concat_assignment("other = other + part", &vars));
    assert!(!is_string_concat_assignment("out(x)", &vars));
}

#[test]
fn doc_comments_above_a_declaration() {
    assert_eq!(extract_doc_comment("// a\nfunc f() {}\n", 0), None);
    assert_eq!(extract_doc_comment("// a\nfunc f() {}\n", 5), None);
    assert_eq!(extract_doc_comment("x := 1\nfunc f() {}\n", 1), None);
    assert_eq!(extract_doc_comment("//   Hello  \r\nfunc f() {}\r\n", 1).as_deref(), Some("Hello"));
    let block = "/*\n * Line one\n *\n * Line two\n */\nfunc f() {}\n";
    assert_eq!(extract_doc_comment(block, 5).as_deref(), Some("Line one\nLine two"));
    assert_eq!(extract_doc_comment("/* */\nfunc f() {}\n", 1), None);
    let mixed = "/* block */\n// line\nfunc f() {}\n";
    assert_eq!(extract_doc_comment(mixed, 2).as_deref(), Some("block"));
    assert_eq!(extract_doc_comment("// a\n\n// b\nfunc f() {}\n", 3).as_deref(), Some("b"));
}

#[test]
fn one_line_block_comment_keeps_collecting_upward() {
    let source = "package p\n/* Foo */\nfunc f() {}\n";
    assert_eq!(extract_doc_comment(source, 2).as_deref(), Some("package p\nFoo"));
    let opened = "x := 1\n/* start\nmiddle */\nfunc f() {}\n";
    assert_eq!(extract_doc_comment(opened, 3).as_deref(), Some("start\nmiddle"));
}
