//! Parsing a Go file: the functions, imports and symbols of its syntax tree,
//! and the signals found in each function body.

use vstd::prelude::*;
use crate::go::collect::{
    CallCollector, DbQueryCollector, ErrorfCollector, FactoryCollector, ImportCollector,
    LineCollector, LineParam, LineRule, StringVarCollector, SymbolCollector, extract_receiver_type,
    receiver_type_at,
};
use crate::go::comments::{doc_comment, doc_comment_of_lines, source_lines, split_lines};
use crate::go::patterns::{any_import_hit, any_import_hit_exec, ImportRule};
use crate::go::tree::{find_package_name, package_name_from};
use crate::model::{
    CallSite, CallSiteView, ContextFactoryCall, ContextFactoryCallView, DbQueryCall,
    DbQueryCallView, DeclaredSymbol, DeclaredSymbolView, FormattedErrorCall,
    FormattedErrorCallView, FunctionFingerprint, FunctionFingerprintView, ImportSpec,
    ImportSpecView, ParsedFile, ParsedFileView, ParsedFunction, ParsedFunctionView,
};
use crate::order::{sort_stable, stable_sort, SortKey};
use crate::syntax::{
    count_descendants, count_kind, walk, walk_exec, Collector, CountedKind, Ctx, FieldName, Scope,
    SyntaxTree,
};
use crate::text::{
    chars_to_string, lemma_chars_deep_view, lemma_lex_less_asymmetric, lemma_lex_less_transitive,
    lex_less, str_less,
};
use crate::syntax::str_eq;

verus! {

/// The context in which a traversal starts: outside any loop, at no known
/// scope.
pub open spec fn start_ctx() -> Ctx {
    Ctx { in_loop: false, scope: Scope::Unknown }
}

proof fn lemma_usize_deep_view(v: Vec<usize>)
    ensures
        v.deep_view() == v@,
{
    assert(v.deep_view() =~= v@);
}

/// The calls under node `b`, in pre-order.
pub open spec fn calls_under(t: SyntaxTree, src: Seq<char>, b: int) -> Seq<CallSiteView> {
    walk::<CallCollector>((), t, src, b, start_ctx())
}

pub fn collect_calls(t: &SyntaxTree, src: &[char], b: usize) -> (r: Vec<CallSite>)
    requires
        t.wf(src@.len() as int),
        b < t.nodes@.len(),
    ensures
        r.deep_view() == calls_under(*t, src@, b as int),
{
    let mut out: Vec<CallSite> = Vec::new();
    walk_exec(&CallCollector, t, src, b, Ctx { in_loop: false, scope: Scope::Unknown }, &mut out);
    assert(out.deep_view() =~= calls_under(*t, src@, b as int));
    out
}

/// The variables under node `b` that hold strings.
pub open spec fn string_vars_under(t: SyntaxTree, src: Seq<char>, b: int) -> Seq<Seq<char>> {
    walk::<StringVarCollector>((), t, src, b, start_ctx())
}

pub fn collect_explicit_string_variables(t: &SyntaxTree, src: &[char], b: usize) -> (r: Vec<
    Vec<char>,
>)
    requires
        t.wf(src@.len() as int),
        b < t.nodes@.len(),
    ensures
        r.deep_view() == string_vars_under(*t, src@, b as int),
{
    let mut out: Vec<Vec<char>> = Vec::new();
    walk_exec(
        &StringVarCollector,
        t,
        src,
        b,
        Ctx { in_loop: false, scope: Scope::Unknown },
        &mut out,
    );
    assert(out.deep_view() =~= string_vars_under(*t, src@, b as int));
    out
}

/// The lines under node `b` that show the signal of `rule`.
pub open spec fn signal_lines(
    t: SyntaxTree,
    src: Seq<char>,
    b: int,
    rule: LineRule,
    imports: Seq<ImportSpecView>,
    vars: Seq<Seq<char>>,
) -> Seq<usize> {
    walk::<LineCollector>(
        LineParam { rule, imports, string_vars: vars },
        t,
        src,
        b,
        start_ctx(),
    )
}

pub fn collect_signal_lines(
    t: &SyntaxTree,
    src: &[char],
    b: usize,
    rule: LineRule,
    imports: &[ImportSpec],
    vars: &Vec<Vec<char>>,
) -> (r: Vec<usize>)
    requires
        t.wf(src@.len() as int),
        b < t.nodes@.len(),
    ensures
        r@ == signal_lines(*t, src@, b as int, rule, imports.deep_view(), vars.deep_view()),
{
    let mut out: Vec<usize> = Vec::new();
    let c = LineCollector { rule, imports, string_vars: vars };
    walk_exec(&c, t, src, b, Ctx { in_loop: false, scope: Scope::Unknown }, &mut out);
    proof {
        lemma_usize_deep_view(out);
        assert(out.deep_view() =~= signal_lines(
            *t,
            src@,
            b as int,
            rule,
            imports.deep_view(),
            vars.deep_view(),
        ));
    }
    out
}

pub fn collect_sleep_in_loop_lines(
    t: &SyntaxTree,
    src: &[char],
    b: usize,
    imports: &[ImportSpec],
) -> (r: Vec<usize>)
    requires
        t.wf(src@.len() as int),
        b < t.nodes@.len(),
    ensures
        r@ == signal_lines(*t, src@, b as int, LineRule::SleepInLoop, imports.deep_view(), seq![]),
{
    collect_import_signal_lines(t, src, b, LineRule::SleepInLoop, imports)
}

pub fn collect_busy_wait_lines(t: &SyntaxTree, src: &[char], b: usize) -> (r: Vec<usize>)
    requires
        t.wf(src@.len() as int),
        b < t.nodes@.len(),
    ensures
        r@ == signal_lines(*t, src@, b as int, LineRule::BusyWait, seq![], seq![]),
{
    collect_plain_signal_lines(t, src, b, LineRule::BusyWait)
}

pub fn collect_string_concat_in_loop_lines(t: &SyntaxTree, src: &[char], b: usize) -> (r: Vec<
    usize,
>)
    requires
        t.wf(src@.len() as int),
        b < t.nodes@.len(),
    ensures
        r@ == signal_lines(
            *t,
            src@,
            b as int,
            LineRule::StringConcatInLoop,
            seq![],
            string_vars_under(*t, src@, b as int),
        ),
{
    let vars = collect_explicit_string_variables(t, src, b);
    let no_imports: Vec<ImportSpec> = Vec::new();
    assert(no_imports.deep_view() =~= Seq::<ImportSpecView>::empty());
    collect_signal_lines(t, src, b, LineRule::StringConcatInLoop, no_imports.as_slice(), &vars)
}

pub fn collect_goroutine_launch_lines(t: &SyntaxTree, src: &[char], b: usize) -> (r: Vec<usize>)
    requires
        t.wf(src@.len() as int),
        b < t.nodes@.len(),
    ensures
        r@ == signal_lines(*t, src@, b as int, LineRule::GoroutineLaunch, seq![], seq![]),
{
    collect_plain_signal_lines(t, src, b, LineRule::GoroutineLaunch)
}

pub fn collect_goroutine_without_shutdown_lines(t: &SyntaxTree, src: &[char], b: usize) -> (r: Vec<
    usize,
>)
    requires
        t.wf(src@.len() as int),
        b < t.nodes@.len(),
    ensures
        r@ == signal_lines(
            *t,
            src@,
            b as int,
            LineRule::GoroutineWithoutShutdown,
            seq![],
            seq![],
        ),
{
    collect_plain_signal_lines(t, src, b, LineRule::GoroutineWithoutShutdown)
}

pub fn collect_mutex_lock_in_loop_lines(t: &SyntaxTree, src: &[char], b: usize) -> (r: Vec<usize>)
    requires
        t.wf(src@.len() as int),
        b < t.nodes@.len(),
    ensures
        r@ == signal_lines(*t, src@, b as int, LineRule::MutexLockInLoop, seq![], seq![]),
{
    collect_plain_signal_lines(t, src, b, LineRule::MutexLockInLoop)
}

pub fn collect_dropped_error_lines(t: &SyntaxTree, src: &[char], b: usize) -> (r: Vec<usize>)
    requires
        t.wf(src@.len() as int),
        b < t.nodes@.len(),
    ensures
        r@ == signal_lines(*t, src@, b as int, LineRule::DroppedError, seq![], seq![]),
{
    collect_plain_signal_lines(t, src, b, LineRule::DroppedError)
}

pub fn collect_panic_on_error_lines(t: &SyntaxTree, src: &[char], b: usize) -> (r: Vec<usize>)
    requires
        t.wf(src@.len() as int),
        b < t.nodes@.len(),
    ensures
        r@ == signal_lines(*t, src@, b as int, LineRule::PanicOnError, seq![], seq![]),
{
    collect_plain_signal_lines(t, src, b, LineRule::PanicOnError)
}

fn collect_plain_signal_lines(t: &SyntaxTree, src: &[char], b: usize, rule: LineRule) -> (r: Vec<
    usize,
>)
    requires
        t.wf(src@.len() as int),
        b < t.nodes@.len(),
    ensures
        r@ == signal_lines(*t, src@, b as int, rule, seq![], seq![]),
{
    let no_imports: Vec<ImportSpec> = Vec::new();
    let none: Vec<Vec<char>> = Vec::new();
    assert(none.deep_view() =~= Seq::<Seq<char>>::empty());
    assert(no_imports.deep_view() =~= Seq::<ImportSpecView>::empty());
    collect_signal_lines(t, src, b, rule, no_imports.as_slice(), &none)
}

fn collect_import_signal_lines(
    t: &SyntaxTree,
    src: &[char],
    b: usize,
    rule: LineRule,
    imports: &[ImportSpec],
) -> (r: Vec<usize>)
    requires
        t.wf(src@.len() as int),
        b < t.nodes@.len(),
    ensures
        r@ == signal_lines(*t, src@, b as int, rule, imports.deep_view(), seq![]),
{
    let none: Vec<Vec<char>> = Vec::new();
    assert(none.deep_view() =~= Seq::<Seq<char>>::empty());
    collect_signal_lines(t, src, b, rule, imports, &none)
}

pub fn collect_allocation_in_loop_lines(
    t: &SyntaxTree,
    src: &[char],
    b: usize,
    imports: &[ImportSpec],
) -> (r: Vec<usize>)
    requires
        t.wf(src@.len() as int),
        b < t.nodes@.len(),
    ensures
        r@ == signal_lines(
            *t,
            src@,
            b as int,
            LineRule::AllocationInLoop,
            imports.deep_view(),
            seq![],
        ),
{
    collect_import_signal_lines(t, src, b, LineRule::AllocationInLoop, imports)
}

pub fn collect_fmt_in_loop_lines(t: &SyntaxTree, src: &[char], b: usize, imports: &[ImportSpec]) -> (r:
    Vec<usize>)
    requires
        t.wf(src@.len() as int),
        b < t.nodes@.len(),
    ensures
        r@ == signal_lines(*t, src@, b as int, LineRule::FmtInLoop, imports.deep_view(), seq![]),
{
    collect_import_signal_lines(t, src, b, LineRule::FmtInLoop, imports)
}

pub fn collect_reflection_in_loop_lines(
    t: &SyntaxTree,
    src: &[char],
    b: usize,
    imports: &[ImportSpec],
) -> (r: Vec<usize>)
    requires
        t.wf(src@.len() as int),
        b < t.nodes@.len(),
    ensures
        r@ == signal_lines(
            *t,
            src@,
            b as int,
            LineRule::ReflectionInLoop,
            imports.deep_view(),
            seq![],
        ),
{
    collect_import_signal_lines(t, src, b, LineRule::ReflectionInLoop, imports)
}

pub fn collect_json_marshal_in_loop_lines(
    t: &SyntaxTree,
    src: &[char],
    b: usize,
    imports: &[ImportSpec],
) -> (r: Vec<usize>)
    requires
        t.wf(src@.len() as int),
        b < t.nodes@.len(),
    ensures
        r@ == signal_lines(
            *t,
            src@,
            b as int,
            LineRule::JsonMarshalInLoop,
            imports.deep_view(),
            seq![],
        ),
{
    collect_import_signal_lines(t, src, b, LineRule::JsonMarshalInLoop, imports)
}

/// The context factory calls under node `b`.
pub open spec fn factory_calls_under(
    t: SyntaxTree,
    src: Seq<char>,
    b: int,
    imports: Seq<ImportSpecView>,
) -> Seq<ContextFactoryCallView> {
    walk::<FactoryCollector>(imports, t, src, b, start_ctx())
}

pub fn collect_context_factory_calls(
    t: &SyntaxTree,
    src: &[char],
    b: usize,
    imports: &[ImportSpec],
) -> (r: Vec<ContextFactoryCall>)
    requires
        t.wf(src@.len() as int),
        b < t.nodes@.len(),
    ensures
        r.deep_view() == factory_calls_under(*t, src@, b as int, imports.deep_view()),
{
    let mut out: Vec<ContextFactoryCall> = Vec::new();
    let c = FactoryCollector { imports };
    walk_exec(&c, t, src, b, Ctx { in_loop: false, scope: Scope::Unknown }, &mut out);
    assert(out.deep_view() =~= factory_calls_under(*t, src@, b as int, imports.deep_view()));
    out
}

/// The database query calls under node `b`.
pub open spec fn db_calls_under(t: SyntaxTree, src: Seq<char>, b: int) -> Seq<DbQueryCallView> {
    walk::<DbQueryCollector>((), t, src, b, start_ctx())
}

pub fn collect_db_query_calls(t: &SyntaxTree, src: &[char], b: usize) -> (r: Vec<DbQueryCall>)
    requires
        t.wf(src@.len() as int),
        b < t.nodes@.len(),
    ensures
        r.deep_view() == db_calls_under(*t, src@, b as int),
{
    let mut out: Vec<DbQueryCall> = Vec::new();
    walk_exec(&DbQueryCollector, t, src, b, Ctx { in_loop: false, scope: Scope::Unknown }, &mut out);
    assert(out.deep_view() =~= db_calls_under(*t, src@, b as int));
    out
}

/// The `fmt.Errorf` calls under node `b`.
pub open spec fn errorf_calls_under(t: SyntaxTree, src: Seq<char>, b: int) -> Seq<
    FormattedErrorCallView,
> {
    walk::<ErrorfCollector>((), t, src, b, start_ctx())
}

pub fn collect_errorf_calls(t: &SyntaxTree, src: &[char], b: usize) -> (r: Vec<FormattedErrorCall>)
    requires
        t.wf(src@.len() as int),
        b < t.nodes@.len(),
    ensures
        r.deep_view() == errorf_calls_under(*t, src@, b as int),
{
    let mut out: Vec<FormattedErrorCall> = Vec::new();
    walk_exec(&ErrorfCollector, t, src, b, Ctx { in_loop: false, scope: Scope::Unknown }, &mut out);
    assert(out.deep_view() =~= errorf_calls_under(*t, src@, b as int));
    out
}

/// Whether the parameter list of function `i` mentions `Context` under the
/// name that `context` is imported as.
pub open spec fn has_context_parameter(
    t: SyntaxTree,
    src: Seq<char>,
    i: int,
    imports: Seq<ImportSpecView>,
) -> bool {
    match t.field(i, FieldName::Parameters) {
        Some(p) => match t.text(src, p as int) {
            Some(x) => any_import_hit(ImportRule::ContextParameter, imports, x),
            None => false,
        },
        None => false,
    }
}

pub fn function_has_context_parameter(
    t: &SyntaxTree,
    src: &[char],
    i: usize,
    imports: &[ImportSpec],
) -> (r: bool)
    requires
        t.wf(src@.len() as int),
        i < t.nodes@.len(),
    ensures
        r == has_context_parameter(*t, src@, i as int, imports.deep_view()),
{
    match t.field_of(i, FieldName::Parameters, Ghost(src@.len() as int)) {
        Some(p) => match t.text_of(src, p) {
            Some(x) => any_import_hit_exec(ImportRule::ContextParameter, imports, x.as_slice()),
            None => false,
        },
        None => false,
    }
}

/// The fingerprint of function `i`: its name, receiver type, lines, the
/// number of type assertions and of calls in its body.
pub open spec fn fingerprint_at(
    t: SyntaxTree,
    src: Seq<char>,
    i: int,
    receiver_type: Option<Seq<char>>,
    type_assertion_count: usize,
    call_count: usize,
) -> Option<FunctionFingerprintView> {
    match t.field(i, FieldName::Name) {
        Some(nn) => match t.text(src, nn as int) {
            Some(x) => Some(
                FunctionFingerprintView {
                    name: x,
                    receiver_type,
                    start_line: t.line(i),
                    end_line: (t.nodes@[i].end_row + 1) as usize,
                    type_assertion_count,
                    call_count,
                },
            ),
            None => None,
        },
        None => None,
    }
}

pub fn build_function_fingerprint(
    t: &SyntaxTree,
    src: &[char],
    i: usize,
    receiver_type: Option<String>,
    type_assertion_count: usize,
    call_count: usize,
) -> (r: Option<FunctionFingerprint>)
    requires
        t.wf(src@.len() as int),
        i < t.nodes@.len(),
    ensures
        r.deep_view() == fingerprint_at(
            *t,
            src@,
            i as int,
            receiver_type.deep_view(),
            type_assertion_count,
            call_count,
        ),
{
    let n: Ghost<int> = Ghost(src@.len() as int);
    proof {
        assert(t.node_wf(i as int, src@.len() as int));
    }
    match t.field_of(i, FieldName::Name, n) {
        Some(nn) => match t.text_of(src, nn) {
            Some(x) => {
                let fp = FunctionFingerprint {
                    name: chars_to_string(x.as_slice()),
                    receiver_type,
                    start_line: t.line_of(i, n),
                    end_line: t.nodes[i].end_row + 1,
                    type_assertion_count,
                    call_count,
                };
                assert(Some(fp).deep_view() == Some(fp.deep_view()));
                Some(fp)
            },
            None => None,
        },
        None => None,
    }
}

/// What the analysis gathers about function declaration `i`, given the
/// file's imports and lines.  There is nothing when the function has no
/// body or no name.
pub open spec fn parsed_function_at(
    t: SyntaxTree,
    src: Seq<char>,
    i: int,
    imports: Seq<ImportSpecView>,
    lines: Seq<Seq<char>>,
) -> Option<ParsedFunctionView> {
    match t.field(i, FieldName::Body) {
        None => None,
        Some(body) => {
            let b = body as int;
            let calls = calls_under(t, src, b);
            let tac = count_kind(t, src, b, CountedKind::TypeAssertion) as usize;
            let none: Seq<ImportSpecView> = seq![];
            let no_vars: Seq<Seq<char>> = seq![];
            match fingerprint_at(
                t,
                src,
                i,
                receiver_type_at(t, src, i),
                tac,
                calls.len() as usize,
            ) {
                None => None,
                Some(fp) => Some(
                    ParsedFunctionView {
                        fingerprint: fp,
                        calls: calls,
                        has_context_parameter: has_context_parameter(t, src, i, imports),
                        doc_comment: doc_comment(lines, t.nodes@[i].start_row as int),
                        dropped_error_lines: signal_lines(
                            t,
                            src,
                            b,
                            LineRule::DroppedError,
                            none,
                            no_vars,
                        ),
                        panic_on_error_lines: signal_lines(
                            t,
                            src,
                            b,
                            LineRule::PanicOnError,
                            none,
                            no_vars,
                        ),
                        errorf_calls: errorf_calls_under(t, src, b),
                        context_factory_calls: factory_calls_under(t, src, b, imports),
                        goroutine_launch_lines: signal_lines(
                            t,
                            src,
                            b,
                            LineRule::GoroutineLaunch,
                            none,
                            no_vars,
                        ),
                        goroutine_without_shutdown_lines: signal_lines(
                            t,
                            src,
                            b,
                            LineRule::GoroutineWithoutShutdown,
                            none,
                            no_vars,
                        ),
                        sleep_in_loop_lines: signal_lines(
                            t,
                            src,
                            b,
                            LineRule::SleepInLoop,
                            imports,
                            no_vars,
                        ),
                        busy_wait_lines: signal_lines(t, src, b, LineRule::BusyWait, none, no_vars),
                        mutex_lock_in_loop_lines: signal_lines(
                            t,
                            src,
                            b,
                            LineRule::MutexLockInLoop,
                            none,
                            no_vars,
                        ),
                        allocation_in_loop_lines: signal_lines(
                            t,
                            src,
                            b,
                            LineRule::AllocationInLoop,
                            imports,
                            no_vars,
                        ),
                        fmt_in_loop_lines: signal_lines(
                            t,
                            src,
                            b,
                            LineRule::FmtInLoop,
                            imports,
                            no_vars,
                        ),
                        reflection_in_loop_lines: signal_lines(
                            t,
                            src,
                            b,
                            LineRule::ReflectionInLoop,
                            imports,
                            no_vars,
                        ),
                        string_concat_in_loop_lines: signal_lines(
                            t,
                            src,
                            b,
                            LineRule::StringConcatInLoop,
                            none,
                            string_vars_under(t, src, b),
                        ),
                        json_marshal_in_loop_lines: signal_lines(
                            t,
                            src,
                            b,
                            LineRule::JsonMarshalInLoop,
                            imports,
                            no_vars,
                        ),
                        db_query_calls: db_calls_under(t, src, b),
                        is_test_function: false,
                        unsafe_lines: seq![],
                        safety_comment_lines: seq![],
                    },
                ),
            }
        },
    }
}


/// Gathers what the analysis knows about function declaration `i`.
pub fn parse_function_node(
    t: &SyntaxTree,
    src: &[char],
    i: usize,
    imports: &[ImportSpec],
    lines: &Vec<Vec<char>>,
) -> (r: Option<ParsedFunction>)
    requires
        t.wf(src@.len() as int),
        i < t.nodes@.len(),
    ensures
        r.deep_view() == parsed_function_at(
            *t,
            src@,
            i as int,
            imports.deep_view(),
            lines.deep_view(),
        ),
{
    let n: Ghost<int> = Ghost(src@.len() as int);
    let body = match t.field_of(i, FieldName::Body, n) {
        Some(b) => b,
        None => {
            return None;
        },
    };
    let calls = collect_calls(t, src, body);
    let type_assertion_count = count_descendants(t, src, body, CountedKind::TypeAssertion);
    let has_context_parameter = function_has_context_parameter(t, src, i, imports);
    let doc_comment = match doc_comment_of_lines(lines, t.nodes[i].start_row) {
        Some(c) => {
            proof {
                lemma_chars_deep_view(c);
            }
            Some(chars_to_string(c.as_slice()))
        },
        None => None,
    };
    let dropped_error_lines = collect_dropped_error_lines(t, src, body);
    let panic_on_error_lines = collect_panic_on_error_lines(t, src, body);
    let errorf_calls = collect_errorf_calls(t, src, body);
    let context_factory_calls = collect_context_factory_calls(t, src, body, imports);
    let goroutine_launch_lines = collect_goroutine_launch_lines(t, src, body);
    let goroutine_without_shutdown_lines = collect_goroutine_without_shutdown_lines(t, src, body);
    let sleep_in_loop_lines = collect_sleep_in_loop_lines(t, src, body, imports);
    let busy_wait_lines = collect_busy_wait_lines(t, src, body);
    let mutex_lock_in_loop_lines = collect_mutex_lock_in_loop_lines(t, src, body);
    let allocation_in_loop_lines = collect_allocation_in_loop_lines(t, src, body, imports);
    let fmt_in_loop_lines = collect_fmt_in_loop_lines(t, src, body, imports);
    let reflection_in_loop_lines = collect_reflection_in_loop_lines(t, src, body, imports);
    let string_concat_in_loop_lines = collect_string_concat_in_loop_lines(t, src, body);
    let json_marshal_in_loop_lines = collect_json_marshal_in_loop_lines(t, src, body, imports);
    let db_query_calls = collect_db_query_calls(t, src, body);
    let receiver_type = extract_receiver_type(t, src, i);
    assert(calls.deep_view().len() == calls@.len());
    let fingerprint = match build_function_fingerprint(
        t,
        src,
        i,
        receiver_type,
        type_assertion_count,
        calls.len(),
    ) {
        Some(f) => f,
        None => {
            return None;
        },
    };
    let unsafe_lines: Vec<usize> = Vec::new();
    let safety_comment_lines: Vec<usize> = Vec::new();
    let pf = ParsedFunction {
        fingerprint,
        calls,
        has_context_parameter,
        doc_comment,
        dropped_error_lines,
        panic_on_error_lines,
        errorf_calls,
        context_factory_calls,
        goroutine_launch_lines,
        goroutine_without_shutdown_lines,
        sleep_in_loop_lines,
        busy_wait_lines,
        mutex_lock_in_loop_lines,
        allocation_in_loop_lines,
        fmt_in_loop_lines,
        reflection_in_loop_lines,
        string_concat_in_loop_lines,
        json_marshal_in_loop_lines,
        db_query_calls,
        is_test_function: false,
        unsafe_lines,
        safety_comment_lines,
    };
    assert(pf.unsafe_lines@ =~= Seq::<usize>::empty());
    assert(pf.safety_comment_lines@ =~= Seq::<usize>::empty());
    assert(Some(pf).deep_view() == Some(pf.deep_view()));
    Some(pf)
}

/// Gathers the functions and methods of a file.
pub struct FunctionCollector<'a> {
    pub imports: &'a [ImportSpec],
    pub lines: &'a Vec<Vec<char>>,
}

impl<'a> Collector for FunctionCollector<'a> {
    type Item = ParsedFunction;

    type Param = (Seq<ImportSpecView>, Seq<Seq<char>>);

    open spec fn param(&self) -> (Seq<ImportSpecView>, Seq<Seq<char>>) {
        (self.imports.deep_view(), self.lines.deep_view())
    }

    open spec fn own_items(
        p: (Seq<ImportSpecView>, Seq<Seq<char>>),
        t: SyntaxTree,
        src: Seq<char>,
        i: int,
        ctx: Ctx,
    ) -> Seq<ParsedFunctionView> {
        if t.kind_is(i, "function_declaration"@) || t.kind_is(i, "method_declaration"@) {
            match parsed_function_at(t, src, i, p.0, p.1) {
                Some(f) => seq![f],
                None => Seq::empty(),
            }
        } else {
            Seq::empty()
        }
    }

    open spec fn descends(
        p: (Seq<ImportSpecView>, Seq<Seq<char>>),
        t: SyntaxTree,
        src: Seq<char>,
        i: int,
    ) -> bool {
        true
    }

    fn collect_own(
        &self,
        t: &SyntaxTree,
        src: &[char],
        i: usize,
        ctx: Ctx,
        out: &mut Vec<ParsedFunction>,
    ) {
        if t.kind_eq(i, "function_declaration") || t.kind_eq(i, "method_declaration") {
            if let Some(f) = parse_function_node(t, src, i, self.imports, self.lines) {
                out.push(f);
                assert(out.deep_view() =~= old(out).deep_view() + seq![f.deep_view()]);
                return;
            }
        }
        assert(out.deep_view() =~= old(out).deep_view() + Seq::<ParsedFunctionView>::empty());
    }

    fn descend(&self, t: &SyntaxTree, src: &[char], i: usize) -> (r: bool) {
        true
    }
}

impl SortKey for ImportSpec {
    /// By alias, then by path.
    open spec fn key_less(a: ImportSpecView, b: ImportSpecView) -> bool {
        lex_less(a.alias, b.alias) || (a.alias == b.alias && lex_less(a.path, b.path))
    }

    fn less(&self, other: &ImportSpec) -> (r: bool) {
        str_less(self.alias.as_str(), other.alias.as_str()) || (str_eq(
            self.alias.as_str(),
            other.alias.as_str(),
        ) && str_less(self.path.as_str(), other.path.as_str()))
    }

    proof fn lemma_less_asymmetric(a: ImportSpecView, b: ImportSpecView) {
        lemma_lex_less_asymmetric(a.alias, b.alias);
        lemma_lex_less_asymmetric(a.path, b.path);
    }

    proof fn lemma_less_transitive(a: ImportSpecView, b: ImportSpecView, c: ImportSpecView) {
        lemma_lex_less_transitive(a.alias, b.alias, c.alias);
        lemma_lex_less_transitive(a.path, b.path, c.path);
    }
}

impl SortKey for DeclaredSymbol {
    /// By line, then by name.
    open spec fn key_less(a: DeclaredSymbolView, b: DeclaredSymbolView) -> bool {
        a.line < b.line || (a.line == b.line && lex_less(a.name, b.name))
    }

    fn less(&self, other: &DeclaredSymbol) -> (r: bool) {
        self.line < other.line || (self.line == other.line && str_less(
            self.name.as_str(),
            other.name.as_str(),
        ))
    }

    proof fn lemma_less_asymmetric(a: DeclaredSymbolView, b: DeclaredSymbolView) {
        lemma_lex_less_asymmetric(a.name, b.name);
    }

    proof fn lemma_less_transitive(
        a: DeclaredSymbolView,
        b: DeclaredSymbolView,
        c: DeclaredSymbolView,
    ) {
        lemma_lex_less_transitive(a.name, b.name, c.name);
    }
}

impl SortKey for ParsedFunction {
    /// By start line, then by name.
    open spec fn key_less(a: ParsedFunctionView, b: ParsedFunctionView) -> bool {
        a.fingerprint.start_line < b.fingerprint.start_line || (a.fingerprint.start_line
            == b.fingerprint.start_line && lex_less(a.fingerprint.name, b.fingerprint.name))
    }

    fn less(&self, other: &ParsedFunction) -> (r: bool) {
        self.fingerprint.start_line < other.fingerprint.start_line || (self.fingerprint.start_line
            == other.fingerprint.start_line && str_less(
            self.fingerprint.name.as_str(),
            other.fingerprint.name.as_str(),
        ))
    }

    proof fn lemma_less_asymmetric(a: ParsedFunctionView, b: ParsedFunctionView) {
        lemma_lex_less_asymmetric(a.fingerprint.name, b.fingerprint.name);
    }

    proof fn lemma_less_transitive(
        a: ParsedFunctionView,
        b: ParsedFunctionView,
        c: ParsedFunctionView,
    ) {
        lemma_lex_less_transitive(a.fingerprint.name, b.fingerprint.name, c.fingerprint.name);
    }
}

/// The imports of the file rooted at node `root`, sorted by alias and path.
pub open spec fn imports_of(t: SyntaxTree, src: Seq<char>, root: int) -> Seq<ImportSpecView> {
    stable_sort::<ImportSpec>(walk::<ImportCollector>((), t, src, root, start_ctx()))
}

pub fn collect_imports(t: &SyntaxTree, src: &[char], root: usize) -> (r: Vec<ImportSpec>)
    requires
        t.wf(src@.len() as int),
        root < t.nodes@.len(),
    ensures
        r.deep_view() == imports_of(*t, src@, root as int),
{
    let mut out: Vec<ImportSpec> = Vec::new();
    walk_exec(
        &ImportCollector,
        t,
        src,
        root,
        Ctx { in_loop: false, scope: Scope::Unknown },
        &mut out,
    );
    assert(out.deep_view() =~= walk::<ImportCollector>((), *t, src@, root as int, start_ctx()));
    sort_stable(out)
}

/// The symbols of the file rooted at node `root`, sorted by line and name.
pub open spec fn symbols_of(t: SyntaxTree, src: Seq<char>, root: int) -> Seq<DeclaredSymbolView> {
    stable_sort::<DeclaredSymbol>(walk::<SymbolCollector>((), t, src, root, start_ctx()))
}

pub fn collect_symbols(t: &SyntaxTree, src: &[char], root: usize) -> (r: Vec<DeclaredSymbol>)
    requires
        t.wf(src@.len() as int),
        root < t.nodes@.len(),
    ensures
        r.deep_view() == symbols_of(*t, src@, root as int),
{
    let mut out: Vec<DeclaredSymbol> = Vec::new();
    walk_exec(
        &SymbolCollector,
        t,
        src,
        root,
        Ctx { in_loop: false, scope: Scope::Unknown },
        &mut out,
    );
    assert(out.deep_view() =~= walk::<SymbolCollector>((), *t, src@, root as int, start_ctx()));
    sort_stable(out)
}

/// The functions of the file rooted at node `root`, sorted by start line and
/// name.
pub open spec fn functions_of(
    t: SyntaxTree,
    src: Seq<char>,
    root: int,
    imports: Seq<ImportSpecView>,
    lines: Seq<Seq<char>>,
) -> Seq<ParsedFunctionView> {
    stable_sort::<ParsedFunction>(
        walk::<FunctionCollector>((imports, lines), t, src, root, start_ctx()),
    )
}

pub fn collect_functions(
    t: &SyntaxTree,
    src: &[char],
    root: usize,
    imports: &[ImportSpec],
    lines: &Vec<Vec<char>>,
) -> (r: Vec<ParsedFunction>)
    requires
        t.wf(src@.len() as int),
        root < t.nodes@.len(),
    ensures
        r.deep_view() == functions_of(
            *t,
            src@,
            root as int,
            imports.deep_view(),
            lines.deep_view(),
        ),
{
    let mut out: Vec<ParsedFunction> = Vec::new();
    let c = FunctionCollector { imports, lines };
    walk_exec(&c, t, src, root, Ctx { in_loop: false, scope: Scope::Unknown }, &mut out);
    assert(out.deep_view() =~= walk::<FunctionCollector>(
        (imports.deep_view(), lines.deep_view()),
        *t,
        src@,
        root as int,
        start_ctx(),
    ));
    sort_stable(out)
}

/// What the analysis gathers about a Go file with path `path`, `byte_size`
/// bytes, text `src` and syntax tree `t`.
pub open spec fn parsed_file_of(
    path: Seq<char>,
    byte_size: usize,
    src: Seq<char>,
    t: SyntaxTree,
) -> ParsedFileView {
    let imports = imports_of(t, src, 0);
    ParsedFileView {
        path,
        package_name: package_name_from(t, src, 0, 0),
        syntax_error: t.has_error,
        byte_size,
        functions: functions_of(t, src, 0, imports, source_lines(src)),
        imports,
        symbols: symbols_of(t, src, 0),
    }
}

/// Analyzes the syntax tree of a Go file.
pub fn analyze_tree(path: &str, byte_size: usize, src: &[char], t: &SyntaxTree) -> (r: ParsedFile)
    requires
        t.wf(src@.len() as int),
    ensures
        r.deep_view() == parsed_file_of(path@, byte_size, src@, *t),
{
    let package_name = match find_package_name(t, src, 0) {
        Some(p) => {
            proof {
                lemma_chars_deep_view(p);
            }
            Some(chars_to_string(p.as_slice()))
        },
        None => None,
    };
    let imports = collect_imports(t, src, 0);
    let symbols = collect_symbols(t, src, 0);
    let lines = split_lines(src);
    let functions = collect_functions(t, src, 0, imports.as_slice(), &lines);
    let path_string = String::from_str(path);
    ParsedFile {
        path: path_string,
        package_name,
        syntax_error: t.has_error,
        byte_size,
        functions,
        imports,
        symbols,
    }
}

} // verus!
