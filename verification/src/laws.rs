//! Properties that hold across the library's functions.

use vstd::prelude::*;
use crate::go::parser::parsed_file_of;
use crate::go::patterns::alias_of_path;
use crate::model::{
    DeclaredSymbol, FindingView, ImportSpec, ParsedFileView, ParsedFunction, ParsedFunctionView,
    Severity,
};
use crate::order::{lemma_stable_sort_keeps, lemma_stable_sort_sorted, sorted_by};
use crate::rust_rules::{
    call_findings, call_findings_from, file_findings, file_findings_from, function_findings,
    macro_findings, macro_findings_from, nearby_safety_comment, unsafe_findings,
    unsafe_findings_from,
};
use crate::go::collect::{line_hit, LineCollector, LineParam, LineRule};
use crate::go::parser::{signal_lines, start_ctx};
use crate::syntax::{
    lemma_walk_within_rows, step, walk, walk_children, Collector, Ctx, FieldName, SyntaxTree,
};
use crate::go::collect::{CallCollector, DbQueryCollector, ErrorfCollector, FactoryCollector};
use crate::go::parser::{parsed_function_at, string_vars_under};
use crate::model::{
    CallSiteView, ContextFactoryCallView, DbQueryCallView, FormattedErrorCallView, ImportSpecView,
};
use crate::text::{
    compacted, has_sub, lemma_back_ws_bounds, lemma_rfind_char, lemma_skip_ws_bounds, rfind_char,
    trimmed, back_ws, skip_ws,
};
use crate::go::patterns::call_target;
use crate::syntax::{
    contributes, count_kind, lemma_walk_items, lemma_walk_reaches, lemma_walk_reaches_in_loop,
    lemma_walk_reaches_pred, loop_on, named_path, CountedKind,
};

verus! {

/// The functions of a parsed Go file come in order of start line, then of
/// name; its imports in order of alias, then of path; its symbols in order
/// of line, then of name.
pub proof fn law_parsed_file_lists_are_sorted(
    path: Seq<char>,
    byte_size: usize,
    src: Seq<char>,
    t: SyntaxTree,
)
    requires
        t.wf(src.len() as int),
    ensures
        sorted_by::<ParsedFunction>(parsed_file_of(path, byte_size, src, t).functions),
        sorted_by::<ImportSpec>(parsed_file_of(path, byte_size, src, t).imports),
        sorted_by::<DeclaredSymbol>(parsed_file_of(path, byte_size, src, t).symbols),
{
    let pf = parsed_file_of(path, byte_size, src, t);
    let imports = crate::go::parser::imports_of(t, src, 0);
    lemma_stable_sort_sorted::<ParsedFunction>(
        crate::syntax::walk::<crate::go::parser::FunctionCollector>(
            (imports, crate::go::comments::source_lines(src)),
            t,
            src,
            0,
            crate::go::parser::start_ctx(),
        ),
    );
    lemma_stable_sort_sorted::<ImportSpec>(
        crate::syntax::walk::<crate::go::collect::ImportCollector>(
            (),
            t,
            src,
            0,
            crate::go::parser::start_ctx(),
        ),
    );
    lemma_stable_sort_sorted::<DeclaredSymbol>(
        crate::syntax::walk::<crate::go::collect::SymbolCollector>(
            (),
            t,
            src,
            0,
            crate::go::parser::start_ctx(),
        ),
    );
}

/// A finding is a warning about one line of the file at `path`.
pub open spec fn single_line_warnings(s: Seq<FindingView>, path: Seq<char>) -> bool {
    forall|k: int|
        0 <= k < s.len() ==> (#[trigger] s[k]).severity == Severity::Warning && s[k].start_line
            == s[k].end_line && s[k].path == path
}

proof fn lemma_concat_single_line(a: Seq<FindingView>, b: Seq<FindingView>, path: Seq<char>)
    requires
        single_line_warnings(a, path),
        single_line_warnings(b, path),
    ensures
        single_line_warnings(a + b, path),
{
    assert forall|k: int| 0 <= k < (a + b).len() implies (#[trigger] (a + b)[k]).severity
        == Severity::Warning && (a + b)[k].start_line == (a + b)[k].end_line && (a + b)[k].path
        == path by {
        if k < a.len() {
            assert((a + b)[k] == a[k]);
        } else {
            assert((a + b)[k] == b[k - a.len()]);
        }
    }
}

proof fn lemma_macro_single_line(
    path: Seq<char>,
    f: ParsedFunctionView,
    m: Seq<char>,
    id: Seq<char>,
    suffix: Seq<char>,
    k: int,
)
    ensures
        single_line_warnings(macro_findings_from(path, f, m, id, suffix, k), path),
    decreases f.calls.len() - k,
{
    if 0 <= k < f.calls.len() {
        lemma_macro_single_line(path, f, m, id, suffix, k + 1);
        lemma_concat_single_line(
            if f.calls[k].name == m {
                seq![macro_findings_from(path, f, m, id, suffix, k)[0]]
            } else {
                Seq::empty()
            },
            macro_findings_from(path, f, m, id, suffix, k + 1),
            path,
        );
    }
}

proof fn lemma_call_single_line(
    path: Seq<char>,
    f: ParsedFunctionView,
    m: Seq<char>,
    id: Seq<char>,
    suffix: Seq<char>,
    k: int,
)
    ensures
        single_line_warnings(call_findings_from(path, f, m, id, suffix, k), path),
    decreases f.calls.len() - k,
{
    if 0 <= k < f.calls.len() {
        lemma_call_single_line(path, f, m, id, suffix, k + 1);
        lemma_concat_single_line(
            if f.calls[k].name == m {
                seq![call_findings_from(path, f, m, id, suffix, k)[0]]
            } else {
                Seq::empty()
            },
            call_findings_from(path, f, m, id, suffix, k + 1),
            path,
        );
    }
}

proof fn lemma_unsafe_single_line(path: Seq<char>, f: ParsedFunctionView, k: int)
    ensures
        single_line_warnings(unsafe_findings_from(path, f, k), path),
    decreases f.unsafe_lines.len() - k,
{
    if 0 <= k < f.unsafe_lines.len() {
        lemma_unsafe_single_line(path, f, k + 1);
        lemma_concat_single_line(
            if !nearby_safety_comment(f.unsafe_lines[k], f.safety_comment_lines) {
                seq![unsafe_findings_from(path, f, k)[0]]
            } else {
                Seq::empty()
            },
            unsafe_findings_from(path, f, k + 1),
            path,
        );
    }
}

proof fn lemma_function_single_line(path: Seq<char>, f: ParsedFunctionView)
    ensures
        single_line_warnings(function_findings(path, f), path),
{
    let m1 = macro_findings(path, f, "todo!"@, "todo_macro_leftover"@, "leaves todo! in non-test Rust code"@);
    let m2 = macro_findings(
        path,
        f,
        "unimplemented!"@,
        "unimplemented_macro_leftover"@,
        "leaves unimplemented! in non-test Rust code"@,
    );
    let m3 = macro_findings(path, f, "dbg!"@, "dbg_macro_leftover"@, "leaves dbg! in non-test Rust code"@);
    let m4 = macro_findings(
        path,
        f,
        "panic!"@,
        "panic_macro_leftover"@,
        "leaves panic! in non-test Rust code"@,
    );
    let m5 = macro_findings(
        path,
        f,
        "unreachable!"@,
        "unreachable_macro_leftover"@,
        "leaves unreachable! in non-test Rust code"@,
    );
    let c1 = call_findings(
        path,
        f,
        "unwrap"@,
        "unwrap_in_non_test_code"@,
        "calls unwrap() in non-test Rust code"@,
    );
    let c2 = call_findings(
        path,
        f,
        "expect"@,
        "expect_in_non_test_code"@,
        "calls expect() in non-test Rust code"@,
    );
    let u = unsafe_findings(path, f);
    lemma_macro_single_line(path, f, "todo!"@, "todo_macro_leftover"@, "leaves todo! in non-test Rust code"@, 0);
    lemma_macro_single_line(
        path,
        f,
        "unimplemented!"@,
        "unimplemented_macro_leftover"@,
        "leaves unimplemented! in non-test Rust code"@,
        0,
    );
    lemma_macro_single_line(path, f, "dbg!"@, "dbg_macro_leftover"@, "leaves dbg! in non-test Rust code"@, 0);
    lemma_macro_single_line(
        path,
        f,
        "panic!"@,
        "panic_macro_leftover"@,
        "leaves panic! in non-test Rust code"@,
        0,
    );
    lemma_macro_single_line(
        path,
        f,
        "unreachable!"@,
        "unreachable_macro_leftover"@,
        "leaves unreachable! in non-test Rust code"@,
        0,
    );
    lemma_call_single_line(
        path,
        f,
        "unwrap"@,
        "unwrap_in_non_test_code"@,
        "calls unwrap() in non-test Rust code"@,
        0,
    );
    lemma_call_single_line(
        path,
        f,
        "expect"@,
        "expect_in_non_test_code"@,
        "calls expect() in non-test Rust code"@,
        0,
    );
    lemma_unsafe_single_line(path, f, 0);
    assert(single_line_warnings(Seq::<FindingView>::empty(), path));
    lemma_concat_single_line(m1, m2, path);
    lemma_concat_single_line(m1 + m2, m3, path);
    lemma_concat_single_line(m1 + m2 + m3, m4, path);
    lemma_concat_single_line(m1 + m2 + m3 + m4, m5, path);
    lemma_concat_single_line(m1 + m2 + m3 + m4 + m5, c1, path);
    lemma_concat_single_line(m1 + m2 + m3 + m4 + m5 + c1, c2, path);
    lemma_concat_single_line(m1 + m2 + m3 + m4 + m5 + c1 + c2, u, path);
}

proof fn lemma_file_single_line(file: ParsedFileView, k: int)
    ensures
        single_line_warnings(file_findings_from(file, k), file.path),
    decreases file.functions.len() - k,
{
    if 0 <= k < file.functions.len() {
        lemma_file_single_line(file, k + 1);
        lemma_function_single_line(file.path, file.functions[k]);
        lemma_concat_single_line(
            function_findings(file.path, file.functions[k]),
            file_findings_from(file, k + 1),
            file.path,
        );
    }
}

/// Every finding of the Rust rules is a warning about a single line of the
/// file that was evaluated.
pub proof fn law_rust_findings_are_single_line_warnings(file: ParsedFileView)
    ensures
        single_line_warnings(file_findings(file), file.path),
{
    lemma_file_single_line(file, 0);
}

/// In a test function only the `unsafe` rule can fire: macro leftovers,
/// `unwrap` and `expect` are not reported there.
pub proof fn law_test_functions_only_get_unsafe_findings(path: Seq<char>, f: ParsedFunctionView)
    requires
        f.is_test_function,
    ensures
        function_findings(path, f) == unsafe_findings(path, f),
{
    let e = Seq::<FindingView>::empty();
    assert(e + e + e + e + e + e + e + unsafe_findings(path, f) =~= unsafe_findings(path, f));
}

proof fn lemma_documented_unsafe(path: Seq<char>, f: ParsedFunctionView, k: int)
    requires
        forall|j: int|
            0 <= j < f.unsafe_lines.len() ==> nearby_safety_comment(
                #[trigger] f.unsafe_lines[j],
                f.safety_comment_lines,
            ),
    ensures
        unsafe_findings_from(path, f, k).len() == 0,
    decreases f.unsafe_lines.len() - k,
{
    if 0 <= k < f.unsafe_lines.len() {
        lemma_documented_unsafe(path, f, k + 1);
        assert(nearby_safety_comment(f.unsafe_lines[k], f.safety_comment_lines));
    }
}

/// An `unsafe` use with a `SAFETY` comment on its line or one of the two
/// lines above is not reported; when every use has one, the rule reports
/// nothing.
pub proof fn law_documented_unsafe_is_accepted(path: Seq<char>, f: ParsedFunctionView)
    requires
        forall|j: int|
            0 <= j < f.unsafe_lines.len() ==> nearby_safety_comment(
                #[trigger] f.unsafe_lines[j],
                f.safety_comment_lines,
            ),
    ensures
        unsafe_findings(path, f).len() == 0,
{
    lemma_documented_unsafe(path, f, 0);
}

/// The alias derived from an import path has no `/` in it.
pub proof fn law_import_alias_has_no_slash(path: Seq<char>)
    ensures
        !alias_of_path(path).contains('/'),
{
    lemma_rfind_char(path, '/', path.len() as int);
    lemma_rfind_none(path, '/', path.len() as int);
    match rfind_char(path, '/', path.len() as int) {
        Some(k) => {
            lemma_rfind_last(path, '/', path.len() as int);
            assert forall|i: int| 0 <= i < alias_of_path(path).len() implies alias_of_path(
                path,
            )[i] != '/' by {
                assert(alias_of_path(path)[i] == path[k + 1 + i]);
            }
        },
        None => {
            assert forall|i: int| 0 <= i < alias_of_path(path).len() implies alias_of_path(
                path,
            )[i] != '/' by {
                assert(alias_of_path(path)[i] == path[i]);
            }
        },
    }
}

proof fn lemma_rfind_none(s: Seq<char>, c: char, e: int)
    requires
        0 <= e <= s.len(),
    ensures
        rfind_char(s, c, e) is None ==> forall|i: int| 0 <= i < e ==> s[i] != c,
    decreases e,
{
    if e > 0 && s[e - 1] != c {
        lemma_rfind_none(s, c, e - 1);
    }
}

proof fn lemma_rfind_last(s: Seq<char>, c: char, e: int)
    requires
        0 <= e <= s.len(),
    ensures
        rfind_char(s, c, e) matches Some(k) ==> forall|i: int| k < i < e ==> s[i] != c,
    decreases e,
{
    if e > 0 && s[e - 1] != c {
        lemma_rfind_last(s, c, e - 1);
    }
}


/// What the Go analysis reports of a function: never a test function, never
/// an `unsafe` use or a `SAFETY` comment, and a call count equal to the
/// number of calls it lists.
pub open spec fn go_function_shape(f: ParsedFunctionView) -> bool {
    &&& !f.is_test_function
    &&& f.unsafe_lines.len() == 0
    &&& f.safety_comment_lines.len() == 0
    &&& f.fingerprint.call_count == f.calls.len() as usize
}

/// Every function of a parsed Go file is reported as no test, with no
/// `unsafe` uses and no `SAFETY` comments, and with as many calls counted in
/// its fingerprint as it lists.
pub proof fn law_go_functions_have_go_shape(
    path: Seq<char>,
    byte_size: usize,
    src: Seq<char>,
    t: SyntaxTree,
)
    requires
        t.wf(src.len() as int),
    ensures
        forall|k: int|
            0 <= k < parsed_file_of(path, byte_size, src, t).functions.len() ==> go_function_shape(
                #[trigger] parsed_file_of(path, byte_size, src, t).functions[k],
            ),
{
    let imports = crate::go::parser::imports_of(t, src, 0);
    let p = (imports, crate::go::comments::source_lines(src));
    let pred = |f: ParsedFunctionView| go_function_shape(f);
    assert forall|j: int, c: crate::syntax::Ctx, k: int|
        0 <= k < <crate::go::parser::FunctionCollector as crate::syntax::Collector>::own_items(
            p,
            t,
            src,
            j,
            c,
        ).len() implies pred(
        #[trigger] <crate::go::parser::FunctionCollector as crate::syntax::Collector>::own_items(
            p,
            t,
            src,
            j,
            c,
        )[k],
    ) by {}
    crate::syntax::lemma_walk_all::<crate::go::parser::FunctionCollector>(
        p,
        t,
        src,
        0,
        crate::go::parser::start_ctx(),
        pred,
    );
    let w = crate::syntax::walk::<crate::go::parser::FunctionCollector>(
        p,
        t,
        src,
        0,
        crate::go::parser::start_ctx(),
    );
    crate::order::lemma_stable_sort_all::<ParsedFunction>(w, pred);
}


proof fn lemma_contains_concat<V>(a: Seq<V>, b: Seq<V>, c: Seq<V>, d: Seq<V>)
    requires
        forall|x: V| a.contains(x) ==> c.contains(x),
        forall|x: V| b.contains(x) ==> d.contains(x),
    ensures
        forall|x: V| (a + b).contains(x) ==> (c + d).contains(x),
{
    assert forall|x: V| (a + b).contains(x) implies (c + d).contains(x) by {
        let k = choose|k: int| 0 <= k < (a + b).len() && (a + b)[k] == x;
        if k < a.len() {
            assert(a[k] == x);
            assert(a.contains(x));
            let m = choose|m: int| 0 <= m < c.len() && c[m] == x;
            assert((c + d)[m] == x);
        } else {
            assert(b[k - a.len()] == x);
            assert(b.contains(x));
            let m = choose|m: int| 0 <= m < d.len() && d[m] == x;
            assert((c + d)[c.len() + m] == x);
        }
    }
}

/// When rule `pa` fires only where rule `pb` fires, every line that `pa`
/// reports under node `i` is reported by `pb` too.
proof fn lemma_lines_within(
    pa: LineParam,
    pb: LineParam,
    t: SyntaxTree,
    src: Seq<char>,
    i: int,
    ctx: Ctx,
)
    requires
        forall|j: int, l: bool| line_hit(pa, t, src, j, l) ==> line_hit(pb, t, src, j, l),
    ensures
        forall|x: usize|
            walk::<LineCollector>(pa, t, src, i, ctx).contains(x) ==> walk::<LineCollector>(
                pb,
                t,
                src,
                i,
                ctx,
            ).contains(x),
    decreases t.len() - i, t.nodes@[i].children@.len() + 1,
{
    if 0 <= i < t.len() {
        let oa = <LineCollector as Collector>::own_items(pa, t, src, i, ctx);
        let ob = <LineCollector as Collector>::own_items(pb, t, src, i, ctx);
        assert forall|x: usize| oa.contains(x) implies ob.contains(x) by {
            assert(oa.len() > 0);
            assert(ob[0] == x);
        }
        lemma_lines_children_within(pa, pb, t, src, i, 0, step(t, i, ctx));
        lemma_contains_concat(
            oa,
            walk_children::<LineCollector>(pa, t, src, i, 0, step(t, i, ctx)),
            ob,
            walk_children::<LineCollector>(pb, t, src, i, 0, step(t, i, ctx)),
        );
    }
}

proof fn lemma_lines_children_within(
    pa: LineParam,
    pb: LineParam,
    t: SyntaxTree,
    src: Seq<char>,
    i: int,
    k: int,
    ctx: Ctx,
)
    requires
        forall|j: int, l: bool| line_hit(pa, t, src, j, l) ==> line_hit(pb, t, src, j, l),
    ensures
        forall|x: usize|
            walk_children::<LineCollector>(pa, t, src, i, k, ctx).contains(x)
                ==> walk_children::<LineCollector>(pb, t, src, i, k, ctx).contains(x),
    decreases t.len() - i, t.nodes@[i].children@.len() - k,
{
    if 0 <= i < t.len() && 0 <= k < t.nodes@[i].children@.len() {
        let ch = t.nodes@[i].children@[k] as int;
        lemma_lines_children_within(pa, pb, t, src, i, k + 1, ctx);
        if i < ch < t.len() && t.nodes@[ch].named {
            lemma_lines_within(pa, pb, t, src, ch, ctx);
            lemma_contains_concat(
                walk::<LineCollector>(pa, t, src, ch, ctx),
                walk_children::<LineCollector>(pa, t, src, i, k + 1, ctx),
                walk::<LineCollector>(pb, t, src, ch, ctx),
                walk_children::<LineCollector>(pb, t, src, i, k + 1, ctx),
            );
        } else {
            let e = Seq::<usize>::empty();
            assert(e + walk_children::<LineCollector>(pa, t, src, i, k + 1, ctx)
                =~= walk_children::<LineCollector>(pa, t, src, i, k + 1, ctx));
            assert(e + walk_children::<LineCollector>(pb, t, src, i, k + 1, ctx)
                =~= walk_children::<LineCollector>(pb, t, src, i, k + 1, ctx));
        }
    }
}

/// Every goroutine reported for lacking a shutdown signal is also reported
/// as a goroutine launch.
pub proof fn law_unstoppable_goroutines_are_launches(t: SyntaxTree, src: Seq<char>, b: int)
    ensures
        forall|x: usize|
            signal_lines(t, src, b, LineRule::GoroutineWithoutShutdown, seq![], seq![]).contains(x)
                ==> signal_lines(t, src, b, LineRule::GoroutineLaunch, seq![], seq![]).contains(x),
{
    let pa = LineParam {
        rule: LineRule::GoroutineWithoutShutdown,
        imports: seq![],
        string_vars: seq![],
    };
    let pb = LineParam { rule: LineRule::GoroutineLaunch, imports: seq![], string_vars: seq![] };
    lemma_lines_within(pa, pb, t, src, b, start_ctx());
}

/// Every element of `s` lies in `lo..=hi`.
pub open spec fn lines_in(s: Seq<usize>, lo: int, hi: int) -> bool {
    forall|k: int| 0 <= k < s.len() ==> lo <= #[trigger] s[k] <= hi
}

/// Every line that `pf` records lies in `lo..=hi`: those of its calls, of
/// its `fmt.Errorf` calls, of its context factory calls and of its database
/// calls, and every line of each of its signal lists.
pub open spec fn function_lines_within(pf: ParsedFunctionView, lo: int, hi: int) -> bool {
    &&& forall|k: int| 0 <= k < pf.calls.len() ==> lo <= #[trigger] pf.calls[k].line <= hi
    &&& forall|k: int|
        0 <= k < pf.errorf_calls.len() ==> lo <= #[trigger] pf.errorf_calls[k].line <= hi
    &&& forall|k: int|
        0 <= k < pf.context_factory_calls.len() ==> lo <= #[trigger] pf.context_factory_calls[k].line
            <= hi
    &&& forall|k: int|
        0 <= k < pf.db_query_calls.len() ==> lo <= #[trigger] pf.db_query_calls[k].line <= hi
    &&& lines_in(pf.dropped_error_lines, lo, hi)
    &&& lines_in(pf.panic_on_error_lines, lo, hi)
    &&& lines_in(pf.goroutine_launch_lines, lo, hi)
    &&& lines_in(pf.goroutine_without_shutdown_lines, lo, hi)
    &&& lines_in(pf.sleep_in_loop_lines, lo, hi)
    &&& lines_in(pf.busy_wait_lines, lo, hi)
    &&& lines_in(pf.mutex_lock_in_loop_lines, lo, hi)
    &&& lines_in(pf.allocation_in_loop_lines, lo, hi)
    &&& lines_in(pf.fmt_in_loop_lines, lo, hi)
    &&& lines_in(pf.reflection_in_loop_lines, lo, hi)
    &&& lines_in(pf.string_concat_in_loop_lines, lo, hi)
    &&& lines_in(pf.json_marshal_in_loop_lines, lo, hi)
}

proof fn lemma_signal_lines_in_body(
    t: SyntaxTree,
    src: Seq<char>,
    b: int,
    rule: LineRule,
    imports: Seq<ImportSpecView>,
    vars: Seq<Seq<char>>,
)
    requires
        t.wf(src.len() as int),
        0 <= b < t.len(),
    ensures
        lines_in(
            signal_lines(t, src, b, rule, imports, vars),
            t.nodes@[b].start_row + 1,
            t.nodes@[b].end_row + 1,
        ),
{
    let p = LineParam { rule, imports, string_vars: vars };
    let line = |x: usize| x as int;
    assert forall|j: int, c: Ctx, m: int|
        0 <= j < t.len() && 0 <= m < LineCollector::own_items(p, t, src, j, c).len() implies line(
        #[trigger] LineCollector::own_items(p, t, src, j, c)[m],
    ) == t.line(j) by {}
    lemma_walk_within_rows::<LineCollector>(p, t, src, b, start_ctx(), src.len() as int, line);
}

/// Every line that a parsed Go function records (those of its calls, of its
/// `fmt.Errorf`, context factory and database calls, and of each of its
/// signal lists) lies within the lines of the function's body.
pub proof fn law_function_lines_lie_in_body(
    t: SyntaxTree,
    src: Seq<char>,
    i: int,
    imports: Seq<ImportSpecView>,
    lines: Seq<Seq<char>>,
)
    requires
        t.wf(src.len() as int),
        0 <= i < t.len(),
        parsed_function_at(t, src, i, imports, lines) is Some,
    ensures
        t.field(i, FieldName::Body) is Some,
        function_lines_within(
            parsed_function_at(t, src, i, imports, lines)->0,
            t.nodes@[t.field(i, FieldName::Body)->0 as int].start_row + 1,
            t.nodes@[t.field(i, FieldName::Body)->0 as int].end_row + 1,
        ),
{
    let n = src.len() as int;
    let pf = parsed_function_at(t, src, i, imports, lines)->0;
    let b = t.field(i, FieldName::Body)->0 as int;
    assert(t.node_wf(i, n));
    assert(0 <= b < t.len());
    let lo = t.nodes@[b].start_row + 1;
    let hi = t.nodes@[b].end_row + 1;
    let none: Seq<ImportSpecView> = seq![];
    let no_vars: Seq<Seq<char>> = seq![];

    let call_line = |x: CallSiteView| x.line as int;
    assert forall|j: int, c: Ctx, m: int|
        0 <= j < t.len() && 0 <= m < CallCollector::own_items((), t, src, j, c).len() implies call_line(
        #[trigger] CallCollector::own_items((), t, src, j, c)[m],
    ) == t.line(j) by {}
    lemma_walk_within_rows::<CallCollector>((), t, src, b, start_ctx(), n, call_line);
    assert(pf.calls == walk::<CallCollector>((), t, src, b, start_ctx()));

    let errorf_line = |x: FormattedErrorCallView| x.line as int;
    assert forall|j: int, c: Ctx, m: int|
        0 <= j < t.len() && 0 <= m < ErrorfCollector::own_items((), t, src, j, c).len() implies errorf_line(
        #[trigger] ErrorfCollector::own_items((), t, src, j, c)[m],
    ) == t.line(j) by {}
    lemma_walk_within_rows::<ErrorfCollector>((), t, src, b, start_ctx(), n, errorf_line);
    assert(pf.errorf_calls == walk::<ErrorfCollector>((), t, src, b, start_ctx()));

    let factory_line = |x: ContextFactoryCallView| x.line as int;
    assert forall|j: int, c: Ctx, m: int|
        0 <= j < t.len() && 0 <= m < FactoryCollector::own_items(imports, t, src, j, c).len() implies factory_line(
        #[trigger] FactoryCollector::own_items(imports, t, src, j, c)[m],
    ) == t.line(j) by {}
    lemma_walk_within_rows::<FactoryCollector>(imports, t, src, b, start_ctx(), n, factory_line);
    assert(pf.context_factory_calls == walk::<FactoryCollector>(imports, t, src, b, start_ctx()));

    let db_line = |x: DbQueryCallView| x.line as int;
    assert forall|j: int, c: Ctx, m: int|
        0 <= j < t.len() && 0 <= m < DbQueryCollector::own_items((), t, src, j, c).len() implies db_line(
        #[trigger] DbQueryCollector::own_items((), t, src, j, c)[m],
    ) == t.line(j) by {}
    lemma_walk_within_rows::<DbQueryCollector>((), t, src, b, start_ctx(), n, db_line);
    assert(pf.db_query_calls == walk::<DbQueryCollector>((), t, src, b, start_ctx()));

    lemma_signal_lines_in_body(t, src, b, LineRule::DroppedError, none, no_vars);
    lemma_signal_lines_in_body(t, src, b, LineRule::PanicOnError, none, no_vars);
    lemma_signal_lines_in_body(t, src, b, LineRule::GoroutineLaunch, none, no_vars);
    lemma_signal_lines_in_body(t, src, b, LineRule::GoroutineWithoutShutdown, none, no_vars);
    lemma_signal_lines_in_body(t, src, b, LineRule::SleepInLoop, imports, no_vars);
    lemma_signal_lines_in_body(t, src, b, LineRule::BusyWait, none, no_vars);
    lemma_signal_lines_in_body(t, src, b, LineRule::MutexLockInLoop, none, no_vars);
    lemma_signal_lines_in_body(t, src, b, LineRule::AllocationInLoop, imports, no_vars);
    lemma_signal_lines_in_body(t, src, b, LineRule::FmtInLoop, imports, no_vars);
    lemma_signal_lines_in_body(t, src, b, LineRule::ReflectionInLoop, imports, no_vars);
    lemma_signal_lines_in_body(
        t,
        src,
        b,
        LineRule::StringConcatInLoop,
        none,
        string_vars_under(t, src, b),
    );
    lemma_signal_lines_in_body(t, src, b, LineRule::JsonMarshalInLoop, imports, no_vars);
}

/// No line of `comments` lies on line `l` or on one of the two lines above.
pub open spec fn window_free(l: int, comments: Seq<usize>) -> bool {
    forall|j: int| 0 <= j < comments.len() ==> !(l - 2 <= #[trigger] comments[j] <= l)
}

/// Some finding of `fs` is on line `l`.
pub open spec fn reported_on(fs: Seq<FindingView>, l: usize) -> bool {
    exists|m: int| 0 <= m < fs.len() && (#[trigger] fs[m]).start_line == l
}

/// An `unsafe` line is reported only when no `SAFETY` comment line, at any
/// position of the function's list, lies on it or on one of the two lines
/// above it; and every `unsafe` line without such a comment is reported.
pub proof fn law_unsafe_reported_iff_no_comment_in_window(path: Seq<char>, f: ParsedFunctionView)
    ensures
        forall|m: int|
            0 <= m < unsafe_findings(path, f).len() ==> f.unsafe_lines.contains(
                (#[trigger] unsafe_findings(path, f)[m]).start_line,
            ) && window_free(unsafe_findings(path, f)[m].start_line as int, f.safety_comment_lines),
        forall|k: int|
            0 <= k < f.unsafe_lines.len() && window_free(
                #[trigger] f.unsafe_lines[k] as int,
                f.safety_comment_lines,
            ) ==> reported_on(unsafe_findings(path, f), f.unsafe_lines[k]),
{
    lemma_unsafe_window(path, f, 0);
}

proof fn lemma_unsafe_window(path: Seq<char>, f: ParsedFunctionView, k0: int)
    requires
        0 <= k0,
    ensures
        forall|m: int|
            0 <= m < unsafe_findings_from(path, f, k0).len() ==> f.unsafe_lines.contains(
                (#[trigger] unsafe_findings_from(path, f, k0)[m]).start_line,
            ) && window_free(
                unsafe_findings_from(path, f, k0)[m].start_line as int,
                f.safety_comment_lines,
            ),
        forall|k: int|
            k0 <= k < f.unsafe_lines.len() && window_free(
                #[trigger] f.unsafe_lines[k] as int,
                f.safety_comment_lines,
            ) ==> reported_on(unsafe_findings_from(path, f, k0), f.unsafe_lines[k]),
    decreases f.unsafe_lines.len() - k0,
{
    if k0 < f.unsafe_lines.len() {
        lemma_unsafe_window(path, f, k0 + 1);
        let l = f.unsafe_lines[k0];
        let cs = f.safety_comment_lines;
        let rest = unsafe_findings_from(path, f, k0 + 1);
        let head = if !nearby_safety_comment(l, cs) {
            seq![
                crate::rust_rules::warning(
                    "unsafe_without_safety_comment"@,
                    path,
                    f,
                    l,
                    "function "@ + f.fingerprint.name + " uses unsafe without a nearby SAFETY comment"@,
                    "unsafe usage line: "@ + crate::rust_rules::decimal(l as nat),
                ),
            ]
        } else {
            Seq::empty()
        };
        assert(unsafe_findings_from(path, f, k0) == head + rest);
        let all = head + rest;
        assert forall|m: int| 0 <= m < all.len() implies f.unsafe_lines.contains(
            (#[trigger] all[m]).start_line,
        ) && window_free(all[m].start_line as int, cs) by {
            if m < head.len() {
                assert(all[m] == head[0]);
                assert(f.unsafe_lines[k0] == l);
                assert forall|j: int| 0 <= j < cs.len() implies !(l - 2 <= #[trigger] cs[j] <= l) by {
                    if l - 2 <= cs[j] <= l {
                        assert(cs[j] >= (if l >= 2 { l - 2 } else { 0 }));
                        assert(nearby_safety_comment(l, cs));
                    }
                }
            } else {
                assert(all[m] == rest[m - head.len()]);
            }
        }
        assert forall|k: int|
            k0 <= k < f.unsafe_lines.len() && window_free(
                #[trigger] f.unsafe_lines[k] as int,
                cs,
            ) implies reported_on(all, f.unsafe_lines[k]) by {
            if k == k0 {
                if nearby_safety_comment(l, cs) {
                    let j = choose|j: int|
                        0 <= j < cs.len() && (if l >= 2 { l - 2 } else { 0 }) <= #[trigger] cs[j]
                            <= l;
                    assert(!(l - 2 <= cs[j] <= l));
                }
                assert(all[0].start_line == l);
            } else {
                let m = choose|m: int| 0 <= m < rest.len() && (#[trigger] rest[m]).start_line
                    == f.unsafe_lines[k];
                assert(all[head.len() + m] == rest[m]);
            }
        }
    }
}

/// No `.` in `s`.
pub open spec fn no_dot(s: Seq<char>) -> bool {
    forall|i: int| 0 <= i < s.len() ==> s[i] != '.'
}

proof fn lemma_trimmed_is_part(s: Seq<char>)
    ensures
        exists|a: int, e: int| 0 <= a <= e <= s.len() && trimmed(s) == s.subrange(a, e),
{
    lemma_skip_ws_bounds(s, 0);
    let a = skip_ws(s, 0);
    lemma_back_ws_bounds(s, a, s.len() as int);
    let e = back_ws(s, a, s.len() as int);
    assert(trimmed(s) == s.subrange(a, e));
}

proof fn lemma_no_dot_trimmed(s: Seq<char>)
    requires
        no_dot(s),
    ensures
        no_dot(trimmed(s)),
{
    lemma_trimmed_is_part(s);
    let (a, e) = choose|a: int, e: int| 0 <= a <= e <= s.len() && trimmed(s) == s.subrange(a, e);
    assert forall|i: int| 0 <= i < trimmed(s).len() implies trimmed(s)[i] != '.' by {
        assert(trimmed(s)[i] == s[a + i]);
    }
}

proof fn lemma_rfind_char_last(s: Seq<char>, c: char, e: int)
    requires
        0 <= e <= s.len(),
    ensures
        match rfind_char(s, c, e) {
            Some(k) => forall|j: int| k < j < e ==> s[j] != c,
            None => forall|j: int| 0 <= j < e ==> s[j] != c,
        },
    decreases e,
{
    if e > 0 && s[e - 1] != c {
        lemma_rfind_char_last(s, c, e - 1);
    }
}

/// The callee of a call splits at its last `.`: the name after it holds no
/// `.`, and the trimmed text is the receiver's text, a `.`, and the name's
/// text.  A callee with no `.` is all name.  Only an empty callee is none.
pub proof fn law_call_target_splits_at_last_dot(text: Seq<char>)
    ensures
        call_target(text) is Some <==> trimmed(text).len() > 0,
        call_target(text) matches Some((recv, name)) ==> {
            &&& no_dot(name)
            &&& match recv {
                Some(r) => exists|r0: Seq<char>, n0: Seq<char>|
                    trimmed(text) == r0 + seq!['.'] + n0 && no_dot(n0) && r == trimmed(r0) && name
                        == trimmed(n0),
                None => no_dot(trimmed(text)) && name == trimmed(text),
            }
        },
{
    let tx = trimmed(text);
    if tx.len() > 0 {
        lemma_rfind_char(tx, '.', tx.len() as int);
        lemma_rfind_char_last(tx, '.', tx.len() as int);
        match rfind_char(tx, '.', tx.len() as int) {
            Some(k) => {
                let r0 = tx.subrange(0, k);
                let n0 = tx.subrange(k + 1, tx.len() as int);
                assert(tx =~= r0 + seq!['.'] + n0);
                assert(no_dot(n0)) by {
                    assert forall|i: int| 0 <= i < n0.len() implies n0[i] != '.' by {
                        assert(n0[i] == tx[k + 1 + i]);
                    }
                }
                lemma_no_dot_trimmed(n0);
            },
            None => {},
        }
    }
}

/// Every call recorded under a node has a name without a `.`.
pub proof fn law_call_names_have_no_dot(t: SyntaxTree, src: Seq<char>, b: int)
    ensures
        forall|m: int|
            0 <= m < crate::go::parser::calls_under(t, src, b).len() ==> no_dot(
                (#[trigger] crate::go::parser::calls_under(t, src, b)[m]).name,
            ),
{
    let pred = |x: CallSiteView| no_dot(x.name);
    assert forall|j: int, c: Ctx, m: int|
        0 <= j < t.len() && 0 <= m < CallCollector::own_items((), t, src, j, c).len() implies pred(
        #[trigger] CallCollector::own_items((), t, src, j, c)[m],
    ) by {
        if let Some(f) = t.field(j, FieldName::Function) {
            if let Some(x) = t.text(src, f as int) {
                law_call_target_splits_at_last_dot(x);
            }
        }
    }
    lemma_walk_items::<CallCollector>((), t, src, b, start_ctx(), pred);
}

/// An `if` whose condition, without whitespace, holds `err!=nil` and whose
/// consequence calls `panic(`, `log.Fatal(`, `log.Fatalf(` or `log.Fatalln(`
/// is reported on its line as a panic on error, under every node above it.
pub proof fn law_exit_on_error_is_reported(
    t: SyntaxTree,
    src: Seq<char>,
    path: Seq<int>,
    imports: Seq<ImportSpecView>,
    vars: Seq<Seq<char>>,
)
    requires
        named_path(t, path),
        t.kind_is(path.last(), "if_statement"@),
        t.field(path.last(), FieldName::Condition) matches Some(c) && t.text(src, c as int) matches Some(
            ct,
        ) && has_sub(compacted(ct), "err!=nil"@),
        t.field(path.last(), FieldName::Consequence) matches Some(q) && t.text(src, q as int) matches Some(
            qt,
        ) && (has_sub(qt, "panic("@) || has_sub(qt, "log.Fatal("@) || has_sub(qt, "log.Fatalf("@)
            || has_sub(qt, "log.Fatalln("@)),
    ensures
        signal_lines(t, src, path[0], LineRule::PanicOnError, imports, vars).contains(
            t.line(path.last()),
        ),
{
    let p = LineParam { rule: LineRule::PanicOnError, imports, string_vars: vars };
    let j = path.last();
    assert forall|c: Ctx| #[trigger] LineCollector::own_items(p, t, src, j, c).contains(t.line(j)) by {
        assert(line_hit(p, t, src, j, step(t, j, c).in_loop));
        assert(LineCollector::own_items(p, t, src, j, c)[0] == t.line(j));
    }
    lemma_walk_reaches::<LineCollector>(p, t, src, path, start_ctx(), t.line(j));
}

/// Under the body of a parsed function, an `if` whose condition holds
/// `err!=nil` and whose consequence panics or calls `log.Fatal*` has its
/// line among the function's panic-on-error lines.
pub proof fn law_function_reports_exit_on_error(
    t: SyntaxTree,
    src: Seq<char>,
    i: int,
    imports: Seq<ImportSpecView>,
    lines: Seq<Seq<char>>,
    path: Seq<int>,
)
    requires
        parsed_function_at(t, src, i, imports, lines) is Some,
        t.field(i, FieldName::Body) matches Some(bn) && bn as int == path[0],
        named_path(t, path),
        t.kind_is(path.last(), "if_statement"@),
        t.field(path.last(), FieldName::Condition) matches Some(c) && t.text(src, c as int) matches Some(
            ct,
        ) && has_sub(compacted(ct), "err!=nil"@),
        t.field(path.last(), FieldName::Consequence) matches Some(q) && t.text(src, q as int) matches Some(
            qt,
        ) && (has_sub(qt, "panic("@) || has_sub(qt, "log.Fatal("@) || has_sub(qt, "log.Fatalf("@)
            || has_sub(qt, "log.Fatalln("@)),
    ensures
        parsed_function_at(t, src, i, imports, lines)->0.panic_on_error_lines.contains(
            t.line(path.last()),
        ),
{
    law_exit_on_error_is_reported(t, src, path, seq![], seq![]);
    let b = t.field(i, FieldName::Body)->0 as int;
    assert(b == path[0]);
    let none: Seq<ImportSpecView> = seq![];
    let no_vars: Seq<Seq<char>> = seq![];
    assert(parsed_function_at(t, src, i, imports, lines)->0.panic_on_error_lines == signal_lines(
        t,
        src,
        b,
        LineRule::PanicOnError,
        none,
        no_vars,
    ));
}

/// Line `x` is that of a `go` statement that launches a function literal
/// with a loop in it and, without whitespace, never mentions `ctx.Done()`,
/// `<-done` or `<-shutdown`.
pub open spec fn unstoppable_goroutine_on(t: SyntaxTree, src: Seq<char>, x: usize) -> bool {
    exists|j: int|
        0 <= j < t.len() && #[trigger] t.line(j) == x && t.kind_is(j, "go_statement"@) && (t.text(
            src,
            j,
        ) matches Some(s) && (has_sub(compacted(s), "gofunc("@) || has_sub(
            compacted(s),
            "gofunc()"@,
        )) && !has_sub(compacted(s), "ctx.Done()"@) && !has_sub(compacted(s), "<-done"@)
            && !has_sub(compacted(s), "<-shutdown"@)) && count_kind(
            t,
            src,
            j,
            CountedKind::ForStatement,
        ) > 0
}

/// Every line reported as a goroutine without a shutdown signal is that of
/// a `go` statement that loops and never waits on `ctx.Done()`, a `done`
/// channel or a `shutdown` channel.
pub proof fn law_unstoppable_goroutines_never_wait(
    t: SyntaxTree,
    src: Seq<char>,
    b: int,
    imports: Seq<ImportSpecView>,
    vars: Seq<Seq<char>>,
)
    ensures
        forall|m: int|
            0 <= m < signal_lines(t, src, b, LineRule::GoroutineWithoutShutdown, imports, vars).len()
                ==> unstoppable_goroutine_on(
                t,
                src,
                #[trigger] signal_lines(
                    t,
                    src,
                    b,
                    LineRule::GoroutineWithoutShutdown,
                    imports,
                    vars,
                )[m],
            ),
{
    let p = LineParam { rule: LineRule::GoroutineWithoutShutdown, imports, string_vars: vars };
    let pred = |x: usize| unstoppable_goroutine_on(t, src, x);
    assert forall|j: int, c: Ctx, m: int|
        0 <= j < t.len() && 0 <= m < LineCollector::own_items(p, t, src, j, c).len() implies pred(
        #[trigger] LineCollector::own_items(p, t, src, j, c)[m],
    ) by {
        assert(LineCollector::own_items(p, t, src, j, c)[m] == t.line(j));
    }
    lemma_walk_items::<LineCollector>(p, t, src, b, start_ctx(), pred);
}

/// Every line of a parsed function's goroutines-without-shutdown list is
/// that of a `go` statement that loops and never waits on `ctx.Done()`, a
/// `done` channel or a `shutdown` channel.
pub proof fn law_function_goroutines_without_shutdown_never_wait(
    t: SyntaxTree,
    src: Seq<char>,
    i: int,
    imports: Seq<ImportSpecView>,
    lines: Seq<Seq<char>>,
)
    requires
        parsed_function_at(t, src, i, imports, lines) is Some,
    ensures
        forall|m: int|
            0 <= m < parsed_function_at(
                t,
                src,
                i,
                imports,
                lines,
            )->0.goroutine_without_shutdown_lines.len() ==> unstoppable_goroutine_on(
                t,
                src,
                #[trigger] parsed_function_at(
                    t,
                    src,
                    i,
                    imports,
                    lines,
                )->0.goroutine_without_shutdown_lines[m],
            ),
{
    let b = t.field(i, FieldName::Body)->0 as int;
    law_unstoppable_goroutines_never_wait(t, src, b, seq![], seq![]);
}

proof fn lemma_callable_names_has(
    t: SyntaxTree,
    names: Seq<(Seq<char>, usize)>,
    values: Seq<usize>,
    k0: int,
    k: int,
)
    requires
        0 <= k0 <= k < names.len(),
        k < values.len(),
        crate::go::patterns::callable_value_kind(t.nodes@[values[k] as int].kind@),
    ensures
        crate::go::collect::callable_names(t, names, values, k0).contains(
            crate::go::collect::function_alias_symbol(names[k]),
        ),
    decreases k - k0,
{
    let x = crate::go::collect::function_alias_symbol(names[k]);
    let head = if k0 < values.len() && crate::go::patterns::callable_value_kind(
        t.nodes@[values[k0] as int].kind@,
    ) {
        seq![crate::go::collect::function_alias_symbol(names[k0])]
    } else {
        Seq::empty()
    };
    let rest = crate::go::collect::callable_names(t, names, values, k0 + 1);
    assert(crate::go::collect::callable_names(t, names, values, k0) == head + rest);
    if k0 == k {
        assert((head + rest)[0] == x);
    } else {
        lemma_callable_names_has(t, names, values, k0 + 1, k);
        let m = choose|m: int| 0 <= m < rest.len() && rest[m] == x;
        assert((head + rest)[head.len() + m] == x);
    }
}

/// In a package-level `var` spec, a name whose value at the same position
/// is an identifier, a selector, a function literal, or a parenthesized,
/// index or slice expression is declared as a function symbol on its line.
pub proof fn law_function_valued_vars_are_aliases(
    t: SyntaxTree,
    src: Seq<char>,
    i: int,
    ctx: Ctx,
    k: int,
)
    requires
        ctx.scope == crate::syntax::Scope::Package,
        crate::go::tree::var_name_node(t, i) matches Some(nn) && 0 <= k
            < crate::go::tree::identifiers(t, src, nn as int).len(),
        crate::go::tree::var_value_node(t, i) matches Some(vn) && k
            < crate::go::tree::expression_nodes(t, vn as int).len() && {
            let kd = t.nodes@[crate::go::tree::expression_nodes(t, vn as int)[k] as int].kind@;
            ||| kd == "identifier"@
            ||| kd == "selector_expression"@
            ||| kd == "func_literal"@
            ||| kd == "parenthesized_expression"@
            ||| kd == "index_expression"@
            ||| kd == "slice_expression"@
        },
    ensures
        crate::go::collect::package_var_symbols(t, src, i, ctx).contains(
            crate::model::DeclaredSymbolView {
                name: crate::go::tree::identifiers(
                    t,
                    src,
                    crate::go::tree::var_name_node(t, i)->0 as int,
                )[k].0,
                kind: crate::model::SymbolKind::Function,
                receiver_type: None,
                line: crate::go::tree::identifiers(
                    t,
                    src,
                    crate::go::tree::var_name_node(t, i)->0 as int,
                )[k].1,
            },
        ),
{
    let nn = crate::go::tree::var_name_node(t, i)->0 as int;
    let names = crate::go::tree::identifiers(t, src, nn);
    let x = crate::go::collect::function_alias_symbol(names[k]);
    let syms = crate::go::collect::package_var_symbols(t, src, i, ctx);
    if crate::go::collect::function_typed(t, i) {
        let all = names.map_values(|p: (Seq<char>, usize)| crate::go::collect::function_alias_symbol(p));
        assert(syms == all);
        assert(all[k] == x);
    } else {
        let vn = crate::go::tree::var_value_node(t, i)->0 as int;
        let values = crate::go::tree::expression_nodes(t, vn);
        lemma_callable_names_has(t, names, values, 0, k);
        assert(syms == crate::go::collect::callable_names(t, names, values, 0));
    }
}

proof fn lemma_line_rule_reports(
    t: SyntaxTree,
    src: Seq<char>,
    path: Seq<int>,
    p: LineParam,
)
    requires
        named_path(t, path),
        forall|in_loop: bool| #[trigger] line_hit(p, t, src, path.last(), in_loop),
    ensures
        signal_lines(t, src, path[0], p.rule, p.imports, p.string_vars).contains(t.line(path.last())),
{
    let j = path.last();
    assert forall|c: Ctx| #[trigger] LineCollector::own_items(p, t, src, j, c).contains(t.line(j)) by {
        assert(line_hit(p, t, src, j, step(t, j, c).in_loop));
        assert(LineCollector::own_items(p, t, src, j, c)[0] == t.line(j));
    }
    assert(p == LineParam { rule: p.rule, imports: p.imports, string_vars: p.string_vars });
    lemma_walk_reaches::<LineCollector>(p, t, src, path, start_ctx(), t.line(j));
}

/// A `go` statement that launches a function literal with a loop in it
/// and, without whitespace, never mentions `ctx.Done()`, `<-done` or
/// `<-shutdown` is reported on its line as a goroutine without a shutdown
/// signal, under every node above it.
pub proof fn law_unstoppable_goroutines_are_reported(
    t: SyntaxTree,
    src: Seq<char>,
    path: Seq<int>,
    imports: Seq<ImportSpecView>,
    vars: Seq<Seq<char>>,
)
    requires
        named_path(t, path),
        t.kind_is(path.last(), "go_statement"@),
        t.text(src, path.last()) matches Some(s) && has_sub(compacted(s), "gofunc("@) && !has_sub(
            compacted(s),
            "ctx.Done()"@,
        ) && !has_sub(compacted(s), "<-done"@) && !has_sub(compacted(s), "<-shutdown"@),
        count_kind(t, src, path.last(), CountedKind::ForStatement) > 0,
    ensures
        signal_lines(t, src, path[0], LineRule::GoroutineWithoutShutdown, imports, vars).contains(
            t.line(path.last()),
        ),
{
    let p = LineParam { rule: LineRule::GoroutineWithoutShutdown, imports, string_vars: vars };
    let s = t.text(src, path.last())->0;
    let c = compacted(s);
    assert(!has_sub(c, "case<-done"@)) by {
        if has_sub(c, "case<-done"@) {
            reveal_strlit("case<-done");
            reveal_strlit("<-done");
            let i = choose|i: int| crate::text::occurs_at(c, "case<-done"@, i);
            assert(c.subrange(i + 4, i + 10) =~= "case<-done"@.subrange(4, 10));
            assert("case<-done"@.subrange(4, 10) =~= "<-done"@);
            assert(crate::text::occurs_at(c, "<-done"@, i + 4));
        }
    }
    assert(!has_sub(c, "case<-shutdown"@)) by {
        if has_sub(c, "case<-shutdown"@) {
            reveal_strlit("case<-shutdown");
            reveal_strlit("<-shutdown");
            let i = choose|i: int| crate::text::occurs_at(c, "case<-shutdown"@, i);
            assert(c.subrange(i + 4, i + 14) =~= "case<-shutdown"@.subrange(4, 14));
            assert("case<-shutdown"@.subrange(4, 14) =~= "<-shutdown"@);
            assert(crate::text::occurs_at(c, "<-shutdown"@, i + 4));
        }
    }
    assert(!has_sub(c, "case<-ctx.Done()"@)) by {
        if has_sub(c, "case<-ctx.Done()"@) {
            reveal_strlit("case<-ctx.Done()");
            reveal_strlit("ctx.Done()");
            let i = choose|i: int| crate::text::occurs_at(c, "case<-ctx.Done()"@, i);
            assert(c.subrange(i + 6, i + 16) =~= "case<-ctx.Done()"@.subrange(6, 16));
            assert("case<-ctx.Done()"@.subrange(6, 16) =~= "ctx.Done()"@);
            assert(crate::text::occurs_at(c, "ctx.Done()"@, i + 6));
        }
    }
    lemma_line_rule_reports(t, src, path, p);
}

/// Every `go` statement is reported on its line as a goroutine launch,
/// under every node above it.
pub proof fn law_goroutine_launches_are_reported(
    t: SyntaxTree,
    src: Seq<char>,
    path: Seq<int>,
    imports: Seq<ImportSpecView>,
    vars: Seq<Seq<char>>,
)
    requires
        named_path(t, path),
        t.kind_is(path.last(), "go_statement"@),
    ensures
        signal_lines(t, src, path[0], LineRule::GoroutineLaunch, imports, vars).contains(
            t.line(path.last()),
        ),
{
    lemma_line_rule_reports(
        t,
        src,
        path,
        LineParam { rule: LineRule::GoroutineLaunch, imports, string_vars: vars },
    );
}

/// An assignment or short declaration whose text, without whitespace,
/// starts with `_=err` or `_=ctx.Err()`, or holds `,_=err` or
/// `,_=ctx.Err()`, is reported on its line as a dropped error, under every
/// node above it.
pub proof fn law_dropped_errors_are_reported(
    t: SyntaxTree,
    src: Seq<char>,
    path: Seq<int>,
    imports: Seq<ImportSpecView>,
    vars: Seq<Seq<char>>,
)
    requires
        named_path(t, path),
        t.kind_is(path.last(), "assignment_statement"@) || t.kind_is(
            path.last(),
            "short_var_declaration"@,
        ),
        t.text(src, path.last()) matches Some(s) && (crate::text::starts_with(
            compacted(s),
            "_=err"@,
        ) || crate::text::starts_with(compacted(s), "_=ctx.Err()"@) || has_sub(
            compacted(s),
            ",_=err"@,
        ) || has_sub(compacted(s), ",_=ctx.Err()"@)),
    ensures
        signal_lines(t, src, path[0], LineRule::DroppedError, imports, vars).contains(
            t.line(path.last()),
        ),
{
    lemma_line_rule_reports(
        t,
        src,
        path,
        LineParam { rule: LineRule::DroppedError, imports, string_vars: vars },
    );
}

/// A call whose callee text splits into a receiver and a name is recorded,
/// with its line, under every node above it.
pub proof fn law_calls_are_recorded(t: SyntaxTree, src: Seq<char>, path: Seq<int>)
    requires
        named_path(t, path),
        t.kind_is(path.last(), "call_expression"@),
        t.field(path.last(), FieldName::Function) matches Some(f) && t.text(src, f as int) matches Some(
            x,
        ) && call_target(x) is Some,
    ensures
        ({
            let x = t.text(src, t.field(path.last(), FieldName::Function)->0 as int)->0;
            crate::go::parser::calls_under(t, src, path[0]).contains(
                CallSiteView {
                    receiver: call_target(x).unwrap().0,
                    name: call_target(x).unwrap().1,
                    line: t.line(path.last()),
                },
            )
        }),
{
    let j = path.last();
    let x = t.text(src, t.field(j, FieldName::Function)->0 as int)->0;
    let cs = CallSiteView { receiver: call_target(x).unwrap().0, name: call_target(x).unwrap().1, line: t.line(j) };
    assert forall|c: Ctx| #[trigger] CallCollector::own_items((), t, src, j, c).contains(cs) by {
        assert(CallCollector::own_items((), t, src, j, c)[0] == cs);
    }
    assert forall|q: int| 0 <= q < t.len() implies #[trigger] CallCollector::descends((), t, src, q) by {}
    lemma_walk_reaches::<CallCollector>((), t, src, path, start_ctx(), cs);
}

/// Line `x` is that of an `if` whose condition, without whitespace, holds
/// `err!=nil` and whose consequence calls `panic(`, `log.Fatal(`,
/// `log.Fatalf(` or `log.Fatalln(`.
pub open spec fn exit_on_error_on(t: SyntaxTree, src: Seq<char>, x: usize) -> bool {
    exists|j: int|
        0 <= j < t.len() && #[trigger] t.line(j) == x && t.kind_is(j, "if_statement"@) && (t.field(
            j,
            FieldName::Condition,
        ) matches Some(c) && t.text(src, c as int) matches Some(ct) && has_sub(
            compacted(ct),
            "err!=nil"@,
        )) && (t.field(j, FieldName::Consequence) matches Some(q) && t.text(src, q as int) matches Some(
            qt,
        ) && (has_sub(qt, "panic("@) || has_sub(qt, "log.Fatal("@) || has_sub(qt, "log.Fatalf("@)
            || has_sub(qt, "log.Fatalln("@)))
}

/// Every line reported as a panic on error is that of an `if` whose
/// condition holds `err!=nil` and whose consequence panics or calls
/// `log.Fatal*`.
pub proof fn law_reported_exits_check_err(
    t: SyntaxTree,
    src: Seq<char>,
    b: int,
    imports: Seq<ImportSpecView>,
    vars: Seq<Seq<char>>,
)
    ensures
        forall|m: int|
            0 <= m < signal_lines(t, src, b, LineRule::PanicOnError, imports, vars).len()
                ==> exit_on_error_on(
                t,
                src,
                #[trigger] signal_lines(t, src, b, LineRule::PanicOnError, imports, vars)[m],
            ),
{
    let p = LineParam { rule: LineRule::PanicOnError, imports, string_vars: vars };
    let pred = |x: usize| exit_on_error_on(t, src, x);
    assert forall|j: int, c: Ctx, m: int|
        0 <= j < t.len() && 0 <= m < LineCollector::own_items(p, t, src, j, c).len() implies pred(
        #[trigger] LineCollector::own_items(p, t, src, j, c)[m],
    ) by {
        assert(LineCollector::own_items(p, t, src, j, c)[m] == t.line(j));
    }
    lemma_walk_items::<LineCollector>(p, t, src, b, start_ctx(), pred);
}

/// Line `x` is that of an assignment or short declaration whose text,
/// without whitespace, drops `err` or `ctx.Err()` into `_`.
pub open spec fn dropped_error_on(t: SyntaxTree, src: Seq<char>, x: usize) -> bool {
    exists|j: int|
        0 <= j < t.len() && #[trigger] t.line(j) == x && (t.kind_is(j, "assignment_statement"@)
            || t.kind_is(j, "short_var_declaration"@)) && (t.text(src, j) matches Some(s) && (
        crate::text::starts_with(compacted(s), "_=err"@) || crate::text::starts_with(
            compacted(s),
            "_=ctx.Err()"@,
        ) || has_sub(compacted(s), ",_=err"@) || has_sub(compacted(s), ",_=ctx.Err()"@)))
}

/// Every line reported as a dropped error is that of an assignment that
/// puts `err` or `ctx.Err()` into `_`.
pub proof fn law_reported_drops_assign_err_to_blank(
    t: SyntaxTree,
    src: Seq<char>,
    b: int,
    imports: Seq<ImportSpecView>,
    vars: Seq<Seq<char>>,
)
    ensures
        forall|m: int|
            0 <= m < signal_lines(t, src, b, LineRule::DroppedError, imports, vars).len()
                ==> dropped_error_on(
                t,
                src,
                #[trigger] signal_lines(t, src, b, LineRule::DroppedError, imports, vars)[m],
            ),
{
    let p = LineParam { rule: LineRule::DroppedError, imports, string_vars: vars };
    let pred = |x: usize| dropped_error_on(t, src, x);
    assert forall|j: int, c: Ctx, m: int|
        0 <= j < t.len() && 0 <= m < LineCollector::own_items(p, t, src, j, c).len() implies pred(
        #[trigger] LineCollector::own_items(p, t, src, j, c)[m],
    ) by {
        assert(LineCollector::own_items(p, t, src, j, c)[m] == t.line(j));
    }
    lemma_walk_items::<LineCollector>(p, t, src, b, start_ctx(), pred);
}

/// `e` is the record of a call of `fmt.Errorf` on its line: it wraps with
/// `%w` exactly when the argument text holds `%w`, and mentions `err`
/// exactly when the argument text holds `err`.
pub open spec fn errorf_record_of(t: SyntaxTree, src: Seq<char>, e: FormattedErrorCallView) -> bool {
    exists|j: int|
        0 <= j < t.len() && #[trigger] t.line(j) == e.line && t.kind_is(j, "call_expression"@) && (t.field(
            j,
            FieldName::Function,
        ) matches Some(f) && trimmed(crate::go::collect::text_or_empty(t, src, f as int))
            == "fmt.Errorf"@)
            && (t.field(j, FieldName::Arguments) matches Some(a) && e.uses_percent_w == has_sub(
            crate::go::collect::text_or_empty(t, src, a as int),
            "%w"@,
        ) && e.mentions_err == has_sub(crate::go::collect::text_or_empty(t, src, a as int), "err"@))
}

/// Every recorded `fmt.Errorf` call is such a call, and says whether it
/// wraps with `%w` and mentions `err` by its argument text.
pub proof fn law_errorf_records_read_their_arguments(t: SyntaxTree, src: Seq<char>, b: int)
    ensures
        forall|m: int|
            0 <= m < crate::go::parser::errorf_calls_under(t, src, b).len() ==> errorf_record_of(
                t,
                src,
                #[trigger] crate::go::parser::errorf_calls_under(t, src, b)[m],
            ),
{
    let pred = |e: FormattedErrorCallView| errorf_record_of(t, src, e);
    assert forall|j: int, c: Ctx, m: int|
        0 <= j < t.len() && 0 <= m < ErrorfCollector::own_items((), t, src, j, c).len() implies pred(
        #[trigger] ErrorfCollector::own_items((), t, src, j, c)[m],
    ) by {
        let e = ErrorfCollector::own_items((), t, src, j, c)[m];
        assert(t.line(j) == e.line);
    }
    lemma_walk_items::<ErrorfCollector>((), t, src, b, start_ctx(), pred);
}

/// The rule that a call of `name` breaks outside tests, if any: the
/// `todo!`, `unimplemented!`, `dbg!`, `panic!` and `unreachable!` leftovers,
/// and `unwrap()` and `expect()`.
pub open spec fn leftover_rule(name: Seq<char>) -> Option<Seq<char>> {
    if name == "todo!"@ {
        Some("todo_macro_leftover"@)
    } else if name == "unimplemented!"@ {
        Some("unimplemented_macro_leftover"@)
    } else if name == "dbg!"@ {
        Some("dbg_macro_leftover"@)
    } else if name == "panic!"@ {
        Some("panic_macro_leftover"@)
    } else if name == "unreachable!"@ {
        Some("unreachable_macro_leftover"@)
    } else if name == "unwrap"@ {
        Some("unwrap_in_non_test_code"@)
    } else if name == "expect"@ {
        Some("expect_in_non_test_code"@)
    } else {
        None
    }
}

/// Some finding of `fs` is of rule `r` on line `l`.
pub open spec fn has_finding(fs: Seq<FindingView>, r: Seq<char>, l: usize) -> bool {
    exists|m: int| 0 <= m < fs.len() && (#[trigger] fs[m]).rule_id == r && fs[m].start_line == l
}

proof fn lemma_has_finding_concat(a: Seq<FindingView>, b: Seq<FindingView>, r: Seq<char>, l: usize)
    ensures
        has_finding(a, r, l) ==> has_finding(a + b, r, l),
        has_finding(b, r, l) ==> has_finding(a + b, r, l),
{
    if has_finding(a, r, l) {
        let m = choose|m: int| 0 <= m < a.len() && (#[trigger] a[m]).rule_id == r && a[m].start_line == l;
        assert((a + b)[m] == a[m]);
    }
    if has_finding(b, r, l) {
        let m = choose|m: int| 0 <= m < b.len() && (#[trigger] b[m]).rule_id == r && b[m].start_line == l;
        assert((a + b)[a.len() + m] == b[m]);
    }
}

proof fn lemma_macro_findings_has(
    path: Seq<char>,
    f: ParsedFunctionView,
    name: Seq<char>,
    rule: Seq<char>,
    suffix: Seq<char>,
    k0: int,
    k: int,
)
    requires
        0 <= k0 <= k < f.calls.len(),
        f.calls[k].name == name,
    ensures
        has_finding(macro_findings_from(path, f, name, rule, suffix, k0), rule, f.calls[k].line),
    decreases k - k0,
{
    let rest = macro_findings_from(path, f, name, rule, suffix, k0 + 1);
    let head = if f.calls[k0].name == name {
        seq![
            crate::rust_rules::warning(
                rule,
                path,
                f,
                f.calls[k0].line,
                crate::rust_rules::finding_message(f.fingerprint.name, suffix),
                "macro invocation: "@ + name,
            ),
        ]
    } else {
        Seq::empty()
    };
    assert(macro_findings_from(path, f, name, rule, suffix, k0) == head + rest);
    if k0 == k {
        assert(head[0].rule_id == rule && head[0].start_line == f.calls[k].line);
        assert(has_finding(head, rule, f.calls[k].line));
    } else {
        lemma_macro_findings_has(path, f, name, rule, suffix, k0 + 1, k);
    }
    lemma_has_finding_concat(head, rest, rule, f.calls[k].line);
}

proof fn lemma_call_findings_has(
    path: Seq<char>,
    f: ParsedFunctionView,
    name: Seq<char>,
    rule: Seq<char>,
    suffix: Seq<char>,
    k0: int,
    k: int,
)
    requires
        0 <= k0 <= k < f.calls.len(),
        f.calls[k].name == name,
    ensures
        has_finding(call_findings_from(path, f, name, rule, suffix, k0), rule, f.calls[k].line),
    decreases k - k0,
{
    let rest = call_findings_from(path, f, name, rule, suffix, k0 + 1);
    let head = if f.calls[k0].name == name {
        seq![
            crate::rust_rules::warning(
                rule,
                path,
                f,
                f.calls[k0].line,
                crate::rust_rules::finding_message(f.fingerprint.name, suffix),
                crate::rust_rules::call_evidence(f.calls[k0], name),
            ),
        ]
    } else {
        Seq::empty()
    };
    assert(call_findings_from(path, f, name, rule, suffix, k0) == head + rest);
    if k0 == k {
        assert(head[0].rule_id == rule && head[0].start_line == f.calls[k].line);
        assert(has_finding(head, rule, f.calls[k].line));
    } else {
        lemma_call_findings_has(path, f, name, rule, suffix, k0 + 1, k);
    }
    lemma_has_finding_concat(head, rest, rule, f.calls[k].line);
}

/// Outside tests, every call of a `todo!`, `unimplemented!`, `dbg!`,
/// `panic!` or `unreachable!` macro, of `unwrap()` or of `expect()` is
/// reported under its rule on its line.
pub proof fn law_leftovers_are_reported(path: Seq<char>, f: ParsedFunctionView, k: int)
    requires
        !f.is_test_function,
        0 <= k < f.calls.len(),
        leftover_rule(f.calls[k].name) is Some,
    ensures
        has_finding(
            function_findings(path, f),
            leftover_rule(f.calls[k].name)->0,
            f.calls[k].line,
        ),
{
    let name = f.calls[k].name;
    let l = f.calls[k].line;
    let r = leftover_rule(name)->0;
    let a = macro_findings(path, f, "todo!"@, "todo_macro_leftover"@, "leaves todo! in non-test Rust code"@);
    let b = macro_findings(
        path,
        f,
        "unimplemented!"@,
        "unimplemented_macro_leftover"@,
        "leaves unimplemented! in non-test Rust code"@,
    );
    let c = macro_findings(path, f, "dbg!"@, "dbg_macro_leftover"@, "leaves dbg! in non-test Rust code"@);
    let d = macro_findings(
        path,
        f,
        "panic!"@,
        "panic_macro_leftover"@,
        "leaves panic! in non-test Rust code"@,
    );
    let e = macro_findings(
        path,
        f,
        "unreachable!"@,
        "unreachable_macro_leftover"@,
        "leaves unreachable! in non-test Rust code"@,
    );
    let g = call_findings(path, f, "unwrap"@, "unwrap_in_non_test_code"@, "calls unwrap() in non-test Rust code"@);
    let h = call_findings(path, f, "expect"@, "expect_in_non_test_code"@, "calls expect() in non-test Rust code"@);
    let u = unsafe_findings(path, f);
    assert(function_findings(path, f) == a + b + c + d + e + g + h + u);
    if name == "todo!"@ {
        lemma_macro_findings_has(path, f, "todo!"@, r, "leaves todo! in non-test Rust code"@, 0, k);
        assert(has_finding(a, r, l));
    } else if name == "unimplemented!"@ {
        lemma_macro_findings_has(path, f, name, r, "leaves unimplemented! in non-test Rust code"@, 0, k);
        assert(has_finding(b, r, l));
        lemma_has_finding_concat(a, b, r, l);
    } else if name == "dbg!"@ {
        lemma_macro_findings_has(path, f, name, r, "leaves dbg! in non-test Rust code"@, 0, k);
        assert(has_finding(c, r, l));
        lemma_has_finding_concat(a + b, c, r, l);
    } else if name == "panic!"@ {
        lemma_macro_findings_has(path, f, name, r, "leaves panic! in non-test Rust code"@, 0, k);
        assert(has_finding(d, r, l));
        lemma_has_finding_concat(a + b + c, d, r, l);
    } else if name == "unreachable!"@ {
        lemma_macro_findings_has(path, f, name, r, "leaves unreachable! in non-test Rust code"@, 0, k);
        assert(has_finding(e, r, l));
        lemma_has_finding_concat(a + b + c + d, e, r, l);
    } else if name == "unwrap"@ {
        lemma_call_findings_has(path, f, name, r, "calls unwrap() in non-test Rust code"@, 0, k);
        assert(has_finding(g, r, l));
        lemma_has_finding_concat(a + b + c + d + e, g, r, l);
    } else {
        lemma_call_findings_has(path, f, name, r, "calls expect() in non-test Rust code"@, 0, k);
        assert(has_finding(h, r, l));
        lemma_has_finding_concat(a + b + c + d + e + g, h, r, l);
    }
    lemma_has_finding_concat(a, b, r, l);
    lemma_has_finding_concat(a + b, c, r, l);
    lemma_has_finding_concat(a + b + c, d, r, l);
    lemma_has_finding_concat(a + b + c + d, e, r, l);
    lemma_has_finding_concat(a + b + c + d + e, g, r, l);
    lemma_has_finding_concat(a + b + c + d + e + g, h, r, l);
    lemma_has_finding_concat(a + b + c + d + e + g + h, u, r, l);
}

/// `name` is one of the database methods `Query`, `QueryContext`,
/// `QueryRow`, `QueryRowContext`, `Exec`, `ExecContext`, `Get`, `Select`,
/// `Raw`, `First`, `Find`, `Take`, `Preload`.
pub open spec fn database_method_name(name: Seq<char>) -> bool {
    ||| name == "Query"@
    ||| name == "QueryContext"@
    ||| name == "QueryRow"@
    ||| name == "QueryRowContext"@
    ||| name == "Exec"@
    ||| name == "ExecContext"@
    ||| name == "Get"@
    ||| name == "Select"@
    ||| name == "Raw"@
    ||| name == "First"@
    ||| name == "Find"@
    ||| name == "Take"@
    ||| name == "Preload"@
}

/// A call of a database method is recorded as a database call, with its
/// receiver, method name and line, under every node above it.
pub proof fn law_database_calls_are_recorded(t: SyntaxTree, src: Seq<char>, path: Seq<int>)
    requires
        named_path(t, path),
        t.kind_is(path.last(), "call_expression"@),
        t.field(path.last(), FieldName::Function) matches Some(f) && t.text(src, f as int) matches Some(
            x,
        ) && call_target(x) matches Some((r, n)) && database_method_name(n),
    ensures
        ({
            let x = t.text(src, t.field(path.last(), FieldName::Function)->0 as int)->0;
            let target = call_target(x).unwrap();
            exists|m: int|
                0 <= m < crate::go::parser::db_calls_under(t, src, path[0]).len() && {
                    let d = #[trigger] crate::go::parser::db_calls_under(t, src, path[0])[m];
                    d.line == t.line(path.last()) && d.receiver == target.0 && d.method_name
                        == target.1
                }
        }),
{
    let j = path.last();
    let x = t.text(src, t.field(j, FieldName::Function)->0 as int)->0;
    let target = call_target(x).unwrap();
    let pred = |d: DbQueryCallView|
        d.line == t.line(j) && d.receiver == target.0 && d.method_name == target.1;
    assert forall|c: Ctx| #[trigger] contributes::<DbQueryCollector>((), t, src, j, c, pred) by {
        let d = DbQueryCollector::own_items((), t, src, j, c)[0];
        assert(pred(d));
    }
    assert forall|q: int| 0 <= q < t.len() implies #[trigger] DbQueryCollector::descends(
        (),
        t,
        src,
        q,
    ) by {}
    lemma_walk_reaches_pred::<DbQueryCollector>((), t, src, path, start_ctx(), pred);
    let w = walk::<DbQueryCollector>((), t, src, path[0], start_ctx());
    assert(crate::go::parser::db_calls_under(t, src, path[0]) == w);
    let m = choose|m: int| 0 <= m < w.len() && pred(#[trigger] w[m]);
    assert(pred(w[m]));
}

/// Some `context` import `k`, from `k0` on, makes the compact text start
/// with its alias and `.WithCancel(`, `.WithTimeout(` or `.WithDeadline(`.
pub open spec fn starts_with_factory(c: Seq<char>, imports: Seq<ImportSpecView>, k: int) -> bool {
    &&& 0 <= k < imports.len()
    &&& imports[k].path == "context"@
    &&& (crate::text::starts_with(c, imports[k].alias + ".WithCancel("@) || crate::text::starts_with(
        c,
        imports[k].alias + ".WithTimeout("@,
    ) || crate::text::starts_with(c, imports[k].alias + ".WithDeadline("@))
}

/// The factory `f` is what `context` import `k` makes the compact text
/// start with.
pub open spec fn names_factory(c: Seq<char>, imports: Seq<ImportSpecView>, k: int, f: Seq<char>) -> bool {
    &&& 0 <= k < imports.len()
    &&& imports[k].path == "context"@
    &&& ((f == "WithCancel"@ && crate::text::starts_with(c, imports[k].alias + ".WithCancel("@)) || (f
        == "WithTimeout"@ && crate::text::starts_with(c, imports[k].alias + ".WithTimeout("@)) || (f
        == "WithDeadline"@ && crate::text::starts_with(c, imports[k].alias + ".WithDeadline("@)))
}

proof fn lemma_factory_from(c: Seq<char>, imports: Seq<ImportSpecView>, k0: int)
    requires
        0 <= k0,
    ensures
        crate::go::patterns::factory_from(c, imports, k0) is Some <==> exists|k: int|
            k0 <= k && #[trigger] starts_with_factory(c, imports, k),
        crate::go::patterns::factory_from(c, imports, k0) matches Some(f) ==> exists|k: int|
            k0 <= k && #[trigger] names_factory(c, imports, k, f),
    decreases imports.len() - k0,
{
    if k0 < imports.len() {
        lemma_factory_from(c, imports, k0 + 1);
        if starts_with_factory(c, imports, k0) {
            if let Some(f) = crate::go::patterns::factory_from(c, imports, k0) {
                assert(names_factory(c, imports, k0, f));
            }
        } else {
            assert forall|k: int| k0 <= k && #[trigger] starts_with_factory(c, imports, k) implies k0
                + 1 <= k by {}
            if let Some(f) = crate::go::patterns::factory_from(c, imports, k0) {
                let k = choose|k: int| k0 + 1 <= k && #[trigger] names_factory(c, imports, k, f);
                assert(names_factory(c, imports, k, f));
            }
        }
    }
}

/// A text, without whitespace, that starts with the alias of a `context`
/// import followed by `.WithCancel(`, `.WithTimeout(` or `.WithDeadline(`
/// names a context factory; and the factory it names is the one that such
/// an import makes it start with.
pub proof fn law_context_factories(text: Seq<char>, imports: Seq<ImportSpecView>)
    ensures
        crate::go::patterns::context_factory(text, imports) is Some <==> exists|k: int|
            #[trigger] starts_with_factory(compacted(text), imports, k),
        crate::go::patterns::context_factory(text, imports) matches Some(f) ==> exists|k: int|
            #[trigger] names_factory(compacted(text), imports, k, f),
{
    lemma_factory_from(compacted(text), imports, 0);
}

proof fn lemma_loop_rule_reports(t: SyntaxTree, src: Seq<char>, path: Seq<int>, p: LineParam)
    requires
        named_path(t, path),
        loop_on(t, path, start_ctx()),
        line_hit(p, t, src, path.last(), true),
    ensures
        signal_lines(t, src, path[0], p.rule, p.imports, p.string_vars).contains(t.line(path.last())),
{
    let j = path.last();
    assert forall|c: Ctx|
        (c.in_loop || t.kind_is(path.last(), "for_statement"@)) implies #[trigger] LineCollector::own_items(
        p,
        t,
        src,
        path.last(),
        c,
    ).contains(t.line(j)) by {
        assert(step(t, j, c).in_loop);
        assert(LineCollector::own_items(p, t, src, j, c)[0] == t.line(j));
    }
    assert(p == LineParam { rule: p.rule, imports: p.imports, string_vars: p.string_vars });
    lemma_walk_reaches_in_loop::<LineCollector>(p, t, src, path, start_ctx(), t.line(j));
}

/// The trimmed callee text of call node `j`.
pub open spec fn callee_of(t: SyntaxTree, src: Seq<char>, j: int) -> Seq<char> {
    trimmed(crate::go::collect::text_or_empty(t, src, t.field(j, FieldName::Function)->0 as int))
}

/// Inside a `for` statement, a call whose callee ends in `.Lock` or
/// `.RLock` is reported on its line as a mutex lock in a loop, under every
/// node above it.
pub proof fn law_locks_in_loops_are_reported(
    t: SyntaxTree,
    src: Seq<char>,
    path: Seq<int>,
    imports: Seq<ImportSpecView>,
    vars: Seq<Seq<char>>,
)
    requires
        named_path(t, path),
        loop_on(t, path, start_ctx()),
        t.kind_is(path.last(), "call_expression"@),
        t.field(path.last(), FieldName::Function) is Some,
        crate::text::ends_with(callee_of(t, src, path.last()), ".Lock"@) || crate::text::ends_with(
            callee_of(t, src, path.last()),
            ".RLock"@,
        ),
    ensures
        signal_lines(t, src, path[0], LineRule::MutexLockInLoop, imports, vars).contains(
            t.line(path.last()),
        ),
{
    lemma_loop_rule_reports(
        t,
        src,
        path,
        LineParam { rule: LineRule::MutexLockInLoop, imports, string_vars: vars },
    );
}

/// Inside a `for` statement, a call of `Sleep` on the alias of an import
/// of `time` is reported on its line as a sleep in a loop, under every node
/// above it.
pub proof fn law_sleeps_in_loops_are_reported(
    t: SyntaxTree,
    src: Seq<char>,
    path: Seq<int>,
    imports: Seq<ImportSpecView>,
    vars: Seq<Seq<char>>,
    k: int,
)
    requires
        named_path(t, path),
        loop_on(t, path, start_ctx()),
        t.kind_is(path.last(), "call_expression"@),
        t.field(path.last(), FieldName::Function) is Some,
        0 <= k < imports.len(),
        imports[k].path == "time"@,
        callee_of(t, src, path.last()) == imports[k].alias + ".Sleep"@,
    ensures
        signal_lines(t, src, path[0], LineRule::SleepInLoop, imports, vars).contains(
            t.line(path.last()),
        ),
{
    assert(crate::go::patterns::import_hit(
        crate::go::patterns::ImportRule::Sleep,
        imports[k],
        callee_of(t, src, path.last()),
    ));
    lemma_loop_rule_reports(
        t,
        src,
        path,
        LineParam { rule: LineRule::SleepInLoop, imports, string_vars: vars },
    );
}

/// Inside a `for` statement, a call of `make` or `new` is reported on its
/// line as an allocation in a loop, under every node above it.
pub proof fn law_allocations_in_loops_are_reported(
    t: SyntaxTree,
    src: Seq<char>,
    path: Seq<int>,
    imports: Seq<ImportSpecView>,
    vars: Seq<Seq<char>>,
)
    requires
        named_path(t, path),
        loop_on(t, path, start_ctx()),
        t.kind_is(path.last(), "call_expression"@),
        t.field(path.last(), FieldName::Function) is Some,
        callee_of(t, src, path.last()) == "make"@ || callee_of(t, src, path.last()) == "new"@,
    ensures
        signal_lines(t, src, path[0], LineRule::AllocationInLoop, imports, vars).contains(
            t.line(path.last()),
        ),
{
    lemma_loop_rule_reports(
        t,
        src,
        path,
        LineParam { rule: LineRule::AllocationInLoop, imports, string_vars: vars },
    );
}

/// Inside a `for` statement, a `select` with a `default:` case is reported
/// on its line as a busy wait, under every node above it.
pub proof fn law_busy_waits_are_reported(
    t: SyntaxTree,
    src: Seq<char>,
    path: Seq<int>,
    imports: Seq<ImportSpecView>,
    vars: Seq<Seq<char>>,
)
    requires
        named_path(t, path),
        loop_on(t, path, start_ctx()),
        t.kind_is(path.last(), "select_statement"@),
        t.text(src, path.last()) matches Some(x) && has_sub(x, "default:"@),
    ensures
        signal_lines(t, src, path[0], LineRule::BusyWait, imports, vars).contains(
            t.line(path.last()),
        ),
{
    lemma_loop_rule_reports(
        t,
        src,
        path,
        LineParam { rule: LineRule::BusyWait, imports, string_vars: vars },
    );
}

proof fn lemma_symbol_found(t: SyntaxTree, src: Seq<char>, path: Seq<int>, x: crate::model::DeclaredSymbolView)
    requires
        named_path(t, path),
        forall|c: Ctx| #[trigger] crate::go::collect::symbols_at(t, src, path.last(), c).contains(x),
    ensures
        crate::go::parser::symbols_of(t, src, path[0]).contains(x),
{
    let j = path.last();
    assert forall|c: Ctx| #[trigger]
        crate::go::collect::SymbolCollector::own_items((), t, src, j, c).contains(x) by {
        assert(crate::go::collect::symbols_at(t, src, j, c).contains(x));
    }
    assert forall|q: int| 0 <= q < t.len() implies #[trigger] crate::go::collect::SymbolCollector::descends(
        (),
        t,
        src,
        q,
    ) by {}
    lemma_walk_reaches::<crate::go::collect::SymbolCollector>((), t, src, path, start_ctx(), x);
    lemma_stable_sort_keeps::<DeclaredSymbol>(
        walk::<crate::go::collect::SymbolCollector>((), t, src, path[0], start_ctx()),
        x,
    );
}

/// A function declaration under the root is listed among the file's
/// symbols as a function, by the text of its name, on its line.
pub proof fn law_functions_are_symbols(t: SyntaxTree, src: Seq<char>, path: Seq<int>)
    requires
        named_path(t, path),
        t.kind_is(path.last(), "function_declaration"@),
        t.field(path.last(), FieldName::Name) matches Some(nn) && t.text(src, nn as int) is Some,
    ensures
        crate::go::parser::symbols_of(t, src, path[0]).contains(
            crate::model::DeclaredSymbolView {
                name: t.text(src, t.field(path.last(), FieldName::Name)->0 as int)->0,
                kind: crate::model::SymbolKind::Function,
                receiver_type: None,
                line: t.line(path.last()),
            },
        ),
{
    let j = path.last();
    let x = crate::model::DeclaredSymbolView {
        name: t.text(src, t.field(j, FieldName::Name)->0 as int)->0,
        kind: crate::model::SymbolKind::Function,
        receiver_type: None,
        line: t.line(j),
    };
    assert forall|c: Ctx| #[trigger] crate::go::collect::symbols_at(t, src, j, c).contains(x) by {
        assert(crate::go::collect::symbols_at(t, src, j, c)[0] == x);
    }
    lemma_symbol_found(t, src, path, x);
}

/// A method declaration under the root is listed among the file's symbols
/// as a method, by the text of its name and with its receiver's type, on
/// its line.
pub proof fn law_methods_are_symbols(t: SyntaxTree, src: Seq<char>, path: Seq<int>)
    requires
        named_path(t, path),
        t.kind_is(path.last(), "method_declaration"@),
        !t.kind_is(path.last(), "function_declaration"@),
        t.field(path.last(), FieldName::Name) matches Some(nn) && t.text(src, nn as int) is Some,
    ensures
        crate::go::parser::symbols_of(t, src, path[0]).contains(
            crate::model::DeclaredSymbolView {
                name: t.text(src, t.field(path.last(), FieldName::Name)->0 as int)->0,
                kind: crate::model::SymbolKind::Method,
                receiver_type: crate::go::collect::receiver_type_at(t, src, path.last()),
                line: t.line(path.last()),
            },
        ),
{
    let j = path.last();
    let x = crate::model::DeclaredSymbolView {
        name: t.text(src, t.field(j, FieldName::Name)->0 as int)->0,
        kind: crate::model::SymbolKind::Method,
        receiver_type: crate::go::collect::receiver_type_at(t, src, j),
        line: t.line(j),
    };
    assert forall|c: Ctx| #[trigger] crate::go::collect::symbols_at(t, src, j, c).contains(x) by {
        assert(crate::go::collect::symbols_at(t, src, j, c)[0] == x);
    }
    lemma_symbol_found(t, src, path, x);
}

/// A type spec under the root is listed among the file's symbols by the
/// text of its name, on its line: as a struct when its type is a
/// `struct_type`, as an interface when it is an `interface_type`, and as a
/// plain type otherwise.
pub proof fn law_types_are_symbols(t: SyntaxTree, src: Seq<char>, path: Seq<int>)
    requires
        named_path(t, path),
        t.kind_is(path.last(), "type_spec"@),
        !t.kind_is(path.last(), "function_declaration"@),
        !t.kind_is(path.last(), "method_declaration"@),
        t.field(path.last(), FieldName::Name) matches Some(nn) && t.text(src, nn as int) is Some,
        t.field(path.last(), FieldName::Type) is Some,
    ensures
        ({
            let tn = t.field(path.last(), FieldName::Type)->0 as int;
            crate::go::parser::symbols_of(t, src, path[0]).contains(
                crate::model::DeclaredSymbolView {
                    name: t.text(src, t.field(path.last(), FieldName::Name)->0 as int)->0,
                    kind: if t.kind_is(tn, "struct_type"@) {
                        crate::model::SymbolKind::Struct
                    } else if t.kind_is(tn, "interface_type"@) {
                        crate::model::SymbolKind::Interface
                    } else {
                        crate::model::SymbolKind::Type
                    },
                    receiver_type: None,
                    line: t.line(path.last()),
                },
            )
        }),
{
    let j = path.last();
    let tn = t.field(j, FieldName::Type)->0 as int;
    let x = crate::model::DeclaredSymbolView {
        name: t.text(src, t.field(j, FieldName::Name)->0 as int)->0,
        kind: if t.kind_is(tn, "struct_type"@) {
            crate::model::SymbolKind::Struct
        } else if t.kind_is(tn, "interface_type"@) {
            crate::model::SymbolKind::Interface
        } else {
            crate::model::SymbolKind::Type
        },
        receiver_type: None,
        line: t.line(j),
    };
    assert forall|c: Ctx| #[trigger] crate::go::collect::symbols_at(t, src, j, c).contains(x) by {
        assert(crate::go::collect::symbols_at(t, src, j, c)[0] == x);
    }
    lemma_symbol_found(t, src, path, x);
}

/// The alias derived from an import path is its last segment: the path is
/// the alias after nothing or after a `/`, and the alias holds no `/`.
pub proof fn law_import_alias_is_last_segment(path: Seq<char>)
    ensures
        exists|pre: Seq<char>|
            path == pre + alias_of_path(path) && (pre.len() == 0 || pre.last() == '/'),
        !alias_of_path(path).contains('/'),
{
    law_import_alias_has_no_slash(path);
    lemma_rfind_char(path, '/', path.len() as int);
    match rfind_char(path, '/', path.len() as int) {
        Some(k) => {
            let pre = path.subrange(0, k + 1);
            assert(path =~= pre + alias_of_path(path));
            assert(pre.last() == '/');
        },
        None => {
            assert(path =~= Seq::<char>::empty() + alias_of_path(path));
        },
    }
}

/// A call of `fmt.Errorf` with arguments is recorded, on its line, as
/// wrapping with `%w` exactly when its argument text holds `%w`, under
/// every node above it.
pub proof fn law_errorf_calls_are_recorded(t: SyntaxTree, src: Seq<char>, path: Seq<int>)
    requires
        named_path(t, path),
        t.kind_is(path.last(), "call_expression"@),
        t.field(path.last(), FieldName::Function) matches Some(f) && trimmed(
            crate::go::collect::text_or_empty(t, src, f as int),
        ) == "fmt.Errorf"@,
        t.field(path.last(), FieldName::Arguments) is Some,
    ensures
        ({
            let args = crate::go::collect::text_or_empty(
                t,
                src,
                t.field(path.last(), FieldName::Arguments)->0 as int,
            );
            exists|m: int|
                0 <= m < crate::go::parser::errorf_calls_under(t, src, path[0]).len() && {
                    let e = #[trigger] crate::go::parser::errorf_calls_under(t, src, path[0])[m];
                    e.line == t.line(path.last()) && e.uses_percent_w == has_sub(args, "%w"@)
                        && e.mentions_err == has_sub(args, "err"@)
                }
        }),
{
    let j = path.last();
    let args = crate::go::collect::text_or_empty(t, src, t.field(j, FieldName::Arguments)->0 as int);
    let pred = |e: FormattedErrorCallView|
        e.line == t.line(j) && e.uses_percent_w == has_sub(args, "%w"@) && e.mentions_err == has_sub(
            args,
            "err"@,
        );
    assert forall|c: Ctx| #[trigger] contributes::<ErrorfCollector>((), t, src, j, c, pred) by {
        let e = ErrorfCollector::own_items((), t, src, j, c)[0];
        assert(pred(e));
    }
    assert forall|q: int| 0 <= q < t.len() implies #[trigger] ErrorfCollector::descends(
        (),
        t,
        src,
        q,
    ) by {}
    lemma_walk_reaches_pred::<ErrorfCollector>((), t, src, path, start_ctx(), pred);
    let w = walk::<ErrorfCollector>((), t, src, path[0], start_ctx());
    assert(crate::go::parser::errorf_calls_under(t, src, path[0]) == w);
    let m = choose|m: int| 0 <= m < w.len() && pred(#[trigger] w[m]);
    assert(pred(w[m]));
}

/// Every recorded context factory call is one of `WithCancel`,
/// `WithTimeout` and `WithDeadline`, and keeps its cancel function in a
/// named identifier, never in `_`.
pub proof fn law_factory_calls_keep_a_named_cancel(
    t: SyntaxTree,
    src: Seq<char>,
    b: int,
    imports: Seq<ImportSpecView>,
)
    ensures
        forall|m: int|
            0 <= m < crate::go::parser::factory_calls_under(t, src, b, imports).len() ==> {
                let fc = #[trigger] crate::go::parser::factory_calls_under(t, src, b, imports)[m];
                &&& fc.factory_name == "WithCancel"@ || fc.factory_name == "WithTimeout"@
                    || fc.factory_name == "WithDeadline"@
                &&& fc.cancel_name != "_"@
                &&& crate::text::is_identifier(fc.cancel_name)
            },
{
    let pred = |fc: ContextFactoryCallView|
        (fc.factory_name == "WithCancel"@ || fc.factory_name == "WithTimeout"@ || fc.factory_name
            == "WithDeadline"@) && fc.cancel_name != "_"@ && crate::text::is_identifier(
            fc.cancel_name,
        );
    assert forall|j: int, c: Ctx, m: int|
        0 <= j < t.len() && 0 <= m < FactoryCollector::own_items(imports, t, src, j, c).len() implies pred(
        #[trigger] FactoryCollector::own_items(imports, t, src, j, c)[m],
    ) by {
        let x = t.text(src, j)->0;
        let r = crate::go::patterns::assignment_sides(x).unwrap().1;
        lemma_factory_from(compacted(r), imports, 0);
        if let Some(f) = crate::go::patterns::context_factory(r, imports) {
            let k = choose|k: int| 0 <= k && #[trigger] names_factory(compacted(r), imports, k, f);
        }
    }
    lemma_walk_items::<FactoryCollector>(imports, t, src, b, start_ctx(), pred);
}

} // verus!
