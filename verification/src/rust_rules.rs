//! Rules for Rust functions: leftover debugging macros, `unwrap` and
//! `expect` outside tests, and `unsafe` without a nearby `SAFETY` comment.

use vstd::prelude::*;
use crate::model::{
    CallSite, CallSiteView, Finding, FindingView, ParsedFile, ParsedFileView, ParsedFunction,
    ParsedFunctionView, Severity, clone_string,
};
use crate::syntax::str_eq;
use crate::text::{
    chars_are, chars_to_string, lemma_rfind_char, rfind_char, rfind_char_exec, str_chars,
};

verus! {

/// The decimal digit `d`.
pub open spec fn digit_char(d: int) -> char {
    if d == 0 {
        '0'
    } else if d == 1 {
        '1'
    } else if d == 2 {
        '2'
    } else if d == 3 {
        '3'
    } else if d == 4 {
        '4'
    } else if d == 5 {
        '5'
    } else if d == 6 {
        '6'
    } else if d == 7 {
        '7'
    } else if d == 8 {
        '8'
    } else {
        '9'
    }
}

/// The decimal numeral of `n`, as `Display` writes it.
pub open spec fn decimal(n: nat) -> Seq<char>
    decreases n,
{
    if n < 10 {
        seq![digit_char(n as int)]
    } else {
        decimal(n / 10).push(digit_char((n % 10) as int))
    }
}

fn digit_exec(d: usize) -> (r: char)
    requires
        d < 10,
    ensures
        r == digit_char(d as int),
{
    if d == 0 {
        '0'
    } else if d == 1 {
        '1'
    } else if d == 2 {
        '2'
    } else if d == 3 {
        '3'
    } else if d == 4 {
        '4'
    } else if d == 5 {
        '5'
    } else if d == 6 {
        '6'
    } else if d == 7 {
        '7'
    } else if d == 8 {
        '8'
    } else {
        '9'
    }
}

pub fn decimal_chars(n: usize) -> (r: Vec<char>)
    ensures
        r@ == decimal(n as nat),
    decreases n,
{
    if n < 10 {
        let mut v: Vec<char> = Vec::new();
        v.push(digit_exec(n));
        assert(v@ =~= seq![digit_char(n as int)]);
        v
    } else {
        let mut v = decimal_chars(n / 10);
        v.push(digit_exec(n % 10));
        v
    }
}

/// Whether a `SAFETY` comment stands on the line of the `unsafe` or on one
/// of the two lines above it.
pub open spec fn nearby_safety_comment(unsafe_line: usize, comment_lines: Seq<usize>) -> bool {
    let min_line = if unsafe_line >= 2 {
        unsafe_line - 2
    } else {
        0
    };
    exists|k: int|
        0 <= k < comment_lines.len() && min_line <= #[trigger] comment_lines[k] <= unsafe_line
}

pub fn has_nearby_safety_comment(unsafe_line: usize, safety_comment_lines: &[usize]) -> (r: bool)
    ensures
        r == nearby_safety_comment(unsafe_line, safety_comment_lines@),
{
    let min_line = unsafe_line.saturating_sub(2);
    let mut k: usize = 0;
    while k < safety_comment_lines.len()
        invariant
            k <= safety_comment_lines@.len(),
            min_line == (if unsafe_line >= 2 {
                unsafe_line - 2
            } else {
                0
            }),
            forall|j: int|
                0 <= j < k ==> !(min_line <= #[trigger] safety_comment_lines@[j] <= unsafe_line),
        decreases safety_comment_lines@.len() - k,
    {
        let line = safety_comment_lines[k];
        if line >= min_line && line <= unsafe_line {
            return true;
        }
        k = k + 1;
    }
    false
}

/// `function <name> <suffix>`.
pub open spec fn finding_message(name: Seq<char>, suffix: Seq<char>) -> Seq<char> {
    "function "@ + name + " "@ + suffix
}

/// A warning of rule `rule_id` for function `f` of the file at `path`, at
/// line `line`.
pub open spec fn warning(
    rule_id: Seq<char>,
    path: Seq<char>,
    f: ParsedFunctionView,
    line: usize,
    message: Seq<char>,
    evidence: Seq<char>,
) -> FindingView {
    FindingView {
        rule_id,
        severity: Severity::Warning,
        path,
        function_name: Some(f.fingerprint.name),
        start_line: line,
        end_line: line,
        message,
        evidence: seq![evidence],
    }
}

/// The findings for the calls of `f`, from the `k`-th on, named
/// `macro_name`.
pub open spec fn macro_findings_from(
    path: Seq<char>,
    f: ParsedFunctionView,
    macro_name: Seq<char>,
    rule_id: Seq<char>,
    suffix: Seq<char>,
    k: int,
) -> Seq<FindingView>
    decreases f.calls.len() - k,
{
    if k < 0 || k >= f.calls.len() {
        Seq::empty()
    } else {
        (if f.calls[k].name == macro_name {
            seq![
                warning(
                    rule_id,
                    path,
                    f,
                    f.calls[k].line,
                    finding_message(f.fingerprint.name, suffix),
                    "macro invocation: "@ + macro_name,
                ),
            ]
        } else {
            Seq::empty()
        }) + macro_findings_from(path, f, macro_name, rule_id, suffix, k + 1)
    }
}

/// The findings for the uses of macro `macro_name` in a function that is not
/// a test.
pub open spec fn macro_findings(
    path: Seq<char>,
    f: ParsedFunctionView,
    macro_name: Seq<char>,
    rule_id: Seq<char>,
    suffix: Seq<char>,
) -> Seq<FindingView> {
    if f.is_test_function {
        Seq::empty()
    } else {
        macro_findings_from(path, f, macro_name, rule_id, suffix, 0)
    }
}

/// How a call of `call_name` is shown: `receiver.call_name()` or
/// `call_name()`.
pub open spec fn call_evidence(c: CallSiteView, call_name: Seq<char>) -> Seq<char> {
    match c.receiver {
        Some(r) => "method call: "@ + r + "."@ + call_name + "()"@,
        None => "call: "@ + call_name + "()"@,
    }
}

pub open spec fn call_findings_from(
    path: Seq<char>,
    f: ParsedFunctionView,
    call_name: Seq<char>,
    rule_id: Seq<char>,
    suffix: Seq<char>,
    k: int,
) -> Seq<FindingView>
    decreases f.calls.len() - k,
{
    if k < 0 || k >= f.calls.len() {
        Seq::empty()
    } else {
        (if f.calls[k].name == call_name {
            seq![
                warning(
                    rule_id,
                    path,
                    f,
                    f.calls[k].line,
                    finding_message(f.fingerprint.name, suffix),
                    call_evidence(f.calls[k], call_name),
                ),
            ]
        } else {
            Seq::empty()
        }) + call_findings_from(path, f, call_name, rule_id, suffix, k + 1)
    }
}

/// The findings for the calls of `call_name` in a function that is not a
/// test.
pub open spec fn call_findings(
    path: Seq<char>,
    f: ParsedFunctionView,
    call_name: Seq<char>,
    rule_id: Seq<char>,
    suffix: Seq<char>,
) -> Seq<FindingView> {
    if f.is_test_function {
        Seq::empty()
    } else {
        call_findings_from(path, f, call_name, rule_id, suffix, 0)
    }
}

pub open spec fn unsafe_findings_from(path: Seq<char>, f: ParsedFunctionView, k: int) -> Seq<
    FindingView,
>
    decreases f.unsafe_lines.len() - k,
{
    if k < 0 || k >= f.unsafe_lines.len() {
        Seq::empty()
    } else {
        (if !nearby_safety_comment(f.unsafe_lines[k], f.safety_comment_lines) {
            seq![
                warning(
                    "unsafe_without_safety_comment"@,
                    path,
                    f,
                    f.unsafe_lines[k],
                    "function "@ + f.fingerprint.name
                        + " uses unsafe without a nearby SAFETY comment"@,
                    "unsafe usage line: "@ + decimal(f.unsafe_lines[k] as nat),
                ),
            ]
        } else {
            Seq::empty()
        }) + unsafe_findings_from(path, f, k + 1)
    }
}

/// The findings for the `unsafe` uses of `f` with no `SAFETY` comment on
/// their line or the two lines above.
pub open spec fn unsafe_findings(path: Seq<char>, f: ParsedFunctionView) -> Seq<FindingView> {
    unsafe_findings_from(path, f, 0)
}

fn cat(parts: &[&str]) -> (r: String)
    ensures
        r@ == concat_views(parts@.map_values(|s: &str| s@)),
{
    let mut out = String::new();
    let mut k: usize = 0;
    while k < parts.len()
        invariant
            k <= parts@.len(),
            out@ == concat_views(parts@.map_values(|s: &str| s@).take(k as int)),
        decreases parts@.len() - k,
    {
        let ghost before = out@;
        out.append(parts[k]);
        assert(parts@.map_values(|s: &str| s@).take(k + 1).drop_last() =~= parts@.map_values(
            |s: &str| s@,
        ).take(k as int));
        k = k + 1;
    }
    assert(parts@.map_values(|s: &str| s@).take(k as int) =~= parts@.map_values(|s: &str| s@));
    out
}

/// The parts one after the other.
pub open spec fn concat_views(parts: Seq<Seq<char>>) -> Seq<char>
    decreases parts.len(),
{
    if parts.len() == 0 {
        Seq::empty()
    } else {
        concat_views(parts.drop_last()) + parts.last()
    }
}

fn make_warning(
    rule_id: &str,
    file: &ParsedFile,
    function: &ParsedFunction,
    line: usize,
    message: String,
    evidence: String,
) -> (r: Finding)
    ensures
        r.deep_view() == warning(
            rule_id@,
            file.path@,
            function.deep_view(),
            line,
            message@,
            evidence@,
        ),
{
    let mut ev: Vec<String> = Vec::new();
    ev.push(evidence);
    let r = Finding {
        rule_id: String::from_str(rule_id),
        severity: Severity::Warning,
        path: clone_string(&file.path),
        function_name: Some(clone_string(&function.fingerprint.name)),
        start_line: line,
        end_line: line,
        message,
        evidence: ev,
    };
    assert(r.evidence.deep_view() =~= seq![evidence@]);
    r
}

/// Warnings for each use of macro `macro_name` in a function that is not a
/// test.
pub fn non_test_macro_findings(
    file: &ParsedFile,
    function: &ParsedFunction,
    macro_name: &str,
    rule_id: &str,
    message_suffix: &str,
) -> (r: Vec<Finding>)
    ensures
        r.deep_view() == macro_findings(
            file.path@,
            function.deep_view(),
            macro_name@,
            rule_id@,
            message_suffix@,
        ),
{
    let mut out: Vec<Finding> = Vec::new();
    let ghost fv = function.deep_view();
    if function.is_test_function {
        assert(out.deep_view() =~= Seq::<FindingView>::empty());
        return out;
    }
    let mut k: usize = 0;
    while k < function.calls.len()
        invariant
            fv == function.deep_view(),
            !fv.is_test_function,
            k <= fv.calls.len(),
            fv.calls.len() == function.calls@.len(),
            out.deep_view() + macro_findings_from(
                file.path@,
                fv,
                macro_name@,
                rule_id@,
                message_suffix@,
                k as int,
            ) == macro_findings(file.path@, fv, macro_name@, rule_id@, message_suffix@),
        decreases function.calls@.len() - k,
    {
        let call = &function.calls[k];
        assert(fv.calls[k as int] == call.deep_view());
        let ghost before = out.deep_view();
        let ghost rest = macro_findings_from(
            file.path@,
            fv,
            macro_name@,
            rule_id@,
            message_suffix@,
            k + 1,
        );
        if str_eq(call.name.as_str(), macro_name) {
            let message = cat(
                &["function ", function.fingerprint.name.as_str(), " ", message_suffix],
            );
            let evidence = cat(&["macro invocation: ", macro_name]);
            proof {
                reveal_with_fuel(concat_views, 5);
            }
            assert(message@ == finding_message(fv.fingerprint.name, message_suffix@));
            let fnd = make_warning(rule_id, file, function, call.line, message, evidence);
            out.push(fnd);
            assert(out.deep_view() =~= before.push(fnd.deep_view()));
            assert(before + (seq![fnd.deep_view()] + rest) =~= out.deep_view() + rest);
        } else {
            assert(Seq::<FindingView>::empty() + rest =~= rest);
        }
        k = k + 1;
    }
    assert(out.deep_view() + Seq::<FindingView>::empty() =~= out.deep_view());
    out
}


/// Warnings for each call of `call_name` in a function that is not a test.
pub fn non_test_call_findings(
    file: &ParsedFile,
    function: &ParsedFunction,
    call_name: &str,
    rule_id: &str,
    message_suffix: &str,
) -> (r: Vec<Finding>)
    ensures
        r.deep_view() == call_findings(
            file.path@,
            function.deep_view(),
            call_name@,
            rule_id@,
            message_suffix@,
        ),
{
    let mut out: Vec<Finding> = Vec::new();
    let ghost fv = function.deep_view();
    if function.is_test_function {
        assert(out.deep_view() =~= Seq::<FindingView>::empty());
        return out;
    }
    let mut k: usize = 0;
    while k < function.calls.len()
        invariant
            fv == function.deep_view(),
            !fv.is_test_function,
            k <= fv.calls.len(),
            fv.calls.len() == function.calls@.len(),
            out.deep_view() + call_findings_from(
                file.path@,
                fv,
                call_name@,
                rule_id@,
                message_suffix@,
                k as int,
            ) == call_findings(file.path@, fv, call_name@, rule_id@, message_suffix@),
        decreases function.calls@.len() - k,
    {
        let call = &function.calls[k];
        assert(fv.calls[k as int] == call.deep_view());
        let ghost before = out.deep_view();
        let ghost rest = call_findings_from(
            file.path@,
            fv,
            call_name@,
            rule_id@,
            message_suffix@,
            k + 1,
        );
        if str_eq(call.name.as_str(), call_name) {
            let message = cat(
                &["function ", function.fingerprint.name.as_str(), " ", message_suffix],
            );
            let evidence = match &call.receiver {
                Some(receiver) => cat(&["method call: ", receiver.as_str(), ".", call_name, "()"]),
                None => cat(&["call: ", call_name, "()"]),
            };
            proof {
                reveal_with_fuel(concat_views, 6);
            }
            assert(message@ == finding_message(fv.fingerprint.name, message_suffix@));
            assert(evidence@ == call_evidence(fv.calls[k as int], call_name@));
            let fnd = make_warning(rule_id, file, function, call.line, message, evidence);
            out.push(fnd);
            assert(out.deep_view() =~= before.push(fnd.deep_view()));
            assert(before + (seq![fnd.deep_view()] + rest) =~= out.deep_view() + rest);
        } else {
            assert(Seq::<FindingView>::empty() + rest =~= rest);
        }
        k = k + 1;
    }
    assert(out.deep_view() + Seq::<FindingView>::empty() =~= out.deep_view());
    out
}

/// Warnings for each `unsafe` use with no `SAFETY` comment on its line or
/// the two lines above.
pub fn unsafe_without_safety_comment_findings(file: &ParsedFile, function: &ParsedFunction) -> (r:
    Vec<Finding>)
    ensures
        r.deep_view() == unsafe_findings(file.path@, function.deep_view()),
{
    let mut out: Vec<Finding> = Vec::new();
    let ghost fv = function.deep_view();
    let mut k: usize = 0;
    while k < function.unsafe_lines.len()
        invariant
            fv == function.deep_view(),
            k <= fv.unsafe_lines.len(),
            fv.unsafe_lines == function.unsafe_lines@,
            fv.safety_comment_lines == function.safety_comment_lines@,
            out.deep_view() + unsafe_findings_from(file.path@, fv, k as int) == unsafe_findings(
                file.path@,
                fv,
            ),
        decreases function.unsafe_lines@.len() - k,
    {
        let line = function.unsafe_lines[k];
        let ghost before = out.deep_view();
        let ghost rest = unsafe_findings_from(file.path@, fv, k + 1);
        if !has_nearby_safety_comment(line, function.safety_comment_lines.as_slice()) {
            let message = cat(
                &[
                    "function ",
                    function.fingerprint.name.as_str(),
                    " uses unsafe without a nearby SAFETY comment",
                ],
            );
            let digits = decimal_chars(line);
            let number = chars_to_string(digits.as_slice());
            let evidence = cat(&["unsafe usage line: ", number.as_str()]);
            proof {
                reveal_with_fuel(concat_views, 4);
            }
            let fnd = make_warning(
                "unsafe_without_safety_comment",
                file,
                function,
                line,
                message,
                evidence,
            );
            out.push(fnd);
            assert(out.deep_view() =~= before.push(fnd.deep_view()));
            assert(before + (seq![fnd.deep_view()] + rest) =~= out.deep_view() + rest);
        } else {
            assert(Seq::<FindingView>::empty() + rest =~= rest);
        }
        k = k + 1;
    }
    assert(out.deep_view() + Seq::<FindingView>::empty() =~= out.deep_view());
    out
}

/// The findings of the Rust rules for one function, in rule order.
pub open spec fn function_findings(path: Seq<char>, f: ParsedFunctionView) -> Seq<FindingView> {
    macro_findings(
        path,
        f,
        "todo!"@,
        "todo_macro_leftover"@,
        "leaves todo! in non-test Rust code"@,
    ) + macro_findings(
        path,
        f,
        "unimplemented!"@,
        "unimplemented_macro_leftover"@,
        "leaves unimplemented! in non-test Rust code"@,
    ) + macro_findings(
        path,
        f,
        "dbg!"@,
        "dbg_macro_leftover"@,
        "leaves dbg! in non-test Rust code"@,
    ) + macro_findings(
        path,
        f,
        "panic!"@,
        "panic_macro_leftover"@,
        "leaves panic! in non-test Rust code"@,
    ) + macro_findings(
        path,
        f,
        "unreachable!"@,
        "unreachable_macro_leftover"@,
        "leaves unreachable! in non-test Rust code"@,
    ) + call_findings(
        path,
        f,
        "unwrap"@,
        "unwrap_in_non_test_code"@,
        "calls unwrap() in non-test Rust code"@,
    ) + call_findings(
        path,
        f,
        "expect"@,
        "expect_in_non_test_code"@,
        "calls expect() in non-test Rust code"@,
    ) + unsafe_findings(path, f)
}

/// The findings for the functions of a file from the `k`-th on.
pub open spec fn file_findings_from(file: ParsedFileView, k: int) -> Seq<FindingView>
    decreases file.functions.len() - k,
{
    if k < 0 || k >= file.functions.len() {
        Seq::empty()
    } else {
        function_findings(file.path, file.functions[k]) + file_findings_from(file, k + 1)
    }
}

pub open spec fn file_findings(file: ParsedFileView) -> Seq<FindingView> {
    file_findings_from(file, 0)
}

fn append_all(out: &mut Vec<Finding>, more: Vec<Finding>)
    ensures
        final(out).deep_view() == old(out).deep_view() + more.deep_view(),
{
    let mut more = more;
    let ghost mv = more.deep_view();
    out.append(&mut more);
    assert(out.deep_view() =~= old(out).deep_view() + mv);
}

/// The findings of the Rust rules for every function of a file, function by
/// function.
pub fn evaluate_rust_file_findings(file: &ParsedFile) -> (r: Vec<Finding>)
    ensures
        r.deep_view() == file_findings(file.deep_view()),
{
    let mut findings: Vec<Finding> = Vec::new();
    let ghost fv = file.deep_view();
    let mut k: usize = 0;
    while k < file.functions.len()
        invariant
            fv == file.deep_view(),
            k <= fv.functions.len(),
            fv.functions.len() == file.functions@.len(),
            findings.deep_view() + file_findings_from(fv, k as int) == file_findings(fv),
        decreases file.functions@.len() - k,
    {
        let function = &file.functions[k];
        assert(fv.functions[k as int] == function.deep_view());
        let ghost before = findings.deep_view();
        append_all(
            &mut findings,
            non_test_macro_findings(
                file,
                function,
                "todo!",
                "todo_macro_leftover",
                "leaves todo! in non-test Rust code",
            ),
        );
        append_all(
            &mut findings,
            non_test_macro_findings(
                file,
                function,
                "unimplemented!",
                "unimplemented_macro_leftover",
                "leaves unimplemented! in non-test Rust code",
            ),
        );
        append_all(
            &mut findings,
            non_test_macro_findings(
                file,
                function,
                "dbg!",
                "dbg_macro_leftover",
                "leaves dbg! in non-test Rust code",
            ),
        );
        append_all(
            &mut findings,
            non_test_macro_findings(
                file,
                function,
                "panic!",
                "panic_macro_leftover",
                "leaves panic! in non-test Rust code",
            ),
        );
        append_all(
            &mut findings,
            non_test_macro_findings(
                file,
                function,
                "unreachable!",
                "unreachable_macro_leftover",
                "leaves unreachable! in non-test Rust code",
            ),
        );
        append_all(
            &mut findings,
            non_test_call_findings(
                file,
                function,
                "unwrap",
                "unwrap_in_non_test_code",
                "calls unwrap() in non-test Rust code",
            ),
        );
        append_all(
            &mut findings,
            non_test_call_findings(
                file,
                function,
                "expect",
                "expect_in_non_test_code",
                "calls expect() in non-test Rust code",
            ),
        );
        append_all(&mut findings, unsafe_without_safety_comment_findings(file, function));
        let ghost rest = file_findings_from(fv, k + 1);
        assert(before + (function_findings(fv.path, fv.functions[k as int]) + rest)
            =~= findings.deep_view() + rest);
        k = k + 1;
    }
    assert(findings.deep_view() + Seq::<FindingView>::empty() =~= findings.deep_view());
    findings
}


/// The languages that the analyzers know.
#[derive(Clone, Copy, PartialEq, Eq, Structural, Debug)]
pub enum SourceLanguage {
    Go,
    Rust,
}

/// The last component of a path, walking back from `e`: the last
/// `/`-separated segment that is neither empty nor `.`.
pub open spec fn last_segment(p: Seq<char>, e: int) -> Option<Seq<char>>
    decreases e,
{
    if e <= 0 || e > p.len() {
        None
    } else {
        match rfind_char(p, '/', e) {
            Some(k) => {
                let seg = p.subrange(k + 1, e);
                if seg.len() == 0 || seg == "."@ {
                    proof {
                        lemma_rfind_char(p, '/', e);
                    }
                    last_segment(p, k)
                } else {
                    Some(seg)
                }
            },
            None => {
                let seg = p.subrange(0, e);
                if seg.len() == 0 || seg == "."@ {
                    None
                } else {
                    Some(seg)
                }
            },
        }
    }
}

/// `Path::file_name` on a `/`-separated path: the last component, unless it
/// is `..`.
pub open spec fn file_name(p: Seq<char>) -> Option<Seq<char>> {
    match last_segment(p, p.len() as int) {
        Some(s) => if s == ".."@ {
            None
        } else {
            Some(s)
        },
        None => None,
    }
}

/// `Path::extension`: what follows the last `.` of the file name, unless
/// that `.` starts the name.
pub open spec fn extension(p: Seq<char>) -> Option<Seq<char>> {
    match file_name(p) {
        Some(name) => match rfind_char(name, '.', name.len() as int) {
            Some(k) => if k == 0 {
                None
            } else {
                Some(name.subrange(k + 1, name.len() as int))
            },
            None => None,
        },
        None => None,
    }
}

fn last_segment_exec(p: &[char]) -> (r: Option<Vec<char>>)
    ensures
        r.deep_view() == last_segment(p@, p@.len() as int),
{
    let n = p.len();
    let mut e: usize = n;
    while e > 0
        invariant
            e <= n,
            n == p@.len(),
            last_segment(p@, n as int) == last_segment(p@, e as int),
        decreases e,
    {
        let head = vstd::slice::slice_subrange(p, 0, e);
        let k = rfind_char_exec(head, '/');
        proof {
            assert(head@ == p@.subrange(0, e as int));
            lemma_rfind_prefix(p@, '/', e as int);
        }
        match k {
            Some(k) => {
                proof {
                    lemma_rfind_char(p@, '/', e as int);
                }
                let seg = vstd::slice::slice_to_vec(vstd::slice::slice_subrange(p, k + 1, e));
                if seg.len() == 0 || chars_are(seg.as_slice(), ".") {
                    e = k;
                } else {
                    proof {
                        crate::text::lemma_chars_deep_view(seg);
                    }
                    assert(Some(seg).deep_view() == Some(seg@));
                    return Some(seg);
                }
            },
            None => {
                let seg = vstd::slice::slice_to_vec(head);
                if seg.len() == 0 || chars_are(seg.as_slice(), ".") {
                    return None;
                }
                proof {
                    crate::text::lemma_chars_deep_view(seg);
                }
                assert(Some(seg).deep_view() == Some(seg@));
                return Some(seg);
            },
        }
    }
    None
}

proof fn lemma_rfind_prefix(s: Seq<char>, c: char, e: int)
    requires
        0 <= e <= s.len(),
    ensures
        rfind_char(s.subrange(0, e), c, e) == rfind_char(s, c, e),
    decreases e,
{
    if e > 0 {
        assert(s.subrange(0, e)[e - 1] == s[e - 1]);
        if s[e - 1] != c {
            lemma_rfind_prefix(s, c, e - 1);
            lemma_rfind_shrink(s.subrange(0, e), c, e - 1);
            assert(s.subrange(0, e).subrange(0, e - 1) =~= s.subrange(0, e - 1));
        }
    }
}

proof fn lemma_rfind_shrink(s: Seq<char>, c: char, e: int)
    requires
        0 <= e < s.len(),
    ensures
        rfind_char(s.subrange(0, e), c, e) == rfind_char(s, c, e),
    decreases e,
{
    if e > 0 {
        assert(s.subrange(0, e)[e - 1] == s[e - 1]);
        if s[e - 1] != c {
            lemma_rfind_shrink(s, c, e - 1);
            lemma_rfind_shrink(s.subrange(0, e), c, e - 1);
            assert(s.subrange(0, e).subrange(0, e - 1) =~= s.subrange(0, e - 1));
        }
    }
}

/// The extension of a path, as `Path::extension` finds it.
pub fn path_extension(path: &str) -> (r: Option<String>)
    ensures
        r.deep_view() == extension(path@),
{
    let p = str_chars(path);
    let name = match last_segment_exec(p.as_slice()) {
        Some(s) => s,
        None => {
            return None;
        },
    };
    proof {
        crate::text::lemma_chars_deep_view(name);
    }
    if chars_are(name.as_slice(), "..") {
        return None;
    }
    match rfind_char_exec(name.as_slice(), '.') {
        Some(k) => {
            if k == 0 {
                return None;
            }
            let n = name.len();
            let ext = vstd::slice::slice_to_vec(vstd::slice::slice_subrange(name.as_slice(), k + 1, n));
            Some(chars_to_string(ext.as_slice()))
        },
        None => None,
    }
}

/// The Rust language backend.
pub struct RustAnalyzer;

impl RustAnalyzer {
    pub fn language(&self) -> (r: SourceLanguage)
        ensures
            r == SourceLanguage::Rust,
    {
        SourceLanguage::Rust
    }

    /// The file extensions that the backend reads: `rs`.
    pub fn supported_extensions(&self) -> (r: Vec<String>)
        ensures
            r.deep_view() == seq!["rs"@],
    {
        let mut v: Vec<String> = Vec::new();
        v.push(String::from_str("rs"));
        assert(v.deep_view() =~= seq!["rs"@]);
        v
    }

    /// Whether a path has the extension `rs`.
    pub fn supports_path(&self, path: &str) -> (r: bool)
        ensures
            r == (extension(path@) == Some("rs"@)),
    {
        match path_extension(path) {
            Some(ext) => str_eq(ext.as_str(), "rs"),
            None => false,
        }
    }

    /// The findings of the Rust rules for a parsed Rust file.
    pub fn evaluate_file_findings(&self, file: &ParsedFile) -> (r: Vec<Finding>)
        ensures
            r.deep_view() == file_findings(file.deep_view()),
    {
        evaluate_rust_file_findings(file)
    }
}

} // verus!
