//! The records that the analyzers produce, and their mathematical views.

use vstd::prelude::*;

verus! {

#[derive(Clone, Copy, PartialEq, Eq, Structural, Debug)]
pub enum SymbolKind {
    Function,
    Method,
    Struct,
    Interface,
    Type,
}

#[derive(Clone, Copy, PartialEq, Eq, Structural, Debug)]
pub enum Severity {
    Info,
    Warning,
    Error,
}

/// A call in a function body: `receiver.name(..)` or `name(..)`.
pub struct CallSite {
    pub receiver: Option<String>,
    pub name: String,
    pub line: usize,
}

pub struct CallSiteView {
    pub receiver: Option<Seq<char>>,
    pub name: Seq<char>,
    pub line: usize,
}

impl DeepView for CallSite {
    type V = CallSiteView;

    open spec fn deep_view(&self) -> CallSiteView {
        CallSiteView {
            receiver: self.receiver.deep_view(),
            name: self.name@,
            line: self.line,
        }
    }
}

/// An import of a Go file: the name it is used under and its path.
pub struct ImportSpec {
    pub alias: String,
    pub path: String,
}

pub struct ImportSpecView {
    pub alias: Seq<char>,
    pub path: Seq<char>,
}

impl DeepView for ImportSpec {
    type V = ImportSpecView;

    open spec fn deep_view(&self) -> ImportSpecView {
        ImportSpecView { alias: self.alias@, path: self.path@ }
    }
}

/// A name that a file declares.
pub struct DeclaredSymbol {
    pub name: String,
    pub kind: SymbolKind,
    pub receiver_type: Option<String>,
    pub line: usize,
}

pub struct DeclaredSymbolView {
    pub name: Seq<char>,
    pub kind: SymbolKind,
    pub receiver_type: Option<Seq<char>>,
    pub line: usize,
}

impl DeepView for DeclaredSymbol {
    type V = DeclaredSymbolView;

    open spec fn deep_view(&self) -> DeclaredSymbolView {
        DeclaredSymbolView {
            name: self.name@,
            kind: self.kind,
            receiver_type: self.receiver_type.deep_view(),
            line: self.line,
        }
    }
}

/// `ctx, cancel := context.WithTimeout(..)` and the like.
pub struct ContextFactoryCall {
    pub line: usize,
    pub cancel_name: String,
    pub factory_name: String,
}

pub struct ContextFactoryCallView {
    pub line: usize,
    pub cancel_name: Seq<char>,
    pub factory_name: Seq<char>,
}

impl DeepView for ContextFactoryCall {
    type V = ContextFactoryCallView;

    open spec fn deep_view(&self) -> ContextFactoryCallView {
        ContextFactoryCallView {
            line: self.line,
            cancel_name: self.cancel_name@,
            factory_name: self.factory_name@,
        }
    }
}

/// A call of a database query method.
pub struct DbQueryCall {
    pub line: usize,
    pub receiver: Option<String>,
    pub method_name: String,
    pub query_text: Option<String>,
    pub in_loop: bool,
}

pub struct DbQueryCallView {
    pub line: usize,
    pub receiver: Option<Seq<char>>,
    pub method_name: Seq<char>,
    pub query_text: Option<Seq<char>>,
    pub in_loop: bool,
}

impl DeepView for DbQueryCall {
    type V = DbQueryCallView;

    open spec fn deep_view(&self) -> DbQueryCallView {
        DbQueryCallView {
            line: self.line,
            receiver: self.receiver.deep_view(),
            method_name: self.method_name@,
            query_text: self.query_text.deep_view(),
            in_loop: self.in_loop,
        }
    }
}

/// A call of `fmt.Errorf`.
pub struct FormattedErrorCall {
    pub line: usize,
    pub format_string: Option<String>,
    pub mentions_err: bool,
    pub uses_percent_w: bool,
}

pub struct FormattedErrorCallView {
    pub line: usize,
    pub format_string: Option<Seq<char>>,
    pub mentions_err: bool,
    pub uses_percent_w: bool,
}

impl DeepView for FormattedErrorCall {
    type V = FormattedErrorCallView;

    open spec fn deep_view(&self) -> FormattedErrorCallView {
        FormattedErrorCallView {
            line: self.line,
            format_string: self.format_string.deep_view(),
            mentions_err: self.mentions_err,
            uses_percent_w: self.uses_percent_w,
        }
    }
}

/// The structural summary of one function.
pub struct FunctionFingerprint {
    pub name: String,
    pub receiver_type: Option<String>,
    pub start_line: usize,
    pub end_line: usize,
    pub type_assertion_count: usize,
    pub call_count: usize,
}

pub struct FunctionFingerprintView {
    pub name: Seq<char>,
    pub receiver_type: Option<Seq<char>>,
    pub start_line: usize,
    pub end_line: usize,
    pub type_assertion_count: usize,
    pub call_count: usize,
}

impl DeepView for FunctionFingerprint {
    type V = FunctionFingerprintView;

    open spec fn deep_view(&self) -> FunctionFingerprintView {
        FunctionFingerprintView {
            name: self.name@,
            receiver_type: self.receiver_type.deep_view(),
            start_line: self.start_line,
            end_line: self.end_line,
            type_assertion_count: self.type_assertion_count,
            call_count: self.call_count,
        }
    }
}

/// Everything the analyzers gather about one function.
pub struct ParsedFunction {
    pub fingerprint: FunctionFingerprint,
    pub calls: Vec<CallSite>,
    pub has_context_parameter: bool,
    pub doc_comment: Option<String>,
    pub dropped_error_lines: Vec<usize>,
    pub panic_on_error_lines: Vec<usize>,
    pub errorf_calls: Vec<FormattedErrorCall>,
    pub context_factory_calls: Vec<ContextFactoryCall>,
    pub goroutine_launch_lines: Vec<usize>,
    pub goroutine_without_shutdown_lines: Vec<usize>,
    pub sleep_in_loop_lines: Vec<usize>,
    pub busy_wait_lines: Vec<usize>,
    pub mutex_lock_in_loop_lines: Vec<usize>,
    pub allocation_in_loop_lines: Vec<usize>,
    pub fmt_in_loop_lines: Vec<usize>,
    pub reflection_in_loop_lines: Vec<usize>,
    pub string_concat_in_loop_lines: Vec<usize>,
    pub json_marshal_in_loop_lines: Vec<usize>,
    pub db_query_calls: Vec<DbQueryCall>,
    pub is_test_function: bool,
    pub unsafe_lines: Vec<usize>,
    pub safety_comment_lines: Vec<usize>,
}

pub struct ParsedFunctionView {
    pub fingerprint: FunctionFingerprintView,
    pub calls: Seq<CallSiteView>,
    pub has_context_parameter: bool,
    pub doc_comment: Option<Seq<char>>,
    pub dropped_error_lines: Seq<usize>,
    pub panic_on_error_lines: Seq<usize>,
    pub errorf_calls: Seq<FormattedErrorCallView>,
    pub context_factory_calls: Seq<ContextFactoryCallView>,
    pub goroutine_launch_lines: Seq<usize>,
    pub goroutine_without_shutdown_lines: Seq<usize>,
    pub sleep_in_loop_lines: Seq<usize>,
    pub busy_wait_lines: Seq<usize>,
    pub mutex_lock_in_loop_lines: Seq<usize>,
    pub allocation_in_loop_lines: Seq<usize>,
    pub fmt_in_loop_lines: Seq<usize>,
    pub reflection_in_loop_lines: Seq<usize>,
    pub string_concat_in_loop_lines: Seq<usize>,
    pub json_marshal_in_loop_lines: Seq<usize>,
    pub db_query_calls: Seq<DbQueryCallView>,
    pub is_test_function: bool,
    pub unsafe_lines: Seq<usize>,
    pub safety_comment_lines: Seq<usize>,
}

impl DeepView for ParsedFunction {
    type V = ParsedFunctionView;

    open spec fn deep_view(&self) -> ParsedFunctionView {
        ParsedFunctionView {
            fingerprint: self.fingerprint.deep_view(),
            calls: self.calls.deep_view(),
            has_context_parameter: self.has_context_parameter,
            doc_comment: self.doc_comment.deep_view(),
            dropped_error_lines: self.dropped_error_lines@,
            panic_on_error_lines: self.panic_on_error_lines@,
            errorf_calls: self.errorf_calls.deep_view(),
            context_factory_calls: self.context_factory_calls.deep_view(),
            goroutine_launch_lines: self.goroutine_launch_lines@,
            goroutine_without_shutdown_lines: self.goroutine_without_shutdown_lines@,
            sleep_in_loop_lines: self.sleep_in_loop_lines@,
            busy_wait_lines: self.busy_wait_lines@,
            mutex_lock_in_loop_lines: self.mutex_lock_in_loop_lines@,
            allocation_in_loop_lines: self.allocation_in_loop_lines@,
            fmt_in_loop_lines: self.fmt_in_loop_lines@,
            reflection_in_loop_lines: self.reflection_in_loop_lines@,
            string_concat_in_loop_lines: self.string_concat_in_loop_lines@,
            json_marshal_in_loop_lines: self.json_marshal_in_loop_lines@,
            db_query_calls: self.db_query_calls.deep_view(),
            is_test_function: self.is_test_function,
            unsafe_lines: self.unsafe_lines@,
            safety_comment_lines: self.safety_comment_lines@,
        }
    }
}

/// Everything the analyzers gather about one file.
pub struct ParsedFile {
    pub path: String,
    pub package_name: Option<String>,
    pub syntax_error: bool,
    pub byte_size: usize,
    pub functions: Vec<ParsedFunction>,
    pub imports: Vec<ImportSpec>,
    pub symbols: Vec<DeclaredSymbol>,
}

pub struct ParsedFileView {
    pub path: Seq<char>,
    pub package_name: Option<Seq<char>>,
    pub syntax_error: bool,
    pub byte_size: usize,
    pub functions: Seq<ParsedFunctionView>,
    pub imports: Seq<ImportSpecView>,
    pub symbols: Seq<DeclaredSymbolView>,
}

impl DeepView for ParsedFile {
    type V = ParsedFileView;

    open spec fn deep_view(&self) -> ParsedFileView {
        ParsedFileView {
            path: self.path@,
            package_name: self.package_name.deep_view(),
            syntax_error: self.syntax_error,
            byte_size: self.byte_size,
            functions: self.functions.deep_view(),
            imports: self.imports.deep_view(),
            symbols: self.symbols.deep_view(),
        }
    }
}

/// The per-file part of a scan report.
pub struct FileReport {
    pub path: String,
    pub package_name: Option<String>,
    pub syntax_error: bool,
    pub byte_size: usize,
    pub functions: Vec<FunctionFingerprint>,
}

pub struct FileReportView {
    pub path: Seq<char>,
    pub package_name: Option<Seq<char>>,
    pub syntax_error: bool,
    pub byte_size: usize,
    pub functions: Seq<FunctionFingerprintView>,
}

impl DeepView for FileReport {
    type V = FileReportView;

    open spec fn deep_view(&self) -> FileReportView {
        FileReportView {
            path: self.path@,
            package_name: self.package_name.deep_view(),
            syntax_error: self.syntax_error,
            byte_size: self.byte_size,
            functions: self.functions.deep_view(),
        }
    }
}

/// A rule hit.
pub struct Finding {
    pub rule_id: String,
    pub severity: Severity,
    pub path: String,
    pub function_name: Option<String>,
    pub start_line: usize,
    pub end_line: usize,
    pub message: String,
    pub evidence: Vec<String>,
}

pub struct FindingView {
    pub rule_id: Seq<char>,
    pub severity: Severity,
    pub path: Seq<char>,
    pub function_name: Option<Seq<char>>,
    pub start_line: usize,
    pub end_line: usize,
    pub message: Seq<char>,
    pub evidence: Seq<Seq<char>>,
}

impl DeepView for Finding {
    type V = FindingView;

    open spec fn deep_view(&self) -> FindingView {
        FindingView {
            rule_id: self.rule_id@,
            severity: self.severity,
            path: self.path@,
            function_name: self.function_name.deep_view(),
            start_line: self.start_line,
            end_line: self.end_line,
            message: self.message@,
            evidence: self.evidence.deep_view(),
        }
    }
}

pub fn clone_string(s: &String) -> (r: String)
    ensures
        r@ == s@,
{
    s.clone()
}

pub fn clone_opt_string(s: &Option<String>) -> (r: Option<String>)
    ensures
        r.deep_view() == s.deep_view(),
{
    match s {
        Some(x) => Some(x.clone()),
        None => None,
    }
}

impl FunctionFingerprint {
    pub fn duplicate(&self) -> (r: FunctionFingerprint)
        ensures
            r.deep_view() == self.deep_view(),
    {
        FunctionFingerprint {
            name: clone_string(&self.name),
            receiver_type: clone_opt_string(&self.receiver_type),
            start_line: self.start_line,
            end_line: self.end_line,
            type_assertion_count: self.type_assertion_count,
            call_count: self.call_count,
        }
    }
}

impl ParsedFile {
    /// The report of this file: its path, package, syntax-error flag, size
    /// and the fingerprints of its functions in order.
    pub fn to_report(&self) -> (r: FileReport)
        ensures
            r.path@ == self.path@,
            r.package_name.deep_view() == self.package_name.deep_view(),
            r.syntax_error == self.syntax_error,
            r.byte_size == self.byte_size,
            r.functions.deep_view() == self.functions.deep_view().map_values(
                |f: ParsedFunctionView| f.fingerprint,
            ),
    {
        let mut functions: Vec<FunctionFingerprint> = Vec::new();
        let mut i: usize = 0;
        while i < self.functions.len()
            invariant
                i <= self.functions@.len(),
                functions.deep_view() == self.functions.deep_view().take(i as int).map_values(
                    |f: ParsedFunctionView| f.fingerprint,
                ),
            decreases self.functions@.len() - i,
        {
            let ghost before = functions.deep_view();
            let fp = self.functions[i].fingerprint.duplicate();
            assert(fp.deep_view() == self.functions.deep_view()[i as int].fingerprint);
            functions.push(fp);
            assert(functions.deep_view() =~= before.push(fp.deep_view()));
            assert(functions.deep_view() =~= self.functions.deep_view().take(i + 1).map_values(
                |f: ParsedFunctionView| f.fingerprint,
            ));
            i = i + 1;
        }
        assert(self.functions.deep_view().take(i as int) =~= self.functions.deep_view());
        FileReport {
            path: clone_string(&self.path),
            package_name: clone_opt_string(&self.package_name),
            syntax_error: self.syntax_error,
            byte_size: self.byte_size,
            functions,
        }
    }
}

} // verus!
