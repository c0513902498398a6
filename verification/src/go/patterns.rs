//! The textual patterns that the Go analysis looks for.

use vstd::prelude::*;
use crate::model::{ImportSpec, ImportSpecView};
use crate::syntax::str_eq;
use crate::text::{
    after_last, after_last_exec, chars_are, chars_eq, chars_to_string, compact, compacted,
    concat_lit, contains, contains_lit, ends_with, ends_with_lit, has_char, has_sub, is_identifier,
    is_identifier_exec, lemma_chars_deep_view, rsplit_once_char, rsplit_once_char_exec, split_once, split_once_exec,
    split_words, starts_with, starts_with_exec, str_chars, trim, trimmed, words,
};

verus! {

/// `rsplit('/').next()`: the last segment of an import path.
pub open spec fn alias_of_path(path: Seq<char>) -> Seq<char> {
    after_last(path, '/')
}

/// The name a package is used under when it is imported without an alias:
/// the last segment of its path.
pub fn package_alias_from_import_path(path: &str) -> (r: String)
    ensures
        r@ == alias_of_path(path@),
{
    let p = str_chars(path);
    let a = after_last_exec(p.as_slice(), '/');
    chars_to_string(a.as_slice())
}

/// `text.contains('"') || text.contains('`')`.
pub open spec fn has_string_literal(s: Seq<char>) -> bool {
    s.contains('"') || s.contains('`')
}

pub fn contains_string_literal_chars(s: &[char]) -> (r: bool)
    ensures
        r == has_string_literal(s@),
{
    has_char(s, '"') || has_char(s, '`')
}

/// Whether the text holds a double quote or a backquote.
pub fn contains_string_literal(text: &str) -> (r: bool)
    ensures
        r == has_string_literal(text@),
{
    let s = str_chars(text);
    contains_string_literal_chars(s.as_slice())
}

/// Whether the text is an identifier: `_` or an ASCII letter, then `_`,
/// ASCII letters and digits.
pub fn is_identifier_name(text: &str) -> (r: bool)
    ensures
        r == is_identifier(text@),
{
    let s = str_chars(text);
    is_identifier_exec(s.as_slice())
}

/// The two sides of an assignment: split at the first `:=`, else at the first
/// `=`.
pub open spec fn assignment_sides(s: Seq<char>) -> Option<(Seq<char>, Seq<char>)> {
    match split_once(s, ":="@) {
        Some(x) => Some(x),
        None => split_once(s, "="@),
    }
}

pub fn split_assignment_chars(s: &[char]) -> (r: Option<(Vec<char>, Vec<char>)>)
    ensures
        match r {
            Some((a, b)) => assignment_sides(s@) == Some((a@, b@)),
            None => assignment_sides(s@) is None,
        },
{
    let walrus = str_chars(":=");
    match split_once_exec(s, walrus.as_slice()) {
        Some(x) => Some(x),
        None => {
            let eq = str_chars("=");
            split_once_exec(s, eq.as_slice())
        },
    }
}

/// Splits an assignment at its first `:=`, or else at its first `=`.
pub fn split_assignment(text: &str) -> (r: Option<(String, String)>)
    ensures
        match r {
            Some((a, b)) => assignment_sides(text@) == Some((a@, b@)),
            None => assignment_sides(text@) is None,
        },
{
    let s = str_chars(text);
    match split_assignment_chars(s.as_slice()) {
        Some((a, b)) => Some((chars_to_string(a.as_slice()), chars_to_string(b.as_slice()))),
        None => None,
    }
}

/// The callee of a call, from the text of its function node: the receiver
/// before the last `.` and the name after it, both trimmed.
pub open spec fn call_target(text: Seq<char>) -> Option<(Option<Seq<char>>, Seq<char>)> {
    let tx = trimmed(text);
    if tx.len() == 0 {
        None
    } else {
        match rsplit_once_char(tx, '.') {
            Some((r, n)) => Some((Some(trimmed(r)), trimmed(n))),
            None => Some((None, tx)),
        }
    }
}

pub fn call_target_chars(text: &[char]) -> (r: Option<(Option<Vec<char>>, Vec<char>)>)
    ensures
        match r {
            Some((recv, name)) => call_target(text@) == Some((recv.deep_view(), name@)),
            None => call_target(text@) is None,
        },
{
    let tx = trim(text);
    if tx.len() == 0 {
        return None;
    }
    match rsplit_once_char_exec(tx.as_slice(), '.') {
        Some((r, n)) => {
            let rt = trim(r.as_slice());
            let nt = trim(n.as_slice());
            assert(Some(rt).deep_view() == Some(rt@));
            Some((Some(rt), nt))
        },
        None => Some((None, tx)),
    }
}

/// The kinds of import-qualified calls that the analysis recognizes.
#[derive(Clone, Copy, PartialEq, Eq, Structural, Debug)]
pub enum ImportRule {
    /// `time.Sleep`
    Sleep,
    /// `bytes.NewBuffer`, `bytes.NewBufferString`
    NewBuffer,
    /// `fmt.Sprintf` and its siblings that build strings or write formatted
    /// output
    FmtHotPath,
    /// anything under `reflect.`
    Reflection,
    /// `json.Marshal`, `json.MarshalIndent`
    JsonMarshal,
    /// a `context.Context` mentioned in a parameter list
    ContextParameter,
}

/// Whether import `im` makes `target` a hit of `rule`.
pub open spec fn import_hit(rule: ImportRule, im: ImportSpecView, target: Seq<char>) -> bool {
    match rule {
        ImportRule::Sleep => im.path == "time"@ && target == im.alias + ".Sleep"@,
        ImportRule::NewBuffer => im.path == "bytes"@ && (target == im.alias + ".NewBuffer"@
            || target == im.alias + ".NewBufferString"@),
        ImportRule::FmtHotPath => im.path == "fmt"@ && (target == im.alias + ".Sprintf"@ || target
            == im.alias + ".Sprint"@ || target == im.alias + ".Sprintln"@ || target == im.alias
            + ".Fprintf"@ || target == im.alias + ".Fprint"@ || target == im.alias
            + ".Fprintln"@),
        ImportRule::Reflection => im.path == "reflect"@ && starts_with(target, im.alias + "."@),
        ImportRule::JsonMarshal => im.path == "encoding/json"@ && (target == im.alias
            + ".Marshal"@ || target == im.alias + ".MarshalIndent"@),
        ImportRule::ContextParameter => im.path == "context"@ && has_sub(
            target,
            im.alias + ".Context"@,
        ),
    }
}

/// Whether some import makes `target` a hit of `rule`.
pub open spec fn any_import_hit(
    rule: ImportRule,
    imports: Seq<ImportSpecView>,
    target: Seq<char>,
) -> bool {
    exists|k: int| 0 <= k < imports.len() && import_hit(rule, #[trigger] imports[k], target)
}

fn alias_plus_is(target: &[char], alias: &String, suffix: &str) -> (r: bool)
    ensures
        r == (target@ == alias@ + suffix@),
{
    let a = str_chars(alias.as_str());
    let full = concat_lit(a.as_slice(), suffix);
    chars_eq(target, full.as_slice())
}

pub fn import_hit_exec(rule: ImportRule, im: &ImportSpec, target: &[char]) -> (r: bool)
    ensures
        r == import_hit(rule, im.deep_view(), target@),
{
    let path = im.path.as_str();
    match rule {
        ImportRule::Sleep => str_eq(path, "time") && alias_plus_is(target, &im.alias, ".Sleep"),
        ImportRule::NewBuffer => str_eq(path, "bytes") && (alias_plus_is(
            target,
            &im.alias,
            ".NewBuffer",
        ) || alias_plus_is(target, &im.alias, ".NewBufferString")),
        ImportRule::FmtHotPath => str_eq(path, "fmt") && (alias_plus_is(
            target,
            &im.alias,
            ".Sprintf",
        ) || alias_plus_is(target, &im.alias, ".Sprint") || alias_plus_is(
            target,
            &im.alias,
            ".Sprintln",
        ) || alias_plus_is(target, &im.alias, ".Fprintf") || alias_plus_is(
            target,
            &im.alias,
            ".Fprint",
        ) || alias_plus_is(target, &im.alias, ".Fprintln")),
        ImportRule::Reflection => {
            if !str_eq(path, "reflect") {
                return false;
            }
            let a = str_chars(im.alias.as_str());
            let prefix = concat_lit(a.as_slice(), ".");
            starts_with_exec(target, prefix.as_slice())
        },
        ImportRule::JsonMarshal => str_eq(path, "encoding/json") && (alias_plus_is(
            target,
            &im.alias,
            ".Marshal",
        ) || alias_plus_is(target, &im.alias, ".MarshalIndent")),
        ImportRule::ContextParameter => {
            if !str_eq(path, "context") {
                return false;
            }
            let a = str_chars(im.alias.as_str());
            let pat = concat_lit(a.as_slice(), ".Context");
            contains(target, pat.as_slice())
        },
    }
}

pub fn any_import_hit_exec(rule: ImportRule, imports: &[ImportSpec], target: &[char]) -> (r: bool)
    ensures
        r == any_import_hit(rule, imports.deep_view(), target@),
{
    let mut k: usize = 0;
    while k < imports.len()
        invariant
            k <= imports@.len(),
            forall|j: int|
                0 <= j < k ==> !import_hit(rule, #[trigger] imports.deep_view()[j], target@),
        decreases imports@.len() - k,
    {
        if import_hit_exec(rule, &imports[k], target) {
            assert(import_hit(rule, imports.deep_view()[k as int], target@));
            return true;
        }
        k = k + 1;
    }
    false
}

/// Whether `target` is `time.Sleep` under the name that `time` is imported as.
pub fn is_time_sleep_call(target: &str, imports: &[ImportSpec]) -> (r: bool)
    ensures
        r == any_import_hit(ImportRule::Sleep, imports.deep_view(), target@),
{
    let t = str_chars(target);
    any_import_hit_exec(ImportRule::Sleep, imports, t.as_slice())
}

pub open spec fn mutex_lock_target(target: Seq<char>) -> bool {
    ends_with(target, ".Lock"@) || ends_with(target, ".RLock"@)
}

/// Whether `target` ends in `.Lock` or `.RLock`.
pub fn is_mutex_lock_call(target: &str) -> (r: bool)
    ensures
        r == mutex_lock_target(target@),
{
    let t = str_chars(target);
    ends_with_lit(t.as_slice(), ".Lock") || ends_with_lit(t.as_slice(), ".RLock")
}

pub open spec fn allocation_target(target: Seq<char>, imports: Seq<ImportSpecView>) -> bool {
    target == "make"@ || target == "new"@ || any_import_hit(ImportRule::NewBuffer, imports, target)
}

pub fn allocation_target_exec(target: &[char], imports: &[ImportSpec]) -> (r: bool)
    ensures
        r == allocation_target(target@, imports.deep_view()),
{
    chars_are(target, "make") || chars_are(target, "new") || any_import_hit_exec(
        ImportRule::NewBuffer,
        imports,
        target,
    )
}

/// Whether `target` is `make`, `new`, or a `bytes` buffer constructor.
pub fn is_allocation_call(target: &str, imports: &[ImportSpec]) -> (r: bool)
    ensures
        r == allocation_target(target@, imports.deep_view()),
{
    let t = str_chars(target);
    allocation_target_exec(t.as_slice(), imports)
}

/// Whether `target` is one of `fmt`'s string-building or formatted-writing
/// functions.
pub fn is_fmt_hot_path_call(target: &str, imports: &[ImportSpec]) -> (r: bool)
    ensures
        r == any_import_hit(ImportRule::FmtHotPath, imports.deep_view(), target@),
{
    let t = str_chars(target);
    any_import_hit_exec(ImportRule::FmtHotPath, imports, t.as_slice())
}

/// Whether `target` lies under the name that `reflect` is imported as.
pub fn is_reflection_call(target: &str, imports: &[ImportSpec]) -> (r: bool)
    ensures
        r == any_import_hit(ImportRule::Reflection, imports.deep_view(), target@),
{
    let t = str_chars(target);
    any_import_hit_exec(ImportRule::Reflection, imports, t.as_slice())
}

/// Whether `target` is `json.Marshal` or `json.MarshalIndent`.
pub fn is_json_marshal_call(target: &str, imports: &[ImportSpec]) -> (r: bool)
    ensures
        r == any_import_hit(ImportRule::JsonMarshal, imports.deep_view(), target@),
{
    let t = str_chars(target);
    any_import_hit_exec(ImportRule::JsonMarshal, imports, t.as_slice())
}

pub open spec fn db_query_method(name: Seq<char>) -> bool {
    ||| name == "Query"@
    ||| name == "QueryContext"@
    ||| name == "QueryRow"@
    ||| name == "QueryRowContext"@
    ||| name == "Exec"@
    ||| name == "ExecContext"@
    ||| name == "Get"@
    ||| name == "Select"@
    ||| name == "Raw"@
    ||| name == "First"@
    ||| name == "Find"@
    ||| name == "Take"@
    ||| name == "Preload"@
}

pub fn db_query_method_exec(name: &[char]) -> (r: bool)
    ensures
        r == db_query_method(name@),
{
    chars_are(name, "Query") || chars_are(name, "QueryContext") || chars_are(name, "QueryRow")
        || chars_are(name, "QueryRowContext") || chars_are(name, "Exec") || chars_are(
        name,
        "ExecContext",
    ) || chars_are(name, "Get") || chars_are(name, "Select") || chars_are(name, "Raw")
        || chars_are(name, "First") || chars_are(name, "Find") || chars_are(name, "Take")
        || chars_are(name, "Preload")
}

/// Whether a method name is one of the database query methods.
pub fn is_database_query_method(name: &str) -> (r: bool)
    ensures
        r == db_query_method(name@),
{
    let n = str_chars(name);
    db_query_method_exec(n.as_slice())
}

pub open spec fn expression_kind(kind: Seq<char>) -> bool {
    ||| kind == "identifier"@
    ||| kind == "selector_expression"@
    ||| kind == "func_literal"@
    ||| kind == "parenthesized_expression"@
    ||| kind == "call_expression"@
    ||| kind == "unary_expression"@
    ||| kind == "binary_expression"@
    ||| kind == "index_expression"@
    ||| kind == "slice_expression"@
    ||| kind == "type_assertion_expression"@
    ||| kind == "composite_literal"@
    ||| kind == "literal_value"@
    ||| kind == "int_literal"@
    ||| kind == "float_literal"@
    ||| kind == "imaginary_literal"@
    ||| kind == "rune_literal"@
    ||| kind == "raw_string_literal"@
    ||| kind == "interpreted_string_literal"@
}

/// Whether a node kind is one of the Go expression kinds.
pub fn is_expression_node_kind(kind: &str) -> (r: bool)
    ensures
        r == expression_kind(kind@),
{
    str_eq(kind, "identifier") || str_eq(kind, "selector_expression") || str_eq(
        kind,
        "func_literal",
    ) || str_eq(kind, "parenthesized_expression") || str_eq(kind, "call_expression") || str_eq(
        kind,
        "unary_expression",
    ) || str_eq(kind, "binary_expression") || str_eq(kind, "index_expression") || str_eq(
        kind,
        "slice_expression",
    ) || str_eq(kind, "type_assertion_expression") || str_eq(kind, "composite_literal")
        || str_eq(kind, "literal_value") || str_eq(kind, "int_literal") || str_eq(
        kind,
        "float_literal",
    ) || str_eq(kind, "imaginary_literal") || str_eq(kind, "rune_literal") || str_eq(
        kind,
        "raw_string_literal",
    ) || str_eq(kind, "interpreted_string_literal")
}

/// The value kinds that make a package-level variable a function alias.
pub open spec fn callable_value_kind(kind: Seq<char>) -> bool {
    ||| kind == "identifier"@
    ||| kind == "selector_expression"@
    ||| kind == "func_literal"@
    ||| kind == "parenthesized_expression"@
    ||| kind == "index_expression"@
    ||| kind == "slice_expression"@
}

pub fn is_callable_value_kind(kind: &str) -> (r: bool)
    ensures
        r == callable_value_kind(kind@),
{
    str_eq(kind, "identifier") || str_eq(kind, "selector_expression") || str_eq(
        kind,
        "func_literal",
    ) || str_eq(kind, "parenthesized_expression") || str_eq(kind, "index_expression") || str_eq(
        kind,
        "slice_expression",
    )
}

/// The first context factory that an import of `context` makes the compact
/// text start with, trying the imports from the `k`-th on, and for each
/// `WithCancel`, `WithTimeout`, `WithDeadline` in turn.
pub open spec fn factory_from(compact: Seq<char>, imports: Seq<ImportSpecView>, k: int) -> Option<
    Seq<char>,
>
    decreases imports.len() - k,
{
    if k < 0 || k >= imports.len() {
        None
    } else if imports[k].path == "context"@ && starts_with(
        compact,
        imports[k].alias + ".WithCancel("@,
    ) {
        Some("WithCancel"@)
    } else if imports[k].path == "context"@ && starts_with(
        compact,
        imports[k].alias + ".WithTimeout("@,
    ) {
        Some("WithTimeout"@)
    } else if imports[k].path == "context"@ && starts_with(
        compact,
        imports[k].alias + ".WithDeadline("@,
    ) {
        Some("WithDeadline"@)
    } else {
        factory_from(compact, imports, k + 1)
    }
}

pub open spec fn context_factory(text: Seq<char>, imports: Seq<ImportSpecView>) -> Option<
    Seq<char>,
> {
    factory_from(compacted(text), imports, 0)
}

fn starts_with_alias_plus(compact: &[char], alias: &String, suffix: &str) -> (r: bool)
    ensures
        r == starts_with(compact@, alias@ + suffix@),
{
    let a = str_chars(alias.as_str());
    let p = concat_lit(a.as_slice(), suffix);
    starts_with_exec(compact, p.as_slice())
}

pub fn context_factory_chars(text: &[char], imports: &[ImportSpec]) -> (r: Option<String>)
    ensures
        r.deep_view() == context_factory(text@, imports.deep_view()),
{
    let compact = compact(text);
    let ghost iv = imports.deep_view();
    let mut k: usize = 0;
    while k < imports.len()
        invariant
            k <= imports@.len(),
            iv == imports.deep_view(),
            compact@ == compacted(text@),
            factory_from(compact@, iv, 0) == factory_from(compact@, iv, k as int),
        decreases imports@.len() - k,
    {
        let im = &imports[k];
        assert(iv[k as int] == im.deep_view());
        if str_eq(im.path.as_str(), "context") {
            let mut found: Option<String> = None;
            if starts_with_alias_plus(compact.as_slice(), &im.alias, ".WithCancel(") {
                found = Some(String::from_str("WithCancel"));
            } else if starts_with_alias_plus(compact.as_slice(), &im.alias, ".WithTimeout(") {
                found = Some(String::from_str("WithTimeout"));
            } else if starts_with_alias_plus(compact.as_slice(), &im.alias, ".WithDeadline(") {
                found = Some(String::from_str("WithDeadline"));
            }
            if found.is_some() {
                assert(found.deep_view() == factory_from(compact@, iv, k as int));
                return found;
            }
        }
        k = k + 1;
    }
    None
}

/// Which of `WithCancel`, `WithTimeout`, `WithDeadline` the text calls through
/// an import of `context`, once whitespace is removed.
pub fn context_factory_name(text: &str, imports: &[ImportSpec]) -> (r: Option<String>)
    ensures
        r.deep_view() == context_factory(text@, imports.deep_view()),
{
    let t = str_chars(text);
    context_factory_chars(t.as_slice(), imports)
}

/// The name the left side of an assignment binds last, unless it is `_` or
/// not an identifier.
pub open spec fn cancel_name(left: Seq<char>) -> Option<Seq<char>> {
    let candidate = trimmed(after_last(left, ','));
    let ws = words(candidate);
    if ws.len() == 0 {
        None
    } else if ws.last() == "_"@ || !is_identifier(ws.last()) {
        None
    } else {
        Some(ws.last())
    }
}

pub fn cancel_name_chars(left: &[char]) -> (r: Option<Vec<char>>)
    ensures
        r.deep_view() == cancel_name(left@),
{
    let tail = after_last_exec(left, ',');
    let candidate = trim(tail.as_slice());
    let mut ws = split_words(candidate.as_slice());
    let ghost wv = ws.deep_view();
    if ws.len() == 0 {
        return None;
    }
    let last = ws.pop().unwrap();
    assert(last@ == wv.last());
    if chars_are(last.as_slice(), "_") || !is_identifier_exec(last.as_slice()) {
        return None;
    }
    assert(Some(last).deep_view() == Some(last@));
    Some(last)
}

/// The cancel function's name in the left side of a context factory call.
pub fn extract_cancel_name(left: &str) -> (r: Option<String>)
    ensures
        r.deep_view() == cancel_name(left@),
{
    let l = str_chars(left);
    match cancel_name_chars(l.as_slice()) {
        Some(n) => Some(chars_to_string(n.as_slice())),
        None => None,
    }
}

/// Whether a statement's text appends to a string: `x += ..` where `x` is a
/// known string variable or the right side holds a string literal, or
/// `x = x + ..`, `x = .. + "..."`, `x = .. + \`...\`` where `x` is a known
/// string variable.  Whitespace does not count.
pub open spec fn string_concat_text(text: Seq<char>, vars: Seq<Seq<char>>) -> bool {
    let c = compacted(text);
    match split_once(c, "+="@) {
        Some((l, r)) => is_identifier(l) && (vars.contains(l) || has_string_literal(r)),
        None => match split_once(c, "="@) {
            Some((l, r)) => is_identifier(l) && vars.contains(l) && (starts_with(r, l + "+"@)
                || has_sub(r, "+\""@) || has_sub(r, "+`"@)),
            None => false,
        },
    }
}

pub fn seq_list_contains(vars: &Vec<Vec<char>>, x: &[char]) -> (r: bool)
    ensures
        r == vars.deep_view().contains(x@),
{
    let mut k: usize = 0;
    while k < vars.len()
        invariant
            k <= vars@.len(),
            forall|j: int| 0 <= j < k ==> vars.deep_view()[j] != x@,
        decreases vars@.len() - k,
    {
        proof {
            lemma_chars_deep_view(vars@[k as int]);
        }
        if chars_eq(vars[k].as_slice(), x) {
            assert(vars.deep_view()[k as int] == x@);
            return true;
        }
        k = k + 1;
    }
    false
}

pub fn string_concat_chars(text: &[char], vars: &Vec<Vec<char>>) -> (r: bool)
    ensures
        r == string_concat_text(text@, vars.deep_view()),
{
    let c = compact(text);
    let pe = str_chars("+=");
    match split_once_exec(c.as_slice(), pe.as_slice()) {
        Some((l, r)) => {
            is_identifier_exec(l.as_slice()) && (seq_list_contains(vars, l.as_slice())
                || contains_string_literal_chars(r.as_slice()))
        },
        None => {
            let eq = str_chars("=");
            match split_once_exec(c.as_slice(), eq.as_slice()) {
                Some((l, r)) => {
                    if !is_identifier_exec(l.as_slice()) || !seq_list_contains(
                        vars,
                        l.as_slice(),
                    ) {
                        return false;
                    }
                    let lp = concat_lit(l.as_slice(), "+");
                    starts_with_exec(r.as_slice(), lp.as_slice()) || contains_lit(
                        r.as_slice(),
                        "+\"",
                    ) || contains_lit(r.as_slice(), "+`")
                },
                None => false,
            }
        },
    }
}

/// Whether an assignment's text appends to one of the string variables.
pub fn is_string_concat_assignment(text: &str, string_variables: &[String]) -> (r: bool)
    ensures
        r == string_concat_text(text@, string_variables.deep_view()),
{
    let mut vars: Vec<Vec<char>> = Vec::new();
    let mut k: usize = 0;
    while k < string_variables.len()
        invariant
            k <= string_variables@.len(),
            vars.deep_view() == string_variables.deep_view().take(k as int),
        decreases string_variables@.len() - k,
    {
        let v = str_chars(string_variables[k].as_str());
        proof {
            lemma_chars_deep_view(v);
        }
        let ghost before = vars.deep_view();
        vars.push(v);
        assert(vars.deep_view() =~= before.push(v@));
        assert(vars.deep_view() =~= string_variables.deep_view().take(k + 1));
        k = k + 1;
    }
    assert(string_variables.deep_view().take(k as int) =~= string_variables.deep_view());
    let t = str_chars(text);
    string_concat_chars(t.as_slice(), &vars)
}

/// The text without `(`, `)`, `*` and `,`.
pub open spec fn drop_receiver_punct(s: Seq<char>, i: int) -> Seq<char>
    decreases s.len() - i,
{
    if i < 0 || i >= s.len() {
        Seq::empty()
    } else {
        (if s[i] == '(' || s[i] == ')' || s[i] == '*' || s[i] == ',' {
            Seq::empty()
        } else {
            seq![s[i]]
        }) + drop_receiver_punct(s, i + 1)
    }
}

/// The receiver's type: the last word of the receiver list once `(`, `)`,
/// `*` and `,` are dropped.
pub open spec fn receiver_type_of(text: Seq<char>) -> Option<Seq<char>> {
    let ws = words(drop_receiver_punct(text, 0));
    if ws.len() == 0 {
        None
    } else {
        Some(ws.last())
    }
}

pub fn receiver_type_chars(text: &[char]) -> (r: Option<Vec<char>>)
    ensures
        r.deep_view() == receiver_type_of(text@),
{
    let mut kept: Vec<char> = Vec::new();
    let mut i: usize = 0;
    while i < text.len()
        invariant
            i <= text@.len(),
            kept@ + drop_receiver_punct(text@, i as int) == drop_receiver_punct(text@, 0),
        decreases text@.len() - i,
    {
        let c = text[i];
        let ghost rest = drop_receiver_punct(text@, i + 1);
        let ghost prev = kept@;
        if !(c == '(' || c == ')' || c == '*' || c == ',') {
            kept.push(c);
            assert(prev + (seq![c] + rest) =~= kept@ + rest);
        } else {
            assert(Seq::<char>::empty() + rest =~= rest);
        }
        i = i + 1;
    }
    assert(kept@ + drop_receiver_punct(text@, i as int) =~= kept@);
    let mut ws = split_words(kept.as_slice());
    let ghost wv = ws.deep_view();
    if ws.len() == 0 {
        return None;
    }
    let last = ws.pop().unwrap();
    assert(last@ == wv.last());
    assert(Some(last).deep_view() == Some(last@));
    Some(last)
}

} // verus!
