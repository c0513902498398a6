//! The traversals that gather calls, imports, declarations and signals from
//! a Go syntax tree.

use vstd::prelude::*;
use crate::go::patterns::{
    alias_of_path, any_import_hit, any_import_hit_exec, assignment_sides, call_target,
    call_target_chars, callable_value_kind, cancel_name, cancel_name_chars, context_factory,
    context_factory_chars, contains_string_literal_chars, db_query_method, db_query_method_exec,
    has_string_literal, is_callable_value_kind, mutex_lock_target, allocation_target,
    allocation_target_exec, receiver_type_chars, receiver_type_of, seq_list_contains,
    split_assignment_chars, string_concat_chars, string_concat_text, ImportRule,
};
use crate::go::tree::{
    collect_expression_nodes, collect_identifiers, expression_nodes, find_var_name_node,
    find_var_value_node, first_literal_from, first_string_literal, identifiers, var_name_node,
    var_value_node,
};
use crate::model::{
    CallSite, CallSiteView, ContextFactoryCall, ContextFactoryCallView, DbQueryCall,
    DbQueryCallView, DeclaredSymbol, DeclaredSymbolView, FormattedErrorCall,
    FormattedErrorCallView, ImportSpec, ImportSpecView, SymbolKind,
};
use crate::syntax::{
    count_descendants, count_kind, step, step_exec, Collector, CountedKind, Ctx, FieldName, Scope,
    SyntaxTree,
};
use crate::text::{
    after_last_exec, chars_are, chars_to_string, compact, compacted, contains_lit, ends_with_lit,
    has_sub, is_identifier, is_identifier_exec, lemma_chars_deep_view, split_words, starts_with_lit,
    trim, trim_char, trim_char_exec, trimmed, words,
};

verus! {

pub open spec fn opt_seq<T>(o: Option<T>) -> Seq<T> {
    match o {
        Some(x) => seq![x],
        None => Seq::empty(),
    }
}

/// The text of node `i`, or no text when it is unknown.
pub open spec fn text_or_empty(t: SyntaxTree, src: Seq<char>, i: int) -> Seq<char> {
    match t.text(src, i) {
        Some(x) => x,
        None => Seq::empty(),
    }
}

fn text_or_empty_exec(t: &SyntaxTree, src: &[char], i: usize) -> (r: Vec<char>)
    requires
        t.wf(src@.len() as int),
        i < t.nodes@.len(),
    ensures
        r@ == text_or_empty(*t, src@, i as int),
{
    match t.text_of(src, i) {
        Some(x) => x,
        None => Vec::new(),
    }
}

fn push_one<T: DeepView>(out: &mut Vec<T>, x: T)
    ensures
        final(out).deep_view() == old(out).deep_view() + seq![x.deep_view()],
{
    out.push(x);
    assert(out.deep_view() =~= old(out).deep_view() + seq![x.deep_view()]);
}

proof fn lemma_add_empty<V>(s: Seq<V>)
    ensures
        s + Seq::<V>::empty() == s,
{
    assert(s + Seq::<V>::empty() =~= s);
}

// ---------------------------------------------------------------- calls

/// The call that node `i` makes, when it is a call expression whose callee
/// text names one.
pub open spec fn call_site_at(t: SyntaxTree, src: Seq<char>, i: int) -> Option<CallSiteView> {
    if !t.kind_is(i, "call_expression"@) {
        None
    } else {
        match t.field(i, FieldName::Function) {
            Some(f) => match t.text(src, f as int) {
                Some(x) => match call_target(x) {
                    Some((recv, name)) => Some(
                        CallSiteView { receiver: recv, name: name, line: t.line(i) },
                    ),
                    None => None,
                },
                None => None,
            },
            None => None,
        }
    }
}

pub struct CallCollector;

impl Collector for CallCollector {
    type Item = CallSite;

    type Param = ();

    open spec fn param(&self) -> () {
        ()
    }

    open spec fn own_items(p: (), t: SyntaxTree, src: Seq<char>, i: int, ctx: Ctx) -> Seq<
        CallSiteView,
    > {
        opt_seq(call_site_at(t, src, i))
    }

    open spec fn descends(p: (), t: SyntaxTree, src: Seq<char>, i: int) -> bool {
        true
    }

    fn collect_own(
        &self,
        t: &SyntaxTree,
        src: &[char],
        i: usize,
        ctx: Ctx,
        out: &mut Vec<CallSite>,
    ) {
        let n: Ghost<int> = Ghost(src@.len() as int);
        if t.kind_eq(i, "call_expression") {
            if let Some(f) = t.field_of(i, FieldName::Function, n) {
                if let Some(x) = t.text_of(src, f) {
                    if let Some((recv, name)) = call_target_chars(x.as_slice()) {
                        let ghost rv = recv.deep_view();
                        let receiver = match recv {
                            Some(r) => {
                                proof {
                                    lemma_chars_deep_view(r);
                                }
                                Some(chars_to_string(r.as_slice()))
                            },
                            None => None,
                        };
                        assert(receiver.deep_view() == rv);
                        let site = CallSite {
                            receiver,
                            name: chars_to_string(name.as_slice()),
                            line: t.line_of(i, n),
                        };
                        push_one(out, site);
                        return;
                    }
                }
            }
        }
        proof {
            lemma_add_empty(old(out).deep_view());
        }
    }

    fn descend(&self, t: &SyntaxTree, src: &[char], i: usize) -> (r: bool) {
        true
    }
}

// ---------------------------------------------------------------- imports

/// The import that an import spec's text declares: the path is the last
/// word without its quotes; the alias is the first word when there are two
/// or more, else the path's last segment.
pub open spec fn import_of_text(x: Seq<char>) -> Option<ImportSpecView> {
    let ws = words(trimmed(x));
    if ws.len() == 0 {
        None
    } else {
        let path = trim_char(ws.last(), '"');
        let alias = if ws.len() >= 2 {
            ws[0]
        } else {
            alias_of_path(path)
        };
        Some(ImportSpecView { alias, path })
    }
}

pub open spec fn import_at(t: SyntaxTree, src: Seq<char>, i: int) -> Option<ImportSpecView> {
    if !t.kind_is(i, "import_spec"@) {
        None
    } else {
        match t.text(src, i) {
            Some(x) => import_of_text(x),
            None => None,
        }
    }
}

fn import_of_text_exec(x: &[char]) -> (r: Option<ImportSpec>)
    ensures
        r.deep_view() == import_of_text(x@),
{
    let tx = trim(x);
    let ws = split_words(tx.as_slice());
    let ghost wv = ws.deep_view();
    if ws.len() == 0 {
        return None;
    }
    proof {
        lemma_chars_deep_view(ws@[ws@.len() - 1]);
        lemma_chars_deep_view(ws@[0]);
    }
    let path = trim_char_exec(ws[ws.len() - 1].as_slice(), '"');
    let alias = if ws.len() >= 2 {
        chars_to_string(ws[0].as_slice())
    } else {
        let a = after_last_exec(path.as_slice(), '/');
        chars_to_string(a.as_slice())
    };
    let im = ImportSpec { alias, path: chars_to_string(path.as_slice()) };
    assert(Some(im).deep_view() == Some(im.deep_view()));
    Some(im)
}

pub struct ImportCollector;

impl Collector for ImportCollector {
    type Item = ImportSpec;

    type Param = ();

    open spec fn param(&self) -> () {
        ()
    }

    open spec fn own_items(p: (), t: SyntaxTree, src: Seq<char>, i: int, ctx: Ctx) -> Seq<
        ImportSpecView,
    > {
        opt_seq(import_at(t, src, i))
    }

    open spec fn descends(p: (), t: SyntaxTree, src: Seq<char>, i: int) -> bool {
        true
    }

    fn collect_own(
        &self,
        t: &SyntaxTree,
        src: &[char],
        i: usize,
        ctx: Ctx,
        out: &mut Vec<ImportSpec>,
    ) {
        if t.kind_eq(i, "import_spec") {
            if let Some(x) = t.text_of(src, i) {
                if let Some(im) = import_of_text_exec(x.as_slice()) {
                    push_one(out, im);
                    return;
                }
            }
        }
        proof {
            lemma_add_empty(old(out).deep_view());
        }
    }

    fn descend(&self, t: &SyntaxTree, src: &[char], i: usize) -> (r: bool) {
        true
    }
}


// ---------------------------------------------------------------- symbols

/// The receiver type of method declaration `i`, from its receiver's text.
pub open spec fn receiver_type_at(t: SyntaxTree, src: Seq<char>, i: int) -> Option<Seq<char>> {
    match t.field(i, FieldName::Receiver) {
        Some(r) => match t.text(src, r as int) {
            Some(x) => receiver_type_of(x),
            None => None,
        },
        None => None,
    }
}

pub fn extract_receiver_type(t: &SyntaxTree, src: &[char], i: usize) -> (r: Option<String>)
    requires
        t.wf(src@.len() as int),
        i < t.nodes@.len(),
    ensures
        r.deep_view() == receiver_type_at(*t, src@, i as int),
{
    match t.field_of(i, FieldName::Receiver, Ghost(src@.len() as int)) {
        Some(r) => match t.text_of(src, r) {
            Some(x) => match receiver_type_chars(x.as_slice()) {
                Some(v) => {
                    proof {
                        lemma_chars_deep_view(v);
                    }
                    Some(chars_to_string(v.as_slice()))
                },
                None => None,
            },
            None => None,
        },
        None => None,
    }
}

/// The symbol that a function declaration declares.
pub open spec fn function_symbol(t: SyntaxTree, src: Seq<char>, i: int) -> Option<
    DeclaredSymbolView,
> {
    match t.field(i, FieldName::Name) {
        Some(nn) => match t.text(src, nn as int) {
            Some(x) => Some(
                DeclaredSymbolView {
                    name: x,
                    kind: SymbolKind::Function,
                    receiver_type: None,
                    line: t.line(i),
                },
            ),
            None => None,
        },
        None => None,
    }
}

/// The symbol that a method declaration declares.
pub open spec fn method_symbol(t: SyntaxTree, src: Seq<char>, i: int) -> Option<
    DeclaredSymbolView,
> {
    match t.field(i, FieldName::Name) {
        Some(nn) => match t.text(src, nn as int) {
            Some(x) => Some(
                DeclaredSymbolView {
                    name: x,
                    kind: SymbolKind::Method,
                    receiver_type: receiver_type_at(t, src, i),
                    line: t.line(i),
                },
            ),
            None => None,
        },
        None => None,
    }
}

/// The kind of symbol a type spec declares, by the kind of its type node.
pub open spec fn type_symbol_kind(t: SyntaxTree, tn: int) -> SymbolKind {
    if t.kind_is(tn, "struct_type"@) {
        SymbolKind::Struct
    } else if t.kind_is(tn, "interface_type"@) {
        SymbolKind::Interface
    } else {
        SymbolKind::Type
    }
}

/// The symbol that a type spec declares.
pub open spec fn type_symbol(t: SyntaxTree, src: Seq<char>, i: int) -> Option<DeclaredSymbolView> {
    match (t.field(i, FieldName::Name), t.field(i, FieldName::Type)) {
        (Some(nn), Some(tn)) => match t.text(src, nn as int) {
            Some(x) => Some(
                DeclaredSymbolView {
                    name: x,
                    kind: type_symbol_kind(t, tn as int),
                    receiver_type: None,
                    line: t.line(i),
                },
            ),
            None => None,
        },
        _ => None,
    }
}

/// A function symbol for a declared name and its line.
pub open spec fn function_alias_symbol(p: (Seq<char>, usize)) -> DeclaredSymbolView {
    DeclaredSymbolView { name: p.0, kind: SymbolKind::Function, receiver_type: None, line: p.1 }
}

/// The names from the `k`-th on whose value (at the same position) has a
/// callable kind.
pub open spec fn callable_names(
    t: SyntaxTree,
    names: Seq<(Seq<char>, usize)>,
    values: Seq<usize>,
    k: int,
) -> Seq<DeclaredSymbolView>
    decreases names.len() - k,
{
    if k < 0 || k >= names.len() {
        Seq::empty()
    } else {
        (if k < values.len() && callable_value_kind(t.nodes@[values[k] as int].kind@) {
            seq![function_alias_symbol(names[k])]
        } else {
            Seq::empty()
        }) + callable_names(t, names, values, k + 1)
    }
}

/// Whether `var` spec `i` has a function type.
pub open spec fn function_typed(t: SyntaxTree, i: int) -> bool {
    match t.field(i, FieldName::Type) {
        Some(tn) => t.kind_is(tn as int, "function_type"@),
        None => false,
    }
}

/// The function symbols that a package-level `var` spec declares: all its
/// names when it has a function type, else the names whose values are
/// identifiers, selectors, function literals, parenthesized, index or slice
/// expressions.
pub open spec fn package_var_symbols(t: SyntaxTree, src: Seq<char>, i: int, ctx: Ctx) -> Seq<
    DeclaredSymbolView,
> {
    if ctx.scope != Scope::Package {
        Seq::empty()
    } else {
        match var_name_node(t, i) {
            None => Seq::empty(),
            Some(nn) => {
                let names = identifiers(t, src, nn as int);
                if names.len() == 0 {
                    Seq::empty()
                } else if function_typed(t, i) {
                    names.map_values(|p: (Seq<char>, usize)| function_alias_symbol(p))
                } else {
                    match var_value_node(t, i) {
                        None => Seq::empty(),
                        Some(vn) => callable_names(t, names, expression_nodes(t, vn as int), 0),
                    }
                }
            },
        }
    }
}

fn alias_symbol(name: &Vec<char>, line: usize) -> (r: DeclaredSymbol)
    ensures
        r.deep_view() == function_alias_symbol((name@, line)),
{
    DeclaredSymbol {
        name: chars_to_string(name.as_slice()),
        kind: SymbolKind::Function,
        receiver_type: None,
        line,
    }
}

pub fn parse_package_var_symbols(t: &SyntaxTree, src: &[char], i: usize, ctx: Ctx) -> (r: Vec<
    DeclaredSymbol,
>)
    requires
        t.wf(src@.len() as int),
        i < t.nodes@.len(),
    ensures
        r.deep_view() == package_var_symbols(*t, src@, i as int, ctx),
{
    let mut out: Vec<DeclaredSymbol> = Vec::new();
    if ctx.scope != Scope::Package {
        assert(out.deep_view() =~= Seq::<DeclaredSymbolView>::empty());
        return out;
    }
    let nn = match find_var_name_node(t, src, i) {
        Some(nn) => nn,
        None => {
            assert(out.deep_view() =~= Seq::<DeclaredSymbolView>::empty());
            return out;
        },
    };
    let names = collect_identifiers(t, src, nn);
    let ghost nv = names.deep_view();
    if names.len() == 0 {
        assert(out.deep_view() =~= Seq::<DeclaredSymbolView>::empty());
        return out;
    }
    let n: Ghost<int> = Ghost(src@.len() as int);
    let typed = match t.field_of(i, FieldName::Type, n) {
        Some(tn) => t.kind_eq(tn, "function_type"),
        None => false,
    };
    if typed {
        let mut k: usize = 0;
        while k < names.len()
            invariant
                nv == names.deep_view(),
                k <= names@.len(),
                out.deep_view() == nv.take(k as int).map_values(
                    |p: (Seq<char>, usize)| function_alias_symbol(p),
                ),
            decreases names@.len() - k,
        {
            proof {
                lemma_chars_deep_view(names@[k as int].0);
            }
            let sym = alias_symbol(&names[k].0, names[k].1);
            let ghost before = out.deep_view();
            out.push(sym);
            assert(out.deep_view() =~= before.push(sym.deep_view()));
            assert(out.deep_view() =~= nv.take(k + 1).map_values(
                |p: (Seq<char>, usize)| function_alias_symbol(p),
            ));
            k = k + 1;
        }
        assert(nv.take(k as int) =~= nv);
        return out;
    }
    let vn = match find_var_value_node(t, src, i) {
        Some(vn) => vn,
        None => {
            assert(out.deep_view() =~= Seq::<DeclaredSymbolView>::empty());
            return out;
        },
    };
    let values = collect_expression_nodes(t, src, vn);
    let mut k: usize = 0;
    while k < names.len()
        invariant
            t.wf(src@.len() as int),
            nv == names.deep_view(),
            k <= names@.len(),
            values@ == expression_nodes(*t, vn as int),
            forall|j: int| 0 <= j < values@.len() ==> #[trigger] values@[j] < t.len(),
            out.deep_view() + callable_names(*t, nv, values@, k as int) == callable_names(
                *t,
                nv,
                values@,
                0,
            ),
        decreases names@.len() - k,
    {
        let ghost before = out.deep_view();
        let ghost rest = callable_names(*t, nv, values@, k + 1);
        if k < values.len() && is_callable_value_kind(t.nodes[values[k]].kind.as_str()) {
            proof {
                lemma_chars_deep_view(names@[k as int].0);
            }
            let sym = alias_symbol(&names[k].0, names[k].1);
            out.push(sym);
            assert(out.deep_view() =~= before.push(sym.deep_view()));
            assert(before + (seq![sym.deep_view()] + rest) =~= out.deep_view() + rest);
        } else {
            assert(Seq::<DeclaredSymbolView>::empty() + rest =~= rest);
        }
        k = k + 1;
    }
    assert(callable_names(*t, nv, values@, k as int) =~= Seq::<DeclaredSymbolView>::empty());
    proof {
        lemma_add_empty(out.deep_view());
    }
    out
}

/// The symbols that node `i` declares.
pub open spec fn symbols_at(t: SyntaxTree, src: Seq<char>, i: int, ctx: Ctx) -> Seq<
    DeclaredSymbolView,
> {
    if t.kind_is(i, "function_declaration"@) {
        opt_seq(function_symbol(t, src, i))
    } else if t.kind_is(i, "method_declaration"@) {
        opt_seq(method_symbol(t, src, i))
    } else if t.kind_is(i, "type_spec"@) {
        opt_seq(type_symbol(t, src, i))
    } else if t.kind_is(i, "var_spec"@) {
        package_var_symbols(t, src, i, ctx)
    } else {
        Seq::empty()
    }
}

pub struct SymbolCollector;

impl Collector for SymbolCollector {
    type Item = DeclaredSymbol;

    type Param = ();

    open spec fn param(&self) -> () {
        ()
    }

    open spec fn own_items(p: (), t: SyntaxTree, src: Seq<char>, i: int, ctx: Ctx) -> Seq<
        DeclaredSymbolView,
    > {
        symbols_at(t, src, i, ctx)
    }

    open spec fn descends(p: (), t: SyntaxTree, src: Seq<char>, i: int) -> bool {
        true
    }

    fn collect_own(
        &self,
        t: &SyntaxTree,
        src: &[char],
        i: usize,
        ctx: Ctx,
        out: &mut Vec<DeclaredSymbol>,
    ) {
        let n: Ghost<int> = Ghost(src@.len() as int);
        if t.kind_eq(i, "function_declaration") {
            if let Some(nn) = t.field_of(i, FieldName::Name, n) {
                if let Some(x) = t.text_of(src, nn) {
                    let sym = DeclaredSymbol {
                        name: chars_to_string(x.as_slice()),
                        kind: SymbolKind::Function,
                        receiver_type: None,
                        line: t.line_of(i, n),
                    };
                    push_one(out, sym);
                    return;
                }
            }
        } else if t.kind_eq(i, "method_declaration") {
            if let Some(nn) = t.field_of(i, FieldName::Name, n) {
                let receiver_type = extract_receiver_type(t, src, i);
                if let Some(x) = t.text_of(src, nn) {
                    let sym = DeclaredSymbol {
                        name: chars_to_string(x.as_slice()),
                        kind: SymbolKind::Method,
                        receiver_type,
                        line: t.line_of(i, n),
                    };
                    push_one(out, sym);
                    return;
                }
            }
        } else if t.kind_eq(i, "type_spec") {
            if let Some(nn) = t.field_of(i, FieldName::Name, n) {
                if let Some(tn) = t.field_of(i, FieldName::Type, n) {
                    let kind = if t.kind_eq(tn, "struct_type") {
                        SymbolKind::Struct
                    } else if t.kind_eq(tn, "interface_type") {
                        SymbolKind::Interface
                    } else {
                        SymbolKind::Type
                    };
                    if let Some(x) = t.text_of(src, nn) {
                        let sym = DeclaredSymbol {
                            name: chars_to_string(x.as_slice()),
                            kind,
                            receiver_type: None,
                            line: t.line_of(i, n),
                        };
                        push_one(out, sym);
                        return;
                    }
                }
            }
        } else if t.kind_eq(i, "var_spec") {
            let mut syms = parse_package_var_symbols(t, src, i, ctx);
            let ghost before = out.deep_view();
            let ghost sv = syms.deep_view();
            out.append(&mut syms);
            assert(out.deep_view() =~= before + sv);
            return;
        }
        proof {
            lemma_add_empty(old(out).deep_view());
        }
    }

    fn descend(&self, t: &SyntaxTree, src: &[char], i: usize) -> (r: bool) {
        true
    }
}


// ---------------------------------------------------------------- line signals

/// The signals that are reported as the lines of the nodes that show them.
#[derive(Clone, Copy, PartialEq, Eq, Structural, Debug)]
pub enum LineRule {
    SleepInLoop,
    MutexLockInLoop,
    AllocationInLoop,
    FmtInLoop,
    ReflectionInLoop,
    JsonMarshalInLoop,
    BusyWait,
    GoroutineLaunch,
    GoroutineWithoutShutdown,
    StringConcatInLoop,
    DroppedError,
    PanicOnError,
}

pub struct LineParam {
    pub rule: LineRule,
    pub imports: Seq<ImportSpecView>,
    pub string_vars: Seq<Seq<char>>,
}

/// Whether the callee text of a call inside a loop is a hit of `rule`.
pub open spec fn loop_call_hit(rule: LineRule, target: Seq<char>, imports: Seq<ImportSpecView>) -> bool {
    match rule {
        LineRule::SleepInLoop => any_import_hit(ImportRule::Sleep, imports, target),
        LineRule::MutexLockInLoop => mutex_lock_target(target),
        LineRule::AllocationInLoop => allocation_target(target, imports),
        LineRule::FmtInLoop => any_import_hit(ImportRule::FmtHotPath, imports, target),
        LineRule::ReflectionInLoop => any_import_hit(ImportRule::Reflection, imports, target),
        LineRule::JsonMarshalInLoop => any_import_hit(ImportRule::JsonMarshal, imports, target),
        _ => false,
    }
}

pub open spec fn is_loop_call_rule(rule: LineRule) -> bool {
    ||| rule == LineRule::SleepInLoop
    ||| rule == LineRule::MutexLockInLoop
    ||| rule == LineRule::AllocationInLoop
    ||| rule == LineRule::FmtInLoop
    ||| rule == LineRule::ReflectionInLoop
    ||| rule == LineRule::JsonMarshalInLoop
}

/// A goroutine started with a function literal that loops and never waits
/// for `ctx.Done()`, a `done` or a `shutdown` channel.
pub open spec fn goroutine_lacks_shutdown(compact_text: Seq<char>, has_loop: bool) -> bool {
    let c = compact_text;
    let has_func_literal = has_sub(c, "gofunc("@) || has_sub(c, "gofunc()"@);
    let has_shutdown_signal = has_sub(c, "ctx.Done()"@) || has_sub(c, "<-done"@) || has_sub(
        c,
        "<-shutdown"@,
    ) || has_sub(c, "case<-done"@) || has_sub(c, "case<-shutdown"@) || has_sub(
        c,
        "case<-ctx.Done()"@,
    );
    has_func_literal && has_loop && !has_shutdown_signal
}

/// An assignment that drops `err` or `ctx.Err()` into `_`.
pub open spec fn drops_error(compact_text: Seq<char>) -> bool {
    let c = compact_text;
    crate::text::starts_with(c, "_=err"@) || crate::text::starts_with(c, "_=ctx.Err()"@) || has_sub(
        c,
        ",_=err"@,
    ) || has_sub(c, ",_=ctx.Err()"@)
}

/// A block that panics or exits through `log.Fatal*`.
pub open spec fn panics(consequence: Seq<char>) -> bool {
    has_sub(consequence, "panic("@) || has_sub(consequence, "log.Fatal("@) || has_sub(
        consequence,
        "log.Fatalf("@,
    ) || has_sub(consequence, "log.Fatalln("@)
}

/// Whether node `i`, inside a loop or not, shows the signal of `p.rule`.
pub open spec fn line_hit(p: LineParam, t: SyntaxTree, src: Seq<char>, i: int, in_loop: bool) -> bool {
    if is_loop_call_rule(p.rule) {
        in_loop && t.kind_is(i, "call_expression"@) && match t.field(i, FieldName::Function) {
            Some(f) => loop_call_hit(p.rule, trimmed(text_or_empty(t, src, f as int)), p.imports),
            None => false,
        }
    } else {
        match p.rule {
            LineRule::BusyWait => in_loop && t.kind_is(i, "select_statement"@) && match t.text(
                src,
                i,
            ) {
                Some(x) => has_sub(x, "default:"@),
                None => false,
            },
            LineRule::GoroutineLaunch => t.kind_is(i, "go_statement"@),
            LineRule::GoroutineWithoutShutdown => t.kind_is(i, "go_statement"@) && match t.text(
                src,
                i,
            ) {
                Some(x) => goroutine_lacks_shutdown(
                    compacted(x),
                    count_kind(t, src, i, CountedKind::ForStatement) > 0,
                ),
                None => false,
            },
            LineRule::StringConcatInLoop => in_loop && t.kind_is(i, "assignment_statement"@)
                && match t.text(src, i) {
                Some(x) => string_concat_text(x, p.string_vars),
                None => false,
            },
            LineRule::DroppedError => (t.kind_is(i, "assignment_statement"@) || t.kind_is(
                i,
                "short_var_declaration"@,
            )) && match t.text(src, i) {
                Some(x) => drops_error(compacted(x)),
                None => false,
            },
            _ => t.kind_is(i, "if_statement"@) && match (
                t.field(i, FieldName::Condition),
                t.field(i, FieldName::Consequence),
            ) {
                (Some(c), Some(q)) => match (t.text(src, c as int), t.text(src, q as int)) {
                    (Some(ct), Some(qt)) => has_sub(compacted(ct), "err!=nil"@) && panics(qt),
                    _ => false,
                },
                _ => false,
            },
        }
    }
}

/// Gathers the lines of the nodes that show one signal.
pub struct LineCollector<'a> {
    pub rule: LineRule,
    pub imports: &'a [ImportSpec],
    pub string_vars: &'a Vec<Vec<char>>,
}

fn loop_call_hit_exec(rule: LineRule, target: &[char], imports: &[ImportSpec]) -> (r: bool)
    ensures
        r == loop_call_hit(rule, target@, imports.deep_view()),
{
    match rule {
        LineRule::SleepInLoop => any_import_hit_exec(ImportRule::Sleep, imports, target),
        LineRule::MutexLockInLoop => ends_with_lit(target, ".Lock") || ends_with_lit(
            target,
            ".RLock",
        ),
        LineRule::AllocationInLoop => allocation_target_exec(target, imports),
        LineRule::FmtInLoop => any_import_hit_exec(ImportRule::FmtHotPath, imports, target),
        LineRule::ReflectionInLoop => any_import_hit_exec(ImportRule::Reflection, imports, target),
        LineRule::JsonMarshalInLoop => any_import_hit_exec(
            ImportRule::JsonMarshal,
            imports,
            target,
        ),
        _ => false,
    }
}

fn goroutine_lacks_shutdown_exec(c: &[char], has_loop: bool) -> (r: bool)
    ensures
        r == goroutine_lacks_shutdown(c@, has_loop),
{
    let has_func_literal = contains_lit(c, "gofunc(") || contains_lit(c, "gofunc()");
    let has_shutdown_signal = contains_lit(c, "ctx.Done()") || contains_lit(c, "<-done")
        || contains_lit(c, "<-shutdown") || contains_lit(c, "case<-done") || contains_lit(
        c,
        "case<-shutdown",
    ) || contains_lit(c, "case<-ctx.Done()");
    has_func_literal && has_loop && !has_shutdown_signal
}

fn drops_error_exec(c: &[char]) -> (r: bool)
    ensures
        r == drops_error(c@),
{
    starts_with_lit(c, "_=err") || starts_with_lit(c, "_=ctx.Err()") || contains_lit(c, ",_=err")
        || contains_lit(c, ",_=ctx.Err()")
}

fn panics_exec(c: &[char]) -> (r: bool)
    ensures
        r == panics(c@),
{
    contains_lit(c, "panic(") || contains_lit(c, "log.Fatal(") || contains_lit(c, "log.Fatalf(")
        || contains_lit(c, "log.Fatalln(")
}

impl<'a> LineCollector<'a> {
    fn hit(&self, t: &SyntaxTree, src: &[char], i: usize, in_loop: bool) -> (r: bool)
        requires
            t.wf(src@.len() as int),
            i < t.nodes@.len(),
        ensures
            r == line_hit(self.param(), *t, src@, i as int, in_loop),
    {
        let n: Ghost<int> = Ghost(src@.len() as int);
        match self.rule {
            LineRule::BusyWait => {
                in_loop && t.kind_eq(i, "select_statement") && match t.text_of(src, i) {
                    Some(x) => contains_lit(x.as_slice(), "default:"),
                    None => false,
                }
            },
            LineRule::GoroutineLaunch => t.kind_eq(i, "go_statement"),
            LineRule::GoroutineWithoutShutdown => {
                t.kind_eq(i, "go_statement") && match t.text_of(src, i) {
                    Some(x) => {
                        let c = compact(x.as_slice());
                        let loops = count_descendants(t, src, i, CountedKind::ForStatement);
                        goroutine_lacks_shutdown_exec(c.as_slice(), loops > 0)
                    },
                    None => false,
                }
            },
            LineRule::StringConcatInLoop => {
                in_loop && t.kind_eq(i, "assignment_statement") && match t.text_of(src, i) {
                    Some(x) => string_concat_chars(x.as_slice(), self.string_vars),
                    None => false,
                }
            },
            LineRule::DroppedError => {
                (t.kind_eq(i, "assignment_statement") || t.kind_eq(i, "short_var_declaration"))
                    && match t.text_of(src, i) {
                    Some(x) => {
                        let c = compact(x.as_slice());
                        drops_error_exec(c.as_slice())
                    },
                    None => false,
                }
            },
            LineRule::PanicOnError => {
                if !t.kind_eq(i, "if_statement") {
                    return false;
                }
                match (t.field_of(i, FieldName::Condition, n), t.field_of(i, FieldName::Consequence, n)) {
                    (Some(c), Some(q)) => match (t.text_of(src, c), t.text_of(src, q)) {
                        (Some(ct), Some(qt)) => {
                            let cc = compact(ct.as_slice());
                            contains_lit(cc.as_slice(), "err!=nil") && panics_exec(qt.as_slice())
                        },
                        _ => false,
                    },
                    _ => false,
                }
            },
            _ => {
                if !(in_loop && t.kind_eq(i, "call_expression")) {
                    return false;
                }
                match t.field_of(i, FieldName::Function, n) {
                    Some(f) => {
                        let raw = text_or_empty_exec(t, src, f);
                        let target = trim(raw.as_slice());
                        loop_call_hit_exec(self.rule, target.as_slice(), self.imports)
                    },
                    None => false,
                }
            },
        }
    }
}

impl<'a> Collector for LineCollector<'a> {
    type Item = usize;

    type Param = LineParam;

    open spec fn param(&self) -> LineParam {
        LineParam {
            rule: self.rule,
            imports: self.imports.deep_view(),
            string_vars: self.string_vars.deep_view(),
        }
    }

    open spec fn own_items(p: LineParam, t: SyntaxTree, src: Seq<char>, i: int, ctx: Ctx) -> Seq<
        usize,
    > {
        if line_hit(p, t, src, i, step(t, i, ctx).in_loop) {
            seq![t.line(i)]
        } else {
            Seq::empty()
        }
    }

    open spec fn descends(p: LineParam, t: SyntaxTree, src: Seq<char>, i: int) -> bool {
        true
    }

    fn collect_own(
        &self,
        t: &SyntaxTree,
        src: &[char],
        i: usize,
        ctx: Ctx,
        out: &mut Vec<usize>,
    ) {
        let next = step_exec(t, i, ctx);
        if self.hit(t, src, i, next.in_loop) {
            let line = t.line_of(i, Ghost(src@.len() as int));
            push_one(out, line);
        } else {
            proof {
                lemma_add_empty(old(out).deep_view());
            }
        }
    }

    fn descend(&self, t: &SyntaxTree, src: &[char], i: usize) -> (r: bool) {
        true
    }
}


// ---------------------------------------------------------------- context factories

/// The context factory call that an assignment's text makes:
/// `.., cancel := ctx.WithTimeout(..)` and the like.
pub open spec fn factory_call_of_text(x: Seq<char>, imports: Seq<ImportSpecView>, line: usize) -> Option<
    ContextFactoryCallView,
> {
    match assignment_sides(x) {
        Some((l, r)) => match context_factory(r, imports) {
            Some(f) => match cancel_name(l) {
                Some(c) => Some(
                    ContextFactoryCallView { line: line, cancel_name: c, factory_name: f },
                ),
                None => None,
            },
            None => None,
        },
        None => None,
    }
}

pub open spec fn factory_call_at(
    t: SyntaxTree,
    src: Seq<char>,
    i: int,
    imports: Seq<ImportSpecView>,
) -> Option<ContextFactoryCallView> {
    if t.kind_is(i, "assignment_statement"@) || t.kind_is(i, "short_var_declaration"@)
        || t.kind_is(i, "var_spec"@) {
        match t.text(src, i) {
            Some(x) => factory_call_of_text(x, imports, t.line(i)),
            None => None,
        }
    } else {
        None
    }
}

pub struct FactoryCollector<'a> {
    pub imports: &'a [ImportSpec],
}

impl<'a> Collector for FactoryCollector<'a> {
    type Item = ContextFactoryCall;

    type Param = Seq<ImportSpecView>;

    open spec fn param(&self) -> Seq<ImportSpecView> {
        self.imports.deep_view()
    }

    open spec fn own_items(
        p: Seq<ImportSpecView>,
        t: SyntaxTree,
        src: Seq<char>,
        i: int,
        ctx: Ctx,
    ) -> Seq<ContextFactoryCallView> {
        opt_seq(factory_call_at(t, src, i, p))
    }

    open spec fn descends(p: Seq<ImportSpecView>, t: SyntaxTree, src: Seq<char>, i: int) -> bool {
        true
    }

    fn collect_own(
        &self,
        t: &SyntaxTree,
        src: &[char],
        i: usize,
        ctx: Ctx,
        out: &mut Vec<ContextFactoryCall>,
    ) {
        if t.kind_eq(i, "assignment_statement") || t.kind_eq(i, "short_var_declaration")
            || t.kind_eq(i, "var_spec") {
            if let Some(x) = t.text_of(src, i) {
                if let Some((l, r)) = split_assignment_chars(x.as_slice()) {
                    if let Some(f) = context_factory_chars(r.as_slice(), self.imports) {
                        if let Some(c) = cancel_name_chars(l.as_slice()) {
                            proof {
                                lemma_chars_deep_view(c);
                            }
                            let call = ContextFactoryCall {
                                line: t.line_of(i, Ghost(src@.len() as int)),
                                cancel_name: chars_to_string(c.as_slice()),
                                factory_name: f,
                            };
                            push_one(out, call);
                            return;
                        }
                    }
                }
            }
        }
        proof {
            lemma_add_empty(old(out).deep_view());
        }
    }

    fn descend(&self, t: &SyntaxTree, src: &[char], i: usize) -> (r: bool) {
        true
    }
}

// ---------------------------------------------------------------- database queries

/// The first string literal among the arguments of call `i`.
pub open spec fn query_text_at(t: SyntaxTree, src: Seq<char>, i: int) -> Option<Seq<char>> {
    match t.field(i, FieldName::Arguments) {
        Some(a) => first_literal_from(t, src, a as int, 0),
        None => None,
    }
}

pub open spec fn db_query_at(t: SyntaxTree, src: Seq<char>, i: int, in_loop: bool) -> Option<
    DbQueryCallView,
> {
    if !t.kind_is(i, "call_expression"@) {
        None
    } else {
        match t.field(i, FieldName::Function) {
            Some(f) => match t.text(src, f as int) {
                Some(x) => match call_target(x) {
                    Some((recv, name)) => if db_query_method(name) {
                        Some(
                            DbQueryCallView {
                                line: t.line(i),
                                receiver: recv,
                                method_name: name,
                                query_text: query_text_at(t, src, i),
                                in_loop: in_loop,
                            },
                        )
                    } else {
                        None
                    },
                    None => None,
                },
                None => None,
            },
            None => None,
        }
    }
}

pub struct DbQueryCollector;

impl Collector for DbQueryCollector {
    type Item = DbQueryCall;

    type Param = ();

    open spec fn param(&self) -> () {
        ()
    }

    open spec fn own_items(p: (), t: SyntaxTree, src: Seq<char>, i: int, ctx: Ctx) -> Seq<
        DbQueryCallView,
    > {
        opt_seq(db_query_at(t, src, i, step(t, i, ctx).in_loop))
    }

    open spec fn descends(p: (), t: SyntaxTree, src: Seq<char>, i: int) -> bool {
        true
    }

    fn collect_own(
        &self,
        t: &SyntaxTree,
        src: &[char],
        i: usize,
        ctx: Ctx,
        out: &mut Vec<DbQueryCall>,
    ) {
        let n: Ghost<int> = Ghost(src@.len() as int);
        let next = step_exec(t, i, ctx);
        if t.kind_eq(i, "call_expression") {
            if let Some(f) = t.field_of(i, FieldName::Function, n) {
                if let Some(x) = t.text_of(src, f) {
                    if let Some((recv, name)) = call_target_chars(x.as_slice()) {
                        if db_query_method_exec(name.as_slice()) {
                            let ghost rv = recv.deep_view();
                            let receiver = match recv {
                                Some(r) => {
                                    proof {
                                        lemma_chars_deep_view(r);
                                    }
                                    Some(chars_to_string(r.as_slice()))
                                },
                                None => None,
                            };
                            assert(receiver.deep_view() == rv);
                            let query_text = match t.field_of(i, FieldName::Arguments, n) {
                                Some(a) => match first_string_literal(t, src, a) {
                                    Some(q) => {
                                        proof {
                                            lemma_chars_deep_view(q);
                                        }
                                        Some(chars_to_string(q.as_slice()))
                                    },
                                    None => None,
                                },
                                None => None,
                            };
                            let call = DbQueryCall {
                                line: t.line_of(i, n),
                                receiver,
                                method_name: chars_to_string(name.as_slice()),
                                query_text,
                                in_loop: next.in_loop,
                            };
                            push_one(out, call);
                            return;
                        }
                    }
                }
            }
        }
        proof {
            lemma_add_empty(old(out).deep_view());
        }
    }

    fn descend(&self, t: &SyntaxTree, src: &[char], i: usize) -> (r: bool) {
        true
    }
}

// ---------------------------------------------------------------- fmt.Errorf

pub open spec fn errorf_at(t: SyntaxTree, src: Seq<char>, i: int) -> Option<FormattedErrorCallView> {
    if !t.kind_is(i, "call_expression"@) {
        None
    } else {
        match (t.field(i, FieldName::Function), t.field(i, FieldName::Arguments)) {
            (Some(f), Some(a)) => if trimmed(text_or_empty(t, src, f as int)) == "fmt.Errorf"@ {
                let args = text_or_empty(t, src, a as int);
                Some(
                    FormattedErrorCallView {
                        line: t.line(i),
                        format_string: first_literal_from(t, src, a as int, 0),
                        mentions_err: has_sub(args, "err"@),
                        uses_percent_w: has_sub(args, "%w"@),
                    },
                )
            } else {
                None
            },
            _ => None,
        }
    }
}

pub struct ErrorfCollector;

impl Collector for ErrorfCollector {
    type Item = FormattedErrorCall;

    type Param = ();

    open spec fn param(&self) -> () {
        ()
    }

    open spec fn own_items(p: (), t: SyntaxTree, src: Seq<char>, i: int, ctx: Ctx) -> Seq<
        FormattedErrorCallView,
    > {
        opt_seq(errorf_at(t, src, i))
    }

    open spec fn descends(p: (), t: SyntaxTree, src: Seq<char>, i: int) -> bool {
        true
    }

    fn collect_own(
        &self,
        t: &SyntaxTree,
        src: &[char],
        i: usize,
        ctx: Ctx,
        out: &mut Vec<FormattedErrorCall>,
    ) {
        let n: Ghost<int> = Ghost(src@.len() as int);
        if t.kind_eq(i, "call_expression") {
            if let (Some(f), Some(a)) = (
                t.field_of(i, FieldName::Function, n),
                t.field_of(i, FieldName::Arguments, n),
            ) {
                let target = text_or_empty_exec(t, src, f);
                let tt = trim(target.as_slice());
                if chars_are(tt.as_slice(), "fmt.Errorf") {
                    let args = text_or_empty_exec(t, src, a);
                    let format_string = match first_string_literal(t, src, a) {
                        Some(q) => {
                            proof {
                                lemma_chars_deep_view(q);
                            }
                            Some(chars_to_string(q.as_slice()))
                        },
                        None => None,
                    };
                    let call = FormattedErrorCall {
                        line: t.line_of(i, n),
                        format_string,
                        mentions_err: contains_lit(args.as_slice(), "err"),
                        uses_percent_w: contains_lit(args.as_slice(), "%w"),
                    };
                    push_one(out, call);
                    return;
                }
            }
        }
        proof {
            lemma_add_empty(old(out).deep_view());
        }
    }

    fn descend(&self, t: &SyntaxTree, src: &[char], i: usize) -> (r: bool) {
        true
    }
}

// ---------------------------------------------------------------- string variables

/// Whether type node `tn` reads `string`.
pub open spec fn string_typed(t: SyntaxTree, src: Seq<char>, tn: int) -> bool {
    match t.text(src, tn) {
        Some(x) => trimmed(x) == "string"@,
        None => false,
    }
}

/// The variables that node `i` declares as strings: the names of a `var`
/// spec of type `string`, or the left side of an assignment whose right
/// side holds a string literal.
pub open spec fn string_vars_at(t: SyntaxTree, src: Seq<char>, i: int) -> Seq<Seq<char>> {
    if t.kind_is(i, "var_spec"@) {
        match t.field(i, FieldName::Type) {
            Some(tn) => if string_typed(t, src, tn as int) {
                match var_name_node(t, i) {
                    Some(nn) => identifiers(t, src, nn as int).map_values(
                        |p: (Seq<char>, usize)| p.0,
                    ),
                    None => Seq::empty(),
                }
            } else {
                Seq::empty()
            },
            None => Seq::empty(),
        }
    } else if t.kind_is(i, "short_var_declaration"@) || t.kind_is(i, "assignment_statement"@) {
        match t.text(src, i) {
            Some(x) => match assignment_sides(x) {
                Some((l, r)) => if is_identifier(trimmed(l)) && has_string_literal(r) {
                    seq![trimmed(l)]
                } else {
                    Seq::empty()
                },
                None => Seq::empty(),
            },
            None => Seq::empty(),
        }
    } else {
        Seq::empty()
    }
}

pub struct StringVarCollector;

impl Collector for StringVarCollector {
    type Item = Vec<char>;

    type Param = ();

    open spec fn param(&self) -> () {
        ()
    }

    open spec fn own_items(p: (), t: SyntaxTree, src: Seq<char>, i: int, ctx: Ctx) -> Seq<
        Seq<char>,
    > {
        string_vars_at(t, src, i)
    }

    /// A `var` spec without a type ends the search below it.
    open spec fn descends(p: (), t: SyntaxTree, src: Seq<char>, i: int) -> bool {
        !(t.kind_is(i, "var_spec"@) && t.field(i, FieldName::Type) is None)
    }

    fn collect_own(
        &self,
        t: &SyntaxTree,
        src: &[char],
        i: usize,
        ctx: Ctx,
        out: &mut Vec<Vec<char>>,
    ) {
        let n: Ghost<int> = Ghost(src@.len() as int);
        if t.kind_eq(i, "var_spec") {
            if let Some(tn) = t.field_of(i, FieldName::Type, n) {
                let typed = match t.text_of(src, tn) {
                    Some(x) => {
                        let tx = trim(x.as_slice());
                        chars_are(tx.as_slice(), "string")
                    },
                    None => false,
                };
                if typed {
                    if let Some(nn) = find_var_name_node(t, src, i) {
                        let names = collect_identifiers(t, src, nn);
                        let ghost nv = names.deep_view();
                        let ghost start = out.deep_view();
                        let mut k: usize = 0;
                        while k < names.len()
                            invariant
                                nv == names.deep_view(),
                                k <= names@.len(),
                                out.deep_view() == start + nv.take(k as int).map_values(
                                    |p: (Seq<char>, usize)| p.0,
                                ),
                            decreases names@.len() - k,
                        {
                            proof {
                                lemma_chars_deep_view(names@[k as int].0);
                            }
                            let name = vstd::slice::slice_to_vec(names[k].0.as_slice());
                            proof {
                                lemma_chars_deep_view(name);
                            }
                            let ghost before = out.deep_view();
                            out.push(name);
                            assert(out.deep_view() =~= before.push(name@));
                            assert(out.deep_view() =~= start + nv.take(k + 1).map_values(
                                |p: (Seq<char>, usize)| p.0,
                            ));
                            k = k + 1;
                        }
                        assert(nv.take(k as int) =~= nv);
                        return;
                    }
                }
            }
        } else if t.kind_eq(i, "short_var_declaration") || t.kind_eq(i, "assignment_statement") {
            if let Some(x) = t.text_of(src, i) {
                if let Some((l, r)) = split_assignment_chars(x.as_slice()) {
                    let lt = trim(l.as_slice());
                    if is_identifier_exec(lt.as_slice()) && contains_string_literal_chars(
                        r.as_slice(),
                    ) {
                        proof {
                            lemma_chars_deep_view(lt);
                        }
                        push_one(out, lt);
                        return;
                    }
                }
            }
        }
        proof {
            lemma_add_empty(old(out).deep_view());
        }
    }

    fn descend(&self, t: &SyntaxTree, src: &[char], i: usize) -> (r: bool) {
        if t.kind_eq(i, "var_spec") {
            t.field_of(i, FieldName::Type, Ghost(src@.len() as int)).is_some()
        } else {
            true
        }
    }
}

} // verus!
