//! Queries on the Go syntax tree: named children, declared names, values,
//! string literals and the package clause.

use vstd::prelude::*;
use crate::go::patterns::{expression_kind, is_expression_node_kind};
use crate::syntax::{FieldName, SyntaxTree};
use crate::text::{
    lemma_chars_deep_view, trim_char, trim_char_exec,
};

verus! {

/// The first named child of node `i`, from its `k`-th child on, of kind
/// `kind`.
pub open spec fn first_named_kind_from(t: SyntaxTree, i: int, kind: Seq<char>, k: int) -> Option<
    usize,
>
    decreases t.nodes@[i].children@.len() - k,
{
    if 0 <= i < t.len() && 0 <= k < t.nodes@[i].children@.len() {
        let c = t.nodes@[i].children@[k];
        if (c as int) < t.len() && t.nodes@[c as int].named && t.kind_is(c as int, kind) {
            Some(c)
        } else {
            first_named_kind_from(t, i, kind, k + 1)
        }
    } else {
        None
    }
}

/// The first named child of node `i`, from its `k`-th child on, whose kind
/// is an expression kind.
pub open spec fn first_named_expr_from(t: SyntaxTree, i: int, k: int) -> Option<usize>
    decreases t.nodes@[i].children@.len() - k,
{
    if 0 <= i < t.len() && 0 <= k < t.nodes@[i].children@.len() {
        let c = t.nodes@[i].children@[k];
        if (c as int) < t.len() && t.nodes@[c as int].named && expression_kind(
            t.nodes@[c as int].kind@,
        ) {
            Some(c)
        } else {
            first_named_expr_from(t, i, k + 1)
        }
    } else {
        None
    }
}

/// The first named child of node `i` of kind `kind`.
pub fn first_named_child_of_kind(t: &SyntaxTree, src: &[char], i: usize, kind: &str) -> (r:
    Option<usize>)
    requires
        t.wf(src@.len() as int),
        i < t.nodes@.len(),
    ensures
        r == first_named_kind_from(*t, i as int, kind@, 0),
        r matches Some(c) ==> i < c < t.len(),
{
    proof {
        assert(t.node_wf(i as int, src@.len() as int));
    }
    let n = t.nodes[i].children.len();
    let mut k: usize = 0;
    while k < n
        invariant
            t.wf(src@.len() as int),
            i < t.nodes@.len(),
            n == t.nodes@[i as int].children@.len(),
            k <= n,
            t.node_wf(i as int, src@.len() as int),
            first_named_kind_from(*t, i as int, kind@, 0) == first_named_kind_from(
                *t,
                i as int,
                kind@,
                k as int,
            ),
        decreases n - k,
    {
        let c = t.nodes[i].children[k];
        if t.nodes[c].named && t.kind_eq(c, kind) {
            return Some(c);
        }
        k = k + 1;
    }
    None
}

/// The first named child of node `i` whose kind is an expression kind.
pub fn first_named_expression_child(t: &SyntaxTree, src: &[char], i: usize) -> (r: Option<usize>)
    requires
        t.wf(src@.len() as int),
        i < t.nodes@.len(),
    ensures
        r == first_named_expr_from(*t, i as int, 0),
        r matches Some(c) ==> i < c < t.len(),
{
    proof {
        assert(t.node_wf(i as int, src@.len() as int));
    }
    let n = t.nodes[i].children.len();
    let mut k: usize = 0;
    while k < n
        invariant
            t.wf(src@.len() as int),
            i < t.nodes@.len(),
            n == t.nodes@[i as int].children@.len(),
            k <= n,
            t.node_wf(i as int, src@.len() as int),
            first_named_expr_from(*t, i as int, 0) == first_named_expr_from(*t, i as int, k as int),
        decreases n - k,
    {
        let c = t.nodes[i].children[k];
        if t.nodes[c].named && is_expression_node_kind(t.nodes[c].kind.as_str()) {
            return Some(c);
        }
        k = k + 1;
    }
    None
}

/// The node that holds the names of a `var` spec.
pub open spec fn var_name_node(t: SyntaxTree, i: int) -> Option<usize> {
    match t.field(i, FieldName::Name) {
        Some(c) => Some(c),
        None => match first_named_kind_from(t, i, "identifier_list"@, 0) {
            Some(c) => Some(c),
            None => first_named_kind_from(t, i, "identifier"@, 0),
        },
    }
}

/// The node that holds the values of a `var` spec.
pub open spec fn var_value_node(t: SyntaxTree, i: int) -> Option<usize> {
    match t.field(i, FieldName::Value) {
        Some(c) => Some(c),
        None => match first_named_kind_from(t, i, "expression_list"@, 0) {
            Some(c) => Some(c),
            None => first_named_expr_from(t, i, 0),
        },
    }
}

pub fn find_var_name_node(t: &SyntaxTree, src: &[char], i: usize) -> (r: Option<usize>)
    requires
        t.wf(src@.len() as int),
        i < t.nodes@.len(),
    ensures
        r == var_name_node(*t, i as int),
        r matches Some(c) ==> i < c < t.len(),
{
    match t.field_of(i, FieldName::Name, Ghost(src@.len() as int)) {
        Some(c) => Some(c),
        None => match first_named_child_of_kind(t, src, i, "identifier_list") {
            Some(c) => Some(c),
            None => first_named_child_of_kind(t, src, i, "identifier"),
        },
    }
}

pub fn find_var_value_node(t: &SyntaxTree, src: &[char], i: usize) -> (r: Option<usize>)
    requires
        t.wf(src@.len() as int),
        i < t.nodes@.len(),
    ensures
        r == var_value_node(*t, i as int),
        r matches Some(c) ==> i < c < t.len(),
{
    match t.field_of(i, FieldName::Value, Ghost(src@.len() as int)) {
        Some(c) => Some(c),
        None => match first_named_child_of_kind(t, src, i, "expression_list") {
            Some(c) => Some(c),
            None => first_named_expression_child(t, src, i),
        },
    }
}

/// The identifiers among the named children of node `i` from the `k`-th
/// child on, each with its text and line.
pub open spec fn ident_children(t: SyntaxTree, src: Seq<char>, i: int, k: int) -> Seq<
    (Seq<char>, usize),
>
    decreases t.nodes@[i].children@.len() - k,
{
    if 0 <= i < t.len() && 0 <= k < t.nodes@[i].children@.len() {
        let c = t.nodes@[i].children@[k] as int;
        (if c < t.len() && t.nodes@[c].named && t.kind_is(c, "identifier"@) && t.text(
            src,
            c,
        ) is Some {
            seq![(t.text(src, c).unwrap(), t.line(c))]
        } else {
            Seq::empty()
        }) + ident_children(t, src, i, k + 1)
    } else {
        Seq::empty()
    }
}

/// The names that node `i` declares, each with its line: the node itself
/// when it is an identifier, else its identifier children.
pub open spec fn identifiers(t: SyntaxTree, src: Seq<char>, i: int) -> Seq<(Seq<char>, usize)> {
    if t.kind_is(i, "identifier"@) {
        match t.text(src, i) {
            Some(x) => seq![(x, t.line(i))],
            None => Seq::empty(),
        }
    } else {
        ident_children(t, src, i, 0)
    }
}

pub fn collect_identifiers(t: &SyntaxTree, src: &[char], i: usize) -> (r: Vec<(Vec<char>, usize)>)
    requires
        t.wf(src@.len() as int),
        i < t.nodes@.len(),
    ensures
        r.deep_view() == identifiers(*t, src@, i as int),
{
    let n_src: Ghost<int> = Ghost(src@.len() as int);
    let mut out: Vec<(Vec<char>, usize)> = Vec::new();
    if t.kind_eq(i, "identifier") {
        match t.text_of(src, i) {
            Some(x) => {
                let line = t.line_of(i, n_src);
                proof {
                    lemma_chars_deep_view(x);
                }
                out.push((x, line));
                assert(out.deep_view() =~= seq![(t.text(src@, i as int).unwrap(), t.line(i as int))]);
            },
            None => {
                assert(out.deep_view() =~= Seq::<(Seq<char>, usize)>::empty());
            },
        }
        return out;
    }
    proof {
        assert(t.node_wf(i as int, src@.len() as int));
    }
    let n = t.nodes[i].children.len();
    let mut k: usize = 0;
    while k < n
        invariant
            t.wf(src@.len() as int),
            i < t.nodes@.len(),
            n == t.nodes@[i as int].children@.len(),
            k <= n,
            n_src@ == src@.len(),
            t.node_wf(i as int, src@.len() as int),
            out.deep_view() + ident_children(*t, src@, i as int, k as int) == ident_children(
                *t,
                src@,
                i as int,
                0,
            ),
        decreases n - k,
    {
        let c = t.nodes[i].children[k];
        let ghost before = out.deep_view();
        let ghost rest = ident_children(*t, src@, i as int, k + 1);
        if t.nodes[c].named && t.kind_eq(c, "identifier") {
            match t.text_of(src, c) {
                Some(x) => {
                    let line = t.line_of(c, n_src);
                    proof {
                        lemma_chars_deep_view(x);
                    }
                    out.push((x, line));
                    assert(out.deep_view() =~= before.push((x@, line)));
                    assert(before + (seq![(x@, line)] + rest) =~= out.deep_view() + rest);
                },
                None => {
                    assert(Seq::<(Seq<char>, usize)>::empty() + rest =~= rest);
                },
            }
        } else {
            assert(Seq::<(Seq<char>, usize)>::empty() + rest =~= rest);
        }
        k = k + 1;
    }
    assert(ident_children(*t, src@, i as int, n as int) =~= Seq::<(Seq<char>, usize)>::empty());
    assert(out.deep_view() + Seq::<(Seq<char>, usize)>::empty() =~= out.deep_view());
    out
}

/// The named children of node `i` from the `k`-th child on.
pub open spec fn named_from(t: SyntaxTree, i: int, k: int) -> Seq<usize>
    decreases t.nodes@[i].children@.len() - k,
{
    if 0 <= i < t.len() && 0 <= k < t.nodes@[i].children@.len() {
        let c = t.nodes@[i].children@[k];
        (if (c as int) < t.len() && t.nodes@[c as int].named {
            seq![c]
        } else {
            Seq::empty()
        }) + named_from(t, i, k + 1)
    } else {
        Seq::empty()
    }
}

/// The value nodes of a `var` spec: the named children of an expression
/// list, or the value node itself.
pub open spec fn expression_nodes(t: SyntaxTree, i: int) -> Seq<usize> {
    if !t.kind_is(i, "expression_list"@) {
        seq![i as usize]
    } else {
        named_from(t, i, 0)
    }
}

pub fn collect_expression_nodes(t: &SyntaxTree, src: &[char], i: usize) -> (r: Vec<usize>)
    requires
        t.wf(src@.len() as int),
        i < t.nodes@.len(),
    ensures
        r@ == expression_nodes(*t, i as int),
        forall|j: int| 0 <= j < r@.len() ==> #[trigger] r@[j] < t.len(),
{
    let mut out: Vec<usize> = Vec::new();
    if !t.kind_eq(i, "expression_list") {
        out.push(i);
        assert(out@ =~= seq![i]);
        return out;
    }
    proof {
        assert(t.node_wf(i as int, src@.len() as int));
    }
    let n = t.nodes[i].children.len();
    let mut k: usize = 0;
    while k < n
        invariant
            t.wf(src@.len() as int),
            i < t.nodes@.len(),
            n == t.nodes@[i as int].children@.len(),
            k <= n,
            t.node_wf(i as int, src@.len() as int),
            out@ + named_from(*t, i as int, k as int) == named_from(*t, i as int, 0),
            forall|j: int| 0 <= j < out@.len() ==> #[trigger] out@[j] < t.len(),
        decreases n - k,
    {
        let c = t.nodes[i].children[k];
        let ghost before = out@;
        let ghost rest = named_from(*t, i as int, k + 1);
        if t.nodes[c].named {
            out.push(c);
            assert(before + (seq![c] + rest) =~= out@ + rest);
        } else {
            assert(Seq::<usize>::empty() + rest =~= rest);
        }
        k = k + 1;
    }
    assert(out@ + named_from(*t, i as int, n as int) =~= out@);
    out
}

/// A string literal's text without its quotes or backquotes.
pub open spec fn literal_text(x: Seq<char>) -> Seq<char> {
    trim_char(trim_char(x, '"'), '`')
}

/// The text of the first string-literal child among the named children of
/// node `i` from the `k`-th child on.  The search ends at the first
/// string-literal child, even when its text is unknown.
pub open spec fn first_literal_from(t: SyntaxTree, src: Seq<char>, i: int, k: int) -> Option<
    Seq<char>,
>
    decreases t.nodes@[i].children@.len() - k,
{
    if 0 <= i < t.len() && 0 <= k < t.nodes@[i].children@.len() {
        let c = t.nodes@[i].children@[k] as int;
        if c < t.len() && t.nodes@[c].named && (t.kind_is(c, "interpreted_string_literal"@)
            || t.kind_is(c, "raw_string_literal"@)) {
            match t.text(src, c) {
                Some(x) => Some(literal_text(x)),
                None => None,
            }
        } else {
            first_literal_from(t, src, i, k + 1)
        }
    } else {
        None
    }
}

pub fn first_string_literal(t: &SyntaxTree, src: &[char], i: usize) -> (r: Option<Vec<char>>)
    requires
        t.wf(src@.len() as int),
        i < t.nodes@.len(),
    ensures
        r.deep_view() == first_literal_from(*t, src@, i as int, 0),
{
    proof {
        assert(t.node_wf(i as int, src@.len() as int));
    }
    let n = t.nodes[i].children.len();
    let mut k: usize = 0;
    while k < n
        invariant
            t.wf(src@.len() as int),
            i < t.nodes@.len(),
            n == t.nodes@[i as int].children@.len(),
            k <= n,
            t.node_wf(i as int, src@.len() as int),
            first_literal_from(*t, src@, i as int, 0) == first_literal_from(
                *t,
                src@,
                i as int,
                k as int,
            ),
        decreases n - k,
    {
        let c = t.nodes[i].children[k];
        if t.nodes[c].named && (t.kind_eq(c, "interpreted_string_literal") || t.kind_eq(
            c,
            "raw_string_literal",
        )) {
            match t.text_of(src, c) {
                Some(x) => {
                    let a = trim_char_exec(x.as_slice(), '"');
                    let b = trim_char_exec(a.as_slice(), '`');
                    assert(Some(b).deep_view() == Some(b@));
                    return Some(b);
                },
                None => {
                    return None;
                },
            }
        }
        k = k + 1;
    }
    None
}

/// The package name in the package clause of the file rooted at node `root`,
/// searching the root's named children from the `k`-th child on.
pub open spec fn package_name_from(t: SyntaxTree, src: Seq<char>, root: int, k: int) -> Option<
    Seq<char>,
>
    decreases t.nodes@[root].children@.len() - k,
{
    if 0 <= root < t.len() && 0 <= k < t.nodes@[root].children@.len() {
        let c = t.nodes@[root].children@[k] as int;
        if c < t.len() && t.nodes@[c].named && t.kind_is(c, "package_clause"@) {
            match package_ident_from(t, c, 0) {
                Some(p) => t.text(src, p as int),
                None => package_name_from(t, src, root, k + 1),
            }
        } else {
            package_name_from(t, src, root, k + 1)
        }
    } else {
        None
    }
}

/// The first named child of a package clause, from the `k`-th child on,
/// that is a package identifier or an identifier.
pub open spec fn package_ident_from(t: SyntaxTree, c: int, k: int) -> Option<usize>
    decreases t.nodes@[c].children@.len() - k,
{
    if 0 <= c < t.len() && 0 <= k < t.nodes@[c].children@.len() {
        let p = t.nodes@[c].children@[k];
        if (p as int) < t.len() && t.nodes@[p as int].named && (t.kind_is(
            p as int,
            "package_identifier"@,
        ) || t.kind_is(p as int, "identifier"@)) {
            Some(p)
        } else {
            package_ident_from(t, c, k + 1)
        }
    } else {
        None
    }
}

fn package_ident(t: &SyntaxTree, src: &[char], c: usize) -> (r: Option<usize>)
    requires
        t.wf(src@.len() as int),
        c < t.nodes@.len(),
    ensures
        r == package_ident_from(*t, c as int, 0),
        r matches Some(p) ==> p < t.len(),
{
    proof {
        assert(t.node_wf(c as int, src@.len() as int));
    }
    let n = t.nodes[c].children.len();
    let mut k: usize = 0;
    while k < n
        invariant
            t.wf(src@.len() as int),
            c < t.nodes@.len(),
            n == t.nodes@[c as int].children@.len(),
            k <= n,
            t.node_wf(c as int, src@.len() as int),
            package_ident_from(*t, c as int, 0) == package_ident_from(*t, c as int, k as int),
        decreases n - k,
    {
        let p = t.nodes[c].children[k];
        if t.nodes[p].named && (t.kind_eq(p, "package_identifier") || t.kind_eq(p, "identifier")) {
            return Some(p);
        }
        k = k + 1;
    }
    None
}

/// The package name of the file whose root is node `root`.
pub fn find_package_name(t: &SyntaxTree, src: &[char], root: usize) -> (r: Option<Vec<char>>)
    requires
        t.wf(src@.len() as int),
        root < t.nodes@.len(),
    ensures
        r.deep_view() == package_name_from(*t, src@, root as int, 0),
{
    proof {
        assert(t.node_wf(root as int, src@.len() as int));
    }
    let n = t.nodes[root].children.len();
    let mut k: usize = 0;
    while k < n
        invariant
            t.wf(src@.len() as int),
            root < t.nodes@.len(),
            n == t.nodes@[root as int].children@.len(),
            k <= n,
            t.node_wf(root as int, src@.len() as int),
            package_name_from(*t, src@, root as int, 0) == package_name_from(
                *t,
                src@,
                root as int,
                k as int,
            ),
        decreases n - k,
    {
        let c = t.nodes[root].children[k];
        if t.nodes[c].named && t.kind_eq(c, "package_clause") {
            match package_ident(t, src, c) {
                Some(p) => {
                    let r = t.text_of(src, p);
                    match r {
                        Some(x) => {
                            assert(Some(x).deep_view() == Some(x@));
                            return Some(x);
                        },
                        None => {
                            return None;
                        },
                    }
                },
                None => {},
            }
        }
        k = k + 1;
    }
    None
}

} // verus!
