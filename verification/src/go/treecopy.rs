//! Parsing Go text with tree-sitter and copying the tree into a
//! [`SyntaxTree`].

use vstd::prelude::*;
use crate::go::parser::{analyze_tree, parsed_file_of};
use crate::model::{ParsedFile, ParsedFileView};
use crate::syntax::{node_ok, str_eq, FieldName, FieldSlots, SyntaxNode, SyntaxTree};
use crate::text::str_chars;
use crate::treesitter::{
    new_parser, node_child, node_child_by_field, node_child_count, node_descendant_count,
    node_end_byte, node_end_row, node_has_error, node_is_named, node_kind, node_start_byte,
    node_start_row, parse_source, root_node, set_parser_language, ts_child_count,
    ts_descendant_count, ts_end_byte, ts_end_row, ts_field_child, ts_has_error, ts_kind, ts_named,
    ts_start_byte, ts_start_row, GoNode,
};

verus! {

/// Why a Go file could not be parsed.
#[derive(Clone, Copy, PartialEq, Eq, Structural, Debug)]
pub enum GoParseError {
    /// The parser refused the Go grammar.  tree-sitter accepts the Go
    /// grammar's ABI version, so [`parse_file`] never returns this.
    LanguageUnavailable,
    /// The parser returned no tree.  With the Go grammar set and no timeout
    /// or cancellation flag, tree-sitter always returns one, so
    /// [`parse_file`] never returns this.
    NoTree,
}

/// The number of bytes that UTF-8 spends on `c`.
pub open spec fn utf8_width(c: char) -> int {
    if (c as u32) < 0x80 {
        1
    } else if (c as u32) < 0x800 {
        2
    } else if (c as u32) < 0x10000 {
        3
    } else {
        4
    }
}

/// The byte offset at which char `i` of `s` starts in UTF-8.
pub open spec fn byte_offset(s: Seq<char>, i: int) -> int
    decreases i,
{
    if i <= 0 {
        0
    } else {
        byte_offset(s, i - 1) + utf8_width(s[i - 1])
    }
}

fn char_width(c: char) -> (r: usize)
    ensures
        r == utf8_width(c),
{
    let v = c as u32;
    if v < 0x80 {
        1
    } else if v < 0x800 {
        2
    } else if v < 0x10000 {
        3
    } else {
        4
    }
}

/// For the bytes of the first `i` chars of `s`: the index of the char that
/// starts at each byte, and nothing for the other bytes of a char.
pub open spec fn prefix_map(s: Seq<char>, i: int) -> Seq<Option<usize>>
    decreases i,
{
    if i <= 0 {
        Seq::empty()
    } else {
        prefix_map(s, i - 1) + seq![Some((i - 1) as usize)] + Seq::new(
            (utf8_width(s[i - 1]) - 1) as nat,
            |b: int| None::<usize>,
        )
    }
}

/// For each byte offset of the UTF-8 text of `s`, the index of the char that
/// starts there, the length of `s` for the end, and nothing inside a char.
pub open spec fn index_map(s: Seq<char>) -> Seq<Option<usize>> {
    prefix_map(s, s.len() as int).push(Some(s.len() as usize))
}

/// For each byte offset of the UTF-8 text of `src`, the index of the char
/// that starts there (the length of `src` for the end), or nothing inside a
/// char.
pub fn char_index_map(src: &[char]) -> (r: Vec<Option<usize>>)
    ensures
        r@ == index_map(src@),
        r@.len() == byte_offset(src@, src@.len() as int) + 1,
        forall|b: int| 0 <= b < r@.len() ==> (#[trigger] r@[b] matches Some(i) ==> 0 <= i <= src@.len() && byte_offset(src@, i as int) == b),
{
    let n = src.len();
    let mut map: Vec<Option<usize>> = Vec::new();
    let mut i: usize = 0;
    while i < n
        invariant
            n == src@.len(),
            i <= n,
            map@ == prefix_map(src@, i as int),
            map@.len() == byte_offset(src@, i as int),
            forall|b: int| 0 <= b < map@.len() ==> (#[trigger] map@[b] matches Some(k) ==> 0 <= k
                < i && byte_offset(src@, k as int) == b),
        decreases n - i,
    {
        let w = char_width(src[i]);
        let start: usize = map.len();
        map.push(Some(i));
        assert(map@ =~= prefix_map(src@, i as int) + seq![Some(i)] + Seq::new(
            0nat,
            |b: int| None::<usize>,
        ));
        let mut k: usize = 1;
        while k < w
            invariant
                1 <= k <= w <= 4,
                w == utf8_width(src@[i as int]),
                map@ == prefix_map(src@, i as int) + seq![Some(i)] + Seq::new(
                    (k - 1) as nat,
                    |b: int| None::<usize>,
                ),
                map@.len() == start + k,
                start == byte_offset(src@, i as int),
                i < n,
                n == src@.len(),
                start < map@.len(),
                map@[start as int] == Some(i),
                forall|b: int| 0 <= b < start ==> (#[trigger] map@[b] matches Some(j) ==> 0 <= j
                    < i && byte_offset(src@, j as int) == b),
                forall|b: int| start < b < map@.len() ==> #[trigger] map@[b] is None,
            decreases w - k,
        {
            let ghost prev = map@;
            map.push(None);
            assert(map@ == prev.push(None));
            assert(map@ =~= prefix_map(src@, i as int) + seq![Some(i)] + Seq::new(
                k as nat,
                |b: int| None::<usize>,
            ));
            assert(map@[start as int] == prev[start as int]);
            assert forall|b: int| 0 <= b < start implies (#[trigger] map@[b] matches Some(j) ==> 0
                <= j < i && byte_offset(src@, j as int) == b) by {
                assert(map@[b] == prev[b]);
            }
            assert forall|b: int| start < b < map@.len() implies #[trigger] map@[b] is None by {
                if b < prev.len() {
                    assert(map@[b] == prev[b]);
                }
            }
            k = k + 1;
        }
        assert(byte_offset(src@, i + 1) == byte_offset(src@, i as int) + utf8_width(src@[i as int]));
        assert(map@ =~= prefix_map(src@, i + 1));
        i = i + 1;
    }
    map.push(Some(n));
    assert(map@ =~= index_map(src@));
    map
}

/// The char range between two byte offsets, by the map of
/// [`char_index_map`]: both offsets must be in the map, start a char, and
/// come in order.
pub open spec fn span_of(map: Seq<Option<usize>>, start: int, end: int) -> Option<(usize, usize)> {
    if 0 <= start < map.len() && 0 <= end < map.len() {
        match (map[start], map[end]) {
            (Some(a), Some(b)) => if a <= b {
                Some((a, b))
            } else {
                None
            },
            _ => None,
        }
    } else {
        None
    }
}

/// The char range of the text between two byte offsets, when both fall on
/// char boundaries in order.
fn char_span(map: &Vec<Option<usize>>, start: usize, end: usize, Ghost(n): Ghost<int>) -> (r:
    Option<(usize, usize)>)
    requires
        forall|b: int| 0 <= b < map@.len() ==> (#[trigger] map@[b] matches Some(i) ==> 0 <= i <= n),
    ensures
        r == span_of(map@, start as int, end as int),
        r matches Some((a, b)) ==> a <= b <= n,
{
    if start >= map.len() || end >= map.len() {
        return None;
    }
    match (map[start], map[end]) {
        (Some(a), Some(b)) => if a <= b {
            Some((a, b))
        } else {
            None
        },
        _ => None,
    }
}

/// The name the Go grammar gives each field.
pub open spec fn field_label_of(f: FieldName) -> Seq<char> {
    match f {
        FieldName::Body => "body"@,
        FieldName::Receiver => "receiver"@,
        FieldName::Function => "function"@,
        FieldName::Arguments => "arguments"@,
        FieldName::Name => "name"@,
        FieldName::Type => "type"@,
        FieldName::Value => "value"@,
        FieldName::Parameters => "parameters"@,
        FieldName::Condition => "condition"@,
        FieldName::Consequence => "consequence"@,
    }
}

fn field_label(f: FieldName) -> (r: &'static str)
    ensures
        r@ == field_label_of(f),
{
    match f {
        FieldName::Body => "body",
        FieldName::Receiver => "receiver",
        FieldName::Function => "function",
        FieldName::Arguments => "arguments",
        FieldName::Name => "name",
        FieldName::Type => "type",
        FieldName::Value => "value",
        FieldName::Parameters => "parameters",
        FieldName::Condition => "condition",
        FieldName::Consequence => "consequence",
    }
}

/// A node of the arena as tree-sitter reports it.
pub struct NodeShape {
    pub kind: Seq<char>,
    pub named: bool,
    pub start_row: usize,
    pub end_row: usize,
    pub span: Option<(usize, usize)>,
    pub children: Seq<usize>,
    pub fields: FieldSlots,
}

/// The arena node `nd` is the node `s`.
pub open spec fn has_shape(nd: SyntaxNode, s: NodeShape) -> bool {
    &&& nd.kind@ == s.kind
    &&& nd.named == s.named
    &&& nd.start_row == s.start_row
    &&& nd.end_row == s.end_row
    &&& nd.span == s.span
    &&& nd.children@ == s.children
    &&& nd.fields == s.fields
}

/// Children `j` and `k` of the node at `p` start and end at the same bytes
/// and have the same kind.
pub open spec fn same_text(src: Seq<char>, p: Seq<int>, j: int, k: int) -> bool {
    &&& ts_start_byte(src, p.push(j)) == ts_start_byte(src, p.push(k))
    &&& ts_end_byte(src, p.push(j)) == ts_end_byte(src, p.push(k))
    &&& ts_kind(src, p.push(j)) == ts_kind(src, p.push(k))
}

/// The arena index of the first of the children from `j` on that matches
/// child `k` of the node at `p` by [`same_text`]; `idxs` holds the arena
/// indices of the children in order.
pub open spec fn first_same(src: Seq<char>, p: Seq<int>, k: int, idxs: Seq<usize>, j: int) -> Option<
    usize,
>
    decreases idxs.len() - j,
{
    if j < 0 || j >= idxs.len() {
        None
    } else if same_text(src, p, j, k) {
        Some(idxs[j])
    } else {
        first_same(src, p, k, idxs, j + 1)
    }
}

/// The arena node that field `f` of the node at `p` names.
pub open spec fn slot_of(src: Seq<char>, p: Seq<int>, f: FieldName, idxs: Seq<usize>) -> Option<
    usize,
> {
    match ts_field_child(src, p, field_label_of(f)) {
        Some(k) => first_same(src, p, k, idxs, 0),
        None => None,
    }
}

/// The fields of the node at `p`.
pub open spec fn slots_of(src: Seq<char>, p: Seq<int>, idxs: Seq<usize>) -> FieldSlots {
    FieldSlots {
        body: slot_of(src, p, FieldName::Body, idxs),
        receiver: slot_of(src, p, FieldName::Receiver, idxs),
        function: slot_of(src, p, FieldName::Function, idxs),
        arguments: slot_of(src, p, FieldName::Arguments, idxs),
        name: slot_of(src, p, FieldName::Name, idxs),
        type_: slot_of(src, p, FieldName::Type, idxs),
        value: slot_of(src, p, FieldName::Value, idxs),
        parameters: slot_of(src, p, FieldName::Parameters, idxs),
        condition: slot_of(src, p, FieldName::Condition, idxs),
        consequence: slot_of(src, p, FieldName::Consequence, idxs),
    }
}

/// The nodes that copying the node at `p` of the tree for `src` appends to
/// an arena of length `base`, in order: the node itself, then, `fuel`
/// levels down, the copies of its children one after another.
pub open spec fn copy_spec(
    src: Seq<char>,
    map: Seq<Option<usize>>,
    p: Seq<int>,
    fuel: nat,
    base: int,
) -> Seq<NodeShape>
    decreases fuel, 1int, 0int,
{
    let kids = if fuel > 0 {
        copy_children(src, map, p, (fuel - 1) as nat, 0, base + 1)
    } else {
        (Seq::empty(), Seq::empty())
    };
    seq![
        NodeShape {
            kind: ts_kind(src, p),
            named: ts_named(src, p),
            start_row: ts_start_row(src, p),
            end_row: ts_end_row(src, p),
            span: span_of(map, ts_start_byte(src, p) as int, ts_end_byte(src, p) as int),
            children: kids.1,
            fields: slots_of(src, p, kids.1),
        },
    ] + kids.0
}

/// The copies of children `k` on of the node at `p`, appended from arena
/// index `next` on, and their arena indices.
pub open spec fn copy_children(
    src: Seq<char>,
    map: Seq<Option<usize>>,
    p: Seq<int>,
    fuel: nat,
    k: int,
    next: int,
) -> (Seq<NodeShape>, Seq<usize>)
    decreases fuel + 1, 0int, ts_child_count(src, p) - k,
{
    if k < 0 || k >= ts_child_count(src, p) {
        (Seq::empty(), Seq::empty())
    } else {
        let sub = copy_spec(src, map, p.push(k), fuel, next);
        let rest = copy_children(src, map, p, fuel, k + 1, next + sub.len());
        (sub + rest.0, seq![next as usize] + rest.1)
    }
}

/// The nodes of the tree that tree-sitter-go builds for `src`, in the order
/// the arena holds them.
pub open spec fn go_shapes(src: Seq<char>) -> Seq<NodeShape> {
    copy_spec(src, index_map(src), Seq::empty(), ts_descendant_count(src, Seq::empty()) as nat, 0)
}

/// Node `i` of `t` is `shapes[i]`, for every node.
pub open spec fn tree_has_shapes(t: SyntaxTree, shapes: Seq<NodeShape>) -> bool {
    &&& t.nodes@.len() == shapes.len()
    &&& forall|i: int| 0 <= i < shapes.len() ==> has_shape(#[trigger] t.nodes@[i], shapes[i])
}

/// `t` is the tree that tree-sitter-go builds for `src`.
pub open spec fn is_go_tree(t: SyntaxTree, src: Seq<char>) -> bool {
    &&& tree_has_shapes(t, go_shapes(src))
    &&& t.has_error == ts_has_error(src, Seq::empty())
}

/// All nodes of the arena are well formed.
pub open spec fn arena_ok(nodes: Seq<SyntaxNode>, n: int) -> bool {
    forall|i: int| 0 <= i < nodes.len() ==> #[trigger] node_ok(nodes, i, n)
}

proof fn lemma_arena_grows(old_nodes: Seq<SyntaxNode>, nodes: Seq<SyntaxNode>, n: int)
    requires
        arena_ok(old_nodes, n),
        old_nodes.len() <= nodes.len(),
        forall|i: int| 0 <= i < old_nodes.len() ==> nodes[i] == old_nodes[i],
        forall|i: int| old_nodes.len() <= i < nodes.len() ==> #[trigger] node_ok(nodes, i, n),
    ensures
        arena_ok(nodes, n),
{
    assert forall|i: int| 0 <= i < nodes.len() implies #[trigger] node_ok(nodes, i, n) by {
        if i < old_nodes.len() {
            assert(node_ok(old_nodes, i, n));
            assert(nodes[i] == old_nodes[i]);
            let nd = nodes[i];
            assert forall|k: int| 0 <= k < nd.children@.len() implies nodes[nd.children@[k] as int]
                == old_nodes[nd.children@[k] as int] by {
                assert(i < nd.children@[k] < old_nodes.len());
            }
        }
    }
}

proof fn lemma_first_same_in(src: Seq<char>, p: Seq<int>, k: int, idxs: Seq<usize>, j: int)
    requires
        0 <= j,
    ensures
        first_same(src, p, k, idxs, j) matches Some(c) ==> idxs.contains(c),
    decreases idxs.len() - j,
{
    if j < idxs.len() && !same_text(src, p, j, k) {
        lemma_first_same_in(src, p, k, idxs, j + 1);
    }
    if j < idxs.len() && same_text(src, p, j, k) {
        assert(idxs[j] == idxs[j]);
    }
}

proof fn lemma_slots_in(src: Seq<char>, p: Seq<int>, idxs: Seq<usize>)
    ensures
        forall|f: FieldName| #[trigger] slot_of(src, p, f, idxs) matches Some(c) ==> idxs.contains(c),
{
    assert forall|f: FieldName| #[trigger] slot_of(src, p, f, idxs) is Some implies idxs.contains(
        slot_of(src, p, f, idxs)->0,
    ) by {
        if let Some(k) = ts_field_child(src, p, field_label_of(f)) {
            lemma_first_same_in(src, p, k, idxs, 0);
        }
    }
}

/// The arena index of the first child whose bytes and kind are those of
/// the node that field `f` of `node` names.
fn field_slot(
    node: &GoNode,
    f: FieldName,
    starts: &Vec<usize>,
    ends: &Vec<usize>,
    children: &Vec<usize>,
    nodes: &Vec<SyntaxNode>,
) -> (r: Option<usize>)
    requires
        starts@.len() == children@.len(),
        ends@.len() == children@.len(),
        forall|j: int| 0 <= j < children@.len() ==> #[trigger] children@[j] < nodes@.len(),
        forall|j: int|
            0 <= j < children@.len() ==> #[trigger] starts@[j] == ts_start_byte(
                node.source(),
                node.path().push(j),
            ),
        forall|j: int|
            0 <= j < children@.len() ==> #[trigger] ends@[j] == ts_end_byte(
                node.source(),
                node.path().push(j),
            ),
        forall|j: int|
            0 <= j < children@.len() ==> (#[trigger] nodes@[children@[j] as int]).kind@ == ts_kind(
                node.source(),
                node.path().push(j),
            ),
    ensures
        r == slot_of(node.source(), node.path(), f, children@),
{
    let ghost src = node.source();
    let ghost p = node.path();
    let label = field_label(f);
    match node_child_by_field(node, label) {
        None => None,
        Some(c) => {
            let ghost k = ts_field_child(src, p, label@)->0;
            let fs = node_start_byte(&c);
            let fe = node_end_byte(&c);
            let fk = node_kind(&c);
            assert(slot_of(src, p, f, children@) == first_same(src, p, k, children@, 0));
            let mut j: usize = 0;
            while j < children.len()
                invariant
                    j <= children@.len(),
                    starts@.len() == children@.len(),
                    ends@.len() == children@.len(),
                    c.source() == src,
                    c.path() == p.push(k),
                    fs == ts_start_byte(src, p.push(k)),
                    fe == ts_end_byte(src, p.push(k)),
                    fk@ == ts_kind(src, p.push(k)),
                    forall|i: int| 0 <= i < children@.len() ==> #[trigger] children@[i] < nodes@.len(),
                    forall|i: int|
                        0 <= i < children@.len() ==> #[trigger] starts@[i] == ts_start_byte(
                            src,
                            p.push(i),
                        ),
                    forall|i: int|
                        0 <= i < children@.len() ==> #[trigger] ends@[i] == ts_end_byte(
                            src,
                            p.push(i),
                        ),
                    forall|i: int|
                        0 <= i < children@.len() ==> (#[trigger] nodes@[children@[i] as int]).kind@
                            == ts_kind(src, p.push(i)),
                    first_same(src, p, k, children@, 0) == first_same(src, p, k, children@, j as int),
                    slot_of(src, p, f, children@) == first_same(src, p, k, children@, 0),
                    node.source() == src,
                    node.path() == p,
                decreases children@.len() - j,
            {
                let cj = children[j];
                if starts[j] == fs && ends[j] == fe && str_eq(nodes[cj].kind.as_str(), fk.as_str()) {
                    assert(same_text(src, p, j as int, k));
                    assert(first_same(src, p, k, children@, j as int) == Some(cj));
                    return Some(cj);
                }
                assert(!same_text(src, p, j as int, k));
                j = j + 1;
            }
            None
        },
    }
}

/// Copies `node` and, `depth` levels down, the nodes under it into the
/// arena, as [`copy_spec`] says.
fn copy_node(
    node: &GoNode,
    depth: usize,
    map: &Vec<Option<usize>>,
    Ghost(n): Ghost<int>,
    nodes: &mut Vec<SyntaxNode>,
) -> (r: usize)
    requires
        arena_ok(old(nodes)@, n),
        forall|b: int| 0 <= b < map@.len() ==> (#[trigger] map@[b] matches Some(i) ==> 0 <= i <= n),
    ensures
        arena_ok(final(nodes)@, n),
        forall|i: int| 0 <= i < old(nodes)@.len() ==> final(nodes)@[i] == old(nodes)@[i],
        r == old(nodes)@.len(),
        final(nodes)@.len() == old(nodes)@.len() + copy_spec(
            node.source(),
            map@,
            node.path(),
            depth as nat,
            old(nodes)@.len() as int,
        ).len(),
        forall|i: int|
            0 <= i < copy_spec(
                node.source(),
                map@,
                node.path(),
                depth as nat,
                old(nodes)@.len() as int,
            ).len() ==> has_shape(
                #[trigger] final(nodes)@[old(nodes)@.len() + i],
                copy_spec(node.source(), map@, node.path(), depth as nat, old(nodes)@.len() as int)[i],
            ),
    decreases depth,
{
    let ghost src = node.source();
    let ghost p = node.path();
    let start_row = node_start_row(node);
    let end_row = node_end_row(node);
    let span = char_span(map, node_start_byte(node), node_end_byte(node), Ghost(n));
    let idx = nodes.len();
    let ghost before = nodes@;
    let placeholder = SyntaxNode {
        kind: node_kind(node),
        named: node_is_named(node),
        start_row,
        end_row,
        span,
        children: Vec::new(),
        fields: FieldSlots::empty(),
    };
    nodes.push(placeholder);
    proof {
        assert(node_ok(nodes@, idx as int, n));
        lemma_arena_grows(before, nodes@, n);
    }
    let mut children: Vec<usize> = Vec::new();
    let mut starts: Vec<usize> = Vec::new();
    let mut ends: Vec<usize> = Vec::new();
    let ghost mut acc: Seq<NodeShape> = Seq::empty();
    let ghost whole = if depth > 0 {
        copy_children(src, map@, p, (depth - 1) as nat, 0, idx + 1)
    } else {
        (Seq::<NodeShape>::empty(), Seq::<usize>::empty())
    };
    if depth > 0 {
        let count = node_child_count(node);
        let mut k: usize = 0;
        proof {
            let w = copy_children(src, map@, p, (depth - 1) as nat, 0, idx + 1);
            assert(acc + w.0 =~= w.0);
            assert(children@ + w.1 =~= w.1);
        }
        while k < count
            invariant
                node.source() == src,
                node.path() == p,
                count == ts_child_count(src, p),
                depth > 0,
                k <= count,
                start_row == ts_start_row(src, p),
                end_row == ts_end_row(src, p),
                arena_ok(nodes@, n),
                idx == before.len(),
                before == old(nodes)@,
                forall|i: int| 0 <= i < before.len() ==> nodes@[i] == before[i],
                nodes@[idx as int] == placeholder,
                nodes@.len() == idx + 1 + acc.len(),
                forall|i: int|
                    0 <= i < acc.len() ==> has_shape(#[trigger] nodes@[idx + 1 + i], acc[i]),
                whole == copy_children(src, map@, p, (depth - 1) as nat, 0, idx + 1),
                whole.0 == acc + copy_children(
                    src,
                    map@,
                    p,
                    (depth - 1) as nat,
                    k as int,
                    nodes@.len() as int,
                ).0,
                whole.1 == children@ + copy_children(
                    src,
                    map@,
                    p,
                    (depth - 1) as nat,
                    k as int,
                    nodes@.len() as int,
                ).1,
                children@.len() == k,
                starts@.len() == k,
                ends@.len() == k,
                forall|j: int| 0 <= j < k ==> idx < #[trigger] children@[j] < nodes@.len(),
                forall|j: int|
                    0 <= j < k ==> start_row <= (#[trigger] nodes@[children@[j] as int]).start_row
                        && nodes@[children@[j] as int].end_row <= end_row,
                forall|j: int|
                    0 <= j < k ==> (#[trigger] nodes@[children@[j] as int]).kind@ == ts_kind(
                        src,
                        p.push(j),
                    ),
                forall|j: int| 0 <= j < k ==> #[trigger] starts@[j] == ts_start_byte(src, p.push(j)),
                forall|j: int| 0 <= j < k ==> #[trigger] ends@[j] == ts_end_byte(src, p.push(j)),
                forall|b: int| 0 <= b < map@.len() ==> (#[trigger] map@[b] matches Some(i) ==> 0
                    <= i <= n),
            decreases count - k,
        {
            match node_child(node, k) {
                Some(child) => {
                let ghost mid = nodes@;
                let base_len = nodes.len();
                let c = copy_node(&child, depth - 1, map, Ghost(n), nodes);
                let ghost sub = copy_spec(src, map@, p.push(k as int), (depth - 1) as nat, mid.len() as int);
                assert(has_shape(nodes@[mid.len() + 0int], sub[0]));
                assert(c == base_len);
                starts.push(node_start_byte(&child));
                ends.push(node_end_byte(&child));
                let ghost old_children = children@;
                children.push(c);
                proof {
                    assert forall|i: int| 0 <= i < acc.len() + sub.len() implies has_shape(
                        #[trigger] nodes@[idx + 1 + i],
                        (acc + sub)[i],
                    ) by {
                        if i < acc.len() {
                            assert(nodes@[idx + 1 + i] == mid[idx + 1 + i]);
                        } else {
                            assert(nodes@[mid.len() + (i - acc.len())] == nodes@[idx + 1 + i]);
                        }
                    }
                    let rest = copy_children(
                        src,
                        map@,
                        p,
                        (depth - 1) as nat,
                        k + 1,
                        nodes@.len() as int,
                    );
                    assert(acc + (sub + rest.0) =~= (acc + sub) + rest.0);
                    assert(old_children + (seq![c] + rest.1) =~= children@ + rest.1);
                    assert forall|j: int| 0 <= j < k + 1 implies idx < #[trigger] children@[j]
                        < nodes@.len() by {
                        if j < k {
                            assert(children@[j] == old_children[j]);
                        }
                    }
                    assert forall|j: int| 0 <= j < k + 1 implies start_row <= (
                    #[trigger] nodes@[children@[j] as int]).start_row
                        && nodes@[children@[j] as int].end_row <= end_row by {
                        if j < k {
                            assert(children@[j] == old_children[j]);
                            assert(nodes@[old_children[j] as int] == mid[old_children[j] as int]);
                        }
                    }
                    assert forall|j: int| 0 <= j < k + 1 implies (
                    #[trigger] nodes@[children@[j] as int]).kind@ == ts_kind(src, p.push(j)) by {
                        if j < k {
                            assert(children@[j] == old_children[j]);
                            assert(nodes@[old_children[j] as int] == mid[old_children[j] as int]);
                        }
                    }
                    acc = acc + sub;
                }
                },
                None => {
                    proof {
                        assert(false);
                    }
                },
            }
            k = k + 1;
        }
        proof {
            let last = copy_children(
                src,
                map@,
                p,
                (depth - 1) as nat,
                children@.len() as int,
                nodes@.len() as int,
            );
            assert(last.0 =~= Seq::<NodeShape>::empty());
            assert(last.1 =~= Seq::<usize>::empty());
            assert(acc + last.0 =~= acc);
            assert(children@ + last.1 =~= children@);
        }
    }
    let fields = FieldSlots {
        body: field_slot(node, FieldName::Body, &starts, &ends, &children, nodes),
        receiver: field_slot(node, FieldName::Receiver, &starts, &ends, &children, nodes),
        function: field_slot(node, FieldName::Function, &starts, &ends, &children, nodes),
        arguments: field_slot(node, FieldName::Arguments, &starts, &ends, &children, nodes),
        name: field_slot(node, FieldName::Name, &starts, &ends, &children, nodes),
        type_: field_slot(node, FieldName::Type, &starts, &ends, &children, nodes),
        value: field_slot(node, FieldName::Value, &starts, &ends, &children, nodes),
        parameters: field_slot(node, FieldName::Parameters, &starts, &ends, &children, nodes),
        condition: field_slot(node, FieldName::Condition, &starts, &ends, &children, nodes),
        consequence: field_slot(node, FieldName::Consequence, &starts, &ends, &children, nodes),
    };
    let full = SyntaxNode {
        kind: node_kind(node),
        named: node_is_named(node),
        start_row,
        end_row,
        span,
        children,
        fields,
    };
    proof {
        if depth == 0 {
            assert(full.children@ =~= Seq::<usize>::empty());
            assert(acc =~= Seq::<NodeShape>::empty());
        }
        assert(whole.0 == acc && whole.1 == full.children@);
        lemma_slots_in(src, p, full.children@);
    }
    let ghost head = NodeShape {
        kind: ts_kind(src, p),
        named: ts_named(src, p),
        start_row,
        end_row,
        span: span_of(map@, ts_start_byte(src, p) as int, ts_end_byte(src, p) as int),
        children: full.children@,
        fields: slots_of(src, p, full.children@),
    };
    assert(has_shape(full, head));
    assert(copy_spec(src, map@, p, depth as nat, idx as int) == seq![head] + acc);
    let ghost grown = nodes@;
    nodes.set(idx, full);
    proof {
        assert forall|f: FieldName| #[trigger] full.fields.get(f) is Some implies idx
            < full.fields.get(f)->0 < nodes@.len() by {
            assert(full.fields.get(f) == slot_of(src, p, f, full.children@));
            if let Some(c) = full.fields.get(f) {
                let m = choose|m: int| 0 <= m < full.children@.len() && full.children@[m] == c;
                assert(idx < full.children@[m] < nodes@.len());
            }
        }
        assert forall|j: int| 0 <= j < full.children@.len() implies nodes@[full.children@[j] as int]
            == grown[full.children@[j] as int] by {
            assert(idx < full.children@[j]);
        }
        assert(node_ok(nodes@, idx as int, n));
        assert forall|i: int| 0 <= i < nodes@.len() implies #[trigger] node_ok(nodes@, i, n) by {
            if i != idx {
                assert(node_ok(grown, i, n));
                assert(nodes@[i] == grown[i]);
                let nd = nodes@[i];
                if i < idx {
                    assert(node_ok(before, i, n));
                }
                assert forall|k: int| 0 <= k < nd.children@.len() implies nodes@[nd.children@[k] as int]
                    == grown[nd.children@[k] as int] by {
                    if i < idx {
                        assert(nd == before[i]);
                        assert(nd.children@[k] < before.len());
                    }
                }
            }
        }
        assert forall|i: int| 0 <= i < acc.len() implies has_shape(
            #[trigger] nodes@[idx + 1 + i],
            acc[i],
        ) by {
            assert(nodes@[idx + 1 + i] == grown[idx + 1 + i]);
        }
        let sub = seq![head] + acc;
        assert forall|i: int| 0 <= i < sub.len() implies has_shape(
            #[trigger] nodes@[idx + i],
            sub[i],
        ) by {
            if i > 0 {
                assert(nodes@[idx + i] == nodes@[idx + 1 + (i - 1)]);
                assert(sub[i] == acc[i - 1]);
            }
        }
    }
    idx
}

/// Copies the tree under `root` into a [`SyntaxTree`].
fn copy_tree(root: &GoNode, map: &Vec<Option<usize>>, Ghost(n): Ghost<int>) -> (t: SyntaxTree)
    requires
        root.path() == Seq::<int>::empty(),
        forall|b: int| 0 <= b < map@.len() ==> (#[trigger] map@[b] matches Some(i) ==> 0 <= i <= n),
    ensures
        t.wf(n),
        tree_has_shapes(
            t,
            copy_spec(
                root.source(),
                map@,
                Seq::empty(),
                ts_descendant_count(root.source(), Seq::empty()) as nat,
                0,
            ),
        ),
        t.has_error == ts_has_error(root.source(), Seq::empty()),
{
    let mut nodes: Vec<SyntaxNode> = Vec::new();
    let depth = node_descendant_count(root);
    copy_node(root, depth, map, Ghost(n), &mut nodes);
    let t = SyntaxTree { nodes, has_error: node_has_error(root) };
    assert forall|i: int| 0 <= i < t.len() implies #[trigger] t.node_wf(i, n) by {
        assert(node_ok(t.nodes@, i, n));
    }
    proof {
        let shapes = copy_spec(root.source(), map@, Seq::empty(), depth as nat, 0);
        assert forall|i: int| 0 <= i < shapes.len() implies has_shape(#[trigger] t.nodes@[i], shapes[i]) by {
            assert(t.nodes@[0 + i] == t.nodes@[i]);
        }
    }
    t
}

/// Parses a Go file with tree-sitter-go and analyzes the tree it builds.
/// It always succeeds: the result is the analysis of the tree for `source`.
pub fn parse_file(path: &str, source: &str) -> (r: Result<ParsedFile, GoParseError>)
    ensures
        r is Ok,
        r matches Ok(pf) ==> pf.byte_size == source.len() && exists|t: SyntaxTree|
            t.wf(source@.len() as int) && is_go_tree(t, source@) && pf.deep_view()
                == parsed_file_of(path@, source.len(), source@, t),
{
    let mut parser = new_parser();
    if !set_parser_language(&mut parser) {
        return Err(GoParseError::LanguageUnavailable);
    }
    let tree = match parse_source(&mut parser, source) {
        Some(tree) => tree,
        None => {
            return Err(GoParseError::NoTree);
        },
    };
    let src = str_chars(source);
    let map = char_index_map(src.as_slice());
    let root = root_node(&tree);
    let t = copy_tree(&root, &map, Ghost(src@.len() as int));
    let byte_size = source.len();
    let pf = analyze_tree(path, byte_size, src.as_slice(), &t);
    assert(t.wf(source@.len() as int) && is_go_tree(t, source@) && pf.deep_view() == parsed_file_of(
        path@,
        source.len(),
        source@,
        t,
    ));
    Ok(pf)
}

} // verus!
