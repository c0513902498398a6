//! The parts of `tree-sitter` and `tree-sitter-go` that the library calls.
//!
//! tree-sitter-go builds the same tree for the same text.  A node of that
//! tree is named here by the text and by its path from the root: the child
//! indices that `Node::child` is called with, one level after another.  The
//! `ts_*` names below stand for what tree-sitter reports of the node at a
//! path; the wrappers tie each call's result to them.
//!
//! [`GoTree`] and [`GoNode`] carry, beside the tree-sitter value, the text
//! and the path as ghost values.  Their fields are private to this module,
//! so the only trees and nodes that exist are those the wrappers below hand
//! out, and those ghost values are always the text that was parsed and the
//! path by which the node was reached.

use vstd::prelude::*;
use tree_sitter::{Node, Parser, Tree};

verus! {

#[verifier::external_type_specification]
#[verifier::external_body]
pub struct ExParser(tree_sitter::Parser);

#[verifier::external_type_specification]
#[verifier::external_body]
pub struct ExTree(tree_sitter::Tree);

#[verifier::external_type_specification]
#[verifier::external_body]
pub struct ExNode<'tree>(tree_sitter::Node<'tree>);

/// The kind tree-sitter-go gives the node at `path` of the tree for `src`.
pub uninterp spec fn ts_kind(src: Seq<char>, path: Seq<int>) -> Seq<char>;

/// Whether that node is named in the grammar.
pub uninterp spec fn ts_named(src: Seq<char>, path: Seq<int>) -> bool;

/// Whether that node is or holds a syntax error.
pub uninterp spec fn ts_has_error(src: Seq<char>, path: Seq<int>) -> bool;

/// The UTF-8 byte offset at which that node starts.
pub uninterp spec fn ts_start_byte(src: Seq<char>, path: Seq<int>) -> usize;

/// The UTF-8 byte offset at which that node ends.
pub uninterp spec fn ts_end_byte(src: Seq<char>, path: Seq<int>) -> usize;

/// The 0-based row on which that node starts.
pub uninterp spec fn ts_start_row(src: Seq<char>, path: Seq<int>) -> usize;

/// The 0-based row on which that node ends.
pub uninterp spec fn ts_end_row(src: Seq<char>, path: Seq<int>) -> usize;

/// The number of children of that node.
pub uninterp spec fn ts_child_count(src: Seq<char>, path: Seq<int>) -> usize;

/// The number of nodes under that node, itself included.
pub uninterp spec fn ts_descendant_count(src: Seq<char>, path: Seq<int>) -> usize;

/// The index among the children of that node of the child that
/// `child_by_field_name(field)` returns, if it returns one.
pub uninterp spec fn ts_field_child(src: Seq<char>, path: Seq<int>, field: Seq<char>) -> Option<
    int,
>;

/// A parser, and whether the Go grammar has been set on it.
pub struct GoParser {
    parser: Parser,
    ready: Ghost<bool>,
}

impl GoParser {
    /// The Go grammar has been set on this parser.
    pub closed spec fn has_go(&self) -> bool {
        self.ready@
    }
}

/// A tree that tree-sitter-go built, and the text it was built for.
pub struct GoTree {
    tree: Tree,
    src: Ghost<Seq<char>>,
}

impl GoTree {
    /// The text that was parsed.
    pub closed spec fn source(&self) -> Seq<char> {
        self.src@
    }
}

/// A node of a [`GoTree`], with the text of the tree and the node's path.
pub struct GoNode<'t> {
    node: Node<'t>,
    src: Ghost<Seq<char>>,
    path: Ghost<Seq<int>>,
}

impl<'t> GoNode<'t> {
    /// The text of the tree that the node belongs to.
    pub closed spec fn source(&self) -> Seq<char> {
        self.src@
    }

    /// The child indices that lead from the root to the node.
    pub closed spec fn path(&self) -> Seq<int> {
        self.path@
    }
}

/// `Parser::new`: a parser without a grammar.
#[verifier::external_body]
pub(crate) fn new_parser() -> (r: GoParser)
    ensures
        !r.has_go(),
{
    GoParser { parser: Parser::new(), ready: Ghost(false) }
}

/// `Parser::set_language` with `tree_sitter_go::LANGUAGE`.  It returns `Ok`
/// whenever the grammar's ABI version lies between
/// `MIN_COMPATIBLE_LANGUAGE_VERSION` and `LANGUAGE_VERSION` (13 and 15 in
/// the tree-sitter that is used), and the Go grammar's is 14; so the result
/// is `true` and the parser has the Go grammar afterwards.
#[verifier::external_body]
pub(crate) fn set_parser_language(parser: &mut GoParser) -> (r: bool)
    ensures
        r,
        final(parser).has_go(),
{
    let ok = parser.parser.set_language(&tree_sitter_go::LANGUAGE.into()).is_ok();
    parser.ready = Ghost(ok);
    ok
}

/// `Parser::parse` of the whole text, with no earlier tree.  It returns no
/// tree only when no grammar is set, or when a timeout or a cancellation
/// flag (neither of which is ever set here) stops it; the tree is the one
/// for `source`.
#[verifier::external_body]
pub(crate) fn parse_source(parser: &mut GoParser, source: &str) -> (r: Option<GoTree>)
    ensures
        final(parser).has_go() == old(parser).has_go(),
        old(parser).has_go() ==> r is Some,
        r matches Some(t) ==> t.source() == source@,
{
    match parser.parser.parse(source, None) {
        Some(tree) => Some(GoTree { tree, src: Ghost(source@) }),
        None => None,
    }
}

/// `Tree::root_node`: the node at the empty path.
#[verifier::external_body]
pub(crate) fn root_node(tree: &GoTree) -> (r: GoNode<'_>)
    ensures
        r.source() == tree.source(),
        r.path() == Seq::<int>::empty(),
{
    GoNode { node: tree.tree.root_node(), src: Ghost(tree.src@), path: Ghost(Seq::empty()) }
}

/// `Node::kind`, copied into a `String`.
#[verifier::external_body]
pub(crate) fn node_kind(node: &GoNode) -> (r: String)
    ensures
        r@ == ts_kind(node.source(), node.path()),
{
    node.node.kind().to_string()
}

/// `Node::is_named`.
#[verifier::external_body]
pub(crate) fn node_is_named(node: &GoNode) -> (r: bool)
    ensures
        r == ts_named(node.source(), node.path()),
{
    node.node.is_named()
}

/// `Node::has_error`.
#[verifier::external_body]
pub(crate) fn node_has_error(node: &GoNode) -> (r: bool)
    ensures
        r == ts_has_error(node.source(), node.path()),
{
    node.node.has_error()
}

/// `Node::start_byte`.
#[verifier::external_body]
pub(crate) fn node_start_byte(node: &GoNode) -> (r: usize)
    ensures
        r == ts_start_byte(node.source(), node.path()),
{
    node.node.start_byte()
}

/// `Node::end_byte`.
#[verifier::external_body]
pub(crate) fn node_end_byte(node: &GoNode) -> (r: usize)
    ensures
        r == ts_end_byte(node.source(), node.path()),
{
    node.node.end_byte()
}

/// The row of `Node::start_position`.  tree-sitter counts rows by the line
/// feeds of the text before the point, so a row is below the text's length
/// in bytes, which a `str` keeps within `isize::MAX`; and a node starts no
/// later than it ends.
#[verifier::external_body]
pub(crate) fn node_start_row(node: &GoNode) -> (r: usize)
    ensures
        r == ts_start_row(node.source(), node.path()),
        r < usize::MAX,
        r <= ts_end_row(node.source(), node.path()),
{
    node.node.start_position().row
}

/// The row of `Node::end_position`: below `usize::MAX` for the reason given
/// at [`node_start_row`], and no earlier than the row the node starts on.
#[verifier::external_body]
pub(crate) fn node_end_row(node: &GoNode) -> (r: usize)
    ensures
        r == ts_end_row(node.source(), node.path()),
        r < usize::MAX,
        ts_start_row(node.source(), node.path()) <= r,
{
    node.node.end_position().row
}

/// `Node::child_count`.
#[verifier::external_body]
pub(crate) fn node_child_count(node: &GoNode) -> (r: usize)
    ensures
        r == ts_child_count(node.source(), node.path()),
{
    node.node.child_count()
}

/// `Node::child`: below the child count it returns the child, which is the
/// node at the path one index longer.  A tree-sitter node spans the text of
/// its children, so the child starts no earlier than the row its parent
/// starts on and ends no later than the row its parent ends on.
#[verifier::external_body]
pub(crate) fn node_child<'t>(node: &GoNode<'t>, i: usize) -> (r: Option<GoNode<'t>>)
    ensures
        i < ts_child_count(node.source(), node.path()) ==> r is Some,
        r matches Some(c) ==> c.source() == node.source() && c.path() == node.path().push(
            i as int,
        ),
        r matches Some(c) ==> ts_start_row(node.source(), node.path()) <= ts_start_row(
            c.source(),
            c.path(),
        ) && ts_end_row(c.source(), c.path()) <= ts_end_row(node.source(), node.path()),
{
    match node.node.child(i) {
        Some(child) => Some(
            GoNode { node: child, src: Ghost(node.src@), path: Ghost(node.path@.push(i as int)) },
        ),
        None => None,
    }
}

/// `Node::child_by_field_name`.  What it returns is one of the node's
/// children (a visible child, or the first visible node under a hidden
/// one, which `Node::child` counts among the children too).
#[verifier::external_body]
pub(crate) fn node_child_by_field<'t>(node: &GoNode<'t>, field: &str) -> (r: Option<GoNode<'t>>)
    ensures
        r is Some <==> ts_field_child(node.source(), node.path(), field@) is Some,
        r matches Some(c) ==> c.source() == node.source() && c.path() == node.path().push(
            ts_field_child(node.source(), node.path(), field@)->0,
        ),
{
    match node.node.child_by_field_name(field) {
        Some(child) => Some(
            GoNode {
                node: child,
                src: Ghost(node.src@),
                path: Ghost(node.path@.push(ts_field_child(node.src@, node.path@, field@)->0)),
            },
        ),
        None => None,
    }
}

/// `Node::descendant_count`: the node and all nodes under it.
#[verifier::external_body]
pub(crate) fn node_descendant_count(node: &GoNode) -> (r: usize)
    ensures
        r == ts_descendant_count(node.source(), node.path()),
{
    node.node.descendant_count()
}

} // verus!
