//! The syntax tree that the analyzers read.
//!
//! A tree is an arena of nodes in which every child, and every node that a
//! field names, comes after its parent.  Node 0 is the root.  Each node keeps
//! its kind, whether the grammar names it, the rows it starts and ends on, and
//! the range of the source text (in chars) that it covers when that range is
//! known.

use vstd::prelude::*;
use crate::text::{chars_eq, str_chars};

verus! {

/// `str == str`, by their chars.
pub(crate) fn str_eq(a: &str, b: &str) -> (r: bool)
    ensures
        r == (a@ == b@),
{
    let x = str_chars(a);
    let y = str_chars(b);
    chars_eq(x.as_slice(), y.as_slice())
}

/// The grammar fields that the analyzers look up.
#[derive(Clone, Copy, PartialEq, Eq, Structural, Debug)]
pub enum FieldName {
    Body,
    Receiver,
    Function,
    Arguments,
    Name,
    Type,
    Value,
    Parameters,
    Condition,
    Consequence,
}

/// For each field, the node that the grammar binds to it, if any.
#[derive(Clone, Copy, Debug)]
pub struct FieldSlots {
    pub body: Option<usize>,
    pub receiver: Option<usize>,
    pub function: Option<usize>,
    pub arguments: Option<usize>,
    pub name: Option<usize>,
    pub type_: Option<usize>,
    pub value: Option<usize>,
    pub parameters: Option<usize>,
    pub condition: Option<usize>,
    pub consequence: Option<usize>,
}

impl FieldSlots {
    pub open spec fn get(self, f: FieldName) -> Option<usize> {
        match f {
            FieldName::Body => self.body,
            FieldName::Receiver => self.receiver,
            FieldName::Function => self.function,
            FieldName::Arguments => self.arguments,
            FieldName::Name => self.name,
            FieldName::Type => self.type_,
            FieldName::Value => self.value,
            FieldName::Parameters => self.parameters,
            FieldName::Condition => self.condition,
            FieldName::Consequence => self.consequence,
        }
    }

    pub fn lookup(&self, f: FieldName) -> (r: Option<usize>)
        ensures
            r == self.get(f),
    {
        match f {
            FieldName::Body => self.body,
            FieldName::Receiver => self.receiver,
            FieldName::Function => self.function,
            FieldName::Arguments => self.arguments,
            FieldName::Name => self.name,
            FieldName::Type => self.type_,
            FieldName::Value => self.value,
            FieldName::Parameters => self.parameters,
            FieldName::Condition => self.condition,
            FieldName::Consequence => self.consequence,
        }
    }

    pub fn empty() -> (r: FieldSlots)
        ensures
            forall|f: FieldName| r.get(f) is None,
    {
        FieldSlots {
            body: None,
            receiver: None,
            function: None,
            arguments: None,
            name: None,
            type_: None,
            value: None,
            parameters: None,
            condition: None,
            consequence: None,
        }
    }
}

pub struct SyntaxNode {
    pub kind: String,
    pub named: bool,
    pub start_row: usize,
    pub end_row: usize,
    /// The char range of the node's text, when its byte range falls on char
    /// boundaries of the source.
    pub span: Option<(usize, usize)>,
    pub children: Vec<usize>,
    pub fields: FieldSlots,
}

/// Node `i` of the arena `nodes` is well formed in a source of `n` chars:
/// its children and the nodes its fields name come after it, its children
/// start and end within the rows it starts and ends on, it does not end on
/// a row before the one it starts on, its text range lies in the source, and
/// its rows leave room for 1-based line numbers.
pub open spec fn node_ok(nodes: Seq<SyntaxNode>, i: int, n: int) -> bool {
    let nd = nodes[i];
    &&& forall|k: int| #![trigger nd.children@[k]]
        0 <= k < nd.children@.len() ==> i < nd.children@[k] < nodes.len()
    &&& forall|k: int| #![trigger nd.children@[k]]
        0 <= k < nd.children@.len() ==> nd.start_row <= nodes[nd.children@[k] as int].start_row
            && nodes[nd.children@[k] as int].end_row <= nd.end_row
    &&& forall|f: FieldName| #[trigger] nd.fields.get(f) matches Some(c) ==> i < c < nodes.len()
    &&& nd.span matches Some((a, b)) ==> a <= b <= n
    &&& nd.start_row <= nd.end_row
    &&& nd.start_row < usize::MAX
    &&& nd.end_row < usize::MAX
}

pub struct SyntaxTree {
    pub nodes: Vec<SyntaxNode>,
    pub has_error: bool,
}

impl SyntaxTree {
    pub open spec fn len(self) -> int {
        self.nodes@.len() as int
    }

    pub open spec fn node(self, i: int) -> SyntaxNode {
        self.nodes@[i]
    }

    /// Node `i` is well formed in a source of `n` chars.
    pub open spec fn node_wf(self, i: int, n: int) -> bool {
        node_ok(self.nodes@, i, n)
    }

    pub open spec fn wf(self, n: int) -> bool {
        &&& self.len() > 0
        &&& forall|i: int| 0 <= i < self.len() ==> #[trigger] self.node_wf(i, n)
    }

    pub open spec fn kind_is(self, i: int, k: Seq<char>) -> bool {
        self.nodes@[i].kind@ == k
    }

    /// The text that node `i` covers, when it is known.
    pub open spec fn text(self, src: Seq<char>, i: int) -> Option<Seq<char>> {
        match self.nodes@[i].span {
            Some((a, b)) => Some(src.subrange(a as int, b as int)),
            None => None,
        }
    }

    /// The node bound to field `f` of node `i`.
    pub open spec fn field(self, i: int, f: FieldName) -> Option<usize> {
        self.nodes@[i].fields.get(f)
    }

    /// The 1-based line on which node `i` starts.
    pub open spec fn line(self, i: int) -> usize {
        (self.nodes@[i].start_row + 1) as usize
    }

    pub fn kind_eq(&self, i: usize, k: &str) -> (r: bool)
        requires
            i < self.nodes@.len(),
        ensures
            r == self.kind_is(i as int, k@),
    {
        str_eq(self.nodes[i].kind.as_str(), k)
    }

    pub fn line_of(&self, i: usize, Ghost(n): Ghost<int>) -> (r: usize)
        requires
            i < self.nodes@.len(),
            self.wf(n),
        ensures
            r == self.line(i as int),
    {
        proof {
            assert(self.node_wf(i as int, n));
        }
        self.nodes[i].start_row + 1
    }

    pub fn field_of(&self, i: usize, f: FieldName, Ghost(n): Ghost<int>) -> (r: Option<usize>)
        requires
            i < self.nodes@.len(),
            self.wf(n),
        ensures
            r == self.field(i as int, f),
            r matches Some(c) ==> i < c < self.len(),
    {
        proof {
            assert(self.node_wf(i as int, n));
        }
        self.nodes[i].fields.lookup(f)
    }

    /// The text of node `i`, copied out of the source.
    pub fn text_of(&self, src: &[char], i: usize) -> (r: Option<Vec<char>>)
        requires
            i < self.nodes@.len(),
            self.wf(src@.len() as int),
        ensures
            match r {
                Some(v) => self.text(src@, i as int) == Some(v@),
                None => self.text(src@, i as int) is None,
            },
    {
        proof {
            assert(self.node_wf(i as int, src@.len() as int));
        }
        match self.nodes[i].span {
            Some((a, b)) => Some(
                vstd::slice::slice_to_vec(vstd::slice::slice_subrange(src, a, b)),
            ),
            None => None,
        }
    }
}

/// Where a node stands: inside a loop or not, and the nearest enclosing
/// function body or file.
#[derive(Clone, Copy, PartialEq, Eq, Structural, Debug)]
pub enum Scope {
    Unknown,
    Package,
    Function,
}

#[derive(Clone, Copy, Debug)]
pub struct Ctx {
    pub in_loop: bool,
    pub scope: Scope,
}

pub open spec fn opens_function(t: SyntaxTree, i: int) -> bool {
    t.kind_is(i, "function_declaration"@) || t.kind_is(i, "method_declaration"@) || t.kind_is(
        i,
        "func_literal"@,
    )
}

/// The context that the children of node `i` see.
pub open spec fn step(t: SyntaxTree, i: int, ctx: Ctx) -> Ctx {
    Ctx {
        in_loop: ctx.in_loop || t.kind_is(i, "for_statement"@),
        scope: if opens_function(t, i) {
            Scope::Function
        } else if t.kind_is(i, "source_file"@) {
            Scope::Package
        } else {
            ctx.scope
        },
    }
}

pub fn step_exec(t: &SyntaxTree, i: usize, ctx: Ctx) -> (r: Ctx)
    requires
        i < t.nodes@.len(),
    ensures
        r == step(*t, i as int, ctx),
{
    let in_loop = ctx.in_loop || t.kind_eq(i, "for_statement");
    let scope = if t.kind_eq(i, "function_declaration") || t.kind_eq(i, "method_declaration")
        || t.kind_eq(i, "func_literal") {
        Scope::Function
    } else if t.kind_eq(i, "source_file") {
        Scope::Package
    } else {
        ctx.scope
    };
    Ctx { in_loop, scope }
}

/// What a traversal gathers at each node.  `Param` is the mathematical
/// value of whatever the collector carries.
pub trait Collector {
    type Item: DeepView;

    type Param;

    spec fn param(&self) -> Self::Param;

    /// What node `i`, seen in context `ctx`, contributes.
    spec fn own_items(p: Self::Param, t: SyntaxTree, src: Seq<char>, i: int, ctx: Ctx) -> Seq<
        <Self::Item as DeepView>::V,
    >;

    /// Whether the traversal goes on into the children of node `i`.
    spec fn descends(p: Self::Param, t: SyntaxTree, src: Seq<char>, i: int) -> bool;

    fn collect_own(
        &self,
        t: &SyntaxTree,
        src: &[char],
        i: usize,
        ctx: Ctx,
        out: &mut Vec<Self::Item>,
    )
        requires
            t.wf(src@.len() as int),
            i < t.nodes@.len(),
        ensures
            final(out).deep_view() == old(out).deep_view() + Self::own_items(
                self.param(),
                *t,
                src@,
                i as int,
                ctx,
            ),
    ;

    fn descend(&self, t: &SyntaxTree, src: &[char], i: usize) -> (r: bool)
        requires
            t.wf(src@.len() as int),
            i < t.nodes@.len(),
        ensures
            r == Self::descends(self.param(), *t, src@, i as int),
    ;
}

/// Pre-order traversal of the named nodes under node `i` (itself included).
pub open spec fn walk<C: Collector>(
    p: C::Param,
    t: SyntaxTree,
    src: Seq<char>,
    i: int,
    ctx: Ctx,
) -> Seq<<C::Item as DeepView>::V>
    decreases t.len() - i, t.nodes@[i].children@.len() + 1,
{
    if 0 <= i < t.len() {
        C::own_items(p, t, src, i, ctx) + if C::descends(p, t, src, i) {
            walk_children::<C>(p, t, src, i, 0, step(t, i, ctx))
        } else {
            Seq::empty()
        }
    } else {
        Seq::empty()
    }
}

/// The traversal of the named children of node `i` from the `k`-th child on.
pub open spec fn walk_children<C: Collector>(
    p: C::Param,
    t: SyntaxTree,
    src: Seq<char>,
    i: int,
    k: int,
    ctx: Ctx,
) -> Seq<<C::Item as DeepView>::V>
    decreases t.len() - i, t.nodes@[i].children@.len() - k,
{
    if 0 <= i < t.len() && 0 <= k < t.nodes@[i].children@.len() {
        let ch = t.nodes@[i].children@[k] as int;
        (if i < ch < t.len() && t.nodes@[ch].named {
            walk::<C>(p, t, src, ch, ctx)
        } else {
            Seq::empty()
        }) + walk_children::<C>(p, t, src, i, k + 1, ctx)
    } else {
        Seq::empty()
    }
}

pub fn walk_exec<C: Collector>(
    c: &C,
    t: &SyntaxTree,
    src: &[char],
    i: usize,
    ctx: Ctx,
    out: &mut Vec<C::Item>,
)
    requires
        t.wf(src@.len() as int),
        i < t.nodes@.len(),
    ensures
        final(out).deep_view() == old(out).deep_view() + walk::<C>(
            c.param(),
            *t,
            src@,
            i as int,
            ctx,
        ),
    decreases t.nodes@.len() - i,
{
    let ghost start = old(out).deep_view();
    let ghost p = c.param();
    c.collect_own(t, src, i, ctx, out);
    if c.descend(t, src, i) {
        let next = step_exec(t, i, ctx);
        let n = t.nodes[i].children.len();
        let mut k: usize = 0;
        proof {
            assert(t.node_wf(i as int, src@.len() as int));
        }
        while k < n
            invariant
                t.wf(src@.len() as int),
                i < t.nodes@.len(),
                n == t.nodes@[i as int].children@.len(),
                k <= n,
                p == c.param(),
                next == step(*t, i as int, ctx),
                C::descends(p, *t, src@, i as int),
                start + walk::<C>(p, *t, src@, i as int, ctx) == out.deep_view()
                    + walk_children::<C>(p, *t, src@, i as int, k as int, next),
            decreases n - k,
        {
            proof {
                assert(t.node_wf(i as int, src@.len() as int));
            }
            let ch = t.nodes[i].children[k];
            let ghost before = out.deep_view();
            let ghost rest = walk_children::<C>(p, *t, src@, i as int, k + 1, next);
            if t.nodes[ch].named {
                walk_exec(c, t, src, ch, next, out);
                assert(before + walk::<C>(p, *t, src@, ch as int, next) + rest =~= before + (walk::<
                    C,
                >(p, *t, src@, ch as int, next) + rest));
            } else {
                assert(Seq::<<C::Item as DeepView>::V>::empty() + rest =~= rest);
            }
            k = k + 1;
        }
        assert(walk_children::<C>(p, *t, src@, i as int, n as int, next) =~= Seq::empty());
        assert(out.deep_view() + Seq::<<C::Item as DeepView>::V>::empty() =~= out.deep_view());
    } else {
        assert(C::own_items(p, *t, src@, i as int, ctx) + Seq::<<C::Item as DeepView>::V>::empty()
            =~= C::own_items(p, *t, src@, i as int, ctx));
    }
}

/// When every item that any node contributes satisfies `pred`, every item
/// of a traversal does.
pub proof fn lemma_walk_all<C: Collector>(
    p: C::Param,
    t: SyntaxTree,
    src: Seq<char>,
    i: int,
    ctx: Ctx,
    pred: spec_fn(<C::Item as DeepView>::V) -> bool,
)
    requires
        forall|j: int, c: Ctx, k: int|
            0 <= k < C::own_items(p, t, src, j, c).len() ==> pred(
                #[trigger] C::own_items(p, t, src, j, c)[k],
            ),
    ensures
        forall|k: int|
            0 <= k < walk::<C>(p, t, src, i, ctx).len() ==> pred(
                #[trigger] walk::<C>(p, t, src, i, ctx)[k],
            ),
    decreases t.len() - i, t.nodes@[i].children@.len() + 1,
{
    if 0 <= i < t.len() {
        let own = C::own_items(p, t, src, i, ctx);
        if C::descends(p, t, src, i) {
            lemma_walk_children_all::<C>(p, t, src, i, 0, step(t, i, ctx), pred);
            let kids = walk_children::<C>(p, t, src, i, 0, step(t, i, ctx));
            assert forall|k: int| 0 <= k < (own + kids).len() implies pred(
                #[trigger] (own + kids)[k],
            ) by {
                if k < own.len() {
                    assert((own + kids)[k] == own[k]);
                } else {
                    assert((own + kids)[k] == kids[k - own.len()]);
                }
            }
        } else {
            assert(own + Seq::<<C::Item as DeepView>::V>::empty() =~= own);
        }
    }
}

pub proof fn lemma_walk_children_all<C: Collector>(
    p: C::Param,
    t: SyntaxTree,
    src: Seq<char>,
    i: int,
    k: int,
    ctx: Ctx,
    pred: spec_fn(<C::Item as DeepView>::V) -> bool,
)
    requires
        forall|j: int, c: Ctx, m: int|
            0 <= m < C::own_items(p, t, src, j, c).len() ==> pred(
                #[trigger] C::own_items(p, t, src, j, c)[m],
            ),
    ensures
        forall|m: int|
            0 <= m < walk_children::<C>(p, t, src, i, k, ctx).len() ==> pred(
                #[trigger] walk_children::<C>(p, t, src, i, k, ctx)[m],
            ),
    decreases t.len() - i, t.nodes@[i].children@.len() - k,
{
    if 0 <= i < t.len() && 0 <= k < t.nodes@[i].children@.len() {
        let ch = t.nodes@[i].children@[k] as int;
        let head = if i < ch < t.len() && t.nodes@[ch].named {
            lemma_walk_all::<C>(p, t, src, ch, ctx, pred);
            walk::<C>(p, t, src, ch, ctx)
        } else {
            Seq::empty()
        };
        lemma_walk_children_all::<C>(p, t, src, i, k + 1, ctx, pred);
        let rest = walk_children::<C>(p, t, src, i, k + 1, ctx);
        assert forall|m: int| 0 <= m < (head + rest).len() implies pred(
            #[trigger] (head + rest)[m],
        ) by {
            if m < head.len() {
                assert((head + rest)[m] == head[m]);
            } else {
                assert((head + rest)[m] == rest[m - head.len()]);
            }
        }
    }
}

/// When each node contributes only items on its own first line, every item
/// of the traversal under node `i` lies within the lines of node `i`.
pub proof fn lemma_walk_within_rows<C: Collector>(
    p: C::Param,
    t: SyntaxTree,
    src: Seq<char>,
    i: int,
    ctx: Ctx,
    n: int,
    line: spec_fn(<C::Item as DeepView>::V) -> int,
)
    requires
        t.wf(n),
        0 <= i < t.len(),
        forall|j: int, c: Ctx, m: int|
            0 <= j < t.len() && 0 <= m < C::own_items(p, t, src, j, c).len() ==> line(
                #[trigger] C::own_items(p, t, src, j, c)[m],
            ) == t.line(j),
    ensures
        forall|m: int|
            0 <= m < walk::<C>(p, t, src, i, ctx).len() ==> t.nodes@[i].start_row + 1 <= line(
                #[trigger] walk::<C>(p, t, src, i, ctx)[m],
            ) <= t.nodes@[i].end_row + 1,
    decreases t.len() - i, t.nodes@[i].children@.len() + 1,
{
    assert(t.node_wf(i, n));
    let own = C::own_items(p, t, src, i, ctx);
    let kids = if C::descends(p, t, src, i) {
        lemma_walk_children_within_rows::<C>(p, t, src, i, 0, step(t, i, ctx), n, line);
        walk_children::<C>(p, t, src, i, 0, step(t, i, ctx))
    } else {
        Seq::empty()
    };
    assert(walk::<C>(p, t, src, i, ctx) == own + kids);
    assert forall|m: int| 0 <= m < (own + kids).len() implies t.nodes@[i].start_row + 1 <= line(
        #[trigger] (own + kids)[m],
    ) <= t.nodes@[i].end_row + 1 by {
        if m < own.len() {
            assert((own + kids)[m] == own[m]);
        } else {
            assert((own + kids)[m] == kids[m - own.len()]);
        }
    }
}

pub proof fn lemma_walk_children_within_rows<C: Collector>(
    p: C::Param,
    t: SyntaxTree,
    src: Seq<char>,
    i: int,
    k: int,
    ctx: Ctx,
    n: int,
    line: spec_fn(<C::Item as DeepView>::V) -> int,
)
    requires
        t.wf(n),
        0 <= i < t.len(),
        0 <= k,
        forall|j: int, c: Ctx, m: int|
            0 <= j < t.len() && 0 <= m < C::own_items(p, t, src, j, c).len() ==> line(
                #[trigger] C::own_items(p, t, src, j, c)[m],
            ) == t.line(j),
    ensures
        forall|m: int|
            0 <= m < walk_children::<C>(p, t, src, i, k, ctx).len() ==> t.nodes@[i].start_row + 1
                <= line(#[trigger] walk_children::<C>(p, t, src, i, k, ctx)[m])
                <= t.nodes@[i].end_row + 1,
    decreases t.len() - i, t.nodes@[i].children@.len() - k,
{
    if k < t.nodes@[i].children@.len() {
        assert(t.node_wf(i, n));
        let ch = t.nodes@[i].children@[k] as int;
        assert(i < ch < t.len());
        let head = if t.nodes@[ch].named {
            lemma_walk_within_rows::<C>(p, t, src, ch, ctx, n, line);
            walk::<C>(p, t, src, ch, ctx)
        } else {
            Seq::empty()
        };
        lemma_walk_children_within_rows::<C>(p, t, src, i, k + 1, ctx, n, line);
        let rest = walk_children::<C>(p, t, src, i, k + 1, ctx);
        assert(walk_children::<C>(p, t, src, i, k, ctx) == head + rest);
        assert forall|m: int| 0 <= m < (head + rest).len() implies t.nodes@[i].start_row + 1 <= line(
            #[trigger] (head + rest)[m],
        ) <= t.nodes@[i].end_row + 1 by {
            if m < head.len() {
                assert((head + rest)[m] == head[m]);
            } else {
                assert((head + rest)[m] == rest[m - head.len()]);
            }
        }
    }
}

/// Node `c` is a named child of node `a`, one that the traversal enters.
pub open spec fn named_child(t: SyntaxTree, a: int, c: int) -> bool {
    &&& 0 <= a < c < t.len()
    &&& t.nodes@[c].named
    &&& exists|k: int| 0 <= k < t.nodes@[a].children@.len() && t.nodes@[a].children@[k] == c
}

/// `path` runs from its first node down to its last through named children.
pub open spec fn named_path(t: SyntaxTree, path: Seq<int>) -> bool {
    &&& path.len() >= 1
    &&& 0 <= path[0] < t.len()
    &&& forall|m: int| 0 <= m < path.len() - 1 ==> named_child(t, #[trigger] path[m], path[m + 1])
}

proof fn lemma_walk_children_reaches<C: Collector>(
    p: C::Param,
    t: SyntaxTree,
    src: Seq<char>,
    a: int,
    k: int,
    kc: int,
    ctx: Ctx,
    x: <C::Item as DeepView>::V,
)
    requires
        0 <= a < t.len(),
        0 <= k <= kc < t.nodes@[a].children@.len(),
        a < t.nodes@[a].children@[kc] < t.len(),
        t.nodes@[t.nodes@[a].children@[kc] as int].named,
        walk::<C>(p, t, src, t.nodes@[a].children@[kc] as int, ctx).contains(x),
    ensures
        walk_children::<C>(p, t, src, a, k, ctx).contains(x),
    decreases kc - k,
{
    let ch = t.nodes@[a].children@[k] as int;
    let head = if a < ch < t.len() && t.nodes@[ch].named {
        walk::<C>(p, t, src, ch, ctx)
    } else {
        Seq::empty()
    };
    let rest = walk_children::<C>(p, t, src, a, k + 1, ctx);
    assert(walk_children::<C>(p, t, src, a, k, ctx) == head + rest);
    if k == kc {
        let m = choose|m: int| 0 <= m < head.len() && head[m] == x;
        assert((head + rest)[m] == x);
    } else {
        lemma_walk_children_reaches::<C>(p, t, src, a, k + 1, kc, ctx, x);
        let m = choose|m: int| 0 <= m < rest.len() && rest[m] == x;
        assert((head + rest)[head.len() + m] == x);
    }
}

/// The traversal from the first node of a named path takes in what the
/// path's last node contributes, when the traversal enters every node and
/// that node contributes `x` in any context.
pub proof fn lemma_walk_reaches<C: Collector>(
    p: C::Param,
    t: SyntaxTree,
    src: Seq<char>,
    path: Seq<int>,
    ctx: Ctx,
    x: <C::Item as DeepView>::V,
)
    requires
        named_path(t, path),
        forall|j: int| 0 <= j < t.len() ==> #[trigger] C::descends(p, t, src, j),
        forall|c: Ctx| #[trigger] C::own_items(p, t, src, path.last(), c).contains(x),
    ensures
        walk::<C>(p, t, src, path[0], ctx).contains(x),
    decreases path.len(),
{
    let a = path[0];
    let own = C::own_items(p, t, src, a, ctx);
    if path.len() == 1 {
        assert(path.last() == a);
        assert(C::own_items(p, t, src, path.last(), ctx).contains(x));
        assert(own.contains(x));
        let m = choose|m: int| 0 <= m < own.len() && own[m] == x;
        let kids = walk_children::<C>(p, t, src, a, 0, step(t, a, ctx));
        assert(C::descends(p, t, src, a));
        assert(walk::<C>(p, t, src, a, ctx) == own + kids);
        assert((own + kids)[m] == x);
    } else {
        let rest = path.drop_first();
        assert forall|m: int| 0 <= m < rest.len() - 1 implies named_child(
            t,
            #[trigger] rest[m],
            rest[m + 1],
        ) by {
            assert(named_child(t, path[m + 1], path[m + 2]));
        }
        assert(named_child(t, path[0], path[1]));
        assert(rest.last() == path.last());
        let c2 = step(t, a, ctx);
        lemma_walk_reaches::<C>(p, t, src, rest, c2, x);
        let kc = choose|k: int|
            0 <= k < t.nodes@[a].children@.len() && t.nodes@[a].children@[k] == path[1];
        lemma_walk_children_reaches::<C>(p, t, src, a, 0, kc, c2, x);
        let kids = walk_children::<C>(p, t, src, a, 0, c2);
        assert(C::descends(p, t, src, a));
        assert(walk::<C>(p, t, src, a, ctx) == own + kids);
        let m = choose|m: int| 0 <= m < kids.len() && kids[m] == x;
        assert((own + kids)[own.len() + m] == x);
    }
}

proof fn lemma_walk_children_reaches_pred<C: Collector>(
    p: C::Param,
    t: SyntaxTree,
    src: Seq<char>,
    a: int,
    k: int,
    kc: int,
    ctx: Ctx,
    pred: spec_fn(<C::Item as DeepView>::V) -> bool,
)
    requires
        0 <= a < t.len(),
        0 <= k <= kc < t.nodes@[a].children@.len(),
        a < t.nodes@[a].children@[kc] < t.len(),
        t.nodes@[t.nodes@[a].children@[kc] as int].named,
        exists|m: int|
            0 <= m < walk::<C>(p, t, src, t.nodes@[a].children@[kc] as int, ctx).len() && pred(
                #[trigger] walk::<C>(p, t, src, t.nodes@[a].children@[kc] as int, ctx)[m],
            ),
    ensures
        exists|m: int|
            0 <= m < walk_children::<C>(p, t, src, a, k, ctx).len() && pred(
                #[trigger] walk_children::<C>(p, t, src, a, k, ctx)[m],
            ),
    decreases kc - k,
{
    let ch = t.nodes@[a].children@[k] as int;
    let head = if a < ch < t.len() && t.nodes@[ch].named {
        walk::<C>(p, t, src, ch, ctx)
    } else {
        Seq::empty()
    };
    let rest = walk_children::<C>(p, t, src, a, k + 1, ctx);
    assert(walk_children::<C>(p, t, src, a, k, ctx) == head + rest);
    if k == kc {
        let m = choose|m: int| 0 <= m < head.len() && pred(#[trigger] head[m]);
        assert((head + rest)[m] == head[m]);
    } else {
        lemma_walk_children_reaches_pred::<C>(p, t, src, a, k + 1, kc, ctx, pred);
        let m = choose|m: int| 0 <= m < rest.len() && pred(#[trigger] rest[m]);
        assert((head + rest)[head.len() + m] == rest[m]);
    }
}

/// Node `j`, seen in context `c`, contributes an item with `pred`.
pub open spec fn contributes<C: Collector>(
    p: C::Param,
    t: SyntaxTree,
    src: Seq<char>,
    j: int,
    c: Ctx,
    pred: spec_fn(<C::Item as DeepView>::V) -> bool,
) -> bool {
    exists|m: int|
        0 <= m < C::own_items(p, t, src, j, c).len() && pred(#[trigger] C::own_items(p, t, src, j, c)[m])
}

/// The traversal from the first node of a named path takes in an item with
/// `pred` when the path's last node contributes one in every context.
pub proof fn lemma_walk_reaches_pred<C: Collector>(
    p: C::Param,
    t: SyntaxTree,
    src: Seq<char>,
    path: Seq<int>,
    ctx: Ctx,
    pred: spec_fn(<C::Item as DeepView>::V) -> bool,
)
    requires
        named_path(t, path),
        forall|j: int| 0 <= j < t.len() ==> #[trigger] C::descends(p, t, src, j),
        forall|c: Ctx| #[trigger] contributes::<C>(p, t, src, path.last(), c, pred),
    ensures
        exists|m: int|
            0 <= m < walk::<C>(p, t, src, path[0], ctx).len() && pred(
                #[trigger] walk::<C>(p, t, src, path[0], ctx)[m],
            ),
    decreases path.len(),
{
    let a = path[0];
    let own = C::own_items(p, t, src, a, ctx);
    let c2 = step(t, a, ctx);
    let kids = walk_children::<C>(p, t, src, a, 0, c2);
    assert(C::descends(p, t, src, a));
    assert(walk::<C>(p, t, src, a, ctx) == own + kids);
    if path.len() == 1 {
        assert(path.last() == a);
        assert(contributes::<C>(p, t, src, path.last(), ctx, pred));
        let m = choose|m: int|
            0 <= m < C::own_items(p, t, src, path.last(), ctx).len() && pred(
                #[trigger] C::own_items(p, t, src, path.last(), ctx)[m],
            );
        assert((own + kids)[m] == own[m]);
    } else {
        let rest = path.drop_first();
        assert forall|m: int| 0 <= m < rest.len() - 1 implies named_child(
            t,
            #[trigger] rest[m],
            rest[m + 1],
        ) by {
            assert(named_child(t, path[m + 1], path[m + 2]));
        }
        assert(named_child(t, path[0], path[1]));
        assert(rest.last() == path.last());
        lemma_walk_reaches_pred::<C>(p, t, src, rest, c2, pred);
        let kc = choose|k: int|
            0 <= k < t.nodes@[a].children@.len() && t.nodes@[a].children@[k] == path[1];
        lemma_walk_children_reaches_pred::<C>(p, t, src, a, 0, kc, c2, pred);
        let m = choose|m: int| 0 <= m < kids.len() && pred(#[trigger] kids[m]);
        assert((own + kids)[own.len() + m] == kids[m]);
    }
}

/// The context is inside a loop, or some node of `path` is a `for`
/// statement.
pub open spec fn loop_on(t: SyntaxTree, path: Seq<int>, ctx: Ctx) -> bool {
    ctx.in_loop || exists|m: int| 0 <= m < path.len() && t.kind_is(#[trigger] path[m], "for_statement"@)
}

/// The traversal from the first node of a named path that runs through a
/// `for` statement takes in what the path's last node contributes inside a
/// loop.
pub proof fn lemma_walk_reaches_in_loop<C: Collector>(
    p: C::Param,
    t: SyntaxTree,
    src: Seq<char>,
    path: Seq<int>,
    ctx: Ctx,
    x: <C::Item as DeepView>::V,
)
    requires
        named_path(t, path),
        loop_on(t, path, ctx),
        forall|j: int| 0 <= j < t.len() ==> #[trigger] C::descends(p, t, src, j),
        forall|c: Ctx|
            (c.in_loop || t.kind_is(path.last(), "for_statement"@)) ==> #[trigger] C::own_items(
                p,
                t,
                src,
                path.last(),
                c,
            ).contains(x),
    ensures
        walk::<C>(p, t, src, path[0], ctx).contains(x),
    decreases path.len(),
{
    let a = path[0];
    let own = C::own_items(p, t, src, a, ctx);
    let c2 = step(t, a, ctx);
    let kids = walk_children::<C>(p, t, src, a, 0, c2);
    assert(C::descends(p, t, src, a));
    assert(walk::<C>(p, t, src, a, ctx) == own + kids);
    if path.len() == 1 {
        assert(path.last() == a);
        if !ctx.in_loop {
            let m = choose|m: int| 0 <= m < path.len() && t.kind_is(#[trigger] path[m], "for_statement"@);
            assert(m == 0);
        }
        assert(C::own_items(p, t, src, path.last(), ctx).contains(x));
        let m = choose|m: int| 0 <= m < own.len() && own[m] == x;
        assert((own + kids)[m] == x);
    } else {
        let rest = path.drop_first();
        assert forall|m: int| 0 <= m < rest.len() - 1 implies named_child(
            t,
            #[trigger] rest[m],
            rest[m + 1],
        ) by {
            assert(named_child(t, path[m + 1], path[m + 2]));
        }
        assert(named_child(t, path[0], path[1]));
        assert(rest.last() == path.last());
        if !c2.in_loop {
            let m = choose|m: int| 0 <= m < path.len() && t.kind_is(#[trigger] path[m], "for_statement"@);
            assert(m != 0);
            assert(rest[m - 1] == path[m]);
        }
        lemma_walk_reaches_in_loop::<C>(p, t, src, rest, c2, x);
        let kc = choose|k: int|
            0 <= k < t.nodes@[a].children@.len() && t.nodes@[a].children@[k] == path[1];
        lemma_walk_children_reaches::<C>(p, t, src, a, 0, kc, c2, x);
        let m = choose|m: int| 0 <= m < kids.len() && kids[m] == x;
        assert((own + kids)[own.len() + m] == x);
    }
}

/// What holds of every item that a node of the tree contributes holds of
/// every item of the traversal.
pub proof fn lemma_walk_items<C: Collector>(
    p: C::Param,
    t: SyntaxTree,
    src: Seq<char>,
    i: int,
    ctx: Ctx,
    pred: spec_fn(<C::Item as DeepView>::V) -> bool,
)
    requires
        forall|j: int, c: Ctx, m: int|
            0 <= j < t.len() && 0 <= m < C::own_items(p, t, src, j, c).len() ==> pred(
                #[trigger] C::own_items(p, t, src, j, c)[m],
            ),
    ensures
        forall|m: int|
            0 <= m < walk::<C>(p, t, src, i, ctx).len() ==> pred(
                #[trigger] walk::<C>(p, t, src, i, ctx)[m],
            ),
    decreases t.len() - i, t.nodes@[i].children@.len() + 1,
{
    if 0 <= i < t.len() {
        let own = C::own_items(p, t, src, i, ctx);
        let kids = if C::descends(p, t, src, i) {
            lemma_walk_children_items::<C>(p, t, src, i, 0, step(t, i, ctx), pred);
            walk_children::<C>(p, t, src, i, 0, step(t, i, ctx))
        } else {
            Seq::empty()
        };
        assert(walk::<C>(p, t, src, i, ctx) == own + kids);
        assert forall|m: int| 0 <= m < (own + kids).len() implies pred(
            #[trigger] (own + kids)[m],
        ) by {
            if m < own.len() {
                assert((own + kids)[m] == own[m]);
            } else {
                assert((own + kids)[m] == kids[m - own.len()]);
            }
        }
    }
}

proof fn lemma_walk_children_items<C: Collector>(
    p: C::Param,
    t: SyntaxTree,
    src: Seq<char>,
    i: int,
    k: int,
    ctx: Ctx,
    pred: spec_fn(<C::Item as DeepView>::V) -> bool,
)
    requires
        forall|j: int, c: Ctx, m: int|
            0 <= j < t.len() && 0 <= m < C::own_items(p, t, src, j, c).len() ==> pred(
                #[trigger] C::own_items(p, t, src, j, c)[m],
            ),
    ensures
        forall|m: int|
            0 <= m < walk_children::<C>(p, t, src, i, k, ctx).len() ==> pred(
                #[trigger] walk_children::<C>(p, t, src, i, k, ctx)[m],
            ),
    decreases t.len() - i, t.nodes@[i].children@.len() - k,
{
    if 0 <= i < t.len() && 0 <= k < t.nodes@[i].children@.len() {
        let ch = t.nodes@[i].children@[k] as int;
        let head = if i < ch < t.len() && t.nodes@[ch].named {
            lemma_walk_items::<C>(p, t, src, ch, ctx, pred);
            walk::<C>(p, t, src, ch, ctx)
        } else {
            Seq::empty()
        };
        lemma_walk_children_items::<C>(p, t, src, i, k + 1, ctx, pred);
        let rest = walk_children::<C>(p, t, src, i, k + 1, ctx);
        assert(walk_children::<C>(p, t, src, i, k, ctx) == head + rest);
        assert forall|m: int| 0 <= m < (head + rest).len() implies pred(
            #[trigger] (head + rest)[m],
        ) by {
            if m < head.len() {
                assert((head + rest)[m] == head[m]);
            } else {
                assert((head + rest)[m] == rest[m - head.len()]);
            }
        }
    }
}

/// The node kinds that get counted.
#[derive(Clone, Copy, PartialEq, Eq, Structural, Debug)]
pub enum CountedKind {
    TypeAssertion,
    ForStatement,
}

pub open spec fn counted_kind_name(k: CountedKind) -> Seq<char> {
    match k {
        CountedKind::TypeAssertion => "type_assertion_expression"@,
        CountedKind::ForStatement => "for_statement"@,
    }
}

/// Counts the named nodes of a kind under a node: the traversal collects the
/// index of each one.
pub struct KindCounter {
    pub kind: CountedKind,
}

impl Collector for KindCounter {
    type Item = usize;

    type Param = CountedKind;

    open spec fn param(&self) -> CountedKind {
        self.kind
    }

    open spec fn own_items(
        p: CountedKind,
        t: SyntaxTree,
        src: Seq<char>,
        i: int,
        ctx: Ctx,
    ) -> Seq<usize> {
        if t.kind_is(i, counted_kind_name(p)) {
            seq![i as usize]
        } else {
            Seq::empty()
        }
    }

    open spec fn descends(p: CountedKind, t: SyntaxTree, src: Seq<char>, i: int) -> bool {
        true
    }

    fn collect_own(
        &self,
        t: &SyntaxTree,
        src: &[char],
        i: usize,
        ctx: Ctx,
        out: &mut Vec<usize>,
    ) {
        let hit = match self.kind {
            CountedKind::TypeAssertion => t.kind_eq(i, "type_assertion_expression"),
            CountedKind::ForStatement => t.kind_eq(i, "for_statement"),
        };
        if hit {
            out.push(i);
            assert(out.deep_view() =~= old(out).deep_view() + seq![i]);
        } else {
            assert(out.deep_view() =~= old(out).deep_view() + Seq::<usize>::empty());
        }
    }

    fn descend(&self, t: &SyntaxTree, src: &[char], i: usize) -> (r: bool) {
        true
    }
}

/// The number of named nodes of kind `k` under node `i`, itself included.
pub open spec fn count_kind(t: SyntaxTree, src: Seq<char>, i: int, k: CountedKind) -> nat {
    walk::<KindCounter>(k, t, src, i, Ctx { in_loop: false, scope: Scope::Unknown }).len()
}

/// `count_descendants`: the named nodes of kind `k` under node `i`, itself
/// included.
pub fn count_descendants(t: &SyntaxTree, src: &[char], i: usize, k: CountedKind) -> (r: usize)
    requires
        t.wf(src@.len() as int),
        i < t.nodes@.len(),
    ensures
        r == count_kind(*t, src@, i as int, k),
{
    let mut hits: Vec<usize> = Vec::new();
    let c = KindCounter { kind: k };
    walk_exec(&c, t, src, i, Ctx { in_loop: false, scope: Scope::Unknown }, &mut hits);
    assert(hits.deep_view().len() == hits@.len());
    hits.len()
}

} // verus!
