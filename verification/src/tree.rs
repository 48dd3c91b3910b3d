//! A syntax tree held in one store: every node is identified by its index,
//! and parent, child, enclosing-statement and enclosing-function links are
//! indices into the same store. Two handles denote the same node exactly when
//! their indices are equal.
use vstd::prelude::*;

use crate::ast_type::ASTType;
use crate::node_kind::{childless_kind, kind_valid, spec_is_instance, is_instance, ASTInstanceOf, Immutable, NodeKind};

verus! {

/// The data of one node that is fixed when the node is added to a store.
pub struct AstNode {
    pub kind: NodeKind,
    pub line: i32,
    pub column: i32,
    /// The identifier that names this node, if any.
    pub idf: Option<usize>,
    /// The declaration this node refers to, if any.
    pub target: Option<usize>,
    /// The identifiers of the scopes that enclose this node, outermost first.
    pub namespace: Vec<usize>,
    /// The lines of source text, for a source unit.
    pub original_code: Vec<String>,
}

impl AstNode {
    /// A node of the given kind, identifier and referenced declaration, with
    /// no position yet (line and column -1), an empty namespace and no source text.
    pub fn new(kind: NodeKind, idf: Option<usize>, target: Option<usize>) -> (r: Self)
        ensures
            r.kind == kind,
            r.idf == idf,
            r.target == target,
            r.line == -1,
            r.column == -1,
            r.namespace@ == Seq::<usize>::empty(),
            r.original_code@ == Seq::<String>::empty(),
    {
        AstNode {
            kind,
            line: -1,
            column: -1,
            idf,
            target,
            namespace: Vec::new(),
            original_code: Vec::new(),
        }
    }
}

impl ASTInstanceOf for AstNode {
    open spec fn spec_ast_type(&self) -> ASTType {
        self.kind.ast_type
    }

    fn get_ast_type(&self) -> (t: ASTType) {
        self.kind.ast_type
    }
}

impl Immutable for AstNode {
    fn is_immutable(&self) -> (r: bool)
        ensures
            r,
    {
        true
    }
}

/// What contracts see of one node of a store.
pub struct NodeView {
    pub kind: NodeKind,
    pub line: i32,
    pub column: i32,
    pub idf: Option<usize>,
    pub target: Option<usize>,
    pub namespace: Seq<usize>,
    pub original_code: Seq<Seq<char>>,
    /// The names declared in this node's scope, each mapped to its identifier.
    pub names: Map<Seq<char>, usize>,
    pub parent: Option<usize>,
    pub children: Seq<usize>,
    pub statement: Option<usize>,
    pub function: Option<usize>,
    /// A number that is larger for a parent than for each of its children;
    /// it only serves to show that the links never form a cycle.
    pub rank: int,
}

/// The view of the fixed data of a freshly added node of rank `rank`.
pub open spec fn fresh_view(node: AstNode, children: Seq<usize>, rank: int) -> NodeView {
    NodeView {
        kind: node.kind,
        line: node.line,
        column: node.column,
        idf: node.idf,
        target: node.target,
        namespace: node.namespace@,
        original_code: node.original_code@.map_values(|s: String| s@),
        names: Map::empty(),
        parent: None,
        children,
        statement: None,
        function: None,
        rank,
    }
}

/// The largest rank in `v` (0 for an empty store or when all are smaller).
pub open spec fn max_rank(v: Seq<NodeView>) -> int
    decreases v.len(),
{
    if v.len() == 0 {
        0
    } else {
        let m = max_rank(v.drop_last());
        if v.last().rank > m {
            v.last().rank
        } else {
            m
        }
    }
}

/// The smallest rank in `v` (0 for an empty store or when all are larger).
pub open spec fn min_rank(v: Seq<NodeView>) -> int
    decreases v.len(),
{
    if v.len() == 0 {
        0
    } else {
        let m = min_rank(v.drop_last());
        if v.last().rank < m {
            v.last().rank
        } else {
            m
        }
    }
}

/// Every rank lies between the smallest and the largest.
pub proof fn lemma_rank_bounds(v: Seq<NodeView>)
    ensures
        forall|i: int|
            0 <= i < v.len() ==> min_rank(v) <= #[trigger] v[i].rank <= max_rank(v),
        min_rank(v) <= 0 <= max_rank(v),
    decreases v.len(),
{
    if v.len() > 0 {
        lemma_rank_bounds(v.drop_last());
        assert forall|i: int| 0 <= i < v.len() implies min_rank(v) <= #[trigger] v[i].rank
            <= max_rank(v) by {
            if i < v.len() - 1 {
                assert(v[i] == v.drop_last()[i]);
            }
        }
    }
}

/// The links of a store are consistent: children rank below their parent
/// and point back to it, every parent lists its children, no child is listed
/// twice, every kind is valid, nodes of kinds that have no children have
/// none, and every link names a node of the store.
pub open spec fn tree_wf(v: Seq<NodeView>) -> bool {
    &&& v.len() <= usize::MAX
    &&& forall|i: int, k: int|
        #![trigger v[i].children[k]]
        0 <= i < v.len() && 0 <= k < v[i].children.len() ==> {
            let c = v[i].children[k] as int;
            &&& 0 <= c < v.len()
            &&& v[c].rank < v[i].rank
            &&& v[c].parent == Some(i as usize)
        }
    &&& forall|i: int|
        #![trigger v[i].parent]
        0 <= i < v.len() ==> match v[i].parent {
            Some(p) => p < v.len() && v[i].rank < v[p as int].rank && v[p as int].children.contains(
                i as usize,
            ),
            None => true,
        }
    &&& forall|i: int|
        #![trigger v[i].kind, v[i].children]
        0 <= i < v.len() && childless_kind(v[i].kind) ==> v[i].children.len() == 0
    &&& forall|i: int| #![trigger v[i].children] 0 <= i < v.len() ==> v[i].children.no_duplicates()
    &&& forall|i: int| #![trigger v[i].kind] 0 <= i < v.len() ==> kind_valid(v[i].kind)
    &&& forall|i: int|
        #![trigger v[i].statement]
        0 <= i < v.len() ==> (v[i].statement matches Some(s) ==> s < v.len())
    &&& forall|i: int|
        #![trigger v[i].function]
        0 <= i < v.len() ==> (v[i].function matches Some(f) ==> f < v.len())
    &&& forall|i: int|
        #![trigger v[i].idf]
        0 <= i < v.len() ==> (v[i].idf matches Some(x) ==> x < v.len())
    &&& forall|i: int, k: Seq<char>|
        #![trigger v[i].names.dom().contains(k)]
        0 <= i < v.len() && v[i].names.dom().contains(k) ==> v[i].names[k] < v.len()
    &&& forall|i: int|
        #![trigger v[i].target]
        0 <= i < v.len() ==> (v[i].target matches Some(t) ==> t < v.len())
    &&& forall|i: int, k: int|
        #![trigger v[i].namespace[k]]
        0 <= i < v.len() && 0 <= k < v[i].namespace.len() ==> v[i].namespace[k] < v.len()
}

/// `anc` is `node` or is reached from `node` by following parent links.
pub open spec fn is_ancestor(v: Seq<NodeView>, anc: int, node: int) -> bool
    decreases max_rank(v) - v[node].rank,
{
    if anc == node {
        true
    } else if 0 <= node < v.len() {
        match v[node].parent {
            Some(p) => if p < v.len() && v[node].rank < v[p as int].rank <= max_rank(v) {
                is_ancestor(v, anc, p as int)
            } else {
                false
            },
            None => false,
        }
    } else {
        false
    }
}


/// Statement `s` occurs in the statement list `l`, directly or inside a
/// statement list nested in it.
pub open spec fn list_contains(v: Seq<NodeView>, l: int, s: usize) -> bool
    decreases v[l].rank - min_rank(v), 1int, 0int,
{
    0 <= l < v.len() && (v[l].children.contains(s) || nested_list_contains(v, l, s, 0))
}

/// Some child of `l` at position `k` or later is a statement list, older
/// than `l`, that contains `s`.
pub open spec fn nested_list_contains(v: Seq<NodeView>, l: int, s: usize, k: int) -> bool
    decreases v[l].rank - min_rank(v), 0int, (if 0 <= l < v.len() {
        v[l].children.len() - k
    } else {
        0
    }),
{
    if 0 <= l < v.len() && 0 <= k < v[l].children.len() {
        let c = v[l].children[k] as int;
        (0 <= c < v.len() && min_rank(v) <= v[c].rank < v[l].rank && spec_is_instance(v[c].kind, ASTType::StatementListBase) && list_contains(v, c, s))
            || nested_list_contains(v, l, s, k + 1)
    } else {
        false
    }
}

/// The names that qualify node `id`: its enclosing scopes, outermost first,
/// ending with its own identifier (which is not repeated when the innermost
/// scope already is that identifier); empty for a node without identifier.
pub open spec fn spec_qualified_name(v: Seq<NodeView>, id: int) -> Seq<usize> {
    match v[id].idf {
        None => Seq::empty(),
        Some(x) => {
            let ns = v[id].namespace;
            if ns.len() == 0 {
                seq![x]
            } else if ns.last() == x {
                ns
            } else {
                ns.push(x)
            }
        },
    }
}

/// Following a parent link leads to an ancestor, and a proper ancestor of a
/// node is a node of the store of higher rank.
pub proof fn lemma_ancestor_basics(v: Seq<NodeView>, anc: int, node: int)
    requires
        tree_wf(v),
        0 <= node < v.len(),
    ensures
        is_ancestor(v, node, node),
        v[node].parent matches Some(p) ==> is_ancestor(v, p as int, node),
        is_ancestor(v, anc, node) ==> 0 <= anc < v.len() && v[node].rank <= v[anc].rank,
        is_ancestor(v, anc, node) && anc != node ==> v[node].rank < v[anc].rank,
    decreases max_rank(v) - v[node].rank,
{
    lemma_rank_bounds(v);
    reveal_with_fuel(is_ancestor, 2);
    if anc != node {
        if let Some(p) = v[node].parent {
            lemma_ancestor_basics(v, anc, p as int);
        }
    }
}

/// Being an ancestor is transitive.
pub proof fn lemma_ancestor_transitive(v: Seq<NodeView>, a: int, b: int, c: int)
    requires
        tree_wf(v),
        0 <= c < v.len(),
        is_ancestor(v, a, b),
        is_ancestor(v, b, c),
    ensures
        is_ancestor(v, a, c),
    decreases max_rank(v) - v[c].rank,
{
    lemma_rank_bounds(v);
    if b != c {
        let p = v[c].parent->Some_0;
        lemma_ancestor_transitive(v, a, b, p as int);
    }
}

/// Two nodes that are ancestors of each other are the same node.
pub proof fn lemma_ancestor_antisymmetric(v: Seq<NodeView>, a: int, b: int)
    requires
        tree_wf(v),
        0 <= a < v.len(),
        0 <= b < v.len(),
        is_ancestor(v, a, b),
        is_ancestor(v, b, a),
    ensures
        a == b,
{
    lemma_ancestor_basics(v, a, b);
    lemma_ancestor_basics(v, b, a);
}

/// `after` is `before` with one node added at the end whose children are
/// `children`: the new node ranks above every node, those children, which
/// had no parent, get the new node as their parent, and nothing else of the
/// old nodes changes.
pub open spec fn node_added(before: Seq<NodeView>, after: Seq<NodeView>, children: Seq<usize>) -> bool {
    &&& after.len() == before.len() + 1
    &&& after[before.len() as int].children == children
    &&& after[before.len() as int].parent is None
    &&& after[before.len() as int].rank == max_rank(before) + 1
    &&& forall|k: int|
        0 <= k < children.len() ==> #[trigger] children[k] < before.len() && before[children[k] as int].parent is None
    &&& forall|j: int|
        #![trigger after[j]]
        0 <= j < before.len() ==> after[j] == (if children.contains(j as usize) {
            NodeView { parent: Some(before.len() as usize), ..before[j] }
        } else {
            before[j]
        })
}

proof fn lemma_max_rank_added(before: Seq<NodeView>, after: Seq<NodeView>, children: Seq<usize>)
    requires
        node_added(before, after, children),
    ensures
        max_rank(after) == max_rank(before) + 1,
{
    lemma_rank_bounds(before);
    assert(after.drop_last() =~= Seq::new(before.len(), |j: int| after[j]));
    let front = after.drop_last();
    assert forall|j: int| 0 <= j < front.len() implies #[trigger] front[j].rank == before[j].rank by {
        assert(front[j] == after[j]);
    }
    lemma_max_rank_same_ranks(front, before);
}

proof fn lemma_max_rank_same_ranks(a: Seq<NodeView>, b: Seq<NodeView>)
    requires
        a.len() == b.len(),
        forall|j: int| 0 <= j < a.len() ==> #[trigger] a[j].rank == b[j].rank,
    ensures
        max_rank(a) == max_rank(b),
        min_rank(a) == min_rank(b),
    decreases a.len(),
{
    if a.len() > 0 {
        assert forall|j: int| 0 <= j < a.drop_last().len() implies #[trigger] a.drop_last()[j].rank
            == b.drop_last()[j].rank by {
            assert(a.drop_last()[j] == a[j]);
            assert(b.drop_last()[j] == b[j]);
        }
        lemma_max_rank_same_ranks(a.drop_last(), b.drop_last());
        assert(a.last().rank == b.last().rank) by {
            assert(a.last() == a[a.len() - 1]);
            assert(b.last() == b[b.len() - 1]);
        }
    }
}

/// Adding a node keeps the ancestry among the nodes already there, and makes
/// the new node an ancestor of exactly the nodes that lie under its children.
pub proof fn lemma_add_node_keeps_ancestry(
    before: Seq<NodeView>,
    after: Seq<NodeView>,
    children: Seq<usize>,
    a: int,
    b: int,
)
    requires
        tree_wf(before),
        node_added(before, after, children),
        0 <= b < before.len(),
    ensures
        0 <= a < before.len() ==> is_ancestor(after, a, b) == is_ancestor(before, a, b),
        is_ancestor(after, before.len() as int, b) == exists|k: int|
            0 <= k < children.len() && is_ancestor(before, #[trigger] children[k] as int, b),
    decreases max_rank(before) - before[b].rank,
{
    let id = before.len() as int;
    lemma_rank_bounds(before);
    lemma_max_rank_added(before, after, children);
    lemma_rank_bounds(after);
    assert(after[b] == (if children.contains(b as usize) {
        NodeView { parent: Some(id as usize), ..before[b] }
    } else {
        before[b]
    }));
    if children.contains(b as usize) {
        let kb = choose|k: int| 0 <= k < children.len() && children[k] == b as usize;
        assert(before[children[kb] as int].parent is None);
        assert(before[b].parent is None);
        assert(after[id].parent is None);
        assert(is_ancestor(after, id, id));
        assert(after[b].rank < after[id].rank);
        assert(is_ancestor(after, id, b));
        assert(is_ancestor(before, children[kb] as int, b));
        if 0 <= a < before.len() && a != b {
            assert(!is_ancestor(after, a, id));
            assert(!is_ancestor(before, a, b));
        }
    } else {
        assert(after[b] == before[b]);
        match before[b].parent {
            Some(p) => {
                assert(after[p as int] == (if children.contains(p) {
                    NodeView { parent: Some(id as usize), ..before[p as int] }
                } else {
                    before[p as int]
                }));
                lemma_add_node_keeps_ancestry(before, after, children, a, p as int);
                assert forall|k: int| 0 <= k < children.len() implies is_ancestor(
                    before,
                    #[trigger] children[k] as int,
                    b,
                ) == is_ancestor(before, children[k] as int, p as int) by {
                    assert(children[k] != b as usize);
                }
            },
            None => {
                assert forall|k: int| 0 <= k < children.len() implies !is_ancestor(
                    before,
                    #[trigger] children[k] as int,
                    b,
                ) by {
                    assert(children[k] != b as usize);
                }
            },
        }
    }
}

/// After `name` is declared as `idf` in the scope of node `id`, looking the
/// name up there gives `idf`; every other name keeps what it had, and every
/// other node keeps its scope.
pub proof fn lemma_lookup_after_declaration(
    before: Seq<NodeView>,
    after: Seq<NodeView>,
    id: int,
    name: Seq<char>,
    idf: usize,
    key: Seq<char>,
)
    requires
        0 <= id < before.len(),
        after == before.update(id, NodeView { names: before[id].names.insert(name, idf), ..before[id] }),
    ensures
        after[id].names.dom().contains(name),
        after[id].names[name] == idf,
        key != name ==> after[id].names.dom().contains(key) == before[id].names.dom().contains(key),
        key != name && before[id].names.dom().contains(key) ==> after[id].names[key] == before[id].names[key],
        forall|j: int| 0 <= j < before.len() && j != id ==> #[trigger] after[j] == before[j],
{
}

/// Node `c` of `after` is a copy of node `x` of `before`: it holds the same
/// content except for its parent and rank, and its children are, in order,
/// copies of the children of `x`.
pub open spec fn is_copy(after: Seq<NodeView>, c: int, before: Seq<NodeView>, x: int) -> bool
    decreases before[x].rank - min_rank(before), 1int, 0int,
{
    &&& 0 <= c < after.len()
    &&& 0 <= x < before.len()
    &&& after[c] == (NodeView {
        parent: after[c].parent,
        rank: after[c].rank,
        children: after[c].children,
        ..before[x]
    })
    &&& after[c].children.len() == before[x].children.len()
    &&& children_copied(after, c, before, x, 0)
}

/// From position `k` on, each child of node `c` of `after` is a copy of the
/// child of node `x` of `before` at the same position.
pub open spec fn children_copied(after: Seq<NodeView>, c: int, before: Seq<NodeView>, x: int, k: int) -> bool
    decreases before[x].rank - min_rank(before), 0int, before[x].children.len() - k,
{
    if 0 <= x < before.len() && 0 <= k < before[x].children.len() && 0 <= c < after.len() && k
        < after[c].children.len() {
        let y = before[x].children[k] as int;
        &&& 0 <= y < before.len()
        &&& min_rank(before) <= before[y].rank < before[x].rank
        &&& is_copy(after, after[c].children[k] as int, before, y)
        &&& children_copied(after, c, before, x, k + 1)
    } else {
        true
    }
}

/// One position of `children_copied`: the child of `c` at `m` is a copy of
/// the child of `x` at `m`.
pub open spec fn child_copied(after: Seq<NodeView>, c: int, before: Seq<NodeView>, x: int, m: int) -> bool {
    &&& 0 <= before[x].children[m] < before.len()
    &&& min_rank(before) <= before[before[x].children[m] as int].rank < before[x].rank
    &&& is_copy(after, after[c].children[m] as int, before, before[x].children[m] as int)
}

proof fn lemma_children_copied_get(after: Seq<NodeView>, c: int, before: Seq<NodeView>, x: int, k: int, m: int)
    requires
        0 <= x < before.len(),
        0 <= c < after.len(),
        0 <= k <= m < before[x].children.len(),
        after[c].children.len() == before[x].children.len(),
        children_copied(after, c, before, x, k),
    ensures
        child_copied(after, c, before, x, m),
    decreases m - k,
{
    if k < m {
        lemma_children_copied_get(after, c, before, x, k + 1, m);
    }
}

proof fn lemma_children_copied_build(after: Seq<NodeView>, c: int, before: Seq<NodeView>, x: int, k: int)
    requires
        0 <= x < before.len(),
        0 <= c < after.len(),
        0 <= k,
        after[c].children.len() == before[x].children.len(),
        forall|m: int| k <= m < before[x].children.len() ==> #[trigger] child_copied(after, c, before, x, m),
    ensures
        children_copied(after, c, before, x, k),
    decreases before[x].children.len() - k,
{
    if k < before[x].children.len() {
        assert(child_copied(after, c, before, x, k));
        lemma_children_copied_build(after, c, before, x, k + 1);
    }
}

proof fn lemma_copy_stable(a1: Seq<NodeView>, a2: Seq<NodeView>, c: int, before: Seq<NodeView>, x: int)
    requires
        is_copy(a1, c, before, x),
        a1.len() <= a2.len(),
        forall|j: int|
            0 <= j < a1.len() ==> #[trigger] a2[j] == (NodeView { parent: a2[j].parent, ..a1[j] }),
    ensures
        is_copy(a2, c, before, x),
    decreases before[x].rank - min_rank(before),
{
    assert(a2[c] == (NodeView { parent: a2[c].parent, ..a1[c] }));
    assert(a2[c].children == a1[c].children);
    assert forall|m: int| 0 <= m < before[x].children.len() implies #[trigger] child_copied(
        a2,
        c,
        before,
        x,
        m,
    ) by {
        lemma_children_copied_get(a1, c, before, x, 0, m);
        assert(a1[c].children[m] == a2[c].children[m]);
        lemma_copy_stable(a1, a2, a1[c].children[m] as int, before, before[x].children[m] as int);
    }
    lemma_children_copied_build(a2, c, before, x, 0);
}

proof fn lemma_copy_stable_except(
    a1: Seq<NodeView>,
    a2: Seq<NodeView>,
    c: int,
    before: Seq<NodeView>,
    x: int,
    d: int,
)
    requires
        tree_wf(a1),
        is_copy(a1, c, before, x),
        0 <= d < a1.len(),
        a1[c].rank < a1[d].rank,
        a1.len() <= a2.len(),
        forall|j: int|
            0 <= j < a1.len() && j != d ==> #[trigger] a2[j] == (NodeView {
                parent: a2[j].parent,
                ..a1[j]
            }),
    ensures
        is_copy(a2, c, before, x),
    decreases before[x].rank - min_rank(before),
{
    assert(a2[c] == (NodeView { parent: a2[c].parent, ..a1[c] }));
    assert(a2[c].children == a1[c].children);
    assert forall|m: int| 0 <= m < before[x].children.len() implies #[trigger] child_copied(
        a2,
        c,
        before,
        x,
        m,
    ) by {
        lemma_children_copied_get(a1, c, before, x, 0, m);
        assert(a1[c].children[m] == a2[c].children[m]);
        let cm = a1[c].children[m] as int;
        assert(a1[cm].rank < a1[c].rank);
        lemma_copy_stable_except(a1, a2, cm, before, before[x].children[m] as int, d);
    }
    lemma_children_copied_build(a2, c, before, x, 0);
}

/// Whether the content of a node of kind `src` may be copied into a node of
/// kind `dst`: nodes of the same kind, an expression into an expression
/// (an identifier expression in particular), and a primitive cast into any node.
pub open spec fn kinds_compatible(dst: NodeKind, src: NodeKind) -> bool {
    ||| dst.ast_type == src.ast_type
    ||| (dst.shape is Expression && src.ast_type == ASTType::IdentifierExpr)
    ||| (dst.shape is Expression && src.shape is Expression)
    ||| src.ast_type == ASTType::PrimitiveCastExpr
}

proof fn lemma_new_copy(
    mid: Seq<NodeView>,
    fin: Seq<NodeView>,
    c: int,
    copies: Seq<usize>,
    before: Seq<NodeView>,
    x: int,
)
    requires
        tree_wf(before),
        0 <= x < before.len(),
        copies.len() == before[x].children.len(),
        forall|m: int|
            0 <= m < copies.len() ==> is_copy(mid, #[trigger] copies[m] as int, before, before[x].children[m] as int),
        mid.len() <= fin.len(),
        forall|j: int| 0 <= j < mid.len() ==> #[trigger] fin[j] == (NodeView { parent: fin[j].parent, ..mid[j] }),
        0 <= c < fin.len(),
        fin[c] == (NodeView { parent: fin[c].parent, rank: fin[c].rank, children: copies, ..before[x] }),
    ensures
        is_copy(fin, c, before, x),
{
    lemma_rank_bounds(before);
    assert forall|m: int| 0 <= m < before[x].children.len() implies #[trigger] child_copied(
        fin,
        c,
        before,
        x,
        m,
    ) by {
        assert(fin[c].children[m] == copies[m]);
        lemma_copy_stable(mid, fin, copies[m] as int, before, before[x].children[m] as int);
    }
    lemma_children_copied_build(fin, c, before, x, 0);
}

/// The state after `assign` has moved the parts into place (used in its proof).
spec fn assign_setup(
    v0: Seq<NodeView>,
    mid: Seq<NodeView>,
    v: Seq<NodeView>,
    dst: int,
    src: int,
    copies: Seq<usize>,
    delta: int,
) -> bool {
    &&& tree_wf(v0)
    &&& tree_wf(mid)
    &&& 0 <= dst < v0.len()
    &&& 0 <= src < v0.len()
    &&& dst != src
    &&& kinds_compatible(v0[dst].kind, v0[src].kind)
    &&& delta == v0[dst].rank - v0[src].rank
    &&& v0.len() <= mid.len()
    &&& forall|j: int| 0 <= j < v0.len() ==> #[trigger] mid[j] == v0[j]
    &&& copies.len() == v0[src].children.len()
    &&& copies.no_duplicates()
    &&& forall|m: int|
        0 <= m < copies.len() ==> {
            &&& v0.len() <= #[trigger] copies[m] < mid.len()
            &&& mid[copies[m] as int].parent is None
            &&& mid[copies[m] as int].rank == v0[v0[src].children[m] as int].rank + delta
            &&& is_copy(mid, copies[m] as int, v0, v0[src].children[m] as int)
        }
    &&& v.len() == mid.len()
    &&& v[dst] == (NodeView {
        parent: v0[dst].parent,
        rank: v0[dst].rank,
        children: v[dst].children,
        ..v0[src]
    })
    &&& v[dst].children == copies
    &&& forall|j: int|
        #![trigger v[j]]
        0 <= j < mid.len() && j != dst ==> v[j] == (if copies.contains(j as usize) {
            NodeView { parent: Some(dst as usize), ..mid[j] }
        } else if v0[dst].children.contains(j as usize) {
            NodeView { parent: None, ..mid[j] }
        } else {
            mid[j]
        })
}

#[verifier::rlimit(100)]
proof fn lemma_assign_copies(
    v0: Seq<NodeView>,
    mid: Seq<NodeView>,
    v: Seq<NodeView>,
    dst: int,
    src: int,
    copies: Seq<usize>,
    delta: int,
)
    requires
        assign_setup(v0, mid, v, dst, src, copies, delta),
    ensures
        node_assigned(v0, v, dst, src),
{
    lemma_rank_bounds(v0);
    assert forall|j: int|
        0 <= j < mid.len() && j != dst implies #[trigger] v[j] == (NodeView {
        parent: v[j].parent,
        ..mid[j]
    }) by {}
    assert forall|k: int|
        #![trigger v[dst].children[k]]
        0 <= k < v0[src].children.len() implies v0.len() <= v[dst].children[k] && is_copy(
        v,
        v[dst].children[k] as int,
        v0,
        v0[src].children[k] as int,
    ) by {
        let ck = copies[k] as int;
        assert(v0[src].children[k] < v0.len());
        assert(v0[v0[src].children[k] as int].rank < v0[src].rank);
        assert(mid[ck].rank < mid[dst].rank);
        lemma_copy_stable_except(mid, v, ck, v0, v0[src].children[k] as int, dst);
    }
    assert forall|j: int|
        #![trigger v[j]]
        0 <= j < v0.len() && j != dst implies v[j] == (if v0[dst].children.contains(j as usize) {
        NodeView { parent: None, ..v0[j] }
    } else {
        v0[j]
    }) by {
        assert(!copies.contains(j as usize)) by {
            if copies.contains(j as usize) {
                let m = choose|m: int| 0 <= m < copies.len() && copies[m] == j as usize;
                assert(v0.len() <= copies[m]);
            }
        }
    }
}

#[verifier::rlimit(100)]
proof fn lemma_assign_child_links(
    v0: Seq<NodeView>,
    mid: Seq<NodeView>,
    v: Seq<NodeView>,
    dst: int,
    src: int,
    copies: Seq<usize>,
    delta: int,
)
    requires
        assign_setup(v0, mid, v, dst, src, copies, delta),
    ensures
        forall|i: int, k: int|
            #![trigger v[i].children[k]]
            0 <= i < v.len() && 0 <= k < v[i].children.len() ==> {
                let c = v[i].children[k] as int;
                &&& 0 <= c < v.len()
                &&& v[c].rank < v[i].rank
                &&& v[c].parent == Some(i as usize)
            },
{
    lemma_rank_bounds(v0);
    assert forall|i: int, k: int|
        #![trigger v[i].children[k]]
        0 <= i < v.len() && 0 <= k < v[i].children.len() implies {
            let c = v[i].children[k] as int;
            &&& 0 <= c < v.len()
            &&& v[c].rank < v[i].rank
            &&& v[c].parent == Some(i as usize)
        } by {
        if i == dst {
            assert(copies.contains(copies[k]));
            assert(mid[copies[k] as int].rank < mid[dst].rank) by {
                assert(v0[src].children[k] < v0.len());
            }
        } else {
            assert(v[i] == mid[i] || v[i] == (NodeView { parent: v[i].parent, ..mid[i] }));
            let c = mid[i].children[k] as int;
            assert(mid[c].parent == Some(i as usize));
            if copies.contains(c as usize) {
                let m = choose|m: int| 0 <= m < copies.len() && copies[m] == c as usize;
                assert(mid[copies[m] as int].parent is None);
            }
            if v0[dst].children.contains(c as usize) {
                let m = choose|m: int| 0 <= m < v0[dst].children.len() && v0[dst].children[m] == c as usize;
                assert(v0[c].parent == Some(dst as usize));
            }
        }
    }
}

#[verifier::rlimit(100)]
proof fn lemma_assign_parent_links(
    v0: Seq<NodeView>,
    mid: Seq<NodeView>,
    v: Seq<NodeView>,
    dst: int,
    src: int,
    copies: Seq<usize>,
    delta: int,
)
    requires
        assign_setup(v0, mid, v, dst, src, copies, delta),
    ensures
        forall|i: int|
            #![trigger v[i].parent]
            0 <= i < v.len() ==> match v[i].parent {
                Some(p) => p < v.len() && v[i].rank < v[p as int].rank && v[p as int].children.contains(
                    i as usize,
                ),
                None => true,
            },
{
    lemma_rank_bounds(v0);
    assert forall|i: int| #![trigger v[i].parent] 0 <= i < v.len() implies match v[i].parent {
        Some(p) => p < v.len() && v[i].rank < v[p as int].rank && v[p as int].children.contains(
            i as usize,
        ),
        None => true,
    } by {
        if i == dst {
            if let Some(p) = v0[dst].parent {
                assert(mid[p as int].children.contains(dst as usize));
                assert(p != dst);
            }
        } else if copies.contains(i as usize) {
            let m = choose|m: int| 0 <= m < copies.len() && copies[m] == i as usize;
            assert(v[dst].children[m] == i as usize);
            assert(mid[copies[m] as int].rank < mid[dst].rank) by {
                assert(v0[src].children[m] < v0.len());
            }
        } else if v0[dst].children.contains(i as usize) {
        } else {
            if let Some(p) = mid[i].parent {
                if p == dst {
                    assert(mid[dst].children.contains(i as usize));
                }
            }
        }
    }
}

#[verifier::rlimit(100)]
proof fn lemma_assign_finish(
    v0: Seq<NodeView>,
    mid: Seq<NodeView>,
    v: Seq<NodeView>,
    dst: int,
    src: int,
    copies: Seq<usize>,
    delta: int,
)
    requires
        assign_setup(v0, mid, v, dst, src, copies, delta),
    ensures
        tree_wf(v),
        node_assigned(v0, v, dst, src),
{
    lemma_assign_copies(v0, mid, v, dst, src, copies, delta);
    lemma_assign_child_links(v0, mid, v, dst, src, copies, delta);
    lemma_assign_parent_links(v0, mid, v, dst, src, copies, delta);
}


/// `after` is `before` with the content of node `src` copied into node
/// `dst`: `dst` takes everything of `src` but keeps its parent and rank, and
/// its children are fresh copies of the subtrees under the children of
/// `src`; the former children of `dst` lose their parent, the copies are
/// new nodes, and every other node stays as it was.
pub open spec fn node_assigned(before: Seq<NodeView>, after: Seq<NodeView>, dst: int, src: int) -> bool {
    &&& after.len() >= before.len()
    &&& after[dst] == (NodeView {
        parent: before[dst].parent,
        rank: before[dst].rank,
        children: after[dst].children,
        ..before[src]
    })
    &&& after[dst].children.len() == before[src].children.len()
    &&& forall|k: int|
        #![trigger after[dst].children[k]]
        0 <= k < before[src].children.len() ==> before.len() <= after[dst].children[k]
            && is_copy(after, after[dst].children[k] as int, before, before[src].children[k] as int)
    &&& forall|j: int|
        #![trigger after[j]]
        0 <= j < before.len() && j != dst ==> after[j] == (if before[dst].children.contains(
            j as usize,
        ) {
            NodeView { parent: None, ..before[j] }
        } else {
            before[j]
        })
}

/// One step of `replace_children`: `after` is `before` with the content of
/// `src` copied into `dst` (nothing changes when they are the same node).
pub open spec fn assign_step(before: Seq<NodeView>, after: Seq<NodeView>, dst: int, src: int) -> bool {
    if dst == src {
        after == before
    } else {
        node_assigned(before, after, dst, src)
    }
}

/// `states` runs from `before` to `after`, one step per child in
/// `children`: step `k` copies the content of `results[k]`, which `f` gave
/// for the `k`-th child, into that child.
pub open spec fn replacement_trace<F: Fn(usize) -> Option<usize>>(
    f: F,
    before: Seq<NodeView>,
    after: Seq<NodeView>,
    children: Seq<usize>,
    states: Seq<Seq<NodeView>>,
    results: Seq<usize>,
) -> bool {
    &&& states.len() == children.len() + 1
    &&& results.len() == children.len()
    &&& states[0] == before
    &&& states[children.len() as int] == after
    &&& forall|k: int|
        0 <= k < children.len() ==> call_ensures(f, (children[k],), Some(#[trigger] results[k]))
            && assign_step(states[k], states[k + 1], children[k] as int, results[k] as int)
}

/// A statement contained in a statement list is a proper descendant of it.
pub proof fn lemma_contained_statement_is_descendant(v: Seq<NodeView>, l: int, s: usize)
    requires
        tree_wf(v),
        list_contains(v, l, s),
    ensures
        is_ancestor(v, l, s as int),
        s != l,
    decreases v[l].rank - min_rank(v), 1int, 0int,
{
    lemma_rank_bounds(v);
    if v[l].children.contains(s) {
        let k = choose|k: int| 0 <= k < v[l].children.len() && v[l].children[k] == s;
        assert(v[l].children[k] == s);
        assert(v[s as int].parent == Some(l as usize));
        lemma_ancestor_basics(v, l, s as int);
    } else {
        lemma_nested_statement_is_descendant(v, l, s, 0);
    }
}

proof fn lemma_nested_statement_is_descendant(v: Seq<NodeView>, l: int, s: usize, k: int)
    requires
        tree_wf(v),
        nested_list_contains(v, l, s, k),
    ensures
        is_ancestor(v, l, s as int),
        s != l,
    decreases v[l].rank - min_rank(v), 0int, (if 0 <= l < v.len() {
        v[l].children.len() - k
    } else {
        0
    }),
{
    let c = v[l].children[k] as int;
    if 0 <= c < v.len() && min_rank(v) <= v[c].rank < v[l].rank && spec_is_instance(
        v[c].kind,
        ASTType::StatementListBase,
    ) && list_contains(v, c, s) {
        lemma_contained_statement_is_descendant(v, c, s);
        assert(v[l].children[k] == c as usize);
        assert(v[c].parent == Some(l as usize));
        lemma_ancestor_basics(v, l, c);
        lemma_ancestor_transitive(v, l, c, s as int);
        lemma_ancestor_basics(v, l, s as int);
        lemma_ancestor_basics(v, c, s as int);
    } else {
        lemma_nested_statement_is_descendant(v, l, s, k + 1);
    }
}

/// The map of a list of declarations: each name to the identifier declared
/// for it last.
pub open spec fn names_map(entries: Seq<(String, usize)>) -> Map<Seq<char>, usize>
    decreases entries.len(),
{
    if entries.len() == 0 {
        Map::empty()
    } else {
        names_map(entries.drop_last()).insert(entries.last().0@, entries.last().1)
    }
}

proof fn lemma_names_map_lookup(entries: Seq<(String, usize)>, key: Seq<char>, j: int)
    requires
        -1 <= j < entries.len(),
        forall|k: int| j < k < entries.len() ==> (#[trigger] entries[k]).0@ != key,
        j >= 0 ==> entries[j].0@ == key,
    ensures
        j >= 0 ==> names_map(entries).dom().contains(key) && names_map(entries)[key] == entries[j].1,
        j < 0 ==> !names_map(entries).dom().contains(key),
    decreases entries.len(),
{
    if entries.len() > 0 {
        let last = entries.len() - 1;
        if j != last {
            assert(entries[last].0@ != key);
            let front = entries.drop_last();
            assert forall|k: int| j < k < front.len() implies (#[trigger] front[k]).0@ != key by {
                assert(front[k] == entries[k]);
            }
            if j >= 0 {
                assert(front[j] == entries[j]);
            }
            lemma_names_map_lookup(front, key, j);
        }
    }
}

/// Collects the children of a node, in order.
pub struct ChildListBuilder {
    pub children: Vec<usize>,
}

impl ChildListBuilder {
    /// A builder with no children yet.
    pub fn new() -> (r: Self)
        ensures
            r.children@ == Seq::<usize>::empty(),
    {
        ChildListBuilder { children: Vec::new() }
    }

    /// Appends `ast` to the children collected so far.
    pub fn add_child(&mut self, ast: usize)
        ensures
            final(self).children@ == old(self).children@.push(ast),
    {
        self.children.push(ast);
    }
}

/// A node that lists its children.
pub trait ASTChildren {
    /// The children, in order.
    spec fn spec_children(&self) -> Seq<usize>;

    /// Appends the children, in order, to those collected in `cb`.
    fn process_children(&self, cb: &mut ChildListBuilder)
        ensures
            final(cb).children@ == old(cb).children@ + self.spec_children(),
    ;

    /// The children, in order.
    fn children(&self) -> (r: Vec<usize>)
        ensures
            r@ == self.spec_children(),
    {
        let mut cb = ChildListBuilder::new();
        self.process_children(&mut cb);
        assert(cb.children@ =~= self.spec_children());
        cb.children
    }
}

/// The one-element sequence of `o`'s value, or the empty sequence.
pub open spec fn opt_seq(o: Option<usize>) -> Seq<usize> {
    match o {
        Some(x) => seq![x],
        None => Seq::empty(),
    }
}

pub(crate) fn add_optional_child(cb: &mut ChildListBuilder, o: Option<usize>)
    ensures
        final(cb).children@ == old(cb).children@ + opt_seq(o),
{
    if let Some(x) = o {
        cb.add_child(x);
    }
    assert(cb.children@ =~= old(cb).children@ + opt_seq(o));
}

pub(crate) fn add_children(cb: &mut ChildListBuilder, items: &Vec<usize>)
    ensures
        final(cb).children@ == old(cb).children@ + items@,
{
    let n = items.len();
    let mut i: usize = 0;
    while i < n
        invariant
            n == items@.len(),
            i <= n,
            cb.children@ =~= old(cb).children@ + items@.subrange(0, i as int),
        decreases n - i,
    {
        cb.add_child(items[i]);
        i = i + 1;
    }
    assert(items@.subrange(0, n as int) =~= items@);
}

fn copy_names(entries: &Vec<(String, usize)>) -> (r: Vec<(String, usize)>)
    ensures
        names_map(r@) == names_map(entries@),
{
    let n = entries.len();
    let mut r: Vec<(String, usize)> = Vec::new();
    let mut i: usize = 0;
    while i < n
        invariant
            n == entries@.len(),
            i <= n,
            names_map(r@) == names_map(entries@.subrange(0, i as int)),
        decreases n - i,
    {
        let name = entries[i].0.clone();
        let x = entries[i].1;
        let ghost before = r@;
        r.push((name, x));
        proof {
            assert(r@.drop_last() =~= before);
            assert(entries@.subrange(0, i + 1).drop_last() =~= entries@.subrange(0, i as int));
            assert(entries@.subrange(0, i + 1).last() == entries@[i as int]);
        }
        i = i + 1;
    }
    assert(entries@.subrange(0, n as int) =~= entries@);
    r
}

fn copy_strings(v: &Vec<String>) -> (r: Vec<String>)
    ensures
        r@.map_values(|s: String| s@) == v@.map_values(|s: String| s@),
{
    let n = v.len();
    let mut r: Vec<String> = Vec::new();
    let mut m: usize = 0;
    while m < n
        invariant
            n == v@.len(),
            m <= n,
            r@.len() == m,
            forall|j: int| 0 <= j < m ==> (#[trigger] r@[j])@ == v@[j]@,
        decreases n - m,
    {
        r.push(v[m].clone());
        m = m + 1;
    }
    assert(r@.map_values(|s: String| s@) =~= v@.map_values(|s: String| s@));
    r
}

fn copy_indices(v: &Vec<usize>) -> (r: Vec<usize>)
    ensures
        r@ == v@,
{
    let n = v.len();
    let mut r: Vec<usize> = Vec::new();
    let mut m: usize = 0;
    while m < n
        invariant
            n == v@.len(),
            m <= n,
            r@ =~= v@.subrange(0, m as int),
        decreases n - m,
    {
        r.push(v[m]);
        m = m + 1;
    }
    assert(r@ =~= v@);
    r
}

/// A store of syntax-tree nodes.
pub struct AstArena {
    nodes: Vec<AstNode>,
    children: Vec<Vec<usize>>,
    parents: Vec<Option<usize>>,
    statements: Vec<Option<usize>>,
    functions: Vec<Option<usize>>,
    targets: Vec<Option<usize>>,
    names: Vec<Vec<(String, usize)>>,
    ranks: Ghost<Seq<int>>,
}

impl View for AstArena {
    type V = Seq<NodeView>;

    closed spec fn view(&self) -> Seq<NodeView> {
        Seq::new(
            self.nodes@.len(),
            |i: int|
                NodeView {
                    kind: self.nodes@[i].kind,
                    line: self.nodes@[i].line,
                    column: self.nodes@[i].column,
                    idf: self.nodes@[i].idf,
                    target: self.targets@[i],
                    namespace: self.nodes@[i].namespace@,
                    original_code: self.nodes@[i].original_code@.map_values(|s: String| s@),
                    names: names_map(self.names@[i]@),
                    parent: self.parents@[i],
                    children: self.children@[i]@,
                    statement: self.statements@[i],
                    function: self.functions@[i],
                    rank: self.ranks@[i],
                },
        )
    }
}

impl AstArena {
    /// The parallel tables of the store have one entry per node.
    pub closed spec fn lengths_agree(&self) -> bool {
        &&& self.children@.len() == self.nodes@.len()
        &&& self.parents@.len() == self.nodes@.len()
        &&& self.statements@.len() == self.nodes@.len()
        &&& self.functions@.len() == self.nodes@.len()
        &&& self.targets@.len() == self.nodes@.len()
        &&& self.names@.len() == self.nodes@.len()
        &&& self.ranks@.len() == self.nodes@.len()
    }

    /// The store is internally consistent and its links form a forest.
    pub open spec fn wf(&self) -> bool {
        &&& self.lengths_agree()
        &&& tree_wf(self@)
    }

    /// An empty store.
    pub fn new() -> (r: Self)
        ensures
            r.wf(),
            r@ == Seq::<NodeView>::empty(),
    {
        let r = AstArena {
            nodes: Vec::new(),
            children: Vec::new(),
            parents: Vec::new(),
            statements: Vec::new(),
            functions: Vec::new(),
            targets: Vec::new(),
            names: Vec::new(),
            ranks: Ghost(Seq::empty()),
        };
        assert(r@ =~= Seq::<NodeView>::empty());
        r
    }

    /// The number of nodes in the store.
    pub fn len(&self) -> (n: usize)
        requires
            self.wf(),
        ensures
            n == self@.len(),
    {
        self.nodes.len()
    }

    /// Adds a node with the given children, which must be nodes of the store
    /// without a parent; they become children of the new node, in the given order.
    pub fn add_node(&mut self, node: AstNode, children: Vec<usize>) -> (id: usize)
        requires
            old(self).wf(),
            children@.no_duplicates(),
            forall|k: int|
                0 <= k < children@.len() ==> #[trigger] children@[k] < old(self)@.len()
                    && old(self)@[children@[k] as int].parent is None,
            kind_valid(node.kind),
            childless_kind(node.kind) ==> children@.len() == 0,
            node.idf matches Some(x) ==> x < old(self)@.len(),
            node.target matches Some(t) ==> t < old(self)@.len(),
            forall|k: int| 0 <= k < node.namespace@.len() ==> #[trigger] node.namespace@[k] < old(self)@.len(),
        ensures
            final(self).wf(),
            id == old(self)@.len(),
            final(self)@.len() == old(self)@.len() + 1,
            final(self)@[id as int] == fresh_view(node, children@, max_rank(old(self)@) + 1),
            forall|j: int|
                #![trigger final(self)@[j]]
                0 <= j < old(self)@.len() ==> final(self)@[j] == (if children@.contains(j as usize) {
                    NodeView { parent: Some(id), ..old(self)@[j] }
                } else {
                    old(self)@[j]
                }),
            node_added(old(self)@, final(self)@, children@),
    {
        proof {
            lemma_rank_bounds(self@);
        }
        let ghost old_v = self@;
        let id = self.push_node(node, children, Ghost(max_rank(self@) + 1));
        proof {
            let v = self@;
            assert forall|j: int| #![trigger v[j]] 0 <= j < old_v.len() implies v[j] == (
            if children@.contains(j as usize) {
                NodeView { parent: Some(old_v.len() as usize), ..old_v[j] }
            } else {
                old_v[j]
            }) by {}
        }
        id
    }

    fn push_node(&mut self, node: AstNode, children: Vec<usize>, rank: Ghost<int>) -> (id: usize)
        requires
            old(self).wf(),
            children@.no_duplicates(),
            forall|k: int|
                0 <= k < children@.len() ==> #[trigger] children@[k] < old(self)@.len()
                    && old(self)@[children@[k] as int].parent is None
                    && old(self)@[children@[k] as int].rank < rank@,
            kind_valid(node.kind),
            childless_kind(node.kind) ==> children@.len() == 0,
            node.idf matches Some(x) ==> x < old(self)@.len(),
            node.target matches Some(t) ==> t < old(self)@.len(),
            forall|k: int| 0 <= k < node.namespace@.len() ==> #[trigger] node.namespace@[k] < old(self)@.len(),
        ensures
            final(self).wf(),
            id == old(self)@.len(),
            final(self)@.len() == old(self)@.len() + 1,
            final(self)@[id as int] == fresh_view(node, children@, rank@),
            forall|j: int|
                #![trigger final(self)@[j]]
                0 <= j < old(self)@.len() ==> final(self)@[j] == (if children@.contains(j as usize) {
                    NodeView { parent: Some(id), ..old(self)@[j] }
                } else {
                    old(self)@[j]
                }),
    {
        let ghost old_v = self@;
        let id = self.nodes.len();
        let n = children.len();
        let mut k: usize = 0;
        while k < n
            invariant
                n == children@.len(),
                k <= n,
                id == old_v.len(),
                self.lengths_agree(),
                self.nodes@.len() == id,
                children@.no_duplicates(),
                forall|m: int|
                    0 <= m < children@.len() ==> #[trigger] children@[m] < old_v.len()
                        && old_v[children@[m] as int].parent is None,
                forall|j: int|
                    #![trigger self@[j]]
                    0 <= j < old_v.len() ==> self@[j] == (if children@.subrange(0, k as int).contains(
                        j as usize,
                    ) {
                        NodeView { parent: Some(id), ..old_v[j] }
                    } else {
                        old_v[j]
                    }),
                self@.len() == old_v.len(),
            decreases n - k,
        {
            let c = children[k];
            let ghost before = self@;
            self.parents.set(c, Some(id));
            proof {
                assert(self@ =~= before.update(c as int, NodeView { parent: Some(id), ..before[c as int] }));
                assert(children@.subrange(0, k + 1) =~= children@.subrange(0, k as int).push(c));
                assert(!children@.subrange(0, k as int).contains(c)) by {
                    if children@.subrange(0, k as int).contains(c) {
                        let m = choose|m: int| 0 <= m < k && children@.subrange(0, k as int)[m] == c;
                        assert(children@[m] == children@[k as int]);
                    }
                }
                assert forall|j: int| #![trigger self@[j]] 0 <= j < old_v.len() implies self@[j] == (
                if children@.subrange(0, k + 1).contains(j as usize) {
                    NodeView { parent: Some(id), ..old_v[j] }
                } else {
                    old_v[j]
                }) by {
                    let s0 = children@.subrange(0, k as int);
                    let s1 = children@.subrange(0, k + 1);
                    if j == c as int {
                        assert(before[j] == old_v[j]);
                        assert(s1[k as int] == c);
                    } else {
                        assert(self@[j] == before[j]);
                        if s1.contains(j as usize) {
                            let m = choose|m: int| 0 <= m < s1.len() && s1[m] == j as usize;
                            assert(s0[m] == j as usize);
                        }
                        if s0.contains(j as usize) {
                            let m = choose|m: int| 0 <= m < s0.len() && s0[m] == j as usize;
                            assert(s1[m] == j as usize);
                        }
                    }
                }
            }
            k = k + 1;
        }
        assert(children@.subrange(0, n as int) =~= children@);
        let mut copy: Vec<usize> = Vec::new();
        let mut m: usize = 0;
        while m < n
            invariant
                n == children@.len(),
                m <= n,
                copy@ =~= children@.subrange(0, m as int),
            decreases n - m,
        {
            copy.push(children[m]);
            m = m + 1;
        }
        assert(copy@ =~= children@);
        let ghost pre = self@;
        let t = node.target;
        self.nodes.push(node);
        assert(self.nodes@.len() <= usize::MAX) by {
            assert(self.nodes.len() == self.nodes@.len());
        }
        self.children.push(copy);
        self.parents.push(None);
        self.statements.push(None);
        self.functions.push(None);
        self.targets.push(t);
        self.names.push(Vec::new());
        self.ranks = Ghost(self.ranks@.push(rank@));
        let ghost v = self@;
        assert(v[id as int] =~= fresh_view(node, children@, rank@)) by {
            assert(v[id as int].original_code =~= fresh_view(
                node,
                children@,
                rank@,
            ).original_code);
        }
        assert forall|j: int| #![trigger v[j]] 0 <= j < old_v.len() implies v[j] == (
        if children@.contains(j as usize) {
            NodeView { parent: Some(id), ..old_v[j] }
        } else {
            old_v[j]
        }) by {
            assert(v[j] == pre[j]);
        }
        assert(tree_wf(v)) by {
            assert forall|i: int, k: int|
                #![trigger v[i].children[k]]
                0 <= i < v.len() && 0 <= k < v[i].children.len() implies {
                let c = v[i].children[k] as int;
                &&& 0 <= c < v.len()
                &&& v[c].rank < v[i].rank
                &&& v[c].parent == Some(i as usize)
            } by {
                if i < id {
                    let c = old_v[i].children[k] as int;
                    assert(old_v[c].parent == Some(i as usize));
                    if children@.contains(c as usize) {
                        let m = choose|m: int| 0 <= m < children@.len() && children@[m] == c as usize;
                        assert(old_v[children@[m] as int].parent is None);
                    }
                } else {
                    let c = children@[k] as int;
                    assert(children@.contains(c as usize));
                }
            }
            assert forall|i: int| #![trigger v[i].parent] 0 <= i < v.len() implies match v[i].parent {
                Some(p) => p < v.len() && v[i].rank < v[p as int].rank && v[p as int].children.contains(
                    i as usize,
                ),
                None => true,
            } by {
                if i < id {
                    if children@.contains(i as usize) {
                        let m = choose|m: int| 0 <= m < children@.len() && children@[m] == i as usize;
                        assert(v[id as int].children[m] == i as usize);
                    } else {
                        if let Some(p) = old_v[i].parent {
                            assert(old_v[p as int].children.contains(i as usize));
                            let m = choose|m: int|
                                0 <= m < old_v[p as int].children.len() && old_v[p as int].children[m]
                                    == i as usize;
                            assert(v[p as int].children[m] == i as usize);
                        }
                    }
                }
            }
        }
        id
    }

    fn set_parents(&mut self, items: &Vec<usize>, p: Option<usize>)
        requires
            old(self).lengths_agree(),
            old(self).nodes@.len() <= usize::MAX,
            items@.no_duplicates(),
            forall|k: int| 0 <= k < items@.len() ==> #[trigger] items@[k] < old(self).nodes@.len(),
        ensures
            final(self).lengths_agree(),
            final(self).nodes@ == old(self).nodes@,
            final(self).children@ == old(self).children@,
            final(self).statements@ == old(self).statements@,
            final(self).functions@ == old(self).functions@,
            final(self).targets@ == old(self).targets@,
            final(self).names@ == old(self).names@,
            final(self).ranks@ == old(self).ranks@,
            forall|j: int|
                0 <= j < old(self).nodes@.len() ==> #[trigger] final(self).parents@[j] == (
                if items@.contains(j as usize) {
                    p
                } else {
                    old(self).parents@[j]
                }),
    {
        let n = items.len();
        let mut k: usize = 0;
        while k < n
            invariant
                n == items@.len(),
                k <= n,
                self.lengths_agree(),
                old(self).nodes@.len() <= usize::MAX,
                self.nodes@ == old(self).nodes@,
                self.children@ == old(self).children@,
                self.statements@ == old(self).statements@,
                self.functions@ == old(self).functions@,
                self.targets@ == old(self).targets@,
                self.names@ == old(self).names@,
                self.ranks@ == old(self).ranks@,
                items@.no_duplicates(),
                forall|m: int| 0 <= m < items@.len() ==> #[trigger] items@[m] < old(self).nodes@.len(),
                forall|j: int|
                    0 <= j < old(self).nodes@.len() ==> #[trigger] self.parents@[j] == (
                    if items@.subrange(0, k as int).contains(j as usize) {
                        p
                    } else {
                        old(self).parents@[j]
                    }),
            decreases n - k,
        {
            let c = items[k];
            let ghost before = self.parents@;
            self.parents.set(c, p);
            proof {
                let s0 = items@.subrange(0, k as int);
                let s1 = items@.subrange(0, k + 1);
                assert(s1 =~= s0.push(c));
                assert forall|j: int| 0 <= j < old(self).nodes@.len() implies #[trigger] self.parents@[j] == (
                if s1.contains(j as usize) {
                    p
                } else {
                    old(self).parents@[j]
                }) by {
                    if j == c as int {
                        assert(s1[k as int] == c);
                    } else {
                        assert(self.parents@[j] == before[j]);
                        if s1.contains(j as usize) {
                            let m = choose|m: int| 0 <= m < s1.len() && s1[m] == j as usize;
                            assert(s1[k as int] == c);
                            assert(j as usize != c);
                            assert(m < k);
                            assert(s0[m] == s1[m]);
                        }
                        if s0.contains(j as usize) {
                            let m = choose|m: int| 0 <= m < s0.len() && s0[m] == j as usize;
                            assert(s1[m] == s0[m]);
                        }
                    }
                }
            }
            k = k + 1;
        }
        assert(items@.subrange(0, n as int) =~= items@);
    }

    fn copy_links(&mut self, dst: usize, src: usize)
        requires
            old(self).wf(),
            dst < old(self)@.len(),
            src < old(self)@.len(),
        ensures
            final(self).wf(),
            final(self)@ == old(self)@.update(
                dst as int,
                NodeView {
                    statement: old(self)@[src as int].statement,
                    function: old(self)@[src as int].function,
                    target: old(self)@[src as int].target,
                    names: old(self)@[src as int].names,
                    ..old(self)@[dst as int]
                },
            ),
    {
        let ghost b = self@;
        let st = self.statements[src];
        let fc = self.functions[src];
        let tg = self.targets[src];
        let nm = copy_names(&self.names[src]);
        self.statements.set(dst, st);
        self.functions.set(dst, fc);
        self.targets.set(dst, tg);
        self.names.set(dst, nm);
        assert(self@ =~= b.update(
            dst as int,
            NodeView {
                statement: b[src as int].statement,
                function: b[src as int].function,
                target: b[src as int].target,
                names: b[src as int].names,
                ..b[dst as int]
            },
        ));
    }

    fn copy_children(&mut self, x: usize, base: Ghost<Seq<NodeView>>, delta: Ghost<int>) -> (copies: Vec<usize>)
        requires
            old(self).wf(),
            tree_wf(base@),
            x < base@.len(),
            base@.len() <= old(self)@.len(),
            forall|j: int| 0 <= j < base@.len() ==> #[trigger] old(self)@[j] == base@[j],
        ensures
            final(self).wf(),
            old(self)@.len() <= final(self)@.len(),
            forall|j: int| 0 <= j < old(self)@.len() ==> #[trigger] final(self)@[j] == old(self)@[j],
            copies@.len() == base@[x as int].children.len(),
            forall|m1: int, m2: int| 0 <= m1 < m2 < copies@.len() ==> copies@[m1] < copies@[m2],
            forall|m: int|
                0 <= m < copies@.len() ==> {
                    &&& old(self)@.len() <= #[trigger] copies@[m] < final(self)@.len()
                    &&& final(self)@[copies@[m] as int].parent is None
                    &&& final(self)@[copies@[m] as int].rank == base@[base@[x as int].children[m] as int].rank
                        + delta@
                    &&& is_copy(final(self)@, copies@[m] as int, base@, base@[x as int].children[m] as int)
                },
        decreases base@[x as int].rank - min_rank(base@), 0int,
    {
        let ghost v0 = base@;
        let ghost start = self@;
        proof {
            lemma_rank_bounds(v0);
        }
        assert(start[x as int] == v0[x as int]);
        let ch = copy_indices(&self.children[x]);
        assert(ch@ == v0[x as int].children);
        let n = ch.len();
        let mut copies: Vec<usize> = Vec::new();
        let mut k: usize = 0;
        while k < n
            invariant
                self.wf(),
                base@ == v0,
                tree_wf(v0),
                x < v0.len(),
                v0.len() <= start.len(),
                forall|j: int| 0 <= j < v0.len() ==> #[trigger] start[j] == v0[j],
                ch@ == v0[x as int].children,
                n == ch@.len(),
                k <= n,
                copies@.len() == k,
                start.len() <= self@.len(),
                forall|j: int| 0 <= j < start.len() ==> #[trigger] self@[j] == start[j],
                forall|m1: int, m2: int| 0 <= m1 < m2 < copies@.len() ==> copies@[m1] < copies@[m2],
                forall|m: int|
                    0 <= m < copies@.len() ==> {
                        &&& start.len() <= #[trigger] copies@[m] < self@.len()
                        &&& self@[copies@[m] as int].parent is None
                        &&& self@[copies@[m] as int].rank == v0[ch@[m] as int].rank + delta@
                        &&& is_copy(self@, copies@[m] as int, v0, ch@[m] as int)
                    },
            decreases n - k,
        {
            let y = ch[k];
            let ghost before = self@;
            proof {
                lemma_rank_bounds(v0);
                assert(v0[x as int].children[k as int] == y);
                assert(0 <= y < v0.len());
                assert(v0[y as int].rank < v0[x as int].rank);
                assert(min_rank(v0) <= v0[y as int].rank);
                assert forall|j: int| 0 <= j < v0.len() implies #[trigger] before[j] == v0[j] by {
                    assert(before[j] == start[j]);
                }
            }
            let cy = self.copy_subtree(y, base, delta);
            proof {
                assert forall|m: int| 0 <= m < copies@.len() implies is_copy(
                    self@,
                    #[trigger] copies@[m] as int,
                    v0,
                    ch@[m] as int,
                ) by {
                    assert forall|j: int|
                        0 <= j < before.len() implies #[trigger] self@[j] == (NodeView {
                        parent: self@[j].parent,
                        ..before[j]
                    }) by {
                        assert(self@[j] == before[j]);
                    }
                    lemma_copy_stable(before, self@, copies@[m] as int, v0, ch@[m] as int);
                }
            }
            copies.push(cy);
            k = k + 1;
        }
        copies
    }

    fn node_data(&self, x: usize) -> (n: AstNode)
        requires
            self.wf(),
            x < self@.len(),
        ensures
            n.kind == self@[x as int].kind,
            n.line == self@[x as int].line,
            n.column == self@[x as int].column,
            n.idf == self@[x as int].idf,
            n.target == self@[x as int].target,
            n.namespace@ == self@[x as int].namespace,
            n.original_code@.map_values(|s: String| s@) == self@[x as int].original_code,
    {
        AstNode {
            kind: self.nodes[x].kind,
            line: self.nodes[x].line,
            column: self.nodes[x].column,
            idf: self.nodes[x].idf,
            target: self.targets[x],
            namespace: copy_indices(&self.nodes[x].namespace),
            original_code: copy_strings(&self.nodes[x].original_code),
        }
    }

    #[verifier::rlimit(100)]
    fn copy_subtree(&mut self, x: usize, base: Ghost<Seq<NodeView>>, delta: Ghost<int>) -> (c: usize)
        requires
            old(self).wf(),
            tree_wf(base@),
            x < base@.len(),
            base@.len() <= old(self)@.len(),
            forall|j: int| 0 <= j < base@.len() ==> #[trigger] old(self)@[j] == base@[j],
        ensures
            final(self).wf(),
            old(self)@.len() <= c < final(self)@.len(),
            forall|j: int| 0 <= j < old(self)@.len() ==> #[trigger] final(self)@[j] == old(self)@[j],
            final(self)@[c as int].parent is None,
            final(self)@[c as int].rank == base@[x as int].rank + delta@,
            is_copy(final(self)@, c as int, base@, x as int),
        decreases base@[x as int].rank - min_rank(base@), 1int,
    {
        let ghost v0 = base@;
        let ghost start = self@;
        let copies = self.copy_children(x, base, delta);
        let ghost mid = self@;
        assert(mid[x as int] == v0[x as int]);
        assert(copies@.no_duplicates()) by {
            assert forall|i: int, j: int|
                0 <= i < copies@.len() && 0 <= j < copies@.len() && i != j implies copies@[i]
                != copies@[j] by {
                if i < j {
                    assert(copies@[i] < copies@[j]);
                } else {
                    assert(copies@[j] < copies@[i]);
                }
            }
        }
        assert(forall|m: int| 0 <= m < copies@.len() ==> mid[#[trigger] copies@[m] as int].rank
            < v0[x as int].rank + delta@) by {
            assert forall|m: int| 0 <= m < copies@.len() implies mid[#[trigger] copies@[m] as int].rank
                < v0[x as int].rank + delta@ by {
                assert(v0[x as int].children[m] < v0.len());
            }
        }
        let node_copy = self.node_data(x);
        let c = self.push_node(node_copy, copies, Ghost(v0[x as int].rank + delta@));
        let ghost pushed = self@;
        self.copy_links(c, x);
        proof {
            let fin = self@;
            assert(pushed[x as int] == mid[x as int]);
            assert(fin[c as int] =~= (NodeView {
                parent: fin[c as int].parent,
                rank: fin[c as int].rank,
                children: copies@,
                ..v0[x as int]
            }));
            lemma_new_copy(mid, fin, c as int, copies@, v0, x as int);
        }
        c
    }

    /// Copies the content of node `src` into node `dst` in place (see
    /// `node_assigned`): `dst` takes everything of `src`, with fresh copies
    /// of the subtrees under its children, and keeps its own parent. `src`
    /// and every other node stay as they were, except that the former
    /// children of `dst` no longer have it as parent. Copying a node onto
    /// itself changes nothing.
    pub fn assign(&mut self, dst: usize, src: usize)
        requires
            old(self).wf(),
            dst < old(self)@.len(),
            src < old(self)@.len(),
            kinds_compatible(old(self)@[dst as int].kind, old(self)@[src as int].kind),
        ensures
            final(self).wf(),
            dst == src ==> final(self)@ == old(self)@,
            dst != src ==> node_assigned(old(self)@, final(self)@, dst as int, src as int),
    {
        if dst == src {
            return;
        }
        let ghost v0 = self@;
        let delta = Ghost(v0[dst as int].rank - v0[src as int].rank);
        let copies = self.copy_children(src, Ghost(v0), delta);
        let ghost mid = self@;
        assert(mid[dst as int] == v0[dst as int] && mid[src as int] == v0[src as int]);
        let dst_children = copy_indices(&self.children[dst]);
        assert(dst_children@ == v0[dst as int].children);
        let node_copy = self.node_data(src);
        assert(copies@.no_duplicates()) by {
            assert forall|i: int, j: int|
                0 <= i < copies@.len() && 0 <= j < copies@.len() && i != j implies copies@[i]
                != copies@[j] by {
                if i < j {
                    assert(copies@[i] < copies@[j]);
                } else {
                    assert(copies@[j] < copies@[i]);
                }
            }
        }
        assert(forall|k: int| 0 <= k < dst_children@.len() ==> #[trigger] dst_children@[k]
            < self.nodes@.len()) by {
            assert forall|k: int| 0 <= k < dst_children@.len() implies #[trigger] dst_children@[k]
                < self.nodes@.len() by {
                assert(v0[dst as int].children[k] < v0.len());
            }
        }
        let st = self.statements[src];
        let fc = self.functions[src];
        let tg = self.targets[src];
        let nm = copy_names(&self.names[src]);
        self.set_parents(&dst_children, None);
        self.set_parents(&copies, Some(dst));
        self.nodes.set(dst, node_copy);
        self.children.set(dst, copies);
        self.statements.set(dst, st);
        self.functions.set(dst, fc);
        self.targets.set(dst, tg);
        self.names.set(dst, nm);
        let ghost v = self@;
        assert(!copies@.contains(dst)) by {
            if copies@.contains(dst) {
                let m = choose|m: int| 0 <= m < copies@.len() && copies@[m] == dst;
                assert(v0.len() <= copies@[m]);
            }
        }
        assert(!dst_children@.contains(dst)) by {
            if dst_children@.contains(dst) {
                let m = choose|m: int| 0 <= m < dst_children@.len() && dst_children@[m] == dst;
                assert(v0[dst as int].children[m] == dst);
            }
        }
        assert(v[dst as int] == (NodeView {
            parent: v0[dst as int].parent,
            rank: v0[dst as int].rank,
            children: v[dst as int].children,
            ..v0[src as int]
        })) by {
            assert(v[dst as int] =~= (NodeView {
                parent: v0[dst as int].parent,
                rank: v0[dst as int].rank,
                children: v[dst as int].children,
                ..v0[src as int]
            }));
        }
        assert(v[dst as int].children == copies@);
        assert(forall|j: int|
            #![trigger v[j]]
            0 <= j < mid.len() && j != dst ==> v[j] == (if copies@.contains(j as usize) {
                NodeView { parent: Some(dst), ..mid[j] }
            } else if dst_children@.contains(j as usize) {
                NodeView { parent: None, ..mid[j] }
            } else {
                mid[j]
            })) by {
            assert forall|j: int|
                #![trigger v[j]]
                0 <= j < mid.len() && j != dst implies v[j] == (if copies@.contains(j as usize) {
                NodeView { parent: Some(dst), ..mid[j] }
            } else if dst_children@.contains(j as usize) {
                NodeView { parent: None, ..mid[j] }
            } else {
                mid[j]
            }) by {
                if copies@.contains(j as usize) && dst_children@.contains(j as usize) {
                    let m = choose|m: int| 0 <= m < copies@.len() && copies@[m] == j as usize;
                    let m2 = choose|m: int| 0 <= m < dst_children@.len() && dst_children@[m] == j as usize;
                    assert(v0.len() <= copies@[m]);
                    assert(v0[dst as int].children[m2] < v0.len());
                }
            }
        }
        proof {
            lemma_assign_finish(v0, mid, v, dst as int, src as int, copies@, delta@);
        }
    }


    /// Replaces the content of each child of node `id`, in order, by a copy
    /// of the node that `f` gives for it (see `assign`): the children stay the
    /// same nodes, in the same order.
    pub fn replace_children<F: Fn(usize) -> Option<usize>>(&mut self, id: usize, f: F)
        requires
            old(self).wf(),
            id < old(self)@.len(),
            forall|k: int|
                0 <= k < old(self)@[id as int].children.len() ==> call_requires(
                    f,
                    (#[trigger] old(self)@[id as int].children[k],),
                ),
            forall|k: int, r: Option<usize>|
                0 <= k < old(self)@[id as int].children.len() && #[trigger] call_ensures(
                    f,
                    (old(self)@[id as int].children[k],),
                    r,
                ) ==> (r matches Some(x) && x < old(self)@.len() && kinds_compatible(
                    old(self)@[old(self)@[id as int].children[k] as int].kind,
                    old(self)@[x as int].kind,
                ) && forall|j: int|
                    0 <= j < k ==> old(self)@[id as int].children[j] != x),
        ensures
            final(self).wf(),
            final(self)@[id as int] == old(self)@[id as int],
            exists|states: Seq<Seq<NodeView>>, results: Seq<usize>|
                replacement_trace(
                    f,
                    old(self)@,
                    final(self)@,
                    old(self)@[id as int].children,
                    states,
                    results,
                ),
    {
        let ghost v0 = self@;
        let ch = copy_indices(&self.children[id]);
        assert(ch@ == v0[id as int].children);
        let n = ch.len();
        let mut k: usize = 0;
        let ghost mut states: Seq<Seq<NodeView>> = seq![v0];
        let ghost mut results: Seq<usize> = Seq::empty();
        while k < n
            invariant
                self.wf(),
                id < v0.len(),
                tree_wf(v0),
                ch@ == v0[id as int].children,
                n == ch@.len(),
                k <= n,
                v0.len() <= self@.len(),
                self@[id as int] == v0[id as int],
                forall|j: int| k <= j < n ==> #[trigger] self@[ch@[j] as int] == v0[ch@[j] as int],
                forall|x: int|
                    0 <= x < v0.len() && (forall|j: int| 0 <= j < k ==> ch@[j] != x) ==> (
                    #[trigger] self@[x]).kind == v0[x].kind,
                forall|m: int| 0 <= m < n ==> call_requires(f, (#[trigger] ch@[m],)),
                forall|m: int, r: Option<usize>|
                    0 <= m < n && #[trigger] call_ensures(f, (ch@[m],), r) ==> (r matches Some(x) && x
                        < v0.len() && kinds_compatible(v0[ch@[m] as int].kind, v0[x as int].kind)
                        && forall|j: int| 0 <= j < m ==> ch@[j] != x),
                states.len() == k + 1,
                results.len() == k,
                states[0] == v0,
                states[k as int] == self@,
                forall|m: int|
                    0 <= m < k ==> call_ensures(f, (ch@[m],), Some(#[trigger] results[m]))
                        && assign_step(states[m], states[m + 1], ch@[m] as int, results[m] as int),
            decreases n - k,
        {
            let c = ch[k];
            let r = f(c);
            let x = r.unwrap();
            let ghost before = self@;
            proof {
                assert(c < v0.len()) by {
                    assert(v0[id as int].children[k as int] == c);
                }
                assert(self@[c as int] == v0[c as int]);
                assert(self@[x as int].kind == v0[x as int].kind);
            }
            self.assign(c, x);
            proof {
                let after = self@;
                assert(assign_step(before, after, c as int, x as int));
                assert(c != id) by {
                    assert(v0[id as int].children[k as int] == c);
                    assert(v0[c as int].rank < v0[id as int].rank);
                }
                assert(!before[c as int].children.contains(id)) by {
                    if before[c as int].children.contains(id) {
                        let m = choose|m: int| 0 <= m < before[c as int].children.len() && before[c as int].children[m] == id;
                        assert(before[id as int].rank < before[c as int].rank);
                        assert(v0[c as int].rank < v0[id as int].rank) by {
                            assert(v0[id as int].children[k as int] == c);
                        }
                    }
                }
                assert(after[id as int] == v0[id as int]);
                assert forall|j: int| k + 1 <= j < n implies #[trigger] after[ch@[j] as int] == v0[ch@[j] as int] by {
                    let cj = ch@[j];
                    assert(v0[id as int].children[j] == cj);
                    assert(cj != c) by {
                        assert(v0[id as int].children.no_duplicates());
                    }
                    assert(before[cj as int] == v0[cj as int]);
                    assert(!before[c as int].children.contains(cj)) by {
                        if before[c as int].children.contains(cj) {
                            assert(before[cj as int].parent == Some(c));
                            assert(v0[cj as int].parent == Some(id));
                        }
                    }
                }
                assert forall|y: int|
                    0 <= y < v0.len() && (forall|j: int| 0 <= j < k + 1 ==> ch@[j] != y) implies (
                    #[trigger] after[y]).kind == v0[y].kind by {
                    assert(ch@[k as int] != y);
                    assert(y != c);
                }
                states = states.push(after);
                results = results.push(x);
                assert forall|m: int|
                    0 <= m < k + 1 implies call_ensures(f, (ch@[m],), Some(#[trigger] results[m]))
                        && assign_step(states[m], states[m + 1], ch@[m] as int, results[m] as int) by {
                    if m < k {
                        assert(states[m] == states.drop_last()[m]);
                    }
                }
            }
            k = k + 1;
        }
        assert(replacement_trace(f, v0, self@, v0[id as int].children, states, results));
    }

    /// Adds a node for the record `rec` (a statement or definition): its
    /// children in the store are the ones the record lists, in the record's order.
    pub fn add_node_of<R: ASTChildren>(&mut self, node: AstNode, rec: &R) -> (id: usize)
        requires
            old(self).wf(),
            rec.spec_children().no_duplicates(),
            forall|k: int|
                0 <= k < rec.spec_children().len() ==> #[trigger] rec.spec_children()[k] < old(
                    self,
                )@.len() && old(self)@[rec.spec_children()[k] as int].parent is None,
            kind_valid(node.kind),
            childless_kind(node.kind) ==> rec.spec_children().len() == 0,
            node.idf matches Some(x) ==> x < old(self)@.len(),
            node.target matches Some(t) ==> t < old(self)@.len(),
            forall|k: int| 0 <= k < node.namespace@.len() ==> #[trigger] node.namespace@[k] < old(self)@.len(),
        ensures
            final(self).wf(),
            id == old(self)@.len(),
            final(self)@[id as int] == fresh_view(node, rec.spec_children(), max_rank(old(self)@) + 1),
            final(self)@[id as int].children == rec.spec_children(),
            node_added(old(self)@, final(self)@, rec.spec_children()),
    {
        let ch = rec.children();
        self.add_node(node, ch)
    }

    /// Records `stmt` as the statement that encloses the expression `expr`.
    pub fn set_statement(&mut self, expr: usize, stmt: usize)
        requires
            old(self).wf(),
            expr < old(self)@.len(),
            stmt < old(self)@.len(),
        ensures
            final(self).wf(),
            final(self)@ == old(self)@.update(
                expr as int,
                NodeView { statement: Some(stmt), ..old(self)@[expr as int] },
            ),
    {
        let ghost old_v = self@;
        self.statements.set(expr, Some(stmt));
        assert(self@ =~= old_v.update(
            expr as int,
            NodeView { statement: Some(stmt), ..old_v[expr as int] },
        ));
    }

    /// Records `fct` as the function that encloses the statement `stmt`.
    pub fn set_function(&mut self, stmt: usize, fct: usize)
        requires
            old(self).wf(),
            stmt < old(self)@.len(),
            fct < old(self)@.len(),
        ensures
            final(self).wf(),
            final(self)@ == old(self)@.update(
                stmt as int,
                NodeView { function: Some(fct), ..old(self)@[stmt as int] },
            ),
    {
        let ghost old_v = self@;
        self.functions.set(stmt, Some(fct));
        assert(self@ =~= old_v.update(
            stmt as int,
            NodeView { function: Some(fct), ..old_v[stmt as int] },
        ));
    }

    /// Records `target` as the declaration that node `id` refers to.
    pub fn set_target(&mut self, id: usize, target: usize)
        requires
            old(self).wf(),
            id < old(self)@.len(),
            target < old(self)@.len(),
        ensures
            final(self).wf(),
            final(self)@ == old(self)@.update(
                id as int,
                NodeView { target: Some(target), ..old(self)@[id as int] },
            ),
    {
        let ghost old_v = self@;
        let mut held = AstNode::new(self.nodes[id].kind, None, None);
        std::mem::swap(&mut held, &mut self.nodes[id]);
        held.target = Some(target);
        self.nodes.set(id, held);
        self.targets.set(id, Some(target));
        assert(self@ =~= old_v.update(
            id as int,
            NodeView { target: Some(target), ..old_v[id as int] },
        ));
    }

    /// Declares `name` in the scope of node `id` as identifier `idf`,
    /// replacing an earlier declaration of the same name.
    pub fn add_name(&mut self, id: usize, name: String, idf: usize)
        requires
            old(self).wf(),
            id < old(self)@.len(),
            idf < old(self)@.len(),
        ensures
            final(self).wf(),
            final(self)@ == old(self)@.update(
                id as int,
                NodeView { names: old(self)@[id as int].names.insert(name@, idf), ..old(self)@[id as int] },
            ),
    {
        let ghost old_v = self@;
        let ghost old_entries = self.names@[id as int]@;
        let mut entries: Vec<(String, usize)> = Vec::new();
        std::mem::swap(&mut entries, &mut self.names[id]);
        assert(entries@ == old_entries);
        let ghost name_view = name@;
        entries.push((name, idf));
        assert(entries@.drop_last() =~= old_entries);
        assert(names_map(entries@) == names_map(old_entries).insert(name_view, idf));
        self.names.set(id, entries);
        assert(self@ =~= old_v.update(
            id as int,
            NodeView { names: old_v[id as int].names.insert(name_view, idf), ..old_v[id as int] },
        ));
    }

    /// The identifier declared as `key` in the scope of node `id`, if any.
    pub fn lookup_name(&self, id: usize, key: &String) -> (r: Option<usize>)
        requires
            self.wf(),
            id < self@.len(),
        ensures
            r == (if self@[id as int].names.dom().contains(key@) {
                Some(self@[id as int].names[key@])
            } else {
                None
            }),
            r matches Some(x) ==> x < self@.len(),
    {
        let entries = &self.names[id];
        assert(names_map(entries@) == self@[id as int].names);
        let mut i: usize = entries.len();
        while i > 0
            invariant
                self.wf(),
                id < self@.len(),
                names_map(entries@) == self@[id as int].names,
                i <= entries@.len(),
                forall|k: int| i <= k < entries@.len() ==> (#[trigger] entries@[k]).0@ != key@,
            decreases i,
        {
            let j = i - 1;
            if entries[j].0 == *key {
                proof {
                    lemma_names_map_lookup(entries@, key@, j as int);
                }
                return Some(entries[j].1);
            }
            i = j;
        }
        proof {
            lemma_names_map_lookup(entries@, key@, -1);
        }
        None
    }

    /// The declaration that node `id` refers to, if any.
    pub fn target(&self, id: usize) -> (t: Option<usize>)
        requires
            self.wf(),
            id < self@.len(),
        ensures
            t == self@[id as int].target,
    {
        self.targets[id]
    }

    /// The kind of node `id`.
    pub fn kind(&self, id: usize) -> (k: NodeKind)
        requires
            self.wf(),
            id < self@.len(),
        ensures
            k == self@[id as int].kind,
    {
        self.nodes[id].kind
    }

    /// The line of node `id`.
    pub fn line(&self, id: usize) -> (l: i32)
        requires
            self.wf(),
            id < self@.len(),
        ensures
            l == self@[id as int].line,
    {
        self.nodes[id].line
    }

    /// The column of node `id`.
    pub fn column(&self, id: usize) -> (c: i32)
        requires
            self.wf(),
            id < self@.len(),
        ensures
            c == self@[id as int].column,
    {
        self.nodes[id].column
    }

    /// The parent of node `id`.
    pub fn parent(&self, id: usize) -> (p: Option<usize>)
        requires
            self.wf(),
            id < self@.len(),
        ensures
            p == self@[id as int].parent,
    {
        self.parents[id]
    }

    /// The statement that encloses node `id`, if one was recorded.
    pub fn statement(&self, id: usize) -> (s: Option<usize>)
        requires
            self.wf(),
            id < self@.len(),
        ensures
            s == self@[id as int].statement,
    {
        self.statements[id]
    }

    /// The function that encloses node `id`, if one was recorded.
    pub fn function(&self, id: usize) -> (f: Option<usize>)
        requires
            self.wf(),
            id < self@.len(),
        ensures
            f == self@[id as int].function,
    {
        self.functions[id]
    }


    /// The source text held by node `id`.
    pub fn original_code(&self, id: usize) -> (r: Vec<String>)
        requires
            self.wf(),
            id < self@.len(),
        ensures
            r@.map_values(|s: String| s@) == self@[id as int].original_code,
    {
        let ghost v = self@;
        let src = &self.nodes[id].original_code;
        let n = src.len();
        let mut r: Vec<String> = Vec::new();
        let mut m: usize = 0;
        while m < n
            invariant
                n == src@.len(),
                src@.map_values(|s: String| s@) == v[id as int].original_code,
                m <= n,
                r@.len() == m,
                forall|j: int| 0 <= j < m ==> (#[trigger] r@[j])@ == src@[j]@,
            decreases n - m,
        {
            r.push(src[m].clone());
            m = m + 1;
        }
        assert(r@.map_values(|s: String| s@) =~= src@.map_values(|s: String| s@));
        r
    }

    /// The children of node `id`, in order.
    pub fn children(&self, id: usize) -> (r: Vec<usize>)
        requires
            self.wf(),
            id < self@.len(),
        ensures
            r@ == self@[id as int].children,
    {
        let ghost v = self@;
        let src = &self.children[id];
        let n = src.len();
        let mut r: Vec<usize> = Vec::new();
        let mut m: usize = 0;
        while m < n
            invariant
                n == src@.len(),
                src@ == v[id as int].children,
                m <= n,
                r@ =~= src@.subrange(0, m as int),
            decreases n - m,
        {
            r.push(src[m]);
            m = m + 1;
        }
        assert(r@ =~= src@);
        r
    }


    /// Whether `stmt` occurs in the statement list `list`, directly or inside
    /// a nested statement list.
    pub fn statement_list_contains(&self, list: usize, stmt: usize) -> (r: bool)
        requires
            self.wf(),
            list < self@.len(),
        ensures
            r == list_contains(self@, list as int, stmt),
        decreases self@[list as int].rank - min_rank(self@),
    {
        proof {
            lemma_rank_bounds(self@);
        }
        let ghost v = self@;
        let stmts = &self.children[list];
        assert(stmts@ == v[list as int].children);
        let n = stmts.len();
        let mut i: usize = 0;
        while i < n
            invariant
                v == self@,
                list < v.len(),
                n == stmts@.len(),
                stmts@ == v[list as int].children,
                i <= n,
                forall|j: int| 0 <= j < i ==> stmts@[j] != stmt,
            decreases n - i,
        {
            if stmts[i] == stmt {
                assert(v[list as int].children[i as int] == stmt);
                return true;
            }
            i = i + 1;
        }
        assert(!v[list as int].children.contains(stmt));
        let mut k: usize = 0;
        while k < n
            invariant
                self.wf(),
                v == self@,
                list < v.len(),
                n == stmts@.len(),
                stmts@ == v[list as int].children,
                k <= n,
                nested_list_contains(v, list as int, stmt, 0) == nested_list_contains(
                    v,
                    list as int,
                    stmt,
                    k as int,
                ),
            decreases n - k,
        {
            let c = stmts[k];
            assert(v[list as int].children[k as int] == c);
            assert(v[c as int].rank < v[list as int].rank);
            assert(min_rank(v) <= v[c as int].rank) by {
                lemma_rank_bounds(v);
            }
            assert(self.nodes@[c as int].kind == v[c as int].kind);
            if is_instance(&self.nodes[c].kind, ASTType::StatementListBase)
                && self.statement_list_contains(c, stmt) {
                return true;
            }
            k = k + 1;
        }
        false
    }

    /// The statement at position `key` of the statement list `list`.
    pub fn statement_list_get_item(&self, list: usize, key: i32) -> (r: usize)
        requires
            self.wf(),
            list < self@.len(),
            0 <= key < self@[list as int].children.len(),
        ensures
            r == self@[list as int].children[key as int],
    {
        self.children[list][key as usize]
    }

    /// The qualifying names of node `id`: see `spec_qualified_name`.
    pub fn qualified_name(&self, id: usize) -> (r: Vec<usize>)
        requires
            self.wf(),
            id < self@.len(),
        ensures
            r@ == spec_qualified_name(self@, id as int),
    {
        let ghost v = self@;
        let node = &self.nodes[id];
        assert(node.namespace@ == v[id as int].namespace);
        match node.idf {
            None => Vec::new(),
            Some(x) => {
                let ns = &node.namespace;
                let n = ns.len();
                if n == 0 {
                    let mut r = Vec::new();
                    r.push(x);
                    assert(r@ =~= seq![x]);
                    r
                } else {
                    let mut r: Vec<usize> = Vec::new();
                    let mut m: usize = 0;
                    while m < n
                        invariant
                            n == ns@.len(),
                            m <= n,
                            r@ =~= ns@.subrange(0, m as int),
                        decreases n - m,
                    {
                        r.push(ns[m]);
                        m = m + 1;
                    }
                    assert(r@ =~= ns@);
                    if ns[n - 1] != x {
                        r.push(x);
                    }
                    r
                }
            },
        }
    }

    /// Whether `node` is `child` itself or one of its ancestors.
    pub fn is_parent_of(&self, node: usize, child: usize) -> (r: bool)
        requires
            self.wf(),
            child < self@.len(),
        ensures
            r == is_ancestor(self@, node as int, child as int),
    {
        let ghost v = self@;
        let mut e = child;
        while e != node && self.parents[e].is_some()
            invariant
                self.wf(),
                v == self@,
                e < v.len(),
                is_ancestor(v, node as int, e as int) == is_ancestor(v, node as int, child as int),
            decreases max_rank(v) - v[e as int].rank,
        {
            proof {
                assert(v[e as int].parent == self.parents@[e as int]);
                lemma_rank_bounds(v);
            }
            e = self.parents[e].unwrap();
        }
        proof {
            assert(v[e as int].parent == self.parents@[e as int]);
        }
        e == node
    }
}

} // verus!
