//! The syntax tree of a page, as plain values.
//!
//! The wikitext grammar runs through tree-sitter. Its tree is read once, node
//! by node in depth-first order, into `NodeRecord`s: the kind, whether the
//! node is named, its byte range and rows, and its depth below the root.
//! Everything that reads the tree works on those records.

use vstd::prelude::*;

verus! {

#[verifier::external_type_specification]
#[verifier::external_body]
pub struct ExTree(tree_sitter::Tree);

/// One node of a syntax tree.
#[derive(Debug, Clone, PartialEq, Eq)]
pub struct NodeRecord {
    pub kind: String,
    pub named: bool,
    pub start: usize,
    pub end: usize,
    pub start_row: usize,
    pub end_row: usize,
    /// Zero for the root, one more for each step down.
    pub depth: u32,
    pub error: bool,
    pub missing: bool,
    /// The node is an error or holds one somewhere below.
    pub has_error: bool,
}

/// `NodeRecord` with its kind as characters.
pub struct NodeV {
    pub kind: Seq<char>,
    pub named: bool,
    pub start: usize,
    pub end: usize,
    pub start_row: usize,
    pub end_row: usize,
    pub depth: u32,
    pub error: bool,
    pub missing: bool,
    pub has_error: bool,
}

impl View for NodeRecord {
    type V = NodeV;

    open spec fn view(&self) -> NodeV {
        NodeV {
            kind: self.kind@,
            named: self.named,
            start: self.start,
            end: self.end,
            start_row: self.start_row,
            end_row: self.end_row,
            depth: self.depth,
            error: self.error,
            missing: self.missing,
            has_error: self.has_error,
        }
    }
}

pub open spec fn nodes_view(v: Seq<NodeRecord>) -> Seq<NodeV> {
    v.map_values(|n: NodeRecord| n@)
}

/// What the wikitext grammar makes of a text: its nodes in depth-first
/// order, or nothing when the grammar could not be loaded.
pub uninterp spec fn wikitext_syntax(text: Seq<char>) -> Option<Seq<NodeV>>;

/// The nodes of a parsed tree, in the order of their descendant index.
pub uninterp spec fn tree_nodes(tree: tree_sitter::Tree) -> Seq<NodeV>;

/// Parses a text with the wikitext grammar (`Parser::new`, `set_language`,
/// `Parser::parse`). The result is named, not described: the same text gives
/// the same tree. `parse` gives nothing only when no language is set.
#[verifier::external_body]
fn parse_wikitext(text: &str) -> (r: Option<tree_sitter::Tree>)
    ensures
        match r {
            Some(t) => wikitext_syntax(text@) == Some(tree_nodes(t)),
            None => wikitext_syntax(text@) is None,
        },
{
    let mut parser = tree_sitter::Parser::new();
    parser.set_language(&tree_sitter_wikitext::LANGUAGE.into()).ok()?;
    parser.parse(text, None)
}

/// `Node::descendant_count` of the root: every node of the tree, the root
/// included.
#[verifier::external_body]
fn node_count(tree: &tree_sitter::Tree) -> (r: usize)
    ensures
        r == tree_nodes(*tree).len(),
{
    tree.root_node().descendant_count()
}

/// The node with descendant index `i` (`TreeCursor::goto_descendant`), read
/// field by field; its depth is `TreeCursor::depth` from the root.
#[verifier::external_body]
fn node_at(tree: &tree_sitter::Tree, i: usize) -> (r: NodeRecord)
    requires
        i < tree_nodes(*tree).len(),
    ensures
        r@ == tree_nodes(*tree)[i as int],
{
    let mut cursor = tree.walk();
    cursor.goto_descendant(i);
    let node = cursor.node();
    NodeRecord {
        kind: node.kind().to_string(),
        named: node.is_named(),
        start: node.start_byte(),
        end: node.end_byte(),
        start_row: node.start_position().row,
        end_row: node.end_position().row,
        depth: cursor.depth(),
        error: node.is_error(),
        missing: node.is_missing(),
        has_error: node.has_error(),
    }
}

/// The syntax tree of a text, node by node.
pub fn syntax_nodes(text: &str) -> (r: Option<Vec<NodeRecord>>)
    ensures
        match r {
            Some(v) => wikitext_syntax(text@) == Some(nodes_view(v@)),
            None => wikitext_syntax(text@) is None,
        },
{
    let tree = match parse_wikitext(text) {
        Some(t) => t,
        None => return None,
    };
    let n = node_count(&tree);
    let mut out: Vec<NodeRecord> = Vec::new();
    let mut i: usize = 0;
    while i < n
        invariant
            i <= n,
            n == tree_nodes(tree).len(),
            nodes_view(out@) == tree_nodes(tree).take(i as int),
        decreases n - i,
    {
        let ghost before = out@;
        out.push(node_at(&tree, i));
        assert(nodes_view(out@) =~= nodes_view(before).push(tree_nodes(tree)[i as int]));
        assert(tree_nodes(tree).take(i + 1) =~= tree_nodes(tree).take(i as int).push(
            tree_nodes(tree)[i as int],
        ));
        i = i + 1;
    }
    assert(tree_nodes(tree).take(n as int) =~= tree_nodes(tree));
    Some(out)
}

// --- finding the children of a node -----------------------------------------

/// The named children of node `p`, looking from index `j` on: the nodes one
/// level below `p`, up to the end of its subtree.
pub open spec fn kids_from(ns: Seq<NodeV>, p: int, j: int) -> Seq<int>
    decreases ns.len() - j,
{
    if j < 0 || j >= ns.len() || p < 0 || p >= ns.len() || ns[j].depth <= ns[p].depth {
        Seq::empty()
    } else if ns[j].depth == ns[p].depth + 1 && ns[j].named {
        seq![j] + kids_from(ns, p, j + 1)
    } else {
        kids_from(ns, p, j + 1)
    }
}

/// The named children of node `p`, in order (`Node::named_children`).
pub open spec fn kids(ns: Seq<NodeV>, p: int) -> Seq<int> {
    kids_from(ns, p, p + 1)
}

pub fn kids_exec(ns: &Vec<NodeRecord>, p: usize) -> (r: Vec<usize>)
    requires
        p < ns.len(),
    ensures
        r@.map_values(|k: usize| k as int) == kids(nodes_view(ns@), p as int),
        forall|k: int| 0 <= k < r@.len() ==> p < #[trigger] r@[k] < ns.len(),
{
    let ghost v = nodes_view(ns@);
    let mut r: Vec<usize> = Vec::new();
    let mut j: usize = p + 1;
    let d = ns[p].depth;
    while j < ns.len() && ns[j].depth > d
        invariant
            p < j <= ns.len(),
            d == ns@[p as int].depth,
            v == nodes_view(ns@),
            r@.map_values(|k: usize| k as int) + kids_from(v, p as int, j as int) == kids(
                v,
                p as int,
            ),
            forall|k: int| 0 <= k < r@.len() ==> p < #[trigger] r@[k] < j,
        decreases ns.len() - j,
    {
        let ghost before = r@;
        if ns[j].depth as u64 == d as u64 + 1 && ns[j].named {
            r.push(j);
            assert(r@.map_values(|k: usize| k as int) =~= before.map_values(|k: usize| k as int).push(
                j as int,
            ));
        }
        assert(r@.map_values(|k: usize| k as int) + kids_from(v, p as int, (j + 1) as int)
            =~= kids(v, p as int));
        j = j + 1;
    }
    assert(kids_from(v, p as int, j as int) =~= Seq::<int>::empty());
    assert(r@.map_values(|k: usize| k as int) =~= kids(v, p as int));
    r
}

/// The first named child of `p` of the given kind.
pub open spec fn child_of_kind_from(ns: Seq<NodeV>, ks: Seq<int>, kind: Seq<char>, i: int) -> Option<
    int,
>
    decreases ks.len() - i,
{
    if i < 0 || i >= ks.len() {
        None
    } else if ns[ks[i]].kind == kind {
        Some(ks[i])
    } else {
        child_of_kind_from(ns, ks, kind, i + 1)
    }
}

pub open spec fn child_of_kind(ns: Seq<NodeV>, p: int, kind: Seq<char>) -> Option<int> {
    child_of_kind_from(ns, kids(ns, p), kind, 0)
}

pub proof fn lemma_child_of_kind_from(ns: Seq<NodeV>, ks: Seq<int>, kind: Seq<char>, i: int)
    requires
        0 <= i,
    ensures
        child_of_kind_from(ns, ks, kind, i) matches Some(c) ==> exists|k: int|
            i <= k < ks.len() && ks[k] == c,
    decreases ks.len() - i,
{
    if 0 <= i < ks.len() && ns[ks[i]].kind != kind {
        lemma_child_of_kind_from(ns, ks, kind, i + 1);
    }
}

pub fn child_of_kind_exec(ns: &Vec<NodeRecord>, p: usize, kind: &str) -> (r: Option<usize>)
    requires
        p < ns.len(),
    ensures
        match r {
            Some(c) => child_of_kind(nodes_view(ns@), p as int, kind@) == Some(c as int) && p < c
                < ns.len(),
            None => child_of_kind(nodes_view(ns@), p as int, kind@) is None,
        },
{
    let ks = kids_exec(ns, p);
    let ghost v = nodes_view(ns@);
    let ghost ki = ks@.map_values(|k: usize| k as int);
    let want = crate::text::chars_of(kind);
    let mut i: usize = 0;
    while i < ks.len()
        invariant
            i <= ks.len(),
            v == nodes_view(ns@),
            ki == ks@.map_values(|k: usize| k as int),
            ki == kids(v, p as int),
            want@ == kind@,
            forall|k: int| 0 <= k < ks@.len() ==> p < #[trigger] ks@[k] < ns.len(),
            child_of_kind_from(v, ki, kind@, i as int) == child_of_kind(v, p as int, kind@),
        decreases ks.len() - i,
    {
        let c = ks[i];
        if crate::text::eq_chars(&crate::text::chars_of(ns[c].kind.as_str()), &want) {
            return Some(c);
        }
        i = i + 1;
    }
    None
}

} // verus!
