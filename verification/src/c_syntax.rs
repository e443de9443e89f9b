//! The syntax tree of a C source text.
use crate::text;
use vstd::prelude::*;

verus! {

/// A node of a C syntax tree. Rows and columns count from zero.
#[derive(Debug, PartialEq)]
pub struct CNode {
    pub kind: String,
    pub text: String,
    pub has_error: bool,
    pub row: usize,
    pub column: usize,
    pub children: Vec<CNode>,
}

/// The contents of a node.
pub struct CNodeV {
    pub kind: Seq<char>,
    pub text: Seq<char>,
    pub has_error: bool,
    pub row: usize,
    pub column: usize,
    pub children: Seq<CNodeV>,
}

/// A value that no contract speaks of.
pub open spec fn no_node() -> CNodeV {
    CNodeV {
        kind: Seq::empty(),
        text: Seq::empty(),
        has_error: false,
        row: 0,
        column: 0,
        children: Seq::empty(),
    }
}

/// The contents of a node.
pub open spec fn node_v(n: CNode) -> CNodeV
    decreases n,
{
    CNodeV {
        kind: n.kind@,
        text: n.text@,
        has_error: n.has_error,
        row: n.row,
        column: n.column,
        children: Seq::new(
            n.children@.len(),
            |i: int| if 0 <= i < n.children@.len() { node_v(n.children@[i]) } else { no_node() },
        ),
    }
}

impl View for CNode {
    type V = CNodeV;

    open spec fn view(&self) -> CNodeV {
        node_v(*self)
    }
}

/// The contents of a list of nodes.
pub open spec fn nodes_v(ns: Seq<CNode>) -> Seq<CNodeV> {
    ns.map_values(|n: CNode| node_v(n))
}

/// How the view of a node is made up.
pub broadcast proof fn lemma_node_v(n: CNode)
    ensures
        (#[trigger] node_v(n)).children == nodes_v(n.children@),
{
    assert(node_v(n).children =~= nodes_v(n.children@));
}

/// A node of a syntax tree that is listed from the root on, each node before its children: its
/// depth, kind and text, whether it has an error, its row and its column.
pub type FlatNode = (u32, String, String, bool, usize, usize);

/// The contents of a listed node.
pub struct FlatNodeV {
    pub depth: u32,
    pub kind: Seq<char>,
    pub text: Seq<char>,
    pub has_error: bool,
    pub row: usize,
    pub column: usize,
}

/// Why there is no syntax tree.
pub enum SyntaxFailure {
    /// The parser does not take the C grammar, for the given reason.
    Language(String),
    /// The parser gave no tree.
    NoTree,
}

/// The contents of a failure.
pub enum SyntaxFailureV {
    Language(Seq<char>),
    NoTree,
}

/// The contents of a list of listed nodes.
pub open spec fn flat_v(ns: Seq<FlatNode>) -> Seq<FlatNodeV> {
    ns.map_values(
        |n: FlatNode|
            FlatNodeV { depth: n.0, kind: n.1@, text: n.2@, has_error: n.3, row: n.4, column: n.5 },
    )
}

/// The contents of what the parser gave.
pub open spec fn syntax_v(r: Result<Vec<FlatNode>, SyntaxFailure>) -> Result<Seq<FlatNodeV>, SyntaxFailureV> {
    match r {
        Ok(v) => Ok(flat_v(v@)),
        Err(SyntaxFailure::Language(s)) => Err(SyntaxFailureV::Language(s@)),
        Err(SyntaxFailure::NoTree) => Err(SyntaxFailureV::NoTree),
    }
}

/// The nodes of the tree that the C grammar of `tree_sitter_c` gives a source text.
pub uninterp spec fn c_syntax_of(source: Seq<char>) -> Result<Seq<FlatNodeV>, SyntaxFailureV>;

/// Parses a C source text with `tree_sitter::Parser::parse` and lists the tree's nodes from the
/// root on, each node before its children. The result depends on the text alone. Which tree the
/// C grammar gives a text is not stated.
#[verifier::external_body]
pub(crate) fn c_syntax(source: &str) -> (r: Result<Vec<FlatNode>, SyntaxFailure>)
    ensures
        syntax_v(r) == c_syntax_of(source@),
{
    let mut parser = tree_sitter::Parser::new();
    parser.set_language(&tree_sitter_c::LANGUAGE.into()).map_err(|e| SyntaxFailure::Language(e.to_string()))?;
    let tree = parser.parse(source, None).ok_or(SyntaxFailure::NoTree)?;
    let mut cursor = tree.walk();
    let mut out = Vec::new();
    loop {
        let n = cursor.node();
        let at = n.start_position();
        let text = n.utf8_text(source.as_bytes()).unwrap_or_default().to_string();
        out.push((cursor.depth(), n.kind().to_string(), text, n.has_error(), at.row, at.column));
        if !cursor.goto_first_child() {
            while !cursor.goto_next_sibling() { if !cursor.goto_parent() { return Ok(out); } }
        }
    }
}

/// The trees whose roots have the given depth, listed from position `i` on, appended to `acc`;
/// and the position behind them.
pub open spec fn forest(ns: Seq<FlatNodeV>, i: int, depth: int, acc: Seq<CNodeV>) -> (Seq<CNodeV>, int)
    decreases ns.len() - i,
{
    if i < 0 || i >= ns.len() || ns[i].depth != depth {
        (acc, i)
    } else {
        let (children, j) = forest(ns, i + 1, depth + 1, Seq::empty());
        let n = CNodeV {
            kind: ns[i].kind,
            text: ns[i].text,
            has_error: ns[i].has_error,
            row: ns[i].row,
            column: ns[i].column,
            children,
        };
        if i < j <= ns.len() {
            forest(ns, j, depth, acc.push(n))
        } else {
            (acc.push(n), j)
        }
    }
}

/// Builds the trees whose roots have the given depth.
pub fn build_forest(ns: &Vec<FlatNode>, from: usize, depth: usize) -> (r: (Vec<CNode>, usize))
    requires
        from <= ns@.len(),
        depth <= from,
    ensures
        (nodes_v(r.0@), r.1 as int) == forest(flat_v(ns@), from as int, depth as int, Seq::empty()),
        from <= r.1 <= ns@.len(),
    decreases ns@.len() - from,
{
    broadcast use lemma_node_v;

    let mut out: Vec<CNode> = Vec::new();
    let mut i: usize = from;
    let ghost fs = flat_v(ns@);
    let total: usize = ns.len();
    proof {
        assert(nodes_v(out@) =~= Seq::<CNodeV>::empty());
    }
    while i < total && ns[i].0 as usize == depth
        invariant
            from <= i <= ns@.len(),
            total == ns@.len(),
            depth <= from,
            fs == flat_v(ns@),
            forest(fs, from as int, depth as int, Seq::empty()) == forest(
                fs,
                i as int,
                depth as int,
                nodes_v(out@),
            ),
        decreases ns@.len() - i,
    {
        let (children, j) = build_forest(ns, i + 1, depth + 1);
        let n = CNode {
            kind: ns[i].1.clone(),
            text: ns[i].2.clone(),
            has_error: ns[i].3,
            row: ns[i].4,
            column: ns[i].5,
            children,
        };
        proof {
            let f = fs[i as int];
            let sub = forest(fs, i + 1, depth + 1, Seq::empty());
            assert(sub == (nodes_v(n.children@), j as int));
            assert(node_v(n).kind == f.kind);
            assert(node_v(n).text == f.text);
            assert(node_v(n).children == sub.0);
            assert(node_v(n).row == f.row && node_v(n).column == f.column && node_v(n).has_error == f.has_error);
            assert(node_v(n) == (CNodeV {
                kind: f.kind,
                text: f.text,
                has_error: f.has_error,
                row: f.row,
                column: f.column,
                children: sub.0,
            }));
            assert(nodes_v(out@.push(n)) =~= nodes_v(out@).push(node_v(n)));
        }
        out.push(n);
        i = j;
    }
    (out, i)
}

/// The children of the root of a listed tree.
pub open spec fn root_children(ns: Seq<FlatNodeV>) -> Seq<CNodeV> {
    if ns.len() == 0 {
        Seq::empty()
    } else {
        forest(ns, 1, 1, Seq::empty()).0
    }
}

/// Builds the children of the root of a listed tree.
pub fn build_root_children(ns: &Vec<FlatNode>) -> (r: Vec<CNode>)
    ensures
        nodes_v(r@) == root_children(flat_v(ns@)),
{
    if ns.len() == 0 {
        let r: Vec<CNode> = Vec::new();
        proof {
            assert(nodes_v(r@) =~= Seq::<CNodeV>::empty());
        }
        r
    } else {
        build_forest(ns, 1, 1).0
    }
}

} // verus!
