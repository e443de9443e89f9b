//! The dependency graph of modules.
use crate::cycles::{cycles_v, find_cycles, holds_rotation, is_rotation, law_listed_cycles_decide, lists_cycles,
    rotated};
use crate::digraph::{before, blocked, dependency_order, depends_into, edges_within, has_cycle, has_edge,
    is_cycle, law_blocked_set_holds_cycle, law_ordered_graph_has_no_cycle, respects};
use crate::error::{CompilationError, ErrorV};
use crate::module::{copy_path, path_text, paths_v, ImportType, ModulePath};
use crate::text;
use vstd::prelude::*;

verus! {

/// A module of the graph and the file it was loaded from.
#[derive(Debug, PartialEq, Eq, Hash)]
pub struct ModuleNode {
    pub path: ModulePath,
    pub source_path: String,
}

impl ModuleNode {
    /// A node for the given module.
    pub fn new(path: ModulePath, source_path: String) -> (r: Self)
        ensures
            r.path@ == path@,
            r.source_path@ == source_path@,
    {
        ModuleNode { path, source_path }
    }
}

impl Clone for ModuleNode {
    fn clone(&self) -> (r: Self)
        ensures
            r.path@ == self.path@,
            r.source_path@ == self.source_path@,
    {
        ModuleNode { path: copy_path(&self.path), source_path: self.source_path.clone() }
    }
}

/// The module `from` depends on the module `to`.
#[derive(Debug, PartialEq, Eq, Hash)]
pub struct DependencyEdge {
    pub from: ModulePath,
    pub to: ModulePath,
    pub import_type: ImportType,
}

/// The dependency graph of modules: no two nodes have one path, and every edge joins two
/// different nodes.
#[derive(Debug)]
pub struct DependencyGraph {
    nodes: Vec<ModuleNode>,
    edges: Vec<DependencyEdge>,
}

/// Whether `missing` lists, without repetition, exactly the modules of `paths` that belong to a
/// set each member of which depends on another member.
pub open spec fn lists_stuck(
    paths: Seq<Seq<Seq<char>>>,
    edges: Seq<(Seq<Seq<char>>, Seq<Seq<char>>)>,
    missing: Seq<Seq<Seq<char>>>,
) -> bool {
    &&& missing.no_duplicates()
    &&& blocked(edges, missing.to_set())
    &&& forall|i: int| 0 <= i < missing.len() ==> paths.contains(#[trigger] missing[i])
    &&& forall|s: Set<Seq<Seq<char>>>|
        #[trigger] blocked(edges, s) && (forall|p: Seq<Seq<char>>| s.contains(p) ==> paths.contains(p))
            ==> s.subset_of(missing.to_set())
}

/// The texts of a list of paths.
pub open spec fn path_texts(ps: Seq<Seq<Seq<char>>>) -> Seq<Seq<char>> {
    ps.map_values(|p: Seq<Seq<char>>| path_text(p))
}

impl DependencyGraph {
    /// The paths of the nodes, in the order in which they were added.
    pub closed spec fn paths(&self) -> Seq<Seq<Seq<char>>> {
        self.nodes@.map_values(|n: ModuleNode| n.path@)
    }

    /// The files of the nodes.
    pub closed spec fn files(&self) -> Seq<Seq<char>> {
        self.nodes@.map_values(|n: ModuleNode| n.source_path@)
    }

    /// The edges, in the order in which they were added: `(a, b)` where `a` depends on `b`.
    pub closed spec fn depends(&self) -> Seq<(Seq<Seq<char>>, Seq<Seq<char>>)> {
        self.edges@.map_values(|e: DependencyEdge| (e.from@, e.to@))
    }

    /// The kinds of import behind the edges.
    pub closed spec fn kinds(&self) -> Seq<ImportType> {
        self.edges@.map_values(|e: DependencyEdge| e.import_type)
    }

    /// The invariant of the graph.
    pub open spec fn wf(&self) -> bool {
        &&& self.paths().no_duplicates()
        &&& self.files().len() == self.paths().len()
        &&& self.kinds().len() == self.depends().len()
        &&& forall|i: int| 0 <= i < self.depends().len() ==> {
            &&& self.paths().contains((#[trigger] self.depends()[i]).0)
            &&& self.paths().contains(self.depends()[i].1)
            &&& self.depends()[i].0 != self.depends()[i].1
        }
    }

    /// The modules that `p` depends on directly, in the order in which the edges were added.
    pub open spec fn targets(&self, p: Seq<Seq<char>>) -> Seq<Seq<Seq<char>>> {
        targets_in(self.depends(), p)
    }

    /// The modules that depend on `p` directly.
    pub open spec fn sources(&self, p: Seq<Seq<char>>) -> Seq<Seq<Seq<char>>> {
        sources_in(self.depends(), p)
    }

    /// An empty graph.
    pub fn new() -> (r: Self)
        ensures
            r.wf(),
            r.paths().len() == 0,
            r.depends().len() == 0,
    {
        DependencyGraph { nodes: Vec::new(), edges: Vec::new() }
    }

    /// The position of a path among the nodes.
    fn position(&self, path: &ModulePath) -> (r: Option<usize>)
        ensures
            match r {
                Some(i) => i < self.nodes@.len() && self.paths()[i as int] == path@,
                None => !self.paths().contains(path@),
            },
    {
        let mut i: usize = 0;
        while i < self.nodes.len()
            invariant
                i <= self.nodes@.len(),
                forall|j: int| 0 <= j < i ==> self.paths()[j] != path@,
            decreases self.nodes@.len() - i,
        {
            if self.nodes[i].path.same(path) {
                return Some(i);
            }
            i = i + 1;
        }
        None
    }

    /// Adds a node. A node with the same path stays as it is.
    pub fn add_node(&mut self, node: ModuleNode)
        requires
            old(self).wf(),
        ensures
            final(self).wf(),
            final(self).depends() == old(self).depends(),
            final(self).kinds() == old(self).kinds(),
            old(self).paths().contains(node.path@) ==> final(self).paths() == old(self).paths()
                && final(self).files() == old(self).files(),
            !old(self).paths().contains(node.path@) ==> final(self).paths() == old(self).paths().push(
                node.path@,
            ) && final(self).files() == old(self).files().push(node.source_path@),
    {
        let at = self.position(&node.path);
        let ghost g0 = *self;
        match at {
            Some(i) => {
                proof {
                    assert(g0.paths().contains(node.path@));
                }
            },
            None => {
                self.nodes.push(node);
                proof {
                    assert(self.paths() =~= g0.paths().push(node.path@));
                    assert(self.files() =~= g0.files().push(node.source_path@));
                    assert forall|p: Seq<Seq<char>>| g0.paths().contains(p) implies self.paths().contains(p) by {
                        let j = choose|j: int| 0 <= j < g0.paths().len() && g0.paths()[j] == p;
                        assert(self.paths()[j] == p);
                    }
                }
            },
        }
    }

    /// Adds an edge between two nodes. An edge from a node to itself is ignored.
    pub fn add_edge(&mut self, from: ModulePath, to: ModulePath, import_type: ImportType)
        requires
            old(self).wf(),
            from@ == to@ || (old(self).paths().contains(from@) && old(self).paths().contains(to@)),
        ensures
            final(self).wf(),
            final(self).paths() == old(self).paths(),
            final(self).files() == old(self).files(),
            from@ == to@ ==> final(self).depends() == old(self).depends() && final(self).kinds() == old(self).kinds(),
            from@ != to@ ==> final(self).depends() == old(self).depends().push((from@, to@)) && final(self).kinds() == old(self).kinds().push(import_type),
    {
        if from.same(&to) {
            return ;
        }
        let ghost g0 = *self;
        let ghost f = from@;
        let ghost t = to@;
        self.edges.push(DependencyEdge { from, to, import_type });
        proof {
            assert(self.depends() =~= g0.depends().push((f, t)));
            assert(self.kinds() =~= g0.kinds().push(import_type));
            assert forall|i: int| 0 <= i < self.depends().len() implies {
                &&& self.paths().contains((#[trigger] self.depends()[i]).0)
                &&& self.paths().contains(self.depends()[i].1)
                &&& self.depends()[i].0 != self.depends()[i].1
            } by {
                if i < g0.depends().len() {
                    assert(self.depends()[i] == g0.depends()[i]);
                }
            }
        }
    }

    /// Whether the graph has a node for the path.
    pub fn contains_node(&self, path: &ModulePath) -> (r: bool)
        ensures
            r == self.paths().contains(path@),
    {
        let at = self.position(path);
        match at {
            Some(i) => {
                proof {
                    assert(self.paths()[i as int] == path@);
                }
                true
            },
            None => false,
        }
    }

    /// The node for a path.
    pub fn get_node(&self, path: &ModulePath) -> (r: Option<&ModuleNode>)
        requires
            self.wf(),
        ensures
            match r {
                Some(n) => n.path@ == path@ && exists|i: int|
                    0 <= i < self.paths().len() && self.paths()[i] == path@ && self.files()[i]
                        == n.source_path@,
                None => !self.paths().contains(path@),
            },
    {
        let at = self.position(path);
        match at {
            Some(i) => {
                proof {
                    assert(self.files()[i as int] == self.nodes@[i as int].source_path@);
                    assert(self.paths()[i as int] == path@);
                }
                Some(&self.nodes[i])
            },
            None => None,
        }
    }

    /// The file of the node for a path.
    pub fn get_source_path(&self, path: &ModulePath) -> (r: Option<&String>)
        requires
            self.wf(),
        ensures
            match r {
                Some(f) => exists|i: int|
                    0 <= i < self.paths().len() && self.paths()[i] == path@ && self.files()[i] == f@,
                None => !self.paths().contains(path@),
            },
    {
        match self.get_node(path) {
            Some(n) => Some(&n.source_path),
            None => None,
        }
    }

    /// All modules that `path` depends on directly.
    pub fn dependencies_of(&self, path: &ModulePath) -> (r: Vec<&ModulePath>)
        ensures
            r@.map_values(|p: &ModulePath| p@) == self.targets(path@),
    {
        let mut out: Vec<&ModulePath> = Vec::new();
        let mut i: usize = 0;
        while i < self.edges.len()
            invariant
                i <= self.edges@.len(),
                out@.map_values(|p: &ModulePath| p@) =~= targets_in(self.depends().take(i as int), path@),
            decreases self.edges@.len() - i,
        {
            proof {
                assert(self.depends().take(i + 1).drop_last() =~= self.depends().take(i as int));
            }
            if self.edges[i].from.same(path) {
                let ghost o = out@;
                out.push(&self.edges[i].to);
                proof {
                    assert(out@.map_values(|p: &ModulePath| p@) =~= o.map_values(|p: &ModulePath| p@).push(
                        self.edges@[i as int].to@,
                    ));
                }
            }
            i = i + 1;
        }
        proof {
            assert(self.depends().take(self.edges@.len() as int) =~= self.depends());
        }
        out
    }

    /// All modules that depend on `path` directly.
    pub fn dependents_of(&self, path: &ModulePath) -> (r: Vec<&ModulePath>)
        ensures
            r@.map_values(|p: &ModulePath| p@) == self.sources(path@),
    {
        let mut out: Vec<&ModulePath> = Vec::new();
        let mut i: usize = 0;
        while i < self.edges.len()
            invariant
                i <= self.edges@.len(),
                out@.map_values(|p: &ModulePath| p@) =~= sources_in(self.depends().take(i as int), path@),
            decreases self.edges@.len() - i,
        {
            proof {
                assert(self.depends().take(i + 1).drop_last() =~= self.depends().take(i as int));
            }
            if self.edges[i].to.same(path) {
                let ghost o = out@;
                out.push(&self.edges[i].from);
                proof {
                    assert(out@.map_values(|p: &ModulePath| p@) =~= o.map_values(|p: &ModulePath| p@).push(
                        self.edges@[i as int].from@,
                    ));
                }
            }
            i = i + 1;
        }
        proof {
            assert(self.depends().take(self.edges@.len() as int) =~= self.depends());
        }
        out
    }

    /// Whether `path` depends on nothing.
    pub fn is_leaf_module(&self, path: &ModulePath) -> (r: bool)
        ensures
            r == (self.targets(path@).len() == 0),
    {
        let deps = self.dependencies_of(path);
        proof {
            assert(deps@.map_values(|p: &ModulePath| p@).len() == deps@.len());
        }
        deps.len() == 0
    }

    /// The number of modules.
    pub fn module_count(&self) -> (r: usize)
        ensures
            r == self.paths().len(),
    {
        self.nodes.len()
    }

    /// The paths of all modules.
    pub fn all_paths(&self) -> (r: Vec<ModulePath>)
        ensures
            paths_v(r@) == self.paths(),
    {
        let mut out: Vec<ModulePath> = Vec::new();
        let mut i: usize = 0;
        while i < self.nodes.len()
            invariant
                i <= self.nodes@.len(),
                paths_v(out@) =~= self.paths().take(i as int),
            decreases self.nodes@.len() - i,
        {
            let c = copy_path(&self.nodes[i].path);
            proof {
                assert(self.paths().take(i + 1) =~= self.paths().take(i as int).push(c@));
                assert(paths_v(out@.push(c)) =~= paths_v(out@).push(c@));
            }
            out.push(c);
            i = i + 1;
        }
        proof {
            assert(self.paths().take(self.nodes@.len() as int) =~= self.paths());
        }
        out
    }

    /// The edges as pairs of node positions.
    fn index_edges(&self) -> (r: Vec<(usize, usize)>)
        requires
            self.wf(),
        ensures
            r@.len() == self.depends().len(),
            edges_within(r@, self.paths().len() as int),
            forall|i: int|
                0 <= i < r@.len() ==> self.depends()[i] == (
                    self.paths()[(#[trigger] r@[i]).0 as int],
                    self.paths()[r@[i].1 as int],
                ),
    {
        let mut out: Vec<(usize, usize)> = Vec::new();
        let mut i: usize = 0;
        while i < self.edges.len()
            invariant
                self.wf(),
                i <= self.edges@.len(),
                out@.len() == i,
                edges_within(out@, self.paths().len() as int),
                forall|k: int|
                    0 <= k < i ==> self.depends()[k] == (
                        self.paths()[(#[trigger] out@[k]).0 as int],
                        self.paths()[out@[k].1 as int],
                    ),
            decreases self.edges@.len() - i,
        {
            let a = self.position(&self.edges[i].from);
            let b = self.position(&self.edges[i].to);
            proof {
                assert(self.depends()[i as int] == (
                    self.edges@[i as int].from@,
                    self.edges@[i as int].to@,
                ));
            }
            match (a, b) {
                (Some(x), Some(y)) => {
                    out.push((x, y));
                },
                _ => {
                    proof {
                        assert(self.paths().contains(self.depends()[i as int].0));
                        assert(self.paths().contains(self.depends()[i as int].1));
                    }
                },
            }
            i = i + 1;
        }
        out
    }

    /// Copies the paths at the given positions.
    fn paths_at(&self, at: &Vec<usize>) -> (r: Vec<ModulePath>)
        requires
            forall|i: int| 0 <= i < at@.len() ==> #[trigger] at@[i] < self.paths().len(),
        ensures
            paths_v(r@) == named(at@, self.paths()),
    {
        let mut out: Vec<ModulePath> = Vec::new();
        let mut i: usize = 0;
        while i < at.len()
            invariant
                i <= at@.len(),
                forall|i: int| 0 <= i < at@.len() ==> #[trigger] at@[i] < self.paths().len(),
                paths_v(out@) =~= named(at@, self.paths()).take(i as int),
            decreases at@.len() - i,
        {
            assert(at@[i as int] < self.paths().len());
            let c = copy_path(&self.nodes[at[i]].path);
            proof {
                assert(named(at@, self.paths()).take(i + 1) =~= named(at@, self.paths()).take(i as int).push(
                    c@,
                ));
                assert(paths_v(out@.push(c)) =~= paths_v(out@).push(c@));
            }
            out.push(c);
            i = i + 1;
        }
        proof {
            assert(named(at@, self.paths()).take(at@.len() as int) =~= named(at@, self.paths()));
        }
        out
    }

    /// Sorts the modules so that each comes behind all it depends on. Where modules depend on
    /// each other in a circle, the error lists the modules that cannot be sorted.
    pub fn topological_sort(&self) -> (r: Result<Vec<ModulePath>, CompilationError>)
        requires
            self.wf(),
        ensures
            r is Ok <==> !has_cycle(self.depends()),
            match r {
                Ok(v) => {
                    &&& paths_v(v@).no_duplicates()
                    &&& forall|p: Seq<Seq<char>>| #[trigger] paths_v(v@).contains(p) <==> self.paths().contains(p)
                    &&& respects(self.depends(), paths_v(v@))
                },
                Err(e) => exists|missing: Seq<Seq<Seq<char>>>| #[trigger] lists_stuck(
                    self.paths(),
                    self.depends(),
                    missing,
                ) && e@ == (ErrorV::CircularImport { cycle: text::joined(path_texts(missing), ", "@) }),
            },
    {
        let es = self.index_edges();
        let n: usize = self.nodes.len();
        let sorted = dependency_order(n, &es);
        let ghost names = self.paths();
        proof {
            lemma_below(sorted.order@, sorted.stuck@, n);
            lemma_order_named(es@, self.depends(), names, sorted.order@);
            lemma_named_distinct(names, sorted.order@);
            lemma_named_distinct(names, sorted.stuck@);
        }
        if sorted.stuck.len() == 0 {
            let v = self.paths_at(&sorted.order);
            proof {
                assert forall|p: Seq<Seq<char>>| #[trigger] paths_v(v@).contains(p) <==> self.paths().contains(p) by {
                    if names.contains(p) {
                        let i = choose|i: int| 0 <= i < names.len() && names[i] == p;
                        assert((i as usize) < n);
                        assert(sorted.order@.contains(i as usize) || sorted.stuck@.contains(i as usize));
                        let j = choose|j: int| 0 <= j < sorted.order@.len() && sorted.order@[j] == i as usize;
                        assert(paths_v(v@)[j] == p);
                    }
                    if paths_v(v@).contains(p) {
                        let j = choose|j: int| 0 <= j < paths_v(v@).len() && paths_v(v@)[j] == p;
                        assert(names[sorted.order@[j] as int] == p);
                    }
                }
                assert forall|i: int| 0 <= i < self.depends().len() implies paths_v(v@).contains(
                    (#[trigger] self.depends()[i]).0,
                ) by {
                    assert(self.paths().contains(self.depends()[i].0));
                }
                law_ordered_graph_has_no_cycle(self.depends(), paths_v(v@));
            }
            Ok(v)
        } else {
            let missing = self.paths_at(&sorted.stuck);
            let texts = texts_of(&missing);
            proof {
                lemma_stuck_named(es@, self.depends(), names, sorted.stuck@, n);
                let m = paths_v(missing@);
                m.unique_seq_to_set();
                law_blocked_set_holds_cycle(self.depends(), m.to_set());
                assert(lists_stuck(self.paths(), self.depends(), m));
            }
            Err(CompilationError::CircularImport { cycle: text::join(&texts, ", ") })
        }
    }

    /// All cycles of the graph, each as a closed loop of modules, every one of which depends on the
    /// next. None passes a module twice, and none is listed twice.
    pub fn detect_cycles(&self) -> (r: Vec<Vec<ModulePath>>)
        requires
            self.wf(),
        ensures
            lists_cycles(self.depends(), loops_v(r@)),
            forall|i: int| 0 <= i < r@.len() ==> (#[trigger] r@[i])@.len() >= 2,
            r@.len() == 0 <==> !has_cycle(self.depends()),
    {
        let es = self.index_edges();
        let n: usize = self.nodes.len();
        let found = find_cycles(n, &es);
        let ghost fv = cycles_v(found@);
        let mut out: Vec<Vec<ModulePath>> = Vec::new();
        let mut i: usize = 0;
        proof {
            assert(loops_v(out@) =~= all_named(fv, self.paths()).take(0));
        }
        while i < found.len()
            invariant
                n == self.paths().len(),
                names_edges(es@, self.depends(), self.paths()),
                fv == cycles_v(found@),
                lists_cycles(es@, fv),
                i <= found@.len(),
                loops_v(out@) =~= all_named(fv, self.paths()).take(i as int),
            decreases found@.len() - i,
        {
            proof {
                assert(fv[i as int] == found@[i as int]@);
                lemma_cycle_named(es@, self.depends(), self.paths(), fv[i as int]);
            }
            let c = self.paths_at(&found[i]);
            proof {
                assert(all_named(fv, self.paths()).take(i + 1) =~= all_named(fv, self.paths()).take(i as int).push(
                    paths_v(c@),
                ));
                assert(loops_v(out@.push(c)) =~= loops_v(out@).push(paths_v(c@)));
            }
            out.push(c);
            i = i + 1;
        }
        proof {
            assert(loops_v(out@) =~= all_named(fv, self.paths()));
            lemma_cycles_named(es@, self.depends(), self.paths(), fv);
            law_listed_cycles_decide(self.depends(), loops_v(out@));
            assert forall|i: int| 0 <= i < out@.len() implies (#[trigger] out@[i])@.len() >= 2 by {
                let c = loops_v(out@)[i];
                assert(c == paths_v(out@[i]@));
                assert(is_cycle(self.depends(), c));
                if c.len() == 1 {
                    let e = choose|e: int| 0 <= e < self.depends().len() && self.depends()[e] == (c[0], c[0]);
                    assert(self.depends()[e].0 != self.depends()[e].1);
                }
            }
        }
        out
    }
}

/// The contents of a list of loops.
pub open spec fn loops_v(cs: Seq<Vec<ModulePath>>) -> Seq<Seq<Seq<Seq<char>>>> {
    cs.map_values(|c: Vec<ModulePath>| paths_v(c@))
}

/// The names of lists of positions.
spec fn all_named(cs: Seq<Seq<usize>>, names: Seq<Seq<Seq<char>>>) -> Seq<Seq<Seq<Seq<char>>>> {
    cs.map_values(|c: Seq<usize>| named(c, names))
}

/// The targets of the edges that leave `p`.
pub open spec fn targets_in(
    edges: Seq<(Seq<Seq<char>>, Seq<Seq<char>>)>,
    p: Seq<Seq<char>>,
) -> Seq<Seq<Seq<char>>>
    decreases edges.len(),
{
    if edges.len() == 0 {
        Seq::empty()
    } else {
        let rest = targets_in(edges.drop_last(), p);
        if edges.last().0 == p {
            rest.push(edges.last().1)
        } else {
            rest
        }
    }
}

/// The sources of the edges that reach `p`.
pub open spec fn sources_in(
    edges: Seq<(Seq<Seq<char>>, Seq<Seq<char>>)>,
    p: Seq<Seq<char>>,
) -> Seq<Seq<Seq<char>>>
    decreases edges.len(),
{
    if edges.len() == 0 {
        Seq::empty()
    } else {
        let rest = sources_in(edges.drop_last(), p);
        if edges.last().1 == p {
            rest.push(edges.last().0)
        } else {
            rest
        }
    }
}

/// A module is among the dependencies of another exactly where there is an edge to it, and among
/// its dependents exactly where there is an edge from it.
pub proof fn law_dependencies_are_edges(
    edges: Seq<(Seq<Seq<char>>, Seq<Seq<char>>)>,
    a: Seq<Seq<char>>,
    b: Seq<Seq<char>>,
)
    ensures
        targets_in(edges, a).contains(b) <==> has_edge(edges, a, b),
        sources_in(edges, b).contains(a) <==> has_edge(edges, a, b),
    decreases edges.len(),
{
    if edges.len() > 0 {
        let rest = edges.drop_last();
        law_dependencies_are_edges(rest, a, b);
        lemma_pushed(rest, edges.last(), (a, b));
        assert(rest.push(edges.last()) =~= edges);
        lemma_pushed(targets_in(rest, a), edges.last().1, b);
        lemma_pushed(sources_in(rest, b), edges.last().0, a);
    }
}

proof fn lemma_pushed<T>(xs: Seq<T>, x: T, y: T)
    ensures
        xs.push(x).contains(y) <==> xs.contains(y) || x == y,
{
    if xs.contains(y) {
        let i = choose|i: int| 0 <= i < xs.len() && xs[i] == y;
        assert(xs.push(x)[i] == y);
    }
    if x == y {
        assert(xs.push(x)[xs.len() as int] == y);
    }
    if xs.push(x).contains(y) {
        let i = choose|i: int| 0 <= i < xs.push(x).len() && xs.push(x)[i] == y;
        if i < xs.len() {
            assert(xs[i] == y);
        }
    }
}

/// The names of the given positions.
pub open spec fn named(at: Seq<usize>, names: Seq<Seq<Seq<char>>>) -> Seq<Seq<Seq<char>>> {
    at.map_values(|i: usize| names[i as int])
}

/// The edges between named nodes, as edges between their positions.
spec fn names_edges(
    es: Seq<(usize, usize)>,
    edges: Seq<(Seq<Seq<char>>, Seq<Seq<char>>)>,
    names: Seq<Seq<Seq<char>>>,
) -> bool {
    &&& names.no_duplicates()
    &&& es.len() == edges.len()
    &&& edges_within(es, names.len() as int)
    &&& forall|i: int|
        0 <= i < es.len() ==> edges[i] == (names[(#[trigger] es[i]).0 as int], names[es[i].1 as int])
}

proof fn lemma_below(order: Seq<usize>, stuck: Seq<usize>, n: usize)
    requires
        forall|a: usize| #![auto] a < n <==> (order.contains(a) || stuck.contains(a)),
    ensures
        forall|i: int| 0 <= i < order.len() ==> #[trigger] order[i] < n,
        forall|i: int| 0 <= i < stuck.len() ==> #[trigger] stuck[i] < n,
{
    assert forall|i: int| 0 <= i < order.len() implies #[trigger] order[i] < n by {
        assert(order.contains(order[i]));
    }
    assert forall|i: int| 0 <= i < stuck.len() implies #[trigger] stuck[i] < n by {
        assert(stuck.contains(stuck[i]));
    }
}

proof fn lemma_named_distinct(names: Seq<Seq<Seq<char>>>, at: Seq<usize>)
    requires
        names.no_duplicates(),
        at.no_duplicates(),
        forall|i: int| 0 <= i < at.len() ==> #[trigger] at[i] < names.len(),
    ensures
        named(at, names).no_duplicates(),
{
    let v = named(at, names);
    assert forall|i: int, j: int| 0 <= i < v.len() && 0 <= j < v.len() && i != j implies v[i] != v[j] by {
        assert(at[i] < names.len() && at[j] < names.len());
        assert(at[i] != at[j]);
    }
}

proof fn lemma_order_named(
    es: Seq<(usize, usize)>,
    edges: Seq<(Seq<Seq<char>>, Seq<Seq<char>>)>,
    names: Seq<Seq<Seq<char>>>,
    order: Seq<usize>,
)
    requires
        names_edges(es, edges, names),
        respects(es, order),
        forall|i: int| 0 <= i < order.len() ==> #[trigger] order[i] < names.len(),
    ensures
        respects(edges, named(order, names)),
{
    let v = named(order, names);
    assert forall|i: int, j: int|
        0 <= i < edges.len() && 0 <= j < v.len() && v[j] == (#[trigger] edges[i]).0 implies #[trigger] before(
        v,
        edges[i].1,
        j,
    ) by {
        assert(es[i].0 < names.len() && es[i].1 < names.len());
        assert(order[j] < names.len());
        assert(names[order[j] as int] == names[es[i].0 as int]);
        assert(order[j] == es[i].0);
        assert(before(order, es[i].1, j));
        let k = choose|k: int| 0 <= k < order.take(j).len() && order.take(j)[k] == es[i].1;
        assert(v.take(j)[k] == edges[i].1);
    }
}

proof fn lemma_cycle_named(
    es: Seq<(usize, usize)>,
    edges: Seq<(Seq<Seq<char>>, Seq<Seq<char>>)>,
    names: Seq<Seq<Seq<char>>>,
    c: Seq<usize>,
)
    requires
        names_edges(es, edges, names),
        is_cycle(es, c),
    ensures
        is_cycle(edges, named(c, names)),
        forall|i: int| 0 <= i < c.len() ==> #[trigger] c[i] < names.len(),
{
    let v = named(c, names);
    assert forall|i: int| 0 <= i < c.len() implies #[trigger] c[i] < names.len() by {
        if i < c.len() - 1 {
            assert(has_edge(es, c[i], c[i + 1]));
            let e = choose|e: int| 0 <= e < es.len() && es[e] == (c[i], c[i + 1]);
            assert(es[e].0 < names.len());
        } else {
            let e = choose|e: int| 0 <= e < es.len() && es[e] == (c[c.len() - 1], c[0]);
            assert(es[e].0 < names.len());
        }
    }
    assert forall|i: int| 0 <= i < v.len() - 1 implies #[trigger] has_edge(edges, v[i], v[i + 1]) by {
        assert(has_edge(es, c[i], c[i + 1]));
        let e = choose|e: int| 0 <= e < es.len() && es[e] == (c[i], c[i + 1]);
        assert(edges[e] == (v[i], v[i + 1]));
    }
    let e = choose|e: int| 0 <= e < es.len() && es[e] == (c[c.len() - 1], c[0]);
    assert(edges[e] == (v[v.len() - 1], v[0]));
}

/// The position of a name.
spec fn position_of(names: Seq<Seq<Seq<char>>>, p: Seq<Seq<char>>) -> usize {
    choose|a: usize| a < names.len() && names[a as int] == p
}

/// A cycle of named nodes is the cycle of their positions.
proof fn lemma_cycle_positions(
    es: Seq<(usize, usize)>,
    edges: Seq<(Seq<Seq<char>>, Seq<Seq<char>>)>,
    names: Seq<Seq<Seq<char>>>,
    c: Seq<Seq<Seq<char>>>,
) -> (at: Seq<usize>)
    requires
        names_edges(es, edges, names),
        names.len() <= usize::MAX,
        is_cycle(edges, c),
        c.no_duplicates(),
    ensures
        is_cycle(es, at),
        at.no_duplicates(),
        named(at, names) == c,
{
    let at = c.map_values(|p: Seq<Seq<char>>| position_of(names, p));
    let n = c.len() as int;
    assert forall|i: int, j: int| 0 <= i < n && 0 <= j < n && #[trigger] has_edge(edges, c[i], c[j]) implies has_edge(
        es,
        at[i],
        at[j],
    ) && names[at[i] as int] == c[i] && at[i] < names.len() by {
        let e = choose|e: int| 0 <= e < edges.len() && edges[e] == (c[i], c[j]);
        assert(es[e].0 < names.len() && es[e].1 < names.len());
        assert(names[es[e].0 as int] == c[i] && names[es[e].1 as int] == c[j]);
        assert(at[i] < names.len() && names[at[i] as int] == c[i]);
        assert(at[j] < names.len() && names[at[j] as int] == c[j]);
        assert(es[e] == (at[i], at[j]));
    }
    assert forall|i: int| 0 <= i < n implies names[#[trigger] at[i] as int] == c[i] by {
        if i < n - 1 {
            assert(has_edge(edges, c[i], c[i + 1]));
        } else {
            assert(has_edge(edges, c[n - 1], c[0]));
        }
    }
    assert forall|i: int| 0 <= i < at.len() - 1 implies #[trigger] has_edge(es, at[i], at[i + 1]) by {
        assert(has_edge(edges, c[i], c[i + 1]));
    }
    assert(has_edge(edges, c[n - 1], c[0]));
    assert forall|i: int, j: int| 0 <= i < at.len() && 0 <= j < at.len() && i != j implies at[i] != at[j] by {
        assert(names[at[i] as int] == c[i] && names[at[j] as int] == c[j]);
        assert(c[i] != c[j]);
    }
    assert(named(at, names) =~= c);
    at
}

proof fn lemma_rotation_named(names: Seq<Seq<Seq<char>>>, a: Seq<usize>, b: Seq<usize>)
    requires
        names.no_duplicates(),
        forall|i: int| 0 <= i < a.len() ==> #[trigger] a[i] < names.len(),
        forall|i: int| 0 <= i < b.len() ==> #[trigger] b[i] < names.len(),
    ensures
        is_rotation(named(a, names), named(b, names)) <==> is_rotation(a, b),
{
    let va = named(a, names);
    let vb = named(b, names);
    if is_rotation(a, b) {
        let k = choose|k: int| 0 <= k < b.len() && a == #[trigger] rotated(b, k);
        assert(va =~= rotated(vb, k));
    }
    if is_rotation(va, vb) {
        let k = choose|k: int| 0 <= k < vb.len() && va == #[trigger] rotated(vb, k);
        let r = rotated(b, k);
        assert(a.len() == va.len() && va.len() == rotated(vb, k).len() && vb.len() == b.len() && r.len() == b.len());
        assert forall|x: int| 0 <= x < r.len() implies a[x] == r[x] by {
            let y = if x + k < b.len() { x + k } else { x + k - b.len() };
            assert(r[x] == b[y]);
            assert(rotated(vb, k)[x] == vb[y]);
            assert(va[x] == names[a[x] as int] && vb[y] == names[b[y] as int]);
            assert(a[x] < names.len());
            assert(b[y] < names.len());
        }
        assert(a =~= r);
    }
}

proof fn lemma_rotation_found(
    es: Seq<(usize, usize)>,
    edges: Seq<(Seq<Seq<char>>, Seq<Seq<char>>)>,
    names: Seq<Seq<Seq<char>>>,
    cs: Seq<Seq<usize>>,
    c: Seq<Seq<Seq<char>>>,
)
    requires
        names_edges(es, edges, names),
        names.len() <= usize::MAX,
        lists_cycles(es, cs),
        is_cycle(edges, c),
        c.no_duplicates(),
    ensures
        holds_rotation(all_named(cs, names), c),
{
    let at = lemma_cycle_positions(es, edges, names, c);
    assert(holds_rotation(cs, at));
    let i = choose|i: int| 0 <= i < cs.len() && is_rotation(#[trigger] cs[i], at);
    assert(is_cycle(es, cs[i]));
    lemma_cycle_named(es, edges, names, cs[i]);
    lemma_cycle_named(es, edges, names, at);
    lemma_rotation_named(names, cs[i], at);
    assert(all_named(cs, names)[i] == named(cs[i], names));
}

proof fn lemma_rotations_apart(
    es: Seq<(usize, usize)>,
    edges: Seq<(Seq<Seq<char>>, Seq<Seq<char>>)>,
    names: Seq<Seq<Seq<char>>>,
    cs: Seq<Seq<usize>>,
    i: int,
    j: int,
)
    requires
        names_edges(es, edges, names),
        lists_cycles(es, cs),
        0 <= i < cs.len(),
        0 <= j < cs.len(),
        i != j,
    ensures
        !is_rotation(all_named(cs, names)[i], all_named(cs, names)[j]),
{
    assert(is_cycle(es, cs[i]) && is_cycle(es, cs[j]));
    assert(!is_rotation(cs[i], cs[j]));
    lemma_cycle_named(es, edges, names, cs[i]);
    lemma_cycle_named(es, edges, names, cs[j]);
    lemma_rotation_named(names, cs[i], cs[j]);
}

/// The cycles of the positions are those of the named nodes.
proof fn lemma_cycles_named(
    es: Seq<(usize, usize)>,
    edges: Seq<(Seq<Seq<char>>, Seq<Seq<char>>)>,
    names: Seq<Seq<Seq<char>>>,
    cs: Seq<Seq<usize>>,
)
    requires
        names_edges(es, edges, names),
        names.len() <= usize::MAX,
        lists_cycles(es, cs),
    ensures
        lists_cycles(edges, all_named(cs, names)),
{
    let vs = all_named(cs, names);
    assert forall|i: int| 0 <= i < vs.len() implies is_cycle(edges, #[trigger] vs[i]) && vs[i].no_duplicates() by {
        assert(is_cycle(es, cs[i]) && cs[i].no_duplicates());
        lemma_cycle_named(es, edges, names, cs[i]);
        lemma_named_distinct(names, cs[i]);
    }
    assert forall|c: Seq<Seq<Seq<char>>>| #[trigger] is_cycle(edges, c) && c.no_duplicates() implies holds_rotation(
        vs,
        c,
    ) by {
        lemma_rotation_found(es, edges, names, cs, c);
    }
    assert forall|i: int, j: int| 0 <= i < vs.len() && 0 <= j < vs.len() && i != j implies !#[trigger] is_rotation(
        vs[i],
        vs[j],
    ) by {
        lemma_rotations_apart(es, edges, names, cs, i, j);
    }
}

/// The positions, below `n`, of the members of `s`.
spec fn positions_of(s: Set<Seq<Seq<char>>>, names: Seq<Seq<Seq<char>>>, n: usize) -> Set<usize> {
    Set::new(|a: usize| a < n && s.contains(names[a as int]))
}

proof fn lemma_blocked_named(
    es: Seq<(usize, usize)>,
    edges: Seq<(Seq<Seq<char>>, Seq<Seq<char>>)>,
    names: Seq<Seq<Seq<char>>>,
    stuck: Seq<usize>,
)
    requires
        names_edges(es, edges, names),
        blocked(es, stuck.to_set()),
    ensures
        blocked(edges, named(stuck, names).to_set()),
{
    let m = named(stuck, names);
    assert forall|p: Seq<Seq<char>>| m.to_set().contains(p) implies #[trigger] depends_into(
        edges,
        m.to_set(),
        p,
    ) by {
        let i = choose|i: int| 0 <= i < m.len() && m[i] == p;
        assert(stuck.to_set().contains(stuck[i]));
        assert(depends_into(es, stuck.to_set(), stuck[i]));
        let b = choose|b: usize| stuck.to_set().contains(b) && has_edge(es, stuck[i], b);
        let e = choose|e: int| 0 <= e < es.len() && es[e] == (stuck[i], b);
        let j = choose|j: int| 0 <= j < stuck.len() && stuck[j] == b;
        assert(edges[e] == (m[i], m[j]));
        assert(m.to_set().contains(m[j]));
        assert(has_edge(edges, p, m[j]));
    }
}

proof fn lemma_blocked_positions(
    es: Seq<(usize, usize)>,
    edges: Seq<(Seq<Seq<char>>, Seq<Seq<char>>)>,
    names: Seq<Seq<Seq<char>>>,
    s: Set<Seq<Seq<char>>>,
    n: usize,
)
    requires
        names_edges(es, edges, names),
        n == names.len(),
        blocked(edges, s),
    ensures
        blocked(es, positions_of(s, names, n)),
{
    let t = positions_of(s, names, n);
    assert forall|a: usize| t.contains(a) implies #[trigger] depends_into(es, t, a) by {
        let p = names[a as int];
        assert(s.contains(p));
        assert(depends_into(edges, s, p));
        let q = choose|q: Seq<Seq<char>>| s.contains(q) && has_edge(edges, p, q);
        let e = choose|e: int| 0 <= e < edges.len() && edges[e] == (p, q);
        assert(es[e].0 < n && es[e].1 < n);
        assert(names[es[e].0 as int] == names[a as int]);
        assert(es[e].0 == a);
        assert(t.contains(es[e].1));
        assert(es[e] == (a, es[e].1));
        assert(has_edge(es, a, es[e].1));
    }
}

proof fn lemma_stuck_greatest(
    names: Seq<Seq<Seq<char>>>,
    stuck: Seq<usize>,
    s: Set<Seq<Seq<char>>>,
    n: usize,
)
    requires
        n == names.len(),
        positions_of(s, names, n).subset_of(stuck.to_set()),
        forall|p: Seq<Seq<char>>| s.contains(p) ==> names.contains(p),
    ensures
        s.subset_of(named(stuck, names).to_set()),
{
    let m = named(stuck, names);
    assert forall|p: Seq<Seq<char>>| s.contains(p) implies m.to_set().contains(p) by {
        assert(names.contains(p));
        let i = choose|i: int| 0 <= i < names.len() && names[i] == p;
        assert(positions_of(s, names, n).contains(i as usize));
        assert(stuck.to_set().contains(i as usize));
        let j = choose|j: int| 0 <= j < stuck.len() && stuck[j] == i as usize;
        assert(m[j] == p);
    }
}

proof fn lemma_stuck_named(
    es: Seq<(usize, usize)>,
    edges: Seq<(Seq<Seq<char>>, Seq<Seq<char>>)>,
    names: Seq<Seq<Seq<char>>>,
    stuck: Seq<usize>,
    n: usize,
)
    requires
        names_edges(es, edges, names),
        n == names.len(),
        blocked(es, stuck.to_set()),
        forall|s: Set<usize>|
            #[trigger] blocked(es, s) && (forall|a: usize| s.contains(a) ==> a < n) ==> s.subset_of(
                stuck.to_set(),
            ),
        forall|i: int| 0 <= i < stuck.len() ==> #[trigger] stuck[i] < n,
    ensures
        blocked(edges, named(stuck, names).to_set()),
        forall|i: int| 0 <= i < stuck.len() ==> names.contains(#[trigger] named(stuck, names)[i]),
        forall|s: Set<Seq<Seq<char>>>|
            #[trigger] blocked(edges, s) && (forall|p: Seq<Seq<char>>| s.contains(p) ==> names.contains(p))
                ==> s.subset_of(named(stuck, names).to_set()),
{
    let m = named(stuck, names);
    assert forall|i: int| 0 <= i < stuck.len() implies names.contains(#[trigger] m[i]) by {
        assert(stuck[i] < n);
        assert(names[stuck[i] as int] == m[i]);
    }
    lemma_blocked_named(es, edges, names, stuck);
    assert forall|s: Set<Seq<Seq<char>>>|
        #[trigger] blocked(edges, s) && (forall|p: Seq<Seq<char>>| s.contains(p) ==> names.contains(p))
        implies s.subset_of(m.to_set()) by {
        lemma_blocked_positions(es, edges, names, s, n);
        lemma_stuck_greatest(names, stuck, s, n);
    }
}

/// The texts of a list of paths.
pub fn texts_of(ps: &Vec<ModulePath>) -> (r: Vec<String>)
    ensures
        text::texts(r@) == path_texts(paths_v(ps@)),
{
    let mut out: Vec<String> = Vec::new();
    let mut i: usize = 0;
    while i < ps.len()
        invariant
            i <= ps@.len(),
            text::texts(out@) =~= path_texts(paths_v(ps@)).take(i as int),
        decreases ps@.len() - i,
    {
        let c = ps[i].to_string();
        proof {
            assert(path_texts(paths_v(ps@)).take(i + 1) =~= path_texts(paths_v(ps@)).take(i as int).push(c@));
            assert(text::texts(out@.push(c)) =~= text::texts(out@).push(c@));
        }
        out.push(c);
        i = i + 1;
    }
    proof {
        assert(path_texts(paths_v(ps@)).take(ps@.len() as int) =~= path_texts(paths_v(ps@)));
    }
    out
}

} // verus!
