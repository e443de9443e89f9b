//! Where names, imports and headers of the modules lead.
use crate::decl::IncludeV;
use crate::module::ModuleImportV;
use crate::registry::{all_headers, all_import_edges, declaration_in, declared_by, declaring_module,
    first_declaration, has_header, headers_added, import_edges, module_at, with_module, DeclBindingV, DeclKind,
    ModuleV};
use vstd::prelude::*;

verus! {

/// Whether a module declares a name.
pub open spec fn declares(ds: Seq<(Seq<char>, DeclBindingV)>, name: Seq<char>, module: Seq<Seq<char>>) -> bool {
    exists|i: int| 0 <= i < ds.len() && (#[trigger] ds[i]).0 == name && ds[i].1.module == module
}

/// A name stands for the declaration of the module it is used in, where there is one, and else for one of
/// a module that declares it. It stands for nothing only where no module declares it.
pub proof fn law_own_declaration_comes_first(ds: Seq<(Seq<char>, DeclBindingV)>, name: Seq<char>, current: Seq<Seq<char>>)
    ensures
        declares(ds, name, current) ==> declaring_module(ds, name, current) == Some(current),
        declaring_module(ds, name, current) matches Some(m) ==> declares(ds, name, m),
        declaring_module(ds, name, current) is None <==> (forall|i: int| 0 <= i < ds.len() ==> (#[trigger] ds[i]).0 != name),
{
    lemma_declaration_in(ds, name, current, 0);
    lemma_first_declaration(ds, name, 0);
}

proof fn lemma_declaration_in(ds: Seq<(Seq<char>, DeclBindingV)>, name: Seq<char>, module: Seq<Seq<char>>, i: int)
    requires
        0 <= i <= ds.len(),
    ensures
        declaration_in(ds, name, module, i) is Some <==> (exists|j: int|
            i <= j < ds.len() && (#[trigger] ds[j]).0 == name && ds[j].1.module == module),
    decreases ds.len() - i,
{
    if i < ds.len() {
        lemma_declaration_in(ds, name, module, i + 1);
    }
}

proof fn lemma_first_declaration(ds: Seq<(Seq<char>, DeclBindingV)>, name: Seq<char>, i: int)
    requires
        0 <= i <= ds.len(),
    ensures
        first_declaration(ds, name, i) is None <==> (forall|j: int| i <= j < ds.len() ==> (#[trigger] ds[j]).0 != name),
        first_declaration(ds, name, i) matches Some(d) ==> declares(ds, name, d.module),
    decreases ds.len() - i,
{
    if i < ds.len() {
        lemma_first_declaration(ds, name, i + 1);
    }
}

/// Every declaration of a module is known under its name, as what it is and as one of that module.
pub proof fn law_every_declaration_is_known(m: ModuleV, i: int)
    ensures
        ({
            let ds = declared_by(m);
            let p = m.program;
            &&& 0 <= i < p.functions.len() ==> ds.contains(
                (p.functions[i].name, DeclBindingV { module: m.path, kind: DeclKind::Function }),
            )
            &&& 0 <= i < p.globals.len() ==> ds.contains(
                (p.globals[i].name, DeclBindingV { module: m.path, kind: DeclKind::Global }),
            )
            &&& 0 <= i < p.structs.len() ==> ds.contains(
                (p.structs[i].name, DeclBindingV { module: m.path, kind: DeclKind::Struct }),
            )
            &&& 0 <= i < p.enums.len() ==> ds.contains(
                (p.enums[i].name, DeclBindingV { module: m.path, kind: DeclKind::Enum }),
            )
            &&& 0 <= i < p.traits.len() ==> ds.contains(
                (p.traits[i].name, DeclBindingV { module: m.path, kind: DeclKind::Trait }),
            )
            &&& 0 <= i < p.rulesets.len() ==> ds.contains(
                (p.rulesets[i].name, DeclBindingV { module: m.path, kind: DeclKind::RuleSet }),
            )
            &&& ds.len() == p.functions.len() + p.globals.len() + p.structs.len() + p.enums.len() + p.traits.len()
                + p.rulesets.len()
        }),
{
    let ds = declared_by(m);
    let p = m.program;
    let a = p.functions.len() as int;
    let b = a + p.globals.len();
    let c = b + p.structs.len();
    let d = c + p.enums.len();
    let e = d + p.traits.len();
    if 0 <= i < p.functions.len() {
        assert(ds[i] == (p.functions[i].name, DeclBindingV { module: m.path, kind: DeclKind::Function }));
    }
    if 0 <= i < p.globals.len() {
        assert(ds[a + i] == (p.globals[i].name, DeclBindingV { module: m.path, kind: DeclKind::Global }));
    }
    if 0 <= i < p.structs.len() {
        assert(ds[b + i] == (p.structs[i].name, DeclBindingV { module: m.path, kind: DeclKind::Struct }));
    }
    if 0 <= i < p.enums.len() {
        assert(ds[c + i] == (p.enums[i].name, DeclBindingV { module: m.path, kind: DeclKind::Enum }));
    }
    if 0 <= i < p.traits.len() {
        assert(ds[d + i] == (p.traits[i].name, DeclBindingV { module: m.path, kind: DeclKind::Trait }));
    }
    if 0 <= i < p.rulesets.len() {
        assert(ds[e + i] == (p.rulesets[i].name, DeclBindingV { module: m.path, kind: DeclKind::RuleSet }));
    }
}

/// Looking for a module finds one with its path, and nothing only where none has it.
pub proof fn law_module_is_found_by_its_path(ms: Seq<ModuleV>, p: Seq<Seq<char>>)
    ensures
        module_at(ms, p, 0) matches Some(k) ==> 0 <= k < ms.len() && ms[k].path == p,
        module_at(ms, p, 0) is None <==> (forall|i: int| 0 <= i < ms.len() ==> (#[trigger] ms[i]).path != p),
{
    lemma_module_at(ms, p, 0);
}

proof fn lemma_module_at(ms: Seq<ModuleV>, p: Seq<Seq<char>>, i: int)
    requires
        0 <= i <= ms.len(),
    ensures
        module_at(ms, p, i) matches Some(k) ==> i <= k < ms.len() && ms[k].path == p,
        module_at(ms, p, i) is None <==> (forall|j: int| i <= j < ms.len() ==> (#[trigger] ms[j]).path != p),
    decreases ms.len() - i,
{
    if i < ms.len() {
        lemma_module_at(ms, p, i + 1);
    }
}

/// A module takes the place of one with its path, and else stands last; all others stay where they are.
pub proof fn law_module_takes_its_place(ms: Seq<ModuleV>, m: ModuleV, k: int)
    ensures
        with_module(ms, m).contains(m),
        0 <= k < ms.len() && ms[k].path != m.path ==> with_module(ms, m)[k] == ms[k],
        with_module(ms, m).len() == ms.len() + if module_at(ms, m.path, 0) is Some {
            0int
        } else {
            1
        },
{
    law_module_is_found_by_its_path(ms, m.path);
    let out = with_module(ms, m);
    match module_at(ms, m.path, 0) {
        Some(i) => {
            assert(out[i] == m);
        },
        None => {
            assert(out[ms.len() as int] == m);
        },
    }
}

/// Whether a module imports another that is known, and is not that one itself.
pub open spec fn imports_module(ms: Seq<ModuleV>, i: int, to: Seq<Seq<char>>) -> bool {
    &&& ms[i].path != to
    &&& module_at(ms, to, 0) is Some
    &&& exists|j: int| 0 <= j < ms[i].imports.len() && (#[trigger] ms[i].imports[j]).path == to
}

proof fn lemma_edges(
    ms: Seq<ModuleV>,
    from: Seq<Seq<char>>,
    xs: Seq<ModuleImportV>,
    j: int,
    acc: Seq<(Seq<Seq<char>>, Seq<Seq<char>>)>,
    edge: (Seq<Seq<char>>, Seq<Seq<char>>),
)
    requires
        0 <= j <= xs.len(),
    ensures
        import_edges(ms, from, xs, j, acc).contains(edge) <==> acc.contains(edge) || (edge.0 == from && from != edge.1
            && module_at(ms, edge.1, 0) is Some && exists|k: int|
            j <= k < xs.len() && (#[trigger] xs[k]).path == edge.1),
    decreases xs.len() - j,
{
    if j < xs.len() {
        if module_at(ms, xs[j].path, 0) is Some && from != xs[j].path {
            let x = (from, xs[j].path);
            lemma_edges(ms, from, xs, j + 1, acc.push(x), edge);
            lemma_pushed(acc, x, edge);
        } else {
            lemma_edges(ms, from, xs, j + 1, acc, edge);
        }
    }
}

proof fn lemma_pushed<A>(acc: Seq<A>, x: A, y: A)
    ensures
        acc.push(x).contains(y) <==> acc.contains(y) || x == y,
{
    assert(acc.push(x)[acc.len() as int] == x);
    if acc.contains(y) {
        let k = choose|k: int| 0 <= k < acc.len() && acc[k] == y;
        assert(acc.push(x)[k] == y);
    }
}

/// There is an edge from a module to another exactly where the one imports the other.
pub proof fn law_imports_are_edges(ms: Seq<ModuleV>, edge: (Seq<Seq<char>>, Seq<Seq<char>>))
    ensures
        all_import_edges(ms, 0, Seq::empty()).contains(edge) <==> (exists|i: int|
            0 <= i < ms.len() && ms[i].path == edge.0 && #[trigger] imports_module(ms, i, edge.1)),
{
    lemma_all_edges(ms, 0, Seq::empty(), edge);
}

proof fn lemma_all_edges(
    ms: Seq<ModuleV>,
    i: int,
    acc: Seq<(Seq<Seq<char>>, Seq<Seq<char>>)>,
    edge: (Seq<Seq<char>>, Seq<Seq<char>>),
)
    requires
        0 <= i <= ms.len(),
    ensures
        all_import_edges(ms, i, acc).contains(edge) <==> acc.contains(edge) || (exists|k: int|
            i <= k < ms.len() && ms[k].path == edge.0 && #[trigger] imports_module(ms, k, edge.1)),
    decreases ms.len() - i,
{
    if i < ms.len() {
        let acc1 = import_edges(ms, ms[i].path, ms[i].imports, 0, acc);
        lemma_edges(ms, ms[i].path, ms[i].imports, 0, acc, edge);
        lemma_all_edges(ms, i + 1, acc1, edge);
        assert(acc1.contains(edge) <==> acc.contains(edge) || (ms[i].path == edge.0 && imports_module(ms, i, edge.1)));
    }
}

/// A header is listed exactly where some module names it.
pub proof fn law_named_headers_are_listed(ms: Seq<ModuleV>, path: Seq<char>)
    ensures
        has_header(all_headers(ms, 0, Seq::empty()), path) <==> (exists|i: int|
            0 <= i < ms.len() && has_header((#[trigger] ms[i]).includes, path)),
{
    lemma_headers(ms, 0, Seq::empty(), path);
    assert(!has_header(Seq::<IncludeV>::empty(), path));
}

proof fn lemma_headers(ms: Seq<ModuleV>, i: int, acc: Seq<IncludeV>, path: Seq<char>)
    requires
        0 <= i <= ms.len(),
    ensures
        has_header(all_headers(ms, i, acc), path) <==> has_header(acc, path) || (exists|k: int|
            i <= k < ms.len() && has_header((#[trigger] ms[k]).includes, path)),
    decreases ms.len() - i,
{
    if i < ms.len() {
        lemma_added(acc, ms[i].includes, 0, path);
        lemma_headers(ms, i + 1, headers_added(acc, ms[i].includes, 0), path);
    }
}

proof fn lemma_added(acc: Seq<IncludeV>, xs: Seq<IncludeV>, j: int, path: Seq<char>)
    requires
        0 <= j <= xs.len(),
    ensures
        has_header(headers_added(acc, xs, j), path) <==> has_header(acc, path) || (exists|k: int|
            j <= k < xs.len() && (#[trigger] xs[k]).path == path),
    decreases xs.len() - j,
{
    if j < xs.len() {
        if has_header(acc, xs[j].path) {
            lemma_added(acc, xs, j + 1, path);
        } else {
            let acc1 = acc.push(xs[j]);
            lemma_added(acc1, xs, j + 1, path);
            assert(acc1[acc.len() as int] == xs[j]);
            assert(has_header(acc1, path) <==> has_header(acc, path) || xs[j].path == path) by {
                if has_header(acc, path) {
                    let k = choose|k: int| 0 <= k < acc.len() && (#[trigger] acc[k]).path == path;
                    assert(acc1[k].path == path);
                }
            }
        }
    }
}

} // verus!
