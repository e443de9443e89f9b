//! Loaded modules, their declarations, and the dependencies between them.
use crate::attrs::{unmangled, Attributed};
use crate::decl::{copy_include, copy_includes, copy_program, copy_using_clauses, includes_v, program_v,
    using_clauses_v, EnumDefinitionV, FunctionV, GlobalDeclV, Include, IncludeV, Program, ProgramV, RuleSetV,
    StructDefinitionV, TraitDefinitionV, UsingClause, UsingClauseV};
use crate::cycles::lists_cycles;
use crate::digraph::{has_cycle, respects};
use crate::error::{CompilationError, ErrorV};
use crate::graph::{lists_stuck, loops_v, path_texts, texts_of, DependencyGraph, ModuleNode};
use crate::module::{copy_path, imports_v, path_text, paths_v, ImportType, ModuleImport, ModuleImportV,
    ModulePath};
use crate::symbols::get_in;
use crate::table::Table;
use crate::text;
use vstd::prelude::*;

verus! {

/// Copies a list of import statements.
pub fn copy_imports(xs: &Vec<ModuleImport>) -> (r: Vec<ModuleImport>)
    ensures
        imports_v(r@) == imports_v(xs@),
{
    let mut out: Vec<ModuleImport> = Vec::new();
    let mut i: usize = 0;
    while i < xs.len()
        invariant
            i <= xs@.len(),
            imports_v(out@) =~= imports_v(xs@).take(i as int),
        decreases xs@.len() - i,
    {
        let c = xs[i].clone();
        proof {
            assert(imports_v(xs@).take(i + 1) =~= imports_v(xs@).take(i as int).push(c@));
            assert(imports_v(out@.push(c)) =~= imports_v(out@).push(c@));
        }
        out.push(c);
        i = i + 1;
    }
    proof {
        assert(imports_v(xs@).take(xs@.len() as int) =~= imports_v(xs@));
    }
    out
}

/// A loaded module.
#[derive(Debug, PartialEq)]
pub struct Module {
    pub path: ModulePath,
    pub source_path: String,
    pub imports: Vec<ModuleImport>,
    pub includes: Vec<Include>,
    pub program: Program,
    pub is_c_module: bool,
    pub mod_using: Vec<UsingClause>,
}

/// The contents of a module.
pub struct ModuleV {
    pub path: Seq<Seq<char>>,
    pub source_path: Seq<char>,
    pub imports: Seq<ModuleImportV>,
    pub includes: Seq<IncludeV>,
    pub program: ProgramV,
    pub is_c_module: bool,
    pub mod_using: Seq<UsingClauseV>,
}

/// The contents of a module.
pub open spec fn module_v(x: Module) -> ModuleV {
    ModuleV {
        path: x.path@,
        source_path: x.source_path@,
        imports: imports_v(x.imports@),
        includes: includes_v(x.includes@),
        program: program_v(x.program),
        is_c_module: x.is_c_module,
        mod_using: using_clauses_v(x.mod_using@),
    }
}

impl View for Module {
    type V = ModuleV;

    open spec fn view(&self) -> ModuleV {
        module_v(*self)
    }
}

/// The contents of a list of modules.
pub open spec fn modules_v(xs: Seq<Module>) -> Seq<ModuleV> {
    xs.map_values(|x: Module| module_v(x))
}

/// Copies a module.
pub fn copy_module(x: &Module) -> (r: Module)
    ensures
        module_v(r) == module_v(*x),
{
    Module {
        path: copy_path(&x.path),
        source_path: x.source_path.clone(),
        imports: copy_imports(&x.imports),
        includes: copy_includes(&x.includes),
        program: copy_program(&x.program),
        is_c_module: x.is_c_module,
        mod_using: copy_using_clauses(&x.mod_using),
    }
}

impl Clone for Module {
    fn clone(&self) -> (r: Self)
        ensures
            r@ == self@,
    {
        copy_module(self)
    }
}

impl Module {
    /// A module of Kit source without `using` clauses.
    pub fn new(
        path: ModulePath,
        source_path: String,
        imports: Vec<ModuleImport>,
        includes: Vec<Include>,
        program: Program,
    ) -> (r: Self)
        ensures
            r@ == (ModuleV {
                path: path@,
                source_path: source_path@,
                imports: imports_v(imports@),
                includes: includes_v(includes@),
                program: program@,
                is_c_module: false,
                mod_using: Seq::empty(),
            }),
    {
        let r = Module { path, source_path, imports, includes, program, is_c_module: false, mod_using: Vec::new() };
        proof {
            assert(r@.mod_using =~= Seq::<UsingClauseV>::empty());
        }
        r
    }
}

/// What a name stands for.
#[derive(Debug, PartialEq)]
pub enum NameBinding {
    /// A module.
    Module(ModulePath),
    /// A declaration whose C name is its plain name.
    Extern,
}

/// The contents of a binding.
pub enum NameBindingV {
    Module(Seq<Seq<char>>),
    Extern,
}

impl View for NameBinding {
    type V = NameBindingV;

    open spec fn view(&self) -> NameBindingV {
        match *self {
            NameBinding::Module(p) => NameBindingV::Module(p@),
            NameBinding::Extern => NameBindingV::Extern,
        }
    }
}

impl Clone for NameBinding {
    fn clone(&self) -> (r: Self)
        ensures
            r@ == self@,
    {
        match self {
            NameBinding::Module(p) => NameBinding::Module(copy_path(p)),
            NameBinding::Extern => NameBinding::Extern,
        }
    }
}

/// A kind of declaration.
#[derive(Clone, Copy, Debug, PartialEq, Eq, Structural)]
pub enum DeclKind {
    Function,
    Global,
    Struct,
    Enum,
    Trait,
    RuleSet,
}

/// The module that declares a name, and what it declares it as.
#[derive(Debug, PartialEq)]
pub struct DeclBinding {
    pub module: ModulePath,
    pub kind: DeclKind,
}

/// The contents of a declaration binding.
pub struct DeclBindingV {
    pub module: Seq<Seq<char>>,
    pub kind: DeclKind,
}

impl View for DeclBinding {
    type V = DeclBindingV;

    open spec fn view(&self) -> DeclBindingV {
        DeclBindingV { module: self.module@, kind: self.kind }
    }
}

impl Clone for DeclBinding {
    fn clone(&self) -> (r: Self)
        ensures
            r@ == self@,
    {
        DeclBinding { module: copy_path(&self.module), kind: self.kind }
    }
}

/// The names of a scope and what they stand for.
#[derive(Debug)]
pub struct BindingTable {
    bindings: Table<NameBinding>,
}

/// The contents of a table of bindings.
pub open spec fn bindings_v(m: Map<Seq<char>, NameBinding>) -> Map<Seq<char>, NameBindingV> {
    m.map_values(|b: NameBinding| b@)
}

impl View for BindingTable {
    type V = Map<Seq<char>, NameBindingV>;

    closed spec fn view(&self) -> Map<Seq<char>, NameBindingV> {
        bindings_v(self.bindings.map())
    }
}

/// What a binding is called in an error.
pub open spec fn binding_text(b: NameBindingV) -> Seq<char> {
    match b {
        NameBindingV::Module(p) => path_text(p),
        NameBindingV::Extern => "extern"@,
    }
}

/// The table with a name bound, unless the name stands for something else already.
pub open spec fn bound(m: Map<Seq<char>, NameBindingV>, name: Seq<char>, b: NameBindingV) -> Result<
    Map<Seq<char>, NameBindingV>,
    ErrorV,
> {
    if m.contains_key(name) && m[name] != b {
        Err(ErrorV::DuplicateSymbol { name, module: binding_text(m[name]) })
    } else {
        Ok(m.insert(name, b))
    }
}

fn same_binding(a: &NameBinding, b: &NameBinding) -> (r: bool)
    ensures
        r == (a@ == b@),
{
    match (a, b) {
        (NameBinding::Module(p), NameBinding::Module(q)) => p.same(q),
        (NameBinding::Extern, NameBinding::Extern) => true,
        _ => false,
    }
}

impl BindingTable {
    /// A table without names.
    pub fn new() -> (r: Self)
        ensures
            r@ == Map::<Seq<char>, NameBindingV>::empty(),
    {
        let r = BindingTable { bindings: Table::new() };
        proof {
            assert(r@ =~= Map::<Seq<char>, NameBindingV>::empty());
        }
        r
    }

    /// Binds a name. A name that stands for something else already is refused.
    pub fn insert(&mut self, name: String, binding: NameBinding) -> (r: Result<(), CompilationError>)
        ensures
            match r {
                Ok(_) => bound(old(self)@, name@, binding@) == Ok::<Map<Seq<char>, NameBindingV>, ErrorV>(
                    final(self)@,
                ),
                Err(e) => bound(old(self)@, name@, binding@) == Err::<Map<Seq<char>, NameBindingV>, ErrorV>(
                    e@,
                ) && final(self)@ == old(self)@,
            },
    {
        match self.bindings.get(name.as_str()) {
            Some(existing) => {
                if !same_binding(existing, &binding) {
                    let module = match existing {
                        NameBinding::Module(p) => p.to_string(),
                        NameBinding::Extern => "extern".to_owned(),
                    };
                    return Err(CompilationError::DuplicateSymbol { name, module });
                }
            },
            None => {},
        }
        let ghost before = self.bindings.map();
        let ghost k = name@;
        let ghost v = binding@;
        self.bindings.insert(name, binding);
        proof {
            assert(bindings_v(self.bindings.map()) =~= bindings_v(before).insert(k, v));
        }
        Ok(())
    }

    /// What a name stands for.
    pub fn get(&self, name: &str) -> (r: Option<&NameBinding>)
        ensures
            match r {
                Some(b) => get_in(self@, name@) == Some(b@),
                None => get_in(self@, name@) is None,
            },
    {
        self.bindings.get(name)
    }

    /// Whether a name is bound.
    pub fn contains(&self, name: &str) -> (r: bool)
        ensures
            r == self@.contains_key(name@),
    {
        self.bindings.contains(name)
    }
}

/// The modules of a program: those loaded, by path, the declarations of all, the bindings of
/// module names and unmangled names, the modules that failed to load, and the graph of
/// dependencies.
#[derive(Debug)]
pub struct ModuleRegistry {
    modules: Vec<Module>,
    graph: DependencyGraph,
    bindings: BindingTable,
    declarations: Vec<(String, DeclBinding)>,
    failed: Vec<ModulePath>,
}

/// The contents of a registry, but for the graph.
pub struct RegistryV {
    pub modules: Seq<ModuleV>,
    pub bindings: Map<Seq<char>, NameBindingV>,
    pub declarations: Seq<(Seq<char>, DeclBindingV)>,
    pub failed: Seq<Seq<Seq<char>>>,
}

/// The contents of a list of declarations.
pub open spec fn declarations_v(ds: Seq<(String, DeclBinding)>) -> Seq<(Seq<char>, DeclBindingV)> {
    ds.map_values(|d: (String, DeclBinding)| (d.0@, d.1@))
}

/// The paths of a list of modules.
pub open spec fn module_paths(ms: Seq<ModuleV>) -> Seq<Seq<Seq<char>>> {
    ms.map_values(|m: ModuleV| m.path)
}

/// The position of the module with the given path.
pub open spec fn module_at(ms: Seq<ModuleV>, p: Seq<Seq<char>>, i: int) -> Option<int>
    decreases ms.len() - i,
{
    if i < 0 || i >= ms.len() {
        None
    } else if ms[i].path == p {
        Some(i)
    } else {
        module_at(ms, p, i + 1)
    }
}

/// The modules with one more, which takes the place of one with the same path.
pub open spec fn with_module(ms: Seq<ModuleV>, m: ModuleV) -> Seq<ModuleV> {
    match module_at(ms, m.path, 0) {
        Some(i) => ms.update(i, m),
        None => ms.push(m),
    }
}

/// The key under which an unmangled name is bound.
pub open spec fn extern_key(name: Seq<char>) -> Seq<char> {
    "extern."@ + name
}

/// The error for an unmangled name that is taken.
pub open spec fn extern_taken(name: Seq<char>) -> ErrorV {
    ErrorV::DuplicateSymbol { name, module: "extern (global namespace)"@ }
}

/// The bindings with the unmangled names from position `i` on claimed; with the error where one
/// is taken, at which the rest is left.
pub open spec fn claimed(b: Map<Seq<char>, NameBindingV>, names: Seq<Seq<char>>, i: int) -> (
    Map<Seq<char>, NameBindingV>,
    Option<ErrorV>,
)
    decreases names.len() - i,
{
    if i < 0 || i >= names.len() {
        (b, None)
    } else if b.contains_key(extern_key(names[i])) {
        (b, Some(extern_taken(names[i])))
    } else {
        claimed(b.insert(extern_key(names[i]), NameBindingV::Extern), names, i + 1)
    }
}

/// The unmangled names that a program declares.
pub open spec fn unmangled_names(p: ProgramV) -> Seq<Seq<char>> {
    unmangled_functions(p.functions) + unmangled_globals(p.globals) + unmangled_structs(p.structs)
        + unmangled_enums(p.enums)
}

/// The names of the unmangled functions.
pub open spec fn unmangled_functions(xs: Seq<FunctionV>) -> Seq<Seq<char>>
    decreases xs.len(),
{
    if xs.len() == 0 {
        Seq::empty()
    } else if unmangled(xs.last().metadata) {
        unmangled_functions(xs.drop_last()).push(xs.last().name)
    } else {
        unmangled_functions(xs.drop_last())
    }
}

/// The names of the unmangled globals.
pub open spec fn unmangled_globals(xs: Seq<GlobalDeclV>) -> Seq<Seq<char>>
    decreases xs.len(),
{
    if xs.len() == 0 {
        Seq::empty()
    } else if unmangled(xs.last().metadata) {
        unmangled_globals(xs.drop_last()).push(xs.last().name)
    } else {
        unmangled_globals(xs.drop_last())
    }
}

/// The names of the unmangled structs.
pub open spec fn unmangled_structs(xs: Seq<StructDefinitionV>) -> Seq<Seq<char>>
    decreases xs.len(),
{
    if xs.len() == 0 {
        Seq::empty()
    } else if unmangled(xs.last().metadata) {
        unmangled_structs(xs.drop_last()).push(xs.last().name)
    } else {
        unmangled_structs(xs.drop_last())
    }
}

/// The names of the unmangled enums.
pub open spec fn unmangled_enums(xs: Seq<EnumDefinitionV>) -> Seq<Seq<char>>
    decreases xs.len(),
{
    if xs.len() == 0 {
        Seq::empty()
    } else if unmangled(xs.last().metadata) {
        unmangled_enums(xs.drop_last()).push(xs.last().name)
    } else {
        unmangled_enums(xs.drop_last())
    }
}

/// The bindings with the path's prefixes from length `n + 1` on bound, up to the first that
/// stands for something else.
pub open spec fn prefixes_bound(b: Map<Seq<char>, NameBindingV>, p: Seq<Seq<char>>, n: int) -> Map<
    Seq<char>,
    NameBindingV,
>
    decreases p.len() - n,
{
    if n < 0 || n >= p.len() {
        b
    } else {
        let q = p.take(n + 1);
        match bound(b, path_text(q), NameBindingV::Module(q)) {
            Ok(c) => prefixes_bound(c, p, n + 1),
            Err(_) => b,
        }
    }
}

/// The declarations of one kind.
pub open spec fn declared_as(names: Seq<Seq<char>>, module: Seq<Seq<char>>, kind: DeclKind) -> Seq<
    (Seq<char>, DeclBindingV),
> {
    names.map_values(|n: Seq<char>| (n, DeclBindingV { module, kind }))
}

/// The declarations of a module, in the order functions, globals, structs, enums, traits, rule
/// sets.
pub open spec fn declared_by(m: ModuleV) -> Seq<(Seq<char>, DeclBindingV)> {
    declared_as(m.program.functions.map_values(|x: FunctionV| x.name), m.path, DeclKind::Function)
        + declared_as(m.program.globals.map_values(|x: GlobalDeclV| x.name), m.path, DeclKind::Global)
        + declared_as(m.program.structs.map_values(|x: StructDefinitionV| x.name), m.path, DeclKind::Struct)
        + declared_as(m.program.enums.map_values(|x: EnumDefinitionV| x.name), m.path, DeclKind::Enum)
        + declared_as(m.program.traits.map_values(|x: TraitDefinitionV| x.name), m.path, DeclKind::Trait)
        + declared_as(m.program.rulesets.map_values(|x: RuleSetV| x.name), m.path, DeclKind::RuleSet)
}

/// The first declaration of a name, from position `i` on.
pub open spec fn first_declaration(ds: Seq<(Seq<char>, DeclBindingV)>, name: Seq<char>, i: int) -> Option<DeclBindingV>
    decreases ds.len() - i,
{
    if i < 0 || i >= ds.len() {
        None
    } else if ds[i].0 == name {
        Some(ds[i].1)
    } else {
        first_declaration(ds, name, i + 1)
    }
}

/// The first declaration of a name by the given module, from position `i` on.
pub open spec fn declaration_in(
    ds: Seq<(Seq<char>, DeclBindingV)>,
    name: Seq<char>,
    module: Seq<Seq<char>>,
    i: int,
) -> Option<DeclBindingV>
    decreases ds.len() - i,
{
    if i < 0 || i >= ds.len() {
        None
    } else if ds[i].0 == name && ds[i].1.module == module {
        Some(ds[i].1)
    } else {
        declaration_in(ds, name, module, i + 1)
    }
}

/// The module that a name belongs to, seen from `current`: `current` where it declares the name,
/// else the first module that does.
pub open spec fn declaring_module(
    ds: Seq<(Seq<char>, DeclBindingV)>,
    name: Seq<char>,
    current: Seq<Seq<char>>,
) -> Option<Seq<Seq<char>>> {
    if declaration_in(ds, name, current, 0) is Some {
        Some(current)
    } else {
        match first_declaration(ds, name, 0) {
            Some(d) => Some(d.module),
            None => None,
        }
    }
}

/// The module and the base name that a name with or without dots stands for.
pub open spec fn resolved_name(r: RegistryV, name: Seq<char>, current: Seq<Seq<char>>) -> Option<
    (Seq<Seq<char>>, Seq<char>),
> {
    let parts = text::split_on(name, '.');
    if parts.len() > 1 && module_at(r.modules, parts.drop_last(), 0) is Some {
        Some((parts.drop_last(), parts.last()))
    } else {
        match declaring_module(r.declarations, name, current) {
            Some(m) => Some((m, name)),
            None => None,
        }
    }
}

/// The edges that the imports of one module from position `j` on add to those in `acc`: those to
/// other loaded modules.
pub open spec fn import_edges(
    ms: Seq<ModuleV>,
    from: Seq<Seq<char>>,
    imports: Seq<ModuleImportV>,
    j: int,
    acc: Seq<(Seq<Seq<char>>, Seq<Seq<char>>)>,
) -> Seq<(Seq<Seq<char>>, Seq<Seq<char>>)>
    decreases imports.len() - j,
{
    if j < 0 || j >= imports.len() {
        acc
    } else if module_at(ms, imports[j].path, 0) is Some && from != imports[j].path {
        import_edges(ms, from, imports, j + 1, acc.push((from, imports[j].path)))
    } else {
        import_edges(ms, from, imports, j + 1, acc)
    }
}

/// The edges that the imports of all modules from position `i` on add to those in `acc`.
pub open spec fn all_import_edges(ms: Seq<ModuleV>, i: int, acc: Seq<(Seq<Seq<char>>, Seq<Seq<char>>)>) -> Seq<
    (Seq<Seq<char>>, Seq<Seq<char>>),
>
    decreases ms.len() - i,
{
    if i < 0 || i >= ms.len() {
        acc
    } else {
        all_import_edges(ms, i + 1, import_edges(ms, ms[i].path, ms[i].imports, 0, acc))
    }
}

/// The kinds of the imports of one module from position `j` on that add an edge, behind those in
/// `acc`.
pub open spec fn import_kinds(
    ms: Seq<ModuleV>,
    from: Seq<Seq<char>>,
    imports: Seq<ModuleImportV>,
    j: int,
    acc: Seq<ImportType>,
) -> Seq<ImportType>
    decreases imports.len() - j,
{
    if j < 0 || j >= imports.len() {
        acc
    } else if module_at(ms, imports[j].path, 0) is Some && from != imports[j].path {
        import_kinds(ms, from, imports, j + 1, acc.push(imports[j].import_type))
    } else {
        import_kinds(ms, from, imports, j + 1, acc)
    }
}

/// The kinds of the imports of all modules from position `i` on that add an edge, behind those in
/// `acc`.
pub open spec fn all_import_kinds(ms: Seq<ModuleV>, i: int, acc: Seq<ImportType>) -> Seq<ImportType>
    decreases ms.len() - i,
{
    if i < 0 || i >= ms.len() {
        acc
    } else {
        all_import_kinds(ms, i + 1, import_kinds(ms, ms[i].path, ms[i].imports, 0, acc))
    }
}

/// The text of a cycle.
pub open spec fn cycle_text(c: Seq<Seq<Seq<char>>>) -> Seq<char> {
    text::joined(path_texts(c), " -> "@)
}

/// Whether `cycle` describes the cycles of the graph, of which there is at least one.
pub open spec fn describes_cycles(edges: Seq<(Seq<Seq<char>>, Seq<Seq<char>>)>, cycle: Seq<char>) -> bool {
    exists|cs: Seq<Seq<Seq<Seq<char>>>>|
        cs.len() > 0 && lists_cycles(edges, cs) && cycle == text::joined(#[trigger] cycle_texts(cs), "; "@)
}

/// The texts of a list of cycles.
pub open spec fn cycle_texts(cs: Seq<Seq<Seq<Seq<char>>>>) -> Seq<Seq<char>> {
    cs.map_values(|c: Seq<Seq<Seq<char>>>| cycle_text(c))
}

/// Whether a header of the given path is in the list.
pub open spec fn has_header(xs: Seq<IncludeV>, path: Seq<char>) -> bool {
    exists|i: int| 0 <= i < xs.len() && (#[trigger] xs[i]).path == path
}

/// The headers with those from position `j` on added, each path once.
pub open spec fn headers_added(acc: Seq<IncludeV>, xs: Seq<IncludeV>, j: int) -> Seq<IncludeV>
    decreases xs.len() - j,
{
    if j < 0 || j >= xs.len() {
        acc
    } else if has_header(acc, xs[j].path) {
        headers_added(acc, xs, j + 1)
    } else {
        headers_added(acc.push(xs[j]), xs, j + 1)
    }
}

/// The headers of the modules from position `i` on, each path once.
pub open spec fn all_headers(ms: Seq<ModuleV>, i: int, acc: Seq<IncludeV>) -> Seq<IncludeV>
    decreases ms.len() - i,
{
    if i < 0 || i >= ms.len() {
        acc
    } else {
        all_headers(ms, i + 1, headers_added(acc, ms[i].includes, 0))
    }
}

proof fn lemma_module_at(ms: Seq<ModuleV>, p: Seq<Seq<char>>, i: int)
    requires
        0 <= i <= ms.len(),
    ensures
        match module_at(ms, p, i) {
            Some(k) => i <= k < ms.len() && ms[k].path == p && forall|j: int|
                i <= j < k ==> (#[trigger] ms[j]).path != p,
            None => forall|k: int| i <= k < ms.len() ==> (#[trigger] ms[k]).path != p,
        },
    decreases ms.len() - i,
{
    if i < ms.len() && ms[i].path != p {
        lemma_module_at(ms, p, i + 1);
    }
}

/// Registering modules with distinct paths under one unmangled name is refused: the second
/// module that claims a name gets an error.
pub proof fn law_unmangled_names_are_unique(b: Map<Seq<char>, NameBindingV>, first: Seq<Seq<char>>, second: Seq<Seq<char>>, name: Seq<char>)
    requires
        claimed(b, first, 0).1 is None,
        first.contains(name),
        second.contains(name),
    ensures
        claimed(claimed(b, first, 0).0, second, 0).1 is Some,
{
    lemma_claimed_holds(b, first, 0, name);
    lemma_claim_refused(claimed(b, first, 0).0, second, 0, name);
}

/// A module that was added is found under its path, and every other module as before.
pub proof fn law_added_module_is_found(ms: Seq<ModuleV>, m: ModuleV, other: Seq<Seq<char>>)
    ensures
        module_at(with_module(ms, m), m.path, 0) matches Some(k) && with_module(ms, m)[k] == m,
        other != m.path ==> module_at(with_module(ms, m), other, 0) == module_at(ms, other, 0),
        other != m.path ==> (module_at(ms, other, 0) matches Some(k) ==> with_module(ms, m)[k] == ms[k]),
{
    let after = with_module(ms, m);
    lemma_module_at(ms, m.path, 0);
    lemma_module_at(after, m.path, 0);
    lemma_module_at(ms, other, 0);
    lemma_module_at(after, other, 0);
    match module_at(ms, m.path, 0) {
        Some(k) => {
            assert(after[k] == m);
        },
        None => {
            assert(after[ms.len() as int] == m);
        },
    }
    if other != m.path {
        match module_at(ms, other, 0) {
            Some(k) => {
                assert(after[k] == ms[k]);
                assert forall|j: int| 0 <= j < k implies (#[trigger] after[j]).path != other by {
                    assert(ms[j].path != other);
                }
            },
            None => {
                assert forall|j: int| 0 <= j < after.len() implies (#[trigger] after[j]).path != other by {
                    if j < ms.len() {
                        assert(ms[j].path != other);
                    }
                }
            },
        }
    }
}

proof fn lemma_claimed_grows(b: Map<Seq<char>, NameBindingV>, names: Seq<Seq<char>>, i: int, k: Seq<char>)
    requires
        b.contains_key(k),
    ensures
        claimed(b, names, i).0.contains_key(k),
    decreases names.len() - i,
{
    if 0 <= i < names.len() && !b.contains_key(extern_key(names[i])) {
        lemma_claimed_grows(b.insert(extern_key(names[i]), NameBindingV::Extern), names, i + 1, k);
    }
}

proof fn lemma_claimed_holds(b: Map<Seq<char>, NameBindingV>, names: Seq<Seq<char>>, i: int, name: Seq<char>)
    requires
        0 <= i,
        claimed(b, names, i).1 is None,
        exists|j: int| i <= j < names.len() && names[j] == name,
    ensures
        claimed(b, names, i).0.contains_key(extern_key(name)),
    decreases names.len() - i,
{
    let j = choose|j: int| i <= j < names.len() && names[j] == name;
    let c = b.insert(extern_key(names[i]), NameBindingV::Extern);
    if names[i] == name {
        lemma_claimed_grows(c, names, i + 1, extern_key(name));
    } else {
        assert(i + 1 <= j < names.len() && names[j] == name);
        lemma_claimed_holds(c, names, i + 1, name);
    }
}

proof fn lemma_claim_refused(b: Map<Seq<char>, NameBindingV>, names: Seq<Seq<char>>, i: int, name: Seq<char>)
    requires
        0 <= i,
        b.contains_key(extern_key(name)),
        exists|j: int| i <= j < names.len() && names[j] == name,
    ensures
        claimed(b, names, i).1 is Some,
    decreases names.len() - i,
{
    let j = choose|j: int| i <= j < names.len() && names[j] == name;
    if !b.contains_key(extern_key(names[i])) {
        assert(i + 1 <= j < names.len() && names[j] == name);
        lemma_claim_refused(b.insert(extern_key(names[i]), NameBindingV::Extern), names, i + 1, name);
    }
}

impl View for ModuleRegistry {
    type V = RegistryV;

    closed spec fn view(&self) -> RegistryV {
        RegistryV {
            modules: modules_v(self.modules@),
            bindings: self.bindings@,
            declarations: declarations_v(self.declarations@),
            failed: paths_v(self.failed@),
        }
    }
}

/// A registry without modules.
pub open spec fn no_registry() -> RegistryV {
    RegistryV {
        modules: Seq::empty(),
        bindings: Map::empty(),
        declarations: Seq::empty(),
        failed: Seq::empty(),
    }
}

impl ModuleRegistry {
    /// The graph of dependencies.
    pub closed spec fn deps(&self) -> DependencyGraph {
        self.graph
    }

    /// The invariant: no two modules have one path, and every module is a node of the graph.
    pub open spec fn wf(&self) -> bool {
        &&& self.deps().wf()
        &&& module_paths(self@.modules).no_duplicates()
        &&& forall|i: int| 0 <= i < self@.modules.len() ==> self.deps().paths().contains(
            (#[trigger] self@.modules[i]).path,
        )
    }

    /// A registry without modules.
    pub fn new() -> (r: Self)
        ensures
            r.wf(),
            r@ == no_registry(),
            r.deps().paths().len() == 0,
            r.deps().depends().len() == 0,
    {
        let r = ModuleRegistry {
            modules: Vec::new(),
            graph: DependencyGraph::new(),
            bindings: BindingTable::new(),
            declarations: Vec::new(),
            failed: Vec::new(),
        };
        proof {
            assert(r@.modules =~= Seq::<ModuleV>::empty());
            assert(r@.declarations =~= Seq::<(Seq<char>, DeclBindingV)>::empty());
            assert(r@.failed =~= Seq::<Seq<Seq<char>>>::empty());
        }
        r
    }

    fn position(&self, path: &ModulePath) -> (r: Option<usize>)
        ensures
            match r {
                Some(i) => module_at(self@.modules, path@, 0) == Some(i as int) && i < self.modules@.len(),
                None => module_at(self@.modules, path@, 0) is None,
            },
    {
        let mut i: usize = 0;
        while i < self.modules.len()
            invariant
                i <= self.modules@.len(),
                self@.modules == modules_v(self.modules@),
                module_at(self@.modules, path@, 0) == module_at(self@.modules, path@, i as int),
            decreases self.modules@.len() - i,
        {
            assert(self@.modules[i as int] == self.modules@[i as int]@);
            if self.modules[i].path.same(path) {
                return Some(i);
            }
            i = i + 1;
        }
        None
    }

    /// Registers a module and its declarations. A module with the same path is replaced. An
    /// unmangled name that another declaration has claimed is refused; then nothing else of the
    /// module is registered.
    pub fn register(&mut self, module: Module) -> (r: Result<(), CompilationError>)
        requires
            old(self).wf(),
        ensures
            final(self).wf(),
            match r {
                Err(e) => claimed(old(self)@.bindings, unmangled_names(module@.program), 0).1 == Some(e@)
                    && final(self)@ == (RegistryV {
                    bindings: claimed(old(self)@.bindings, unmangled_names(module@.program), 0).0,
                    ..old(self)@
                }) && final(self).deps() == old(self).deps(),
                Ok(_) => {
                    &&& claimed(old(self)@.bindings, unmangled_names(module@.program), 0).1 is None
                    &&& final(self)@ == (RegistryV {
                        modules: with_module(old(self)@.modules, module@),
                        bindings: prefixes_bound(
                            claimed(old(self)@.bindings, unmangled_names(module@.program), 0).0,
                            module@.path,
                            0,
                        ),
                        declarations: old(self)@.declarations + declared_by(module@),
                        failed: old(self)@.failed,
                    })
                    &&& final(self).deps().depends() == old(self).deps().depends()
                    &&& final(self).deps().kinds() == old(self).deps().kinds()
                    &&& final(self).deps().paths() == (if old(self).deps().paths().contains(module@.path) {
                        old(self).deps().paths()
                    } else {
                        old(self).deps().paths().push(module@.path)
                    })
                    &&& final(self).deps().files() == (if old(self).deps().paths().contains(module@.path) {
                        old(self).deps().files()
                    } else {
                        old(self).deps().files().push(module@.source_path)
                    })
                },
            },
    {
        let ghost r0 = *self;
        let names = collect_unmangled_names(&module.program);
        match self.claim_names(&names) {
            Ok(_) => {},
            Err(e) => return Err(e),
        }
        self.graph.add_node(ModuleNode::new(copy_path(&module.path), module.source_path.clone()));
        self.register_module_declarations(&module);
        self.register_module_binding(&module.path);
        let at = self.position(&module.path);
        let ghost before = self.modules@;
        let ghost mv = module@;
        proof {
            lemma_module_at(self@.modules, module@.path, 0);
            let ps = r0.deps().paths();
            let qs = self.graph.paths();
            assert(qs.contains(mv.path)) by {
                if !ps.contains(mv.path) {
                    assert(qs[ps.len() as int] == mv.path);
                }
            }
            assert forall|p: Seq<Seq<char>>| ps.contains(p) implies qs.contains(p) by {
                let j = choose|j: int| 0 <= j < ps.len() && ps[j] == p;
                assert(qs[j] == p);
            }
        }
        match at {
            Some(i) => {
                self.modules.set(i, module);
                proof {
                    assert(modules_v(self.modules@) =~= modules_v(before).update(i as int, mv));
                }
            },
            None => {
                self.modules.push(module);
                proof {
                    assert(modules_v(self.modules@) =~= modules_v(before).push(mv));
                }
            },
        }
        proof {
            let ms = r0@.modules;
            let ns = self@.modules;
            assert(modules_v(before) == ms);
            assert(ns == with_module(ms, mv));
            assert forall|i: int| 0 <= i < ns.len() implies self.deps().paths().contains(
                (#[trigger] ns[i]).path,
            ) by {
                if i < ms.len() {
                    assert(r0.deps().paths().contains(ms[i].path));
                    assert(ns[i].path == ms[i].path);
                }
            }
            assert forall|i: int, j: int| 0 <= i < ns.len() && 0 <= j < ns.len() && i != j implies module_paths(ns)[i]
                != module_paths(ns)[j] by {
                if i < ms.len() && j < ms.len() {
                    assert(module_paths(ms)[i] != module_paths(ms)[j]);
                }
                assert(module_paths(ns)[i] == ns[i].path && module_paths(ns)[j] == ns[j].path);
            }
        }
        Ok(())
    }

    fn claim_names(&mut self, names: &Vec<String>) -> (r: Result<(), CompilationError>)
        ensures
            final(self)@ == (RegistryV {
                bindings: claimed(old(self)@.bindings, text::texts(names@), 0).0,
                ..old(self)@
            }),
            final(self).deps() == old(self).deps(),
            match r {
                Ok(_) => claimed(old(self)@.bindings, text::texts(names@), 0).1 is None,
                Err(e) => claimed(old(self)@.bindings, text::texts(names@), 0).1 == Some(e@),
            },
    {
        let ghost b0 = self@.bindings;
        let ghost r0 = *self;
        let mut i: usize = 0;
        while i < names.len()
            invariant
                i <= names@.len(),
                claimed(b0, text::texts(names@), 0) == claimed(self@.bindings, text::texts(names@), i as int),
                self@ == (RegistryV { bindings: self@.bindings, ..r0@ }),
                self.deps() == r0.deps(),
                r0 == *old(self),
                b0 == r0@.bindings,
            decreases names@.len() - i,
        {
            assert(text::texts(names@)[i as int] == names@[i as int]@);
            match self.register_extern_name(names[i].as_str()) {
                Ok(_) => {},
                Err(e) => return Err(e),
            }
            i = i + 1;
        }
        Ok(())
    }

    /// Appends one declaration.
    fn register_decl(&mut self, name: String, kind: DeclKind, module: &ModulePath)
        ensures
            final(self)@ == (RegistryV {
                declarations: old(self)@.declarations.push(
                    (name@, DeclBindingV { module: module@, kind }),
                ),
                ..old(self)@
            }),
            final(self).deps() == old(self).deps(),
    {
        let ghost before = self.declarations@;
        let ghost n = name@;
        self.declarations.push((name, DeclBinding { module: copy_path(module), kind }));
        proof {
            assert(declarations_v(self.declarations@) =~= declarations_v(before).push(
                (n, DeclBindingV { module: module@, kind }),
            ));
        }
    }

    fn register_module_declarations(&mut self, module: &Module)
        ensures
            final(self)@ == (RegistryV {
                declarations: old(self)@.declarations + declared_by(module@),
                ..old(self)@
            }),
            final(self).deps() == old(self).deps(),
    {
        let ghost d0 = self@.declarations;
        let ghost r0 = *self;
        let p = &module.path;
        let ghost names0 = module@.program.functions.map_values(|x: FunctionV| x.name);
        let ghost part0 = declared_as(names0, module@.path, DeclKind::Function);
        let ghost d10 = self@.declarations;
        let mut i: usize = 0;
        while i < module.program.functions.len()
            invariant
                i <= module.program.functions@.len(),
                p@ == module@.path,
                names0 == module@.program.functions.map_values(|x: FunctionV| x.name),
                part0 == declared_as(names0, module@.path, DeclKind::Function),
                self@ == (RegistryV { declarations: self@.declarations, ..r0@ }),
                self.deps() == r0.deps(),
                self@.declarations =~= d10 + part0.take(i as int),
            decreases module.program.functions@.len() - i,
        {
            proof {
                assert(names0[i as int] == module.program.functions@[i as int].name@);
                assert(part0.take(i + 1) =~= part0.take(i as int).push(part0[i as int]));
            }
            self.register_decl(module.program.functions[i].name.clone(), DeclKind::Function, p);
            i = i + 1;
        }
        proof {
            assert(part0.take(part0.len() as int) =~= part0);
        }
        let ghost names1 = module@.program.globals.map_values(|x: GlobalDeclV| x.name);
        let ghost part1 = declared_as(names1, module@.path, DeclKind::Global);
        let ghost d11 = self@.declarations;
        let mut i: usize = 0;
        while i < module.program.globals.len()
            invariant
                i <= module.program.globals@.len(),
                p@ == module@.path,
                names1 == module@.program.globals.map_values(|x: GlobalDeclV| x.name),
                part1 == declared_as(names1, module@.path, DeclKind::Global),
                self@ == (RegistryV { declarations: self@.declarations, ..r0@ }),
                self.deps() == r0.deps(),
                self@.declarations =~= d11 + part1.take(i as int),
            decreases module.program.globals@.len() - i,
        {
            proof {
                assert(names1[i as int] == module.program.globals@[i as int].name@);
                assert(part1.take(i + 1) =~= part1.take(i as int).push(part1[i as int]));
            }
            self.register_decl(module.program.globals[i].name.clone(), DeclKind::Global, p);
            i = i + 1;
        }
        proof {
            assert(part1.take(part1.len() as int) =~= part1);
        }
        let ghost names2 = module@.program.structs.map_values(|x: StructDefinitionV| x.name);
        let ghost part2 = declared_as(names2, module@.path, DeclKind::Struct);
        let ghost d12 = self@.declarations;
        let mut i: usize = 0;
        while i < module.program.structs.len()
            invariant
                i <= module.program.structs@.len(),
                p@ == module@.path,
                names2 == module@.program.structs.map_values(|x: StructDefinitionV| x.name),
                part2 == declared_as(names2, module@.path, DeclKind::Struct),
                self@ == (RegistryV { declarations: self@.declarations, ..r0@ }),
                self.deps() == r0.deps(),
                self@.declarations =~= d12 + part2.take(i as int),
            decreases module.program.structs@.len() - i,
        {
            proof {
                assert(names2[i as int] == module.program.structs@[i as int].name@);
                assert(part2.take(i + 1) =~= part2.take(i as int).push(part2[i as int]));
            }
            self.register_decl(module.program.structs[i].name.clone(), DeclKind::Struct, p);
            i = i + 1;
        }
        proof {
            assert(part2.take(part2.len() as int) =~= part2);
        }
        let ghost names3 = module@.program.enums.map_values(|x: EnumDefinitionV| x.name);
        let ghost part3 = declared_as(names3, module@.path, DeclKind::Enum);
        let ghost d13 = self@.declarations;
        let mut i: usize = 0;
        while i < module.program.enums.len()
            invariant
                i <= module.program.enums@.len(),
                p@ == module@.path,
                names3 == module@.program.enums.map_values(|x: EnumDefinitionV| x.name),
                part3 == declared_as(names3, module@.path, DeclKind::Enum),
                self@ == (RegistryV { declarations: self@.declarations, ..r0@ }),
                self.deps() == r0.deps(),
                self@.declarations =~= d13 + part3.take(i as int),
            decreases module.program.enums@.len() - i,
        {
            proof {
                assert(names3[i as int] == module.program.enums@[i as int].name@);
                assert(part3.take(i + 1) =~= part3.take(i as int).push(part3[i as int]));
            }
            self.register_decl(module.program.enums[i].name.clone(), DeclKind::Enum, p);
            i = i + 1;
        }
        proof {
            assert(part3.take(part3.len() as int) =~= part3);
        }
        let ghost names4 = module@.program.traits.map_values(|x: TraitDefinitionV| x.name);
        let ghost part4 = declared_as(names4, module@.path, DeclKind::Trait);
        let ghost d14 = self@.declarations;
        let mut i: usize = 0;
        while i < module.program.traits.len()
            invariant
                i <= module.program.traits@.len(),
                p@ == module@.path,
                names4 == module@.program.traits.map_values(|x: TraitDefinitionV| x.name),
                part4 == declared_as(names4, module@.path, DeclKind::Trait),
                self@ == (RegistryV { declarations: self@.declarations, ..r0@ }),
                self.deps() == r0.deps(),
                self@.declarations =~= d14 + part4.take(i as int),
            decreases module.program.traits@.len() - i,
        {
            proof {
                assert(names4[i as int] == module.program.traits@[i as int].name@);
                assert(part4.take(i + 1) =~= part4.take(i as int).push(part4[i as int]));
            }
            self.register_decl(module.program.traits[i].name.clone(), DeclKind::Trait, p);
            i = i + 1;
        }
        proof {
            assert(part4.take(part4.len() as int) =~= part4);
        }
        let ghost names5 = module@.program.rulesets.map_values(|x: RuleSetV| x.name);
        let ghost part5 = declared_as(names5, module@.path, DeclKind::RuleSet);
        let ghost d15 = self@.declarations;
        let mut i: usize = 0;
        while i < module.program.rulesets.len()
            invariant
                i <= module.program.rulesets@.len(),
                p@ == module@.path,
                names5 == module@.program.rulesets.map_values(|x: RuleSetV| x.name),
                part5 == declared_as(names5, module@.path, DeclKind::RuleSet),
                self@ == (RegistryV { declarations: self@.declarations, ..r0@ }),
                self.deps() == r0.deps(),
                self@.declarations =~= d15 + part5.take(i as int),
            decreases module.program.rulesets@.len() - i,
        {
            proof {
                assert(names5[i as int] == module.program.rulesets@[i as int].name@);
                assert(part5.take(i + 1) =~= part5.take(i as int).push(part5[i as int]));
            }
            self.register_decl(module.program.rulesets[i].name.clone(), DeclKind::RuleSet, p);
            i = i + 1;
        }
        proof {
            assert(part5.take(part5.len() as int) =~= part5);
        }
        proof {
            assert(self@.declarations =~= d0 + declared_by(module@));
        }
    }

    /// Binds the names of a module and of the packages it is in. A name that stands for something
    /// else ends it.
    fn register_module_binding(&mut self, path: &ModulePath)
        ensures
            final(self)@ == (RegistryV {
                bindings: prefixes_bound(old(self)@.bindings, path@, 0),
                ..old(self)@
            }),
            final(self).deps() == old(self).deps(),
    {
        let ghost b0 = self@.bindings;
        let ghost r0 = *self;
        let mut acc = ModulePath::new();
        let mut i: usize = 0;
        proof {
            assert(path@.take(0) =~= Seq::<Seq<char>>::empty());
        }
        while i < path.0.len()
            invariant
                i <= path.0@.len(),
                acc@ == path@.take(i as int),
                prefixes_bound(b0, path@, 0) == prefixes_bound(self@.bindings, path@, i as int),
                self@ == (RegistryV { bindings: self@.bindings, ..r0@ }),
                self.deps() == r0.deps(),
                r0 == *old(self),
                b0 == r0@.bindings,
            decreases path.0@.len() - i,
        {
            acc.push(path.0[i].clone());
            proof {
                assert(acc@ =~= path@.take(i + 1));
            }
            match self.bindings.insert(acc.to_string(), NameBinding::Module(copy_path(&acc))) {
                Ok(_) => {},
                Err(_) => {
                    return ;
                },
            }
            i = i + 1;
        }
    }

    /// What a name stands for.
    pub fn lookup_binding(&self, name: &str) -> (r: Option<&NameBinding>)
        ensures
            match r {
                Some(b) => get_in(self@.bindings, name@) == Some(b@),
                None => get_in(self@.bindings, name@) is None,
            },
    {
        self.bindings.get(name)
    }

    /// The module that declares a name, seen from the current module.
    pub fn find_module_for_declaration(&self, name: &str, current_module: &ModulePath) -> (r: Option<ModulePath>)
        ensures
            match r {
                Some(p) => declaring_module(self@.declarations, name@, current_module@) == Some(p@),
                None => declaring_module(self@.declarations, name@, current_module@) is None,
            },
    {
        match self.find_decl_kind(name, current_module) {
            Some(_) => {
                return Some(copy_path(current_module));
            },
            None => {},
        }
        let mut i: usize = 0;
        while i < self.declarations.len()
            invariant
                i <= self.declarations@.len(),
                self@.declarations == declarations_v(self.declarations@),
                first_declaration(self@.declarations, name@, 0) == first_declaration(
                    self@.declarations,
                    name@,
                    i as int,
                ),
                declaration_in(self@.declarations, name@, current_module@, 0) is None,
            decreases self.declarations@.len() - i,
        {
            assert(self@.declarations[i as int] == (
                self.declarations@[i as int].0@,
                self.declarations@[i as int].1@,
            ));
            if text::text_eq(self.declarations[i].0.as_str(), name) {
                return Some(copy_path(&self.declarations[i].1.module));
            }
            i = i + 1;
        }
        None
    }

    /// Refuses an unmangled name that is taken.
    pub fn check_extern_name(&self, name: &str) -> (r: Result<(), CompilationError>)
        ensures
            match r {
                Ok(_) => !self@.bindings.contains_key(extern_key(name@)),
                Err(e) => self@.bindings.contains_key(extern_key(name@)) && e@ == extern_taken(name@),
            },
    {
        let key = "extern.".to_owned().concat(name);
        if self.bindings.contains(key.as_str()) {
            Err(
                CompilationError::DuplicateSymbol {
                    name: name.to_owned(),
                    module: "extern (global namespace)".to_owned(),
                },
            )
        } else {
            Ok(())
        }
    }

    /// Claims an unmangled name, unless it is taken.
    pub fn register_extern_name(&mut self, name: &str) -> (r: Result<(), CompilationError>)
        ensures
            final(self).deps() == old(self).deps(),
            match r {
                Ok(_) => !old(self)@.bindings.contains_key(extern_key(name@)) && final(self)@
                    == (RegistryV {
                    bindings: old(self)@.bindings.insert(extern_key(name@), NameBindingV::Extern),
                    ..old(self)@
                }),
                Err(e) => old(self)@.bindings.contains_key(extern_key(name@)) && e@ == extern_taken(name@)
                    && final(self)@ == old(self)@,
            },
    {
        match self.check_extern_name(name) {
            Ok(_) => {},
            Err(e) => return Err(e),
        }
        let key = "extern.".to_owned().concat(name);
        self.bindings.insert(key, NameBinding::Extern)
    }

    /// What a module declares a name as.
    pub fn find_decl_kind(&self, name: &str, module: &ModulePath) -> (r: Option<DeclKind>)
        ensures
            r == match declaration_in(self@.declarations, name@, module@, 0) {
                Some(d) => Some(d.kind),
                None => None::<DeclKind>,
            },
    {
        let mut i: usize = 0;
        while i < self.declarations.len()
            invariant
                i <= self.declarations@.len(),
                self@.declarations == declarations_v(self.declarations@),
                declaration_in(self@.declarations, name@, module@, 0) == declaration_in(
                    self@.declarations,
                    name@,
                    module@,
                    i as int,
                ),
            decreases self.declarations@.len() - i,
        {
            assert(self@.declarations[i as int] == (
                self.declarations@[i as int].0@,
                self.declarations@[i as int].1@,
            ));
            if text::text_eq(self.declarations[i].0.as_str(), name) && self.declarations[i].1.module.same(
                module,
            ) {
                return Some(self.declarations[i].1.kind);
            }
            i = i + 1;
        }
        None
    }

    /// Resolves a name into a module and a base name. `a.b.c` is `c` of the module `a.b`, where
    /// that is loaded; any other name belongs to the module that declares it.
    pub fn resolve_qualified_name(&self, name: &str, current_module: &ModulePath) -> (r: Option<
        (ModulePath, String),
    >)
        ensures
            match r {
                Some((p, n)) => resolved_name(self@, name@, current_module@) == Some((p@, n@)),
                None => resolved_name(self@, name@, current_module@) is None,
            },
    {
        let parts = text::split(name, '.');
        let n: usize = parts.len();
        if n > 1 {
            let path = ModulePath(text::copy_texts(&parts, n - 1));
            proof {
                assert(text::texts(parts@).take(n - 1) =~= text::texts(parts@).drop_last());
            }
            if self.contains(&path) {
                return Some((path, parts[n - 1].clone()));
            }
        }
        match self.find_module_for_declaration(name, current_module) {
            Some(m) => Some((m, name.to_owned())),
            None => None,
        }
    }

    /// Adds the edges that the imports of the modules stand for. Refuses a circle of imports.
    pub fn finalize_graph(&mut self) -> (r: Result<(), CompilationError>)
        requires
            old(self).wf(),
        ensures
            final(self).wf(),
            final(self)@ == old(self)@,
            final(self).deps().paths() == old(self).deps().paths(),
            final(self).deps().files() == old(self).deps().files(),
            final(self).deps().depends() == all_import_edges(old(self)@.modules, 0, old(self).deps().depends()),
            final(self).deps().kinds() == all_import_kinds(old(self)@.modules, 0, old(self).deps().kinds()),
            r is Ok <==> !has_cycle(final(self).deps().depends()),
            match r {
                Ok(_) => true,
                Err(e) => e@ is CircularImport && describes_cycles(
                    final(self).deps().depends(),
                    e@->CircularImport_cycle,
                ),
            },
    {
        let ghost r0 = *self;
        let ghost ms = self@.modules;
        let mut i: usize = 0;
        while i < self.modules.len()
            invariant
                i <= self.modules@.len(),
                r0 == *old(self),
                r0.wf(),
                ms == r0@.modules,
                self@ == r0@,
                self@.modules == modules_v(self.modules@),
                self.graph.wf(),
                self.graph.paths() == r0.deps().paths(),
                self.graph.files() == r0.deps().files(),
                all_import_kinds(ms, 0, r0.deps().kinds()) == all_import_kinds(ms, i as int, self.graph.kinds()),
                all_import_edges(ms, 0, r0.deps().depends()) == all_import_edges(
                    ms,
                    i as int,
                    self.graph.depends(),
                ),
            decreases self.modules@.len() - i,
        {
            let ghost acc = self.graph.depends();
            let ghost kinds = self.graph.kinds();
            let mut j: usize = 0;
            proof {
                assert(ms[i as int] == self.modules@[i as int]@);
            }
            while j < self.modules[i].imports.len()
                invariant
                    i < self.modules@.len(),
                    j <= self.modules@[i as int].imports@.len(),
                    r0 == *old(self),
                    r0.wf(),
                    ms == r0@.modules,
                    self@ == r0@,
                    self@.modules == modules_v(self.modules@),
                    ms[i as int] == self.modules@[i as int]@,
                    self.graph.wf(),
                    self.graph.paths() == r0.deps().paths(),
                    self.graph.files() == r0.deps().files(),
                    import_kinds(ms, ms[i as int].path, ms[i as int].imports, 0, kinds) == import_kinds(
                        ms,
                        ms[i as int].path,
                        ms[i as int].imports,
                        j as int,
                        self.graph.kinds(),
                    ),
                    import_edges(ms, ms[i as int].path, ms[i as int].imports, 0, acc) == import_edges(
                        ms,
                        ms[i as int].path,
                        ms[i as int].imports,
                        j as int,
                        self.graph.depends(),
                    ),
                decreases self.modules@[i as int].imports@.len() - j,
            {
                let from = copy_path(&self.modules[i].path);
                let to = copy_path(&self.modules[i].imports[j].path);
                let kind = self.modules[i].imports[j].import_type;
                let known = self.contains(&to);
                proof {
                    assert(ms[i as int].imports[j as int].path == to@);
                    assert(ms[i as int].imports[j as int].import_type == kind);
                    lemma_module_at(ms, to@, 0);
                    assert(r0.deps().paths().contains(ms[i as int].path));
                }
                if known {
                    proof {
                        let k = module_at(ms, to@, 0)->0;
                        assert(r0.deps().paths().contains(ms[k].path));
                    }
                    self.graph.add_edge(from, to, kind);
                }
                j = j + 1;
            }
            i = i + 1;
        }
        let cycles = self.graph.detect_cycles();
        if cycles.len() == 0 {
            return Ok(());
        }
        let mut shown: Vec<String> = Vec::new();
        let ghost cs = cycles@.map_values(|c: Vec<ModulePath>| paths_v(c@));
        let mut k: usize = 0;
        while k < cycles.len()
            invariant
                k <= cycles@.len(),
                cs == cycles@.map_values(|c: Vec<ModulePath>| paths_v(c@)),
                text::texts(shown@) =~= cycle_texts(cs).take(k as int),
            decreases cycles@.len() - k,
        {
            let c = text::join(&texts_of(&cycles[k]), " -> ");
            proof {
                assert(cs[k as int] == paths_v(cycles@[k as int]@));
                assert(cycle_texts(cs).take(k + 1) =~= cycle_texts(cs).take(k as int).push(c@));
                assert(text::texts(shown@.push(c)) =~= text::texts(shown@).push(c@));
            }
            shown.push(c);
            k = k + 1;
        }
        proof {
            assert(cycle_texts(cs).take(cycles@.len() as int) =~= cycle_texts(cs));
            assert(cs =~= loops_v(cycles@));
        }
        Err(CompilationError::CircularImport { cycle: text::join(&shown, "; ") })
    }

    /// The module with the given path.
    pub fn get(&self, path: &ModulePath) -> (r: Option<&Module>)
        ensures
            match r {
                Some(m) => module_at(self@.modules, path@, 0) is Some && m@ == self@.modules[module_at(
                    self@.modules,
                    path@,
                    0,
                )->0],
                None => module_at(self@.modules, path@, 0) is None,
            },
    {
        match self.position(path) {
            Some(i) => Some(&self.modules[i]),
            None => None,
        }
    }

    /// Whether a module with the given path is loaded.
    pub fn contains(&self, path: &ModulePath) -> (r: bool)
        ensures
            r == (module_at(self@.modules, path@, 0) is Some),
    {
        self.position(path).is_some()
    }

    /// The graph of dependencies.
    pub fn graph(&self) -> (r: &DependencyGraph)
        ensures
            *r == self.deps(),
    {
        &self.graph
    }

    /// Sorts the modules so that each comes behind all it depends on.
    pub fn topological_sort(&self) -> (r: Result<Vec<ModulePath>, CompilationError>)
        requires
            self.wf(),
        ensures
            r is Ok <==> !has_cycle(self.deps().depends()),
            match r {
                Ok(v) => {
                    &&& paths_v(v@).no_duplicates()
                    &&& forall|p: Seq<Seq<char>>|
                        #[trigger] paths_v(v@).contains(p) <==> self.deps().paths().contains(p)
                    &&& respects(self.deps().depends(), paths_v(v@))
                },
                Err(e) => exists|missing: Seq<Seq<Seq<char>>>| #[trigger] lists_stuck(
                    self.deps().paths(),
                    self.deps().depends(),
                    missing,
                ) && e@ == (ErrorV::CircularImport { cycle: text::joined(path_texts(missing), ", "@) }),
            },
    {
        self.graph.topological_sort()
    }

    /// All modules.
    pub fn all_modules(&self) -> (r: Vec<&Module>)
        ensures
            r@.map_values(|m: &Module| m@) == self@.modules,
    {
        let mut out: Vec<&Module> = Vec::new();
        let mut i: usize = 0;
        while i < self.modules.len()
            invariant
                i <= self.modules@.len(),
                self@.modules == modules_v(self.modules@),
                out@.map_values(|m: &Module| m@) =~= self@.modules.take(i as int),
            decreases self.modules@.len() - i,
        {
            let ghost o = out@;
            out.push(&self.modules[i]);
            proof {
                assert(out@.map_values(|m: &Module| m@) =~= o.map_values(|m: &Module| m@).push(
                    self.modules@[i as int]@,
                ));
            }
            i = i + 1;
        }
        proof {
            assert(self@.modules.take(self.modules@.len() as int) =~= self@.modules);
        }
        out
    }

    /// All modules, given away.
    pub fn into_modules(self) -> (r: Vec<Module>)
        ensures
            modules_v(r@) == self@.modules,
    {
        self.modules
    }

    /// The number of modules.
    pub fn module_count(&self) -> (r: usize)
        ensures
            r == self@.modules.len(),
    {
        self.modules.len()
    }

    /// Records that a module failed to load.
    pub fn mark_failed(&mut self, path: ModulePath)
        ensures
            final(self)@ == (RegistryV { failed: old(self)@.failed.push(path@), ..old(self)@ }),
            final(self).deps() == old(self).deps(),
    {
        let ghost before = self.failed@;
        let ghost p = path@;
        self.failed.push(path);
        proof {
            assert(paths_v(self.failed@) =~= paths_v(before).push(p));
        }
    }

    /// Whether a module failed to load.
    pub fn has_failed(&self, path: &ModulePath) -> (r: bool)
        ensures
            r == self@.failed.contains(path@),
    {
        let mut i: usize = 0;
        while i < self.failed.len()
            invariant
                i <= self.failed@.len(),
                self@.failed == paths_v(self.failed@),
                forall|j: int| 0 <= j < i ==> self@.failed[j] != path@,
            decreases self.failed@.len() - i,
        {
            if self.failed[i].same(path) {
                proof {
                    assert(self@.failed[i as int] == path@);
                }
                return true;
            }
            i = i + 1;
        }
        false
    }

    /// The C headers of all modules, each path once.
    pub fn collect_all_includes(&self) -> (r: Vec<Include>)
        ensures
            includes_v(r@) == all_headers(self@.modules, 0, Seq::empty()),
    {
        let mut out: Vec<Include> = Vec::new();
        let mut i: usize = 0;
        proof {
            assert(includes_v(out@) =~= Seq::<IncludeV>::empty());
        }
        while i < self.modules.len()
            invariant
                i <= self.modules@.len(),
                self@.modules == modules_v(self.modules@),
                all_headers(self@.modules, 0, Seq::empty()) == all_headers(
                    self@.modules,
                    i as int,
                    includes_v(out@),
                ),
            decreases self.modules@.len() - i,
        {
            let ghost acc = includes_v(out@);
            let xs = &self.modules[i].includes;
            let mut j: usize = 0;
            assert(self@.modules[i as int] == self.modules@[i as int]@);
            while j < xs.len()
                invariant
                    j <= xs@.len(),
                    headers_added(acc, includes_v(xs@), 0) == headers_added(
                        includes_v(out@),
                        includes_v(xs@),
                        j as int,
                    ),
                decreases xs@.len() - j,
            {
                assert(includes_v(xs@)[j as int] == xs@[j as int]@);
                if !lists_header(&out, xs[j].path.as_str()) {
                    let c = copy_include(&xs[j]);
                    proof {
                        assert(includes_v(out@.push(c)) =~= includes_v(out@).push(c@));
                    }
                    out.push(c);
                }
                j = j + 1;
            }
            i = i + 1;
        }
        out
    }
}

fn lists_header(xs: &Vec<Include>, path: &str) -> (r: bool)
    ensures
        r == has_header(includes_v(xs@), path@),
{
    let mut i: usize = 0;
    while i < xs.len()
        invariant
            i <= xs@.len(),
            forall|j: int| 0 <= j < i ==> (#[trigger] includes_v(xs@)[j]).path != path@,
        decreases xs@.len() - i,
    {
        assert(includes_v(xs@)[i as int] == xs@[i as int]@);
        if text::text_eq(xs[i].path.as_str(), path) {
            return true;
        }
        i = i + 1;
    }
    false
}

fn collect_unmangled_names(program: &Program) -> (r: Vec<String>)
    ensures
        text::texts(r@) == unmangled_names(program@),
{
    let mut out: Vec<String> = Vec::new();
    let ghost base0 = text::texts(out@);
    let mut i: usize = 0;
    proof {
        assert(program@.functions.take(0) =~= Seq::<FunctionV>::empty());
    }
    while i < program.functions.len()
        invariant
            i <= program.functions@.len(),
            text::texts(out@) =~= base0 + unmangled_functions(program@.functions.take(i as int)),
        decreases program.functions@.len() - i,
    {
        let ghost before = out@;
        proof {
            assert(program@.functions.take(i + 1).drop_last() =~= program@.functions.take(i as int));
            assert(program@.functions.take(i + 1).last() == program.functions@[i as int]@);
        }
        if program.functions[i].is_unmangled() {
            let name = program.functions[i].name.clone();
            proof {
                assert(text::texts(out@.push(name)) =~= text::texts(out@).push(name@));
            }
            out.push(name);
        }
        i = i + 1;
    }
    proof {
        assert(program@.functions.take(program@.functions.len() as int) =~= program@.functions);
    }
    let ghost base1 = text::texts(out@);
    let mut i: usize = 0;
    proof {
        assert(program@.globals.take(0) =~= Seq::<GlobalDeclV>::empty());
    }
    while i < program.globals.len()
        invariant
            i <= program.globals@.len(),
            text::texts(out@) =~= base1 + unmangled_globals(program@.globals.take(i as int)),
        decreases program.globals@.len() - i,
    {
        let ghost before = out@;
        proof {
            assert(program@.globals.take(i + 1).drop_last() =~= program@.globals.take(i as int));
            assert(program@.globals.take(i + 1).last() == program.globals@[i as int]@);
        }
        if program.globals[i].is_unmangled() {
            let name = program.globals[i].name.clone();
            proof {
                assert(text::texts(out@.push(name)) =~= text::texts(out@).push(name@));
            }
            out.push(name);
        }
        i = i + 1;
    }
    proof {
        assert(program@.globals.take(program@.globals.len() as int) =~= program@.globals);
    }
    let ghost base2 = text::texts(out@);
    let mut i: usize = 0;
    proof {
        assert(program@.structs.take(0) =~= Seq::<StructDefinitionV>::empty());
    }
    while i < program.structs.len()
        invariant
            i <= program.structs@.len(),
            text::texts(out@) =~= base2 + unmangled_structs(program@.structs.take(i as int)),
        decreases program.structs@.len() - i,
    {
        let ghost before = out@;
        proof {
            assert(program@.structs.take(i + 1).drop_last() =~= program@.structs.take(i as int));
            assert(program@.structs.take(i + 1).last() == program.structs@[i as int]@);
        }
        if program.structs[i].is_unmangled() {
            let name = program.structs[i].name.clone();
            proof {
                assert(text::texts(out@.push(name)) =~= text::texts(out@).push(name@));
            }
            out.push(name);
        }
        i = i + 1;
    }
    proof {
        assert(program@.structs.take(program@.structs.len() as int) =~= program@.structs);
    }
    let ghost base3 = text::texts(out@);
    let mut i: usize = 0;
    proof {
        assert(program@.enums.take(0) =~= Seq::<EnumDefinitionV>::empty());
    }
    while i < program.enums.len()
        invariant
            i <= program.enums@.len(),
            text::texts(out@) =~= base3 + unmangled_enums(program@.enums.take(i as int)),
        decreases program.enums@.len() - i,
    {
        let ghost before = out@;
        proof {
            assert(program@.enums.take(i + 1).drop_last() =~= program@.enums.take(i as int));
            assert(program@.enums.take(i + 1).last() == program.enums@[i as int]@);
        }
        if program.enums[i].is_unmangled() {
            let name = program.enums[i].name.clone();
            proof {
                assert(text::texts(out@.push(name)) =~= text::texts(out@).push(name@));
            }
            out.push(name);
        }
        i = i + 1;
    }
    proof {
        assert(program@.enums.take(program@.enums.len() as int) =~= program@.enums);
    }
    proof {
        assert(text::texts(out@) =~= unmangled_names(program@));
    }
    out
}

} // verus!
