//! The loading of modules. What is known of the file system is a value; where something is not
//! known yet, loading stops and says what it needs.
use crate::decl::ProgramV;
use crate::digraph::{has_cycle, respects};
use crate::error::{message_of, CompilationError, ErrorV};
use crate::grammar::{parse_tree, tree_of};
use crate::module::{copy_path, imports_v, path_text, paths_v, ImportType, ModuleImport, ModuleImportV,
    ModulePath};
use crate::paths::{candidates, collect_kit_files_in_dir_shallow, deep_modules, determine_module_path,
    file_module, join_path, module_file_candidates, path_in, paths_sorted, prelude_candidates, prelude_paths,
    shallow_modules, sort_paths, sources_v, strip_module_prefix, stripped, walk_kit_files};
use crate::registry::{all_import_edges, claimed, copy_imports, declared_by, describes_cycles, module_at,
    no_registry, prefixes_bound,
    unmangled_names, with_module, Module, ModuleRegistry, ModuleV, RegistryV};
use crate::text;
use crate::tree_decls::{file_of, FileV, ParsedFile};
use crate::tree_types::{bad, parse_error, viewed, Parser, SourceV};
use vstd::prelude::*;
use vstd::utf8::*;

verus! {

/// A file: its canonical path, and its text.
pub struct FileEntry {
    pub canonical: String,
    pub source: String,
}

/// What is known of the file system: files by path, of which some do not exist, and the files
/// below directories, by paths relative to them.
pub struct Snapshot {
    pub files: Vec<(String, Option<FileEntry>)>,
    pub dirs: Vec<(String, Vec<String>)>,
}

/// The contents of what is known of the file system.
pub struct SnapshotV {
    pub files: Seq<(Seq<char>, Option<(Seq<char>, Seq<char>)>)>,
    pub dirs: Seq<(Seq<char>, Seq<Seq<char>>)>,
}

/// The contents of a file entry.
pub open spec fn entry_v(e: Option<FileEntry>) -> Option<(Seq<char>, Seq<char>)> {
    match e {
        Some(x) => Some((x.canonical@, x.source@)),
        None => None,
    }
}

impl View for Snapshot {
    type V = SnapshotV;

    open spec fn view(&self) -> SnapshotV {
        SnapshotV {
            files: self.files@.map_values(|x: (String, Option<FileEntry>)| (x.0@, entry_v(x.1))),
            dirs: self.dirs@.map_values(|x: (String, Vec<String>)| (x.0@, text::texts(x.1@))),
        }
    }
}

/// Why loading stopped: a file or a directory is not known yet, or there is an error.
pub enum LoadStop {
    NeedFile(String),
    NeedDir(String),
    Failed(CompilationError),
}

/// The contents of why loading stopped.
pub enum StopV {
    NeedFile(Seq<char>),
    NeedDir(Seq<char>),
    Failed(ErrorV),
}

impl View for LoadStop {
    type V = StopV;

    open spec fn view(&self) -> StopV {
        match self {
            LoadStop::NeedFile(p) => StopV::NeedFile(p@),
            LoadStop::NeedDir(p) => StopV::NeedDir(p@),
            LoadStop::Failed(e) => StopV::Failed(e@),
        }
    }
}

/// What is known of a file, from position `i` on.
pub open spec fn file_at(fs: Seq<(Seq<char>, Option<(Seq<char>, Seq<char>)>)>, p: Seq<char>, i: int) -> Option<
    Option<(Seq<char>, Seq<char>)>,
>
    decreases fs.len() - i,
{
    if i < 0 || i >= fs.len() {
        None
    } else if fs[i].0 == p {
        Some(fs[i].1)
    } else {
        file_at(fs, p, i + 1)
    }
}

/// What is known of a directory, from position `i` on.
pub open spec fn dir_at(ds: Seq<(Seq<char>, Seq<Seq<char>>)>, p: Seq<char>, i: int) -> Option<Seq<Seq<char>>>
    decreases ds.len() - i,
{
    if i < 0 || i >= ds.len() {
        None
    } else if ds[i].0 == p {
        Some(ds[i].1)
    } else {
        dir_at(ds, p, i + 1)
    }
}

/// What the source of a file holds.
pub open spec fn parsed_file(file: Seq<char>, source: Seq<char>) -> Result<FileV, ErrorV> {
    if encode_utf8(source).len() >= usize::MAX {
        Err(bad("source file is too large"@))
    } else {
        match tree_of(file, source) {
            Ok(root) => file_of(SourceV { file, text: source }, root),
            Err(e) => Err(e),
        }
    }
}

/// Reads the source of a file.
pub fn parse_kit_file(file: &str, source: &str) -> (r: Result<ParsedFile, CompilationError>)
    ensures
        viewed(r) == parsed_file(file@, source@),
{
    let bytes = source.as_bytes();
    if bytes.len() == usize::MAX {
        return Err(parse_error("source file is too large"));
    }
    match parse_tree(file, source) {
        Ok(root) => {
            let parser = Parser::new().with_source(file.to_owned(), source.to_owned());
            parser.parse_file(&root)
        },
        Err(e) => Err(e),
    }
}

/// The first of the candidates from position `i` on that exists.
pub open spec fn located(s: SnapshotV, cands: Seq<Seq<char>>, i: int) -> Result<Option<Seq<char>>, StopV>
    decreases cands.len() - i,
{
    if i < 0 || i >= cands.len() {
        Ok(None)
    } else {
        match file_at(s.files, cands[i], 0) {
            None => Err(StopV::NeedFile(cands[i])),
            Some(None) => located(s, cands, i + 1),
            Some(Some(_)) => Ok(Some(cands[i])),
        }
    }
}

/// The file of a module.
pub open spec fn module_file(s: SnapshotV, dirs: Seq<(Seq<char>, Seq<Seq<char>>)>, path: Seq<Seq<char>>) -> Result<
    Option<Seq<char>>,
    StopV,
> {
    located(s, candidates(path, dirs, 0, Seq::empty()), 0)
}

/// The preludes from position `i` on that have a file, appended to `acc`.
pub open spec fn preludes_found(
    s: SnapshotV,
    dirs: Seq<(Seq<char>, Seq<Seq<char>>)>,
    ps: Seq<Seq<Seq<char>>>,
    i: int,
    acc: Seq<Seq<Seq<char>>>,
) -> Result<Seq<Seq<Seq<char>>>, StopV>
    decreases ps.len() - i,
{
    if i < 0 || i >= ps.len() {
        Ok(acc)
    } else {
        match module_file(s, dirs, ps[i]) {
            Err(e) => Err(e),
            Ok(Some(_)) => preludes_found(s, dirs, ps, i + 1, acc.push(ps[i])),
            Ok(None) => preludes_found(s, dirs, ps, i + 1, acc),
        }
    }
}

/// The preludes of a module. A prelude has none.
pub open spec fn preludes_of(s: SnapshotV, dirs: Seq<(Seq<char>, Seq<Seq<char>>)>, m: Seq<Seq<char>>) -> Result<
    Seq<Seq<Seq<char>>>,
    StopV,
> {
    if m.len() > 0 && m.last() == "prelude"@ {
        Ok(Seq::empty())
    } else {
        preludes_found(s, dirs, prelude_paths(m), 0, Seq::empty())
    }
}

/// The modules that an import with a wildcard stands for, in the source directories from
/// position `i` on, appended to `acc`.
pub open spec fn wildcard_from(
    s: SnapshotV,
    dirs: Seq<(Seq<char>, Seq<Seq<char>>)>,
    path: Seq<Seq<char>>,
    deep: bool,
    i: int,
    acc: Seq<Seq<Seq<char>>>,
) -> Result<Seq<Seq<Seq<char>>>, StopV>
    decreases dirs.len() - i,
{
    if i < 0 || i >= dirs.len() {
        Ok(acc)
    } else {
        match stripped(path, dirs[i].1) {
            None => wildcard_from(s, dirs, path, deep, i + 1, acc),
            Some(rest) => {
                let dir = path_in(dirs[i].0, text::joined(rest, "/"@));
                match dir_at(s.dirs, dir, 0) {
                    None => Err(StopV::NeedDir(dir)),
                    Some(files) => wildcard_from(
                        s,
                        dirs,
                        path,
                        deep,
                        i + 1,
                        if deep {
                            deep_modules(path, files, 0, acc)
                        } else {
                            shallow_modules(path, files, 0, acc)
                        },
                    ),
                }
            },
        }
    }
}

/// The modules that an import with a wildcard stands for, sorted.
pub open spec fn wildcard_modules(
    s: SnapshotV,
    dirs: Seq<(Seq<char>, Seq<Seq<char>>)>,
    path: Seq<Seq<char>>,
    deep: bool,
) -> Result<Seq<Seq<Seq<char>>>, StopV> {
    match wildcard_from(s, dirs, path, deep, 0, Seq::empty()) {
        Ok(ps) => Ok(paths_sorted(ps, ps.len() as int)),
        Err(e) => Err(e),
    }
}

/// Imports of single modules.
pub open spec fn single_imports(ps: Seq<Seq<Seq<char>>>) -> Seq<ModuleImportV> {
    ps.map_values(
        |p: Seq<Seq<char>>| ModuleImportV { path: p, import_type: ImportType::Single, span: None },
    )
}

/// The imports from position `i` on with their wildcards resolved, appended to `acc`.
pub open spec fn imports_resolved(
    s: SnapshotV,
    dirs: Seq<(Seq<char>, Seq<Seq<char>>)>,
    xs: Seq<ModuleImportV>,
    i: int,
    acc: Seq<ModuleImportV>,
) -> Result<Seq<ModuleImportV>, StopV>
    decreases xs.len() - i,
{
    if i < 0 || i >= xs.len() {
        Ok(acc)
    } else if xs[i].import_type is Single {
        imports_resolved(s, dirs, xs, i + 1, acc.push(xs[i]))
    } else {
        match wildcard_modules(s, dirs, xs[i].path, xs[i].import_type is DoubleWildcard) {
            Ok(ps) => imports_resolved(s, dirs, xs, i + 1, acc + single_imports(ps)),
            Err(e) => Err(e),
        }
    }
}

/// The registry with a module registered.
pub open spec fn registered(r: RegistryV, m: ModuleV) -> (RegistryV, Result<(), ErrorV>) {
    let c = claimed(r.bindings, unmangled_names(m.program), 0);
    match c.1 {
        Some(e) => (RegistryV { bindings: c.0, ..r }, Err(e)),
        None => (
            RegistryV {
                modules: with_module(r.modules, m),
                bindings: prefixes_bound(c.0, m.path, 0),
                declarations: r.declarations + declared_by(m),
                failed: r.failed,
            },
            Ok(()),
        ),
    }
}

/// The state of loading: the modules so far, and the canonical paths of the files that were
/// looked at.
pub struct LoadV {
    pub registry: RegistryV,
    pub seen: Seq<Seq<char>>,
}

/// The state before anything is loaded.
pub open spec fn nothing_loaded() -> LoadV {
    LoadV { registry: no_registry(), seen: Seq::empty() }
}

/// The lines for errors.
pub open spec fn error_lines(es: Seq<ErrorV>) -> Seq<Seq<char>> {
    es.map_values(|e: ErrorV| "  - "@ + message_of(e))
}

/// The error that errors of imports come to.
pub open spec fn errors_result(es: Seq<ErrorV>) -> Result<(), StopV> {
    if es.len() == 0 {
        Ok(())
    } else if es.len() == 1 {
        Err(StopV::Failed(es[0]))
    } else {
        Err(
            StopV::Failed(
                ErrorV::CompileError(
                    "Multiple errors loading modules:\n"@ + text::joined(error_lines(es), "\n"@),
                ),
            ),
        )
    }
}

/// The error for modules that import each other too deeply.
pub open spec fn imports_too_deep() -> StopV {
    StopV::Failed(ErrorV::CompileError("modules import each other too deeply"@))
}

/// The module of a parsed file.
pub open spec fn module_from(path: Seq<Seq<char>>, canonical: Seq<char>, f: FileV, imports: Seq<ModuleImportV>) -> ModuleV {
    ModuleV {
        path,
        source_path: canonical,
        imports,
        includes: f.includes,
        program: ProgramV { path: Some(path), ..f.program },
        is_c_module: false,
        mod_using: f.usings,
    }
}

/// A file loaded with all that it imports. A file that was looked at before is not loaded again.
pub open spec fn file_loaded(fuel: nat, s: SnapshotV, dirs: Seq<(Seq<char>, Seq<Seq<char>>)>, file: Seq<char>, l: LoadV) -> (
    LoadV,
    Result<(), StopV>,
)
    decreases fuel, 3int, 0int,
{
    match file_at(s.files, file, 0) {
        None => (l, Err(StopV::NeedFile(file))),
        Some(None) => (l, Err(StopV::Failed(ErrorV::ModuleNotFound { path: file }))),
        Some(Some((canonical, source))) => if l.seen.contains(canonical) {
            (l, Ok(()))
        } else {
            let l1 = LoadV { seen: l.seen.push(canonical), ..l };
            let m = file_module(file, dirs);
            match parsed_file(file, source) {
                Err(e) => (
                    LoadV { registry: RegistryV { failed: l1.registry.failed.push(m), ..l1.registry }, ..l1 },
                    Err(StopV::Failed(e)),
                ),
                Ok(f) => module_loaded(fuel, s, dirs, m, canonical, f, l1),
            }
        },
    }
}

/// A parsed module loaded: first its preludes, then itself, then its imports.
pub open spec fn module_loaded(
    fuel: nat,
    s: SnapshotV,
    dirs: Seq<(Seq<char>, Seq<Seq<char>>)>,
    m: Seq<Seq<char>>,
    canonical: Seq<char>,
    f: FileV,
    l: LoadV,
) -> (LoadV, Result<(), StopV>)
    decreases fuel, 2int, 0int,
{
    match preludes_of(s, dirs, m) {
        Err(e) => (l, Err(e)),
        Ok(ps) => match preludes_loaded(fuel, s, dirs, ps, 0, l) {
            (l1, Err(e)) => (l1, Err(e)),
            (l1, Ok(_)) => match imports_resolved(s, dirs, f.imports, 0, Seq::empty()) {
                Err(e) => (l1, Err(e)),
                Ok(imports) => match registered(l1.registry, module_from(m, canonical, f, imports)) {
                    (r, Err(e)) => (LoadV { registry: r, ..l1 }, Err(StopV::Failed(e))),
                    (r, Ok(_)) => match imports_loaded(
                        fuel,
                        s,
                        dirs,
                        imports,
                        0,
                        LoadV { registry: r, ..l1 },
                        Seq::empty(),
                    ) {
                        (l2, Err(e)) => (l2, Err(e)),
                        (l2, Ok(es)) => (l2, errors_result(es)),
                    },
                },
            },
        },
    }
}

/// The preludes from position `i` on loaded.
pub open spec fn preludes_loaded(
    fuel: nat,
    s: SnapshotV,
    dirs: Seq<(Seq<char>, Seq<Seq<char>>)>,
    ps: Seq<Seq<Seq<char>>>,
    i: int,
    l: LoadV,
) -> (LoadV, Result<(), StopV>)
    decreases fuel, 1int, ps.len() - i,
{
    if i < 0 || i >= ps.len() {
        (l, Ok(()))
    } else if module_at(l.registry.modules, ps[i], 0) is Some {
        preludes_loaded(fuel, s, dirs, ps, i + 1, l)
    } else {
        match module_file(s, dirs, ps[i]) {
            Err(e) => (l, Err(e)),
            Ok(None) => preludes_loaded(fuel, s, dirs, ps, i + 1, l),
            Ok(Some(file)) => if l.registry.failed.contains(ps[i]) {
                preludes_loaded(fuel, s, dirs, ps, i + 1, l)
            } else if fuel == 0 {
                (l, Err(imports_too_deep()))
            } else {
                match file_loaded((fuel - 1) as nat, s, dirs, file, l) {
                    (l1, Err(e)) => (l1, Err(e)),
                    (l1, Ok(_)) => preludes_loaded(fuel, s, dirs, ps, i + 1, l1),
                }
            },
        }
    }
}

/// The imports from position `i` on loaded: their errors, appended to `es`. An import that fails
/// does not stop the others.
pub open spec fn imports_loaded(
    fuel: nat,
    s: SnapshotV,
    dirs: Seq<(Seq<char>, Seq<Seq<char>>)>,
    xs: Seq<ModuleImportV>,
    i: int,
    l: LoadV,
    es: Seq<ErrorV>,
) -> (LoadV, Result<Seq<ErrorV>, StopV>)
    decreases fuel, 1int, xs.len() - i,
{
    if i < 0 || i >= xs.len() {
        (l, Ok(es))
    } else if module_at(l.registry.modules, xs[i].path, 0) is Some {
        imports_loaded(fuel, s, dirs, xs, i + 1, l, es)
    } else if l.registry.failed.contains(xs[i].path) {
        imports_loaded(
            fuel,
            s,
            dirs,
            xs,
            i + 1,
            l,
            es.push(
                ErrorV::ModuleNotFound { path: path_text(xs[i].path) + " (dependency failed to compile)"@ },
            ),
        )
    } else {
        match module_file(s, dirs, xs[i].path) {
            Err(e) => (l, Err(e)),
            Ok(None) => imports_loaded(
                fuel,
                s,
                dirs,
                xs,
                i + 1,
                l,
                es.push(ErrorV::ModuleNotFound { path: path_text(xs[i].path) }),
            ),
            Ok(Some(file)) => if fuel == 0 {
                (l, Err(imports_too_deep()))
            } else {
                match file_loaded((fuel - 1) as nat, s, dirs, file, l) {
                    (l1, Ok(_)) => imports_loaded(fuel, s, dirs, xs, i + 1, l1, es),
                    (l1, Err(StopV::Failed(e))) => imports_loaded(
                        fuel,
                        s,
                        dirs,
                        xs,
                        i + 1,
                        LoadV {
                            registry: RegistryV { failed: l1.registry.failed.push(xs[i].path), ..l1.registry },
                            ..l1
                        },
                        es.push(e),
                    ),
                    (l1, Err(e)) => (l1, Err(e)),
                }
            },
        }
    }
}

/// The files from position `i` on loaded.
pub open spec fn files_loaded(
    fuel: nat,
    s: SnapshotV,
    dirs: Seq<(Seq<char>, Seq<Seq<char>>)>,
    files: Seq<Seq<char>>,
    i: int,
    l: LoadV,
) -> (LoadV, Result<(), StopV>)
    decreases files.len() - i,
{
    if i < 0 || i >= files.len() {
        (l, Ok(()))
    } else {
        match file_loaded(fuel, s, dirs, files[i], l) {
            (l1, Err(e)) => (l1, Err(e)),
            (l1, Ok(_)) => files_loaded(fuel, s, dirs, files, i + 1, l1),
        }
    }
}

/// A file that was looked at is not loaded again: the registry stays.
pub proof fn law_loading_is_done_once(
    fuel: nat,
    s: SnapshotV,
    dirs: Seq<(Seq<char>, Seq<Seq<char>>)>,
    file: Seq<char>,
    l: LoadV,
)
    requires
        file_at(s.files, file, 0) matches Some(Some(e)) && l.seen.contains(e.0),
    ensures
        file_loaded(fuel, s, dirs, file, l) == (l, Ok::<(), StopV>(())),
{
}

/// How deep modules may import each other: as deep as the machine can count.
pub const IMPORT_DEPTH: usize = usize::MAX;

/// The contents of success, or of why loading stopped.
pub open spec fn stop_result(r: Result<(), LoadStop>) -> Result<(), StopV> {
    match r {
        Ok(_) => Ok(()),
        Err(e) => Err(e@),
    }
}

/// The contents of an optional path, or of why loading stopped.
pub open spec fn found_result(r: Result<Option<String>, LoadStop>) -> Result<Option<Seq<char>>, StopV> {
    match r {
        Ok(p) => Ok(crate::escape::opt_text(p)),
        Err(e) => Err(e@),
    }
}

/// The contents of module paths, or of why loading stopped.
pub open spec fn paths_result(r: Result<Vec<ModulePath>, LoadStop>) -> Result<Seq<Seq<Seq<char>>>, StopV> {
    match r {
        Ok(v) => Ok(paths_v(v@)),
        Err(e) => Err(e@),
    }
}

/// The contents of imports, or of why loading stopped.
pub open spec fn imports_result(r: Result<Vec<ModuleImport>, LoadStop>) -> Result<Seq<ModuleImportV>, StopV> {
    match r {
        Ok(v) => Ok(imports_v(v@)),
        Err(e) => Err(e@),
    }
}

/// The contents of a list of errors.
pub open spec fn errors_v(es: Seq<CompilationError>) -> Seq<ErrorV> {
    es.map_values(|e: CompilationError| e@)
}

/// The contents of errors, or of why loading stopped.
pub open spec fn failures_result(r: Result<Vec<CompilationError>, LoadStop>) -> Result<Seq<ErrorV>, StopV> {
    match r {
        Ok(v) => Ok(errors_v(v@)),
        Err(e) => Err(e@),
    }
}

impl Snapshot {
    /// Nothing is known.
    pub fn new() -> (r: Self)
        ensures
            r@.files.len() == 0,
            r@.dirs.len() == 0,
    {
        Snapshot { files: Vec::new(), dirs: Vec::new() }
    }

    fn find_file(&self, p: &str) -> (r: Option<&Option<FileEntry>>)
        ensures
            match r {
                Some(e) => file_at(self@.files, p@, 0) == Some(entry_v(*e)),
                None => file_at(self@.files, p@, 0) is None,
            },
    {
        let mut i: usize = 0;
        while i < self.files.len()
            invariant
                i <= self.files@.len(),
                file_at(self@.files, p@, 0) == file_at(self@.files, p@, i as int),
            decreases self.files@.len() - i,
        {
            assert(self@.files[i as int] == (self.files@[i as int].0@, entry_v(self.files@[i as int].1)));
            if text::text_eq(self.files[i].0.as_str(), p) {
                return Some(&self.files[i].1);
            }
            i = i + 1;
        }
        None
    }

    fn find_dir(&self, p: &str) -> (r: Option<&Vec<String>>)
        ensures
            match r {
                Some(v) => dir_at(self@.dirs, p@, 0) == Some(text::texts(v@)),
                None => dir_at(self@.dirs, p@, 0) is None,
            },
    {
        let mut i: usize = 0;
        while i < self.dirs.len()
            invariant
                i <= self.dirs@.len(),
                dir_at(self@.dirs, p@, 0) == dir_at(self@.dirs, p@, i as int),
            decreases self.dirs@.len() - i,
        {
            assert(self@.dirs[i as int] == (self.dirs@[i as int].0@, text::texts(self.dirs@[i as int].1@)));
            if text::text_eq(self.dirs[i].0.as_str(), p) {
                return Some(&self.dirs[i].1);
            }
            i = i + 1;
        }
        None
    }

    /// The file of a module.
    pub fn find_module_file(&self, path: &ModulePath, dirs: &Vec<(String, ModulePath)>) -> (r: Result<
        Option<String>,
        LoadStop,
    >)
        ensures
            found_result(r) == module_file(self@, sources_v(dirs@), path@),
    {
        let cands = module_file_candidates(path, dirs);
        let ghost cv = text::texts(cands@);
        let mut i: usize = 0;
        while i < cands.len()
            invariant
                i <= cands@.len(),
                cv == text::texts(cands@),
                cv == candidates(path@, sources_v(dirs@), 0, Seq::empty()),
                located(self@, cv, 0) == located(self@, cv, i as int),
            decreases cands@.len() - i,
        {
            assert(cv[i as int] == cands@[i as int]@);
            match self.find_file(cands[i].as_str()) {
                None => return Err(LoadStop::NeedFile(cands[i].clone())),
                Some(None) => {},
                Some(Some(_)) => return Ok(Some(cands[i].clone())),
            }
            i = i + 1;
        }
        Ok(None)
    }

    /// The preludes of a module.
    pub fn resolve_preludes(&self, m: &ModulePath, dirs: &Vec<(String, ModulePath)>) -> (r: Result<
        Vec<ModulePath>,
        LoadStop,
    >)
        ensures
            paths_result(r) == preludes_of(self@, sources_v(dirs@), m@),
    {
        let mut out: Vec<ModulePath> = Vec::new();
        proof {
            assert(paths_v(out@) =~= Seq::<Seq<Seq<char>>>::empty());
            assert(m@.len() == m.0@.len());
        }
        if m.0.len() > 0 {
            let k: usize = m.0.len() - 1;
            assert(m@.last() == m.0@[k as int]@);
            if text::text_eq(m.0[k].as_str(), "prelude") {
                return Ok(out);
            }
        }
        let ps = prelude_candidates(m);
        let ghost pv = paths_v(ps@);
        let mut i: usize = 0;
        while i < ps.len()
            invariant
                i <= ps@.len(),
                pv == paths_v(ps@),
                pv == prelude_paths(m@),
                !(m@.len() > 0 && m@.last() == "prelude"@),
                preludes_found(self@, sources_v(dirs@), pv, 0, Seq::empty()) == preludes_found(
                    self@,
                    sources_v(dirs@),
                    pv,
                    i as int,
                    paths_v(out@),
                ),
            decreases ps@.len() - i,
        {
            assert(pv[i as int] == ps@[i as int]@);
            match self.find_module_file(&ps[i], dirs) {
                Err(e) => return Err(e),
                Ok(Some(_)) => {
                    let p = copy_path(&ps[i]);
                    proof {
                        assert(paths_v(out@.push(p)) =~= paths_v(out@).push(p@));
                    }
                    out.push(p);
                },
                Ok(None) => {},
            }
            i = i + 1;
        }
        Ok(out)
    }

    /// The modules that an import with a wildcard stands for.
    pub fn resolve_wildcard_import(&self, path: &ModulePath, deep: bool, dirs: &Vec<(String, ModulePath)>) -> (r: Result<
        Vec<ModulePath>,
        LoadStop,
    >)
        ensures
            paths_result(r) == wildcard_modules(self@, sources_v(dirs@), path@, deep),
    {
        let ghost dv = sources_v(dirs@);
        let mut out: Vec<ModulePath> = Vec::new();
        let mut i: usize = 0;
        proof {
            assert(paths_v(out@) =~= Seq::<Seq<Seq<char>>>::empty());
        }
        while i < dirs.len()
            invariant
                i <= dirs@.len(),
                dv == sources_v(dirs@),
                wildcard_from(self@, dv, path@, deep, 0, Seq::empty()) == wildcard_from(
                    self@,
                    dv,
                    path@,
                    deep,
                    i as int,
                    paths_v(out@),
                ),
            decreases dirs@.len() - i,
        {
            assert(dv[i as int] == (dirs@[i as int].0@, dirs@[i as int].1@));
            match strip_module_prefix(path, &dirs[i].1) {
                None => {},
                Some(rest) => {
                    let dir = join_path(dirs[i].0.as_str(), rest.join("/").as_str());
                    match self.find_dir(dir.as_str()) {
                        None => return Err(LoadStop::NeedDir(dir)),
                        Some(files) => {
                            out = if deep {
                                walk_kit_files(path, files, out)
                            } else {
                                collect_kit_files_in_dir_shallow(path, files, out)
                            };
                        },
                    }
                },
            }
            i = i + 1;
        }
        proof {
            assert(paths_v(out@).len() == out@.len());
        }
        Ok(sort_paths(&out))
    }

    fn resolve_imports(&self, xs: &Vec<ModuleImport>, dirs: &Vec<(String, ModulePath)>) -> (r: Result<
        Vec<ModuleImport>,
        LoadStop,
    >)
        ensures
            imports_result(r) == imports_resolved(self@, sources_v(dirs@), imports_v(xs@), 0, Seq::empty()),
    {
        let ghost dv = sources_v(dirs@);
        let ghost xv = imports_v(xs@);
        let mut out: Vec<ModuleImport> = Vec::new();
        let mut i: usize = 0;
        proof {
            assert(imports_v(out@) =~= Seq::<ModuleImportV>::empty());
        }
        while i < xs.len()
            invariant
                i <= xs@.len(),
                dv == sources_v(dirs@),
                xv == imports_v(xs@),
                imports_resolved(self@, dv, xv, 0, Seq::empty()) == imports_resolved(
                    self@,
                    dv,
                    xv,
                    i as int,
                    imports_v(out@),
                ),
            decreases xs@.len() - i,
        {
            assert(xv[i as int] == xs@[i as int]@);
            let single = match xs[i].import_type {
                ImportType::Single => true,
                _ => false,
            };
            if single {
                let c = ModuleImport {
                    path: copy_path(&xs[i].path),
                    import_type: xs[i].import_type,
                    span: xs[i].span,
                };
                proof {
                    assert(imports_v(out@.push(c)) =~= imports_v(out@).push(c@));
                }
                out.push(c);
            } else {
                let deep = match xs[i].import_type {
                    ImportType::DoubleWildcard => true,
                    _ => false,
                };
                match self.resolve_wildcard_import(&xs[i].path, deep, dirs) {
                    Err(e) => return Err(e),
                    Ok(ps) => {
                        let mut more = singles(&ps);
                        let ghost o = out@;
                        let ghost m = more@;
                        out.append(&mut more);
                        proof {
                            assert(imports_v(out@) =~= imports_v(o) + imports_v(m));
                        }
                    },
                }
            }
            i = i + 1;
        }
        Ok(out)
    }
}

fn singles(ps: &Vec<ModulePath>) -> (r: Vec<ModuleImport>)
    ensures
        imports_v(r@) == single_imports(paths_v(ps@)),
{
    let ghost all = single_imports(paths_v(ps@));
    let mut out: Vec<ModuleImport> = Vec::new();
    let mut i: usize = 0;
    while i < ps.len()
        invariant
            i <= ps@.len(),
            all == single_imports(paths_v(ps@)),
            imports_v(out@) =~= all.take(i as int),
        decreases ps@.len() - i,
    {
        let m = ModuleImport::new(copy_path(&ps[i]), ImportType::Single);
        proof {
            assert(paths_v(ps@)[i as int] == ps@[i as int]@);
            assert(all.take(i + 1) =~= all.take(i as int).push(m@));
            assert(imports_v(out@.push(m)) =~= imports_v(out@).push(m@));
        }
        out.push(m);
        i = i + 1;
    }
    proof {
        assert(all.take(all.len() as int) =~= all);
    }
    out
}

fn combine_errors(es: &Vec<CompilationError>) -> (r: Result<(), LoadStop>)
    ensures
        stop_result(r) == errors_result(errors_v(es@)),
{
    let ghost ev = errors_v(es@);
    proof {
        assert(ev.len() == es@.len());
    }
    if es.len() == 0 {
        return Ok(());
    }
    assert(ev[0] == es@[0]@);
    if es.len() == 1 {
        return Err(LoadStop::Failed(crate::error::copy_error(&es[0])));
    }
    let ghost all = error_lines(ev);
    let mut lines: Vec<String> = Vec::new();
    let mut i: usize = 0;
    while i < es.len()
        invariant
            i <= es@.len(),
            ev == errors_v(es@),
            all == error_lines(ev),
            text::texts(lines@) =~= all.take(i as int),
        decreases es@.len() - i,
    {
        let s = "  - ".to_owned().concat(es[i].to_string().as_str());
        proof {
            assert(ev[i as int] == es@[i as int]@);
            assert(all.take(i + 1) =~= all.take(i as int).push(s@));
            assert(text::texts(lines@.push(s)) =~= text::texts(lines@).push(s@));
        }
        lines.push(s);
        i = i + 1;
    }
    proof {
        assert(all.take(all.len() as int) =~= all);
    }
    Err(
        LoadStop::Failed(
            CompilationError::CompileError(
                "Multiple errors loading modules:\n".to_owned().concat(text::join(&lines, "\n").as_str()),
            ),
        ),
    )
}

fn too_deep_stop() -> (r: LoadStop)
    ensures
        r@ == imports_too_deep(),
{
    LoadStop::Failed(CompilationError::CompileError("modules import each other too deeply".to_owned()))
}

/// The loading of modules: the modules so far, and the files that were looked at.
pub struct Loader<'a> {
    pub snapshot: &'a Snapshot,
    pub dirs: &'a Vec<(String, ModulePath)>,
    pub registry: ModuleRegistry,
    pub seen: Vec<String>,
}

impl<'a> View for Loader<'a> {
    type V = LoadV;

    open spec fn view(&self) -> LoadV {
        LoadV { registry: self.registry@, seen: text::texts(self.seen@) }
    }
}

impl<'a> Loader<'a> {
    /// A loader that has loaded nothing.
    pub fn new(snapshot: &'a Snapshot, dirs: &'a Vec<(String, ModulePath)>) -> (r: Self)
        ensures
            r.snapshot == snapshot,
            r.dirs == dirs,
            r.registry.wf(),
            r.registry.deps().depends().len() == 0,
            r@ == nothing_loaded(),
    {
        let r = Loader { snapshot, dirs, registry: ModuleRegistry::new(), seen: Vec::new() };
        proof {
            assert(r@.seen =~= Seq::<Seq<char>>::empty());
        }
        r
    }

    fn see(&mut self, canonical: String)
        ensures
            final(self)@ == (LoadV { seen: old(self)@.seen.push(canonical@), ..old(self)@ }),
            final(self).registry == old(self).registry,
            final(self).snapshot == old(self).snapshot,
            final(self).dirs == old(self).dirs,
    {
        let ghost before = self.seen@;
        let ghost c = canonical@;
        self.seen.push(canonical);
        proof {
            assert(text::texts(self.seen@) =~= text::texts(before).push(c));
        }
    }

    /// Loads a file with all that it imports.
    pub fn load_module_recursive(&mut self, file: &str, depth: usize) -> (r: Result<(), LoadStop>)
        requires
            old(self).registry.wf(),
        ensures
            final(self).registry.wf(),
            final(self).snapshot == old(self).snapshot,
            final(self).dirs == old(self).dirs,
            final(self).registry.deps().depends() == old(self).registry.deps().depends(),
            (final(self)@, stop_result(r)) == file_loaded(
                depth as nat,
                old(self).snapshot@,
                sources_v(old(self).dirs@),
                file@,
                old(self)@,
            ),
        decreases depth, 3int,
    {
        let (canonical, source) = match self.snapshot.find_file(file) {
            None => return Err(LoadStop::NeedFile(file.to_owned())),
            Some(None) => return Err(
                LoadStop::Failed(CompilationError::ModuleNotFound { path: file.to_owned() }),
            ),
            Some(Some(e)) => (e.canonical.clone(), e.source.clone()),
        };
        if text::holds_text(&self.seen, canonical.as_str()) {
            return Ok(());
        }
        self.see(canonical.clone());
        let m = determine_module_path(file, self.dirs);
        match parse_kit_file(file, source.as_str()) {
            Err(e) => {
                self.registry.mark_failed(m);
                Err(LoadStop::Failed(e))
            },
            Ok(f) => self.load_module(m, canonical, f, depth),
        }
    }

    fn load_module(&mut self, m: ModulePath, canonical: String, f: ParsedFile, depth: usize) -> (r: Result<(), LoadStop>)
        requires
            old(self).registry.wf(),
        ensures
            final(self).registry.wf(),
            final(self).snapshot == old(self).snapshot,
            final(self).dirs == old(self).dirs,
            final(self).registry.deps().depends() == old(self).registry.deps().depends(),
            (final(self)@, stop_result(r)) == module_loaded(
                depth as nat,
                old(self).snapshot@,
                sources_v(old(self).dirs@),
                m@,
                canonical@,
                f@,
                old(self)@,
            ),
        decreases depth, 2int,
    {
        let preludes = match self.snapshot.resolve_preludes(&m, self.dirs) {
            Err(e) => return Err(e),
            Ok(v) => v,
        };
        match self.load_preludes(&preludes, depth) {
            Err(e) => return Err(e),
            Ok(_) => {},
        }
        let imports = match self.snapshot.resolve_imports(&f.imports, self.dirs) {
            Err(e) => return Err(e),
            Ok(v) => v,
        };
        let mut program = f.program;
        program.path = Some(copy_path(&m));
        let module = Module {
            path: m,
            source_path: canonical,
            imports: copy_imports(&imports),
            includes: f.includes,
            program,
            is_c_module: false,
            mod_using: f.usings,
        };
        match self.registry.register(module) {
            Err(e) => return Err(LoadStop::Failed(e)),
            Ok(_) => {},
        }
        match self.load_imports(&imports, depth) {
            Err(e) => Err(e),
            Ok(es) => combine_errors(&es),
        }
    }

    fn load_preludes(&mut self, ps: &Vec<ModulePath>, depth: usize) -> (r: Result<(), LoadStop>)
        requires
            old(self).registry.wf(),
        ensures
            final(self).registry.wf(),
            final(self).snapshot == old(self).snapshot,
            final(self).dirs == old(self).dirs,
            final(self).registry.deps().depends() == old(self).registry.deps().depends(),
            (final(self)@, stop_result(r)) == preludes_loaded(
                depth as nat,
                old(self).snapshot@,
                sources_v(old(self).dirs@),
                paths_v(ps@),
                0,
                old(self)@,
            ),
        decreases depth, 1int,
    {
        let ghost s = self.snapshot@;
        let ghost dv = sources_v(self.dirs@);
        let ghost pv = paths_v(ps@);
        let ghost l0 = self@;
        let mut i: usize = 0;
        while i < ps.len()
            invariant
                i <= ps@.len(),
                self.registry.wf(),
                self.snapshot == old(self).snapshot,
                self.dirs == old(self).dirs,
                self.registry.deps().depends() == old(self).registry.deps().depends(),
                s == self.snapshot@,
                dv == sources_v(self.dirs@),
                pv == paths_v(ps@),
                l0 == old(self)@,
                preludes_loaded(depth as nat, s, dv, pv, 0, l0) == preludes_loaded(
                    depth as nat,
                    s,
                    dv,
                    pv,
                    i as int,
                    self@,
                ),
            decreases ps@.len() - i,
        {
            assert(pv[i as int] == ps@[i as int]@);
            if !self.registry.contains(&ps[i]) {
                match self.snapshot.find_module_file(&ps[i], self.dirs) {
                    Err(e) => return Err(e),
                    Ok(None) => {},
                    Ok(Some(file)) => {
                        if !self.registry.has_failed(&ps[i]) {
                            if depth == 0 {
                                return Err(too_deep_stop());
                            }
                            match self.load_module_recursive(file.as_str(), depth - 1) {
                                Err(e) => return Err(e),
                                Ok(_) => {},
                            }
                        }
                    },
                }
            }
            i = i + 1;
        }
        Ok(())
    }

    fn load_imports(&mut self, xs: &Vec<ModuleImport>, depth: usize) -> (r: Result<Vec<CompilationError>, LoadStop>)
        requires
            old(self).registry.wf(),
        ensures
            final(self).registry.wf(),
            final(self).snapshot == old(self).snapshot,
            final(self).dirs == old(self).dirs,
            final(self).registry.deps().depends() == old(self).registry.deps().depends(),
            (final(self)@, failures_result(r)) == imports_loaded(
                depth as nat,
                old(self).snapshot@,
                sources_v(old(self).dirs@),
                imports_v(xs@),
                0,
                old(self)@,
                Seq::empty(),
            ),
        decreases depth, 1int,
    {
        let ghost s = self.snapshot@;
        let ghost dv = sources_v(self.dirs@);
        let ghost xv = imports_v(xs@);
        let ghost l0 = self@;
        let mut es: Vec<CompilationError> = Vec::new();
        let mut i: usize = 0;
        proof {
            assert(errors_v(es@) =~= Seq::<ErrorV>::empty());
        }
        while i < xs.len()
            invariant
                i <= xs@.len(),
                self.registry.wf(),
                self.snapshot == old(self).snapshot,
                self.dirs == old(self).dirs,
                self.registry.deps().depends() == old(self).registry.deps().depends(),
                s == self.snapshot@,
                dv == sources_v(self.dirs@),
                xv == imports_v(xs@),
                l0 == old(self)@,
                imports_loaded(depth as nat, s, dv, xv, 0, l0, Seq::empty()) == imports_loaded(
                    depth as nat,
                    s,
                    dv,
                    xv,
                    i as int,
                    self@,
                    errors_v(es@),
                ),
            decreases xs@.len() - i,
        {
            assert(xv[i as int] == xs@[i as int]@);
            if !self.registry.contains(&xs[i].path) {
                let failure: Option<CompilationError> = if self.registry.has_failed(&xs[i].path) {
                    Some(
                        CompilationError::ModuleNotFound {
                            path: xs[i].path.to_string().concat(" (dependency failed to compile)"),
                        },
                    )
                } else {
                    match self.snapshot.find_module_file(&xs[i].path, self.dirs) {
                        Err(e) => return Err(e),
                        Ok(None) => Some(CompilationError::ModuleNotFound { path: xs[i].path.to_string() }),
                        Ok(Some(file)) => {
                            if depth == 0 {
                                return Err(too_deep_stop());
                            }
                            match self.load_module_recursive(file.as_str(), depth - 1) {
                                Ok(_) => None,
                                Err(LoadStop::Failed(e)) => {
                                    self.registry.mark_failed(copy_path(&xs[i].path));
                                    Some(e)
                                },
                                Err(stop) => return Err(stop),
                            }
                        },
                    }
                };
                match failure {
                    Some(e) => {
                        proof {
                            assert(errors_v(es@.push(e)) =~= errors_v(es@).push(e@));
                        }
                        es.push(e);
                    },
                    None => {},
                }
            }
            i = i + 1;
        }
        Ok(es)
    }

    /// Loads files with all that they import, and sorts the modules so that each comes behind
    /// all it depends on.
    pub fn build_module_graph(&mut self, files: &Vec<String>) -> (r: Result<Vec<ModulePath>, LoadStop>)
        requires
            old(self).registry.wf(),
        ensures
            final(self).registry.wf(),
            final(self)@ == files_loaded(
                IMPORT_DEPTH as nat,
                old(self).snapshot@,
                sources_v(old(self).dirs@),
                text::texts(files@),
                0,
                old(self)@,
            ).0,
            match files_loaded(
                IMPORT_DEPTH as nat,
                old(self).snapshot@,
                sources_v(old(self).dirs@),
                text::texts(files@),
                0,
                old(self)@,
            ).1 {
                Err(e) => r is Err && r->Err_0@ == e,
                Ok(_) => {
                    let edges = all_import_edges(final(self)@.registry.modules, 0, old(self).registry.deps().depends());
                    &&& final(self).registry.deps().depends() == edges
                    &&& r is Ok <==> !has_cycle(edges)
                    &&& r is Err ==> r->Err_0@ is Failed && r->Err_0@->Failed_0 is CircularImport && describes_cycles(
                        edges,
                        r->Err_0@->Failed_0->CircularImport_cycle,
                    )
                },
            },
            match r {
                Ok(v) => {
                    &&& paths_v(v@).no_duplicates()
                    &&& respects(final(self).registry.deps().depends(), paths_v(v@))
                    &&& forall|p: Seq<Seq<char>>|
                        #[trigger] paths_v(v@).contains(p) <==> final(self).registry.deps().paths().contains(p)
                },
                Err(_) => true,
            },
    {
        let ghost s = self.snapshot@;
        let ghost dv = sources_v(self.dirs@);
        let ghost fv = text::texts(files@);
        let ghost l0 = self@;
        let mut i: usize = 0;
        while i < files.len()
            invariant
                i <= files@.len(),
                self.registry.wf(),
                self.snapshot == old(self).snapshot,
                self.dirs == old(self).dirs,
                self.registry.deps().depends() == old(self).registry.deps().depends(),
                s == self.snapshot@,
                dv == sources_v(self.dirs@),
                fv == text::texts(files@),
                l0 == old(self)@,
                files_loaded(IMPORT_DEPTH as nat, s, dv, fv, 0, l0) == files_loaded(
                    IMPORT_DEPTH as nat,
                    s,
                    dv,
                    fv,
                    i as int,
                    self@,
                ),
            decreases files@.len() - i,
        {
            assert(fv[i as int] == files@[i as int]@);
            match self.load_module_recursive(files[i].as_str(), IMPORT_DEPTH) {
                Err(e) => return Err(e),
                Ok(_) => {},
            }
            i = i + 1;
        }
        match self.registry.finalize_graph() {
            Err(e) => return Err(LoadStop::Failed(e)),
            Ok(_) => {},
        }
        match self.registry.topological_sort() {
            Err(e) => Err(LoadStop::Failed(e)),
            Ok(v) => Ok(v),
        }
    }
}

} // verus!
