//! The compiler as a whole: from loaded modules to C files.
use crate::compiler_detect::Toolchain;
use crate::ctypes::{CDeclarations, CDeclarationsV};
use crate::decl::{includes_v, Include, IncludeV, Program, ProgramV};
use crate::digraph::{has_cycle, respects};
use crate::emit_expr::{CodegenCtx, CtxV};
use crate::emit_module::{functions_are_emittable, functions_have_code, module_code, module_header,
    module_part};
use crate::engine::{name_pairs_v, no_env, EnvV, TypeInferencer};
use crate::error::{CompilationError, ErrorV};
use crate::ffi::{add_declarations, with_declarations};
use crate::infer_program::MAX_DEPTH;
use crate::loading::{files_loaded, nothing_loaded, IMPORT_DEPTH, LoadStop, Loader, Snapshot};
use crate::module::{copy_path, paths_v, ModulePath};
use crate::paths::{file_name, get_file_name, get_stem, join_path, name_start, parse_source_paths, path_in,
    source_paths_of, sources_v, stem_of, without_slashes};
use crate::pipeline::checked;
use crate::registry::{all_import_edges, describes_cycles, module_at, no_registry, Module, ModuleRegistry, ModuleV, RegistryV};
use crate::text;
use vstd::prelude::*;

verus! {

/// The directory of a path: nothing for a bare name, and none for a path without a name.
pub open spec fn parent_path(p: Seq<char>) -> Option<Seq<char>> {
    let q = without_slashes(p, p.len() as int);
    if q.len() == 0 {
        None
    } else {
        let k = name_start(q, q.len() as int);
        let d = without_slashes(q, k);
        if d.len() == 0 && k > 0 {
            Some("/"@)
        } else {
            Some(d)
        }
    }
}

/// The directory of a path.
pub fn get_parent(p: &str) -> (r: Option<String>)
    ensures
        crate::escape::opt_text(r) == parent_path(p@),
{
    let cs = text::chars_of(p);
    let mut n: usize = cs.len();
    while n > 0 && cs[n - 1] == '/'
        invariant
            n <= cs@.len(),
            cs@ == p@,
            without_slashes(p@, p@.len() as int) == without_slashes(p@, n as int),
        decreases n,
    {
        n = n - 1;
    }
    let ghost q = without_slashes(p@, p@.len() as int);
    proof {
        assert(q =~= p@.take(n as int));
    }
    if n == 0 {
        return None;
    }
    let mut k: usize = n;
    while k > 0 && cs[k - 1] != '/'
        invariant
            k <= n <= cs@.len(),
            cs@ == p@,
            q == p@.take(n as int),
            name_start(q, q.len() as int) == name_start(q, k as int),
        decreases k,
    {
        k = k - 1;
    }
    let mut d: usize = k;
    while d > 0 && cs[d - 1] == '/'
        invariant
            d <= k <= n <= cs@.len(),
            cs@ == p@,
            q == p@.take(n as int),
            without_slashes(q, k as int) == without_slashes(q, d as int),
        decreases d,
    {
        d = d - 1;
    }
    proof {
        assert(without_slashes(q, k as int) =~= q.take(d as int));
        assert(cs@.subrange(0, d as int) =~= q.take(d as int));
    }
    if d == 0 && k > 0 {
        Some("/".to_owned())
    } else {
        Some(text::string_of(&cs, 0, d))
    }
}

/// The directory in which the C files for an output are made.
pub open spec fn build_dir_of(output: Seq<char>) -> Seq<char> {
    path_in(
        match parent_path(output) {
            Some(d) => d,
            None => "."@,
        },
        match file_name(output) {
            Some(n) => stem_of(n) + "_modules"@,
            None => "kit_modules"@,
        },
    )
}

/// The source directories: those that the user names, or else `src`, and those of the standard
/// library.
pub open spec fn source_dirs(named: Seq<Seq<char>>, stdlib: Seq<(Seq<char>, Seq<Seq<char>>)>) -> Seq<
    (Seq<char>, Seq<Seq<char>>),
> {
    let own = source_paths_of(named, 0, Seq::empty());
    (if own.len() == 0 {
        seq![("src"@, Seq::<Seq<char>>::empty())]
    } else {
        own
    }) + stdlib
}

/// The C files of a module: their name without an extension, the header and the code.
pub struct ModuleFiles {
    pub name: String,
    pub header: String,
    pub code: String,
}

/// The contents of the C files of a module.
pub struct FilesV {
    pub name: Seq<char>,
    pub header: Seq<char>,
    pub code: Seq<char>,
}

impl View for ModuleFiles {
    type V = FilesV;

    open spec fn view(&self) -> FilesV {
        FilesV { name: self.name@, header: self.header@, code: self.code@ }
    }
}

/// The contents of a list of C files.
pub open spec fn files_v(xs: Seq<ModuleFiles>) -> Seq<FilesV> {
    xs.map_values(|x: ModuleFiles| x@)
}

/// The C files of one module.
pub open spec fn files_of_module(
    e: EnvV,
    r: RegistryV,
    floats: Seq<(Seq<char>, Seq<char>)>,
    m: ModuleV,
    p: ProgramV,
) -> FilesV {
    let c = CtxV { env: e, registry: r, module: m.path, floats };
    FilesV {
        name: text::joined(m.path, "_"@),
        header: module_header(c, module_part(e, m, p), m.imports),
        code: module_code(c, module_part(e, m, p), m.imports, m.includes),
    }
}

/// The C files of the modules from position `i` on, appended to `acc`. A path without a module is
/// passed over.
pub open spec fn files_of(
    e: EnvV,
    r: RegistryV,
    floats: Seq<(Seq<char>, Seq<char>)>,
    p: ProgramV,
    paths: Seq<Seq<Seq<char>>>,
    i: int,
    acc: Seq<FilesV>,
) -> Seq<FilesV>
    decreases paths.len() - i,
{
    if i < 0 || i >= paths.len() {
        acc
    } else {
        match module_at(r.modules, paths[i], 0) {
            Some(k) => files_of(
                e,
                r,
                floats,
                p,
                paths,
                i + 1,
                acc.push(files_of_module(e, r, floats, r.modules[k], p)),
            ),
            None => files_of(e, r, floats, p, paths, i + 1, acc),
        }
    }
}

/// The libraries with those that the headers from position `j` on link, each once.
pub open spec fn libs_from(libs: Seq<Seq<char>>, xs: Seq<IncludeV>, j: int) -> Seq<Seq<char>>
    decreases xs.len() - j,
{
    if j < 0 || j >= xs.len() {
        libs
    } else {
        match xs[j].linked_lib {
            Some(l) => if libs.contains(l) {
                libs_from(libs, xs, j + 1)
            } else {
                libs_from(libs.push(l), xs, j + 1)
            },
            None => libs_from(libs, xs, j + 1),
        }
    }
}

/// The libraries with those that the modules from position `i` on link, each once.
pub open spec fn all_libs(libs: Seq<Seq<char>>, ms: Seq<ModuleV>, i: int) -> Seq<Seq<char>>
    decreases ms.len() - i,
{
    if i < 0 || i >= ms.len() {
        libs
    } else {
        all_libs(libs_from(libs, ms[i].includes, 0), ms, i + 1)
    }
}

/// The contents of the declarations of headers.
pub open spec fn c_declarations_list_v(xs: Seq<CDeclarations>) -> Seq<CDeclarationsV> {
    xs.map_values(|x: CDeclarations| x@)
}

/// The engine with the declarations of C headers from position `i` on registered.
pub open spec fn headers_registered(e: EnvV, ds: Seq<CDeclarationsV>, i: int) -> EnvV
    decreases ds.len() - i,
{
    if i < 0 || i >= ds.len() {
        e
    } else {
        headers_registered(with_declarations(e, ds[i]), ds, i + 1)
    }
}

/// The error for a program with a statement that has no C code.
pub open spec fn not_emittable() -> ErrorV {
    ErrorV::CompileError("a `match` or `defer` statement has no C code"@)
}

/// The modules compiled: the engine after it, and the C files.
pub open spec fn compiled(
    e: EnvV,
    r: RegistryV,
    floats: Seq<(Seq<char>, Seq<char>)>,
    paths: Seq<Seq<Seq<char>>>,
    ds: Seq<CDeclarationsV>,
) -> (EnvV, Result<Seq<FilesV>, ErrorV>) {
    match checked(MAX_DEPTH as nat, headers_registered(e, ds, 0), r, paths) {
        (e1, Err(err)) => (e1, Err(err)),
        (e1, Ok(p)) => if functions_have_code(p.functions) {
            (e1, Ok(files_of(e1, r, floats, p, paths, 0, Seq::empty())))
        } else {
            (e1, Err(not_emittable()))
        },
    }
}

/// No library is linked twice.
pub proof fn law_libraries_are_linked_once(libs: Seq<Seq<char>>, ms: Seq<ModuleV>, i: int)
    requires
        libs.no_duplicates(),
    ensures
        all_libs(libs, ms, i).no_duplicates(),
    decreases ms.len() - i,
{
    if 0 <= i < ms.len() {
        lemma_libs_once(libs, ms[i].includes, 0);
        law_libraries_are_linked_once(libs_from(libs, ms[i].includes, 0), ms, i + 1);
    }
}

proof fn lemma_libs_once(libs: Seq<Seq<char>>, xs: Seq<IncludeV>, j: int)
    requires
        libs.no_duplicates(),
    ensures
        libs_from(libs, xs, j).no_duplicates(),
    decreases xs.len() - j,
{
    if 0 <= j < xs.len() {
        match xs[j].linked_lib {
            Some(l) => {
                if libs.contains(l) {
                    lemma_libs_once(libs, xs, j + 1);
                } else {
                    let more = libs.push(l);
                    assert forall|a: int, b: int| 0 <= a < b < more.len() implies more[a] != more[b] by {
                        if b == libs.len() {
                            assert(libs[a] == more[a]);
                            assert(libs.contains(libs[a]));
                        }
                    }
                    lemma_libs_once(more, xs, j + 1);
                }
            },
            None => {
                lemma_libs_once(libs, xs, j + 1);
            },
        }
    }
}

/// Which compiler is run: the one that the user names, or else the one that was found.
pub fn select_toolchain(named: Option<(Toolchain, String)>, found: Option<(Toolchain, String)>) -> (r: Result<
    (Toolchain, String),
    CompilationError,
>)
    ensures
        match r {
            Ok(t) => !(t.0 is Other) && (named == Some(t) || (named is None && found == Some(t))),
            Err(e) => match (if named is Some {
                named
            } else {
                found
            }) {
                Some(t) => t.0 is Other && e@ == ErrorV::UnsupportedToolchain(t.1@),
                None => e@ == ErrorV::ToolchainNotFound,
            },
        },
{
    let chosen = match named {
        Some(t) => Some(t),
        None => found,
    };
    match chosen {
        None => Err(CompilationError::ToolchainNotFound),
        Some(t) => match t.0 {
            Toolchain::Other => Err(CompilationError::UnsupportedToolchain(t.1)),
            _ => Ok(t),
        },
    }
}

/// The compiler: what it is to compile, and what it knows so far.
pub struct Compiler {
    pub files: Vec<String>,
    pub output: String,
    pub build_dir: String,
    pub libs: Vec<String>,
    pub source_paths: Vec<(String, ModulePath)>,
    pub inferencer: TypeInferencer,
    pub registry: ModuleRegistry,
    pub user_cflags: Vec<String>,
    pub user_lib_paths: Vec<String>,
    pub cc_override: Option<String>,
    pub floats: Vec<(String, String)>,
}

/// The contents of a list of C files, or of an error.
pub open spec fn files_result(r: Result<Vec<ModuleFiles>, CompilationError>) -> Result<Seq<FilesV>, ErrorV> {
    match r {
        Ok(v) => Ok(files_v(v@)),
        Err(e) => Err(e@),
    }
}

fn add_libs(libs: &mut Vec<String>, xs: &Vec<Include>)
    ensures
        text::texts(final(libs)@) == libs_from(text::texts(old(libs)@), includes_v(xs@), 0),
{
    let ghost l0 = libs@;
    let mut j: usize = 0;
    while j < xs.len()
        invariant
            j <= xs@.len(),
            l0 == old(libs)@,
            libs_from(text::texts(l0), includes_v(xs@), 0) == libs_from(text::texts(libs@), includes_v(xs@), j as int),
        decreases xs@.len() - j,
    {
        assert(includes_v(xs@)[j as int] == xs@[j as int]@);
        match &xs[j].linked_lib {
            Some(l) => {
                if !text::holds_text(libs, l.as_str()) {
                    let c = l.clone();
                    proof {
                        assert(text::texts(libs@.push(c)) =~= text::texts(libs@).push(c@));
                    }
                    libs.push(c);
                }
            },
            None => {},
        }
        j = j + 1;
    }
}

impl Compiler {
    /// A compiler for the given files. The standard library is in the directories of `stdlib`.
    pub fn new(
        files: Vec<String>,
        output: String,
        libs: Vec<String>,
        source_paths: &Vec<String>,
        user_cflags: Vec<String>,
        user_lib_paths: Vec<String>,
        cc_override: Option<String>,
        stdlib: Vec<(String, ModulePath)>,
    ) -> (r: Self)
        ensures
            r.files == files,
            r.output == output,
            r.build_dir@ == build_dir_of(output@),
            r.libs == libs,
            sources_v(r.source_paths@) == source_dirs(text::texts(source_paths@), sources_v(stdlib@)),
            r.inferencer@ == no_env(),
            r.registry.wf(),
            r.registry@ == no_registry(),
            r.user_cflags == user_cflags,
            r.user_lib_paths == user_lib_paths,
            r.cc_override == cc_override,
            r.floats@ == Seq::<(String, String)>::empty(),
    {
        let mut dirs = parse_source_paths(source_paths);
        proof {
            assert(sources_v(dirs@).len() == dirs@.len());
        }
        if dirs.len() == 0 {
            let own = ("src".to_owned(), ModulePath::new());
            dirs.push(own);
            proof {
                assert(sources_v(dirs@) =~= seq![("src"@, Seq::<Seq<char>>::empty())]);
            }
        }
        let ghost dv = dirs@;
        let ghost sv = stdlib@;
        let mut more = stdlib;
        dirs.append(&mut more);
        proof {
            assert(sources_v(dirs@) =~= sources_v(dv) + sources_v(sv));
        }
        let dir = match get_parent(output.as_str()) {
            Some(d) => d,
            None => ".".to_owned(),
        };
        let name = match get_file_name(output.as_str()) {
            Some(n) => get_stem(n.as_str()).concat("_modules"),
            None => "kit_modules".to_owned(),
        };
        let build_dir = join_path(dir.as_str(), name.as_str());
        Compiler {
            files,
            output,
            build_dir,
            libs,
            source_paths: dirs,
            inferencer: TypeInferencer::new(),
            registry: ModuleRegistry::new(),
            user_cflags,
            user_lib_paths,
            cc_override,
            floats: Vec::new(),
        }
    }

    /// Tells which floating-point numbers of the sources the machine does not hold exactly: the
    /// text of the literal and the decimal text of the value that stands for it.
    pub fn with_floats(self, floats: Vec<(String, String)>) -> (r: Self)
        ensures
            r == (Compiler { floats, ..self }),
    {
        let mut r = self;
        r.floats = floats;
        r
    }

    /// That the two compilers were set up alike: they differ at most in what they have loaded, checked
    /// and found to link.
    pub open spec fn same_settings(self, other: Compiler) -> bool {
        &&& self.files == other.files
        &&& self.output == other.output
        &&& self.build_dir == other.build_dir
        &&& self.source_paths == other.source_paths
        &&& self.user_cflags == other.user_cflags
        &&& self.user_lib_paths == other.user_lib_paths
        &&& self.cc_override == other.cc_override
        &&& self.floats == other.floats
    }

    /// Loads the files with all that they import, as far as the snapshot tells. On success the
    /// modules are known to the compiler, and the result is their order.
    pub fn load(&mut self, snapshot: &Snapshot) -> (r: Result<Vec<ModulePath>, LoadStop>)
        ensures
            final(self).inferencer == old(self).inferencer,
            final(self).same_settings(*old(self)),
            final(self).libs == old(self).libs,
            match files_loaded(
                IMPORT_DEPTH as nat,
                snapshot@,
                sources_v(old(self).source_paths@),
                text::texts(old(self).files@),
                0,
                nothing_loaded(),
            ) {
                (_, Err(stop)) => r is Err && r->Err_0@ == stop,
                (l, Ok(_)) => {
                    let edges = all_import_edges(l.registry.modules, 0, Seq::empty());
                    &&& r is Ok <==> !has_cycle(edges)
                    &&& r is Ok ==> {
                        let order = paths_v(r->Ok_0@);
                        &&& final(self).registry@ == l.registry
                        &&& final(self).registry.wf()
                        &&& order.no_duplicates()
                        &&& respects(edges, order)
                        &&& forall|p: Seq<Seq<char>>|
                            #[trigger] order.contains(p) <==> final(self).registry.deps().paths().contains(p)
                    }
                    &&& r is Err ==> r->Err_0@ is Failed && r->Err_0@->Failed_0 is CircularImport && describes_cycles(
                        edges,
                        r->Err_0@->Failed_0->CircularImport_cycle,
                    )
                },
            },
            r is Err ==> final(self).registry == old(self).registry,
    {
        let mut loader = Loader::new(snapshot, &self.source_paths);
        proof {
            assert(loader.registry.deps().depends() =~= Seq::empty());
        }
        match loader.build_module_graph(&self.files) {
            Ok(v) => {
                self.registry = loader.registry;
                Ok(v)
            },
            Err(e) => Err(e),
        }
    }

    /// Sets what type errors speak of: the first file, where its text could be read.
    pub fn set_error_source(&mut self, text: Option<String>)
        ensures
            final(self).inferencer@ == (match text {
                Some(t) => if old(self).files@.len() > 0 {
                    EnvV { file: old(self).files@[0]@, source: t@, ..old(self).inferencer@ }
                } else {
                    old(self).inferencer@
                },
                None => old(self).inferencer@,
            }),
            final(self).registry == old(self).registry,
            final(self).libs == old(self).libs,
            final(self).same_settings(*old(self)),
    {
        match text {
            Some(t) => {
                if self.files.len() > 0 {
                    self.inferencer.source_file = self.files[0].clone();
                    self.inferencer.source_text = t;
                }
            },
            None => {},
        }
    }

    /// Compiles the loaded modules, in the given order and with the declarations of the C headers
    /// that they name: their C files. A call that leaves out arguments gets the defaults of its
    /// parameters, and so do the calls inside those defaults, as often as the machine can count.
    pub fn compile(&mut self, sorted_paths: &Vec<ModulePath>, headers: Vec<CDeclarations>) -> (r: Result<
        Vec<ModuleFiles>,
        CompilationError,
    >)
        ensures
            (final(self).inferencer@, files_result(r)) == compiled(
                old(self).inferencer@,
                old(self).registry@,
                name_pairs_v(old(self).floats@),
                paths_v(sorted_paths@),
                c_declarations_list_v(headers@),
            ),
            final(self).registry == old(self).registry,
            final(self).same_settings(*old(self)),
            text::texts(final(self).libs@) == (if r is Ok {
                all_libs(text::texts(old(self).libs@), old(self).registry@.modules, 0)
            } else {
                text::texts(old(self).libs@)
            }),
    {
        self.register_headers(headers);
        let merged = match self.inferencer.check_modules(&self.registry, sorted_paths) {
            Err(e) => return Err(e),
            Ok(p) => p,
        };
        if !functions_are_emittable(&merged.functions) {
            return Err(
                CompilationError::CompileError("a `match` or `defer` statement has no C code".to_owned()),
            );
        }
        let files = self.generate_per_module_files(sorted_paths, &merged);
        self.link_module_libs();
        Ok(files)
    }

    fn register_headers(&mut self, headers: Vec<CDeclarations>)
        ensures
            final(self).inferencer@ == headers_registered(
                old(self).inferencer@,
                c_declarations_list_v(headers@),
                0,
            ),
            final(self).registry == old(self).registry,
            final(self).libs == old(self).libs,
            final(self).same_settings(*old(self)),
    {
        let ghost e0 = self.inferencer@;
        let ghost hv = c_declarations_list_v(headers@);
        let mut i: usize = 0;
        while i < headers.len()
            invariant
                i <= headers@.len(),
                hv == c_declarations_list_v(headers@),
                self.registry == old(self).registry,
                self.libs == old(self).libs,
                self.same_settings(*old(self)),
                headers_registered(e0, hv, 0) == headers_registered(self.inferencer@, hv, i as int),
            decreases headers@.len() - i,
        {
            assert(hv[i as int] == headers@[i as int]@);
            add_declarations(&headers[i], &mut self.inferencer);
            i = i + 1;
        }
    }

    /// The C files of the modules, in the given order.
    pub fn generate_per_module_files(&self, sorted_paths: &Vec<ModulePath>, merged: &Program) -> (r: Vec<ModuleFiles>)
        requires
            functions_have_code(merged@.functions),
        ensures
            files_v(r@) == files_of(
                self.inferencer@,
                self.registry@,
                name_pairs_v(self.floats@),
                merged@,
                paths_v(sorted_paths@),
                0,
                Seq::empty(),
            ),
    {
        let ghost pv = paths_v(sorted_paths@);
        let mut out: Vec<ModuleFiles> = Vec::new();
        let mut i: usize = 0;
        proof {
            assert(files_v(out@) =~= Seq::<FilesV>::empty());
        }
        while i < sorted_paths.len()
            invariant
                i <= sorted_paths@.len(),
                pv == paths_v(sorted_paths@),
                functions_have_code(merged@.functions),
                files_of(
                    self.inferencer@,
                    self.registry@,
                    name_pairs_v(self.floats@),
                    merged@,
                    pv,
                    0,
                    Seq::empty(),
                ) == files_of(
                    self.inferencer@,
                    self.registry@,
                    name_pairs_v(self.floats@),
                    merged@,
                    pv,
                    i as int,
                    files_v(out@),
                ),
            decreases sorted_paths@.len() - i,
        {
            assert(pv[i as int] == sorted_paths@[i as int]@);
            match self.registry.get(&sorted_paths[i]) {
                Some(m) => {
                    let ctx = CodegenCtx {
                        inferencer: &self.inferencer,
                        registry: &self.registry,
                        current_module: copy_path(&m.path),
                        floats: &self.floats,
                    };
                    let (header, code) = ctx.generate_module_files(m, merged);
                    let f = ModuleFiles { name: m.path.join("_"), header, code };
                    proof {
                        assert(files_v(out@.push(f)) =~= files_v(out@).push(f@));
                    }
                    out.push(f);
                },
                None => {},
            }
            i = i + 1;
        }
        out
    }

    /// Adds the libraries that the modules link.
    pub fn link_module_libs(&mut self)
        ensures
            text::texts(final(self).libs@) == all_libs(text::texts(old(self).libs@), old(self).registry@.modules, 0),
            final(self).registry == old(self).registry,
            final(self).inferencer == old(self).inferencer,
            final(self).same_settings(*old(self)),
    {
        let ms = self.registry.all_modules();
        let ghost mv = self.registry@.modules;
        let ghost l0 = text::texts(self.libs@);
        let mut libs = text::copy_texts(&self.libs, self.libs.len());
        proof {
            assert(text::texts(libs@) =~= l0);
        }
        let mut i: usize = 0;
        while i < ms.len()
            invariant
                i <= ms@.len(),
                mv == ms@.map_values(|m: &Module| m@),
                all_libs(l0, mv, 0) == all_libs(text::texts(libs@), mv, i as int),
            decreases ms@.len() - i,
        {
            assert(mv[i as int] == ms@[i as int]@);
            add_libs(&mut libs, &ms[i].includes);
            i = i + 1;
        }
        self.libs = libs;
    }
}

} // verus!
