//! What is handed to the C compiler, and what is written for each module.
use crate::text;
use crate::c_compiler::invocation;
use crate::compiler::{all_libs, files_of, libs_from, FilesV};
use crate::compiler_detect::{chosen_compiler, first_found, Toolchain};
use crate::decl::{IncludeV, ProgramV};
use crate::engine::EnvV;
use crate::paths::path_in;
use crate::preprocess::{header_places, places_in, with_macro, ConfigV, PlaceV};
use crate::registry::{module_at, ModuleV, RegistryV};
use vstd::prelude::*;

verus! {

/// The C compiler gets every C file and every flag, in order and first, and is told where to write.
pub proof fn law_every_file_is_compiled(
    toolchain: Toolchain,
    c_files: Seq<Seq<char>>,
    flags: Seq<Seq<char>>,
    build_dir: Seq<char>,
    output: Seq<char>,
    lib_dirs: Seq<Seq<char>>,
    libs: Seq<Seq<char>>,
)
    ensures
        ({
            let args = invocation(toolchain, c_files, flags, build_dir, output, lib_dirs, libs);
            let n: int = c_files.len() + flags.len() as int;
            &&& args.take(c_files.len() as int) == c_files
            &&& args.subrange(c_files.len() as int, n) == flags
            &&& !(toolchain is Msvc) ==> args.len() == n + 4 + lib_dirs.len() + libs.len() && args[n] == "-I"@ && args[n + 1]
                == build_dir && args[n + 2] == "-o"@ && args[n + 3] == output
            &&& toolchain is Msvc ==> args.len() == n + 3 + libs.len() && args[n + 2] == "/Fe"@ + output
        }),
{
    let args = invocation(toolchain, c_files, flags, build_dir, output, lib_dirs, libs);
    let n: int = c_files.len() + flags.len() as int;
    assert(args.take(c_files.len() as int) =~= c_files);
    assert(args.subrange(c_files.len() as int, n) =~= flags);
}

/// Every library is linked by its name, and every directory of libraries is searched.
pub proof fn law_every_library_is_passed(
    toolchain: Toolchain,
    c_files: Seq<Seq<char>>,
    flags: Seq<Seq<char>>,
    build_dir: Seq<char>,
    output: Seq<char>,
    lib_dirs: Seq<Seq<char>>,
    libs: Seq<Seq<char>>,
    i: int,
    j: int,
)
    requires
        0 <= i < libs.len(),
    ensures
        ({
            let args = invocation(toolchain, c_files, flags, build_dir, output, lib_dirs, libs);
            &&& !(toolchain is Msvc) ==> args.contains("-l"@ + libs[i])
            &&& toolchain is Msvc ==> args.contains(libs[i] + ".lib"@)
            &&& 0 <= j < lib_dirs.len() && !(toolchain is Msvc) ==> args.contains("-L"@ + lib_dirs[j])
        }),
{
    reveal_strlit("");
    let args = invocation(toolchain, c_files, flags, build_dir, output, lib_dirs, libs);
    let n: int = c_files.len() + flags.len() as int;
    if toolchain is Msvc {
        assert(args[n + 3 + i] == ""@ + libs[i] + ".lib"@);
        assert(""@ + libs[i] + ".lib"@ =~= libs[i] + ".lib"@);
    } else {
        assert(args[n + 4 + lib_dirs.len() + i] == "-l"@ + libs[i] + ""@);
        assert("-l"@ + libs[i] + ""@ =~= "-l"@ + libs[i]);
        if 0 <= j < lib_dirs.len() {
            assert(args[n + 4 + j] == "-L"@ + lib_dirs[j] + ""@);
            assert("-L"@ + lib_dirs[j] + ""@ =~= "-L"@ + lib_dirs[j]);
        }
    }
}

proof fn lemma_libs_from(libs: Seq<Seq<char>>, xs: Seq<IncludeV>, j: int, l: Seq<char>)
    requires
        0 <= j,
    ensures
        libs_from(libs, xs, j).contains(l) <==> libs.contains(l) || (exists|k: int|
            j <= k < xs.len() && (#[trigger] xs[k]).linked_lib == Some(l)),
    decreases xs.len() - j,
{
    if j < xs.len() {
        match xs[j].linked_lib {
            Some(x) => if libs.contains(x) {
                lemma_libs_from(libs, xs, j + 1, l);
            } else {
                lemma_libs_from(libs.push(x), xs, j + 1, l);
                assert(libs.push(x)[libs.len() as int] == x);
                assert(libs.push(x).contains(l) <==> libs.contains(l) || l == x) by {
                    if libs.contains(l) {
                        let k = choose|k: int| 0 <= k < libs.len() && libs[k] == l;
                        assert(libs.push(x)[k] == l);
                    }
                }
            },
            None => {
                lemma_libs_from(libs, xs, j + 1, l);
            },
        }
    }
}

/// A library is linked exactly where an inclusion of some module names it.
pub proof fn law_named_libraries_are_linked(libs: Seq<Seq<char>>, ms: Seq<ModuleV>, i: int, l: Seq<char>)
    requires
        0 <= i,
    ensures
        all_libs(libs, ms, i).contains(l) <==> libs.contains(l) || (exists|m: int, k: int|
            i <= m < ms.len() && 0 <= k < ms[m].includes.len() && (#[trigger] ms[m].includes[k]).linked_lib == Some(l)),
    decreases ms.len() - i,
{
    if i < ms.len() {
        lemma_libs_from(libs, ms[i].includes, 0, l);
        law_named_libraries_are_linked(libs_from(libs, ms[i].includes, 0), ms, i + 1, l);
    }
}

/// Each module that is compiled gets its files, in order, under the parts of its path.
pub proof fn law_every_module_has_files(
    e: EnvV,
    r: RegistryV,
    floats: Seq<(Seq<char>, Seq<char>)>,
    p: ProgramV,
    paths: Seq<Seq<Seq<char>>>,
    i: int,
    acc: Seq<FilesV>,
)
    requires
        0 <= i,
        forall|j: int| i <= j < paths.len() ==> module_at(r.modules, #[trigger] paths[j], 0) is Some,
        forall|j: int|
            i <= j < paths.len() ==> r.modules[module_at(r.modules, #[trigger] paths[j], 0)->0].path == paths[j],
    ensures
        ({
            let out = files_of(e, r, floats, p, paths, i, acc);
            &&& out.len() == acc.len() + if i < paths.len() {
                paths.len() - i
            } else {
                0
            }
            &&& forall|j: int| 0 <= j < acc.len() ==> #[trigger] out[j] == acc[j]
            &&& forall|j: int|
                acc.len() <= j < out.len() ==> (#[trigger] out[j]).name == text::joined(
                    paths[i + j - acc.len()],
                    "_"@,
                )
        }),
    decreases paths.len() - i,
{
    if i < paths.len() {
        let k = module_at(r.modules, paths[i], 0)->0;
        let acc1 = acc.push(crate::compiler::files_of_module(e, r, floats, r.modules[k], p));
        law_every_module_has_files(e, r, floats, p, paths, i + 1, acc1);
        let out = files_of(e, r, floats, p, paths, i, acc);
        assert(out[acc.len() as int] == acc1[acc.len() as int]);
        assert forall|j: int| 0 <= j < acc.len() implies #[trigger] out[j] == acc[j] by {
            assert(out[j] == acc1[j]);
        }
    }
}

/// The compiler that is asked for is taken; else that of the environment; else the first that is there.
pub proof fn law_compiler_is_chosen(named: Option<Seq<char>>, env_found: Option<Seq<char>>, found: Seq<Option<Seq<char>>>, k: int)
    ensures
        named is Some ==> chosen_compiler(named, env_found, found) == named,
        named is None && env_found is Some ==> chosen_compiler(named, env_found, found) == env_found,
        named is None && env_found is None && 0 <= k < found.len() && found[k] is Some && (forall|j: int|
            0 <= j < k ==> (#[trigger] found[j]) is None) ==> chosen_compiler(named, env_found, found) == found[k],
        chosen_compiler(named, env_found, found) is None <==> named is None && env_found is None && (forall|j: int|
            0 <= j < found.len() ==> (#[trigger] found[j]) is None),
{
    lemma_first_found(found, 0, k);
}

proof fn lemma_first_found(found: Seq<Option<Seq<char>>>, i: int, k: int)
    requires
        0 <= i <= found.len(),
    ensures
        first_found(found, i) is None <==> (forall|j: int| i <= j < found.len() ==> (#[trigger] found[j]) is None),
        i <= k < found.len() && found[k] is Some && (forall|j: int| i <= j < k ==> (#[trigger] found[j]) is None)
            ==> first_found(found, i) == found[k],
    decreases found.len() - i,
{
    if i < found.len() {
        lemma_first_found(found, i + 1, k);
    }
}

/// A macro that is defined has its value, and all others keep theirs; defining it again adds none.
pub proof fn law_defined_macro_has_its_value(xs: Seq<(Seq<char>, Seq<char>)>, name: Seq<char>, value: Seq<char>)
    ensures
        ({
            let out = with_macro(xs, name, value, 0);
            &&& out.contains((name, value))
            &&& forall|k: int| 0 <= k < xs.len() && (#[trigger] xs[k]).0 != name ==> out[k] == xs[k]
            &&& (exists|k: int| 0 <= k < xs.len() && (#[trigger] xs[k]).0 == name) ==> out.len() == xs.len()
            &&& (forall|k: int| 0 <= k < xs.len() ==> (#[trigger] xs[k]).0 != name) ==> out == xs.push((name, value))
        }),
{
    lemma_with_macro(xs, name, value, 0);
}

proof fn lemma_with_macro(xs: Seq<(Seq<char>, Seq<char>)>, name: Seq<char>, value: Seq<char>, i: int)
    requires
        0 <= i <= xs.len(),
        forall|k: int| 0 <= k < i ==> (#[trigger] xs[k]).0 != name,
    ensures
        ({
            let out = with_macro(xs, name, value, i);
            &&& out.contains((name, value))
            &&& out.len() >= xs.len()
            &&& forall|k: int| 0 <= k < xs.len() && (#[trigger] xs[k]).0 != name ==> out[k] == xs[k]
            &&& (exists|k: int| 0 <= k < xs.len() && (#[trigger] xs[k]).0 == name) ==> out.len() == xs.len()
            &&& (forall|k: int| 0 <= k < xs.len() ==> (#[trigger] xs[k]).0 != name) ==> out == xs.push((name, value))
        }),
    decreases xs.len() - i,
{
    let out = with_macro(xs, name, value, i);
    if i < xs.len() {
        if xs[i].0 == name {
            assert(out[i] == (name, value));
        } else {
            lemma_with_macro(xs, name, value, i + 1);
        }
    } else {
        assert(out[xs.len() as int] == (name, value));
    }
}

proof fn lemma_places(dirs: Seq<Seq<char>>, path: Seq<char>, i: int, acc: Seq<PlaceV>)
    requires
        0 <= i,
    ensures
        ({
            let out = places_in(dirs, path, i, acc);
            &&& out.len() == acc.len() + if i < dirs.len() {
                dirs.len() - i
            } else {
                0
            }
            &&& forall|j: int| 0 <= j < acc.len() ==> #[trigger] out[j] == acc[j]
            &&& forall|j: int|
                acc.len() <= j < out.len() ==> #[trigger] out[j] == PlaceV::File(path_in(dirs[i + j - acc.len()], path))
        }),
    decreases dirs.len() - i,
{
    if i < dirs.len() {
        let acc1 = acc.push(PlaceV::File(path_in(dirs[i], path)));
        lemma_places(dirs, path, i + 1, acc1);
        let out = places_in(dirs, path, i, acc);
        assert(out[acc.len() as int] == acc1[acc.len() as int]);
        assert forall|j: int| 0 <= j < acc.len() implies #[trigger] out[j] == acc[j] by {
            assert(out[j] == acc1[j]);
        }
    }
}

/// A header in quotes is looked for beside the file that names it, then in the user's directories, in
/// order; one in angle brackets only in the system's directories, behind the builtin ones.
pub proof fn law_places_of_a_header(c: ConfigV, dir: Seq<char>, path: Seq<char>, is_builtin: bool, i: int)
    ensures
        ({
            let own = header_places(c, dir, path, false, is_builtin);
            &&& own.len() == 1 + c.user_include_dirs.len()
            &&& own[0] == PlaceV::File(path_in(dir, path))
            &&& 0 <= i < c.user_include_dirs.len() ==> own[i + 1] == PlaceV::File(path_in(c.user_include_dirs[i], path))
        }),
        ({
            let sys = header_places(c, dir, path, true, is_builtin);
            let n: int = if c.use_builtin_headers && is_builtin {
                1
            } else {
                0
            };
            &&& sys.len() == n + c.system_include_dirs.len()
            &&& n == 1 ==> sys[0] is Builtin
            &&& 0 <= i < c.system_include_dirs.len() ==> sys[i + n] == PlaceV::File(
                path_in(c.system_include_dirs[i], path),
            )
        }),
{
    let dirs = seq![dir] + c.user_include_dirs;
    lemma_places(dirs, path, 0, Seq::empty());
    let acc = if c.use_builtin_headers && is_builtin {
        seq![PlaceV::Builtin]
    } else {
        Seq::empty()
    };
    lemma_places(c.system_include_dirs, path, 0, acc);
    assert(dirs[0] == dir);
    assert(0 <= i < c.user_include_dirs.len() ==> dirs[i + 1] == c.user_include_dirs[i]);
}

} // verus!
