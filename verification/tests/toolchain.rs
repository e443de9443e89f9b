use kitlang::c_compiler::{sdk_include_dirs, toolchain_by_version};
use kitlang::c_parse::FfiError;
use kitlang::compiler::{get_parent, select_toolchain, Compiler};
use kitlang::compiler_detect::{
    describe_compiler, detect_compiler, detect_target_triple, get_candidates, is_cross_compiling, parse_include_paths,
    CompilerCell, Toolchain,
};
use kitlang::error::CompilationError;
use kitlang::preprocess::{extract_preprocessed, module_header_candidates, HeaderPlace, PreprocessConfig, Target};

fn files(places: Vec<HeaderPlace>) -> Vec<String> {
    places
        .into_iter()
        .map(|p| match p {
            HeaderPlace::Builtin => "(builtin)".to_string(),
            HeaderPlace::File(f) => f,
        })
        .collect()
}

#[test]
fn include_directories_stand_between_the_marks() {
    let report = "ignored\n#include \"...\" search starts here:\n#include <...> search starts here:\n \
        /usr/lib/gcc/include\n /usr/include\n /System/Library (framework directory)\nEnd of search list.\n/after\n";
    assert_eq!(parse_include_paths(report), vec!["/usr/lib/gcc/include", "/usr/include"]);
    assert!(parse_include_paths("").is_empty());
}

#[test]
fn named_compiler_comes_first() {
    let found = vec![None, Some("/usr/bin/clang".to_string()), Some("/usr/bin/gcc".to_string())];
    assert_eq!(
        detect_compiler(Some("mycc".to_string()), Some("/env/cc".to_string()), &found),
        Some("mycc".to_string())
    );
    assert_eq!(detect_compiler(None, Some("/env/cc".to_string()), &found), Some("/env/cc".to_string()));
    assert_eq!(detect_compiler(None, None, &found), Some("/usr/bin/clang".to_string()));
    assert_eq!(detect_compiler(None, None, &vec![None]), None);
}

#[test]
fn candidates_depend_on_the_system() {
    assert_eq!(get_candidates(false), vec!["cc", "clang", "gcc"]);
    assert_eq!(get_candidates(true), vec!["cl.exe", "clang-cl.exe", "cc", "clang", "gcc"]);
}

#[test]
fn target_comes_from_the_name_or_the_report() {
    let report = Some(" x86_64-pc-linux-gnu\n".to_string());
    assert_eq!(
        detect_target_triple(Toolchain::Gcc, "/opt/bin/aarch64-linux-gnu-gcc", &report),
        Some("aarch64-linux-gnu".to_string())
    );
    assert_eq!(
        detect_target_triple(Toolchain::Clang, "/usr/bin/clang", &report),
        Some("x86_64-pc-linux-gnu".to_string())
    );
    assert_eq!(detect_target_triple(Toolchain::Gcc, "/usr/bin/gcc", &report), None);
    assert_eq!(
        detect_target_triple(Toolchain::Clang, "clang", &Some("unknown-unknown-unknown".to_string())),
        None
    );
}

#[test]
fn cross_compiling_is_another_machine_or_system() {
    let triple = Some("aarch64-linux-gnu".to_string());
    assert!(is_cross_compiling(&triple, "x86_64", false));
    assert!(!is_cross_compiling(&triple, "aarch64", false));
    assert!(is_cross_compiling(&Some("x86_64-pc-windows-gnu".to_string()), "x86_64", false));
    assert!(!is_cross_compiling(&None, "x86_64", false));
}

#[test]
fn first_detection_is_kept() {
    let gcc = describe_compiler(
        Toolchain::Gcc,
        "/usr/bin/gcc".to_string(),
        &Some("#include <...> search starts here:\n /usr/include\nEnd of search list.\n".to_string()),
        vec![("LIB".to_string(), "x".to_string())],
        &None,
        "x86_64",
        false,
    );
    let clang = describe_compiler(Toolchain::Clang, "clang".to_string(), &None, vec![], &None, "x86_64", false);
    let mut cell = CompilerCell::new();
    assert!(cell.get_compiler_info().is_none());
    let sdk = vec!["/sdk/usr/include".to_string()];
    assert!(cell.get_system_include_dirs(false, &sdk).is_empty());
    assert_eq!(cell.get_system_include_dirs(true, &sdk), sdk);
    cell.init_compiler_info(Some(gcc));
    cell.init_compiler_info(Some(clang));
    assert_eq!(cell.get_compiler_info().unwrap().compiler_path, "/usr/bin/gcc");
    assert_eq!(
        cell.get_system_include_dirs(false, &sdk),
        vec!["/usr/include", "/sdk/usr/include"]
    );
    let on_demand = vec![("INCLUDE".to_string(), "inc".to_string())];
    assert_eq!(cell.get_compiler_environment(Toolchain::Msvc, on_demand.clone()), on_demand);
    assert!(cell.get_compiler_environment(Toolchain::Gcc, on_demand).is_empty());
    assert_eq!(cell.get_or_detect_compiler_info(None).unwrap().toolchain, Toolchain::Gcc);
}

#[test]
fn captured_environment_is_preferred() {
    let captured = vec![("LIB".to_string(), "captured".to_string())];
    let cl = describe_compiler(Toolchain::Msvc, "cl.exe".to_string(), &None, captured.clone(), &None, "x86_64", true);
    let mut cell = CompilerCell::new();
    cell.init_compiler_info(Some(cl));
    let on_demand = vec![("LIB".to_string(), "later".to_string())];
    assert_eq!(cell.get_compiler_environment(Toolchain::Msvc, on_demand), captured);
}

#[test]
fn version_texts_tell_compilers_apart() {
    assert_eq!(toolchain_by_version("Ubuntu CLANG version 14", ""), Toolchain::Clang);
    assert_eq!(toolchain_by_version("gcc (GCC) 13.2", ""), Toolchain::Gcc);
    assert_eq!(toolchain_by_version("cc 12\nCopyright Free Software Foundation", ""), Toolchain::Gcc);
    assert_eq!(toolchain_by_version("", "Microsoft (R) C/C++"), Toolchain::Msvc);
    assert_eq!(toolchain_by_version("tcc", ""), Toolchain::Other);
}

#[test]
fn sdk_directories_follow_the_report() {
    assert_eq!(sdk_include_dirs(" /sdk\n"), vec!["/sdk/usr/include", "/sdk/usr/include/c++/v1"]);
    assert!(sdk_include_dirs(" \n").is_empty());
}

#[test]
fn arguments_depend_on_the_family() {
    let mut c = Compiler::new(
        vec![],
        "out/app".to_string(),
        vec!["m".to_string()],
        &vec![],
        vec!["-O2".to_string()],
        vec!["lib".to_string()],
        None,
        vec![],
    );
    c.libs.push("z".to_string());
    let files = vec!["a.c".to_string()];
    assert_eq!(
        c.c_compiler_args(Toolchain::Gcc, &files),
        vec!["a.c", "-O2", "-I", "out/app_modules", "-o", "out/app", "-Llib", "-lm", "-lz"]
    );
    assert_eq!(
        c.c_compiler_args(Toolchain::Msvc, &files),
        vec!["a.c", "-O2", "/Iout/app_modules", "/Foout/app_modules/", "/Feout/app", "m.lib", "z.lib"]
    );
}

#[test]
fn toolchain_must_be_found_and_supported() {
    let gcc = (Toolchain::Gcc, "gcc".to_string());
    let other = (Toolchain::Other, "tcc".to_string());
    assert_eq!(select_toolchain(None, Some(gcc.clone())).unwrap(), gcc);
    assert_eq!(select_toolchain(Some(gcc.clone()), Some(other.clone())).unwrap(), gcc);
    match select_toolchain(Some(other), Some(gcc)) {
        Err(CompilationError::UnsupportedToolchain(p)) => assert_eq!(p, "tcc"),
        _ => panic!("expected an error"),
    }
    assert!(matches!(select_toolchain(None, None), Err(CompilationError::ToolchainNotFound)));
}

#[test]
fn config_collects_what_it_is_told() {
    let c = PreprocessConfig::new()
        .add_system_include_dir("/usr/include")
        .add_user_include_dir("inc")
        .define_macro("A", "1")
        .define_macro("B", "2")
        .define_macro("A", "3")
        .with_target(Target::Windows)
        .with_builtin_headers(true);
    assert_eq!(c.system_include_dirs, vec!["/usr/include"]);
    assert_eq!(c.user_include_dirs, vec!["inc"]);
    let macros: Vec<(&str, &str)> = c.predefined_macros.iter().map(|(a, b)| (a.as_str(), b.as_str())).collect();
    assert_eq!(macros, vec![("A", "3"), ("B", "2")]);
    assert_eq!(c.target, Target::Windows);
    assert_eq!(c.with_current_target("macos").target, Target::MacOS);
}

#[test]
fn headers_are_looked_for_in_order() {
    let c = PreprocessConfig::new()
        .add_system_include_dir("/usr/include")
        .add_user_include_dir("inc")
        .with_builtin_headers(true);
    assert_eq!(files(c.header_places("src", "stdio.h", true, true)), vec!["(builtin)", "/usr/include/stdio.h"]);
    assert_eq!(files(c.header_places("src", "a.h", false, true)), vec!["src/a.h", "inc/a.h"]);
    let plain = c.with_builtin_headers(false);
    assert_eq!(files(plain.header_places("src", "stdio.h", true, true)), vec!["/usr/include/stdio.h"]);
    assert_eq!(
        files(module_header_candidates("src", "//a.h", &vec!["/opt/include".to_string()])),
        vec!["src/a.h", "a.h", "/usr/include/a.h", "/usr/local/include/a.h", "/opt/include/a.h"]
    );
}

#[test]
fn preprocessed_text_is_parsed() {
    let d = extract_preprocessed(Ok("int f(int a);".to_string())).unwrap();
    assert_eq!(d.functions.len(), 1);
    assert_eq!(d.functions[0].name, "f");
    match extract_preprocessed(Err("no such file".to_string())) {
        Err(FfiError::Preprocess(m)) => assert_eq!(m, "no such file"),
        _ => panic!("expected an error"),
    }
}

#[test]
fn parent_of_a_path() {
    assert_eq!(get_parent("out/app"), Some("out".to_string()));
    assert_eq!(get_parent("/app"), Some("/".to_string()));
    assert_eq!(get_parent("/"), None);
}
