use kitlang::ast::Span;
use kitlang::c_parse::parse_c_header;
use kitlang::compiler::Compiler;
use kitlang::error::CompilationError;
use kitlang::lexer::fractions;
use kitlang::loading::{parse_kit_file, FileEntry, LoadStop, Snapshot};

fn one_file(path: &str, source: &str) -> Snapshot {
    let mut snapshot = Snapshot::new();
    snapshot.files.push((
        path.to_string(),
        Some(FileEntry { canonical: path.to_string(), source: source.to_string() }),
    ));
    snapshot
}

fn add_file(snapshot: &mut Snapshot, path: &str, source: &str) {
    snapshot.files.push((
        path.to_string(),
        Some(FileEntry { canonical: path.to_string(), source: source.to_string() }),
    ));
}

fn compiler_for(files: Vec<String>) -> Compiler {
    Compiler::new(files, "out/test_extern".to_string(), vec![], &vec![], vec![], vec![], None, vec![])
}

fn load(compiler: &mut Compiler, snapshot: &mut Snapshot) -> Vec<kitlang::module::ModulePath> {
    loop {
        match compiler.load(snapshot) {
            Ok(v) => return v,
            Err(LoadStop::NeedFile(p)) => snapshot.files.push((p, None)),
            Err(LoadStop::NeedDir(p)) => snapshot.dirs.push((p, vec![])),
            Err(LoadStop::Failed(e)) => panic!("{}", e.to_string()),
        }
    }
}

#[test]
fn test_extern_c_output_contains_extern_prefix() {
    let source = "include \"stdio.h\";\n\
        #[extern] function externFunc() { printf(\"e\"); }\n\
        #[expose] function exposeFunc() { printf(\"x\"); }\n\
        function plainFunc() { printf(\"p\"); }\n\
        #[extern] var externGlobal: Int = 1;\n\
        #[expose] var exposeGlobal: Int = 2;\n\
        var plainGlobal: Int = 3;\n\
        function main() { externFunc(); exposeFunc(); plainFunc(); return 0; }\n";
    let mut snapshot = one_file("src/test_extern.kit", source);
    let mut compiler = compiler_for(vec!["src/test_extern.kit".to_string()]);
    assert_eq!(compiler.build_dir, "out/test_extern_modules");
    let sorted = load(&mut compiler, &mut snapshot);
    assert_eq!(sorted.len(), 1);
    assert_eq!(sorted[0].to_string(), "test_extern");
    let header = parse_c_header("int printf(const char *format, ...);").unwrap();
    let files = match compiler.compile(&sorted, vec![header]) {
        Ok(v) => v,
        Err(e) => panic!("{}", e.to_string()),
    };
    assert_eq!(files.len(), 1);
    assert_eq!(files[0].name, "test_extern");
    let c_code = &files[0].code;
    assert!(c_code.contains("extern void externFunc"), "extern function should have extern prefix\n{c_code}");
    assert!(!c_code.contains("extern void exposeFunc"), "expose function should NOT have extern prefix\n{c_code}");
    assert!(!c_code.contains("extern void plainFunc"), "plain function should NOT have extern prefix\n{c_code}");
    assert!(c_code.contains("extern int externGlobal"), "extern global should have extern prefix\n{c_code}");
    assert!(!c_code.contains("extern int exposeGlobal"), "expose global should NOT have extern prefix\n{c_code}");
    assert!(!c_code.contains("extern int plainGlobal"), "plain global should NOT have extern prefix\n{c_code}");
    assert!(c_code.contains("void test_extern_plainFunc()"), "{c_code}");
    assert!(c_code.contains("test_extern_plainFunc();"), "{c_code}");
    assert!(c_code.contains("printf(\"p\")"), "{c_code}");
    assert!(c_code.contains("int test_extern_plainGlobal = 3;"), "{c_code}");
    assert!(c_code.contains("int main() {"), "{c_code}");
}

#[test]
fn header_has_guard_and_prototypes() {
    let source = "struct Point { var x: Int; var y: Int; }\n\
        enum Color { Red; Green; }\n\
        enum Shape { Circle(radius: Int); Empty; }\n\
        function area(w: Int, h: Int): Int { return w * h; }\n\
        private var hidden: Int = 1;\n\
        var shown: Int = 2;\n";
    let mut snapshot = one_file("src/pkg/geo.kit", source);
    let mut compiler = compiler_for(vec!["src/pkg/geo.kit".to_string()]);
    let sorted = load(&mut compiler, &mut snapshot);
    let files = match compiler.compile(&sorted, vec![]) {
        Ok(v) => v,
        Err(e) => panic!("{}", e.to_string()),
    };
    assert_eq!(files[0].name, "pkg_geo");
    let h = &files[0].header;
    assert!(h.starts_with("#ifndef KIT_MODULE_PKG_GEO_H\n#define KIT_MODULE_PKG_GEO_H\n\n"), "{h}");
    assert!(h.ends_with("\n#endif /* KIT_MODULE_PKG_GEO_H */\n"), "{h}");
    assert!(h.contains("struct pkg_geo_Point {\n    int x;\n    int y;\n};\n"), "{h}");
    assert!(h.contains("typedef enum {\n    pkg_geo_Color_Red,\n    pkg_geo_Color_Green\n} pkg_geo_Color;\n\n"), "{h}");
    assert!(h.contains("    pkg_geo_Shape_Circle_data circle;"), "{h}");
    assert!(h.contains("pkg_geo_Shape pkg_geo_Shape_Circle_new(int radius) {\n"), "{h}");
    assert!(h.contains("    result._variant.circle.radius = radius;\n"), "{h}");
    assert!(h.contains("int pkg_geo_area(int w, int h);\n"), "{h}");
    assert!(h.contains("extern int pkg_geo_shown;\n"), "{h}");
    assert!(!h.contains("hidden"), "{h}");
    assert!(files[0].code.starts_with("#include \"pkg_geo.h\"\n"), "{}", files[0].code);
    assert!(files[0].code.contains("int pkg_geo_area(int w, int h) {\n    return (w * h);\n}"), "{}", files[0].code);
}

#[test]
fn statements_become_indented_c() {
    let source = "function count(n: Int): Int {\n\
        var total: Int = 0;\n\
        for i in 0 ... n { if i == 3 { continue; } else { total += i; } }\n\
        while total > 100 { total = total - 1; break; }\n\
        return total;\n\
        }\n\
        function main() { count(5); }\n";
    let mut snapshot = one_file("src/app.kit", source);
    let mut compiler = compiler_for(vec!["src/app.kit".to_string()]);
    let sorted = load(&mut compiler, &mut snapshot);
    let files = match compiler.compile(&sorted, vec![]) {
        Ok(v) => v,
        Err(e) => panic!("{}", e.to_string()),
    };
    let c = &files[0].code;
    assert!(c.contains("    int total = 0;\n    for (int i = 0; i <= n; ++i) {\n        if ((i == 3)) {\n            continue;\n        } else {\n            total += i;\n        }\n    }\n"), "{c}");
    assert!(c.contains("    while ((total > 100)) {\n        total = (total - 1);\n        break;\n    }\n    return total;\n}"), "{c}");
    assert!(c.contains("int main() {\n    app_count(5);\nreturn 0;\n}"), "{c}");
}

#[test]
fn imports_are_loaded_before_use_and_sorted() {
    let mut snapshot = one_file("src/app.kit", "import util.math;\nfunction main() { return 0; }\n");
    add_file(&mut snapshot, "src/util/math.kit", "function twice(x: Int): Int { return x + x; }\n");
    let mut compiler = compiler_for(vec!["src/app.kit".to_string()]);
    let sorted = load(&mut compiler, &mut snapshot);
    let names: Vec<String> = sorted.iter().map(|p| p.to_string()).collect();
    assert_eq!(names, vec!["util.math", "app"]);
}

#[test]
fn wildcard_imports_are_resolved_in_order() {
    let mut snapshot = one_file("src/app.kit", "import lib.*;\nfunction main() { return 0; }\n");
    add_file(&mut snapshot, "src/lib/b.kit", "var second: Int = 2;\n");
    add_file(&mut snapshot, "src/lib/a.kit", "var first: Int = 1;\n");
    add_file(&mut snapshot, "src/lib/deep/c.kit", "var third: Int = 3;\n");
    let listing = vec!["b.kit", "a.kit", "prelude.kit", "note.txt", "deep/c.kit"];
    snapshot.dirs.push(("src/lib".to_string(), listing.iter().map(|s| s.to_string()).collect()));
    let mut compiler = compiler_for(vec!["src/app.kit".to_string()]);
    let sorted = load(&mut compiler, &mut snapshot);
    let mut names: Vec<String> = sorted.iter().map(|p| p.to_string()).collect();
    names.sort();
    assert_eq!(names, vec!["app", "lib.a", "lib.b"]);
}

#[test]
fn double_wildcard_imports_reach_below() {
    let mut snapshot = one_file("src/app.kit", "import lib.**;\nfunction main() { return 0; }\n");
    add_file(&mut snapshot, "src/lib/a.kit", "var first: Int = 1;\n");
    add_file(&mut snapshot, "src/lib/deep/c.kit", "var third: Int = 3;\n");
    snapshot.dirs.push(("src/lib".to_string(), vec!["deep/c.kit".to_string(), "a.kit".to_string()]));
    let mut compiler = compiler_for(vec!["src/app.kit".to_string()]);
    let sorted = load(&mut compiler, &mut snapshot);
    let mut names: Vec<String> = sorted.iter().map(|p| p.to_string()).collect();
    names.sort();
    assert_eq!(names, vec!["app", "lib.a", "lib.deep.c"]);
}

#[test]
fn preludes_are_loaded_first() {
    let mut snapshot = one_file("src/app.kit", "function main() { return 0; }\n");
    add_file(&mut snapshot, "src/prelude.kit", "var base: Int = 1;\n");
    let mut compiler = compiler_for(vec!["src/app.kit".to_string()]);
    let sorted = load(&mut compiler, &mut snapshot);
    let mut names: Vec<String> = sorted.iter().map(|p| p.to_string()).collect();
    names.sort();
    assert_eq!(names, vec!["app", "prelude"]);
}

#[test]
fn missing_import_is_reported() {
    let mut snapshot = one_file("src/app.kit", "import nowhere;\nfunction main() { return 0; }\n");
    let mut compiler = compiler_for(vec!["src/app.kit".to_string()]);
    let err = loop {
        match compiler.load(&snapshot) {
            Err(LoadStop::NeedFile(p)) => snapshot.files.push((p, None)),
            Err(LoadStop::Failed(e)) => break e,
            Err(LoadStop::NeedDir(_)) => panic!("no directory is needed"),
            Ok(_) => panic!("expected an error"),
        }
    };
    assert_eq!(err, CompilationError::ModuleNotFound { path: "nowhere".to_string() });
}

#[test]
fn several_missing_imports_are_reported_together() {
    let mut snapshot = one_file("src/app.kit", "import a;\nimport b;\nfunction main() { return 0; }\n");
    let mut compiler = compiler_for(vec!["src/app.kit".to_string()]);
    let err = loop {
        match compiler.load(&snapshot) {
            Err(LoadStop::NeedFile(p)) => snapshot.files.push((p, None)),
            Err(LoadStop::Failed(e)) => break e,
            Err(LoadStop::NeedDir(_)) => panic!("no directory is needed"),
            Ok(_) => panic!("expected an error"),
        }
    };
    match err {
        CompilationError::CompileError(m) => {
            assert!(m.starts_with("Multiple errors loading modules:\n  - "), "{m}");
            assert_eq!(m.lines().count(), 3);
        }
        other => panic!("unexpected error: {}", other.to_string()),
    }
}

#[test]
fn circular_imports_are_refused() {
    let mut snapshot = one_file("src/a.kit", "import b;\n");
    add_file(&mut snapshot, "src/b.kit", "import a;\n");
    let mut compiler = compiler_for(vec!["src/a.kit".to_string()]);
    let err = loop {
        match compiler.load(&snapshot) {
            Err(LoadStop::NeedFile(p)) => snapshot.files.push((p, None)),
            Err(LoadStop::Failed(e)) => break e,
            Err(LoadStop::NeedDir(_)) => panic!("no directory is needed"),
            Ok(_) => panic!("expected an error"),
        }
    };
    assert!(matches!(err, CompilationError::CircularImport { .. }));
}

#[test]
fn syntax_errors_name_the_place() {
    let snapshot = one_file("src/bad.kit", "var x: Int = 1;\nfunction (\n");
    let mut compiler = compiler_for(vec!["src/bad.kit".to_string()]);
    match compiler.load(&snapshot) {
        Err(LoadStop::Failed(CompilationError::Located { error, context })) => {
            assert_eq!(error.to_string(), "Parse error: src/bad.kit: syntax error at line 2, column 1");
            assert_eq!(context.file, "src/bad.kit");
            assert_eq!(context.source, "var x: Int = 1;\nfunction (\n");
            assert_eq!(context.span, Span { line: 2, column: 1, offset: 16, length: 0 });
        }
        _ => panic!("expected a syntax error"),
    }
    assert!(!compiler.registry.contains(&kitlang::module::ModulePath(vec!["bad".to_string()])));
}

#[test]
fn linked_libraries_are_collected_once() {
    let mut snapshot = one_file(
        "src/app.kit",
        "include \"math.h\" => \"m\";\ninclude \"again.h\" => \"m\";\ninclude \"z.h\" => \"z\";\nfunction main() { return 0; }\n",
    );
    let mut compiler = compiler_for(vec!["src/app.kit".to_string()]);
    compiler.libs.push("z".to_string());
    let sorted = load(&mut compiler, &mut snapshot);
    assert!(compiler.compile(&sorted, vec![]).is_ok());
    assert_eq!(compiler.libs, vec!["z", "m"]);
}

#[test]
fn match_has_no_c_code() {
    let mut snapshot = one_file(
        "src/app.kit",
        "function main() { var x: Int = 1; match x { 1 => x = 2; default => x = 3; } return 0; }\n",
    );
    let mut compiler = compiler_for(vec!["src/app.kit".to_string()]);
    let sorted = load(&mut compiler, &mut snapshot);
    match compiler.compile(&sorted, vec![]) {
        Err(CompilationError::CompileError(m)) => {
            assert_eq!(m, "a `match` or `defer` statement has no C code");
        }
        _ => panic!("expected an error"),
    }
}

#[test]
fn source_directories_default_to_src() {
    let c = compiler_for(vec![]);
    assert_eq!(c.source_paths.len(), 1);
    assert_eq!(c.source_paths[0].0, "src");
    let named = Compiler::new(
        vec![],
        "prog".to_string(),
        vec![],
        &vec!["lib:pkg.core".to_string(), "".to_string(), "a:b:c".to_string()],
        vec![],
        vec![],
        None,
        vec![("/usr/lib/kit".to_string(), kitlang::module::ModulePath(vec!["kit".to_string()]))],
    );
    assert_eq!(named.build_dir, "prog_modules");
    assert_eq!(named.source_paths.len(), 2);
    assert_eq!(named.source_paths[0].0, "lib");
    assert_eq!(named.source_paths[0].1.to_string(), "pkg.core");
    assert_eq!(named.source_paths[1].0, "/usr/lib/kit");
}

#[test]
fn numbers_are_printed_as_the_machine_holds_them() {
    let source = "function f(): Float { return 0.1000000000000000055511151231257827; }\nvar g: Float = 2.50;\n";
    let found = fractions(source);
    assert!(found.contains(&"0.1000000000000000055511151231257827".to_string()), "{found:?}");
    assert!(found.contains(&"2.5".to_string()), "{found:?}");
    let floats = found.into_iter().map(|t| { let v: f64 = t.parse().unwrap(); (t, v.to_string()) }).collect();
    let mut snapshot = one_file("src/app.kit", source);
    let mut compiler = compiler_for(vec!["src/app.kit".to_string()]).with_floats(floats);
    let sorted = load(&mut compiler, &mut snapshot);
    let files = match compiler.compile(&sorted, vec![]) {
        Ok(v) => v,
        Err(e) => panic!("{}", e.to_string()),
    };
    let c = &files[0].code;
    assert!(c.contains("return 0.1f;"), "{c}");
    assert!(c.contains("g = 2.5f;"), "{c}");
}

#[test]
fn expression_errors_carry_their_place() {
    let source = "var a: Int = 1;\nvar b: Int = 1 +;\n";
    match parse_kit_file("src/bad.kit", source) {
        Err(CompilationError::Located { error, context }) => {
            assert!(matches!(*error, CompilationError::ParseError(_)));
            assert_eq!(context.file, "src/bad.kit");
            assert_eq!(context.source, source);
            assert_eq!(context.span, Span { line: 2, column: 14, offset: 29, length: 3 });
        }
        _ => panic!("expected an error"),
    }
}

#[test]
fn type_errors_carry_the_places_that_they_passed() {
    let source = "function f(): Int {\n    return missing + 1;\n}\n";
    let mut snapshot = one_file("src/app.kit", source);
    let mut compiler = compiler_for(vec!["src/app.kit".to_string()]);
    let sorted = load(&mut compiler, &mut snapshot);
    compiler.set_error_source(Some(source.to_string()));
    let mut places = vec![];
    let mut error = match compiler.compile(&sorted, vec![]) {
        Ok(_) => panic!("expected an error"),
        Err(e) => e,
    };
    while let CompilationError::Located { error: inner, context } = error {
        assert_eq!(context.file, "src/app.kit");
        assert_eq!(context.source, source);
        places.push(context.span.line);
        error = *inner;
    }
    assert!(matches!(error, CompilationError::TypeError(_)));
    // The statement and its expression; parts of an expression have no place of their own.
    assert_eq!(places, vec![2, 2, 0]);
}
