use kitlang::compiler::Compiler;
use kitlang::error::CompilationError;
use kitlang::hash::djb2_str;
use kitlang::loading::{FileEntry, LoadStop, Snapshot};

/// The C code and the header of the module `app` with the given source.
fn compiled(source: &str) -> Result<(String, String), CompilationError> {
    let mut snapshot = Snapshot::new();
    snapshot.files.push((
        "src/app.kit".to_string(),
        Some(FileEntry { canonical: "src/app.kit".to_string(), source: source.to_string() }),
    ));
    let mut compiler = Compiler::new(
        vec!["src/app.kit".to_string()],
        "out/app".to_string(),
        vec![],
        &vec![],
        vec![],
        vec![],
        None,
        vec![],
    );
    let sorted = loop {
        match compiler.load(&snapshot) {
            Ok(v) => break v,
            Err(LoadStop::NeedFile(p)) => snapshot.files.push((p, None)),
            Err(LoadStop::NeedDir(p)) => snapshot.dirs.push((p, vec![])),
            Err(LoadStop::Failed(e)) => return Err(e),
        }
    };
    let files = compiler.compile(&sorted, vec![])?;
    assert_eq!(files.len(), 1);
    Ok((files[0].code.clone(), files[0].header.clone()))
}

fn code(source: &str) -> String {
    match compiled(source) {
        Ok((c, _)) => c,
        Err(e) => panic!("{}", e.to_string()),
    }
}

fn header(source: &str) -> String {
    match compiled(source) {
        Ok((_, h)) => h,
        Err(e) => panic!("{}", e.to_string()),
    }
}

fn type_error(source: &str) -> String {
    match compiled(source) {
        Err(CompilationError::TypeError(m)) => m,
        Err(e) => panic!("another error: {}", e.to_string()),
        Ok((c, _)) => panic!("no error:\n{c}"),
    }
}

#[test]
fn undeclared_variable_is_refused() {
    assert_eq!(
        type_error("function f(): Int { return y; }"),
        "Use of undeclared variable or enum variant 'y'"
    );
}

#[test]
fn variable_needs_a_type_or_a_value() {
    assert_eq!(
        type_error("function f() { var x; }"),
        "Variable 'x' declared without type annotation or initializer"
    );
    assert_eq!(
        type_error("var g;"),
        "Global variable 'g' declared without type annotation or initializer"
    );
}

#[test]
fn annotation_and_value_must_agree() {
    assert_eq!(type_error("function f() { var x: Int = \"a\"; }"), "Type mismatch: int vs char*");
    let c = code("function f() { var x: Int8 = 3; var y: Float64 = 1.5; }");
    assert!(c.contains("    int8_t x = 3;\n    double y = 1.5"), "{c}");
}

#[test]
fn type_of_a_variable_comes_from_its_value() {
    let c = code("function f() { var a = 1; var b = a == 2; var c = \"s\"; var d = 'x'; }");
    assert!(c.contains("    int a = 1;\n    bool b = (a == 2);\n    char* c = \"s\";\n    char d = 'x';\n"), "{c}");
}

#[test]
fn inner_scope_ends_with_its_block() {
    assert_eq!(
        type_error("function f(): Int { if true { var inner = 1; } return inner; }"),
        "Use of undeclared variable or enum variant 'inner'"
    );
    let c = code("function f(): Int { var x = 1; { var x = true; } return x; }");
    assert!(c.contains("return x;"), "{c}");
}

#[test]
fn conditions_must_be_boolean() {
    assert_eq!(type_error("function f() { if 1 { return; } }"), "Type mismatch: int vs bool");
    assert_eq!(type_error("function f() { while \"x\" { break; } }"), "Type mismatch: char* vs bool");
}

#[test]
fn return_type_is_inferred_or_checked() {
    let c = code("function f() { return 3; }\nfunction g() { f(); }");
    assert!(c.contains("int app_f() {\n    return 3;\n}"), "{c}");
    assert!(c.contains("void app_g() {\n    app_f();\n}"), "{c}");
    assert_eq!(type_error("function f(): Int { return true; }"), "Type mismatch: int vs bool");
    assert_eq!(type_error("function f(): Int { return; }"), "Type mismatch: int vs void");
}

#[test]
fn calls_must_fit_the_signature() {
    let f = "function add(a: Int, b: Int): Int { return a + b; }\n";
    assert_eq!(
        type_error(&format!("{f}function g() {{ add(1); }}")),
        "Function 'add' expects 2 arguments, got 1"
    );
    assert_eq!(type_error(&format!("{f}function g() {{ add(1, true); }}")), "Type mismatch: bool vs int");
    let c = code(&format!("{f}function g(): Int {{ return add(1, 2); }}"));
    assert!(c.contains("return app_add(1, 2);"), "{c}");
}

#[test]
fn values_that_are_no_functions_are_not_called() {
    assert_eq!(
        type_error("function f() { var x = 1; x(2); }"),
        "Cannot call a value of type int"
    );
}

#[test]
fn struct_values_are_complete_and_known() {
    let s = "struct Point { var x: Int; var y: Int = 7; }\n";
    let c = code(&format!("{s}function f(): Int {{ var p = struct Point {{ x: 1 }}; return p.y; }}"));
    assert!(c.contains("(struct Point){.x = 1, .y = 7};"), "{c}");
    assert!(c.contains("return p.y;"), "{c}");
    assert_eq!(
        type_error(&format!("{s}function f() {{ var p = struct Point {{ y: 1 }}; }}")),
        "Struct 'Point' field 'x' has no default value and was not provided in initialization"
    );
    assert_eq!(
        type_error(&format!("{s}function f() {{ var p = struct Point {{ x: 1, z: 2 }}; }}")),
        "Struct 'Point' has no field 'z'"
    );
    assert_eq!(
        type_error(&format!("{s}function f() {{ var p = struct Point {{ x: true }}; }}")),
        "Type mismatch: bool vs int"
    );
    assert_eq!(
        type_error("function f() { var p = struct Nowhere { x: 1 }; }"),
        "Unknown struct type 'Nowhere'"
    );
}

#[test]
fn field_access_needs_a_field() {
    let s = "struct Point { var x: Int; }\n";
    assert_eq!(
        type_error(&format!("{s}function f(p: Point): Int {{ return p.q; }}")),
        "Struct/variant 'Point' has no field 'q'"
    );
    assert_eq!(
        type_error("function f(): Int { var n = 1; return n.x; }"),
        "Cannot access field on non-struct type"
    );
}

#[test]
fn enum_values_get_default_arguments() {
    let e = "enum Shape { Circle(radius: Int, filled: Int = 5); Empty; }\n";
    let c = code(&format!("{e}function f() {{ var s = Circle(2); var t = Empty; }}"));
    assert!(c.contains("app_Shape_Circle_new(2, 5)"), "{c}");
    assert!(c.contains("app_Shape_Empty"), "{c}");
    assert_eq!(
        type_error(&format!("{e}function f() {{ var s = Circle(1, 2, 3); }}")),
        "Enum variant 'Circle' expects 2 arguments, got 3"
    );
}

#[test]
fn attributes_decide_the_names_of_enums() {
    let (c, h) = compiled(
        "#[expose] enum Open { A; B; }\nenum Mixed { #[expose] C; D; }\n\
         function f(o: Open): Open { var a = A; var c = C; var d = D; return o; }",
    )
    .unwrap();
    assert!(h.contains("typedef enum {\n    Open_A,\n    Open_B\n} Open;\n"), "{h}");
    assert!(h.contains("typedef enum {\n    Mixed_C,\n    app_Mixed_D\n} app_Mixed;\n"), "{h}");
    assert!(c.contains("Open a = Open_A;"), "{c}");
    assert!(c.contains("app_Mixed c = Mixed_C;"), "{c}");
    assert!(c.contains("app_Mixed d = app_Mixed_D;"), "{c}");
}

#[test]
fn ranges_include_their_end() {
    let c = code("function f() { for i in 1...10 { continue; } for k in 3 { continue; } }");
    assert!(c.contains("for (int i = 1; i <= 10; ++i) {"), "{c}");
    assert!(c.contains("for (int k = 0; k < 3; ++k) {"), "{c}");
}

#[test]
fn arrays_have_one_element_type() {
    assert_eq!(type_error("function f() { var a = [1, true]; }"), "Type mismatch: int vs bool");
    assert_eq!(
        type_error("function f() { var a = []; }"),
        "Empty array literal '[]' is not supported; add at least one element or a type annotation"
    );
    assert_eq!(
        type_error("function f() { var n = 1; var m = n[0]; }"),
        "Cannot index non-array type: int"
    );
    let c = code("function f(): Int { var a = [1, 2]; return a[1]; }");
    assert!(c.contains("{1, 2}"), "{c}");
    assert!(c.contains("return a[1];"), "{c}");
}

#[test]
fn tuples_are_structs_with_numbered_members() {
    let (c, h) = compiled("function f(): Int { if true { var t = (1, true); return t[0]; } return 2; }").unwrap();
    assert!(c.contains("return t._0;"), "{c}");
    let name = format!("KitTuple_{}", djb2_str("int|bool"));
    let declared = format!(
        "#ifndef {name}_DECLARED\n#define {name}_DECLARED\ntypedef struct {{\n    int _0;\n    bool _1;\n}} {name};\n#endif\n"
    );
    assert_eq!(h.matches(&declared).count(), 1, "{h}");
    assert!(h.contains("#include <stdbool.h>\n"), "{h}");
    let (_, h) = compiled("function f() { var t = ((1, 2), true); }").unwrap();
    assert_eq!(h.matches("typedef struct {").count(), 2, "{h}");
    assert_eq!(
        type_error("function f(): Int { var t = (1, true); return t[2]; }"),
        "Tuple index 2 out of range (tuple has 2 elements)"
    );
    assert_eq!(
        type_error("function f(i: Int): Int { var t = (1, true); return t[i]; }"),
        "Tuple elements can only be accessed with integer literal indices"
    );
}

#[test]
fn tuples_are_destructured() {
    let c = code("function f(): Int { var a = 0; (a, _) = (1, true); return a; }");
    assert!(c.contains("__kit_tuple_dest_0 = "), "{c}");
    assert!(c.contains("a = __kit_tuple_dest_0._0;"), "{c}");
    let c = code("function f(): Int { (x, (y, z)) = (1, (2, 3)); return x + y + z; }");
    assert!(c.contains("int x = __kit_tuple_dest_0._0;"), "{c}");
    assert!(c.contains("int y = __kit_tuple_dest_0._1._0;"), "{c}");
    assert!(c.contains("int z = __kit_tuple_dest_0._1._1;"), "{c}");
    assert_eq!(
        type_error("function f() { (a, b) = (1, 2, 3); }"),
        "Tuple destructuring arity mismatch: pattern has 2 elements but value has 3"
    );
    assert_eq!(
        type_error("function f() { (a, b) = 1; }"),
        "Cannot destructure a non-tuple value of type int"
    );
    assert_eq!(
        type_error("function f() { (a, (b, c)) = (1, 2); }"),
        "Cannot destructure a non-tuple pattern element"
    );
}

#[test]
fn loops_run_over_ranges_numbers_and_arrays() {
    assert_eq!(
        type_error("function f() { for i in true { break; } }"),
        "For loop iterator must be Int, Range, or Array, found bool"
    );
    let c = code("function f(n: Int) { for i in n { continue; } }");
    assert!(c.contains("continue;"), "{c}");
}

#[test]
fn pointers_are_dereferenced() {
    let c = code("function f(p: &Int): Int { return *p; }");
    assert!(c.contains("int app_f(int* p) {\n    return *(p);\n}"), "{c}");
    assert_eq!(
        type_error("function f(): Int { var n = 1; return *n; }"),
        "Cannot dereference non-pointer type: int"
    );
}

#[test]
fn conditional_expressions_have_one_type() {
    let c = code("function f(b: Bool): Int { return if b then 1 else 2; }");
    assert!(c.contains("return (b ? 1 : 2);"), "{c}");
    assert_eq!(
        type_error("function f(b: Bool): Int { return if b then 1 else false; }"),
        "Type mismatch: int vs bool"
    );
}

#[test]
fn aliases_stand_for_their_types() {
    let c = code("typedef Count = Int;\nfunction f(c: Count): Int { return c; }");
    assert!(c.contains("app_f("), "{c}");
}

#[test]
fn generic_functions_are_realized_once_per_argument() {
    let c = code(
        "function pick[T](a: T, b: T): T { return a; }\n\
         function f(): Int { var b = pick(true, false); pick(3, 4); return pick(1, 2); }",
    );
    let ints = format!("pick_{}", djb2_str("pick|int"));
    let bools = format!("pick_{}", djb2_str("pick|bool"));
    assert_eq!(c.matches(&format!("int app_{ints}(int a, int b) {{")).count(), 1, "{c}");
    assert_eq!(c.matches(&format!("bool app_{bools}(bool a, bool b) {{")).count(), 1, "{c}");
    assert!(c.contains(&format!("return app_{ints}(1, 2);")), "{c}");
    assert!(c.contains(&format!("app_{bools}(true, false)")), "{c}");
    assert!(!c.contains("app_pick("), "{c}");
}

#[test]
fn each_call_goes_to_the_form_of_its_own_arguments() {
    let c = code(
        "function first[A, B](a: A, b: B): A { return a; }\n\
         function size[T](x: T): Int { return 1; }\n\
         function f(x: Int): Int { if true { return first(x, 1); } return first(x, true); }\n\
         function g(): Int { return size(1) + size(true); }",
    );
    let plain = format!("app_first_{}", djb2_str("first|int|int"));
    let mixed = format!("app_first_{}", djb2_str("first|int|bool"));
    assert!(c.contains(&format!("return {plain}(x, 1);")), "{c}");
    assert!(c.contains(&format!("return {mixed}(x, true);")), "{c}");
    let ints = format!("app_size_{}", djb2_str("size|int"));
    let bools = format!("app_size_{}", djb2_str("size|bool"));
    assert!(c.contains(&format!("return ({ints}(1) + {bools}(true));")), "{c}");
}

#[test]
fn type_parameters_of_one_name_are_one() {
    let c = code(
        "function same[T, T](x: T): T { return x; }\n\
         function f(): Int { return same(1); }",
    );
    let ints = format!("app_same_{}", djb2_str("same|int|int"));
    assert!(c.contains(&format!("int {ints}(int x) {{")), "{c}");
    assert!(c.contains(&format!("return {ints}(1);")), "{c}");
}

#[test]
fn generic_structs_are_realized() {
    let h = header(
        "struct Box[T] { var value: T; }\n\
         function f(b: Box[Int]): Int { return b.value; }",
    );
    let name = format!("Box_{}", djb2_str("Box|int"));
    assert!(h.contains(&format!("{name} {{\n    int value;\n}}")), "{h}");
    assert!(!h.contains("T value"), "{h}");
}

#[test]
fn generic_applications_must_fit() {
    assert_eq!(
        type_error("struct Box[T] { var value: T; }\nfunction f(b: Box[Int, Bool]) { return; }"),
        "type 'Box' expects 1 type argument(s), got 2"
    );
    assert_eq!(
        type_error("struct Plain { var value: Int; }\nfunction f(b: Plain[Int]) { return; }"),
        "type 'Plain' is not generic but is used with type arguments"
    );
}

#[test]
fn traits_are_implemented_completely() {
    let t = "trait Sized { function size(): Int; }\nstruct Point { var x: Int; }\n";
    assert_eq!(
        type_error(&format!("{t}implement Sized for Point {{ }}")),
        "trait 'Sized' requires method 'size', which is missing from the impl for type 'Point'"
    );
    assert_eq!(
        type_error(&format!(
            "{t}implement Sized for Point {{ function size(): Int {{ return 1; }} function other(): Int {{ return 2; }} }}"
        )),
        "impl of trait 'Sized' for type 'Point' provides method 'other', which is not declared by the trait"
    );
    assert_eq!(
        type_error(&format!("{t}implement Sized for Point {{ function size(): Bool {{ return true; }} }}")),
        "method 'size' in the impl of trait 'Sized' for type 'Point' does not match the trait declaration's signature"
    );
    assert_eq!(
        type_error(&format!("{t}implement Lost for Point {{ }}")),
        "trait 'Lost' is not defined"
    );
    let once = "implement Sized for Point { function size(): Int { return 1; } }\n";
    assert_eq!(
        type_error(&format!("{t}{once}{once}")),
        "duplicate implementation of trait 'Sized' for type 'Point'"
    );
}

#[test]
fn implementations_for_applications_over_structs_are_concrete() {
    let c = code(
        "trait Sized { function size(): Int; }\n\
         struct Point { var x: Int; }\n\
         struct Box[T] { var value: T; }\n\
         implement Sized for Box[Point] { function size(): Int { return 1; } }\n\
         function f(b: Box[Point], c: Box[Int]): Int { return b.size(); }",
    );
    let name = format!("Box_{}", djb2_str("Box|Point"));
    assert!(c.contains(&format!("Sized__{name}__size(b)")), "{c}");
    assert!(!c.contains(&format!("Sized__Box_{}__size", djb2_str("Box|int"))), "{c}");
}

#[test]
fn methods_are_called_with_their_receiver() {
    let c = code(
        "trait Sized { function size(): Int; }\n\
         struct Point { var x: Int; }\n\
         implement Sized for Point { function size(): Int { return this.x; } }\n\
         function f(p: Point): Int { return p.size(); }",
    );
    assert!(c.contains("Sized__Point__size("), "{c}");
    assert!(c.contains("Sized__Point__size(p)"), "{c}");
    assert!(c.contains("return this.x;"), "{c}");
}

#[test]
fn undetermined_type_parameters_are_reported() {
    let m = type_error("function make[T](): Int { return 1; }\nfunction f(): Int { return make(); }");
    assert!(m.contains("type parameter 'T' has no concrete value"), "{m}");
}

#[test]
fn constraints_are_checked() {
    let t = "trait Sized { function size(): Int; }\n\
             struct Point { var x: Int; }\n\
             implement Sized for Point { function size(): Int { return 1; } }\n\
             struct Holder[T :: Sized] { var item: T; }\n";
    let h = header(&format!("{t}function f(p: Holder[Point]) {{ return; }}"));
    assert!(h.contains(&format!("Holder_{}", djb2_str("Holder|Point"))), "{h}");
    assert_eq!(
        type_error(&format!("{t}function f(p: Holder[Bool]) {{ return; }}")),
        "type 'bool' does not implement trait 'Sized'"
    );
}

#[test]
fn pattern_variables_are_bound_in_their_arm() {
    let e = "enum Shape { Circle(radius: Int); Empty; }\n";
    match compiled(&format!(
        "{e}function f(s: Shape): Int {{ var r = 0; match s {{ Circle(n) => r = n; Empty => r = 1; }} return r; }}"
    )) {
        Err(CompilationError::CompileError(m)) => assert_eq!(m, "a `match` or `defer` statement has no C code"),
        Err(e) => panic!("{}", e.to_string()),
        Ok(_) => panic!("a match has no C code"),
    }
    assert_eq!(
        type_error(&format!(
            "{e}function f(s: Shape): Int {{ var r = 0; match s {{ Circle(n) => r = 2; default => r = n; }} return r; }}"
        )),
        "Use of undeclared variable or enum variant 'n'"
    );
}

#[test]
fn unmangled_names_are_claimed_once() {
    let mut snapshot = Snapshot::new();
    for (path, source) in [
        ("src/app.kit", "import other;\n#[expose] function shared() { return; }\n"),
        ("src/other.kit", "#[expose] function shared() { return; }\n"),
    ] {
        snapshot.files.push((
            path.to_string(),
            Some(FileEntry { canonical: path.to_string(), source: source.to_string() }),
        ));
    }
    let mut compiler = Compiler::new(
        vec!["src/app.kit".to_string()],
        "out/app".to_string(),
        vec![],
        &vec![],
        vec![],
        vec![],
        None,
        vec![],
    );
    let err = loop {
        match compiler.load(&snapshot) {
            Ok(_) => panic!("the name is taken"),
            Err(LoadStop::NeedFile(p)) => snapshot.files.push((p, None)),
            Err(LoadStop::NeedDir(p)) => snapshot.dirs.push((p, vec![])),
            Err(LoadStop::Failed(e)) => break e,
        }
    };
    match err {
        CompilationError::DuplicateSymbol { name, module } => {
            assert_eq!(name, "shared");
            assert_eq!(module, "extern (global namespace)");
        }
        e => panic!("{}", e.to_string()),
    }
}
