use kitlang::ast::{ExprKind, Literal};
use kitlang::binding_power::{infix, postfix, prefix};
use kitlang::c_parse::parse_c_header;
use kitlang::c_text::declaration_of;
use kitlang::decl::EnumVariant;
use kitlang::emit_expr::CodegenCtx;
use kitlang::engine::TypeInferencer;
use kitlang::error::CompilationError;
use kitlang::escape::unescape;
use kitlang::expr_pratt::parse_kit_expr;
use kitlang::grammar::parse_tree;
use kitlang::graph::{DependencyGraph, ModuleNode};
use kitlang::hash::{djb2_hash, djb2_str};
use kitlang::lexer::tokenize;
use kitlang::loading::parse_kit_file;
use kitlang::module::{ImportType, ModulePath};
use kitlang::name_mangling::mangle_function;
use kitlang::paths::{
    determine_module_path, get_components, get_extension, get_path_stem, join_path, module_file_candidates,
    parse_source_path, prelude_candidates, replace_extension, sort_paths, strip_module_prefix,
};
use kitlang::registry::ModuleRegistry;
use kitlang::store::TypeStore;
use kitlang::symbols::SymbolTable;
use kitlang::syntax::{Rule, SyntaxNode};
use kitlang::text::{join, split};
use kitlang::token::Tok;
use kitlang::tree_expr::parse_expr;
use kitlang::tree_types::Parser;
use kitlang::types::{Type, TypeId};

fn path(p: &str) -> ModulePath {
    ModulePath(p.split('.').map(|s| s.to_string()).collect())
}

#[test]
fn splitting_and_joining_undo_each_other() {
    for s in ["", "a", "a.b", ".a..b."] {
        assert_eq!(join(&split(s, '.'), "."), s);
    }
    let parts = vec!["x".to_string(), "".to_string(), "yz".to_string()];
    assert_eq!(split(&join(&parts, "/"), '/'), parts);
}

#[test]
fn literals_read_back() {
    for n in [0i64, 7, 10, 907, i64::MAX] {
        let c = Literal::Int(n).to_c();
        let ts = tokenize(&c).unwrap();
        assert_eq!(ts.len(), 1);
        assert!(matches!(ts[0].kind, Tok::IntLit(m) if m == n), "{c}");
    }
    for s in ["", "plain", "a\"b\\c\n\td", "'\r"] {
        let c = Literal::String(s.to_string()).to_c();
        let ts = tokenize(&c).unwrap();
        assert_eq!(ts.len(), 1);
        match &ts[0].kind {
            Tok::StringLit(t) => assert_eq!(t, s),
            _ => panic!("{c}"),
        }
    }
    for ch in ['a', '\n', '\r', '\t', '\\', '\'', '"', 'é'] {
        let c = Literal::Char(ch).to_c();
        let ts = tokenize(&c).unwrap();
        assert_eq!(ts.len(), 1);
        assert!(matches!(ts[0].kind, Tok::CharLit(d) if d == ch), "{c}");
    }
    assert_eq!(Literal::Int(-3).to_c(), "-3");
    assert_eq!(Literal::Float("2".to_string()).to_c(), "2.0f");
    assert_eq!(Literal::Float("2.5".to_string()).to_c_with_float(false), "2.5");
    assert_eq!(Literal::Bool(true).to_c(), "true");
    assert_eq!(Literal::Null.to_c(), "NULL");
}

#[test]
fn lone_backslash_is_no_escape() {
    assert_eq!(unescape("a\\n\\q"), Some("a\nq".to_string()));
    assert_eq!(unescape("plain"), Some("plain".to_string()));
    assert_eq!(unescape("x\\"), None);
    assert!(tokenize("9223372036854775808").is_err());
    assert!(tokenize("\"open").is_err());
    assert!(tokenize("'ab'").is_err());
}

#[test]
fn hashes_have_sixteen_digits() {
    assert_eq!(djb2_str(""), "0000000000001505");
    assert_eq!(djb2_hash(b"a"), "000000000002b606");
    assert_eq!(djb2_str("a"), "000000000002b606");
}

#[test]
fn tighter_operators_take_their_operands() {
    let e = parse_kit_expr("a + b * c", "a + b * c", 0).unwrap();
    match e.kind {
        ExprKind::BinaryOp { right, .. } => assert!(matches!(right.kind, ExprKind::BinaryOp { .. })),
        _ => panic!("no operation"),
    }
    let e = parse_kit_expr("a - b - c", "a - b - c", 0).unwrap();
    match e.kind {
        ExprKind::BinaryOp { left, .. } => assert!(matches!(left.kind, ExprKind::BinaryOp { .. })),
        _ => panic!("no operation"),
    }
    let e = parse_kit_expr("-a * b", "-a * b", 0).unwrap();
    match e.kind {
        ExprKind::BinaryOp { left, .. } => assert!(matches!(left.kind, ExprKind::UnaryOp { .. })),
        _ => panic!("no operation"),
    }
    assert!(infix(&Tok::Star).unwrap().0 < prefix(&Tok::Minus).unwrap());
    assert!(prefix(&Tok::Minus).unwrap() < postfix(&Tok::Dot).unwrap());
}

#[test]
fn mangled_names_are_joined_and_distinct() {
    assert_eq!(mangle_function(&path("a.b"), "f"), "a_b_f");
    assert_ne!(mangle_function(&path("a.b"), "f"), mangle_function(&path("a.b"), "g"));
}

fn lies_in(n: &SyntaxNode, source: &str) {
    assert_eq!(&source[n.start..n.end], n.text);
    let mut at = n.start;
    for c in &n.children {
        assert!(at <= c.start && c.end <= n.end);
        at = c.end;
        lies_in(c, source);
    }
}

#[test]
fn nodes_are_parts_of_the_source() {
    let source = "// é first\nimport a.b;\n/* two\n lines */ function f(x: Int): Int { if x == 1 { return 2; } return x; }\n";
    let tree = parse_tree("src/a.kit", source).unwrap();
    assert_eq!(tree.rule, Rule::Program);
    assert_eq!(tree.text, source);
    assert_eq!(tree.children.len(), 2);
    assert_eq!(tree.children[0].line, 2);
    lies_in(&tree, source);
}

#[test]
fn files_of_a_module_stand_for_it() {
    let dirs = vec![("src/kit".to_string(), path("std"))];
    let m = path("std.io.file");
    let files = module_file_candidates(&m, &dirs);
    assert_eq!(files, vec!["src/kit/io/file.kit", "src/kit/io/file/_mod.kit"]);
    for f in &files {
        assert_eq!(determine_module_path(f, &dirs).to_string(), "std.io.file");
    }
    assert!(module_file_candidates(&path("other.io"), &dirs).is_empty());
    assert_eq!(determine_module_path("elsewhere/x.kit", &dirs).to_string(), "x");
}

#[test]
fn prefixes_are_stripped_and_restored() {
    assert_eq!(strip_module_prefix(&path("a.b.c"), &path("a")).unwrap().to_string(), "b.c");
    assert!(strip_module_prefix(&path("a.b"), &path("b")).is_none());
    let (dir, p) = parse_source_path("lib:x.y").unwrap();
    assert_eq!(dir, "lib");
    assert_eq!(p.to_string(), "x.y");
    assert!(parse_source_path(":x").is_none());
}

#[test]
fn paths_are_sorted_and_kept() {
    let sorted = sort_paths(&vec![path("b"), path("a.c"), path("a"), path("b")]);
    let names: Vec<String> = sorted.iter().map(|p| p.to_string()).collect();
    assert_eq!(names, vec!["a", "a.c", "b", "b"]);
}

#[test]
fn path_texts_are_taken_apart() {
    assert_eq!(get_components("/usr//lib/./x.kit"), vec!["usr", "lib", "x.kit"]);
    assert_eq!(get_path_stem("a/b.c.kit"), "b.c");
    assert_eq!(get_path_stem(".hidden"), ".hidden");
    assert_eq!(get_extension("b.c.kit"), Some("kit".to_string()));
    assert_eq!(get_extension(".hidden"), None);
    assert_eq!(join_path("a/", "b"), "a/b");
    assert_eq!(join_path("a", "/b"), "/b");
    assert_eq!(replace_extension("a.d/b.x/", "c"), "a.d/b.c");
    let preludes: Vec<String> = prelude_candidates(&path("a.b")).iter().map(|p| p.to_string()).collect();
    assert_eq!(preludes, vec!["a.prelude", "prelude"]);
    let deep: Vec<String> = prelude_candidates(&path("pkg1.pkg2.mymod")).iter().map(|p| p.to_string()).collect();
    assert_eq!(deep, vec!["pkg1.pkg2.prelude", "pkg1.prelude", "prelude"]);
    assert_eq!(prelude_candidates(&ModulePath(vec![])).len(), 1);
}

#[test]
fn unified_types_agree_and_stay_known() {
    let mut s = TypeStore::new();
    let a = s.new_unknown();
    let b = s.new_unknown();
    let n = s.new_known(Type::Int);
    let t = s.new_known(Type::Bool);
    s.unify(a, b).unwrap();
    assert_eq!(s.find_rep(a), s.find_rep(b));
    s.unify(b, n).unwrap();
    assert_eq!(s.resolve(a).unwrap(), Type::Int);
    s.bind_if_unbound(a, Type::Bool);
    assert_eq!(s.resolve(a).unwrap(), Type::Int);
    assert_eq!(s.unify(a, t).unwrap_err().to_string().contains("int vs bool"), true);
    assert_eq!(s.resolve(t).unwrap(), Type::Bool);
    assert!(s.unify(a, TypeId(99)).is_err());
    s.register_typedef("Count".to_string(), Type::Int);
    let c = s.new_known(Type::Named("Count".to_string()));
    s.unify(c, n).unwrap();
}

#[test]
fn inner_scopes_hide_outer_ones() {
    let mut t = SymbolTable::new();
    t.define_var("x", TypeId(1));
    t.push_scope();
    t.define_var("x", TypeId(2));
    assert_eq!(t.lookup_var("x"), Some(TypeId(2)));
    t.pop_scope();
    assert_eq!(t.lookup_var("x"), Some(TypeId(1)));
    assert_eq!(t.lookup_var("y"), None);
}

#[test]
fn tuples_are_declared_as_structs() {
    let d = declaration_of(&Type::Tuple(vec![Type::Int, Type::Bool])).unwrap();
    assert!(d.starts_with("typedef struct {\n    int _0;\n    bool _1;\n} KitTuple_"), "{d}");
    assert!(declaration_of(&Type::Int).is_none());
}

#[test]
fn whole_program_fits_in_one_file() {
    let parsed = parse_kit_file(
        "src/app.kit",
        "function same[T](x: T): T { return x; }\nvar g: Int = 1;\nfunction f(): Bool { var t = (1, true); return t[1]; }\n",
    );
    let mut program = match parsed {
        Ok(p) => p.program,
        Err(e) => panic!("{}", e.to_string()),
    };
    let mut inferencer = TypeInferencer::new();
    assert!(inferencer.infer_program(&mut program).is_ok());
    let registry = ModuleRegistry::new();
    let floats = vec![];
    let ctx = CodegenCtx {
        inferencer: &inferencer,
        registry: &registry,
        current_module: ModulePath(vec![]),
        floats: &floats,
    };
    let c = ctx.generate_flat_c_code(&program);
    assert!(c.starts_with("#include <stdbool.h>\n"), "{c}");
    assert!(c.contains("typedef struct {\n    int _0;\n    bool _1;\n} KitTuple_"), "{c}");
    assert!(c.contains("int g = 1;\n"), "{c}");
    assert!(c.contains("return t._1;"), "{c}");
    assert!(!c.contains("same"), "{c}");
}

#[test]
fn graph_knows_both_directions() {
    let mut g = DependencyGraph::new();
    for p in ["a", "b", "c"] {
        g.add_node(ModuleNode::new(path(p), format!("src/{p}.kit")));
    }
    g.add_edge(path("a"), path("b"), ImportType::Single);
    g.add_edge(path("b"), path("c"), ImportType::Single);
    assert!(g.contains_node(&path("a")) && !g.contains_node(&path("d")));
    assert_eq!(g.get_source_path(&path("b")).unwrap(), "src/b.kit");
    assert_eq!(g.dependencies_of(&path("a"))[0].to_string(), "b");
    assert_eq!(g.dependents_of(&path("c"))[0].to_string(), "b");
    assert!(g.is_leaf_module(&path("c")) && !g.is_leaf_module(&path("a")));
    assert_eq!(g.all_paths().len(), 3);
    let order: Vec<String> = g.topological_sort().unwrap().iter().map(|p| p.to_string()).collect();
    assert_eq!(order, vec!["c", "b", "a"]);
    assert!(g.detect_cycles().is_empty());
    g.add_edge(path("c"), path("a"), ImportType::Single);
    assert!(g.topological_sort().is_err());
    assert_eq!(g.detect_cycles().len(), 1);
    g.add_edge(path("a"), path("c"), ImportType::Wildcard);
    g.add_edge(path("a"), path("c"), ImportType::Single);
    let mut loops: Vec<Vec<String>> =
        g.detect_cycles().iter().map(|c| c.iter().map(|p| p.to_string()).collect()).collect();
    loops.sort();
    assert_eq!(loops, vec![vec!["a", "b", "c"], vec!["a", "c"]]);
}

#[test]
fn merged_declarations_hold_both() {
    let mut a = parse_c_header("int f(int x);").unwrap();
    a.merge(parse_c_header("double g(void); int f(int x);").unwrap());
    assert_eq!(a.functions.len(), 3);
    assert_eq!(a.lookup_functions("f").len(), 2);
    assert!(a.functions[1].return_type.is_floating());
    assert!(!a.functions[0].return_type.is_floating());
}

#[test]
fn header_enums_are_taken() {
    let d = parse_c_header("enum Color { RED, GREEN };").unwrap();
    assert_eq!(d.enums.len(), 1);
    assert_eq!(d.enums[0].name, "Color");
    let names: Vec<&str> = d.enums[0].variants.iter().map(|v| v.name.as_str()).collect();
    assert_eq!(names, vec!["RED", "GREEN"]);
    let d = parse_c_header(
        "typedef enum { A = 1, B = -2, C = 0x10, D = 010, E = 7UL, F = A + 1, G } Kind;\n\
         typedef enum Tag { X } Alias;\nenum Late { L } late;\nenum Late again;\nenum { LOOSE };",
    )
    .unwrap();
    let enums: Vec<&str> = d.enums.iter().map(|e| e.name.as_str()).collect();
    assert_eq!(enums, vec!["Kind", "Tag", "Late"]);
    let values: Vec<Option<i64>> = d.enums[0].variants.iter().map(|v| v.value).collect();
    assert_eq!(values, vec![Some(1), Some(-2), Some(16), Some(8), Some(7), None, None]);
    assert_eq!(d.globals.len(), 2);
}

#[test]
fn header_structs_and_unions_are_taken() {
    let d = parse_c_header("struct P { int x; int y; };\nunion U { int i; float f; };\nstruct P;").unwrap();
    assert_eq!(d.structs.len(), 1);
    assert_eq!(d.structs[0].name, "P");
    assert_eq!(d.structs[0].fields.len(), 2);
    assert_eq!(d.unions.len(), 1);
    assert_eq!(d.unions[0].name, "U");
}

#[test]
fn tokens_know_their_place() {
    let ts = tokenize(" ab + 12").unwrap();
    let places: Vec<(usize, usize)> = ts.iter().map(|t| (t.start, t.end)).collect();
    assert_eq!(places, vec![(1, 3), (4, 5), (6, 8)]);
}

#[test]
fn integer_errors_are_worded_as_std_words_them() {
    let texts = [
        "", "-", "+", "x", "12x", "+-1", "--1", "9223372036854775808", "+9223372036854775808",
        "-9223372036854775809", "99999999999999999999x", "-99999999999999999999x", "9223372036854775807x",
        "00000000000000000000x", "1\u{663}", "1 ", " 1",
    ];
    for text in texts {
        let leaf = |rule: Rule, text: &str, children: Vec<SyntaxNode>| SyntaxNode {
            rule,
            text: text.to_string(),
            start: 0,
            end: 0,
            line: 1,
            column: 1,
            children,
        };
        let number = leaf(Rule::Number, "n", vec![leaf(Rule::Integer, text, vec![])]);
        let expected = format!("invalid integer literal '{text}': {:?}", text.parse::<i64>().unwrap_err());
        match parse_expr(&Parser::new(), &leaf(Rule::Literal, "n", vec![number])) {
            Err(CompilationError::ParseError(m)) => assert_eq!(m, expected),
            _ => panic!("expected an error"),
        }
    }
}

#[test]
fn number_errors_give_the_reason() {
    let leaf = |rule: Rule, text: &str, children: Vec<SyntaxNode>| SyntaxNode {
        rule,
        text: text.to_string(),
        start: 0,
        end: 0,
        line: 1,
        column: 1,
        children,
    };
    let n = leaf(Rule::Literal, "x", vec![leaf(Rule::Number, "x", vec![leaf(Rule::Integer, "12x", vec![])])]);
    match parse_expr(&Parser::new(), &n) {
        Err(CompilationError::ParseError(m)) => {
            assert_eq!(m, "invalid integer literal '12x': ParseIntError { kind: InvalidDigit }");
        }
        _ => panic!("expected an error"),
    }
    let n = leaf(Rule::Literal, "x", vec![leaf(Rule::Number, "x", vec![leaf(Rule::Float, "1.x", vec![])])]);
    match parse_expr(&Parser::new(), &n) {
        Err(CompilationError::ParseError(m)) => {
            assert_eq!(m, "invalid float literal '1.x': ParseFloatError { kind: Invalid }");
        }
        _ => panic!("expected an error"),
    }
}

#[test]
fn variants_are_found_by_both_names() {
    let mut t = SymbolTable::new();
    for (parent, name) in [("Color", "Red"), ("Fruit", "Apple"), ("Paint", "Red")] {
        t.define_enum_variant(&EnumVariant {
            name: name.to_string(),
            parent: parent.to_string(),
            args: vec![],
            default: None,
            metadata: vec![],
        });
    }
    let found = t.lookup_enum_variant_by_simple_name("Red").unwrap();
    assert_eq!(found.variant_name, "Red");
    assert_eq!(t.lookup_variant(&found.enum_name, "Red").unwrap().enum_name, found.enum_name);
    assert!(t.lookup_enum_variant_by_simple_name("Blue").is_none());
}
