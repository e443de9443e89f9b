use kitlang::c_parse::{extract_from_preprocessed, parse_c_header};
use kitlang::ctypes::{CQualifier, CType};


#[test]
fn test_extract_simple_function() {
    let source = "int add(int a, int b);";
    let decls = extract_from_preprocessed(source).unwrap();
    assert_eq!(decls.functions.len(), 1);
    assert_eq!(decls.functions[0].name, "add");
    assert_eq!(decls.functions[0].params.len(), 2);
    assert_eq!(decls.functions[0].return_type, CType::Int);
}

#[test]
fn test_extract_void_function() {
    let source = "void greet(const char *name);";
    let decls = extract_from_preprocessed(source).unwrap();
    assert_eq!(decls.functions.len(), 1);
    assert_eq!(decls.functions[0].name, "greet");
    assert_eq!(decls.functions[0].return_type, CType::Void);
    assert_eq!(decls.functions[0].params.len(), 1);
}

#[test]
fn test_extract_variadic_function() {
    let source = "int printf(const char *format, ...);";
    let decls = extract_from_preprocessed(source).unwrap();
    assert_eq!(decls.functions.len(), 1);
    assert_eq!(decls.functions[0].name, "printf");
    assert!(decls.functions[0].is_variadic);
}

#[test]
fn test_extract_typedef() {
    let source = "typedef unsigned long size_t;";
    let decls = extract_from_preprocessed(source).unwrap();
    assert_eq!(decls.typedefs.len(), 1);
    assert_eq!(decls.typedefs[0].name, "size_t");
}

#[test]
fn test_extract_empty_header() {
    let source = "/* just a comment */";
    let decls = extract_from_preprocessed(source).unwrap();
    assert!(decls.is_empty());
}

#[test]
fn test_pointer_return_type() {
    let source = "void *malloc(size_t size);";
    let decls = extract_from_preprocessed(source).unwrap();
    assert_eq!(decls.functions.len(), 1);
    assert_eq!(decls.functions[0].name, "malloc");
    match &decls.functions[0].return_type {
        CType::Ptr(inner, _) => assert_eq!(**inner, CType::Void),
        other => panic!("Expected pointer to void, got {other:?}"),
    }
}

#[test]
fn test_const_char_ptr() {
    let source = "const char *greeting(void);";
    let decls = extract_from_preprocessed(source).unwrap();
    assert_eq!(decls.functions.len(), 1);
    assert_eq!(decls.functions[0].name, "greeting");
    match &decls.functions[0].return_type {
        CType::Ptr(inner, qualifiers) => {
            assert_eq!(**inner, CType::Char);
            assert!(qualifiers.contains(&CQualifier::Const));
        }
        other => panic!("Expected const char pointer, got {other:?}"),
    }
}


#[test]
/// **Regression test** (tree-sitter-c).
///
/// An `abstract_pointer_declarator` for an unnamed pointer parameter (e.g. `int puts(const char *)`).
///
/// Previously, the `*` was silently ignored, returning `Char` instead of `Ptr(Char, [Const])`,
/// which broke `CString` handling on platforms where their headers omit param names (i.e., `stdio.h`
/// on macOS).
fn test_unnamed_pointer_parameter_is_not_dropped() {
    let src = "int puts(const char *); \
    char *gets(char *); \
    int fopen(const char *__filename, const char *__mode);";

    let decls = parse_c_header(src).unwrap();

    let puts = decls.functions.iter().find(|f| f.name == "puts").unwrap();
    assert_eq!(puts.params.len(), 1);
    assert_eq!(
        puts.params[0].ty,
        CType::Ptr(Box::new(CType::Char), vec![CQualifier::Const])
    );

    let gets = decls.functions.iter().find(|f| f.name == "gets").unwrap();
    assert_eq!(gets.params.len(), 1);
    assert_eq!(gets.params[0].ty, CType::Ptr(Box::new(CType::Char), vec![]));

    let fopen = decls.functions.iter().find(|f| f.name == "fopen").unwrap();
    assert_eq!(
        fopen.params[0].ty,
        CType::Ptr(Box::new(CType::Char), vec![CQualifier::Const])
    );
    assert_eq!(
        fopen.params[1].ty,
        CType::Ptr(Box::new(CType::Char), vec![CQualifier::Const])
    );
}
