use kitlang::ctypes::{CDeclarations, CFunction, CGlobalVar, CParam, CQualifier, CType, CTypedef};
use kitlang::engine::TypeInferencer;
use kitlang::ffi::{ctype_to_kit, register_declarations};
use kitlang::types::Type;

#[test]
fn test_ctype_to_kit_primitives() {
    let decls = CDeclarations::default();

    assert_eq!(ctype_to_kit(&CType::Void, &decls), Type::Void);
    assert_eq!(ctype_to_kit(&CType::Int, &decls), Type::Int);
    assert_eq!(ctype_to_kit(&CType::Char, &decls), Type::Char);
    assert_eq!(ctype_to_kit(&CType::Float, &decls), Type::Float);
    assert_eq!(ctype_to_kit(&CType::Double, &decls), Type::Float64);
    assert_eq!(ctype_to_kit(&CType::Bool, &decls), Type::Bool);
    assert_eq!(ctype_to_kit(&CType::Short, &decls), Type::Int16);
    assert_eq!(ctype_to_kit(&CType::Long, &decls), Type::Int64);
    assert_eq!(ctype_to_kit(&CType::SizeT, &decls), Type::Size);
}

#[test]
fn test_ctype_to_kit_pointer() {
    let decls = CDeclarations::default();

    let int_ptr = CType::Ptr(Box::new(CType::Int), vec![]);
    assert_eq!(
        ctype_to_kit(&int_ptr, &decls),
        Type::Ptr(Box::new(Type::Int))
    );

    let const_char_ptr = CType::Ptr(Box::new(CType::Char), vec![CQualifier::Const]);
    assert_eq!(ctype_to_kit(&const_char_ptr, &decls), Type::CString);

    let void_ptr = CType::Ptr(Box::new(CType::Void), vec![]);
    assert_eq!(
        ctype_to_kit(&void_ptr, &decls),
        Type::Ptr(Box::new(Type::Void))
    );
}

#[test]
fn test_ctype_to_kit_array() {
    let decls = CDeclarations::default();

    let arr = CType::Array {
        element_type: Box::new(CType::Int),
        size: Some(10),
    };
    assert_eq!(
        ctype_to_kit(&arr, &decls),
        Type::CArray(Box::new(Type::Int), 10)
    );

    let unsized_arr = CType::Array {
        element_type: Box::new(CType::Char),
        size: None,
    };
    assert_eq!(
        ctype_to_kit(&unsized_arr, &decls),
        Type::CArray(Box::new(Type::Char), 0)
    );
}

#[test]
fn test_ctype_to_kit_named() {
    let decls = CDeclarations::default();

    let named = CType::Named("MyStruct".to_string());
    assert_eq!(
        ctype_to_kit(&named, &decls),
        Type::Named("MyStruct".to_string())
    );

    let file = CType::Named("FILE".to_string());
    assert_eq!(ctype_to_kit(&file, &decls), Type::Ptr(Box::new(Type::Void)));
}

#[test]
fn test_register_function_declarations() {
    let mut inferencer = TypeInferencer::new();
    let mut decls = CDeclarations::default();

    decls.functions.push(CFunction {
        name: "my_func".to_string(),
        return_type: CType::Int,
        params: vec![CParam {
            name: Some("x".to_string()),
            ty: CType::Int,
        }],
        is_variadic: false,
    });

    let result = register_declarations(decls, &mut inferencer);
    assert!(result.is_ok());

    let sig = inferencer.symbols().lookup_function("my_func");
    assert!(
        sig.is_some(),
        "Function should be registered in symbol table"
    );
}

#[test]
fn test_register_typedefs() {
    let mut inferencer = TypeInferencer::new();
    let mut decls = CDeclarations::default();

    decls.typedefs.push(CTypedef {
        name: "myint".to_string(),
        underlying: CType::Int,
    });

    let result = register_declarations(decls, &mut inferencer);
    assert!(result.is_ok());

    assert_eq!(inferencer.store.typedefs().len(), 1);
    assert_eq!(inferencer.store.typedefs().name_at(0), "myint");
}

#[test]
fn test_register_globals() {
    let mut inferencer = TypeInferencer::new();
    let mut decls = CDeclarations::default();

    decls.globals.push(CGlobalVar {
        name: "global_x".to_string(),
        ty: CType::Int,
        is_const: false,
    });

    let result = register_declarations(decls, &mut inferencer);
    assert!(result.is_ok());

    let ty = inferencer.symbols().lookup_global("global_x");
    assert!(ty.is_some(), "Global should be registered in symbol table");
}
