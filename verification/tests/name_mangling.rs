use kitlang::module::ModulePath;
use kitlang::name_mangling::{mangle_enum_variant, mangle_name};


#[test]
fn test_mangle_empty_module() {
    let path = ModulePath::new();
    assert_eq!(mangle_name(&path, "foo"), "foo");
}

#[test]
fn test_mangle_single_module() {
    let path = ModulePath(vec!["utils".to_string()]);
    assert_eq!(mangle_name(&path, "foo"), "utils_foo");
}

#[test]
fn test_mangle_nested_module() {
    let path = ModulePath(vec!["pkg".to_string(), "util".to_string()]);
    assert_eq!(mangle_name(&path, "foo"), "pkg_util_foo");
}

#[test]
fn test_mangle_enum_variant() {
    let path = ModulePath(vec!["myapp".to_string()]);
    assert_eq!(
        mangle_enum_variant(&path, "Status", "Active"),
        "myapp_Status_Active"
    );
}
