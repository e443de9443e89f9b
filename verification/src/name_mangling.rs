//! Names of Kit declarations in generated C.
use crate::module::ModulePath;
use crate::text;
use vstd::prelude::*;

verus! {

/// The C name of the declaration `name` of the module `path`: the path's components and the
/// name with underscores between them; the bare name where the path is empty.
pub open spec fn mangled(path: Seq<Seq<char>>, name: Seq<char>) -> Seq<char> {
    if path.len() == 0 {
        name
    } else {
        text::joined(path, "_"@) + "_"@ + name
    }
}

/// The mangled name is the path with the name appended, joined with underscores.
pub proof fn law_mangled_is_joined_path(path: Seq<Seq<char>>, name: Seq<char>)
    ensures
        mangled(path, name) == text::joined(path.push(name), "_"@),
{
    assert(path.push(name).drop_last() =~= path);
}

/// Within one module, different names have different C names.
pub proof fn law_mangling_is_injective(path: Seq<Seq<char>>, a: Seq<char>, b: Seq<char>)
    requires
        mangled(path, a) == mangled(path, b),
    ensures
        a == b,
{
    if path.len() > 0 {
        let head = text::joined(path, "_"@) + "_"@;
        assert(a =~= (head + a).subrange(head.len() as int, (head + a).len() as int));
        assert(b =~= (head + b).subrange(head.len() as int, (head + b).len() as int));
    }
}

/// Mangles a declaration name.
pub fn mangle_name(module: &ModulePath, name: &str) -> (r: String)
    ensures
        r@ == mangled(module@, name@),
{
    if module.is_empty() {
        name.to_owned()
    } else {
        module.join("_").concat("_").concat(name)
    }
}

/// Mangles a function name.
pub fn mangle_function(module: &ModulePath, name: &str) -> (r: String)
    ensures
        r@ == mangled(module@, name@),
{
    mangle_name(module, name)
}

/// Mangles the name of a global variable.
pub fn mangle_global(module: &ModulePath, name: &str) -> (r: String)
    ensures
        r@ == mangled(module@, name@),
{
    mangle_name(module, name)
}

/// Mangles a type name.
pub fn mangle_type(module: &ModulePath, name: &str) -> (r: String)
    ensures
        r@ == mangled(module@, name@),
{
    mangle_name(module, name)
}

/// Mangles the name of an enum variant: the enum's name and the variant's, with an underscore.
pub fn mangle_enum_variant(module: &ModulePath, enum_name: &str, variant_name: &str) -> (r: String)
    ensures
        r@ == mangled(module@, enum_name@ + "_"@ + variant_name@),
{
    let full = enum_name.to_owned().concat("_").concat(variant_name);
    mangle_name(module, full.as_str())
}

} // verus!
