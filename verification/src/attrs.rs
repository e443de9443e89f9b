//! Metadata attributes of declarations.
use crate::decl::{metadatas_v, EnumDefinition, EnumVariant, Function, GlobalDecl, Metadata, MetadataV,
    StructDefinition};
use crate::module::{copy_path, ModulePath};
use crate::name_mangling::mangled;
use crate::text;
use vstd::prelude::*;

verus! {

/// Whether an attribute of the given name is present.
pub open spec fn names_meta(ms: Seq<MetadataV>, name: Seq<char>) -> bool {
    exists|i: int| 0 <= i < ms.len() && (#[trigger] ms[i]).name == name
}

/// Whether the C name of a declaration is its plain name.
pub open spec fn unmangled(ms: Seq<MetadataV>) -> bool {
    names_meta(ms, "extern"@) || names_meta(ms, "expose"@)
}

impl Metadata {
    /// Whether this attribute has the given name.
    pub fn has_name(&self, name: &str) -> (r: bool)
        ensures
            r == (self@.name == name@),
    {
        text::text_eq(self.name.as_str(), name)
    }
}

/// Whether an attribute of the given name is present.
pub fn has_meta(metadata: &Vec<Metadata>, name: &str) -> (r: bool)
    ensures
        r == names_meta(metadatas_v(metadata@), name@),
{
    let mut i: usize = 0;
    while i < metadata.len()
        invariant
            i <= metadata@.len(),
            forall|j: int| 0 <= j < i ==> (#[trigger] metadatas_v(metadata@)[j]).name != name@,
        decreases metadata@.len() - i,
    {
        assert(metadatas_v(metadata@)[i as int] == metadata@[i as int]@);
        if metadata[i].has_name(name) {
            return true;
        }
        i = i + 1;
    }
    false
}

/// Whether the C name of a declaration with these attributes is its plain name.
pub fn has_no_mangle(metadata: &Vec<Metadata>) -> (r: bool)
    ensures
        r == unmangled(metadatas_v(metadata@)),
{
    has_meta(metadata, "extern") || has_meta(metadata, "expose")
}

/// Whether a declaration with these attributes keeps its plain name in C.
pub fn is_unmangled(metadata: &Vec<Metadata>) -> (r: bool)
    ensures
        r == unmangled(metadatas_v(metadata@)),
{
    has_no_mangle(metadata)
}

/// The module under whose name a declaration of `current` is mangled.
pub open spec fn mangled_under(ms: Seq<MetadataV>, current: Seq<Seq<char>>) -> Seq<Seq<char>> {
    if unmangled(ms) {
        Seq::empty()
    } else {
        current
    }
}

/// An unmangled declaration has its plain name in C, whatever its module; any other one has its
/// module's name in front.
pub proof fn law_attributes_decide_c_name(ms: Seq<MetadataV>, current: Seq<Seq<char>>, name: Seq<char>)
    ensures
        unmangled(ms) ==> mangled(mangled_under(ms, current), name) == name,
        !unmangled(ms) ==> mangled(mangled_under(ms, current), name) == mangled(current, name),
{
}

/// A declaration with metadata attributes.
pub trait Attributed {
    /// The attributes.
    spec fn attributes(&self) -> Seq<MetadataV>;

    /// The attributes.
    fn metadata(&self) -> (r: &Vec<Metadata>)
        ensures
            metadatas_v(r@) == self.attributes(),
    ;

    /// Whether the C name is the plain name.
    fn has_no_mangle(&self) -> (r: bool)
        ensures
            r == unmangled(self.attributes()),
    {
        has_no_mangle(self.metadata())
    }

    /// Whether the C name is the plain name.
    fn is_unmangled(&self) -> (r: bool)
        ensures
            r == unmangled(self.attributes()),
    {
        has_no_mangle(self.metadata())
    }

    /// Whether the declaration is defined outside Kit.
    fn is_extern(&self) -> (r: bool)
        ensures
            r == names_meta(self.attributes(), "extern"@),
    {
        has_meta(self.metadata(), "extern")
    }

    /// The module under whose name the declaration is mangled.
    fn mangling_module(&self, current_module: &ModulePath) -> (r: ModulePath)
        ensures
            r@ == mangled_under(self.attributes(), current_module@),
    {
        if has_no_mangle(self.metadata()) {
            ModulePath::new()
        } else {
            copy_path(current_module)
        }
    }
}

impl Attributed for Function {
    open spec fn attributes(&self) -> Seq<MetadataV> {
        self@.metadata
    }

    fn metadata(&self) -> (r: &Vec<Metadata>) {
        &self.metadata
    }
}

impl Attributed for GlobalDecl {
    open spec fn attributes(&self) -> Seq<MetadataV> {
        self@.metadata
    }

    fn metadata(&self) -> (r: &Vec<Metadata>) {
        &self.metadata
    }
}

impl Attributed for StructDefinition {
    open spec fn attributes(&self) -> Seq<MetadataV> {
        self@.metadata
    }

    fn metadata(&self) -> (r: &Vec<Metadata>) {
        &self.metadata
    }
}

impl Attributed for EnumDefinition {
    open spec fn attributes(&self) -> Seq<MetadataV> {
        self@.metadata
    }

    fn metadata(&self) -> (r: &Vec<Metadata>) {
        &self.metadata
    }
}

impl Attributed for EnumVariant {
    open spec fn attributes(&self) -> Seq<MetadataV> {
        self@.metadata
    }

    fn metadata(&self) -> (r: &Vec<Metadata>) {
        &self.metadata
    }
}

} // verus!
