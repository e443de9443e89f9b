//! Module paths and imports.
use crate::text;
use vstd::prelude::*;

verus! {

/// A module path, such as `pkg.utils`.
#[derive(Debug, PartialEq, Eq, Hash)]
pub struct ModulePath(pub Vec<String>);

impl View for ModulePath {
    type V = Seq<Seq<char>>;

    open spec fn view(&self) -> Seq<Seq<char>> {
        text::texts(self.0@)
    }
}

/// The text in which a module path is shown: its components with dots between them.
pub open spec fn path_text(p: Seq<Seq<char>>) -> Seq<char> {
    text::joined(p, "."@)
}

/// The contents of a list of module paths.
pub open spec fn paths_v(ps: Seq<ModulePath>) -> Seq<Seq<Seq<char>>> {
    ps.map_values(|p: ModulePath| p@)
}

/// Copies a module path.
pub fn copy_path(p: &ModulePath) -> (r: ModulePath)
    ensures
        r@ == p@,
{
    let parts = text::copy_texts(&p.0, p.0.len());
    proof {
        assert(p@.take(p@.len() as int) =~= p@);
    }
    ModulePath(parts)
}

impl Clone for ModulePath {
    fn clone(&self) -> (r: Self)
        ensures
            r@ == self@,
    {
        copy_path(self)
    }
}

impl Default for ModulePath {
    fn default() -> (r: Self)
        ensures
            r@.len() == 0,
    {
        ModulePath::new()
    }
}

impl ModulePath {
    /// An empty path.
    pub fn new() -> (r: Self)
        ensures
            r@ == Seq::<Seq<char>>::empty(),
    {
        let r = ModulePath(Vec::new());
        proof {
            assert(r@ =~= Seq::<Seq<char>>::empty());
        }
        r
    }

    /// A path made of the given components.
    pub fn from_parts(parts: &[&str]) -> (r: Self)
        ensures
            r@ == parts@.map_values(|s: &str| s@),
    {
        let mut out: Vec<String> = Vec::new();
        let mut i: usize = 0;
        while i < parts.len()
            invariant
                i <= parts@.len(),
                text::texts(out@) =~= parts@.map_values(|s: &str| s@).take(i as int),
            decreases parts@.len() - i,
        {
            let c = parts[i].to_owned();
            proof {
                let all = parts@.map_values(|s: &str| s@);
                assert(all.take(i + 1) =~= all.take(i as int).push(c@));
                assert(text::texts(out@.push(c)) =~= text::texts(out@).push(c@));
            }
            out.push(c);
            i = i + 1;
        }
        proof {
            let all = parts@.map_values(|s: &str| s@);
            assert(all.take(parts@.len() as int) =~= all);
        }
        ModulePath(out)
    }

    /// Whether the path has no components.
    pub fn is_empty(&self) -> (r: bool)
        ensures
            r == (self@.len() == 0),
    {
        self.0.len() == 0
    }

    /// The components joined with a separator.
    pub fn join(&self, sep: &str) -> (r: String)
        ensures
            r@ == text::joined(self@, sep@),
    {
        text::join(&self.0, sep)
    }

    /// The text in which the path is shown.
    pub fn to_string(&self) -> (r: String)
        ensures
            r@ == path_text(self@),
    {
        self.join(".")
    }

    /// Appends one component.
    pub fn push(&mut self, part: String)
        ensures
            final(self)@ == old(self)@.push(part@),
    {
        proof {
            assert(text::texts(self.0@.push(part)) =~= text::texts(self.0@).push(part@));
        }
        self.0.push(part);
    }

    /// The components.
    pub fn as_slice(&self) -> (r: &[String])
        ensures
            text::texts(r@) == self@,
    {
        self.0.as_slice()
    }

    /// All components except the last; empty where there is at most one.
    pub fn parent(&self) -> (r: Self)
        ensures
            r@ == if self@.len() <= 1 { Seq::<Seq<char>>::empty() } else { self@.drop_last() },
    {
        if self.0.len() <= 1 {
            ModulePath::new()
        } else {
            let parts = text::copy_texts(&self.0, self.0.len() - 1);
            proof {
                assert(self@.take(self@.len() - 1) =~= self@.drop_last());
            }
            ModulePath(parts)
        }
    }

    /// Whether the path begins with the components of `other`.
    pub fn starts_with(&self, other: &Self) -> (r: bool)
        ensures
            r == other@.is_prefix_of(self@),
    {
        if other.0.len() > self.0.len() {
            return false;
        }
        let mut i: usize = 0;
        while i < other.0.len()
            invariant
                i <= other.0@.len() <= self.0@.len(),
                forall|j: int| 0 <= j < i ==> self.0@[j]@ == other.0@[j]@,
            decreases other.0@.len() - i,
        {
            if !(self.0[i] == other.0[i]) {
                proof {
                    assert(self@.subrange(0, other@.len() as int)[i as int] != other@[i as int]);
                }
                return false;
            }
            i = i + 1;
        }
        proof {
            assert(other@ =~= self@.subrange(0, other@.len() as int));
        }
        true
    }

    /// Whether two paths have the same components.
    pub fn same(&self, other: &Self) -> (r: bool)
        ensures
            r == (self@ == other@),
    {
        text::texts_eq(&self.0, &other.0)
    }
}

/// A path is its parent and its last component.
pub proof fn law_parent_and_last(p: Seq<Seq<char>>)
    requires
        p.len() >= 2,
    ensures
        p.drop_last().push(p.last()) == p,
        p.drop_last().is_prefix_of(p),
{
    assert(p.drop_last().push(p.last()) =~= p);
    assert(p.drop_last() =~= p.subrange(0, p.len() - 1));
}

/// How much an import statement brings in.
#[derive(Clone, Copy, Debug, PartialEq, Eq, Hash, Structural)]
pub enum ImportType {
    Single,
    Wildcard,
    DoubleWildcard,
}

/// An import statement, with its byte range in the source where that is known.
#[derive(Debug, PartialEq, Eq, Hash)]
pub struct ModuleImport {
    pub path: ModulePath,
    pub import_type: ImportType,
    pub span: Option<(usize, usize)>,
}

/// The contents of an import statement.
pub struct ModuleImportV {
    pub path: Seq<Seq<char>>,
    pub import_type: ImportType,
    pub span: Option<(usize, usize)>,
}

/// The contents of an import statement.
pub open spec fn import_v(x: ModuleImport) -> ModuleImportV {
    ModuleImportV { path: x.path@, import_type: x.import_type, span: x.span }
}

impl View for ModuleImport {
    type V = ModuleImportV;

    open spec fn view(&self) -> ModuleImportV {
        import_v(*self)
    }
}

/// The contents of a list of import statements.
pub open spec fn imports_v(xs: Seq<ModuleImport>) -> Seq<ModuleImportV> {
    xs.map_values(|x: ModuleImport| import_v(x))
}

impl Clone for ModuleImport {
    fn clone(&self) -> (r: Self)
        ensures
            r@ == self@,
    {
        ModuleImport { path: copy_path(&self.path), import_type: self.import_type, span: self.span }
    }
}

impl ModuleImport {
    /// An import whose place in the source is not known.
    pub fn new(path: ModulePath, import_type: ImportType) -> (r: Self)
        ensures
            r@ == (ModuleImportV { path: path@, import_type, span: None }),
    {
        ModuleImport { path, import_type, span: None }
    }

    /// An import at a byte range of the source.
    pub fn with_span(path: ModulePath, import_type: ImportType, span: (usize, usize)) -> (r: Self)
        ensures
            r@ == (ModuleImportV { path: path@, import_type, span: Some(span) }),
    {
        ModuleImport { path, import_type, span: Some(span) }
    }
}

} // verus!
