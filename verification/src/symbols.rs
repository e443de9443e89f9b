//! The symbol table of type inference.
use crate::decl::{enum_definition_v, struct_definition_v, EnumDefinition, EnumDefinitionV, EnumVariant,
    EnumVariantV, FieldV, StructDefinition, StructDefinitionV};
use crate::table::{with_name, Table};
use crate::text;
use crate::types::TypeId;
use vstd::prelude::*;

verus! {

/// What is known of an enum variant.
#[derive(Debug)]
pub struct EnumVariantInfo {
    pub enum_name: String,
    pub variant_name: String,
    pub arg_types: Vec<TypeId>,
    pub has_defaults: bool,
}

/// The contents of what is known of an enum variant.
pub struct EnumVariantInfoV {
    pub enum_name: Seq<char>,
    pub variant_name: Seq<char>,
    pub arg_types: Seq<TypeId>,
    pub has_defaults: bool,
}

/// The contents of what is known of an enum variant.
pub open spec fn info_v(x: EnumVariantInfo) -> EnumVariantInfoV {
    EnumVariantInfoV {
        enum_name: x.enum_name@,
        variant_name: x.variant_name@,
        arg_types: x.arg_types@,
        has_defaults: x.has_defaults,
    }
}

impl View for EnumVariantInfo {
    type V = EnumVariantInfoV;

    open spec fn view(&self) -> EnumVariantInfoV {
        info_v(*self)
    }
}

/// Copies a list of type indices.
pub fn copy_ids(xs: &Vec<TypeId>) -> (r: Vec<TypeId>)
    ensures
        r@ == xs@,
{
    let mut out: Vec<TypeId> = Vec::new();
    let mut i: usize = 0;
    while i < xs.len()
        invariant
            i <= xs@.len(),
            out@ =~= xs@.take(i as int),
        decreases xs@.len() - i,
    {
        out.push(xs[i]);
        i = i + 1;
    }
    out
}

impl Clone for EnumVariantInfo {
    fn clone(&self) -> (r: Self)
        ensures
            r@ == self@,
    {
        EnumVariantInfo {
            enum_name: self.enum_name.clone(),
            variant_name: self.variant_name.clone(),
            arg_types: copy_ids(&self.arg_types),
            has_defaults: self.has_defaults,
        }
    }
}

/// The symbol table: globals, a stack of scopes of local variables, functions, structs, enums and
/// enum variants.
#[derive(Debug)]
pub struct SymbolTable {
    globals: Table<TypeId>,
    vars: Vec<Table<TypeId>>,
    functions: Table<(Vec<TypeId>, TypeId)>,
    structs: Table<StructDefinition>,
    enums: Table<EnumDefinition>,
    enum_variants: Table<EnumVariantInfo>,
}

/// The contents of a symbol table.
pub struct SymbolsV {
    pub globals: Map<Seq<char>, TypeId>,
    pub vars: Seq<Map<Seq<char>, TypeId>>,
    pub functions: Map<Seq<char>, (Seq<TypeId>, TypeId)>,
    pub structs: Map<Seq<char>, StructDefinitionV>,
    pub enums: Map<Seq<char>, EnumDefinitionV>,
    pub enum_variants: Map<Seq<char>, EnumVariantInfoV>,
    /// The names of the enums, in the order in which they were defined first.
    pub enum_names: Seq<Seq<char>>,
    /// The qualified names of the enum variants, in the order in which they were defined first.
    pub variant_names: Seq<Seq<char>>,
}

/// The contents of a stack of scopes.
pub open spec fn scopes_v(vs: Seq<Table<TypeId>>) -> Seq<Map<Seq<char>, TypeId>> {
    vs.map_values(|t: Table<TypeId>| t.map())
}

/// The contents of a table of function signatures.
pub open spec fn signatures_v(m: Map<Seq<char>, (Vec<TypeId>, TypeId)>) -> Map<Seq<char>, (Seq<TypeId>, TypeId)> {
    m.map_values(|s: (Vec<TypeId>, TypeId)| (s.0@, s.1))
}

/// The contents of a table of structs.
pub open spec fn struct_map_v(m: Map<Seq<char>, StructDefinition>) -> Map<Seq<char>, StructDefinitionV> {
    m.map_values(|s: StructDefinition| struct_definition_v(s))
}

/// The contents of a table of enums.
pub open spec fn enum_map_v(m: Map<Seq<char>, EnumDefinition>) -> Map<Seq<char>, EnumDefinitionV> {
    m.map_values(|s: EnumDefinition| enum_definition_v(s))
}

/// The contents of a table of enum variants.
pub open spec fn info_map_v(m: Map<Seq<char>, EnumVariantInfo>) -> Map<Seq<char>, EnumVariantInfoV> {
    m.map_values(|s: EnumVariantInfo| info_v(s))
}

impl View for SymbolTable {
    type V = SymbolsV;

    closed spec fn view(&self) -> SymbolsV {
        SymbolsV {
            globals: self.globals.map(),
            vars: scopes_v(self.vars@),
            functions: signatures_v(self.functions.map()),
            structs: struct_map_v(self.structs.map()),
            enums: enum_map_v(self.enums.map()),
            enum_variants: info_map_v(self.enum_variants.map()),
            enum_names: self.enums.names(),
            variant_names: self.enum_variants.names(),
        }
    }
}

/// A symbol table with nothing in it but an empty outermost scope.
pub open spec fn no_symbols() -> SymbolsV {
    SymbolsV {
        globals: Map::empty(),
        vars: seq![Map::empty()],
        functions: Map::empty(),
        structs: Map::empty(),
        enums: Map::empty(),
        enum_variants: Map::empty(),
        enum_names: Seq::empty(),
        variant_names: Seq::empty(),
    }
}

/// The type of the variable `name`: that of the innermost scope that has it.
pub open spec fn var_in(scopes: Seq<Map<Seq<char>, TypeId>>, name: Seq<char>) -> Option<TypeId>
    decreases scopes.len(),
{
    if scopes.len() == 0 {
        None
    } else if scopes.last().contains_key(name) {
        Some(scopes.last()[name])
    } else {
        var_in(scopes.drop_last(), name)
    }
}

/// The scopes with a variable defined in the innermost one; unchanged where there is no scope.
pub open spec fn with_var(scopes: Seq<Map<Seq<char>, TypeId>>, name: Seq<char>, ty: TypeId) -> Seq<
    Map<Seq<char>, TypeId>,
> {
    if scopes.len() == 0 {
        scopes
    } else {
        scopes.update(scopes.len() - 1, scopes.last().insert(name, ty))
    }
}

/// The value of a key, if it has one.
pub open spec fn get_in<V>(m: Map<Seq<char>, V>, k: Seq<char>) -> Option<V> {
    if m.contains_key(k) {
        Some(m[k])
    } else {
        None
    }
}

/// The name under which an enum variant is known.
pub open spec fn qualified(parent: Seq<char>, name: Seq<char>) -> Seq<char> {
    parent + "."@ + name
}

/// The type indices of a list of fields.
pub open spec fn field_ids(fs: Seq<FieldV>) -> Seq<TypeId> {
    fs.map_values(|f: FieldV| f.ty)
}

/// Whether some field has a default value.
pub open spec fn some_default(fs: Seq<FieldV>) -> bool {
    exists|i: int| 0 <= i < fs.len() && (#[trigger] fs[i]).default is Some
}

/// What is known of an enum variant from its definition.
pub open spec fn info_of(v: EnumVariantV) -> EnumVariantInfoV {
    EnumVariantInfoV {
        enum_name: v.parent,
        variant_name: v.name,
        arg_types: field_ids(v.args),
        has_defaults: some_default(v.args),
    }
}

/// Whether each enum variant is known under its qualified name, and the list of these names is
/// complete.
pub open spec fn variants_fit(s: SymbolsV) -> bool {
    known_by_name(s.enum_variants, s.variant_names)
}

/// Whether the keys are the listed names, and each is the qualified name of its variant.
pub open spec fn known_by_name(m: Map<Seq<char>, EnumVariantInfoV>, names: Seq<Seq<char>>) -> bool {
    &&& forall|k: Seq<char>| #[trigger] m.contains_key(k) ==> qualified(m[k].enum_name, m[k].variant_name) == k
    &&& forall|k: Seq<char>| #[trigger] m.contains_key(k) <==> names.contains(k)
}

/// Whether the look-up of an enum variant by its simple name agrees with that by its qualified
/// name: what it finds has the name and is found under its enum, too; and it finds nothing only
/// where no enum has a variant of that name.
pub open spec fn simple_name_agrees(s: SymbolsV, name: Seq<char>) -> bool {
    match by_simple_name(s, name, 0) {
        Some(v) => v.variant_name == name && get_in(s.enum_variants, qualified(v.enum_name, name)) == Some(v),
        None => forall|e: Seq<char>|
            (#[trigger] get_in(s.enum_variants, qualified(e, name))) matches Some(v) ==> v.variant_name != name,
    }
}

/// The symbols with an enum variant defined.
pub open spec fn with_variant(s: SymbolsV, v: EnumVariantV) -> SymbolsV {
    let k = qualified(v.parent, v.name);
    SymbolsV {
        enum_variants: s.enum_variants.insert(k, info_of(v)),
        variant_names: with_name(s.variant_names, s.enum_variants.contains_key(k), k),
        ..s
    }
}

/// In a new symbol table, and after every definition, each enum variant is known under its
/// qualified name: defining one keeps it so, and nothing else changes what is known of variants.
pub proof fn law_definitions_keep_variants_fit(s: SymbolsV, v: EnumVariantV, other: SymbolsV)
    ensures
        variants_fit(no_symbols()),
        variants_fit(s) ==> variants_fit(with_variant(s, v)),
        variants_fit(s) && other.enum_variants == s.enum_variants && other.variant_names == s.variant_names
            ==> variants_fit(other),
{
    let k = qualified(v.parent, v.name);
    let w = with_variant(s, v);
    if variants_fit(s) {
        assert forall|x: Seq<char>| #[trigger] w.enum_variants.contains_key(x) <==> w.variant_names.contains(x) by {
            assert(s.enum_variants.contains_key(x) <==> s.variant_names.contains(x));
            if s.variant_names.contains(x) {
                let i = choose|i: int| 0 <= i < s.variant_names.len() && s.variant_names[i] == x;
                assert(w.variant_names[i] == x);
            }
            if x == k && !s.enum_variants.contains_key(k) {
                assert(w.variant_names[s.variant_names.len() as int] == k);
            }
            if w.variant_names.contains(x) {
                let i = choose|i: int| 0 <= i < w.variant_names.len() && w.variant_names[i] == x;
                if i < s.variant_names.len() {
                    assert(s.variant_names[i] == x);
                }
            }
        }
    }
}

/// Where each enum variant is known under its qualified name, the look-up by simple name agrees
/// with that by qualified name.
pub proof fn law_simple_name_agrees(s: SymbolsV, name: Seq<char>)
    requires
        variants_fit(s),
    ensures
        simple_name_agrees(s, name),
{
    lemma_by_simple_name(s, name, 0);
    if let Some(v) = by_simple_name(s, name, 0) {
        let j = choose|j: int|
            0 <= j < s.variant_names.len() && v == s.enum_variants[#[trigger] s.variant_names[j]];
        assert(s.variant_names.contains(s.variant_names[j]));
        assert(s.enum_variants.contains_key(s.variant_names[j]));
    } else {
        assert forall|e: Seq<char>|
            (#[trigger] get_in(s.enum_variants, qualified(e, name))) is Some implies get_in(
            s.enum_variants,
            qualified(e, name),
        )->0.variant_name != name by {
            let k = qualified(e, name);
            assert(s.variant_names.contains(k));
            let j = choose|j: int| 0 <= j < s.variant_names.len() && s.variant_names[j] == k;
            assert(s.enum_variants[s.variant_names[j]].variant_name != name);
        }
    }
}

proof fn lemma_by_simple_name(s: SymbolsV, name: Seq<char>, i: int)
    requires
        0 <= i,
    ensures
        match by_simple_name(s, name, i) {
            Some(v) => exists|j: int|
                i <= j < s.variant_names.len() && v == s.enum_variants[#[trigger] s.variant_names[j]]
                    && v.variant_name == name,
            None => forall|j: int|
                i <= j < s.variant_names.len() ==> s.enum_variants[#[trigger] s.variant_names[j]].variant_name != name,
        },
    decreases s.variant_names.len() - i,
{
    if i < s.variant_names.len() && s.enum_variants[s.variant_names[i]].variant_name != name {
        lemma_by_simple_name(s, name, i + 1);
    }
}

/// In a new scope the variables of the scopes round it are visible until they are redefined, and
/// leaving the scope forgets what was defined in it.
pub proof fn law_scopes(scopes: Seq<Map<Seq<char>, TypeId>>, name: Seq<char>, other: Seq<char>, ty: TypeId)
    ensures
        var_in(scopes.push(Map::empty()), name) == var_in(scopes, name),
        var_in(with_var(scopes.push(Map::empty()), name, ty), name) == Some(ty),
        other != name ==> var_in(with_var(scopes.push(Map::empty()), name, ty), other) == var_in(scopes, other),
        with_var(scopes.push(Map::empty()), name, ty).drop_last() == scopes,
{
    let inner = scopes.push(Map::<Seq<char>, TypeId>::empty());
    assert(inner.drop_last() =~= scopes);
    assert(with_var(inner, name, ty).drop_last() =~= scopes);
}

impl Default for SymbolTable {
    fn default() -> (r: Self)
        ensures
            r@ == no_symbols(),
    {
        SymbolTable::new()
    }
}

impl SymbolTable {
    /// A symbol table with nothing in it but an empty outermost scope.
    pub fn new() -> (r: Self)
        ensures
            r@ == no_symbols(),
            variants_fit(r@),
    {
        let mut vars: Vec<Table<TypeId>> = Vec::new();
        vars.push(Table::new());
        let r = SymbolTable {
            globals: Table::new(),
            vars,
            functions: Table::new(),
            structs: Table::new(),
            enums: Table::new(),
            enum_variants: Table::new(),
        };
        proof {
            assert(r@.vars =~= no_symbols().vars);
            assert(r@.functions =~= no_symbols().functions);
            assert(r@.structs =~= no_symbols().structs);
            assert(r@.enums =~= no_symbols().enums);
            assert(r@.enum_variants =~= no_symbols().enum_variants);
        }
        r
    }

    /// Enters a scope.
    pub fn push_scope(&mut self)
        ensures
            variants_fit(old(self)@) ==> variants_fit(final(self)@),
            final(self)@ == (SymbolsV { vars: old(self)@.vars.push(Map::empty()), ..old(self)@ }),
    {
        let ghost before = self.vars@;
        self.vars.push(Table::new());
        proof {
            assert(scopes_v(self.vars@) =~= scopes_v(before).push(Map::empty()));
        }
    }

    /// The number of scopes.
    pub fn depth(&self) -> (r: usize)
        ensures
            r == self@.vars.len(),
    {
        self.vars.len()
    }

    /// Leaves the innermost scope. The outermost one is never left.
    pub fn pop_scope(&mut self)
        requires
            old(self)@.vars.len() > 1,
        ensures
            variants_fit(old(self)@) ==> variants_fit(final(self)@),
            final(self)@ == (SymbolsV { vars: old(self)@.vars.drop_last(), ..old(self)@ }),
    {
        let ghost before = self.vars@;
        let top = self.vars.pop();
        proof {
            assert(scopes_v(self.vars@) =~= scopes_v(before).drop_last());
        }
    }

    /// Defines a global.
    pub fn define_global(&mut self, name: &str, ty: TypeId)
        ensures
            variants_fit(old(self)@) ==> variants_fit(final(self)@),
            final(self)@ == (SymbolsV { globals: old(self)@.globals.insert(name@, ty), ..old(self)@ }),
    {
        self.globals.insert(name.to_owned(), ty);
    }

    /// The type of a global.
    pub fn lookup_global(&self, name: &str) -> (r: Option<TypeId>)
        ensures
            r == get_in(self@.globals, name@),
    {
        match self.globals.get(name) {
            Some(t) => Some(*t),
            None => None,
        }
    }

    /// Defines a variable in the innermost scope.
    pub fn define_var(&mut self, name: &str, ty: TypeId)
        ensures
            variants_fit(old(self)@) ==> variants_fit(final(self)@),
            final(self)@ == (SymbolsV { vars: with_var(old(self)@.vars, name@, ty), ..old(self)@ }),
    {
        let ghost before = self.vars@;
        match self.vars.pop() {
            Some(scope) => {
                let mut scope = scope;
                scope.insert(name.to_owned(), ty);
                self.vars.push(scope);
                proof {
                    assert(scopes_v(self.vars@) =~= with_var(scopes_v(before), name@, ty));
                }
            },
            None => {
                proof {
                    assert(scopes_v(self.vars@) =~= with_var(scopes_v(before), name@, ty));
                }
            },
        }
    }

    /// The type of a variable: that of the innermost scope that has it.
    pub fn lookup_var(&self, name: &str) -> (r: Option<TypeId>)
        ensures
            r == var_in(self@.vars, name@),
    {
        let mut k: usize = self.vars.len();
        proof {
            assert(self@.vars.take(k as int) =~= self@.vars);
        }
        while k > 0
            invariant
                k <= self.vars@.len(),
                self@.vars == scopes_v(self.vars@),
                var_in(self@.vars, name@) == var_in(self@.vars.take(k as int), name@),
            decreases k,
        {
            proof {
                assert(self@.vars.take(k as int).last() == self.vars@[k - 1].map());
                assert(self@.vars.take(k as int).drop_last() =~= self@.vars.take(k - 1));
            }
            match self.vars[k - 1].get(name) {
                Some(t) => {
                    return Some(*t);
                },
                None => {},
            }
            k = k - 1;
        }
        None
    }

    /// Defines a function.
    pub fn define_function(&mut self, name: &str, params: Vec<TypeId>, ret: TypeId)
        ensures
            variants_fit(old(self)@) ==> variants_fit(final(self)@),
            final(self)@ == (SymbolsV {
                functions: old(self)@.functions.insert(name@, (params@, ret)),
                ..old(self)@
            }),
    {
        let ghost before = self.functions.map();
        self.functions.insert(name.to_owned(), (params, ret));
        proof {
            assert(signatures_v(self.functions.map()) =~= signatures_v(before).insert(name@, (params@, ret)));
        }
    }

    /// The parameter types and the return type of a function.
    pub fn lookup_function(&self, name: &str) -> (r: Option<(Vec<TypeId>, TypeId)>)
        ensures
            match r {
                Some((params, ret)) => get_in(self@.functions, name@) == Some((params@, ret)),
                None => get_in(self@.functions, name@) is None,
            },
    {
        match self.functions.get(name) {
            Some(s) => Some((copy_ids(&s.0), s.1)),
            None => None,
        }
    }

    /// Defines a struct.
    pub fn define_struct(&mut self, def: StructDefinition)
        ensures
            variants_fit(old(self)@) ==> variants_fit(final(self)@),
            final(self)@ == (SymbolsV {
                structs: old(self)@.structs.insert(def.name@, def@),
                ..old(self)@
            }),
    {
        let ghost before = self.structs.map();
        let ghost v = def;
        self.structs.insert(def.name.clone(), def);
        proof {
            assert(struct_map_v(self.structs.map()) =~= struct_map_v(before).insert(v.name@, v@));
        }
    }

    /// The definition of a struct.
    pub fn lookup_struct(&self, name: &str) -> (r: Option<&StructDefinition>)
        ensures
            match r {
                Some(d) => get_in(self@.structs, name@) == Some(d@),
                None => get_in(self@.structs, name@) is None,
            },
    {
        self.structs.get(name)
    }

    /// Defines an enum.
    pub fn define_enum(&mut self, def: EnumDefinition)
        ensures
            variants_fit(old(self)@) ==> variants_fit(final(self)@),
            final(self)@ == (SymbolsV {
                enums: old(self)@.enums.insert(def.name@, def@),
                enum_names: with_name(
                    old(self)@.enum_names,
                    old(self)@.enums.contains_key(def.name@),
                    def.name@,
                ),
                ..old(self)@
            }),
    {
        let ghost before = self.enums.map();
        let ghost v = def;
        self.enums.insert(def.name.clone(), def);
        proof {
            assert(enum_map_v(self.enums.map()) =~= enum_map_v(before).insert(v.name@, v@));
        }
    }

    /// The definition of an enum.
    pub fn lookup_enum(&self, name: &str) -> (r: Option<&EnumDefinition>)
        ensures
            match r {
                Some(d) => get_in(self@.enums, name@) == Some(d@),
                None => get_in(self@.enums, name@) is None,
            },
    {
        self.enums.get(name)
    }

    /// Defines an enum variant under its qualified name.
    pub fn define_enum_variant(&mut self, variant: &EnumVariant)
        ensures
            final(self)@ == with_variant(old(self)@, variant@),
            variants_fit(old(self)@) ==> variants_fit(final(self)@),
    {
        let key = variant.parent.clone().concat(".").concat(variant.name.as_str());
        let mut arg_types: Vec<TypeId> = Vec::new();
        let mut has_defaults = false;
        let mut i: usize = 0;
        while i < variant.args.len()
            invariant
                i <= variant.args@.len(),
                arg_types@ =~= field_ids(variant@.args).take(i as int),
                has_defaults == exists|j: int| 0 <= j < i && (#[trigger] variant@.args[j]).default is Some,
            decreases variant.args@.len() - i,
        {
            assert(variant@.args[i as int] == variant.args@[i as int]@);
            arg_types.push(variant.args[i].ty);
            if variant.args[i].default.is_some() {
                has_defaults = true;
            }
            i = i + 1;
        }
        let info = EnumVariantInfo {
            enum_name: variant.parent.clone(),
            variant_name: variant.name.clone(),
            arg_types,
            has_defaults,
        };
        proof {
            assert(info.arg_types@ =~= field_ids(variant@.args));
            assert(has_defaults == some_default(variant@.args));
            assert(info@ == info_of(variant@));
        }
        let ghost before = self.enum_variants.map();
        self.enum_variants.insert(key, info);
        proof {
            assert(info_map_v(self.enum_variants.map()) =~= info_map_v(before).insert(key@, info@));
            law_definitions_keep_variants_fit(old(self)@, variant@, old(self)@);
        }
    }

    /// What is known of an enum variant, by its qualified name.
    pub fn lookup_enum_variant(&self, qualified_name: &str) -> (r: Option<&EnumVariantInfo>)
        ensures
            match r {
                Some(d) => get_in(self@.enum_variants, qualified_name@) == Some(d@),
                None => get_in(self@.enum_variants, qualified_name@) is None,
            },
    {
        self.enum_variants.get(qualified_name)
    }

    /// What is known of the first enum variant with the given name, whatever its enum.
    pub fn lookup_enum_variant_by_simple_name(&self, simple_name: &str) -> (r: Option<&EnumVariantInfo>)
        ensures
            match r {
                Some(d) => by_simple_name(self@, simple_name@, 0) == Some(d@),
                None => by_simple_name(self@, simple_name@, 0) is None,
            },
            variants_fit(self@) ==> simple_name_agrees(self@, simple_name@),
    {
        proof {
            if variants_fit(self@) {
                law_simple_name_agrees(self@, simple_name@);
            }
        }
        let n: usize = self.enum_variants.len();
        let mut i: usize = 0;
        while i < n
            invariant
                i <= n == self.enum_variants.entries().len(),
                self@.variant_names == self.enum_variants.names(),
                self@.enum_variants == info_map_v(self.enum_variants.map()),
                by_simple_name(self@, simple_name@, 0) == by_simple_name(self@, simple_name@, i as int),
                variants_fit(self@) ==> simple_name_agrees(self@, simple_name@),
            decreases n - i,
        {
            let d = self.enum_variants.value_at(i);
            assert(self@.variant_names[i as int] == self.enum_variants.entries()[i as int].0@);
            if text::text_eq(d.variant_name.as_str(), simple_name) {
                return Some(d);
            }
            i = i + 1;
        }
        None
    }

    /// What is known of a variant of an enum.
    pub fn lookup_variant(&self, enum_name: &str, variant_name: &str) -> (r: Option<&EnumVariantInfo>)
        ensures
            match r {
                Some(d) => get_in(self@.enum_variants, qualified(enum_name@, variant_name@)) == Some(d@),
                None => get_in(self@.enum_variants, qualified(enum_name@, variant_name@)) is None,
            },
    {
        let key = enum_name.to_owned().concat(".").concat(variant_name);
        self.enum_variants.get(key.as_str())
    }

    /// All enums, in the order in which they were defined first.
    pub fn get_enums(&self) -> (r: Vec<&EnumDefinition>)
        ensures
            r@.map_values(|d: &EnumDefinition| d@) == all_enums(self@),
    {
        let mut out: Vec<&EnumDefinition> = Vec::new();
        let n: usize = self.enums.len();
        let mut i: usize = 0;
        while i < n
            invariant
                i <= n == self.enums.entries().len(),
                out@.map_values(|d: &EnumDefinition| d@) =~= all_enums(self@).take(i as int),
            decreases n - i,
        {
            let d = self.enums.value_at(i);
            let ghost o = out@;
            out.push(d);
            proof {
                assert(self@.enum_names[i as int] == self.enums.entries()[i as int].0@);
                assert(out@.map_values(|d: &EnumDefinition| d@) =~= o.map_values(|d: &EnumDefinition| d@).push(d@));
                assert(all_enums(self@).take(i + 1) =~= all_enums(self@).take(i as int).push(d@));
            }
            i = i + 1;
        }
        proof {
            assert(all_enums(self@).take(n as int) =~= all_enums(self@));
        }
        out
    }
}

/// All enums, in the order in which they were defined first.
pub open spec fn all_enums(s: SymbolsV) -> Seq<EnumDefinitionV> {
    s.enum_names.map_values(|n: Seq<char>| s.enums[n])
}

/// What is known of the first enum variant with the given name, from position `i` on.
pub open spec fn by_simple_name(s: SymbolsV, name: Seq<char>, i: int) -> Option<EnumVariantInfoV>
    decreases s.variant_names.len() - i,
{
    if i < 0 || i >= s.variant_names.len() {
        None
    } else if s.enum_variants[s.variant_names[i]].variant_name == name {
        Some(s.enum_variants[s.variant_names[i]])
    } else {
        by_simple_name(s, name, i + 1)
    }
}

} // verus!
