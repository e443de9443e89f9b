//! C declarations of structs and enums.
use crate::attrs::{mangled_under, Attributed};
use crate::decl::{enum_variants_v, field_list_v, EnumDefinition, EnumDefinitionV, EnumVariant, EnumVariantV,
    Field, FieldV, StructDefinition, StructDefinitionV};
use crate::emit_expr::{all_plain, is_plain, variant_c, variant_under, CodegenCtx, CtxV};
use crate::emit_stmt::{const_c, const_prefix, type_c};
use crate::engine::EnvV;
use crate::infer_spec::variant_named;
use crate::name_mangling::{mangle_enum_variant, mangle_type, mangled};
use crate::store::known_in;
use crate::symbols::get_in;
use crate::text;
use crate::types::{c_name, copy_type, Type, TypeV};
use vstd::prelude::*;

verus! {

/// A text in lower case.
pub uninterp spec fn lower_text(s: Seq<char>) -> Seq<char>;

/// A text in upper case.
pub uninterp spec fn upper_text(s: Seq<char>) -> Seq<char>;

/// `str::to_lowercase`: the text in lower case, which depends on the text alone.
#[verifier::external_body]
pub(crate) fn to_lower(s: &str) -> (r: String)
    ensures
        r@ == lower_text(s@),
{
    s.to_lowercase()
}

/// `str::to_uppercase`: the text in upper case, which depends on the text alone.
#[verifier::external_body]
pub(crate) fn to_upper(s: &str) -> (r: String)
    ensures
        r@ == upper_text(s@),
{
    s.to_uppercase()
}

/// The type of a field: the inferred one, else the written one, else none.
pub open spec fn field_type(e: EnvV, f: FieldV) -> TypeV {
    match known_in(e.store, f.ty) {
        Some(t) => t,
        None => match f.annotation {
            Some(t) => t,
            None => TypeV::Void,
        },
    }
}

/// The C code for one field of a struct.
pub open spec fn field_c(c: CtxV, f: FieldV) -> Seq<char> {
    "    "@ + const_c(f.is_const) + type_c(c.env, field_type(c.env, f), c.module) + " "@ + f.name + ";"@
}

/// The C code for the fields of a struct, one by one.
pub open spec fn fields_c(c: CtxV, fs: Seq<FieldV>) -> Seq<Seq<char>> {
    fs.map_values(|f: FieldV| field_c(c, f))
}

/// The C declaration of a struct.
pub open spec fn struct_c(c: CtxV, d: StructDefinitionV) -> Seq<char> {
    "struct "@ + mangled(mangled_under(d.metadata, c.module), d.name) + " {\n"@ + text::joined(
        fields_c(c, d.fields),
        "\n"@,
    ) + "\n};"@
}

/// The C name of a variant of an enum that is declared.
pub open spec fn declared_variant_c(c: CtxV, d: EnumDefinitionV, v: EnumVariantV) -> Seq<char> {
    mangled(variant_under(d, Some(v), c.module), d.name + "_"@ + v.name)
}

/// The C names of the variants of an enum, one by one.
pub open spec fn variant_lines(c: CtxV, d: EnumDefinitionV) -> Seq<Seq<char>> {
    d.variants.map_values(|v: EnumVariantV| "    "@ + declared_variant_c(c, d, v))
}

/// The C `enum` of the variants of an enum.
pub open spec fn tags_c(c: CtxV, d: EnumDefinitionV, name: Seq<char>) -> Seq<char> {
    "typedef enum {\n"@ + text::joined(variant_lines(c, d), ",\n"@) + "\n} "@ + name + ";\n\n"@
}

/// The C code for the members of the struct of a variant, one by one.
pub open spec fn data_lines(c: CtxV, fs: Seq<FieldV>) -> Seq<Seq<char>> {
    fs.map_values(|f: FieldV| "    "@ + c_name(field_type(c.env, f)) + " "@ + f.name + ";"@)
}

/// The C structs of the variants with arguments, from position `i` on.
pub open spec fn data_structs_c(c: CtxV, name: Seq<char>, vs: Seq<EnumVariantV>, i: int) -> Seq<char>
    decreases vs.len() - i,
{
    if i < 0 || i >= vs.len() {
        Seq::empty()
    } else if vs[i].args.len() == 0 {
        data_structs_c(c, name, vs, i + 1)
    } else {
        "typedef struct {\n"@ + text::joined(data_lines(c, vs[i].args), "\n"@) + "\n} "@ + name + "_"@ + vs[i].name
            + "_data;\n\n"@ + data_structs_c(c, name, vs, i + 1)
    }
}

/// The members of the C union of the variants with arguments, from position `i` on, appended to
/// `acc`.
pub open spec fn union_lines(name: Seq<char>, vs: Seq<EnumVariantV>, i: int, acc: Seq<Seq<char>>) -> Seq<Seq<char>>
    decreases vs.len() - i,
{
    if i < 0 || i >= vs.len() {
        acc
    } else if vs[i].args.len() == 0 {
        union_lines(name, vs, i + 1, acc)
    } else {
        union_lines(
            name,
            vs,
            i + 1,
            acc.push("    "@ + name + "_"@ + vs[i].name + "_data "@ + lower_text(vs[i].name) + ";"@),
        )
    }
}

/// The C struct of an enum with arguments: a tag and a union.
pub open spec fn tagged_union_c(name: Seq<char>, vs: Seq<EnumVariantV>) -> Seq<char> {
    "typedef struct {\n    "@ + name + "_Discriminant _discriminant;\n    union {\n"@ + text::joined(
        union_lines(name, vs, 0, Seq::empty()),
        "\n"@,
    ) + "\n    } _variant;\n} "@ + name + ";\n\n"@
}

/// The C parameters of the constructor of a variant, one by one.
pub open spec fn ctor_params(c: CtxV, fs: Seq<FieldV>) -> Seq<Seq<char>> {
    fs.map_values(|f: FieldV| c_name(field_type(c.env, f)) + " "@ + f.name)
}

/// The assignments in the constructor of a variant, one by one.
pub open spec fn ctor_assigns(v: EnumVariantV) -> Seq<Seq<char>> {
    v.args.map_values(
        |f: FieldV| "    result._variant."@ + lower_text(v.name) + "."@ + f.name + " = "@ + f.name + ";"@,
    )
}

/// The C function that makes a value of a variant with arguments.
pub open spec fn ctor_c(c: CtxV, d: EnumDefinitionV, v: EnumVariantV, name: Seq<char>) -> Seq<char> {
    let tag = declared_variant_c(c, d, v);
    name + " "@ + tag + "_new("@ + text::joined(ctor_params(c, v.args), ", "@) + ") {\n    "@ + name
        + " result;\n    result._discriminant = "@ + tag + ";\n"@ + text::joined(ctor_assigns(v), "\n"@)
        + "\n    return result;\n}\n\n"@
}

/// The C functions that make values of the variants with arguments, from position `i` on.
pub open spec fn ctors_c(c: CtxV, d: EnumDefinitionV, name: Seq<char>, i: int) -> Seq<char>
    decreases d.variants.len() - i,
{
    if i < 0 || i >= d.variants.len() {
        Seq::empty()
    } else if d.variants[i].args.len() == 0 {
        ctors_c(c, d, name, i + 1)
    } else {
        ctor_c(c, d, d.variants[i], name) + ctors_c(c, d, name, i + 1)
    }
}

/// The C declarations of an enum: a plain `enum` where no variant has arguments, else a struct
/// with a tag and a union, and a constructor for each variant with arguments.
#[verifier::opaque]
pub open spec fn enum_c(c: CtxV, d: EnumDefinitionV) -> Seq<char> {
    let name = mangled(mangled_under(d.metadata, c.module), d.name);
    (if all_plain(d.variants) {
        tags_c(c, d, name)
    } else {
        tags_c(c, d, name + "_Discriminant"@) + data_structs_c(c, name, d.variants, 0) + tagged_union_c(
            name,
            d.variants,
        )
    }) + ctors_c(c, d, name, 0)
}

/// A variant has the same C name where it is declared and where it is used, as long as no other
/// variant of its enum has its name.
pub proof fn law_variant_has_one_name(c: CtxV, d: EnumDefinitionV, v: EnumVariantV)
    requires
        get_in(c.env.symbols.enums, d.name) == Some(d),
        variant_named(d.variants, v.name, 0) == Some(v),
    ensures
        variant_c(c, d.name, v.name) == declared_variant_c(c, d, v),
{
}

/// An enum without arguments has no constructors: it is one C `enum`.
pub proof fn law_plain_enum_is_one_enum(c: CtxV, d: EnumDefinitionV)
    requires
        all_plain(d.variants),
    ensures
        enum_c(c, d) == tags_c(c, d, mangled(mangled_under(d.metadata, c.module), d.name)),
{
    reveal(enum_c);
    let name = mangled(mangled_under(d.metadata, c.module), d.name);
    lemma_no_ctors(c, d, name, 0);
    assert(enum_c(c, d) =~= tags_c(c, d, name));
}

proof fn lemma_no_ctors(c: CtxV, d: EnumDefinitionV, name: Seq<char>, i: int)
    requires
        all_plain(d.variants),
        i >= 0,
    ensures
        ctors_c(c, d, name, i) == Seq::<char>::empty(),
    decreases d.variants.len() - i,
{
    if i < d.variants.len() {
        assert(d.variants[i].args.len() == 0);
        lemma_no_ctors(c, d, name, i + 1);
    }
}

impl<'a> CodegenCtx<'a> {
    /// The type of a field.
    pub fn type_of_field(&self, f: &Field) -> (r: Type)
        ensures
            r@ == field_type(self@.env, f@),
    {
        match self.inferencer.store.resolve(f.ty) {
            Ok(t) => t,
            Err(_) => match &f.annotation {
                Some(t) => copy_type(t),
                None => Type::Void,
            },
        }
    }

    fn field_lines(&self, fs: &Vec<Field>) -> (r: Vec<String>)
        ensures
            text::texts(r@) == fields_c(self@, field_list_v(fs@)),
    {
        let ghost all = fields_c(self@, field_list_v(fs@));
        let mut out: Vec<String> = Vec::new();
        let mut i: usize = 0;
        while i < fs.len()
            invariant
                i <= fs@.len(),
                all == fields_c(self@, field_list_v(fs@)),
                text::texts(out@) =~= all.take(i as int),
            decreases fs@.len() - i,
        {
            assert(field_list_v(fs@)[i as int] == fs@[i as int]@);
            let ty = self.type_of_field(&fs[i]);
            let s = "    ".to_owned().concat(const_prefix(fs[i].is_const)).concat(
                self.type_to_c_name(&ty).as_str(),
            ).concat(" ").concat(fs[i].name.as_str()).concat(";");
            proof {
                assert(all.take(i + 1) =~= all.take(i as int).push(s@));
                assert(text::texts(out@.push(s)) =~= text::texts(out@).push(s@));
            }
            out.push(s);
            i = i + 1;
        }
        proof {
            assert(all.take(all.len() as int) =~= all);
        }
        out
    }

    /// The C declaration of a struct.
    pub fn generate_struct_declaration(&self, d: &StructDefinition) -> (r: String)
        ensures
            r@ == struct_c(self@, d@),
    {
        let lines = self.field_lines(&d.fields);
        let m = d.mangling_module(&self.current_module);
        let name = mangle_type(&m, d.name.as_str());
        "struct ".to_owned().concat(name.as_str()).concat(" {\n").concat(
            text::join(&lines, "\n").as_str(),
        ).concat("\n};")
    }

    fn tag_lines(&self, d: &EnumDefinition) -> (r: Vec<String>)
        ensures
            text::texts(r@) == variant_lines(self@, d@),
    {
        let ghost all = variant_lines(self@, d@);
        let mut out: Vec<String> = Vec::new();
        let mut i: usize = 0;
        while i < d.variants.len()
            invariant
                i <= d.variants@.len(),
                all == variant_lines(self@, d@),
                d@.variants == enum_variants_v(d.variants@),
                text::texts(out@) =~= all.take(i as int),
            decreases d.variants@.len() - i,
        {
            assert(d@.variants[i as int] == d.variants@[i as int]@);
            let s = "    ".to_owned().concat(self.declared_variant_name(d, &d.variants[i]).as_str());
            proof {
                assert(all.take(i + 1) =~= all.take(i as int).push(s@));
                assert(text::texts(out@.push(s)) =~= text::texts(out@).push(s@));
            }
            out.push(s);
            i = i + 1;
        }
        proof {
            assert(all.take(all.len() as int) =~= all);
        }
        out
    }

    fn tags(&self, d: &EnumDefinition, name: &str) -> (r: String)
        ensures
            r@ == tags_c(self@, d@, name@),
    {
        let lines = self.tag_lines(d);
        "typedef enum {\n".to_owned().concat(text::join(&lines, ",\n").as_str()).concat("\n} ").concat(name).concat(
            ";\n\n",
        )
    }

    fn data_members(&self, fs: &Vec<Field>) -> (r: Vec<String>)
        ensures
            text::texts(r@) == data_lines(self@, field_list_v(fs@)),
    {
        let ghost all = data_lines(self@, field_list_v(fs@));
        let mut out: Vec<String> = Vec::new();
        let mut i: usize = 0;
        while i < fs.len()
            invariant
                i <= fs@.len(),
                all == data_lines(self@, field_list_v(fs@)),
                text::texts(out@) =~= all.take(i as int),
            decreases fs@.len() - i,
        {
            assert(field_list_v(fs@)[i as int] == fs@[i as int]@);
            let ty = self.type_of_field(&fs[i]);
            let s = "    ".to_owned().concat(ty.to_c_name().as_str()).concat(" ").concat(fs[i].name.as_str()).concat(
                ";",
            );
            proof {
                assert(all.take(i + 1) =~= all.take(i as int).push(s@));
                assert(text::texts(out@.push(s)) =~= text::texts(out@).push(s@));
            }
            out.push(s);
            i = i + 1;
        }
        proof {
            assert(all.take(all.len() as int) =~= all);
        }
        out
    }

    fn data_structs(&self, name: &str, xs: &Vec<EnumVariant>) -> (r: String)
        ensures
            r@ == data_structs_c(self@, name@, enum_variants_v(xs@), 0),
    {
        let ghost vs = enum_variants_v(xs@);
        let mut out = String::new();
        let mut i: usize = 0;
        proof {
            assert(out@ + data_structs_c(self@, name@, enum_variants_v(xs@), 0) =~= data_structs_c(self@, name@, enum_variants_v(xs@), 0));
        }
        while i < xs.len()
            invariant
                i <= xs@.len(),
                vs == enum_variants_v(xs@),
                out@ + data_structs_c(self@, name@, enum_variants_v(xs@), i as int) == data_structs_c(self@, name@, enum_variants_v(xs@), 0),
            decreases xs@.len() - i,
        {
            let ghost before = out@;
            assert(vs[i as int] == xs@[i as int]@);
            assert(vs[i as int].args.len() == xs@[i as int].args@.len());
            if xs[i].args.len() > 0 {
                let lines = self.data_members(&xs[i].args);
                out = out.concat("typedef struct {\n").concat(text::join(&lines, "\n").as_str()).concat(
                    "\n} ",
                ).concat(name).concat("_").concat(xs[i].name.as_str()).concat("_data;\n\n");
            }
            proof {
                assert(out@ + data_structs_c(self@, name@, enum_variants_v(xs@), i + 1) =~= before + data_structs_c(self@, name@, enum_variants_v(xs@), i as int));
            }
            i = i + 1;
        }
        proof {
            assert(out@ + data_structs_c(self@, name@, enum_variants_v(xs@), i as int) =~= out@);
        }
        out
    }

    fn union_members(&self, name: &str, vs: &Vec<EnumVariant>) -> (r: Vec<String>)
        ensures
            text::texts(r@) == union_lines(name@, enum_variants_v(vs@), 0, Seq::empty()),
    {
        let mut out: Vec<String> = Vec::new();
        let mut i: usize = 0;
        proof {
            assert(text::texts(out@) =~= Seq::<Seq<char>>::empty());
        }
        while i < vs.len()
            invariant
                i <= vs@.len(),
                union_lines(name@, enum_variants_v(vs@), 0, Seq::empty()) == union_lines(
                    name@,
                    enum_variants_v(vs@),
                    i as int,
                    text::texts(out@),
                ),
            decreases vs@.len() - i,
        {
            assert(enum_variants_v(vs@)[i as int] == vs@[i as int]@);
            assert(vs@[i as int]@.args.len() == vs@[i as int].args@.len());
            if vs[i].args.len() > 0 {
                let s = "    ".to_owned().concat(name).concat("_").concat(vs[i].name.as_str()).concat(
                    "_data ",
                ).concat(to_lower(vs[i].name.as_str()).as_str()).concat(";");
                proof {
                    assert(text::texts(out@.push(s)) =~= text::texts(out@).push(s@));
                }
                out.push(s);
            }
            i = i + 1;
        }
        out
    }

    fn tagged_union(&self, name: &str, vs: &Vec<EnumVariant>) -> (r: String)
        ensures
            r@ == tagged_union_c(name@, enum_variants_v(vs@)),
    {
        let lines = self.union_members(name, vs);
        "typedef struct {\n    ".to_owned().concat(name).concat("_Discriminant _discriminant;\n    union {\n").concat(
            text::join(&lines, "\n").as_str(),
        ).concat("\n    } _variant;\n} ").concat(name).concat(";\n\n")
    }

    fn constructor_params(&self, fs: &Vec<Field>) -> (r: Vec<String>)
        ensures
            text::texts(r@) == ctor_params(self@, field_list_v(fs@)),
    {
        let ghost all = ctor_params(self@, field_list_v(fs@));
        let mut out: Vec<String> = Vec::new();
        let mut i: usize = 0;
        while i < fs.len()
            invariant
                i <= fs@.len(),
                all == ctor_params(self@, field_list_v(fs@)),
                text::texts(out@) =~= all.take(i as int),
            decreases fs@.len() - i,
        {
            assert(field_list_v(fs@)[i as int] == fs@[i as int]@);
            let ty = self.type_of_field(&fs[i]);
            let s = ty.to_c_name().concat(" ").concat(fs[i].name.as_str());
            proof {
                assert(all.take(i + 1) =~= all.take(i as int).push(s@));
                assert(text::texts(out@.push(s)) =~= text::texts(out@).push(s@));
            }
            out.push(s);
            i = i + 1;
        }
        proof {
            assert(all.take(all.len() as int) =~= all);
        }
        out
    }

    fn constructor_assigns(&self, v: &EnumVariant) -> (r: Vec<String>)
        ensures
            text::texts(r@) == ctor_assigns(v@),
    {
        let ghost all = ctor_assigns(v@);
        let mut out: Vec<String> = Vec::new();
        let mut i: usize = 0;
        while i < v.args.len()
            invariant
                i <= v.args@.len(),
                all == ctor_assigns(v@),
                text::texts(out@) =~= all.take(i as int),
            decreases v.args@.len() - i,
        {
            assert(field_list_v(v.args@)[i as int] == v.args@[i as int]@);
            assert(v@.args[i as int] == v.args@[i as int]@);
            let s = "    result._variant.".to_owned().concat(to_lower(v.name.as_str()).as_str()).concat(".").concat(
                v.args[i].name.as_str(),
            ).concat(" = ").concat(v.args[i].name.as_str()).concat(";");
            proof {
                assert(all.take(i + 1) =~= all.take(i as int).push(s@));
                assert(text::texts(out@.push(s)) =~= text::texts(out@).push(s@));
            }
            out.push(s);
            i = i + 1;
        }
        proof {
            assert(all.take(all.len() as int) =~= all);
        }
        out
    }

    fn declared_variant_name(&self, d: &EnumDefinition, v: &EnumVariant) -> (r: String)
        ensures
            r@ == declared_variant_c(self@, d@, v@),
    {
        let m = d.mangling_module(&self.current_module);
        mangle_enum_variant(&v.mangling_module(&m), d.name.as_str(), v.name.as_str())
    }

    fn constructor(&self, d: &EnumDefinition, v: &EnumVariant, name: &str) -> (r: String)
        ensures
            r@ == ctor_c(self@, d@, v@, name@),
    {
        let tag = self.declared_variant_name(d, v);
        let params = self.constructor_params(&v.args);
        let assigns = self.constructor_assigns(v);
        name.to_owned().concat(" ").concat(tag.as_str()).concat("_new(").concat(
            text::join(&params, ", ").as_str(),
        ).concat(") {\n    ").concat(name).concat(" result;\n    result._discriminant = ").concat(tag.as_str()).concat(
            ";\n",
        ).concat(text::join(&assigns, "\n").as_str()).concat("\n    return result;\n}\n\n")
    }

    fn constructors(&self, d: &EnumDefinition, name: &str) -> (r: String)
        ensures
            r@ == ctors_c(self@, d@, name@, 0),
    {
        let ghost vs = enum_variants_v(d.variants@);
        let mut out = String::new();
        let mut i: usize = 0;
        proof {
            assert(out@ + ctors_c(self@, d@, name@, 0) =~= ctors_c(self@, d@, name@, 0));
        }
        while i < d.variants.len()
            invariant
                i <= d.variants@.len(),
                vs == enum_variants_v(d.variants@),
                out@ + ctors_c(self@, d@, name@, i as int) == ctors_c(self@, d@, name@, 0),
            decreases d.variants@.len() - i,
        {
            let ghost before = out@;
            assert(vs[i as int] == d.variants@[i as int]@);
            assert(vs[i as int].args.len() == d.variants@[i as int].args@.len());
            if d.variants[i].args.len() > 0 {
                out = out.concat(self.constructor(d, &d.variants[i], name).as_str());
            }
            proof {
                assert(out@ + ctors_c(self@, d@, name@, i + 1) =~= before + ctors_c(self@, d@, name@, i as int));
            }
            i = i + 1;
        }
        proof {
            assert(out@ + ctors_c(self@, d@, name@, i as int) =~= out@);
        }
        out
    }

    /// The C declarations of an enum.
    pub fn generate_enum_declaration(&self, d: &EnumDefinition) -> (r: String)
        ensures
            r@ == enum_c(self@, d@),
    {
        proof {
            reveal(enum_c);
        }
        let name = mangle_type(&d.mangling_module(&self.current_module), d.name.as_str());
        let types = if is_plain(&d.variants) {
            self.tags(d, name.as_str())
        } else {
            let tag_type = name.clone().concat("_Discriminant");
            self.tags(d, tag_type.as_str()).concat(self.data_structs(name.as_str(), &d.variants).as_str()).concat(
                self.tagged_union(name.as_str(), &d.variants).as_str(),
            )
        };
        types.concat(self.constructors(d, name.as_str()).as_str())
    }
}

} // verus!
