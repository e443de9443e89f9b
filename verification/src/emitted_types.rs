//! What the C code of structs and enums holds: every field and every variant, in order.
use crate::text;
use crate::attrs::mangled_under;
use crate::decl::{EnumDefinitionV, EnumVariantV, FieldV, StructDefinitionV};
use crate::emit_decl::{ctor_assigns, ctor_c, ctor_params, ctors_c, data_lines, data_structs_c, declared_variant_c,
    field_c, field_type, fields_c, lower_text, struct_c, tags_c, variant_lines};
use crate::emit_expr::CtxV;
use crate::emit_stmt::{const_c, type_c};
use crate::emitted::{in_order, woven};
use crate::name_mangling::mangled;
use crate::store::known_in;
use crate::types::{c_name, TypeV};
use vstd::prelude::*;

verus! {

/// A struct has its name and its fields, in order.
pub proof fn law_code_of_a_struct(c: CtxV, d: StructDefinitionV)
    ensures
        in_order(struct_c(c, d), seq!["struct "@, mangled(mangled_under(d.metadata, c.module), d.name), " {\n"@, text::joined(fields_c(c, d.fields), "\n"@), "\n};"@]),
{
    let t = struct_c(c, d);
    let parts = seq!["struct "@, mangled(mangled_under(d.metadata, c.module), d.name), " {\n"@, text::joined(fields_c(c, d.fields), "\n"@), "\n};"@];
    let gaps = seq![Seq::<char>::empty(), Seq::<char>::empty(), Seq::<char>::empty(), Seq::<char>::empty(), Seq::<char>::empty(), Seq::<char>::empty()];
    reveal_with_fuel(woven, 6);
    assert(woven(gaps, parts, 0) =~= t);
}

/// A field has its type and its name.
pub proof fn law_code_of_a_declared_field(c: CtxV, f: FieldV)
    ensures
        in_order(field_c(c, f), seq![const_c(f.is_const), type_c(c.env, field_type(c.env, f), c.module), " "@, f.name, ";"@]),
{
    let t = field_c(c, f);
    let parts = seq![const_c(f.is_const), type_c(c.env, field_type(c.env, f), c.module), " "@, f.name, ";"@];
    let gaps = seq!["    "@, Seq::<char>::empty(), Seq::<char>::empty(), Seq::<char>::empty(), Seq::<char>::empty(), Seq::<char>::empty()];
    reveal_with_fuel(woven, 6);
    assert(woven(gaps, parts, 0) =~= t);
}

/// The constants of an enum stand in order, and its name behind them.
pub proof fn law_code_of_tags(c: CtxV, d: EnumDefinitionV, name: Seq<char>)
    ensures
        in_order(tags_c(c, d, name), seq!["typedef enum {\n"@, text::joined(variant_lines(c, d), ",\n"@), "\n} "@, name, ";\n\n"@]),
{
    let t = tags_c(c, d, name);
    let parts = seq!["typedef enum {\n"@, text::joined(variant_lines(c, d), ",\n"@), "\n} "@, name, ";\n\n"@];
    let gaps = seq![Seq::<char>::empty(), Seq::<char>::empty(), Seq::<char>::empty(), Seq::<char>::empty(), Seq::<char>::empty(), Seq::<char>::empty()];
    reveal_with_fuel(woven, 6);
    assert(woven(gaps, parts, 0) =~= t);
}

/// The constructor of a variant takes the arguments of the variant, marks the value as that variant, and stores
/// the arguments.
#[verifier::rlimit(80)]
#[verifier::spinoff_prover]
pub proof fn law_code_of_a_constructor(c: CtxV, d: EnumDefinitionV, v: EnumVariantV, name: Seq<char>)
    ensures
        in_order(ctor_c(c, d, v, name), seq![name + " "@, declared_variant_c(c, d, v) + "_new("@, text::joined(ctor_params(c, v.args), ", "@), name + " result;\n    result._discriminant = "@, declared_variant_c(c, d, v), text::joined(ctor_assigns(v), "\n"@), "\n    return result;\n}\n\n"@]),
{
    let t = ctor_c(c, d, v, name);
    let parts = seq![name + " "@, declared_variant_c(c, d, v) + "_new("@, text::joined(ctor_params(c, v.args), ", "@), name + " result;\n    result._discriminant = "@, declared_variant_c(c, d, v), text::joined(ctor_assigns(v), "\n"@), "\n    return result;\n}\n\n"@];
    let gaps = seq![Seq::<char>::empty(), Seq::<char>::empty(), Seq::<char>::empty(), ") {\n    "@, Seq::<char>::empty(), ";\n"@, Seq::<char>::empty(), Seq::<char>::empty()];
    reveal_with_fuel(woven, 8);
    assert(woven(gaps, parts, 0) =~= t);
}

/// The type of a field in C is the known one, or else the written one.
pub proof fn law_type_of_a_declared_field(c: CtxV, f: FieldV, t: TypeV)
    ensures
        known_in(c.env.store, f.ty) == Some(t) ==> field_type(c.env, f) == t,
        known_in(c.env.store, f.ty) is None && f.annotation == Some(t) ==> field_type(c.env, f) == t,
{
}

/// Fields, constants and arguments are written one by one.
pub proof fn law_code_of_parts(c: CtxV, d: EnumDefinitionV, v: EnumVariantV, fs: Seq<FieldV>, i: int)
    ensures
        fields_c(c, fs).len() == fs.len(),
        0 <= i < fs.len() ==> fields_c(c, fs)[i] == field_c(c, fs[i]),
        variant_lines(c, d).len() == d.variants.len(),
        0 <= i < d.variants.len() ==> in_order(
            variant_lines(c, d)[i],
            seq![declared_variant_c(c, d, d.variants[i])],
        ),
        ctor_params(c, fs).len() == fs.len(),
        0 <= i < fs.len() ==> in_order(ctor_params(c, fs)[i], seq![c_name(field_type(c.env, fs[i])), " "@, fs[i].name]),
        data_lines(c, fs).len() == fs.len(),
        0 <= i < fs.len() ==> in_order(data_lines(c, fs)[i], seq![c_name(field_type(c.env, fs[i])), " "@, fs[i].name, ";"@]),
        ctor_assigns(v).len() == v.args.len(),
        0 <= i < v.args.len() ==> in_order(
            ctor_assigns(v)[i],
            seq![lower_text(v.name), "."@, v.args[i].name, " = "@, v.args[i].name, ";"@],
        ),
{
    let e = Seq::<char>::empty();
    reveal_with_fuel(woven, 7);
    if 0 <= i < d.variants.len() {
        let parts = seq![declared_variant_c(c, d, d.variants[i])];
        assert(woven(seq!["    "@, e], parts, 0) =~= variant_lines(c, d)[i]);
    }
    if 0 <= i < fs.len() {
        let parts = seq![c_name(field_type(c.env, fs[i])), " "@, fs[i].name];
        assert(woven(seq![e, e, e, e], parts, 0) =~= ctor_params(c, fs)[i]);
        let parts = seq![c_name(field_type(c.env, fs[i])), " "@, fs[i].name, ";"@];
        assert(woven(seq!["    "@, e, e, e, e], parts, 0) =~= data_lines(c, fs)[i]);
    }
    if 0 <= i < v.args.len() {
        let parts = seq![lower_text(v.name), "."@, v.args[i].name, " = "@, v.args[i].name, ";"@];
        assert(woven(seq!["    result._variant."@, e, e, e, e, e, e], parts, 0) =~= ctor_assigns(v)[i]);
    }
}

/// Whether a text holds another.
pub open spec fn holds(t: Seq<char>, part: Seq<char>) -> bool {
    exists|a: Seq<char>, b: Seq<char>| t == #[trigger] (a + part + b)
}

proof fn lemma_holds_behind(front: Seq<char>, rest: Seq<char>, part: Seq<char>)
    requires
        holds(rest, part),
    ensures
        holds(front + rest, part),
{
    let (a, b) = choose|a: Seq<char>, b: Seq<char>| rest == #[trigger] (a + part + b);
    assert(front + rest =~= (front + a) + part + b);
}

/// Every variant with arguments has a constructor.
pub proof fn law_every_variant_has_a_constructor(c: CtxV, d: EnumDefinitionV, name: Seq<char>, i: int, k: int)
    requires
        0 <= i <= k < d.variants.len(),
        d.variants[k].args.len() > 0,
    ensures
        holds(ctors_c(c, d, name, i), ctor_c(c, d, d.variants[k], name)),
    decreases d.variants.len() - i,
{
    let part = ctor_c(c, d, d.variants[k], name);
    let rest = ctors_c(c, d, name, i + 1);
    if i == k {
        assert(ctors_c(c, d, name, i) =~= Seq::<char>::empty() + part + rest);
    } else {
        law_every_variant_has_a_constructor(c, d, name, i + 1, k);
        if d.variants[i].args.len() > 0 {
            lemma_holds_behind(ctor_c(c, d, d.variants[i], name), rest, part);
        }
    }
}

/// Every variant with arguments has a struct that holds them, in order.
pub proof fn law_every_variant_has_its_data(c: CtxV, name: Seq<char>, vs: Seq<EnumVariantV>, i: int, k: int)
    requires
        0 <= i <= k < vs.len(),
        vs[k].args.len() > 0,
    ensures
        holds(data_structs_c(c, name, vs, i), text::joined(data_lines(c, vs[k].args), "\n"@)),
        holds(data_structs_c(c, name, vs, i), name + "_"@ + vs[k].name + "_data;"@),
    decreases vs.len() - i,
{
    reveal_strlit("_data;\n\n");
    reveal_strlit("_data;");
    reveal_strlit("\n\n");
    let lines = text::joined(data_lines(c, vs[k].args), "\n"@);
    let label = name + "_"@ + vs[k].name + "_data;"@;
    let rest = data_structs_c(c, name, vs, i + 1);
    let t = data_structs_c(c, name, vs, i);
    if i == k {
        assert("_data;\n\n"@ =~= "_data;"@ + "\n\n"@);
        assert(t =~= "typedef struct {\n"@ + lines + ("\n} "@ + name + "_"@ + vs[i].name + "_data;\n\n"@ + rest));
        assert(t =~= ("typedef struct {\n"@ + lines + "\n} "@) + label + ("\n\n"@ + rest));
    } else {
        law_every_variant_has_its_data(c, name, vs, i + 1, k);
        if vs[i].args.len() > 0 {
            let front = "typedef struct {\n"@ + text::joined(data_lines(c, vs[i].args), "\n"@) + "\n} "@ + name + "_"@
                + vs[i].name + "_data;\n\n"@;
            assert(t =~= front + rest);
            lemma_holds_behind(front, rest, lines);
            lemma_holds_behind(front, rest, label);
        }
    }
}

} // verus!
