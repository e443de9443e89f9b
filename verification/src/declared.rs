//! What reading the declarations of a file keeps: every declaration of the source, and every part of
//! it, is in the program that comes out, in order and under its name.
use crate::text;
use crate::ast::{BlockV, ExprV, Span};
use crate::decl::{DefaultSpecializationV, EnumVariantV, FieldV, FunctionV, GlobalDeclV, ImplDefinitionV, IncludeV,
    MetadataV, ParamV, ProgramV, RuleDeclV, RuleSetV, TraitDefinitionV, TypeDefV, TypeParamV, UsingClauseV};
use crate::error::ErrorV;
use crate::generics::param_names;
use crate::module::ModuleImportV;
use crate::reading::{first_with, law_first_of_a_rule, none_with};
use crate::syntax::{span_of, NodeV, Rule};
use crate::tree_decls::{default_decl_of, enum_def_of, enum_variant_of, function_from, function_of, global_of,
    item_added, items_added, leading_modifiers, leading_params, param_of, params_of, rule_decl_of, rule_decls_of,
    rule_set_of, struct_def_of, struct_field_of, struct_fields_of, trait_def_of, trait_impl_of, type_defs_from,
    typedef_of, using_clause_of, using_of, variants_of, FileV};
use crate::tree_stmts::block_of;
use crate::tree_types::{constraints_of, expr_of, import_of, include_of, metadata_of, modifiers_from, modifiers_of,
    type_of, type_param_of, type_params_from, type_params_of, types_of, SourceV};
use crate::types::TypeV;
use vstd::prelude::*;

verus! {

/// The number of nodes with a rule from position `i` on.
pub open spec fn count_of(ns: Seq<NodeV>, rule: Rule, i: int) -> nat
    decreases ns.len() - i,
{
    if i < 0 || i >= ns.len() {
        0
    } else {
        count_of(ns, rule, i + 1) + if ns[i].rule == rule {
            1nat
        } else {
            0
        }
    }
}

/// The place of a node among those with its rule from position `i` on.
pub open spec fn place_of(ns: Seq<NodeV>, i: int, j: int) -> int {
    count_of(ns, ns[j].rule, i) - count_of(ns, ns[j].rule, j)
}

pub proof fn lemma_place(ns: Seq<NodeV>, i: int, j: int)
    requires
        0 <= i <= j < ns.len(),
    ensures
        0 <= place_of(ns, i, j) < count_of(ns, ns[j].rule, i),
    decreases j - i,
{
    if i < j {
        lemma_place(ns, i + 1, j);
    }
}

/// The parameters of a function are those written, in order.
pub proof fn law_params_are_those_written(src: SourceV, at: Span, scope: Seq<Seq<char>>, ns: Seq<NodeV>, i: int, acc: Seq<ParamV>, j: int)
    requires
        0 <= i,
        params_of(src, at, scope, ns, i, acc) is Ok,
    ensures
        ({
            let out = params_of(src, at, scope, ns, i, acc)->Ok_0;
            &&& out.len() == acc.len() + count_of(ns, Rule::Param, i)
            &&& forall|q: int| 0 <= q < acc.len() ==> #[trigger] out[q] == acc[q]
            &&& i <= j < ns.len() && ns[j].rule == Rule::Param ==> acc.len() <= acc.len() + place_of(ns, i, j) < out.len()
                && param_of(src, at, ns[j], scope) == Ok::<ParamV, ErrorV>(out[acc.len() + place_of(ns, i, j)])
        }),
    decreases ns.len() - i,
{
    if i < ns.len() {
        if i <= j < ns.len() {
            lemma_place(ns, i, j);
        }
        if ns[i].rule == Rule::Param {
            let x = param_of(src, at, ns[i], scope)->Ok_0;
            law_params_are_those_written(src, at, scope, ns, i + 1, acc.push(x), j);
            let out = params_of(src, at, scope, ns, i, acc)->Ok_0;
            assert(out[acc.len() as int] == acc.push(x)[acc.len() as int]);
            assert forall|q: int| 0 <= q < acc.len() implies #[trigger] out[q] == acc[q] by {
                assert(out[q] == acc.push(x)[q]);
            }
        } else {
            law_params_are_those_written(src, at, scope, ns, i + 1, acc, j);
        }
    }
}

/// The fields of a struct are those written, in order.
pub proof fn law_fields_are_those_written(src: SourceV, scope: Seq<Seq<char>>, ns: Seq<NodeV>, i: int, acc: Seq<FieldV>, j: int)
    requires
        0 <= i,
        struct_fields_of(src, scope, ns, i, acc) is Ok,
    ensures
        ({
            let out = struct_fields_of(src, scope, ns, i, acc)->Ok_0;
            &&& out.len() == acc.len() + count_of(ns, Rule::VarDecl, i)
            &&& forall|q: int| 0 <= q < acc.len() ==> #[trigger] out[q] == acc[q]
            &&& i <= j < ns.len() && ns[j].rule == Rule::VarDecl ==> acc.len() <= acc.len() + place_of(ns, i, j) < out.len()
                && struct_field_of(src, ns[j], scope) == Ok::<FieldV, ErrorV>(out[acc.len() + place_of(ns, i, j)])
        }),
    decreases ns.len() - i,
{
    if i < ns.len() {
        if i <= j < ns.len() {
            lemma_place(ns, i, j);
        }
        if ns[i].rule == Rule::VarDecl {
            let x = struct_field_of(src, ns[i], scope)->Ok_0;
            law_fields_are_those_written(src, scope, ns, i + 1, acc.push(x), j);
            let out = struct_fields_of(src, scope, ns, i, acc)->Ok_0;
            assert(out[acc.len() as int] == acc.push(x)[acc.len() as int]);
            assert forall|q: int| 0 <= q < acc.len() implies #[trigger] out[q] == acc[q] by {
                assert(out[q] == acc.push(x)[q]);
            }
        } else {
            law_fields_are_those_written(src, scope, ns, i + 1, acc, j);
        }
    }
}

/// The variants of an enum are those written, in order.
pub proof fn law_variants_are_those_written(src: SourceV, parent: Seq<char>, scope: Seq<Seq<char>>, ns: Seq<NodeV>, i: int, acc: Seq<EnumVariantV>, j: int)
    requires
        0 <= i,
        variants_of(src, parent, scope, ns, i, acc) is Ok,
    ensures
        ({
            let out = variants_of(src, parent, scope, ns, i, acc)->Ok_0;
            &&& out.len() == acc.len() + count_of(ns, Rule::EnumVariant, i)
            &&& forall|q: int| 0 <= q < acc.len() ==> #[trigger] out[q] == acc[q]
            &&& i <= j < ns.len() && ns[j].rule == Rule::EnumVariant ==> acc.len() <= acc.len() + place_of(ns, i, j) < out.len()
                && enum_variant_of(src, ns[j], parent, scope) == Ok::<EnumVariantV, ErrorV>(out[acc.len() + place_of(ns, i, j)])
        }),
    decreases ns.len() - i,
{
    if i < ns.len() {
        if i <= j < ns.len() {
            lemma_place(ns, i, j);
        }
        if ns[i].rule == Rule::EnumVariant {
            let x = enum_variant_of(src, ns[i], parent, scope)->Ok_0;
            law_variants_are_those_written(src, parent, scope, ns, i + 1, acc.push(x), j);
            let out = variants_of(src, parent, scope, ns, i, acc)->Ok_0;
            assert(out[acc.len() as int] == acc.push(x)[acc.len() as int]);
            assert forall|q: int| 0 <= q < acc.len() implies #[trigger] out[q] == acc[q] by {
                assert(out[q] == acc.push(x)[q]);
            }
        } else {
            law_variants_are_those_written(src, parent, scope, ns, i + 1, acc, j);
        }
    }
}

/// The rules of a set of rules are those written, in order.
pub proof fn law_rules_are_those_written(src: SourceV, ns: Seq<NodeV>, i: int, acc: Seq<RuleDeclV>, j: int)
    requires
        0 <= i,
        rule_decls_of(src, ns, i, acc) is Ok,
    ensures
        ({
            let out = rule_decls_of(src, ns, i, acc)->Ok_0;
            &&& out.len() == acc.len() + count_of(ns, Rule::RuleDecl, i)
            &&& forall|q: int| 0 <= q < acc.len() ==> #[trigger] out[q] == acc[q]
            &&& i <= j < ns.len() && ns[j].rule == Rule::RuleDecl ==> acc.len() <= acc.len() + place_of(ns, i, j) < out.len()
                && rule_decl_of(src, ns[j]) == Ok::<RuleDeclV, ErrorV>(out[acc.len() + place_of(ns, i, j)])
        }),
    decreases ns.len() - i,
{
    if i < ns.len() {
        if i <= j < ns.len() {
            lemma_place(ns, i, j);
        }
        if ns[i].rule == Rule::RuleDecl {
            let x = rule_decl_of(src, ns[i])->Ok_0;
            law_rules_are_those_written(src, ns, i + 1, acc.push(x), j);
            let out = rule_decls_of(src, ns, i, acc)->Ok_0;
            assert(out[acc.len() as int] == acc.push(x)[acc.len() as int]);
            assert forall|q: int| 0 <= q < acc.len() implies #[trigger] out[q] == acc[q] by {
                assert(out[q] == acc.push(x)[q]);
            }
        } else {
            law_rules_are_those_written(src, ns, i + 1, acc, j);
        }
    }
}

/// The clauses of a `using` are those written, in order.
pub proof fn law_usings_are_those_written(src: SourceV, ns: Seq<NodeV>, i: int, acc: Seq<UsingClauseV>, j: int)
    requires
        0 <= i,
        using_of(src, ns, i, acc) is Ok,
    ensures
        ({
            let out = using_of(src, ns, i, acc)->Ok_0;
            &&& out.len() == acc.len() + count_of(ns, Rule::UsingClause, i)
            &&& forall|q: int| 0 <= q < acc.len() ==> #[trigger] out[q] == acc[q]
            &&& i <= j < ns.len() && ns[j].rule == Rule::UsingClause ==> acc.len() <= acc.len() + place_of(ns, i, j) < out.len()
                && using_clause_of(src, ns[j]) == Ok::<UsingClauseV, ErrorV>(out[acc.len() + place_of(ns, i, j)])
        }),
    decreases ns.len() - i,
{
    if i < ns.len() {
        if i <= j < ns.len() {
            lemma_place(ns, i, j);
        }
        if ns[i].rule == Rule::UsingClause {
            let x = using_clause_of(src, ns[i])->Ok_0;
            law_usings_are_those_written(src, ns, i + 1, acc.push(x), j);
            let out = using_of(src, ns, i, acc)->Ok_0;
            assert(out[acc.len() as int] == acc.push(x)[acc.len() as int]);
            assert forall|q: int| 0 <= q < acc.len() implies #[trigger] out[q] == acc[q] by {
                assert(out[q] == acc.push(x)[q]);
            }
        } else {
            law_usings_are_those_written(src, ns, i + 1, acc, j);
        }
    }
}

/// Type parameters are those written, in order.
pub proof fn law_type_params_are_those_written(src: SourceV, ns: Seq<NodeV>, i: int, acc: Seq<TypeParamV>, j: int)
    requires
        0 <= i,
        type_params_from(src, ns, i, acc) is Ok,
    ensures
        ({
            let out = type_params_from(src, ns, i, acc)->Ok_0;
            &&& out.len() == acc.len() + count_of(ns, Rule::TypeParam, i)
            &&& forall|q: int| 0 <= q < acc.len() ==> #[trigger] out[q] == acc[q]
            &&& i <= j < ns.len() && ns[j].rule == Rule::TypeParam ==> acc.len() <= acc.len() + place_of(ns, i, j) < out.len()
                && type_param_of(src, ns[j]) == Ok::<TypeParamV, ErrorV>(out[acc.len() + place_of(ns, i, j)])
        }),
    decreases ns.len() - i,
{
    if i < ns.len() {
        if i <= j < ns.len() {
            lemma_place(ns, i, j);
        }
        if ns[i].rule == Rule::TypeParam {
            let x = type_param_of(src, ns[i])->Ok_0;
            law_type_params_are_those_written(src, ns, i + 1, acc.push(x), j);
            let out = type_params_from(src, ns, i, acc)->Ok_0;
            assert(out[acc.len() as int] == acc.push(x)[acc.len() as int]);
            assert forall|q: int| 0 <= q < acc.len() implies #[trigger] out[q] == acc[q] by {
                assert(out[q] == acc.push(x)[q]);
            }
        } else {
            law_type_params_are_those_written(src, ns, i + 1, acc, j);
        }
    }
}

/// The constraints of a type parameter are those written, in order.
pub proof fn law_constraints_are_those_written(src: SourceV, ns: Seq<NodeV>, i: int, acc: Seq<TypeV>, j: int)
    requires
        0 <= i,
        constraints_of(src, ns, i, acc) is Ok,
    ensures
        ({
            let out = constraints_of(src, ns, i, acc)->Ok_0;
            &&& out.len() == acc.len() + count_of(ns, Rule::TypeAnnotation, i)
            &&& forall|q: int| 0 <= q < acc.len() ==> #[trigger] out[q] == acc[q]
            &&& i <= j < ns.len() && ns[j].rule == Rule::TypeAnnotation ==> acc.len() <= acc.len() + place_of(ns, i, j) < out.len()
                && type_of(src, ns[j], Seq::empty()) == Ok::<TypeV, ErrorV>(out[acc.len() + place_of(ns, i, j)])
        }),
    decreases ns.len() - i,
{
    if i < ns.len() {
        if i <= j < ns.len() {
            lemma_place(ns, i, j);
        }
        if ns[i].rule == Rule::TypeAnnotation {
            let x = type_of(src, ns[i], Seq::empty())->Ok_0;
            law_constraints_are_those_written(src, ns, i + 1, acc.push(x), j);
            let out = constraints_of(src, ns, i, acc)->Ok_0;
            assert(out[acc.len() as int] == acc.push(x)[acc.len() as int]);
            assert forall|q: int| 0 <= q < acc.len() implies #[trigger] out[q] == acc[q] by {
                assert(out[q] == acc.push(x)[q]);
            }
        } else {
            law_constraints_are_those_written(src, ns, i + 1, acc, j);
        }
    }
}

/// The types in a list are those written, in order.
pub proof fn law_types_are_those_written(src: SourceV, ns: Seq<NodeV>, scope: Seq<Seq<char>>, i: int, end: int, acc: Seq<TypeV>, j: int)
    requires
        0 <= i <= end <= ns.len(),
        types_of(src, ns, scope, i, end, acc) is Ok,
    ensures
        ({
            let out = types_of(src, ns, scope, i, end, acc)->Ok_0;
            &&& out.len() == acc.len() + end - i
            &&& forall|q: int| 0 <= q < acc.len() ==> #[trigger] out[q] == acc[q]
            &&& i <= j < end ==> type_of(src, ns[j], scope) == Ok::<TypeV, ErrorV>(out[acc.len() + j - i])
        }),
    decreases end - i,
{
    if i < end {
        let x = type_of(src, ns[i], scope)->Ok_0;
        law_types_are_those_written(src, ns, scope, i + 1, end, acc.push(x), j);
        let out = types_of(src, ns, scope, i, end, acc)->Ok_0;
        assert(out[acc.len() as int] == acc.push(x)[acc.len() as int]);
        assert forall|q: int| 0 <= q < acc.len() implies #[trigger] out[q] == acc[q] by {
            assert(out[q] == acc.push(x)[q]);
        }
    }
}

/// A pointer type points to the written type; a function type has the last of the written types as its
/// return type and the others as its parameters; a tuple has as many types as are written.
pub proof fn law_parts_of_a_type(src: SourceV, n: NodeV, scope: Seq<Seq<char>>, j: int)
    requires
        type_of(src, n, scope) is Ok,
    ensures
        ({
            let k = n.children[0];
            let t = type_of(src, n, scope)->Ok_0;
            let last = k.children.len() - 1;
            &&& k.rule == Rule::PointerType ==> (t matches TypeV::Ptr(x) && type_of(src, k.children[0], scope) == Ok::<
                TypeV,
                ErrorV,
            >(*x))
            &&& k.rule == Rule::FunctionType ==> (t matches TypeV::Function { param_tys, ret_ty } && type_of(
                src,
                k.children[last],
                scope,
            ) == Ok::<TypeV, ErrorV>(*ret_ty) && param_tys.len() == last && (0 <= j < last ==> type_of(
                src,
                k.children[j],
                scope,
            ) == Ok::<TypeV, ErrorV>(param_tys[j])))
            &&& k.rule == Rule::TupleType ==> (t matches TypeV::Tuple(ts) && ts.len() == k.children.len() && (0 <= j
                < k.children.len() ==> type_of(src, k.children[j], scope) == Ok::<TypeV, ErrorV>(ts[j])))
        }),
{
    let k = n.children[0];
    if k.rule == Rule::FunctionType {
        law_types_are_those_written(src, k.children, scope, 0, k.children.len() - 1, Seq::empty(), j);
    } else if k.rule == Rule::TupleType {
        law_types_are_those_written(src, k.children, scope, 0, k.children.len() as int, Seq::empty(), j);
    }
}

/// A named type with arguments is an application with as many arguments; without arguments it is a type
/// parameter where one of that name is in scope, and only there.
pub proof fn law_parts_of_a_named_type(src: SourceV, n: NodeV, scope: Seq<Seq<char>>, j: int)
    requires
        type_of(src, n, scope) is Ok,
        n.children[0].rule == Rule::BaseType,
    ensures
        ({
            let k = n.children[0];
            let t = type_of(src, n, scope)->Ok_0;
            let base = crate::tree_types::trimmed(k.children[0].text);
            &&& k.children.len() > 1 ==> (t matches TypeV::Instance { base: b, args } && b == base && args.len()
                == k.children.len() - 1 && (1 <= j < k.children.len() ==> type_of(src, k.children[j], scope) == Ok::<
                TypeV,
                ErrorV,
            >(args[j - 1])))
            &&& k.children.len() == 1 ==> (t is TypeParam <==> scope.contains(base)) && (t matches TypeV::TypeParam(p)
                ==> p == base) && (t matches TypeV::Named(p) ==> p == base)
        }),
{
    let k = n.children[0];
    law_types_are_those_written(src, k.children, scope, 1, k.children.len() as int, Seq::empty(), j);
    crate::emitted::law_type_names_of_the_source(crate::tree_types::trimmed(k.children[0].text));
}

/// A parameter has the written name and type.
pub proof fn law_parts_of_a_parameter(src: SourceV, at: Span, n: NodeV, scope: Seq<Seq<char>>)
    requires
        param_of(src, at, n, scope) is Ok,
    ensures
        ({
            let p = param_of(src, at, n, scope)->Ok_0;
            &&& p.name == n.children[0].text
            &&& p.annotation matches Some(t) && type_of(src, n.children[1], scope) == Ok::<TypeV, ErrorV>(t)
        }),
{
}

/// A field of a struct has the written name, type and value, and is constant where that is written.
pub proof fn law_parts_of_a_field(src: SourceV, n: NodeV, scope: Seq<Seq<char>>, i: int, j: int, k: int)
    requires
        struct_field_of(src, n, scope) is Ok,
    ensures
        ({
            let f = struct_field_of(src, n, scope)->Ok_0;
            &&& first_with(n.children, Rule::Identifier, i) ==> f.name == n.children[i].text
            &&& first_with(n.children, Rule::TypeAnnotation, j) ==> (f.annotation matches Some(t) && type_of(
                src,
                n.children[j],
                scope,
            ) == Ok::<TypeV, ErrorV>(t))
            &&& first_with(n.children, Rule::Expr, k) ==> (f.default matches Some(x) && expr_of(src, n.children[k])
                == Ok::<ExprV, ErrorV>(x))
            &&& none_with(n.children, Rule::TypeAnnotation) ==> f.annotation is None
            &&& none_with(n.children, Rule::Expr) ==> f.default is None
            &&& f.annotation is Some || f.default is Some
            &&& f.is_const <==> !none_with(n.children, Rule::ConstKw)
        }),
{
    reveal(struct_field_of);
    law_first_of_a_rule(n.children, Rule::Identifier);
    law_first_of_a_rule(n.children, Rule::TypeAnnotation);
    law_first_of_a_rule(n.children, Rule::Expr);
    law_first_of_a_rule(n.children, Rule::ConstKw);
}

/// A global has the written name, type and value, and is constant where that is written.
pub proof fn law_parts_of_a_global(src: SourceV, n: NodeV, i: int, j: int, k: int)
    requires
        global_of(src, n) is Ok,
    ensures
        ({
            let g = global_of(src, n)->Ok_0;
            &&& first_with(n.children, Rule::Identifier, i) ==> g.name == n.children[i].text
            &&& first_with(n.children, Rule::TypeAnnotation, j) ==> (g.annotation matches Some(t) && type_of(
                src,
                n.children[j],
                Seq::empty(),
            ) == Ok::<TypeV, ErrorV>(t))
            &&& first_with(n.children, Rule::Expr, k) ==> (g.init matches Some(x) && expr_of(src, n.children[k])
                == Ok::<ExprV, ErrorV>(x))
            &&& none_with(n.children, Rule::TypeAnnotation) ==> g.annotation is None
            &&& none_with(n.children, Rule::Expr) ==> g.init is None
            &&& g.is_const <==> !none_with(n.children, Rule::ConstKw)
        }),
{
    reveal(global_of);
    law_first_of_a_rule(n.children, Rule::Identifier);
    law_first_of_a_rule(n.children, Rule::TypeAnnotation);
    law_first_of_a_rule(n.children, Rule::Expr);
    law_first_of_a_rule(n.children, Rule::ConstKw);
}

/// The attributes of a declaration are those written, in order, and it is public unless `private` is
/// written.
pub proof fn law_modifiers_are_those_written(ns: Seq<NodeV>, i: int, ms: Seq<MetadataV>, is_public: bool, j: int)
    requires
        0 <= i,
        forall|q: int| i <= q < ns.len() && (#[trigger] ns[q]).rule == Rule::Metadata ==> ns[q].children.len() > 0,
    ensures
        ({
            let (out, open) = modifiers_from(ns, i, ms, is_public);
            &&& out.len() == ms.len() + count_of(ns, Rule::Metadata, i)
            &&& forall|q: int| 0 <= q < ms.len() ==> #[trigger] out[q] == ms[q]
            &&& i <= j < ns.len() && ns[j].rule == Rule::Metadata ==> 0 <= place_of(ns, i, j) < out.len() - ms.len()
                && metadata_of(ns[j]) == Ok::<MetadataV, ErrorV>(out[ms.len() + place_of(ns, i, j)])
                && out[ms.len() + place_of(ns, i, j)].name == ns[j].children[0].text
            &&& open <==> is_public && forall|q: int|
                i <= q < ns.len() ==> !((#[trigger] ns[q]).rule == Rule::Modifier && ns[q].text == "private"@)
        }),
    decreases ns.len() - i,
{
    if i < ns.len() {
        if i <= j < ns.len() {
            lemma_place(ns, i, j);
        }
        let (out, open) = modifiers_from(ns, i, ms, is_public);
        if ns[i].rule == Rule::Metadata {
            let m = metadata_of(ns[i])->Ok_0;
            law_modifiers_are_those_written(ns, i + 1, ms.push(m), is_public, j);
            assert(out[ms.len() as int] == ms.push(m)[ms.len() as int]);
            assert forall|q: int| 0 <= q < ms.len() implies #[trigger] out[q] == ms[q] by {
                assert(out[q] == ms.push(m)[q]);
            }
        } else if ns[i].rule == Rule::Modifier && ns[i].text == "private"@ {
            law_modifiers_are_those_written(ns, i + 1, ms, false, j);
        } else {
            law_modifiers_are_those_written(ns, i + 1, ms, is_public, j);
        }
    }
}

/// A struct and an enum have the written name, and one field or variant for each that is written.
pub proof fn law_parts_of_a_struct(src: SourceV, n: NodeV, metadata: Seq<MetadataV>, is_public: bool, j: int)
    requires
        struct_def_of(src, n, metadata, is_public) is Ok,
    ensures
        ({
            let d = struct_def_of(src, n, metadata, is_public)->Ok_0;
            &&& d.name == n.children[0].text
            &&& d.is_public == is_public
            &&& d.metadata == metadata
            &&& d.fields.len() == count_of(n.children, Rule::VarDecl, 1)
            &&& 1 <= j < n.children.len() && n.children[j].rule == Rule::VarDecl ==> struct_field_of(
                src,
                n.children[j],
                param_names(d.type_params),
            ) == Ok::<FieldV, ErrorV>(d.fields[place_of(n.children, 1, j)])
        }),
{
    reveal(struct_def_of);
    let ps = leading_params(src, n.children, 1, Seq::empty())->Ok_0;
    lemma_leading(src, n.children, 1, Seq::empty(), Rule::VarDecl, j);
    law_fields_are_those_written(src, param_names(ps.0), n.children, ps.1, Seq::empty(), j);
}

/// The same of an enum.
pub proof fn law_parts_of_an_enum(src: SourceV, n: NodeV, metadata: Seq<MetadataV>, is_public: bool, j: int)
    requires
        enum_def_of(src, n, metadata, is_public) is Ok,
    ensures
        ({
            let d = enum_def_of(src, n, metadata, is_public)->Ok_0;
            &&& d.name == n.children[0].text
            &&& d.is_public == is_public
            &&& d.metadata == metadata
            &&& d.variants.len() == count_of(n.children, Rule::EnumVariant, 1)
            &&& 1 <= j < n.children.len() && n.children[j].rule == Rule::EnumVariant ==> enum_variant_of(
                src,
                n.children[j],
                d.name,
                param_names(d.type_params),
            ) == Ok::<EnumVariantV, ErrorV>(d.variants[place_of(n.children, 1, j)])
        }),
{
    reveal(enum_def_of);
    let ps = leading_params(src, n.children, 1, Seq::empty())->Ok_0;
    lemma_leading(src, n.children, 1, Seq::empty(), Rule::EnumVariant, j);
    let name = n.children[0].text;
    law_variants_are_those_written(src, name, param_names(ps.0), n.children, ps.1, Seq::empty(), j);
}

proof fn lemma_leading(src: SourceV, ns: Seq<NodeV>, i: int, acc: Seq<TypeParamV>, rule: Rule, j: int)
    requires
        0 <= i,
        leading_params(src, ns, i, acc) is Ok,
        rule != Rule::TypeParams,
    ensures
        ({
            let r = leading_params(src, ns, i, acc)->Ok_0;
            &&& i <= r.1
            &&& count_of(ns, rule, i) == count_of(ns, rule, r.1)
            &&& i <= j < ns.len() && ns[j].rule == rule ==> r.1 <= j
            &&& i < ns.len() && ns[i].rule == Rule::TypeParams && (i + 1 >= ns.len() || ns[i + 1].rule
                != Rule::TypeParams) ==> type_params_of(src, ns[i]) == Ok::<Seq<TypeParamV>, ErrorV>(r.0)
            &&& i >= ns.len() || ns[i].rule != Rule::TypeParams ==> r.0 == acc
        }),
    decreases ns.len() - i,
{
    if i < ns.len() && ns[i].rule == Rule::TypeParams {
        let ps = type_params_of(src, ns[i])->Ok_0;
        lemma_leading(src, ns, i + 1, ps, rule, j);
    }
}

/// The type parameters of a struct are those of the list behind its name.
pub proof fn law_type_parameters_of_a_struct(src: SourceV, n: NodeV, metadata: Seq<MetadataV>, is_public: bool)
    requires
        struct_def_of(src, n, metadata, is_public) is Ok,
        n.children.len() > 2 ==> n.children[2].rule != Rule::TypeParams,
    ensures
        ({
            let d = struct_def_of(src, n, metadata, is_public)->Ok_0;
            &&& n.children.len() > 1 && n.children[1].rule == Rule::TypeParams ==> type_params_of(src, n.children[1])
                == Ok::<Seq<TypeParamV>, ErrorV>(d.type_params)
            &&& n.children.len() <= 1 || n.children[1].rule != Rule::TypeParams ==> d.type_params.len() == 0
        }),
{
    reveal(struct_def_of);
    lemma_leading(src, n.children, 1, Seq::empty(), Rule::VarDecl, 1);
}

proof fn lemma_function_parts(src: SourceV, outer: Seq<Seq<char>>, ns: Seq<NodeV>, i: int, f: FunctionV, j: int)
    requires
        0 <= i,
        function_from(src, outer, ns, i, f) is Ok,
        forall|q: int| i <= q < ns.len() ==> (#[trigger] ns[q]).rule != Rule::TypeParams,
    ensures
        ({
            let g = function_from(src, outer, ns, i, f)->Ok_0;
            let scope = outer + param_names(f.type_params);
            &&& g.name == f.name
            &&& g.type_params == f.type_params
            &&& g.metadata == f.metadata
            &&& g.is_public == f.is_public
            &&& last_with(ns, Rule::Params, i, j) ==> params_of(src, span_of(ns[j]), scope, ns[j].children, 0, Seq::empty())
                == Ok::<Seq<ParamV>, ErrorV>(g.params)
            &&& last_with(ns, Rule::TypeAnnotation, i, j) ==> (g.return_type matches Some(t) && type_of(src, ns[j], scope)
                == Ok::<TypeV, ErrorV>(t))
            &&& last_with(ns, Rule::Block, i, j) ==> block_of(src, ns[j], scope) == Ok::<BlockV, ErrorV>(g.body)
            &&& none_from(ns, Rule::Params, i) ==> g.params == f.params
            &&& none_from(ns, Rule::TypeAnnotation, i) ==> g.return_type == f.return_type
            &&& none_from(ns, Rule::Block, i) ==> g.body == f.body
        }),
    decreases ns.len() - i,
{
    if i < ns.len() {
        let scope = outer + param_names(f.type_params);
        let next = if ns[i].rule == Rule::Params {
            FunctionV {
                params: params_of(src, span_of(ns[i]), scope, ns[i].children, 0, Seq::empty())->Ok_0,
                ..f
            }
        } else if ns[i].rule == Rule::TypeAnnotation {
            FunctionV { return_type: Some(type_of(src, ns[i], scope)->Ok_0), ..f }
        } else if ns[i].rule == Rule::Block {
            FunctionV { body: block_of(src, ns[i], scope)->Ok_0, ..f }
        } else {
            f
        };
        lemma_function_parts(src, outer, ns, i + 1, next, j);
        assert(i == j && last_with(ns, ns[i].rule, i, j) ==> none_from(ns, ns[i].rule, i + 1));
        assert(i < j ==> (last_with(ns, Rule::Params, i, j) ==> last_with(ns, Rule::Params, i + 1, j)));
        assert(i < j ==> (last_with(ns, Rule::TypeAnnotation, i, j) ==> last_with(ns, Rule::TypeAnnotation, i + 1, j)));
        assert(i < j ==> (last_with(ns, Rule::Block, i, j) ==> last_with(ns, Rule::Block, i + 1, j)));
    }
}

/// Whether `ns[j]` is the last node with a rule, from position `i` on.
pub open spec fn last_with(ns: Seq<NodeV>, rule: Rule, i: int, j: int) -> bool {
    &&& i <= j < ns.len()
    &&& ns[j].rule == rule
    &&& none_from(ns, rule, j + 1)
}

/// Whether no node from position `i` on has a rule.
pub open spec fn none_from(ns: Seq<NodeV>, rule: Rule, i: int) -> bool {
    forall|q: int| i <= q < ns.len() ==> (#[trigger] ns[q]).rule != rule
}

/// The position of the name of a function: behind the attributes, where there are any.
pub open spec fn name_at(n: NodeV) -> int {
    if n.children.len() > 0 && n.children[0].rule == Rule::MetadataAndModifiers {
        1
    } else {
        0
    }
}

/// A function has the written name, parameters, return type and body. Only behind the name may type
/// parameters be written.
pub proof fn law_parts_of_a_function(src: SourceV, n: NodeV, outer: Seq<Seq<char>>, j: int)
    requires
        function_of(src, n, outer) is Ok,
        none_from(n.children, Rule::TypeParams, name_at(n) + 2),
    ensures
        ({
            let f = function_of(src, n, outer)->Ok_0;
            let ns = n.children;
            let at = name_at(n) + 1;
            let scope = outer + param_names(f.type_params);
            &&& f.name == ns[name_at(n)].text
            &&& at < ns.len() && ns[at].rule == Rule::TypeParams ==> type_params_of(src, ns[at]) == Ok::<
                Seq<TypeParamV>,
                ErrorV,
            >(f.type_params)
            &&& last_with(ns, Rule::Params, at, j) ==> params_of(src, span_of(ns[j]), scope, ns[j].children, 0, Seq::empty())
                == Ok::<Seq<ParamV>, ErrorV>(f.params)
            &&& last_with(ns, Rule::TypeAnnotation, at, j) ==> (f.return_type matches Some(t) && type_of(src, ns[j], scope)
                == Ok::<TypeV, ErrorV>(t))
            &&& last_with(ns, Rule::Block, at, j) ==> block_of(src, ns[j], scope) == Ok::<BlockV, ErrorV>(f.body)
            &&& none_from(ns, Rule::Params, at) ==> f.params.len() == 0
            &&& none_from(ns, Rule::TypeAnnotation, at) ==> f.return_type is None
            &&& none_from(ns, Rule::Block, at) ==> f.body.stmts.len() == 0
            &&& name_at(n) == 1 ==> f.metadata == modifiers_of(Some(ns[0])).0 && f.is_public == modifiers_of(
                Some(ns[0]),
            ).1
            &&& name_at(n) == 0 ==> f.metadata.len() == 0 && f.is_public
        }),
{
    reveal(function_of);
    let m = leading_modifiers(n);
    let ns = n.children;
    let at = name_at(n) + 1;
    let f0 = FunctionV {
        name: ns[m.2].text,
        type_params: Seq::empty(),
        params: Seq::empty(),
        return_type: None,
        inferred_return: None,
        body: BlockV { stmts: Seq::empty() },
        is_public: m.1,
        metadata: m.0,
    };
    assert(function_of(src, n, outer) == function_from(src, outer, ns, at, f0));
    if at < ns.len() && ns[at].rule == Rule::TypeParams {
        let ps = type_params_of(src, ns[at])->Ok_0;
        let f1 = FunctionV { type_params: ps, ..f0 };
        lemma_function_parts(src, outer, ns, at + 1, f1, j);
        assert(last_with(ns, Rule::Params, at, j) ==> last_with(ns, Rule::Params, at + 1, j));
        assert(last_with(ns, Rule::TypeAnnotation, at, j) ==> last_with(ns, Rule::TypeAnnotation, at + 1, j));
        assert(last_with(ns, Rule::Block, at, j) ==> last_with(ns, Rule::Block, at + 1, j));
    } else {
        lemma_function_parts(src, outer, ns, at, f0, j);
    }
}

/// An import of one module names the parts of its path, one by one.
pub proof fn law_parts_of_an_import(src: SourceV, n: NodeV)
    requires
        import_of(src, n) is Ok,
        !crate::tree_types::ends_with(n.children[0].text, ".*"@),
        !crate::tree_types::ends_with(n.children[0].text, ".**"@),
    ensures
        ({
            let x = import_of(src, n)->Ok_0;
            &&& x.import_type is Single
            &&& text::joined(x.path, "."@) == n.children[0].text
        }),
{
    reveal_strlit(".");
    text::law_split_then_join(n.children[0].text, '.');
    assert("."@ =~= seq!['.']);
}

/// An inclusion has the path between the quotes and, where one is written, the library between the
/// quotes.
pub proof fn law_parts_of_an_inclusion(src: SourceV, n: NodeV)
    requires
        include_of(src, n) is Ok,
    ensures
        ({
            let x = include_of(src, n)->Ok_0;
            let p = n.children[0].text;
            &&& p.len() >= 2 ==> p == seq![p[0]] + x.path + seq![p[p.len() - 1]]
            &&& x.linked_lib is Some <==> n.children.len() > 1
            &&& n.children.len() > 1 && n.children[1].text.len() >= 2 ==> n.children[1].text == seq![
                n.children[1].text[0],
            ] + x.linked_lib->0 + seq![n.children[1].text[n.children[1].text.len() - 1]]
        }),
{
    let p = n.children[0].text;
    let x = include_of(src, n)->Ok_0;
    if p.len() >= 2 {
        assert(p =~= seq![p[0]] + x.path + seq![p[p.len() - 1]]);
    }
    if n.children.len() > 1 && n.children[1].text.len() >= 2 {
        let q = n.children[1].text;
        assert(q =~= seq![q[0]] + x.linked_lib->0 + seq![q[q.len() - 1]]);
    }
}

proof fn lemma_type_defs_rest(src: SourceV, metadata: Seq<MetadataV>, is_public: bool, ns: Seq<NodeV>, i: int, p: ProgramV)
    requires
        type_defs_from(src, metadata, is_public, ns, i, p) is Ok,
    ensures
        ({
            let q = type_defs_from(src, metadata, is_public, ns, i, p)->Ok_0;
            &&& q == (ProgramV { structs: q.structs, enums: q.enums, ..p })
        }),
    decreases ns.len() - i,
{
    if 0 <= i < ns.len() {
        if ns[i].rule == Rule::EnumDef {
            let d = enum_def_of(src, ns[i], metadata, is_public)->Ok_0;
            lemma_type_defs_rest(src, metadata, is_public, ns, i + 1, ProgramV { enums: p.enums.push(d), ..p });
        } else if ns[i].rule == Rule::StructDef {
            let d = struct_def_of(src, ns[i], metadata, is_public)->Ok_0;
            lemma_type_defs_rest(src, metadata, is_public, ns, i + 1, ProgramV { structs: p.structs.push(d), ..p });
        } else {
            lemma_type_defs_rest(src, metadata, is_public, ns, i + 1, p);
        }
    }
}

/// A file from which only what stands in type definitions may differ.
proof fn lemma_type_def_item(src: SourceV, n: NodeV, f: FileV)
    requires
        n.rule == Rule::TypeDef,
        item_added(src, n, f) is Ok,
    ensures
        ({
            let g = item_added(src, n, f)->Ok_0;
            &&& g.includes == f.includes && g.imports == f.imports && g.usings == f.usings
            &&& g.program == (ProgramV { structs: g.program.structs, enums: g.program.enums, ..f.program })
        }),
{
    reveal(item_added);
    let m = modifiers_of(
        if n.children.len() > 0 {
            Some(n.children[0])
        } else {
            None
        },
    );
    lemma_type_defs_rest(src, m.0, m.1, n.children, 1, f.program);
}

proof fn lemma_one_of_functions(src: SourceV, n: NodeV, f: FileV)
    requires
        item_added(src, n, f) is Ok,
    ensures
        n.rule == Rule::FunctionDecl ==> function_of(src, n, Seq::empty()) is Ok && item_added(src, n, f)->Ok_0.program.functions == f.program.functions.push(
            function_of(src, n, Seq::empty())->Ok_0,
        ),
        n.rule != Rule::FunctionDecl ==> item_added(src, n, f)->Ok_0.program.functions == f.program.functions,
{
    if n.rule == Rule::TypeDef {
        lemma_type_def_item(src, n, f);
    } else {
        reveal(item_added);
    }
}

/// The functions of a file are those written, in order.
pub proof fn law_functions_of_a_file(src: SourceV, ns: Seq<NodeV>, i: int, f: FileV, j: int)
    requires
        0 <= i,
        items_added(src, ns, i, f) is Ok,
    ensures
        ({
            let out = items_added(src, ns, i, f)->Ok_0.program.functions;
            let acc = f.program.functions;
            &&& out.len() == acc.len() + count_of(ns, Rule::FunctionDecl, i)
            &&& forall|q: int| 0 <= q < acc.len() ==> #[trigger] out[q] == acc[q]
            &&& i <= j < ns.len() && ns[j].rule == Rule::FunctionDecl ==> acc.len() <= acc.len() + place_of(ns, i, j) < out.len()
                && function_of(src, ns[j], Seq::empty()) == Ok::<FunctionV, ErrorV>(out[acc.len() + place_of(ns, i, j)])
        }),
    decreases ns.len() - i,
{
    if i < ns.len() {
        if i <= j < ns.len() {
            lemma_place(ns, i, j);
        }
        let g = item_added(src, ns[i], f)->Ok_0;
        lemma_one_of_functions(src, ns[i], f);
        law_functions_of_a_file(src, ns, i + 1, g, j);
        let out = items_added(src, ns, i, f)->Ok_0.program.functions;
        let acc = f.program.functions;
        if ns[i].rule == Rule::FunctionDecl {
            assert(out[acc.len() as int] == g.program.functions[acc.len() as int]);
        }
        assert forall|q: int| 0 <= q < acc.len() implies #[trigger] out[q] == acc[q] by {
            assert(out[q] == g.program.functions[q]);
        }
    }
}

proof fn lemma_one_of_globals(src: SourceV, n: NodeV, f: FileV)
    requires
        item_added(src, n, f) is Ok,
    ensures
        n.rule == Rule::VarDecl ==> global_of(src, n) is Ok && item_added(src, n, f)->Ok_0.program.globals == f.program.globals.push(
            global_of(src, n)->Ok_0,
        ),
        n.rule != Rule::VarDecl ==> item_added(src, n, f)->Ok_0.program.globals == f.program.globals,
{
    if n.rule == Rule::TypeDef {
        lemma_type_def_item(src, n, f);
    } else {
        reveal(item_added);
    }
}

/// The globals of a file are those written, in order.
pub proof fn law_globals_of_a_file(src: SourceV, ns: Seq<NodeV>, i: int, f: FileV, j: int)
    requires
        0 <= i,
        items_added(src, ns, i, f) is Ok,
    ensures
        ({
            let out = items_added(src, ns, i, f)->Ok_0.program.globals;
            let acc = f.program.globals;
            &&& out.len() == acc.len() + count_of(ns, Rule::VarDecl, i)
            &&& forall|q: int| 0 <= q < acc.len() ==> #[trigger] out[q] == acc[q]
            &&& i <= j < ns.len() && ns[j].rule == Rule::VarDecl ==> acc.len() <= acc.len() + place_of(ns, i, j) < out.len()
                && global_of(src, ns[j]) == Ok::<GlobalDeclV, ErrorV>(out[acc.len() + place_of(ns, i, j)])
        }),
    decreases ns.len() - i,
{
    if i < ns.len() {
        if i <= j < ns.len() {
            lemma_place(ns, i, j);
        }
        let g = item_added(src, ns[i], f)->Ok_0;
        lemma_one_of_globals(src, ns[i], f);
        law_globals_of_a_file(src, ns, i + 1, g, j);
        let out = items_added(src, ns, i, f)->Ok_0.program.globals;
        let acc = f.program.globals;
        if ns[i].rule == Rule::VarDecl {
            assert(out[acc.len() as int] == g.program.globals[acc.len() as int]);
        }
        assert forall|q: int| 0 <= q < acc.len() implies #[trigger] out[q] == acc[q] by {
            assert(out[q] == g.program.globals[q]);
        }
    }
}

proof fn lemma_one_of_traits(src: SourceV, n: NodeV, f: FileV)
    requires
        item_added(src, n, f) is Ok,
    ensures
        n.rule == Rule::TraitDef ==> trait_def_of(src, n) is Ok && item_added(src, n, f)->Ok_0.program.traits == f.program.traits.push(
            trait_def_of(src, n)->Ok_0,
        ),
        n.rule != Rule::TraitDef ==> item_added(src, n, f)->Ok_0.program.traits == f.program.traits,
{
    if n.rule == Rule::TypeDef {
        lemma_type_def_item(src, n, f);
    } else {
        reveal(item_added);
    }
}

/// The traits of a file are those written, in order.
pub proof fn law_traits_of_a_file(src: SourceV, ns: Seq<NodeV>, i: int, f: FileV, j: int)
    requires
        0 <= i,
        items_added(src, ns, i, f) is Ok,
    ensures
        ({
            let out = items_added(src, ns, i, f)->Ok_0.program.traits;
            let acc = f.program.traits;
            &&& out.len() == acc.len() + count_of(ns, Rule::TraitDef, i)
            &&& forall|q: int| 0 <= q < acc.len() ==> #[trigger] out[q] == acc[q]
            &&& i <= j < ns.len() && ns[j].rule == Rule::TraitDef ==> acc.len() <= acc.len() + place_of(ns, i, j) < out.len()
                && trait_def_of(src, ns[j]) == Ok::<TraitDefinitionV, ErrorV>(out[acc.len() + place_of(ns, i, j)])
        }),
    decreases ns.len() - i,
{
    if i < ns.len() {
        if i <= j < ns.len() {
            lemma_place(ns, i, j);
        }
        let g = item_added(src, ns[i], f)->Ok_0;
        lemma_one_of_traits(src, ns[i], f);
        law_traits_of_a_file(src, ns, i + 1, g, j);
        let out = items_added(src, ns, i, f)->Ok_0.program.traits;
        let acc = f.program.traits;
        if ns[i].rule == Rule::TraitDef {
            assert(out[acc.len() as int] == g.program.traits[acc.len() as int]);
        }
        assert forall|q: int| 0 <= q < acc.len() implies #[trigger] out[q] == acc[q] by {
            assert(out[q] == g.program.traits[q]);
        }
    }
}

proof fn lemma_one_of_impls(src: SourceV, n: NodeV, f: FileV)
    requires
        item_added(src, n, f) is Ok,
    ensures
        n.rule == Rule::TraitImpl ==> trait_impl_of(src, n) is Ok && item_added(src, n, f)->Ok_0.program.impls == f.program.impls.push(
            trait_impl_of(src, n)->Ok_0,
        ),
        n.rule != Rule::TraitImpl ==> item_added(src, n, f)->Ok_0.program.impls == f.program.impls,
{
    if n.rule == Rule::TypeDef {
        lemma_type_def_item(src, n, f);
    } else {
        reveal(item_added);
    }
}

/// The impls of a file are those written, in order.
pub proof fn law_impls_of_a_file(src: SourceV, ns: Seq<NodeV>, i: int, f: FileV, j: int)
    requires
        0 <= i,
        items_added(src, ns, i, f) is Ok,
    ensures
        ({
            let out = items_added(src, ns, i, f)->Ok_0.program.impls;
            let acc = f.program.impls;
            &&& out.len() == acc.len() + count_of(ns, Rule::TraitImpl, i)
            &&& forall|q: int| 0 <= q < acc.len() ==> #[trigger] out[q] == acc[q]
            &&& i <= j < ns.len() && ns[j].rule == Rule::TraitImpl ==> acc.len() <= acc.len() + place_of(ns, i, j) < out.len()
                && trait_impl_of(src, ns[j]) == Ok::<ImplDefinitionV, ErrorV>(out[acc.len() + place_of(ns, i, j)])
        }),
    decreases ns.len() - i,
{
    if i < ns.len() {
        if i <= j < ns.len() {
            lemma_place(ns, i, j);
        }
        let g = item_added(src, ns[i], f)->Ok_0;
        lemma_one_of_impls(src, ns[i], f);
        law_impls_of_a_file(src, ns, i + 1, g, j);
        let out = items_added(src, ns, i, f)->Ok_0.program.impls;
        let acc = f.program.impls;
        if ns[i].rule == Rule::TraitImpl {
            assert(out[acc.len() as int] == g.program.impls[acc.len() as int]);
        }
        assert forall|q: int| 0 <= q < acc.len() implies #[trigger] out[q] == acc[q] by {
            assert(out[q] == g.program.impls[q]);
        }
    }
}

proof fn lemma_one_of_defaults(src: SourceV, n: NodeV, f: FileV)
    requires
        item_added(src, n, f) is Ok,
    ensures
        n.rule == Rule::DefaultDecl ==> default_decl_of(src, n) is Ok && item_added(src, n, f)->Ok_0.program.defaults == f.program.defaults.push(
            default_decl_of(src, n)->Ok_0,
        ),
        n.rule != Rule::DefaultDecl ==> item_added(src, n, f)->Ok_0.program.defaults == f.program.defaults,
{
    if n.rule == Rule::TypeDef {
        lemma_type_def_item(src, n, f);
    } else {
        reveal(item_added);
    }
}

/// The defaults of a file are those written, in order.
pub proof fn law_defaults_of_a_file(src: SourceV, ns: Seq<NodeV>, i: int, f: FileV, j: int)
    requires
        0 <= i,
        items_added(src, ns, i, f) is Ok,
    ensures
        ({
            let out = items_added(src, ns, i, f)->Ok_0.program.defaults;
            let acc = f.program.defaults;
            &&& out.len() == acc.len() + count_of(ns, Rule::DefaultDecl, i)
            &&& forall|q: int| 0 <= q < acc.len() ==> #[trigger] out[q] == acc[q]
            &&& i <= j < ns.len() && ns[j].rule == Rule::DefaultDecl ==> acc.len() <= acc.len() + place_of(ns, i, j) < out.len()
                && default_decl_of(src, ns[j]) == Ok::<DefaultSpecializationV, ErrorV>(out[acc.len() + place_of(ns, i, j)])
        }),
    decreases ns.len() - i,
{
    if i < ns.len() {
        if i <= j < ns.len() {
            lemma_place(ns, i, j);
        }
        let g = item_added(src, ns[i], f)->Ok_0;
        lemma_one_of_defaults(src, ns[i], f);
        law_defaults_of_a_file(src, ns, i + 1, g, j);
        let out = items_added(src, ns, i, f)->Ok_0.program.defaults;
        let acc = f.program.defaults;
        if ns[i].rule == Rule::DefaultDecl {
            assert(out[acc.len() as int] == g.program.defaults[acc.len() as int]);
        }
        assert forall|q: int| 0 <= q < acc.len() implies #[trigger] out[q] == acc[q] by {
            assert(out[q] == g.program.defaults[q]);
        }
    }
}

proof fn lemma_one_of_rulesets(src: SourceV, n: NodeV, f: FileV)
    requires
        item_added(src, n, f) is Ok,
    ensures
        n.rule == Rule::RuleSet ==> rule_set_of(src, n) is Ok && item_added(src, n, f)->Ok_0.program.rulesets == f.program.rulesets.push(
            rule_set_of(src, n)->Ok_0,
        ),
        n.rule != Rule::RuleSet ==> item_added(src, n, f)->Ok_0.program.rulesets == f.program.rulesets,
{
    if n.rule == Rule::TypeDef {
        lemma_type_def_item(src, n, f);
    } else {
        reveal(item_added);
    }
}

/// The rulesets of a file are those written, in order.
pub proof fn law_rulesets_of_a_file(src: SourceV, ns: Seq<NodeV>, i: int, f: FileV, j: int)
    requires
        0 <= i,
        items_added(src, ns, i, f) is Ok,
    ensures
        ({
            let out = items_added(src, ns, i, f)->Ok_0.program.rulesets;
            let acc = f.program.rulesets;
            &&& out.len() == acc.len() + count_of(ns, Rule::RuleSet, i)
            &&& forall|q: int| 0 <= q < acc.len() ==> #[trigger] out[q] == acc[q]
            &&& i <= j < ns.len() && ns[j].rule == Rule::RuleSet ==> acc.len() <= acc.len() + place_of(ns, i, j) < out.len()
                && rule_set_of(src, ns[j]) == Ok::<RuleSetV, ErrorV>(out[acc.len() + place_of(ns, i, j)])
        }),
    decreases ns.len() - i,
{
    if i < ns.len() {
        if i <= j < ns.len() {
            lemma_place(ns, i, j);
        }
        let g = item_added(src, ns[i], f)->Ok_0;
        lemma_one_of_rulesets(src, ns[i], f);
        law_rulesets_of_a_file(src, ns, i + 1, g, j);
        let out = items_added(src, ns, i, f)->Ok_0.program.rulesets;
        let acc = f.program.rulesets;
        if ns[i].rule == Rule::RuleSet {
            assert(out[acc.len() as int] == g.program.rulesets[acc.len() as int]);
        }
        assert forall|q: int| 0 <= q < acc.len() implies #[trigger] out[q] == acc[q] by {
            assert(out[q] == g.program.rulesets[q]);
        }
    }
}

proof fn lemma_one_of_typedefs(src: SourceV, n: NodeV, f: FileV)
    requires
        item_added(src, n, f) is Ok,
    ensures
        n.rule == Rule::TypedefStmt ==> typedef_of(src, n) is Ok && item_added(src, n, f)->Ok_0.program.typedefs == f.program.typedefs.push(
            typedef_of(src, n)->Ok_0,
        ),
        n.rule != Rule::TypedefStmt ==> item_added(src, n, f)->Ok_0.program.typedefs == f.program.typedefs,
{
    if n.rule == Rule::TypeDef {
        lemma_type_def_item(src, n, f);
    } else {
        reveal(item_added);
    }
}

/// The typedefs of a file are those written, in order.
pub proof fn law_typedefs_of_a_file(src: SourceV, ns: Seq<NodeV>, i: int, f: FileV, j: int)
    requires
        0 <= i,
        items_added(src, ns, i, f) is Ok,
    ensures
        ({
            let out = items_added(src, ns, i, f)->Ok_0.program.typedefs;
            let acc = f.program.typedefs;
            &&& out.len() == acc.len() + count_of(ns, Rule::TypedefStmt, i)
            &&& forall|q: int| 0 <= q < acc.len() ==> #[trigger] out[q] == acc[q]
            &&& i <= j < ns.len() && ns[j].rule == Rule::TypedefStmt ==> acc.len() <= acc.len() + place_of(ns, i, j) < out.len()
                && typedef_of(src, ns[j]) == Ok::<TypeDefV, ErrorV>(out[acc.len() + place_of(ns, i, j)])
        }),
    decreases ns.len() - i,
{
    if i < ns.len() {
        if i <= j < ns.len() {
            lemma_place(ns, i, j);
        }
        let g = item_added(src, ns[i], f)->Ok_0;
        lemma_one_of_typedefs(src, ns[i], f);
        law_typedefs_of_a_file(src, ns, i + 1, g, j);
        let out = items_added(src, ns, i, f)->Ok_0.program.typedefs;
        let acc = f.program.typedefs;
        if ns[i].rule == Rule::TypedefStmt {
            assert(out[acc.len() as int] == g.program.typedefs[acc.len() as int]);
        }
        assert forall|q: int| 0 <= q < acc.len() implies #[trigger] out[q] == acc[q] by {
            assert(out[q] == g.program.typedefs[q]);
        }
    }
}

proof fn lemma_one_of_includes(src: SourceV, n: NodeV, f: FileV)
    requires
        item_added(src, n, f) is Ok,
    ensures
        n.rule == Rule::IncludeStmt ==> include_of(src, n) is Ok && item_added(src, n, f)->Ok_0.includes == f.includes.push(
            include_of(src, n)->Ok_0,
        ),
        n.rule != Rule::IncludeStmt ==> item_added(src, n, f)->Ok_0.includes == f.includes,
{
    if n.rule == Rule::TypeDef {
        lemma_type_def_item(src, n, f);
    } else {
        reveal(item_added);
    }
}

/// The includes of a file are those written, in order.
pub proof fn law_includes_of_a_file(src: SourceV, ns: Seq<NodeV>, i: int, f: FileV, j: int)
    requires
        0 <= i,
        items_added(src, ns, i, f) is Ok,
    ensures
        ({
            let out = items_added(src, ns, i, f)->Ok_0.includes;
            let acc = f.includes;
            &&& out.len() == acc.len() + count_of(ns, Rule::IncludeStmt, i)
            &&& forall|q: int| 0 <= q < acc.len() ==> #[trigger] out[q] == acc[q]
            &&& i <= j < ns.len() && ns[j].rule == Rule::IncludeStmt ==> acc.len() <= acc.len() + place_of(ns, i, j) < out.len()
                && include_of(src, ns[j]) == Ok::<IncludeV, ErrorV>(out[acc.len() + place_of(ns, i, j)])
        }),
    decreases ns.len() - i,
{
    if i < ns.len() {
        if i <= j < ns.len() {
            lemma_place(ns, i, j);
        }
        let g = item_added(src, ns[i], f)->Ok_0;
        lemma_one_of_includes(src, ns[i], f);
        law_includes_of_a_file(src, ns, i + 1, g, j);
        let out = items_added(src, ns, i, f)->Ok_0.includes;
        let acc = f.includes;
        if ns[i].rule == Rule::IncludeStmt {
            assert(out[acc.len() as int] == g.includes[acc.len() as int]);
        }
        assert forall|q: int| 0 <= q < acc.len() implies #[trigger] out[q] == acc[q] by {
            assert(out[q] == g.includes[q]);
        }
    }
}

proof fn lemma_one_of_imports(src: SourceV, n: NodeV, f: FileV)
    requires
        item_added(src, n, f) is Ok,
    ensures
        n.rule == Rule::ImportStmt ==> import_of(src, n) is Ok && item_added(src, n, f)->Ok_0.imports == f.imports.push(
            import_of(src, n)->Ok_0,
        ),
        n.rule != Rule::ImportStmt ==> item_added(src, n, f)->Ok_0.imports == f.imports,
{
    if n.rule == Rule::TypeDef {
        lemma_type_def_item(src, n, f);
    } else {
        reveal(item_added);
    }
}

/// The imports of a file are those written, in order.
pub proof fn law_imports_of_a_file(src: SourceV, ns: Seq<NodeV>, i: int, f: FileV, j: int)
    requires
        0 <= i,
        items_added(src, ns, i, f) is Ok,
    ensures
        ({
            let out = items_added(src, ns, i, f)->Ok_0.imports;
            let acc = f.imports;
            &&& out.len() == acc.len() + count_of(ns, Rule::ImportStmt, i)
            &&& forall|q: int| 0 <= q < acc.len() ==> #[trigger] out[q] == acc[q]
            &&& i <= j < ns.len() && ns[j].rule == Rule::ImportStmt ==> acc.len() <= acc.len() + place_of(ns, i, j) < out.len()
                && import_of(src, ns[j]) == Ok::<ModuleImportV, ErrorV>(out[acc.len() + place_of(ns, i, j)])
        }),
    decreases ns.len() - i,
{
    if i < ns.len() {
        if i <= j < ns.len() {
            lemma_place(ns, i, j);
        }
        let g = item_added(src, ns[i], f)->Ok_0;
        lemma_one_of_imports(src, ns[i], f);
        law_imports_of_a_file(src, ns, i + 1, g, j);
        let out = items_added(src, ns, i, f)->Ok_0.imports;
        let acc = f.imports;
        if ns[i].rule == Rule::ImportStmt {
            assert(out[acc.len() as int] == g.imports[acc.len() as int]);
        }
        assert forall|q: int| 0 <= q < acc.len() implies #[trigger] out[q] == acc[q] by {
            assert(out[q] == g.imports[q]);
        }
    }
}

} // verus!
