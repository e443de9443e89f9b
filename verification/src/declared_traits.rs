//! What reading traits, implementations and enum variants keeps: their methods, types and arguments.
use crate::decl::{FieldV, FunctionV, GlobalDeclV, ImplDefinitionV, TraitDefinitionV, TypeParamV};
use crate::declared::{count_of, last_with, lemma_place, none_from, place_of};
use crate::error::ErrorV;
use crate::generics::param_names;
use crate::syntax::{NodeV, Rule};
use crate::tree_decls::{enum_variant_of, function_of, global_of, impl_from, param_field_of, trait_from,
    variant_parts, VariantPartsV};
use crate::tree_types::{type_of, SourceV};
use crate::types::TypeV;
use vstd::prelude::*;

verus! {

/// An implementation has the methods that are written, in order, and is for the written type.
pub proof fn law_parts_of_an_implementation(src: SourceV, ns: Seq<NodeV>, i: int, x: ImplDefinitionV, j: int)
    requires
        0 <= i,
        none_from(ns, Rule::TypeParams, i),
        impl_from(src, ns, i, x) is Ok,
    ensures
        ({
            let out = impl_from(src, ns, i, x)->Ok_0;
            let n = x.methods.len();
            &&& out.trait_type == x.trait_type
            &&& out.params == x.params
            &&& out.methods.len() == n + count_of(ns, Rule::FunctionDecl, i)
            &&& forall|q: int| 0 <= q < n ==> #[trigger] out.methods[q] == x.methods[q]
            &&& i <= j < ns.len() && ns[j].rule == Rule::FunctionDecl ==> 0 <= place_of(ns, i, j) < out.methods.len() - n
                && function_of(src, ns[j], param_names(x.params)) == Ok::<FunctionV, ErrorV>(
                out.methods[n + place_of(ns, i, j)],
            )
            &&& last_with(ns, Rule::TypeAnnotation, i, j) ==> type_of(src, ns[j], param_names(x.params)) == Ok::<
                TypeV,
                ErrorV,
            >(out.for_type)
            &&& none_from(ns, Rule::TypeAnnotation, i) ==> out.for_type == x.for_type
        }),
    decreases ns.len() - i,
{
    if i < ns.len() {
        if i <= j < ns.len() {
            lemma_place(ns, i, j);
        }
        let scope = param_names(x.params);
        let y = if ns[i].rule == Rule::TypeAnnotation {
            ImplDefinitionV { for_type: type_of(src, ns[i], scope)->Ok_0, ..x }
        } else if ns[i].rule == Rule::FunctionDecl {
            ImplDefinitionV { methods: x.methods.push(function_of(src, ns[i], scope)->Ok_0), ..x }
        } else {
            x
        };
        law_parts_of_an_implementation(src, ns, i + 1, y, j);
        let out = impl_from(src, ns, i, x)->Ok_0;
        if ns[i].rule == Rule::FunctionDecl {
            assert(out.methods[x.methods.len() as int] == y.methods[x.methods.len() as int]);
        }
        assert forall|q: int| 0 <= q < x.methods.len() implies #[trigger] out.methods[q] == x.methods[q] by {
            assert(out.methods[q] == y.methods[q]);
        }
        assert(i < j ==> (last_with(ns, Rule::TypeAnnotation, i, j) ==> last_with(ns, Rule::TypeAnnotation, i + 1, j)));
    }
}

/// A trait has the methods and the fields that are written, in order.
pub proof fn law_parts_of_a_trait(src: SourceV, ns: Seq<NodeV>, i: int, t: TraitDefinitionV, assoc: Seq<TypeParamV>, j: int)
    requires
        0 <= i,
        none_from(ns, Rule::TypeParams, i),
        none_from(ns, Rule::TypeParam, i),
        trait_from(src, ns, i, t, assoc) is Ok,
    ensures
        ({
            let out = (trait_from(src, ns, i, t, assoc)->Ok_0).0;
            let n = t.methods.len();
            let m = t.fields.len();
            &&& (trait_from(src, ns, i, t, assoc)->Ok_0).1 == assoc
            &&& out.name == t.name
            &&& out.params == t.params
            &&& out.methods.len() == n + count_of(ns, Rule::FunctionDecl, i)
            &&& out.fields.len() == m + count_of(ns, Rule::VarDecl, i)
            &&& forall|q: int| 0 <= q < n ==> #[trigger] out.methods[q] == t.methods[q]
            &&& forall|q: int| 0 <= q < m ==> #[trigger] out.fields[q] == t.fields[q]
            &&& i <= j < ns.len() && ns[j].rule == Rule::FunctionDecl ==> 0 <= place_of(ns, i, j) < out.methods.len() - n
                && function_of(src, ns[j], param_names(t.params) + param_names(assoc)) == Ok::<FunctionV, ErrorV>(
                out.methods[n + place_of(ns, i, j)],
            )
            &&& i <= j < ns.len() && ns[j].rule == Rule::VarDecl ==> 0 <= place_of(ns, i, j) < out.fields.len() - m
                && global_of(src, ns[j]) == Ok::<GlobalDeclV, ErrorV>(out.fields[m + place_of(ns, i, j)])
        }),
    decreases ns.len() - i,
{
    if i < ns.len() {
        if i <= j < ns.len() {
            lemma_place(ns, i, j);
        }
        let scope = param_names(t.params) + param_names(assoc);
        let y = if ns[i].rule == Rule::FunctionDecl {
            TraitDefinitionV { methods: t.methods.push(function_of(src, ns[i], scope)->Ok_0), ..t }
        } else if ns[i].rule == Rule::VarDecl {
            TraitDefinitionV { fields: t.fields.push(global_of(src, ns[i])->Ok_0), ..t }
        } else {
            t
        };
        law_parts_of_a_trait(src, ns, i + 1, y, assoc, j);
        let out = (trait_from(src, ns, i, t, assoc)->Ok_0).0;
        if ns[i].rule == Rule::FunctionDecl {
            assert(out.methods[t.methods.len() as int] == y.methods[t.methods.len() as int]);
        }
        if ns[i].rule == Rule::VarDecl {
            assert(out.fields[t.fields.len() as int] == y.fields[t.fields.len() as int]);
        }
        assert forall|q: int| 0 <= q < t.methods.len() implies #[trigger] out.methods[q] == t.methods[q] by {
            assert(out.methods[q] == y.methods[q]);
        }
        assert forall|q: int| 0 <= q < t.fields.len() implies #[trigger] out.fields[q] == t.fields[q] by {
            assert(out.fields[q] == y.fields[q]);
        }
    }
}

proof fn lemma_variant(src: SourceV, scope: Seq<Seq<char>>, ns: Seq<NodeV>, i: int, p: VariantPartsV, j: int)
    requires
        0 <= i,
        variant_parts(src, scope, ns, i, p) is Ok,
    ensures
        ({
            let out = variant_parts(src, scope, ns, i, p)->Ok_0;
            let n = p.args.len();
            &&& out.args.len() == n + count_of(ns, Rule::Param, i)
            &&& forall|q: int| 0 <= q < n ==> #[trigger] out.args[q] == p.args[q]
            &&& i <= j < ns.len() && ns[j].rule == Rule::Param ==> 0 <= place_of(ns, i, j) < out.args.len() - n
                && param_field_of(src, ns[j], scope) == Ok::<FieldV, ErrorV>(out.args[n + place_of(ns, i, j)])
            &&& last_with(ns, Rule::Identifier, i, j) ==> out.name == Some(ns[j].text)
            &&& none_from(ns, Rule::Identifier, i) ==> out.name == p.name
            &&& none_from(ns, Rule::Expr, i) ==> out.default == p.default
        }),
    decreases ns.len() - i,
{
    if i < ns.len() {
        if i <= j < ns.len() {
            lemma_place(ns, i, j);
        }
        let y = if ns[i].rule == Rule::Identifier {
            VariantPartsV { name: Some(ns[i].text), ..p }
        } else if ns[i].rule == Rule::Param {
            VariantPartsV { args: p.args.push(param_field_of(src, ns[i], scope)->Ok_0), ..p }
        } else if ns[i].rule == Rule::Expr {
            VariantPartsV { default: Some(crate::tree_types::expr_of(src, ns[i])->Ok_0), ..p }
        } else {
            p
        };
        lemma_variant(src, scope, ns, i + 1, y, j);
        let out = variant_parts(src, scope, ns, i, p)->Ok_0;
        if ns[i].rule == Rule::Param {
            assert(out.args[p.args.len() as int] == y.args[p.args.len() as int]);
        }
        assert forall|q: int| 0 <= q < p.args.len() implies #[trigger] out.args[q] == p.args[q] by {
            assert(out.args[q] == y.args[q]);
        }
        assert(i < j ==> (last_with(ns, Rule::Identifier, i, j) ==> last_with(ns, Rule::Identifier, i + 1, j)));
    }
}

/// A variant of an enum has the written name and arguments, in order, and belongs to the enum.
pub proof fn law_parts_of_a_variant(src: SourceV, n: NodeV, parent: Seq<char>, scope: Seq<Seq<char>>, j: int)
    requires
        enum_variant_of(src, n, parent, scope) is Ok,
    ensures
        ({
            let v = enum_variant_of(src, n, parent, scope)->Ok_0;
            let ns = n.children;
            &&& v.parent == parent
            &&& v.args.len() == count_of(ns, Rule::Param, 1)
            &&& last_with(ns, Rule::Identifier, 1, j) ==> v.name == ns[j].text
            &&& 1 <= j < ns.len() && ns[j].rule == Rule::Param ==> 0 <= place_of(ns, 1, j) < v.args.len() && {
                let f = param_field_of(src, ns[j], scope)->Ok_0;
                &&& v.args[place_of(ns, 1, j)].name == f.name
                &&& v.args[place_of(ns, 1, j)].annotation == f.annotation
                &&& none_from(ns, Rule::Expr, 1) ==> v.args[place_of(ns, 1, j)] == f
            }
        }),
{
    reveal(enum_variant_of);
    let start = VariantPartsV { name: None, args: Seq::empty(), default: None };
    lemma_variant(src, scope, n.children, 1, start, j);
}

} // verus!
