//! From the syntax tree: declarations and whole files.
use crate::ast::{lemma_block_v, opt_expr_v, Block, BlockV, Expr, ExprV, Span};
use crate::decl::{copy_metadatas, default_specializations_v, enum_definitions_v, enum_variants_v,
    field_list_v, functions_v, global_decls_v, impl_definitions_v, includes_v, metadatas_v, no_program,
    params_v, rule_decls_v, rule_sets_v, struct_definitions_v, trait_definitions_v, type_defs_v,
    type_params_v, using_clauses_v, DefaultSpecialization, DefaultSpecializationV, EnumDefinition,
    EnumDefinitionV, EnumVariant, EnumVariantV, Field, FieldV, Function, FunctionV, GlobalDecl, GlobalDeclV,
    ImplDefinition, ImplDefinitionV, Include, IncludeV, Metadata, MetadataV, Param, ParamV, Program,
    ProgramV, RuleDecl, RuleDeclV, RuleSet, RuleSetV, StructDefinition, StructDefinitionV, TraitDefinition,
    TraitDefinitionV, TypeDef, TypeDefV, TypeParam, TypeParamV, UsingClause, UsingClauseV};
use crate::error::{CompilationError, ErrorV};
use crate::generics::{names_of, param_names};
use crate::module::{imports_v, ModuleImport, ModuleImportV};
use crate::syntax::{first_rule, lemma_syntax_v, span_of, NodeV, Rule, SyntaxNode};
use crate::text;
use crate::tree_stmts::{annotation_of, block_of, parse_annotation, value_of};
use crate::tree_types::{bad_at, expr_of, import_of, include_of, modifiers_of, no_scope,
    parse_metadata_and_modifiers, parse_type, parse_type_param, parse_type_params, type_of, type_param_of,
    type_params_of, viewed, Parser, SourceV};
use crate::types::{Type, TypeId, TypeV};
use vstd::prelude::*;

verus! {

/// Whether a declaration is one of a constant.
pub open spec fn is_const_decl(n: NodeV) -> bool {
    first_rule(n.children, Rule::ConstKw, 0) is Some
}

/// A field of a struct. It has a type or a value.
#[verifier::opaque]
pub open spec fn struct_field_of(src: SourceV, n: NodeV, scope: Seq<Seq<char>>) -> Result<FieldV, ErrorV> {
    match first_rule(n.children, Rule::Identifier, 0) {
        None => Err(bad_at(src, span_of(n), "struct field missing name"@)),
        Some(id) => match annotation_of(src, n, scope) {
            Err(e) => Err(e),
            Ok(annotation) => match value_of(src, n) {
                Err(e) => Err(e),
                Ok(default) => if annotation is None && default is None {
                    Err(bad_at(src, span_of(n), "struct field '"@ + id.text + "' must have a type annotation or initializer"@))
                } else {
                    Ok(
                        FieldV {
                            name: id.text,
                            ty: TypeId(0),
                            annotation,
                            is_const: is_const_decl(n),
                            default,
                        },
                    )
                },
            },
        },
    }
}

/// The fields of a struct from position `i` on, appended to `acc`.
pub open spec fn struct_fields_of(src: SourceV, scope: Seq<Seq<char>>, ns: Seq<NodeV>, i: int, acc: Seq<FieldV>) -> Result<Seq<FieldV>, ErrorV>
    decreases ns.len() - i,
{
    if i < 0 || i >= ns.len() {
        Ok(acc)
    } else if ns[i].rule == Rule::VarDecl {
        match struct_field_of(src, ns[i], scope) {
            Ok(x) => struct_fields_of(src, scope, ns, i + 1, acc.push(x)),
            Err(e) => Err(e),
        }
    } else {
        struct_fields_of(src, scope, ns, i + 1, acc)
    }
}

/// A parameter of a function.
pub open spec fn param_of(src: SourceV, at: Span, n: NodeV, scope: Seq<Seq<char>>) -> Result<ParamV, ErrorV> {
    if n.children.len() == 0 {
        Err(bad_at(src, at, "param missing name"@))
    } else if n.children.len() < 2 {
        Err(bad_at(src, at, "param missing type"@))
    } else {
        match type_of(src, n.children[1], scope) {
            Ok(t) => Ok(ParamV { name: n.children[0].text, annotation: Some(t), ty: TypeId(0) }),
            Err(e) => Err(e),
        }
    }
}

/// The parameters of a function from position `i` on, appended to `acc`.
pub open spec fn params_of(
    src: SourceV,
    at: Span,
    scope: Seq<Seq<char>>,
    ns: Seq<NodeV>,
    i: int,
    acc: Seq<ParamV>,
) -> Result<Seq<ParamV>, ErrorV>
    decreases ns.len() - i,
{
    if i < 0 || i >= ns.len() {
        Ok(acc)
    } else if ns[i].rule == Rule::Param {
        match param_of(src, at, ns[i], scope) {
            Ok(x) => params_of(src, at, scope, ns, i + 1, acc.push(x)),
            Err(e) => Err(e),
        }
    } else {
        params_of(src, at, scope, ns, i + 1, acc)
    }
}

/// An argument of an enum variant.
pub open spec fn param_field_of(src: SourceV, n: NodeV, scope: Seq<Seq<char>>) -> Result<FieldV, ErrorV> {
    if n.children.len() == 0 {
        Err(bad_at(src, span_of(n), "param field missing name"@))
    } else if n.children.len() < 2 {
        Err(bad_at(src, span_of(n), "param field missing type annotation"@))
    } else {
        match type_of(src, n.children[1], scope) {
            Err(e) => Err(e),
            Ok(t) => {
                let f = FieldV {
                    name: n.children[0].text,
                    ty: TypeId(0),
                    annotation: Some(t),
                    is_const: false,
                    default: None,
                };
                if n.children.len() < 3 {
                    Ok(f)
                } else {
                    match expr_of(src, n.children[2]) {
                        Ok(x) => Ok(FieldV { default: Some(x), ..f }),
                        Err(e) => Err(e),
                    }
                }
            },
        }
    }
}

/// What is read of an enum variant: its name, its arguments and its default.
pub struct VariantPartsV {
    pub name: Option<Seq<char>>,
    pub args: Seq<FieldV>,
    pub default: Option<ExprV>,
}

/// The parts of an enum variant from position `i` on, added to those before.
pub open spec fn variant_parts(src: SourceV, scope: Seq<Seq<char>>, ns: Seq<NodeV>, i: int, p: VariantPartsV) -> Result<
    VariantPartsV,
    ErrorV,
>
    decreases ns.len() - i,
{
    if i < 0 || i >= ns.len() {
        Ok(p)
    } else if ns[i].rule == Rule::Identifier {
        variant_parts(src, scope, ns, i + 1, VariantPartsV { name: Some(ns[i].text), ..p })
    } else if ns[i].rule == Rule::Param {
        match param_field_of(src, ns[i], scope) {
            Ok(f) => variant_parts(src, scope, ns, i + 1, VariantPartsV { args: p.args.push(f), ..p }),
            Err(e) => Err(e),
        }
    } else if ns[i].rule == Rule::Expr {
        match expr_of(src, ns[i]) {
            Ok(x) => variant_parts(src, scope, ns, i + 1, VariantPartsV { default: Some(x), ..p }),
            Err(e) => Err(e),
        }
    } else {
        variant_parts(src, scope, ns, i + 1, p)
    }
}

/// The arguments of a variant, of which the last gets the default of the variant.
pub open spec fn args_with_default(args: Seq<FieldV>, default: Option<ExprV>) -> Seq<FieldV> {
    if default is Some && args.len() > 0 {
        args.update(args.len() - 1, FieldV { default, ..args.last() })
    } else {
        args
    }
}

/// A variant of an enum.
#[verifier::opaque]
pub open spec fn enum_variant_of(src: SourceV, n: NodeV, parent: Seq<char>, scope: Seq<Seq<char>>) -> Result<EnumVariantV, ErrorV> {
    let start = VariantPartsV { name: None, args: Seq::empty(), default: None };
    match variant_parts(src, scope, n.children, 1, start) {
        Err(e) => Err(e),
        Ok(p) => match p.name {
            None => Err(bad_at(src, span_of(n), "enum variant missing name"@)),
            Some(name) => Ok(
                EnumVariantV {
                    name,
                    parent,
                    args: args_with_default(p.args, p.default),
                    default: None,
                    metadata: modifiers_of(
                        if n.children.len() > 0 {
                            Some(n.children[0])
                        } else {
                            None
                        },
                    ).0,
                },
            ),
        },
    }
}

/// The variants of an enum from position `i` on, appended to `acc`.
pub open spec fn variants_of(src: SourceV, parent: Seq<char>, scope: Seq<Seq<char>>, ns: Seq<NodeV>, i: int, acc: Seq<EnumVariantV>) -> Result<Seq<EnumVariantV>, ErrorV>
    decreases ns.len() - i,
{
    if i < 0 || i >= ns.len() {
        Ok(acc)
    } else if ns[i].rule == Rule::EnumVariant {
        match enum_variant_of(src, ns[i], parent, scope) {
            Ok(x) => variants_of(src, parent, scope, ns, i + 1, acc.push(x)),
            Err(e) => Err(e),
        }
    } else {
        variants_of(src, parent, scope, ns, i + 1, acc)
    }
}

/// The name of a definition: its first part, which is an identifier.
pub open spec fn definition_name(n: NodeV, i: int) -> Option<Seq<char>> {
    if 0 <= i < n.children.len() && n.children[i].rule == Rule::Identifier {
        Some(n.children[i].text)
    } else {
        None
    }
}

/// The type parameters of a definition behind its name, and the position behind them. The last
/// list counts.
pub open spec fn leading_params(src: SourceV, ns: Seq<NodeV>, i: int, acc: Seq<TypeParamV>) -> Result<(Seq<TypeParamV>, int), ErrorV>
    decreases ns.len() - i,
{
    if i < 0 || i >= ns.len() || ns[i].rule != Rule::TypeParams {
        Ok((acc, i))
    } else {
        match type_params_of(src, ns[i]) {
            Ok(ps) => leading_params(src, ns, i + 1, ps),
            Err(e) => Err(e),
        }
    }
}

/// A struct.
#[verifier::opaque]
pub open spec fn struct_def_of(src: SourceV, n: NodeV, metadata: Seq<MetadataV>, is_public: bool) -> Result<
    StructDefinitionV,
    ErrorV,
> {
    match definition_name(n, 0) {
        None => Err(bad_at(src, span_of(n), "struct definition missing name"@)),
        Some(name) => match leading_params(src, n.children, 1, Seq::empty()) {
            Err(e) => Err(e),
            Ok((type_params, at)) => match struct_fields_of(src, param_names(type_params), n.children, at, Seq::empty()) {
                Err(e) => Err(e),
                Ok(fields) => Ok(StructDefinitionV { name, type_params, fields, is_public, metadata }),
            },
        },
    }
}

/// An enum.
#[verifier::opaque]
pub open spec fn enum_def_of(src: SourceV, n: NodeV, metadata: Seq<MetadataV>, is_public: bool) -> Result<
    EnumDefinitionV,
    ErrorV,
> {
    match definition_name(n, 0) {
        None => Err(bad_at(src, span_of(n), "enum definition missing name"@)),
        Some(name) => match leading_params(src, n.children, 1, Seq::empty()) {
            Err(e) => Err(e),
            Ok((type_params, at)) => match variants_of(src, name, param_names(type_params), n.children, at, Seq::empty()) {
                Err(e) => Err(e),
                Ok(variants) => Ok(EnumDefinitionV { name, type_params, variants, is_public, metadata }),
            },
        },
    }
}

/// The attributes and the visibility in front of a declaration, and the position behind them.
pub open spec fn leading_modifiers(n: NodeV) -> (Seq<MetadataV>, bool, int) {
    if n.children.len() > 0 && n.children[0].rule == Rule::MetadataAndModifiers {
        let m = modifiers_of(Some(n.children[0]));
        (m.0, m.1, 1)
    } else {
        (Seq::empty(), true, 0)
    }
}

/// A function with what the parts from position `i` on add to it.
pub open spec fn function_from(src: SourceV, outer: Seq<Seq<char>>, ns: Seq<NodeV>, i: int, f: FunctionV) -> Result<
    FunctionV,
    ErrorV,
>
    decreases ns.len() - i,
{
    if i < 0 || i >= ns.len() {
        Ok(f)
    } else {
        let scope = outer + param_names(f.type_params);
        if ns[i].rule == Rule::TypeParams {
            match type_params_of(src, ns[i]) {
                Ok(type_params) => function_from(src, outer, ns, i + 1, FunctionV { type_params, ..f }),
                Err(e) => Err(e),
            }
        } else if ns[i].rule == Rule::Params {
            match params_of(src, span_of(ns[i]), scope, ns[i].children, 0, Seq::empty()) {
                Ok(params) => function_from(src, outer, ns, i + 1, FunctionV { params, ..f }),
                Err(e) => Err(e),
            }
        } else if ns[i].rule == Rule::TypeAnnotation {
            match type_of(src, ns[i], scope) {
                Ok(t) => function_from(src, outer, ns, i + 1, FunctionV { return_type: Some(t), ..f }),
                Err(e) => Err(e),
            }
        } else if ns[i].rule == Rule::Block {
            match block_of(src, ns[i], scope) {
                Ok(body) => function_from(src, outer, ns, i + 1, FunctionV { body, ..f }),
                Err(e) => Err(e),
            }
        } else {
            function_from(src, outer, ns, i + 1, f)
        }
    }
}

/// A function, inside definitions with the given type parameters.
#[verifier::opaque]
pub open spec fn function_of(src: SourceV, n: NodeV, outer: Seq<Seq<char>>) -> Result<FunctionV, ErrorV> {
    let m = leading_modifiers(n);
    if m.2 >= n.children.len() {
        Err(bad_at(src, span_of(n), "function missing name"@))
    } else {
        function_from(
            src,
            outer,
            n.children,
            m.2 + 1,
            FunctionV {
                name: n.children[m.2].text,
                type_params: Seq::empty(),
                params: Seq::empty(),
                return_type: None,
                inferred_return: None,
                body: BlockV { stmts: Seq::empty() },
                is_public: m.1,
                metadata: m.0,
            },
        )
    }
}

/// A global.
#[verifier::opaque]
pub open spec fn global_of(src: SourceV, n: NodeV) -> Result<GlobalDeclV, ErrorV> {
    let m = modifiers_of(first_rule(n.children, Rule::MetadataAndModifiers, 0));
    match first_rule(n.children, Rule::Identifier, 0) {
        None => Err(bad_at(src, span_of(n), "global var_decl missing identifier"@)),
        Some(id) => match annotation_of(src, n, Seq::empty()) {
            Err(e) => Err(e),
            Ok(annotation) => match value_of(src, n) {
                Err(e) => Err(e),
                Ok(init) => Ok(
                    GlobalDeclV {
                        name: id.text,
                        annotation,
                        inferred: TypeId(0),
                        init,
                        is_const: is_const_decl(n),
                        is_public: m.1,
                        metadata: m.0,
                    },
                ),
            },
        },
    }
}

/// A trait with what the parts from position `i` on add to it, and its associated parameters.
pub open spec fn trait_from(src: SourceV, ns: Seq<NodeV>, i: int, t: TraitDefinitionV, assoc: Seq<TypeParamV>) -> Result<
    (TraitDefinitionV, Seq<TypeParamV>),
    ErrorV,
>
    decreases ns.len() - i,
{
    if i < 0 || i >= ns.len() {
        Ok((t, assoc))
    } else if ns[i].rule == Rule::TypeParams {
        match type_params_of(src, ns[i]) {
            Ok(params) => trait_from(src, ns, i + 1, TraitDefinitionV { params, ..t }, assoc),
            Err(e) => Err(e),
        }
    } else if ns[i].rule == Rule::TypeParam {
        match type_param_of(src, ns[i]) {
            Ok(p) => trait_from(src, ns, i + 1, t, assoc.push(p)),
            Err(e) => Err(e),
        }
    } else if ns[i].rule == Rule::FunctionDecl {
        match function_of(src, ns[i], param_names(t.params) + param_names(assoc)) {
            Ok(f) => trait_from(src, ns, i + 1, TraitDefinitionV { methods: t.methods.push(f), ..t }, assoc),
            Err(e) => Err(e),
        }
    } else if ns[i].rule == Rule::VarDecl {
        match global_of(src, ns[i]) {
            Ok(g) => trait_from(src, ns, i + 1, TraitDefinitionV { fields: t.fields.push(g), ..t }, assoc),
            Err(e) => Err(e),
        }
    } else {
        trait_from(src, ns, i + 1, t, assoc)
    }
}

/// A trait.
#[verifier::opaque]
pub open spec fn trait_def_of(src: SourceV, n: NodeV) -> Result<TraitDefinitionV, ErrorV> {
    let m = leading_modifiers(n);
    match definition_name(n, m.2) {
        None => Err(bad_at(src, span_of(n), "trait definition missing name"@)),
        Some(name) => trait_finished(
            trait_from(
                src,
                n.children,
                m.2 + 1,
                TraitDefinitionV {
                    name,
                    params: Seq::empty(),
                    methods: Seq::empty(),
                    fields: Seq::empty(),
                    is_public: m.1,
                },
                Seq::empty(),
            ),
        ),
    }
}

/// A trait with its associated parameters behind its own.
pub open spec fn trait_finished(r: Result<(TraitDefinitionV, Seq<TypeParamV>), ErrorV>) -> Result<TraitDefinitionV, ErrorV> {
    match r {
        Err(e) => Err(e),
        Ok((t, assoc)) => Ok(TraitDefinitionV { params: t.params + assoc, ..t }),
    }
}

/// An implementation with what the parts from position `i` on add to it.
pub open spec fn impl_from(src: SourceV, ns: Seq<NodeV>, i: int, x: ImplDefinitionV) -> Result<ImplDefinitionV, ErrorV>
    decreases ns.len() - i,
{
    if i < 0 || i >= ns.len() {
        Ok(x)
    } else if ns[i].rule == Rule::TypeParams {
        match type_params_of(src, ns[i]) {
            Ok(params) => impl_from(src, ns, i + 1, ImplDefinitionV { params, ..x }),
            Err(e) => Err(e),
        }
    } else if ns[i].rule == Rule::TypeAnnotation {
        match type_of(src, ns[i], param_names(x.params)) {
            Ok(for_type) => impl_from(src, ns, i + 1, ImplDefinitionV { for_type, ..x }),
            Err(e) => Err(e),
        }
    } else if ns[i].rule == Rule::FunctionDecl {
        match function_of(src, ns[i], param_names(x.params)) {
            Ok(f) => impl_from(src, ns, i + 1, ImplDefinitionV { methods: x.methods.push(f), ..x }),
            Err(e) => Err(e),
        }
    } else {
        impl_from(src, ns, i + 1, x)
    }
}

/// The position behind the attributes in front of a declaration.
pub open spec fn behind_modifiers(n: NodeV) -> int {
    if n.children.len() > 0 && n.children[0].rule == Rule::MetadataAndModifiers {
        1
    } else {
        0
    }
}

/// An implementation of a trait.
#[verifier::opaque]
pub open spec fn trait_impl_of(src: SourceV, n: NodeV) -> Result<ImplDefinitionV, ErrorV> {
    let at = behind_modifiers(n);
    if at >= n.children.len() {
        Err(bad_at(src, span_of(n), "trait impl missing trait type"@))
    } else {
        match type_of(src, n.children[at], Seq::empty()) {
            Err(e) => Err(e),
            Ok(trait_type) => impl_from(
                src,
                n.children,
                at + 1,
                ImplDefinitionV {
                    name: Seq::empty(),
                    trait_type,
                    for_type: TypeV::Void,
                    params: Seq::empty(),
                    methods: Seq::empty(),
                },
            ),
        }
    }
}

/// The name of the trait that a default specialization is for.
pub open spec fn specialized_trait(t: TypeV) -> Option<Seq<char>> {
    match t {
        TypeV::Named(n) => Some(n),
        TypeV::Instance { base, .. } => Some(base),
        _ => None,
    }
}

/// A default specialization.
pub open spec fn default_decl_of(src: SourceV, n: NodeV) -> Result<DefaultSpecializationV, ErrorV> {
    if n.children.len() == 0 {
        Err(bad_at(src, span_of(n), "default specialization missing trait"@))
    } else {
        match type_of(src, n.children[0], Seq::empty()) {
            Err(e) => Err(e),
            Ok(t) => if n.children.len() < 2 {
                Err(bad_at(src, span_of(n), "default specialization missing default type"@))
            } else {
                match type_of(src, n.children[1], Seq::empty()) {
                    Err(e) => Err(e),
                    Ok(default_type) => match specialized_trait(t) {
                        Some(trait_name) => Ok(DefaultSpecializationV { trait_name, default_type }),
                        None => Err(
                            bad_at(src, span_of(n), "default specialization trait must be a trait name, got "@ + crate::types::c_name(t)),
                        ),
                    },
                }
            },
        }
    }
}

/// A rule: a pattern and what it becomes.
pub open spec fn rule_decl_of(src: SourceV, n: NodeV) -> Result<RuleDeclV, ErrorV> {
    if n.children.len() == 0 {
        Err(bad_at(src, span_of(n), "rule missing pattern"@))
    } else {
        match expr_of(src, n.children[0]) {
            Err(e) => Err(e),
            Ok(pattern) => if n.children.len() < 2 {
                Ok(RuleDeclV { pattern, body: None })
            } else {
                match expr_of(src, n.children[1]) {
                    Err(e) => Err(e),
                    Ok(x) => Ok(RuleDeclV { pattern, body: Some(x) }),
                }
            },
        }
    }
}

/// The rules from position `i` on, appended to `acc`.
pub open spec fn rule_decls_of(src: SourceV, ns: Seq<NodeV>, i: int, acc: Seq<RuleDeclV>) -> Result<Seq<RuleDeclV>, ErrorV>
    decreases ns.len() - i,
{
    if i < 0 || i >= ns.len() {
        Ok(acc)
    } else if ns[i].rule == Rule::RuleDecl {
        match rule_decl_of(src, ns[i]) {
            Ok(x) => rule_decls_of(src, ns, i + 1, acc.push(x)),
            Err(e) => Err(e),
        }
    } else {
        rule_decls_of(src, ns, i + 1, acc)
    }
}

/// A set of rules.
pub open spec fn rule_set_of(src: SourceV, n: NodeV) -> Result<RuleSetV, ErrorV> {
    match definition_name(n, 0) {
        None => Err(bad_at(src, span_of(n), "rule set missing name"@)),
        Some(name) => match rule_decls_of(src, n.children, 1, Seq::empty()) {
            Err(e) => Err(e),
            Ok(rules) => Ok(RuleSetV { name, rules }),
        },
    }
}

/// An alias.
pub open spec fn typedef_of(src: SourceV, n: NodeV) -> Result<TypeDefV, ErrorV> {
    if n.children.len() == 0 {
        Err(bad_at(src, span_of(n), "typedef missing name"@))
    } else if n.children.len() < 2 {
        Err(bad_at(src, span_of(n), "typedef missing type"@))
    } else {
        match type_of(src, n.children[1], Seq::empty()) {
            Ok(type_def) => Ok(TypeDefV { name: n.children[0].text, type_def }),
            Err(e) => Err(e),
        }
    }
}

/// A `using` clause: a set of rules, or an implicit value.
pub open spec fn using_clause_of(src: SourceV, n: NodeV) -> Result<UsingClauseV, ErrorV> {
    if n.children.len() == 0 {
        Err(bad_at(src, span_of(n), "using clause is empty"@))
    } else if n.children[0].rule == Rule::TypeAnnotation {
        match type_of(src, n.children[0], Seq::empty()) {
            Ok(t) => Ok(UsingClauseV::RuleSet(t)),
            Err(e) => Err(e),
        }
    } else {
        match expr_of(src, n.children[0]) {
            Ok(x) => Ok(UsingClauseV::Implicit(x)),
            Err(e) => Err(e),
        }
    }
}

/// The `using` clauses from position `i` on, appended to `acc`.
pub open spec fn using_of(src: SourceV, ns: Seq<NodeV>, i: int, acc: Seq<UsingClauseV>) -> Result<Seq<UsingClauseV>, ErrorV>
    decreases ns.len() - i,
{
    if i < 0 || i >= ns.len() {
        Ok(acc)
    } else if ns[i].rule == Rule::UsingClause {
        match using_clause_of(src, ns[i]) {
            Ok(x) => using_of(src, ns, i + 1, acc.push(x)),
            Err(e) => Err(e),
        }
    } else {
        using_of(src, ns, i + 1, acc)
    }
}

/// What a file holds.
pub struct ParsedFile {
    pub includes: Vec<Include>,
    pub imports: Vec<ModuleImport>,
    pub program: Program,
    pub usings: Vec<UsingClause>,
}

/// The contents of what a file holds.
pub struct FileV {
    pub includes: Seq<IncludeV>,
    pub imports: Seq<ModuleImportV>,
    pub program: ProgramV,
    pub usings: Seq<UsingClauseV>,
}

impl View for ParsedFile {
    type V = FileV;

    open spec fn view(&self) -> FileV {
        FileV {
            includes: includes_v(self.includes@),
            imports: imports_v(self.imports@),
            program: self.program@,
            usings: using_clauses_v(self.usings@),
        }
    }
}

/// The structs and enums of a type definition from position `i` on, added to a program.
pub open spec fn type_defs_from(
    src: SourceV,
    metadata: Seq<MetadataV>,
    is_public: bool,
    ns: Seq<NodeV>,
    i: int,
    p: ProgramV,
) -> Result<ProgramV, ErrorV>
    decreases ns.len() - i,
{
    if i < 0 || i >= ns.len() {
        Ok(p)
    } else if ns[i].rule == Rule::EnumDef {
        match enum_def_of(src, ns[i], metadata, is_public) {
            Ok(d) => type_defs_from(src, metadata, is_public, ns, i + 1, ProgramV { enums: p.enums.push(d), ..p }),
            Err(e) => Err(e),
        }
    } else if ns[i].rule == Rule::StructDef {
        match struct_def_of(src, ns[i], metadata, is_public) {
            Ok(d) => type_defs_from(
                src,
                metadata,
                is_public,
                ns,
                i + 1,
                ProgramV { structs: p.structs.push(d), ..p },
            ),
            Err(e) => Err(e),
        }
    } else {
        type_defs_from(src, metadata, is_public, ns, i + 1, p)
    }
}

/// What one declaration adds to a file.
#[verifier::opaque]
pub open spec fn item_added(src: SourceV, n: NodeV, f: FileV) -> Result<FileV, ErrorV> {
    match n.rule {
        Rule::IncludeStmt => match include_of(src, n) {
            Ok(x) => Ok(FileV { includes: f.includes.push(x), ..f }),
            Err(e) => Err(e),
        },
        Rule::ImportStmt => match import_of(src, n) {
            Ok(x) => Ok(FileV { imports: f.imports.push(x), ..f }),
            Err(e) => Err(e),
        },
        Rule::VarDecl => match global_of(src, n) {
            Ok(x) => Ok(FileV { program: ProgramV { globals: f.program.globals.push(x), ..f.program }, ..f }),
            Err(e) => Err(e),
        },
        Rule::FunctionDecl => match function_of(src, n, Seq::empty()) {
            Ok(x) => Ok(FileV { program: ProgramV { functions: f.program.functions.push(x), ..f.program }, ..f }),
            Err(e) => Err(e),
        },
        Rule::TypeDef => {
            let m = modifiers_of(
                if n.children.len() > 0 {
                    Some(n.children[0])
                } else {
                    None
                },
            );
            match type_defs_from(src, m.0, m.1, n.children, 1, f.program) {
                Ok(program) => Ok(FileV { program, ..f }),
                Err(e) => Err(e),
            }
        },
        Rule::TraitDef => match trait_def_of(src, n) {
            Ok(x) => Ok(FileV { program: ProgramV { traits: f.program.traits.push(x), ..f.program }, ..f }),
            Err(e) => Err(e),
        },
        Rule::TraitImpl => match trait_impl_of(src, n) {
            Ok(x) => Ok(FileV { program: ProgramV { impls: f.program.impls.push(x), ..f.program }, ..f }),
            Err(e) => Err(e),
        },
        Rule::DefaultDecl => match default_decl_of(src, n) {
            Ok(x) => Ok(FileV { program: ProgramV { defaults: f.program.defaults.push(x), ..f.program }, ..f }),
            Err(e) => Err(e),
        },
        Rule::RuleSet => match rule_set_of(src, n) {
            Ok(x) => Ok(FileV { program: ProgramV { rulesets: f.program.rulesets.push(x), ..f.program }, ..f }),
            Err(e) => Err(e),
        },
        Rule::TypedefStmt => match typedef_of(src, n) {
            Ok(x) => Ok(FileV { program: ProgramV { typedefs: f.program.typedefs.push(x), ..f.program }, ..f }),
            Err(e) => Err(e),
        },
        Rule::UsingStmt => match using_of(src, n.children, 0, Seq::empty()) {
            Ok(xs) => Ok(FileV { usings: f.usings + xs, ..f }),
            Err(e) => Err(e),
        },
        _ => Ok(f),
    }
}

/// What the declarations from position `i` on add to a file.
pub open spec fn items_added(src: SourceV, ns: Seq<NodeV>, i: int, f: FileV) -> Result<FileV, ErrorV>
    decreases ns.len() - i,
{
    if i < 0 || i >= ns.len() {
        Ok(f)
    } else {
        match item_added(src, ns[i], f) {
            Ok(g) => items_added(src, ns, i + 1, g),
            Err(e) => Err(e),
        }
    }
}

/// A file without declarations.
pub open spec fn no_file() -> FileV {
    FileV { includes: Seq::empty(), imports: Seq::empty(), program: no_program(), usings: Seq::empty() }
}

/// What the tree of a file holds.
pub open spec fn file_of(src: SourceV, root: NodeV) -> Result<FileV, ErrorV> {
    items_added(src, root.children, 0, no_file())
}

/// Adding declarations never takes any away: the functions of a file only grow.
pub proof fn law_declarations_are_kept(src: SourceV, ns: Seq<NodeV>, i: int, f: FileV)
    requires
        items_added(src, ns, i, f) is Ok,
    ensures
        f.program.functions.len() <= items_added(src, ns, i, f)->Ok_0.program.functions.len(),
        f.program.functions == items_added(src, ns, i, f)->Ok_0.program.functions.take(
            f.program.functions.len() as int,
        ),
    decreases ns.len() - i,
{
    reveal(item_added);
    if 0 <= i < ns.len() {
        let g = item_added(src, ns[i], f)->Ok_0;
        lemma_types_keep_functions(src, ns[i], f);
        law_declarations_are_kept(src, ns, i + 1, g);
        let out = items_added(src, ns, i, f)->Ok_0.program.functions;
        assert(g.program.functions.take(f.program.functions.len() as int) =~= f.program.functions);
        assert(out.take(f.program.functions.len() as int) =~= g.program.functions.take(
            f.program.functions.len() as int,
        ));
    } else {
        assert(f.program.functions.take(f.program.functions.len() as int) =~= f.program.functions);
    }
}

proof fn lemma_types_keep_functions(src: SourceV, n: NodeV, f: FileV)
    ensures
        n.rule == Rule::TypeDef && item_added(src, n, f) is Ok ==> item_added(src, n, f)->Ok_0.program.functions
            == f.program.functions,
{
    reveal(item_added);
    if n.rule == Rule::TypeDef {
        let m = modifiers_of(
            if n.children.len() > 0 {
                Some(n.children[0])
            } else {
                None
            },
        );
        lemma_type_defs_keep(src, m.0, m.1, n.children, 1, f.program);
    }
}

proof fn lemma_type_defs_keep(src: SourceV, metadata: Seq<MetadataV>, is_public: bool, ns: Seq<NodeV>, i: int, p: ProgramV)
    ensures
        type_defs_from(src, metadata, is_public, ns, i, p) is Ok ==> type_defs_from(
            src,
            metadata,
            is_public,
            ns,
            i,
            p,
        )->Ok_0.functions == p.functions,
    decreases ns.len() - i,
{
    if 0 <= i < ns.len() {
        if ns[i].rule == Rule::EnumDef {
            match enum_def_of(src, ns[i], metadata, is_public) {
                Ok(d) => lemma_type_defs_keep(
                    src,
                    metadata,
                    is_public,
                    ns,
                    i + 1,
                    ProgramV { enums: p.enums.push(d), ..p },
                ),
                Err(_) => {},
            }
        } else if ns[i].rule == Rule::StructDef {
            match struct_def_of(src, ns[i], metadata, is_public) {
                Ok(d) => lemma_type_defs_keep(
                    src,
                    metadata,
                    is_public,
                    ns,
                    i + 1,
                    ProgramV { structs: p.structs.push(d), ..p },
                ),
                Err(_) => {},
            }
        } else {
            lemma_type_defs_keep(src, metadata, is_public, ns, i + 1, p);
        }
    }
}

fn joined_scope(a: &Vec<String>, b: &Vec<TypeParam>) -> (r: Vec<String>)
    ensures
        text::texts(r@) == text::texts(a@) + param_names(type_params_v(b@)),
{
    let mut out = text::copy_texts(a, a.len());
    let mut more = names_of(b);
    let ghost m = more@;
    let ghost o = out@;
    out.append(&mut more);
    proof {
        assert(text::texts(o) =~= text::texts(a@));
        assert(text::texts(out@) =~= text::texts(o) + text::texts(m));
    }
    out
}

fn leading(n: &SyntaxNode) -> (r: (Vec<Metadata>, bool, usize))
    ensures
        (metadatas_v(r.0@), r.1, r.2 as int) == leading_modifiers(n@),
        r.2 <= n.children@.len(),
{
    proof {
        lemma_syntax_v(*n);
    }
    if n.children.len() > 0 {
        proof {
            assert(n@.children[0] == n.children@[0]@);
            lemma_syntax_v(n.children@[0]);
        }
        if n.children[0].rule == Rule::MetadataAndModifiers {
            let m = parse_metadata_and_modifiers(Some(&n.children[0]));
            return (m.0, m.1, 1);
        }
    }
    let none: Vec<Metadata> = Vec::new();
    proof {
        assert(metadatas_v(none@) =~= Seq::<MetadataV>::empty());
    }
    (none, true, 0)
}

fn name_at(n: &SyntaxNode, i: usize) -> (r: Option<String>)
    ensures
        crate::escape::opt_text(r) == definition_name(n@, i as int),
{
    proof {
        lemma_syntax_v(*n);
    }
    if i < n.children.len() {
        proof {
            assert(n@.children[i as int] == n.children@[i as int]@);
            lemma_syntax_v(n.children@[i as int]);
        }
        if n.children[i].rule == Rule::Identifier {
            return Some(n.children[i].text.clone());
        }
    }
    None
}

fn params_behind_name(parser: &Parser, n: &SyntaxNode) -> (r: Result<(Vec<TypeParam>, usize), CompilationError>)
    requires
        n.children@.len() > 0,
    ensures
        match r {
            Ok((ps, at)) => leading_params(parser@, n@.children, 1, Seq::empty()) == Ok::<(Seq<TypeParamV>, int), ErrorV>(
                (type_params_v(ps@), at as int),
            ) && at <= n.children@.len(),
            Err(e) => leading_params(parser@, n@.children, 1, Seq::empty()) == Err::<(Seq<TypeParamV>, int), ErrorV>(e@),
        },
{
    proof {
        lemma_syntax_v(*n);
    }
    let ghost cs = n@.children;
    let mut ps: Vec<TypeParam> = Vec::new();
    let mut i: usize = 1;
    proof {
        assert(type_params_v(ps@) =~= Seq::<TypeParamV>::empty());
    }
    while i < n.children.len()
        invariant
            1 <= i <= n.children@.len(),
            cs == n@.children,
            cs.len() == n.children@.len(),
            forall|k: int| 0 <= k < n.children@.len() ==> #[trigger] cs[k] == n.children@[k]@,
            leading_params(parser@, cs, 1, Seq::empty()) == leading_params(parser@, cs, i as int, type_params_v(ps@)),
        decreases n.children@.len() - i,
    {
        proof {
            assert(cs[i as int] == n.children@[i as int]@);
            lemma_syntax_v(n.children@[i as int]);
        }
        if n.children[i].rule != Rule::TypeParams {
            return Ok((ps, i));
        }
        match parse_type_params(parser, &n.children[i]) {
            Ok(v) => {
                ps = v;
            },
            Err(e) => return Err(e),
        }
        i = i + 1;
    }
    Ok((ps, i))
}

impl Parser {
    fn parse_struct_field(&self, n: &SyntaxNode, scope: &Vec<String>) -> (r: Result<Field, CompilationError>)
        requires
            self.fits(),
        ensures
            viewed(r) == struct_field_of(self@, n@, text::texts(scope@)),
    {
        proof {
            reveal(struct_field_of);
        }
        let id = match n.find_rule(Rule::Identifier) {
            None => return Err(self.error_at(n.span(), "struct field missing name")),
            Some(k) => k,
        };
        proof {
            lemma_syntax_v(*id);
        }
        let annotation = match parse_annotation(self, n, scope) {
            Err(e) => return Err(e),
            Ok(t) => t,
        };
        let default = match self.parse_value(n) {
            Err(e) => return Err(e),
            Ok(x) => x,
        };
        if annotation.is_none() && default.is_none() {
            return Err(
                self.error_at(n.span(), "struct field '".to_owned().concat(id.text.as_str()).concat(
                        "' must have a type annotation or initializer",
                    ).as_str(),
                ),
            );
        }
        let is_const = n.find_rule(Rule::ConstKw).is_some();
        Ok(Field { name: id.text.clone(), ty: TypeId(0), annotation, is_const, default })
    }

    fn parse_struct_fields(&self, n: &SyntaxNode, scope: &Vec<String>, from: usize) -> (r: Result<Vec<Field>, CompilationError>)
        requires
            self.fits(),
            from <= n.children@.len(),
        ensures
            (match r {
                Ok(v) => Ok::<Seq<FieldV>, ErrorV>(field_list_v(v@)),
                Err(e) => Err(e@),
            }) == struct_fields_of(self@, text::texts(scope@), n@.children, from as int, Seq::empty()),
    {
        proof {
            lemma_syntax_v(*n);
        }
        let ghost cs = n@.children;
        let mut out: Vec<Field> = Vec::new();
        let mut i: usize = from;
        proof {
            assert(field_list_v(out@) =~= Seq::<FieldV>::empty());
        }
        while i < n.children.len()
            invariant
                from <= i <= n.children@.len(),
                self.fits(),
                cs == n@.children,
                cs.len() == n.children@.len(),
                forall|k: int| 0 <= k < n.children@.len() ==> #[trigger] cs[k] == n.children@[k]@,
                struct_fields_of(self@, text::texts(scope@), cs, from as int, Seq::empty()) == struct_fields_of(self@, text::texts(scope@), cs, i as int, field_list_v(out@)),
            decreases n.children@.len() - i,
        {
            proof {
                assert(cs[i as int] == n.children@[i as int]@);
                lemma_syntax_v(n.children@[i as int]);
            }
            if n.children[i].rule == Rule::VarDecl {
                match self.parse_struct_field(&n.children[i], scope) {
                    Ok(x) => {
                        proof {
                            assert(field_list_v(out@.push(x)) =~= field_list_v(out@).push(x@));
                        }
                        out.push(x);
                    },
                    Err(e) => return Err(e),
                }
            }
            i = i + 1;
        }
        Ok(out)
    }

    fn parse_param(&self, at: Span, n: &SyntaxNode, scope: &Vec<String>) -> (r: Result<Param, CompilationError>)
        ensures
            viewed(r) == param_of(self@, at, n@, text::texts(scope@)),
    {
        proof {
            lemma_syntax_v(*n);
        }
        if n.children.len() == 0 {
            return Err(self.error_at(at, "param missing name"));
        }
        if n.children.len() < 2 {
            return Err(self.error_at(at, "param missing type"));
        }
        proof {
            assert(n@.children[0] == n.children@[0]@);
            lemma_syntax_v(n.children@[0]);
        }
        proof {
            assert(n@.children[1] == n.children@[1]@);
            lemma_syntax_v(n.children@[1]);
        }
        match parse_type(self, &n.children[1], scope) {
            Ok(t) => Ok(Param { name: n.children[0].text.clone(), annotation: Some(t), ty: TypeId(0) }),
            Err(e) => Err(e),
        }
    }

    fn parse_params(&self, n: &SyntaxNode, scope: &Vec<String>) -> (r: Result<Vec<Param>, CompilationError>)
        ensures
            (match r {
                Ok(v) => Ok::<Seq<ParamV>, ErrorV>(params_v(v@)),
                Err(e) => Err(e@),
            }) == params_of(self@, span_of(n@), text::texts(scope@), n@.children, 0, Seq::empty()),
    {
        proof {
            lemma_syntax_v(*n);
        }
        let at = n.span();
        let ghost cs = n@.children;
        let mut out: Vec<Param> = Vec::new();
        let mut i: usize = 0;
        proof {
            assert(params_v(out@) =~= Seq::<ParamV>::empty());
        }
        while i < n.children.len()
            invariant
                0 <= i <= n.children@.len(),
                cs == n@.children,
                cs.len() == n.children@.len(),
                at == span_of(n@),
                forall|k: int| 0 <= k < n.children@.len() ==> #[trigger] cs[k] == n.children@[k]@,
                params_of(self@, at, text::texts(scope@), cs, 0, Seq::empty()) == params_of(
                    self@,
                    at,
                    text::texts(scope@),
                    cs,
                    i as int,
                    params_v(out@),
                ),
            decreases n.children@.len() - i,
        {
            proof {
                assert(cs[i as int] == n.children@[i as int]@);
                lemma_syntax_v(n.children@[i as int]);
            }
            if n.children[i].rule == Rule::Param {
                match self.parse_param(at, &n.children[i], scope) {
                    Ok(x) => {
                        proof {
                            assert(params_v(out@.push(x)) =~= params_v(out@).push(x@));
                        }
                        out.push(x);
                    },
                    Err(e) => return Err(e),
                }
            }
            i = i + 1;
        }
        Ok(out)
    }

    fn parse_param_field(&self, n: &SyntaxNode, scope: &Vec<String>) -> (r: Result<Field, CompilationError>)
        requires
            self.fits(),
        ensures
            viewed(r) == param_field_of(self@, n@, text::texts(scope@)),
    {
        proof {
            lemma_syntax_v(*n);
        }
        if n.children.len() == 0 {
            return Err(self.error_at(n.span(), "param field missing name"));
        }
        if n.children.len() < 2 {
            return Err(self.error_at(n.span(), "param field missing type annotation"));
        }
        proof {
            assert(n@.children[0] == n.children@[0]@);
            lemma_syntax_v(n.children@[0]);
        }
        proof {
            assert(n@.children[1] == n.children@[1]@);
            lemma_syntax_v(n.children@[1]);
        }
        let t = match parse_type(self, &n.children[1], scope) {
            Err(e) => return Err(e),
            Ok(t) => t,
        };
        let default = if n.children.len() < 3 {
            None
        } else {
            proof {
            assert(n@.children[2] == n.children@[2]@);
            lemma_syntax_v(n.children@[2]);
        }
            match self.parse_expr(&n.children[2]) {
                Ok(x) => Some(x),
                Err(e) => return Err(e),
            }
        };
        Ok(Field { name: n.children[0].text.clone(), ty: TypeId(0), annotation: Some(t), is_const: false, default })
    }

    fn parse_variant_parts(&self, n: &SyntaxNode, scope: &Vec<String>) -> (r: Result<
        (Option<String>, Vec<Field>, Option<Expr>),
        CompilationError,
    >)
        requires
            self.fits(),
        ensures
            (match r {
                Ok((name, args, default)) => Ok::<VariantPartsV, ErrorV>(
                    VariantPartsV {
                        name: crate::escape::opt_text(name),
                        args: field_list_v(args@),
                        default: opt_expr_v(default),
                    },
                ),
                Err(e) => Err(e@),
            }) == variant_parts(
                self@,
                text::texts(scope@),
                n@.children,
                1,
                VariantPartsV { name: None, args: Seq::empty(), default: None },
            ),
    {
        proof {
            lemma_syntax_v(*n);
        }
        let ghost cs = n@.children;
        let ghost p0 = VariantPartsV { name: None, args: Seq::empty(), default: None };
        let mut name: Option<String> = None;
        let mut args: Vec<Field> = Vec::new();
        let mut default: Option<Expr> = None;
        let mut i: usize = 1;
        proof {
            assert(field_list_v(args@) =~= Seq::<FieldV>::empty());
        }
        while i < n.children.len()
            invariant
                1 <= i,
                self.fits(),
                cs == n@.children,
                cs.len() == n.children@.len(),
                p0 == (VariantPartsV { name: None, args: Seq::empty(), default: None }),
                forall|k: int| 0 <= k < n.children@.len() ==> #[trigger] cs[k] == n.children@[k]@,
                variant_parts(self@, text::texts(scope@), cs, 1, p0) == variant_parts(
                    self@,
                    text::texts(scope@),
                    cs,
                    i as int,
                    VariantPartsV {
                        name: crate::escape::opt_text(name),
                        args: field_list_v(args@),
                        default: opt_expr_v(default),
                    },
                ),
            decreases n.children@.len() - i,
        {
            proof {
                assert(cs[i as int] == n.children@[i as int]@);
                lemma_syntax_v(n.children@[i as int]);
            }
            let c = &n.children[i];
            if c.rule == Rule::Identifier {
                name = Some(c.text.clone());
            } else if c.rule == Rule::Param {
                match self.parse_param_field(c, scope) {
                    Err(e) => return Err(e),
                    Ok(f) => {
                        proof {
                            assert(field_list_v(args@.push(f)) =~= field_list_v(args@).push(f@));
                        }
                        args.push(f);
                    },
                }
            } else if c.rule == Rule::Expr {
                match self.parse_expr(c) {
                    Err(e) => return Err(e),
                    Ok(x) => {
                        default = Some(x);
                    },
                }
            }
            i = i + 1;
        }
        Ok((name, args, default))
    }

    fn parse_enum_variant(&self, n: &SyntaxNode, parent: &str, scope: &Vec<String>) -> (r: Result<
        EnumVariant,
        CompilationError,
    >)
        requires
            self.fits(),
        ensures
            viewed(r) == enum_variant_of(self@, n@, parent@, text::texts(scope@)),
    {
        proof {
            reveal(enum_variant_of);
        }
        proof {
            lemma_syntax_v(*n);
        }
        let (name, args, default) = match self.parse_variant_parts(n, scope) {
            Err(e) => return Err(e),
            Ok(p) => p,
        };
        let name = match name {
            None => return Err(self.error_at(n.span(), "enum variant missing name")),
            Some(s) => s,
        };
        let m = if n.children.len() > 0 {
            assert(n@.children[0] == n.children@[0]@);
            parse_metadata_and_modifiers(Some(&n.children[0]))
        } else {
            parse_metadata_and_modifiers(None)
        };
        let mut args = args;
        let ghost a0 = args@;
        let ghost d0 = opt_expr_v(default);
        proof {
            assert(field_list_v(a0).len() == a0.len());
        }
        match default {
            Some(x) => {
                if args.len() > 0 {
                    let k: usize = args.len() - 1;
                    let mut last = crate::decl::copy_field(&args[k]);
                    last.default = Some(x);
                    let ghost lv = last@;
                    args.set(k, last);
                    proof {
                        assert(field_list_v(a0)[k as int] == a0[k as int]@);
                        assert(field_list_v(args@) =~= field_list_v(a0).update(k as int, lv));
                    }
                }
            },
            None => {},
        }
        proof {
            assert(field_list_v(args@) == args_with_default(field_list_v(a0), d0));
        }
        Ok(EnumVariant { name, parent: parent.to_owned(), args, default: None, metadata: m.0 })
    }

    fn parse_variants(&self, n: &SyntaxNode, parent: &str, scope: &Vec<String>, from: usize) -> (r: Result<Vec<EnumVariant>, CompilationError>)
        requires
            self.fits(),
            from <= n.children@.len(),
        ensures
            (match r {
                Ok(v) => Ok::<Seq<EnumVariantV>, ErrorV>(enum_variants_v(v@)),
                Err(e) => Err(e@),
            }) == variants_of(self@, parent@, text::texts(scope@), n@.children, from as int, Seq::empty()),
    {
        proof {
            lemma_syntax_v(*n);
        }
        let ghost cs = n@.children;
        let mut out: Vec<EnumVariant> = Vec::new();
        let mut i: usize = from;
        proof {
            assert(enum_variants_v(out@) =~= Seq::<EnumVariantV>::empty());
        }
        while i < n.children.len()
            invariant
                from <= i <= n.children@.len(),
                self.fits(),
                cs == n@.children,
                cs.len() == n.children@.len(),
                forall|k: int| 0 <= k < n.children@.len() ==> #[trigger] cs[k] == n.children@[k]@,
                variants_of(self@, parent@, text::texts(scope@), cs, from as int, Seq::empty()) == variants_of(self@, parent@, text::texts(scope@), cs, i as int, enum_variants_v(out@)),
            decreases n.children@.len() - i,
        {
            proof {
                assert(cs[i as int] == n.children@[i as int]@);
                lemma_syntax_v(n.children@[i as int]);
            }
            if n.children[i].rule == Rule::EnumVariant {
                match self.parse_enum_variant(&n.children[i], parent, scope) {
                    Ok(x) => {
                        proof {
                            assert(enum_variants_v(out@.push(x)) =~= enum_variants_v(out@).push(x@));
                        }
                        out.push(x);
                    },
                    Err(e) => return Err(e),
                }
            }
            i = i + 1;
        }
        Ok(out)
    }

    /// Reads a struct.
    pub fn parse_struct_def(&self, n: &SyntaxNode, metadata: Vec<Metadata>, is_public: bool) -> (r: Result<StructDefinition, CompilationError>)
        requires
            self.fits(),
        ensures
            viewed(r) == struct_def_of(self@, n@, metadatas_v(metadata@), is_public),
    {
        proof {
            lemma_syntax_v(*n);
        }
        proof {
            reveal(struct_def_of);
        }
        let name = match name_at(n, 0) {
            None => return Err(self.error_at(n.span(), "struct definition missing name")),
            Some(s) => s,
        };
        let (type_params, at) = match params_behind_name(self, n) {
            Err(e) => return Err(e),
            Ok(p) => p,
        };
        match self.parse_struct_fields(n, &names_of(&type_params), at) {
            Err(e) => Err(e),
            Ok(fields) => Ok(StructDefinition { name, type_params, fields, is_public, metadata }),
        }
    }

    /// Reads an enum.
    pub fn parse_enum_def(&self, n: &SyntaxNode, metadata: Vec<Metadata>, is_public: bool) -> (r: Result<EnumDefinition, CompilationError>)
        requires
            self.fits(),
        ensures
            viewed(r) == enum_def_of(self@, n@, metadatas_v(metadata@), is_public),
    {
        proof {
            lemma_syntax_v(*n);
        }
        proof {
            reveal(enum_def_of);
        }
        let name = match name_at(n, 0) {
            None => return Err(self.error_at(n.span(), "enum definition missing name")),
            Some(s) => s,
        };
        let (type_params, at) = match params_behind_name(self, n) {
            Err(e) => return Err(e),
            Ok(p) => p,
        };
        match self.parse_variants(n, name.as_str(), &names_of(&type_params), at) {
            Err(e) => Err(e),
            Ok(variants) => Ok(EnumDefinition { name, type_params, variants, is_public, metadata }),
        }
    }

    /// Reads a function, inside definitions with the given type parameters.
    pub fn parse_function(&self, n: &SyntaxNode, outer: &Vec<String>) -> (r: Result<Function, CompilationError>)
        requires
            self.fits(),
        ensures
            viewed(r) == function_of(self@, n@, text::texts(outer@)),
    {
        proof {
            reveal(function_of);
        }
        proof {
            lemma_syntax_v(*n);
        }
        let (metadata, is_public, at) = leading(n);
        if at >= n.children.len() {
            return Err(self.error_at(n.span(), "function missing name"));
        }
        let ghost cs = n@.children;
        proof {
            assert(cs[at as int] == n.children@[at as int]@);
            lemma_syntax_v(n.children@[at as int]);
        }
        let mut f = Function {
            name: n.children[at].text.clone(),
            type_params: Vec::new(),
            params: Vec::new(),
            return_type: None,
            inferred_return: None,
            body: Block { stmts: Vec::new() },
            is_public,
            metadata,
        };
        proof {
            assert(f@.type_params =~= Seq::<TypeParamV>::empty());
            assert(f@.params =~= Seq::<ParamV>::empty());
            lemma_block_v(f.body);
            assert(f@.body.stmts =~= Seq::empty());
            assert(function_of(self@, n@, text::texts(outer@)) == function_from(
                self@,
                text::texts(outer@),
                cs,
                at + 1,
                f@,
            ));
        }
        let mut i: usize = at + 1;
        while i < n.children.len()
            invariant
                1 <= i <= n.children@.len(),
                self.fits(),
                cs == n@.children,
                cs.len() == n.children@.len(),
                forall|k: int| 0 <= k < n.children@.len() ==> #[trigger] cs[k] == n.children@[k]@,
                function_of(self@, n@, text::texts(outer@)) == function_from(
                    self@,
                    text::texts(outer@),
                    cs,
                    i as int,
                    f@,
                ),
            decreases n.children@.len() - i,
        {
            proof {
                assert(cs[i as int] == n.children@[i as int]@);
                lemma_syntax_v(n.children@[i as int]);
            }
            let c = &n.children[i];
            let scope = joined_scope(outer, &f.type_params);
            if c.rule == Rule::TypeParams {
                match parse_type_params(self, c) {
                    Err(e) => return Err(e),
                    Ok(v) => {
                        f.type_params = v;
                    },
                }
            } else if c.rule == Rule::Params {
                match self.parse_params(c, &scope) {
                    Err(e) => return Err(e),
                    Ok(v) => {
                        f.params = v;
                    },
                }
            } else if c.rule == Rule::TypeAnnotation {
                match parse_type(self, c, &scope) {
                    Err(e) => return Err(e),
                    Ok(t) => {
                        f.return_type = Some(t);
                    },
                }
            } else if c.rule == Rule::Block {
                match self.parse_block(c, &scope) {
                    Err(e) => return Err(e),
                    Ok(b) => {
                        f.body = b;
                    },
                }
            }
            i = i + 1;
        }
        Ok(f)
    }

    /// Reads a global.
    pub fn parse_global_var_decl(&self, n: &SyntaxNode) -> (r: Result<GlobalDecl, CompilationError>)
        requires
            self.fits(),
        ensures
            viewed(r) == global_of(self@, n@),
    {
        proof {
            reveal(global_of);
        }
        let m = parse_metadata_and_modifiers(n.find_rule(Rule::MetadataAndModifiers));
        let id = match n.find_rule(Rule::Identifier) {
            None => return Err(self.error_at(n.span(), "global var_decl missing identifier")),
            Some(k) => k,
        };
        proof {
            lemma_syntax_v(*id);
        }
        let annotation = match parse_annotation(self, n, &no_scope()) {
            Err(e) => return Err(e),
            Ok(t) => t,
        };
        let init = match self.parse_value(n) {
            Err(e) => return Err(e),
            Ok(x) => x,
        };
        let is_const = n.find_rule(Rule::ConstKw).is_some();
        Ok(
            GlobalDecl {
                name: id.text.clone(),
                annotation,
                inferred: TypeId(0),
                init,
                is_const,
                is_public: m.1,
                metadata: m.0,
            },
        )
    }

    /// Reads a trait.
    pub fn parse_trait_def(&self, n: &SyntaxNode) -> (r: Result<TraitDefinition, CompilationError>)
        requires
            self.fits(),
        ensures
            viewed(r) == trait_def_of(self@, n@),
    {
        proof {
            reveal(trait_def_of);
        }
        proof {
            lemma_syntax_v(*n);
        }
        let (_metadata, is_public, at) = leading(n);
        let name = match name_at(n, at) {
            None => return Err(self.error_at(n.span(), "trait definition missing name")),
            Some(s) => s,
        };
        let ghost cs = n@.children;
        let mut t = TraitDefinition {
            name,
            params: Vec::new(),
            methods: Vec::new(),
            fields: Vec::new(),
            is_public,
        };
        let mut assoc: Vec<TypeParam> = Vec::new();
        let ghost t0 = t@;
        proof {
            assert(t0.params =~= Seq::<TypeParamV>::empty());
            assert(t0.methods =~= Seq::<FunctionV>::empty());
            assert(t0.fields =~= Seq::<GlobalDeclV>::empty());
            assert(type_params_v(assoc@) =~= Seq::<TypeParamV>::empty());
        }
        let mut i: usize = at + 1;
        while i < n.children.len()
            invariant
                1 <= i <= n.children@.len(),
                self.fits(),
                cs == n@.children,
                cs.len() == n.children@.len(),
                forall|k: int| 0 <= k < n.children@.len() ==> #[trigger] cs[k] == n.children@[k]@,
                trait_def_of(self@, n@) == trait_finished(
                    trait_from(self@, cs, i as int, t@, type_params_v(assoc@)),
                ),
            decreases n.children@.len() - i,
        {
            proof {
                assert(cs[i as int] == n.children@[i as int]@);
                lemma_syntax_v(n.children@[i as int]);
            }
            let c = &n.children[i];
            if c.rule == Rule::TypeParams {
                match parse_type_params(self, c) {
                    Err(e) => return Err(e),
                    Ok(v) => {
                        t.params = v;
                    },
                }
            } else if c.rule == Rule::TypeParam {
                match parse_type_param(self, c) {
                    Err(e) => return Err(e),
                    Ok(p) => {
                        proof {
                            assert(type_params_v(assoc@.push(p)) =~= type_params_v(assoc@).push(p@));
                        }
                        assoc.push(p);
                    },
                }
            } else if c.rule == Rule::FunctionDecl {
                let scope = joined_scope(&names_of(&t.params), &assoc);
                match self.parse_function(c, &scope) {
                    Err(e) => return Err(e),
                    Ok(f) => {
                        proof {
                            assert(functions_v(t.methods@.push(f)) =~= functions_v(t.methods@).push(f@));
                        }
                        t.methods.push(f);
                    },
                }
            } else if c.rule == Rule::VarDecl {
                match self.parse_global_var_decl(c) {
                    Err(e) => return Err(e),
                    Ok(g) => {
                        proof {
                            assert(global_decls_v(t.fields@.push(g)) =~= global_decls_v(t.fields@).push(g@));
                        }
                        t.fields.push(g);
                    },
                }
            }
            i = i + 1;
        }
        let ghost tp = t.params@;
        let ghost av = assoc@;
        t.params.append(&mut assoc);
        proof {
            assert(type_params_v(t.params@) =~= type_params_v(tp) + type_params_v(av));
        }
        Ok(t)
    }

    /// Reads an implementation of a trait.
    pub fn parse_trait_impl(&self, n: &SyntaxNode) -> (r: Result<ImplDefinition, CompilationError>)
        requires
            self.fits(),
        ensures
            viewed(r) == trait_impl_of(self@, n@),
    {
        proof {
            reveal(trait_impl_of);
        }
        proof {
            lemma_syntax_v(*n);
        }
        let ghost cs = n@.children;
        let at: usize = if n.children.len() > 0 {
            proof {
                assert(cs[0] == n.children@[0]@);
                lemma_syntax_v(n.children@[0]);
            }
            if n.children[0].rule == Rule::MetadataAndModifiers {
                1
            } else {
                0
            }
        } else {
            0
        };
        if at >= n.children.len() {
            return Err(self.error_at(n.span(), "trait impl missing trait type"));
        }
        assert(cs[at as int] == n.children@[at as int]@);
        let trait_type = match parse_type(self, &n.children[at], &no_scope()) {
            Err(e) => return Err(e),
            Ok(t) => t,
        };
        let mut x = ImplDefinition {
            name: String::new(),
            trait_type,
            for_type: Type::Void,
            params: Vec::new(),
            methods: Vec::new(),
        };
        let ghost x0 = x@;
        proof {
            assert(x0.params =~= Seq::<TypeParamV>::empty());
            assert(x0.methods =~= Seq::<FunctionV>::empty());
            assert(x0.name =~= Seq::<char>::empty());
            assert(trait_impl_of(self@, n@) == impl_from(self@, cs, at + 1, x0));
        }
        let mut i: usize = at + 1;
        while i < n.children.len()
            invariant
                1 <= i <= n.children@.len(),
                self.fits(),
                cs == n@.children,
                cs.len() == n.children@.len(),
                forall|k: int| 0 <= k < n.children@.len() ==> #[trigger] cs[k] == n.children@[k]@,
                trait_impl_of(self@, n@) == impl_from(self@, cs, i as int, x@),
            decreases n.children@.len() - i,
        {
            proof {
                assert(cs[i as int] == n.children@[i as int]@);
                lemma_syntax_v(n.children@[i as int]);
            }
            let c = &n.children[i];
            if c.rule == Rule::TypeParams {
                match parse_type_params(self, c) {
                    Err(e) => return Err(e),
                    Ok(v) => {
                        x.params = v;
                    },
                }
            } else if c.rule == Rule::TypeAnnotation {
                match parse_type(self, c, &names_of(&x.params)) {
                    Err(e) => return Err(e),
                    Ok(t) => {
                        x.for_type = t;
                    },
                }
            } else if c.rule == Rule::FunctionDecl {
                match self.parse_function(c, &names_of(&x.params)) {
                    Err(e) => return Err(e),
                    Ok(f) => {
                        proof {
                            assert(functions_v(x.methods@.push(f)) =~= functions_v(x.methods@).push(f@));
                        }
                        x.methods.push(f);
                    },
                }
            }
            i = i + 1;
        }
        Ok(x)
    }

    /// Reads a default specialization.
    pub fn parse_default_decl(&self, n: &SyntaxNode) -> (r: Result<DefaultSpecialization, CompilationError>)
        ensures
            viewed(r) == default_decl_of(self@, n@),
    {
        broadcast use crate::types::lemma_type_v;

        proof {
            lemma_syntax_v(*n);
        }
        if n.children.len() == 0 {
            return Err(self.error_at(n.span(), "default specialization missing trait"));
        }
        assert(n@.children[0] == n.children@[0]@);
        let t = match parse_type(self, &n.children[0], &no_scope()) {
            Err(e) => return Err(e),
            Ok(t) => t,
        };
        if n.children.len() < 2 {
            return Err(self.error_at(n.span(), "default specialization missing default type"));
        }
        assert(n@.children[1] == n.children@[1]@);
        let default_type = match parse_type(self, &n.children[1], &no_scope()) {
            Err(e) => return Err(e),
            Ok(t) => t,
        };
        match &t {
            Type::Named(name) => Ok(DefaultSpecialization { trait_name: name.clone(), default_type }),
            Type::Instance { base, args: _ } => Ok(DefaultSpecialization { trait_name: base.clone(), default_type }),
            _ => Err(
                self.error_at(n.span(), "default specialization trait must be a trait name, got ".to_owned().concat(
                        t.to_c_name().as_str(),
                    ).as_str(),
                ),
            ),
        }
    }

    fn parse_rule_decl(&self, n: &SyntaxNode) -> (r: Result<RuleDecl, CompilationError>)
        requires
            self.fits(),
        ensures
            viewed(r) == rule_decl_of(self@, n@),
    {
        proof {
            lemma_syntax_v(*n);
        }
        if n.children.len() == 0 {
            return Err(self.error_at(n.span(), "rule missing pattern"));
        }
        assert(n@.children[0] == n.children@[0]@);
        let pattern = match self.parse_expr(&n.children[0]) {
            Err(e) => return Err(e),
            Ok(x) => x,
        };
        if n.children.len() < 2 {
            return Ok(RuleDecl { pattern, body: None });
        }
        assert(n@.children[1] == n.children@[1]@);
        match self.parse_expr(&n.children[1]) {
            Err(e) => Err(e),
            Ok(x) => Ok(RuleDecl { pattern, body: Some(x) }),
        }
    }

    fn parse_rule_decls(&self, n: &SyntaxNode, from: usize) -> (r: Result<Vec<RuleDecl>, CompilationError>)
        requires
            self.fits(),
            from <= n.children@.len(),
        ensures
            (match r {
                Ok(v) => Ok::<Seq<RuleDeclV>, ErrorV>(rule_decls_v(v@)),
                Err(e) => Err(e@),
            }) == rule_decls_of(self@, n@.children, from as int, Seq::empty()),
    {
        proof {
            lemma_syntax_v(*n);
        }
        let ghost cs = n@.children;
        let mut out: Vec<RuleDecl> = Vec::new();
        let mut i: usize = from;
        proof {
            assert(rule_decls_v(out@) =~= Seq::<RuleDeclV>::empty());
        }
        while i < n.children.len()
            invariant
                from <= i <= n.children@.len(),
                self.fits(),
                cs == n@.children,
                cs.len() == n.children@.len(),
                forall|k: int| 0 <= k < n.children@.len() ==> #[trigger] cs[k] == n.children@[k]@,
                rule_decls_of(self@, cs, from as int, Seq::empty()) == rule_decls_of(self@, cs, i as int, rule_decls_v(out@)),
            decreases n.children@.len() - i,
        {
            proof {
                assert(cs[i as int] == n.children@[i as int]@);
                lemma_syntax_v(n.children@[i as int]);
            }
            if n.children[i].rule == Rule::RuleDecl {
                match self.parse_rule_decl(&n.children[i]) {
                    Ok(x) => {
                        proof {
                            assert(rule_decls_v(out@.push(x)) =~= rule_decls_v(out@).push(x@));
                        }
                        out.push(x);
                    },
                    Err(e) => return Err(e),
                }
            }
            i = i + 1;
        }
        Ok(out)
    }

    /// Reads a set of rules.
    pub fn parse_rule_set(&self, n: &SyntaxNode) -> (r: Result<RuleSet, CompilationError>)
        requires
            self.fits(),
        ensures
            viewed(r) == rule_set_of(self@, n@),
    {
        proof {
            lemma_syntax_v(*n);
        }
        let name = match name_at(n, 0) {
            None => return Err(self.error_at(n.span(), "rule set missing name")),
            Some(s) => s,
        };
        match self.parse_rule_decls(n, 1) {
            Err(e) => Err(e),
            Ok(rules) => Ok(RuleSet { name, rules }),
        }
    }

    /// Reads an alias.
    pub fn parse_typedef(&self, n: &SyntaxNode) -> (r: Result<TypeDef, CompilationError>)
        ensures
            viewed(r) == typedef_of(self@, n@),
    {
        proof {
            lemma_syntax_v(*n);
        }
        if n.children.len() == 0 {
            return Err(self.error_at(n.span(), "typedef missing name"));
        }
        if n.children.len() < 2 {
            return Err(self.error_at(n.span(), "typedef missing type"));
        }
        proof {
            assert(n@.children[0] == n.children@[0]@);
            lemma_syntax_v(n.children@[0]);
        }
        proof {
            assert(n@.children[1] == n.children@[1]@);
            lemma_syntax_v(n.children@[1]);
        }
        match parse_type(self, &n.children[1], &no_scope()) {
            Ok(type_def) => Ok(TypeDef { name: n.children[0].text.clone(), type_def }),
            Err(e) => Err(e),
        }
    }

    fn parse_using_clause(&self, n: &SyntaxNode) -> (r: Result<UsingClause, CompilationError>)
        requires
            self.fits(),
        ensures
            viewed(r) == using_clause_of(self@, n@),
    {
        proof {
            lemma_syntax_v(*n);
        }
        if n.children.len() == 0 {
            return Err(self.error_at(n.span(), "using clause is empty"));
        }
        proof {
            assert(n@.children[0] == n.children@[0]@);
            lemma_syntax_v(n.children@[0]);
        }
        if n.children[0].rule == Rule::TypeAnnotation {
            match parse_type(self, &n.children[0], &no_scope()) {
                Ok(t) => Ok(UsingClause::RuleSet(t)),
                Err(e) => Err(e),
            }
        } else {
            match self.parse_expr(&n.children[0]) {
                Ok(x) => Ok(UsingClause::Implicit(x)),
                Err(e) => Err(e),
            }
        }
    }

    /// Reads the clauses of a `using`.
    pub fn parse_using(&self, n: &SyntaxNode) -> (r: Result<Vec<UsingClause>, CompilationError>)
        requires
            self.fits(),
        ensures
            (match r {
                Ok(v) => Ok::<Seq<UsingClauseV>, ErrorV>(using_clauses_v(v@)),
                Err(e) => Err(e@),
            }) == using_of(self@, n@.children, 0, Seq::empty()),
    {
        proof {
            lemma_syntax_v(*n);
        }
        let ghost cs = n@.children;
        let mut out: Vec<UsingClause> = Vec::new();
        let mut i: usize = 0;
        proof {
            assert(using_clauses_v(out@) =~= Seq::<UsingClauseV>::empty());
        }
        while i < n.children.len()
            invariant
                0 <= i <= n.children@.len(),
                self.fits(),
                cs == n@.children,
                cs.len() == n.children@.len(),
                forall|k: int| 0 <= k < n.children@.len() ==> #[trigger] cs[k] == n.children@[k]@,
                using_of(self@, cs, 0, Seq::empty()) == using_of(self@, cs, i as int, using_clauses_v(out@)),
            decreases n.children@.len() - i,
        {
            proof {
                assert(cs[i as int] == n.children@[i as int]@);
                lemma_syntax_v(n.children@[i as int]);
            }
            if n.children[i].rule == Rule::UsingClause {
                match self.parse_using_clause(&n.children[i]) {
                    Ok(x) => {
                        proof {
                            assert(using_clauses_v(out@.push(x)) =~= using_clauses_v(out@).push(x@));
                        }
                        out.push(x);
                    },
                    Err(e) => return Err(e),
                }
            }
            i = i + 1;
        }
        Ok(out)
    }

    fn parse_type_defs(&self, n: &SyntaxNode, p: Program) -> (r: Result<Program, CompilationError>)
        requires
            self.fits(),
        ensures
            viewed(r) == ({
                let m = modifiers_of(
                    if n@.children.len() > 0 {
                        Some(n@.children[0])
                    } else {
                        None
                    },
                );
                type_defs_from(self@, m.0, m.1, n@.children, 1, p@)
            }),
    {
        proof {
            lemma_syntax_v(*n);
        }
        let ghost cs = n@.children;
        let m = if n.children.len() > 0 {
            assert(cs[0] == n.children@[0]@);
            parse_metadata_and_modifiers(Some(&n.children[0]))
        } else {
            parse_metadata_and_modifiers(None)
        };
        let ghost mv = metadatas_v(m.0@);
        let ghost p0 = p@;
        let mut q = p;
        let mut i: usize = 1;
        while i < n.children.len()
            invariant
                1 <= i,
                self.fits(),
                cs == n@.children,
                cs.len() == n.children@.len(),
                mv == metadatas_v(m.0@),
                p0 == p@,
                (mv, m.1) == modifiers_of(
                    if n@.children.len() > 0 {
                        Some(n@.children[0])
                    } else {
                        None
                    },
                ),
                forall|k: int| 0 <= k < n.children@.len() ==> #[trigger] cs[k] == n.children@[k]@,
                type_defs_from(self@, mv, m.1, cs, 1, p0) == type_defs_from(
                    self@,
                    mv,
                    m.1,
                    cs,
                    i as int,
                    q@,
                ),
            decreases n.children@.len() - i,
        {
            proof {
                assert(cs[i as int] == n.children@[i as int]@);
                lemma_syntax_v(n.children@[i as int]);
            }
            let c = &n.children[i];
            if c.rule == Rule::EnumDef {
                match self.parse_enum_def(c, copy_metadatas(&m.0), m.1) {
                    Err(e) => return Err(e),
                    Ok(d) => {
                        proof {
                            assert(enum_definitions_v(q.enums@.push(d)) =~= enum_definitions_v(q.enums@).push(d@));
                        }
                        q.enums.push(d);
                    },
                }
            } else if c.rule == Rule::StructDef {
                match self.parse_struct_def(c, copy_metadatas(&m.0), m.1) {
                    Err(e) => return Err(e),
                    Ok(d) => {
                        proof {
                            assert(struct_definitions_v(q.structs@.push(d)) =~= struct_definitions_v(q.structs@).push(
                                d@,
                            ));
                        }
                        q.structs.push(d);
                    },
                }
            }
            i = i + 1;
        }
        Ok(q)
    }

    fn parse_item(&self, n: &SyntaxNode, f: ParsedFile) -> (r: Result<ParsedFile, CompilationError>)
        requires
            self.fits(),
        ensures
            viewed(r) == item_added(self@, n@, f@),
    {
        proof {
            reveal(item_added);
        }
        proof {
            lemma_syntax_v(*n);
        }
        let mut f = f;
        match n.rule {
            Rule::IncludeStmt => match self.parse_include(n) {
                Err(e) => return Err(e),
                Ok(x) => {
                    proof {
                        assert(includes_v(f.includes@.push(x)) =~= includes_v(f.includes@).push(x@));
                    }
                    f.includes.push(x);
                },
            },
            Rule::ImportStmt => match self.parse_import(n) {
                Err(e) => return Err(e),
                Ok(x) => {
                    proof {
                        assert(imports_v(f.imports@.push(x)) =~= imports_v(f.imports@).push(x@));
                    }
                    f.imports.push(x);
                },
            },
            Rule::VarDecl => match self.parse_global_var_decl(n) {
                Err(e) => return Err(e),
                Ok(x) => {
                    proof {
                        assert(global_decls_v(f.program.globals@.push(x)) =~= global_decls_v(f.program.globals@).push(x@));
                    }
                    f.program.globals.push(x);
                },
            },
            Rule::FunctionDecl => match self.parse_function(n, &no_scope()) {
                Err(e) => return Err(e),
                Ok(x) => {
                    proof {
                        assert(functions_v(f.program.functions@.push(x)) =~= functions_v(f.program.functions@).push(x@));
                    }
                    f.program.functions.push(x);
                },
            },
            Rule::TraitDef => match self.parse_trait_def(n) {
                Err(e) => return Err(e),
                Ok(x) => {
                    proof {
                        assert(trait_definitions_v(f.program.traits@.push(x)) =~= trait_definitions_v(f.program.traits@).push(x@));
                    }
                    f.program.traits.push(x);
                },
            },
            Rule::TraitImpl => match self.parse_trait_impl(n) {
                Err(e) => return Err(e),
                Ok(x) => {
                    proof {
                        assert(impl_definitions_v(f.program.impls@.push(x)) =~= impl_definitions_v(f.program.impls@).push(x@));
                    }
                    f.program.impls.push(x);
                },
            },
            Rule::DefaultDecl => match self.parse_default_decl(n) {
                Err(e) => return Err(e),
                Ok(x) => {
                    proof {
                        assert(default_specializations_v(f.program.defaults@.push(x)) =~= default_specializations_v(f.program.defaults@).push(x@));
                    }
                    f.program.defaults.push(x);
                },
            },
            Rule::RuleSet => match self.parse_rule_set(n) {
                Err(e) => return Err(e),
                Ok(x) => {
                    proof {
                        assert(rule_sets_v(f.program.rulesets@.push(x)) =~= rule_sets_v(f.program.rulesets@).push(x@));
                    }
                    f.program.rulesets.push(x);
                },
            },
            Rule::TypedefStmt => match self.parse_typedef(n) {
                Err(e) => return Err(e),
                Ok(x) => {
                    proof {
                        assert(type_defs_v(f.program.typedefs@.push(x)) =~= type_defs_v(f.program.typedefs@).push(x@));
                    }
                    f.program.typedefs.push(x);
                },
            },
            Rule::TypeDef => {
                let p = crate::decl::copy_program(&f.program);
                match self.parse_type_defs(n, p) {
                    Err(e) => return Err(e),
                    Ok(p) => {
                        f.program = p;
                    },
                }
            },
            Rule::UsingStmt => match self.parse_using(n) {
                Err(e) => return Err(e),
                Ok(xs) => {
                    let mut xs = xs;
                    let ghost xv = xs@;
                    let ghost u0 = f.usings@;
                    f.usings.append(&mut xs);
                    proof {
                        assert(using_clauses_v(f.usings@) =~= using_clauses_v(u0) + using_clauses_v(xv));
                    }
                },
            },
            _ => {},
        }
        Ok(f)
    }

    /// Reads the tree of a file.
    pub fn parse_file(&self, root: &SyntaxNode) -> (r: Result<ParsedFile, CompilationError>)
        requires
            self.fits(),
        ensures
            viewed(r) == file_of(self@, root@),
    {
        proof {
            lemma_syntax_v(*root);
        }
        let ghost cs = root@.children;
        let mut f = ParsedFile {
            includes: Vec::new(),
            imports: Vec::new(),
            program: Program::empty(),
            usings: Vec::new(),
        };
        let ghost f0 = f@;
        proof {
            assert(f0.includes =~= Seq::<IncludeV>::empty());
            assert(f0.imports =~= Seq::<ModuleImportV>::empty());
            assert(f0.usings =~= Seq::<UsingClauseV>::empty());
        }
        let mut i: usize = 0;
        while i < root.children.len()
            invariant
                i <= root.children@.len(),
                self.fits(),
                cs == root@.children,
                cs.len() == root.children@.len(),
                forall|k: int| 0 <= k < root.children@.len() ==> #[trigger] cs[k] == root.children@[k]@,
                f0 == no_file(),
                items_added(self@, cs, 0, f0) == items_added(self@, cs, i as int, f@),
            decreases root.children@.len() - i,
        {
            assert(cs[i as int] == root.children@[i as int]@);
            match self.parse_item(&root.children[i], f) {
                Err(e) => return Err(e),
                Ok(g) => {
                    f = g;
                },
            }
            i = i + 1;
        }
        Ok(f)
    }
}

} // verus!
