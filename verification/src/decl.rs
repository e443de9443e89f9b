//! Declarations: functions, globals, types, traits, rule sets and whole programs.
use crate::ast::{block_v, copy_block, copy_expr, copy_literal, copy_opt_expr, expr_v, opt_expr_v, Block,
    BlockV, Expr, ExprV, Literal, LiteralV};
use crate::ctypes::copy_opt_text;
use crate::escape::opt_text;
use crate::module::{copy_path, ModulePath};
use crate::types::{copy_opt_type, copy_type, copy_types, opt_type_v, type_v, types_v, Type, TypeId, TypeV};
use vstd::prelude::*;

verus! {

/// An argument of a metadata attribute.
#[derive(Debug, PartialEq)]
pub enum MetaArg {
    Literal(Literal),
    Identifier(String),
}

/// The contents of a metadata argument.
pub enum MetaArgV {
    Literal(LiteralV),
    Identifier(Seq<char>),
}

/// The contents of a metadata argument.
pub open spec fn meta_arg_v(x: MetaArg) -> MetaArgV {
    match x {
        MetaArg::Literal(l) => MetaArgV::Literal(l@),
        MetaArg::Identifier(s) => MetaArgV::Identifier(s@),
    }
}

impl Clone for MetaArg {
    fn clone(&self) -> (r: Self)
        ensures
            meta_arg_v(r) == meta_arg_v(*self),
    {
        copy_meta_arg(self)
    }
}

/// Copies a metadata argument.
pub fn copy_meta_arg(x: &MetaArg) -> (r: MetaArg)
    ensures
        meta_arg_v(r) == meta_arg_v(*x),
{
    match x {
        MetaArg::Literal(l) => MetaArg::Literal(copy_literal(l)),
        MetaArg::Identifier(s) => MetaArg::Identifier(s.clone()),
    }
}

/// A `using` clause of a module.
#[derive(Debug, PartialEq)]
pub enum UsingClause {
    RuleSet(Type),
    Implicit(Expr),
}

/// The contents of a `using` clause.
pub enum UsingClauseV {
    RuleSet(TypeV),
    Implicit(ExprV),
}

/// The contents of a `using` clause.
pub open spec fn using_clause_v(x: UsingClause) -> UsingClauseV {
    match x {
        UsingClause::RuleSet(t) => UsingClauseV::RuleSet(t@),
        UsingClause::Implicit(e) => UsingClauseV::Implicit(e@),
    }
}

impl View for UsingClause {
    type V = UsingClauseV;

    open spec fn view(&self) -> UsingClauseV {
        using_clause_v(*self)
    }
}

impl Clone for UsingClause {
    fn clone(&self) -> (r: Self)
        ensures
            using_clause_v(r) == using_clause_v(*self),
    {
        copy_using_clause(self)
    }
}

/// Copies a `using` clause.
pub fn copy_using_clause(x: &UsingClause) -> (r: UsingClause)
    ensures
        using_clause_v(r) == using_clause_v(*x),
{
    match x {
        UsingClause::RuleSet(t) => UsingClause::RuleSet(copy_type(t)),
        UsingClause::Implicit(e) => UsingClause::Implicit(copy_expr(e)),
    }
}

/// The contents of a list of metadata arguments.
pub open spec fn meta_args_v(xs: Seq<MetaArg>) -> Seq<MetaArgV> {
    xs.map_values(|x: MetaArg| meta_arg_v(x))
}

/// Copies a list of metadata arguments.
pub fn copy_meta_args(xs: &Vec<MetaArg>) -> (r: Vec<MetaArg>)
    ensures
        meta_args_v(r@) == meta_args_v(xs@),
    decreases *xs,
{
    let mut out: Vec<MetaArg> = Vec::new();
    let mut i: usize = 0;
    while i < xs.len()
        invariant
            i <= xs@.len(),
            meta_args_v(out@) =~= meta_args_v(xs@).take(i as int),
        decreases xs@.len() - i,
    {
        let c = copy_meta_arg(&xs[i]);
        proof {
            assert(meta_args_v(xs@).take(i + 1) =~= meta_args_v(xs@).take(i as int).push(meta_arg_v(c)));
            assert(meta_args_v(out@.push(c)) =~= meta_args_v(out@).push(meta_arg_v(c)));
        }
        out.push(c);
        i = i + 1;
    }
    proof {
        assert(meta_args_v(xs@).take(xs@.len() as int) =~= meta_args_v(xs@));
    }
    out
}

/// The contents of a list of `using` clauses.
pub open spec fn using_clauses_v(xs: Seq<UsingClause>) -> Seq<UsingClauseV> {
    xs.map_values(|x: UsingClause| using_clause_v(x))
}

/// Copies a list of `using` clauses.
pub fn copy_using_clauses(xs: &Vec<UsingClause>) -> (r: Vec<UsingClause>)
    ensures
        using_clauses_v(r@) == using_clauses_v(xs@),
    decreases *xs,
{
    let mut out: Vec<UsingClause> = Vec::new();
    let mut i: usize = 0;
    while i < xs.len()
        invariant
            i <= xs@.len(),
            using_clauses_v(out@) =~= using_clauses_v(xs@).take(i as int),
        decreases xs@.len() - i,
    {
        let c = copy_using_clause(&xs[i]);
        proof {
            assert(using_clauses_v(xs@).take(i + 1) =~= using_clauses_v(xs@).take(i as int).push(using_clause_v(c)));
            assert(using_clauses_v(out@.push(c)) =~= using_clauses_v(out@).push(using_clause_v(c)));
        }
        out.push(c);
        i = i + 1;
    }
    proof {
        assert(using_clauses_v(xs@).take(xs@.len() as int) =~= using_clauses_v(xs@));
    }
    out
}

/// A `#[name(args)]` attribute.
#[derive(Debug, PartialEq)]
pub struct Metadata {
    pub name: String,
    pub args: Vec<MetaArg>,
}

/// The contents of an attribute.
pub struct MetadataV {
    pub name: Seq<char>,
    pub args: Seq<MetaArgV>,
}

/// The contents of an attribute.
pub open spec fn metadata_v(x: Metadata) -> MetadataV {
    MetadataV {
        name: x.name@,
        args: meta_args_v(x.args@),
    }
}

impl View for Metadata {
    type V = MetadataV;

    open spec fn view(&self) -> MetadataV {
        metadata_v(*self)
    }
}

/// The contents of a list of attributes.
pub open spec fn metadatas_v(xs: Seq<Metadata>) -> Seq<MetadataV> {
    xs.map_values(|x: Metadata| metadata_v(x))
}

/// Copies an attribute.
pub fn copy_metadata(x: &Metadata) -> (r: Metadata)
    ensures
        metadata_v(r) == metadata_v(*x),
{
    Metadata {
        name: x.name.clone(),
        args: copy_meta_args(&x.args),
    }
}

impl Clone for Metadata {
    fn clone(&self) -> (r: Self)
        ensures
            r@ == self@,
    {
        copy_metadata(self)
    }
}

/// Copies a list of attributes.
pub fn copy_metadatas(xs: &Vec<Metadata>) -> (r: Vec<Metadata>)
    ensures
        metadatas_v(r@) == metadatas_v(xs@),
    decreases *xs,
{
    let mut out: Vec<Metadata> = Vec::new();
    let mut i: usize = 0;
    while i < xs.len()
        invariant
            i <= xs@.len(),
            metadatas_v(out@) =~= metadatas_v(xs@).take(i as int),
        decreases xs@.len() - i,
    {
        let c = copy_metadata(&xs[i]);
        proof {
            assert(metadatas_v(xs@).take(i + 1) =~= metadatas_v(xs@).take(i as int).push(metadata_v(c)));
            assert(metadatas_v(out@.push(c)) =~= metadatas_v(out@).push(metadata_v(c)));
        }
        out.push(c);
        i = i + 1;
    }
    proof {
        assert(metadatas_v(xs@).take(xs@.len() as int) =~= metadatas_v(xs@));
    }
    out
}

/// A type parameter of a generic definition.
#[derive(Debug, PartialEq)]
pub struct TypeParam {
    pub name: String,
    pub constraints: Vec<Type>,
    pub default: Option<Type>,
}

/// The contents of a type parameter.
pub struct TypeParamV {
    pub name: Seq<char>,
    pub constraints: Seq<TypeV>,
    pub default: Option<TypeV>,
}

/// The contents of a type parameter.
pub open spec fn type_param_v(x: TypeParam) -> TypeParamV {
    TypeParamV {
        name: x.name@,
        constraints: types_v(x.constraints@),
        default: opt_type_v(x.default),
    }
}

impl View for TypeParam {
    type V = TypeParamV;

    open spec fn view(&self) -> TypeParamV {
        type_param_v(*self)
    }
}

/// The contents of a list of type parameters.
pub open spec fn type_params_v(xs: Seq<TypeParam>) -> Seq<TypeParamV> {
    xs.map_values(|x: TypeParam| type_param_v(x))
}

/// Copies a type parameter.
pub fn copy_type_param(x: &TypeParam) -> (r: TypeParam)
    ensures
        type_param_v(r) == type_param_v(*x),
{
    TypeParam {
        name: x.name.clone(),
        constraints: copy_types(&x.constraints),
        default: copy_opt_type(&x.default),
    }
}

impl Clone for TypeParam {
    fn clone(&self) -> (r: Self)
        ensures
            r@ == self@,
    {
        copy_type_param(self)
    }
}

/// Copies a list of type parameters.
pub fn copy_type_params(xs: &Vec<TypeParam>) -> (r: Vec<TypeParam>)
    ensures
        type_params_v(r@) == type_params_v(xs@),
    decreases *xs,
{
    let mut out: Vec<TypeParam> = Vec::new();
    let mut i: usize = 0;
    while i < xs.len()
        invariant
            i <= xs@.len(),
            type_params_v(out@) =~= type_params_v(xs@).take(i as int),
        decreases xs@.len() - i,
    {
        let c = copy_type_param(&xs[i]);
        proof {
            assert(type_params_v(xs@).take(i + 1) =~= type_params_v(xs@).take(i as int).push(type_param_v(c)));
            assert(type_params_v(out@.push(c)) =~= type_params_v(out@).push(type_param_v(c)));
        }
        out.push(c);
        i = i + 1;
    }
    proof {
        assert(type_params_v(xs@).take(xs@.len() as int) =~= type_params_v(xs@));
    }
    out
}

/// A function parameter.
#[derive(Debug, PartialEq)]
pub struct Param {
    pub name: String,
    pub annotation: Option<Type>,
    pub ty: TypeId,
}

/// The contents of a parameter.
pub struct ParamV {
    pub name: Seq<char>,
    pub annotation: Option<TypeV>,
    pub ty: TypeId,
}

/// The contents of a parameter.
pub open spec fn param_v(x: Param) -> ParamV {
    ParamV {
        name: x.name@,
        annotation: opt_type_v(x.annotation),
        ty: x.ty,
    }
}

impl View for Param {
    type V = ParamV;

    open spec fn view(&self) -> ParamV {
        param_v(*self)
    }
}

/// The contents of a list of parameters.
pub open spec fn params_v(xs: Seq<Param>) -> Seq<ParamV> {
    xs.map_values(|x: Param| param_v(x))
}

/// Copies a parameter.
pub fn copy_param(x: &Param) -> (r: Param)
    ensures
        param_v(r) == param_v(*x),
{
    Param {
        name: x.name.clone(),
        annotation: copy_opt_type(&x.annotation),
        ty: x.ty,
    }
}

impl Clone for Param {
    fn clone(&self) -> (r: Self)
        ensures
            r@ == self@,
    {
        copy_param(self)
    }
}

/// Copies a list of parameters.
pub fn copy_params(xs: &Vec<Param>) -> (r: Vec<Param>)
    ensures
        params_v(r@) == params_v(xs@),
    decreases *xs,
{
    let mut out: Vec<Param> = Vec::new();
    let mut i: usize = 0;
    while i < xs.len()
        invariant
            i <= xs@.len(),
            params_v(out@) =~= params_v(xs@).take(i as int),
        decreases xs@.len() - i,
    {
        let c = copy_param(&xs[i]);
        proof {
            assert(params_v(xs@).take(i + 1) =~= params_v(xs@).take(i as int).push(param_v(c)));
            assert(params_v(out@.push(c)) =~= params_v(out@).push(param_v(c)));
        }
        out.push(c);
        i = i + 1;
    }
    proof {
        assert(params_v(xs@).take(xs@.len() as int) =~= params_v(xs@));
    }
    out
}

/// A field of a struct, or an argument of an enum variant.
#[derive(Debug, PartialEq)]
pub struct Field {
    pub name: String,
    pub ty: TypeId,
    pub annotation: Option<Type>,
    pub is_const: bool,
    pub default: Option<Expr>,
}

/// The contents of a field.
pub struct FieldV {
    pub name: Seq<char>,
    pub ty: TypeId,
    pub annotation: Option<TypeV>,
    pub is_const: bool,
    pub default: Option<ExprV>,
}

/// The contents of a field.
pub open spec fn field_v(x: Field) -> FieldV {
    FieldV {
        name: x.name@,
        ty: x.ty,
        annotation: opt_type_v(x.annotation),
        is_const: x.is_const,
        default: opt_expr_v(x.default),
    }
}

impl View for Field {
    type V = FieldV;

    open spec fn view(&self) -> FieldV {
        field_v(*self)
    }
}

/// The contents of a list of fields.
pub open spec fn field_list_v(xs: Seq<Field>) -> Seq<FieldV> {
    xs.map_values(|x: Field| field_v(x))
}

/// Copies a field.
pub fn copy_field(x: &Field) -> (r: Field)
    ensures
        field_v(r) == field_v(*x),
{
    Field {
        name: x.name.clone(),
        ty: x.ty,
        annotation: copy_opt_type(&x.annotation),
        is_const: x.is_const,
        default: copy_opt_expr(&x.default),
    }
}

impl Clone for Field {
    fn clone(&self) -> (r: Self)
        ensures
            r@ == self@,
    {
        copy_field(self)
    }
}

/// Copies a list of fields.
pub fn copy_fields(xs: &Vec<Field>) -> (r: Vec<Field>)
    ensures
        field_list_v(r@) == field_list_v(xs@),
    decreases *xs,
{
    let mut out: Vec<Field> = Vec::new();
    let mut i: usize = 0;
    while i < xs.len()
        invariant
            i <= xs@.len(),
            field_list_v(out@) =~= field_list_v(xs@).take(i as int),
        decreases xs@.len() - i,
    {
        let c = copy_field(&xs[i]);
        proof {
            assert(field_list_v(xs@).take(i + 1) =~= field_list_v(xs@).take(i as int).push(field_v(c)));
            assert(field_list_v(out@.push(c)) =~= field_list_v(out@).push(field_v(c)));
        }
        out.push(c);
        i = i + 1;
    }
    proof {
        assert(field_list_v(xs@).take(xs@.len() as int) =~= field_list_v(xs@));
    }
    out
}

/// A function definition.
#[derive(Debug, PartialEq)]
pub struct Function {
    pub name: String,
    pub type_params: Vec<TypeParam>,
    pub params: Vec<Param>,
    pub return_type: Option<Type>,
    pub inferred_return: Option<TypeId>,
    pub body: Block,
    pub is_public: bool,
    pub metadata: Vec<Metadata>,
}

/// The contents of a function.
pub struct FunctionV {
    pub name: Seq<char>,
    pub type_params: Seq<TypeParamV>,
    pub params: Seq<ParamV>,
    pub return_type: Option<TypeV>,
    pub inferred_return: Option<TypeId>,
    pub body: BlockV,
    pub is_public: bool,
    pub metadata: Seq<MetadataV>,
}

/// The contents of a function.
pub open spec fn function_v(x: Function) -> FunctionV {
    FunctionV {
        name: x.name@,
        type_params: type_params_v(x.type_params@),
        params: params_v(x.params@),
        return_type: opt_type_v(x.return_type),
        inferred_return: x.inferred_return,
        body: block_v(x.body),
        is_public: x.is_public,
        metadata: metadatas_v(x.metadata@),
    }
}

impl View for Function {
    type V = FunctionV;

    open spec fn view(&self) -> FunctionV {
        function_v(*self)
    }
}

/// The contents of a list of functions.
pub open spec fn functions_v(xs: Seq<Function>) -> Seq<FunctionV> {
    xs.map_values(|x: Function| function_v(x))
}

/// Copies a function.
pub fn copy_function(x: &Function) -> (r: Function)
    ensures
        function_v(r) == function_v(*x),
{
    Function {
        name: x.name.clone(),
        type_params: copy_type_params(&x.type_params),
        params: copy_params(&x.params),
        return_type: copy_opt_type(&x.return_type),
        inferred_return: x.inferred_return,
        body: copy_block(&x.body),
        is_public: x.is_public,
        metadata: copy_metadatas(&x.metadata),
    }
}

impl Clone for Function {
    fn clone(&self) -> (r: Self)
        ensures
            r@ == self@,
    {
        copy_function(self)
    }
}

/// Copies a list of functions.
pub fn copy_functions(xs: &Vec<Function>) -> (r: Vec<Function>)
    ensures
        functions_v(r@) == functions_v(xs@),
    decreases *xs,
{
    let mut out: Vec<Function> = Vec::new();
    let mut i: usize = 0;
    while i < xs.len()
        invariant
            i <= xs@.len(),
            functions_v(out@) =~= functions_v(xs@).take(i as int),
        decreases xs@.len() - i,
    {
        let c = copy_function(&xs[i]);
        proof {
            assert(functions_v(xs@).take(i + 1) =~= functions_v(xs@).take(i as int).push(function_v(c)));
            assert(functions_v(out@.push(c)) =~= functions_v(out@).push(function_v(c)));
        }
        out.push(c);
        i = i + 1;
    }
    proof {
        assert(functions_v(xs@).take(xs@.len() as int) =~= functions_v(xs@));
    }
    out
}

/// A global variable.
#[derive(Debug, PartialEq)]
pub struct GlobalDecl {
    pub name: String,
    pub annotation: Option<Type>,
    pub inferred: TypeId,
    pub init: Option<Expr>,
    pub is_const: bool,
    pub is_public: bool,
    pub metadata: Vec<Metadata>,
}

/// The contents of a global variable.
pub struct GlobalDeclV {
    pub name: Seq<char>,
    pub annotation: Option<TypeV>,
    pub inferred: TypeId,
    pub init: Option<ExprV>,
    pub is_const: bool,
    pub is_public: bool,
    pub metadata: Seq<MetadataV>,
}

/// The contents of a global variable.
pub open spec fn global_decl_v(x: GlobalDecl) -> GlobalDeclV {
    GlobalDeclV {
        name: x.name@,
        annotation: opt_type_v(x.annotation),
        inferred: x.inferred,
        init: opt_expr_v(x.init),
        is_const: x.is_const,
        is_public: x.is_public,
        metadata: metadatas_v(x.metadata@),
    }
}

impl View for GlobalDecl {
    type V = GlobalDeclV;

    open spec fn view(&self) -> GlobalDeclV {
        global_decl_v(*self)
    }
}

/// The contents of a list of global variables.
pub open spec fn global_decls_v(xs: Seq<GlobalDecl>) -> Seq<GlobalDeclV> {
    xs.map_values(|x: GlobalDecl| global_decl_v(x))
}

/// Copies a global variable.
pub fn copy_global_decl(x: &GlobalDecl) -> (r: GlobalDecl)
    ensures
        global_decl_v(r) == global_decl_v(*x),
{
    GlobalDecl {
        name: x.name.clone(),
        annotation: copy_opt_type(&x.annotation),
        inferred: x.inferred,
        init: copy_opt_expr(&x.init),
        is_const: x.is_const,
        is_public: x.is_public,
        metadata: copy_metadatas(&x.metadata),
    }
}

impl Clone for GlobalDecl {
    fn clone(&self) -> (r: Self)
        ensures
            r@ == self@,
    {
        copy_global_decl(self)
    }
}

/// Copies a list of global variables.
pub fn copy_global_decls(xs: &Vec<GlobalDecl>) -> (r: Vec<GlobalDecl>)
    ensures
        global_decls_v(r@) == global_decls_v(xs@),
    decreases *xs,
{
    let mut out: Vec<GlobalDecl> = Vec::new();
    let mut i: usize = 0;
    while i < xs.len()
        invariant
            i <= xs@.len(),
            global_decls_v(out@) =~= global_decls_v(xs@).take(i as int),
        decreases xs@.len() - i,
    {
        let c = copy_global_decl(&xs[i]);
        proof {
            assert(global_decls_v(xs@).take(i + 1) =~= global_decls_v(xs@).take(i as int).push(global_decl_v(c)));
            assert(global_decls_v(out@.push(c)) =~= global_decls_v(out@).push(global_decl_v(c)));
        }
        out.push(c);
        i = i + 1;
    }
    proof {
        assert(global_decls_v(xs@).take(xs@.len() as int) =~= global_decls_v(xs@));
    }
    out
}

/// A struct definition.
#[derive(Debug, PartialEq)]
pub struct StructDefinition {
    pub name: String,
    pub type_params: Vec<TypeParam>,
    pub fields: Vec<Field>,
    pub is_public: bool,
    pub metadata: Vec<Metadata>,
}

/// The contents of a struct definition.
pub struct StructDefinitionV {
    pub name: Seq<char>,
    pub type_params: Seq<TypeParamV>,
    pub fields: Seq<FieldV>,
    pub is_public: bool,
    pub metadata: Seq<MetadataV>,
}

/// The contents of a struct definition.
pub open spec fn struct_definition_v(x: StructDefinition) -> StructDefinitionV {
    StructDefinitionV {
        name: x.name@,
        type_params: type_params_v(x.type_params@),
        fields: field_list_v(x.fields@),
        is_public: x.is_public,
        metadata: metadatas_v(x.metadata@),
    }
}

impl View for StructDefinition {
    type V = StructDefinitionV;

    open spec fn view(&self) -> StructDefinitionV {
        struct_definition_v(*self)
    }
}

/// The contents of a list of struct definitions.
pub open spec fn struct_definitions_v(xs: Seq<StructDefinition>) -> Seq<StructDefinitionV> {
    xs.map_values(|x: StructDefinition| struct_definition_v(x))
}

/// Copies a struct definition.
pub fn copy_struct_definition(x: &StructDefinition) -> (r: StructDefinition)
    ensures
        struct_definition_v(r) == struct_definition_v(*x),
{
    StructDefinition {
        name: x.name.clone(),
        type_params: copy_type_params(&x.type_params),
        fields: copy_fields(&x.fields),
        is_public: x.is_public,
        metadata: copy_metadatas(&x.metadata),
    }
}

impl Clone for StructDefinition {
    fn clone(&self) -> (r: Self)
        ensures
            r@ == self@,
    {
        copy_struct_definition(self)
    }
}

/// Copies a list of struct definitions.
pub fn copy_struct_definitions(xs: &Vec<StructDefinition>) -> (r: Vec<StructDefinition>)
    ensures
        struct_definitions_v(r@) == struct_definitions_v(xs@),
    decreases *xs,
{
    let mut out: Vec<StructDefinition> = Vec::new();
    let mut i: usize = 0;
    while i < xs.len()
        invariant
            i <= xs@.len(),
            struct_definitions_v(out@) =~= struct_definitions_v(xs@).take(i as int),
        decreases xs@.len() - i,
    {
        let c = copy_struct_definition(&xs[i]);
        proof {
            assert(struct_definitions_v(xs@).take(i + 1) =~= struct_definitions_v(xs@).take(i as int).push(struct_definition_v(c)));
            assert(struct_definitions_v(out@.push(c)) =~= struct_definitions_v(out@).push(struct_definition_v(c)));
        }
        out.push(c);
        i = i + 1;
    }
    proof {
        assert(struct_definitions_v(xs@).take(xs@.len() as int) =~= struct_definitions_v(xs@));
    }
    out
}

/// A variant of an enum.
#[derive(Debug, PartialEq)]
pub struct EnumVariant {
    pub name: String,
    pub parent: String,
    pub args: Vec<Field>,
    pub default: Option<Expr>,
    pub metadata: Vec<Metadata>,
}

/// The contents of an enum variant.
pub struct EnumVariantV {
    pub name: Seq<char>,
    pub parent: Seq<char>,
    pub args: Seq<FieldV>,
    pub default: Option<ExprV>,
    pub metadata: Seq<MetadataV>,
}

/// The contents of an enum variant.
pub open spec fn enum_variant_v(x: EnumVariant) -> EnumVariantV {
    EnumVariantV {
        name: x.name@,
        parent: x.parent@,
        args: field_list_v(x.args@),
        default: opt_expr_v(x.default),
        metadata: metadatas_v(x.metadata@),
    }
}

impl View for EnumVariant {
    type V = EnumVariantV;

    open spec fn view(&self) -> EnumVariantV {
        enum_variant_v(*self)
    }
}

/// The contents of a list of enum variants.
pub open spec fn enum_variants_v(xs: Seq<EnumVariant>) -> Seq<EnumVariantV> {
    xs.map_values(|x: EnumVariant| enum_variant_v(x))
}

/// Copies an enum variant.
pub fn copy_enum_variant(x: &EnumVariant) -> (r: EnumVariant)
    ensures
        enum_variant_v(r) == enum_variant_v(*x),
{
    EnumVariant {
        name: x.name.clone(),
        parent: x.parent.clone(),
        args: copy_fields(&x.args),
        default: copy_opt_expr(&x.default),
        metadata: copy_metadatas(&x.metadata),
    }
}

impl Clone for EnumVariant {
    fn clone(&self) -> (r: Self)
        ensures
            r@ == self@,
    {
        copy_enum_variant(self)
    }
}

/// Copies a list of enum variants.
pub fn copy_enum_variants(xs: &Vec<EnumVariant>) -> (r: Vec<EnumVariant>)
    ensures
        enum_variants_v(r@) == enum_variants_v(xs@),
    decreases *xs,
{
    let mut out: Vec<EnumVariant> = Vec::new();
    let mut i: usize = 0;
    while i < xs.len()
        invariant
            i <= xs@.len(),
            enum_variants_v(out@) =~= enum_variants_v(xs@).take(i as int),
        decreases xs@.len() - i,
    {
        let c = copy_enum_variant(&xs[i]);
        proof {
            assert(enum_variants_v(xs@).take(i + 1) =~= enum_variants_v(xs@).take(i as int).push(enum_variant_v(c)));
            assert(enum_variants_v(out@.push(c)) =~= enum_variants_v(out@).push(enum_variant_v(c)));
        }
        out.push(c);
        i = i + 1;
    }
    proof {
        assert(enum_variants_v(xs@).take(xs@.len() as int) =~= enum_variants_v(xs@));
    }
    out
}

/// An enum definition.
#[derive(Debug, PartialEq)]
pub struct EnumDefinition {
    pub name: String,
    pub type_params: Vec<TypeParam>,
    pub variants: Vec<EnumVariant>,
    pub is_public: bool,
    pub metadata: Vec<Metadata>,
}

/// The contents of an enum definition.
pub struct EnumDefinitionV {
    pub name: Seq<char>,
    pub type_params: Seq<TypeParamV>,
    pub variants: Seq<EnumVariantV>,
    pub is_public: bool,
    pub metadata: Seq<MetadataV>,
}

/// The contents of an enum definition.
pub open spec fn enum_definition_v(x: EnumDefinition) -> EnumDefinitionV {
    EnumDefinitionV {
        name: x.name@,
        type_params: type_params_v(x.type_params@),
        variants: enum_variants_v(x.variants@),
        is_public: x.is_public,
        metadata: metadatas_v(x.metadata@),
    }
}

impl View for EnumDefinition {
    type V = EnumDefinitionV;

    open spec fn view(&self) -> EnumDefinitionV {
        enum_definition_v(*self)
    }
}

/// The contents of a list of enum definitions.
pub open spec fn enum_definitions_v(xs: Seq<EnumDefinition>) -> Seq<EnumDefinitionV> {
    xs.map_values(|x: EnumDefinition| enum_definition_v(x))
}

/// Copies an enum definition.
pub fn copy_enum_definition(x: &EnumDefinition) -> (r: EnumDefinition)
    ensures
        enum_definition_v(r) == enum_definition_v(*x),
{
    EnumDefinition {
        name: x.name.clone(),
        type_params: copy_type_params(&x.type_params),
        variants: copy_enum_variants(&x.variants),
        is_public: x.is_public,
        metadata: copy_metadatas(&x.metadata),
    }
}

impl Clone for EnumDefinition {
    fn clone(&self) -> (r: Self)
        ensures
            r@ == self@,
    {
        copy_enum_definition(self)
    }
}

/// Copies a list of enum definitions.
pub fn copy_enum_definitions(xs: &Vec<EnumDefinition>) -> (r: Vec<EnumDefinition>)
    ensures
        enum_definitions_v(r@) == enum_definitions_v(xs@),
    decreases *xs,
{
    let mut out: Vec<EnumDefinition> = Vec::new();
    let mut i: usize = 0;
    while i < xs.len()
        invariant
            i <= xs@.len(),
            enum_definitions_v(out@) =~= enum_definitions_v(xs@).take(i as int),
        decreases xs@.len() - i,
    {
        let c = copy_enum_definition(&xs[i]);
        proof {
            assert(enum_definitions_v(xs@).take(i + 1) =~= enum_definitions_v(xs@).take(i as int).push(enum_definition_v(c)));
            assert(enum_definitions_v(out@.push(c)) =~= enum_definitions_v(out@).push(enum_definition_v(c)));
        }
        out.push(c);
        i = i + 1;
    }
    proof {
        assert(enum_definitions_v(xs@).take(xs@.len() as int) =~= enum_definitions_v(xs@));
    }
    out
}

/// A trait definition.
#[derive(Debug, PartialEq)]
pub struct TraitDefinition {
    pub name: String,
    pub params: Vec<TypeParam>,
    pub methods: Vec<Function>,
    pub fields: Vec<GlobalDecl>,
    pub is_public: bool,
}

/// The contents of a trait definition.
pub struct TraitDefinitionV {
    pub name: Seq<char>,
    pub params: Seq<TypeParamV>,
    pub methods: Seq<FunctionV>,
    pub fields: Seq<GlobalDeclV>,
    pub is_public: bool,
}

/// The contents of a trait definition.
pub open spec fn trait_definition_v(x: TraitDefinition) -> TraitDefinitionV {
    TraitDefinitionV {
        name: x.name@,
        params: type_params_v(x.params@),
        methods: functions_v(x.methods@),
        fields: global_decls_v(x.fields@),
        is_public: x.is_public,
    }
}

impl View for TraitDefinition {
    type V = TraitDefinitionV;

    open spec fn view(&self) -> TraitDefinitionV {
        trait_definition_v(*self)
    }
}

/// The contents of a list of trait definitions.
pub open spec fn trait_definitions_v(xs: Seq<TraitDefinition>) -> Seq<TraitDefinitionV> {
    xs.map_values(|x: TraitDefinition| trait_definition_v(x))
}

/// Copies a trait definition.
pub fn copy_trait_definition(x: &TraitDefinition) -> (r: TraitDefinition)
    ensures
        trait_definition_v(r) == trait_definition_v(*x),
{
    TraitDefinition {
        name: x.name.clone(),
        params: copy_type_params(&x.params),
        methods: copy_functions(&x.methods),
        fields: copy_global_decls(&x.fields),
        is_public: x.is_public,
    }
}

impl Clone for TraitDefinition {
    fn clone(&self) -> (r: Self)
        ensures
            r@ == self@,
    {
        copy_trait_definition(self)
    }
}

/// Copies a list of trait definitions.
pub fn copy_trait_definitions(xs: &Vec<TraitDefinition>) -> (r: Vec<TraitDefinition>)
    ensures
        trait_definitions_v(r@) == trait_definitions_v(xs@),
    decreases *xs,
{
    let mut out: Vec<TraitDefinition> = Vec::new();
    let mut i: usize = 0;
    while i < xs.len()
        invariant
            i <= xs@.len(),
            trait_definitions_v(out@) =~= trait_definitions_v(xs@).take(i as int),
        decreases xs@.len() - i,
    {
        let c = copy_trait_definition(&xs[i]);
        proof {
            assert(trait_definitions_v(xs@).take(i + 1) =~= trait_definitions_v(xs@).take(i as int).push(trait_definition_v(c)));
            assert(trait_definitions_v(out@.push(c)) =~= trait_definitions_v(out@).push(trait_definition_v(c)));
        }
        out.push(c);
        i = i + 1;
    }
    proof {
        assert(trait_definitions_v(xs@).take(xs@.len() as int) =~= trait_definitions_v(xs@));
    }
    out
}

/// An implementation of a trait for a type.
#[derive(Debug, PartialEq)]
pub struct ImplDefinition {
    pub name: String,
    pub trait_type: Type,
    pub for_type: Type,
    pub params: Vec<TypeParam>,
    pub methods: Vec<Function>,
}

/// The contents of a trait implementation.
pub struct ImplDefinitionV {
    pub name: Seq<char>,
    pub trait_type: TypeV,
    pub for_type: TypeV,
    pub params: Seq<TypeParamV>,
    pub methods: Seq<FunctionV>,
}

/// The contents of a trait implementation.
pub open spec fn impl_definition_v(x: ImplDefinition) -> ImplDefinitionV {
    ImplDefinitionV {
        name: x.name@,
        trait_type: type_v(x.trait_type),
        for_type: type_v(x.for_type),
        params: type_params_v(x.params@),
        methods: functions_v(x.methods@),
    }
}

impl View for ImplDefinition {
    type V = ImplDefinitionV;

    open spec fn view(&self) -> ImplDefinitionV {
        impl_definition_v(*self)
    }
}

/// The contents of a list of trait implementations.
pub open spec fn impl_definitions_v(xs: Seq<ImplDefinition>) -> Seq<ImplDefinitionV> {
    xs.map_values(|x: ImplDefinition| impl_definition_v(x))
}

/// Copies a trait implementation.
pub fn copy_impl_definition(x: &ImplDefinition) -> (r: ImplDefinition)
    ensures
        impl_definition_v(r) == impl_definition_v(*x),
{
    ImplDefinition {
        name: x.name.clone(),
        trait_type: copy_type(&x.trait_type),
        for_type: copy_type(&x.for_type),
        params: copy_type_params(&x.params),
        methods: copy_functions(&x.methods),
    }
}

impl Clone for ImplDefinition {
    fn clone(&self) -> (r: Self)
        ensures
            r@ == self@,
    {
        copy_impl_definition(self)
    }
}

/// Copies a list of trait implementations.
pub fn copy_impl_definitions(xs: &Vec<ImplDefinition>) -> (r: Vec<ImplDefinition>)
    ensures
        impl_definitions_v(r@) == impl_definitions_v(xs@),
    decreases *xs,
{
    let mut out: Vec<ImplDefinition> = Vec::new();
    let mut i: usize = 0;
    while i < xs.len()
        invariant
            i <= xs@.len(),
            impl_definitions_v(out@) =~= impl_definitions_v(xs@).take(i as int),
        decreases xs@.len() - i,
    {
        let c = copy_impl_definition(&xs[i]);
        proof {
            assert(impl_definitions_v(xs@).take(i + 1) =~= impl_definitions_v(xs@).take(i as int).push(impl_definition_v(c)));
            assert(impl_definitions_v(out@.push(c)) =~= impl_definitions_v(out@).push(impl_definition_v(c)));
        }
        out.push(c);
        i = i + 1;
    }
    proof {
        assert(impl_definitions_v(xs@).take(xs@.len() as int) =~= impl_definitions_v(xs@));
    }
    out
}

/// A rewrite rule.
#[derive(Debug, PartialEq)]
pub struct RuleDecl {
    pub pattern: Expr,
    pub body: Option<Expr>,
}

/// The contents of a rewrite rule.
pub struct RuleDeclV {
    pub pattern: ExprV,
    pub body: Option<ExprV>,
}

/// The contents of a rewrite rule.
pub open spec fn rule_decl_v(x: RuleDecl) -> RuleDeclV {
    RuleDeclV {
        pattern: expr_v(x.pattern),
        body: opt_expr_v(x.body),
    }
}

impl View for RuleDecl {
    type V = RuleDeclV;

    open spec fn view(&self) -> RuleDeclV {
        rule_decl_v(*self)
    }
}

/// The contents of a list of rewrite rules.
pub open spec fn rule_decls_v(xs: Seq<RuleDecl>) -> Seq<RuleDeclV> {
    xs.map_values(|x: RuleDecl| rule_decl_v(x))
}

/// Copies a rewrite rule.
pub fn copy_rule_decl(x: &RuleDecl) -> (r: RuleDecl)
    ensures
        rule_decl_v(r) == rule_decl_v(*x),
{
    RuleDecl {
        pattern: copy_expr(&x.pattern),
        body: copy_opt_expr(&x.body),
    }
}

impl Clone for RuleDecl {
    fn clone(&self) -> (r: Self)
        ensures
            r@ == self@,
    {
        copy_rule_decl(self)
    }
}

/// Copies a list of rewrite rules.
pub fn copy_rule_decls(xs: &Vec<RuleDecl>) -> (r: Vec<RuleDecl>)
    ensures
        rule_decls_v(r@) == rule_decls_v(xs@),
    decreases *xs,
{
    let mut out: Vec<RuleDecl> = Vec::new();
    let mut i: usize = 0;
    while i < xs.len()
        invariant
            i <= xs@.len(),
            rule_decls_v(out@) =~= rule_decls_v(xs@).take(i as int),
        decreases xs@.len() - i,
    {
        let c = copy_rule_decl(&xs[i]);
        proof {
            assert(rule_decls_v(xs@).take(i + 1) =~= rule_decls_v(xs@).take(i as int).push(rule_decl_v(c)));
            assert(rule_decls_v(out@.push(c)) =~= rule_decls_v(out@).push(rule_decl_v(c)));
        }
        out.push(c);
        i = i + 1;
    }
    proof {
        assert(rule_decls_v(xs@).take(xs@.len() as int) =~= rule_decls_v(xs@));
    }
    out
}

/// A named set of rewrite rules.
#[derive(Debug, PartialEq)]
pub struct RuleSet {
    pub name: String,
    pub rules: Vec<RuleDecl>,
}

/// The contents of a rule set.
pub struct RuleSetV {
    pub name: Seq<char>,
    pub rules: Seq<RuleDeclV>,
}

/// The contents of a rule set.
pub open spec fn rule_set_v(x: RuleSet) -> RuleSetV {
    RuleSetV {
        name: x.name@,
        rules: rule_decls_v(x.rules@),
    }
}

impl View for RuleSet {
    type V = RuleSetV;

    open spec fn view(&self) -> RuleSetV {
        rule_set_v(*self)
    }
}

/// The contents of a list of rule sets.
pub open spec fn rule_sets_v(xs: Seq<RuleSet>) -> Seq<RuleSetV> {
    xs.map_values(|x: RuleSet| rule_set_v(x))
}

/// Copies a rule set.
pub fn copy_rule_set(x: &RuleSet) -> (r: RuleSet)
    ensures
        rule_set_v(r) == rule_set_v(*x),
{
    RuleSet {
        name: x.name.clone(),
        rules: copy_rule_decls(&x.rules),
    }
}

impl Clone for RuleSet {
    fn clone(&self) -> (r: Self)
        ensures
            r@ == self@,
    {
        copy_rule_set(self)
    }
}

/// Copies a list of rule sets.
pub fn copy_rule_sets(xs: &Vec<RuleSet>) -> (r: Vec<RuleSet>)
    ensures
        rule_sets_v(r@) == rule_sets_v(xs@),
    decreases *xs,
{
    let mut out: Vec<RuleSet> = Vec::new();
    let mut i: usize = 0;
    while i < xs.len()
        invariant
            i <= xs@.len(),
            rule_sets_v(out@) =~= rule_sets_v(xs@).take(i as int),
        decreases xs@.len() - i,
    {
        let c = copy_rule_set(&xs[i]);
        proof {
            assert(rule_sets_v(xs@).take(i + 1) =~= rule_sets_v(xs@).take(i as int).push(rule_set_v(c)));
            assert(rule_sets_v(out@.push(c)) =~= rule_sets_v(out@).push(rule_set_v(c)));
        }
        out.push(c);
        i = i + 1;
    }
    proof {
        assert(rule_sets_v(xs@).take(xs@.len() as int) =~= rule_sets_v(xs@));
    }
    out
}

/// A type alias.
#[derive(Debug, PartialEq)]
pub struct TypeDef {
    pub name: String,
    pub type_def: Type,
}

/// The contents of a type alias.
pub struct TypeDefV {
    pub name: Seq<char>,
    pub type_def: TypeV,
}

/// The contents of a type alias.
pub open spec fn type_def_v(x: TypeDef) -> TypeDefV {
    TypeDefV {
        name: x.name@,
        type_def: type_v(x.type_def),
    }
}

impl View for TypeDef {
    type V = TypeDefV;

    open spec fn view(&self) -> TypeDefV {
        type_def_v(*self)
    }
}

/// The contents of a list of type aliases.
pub open spec fn type_defs_v(xs: Seq<TypeDef>) -> Seq<TypeDefV> {
    xs.map_values(|x: TypeDef| type_def_v(x))
}

/// Copies a type alias.
pub fn copy_type_def(x: &TypeDef) -> (r: TypeDef)
    ensures
        type_def_v(r) == type_def_v(*x),
{
    TypeDef {
        name: x.name.clone(),
        type_def: copy_type(&x.type_def),
    }
}

impl Clone for TypeDef {
    fn clone(&self) -> (r: Self)
        ensures
            r@ == self@,
    {
        copy_type_def(self)
    }
}

/// Copies a list of type aliases.
pub fn copy_type_defs(xs: &Vec<TypeDef>) -> (r: Vec<TypeDef>)
    ensures
        type_defs_v(r@) == type_defs_v(xs@),
    decreases *xs,
{
    let mut out: Vec<TypeDef> = Vec::new();
    let mut i: usize = 0;
    while i < xs.len()
        invariant
            i <= xs@.len(),
            type_defs_v(out@) =~= type_defs_v(xs@).take(i as int),
        decreases xs@.len() - i,
    {
        let c = copy_type_def(&xs[i]);
        proof {
            assert(type_defs_v(xs@).take(i + 1) =~= type_defs_v(xs@).take(i as int).push(type_def_v(c)));
            assert(type_defs_v(out@.push(c)) =~= type_defs_v(out@).push(type_def_v(c)));
        }
        out.push(c);
        i = i + 1;
    }
    proof {
        assert(type_defs_v(xs@).take(xs@.len() as int) =~= type_defs_v(xs@));
    }
    out
}

/// A `default Trait as Type` declaration.
#[derive(Debug, PartialEq)]
pub struct DefaultSpecialization {
    pub trait_name: String,
    pub default_type: Type,
}

/// The contents of a default specialization.
pub struct DefaultSpecializationV {
    pub trait_name: Seq<char>,
    pub default_type: TypeV,
}

/// The contents of a default specialization.
pub open spec fn default_specialization_v(x: DefaultSpecialization) -> DefaultSpecializationV {
    DefaultSpecializationV {
        trait_name: x.trait_name@,
        default_type: type_v(x.default_type),
    }
}

impl View for DefaultSpecialization {
    type V = DefaultSpecializationV;

    open spec fn view(&self) -> DefaultSpecializationV {
        default_specialization_v(*self)
    }
}

/// The contents of a list of default specializations.
pub open spec fn default_specializations_v(xs: Seq<DefaultSpecialization>) -> Seq<DefaultSpecializationV> {
    xs.map_values(|x: DefaultSpecialization| default_specialization_v(x))
}

/// Copies a default specialization.
pub fn copy_default_specialization(x: &DefaultSpecialization) -> (r: DefaultSpecialization)
    ensures
        default_specialization_v(r) == default_specialization_v(*x),
{
    DefaultSpecialization {
        trait_name: x.trait_name.clone(),
        default_type: copy_type(&x.default_type),
    }
}

impl Clone for DefaultSpecialization {
    fn clone(&self) -> (r: Self)
        ensures
            r@ == self@,
    {
        copy_default_specialization(self)
    }
}

/// Copies a list of default specializations.
pub fn copy_default_specializations(xs: &Vec<DefaultSpecialization>) -> (r: Vec<DefaultSpecialization>)
    ensures
        default_specializations_v(r@) == default_specializations_v(xs@),
    decreases *xs,
{
    let mut out: Vec<DefaultSpecialization> = Vec::new();
    let mut i: usize = 0;
    while i < xs.len()
        invariant
            i <= xs@.len(),
            default_specializations_v(out@) =~= default_specializations_v(xs@).take(i as int),
        decreases xs@.len() - i,
    {
        let c = copy_default_specialization(&xs[i]);
        proof {
            assert(default_specializations_v(xs@).take(i + 1) =~= default_specializations_v(xs@).take(i as int).push(default_specialization_v(c)));
            assert(default_specializations_v(out@.push(c)) =~= default_specializations_v(out@).push(default_specialization_v(c)));
        }
        out.push(c);
        i = i + 1;
    }
    proof {
        assert(default_specializations_v(xs@).take(xs@.len() as int) =~= default_specializations_v(xs@));
    }
    out
}

/// The contents of an optional module path.
pub open spec fn opt_path_v(p: Option<ModulePath>) -> Option<Seq<Seq<char>>> {
    match p {
        Some(x) => Some(x@),
        None => None,
    }
}

/// Copies an optional module path.
pub fn copy_opt_path(p: &Option<ModulePath>) -> (r: Option<ModulePath>)
    ensures
        opt_path_v(r) == opt_path_v(*p),
{
    match p {
        Some(x) => Some(copy_path(x)),
        None => None,
    }
}

/// The declarations of a module, or of all modules together.
#[derive(Debug, PartialEq)]
pub struct Program {
    pub path: Option<ModulePath>,
    pub globals: Vec<GlobalDecl>,
    pub functions: Vec<Function>,
    pub structs: Vec<StructDefinition>,
    pub enums: Vec<EnumDefinition>,
    pub traits: Vec<TraitDefinition>,
    pub impls: Vec<ImplDefinition>,
    pub rulesets: Vec<RuleSet>,
    pub typedefs: Vec<TypeDef>,
    pub defaults: Vec<DefaultSpecialization>,
}

/// The contents of a program.
pub struct ProgramV {
    pub path: Option<Seq<Seq<char>>>,
    pub globals: Seq<GlobalDeclV>,
    pub functions: Seq<FunctionV>,
    pub structs: Seq<StructDefinitionV>,
    pub enums: Seq<EnumDefinitionV>,
    pub traits: Seq<TraitDefinitionV>,
    pub impls: Seq<ImplDefinitionV>,
    pub rulesets: Seq<RuleSetV>,
    pub typedefs: Seq<TypeDefV>,
    pub defaults: Seq<DefaultSpecializationV>,
}

/// The contents of a program.
pub open spec fn program_v(x: Program) -> ProgramV {
    ProgramV {
        path: opt_path_v(x.path),
        globals: global_decls_v(x.globals@),
        functions: functions_v(x.functions@),
        structs: struct_definitions_v(x.structs@),
        enums: enum_definitions_v(x.enums@),
        traits: trait_definitions_v(x.traits@),
        impls: impl_definitions_v(x.impls@),
        rulesets: rule_sets_v(x.rulesets@),
        typedefs: type_defs_v(x.typedefs@),
        defaults: default_specializations_v(x.defaults@),
    }
}

impl View for Program {
    type V = ProgramV;

    open spec fn view(&self) -> ProgramV {
        program_v(*self)
    }
}

/// Copies a program.
pub fn copy_program(x: &Program) -> (r: Program)
    ensures
        program_v(r) == program_v(*x),
{
    Program {
        path: copy_opt_path(&x.path),
        globals: copy_global_decls(&x.globals),
        functions: copy_functions(&x.functions),
        structs: copy_struct_definitions(&x.structs),
        enums: copy_enum_definitions(&x.enums),
        traits: copy_trait_definitions(&x.traits),
        impls: copy_impl_definitions(&x.impls),
        rulesets: copy_rule_sets(&x.rulesets),
        typedefs: copy_type_defs(&x.typedefs),
        defaults: copy_default_specializations(&x.defaults),
    }
}

impl Clone for Program {
    fn clone(&self) -> (r: Self)
        ensures
            r@ == self@,
    {
        copy_program(self)
    }
}

/// A C header that a module brings in, and the library to link for it.
#[derive(Debug, PartialEq)]
pub struct Include {
    pub path: String,
    pub linked_lib: Option<String>,
}

/// The contents of a header request.
pub struct IncludeV {
    pub path: Seq<char>,
    pub linked_lib: Option<Seq<char>>,
}

/// The contents of a header request.
pub open spec fn include_v(x: Include) -> IncludeV {
    IncludeV {
        path: x.path@,
        linked_lib: opt_text(x.linked_lib),
    }
}

impl View for Include {
    type V = IncludeV;

    open spec fn view(&self) -> IncludeV {
        include_v(*self)
    }
}

/// The contents of a list of header requests.
pub open spec fn includes_v(xs: Seq<Include>) -> Seq<IncludeV> {
    xs.map_values(|x: Include| include_v(x))
}

/// Copies a header request.
pub fn copy_include(x: &Include) -> (r: Include)
    ensures
        include_v(r) == include_v(*x),
{
    Include {
        path: x.path.clone(),
        linked_lib: copy_opt_text(&x.linked_lib),
    }
}

impl Clone for Include {
    fn clone(&self) -> (r: Self)
        ensures
            r@ == self@,
    {
        copy_include(self)
    }
}

/// Copies a list of header requests.
pub fn copy_includes(xs: &Vec<Include>) -> (r: Vec<Include>)
    ensures
        includes_v(r@) == includes_v(xs@),
    decreases *xs,
{
    let mut out: Vec<Include> = Vec::new();
    let mut i: usize = 0;
    while i < xs.len()
        invariant
            i <= xs@.len(),
            includes_v(out@) =~= includes_v(xs@).take(i as int),
        decreases xs@.len() - i,
    {
        let c = copy_include(&xs[i]);
        proof {
            assert(includes_v(xs@).take(i + 1) =~= includes_v(xs@).take(i as int).push(include_v(c)));
            assert(includes_v(out@.push(c)) =~= includes_v(out@).push(include_v(c)));
        }
        out.push(c);
        i = i + 1;
    }
    proof {
        assert(includes_v(xs@).take(xs@.len() as int) =~= includes_v(xs@));
    }
    out
}

impl Include {
    /// A header without a library.
    pub fn new(path: String) -> (r: Self)
        ensures
            r@ == (IncludeV { path: path@, linked_lib: None }),
    {
        Include { path, linked_lib: None }
    }

    /// A header with the library to link for it.
    pub fn with_lib(path: String, lib: String) -> (r: Self)
        ensures
            r@ == (IncludeV { path: path@, linked_lib: Some(lib@) }),
    {
        Include { path, linked_lib: Some(lib) }
    }
}

/// A program without declarations.
pub open spec fn no_program() -> ProgramV {
    ProgramV {
        path: None,
        globals: Seq::empty(),
        functions: Seq::empty(),
        structs: Seq::empty(),
        enums: Seq::empty(),
        traits: Seq::empty(),
        impls: Seq::empty(),
        rulesets: Seq::empty(),
        typedefs: Seq::empty(),
        defaults: Seq::empty(),
    }
}

impl Program {
    /// A program without declarations.
    pub fn empty() -> (r: Self)
        ensures
            r@ == no_program(),
    {
        let r = Program {
            path: None,
            globals: Vec::new(),
            functions: Vec::new(),
            structs: Vec::new(),
            enums: Vec::new(),
            traits: Vec::new(),
            impls: Vec::new(),
            rulesets: Vec::new(),
            typedefs: Vec::new(),
            defaults: Vec::new(),
        };
        proof {
            assert(r@.globals =~= no_program().globals);
            assert(r@.functions =~= no_program().functions);
            assert(r@.structs =~= no_program().structs);
            assert(r@.enums =~= no_program().enums);
            assert(r@.traits =~= no_program().traits);
            assert(r@.impls =~= no_program().impls);
            assert(r@.rulesets =~= no_program().rulesets);
            assert(r@.typedefs =~= no_program().typedefs);
            assert(r@.defaults =~= no_program().defaults);
        }
        r
    }
}

} // verus!
