//! Type inference of whole programs.
use crate::ast::{lemma_block_v, BlockV};
use crate::decl::{copy_enum_definition, copy_field, copy_function, copy_global_decl, copy_param,
    copy_struct_definition, enum_definitions_v, enum_variants_v, field_list_v, functions_v, global_decls_v,
    params_v, struct_definitions_v, type_defs_v, EnumDefinition, EnumDefinitionV, EnumVariant, EnumVariantV,
    Field, FieldV, Function, FunctionV, GlobalDecl, GlobalDeclV, Param, ParamV, Program, ProgramV,
    StructDefinition, StructDefinitionV, TypeDef, TypeDefV};
use crate::engine::{def_enum, def_function, def_global, def_struct, def_var, def_variant, instances_v,
    name_pairs_v, next_id, pending_generics_v, scope_entered, scope_left, with_known, with_unknown, EnvV,
    MonoV, PendingGenericV, PendingInstanceV, TypeInferencer};
use crate::error::{CompilationError, ErrorV};
use crate::ffi::name_ids;
use crate::infer_lookup::pairs_of_fields;
use crate::infer_stmt::no_params;
use crate::monomorph::{all_known, annotated, fields_result, function_result, id_result, ids_of_params,
    param_ids, params_result, type_error, unit_result, variants_result};
use crate::stmt_spec::{block_typed, initialized};
use crate::store::{known_in, rep_in, unified, SlotV, StoreV};
use crate::types::{lemma_type_v, opt_type_v, Type, TypeId, TypeV};
use vstd::prelude::*;

verus! {

/// How deep definitions, expressions and statements may nest: as deep as the machine can count.
pub const MAX_DEPTH: usize = usize::MAX;

/// The parameters from position `i` on with their types, appended to `acc`; each is a variable
/// of the innermost scope.
pub open spec fn params_typed(fuel: nat, e: EnvV, ps: Seq<ParamV>, i: int, acc: Seq<ParamV>) -> (
    EnvV,
    Result<Seq<ParamV>, ErrorV>,
)
    decreases ps.len() - i,
{
    if i < 0 || i >= ps.len() {
        (e, Ok(acc))
    } else {
        match annotated(fuel, e, ps[i].annotation, Seq::empty()) {
            (e1, Err(err)) => (e1, Err(err)),
            (e1, Ok(id)) => params_typed(
                fuel,
                def_var(e1, ps[i].name, id),
                ps,
                i + 1,
                acc.push(ParamV { ty: id, ..ps[i] }),
            ),
        }
    }
}

/// The declared return type of a function, or an unknown one.
pub open spec fn return_declared(fuel: nat, e: EnvV, ret: Option<TypeV>) -> (EnvV, Result<TypeId, ErrorV>) {
    match ret {
        Some(_) => annotated(fuel, e, ret, Seq::empty()),
        None => (with_unknown(e), Ok(next_id(e))),
    }
}

/// Whether the representative of a type index stands for an unknown type.
pub open spec fn is_open(s: StoreV, id: TypeId) -> bool {
    let r = rep_in(s, id);
    0 <= r < s.slots.len() && s.slots[r] == (SlotV { rep: r, known: None })
}

/// The return type of a function after its body: one that is still unknown is `Void`.
pub open spec fn return_settled(e: EnvV, ret: TypeId) -> (EnvV, Result<TypeId, ErrorV>) {
    if is_open(e.store, ret) {
        let e1 = with_known(e, TypeV::Void);
        match unified(e1.store, ret, next_id(e)) {
            Ok(s) => (EnvV { store: s, ..e1 }, Ok(next_id(e))),
            Err(err) => (e1, Err(err)),
        }
    } else {
        (e, Ok(ret))
    }
}

/// The engine with a function known: to calls, and as a value where its type is known.
pub open spec fn function_known(e: EnvV, name: Seq<char>, ids: Seq<TypeId>, ret: TypeId) -> EnvV {
    let e1 = def_function(e, name, ids, ret);
    match (all_known(e1.store, ids, 0, Seq::empty()), known_in(e1.store, ret)) {
        (Some(ts), Some(t)) => def_global(
            with_known(e1, TypeV::Function { param_tys: ts, ret_ty: Box::new(t) }),
            name,
            next_id(e1),
        ),
        _ => e1,
    }
}

/// A function with its types filled in.
pub open spec fn function_typed(fuel: nat, e: EnvV, f: FunctionV) -> (EnvV, Result<FunctionV, ErrorV>) {
    match params_typed(fuel, scope_entered(e), f.params, 0, Seq::empty()) {
        (e1, Err(err)) => (e1, Err(err)),
        (e1, Ok(params)) => match return_declared(fuel, e1, f.return_type) {
            (e2, Err(err)) => (e2, Err(err)),
            (e2, Ok(ret)) => body_typed(fuel, EnvV { ret: Some(ret), ..e2 }, f, params, ret),
        },
    }
}

/// A function with known parameters and return type, with the types in its body filled in.
pub open spec fn body_typed(fuel: nat, e: EnvV, f: FunctionV, params: Seq<ParamV>, ret: TypeId) -> (
    EnvV,
    Result<FunctionV, ErrorV>,
) {
    match block_typed(fuel, e, f.body.stmts) {
        (e1, Err(err)) => (e1, Err(err)),
        (e1, Ok(stmts)) => match return_settled(e1, ret) {
            (e2, Err(err)) => (e2, Err(err)),
            (e2, Ok(id)) => (
                function_known(scope_left(EnvV { ret: None, ..e2 }), f.name, param_ids(params), id),
                Ok(FunctionV { params, inferred_return: Some(id), body: BlockV { stmts }, ..f }),
            ),
        },
    }
}

/// The functions from position `i` on with their types filled in, appended to `acc`; generic
/// ones stay as they are.
pub open spec fn functions_typed(fuel: nat, e: EnvV, fs: Seq<FunctionV>, i: int, acc: Seq<FunctionV>) -> (
    EnvV,
    Result<Seq<FunctionV>, ErrorV>,
)
    decreases fs.len() - i,
{
    if i < 0 || i >= fs.len() {
        (e, Ok(acc))
    } else if fs[i].type_params.len() > 0 {
        functions_typed(fuel, e, fs, i + 1, acc.push(fs[i]))
    } else {
        match function_typed(fuel, e, fs[i]) {
            (e1, Err(err)) => (e1, Err(err)),
            (e1, Ok(f)) => functions_typed(fuel, e1, fs, i + 1, acc.push(f)),
        }
    }
}

/// The error for a global with neither a type nor a value.
pub open spec fn bare_global(name: Seq<char>) -> ErrorV {
    ErrorV::TypeError("Global variable '"@ + name + "' declared without type annotation or initializer"@)
}

/// The globals from position `i` on with their types filled in, appended to `acc`.
pub open spec fn globals_typed(fuel: nat, e: EnvV, gs: Seq<GlobalDeclV>, i: int, acc: Seq<GlobalDeclV>) -> (
    EnvV,
    Result<Seq<GlobalDeclV>, ErrorV>,
)
    decreases gs.len() - i,
{
    if i < 0 || i >= gs.len() {
        (e, Ok(acc))
    } else {
        match initialized(fuel, e, gs[i].annotation, gs[i].init, bare_global(gs[i].name)) {
            (e1, Err(err)) => (e1, Err(err)),
            (e1, Ok((id, init))) => globals_typed(
                fuel,
                def_global(e1, gs[i].name, id),
                gs,
                i + 1,
                acc.push(GlobalDeclV { inferred: id, init, ..gs[i] }),
            ),
        }
    }
}

/// The fields from position `i` on with the types of their annotations, appended to `acc`.
pub open spec fn fields_resolved(fuel: nat, e: EnvV, fs: Seq<FieldV>, i: int, acc: Seq<FieldV>) -> (
    EnvV,
    Result<Seq<FieldV>, ErrorV>,
)
    decreases fs.len() - i,
{
    if i < 0 || i >= fs.len() {
        (e, Ok(acc))
    } else {
        match annotated(fuel, e, fs[i].annotation, Seq::empty()) {
            (e1, Err(err)) => (e1, Err(err)),
            (e1, Ok(id)) => fields_resolved(fuel, e1, fs, i + 1, acc.push(FieldV { ty: id, ..fs[i] })),
        }
    }
}

/// The variants from position `i` on with the types of their arguments, appended to `acc`; each
/// is defined.
pub open spec fn variants_resolved(fuel: nat, e: EnvV, vs: Seq<EnumVariantV>, i: int, acc: Seq<EnumVariantV>) -> (
    EnvV,
    Result<Seq<EnumVariantV>, ErrorV>,
)
    decreases vs.len() - i,
{
    if i < 0 || i >= vs.len() {
        (e, Ok(acc))
    } else {
        match fields_resolved(fuel, e, vs[i].args, 0, Seq::empty()) {
            (e1, Err(err)) => (e1, Err(err)),
            (e1, Ok(args)) => {
                let v = EnumVariantV { args, ..vs[i] };
                variants_resolved(fuel, def_variant(e1, v), vs, i + 1, acc.push(v))
            },
        }
    }
}

/// The engine with the plain enums from position `i` on registered.
pub open spec fn enums_registered(fuel: nat, e: EnvV, ds: Seq<EnumDefinitionV>, i: int) -> (EnvV, Result<(), ErrorV>)
    decreases ds.len() - i,
{
    if i < 0 || i >= ds.len() {
        (e, Ok(()))
    } else if ds[i].type_params.len() > 0 {
        enums_registered(fuel, e, ds, i + 1)
    } else {
        match variants_resolved(fuel, e, ds[i].variants, 0, Seq::empty()) {
            (e1, Err(err)) => (e1, Err(err)),
            (e1, Ok(variants)) => enums_registered(
                fuel,
                def_enum(e1, EnumDefinitionV { variants, ..ds[i] }),
                ds,
                i + 1,
            ),
        }
    }
}

/// The engine with the plain structs from position `i` on registered.
pub open spec fn structs_registered(fuel: nat, e: EnvV, ds: Seq<StructDefinitionV>, i: int) -> (EnvV, Result<(), ErrorV>)
    decreases ds.len() - i,
{
    if i < 0 || i >= ds.len() {
        (e, Ok(()))
    } else if ds[i].type_params.len() > 0 {
        structs_registered(fuel, e, ds, i + 1)
    } else {
        match fields_resolved(fuel, e, ds[i].fields, 0, Seq::empty()) {
            (e1, Err(err)) => (e1, Err(err)),
            (e1, Ok(fields)) => structs_registered(
                fuel,
                def_struct(
                    with_known(e1, TypeV::Struct { name: ds[i].name, fields: name_ids(fields) }),
                    StructDefinitionV { fields, ..ds[i] },
                ),
                ds,
                i + 1,
            ),
        }
    }
}

/// The engine with the aliases from position `i` on registered.
pub open spec fn typedefs_registered(e: EnvV, ts: Seq<TypeDefV>, i: int) -> EnvV
    decreases ts.len() - i,
{
    if i < 0 || i >= ts.len() {
        e
    } else {
        typedefs_registered(
            EnvV {
                store: StoreV { typedefs: e.store.typedefs.insert(ts[i].name, ts[i].type_def), ..e.store },
                ..e
            },
            ts,
            i + 1,
        )
    }
}

/// The engine at the start of a pass over the program: nothing of an earlier pass is pending.
pub open spec fn pass_begun(e: EnvV) -> EnvV {
    EnvV {
        mono: MonoV {
            instance_types: Seq::empty(),
            pending: Seq::empty(),
            unresolved: Seq::empty(),
            ..e.mono
        },
        ..e
    }
}

/// The engine with the types of a program registered.
pub open spec fn types_registered(fuel: nat, e: EnvV, p: ProgramV) -> (EnvV, Result<(), ErrorV>) {
    match enums_registered(fuel, e, p.enums, 0) {
        (e1, Err(err)) => (e1, Err(err)),
        (e1, Ok(_)) => match structs_registered(fuel, e1, p.structs, 0) {
            (e2, Err(err)) => (e2, Err(err)),
            (e2, Ok(_)) => (typedefs_registered(e2, p.typedefs, 0), Ok(())),
        },
    }
}

/// A program with its types filled in: first its own types, then its globals, then its plain
/// functions.
pub open spec fn program_typed(fuel: nat, e: EnvV, p: ProgramV) -> (EnvV, Result<ProgramV, ErrorV>) {
    match types_registered(fuel, pass_begun(e), p) {
        (e1, Err(err)) => (e1, Err(err)),
        (e1, Ok(_)) => match globals_typed(fuel, e1, p.globals, 0, Seq::empty()) {
            (e2, Err(err)) => (e2, Err(err)),
            (e2, Ok(globals)) => match functions_typed(fuel, e2, p.functions, 0, Seq::empty()) {
                (e3, Err(err)) => (e3, Err(err)),
                (e3, Ok(functions)) => (e3, Ok(ProgramV { globals, functions, ..p })),
            },
        },
    }
}

/// The contents of globals, or of an error.
pub open spec fn globals_result(r: Result<Vec<GlobalDecl>, CompilationError>) -> Result<Seq<GlobalDeclV>, ErrorV> {
    match r {
        Ok(v) => Ok(global_decls_v(v@)),
        Err(e) => Err(e@),
    }
}

/// The contents of functions, or of an error.
pub open spec fn functions_result(r: Result<Vec<Function>, CompilationError>) -> Result<Seq<FunctionV>, ErrorV> {
    match r {
        Ok(v) => Ok(functions_v(v@)),
        Err(e) => Err(e@),
    }
}

impl TypeInferencer {
    fn infer_params(&mut self, ps: &Vec<Param>, depth: usize) -> (r: Result<Vec<Param>, CompilationError>)
        ensures
            (final(self)@, params_result(r)) == params_typed(depth as nat, old(self)@, params_v(ps@), 0, Seq::empty()),
    {
        let ghost e0 = self@;
        let mut out: Vec<Param> = Vec::new();
        let mut i: usize = 0;
        proof {
            assert(params_v(out@) =~= Seq::<ParamV>::empty());
        }
        while i < ps.len()
            invariant
                i <= ps@.len(),
                e0 == old(self)@,
                params_typed(depth as nat, e0, params_v(ps@), 0, Seq::empty()) == params_typed(depth as nat, self@, params_v(ps@), i as int, params_v(out@)),
            decreases ps@.len() - i,
        {
            assert(params_v(ps@)[i as int] == ps@[i as int]@);
            match self.type_id_from_annotation(ps[i].annotation.as_ref(), &no_params(), depth) {
                Err(err) => return Err(err),
                Ok(id) => {
                    self.symbols.define_var(ps[i].name.as_str(), id);
                    let mut p = copy_param(&ps[i]);
                    p.ty = id;
                    proof {
                        assert(params_v(out@.push(p)) =~= params_v(out@).push(p@));
                    }
                    out.push(p);
                },
            }
            i = i + 1;
        }
        Ok(out)
    }

    fn declare_return(&mut self, ret: &Option<Type>, depth: usize) -> (r: Result<TypeId, CompilationError>)
        ensures
            (final(self)@, id_result(r)) == return_declared(depth as nat, old(self)@, opt_type_v(*ret)),
    {
        match ret {
            Some(_) => self.type_id_from_annotation(ret.as_ref(), &no_params(), depth),
            None => Ok(self.unknown()),
        }
    }

    fn settle_return(&mut self, ret: TypeId) -> (r: Result<TypeId, CompilationError>)
        ensures
            (final(self)@, id_result(r)) == return_settled(old(self)@, ret),
    {
        let rep = self.store.find_rep(ret);
        if self.store.is_unknown(rep) {
            let id = self.known(Type::Void);
            match self.store.unify(ret, id) {
                Ok(_) => Ok(id),
                Err(err) => Err(err),
            }
        } else {
            Ok(ret)
        }
    }

    fn make_function_known(&mut self, name: &str, ids: &Vec<TypeId>, ret: TypeId)
        ensures
            final(self)@ == function_known(old(self)@, name@, ids@, ret),
    {
        broadcast use lemma_type_v;

        self.symbols.define_function(name, crate::symbols::copy_ids(ids), ret);
        match self.resolve_all(ids) {
            Some(ts) => match self.store.resolve(ret) {
                Ok(t) => {
                    let id = self.known(Type::Function { param_tys: ts, ret_ty: Box::new(t) });
                    self.symbols.define_global(name, id);
                },
                Err(_) => {},
            },
            None => {},
        }
    }

    /// Infers the types in a function, and makes the function known.
    pub fn infer_function(&mut self, f: Function, depth: usize) -> (r: Result<Function, CompilationError>)
        ensures
            (final(self)@, function_result(r)) == function_typed(depth as nat, old(self)@, f@),
    {
        self.enter_scope();
        let params = match self.infer_params(&f.params, depth) {
            Ok(v) => v,
            Err(err) => return Err(err),
        };
        let ret = match self.declare_return(&f.return_type, depth) {
            Ok(id) => id,
            Err(err) => return Err(err),
        };
        self.current_return_type = Some(ret);
        self.infer_body(f, params, ret, depth)
    }

    fn infer_body(&mut self, f: Function, params: Vec<Param>, ret: TypeId, depth: usize) -> (r: Result<
        Function,
        CompilationError,
    >)
        ensures
            (final(self)@, function_result(r)) == body_typed(
                depth as nat,
                old(self)@,
                f@,
                params_v(params@),
                ret,
            ),
    {
        let mut f = f;
        let ghost f0 = f@;
        proof {
            lemma_block_v(f.body);
        }
        let body = crate::ast::copy_block(&f.body);
        proof {
            lemma_block_v(body);
        }
        let body = match self.infer_block(body, depth) {
            Ok(b) => b,
            Err(err) => return Err(err),
        };
        let id = match self.settle_return(ret) {
            Ok(id) => id,
            Err(err) => return Err(err),
        };
        self.current_return_type = None;
        self.leave_scope();
        let ids = ids_of_params(&params);
        self.make_function_known(f.name.as_str(), &ids, id);
        proof {
            lemma_block_v(body);
        }
        f.params = params;
        f.inferred_return = Some(id);
        f.body = body;
        Ok(f)
    }

    fn infer_functions(&mut self, fs: &Vec<Function>, depth: usize) -> (r: Result<Vec<Function>, CompilationError>)
        ensures
            (final(self)@, functions_result(r)) == functions_typed(depth as nat, old(self)@, functions_v(fs@), 0, Seq::empty()),
    {
        let ghost e0 = self@;
        let mut out: Vec<Function> = Vec::new();
        let mut i: usize = 0;
        proof {
            assert(functions_v(out@) =~= Seq::<FunctionV>::empty());
        }
        while i < fs.len()
            invariant
                i <= fs@.len(),
                e0 == old(self)@,
                functions_typed(depth as nat, e0, functions_v(fs@), 0, Seq::empty()) == functions_typed(depth as nat, self@, functions_v(fs@), i as int, functions_v(out@)),
            decreases fs@.len() - i,
        {
            assert(functions_v(fs@)[i as int] == fs@[i as int]@);
            let f = copy_function(&fs[i]);
            assert(f@.type_params.len() == f.type_params@.len());
            let f = if f.type_params.len() > 0 {
                f
            } else {
                match self.infer_function(f, depth) {
                    Err(err) => return Err(err),
                    Ok(f) => f,
                }
            };
            proof {
                assert(functions_v(out@.push(f)) =~= functions_v(out@).push(f@));
            }
            out.push(f);
            i = i + 1;
        }
        Ok(out)
    }

    /// Infers the types of globals.
    pub fn infer_globals(&mut self, gs: &Vec<GlobalDecl>, depth: usize) -> (r: Result<Vec<GlobalDecl>, CompilationError>)
        ensures
            (final(self)@, globals_result(r)) == globals_typed(depth as nat, old(self)@, global_decls_v(gs@), 0, Seq::empty()),
    {
        let ghost e0 = self@;
        let mut out: Vec<GlobalDecl> = Vec::new();
        let mut i: usize = 0;
        proof {
            assert(global_decls_v(out@) =~= Seq::<GlobalDeclV>::empty());
        }
        while i < gs.len()
            invariant
                i <= gs@.len(),
                e0 == old(self)@,
                globals_typed(depth as nat, e0, global_decls_v(gs@), 0, Seq::empty()) == globals_typed(depth as nat, self@, global_decls_v(gs@), i as int, global_decls_v(out@)),
            decreases gs@.len() - i,
        {
            assert(global_decls_v(gs@)[i as int] == gs@[i as int]@);
            let missing = type_error(
                "Global variable '".to_owned().concat(gs[i].name.as_str()).concat(
                    "' declared without type annotation or initializer",
                ),
            );
            let init = crate::ast::copy_opt_expr(&gs[i].init);
            match self.infer_initializer(&gs[i].annotation, init, missing, depth) {
                Err(err) => return Err(err),
                Ok((id, init)) => {
                    self.symbols.define_global(gs[i].name.as_str(), id);
                    let mut g = copy_global_decl(&gs[i]);
                    g.inferred = id;
                    g.init = init;
                    proof {
                        assert(global_decls_v(out@.push(g)) =~= global_decls_v(out@).push(g@));
                    }
                    out.push(g);
                },
            }
            i = i + 1;
        }
        Ok(out)
    }

    fn resolve_fields(&mut self, fs: &Vec<Field>, depth: usize) -> (r: Result<Vec<Field>, CompilationError>)
        ensures
            (final(self)@, fields_result(r)) == fields_resolved(depth as nat, old(self)@, field_list_v(fs@), 0, Seq::empty()),
    {
        let ghost e0 = self@;
        let mut out: Vec<Field> = Vec::new();
        let mut i: usize = 0;
        proof {
            assert(field_list_v(out@) =~= Seq::<FieldV>::empty());
        }
        while i < fs.len()
            invariant
                i <= fs@.len(),
                e0 == old(self)@,
                fields_resolved(depth as nat, e0, field_list_v(fs@), 0, Seq::empty()) == fields_resolved(depth as nat, self@, field_list_v(fs@), i as int, field_list_v(out@)),
            decreases fs@.len() - i,
        {
            assert(field_list_v(fs@)[i as int] == fs@[i as int]@);
            match self.type_id_from_annotation(fs[i].annotation.as_ref(), &no_params(), depth) {
                Err(err) => return Err(err),
                Ok(id) => {
                    let mut f = copy_field(&fs[i]);
                    f.ty = id;
                    proof {
                        assert(field_list_v(out@.push(f)) =~= field_list_v(out@).push(f@));
                    }
                    out.push(f);
                },
            }
            i = i + 1;
        }
        Ok(out)
    }

    fn resolve_variants(&mut self, vs: &Vec<EnumVariant>, depth: usize) -> (r: Result<Vec<EnumVariant>, CompilationError>)
        ensures
            (final(self)@, variants_result(r)) == variants_resolved(depth as nat, old(self)@, enum_variants_v(vs@), 0, Seq::empty()),
    {
        let ghost e0 = self@;
        let mut out: Vec<EnumVariant> = Vec::new();
        let mut i: usize = 0;
        proof {
            assert(enum_variants_v(out@) =~= Seq::<EnumVariantV>::empty());
        }
        while i < vs.len()
            invariant
                i <= vs@.len(),
                e0 == old(self)@,
                variants_resolved(depth as nat, e0, enum_variants_v(vs@), 0, Seq::empty()) == variants_resolved(depth as nat, self@, enum_variants_v(vs@), i as int, enum_variants_v(out@)),
            decreases vs@.len() - i,
        {
            assert(enum_variants_v(vs@)[i as int] == vs@[i as int]@);
            match self.resolve_fields(&vs[i].args, depth) {
                Err(err) => return Err(err),
                Ok(args) => {
                    let mut v = crate::decl::copy_enum_variant(&vs[i]);
                    v.args = args;
                    self.symbols.define_enum_variant(&v);
                    proof {
                        assert(enum_variants_v(out@.push(v)) =~= enum_variants_v(out@).push(v@));
                    }
                    out.push(v);
                },
            }
            i = i + 1;
        }
        Ok(out)
    }

    /// Registers the plain enums of a program.
    pub fn register_enum_types(&mut self, ds: &Vec<EnumDefinition>, depth: usize) -> (r: Result<(), CompilationError>)
        ensures
            (final(self)@, unit_result(r)) == enums_registered(depth as nat, old(self)@, enum_definitions_v(ds@), 0),
    {
        let ghost e0 = self@;
        let mut i: usize = 0;
        while i < ds.len()
            invariant
                i <= ds@.len(),
                e0 == old(self)@,
                enums_registered(depth as nat, e0, enum_definitions_v(ds@), 0) == enums_registered(depth as nat, self@, enum_definitions_v(ds@), i as int),
            decreases ds@.len() - i,
        {
            assert(enum_definitions_v(ds@)[i as int] == ds@[i as int]@);
            let mut d = copy_enum_definition(&ds[i]);
            assert(d@.type_params.len() == d.type_params@.len());
            if d.type_params.len() == 0 {
                match self.resolve_variants(&ds[i].variants, depth) {
                    Err(err) => return Err(err),
                    Ok(vs) => {
                        d.variants = vs;
                        self.symbols.define_enum(d);
                    },
                }
            }
            i = i + 1;
        }
        Ok(())
    }

    /// Registers the plain structs of a program.
    pub fn register_struct_types(&mut self, ds: &Vec<StructDefinition>, depth: usize) -> (r: Result<(), CompilationError>)
        ensures
            (final(self)@, unit_result(r)) == structs_registered(depth as nat, old(self)@, struct_definitions_v(ds@), 0),
    {
        let ghost e0 = self@;
        let mut i: usize = 0;
        while i < ds.len()
            invariant
                i <= ds@.len(),
                e0 == old(self)@,
                structs_registered(depth as nat, e0, struct_definitions_v(ds@), 0) == structs_registered(depth as nat, self@, struct_definitions_v(ds@), i as int),
            decreases ds@.len() - i,
        {
            assert(struct_definitions_v(ds@)[i as int] == ds@[i as int]@);
            let mut d = copy_struct_definition(&ds[i]);
            assert(d@.type_params.len() == d.type_params@.len());
            if d.type_params.len() == 0 {
                match self.resolve_fields(&ds[i].fields, depth) {
                    Err(err) => return Err(err),
                    Ok(fs) => {
                        let pairs = pairs_of_fields(&fs);
                        let id = self.known(Type::Struct { name: d.name.clone(), fields: pairs });
                        d.fields = fs;
                        self.symbols.define_struct(d);
                    },
                }
            }
            i = i + 1;
        }
        Ok(())
    }

    /// Registers the aliases of a program.
    pub fn register_typedefs(&mut self, ts: &Vec<TypeDef>)
        ensures
            final(self)@ == typedefs_registered(old(self)@, type_defs_v(ts@), 0),
    {
        let ghost e0 = self@;
        let mut i: usize = 0;
        while i < ts.len()
            invariant
                i <= ts@.len(),
                e0 == old(self)@,
                typedefs_registered(e0, type_defs_v(ts@), 0) == typedefs_registered(self@, type_defs_v(ts@), i as int),
            decreases ts@.len() - i,
        {
            assert(type_defs_v(ts@)[i as int] == ts@[i as int]@);
            self.store.register_typedef(ts[i].name.clone(), crate::types::copy_type(&ts[i].type_def));
            i = i + 1;
        }
    }

    /// Forgets what an earlier pass left pending.
    pub fn begin_monomorph_pass(&mut self)
        ensures
            final(self)@ == pass_begun(old(self)@),
    {
        self.monomorphs.instance_types = Vec::new();
        self.monomorphs.pending = Vec::new();
        self.monomorphs.unresolved = Vec::new();
        proof {
            assert(instances_v(self.monomorphs.instance_types@) =~= Seq::<(TypeId, PendingInstanceV)>::empty());
            assert(pending_generics_v(self.monomorphs.pending@) =~= Seq::<PendingGenericV>::empty());
            assert(name_pairs_v(self.monomorphs.unresolved@) =~= Seq::<(Seq<char>, Seq<char>)>::empty());
        }
    }

    fn register_types(&mut self, p: &Program, depth: usize) -> (r: Result<(), CompilationError>)
        ensures
            (final(self)@, unit_result(r)) == types_registered(depth as nat, old(self)@, p@),
    {
        match self.register_enum_types(&p.enums, depth) {
            Err(err) => return Err(err),
            Ok(_) => {},
        }
        match self.register_struct_types(&p.structs, depth) {
            Err(err) => return Err(err),
            Ok(_) => {},
        }
        self.register_typedefs(&p.typedefs);
        Ok(())
    }

    /// Infers the types in a program. After an error the program is unchanged.
    pub fn infer_program(&mut self, prog: &mut Program) -> (r: Result<(), CompilationError>)
        ensures
            match r {
                Ok(_) => program_typed(MAX_DEPTH as nat, old(self)@, old(prog)@) == (
                    final(self)@,
                    Ok::<ProgramV, ErrorV>(final(prog)@),
                ),
                Err(err) => program_typed(MAX_DEPTH as nat, old(self)@, old(prog)@) == (
                    final(self)@,
                    Err::<ProgramV, ErrorV>(err@),
                ) && final(prog)@ == old(prog)@,
            },
    {
        self.begin_monomorph_pass();
        match self.register_types(prog, MAX_DEPTH) {
            Err(err) => return Err(err),
            Ok(_) => {},
        }
        let globals = match self.infer_globals(&prog.globals, MAX_DEPTH) {
            Err(err) => return Err(err),
            Ok(v) => v,
        };
        let functions = match self.infer_functions(&prog.functions, MAX_DEPTH) {
            Err(err) => return Err(err),
            Ok(v) => v,
        };
        prog.globals = globals;
        prog.functions = functions;
        Ok(())
    }
}

} // verus!
