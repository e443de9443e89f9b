//! The type check of a whole program: from loaded modules to one program with all types.
use crate::decl::{copy_default_specializations, copy_enum_definitions, copy_functions, copy_global_decls,
    copy_impl_definitions, copy_struct_definitions, copy_trait_definitions, copy_type_defs,
    default_specializations_v, enum_definitions_v, functions_v, global_decls_v, impl_definitions_v,
    no_program, struct_definitions_v, trait_definitions_v, type_defs_v, DefaultSpecializationV,
    EnumDefinitionV, FunctionV, GlobalDeclV, ImplDefinitionV, Program, ProgramV, StructDefinitionV,
    TraitDefinitionV, TypeDefV};
use crate::engine::{EnvV, MonoV, TypeInferencer};
use crate::error::{CompilationError, ErrorV};
use crate::generics::{generics_error, validate_generics};
use crate::infer_program::{program_typed, MAX_DEPTH};
use crate::kept_modules::law_check_keeps_realized_names;
use crate::kept_types::grown;
use crate::module::{copy_path, paths_v, ModulePath};
use crate::mono_pass::{monomorphs_generated, undetermined};
use crate::monomorph::{type_error, unit_result};
use crate::registry::{module_at, ModuleRegistry, RegistryV};
use crate::templates::{impls_registered, templates_registered, trait_impls_error};
use crate::text;
use vstd::prelude::*;

verus! {

/// How many passes over the program may find new generic applications.
pub const MONOMORPH_PASS_LIMIT: usize = 64;

/// A program with the declarations of another behind its own. Rule sets and the path stay.
pub open spec fn program_added(a: ProgramV, b: ProgramV) -> ProgramV {
    ProgramV {
        globals: a.globals + b.globals,
        functions: a.functions + b.functions,
        structs: a.structs + b.structs,
        enums: a.enums + b.enums,
        typedefs: a.typedefs + b.typedefs,
        traits: a.traits + b.traits,
        impls: a.impls + b.impls,
        defaults: a.defaults + b.defaults,
        ..a
    }
}

/// A program with those of the modules from position `i` on added. A path without a module is
/// passed over.
pub open spec fn modules_added(r: RegistryV, paths: Seq<Seq<Seq<char>>>, i: int, acc: ProgramV) -> ProgramV
    decreases paths.len() - i,
{
    if i < 0 || i >= paths.len() {
        acc
    } else {
        match module_at(r.modules, paths[i], 0) {
            Some(k) => modules_added(r, paths, i + 1, program_added(acc, r.modules[k].program)),
            None => modules_added(r, paths, i + 1, acc),
        }
    }
}

/// One program of all modules, under the path of the last.
pub open spec fn merged(r: RegistryV, paths: Seq<Seq<Seq<char>>>) -> ProgramV {
    ProgramV {
        path: if paths.len() > 0 {
            Some(paths.last())
        } else {
            None
        },
        ..modules_added(r, paths, 0, no_program())
    }
}

/// Whether every declaration of the second program is one of the first.
pub open spec fn holds_declarations(a: ProgramV, b: ProgramV) -> bool {
    &&& forall|x: FunctionV| #[trigger] b.functions.contains(x) ==> a.functions.contains(x)
    &&& forall|x: GlobalDeclV| #[trigger] b.globals.contains(x) ==> a.globals.contains(x)
    &&& forall|x: StructDefinitionV| #[trigger] b.structs.contains(x) ==> a.structs.contains(x)
    &&& forall|x: EnumDefinitionV| #[trigger] b.enums.contains(x) ==> a.enums.contains(x)
    &&& forall|x: TypeDefV| #[trigger] b.typedefs.contains(x) ==> a.typedefs.contains(x)
    &&& forall|x: TraitDefinitionV| #[trigger] b.traits.contains(x) ==> a.traits.contains(x)
    &&& forall|x: ImplDefinitionV| #[trigger] b.impls.contains(x) ==> a.impls.contains(x)
    &&& forall|x: DefaultSpecializationV| #[trigger] b.defaults.contains(x) ==> a.defaults.contains(x)
}

/// The merged program holds every declaration of each of the modules.
pub proof fn law_merging_keeps_every_declaration(r: RegistryV, paths: Seq<Seq<Seq<char>>>, i: int)
    requires
        0 <= i < paths.len(),
    ensures
        module_at(r.modules, paths[i], 0) matches Some(k) ==> holds_declarations(
            merged(r, paths),
            r.modules[k].program,
        ),
{
    lemma_modules_added(r, paths, 0, no_program(), i);
}

proof fn lemma_joined_holds<T>(a: Seq<T>, b: Seq<T>)
    ensures
        forall|x: T| #[trigger] a.contains(x) ==> (a + b).contains(x),
        forall|x: T| #[trigger] b.contains(x) ==> (a + b).contains(x),
{
    assert forall|x: T| #[trigger] a.contains(x) implies (a + b).contains(x) by {
        let i = choose|i: int| 0 <= i < a.len() && a[i] == x;
        assert((a + b)[i] == x);
    }
    assert forall|x: T| #[trigger] b.contains(x) implies (a + b).contains(x) by {
        let i = choose|i: int| 0 <= i < b.len() && b[i] == x;
        assert((a + b)[a.len() + i] == x);
    }
}

proof fn lemma_program_added(a: ProgramV, b: ProgramV)
    ensures
        holds_declarations(program_added(a, b), a),
        holds_declarations(program_added(a, b), b),
{
    lemma_joined_holds(a.functions, b.functions);
    lemma_joined_holds(a.globals, b.globals);
    lemma_joined_holds(a.structs, b.structs);
    lemma_joined_holds(a.enums, b.enums);
    lemma_joined_holds(a.typedefs, b.typedefs);
    lemma_joined_holds(a.traits, b.traits);
    lemma_joined_holds(a.impls, b.impls);
    lemma_joined_holds(a.defaults, b.defaults);
}

proof fn lemma_modules_added(r: RegistryV, paths: Seq<Seq<Seq<char>>>, j: int, acc: ProgramV, i: int)
    requires
        0 <= j <= paths.len(),
    ensures
        holds_declarations(modules_added(r, paths, j, acc), acc),
        j <= i < paths.len() ==> (module_at(r.modules, paths[i], 0) matches Some(k) ==> holds_declarations(
            modules_added(r, paths, j, acc),
            r.modules[k].program,
        )),
    decreases paths.len() - j,
{
    if j < paths.len() {
        match module_at(r.modules, paths[j], 0) {
            Some(k) => {
                let next = program_added(acc, r.modules[k].program);
                lemma_program_added(acc, r.modules[k].program);
                lemma_modules_added(r, paths, j + 1, next, i);
            },
            None => {
                lemma_modules_added(r, paths, j + 1, acc, i);
            },
        }
    }
}

/// The names of the structs and enums of a program.
pub open spec fn type_names(p: ProgramV) -> Seq<Seq<char>> {
    p.structs.map_values(|d: StructDefinitionV| d.name) + p.enums.map_values(|d: EnumDefinitionV| d.name)
}

/// The engine with the generic definitions and implementations of one module, where structs and
/// enums of the given names are known.
pub open spec fn module_registered(
    fuel: nat,
    e: EnvV,
    types: Seq<Seq<char>>,
    path: Seq<Seq<char>>,
    p: ProgramV,
) -> (EnvV, Result<(), ErrorV>) {
    impls_registered(fuel, templates_registered(e, path, p), types, path, p.impls, 0)
}

/// The engine with the generic definitions and implementations of the modules from position `i`
/// on.
pub open spec fn modules_registered(
    fuel: nat,
    e: EnvV,
    types: Seq<Seq<char>>,
    r: RegistryV,
    paths: Seq<Seq<Seq<char>>>,
    i: int,
) -> (
    EnvV,
    Result<(), ErrorV>,
)
    decreases paths.len() - i,
{
    if i < 0 || i >= paths.len() {
        (e, Ok(()))
    } else {
        match module_at(r.modules, paths[i], 0) {
            None => modules_registered(fuel, e, types, r, paths, i + 1),
            Some(k) => match module_registered(fuel, e, types, paths[i], r.modules[k].program) {
                (e1, Err(err)) => (e1, Err(err)),
                (e1, Ok(_)) => modules_registered(fuel, e1, types, r, paths, i + 1),
            },
        }
    }
}

/// The methods of implementations moved from the engine to the program.
pub open spec fn methods_moved(e: EnvV, p: ProgramV) -> (EnvV, ProgramV) {
    (
        EnvV { mono: MonoV { impl_methods: Seq::empty(), ..e.mono }, ..e },
        ProgramV { functions: p.functions + e.mono.impl_methods, ..p },
    )
}

/// The error for a program in which every pass finds new generic applications.
pub open spec fn too_many_passes(passes: nat) -> ErrorV {
    ErrorV::TypeError(
        "Maximum number of compile passes exceeded while monomorphizing generic definitions ("@
            + text::decimal_text(passes) + " passes)"@,
    )
}

/// Passes over the program until one finds no new generic application, where `passes` found
/// some before.
pub open spec fn settled(fuel: nat, e: EnvV, p: ProgramV, passes: nat) -> (EnvV, ProgramV, Result<(), ErrorV>)
    decreases MONOMORPH_PASS_LIMIT + 1 - passes,
{
    match program_typed(fuel, e, p) {
        (e1, Err(err)) => (e1, p, Err(err)),
        (e1, Ok(p1)) => match monomorphs_generated(fuel, e1, p1) {
            (e2, p2, Err(err)) => (e2, p2, Err(err)),
            (e2, p2, Ok(n)) => if n == 0 {
                (e2, p2, Ok(()))
            } else if passes + 1 > MONOMORPH_PASS_LIMIT {
                (e2, p2, Err(too_many_passes(passes + 1)))
            } else {
                settled(fuel, e2, p2, passes + 1)
            },
        },
    }
}

/// The passes over a program, and the check that they determined everything.
pub open spec fn inferred(fuel: nat, e: EnvV, p: ProgramV) -> (EnvV, Result<ProgramV, ErrorV>) {
    let a = methods_moved(e, p);
    match settled(fuel, a.0, a.1, 0) {
        (e1, p1, Err(err)) => (e1, Err(err)),
        (e1, p1, Ok(_)) => match undetermined(e1) {
            Some(err) => (e1, Err(err)),
            None => (e1, Ok(p1)),
        },
    }
}

/// The type check of modules in the given order: the engine and the program with all types.
pub open spec fn checked(fuel: nat, e: EnvV, r: RegistryV, paths: Seq<Seq<Seq<char>>>) -> (EnvV, Result<ProgramV, ErrorV>) {
    let p = merged(r, paths);
    match generics_error(p) {
        Some(err) => (e, Err(err)),
        None => match modules_registered(fuel, e, type_names(p), r, paths, 0) {
            (e1, Err(err)) => (e1, Err(err)),
            (e1, Ok(_)) => match trait_impls_error(e1, p.traits) {
                Some(err) => (e1, Err(err)),
                None => inferred(fuel, e1, p),
            },
        },
    }
}

/// A program that passed the check has no generic application that is used wrongly, and nothing
/// in it is undetermined.
pub proof fn law_checked_program_is_determined(fuel: nat, e: EnvV, r: RegistryV, paths: Seq<Seq<Seq<char>>>)
    requires
        checked(fuel, e, r, paths).1 is Ok,
    ensures
        generics_error(merged(r, paths)) is None,
        undetermined(checked(fuel, e, r, paths).0) is None,
{
}

/// The passes end: there are at most as many as the limit allows, and after the last one either
/// no application is new or there is an error.
pub proof fn law_last_pass_finds_nothing(fuel: nat, e: EnvV, p: ProgramV, passes: nat)
    requires
        settled(fuel, e, p, passes).2 is Ok,
        passes <= MONOMORPH_PASS_LIMIT,
    ensures
        exists|e0: EnvV, p0: ProgramV|
            #[trigger] monomorphs_generated(fuel, e0, p0) == (
                settled(fuel, e, p, passes).0,
                settled(fuel, e, p, passes).1,
                Ok::<nat, ErrorV>(0),
            ),
    decreases MONOMORPH_PASS_LIMIT + 1 - passes,
{
    let a = program_typed(fuel, e, p);
    let b = monomorphs_generated(fuel, a.0, a.1->Ok_0);
    if b.2->Ok_0 == 0 {
        assert(monomorphs_generated(fuel, a.0, a.1->Ok_0) == (
            settled(fuel, e, p, passes).0,
            settled(fuel, e, p, passes).1,
            Ok::<nat, ErrorV>(0),
        ));
    } else {
        law_last_pass_finds_nothing(fuel, b.0, b.1, passes + 1);
    }
}

fn add_program(a: &mut Program, b: &Program)
    ensures
        final(a)@ == program_added(old(a)@, b@),
{
    let ghost a0 = *a;
    let mut more_globals = copy_global_decls(&b.globals);
    let ghost new_globals = more_globals@;
    a.globals.append(&mut more_globals);
    let mut more_functions = copy_functions(&b.functions);
    let ghost new_functions = more_functions@;
    a.functions.append(&mut more_functions);
    let mut more_structs = copy_struct_definitions(&b.structs);
    let ghost new_structs = more_structs@;
    a.structs.append(&mut more_structs);
    let mut more_enums = copy_enum_definitions(&b.enums);
    let ghost new_enums = more_enums@;
    a.enums.append(&mut more_enums);
    let mut more_typedefs = copy_type_defs(&b.typedefs);
    let ghost new_typedefs = more_typedefs@;
    a.typedefs.append(&mut more_typedefs);
    let mut more_traits = copy_trait_definitions(&b.traits);
    let ghost new_traits = more_traits@;
    a.traits.append(&mut more_traits);
    let mut more_impls = copy_impl_definitions(&b.impls);
    let ghost new_impls = more_impls@;
    a.impls.append(&mut more_impls);
    let mut more_defaults = copy_default_specializations(&b.defaults);
    let ghost new_defaults = more_defaults@;
    a.defaults.append(&mut more_defaults);
    proof {
        assert(global_decls_v(a.globals@) =~= global_decls_v(a0.globals@) + global_decls_v(new_globals));
        assert(functions_v(a.functions@) =~= functions_v(a0.functions@) + functions_v(new_functions));
        assert(struct_definitions_v(a.structs@) =~= struct_definitions_v(a0.structs@) + struct_definitions_v(new_structs));
        assert(enum_definitions_v(a.enums@) =~= enum_definitions_v(a0.enums@) + enum_definitions_v(new_enums));
        assert(type_defs_v(a.typedefs@) =~= type_defs_v(a0.typedefs@) + type_defs_v(new_typedefs));
        assert(trait_definitions_v(a.traits@) =~= trait_definitions_v(a0.traits@) + trait_definitions_v(new_traits));
        assert(impl_definitions_v(a.impls@) =~= impl_definitions_v(a0.impls@) + impl_definitions_v(new_impls));
        assert(default_specializations_v(a.defaults@) =~= default_specializations_v(a0.defaults@) + default_specializations_v(new_defaults));
    }
}

/// One program of all modules in the given order.
pub fn merge_modules_for_inference(registry: &ModuleRegistry, sorted_paths: &Vec<ModulePath>) -> (r: Program)
    ensures
        r@ == merged(registry@, paths_v(sorted_paths@)),
{
    let mut out = Program::empty();
    let mut i: usize = 0;
    while i < sorted_paths.len()
        invariant
            i <= sorted_paths@.len(),
            modules_added(registry@, paths_v(sorted_paths@), 0, no_program()) == modules_added(
                registry@,
                paths_v(sorted_paths@),
                i as int,
                out@,
            ),
        decreases sorted_paths@.len() - i,
    {
        assert(paths_v(sorted_paths@)[i as int] == sorted_paths@[i as int]@);
        match registry.get(&sorted_paths[i]) {
            Some(m) => add_program(&mut out, &m.program),
            None => {},
        }
        i = i + 1;
    }
    proof {
        assert(paths_v(sorted_paths@).len() == sorted_paths@.len());
    }
    out.path = if sorted_paths.len() > 0 {
        let k: usize = sorted_paths.len() - 1;
        assert(paths_v(sorted_paths@)[k as int] == sorted_paths@[k as int]@);
        Some(copy_path(&sorted_paths[k]))
    } else {
        None
    };
    out
}

/// The contents of a program, or of an error.
pub open spec fn program_result(r: Result<Program, CompilationError>) -> Result<ProgramV, ErrorV> {
    match r {
        Ok(p) => Ok(p@),
        Err(e) => Err(e@),
    }
}

fn names_of_types(p: &Program) -> (r: Vec<String>)
    ensures
        text::texts(r@) == type_names(p@),
{
    let ghost ss = p@.structs.map_values(|d: StructDefinitionV| d.name);
    let ghost es = p@.enums.map_values(|d: EnumDefinitionV| d.name);
    let mut out: Vec<String> = Vec::new();
    let mut i: usize = 0;
    while i < p.structs.len()
        invariant
            i <= p.structs@.len(),
            p@.structs == struct_definitions_v(p.structs@),
            ss == p@.structs.map_values(|d: StructDefinitionV| d.name),
            text::texts(out@) =~= ss.take(i as int),
        decreases p.structs@.len() - i,
    {
        let n = p.structs[i].name.clone();
        proof {
            assert(p@.structs[i as int] == p.structs@[i as int]@);
            assert(ss.take(i + 1) =~= ss.take(i as int).push(n@));
            assert(text::texts(out@.push(n)) =~= text::texts(out@).push(n@));
        }
        out.push(n);
        i = i + 1;
    }
    let mut k: usize = 0;
    proof {
        assert(ss.take(ss.len() as int) =~= ss);
        assert(text::texts(out@) =~= ss + es.take(0));
    }
    while k < p.enums.len()
        invariant
            k <= p.enums@.len(),
            p@.enums == enum_definitions_v(p.enums@),
            es == p@.enums.map_values(|d: EnumDefinitionV| d.name),
            text::texts(out@) =~= ss + es.take(k as int),
        decreases p.enums@.len() - k,
    {
        let n = p.enums[k].name.clone();
        proof {
            assert(p@.enums[k as int] == p.enums@[k as int]@);
            assert(es.take(k + 1) =~= es.take(k as int).push(n@));
            assert(text::texts(out@.push(n)) =~= text::texts(out@).push(n@));
        }
        out.push(n);
        k = k + 1;
    }
    proof {
        assert(es.take(es.len() as int) =~= es);
    }
    out
}

impl TypeInferencer {
    fn register_modules(&mut self, types: &Vec<String>, registry: &ModuleRegistry, paths: &Vec<ModulePath>) -> (r: Result<(), CompilationError>)
        ensures
            (final(self)@, unit_result(r)) == modules_registered(
                MAX_DEPTH as nat,
                old(self)@,
                text::texts(types@),
                registry@,
                paths_v(paths@),
                0,
            ),
    {
        let ghost e0 = self@;
        let mut i: usize = 0;
        while i < paths.len()
            invariant
                i <= paths@.len(),
                e0 == old(self)@,
                modules_registered(MAX_DEPTH as nat, e0, text::texts(types@), registry@, paths_v(paths@), 0)
                    == modules_registered(
                    MAX_DEPTH as nat,
                    self@,
                    text::texts(types@),
                    registry@,
                    paths_v(paths@),
                    i as int,
                ),
            decreases paths@.len() - i,
        {
            assert(paths_v(paths@)[i as int] == paths@[i as int]@);
            match registry.get(&paths[i]) {
                Some(m) => {
                    self.register_templates(&paths[i], &m.program);
                    match self.register_impls(types, &paths[i], &m.program, MAX_DEPTH) {
                        Err(err) => return Err(err),
                        Ok(_) => {},
                    }
                },
                None => {},
            }
            i = i + 1;
        }
        Ok(())
    }

    fn move_methods(&mut self, p: &mut Program)
        ensures
            (final(self)@, final(p)@) == methods_moved(old(self)@, old(p)@),
    {
        let ghost m0 = self.monomorphs;
        let ghost p0 = *p;
        p.functions.append(&mut self.monomorphs.impl_methods);
        proof {
            assert(functions_v(p.functions@) =~= functions_v(p0.functions@) + functions_v(m0.impl_methods@));
            assert(self@.mono.impl_methods =~= Seq::empty());
        }
    }

    fn settle(&mut self, p: &mut Program) -> (r: Result<(), CompilationError>)
        ensures
            (final(self)@, final(p)@, unit_result(r)) == settled(MAX_DEPTH as nat, old(self)@, old(p)@, 0),
    {
        let ghost e0 = self@;
        let ghost p0 = p@;
        let mut passes: usize = 0;
        loop
            invariant
                passes <= MONOMORPH_PASS_LIMIT,
                e0 == old(self)@,
                p0 == old(p)@,
                settled(MAX_DEPTH as nat, e0, p0, 0) == settled(MAX_DEPTH as nat, self@, p@, passes as nat),
            decreases MONOMORPH_PASS_LIMIT - passes,
        {
            match self.infer_program(p) {
                Err(err) => return Err(err),
                Ok(_) => {},
            }
            let n: usize = match self.generate_monomorphs(p) {
                Err(err) => return Err(err),
                Ok(n) => n,
            };
            if n == 0 {
                return Ok(());
            }
            if passes + 1 > MONOMORPH_PASS_LIMIT {
                return Err(
                    type_error(
                        "Maximum number of compile passes exceeded while monomorphizing generic definitions (".to_owned().concat(
                            text::decimal((passes + 1) as u64).as_str(),
                        ).concat(" passes)"),
                    ),
                );
            }
            passes = passes + 1;
        }
    }

    fn infer_settled(&mut self, p: Program) -> (r: Result<Program, CompilationError>)
        ensures
            (final(self)@, program_result(r)) == inferred(MAX_DEPTH as nat, old(self)@, p@),
    {
        let mut p = p;
        self.move_methods(&mut p);
        match self.settle(&mut p) {
            Err(err) => return Err(err),
            Ok(_) => {},
        }
        match self.validate_monomorphs() {
            Err(err) => Err(err),
            Ok(_) => Ok(p),
        }
    }

    /// Checks the types of the modules of a registry, in the given order: one program with all
    /// types filled in and all generic applications realized.
    pub fn check_modules(&mut self, registry: &ModuleRegistry, sorted_paths: &Vec<ModulePath>) -> (r: Result<
        Program,
        CompilationError,
    >)
        ensures
            (final(self)@, program_result(r)) == checked(
                MAX_DEPTH as nat,
                old(self)@,
                registry@,
                paths_v(sorted_paths@),
            ),
            old(self)@.symbols.vars.len() > 0 ==> grown(
                old(self)@.mono.complete,
                final(self)@.mono.complete,
            ),
    {
        proof {
            if self@.symbols.vars.len() > 0 {
                law_check_keeps_realized_names(MAX_DEPTH as nat, self@, registry@, paths_v(sorted_paths@));
            }
        }
        let p = merge_modules_for_inference(registry, sorted_paths);
        match validate_generics(&p) {
            Err(err) => return Err(err),
            Ok(_) => {},
        }
        match self.register_modules(&names_of_types(&p), registry, sorted_paths) {
            Err(err) => return Err(err),
            Ok(_) => {},
        }
        match self.validate_trait_impls(&p.traits) {
            Err(err) => return Err(err),
            Ok(_) => {},
        }
        self.infer_settled(p)
    }
}

} // verus!
