//! The realization of the generic applications of a program.
use crate::decl::{copy_function, copy_global_decl, enum_definitions_v, functions_v, global_decls_v,
    struct_definitions_v, type_params_v, Function, FunctionV, GlobalDecl, GlobalDeclV, Program, ProgramV,
    TypeParamV};
use crate::engine::{instances_v, name_pairs_v, pending_generics_v, pending_instance_v, template_params, EnvV,
    MonoV, PendingGeneric, PendingGenericV, PendingInstanceV, TypeInferencer};
use crate::error::{CompilationError, ErrorV};
use crate::infer_program::{is_open, MAX_DEPTH};
use crate::monomorph::{all_known, realized, type_error};
use crate::rename::{rename_block, rename_opt_expr, renamed_block, renamed_opt_expr, Renaming, RenamingV};
use crate::store::{bound_in, known_in, StoreV};
use crate::text;
use crate::types::{same_types, types_v, Type, TypeId, TypeV};
use vstd::prelude::*;

verus! {

/// The name of the first type parameter, from position `i` on, whose type is not known.
pub open spec fn unknown_param(s: StoreV, ids: Seq<TypeId>, ps: Seq<TypeParamV>, i: int) -> Seq<char>
    decreases ids.len() - i,
{
    if i < 0 || i >= ids.len() || i >= ps.len() {
        "<unknown>"@
    } else if known_in(s, ids[i]) is None {
        ps[i].name
    } else {
        unknown_param(s, ids, ps, i + 1)
    }
}

/// The name of the first type parameter of a template whose type is not known.
pub open spec fn first_unknown(e: EnvV, base: Seq<char>, ids: Seq<TypeId>) -> Seq<char> {
    if e.mono.templates.contains_key(base) {
        unknown_param(e.store, ids, template_params(e.mono.templates[base].1), 0)
    } else {
        "<unknown>"@
    }
}

/// The types, from position `i` on, that stand for the given application, appended to `acc`.
pub open spec fn standing_for(
    s: StoreV,
    xs: Seq<(TypeId, PendingInstanceV)>,
    base: Seq<char>,
    args: Seq<TypeV>,
    i: int,
    acc: Seq<TypeId>,
) -> Seq<TypeId>
    decreases xs.len() - i,
{
    if i < 0 || i >= xs.len() {
        acc
    } else if xs[i].1.base == base && all_known(s, xs[i].1.params, 0, Seq::empty()) == Some(args) {
        standing_for(s, xs, base, args, i + 1, acc.push(xs[i].0))
    } else {
        standing_for(s, xs, base, args, i + 1, acc)
    }
}

/// The store with the types from position `i` on made known, unless they are already.
pub open spec fn all_bound(s: StoreV, ids: Seq<TypeId>, t: TypeV, i: int) -> StoreV
    decreases ids.len() - i,
{
    if i < 0 || i >= ids.len() {
        s
    } else {
        all_bound(bound_in(s, ids[i], t), ids, t, i + 1)
    }
}

/// A program in which the calls of a generic function are renamed.
pub open spec fn renamed_program(p: ProgramV, c: RenamingV) -> ProgramV {
    ProgramV {
        functions: p.functions.map_values(|f: FunctionV| FunctionV { body: renamed_block(f.body, c), ..f }),
        globals: p.globals.map_values(|g: GlobalDeclV| GlobalDeclV { init: renamed_opt_expr(g.init, c), ..g }),
        ..p
    }
}

/// The program with the calls of a realized function renamed, where there is a call.
pub open spec fn calls_renamed(p: ProgramV, g: PendingGenericV, name: Seq<char>) -> ProgramV {
    match g.call_return {
        None => p,
        Some(id) => renamed_program(
            p,
            RenamingV { base: g.base, ret: id, name },
        ),
    }
}

/// One application realized: the engine and the program after it, and whether the realized form
/// is new. An application with an unknown parameter is noted and left.
pub open spec fn one_realized(fuel: nat, e: EnvV, p: ProgramV, g: PendingGenericV) -> (EnvV, ProgramV, Result<bool, ErrorV>) {
    match all_known(e.store, g.params, 0, Seq::empty()) {
        None => (
            EnvV {
                mono: MonoV {
                    unresolved: e.mono.unresolved.push((g.base, first_unknown(e, g.base, g.params))),
                    ..e.mono
                },
                ..e
            },
            p,
            Ok(false),
        ),
        Some(args) => match realized(fuel, e, g.base, args) {
            (e1, Err(err)) => (e1, p, Err(err)),
            (e1, Ok((name, is_new))) => {
                let ids = standing_for(e1.store, e1.mono.instance_types, g.base, args, 0, Seq::empty());
                let e2 = EnvV { store: all_bound(e1.store, ids, TypeV::Named(name), 0), ..e1 };
                (e2, calls_renamed(p, g, name), Ok(is_new))
            },
        },
    }
}

/// The applications from position `i` on realized, with `n` new forms before them.
pub open spec fn all_realized(fuel: nat, e: EnvV, p: ProgramV, gs: Seq<PendingGenericV>, i: int, n: nat) -> (
    EnvV,
    ProgramV,
    Result<nat, ErrorV>,
)
    decreases gs.len() - i,
{
    if i < 0 || i >= gs.len() {
        (e, p, Ok(n))
    } else {
        match one_realized(fuel, e, p, gs[i]) {
            (e1, p1, Err(err)) => (e1, p1, Err(err)),
            (e1, p1, Ok(is_new)) => all_realized(fuel, e1, p1, gs, i + 1, if is_new { n + 1 } else { n }),
        }
    }
}

/// The realized definitions moved from the engine to the program.
pub open spec fn staged_moved(e: EnvV, p: ProgramV) -> (EnvV, ProgramV) {
    (
        EnvV {
            mono: MonoV {
                staged_structs: Seq::empty(),
                staged_enums: Seq::empty(),
                staged_functions: Seq::empty(),
                staged_impl_methods: Seq::empty(),
                ..e.mono
            },
            ..e
        },
        ProgramV {
            structs: p.structs + e.mono.staged_structs,
            enums: p.enums + e.mono.staged_enums,
            functions: p.functions + e.mono.staged_functions + e.mono.staged_impl_methods,
            ..p
        },
    )
}

/// All pending applications realized, and the realized definitions moved to the program: the
/// engine, the program, and the number of new forms.
pub open spec fn monomorphs_generated(fuel: nat, e: EnvV, p: ProgramV) -> (EnvV, ProgramV, Result<nat, ErrorV>) {
    let e0 = EnvV { mono: MonoV { pending: Seq::empty(), ..e.mono }, ..e };
    match all_realized(fuel, e0, p, e.mono.pending, 0, 0) {
        (e1, p1, Err(err)) => (e1, p1, Err(err)),
        (e1, p1, Ok(n)) => {
            let m = staged_moved(e1, p1);
            (m.0, m.1, Ok(n))
        },
    }
}

/// The error for the first type, from position `i` on, that stands for an application and is
/// not known.
pub open spec fn open_instance(e: EnvV, xs: Seq<(TypeId, PendingInstanceV)>, i: int) -> Option<ErrorV>
    decreases xs.len() - i,
{
    if i < 0 || i >= xs.len() {
        None
    } else if is_open(e.store, xs[i].0) {
        Some(
            ErrorV::TypeError(
                "cannot determine type parameters for '"@ + xs[i].1.base + "': type parameter '"@ + first_unknown(
                    e,
                    xs[i].1.base,
                    xs[i].1.params,
                ) + "' has no concrete value"@,
            ),
        )
    } else {
        open_instance(e, xs, i + 1)
    }
}

/// What is left undetermined after the last pass.
pub open spec fn undetermined(e: EnvV) -> Option<ErrorV> {
    match open_instance(e, e.mono.instance_types, 0) {
        Some(err) => Some(err),
        None => if e.mono.unresolved.len() > 0 {
            Some(
                ErrorV::TypeError(
                    "cannot determine type arguments for '"@ + e.mono.unresolved[0].0 + "': type parameter '"@
                        + e.mono.unresolved[0].1
                        + "' has no concrete value (try an explicit `F[Type, ...]` application or a type annotation)"@,
                ),
            )
        } else {
            None
        },
    }
}

/// A pass with nothing pending realizes nothing: it only moves what is staged.
pub proof fn law_nothing_pending_realizes_nothing(fuel: nat, e: EnvV, p: ProgramV)
    requires
        e.mono.pending.len() == 0,
    ensures
        monomorphs_generated(fuel, e, p).2 == Ok::<nat, ErrorV>(0),
        monomorphs_generated(fuel, e, p).1 == staged_moved(e, p).1,
{
}

fn rename_functions(fs: &Vec<Function>, c: &Renaming) -> (r: Vec<Function>)
    ensures
        functions_v(r@) == functions_v(fs@).map_values(|f: FunctionV| FunctionV { body: renamed_block(f.body, c@), ..f }),
{
    let ghost all = functions_v(fs@).map_values(|f: FunctionV| FunctionV { body: renamed_block(f.body, c@), ..f });
    let mut out: Vec<Function> = Vec::new();
    let mut i: usize = 0;
    while i < fs.len()
        invariant
            i <= fs@.len(),
            all == functions_v(fs@).map_values(|f: FunctionV| FunctionV { body: renamed_block(f.body, c@), ..f }),
            functions_v(out@) =~= all.take(i as int),
        decreases fs@.len() - i,
    {
        let mut f = copy_function(&fs[i]);
        f.body = rename_block(&fs[i].body, c);
        proof {
            assert(functions_v(fs@)[i as int] == fs@[i as int]@);
            assert(all.take(i + 1) =~= all.take(i as int).push(f@));
            assert(functions_v(out@.push(f)) =~= functions_v(out@).push(f@));
        }
        out.push(f);
        i = i + 1;
    }
    proof {
        assert(all.take(all.len() as int) =~= all);
    }
    out
}

fn rename_globals(gs: &Vec<GlobalDecl>, c: &Renaming) -> (r: Vec<GlobalDecl>)
    ensures
        global_decls_v(r@) == global_decls_v(gs@).map_values(
            |g: GlobalDeclV| GlobalDeclV { init: renamed_opt_expr(g.init, c@), ..g },
        ),
{
    let ghost all = global_decls_v(gs@).map_values(
        |g: GlobalDeclV| GlobalDeclV { init: renamed_opt_expr(g.init, c@), ..g },
    );
    let mut out: Vec<GlobalDecl> = Vec::new();
    let mut i: usize = 0;
    while i < gs.len()
        invariant
            i <= gs@.len(),
            all == global_decls_v(gs@).map_values(
                |g: GlobalDeclV| GlobalDeclV { init: renamed_opt_expr(g.init, c@), ..g },
            ),
            global_decls_v(out@) =~= all.take(i as int),
        decreases gs@.len() - i,
    {
        let mut g = copy_global_decl(&gs[i]);
        g.init = rename_opt_expr(&gs[i].init, c);
        proof {
            assert(global_decls_v(gs@)[i as int] == gs@[i as int]@);
            assert(all.take(i + 1) =~= all.take(i as int).push(g@));
            assert(global_decls_v(out@.push(g)) =~= global_decls_v(out@).push(g@));
        }
        out.push(g);
        i = i + 1;
    }
    proof {
        assert(all.take(all.len() as int) =~= all);
    }
    out
}

/// Renames the calls of a generic function in a program.
pub fn rename_generic_calls(p: &mut Program, c: &Renaming)
    ensures
        final(p)@ == renamed_program(old(p)@, c@),
{
    p.functions = rename_functions(&p.functions, c);
    p.globals = rename_globals(&p.globals, c);
}

/// The contents of a truth value, or of an error.
pub open spec fn bool_result(r: Result<bool, CompilationError>) -> Result<bool, ErrorV> {
    match r {
        Ok(b) => Ok(b),
        Err(e) => Err(e@),
    }
}

/// The contents of a count, or of an error.
pub open spec fn count_result(r: Result<usize, CompilationError>) -> Result<nat, ErrorV> {
    match r {
        Ok(n) => Ok(n as nat),
        Err(e) => Err(e@),
    }
}

impl TypeInferencer {
    /// The name of the first type parameter of a template whose type is not known.
    pub fn first_unresolved_param(&self, base: &str, ids: &Vec<TypeId>) -> (r: String)
        ensures
            r@ == first_unknown(self@, base@, ids@),
    {
        match self.monomorphs.templates.get(base) {
            None => "<unknown>".to_owned(),
            Some(t) => {
                let ps = t.1.type_params();
                let ghost pv = template_params(self@.mono.templates[base@].1);
                let mut i: usize = 0;
                while i < ids.len() && i < ps.len()
                    invariant
                        i <= ids@.len(),
                        i <= ps@.len(),
                        pv == type_params_v(ps@),
                        self@.mono.templates.contains_key(base@),
                        pv == template_params(self@.mono.templates[base@].1),
                        unknown_param(self@.store, ids@, pv, 0) == unknown_param(self@.store, ids@, pv, i as int),
                    decreases ids@.len() - i,
                {
                    assert(pv[i as int] == ps@[i as int]@);
                    if self.store.resolve(ids[i]).is_err() {
                        return ps[i].name.clone();
                    }
                    i = i + 1;
                }
                proof {
                    assert(pv.len() == ps@.len());
                }
                "<unknown>".to_owned()
            },
        }
    }

    fn find_standing_for(&self, base: &str, args: &Vec<Type>) -> (r: Vec<TypeId>)
        ensures
            r@ == standing_for(self@.store, self@.mono.instance_types, base@, types_v(args@), 0, Seq::empty()),
    {
        let xs = &self.monomorphs.instance_types;
        let ghost xv = instances_v(xs@);
        let mut out: Vec<TypeId> = Vec::new();
        let mut i: usize = 0;
        while i < xs.len()
            invariant
                i <= xs@.len(),
                xv == instances_v(xs@),
                xv == self@.mono.instance_types,
                standing_for(self@.store, xv, base@, types_v(args@), 0, Seq::empty()) == standing_for(
                    self@.store,
                    xv,
                    base@,
                    types_v(args@),
                    i as int,
                    out@,
                ),
            decreases xs@.len() - i,
        {
            assert(xv[i as int] == (xs@[i as int].0, pending_instance_v(xs@[i as int].1)));
            if text::text_eq(xs[i].1.base.as_str(), base) {
                match self.resolve_all(&xs[i].1.params) {
                    Some(ts) => {
                        if same_types(&ts, args) {
                            out.push(xs[i].0);
                        }
                    },
                    None => {},
                }
            }
            i = i + 1;
        }
        out
    }

    fn bind_all(&mut self, ids: &Vec<TypeId>, name: &String)
        ensures
            final(self)@ == (EnvV {
                store: all_bound(old(self)@.store, ids@, TypeV::Named(name@), 0),
                ..old(self)@
            }),
    {
        let ghost e0 = self@;
        let mut i: usize = 0;
        while i < ids.len()
            invariant
                i <= ids@.len(),
                self@ == (EnvV { store: self@.store, ..e0 }),
                all_bound(e0.store, ids@, TypeV::Named(name@), 0) == all_bound(
                    self@.store,
                    ids@,
                    TypeV::Named(name@),
                    i as int,
                ),
            decreases ids@.len() - i,
        {
            self.store.bind_if_unbound(ids[i], Type::Named(name.clone()));
            i = i + 1;
        }
    }

    fn realize_one(&mut self, p: &mut Program, g: &PendingGeneric, depth: usize) -> (r: Result<bool, CompilationError>)
        ensures
            (final(self)@, final(p)@, bool_result(r)) == one_realized(depth as nat, old(self)@, old(p)@, g@),
    {
        let args = match self.resolve_all(&g.params) {
            Some(v) => v,
            None => {
                let n = self.first_unresolved_param(g.base.as_str(), &g.params);
                let pair = (g.base.clone(), n);
                proof {
                    assert(name_pairs_v(self.monomorphs.unresolved@.push(pair)) =~= name_pairs_v(
                        self.monomorphs.unresolved@,
                    ).push((pair.0@, pair.1@)));
                }
                self.monomorphs.unresolved.push(pair);
                return Ok(false);
            },
        };
        let (name, is_new) = match self.instantiate(g.base.as_str(), &args, depth) {
            Err(err) => return Err(err),
            Ok(x) => x,
        };
        let ids = self.find_standing_for(g.base.as_str(), &args);
        self.bind_all(&ids, &name);
        match g.call_return {
            None => {},
            Some(id) => {
                let c = Renaming {
                    base: g.base.as_str(),
                    ret: id,
                    name: name.as_str(),
                };
                rename_generic_calls(p, &c);
            },
        }
        Ok(is_new)
    }

    fn move_staged(&mut self, p: &mut Program)
        ensures
            (final(self)@, final(p)@) == staged_moved(old(self)@, old(p)@),
    {
        let ghost e0 = self@;
        let ghost m0 = self.monomorphs;
        let ghost p0 = *p;
        p.structs.append(&mut self.monomorphs.staged_structs);
        p.enums.append(&mut self.monomorphs.staged_enums);
        p.functions.append(&mut self.monomorphs.staged_functions);
        p.functions.append(&mut self.monomorphs.staged_impl_methods);
        proof {
            assert(struct_definitions_v(p.structs@) =~= struct_definitions_v(p0.structs@) + struct_definitions_v(
                m0.staged_structs@,
            ));
            assert(enum_definitions_v(p.enums@) =~= enum_definitions_v(p0.enums@) + enum_definitions_v(
                m0.staged_enums@,
            ));
            assert(functions_v(p.functions@) =~= functions_v(p0.functions@) + functions_v(m0.staged_functions@)
                + functions_v(m0.staged_impl_methods@));
            assert(self@.mono.staged_structs =~= Seq::empty());
            assert(self@.mono.staged_enums =~= Seq::empty());
            assert(self@.mono.staged_functions =~= Seq::empty());
            assert(self@.mono.staged_impl_methods =~= Seq::empty());
        }
    }

    /// Realizes all pending applications: the number of new definitions in the program.
    pub fn generate_monomorphs(&mut self, merged: &mut Program) -> (r: Result<usize, CompilationError>)
        ensures
            (final(self)@, final(merged)@, count_result(r)) == monomorphs_generated(
                MAX_DEPTH as nat,
                old(self)@,
                old(merged)@,
            ),
    {
        let ghost e1 = self@;
        let ghost p1 = merged@;
        let mut pending: Vec<PendingGeneric> = Vec::new();
        core::mem::swap(&mut pending, &mut self.monomorphs.pending);
        let ghost e0 = self@;
        proof {
            assert(e0.mono.pending =~= Seq::empty());
            assert(e0 == (EnvV { mono: MonoV { pending: Seq::empty(), ..e1.mono }, ..e1 }));
            assert(pending_generics_v(pending@) == e1.mono.pending);
        }
        let mut n: usize = 0;
        let mut i: usize = 0;
        while i < pending.len()
            invariant
                n <= i <= pending@.len(),
                e1 == old(self)@,
                p1 == old(merged)@,
                e0 == (EnvV { mono: MonoV { pending: Seq::empty(), ..e1.mono }, ..e1 }),
                pending_generics_v(pending@) == e1.mono.pending,
                all_realized(MAX_DEPTH as nat, e0, p1, e1.mono.pending, 0, 0) == all_realized(
                    MAX_DEPTH as nat,
                    self@,
                    merged@,
                    e1.mono.pending,
                    i as int,
                    n as nat,
                ),
            decreases pending@.len() - i,
        {
            assert(pending_generics_v(pending@)[i as int] == pending@[i as int]@);
            match self.realize_one(merged, &pending[i], MAX_DEPTH) {
                Err(err) => return Err(err),
                Ok(is_new) => {
                    if is_new {
                        n = n + 1;
                    }
                },
            }
            i = i + 1;
        }
        self.move_staged(merged);
        Ok(n)
    }

    /// Checks that nothing is left undetermined.
    pub fn validate_monomorphs(&self) -> (r: Result<(), CompilationError>)
        ensures
            match r {
                Ok(_) => undetermined(self@) is None,
                Err(e) => undetermined(self@) == Some(e@),
            },
    {
        let xs = &self.monomorphs.instance_types;
        let ghost xv = instances_v(xs@);
        let mut i: usize = 0;
        while i < xs.len()
            invariant
                i <= xs@.len(),
                xv == instances_v(xs@),
                xv == self@.mono.instance_types,
                open_instance(self@, xv, 0) == open_instance(self@, xv, i as int),
            decreases xs@.len() - i,
        {
            assert(xv[i as int] == (xs@[i as int].0, pending_instance_v(xs@[i as int].1)));
            let rep = self.store.find_rep(xs[i].0);
            if self.store.is_unknown(rep) {
                let n = self.first_unresolved_param(xs[i].1.base.as_str(), &xs[i].1.params);
                return Err(
                    type_error(
                        "cannot determine type parameters for '".to_owned().concat(xs[i].1.base.as_str()).concat(
                            "': type parameter '",
                        ).concat(n.as_str()).concat("' has no concrete value"),
                    ),
                );
            }
            i = i + 1;
        }
        let us = &self.monomorphs.unresolved;
        if us.len() > 0 {
            assert(self@.mono.unresolved[0] == (us@[0].0@, us@[0].1@));
            return Err(
                type_error(
                    "cannot determine type arguments for '".to_owned().concat(us[0].0.as_str()).concat(
                        "': type parameter '",
                    ).concat(us[0].1.as_str()).concat(
                        "' has no concrete value (try an explicit `F[Type, ...]` application or a type annotation)",
                    ),
                ),
            );
        }
        Ok(())
    }
}

} // verus!
