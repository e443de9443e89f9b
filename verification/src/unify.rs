//! Unifying types, with regard to generic applications.
use crate::engine::{pending_instance_v, EnvV, PendingInstance, PendingInstanceV, TypeInferencer};
use crate::error::{CompilationError, ErrorV};
use crate::ffi::with_params;
use crate::monomorph::{too_deep, type_error, unit_result};
use crate::store::{known_in, rep_in, unified};
use crate::types::{c_name, copy_type, types_v, Type, TypeId, TypeV};
use vstd::prelude::*;

verus! {

/// The pending application that a type index stands for, from position `i` on.
pub open spec fn instance_at(xs: Seq<(TypeId, PendingInstanceV)>, id: TypeId, i: int) -> Option<PendingInstanceV>
    decreases xs.len() - i,
{
    if i < 0 || i >= xs.len() {
        None
    } else if xs[i].0 == id {
        Some(xs[i].1)
    } else {
        instance_at(xs, id, i + 1)
    }
}

/// Unifies two type indices in the table of types.
pub open spec fn store_unified(e: EnvV, a: TypeId, b: TypeId) -> (EnvV, Result<(), ErrorV>) {
    match unified(e.store, a, b) {
        Ok(s) => (EnvV { store: s, ..e }, Ok(())),
        Err(err) => (e, Err(err)),
    }
}

/// Unifies two lists of type indices pairwise, from position `i` on, up to the first failure.
pub open spec fn lists_unified(fuel: nat, e: EnvV, xs: Seq<TypeId>, ys: Seq<TypeId>, i: int) -> (EnvV, Result<(), ErrorV>)
    decreases fuel, 2int, xs.len() - i,
{
    if i < 0 || i >= xs.len() || i >= ys.len() {
        (e, Ok(()))
    } else {
        match both_unified(fuel, e, xs[i], ys[i]) {
            (e1, Ok(_)) => lists_unified(fuel, e1, xs, ys, i + 1),
            (e1, Err(err)) => (e1, Err(err)),
        }
    }
}

/// Unifies two type indices. Two applications of one template unify their parameters; an
/// application and its realized form unify the parameters with the arguments; an application and
/// any other known type do not unify.
pub open spec fn both_unified(fuel: nat, e: EnvV, a: TypeId, b: TypeId) -> (EnvV, Result<(), ErrorV>)
    decreases fuel, 1int, 0int,
{
    let ra = rep_in(e.store, a);
    let rb = rep_in(e.store, b);
    if ra == rb {
        (e, Ok(()))
    } else {
        let ia = instance_at(e.mono.instance_types, TypeId(ra as usize), 0);
        let ib = instance_at(e.mono.instance_types, TypeId(rb as usize), 0);
        match (ia, ib) {
            (Some(x), Some(y)) => if x.base != y.base {
                (
                    e,
                    Err(
                        ErrorV::TypeError(
                            "Type mismatch: instance of '"@ + x.base + "' vs instance of '"@ + y.base + "'"@,
                        ),
                    ),
                )
            } else if x.params.len() != y.params.len() {
                (e, Err(ErrorV::TypeError("Type mismatch: incompatible applications of '"@ + x.base + "'"@)))
            } else if fuel == 0 {
                (e, Err(too_deep()))
            } else {
                match lists_unified((fuel - 1) as nat, e, x.params, y.params, 0) {
                    (e1, Ok(_)) => store_unified(e1, a, b),
                    (e1, Err(err)) => (e1, Err(err)),
                }
            },
            (Some(x), None) => application_unified(fuel, e, x, TypeId(rb as usize), a, b),
            (None, Some(y)) => application_unified(fuel, e, y, TypeId(ra as usize), b, a),
            (None, None) => store_unified(e, a, b),
        }
    }
}

/// The error for an application that meets another type.
pub open spec fn not_the_application(base: Seq<char>, other: Seq<char>) -> ErrorV {
    ErrorV::TypeError("Type mismatch: instance of '"@ + base + "' vs "@ + other)
}

/// Unifies a pending application with another type.
pub open spec fn application_unified(
    fuel: nat,
    e: EnvV,
    inst: PendingInstanceV,
    known_rep: TypeId,
    inst_id: TypeId,
    known_id: TypeId,
) -> (EnvV, Result<(), ErrorV>)
    decreases fuel, 0int, 0int,
{
    match known_in(e.store, known_rep) {
        Some(TypeV::Named(name)) => {
            let m = e.mono.mono_instances;
            if m.contains_key(name) && m[name].0 == inst.base && m[name].1.len() == inst.params.len() {
                let (e1, ids) = with_params(e, m[name].1, 0, Seq::empty());
                if fuel == 0 {
                    (e1, Err(too_deep()))
                } else {
                    match lists_unified((fuel - 1) as nat, e1, inst.params, ids, 0) {
                        (e2, Ok(_)) => store_unified(e2, inst_id, known_id),
                        (e2, Err(err)) => (e2, Err(err)),
                    }
                }
            } else {
                (e, Err(not_the_application(inst.base, name)))
            }
        },
        Some(other) => (e, Err(not_the_application(inst.base, c_name(other)))),
        None => store_unified(e, inst_id, known_id),
    }
}

impl TypeInferencer {
    /// The pending application that a type index stands for.
    pub fn find_instance(&self, id: TypeId) -> (r: Option<PendingInstance>)
        ensures
            match r {
                Some(x) => instance_at(self@.mono.instance_types, id, 0) == Some(x@),
                None => instance_at(self@.mono.instance_types, id, 0) is None,
            },
    {
        let mut i: usize = 0;
        while i < self.monomorphs.instance_types.len()
            invariant
                i <= self.monomorphs.instance_types@.len(),
                instance_at(self@.mono.instance_types, id, 0) == instance_at(
                    self@.mono.instance_types,
                    id,
                    i as int,
                ),
            decreases self.monomorphs.instance_types@.len() - i,
        {
            let x = &self.monomorphs.instance_types[i];
            assert(self@.mono.instance_types[i as int] == (x.0, pending_instance_v(x.1)));
            if x.0.0 == id.0 {
                return Some(x.1.clone());
            }
            i = i + 1;
        }
        None
    }

    fn unify_stored(&mut self, a: TypeId, b: TypeId) -> (r: Result<(), CompilationError>)
        ensures
            (final(self)@, unit_result(r)) == store_unified(old(self)@, a, b),
    {
        self.store.unify(a, b)
    }

    fn unify_lists(&mut self, xs: &Vec<TypeId>, ys: &Vec<TypeId>, depth: usize) -> (r: Result<(), CompilationError>)
        ensures
            (final(self)@, unit_result(r)) == lists_unified(depth as nat, old(self)@, xs@, ys@, 0),
        decreases depth, 2int, 0int,
    {
        let ghost e0 = self@;
        let mut i: usize = 0;
        while i < xs.len() && i < ys.len()
            invariant
                i <= xs@.len(),
                i <= ys@.len(),
                e0 == old(self)@,
                lists_unified(depth as nat, e0, xs@, ys@, 0) == lists_unified(
                    depth as nat,
                    self@,
                    xs@,
                    ys@,
                    i as int,
                ),
            decreases xs@.len() - i,
        {
            match self.unify(xs[i], ys[i], depth) {
                Ok(_) => {},
                Err(err) => return Err(err),
            }
            i = i + 1;
        }
        Ok(())
    }

    /// Unifies two type indices.
    pub fn unify(&mut self, a: TypeId, b: TypeId, depth: usize) -> (r: Result<(), CompilationError>)
        ensures
            (final(self)@, unit_result(r)) == both_unified(depth as nat, old(self)@, a, b),
        decreases depth, 1int, 0int,
    {
        let ra = self.store.find_rep(a);
        let rb = self.store.find_rep(b);
        if ra.0 == rb.0 {
            return Ok(());
        }
        let ia = self.find_instance(ra);
        let ib = self.find_instance(rb);
        match (ia, ib) {
            (Some(x), Some(y)) => {
                if !(x.base == y.base) {
                    return Err(
                        type_error(
                            "Type mismatch: instance of '".to_owned().concat(x.base.as_str()).concat(
                                "' vs instance of '",
                            ).concat(y.base.as_str()).concat("'"),
                        ),
                    );
                }
                if x.params.len() != y.params.len() {
                    return Err(
                        type_error(
                            "Type mismatch: incompatible applications of '".to_owned().concat(x.base.as_str()).concat(
                                "'",
                            ),
                        ),
                    );
                }
                if depth == 0 {
                    return Err(type_error("definitions are nested too deeply".to_owned()));
                }
                match self.unify_lists(&x.params, &y.params, depth - 1) {
                    Ok(_) => self.unify_stored(a, b),
                    Err(err) => Err(err),
                }
            },
            (Some(x), None) => self.unify_instance_with_known(x, rb, a, b, depth),
            (None, Some(y)) => self.unify_instance_with_known(y, ra, b, a, depth),
            (None, None) => self.unify_stored(a, b),
        }
    }

    /// Adds known types.
    pub fn known_all(&mut self, ts: &Vec<Type>) -> (r: Vec<TypeId>)
        ensures
            (final(self)@, r@) == with_params(old(self)@, types_v(ts@), 0, Seq::empty()),
    {
        let ghost e0 = self@;
        let mut ids: Vec<TypeId> = Vec::new();
        let mut i: usize = 0;
        while i < ts.len()
            invariant
                i <= ts@.len(),
                e0 == old(self)@,
                with_params(e0, types_v(ts@), 0, Seq::empty()) == with_params(
                    self@,
                    types_v(ts@),
                    i as int,
                    ids@,
                ),
            decreases ts@.len() - i,
        {
            assert(types_v(ts@)[i as int] == ts@[i as int]@);
            let id = self.known(copy_type(&ts[i]));
            ids.push(id);
            i = i + 1;
        }
        ids
    }

    fn unify_instance_with_known(
        &mut self,
        inst: PendingInstance,
        known_rep: TypeId,
        inst_id: TypeId,
        known_id: TypeId,
        depth: usize,
    ) -> (r: Result<(), CompilationError>)
        ensures
            (final(self)@, unit_result(r)) == application_unified(
                depth as nat,
                old(self)@,
                inst@,
                known_rep,
                inst_id,
                known_id,
            ),
        decreases depth, 0int, 0int,
    {
        match self.store.resolve(known_rep) {
            Ok(Type::Named(name)) => {
                let args = match self.monomorphs.mono_instances.get(name.as_str()) {
                    Some(x) => if x.0 == inst.base && x.1.len() == inst.params.len() {
                        Some(crate::types::copy_types(&x.1))
                    } else {
                        proof {
                            assert(types_v(x.1@).len() == x.1@.len());
                        }
                        None
                    },
                    None => None,
                };
                match args {
                    Some(args) => {
                        proof {
                            assert(types_v(args@).len() == args@.len());
                        }
                        let ids = self.known_all(&args);
                        if depth == 0 {
                            return Err(type_error("definitions are nested too deeply".to_owned()));
                        }
                        match self.unify_lists(&inst.params, &ids, depth - 1) {
                            Ok(_) => self.unify_stored(inst_id, known_id),
                            Err(err) => Err(err),
                        }
                    },
                    None => Err(
                        type_error(
                            "Type mismatch: instance of '".to_owned().concat(inst.base.as_str()).concat("' vs ").concat(
                                name.as_str(),
                            ),
                        ),
                    ),
                }
            },
            Ok(other) => Err(
                type_error(
                    "Type mismatch: instance of '".to_owned().concat(inst.base.as_str()).concat("' vs ").concat(
                        other.to_c_name().as_str(),
                    ),
                ),
            ),
            Err(_) => self.unify_stored(inst_id, known_id),
        }
    }
}

} // verus!
