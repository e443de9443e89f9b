//! Type inference of lists of expressions.
use crate::ast::{copy_expr, exprs_v, init_v, inits_v, Expr, FieldInit};
use crate::decl::{field_list_v, Field};
use crate::engine::TypeInferencer;
use crate::error::CompilationError;
use crate::infer_lookup::{check_as, find_field, list_typed_as, opt_ids_v, set_expr, set_init};
use crate::infer_spec::{all_typed, args_against, args_typed, elements_typed, fields_typed, members_typed,
    subpatterns_typed, variant_args_typed};
use crate::monomorph::{type_error, unit_result};
use crate::types::{copy_type, fields_v, types_v, Type, TypeId};
use vstd::prelude::*;

verus! {

impl TypeInferencer {
    pub(crate) fn infer_args(&mut self, args: Vec<Expr>, expected: &Vec<TypeId>, depth: usize) -> (r: (
        Vec<Expr>,
        Result<(), CompilationError>,
    ))
        ensures
            list_typed_as(
                final(self)@,
                r,
                args_typed(depth as nat, old(self)@, exprs_v(args@), expected@, 0),
            ),
        decreases depth, 2int,
    {
        let ghost e0 = self@;
        let ghost a0 = exprs_v(args@);
        let mut out = args;
        let mut i: usize = 0;
        while i < out.len() && i < expected.len()
            invariant
                i <= out@.len(),
                i <= expected@.len(),
                e0 == old(self)@,
                a0 == exprs_v(args@),
                args_typed(depth as nat, e0, a0, expected@, 0) == args_typed(
                    depth as nat,
                    self@,
                    exprs_v(out@),
                    expected@,
                    i as int,
                ),
            decreases out@.len() - i,
        {
            assert(exprs_v(out@)[i as int] == out@[i as int]@);
            let (a, res) = self.infer_expr(copy_expr(&out[i]), depth);
            match res {
                Err(err) => {
                    set_expr(&mut out, i, a);
                    return (out, Err(err));
                },
                Ok(t) => match self.unify(t, expected[i], depth) {
                    Err(err) => {
                        set_expr(&mut out, i, a);
                        return (out, Err(err));
                    },
                    Ok(_) => {
                        let a = check_as(a, expected[i]);
                        set_expr(&mut out, i, a);
                    },
                },
            }
            i = i + 1;
        }
        (out, Ok(()))
    }

    pub(crate) fn infer_all(&mut self, args: Vec<Expr>, depth: usize) -> (r: (Vec<Expr>, Result<(), CompilationError>))
        ensures
            list_typed_as(final(self)@, r, all_typed(depth as nat, old(self)@, exprs_v(args@), 0)),
        decreases depth, 2int,
    {
        let ghost e0 = self@;
        let ghost a0 = exprs_v(args@);
        let mut out = args;
        let mut i: usize = 0;
        while i < out.len()
            invariant
                i <= out@.len(),
                e0 == old(self)@,
                a0 == exprs_v(args@),
                all_typed(depth as nat, e0, a0, 0) == all_typed(depth as nat, self@, exprs_v(out@), i as int),
            decreases out@.len() - i,
        {
            assert(exprs_v(out@)[i as int] == out@[i as int]@);
            let (a, res) = self.infer_expr(copy_expr(&out[i]), depth);
            set_expr(&mut out, i, a);
            match res {
                Err(err) => {
                    return (out, Err(err));
                },
                Ok(_) => {},
            }
            i = i + 1;
        }
        (out, Ok(()))
    }

    pub(crate) fn infer_args_against(&mut self, args: Vec<Expr>, ts: &Vec<Type>, depth: usize) -> (r: (
        Vec<Expr>,
        Result<(), CompilationError>,
    ))
        ensures
            list_typed_as(
                final(self)@,
                r,
                args_against(depth as nat, old(self)@, exprs_v(args@), types_v(ts@), 0),
            ),
        decreases depth, 2int,
    {
        let ghost e0 = self@;
        let ghost a0 = exprs_v(args@);
        let ghost tv = types_v(ts@);
        let mut out = args;
        let mut i: usize = 0;
        while i < out.len() && i < ts.len()
            invariant
                i <= out@.len(),
                i <= ts@.len(),
                e0 == old(self)@,
                a0 == exprs_v(args@),
                tv == types_v(ts@),
                args_against(depth as nat, e0, a0, tv, 0) == args_against(
                    depth as nat,
                    self@,
                    exprs_v(out@),
                    tv,
                    i as int,
                ),
            decreases out@.len() - i,
        {
            assert(exprs_v(out@)[i as int] == out@[i as int]@);
            assert(tv[i as int] == ts@[i as int]@);
            let (a, res) = self.infer_expr(copy_expr(&out[i]), depth);
            set_expr(&mut out, i, a);
            match res {
                Err(err) => {
                    return (out, Err(err));
                },
                Ok(t) => {
                    let id = self.known(copy_type(&ts[i]));
                    match self.unify(t, id, depth) {
                        Err(err) => {
                            return (out, Err(err));
                        },
                        Ok(_) => {},
                    }
                },
            }
            i = i + 1;
        }
        (out, Ok(()))
    }

    pub(crate) fn infer_elements(&mut self, xs: Vec<Expr>, first: TypeId, depth: usize) -> (r: (
        Vec<Expr>,
        Result<(), CompilationError>,
    ))
        requires
            xs@.len() > 0,
        ensures
            list_typed_as(
                final(self)@,
                r,
                elements_typed(depth as nat, old(self)@, exprs_v(xs@), first, 1),
            ),
            r.0@.len() == xs@.len(),
        decreases depth, 2int,
    {
        let ghost e0 = self@;
        let ghost a0 = exprs_v(xs@);
        let mut out = xs;
        let mut i: usize = 1;
        while i < out.len()
            invariant
                1 <= i <= out@.len(),
                out@.len() == xs@.len(),
                e0 == old(self)@,
                a0 == exprs_v(xs@),
                elements_typed(depth as nat, e0, a0, first, 1) == elements_typed(
                    depth as nat,
                    self@,
                    exprs_v(out@),
                    first,
                    i as int,
                ),
            decreases out@.len() - i,
        {
            assert(exprs_v(out@)[i as int] == out@[i as int]@);
            let (a, res) = self.infer_expr(copy_expr(&out[i]), depth);
            match res {
                Err(err) => {
                    set_expr(&mut out, i, a);
                    return (out, Err(err));
                },
                Ok(t) => match self.unify(first, t, depth) {
                    Err(err) => {
                        set_expr(&mut out, i, a);
                        return (out, Err(err));
                    },
                    Ok(_) => {
                        let a = check_as(a, first);
                        set_expr(&mut out, i, a);
                    },
                },
            }
            i = i + 1;
        }
        (out, Ok(()))
    }

    pub(crate) fn infer_members(&mut self, xs: Vec<Expr>, depth: usize) -> (r: (Vec<Expr>, Result<Vec<TypeId>, CompilationError>))
        ensures
            final(self)@ == members_typed(depth as nat, old(self)@, exprs_v(xs@), 0, Seq::empty()).0,
            exprs_v(r.0@) == members_typed(depth as nat, old(self)@, exprs_v(xs@), 0, Seq::empty()).1,
            crate::monomorph::ids_result(r.1) == members_typed(
                depth as nat,
                old(self)@,
                exprs_v(xs@),
                0,
                Seq::empty(),
            ).2,
        decreases depth, 2int,
    {
        let ghost e0 = self@;
        let ghost a0 = exprs_v(xs@);
        let mut out = xs;
        let mut ids: Vec<TypeId> = Vec::new();
        let mut i: usize = 0;
        while i < out.len()
            invariant
                i <= out@.len(),
                e0 == old(self)@,
                a0 == exprs_v(xs@),
                members_typed(depth as nat, e0, a0, 0, Seq::empty()) == members_typed(
                    depth as nat,
                    self@,
                    exprs_v(out@),
                    i as int,
                    ids@,
                ),
            decreases out@.len() - i,
        {
            assert(exprs_v(out@)[i as int] == out@[i as int]@);
            let (a, res) = self.infer_expr(copy_expr(&out[i]), depth);
            set_expr(&mut out, i, a);
            match res {
                Err(err) => {
                    return (out, Err(err));
                },
                Ok(t) => {
                    ids.push(t);
                },
            }
            i = i + 1;
        }
        (out, Ok(ids))
    }

    pub(crate) fn infer_variant_args(
        &mut self,
        fs: &Vec<Field>,
        args: Vec<Expr>,
        ids: &Vec<(String, TypeId)>,
        is_pattern: bool,
        depth: usize,
    ) -> (r: (Vec<Expr>, Result<(), CompilationError>))
        ensures
            list_typed_as(
                final(self)@,
                r,
                variant_args_typed(
                    depth as nat,
                    old(self)@,
                    field_list_v(fs@),
                    exprs_v(args@),
                    fields_v(ids@),
                    is_pattern,
                    0,
                ),
            ),
        decreases depth, 2int,
    {
        let ghost e0 = self@;
        let ghost a0 = exprs_v(args@);
        let ghost fv = field_list_v(fs@);
        let ghost iv = fields_v(ids@);
        let mut out = args;
        let mut i: usize = 0;
        while i < out.len() && i < fs.len()
            invariant
                i <= out@.len(),
                i <= fs@.len(),
                e0 == old(self)@,
                a0 == exprs_v(args@),
                fv == field_list_v(fs@),
                iv == fields_v(ids@),
                variant_args_typed(depth as nat, e0, fv, a0, iv, is_pattern, 0) == variant_args_typed(
                    depth as nat,
                    self@,
                    fv,
                    exprs_v(out@),
                    iv,
                    is_pattern,
                    i as int,
                ),
            decreases out@.len() - i,
        {
            assert(exprs_v(out@)[i as int] == out@[i as int]@);
            assert(fv[i as int] == fs@[i as int]@);
            let expected = match self.type_id_from_annotation(fs[i].annotation.as_ref(), ids, depth) {
                Ok(id) => id,
                Err(err) => {
                    return (out, Err(err));
                },
            };
            if is_pattern {
                let (a, res) = self.infer_pattern(copy_expr(&out[i]), depth);
                set_expr(&mut out, i, a);
                match res {
                    Err(err) => {
                        return (out, Err(err));
                    },
                    Ok(t) => match self.unify(expected, t, depth) {
                        Err(err) => {
                            return (out, Err(err));
                        },
                        Ok(_) => {},
                    },
                }
            } else {
                let (a, res) = self.infer_expr(copy_expr(&out[i]), depth);
                match res {
                    Err(err) => {
                        set_expr(&mut out, i, a);
                        return (out, Err(err));
                    },
                    Ok(t) => match self.unify(t, expected, depth) {
                        Err(err) => {
                            set_expr(&mut out, i, a);
                            return (out, Err(err));
                        },
                        Ok(_) => {
                            let a = check_as(a, expected);
                            set_expr(&mut out, i, a);
                        },
                    },
                }
            }
            i = i + 1;
        }
        (out, Ok(()))
    }

    pub(crate) fn infer_subpatterns(&mut self, args: Vec<Expr>, expected: &Vec<TypeId>, depth: usize) -> (r: (
        Vec<Expr>,
        Result<(), CompilationError>,
    ))
        ensures
            list_typed_as(
                final(self)@,
                r,
                subpatterns_typed(depth as nat, old(self)@, exprs_v(args@), expected@, 0),
            ),
        decreases depth, 2int,
    {
        let ghost e0 = self@;
        let ghost a0 = exprs_v(args@);
        let mut out = args;
        let mut i: usize = 0;
        while i < out.len() && i < expected.len()
            invariant
                i <= out@.len(),
                i <= expected@.len(),
                e0 == old(self)@,
                a0 == exprs_v(args@),
                subpatterns_typed(depth as nat, e0, a0, expected@, 0) == subpatterns_typed(
                    depth as nat,
                    self@,
                    exprs_v(out@),
                    expected@,
                    i as int,
                ),
            decreases out@.len() - i,
        {
            assert(exprs_v(out@)[i as int] == out@[i as int]@);
            let (a, res) = self.infer_pattern(copy_expr(&out[i]), depth);
            set_expr(&mut out, i, a);
            match res {
                Err(err) => {
                    return (out, Err(err));
                },
                Ok(t) => match self.unify(expected[i], t, depth) {
                    Err(err) => {
                        return (out, Err(err));
                    },
                    Ok(_) => {},
                },
            }
            i = i + 1;
        }
        (out, Ok(()))
    }

    pub(crate) fn infer_fields(&mut self, def: &Vec<Field>, fs: Vec<FieldInit>, ids: Option<&Vec<(String, TypeId)>>, depth: usize) -> (r: (
        Vec<FieldInit>,
        Result<(), CompilationError>,
    ))
        ensures
            final(self)@ == fields_typed(
                depth as nat,
                old(self)@,
                field_list_v(def@),
                inits_v(fs@),
                opt_ids_v(ids),
                0,
            ).0,
            inits_v(r.0@) == fields_typed(
                depth as nat,
                old(self)@,
                field_list_v(def@),
                inits_v(fs@),
                opt_ids_v(ids),
                0,
            ).1,
            unit_result(r.1) == fields_typed(
                depth as nat,
                old(self)@,
                field_list_v(def@),
                inits_v(fs@),
                opt_ids_v(ids),
                0,
            ).2,
        decreases depth, 2int,
    {
        let ghost e0 = self@;
        let ghost f0 = inits_v(fs@);
        let ghost dv = field_list_v(def@);
        let ghost iv = opt_ids_v(ids);
        let mut out = fs;
        let mut i: usize = 0;
        while i < out.len()
            invariant
                i <= out@.len(),
                e0 == old(self)@,
                f0 == inits_v(fs@),
                dv == field_list_v(def@),
                iv == opt_ids_v(ids),
                fields_typed(depth as nat, e0, dv, f0, iv, 0) == fields_typed(
                    depth as nat,
                    self@,
                    dv,
                    inits_v(out@),
                    iv,
                    i as int,
                ),
            decreases out@.len() - i,
        {
            assert(inits_v(out@)[i as int] == init_v(out@[i as int]));
            let d = match find_field(def, out[i].name.as_str()) {
                Some(d) => d,
                None => {
                    let err = type_error(
                        "Struct field '".to_owned().concat(out[i].name.as_str()).concat(
                            "' not found in definition",
                        ),
                    );
                    return (out, Err(err));
                },
            };
            let (v, res) = self.infer_expr(copy_expr(&out[i].value), depth);
            let t = match res {
                Ok(t) => t,
                Err(err) => {
                    set_init(&mut out, i, v);
                    return (out, Err(err));
                },
            };
            let want = match ids {
                Some(ids) => match self.type_id_from_annotation(d.annotation.as_ref(), ids, depth) {
                    Ok(id) => id,
                    Err(err) => {
                        set_init(&mut out, i, v);
                        return (out, Err(err));
                    },
                },
                None => match &d.annotation {
                    Some(ann) => self.known(copy_type(ann)),
                    None => t,
                },
            };
            match self.unify(t, want, depth) {
                Err(err) => {
                    set_init(&mut out, i, v);
                    return (out, Err(err));
                },
                Ok(_) => {
                    let v = check_as(v, want);
                    set_init(&mut out, i, v);
                },
            }
            i = i + 1;
        }
        (out, Ok(()))
    }
}

} // verus!
