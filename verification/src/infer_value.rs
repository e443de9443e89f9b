//! Type inference of struct, enum, array and tuple values.
use crate::ast::{copy_expr, exprs_v, inits_v, lemma_expr_parts, Expr, ExprKind, ExprKindV, FieldInit,
    Literal, Span};
use crate::decl::{copy_struct_definition, field_list_v, Field};
use crate::engine::TypeInferencer;
use crate::error::CompilationError;
use crate::infer_lookup::{call_typed_as, complete_fields, enum_variant_error, finish, inits_typed_as,
    none_ids, none_types, opt_ids_v, or_id, resolve_default_args, set_expr, typed_as, variant_args_error};
use crate::infer_spec::{array_typed, enum_init_typed, finished, generic_struct_init_typed, index_typed,
    plain_struct_init_typed, struct_fields_typed, struct_init_typed, tuple_typed, unresolved};
use crate::monomorph::{param_id_map, type_error, unit_result};
use crate::text;
use crate::types::{copy_type, copy_types, lemma_type_v, opt_type_v, types_v, Type, TypeId};
use vstd::prelude::*;

verus! {

impl TypeInferencer {
    pub(crate) fn validate_and_infer_struct_fields(
        &mut self,
        def: &Vec<Field>,
        fs: Vec<FieldInit>,
        ids: Option<&Vec<(String, TypeId)>>,
        name: &str,
        depth: usize,
    ) -> (r: (Vec<FieldInit>, Result<(), CompilationError>))
        ensures
            final(self)@ == struct_fields_typed(
                depth as nat,
                old(self)@,
                field_list_v(def@),
                inits_v(fs@),
                opt_ids_v(ids),
                name@,
            ).0,
            inits_v(r.0@) == struct_fields_typed(
                depth as nat,
                old(self)@,
                field_list_v(def@),
                inits_v(fs@),
                opt_ids_v(ids),
                name@,
            ).1,
            unit_result(r.1) == struct_fields_typed(
                depth as nat,
                old(self)@,
                field_list_v(def@),
                inits_v(fs@),
                opt_ids_v(ids),
                name@,
            ).2,
        decreases depth, 3int,
    {
        match complete_fields(def, &fs, name) {
            Err(err) => (fs, Err(err)),
            Ok(full) => self.infer_fields(def, full, ids, depth),
        }
    }

    #[verifier::rlimit(40)]
    pub(crate) fn infer_struct_init(&mut self, st: &Option<Type>, fs: Vec<FieldInit>, depth: usize) -> (r: (
        Vec<FieldInit>,
        Result<TypeId, CompilationError>,
    ))
        ensures
            inits_typed_as(
                final(self)@,
                r,
                struct_init_typed(depth as nat, old(self)@, opt_type_v(*st), inits_v(fs@)),
            ),
        decreases depth, 5int,
    {
        let t = match st {
            Some(t) => t,
            None => {
                return (fs, Err(type_error("StructInit missing type annotation".to_owned())));
            },
        };
        proof {
            lemma_type_v(*t);
        }
        let base = match t {
            Type::Named(n) => Some(n.clone()),
            Type::Instance { base, args: _ } => Some(base.clone()),
            _ => None,
        };
        match base {
            Some(b) => {
                if self.is_template_struct(b.as_str()) {
                    let supplied = match t {
                        Type::Instance { base: _, args } => copy_types(args),
                        _ => none_types(),
                    };
                    return self.infer_generic_struct_init(b.as_str(), &supplied, fs, depth);
                }
            },
            None => {},
        }
        let id = self.known(copy_type(t));
        let name = match t {
            Type::Named(n) => n.clone(),
            Type::Struct { name, fields: _ } => name.clone(),
            _ => {
                return (fs, Err(type_error("StructInit requires a struct type".to_owned())));
            },
        };
        self.infer_plain_struct_init(name.as_str(), id, fs, depth)
    }

    pub(crate) fn infer_plain_struct_init(&mut self, name: &str, id: TypeId, fs: Vec<FieldInit>, depth: usize) -> (r: (
        Vec<FieldInit>,
        Result<TypeId, CompilationError>,
    ))
        ensures
            inits_typed_as(
                final(self)@,
                r,
                plain_struct_init_typed(depth as nat, old(self)@, name@, id, inits_v(fs@)),
            ),
        decreases depth, 4int,
    {
        let d = match self.symbols.lookup_struct(name) {
            Some(d) => copy_struct_definition(d),
            None => {
                return (fs, Err(type_error("Unknown struct type '".to_owned().concat(name).concat("'"))));
            },
        };
        let (fs, res) = self.validate_and_infer_struct_fields(&d.fields, fs, None, d.name.as_str(), depth);
        (fs, or_id(res, id))
    }

    pub(crate) fn infer_generic_struct_init(&mut self, base: &str, supplied: &Vec<Type>, fs: Vec<FieldInit>, depth: usize) -> (r: (
        Vec<FieldInit>,
        Result<TypeId, CompilationError>,
    ))
        ensures
            inits_typed_as(
                final(self)@,
                r,
                generic_struct_init_typed(depth as nat, old(self)@, base@, types_v(supplied@), inits_v(fs@)),
            ),
        decreases depth, 4int,
    {
        let (params, id) = match self.instance_params_and_type(base, supplied, &none_ids(), depth) {
            Ok(p) => p,
            Err(err) => {
                return (fs, Err(err));
            },
        };
        let d = match self.template_struct(base) {
            Ok(d) => d,
            Err(err) => {
                return (fs, Err(err));
            },
        };
        let ids = param_id_map(&d.type_params, &params);
        let (fs, res) = self.validate_and_infer_struct_fields(&d.fields, fs, Some(&ids), d.name.as_str(), depth);
        (fs, or_id(res, id))
    }

    pub(crate) fn infer_enum_init(&mut self, enum_name: &str, variant_name: &str, args: Vec<Expr>, depth: usize) -> (r: (
        Vec<Expr>,
        Result<TypeId, CompilationError>,
    ))
        ensures
            call_typed_as(
                final(self)@,
                r,
                enum_init_typed(depth as nat, old(self)@, enum_name@, variant_name@, exprs_v(args@)),
            ),
        decreases depth, 4int,
    {
        if self.is_template_enum(enum_name) {
            let (full, res) = self.infer_generic_enum_ctor(enum_name, variant_name, &args, depth);
            return match full {
                Some(v) => (v, res),
                None => (args, res),
            };
        }
        let info = match self.symbols.lookup_variant(enum_name, variant_name) {
            Some(i) => i.clone(),
            None => {
                return (args, Err(enum_variant_error(enum_name, variant_name)));
            },
        };
        let full = match self.symbols.lookup_enum(enum_name) {
            Some(d) => match resolve_default_args(&info, d, &args) {
                Ok(v) => v,
                Err(err) => {
                    return (args, Err(err));
                },
            },
            None => {
                return (args, Err(type_error("Unknown enum '".to_owned().concat(enum_name).concat("'"))));
            },
        };
        proof {
            assert(exprs_v(full@).len() == full@.len());
        }
        if full.len() != info.arg_types.len() {
            let name = enum_name.to_owned().concat(".").concat(variant_name);
            let n: usize = full.len();
            return (full, Err(variant_args_error(name.as_str(), info.arg_types.len(), n)));
        }
        let (full, res) = self.infer_args(full, &info.arg_types, depth);
        match res {
            Ok(_) => {
                let id = self.known(Type::Named(enum_name.to_owned()));
                (full, Ok(id))
            },
            Err(err) => (full, Err(err)),
        }
    }

    #[verifier::rlimit(40)]
    pub(crate) fn infer_array_literal(&mut self, xs: Vec<Expr>, depth: usize) -> (r: (Vec<Expr>, Result<TypeId, CompilationError>))
        ensures
            call_typed_as(final(self)@, r, array_typed(depth as nat, old(self)@, exprs_v(xs@))),
        decreases depth, 3int,
    {
        proof {
            assert(exprs_v(xs@).len() == xs@.len());
        }
        if xs.len() == 0 {
            return (
                xs,
                Err(
                    type_error(
                        "Empty array literal '[]' is not supported; add at least one element or a type annotation".to_owned(),
                    ),
                ),
            );
        }
        let mut out = xs;
        assert(exprs_v(out@)[0] == out@[0]@);
        let (a, res) = self.infer_expr(copy_expr(&out[0]), depth);
        set_expr(&mut out, 0, a);
        let first = match res {
            Ok(t) => t,
            Err(err) => {
                return (out, Err(err));
            },
        };
        let (out, res) = self.infer_elements(out, first, depth);
        match res {
            Ok(_) => {},
            Err(err) => {
                return (out, Err(err));
            },
        }
        match self.store.resolve(first) {
            Ok(t) => {
                proof {
                    assert(exprs_v(out@).len() == out@.len());
                }
                let id = self.known(Type::CArray(Box::new(t), out.len()));
                (out, Ok(id))
            },
            Err(_) => (
                out,
                Err(type_error("Failed to resolve array element type: unresolved type".to_owned())),
            ),
        }
    }

    pub(crate) fn infer_tuple_lit(&mut self, xs: Vec<Expr>, depth: usize) -> (r: (Vec<Expr>, Result<TypeId, CompilationError>))
        ensures
            call_typed_as(final(self)@, r, tuple_typed(depth as nat, old(self)@, exprs_v(xs@))),
        decreases depth, 3int,
    {
        proof {
            assert(exprs_v(xs@).len() == xs@.len());
        }
        if xs.len() == 0 {
            return (
                xs,
                Err(
                    type_error(
                        "Empty tuple literal '()' is not supported; use at least two elements".to_owned(),
                    ),
                ),
            );
        }
        let (out, res) = self.infer_members(xs, depth);
        let ids = match res {
            Ok(v) => v,
            Err(err) => {
                return (out, Err(err));
            },
        };
        let (out, res) = self.resolve_members(out, &ids);
        match res {
            Err(err) => (out, Err(err)),
            Ok(ts) => {
                self.record_tuple(&ts);
                let t = Type::Tuple(ts);
                proof {
                    lemma_type_v(t);
                }
                let id = self.known(t);
                (out, Ok(id))
            },
        }
    }

    #[verifier::rlimit(40)]
    pub(crate) fn infer_index(&mut self, container: TypeId, index: Expr, depth: usize) -> (r: (Expr, Result<TypeId, CompilationError>))
        ensures
            typed_as(final(self)@, r, index_typed(depth as nat, old(self)@, container, index@)),
        decreases depth, 3int,
    {
        let t = match self.store.resolve(container) {
            Ok(t) => t,
            Err(err) => {
                return (index, Err(err));
            },
        };
        proof {
            lemma_type_v(t);
            lemma_expr_parts(index);
        }
        match &t {
            Type::Tuple(elems) => {
                let i: i64 = match &index.kind {
                    ExprKind::Literal { value: Literal::Int(i) } => *i,
                    _ => {
                        return (
                            index,
                            Err(
                                type_error(
                                    "Tuple elements can only be accessed with integer literal indices".to_owned(),
                                ),
                            ),
                        );
                    },
                };
                proof {
                    assert(types_v(elems@).len() == elems@.len());
                }
                if i < 0 || i as u64 >= elems.len() as u64 {
                    let err = type_error(
                        "Tuple index ".to_owned().concat(text::signed_decimal(i).as_str()).concat(
                            " out of range (tuple has ",
                        ).concat(text::decimal(elems.len() as u64).as_str()).concat(" elements)"),
                    );
                    return (index, Err(err));
                }
                let id = self.known(copy_type(&elems[i as usize]));
                return (index, Ok(id));
            },
            _ => {},
        }
        let (index, res) = self.infer_expr(index, depth);
        let it = match res {
            Ok(t) => t,
            Err(err) => {
                return (index, Err(err));
            },
        };
        let int_id = self.known(Type::Int);
        match self.unify(it, int_id, depth) {
            Ok(_) => {},
            Err(err) => {
                return (index, Err(err));
            },
        }
        match &t {
            Type::CArray(x, _) => {
                let id = self.known(copy_type(x));
                (index, Ok(id))
            },
            Type::Ptr(x) => {
                let id = self.known(copy_type(x));
                (index, Ok(id))
            },
            _ => (
                index,
                Err(type_error("Cannot index non-array type: ".to_owned().concat(t.to_c_name().as_str()))),
            ),
        }
    }

    pub(crate) fn infer_struct_value(&mut self, struct_type: Option<Type>, fields: Vec<FieldInit>, ty: TypeId, span: Span, depth: usize) -> (r: (
        Expr,
        Result<TypeId, CompilationError>,
    ))
        ensures
            typed_as(final(self)@, r, {
                let m = struct_init_typed(depth as nat, old(self)@, opt_type_v(struct_type), inits_v(fields@));
                finished(
                    m.0,
                    ExprKindV::StructInit { struct_type: opt_type_v(struct_type), fields: m.1 },
                    ty,
                    span,
                    m.2,
                )
            }),
        decreases depth, 6int,
    {
        let (fields, res) = self.infer_struct_init(&struct_type, fields, depth);
        finish(ExprKind::StructInit { struct_type, fields }, ty, span, res)
    }

    pub(crate) fn infer_enum_value(&mut self, enum_name: String, variant_name: String, args: Vec<Expr>, ty: TypeId, span: Span, depth: usize) -> (r: (
        Expr,
        Result<TypeId, CompilationError>,
    ))
        ensures
            typed_as(final(self)@, r, {
                let m = enum_init_typed(depth as nat, old(self)@, enum_name@, variant_name@, exprs_v(args@));
                finished(
                    m.0,
                    ExprKindV::EnumInit { enum_name: enum_name@, variant_name: variant_name@, args: m.1 },
                    ty,
                    span,
                    m.2,
                )
            }),
        decreases depth, 6int,
    {
        let (args, res) = self.infer_enum_init(enum_name.as_str(), variant_name.as_str(), args, depth);
        finish(ExprKind::EnumInit { enum_name, variant_name, args }, ty, span, res)
    }

    pub(crate) fn infer_array_value(&mut self, elements: Vec<Expr>, ty: TypeId, span: Span, depth: usize) -> (r: (
        Expr,
        Result<TypeId, CompilationError>,
    ))
        ensures
            typed_as(final(self)@, r, {
                let m = array_typed(depth as nat, old(self)@, exprs_v(elements@));
                finished(m.0, ExprKindV::ArrayLiteral { elements: m.1 }, ty, span, m.2)
            }),
        decreases depth, 6int,
    {
        let (elements, res) = self.infer_array_literal(elements, depth);
        finish(ExprKind::ArrayLiteral { elements }, ty, span, res)
    }

    pub(crate) fn infer_tuple_value(&mut self, elements: Vec<Expr>, ty: TypeId, span: Span, depth: usize) -> (r: (
        Expr,
        Result<TypeId, CompilationError>,
    ))
        ensures
            typed_as(final(self)@, r, {
                let m = tuple_typed(depth as nat, old(self)@, exprs_v(elements@));
                finished(m.0, ExprKindV::TupleLit { elements: m.1 }, ty, span, m.2)
            }),
        decreases depth, 6int,
    {
        let (elements, res) = self.infer_tuple_lit(elements, depth);
        finish(ExprKind::TupleLit { elements }, ty, span, res)
    }
}

} // verus!
