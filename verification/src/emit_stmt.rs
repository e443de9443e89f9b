//! C code for statements, functions and globals.
use crate::ast::{lemma_block_v, lemma_expr_v, lemma_stmt_parts, opt_expr_v, stmts_v, Block, Expr, ExprKind,
    ExprKindV, ExprV, Stmt, StmtKind, StmtKindV, StmtV};
use crate::attrs::{mangled_under, names_meta, Attributed};
use crate::c_text::{indent, indented};
use crate::decl::{params_v, Function, FunctionV, GlobalDecl, GlobalDeclV, Param, ParamV};
use crate::emit_expr::{expr_c, CodegenCtx, CtxV};
use crate::engine::EnvV;
use crate::module::ModulePath;
use crate::name_mangling::{mangle_function, mangle_global, mangle_type, mangled};
use crate::store::known_in;
use crate::symbols::get_in;
use crate::text;
use crate::types::{c_name, Type, TypeId, TypeV};
use vstd::prelude::*;

verus! {

/// How often default arguments are filled in inside default arguments: as often as the machine can
/// count.
pub const DEFAULT_DEPTH: usize = usize::MAX;

/// The C code for an expression.
pub open spec fn value_c(c: CtxV, x: ExprV) -> Seq<char> {
    expr_c(DEFAULT_DEPTH as nat, c, x)
}

/// The C name of a type in a module. A struct from a C header keeps its name.
pub open spec fn type_c(e: EnvV, t: TypeV, module: Seq<Seq<char>>) -> Seq<char> {
    match t {
        TypeV::Named(n) => match get_in(e.symbols.structs, n) {
            Some(d) => "struct "@ + (if e.imported.contains(n) {
                n
            } else {
                mangled(mangled_under(d.metadata, module), n)
            }),
            None => match get_in(e.symbols.enums, n) {
                Some(d) => mangled(mangled_under(d.metadata, module), n),
                None => mangled(module, n),
            },
        },
        _ => c_name(t),
    }
}

/// The C name of the type of an index, or a fallback.
pub open spec fn type_or(c: CtxV, id: TypeId, fallback: Seq<char>) -> Seq<char> {
    match known_in(c.env.store, id) {
        Some(t) => type_c(c.env, t, c.module),
        None => fallback,
    }
}

/// Whether a statement has C code: it holds no `match` and no `defer`.
pub open spec fn has_code(s: StmtV) -> bool
    decreases s,
{
    match s.kind {
        StmtKindV::If { then_branch, else_branch, .. } => all_have_code(then_branch.stmts) && (match else_branch {
            Some(b) => all_have_code(b.stmts),
            None => true,
        }),
        StmtKindV::While { body, .. } => all_have_code(body.stmts),
        StmtKindV::For { body, .. } => all_have_code(body.stmts),
        StmtKindV::Block(b) => all_have_code(b.stmts),
        StmtKindV::Match { .. } => false,
        StmtKindV::Defer { .. } => false,
        _ => true,
    }
}

/// Whether all statements have C code.
pub open spec fn all_have_code(ss: Seq<StmtV>) -> bool
    decreases ss,
{
    forall|i: int| 0 <= i < ss.len() ==> has_code(#[trigger] ss[i])
}

/// The C code for a statement. One without C code has none.
pub open spec fn stmt_c(c: CtxV, s: StmtV) -> Seq<char>
    decreases s, 0int,
{
    match s.kind {
        StmtKindV::VarDecl { name, inferred, init, .. } => type_or(c, inferred, "int"@) + " "@ + name + (match init {
            Some(x) => " = "@ + value_c(c, x),
            None => ""@,
        }) + ";\n"@,
        StmtKindV::Expr(x) => value_c(c, x) + ";\n"@,
        StmtKindV::Return(Some(x)) => "return "@ + value_c(c, x) + ";\n"@,
        StmtKindV::Return(None) => "return;\n"@,
        StmtKindV::If { cond, then_branch, else_branch } => "if ("@ + value_c(c, cond) + ") "@ + block_c(
            c,
            then_branch.stmts,
        ) + (match else_branch {
            Some(b) => " else "@ + block_c(c, b.stmts),
            None => ""@,
        }) + "\n"@,
        StmtKindV::While { cond, body } => "while ("@ + value_c(c, cond) + ") "@ + block_c(c, body.stmts) + "\n"@,
        StmtKindV::For { var, iter, body } => for_head(c, var, iter) + block_c(c, body.stmts),
        StmtKindV::Block(b) => block_c(c, b.stmts) + "\n"@,
        StmtKindV::Break => "break;\n"@,
        StmtKindV::Continue => "continue;\n"@,
        _ => Seq::empty(),
    }
}

/// The head of the C loop for a `for` statement: over a range with its end, or from zero up to a
/// number, without it.
pub open spec fn for_head(c: CtxV, var: Seq<char>, iter: ExprV) -> Seq<char> {
    match iter.kind {
        ExprKindV::RangeLiteral { start, end } => "for (int "@ + var + " = "@ + value_c(c, *start) + "; "@ + var
            + " <= "@ + value_c(c, *end) + "; ++"@ + var + ") "@,
        _ => "for (int "@ + var + " = 0; "@ + var + " < "@ + value_c(c, iter) + "; ++"@ + var + ") "@,
    }
}

/// The C code for the statements from position `i` on, each line indented.
pub open spec fn stmts_c(c: CtxV, ss: Seq<StmtV>, i: int) -> Seq<char>
    decreases ss, ss.len() - i,
    when 0 <= i <= ss.len()
{
    if i >= ss.len() {
        Seq::empty()
    } else {
        indented(stmt_c(c, ss[i])) + stmts_c(c, ss, i + 1)
    }
}

/// The C code for a block.
pub open spec fn block_c(c: CtxV, ss: Seq<StmtV>) -> Seq<char>
    decreases ss, ss.len() + 1,
{
    "{\n"@ + stmts_c(c, ss, 0) + "}"@
}

/// The text in front of a declaration that is defined outside Kit.
pub open spec fn extern_c(is_extern: bool) -> Seq<char> {
    if is_extern {
        "extern "@
    } else {
        ""@
    }
}

/// The text in front of a constant.
pub open spec fn const_c(is_const: bool) -> Seq<char> {
    if is_const {
        "const "@
    } else {
        ""@
    }
}

/// The C code for a global.
pub open spec fn global_c(c: CtxV, g: GlobalDeclV) -> Seq<char> {
    extern_c(names_meta(g.metadata, "extern"@)) + const_c(g.is_const) + type_or(c, g.inferred, "int"@) + " "@ + mangled(
        mangled_under(g.metadata, c.module),
        g.name,
    ) + (match g.init {
        Some(x) => " = "@ + value_c(c, x),
        None => ""@,
    }) + ";"@
}

/// The C name of the return type of a function.
pub open spec fn return_c(e: EnvV, f: FunctionV) -> Seq<char> {
    if f.name == "main"@ {
        "int"@
    } else {
        match (match f.inferred_return {
            Some(id) => known_in(e.store, id),
            None => None,
        }) {
            Some(t) => c_name(t),
            None => match f.return_type {
                Some(t) => c_name(t),
                None => "void"@,
            },
        }
    }
}

/// The C name of a function.
pub open spec fn function_name_c(f: FunctionV, module: Seq<Seq<char>>) -> Seq<char> {
    if f.name == "main"@ {
        "main"@
    } else {
        mangled(mangled_under(f.metadata, module), f.name)
    }
}

/// The C code for a parameter.
pub open spec fn param_c(e: EnvV, p: ParamV, module: Seq<Seq<char>>) -> Seq<char> {
    (match known_in(e.store, p.ty) {
        Some(t) => type_c(e, t, module),
        None => match p.annotation {
            Some(t) => c_name(t),
            None => "void*"@,
        },
    }) + " "@ + p.name
}

/// The C code for parameters, one by one.
pub open spec fn params_c(e: EnvV, ps: Seq<ParamV>, module: Seq<Seq<char>>) -> Seq<Seq<char>> {
    ps.map_values(|p: ParamV| param_c(e, p, module))
}

/// The C head of a function.
pub open spec fn signature_c(e: EnvV, f: FunctionV, module: Seq<Seq<char>>) -> Seq<char> {
    return_c(e, f) + " "@ + function_name_c(f, module) + "("@ + text::joined(params_c(e, f.params, module), ", "@) + ")"@
}

/// Whether one of the statements is a `return`.
pub open spec fn has_return(ss: Seq<StmtV>) -> bool {
    exists|i: int| 0 <= i < ss.len() && (#[trigger] ss[i]).kind is Return
}

/// The C body of a function. `main` returns zero where it does not return itself.
pub open spec fn body_c(c: CtxV, f: FunctionV) -> Seq<char> {
    if f.name == "main"@ && !has_return(f.body.stmts) {
        "{\n"@ + stmts_c(c, f.body.stmts, 0) + "return 0;\n}"@
    } else {
        block_c(c, f.body.stmts)
    }
}

/// The C code for a function.
pub open spec fn function_c(c: CtxV, f: FunctionV) -> Seq<char> {
    extern_c(names_meta(f.metadata, "extern"@)) + signature_c(c.env, f, c.module) + " "@ + body_c(c, f)
}

/// The C code of a block starts with an opening brace and ends with the closing one.
pub proof fn law_block_is_braced(c: CtxV, ss: Seq<StmtV>)
    ensures
        block_c(c, ss).len() >= 3,
        block_c(c, ss)[0] == '{',
        block_c(c, ss).last() == '}',
{
    reveal_strlit("{\n");
    reveal_strlit("}");
}

/// A declaration that is defined outside Kit is marked so in C, and any other is not marked by
/// its attributes.
pub proof fn law_extern_is_marked(c: CtxV, f: FunctionV)
    ensures
        names_meta(f.metadata, "extern"@) ==> function_c(c, f).take(7) == "extern "@,
        !names_meta(f.metadata, "extern"@) ==> function_c(c, f) == signature_c(c.env, f, c.module) + " "@ + body_c(c, f),
{
    reveal_strlit("extern ");
    reveal_strlit("");
    if names_meta(f.metadata, "extern"@) {
        assert(function_c(c, f).take(7) =~= "extern "@);
    } else {
        assert(function_c(c, f) =~= signature_c(c.env, f, c.module) + " "@ + body_c(c, f));
    }
}

/// Whether a statement has C code.
pub fn is_emittable(s: &Stmt) -> (r: bool)
    ensures
        r == has_code(s@),
    decreases *s, 0int,
{
    proof {
        lemma_stmt_parts(*s);
    }
    match &s.kind {
        StmtKind::If { cond: _, then_branch, else_branch } => {
            if !are_emittable(&then_branch.stmts) {
                return false;
            }
            match else_branch {
                Some(b) => {
                    proof {
                        lemma_block_v(*b);
                    }
                    are_emittable(&b.stmts)
                },
                None => true,
            }
        },
        StmtKind::While { cond: _, body } => are_emittable(&body.stmts),
        StmtKind::For { var: _, iter: _, body } => are_emittable(&body.stmts),
        StmtKind::Block(b) => are_emittable(&b.stmts),
        StmtKind::Match(_) => false,
        StmtKind::Defer { body: _ } => false,
        _ => true,
    }
}

/// Whether all statements have C code.
pub fn are_emittable(ss: &Vec<Stmt>) -> (r: bool)
    ensures
        r == all_have_code(stmts_v(ss@)),
    decreases *ss, 0int,
{
    let mut i: usize = 0;
    while i < ss.len()
        invariant
            i <= ss@.len(),
            forall|j: int| 0 <= j < i ==> has_code(#[trigger] stmts_v(ss@)[j]),
        decreases ss@.len() - i,
    {
        assert(stmts_v(ss@)[i as int] == ss@[i as int]@);
        if !is_emittable(&ss[i]) {
            return false;
        }
        i = i + 1;
    }
    true
}

fn some_return(ss: &Vec<Stmt>) -> (r: bool)
    ensures
        r == has_return(stmts_v(ss@)),
{
    let mut i: usize = 0;
    while i < ss.len()
        invariant
            i <= ss@.len(),
            forall|j: int| 0 <= j < i ==> !((#[trigger] stmts_v(ss@)[j]).kind is Return),
        decreases ss@.len() - i,
    {
        proof {
            assert(stmts_v(ss@)[i as int] == ss@[i as int]@);
            lemma_stmt_parts(ss@[i as int]);
        }
        match &ss[i].kind {
            StmtKind::Return(_) => return true,
            _ => {},
        }
        i = i + 1;
    }
    false
}

fn extern_prefix(is_extern: bool) -> (r: &'static str)
    ensures
        r@ == extern_c(is_extern),
{
    if is_extern {
        "extern "
    } else {
        ""
    }
}

/// The text in front of a constant.
pub fn const_prefix(is_const: bool) -> (r: &'static str)
    ensures
        r@ == const_c(is_const),
{
    if is_const {
        "const "
    } else {
        ""
    }
}

impl<'a> CodegenCtx<'a> {
    /// The C name of a type in a module.
    pub fn type_to_c_name_with_module(&self, t: &Type, module: &ModulePath) -> (r: String)
        ensures
            r@ == type_c(self@.env, t@, module@),
    {
        match t {
            Type::Named(n) => match self.inferencer.symbols.lookup_struct(n.as_str()) {
                Some(d) => if self.inferencer.is_imported_struct(n.as_str()) {
                    "struct ".to_owned().concat(n.as_str())
                } else {
                    let m = d.mangling_module(module);
                    "struct ".to_owned().concat(mangle_type(&m, n.as_str()).as_str())
                },
                None => match self.inferencer.symbols.lookup_enum(n.as_str()) {
                    Some(d) => mangle_type(&d.mangling_module(module), n.as_str()),
                    None => mangle_type(module, n.as_str()),
                },
            },
            _ => t.to_c_name(),
        }
    }

    /// The C name of a type in the current module.
    pub fn type_to_c_name(&self, t: &Type) -> (r: String)
        ensures
            r@ == type_c(self@.env, t@, self@.module),
    {
        self.type_to_c_name_with_module(t, &self.current_module)
    }

    /// The C name of the type of an index, or a fallback.
    pub fn resolve_type_to_c_name(&self, id: TypeId, fallback: &str) -> (r: String)
        ensures
            r@ == type_or(self@, id, fallback@),
    {
        match self.inferencer.store.resolve(id) {
            Ok(t) => self.type_to_c_name(&t),
            Err(_) => fallback.to_owned(),
        }
    }

    fn value(&self, x: &Expr) -> (r: String)
        ensures
            r@ == value_c(self@, x@),
    {
        self.transpile_expr(x, DEFAULT_DEPTH)
    }

    fn initializer(&self, x: &Option<Expr>) -> (r: String)
        ensures
            r@ == (match opt_expr_v(*x) {
                Some(y) => " = "@ + value_c(self@, y),
                None => ""@,
            }),
    {
        match x {
            Some(y) => " = ".to_owned().concat(self.value(y).as_str()),
            None => "".to_owned(),
        }
    }

    /// The C code for a global.
    pub fn transpile_global(&self, g: &GlobalDecl) -> (r: String)
        ensures
            r@ == global_c(self@, g@),
    {
        let ty = self.resolve_type_to_c_name(g.inferred, "int");
        let m = g.mangling_module(&self.current_module);
        let name = mangle_global(&m, g.name.as_str());
        let init = self.initializer(&g.init);
        extern_prefix(g.is_extern()).to_owned().concat(const_prefix(g.is_const)).concat(ty.as_str()).concat(" ").concat(
            name.as_str(),
        ).concat(init.as_str()).concat(";")
    }

    fn loop_head(&self, var: &str, iter: &Expr) -> (r: String)
        ensures
            r@ == for_head(self@, var@, iter@),
    {
        broadcast use lemma_expr_v;

        match &iter.kind {
            ExprKind::RangeLiteral { start, end } => {
                let a = self.value(start);
                let b = self.value(end);
                "for (int ".to_owned().concat(var).concat(" = ").concat(a.as_str()).concat("; ").concat(var).concat(
                    " <= ",
                ).concat(b.as_str()).concat("; ++").concat(var).concat(") ")
            },
            _ => {
                let n = self.value(iter);
                "for (int ".to_owned().concat(var).concat(" = 0; ").concat(var).concat(" < ").concat(
                    n.as_str(),
                ).concat("; ++").concat(var).concat(") ")
            },
        }
    }

    /// The C code for a statement.
    pub fn transpile_stmt(&self, s: &Stmt) -> (r: String)
        requires
            has_code(s@),
        ensures
            r@ == stmt_c(self@, s@),
        decreases *s, 0int,
    {
        proof {
            lemma_stmt_parts(*s);
        }
        match &s.kind {
            StmtKind::VarDecl { name, annotation: _, inferred, init } => {
                let ty = self.resolve_type_to_c_name(*inferred, "int");
                let i = self.initializer(init);
                ty.concat(" ").concat(name.as_str()).concat(i.as_str()).concat(";\n")
            },
            StmtKind::Expr(x) => self.value(x).concat(";\n"),
            StmtKind::Return(x) => match x {
                Some(y) => "return ".to_owned().concat(self.value(y).as_str()).concat(";\n"),
                None => "return;\n".to_owned(),
            },
            StmtKind::If { cond, then_branch, else_branch } => {
                let c = self.value(cond);
                let a = self.transpile_stmts(&then_branch.stmts);
                let b = match else_branch {
                    Some(e) => {
                        proof {
                            lemma_block_v(*e);
                        }
                        " else ".to_owned().concat(self.transpile_stmts(&e.stmts).as_str())
                    },
                    None => "".to_owned(),
                };
                "if (".to_owned().concat(c.as_str()).concat(") ").concat(a.as_str()).concat(b.as_str()).concat("\n")
            },
            StmtKind::While { cond, body } => {
                let c = self.value(cond);
                let b = self.transpile_stmts(&body.stmts);
                "while (".to_owned().concat(c.as_str()).concat(") ").concat(b.as_str()).concat("\n")
            },
            StmtKind::For { var, iter, body } => {
                let h = self.loop_head(var.as_str(), iter);
                let b = self.transpile_stmts(&body.stmts);
                h.concat(b.as_str())
            },
            StmtKind::Block(b) => self.transpile_stmts(&b.stmts).concat("\n"),
            StmtKind::Break => "break;\n".to_owned(),
            StmtKind::Continue => "continue;\n".to_owned(),
            _ => String::new(),
        }
    }

    fn transpile_lines(&self, ss: &Vec<Stmt>) -> (r: String)
        requires
            all_have_code(stmts_v(ss@)),
        ensures
            r@ == stmts_c(self@, stmts_v(ss@), 0),
        decreases *ss, 0int,
    {
        let ghost sv = stmts_v(ss@);
        let mut out = String::new();
        let mut i: usize = 0;
        proof {
            assert(out@ + stmts_c(self@, sv, 0) =~= stmts_c(self@, sv, 0));
        }
        while i < ss.len()
            invariant
                i <= ss@.len(),
                sv == stmts_v(ss@),
                all_have_code(sv),
                out@ + stmts_c(self@, sv, i as int) == stmts_c(self@, sv, 0),
            decreases ss@.len() - i,
        {
            let ghost before = out@;
            assert(sv[i as int] == ss@[i as int]@);
            let code = self.transpile_stmt(&ss[i]);
            out = out.concat(indent(code.as_str()).as_str());
            proof {
                assert(out@ + stmts_c(self@, sv, i + 1) =~= before + stmts_c(self@, sv, i as int));
            }
            i = i + 1;
        }
        proof {
            assert(out@ + stmts_c(self@, sv, i as int) =~= out@);
        }
        out
    }

    fn transpile_stmts(&self, ss: &Vec<Stmt>) -> (r: String)
        requires
            all_have_code(stmts_v(ss@)),
        ensures
            r@ == block_c(self@, stmts_v(ss@)),
        decreases *ss, 1int,
    {
        let lines = self.transpile_lines(ss);
        "{\n".to_owned().concat(lines.as_str()).concat("}")
    }

    /// The C code for a block.
    pub fn transpile_block(&self, b: &Block) -> (r: String)
        requires
            all_have_code(stmts_v(b.stmts@)),
        ensures
            r@ == block_c(self@, stmts_v(b.stmts@)),
    {
        self.transpile_stmts(&b.stmts)
    }

    /// The C name of the type of a parameter, and its name.
    pub fn format_function_param(&self, p: &Param, module: &ModulePath) -> (r: String)
        ensures
            r@ == param_c(self@.env, p@, module@),
    {
        let ty = match self.inferencer.store.resolve(p.ty) {
            Ok(t) => self.type_to_c_name_with_module(&t, module),
            Err(_) => match &p.annotation {
                Some(t) => t.to_c_name(),
                None => "void*".to_owned(),
            },
        };
        ty.concat(" ").concat(p.name.as_str())
    }

    /// The C code for the parameters of a function.
    pub fn format_function_params_with_module(&self, ps: &Vec<Param>, module: &ModulePath) -> (r: String)
        ensures
            r@ == text::joined(params_c(self@.env, params_v(ps@), module@), ", "@),
    {
        let ghost all = params_c(self@.env, params_v(ps@), module@);
        let mut out: Vec<String> = Vec::new();
        let mut i: usize = 0;
        while i < ps.len()
            invariant
                i <= ps@.len(),
                all == params_c(self@.env, params_v(ps@), module@),
                text::texts(out@) =~= all.take(i as int),
            decreases ps@.len() - i,
        {
            let s = self.format_function_param(&ps[i], module);
            proof {
                assert(params_v(ps@)[i as int] == ps@[i as int]@);
                assert(all.take(i + 1) =~= all.take(i as int).push(s@));
                assert(text::texts(out@.push(s)) =~= text::texts(out@).push(s@));
            }
            out.push(s);
            i = i + 1;
        }
        proof {
            assert(all.take(all.len() as int) =~= all);
        }
        text::join(&out, ", ")
    }

    fn return_name(&self, f: &Function) -> (r: String)
        ensures
            r@ == return_c(self@.env, f@),
    {
        if text::text_eq(f.name.as_str(), "main") {
            return "int".to_owned();
        }
        let known = match f.inferred_return {
            Some(id) => match self.inferencer.store.resolve(id) {
                Ok(t) => Some(t),
                Err(_) => None,
            },
            None => None,
        };
        match known {
            Some(t) => t.to_c_name(),
            None => match &f.return_type {
                Some(t) => t.to_c_name(),
                None => "void".to_owned(),
            },
        }
    }

    /// The C head of a function.
    pub fn function_signature(&self, f: &Function, module: &ModulePath) -> (r: String)
        ensures
            r@ == signature_c(self@.env, f@, module@),
    {
        let ret = self.return_name(f);
        let name = if text::text_eq(f.name.as_str(), "main") {
            "main".to_owned()
        } else {
            let m = f.mangling_module(module);
            mangle_function(&m, f.name.as_str())
        };
        let params = self.format_function_params_with_module(&f.params, module);
        ret.concat(" ").concat(name.as_str()).concat("(").concat(params.as_str()).concat(")")
    }

    /// The C code for a function.
    pub fn transpile_function(&self, f: &Function) -> (r: String)
        requires
            all_have_code(f@.body.stmts),
        ensures
            r@ == function_c(self@, f@),
    {
        proof {
            lemma_block_v(f.body);
        }
        let sig = self.function_signature(f, &self.current_module);
        let body = if text::text_eq(f.name.as_str(), "main") && !some_return(&f.body.stmts) {
            let lines = self.transpile_lines(&f.body.stmts);
            "{\n".to_owned().concat(lines.as_str()).concat("return 0;\n}")
        } else {
            self.transpile_block(&f.body)
        };
        extern_prefix(f.is_extern()).to_owned().concat(sig.as_str()).concat(" ").concat(body.as_str())
    }
}

} // verus!
