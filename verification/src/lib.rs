//! The Kit compiler's core, written and verified in Verus.
pub mod ast;
pub mod attrs;
pub mod bind_spec;
pub mod binding_power;
pub mod building;
pub mod c_compiler;
pub mod c_enum;
pub mod c_parse;
pub mod c_syntax;
pub mod c_text;
pub mod checks;
pub mod compiler;
pub mod compiler_detect;
pub mod ctypes;
pub mod cycles;
pub mod decl;
pub mod declared;
pub mod declared_traits;
pub mod diagnostics;
pub mod digraph;
pub mod emit_decl;
pub mod emit_expr;
pub mod emit_module;
pub mod emit_stmt;
pub mod emitted;
pub mod emitted_modules;
pub mod emitted_types;
pub mod engine;
pub mod error;
pub mod escape;
pub mod expr_pratt;
pub mod ffi;
pub mod forms;
pub mod generics;
pub mod grammar;
pub mod graph;
pub mod hash;
pub mod headers;
pub mod infer_bind;
pub mod infer_call;
pub mod infer_expr;
pub mod infer_list;
pub mod infer_lookup;
pub mod infer_program;
pub mod infer_spec;
pub mod infer_stmt;
pub mod infer_value;
pub mod kept_exprs;
pub mod kept_modules;
pub mod kept_program;
pub mod kept_stmts;
pub mod kept_types;
pub mod lexer;
pub mod literal;
pub mod loading;
pub mod module;
pub mod mono_pass;
pub mod monomorph;
pub mod name_mangling;
pub mod naming;
pub mod paths;
pub mod pipeline;
pub mod preprocess;
pub mod reading;
pub mod reading_exprs;
pub mod realizing;
pub mod registry;
pub mod rename;
pub mod resolving;
pub mod roundtrip;
pub mod shapes;
pub mod spelling;
pub mod stmt_spec;
pub mod store;
pub mod subst;
pub mod symbols;
pub mod syntax;
pub mod table;
pub mod templates;
pub mod text;
pub mod token;
pub mod tree_decls;
pub mod tree_expr;
pub mod tree_stmts;
pub mod tree_types;
pub mod types;
pub mod typing;
pub mod unify;
pub mod values;
