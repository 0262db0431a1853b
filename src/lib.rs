//! Front end of the Rios compiler: turns a labelled parse tree into the
//! abstract syntax tree of a hierarchical, reactive state machine.
//!
//! Every builder is a pure function of the parse-tree node it is given and
//! is proved to return exactly the tree (or the error) that its spec
//! function describes.

pub mod ast;
pub mod expr;
pub mod laws;
pub mod literal;
pub mod reaction;
pub mod stmt;
pub mod structures;
pub mod tree;

pub use ast::{build_ast, build_ast_decs, build_ast_state, Decs};
pub use expr::{
    build_ast_binary_expr, build_ast_call_expr, build_ast_expr, build_ast_operator,
    build_ast_unary_expr,
};
pub use literal::{build_ast_con, char_to_num, parse_chars_in_base};
pub use reaction::build_ast_reaction;
pub use stmt::{build_ast_stmt, build_ast_stmts, build_ast_var};
pub use structures::{PinDirection, PinType, Operator, Time, Type, AST};
pub use tree::{BuildError, Node, Rule};
