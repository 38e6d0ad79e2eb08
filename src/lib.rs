//! The front end of a small BASIC-like language with Hungarian keywords:
//! literal lexing, an expression tree, precedence resolution of operator
//! chains, deserialization from raw syntax nodes and printing back to
//! canonical source text.
pub mod constant;
pub mod deser;
pub mod error;
pub mod expr;
pub mod laws;
pub mod lexer;
pub mod ops;
pub mod resolve;
pub mod serialize;
pub mod stmt;
pub mod types;

pub use constant::Constant;
pub use deser::{RawNode, Rule};
pub use error::DError;
pub use expr::{Binary, Expr, Unary, UnaryExpr, VarName, Wrapper};
pub use lexer::{char_parser, string_parser};
pub use ops::{BinaryCode, UnaryCode, UnaryOpCode};
pub use serialize::{Printable, Serialize};
pub use stmt::{RawExpr, Stmt};
pub use types::{ConstType, FromValueError, VarType, Variable, VariableWithType};
