//! The types the checker knows, and the type expressions a program writes,
//! as far as the standard library modules describe their structs with them.
use vstd::prelude::*;

verus! {

/// A checked type.
pub enum Type {
    Int,
    Str,
    List(Box<Type>),
}

/// A type expression as written in a program.
pub enum TypeExpr {
    Named(String),
    List(Box<TypeExpr>),
}

/// `t` is the type expression naming the type `name`.
pub open spec fn is_named(t: TypeExpr, name: Seq<char>) -> bool {
    t matches TypeExpr::Named(n) && n@ == name
}

} // verus!
