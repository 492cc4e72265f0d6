//! Walking syntax trees.

use crate::syntax::{Expr, Stmt};
use vstd::prelude::*;

verus! {

/// Something that visits statements and expressions, and makes a `T` of each.
pub trait Visitor<T> {
    fn visit_stmt(&mut self, s: &Stmt) -> T;

    fn visit_expr(&mut self, e: &Expr) -> T;
}

/// The visitor that shows what it visits as text.
pub struct Printer;

impl Visitor<String> for Printer {
    fn visit_stmt(&mut self, s: &Stmt) -> (text: String)
        ensures
            text@ == s@.render(),
    {
        s.to_string()
    }

    fn visit_expr(&mut self, e: &Expr) -> (text: String)
        ensures
            text@ == e@.render(),
    {
        e.to_string()
    }
}

} // verus!
