//! The kernel-body expression tree handed over by host declaration
//! introspection, and the boundary of the compilable subset: arithmetic
//! and comparison over primitives, array element indexing, field
//! projection on device arguments, and iteration with a compile-time
//! constant bound.  Host calls (which covers recursion), heap
//! allocation, and data-dependent loops lie outside the subset.

use vstd::prelude::*;
use crate::diag::{CompileError, UnsupportedKind};

verus! {

/// A binary operator of the subset.
#[derive(Clone, Copy, Debug, PartialEq, Eq, Structural)]
pub enum BinOp {
    /// Wrapping 32-bit addition.
    Add,
    /// Wrapping 32-bit subtraction.
    Sub,
    /// Wrapping 32-bit multiplication.
    Mul,
    /// Equality; yields 1 or 0.
    Eq,
    /// Unsigned less-than; yields 1 or 0.
    Lt,
}

/// A storage location on a device argument: an array element or a
/// struct field, both addressed on the argument's buffer.
#[derive(Debug)]
pub struct Place {
    /// The ordinal of the device argument (its buffer binding index).
    pub arg: usize,
    pub access: Access,
}

/// How a place addresses its argument's buffer.
#[derive(Debug)]
pub enum Access {
    /// `argument[index]`: the element selected by an index expression.
    Element(Box<Expr>),
    /// `argument.field`: the field at the given ordinal of the
    /// argument's field layout.
    Member(u32),
}

/// A kernel-body expression.
#[derive(Debug)]
pub enum Expr {
    /// A `u32` literal.
    Lit { value: u32 },
    /// The global invocation index of the executing thread.
    ThreadIndex,
    /// A read from a place.
    Read { place: Box<Place> },
    /// A binary operation over two subexpressions.
    Binary { op: BinOp, lhs: Box<Expr>, rhs: Box<Expr> },
    /// A call into host code — outside the subset.
    Call { name: String, location: u32 },
    /// A heap allocation — outside the subset.
    Alloc { location: u32 },
}

/// A kernel-body statement.
#[derive(Debug)]
pub enum Stmt {
    /// Writes the value of an expression into a place.
    Assign { place: Place, value: Expr, location: u32 },
    /// Iterates the body a compile-time constant number of times.
    Repeat { bound: u32, body: Box<Stmt>, location: u32 },
    /// A loop whose bound is data-dependent — outside the subset.
    DynLoop { location: u32 },
}

/// The first `Some` of two findings, in source order.
pub open spec fn first_of(
    a: Option<CompileError>,
    b: Option<CompileError>,
) -> Option<CompileError> {
    if a is Some {
        a
    } else {
        b
    }
}

/// The first construct of `e` outside the subset, in source order;
/// `location` is the enclosing statement's location, used where the
/// offending node carries none of its own.  `n_args` is the number of
/// device arguments the signature declares.
pub open spec fn expr_offence(e: Expr, n_args: int, location: u32) -> Option<CompileError>
    decreases e,
{
    match e {
        Expr::Lit { .. } => None,
        Expr::ThreadIndex => None,
        Expr::Read { place } => place_offence(*place, n_args, location),
        Expr::Binary { op, lhs, rhs } => first_of(
            expr_offence(*lhs, n_args, location),
            expr_offence(*rhs, n_args, location),
        ),
        Expr::Call { name, location } => Some(
            CompileError::UnsupportedExpression { kind: UnsupportedKind::HostCall, location },
        ),
        Expr::Alloc { location } => Some(
            CompileError::UnsupportedExpression {
                kind: UnsupportedKind::HeapAllocation,
                location,
            },
        ),
    }
}

/// The first offence of a place: an out-of-range argument ordinal, or
/// an offence inside an element index expression.
pub open spec fn place_offence(p: Place, n_args: int, location: u32) -> Option<CompileError>
    decreases p,
{
    if p.arg >= n_args {
        Some(
            CompileError::UnsupportedExpression {
                kind: UnsupportedKind::UnknownArgument,
                location,
            },
        )
    } else {
        match p.access {
            Access::Element(idx) => expr_offence(*idx, n_args, location),
            Access::Member(_) => None,
        }
    }
}

/// The first construct of a statement outside the subset, in source
/// order: for an assignment the place is examined before the value.
pub open spec fn stmt_offence(s: Stmt, n_args: int) -> Option<CompileError>
    decreases s,
{
    match s {
        Stmt::Assign { place, value, location } => first_of(
            place_offence(place, n_args, location),
            expr_offence(value, n_args, location),
        ),
        Stmt::Repeat { bound, body, location } => stmt_offence(*body, n_args),
        Stmt::DynLoop { location } => Some(
            CompileError::UnsupportedExpression {
                kind: UnsupportedKind::DynamicLoop,
                location,
            },
        ),
    }
}

/// The first offence of a statement list, in source order.
pub open spec fn stmts_offence(ss: Seq<Stmt>, n_args: int) -> Option<CompileError>
    decreases ss.len(),
{
    if ss.len() == 0 {
        None
    } else {
        first_of(stmts_offence(ss.drop_last(), n_args), stmt_offence(ss.last(), n_args))
    }
}

/// An offence found in a prefix stands for the whole list: later
/// statements never mask it.
pub proof fn lemma_offence_in_prefix(ss: Seq<Stmt>, n_args: int, k: int)
    requires
        0 <= k <= ss.len(),
        stmts_offence(ss.take(k), n_args) is Some,
    ensures
        stmts_offence(ss, n_args) == stmts_offence(ss.take(k), n_args),
    decreases ss.len() - k,
{
    if k == ss.len() {
        assert(ss.take(k) =~= ss);
    } else {
        assert(ss.take(k + 1).drop_last() =~= ss.take(k));
        assert(ss.take(k + 1).last() == ss[k]);
        lemma_offence_in_prefix(ss, n_args, k + 1);
    }
}

} // verus!
