//! Compiler correctness: the source-level evaluation of a kernel body
//! and the machine-level run of its compiled instructions agree.  For
//! any body free of offences, executing the emitted code in one
//! invocation computes exactly what the expression tree says,
//! including every fault (an out-of-range access faults both sides).

use vstd::prelude::*;
use crate::ast::{Access, Expr, Place, Stmt};
use crate::bytecode::BodyInstr;
use crate::compile::{expr_code, place_read_code, repeat_code, stmt_code, stmts_code};
use crate::machine::{binop_eval, MachineState, run_code, run_thread, step};

verus! {

/// Whether an expression stays inside the executable subset (no host
/// call, no allocation) everywhere.
pub open spec fn expr_pure(e: Expr) -> bool
    decreases e,
{
    match e {
        Expr::Lit { .. } => true,
        Expr::ThreadIndex => true,
        Expr::Read { place } => place_pure(*place),
        Expr::Binary { op, lhs, rhs } => expr_pure(*lhs) && expr_pure(*rhs),
        Expr::Call { .. } => false,
        Expr::Alloc { .. } => false,
    }
}

pub open spec fn place_pure(p: Place) -> bool
    decreases p,
{
    p.arg < 0x1_0000_0000 && match p.access {
        Access::Element(idx) => expr_pure(*idx),
        Access::Member(_) => true,
    }
}

/// Whether a statement stays inside the executable subset everywhere.
pub open spec fn stmt_pure(s: Stmt) -> bool
    decreases s,
{
    match s {
        Stmt::Assign { place, value, .. } => place_pure(place) && expr_pure(value),
        Stmt::Repeat { bound, body, .. } => stmt_pure(*body),
        Stmt::DynLoop { .. } => false,
    }
}

pub open spec fn stmts_pure(ss: Seq<Stmt>) -> bool {
    forall|i: int| 0 <= i < ss.len() ==> stmt_pure(#[trigger] ss[i])
}

/// The source-level value of a place read: a fault where the argument
/// ordinal, the index, or the index expression itself faults.
pub open spec fn eval_place_read(p: Place, tid: u32, store: Seq<Seq<u32>>) -> Option<u32>
    decreases p,
{
    if p.arg >= store.len() {
        None
    } else {
        match p.access {
            Access::Element(idx) => match eval_expr(*idx, tid, store) {
                None => None,
                Some(i) => if i < store[p.arg as int].len() {
                    Some(store[p.arg as int][i as int])
                } else {
                    None
                },
            },
            Access::Member(f) => if f < store[p.arg as int].len() {
                Some(store[p.arg as int][f as int])
            } else {
                None
            },
        }
    }
}

/// The source-level value of an expression in one invocation.
pub open spec fn eval_expr(e: Expr, tid: u32, store: Seq<Seq<u32>>) -> Option<u32>
    decreases e,
{
    match e {
        Expr::Lit { value } => Some(value),
        Expr::ThreadIndex => Some(tid),
        Expr::Read { place } => eval_place_read(*place, tid, store),
        Expr::Binary { op, lhs, rhs } => match eval_expr(*lhs, tid, store) {
            None => None,
            Some(a) => match eval_expr(*rhs, tid, store) {
                None => None,
                Some(b) => Some(binop_eval(op, a, b)),
            },
        },
        Expr::Call { .. } => None,
        Expr::Alloc { .. } => None,
    }
}

/// The source-level effect of a statement on the argument buffers: the
/// index expression evaluates first, then the value, then the write —
/// the same order the compiler emits.
pub open spec fn eval_stmt(s: Stmt, tid: u32, store: Seq<Seq<u32>>) -> Option<Seq<Seq<u32>>>
    decreases s, 0int,
{
    match s {
        Stmt::Assign { place, value, .. } => match place.access {
            Access::Element(idx) => match eval_expr(*idx, tid, store) {
                None => None,
                Some(i) => match eval_expr(value, tid, store) {
                    None => None,
                    Some(v) => if place.arg < store.len() && i < store[place.arg as int].len() {
                        Some(store.update(place.arg as int, store[place.arg as int].update(i as int, v)))
                    } else {
                        None
                    },
                },
            },
            Access::Member(f) => match eval_expr(value, tid, store) {
                None => None,
                Some(v) => if place.arg < store.len() && f < store[place.arg as int].len() {
                    Some(store.update(place.arg as int, store[place.arg as int].update(f as int, v)))
                } else {
                    None
                },
            },
        },
        Stmt::Repeat { bound, body, .. } => eval_repeat(bound as int, *body, tid, store),
        Stmt::DynLoop { .. } => None,
    }
}

/// `n` successive source-level iterations of a loop body.
pub open spec fn eval_repeat(n: int, body: Stmt, tid: u32, store: Seq<Seq<u32>>) -> Option<
    Seq<Seq<u32>>,
>
    decreases body, n + 1int,
{
    if n <= 0 {
        Some(store)
    } else {
        match eval_stmt(body, tid, store) {
            None => None,
            Some(st) => eval_repeat(n - 1, body, tid, st),
        }
    }
}

/// The source-level effect of a statement list, in source order.
pub open spec fn eval_stmts(ss: Seq<Stmt>, tid: u32, store: Seq<Seq<u32>>) -> Option<Seq<Seq<u32>>>
    decreases ss.len(),
{
    if ss.len() == 0 {
        Some(store)
    } else {
        match eval_stmts(ss.drop_last(), tid, store) {
            None => None,
            Some(st) => eval_stmt(ss.last(), tid, st),
        }
    }
}

/// Running concatenated code runs the first part, then the second from
/// where the first left off.
proof fn lemma_run_code_app(c1: Seq<BodyInstr>, c2: Seq<BodyInstr>, tid: u32, s: MachineState)
    ensures
        run_code(c1 + c2, tid, s) == (match run_code(c1, tid, s) {
            None => None::<MachineState>,
            Some(s1) => run_code(c2, tid, s1),
        }),
    decreases c1.len(),
{
    if c1.len() == 0 {
        assert(c1 + c2 =~= c2);
    } else {
        assert((c1 + c2).first() == c1.first());
        assert((c1 + c2).drop_first() =~= c1.drop_first() + c2);
        match step(c1.first(), tid, s) {
            None => {},
            Some(s2) => {
                lemma_run_code_app(c1.drop_first(), c2, tid, s2);
            },
        }
    }
}

/// One instruction as a code sequence.
proof fn lemma_run_one(i: BodyInstr, tid: u32, s: MachineState)
    ensures
        run_code(seq![i], tid, s) == step(i, tid, s),
{
    let c = seq![i];
    assert(c.first() == i);
    match step(i, tid, s) {
        None => {},
        Some(s2) => {
            assert(c.drop_first() =~= Seq::<BodyInstr>::empty());
            assert(run_code(c.drop_first(), tid, s2) == Some(s2));
        },
    }
}

/// The compiled code of a pure expression pushes exactly its
/// source-level value, or faults exactly when evaluation faults.
proof fn lemma_expr_code_correct(e: Expr, tid: u32, s: MachineState)
    requires
        expr_pure(e),
    ensures
        run_code(expr_code(e), tid, s) == (match eval_expr(e, tid, s.store) {
            None => None::<MachineState>,
            Some(v) => Some(MachineState { stack: s.stack.push(v), store: s.store }),
        }),
    decreases e, 1int,
{
    match e {
        Expr::Lit { value } => {
            lemma_run_one(BodyInstr::PushLit(value), tid, s);
        },
        Expr::ThreadIndex => {
            lemma_run_one(BodyInstr::PushThreadIndex, tid, s);
        },
        Expr::Read { place } => {
            lemma_place_read_correct(*place, tid, s);
        },
        Expr::Binary { op, lhs, rhs } => {
            lemma_expr_code_correct(*lhs, tid, s);
            lemma_run_code_app(expr_code(*lhs), expr_code(*rhs) + seq![BodyInstr::Binary(op)], tid, s);
            assert(expr_code(e) =~= expr_code(*lhs) + (expr_code(*rhs) + seq![
                BodyInstr::Binary(op),
            ]));
            match eval_expr(*lhs, tid, s.store) {
                None => {},
                Some(a) => {
                    let s1 = MachineState { stack: s.stack.push(a), store: s.store };
                    lemma_expr_code_correct(*rhs, tid, s1);
                    lemma_run_code_app(expr_code(*rhs), seq![BodyInstr::Binary(op)], tid, s1);
                    match eval_expr(*rhs, tid, s.store) {
                        None => {},
                        Some(b) => {
                            let s2 = MachineState { stack: s1.stack.push(b), store: s.store };
                            lemma_run_one(BodyInstr::Binary(op), tid, s2);
                            assert(s2.stack[s2.stack.len() - 2] == a);
                            assert(s2.stack.last() == b);
                            assert(s2.stack.drop_last().drop_last().push(binop_eval(op, a, b))
                                =~= s.stack.push(binop_eval(op, a, b)));
                        },
                    }
                },
            }
        },
        Expr::Call { .. } => {},
        Expr::Alloc { .. } => {},
    }
}

/// The compiled code of a pure place read pushes exactly the read
/// value, or faults exactly when the read faults.
proof fn lemma_place_read_correct(p: Place, tid: u32, s: MachineState)
    requires
        place_pure(p),
    ensures
        run_code(place_read_code(p), tid, s) == (match eval_place_read(p, tid, s.store) {
            None => None::<MachineState>,
            Some(v) => Some(MachineState { stack: s.stack.push(v), store: s.store }),
        }),
    decreases p, 2int,
{
    assert(p.arg as u32 as int == p.arg as int);
    match p.access {
        Access::Element(idx) => {
            lemma_expr_code_correct(*idx, tid, s);
            lemma_run_code_app(expr_code(*idx), seq![BodyInstr::ReadElement(p.arg as u32)], tid, s);
            assert(place_read_code(p) =~= expr_code(*idx) + seq![
                BodyInstr::ReadElement(p.arg as u32),
            ]);
            match eval_expr(*idx, tid, s.store) {
                None => {},
                Some(i) => {
                    let s1 = MachineState { stack: s.stack.push(i), store: s.store };
                    lemma_run_one(BodyInstr::ReadElement(p.arg as u32), tid, s1);
                    if p.arg < s.store.len() && i < s.store[p.arg as int].len() {
                        assert(s1.stack.last() == i);
                        assert(s1.stack.drop_last().push(s.store[p.arg as int][i as int])
                            =~= s.stack.push(s.store[p.arg as int][i as int]));
                    }
                },
            }
        },
        Access::Member(f) => {
            lemma_run_one(BodyInstr::ReadMember { arg: p.arg as u32, field: f }, tid, s);
        },
    }
}

/// The compiled code of a pure statement performs exactly its
/// source-level effect, leaving the stack as it found it, or faults
/// exactly when evaluation faults.
proof fn lemma_stmt_code_correct(s: Stmt, tid: u32, ms: MachineState)
    requires
        stmt_pure(s),
    ensures
        run_code(stmt_code(s), tid, ms) == (match eval_stmt(s, tid, ms.store) {
            None => None::<MachineState>,
            Some(st) => Some(MachineState { stack: ms.stack, store: st }),
        }),
    decreases s, 0int,
{
    match s {
        Stmt::Assign { place, value, .. } => {
            assert(place.arg as u32 as int == place.arg as int);
            match place.access {
                Access::Element(idx) => {
                    lemma_expr_code_correct(*idx, tid, ms);
                    lemma_run_code_app(
                        expr_code(*idx),
                        expr_code(value) + seq![BodyInstr::WriteElement(place.arg as u32)],
                        tid,
                        ms,
                    );
                    assert(stmt_code(s) =~= expr_code(*idx) + (expr_code(value) + seq![
                        BodyInstr::WriteElement(place.arg as u32),
                    ]));
                    match eval_expr(*idx, tid, ms.store) {
                        None => {},
                        Some(i) => {
                            let s1 = MachineState { stack: ms.stack.push(i), store: ms.store };
                            lemma_expr_code_correct(value, tid, s1);
                            lemma_run_code_app(
                                expr_code(value),
                                seq![BodyInstr::WriteElement(place.arg as u32)],
                                tid,
                                s1,
                            );
                            match eval_expr(value, tid, ms.store) {
                                None => {},
                                Some(v) => {
                                    let s2 = MachineState {
                                        stack: s1.stack.push(v),
                                        store: ms.store,
                                    };
                                    lemma_run_one(
                                        BodyInstr::WriteElement(place.arg as u32),
                                        tid,
                                        s2,
                                    );
                                    assert(s2.stack[s2.stack.len() - 2] == i);
                                    assert(s2.stack.last() == v);
                                    if place.arg < ms.store.len() && i < ms.store[
                                        place.arg as int
                                    ].len() {
                                        assert(s2.stack.drop_last().drop_last() =~= ms.stack);
                                    }
                                },
                            }
                        },
                    }
                },
                Access::Member(f) => {
                    lemma_expr_code_correct(value, tid, ms);
                    lemma_run_code_app(
                        expr_code(value),
                        seq![BodyInstr::WriteMember { arg: place.arg as u32, field: f }],
                        tid,
                        ms,
                    );
                    assert(stmt_code(s) =~= expr_code(value) + seq![
                        BodyInstr::WriteMember { arg: place.arg as u32, field: f },
                    ]);
                    match eval_expr(value, tid, ms.store) {
                        None => {},
                        Some(v) => {
                            let s1 = MachineState { stack: ms.stack.push(v), store: ms.store };
                            lemma_run_one(
                                BodyInstr::WriteMember { arg: place.arg as u32, field: f },
                                tid,
                                s1,
                            );
                            if place.arg < ms.store.len() && f < ms.store[place.arg as int].len() {
                                assert(s1.stack.drop_last() =~= ms.stack);
                            }
                        },
                    }
                },
            }
        },
        Stmt::Repeat { bound, body, .. } => {
            lemma_repeat_code_correct(bound as int, *body, tid, ms);
        },
        Stmt::DynLoop { .. } => {},
    }
}

/// Unrolled iterations perform exactly the iterated source-level
/// effect.
proof fn lemma_repeat_code_correct(n: int, body: Stmt, tid: u32, ms: MachineState)
    requires
        stmt_pure(body),
        n >= 0,
    ensures
        run_code(repeat_code(n, body), tid, ms) == (match eval_repeat(n, body, tid, ms.store) {
            None => None::<MachineState>,
            Some(st) => Some(MachineState { stack: ms.stack, store: st }),
        }),
    decreases body, n + 1int,
{
    if n > 0 {
        lemma_stmt_code_correct(body, tid, ms);
        lemma_run_code_app(stmt_code(body), repeat_code(n - 1, body), tid, ms);
        match eval_stmt(body, tid, ms.store) {
            None => {},
            Some(st) => {
                lemma_repeat_code_correct(n - 1, body, tid, MachineState { stack: ms.stack, store: st });
            },
        }
    }
}

/// The compiled code of a pure statement list performs exactly its
/// source-level effect.
proof fn lemma_stmts_code_correct(ss: Seq<Stmt>, tid: u32, ms: MachineState)
    requires
        stmts_pure(ss),
    ensures
        run_code(stmts_code(ss), tid, ms) == (match eval_stmts(ss, tid, ms.store) {
            None => None::<MachineState>,
            Some(st) => Some(MachineState { stack: ms.stack, store: st }),
        }),
    decreases ss.len(),
{
    if ss.len() > 0 {
        assert(stmts_pure(ss.drop_last())) by {
            assert(forall|i: int|
                0 <= i < ss.drop_last().len() ==> #[trigger] ss.drop_last()[i] == ss[i]);
        }
        lemma_stmts_code_correct(ss.drop_last(), tid, ms);
        lemma_run_code_app(stmts_code(ss.drop_last()), stmt_code(ss.last()), tid, ms);
        match eval_stmts(ss.drop_last(), tid, ms.store) {
            None => {},
            Some(st) => {
                lemma_stmt_code_correct(ss.last(), tid, MachineState { stack: ms.stack, store: st });
            },
        }
    }
}

/// An offence-free statement is pure: the compiler accepts nothing
/// that the machine model cannot execute.
proof fn lemma_offence_free_expr_pure(e: Expr, n_args: int, location: u32)
    requires
        n_args <= 0x1_0000_0000,
        crate::ast::expr_offence(e, n_args, location) is None,
    ensures
        expr_pure(e),
    decreases e, 1int,
{
    match e {
        Expr::Read { place } => {
            lemma_offence_free_place_pure(*place, n_args, location);
        },
        Expr::Binary { op, lhs, rhs } => {
            lemma_offence_free_expr_pure(*lhs, n_args, location);
            lemma_offence_free_expr_pure(*rhs, n_args, location);
        },
        _ => {},
    }
}

proof fn lemma_offence_free_place_pure(p: Place, n_args: int, location: u32)
    requires
        n_args <= 0x1_0000_0000,
        crate::ast::place_offence(p, n_args, location) is None,
    ensures
        place_pure(p),
    decreases p, 2int,
{
    match p.access {
        Access::Element(idx) => {
            lemma_offence_free_expr_pure(*idx, n_args, location);
        },
        Access::Member(_) => {},
    }
}

proof fn lemma_offence_free_stmt_pure(s: Stmt, n_args: int)
    requires
        n_args <= 0x1_0000_0000,
        crate::ast::stmt_offence(s, n_args) is None,
    ensures
        stmt_pure(s),
    decreases s, 0int,
{
    match s {
        Stmt::Assign { place, value, location } => {
            lemma_offence_free_place_pure(place, n_args, location);
            lemma_offence_free_expr_pure(value, n_args, location);
        },
        Stmt::Repeat { bound, body, .. } => {
            lemma_offence_free_stmt_pure(*body, n_args);
        },
        Stmt::DynLoop { .. } => {},
    }
}

proof fn lemma_offence_free_stmts_pure(ss: Seq<Stmt>, n_args: int)
    requires
        n_args <= 0x1_0000_0000,
        crate::ast::stmts_offence(ss, n_args) is None,
    ensures
        stmts_pure(ss),
    decreases ss.len(),
{
    if ss.len() > 0 {
        lemma_offence_free_stmts_pure(ss.drop_last(), n_args);
        lemma_offence_free_stmt_pure(ss.last(), n_args);
        assert(forall|i: int|
            0 <= i < ss.len() - 1 ==> #[trigger] ss[i] == ss.drop_last()[i]);
    }
}

/// Compiler correctness for one invocation: running the compiled code
/// of an offence-free body, from an empty stack over the argument
/// buffers, yields exactly the body's source-level effect — the same
/// buffers, or the same fault.
pub proof fn lemma_compiled_body_faithful(ss: Seq<Stmt>, n_args: int, tid: u32, store: Seq<Seq<u32>>)
    requires
        n_args <= 0x1_0000_0000,
        crate::ast::stmts_offence(ss, n_args) is None,
    ensures
        run_thread(stmts_code(ss), tid, store) == eval_stmts(ss, tid, store),
{
    lemma_offence_free_stmts_pure(ss, n_args);
    lemma_stmts_code_correct(ss, tid, MachineState { stack: Seq::<u32>::empty(), store });
    match eval_stmts(ss, tid, store) {
        None => {},
        Some(st) => {},
    }
}

} // verus!
