//! The linear demonstration kernel: each invocation writes its thread
//! index times a constant factor into an output buffer at its thread
//! index.  Its body is built here as an expression tree, and the
//! behaviour of the compiled code is proved against the machine model:
//! a dispatch over a buffer of `n` elements with `n` invocations
//! leaves `output[i] == i * factor` for every index.

use vstd::prelude::*;
use vstd::wrapping::u32_specs;
use crate::ast::{Access, BinOp, Expr, Place, Stmt, stmts_offence};
use crate::bytecode::BodyInstr;
use crate::compile::{stmts_code, stmt_code, expr_code};
use crate::machine::{MachineState, run_code, run_thread, run_threads, wrap32};

verus! {

/// The compiled instructions of the linear kernel's one statement,
/// writing into the device argument at binding 0.
pub open spec fn linear_code(factor: u32) -> Seq<BodyInstr> {
    seq![
        BodyInstr::PushThreadIndex,
        BodyInstr::PushThreadIndex,
        BodyInstr::PushLit(factor),
        BodyInstr::Binary(BinOp::Mul),
        BodyInstr::WriteElement(0),
    ]
}

/// The body `output[thread_index] = thread_index * factor`, on the
/// device argument at binding 0.  It lies inside the compilable subset
/// for any signature with at least one device argument, and compiles
/// to exactly `linear_code`.
pub fn linear_kernel_body(factor: u32) -> (r: Vec<Stmt>)
    ensures
        forall|n: int| n >= 1 ==> stmts_offence(r@, n) is None,
        stmts_code(r@) == linear_code(factor),
{
    let idx = Box::new(Expr::ThreadIndex);
    let ghost gidx = *idx;
    let lhs = Box::new(Expr::ThreadIndex);
    let ghost glhs = *lhs;
    let rhs = Box::new(Expr::Lit { value: factor });
    let ghost grhs = *rhs;
    let value = Expr::Binary { op: BinOp::Mul, lhs, rhs };
    let ghost gvalue = value;
    let stmt = Stmt::Assign {
        place: Place { arg: 0, access: Access::Element(idx) },
        value,
        location: 0,
    };
    let ghost gstmt = stmt;
    let mut r: Vec<Stmt> = Vec::new();
    r.push(stmt);
    proof {
        assert(expr_code(gidx) =~= seq![BodyInstr::PushThreadIndex]);
        assert(expr_code(glhs) =~= seq![BodyInstr::PushThreadIndex]);
        assert(expr_code(grhs) =~= seq![BodyInstr::PushLit(factor)]);
        assert(expr_code(gvalue) =~= seq![
            BodyInstr::PushThreadIndex,
            BodyInstr::PushLit(factor),
            BodyInstr::Binary(BinOp::Mul),
        ]);
        assert(stmt_code(gstmt) =~= linear_code(factor));
        assert(r@.last() == gstmt);
        assert(r@.drop_last() =~= Seq::<Stmt>::empty());
        assert(stmts_code(Seq::<Stmt>::empty()) =~= Seq::<BodyInstr>::empty());
        assert(stmts_code(r@) =~= linear_code(factor));
        assert forall|n: int| n >= 1 implies stmts_offence(r@, n) is None by {
            assert(crate::ast::expr_offence(gidx, n, 0) is None);
            assert(crate::ast::place_offence(gstmt->Assign_place, n, 0) is None);
            assert(crate::ast::expr_offence(glhs, n, 0) is None);
            assert(crate::ast::expr_offence(grhs, n, 0) is None);
            assert(crate::ast::expr_offence(gvalue, n, 0) is None);
            assert(crate::ast::stmt_offence(gstmt, n) is None);
            assert(stmts_offence(Seq::<Stmt>::empty(), n) is None);
            assert(r@.drop_last() =~= Seq::<Stmt>::empty());
            assert(r@.last() == gstmt);
            assert(stmts_offence(r@, n) == crate::ast::first_of(
                stmts_offence(r@.drop_last(), n),
                crate::ast::stmt_offence(r@.last(), n),
            ));
        }
    }
    r
}

/// One invocation of the linear code writes `tid * factor` at index
/// `tid` and touches nothing else.
proof fn lemma_linear_thread(factor: u32, store: Seq<Seq<u32>>, tid: u32)
    requires
        store.len() == 1,
        tid < store[0].len(),
    ensures
        run_thread(linear_code(factor), tid, store) == Some(
            store.update(
                0,
                store[0].update(tid as int, u32_specs::wrapping_mul(tid, factor)),
            ),
        ),
{
    let c = linear_code(factor);
    let s0 = MachineState { stack: Seq::<u32>::empty(), store };
    let s1 = MachineState { stack: seq![tid], store };
    let s2 = MachineState { stack: seq![tid, tid], store };
    let s3 = MachineState { stack: seq![tid, tid, factor], store };
    let mul = u32_specs::wrapping_mul(tid, factor);
    let s4 = MachineState { stack: seq![tid, mul], store };
    let st = store.update(0, store[0].update(tid as int, mul));
    let s5 = MachineState { stack: Seq::<u32>::empty(), store: st };

    let c1 = c.drop_first();
    let c2 = c1.drop_first();
    let c3 = c2.drop_first();
    let c4 = c3.drop_first();
    let c5 = c4.drop_first();
    assert(c1 =~= seq![
        BodyInstr::PushThreadIndex,
        BodyInstr::PushLit(factor),
        BodyInstr::Binary(BinOp::Mul),
        BodyInstr::WriteElement(0),
    ]);
    assert(c2 =~= seq![
        BodyInstr::PushLit(factor),
        BodyInstr::Binary(BinOp::Mul),
        BodyInstr::WriteElement(0),
    ]);
    assert(c3 =~= seq![BodyInstr::Binary(BinOp::Mul), BodyInstr::WriteElement(0)]);
    assert(c4 =~= seq![BodyInstr::WriteElement(0)]);
    assert(c5 =~= Seq::<BodyInstr>::empty());

    assert(crate::machine::step(c[0], tid, s0) == Some(s1)) by {
        assert(s0.stack.push(tid) =~= s1.stack);
    }
    assert(crate::machine::step(c1[0], tid, s1) == Some(s2)) by {
        assert(s1.stack.push(tid) =~= s2.stack);
    }
    assert(crate::machine::step(c2[0], tid, s2) == Some(s3)) by {
        assert(s2.stack.push(factor) =~= s3.stack);
    }
    assert(crate::machine::step(c3[0], tid, s3) == Some(s4)) by {
        assert(s3.stack[s3.stack.len() - 2] == tid);
        assert(s3.stack.last() == factor);
        assert(s3.stack.drop_last().drop_last().push(mul) =~= s4.stack);
    }
    assert(crate::machine::step(c4[0], tid, s4) == Some(s5)) by {
        assert(s4.stack[s4.stack.len() - 2] == tid);
        assert(s4.stack.last() == mul);
        assert(s4.stack.drop_last().drop_last() =~= s5.stack);
    }

    assert(run_code(c5, tid, s5) == Some(s5));
    assert(run_code(c4, tid, s4) == Some(s5));
    assert(run_code(c3, tid, s3) == Some(s5));
    assert(run_code(c2, tid, s2) == Some(s5));
    assert(run_code(c1, tid, s1) == Some(s5));
    assert(run_code(c, tid, s0) == Some(s5));
}

/// A dispatch of the linear kernel over one output buffer of at least
/// `n` elements, with `n` invocations, leaves `output[i] == i * factor`
/// (wrapping) at every index below `n` and every other element
/// untouched.
pub proof fn lemma_linear_dispatch(factor: u32, store: Seq<Seq<u32>>, n: int)
    requires
        store.len() == 1,
        0 <= n <= store[0].len(),
        store[0].len() < 0x1_0000_0000,
    ensures
        run_threads(linear_code(factor), n, store) matches Some(st) && {
            &&& st.len() == 1
            &&& st[0].len() == store[0].len()
            &&& forall|i: int|
                0 <= i < n ==> st[0][i] == u32_specs::wrapping_mul(wrap32(i), factor)
            &&& forall|i: int| n <= i < store[0].len() ==> st[0][i] == store[0][i]
        },
    decreases n,
{
    if n > 0 {
        lemma_linear_dispatch(factor, store, n - 1);
        let prev = run_threads(linear_code(factor), n - 1, store)->Some_0;
        let tid = wrap32(n - 1);
        assert(tid == n - 1);
        lemma_linear_thread(factor, prev, tid);
    }
}

} // verus!
