//! The kernel body compiler: translates a validated kernel's statement
//! list into a bytecode module.  Compilation proceeds in source order —
//! statement N's instructions are emitted before statement N+1's, and
//! that order is the de-facto execution order inside the entry point.
//! Any construct outside the supported subset aborts compilation with
//! the first offence; no partial module is ever returned.

use vstd::prelude::*;
use vstd::utf8::encode_utf8;
use crate::ast::{Access, Expr, Place, Stmt, expr_offence, place_offence, stmt_offence,
    stmts_offence, lemma_offence_in_prefix};
use crate::bytecode::{AddressingModel, BodyInstr, BytecodeModule, Capability, EntryPoint,
    MemoryModel, type_words};
use crate::diag::{CompileError, UnsupportedKind};
use crate::signature::{ValidatedSignature, device_args};

verus! {

/// The instructions that push the value of a place read: for an
/// element access the index expression's code then the read, for a
/// member access the read alone.
pub open spec fn place_read_code(p: Place) -> Seq<BodyInstr>
    decreases p,
{
    match p.access {
        Access::Element(idx) => expr_code(*idx) + seq![BodyInstr::ReadElement(p.arg as u32)],
        Access::Member(f) => seq![BodyInstr::ReadMember { arg: p.arg as u32, field: f }],
    }
}

/// The instructions that push the value of an expression: literals and
/// the thread index push directly, a binary operation emits its left
/// operand's code, then its right operand's, then the operation.
pub open spec fn expr_code(e: Expr) -> Seq<BodyInstr>
    decreases e,
{
    match e {
        Expr::Lit { value } => seq![BodyInstr::PushLit(value)],
        Expr::ThreadIndex => seq![BodyInstr::PushThreadIndex],
        Expr::Read { place } => place_read_code(*place),
        Expr::Binary { op, lhs, rhs } => expr_code(*lhs) + expr_code(*rhs) + seq![
            BodyInstr::Binary(op),
        ],
        Expr::Call { .. } => Seq::<BodyInstr>::empty(),
        Expr::Alloc { .. } => Seq::<BodyInstr>::empty(),
    }
}

/// The instructions of one statement.  A constant-bound loop is
/// unrolled: its body's code appears once per iteration.
pub open spec fn stmt_code(s: Stmt) -> Seq<BodyInstr>
    decreases s, 0int,
{
    match s {
        Stmt::Assign { place, value, .. } => match place.access {
            Access::Element(idx) => expr_code(*idx) + expr_code(value) + seq![
                BodyInstr::WriteElement(place.arg as u32),
            ],
            Access::Member(f) => expr_code(value) + seq![
                BodyInstr::WriteMember { arg: place.arg as u32, field: f },
            ],
        },
        Stmt::Repeat { bound, body, .. } => repeat_code(bound as int, *body),
        Stmt::DynLoop { .. } => Seq::<BodyInstr>::empty(),
    }
}

/// `n` concatenated copies of a loop body's code.
pub open spec fn repeat_code(n: int, body: Stmt) -> Seq<BodyInstr>
    decreases body, n + 1int,
{
    if n <= 0 {
        Seq::<BodyInstr>::empty()
    } else {
        stmt_code(body) + repeat_code(n - 1, body)
    }
}

/// The instructions of a statement list, in source order.
pub open spec fn stmts_code(ss: Seq<Stmt>) -> Seq<BodyInstr>
    decreases ss.len(),
{
    if ss.len() == 0 {
        Seq::<BodyInstr>::empty()
    } else {
        stmts_code(ss.drop_last()) + stmt_code(ss.last())
    }
}

/// Unrolling one more iteration appends one more copy of the body.
proof fn lemma_repeat_snoc(n: int, body: Stmt)
    requires
        n >= 0,
    ensures
        repeat_code(n + 1, body) =~= repeat_code(n, body) + stmt_code(body),
    decreases n,
{
    if n == 0 {
        assert(repeat_code(0, body) =~= Seq::<BodyInstr>::empty());
        assert(repeat_code(1, body) == stmt_code(body) + repeat_code(0, body));
        assert(repeat_code(1, body) =~= repeat_code(0, body) + stmt_code(body));
    } else {
        lemma_repeat_snoc(n - 1, body);
    }
}

fn compile_place_read(
    p: &Place,
    n_args: usize,
    location: u32,
    out: &mut Vec<BodyInstr>,
) -> (r: Result<(), CompileError>)
    requires
        n_args < 0x1_0000,
    ensures
        match r {
            Ok(_) => place_offence(*p, n_args as int, location) is None && final(out)@ == old(out)@
                + place_read_code(*p),
            Err(er) => place_offence(*p, n_args as int, location) == Some(er),
        },
    decreases *p,
{
    if p.arg >= n_args {
        return Err(
            CompileError::UnsupportedExpression { kind: UnsupportedKind::UnknownArgument, location },
        );
    }
    match &p.access {
        Access::Element(idx) => {
            compile_expr(idx, n_args, location, out)?;
            out.push(BodyInstr::ReadElement(p.arg as u32));
            proof {
                assert(out@ =~= old(out)@ + place_read_code(*p));
            }
        },
        Access::Member(f) => {
            out.push(BodyInstr::ReadMember { arg: p.arg as u32, field: *f });
            proof {
                assert(out@ =~= old(out)@ + place_read_code(*p));
            }
        },
    }
    Ok(())
}

fn compile_expr(e: &Expr, n_args: usize, location: u32, out: &mut Vec<BodyInstr>) -> (r: Result<
    (),
    CompileError,
>)
    requires
        n_args < 0x1_0000,
    ensures
        match r {
            Ok(_) => expr_offence(*e, n_args as int, location) is None && final(out)@ == old(out)@
                + expr_code(*e),
            Err(er) => expr_offence(*e, n_args as int, location) == Some(er),
        },
    decreases *e,
{
    match e {
        Expr::Lit { value } => {
            out.push(BodyInstr::PushLit(*value));
            proof {
                assert(out@ =~= old(out)@ + expr_code(*e));
            }
            Ok(())
        },
        Expr::ThreadIndex => {
            out.push(BodyInstr::PushThreadIndex);
            proof {
                assert(out@ =~= old(out)@ + expr_code(*e));
            }
            Ok(())
        },
        Expr::Read { place } => {
            compile_place_read(place, n_args, location, out)?;
            Ok(())
        },
        Expr::Binary { op, lhs, rhs } => {
            compile_expr(lhs, n_args, location, out)?;
            compile_expr(rhs, n_args, location, out)?;
            out.push(BodyInstr::Binary(*op));
            proof {
                assert(out@ =~= old(out)@ + expr_code(*e));
            }
            Ok(())
        },
        Expr::Call { name, location } => Err(
            CompileError::UnsupportedExpression {
                kind: UnsupportedKind::HostCall,
                location: *location,
            },
        ),
        Expr::Alloc { location } => Err(
            CompileError::UnsupportedExpression {
                kind: UnsupportedKind::HeapAllocation,
                location: *location,
            },
        ),
    }
}

fn compile_stmt(s: &Stmt, n_args: usize, out: &mut Vec<BodyInstr>) -> (r: Result<
    (),
    CompileError,
>)
    requires
        n_args < 0x1_0000,
    ensures
        match r {
            Ok(_) => stmt_offence(*s, n_args as int) is None && final(out)@ == old(out)@
                + stmt_code(*s),
            Err(er) => stmt_offence(*s, n_args as int) == Some(er),
        },
    decreases *s,
{
    match s {
        Stmt::Assign { place, value, location } => {
            if place.arg >= n_args {
                return Err(
                    CompileError::UnsupportedExpression {
                        kind: UnsupportedKind::UnknownArgument,
                        location: *location,
                    },
                );
            }
            match &place.access {
                Access::Element(idx) => {
                    compile_expr(idx, n_args, *location, out)?;
                    compile_expr(value, n_args, *location, out)?;
                    out.push(BodyInstr::WriteElement(place.arg as u32));
                    proof {
                        assert(out@ =~= old(out)@ + stmt_code(*s));
                    }
                },
                Access::Member(f) => {
                    compile_expr(value, n_args, *location, out)?;
                    out.push(BodyInstr::WriteMember { arg: place.arg as u32, field: *f });
                    proof {
                        assert(out@ =~= old(out)@ + stmt_code(*s));
                    }
                },
            }
            Ok(())
        },
        Stmt::Repeat { bound, body, location } => {
            let mut scratch: Vec<BodyInstr> = Vec::new();
            compile_stmt(body, n_args, &mut scratch)?;
            let ghost base = out@;
            let mut k: u32 = 0;
            while k < *bound
                invariant
                    k <= *bound,
                    scratch@ == stmt_code(**body),
                    out@ == base + repeat_code(k as int, **body),
                decreases *bound - k,
            {
                let mut j: usize = 0;
                while j < scratch.len()
                    invariant
                        j <= scratch@.len(),
                        scratch@ == stmt_code(**body),
                        out@ == base + repeat_code(k as int, **body) + scratch@.take(j as int),
                    decreases scratch@.len() - j,
                {
                    out.push(scratch[j]);
                    proof {
                        assert(out@ =~= base + repeat_code(k as int, **body) + scratch@.take(j + 1));
                    }
                    j += 1;
                }
                proof {
                    assert(scratch@.take(scratch@.len() as int) =~= scratch@);
                    lemma_repeat_snoc(k as int, **body);
                    assert(out@ =~= base + repeat_code(k as int + 1, **body));
                }
                k += 1;
            }
            proof {
                assert(out@ =~= old(out)@ + stmt_code(*s));
            }
            Ok(())
        },
        Stmt::DynLoop { location } => Err(
            CompileError::UnsupportedExpression {
                kind: UnsupportedKind::DynamicLoop,
                location: *location,
            },
        ),
    }
}

/// The kernel body compiler.  Succeeds exactly when every statement
/// lies inside the supported subset; the produced module carries the
/// minimum capability set, the single logical-addressing /
/// standard-compute memory-model pair, one entry point named after the
/// kernel whose interface lists exactly the device-argument bindings in
/// declaration order (binding `i` at position `i`), the type table of
/// those arguments, and the statements' instructions in source order.
/// On failure the first offending construct is named with its location,
/// and no module is returned.  The bounds in the `requires` are the
/// word-encoding's machine limits.
pub fn compile_body(sig: &ValidatedSignature, body: &Vec<Stmt>) -> (r: Result<
    BytecodeModule,
    CompileError,
>)
    requires
        sig.wf(),
        device_args(sig.sig.params@).len() < 0x1000,
        encode_utf8(sig.sig.name@).len() < 0x4000,
        forall|k: int|
            0 <= k < device_args(sig.sig.params@).len() ==> (#[trigger] type_words(
                device_args(sig.sig.params@)[k].ty,
            )).len() < 0x4000,
    ensures
        ({
            let n_args = device_args(sig.sig.params@).len() as int;
            match r {
                Ok(m) => {
                    &&& stmts_offence(body@, n_args) is None
                    &&& m.code@ == stmts_code(body@)
                    &&& m.capabilities@ == seq![Capability::Compute]
                    &&& m.addressing is Logical
                    &&& m.memory is StandardCompute
                    &&& m.entry.name@ == sig.sig.name@
                    &&& m.entry.interface@.len() == n_args
                    &&& forall|k: int| 0 <= k < n_args ==> m.entry.interface@[k] == k
                    &&& m.arg_types@.len() == n_args
                    &&& forall|k: int|
                        0 <= k < n_args ==> m.arg_types@[k] == device_args(sig.sig.params@)[k].ty
                    &&& m.encodable()
                },
                Err(e) => stmts_offence(body@, n_args) == Some(e),
            }
        }),
{
    let types = sig.device_arg_types();
    let n_args = types.len();

    let mut code: Vec<BodyInstr> = Vec::new();
    let mut i: usize = 0;
    while i < body.len()
        invariant
            i <= body@.len(),
            n_args == device_args(sig.sig.params@).len(),
            n_args < 0x1000,
            stmts_offence(body@.take(i as int), n_args as int) is None,
            code@ == stmts_code(body@.take(i as int)),
        decreases body@.len() - i,
    {
        proof {
            assert(body@.take(i + 1).drop_last() =~= body@.take(i as int));
            assert(body@.take(i + 1).last() == body@[i as int]);
        }
        match compile_stmt(&body[i], n_args, &mut code) {
            Ok(_) => {
                proof {
                    assert(code@ =~= stmts_code(body@.take(i + 1)));
                }
            },
            Err(e) => {
                proof {
                    lemma_offence_in_prefix(body@, n_args as int, i + 1);
                }
                return Err(e);
            },
        }
        i += 1;
    }
    proof {
        assert(body@.take(body@.len() as int) =~= body@);
    }

    let mut interface: Vec<u32> = Vec::new();
    let mut k: usize = 0;
    while k < n_args
        invariant
            k <= n_args,
            n_args < 0x1000,
            interface@.len() == k,
            forall|j: int| 0 <= j < k ==> interface@[j] == j,
        decreases n_args - k,
    {
        interface.push(k as u32);
        k += 1;
    }

    let mut capabilities: Vec<Capability> = Vec::new();
    capabilities.push(Capability::Compute);
    proof {
        assert(capabilities@ =~= seq![Capability::Compute]);
    }

    Ok(
        BytecodeModule {
            capabilities,
            addressing: AddressingModel::Logical,
            memory: MemoryModel::StandardCompute,
            arg_types: types,
            entry: EntryPoint { name: sig.sig.name.clone(), interface },
            code,
        },
    )
}

} // verus!
