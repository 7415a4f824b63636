//! The semantics of the bytecode and a host execution backend: each
//! invocation runs the entry point's instructions over a private
//! operand stack and the shared argument buffers; a dispatch runs one
//! invocation per thread index, in index order.  The host backend
//! executes this model directly and is verified against it.

use vstd::prelude::*;
use vstd::wrapping::u32_specs;
use crate::ast::BinOp;
use crate::bytecode::{BodyInstr, BytecodeModule};
use crate::diag::RuntimeError;

verus! {

/// The state of one invocation: its operand stack and the contents of
/// the buffers bound to the device arguments.
pub struct MachineState {
    pub stack: Seq<u32>,
    pub store: Seq<Seq<u32>>,
}

/// Truncation to a 32-bit word.
pub open spec fn wrap32(v: int) -> u32 {
    (v % 0x1_0000_0000) as u32
}

/// Binary operations are wrapping 32-bit arithmetic; comparisons yield
/// one or zero.
pub open spec fn binop_eval(op: BinOp, a: u32, b: u32) -> u32 {
    match op {
        BinOp::Add => u32_specs::wrapping_add(a, b),
        BinOp::Sub => u32_specs::wrapping_sub(a, b),
        BinOp::Mul => u32_specs::wrapping_mul(a, b),
        BinOp::Eq => if a == b {
            1
        } else {
            0
        },
        BinOp::Lt => if a < b {
            1
        } else {
            0
        },
    }
}

/// One instruction step.  A stack underflow or an out-of-range buffer
/// access faults the invocation: there is no defined result.
pub open spec fn step(i: BodyInstr, tid: u32, s: MachineState) -> Option<MachineState> {
    match i {
        BodyInstr::PushLit(v) => Some(MachineState { stack: s.stack.push(v), store: s.store }),
        BodyInstr::PushThreadIndex => Some(
            MachineState { stack: s.stack.push(tid), store: s.store },
        ),
        BodyInstr::ReadElement(arg) => if s.stack.len() >= 1 && arg < s.store.len()
            && s.stack.last() < s.store[arg as int].len() {
            Some(
                MachineState {
                    stack: s.stack.drop_last().push(s.store[arg as int][s.stack.last() as int]),
                    store: s.store,
                },
            )
        } else {
            None
        },
        BodyInstr::ReadMember { arg, field } => if arg < s.store.len() && field < s.store[
            arg as int
        ].len() {
            Some(
                MachineState {
                    stack: s.stack.push(s.store[arg as int][field as int]),
                    store: s.store,
                },
            )
        } else {
            None
        },
        BodyInstr::Binary(op) => if s.stack.len() >= 2 {
            Some(
                MachineState {
                    stack: s.stack.drop_last().drop_last().push(
                        binop_eval(op, s.stack[s.stack.len() - 2], s.stack.last()),
                    ),
                    store: s.store,
                },
            )
        } else {
            None
        },
        BodyInstr::WriteElement(arg) => if s.stack.len() >= 2 && arg < s.store.len() && s.stack[
            s.stack.len() - 2
        ] < s.store[arg as int].len() {
            Some(
                MachineState {
                    stack: s.stack.drop_last().drop_last(),
                    store: s.store.update(
                        arg as int,
                        s.store[arg as int].update(
                            s.stack[s.stack.len() - 2] as int,
                            s.stack.last(),
                        ),
                    ),
                },
            )
        } else {
            None
        },
        BodyInstr::WriteMember { arg, field } => if s.stack.len() >= 1 && arg < s.store.len()
            && field < s.store[arg as int].len() {
            Some(
                MachineState {
                    stack: s.stack.drop_last(),
                    store: s.store.update(
                        arg as int,
                        s.store[arg as int].update(field as int, s.stack.last()),
                    ),
                },
            )
        } else {
            None
        },
    }
}

/// Runs an instruction sequence from a state, in order; a fault at any
/// instruction faults the whole run.
pub open spec fn run_code(code: Seq<BodyInstr>, tid: u32, s: MachineState) -> Option<MachineState>
    decreases code.len(),
{
    if code.len() == 0 {
        Some(s)
    } else {
        match step(code.first(), tid, s) {
            None => None,
            Some(s2) => run_code(code.drop_first(), tid, s2),
        }
    }
}

/// One invocation: the entry point's body over an empty stack and the
/// shared store; its result is the store it leaves behind.
pub open spec fn run_thread(code: Seq<BodyInstr>, tid: u32, store: Seq<Seq<u32>>) -> Option<
    Seq<Seq<u32>>,
> {
    match run_code(code, tid, MachineState { stack: Seq::<u32>::empty(), store }) {
        None => None,
        Some(s) => Some(s.store),
    }
}

/// A dispatch of `n` invocations, thread indices `0..n` in index order.
pub open spec fn run_threads(code: Seq<BodyInstr>, n: int, store: Seq<Seq<u32>>) -> Option<
    Seq<Seq<u32>>,
>
    decreases n,
{
    if n <= 0 {
        Some(store)
    } else {
        match run_threads(code, n - 1, store) {
            None => None,
            Some(st) => run_thread(code, wrap32(n - 1), st),
        }
    }
}

/// A faulted dispatch stays faulted as more invocations run.
pub proof fn lemma_run_threads_none(code: Seq<BodyInstr>, k: int, n: int, store: Seq<Seq<u32>>)
    requires
        0 <= k <= n,
        run_threads(code, k, store) is None,
    ensures
        run_threads(code, n, store) is None,
    decreases n - k,
{
    if k < n {
        lemma_run_threads_none(code, k, n - 1, store);
    }
}

/// What a dispatch of a module over caller-provided input buffers
/// yields: the store left by all invocations, or nothing if the inputs
/// do not match the interface (one buffer per binding) or an invocation
/// faults.
pub open spec fn dispatch_result(
    m: BytecodeModule,
    inputs: Seq<Seq<u32>>,
    num_thread_blocks: u32,
    thread_block_size: u32,
) -> Option<Seq<Seq<u32>>> {
    if inputs.len() != m.entry.interface@.len() {
        None
    } else {
        run_threads(m.code@, num_thread_blocks as int * thread_block_size as int, inputs)
    }
}

fn exec_binop(op: BinOp, a: u32, b: u32) -> (r: u32)
    ensures
        r == binop_eval(op, a, b),
{
    match op {
        BinOp::Add => a.wrapping_add(b),
        BinOp::Sub => a.wrapping_sub(b),
        BinOp::Mul => a.wrapping_mul(b),
        BinOp::Eq => if a == b {
            1
        } else {
            0
        },
        BinOp::Lt => if a < b {
            1
        } else {
            0
        },
    }
}

/// Writes one word of one argument buffer.
fn store_write(store: &mut Vec<Vec<u32>>, arg: usize, idx: usize, value: u32)
    requires
        arg < old(store)@.len(),
        idx < old(store)@[arg as int]@.len(),
    ensures
        final(store).deep_view() == old(store).deep_view().update(
            arg as int,
            old(store).deep_view()[arg as int].update(idx as int, value),
        ),
{
    store[arg][idx] = value;
    proof {
        assert(store.deep_view() =~~= old(store).deep_view().update(
            arg as int,
            old(store).deep_view()[arg as int].update(idx as int, value),
        ));
    }
}

/// Runs one invocation on the host, mutating the argument buffers as
/// the machine model says; a fault surfaces as `SubmissionFailed`.
fn exec_thread(code: &Vec<BodyInstr>, tid: u32, store: &mut Vec<Vec<u32>>) -> (r: Result<
    (),
    RuntimeError,
>)
    ensures
        match r {
            Ok(_) => run_thread(code@, tid, old(store).deep_view()) == Some(
                final(store).deep_view(),
            ),
            Err(e) => e == RuntimeError::SubmissionFailed && run_thread(
                code@,
                tid,
                old(store).deep_view(),
            ) is None,
        },
{
    let mut stack: Vec<u32> = Vec::new();
    let mut pc: usize = 0;
    proof {
        assert(code@.skip(0) =~= code@);
    }
    while pc < code.len()
        invariant
            pc <= code@.len(),
            run_code(
                code@,
                tid,
                MachineState { stack: Seq::<u32>::empty(), store: old(store).deep_view() },
            ) == run_code(
                code@.skip(pc as int),
                tid,
                MachineState { stack: stack@, store: store.deep_view() },
            ),
        decreases code@.len() - pc,
    {
        let ghost pre = MachineState { stack: stack@, store: store.deep_view() };
        proof {
            assert(code@.skip(pc as int).first() == code@[pc as int]);
            assert(code@.skip(pc as int).drop_first() =~= code@.skip(pc + 1));
        }
        let instr = code[pc];
        match instr {
            BodyInstr::PushLit(v) => {
                stack.push(v);
            },
            BodyInstr::PushThreadIndex => {
                stack.push(tid);
            },
            BodyInstr::ReadElement(arg) => {
                let a = arg as usize;
                match stack.pop() {
                    None => {
                        return Err(RuntimeError::SubmissionFailed);
                    },
                    Some(idx) => {
                        if a >= store.len() || idx as usize >= store[a].len() {
                            return Err(RuntimeError::SubmissionFailed);
                        }
                        stack.push(store[a][idx as usize]);
                        proof {
                            assert(store.deep_view()[a as int] =~= store@[a as int]@);
                        }
                    },
                }
            },
            BodyInstr::ReadMember { arg, field } => {
                let a = arg as usize;
                if a >= store.len() || field as usize >= store[a].len() {
                    return Err(RuntimeError::SubmissionFailed);
                }
                stack.push(store[a][field as usize]);
                proof {
                    assert(store.deep_view()[a as int] =~= store@[a as int]@);
                }
            },
            BodyInstr::Binary(op) => {
                match stack.pop() {
                    None => {
                        return Err(RuntimeError::SubmissionFailed);
                    },
                    Some(b) => match stack.pop() {
                        None => {
                            return Err(RuntimeError::SubmissionFailed);
                        },
                        Some(a) => {
                            stack.push(exec_binop(op, a, b));
                            proof {
                                assert(stack@ =~= pre.stack.drop_last().drop_last().push(
                                    binop_eval(op, pre.stack[pre.stack.len() - 2], pre.stack.last()),
                                ));
                            }
                        },
                    },
                }
            },
            BodyInstr::WriteElement(arg) => {
                let a = arg as usize;
                match stack.pop() {
                    None => {
                        return Err(RuntimeError::SubmissionFailed);
                    },
                    Some(value) => match stack.pop() {
                        None => {
                            return Err(RuntimeError::SubmissionFailed);
                        },
                        Some(idx) => {
                            if a >= store.len() || idx as usize >= store[a].len() {
                                return Err(RuntimeError::SubmissionFailed);
                            }
                            proof {
                                assert(store.deep_view()[a as int] =~= store@[a as int]@);
                            }
                            store_write(store, a, idx as usize, value);
                        },
                    },
                }
            },
            BodyInstr::WriteMember { arg, field } => {
                let a = arg as usize;
                match stack.pop() {
                    None => {
                        return Err(RuntimeError::SubmissionFailed);
                    },
                    Some(value) => {
                        if a >= store.len() || field as usize >= store[a].len() {
                            return Err(RuntimeError::SubmissionFailed);
                        }
                        proof {
                            assert(store.deep_view()[a as int] =~= store@[a as int]@);
                        }
                        store_write(store, a, field as usize, value);
                    },
                }
            },
        }
        pc += 1;
    }
    proof {
        assert(code@.skip(code@.len() as int) =~= Seq::<BodyInstr>::empty());
    }
    Ok(())
}

/// Copies the caller-provided input contents into fresh argument
/// buffers, one per binding.
fn copy_buffers(v: &Vec<Vec<u32>>) -> (r: Vec<Vec<u32>>)
    ensures
        r.deep_view() == v.deep_view(),
{
    let mut r: Vec<Vec<u32>> = Vec::new();
    let mut i: usize = 0;
    while i < v.len()
        invariant
            i <= v@.len(),
            r@.len() == i,
            forall|j: int| 0 <= j < i ==> r@[j]@ == v@[j]@,
        decreases v@.len() - i,
    {
        r.push(vstd::slice::slice_to_vec(v[i].as_slice()));
        i += 1;
    }
    proof {
        assert(r.deep_view() =~~= v.deep_view());
    }
    r
}

/// The host execution backend: runs every invocation of a dispatch in
/// thread-index order, entirely on the calling thread.  It completes
/// synchronously, so the bounded-wait path never times out here; a
/// faulting invocation or an input list that does not match the
/// module's interface surfaces as `SubmissionFailed`.  On success the
/// returned buffers are exactly what the machine model says the
/// dispatch leaves behind.
pub fn run_host(
    module: &BytecodeModule,
    inputs: &Vec<Vec<u32>>,
    num_thread_blocks: u32,
    thread_block_size: u32,
) -> (r: Result<Vec<Vec<u32>>, RuntimeError>)
    ensures
        match r {
            Ok(out) => dispatch_result(
                *module,
                inputs.deep_view(),
                num_thread_blocks,
                thread_block_size,
            ) == Some(out.deep_view()),
            Err(e) => e == RuntimeError::SubmissionFailed && dispatch_result(
                *module,
                inputs.deep_view(),
                num_thread_blocks,
                thread_block_size,
            ) is None,
        },
{
    if inputs.len() != module.entry.interface.len() {
        proof {
            assert(inputs.deep_view().len() == inputs@.len());
        }
        return Err(RuntimeError::SubmissionFailed);
    }
    let ghost init = inputs.deep_view();
    proof {
        assert(init.len() == inputs@.len());
    }
    let total: u64 = crate::device::invocation_count(num_thread_blocks, thread_block_size);
    let mut store = copy_buffers(inputs);
    proof {
        assert(run_threads(module.code@, 0, init) == Some(store.deep_view()));
    }
    let mut t: u64 = 0;
    while t < total
        invariant
            t <= total,
            total == num_thread_blocks as int * thread_block_size as int,
            init == inputs.deep_view(),
            init.len() == module.entry.interface@.len(),
            run_threads(module.code@, t as int, init) == Some(store.deep_view()),
        decreases total - t,
    {
        let tid: u32 = (t % 0x1_0000_0000u64) as u32;
        let ghost pre_deep = store.deep_view();
        proof {
            assert(wrap32(t as int) == tid);
        }
        match exec_thread(&module.code, tid, &mut store) {
            Ok(_) => {},
            Err(e) => {
                proof {
                    assert(run_thread(module.code@, tid, pre_deep) is None);
                    assert(run_threads(module.code@, t as int + 1, init) is None);
                    lemma_run_threads_none(module.code@, t as int + 1, total as int, init);
                    assert(run_threads(module.code@, total as int, init) is None);
                    assert(total as int == num_thread_blocks as int * thread_block_size as int);
                    assert(dispatch_result(*module, inputs.deep_view(), num_thread_blocks,
                        thread_block_size) is None);
                }
                return Err(RuntimeError::SubmissionFailed);
            },
        }
        t += 1;
    }
    Ok(store)
}

/// The identity input buffer: element `i` holds `i`.
pub fn iota(n: u32) -> (r: Vec<u32>)
    ensures
        r@.len() == n,
        forall|i: int| 0 <= i < n ==> r@[i] == i,
{
    let mut r: Vec<u32> = Vec::new();
    let mut i: u32 = 0;
    while i < n
        invariant
            i <= n,
            r@.len() == i,
            forall|j: int| 0 <= j < i ==> r@[j] == j,
        decreases n - i,
    {
        r.push(i);
        i += 1;
    }
    r
}

/// Whether every element of a buffer holds its index times `factor`,
/// in wrapping 32-bit arithmetic.
pub fn check_linear_output(buf: &Vec<u32>, factor: u32) -> (r: bool)
    ensures
        r == forall|i: int|
            0 <= i < buf@.len() ==> buf@[i] == u32_specs::wrapping_mul(wrap32(i), factor),
{
    let mut i: usize = 0;
    while i < buf.len()
        invariant
            i <= buf@.len(),
            forall|j: int| 0 <= j < i ==> buf@[j] == u32_specs::wrapping_mul(wrap32(j), factor),
        decreases buf@.len() - i,
    {
        let iw: u32 = ((i as u64) % 0x1_0000_0000u64) as u32;
        proof {
            assert(iw == wrap32(i as int));
        }
        let expected = iw.wrapping_mul(factor);
        if buf[i] != expected {
            return false;
        }
        i += 1;
    }
    true
}

} // verus!
