//! Device selection and the runtime side of a dispatch that can be
//! decided on the host: the fixed device preference order, the mapping
//! from each backend failure to the runtime error taxonomy, and the
//! dispatch dimensions.

use vstd::prelude::*;
use crate::diag::RuntimeError;

verus! {

/// The kind of a physical device, as reported by device enumeration.
#[derive(Clone, Copy, Debug, PartialEq, Eq, Structural)]
pub enum DeviceKind {
    Discrete,
    Integrated,
    Virtual,
    Cpu,
    Other,
}

/// The fixed preference order: a lower rank is preferred.
pub open spec fn spec_rank(k: DeviceKind) -> int {
    match k {
        DeviceKind::Discrete => 0,
        DeviceKind::Integrated => 1,
        DeviceKind::Virtual => 2,
        DeviceKind::Cpu => 3,
        DeviceKind::Other => 4,
    }
}

/// The preference rank of a device kind.
pub fn rank(k: DeviceKind) -> (r: u8)
    ensures
        r as int == spec_rank(k),
{
    match k {
        DeviceKind::Discrete => 0,
        DeviceKind::Integrated => 1,
        DeviceKind::Virtual => 2,
        DeviceKind::Cpu => 3,
        DeviceKind::Other => 4,
    }
}

/// Selects among qualifying devices: Discrete over Integrated over
/// Virtual over Cpu over Other, ties broken by enumeration order (the
/// first qualifying device of the best rank wins).  Returns the index
/// of the selected device, or `None` exactly when no device qualifies.
pub fn select_device(candidates: &Vec<DeviceKind>) -> (r: Option<usize>)
    ensures
        match r {
            None => candidates@.len() == 0,
            Some(i) => {
                &&& i < candidates@.len()
                &&& forall|j: int|
                    0 <= j < candidates@.len() ==> spec_rank(candidates@[i as int]) <= spec_rank(
                        candidates@[j],
                    )
                &&& forall|j: int|
                    0 <= j < i ==> spec_rank(candidates@[j]) > spec_rank(candidates@[i as int])
            },
        },
{
    if candidates.len() == 0 {
        return None;
    }
    let mut best: usize = 0;
    let mut best_rank: u8 = rank(candidates[0]);
    let mut i: usize = 1;
    while i < candidates.len()
        invariant
            1 <= i <= candidates@.len(),
            best < i,
            best_rank as int == spec_rank(candidates@[best as int]),
            forall|j: int| 0 <= j < i ==> best_rank as int <= spec_rank(candidates@[j]),
            forall|j: int| 0 <= j < best ==> spec_rank(candidates@[j]) > best_rank as int,
        decreases candidates@.len() - i,
    {
        let rk = rank(candidates[i]);
        if rk < best_rank {
            best = i;
            best_rank = rk;
        }
        i += 1;
    }
    Some(best)
}

/// Device selection is deterministic: the selection contract pins a
/// unique index, so any two selections over the same candidate list
/// agree.
pub proof fn lemma_selection_deterministic(candidates: Seq<DeviceKind>, i1: int, i2: int)
    requires
        0 <= i1 < candidates.len(),
        0 <= i2 < candidates.len(),
        forall|j: int| 0 <= j < candidates.len() ==> spec_rank(candidates[i1]) <= spec_rank(candidates[j]),
        forall|j: int| 0 <= j < i1 ==> spec_rank(candidates[j]) > spec_rank(candidates[i1]),
        forall|j: int| 0 <= j < candidates.len() ==> spec_rank(candidates[i2]) <= spec_rank(candidates[j]),
        forall|j: int| 0 <= j < i2 ==> spec_rank(candidates[j]) > spec_rank(candidates[i2]),
    ensures
        i1 == i2,
{
    if i1 < i2 {
        assert(spec_rank(candidates[i1]) > spec_rank(candidates[i2]));
        assert(spec_rank(candidates[i2]) >= spec_rank(candidates[i1]));
    } else if i2 < i1 {
        assert(spec_rank(candidates[i2]) > spec_rank(candidates[i1]));
        assert(spec_rank(candidates[i1]) >= spec_rank(candidates[i2]));
    }
}

/// The phase of a dispatch in which a backend call failed.
#[derive(Clone, Copy, Debug, PartialEq, Eq, Structural)]
pub enum DispatchPhase {
    /// Enumerating physical devices found none with the required
    /// extensions and a compute queue family.
    Enumeration,
    /// Creating the logical device or queue failed.
    DeviceInit,
    /// Building the pipeline from the module's entry point failed.
    PipelineBuild,
    /// Recording or submitting the command sequence failed.
    Submission,
    /// The bounded wait on the completion signal elapsed.
    CompletionWait,
}

/// Maps a failing dispatch phase to its runtime error, one to one:
/// every backend failure surfaces as exactly the variant of the
/// taxonomy that names its phase, and a timed-out wait surfaces as
/// `Timeout`, never as a hang.
pub fn error_for_phase(phase: DispatchPhase) -> (r: RuntimeError)
    ensures
        r == (match phase {
            DispatchPhase::Enumeration => RuntimeError::NoSuitableDevice,
            DispatchPhase::DeviceInit => RuntimeError::DeviceInitFailed,
            DispatchPhase::PipelineBuild => RuntimeError::PipelineCreationFailed,
            DispatchPhase::Submission => RuntimeError::SubmissionFailed,
            DispatchPhase::CompletionWait => RuntimeError::Timeout,
        }),
{
    match phase {
        DispatchPhase::Enumeration => RuntimeError::NoSuitableDevice,
        DispatchPhase::DeviceInit => RuntimeError::DeviceInitFailed,
        DispatchPhase::PipelineBuild => RuntimeError::PipelineCreationFailed,
        DispatchPhase::Submission => RuntimeError::SubmissionFailed,
        DispatchPhase::CompletionWait => RuntimeError::Timeout,
    }
}

/// The outcome of the bounded wait on a dispatch's completion fence.
#[derive(Clone, Copy, Debug, PartialEq, Eq, Structural)]
pub enum WaitOutcome {
    /// The fence was signalled within the bound.
    Completed,
    /// The bound elapsed first.
    TimedOut,
    /// The wait itself failed (a device loss or similar).
    Failed,
}

/// The decision after the bounded wait of a dispatch: a completed wait
/// succeeds, an elapsed bound yields `Timeout`, and a failed wait
/// yields `SubmissionFailed`.
pub fn settle_wait(outcome: WaitOutcome) -> (r: Result<(), RuntimeError>)
    ensures
        r == (match outcome {
            WaitOutcome::Completed => Result::<(), RuntimeError>::Ok(()),
            WaitOutcome::TimedOut => Result::<(), RuntimeError>::Err(RuntimeError::Timeout),
            WaitOutcome::Failed => Result::<(), RuntimeError>::Err(RuntimeError::SubmissionFailed),
        }),
{
    match outcome {
        WaitOutcome::Completed => Ok(()),
        WaitOutcome::TimedOut => Err(RuntimeError::Timeout),
        WaitOutcome::Failed => Err(RuntimeError::SubmissionFailed),
    }
}

/// The number of invocations of a one-dimensional dispatch: workgroup
/// count times group size.
pub fn invocation_count(num_thread_blocks: u32, thread_block_size: u32) -> (r: u64)
    ensures
        r == num_thread_blocks as u64 * thread_block_size as u64,
{
    proof {
        assert(num_thread_blocks as int * thread_block_size as int <= 0xFFFF_FFFF * 0xFFFF_FFFF)
            by (nonlinear_arith)
            requires
                num_thread_blocks <= 0xFFFF_FFFFu32,
                thread_block_size <= 0xFFFF_FFFFu32,
        ;
    }
    (num_thread_blocks as u64) * (thread_block_size as u64)
}

} // verus!
