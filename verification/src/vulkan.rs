//! The device-context handle for the native-GPU backend: which backend
//! and which entry point a dispatch invokes, and the compilation path
//! that turns a validated kernel into an assembled module for it.  The
//! native API calls of a dispatch live outside the library, in the
//! program around it; everything the dispatch decides on the host —
//! device selection, error mapping, dimensions — is in `device`, and
//! the reference execution semantics in `machine`.

use vstd::prelude::*;
use vstd::utf8::encode_utf8;
use crate::ast::{Stmt, stmts_offence};
use crate::bytecode::{BytecodeModule, Capability, module_words, type_words};
use crate::compile::{compile_body, stmts_code};
use crate::diag::CompileError;
use crate::signature::{ValidatedSignature, device_args};

verus! {

/// The capability interface a backend exposes: which device kind and
/// id it drives, and the entry point name its dispatches invoke.
pub trait DeviceCtx {
    fn device_type(&self) -> i32;

    fn device_id(&self) -> i32;

    fn entry_point(&self) -> &str;
}

/// A handle identifying one native-GPU backend target; stateless
/// across dispatches.
pub struct Vulkan<'a> {
    pub device_id: i32,
    pub device_type: i32,
    pub entry_point: &'a str,
}

impl<'a> DeviceCtx for Vulkan<'a> {
    fn device_type(&self) -> (r: i32)
        ensures
            r == self.device_type,
    {
        self.device_type
    }

    fn device_id(&self) -> (r: i32)
        ensures
            r == self.device_id,
    {
        self.device_id
    }

    fn entry_point(&self) -> (r: &str)
        ensures
            r@ == self.entry_point@,
    {
        self.entry_point
    }
}

impl<'a> Vulkan<'a> {
    /// A handle for the given device kind and id, dispatching the
    /// named entry point.
    pub fn new(device_id: i32, device_type: i32, entry_point: &'a str) -> (r: Self)
        ensures
            r.device_id == device_id,
            r.device_type == device_type,
            r.entry_point@ == entry_point@,
    {
        Self { device_id, device_type, entry_point }
    }

    /// Compiles a validated kernel's body and assembles the resulting
    /// module into the flat word stream a pipeline compiler consumes.
    /// Succeeds exactly when the body lies inside the compilable
    /// subset; the words are then the encoding of a module whose entry
    /// point is named after the kernel, with one binding per device
    /// argument and the body's instructions in source order.
    pub fn build_module(&self, sig: &ValidatedSignature, body: &Vec<Stmt>) -> (r: Result<
        Vec<u32>,
        CompileError,
    >)
        requires
            sig.wf(),
            device_args(sig.sig.params@).len() < 0x1000,
            encode_utf8(sig.sig.name@).len() < 0x4000,
            forall|k: int|
                0 <= k < device_args(sig.sig.params@).len() ==> (#[trigger] type_words(
                    device_args(sig.sig.params@)[k].ty,
                )).len() < 0x4000,
        ensures
            ({
                let n_args = device_args(sig.sig.params@).len() as int;
                match r {
                    Ok(words) => stmts_offence(body@, n_args) is None && exists|m: BytecodeModule|
                        {
                            &&& words@ == #[trigger] module_words(m)
                            &&& m.code@ == stmts_code(body@)
                            &&& m.capabilities@ == seq![Capability::Compute]
                            &&& m.entry.name@ == sig.sig.name@
                            &&& m.entry.interface@.len() == n_args
                            &&& forall|k: int| 0 <= k < n_args ==> m.entry.interface@[k] == k
                            &&& m.arg_types@.len() == n_args
                            &&& forall|k: int|
                                0 <= k < n_args ==> m.arg_types@[k] == device_args(
                                    sig.sig.params@,
                                )[k].ty
                        },
                    Err(e) => stmts_offence(body@, n_args) == Some(e),
                }
            }),
    {
        match compile_body(sig, body) {
            Ok(m) => {
                let words = crate::bytecode::assemble(&m);
                proof {
                    assert(words@ == module_words(m));
                }
                Ok(words)
            },
            Err(e) => Err(e),
        }
    }
}

} // verus!
