use rycl::ast::{Access, BinOp, Expr, Place, Stmt};
use rycl::bytecode::{BodyInstr, assemble, MODULE_MAGIC, MODULE_VERSION};
use rycl::compile::compile_body;
use rycl::device::{
    DeviceKind, DispatchPhase, WaitOutcome, error_for_phase, invocation_count, rank,
    select_device, settle_wait,
};
use rycl::diag::{CompileError, RuntimeError, UnsupportedKind};
use rycl::linear::linear_kernel_body;
use rycl::machine::{check_linear_output, iota, run_host};
use rycl::signature::{GenericParam, KernelSignature, Param, ValidatedSignature, validate_signature};
use rycl::types::DeviceType;
use rycl::vulkan::{DeviceCtx, Vulkan};

fn kernel_sig(name: &str, extra: Vec<Param>) -> ValidatedSignature {
    let mut params = extra;
    params.push(Param { name: String::from("num_thread_blocks"), ty: DeviceType::U32 });
    params.push(Param { name: String::from("thread_block_size"), ty: DeviceType::U32 });
    let sig = KernelSignature { name: String::from(name), generics: Vec::<GenericParam>::new(), params };
    validate_signature(sig).unwrap()
}

fn out_buffer_sig(name: &str) -> ValidatedSignature {
    kernel_sig(
        name,
        vec![Param { name: String::from("out"), ty: DeviceType::Array(Box::new(DeviceType::U32)) }],
    )
}

#[test]
fn device_selection_prefers_discrete() {
    let candidates = vec![
        DeviceKind::Cpu,
        DeviceKind::Integrated,
        DeviceKind::Discrete,
        DeviceKind::Virtual,
    ];
    let i = select_device(&candidates).unwrap();
    assert_eq!(candidates[i], DeviceKind::Discrete);
}

#[test]
fn device_selection_falls_back_in_order() {
    let candidates = vec![DeviceKind::Cpu, DeviceKind::Virtual];
    let i = select_device(&candidates).unwrap();
    assert_eq!(candidates[i], DeviceKind::Virtual);
    assert_eq!(select_device(&Vec::new()), None);
    // Ties break by enumeration order: the first of the best rank wins.
    let tied = vec![DeviceKind::Other, DeviceKind::Cpu, DeviceKind::Cpu];
    assert_eq!(select_device(&tied), Some(1));
}

#[test]
fn rank_orders_all_kinds() {
    assert!(rank(DeviceKind::Discrete) < rank(DeviceKind::Integrated));
    assert!(rank(DeviceKind::Integrated) < rank(DeviceKind::Virtual));
    assert!(rank(DeviceKind::Virtual) < rank(DeviceKind::Cpu));
    assert!(rank(DeviceKind::Cpu) < rank(DeviceKind::Other));
}

#[test]
fn every_phase_maps_to_its_error() {
    assert_eq!(error_for_phase(DispatchPhase::Enumeration), RuntimeError::NoSuitableDevice);
    assert_eq!(error_for_phase(DispatchPhase::DeviceInit), RuntimeError::DeviceInitFailed);
    assert_eq!(error_for_phase(DispatchPhase::PipelineBuild), RuntimeError::PipelineCreationFailed);
    assert_eq!(error_for_phase(DispatchPhase::Submission), RuntimeError::SubmissionFailed);
    assert_eq!(error_for_phase(DispatchPhase::CompletionWait), RuntimeError::Timeout);
}

#[test]
fn elapsed_wait_yields_timeout_not_a_hang() {
    assert_eq!(settle_wait(WaitOutcome::TimedOut), Err(RuntimeError::Timeout));
    assert_eq!(settle_wait(WaitOutcome::Completed), Ok(()));
    assert_eq!(settle_wait(WaitOutcome::Failed), Err(RuntimeError::SubmissionFailed));
}

#[test]
fn unsupported_host_call_aborts_compilation() {
    let vs = out_buffer_sig("k");
    let body = vec![Stmt::Assign {
        place: Place { arg: 0, access: Access::Element(Box::new(Expr::ThreadIndex)) },
        value: Expr::Call { name: String::from("malloc"), location: 7 },
        location: 3,
    }];
    let err = compile_body(&vs, &body).unwrap_err();
    assert_eq!(
        err,
        CompileError::UnsupportedExpression { kind: UnsupportedKind::HostCall, location: 7 }
    );
}

#[test]
fn heap_allocation_aborts_compilation() {
    let vs = out_buffer_sig("k");
    let body = vec![Stmt::Assign {
        place: Place { arg: 0, access: Access::Member(0) },
        value: Expr::Alloc { location: 11 },
        location: 11,
    }];
    let err = compile_body(&vs, &body).unwrap_err();
    assert_eq!(
        err,
        CompileError::UnsupportedExpression { kind: UnsupportedKind::HeapAllocation, location: 11 }
    );
}

#[test]
fn dynamic_loop_aborts_compilation_even_inside_zero_repeat() {
    let vs = out_buffer_sig("k");
    let body = vec![Stmt::Repeat {
        bound: 0,
        body: Box::new(Stmt::DynLoop { location: 9 }),
        location: 8,
    }];
    let err = compile_body(&vs, &body).unwrap_err();
    assert_eq!(
        err,
        CompileError::UnsupportedExpression { kind: UnsupportedKind::DynamicLoop, location: 9 }
    );
}

#[test]
fn unknown_argument_aborts_compilation() {
    let vs = out_buffer_sig("k");
    let body = vec![Stmt::Assign {
        place: Place { arg: 3, access: Access::Member(0) },
        value: Expr::Lit { value: 1 },
        location: 5,
    }];
    let err = compile_body(&vs, &body).unwrap_err();
    assert_eq!(
        err,
        CompileError::UnsupportedExpression { kind: UnsupportedKind::UnknownArgument, location: 5 }
    );
}

#[test]
fn compiled_module_lists_bindings_in_declaration_order() {
    let vs = kernel_sig(
        "two_args",
        vec![
            Param { name: String::from("xs"), ty: DeviceType::Array(Box::new(DeviceType::I32)) },
            Param { name: String::from("ys"), ty: DeviceType::Array(Box::new(DeviceType::F32)) },
        ],
    );
    let m = compile_body(&vs, &Vec::new()).unwrap();
    assert_eq!(m.entry.interface, vec![0, 1]);
    assert_eq!(m.arg_types.len(), 2);
    assert_eq!(m.arg_types[0], DeviceType::Array(Box::new(DeviceType::I32)));
    assert_eq!(m.arg_types[1], DeviceType::Array(Box::new(DeviceType::F32)));
    assert_eq!(m.entry.name, "two_args");
    assert!(m.code.is_empty());
}

#[test]
fn linear_body_compiles_to_expected_instructions() {
    let vs = out_buffer_sig("linear");
    let body = linear_kernel_body(12);
    let m = compile_body(&vs, &body).unwrap();
    assert_eq!(
        m.code,
        vec![
            BodyInstr::PushThreadIndex,
            BodyInstr::PushThreadIndex,
            BodyInstr::PushLit(12),
            BodyInstr::Binary(BinOp::Mul),
            BodyInstr::WriteElement(0),
        ]
    );
}

#[test]
fn repeat_unrolls_its_body() {
    let vs = out_buffer_sig("k");
    let body = vec![Stmt::Repeat {
        bound: 3,
        body: Box::new(Stmt::Assign {
            place: Place { arg: 0, access: Access::Member(0) },
            value: Expr::Lit { value: 5 },
            location: 0,
        }),
        location: 0,
    }];
    let m = compile_body(&vs, &body).unwrap();
    assert_eq!(
        m.code,
        vec![
            BodyInstr::PushLit(5),
            BodyInstr::WriteMember { arg: 0, field: 0 },
            BodyInstr::PushLit(5),
            BodyInstr::WriteMember { arg: 0, field: 0 },
            BodyInstr::PushLit(5),
            BodyInstr::WriteMember { arg: 0, field: 0 },
        ]
    );
}

#[test]
fn end_to_end_linear_dispatch_on_host() {
    let vs = out_buffer_sig("linear");
    let body = linear_kernel_body(12);
    let m = compile_body(&vs, &body).unwrap();
    let inputs = vec![vec![0u32; 65536]];
    let out = run_host(&m, &inputs, 256, 256).unwrap();
    assert_eq!(out.len(), 1);
    assert_eq!(out[0].len(), 65536);
    for n in 0..65536u32 {
        assert_eq!(out[0][n as usize], n * 12);
    }
    assert!(check_linear_output(&out[0], 12));
    let mut tampered = out[0].clone();
    tampered[100] = 1;
    assert!(!check_linear_output(&tampered, 12));
}

#[test]
fn host_dispatch_reads_its_inputs() {
    // out[i] = xs[i] + 1, over the identity input buffer.
    let vs = kernel_sig(
        "addone",
        vec![
            Param { name: String::from("xs"), ty: DeviceType::Array(Box::new(DeviceType::U32)) },
            Param { name: String::from("out"), ty: DeviceType::Array(Box::new(DeviceType::U32)) },
        ],
    );
    let body = vec![Stmt::Assign {
        place: Place { arg: 1, access: Access::Element(Box::new(Expr::ThreadIndex)) },
        value: Expr::Binary {
            op: BinOp::Add,
            lhs: Box::new(Expr::Read {
                place: Box::new(Place { arg: 0, access: Access::Element(Box::new(Expr::ThreadIndex)) }),
            }),
            rhs: Box::new(Expr::Lit { value: 1 }),
        },
        location: 0,
    }];
    let m = compile_body(&vs, &body).unwrap();
    let inputs = vec![iota(16).to_vec(), vec![0u32; 16]];
    let out = run_host(&m, &inputs, 4, 4).unwrap();
    for n in 0..16u32 {
        assert_eq!(out[1][n as usize], n + 1);
    }
    // The input buffer itself is untouched by this kernel.
    assert_eq!(out[0], inputs[0]);
}

#[test]
fn faulting_dispatch_is_reported_not_ignored() {
    let vs = out_buffer_sig("oob");
    // Writes element 4 of a 4-element buffer on every thread.
    let body = vec![Stmt::Assign {
        place: Place { arg: 0, access: Access::Element(Box::new(Expr::Lit { value: 4 })) },
        value: Expr::Lit { value: 1 },
        location: 0,
    }];
    let m = compile_body(&vs, &body).unwrap();
    let inputs = vec![vec![0u32; 4]];
    assert_eq!(run_host(&m, &inputs, 1, 1), Err(RuntimeError::SubmissionFailed));
    // An input list that does not match the interface fails the same way.
    assert_eq!(run_host(&m, &Vec::new(), 1, 1), Err(RuntimeError::SubmissionFailed));
}

#[test]
fn iota_fills_the_identity_buffer() {
    let v = iota(5);
    assert_eq!(v, vec![0, 1, 2, 3, 4]);
    assert_eq!(invocation_count(256, 256), 65536);
    assert_eq!(invocation_count(u32::MAX, u32::MAX), (u32::MAX as u64) * (u32::MAX as u64));
}

#[test]
fn assembled_module_starts_with_the_header() {
    let vs = out_buffer_sig("linear");
    let body = linear_kernel_body(3);
    let m = compile_body(&vs, &body).unwrap();
    let words = assemble(&m);
    assert_eq!(words[0], MODULE_MAGIC);
    assert_eq!(words[1], MODULE_VERSION);
    assert_eq!(words[2], 0);
    assert_eq!(words[3], 0);
    assert_eq!(words[4], 0);
    // The capability instruction follows: word count 2, opcode 17,
    // operand 1 (compute).
    assert_eq!(words[5], (2 << 16) | 17);
    assert_eq!(words[6], 1);
    // The module ends with the compiled body; its last instruction is
    // the write to binding 0: word count 2, opcode 6, operand 0.
    assert_eq!(words[words.len() - 2], (2 << 16) | 6);
    assert_eq!(words[words.len() - 1], 0);
}

#[test]
fn entry_point_name_is_encoded_null_terminated() {
    let vs = out_buffer_sig("abcd");
    let m = compile_body(&vs, &Vec::new()).unwrap();
    let words = assemble(&m);
    // "abcd" packs little-endian into one word, the terminator pads a
    // second.
    let packed = u32::from_le_bytes([b'a', b'b', b'c', b'd']);
    assert!(words.contains(&packed));
    let pos = words.iter().position(|w| *w == packed).unwrap();
    assert_eq!(words[pos + 1], 0);
}

#[test]
fn vulkan_handle_reports_its_identity() {
    let v = Vulkan::new(2, 1, "main_kernel");
    assert_eq!(v.device_id(), 2);
    assert_eq!(v.device_type(), 1);
    assert_eq!(v.entry_point(), "main_kernel");
}

#[test]
fn build_module_compiles_and_assembles() {
    let v = Vulkan::new(0, 0, "linear");
    let vs = out_buffer_sig("linear");
    let body = linear_kernel_body(2);
    let words = v.build_module(&vs, &body).unwrap();
    assert_eq!(words[0], MODULE_MAGIC);
    let bad = vec![Stmt::DynLoop { location: 1 }];
    assert!(v.build_module(&vs, &bad).is_err());
}
