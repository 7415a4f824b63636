use rycl::diag::{ControlParam, Diagnostic};
use rycl::signature::{GenericParam, KernelSignature, Param, validate_signature};
use rycl::structs::{FieldDecl, StructDecl, validate_struct};
use rycl::types::{DeviceType, is_u32, is_valid_type};

fn param(name: &str, ty: DeviceType) -> Param {
    Param { name: String::from(name), ty }
}

fn control_params() -> Vec<Param> {
    vec![
        param("num_thread_blocks", DeviceType::U32),
        param("thread_block_size", DeviceType::U32),
    ]
}

fn signature(name: &str, generics: Vec<GenericParam>, params: Vec<Param>) -> KernelSignature {
    KernelSignature { name: String::from(name), generics, params }
}

#[test]
fn test_is_valid_type() {
    let generic_param_set: Vec<String> = Vec::new();
    let valid_type = DeviceType::U32;
    let invalid_type = DeviceType::Named(String::from("u64"));
    assert_eq!(is_valid_type(&valid_type, &generic_param_set), true);
    assert_eq!(is_valid_type(&invalid_type, &generic_param_set), false);
}

#[test]
fn test_kernels() {
    // A struct whose single field is an allowed primitive is accepted.
    let valid_struct = StructDecl {
        name: String::from("Test"),
        generics: vec![],
        fields: vec![FieldDecl { name: String::from("a"), ty: DeviceType::F32 }],
    };
    assert!(validate_struct(valid_struct).is_ok());

    // A struct with a disallowed field type is rejected.
    let invalid_struct = StructDecl {
        name: String::from("Test"),
        generics: vec![],
        fields: vec![FieldDecl { name: String::from("a"), ty: DeviceType::Named(String::from("f64")) }],
    };
    assert!(validate_struct(invalid_struct).is_err());

    // A kernel without the two control parameters is rejected.
    let missing_controls = signature(
        "test_kernel_func",
        vec![],
        vec![
            param("a", DeviceType::U32),
            param("b", DeviceType::I32),
            param("thread_block_num", DeviceType::U32),
        ],
    );
    let diags = validate_signature(missing_controls).unwrap_err();
    assert!(diags.contains(&Diagnostic::MissingControlParam(ControlParam::ThreadBlockCount)));
    assert!(diags.contains(&Diagnostic::MissingControlParam(ControlParam::ThreadBlockSize)));

    // A kernel argument of a concrete struct type (not a bound generic)
    // is rejected.
    let mut args = vec![
        param("a", DeviceType::U32),
        param("b", DeviceType::I32),
        param("t", DeviceType::Named(String::from("Test"))),
    ];
    args.extend(control_params());
    let bad_arg = signature("test_kernel_func", vec![], args);
    let diags = validate_signature(bad_arg).unwrap_err();
    assert_eq!(diags.len(), 1);
    assert_eq!(
        diags[0],
        Diagnostic::InvalidArgumentType {
            name: String::from("t"),
            ty: DeviceType::Named(String::from("Test")),
        }
    );

    // A kernel taking `t: T` for a declared generic `T` is accepted,
    // with no explicit bound on `T`.
    let mut args = vec![
        param("a", DeviceType::U32),
        param("b", DeviceType::I32),
        param("t", DeviceType::Generic(String::from("T"))),
    ];
    args.extend(control_params());
    let generic_ok = signature(
        "test_kernel_func",
        vec![GenericParam { name: String::from("T"), has_marker: false }],
        args,
    );
    assert!(validate_signature(generic_ok).is_ok());

    // The same kernel over a generic the declaration does not bind is
    // rejected.
    let mut args = vec![param("t", DeviceType::Generic(String::from("U")))];
    args.extend(control_params());
    let generic_bad = signature("test_kernel_func", vec![], args);
    assert!(validate_signature(generic_bad).is_err());
}

#[test]
fn missing_thread_block_count_is_diagnosed() {
    let sig = signature(
        "k",
        vec![],
        vec![param("a", DeviceType::U32), param("thread_block_size", DeviceType::U32)],
    );
    let diags = validate_signature(sig).unwrap_err();
    assert_eq!(diags, vec![Diagnostic::MissingControlParam(ControlParam::ThreadBlockCount)]);
}

#[test]
fn missing_thread_block_size_is_diagnosed() {
    let sig = signature(
        "k",
        vec![],
        vec![param("num_thread_blocks", DeviceType::U32), param("a", DeviceType::I32)],
    );
    let diags = validate_signature(sig).unwrap_err();
    assert_eq!(diags, vec![Diagnostic::MissingControlParam(ControlParam::ThreadBlockSize)]);
}

#[test]
fn control_param_with_wrong_type_counts_as_missing() {
    let mut params = vec![param("num_thread_blocks", DeviceType::I32)];
    params.push(param("thread_block_size", DeviceType::U32));
    let sig = signature("k", vec![], params);
    let diags = validate_signature(sig).unwrap_err();
    assert!(diags.contains(&Diagnostic::MissingControlParam(ControlParam::ThreadBlockCount)));
}

#[test]
fn two_bad_arguments_give_exactly_two_diagnostics() {
    let mut args = vec![
        param("x", DeviceType::Named(String::from("String"))),
        param("y", DeviceType::Named(String::from("f64"))),
        param("ok", DeviceType::Array(Box::new(DeviceType::F32))),
    ];
    args.extend(control_params());
    let sig = signature("k", vec![], args);
    let diags = validate_signature(sig).unwrap_err();
    assert_eq!(diags.len(), 2);
    assert!(matches!(diags[0], Diagnostic::InvalidArgumentType { .. }));
    assert!(matches!(diags[1], Diagnostic::InvalidArgumentType { .. }));
}

#[test]
fn struct_with_u32_and_f32_fields_validates() {
    let decl = StructDecl {
        name: String::from("Pair"),
        generics: vec![],
        fields: vec![
            FieldDecl { name: String::from("a"), ty: DeviceType::U32 },
            FieldDecl { name: String::from("b"), ty: DeviceType::F32 },
        ],
    };
    assert!(validate_struct(decl).is_ok());
}

#[test]
fn struct_with_f64_field_fails_naming_the_field() {
    let decl = StructDecl {
        name: String::from("Pair"),
        generics: vec![],
        fields: vec![
            FieldDecl { name: String::from("a"), ty: DeviceType::U32 },
            FieldDecl { name: String::from("b"), ty: DeviceType::Named(String::from("f64")) },
        ],
    };
    let diags = validate_struct(decl).unwrap_err();
    assert_eq!(diags.len(), 1);
    assert_eq!(
        diags[0],
        Diagnostic::InvalidFieldType {
            struct_name: String::from("Pair"),
            field_name: String::from("b"),
            ty: DeviceType::Named(String::from("f64")),
        }
    );
}

#[test]
fn struct_with_no_fields_is_trivially_valid() {
    let decl = StructDecl { name: String::from("Unit"), generics: vec![], fields: vec![] };
    assert!(validate_struct(decl).is_ok());
}

#[test]
fn struct_generic_field_bound_automatically() {
    let decl = StructDecl {
        name: String::from("Wrap"),
        generics: vec![GenericParam { name: String::from("T"), has_marker: false }],
        fields: vec![FieldDecl { name: String::from("inner"), ty: DeviceType::Generic(String::from("T")) }],
    };
    assert!(validate_struct(decl).is_ok());
}

#[test]
fn nested_array_of_primitive_is_valid() {
    let ty = DeviceType::Array(Box::new(DeviceType::Array(Box::new(DeviceType::I32))));
    assert!(is_valid_type(&ty, &Vec::new()));
    let bad = DeviceType::Array(Box::new(DeviceType::Named(String::from("bool"))));
    assert!(!is_valid_type(&bad, &Vec::new()));
}

#[test]
fn is_u32_accepts_only_u32() {
    assert!(is_u32(&DeviceType::U32));
    assert!(!is_u32(&DeviceType::I32));
    assert!(!is_u32(&DeviceType::F32));
}

struct DevPoint {
    _a: u32,
}

impl rycl::markers::DeviceStructMarker for DevPoint {}

fn crosses_boundary<T: rycl::markers::DeviceStructMarker>(_t: &T) {}

fn is_primitive<T: rycl::markers::Primitive>(_t: T) {}

struct Trivial;

impl rycl::markers::KernelFn for Trivial {
    fn execute(&self) {}
}

#[test]
fn marker_traits_gate_the_boundary() {
    // A validated device struct carries the marker and instantiates a
    // capability-bound generic.
    crosses_boundary(&DevPoint { _a: 1 });
    // The allowed integer primitives carry the primitive capability.
    is_primitive(1u32);
    is_primitive(-1i32);
    // A kernel marker implementation is invocable.
    rycl::markers::KernelFn::execute(&Trivial);
}

#[test]
fn roles_follow_name_and_type() {
    assert_eq!(rycl::signature::role_of(&param("num_thread_blocks", DeviceType::U32)), rycl::signature::Role::ThreadBlockCount);
    assert_eq!(rycl::signature::role_of(&param("thread_block_size", DeviceType::U32)), rycl::signature::Role::ThreadBlockSize);
    assert_eq!(rycl::signature::role_of(&param("num_thread_blocks", DeviceType::I32)), rycl::signature::Role::DeviceArg);
    assert_eq!(rycl::signature::role_of(&param("data", DeviceType::U32)), rycl::signature::Role::DeviceArg);
}

#[test]
fn validated_signature_exposes_device_arg_types() {
    let mut args = vec![
        param("xs", DeviceType::Array(Box::new(DeviceType::U32))),
        param("y", DeviceType::I32),
    ];
    args.extend(control_params());
    let vs = validate_signature(signature("k", vec![], args)).unwrap();
    let tys = vs.device_arg_types();
    assert_eq!(tys, vec![DeviceType::Array(Box::new(DeviceType::U32)), DeviceType::I32]);
}
