//! The signature validator: checks a candidate kernel function's
//! parameter list against the type classifier and the control-parameter
//! contract, accumulating every diagnostic before deciding.

use vstd::prelude::*;
use vstd::string::StringExecFns;
use crate::types::{DeviceType, name_set, spec_valid_type, is_valid_type, is_u32};
use crate::diag::{ControlParam, Diagnostic};

verus! {

/// One parameter of a candidate kernel signature.
#[derive(Debug)]
pub struct Param {
    pub name: String,
    pub ty: DeviceType,
}

/// One generic type parameter of a candidate kernel declaration.
/// `has_marker` records whether the author wrote the device-capability
/// bound explicitly; the validator binds it implicitly when absent.
#[derive(Debug)]
pub struct GenericParam {
    pub name: String,
    pub has_marker: bool,
}

/// A candidate kernel signature as handed over by host declaration
/// introspection: the kernel's name, its generic parameters, and its
/// value parameters in declaration order.
#[derive(Debug)]
pub struct KernelSignature {
    pub name: String,
    pub generics: Vec<GenericParam>,
    pub params: Vec<Param>,
}

/// The role a parameter plays in a validated signature.
#[derive(Clone, Copy, Debug, PartialEq, Eq, Structural)]
pub enum Role {
    /// An ordinary argument that crosses the host/device boundary and
    /// receives a buffer binding.
    DeviceArg,
    /// The `num_thread_blocks: u32` control parameter.
    ThreadBlockCount,
    /// The `thread_block_size: u32` control parameter.
    ThreadBlockSize,
}

/// Whether `p` is the workgroup-count control parameter.
pub open spec fn is_thread_block_count_param(p: Param) -> bool {
    p.name@ == "num_thread_blocks"@ && p.ty is U32
}

/// Whether `p` is the group-size control parameter.
pub open spec fn is_thread_block_size_param(p: Param) -> bool {
    p.name@ == "thread_block_size"@ && p.ty is U32
}

/// Whether `p` is one of the two control parameters.
pub open spec fn is_control_param(p: Param) -> bool {
    is_thread_block_count_param(p) || is_thread_block_size_param(p)
}

/// The role of a parameter, determined by its name and type alone.
pub open spec fn spec_role(p: Param) -> Role {
    if is_thread_block_count_param(p) {
        Role::ThreadBlockCount
    } else if is_thread_block_size_param(p) {
        Role::ThreadBlockSize
    } else {
        Role::DeviceArg
    }
}

pub open spec fn has_thread_block_count(ps: Seq<Param>) -> bool {
    exists|i: int| 0 <= i < ps.len() && is_thread_block_count_param(ps[i])
}

pub open spec fn has_thread_block_size(ps: Seq<Param>) -> bool {
    exists|i: int| 0 <= i < ps.len() && is_thread_block_size_param(ps[i])
}

/// The generic parameters that carry the device capability after the
/// validator's normalization: every declared generic, whether or not the
/// author wrote the bound, because the validator adds a missing bound
/// itself (a normalization, not a check).
pub open spec fn normalized_bindings(gs: Seq<GenericParam>) -> Set<Seq<char>> {
    Set::new(|n: Seq<char>| exists|i: int| 0 <= i < gs.len() && gs[i].name@ == n)
}

/// Whether the classifier rejects `p` as a device argument.
pub open spec fn flagged(p: Param, bindings: Set<Seq<char>>) -> bool {
    !is_control_param(p) && !spec_valid_type(p.ty, bindings)
}

/// The diagnostic the validator emits for a rejected device argument.
pub open spec fn arg_diag(p: Param) -> Diagnostic {
    Diagnostic::InvalidArgumentType { name: p.name, ty: p.ty }
}

/// The control-parameter diagnostics of a parameter list: one per absent
/// control parameter, workgroup count first.
pub open spec fn missing_diags(ps: Seq<Param>) -> Seq<Diagnostic> {
    (if has_thread_block_count(ps) {
        Seq::<Diagnostic>::empty()
    } else {
        seq![Diagnostic::MissingControlParam(ControlParam::ThreadBlockCount)]
    }) + (if has_thread_block_size(ps) {
        Seq::<Diagnostic>::empty()
    } else {
        seq![Diagnostic::MissingControlParam(ControlParam::ThreadBlockSize)]
    })
}

/// The classifier diagnostics of a parameter list, one per rejected
/// device argument, in declaration order.
pub open spec fn arg_diags(ps: Seq<Param>, bindings: Set<Seq<char>>) -> Seq<Diagnostic>
    decreases ps.len(),
{
    if ps.len() == 0 {
        Seq::<Diagnostic>::empty()
    } else {
        arg_diags(ps.drop_last(), bindings) + (if flagged(ps.last(), bindings) {
            seq![arg_diag(ps.last())]
        } else {
            Seq::<Diagnostic>::empty()
        })
    }
}

/// Everything the validator reports for a candidate signature: the full
/// diagnostic list, never a subset, missing-control diagnostics first
/// and classifier diagnostics in declaration order after them.
pub open spec fn signature_diags(sig: KernelSignature) -> Seq<Diagnostic> {
    missing_diags(sig.params@) + arg_diags(sig.params@, normalized_bindings(sig.generics@))
}

/// The device arguments of a parameter list, in declaration order; the
/// ordinal of a parameter here is its buffer binding index.
pub open spec fn device_args(ps: Seq<Param>) -> Seq<Param>
    decreases ps.len(),
{
    if ps.len() == 0 {
        Seq::<Param>::empty()
    } else {
        device_args(ps.drop_last()) + (if is_control_param(ps.last()) {
            Seq::<Param>::empty()
        } else {
            seq![ps.last()]
        })
    }
}

/// A signature every part of which the validator accepted.
#[derive(Debug)]
pub struct ValidatedSignature {
    pub sig: KernelSignature,
}

impl ValidatedSignature {
    /// What validation established: no diagnostic at all.
    pub open spec fn wf(&self) -> bool {
        signature_diags(self.sig).len() == 0
    }

    /// The device-argument types in declaration order; index `i` of the
    /// result is the type bound at buffer binding `i`.
    pub fn device_arg_types(&self) -> (r: Vec<DeviceType>)
        ensures
            r@.len() == device_args(self.sig.params@).len(),
            forall|k: int|
                0 <= k < r@.len() ==> r@[k] == device_args(self.sig.params@)[k].ty,
    {
        let ps = &self.sig.params;
        let mut r: Vec<DeviceType> = Vec::new();
        let mut i: usize = 0;
        while i < ps.len()
            invariant
                i <= ps.len(),
                r@.len() == device_args(ps@.take(i as int)).len(),
                forall|k: int|
                    0 <= k < r@.len() ==> r@[k] == device_args(ps@.take(i as int))[k].ty,
            decreases ps.len() - i,
        {
            let p = &ps[i];
            proof {
                assert(ps@.take(i + 1).drop_last() =~= ps@.take(i as int));
                assert(ps@.take(i + 1).last() == ps@[i as int]);
            }
            if !is_control(p) {
                r.push(p.ty.deep_copy());
            }
            i += 1;
        }
        proof {
            assert(ps@.take(ps@.len() as int) =~= ps@);
        }
        r
    }
}

/// Whether `s` denotes the same text as `lit`.
fn name_is(s: &String, lit: &str) -> (r: bool)
    ensures
        r == (s@ == lit@),
{
    *s == lit.to_owned()
}

/// The role of a parameter.
pub fn role_of(p: &Param) -> (r: Role)
    ensures
        r == spec_role(*p),
{
    if name_is(&p.name, "num_thread_blocks") && is_u32(&p.ty) {
        Role::ThreadBlockCount
    } else if name_is(&p.name, "thread_block_size") && is_u32(&p.ty) {
        Role::ThreadBlockSize
    } else {
        Role::DeviceArg
    }
}

/// The normalization of a declaration's generic parameters: any generic
/// lacking the device capability bound receives it.  This emits no
/// diagnostic.
pub fn normalize_generics(gs: &Vec<GenericParam>) -> (r: Vec<GenericParam>)
    ensures
        r@.len() == gs@.len(),
        forall|i: int| 0 <= i < r@.len() ==> r@[i].name == gs@[i].name && r@[i].has_marker,
{
    let mut r: Vec<GenericParam> = Vec::new();
    let mut i: usize = 0;
    while i < gs.len()
        invariant
            i <= gs.len(),
            r@.len() == i,
            forall|j: int| 0 <= j < i ==> r@[j].name == gs@[j].name && r@[j].has_marker,
        decreases gs.len() - i,
    {
        r.push(GenericParam { name: gs[i].name.clone(), has_marker: true });
        i += 1;
    }
    r
}

/// The names of the generics that carry the capability.  After
/// `normalize_generics` this is every declared generic's name.
pub fn bound_names(gs: &Vec<GenericParam>) -> (r: Vec<String>)
    ensures
        name_set(r@) == Set::new(
            |n: Seq<char>|
                exists|i: int| 0 <= i < gs@.len() && gs@[i].has_marker && gs@[i].name@ == n,
        ),
{
    let mut r: Vec<String> = Vec::new();
    let mut i: usize = 0;
    while i < gs.len()
        invariant
            i <= gs.len(),
            forall|n: Seq<char>|
                #[trigger] name_set(r@).contains(n) <==> exists|j: int|
                    0 <= j < i && gs@[j].has_marker && gs@[j].name@ == n,
        decreases gs.len() - i,
    {
        let ghost r0 = r@;
        if gs[i].has_marker {
            r.push(gs[i].name.clone());
        }
        proof {
            assert forall|n: Seq<char>| #[trigger] name_set(r@).contains(n) implies exists|j: int|
                0 <= j < i + 1 && gs@[j].has_marker && gs@[j].name@ == n by {
                let k = choose|k: int| 0 <= k < r@.len() && r@[k]@ == n;
                if k < r0.len() {
                    assert(r0[k]@ == n);
                    assert(name_set(r0).contains(n));
                } else {
                    assert(gs@[i as int].has_marker && gs@[i as int].name@ == n);
                }
            }
            assert forall|n: Seq<char>| (exists|j: int|
                0 <= j < i + 1 && gs@[j].has_marker && gs@[j].name@ == n) implies #[trigger] name_set(
                r@,
            ).contains(n) by {
                let j = choose|j: int| 0 <= j < i + 1 && gs@[j].has_marker && gs@[j].name@ == n;
                if j < i {
                    assert(name_set(r0).contains(n));
                    let k = choose|k: int| 0 <= k < r0.len() && r0[k]@ == n;
                    assert(r@[k]@ == n);
                } else {
                    assert(r@[r@.len() - 1]@ == n);
                }
            }
        }
        i += 1;
    }
    proof {
        assert(name_set(r@) =~= Set::new(
            |n: Seq<char>|
                exists|i: int| 0 <= i < gs@.len() && gs@[i].has_marker && gs@[i].name@ == n,
        ));
    }
    r
}

/// Whether `p` is a control parameter.
fn is_control(p: &Param) -> (r: bool)
    ensures
        r == is_control_param(*p),
{
    (name_is(&p.name, "num_thread_blocks") && is_u32(&p.ty)) || (name_is(
        &p.name,
        "thread_block_size",
    ) && is_u32(&p.ty))
}

/// The signature validator.  Every check runs; nothing short-circuits.
/// Success is owed exactly when no diagnostic arises: both control
/// parameters are present and every other parameter's type passes the
/// classifier under the normalized generic bindings.  On failure the
/// full diagnostic list is returned, never a subset.
pub fn validate_signature(sig: KernelSignature) -> (r: Result<ValidatedSignature, Vec<Diagnostic>>)
    ensures
        match r {
            Ok(v) => signature_diags(sig).len() == 0 && v.sig == sig && v.wf(),
            Err(ds) => ds@ == signature_diags(sig) && signature_diags(sig).len() > 0,
        },
{
    let ghost bindings = normalized_bindings(sig.generics@);
    let norm = normalize_generics(&sig.generics);
    let names = bound_names(&norm);
    proof {
        assert(name_set(names@) =~= bindings);
    }

    let ps = &sig.params;
    let mut has_count = false;
    let mut has_size = false;
    let mut i: usize = 0;
    while i < ps.len()
        invariant
            i <= ps.len(),
            has_count == has_thread_block_count(ps@.take(i as int)),
            has_size == has_thread_block_size(ps@.take(i as int)),
        decreases ps.len() - i,
    {
        let p = &ps[i];
        proof {
            assert(ps@.take(i + 1)[i as int] == ps@[i as int]);
            assert(forall|j: int| 0 <= j < i ==> ps@.take(i + 1)[j] == ps@.take(i as int)[j]);
        }
        if name_is(&p.name, "num_thread_blocks") && is_u32(&p.ty) {
            has_count = true;
        }
        if name_is(&p.name, "thread_block_size") && is_u32(&p.ty) {
            has_size = true;
        }
        proof {
            if !has_count {
                assert(forall|j: int|
                    0 <= j < i + 1 ==> !is_thread_block_count_param(#[trigger] ps@.take(i + 1)[j]));
            }
            if !has_size {
                assert(forall|j: int|
                    0 <= j < i + 1 ==> !is_thread_block_size_param(#[trigger] ps@.take(i + 1)[j]));
            }
        }
        i += 1;
    }
    proof {
        assert(ps@.take(ps@.len() as int) =~= ps@);
    }

    let mut diags: Vec<Diagnostic> = Vec::new();
    if !has_count {
        diags.push(Diagnostic::MissingControlParam(ControlParam::ThreadBlockCount));
    }
    if !has_size {
        diags.push(Diagnostic::MissingControlParam(ControlParam::ThreadBlockSize));
    }
    proof {
        assert(diags@ =~= missing_diags(ps@));
    }

    let mut i: usize = 0;
    while i < ps.len()
        invariant
            i <= ps.len(),
            name_set(names@) == bindings,
            diags@ == missing_diags(ps@) + arg_diags(ps@.take(i as int), bindings),
        decreases ps.len() - i,
    {
        let p = &ps[i];
        proof {
            assert(ps@.take(i + 1).drop_last() =~= ps@.take(i as int));
            assert(ps@.take(i + 1).last() == ps@[i as int]);
        }
        if !is_control(p) && !is_valid_type(&p.ty, &names) {
            diags.push(Diagnostic::InvalidArgumentType {
                name: p.name.clone(),
                ty: p.ty.deep_copy(),
            });
        }
        proof {
            assert(diags@ =~= missing_diags(ps@) + arg_diags(ps@.take(i + 1), bindings));
        }
        i += 1;
    }
    proof {
        assert(ps@.take(ps@.len() as int) =~= ps@);
    }

    if diags.len() == 0 {
        Ok(ValidatedSignature { sig })
    } else {
        Err(diags)
    }
}

/// A signature that lacks the workgroup-count control parameter is
/// rejected, and its diagnostic list names that parameter.
pub proof fn lemma_missing_thread_block_count(sig: KernelSignature)
    requires
        !has_thread_block_count(sig.params@),
    ensures
        signature_diags(sig).len() > 0,
        signature_diags(sig).contains(
            Diagnostic::MissingControlParam(ControlParam::ThreadBlockCount),
        ),
{
    assert(signature_diags(sig)[0] == Diagnostic::MissingControlParam(
        ControlParam::ThreadBlockCount,
    ));
}

/// A signature that lacks the group-size control parameter is rejected,
/// and its diagnostic list names that parameter.
pub proof fn lemma_missing_thread_block_size(sig: KernelSignature)
    requires
        !has_thread_block_size(sig.params@),
    ensures
        signature_diags(sig).len() > 0,
        signature_diags(sig).contains(
            Diagnostic::MissingControlParam(ControlParam::ThreadBlockSize),
        ),
{
    let ms = missing_diags(sig.params@);
    if has_thread_block_count(sig.params@) {
        assert(signature_diags(sig)[0] == Diagnostic::MissingControlParam(
            ControlParam::ThreadBlockSize,
        ));
    } else {
        assert(signature_diags(sig)[1] == Diagnostic::MissingControlParam(
            ControlParam::ThreadBlockSize,
        ));
    }
}

/// Every classifier diagnostic is an `InvalidArgumentType`.
proof fn lemma_arg_diags_all_invalid_arg(ps: Seq<Param>, bindings: Set<Seq<char>>)
    ensures
        forall|j: int|
            0 <= j < arg_diags(ps, bindings).len() ==> arg_diags(ps, bindings)[j]
                is InvalidArgumentType,
    decreases ps.len(),
{
    if ps.len() > 0 {
        lemma_arg_diags_all_invalid_arg(ps.drop_last(), bindings);
    }
}

/// The classifier emits one diagnostic per rejected device argument.
proof fn lemma_arg_diags_len(ps: Seq<Param>, bindings: Set<Seq<char>>)
    ensures
        arg_diags(ps, bindings).len() == ps.filter(|p: Param| flagged(p, bindings)).len(),
    decreases ps.len(),
{
    let pred = |p: Param| flagged(p, bindings);
    if ps.len() == 0 {
        assert(ps.filter(pred) =~= Seq::<Param>::empty());
    } else {
        lemma_arg_diags_len(ps.drop_last(), bindings);
        assert(ps =~= ps.drop_last().push(ps.last()));
        ps.drop_last().lemma_filter_len_push(pred, ps.last());
    }
}

/// A signature with `k` arguments of disallowed type fails validation
/// with exactly `k` `InvalidArgumentType` diagnostics: one per rejected
/// argument, no more and no fewer.
pub proof fn lemma_invalid_argument_diag_count(sig: KernelSignature)
    ensures
        signature_diags(sig).filter(|d: Diagnostic| d is InvalidArgumentType).len()
            == sig.params@.filter(
            |p: Param| flagged(p, normalized_bindings(sig.generics@)),
        ).len(),
{
    let bindings = normalized_bindings(sig.generics@);
    let isia = |d: Diagnostic| d is InvalidArgumentType;
    let ms = missing_diags(sig.params@);
    let ads = arg_diags(sig.params@, bindings);
    Seq::<Diagnostic>::filter_distributes_over_add(ms, ads, isia);
    ms.lemma_all_neg_filter_empty(isia);
    lemma_arg_diags_all_invalid_arg(sig.params@, bindings);
    lemma_filter_all_pos_len(ads, isia);
    lemma_arg_diags_len(sig.params@, bindings);
}

/// A filter that keeps every element keeps the length.
proof fn lemma_filter_all_pos_len<A>(s: Seq<A>, pred: spec_fn(A) -> bool)
    requires
        forall|j: int| 0 <= j < s.len() ==> pred(s[j]),
    ensures
        s.filter(pred).len() == s.len(),
    decreases s.len(),
{
    if s.len() == 0 {
        assert(s.filter(pred) =~= Seq::<A>::empty());
    } else {
        lemma_filter_all_pos_len(s.drop_last(), pred);
        assert(s =~= s.drop_last().push(s.last()));
        s.drop_last().lemma_filter_len_push(pred, s.last());
    }
}

/// A parameter whose type is a declared generic of the kernel is never
/// rejected, even when the author wrote no capability bound on that
/// generic: the validator binds the capability itself before
/// classifying.
pub proof fn lemma_generic_bound_automatically(sig: KernelSignature, i: int, j: int)
    requires
        0 <= i < sig.params@.len(),
        0 <= j < sig.generics@.len(),
        sig.params@[i].ty == DeviceType::Generic(sig.generics@[j].name),
    ensures
        !flagged(sig.params@[i], normalized_bindings(sig.generics@)),
{
    assert(normalized_bindings(sig.generics@).contains(sig.generics@[j].name@));
}

/// A rejected device argument always shows up in the diagnostics.
proof fn lemma_arg_diags_contains(ps: Seq<Param>, bindings: Set<Seq<char>>, i: int)
    requires
        0 <= i < ps.len(),
        flagged(ps[i], bindings),
    ensures
        arg_diags(ps, bindings).contains(arg_diag(ps[i])),
    decreases ps.len(),
{
    if i == ps.len() - 1 {
        let d = arg_diags(ps, bindings);
        assert(d[d.len() - 1] == arg_diag(ps[i]));
    } else {
        lemma_arg_diags_contains(ps.drop_last(), bindings, i);
        let pre = arg_diags(ps.drop_last(), bindings);
        let k = choose|k: int| 0 <= k < pre.len() && pre[k] == arg_diag(ps[i]);
        assert(arg_diags(ps, bindings)[k] == arg_diag(ps[i]));
    }
}

/// A parameter of a concrete named type — one not instantiating a
/// capability-bound generic — is rejected, and the diagnostics name it.
pub proof fn lemma_concrete_named_param_rejected(sig: KernelSignature, i: int)
    requires
        0 <= i < sig.params@.len(),
        sig.params@[i].ty is Named,
    ensures
        signature_diags(sig).len() > 0,
        signature_diags(sig).contains(arg_diag(sig.params@[i])),
{
    let bindings = normalized_bindings(sig.generics@);
    lemma_arg_diags_contains(sig.params@, bindings, i);
    let ads = arg_diags(sig.params@, bindings);
    let ms = missing_diags(sig.params@);
    let k = choose|k: int| 0 <= k < ads.len() && ads[k] == arg_diag(sig.params@[i]);
    assert(signature_diags(sig)[ms.len() + k] == arg_diag(sig.params@[i]));
}

} // verus!
