//! The struct validator: checks a candidate device-struct's fields
//! against the type classifier, accumulating one diagnostic per
//! offending field.

use vstd::prelude::*;
use crate::types::{name_set, spec_valid_type, is_valid_type};
use crate::diag::Diagnostic;
use crate::signature::{GenericParam, normalized_bindings, normalize_generics, bound_names};

verus! {

/// One field of a candidate device struct.
#[derive(Debug)]
pub struct FieldDecl {
    pub name: String,
    pub ty: crate::types::DeviceType,
}

/// A candidate device struct as handed over by host declaration
/// introspection: its name, its generic parameters, and its fields in
/// declaration order.
#[derive(Debug)]
pub struct StructDecl {
    pub name: String,
    pub generics: Vec<GenericParam>,
    pub fields: Vec<FieldDecl>,
}

/// Whether the classifier rejects field `f` under the given bindings.
pub open spec fn field_flagged(f: FieldDecl, bindings: Set<Seq<char>>) -> bool {
    !spec_valid_type(f.ty, bindings)
}

/// The diagnostic the validator emits for a rejected field of the
/// struct named `sname`.
pub open spec fn field_diag(sname: String, f: FieldDecl) -> Diagnostic {
    Diagnostic::InvalidFieldType { struct_name: sname, field_name: f.name, ty: f.ty }
}

/// The full diagnostic list for a candidate struct: one entry per
/// rejected field, in declaration order.  The generic bindings are the
/// declaration's generics after normalization (every generic carries
/// the primitive capability, added implicitly when absent).
pub open spec fn struct_diags_rec(
    sname: String,
    fs: Seq<FieldDecl>,
    bindings: Set<Seq<char>>,
) -> Seq<Diagnostic>
    decreases fs.len(),
{
    if fs.len() == 0 {
        Seq::<Diagnostic>::empty()
    } else {
        struct_diags_rec(sname, fs.drop_last(), bindings) + (if field_flagged(
            fs.last(),
            bindings,
        ) {
            seq![field_diag(sname, fs.last())]
        } else {
            Seq::<Diagnostic>::empty()
        })
    }
}

/// Everything the validator reports for a candidate struct.
pub open spec fn struct_diags(decl: StructDecl) -> Seq<Diagnostic> {
    struct_diags_rec(decl.name, decl.fields@, normalized_bindings(decl.generics@))
}

/// A struct declaration every field of which the validator accepted.
#[derive(Debug)]
pub struct ValidatedStruct {
    pub decl: StructDecl,
}

impl ValidatedStruct {
    /// What validation established: no diagnostic at all.
    pub open spec fn wf(&self) -> bool {
        struct_diags(self.decl).len() == 0
    }
}

/// The struct validator.  Every field is checked; nothing
/// short-circuits.  A struct with zero fields or zero generics is
/// trivially valid when all concrete fields pass.  Success is owed
/// exactly when every field's type passes the classifier under the
/// normalized generic bindings; on failure the full diagnostic list is
/// returned, never a subset.
pub fn validate_struct(decl: StructDecl) -> (r: Result<ValidatedStruct, Vec<Diagnostic>>)
    ensures
        match r {
            Ok(v) => struct_diags(decl).len() == 0 && v.decl == decl && v.wf(),
            Err(ds) => ds@ == struct_diags(decl) && struct_diags(decl).len() > 0,
        },
{
    let ghost bindings = normalized_bindings(decl.generics@);
    let norm = normalize_generics(&decl.generics);
    let names = bound_names(&norm);
    proof {
        assert(name_set(names@) =~= bindings);
    }

    let fs = &decl.fields;
    let mut diags: Vec<Diagnostic> = Vec::new();
    let mut i: usize = 0;
    while i < fs.len()
        invariant
            i <= fs.len(),
            name_set(names@) == bindings,
            diags@ == struct_diags_rec(decl.name, fs@.take(i as int), bindings),
        decreases fs.len() - i,
    {
        let f = &fs[i];
        proof {
            assert(fs@.take(i + 1).drop_last() =~= fs@.take(i as int));
            assert(fs@.take(i + 1).last() == fs@[i as int]);
        }
        if !is_valid_type(&f.ty, &names) {
            diags.push(Diagnostic::InvalidFieldType {
                struct_name: decl.name.clone(),
                field_name: f.name.clone(),
                ty: f.ty.deep_copy(),
            });
        }
        proof {
            assert(diags@ =~= struct_diags_rec(decl.name, fs@.take(i + 1), bindings));
        }
        i += 1;
    }
    proof {
        assert(fs@.take(fs@.len() as int) =~= fs@);
    }

    if diags.len() == 0 {
        Ok(ValidatedStruct { decl })
    } else {
        Err(diags)
    }
}

/// A rejected field always shows up in the diagnostics, named with its
/// struct.
pub proof fn lemma_invalid_field_reported(decl: StructDecl, i: int)
    requires
        0 <= i < decl.fields@.len(),
        field_flagged(decl.fields@[i], normalized_bindings(decl.generics@)),
    ensures
        struct_diags(decl).len() > 0,
        struct_diags(decl).contains(field_diag(decl.name, decl.fields@[i])),
{
    lemma_struct_diags_contains(decl.name, decl.fields@, normalized_bindings(decl.generics@), i);
}

proof fn lemma_struct_diags_contains(
    sname: String,
    fs: Seq<FieldDecl>,
    bindings: Set<Seq<char>>,
    i: int,
)
    requires
        0 <= i < fs.len(),
        field_flagged(fs[i], bindings),
    ensures
        struct_diags_rec(sname, fs, bindings).contains(field_diag(sname, fs[i])),
    decreases fs.len(),
{
    if i == fs.len() - 1 {
        let d = struct_diags_rec(sname, fs, bindings);
        assert(d[d.len() - 1] == field_diag(sname, fs[i]));
    } else {
        lemma_struct_diags_contains(sname, fs.drop_last(), bindings, i);
        let pre = struct_diags_rec(sname, fs.drop_last(), bindings);
        let k = choose|k: int| 0 <= k < pre.len() && pre[k] == field_diag(sname, fs[i]);
        assert(struct_diags_rec(sname, fs, bindings)[k] == field_diag(sname, fs[i]));
    }
}

/// The struct validator emits one diagnostic per rejected field.
pub proof fn lemma_invalid_field_diag_count(decl: StructDecl)
    ensures
        struct_diags(decl).len() == decl.fields@.filter(
            |f: FieldDecl| field_flagged(f, normalized_bindings(decl.generics@)),
        ).len(),
{
    lemma_struct_diags_len(decl.name, decl.fields@, normalized_bindings(decl.generics@));
}

proof fn lemma_struct_diags_len(sname: String, fs: Seq<FieldDecl>, bindings: Set<Seq<char>>)
    ensures
        struct_diags_rec(sname, fs, bindings).len() == fs.filter(
            |f: FieldDecl| field_flagged(f, bindings),
        ).len(),
    decreases fs.len(),
{
    let pred = |f: FieldDecl| field_flagged(f, bindings);
    if fs.len() == 0 {
        assert(fs.filter(pred) =~= Seq::<FieldDecl>::empty());
    } else {
        lemma_struct_diags_len(sname, fs.drop_last(), bindings);
        assert(fs =~= fs.drop_last().push(fs.last()));
        fs.drop_last().lemma_filter_len_push(pred, fs.last());
    }
}

} // verus!
