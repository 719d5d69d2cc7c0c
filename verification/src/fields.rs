//! Accessor synthesis for the fields of a type declaration.

use vstd::prelude::*;
use crate::binding::{FieldAccessor, FieldAccessorView};
use crate::decl::{FieldDescriptor, FieldDescriptorView};

verus! {

/// The accessor pair of a field: one for a visible field, none for a hidden
/// one.
pub open spec fn field_accessor(field: FieldDescriptorView) -> Option<FieldAccessorView> {
    if field.visible {
        Some(FieldAccessorView { name: field.name })
    } else {
        None
    }
}

/// The accessor pairs of a field list: those of its visible fields, in
/// declaration order.
pub open spec fn spec_synthesize_fields(fields: Seq<FieldDescriptorView>) -> Seq<
    FieldAccessorView,
> {
    fields.filter_map(|f: FieldDescriptorView| field_accessor(f))
}

/// Derives one accessor pair for every visible field. Hidden fields are
/// skipped.
pub fn synthesize_fields(fields: &Vec<FieldDescriptor>) -> (accessors: Vec<FieldAccessor>)
    ensures
        accessors.deep_view() == spec_synthesize_fields(fields.deep_view()),
{
    let ghost all = fields.deep_view();
    let ghost pick = |f: FieldDescriptorView| field_accessor(f);
    let mut accessors: Vec<FieldAccessor> = Vec::new();
    let mut i: usize = 0;
    assert(all.take(0).filter_map(pick) =~= Seq::<FieldAccessorView>::empty());
    while i < fields.len()
        invariant
            i <= fields.len(),
            all == fields.deep_view(),
            pick == |f: FieldDescriptorView| field_accessor(f),
            accessors.deep_view() == all.take(i as int).filter_map(pick),
        decreases fields.len() - i,
    {
        proof {
            all.lemma_filter_map_take_succ(pick, i as int);
            assert(all[i as int] == fields[i as int].deep_view());
        }
        let ghost before = accessors.deep_view();
        if fields[i].visible {
            let accessor = FieldAccessor { name: fields[i].name.clone() };
            accessors.push(accessor);
            assert(accessors.deep_view() =~= before + seq![accessor.deep_view()]);
        }
        i += 1;
    }
    assert(all.take(i as int) =~= all);
    accessors
}

} // verus!
