//! Collection of a namespace body into one binding set per declared type.

use vstd::prelude::*;
use crate::behavior::{
    classify_block,
    function_bindings,
    lemma_bindings_of_operations_wf,
    method_bindings,
    property_bindings,
    spec_bind_operation,
    spec_classify_block,
};
use crate::binding::{BindingSet, BindingSetView, lemma_empty_extend, lemma_extend_empty};
use crate::decl::{Declaration, DeclarationView, FieldDescriptorView, OperationView};
use crate::fields::{field_accessor, spec_synthesize_fields, synthesize_fields};
use crate::names::same_name;
use crate::sequences::{lemma_filter_map_concat, lemma_flat_map_member};

verus! {

/// What one declaration contributes, and to which type. A type declaration
/// contributes the accessors of its visible fields, a behavior block the
/// descriptors of its operations, anything else nothing.
pub open spec fn contribution(decl: DeclarationView) -> Option<BindingSetView> {
    match decl {
        DeclarationView::Type(t) => Some(
            BindingSetView {
                owner: t.name,
                fields: spec_synthesize_fields(t.fields),
                properties: Seq::empty(),
                methods: Seq::empty(),
                functions: Seq::empty(),
            },
        ),
        DeclarationView::Behavior(b) => Some(spec_classify_block(b)),
        DeclarationView::Other => None,
    }
}

/// Whether a declaration names the type `owner`.
pub open spec fn names_type(decl: DeclarationView, owner: Seq<char>) -> bool {
    contribution(decl) matches Some(c) && c.owner == owner
}

/// What a declaration contributes to the type `owner`: nothing unless it
/// names that type.
pub open spec fn contribution_to(decl: DeclarationView, owner: Seq<char>) -> BindingSetView {
    if names_type(decl, owner) {
        contribution(decl)->0
    } else {
        BindingSetView::empty(owner)
    }
}

/// The fields that a declaration lists for the type `owner`: those of a type
/// declaration of that name.
pub open spec fn declared_fields(decl: DeclarationView, owner: Seq<char>) -> Seq<
    FieldDescriptorView,
> {
    match decl {
        DeclarationView::Type(t) => if t.name == owner {
            t.fields
        } else {
            Seq::empty()
        },
        _ => Seq::empty(),
    }
}

/// The operations that a declaration declares for the type `owner`: those of
/// a behavior block with that target.
pub open spec fn declared_operations(decl: DeclarationView, owner: Seq<char>) -> Seq<
    OperationView,
> {
    match decl {
        DeclarationView::Behavior(b) => if b.target == owner {
            b.operations
        } else {
            Seq::empty()
        },
        _ => Seq::empty(),
    }
}

/// The fields that the type declarations of `owner` list, in declaration
/// order.
pub open spec fn fields_of(decls: Seq<DeclarationView>, owner: Seq<char>) -> Seq<
    FieldDescriptorView,
> {
    decls.flat_map(|decl: DeclarationView| declared_fields(decl, owner))
}

/// The operations that the behavior blocks of `owner` declare, in
/// declaration order.
pub open spec fn operations_of(decls: Seq<DeclarationView>, owner: Seq<char>) -> Seq<
    OperationView,
> {
    decls.flat_map(|decl: DeclarationView| declared_operations(decl, owner))
}

/// The binding set of the type `owner`: the accessor pairs of the visible
/// fields that its type declarations list and the descriptors of the
/// operations that its behavior blocks declare, in declaration order, and
/// nothing else.
pub open spec fn bindings_of(decls: Seq<DeclarationView>, owner: Seq<char>) -> BindingSetView {
    BindingSetView {
        owner,
        fields: spec_synthesize_fields(fields_of(decls, owner)),
        properties: property_bindings(operations_of(decls, owner)),
        methods: method_bindings(operations_of(decls, owner)),
        functions: function_bindings(operations_of(decls, owner)),
    }
}

/// A field of a type declaration is among the fields of its type.
pub proof fn lemma_declared_field(decls: Seq<DeclarationView>, i: int, j: int) -> (k: int)
    requires
        0 <= i < decls.len(),
        decls[i] is Type,
        0 <= j < decls[i]->Type_0.fields.len(),
    ensures
        0 <= k < fields_of(decls, decls[i]->Type_0.name).len(),
        fields_of(decls, decls[i]->Type_0.name)[k] == decls[i]->Type_0.fields[j],
{
    let owner = decls[i]->Type_0.name;
    lemma_flat_map_member(decls, |decl: DeclarationView| declared_fields(decl, owner), i, j)
}

/// An operation of a behavior block is among the operations of the block's
/// target.
pub proof fn lemma_declared_operation(decls: Seq<DeclarationView>, i: int, j: int) -> (k: int)
    requires
        0 <= i < decls.len(),
        decls[i] is Behavior,
        0 <= j < decls[i]->Behavior_0.operations.len(),
    ensures
        0 <= k < operations_of(decls, decls[i]->Behavior_0.target).len(),
        operations_of(decls, decls[i]->Behavior_0.target)[k] == decls[i]->Behavior_0.operations[j],
{
    let owner = decls[i]->Behavior_0.target;
    lemma_flat_map_member(decls, |decl: DeclarationView| declared_operations(decl, owner), i, j)
}

/// Every descriptor of a type's binding set is well formed.
pub proof fn lemma_bindings_wf(decls: Seq<DeclarationView>, owner: Seq<char>)
    ensures
        bindings_of(decls, owner).wf(),
{
    lemma_bindings_of_operations_wf(operations_of(decls, owner));
}

/// A binding set is built by extension: with one more declaration in the
/// body, the set of a type is what it was, extended by what the declaration
/// contributes to that type. Nothing that was bound is replaced or lost.
pub proof fn lemma_bindings_grow(
    decls: Seq<DeclarationView>,
    decl: DeclarationView,
    owner: Seq<char>,
)
    ensures
        bindings_of(decls.push(decl), owner) == bindings_of(decls, owner).extend(
            contribution_to(decl, owner),
        ),
        bindings_of(decls, owner).fields.is_prefix_of(bindings_of(decls.push(decl), owner).fields),
        bindings_of(decls, owner).properties.is_prefix_of(
            bindings_of(decls.push(decl), owner).properties,
        ),
        bindings_of(decls, owner).methods.is_prefix_of(
            bindings_of(decls.push(decl), owner).methods,
        ),
        bindings_of(decls, owner).functions.is_prefix_of(
            bindings_of(decls.push(decl), owner).functions,
        ),
{
    let pick_field = |f: FieldDescriptorView| field_accessor(f);
    let pick_property = |op: OperationView| spec_bind_operation(op).property();
    let pick_method = |op: OperationView| spec_bind_operation(op).method();
    let pick_function = |op: OperationView| spec_bind_operation(op).function();
    let fields = fields_of(decls, owner);
    let ops = operations_of(decls, owner);
    let more_fields = declared_fields(decl, owner);
    let more_ops = declared_operations(decl, owner);
    let added = contribution_to(decl, owner);
    decls.lemma_flat_map_push(|d: DeclarationView| declared_fields(d, owner), decl);
    decls.lemma_flat_map_push(|d: DeclarationView| declared_operations(d, owner), decl);
    lemma_filter_map_concat(fields, more_fields, pick_field);
    lemma_filter_map_concat(ops, more_ops, pick_property);
    lemma_filter_map_concat(ops, more_ops, pick_method);
    lemma_filter_map_concat(ops, more_ops, pick_function);
    assert(added.fields =~= more_fields.filter_map(pick_field));
    assert(added.properties =~= more_ops.filter_map(pick_property));
    assert(added.methods =~= more_ops.filter_map(pick_method));
    assert(added.functions =~= more_ops.filter_map(pick_function));
    let before = bindings_of(decls, owner);
    let after = bindings_of(decls.push(decl), owner);
    assert(before.fields =~= after.fields.subrange(0, before.fields.len() as int));
    assert(before.properties =~= after.properties.subrange(0, before.properties.len() as int));
    assert(before.methods =~= after.methods.subrange(0, before.methods.len() as int));
    assert(before.functions =~= after.functions.subrange(0, before.functions.len() as int));
}

/// The types that the declarations name, each once, in the order in which
/// they are first named.
pub open spec fn declared_types(decls: Seq<DeclarationView>) -> Seq<Seq<char>>
    decreases decls.len(),
{
    if decls.len() == 0 {
        Seq::empty()
    } else {
        let earlier = declared_types(decls.drop_last());
        match contribution(decls.last()) {
            Some(c) => if earlier.contains(c.owner) {
                earlier
            } else {
                earlier.push(c.owner)
            },
            None => earlier,
        }
    }
}

/// The binding sets of a namespace body: one per declared type, in the order
/// in which the types are first named.
pub open spec fn spec_collect(decls: Seq<DeclarationView>) -> Seq<BindingSetView> {
    declared_types(decls).map_values(|owner: Seq<char>| bindings_of(decls, owner))
}

/// The owners of a list of binding sets are pairwise different.
pub open spec fn distinct_owners(sets: Seq<BindingSetView>) -> bool {
    forall|i: int, j: int|
        0 <= i < sets.len() && 0 <= j < sets.len() && i != j ==> sets[i].owner != sets[j].owner
}

/// No type is listed twice.
pub proof fn lemma_declared_types_distinct(decls: Seq<DeclarationView>)
    ensures
        declared_types(decls).no_duplicates(),
    decreases decls.len(),
{
    if decls.len() > 0 {
        lemma_declared_types_distinct(decls.drop_last());
    }
}

/// A type is listed exactly when some declaration names it.
pub proof fn lemma_declared_types_contains(decls: Seq<DeclarationView>, owner: Seq<char>)
    ensures
        declared_types(decls).contains(owner) <==> exists|i: int|
            0 <= i < decls.len() && names_type(#[trigger] decls[i], owner),
    decreases decls.len(),
{
    if decls.len() > 0 {
        let earlier = decls.drop_last();
        lemma_declared_types_contains(earlier, owner);
        let types = declared_types(decls);
        let before = declared_types(earlier);
        if types.contains(owner) {
            if before.contains(owner) {
                let i = choose|i: int| 0 <= i < earlier.len() && names_type(#[trigger] earlier[i], owner);
                assert(names_type(decls[i], owner));
            } else {
                let k = choose|k: int| 0 <= k < types.len() && types[k] == owner;
                if k < before.len() {
                    assert(before[k] == owner);
                }
                assert(names_type(decls[decls.len() - 1], owner));
            }
        }
        if exists|i: int| 0 <= i < decls.len() && names_type(#[trigger] decls[i], owner) {
            let i = choose|i: int| 0 <= i < decls.len() && names_type(#[trigger] decls[i], owner);
            if i < earlier.len() {
                assert(names_type(earlier[i], owner));
                let k = choose|k: int| 0 <= k < before.len() && before[k] == owner;
                assert(types[k] == owner);
            } else {
                if before.contains(owner) {
                } else {
                    assert(types == before.push(owner));
                    assert(types[before.len() as int] == owner);
                }
            }
        }
    }
}

/// A binding set is empty until a declaration names its type.
pub proof fn lemma_bindings_of_unnamed(decls: Seq<DeclarationView>, owner: Seq<char>)
    requires
        !declared_types(decls).contains(owner),
    ensures
        bindings_of(decls, owner) == BindingSetView::empty(owner),
    decreases decls.len(),
{
    if decls.len() == 0 {
        assert(fields_of(decls, owner) =~= Seq::empty());
        assert(operations_of(decls, owner) =~= Seq::empty());
        assert(bindings_of(decls, owner).fields =~= Seq::empty());
        assert(bindings_of(decls, owner).properties =~= Seq::empty());
        assert(bindings_of(decls, owner).methods =~= Seq::empty());
        assert(bindings_of(decls, owner).functions =~= Seq::empty());
    } else {
        let earlier = decls.drop_last();
        assert(earlier.push(decls.last()) =~= decls);
        lemma_declared_types_contains(decls, owner);
        lemma_declared_types_contains(earlier, owner);
        if declared_types(earlier).contains(owner) {
            let i = choose|i: int| 0 <= i < earlier.len() && names_type(#[trigger] earlier[i], owner);
            assert(names_type(decls[i], owner));
        }
        assert(!names_type(decls[decls.len() - 1], owner));
        lemma_bindings_of_unnamed(earlier, owner);
        lemma_bindings_grow(earlier, decls.last(), owner);
        lemma_extend_empty(bindings_of(earlier, owner), owner);
    }
}

/// The sets of a collected body carry pairwise different owners: the
/// declared types, in order.
pub proof fn lemma_collect_owners(decls: Seq<DeclarationView>)
    ensures
        spec_collect(decls).len() == declared_types(decls).len(),
        forall|i: int|
            0 <= i < declared_types(decls).len() ==> (#[trigger] spec_collect(decls)[i]).owner
                == declared_types(decls)[i],
        distinct_owners(spec_collect(decls)),
{
    lemma_declared_types_distinct(decls);
    let types = declared_types(decls);
}

/// The sets of a body with one more declaration: the new declaration's
/// contribution is merged into the set of the type it names, or filed as a
/// new set behind the others where that type was not named before.
pub open spec fn absorb(sets: Seq<BindingSetView>, decl: DeclarationView) -> Seq<BindingSetView> {
    match contribution(decl) {
        None => sets,
        Some(c) => {
            if exists|k: int| 0 <= k < sets.len() && (#[trigger] sets[k]).owner == c.owner {
                let k = choose|k: int| 0 <= k < sets.len() && (#[trigger] sets[k]).owner == c.owner;
                sets.update(k, sets[k].extend(c))
            } else {
                sets.push(c)
            }
        },
    }
}

/// Collecting a body declaration by declaration gives the same sets as
/// collecting it whole.
pub proof fn lemma_collect_push(decls: Seq<DeclarationView>, decl: DeclarationView)
    ensures
        spec_collect(decls.push(decl)) == absorb(spec_collect(decls), decl),
{
    let longer = decls.push(decl);
    assert(longer.drop_last() =~= decls);
    assert(longer.last() == decl);
    let types = declared_types(decls);
    let sets = spec_collect(decls);
    lemma_collect_owners(decls);
    lemma_declared_types_distinct(decls);
    match contribution(decl) {
        None => {
            assert forall|i: int| 0 <= i < types.len() implies bindings_of(longer, types[i])
                == bindings_of(decls, types[i]) by {
                lemma_bindings_grow(decls, decl, types[i]);
                lemma_extend_empty(bindings_of(decls, types[i]), types[i]);
            }
            assert(spec_collect(longer) =~= sets);
        },
        Some(c) => {
            if exists|k: int| 0 <= k < sets.len() && (#[trigger] sets[k]).owner == c.owner {
                let k = choose|k: int| 0 <= k < sets.len() && (#[trigger] sets[k]).owner == c.owner;
                assert(types[k] == c.owner);
                assert(types.contains(c.owner));
                assert(declared_types(longer) == types);
                assert forall|i: int| 0 <= i < types.len() implies (#[trigger] spec_collect(
                    longer,
                )[i]) == sets.update(k, sets[k].extend(c))[i] by {
                    lemma_bindings_grow(decls, decl, types[i]);
                    if i != k {
                        assert(types[i] != c.owner);
                        lemma_extend_empty(bindings_of(decls, types[i]), types[i]);
                    }
                }
                assert(spec_collect(longer) =~= sets.update(k, sets[k].extend(c)));
            } else {
                if types.contains(c.owner) {
                    let k = choose|k: int| 0 <= k < types.len() && types[k] == c.owner;
                    assert(sets[k].owner == c.owner);
                }
                assert(declared_types(longer) == types.push(c.owner));
                lemma_bindings_of_unnamed(decls, c.owner);
                lemma_bindings_grow(decls, decl, c.owner);
                lemma_empty_extend(c);
                assert forall|i: int| 0 <= i < types.len() implies (#[trigger] spec_collect(
                    longer,
                )[i]) == sets[i] by {
                    assert(types[i] != c.owner);
                    lemma_bindings_grow(decls, decl, types[i]);
                    lemma_extend_empty(bindings_of(decls, types[i]), types[i]);
                }
                assert(spec_collect(longer) =~= sets.push(c));
            }
        },
    }
}

/// The position of the set filed under `owner`, if there is one.
pub fn find_owner(sets: &Vec<BindingSet>, owner: &String) -> (position: Option<usize>)
    ensures
        position matches Some(k) ==> k < sets.len() && sets[k as int].owner@ == owner@ && forall|
            j: int,
        | 0 <= j < k ==> sets[j].owner@ != owner@,
        position is None ==> forall|j: int| 0 <= j < sets.len() ==> sets[j].owner@ != owner@,
{
    let mut k: usize = 0;
    while k < sets.len()
        invariant
            k <= sets.len(),
            forall|j: int| 0 <= j < k ==> sets[j].owner@ != owner@,
        decreases sets.len() - k,
    {
        if same_name(&sets[k].owner, owner) {
            return Some(k);
        }
        k += 1;
    }
    None
}

/// The contribution of one declaration, if it has any.
pub fn contribute(decl: &Declaration) -> (set: Option<BindingSet>)
    ensures
        set.deep_view() == contribution(decl.deep_view()),
{
    match decl {
        Declaration::Type(t) => {
            let fields = synthesize_fields(&t.fields);
            let mut set = BindingSet::new(t.name.clone());
            set.fields = fields;
            Some(set)
        },
        Declaration::Behavior(b) => Some(classify_block(b)),
        Declaration::Other => None,
    }
}

/// Walks the declarations in order and groups what they contribute by type
/// name. A set is created when its type is first named and only grows after
/// that; declarations that are neither type declarations nor behavior blocks
/// leave the sets as they are.
pub fn collect(decls: &Vec<Declaration>) -> (sets: Vec<BindingSet>)
    ensures
        sets.deep_view() == spec_collect(decls.deep_view()),
        distinct_owners(sets.deep_view()),
        forall|i: int| 0 <= i < sets.len() ==> (#[trigger] sets.deep_view()[i]).wf(),
{
    let ghost all = decls.deep_view();
    let mut sets: Vec<BindingSet> = Vec::new();
    let mut i: usize = 0;
    assert(all.take(0) =~= Seq::empty());
    assert(sets.deep_view() =~= spec_collect(all.take(0)));
    while i < decls.len()
        invariant
            i <= decls.len(),
            all == decls.deep_view(),
            sets.deep_view() == spec_collect(all.take(i as int)),
        decreases decls.len() - i,
    {
        let ghost seen = all.take(i as int);
        let ghost before = sets.deep_view();
        proof {
            assert(all.take(i + 1) =~= seen.push(all[i as int]));
            assert(all[i as int] == decls[i as int].deep_view());
            lemma_collect_push(seen, all[i as int]);
            lemma_collect_owners(seen);
        }
        match contribute(&decls[i]) {
            None => {},
            Some(c) => {
                match find_owner(&sets, &c.owner) {
                    Some(k) => {
                        assert(before[k as int].owner == c.owner@);
                        let ghost chosen = choose|k: int|
                            0 <= k < before.len() && (#[trigger] before[k]).owner == c.owner@;
                        assert(chosen == k);
                        let ghost added = c.deep_view();
                        sets[k].extend(c);
                        assert(sets.deep_view() =~= before.update(
                            k as int,
                            before[k as int].extend(added),
                        ));
                    },
                    None => {
                        assert(forall|k: int|
                            0 <= k < before.len() ==> (#[trigger] before[k]).owner != c.owner@);
                        let ghost added = c.deep_view();
                        sets.push(c);
                        assert(sets.deep_view() =~= before.push(added));
                    },
                }
            },
        }
        i += 1;
    }
    proof {
        assert(all.take(i as int) =~= all);
        lemma_collect_owners(all);
        assert forall|i: int| 0 <= i < sets.len() implies (#[trigger] sets.deep_view()[i]).wf() by {
            lemma_bindings_wf(all, declared_types(all)[i]);
        }
    }
    sets
}

} // verus!
