//! Mapping of an operation's parameter list onto the arguments of its
//! generated call site.

use vstd::prelude::*;
use crate::classify::ReceiverKind;
use crate::decl::{Parameter, ParameterView};

verus! {

/// A parameter of a generated call site.
#[derive(Clone, Debug, PartialEq, Eq)]
pub struct ParamDescriptor {
    pub name: String,
    pub ty: String,
}

/// The view of a `ParamDescriptor`: names are sequences of characters, lists are sequences.
pub struct ParamDescriptorView {
    pub name: Seq<char>,
    pub ty: Seq<char>,
}

impl DeepView for ParamDescriptor {
    type V = ParamDescriptorView;

    open spec fn deep_view(&self) -> ParamDescriptorView {
        ParamDescriptorView { name: self.name@, ty: self.ty@ }
    }
}

/// The parameters of a generated call site.
#[derive(Clone, Debug, PartialEq, Eq)]
pub enum ParameterList {
    /// The call site accepts any number of incoming values and discards them.
    Wildcard,
    /// The call site matches incoming values to these parameters by position.
    /// The list is never empty.
    Positional(Vec<ParamDescriptor>),
}

/// The view of a `ParameterList`: names are sequences of characters, lists are sequences.
pub enum ParameterListView {
    Wildcard,
    Positional(Seq<ParamDescriptorView>),
}

impl DeepView for ParameterList {
    type V = ParameterListView;

    open spec fn deep_view(&self) -> ParameterListView {
        match *self {
            ParameterList::Wildcard => ParameterListView::Wildcard,
            ParameterList::Positional(params) => ParameterListView::Positional(params.deep_view()),
        }
    }
}

impl ParameterListView {
    /// A positional list names at least one parameter.
    pub open spec fn wf(self) -> bool {
        self matches ParameterListView::Positional(params) ==> params.len() > 0
    }

    /// The number of incoming values that the call site hands on.
    pub open spec fn arity(self) -> nat {
        match self {
            ParameterListView::Wildcard => 0,
            ParameterListView::Positional(params) => params.len(),
        }
    }
}

impl ParamDescriptor {
    /// A copy of this descriptor.
    pub fn duplicate(&self) -> (copy: ParamDescriptor)
        ensures
            copy.deep_view() == self.deep_view(),
    {
        ParamDescriptor { name: self.name.clone(), ty: self.ty.clone() }
    }
}

impl ParameterList {
    /// A copy of this list.
    pub fn duplicate(&self) -> (copy: ParameterList)
        ensures
            copy.deep_view() == self.deep_view(),
    {
        match self {
            ParameterList::Wildcard => ParameterList::Wildcard,
            ParameterList::Positional(params) => {
                let mut copies: Vec<ParamDescriptor> = Vec::new();
                let mut i: usize = 0;
                while i < params.len()
                    invariant
                        i <= params.len(),
                        copies.len() == i,
                        forall|j: int|
                            0 <= j < i ==> (#[trigger] copies[j]).deep_view()
                                == params[j].deep_view(),
                    decreases params.len() - i,
                {
                    copies.push(params[i].duplicate());
                    i += 1;
                }
                assert(copies.deep_view() =~= params.deep_view());
                ParameterList::Positional(copies)
            },
        }
    }
}

/// What a parameter contributes to a call site: a named parameter gives its
/// name and type, any other entry nothing.
pub open spec fn named_parameter(param: ParameterView) -> Option<ParamDescriptorView> {
    match param {
        ParameterView::Named { name, ty } => Some(ParamDescriptorView { name, ty }),
        _ => None,
    }
}

/// The named parameters of a list, in declaration order.
pub open spec fn named_parameters(params: Seq<ParameterView>) -> Seq<ParamDescriptorView> {
    params.filter_map(|p: ParameterView| named_parameter(p))
}

/// The entries that follow the receiver: all of them where there is none.
pub open spec fn after_receiver(params: Seq<ParameterView>, receiver: ReceiverKind) -> Seq<
    ParameterView,
> {
    if receiver != ReceiverKind::Absent && params.len() > 0 {
        params.skip(1)
    } else {
        params
    }
}

/// The call-site parameters of an operation: the named parameters after the
/// receiver, or the wildcard where there are none.
pub open spec fn spec_map_parameters(
    params: Seq<ParameterView>,
    receiver: ReceiverKind,
) -> ParameterListView {
    let named = named_parameters(after_receiver(params, receiver));
    if named.len() == 0 {
        ParameterListView::Wildcard
    } else {
        ParameterListView::Positional(named)
    }
}

/// Maps an operation's full parameter list. The first entry is skipped where
/// the operation has a receiver; what remains keeps its order.
pub fn map_parameters(params: &Vec<Parameter>, receiver: ReceiverKind) -> (list: ParameterList)
    ensures
        list.deep_view() == spec_map_parameters(params.deep_view(), receiver),
        list.deep_view().wf(),
{
    let start: usize = match receiver {
        ReceiverKind::Absent => 0,
        _ => if params.len() > 0 {
            1
        } else {
            0
        },
    };
    let ghost rest = after_receiver(params.deep_view(), receiver);
    let ghost pick = |p: ParameterView| named_parameter(p);
    assert(rest =~= params.deep_view().skip(start as int));
    let mut named: Vec<ParamDescriptor> = Vec::new();
    let mut i: usize = start;
    assert(rest.take(0).filter_map(pick) =~= Seq::<ParamDescriptorView>::empty());
    while i < params.len()
        invariant
            start <= i <= params.len(),
            rest == params.deep_view().skip(start as int),
            pick == |p: ParameterView| named_parameter(p),
            named.deep_view() == rest.take(i - start).filter_map(pick),
        decreases params.len() - i,
    {
        proof {
            rest.lemma_filter_map_take_succ(pick, i - start);
            assert(rest[i - start] == params[i as int].deep_view());
        }
        let ghost before = named.deep_view();
        match &params[i] {
            Parameter::Named { name, ty } => {
                let descriptor = ParamDescriptor { name: name.clone(), ty: ty.clone() };
                named.push(descriptor);
                assert(named.deep_view() =~= before + seq![descriptor.deep_view()]);
            },
            _ => {},
        }
        i += 1;
    }
    assert(rest.take(i - start) =~= rest);
    if named.len() == 0 {
        ParameterList::Wildcard
    } else {
        ParameterList::Positional(named)
    }
}

} // verus!
