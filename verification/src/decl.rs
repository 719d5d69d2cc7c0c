//! The input of a generation pass: a namespace body made of type
//! declarations and behavior blocks.
//!
//! Every type here comes with a mathematical view in which names are
//! sequences of characters and lists are sequences. Contracts are stated over
//! these views.

use vstd::prelude::*;

verus! {

/// A field of a type declaration. Only visible fields are exposed.
#[derive(Clone, Debug, PartialEq, Eq)]
pub struct FieldDescriptor {
    pub name: String,
    pub visible: bool,
}

/// The view of a `FieldDescriptor`: names are sequences of characters, lists are sequences.
pub struct FieldDescriptorView {
    pub name: Seq<char>,
    pub visible: bool,
}

impl DeepView for FieldDescriptor {
    type V = FieldDescriptorView;

    open spec fn deep_view(&self) -> FieldDescriptorView {
        FieldDescriptorView { name: self.name@, visible: self.visible }
    }
}

/// One entry of an operation's full parameter list.
#[derive(Clone, Debug, PartialEq, Eq)]
pub enum Parameter {
    /// The implicit "current instance" parameter.
    Receiver { mutable: bool },
    /// A parameter bound to a plain name, with its type as written.
    Named { name: String, ty: String },
    /// A typed parameter that is bound by a pattern instead of a plain name.
    Pattern,
}

/// The view of a `Parameter`: names are sequences of characters, lists are sequences.
pub enum ParameterView {
    Receiver { mutable: bool },
    Named { name: Seq<char>, ty: Seq<char> },
    Pattern,
}

impl DeepView for Parameter {
    type V = ParameterView;

    open spec fn deep_view(&self) -> ParameterView {
        match *self {
            Parameter::Receiver { mutable } => ParameterView::Receiver { mutable },
            Parameter::Named { name, ty } => ParameterView::Named { name: name@, ty: ty@ },
            Parameter::Pattern => ParameterView::Pattern,
        }
    }
}

/// An operation declared in a behavior block.
#[derive(Clone, Debug, PartialEq, Eq)]
pub struct Operation {
    pub name: String,
    pub params: Vec<Parameter>,
}

/// The view of an `Operation`: names are sequences of characters, lists are sequences.
pub struct OperationView {
    pub name: Seq<char>,
    pub params: Seq<ParameterView>,
}

impl DeepView for Operation {
    type V = OperationView;

    open spec fn deep_view(&self) -> OperationView {
        OperationView { name: self.name@, params: self.params.deep_view() }
    }
}

/// A type declaration: a name and a field list.
#[derive(Clone, Debug, PartialEq, Eq)]
pub struct TypeDeclaration {
    pub name: String,
    pub fields: Vec<FieldDescriptor>,
}

/// The view of a `TypeDeclaration`: names are sequences of characters, lists are sequences.
pub struct TypeDeclarationView {
    pub name: Seq<char>,
    pub fields: Seq<FieldDescriptorView>,
}

impl DeepView for TypeDeclaration {
    type V = TypeDeclarationView;

    open spec fn deep_view(&self) -> TypeDeclarationView {
        TypeDeclarationView { name: self.name@, fields: self.fields.deep_view() }
    }
}

/// A behavior block: the operations declared against one target type.
#[derive(Clone, Debug, PartialEq, Eq)]
pub struct BehaviorBlock {
    pub target: String,
    pub operations: Vec<Operation>,
}

/// The view of a `BehaviorBlock`: names are sequences of characters, lists are sequences.
pub struct BehaviorBlockView {
    pub target: Seq<char>,
    pub operations: Seq<OperationView>,
}

impl DeepView for BehaviorBlock {
    type V = BehaviorBlockView;

    open spec fn deep_view(&self) -> BehaviorBlockView {
        BehaviorBlockView { target: self.target@, operations: self.operations.deep_view() }
    }
}

/// One declaration of a namespace body.
#[derive(Clone, Debug, PartialEq, Eq)]
pub enum Declaration {
    Type(TypeDeclaration),
    Behavior(BehaviorBlock),
    /// Anything else. It takes no part in binding generation.
    Other,
}

/// The view of a `Declaration`: names are sequences of characters, lists are sequences.
pub enum DeclarationView {
    Type(TypeDeclarationView),
    Behavior(BehaviorBlockView),
    Other,
}

impl DeepView for Declaration {
    type V = DeclarationView;

    open spec fn deep_view(&self) -> DeclarationView {
        match *self {
            Declaration::Type(t) => DeclarationView::Type(t.deep_view()),
            Declaration::Behavior(b) => DeclarationView::Behavior(b.deep_view()),
            Declaration::Other => DeclarationView::Other,
        }
    }
}

/// A namespace. A forward declaration has no body.
#[derive(Clone, Debug, PartialEq, Eq)]
pub struct Namespace {
    pub name: String,
    pub body: Option<Vec<Declaration>>,
}

/// The view of a `Namespace`: names are sequences of characters, lists are sequences.
pub struct NamespaceView {
    pub name: Seq<char>,
    pub body: Option<Seq<DeclarationView>>,
}

impl DeepView for Namespace {
    type V = NamespaceView;

    open spec fn deep_view(&self) -> NamespaceView {
        NamespaceView { name: self.name@, body: self.body.deep_view() }
    }
}

} // verus!
