//! Labels of wires and operations, and the signatures of operations.

use crate::table::NameTable;
use vstd::prelude::*;
use vstd::std_specs::convert::FromSpecImpl;

verus! {

/// The type label of a wire: not yet known, or a named type.
#[derive(Debug, PartialEq)]
pub enum HObject {
    Unknown,
    Named(String),
}

impl View for HObject {
    type V = Option<Seq<char>>;

    open spec fn view(&self) -> Option<Seq<char>> {
        match self {
            HObject::Unknown => None,
            HObject::Named(name) => Some(name@),
        }
    }
}

impl Clone for HObject {
    fn clone(&self) -> (copy: Self)
        ensures
            copy == *self,
    {
        match self {
            HObject::Unknown => HObject::Unknown,
            HObject::Named(name) => HObject::Named(name.clone()),
        }
    }
}

impl From<String> for HObject {
    fn from(name: String) -> (label: Self) {
        HObject::Named(name)
    }
}

impl FromSpecImpl<String> for HObject {
    open spec fn obeys_from_spec() -> bool {
        true
    }

    open spec fn from_spec(name: String) -> Self {
        HObject::Named(name)
    }
}

impl<'a> From<&'a str> for HObject {
    fn from(name: &'a str) -> (label: Self)
        ensures
            label@ == Some(name@),
    {
        HObject::Named(name.to_owned())
    }
}

/// What `from` gives for a `&str` is stated on `from` itself: a `String`
/// is known by its characters only, so no value can be named here.
impl<'a> FromSpecImpl<&'a str> for HObject {
    open spec fn obeys_from_spec() -> bool {
        false
    }

    open spec fn from_spec(name: &'a str) -> Self {
        HObject::Unknown
    }
}

/// A label as it is written: its type name, and `?` while it has none.
pub open spec fn label_text(label: Option<Seq<char>>) -> Seq<char> {
    match label {
        Some(name) => name,
        None => seq!['?'],
    }
}

/// The type name that a label holds; a label that holds none gives the
/// empty name.
pub open spec fn name_of(label: Option<Seq<char>>) -> Seq<char> {
    match label {
        Some(name) => name,
        None => Seq::empty(),
    }
}

impl HObject {
    /// The type name out of the label.
    pub fn into_name(self) -> (name: String)
        ensures
            name@ == name_of(self@),
    {
        match self {
            HObject::Named(name) => name,
            HObject::Unknown => String::new(),
        }
    }

    /// The label as it is written.
    pub fn to_string(&self) -> (text: String)
        ensures
            text@ == label_text(self@),
    {
        proof {
            reveal_strlit("?");
        }
        match self {
            HObject::Named(name) => name.clone(),
            HObject::Unknown => {
                let text = "?".to_owned();
                assert(text@ =~= seq!['?']);
                text
            },
        }
    }

    /// Whether two labels are the same label.
    pub fn same_as(&self, other: &HObject) -> (same: bool)
        ensures
            same == (self@ == other@),
    {
        match (self, other) {
            (HObject::Unknown, HObject::Unknown) => true,
            (HObject::Named(a), HObject::Named(b)) => *a == *b,
            _ => false,
        }
    }
}

/// The label of a hyperedge: the name of the operation it applies.
#[derive(Debug, PartialEq)]
pub struct HOperation(pub String);

impl View for HOperation {
    type V = Seq<char>;

    open spec fn view(&self) -> Seq<char> {
        self.0@
    }
}

impl From<String> for HOperation {
    fn from(name: String) -> (operation: Self) {
        HOperation(name)
    }
}

impl FromSpecImpl<String> for HOperation {
    open spec fn obeys_from_spec() -> bool {
        true
    }

    open spec fn from_spec(name: String) -> Self {
        HOperation(name)
    }
}

impl<'a> From<&'a str> for HOperation {
    fn from(name: &'a str) -> (operation: Self)
        ensures
            operation@ == name@,
    {
        HOperation(name.to_owned())
    }
}

/// What `from` gives for a `&str` is stated on `from` itself: a `String`
/// is known by its characters only, so no value can be named here.
impl<'a> FromSpecImpl<&'a str> for HOperation {
    open spec fn obeys_from_spec() -> bool {
        false
    }

    open spec fn from_spec(name: &'a str) -> Self {
        arbitrary()
    }
}

impl HOperation {
    /// The name of the operation.
    pub fn to_string(&self) -> (text: String)
        ensures
            text@ == self@,
    {
        self.0.clone()
    }
}

impl Clone for HOperation {
    fn clone(&self) -> (copy: Self)
        ensures
            copy == *self,
    {
        HOperation(self.0.clone())
    }
}

/// The arity and types of an operation: the types of its inputs and of its
/// outputs, in order.
#[derive(Debug)]
pub struct OperationSignature<O> {
    pub inputs: Vec<O>,
    pub outputs: Vec<O>,
}

impl<O: Clone> Clone for OperationSignature<O> {
    fn clone(&self) -> (copy: Self) {
        OperationSignature { inputs: self.inputs.clone(), outputs: self.outputs.clone() }
    }
}

impl<O> OperationSignature<O> {
    /// The signature with the given input and output types.
    pub fn new(inputs: Vec<O>, outputs: Vec<O>) -> (signature: Self)
        ensures
            signature.inputs == inputs,
            signature.outputs == outputs,
    {
        Self { inputs, outputs }
    }
}

/// The signatures of the operations that a diagram may use, by name.
pub type SignatureTable<O> = NameTable<OperationSignature<O>>;

} // verus!
