//! The values that the variables of a story hold.

use crate::error::NarrativeError;
use vstd::prelude::*;

verus! {

/// The value of a story variable. A variable keeps the type that the script
/// declared it with.
#[derive(Debug, Clone, PartialEq, Eq)]
pub enum Value {
    Bool(bool),
    /// A decimal number, held as the bit pattern of its single-precision
    /// form. This library reads such a value and hands it on, and leaves
    /// the arithmetic to others.
    Float(u32),
    Int(i32),
    String(String),
    /// An address of a place in the story or of another variable.
    Address,
    /// A divert target.
    Divert,
}

/// A `Value` as contracts see it.
pub enum ValueView {
    Bool(bool),
    Float(u32),
    Int(i32),
    String(Seq<char>),
    Address,
    Divert,
}

impl ValueView {
    /// Whether the two values are of one type.
    pub open spec fn same_type(self, other: ValueView) -> bool {
        ||| self is Bool && other is Bool
        ||| self is Float && other is Float
        ||| self is Int && other is Int
        ||| self is String && other is String
        ||| self is Address && other is Address
        ||| self is Divert && other is Divert
    }

    /// Whether this library can make the value for the interpreter, and so
    /// assign it.
    pub open spec fn assignable(self) -> bool {
        self is Bool || self is Int || self is String
    }
}

/// What reading the variable `name` gives.
pub open spec fn lookup(variables: Map<Seq<char>, ValueView>, name: Seq<char>) -> Result<
    ValueView,
    NarrativeError,
> {
    if variables.contains_key(name) {
        Ok(variables[name])
    } else {
        Err(NarrativeError::UnknownVariable)
    }
}

/// What assigning `value` to the variable `name` gives: the variables after
/// it, or the reason for which they stay as they are. A variable takes only
/// values of its own type.
pub open spec fn assignment(
    variables: Map<Seq<char>, ValueView>,
    name: Seq<char>,
    value: ValueView,
) -> Result<Map<Seq<char>, ValueView>, NarrativeError> {
    if !variables.contains_key(name) {
        Err(NarrativeError::UnknownVariable)
    } else if !variables[name].same_type(value) {
        Err(NarrativeError::TypeMismatch)
    } else if !value.assignable() {
        Err(NarrativeError::Unsupported)
    } else {
        Ok(variables.insert(name, value))
    }
}

/// What assigning a value of the interpreter's own to the variable `name`
/// gives. Such a value need not be one that this library can make.
pub open spec fn outside_assignment(
    variables: Map<Seq<char>, ValueView>,
    name: Seq<char>,
    value: ValueView,
) -> Result<Map<Seq<char>, ValueView>, NarrativeError> {
    if !variables.contains_key(name) {
        Err(NarrativeError::UnknownVariable)
    } else if !variables[name].same_type(value) {
        Err(NarrativeError::TypeMismatch)
    } else {
        Ok(variables.insert(name, value))
    }
}

/// Whether `after` has the variables of `before`, each of the type that it
/// had.
pub open spec fn same_types(
    before: Map<Seq<char>, ValueView>,
    after: Map<Seq<char>, ValueView>,
) -> bool {
    &&& after.dom() == before.dom()
    &&& forall|name: Seq<char>| #[trigger]
        before.contains_key(name) ==> after[name].same_type(before[name])
}

/// A value of the variable's type that was assigned is the value that is
/// read afterwards.
pub proof fn lemma_assigned_value_is_read(
    variables: Map<Seq<char>, ValueView>,
    name: Seq<char>,
    value: ValueView,
)
    requires
        variables.contains_key(name),
        variables[name].same_type(value),
        value.assignable(),
    ensures
        assignment(variables, name, value) is Ok,
        lookup(assignment(variables, name, value)->Ok_0, name) == Ok::<ValueView, NarrativeError>(
            value,
        ),
{
}

/// A value of the interpreter's own that was assigned is, as far as this
/// library sees it, the value that is read afterwards.
pub proof fn lemma_outside_value_is_read(
    variables: Map<Seq<char>, ValueView>,
    name: Seq<char>,
    value: ValueView,
)
    requires
        variables.contains_key(name),
        variables[name].same_type(value),
    ensures
        outside_assignment(variables, name, value) is Ok,
        lookup(outside_assignment(variables, name, value)->Ok_0, name) == Ok::<
            ValueView,
            NarrativeError,
        >(value),
{
}

/// A value of another type than the variable's is refused as a mismatch.
pub proof fn lemma_other_type_is_refused(
    variables: Map<Seq<char>, ValueView>,
    name: Seq<char>,
    value: ValueView,
)
    requires
        variables.contains_key(name),
        !variables[name].same_type(value),
    ensures
        assignment(variables, name, value) is Err,
        assignment(variables, name, value)->Err_0 is TypeMismatch,
        outside_assignment(variables, name, value) is Err,
        outside_assignment(variables, name, value)->Err_0 is TypeMismatch,
{
}

/// No assignment brings a variable, takes one away or changes the type of
/// one.
pub proof fn lemma_assignment_keeps_types(
    variables: Map<Seq<char>, ValueView>,
    name: Seq<char>,
    value: ValueView,
)
    ensures
        assignment(variables, name, value) matches Ok(after) ==> same_types(variables, after),
        outside_assignment(variables, name, value) matches Ok(after) ==> same_types(
            variables,
            after,
        ),
{
    if let Ok(after) = outside_assignment(variables, name, value) {
        assert(after.dom() =~= variables.dom());
    }
}

impl View for Value {
    type V = ValueView;

    open spec fn view(&self) -> ValueView {
        match self {
            Value::Bool(b) => ValueView::Bool(*b),
            Value::Float(bits) => ValueView::Float(*bits),
            Value::Int(i) => ValueView::Int(*i),
            Value::String(s) => ValueView::String(s@),
            Value::Address => ValueView::Address,
            Value::Divert => ValueView::Divert,
        }
    }
}

impl Value {
    pub fn same_type(&self, other: &Value) -> (r: bool)
        ensures
            r == self@.same_type(other@),
    {
        match (self, other) {
            (Value::Bool(_), Value::Bool(_)) => true,
            (Value::Float(_), Value::Float(_)) => true,
            (Value::Int(_), Value::Int(_)) => true,
            (Value::String(_), Value::String(_)) => true,
            (Value::Address, Value::Address) => true,
            (Value::Divert, Value::Divert) => true,
            _ => false,
        }
    }

    /// A copy of the value.
    pub fn duplicate(&self) -> (r: Value)
        ensures
            r@ == self@,
    {
        match self {
            Value::Bool(b) => Value::Bool(*b),
            Value::Float(bits) => Value::Float(*bits),
            Value::Int(i) => Value::Int(*i),
            Value::String(s) => Value::String(s.clone()),
            Value::Address => Value::Address,
            Value::Divert => Value::Divert,
        }
    }
}

} // verus!
