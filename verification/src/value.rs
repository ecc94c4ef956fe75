//! Owned handles for the values bound to a statement's placeholders.

use vstd::prelude::*;

verus! {

/// A value bound to one placeholder of a statement. The builder owns a copy
/// of each bound value, taken at the call that adds the filter, so a builder
/// never outlives data it refers to. The execution layer turns each variant
/// into the driver's bindable representation.
#[derive(Debug, PartialEq, Eq)]
pub enum Value {
    Int(i64),
    Text(String),
    Bool(bool),
    Null,
}

/// The mathematical shape of a bound value.
pub ghost enum ValueView {
    Int(int),
    Text(Seq<char>),
    Bool(bool),
    Null,
}

impl View for Value {
    type V = ValueView;

    open spec fn view(&self) -> ValueView {
        match self {
            Value::Int(i) => ValueView::Int(*i as int),
            Value::Text(s) => ValueView::Text(s@),
            Value::Bool(b) => ValueView::Bool(*b),
            Value::Null => ValueView::Null,
        }
    }
}

impl DeepView for Value {
    type V = ValueView;

    open spec fn deep_view(&self) -> ValueView {
        self.view()
    }
}

impl Clone for Value {
    fn clone(&self) -> (r: Self)
        ensures
            r == self,
    {
        match self {
            Value::Int(i) => Value::Int(*i),
            Value::Text(s) => Value::Text(s.clone()),
            Value::Bool(b) => Value::Bool(*b),
            Value::Null => Value::Null,
        }
    }
}

} // verus!
