//! Structured values of the wire format.
use vstd::prelude::*;

verus! {

/// The simple values of the wire format.
#[derive(Clone, Copy, Debug, PartialEq, Eq, Structural)]
pub enum SimpleValue {
    FalseValue,
    TrueValue,
    NullValue,
    Undefined,
}

/// A structured value, as it stands on the wire.
#[derive(Debug, PartialEq, Eq)]
pub enum Value {
    /// Unsigned integer.
    Unsigned(u64),
    /// Negative integer.
    Negative(i64),
    /// Byte string.
    ByteString(Vec<u8>),
    /// Text string.
    TextString(String),
    /// Array of values.
    Array(Vec<Value>),
    /// Map of key-value pairs, in the order in which they are written.
    Dict(Vec<(Value, Value)>),
    /// Tagged value.
    Tag(u64, Box<Value>),
    /// Simple value.
    Simple(SimpleValue),
}

/// What a [`Value`] holds.
pub enum ValueView {
    Unsigned(u64),
    Negative(i64),
    ByteString(Seq<u8>),
    TextString(Seq<char>),
    Array(Seq<ValueView>),
    Dict(Seq<(ValueView, ValueView)>),
    Tag(u64, Box<ValueView>),
    Simple(SimpleValue),
}

impl Value {
    /// What this value holds.
    pub open spec fn content(self) -> ValueView
        decreases self,
    {
        match self {
            Value::Unsigned(n) => ValueView::Unsigned(n),
            Value::Negative(n) => ValueView::Negative(n),
            Value::ByteString(b) => ValueView::ByteString(b@),
            Value::TextString(t) => ValueView::TextString(t@),
            Value::Array(items) => ValueView::Array(
                Seq::new(
                    items.len() as nat,
                    |i: int|
                        if 0 <= i < items.len() {
                            items[i].content()
                        } else {
                            ValueView::Simple(SimpleValue::Undefined)
                        },
                ),
            ),
            Value::Dict(pairs) => ValueView::Dict(
                Seq::new(
                    pairs.len() as nat,
                    |i: int|
                        if 0 <= i < pairs.len() {
                            (pairs[i].0.content(), pairs[i].1.content())
                        } else {
                            (
                                ValueView::Simple(SimpleValue::Undefined),
                                ValueView::Simple(SimpleValue::Undefined),
                            )
                        },
                ),
            ),
            Value::Tag(tag, inner) => ValueView::Tag(tag, Box::new((*inner).content())),
            Value::Simple(s) => ValueView::Simple(s),
        }
    }
}

impl View for Value {
    type V = ValueView;

    open spec fn view(&self) -> ValueView {
        self.content()
    }
}

} // verus!
