//! The tree of plain values that a recording is made of.
//!
//! The text form of a tree is not dealt with here: a reader hands the tree over, a writer takes it.
use crate::arithmetic::{whole, whole_of};
use crate::quantity::Quantity;
use crate::text::same_text;
use vstd::prelude::*;

verus! {

/// A number of a recording, as far as its readers look at it: what it is as an unsigned integer, and
/// what it is as a finite single-precision quantity. A reading the number does not have is `None`.
#[derive(Clone, Copy, Debug, PartialEq, Eq, Structural)]
pub struct Number {
    pub unsigned: Option<u32>,
    pub single: Option<Quantity>,
}

/// A value of a recording.
#[derive(Debug, PartialEq, Eq)]
pub enum Value {
    Null,
    Bool(bool),
    Number(Number),
    String(String),
    Array(Vec<Value>),
    Object(Vec<(String, Value)>),
}

/// A value of a recording, with texts and lists as mathematical sequences.
pub ghost enum ValueView {
    Null,
    Bool(bool),
    Number(Number),
    Text(Seq<char>),
    Array(Seq<ValueView>),
    Object(Seq<(Seq<char>, ValueView)>),
}

/// The views of a list of values, in order.
pub open spec fn values_view(values: Seq<Value>) -> Seq<ValueView>
    decreases values,
{
    Seq::new(
        values.len(),
        |i: int|
            if 0 <= i < values.len() {
                value_view(values[i])
            } else {
                ValueView::Null
            },
    )
}

/// The views of a list of fields, in order.
pub open spec fn fields_view(fields: Seq<(String, Value)>) -> Seq<(Seq<char>, ValueView)>
    decreases fields,
{
    Seq::new(
        fields.len(),
        |i: int|
            if 0 <= i < fields.len() {
                (fields[i].0@, value_view(fields[i].1))
            } else {
                (Seq::empty(), ValueView::Null)
            },
    )
}

/// The view of a value.
pub open spec fn value_view(value: Value) -> ValueView
    decreases value,
{
    match value {
        Value::Null => ValueView::Null,
        Value::Bool(b) => ValueView::Bool(b),
        Value::Number(n) => ValueView::Number(n),
        Value::String(s) => ValueView::Text(s@),
        Value::Array(items) => ValueView::Array(values_view(items@)),
        Value::Object(fields) => ValueView::Object(fields_view(fields@)),
    }
}

impl View for Value {
    type V = ValueView;

    open spec fn view(&self) -> ValueView {
        value_view(*self)
    }
}

/// The value of the first of the fields that has the name `key`.
pub open spec fn field(fields: Seq<(Seq<char>, ValueView)>, key: Seq<char>) -> Option<ValueView>
    decreases fields.len(),
{
    if fields.len() == 0 {
        None
    } else if fields[0].0 == key {
        Some(fields[0].1)
    } else {
        field(fields.drop_first(), key)
    }
}

impl ValueView {
    /// The field named `key` of an object.
    pub open spec fn get(self, key: Seq<char>) -> Option<ValueView> {
        match self {
            ValueView::Object(fields) => field(fields, key),
            _ => None,
        }
    }

    /// The text, if the value is one.
    pub open spec fn as_str(self) -> Option<Seq<char>> {
        match self {
            ValueView::Text(s) => Some(s),
            _ => None,
        }
    }

    /// The truth value, if the value is one.
    pub open spec fn as_bool(self) -> Option<bool> {
        match self {
            ValueView::Bool(b) => Some(b),
            _ => None,
        }
    }

    /// The unsigned integer, if the value can be read as one.
    pub open spec fn as_u32(self) -> Option<u32> {
        match self {
            ValueView::Number(n) => n.unsigned,
            _ => None,
        }
    }

    /// The quantity, if the value can be read as one.
    pub open spec fn as_f32(self) -> Option<Quantity> {
        match self {
            ValueView::Number(n) => n.single,
            _ => None,
        }
    }

    /// The items, if the value is a list.
    pub open spec fn as_array(self) -> Option<Seq<ValueView>> {
        match self {
            ValueView::Array(items) => Some(items),
            _ => None,
        }
    }

    /// The text in the field named `key`.
    pub open spec fn str_at(self, key: Seq<char>) -> Option<Seq<char>> {
        match self.get(key) {
            Some(v) => v.as_str(),
            None => None,
        }
    }

    /// The truth value in the field named `key`.
    pub open spec fn bool_at(self, key: Seq<char>) -> Option<bool> {
        match self.get(key) {
            Some(v) => v.as_bool(),
            None => None,
        }
    }

    /// The unsigned integer in the field named `key`.
    pub open spec fn u32_at(self, key: Seq<char>) -> Option<u32> {
        match self.get(key) {
            Some(v) => v.as_u32(),
            None => None,
        }
    }

    /// The quantity in the field named `key`.
    pub open spec fn f32_at(self, key: Seq<char>) -> Option<Quantity> {
        match self.get(key) {
            Some(v) => v.as_f32(),
            None => None,
        }
    }

    /// The list in the field named `key`.
    pub open spec fn array_at(self, key: Seq<char>) -> Option<Seq<ValueView>> {
        match self.get(key) {
            Some(v) => v.as_array(),
            None => None,
        }
    }
}

/// The view of an unsigned integer. As a quantity it is read as the nearest one.
pub open spec fn unsigned_number(n: u32) -> ValueView {
    ValueView::Number((Number { unsigned: Some(n), single: Some(whole(n as nat)) }))
}

/// The view of a quantity. As an unsigned integer it is read where it is one; infinities and NaNs cannot
/// be read back.
pub open spec fn single_number(x: Quantity) -> ValueView {
    ValueView::Number(
        (Number {
            unsigned: whole_of(x),
            single: if x.finite() {
                Some(x)
            } else {
                None
            },
        }),
    )
}

impl Value {
    /// An unsigned integer.
    pub fn num(n: u32) -> (value: Value)
        ensures
            value@ == unsigned_number(n),
    {
        Value::Number(Number { unsigned: Some(n), single: Some(Quantity::from_whole(n)) })
    }

    /// A quantity.
    pub fn f32num(x: Quantity) -> (value: Value)
        ensures
            value@ == single_number(x),
    {
        let single = if x.is_finite() {
            Some(x)
        } else {
            None
        };
        Value::Number(Number { unsigned: x.to_whole(), single })
    }

    /// A text.
    pub fn str(s: &str) -> (value: Value)
        ensures
            value@ == ValueView::Text(s@),
    {
        Value::String(s.to_owned())
    }

    /// A list.
    pub fn arr(items: Vec<Value>) -> (value: Value)
        ensures
            value@ == ValueView::Array(values_view(items@)),
    {
        Value::Array(items)
    }

    /// The field named `key` of an object.
    pub fn get(&self, key: &str) -> (found: Option<&Value>)
        ensures
            match found {
                Some(v) => self@.get(key@) == Some(v@),
                None => self@.get(key@) is None,
            },
    {
        match self {
            Value::Object(fields) => {
                let mut i: usize = 0;
                let ghost all = fields_view(fields@);
                assert(all.skip(0) =~= all);
                while i < fields.len()
                    invariant
                        i <= fields.len(),
                        all == fields_view(fields@),
                        self@ == ValueView::Object(all),
                        field(all, key@) == field(all.skip(i as int), key@),
                    decreases fields.len() - i,
                {
                    let ghost rest = all.skip(i as int);
                    assert(rest[0] == all[i as int]);
                    assert(rest.drop_first() =~= all.skip(i + 1));
                    if same_text(fields[i].0.as_str(), key) {
                        return Some(&fields[i].1);
                    }
                    i += 1;
                }
                None
            },
            _ => None,
        }
    }

    /// The text, if the value is one.
    pub fn as_str(&self) -> (text: Option<&str>)
        ensures
            match text {
                Some(s) => self@.as_str() == Some(s@),
                None => self@.as_str() is None,
            },
    {
        match self {
            Value::String(s) => Some(s.as_str()),
            _ => None,
        }
    }

    /// The items, if the value is a list.
    pub fn as_array(&self) -> (items: Option<&Vec<Value>>)
        ensures
            match items {
                Some(v) => self@.as_array() == Some(values_view(v@)),
                None => self@.as_array() is None,
            },
    {
        match self {
            Value::Array(items) => Some(items),
            _ => None,
        }
    }

    /// The text in the field named `key`.
    pub fn str_at(&self, key: &str) -> (text: Option<&str>)
        ensures
            match text {
                Some(s) => self@.str_at(key@) == Some(s@),
                None => self@.str_at(key@) is None,
            },
    {
        match self.get(key) {
            Some(v) => v.as_str(),
            None => None,
        }
    }

    /// The truth value in the field named `key`.
    pub fn bool_at(&self, key: &str) -> (truth: Option<bool>)
        ensures
            truth == self@.bool_at(key@),
    {
        match self.get(key) {
            Some(Value::Bool(b)) => Some(*b),
            _ => None,
        }
    }

    /// The unsigned integer in the field named `key`.
    pub fn u32_at(&self, key: &str) -> (n: Option<u32>)
        ensures
            n == self@.u32_at(key@),
    {
        match self.get(key) {
            Some(Value::Number(n)) => n.unsigned,
            _ => None,
        }
    }

    /// The quantity in the field named `key`.
    pub fn f32_at(&self, key: &str) -> (x: Option<Quantity>)
        ensures
            x == self@.f32_at(key@),
    {
        match self.get(key) {
            Some(Value::Number(n)) => n.single,
            _ => None,
        }
    }

    /// The list in the field named `key`.
    pub fn array_at(&self, key: &str) -> (items: Option<&Vec<Value>>)
        ensures
            match items {
                Some(v) => self@.array_at(key@) == Some(values_view(v@)),
                None => self@.array_at(key@) is None,
            },
    {
        match self.get(key) {
            Some(v) => v.as_array(),
            None => None,
        }
    }
}

/// The object with one field.
pub fn object1(k: &str, v: Value) -> (value: Value)
    ensures
        value@ == ValueView::Object(seq![(k@, v@)]),
{
    let mut fields: Vec<(String, Value)> = Vec::new();
    fields.push((k.to_owned(), v));
    assert(fields_view(fields@) =~= seq![(k@, v@)]);
    Value::Object(fields)
}

/// The object with two fields, in the order given.
pub fn object2(k1: &str, v1: Value, k2: &str, v2: Value) -> (value: Value)
    ensures
        value@ == ValueView::Object(seq![(k1@, v1@), (k2@, v2@)]),
{
    let mut fields: Vec<(String, Value)> = Vec::new();
    fields.push((k1.to_owned(), v1));
    fields.push((k2.to_owned(), v2));
    assert(fields_view(fields@) =~= seq![(k1@, v1@), (k2@, v2@)]);
    Value::Object(fields)
}

/// The object with three fields, in the order given.
pub fn object3(k1: &str, v1: Value, k2: &str, v2: Value, k3: &str, v3: Value) -> (value: Value)
    ensures
        value@ == ValueView::Object(seq![(k1@, v1@), (k2@, v2@), (k3@, v3@)]),
{
    let mut fields: Vec<(String, Value)> = Vec::new();
    fields.push((k1.to_owned(), v1));
    fields.push((k2.to_owned(), v2));
    fields.push((k3.to_owned(), v3));
    assert(fields_view(fields@) =~= seq![(k1@, v1@), (k2@, v2@), (k3@, v3@)]);
    Value::Object(fields)
}

/// The object with four fields, in the order given.
pub fn object4(k1: &str, v1: Value, k2: &str, v2: Value, k3: &str, v3: Value, k4: &str, v4: Value) -> (value: Value)
    ensures
        value@ == ValueView::Object(seq![(k1@, v1@), (k2@, v2@), (k3@, v3@), (k4@, v4@)]),
{
    let mut fields: Vec<(String, Value)> = Vec::new();
    fields.push((k1.to_owned(), v1));
    fields.push((k2.to_owned(), v2));
    fields.push((k3.to_owned(), v3));
    fields.push((k4.to_owned(), v4));
    assert(fields_view(fields@) =~= seq![(k1@, v1@), (k2@, v2@), (k3@, v3@), (k4@, v4@)]);
    Value::Object(fields)
}

/// Whether `v` is `w` up to further readings of its numbers: the relation between a tree that was
/// written and the tree that is read back from its text.
pub open spec fn reads_as(v: ValueView, w: ValueView) -> bool
    decreases w,
{
    match (v, w) {
        (ValueView::Number(n), ValueView::Number(m)) => {
            &&& m.unsigned is Some ==> n.unsigned == m.unsigned
            &&& m.single is Some ==> n.single == m.single
        },
        (ValueView::Array(a), ValueView::Array(b)) => {
            &&& a.len() == b.len()
            &&& forall|i: int| 0 <= i < b.len() ==> reads_as(#[trigger] a[i], b[i])
        },
        (ValueView::Object(a), ValueView::Object(b)) => {
            &&& a.len() == b.len()
            &&& forall|i: int|
                0 <= i < b.len() ==> (#[trigger] a[i]).0 == b[i].0 && reads_as(a[i].1, b[i].1)
        },
        _ => v == w,
    }
}

} // verus!
