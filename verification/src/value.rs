//! The native value that decoding produces, and its mathematical model.

use vstd::prelude::*;

verus! {

/// The mathematical model of a native value.
///
/// A floating-point number is held by the bit pattern of its IEEE 754
/// double-precision form. A map is the sequence of its entries in the order
/// in which they were inserted.
pub enum Value {
    Null,
    Boolean(bool),
    SignedInteger(i64),
    UnsignedInteger(u64),
    Float(u64),
    String(Seq<char>),
    List(Seq<Value>),
    Mapping(Seq<(Seq<char>, Value)>),
}

/// A decoded value, owned by whoever holds it.
///
/// `Float` holds the bit pattern of an IEEE 754 double-precision number.
/// `Mapping` holds its entries in insertion order.
#[derive(Debug, PartialEq, Eq)]
pub enum NativeValue {
    Null,
    Boolean(bool),
    SignedInteger(i64),
    UnsignedInteger(u64),
    Float(u64),
    String(String),
    List(Vec<NativeValue>),
    Mapping(Vec<(String, NativeValue)>),
}

/// The model of a native value.
pub open spec fn value_of(v: NativeValue) -> Value
    decreases v,
{
    match v {
        NativeValue::Null => Value::Null,
        NativeValue::Boolean(b) => Value::Boolean(b),
        NativeValue::SignedInteger(i) => Value::SignedInteger(i),
        NativeValue::UnsignedInteger(u) => Value::UnsignedInteger(u),
        NativeValue::Float(bits) => Value::Float(bits),
        NativeValue::String(s) => Value::String(s@),
        NativeValue::List(items) => Value::List(
            Seq::new(
                items@.len(),
                |i: int|
                    if 0 <= i < items@.len() {
                        value_of(items@[i])
                    } else {
                        Value::Null
                    },
            ),
        ),
        NativeValue::Mapping(entries) => Value::Mapping(
            Seq::new(
                entries@.len(),
                |i: int|
                    if 0 <= i < entries@.len() {
                        (entries@[i].0@, value_of(entries@[i].1))
                    } else {
                        (Seq::empty(), Value::Null)
                    },
            ),
        ),
    }
}

impl View for NativeValue {
    type V = Value;

    open spec fn view(&self) -> Value {
        value_of(*self)
    }
}

/// The models of a sequence of native values, in order.
pub open spec fn list_view(items: Seq<NativeValue>) -> Seq<Value> {
    Seq::new(items.len(), |i: int| items[i]@)
}

/// The models of a sequence of map entries, in order.
pub open spec fn entries_view(entries: Seq<(String, NativeValue)>) -> Seq<(Seq<char>, Value)> {
    Seq::new(entries.len(), |i: int| (entries[i].0@, entries[i].1@))
}

/// A list's model is the list of its items' models.
pub proof fn lemma_list_view(items: Vec<NativeValue>)
    ensures
        NativeValue::List(items)@ == Value::List(list_view(items@)),
{
    assert(value_of(NativeValue::List(items))->List_0 =~= list_view(items@));
}

/// A map's model is the sequence of its entries' models.
pub proof fn lemma_mapping_view(entries: Vec<(String, NativeValue)>)
    ensures
        NativeValue::Mapping(entries)@ == Value::Mapping(entries_view(entries@)),
{
    assert(value_of(NativeValue::Mapping(entries))->Mapping_0 =~= entries_view(entries@));
}

/// Appending an item appends its model.
pub proof fn lemma_list_view_push(items: Seq<NativeValue>, item: NativeValue)
    ensures
        list_view(items.push(item)) == list_view(items).push(item@),
{
    assert(list_view(items.push(item)) =~= list_view(items).push(item@));
}

/// Appending an entry appends its model.
pub proof fn lemma_entries_view_push(entries: Seq<(String, NativeValue)>, entry: (
    String,
    NativeValue,
))
    ensures
        entries_view(entries.push(entry)) == entries_view(entries).push((entry.0@, entry.1@)),
{
    assert(entries_view(entries.push(entry)) =~= entries_view(entries).push(
        (entry.0@, entry.1@),
    ));
}

} // verus!
