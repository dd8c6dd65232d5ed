//! The materializer: from a node of the document to a native value.

use crate::error::DecodeError;
use crate::node::{
    first_child, next_sibling, tag_kind, tag_len, value_of_key, yyjson_arr_iter_next,
    yyjson_get_first, yyjson_get_len, yyjson_obj_iter_get_val, yyjson_obj_iter_next, ElementType,
    NodeView, YyjsonArrIter, YyjsonDoc, YyjsonObjIter, YyjsonVal,
};
use crate::number::{bits_to_i64, decoded, number_value, parse_number_text, signed_of_bits};
use crate::shorthand::{attribute_tag, AttributeTag};
use crate::value::{
    entries_view, lemma_entries_view_push, lemma_list_view, lemma_list_view_push,
    lemma_mapping_view, list_view, NativeValue, Value,
};
use vstd::prelude::*;

verus! {

/// How many containers may stand inside one another in a document that is
/// decoded from its root.
pub const MAX_DEPTH: usize = 1024;

/// A result with `done` put in front of what it holds.
pub open spec fn prepend<T>(done: Seq<T>, rest: Result<Seq<T>, DecodeError>) -> Result<
    Seq<T>,
    DecodeError,
> {
    match rest {
        Ok(items) => Ok(done + items),
        Err(e) => Err(e),
    }
}

/// The value of the node at `idx`, decoded with room for `depth` containers
/// inside one another.
///
/// A scalar node stands for itself. An array is the list of its elements. An
/// object with one entry whose key is reserved is a shorthand for the value
/// that the entry wraps; any other object is the map of its entries, in
/// their order in the document.
pub open spec fn node_value(vals: Seq<NodeView>, idx: int, depth: nat) -> Result<
    Value,
    DecodeError,
>
    decreases depth, 1nat, 0nat,
{
    if !(0 <= idx < vals.len()) {
        Err(DecodeError::InternalConsistency)
    } else {
        match tag_kind(vals[idx].tag) {
            None => Err(DecodeError::InternalConsistency),
            Some(ElementType::String) => Ok(Value::String(vals[idx].text)),
            Some(ElementType::Uint64) => Ok(Value::UnsignedInteger(vals[idx].uni)),
            Some(ElementType::Int64) => Ok(
                Value::SignedInteger(signed_of_bits(vals[idx].uni) as i64),
            ),
            Some(ElementType::Double) => Ok(Value::Float(vals[idx].uni)),
            Some(ElementType::Null) => Ok(Value::Null),
            Some(ElementType::True) => Ok(Value::Boolean(true)),
            Some(ElementType::False) => Ok(Value::Boolean(false)),
            Some(ElementType::Array) => array_value(vals, idx, depth),
            Some(ElementType::Object) => {
                if tag_len(vals[idx].tag) != 1 {
                    object_value(vals, idx, depth)
                } else if depth == 0 {
                    Err(DecodeError::DepthLimit)
                } else {
                    let key = first_child(idx);
                    match next_sibling(vals, value_of_key(key)) {
                        None => Err(DecodeError::InternalConsistency),
                        Some(_) => match attribute_tag(vals[key].text) {
                            Some(tag) => shorthand_value(
                                vals,
                                tag,
                                value_of_key(key),
                                (depth - 1) as nat,
                            ),
                            None => object_value(vals, idx, depth),
                        },
                    }
                }
            },
        }
    }
}

/// The list that the node at `idx` stands for when it is read as an array: its
/// tag gives the number of elements, and the first of them follows it.
pub open spec fn array_value(vals: Seq<NodeView>, idx: int, depth: nat) -> Result<
    Value,
    DecodeError,
>
    decreases depth, 0nat, 0nat,
{
    if !(0 <= idx < vals.len()) {
        Err(DecodeError::InternalConsistency)
    } else if depth == 0 {
        Err(DecodeError::DepthLimit)
    } else {
        match array_items(
            vals,
            first_child(idx),
            tag_len(vals[idx].tag) as nat,
            (depth - 1) as nat,
        ) {
            Ok(items) => Ok(Value::List(items)),
            Err(e) => Err(e),
        }
    }
}

/// The values of `remaining` sibling nodes, the first of them at `cur`.
pub open spec fn array_items(vals: Seq<NodeView>, cur: int, remaining: nat, depth: nat) -> Result<
    Seq<Value>,
    DecodeError,
>
    decreases depth, 2nat, remaining,
{
    if remaining == 0 {
        Ok(Seq::empty())
    } else {
        match next_sibling(vals, cur) {
            None => Err(DecodeError::InternalConsistency),
            Some(next) => match node_value(vals, cur, depth) {
                Err(e) => Err(e),
                Ok(v) => prepend(seq![v], array_items(vals, next, (remaining - 1) as nat, depth)),
            },
        }
    }
}

/// The map that the node at `idx` stands for when it is read as an object,
/// whatever its keys are.
pub open spec fn object_value(vals: Seq<NodeView>, idx: int, depth: nat) -> Result<
    Value,
    DecodeError,
>
    decreases depth, 0nat, 0nat,
{
    if !(0 <= idx < vals.len()) {
        Err(DecodeError::InternalConsistency)
    } else if depth == 0 {
        Err(DecodeError::DepthLimit)
    } else {
        match object_entries(
            vals,
            first_child(idx),
            tag_len(vals[idx].tag) as nat,
            (depth - 1) as nat,
        ) {
            Ok(entries) => Ok(Value::Mapping(entries)),
            Err(e) => Err(e),
        }
    }
}

/// The entries of `remaining` key and value pairs, the first key at `cur`.
/// Each value follows its key, and the next key is the value's next sibling.
pub open spec fn object_entries(
    vals: Seq<NodeView>,
    cur: int,
    remaining: nat,
    depth: nat,
) -> Result<Seq<(Seq<char>, Value)>, DecodeError>
    decreases depth, 2nat, remaining,
{
    if remaining == 0 {
        Ok(Seq::empty())
    } else {
        match next_sibling(vals, value_of_key(cur)) {
            None => Err(DecodeError::InternalConsistency),
            Some(next) => match node_value(vals, value_of_key(cur), depth) {
                Err(e) => Err(e),
                Ok(v) => prepend(
                    seq![(vals[cur].text, v)],
                    object_entries(vals, next, (remaining - 1) as nat, depth),
                ),
            },
        }
    }
}

/// The value that a shorthand with the reserved key `tag` stands for, where
/// the wrapped node is at `val`.
///
/// `N` wraps a string that spells a number; a wrapped node that is no string
/// is a coercion error. `NS`, `SS` and `BS` are not decoded. Every other key
/// stands for the wrapped node's own value.
pub open spec fn shorthand_value(
    vals: Seq<NodeView>,
    tag: AttributeTag,
    val: int,
    depth: nat,
) -> Result<Value, DecodeError>
    decreases depth, 2nat, 0nat,
{
    match tag {
        AttributeTag::N => {
            if !(0 <= val < vals.len()) {
                Err(DecodeError::InternalConsistency)
            } else if tag_kind(vals[val].tag) != Some(ElementType::String) {
                Err(DecodeError::NumericCoercion)
            } else {
                number_value(vals[val].text)
            }
        },
        AttributeTag::Ns | AttributeTag::Ss | AttributeTag::Bs => Err(
            DecodeError::UnimplementedShorthand,
        ),
        _ => node_value(vals, val, depth),
    }
}

/// A walk over `remaining` elements that succeeds gives exactly `remaining`
/// values: it stops at the declared length whatever follows in the document.
pub proof fn lemma_array_items_len(vals: Seq<NodeView>, cur: int, remaining: nat, depth: nat)
    requires
        array_items(vals, cur, remaining, depth) is Ok,
    ensures
        array_items(vals, cur, remaining, depth)->Ok_0.len() == remaining,
    decreases remaining,
{
    if remaining > 0 {
        lemma_array_items_len(
            vals,
            next_sibling(vals, cur)->Some_0,
            (remaining - 1) as nat,
            depth,
        );
    }
}

/// A walk over `remaining` entries that succeeds gives exactly `remaining`
/// entries.
pub proof fn lemma_object_entries_len(vals: Seq<NodeView>, cur: int, remaining: nat, depth: nat)
    requires
        object_entries(vals, cur, remaining, depth) is Ok,
    ensures
        object_entries(vals, cur, remaining, depth)->Ok_0.len() == remaining,
    decreases remaining,
{
    if remaining > 0 {
        lemma_object_entries_len(
            vals,
            next_sibling(vals, value_of_key(cur))->Some_0,
            (remaining - 1) as nat,
            depth,
        );
    }
}

/// The native string of a string node.
pub fn parse_yy_string(elem: &YyjsonVal) -> (v: NativeValue)
    ensures
        v@ == Value::String(elem@.text),
{
    NativeValue::String(elem.text.clone())
}

/// Builds the list of the array at `elem`: walks its elements in order and
/// decodes each with one container less of room.
pub fn parse_yy_array(doc: &YyjsonDoc, elem: usize, depth: usize) -> (r: Result<
    NativeValue,
    DecodeError,
>)
    ensures
        decoded(r) == array_value(doc@, elem as int, depth as nat),
    decreases depth, 0nat,
{
    if elem >= doc.vals.len() {
        return Err(DecodeError::InternalConsistency);
    }
    if depth == 0 {
        return Err(DecodeError::DepthLimit);
    }
    assert(doc@[elem as int] == doc.vals[elem as int]@);
    let len: u64 = yyjson_get_len(&doc.vals[elem]);
    let mut list: Vec<NativeValue> = Vec::new();
    let mut iter = YyjsonArrIter { idx: 0, max: len, cur: yyjson_get_first(elem) };
    let ghost total = array_items(doc@, first_child(elem as int), len as nat, (depth - 1) as nat);
    proof {
        if total is Ok {
            assert(list_view(list@) + total->Ok_0 =~= total->Ok_0);
        }
    }
    loop
        invariant
            0 < depth,
            iter.idx <= iter.max == len,
            elem < doc@.len(),
            len == tag_len(doc@[elem as int].tag),
            total == array_items(doc@, first_child(elem as int), len as nat, (depth - 1) as nat),
            total == prepend(
                list_view(list@),
                array_items(
                    doc@,
                    iter.cur as int,
                    (len - iter.idx) as nat,
                    (depth - 1) as nat,
                ),
            ),
        ensures
            iter.idx == iter.max,
        decreases iter.max - iter.idx,
    {
        let step = yyjson_arr_iter_next(doc, &mut iter);
        match step {
            Ok(None) => {
                break ;
            },
            Ok(Some(val)) => {
                match parse_node(doc, val, depth - 1) {
                    Ok(each) => {
                        proof {
                            lemma_list_view_push(list@, each);
                            let rest = array_items(
                                doc@,
                                iter.cur as int,
                                (len - iter.idx) as nat,
                                (depth - 1) as nat,
                            );
                            if rest is Ok {
                                assert(list_view(list@) + (seq![each@] + rest->Ok_0) =~= list_view(
                                    list@,
                                ).push(each@) + rest->Ok_0);
                            }
                        }
                        list.push(each);
                    },
                    Err(e) => {
                        return Err(e);
                    },
                }
            },
            Err(e) => {
                return Err(e);
            },
        }
    }
    proof {
        lemma_list_view(list);
        assert(list_view(list@) + Seq::<Value>::empty() =~= list_view(list@));
    }
    Ok(NativeValue::List(list))
}

/// Builds the map of the object at `elem`, whatever its keys are: walks its
/// entries in order, takes each key's text as it stands and decodes each
/// value with one container less of room.
pub fn parse_yy_object(doc: &YyjsonDoc, elem: usize, depth: usize) -> (r: Result<
    NativeValue,
    DecodeError,
>)
    ensures
        decoded(r) == object_value(doc@, elem as int, depth as nat),
    decreases depth, 0nat,
{
    if elem >= doc.vals.len() {
        return Err(DecodeError::InternalConsistency);
    }
    if depth == 0 {
        return Err(DecodeError::DepthLimit);
    }
    assert(doc@[elem as int] == doc.vals[elem as int]@);
    let len: u64 = yyjson_get_len(&doc.vals[elem]);
    let mut dict: Vec<(String, NativeValue)> = Vec::new();
    let mut iter = YyjsonObjIter { idx: 0, max: len, cur: yyjson_get_first(elem), obj: elem };
    let ghost total = object_entries(
        doc@,
        first_child(elem as int),
        len as nat,
        (depth - 1) as nat,
    );
    proof {
        if total is Ok {
            assert(entries_view(dict@) + total->Ok_0 =~= total->Ok_0);
        }
    }
    loop
        invariant
            0 < depth,
            iter.idx <= iter.max == len,
            elem < doc@.len(),
            len == tag_len(doc@[elem as int].tag),
            total == object_entries(
                doc@,
                first_child(elem as int),
                len as nat,
                (depth - 1) as nat,
            ),
            total == prepend(
                entries_view(dict@),
                object_entries(
                    doc@,
                    iter.cur as int,
                    (len - iter.idx) as nat,
                    (depth - 1) as nat,
                ),
            ),
        ensures
            iter.idx == iter.max,
        decreases iter.max - iter.idx,
    {
        let step = yyjson_obj_iter_next(doc, &mut iter);
        match step {
            Ok(None) => {
                break ;
            },
            Ok(Some(key)) => {
                let val: usize = yyjson_obj_iter_get_val(key);
                assert(doc@[key as int] == doc.vals[key as int]@);
                let key_str: String = doc.vals[key].text.clone();
                match parse_node(doc, val, depth - 1) {
                    Ok(pyval) => {
                        proof {
                            lemma_entries_view_push(dict@, (key_str, pyval));
                            let rest = object_entries(
                                doc@,
                                iter.cur as int,
                                (len - iter.idx) as nat,
                                (depth - 1) as nat,
                            );
                            if rest is Ok {
                                assert(entries_view(dict@) + (seq![(key_str@, pyval@)]
                                    + rest->Ok_0) =~= entries_view(dict@).push(
                                    (key_str@, pyval@),
                                ) + rest->Ok_0);
                            }
                        }
                        dict.push((key_str, pyval));
                    },
                    Err(e) => {
                        return Err(e);
                    },
                }
            },
            Err(e) => {
                return Err(e);
            },
        }
    }
    proof {
        lemma_mapping_view(dict);
        assert(entries_view(dict@) + Seq::<(Seq<char>, Value)>::empty() =~= entries_view(dict@));
    }
    Ok(NativeValue::Mapping(dict))
}

/// Decodes the node at `elem` with room for `depth` containers inside one
/// another.
///
/// A node outside the document, an unknown tag, or a cursor that leaves the
/// document gives `InternalConsistency`; a container where `depth` is used up
/// gives `DepthLimit`.
pub fn parse_node(doc: &YyjsonDoc, elem: usize, depth: usize) -> (r: Result<
    NativeValue,
    DecodeError,
>)
    ensures
        decoded(r) == node_value(doc@, elem as int, depth as nat),
    decreases depth, 1nat,
{
    if elem >= doc.vals.len() {
        return Err(DecodeError::InternalConsistency);
    }
    let node = &doc.vals[elem];
    assert(doc@[elem as int] == node@);
    match ElementType::from_tag(node) {
        None => Err(DecodeError::InternalConsistency),
        Some(ElementType::String) => Ok(parse_yy_string(node)),
        Some(ElementType::Uint64) => Ok(NativeValue::UnsignedInteger(node.uni)),
        Some(ElementType::Int64) => Ok(NativeValue::SignedInteger(bits_to_i64(node.uni))),
        Some(ElementType::Double) => Ok(NativeValue::Float(node.uni)),
        Some(ElementType::Null) => Ok(NativeValue::Null),
        Some(ElementType::True) => Ok(NativeValue::Boolean(true)),
        Some(ElementType::False) => Ok(NativeValue::Boolean(false)),
        Some(ElementType::Array) => parse_yy_array(doc, elem, depth),
        Some(ElementType::Object) => {
            let len: u64 = yyjson_get_len(node);
            if len != 1 {
                // More or fewer than one entry: never a shorthand.
                return parse_yy_object(doc, elem, depth);
            }
            if depth == 0 {
                return Err(DecodeError::DepthLimit);
            }
            let mut iter = YyjsonObjIter {
                idx: 0,
                max: len,
                cur: yyjson_get_first(elem),
                obj: elem,
            };
            match yyjson_obj_iter_next(doc, &mut iter) {
                Ok(Some(key)) => {
                    let val: usize = yyjson_obj_iter_get_val(key);
                    assert(doc@[key as int] == doc.vals[key as int]@);
                    match AttributeTag::from_key(doc.vals[key].text.as_str()) {
                        // The reserved keys are taken to stand in no other
                        // single-entry object.
                        Some(tag) => parse_ddb_node(doc, tag, val, depth - 1),
                        // An ordinary object that happens to have one entry.
                        None => parse_yy_object(doc, elem, depth),
                    }
                },
                Ok(None) => Err(DecodeError::InternalConsistency),
                Err(e) => Err(e),
            }
        },
    }
}

/// Decodes the value that a shorthand wraps, where `tag` is the shorthand's
/// reserved key and `val` the place of the wrapped node.
pub fn parse_ddb_node(doc: &YyjsonDoc, tag: AttributeTag, val: usize, depth: usize) -> (r: Result<
    NativeValue,
    DecodeError,
>)
    ensures
        decoded(r) == shorthand_value(doc@, tag, val as int, depth as nat),
    decreases depth, 2nat,
{
    match tag {
        AttributeTag::N => {
            if val >= doc.vals.len() {
                return Err(DecodeError::InternalConsistency);
            }
            let node = &doc.vals[val];
            assert(doc@[val as int] == node@);
            match ElementType::from_tag(node) {
                Some(ElementType::String) => parse_number_text(node.text.as_str()),
                _ => Err(DecodeError::NumericCoercion),
            }
        },
        AttributeTag::Ns | AttributeTag::Ss | AttributeTag::Bs => Err(
            DecodeError::UnimplementedShorthand,
        ),
        _ => parse_node(doc, val, depth),
    }
}

} // verus!
