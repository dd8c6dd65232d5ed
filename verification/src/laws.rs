//! What decoding does to a well-formed document, stated over the tree that the
//! document spells.

use crate::decode::{
    array_items, array_value, node_value, object_entries, prepend, shorthand_value, MAX_DEPTH,
};
use crate::deserialize::document_value;
use crate::error::{DecodeError, DeserializeErrorView};
use crate::node::{
    first_child, next_sibling, tag_is_ctn, tag_kind, tag_len, value_of_key, ElementType, NodeView,
};
use crate::number::{number_value, signed_of_bits};
use crate::shorthand::{attribute_tag, AttributeTag};
use crate::value::Value;
use vstd::prelude::*;

verus! {

/// The number of nodes that the layout of a tree takes: one for a scalar, one
/// more than its elements take for an array, and for an object one for itself
/// and one for each key besides what the values take.
pub open spec fn span(v: Value) -> nat
    decreases v, 0nat,
{
    match v {
        Value::List(items) => 1 + spans_from(items, 0),
        Value::Mapping(entries) => 1 + entry_spans_from(entries, 0),
        _ => 1,
    }
}

/// The number of nodes that `items` take together from the `k`-th on.
pub open spec fn spans_from(items: Seq<Value>, k: nat) -> nat
    decreases items, items.len() - k,
{
    if k < items.len() {
        span(items[k as int]) + spans_from(items, k + 1)
    } else {
        0
    }
}

/// The number of nodes that `entries` take together from the `k`-th on, keys
/// included.
pub open spec fn entry_spans_from(entries: Seq<(Seq<char>, Value)>, k: nat) -> nat
    decreases entries, entries.len() - k,
{
    if k < entries.len() {
        1 + span(entries[k as int].1) + entry_spans_from(entries, k + 1)
    } else {
        0
    }
}

/// Whether a tree nests at most `depth` containers inside one another.
pub open spec fn fits(v: Value, depth: nat) -> bool
    decreases v,
{
    match v {
        Value::List(items) => depth > 0 && forall|k: int|
            0 <= k < items.len() ==> fits(#[trigger] items[k], (depth - 1) as nat),
        Value::Mapping(entries) => depth > 0 && forall|k: int|
            0 <= k < entries.len() ==> fits((#[trigger] entries[k]).1, (depth - 1) as nat),
        _ => true,
    }
}

/// Whether a tree holds no object that would be read as a shorthand: no
/// object, at any depth, with a single entry whose key is reserved.
pub open spec fn no_shorthand(v: Value) -> bool
    decreases v,
{
    match v {
        Value::List(items) => forall|k: int|
            0 <= k < items.len() ==> no_shorthand(#[trigger] items[k]),
        Value::Mapping(entries) => !(entries.len() == 1 && attribute_tag(entries[0].0) is Some)
            && forall|k: int|
            0 <= k < entries.len() ==> no_shorthand((#[trigger] entries[k]).1),
        _ => true,
    }
}

/// Whether the nodes of `vals` from `idx` on are the layout of the tree `v`.
///
/// A scalar takes one node of its kind with its payload. A container takes a
/// node with its kind, its length in the tag and the byte size of its whole
/// layout as offset, followed by its elements one after another; in an object
/// each value is preceded by a string node that holds its key.
pub open spec fn encodes(vals: Seq<NodeView>, idx: int, v: Value) -> bool
    decreases v, 0nat,
{
    &&& 0 <= idx < vals.len()
    &&& match v {
        Value::Null => tag_kind(vals[idx].tag) == Some(ElementType::Null),
        Value::Boolean(b) => tag_kind(vals[idx].tag) == Some(
            if b {
                ElementType::True
            } else {
                ElementType::False
            },
        ),
        Value::SignedInteger(i) => tag_kind(vals[idx].tag) == Some(ElementType::Int64)
            && signed_of_bits(vals[idx].uni) == i,
        Value::UnsignedInteger(u) => tag_kind(vals[idx].tag) == Some(ElementType::Uint64)
            && vals[idx].uni == u,
        Value::Float(bits) => tag_kind(vals[idx].tag) == Some(ElementType::Double)
            && vals[idx].uni == bits,
        Value::String(s) => tag_kind(vals[idx].tag) == Some(ElementType::String)
            && vals[idx].text == s,
        Value::List(items) => {
            &&& tag_kind(vals[idx].tag) == Some(ElementType::Array)
            &&& tag_len(vals[idx].tag) == items.len()
            &&& vals[idx].uni == 16 * span(v)
            &&& idx + span(v) <= vals.len()
            &&& items_encoded(vals, first_child(idx), items, 0)
        },
        Value::Mapping(entries) => {
            &&& tag_kind(vals[idx].tag) == Some(ElementType::Object)
            &&& tag_len(vals[idx].tag) == entries.len()
            &&& vals[idx].uni == 16 * span(v)
            &&& idx + span(v) <= vals.len()
            &&& entries_encoded(vals, first_child(idx), entries, 0)
        },
    }
}

/// Whether the nodes of `vals` from `cur` on are the layouts of `items` from
/// the `k`-th on, one after another.
pub open spec fn items_encoded(vals: Seq<NodeView>, cur: int, items: Seq<Value>, k: nat) -> bool
    decreases items, items.len() - k,
{
    k < items.len() ==> encodes(vals, cur, items[k as int]) && items_encoded(
        vals,
        cur + span(items[k as int]),
        items,
        k + 1,
    )
}

/// Whether the nodes of `vals` from `cur` on are the layouts of `entries` from
/// the `k`-th on, one after another: for each a string node with the key, then
/// the layout of the value.
pub open spec fn entries_encoded(
    vals: Seq<NodeView>,
    cur: int,
    entries: Seq<(Seq<char>, Value)>,
    k: nat,
) -> bool
    decreases entries, entries.len() - k,
{
    k < entries.len() ==> {
        &&& 0 <= cur < vals.len()
        &&& tag_kind(vals[cur].tag) == Some(ElementType::String)
        &&& vals[cur].text == entries[k as int].0
        &&& encodes(vals, value_of_key(cur), entries[k as int].1)
        &&& entries_encoded(
            vals,
            value_of_key(cur) + span(entries[k as int].1),
            entries,
            k + 1,
        )
    }
}

/// What the tree `v` decodes to with room for `depth` containers inside one
/// another: the meaning of a document, stated on the tree that it spells.
///
/// A scalar decodes to itself and a list to the list of what its elements
/// decode to. A map with a single entry under a reserved key is a shorthand
/// and decodes to what the shorthand stands for; any other map decodes to the
/// map of what its values decode to, under the same keys in the same order.
/// The first failure in document order is the failure of the whole.
pub open spec fn unwrapped(v: Value, depth: nat) -> Result<Value, DecodeError>
    decreases v, 0nat,
{
    match v {
        Value::List(items) => {
            if depth == 0 {
                Err(DecodeError::DepthLimit)
            } else {
                match unwrapped_items(items, 0, (depth - 1) as nat) {
                    Ok(decoded_items) => Ok(Value::List(decoded_items)),
                    Err(e) => Err(e),
                }
            }
        },
        Value::Mapping(entries) => {
            if depth == 0 {
                Err(DecodeError::DepthLimit)
            } else if entries.len() == 1 && attribute_tag(entries[0].0) is Some {
                unwrapped_shorthand(
                    attribute_tag(entries[0].0)->Some_0,
                    entries[0].1,
                    (depth - 1) as nat,
                )
            } else {
                match unwrapped_entries(entries, 0, (depth - 1) as nat) {
                    Ok(decoded_entries) => Ok(Value::Mapping(decoded_entries)),
                    Err(e) => Err(e),
                }
            }
        },
        _ => Ok(v),
    }
}

/// What `items` decode to, from the `k`-th on.
pub open spec fn unwrapped_items(items: Seq<Value>, k: nat, depth: nat) -> Result<
    Seq<Value>,
    DecodeError,
>
    decreases items, items.len() - k,
{
    if k < items.len() {
        match unwrapped(items[k as int], depth) {
            Err(e) => Err(e),
            Ok(item) => prepend(seq![item], unwrapped_items(items, k + 1, depth)),
        }
    } else {
        Ok(Seq::empty())
    }
}

/// What `entries` decode to, from the `k`-th on: each key as it stands with
/// what its value decodes to.
pub open spec fn unwrapped_entries(
    entries: Seq<(Seq<char>, Value)>,
    k: nat,
    depth: nat,
) -> Result<Seq<(Seq<char>, Value)>, DecodeError>
    decreases entries, entries.len() - k,
{
    if k < entries.len() {
        match unwrapped(entries[k as int].1, depth) {
            Err(e) => Err(e),
            Ok(value) => prepend(
                seq![(entries[k as int].0, value)],
                unwrapped_entries(entries, k + 1, depth),
            ),
        }
    } else {
        Ok(Seq::empty())
    }
}

/// What a shorthand under the reserved key `tag` stands for, where `inner` is
/// the tree that it wraps: under `N` the number that a string spells, under
/// `NS`, `SS` and `BS` nothing that is decoded, under every other key what the
/// wrapped tree decodes to.
pub open spec fn unwrapped_shorthand(tag: AttributeTag, inner: Value, depth: nat) -> Result<
    Value,
    DecodeError,
>
    decreases inner, 1nat,
{
    match tag {
        AttributeTag::N => match inner {
            Value::String(text) => number_value(text),
            _ => Err(DecodeError::NumericCoercion),
        },
        AttributeTag::Ns | AttributeTag::Ss | AttributeTag::Bs => Err(
            DecodeError::UnimplementedShorthand,
        ),
        _ => unwrapped(inner, depth),
    }
}

/// Where a list decodes, it decodes element by element: as many items come
/// out as went in, and each is what the item in its place decodes to.
pub proof fn lemma_items_elementwise(items: Seq<Value>, k: nat, depth: nat)
    requires
        k <= items.len(),
        unwrapped_items(items, k, depth) is Ok,
    ensures
        unwrapped_items(items, k, depth)->Ok_0.len() == items.len() - k,
        forall|j: int|
            0 <= j < items.len() - k ==> unwrapped(items[k + j], depth) == Ok::<
                Value,
                DecodeError,
            >(#[trigger] unwrapped_items(items, k, depth)->Ok_0[j]),
    decreases items.len() - k,
{
    if k < items.len() {
        let out = unwrapped_items(items, k, depth)->Ok_0;
        let rest = unwrapped_items(items, k + 1, depth)->Ok_0;
        lemma_items_elementwise(items, k + 1, depth);
        assert forall|j: int| 0 <= j < items.len() - k implies unwrapped(items[k + j], depth)
            == Ok::<Value, DecodeError>(#[trigger] out[j]) by {
            if j > 0 {
                assert(out[j] == rest[j - 1]);
                assert(items[k + j] == items[(k + 1) + (j - 1)]);
            }
        }
    }
}

/// Where a map decodes entry by entry, it keeps every key in its place, and
/// each value is what the value in its place decodes to.
pub proof fn lemma_entries_elementwise(entries: Seq<(Seq<char>, Value)>, k: nat, depth: nat)
    requires
        k <= entries.len(),
        unwrapped_entries(entries, k, depth) is Ok,
    ensures
        unwrapped_entries(entries, k, depth)->Ok_0.len() == entries.len() - k,
        forall|j: int|
            0 <= j < entries.len() - k ==> {
                let out = #[trigger] unwrapped_entries(entries, k, depth)->Ok_0[j];
                &&& out.0 == entries[k + j].0
                &&& unwrapped(entries[k + j].1, depth) == Ok::<Value, DecodeError>(out.1)
            },
    decreases entries.len() - k,
{
    if k < entries.len() {
        let out = unwrapped_entries(entries, k, depth)->Ok_0;
        let rest = unwrapped_entries(entries, k + 1, depth)->Ok_0;
        lemma_entries_elementwise(entries, k + 1, depth);
        assert forall|j: int| 0 <= j < entries.len() - k implies {
            let o = #[trigger] out[j];
            &&& o.0 == entries[k + j].0
            &&& unwrapped(entries[k + j].1, depth) == Ok::<Value, DecodeError>(o.1)
        } by {
            if j > 0 {
                assert(out[j] == rest[j - 1]);
                assert(entries[k + j] == entries[(k + 1) + (j - 1)]);
            }
        }
    }
}

/// Where a list fails to decode, the failure is that of its first item that
/// fails: every item before it decodes.
pub proof fn lemma_items_first_failure(items: Seq<Value>, k: nat, depth: nat) -> (at: int)
    requires
        k <= items.len(),
        unwrapped_items(items, k, depth) is Err,
    ensures
        k <= at < items.len(),
        unwrapped(items[at], depth) == Err::<Value, DecodeError>(
            unwrapped_items(items, k, depth)->Err_0,
        ),
        forall|j: int| k <= j < at ==> (#[trigger] unwrapped(items[j], depth)) is Ok,
    decreases items.len() - k,
{
    if unwrapped(items[k as int], depth) is Err {
        k as int
    } else {
        lemma_items_first_failure(items, k + 1, depth)
    }
}

/// Where a map fails to decode entry by entry, the failure is that of its
/// first value that fails: every value before it decodes.
pub proof fn lemma_entries_first_failure(
    entries: Seq<(Seq<char>, Value)>,
    k: nat,
    depth: nat,
) -> (at: int)
    requires
        k <= entries.len(),
        unwrapped_entries(entries, k, depth) is Err,
    ensures
        k <= at < entries.len(),
        unwrapped(entries[at].1, depth) == Err::<Value, DecodeError>(
            unwrapped_entries(entries, k, depth)->Err_0,
        ),
        forall|j: int| k <= j < at ==> (#[trigger] unwrapped(entries[j].1, depth)) is Ok,
    decreases entries.len() - k,
{
    if unwrapped(entries[k as int].1, depth) is Err {
        k as int
    } else {
        lemma_entries_first_failure(entries, k + 1, depth)
    }
}

/// A sequence from its `k`-th item on is that item followed by the rest.
proof fn lemma_subrange_head<T>(s: Seq<T>, k: int)
    requires
        0 <= k < s.len(),
    ensures
        seq![s[k]] + s.subrange(k + 1, s.len() as int) == s.subrange(k, s.len() as int),
{
    assert(seq![s[k]] + s.subrange(k + 1, s.len() as int) =~= s.subrange(k, s.len() as int));
}

/// A laid-out tree ends where its span says: the next sibling of its first
/// node stands `span(v)` nodes further on.
pub proof fn lemma_layout_end(vals: Seq<NodeView>, idx: int, v: Value)
    requires
        encodes(vals, idx, v),
    ensures
        next_sibling(vals, idx) == Some(idx + span(v)),
{
    match v {
        Value::List(_) => {
            assert(tag_is_ctn(vals[idx].tag));
        },
        Value::Mapping(_) => {
            assert(tag_is_ctn(vals[idx].tag));
        },
        _ => {
            assert(!tag_is_ctn(vals[idx].tag));
        },
    }
}

/// The elements of a laid-out array decode, from the `k`-th on, to what the
/// trees that they spell decode to.
proof fn lemma_items_decoding(
    vals: Seq<NodeView>,
    cur: int,
    items: Seq<Value>,
    k: nat,
    depth: nat,
)
    requires
        k <= items.len(),
        items_encoded(vals, cur, items, k),
    ensures
        array_items(vals, cur, (items.len() - k) as nat, depth) == unwrapped_items(
            items,
            k,
            depth,
        ),
    decreases items, items.len() - k,
{
    if k < items.len() {
        let item = items[k as int];
        lemma_layout_end(vals, cur, item);
        lemma_tree_decoding(vals, cur, item, depth);
        lemma_items_decoding(vals, cur + span(item), items, k + 1, depth);
    }
}

/// The entries of a laid-out object decode, from the `k`-th on, to their keys
/// with what the trees that their values spell decode to.
proof fn lemma_entries_decoding(
    vals: Seq<NodeView>,
    cur: int,
    entries: Seq<(Seq<char>, Value)>,
    k: nat,
    depth: nat,
)
    requires
        k <= entries.len(),
        entries_encoded(vals, cur, entries, k),
    ensures
        object_entries(vals, cur, (entries.len() - k) as nat, depth) == unwrapped_entries(
            entries,
            k,
            depth,
        ),
    decreases entries, entries.len() - k,
{
    if k < entries.len() {
        let entry = entries[k as int];
        let val = value_of_key(cur);
        lemma_layout_end(vals, val, entry.1);
        lemma_tree_decoding(vals, val, entry.1, depth);
        lemma_entries_decoding(vals, val + span(entry.1), entries, k + 1, depth);
    }
}

/// A well-formed document decodes to what the tree that it spells decodes
/// to: walking the flat layout by tags, lengths and offsets gives the same
/// value, or the same failure, as unwrapping the tree.
pub proof fn lemma_tree_decoding(vals: Seq<NodeView>, idx: int, v: Value, depth: nat)
    requires
        encodes(vals, idx, v),
    ensures
        node_value(vals, idx, depth) == unwrapped(v, depth),
    decreases v, 0nat,
{
    match v {
        Value::List(items) => {
            if depth > 0 {
                lemma_items_decoding(vals, first_child(idx), items, 0, (depth - 1) as nat);
            }
            assert(array_value(vals, idx, depth) == unwrapped(v, depth));
        },
        Value::Mapping(entries) => {
            if depth > 0 {
                lemma_entries_decoding(vals, first_child(idx), entries, 0, (depth - 1) as nat);
                if entries.len() == 1 {
                    let key = first_child(idx);
                    let val = value_of_key(key);
                    let inner = entries[0].1;
                    lemma_layout_end(vals, val, inner);
                    match attribute_tag(entries[0].0) {
                        Some(tag) => {
                            lemma_shorthand_decoding(vals, tag, val, inner, (depth - 1) as nat);
                        },
                        None => {},
                    }
                }
            }
        },
        _ => {},
    }
}

/// A shorthand decodes to what it stands for on the tree that it wraps.
proof fn lemma_shorthand_decoding(
    vals: Seq<NodeView>,
    tag: AttributeTag,
    val: int,
    inner: Value,
    depth: nat,
)
    requires
        encodes(vals, val, inner),
    ensures
        shorthand_value(vals, tag, val, depth) == unwrapped_shorthand(tag, inner, depth),
    decreases inner, 1nat,
{
    match tag {
        AttributeTag::N => {},
        AttributeTag::Ns | AttributeTag::Ss | AttributeTag::Bs => {},
        _ => {
            lemma_tree_decoding(vals, val, inner, depth);
        },
    }
}

/// The items of a list that holds no shorthand and fits the room decode to
/// themselves.
proof fn lemma_plain_items(items: Seq<Value>, k: nat, depth: nat)
    requires
        k <= items.len(),
        forall|j: int| 0 <= j < items.len() ==> fits(#[trigger] items[j], depth),
        forall|j: int| 0 <= j < items.len() ==> no_shorthand(#[trigger] items[j]),
    ensures
        unwrapped_items(items, k, depth) == Ok::<Seq<Value>, DecodeError>(
            items.subrange(k as int, items.len() as int),
        ),
    decreases items, items.len() - k,
{
    let len = items.len();
    if k < len {
        lemma_plain_tree(items[k as int], depth);
        lemma_plain_items(items, k + 1, depth);
        lemma_subrange_head(items, k as int);
    } else {
        assert(items.subrange(k as int, len as int) =~= Seq::<Value>::empty());
    }
}

/// The entries of a map whose values hold no shorthand and fit the room
/// decode to themselves.
proof fn lemma_plain_entries(entries: Seq<(Seq<char>, Value)>, k: nat, depth: nat)
    requires
        k <= entries.len(),
        forall|j: int| 0 <= j < entries.len() ==> fits((#[trigger] entries[j]).1, depth),
        forall|j: int| 0 <= j < entries.len() ==> no_shorthand((#[trigger] entries[j]).1),
    ensures
        unwrapped_entries(entries, k, depth) == Ok::<Seq<(Seq<char>, Value)>, DecodeError>(
            entries.subrange(k as int, entries.len() as int),
        ),
    decreases entries, entries.len() - k,
{
    let len = entries.len();
    if k < len {
        let entry = entries[k as int];
        lemma_plain_tree(entry.1, depth);
        lemma_plain_entries(entries, k + 1, depth);
        lemma_subrange_head(entries, k as int);
        assert((entry.0, entry.1) == entry);
    } else {
        assert(entries.subrange(k as int, len as int) =~= Seq::<(Seq<char>, Value)>::empty());
    }
}

/// A tree that holds no single-entry map under a reserved key, and that fits
/// the room given, decodes to itself.
pub proof fn lemma_plain_tree(v: Value, depth: nat)
    requires
        fits(v, depth),
        no_shorthand(v),
    ensures
        unwrapped(v, depth) == Ok::<Value, DecodeError>(v),
    decreases v, 0nat,
{
    match v {
        Value::List(items) => {
            assert forall|j: int| 0 <= j < items.len() implies fits(
                #[trigger] items[j],
                (depth - 1) as nat,
            ) && no_shorthand(items[j]) by {}
            lemma_plain_items(items, 0, (depth - 1) as nat);
            assert(items.subrange(0, items.len() as int) =~= items);
        },
        Value::Mapping(entries) => {
            assert forall|j: int| 0 <= j < entries.len() implies fits(
                (#[trigger] entries[j]).1,
                (depth - 1) as nat,
            ) && no_shorthand(entries[j].1) by {}
            lemma_plain_entries(entries, 0, (depth - 1) as nat);
            assert(entries.subrange(0, entries.len() as int) =~= entries);
        },
        _ => {},
    }
}

/// A well-formed document that holds no single-entry object with a reserved
/// key decodes to the very tree that it spells: every scalar, every list in
/// the order of its elements, every map in the order of its entries. The
/// tree must nest no deeper than the room given.
pub proof fn lemma_plain_tree_decodes(vals: Seq<NodeView>, idx: int, v: Value, depth: nat)
    requires
        encodes(vals, idx, v),
        fits(v, depth),
        no_shorthand(v),
    ensures
        node_value(vals, idx, depth) == Ok::<Value, DecodeError>(v),
{
    lemma_tree_decoding(vals, idx, v, depth);
    lemma_plain_tree(v, depth);
}

/// The same through the entry point: a parsed document that holds no
/// single-entry object with a reserved key, and nests no deeper than
/// `MAX_DEPTH`, decodes from its root to the tree that it spells.
pub proof fn lemma_plain_document_decodes(vals: Seq<NodeView>, root: int, v: Value)
    requires
        encodes(vals, root, v),
        fits(v, MAX_DEPTH as nat),
        no_shorthand(v),
    ensures
        document_value(Ok(vals), root) == Ok::<Value, DeserializeErrorView>(v),
{
    lemma_plain_tree_decodes(vals, root, v, MAX_DEPTH as nat);
}

/// Decoding is idempotent across a round trip: where a well-formed document
/// with no single-entry object under a reserved key decodes to a value, any
/// well-formed document that spells that value decodes to the same value
/// again.
pub proof fn lemma_decode_idempotent(
    vals: Seq<NodeView>,
    idx: int,
    v: Value,
    again: Seq<NodeView>,
    again_idx: int,
    depth: nat,
)
    requires
        encodes(vals, idx, v),
        fits(v, depth),
        no_shorthand(v),
        node_value(vals, idx, depth) is Ok,
        encodes(again, again_idx, node_value(vals, idx, depth)->Ok_0),
    ensures
        node_value(again, again_idx, depth) == node_value(vals, idx, depth),
{
    lemma_plain_tree_decodes(vals, idx, v, depth);
    lemma_plain_tree_decodes(again, again_idx, v, depth);
}

} // verus!
