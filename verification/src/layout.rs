//! A layout for every tree: the flat document that spells a given value.

use crate::decode::node_value;
use crate::laws::{
    encodes, entries_encoded, entry_spans_from, items_encoded, lemma_tree_decoding, span,
    spans_from, unwrapped,
};
use crate::node::{
    NodeView, TAG_ARRAY, TAG_DOUBLE, TAG_FALSE, TAG_INT64, TAG_NULL, TAG_OBJECT, TAG_STRING,
    TAG_TRUE, TAG_UINT64,
};
use crate::value::Value;
use vstd::prelude::*;

verus! {

/// The eight payload bytes that hold a signed integer in two's complement.
pub open spec fn bits_of_signed(i: i64) -> u64 {
    if i >= 0 {
        i as u64
    } else {
        (i + 0x1_0000_0000_0000_0000) as u64
    }
}

/// A node without text.
pub open spec fn plain_node(tag: u64, uni: u64) -> NodeView {
    NodeView { tag, uni, text: Seq::empty() }
}

/// The first node of a container of `len` entries whose layout takes `nodes`
/// nodes in all.
pub open spec fn container_node(kind: u64, len: nat, nodes: nat) -> NodeView {
    plain_node((len * 256 + kind) as u64, (16 * nodes) as u64)
}

/// Whether a tree can be laid out: every container has fewer than 2^56
/// entries, and the byte size of its layout fits the payload of a node.
pub open spec fn representable(v: Value) -> bool
    decreases v,
{
    match v {
        Value::List(items) => {
            &&& items.len() < 0x100_0000_0000_0000
            &&& 16 * span(v) <= u64::MAX
            &&& forall|k: int| 0 <= k < items.len() ==> representable(#[trigger] items[k])
        },
        Value::Mapping(entries) => {
            &&& entries.len() < 0x100_0000_0000_0000
            &&& 16 * span(v) <= u64::MAX
            &&& forall|k: int| 0 <= k < entries.len() ==> representable((#[trigger] entries[k]).1)
        },
        _ => true,
    }
}

/// The layout of a tree: its first node, then for a container the layouts of
/// its children one after another, each value of an object behind a string
/// node with its key.
pub open spec fn layout(v: Value) -> Seq<NodeView>
    decreases v, 0nat,
{
    match v {
        Value::Null => seq![plain_node(TAG_NULL, 0)],
        Value::Boolean(b) => seq![plain_node(if b { TAG_TRUE } else { TAG_FALSE }, 0)],
        Value::SignedInteger(i) => seq![plain_node(TAG_INT64, bits_of_signed(i))],
        Value::UnsignedInteger(u) => seq![plain_node(TAG_UINT64, u)],
        Value::Float(bits) => seq![plain_node(TAG_DOUBLE, bits)],
        Value::String(s) => seq![NodeView { tag: TAG_STRING, uni: 0, text: s }],
        Value::List(items) => seq![container_node(TAG_ARRAY, items.len(), span(v))]
            + layout_items(items, 0),
        Value::Mapping(entries) => seq![container_node(TAG_OBJECT, entries.len(), span(v))]
            + layout_entries(entries, 0),
    }
}

/// The layouts of `items` from the `k`-th on, one after another.
pub open spec fn layout_items(items: Seq<Value>, k: nat) -> Seq<NodeView>
    decreases items, items.len() - k,
{
    if k < items.len() {
        layout(items[k as int]) + layout_items(items, k + 1)
    } else {
        Seq::empty()
    }
}

/// The layouts of `entries` from the `k`-th on, one after another, each
/// behind its key.
pub open spec fn layout_entries(entries: Seq<(Seq<char>, Value)>, k: nat) -> Seq<NodeView>
    decreases entries, entries.len() - k,
{
    if k < entries.len() {
        seq![NodeView { tag: TAG_STRING, uni: 0, text: entries[k as int].0 }] + layout(
            entries[k as int].1,
        ) + layout_entries(entries, k + 1)
    } else {
        Seq::empty()
    }
}

/// A layout takes as many nodes as the span of its tree.
pub proof fn lemma_layout_len(v: Value)
    ensures
        layout(v).len() == span(v),
    decreases v, 0nat,
{
    match v {
        Value::List(items) => {
            lemma_layout_items_len(items, 0);
        },
        Value::Mapping(entries) => {
            lemma_layout_entries_len(entries, 0);
        },
        _ => {},
    }
}

proof fn lemma_layout_items_len(items: Seq<Value>, k: nat)
    ensures
        layout_items(items, k).len() == spans_from(items, k),
    decreases items, items.len() - k,
{
    if k < items.len() {
        lemma_layout_len(items[k as int]);
        lemma_layout_items_len(items, k + 1);
    }
}

proof fn lemma_layout_entries_len(entries: Seq<(Seq<char>, Value)>, k: nat)
    ensures
        layout_entries(entries, k).len() == entry_spans_from(entries, k),
    decreases entries, entries.len() - k,
{
    if k < entries.len() {
        lemma_layout_len(entries[k as int].1);
        lemma_layout_entries_len(entries, k + 1);
    }
}

/// The tag of a container's first node carries its kind and its length.
proof fn lemma_container_tag(kind: u64, len: nat)
    requires
        kind < 32,
        len < 0x100_0000_0000_0000,
    ensures
        (len * 256 + kind) as u64 as int % 32 == kind,
        (len * 256 + kind) as u64 as int / 256 == len,
{
}

/// Wherever the layout of a representable tree stands inside a document, the
/// document spells the tree there.
pub proof fn lemma_layout_in_place(before: Seq<NodeView>, v: Value, after: Seq<NodeView>)
    requires
        representable(v),
    ensures
        encodes(before + layout(v) + after, before.len() as int, v),
    decreases v, 0nat,
{
    let vals = before + layout(v) + after;
    let idx = before.len() as int;
    lemma_layout_len(v);
    assert(vals[idx] == layout(v)[0]);
    match v {
        Value::List(items) => {
            lemma_container_tag(TAG_ARRAY, items.len());
            let head = seq![container_node(TAG_ARRAY, items.len(), span(v))];
            lemma_items_in_place(before + head, items, 0, after);
            assert(before + head + layout_items(items, 0) + after =~= vals);
        },
        Value::Mapping(entries) => {
            lemma_container_tag(TAG_OBJECT, entries.len());
            let head = seq![container_node(TAG_OBJECT, entries.len(), span(v))];
            lemma_entries_in_place(before + head, entries, 0, after);
            assert(before + head + layout_entries(entries, 0) + after =~= vals);
        },
        _ => {},
    }
}

proof fn lemma_items_in_place(
    before: Seq<NodeView>,
    items: Seq<Value>,
    k: nat,
    after: Seq<NodeView>,
)
    requires
        forall|j: int| 0 <= j < items.len() ==> representable(#[trigger] items[j]),
    ensures
        items_encoded(before + layout_items(items, k) + after, before.len() as int, items, k),
    decreases items, items.len() - k,
{
    if k < items.len() {
        let item = items[k as int];
        let vals = before + layout_items(items, k) + after;
        let rest = layout_items(items, k + 1);
        lemma_layout_len(item);
        lemma_layout_in_place(before, item, rest + after);
        assert(before + layout(item) + (rest + after) =~= vals);
        lemma_items_in_place(before + layout(item), items, k + 1, after);
        assert(before + layout(item) + rest + after =~= vals);
    }
}

proof fn lemma_entries_in_place(
    before: Seq<NodeView>,
    entries: Seq<(Seq<char>, Value)>,
    k: nat,
    after: Seq<NodeView>,
)
    requires
        forall|j: int| 0 <= j < entries.len() ==> representable((#[trigger] entries[j]).1),
    ensures
        entries_encoded(
            before + layout_entries(entries, k) + after,
            before.len() as int,
            entries,
            k,
        ),
    decreases entries, entries.len() - k,
{
    if k < entries.len() {
        let entry = entries[k as int];
        let vals = before + layout_entries(entries, k) + after;
        let key = seq![NodeView { tag: TAG_STRING, uni: 0, text: entry.0 }];
        let rest = layout_entries(entries, k + 1);
        lemma_layout_len(entry.1);
        assert(vals[before.len() as int] == key[0]);
        lemma_layout_in_place(before + key, entry.1, rest + after);
        assert(before + key + layout(entry.1) + (rest + after) =~= vals);
        lemma_entries_in_place(before + key + layout(entry.1), entries, k + 1, after);
        assert(before + key + layout(entry.1) + rest + after =~= vals);
    }
}

/// Every representable tree has a document that spells it, and decoding that
/// document gives what the tree decodes to.
pub proof fn lemma_layout_decoding(v: Value, depth: nat)
    requires
        representable(v),
    ensures
        encodes(layout(v), 0, v),
        node_value(layout(v), 0, depth) == unwrapped(v, depth),
{
    lemma_layout_in_place(Seq::empty(), v, Seq::empty());
    assert(Seq::<NodeView>::empty() + layout(v) + Seq::<NodeView>::empty() =~= layout(v));
    lemma_tree_decoding(layout(v), 0, v, depth);
}

} // verus!
