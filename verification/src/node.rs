//! The flat document layout: packed tags, length-in-tag, sibling-skip offsets.

use crate::error::DecodeError;
use vstd::prelude::*;

verus! {

/// Low three bits of a tag: the node's type.
pub const YYJSON_TYPE_MASK: u64 = 0x07;

/// Bits three and four of a tag: the node's subtype.
pub const YYJSON_SUBTYPE_MASK: u64 = 0x18;

/// Number of low tag bits below the length.
pub const YYJSON_TAG_BIT: u64 = 8;

/// Size in bytes of one node in the layout.
pub const YYJSON_VAL_SIZE: u64 = 16;

/// Type and subtype bits together.
pub const TYPE_AND_SUBTYPE_MASK: u64 = YYJSON_TYPE_MASK | YYJSON_SUBTYPE_MASK;

pub const TAG_ARRAY: u64 = 0b00000110;

pub const TAG_DOUBLE: u64 = 0b00010100;

pub const TAG_FALSE: u64 = 0b00000011;

pub const TAG_INT64: u64 = 0b00001100;

pub const TAG_NULL: u64 = 0b00000010;

pub const TAG_OBJECT: u64 = 0b00000111;

pub const TAG_STRING: u64 = 0b00000101;

pub const TAG_TRUE: u64 = 0b00001011;

pub const TAG_UINT64: u64 = 0b00000100;

/// One node of the flat layout.
///
/// `tag` packs the type and subtype in its low five bits and a length in the
/// bits above the low byte. `uni` is the eight payload bytes: the value of an
/// integer node, the bit pattern of a floating-point node, and for a container
/// the distance in bytes to its next sibling. `text` is the payload of a
/// string node.
#[derive(Clone, Debug, PartialEq, Eq)]
pub struct YyjsonVal {
    pub tag: u64,
    pub uni: u64,
    pub text: String,
}

/// What the rules of the layout read of a node.
pub struct NodeView {
    pub tag: u64,
    pub uni: u64,
    pub text: Seq<char>,
}

impl View for YyjsonVal {
    type V = NodeView;

    open spec fn view(&self) -> NodeView {
        NodeView { tag: self.tag, uni: self.uni, text: self.text@ }
    }
}

/// The nine kinds of node.
#[derive(Clone, Copy, Debug, PartialEq, Eq, Structural)]
pub enum ElementType {
    String,
    Uint64,
    Int64,
    Double,
    Null,
    True,
    False,
    Array,
    Object,
}

/// The type and subtype bits of a tag, as a number below 32.
pub open spec fn tag_kind_bits(tag: u64) -> int {
    tag as int % 32
}

/// The kind that a tag stands for, if it is one of the nine known patterns.
pub open spec fn tag_kind(tag: u64) -> Option<ElementType> {
    let bits = tag_kind_bits(tag);
    if bits == 5 {
        Some(ElementType::String)
    } else if bits == 4 {
        Some(ElementType::Uint64)
    } else if bits == 12 {
        Some(ElementType::Int64)
    } else if bits == 20 {
        Some(ElementType::Double)
    } else if bits == 2 {
        Some(ElementType::Null)
    } else if bits == 11 {
        Some(ElementType::True)
    } else if bits == 3 {
        Some(ElementType::False)
    } else if bits == 6 {
        Some(ElementType::Array)
    } else if bits == 7 {
        Some(ElementType::Object)
    } else {
        None
    }
}

/// The length packed into a tag: the bits above the low byte.
pub open spec fn tag_len(tag: u64) -> int {
    tag as int / 256
}

/// Whether a tag has the type bits of a container, whatever its subtype.
pub open spec fn tag_is_ctn(tag: u64) -> bool {
    tag as int % 8 >= 6
}

impl ElementType {
    /// Classifies a node by the type and subtype bits of its tag. A tag
    /// outside the nine known patterns gives `None`.
    pub fn from_tag(elem: &YyjsonVal) -> (kind: Option<ElementType>)
        ensures
            kind == tag_kind(elem.tag),
    {
        let tag: u64 = elem.tag;
        let bits: u64 = tag & TYPE_AND_SUBTYPE_MASK;
        assert(tag & (0x07u64 | 0x18u64) == tag % 32) by (bit_vector);
        if bits == TAG_STRING {
            Some(ElementType::String)
        } else if bits == TAG_UINT64 {
            Some(ElementType::Uint64)
        } else if bits == TAG_INT64 {
            Some(ElementType::Int64)
        } else if bits == TAG_DOUBLE {
            Some(ElementType::Double)
        } else if bits == TAG_NULL {
            Some(ElementType::Null)
        } else if bits == TAG_TRUE {
            Some(ElementType::True)
        } else if bits == TAG_FALSE {
            Some(ElementType::False)
        } else if bits == TAG_ARRAY {
            Some(ElementType::Array)
        } else if bits == TAG_OBJECT {
            Some(ElementType::Object)
        } else {
            None
        }
    }
}

/// The length packed into a node's tag: the entry count of a container.
pub fn yyjson_get_len(val: &YyjsonVal) -> (len: u64)
    ensures
        len == tag_len(val.tag),
{
    let tag: u64 = val.tag;
    assert(tag >> 8 == tag / 256) by (bit_vector);
    tag >> YYJSON_TAG_BIT
}

/// Whether a node is a container, by the type bits of its tag alone.
pub fn yyjson_is_ctn(val: &YyjsonVal) -> (ctn: bool)
    ensures
        ctn == tag_is_ctn(val.tag),
{
    let tag: u64 = val.tag;
    assert((tag & 0b00000110 == 0b00000110) == (tag % 8 >= 6)) by (bit_vector);
    tag & 0b00000110 == 0b00000110
}

/// A parsed document: its nodes in layout order, and the place of its root.
#[derive(Clone, Debug, PartialEq, Eq)]
pub struct YyjsonDoc {
    pub vals: Vec<YyjsonVal>,
    pub root: usize,
}

impl View for YyjsonDoc {
    type V = Seq<NodeView>;

    open spec fn view(&self) -> Seq<NodeView> {
        self.vals@.map_values(|v: YyjsonVal| v@)
    }
}

/// The place of a document's root node.
pub fn yyjson_doc_get_root(doc: &YyjsonDoc) -> (root: usize)
    ensures
        root == doc.root,
{
    doc.root
}

/// The place after the node at `idx`, where its first child stands if it is a
/// container with entries.
pub open spec fn first_child(idx: int) -> int {
    idx + 1
}

/// The place of the value that belongs to the key at `key`: the key's
/// immediate successor.
pub open spec fn value_of_key(key: int) -> int {
    key + 1
}

/// The place of the next sibling of the node at `idx`, or `None` where the
/// layout gives none: `idx` is outside the document, or the node is a
/// container whose offset is zero, not a multiple of the node size, or leads
/// beyond the end of the document. The place just after the last node counts
/// as inside.
pub open spec fn next_sibling(vals: Seq<NodeView>, idx: int) -> Option<int> {
    if !(0 <= idx < vals.len()) {
        None
    } else if tag_is_ctn(vals[idx].tag) {
        let ofs = vals[idx].uni as int;
        if ofs % 16 == 0 && 0 < ofs && idx + ofs / 16 <= vals.len() {
            Some(idx + ofs / 16)
        } else {
            None
        }
    } else {
        Some(idx + 1)
    }
}

/// Stepping to the next sibling always moves forward, and never beyond the
/// place just after the last node.
pub proof fn lemma_next_sibling_forward(vals: Seq<NodeView>, idx: int)
    requires
        next_sibling(vals, idx) is Some,
    ensures
        0 <= idx < next_sibling(vals, idx)->Some_0 <= vals.len(),
{
}

/// The place of a container's first child.
pub fn yyjson_get_first(ctn: usize) -> (first: usize)
    requires
        ctn < usize::MAX,
    ensures
        first == first_child(ctn as int),
{
    ctn + 1
}

/// The place of the value that follows the key at `key`.
pub fn yyjson_obj_iter_get_val(key: usize) -> (val: usize)
    requires
        key < usize::MAX,
    ensures
        val == value_of_key(key as int),
{
    key + 1
}

/// Steps over the node at `val` to its next sibling: over a container by its
/// recorded offset, over any other node by one node.
pub fn yyjson_get_next(doc: &YyjsonDoc, val: usize) -> (next: Result<usize, DecodeError>)
    ensures
        match next_sibling(doc@, val as int) {
            Some(n) => next == Ok::<usize, DecodeError>(n as usize) && n <= doc@.len() <= usize::MAX,
            None => next == Err::<usize, DecodeError>(DecodeError::InternalConsistency),
        },
{
    let n: usize = doc.vals.len();
    if val >= n {
        return Err(DecodeError::InternalConsistency);
    }
    let node = &doc.vals[val];
    assert(doc@[val as int] == node@);
    if yyjson_is_ctn(node) {
        let ofs: u64 = node.uni;
        if ofs % YYJSON_VAL_SIZE != 0 || ofs == 0 {
            return Err(DecodeError::InternalConsistency);
        }
        let step: u64 = ofs / YYJSON_VAL_SIZE;
        let room: usize = n - val;
        if step > room as u64 {
            return Err(DecodeError::InternalConsistency);
        }
        Ok(val + step as usize)
    } else {
        Ok(val + 1)
    }
}

/// Cursor over the elements of one array.
#[derive(Clone, Copy, Debug, PartialEq, Eq)]
pub struct YyjsonArrIter {
    /// Number of elements handed out so far.
    pub idx: u64,
    /// Declared length of the array.
    pub max: u64,
    /// Place of the element that comes next.
    pub cur: usize,
}

/// Cursor over the entries of one object.
#[derive(Clone, Copy, Debug, PartialEq, Eq)]
pub struct YyjsonObjIter {
    /// Number of entries handed out so far.
    pub idx: u64,
    /// Declared length of the object.
    pub max: u64,
    /// Place of the key that comes next.
    pub cur: usize,
    /// Place of the object itself.
    pub obj: usize,
}

/// Hands out the place of the next element and moves the cursor past it.
///
/// After `max` elements the answer is `Ok(None)`. Where the layout gives the
/// element no next sibling the answer is an error. In both cases the cursor
/// stays as it was.
pub fn yyjson_arr_iter_next(doc: &YyjsonDoc, iter: &mut YyjsonArrIter) -> (val: Result<
    Option<usize>,
    DecodeError,
>)
    ensures
        old(iter).idx >= old(iter).max ==> val == Ok::<Option<usize>, DecodeError>(None)
            && *final(iter) == *old(iter),
        old(iter).idx < old(iter).max ==> match next_sibling(doc@, old(iter).cur as int) {
            Some(n) => val == Ok::<Option<usize>, DecodeError>(Some(old(iter).cur))
                && old(iter).cur < doc@.len() && final(iter).cur == n && final(iter).idx == old(
                iter,
            ).idx + 1 && final(iter).max == old(iter).max,
            None => val == Err::<Option<usize>, DecodeError>(DecodeError::InternalConsistency)
                && *final(iter) == *old(iter),
        },
{
    if iter.idx >= iter.max {
        return Ok(None);
    }
    let val: usize = iter.cur;
    match yyjson_get_next(doc, val) {
        Ok(next) => {
            iter.cur = next;
            iter.idx = iter.idx + 1;
            Ok(Some(val))
        },
        Err(e) => Err(e),
    }
}

/// Hands out the place of the next key and moves the cursor past the value
/// that follows it.
///
/// After `max` entries the answer is `Ok(None)`. Where the key has no value
/// inside the document, or the layout gives the value no next sibling, the
/// answer is an error. In both cases the cursor stays as it was.
pub fn yyjson_obj_iter_next(doc: &YyjsonDoc, iter: &mut YyjsonObjIter) -> (key: Result<
    Option<usize>,
    DecodeError,
>)
    ensures
        old(iter).idx >= old(iter).max ==> key == Ok::<Option<usize>, DecodeError>(None)
            && *final(iter) == *old(iter),
        old(iter).idx < old(iter).max ==> match next_sibling(
            doc@,
            value_of_key(old(iter).cur as int),
        ) {
            Some(n) => key == Ok::<Option<usize>, DecodeError>(Some(old(iter).cur))
                && old(iter).cur + 1 < doc@.len() && final(iter).cur == n && final(iter).idx
                == old(iter).idx + 1 && final(iter).max == old(iter).max && final(iter).obj
                == old(iter).obj,
            None => key == Err::<Option<usize>, DecodeError>(DecodeError::InternalConsistency)
                && *final(iter) == *old(iter),
        },
{
    if iter.idx >= iter.max {
        return Ok(None);
    }
    let key: usize = iter.cur;
    if key >= doc.vals.len() {
        return Err(DecodeError::InternalConsistency);
    }
    match yyjson_get_next(doc, yyjson_obj_iter_get_val(key)) {
        Ok(next) => {
            iter.cur = next;
            iter.idx = iter.idx + 1;
            Ok(Some(key))
        },
        Err(e) => Err(e),
    }
}

} // verus!
