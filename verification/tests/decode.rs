use ddb_decode::decode::{parse_ddb_node, parse_node, parse_yy_array, parse_yy_object, parse_yy_string, MAX_DEPTH};
use ddb_decode::deserialize::deserialize_yyjson;
use ddb_decode::error::{DecodeError, DeserializeError, ParseFailure};
use ddb_decode::node::{
    YyjsonDoc, YyjsonVal, TAG_ARRAY, TAG_DOUBLE, TAG_FALSE, TAG_INT64, TAG_NULL, TAG_OBJECT,
    TAG_STRING, TAG_TRUE, TAG_UINT64,
};
use ddb_decode::shorthand::AttributeTag;
use ddb_decode::value::NativeValue;

/// A JSON tree, as a parser would see it.
enum J {
    Null,
    Bool(bool),
    U(u64),
    I(i64),
    F(f64),
    S(&'static str),
    A(Vec<J>),
    O(Vec<(&'static str, J)>),
}

fn val(tag: u64, uni: u64) -> YyjsonVal {
    YyjsonVal { tag, uni, text: String::new() }
}

fn text(s: &str) -> YyjsonVal {
    YyjsonVal { tag: ((s.len() as u64) << 8) | TAG_STRING, uni: 0, text: s.to_string() }
}

/// Lays a tree out as the parser does: a container, then its children.
fn lay_out(j: &J, out: &mut Vec<YyjsonVal>) {
    match j {
        J::Null => out.push(val(TAG_NULL, 0)),
        J::Bool(true) => out.push(val(TAG_TRUE, 0)),
        J::Bool(false) => out.push(val(TAG_FALSE, 0)),
        J::U(u) => out.push(val(TAG_UINT64, *u)),
        J::I(i) => out.push(val(TAG_INT64, *i as u64)),
        J::F(f) => out.push(val(TAG_DOUBLE, f.to_bits())),
        J::S(s) => out.push(text(s)),
        J::A(items) => {
            let at = out.len();
            out.push(val(0, 0));
            for item in items {
                lay_out(item, out);
            }
            let nodes = (out.len() - at) as u64;
            out[at] = val(((items.len() as u64) << 8) | TAG_ARRAY, 16 * nodes);
        }
        J::O(entries) => {
            let at = out.len();
            out.push(val(0, 0));
            for (key, value) in entries {
                out.push(text(key));
                lay_out(value, out);
            }
            let nodes = (out.len() - at) as u64;
            out[at] = val(((entries.len() as u64) << 8) | TAG_OBJECT, 16 * nodes);
        }
    }
}

fn doc(j: &J) -> YyjsonDoc {
    let mut vals = Vec::new();
    lay_out(j, &mut vals);
    YyjsonDoc { vals, root: 0 }
}

fn decode(j: J) -> Result<NativeValue, DeserializeError> {
    deserialize_yyjson(Ok(doc(&j)))
}

/// The tree itself as a native value, with nothing unwrapped.
fn plain(j: &J) -> NativeValue {
    match j {
        J::Null => NativeValue::Null,
        J::Bool(b) => NativeValue::Boolean(*b),
        J::U(u) => NativeValue::UnsignedInteger(*u),
        J::I(i) => NativeValue::SignedInteger(*i),
        J::F(f) => NativeValue::Float(f.to_bits()),
        J::S(s) => NativeValue::String(s.to_string()),
        J::A(items) => NativeValue::List(items.iter().map(plain).collect()),
        J::O(entries) => {
            NativeValue::Mapping(entries.iter().map(|(k, v)| (k.to_string(), plain(v))).collect())
        }
    }
}

/// What an encoder makes of a native value, laid out again.
fn lay_out_value(v: &NativeValue, out: &mut Vec<YyjsonVal>) {
    match v {
        NativeValue::Null => out.push(val(TAG_NULL, 0)),
        NativeValue::Boolean(true) => out.push(val(TAG_TRUE, 0)),
        NativeValue::Boolean(false) => out.push(val(TAG_FALSE, 0)),
        NativeValue::UnsignedInteger(u) => out.push(val(TAG_UINT64, *u)),
        NativeValue::SignedInteger(i) => out.push(val(TAG_INT64, *i as u64)),
        NativeValue::Float(bits) => out.push(val(TAG_DOUBLE, *bits)),
        NativeValue::String(s) => out.push(text(s)),
        NativeValue::List(items) => {
            let at = out.len();
            out.push(val(0, 0));
            for item in items {
                lay_out_value(item, out);
            }
            let nodes = (out.len() - at) as u64;
            out[at] = val(((items.len() as u64) << 8) | TAG_ARRAY, 16 * nodes);
        }
        NativeValue::Mapping(entries) => {
            let at = out.len();
            out.push(val(0, 0));
            for (key, value) in entries {
                out.push(text(key));
                lay_out_value(value, out);
            }
            let nodes = (out.len() - at) as u64;
            out[at] = val(((entries.len() as u64) << 8) | TAG_OBJECT, 16 * nodes);
        }
    }
}

fn string(s: &str) -> NativeValue {
    NativeValue::String(s.to_string())
}

fn failed(e: DecodeError) -> Result<NativeValue, DeserializeError> {
    Err(DeserializeError::Decode(e))
}

fn sample() -> J {
    J::O(vec![
        ("zeta", J::A(vec![J::U(1), J::I(-2), J::F(2.5), J::Null, J::Bool(true), J::Bool(false)])),
        ("alpha", J::O(vec![("x", J::S("y")), ("S", J::S("kept")), ("N", J::S("1"))])),
        ("empty_list", J::A(vec![])),
        ("empty_map", J::O(vec![])),
        ("one", J::O(vec![("id", J::A(vec![J::A(vec![J::S("deep")])]))])),
        ("text", J::S("héllo")),
    ])
}

#[test]
fn string_shorthand_unwraps_to_the_string() {
    assert_eq!(decode(J::O(vec![("S", J::S("x"))])), Ok(string("x")));
}

#[test]
fn single_entry_object_with_ordinary_key_stays_a_map() {
    assert_eq!(
        decode(J::O(vec![("x", J::S("y"))])),
        Ok(NativeValue::Mapping(vec![("x".to_string(), string("y"))]))
    );
}

#[test]
fn number_shorthand_coerces_its_text() {
    assert_eq!(decode(J::O(vec![("N", J::S("42"))])), Ok(NativeValue::SignedInteger(42)));
    assert_eq!(
        decode(J::O(vec![("N", J::S("3.14"))])),
        Ok(NativeValue::Float(3.14f64.to_bits()))
    );
    assert_eq!(
        decode(J::O(vec![("N", J::S("18446744073709551615"))])),
        Ok(NativeValue::UnsignedInteger(u64::MAX))
    );
    assert_eq!(decode(J::O(vec![("N", J::S("-17"))])), Ok(NativeValue::SignedInteger(-17)));
}

#[test]
fn number_shorthand_with_bad_text_is_a_coercion_error() {
    assert_eq!(
        decode(J::O(vec![("N", J::S("not-a-number"))])),
        failed(DecodeError::NumericCoercion)
    );
    assert_eq!(decode(J::O(vec![("N", J::S(""))])), failed(DecodeError::NumericCoercion));
}

#[test]
fn number_shorthand_around_something_else_than_a_string_is_a_coercion_error() {
    assert_eq!(decode(J::O(vec![("N", J::U(5))])), failed(DecodeError::NumericCoercion));
    assert_eq!(decode(J::O(vec![("N", J::Null)])), failed(DecodeError::NumericCoercion));
    assert_eq!(
        decode(J::O(vec![("N", J::A(vec![J::S("1")]))])),
        failed(DecodeError::NumericCoercion)
    );
}

#[test]
fn map_shorthand_unwraps_what_it_wraps() {
    assert_eq!(decode(J::O(vec![("M", J::O(vec![("S", J::S("x"))]))])), Ok(string("x")));
    assert_eq!(
        decode(J::O(vec![("M", J::O(vec![("a", J::O(vec![("N", J::S("1"))])), ("b", J::O(vec![("S", J::S("t"))]))]))])),
        Ok(NativeValue::Mapping(vec![
            ("a".to_string(), NativeValue::SignedInteger(1)),
            ("b".to_string(), string("t")),
        ]))
    );
}

#[test]
fn list_shorthand_unwraps_each_element() {
    assert_eq!(
        decode(J::O(vec![(
            "L",
            J::A(vec![J::O(vec![("S", J::S("a"))]), J::O(vec![("N", J::S("1.5"))]), J::U(3)])
        )])),
        Ok(NativeValue::List(vec![
            string("a"),
            NativeValue::Float(1.5f64.to_bits()),
            NativeValue::UnsignedInteger(3),
        ]))
    );
}

#[test]
fn other_shorthands_give_the_wrapped_value_as_it_is() {
    assert_eq!(decode(J::O(vec![("B", J::S("aGVsbG8="))])), Ok(string("aGVsbG8=")));
    assert_eq!(decode(J::O(vec![("BOOL", J::Bool(true))])), Ok(NativeValue::Boolean(true)));
    assert_eq!(decode(J::O(vec![("BOOL", J::Bool(false))])), Ok(NativeValue::Boolean(false)));
    assert_eq!(decode(J::O(vec![("NULL", J::Bool(true))])), Ok(NativeValue::Boolean(true)));
    // A reserved key around a value of another kind still unwraps.
    assert_eq!(decode(J::O(vec![("S", J::U(5))])), Ok(NativeValue::UnsignedInteger(5)));
    assert_eq!(decode(J::O(vec![("NULL", J::Null)])), Ok(NativeValue::Null));
}

#[test]
fn set_shorthands_are_not_implemented() {
    let unimplemented = failed(DecodeError::UnimplementedShorthand);
    assert_eq!(decode(J::O(vec![("NS", J::A(vec![J::S("1"), J::S("2")]))])), unimplemented);
    assert_eq!(decode(J::O(vec![("SS", J::A(vec![J::S("a")]))])), unimplemented);
    assert_eq!(decode(J::O(vec![("BS", J::A(vec![]))])), unimplemented);
    assert!(!matches!(unimplemented, Err(DeserializeError::Syntax { .. })));
    // Also below the root.
    assert_eq!(
        decode(J::A(vec![J::U(1), J::O(vec![("a", J::U(1)), ("b", J::O(vec![("NS", J::A(vec![]))]))])])),
        unimplemented
    );
}

#[test]
fn malformed_text_is_a_syntax_error_with_its_offset() {
    let failure = ParseFailure { message: "unexpected end of data".to_string(), offset: 5 };
    assert_eq!(
        deserialize_yyjson(Err(failure)),
        Err(DeserializeError::Syntax { message: "unexpected end of data".to_string(), offset: 5 })
    );
    let at_start = ParseFailure { message: String::new(), offset: 0 };
    assert_eq!(
        deserialize_yyjson(Err(at_start)),
        Err(DeserializeError::Syntax { message: String::new(), offset: 0 })
    );
}

#[test]
fn empty_containers_decode_to_empty_containers() {
    assert_eq!(decode(J::A(vec![])), Ok(NativeValue::List(vec![])));
    assert_eq!(decode(J::O(vec![])), Ok(NativeValue::Mapping(vec![])));
}

#[test]
fn scalars_decode_to_themselves() {
    assert_eq!(decode(J::Null), Ok(NativeValue::Null));
    assert_eq!(decode(J::Bool(true)), Ok(NativeValue::Boolean(true)));
    assert_eq!(decode(J::Bool(false)), Ok(NativeValue::Boolean(false)));
    assert_eq!(decode(J::U(u64::MAX)), Ok(NativeValue::UnsignedInteger(u64::MAX)));
    assert_eq!(decode(J::I(-1)), Ok(NativeValue::SignedInteger(-1)));
    assert_eq!(decode(J::I(i64::MIN)), Ok(NativeValue::SignedInteger(i64::MIN)));
    assert_eq!(decode(J::F(-0.0)), Ok(NativeValue::Float((-0.0f64).to_bits())));
    assert_eq!(decode(J::S("")), Ok(string("")));
    assert_eq!(decode(J::S("S")), Ok(string("S")));
}

#[test]
fn document_without_shorthand_decodes_to_its_own_tree() {
    let tree = sample();
    assert_eq!(deserialize_yyjson(Ok(doc(&tree))), Ok(plain(&tree)));
}

#[test]
fn order_of_elements_and_keys_is_kept() {
    let decoded = decode(J::O(vec![("b", J::A(vec![J::U(2), J::U(1)])), ("a", J::U(0)), ("c", J::U(3))]));
    assert_eq!(
        decoded,
        Ok(NativeValue::Mapping(vec![
            (
                "b".to_string(),
                NativeValue::List(vec![
                    NativeValue::UnsignedInteger(2),
                    NativeValue::UnsignedInteger(1)
                ])
            ),
            ("a".to_string(), NativeValue::UnsignedInteger(0)),
            ("c".to_string(), NativeValue::UnsignedInteger(3)),
        ]))
    );
}

#[test]
fn objects_with_more_than_one_entry_are_never_shorthand() {
    assert_eq!(
        decode(J::O(vec![("S", J::S("x")), ("N", J::S("oops"))])),
        Ok(NativeValue::Mapping(vec![
            ("S".to_string(), string("x")),
            ("N".to_string(), string("oops")),
        ]))
    );
    assert_eq!(
        decode(J::O(vec![("NS", J::A(vec![])), ("x", J::Null)])),
        Ok(NativeValue::Mapping(vec![
            ("NS".to_string(), NativeValue::List(vec![])),
            ("x".to_string(), NativeValue::Null),
        ]))
    );
}

#[test]
fn decoding_again_what_was_decoded_gives_the_same_value() {
    let first = deserialize_yyjson(Ok(doc(&sample()))).unwrap();
    let mut vals = Vec::new();
    lay_out_value(&first, &mut vals);
    let second = deserialize_yyjson(Ok(YyjsonDoc { vals, root: 0 })).unwrap();
    assert_eq!(second, first);
}

#[test]
fn root_may_stand_anywhere_in_the_document() {
    let mut vals = vec![val(TAG_NULL, 0), val(TAG_TRUE, 0)];
    lay_out(&J::O(vec![("S", J::S("x"))]), &mut vals);
    assert_eq!(deserialize_yyjson(Ok(YyjsonDoc { vals: vals.clone(), root: 2 })), Ok(string("x")));
    assert_eq!(
        deserialize_yyjson(Ok(YyjsonDoc { vals: vals.clone(), root: 1 })),
        Ok(NativeValue::Boolean(true))
    );
    assert_eq!(
        deserialize_yyjson(Ok(YyjsonDoc { vals, root: 5 })),
        failed(DecodeError::InternalConsistency)
    );
}

fn nested_arrays(levels: usize) -> YyjsonDoc {
    let mut vals = Vec::new();
    for level in 0..levels {
        let entries: u64 = if level + 1 < levels { 1 } else { 0 };
        vals.push(val((entries << 8) | TAG_ARRAY, 16 * (levels - level) as u64));
    }
    YyjsonDoc { vals, root: 0 }
}

#[test]
fn nesting_up_to_the_limit_decodes_and_beyond_it_fails() {
    assert_eq!(MAX_DEPTH, 1024);
    let mut expected = NativeValue::List(vec![]);
    for _ in 1..MAX_DEPTH {
        expected = NativeValue::List(vec![expected]);
    }
    assert_eq!(deserialize_yyjson(Ok(nested_arrays(MAX_DEPTH))), Ok(expected));
    assert_eq!(
        deserialize_yyjson(Ok(nested_arrays(MAX_DEPTH + 1))),
        failed(DecodeError::DepthLimit)
    );
}

#[test]
fn depth_counts_containers_and_shorthands_alike() {
    let scalar = doc(&J::U(1));
    assert_eq!(parse_node(&scalar, 0, 0), Ok(NativeValue::UnsignedInteger(1)));
    let empty = doc(&J::A(vec![]));
    assert_eq!(parse_node(&empty, 0, 0), Err(DecodeError::DepthLimit));
    assert_eq!(parse_node(&empty, 0, 1), Ok(NativeValue::List(vec![])));
    let shorthand = doc(&J::O(vec![("S", J::S("x"))]));
    assert_eq!(parse_node(&shorthand, 0, 0), Err(DecodeError::DepthLimit));
    assert_eq!(parse_node(&shorthand, 0, 1), Ok(string("x")));
    let wrapped = doc(&J::O(vec![("M", J::O(vec![("a", J::A(vec![]))]))]));
    assert_eq!(parse_node(&wrapped, 0, 2), Err(DecodeError::DepthLimit));
    assert_eq!(
        parse_node(&wrapped, 0, 3),
        Ok(NativeValue::Mapping(vec![("a".to_string(), NativeValue::List(vec![]))]))
    );
}

#[test]
fn broken_layout_is_an_internal_consistency_error() {
    let broken = failed(DecodeError::InternalConsistency);
    // No node at all.
    assert_eq!(deserialize_yyjson(Ok(YyjsonDoc { vals: vec![], root: 0 })), broken);
    // A tag that is none of the nine.
    assert_eq!(deserialize_yyjson(Ok(YyjsonDoc { vals: vec![val(0, 0)], root: 0 })), broken);
    assert_eq!(
        deserialize_yyjson(Ok(YyjsonDoc { vals: vec![val(0b11100, 0)], root: 0 })),
        broken
    );
    // An array that declares more elements than the document holds.
    assert_eq!(
        deserialize_yyjson(Ok(YyjsonDoc {
            vals: vec![val((2 << 8) | TAG_ARRAY, 32), val(TAG_NULL, 0)],
            root: 0
        })),
        broken
    );
    // An object whose last key has no value.
    assert_eq!(
        deserialize_yyjson(Ok(YyjsonDoc {
            vals: vec![val((1 << 8) | TAG_OBJECT, 32), text("S")],
            root: 0
        })),
        broken
    );
    // A nested container with an offset that is no multiple of the node size.
    assert_eq!(
        deserialize_yyjson(Ok(YyjsonDoc {
            vals: vec![val((1 << 8) | TAG_ARRAY, 32), val(TAG_ARRAY, 17)],
            root: 0
        })),
        broken
    );
}

#[test]
fn first_failure_in_document_order_is_reported() {
    assert_eq!(
        decode(J::A(vec![
            J::O(vec![("N", J::S("x"))]),
            J::O(vec![("NS", J::A(vec![]))]),
        ])),
        failed(DecodeError::NumericCoercion)
    );
    assert_eq!(
        decode(J::A(vec![
            J::O(vec![("NS", J::A(vec![]))]),
            J::O(vec![("N", J::S("x"))]),
        ])),
        failed(DecodeError::UnimplementedShorthand)
    );
}

#[test]
fn string_node_gives_its_text() {
    assert_eq!(parse_yy_string(&text("héllo")), string("héllo"));
    assert_eq!(parse_yy_string(&text("")), string(""));
}

#[test]
fn array_and_object_builders_read_any_node_as_their_container() {
    let shorthand = doc(&J::O(vec![("S", J::S("x"))]));
    assert_eq!(
        parse_yy_object(&shorthand, 0, 1),
        Ok(NativeValue::Mapping(vec![("S".to_string(), string("x"))]))
    );
    let list = doc(&J::A(vec![J::O(vec![("S", J::S("x"))]), J::Null]));
    assert_eq!(
        parse_yy_array(&list, 0, 2),
        Ok(NativeValue::List(vec![string("x"), NativeValue::Null]))
    );
    assert_eq!(parse_yy_array(&list, 0, 1), Err(DecodeError::DepthLimit));
    assert_eq!(parse_yy_array(&list, 9, 2), Err(DecodeError::InternalConsistency));
    assert_eq!(parse_yy_object(&list, 9, 2), Err(DecodeError::InternalConsistency));
}

#[test]
fn shorthand_resolver_dispatches_by_tag() {
    let d = doc(&J::A(vec![J::S("12"), J::U(7), J::O(vec![("S", J::S("x"))])]));
    assert_eq!(parse_ddb_node(&d, AttributeTag::N, 1, 0), Ok(NativeValue::SignedInteger(12)));
    assert_eq!(parse_ddb_node(&d, AttributeTag::N, 2, 0), Err(DecodeError::NumericCoercion));
    assert_eq!(parse_ddb_node(&d, AttributeTag::N, 99, 0), Err(DecodeError::InternalConsistency));
    assert_eq!(parse_ddb_node(&d, AttributeTag::S, 1, 0), Ok(string("12")));
    assert_eq!(parse_ddb_node(&d, AttributeTag::B, 2, 0), Ok(NativeValue::UnsignedInteger(7)));
    assert_eq!(parse_ddb_node(&d, AttributeTag::M, 3, 1), Ok(string("x")));
    assert_eq!(parse_ddb_node(&d, AttributeTag::L, 3, 0), Err(DecodeError::DepthLimit));
    for tag in [AttributeTag::Ns, AttributeTag::Ss, AttributeTag::Bs] {
        assert_eq!(parse_ddb_node(&d, tag, 1, 5), Err(DecodeError::UnimplementedShorthand));
    }
}

#[test]
fn pass_through_numbers_keep_their_payload() {
    let d = YyjsonDoc {
        vals: vec![
            val(TAG_INT64, (-7i64) as u64),
            val(TAG_DOUBLE, 3.14f64.to_bits()),
            val(TAG_UINT64, 1 << 63),
        ],
        root: 0,
    };
    assert_eq!(parse_node(&d, 0, 0), Ok(NativeValue::SignedInteger(-7)));
    assert_eq!(parse_node(&d, 1, 0), Ok(NativeValue::Float(3.14f64.to_bits())));
    assert_eq!(parse_node(&d, 2, 0), Ok(NativeValue::UnsignedInteger(1 << 63)));
}
