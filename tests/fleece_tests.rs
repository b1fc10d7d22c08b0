use couchbase_lite::fleece::{node_is_wf, Array, Dict, DictKey, Entry, Fleece, Node, Value, ValueType};
use couchbase_lite::fleece_mutable::{CopyFlags, MutableArray, MutableDict};

fn entry(key: &str, value: Node) -> Entry {
    Entry { key: key.to_string(), value }
}

// The tree that `{"i":1234,"f":12.34,"a":[1, 2],"s":"Foo"}` decodes to, with
// the keys in the engine's order.
fn sample() -> Fleece {
    Fleece::from_node(Node::Dict(vec![
        entry("a", Node::Array(vec![Node::Int(1), Node::Int(2)])),
        entry("f", Node::Double { bits: 12.34f64.to_bits(), truncated: 12 }),
        entry("i", Node::Int(1234)),
        entry("s", Node::Str("Foo".to_string())),
    ]))
}

#[test]
fn empty_values() {
    let v = Value::default();
    assert_eq!(v.get_type(), ValueType::Undefined);
    assert!(!v.is_type(ValueType::Bool));
    assert!(!v.is_number());
    assert!(!v.is_integer());
    assert_eq!(v.as_i64(), None);
    assert!(v.as_array().is_none());
    assert!(v.as_dict().is_none());
    assert!(v.is_undefined());
    assert_eq!(v, Value::undefined());
    assert!(v == v);
}

#[test]
fn decoded_values() {
    let doc = sample();
    let dict = doc.as_dict();
    assert_eq!(dict.count(), 4);

    let i = dict.get("i");
    assert!(i.is_number());
    assert!(i.is_integer());
    assert_eq!(i.as_i64(), Some(1234));
    assert_eq!(i.as_i64_or_0(), 1234);
    assert_eq!(i.as_string(), None);

    let f = dict.get("f");
    assert!(f.is_number());
    assert!(!f.is_integer());
    assert_eq!(f.as_i64(), None);
    assert_eq!(f.as_i64_or_0(), 12);
    assert_eq!(f.as_string(), None);

    assert_eq!(dict.get("j"), Value::undefined());
    assert_eq!(dict.get("s").as_string(), Some("Foo"));

    let a = dict.get("a").as_array();
    assert!(!a.is_none());
    assert!(a.equals(&a));
    assert_eq!(a.count(), 2);
    assert_eq!(a.get(0).as_i64(), Some(1));
    assert_eq!(a.get(1).as_i64(), Some(2));
    assert_eq!(a.get(2).as_i64(), None);
    assert!(a.get(2).is_undefined());
}

#[test]
fn nested_borrow_scope() {
    let v: Value;
    let s: &str;
    let doc = sample();
    {
        let dict = doc.as_dict();
        v = dict.get("a");
        s = dict.get("s").as_string().unwrap();
    }
    // The views outlive `dict`, because they borrow from `doc`.
    assert_eq!(v.get_type(), ValueType::Array);
    assert_eq!(s, "Foo");
}

#[test]
fn mutable_dict() {
    let mut dict = MutableDict::new();
    assert_eq!(dict.count(), 0);
    assert_eq!(dict.get("a"), Value::undefined());

    dict.at("i").put_i64(1234);
    dict.at("s").put_string("Hello World!");

    assert_eq!(dict.count(), 2);
    assert_eq!(dict.get("i").as_i64(), Some(1234));
    assert_eq!(dict.get("s").as_string(), Some("Hello World!"));
    assert!(dict.get("?").is_undefined());

    dict.remove("i");
    assert!(dict.get("i").is_undefined());
}

#[test]
fn integer_projection_matches_is_integer() {
    let doc = sample();
    let dict = doc.as_dict();
    for key in ["a", "f", "i", "s", "missing"] {
        let v = dict.get(key);
        assert_eq!(v.as_i64().is_some(), v.is_integer());
        assert_eq!(v.as_u64().is_some(), v.is_integer());
    }
}

#[test]
fn value_types_and_projections() {
    let doc = Fleece::from_node(Node::Array(vec![
        Node::Null,
        Node::Bool(true),
        Node::UInt(u64::MAX),
        Node::Data(vec![1, 2, 3]),
        Node::Int(-5),
        Node::Double { bits: (-2.75f64).to_bits(), truncated: -2 },
    ]));
    let a = doc.as_array();
    assert_eq!(a.get(0).get_type(), ValueType::Null);
    assert!(!a.get(0).as_bool_or_false());
    assert_eq!(a.get(1).as_bool(), Some(true));
    assert_eq!(a.get(1).as_i64_or_0(), 1);
    assert_eq!(a.get(2).as_u64(), Some(u64::MAX));
    assert_eq!(a.get(2).as_i64(), Some(-1));
    assert_eq!(a.get(3).as_data(), Some(&[1u8, 2, 3][..]));
    assert_eq!(a.get(3).get_type(), ValueType::Data);
    assert_eq!(a.get(4).as_u64_or_0(), (-5i64) as u64);
    assert_eq!(a.get(5).as_i64_or_0(), -2);
    assert_eq!(a.get(5).as_bool(), None);
    assert!(a.get(5).as_bool_or_false());
    assert_eq!(ValueType::from_i32(-1), Some(ValueType::Undefined));
    assert_eq!(ValueType::from_i32(6), Some(ValueType::Dict));
    assert_eq!(ValueType::from_i32(7), None);
}

#[test]
fn deep_equality() {
    let a = Fleece::from_node(Node::Array(vec![Node::Int(7), Node::Str("x".to_string())]));
    let b = Fleece::from_node(Node::Array(vec![Node::UInt(7), Node::Str("x".to_string())]));
    let c = Fleece::from_node(Node::Array(vec![Node::Int(7), Node::Str("y".to_string())]));
    assert_eq!(a.root(), b.root());
    assert_ne!(a.root(), c.root());
    assert!(a.as_array().equals(&b.as_array()));
    assert!(!a.as_array().equals(&c.as_array()));
    assert!(Array::default().equals(&Array::none()));
    assert!(Dict::default().equals(&Dict::none()));
}

#[test]
fn iterators_are_fresh_and_finite() {
    let doc = sample();
    let dict = doc.as_dict();
    let mut it = dict.iter();
    assert_eq!(it.count(), 4);
    let mut keys = Vec::new();
    while let Some((k, _)) = it.next() {
        keys.push(k.to_string());
    }
    assert_eq!(keys, vec!["a", "f", "i", "s"]);
    assert!(it.next().is_none());
    assert!(it.next().is_none());
    assert_eq!(dict.iter().count(), 4);

    let arr = dict.get("a").as_array();
    let mut ai = arr.iter();
    assert_eq!(ai.get(1).as_i64(), Some(2));
    assert_eq!(ai.next().unwrap().as_i64(), Some(1));
    assert_eq!(ai.count(), 1);
    assert_eq!(ai.next().unwrap().as_i64(), Some(2));
    assert!(ai.next().is_none());
}

#[test]
fn dict_key_lookup() {
    let doc = sample();
    let mut key = DictKey::new("s");
    assert_eq!(key.string(), "s");
    assert_eq!(doc.as_dict().get_key(&mut key).as_string(), Some("Foo"));
    let mut missing = DictKey::new("zz");
    assert!(doc.as_dict().get_key(&mut missing).is_undefined());
}

#[test]
fn mutable_copies_and_changes() {
    let doc = sample();
    let mut copy = doc.as_dict().mutable_copy();
    assert!(!copy.is_changed());
    assert_eq!(copy.count(), 4);
    assert_eq!(copy.as_value(), doc.root());
    copy.remove("nope");
    assert!(!copy.is_changed());
    copy.at("i").put_i64(5);
    assert!(copy.is_changed());
    assert_eq!(copy.count(), 4);
    assert_eq!(copy.get("i").as_i64(), Some(5));
    assert_eq!(doc.as_dict().get("i").as_i64(), Some(1234));
    copy.at("new").put_bool(false);
    assert_eq!(copy.count(), 5);
    let again = MutableDict::from_dict_(&doc.as_dict(), CopyFlags::DeepCopyImmutables);
    assert!(again.equals(&doc.as_dict().mutable_copy()));
    copy.remove_all();
    assert!(copy.empty());
}

#[test]
fn mutable_array_edits() {
    let mut arr = MutableArray::new();
    assert!(arr.empty());
    arr.append().put_i64(1);
    arr.append().put_string("two");
    arr.insert(0);
    assert_eq!(arr.count(), 3);
    assert_eq!(arr.get(0).get_type(), ValueType::Null);
    arr.at(0).put_u64(u64::MAX);
    assert_eq!(arr.get(0).as_u64(), Some(u64::MAX));
    arr.remove(10);
    assert_eq!(arr.count(), 3);
    arr.remove(0);
    assert_eq!(arr.get(0).as_i64(), Some(1));
    assert_eq!(arr.get(1).as_string(), Some("two"));
    assert!(arr.get(2).is_undefined());
    let mut it = arr.iter();
    assert_eq!(it.count(), 2);
    assert!(it.next().is_some());

    let doc = sample();
    let mut from = MutableArray::from_array(&doc.as_dict().get("a").as_array());
    assert!(!from.is_changed());
    from.at(1).put_data(&[9, 8]);
    assert_eq!(from.get(1).as_data(), Some(&[9u8, 8][..]));
    let inner = doc.as_dict().get("a");
    let mut d = MutableDict::new();
    d.at("copy").put_value(&inner);
    assert_eq!(d.get("copy"), inner);
    d.at("nothing").put_value(&Value::undefined());
    assert_eq!(d.get("nothing").get_type(), ValueType::Null);
    from.remove_all();
    assert_eq!(from.count(), 0);
}

#[test]
fn mutable_dict_keeps_key_order() {
    let mut dict = MutableDict::new();
    dict.at("i").put_i64(1234);
    dict.at("s").put_string("Hello World!");
    let mut it = dict.iter();
    let (k1, v1) = it.next().unwrap();
    assert_eq!((k1, v1.as_i64()), ("i", Some(1234)));
    let (k2, v2) = it.next().unwrap();
    assert_eq!((k2, v2.as_string()), ("s", Some("Hello World!")));
    assert!(it.next().is_none());
}

#[test]
fn timestamps_from_numbers() {
    let doc = Fleece::from_node(Node::Array(vec![
        Node::Int(1_600_000_000_000),
        Node::Int(0),
        Node::Str("2020-09-13T12:26:40Z".to_string()),
    ]));
    let a = doc.as_array();
    assert_eq!(a.get(0).as_timestamp(), Some(couchbase_lite::fleece::Timestamp(1_600_000_000_000)));
    assert_eq!(a.get(1).as_timestamp(), None);
    assert_eq!(a.get(2).as_timestamp(), None);
    assert_eq!(a.get(3).as_timestamp(), None);
}

#[test]
fn repeated_keys_are_not_well_formed() {
    let dup = Node::Dict(vec![
        entry("k", Node::Int(1)),
        entry("x", Node::Bool(true)),
        entry("k", Node::Int(2)),
    ]);
    assert!(!node_is_wf(&dup));
    let nested = Node::Array(vec![Node::Int(0), dup]);
    assert!(!node_is_wf(&nested));
    assert!(node_is_wf(&Node::Dict(vec![entry("k", Node::Int(1)), entry("x", Node::Null)])));
}

#[test]
fn copies_equal_their_source() {
    let doc = sample();
    let copy = MutableDict::from_dict(&doc.as_dict());
    assert!(copy.as_dict().equals(&doc.as_dict()));
    let none = Dict::none().mutable_copy();
    assert!(none.is_none());
    assert!(none.as_dict().is_none());
    assert!(none.as_dict().equals(&Dict::none()));
    assert!(none.as_value().is_undefined());
    assert!(MutableDict::default().is_none());
    let mut filled = MutableDict::default();
    filled.at("a").put_null();
    assert!(!filled.is_none());
    assert_eq!(filled.count(), 1);
}

#[test]
fn distinct_keys_each_add_one_entry() {
    let mut dict = MutableDict::new();
    for (n, key) in ["a", "b", "c"].iter().enumerate() {
        dict.at(key).put_i64(n as i64);
    }
    assert_eq!(dict.count(), 3);
    for key in ["a", "b", "c"] {
        assert!(!dict.get(key).is_undefined());
    }
    assert!(dict.get("d").is_undefined());
}

#[test]
fn doubles_store_their_truncation() {
    let mut arr = MutableArray::new();
    arr.append().put_double(12.34f64.to_bits(), 12);
    arr.append().put_double((-0.5f64).to_bits(), 0);
    assert_eq!(arr.get(0).as_i64_or_0(), 12);
    assert!(!arr.get(0).is_integer());
    assert_eq!(arr.get(1).as_i64_or_0(), 0);
    assert!(!arr.get(1).as_bool_or_false());
}
