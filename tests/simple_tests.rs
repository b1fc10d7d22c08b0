use couchbase_lite::database::{
    delete_file_result, found_document, in_batch, DatabaseConfiguration, CREATE, READ_ONLY,
};
use couchbase_lite::document::{
    check_save, decode_expiration, encode_expiration, ConcurrencyControl, Document,
};
use couchbase_lite::error::{
    check_bool, check_failure, check_io, check_ptr, failure, CBLError, CouchbaseLiteError, Error,
    ErrorCode, FleeceError, NetworkError, CBL_DOMAIN, FLEECE_DOMAIN, NETWORK_DOMAIN, POSIX_DOMAIN,
    SQLITE_DOMAIN, WEBSOCKET_DOMAIN,
};
use couchbase_lite::fleece::{Node, Timestamp};
use couchbase_lite::fleece_mutable::MutableDict;
use couchbase_lite::query::{Query, QueryLanguage, ResultSet};
use couchbase_lite::slice::{as_slice, bytes_as_slice, null_slice, FLSliceResult};

fn err(domain: u32, code: i32) -> CBLError {
    CBLError { domain, code, internal_info: 77 }
}

#[test]
fn create_document() {
    let doc = Document::new_with_id("foo");
    assert_eq!(doc.id(), "foo");
    assert_eq!(doc.sequence(), 0);
    assert!(!doc.properties().is_none());
    assert_eq!(doc.properties().count(), 0);
    assert_eq!(doc.revision_id(), None);
}

#[test]
fn unsaved_document_counts_distinct_keys() {
    let mut doc = Document::new_with_id("foo");
    {
        let props = doc.mutable_properties();
        props.at("i").put_i64(1234);
        props.at("s").put_string("Hello World!");
        props.at("i").put_i64(4321);
    }
    assert_eq!(doc.sequence(), 0);
    assert_eq!(doc.properties().count(), 2);
    assert_eq!(doc.properties().get("i").as_i64(), Some(4321));
    doc.set_properties(MutableDict::new());
    assert_eq!(doc.properties().count(), 0);
    assert_eq!(doc.id(), "foo");
}

#[test]
fn save_conflicts() {
    let loaded = Document::from_parts("doc".to_string(), Some("1-a".to_string()), 3, MutableDict::new());
    assert_eq!(loaded.revision_id(), Some("1-a".to_string()));
    // Nothing was saved since the document was loaded.
    assert!(check_save(&loaded, Some("1-a"), ConcurrencyControl::FailOnConflict).is_ok());
    // Another save came first.
    let e = check_save(&loaded, Some("2-b"), ConcurrencyControl::FailOnConflict).unwrap_err();
    assert_eq!(e.code, ErrorCode::CouchbaseLite(CouchbaseLiteError::Conflict));
    assert!(check_save(&loaded, Some("2-b"), ConcurrencyControl::LastWriteWins).is_ok());
    // A new document whose id is taken.
    let fresh = Document::new_with_id("doc");
    assert!(check_save(&fresh, Some("2-b"), ConcurrencyControl::FailOnConflict).is_err());
    assert!(check_save(&fresh, None, ConcurrencyControl::FailOnConflict).is_ok());
}

#[test]
fn error_translation() {
    assert_eq!(ErrorCode::new(&err(CBL_DOMAIN, 8)), ErrorCode::CouchbaseLite(CouchbaseLiteError::Conflict));
    assert_eq!(ErrorCode::new(&err(CBL_DOMAIN, 30)), ErrorCode::CouchbaseLite(CouchbaseLiteError::CantUpgradeDatabase));
    assert_eq!(ErrorCode::new(&err(CBL_DOMAIN, 31)), ErrorCode::untranslatable());
    assert_eq!(ErrorCode::new(&err(POSIX_DOMAIN, 2)), ErrorCode::POSIX(2));
    assert_eq!(ErrorCode::new(&err(SQLITE_DOMAIN, 5)), ErrorCode::SQLite(5));
    assert_eq!(ErrorCode::new(&err(FLEECE_DOMAIN, 5)), ErrorCode::Fleece(FleeceError::JSONError));
    assert_eq!(ErrorCode::new(&err(FLEECE_DOMAIN, 12)), ErrorCode::untranslatable());
    assert_eq!(ErrorCode::new(&err(FLEECE_DOMAIN, -1)), ErrorCode::untranslatable());
    assert_eq!(ErrorCode::new(&err(NETWORK_DOMAIN, 3)), ErrorCode::Network(NetworkError::Timeout));
    assert_eq!(ErrorCode::new(&err(NETWORK_DOMAIN, 16)), ErrorCode::untranslatable());
    assert_eq!(ErrorCode::new(&err(WEBSOCKET_DOMAIN, 1001)), ErrorCode::WebSocket(1001));
    assert_eq!(ErrorCode::new(&err(9, 1)), ErrorCode::untranslatable());
    assert_eq!(ErrorCode::from_fleece(11), ErrorCode::Fleece(FleeceError::Unsupported));
    assert_eq!(ErrorCode::from_fleece(0), ErrorCode::untranslatable());
}

#[test]
fn error_round_trip_and_messages() {
    let e = Error::new(&err(NETWORK_DOMAIN, 15));
    assert_eq!(e.internal_info, Some(77));
    let back = e.as_cbl_error();
    assert_eq!((back.domain, back.code, back.internal_info), (NETWORK_DOMAIN, 15, 77));
    let f = Error::fleece_error(3);
    assert_eq!(f.code, ErrorCode::Fleece(FleeceError::InvalidData));
    let fb = f.as_cbl_error();
    assert_eq!((fb.domain, fb.code, fb.internal_info), (FLEECE_DOMAIN, 3, 0));
    let u = Error::cbl_error(CouchbaseLiteError::UntranslatableError);
    assert_eq!(u.local_message(), Some("Unknown error".to_string()));
    assert_eq!(Error::cbl_error(CouchbaseLiteError::NotFound).local_message(), None);
    assert_eq!(Error::new(&err(42, 42)).local_message(), Some("Unknown error".to_string()));
}

#[test]
fn failure_shapes() {
    let r: Result<u8, Error> = failure(err(CBL_DOMAIN, 7));
    assert_eq!(r.unwrap_err().code, ErrorCode::CouchbaseLite(CouchbaseLiteError::NotFound));
    assert!(check_failure(true, &CBLError::default()).is_ok());
    assert_eq!(check_failure(false, &err(POSIX_DOMAIN, 13)).unwrap_err().code, ErrorCode::POSIX(13));
    assert!(check_bool(|| (true, CBLError::empty())).is_ok());
    assert_eq!(check_bool(|| (false, err(SQLITE_DOMAIN, 1))).unwrap_err().code, ErrorCode::SQLite(1));
    assert_eq!(check_ptr(|| (Some(5u32), CBLError::empty()), |p| p * 2).unwrap(), 10);
    let none: Option<u32> = None;
    assert_eq!(check_ptr(move || (none, err(CBL_DOMAIN, 16)), |p| p).unwrap_err().code,
               ErrorCode::CouchbaseLite(CouchbaseLiteError::Busy));
    assert_eq!(check_io(|| (12, CBLError::empty())).unwrap(), 12);
    assert_eq!(check_io(|| (-1, err(POSIX_DOMAIN, 5))).unwrap_err().code, ErrorCode::POSIX(5));
    assert!(CBLError::default().is_empty());
}

#[test]
fn expiration_numbers() {
    assert_eq!(decode_expiration(0, &CBLError::empty()).unwrap(), None);
    assert_eq!(decode_expiration(1234, &CBLError::empty()).unwrap(), Some(Timestamp(1234)));
    assert_eq!(decode_expiration(-1, &err(CBL_DOMAIN, 7)).unwrap_err().code,
               ErrorCode::CouchbaseLite(CouchbaseLiteError::NotFound));
    assert_eq!(encode_expiration(None), 0);
    assert_eq!(encode_expiration(Some(Timestamp(99))), 99);
    let t = Some(Timestamp(1_600_000_000_000));
    assert_eq!(decode_expiration(encode_expiration(t), &CBLError::empty()).unwrap(), t);
}

#[test]
fn database_decisions() {
    assert_eq!(found_document(Some(3)).unwrap(), 3);
    assert_eq!(found_document::<u8>(None).unwrap_err().code,
               ErrorCode::CouchbaseLite(CouchbaseLiteError::NotFound));
    assert_eq!(delete_file_result(true, &CBLError::empty()).unwrap(), true);
    assert_eq!(delete_file_result(false, &CBLError::empty()).unwrap(), false);
    assert_eq!(delete_file_result(false, &err(CBL_DOMAIN, 16)).unwrap_err().code,
               ErrorCode::CouchbaseLite(CouchbaseLiteError::Busy));
    let cfg = DatabaseConfiguration { directory: "/tmp/x", flags: CREATE };
    assert!(cfg.creates());
    assert!(!cfg.read_only());
    assert!(DatabaseConfiguration { directory: "/tmp/x", flags: READ_ONLY }.read_only());
}

#[test]
fn batches() {
    assert_eq!(in_batch(|| (true, CBLError::empty()), || 42, || (true, CBLError::empty())).unwrap(), 42);
    let e = in_batch(|| (false, err(CBL_DOMAIN, 16)), || 1, || (true, CBLError::empty())).unwrap_err();
    assert_eq!(e.code, ErrorCode::CouchbaseLite(CouchbaseLiteError::Busy));
    let e = in_batch(|| (true, CBLError::empty()), || 1, || (false, err(CBL_DOMAIN, 17))).unwrap_err();
    assert_eq!(e.code, ErrorCode::CouchbaseLite(CouchbaseLiteError::NotInTransaction));
}

#[test]
fn slices() {
    let text = "héllo";
    let s = as_slice(text);
    assert!(!s.is_null());
    assert_eq!(s.as_str(), Some("héllo"));
    assert_eq!(s.to_string(), Some("héllo".to_string()));
    assert_eq!(s.as_byte_array().unwrap().len(), 6);
    let bad = [0xffu8, 0xfe];
    let b = bytes_as_slice(&bad);
    assert_eq!(b.as_str(), None);
    assert_eq!(b.as_byte_array(), Some(&bad[..]));
    let empty = bytes_as_slice(&[]);
    assert!(!empty.is_null());
    assert_eq!(empty.as_str(), Some(""));
    let null = null_slice();
    assert!(null.is_null());
    assert_eq!(null.as_str(), None);
    assert_eq!(null.map(|x| x.as_byte_array().map(|b| b.len())), None);
    assert_eq!(s.map(|x| x.as_byte_array().map(|b| b.len())), Some(Some(6)));
    let owned = FLSliceResult { buf: Some(b"owned".to_vec()) };
    assert_eq!(owned.as_slice().as_str(), Some("owned"));
    assert_eq!(owned.to_string(), Some("owned".to_string()));
    assert_eq!(FLSliceResult { buf: Some(vec![0xc3]) }.to_string(), None);
    assert_eq!(FLSliceResult { buf: None }.to_string(), None);
}

fn row(i: i64, s: &str) -> Vec<Node> {
    vec![Node::Int(i), Node::Str(s.to_string())]
}

#[test]
fn query_rows() {
    let query = Query::compiled(QueryLanguage::N1QL, vec!["i".to_string(), "s".to_string()]);
    assert_eq!(query.column_count(), 2);
    assert_eq!(query.column_name(0), Some("i"));
    assert_eq!(query.column_name(1), Some("s"));
    assert_eq!(query.column_name(2), None);
    assert_eq!(query.column_names(), vec!["i", "s"]);
    assert_eq!(query.language(), QueryLanguage::N1QL);

    let mut results = ResultSet::new(vec!["i".to_string(), "s".to_string()]);
    {
        let r = results.next(Some(row(2, "two"))).unwrap();
        assert_eq!(r.get(0).as_i64(), Some(2));
        assert_eq!(r.get(1).as_string(), Some("two"));
        assert_eq!(r.get_key("s").as_string(), Some("two"));
        assert!(r.get(2).is_undefined());
        assert!(r.get(-1).is_undefined());
        assert_eq!(r.column_count(), 2);
        assert_eq!(r.column_name(1), Some("s"));
        assert_eq!(r.as_array().count(), 2);
        assert_eq!(r.as_dict().get("i").as_i64(), Some(2));
    }
    {
        let r = results.next(Some(row(3, "three"))).unwrap();
        assert_eq!(r.get(0).as_i64(), Some(3));
        assert_eq!(r.get(1).as_string(), Some("three"));
    }
    assert!(results.next(None).is_none());
    // Exhaustion is final, whatever comes after.
    assert!(results.next(None).is_none());
    assert!(results.next(Some(row(4, "four"))).is_none());
}
