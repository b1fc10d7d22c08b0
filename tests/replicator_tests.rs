use couchbase_lite::error::{CouchbaseLiteError, Error, ErrorCode};
use couchbase_lite::replicator::{
    Authenticator, Endpoint, ReplicatorActivityLevel, ReplicatorConfiguration, ReplicatorEvent,
    ReplicatorType, Replicator,
};

fn config(endpoint: Endpoint) -> ReplicatorConfiguration {
    ReplicatorConfiguration {
        database: "db".to_string(),
        endpoint,
        replicator_type: ReplicatorType::PushAndPull,
        continuous: true,
        authenticator: Authenticator::Anonymous,
        proxy: None,
        headers: None,
        pinned_server_certificate: None,
        trusted_root_certificates: None,
        channels: None,
        document_ids: None,
    }
}

#[test]
fn replicator_endpoints() {
    let e = Replicator::new(config(Endpoint::WithURL("http://host/db".to_string()))).unwrap_err();
    assert_eq!(e.code, ErrorCode::CouchbaseLite(CouchbaseLiteError::InvalidParameter));
    assert!(Replicator::new(config(Endpoint::WithURL("ws:/".to_string()))).is_err());
    assert!(Replicator::new(config(Endpoint::WithURL("ws://host/db".to_string()))).is_ok());
    assert!(Replicator::new(config(Endpoint::WithURL("wss://host/db".to_string()))).is_ok());
    assert!(Replicator::new(config(Endpoint::WithLocalDB("other".to_string()))).is_ok());
}

#[test]
fn replicator_states() {
    let mut r = Replicator::new(config(Endpoint::WithURL("wss://host/db".to_string()))).unwrap();
    assert_eq!(r.activity(), ReplicatorActivityLevel::Stopped);
    assert_eq!(r.config().database, "db");
    r.report(ReplicatorEvent::Busy);
    assert_eq!(r.activity(), ReplicatorActivityLevel::Stopped);
    r.reset_checkpoint();
    assert!(r.is_reset_pending());
    r.start();
    assert_eq!(r.activity(), ReplicatorActivityLevel::Connecting);
    assert!(!r.is_reset_pending());
    r.report(ReplicatorEvent::Busy);
    assert_eq!(r.activity(), ReplicatorActivityLevel::Busy);
    r.report(ReplicatorEvent::Transferred(3));
    r.report(ReplicatorEvent::Transferred(u64::MAX));
    assert_eq!(r.document_count(), u64::MAX);
    r.report(ReplicatorEvent::Idle);
    assert_eq!(r.activity(), ReplicatorActivityLevel::Idle);
    r.set_suspended(true);
    assert_eq!(r.activity(), ReplicatorActivityLevel::Offline);
    r.set_host_reachable(false);
    r.set_suspended(false);
    assert_eq!(r.activity(), ReplicatorActivityLevel::Offline);
    r.set_host_reachable(true);
    assert_eq!(r.activity(), ReplicatorActivityLevel::Connecting);
    r.report(ReplicatorEvent::Disconnected);
    assert_eq!(r.activity(), ReplicatorActivityLevel::Offline);
    let fatal = Error::cbl_error(CouchbaseLiteError::RemoteError);
    r.report(ReplicatorEvent::Finished(Some(fatal)));
    assert_eq!(r.activity(), ReplicatorActivityLevel::Stopped);
    assert_eq!(r.error(), Some(fatal));
    r.start();
    assert_eq!(r.error(), None);
    assert_eq!(r.document_count(), 0);
    r.stop();
    assert_eq!(r.activity(), ReplicatorActivityLevel::Stopped);
    r.set_host_reachable(false);
    r.start();
    assert_eq!(r.activity(), ReplicatorActivityLevel::Offline);
}
