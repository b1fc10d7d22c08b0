//! Replication: the configuration of a replicator, and the activity state it
//! moves through (stopped, offline, connecting, idle, busy) as it is started,
//! stopped, suspended and told whether its host is reachable. The transfer
//! itself is the engine's; it reports progress through `report`.
use vstd::prelude::*;
use vstd::string::StrSliceExecFns;
use crate::error::{CouchbaseLiteError, Error, ErrorCode, Result};

verus! {

/// The location of a database to replicate with.
#[derive(Debug)]
pub enum Endpoint {
    /// A server database, by its WebSocket URL.
    WithURL(String),
    /// A local database, by its name.
    WithLocalDB(String),
}

/// Credentials for the remote side.
#[derive(Debug)]
pub enum Authenticator {
    /// No credentials.
    Anonymous,
    Basic { username: String, password: String },
    Session { session_id: String },
    Cookie { name: String, value: String },
}

/// The direction of replication.
#[derive(Clone, Copy, Debug, PartialEq, Eq, Structural)]
pub enum ReplicatorType {
    PushAndPull,
    Push,
    Pull,
}

/// The kind of a proxy server.
#[derive(Clone, Copy, Debug, PartialEq, Eq, Structural)]
pub enum ProxyType {
    HTTP,
    HTTPS,
}

/// Proxy settings for the replicator.
#[derive(Debug)]
pub struct ProxySettings {
    pub proxy_type: ProxyType,
    pub hostname: String,
    pub port: u16,
    pub username: Option<String>,
    pub password: Option<String>,
}

/// The configuration of a replicator.
#[derive(Debug)]
pub struct ReplicatorConfiguration {
    /// The name of the local database to replicate.
    pub database: String,
    pub endpoint: Endpoint,
    pub replicator_type: ReplicatorType,
    pub continuous: bool,
    pub authenticator: Authenticator,
    pub proxy: Option<ProxySettings>,
    /// Extra HTTP headers, as (name, value) pairs.
    pub headers: Option<Vec<(String, String)>>,
    pub pinned_server_certificate: Option<Vec<u8>>,
    pub trusted_root_certificates: Option<Vec<u8>>,
    pub channels: Option<Vec<String>>,
    pub document_ids: Option<Vec<String>>,
}

/// The states a replicator moves through.
#[derive(Clone, Copy, Debug, PartialEq, Eq, Structural)]
pub enum ReplicatorActivityLevel {
    /// Not started, finished, or stopped by a fatal error.
    Stopped,
    /// The remote host cannot be reached, or the replicator is suspended.
    Offline,
    /// Connecting to the remote host.
    Connecting,
    /// Connected, waiting for changes.
    Idle,
    /// Connected, transferring data.
    Busy,
}

/// The direction in which a document was transferred.
#[derive(Clone, Copy, Debug, PartialEq, Eq, Structural)]
pub enum Direction {
    Pulled,
    Pushed,
}

/// Flag of a replicated document: it was deleted.
pub const DELETED: u32 = 1;

/// Flag of a replicated document: access to it was removed.
pub const ACCESS_REMOVED: u32 = 2;

/// A document that was pushed or pulled.
#[derive(Debug)]
pub struct ReplicatedDocument {
    pub id: String,
    pub flags: u32,
    pub error: Result<()>,
}

/// What the engine reports of a running replicator.
#[derive(Clone, Copy, Debug, PartialEq, Eq, Structural)]
pub enum ReplicatorEvent {
    /// The connection is open and there is nothing to transfer.
    Idle,
    /// The connection is open and data is moving.
    Busy,
    /// The connection was lost.
    Disconnected,
    /// The replication ended, with the error that ended it, if any.
    Finished(Option<Error>),
    /// Documents were transferred.
    Transferred(u64),
}

/// Whether a URL names a WebSocket endpoint (`ws://` or `wss://`).
pub open spec fn is_websocket_url(url: Seq<char>) -> bool {
    (url.len() >= 5 && url.subrange(0, 5) == seq!['w', 's', ':', '/', '/']) || (url.len() >= 6
        && url.subrange(0, 6) == seq!['w', 's', 's', ':', '/', '/'])
}

/// Whether a configuration names a usable endpoint.
pub open spec fn endpoint_valid(e: Endpoint) -> bool {
    match e {
        Endpoint::WithURL(u) => is_websocket_url(u@),
        Endpoint::WithLocalDB(_) => true,
    }
}

/// The state a replicator enters when it tries to connect.
pub open spec fn connecting_state(host_reachable: bool, suspended: bool) -> ReplicatorActivityLevel {
    if host_reachable && !suspended {
        ReplicatorActivityLevel::Connecting
    } else {
        ReplicatorActivityLevel::Offline
    }
}

fn starts_with(s: &str, prefix: &str) -> (r: bool)
    ensures
        r == (prefix@.len() <= s@.len() && s@.subrange(0, prefix@.len() as int) == prefix@),
{
    let n = prefix.unicode_len();
    if n > s.unicode_len() {
        return false;
    }
    let mut i: usize = 0;
    while i < n
        invariant
            n == prefix@.len(),
            n <= s@.len(),
            i <= n,
            forall|j: int| 0 <= j < i ==> s@[j] == prefix@[j],
        decreases n - i,
    {
        if s.get_char(i) != prefix.get_char(i) {
            assert(s@.subrange(0, n as int)[i as int] != prefix@[i as int]);
            return false;
        }
        i = i + 1;
    }
    assert(s@.subrange(0, n as int) =~= prefix@);
    true
}

/// A replicator's configuration and activity state.
#[derive(Debug)]
pub struct Replicator {
    config: ReplicatorConfiguration,
    activity: ReplicatorActivityLevel,
    host_reachable: bool,
    suspended: bool,
    reset_pending: bool,
    document_count: u64,
    error: Option<Error>,
}

impl Replicator {
    pub closed spec fn spec_activity(&self) -> ReplicatorActivityLevel {
        self.activity
    }

    pub closed spec fn spec_host_reachable(&self) -> bool {
        self.host_reachable
    }

    pub closed spec fn spec_suspended(&self) -> bool {
        self.suspended
    }

    pub closed spec fn spec_reset_pending(&self) -> bool {
        self.reset_pending
    }

    pub closed spec fn spec_document_count(&self) -> u64 {
        self.document_count
    }

    pub closed spec fn spec_error(&self) -> Option<Error> {
        self.error
    }

    /// A stopped replicator with the given configuration; a URL endpoint must
    /// use the `ws` or `wss` scheme, else the error is an invalid parameter.
    pub fn new(config: ReplicatorConfiguration) -> (r: Result<Replicator>)
        ensures
            r is Ok <==> endpoint_valid(config.endpoint),
            r matches Err(e) ==> e == (Error {
                code: ErrorCode::CouchbaseLite(CouchbaseLiteError::InvalidParameter),
                internal_info: None,
            }),
            r matches Ok(rep) ==> {
                &&& rep.spec_activity() == ReplicatorActivityLevel::Stopped
                &&& rep.spec_host_reachable()
                &&& !rep.spec_suspended()
                &&& !rep.spec_reset_pending()
                &&& rep.spec_document_count() == 0
                &&& rep.spec_error() is None
                &&& rep.spec_config() == config
            },
    {
        let valid = match &config.endpoint {
            Endpoint::WithURL(url) => {
                let u = url.as_str();
                proof {
                    reveal_strlit("ws://");
                    reveal_strlit("wss://");
                    assert("ws://"@ =~= seq!['w', 's', ':', '/', '/']);
                    assert("wss://"@ =~= seq!['w', 's', 's', ':', '/', '/']);
                }
                starts_with(u, "ws://") || starts_with(u, "wss://")
            },
            Endpoint::WithLocalDB(_) => true,
        };
        if !valid {
            return Err(Error::cbl_error(CouchbaseLiteError::InvalidParameter));
        }
        Ok(
            Replicator {
                config,
                activity: ReplicatorActivityLevel::Stopped,
                host_reachable: true,
                suspended: false,
                reset_pending: false,
                document_count: 0,
                error: None,
            },
        )
    }

    /// The configuration the replicator was made with.
    pub closed spec fn spec_config(&self) -> ReplicatorConfiguration {
        self.config
    }

    /// The replicator's configuration.
    pub fn config(&self) -> (r: &ReplicatorConfiguration)
        ensures
            *r == self.spec_config(),
    {
        &self.config
    }

    /// The current activity state.
    pub fn activity(&self) -> (r: ReplicatorActivityLevel)
        ensures
            r == self.spec_activity(),
    {
        self.activity
    }

    /// The number of documents transferred since the last start.
    pub fn document_count(&self) -> (r: u64)
        ensures
            r == self.spec_document_count(),
    {
        self.document_count
    }

    /// The error that ended the last replication, if any.
    pub fn error(&self) -> (r: Option<Error>)
        ensures
            r == self.spec_error(),
    {
        self.error
    }

    /// Whether the next start ignores the existing checkpoints.
    pub fn is_reset_pending(&self) -> (r: bool)
        ensures
            r == self.spec_reset_pending(),
    {
        self.reset_pending
    }

    /// Makes the next start ignore the existing checkpoints and scan every
    /// document of the remote database.
    pub fn reset_checkpoint(&mut self)
        ensures
            final(self).spec_config() == old(self).spec_config(),
            final(self).spec_document_count() == old(self).spec_document_count(),
            final(self).spec_error() == old(self).spec_error(),
            final(self).spec_reset_pending(),
            final(self).spec_activity() == old(self).spec_activity(),
            final(self).spec_host_reachable() == old(self).spec_host_reachable(),
            final(self).spec_suspended() == old(self).spec_suspended(),
    {
        self.reset_pending = true;
    }

    /// Starts a stopped replicator: it connects, or waits offline while its
    /// host is unreachable or it is suspended. Does nothing if it is already
    /// started.
    pub fn start(&mut self)
        ensures
            final(self).spec_config() == old(self).spec_config(),
            old(self).spec_activity() == ReplicatorActivityLevel::Stopped ==> {
                &&& final(self).spec_activity() == connecting_state(
                    old(self).spec_host_reachable(),
                    old(self).spec_suspended(),
                )
                &&& final(self).spec_document_count() == 0
                &&& final(self).spec_error() is None
                &&& !final(self).spec_reset_pending()
            },
            old(self).spec_activity() != ReplicatorActivityLevel::Stopped ==> final(self).spec_activity()
                == old(self).spec_activity() && final(self).spec_reset_pending()
                == old(self).spec_reset_pending(),
            final(self).spec_host_reachable() == old(self).spec_host_reachable(),
            final(self).spec_suspended() == old(self).spec_suspended(),
    {
        if self.activity == ReplicatorActivityLevel::Stopped {
            self.activity =
            if self.host_reachable && !self.suspended {
                ReplicatorActivityLevel::Connecting
            } else {
                ReplicatorActivityLevel::Offline
            };
            self.document_count = 0;
            self.error = None;
            self.reset_pending = false;
        }
    }

    /// Stops the replicator. Does nothing if it is already stopped.
    pub fn stop(&mut self)
        ensures
            final(self).spec_config() == old(self).spec_config(),
            final(self).spec_activity() == ReplicatorActivityLevel::Stopped,
            final(self).spec_host_reachable() == old(self).spec_host_reachable(),
            final(self).spec_suspended() == old(self).spec_suspended(),
            final(self).spec_document_count() == old(self).spec_document_count(),
            final(self).spec_error() == old(self).spec_error(),
    {
        self.activity = ReplicatorActivityLevel::Stopped;
    }

    /// Records whether the remote host can be reached. This matters only
    /// while offline: becoming reachable, unless suspended, retries at once.
    pub fn set_host_reachable(&mut self, reachable: bool)
        ensures
            final(self).spec_config() == old(self).spec_config(),
            final(self).spec_host_reachable() == reachable,
            final(self).spec_suspended() == old(self).spec_suspended(),
            final(self).spec_activity() == if old(self).spec_activity()
                == ReplicatorActivityLevel::Offline {
                connecting_state(reachable, old(self).spec_suspended())
            } else {
                old(self).spec_activity()
            },
    {
        self.host_reachable = reachable;
        if self.activity == ReplicatorActivityLevel::Offline && reachable && !self.suspended {
            self.activity = ReplicatorActivityLevel::Connecting;
        }
    }

    /// Suspends or resumes the replicator. A suspended replicator that is
    /// running goes offline and stays there; resuming an offline one
    /// reconnects if its host is reachable.
    pub fn set_suspended(&mut self, suspended: bool)
        ensures
            final(self).spec_config() == old(self).spec_config(),
            final(self).spec_suspended() == suspended,
            final(self).spec_host_reachable() == old(self).spec_host_reachable(),
            final(self).spec_activity() == if old(self).spec_activity()
                == ReplicatorActivityLevel::Stopped {
                ReplicatorActivityLevel::Stopped
            } else if suspended {
                ReplicatorActivityLevel::Offline
            } else if old(self).spec_activity() == ReplicatorActivityLevel::Offline {
                connecting_state(old(self).spec_host_reachable(), false)
            } else {
                old(self).spec_activity()
            },
    {
        self.suspended = suspended;
        if self.activity != ReplicatorActivityLevel::Stopped {
            if suspended {
                self.activity = ReplicatorActivityLevel::Offline;
            } else if self.activity == ReplicatorActivityLevel::Offline && self.host_reachable {
                self.activity = ReplicatorActivityLevel::Connecting;
            }
        }
    }

    /// Applies what the engine reports of a running replicator. A stopped
    /// replicator ignores reports. A disconnection leaves it offline until it
    /// reconnects; a finish stops it, keeping the error; transfers add to the
    /// document count, saturating at its maximum.
    pub fn report(&mut self, event: ReplicatorEvent)
        ensures
            final(self).spec_config() == old(self).spec_config(),
            final(self).spec_host_reachable() == old(self).spec_host_reachable(),
            final(self).spec_suspended() == old(self).spec_suspended(),
            old(self).spec_activity() == ReplicatorActivityLevel::Stopped ==> final(self).spec_activity()
                == ReplicatorActivityLevel::Stopped && final(self).spec_document_count() == old(
                self,
            ).spec_document_count() && final(self).spec_error() == old(self).spec_error(),
            old(self).spec_activity() != ReplicatorActivityLevel::Stopped ==> match event {
                ReplicatorEvent::Idle => final(self).spec_activity()
                    == ReplicatorActivityLevel::Idle,
                ReplicatorEvent::Busy => final(self).spec_activity()
                    == ReplicatorActivityLevel::Busy,
                ReplicatorEvent::Disconnected => final(self).spec_activity()
                    == ReplicatorActivityLevel::Offline,
                ReplicatorEvent::Finished(e) => final(self).spec_activity()
                    == ReplicatorActivityLevel::Stopped && final(self).spec_error() == e,
                ReplicatorEvent::Transferred(n) => final(self).spec_activity() == old(
                    self,
                ).spec_activity() && final(self).spec_document_count() == if old(
                    self,
                ).spec_document_count() + n > u64::MAX {
                    u64::MAX as int
                } else {
                    old(self).spec_document_count() + n
                },
            },
    {
        if self.activity == ReplicatorActivityLevel::Stopped {
            return ;
        }
        match event {
            ReplicatorEvent::Idle => self.activity = ReplicatorActivityLevel::Idle,
            ReplicatorEvent::Busy => self.activity = ReplicatorActivityLevel::Busy,
            ReplicatorEvent::Disconnected => self.activity = ReplicatorActivityLevel::Offline,
            ReplicatorEvent::Finished(e) => {
                self.activity = ReplicatorActivityLevel::Stopped;
                self.error = e;
            },
            ReplicatorEvent::Transferred(n) => {
                self.document_count = self.document_count.saturating_add(n);
            },
        }
    }
}

} // verus!
