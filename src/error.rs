//! Structured errors: translation of the engine's (domain, code) error records
//! into a closed set of categories, and helpers for the three shapes in which
//! a fallible engine call reports its outcome.
use vstd::prelude::*;

verus! {

/// Error domain of the engine's own conditions.
pub const CBL_DOMAIN: u32 = 1;

/// Error domain of operating-system (errno) codes.
pub const POSIX_DOMAIN: u32 = 2;

/// Error domain of SQLite result codes.
pub const SQLITE_DOMAIN: u32 = 3;

/// Error domain of the structured-data encoder and decoder.
pub const FLEECE_DOMAIN: u32 = 4;

/// Error domain of network conditions.
pub const NETWORK_DOMAIN: u32 = 5;

/// Error domain of WebSocket close codes.
pub const WEBSOCKET_DOMAIN: u32 = 6;

/// The engine's error record, as plain values: a domain, a code within that
/// domain (zero when no error is set), and an opaque token for the engine.
#[derive(Clone, Copy, Debug, PartialEq, Eq, Structural)]
pub struct CBLError {
    pub domain: u32,
    pub code: i32,
    pub internal_info: i32,
}

impl CBLError {
    /// The empty record, with no error set.
    pub fn empty() -> (r: CBLError)
        ensures
            r.domain == 0 && r.code == 0 && r.internal_info == 0,
    {
        CBLError { domain: 0, code: 0, internal_info: 0 }
    }

    /// True when the record holds no error.
    pub fn is_empty(&self) -> (r: bool)
        ensures
            r == (self.code == 0),
    {
        self.code == 0
    }
}

impl Default for CBLError {
    fn default() -> (r: CBLError)
        ensures
            r.domain == 0 && r.code == 0 && r.internal_info == 0,
    {
        CBLError::empty()
    }
}

/// The engine's own error codes.
#[derive(Clone, Copy, Debug, PartialEq, Eq, Structural)]
pub enum CouchbaseLiteError {
    AssertionFailed,
    Unimplemented,
    UnsupportedEncryption,
    BadRevisionID,
    CorruptRevisionData,
    NotOpen,
    NotFound,
    Conflict,
    InvalidParameter,
    UnexpectedError,
    CantOpenFile,
    IOError,
    MemoryError,
    NotWriteable,
    CorruptData,
    Busy,
    NotInTransaction,
    TransactionNotClosed,
    Unsupported,
    NotADatabaseFile,
    WrongFormat,
    Crypto,
    InvalidQuery,
    MissingIndex,
    InvalidQueryParam,
    RemoteError,
    DatabaseTooOld,
    DatabaseTooNew,
    BadDocID,
    CantUpgradeDatabase,
    /// A (domain, code) pair that has no category of its own.
    UntranslatableError,
}

impl CouchbaseLiteError {
    /// The numeric code of each variant: 1 to 30 in order, and 1000 for
    /// `UntranslatableError`.
    pub open spec fn spec_code(self) -> i32 {
        match self {
            CouchbaseLiteError::AssertionFailed => 1,
            CouchbaseLiteError::Unimplemented => 2,
            CouchbaseLiteError::UnsupportedEncryption => 3,
            CouchbaseLiteError::BadRevisionID => 4,
            CouchbaseLiteError::CorruptRevisionData => 5,
            CouchbaseLiteError::NotOpen => 6,
            CouchbaseLiteError::NotFound => 7,
            CouchbaseLiteError::Conflict => 8,
            CouchbaseLiteError::InvalidParameter => 9,
            CouchbaseLiteError::UnexpectedError => 10,
            CouchbaseLiteError::CantOpenFile => 11,
            CouchbaseLiteError::IOError => 12,
            CouchbaseLiteError::MemoryError => 13,
            CouchbaseLiteError::NotWriteable => 14,
            CouchbaseLiteError::CorruptData => 15,
            CouchbaseLiteError::Busy => 16,
            CouchbaseLiteError::NotInTransaction => 17,
            CouchbaseLiteError::TransactionNotClosed => 18,
            CouchbaseLiteError::Unsupported => 19,
            CouchbaseLiteError::NotADatabaseFile => 20,
            CouchbaseLiteError::WrongFormat => 21,
            CouchbaseLiteError::Crypto => 22,
            CouchbaseLiteError::InvalidQuery => 23,
            CouchbaseLiteError::MissingIndex => 24,
            CouchbaseLiteError::InvalidQueryParam => 25,
            CouchbaseLiteError::RemoteError => 26,
            CouchbaseLiteError::DatabaseTooOld => 27,
            CouchbaseLiteError::DatabaseTooNew => 28,
            CouchbaseLiteError::BadDocID => 29,
            CouchbaseLiteError::CantUpgradeDatabase => 30,
            CouchbaseLiteError::UntranslatableError => 1000,
        }
    }

    /// The numeric code of this variant.
    pub fn code(&self) -> (r: i32)
        ensures
            r == self.spec_code(),
    {
        match self {
            CouchbaseLiteError::AssertionFailed => 1,
            CouchbaseLiteError::Unimplemented => 2,
            CouchbaseLiteError::UnsupportedEncryption => 3,
            CouchbaseLiteError::BadRevisionID => 4,
            CouchbaseLiteError::CorruptRevisionData => 5,
            CouchbaseLiteError::NotOpen => 6,
            CouchbaseLiteError::NotFound => 7,
            CouchbaseLiteError::Conflict => 8,
            CouchbaseLiteError::InvalidParameter => 9,
            CouchbaseLiteError::UnexpectedError => 10,
            CouchbaseLiteError::CantOpenFile => 11,
            CouchbaseLiteError::IOError => 12,
            CouchbaseLiteError::MemoryError => 13,
            CouchbaseLiteError::NotWriteable => 14,
            CouchbaseLiteError::CorruptData => 15,
            CouchbaseLiteError::Busy => 16,
            CouchbaseLiteError::NotInTransaction => 17,
            CouchbaseLiteError::TransactionNotClosed => 18,
            CouchbaseLiteError::Unsupported => 19,
            CouchbaseLiteError::NotADatabaseFile => 20,
            CouchbaseLiteError::WrongFormat => 21,
            CouchbaseLiteError::Crypto => 22,
            CouchbaseLiteError::InvalidQuery => 23,
            CouchbaseLiteError::MissingIndex => 24,
            CouchbaseLiteError::InvalidQueryParam => 25,
            CouchbaseLiteError::RemoteError => 26,
            CouchbaseLiteError::DatabaseTooOld => 27,
            CouchbaseLiteError::DatabaseTooNew => 28,
            CouchbaseLiteError::BadDocID => 29,
            CouchbaseLiteError::CantUpgradeDatabase => 30,
            CouchbaseLiteError::UntranslatableError => 1000,
        }
    }

    /// The variant with the given numeric code, if there is one.
    pub open spec fn spec_from_code(code: i32) -> Option<CouchbaseLiteError> {
        match code {
            1 => Some(CouchbaseLiteError::AssertionFailed),
            2 => Some(CouchbaseLiteError::Unimplemented),
            3 => Some(CouchbaseLiteError::UnsupportedEncryption),
            4 => Some(CouchbaseLiteError::BadRevisionID),
            5 => Some(CouchbaseLiteError::CorruptRevisionData),
            6 => Some(CouchbaseLiteError::NotOpen),
            7 => Some(CouchbaseLiteError::NotFound),
            8 => Some(CouchbaseLiteError::Conflict),
            9 => Some(CouchbaseLiteError::InvalidParameter),
            10 => Some(CouchbaseLiteError::UnexpectedError),
            11 => Some(CouchbaseLiteError::CantOpenFile),
            12 => Some(CouchbaseLiteError::IOError),
            13 => Some(CouchbaseLiteError::MemoryError),
            14 => Some(CouchbaseLiteError::NotWriteable),
            15 => Some(CouchbaseLiteError::CorruptData),
            16 => Some(CouchbaseLiteError::Busy),
            17 => Some(CouchbaseLiteError::NotInTransaction),
            18 => Some(CouchbaseLiteError::TransactionNotClosed),
            19 => Some(CouchbaseLiteError::Unsupported),
            20 => Some(CouchbaseLiteError::NotADatabaseFile),
            21 => Some(CouchbaseLiteError::WrongFormat),
            22 => Some(CouchbaseLiteError::Crypto),
            23 => Some(CouchbaseLiteError::InvalidQuery),
            24 => Some(CouchbaseLiteError::MissingIndex),
            25 => Some(CouchbaseLiteError::InvalidQueryParam),
            26 => Some(CouchbaseLiteError::RemoteError),
            27 => Some(CouchbaseLiteError::DatabaseTooOld),
            28 => Some(CouchbaseLiteError::DatabaseTooNew),
            29 => Some(CouchbaseLiteError::BadDocID),
            30 => Some(CouchbaseLiteError::CantUpgradeDatabase),
            1000 => Some(CouchbaseLiteError::UntranslatableError),
            _ => None,
        }
    }

    /// The variant with the given numeric code, if there is one.
    pub fn from_i32(code: i32) -> (r: Option<CouchbaseLiteError>)
        ensures
            r == CouchbaseLiteError::spec_from_code(code),
            r is Some <==> ((1 <= code <= 30) || code == 1000),
            r matches Some(e) ==> e.spec_code() == code,
    {
        match code {
            1 => Some(CouchbaseLiteError::AssertionFailed),
            2 => Some(CouchbaseLiteError::Unimplemented),
            3 => Some(CouchbaseLiteError::UnsupportedEncryption),
            4 => Some(CouchbaseLiteError::BadRevisionID),
            5 => Some(CouchbaseLiteError::CorruptRevisionData),
            6 => Some(CouchbaseLiteError::NotOpen),
            7 => Some(CouchbaseLiteError::NotFound),
            8 => Some(CouchbaseLiteError::Conflict),
            9 => Some(CouchbaseLiteError::InvalidParameter),
            10 => Some(CouchbaseLiteError::UnexpectedError),
            11 => Some(CouchbaseLiteError::CantOpenFile),
            12 => Some(CouchbaseLiteError::IOError),
            13 => Some(CouchbaseLiteError::MemoryError),
            14 => Some(CouchbaseLiteError::NotWriteable),
            15 => Some(CouchbaseLiteError::CorruptData),
            16 => Some(CouchbaseLiteError::Busy),
            17 => Some(CouchbaseLiteError::NotInTransaction),
            18 => Some(CouchbaseLiteError::TransactionNotClosed),
            19 => Some(CouchbaseLiteError::Unsupported),
            20 => Some(CouchbaseLiteError::NotADatabaseFile),
            21 => Some(CouchbaseLiteError::WrongFormat),
            22 => Some(CouchbaseLiteError::Crypto),
            23 => Some(CouchbaseLiteError::InvalidQuery),
            24 => Some(CouchbaseLiteError::MissingIndex),
            25 => Some(CouchbaseLiteError::InvalidQueryParam),
            26 => Some(CouchbaseLiteError::RemoteError),
            27 => Some(CouchbaseLiteError::DatabaseTooOld),
            28 => Some(CouchbaseLiteError::DatabaseTooNew),
            29 => Some(CouchbaseLiteError::BadDocID),
            30 => Some(CouchbaseLiteError::CantUpgradeDatabase),
            1000 => Some(CouchbaseLiteError::UntranslatableError),
            _ => None,
        }
    }
}

/// Error codes of the structured-data encoder and decoder.
#[derive(Clone, Copy, Debug, PartialEq, Eq, Structural)]
pub enum FleeceError {
    MemoryError,
    OutOfRange,
    InvalidData,
    EncodeError,
    JSONError,
    UnknownValue,
    InternalError,
    NotFound,
    SharedKeysStateError,
    POSIXError,
    Unsupported,
}

impl FleeceError {
    /// The numeric code of each variant: 1 to 11 in order.
    pub open spec fn spec_code(self) -> u32 {
        match self {
            FleeceError::MemoryError => 1,
            FleeceError::OutOfRange => 2,
            FleeceError::InvalidData => 3,
            FleeceError::EncodeError => 4,
            FleeceError::JSONError => 5,
            FleeceError::UnknownValue => 6,
            FleeceError::InternalError => 7,
            FleeceError::NotFound => 8,
            FleeceError::SharedKeysStateError => 9,
            FleeceError::POSIXError => 10,
            FleeceError::Unsupported => 11,
        }
    }

    /// The numeric code of this variant.
    pub fn code(&self) -> (r: u32)
        ensures
            r == self.spec_code(),
    {
        match self {
            FleeceError::MemoryError => 1,
            FleeceError::OutOfRange => 2,
            FleeceError::InvalidData => 3,
            FleeceError::EncodeError => 4,
            FleeceError::JSONError => 5,
            FleeceError::UnknownValue => 6,
            FleeceError::InternalError => 7,
            FleeceError::NotFound => 8,
            FleeceError::SharedKeysStateError => 9,
            FleeceError::POSIXError => 10,
            FleeceError::Unsupported => 11,
        }
    }

    /// The variant with the given numeric code, if there is one.
    pub open spec fn spec_from_code(code: u32) -> Option<FleeceError> {
        match code {
            1 => Some(FleeceError::MemoryError),
            2 => Some(FleeceError::OutOfRange),
            3 => Some(FleeceError::InvalidData),
            4 => Some(FleeceError::EncodeError),
            5 => Some(FleeceError::JSONError),
            6 => Some(FleeceError::UnknownValue),
            7 => Some(FleeceError::InternalError),
            8 => Some(FleeceError::NotFound),
            9 => Some(FleeceError::SharedKeysStateError),
            10 => Some(FleeceError::POSIXError),
            11 => Some(FleeceError::Unsupported),
            _ => None,
        }
    }

    /// The variant with the given numeric code, if there is one.
    pub fn from_u32(code: u32) -> (r: Option<FleeceError>)
        ensures
            r == FleeceError::spec_from_code(code),
            r is Some <==> 1 <= code <= 11,
            r matches Some(e) ==> e.spec_code() == code,
    {
        match code {
            1 => Some(FleeceError::MemoryError),
            2 => Some(FleeceError::OutOfRange),
            3 => Some(FleeceError::InvalidData),
            4 => Some(FleeceError::EncodeError),
            5 => Some(FleeceError::JSONError),
            6 => Some(FleeceError::UnknownValue),
            7 => Some(FleeceError::InternalError),
            8 => Some(FleeceError::NotFound),
            9 => Some(FleeceError::SharedKeysStateError),
            10 => Some(FleeceError::POSIXError),
            11 => Some(FleeceError::Unsupported),
            _ => None,
        }
    }
}

/// Network error codes.
#[derive(Clone, Copy, Debug, PartialEq, Eq, Structural)]
pub enum NetworkError {
    DNSFailure,
    UnknownHost,
    Timeout,
    InvalidURL,
    TooManyRedirects,
    TLSHandshakeFailed,
    TLSCertExpired,
    TLSCertUntrusted,
    TLSClientCertRequired,
    TLSClientCertRejected,
    TLSCertUnknownRoot,
    InvalidRedirect,
    Unknown,
    TLSCertRevoked,
    TLSCertNameMismatch,
}

impl NetworkError {
    /// The numeric code of each variant: 1 to 15 in order.
    pub open spec fn spec_code(self) -> i32 {
        match self {
            NetworkError::DNSFailure => 1,
            NetworkError::UnknownHost => 2,
            NetworkError::Timeout => 3,
            NetworkError::InvalidURL => 4,
            NetworkError::TooManyRedirects => 5,
            NetworkError::TLSHandshakeFailed => 6,
            NetworkError::TLSCertExpired => 7,
            NetworkError::TLSCertUntrusted => 8,
            NetworkError::TLSClientCertRequired => 9,
            NetworkError::TLSClientCertRejected => 10,
            NetworkError::TLSCertUnknownRoot => 11,
            NetworkError::InvalidRedirect => 12,
            NetworkError::Unknown => 13,
            NetworkError::TLSCertRevoked => 14,
            NetworkError::TLSCertNameMismatch => 15,
        }
    }

    /// The numeric code of this variant.
    pub fn code(&self) -> (r: i32)
        ensures
            r == self.spec_code(),
    {
        match self {
            NetworkError::DNSFailure => 1,
            NetworkError::UnknownHost => 2,
            NetworkError::Timeout => 3,
            NetworkError::InvalidURL => 4,
            NetworkError::TooManyRedirects => 5,
            NetworkError::TLSHandshakeFailed => 6,
            NetworkError::TLSCertExpired => 7,
            NetworkError::TLSCertUntrusted => 8,
            NetworkError::TLSClientCertRequired => 9,
            NetworkError::TLSClientCertRejected => 10,
            NetworkError::TLSCertUnknownRoot => 11,
            NetworkError::InvalidRedirect => 12,
            NetworkError::Unknown => 13,
            NetworkError::TLSCertRevoked => 14,
            NetworkError::TLSCertNameMismatch => 15,
        }
    }

    /// The variant with the given numeric code, if there is one.
    pub open spec fn spec_from_code(code: i32) -> Option<NetworkError> {
        match code {
            1 => Some(NetworkError::DNSFailure),
            2 => Some(NetworkError::UnknownHost),
            3 => Some(NetworkError::Timeout),
            4 => Some(NetworkError::InvalidURL),
            5 => Some(NetworkError::TooManyRedirects),
            6 => Some(NetworkError::TLSHandshakeFailed),
            7 => Some(NetworkError::TLSCertExpired),
            8 => Some(NetworkError::TLSCertUntrusted),
            9 => Some(NetworkError::TLSClientCertRequired),
            10 => Some(NetworkError::TLSClientCertRejected),
            11 => Some(NetworkError::TLSCertUnknownRoot),
            12 => Some(NetworkError::InvalidRedirect),
            13 => Some(NetworkError::Unknown),
            14 => Some(NetworkError::TLSCertRevoked),
            15 => Some(NetworkError::TLSCertNameMismatch),
            _ => None,
        }
    }

    /// The variant with the given numeric code, if there is one.
    pub fn from_i32(code: i32) -> (r: Option<NetworkError>)
        ensures
            r == NetworkError::spec_from_code(code),
            r is Some <==> 1 <= code <= 15,
            r matches Some(e) ==> e.spec_code() == code,
    {
        match code {
            1 => Some(NetworkError::DNSFailure),
            2 => Some(NetworkError::UnknownHost),
            3 => Some(NetworkError::Timeout),
            4 => Some(NetworkError::InvalidURL),
            5 => Some(NetworkError::TooManyRedirects),
            6 => Some(NetworkError::TLSHandshakeFailed),
            7 => Some(NetworkError::TLSCertExpired),
            8 => Some(NetworkError::TLSCertUntrusted),
            9 => Some(NetworkError::TLSClientCertRequired),
            10 => Some(NetworkError::TLSClientCertRejected),
            11 => Some(NetworkError::TLSCertUnknownRoot),
            12 => Some(NetworkError::InvalidRedirect),
            13 => Some(NetworkError::Unknown),
            14 => Some(NetworkError::TLSCertRevoked),
            15 => Some(NetworkError::TLSCertNameMismatch),
            _ => None,
        }
    }
}

/// The category and code of an error.
#[derive(Clone, Copy, Debug, PartialEq, Eq, Structural)]
pub enum ErrorCode {
    CouchbaseLite(CouchbaseLiteError),
    POSIX(i32),
    SQLite(i32),
    Fleece(FleeceError),
    Network(NetworkError),
    WebSocket(i32),
}

/// The code that stands for any (domain, code) pair without a category.
pub open spec fn untranslatable_code() -> ErrorCode {
    ErrorCode::CouchbaseLite(CouchbaseLiteError::UntranslatableError)
}

/// The category of a structured-data error code.
pub open spec fn fleece_code_of(code: u32) -> ErrorCode {
    match FleeceError::spec_from_code(code) {
        Some(e) => ErrorCode::Fleece(e),
        None => untranslatable_code(),
    }
}

/// The category of an engine error record's (domain, code) pair.
pub open spec fn translate(domain: u32, code: i32) -> ErrorCode {
    if domain == CBL_DOMAIN {
        match CouchbaseLiteError::spec_from_code(code) {
            Some(e) => ErrorCode::CouchbaseLite(e),
            None => untranslatable_code(),
        }
    } else if domain == NETWORK_DOMAIN {
        match NetworkError::spec_from_code(code) {
            Some(e) => ErrorCode::Network(e),
            None => untranslatable_code(),
        }
    } else if domain == POSIX_DOMAIN {
        ErrorCode::POSIX(code)
    } else if domain == SQLITE_DOMAIN {
        ErrorCode::SQLite(code)
    } else if domain == FLEECE_DOMAIN {
        if code < 0 {
            untranslatable_code()
        } else {
            fleece_code_of(code as u32)
        }
    } else if domain == WEBSOCKET_DOMAIN {
        ErrorCode::WebSocket(code)
    } else {
        untranslatable_code()
    }
}

/// The domain in which an error code is reported.
pub open spec fn domain_of(c: ErrorCode) -> u32 {
    match c {
        ErrorCode::CouchbaseLite(_) => CBL_DOMAIN,
        ErrorCode::POSIX(_) => POSIX_DOMAIN,
        ErrorCode::SQLite(_) => SQLITE_DOMAIN,
        ErrorCode::Fleece(_) => FLEECE_DOMAIN,
        ErrorCode::Network(_) => NETWORK_DOMAIN,
        ErrorCode::WebSocket(_) => WEBSOCKET_DOMAIN,
    }
}

/// The numeric code with which an error code is reported in its domain.
pub open spec fn number_of(c: ErrorCode) -> i32 {
    match c {
        ErrorCode::CouchbaseLite(e) => e.spec_code(),
        ErrorCode::POSIX(n) => n,
        ErrorCode::SQLite(n) => n,
        ErrorCode::Fleece(e) => e.spec_code() as i32,
        ErrorCode::Network(e) => e.spec_code(),
        ErrorCode::WebSocket(n) => n,
    }
}

/// Every error code survives being reported as a (domain, code) pair and
/// translated back: the translation loses nothing that it can categorise.
pub proof fn lemma_translate_round_trip(c: ErrorCode)
    ensures
        translate(domain_of(c), number_of(c)) == c,
{
}

impl ErrorCode {
    /// Translates an engine error record into its category; a pair with no
    /// category gives the untranslatable code.
    pub fn new(err: &CBLError) -> (r: ErrorCode)
        ensures
            r == translate(err.domain, err.code),
    {
        if err.domain == CBL_DOMAIN {
            if let Some(e) = CouchbaseLiteError::from_i32(err.code) {
                return ErrorCode::CouchbaseLite(e);
            }
        } else if err.domain == NETWORK_DOMAIN {
            if let Some(e) = NetworkError::from_i32(err.code) {
                return ErrorCode::Network(e);
            }
        } else if err.domain == POSIX_DOMAIN {
            return ErrorCode::POSIX(err.code);
        } else if err.domain == SQLITE_DOMAIN {
            return ErrorCode::SQLite(err.code);
        } else if err.domain == FLEECE_DOMAIN {
            if err.code < 0 {
                return ErrorCode::untranslatable();
            }
            return ErrorCode::from_fleece(err.code as u32);
        } else if err.domain == WEBSOCKET_DOMAIN {
            return ErrorCode::WebSocket(err.code);
        }
        ErrorCode::untranslatable()
    }

    /// The category of a structured-data error code.
    pub fn from_fleece(fleece_error: u32) -> (r: ErrorCode)
        ensures
            r == fleece_code_of(fleece_error),
    {
        if let Some(e) = FleeceError::from_u32(fleece_error) {
            return ErrorCode::Fleece(e);
        }
        ErrorCode::untranslatable()
    }

    /// The code that stands for any (domain, code) pair without a category.
    pub fn untranslatable() -> (r: ErrorCode)
        ensures
            r == untranslatable_code(),
    {
        ErrorCode::CouchbaseLite(CouchbaseLiteError::UntranslatableError)
    }
}

/// An error: its category and code, and the engine's token when the error
/// came from an engine record.
#[derive(Clone, Copy, Debug, PartialEq, Eq, Structural)]
pub struct Error {
    pub code: ErrorCode,
    pub internal_info: Option<i32>,
}

/// The error that an engine error record translates to.
pub open spec fn error_of(err: CBLError) -> Error {
    Error { code: translate(err.domain, err.code), internal_info: Some(err.internal_info) }
}

/// The text of the one message that needs no engine to render.
pub open spec fn unknown_error_text() -> Seq<char> {
    seq!['U', 'n', 'k', 'n', 'o', 'w', 'n', ' ', 'e', 'r', 'r', 'o', 'r']
}

impl Error {
    /// The error that an engine error record translates to.
    pub fn new(err: &CBLError) -> (r: Error)
        ensures
            r == error_of(*err),
    {
        Error { code: ErrorCode::new(err), internal_info: Some(err.internal_info) }
    }

    /// An error of the engine's own domain, not taken from an engine record.
    pub fn cbl_error(e: CouchbaseLiteError) -> (r: Error)
        ensures
            r == (Error { code: ErrorCode::CouchbaseLite(e), internal_info: None }),
    {
        Error { code: ErrorCode::CouchbaseLite(e), internal_info: None }
    }

    /// An error of the structured-data domain, from its numeric code.
    pub fn fleece_error(e: u32) -> (r: Error)
        ensures
            r == (Error { code: fleece_code_of(e), internal_info: None }),
    {
        Error { code: ErrorCode::from_fleece(e), internal_info: None }
    }

    /// The engine error record that reports this error.
    pub fn as_cbl_error(&self) -> (r: CBLError)
        ensures
            r.domain == domain_of(self.code),
            r.code == number_of(self.code),
            r.internal_info == (match self.internal_info {
                Some(i) => i,
                None => 0,
            }),
    {
        let domain: u32;
        let code: i32;
        match &self.code {
            ErrorCode::CouchbaseLite(e) => {
                domain = CBL_DOMAIN;
                code = e.code();
            },
            ErrorCode::Fleece(e) => {
                domain = FLEECE_DOMAIN;
                code = e.code() as i32;
            },
            ErrorCode::Network(e) => {
                domain = NETWORK_DOMAIN;
                code = e.code();
            },
            ErrorCode::POSIX(e) => {
                domain = POSIX_DOMAIN;
                code = *e;
            },
            ErrorCode::SQLite(e) => {
                domain = SQLITE_DOMAIN;
                code = *e;
            },
            ErrorCode::WebSocket(e) => {
                domain = WEBSOCKET_DOMAIN;
                code = *e;
            },
        }
        let info = match self.internal_info {
            Some(i) => i,
            None => 0,
        };
        CBLError { domain, code, internal_info: info }
    }

    /// The message of an error that needs no engine to render it: the
    /// untranslatable code has the fixed text "Unknown error"; every other
    /// code gives `None`, and its message comes from the engine.
    pub fn local_message(&self) -> (r: Option<String>)
        ensures
            r is Some <==> self.code == untranslatable_code(),
            r matches Some(s) ==> s@ == unknown_error_text(),
    {
        if let ErrorCode::CouchbaseLite(CouchbaseLiteError::UntranslatableError) = self.code {
            let s = "Unknown error";
            proof { reveal_strlit("Unknown error"); }
            let r = s.to_owned();
            assert(r@ =~= unknown_error_text());
            Some(r)
        } else {
            None
        }
    }
}

/// The result of a fallible call.
pub type Result<T> = core::result::Result<T, Error>;

/// The failure that an error record reports. The record must hold an error.
pub fn failure<T>(err: CBLError) -> (r: Result<T>)
    requires
        err.code != 0,
    ensures
        r matches Err(e) && e == error_of(err),
{
    Err(Error::new(&err))
}

/// The outcome of a call that reports success as a flag: `Ok` when the flag is
/// set, else the error that the record reports, which must then hold one.
pub fn check_failure(status: bool, err: &CBLError) -> (r: Result<()>)
    requires
        status || err.code != 0,
    ensures
        status ==> r is Ok,
        !status ==> (r matches Err(e) && e == error_of(*err)),
{
    if status {
        Ok(())
    } else {
        Err(Error::new(err))
    }
}

/// Runs a call that reports success as a flag together with an error
/// record, and gives its outcome. A call that fails must set the record.
pub fn check_bool<F>(func: F) -> (r: Result<()>)
    where
        F: FnOnce() -> (bool, CBLError),
    requires
        func.requires(()),
        forall|o: (bool, CBLError)| func.ensures((), o) ==> o.0 || o.1.code != 0,
    ensures
        exists|o: (bool, CBLError)|
            #![trigger func.ensures((), o)]
            func.ensures((), o) && (o.0 ==> r is Ok) && (!o.0 ==> (r matches Err(e) && e
                == error_of(o.1))),
{
    let o = func();
    let (ok, err) = o;
    check_failure(ok, &err)
}

/// Runs a call that gives a result or nothing together with an error record,
/// and maps a result with `map`. A call that gives nothing must set the
/// record.
pub fn check_ptr<P, R, F, M>(func: F, map: M) -> (r: Result<R>)
    where
        F: FnOnce() -> (Option<P>, CBLError),
        M: FnOnce(P) -> R,
    requires
        func.requires(()),
        forall|o: (Option<P>, CBLError)| func.ensures((), o) ==> o.0 is Some || o.1.code != 0,
        forall|p: P| map.requires((p,)),
    ensures
        exists|o: (Option<P>, CBLError)|
            #![trigger func.ensures((), o)]
            func.ensures((), o) && (match o.0 {
                Some(p) => r matches Ok(v) && map.ensures((p,), v),
                None => r matches Err(e) && e == error_of(o.1),
            }),
{
    let o = func();
    let (p, err) = o;
    match p {
        Some(p) => Ok(map(p)),
        None => failure(err),
    }
}

/// Runs a call that reports a count, negative on failure, together with an
/// error record, and gives the count or the error that the record reports.
pub fn check_io<F>(func: F) -> (r: Result<usize>)
    where
        F: FnOnce() -> (i32, CBLError),
    requires
        func.requires(()),
    ensures
        exists|o: (i32, CBLError)|
            #![trigger func.ensures((), o)]
            func.ensures((), o) && (o.0 >= 0 ==> (r matches Ok(n) && n == o.0)) && (o.0 < 0 ==> (
            r matches Err(e) && e == error_of(o.1))),
{
    let o = func();
    let (n, err) = o;
    if n < 0 {
        Err(Error::new(&err))
    } else {
        Ok(n as usize)
    }
}

} // verus!
