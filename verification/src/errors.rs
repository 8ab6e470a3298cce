//! Error taxonomy used across the runtime, and its mapping to the
//! numeric codes handed over the C API boundary.

use vstd::prelude::*;

verus! {

/// Result type for runtime operations.
pub type BoxliteResult<T> = Result<T, BoxliteError>;

/// One variant per error kind of the runtime's taxonomy.
#[derive(Debug, Clone)]
pub enum BoxliteError {
    UnsupportedEngine,
    Engine(String),
    Config(String),
    Storage(String),
    Image(String),
    Portal(String),
    Network(String),
    Rpc(String),
    RpcTransport(String),
    Internal(String),
    Execution(String),
    Unsupported(String),
    NotFound(String),
    AlreadyExists(String),
    InvalidState(String),
    Database(String),
    MetadataError(String),
    InvalidArgument(String),
    Stopped(String),
}

/// Error codes returned over the C API; one per `BoxliteError` kind,
/// plus `Success` for the no-error case.
#[derive(Debug, Clone, Copy, PartialEq, Eq, Structural)]
pub enum BoxliteErrorCode {
    Success,
    Internal,
    NotFound,
    AlreadyExists,
    InvalidState,
    InvalidArgument,
    Config,
    Storage,
    Image,
    Network,
    Execution,
    Stopped,
    Engine,
    Unsupported,
    Database,
    Portal,
    Rpc,
    RpcTransport,
    Metadata,
    UnsupportedEngine,
}

/// The code that belongs to each error kind.
pub open spec fn spec_error_code(err: &BoxliteError) -> BoxliteErrorCode {
    match err {
        BoxliteError::UnsupportedEngine => BoxliteErrorCode::UnsupportedEngine,
        BoxliteError::Engine(_) => BoxliteErrorCode::Engine,
        BoxliteError::Config(_) => BoxliteErrorCode::Config,
        BoxliteError::Storage(_) => BoxliteErrorCode::Storage,
        BoxliteError::Image(_) => BoxliteErrorCode::Image,
        BoxliteError::Portal(_) => BoxliteErrorCode::Portal,
        BoxliteError::Network(_) => BoxliteErrorCode::Network,
        BoxliteError::Rpc(_) => BoxliteErrorCode::Rpc,
        BoxliteError::RpcTransport(_) => BoxliteErrorCode::RpcTransport,
        BoxliteError::Internal(_) => BoxliteErrorCode::Internal,
        BoxliteError::Execution(_) => BoxliteErrorCode::Execution,
        BoxliteError::Unsupported(_) => BoxliteErrorCode::Unsupported,
        BoxliteError::NotFound(_) => BoxliteErrorCode::NotFound,
        BoxliteError::AlreadyExists(_) => BoxliteErrorCode::AlreadyExists,
        BoxliteError::InvalidState(_) => BoxliteErrorCode::InvalidState,
        BoxliteError::Database(_) => BoxliteErrorCode::Database,
        BoxliteError::MetadataError(_) => BoxliteErrorCode::Metadata,
        BoxliteError::InvalidArgument(_) => BoxliteErrorCode::InvalidArgument,
        BoxliteError::Stopped(_) => BoxliteErrorCode::Stopped,
    }
}

/// Map an error to its C API code.
pub fn error_to_code(err: &BoxliteError) -> (r: BoxliteErrorCode)
    ensures
        r == spec_error_code(err),
{
    match err {
        BoxliteError::UnsupportedEngine => BoxliteErrorCode::UnsupportedEngine,
        BoxliteError::Engine(_) => BoxliteErrorCode::Engine,
        BoxliteError::Config(_) => BoxliteErrorCode::Config,
        BoxliteError::Storage(_) => BoxliteErrorCode::Storage,
        BoxliteError::Image(_) => BoxliteErrorCode::Image,
        BoxliteError::Portal(_) => BoxliteErrorCode::Portal,
        BoxliteError::Network(_) => BoxliteErrorCode::Network,
        BoxliteError::Rpc(_) => BoxliteErrorCode::Rpc,
        BoxliteError::RpcTransport(_) => BoxliteErrorCode::RpcTransport,
        BoxliteError::Internal(_) => BoxliteErrorCode::Internal,
        BoxliteError::Execution(_) => BoxliteErrorCode::Execution,
        BoxliteError::Unsupported(_) => BoxliteErrorCode::Unsupported,
        BoxliteError::NotFound(_) => BoxliteErrorCode::NotFound,
        BoxliteError::AlreadyExists(_) => BoxliteErrorCode::AlreadyExists,
        BoxliteError::InvalidState(_) => BoxliteErrorCode::InvalidState,
        BoxliteError::Database(_) => BoxliteErrorCode::Database,
        BoxliteError::MetadataError(_) => BoxliteErrorCode::Metadata,
        BoxliteError::InvalidArgument(_) => BoxliteErrorCode::InvalidArgument,
        BoxliteError::Stopped(_) => BoxliteErrorCode::Stopped,
    }
}

/// The human-readable prefix of each error kind.
pub open spec fn spec_error_prefix(err: &BoxliteError) -> Seq<char> {
    match err {
        BoxliteError::UnsupportedEngine => "unsupported engine kind"@,
        BoxliteError::Engine(_) => "engine reported an error: "@,
        BoxliteError::Config(_) => "configuration error: "@,
        BoxliteError::Storage(_) => "storage error: "@,
        BoxliteError::Image(_) => "images error: "@,
        BoxliteError::Portal(_) => "portal error: "@,
        BoxliteError::Network(_) => "network error: "@,
        BoxliteError::Rpc(_) => "rpc error: "@,
        BoxliteError::RpcTransport(_) => "rpc transport error: "@,
        BoxliteError::Internal(_) => "internal error: "@,
        BoxliteError::Execution(_) => "Execution error: "@,
        BoxliteError::Unsupported(_) => "unsupported: "@,
        BoxliteError::NotFound(_) => "box not found: "@,
        BoxliteError::AlreadyExists(_) => "already exists: "@,
        BoxliteError::InvalidState(_) => "invalid state: "@,
        BoxliteError::Database(_) => "database error: "@,
        BoxliteError::MetadataError(_) => "metadata error: "@,
        BoxliteError::InvalidArgument(_) => "invalid argument: "@,
        BoxliteError::Stopped(_) => "stopped: "@,
    }
}

/// The detail string carried by the error, empty where the kind has none.
pub open spec fn spec_error_detail(err: &BoxliteError) -> Seq<char> {
    match err {
        BoxliteError::UnsupportedEngine => Seq::<char>::empty(),
        BoxliteError::Engine(m) => m@,
        BoxliteError::Config(m) => m@,
        BoxliteError::Storage(m) => m@,
        BoxliteError::Image(m) => m@,
        BoxliteError::Portal(m) => m@,
        BoxliteError::Network(m) => m@,
        BoxliteError::Rpc(m) => m@,
        BoxliteError::RpcTransport(m) => m@,
        BoxliteError::Internal(m) => m@,
        BoxliteError::Execution(m) => m@,
        BoxliteError::Unsupported(m) => m@,
        BoxliteError::NotFound(m) => m@,
        BoxliteError::AlreadyExists(m) => m@,
        BoxliteError::InvalidState(m) => m@,
        BoxliteError::Database(m) => m@,
        BoxliteError::MetadataError(m) => m@,
        BoxliteError::InvalidArgument(m) => m@,
        BoxliteError::Stopped(m) => m@,
    }
}

impl BoxliteError {
    /// Full message: kind prefix followed by the detail.
    pub open spec fn spec_message(&self) -> Seq<char> {
        spec_error_prefix(self) + spec_error_detail(self)
    }

    /// Render the error as `prefix: detail`, as a user of the CLI sees it.
    pub fn message(&self) -> (r: String)
        ensures
            r@ == self.spec_message(),
    {
        let prefix: &str = match self {
            BoxliteError::UnsupportedEngine => "unsupported engine kind",
            BoxliteError::Engine(_) => "engine reported an error: ",
            BoxliteError::Config(_) => "configuration error: ",
            BoxliteError::Storage(_) => "storage error: ",
            BoxliteError::Image(_) => "images error: ",
            BoxliteError::Portal(_) => "portal error: ",
            BoxliteError::Network(_) => "network error: ",
            BoxliteError::Rpc(_) => "rpc error: ",
            BoxliteError::RpcTransport(_) => "rpc transport error: ",
            BoxliteError::Internal(_) => "internal error: ",
            BoxliteError::Execution(_) => "Execution error: ",
            BoxliteError::Unsupported(_) => "unsupported: ",
            BoxliteError::NotFound(_) => "box not found: ",
            BoxliteError::AlreadyExists(_) => "already exists: ",
            BoxliteError::InvalidState(_) => "invalid state: ",
            BoxliteError::Database(_) => "database error: ",
            BoxliteError::MetadataError(_) => "metadata error: ",
            BoxliteError::InvalidArgument(_) => "invalid argument: ",
            BoxliteError::Stopped(_) => "stopped: ",
        };
        let detail: &str = match self {
            BoxliteError::UnsupportedEngine => "",
            BoxliteError::Engine(m) => m.as_str(),
            BoxliteError::Config(m) => m.as_str(),
            BoxliteError::Storage(m) => m.as_str(),
            BoxliteError::Image(m) => m.as_str(),
            BoxliteError::Portal(m) => m.as_str(),
            BoxliteError::Network(m) => m.as_str(),
            BoxliteError::Rpc(m) => m.as_str(),
            BoxliteError::RpcTransport(m) => m.as_str(),
            BoxliteError::Internal(m) => m.as_str(),
            BoxliteError::Execution(m) => m.as_str(),
            BoxliteError::Unsupported(m) => m.as_str(),
            BoxliteError::NotFound(m) => m.as_str(),
            BoxliteError::AlreadyExists(m) => m.as_str(),
            BoxliteError::InvalidState(m) => m.as_str(),
            BoxliteError::Database(m) => m.as_str(),
            BoxliteError::MetadataError(m) => m.as_str(),
            BoxliteError::InvalidArgument(m) => m.as_str(),
            BoxliteError::Stopped(m) => m.as_str(),
        };
        let mut out = String::from_str(prefix);
        out.append(detail);
        proof {
            reveal_strlit("");
        }
        out
    }
}

/// The error returned where a caller hands the C API a null pointer.
pub fn null_pointer_error(param_name: &str) -> (r: BoxliteError)
    ensures
        r is InvalidArgument,
        spec_error_detail(&r) == param_name@ + " is null"@,
{
    let mut msg = String::from_str(param_name);
    msg.append(" is null");
    BoxliteError::InvalidArgument(msg)
}

} // verus!
