//! Error categories shared by the whole project.
use vstd::prelude::*;
use crate::text::{copy_string, push_str};

verus! {

/// All errors fall into three categories:
/// - `InternalError`: the algorithms of this project did not work correctly;
/// - `GatewayError`: the university's backend is unavailable;
/// - `UserError`: the user sent incorrect data.
#[derive(Debug)]
pub enum CommonError {
    InternalError(String),
    GatewayError(String),
    UserError(String),
}

/// Category of a [CommonError].
#[derive(Clone, Copy, PartialEq, Eq, Structural, Debug)]
pub enum ErrorKind {
    Internal,
    Gateway,
    User,
}

/// Abstract value of a [CommonError]: its category and its message.
pub struct CommonErrorView {
    pub kind: ErrorKind,
    pub message: Seq<char>,
}

impl View for CommonError {
    type V = CommonErrorView;

    open spec fn view(&self) -> CommonErrorView {
        match self {
            CommonError::InternalError(m) => CommonErrorView { kind: ErrorKind::Internal, message: m@ },
            CommonError::GatewayError(m) => CommonErrorView { kind: ErrorKind::Gateway, message: m@ },
            CommonError::UserError(m) => CommonErrorView { kind: ErrorKind::User, message: m@ },
        }
    }
}

/// An error of the given kind and message.
pub open spec fn error_spec(kind: ErrorKind, message: Seq<char>) -> CommonErrorView {
    CommonErrorView { kind, message }
}

impl CommonError {
    /// An [CommonError::InternalError] with the given message.
    pub fn internal(message: &str) -> (r: CommonError)
        ensures
            r@ == error_spec(ErrorKind::Internal, message@),
    {
        CommonError::InternalError(copy_string(message))
    }

    /// A [CommonError::GatewayError] with the given message.
    pub fn gateway(message: &str) -> (r: CommonError)
        ensures
            r@ == error_spec(ErrorKind::Gateway, message@),
    {
        CommonError::GatewayError(copy_string(message))
    }

    /// A [CommonError::UserError] with the given message.
    pub fn user(message: &str) -> (r: CommonError)
        ensures
            r@ == error_spec(ErrorKind::User, message@),
    {
        CommonError::UserError(copy_string(message))
    }

    /// The category of the error.
    pub fn kind(&self) -> (r: ErrorKind)
        ensures
            r == self@.kind,
    {
        match self {
            CommonError::InternalError(_) => ErrorKind::Internal,
            CommonError::GatewayError(_) => ErrorKind::Gateway,
            CommonError::UserError(_) => ErrorKind::User,
        }
    }

    /// The same error with `context` put before its message: the category is kept, so a
    /// caller still tells a user's mistake from a failure of the server or of this project.
    pub fn with_context(self, context: &str) -> (r: CommonError)
        ensures
            r@.kind == self@.kind,
            r@.message == context@ + ": "@ + self@.message,
    {
        let mut m = copy_string(context);
        push_str(&mut m, ": ");
        match self {
            CommonError::InternalError(inner) => {
                push_str(&mut m, inner.as_str());
                CommonError::InternalError(m)
            },
            CommonError::GatewayError(inner) => {
                push_str(&mut m, inner.as_str());
                CommonError::GatewayError(m)
            },
            CommonError::UserError(inner) => {
                push_str(&mut m, inner.as_str());
                CommonError::UserError(m)
            },
        }
    }

    /// Human-readable description, one line ending in a newline.
    pub fn describe(&self) -> (r: String)
        ensures
            r@ == describe_spec(self@),
    {
        let mut s = String::new();
        match self {
            CommonError::InternalError(m) => {
                push_str(&mut s, "Internal error: ");
                push_str(&mut s, m.as_str());
            },
            CommonError::GatewayError(m) => {
                push_str(&mut s, "Gateway error: ");
                push_str(&mut s, m.as_str());
            },
            CommonError::UserError(m) => {
                push_str(&mut s, "User error: ");
                push_str(&mut s, m.as_str());
            },
        }
        push_str(&mut s, "\n");
        s
    }
}

/// The text [CommonError::describe] gives.
pub open spec fn describe_spec(e: CommonErrorView) -> Seq<char> {
    let prefix = match e.kind {
        ErrorKind::Internal => "Internal error: "@,
        ErrorKind::Gateway => "Gateway error: "@,
        ErrorKind::User => "User error: "@,
    };
    prefix + e.message + "\n"@
}

/// HTTP status answered for an error: the first [CommonError] in the error's chain decides,
/// and an error without one is an internal server error.
pub open spec fn status_code_spec(e: Option<ErrorKind>) -> u16 {
    match e {
        Some(ErrorKind::Gateway) => 502,
        Some(ErrorKind::Internal) => 500,
        Some(ErrorKind::User) => 400,
        None => 500,
    }
}

/// HTTP status code for an error whose first [CommonError] (if any) is `e`.
pub fn status_code(e: Option<&CommonError>) -> (r: u16)
    ensures
        r == status_code_spec(match e { Some(x) => Some(x@.kind), None => None }),
{
    match e {
        Some(CommonError::GatewayError(_)) => 502,
        Some(CommonError::InternalError(_)) => 500,
        Some(CommonError::UserError(_)) => 400,
        None => 500,
    }
}

/// Category of a failed HTTP request: a response that could not be decoded is an internal
/// error, every other failure is a gateway error.
pub fn http_failure(is_decode: bool, message: &str) -> (r: CommonError)
    ensures
        r@ == error_spec(if is_decode { ErrorKind::Internal } else { ErrorKind::Gateway }, message@),
{
    if is_decode {
        CommonError::internal(message)
    } else {
        CommonError::gateway(message)
    }
}

/// An error answered by the schedule service's HTTP API: its description, and the
/// [CommonError] found in its chain of causes, if any.
#[derive(Debug)]
pub struct AppScheduleError {
    pub common: Option<CommonError>,
    pub description: String,
}

/// Access to the [CommonError] inside an error.
pub trait CommonErrorExt {
    fn as_common_error(&self) -> Option<&CommonError>;
}

impl CommonErrorExt for AppScheduleError {
    fn as_common_error(&self) -> (r: Option<&CommonError>)
        ensures
            match self.common {
                Some(c) => r == Some(&c),
                None => r is None,
            },
    {
        self.common.as_ref()
    }
}

impl AppScheduleError {
    /// An API error caused by `e`, described as [CommonError::describe] does.
    pub fn from_common(e: CommonError) -> (r: AppScheduleError)
        ensures
            r.common matches Some(c) && c@ == e@,
            r.description@ == describe_spec(e@),
    {
        let description = e.describe();
        AppScheduleError { common: Some(e), description }
    }

    /// An API error for a schedule type that could not be parsed: a user error.
    pub fn from_parse_error(e: &crate::models::ParseScheduleTypeError) -> (r: AppScheduleError)
        ensures
            r.common matches Some(c) && c@ == error_spec(ErrorKind::User, "Unknown schedule type: "@ + e.0@),
    {
        let message = e.describe();
        AppScheduleError::from_common(CommonError::UserError(message))
    }

    /// The HTTP status answered for the error.
    pub fn status_code(&self) -> (r: u16)
        ensures
            r == status_code_spec(match self.common { Some(c) => Some(c@.kind), None => None }),
    {
        status_code(self.common.as_ref())
    }
}

/// A failed HTTP request, as the HTTP client reports it.
#[derive(Debug)]
pub struct HttpFailure {
    /// The response arrived but could not be decoded.
    pub is_decode: bool,
    pub message: String,
}

/// Turning failed HTTP requests into [CommonError]s.
pub trait ResultExt<T>: Sized {
    fn with_common_error(self) -> Result<T, CommonError>;
}

impl<T> ResultExt<T> for Result<T, HttpFailure> {
    /// A decoding failure is an internal error, any other failure a gateway error.
    fn with_common_error(self) -> (r: Result<T, CommonError>)
        ensures
            match self {
                Ok(v) => r == Ok::<T, CommonError>(v),
                Err(f) => r matches Err(e)
                    && e@ == error_spec(if f.is_decode { ErrorKind::Internal } else { ErrorKind::Gateway }, f.message@),
            },
    {
        match self {
            Ok(v) => Ok(v),
            Err(f) => Err(http_failure(f.is_decode, f.message.as_str())),
        }
    }
}

/// The host a server listens on when none is configured.
pub open spec fn default_host(debug_build: bool) -> Seq<char> {
    if debug_build { "127.0.0.1"@ } else { "0.0.0.0"@ }
}

/// Port a server listens on when none (or no valid one) is configured.
pub const DEFAULT_PORT: u16 = 8080;

/// The address (host, port) a server listens on, from the configured host and port (if
/// set): the host as given, or the default of the build; the port as given when it parses
/// as a `u16`, else 8080.
pub fn get_address(host: Option<&str>, port: Option<&str>, debug_build: bool) -> (r: (String, u16))
    ensures
        r.0@ == (match host { Some(h) => h@, None => default_host(debug_build) }),
        r.1 == (match port {
            Some(p) => match crate::text::parse_int_spec(p@, 0, 65535) {
                Some(v) => v as u16,
                None => DEFAULT_PORT,
            },
            None => DEFAULT_PORT,
        }),
{
    let h = match host {
        Some(h) => copy_string(h),
        None => if debug_build { copy_string("127.0.0.1") } else { copy_string("0.0.0.0") },
    };
    let p: u16 = match port {
        Some(text) => {
            let chars = crate::text::chars_of(text);
            match crate::text::parse_int(chars.as_slice(), 0, 65535) {
                Some(v) => v as u16,
                None => DEFAULT_PORT,
            }
        },
        None => DEFAULT_PORT,
    };
    (h, p)
}

/// A cache that keeps each entry in a file under a directory.
#[derive(Debug)]
pub struct PersistentCache {
    pub cache_dir: String,
}

/// `dir` joined with `key` as `Path::join` does on Unix: an absolute key replaces the
/// directory, an empty directory gives the key, else a separator goes between them unless
/// the directory ends with one.
pub open spec fn join_path(dir: Seq<char>, key: Seq<char>) -> Seq<char> {
    if key.len() > 0 && key[0] == '/' {
        key
    } else if dir.len() == 0 {
        key
    } else if dir.last() == '/' {
        dir + key
    } else {
        dir + seq!['/'] + key
    }
}

impl PersistentCache {
    pub fn new(cache_dir: String) -> (r: PersistentCache)
        ensures
            r.cache_dir@ == cache_dir@,
    {
        PersistentCache { cache_dir }
    }

    /// The path of the file that holds the entry `key`.
    pub fn entry_path(&self, key: &str) -> (r: String)
        ensures
            r@ == join_path(self.cache_dir@, key@),
    {
        let k = crate::text::chars_of(key);
        if k.len() > 0 && k[0] == '/' {
            return copy_string(key);
        }
        let d = crate::text::chars_of(self.cache_dir.as_str());
        if d.len() == 0 {
            return copy_string(key);
        }
        let mut out = copy_string(self.cache_dir.as_str());
        if d[d.len() - 1] != '/' {
            crate::text::push_char(&mut out, '/');
        }
        push_str(&mut out, key);
        proof {
            assert(d@.last() == d@[d@.len() - 1]);
        }
        out
    }
}

} // verus!
