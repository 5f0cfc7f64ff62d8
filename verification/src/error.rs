//! The error value that every command reports in its envelope.
use vstd::prelude::*;

use crate::text::{chars_of, concat_str, string_of};

verus! {

/// HTTP details of an error (the status code the server answered with).
#[derive(Debug)]
pub struct HttpErrorInfo {
    pub status: u16,
}

/// JMAP details of an error (the method-level error type, such as `notFound`).
#[derive(Debug)]
pub struct JmapErrorInfo {
    pub error_type: String,
}

/// An error as it appears in the output envelope.
#[derive(Debug)]
pub struct XinErrorOut {
    pub kind: String,
    pub message: String,
    pub http: Option<HttpErrorInfo>,
    pub jmap: Option<JmapErrorInfo>,
}

/// The kind of a command that exists in the interface but not for this account or input.
pub open spec fn kind_not_implemented() -> Seq<char> {
    "xinNotImplemented"@
}

/// The kind of an error in how the command was invoked.
pub open spec fn kind_usage() -> Seq<char> {
    "xinUsageError"@
}

/// The kind of an error in the configuration or the server's data.
pub open spec fn kind_config() -> Seq<char> {
    "xinConfigError"@
}

/// The kind of an error at the HTTP level.
pub open spec fn kind_http() -> Seq<char> {
    "httpError"@
}

/// The kind of a JMAP method-level error.
pub open spec fn kind_jmap_method() -> Seq<char> {
    "jmapMethodError"@
}

impl XinErrorOut {
    /// Whether this is a plain error (no HTTP or JMAP details) of the given kind and message.
    pub open spec fn is_plain(&self, kind: Seq<char>, message: Seq<char>) -> bool {
        &&& self.kind@ == kind
        &&& self.message@ == message
        &&& self.http is None
        &&& self.jmap is None
    }

    /// Whether this is a usage error with the given message.
    pub open spec fn is_usage(&self, message: Seq<char>) -> bool {
        self.is_plain(kind_usage(), message)
    }

    /// Whether this is a configuration error with the given message.
    pub open spec fn is_config(&self, message: Seq<char>) -> bool {
        self.is_plain(kind_config(), message)
    }

    /// Whether this is a not-implemented error with the given message.
    pub open spec fn is_not_implemented(&self, message: Seq<char>) -> bool {
        self.is_plain(kind_not_implemented(), message)
    }

    /// An error of the given kind and message, without HTTP or JMAP details.
    pub fn plain(kind: &str, message: String) -> (e: Self)
        ensures
            e.is_plain(kind@, message@),
    {
        XinErrorOut { kind: owned(kind), message, http: None, jmap: None }
    }

    /// A `xinNotImplemented` error.
    pub fn not_implemented(message: String) -> (e: Self)
        ensures
            e.is_not_implemented(message@),
    {
        Self::plain("xinNotImplemented", message)
    }

    /// A `xinUsageError`.
    pub fn usage(message: String) -> (e: Self)
        ensures
            e.is_usage(message@),
    {
        Self::plain("xinUsageError", message)
    }

    /// A `xinConfigError`.
    pub fn config(message: String) -> (e: Self)
        ensures
            e.is_config(message@),
    {
        Self::plain("xinConfigError", message)
    }

    /// A `jmapMethodError` of JMAP type `notFound`.
    pub fn not_found(message: String) -> (e: Self)
        ensures
            e.kind@ == kind_jmap_method(),
            e.message@ == message@,
            e.http is None,
            e.jmap matches Some(j) && j.error_type@ == "notFound"@,
    {
        XinErrorOut {
            kind: owned("jmapMethodError"),
            message,
            http: None,
            jmap: Some(JmapErrorInfo { error_type: owned("notFound") }),
        }
    }

    /// An `httpError` that carries the status code.
    pub fn http_status(message: String, status: u16) -> (e: Self)
        ensures
            e.kind@ == kind_http(),
            e.message@ == message@,
            e.http matches Some(h) && h.status == status,
            e.jmap is None,
    {
        XinErrorOut {
            kind: owned("httpError"),
            message,
            http: Some(HttpErrorInfo { status }),
            jmap: None,
        }
    }
}

/// An owned copy of the given text.
pub fn owned(s: &str) -> (r: String)
    ensures
        r@ == s@,
{
    let v = chars_of(s);
    string_of(&v)
}

/// A usage error whose message is `prefix` followed by `detail`.
pub fn usage_with(prefix: &str, detail: &str) -> (e: XinErrorOut)
    ensures
        e.is_usage(prefix@ + detail@),
{
    XinErrorOut::usage(concat_str(prefix, detail))
}

} // verus!
