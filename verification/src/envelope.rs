//! The metadata part of the output envelope.
use vstd::prelude::*;

use crate::mailbox::opt_text;
use crate::pieces::{clone_strings, string_views};

verus! {

/// Envelope metadata: a request id, the token of the next page, and warnings.
#[derive(Debug)]
pub struct Meta {
    pub request_id: Option<String>,
    pub next_page: Option<String>,
    pub warnings: Option<Vec<String>>,
}

impl Meta {
    /// Metadata with nothing in it.
    pub fn new() -> (m: Self)
        ensures
            m.request_id is None,
            m.next_page is None,
            m.warnings is None,
    {
        Meta { request_id: None, next_page: None, warnings: None }
    }

    /// Metadata that carries the warnings, or none when there are none.
    pub fn with_warnings(warnings: &Vec<String>) -> (m: Self)
        ensures
            m.request_id is None,
            m.next_page is None,
            warnings@.len() == 0 ==> m.warnings is None,
            warnings@.len() > 0 ==> (m.warnings matches Some(w) && string_views(w@) == string_views(
                warnings@,
            )),
    {
        Meta {
            request_id: None,
            next_page: None,
            warnings: if warnings.len() == 0 {
                None
            } else {
                Some(clone_strings(warnings))
            },
        }
    }

    /// Metadata that carries the token of the next page, when there is one.
    pub fn with_next_page(next_page: Option<String>) -> (m: Self)
        ensures
            m.request_id is None,
            opt_text(m.next_page) == opt_text(next_page),
            m.warnings is None,
    {
        Meta { request_id: None, next_page, warnings: None }
    }
}

/// An email is unread unless it has the `$seen` keyword.
pub fn is_unread(keywords: &Vec<String>) -> (r: bool)
    ensures
        r == !string_views(keywords@).contains("$seen"@),
{
    !crate::pieces::has_string(keywords, "$seen")
}

/// Where a downloaded attachment is written: `--out`, else its name, else its blob id.
pub fn attachment_out_path(out: &Option<String>, name: &Option<String>, blob_id: &str) -> (r: String)
    ensures
        r@ == match (out, name) {
            (Some(o), _) => o@,
            (None, Some(n)) => n@,
            (None, None) => blob_id@,
        },
{
    match (out, name) {
        (Some(o), _) => crate::error::owned(o.as_str()),
        (None, Some(n)) => crate::error::owned(n.as_str()),
        (None, None) => crate::error::owned(blob_id),
    }
}

} // verus!
