//! The `headers` dictionary of `get --headers`: for each requested key, the value the
//! email holds for it, or null when it holds none.
use vstd::prelude::*;

use crate::error::owned;
use crate::headers::{header_source, header_source_spec, HeaderSource, HeaderSourceView};
use crate::mailbox::opt_text;
use crate::pieces::{clone_strings, string_views};
use crate::seqs::lemma_take_step;
use crate::text::{chars_of, eq_chars};
use crate::time::{to_rfc3339, unix_seconds_rfc3339};

verus! {

/// An email address as the server gives it.
#[derive(Debug)]
pub struct Address {
    pub name: Option<String>,
    pub email: String,
}

/// The meaning of an address list.
pub open spec fn address_views(v: Seq<Address>) -> Seq<(Option<Seq<char>>, Seq<char>)> {
    v.map_values(|a: Address| (opt_text(a.name), a.email@))
}

/// The value of one requested header.
#[derive(Debug)]
pub enum HeaderOut {
    /// The email holds no such header (JSON `null`).
    Null,
    /// A single text.
    Text(String),
    /// A list of texts (message ids, or every occurrence of a repeatable header).
    Texts(Vec<String>),
    /// A list of addresses.
    Addresses(Vec<Address>),
}

/// The meaning of a `HeaderOut`.
pub enum HeaderOutView {
    Null,
    Text(Seq<char>),
    Texts(Seq<Seq<char>>),
    Addresses(Seq<(Option<Seq<char>>, Seq<char>)>),
}

impl View for HeaderOut {
    type V = HeaderOutView;

    open spec fn view(&self) -> HeaderOutView {
        match self {
            HeaderOut::Null => HeaderOutView::Null,
            HeaderOut::Text(t) => HeaderOutView::Text(t@),
            HeaderOut::Texts(v) => HeaderOutView::Texts(string_views(v@)),
            HeaderOut::Addresses(v) => HeaderOutView::Addresses(address_views(v@)),
        }
    }
}

/// The standard properties of an email that the dictionary reads.
#[derive(Debug)]
pub struct HeaderFields {
    pub from: Option<Vec<Address>>,
    pub to: Option<Vec<Address>>,
    pub cc: Option<Vec<Address>>,
    pub bcc: Option<Vec<Address>>,
    pub sender: Option<Vec<Address>>,
    pub reply_to: Option<Vec<Address>>,
    pub subject: Option<String>,
    /// The `sentAt` date, in seconds since the Unix epoch.
    pub sent_at: Option<i64>,
    pub message_id: Option<Vec<String>>,
    pub in_reply_to: Option<Vec<String>>,
    pub references: Option<Vec<String>>,
}

/// A computed header property the email holds: `header:<name>:asText`, or with `all`
/// every occurrence (`header:<name>:asText:all`), and its value.
#[derive(Debug)]
pub struct CustomHeader {
    pub name: String,
    pub all: bool,
    pub value: HeaderOut,
}

/// An optional address list as a value.
pub open spec fn addresses_out(v: Option<Vec<Address>>) -> HeaderOutView {
    match v {
        Some(a) => HeaderOutView::Addresses(address_views(a@)),
        None => HeaderOutView::Null,
    }
}

/// An optional list of texts as a value.
pub open spec fn texts_out(v: Option<Vec<String>>) -> HeaderOutView {
    match v {
        Some(a) => HeaderOutView::Texts(string_views(a@)),
        None => HeaderOutView::Null,
    }
}

/// The value of the first computed header with this name and form; null when the email
/// holds none.
pub open spec fn custom_out(custom: Seq<CustomHeader>, name: Seq<char>, all: bool) -> HeaderOutView
    decreases custom.len(),
{
    if custom.len() == 0 {
        HeaderOutView::Null
    } else if custom[0].name@ == name && custom[0].all == all {
        custom[0].value@
    } else {
        custom_out(custom.drop_first(), name, all)
    }
}

/// The value for a requested key: address headers and the subject from the standard
/// properties, `date` as the `sentAt` instant written as RFC 3339 in UTC, `message-id`
/// as the first message id, `in-reply-to` and `references` as message-id lists, and any
/// other key from its computed header property.
pub open spec fn header_out_spec(f: HeaderFields, custom: Seq<CustomHeader>, key: Seq<char>) -> HeaderOutView {
    match header_source_spec(key) {
        HeaderSourceView::From => addresses_out(f.from),
        HeaderSourceView::To => addresses_out(f.to),
        HeaderSourceView::Cc => addresses_out(f.cc),
        HeaderSourceView::Bcc => addresses_out(f.bcc),
        HeaderSourceView::Sender => addresses_out(f.sender),
        HeaderSourceView::ReplyTo => addresses_out(f.reply_to),
        HeaderSourceView::Subject => match f.subject {
            Some(s) => HeaderOutView::Text(s@),
            None => HeaderOutView::Null,
        },
        HeaderSourceView::Date => match f.sent_at {
            Some(t) => match unix_seconds_rfc3339(t as int) {
                Some(d) => HeaderOutView::Text(d),
                None => HeaderOutView::Null,
            },
            None => HeaderOutView::Null,
        },
        HeaderSourceView::MessageId => match f.message_id {
            Some(ids) => if ids@.len() > 0 {
                HeaderOutView::Text(ids@[0]@)
            } else {
                HeaderOutView::Null
            },
            None => HeaderOutView::Null,
        },
        HeaderSourceView::InReplyTo => texts_out(f.in_reply_to),
        HeaderSourceView::References => texts_out(f.references),
        HeaderSourceView::Custom(name, all) => custom_out(custom, name, all),
    }
}

fn clone_addresses(v: &Vec<Address>) -> (r: Vec<Address>)
    ensures
        address_views(r@) == address_views(v@),
{
    let mut r: Vec<Address> = Vec::new();
    let mut i: usize = 0;
    while i < v.len()
        invariant
            i <= v.len(),
            r@.len() == i,
            address_views(r@) == address_views(v@.take(i as int)),
        decreases v.len() - i,
    {
        let a = Address {
            name: match &v[i].name {
                Some(n) => Some(owned(n.as_str())),
                None => None,
            },
            email: owned(v[i].email.as_str()),
        };
        let ghost before = r@;
        r.push(a);
        proof {
            lemma_take_step(v@, i as int);
            assert(r@ =~= before.push(r@[i as int]));
            assert(address_views(r@) =~= address_views(before).push(
                (opt_text(r@[i as int].name), r@[i as int].email@),
            ));
            assert(address_views(v@.take(i as int + 1)) =~= address_views(v@.take(i as int)).push(
                (opt_text(v@[i as int].name), v@[i as int].email@),
            ));
        }
        i += 1;
    }
    assert(v@.take(v.len() as int) =~= v@);
    r
}

fn addresses_value(v: &Option<Vec<Address>>) -> (r: HeaderOut)
    ensures
        r@ == addresses_out(*v),
{
    match v {
        Some(a) => HeaderOut::Addresses(clone_addresses(a)),
        None => HeaderOut::Null,
    }
}

fn texts_value(v: &Option<Vec<String>>) -> (r: HeaderOut)
    ensures
        r@ == texts_out(*v),
{
    match v {
        Some(a) => HeaderOut::Texts(clone_strings(a)),
        None => HeaderOut::Null,
    }
}

fn clone_out(v: &HeaderOut) -> (r: HeaderOut)
    ensures
        r@ == v@,
{
    match v {
        HeaderOut::Null => HeaderOut::Null,
        HeaderOut::Text(t) => HeaderOut::Text(owned(t.as_str())),
        HeaderOut::Texts(a) => HeaderOut::Texts(clone_strings(a)),
        HeaderOut::Addresses(a) => HeaderOut::Addresses(clone_addresses(a)),
    }
}

fn custom_value(custom: &Vec<CustomHeader>, name: &str, all: bool) -> (r: HeaderOut)
    ensures
        r@ == custom_out(custom@, name@, all),
{
    let n = chars_of(name);
    let mut i: usize = 0;
    assert(custom@.skip(0) =~= custom@);
    while i < custom.len()
        invariant
            i <= custom.len(),
            n@ == name@,
            custom_out(custom@, name@, all) == custom_out(custom@.skip(i as int), name@, all),
        decreases custom.len() - i,
    {
        assert(custom@.skip(i as int)[0] == custom@[i as int]);
        if custom[i].all == all && eq_chars(&chars_of(custom[i].name.as_str()), &n) {
            return clone_out(&custom[i].value);
        }
        assert(custom@.skip(i as int).drop_first() =~= custom@.skip(i as int + 1));
        i += 1;
    }
    HeaderOut::Null
}

/// The value for one requested key.
pub fn header_value(f: &HeaderFields, custom: &Vec<CustomHeader>, key: &str) -> (r: HeaderOut)
    ensures
        r@ == header_out_spec(*f, custom@, key@),
{
    match header_source(key) {
        HeaderSource::From => addresses_value(&f.from),
        HeaderSource::To => addresses_value(&f.to),
        HeaderSource::Cc => addresses_value(&f.cc),
        HeaderSource::Bcc => addresses_value(&f.bcc),
        HeaderSource::Sender => addresses_value(&f.sender),
        HeaderSource::ReplyTo => addresses_value(&f.reply_to),
        HeaderSource::Subject => match &f.subject {
            Some(s) => HeaderOut::Text(owned(s.as_str())),
            None => HeaderOut::Null,
        },
        HeaderSource::Date => match to_rfc3339(f.sent_at) {
            Some(d) => HeaderOut::Text(d),
            None => HeaderOut::Null,
        },
        HeaderSource::MessageId => match &f.message_id {
            Some(ids) => if ids.len() > 0 {
                HeaderOut::Text(owned(ids[0].as_str()))
            } else {
                HeaderOut::Null
            },
            None => HeaderOut::Null,
        },
        HeaderSource::InReplyTo => texts_value(&f.in_reply_to),
        HeaderSource::References => texts_value(&f.references),
        HeaderSource::Custom { name, all } => custom_value(custom, name.as_str(), all),
    }
}

/// The dictionary for the requested keys: one entry per key, in order, each with the
/// value `header_out_spec` gives.
pub fn headers_dict(f: &HeaderFields, custom: &Vec<CustomHeader>, requested: &Vec<String>) -> (r: Vec<
    (String, HeaderOut),
>)
    ensures
        r@.len() == requested@.len(),
        forall|i: int|
            0 <= i < r@.len() ==> (#[trigger] r@[i]).0@ == requested@[i]@ && r@[i].1@
                == header_out_spec(*f, custom@, requested@[i]@),
{
    let mut r: Vec<(String, HeaderOut)> = Vec::new();
    let mut i: usize = 0;
    while i < requested.len()
        invariant
            i <= requested.len(),
            r@.len() == i,
            forall|j: int|
                0 <= j < i ==> (#[trigger] r@[j]).0@ == requested@[j]@ && r@[j].1@
                    == header_out_spec(*f, custom@, requested@[j]@),
        decreases requested.len() - i,
    {
        let key = requested[i].as_str();
        let v = header_value(f, custom, key);
        r.push((owned(key), v));
        i += 1;
    }
    r
}

} // verus!
