//! The `--headers a,b,c` option of `get`: which header keys were asked for, what
//! JMAP properties they need, and where each one's value comes from.
use vstd::prelude::*;

use crate::pieces::{
    has_text, join, join_chars, all_chars, lemma_split_pieces_clean, lemma_texts_push, lemma_trim_all_chars, lemma_words_join_all_chars, lemma_words_single_spaced, other_than, sep_pred, single_spaced, split_chars, split_when,
    string_views, strings_of, texts, words, words_of,
};
use crate::seqs::{lemma_take_all, lemma_take_step};
use crate::text::{
    chars_of, concat_chars, eq_chars, lower_chars, lowercase, slice_chars, string_of, trim,
    trim_chars, uppercase_char, upper_char,
};

verus! {

/// The standard Email properties that `xin` requests.
#[derive(Clone, Copy, PartialEq, Eq, Structural, Debug)]
pub enum StdProperty {
    Id,
    ThreadId,
    ReceivedAt,
    Subject,
    From,
    To,
    Cc,
    Bcc,
    Preview,
    HasAttachment,
    MailboxIds,
    Keywords,
    Sender,
    ReplyTo,
    SentAt,
    MessageId,
    InReplyTo,
    References,
    BodyStructure,
    BodyValues,
    TextBody,
    HtmlBody,
    Attachments,
}

/// An Email property to request: a standard one, or a computed `header:Name:asText[:all]`.
#[derive(Debug)]
pub enum EmailProperty {
    Std(StdProperty),
    TextHeader { name: String, all: bool },
}

/// The meaning of an `EmailProperty`.
pub enum PropertyView {
    Std(StdProperty),
    TextHeader(Seq<char>, bool),
}

impl View for EmailProperty {
    type V = PropertyView;

    open spec fn view(&self) -> PropertyView {
        match self {
            EmailProperty::Std(p) => PropertyView::Std(*p),
            EmailProperty::TextHeader { name, all } => PropertyView::TextHeader(name@, *all),
        }
    }
}

/// The meanings of a sequence of properties.
pub open spec fn property_views(v: Seq<EmailProperty>) -> Seq<PropertyView> {
    v.map_values(|p: EmailProperty| p@)
}

/// Whether two properties are the same request.
pub fn same_property(a: &EmailProperty, b: &EmailProperty) -> (r: bool)
    ensures
        r == (a@ == b@),
{
    match (a, b) {
        (EmailProperty::Std(x), EmailProperty::Std(y)) => *x == *y,
        (
            EmailProperty::TextHeader { name: n1, all: a1 },
            EmailProperty::TextHeader { name: n2, all: a2 },
        ) => *a1 == *a2 && eq_chars(&chars_of(n1.as_str()), &chars_of(n2.as_str())),
        _ => false,
    }
}

/// Whether `v` already holds the request `p`.
pub fn has_property(v: &Vec<EmailProperty>, p: &EmailProperty) -> (r: bool)
    ensures
        r == property_views(v@).contains(p@),
{
    let mut i: usize = 0;
    while i < v.len()
        invariant
            i <= v.len(),
            forall|j: int| 0 <= j < i ==> property_views(v@)[j] != p@,
        decreases v.len() - i,
    {
        if same_property(&v[i], p) {
            assert(property_views(v@)[i as int] == p@);
            return true;
        }
        i += 1;
    }
    false
}

/// Appends `p` unless `v` already holds it.
pub fn push_property_once(v: &mut Vec<EmailProperty>, p: EmailProperty)
    ensures
        property_views(final(v)@) == if property_views(old(v)@).contains(p@) {
            property_views(old(v)@)
        } else {
            property_views(old(v)@).push(p@)
        },
{
    if !has_property(v, &p) {
        let ghost before = v@;
        v.push(p);
        assert(property_views(v@) =~= property_views(before).push(p@));
    }
}

// ---------------------------------------------------------------- keys

/// A header key as the user may write it, normalised: trimmed, each run of inner
/// whitespace collapsed to one space, and lowercased (hyphens kept as they are).
pub open spec fn normalize_key_spec(s: Seq<char>) -> Seq<char> {
    lowercase(join(words(trim(s)), " "@))
}

/// The form of a kept header key: the lowercasing of a text without commas whose only
/// whitespace is single spaces between other characters (none at either end).
pub open spec fn header_key_form(k: Seq<char>) -> bool {
    exists|x: Seq<char>| single_spaced(x) && all_chars(x, other_than(',')) && k == lowercase(x)
}

/// The keys in order, without empty ones and without repeats (first one kept).
pub open spec fn distinct_keys(keys: Seq<Seq<char>>) -> Seq<Seq<char>>
    decreases keys.len(),
{
    if keys.len() == 0 {
        Seq::empty()
    } else {
        let r = distinct_keys(keys.drop_last());
        let k = keys.last();
        if k.len() == 0 || r.contains(k) {
            r
        } else {
            r.push(k)
        }
    }
}

/// The header keys that `--headers s` asks for.
pub open spec fn parse_headers_spec(s: Seq<char>) -> Seq<Seq<char>> {
    distinct_keys(
        split_when(s, sep_pred(false, ',')).map_values(|p: Seq<char>| normalize_key_spec(p)),
    )
}

/// The kept keys are non-empty, distinct, and are exactly the non-empty given ones.
pub proof fn lemma_distinct_keys(keys: Seq<Seq<char>>)
    ensures
        forall|i: int|
            0 <= i < distinct_keys(keys).len() ==> #[trigger] distinct_keys(keys)[i].len() > 0,
        distinct_keys(keys).no_duplicates(),
        forall|k: Seq<char>| #[trigger]
            distinct_keys(keys).contains(k) <==> (k.len() > 0 && keys.contains(k)),
    decreases keys.len(),
{
    if keys.len() > 0 {
        let r = distinct_keys(keys.drop_last());
        lemma_distinct_keys(keys.drop_last());
        assert forall|k: Seq<char>| #[trigger]
            distinct_keys(keys).contains(k) <==> (k.len() > 0 && keys.contains(k)) by {
            if keys.contains(k) {
                let j = choose|j: int| 0 <= j < keys.len() && keys[j] == k;
                if j < keys.len() - 1 {
                    assert(keys.drop_last()[j] == k);
                }
            }
            if keys.drop_last().contains(k) {
                let j = choose|j: int| 0 <= j < keys.drop_last().len() && keys.drop_last()[j] == k;
                assert(keys[j] == k);
            }
            if r.push(keys.last()).contains(k) && !r.contains(k) {
                let j = choose|j: int| 0 <= j < r.len() + 1 && r.push(keys.last())[j] == k;
                if j < r.len() {
                    assert(r[j] == k);
                }
            }
            if r.contains(k) {
                let j = choose|j: int| 0 <= j < r.len() && r[j] == k;
                assert(r.push(keys.last())[j] == k);
            }
            assert(keys[keys.len() - 1] == keys.last());
            assert(r.push(keys.last())[r.len() as int] == keys.last());
        }
    }
}

/// Normalises one header key.
pub fn normalize_header_key(s: &str) -> (r: String)
    ensures
        r@ == normalize_key_spec(s@),
{
    let t = trim_chars(&chars_of(s));
    let ws = words_of(&t);
    let mut space: Vec<char> = Vec::new();
    space.push(' ');
    assert(space@ =~= " "@) by {
        reveal_strlit(" ");
    }
    let joined = join_chars(&ws, &space);
    let lowered = lower_chars(&joined);
    string_of(&lowered)
}

/// Parses `--headers a,b,c` into normalised, de-duplicated header keys.
pub fn parse_headers_arg(s: &str) -> (r: Vec<String>)
    ensures
        string_views(r@) == parse_headers_spec(s@),
        string_views(r@).no_duplicates(),
        forall|i: int| 0 <= i < r@.len() ==> #[trigger] r@[i]@.len() > 0,
        forall|i: int| 0 <= i < r@.len() ==> header_key_form(#[trigger] r@[i]@),
{
    let ghost f = |p: Seq<char>| normalize_key_spec(p);
    let pieces = split_chars(&chars_of(s), false, ',');
    let ghost keys = texts(pieces@).map_values(f);
    let mut out: Vec<Vec<char>> = Vec::new();
    let mut i: usize = 0;
    proof {
        assert(keys.take(0) =~= Seq::<Seq<char>>::empty());
    }
    while i < pieces.len()
        invariant
            i <= pieces.len(),
            f == (|p: Seq<char>| normalize_key_spec(p)),
            keys == texts(pieces@).map_values(f),
            texts(out@) == distinct_keys(keys.take(i as int)),
        decreases pieces.len() - i,
    {
        let k = chars_of(normalize_header_key(string_of(&pieces[i]).as_str()).as_str());
        proof {
            lemma_take_step(keys, i as int);
            assert(k@ == keys[i as int]);
        }
        if k.len() > 0 && !has_text(&out, &k) {
            proof {
                lemma_texts_push(out@, k);
            }
            out.push(k);
        }
        i += 1;
    }
    proof {
        lemma_take_all(keys);
        lemma_distinct_keys(keys);
    }
    let r = strings_of(&out);
    proof {
        assert forall|i: int| 0 <= i < r@.len() implies #[trigger] r@[i]@.len() > 0 by {
            assert(string_views(r@)[i] == r@[i]@);
        }
        assert forall|i: int| 0 <= i < r@.len() implies header_key_form(#[trigger] r@[i]@) by {
            let k = r@[i]@;
            assert(string_views(r@)[i] == k);
            assert(distinct_keys(keys)[i] == k);
            assert(distinct_keys(keys).contains(k));
            assert(keys.contains(k));
            let j = choose|j: int| 0 <= j < keys.len() && keys[j] == k;
            let piece = texts(pieces@)[j];
            let x = join(words(trim(piece)), " "@);
            lemma_words_single_spaced(trim(piece));
            lemma_split_pieces_clean(s@, sep_pred(false, ','));
            assert(split_when(s@, sep_pred(false, ','))[j] == piece);
            assert forall|m: int| 0 <= m < piece.len() implies other_than(',')(#[trigger] piece[m]) by {
                assert(!sep_pred(false, ',')(split_when(s@, sep_pred(false, ','))[j][m]));
            }
            lemma_trim_all_chars(piece, other_than(','));
            lemma_words_join_all_chars(trim(piece), other_than(','));
            assert(k == lowercase(x));
            assert(single_spaced(x));
        }
    }
    r
}

// ---------------------------------------------------------------- names

/// `p` with its first character uppercased.
pub open spec fn capitalized(p: Seq<char>) -> Seq<char> {
    if p.len() == 0 {
        Seq::empty()
    } else {
        uppercase_char(p[0]) + p.drop_first()
    }
}

/// The header name for a (lowercase) key: a few well-known spellings, otherwise each
/// `-`-separated part capitalised (empty parts dropped).
pub open spec fn canonical_name_spec(key: Seq<char>) -> Seq<char> {
    if key == "message-id"@ {
        "Message-ID"@
    } else if key == "in-reply-to"@ {
        "In-Reply-To"@
    } else if key == "reply-to"@ {
        "Reply-To"@
    } else if key == "dkim-signature"@ {
        "DKIM-Signature"@
    } else if key == "mime-version"@ {
        "MIME-Version"@
    } else if key == "list-id"@ {
        "List-Id"@
    } else if key == "list-unsubscribe"@ {
        "List-Unsubscribe"@
    } else if key == "authentication-results"@ {
        "Authentication-Results"@
    } else if key == "content-type"@ {
        "Content-Type"@
    } else if key == "content-transfer-encoding"@ {
        "Content-Transfer-Encoding"@
    } else if key == "content-disposition"@ {
        "Content-Disposition"@
    } else if key == "content-id"@ {
        "Content-ID"@
    } else if key == "return-path"@ {
        "Return-Path"@
    } else if key == "received"@ {
        "Received"@
    } else {
        join(
            split_when(key, sep_pred(false, '-')).filter(
                |p: Seq<char>| p.len() > 0,
            ).map_values(|p: Seq<char>| capitalized(p)),
            "-"@,
        )
    }
}

fn is_text(v: &[char], lit: &str) -> (r: bool)
    ensures
        r == (v@ == lit@),
{
    eq_chars(v, &chars_of(lit))
}

/// The parts with their first character uppercased.
fn capitalize_parts(parts: &Vec<Vec<char>>) -> (r: Vec<Vec<char>>)
    ensures
        texts(r@) == texts(parts@).filter(|p: Seq<char>| p.len() > 0).map_values(
            |p: Seq<char>| capitalized(p),
        ),
{
    let ghost ne = |p: Seq<char>| p.len() > 0;
    let ghost cap = |p: Seq<char>| capitalized(p);
    let mut r: Vec<Vec<char>> = Vec::new();
    let mut i: usize = 0;
    proof {
        assert(texts(parts@).take(0) =~= Seq::<Seq<char>>::empty());
        assert(Seq::<Seq<char>>::empty().filter(ne) =~= Seq::<Seq<char>>::empty());
        assert(texts(r@) =~= Seq::<Seq<char>>::empty().filter(ne).map_values(cap));
    }
    while i < parts.len()
        invariant
            i <= parts.len(),
            ne == (|p: Seq<char>| p.len() > 0),
            cap == (|p: Seq<char>| capitalized(p)),
            texts(r@) == texts(parts@).take(i as int).filter(ne).map_values(cap),
        decreases parts.len() - i,
    {
        let ghost before = texts(parts@).take(i as int);
        proof {
            lemma_take_step(texts(parts@), i as int);
            before.lemma_filter_push(texts(parts@)[i as int], ne);
            assert(before.push(texts(parts@)[i as int]) == texts(parts@).take(i as int + 1));
        }
        let p = &parts[i];
        if p.len() > 0 {
            let first = upper_char(p[0]);
            let rest = slice_chars(p, 1, p.len());
            let c = concat_chars(&chars_of(first.as_str()), &rest);
            proof {
                assert(rest@ =~= p@.drop_first());
                assert(c@ == capitalized(p@));
                lemma_texts_push(r@, c);
                assert(before.filter(ne).push(p@).map_values(cap) =~= before.filter(ne).map_values(
                    cap,
                ).push(cap(p@)));
            }
            r.push(c);
        }
        i += 1;
    }
    proof {
        lemma_take_all(texts(parts@));
    }
    r
}

/// The header name to request for a key.
pub fn canonical_header_name(key: &str) -> (r: String)
    ensures
        r@ == canonical_name_spec(key@),
{
    let k = chars_of(key);
    if is_text(&k, "message-id") {
        String::from_str("Message-ID")
    } else if is_text(&k, "in-reply-to") {
        String::from_str("In-Reply-To")
    } else if is_text(&k, "reply-to") {
        String::from_str("Reply-To")
    } else if is_text(&k, "dkim-signature") {
        String::from_str("DKIM-Signature")
    } else if is_text(&k, "mime-version") {
        String::from_str("MIME-Version")
    } else if is_text(&k, "list-id") {
        String::from_str("List-Id")
    } else if is_text(&k, "list-unsubscribe") {
        String::from_str("List-Unsubscribe")
    } else if is_text(&k, "authentication-results") {
        String::from_str("Authentication-Results")
    } else if is_text(&k, "content-type") {
        String::from_str("Content-Type")
    } else if is_text(&k, "content-transfer-encoding") {
        String::from_str("Content-Transfer-Encoding")
    } else if is_text(&k, "content-disposition") {
        String::from_str("Content-Disposition")
    } else if is_text(&k, "content-id") {
        String::from_str("Content-ID")
    } else if is_text(&k, "return-path") {
        String::from_str("Return-Path")
    } else if is_text(&k, "received") {
        String::from_str("Received")
    } else {
        let parts = split_chars(&k, false, '-');
        let caps = capitalize_parts(&parts);
        let mut dash: Vec<char> = Vec::new();
        dash.push('-');
        assert(dash@ =~= "-"@) by {
            reveal_strlit("-");
        }
        let j = join_chars(&caps, &dash);
        string_of(&j)
    }
}

/// Whether a header may occur several times (its value is then a list).
pub open spec fn is_repeatable_spec(key: Seq<char>) -> bool {
    key == "received"@ || key == "authentication-results"@ || key == "dkim-signature"@
        || "resent-"@.is_prefix_of(key)
}

/// Whether a header may occur several times.
pub fn is_repeatable_header(key: &str) -> (r: bool)
    ensures
        r == is_repeatable_spec(key@),
{
    let k = chars_of(key);
    is_text(&k, "received") || is_text(&k, "authentication-results") || is_text(
        &k,
        "dkim-signature",
    ) || crate::text::starts_with(&k, &chars_of("resent-"))
}

/// The keys that name a standard Email property.
pub open spec fn is_builtin_key_spec(key: Seq<char>) -> bool {
    key == "from"@ || key == "to"@ || key == "cc"@ || key == "bcc"@ || key == "subject"@ || key
        == "sender"@ || key == "reply-to"@ || key == "date"@ || key == "message-id"@ || key
        == "in-reply-to"@ || key == "references"@
}

/// Whether the key names a standard Email property.
pub fn is_builtin_header_key(key: &str) -> (r: bool)
    ensures
        r == is_builtin_key_spec(key@),
{
    let k = chars_of(key);
    is_text(&k, "from") || is_text(&k, "to") || is_text(&k, "cc") || is_text(&k, "bcc")
        || is_text(&k, "subject") || is_text(&k, "sender") || is_text(&k, "reply-to") || is_text(
        &k,
        "date",
    ) || is_text(&k, "message-id") || is_text(&k, "in-reply-to") || is_text(&k, "references")
}

/// The standard property a key needs on top of the default set, if any.
pub open spec fn builtin_property_spec(key: Seq<char>) -> Option<StdProperty> {
    if key == "sender"@ {
        Some(StdProperty::Sender)
    } else if key == "reply-to"@ {
        Some(StdProperty::ReplyTo)
    } else if key == "date"@ {
        Some(StdProperty::SentAt)
    } else if key == "message-id"@ {
        Some(StdProperty::MessageId)
    } else if key == "in-reply-to"@ {
        Some(StdProperty::InReplyTo)
    } else if key == "references"@ {
        Some(StdProperty::References)
    } else {
        None
    }
}

/// The standard property a key needs on top of the default set, if any.
pub fn builtin_property_for_header_key(key: &str) -> (r: Option<StdProperty>)
    ensures
        r == builtin_property_spec(key@),
{
    let k = chars_of(key);
    if is_text(&k, "sender") {
        Some(StdProperty::Sender)
    } else if is_text(&k, "reply-to") {
        Some(StdProperty::ReplyTo)
    } else if is_text(&k, "date") {
        Some(StdProperty::SentAt)
    } else if is_text(&k, "message-id") {
        Some(StdProperty::MessageId)
    } else if is_text(&k, "in-reply-to") {
        Some(StdProperty::InReplyTo)
    } else if is_text(&k, "references") {
        Some(StdProperty::References)
    } else {
        None
    }
}

/// The property one key adds, if any.
pub open spec fn key_property(key: Seq<char>) -> Option<PropertyView> {
    match builtin_property_spec(key) {
        Some(p) => Some(PropertyView::Std(p)),
        None => if is_builtin_key_spec(key) {
            None
        } else {
            Some(PropertyView::TextHeader(canonical_name_spec(key), is_repeatable_spec(key)))
        },
    }
}

/// The extra properties for the requested keys, in order, each once.
pub open spec fn extra_properties_spec(keys: Seq<Seq<char>>) -> Seq<PropertyView>
    decreases keys.len(),
{
    if keys.len() == 0 {
        Seq::empty()
    } else {
        let r = extra_properties_spec(keys.drop_last());
        match key_property(keys.last()) {
            Some(p) => if r.contains(p) {
                r
            } else {
                r.push(p)
            },
            None => r,
        }
    }
}

/// The extra Email/get properties needed to answer `--headers`, to be merged into the
/// default list.
pub fn extra_email_properties_for_headers(requested: &Vec<String>) -> (r: Vec<EmailProperty>)
    ensures
        property_views(r@) == extra_properties_spec(string_views(requested@)),
{
    let ghost keys = string_views(requested@);
    let mut out: Vec<EmailProperty> = Vec::new();
    let mut i: usize = 0;
    proof {
        assert(keys.take(0) =~= Seq::<Seq<char>>::empty());
        assert(property_views(out@) =~= Seq::<PropertyView>::empty());
    }
    while i < requested.len()
        invariant
            i <= requested.len(),
            keys == string_views(requested@),
            property_views(out@) == extra_properties_spec(keys.take(i as int)),
        decreases requested.len() - i,
    {
        proof {
            lemma_take_step(keys, i as int);
        }
        let key = requested[i].as_str();
        assert(key@ == keys[i as int]);
        match builtin_property_for_header_key(key) {
            Some(p) => {
                push_property_once(&mut out, EmailProperty::Std(p));
            },
            None => {
                if !is_builtin_header_key(key) {
                    let name = canonical_header_name(key);
                    let all = is_repeatable_header(key);
                    push_property_once(&mut out, EmailProperty::TextHeader { name, all });
                }
            },
        }
        i += 1;
    }
    proof {
        lemma_take_all(keys);
    }
    out
}

/// Where the value of one requested header comes from.
#[derive(Debug)]
pub enum HeaderSource {
    From,
    To,
    Cc,
    Bcc,
    Sender,
    ReplyTo,
    Subject,
    /// The `sentAt` date, as RFC 3339.
    Date,
    /// The first Message-ID.
    MessageId,
    InReplyTo,
    References,
    /// A computed `header:Name:asText[:all]` property (from the second fetch when there is one).
    Custom { name: String, all: bool },
}

/// The meaning of a `HeaderSource`.
pub enum HeaderSourceView {
    From,
    To,
    Cc,
    Bcc,
    Sender,
    ReplyTo,
    Subject,
    Date,
    MessageId,
    InReplyTo,
    References,
    Custom(Seq<char>, bool),
}

impl View for HeaderSource {
    type V = HeaderSourceView;

    open spec fn view(&self) -> HeaderSourceView {
        match self {
            HeaderSource::From => HeaderSourceView::From,
            HeaderSource::To => HeaderSourceView::To,
            HeaderSource::Cc => HeaderSourceView::Cc,
            HeaderSource::Bcc => HeaderSourceView::Bcc,
            HeaderSource::Sender => HeaderSourceView::Sender,
            HeaderSource::ReplyTo => HeaderSourceView::ReplyTo,
            HeaderSource::Subject => HeaderSourceView::Subject,
            HeaderSource::Date => HeaderSourceView::Date,
            HeaderSource::MessageId => HeaderSourceView::MessageId,
            HeaderSource::InReplyTo => HeaderSourceView::InReplyTo,
            HeaderSource::References => HeaderSourceView::References,
            HeaderSource::Custom { name, all } => HeaderSourceView::Custom(name@, *all),
        }
    }
}

/// Where the value of a key comes from: a standard property, or a computed header.
pub open spec fn header_source_spec(key: Seq<char>) -> HeaderSourceView {
    if key == "from"@ {
        HeaderSourceView::From
    } else if key == "to"@ {
        HeaderSourceView::To
    } else if key == "cc"@ {
        HeaderSourceView::Cc
    } else if key == "bcc"@ {
        HeaderSourceView::Bcc
    } else if key == "sender"@ {
        HeaderSourceView::Sender
    } else if key == "reply-to"@ {
        HeaderSourceView::ReplyTo
    } else if key == "subject"@ {
        HeaderSourceView::Subject
    } else if key == "date"@ {
        HeaderSourceView::Date
    } else if key == "message-id"@ {
        HeaderSourceView::MessageId
    } else if key == "in-reply-to"@ {
        HeaderSourceView::InReplyTo
    } else if key == "references"@ {
        HeaderSourceView::References
    } else {
        HeaderSourceView::Custom(canonical_name_spec(key), is_repeatable_spec(key))
    }
}

/// Where the value of the requested key comes from.
pub fn header_source(key: &str) -> (r: HeaderSource)
    ensures
        r@ == header_source_spec(key@),
{
    let k = chars_of(key);
    if is_text(&k, "from") {
        HeaderSource::From
    } else if is_text(&k, "to") {
        HeaderSource::To
    } else if is_text(&k, "cc") {
        HeaderSource::Cc
    } else if is_text(&k, "bcc") {
        HeaderSource::Bcc
    } else if is_text(&k, "sender") {
        HeaderSource::Sender
    } else if is_text(&k, "reply-to") {
        HeaderSource::ReplyTo
    } else if is_text(&k, "subject") {
        HeaderSource::Subject
    } else if is_text(&k, "date") {
        HeaderSource::Date
    } else if is_text(&k, "message-id") {
        HeaderSource::MessageId
    } else if is_text(&k, "in-reply-to") {
        HeaderSource::InReplyTo
    } else if is_text(&k, "references") {
        HeaderSource::References
    } else {
        HeaderSource::Custom { name: canonical_header_name(key), all: is_repeatable_header(key) }
    }
}

// ---------------------------------------------------------------- property lists

/// The properties of the `metadata` view of an email.
pub open spec fn metadata_properties_spec() -> Seq<StdProperty> {
    seq![
        StdProperty::Id,
        StdProperty::ThreadId,
        StdProperty::ReceivedAt,
        StdProperty::Subject,
        StdProperty::From,
        StdProperty::To,
        StdProperty::Cc,
        StdProperty::Bcc,
        StdProperty::Preview,
        StdProperty::HasAttachment,
        StdProperty::MailboxIds,
        StdProperty::Keywords,
    ]
}

/// The properties of the `metadata` view of an email.
pub fn metadata_properties() -> (r: Vec<StdProperty>)
    ensures
        r@ == metadata_properties_spec(),
{
    let mut v: Vec<StdProperty> = Vec::new();
    v.push(StdProperty::Id);
    v.push(StdProperty::ThreadId);
    v.push(StdProperty::ReceivedAt);
    v.push(StdProperty::Subject);
    v.push(StdProperty::From);
    v.push(StdProperty::To);
    v.push(StdProperty::Cc);
    v.push(StdProperty::Bcc);
    v.push(StdProperty::Preview);
    v.push(StdProperty::HasAttachment);
    v.push(StdProperty::MailboxIds);
    v.push(StdProperty::Keywords);
    assert(v@ =~= metadata_properties_spec());
    v
}

/// The standard properties as requests.
pub open spec fn std_views(v: Seq<StdProperty>) -> Seq<PropertyView> {
    v.map_values(|p: StdProperty| PropertyView::Std(p))
}

/// `base` followed by the extra properties that it does not hold yet, each once.
pub open spec fn merged_properties(base: Seq<PropertyView>, extra: Seq<PropertyView>) -> Seq<PropertyView>
    decreases extra.len(),
{
    if extra.len() == 0 {
        base
    } else {
        let r = merged_properties(base, extra.drop_last());
        if r.contains(extra.last()) {
            r
        } else {
            r.push(extra.last())
        }
    }
}

fn copy_property(p: &EmailProperty) -> (r: EmailProperty)
    ensures
        r@ == p@,
{
    match p {
        EmailProperty::Std(s) => EmailProperty::Std(*s),
        EmailProperty::TextHeader { name, all } => EmailProperty::TextHeader {
            name: crate::error::owned(name.as_str()),
            all: *all,
        },
    }
}

/// The standard properties `base`, then each extra property not yet listed, once.
fn merge_properties(base: Vec<StdProperty>, extra: &Vec<EmailProperty>) -> (r: Vec<EmailProperty>)
    ensures
        property_views(r@) == merged_properties(std_views(base@), property_views(extra@)),
{
    let mut out: Vec<EmailProperty> = Vec::new();
    let mut i: usize = 0;
    while i < base.len()
        invariant
            i <= base.len(),
            property_views(out@) == std_views(base@.take(i as int)),
        decreases base.len() - i,
    {
        let ghost before = out@;
        out.push(EmailProperty::Std(base[i]));
        proof {
            lemma_take_step(base@, i as int);
            assert(property_views(out@) =~= property_views(before).push(PropertyView::Std(base@[i as int])));
            assert(std_views(base@.take(i as int + 1)) =~= std_views(base@.take(i as int)).push(
                PropertyView::Std(base@[i as int]),
            ));
        }
        i += 1;
    }
    assert(base@.take(base.len() as int) =~= base@);
    let ghost b = property_views(out@);
    let mut j: usize = 0;
    assert(property_views(extra@).take(0) =~= Seq::<PropertyView>::empty());
    while j < extra.len()
        invariant
            j <= extra.len(),
            property_views(out@) == merged_properties(b, property_views(extra@).take(j as int)),
        decreases extra.len() - j,
    {
        proof {
            lemma_take_step(property_views(extra@), j as int);
        }
        push_property_once(&mut out, copy_property(&extra[j]));
        j += 1;
    }
    proof {
        lemma_take_all(property_views(extra@));
    }
    out
}


/// The properties `get` asks for: with the `metadata` format, the metadata properties
/// and the extra header properties; the `full` and `raw` formats list none here (the
/// `full` format asks for `full_properties`, `raw` for everything).
pub fn get_properties(format: crate::cli::GetFormat, extra: &Vec<EmailProperty>) -> (r: Option<Vec<EmailProperty>>)
    ensures
        format == crate::cli::GetFormat::Metadata ==> (r matches Some(v) && property_views(v@)
            == merged_properties(std_views(metadata_properties_spec()), property_views(extra@))),
        format != crate::cli::GetFormat::Metadata ==> r is None,
{
    if format != crate::cli::GetFormat::Metadata {
        return None;
    }
    Some(merge_properties(metadata_properties(), extra))
}

/// The properties of the `full` view of an email: the metadata, then the body
/// structure, body values, text and HTML parts and attachments.
pub open spec fn full_properties_spec() -> Seq<StdProperty> {
    metadata_properties_spec() + seq![
        StdProperty::BodyStructure,
        StdProperty::BodyValues,
        StdProperty::TextBody,
        StdProperty::HtmlBody,
        StdProperty::Attachments,
    ]
}

/// The properties the `full` format of `get` asks for: the full view's properties and
/// then the extra header properties that it does not hold yet, each once.
pub fn full_properties(extra: &Vec<EmailProperty>) -> (r: Vec<EmailProperty>)
    ensures
        property_views(r@) == merged_properties(std_views(full_properties_spec()), property_views(extra@)),
{
    let mut base = metadata_properties();
    base.push(StdProperty::BodyStructure);
    base.push(StdProperty::BodyValues);
    base.push(StdProperty::TextBody);
    base.push(StdProperty::HtmlBody);
    base.push(StdProperty::Attachments);
    assert(base@ =~= full_properties_spec());
    merge_properties(base, extra)
}

/// With the `raw` format, computed header properties need a second fetch that names them.
pub fn needs_header_fetch(format: crate::cli::GetFormat, headers_requested: bool, extra: &Vec<EmailProperty>) -> (r: bool)
    ensures
        r == (format == crate::cli::GetFormat::Raw && headers_requested && exists|i: int|
            0 <= i < extra@.len() && (#[trigger] extra@[i]) is TextHeader),
{
    if format != crate::cli::GetFormat::Raw || !headers_requested {
        return false;
    }
    let mut i: usize = 0;
    while i < extra.len()
        invariant
            i <= extra.len(),
            format == crate::cli::GetFormat::Raw,
            headers_requested,
            forall|j: int| 0 <= j < i ==> !((#[trigger] extra@[j]) is TextHeader),
        decreases extra.len() - i,
    {
        if let EmailProperty::TextHeader { .. } = &extra[i] {
            assert(extra@[i as int] is TextHeader);
            return true;
        }
        i += 1;
    }
    false
}

/// What the thread fetch asks for besides the metadata: with bodies, the body structure,
/// values, text and HTML parts and attachments; with attachments only, the attachments.
pub open spec fn thread_extra_spec(include_attachments: bool, include_body: bool) -> Seq<StdProperty> {
    if include_body {
        seq![
            StdProperty::BodyStructure,
            StdProperty::BodyValues,
            StdProperty::TextBody,
            StdProperty::HtmlBody,
            StdProperty::Attachments,
        ]
    } else if include_attachments {
        seq![StdProperty::Attachments]
    } else {
        Seq::empty()
    }
}

/// The properties of each email of a thread fetch.
pub fn thread_email_properties(include_attachments: bool, include_body: bool) -> (r: Vec<StdProperty>)
    ensures
        r@ == metadata_properties_spec() + thread_extra_spec(include_attachments, include_body),
{
    let mut v = metadata_properties();
    if include_body {
        v.push(StdProperty::BodyStructure);
        v.push(StdProperty::BodyValues);
        v.push(StdProperty::TextBody);
        v.push(StdProperty::HtmlBody);
        v.push(StdProperty::Attachments);
    } else if include_attachments {
        v.push(StdProperty::Attachments);
    }
    assert(v@ =~= metadata_properties_spec() + thread_extra_spec(include_attachments, include_body));
    v
}

/// The body value size limit of `get`: the option, else 256 KiB.
pub fn get_body_limit(max_body_bytes: Option<usize>) -> (r: usize)
    ensures
        r == match max_body_bytes {
            Some(m) => m,
            None => 262144usize,
        },
{
    match max_body_bytes {
        Some(m) => m,
        None => 262144,
    }
}

/// The properties of each search result.
pub open spec fn search_properties_spec() -> Seq<StdProperty> {
    seq![
        StdProperty::Id,
        StdProperty::ThreadId,
        StdProperty::ReceivedAt,
        StdProperty::Subject,
        StdProperty::From,
        StdProperty::To,
        StdProperty::Preview,
        StdProperty::HasAttachment,
        StdProperty::MailboxIds,
        StdProperty::Keywords,
    ]
}

/// The properties of each search result.
pub fn search_properties() -> (r: Vec<StdProperty>)
    ensures
        r@ == search_properties_spec(),
{
    let mut v: Vec<StdProperty> = Vec::new();
    v.push(StdProperty::Id);
    v.push(StdProperty::ThreadId);
    v.push(StdProperty::ReceivedAt);
    v.push(StdProperty::Subject);
    v.push(StdProperty::From);
    v.push(StdProperty::To);
    v.push(StdProperty::Preview);
    v.push(StdProperty::HasAttachment);
    v.push(StdProperty::MailboxIds);
    v.push(StdProperty::Keywords);
    assert(v@ =~= search_properties_spec());
    v
}

} // verus!
