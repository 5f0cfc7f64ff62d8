//! The `--plain` output: one tab-separated line per item, or a short text page for
//! `get`. The JSON envelope is read into the plain values below by the caller.
use vstd::prelude::*;

use crate::pieces::{
    append_chars, trim_end_char, trim_end_chars_of, decimal, i64_text, join, join_chars, lemma_texts_push, replace_any,
    replace_when, signed_decimal, string_views, texts, u64_text,
};
use crate::seqs::{lemma_take_all, lemma_take_step};
use crate::error::owned;
use crate::text::{chars_of, eq_chars, slice_chars, string_of};

verus! {

/// Tab, line feed and carriage return: the characters that would break a line of fields.
pub open spec fn is_field_breaker(c: char) -> bool {
    c == '\t' || c == '\n' || c == '\r'
}

/// `s` with tabs and line breaks turned into spaces.
pub open spec fn sanitize_spec(s: Seq<char>) -> Seq<char> {
    replace_when(s, |c: char| is_field_breaker(c), ' ')
}

/// Replaces tabs and line breaks by spaces, so that the text stays one field.
pub fn sanitize_field(s: &str) -> (r: String)
    ensures
        r@ == sanitize_spec(s@),
{
    let mut from: Vec<char> = Vec::new();
    from.push('\t');
    from.push('\n');
    from.push('\r');
    let v = replace_any(&chars_of(s), &from, ' ');
    proof {
        assert forall|c: char| #[trigger] from@.contains(c) == is_field_breaker(c) by {
            if c == '\t' {
                assert(from@[0] == c);
            }
            if c == '\n' {
                assert(from@[1] == c);
            }
            if c == '\r' {
                assert(from@[2] == c);
            }
        }
        assert((|c: char| from@.contains(c)) =~= (|c: char| is_field_breaker(c)));
    }
    string_of(&v)
}

/// `s` if it has at most `max` characters; otherwise its first `max - 1` characters
/// (none when `max` is zero) followed by `…`.
pub open spec fn truncate_spec(s: Seq<char>, max: nat) -> Seq<char> {
    if s.len() <= max {
        s
    } else {
        s.take(if max == 0 {
            0
        } else {
            max - 1
        }).push('…')
    }
}

/// Shortens `s` to at most `max` characters, marking a cut with `…`.
pub fn truncate(s: &str, max: usize) -> (r: String)
    ensures
        r@ == truncate_spec(s@, max as nat),
        max > 0 ==> r@.len() <= max,
        r@.len() <= s@.len(),
{
    let v = chars_of(s);
    if v.len() <= max {
        return string_of(&v);
    }
    let keep = if max == 0 {
        0
    } else {
        max - 1
    };
    let mut out = slice_chars(&v, 0, keep);
    out.push('…');
    assert(out@ =~= v@.take(keep as int).push('…'));
    string_of(&out)
}

/// The fields separated by tabs.
pub fn tsv(fields: &Vec<String>) -> (r: String)
    ensures
        r@ == join(string_views(fields@), "\t"@),
{
    let parts = crate::pieces::chars_of_all(fields);
    let tab = chars_of("\t");
    let j = join_chars(&parts, &tab);
    string_of(&j)
}

/// The text held, or `d` when there is none.
pub open spec fn text_or(o: Option<Seq<char>>, d: Seq<char>) -> Seq<char> {
    match o {
        Some(t) => t,
        None => d,
    }
}

/// The line for a failed command: `ERR`, the command, the error kind (`error` when
/// unknown) and the message made one field.
pub open spec fn err_line_spec(
    command: Seq<char>,
    kind: Option<Seq<char>>,
    message: Option<Seq<char>>,
) -> Seq<char> {
    join(
        seq!["ERR"@, command, text_or(kind, "error"@), sanitize_spec(text_or(message, ""@))],
        "\t"@,
    )
}

/// The text of an optional string.
pub open spec fn opt_view(o: Option<String>) -> Option<Seq<char>> {
    match o {
        Some(s) => Some(s@),
        None => None,
    }
}

fn pair_or<'a>(o: &'a Option<String>, d: &'a str) -> (r: &'a str)
    ensures
        r@ == match o {
            Some(s) => s@,
            None => d@,
        },
{
    match o {
        Some(s) => s.as_str(),
        None => d,
    }
}

/// The plain line for a failed command.
pub fn plain_err(command: &str, kind: &Option<String>, message: &Option<String>) -> (r: String)
    ensures
        r@ == err_line_spec(command@, opt_view(*kind), opt_view(*message)),
{
    let k = owned(pair_or(kind, "error"));
    let m = sanitize_field(pair_or(message, ""));
    let mut fields: Vec<String> = Vec::new();
    fields.push(owned("ERR"));
    fields.push(owned(command));
    fields.push(k);
    fields.push(m);
    let r = tsv(&fields);
    assert(string_views(fields@) =~= seq![
        "ERR"@,
        command@,
        text_or(opt_view(*kind), "error"@),
        sanitize_spec(text_or(opt_view(*message), ""@)),
    ]);
    r
}

/// The plain line for a successful command without a dedicated view: `OK` and the command.
pub fn plain_ok_fallback(command: &str) -> (r: String)
    ensures
        r@ == join(seq!["OK"@, command@], "\t"@),
{
    let mut fields: Vec<String> = Vec::new();
    fields.push(owned("OK"));
    fields.push(string_of(&chars_of(command)));
    let r = tsv(&fields);
    assert(string_views(fields@) =~= seq!["OK"@, command@]);
    r
}

/// What the plain view of a search result shows of one email.
#[derive(Debug)]
pub struct SummaryLine {
    pub received_at: String,
    /// The first sender address, or empty.
    pub from: String,
    pub subject: String,
    pub unread: bool,
    pub has_attachment: bool,
    pub thread_id: String,
    pub email_id: String,
}

/// The line of one search item: date, sender, subject (one field, at most 120
/// characters), `unread`/`read`, `att` or empty, thread id, email id.
pub open spec fn summary_line_spec(it: SummaryLine) -> Seq<char> {
    join(
        seq![
            it.received_at@,
            sanitize_spec(it.from@),
            truncate_spec(sanitize_spec(it.subject@), 120),
            if it.unread {
                "unread"@
            } else {
                "read"@
            },
            if it.has_attachment {
                "att"@
            } else {
                ""@
            },
            it.thread_id@,
            it.email_id@,
        ],
        "\t"@,
    )
}

/// The plain line of one search item.
pub fn summary_line(it: &SummaryLine) -> (r: String)
    ensures
        r@ == summary_line_spec(*it),
{
    let mut fields: Vec<String> = Vec::new();
    fields.push(string_of(&chars_of(it.received_at.as_str())));
    fields.push(sanitize_field(it.from.as_str()));
    let subject = sanitize_field(it.subject.as_str());
    fields.push(truncate(subject.as_str(), 120));
    fields.push(
        if it.unread {
            owned("unread")
        } else {
            owned("read")
        },
    );
    fields.push(
        if it.has_attachment {
            owned("att")
        } else {
            owned("")
        },
    );
    fields.push(string_of(&chars_of(it.thread_id.as_str())));
    fields.push(string_of(&chars_of(it.email_id.as_str())));
    let r = tsv(&fields);
    assert(string_views(fields@) =~= seq![
        it.received_at@,
        sanitize_spec(it.from@),
        truncate_spec(sanitize_spec(it.subject@), 120),
        if it.unread {
            "unread"@
        } else {
            "read"@
        },
        if it.has_attachment {
            "att"@
        } else {
            ""@
        },
        it.thread_id@,
        it.email_id@,
    ]);
    r
}

/// Lines joined with line feeds.
pub fn lines_text(lines: &Vec<String>) -> (r: String)
    ensures
        r@ == join(string_views(lines@), "\n"@),
{
    let parts = crate::pieces::chars_of_all(lines);
    let nl = chars_of("\n");
    let j = join_chars(&parts, &nl);
    string_of(&j)
}

/// The plain view of search results: one line per item.
pub fn render_search_items(items: &Vec<SummaryLine>) -> (r: String)
    ensures
        r@ == join(
            items@.map_values(|it: SummaryLine| summary_line_spec(it)),
            "\n"@,
        ),
{
    let ghost f = |it: SummaryLine| summary_line_spec(it);
    let mut lines: Vec<String> = Vec::new();
    let mut i: usize = 0;
    while i < items.len()
        invariant
            i <= items.len(),
            f == (|it: SummaryLine| summary_line_spec(it)),
            string_views(lines@) == items@.take(i as int).map_values(f),
        decreases items.len() - i,
    {
        let l = summary_line(&items[i]);
        proof {
            crate::pieces::lemma_string_views_push(lines@, l);
            lemma_take_step(items@, i as int);
            assert(items@.take(i as int + 1).map_values(f) =~= items@.take(i as int).map_values(
                f,
            ).push(f(items@[i as int])));
        }
        lines.push(l);
        i += 1;
    }
    proof {
        lemma_take_all(items@);
    }
    lines_text(&lines)
}

/// The line of one mailbox: id, role (or empty), name made one field.
pub open spec fn label_line_spec(id: Seq<char>, role: Seq<char>, name: Seq<char>) -> Seq<char> {
    join(seq![id, role, sanitize_spec(name)], "\t"@)
}

/// The plain line of one mailbox.
pub fn label_line(id: &str, role: &str, name: &str) -> (r: String)
    ensures
        r@ == label_line_spec(id@, role@, name@),
{
    let mut fields: Vec<String> = Vec::new();
    fields.push(string_of(&chars_of(id)));
    fields.push(string_of(&chars_of(role)));
    fields.push(sanitize_field(name));
    let r = tsv(&fields);
    assert(string_views(fields@) =~= seq![id@, role@, sanitize_spec(name@)]);
    r
}

/// What the plain views show of one attachment.
#[derive(Debug)]
pub struct AttachmentLine {
    pub email_id: String,
    pub blob_id: String,
    pub name: String,
    pub content_type: String,
    pub size: i64,
}

/// The line of one attachment of a thread: email id, blob id, name, type, size.
pub open spec fn attachment_line_spec(a: AttachmentLine) -> Seq<char> {
    join(
        seq![
            a.email_id@,
            a.blob_id@,
            sanitize_spec(a.name@),
            a.content_type@,
            signed_decimal(a.size as int),
        ],
        "\t"@,
    )
}

/// The plain line of one attachment of a thread.
pub fn attachment_line(a: &AttachmentLine) -> (r: String)
    ensures
        r@ == attachment_line_spec(*a),
{
    let mut fields: Vec<String> = Vec::new();
    fields.push(string_of(&chars_of(a.email_id.as_str())));
    fields.push(string_of(&chars_of(a.blob_id.as_str())));
    fields.push(sanitize_field(a.name.as_str()));
    fields.push(string_of(&chars_of(a.content_type.as_str())));
    fields.push(i64_text(a.size));
    let r = tsv(&fields);
    assert(string_views(fields@) =~= seq![
        a.email_id@,
        a.blob_id@,
        sanitize_spec(a.name@),
        a.content_type@,
        signed_decimal(a.size as int),
    ]);
    r
}

/// The line of a downloaded attachment: where it went, its size, its blob id.
pub open spec fn download_line_spec(out: Seq<char>, bytes: int, blob_id: Seq<char>) -> Seq<char> {
    join(seq![out, signed_decimal(bytes), blob_id], "\t"@)
}

/// The plain line of a downloaded attachment.
pub fn download_line(out: &str, bytes: i64, blob_id: &str) -> (r: String)
    ensures
        r@ == download_line_spec(out@, bytes as int, blob_id@),
{
    let mut fields: Vec<String> = Vec::new();
    fields.push(string_of(&chars_of(out)));
    fields.push(i64_text(bytes));
    fields.push(string_of(&chars_of(blob_id)));
    let r = tsv(&fields);
    assert(string_views(fields@) =~= seq![out@, signed_decimal(bytes as int), blob_id@]);
    r
}

fn labelled(label: &str, n: u64) -> (r: String)
    ensures
        r@ == label@ + decimal(n as nat),
{
    let mut v = chars_of(label);
    let d = chars_of(u64_text(n).as_str());
    append_chars(&mut v, &d);
    string_of(&v)
}

/// `true` or `false`.
pub open spec fn bool_text(b: bool) -> Seq<char> {
    if b {
        "true"@
    } else {
        "false"@
    }
}

/// The line of a history page: `since -> new`, the counts, `hasMore=` and the next
/// page token when there is one (else an empty field).
pub open spec fn history_line_spec(
    since: Seq<char>,
    new: Seq<char>,
    created: nat,
    updated: nat,
    destroyed: nat,
    has_more: bool,
    next_page: Seq<char>,
) -> Seq<char> {
    join(
        seq![
            since + " -> "@ + new,
            "created="@ + decimal(created),
            "updated="@ + decimal(updated),
            "destroyed="@ + decimal(destroyed),
            "hasMore="@ + bool_text(has_more),
            if next_page.len() == 0 {
                Seq::empty()
            } else {
                "nextPage="@ + next_page
            },
        ],
        "\t"@,
    )
}

/// The plain line of a history page.
pub fn history_line(
    since: &str,
    new: &str,
    created: u64,
    updated: u64,
    destroyed: u64,
    has_more: bool,
    next_page: &str,
) -> (r: String)
    ensures
        r@ == history_line_spec(
            since@,
            new@,
            created as nat,
            updated as nat,
            destroyed as nat,
            has_more,
            next_page@,
        ),
{
    let mut first = chars_of(since);
    append_chars(&mut first, &chars_of(" -> "));
    append_chars(&mut first, &chars_of(new));
    let mut fields: Vec<String> = Vec::new();
    fields.push(string_of(&first));
    fields.push(labelled("created=", created));
    fields.push(labelled("updated=", updated));
    fields.push(labelled("destroyed=", destroyed));
    let mut hm = chars_of("hasMore=");
    append_chars(
        &mut hm,
        &chars_of(
            if has_more {
                "true"
            } else {
                "false"
            },
        ),
    );
    fields.push(string_of(&hm));
    if chars_of(next_page).len() == 0 {
        proof {
            reveal_strlit("");
        }
        fields.push(String::new());
    } else {
        let mut np = chars_of("nextPage=");
        append_chars(&mut np, &chars_of(next_page));
        fields.push(string_of(&np));
    }
    let r = tsv(&fields);
    assert(string_views(fields@) =~= seq![
        since@ + " -> "@ + new@,
        "created="@ + decimal(created as nat),
        "updated="@ + decimal(updated as nat),
        "destroyed="@ + decimal(destroyed as nat),
        "hasMore="@ + bool_text(has_more),
        if next_page@.len() == 0 {
            Seq::empty()
        } else {
            "nextPage="@ + next_page@
        },
    ]);
    r
}

/// What the plain view of `get` shows.
#[derive(Debug)]
pub struct GetPage {
    pub subject: String,
    pub from: String,
    pub to: String,
    pub received_at: String,
    pub thread_id: String,
    pub email_id: String,
    pub unread: bool,
    pub has_attachment: bool,
    pub preview: String,
    pub body_text: String,
    pub attachments: Vec<AttachmentLine>,
}

/// The line listing one attachment on the `get` page.
pub open spec fn get_attachment_line_spec(a: AttachmentLine) -> Seq<char> {
    "- "@ + sanitize_spec(a.name@) + "\t"@ + a.content_type@ + "\t"@ + signed_decimal(a.size as int)
        + "\t"@ + a.blob_id@ + "\n"@
}

/// The attachment lines, one after another.
pub open spec fn get_attachment_lines(atts: Seq<AttachmentLine>) -> Seq<char>
    decreases atts.len(),
{
    if atts.len() == 0 {
        Seq::empty()
    } else {
        get_attachment_lines(atts.drop_last()) + get_attachment_line_spec(atts.last())
    }
}

/// The header lines of the `get` page.
pub open spec fn get_head_spec(g: GetPage) -> Seq<char> {
    "Subject: "@ + g.subject@ + "\n"@ + "From:    "@ + g.from@ + "\n"@ + "To:      "@ + g.to@
        + "\n"@ + "Date:    "@ + g.received_at@ + "\n"@ + "Thread:  "@ + g.thread_id@ + "\n"@
        + "Email:   "@ + g.email_id@ + "\n"@ + "Unread:  "@ + bool_text(g.unread) + "\n"@
        + "Attach:  "@ + bool_text(g.has_attachment) + "\n"@
}

/// The preview section of the `get` page (at most 400 characters of preview).
pub open spec fn get_preview_spec(g: GetPage) -> Seq<char> {
    if g.preview@.len() == 0 {
        Seq::empty()
    } else {
        "\nPreview:\n"@ + truncate_spec(g.preview@, 400) + "\n"@
    }
}

/// The body section of the `get` page, ending with a line feed.
pub open spec fn get_body_spec(g: GetPage) -> Seq<char> {
    if g.body_text@.len() == 0 {
        Seq::empty()
    } else {
        "\nBody (text):\n"@ + g.body_text@ + if g.body_text@.last() == '\n' {
            Seq::empty()
        } else {
            "\n"@
        }
    }
}

/// The attachments section of the `get` page.
pub open spec fn get_attachments_spec(g: GetPage) -> Seq<char> {
    if g.attachments@.len() == 0 {
        Seq::empty()
    } else {
        "\nAttachments:\n"@ + get_attachment_lines(g.attachments@)
    }
}

/// The `get` page before trailing line feeds are dropped.
pub open spec fn get_page_body(g: GetPage) -> Seq<char> {
    get_head_spec(g) + get_preview_spec(g) + get_body_spec(g) + get_attachments_spec(g)
}

/// The `get` page: headers, preview, body text and attachments, without trailing line feeds.
pub open spec fn get_page_spec(g: GetPage) -> Seq<char> {
    trim_end_char(get_page_body(g), '\n')
}

fn push_str(v: &mut Vec<char>, s: &str)
    ensures
        final(v)@ == old(v)@ + s@,
{
    append_chars(v, &chars_of(s));
}

fn get_head(g: &GetPage) -> (r: Vec<char>)
    ensures
        r@ == get_head_spec(*g),
{
    let mut out: Vec<char> = Vec::new();
    push_str(&mut out, "Subject: ");
    push_str(&mut out, g.subject.as_str());
    push_str(&mut out, "\n");
    push_str(&mut out, "From:    ");
    push_str(&mut out, g.from.as_str());
    push_str(&mut out, "\n");
    push_str(&mut out, "To:      ");
    push_str(&mut out, g.to.as_str());
    push_str(&mut out, "\n");
    push_str(&mut out, "Date:    ");
    push_str(&mut out, g.received_at.as_str());
    push_str(&mut out, "\n");
    push_str(&mut out, "Thread:  ");
    push_str(&mut out, g.thread_id.as_str());
    push_str(&mut out, "\n");
    push_str(&mut out, "Email:   ");
    push_str(&mut out, g.email_id.as_str());
    push_str(&mut out, "\n");
    push_str(&mut out, "Unread:  ");
    push_str(
        &mut out,
        if g.unread {
            "true"
        } else {
            "false"
        },
    );
    push_str(&mut out, "\n");
    push_str(&mut out, "Attach:  ");
    push_str(
        &mut out,
        if g.has_attachment {
            "true"
        } else {
            "false"
        },
    );
    push_str(&mut out, "\n");
    out
}

fn get_preview(g: &GetPage) -> (r: Vec<char>)
    ensures
        r@ == get_preview_spec(*g),
{
    let mut out: Vec<char> = Vec::new();
    if chars_of(g.preview.as_str()).len() > 0 {
        push_str(&mut out, "\nPreview:\n");
        push_str(&mut out, truncate(g.preview.as_str(), 400).as_str());
        push_str(&mut out, "\n");
    }
    out
}

fn get_body(g: &GetPage) -> (r: Vec<char>)
    ensures
        r@ == get_body_spec(*g),
{
    let mut out: Vec<char> = Vec::new();
    let body = chars_of(g.body_text.as_str());
    if body.len() > 0 {
        push_str(&mut out, "\nBody (text):\n");
        append_chars(&mut out, &body);
        if body[body.len() - 1] != '\n' {
            push_str(&mut out, "\n");
        } else {
            assert(out@ =~= out@ + Seq::<char>::empty());
        }
    }
    out
}

fn get_attachments(g: &GetPage) -> (r: Vec<char>)
    ensures
        r@ == get_attachments_spec(*g),
{
    let mut out: Vec<char> = Vec::new();
    if g.attachments.len() > 0 {
        push_str(&mut out, "\nAttachments:\n");
        let ghost before = out@;
        let mut i: usize = 0;
        assert(g.attachments@.take(0) =~= Seq::<AttachmentLine>::empty());
        while i < g.attachments.len()
            invariant
                i <= g.attachments.len(),
                out@ == before + get_attachment_lines(g.attachments@.take(i as int)),
            decreases g.attachments.len() - i,
        {
            proof {
                lemma_take_step(g.attachments@, i as int);
            }
            let a = &g.attachments[i];
            let ghost pre = out@;
            push_str(&mut out, "- ");
            push_str(&mut out, sanitize_field(a.name.as_str()).as_str());
            push_str(&mut out, "\t");
            push_str(&mut out, a.content_type.as_str());
            push_str(&mut out, "\t");
            push_str(&mut out, i64_text(a.size).as_str());
            push_str(&mut out, "\t");
            push_str(&mut out, a.blob_id.as_str());
            push_str(&mut out, "\n");
            assert(out@ =~= pre + get_attachment_line_spec(g.attachments@[i as int]));
            i += 1;
        }
        proof {
            lemma_take_all(g.attachments@);
        }
    }
    out
}

/// The plain page of `get`.
pub fn render_get_page(g: &GetPage) -> (r: String)
    ensures
        r@ == get_page_spec(*g),
{
    let mut out = get_head(g);
    append_chars(&mut out, &get_preview(g));
    append_chars(&mut out, &get_body(g));
    append_chars(&mut out, &get_attachments(g));
    let t = trim_end_chars_of(&out, '\n');
    string_of(&t)
}

/// Which plain view a successful command gets.
#[derive(Clone, Copy, PartialEq, Eq, Structural, Debug)]
pub enum PlainView {
    /// Search-like results: one line per item.
    SearchItems,
    /// One line per mailbox.
    Labels,
    /// One line per attachment of a thread.
    ThreadAttachments,
    /// One line for a downloaded attachment.
    Attachment,
    /// One line for a history page.
    History,
    /// The text page of `get`.
    Get,
    /// `OK` and the command.
    Fallback,
}

/// The plain view for a command name.
pub open spec fn plain_view_spec(command: Seq<char>) -> PlainView {
    if command == "search"@ || command == "messages.search"@ || command == "drafts.list"@ {
        PlainView::SearchItems
    } else if command == "labels.list"@ || command == "mailboxes.list"@ {
        PlainView::Labels
    } else if command == "thread.attachments"@ {
        PlainView::ThreadAttachments
    } else if command == "attachment"@ {
        PlainView::Attachment
    } else if command == "history"@ {
        PlainView::History
    } else if command == "get"@ {
        PlainView::Get
    } else {
        PlainView::Fallback
    }
}

/// Picks the plain view for a successful command.
pub fn plain_view_for(command: &str) -> (r: PlainView)
    ensures
        r == plain_view_spec(command@),
{
    let c = chars_of(command);
    if eq_chars(&c, &chars_of("search")) || eq_chars(&c, &chars_of("messages.search"))
        || eq_chars(&c, &chars_of("drafts.list")) {
        PlainView::SearchItems
    } else if eq_chars(&c, &chars_of("labels.list")) || eq_chars(&c, &chars_of("mailboxes.list")) {
        PlainView::Labels
    } else if eq_chars(&c, &chars_of("thread.attachments")) {
        PlainView::ThreadAttachments
    } else if eq_chars(&c, &chars_of("attachment")) {
        PlainView::Attachment
    } else if eq_chars(&c, &chars_of("history")) {
        PlainView::History
    } else if eq_chars(&c, &chars_of("get")) {
        PlainView::Get
    } else {
        PlainView::Fallback
    }
}

/// The attachment marker of a search line is the field just before the thread id: the
/// line of an email with an attachment is the line of the same email without one, with
/// `att` written into that (otherwise empty) field.
pub proof fn lemma_summary_attachment_marker(with_att: SummaryLine, without: SummaryLine)
    requires
        with_att.has_attachment,
        !without.has_attachment,
        with_att.received_at@ == without.received_at@,
        with_att.from@ == without.from@,
        with_att.subject@ == without.subject@,
        with_att.unread == without.unread,
        with_att.thread_id@ == without.thread_id@,
        with_att.email_id@ == without.email_id@,
    ensures
        exists|p: Seq<char>|
            p.len() > 0 && p.last() == '\t' && #[trigger] summary_line_spec(with_att) == p + "att"@ + "\t"@
                + with_att.thread_id@ + "\t"@ + with_att.email_id@ && summary_line_spec(without) == p
                + "\t"@ + with_att.thread_id@ + "\t"@ + with_att.email_id@,
{
    reveal_strlit("\t");
    reveal_strlit("att");
    reveal_strlit("");
    let tab = "\t"@;
    let unread = if with_att.unread {
        "unread"@
    } else {
        "read"@
    };
    let first = seq![
        with_att.received_at@,
        sanitize_spec(with_att.from@),
        truncate_spec(sanitize_spec(with_att.subject@), 120),
        unread,
    ];
    let fa = seq![
        with_att.received_at@,
        sanitize_spec(with_att.from@),
        truncate_spec(sanitize_spec(with_att.subject@), 120),
        unread,
        "att"@,
        with_att.thread_id@,
        with_att.email_id@,
    ];
    let fb = seq![
        with_att.received_at@,
        sanitize_spec(with_att.from@),
        truncate_spec(sanitize_spec(with_att.subject@), 120),
        unread,
        ""@,
        with_att.thread_id@,
        with_att.email_id@,
    ];
    assert(fa.drop_last().drop_last().drop_last() =~= first);
    assert(fb.drop_last().drop_last().drop_last() =~= first);
    assert(fa.drop_last().drop_last().last() == "att"@);
    assert(fb.drop_last().drop_last().last() == ""@);
    assert(fa.drop_last().last() == with_att.thread_id@);
    assert(fb.drop_last().last() == with_att.thread_id@);
    let j = join(first, tab);
    let p = j + tab;
    assert(join(fa.drop_last().drop_last(), tab) == j + tab + "att"@);
    assert(join(fb.drop_last().drop_last(), tab) == j + tab + ""@);
    assert(summary_line_spec(with_att) == join(fa, tab));
    assert(summary_line_spec(without) == join(fb, tab));
    assert(fa.last() == with_att.email_id@);
    assert(fb.last() == with_att.email_id@);
    assert(join(fa.drop_last(), tab) == join(fa.drop_last().drop_last(), tab) + tab + with_att.thread_id@);
    assert(join(fb.drop_last(), tab) == join(fb.drop_last().drop_last(), tab) + tab + with_att.thread_id@);
    assert(join(fa, tab) == join(fa.drop_last(), tab) + tab + with_att.email_id@);
    assert(join(fb, tab) == join(fb.drop_last(), tab) + tab + with_att.email_id@);
    assert(summary_line_spec(with_att) =~= p + "att"@ + tab + with_att.thread_id@ + tab
        + with_att.email_id@);
    assert(summary_line_spec(without) =~= p + tab + with_att.thread_id@ + tab + with_att.email_id@);
    assert(p.last() == '\t');
}

/// The read marker of a search line is its fourth field: the lines of an unread and of
/// a read copy of the same email differ only there, `unread` against `read`.
pub proof fn lemma_summary_read_marker(unread: SummaryLine, read: SummaryLine)
    requires
        unread.unread,
        !read.unread,
        unread.received_at@ == read.received_at@,
        unread.from@ == read.from@,
        unread.subject@ == read.subject@,
        unread.has_attachment == read.has_attachment,
        unread.thread_id@ == read.thread_id@,
        unread.email_id@ == read.email_id@,
    ensures
        exists|p: Seq<char>, q: Seq<char>|
            p.len() > 0 && p.last() == '\t' && q.len() > 0 && q[0] == '\t'
                && #[trigger] summary_line_spec(unread) == p + "unread"@ + q && summary_line_spec(read)
                == p + "read"@ + q,
{
    reveal_strlit("\t");
    let tab = "\t"@;
    let att = if unread.has_attachment {
        "att"@
    } else {
        ""@
    };
    let first = seq![
        unread.received_at@,
        sanitize_spec(unread.from@),
        truncate_spec(sanitize_spec(unread.subject@), 120),
    ];
    let fa = seq![
        unread.received_at@,
        sanitize_spec(unread.from@),
        truncate_spec(sanitize_spec(unread.subject@), 120),
        "unread"@,
        att,
        unread.thread_id@,
        unread.email_id@,
    ];
    let fb = seq![
        unread.received_at@,
        sanitize_spec(unread.from@),
        truncate_spec(sanitize_spec(unread.subject@), 120),
        "read"@,
        att,
        unread.thread_id@,
        unread.email_id@,
    ];
    let a4 = fa.drop_last().drop_last().drop_last();
    let b4 = fb.drop_last().drop_last().drop_last();
    assert(a4.drop_last() =~= first);
    assert(b4.drop_last() =~= first);
    assert(a4.last() == "unread"@);
    assert(b4.last() == "read"@);
    let j = join(first, tab);
    assert(join(a4, tab) == j + tab + "unread"@);
    assert(join(b4, tab) == j + tab + "read"@);
    assert(fa.drop_last().drop_last().last() == att);
    assert(fb.drop_last().drop_last().last() == att);
    assert(fa.drop_last().last() == unread.thread_id@);
    assert(fb.drop_last().last() == unread.thread_id@);
    assert(fa.last() == unread.email_id@);
    assert(fb.last() == unread.email_id@);
    assert(join(fa.drop_last().drop_last(), tab) == join(a4, tab) + tab + att);
    assert(join(fb.drop_last().drop_last(), tab) == join(b4, tab) + tab + att);
    assert(join(fa.drop_last(), tab) == join(fa.drop_last().drop_last(), tab) + tab + unread.thread_id@);
    assert(join(fb.drop_last(), tab) == join(fb.drop_last().drop_last(), tab) + tab + unread.thread_id@);
    assert(join(fa, tab) == join(fa.drop_last(), tab) + tab + unread.email_id@);
    assert(join(fb, tab) == join(fb.drop_last(), tab) + tab + unread.email_id@);
    assert(summary_line_spec(unread) == join(fa, tab));
    assert(summary_line_spec(read) == join(fb, tab));
    let p = j + tab;
    let q = tab + att + tab + unread.thread_id@ + tab + unread.email_id@;
    assert(summary_line_spec(unread) =~= p + "unread"@ + q);
    assert(summary_line_spec(read) =~= p + "read"@ + q);
    assert(p.last() == '\t');
    assert(q[0] == '\t');
}

} // verus!
