//! The lines `watch` prints while it runs: with `--plain`, tab-separated `READY`,
//! `TICK`, `CREATED`/`UPDATED`/`DESTROYED` and `STOPPED` lines; and, when the final
//! envelope is left out, the one line that reports a failure.
use vstd::prelude::*;

use crate::error::owned;
use crate::paging::{json_string, push_json_string};
use crate::pieces::{append_chars, decimal, join, string_views, u64_text};
use crate::plain::{bool_text, err_line_spec, plain_err, tsv};
use crate::text::{chars_of, string_of};

verus! {

/// `label` followed by a number.
pub open spec fn labelled_spec(label: Seq<char>, n: nat) -> Seq<char> {
    label + decimal(n)
}

fn labelled(label: &str, n: u64) -> (r: String)
    ensures
        r@ == labelled_spec(label@, n as nat),
{
    let mut v = chars_of(label);
    append_chars(&mut v, &chars_of(u64_text(n).as_str()));
    string_of(&v)
}

/// The plain line that starts a watch: the state it starts from and the page size.
pub open spec fn ready_line_spec(since: Seq<char>, max_changes: nat) -> Seq<char> {
    join(seq!["READY"@, since, labelled_spec("maxChanges="@, max_changes)], "\t"@)
}

/// The plain line that starts a watch.
pub fn ready_line(since: &str, max_changes: u64) -> (r: String)
    ensures
        r@ == ready_line_spec(since@, max_changes as nat),
{
    let mut fields: Vec<String> = Vec::new();
    fields.push(owned("READY"));
    fields.push(owned(since));
    fields.push(labelled("maxChanges=", max_changes));
    let r = tsv(&fields);
    assert(string_views(fields@) =~= seq![
        "READY"@,
        since@,
        labelled_spec("maxChanges="@, max_changes as nat),
    ]);
    r
}

/// The plain line of a batch with changes: `since -> new`, the counts, and whether more
/// changes are pending.
pub open spec fn tick_line_spec(
    since: Seq<char>,
    new: Seq<char>,
    created: nat,
    updated: nat,
    destroyed: nat,
    has_more: bool,
) -> Seq<char> {
    join(
        seq![
            "TICK"@,
            since + " -> "@ + new,
            labelled_spec("created="@, created),
            labelled_spec("updated="@, updated),
            labelled_spec("destroyed="@, destroyed),
            "hasMore="@ + bool_text(has_more),
        ],
        "\t"@,
    )
}

/// The plain line of a batch with changes.
pub fn tick_line(since: &str, new: &str, created: u64, updated: u64, destroyed: u64, has_more: bool) -> (r: String)
    ensures
        r@ == tick_line_spec(since@, new@, created as nat, updated as nat, destroyed as nat, has_more),
{
    let mut first = chars_of(since);
    append_chars(&mut first, &chars_of(" -> "));
    append_chars(&mut first, &chars_of(new));
    let mut hm = chars_of("hasMore=");
    append_chars(
        &mut hm,
        &chars_of(
            if has_more {
                "true"
            } else {
                "false"
            },
        ),
    );
    let mut fields: Vec<String> = Vec::new();
    fields.push(owned("TICK"));
    fields.push(string_of(&first));
    fields.push(labelled("created=", created));
    fields.push(labelled("updated=", updated));
    fields.push(labelled("destroyed=", destroyed));
    fields.push(string_of(&hm));
    let r = tsv(&fields);
    assert(string_views(fields@) =~= seq![
        "TICK"@,
        since@ + " -> "@ + new@,
        labelled_spec("created="@, created as nat),
        labelled_spec("updated="@, updated as nat),
        labelled_spec("destroyed="@, destroyed as nat),
        "hasMore="@ + bool_text(has_more),
    ]);
    r
}

/// How an email changed.
#[derive(Clone, Copy, PartialEq, Eq, Structural, Debug)]
pub enum ChangeKind {
    Created,
    Updated,
    Destroyed,
}

/// The label of a change: `CREATED`, `UPDATED` or `DESTROYED`.
pub open spec fn change_label(k: ChangeKind) -> Seq<char> {
    match k {
        ChangeKind::Created => "CREATED"@,
        ChangeKind::Updated => "UPDATED"@,
        ChangeKind::Destroyed => "DESTROYED"@,
    }
}

/// The plain line of one changed email: the change and the email id.
pub open spec fn change_line_spec(k: ChangeKind, id: Seq<char>) -> Seq<char> {
    join(seq![change_label(k), id], "\t"@)
}

/// The plain line of one changed email.
pub fn change_line(k: ChangeKind, id: &str) -> (r: String)
    ensures
        r@ == change_line_spec(k, id@),
{
    let label = match k {
        ChangeKind::Created => "CREATED",
        ChangeKind::Updated => "UPDATED",
        ChangeKind::Destroyed => "DESTROYED",
    };
    let mut fields: Vec<String> = Vec::new();
    fields.push(owned(label));
    fields.push(owned(id));
    let r = tsv(&fields);
    assert(string_views(fields@) =~= seq![change_label(k), id@]);
    r
}

/// The plain line when the watch is stopped, with the reason.
pub open spec fn stopped_line_spec(reason: Seq<char>) -> Seq<char> {
    join(seq!["STOPPED"@, reason], "\t"@)
}

/// The plain line when the watch is stopped.
pub fn stopped_line(reason: &str) -> (r: String)
    ensures
        r@ == stopped_line_spec(reason@),
{
    let mut fields: Vec<String> = Vec::new();
    fields.push(owned("STOPPED"));
    fields.push(owned(reason));
    let r = tsv(&fields);
    assert(string_views(fields@) =~= seq!["STOPPED"@, reason@]);
    r
}

/// The JSON event that reports a failure: `{"type":"error","error":{"kind":..,"message":..}}`.
pub open spec fn error_event_spec(kind: Seq<char>, message: Seq<char>) -> Seq<char> {
    "{\"type\":\"error\",\"error\":{\"kind\":"@ + json_string(kind) + ",\"message\":"@
        + json_string(message) + "}}"@
}

/// The line that reports a failure when the final envelope is left out: the plain
/// error line with `--plain`, else the JSON error event.
pub open spec fn failure_line_spec(plain: bool, command: Seq<char>, kind: Seq<char>, message: Seq<char>) -> Seq<char> {
    if plain {
        err_line_spec(command, Some(kind), Some(message))
    } else {
        error_event_spec(kind, message)
    }
}

/// The line that reports a failure when the final envelope is left out.
pub fn failure_line(plain: bool, command: &str, kind: &str, message: &str) -> (r: String)
    ensures
        r@ == failure_line_spec(plain, command@, kind@, message@),
{
    if plain {
        return plain_err(command, &Some(owned(kind)), &Some(owned(message)));
    }
    let mut v = chars_of("{\"type\":\"error\",\"error\":{\"kind\":");
    push_json_string(&mut v, kind);
    append_chars(&mut v, &chars_of(",\"message\":"));
    push_json_string(&mut v, message);
    append_chars(&mut v, &chars_of("}}"));
    string_of(&v)
}

} // verus!
