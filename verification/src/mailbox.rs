//! Mailboxes as the commands see them, and how a user's word picks one.
use vstd::prelude::*;

use crate::error::{owned, XinErrorOut};
use crate::seqs::{first_where, lemma_first_where, lemma_first_where_found, lemma_first_where_none};
use crate::text::{chars_of, eq_chars, lower_chars, lowercase, string_of, trim, trim_chars};

verus! {

/// The role of a mailbox (RFC 8621), with `None` for a mailbox without one.
#[derive(Debug)]
pub enum MailboxRole {
    Inbox,
    Trash,
    Junk,
    Sent,
    Drafts,
    Archive,
    Important,
    Other(String),
    NoRole,
}

/// What the commands read of a mailbox.
#[derive(Debug)]
pub struct MailboxInfo {
    pub id: Option<String>,
    pub name: Option<String>,
    pub role: MailboxRole,
    pub parent_id: Option<String>,
    pub sort_order: u32,
    pub total_emails: usize,
    pub unread_emails: usize,
    pub total_threads: usize,
    pub unread_threads: usize,
    pub is_subscribed: bool,
}

/// The text of an optional string.
pub open spec fn opt_text(o: Option<String>) -> Option<Seq<char>> {
    match o {
        Some(s) => Some(s@),
        None => None,
    }
}

/// The role name used in output, or `None` for a mailbox without a role.
pub open spec fn role_name(r: MailboxRole) -> Option<Seq<char>> {
    match r {
        MailboxRole::Inbox => Some("inbox"@),
        MailboxRole::Trash => Some("trash"@),
        MailboxRole::Junk => Some("junk"@),
        MailboxRole::Sent => Some("sent"@),
        MailboxRole::Drafts => Some("drafts"@),
        MailboxRole::Archive => Some("archive"@),
        MailboxRole::Important => Some("important"@),
        MailboxRole::Other(s) => Some(s@),
        MailboxRole::NoRole => None,
    }
}

/// The role name of a mailbox, as written in output.
pub fn role_to_string(role: &MailboxRole) -> (r: Option<String>)
    ensures
        opt_text(r) == role_name(*role),
{
    match role {
        MailboxRole::Inbox => Some(owned("inbox")),
        MailboxRole::Trash => Some(owned("trash")),
        MailboxRole::Junk => Some(owned("junk")),
        MailboxRole::Sent => Some(owned("sent")),
        MailboxRole::Drafts => Some(owned("drafts")),
        MailboxRole::Archive => Some(owned("archive")),
        MailboxRole::Important => Some(owned("important")),
        MailboxRole::Other(s) => Some(s.clone()),
        MailboxRole::NoRole => None,
    }
}

/// `c` with an ASCII capital letter made small; every other character kept.
pub open spec fn ascii_lower(c: char) -> char {
    if 'A' <= c && c <= 'Z' {
        ((c as u32) + 32) as char
    } else {
        c
    }
}

/// The role a mailbox has on the server: its role name compared case-insensitively
/// over ASCII; an unknown name is kept (ASCII-lowercased) as a custom role, and a
/// mailbox without one has no role.
pub open spec fn server_role_spec(role: Option<Seq<char>>) -> MailboxRole {
    match role {
        None => MailboxRole::NoRole,
        Some(s) => {
            let l = s.map_values(|c: char| ascii_lower(c));
            if l == "inbox"@ {
                MailboxRole::Inbox
            } else if l == "sent"@ {
                MailboxRole::Sent
            } else if l == "trash"@ {
                MailboxRole::Trash
            } else if l == "drafts"@ {
                MailboxRole::Drafts
            } else if l == "junk"@ {
                MailboxRole::Junk
            } else if l == "archive"@ {
                MailboxRole::Archive
            } else if l == "important"@ {
                MailboxRole::Important
            } else {
                MailboxRole::Other(arbitrary())
            }
        },
    }
}

/// Reads the role a server gives a mailbox.
pub fn server_role(role: Option<&str>) -> (r: MailboxRole)
    ensures
        match role {
            None => r is NoRole,
            Some(s) => match server_role_spec(Some(s@)) {
                MailboxRole::Other(_) => r matches MailboxRole::Other(x) && x@ == s@.map_values(
                    |c: char| ascii_lower(c),
                ),
                other => r == other,
            },
        },
{
    match role {
        None => MailboxRole::NoRole,
        Some(s) => {
            let v = chars_of(s);
            let mut l: Vec<char> = Vec::new();
            let mut i: usize = 0;
            while i < v.len()
                invariant
                    i <= v.len(),
                    v@ == s@,
                    l@ == v@.take(i as int).map_values(|c: char| ascii_lower(c)),
                decreases v.len() - i,
            {
                let c = v[i];
                let d = if 'A' <= c && c <= 'Z' {
                    ((c as u8) + 32) as char
                } else {
                    c
                };
                l.push(d);
                assert(v@.take(i as int + 1).map_values(|c: char| ascii_lower(c)) =~= v@.take(
                    i as int,
                ).map_values(|c: char| ascii_lower(c)).push(ascii_lower(c)));
                i += 1;
            }
            assert(v@.take(v.len() as int) =~= v@);
            if eq_chars(&l, &chars_of("inbox")) {
                MailboxRole::Inbox
            } else if eq_chars(&l, &chars_of("sent")) {
                MailboxRole::Sent
            } else if eq_chars(&l, &chars_of("trash")) {
                MailboxRole::Trash
            } else if eq_chars(&l, &chars_of("drafts")) {
                MailboxRole::Drafts
            } else if eq_chars(&l, &chars_of("junk")) {
                MailboxRole::Junk
            } else if eq_chars(&l, &chars_of("archive")) {
                MailboxRole::Archive
            } else if eq_chars(&l, &chars_of("important")) {
                MailboxRole::Important
            } else {
                MailboxRole::Other(string_of(&l))
            }
        },
    }
}

/// The role that a role name given on the command line denotes (case-insensitive;
/// `spam` means `junk`; an unknown name is kept, lowercased, as a custom role).
pub open spec fn parse_role_spec(s: Seq<char>) -> MailboxRole {
    let l = lowercase(s);
    if l == "inbox"@ {
        MailboxRole::Inbox
    } else if l == "trash"@ {
        MailboxRole::Trash
    } else if l == "junk"@ || l == "spam"@ {
        MailboxRole::Junk
    } else if l == "sent"@ {
        MailboxRole::Sent
    } else if l == "drafts"@ {
        MailboxRole::Drafts
    } else if l == "archive"@ {
        MailboxRole::Archive
    } else if l == "important"@ {
        MailboxRole::Important
    } else {
        MailboxRole::Other(arbitrary())
    }
}

/// The role a role name given on the command line denotes.
pub fn parse_role(role: &str) -> (r: MailboxRole)
    ensures
        match parse_role_spec(role@) {
            MailboxRole::Other(_) => r matches MailboxRole::Other(s) && s@ == lowercase(role@),
            other => r == other,
        },
{
    let l = lower_chars(&chars_of(role));
    if eq_chars(&l, &chars_of("inbox")) {
        MailboxRole::Inbox
    } else if eq_chars(&l, &chars_of("trash")) {
        MailboxRole::Trash
    } else if eq_chars(&l, &chars_of("junk")) || eq_chars(&l, &chars_of("spam")) {
        MailboxRole::Junk
    } else if eq_chars(&l, &chars_of("sent")) {
        MailboxRole::Sent
    } else if eq_chars(&l, &chars_of("drafts")) {
        MailboxRole::Drafts
    } else if eq_chars(&l, &chars_of("archive")) {
        MailboxRole::Archive
    } else if eq_chars(&l, &chars_of("important")) {
        MailboxRole::Important
    } else {
        MailboxRole::Other(string_of(&l))
    }
}

/// The well-known role a lookup word stands for: `spam` means `junk`, `bin` means `trash`.
pub open spec fn role_alias(l: Seq<char>) -> Seq<char> {
    if l == "spam"@ {
        "junk"@
    } else if l == "bin"@ {
        "trash"@
    } else {
        l
    }
}

/// Whether a mailbox of role `r` answers to the (lowercase) role word `role`.
pub open spec fn role_matches(role: Seq<char>, r: MailboxRole) -> bool {
    match r {
        MailboxRole::Inbox => role == "inbox"@,
        MailboxRole::Trash => role == "trash"@,
        MailboxRole::Junk => role == "junk"@,
        MailboxRole::Sent => role == "sent"@,
        MailboxRole::Drafts => role == "drafts"@,
        MailboxRole::Archive => role == "archive"@,
        MailboxRole::Important => role == "important"@,
        MailboxRole::Other(s) => role == lowercase(s@),
        MailboxRole::NoRole => false,
    }
}

/// Whether the mailbox has exactly this id.
pub open spec fn id_is(m: MailboxInfo, id: Seq<char>) -> bool {
    m.id matches Some(x) && x@ == id
}

/// Whether the mailbox has exactly this name.
pub open spec fn name_is(m: MailboxInfo, name: Seq<char>) -> bool {
    m.name matches Some(x) && x@ == name
}

/// Whether the lowercase form of the mailbox's name is `lower`.
pub open spec fn name_lower_is(m: MailboxInfo, lower: Seq<char>) -> bool {
    m.name matches Some(x) && lowercase(x@) == lower
}

/// The id of the mailbox at position `i`, if that position was found.
pub open spec fn id_at(ms: Seq<MailboxInfo>, i: Option<int>) -> Option<Seq<char>> {
    match i {
        Some(k) => opt_text(ms[k].id),
        None => None,
    }
}

/// Which mailbox a word picks, in this order: the word (trimmed) as an id; the first
/// mailbox whose role the lowercase word (with its aliases) names; the first whose name
/// is the word; the first whose name matches it case-insensitively. The first mailbox
/// that a rule picks decides, even if it has no id. An empty word picks nothing.
pub open spec fn resolve_mailbox_spec(s: Seq<char>, ms: Seq<MailboxInfo>) -> Option<Seq<char>> {
    let needle = trim(s);
    let role = role_alias(lowercase(needle));
    if needle.len() == 0 {
        None
    } else if exists|i: int| 0 <= i < ms.len() && id_is(ms[i], needle) {
        Some(needle)
    } else if first_where(ms, |m: MailboxInfo| role_matches(role, m.role)) is Some {
        id_at(ms, first_where(ms, |m: MailboxInfo| role_matches(role, m.role)))
    } else if first_where(ms, |m: MailboxInfo| name_is(m, needle)) is Some {
        id_at(ms, first_where(ms, |m: MailboxInfo| name_is(m, needle)))
    } else {
        id_at(ms, first_where(ms, |m: MailboxInfo| name_lower_is(m, lowercase(needle))))
    }
}

/// Whether a mailbox role is the trash role (a custom role spelled `trash` counts too).
pub open spec fn is_trash_role(r: MailboxRole) -> bool {
    r is Trash || (r matches MailboxRole::Other(x) && lowercase(x@) == "trash"@)
}

/// The word `bin` (in any case) names the trash: when no mailbox has the word itself as
/// its id and some mailbox has the trash role, it picks the first mailbox with the trash
/// role, never one of another role.
pub proof fn lemma_bin_picks_trash(s: Seq<char>, ms: Seq<MailboxInfo>, t: int)
    requires
        trim(s).len() > 0,
        lowercase(trim(s)) == "bin"@,
        forall|i: int| 0 <= i < ms.len() ==> !id_is(#[trigger] ms[i], trim(s)),
        0 <= t < ms.len(),
        ms[t].role is Trash,
    ensures
        exists|k: int|
            0 <= k <= t && is_trash_role(#[trigger] ms[k].role) && (forall|j: int|
                0 <= j < k ==> !is_trash_role(#[trigger] ms[j].role)) && resolve_mailbox_spec(s, ms)
                == opt_text(ms[k].id),
{
    reveal_strlit("bin");
    reveal_strlit("spam");
    reveal_strlit("trash");
    reveal_strlit("inbox");
    reveal_strlit("junk");
    reveal_strlit("sent");
    reveal_strlit("drafts");
    reveal_strlit("archive");
    reveal_strlit("important");
    assert("bin"@.len() == 3 && "spam"@.len() == 4);
    assert("bin"@ != "spam"@);
    assert(role_alias("bin"@) == "trash"@);
    let f = |m: MailboxInfo| role_matches("trash"@, m.role);
    assert("trash"@.len() == 5 && "inbox"@.len() == 5 && "junk"@.len() == 4 && "sent"@.len() == 4);
    assert("drafts"@.len() == 6 && "archive"@.len() == 7 && "important"@.len() == 9);
    assert("trash"@ != "inbox"@) by {
        assert("trash"@[0] != "inbox"@[0]);
    }
    assert forall|m: MailboxInfo| #[trigger] f(m) == is_trash_role(m.role) by {}
    assert(f(ms[t]));
    lemma_first_where_found(ms, f);
    let k = first_where(ms, f)->0;
    assert forall|j: int| 0 <= j < k implies !is_trash_role(#[trigger] ms[j].role) by {
        assert(!f(ms[j]));
    }
    assert(k <= t) by {
        if k > t {
            assert(!f(ms[t]));
        }
    }
    assert(is_trash_role(ms[k].role)) by {
        assert(f(ms[k]));
    }
}

/// Whether a mailbox role is the junk role (a custom role spelled `junk` counts too).
pub open spec fn is_junk_role(r: MailboxRole) -> bool {
    r is Junk || (r matches MailboxRole::Other(x) && lowercase(x@) == "junk"@)
}

/// The word `spam` (in any case) names the junk mailbox: when no mailbox has the word
/// itself as its id and some mailbox has the junk role, it picks the first mailbox with
/// the junk role.
pub proof fn lemma_spam_picks_junk(s: Seq<char>, ms: Seq<MailboxInfo>, t: int)
    requires
        trim(s).len() > 0,
        lowercase(trim(s)) == "spam"@,
        forall|i: int| 0 <= i < ms.len() ==> !id_is(#[trigger] ms[i], trim(s)),
        0 <= t < ms.len(),
        ms[t].role is Junk,
    ensures
        exists|k: int|
            0 <= k <= t && is_junk_role(#[trigger] ms[k].role) && (forall|j: int|
                0 <= j < k ==> !is_junk_role(#[trigger] ms[j].role)) && resolve_mailbox_spec(s, ms)
                == opt_text(ms[k].id),
{
    reveal_strlit("spam");
    reveal_strlit("trash");
    reveal_strlit("inbox");
    reveal_strlit("junk");
    reveal_strlit("sent");
    reveal_strlit("drafts");
    reveal_strlit("archive");
    reveal_strlit("important");
    assert(role_alias("spam"@) == "junk"@);
    let f = |m: MailboxInfo| role_matches("junk"@, m.role);
    assert("trash"@.len() == 5 && "inbox"@.len() == 5 && "junk"@.len() == 4 && "sent"@.len() == 4);
    assert("drafts"@.len() == 6 && "archive"@.len() == 7 && "important"@.len() == 9);
    assert("junk"@ != "sent"@) by {
        assert("junk"@[0] != "sent"@[0]);
    }
    assert forall|m: MailboxInfo| #[trigger] f(m) == is_junk_role(m.role) by {}
    assert(f(ms[t]));
    lemma_first_where_found(ms, f);
    let k = first_where(ms, f)->0;
    assert forall|j: int| 0 <= j < k implies !is_junk_role(#[trigger] ms[j].role) by {
        assert(!f(ms[j]));
    }
    assert(k <= t) by {
        if k > t {
            assert(!f(ms[t]));
        }
    }
    assert(is_junk_role(ms[k].role)) by {
        assert(f(ms[k]));
    }
}

/// A word that is a mailbox's id picks that id, before any role or name.
pub proof fn lemma_id_picks_itself(s: Seq<char>, ms: Seq<MailboxInfo>, i: int)
    requires
        trim(s).len() > 0,
        0 <= i < ms.len(),
        id_is(ms[i], trim(s)),
    ensures
        resolve_mailbox_spec(s, ms) == Some(trim(s)),
{
}

fn opt_clone(o: &Option<String>) -> (r: Option<String>)
    ensures
        opt_text(r) == opt_text(*o),
{
    match o {
        Some(s) => Some(s.clone()),
        None => None,
    }
}

/// Whether a mailbox of role `r` answers to the role word `role`.
pub fn role_matches_exec(role: &[char], r: &MailboxRole) -> (b: bool)
    ensures
        b == role_matches(role@, *r),
{
    match r {
        MailboxRole::Inbox => eq_chars(role, &chars_of("inbox")),
        MailboxRole::Trash => eq_chars(role, &chars_of("trash")),
        MailboxRole::Junk => eq_chars(role, &chars_of("junk")),
        MailboxRole::Sent => eq_chars(role, &chars_of("sent")),
        MailboxRole::Drafts => eq_chars(role, &chars_of("drafts")),
        MailboxRole::Archive => eq_chars(role, &chars_of("archive")),
        MailboxRole::Important => eq_chars(role, &chars_of("important")),
        MailboxRole::Other(s) => eq_chars(role, &lower_chars(&chars_of(s.as_str()))),
        MailboxRole::NoRole => false,
    }
}

fn opt_eq(o: &Option<String>, v: &[char]) -> (b: bool)
    ensures
        b == (o matches Some(x) && x@ == v@),
{
    match o {
        Some(x) => eq_chars(&chars_of(x.as_str()), v),
        None => false,
    }
}

fn opt_lower_eq(o: &Option<String>, v: &[char]) -> (b: bool)
    ensures
        b == (o matches Some(x) && lowercase(x@) == v@),
{
    match o {
        Some(x) => eq_chars(&lower_chars(&chars_of(x.as_str())), v),
        None => false,
    }
}

/// The first mailbox whose role the role word names.
fn find_by_role(ms: &[MailboxInfo], role: &[char]) -> (r: Option<usize>)
    ensures
        r matches Some(i) ==> first_where(ms@, |m: MailboxInfo| role_matches(role@, m.role))
            == Some(i as int),
        r matches Some(i) ==> i < ms.len(),
        r is None ==> first_where(ms@, |m: MailboxInfo| role_matches(role@, m.role)) is None,
{
    let ghost p = |m: MailboxInfo| role_matches(role@, m.role);
    let mut i: usize = 0;
    while i < ms.len()
        invariant
            i <= ms.len(),
            p == (|m: MailboxInfo| role_matches(role@, m.role)),
            forall|j: int| 0 <= j < i ==> !p(#[trigger] ms@[j]),
        decreases ms.len() - i,
    {
        if role_matches_exec(role, &ms[i].role) {
            proof {
                lemma_first_where(ms@, p, i as int);
            }
            return Some(i);
        }
        i += 1;
    }
    proof {
        lemma_first_where_none(ms@, p);
    }
    None
}

/// The first mailbox named exactly `name`.
fn find_by_name(ms: &[MailboxInfo], name: &[char]) -> (r: Option<usize>)
    ensures
        r matches Some(i) ==> first_where(ms@, |m: MailboxInfo| name_is(m, name@)) == Some(
            i as int,
        ),
        r matches Some(i) ==> i < ms.len(),
        r is None ==> first_where(ms@, |m: MailboxInfo| name_is(m, name@)) is None,
{
    let ghost p = |m: MailboxInfo| name_is(m, name@);
    let mut i: usize = 0;
    while i < ms.len()
        invariant
            i <= ms.len(),
            p == (|m: MailboxInfo| name_is(m, name@)),
            forall|j: int| 0 <= j < i ==> !p(#[trigger] ms@[j]),
        decreases ms.len() - i,
    {
        if opt_eq(&ms[i].name, name) {
            proof {
                lemma_first_where(ms@, p, i as int);
            }
            return Some(i);
        }
        i += 1;
    }
    proof {
        lemma_first_where_none(ms@, p);
    }
    None
}

/// The first mailbox whose lowercase name is `lower`.
fn find_by_lower_name(ms: &[MailboxInfo], lower: &[char]) -> (r: Option<usize>)
    ensures
        r matches Some(i) ==> first_where(ms@, |m: MailboxInfo| name_lower_is(m, lower@))
            == Some(i as int),
        r matches Some(i) ==> i < ms.len(),
        r is None ==> first_where(ms@, |m: MailboxInfo| name_lower_is(m, lower@)) is None,
{
    let ghost p = |m: MailboxInfo| name_lower_is(m, lower@);
    let mut i: usize = 0;
    while i < ms.len()
        invariant
            i <= ms.len(),
            p == (|m: MailboxInfo| name_lower_is(m, lower@)),
            forall|j: int| 0 <= j < i ==> !p(#[trigger] ms@[j]),
        decreases ms.len() - i,
    {
        if opt_lower_eq(&ms[i].name, lower) {
            proof {
                lemma_first_where(ms@, p, i as int);
            }
            return Some(i);
        }
        i += 1;
    }
    proof {
        lemma_first_where_none(ms@, p);
    }
    None
}

/// The id of the mailbox that the word `s` picks (see `resolve_mailbox_spec`).
pub fn resolve_mailbox_id(s: &str, mailboxes: &[MailboxInfo]) -> (r: Option<String>)
    ensures
        opt_text(r) == resolve_mailbox_spec(s@, mailboxes@),
{
    let needle = trim_chars(&chars_of(s));
    if needle.len() == 0 {
        return None;
    }
    let mut i: usize = 0;
    while i < mailboxes.len()
        invariant
            i <= mailboxes.len(),
            needle@ == trim(s@),
            needle.len() > 0,
            forall|j: int| 0 <= j < i ==> !id_is(#[trigger] mailboxes@[j], needle@),
        decreases mailboxes.len() - i,
    {
        if opt_eq(&mailboxes[i].id, &needle) {
            assert(id_is(mailboxes@[i as int], needle@));
            return Some(string_of(&needle));
        }
        i += 1;
    }
    let lower = lower_chars(&needle);
    let role: Vec<char> = if eq_chars(&lower, &chars_of("spam")) {
        chars_of("junk")
    } else if eq_chars(&lower, &chars_of("bin")) {
        chars_of("trash")
    } else {
        lower_chars(&needle)
    };
    assert(role@ == role_alias(lowercase(needle@)));
    match find_by_role(mailboxes, &role) {
        Some(k) => return opt_clone(&mailboxes[k].id),
        None => {},
    }
    match find_by_name(mailboxes, &needle) {
        Some(k) => return opt_clone(&mailboxes[k].id),
        None => {},
    }
    match find_by_lower_name(mailboxes, &lower) {
        Some(k) => opt_clone(&mailboxes[k].id),
        None => None,
    }
}

/// Which mailbox holds drafts: the first with the `drafts` role, else the first named
/// `Drafts`, else the first whose lowercase name is `drafts`, else `draft`. A rule whose
/// first mailbox has no id gives way to the next rule.
pub open spec fn drafts_mailbox_spec(ms: Seq<MailboxInfo>) -> Option<Seq<char>> {
    let by_role = id_at(ms, first_where(ms, |m: MailboxInfo| m.role is Drafts));
    let by_name = id_at(ms, first_where(ms, |m: MailboxInfo| name_is(m, "Drafts"@)));
    let by_lower = id_at(ms, first_where(ms, |m: MailboxInfo| name_lower_is(m, "drafts"@)));
    let by_singular = id_at(ms, first_where(ms, |m: MailboxInfo| name_lower_is(m, "draft"@)));
    if by_role is Some {
        by_role
    } else if by_name is Some {
        by_name
    } else if by_lower is Some {
        by_lower
    } else {
        by_singular
    }
}

fn find_drafts_role(ms: &[MailboxInfo]) -> (r: Option<usize>)
    ensures
        r matches Some(i) ==> first_where(ms@, |m: MailboxInfo| m.role is Drafts) == Some(
            i as int,
        ),
        r matches Some(i) ==> i < ms.len(),
        r is None ==> first_where(ms@, |m: MailboxInfo| m.role is Drafts) is None,
{
    let ghost p = |m: MailboxInfo| m.role is Drafts;
    let mut i: usize = 0;
    while i < ms.len()
        invariant
            i <= ms.len(),
            p == (|m: MailboxInfo| m.role is Drafts),
            forall|j: int| 0 <= j < i ==> !p(#[trigger] ms@[j]),
        decreases ms.len() - i,
    {
        if matches!(ms[i].role, MailboxRole::Drafts) {
            proof {
                lemma_first_where(ms@, p, i as int);
            }
            return Some(i);
        }
        i += 1;
    }
    proof {
        lemma_first_where_none(ms@, p);
    }
    None
}

fn id_of_found(ms: &[MailboxInfo], k: Option<usize>) -> (r: Option<String>)
    requires
        k matches Some(i) ==> i < ms.len(),
    ensures
        opt_text(r) == id_at(
            ms@,
            match k {
                Some(i) => Some(i as int),
                None => None,
            },
        ),
{
    match k {
        Some(i) => opt_clone(&ms[i].id),
        None => None,
    }
}

/// The id of the drafts mailbox; a configuration error when none is found.
pub fn find_drafts_mailbox_id(mailboxes: &[MailboxInfo]) -> (r: Result<String, XinErrorOut>)
    ensures
        match r {
            Ok(id) => drafts_mailbox_spec(mailboxes@) == Some(id@),
            Err(e) => drafts_mailbox_spec(mailboxes@) is None && e.is_config(
                "drafts mailbox not found"@,
            ),
        },
{
    let by_role = id_of_found(mailboxes, find_drafts_role(mailboxes));
    if let Some(id) = by_role {
        return Ok(id);
    }
    let by_name = id_of_found(mailboxes, find_by_name(mailboxes, &chars_of("Drafts")));
    if let Some(id) = by_name {
        return Ok(id);
    }
    let by_lower = id_of_found(mailboxes, find_by_lower_name(mailboxes, &chars_of("drafts")));
    if let Some(id) = by_lower {
        return Ok(id);
    }
    let by_singular = id_of_found(mailboxes, find_by_lower_name(mailboxes, &chars_of("draft")));
    if let Some(id) = by_singular {
        return Ok(id);
    }
    Err(XinErrorOut::config(owned("drafts mailbox not found")))
}

/// The sort order a `labels modify` asks for: a negative one is refused.
pub fn check_sort_order(sort_order: Option<i32>) -> (r: Result<Option<u32>, XinErrorOut>)
    ensures
        match sort_order {
            Some(v) => if v < 0 {
                r matches Err(e) && e.is_usage("sort-order must be non-negative"@)
            } else {
                r == Ok::<Option<u32>, XinErrorOut>(Some(v as u32))
            },
            None => r == Ok::<Option<u32>, XinErrorOut>(None),
        },
{
    match sort_order {
        Some(v) => if v < 0 {
            Err(XinErrorOut::usage(owned("sort-order must be non-negative")))
        } else {
            Ok(Some(v as u32))
        },
        None => Ok(None),
    }
}

/// The checks of `labels modify`: the sort order must not be negative, and something
/// must change.
pub fn check_mailbox_changes(
    name: &Option<String>,
    parent: &Option<String>,
    sort_order: Option<i32>,
    subscribe: Option<bool>,
) -> (r: Result<Option<u32>, XinErrorOut>)
    ensures
        sort_order matches Some(v) && v < 0 ==> (r matches Err(e) && e.is_usage(
            "sort-order must be non-negative"@,
        )),
        !(sort_order matches Some(v) && v < 0) ==> if name is None && parent is None
            && sort_order is None && subscribe is None {
            r matches Err(e) && e.is_usage("no changes specified"@)
        } else {
            r matches Ok(o) && o == match sort_order {
                Some(v) => Some(v as u32),
                None => None,
            }
        },
{
    let so = match check_sort_order(sort_order) {
        Ok(o) => o,
        Err(e) => return Err(e),
    };
    if name.is_none() && parent.is_none() && so.is_none() && subscribe.is_none() {
        return Err(XinErrorOut::usage(owned("no changes specified")));
    }
    Ok(so)
}

/// The position of the first mailbox with exactly this id.
pub fn find_mailbox_by_id(mailboxes: &[MailboxInfo], id: &str) -> (r: Option<usize>)
    ensures
        match r {
            Some(k) => k < mailboxes@.len() && id_is(mailboxes@[k as int], id@) && forall|j: int|
                0 <= j < k ==> !id_is(#[trigger] mailboxes@[j], id@),
            None => forall|j: int| 0 <= j < mailboxes@.len() ==> !id_is(#[trigger] mailboxes@[j], id@),
        },
{
    let v = chars_of(id);
    let mut i: usize = 0;
    while i < mailboxes.len()
        invariant
            i <= mailboxes.len(),
            v@ == id@,
            forall|j: int| 0 <= j < i ==> !id_is(#[trigger] mailboxes@[j], id@),
        decreases mailboxes.len() - i,
    {
        if opt_eq(&mailboxes[i].id, &v) {
            return Some(i);
        }
        i += 1;
    }
    None
}

/// The mailbox `labels get` shows: the one the word picks (see `resolve_mailbox_spec`),
/// found again by its id; a word that picks none is a usage error naming it.
pub fn lookup_mailbox(mailboxes: &[MailboxInfo], word: &str) -> (r: Result<usize, XinErrorOut>)
    ensures
        match resolve_mailbox_spec(word@, mailboxes@) {
            None => r matches Err(e) && e.is_usage("unknown mailbox: "@ + word@),
            Some(id) => match r {
                Ok(k) => k < mailboxes@.len() && id_is(mailboxes@[k as int], id) && forall|j: int|
                    0 <= j < k ==> !id_is(#[trigger] mailboxes@[j], id),
                Err(e) => (forall|j: int|
                    0 <= j < mailboxes@.len() ==> !id_is(#[trigger] mailboxes@[j], id)) && e.is_usage(
                    "mailbox not found: "@ + id,
                ),
            },
        },
{
    let id = match resolve_mailbox_id(word, mailboxes) {
        Some(id) => id,
        None => {
            let mut m = chars_of("unknown mailbox: ");
            let w = chars_of(word);
            let mut i: usize = 0;
            let ghost m0 = m@;
            while i < w.len()
                invariant
                    i <= w.len(),
                    m@ == m0 + w@.take(i as int),
                decreases w.len() - i,
            {
                m.push(w[i]);
                assert(m0 + w@.take(i as int + 1) =~= (m0 + w@.take(i as int)).push(w@[i as int]));
                i += 1;
            }
            assert(w@.take(w.len() as int) =~= w@);
            return Err(XinErrorOut::usage(string_of(&m)));
        },
    };
    match find_mailbox_by_id(mailboxes, id.as_str()) {
        Some(k) => Ok(k),
        None => Err(XinErrorOut::usage(crate::text::concat_str("mailbox not found: ", id.as_str()))),
    }
}

} // verus!
