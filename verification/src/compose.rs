//! Writing mail: replies (subject, threading headers, recipients), the sending
//! identity, attachments, message bodies, and the checks and plans of the draft commands.
use vstd::prelude::*;

use crate::error::{owned, XinErrorOut};
use crate::mailbox::{
    drafts_mailbox_spec, find_drafts_mailbox_id, opt_text, resolve_mailbox_id,
    resolve_mailbox_spec, MailboxInfo,
};
use crate::organize::{
    extend_strings, modify_plan_spec, no_strings, parse_modify_args_auto, ModifyPlan, PlanView,
};
use crate::paths::{extension_of, file_name_of, path_extension, path_file_name};
use crate::pieces::{
    append_chars, chars_of_all, clone_strings, has_text, join, join_chars, lemma_string_views_push,
    lemma_texts_push, string_views, texts,
};
use crate::seqs::{lemma_take_all, lemma_take_step};
use crate::text::{
    chars_of, concat_str, eq_chars, lower_chars, lowercase, slice_chars, starts_with, string_of,
    trim, trim_chars,
};

verus! {

// ---------------------------------------------------------------- reply subject

/// The subject of a reply: the original subject trimmed; `Re: ` is put in front unless
/// it already starts with `re:` in any case; an empty subject gives `Re:`.
pub open spec fn reply_subject_spec(original: Option<Seq<char>>) -> Seq<char> {
    let t = trim(
        match original {
            Some(s) => s,
            None => Seq::empty(),
        },
    );
    if "re:"@.is_prefix_of(lowercase(t)) {
        t
    } else if t.len() == 0 {
        "Re:"@
    } else {
        "Re: "@ + t
    }
}

/// The default subject of a reply to an email with the given subject.
pub fn default_reply_subject(original_subject: Option<&str>) -> (r: String)
    ensures
        r@ == reply_subject_spec(
            match original_subject {
                Some(s) => Some(s@),
                None => None,
            },
        ),
{
    let s: Vec<char> = match original_subject {
        Some(x) => chars_of(x),
        None => Vec::new(),
    };
    let t = trim_chars(&s);
    let l = lower_chars(&t);
    if starts_with(&l, &chars_of("re:")) {
        string_of(&t)
    } else if t.len() == 0 {
        owned("Re:")
    } else {
        let mut v = chars_of("Re: ");
        append_chars(&mut v, &t);
        string_of(&v)
    }
}

// ---------------------------------------------------------------- reply headers

/// The texts of a list of name/value pairs.
pub open spec fn pair_views(v: Seq<(String, String)>) -> Seq<(Seq<char>, Seq<char>)> {
    v.map_values(|p: (String, String)| (p.0@, p.1@))
}

/// The texts of an optional list of strings.
pub open spec fn opt_strings(o: Option<Vec<String>>) -> Option<Seq<Seq<char>>> {
    match o {
        Some(v) => Some(string_views(v@)),
        None => None,
    }
}

/// The threading headers of a reply, as lists of message ids (the JMAP
/// `asMessageIds` form): `In-Reply-To` is the original's first Message-ID, and
/// `References` is the original's references followed by that id. An original without
/// a Message-ID cannot be replied to.
pub open spec fn reply_headers_spec(
    message_ids: Option<Seq<Seq<char>>>,
    references: Option<Seq<Seq<char>>>,
) -> Result<(Seq<Seq<char>>, Seq<Seq<char>>), Seq<char>> {
    match message_ids {
        Some(ids) if ids.len() > 0 => {
            let id = ids[0];
            let refs = match references {
                Some(r) => r,
                None => Seq::empty(),
            }.push(id);
            Ok((seq![id], refs))
        },
        _ => Err("original email missing Message-ID"@),
    }
}

/// Builds the `In-Reply-To` and `References` message-id lists of a reply.
pub fn build_reply_headers(message_ids: &Option<Vec<String>>, references: &Option<Vec<String>>) -> (r: Result<
    (Vec<String>, Vec<String>),
    XinErrorOut,
>)
    ensures
        match reply_headers_spec(opt_strings(*message_ids), opt_strings(*references)) {
            Ok((irt, refs)) => r matches Ok((a, b)) && string_views(a@) == irt && string_views(b@)
                == refs,
            Err(m) => r matches Err(e) && e.is_usage(m),
        },
{
    let id: String = match message_ids {
        Some(ids) if ids.len() > 0 => {
            assert(string_views(ids@)[0] == ids@[0]@);
            owned(ids[0].as_str())
        },
        _ => return Err(XinErrorOut::usage(owned("original email missing Message-ID"))),
    };
    let mut refs: Vec<String> = match references {
        Some(r) => clone_strings(r),
        None => no_strings(),
    };
    let idc = owned(id.as_str());
    proof {
        lemma_string_views_push(refs@, idc);
    }
    refs.push(idc);
    let mut in_reply_to: Vec<String> = Vec::new();
    proof {
        lemma_string_views_push(in_reply_to@, id);
        assert(string_views(in_reply_to@) =~= Seq::<Seq<char>>::empty());
    }
    in_reply_to.push(id);
    assert(string_views(in_reply_to@) =~= seq![in_reply_to@[0]@]);
    Ok((in_reply_to, refs))
}

// ---------------------------------------------------------------- reply recipients

/// The position of the last `c` in `s`, if any.
pub open spec fn last_index(s: Seq<char>, c: char) -> Option<int>
    decreases s.len(),
{
    if s.len() == 0 {
        None
    } else if s.last() == c {
        Some(s.len() - 1)
    } else {
        last_index(s.drop_last(), c)
    }
}

/// The address in `s`: the text between the last `<` and the last `>` when the `<`
/// comes first, trimmed; otherwise all of `s`, trimmed.
pub open spec fn extract_email_spec(s: Seq<char>) -> Seq<char> {
    match (last_index(s, '<'), last_index(s, '>')) {
        (Some(l), Some(r)) if l < r => trim(s.subrange(l + 1, r)),
        _ => trim(s),
    }
}

/// The key by which two recipients count as the same: the lowercased address.
pub open spec fn addr_key(s: Seq<char>) -> Seq<char> {
    lowercase(extract_email_spec(s))
}

proof fn lemma_last_index(s: Seq<char>, c: char)
    ensures
        last_index(s, c) matches Some(i) ==> 0 <= i < s.len() && s[i] == c,
    decreases s.len(),
{
    if s.len() > 0 && s.last() != c {
        lemma_last_index(s.drop_last(), c);
    }
}

fn rfind(v: &[char], c: char) -> (r: Option<usize>)
    ensures
        match last_index(v@, c) {
            Some(i) => r == Some(i as usize),
            None => r is None,
        },
{
    let mut k: usize = v.len();
    assert(v@.take(v.len() as int) =~= v@);
    while k > 0
        invariant
            k <= v.len(),
            last_index(v@, c) == last_index(v@.take(k as int), c),
        decreases k,
    {
        if v[k - 1] == c {
            return Some(k - 1);
        }
        assert(v@.take(k as int).drop_last() =~= v@.take(k as int - 1));
        k -= 1;
    }
    None
}

/// The address part of a recipient.
pub fn extract_email(s: &str) -> (r: Vec<char>)
    ensures
        r@ == extract_email_spec(s@),
{
    let v = chars_of(s);
    proof {
        lemma_last_index(v@, '<');
        lemma_last_index(v@, '>');
    }
    match (rfind(&v, '<'), rfind(&v, '>')) {
        (Some(l), Some(r)) if l < r => trim_chars(&slice_chars(&v, l + 1, r)),
        _ => trim_chars(&v),
    }
}

/// The recipient key of `s`.
pub fn recipient_key(s: &str) -> (r: Vec<char>)
    ensures
        r@ == addr_key(s@),
{
    lower_chars(&extract_email(s))
}

/// Adds each of `raws` to `list` whose key is neither seen yet nor (when given) the
/// excluded key; the keys of the added ones become seen.
pub open spec fn add_unique(
    list: Seq<Seq<char>>,
    seen: Seq<Seq<char>>,
    raws: Seq<Seq<char>>,
    excluded: Option<Seq<char>>,
) -> (Seq<Seq<char>>, Seq<Seq<char>>)
    decreases raws.len(),
{
    if raws.len() == 0 {
        (list, seen)
    } else {
        let (l, s) = add_unique(list, seen, raws.drop_last(), excluded);
        let r = raws.last();
        let k = addr_key(r);
        if (excluded matches Some(x) && k == x) || s.contains(k) {
            (l, s)
        } else {
            (l.push(r), s.push(k))
        }
    }
}

/// The original email's address lists, as plain addresses.
#[derive(Debug)]
pub struct ReplySource {
    pub reply_to: Option<Vec<String>>,
    pub from: Option<Vec<String>>,
    pub to: Option<Vec<String>>,
    pub cc: Option<Vec<String>>,
}

/// The recipients of a reply. Given `--to` recipients are kept as they are; without
/// them, `To` is inferred from the original's Reply-To (preferred) or From. With
/// reply-all, the original's To and Cc join `Cc`, except the sender's own address.
/// A recipient whose address (compared in lowercase) is already present is not added again.
pub open spec fn reply_recipients_spec(
    reply_to: Option<Seq<Seq<char>>>,
    from: Option<Seq<Seq<char>>>,
    orig_to: Option<Seq<Seq<char>>>,
    orig_cc: Option<Seq<Seq<char>>>,
    reply_all: bool,
    override_to: Seq<Seq<char>>,
    override_cc: Seq<Seq<char>>,
    self_email: Seq<char>,
) -> (Seq<Seq<char>>, Seq<Seq<char>>) {
    let seen0 = (override_to + override_cc).map_values(|r: Seq<char>| addr_key(r));
    let (to, seen1) = if override_to.len() == 0 {
        match reply_to {
            Some(v) => add_unique(override_to, seen0, v, None),
            None => match from {
                Some(v) => add_unique(override_to, seen0, v, None),
                None => (override_to, seen0),
            },
        }
    } else {
        (override_to, seen0)
    };
    if reply_all {
        let self_key = lowercase(self_email);
        let (cc1, seen2) = add_unique(
            override_cc,
            seen1,
            match orig_to {
                Some(v) => v,
                None => Seq::empty(),
            },
            Some(self_key),
        );
        let (cc2, _) = add_unique(
            cc1,
            seen2,
            match orig_cc {
                Some(v) => v,
                None => Seq::empty(),
            },
            Some(self_key),
        );
        (to, cc2)
    } else {
        (to, override_cc)
    }
}

/// The keys of the given recipients.
fn keys_of(v: &Vec<String>) -> (r: Vec<Vec<char>>)
    ensures
        texts(r@) == string_views(v@).map_values(|x: Seq<char>| addr_key(x)),
{
    let mut r: Vec<Vec<char>> = Vec::new();
    let mut i: usize = 0;
    while i < v.len()
        invariant
            i <= v.len(),
            texts(r@) == string_views(v@).take(i as int).map_values(|x: Seq<char>| addr_key(x)),
        decreases v.len() - i,
    {
        let k = recipient_key(v[i].as_str());
        proof {
            lemma_texts_push(r@, k);
            lemma_take_step(string_views(v@), i as int);
            assert(string_views(v@).take(i as int + 1).map_values(|x: Seq<char>| addr_key(x))
                =~= string_views(v@).take(i as int).map_values(|x: Seq<char>| addr_key(x)).push(
                addr_key(v@[i as int]@),
            ));
        }
        r.push(k);
        i += 1;
    }
    proof {
        lemma_take_all(string_views(v@));
    }
    r
}

/// Adds the recipients of `raws` as `add_unique` does.
fn add_unique_exec(
    list: &mut Vec<String>,
    seen: &mut Vec<Vec<char>>,
    raws: &Vec<String>,
    excluded: &Option<Vec<char>>,
)
    ensures
        (string_views(final(list)@), texts(final(seen)@)) == add_unique(
            string_views(old(list)@),
            texts(old(seen)@),
            string_views(raws@),
            match excluded {
                Some(x) => Some(x@),
                None => None,
            },
        ),
{
    let ghost l0 = string_views(list@);
    let ghost s0 = texts(seen@);
    let ghost rv = string_views(raws@);
    let ghost ex = match excluded {
        Some(x) => Some(x@),
        None => None::<Seq<char>>,
    };
    let mut i: usize = 0;
    proof {
        assert(rv.take(0) =~= Seq::<Seq<char>>::empty());
    }
    while i < raws.len()
        invariant
            i <= raws.len(),
            rv == string_views(raws@),
            ex == match excluded {
                Some(x) => Some(x@),
                None => None::<Seq<char>>,
            },
            (string_views(list@), texts(seen@)) == add_unique(l0, s0, rv.take(i as int), ex),
        decreases raws.len() - i,
    {
        proof {
            lemma_take_step(rv, i as int);
        }
        let r = raws[i].as_str();
        let k = recipient_key(r);
        let is_excluded = match excluded {
            Some(x) => eq_chars(&k, x),
            None => false,
        };
        if !is_excluded && !has_text(seen, &k) {
            let c = owned(r);
            proof {
                lemma_string_views_push(list@, c);
                lemma_texts_push(seen@, k);
            }
            list.push(c);
            seen.push(k);
        }
        i += 1;
    }
    proof {
        lemma_take_all(rv);
    }
}

fn opt_list<'a>(o: &'a Option<Vec<String>>, empty: &'a Vec<String>) -> (r: &'a Vec<String>)
    requires
        empty@.len() == 0,
    ensures
        string_views(r@) == match opt_strings(*o) {
            Some(v) => v,
            None => Seq::empty(),
        },
{
    match o {
        Some(v) => v,
        None => {
            assert(string_views(empty@) =~= Seq::<Seq<char>>::empty());
            empty
        },
    }
}

/// The `To` and `Cc` recipients of a reply.
pub fn infer_reply_recipients(
    original: &ReplySource,
    reply_all: bool,
    override_to: &Vec<String>,
    override_cc: &Vec<String>,
    self_email: &str,
) -> (r: (Vec<String>, Vec<String>))
    ensures
        (string_views(r.0@), string_views(r.1@)) == reply_recipients_spec(
            opt_strings(original.reply_to),
            opt_strings(original.from),
            opt_strings(original.to),
            opt_strings(original.cc),
            reply_all,
            string_views(override_to@),
            string_views(override_cc@),
            self_email@,
        ),
{
    let mut to = clone_strings(override_to);
    let mut cc = clone_strings(override_cc);
    let mut both = clone_strings(override_to);
    extend_strings(&mut both, clone_strings(override_cc));
    let mut seen = keys_of(&both);
    assert(string_views(both@) == string_views(override_to@) + string_views(override_cc@));
    let empty: Vec<String> = Vec::new();
    let none: Option<Vec<char>> = None;
    if override_to.len() == 0 {
        match &original.reply_to {
            Some(v) => add_unique_exec(&mut to, &mut seen, v, &none),
            None => match &original.from {
                Some(v) => add_unique_exec(&mut to, &mut seen, v, &none),
                None => {},
            },
        }
    }
    if reply_all {
        let self_key = Some(lower_chars(&chars_of(self_email)));
        add_unique_exec(&mut cc, &mut seen, opt_list(&original.to, &empty), &self_key);
        add_unique_exec(&mut cc, &mut seen, opt_list(&original.cc, &empty), &self_key);
    }
    (to, cc)
}

/// The recipients of a reply as `reply` uses them: without a `To` recipient there is
/// nobody to reply to, which is a usage error.
pub fn reply_recipients(
    original: &ReplySource,
    reply_all: bool,
    override_to: &Vec<String>,
    override_cc: &Vec<String>,
    self_email: &str,
) -> (r: Result<(Vec<String>, Vec<String>), XinErrorOut>)
    ensures
        ({
            let (to, cc) = reply_recipients_spec(
                opt_strings(original.reply_to),
                opt_strings(original.from),
                opt_strings(original.to),
                opt_strings(original.cc),
                reply_all,
                string_views(override_to@),
                string_views(override_cc@),
                self_email@,
            );
            if to.len() == 0 {
                r matches Err(e) && e.is_usage("could not infer reply recipients (provide --to)"@)
            } else {
                r matches Ok((t, c)) && string_views(t@) == to && string_views(c@) == cc
            }
        }),
{
    let (to, cc) = infer_reply_recipients(original, reply_all, override_to, override_cc, self_email);
    if to.len() == 0 {
        Err(XinErrorOut::usage(owned("could not infer reply recipients (provide --to)")))
    } else {
        Ok((to, cc))
    }
}

/// What `add_unique` adds: nothing twice, nothing already seen, never the excluded key.
pub proof fn law_add_unique_adds_new_keys(
    list: Seq<Seq<char>>,
    seen: Seq<Seq<char>>,
    raws: Seq<Seq<char>>,
    excluded: Option<Seq<char>>,
)
    ensures
        ({
            let (l, s) = add_unique(list, seen, raws, excluded);
            &&& l.len() - list.len() == s.len() - seen.len()
            &&& l.len() >= list.len()
            &&& l.take(list.len() as int) == list
            &&& s.take(seen.len() as int) == seen
            &&& forall|i: int|
                list.len() <= i < l.len() ==> addr_key(#[trigger] l[i]) == s[seen.len() + i
                    - list.len()]
            &&& forall|i: int, j: int|
                0 <= i < seen.len() && seen.len() <= j < s.len() ==> #[trigger] s[i]
                    != #[trigger] s[j]
            &&& forall|i: int, j: int|
                seen.len() <= i < j < s.len() ==> #[trigger] s[i] != #[trigger] s[j]
            &&& forall|j: int|
                seen.len() <= j < s.len() ==> !(excluded matches Some(x) && #[trigger] s[j] == x)
        }),
    decreases raws.len(),
{
    if raws.len() > 0 {
        law_add_unique_adds_new_keys(list, seen, raws.drop_last(), excluded);
        let (l, s) = add_unique(list, seen, raws.drop_last(), excluded);
        let r = raws.last();
        let k = addr_key(r);
        if !((excluded matches Some(x) && k == x) || s.contains(k)) {
            assert(l.push(r).take(list.len() as int) =~= l.take(list.len() as int));
            assert(s.push(k).take(seen.len() as int) =~= s.take(seen.len() as int));
            assert forall|i: int| 0 <= i < s.len() implies #[trigger] s.push(k)[i] != k by {
                if s[i] == k {
                    assert(s.contains(k));
                }
            }
        }
    }
}

/// A reply-all never copies the sender: every `Cc` recipient that the reply adds to the
/// given ones has an address other than the sender's, and none repeats an address
/// already among the recipients.
pub proof fn law_reply_all_never_copies_self(
    reply_to: Option<Seq<Seq<char>>>,
    from: Option<Seq<Seq<char>>>,
    orig_to: Option<Seq<Seq<char>>>,
    orig_cc: Option<Seq<Seq<char>>>,
    override_to: Seq<Seq<char>>,
    override_cc: Seq<Seq<char>>,
    self_email: Seq<char>,
)
    ensures
        ({
            let (to, cc) = reply_recipients_spec(
                reply_to,
                from,
                orig_to,
                orig_cc,
                true,
                override_to,
                override_cc,
                self_email,
            );
            &&& cc.take(override_cc.len() as int) == override_cc
            &&& forall|i: int|
                override_cc.len() <= i < cc.len() ==> addr_key(#[trigger] cc[i]) != lowercase(
                    self_email,
                )
        }),
{
    let seen0 = (override_to + override_cc).map_values(|r: Seq<char>| addr_key(r));
    let (to, seen1) = if override_to.len() == 0 {
        match reply_to {
            Some(v) => add_unique(override_to, seen0, v, None),
            None => match from {
                Some(v) => add_unique(override_to, seen0, v, None),
                None => (override_to, seen0),
            },
        }
    } else {
        (override_to, seen0)
    };
    let self_key = lowercase(self_email);
    let t = match orig_to {
        Some(v) => v,
        None => Seq::empty(),
    };
    let c = match orig_cc {
        Some(v) => v,
        None => Seq::empty(),
    };
    let (cc1, seen2) = add_unique(override_cc, seen1, t, Some(self_key));
    law_add_unique_adds_new_keys(override_cc, seen1, t, Some(self_key));
    law_add_unique_adds_new_keys(cc1, seen2, c, Some(self_key));
    let (cc2, seen3) = add_unique(cc1, seen2, c, Some(self_key));
    assert forall|i: int| override_cc.len() <= i < cc2.len() implies addr_key(#[trigger] cc2[i])
        != self_key by {
        if i < cc1.len() {
            assert(cc2[i] == cc1[i]) by {
                assert(cc2.take(cc1.len() as int)[i] == cc1[i]);
            }
            assert(addr_key(cc1[i]) == seen2[seen1.len() + i - override_cc.len()]);
        } else {
            assert(addr_key(cc2[i]) == seen3[seen2.len() + i - cc1.len()]);
        }
    }
    assert(cc2.take(override_cc.len() as int) =~= override_cc) by {
        assert(cc1.take(override_cc.len() as int) == override_cc);
        assert(cc2.take(cc1.len() as int) == cc1);
        assert forall|i: int| 0 <= i < override_cc.len() implies cc2[i] == override_cc[i] by {
            assert(cc2.take(cc1.len() as int)[i] == cc1[i]);
            assert(cc1.take(override_cc.len() as int)[i] == override_cc[i]);
        }
    }
}

// ---------------------------------------------------------------- identities

/// What the commands read of a sending identity.
#[derive(Debug)]
pub struct IdentityInfo {
    pub id: Option<String>,
    pub name: Option<String>,
    pub email: Option<String>,
}

/// Whether the identity has exactly this id.
pub open spec fn identity_id_is(i: IdentityInfo, sel: Seq<char>) -> bool {
    i.id matches Some(x) && x@ == sel
}

/// Whether the identity's email matches `sel` case-insensitively.
pub open spec fn identity_email_like(i: IdentityInfo, sel: Seq<char>) -> bool {
    i.email matches Some(x) && lowercase(x@) == lowercase(sel)
}

/// Whether the identity's email is exactly `sel`.
pub open spec fn identity_email_is(i: IdentityInfo, sel: Seq<char>) -> bool {
    i.email matches Some(x) && x@ == sel
}

/// The identity a selector picks: none given means the first identity; otherwise the
/// first with that id, else the first whose email matches it case-insensitively.
pub open spec fn pick_identity_spec(ids: Seq<IdentityInfo>, selector: Option<Seq<char>>) -> Result<
    int,
    (bool, Seq<char>),
> {
    match selector {
        None => if ids.len() > 0 {
            Ok(0)
        } else {
            Err((false, "no identities available"@))
        },
        Some(sel) => if exists|i: int| 0 <= i < ids.len() && identity_id_is(ids[i], sel) {
            Ok(
                choose|i: int|
                    0 <= i < ids.len() && identity_id_is(ids[i], sel) && forall|j: int|
                        0 <= j < i ==> !identity_id_is(#[trigger] ids[j], sel),
            )
        } else if exists|i: int| 0 <= i < ids.len() && identity_email_like(ids[i], sel) {
            Ok(
                choose|i: int|
                    0 <= i < ids.len() && identity_email_like(ids[i], sel) && forall|j: int|
                        0 <= j < i ==> !identity_email_like(#[trigger] ids[j], sel),
            )
        } else {
            Err(
                (
                    true,
                    "unknown identity: "@ + sel
                        + " (use `xin identities list` to see available identities)"@,
                ),
            )
        },
    }
}

/// The sending identity: its id, display name and email address.
/// `(true, m)` errors are usage errors, `(false, m)` configuration errors.
pub open spec fn resolve_identity_spec(ids: Seq<IdentityInfo>, selector: Option<Seq<char>>) -> Result<
    (Seq<char>, Option<Seq<char>>, Seq<char>),
    (bool, Seq<char>),
> {
    match pick_identity_spec(ids, selector) {
        Err(e) => Err(e),
        Ok(k) => match (ids[k].id, ids[k].email) {
            (None, _) => Err((false, "identity missing id"@)),
            (Some(_), None) => Err((false, "identity missing email"@)),
            (Some(id), Some(email)) => Ok((id@, opt_text(ids[k].name), email@)),
        },
    }
}

fn first_identity_with(ids: &Vec<IdentityInfo>, sel: &[char], by_email: bool) -> (r: Option<usize>)
    ensures
        match r {
            Some(k) => k < ids.len() && (if by_email {
                identity_email_like(ids@[k as int], sel@)
            } else {
                identity_id_is(ids@[k as int], sel@)
            }) && forall|j: int|
                0 <= j < k ==> !(if by_email {
                    identity_email_like(#[trigger] ids@[j], sel@)
                } else {
                    identity_id_is(#[trigger] ids@[j], sel@)
                }),
            None => forall|j: int|
                0 <= j < ids.len() ==> !(if by_email {
                    identity_email_like(#[trigger] ids@[j], sel@)
                } else {
                    identity_id_is(#[trigger] ids@[j], sel@)
                }),
        },
{
    let lsel = lower_chars(sel);
    let mut i: usize = 0;
    while i < ids.len()
        invariant
            i <= ids.len(),
            lsel@ == lowercase(sel@),
            forall|j: int|
                0 <= j < i ==> !(if by_email {
                    identity_email_like(#[trigger] ids@[j], sel@)
                } else {
                    identity_id_is(#[trigger] ids@[j], sel@)
                }),
        decreases ids.len() - i,
    {
        let hit = if by_email {
            match &ids[i].email {
                Some(e) => eq_chars(&lower_chars(&chars_of(e.as_str())), &lsel),
                None => false,
            }
        } else {
            match &ids[i].id {
                Some(x) => eq_chars(&chars_of(x.as_str()), sel),
                None => false,
            }
        };
        if hit {
            return Some(i);
        }
        i += 1;
    }
    None
}

fn opt_clone_text(o: &Option<String>) -> (r: Option<String>)
    ensures
        opt_text(r) == opt_text(*o),
{
    match o {
        Some(s) => Some(owned(s.as_str())),
        None => None,
    }
}

/// The sending identity for a selector (an identity id or email).
pub fn resolve_identity(identities: &Vec<IdentityInfo>, selector: Option<&str>) -> (r: Result<
    (String, Option<String>, String),
    XinErrorOut,
>)
    ensures
        match resolve_identity_spec(
            identities@,
            match selector {
                Some(s) => Some(s@),
                None => None,
            },
        ) {
            Ok((id, name, email)) => r matches Ok((i, n, e)) && i@ == id && opt_text(n) == name
                && e@ == email,
            Err((true, m)) => r matches Err(e) && e.is_usage(m),
            Err((false, m)) => r matches Err(e) && e.is_config(m),
        },
{
    let k: usize = match selector {
        None => {
            if identities.len() == 0 {
                return Err(XinErrorOut::config(owned("no identities available")));
            }
            0
        },
        Some(sel) => {
            let sc = chars_of(sel);
            match first_identity_with(identities, &sc, false) {
                Some(k) => {
                    proof {
                        assert(exists|i: int|
                            0 <= i < identities@.len() && identity_id_is(identities@[i], sel@));
                        let c = choose|i: int|
                            0 <= i < identities@.len() && identity_id_is(identities@[i], sel@)
                                && forall|j: int|
                                0 <= j < i ==> !identity_id_is(#[trigger] identities@[j], sel@);
                        if c < k {
                        } else if c > k {
                            assert(!identity_id_is(identities@[k as int], sel@));
                        }
                    }
                    k
                },
                None => match first_identity_with(identities, &sc, true) {
                    Some(k) => {
                        proof {
                            assert(exists|i: int|
                                0 <= i < identities@.len() && identity_email_like(
                                    identities@[i],
                                    sel@,
                                ));
                            let c = choose|i: int|
                                0 <= i < identities@.len() && identity_email_like(
                                    identities@[i],
                                    sel@,
                                ) && forall|j: int|
                                    0 <= j < i ==> !identity_email_like(
                                        #[trigger] identities@[j],
                                        sel@,
                                    );
                            if c < k {
                            } else if c > k {
                                assert(!identity_email_like(identities@[k as int], sel@));
                            }
                        }
                        k
                    },
                    None => {
                        let mut m = chars_of("unknown identity: ");
                        append_chars(&mut m, &sc);
                        append_chars(
                            &mut m,
                            &chars_of(" (use `xin identities list` to see available identities)"),
                        );
                        return Err(XinErrorOut::usage(string_of(&m)));
                    },
                },
            }
        },
    };
    let idt = &identities[k];
    let id = match &idt.id {
        Some(x) => owned(x.as_str()),
        None => return Err(XinErrorOut::config(owned("identity missing id"))),
    };
    let email = match &idt.email {
        Some(x) => owned(x.as_str()),
        None => return Err(XinErrorOut::config(owned("identity missing email"))),
    };
    Ok((id, opt_clone_text(&idt.name), email))
}

/// The identity `identities get` shows: the first whose id or email is exactly `sel`.
pub open spec fn find_identity_spec(ids: Seq<IdentityInfo>, sel: Seq<char>) -> Option<int> {
    if exists|i: int| 0 <= i < ids.len() && (identity_id_is(ids[i], sel) || identity_email_is(ids[i], sel)) {
        Some(
            choose|i: int|
                0 <= i < ids.len() && (identity_id_is(ids[i], sel) || identity_email_is(ids[i], sel))
                    && forall|j: int|
                    0 <= j < i ==> !(identity_id_is(#[trigger] ids[j], sel) || identity_email_is(
                        ids[j],
                        sel,
                    )),
        )
    } else {
        None
    }
}

/// The position of the identity `identities get` shows, or the usage error naming `sel`.
pub fn find_identity(identities: &Vec<IdentityInfo>, sel: &str) -> (r: Result<usize, XinErrorOut>)
    ensures
        match find_identity_spec(identities@, sel@) {
            Some(k) => r == Ok::<usize, XinErrorOut>(k as usize),
            None => r matches Err(e) && e.is_usage(
                "identity not found: "@ + sel@ + " (use `xin identities list`)"@,
            ),
        },
{
    let sc = chars_of(sel);
    let mut i: usize = 0;
    while i < identities.len()
        invariant
            i <= identities.len(),
            sc@ == sel@,
            forall|j: int|
                0 <= j < i ==> !(identity_id_is(#[trigger] identities@[j], sel@)
                    || identity_email_is(identities@[j], sel@)),
        decreases identities.len() - i,
    {
        let by_id = match &identities[i].id {
            Some(x) => eq_chars(&chars_of(x.as_str()), &sc),
            None => false,
        };
        let by_email = match &identities[i].email {
            Some(x) => eq_chars(&chars_of(x.as_str()), &sc),
            None => false,
        };
        if by_id || by_email {
            proof {
                let ids = identities@;
                let c = choose|c: int|
                    0 <= c < ids.len() && (identity_id_is(ids[c], sel@) || identity_email_is(
                        ids[c],
                        sel@,
                    )) && forall|j: int|
                        0 <= j < c ==> !(identity_id_is(#[trigger] ids[j], sel@)
                            || identity_email_is(ids[j], sel@));
                if c > i {
                    assert(!(identity_id_is(ids[i as int], sel@) || identity_email_is(
                        ids[i as int],
                        sel@,
                    )));
                }
            }
            return Ok(i);
        }
        i += 1;
    }
    let mut m = chars_of("identity not found: ");
    append_chars(&mut m, &sc);
    append_chars(&mut m, &chars_of(" (use `xin identities list`)"));
    Err(XinErrorOut::usage(string_of(&m)))
}

// ---------------------------------------------------------------- attachments

/// A blob uploaded for an attachment.
#[derive(Debug)]
pub struct UploadedBlob {
    pub blob_id: String,
    pub content_type: String,
    pub size: usize,
    pub name: Option<String>,
}

/// The file name to give an attachment read from `path`.
pub fn infer_filename(path: &str) -> (r: Option<String>)
    ensures
        opt_text(r) == path_file_name(path@),
{
    file_name_of(path)
}

/// The content type known for a lowercase file extension.
pub open spec fn content_type_for_ext(ext: Seq<char>) -> Option<Seq<char>> {
    if ext == "txt"@ {
        Some("text/plain"@)
    } else if ext == "md"@ {
        Some("text/markdown"@)
    } else if ext == "html"@ || ext == "htm"@ {
        Some("text/html"@)
    } else if ext == "json"@ {
        Some("application/json"@)
    } else if ext == "pdf"@ {
        Some("application/pdf"@)
    } else if ext == "png"@ {
        Some("image/png"@)
    } else if ext == "jpg"@ || ext == "jpeg"@ {
        Some("image/jpeg"@)
    } else {
        None
    }
}

/// The content type guessed from the path's extension (compared in lowercase), if known.
pub open spec fn guess_content_type_spec(path: Seq<char>) -> Option<Seq<char>> {
    content_type_for_ext(
        lowercase(
            match path_extension(path) {
                Some(e) => e,
                None => ""@,
            },
        ),
    )
}

/// Guesses an attachment's content type from its file extension.
pub fn guess_content_type(path: &str) -> (r: Option<String>)
    ensures
        opt_text(r) == guess_content_type_spec(path@),
{
    let ext = match extension_of(path) {
        Some(e) => e,
        None => owned(""),
    };
    let l = lower_chars(&chars_of(ext.as_str()));
    if eq_chars(&l, &chars_of("txt")) {
        Some(owned("text/plain"))
    } else if eq_chars(&l, &chars_of("md")) {
        Some(owned("text/markdown"))
    } else if eq_chars(&l, &chars_of("html")) || eq_chars(&l, &chars_of("htm")) {
        Some(owned("text/html"))
    } else if eq_chars(&l, &chars_of("json")) {
        Some(owned("application/json"))
    } else if eq_chars(&l, &chars_of("pdf")) {
        Some(owned("application/pdf"))
    } else if eq_chars(&l, &chars_of("png")) {
        Some(owned("image/png"))
    } else if eq_chars(&l, &chars_of("jpg")) || eq_chars(&l, &chars_of("jpeg")) {
        Some(owned("image/jpeg"))
    } else {
        None
    }
}

/// The content type to upload an attachment with: the guess, else `application/octet-stream`.
pub fn attachment_content_type(path: &str) -> (r: String)
    ensures
        r@ == match guess_content_type_spec(path@) {
            Some(t) => t,
            None => "application/octet-stream"@,
        },
{
    match guess_content_type(path) {
        Some(t) => t,
        None => owned("application/octet-stream"),
    }
}

/// A body part of an existing email as read for reuse.
#[derive(Debug)]
pub struct PartInfo {
    pub blob_id: Option<String>,
    pub content_type: Option<String>,
    pub size: usize,
    pub name: Option<String>,
}

/// The attachments of an existing draft that can be carried over: those with a blob id
/// and a content type, in order.
pub open spec fn reusable_attachments_spec(parts: Seq<PartInfo>) -> Seq<(Seq<char>, Seq<char>, usize, Option<Seq<char>>)>
    decreases parts.len(),
{
    if parts.len() == 0 {
        Seq::empty()
    } else {
        let r = reusable_attachments_spec(parts.drop_last());
        let p = parts.last();
        match (p.blob_id, p.content_type) {
            (Some(b), Some(t)) => r.push((b@, t@, p.size, opt_text(p.name))),
            _ => r,
        }
    }
}

/// The meaning of uploaded blobs.
pub open spec fn blob_views(v: Seq<UploadedBlob>) -> Seq<(Seq<char>, Seq<char>, usize, Option<Seq<char>>)> {
    v.map_values(|b: UploadedBlob| (b.blob_id@, b.content_type@, b.size, opt_text(b.name)))
}

/// The attachments of an existing draft to carry over.
pub fn reusable_attachments(parts: &Vec<PartInfo>) -> (r: Vec<UploadedBlob>)
    ensures
        blob_views(r@) == reusable_attachments_spec(parts@),
{
    let mut out: Vec<UploadedBlob> = Vec::new();
    let mut i: usize = 0;
    proof {
        assert(parts@.take(0) =~= Seq::<PartInfo>::empty());
        assert(blob_views(out@) =~= Seq::empty());
    }
    while i < parts.len()
        invariant
            i <= parts.len(),
            blob_views(out@) == reusable_attachments_spec(parts@.take(i as int)),
        decreases parts.len() - i,
    {
        proof {
            lemma_take_step(parts@, i as int);
        }
        let p = &parts[i];
        match (&p.blob_id, &p.content_type) {
            (Some(b), Some(t)) => {
                let blob = UploadedBlob {
                    blob_id: owned(b.as_str()),
                    content_type: owned(t.as_str()),
                    size: p.size,
                    name: opt_clone_text(&p.name),
                };
                let ghost before = out@;
                out.push(blob);
                assert(blob_views(out@) =~= blob_views(before).push(
                    (b@, t@, p.size, opt_text(p.name)),
                ));
            },
            _ => {},
        }
        i += 1;
    }
    proof {
        lemma_take_all(parts@);
    }
    out
}

fn clone_blob(b: &UploadedBlob) -> (r: UploadedBlob)
    ensures
        (r.blob_id@, r.content_type@, r.size, opt_text(r.name)) == (
            b.blob_id@,
            b.content_type@,
            b.size,
            opt_text(b.name),
        ),
{
    UploadedBlob {
        blob_id: owned(b.blob_id.as_str()),
        content_type: owned(b.content_type.as_str()),
        size: b.size,
        name: opt_clone_text(&b.name),
    }
}

/// A copy of the blobs.
pub fn clone_blobs(v: &Vec<UploadedBlob>) -> (r: Vec<UploadedBlob>)
    ensures
        blob_views(r@) == blob_views(v@),
{
    let mut out: Vec<UploadedBlob> = Vec::new();
    let mut i: usize = 0;
    while i < v.len()
        invariant
            i <= v.len(),
            blob_views(out@) == blob_views(v@).take(i as int),
        decreases v.len() - i,
    {
        let b = clone_blob(&v[i]);
        let ghost before = out@;
        out.push(b);
        proof {
            lemma_take_step(blob_views(v@), i as int);
            assert(blob_views(out@) =~= blob_views(before).push(blob_views(v@)[i as int]));
        }
        i += 1;
    }
    proof {
        lemma_take_all(blob_views(v@));
    }
    out
}

// ---------------------------------------------------------------- bodies

/// The readable part of a message body.
#[derive(Clone, Copy, PartialEq, Eq, Structural, Debug)]
pub enum BodyCore {
    /// A single `text/plain` part (part id `text`).
    Text,
    /// A single `text/html` part (part id `html`).
    Html,
    /// `multipart/alternative` with the `text` and `html` parts.
    Alternative,
}

/// The structure of a message body: its readable part, and when there are attachments,
/// a `multipart/mixed` root holding the readable part and then one part per attachment.
#[derive(Debug)]
pub struct EmailBody {
    pub core: BodyCore,
    /// One part per attachment, after the readable part.
    pub attachments: Vec<AttachmentPart>,
    /// The values of the readable parts, by part id.
    pub values: Vec<(String, String)>,
}

/// The body part of one attachment: its blob, type and file name, with the
/// disposition `attachment`.
#[derive(Debug)]
pub struct AttachmentPart {
    pub blob_id: String,
    pub content_type: String,
    pub name: Option<String>,
    pub disposition: String,
}

/// The meaning of attachment parts.
pub open spec fn part_views(v: Seq<AttachmentPart>) -> Seq<(Seq<char>, Seq<char>, Option<Seq<char>>, Seq<char>)> {
    v.map_values(|p: AttachmentPart| (p.blob_id@, p.content_type@, opt_text(p.name), p.disposition@))
}

/// The parts for uploaded attachments, in order: each names its blob, type and file
/// name, with the disposition `attachment`.
pub open spec fn attachment_parts_spec(v: Seq<UploadedBlob>) -> Seq<(Seq<char>, Seq<char>, Option<Seq<char>>, Seq<char>)> {
    v.map_values(|b: UploadedBlob| (b.blob_id@, b.content_type@, opt_text(b.name), "attachment"@))
}

/// The parts for uploaded attachments.
pub fn attachment_parts(v: &Vec<UploadedBlob>) -> (r: Vec<AttachmentPart>)
    ensures
        part_views(r@) == attachment_parts_spec(v@),
{
    let mut r: Vec<AttachmentPart> = Vec::new();
    let mut i: usize = 0;
    while i < v.len()
        invariant
            i <= v.len(),
            r@.len() == i,
            part_views(r@) == attachment_parts_spec(v@.take(i as int)),
        decreases v.len() - i,
    {
        let p = AttachmentPart {
            blob_id: owned(v[i].blob_id.as_str()),
            content_type: owned(v[i].content_type.as_str()),
            name: match &v[i].name {
                Some(n) => Some(owned(n.as_str())),
                None => None,
            },
            disposition: owned("attachment"),
        };
        let ghost before = r@;
        r.push(p);
        proof {
            reveal_strlit("attachment");
            lemma_take_step(v@, i as int);
            assert(r@ =~= before.push(r@[i as int]));
            assert(part_views(r@) =~= part_views(before).push(
                (r@[i as int].blob_id@, r@[i as int].content_type@, opt_text(r@[i as int].name), r@[i as int].disposition@),
            ));
            assert(attachment_parts_spec(v@.take(i as int + 1)) =~= attachment_parts_spec(v@.take(i as int)).push(
                (v@[i as int].blob_id@, v@[i as int].content_type@, opt_text(v@[i as int].name), "attachment"@),
            ));
        }
        i += 1;
    }
    assert(v@.take(v.len() as int) =~= v@);
    r
}

/// The readable part and the body values for the given text and HTML bodies. Without
/// either there is an empty text part.
pub open spec fn body_spec(text: Option<Seq<char>>, html: Option<Seq<char>>) -> (BodyCore, Seq<(Seq<char>, Seq<char>)>) {
    match (text, html) {
        (Some(t), Some(h)) => (BodyCore::Alternative, seq![("text"@, t), ("html"@, h)]),
        (Some(t), None) => (BodyCore::Text, seq![("text"@, t)]),
        (None, Some(h)) => (BodyCore::Html, seq![("html"@, h)]),
        (None, None) => (BodyCore::Text, seq![("text"@, ""@)]),
    }
}

/// Lays out a message body.
pub fn build_email_body(text: Option<&str>, html: Option<&str>, attachments: &Vec<UploadedBlob>) -> (r: EmailBody)
    ensures
        (r.core, pair_views(r.values@)) == body_spec(
            match text {
                Some(t) => Some(t@),
                None => None,
            },
            match html {
                Some(h) => Some(h@),
                None => None,
            },
        ),
        part_views(r.attachments@) == attachment_parts_spec(attachments@),
{
    let mut values: Vec<(String, String)> = Vec::new();
    let core = match (text, html) {
        (Some(t), Some(h)) => {
            values.push((owned("text"), owned(t)));
            values.push((owned("html"), owned(h)));
            BodyCore::Alternative
        },
        (Some(t), None) => {
            values.push((owned("text"), owned(t)));
            BodyCore::Text
        },
        (None, Some(h)) => {
            values.push((owned("html"), owned(h)));
            BodyCore::Html
        },
        (None, None) => {
            values.push((owned("text"), owned("")));
            BodyCore::Text
        },
    };
    let r = EmailBody { core, attachments: attachment_parts(attachments), values };
    assert(pair_views(r.values@) =~= body_spec(
        match text {
            Some(t) => Some(t@),
            None => None,
        },
        match html {
            Some(h) => Some(h@),
            None => None,
        },
    ).1);
    r
}

// ---------------------------------------------------------------- command checks

/// A text option: the text itself, or `@path` for the contents of a file.
#[derive(Debug)]
pub enum TextArg {
    Inline(String),
    File(String),
}

/// The meaning of a `TextArg`.
pub enum TextArgView {
    Inline(Seq<char>),
    File(Seq<char>),
}

impl View for TextArg {
    type V = TextArgView;

    open spec fn view(&self) -> TextArgView {
        match self {
            TextArg::Inline(t) => TextArgView::Inline(t@),
            TextArg::File(p) => TextArgView::File(p@),
        }
    }
}

/// How a text option reads: `@path` names a file, anything else is the text.
pub open spec fn text_arg_spec(value: Seq<char>) -> TextArgView {
    if value.len() > 0 && value[0] == '@' {
        TextArgView::File(value.drop_first())
    } else {
        TextArgView::Inline(value)
    }
}

/// Reads a text option: `@path` names a file, anything else is the text.
pub fn text_arg_source(value: &str) -> (r: TextArg)
    ensures
        r@ == text_arg_spec(value@),
{
    let v = chars_of(value);
    if v.len() > 0 && v[0] == '@' {
        let p = slice_chars(&v, 1, v.len());
        assert(p@ =~= value@.drop_first());
        TextArg::File(string_of(&p))
    } else {
        TextArg::Inline(owned(value))
    }
}

/// What a command writes.
#[derive(Clone, Copy, PartialEq, Eq, Structural, Debug)]
pub enum ContentFor {
    /// `send` and `reply`.
    Message,
    /// `drafts create`.
    Draft,
}

/// The error for content that is missing.
pub open spec fn missing_content_message(what: ContentFor) -> Seq<char> {
    match what {
        ContentFor::Message => "missing message content: provide --text, --body-html, or --attach"@,
        ContentFor::Draft => "missing draft content: provide --body/--body-file, --body-html, or --attach"@,
    }
}

/// A message needs a text body, an HTML body or an attachment.
pub fn check_content(has_text: bool, has_html: bool, attach_count: usize, what: ContentFor) -> (r: Result<
    (),
    XinErrorOut,
>)
    ensures
        r is Ok <==> (has_text || has_html || attach_count > 0),
        r matches Err(e) ==> e.is_usage(missing_content_message(what)),
{
    if !has_text && !has_html && attach_count == 0 {
        return Err(
            XinErrorOut::usage(
                match what {
                    ContentFor::Message => owned(
                        "missing message content: provide --text, --body-html, or --attach",
                    ),
                    ContentFor::Draft => owned(
                        "missing draft content: provide --body/--body-file, --body-html, or --attach",
                    ),
                },
            ),
        );
    }
    Ok(())
}

/// Where the text body of a draft comes from: `--body` (itself a text option) or the
/// file of `--body-file`; both at once are refused.
pub fn draft_body_source(body: Option<&str>, body_file: Option<&str>) -> (r: Result<
    Option<TextArg>,
    XinErrorOut,
>)
    ensures
        match (body, body_file) {
            (Some(_), Some(_)) => r matches Err(e) && e.is_usage(
                "use either --body or --body-file"@,
            ),
            (Some(b), None) => r matches Ok(Some(a)) && a@ == text_arg_spec(b@),
            (None, Some(p)) => r matches Ok(Some(a)) && a@ == TextArgView::File(p@),
            (None, None) => r matches Ok(None),
        },
{
    match (body, body_file) {
        (Some(_), Some(_)) => Err(XinErrorOut::usage(owned("use either --body or --body-file"))),
        (Some(b), None) => {
            let a = text_arg_source(b);
            Ok(Some(a))
        },
        (None, Some(p)) => Ok(Some(TextArg::File(owned(p)))),
        (None, None) => Ok(None),
    }
}


// ---------------------------------------------------------------- draft commands

/// A draft command needs at least one draft id.
pub fn check_draft_ids(count: usize) -> (r: Result<(), XinErrorOut>)
    ensures
        r is Ok <==> count > 0,
        r matches Err(e) ==> e.is_usage("missing draft id"@),
{
    if count == 0 {
        Err(XinErrorOut::usage(owned("missing draft id")))
    } else {
        Ok(())
    }
}

/// The plan of `drafts delete`: leave the drafts mailbox, enter the trash, and clear
/// `$draft` (an email must stay in some mailbox, so the draft goes to the trash).
pub open spec fn drafts_delete_plan_spec(ms: Seq<MailboxInfo>) -> Result<PlanView, Seq<char>> {
    match drafts_mailbox_spec(ms) {
        None => Err("drafts mailbox not found"@),
        Some(d) => match resolve_mailbox_spec("trash"@, ms) {
            None => Err("trash mailbox not found"@),
            Some(t) => Ok(
                PlanView {
                    add_mailboxes: seq![t],
                    remove_mailboxes: seq![d],
                    add_keywords: Seq::empty(),
                    remove_keywords: seq!["$draft"@],
                    replace_mailboxes: None,
                },
            ),
        },
    }
}

fn one_string(s: String) -> (v: Vec<String>)
    ensures
        string_views(v@) == seq![s@],
{
    let mut v: Vec<String> = Vec::new();
    v.push(s);
    assert(string_views(v@) =~= seq![v@[0]@]);
    v
}

/// The plan of `drafts delete`; a missing drafts or trash mailbox is a configuration error.
pub fn drafts_delete_plan(mailboxes: &Vec<MailboxInfo>) -> (r: Result<ModifyPlan, XinErrorOut>)
    ensures
        match drafts_delete_plan_spec(mailboxes@) {
            Ok(p) => r matches Ok(plan) && plan@ == p,
            Err(m) => r matches Err(e) && e.is_config(m),
        },
{
    let drafts = match find_drafts_mailbox_id(mailboxes.as_slice()) {
        Ok(id) => id,
        Err(e) => return Err(e),
    };
    let trash = match resolve_mailbox_id("trash", mailboxes.as_slice()) {
        Some(id) => id,
        None => return Err(XinErrorOut::config(owned("trash mailbox not found"))),
    };
    Ok(
        ModifyPlan {
            add_mailboxes: one_string(trash),
            remove_mailboxes: one_string(drafts),
            add_keywords: no_strings(),
            remove_keywords: one_string(owned("$draft")),
            replace_mailboxes: None,
        },
    )
}

/// The plan of `drafts update`: like `batch modify`, but with no flag at all it is
/// refused before anything is resolved.
pub open spec fn drafts_update_plan_spec(
    add: Seq<Seq<char>>,
    remove: Seq<Seq<char>>,
    add_mailbox: Seq<Seq<char>>,
    remove_mailbox: Seq<Seq<char>>,
    add_keyword: Seq<Seq<char>>,
    remove_keyword: Seq<Seq<char>>,
    ms: Seq<MailboxInfo>,
) -> Result<PlanView, Seq<char>> {
    if add.len() == 0 && remove.len() == 0 && add_mailbox.len() == 0 && remove_mailbox.len() == 0
        && add_keyword.len() == 0 && remove_keyword.len() == 0 {
        Err("no changes specified"@)
    } else {
        modify_plan_spec(add, remove, add_mailbox, remove_mailbox, add_keyword, remove_keyword, ms)
    }
}

/// The plan of `drafts update`.
pub fn drafts_update_plan(
    add: &Vec<String>,
    remove: &Vec<String>,
    add_mailbox: &Vec<String>,
    remove_mailbox: &Vec<String>,
    add_keyword: &Vec<String>,
    remove_keyword: &Vec<String>,
    mailboxes: &Vec<MailboxInfo>,
) -> (r: Result<ModifyPlan, XinErrorOut>)
    ensures
        match drafts_update_plan_spec(
            string_views(add@),
            string_views(remove@),
            string_views(add_mailbox@),
            string_views(remove_mailbox@),
            string_views(add_keyword@),
            string_views(remove_keyword@),
            mailboxes@,
        ) {
            Ok(p) => r matches Ok(plan) && plan@ == p,
            Err(m) => r matches Err(e) && e.is_usage(m),
        },
{
    if add.len() == 0 && remove.len() == 0 && add_mailbox.len() == 0 && remove_mailbox.len() == 0
        && add_keyword.len() == 0 && remove_keyword.len() == 0 {
        return Err(XinErrorOut::usage(owned("no changes specified")));
    }
    match parse_modify_args_auto(
        add,
        remove,
        add_mailbox,
        remove_mailbox,
        add_keyword,
        remove_keyword,
        mailboxes,
    ) {
        Ok((plan, _)) => Ok(plan),
        Err(e) => Err(e),
    }
}

/// The checks on the flags of `drafts rewrite`, in this order: `--body` with
/// `--body-file`; `--clear-attachments` with `--attach` or `--replace-attachments`;
/// `--replace-attachments` without `--attach`.
pub open spec fn rewrite_flags_spec(
    has_body: bool,
    has_body_file: bool,
    clear: bool,
    attach_count: nat,
    replace: bool,
) -> Option<Seq<char>> {
    if has_body && has_body_file {
        Some("use either --body or --body-file"@)
    } else if clear && (attach_count > 0 || replace) {
        Some("--clear-attachments cannot be combined with --attach/--replace-attachments"@)
    } else if replace && attach_count == 0 {
        Some("--replace-attachments requires at least one --attach"@)
    } else {
        None
    }
}

/// Checks the flags of `drafts rewrite`.
pub fn check_rewrite_flags(
    has_body: bool,
    has_body_file: bool,
    clear: bool,
    attach_count: usize,
    replace: bool,
) -> (r: Result<(), XinErrorOut>)
    ensures
        match rewrite_flags_spec(has_body, has_body_file, clear, attach_count as nat, replace) {
            None => r is Ok,
            Some(m) => r matches Err(e) && e.is_usage(m),
        },
{
    if has_body && has_body_file {
        return Err(XinErrorOut::usage(owned("use either --body or --body-file")));
    }
    if clear && (attach_count > 0 || replace) {
        return Err(
            XinErrorOut::usage(
                owned("--clear-attachments cannot be combined with --attach/--replace-attachments"),
            ),
        );
    }
    if replace && attach_count == 0 {
        return Err(XinErrorOut::usage(owned("--replace-attachments requires at least one --attach")));
    }
    Ok(())
}

/// What a draft being rewritten already holds.
#[derive(Debug)]
pub struct DraftSnapshot {
    pub to: Vec<String>,
    pub cc: Vec<String>,
    pub bcc: Vec<String>,
    pub subject: Option<String>,
    pub text: Option<String>,
    pub html: Option<String>,
    pub attachments: Vec<UploadedBlob>,
}

/// What the rewrite asks for (bodies already read from their options).
#[derive(Debug)]
pub struct RewriteChanges {
    pub to: Option<Vec<String>>,
    pub cc: Option<Vec<String>>,
    pub bcc: Option<Vec<String>>,
    pub subject: Option<String>,
    pub text: Option<String>,
    pub html: Option<String>,
    pub uploaded: Vec<UploadedBlob>,
    pub replace_attachments: bool,
    pub clear_attachments: bool,
}

/// The replacement draft's content.
#[derive(Debug)]
pub struct RewrittenDraft {
    pub to: Vec<String>,
    pub cc: Vec<String>,
    pub bcc: Vec<String>,
    pub subject: Option<String>,
    pub text: Option<String>,
    pub html: Option<String>,
    pub attachments: Vec<UploadedBlob>,
}

/// The given list, else the existing one.
pub open spec fn list_or(given: Option<Vec<String>>, existing: Seq<Seq<char>>) -> Seq<Seq<char>> {
    match given {
        Some(v) => string_views(v@),
        None => existing,
    }
}

/// The given text, else the existing one.
pub open spec fn text_or_existing(given: Option<String>, existing: Option<String>) -> Option<Seq<char>> {
    match given {
        Some(s) => Some(s@),
        None => opt_text(existing),
    }
}

/// The attachments of the replacement: none when clearing, only the new uploads when
/// replacing, else the existing ones followed by the new uploads.
pub open spec fn rewrite_attachments_spec(c: RewriteChanges, d: DraftSnapshot) -> Seq<(Seq<char>, Seq<char>, usize, Option<Seq<char>>)> {
    if c.clear_attachments {
        Seq::empty()
    } else if c.replace_attachments {
        blob_views(c.uploaded@)
    } else {
        blob_views(d.attachments@) + blob_views(c.uploaded@)
    }
}

fn clone_list_or(given: &Option<Vec<String>>, existing: &Vec<String>) -> (r: Vec<String>)
    ensures
        string_views(r@) == list_or(*given, string_views(existing@)),
{
    match given {
        Some(v) => clone_strings(v),
        None => clone_strings(existing),
    }
}

fn clone_text_or(given: &Option<String>, existing: &Option<String>) -> (r: Option<String>)
    ensures
        opt_text(r) == text_or_existing(*given, *existing),
{
    match given {
        Some(s) => Some(owned(s.as_str())),
        None => opt_clone_text(existing),
    }
}

/// Appends copies of the blobs of `b` to `a`.
fn extend_blobs(a: &mut Vec<UploadedBlob>, b: &Vec<UploadedBlob>)
    ensures
        blob_views(final(a)@) == blob_views(old(a)@) + blob_views(b@),
{
    let ghost a0 = blob_views(a@);
    let mut i: usize = 0;
    proof {
        assert(blob_views(b@).take(0) =~= Seq::empty());
        assert(a0 + blob_views(b@).take(0) =~= a0);
    }
    while i < b.len()
        invariant
            i <= b.len(),
            blob_views(a@) == a0 + blob_views(b@).take(i as int),
        decreases b.len() - i,
    {
        let x = clone_blob(&b[i]);
        let ghost before = a@;
        a.push(x);
        proof {
            lemma_take_step(blob_views(b@), i as int);
            assert(blob_views(a@) =~= blob_views(before).push(blob_views(b@)[i as int]));
            assert(a0 + blob_views(b@).take(i as int + 1) =~= (a0 + blob_views(b@).take(
                i as int,
            )).push(blob_views(b@)[i as int]));
        }
        i += 1;
    }
    proof {
        lemma_take_all(blob_views(b@));
    }
}

/// The content of the replacement draft: each given field replaces the existing one.
pub fn merge_rewrite(c: &RewriteChanges, d: &DraftSnapshot) -> (r: RewrittenDraft)
    ensures
        string_views(r.to@) == list_or(c.to, string_views(d.to@)),
        string_views(r.cc@) == list_or(c.cc, string_views(d.cc@)),
        string_views(r.bcc@) == list_or(c.bcc, string_views(d.bcc@)),
        opt_text(r.subject) == text_or_existing(c.subject, d.subject),
        opt_text(r.text) == text_or_existing(c.text, d.text),
        opt_text(r.html) == text_or_existing(c.html, d.html),
        blob_views(r.attachments@) == rewrite_attachments_spec(*c, *d),
{
    let attachments = if c.clear_attachments {
        let v: Vec<UploadedBlob> = Vec::new();
        assert(blob_views(v@) =~= Seq::empty());
        v
    } else if c.replace_attachments {
        clone_blobs(&c.uploaded)
    } else {
        let mut v = clone_blobs(&d.attachments);
        extend_blobs(&mut v, &c.uploaded);
        v
    };
    RewrittenDraft {
        to: clone_list_or(&c.to, &d.to),
        cc: clone_list_or(&c.cc, &d.cc),
        bcc: clone_list_or(&c.bcc, &d.bcc),
        subject: clone_text_or(&c.subject, &d.subject),
        text: clone_text_or(&c.text, &d.text),
        html: clone_text_or(&c.html, &d.html),
        attachments,
    }
}

/// Who the replacement draft is from.
#[derive(Debug)]
pub enum SenderChoice {
    /// The identity that `--identity` selects.
    Identity(String),
    /// The existing draft's first From address (with its display name).
    Existing(Option<String>, String),
    /// The default identity.
    DefaultIdentity,
}

/// The sender of the replacement draft: `--identity` when given, else the existing
/// draft's sender, else the default identity.
pub fn rewrite_sender(
    identity: Option<&str>,
    existing_from_name: &Option<String>,
    existing_from_email: &Option<String>,
) -> (r: SenderChoice)
    ensures
        match (identity, existing_from_email) {
            (Some(sel), _) => r matches SenderChoice::Identity(s) && s@ == sel@,
            (None, Some(e)) => r matches SenderChoice::Existing(n, x) && x@ == e@ && opt_text(n)
                == opt_text(*existing_from_name),
            (None, None) => r is DefaultIdentity,
        },
{
    match identity {
        Some(sel) => SenderChoice::Identity(owned(sel)),
        None => match existing_from_email {
            Some(e) => SenderChoice::Existing(opt_clone_text(existing_from_name), owned(e.as_str())),
            None => SenderChoice::DefaultIdentity,
        },
    }
}

/// What becomes of the replaced draft.
#[derive(Debug)]
pub enum Cleanup {
    /// It is destroyed (`--destroy-old`, which needs `--force`).
    Destroy,
    /// It stays, but leaves the drafts mailbox and loses `$draft`.
    Unfile(ModifyPlan),
}

/// What becomes of the replaced draft: by default it is unfiled, not destroyed.
pub fn rewrite_cleanup(destroy_old: bool, force: bool, drafts_id: &str) -> (r: Result<
    Cleanup,
    XinErrorOut,
>)
    ensures
        destroy_old && !force ==> (r matches Err(e) && e.is_usage(
            "--destroy-old requires global --force"@,
        )),
        destroy_old && force ==> r matches Ok(Cleanup::Destroy),
        !destroy_old ==> (r matches Ok(Cleanup::Unfile(p)) && p@ == PlanView {
            add_mailboxes: Seq::empty(),
            remove_mailboxes: seq![drafts_id@],
            add_keywords: Seq::empty(),
            remove_keywords: seq!["$draft"@],
            replace_mailboxes: None,
        }),
{
    if destroy_old {
        if !force {
            return Err(XinErrorOut::usage(owned("--destroy-old requires global --force")));
        }
        return Ok(Cleanup::Destroy);
    }
    Ok(
        Cleanup::Unfile(
            ModifyPlan {
                add_mailboxes: no_strings(),
                remove_mailboxes: one_string(owned(drafts_id)),
                add_keywords: no_strings(),
                remove_keywords: one_string(owned("$draft")),
                replace_mailboxes: None,
            },
        ),
    )
}

} // verus!
