//! Organising email: the change plans that `archive`, `read`, `unread`, `trash`,
//! `batch modify`, `thread modify` and `drafts update` apply, and the checks before them.
use vstd::prelude::*;

use crate::error::{owned, XinErrorOut};
use crate::mailbox::{opt_text, resolve_mailbox_id, resolve_mailbox_spec, MailboxInfo};
use crate::pieces::{clone_strings, lemma_string_views_push, string_views};
use crate::seqs::{lemma_take_all, lemma_take_step, lemma_try_map_prefix_err, try_map};
use crate::text::{chars_of, concat_str};

verus! {

/// The changes to apply to each email: mailboxes to add and remove, keywords to set
/// and clear, or a list of mailboxes that replaces the email's mailboxes.
#[derive(Debug)]
pub struct ModifyPlan {
    pub add_mailboxes: Vec<String>,
    pub remove_mailboxes: Vec<String>,
    pub add_keywords: Vec<String>,
    pub remove_keywords: Vec<String>,
    pub replace_mailboxes: Option<Vec<String>>,
}

/// The changes reported back to the user.
#[derive(Debug)]
pub struct ChangeSummary {
    pub added_mailboxes: Vec<String>,
    pub removed_mailboxes: Vec<String>,
    pub added_keywords: Vec<String>,
    pub removed_keywords: Vec<String>,
}

/// The meaning of a `ModifyPlan`.
pub struct PlanView {
    pub add_mailboxes: Seq<Seq<char>>,
    pub remove_mailboxes: Seq<Seq<char>>,
    pub add_keywords: Seq<Seq<char>>,
    pub remove_keywords: Seq<Seq<char>>,
    pub replace_mailboxes: Option<Seq<Seq<char>>>,
}

/// The meaning of a `ChangeSummary`.
pub struct SummaryView {
    pub added_mailboxes: Seq<Seq<char>>,
    pub removed_mailboxes: Seq<Seq<char>>,
    pub added_keywords: Seq<Seq<char>>,
    pub removed_keywords: Seq<Seq<char>>,
}

impl View for ModifyPlan {
    type V = PlanView;

    open spec fn view(&self) -> PlanView {
        PlanView {
            add_mailboxes: string_views(self.add_mailboxes@),
            remove_mailboxes: string_views(self.remove_mailboxes@),
            add_keywords: string_views(self.add_keywords@),
            remove_keywords: string_views(self.remove_keywords@),
            replace_mailboxes: match self.replace_mailboxes {
                Some(v) => Some(string_views(v@)),
                None => None,
            },
        }
    }
}

impl View for ChangeSummary {
    type V = SummaryView;

    open spec fn view(&self) -> SummaryView {
        SummaryView {
            added_mailboxes: string_views(self.added_mailboxes@),
            removed_mailboxes: string_views(self.removed_mailboxes@),
            added_keywords: string_views(self.added_keywords@),
            removed_keywords: string_views(self.removed_keywords@),
        }
    }
}

/// A plan that changes nothing.
pub open spec fn empty_plan() -> PlanView {
    PlanView {
        add_mailboxes: Seq::empty(),
        remove_mailboxes: Seq::empty(),
        add_keywords: Seq::empty(),
        remove_keywords: Seq::empty(),
        replace_mailboxes: None,
    }
}

/// A summary of no change.
pub open spec fn empty_summary() -> SummaryView {
    SummaryView {
        added_mailboxes: Seq::empty(),
        removed_mailboxes: Seq::empty(),
        added_keywords: Seq::empty(),
        removed_keywords: Seq::empty(),
    }
}

/// The summary that reports exactly the additions and removals of the plan.
pub open spec fn summary_of(p: PlanView) -> SummaryView {
    SummaryView {
        added_mailboxes: p.add_mailboxes,
        removed_mailboxes: p.remove_mailboxes,
        added_keywords: p.add_keywords,
        removed_keywords: p.remove_keywords,
    }
}

/// Whether the plan adds or removes anything (a replacement list is not counted).
pub open spec fn plan_has_changes(p: PlanView) -> bool {
    p.add_mailboxes.len() > 0 || p.remove_mailboxes.len() > 0 || p.add_keywords.len() > 0
        || p.remove_keywords.len() > 0
}

/// An empty list of strings.
pub fn no_strings() -> (v: Vec<String>)
    ensures
        string_views(v@) == Seq::<Seq<char>>::empty(),
{
    let v: Vec<String> = Vec::new();
    assert(string_views(v@) =~= Seq::<Seq<char>>::empty());
    v
}

impl ModifyPlan {
    /// A plan that changes nothing.
    pub fn new() -> (p: Self)
        ensures
            p@ == empty_plan(),
    {
        ModifyPlan {
            add_mailboxes: no_strings(),
            remove_mailboxes: no_strings(),
            add_keywords: no_strings(),
            remove_keywords: no_strings(),
            replace_mailboxes: None,
        }
    }

    /// Whether the plan adds or removes anything.
    pub fn has_changes(&self) -> (b: bool)
        ensures
            b == plan_has_changes(self@),
    {
        self.add_mailboxes.len() > 0 || self.remove_mailboxes.len() > 0
            || self.add_keywords.len() > 0 || self.remove_keywords.len() > 0
    }
}

impl ChangeSummary {
    /// A summary of no change.
    pub fn new() -> (s: Self)
        ensures
            s@ == empty_summary(),
    {
        ChangeSummary {
            added_mailboxes: no_strings(),
            removed_mailboxes: no_strings(),
            added_keywords: no_strings(),
            removed_keywords: no_strings(),
        }
    }
}

/// The error for a mailbox word that names no mailbox.
pub open spec fn unknown_mailbox_message(m: Seq<char>) -> Seq<char> {
    "unknown mailbox: "@ + m
}

/// Resolves one explicitly named mailbox, or names it in the error.
pub open spec fn resolve_explicit_one(ms: Seq<MailboxInfo>) -> spec_fn(Seq<char>) -> Result<
    Seq<char>,
    Seq<char>,
> {
    |m: Seq<char>|
        match resolve_mailbox_spec(m, ms) {
            Some(id) => Ok(id),
            None => Err(unknown_mailbox_message(m)),
        }
}

/// The ids of the explicitly named mailboxes, or the error for the first unknown one.
pub open spec fn resolve_explicit_spec(names: Seq<Seq<char>>, ms: Seq<MailboxInfo>) -> Result<
    Seq<Seq<char>>,
    Seq<char>,
> {
    try_map(names, resolve_explicit_one(ms))
}

/// The mailbox ids of the targets that name a mailbox, in order.
pub open spec fn auto_mailboxes(ts: Seq<Seq<char>>, ms: Seq<MailboxInfo>) -> Seq<Seq<char>>
    decreases ts.len(),
{
    if ts.len() == 0 {
        Seq::empty()
    } else {
        let r = auto_mailboxes(ts.drop_last(), ms);
        match resolve_mailbox_spec(ts.last(), ms) {
            Some(id) => r.push(id),
            None => r,
        }
    }
}

/// The targets that name no mailbox (they are keywords), in order.
pub open spec fn auto_keywords(ts: Seq<Seq<char>>, ms: Seq<MailboxInfo>) -> Seq<Seq<char>>
    decreases ts.len(),
{
    if ts.len() == 0 {
        Seq::empty()
    } else {
        let r = auto_keywords(ts.drop_last(), ms);
        match resolve_mailbox_spec(ts.last(), ms) {
            Some(_) => r,
            None => r.push(ts.last()),
        }
    }
}

/// The plan for the modify flags: explicit mailboxes first (each must resolve, else the
/// error for the first unknown one, added before removed), then explicit keywords, then
/// each `--add`/`--remove` target as a mailbox when it names one and as a keyword otherwise.
pub open spec fn modify_plan_spec(
    add: Seq<Seq<char>>,
    remove: Seq<Seq<char>>,
    add_mailbox: Seq<Seq<char>>,
    remove_mailbox: Seq<Seq<char>>,
    add_keyword: Seq<Seq<char>>,
    remove_keyword: Seq<Seq<char>>,
    ms: Seq<MailboxInfo>,
) -> Result<PlanView, Seq<char>> {
    match resolve_explicit_spec(add_mailbox, ms) {
        Err(e) => Err(e),
        Ok(added) => match resolve_explicit_spec(remove_mailbox, ms) {
            Err(e) => Err(e),
            Ok(removed) => Ok(
                PlanView {
                    add_mailboxes: added + auto_mailboxes(add, ms),
                    remove_mailboxes: removed + auto_mailboxes(remove, ms),
                    add_keywords: add_keyword + auto_keywords(add, ms),
                    remove_keywords: remove_keyword + auto_keywords(remove, ms),
                    replace_mailboxes: None,
                },
            ),
        },
    }
}

/// The ids of the explicitly named mailboxes.
fn resolve_explicit(names: &Vec<String>, mailboxes: &Vec<MailboxInfo>) -> (r: Result<
    Vec<String>,
    XinErrorOut,
>)
    ensures
        match resolve_explicit_spec(string_views(names@), mailboxes@) {
            Ok(ids) => r matches Ok(v) && string_views(v@) == ids,
            Err(m) => r matches Err(e) && e.is_usage(m),
        },
{
    let ghost f = resolve_explicit_one(mailboxes@);
    let ghost ns = string_views(names@);
    let mut out: Vec<String> = Vec::new();
    let mut i: usize = 0;
    proof {
        assert(ns.take(0) =~= Seq::<Seq<char>>::empty());
        assert(string_views(out@) =~= Seq::<Seq<char>>::empty());
    }
    while i < names.len()
        invariant
            i <= names.len(),
            f == resolve_explicit_one(mailboxes@),
            ns == string_views(names@),
            try_map(ns.take(i as int), f) == Ok::<Seq<Seq<char>>, Seq<char>>(string_views(out@)),
        decreases names.len() - i,
    {
        proof {
            lemma_take_step(ns, i as int);
        }
        let m = names[i].as_str();
        assert(m@ == ns[i as int]);
        match resolve_mailbox_id(m, mailboxes.as_slice()) {
            Some(id) => {
                proof {
                    lemma_string_views_push(out@, id);
                }
                out.push(id);
            },
            None => {
                proof {
                    lemma_try_map_prefix_err(ns, f, i as int + 1);
                }
                return Err(XinErrorOut::usage(concat_str("unknown mailbox: ", m)));
            },
        }
        i += 1;
    }
    proof {
        lemma_take_all(ns);
    }
    Ok(out)
}

/// Splits the targets into mailbox ids (for those that name a mailbox) and keywords.
fn route_targets(ts: &Vec<String>, mailboxes: &Vec<MailboxInfo>) -> (r: (Vec<String>, Vec<String>))
    ensures
        string_views(r.0@) == auto_mailboxes(string_views(ts@), mailboxes@),
        string_views(r.1@) == auto_keywords(string_views(ts@), mailboxes@),
{
    let ghost tv = string_views(ts@);
    let mut ids: Vec<String> = Vec::new();
    let mut kws: Vec<String> = Vec::new();
    let mut i: usize = 0;
    proof {
        assert(tv.take(0) =~= Seq::<Seq<char>>::empty());
        assert(string_views(ids@) =~= Seq::<Seq<char>>::empty());
        assert(string_views(kws@) =~= Seq::<Seq<char>>::empty());
    }
    while i < ts.len()
        invariant
            i <= ts.len(),
            tv == string_views(ts@),
            string_views(ids@) == auto_mailboxes(tv.take(i as int), mailboxes@),
            string_views(kws@) == auto_keywords(tv.take(i as int), mailboxes@),
        decreases ts.len() - i,
    {
        proof {
            lemma_take_step(tv, i as int);
        }
        let t = ts[i].as_str();
        assert(t@ == tv[i as int]);
        match resolve_mailbox_id(t, mailboxes.as_slice()) {
            Some(id) => {
                proof {
                    lemma_string_views_push(ids@, id);
                }
                ids.push(id);
            },
            None => {
                let k = owned(t);
                proof {
                    lemma_string_views_push(kws@, k);
                }
                kws.push(k);
            },
        }
        i += 1;
    }
    proof {
        lemma_take_all(tv);
    }
    (ids, kws)
}

/// Appends the strings of `b` to `a`.
pub fn extend_strings(a: &mut Vec<String>, b: Vec<String>)
    ensures
        string_views(final(a)@) == string_views(old(a)@) + string_views(b@),
{
    let ghost a0 = string_views(a@);
    let mut i: usize = 0;
    let mut rest = b;
    let ghost bv = string_views(rest@);
    proof {
        assert(bv.take(0) =~= Seq::<Seq<char>>::empty());
        assert(a0 + bv.take(0) =~= a0);
    }
    while i < rest.len()
        invariant
            i <= rest.len(),
            bv == string_views(rest@),
            string_views(a@) == a0 + bv.take(i as int),
        decreases rest.len() - i,
    {
        proof {
            lemma_take_step(bv, i as int);
        }
        let x = owned(rest[i].as_str());
        proof {
            lemma_string_views_push(a@, x);
            assert(a0 + bv.take(i as int + 1) =~= (a0 + bv.take(i as int)).push(x@));
        }
        a.push(x);
        i += 1;
    }
    proof {
        lemma_take_all(bv);
    }
}

/// Builds the plan for the modify flags, and the summary that reports it.
pub fn parse_modify_args_auto(
    add: &Vec<String>,
    remove: &Vec<String>,
    add_mailbox: &Vec<String>,
    remove_mailbox: &Vec<String>,
    add_keyword: &Vec<String>,
    remove_keyword: &Vec<String>,
    mailboxes: &Vec<MailboxInfo>,
) -> (r: Result<(ModifyPlan, ChangeSummary), XinErrorOut>)
    ensures
        match modify_plan_spec(
            string_views(add@),
            string_views(remove@),
            string_views(add_mailbox@),
            string_views(remove_mailbox@),
            string_views(add_keyword@),
            string_views(remove_keyword@),
            mailboxes@,
        ) {
            Ok(p) => r matches Ok((plan, summary)) && plan@ == p && summary@ == summary_of(p),
            Err(m) => r matches Err(e) && e.is_usage(m),
        },
{
    let added = match resolve_explicit(add_mailbox, mailboxes) {
        Ok(v) => v,
        Err(e) => return Err(e),
    };
    let removed = match resolve_explicit(remove_mailbox, mailboxes) {
        Ok(v) => v,
        Err(e) => return Err(e),
    };
    let (add_ids, add_kws) = route_targets(add, mailboxes);
    let (remove_ids, remove_kws) = route_targets(remove, mailboxes);
    let mut add_mailboxes = added;
    extend_strings(&mut add_mailboxes, add_ids);
    let mut remove_mailboxes = removed;
    extend_strings(&mut remove_mailboxes, remove_ids);
    let mut add_keywords = clone_strings(add_keyword);
    extend_strings(&mut add_keywords, add_kws);
    let mut remove_keywords = clone_strings(remove_keyword);
    extend_strings(&mut remove_keywords, remove_kws);
    let summary = ChangeSummary {
        added_mailboxes: clone_strings(&add_mailboxes),
        removed_mailboxes: clone_strings(&remove_mailboxes),
        added_keywords: clone_strings(&add_keywords),
        removed_keywords: clone_strings(&remove_keywords),
    };
    let plan = ModifyPlan {
        add_mailboxes,
        remove_mailboxes,
        add_keywords,
        remove_keywords,
        replace_mailboxes: None,
    };
    Ok((plan, summary))
}

/// Refuses a plan that changes nothing.
pub fn require_changes(plan: &ModifyPlan) -> (r: Result<(), XinErrorOut>)
    ensures
        r is Ok <==> plan_has_changes(plan@),
        r matches Err(e) ==> e.is_usage("no changes specified"@),
{
    if plan.has_changes() {
        Ok(())
    } else {
        Err(XinErrorOut::usage(owned("no changes specified")))
    }
}

/// The checks on the email ids of `archive`, `read`, `unread` and `trash`: with
/// `--whole-thread` there must be exactly one id; otherwise at least one.
pub fn check_email_targets(count: usize, whole_thread: bool) -> (r: Result<(), XinErrorOut>)
    ensures
        r is Ok <==> (if whole_thread {
            count == 1
        } else {
            count > 0
        }),
        whole_thread && count != 1 ==> (r matches Err(e) && e.is_usage(
            "--whole-thread requires exactly one emailId"@,
        )),
        !whole_thread && count == 0 ==> (r matches Err(e) && e.is_usage("missing emailId"@)),
{
    if whole_thread && count != 1 {
        return Err(XinErrorOut::usage(owned("--whole-thread requires exactly one emailId")));
    }
    if count == 0 {
        return Err(XinErrorOut::usage(owned("missing emailId")));
    }
    Ok(())
}

/// A destructive command runs only with `--force`; otherwise it fails with `message`.
pub fn require_force(force: bool, message: &str) -> (r: Result<(), XinErrorOut>)
    ensures
        r is Ok <==> force,
        !force ==> (r matches Err(e) && e.is_usage(message@)),
{
    if force {
        Ok(())
    } else {
        Err(XinErrorOut::usage(owned(message)))
    }
}

fn one_string(s: String) -> (v: Vec<String>)
    ensures
        string_views(v@) == seq![s@],
{
    let mut v: Vec<String> = Vec::new();
    v.push(s);
    assert(string_views(v@) =~= seq![v@[0]@]);
    v
}

/// The archive plan: leave the inbox and, when there is an archive mailbox, enter it.
pub open spec fn archive_plan_spec(ms: Seq<MailboxInfo>) -> Result<PlanView, Seq<char>> {
    match resolve_mailbox_spec("inbox"@, ms) {
        None => Err("inbox mailbox not found"@),
        Some(inbox) => Ok(
            PlanView {
                add_mailboxes: match resolve_mailbox_spec("archive"@, ms) {
                    Some(a) => seq![a],
                    None => Seq::empty(),
                },
                remove_mailboxes: seq![inbox],
                add_keywords: Seq::empty(),
                remove_keywords: Seq::empty(),
                replace_mailboxes: None,
            },
        ),
    }
}

/// The plan of `archive`; an account without an inbox is a configuration error.
pub fn archive_plan(mailboxes: &Vec<MailboxInfo>) -> (r: Result<(ModifyPlan, ChangeSummary), XinErrorOut>)
    ensures
        match archive_plan_spec(mailboxes@) {
            Ok(p) => r matches Ok((plan, summary)) && plan@ == p && summary@ == summary_of(p),
            Err(m) => r matches Err(e) && e.is_config(m),
        },
{
    let inbox = match resolve_mailbox_id("inbox", mailboxes.as_slice()) {
        Some(id) => id,
        None => return Err(XinErrorOut::config(owned("inbox mailbox not found"))),
    };
    let mut plan = ModifyPlan::new();
    let mut summary = ChangeSummary::new();
    plan.remove_mailboxes = one_string(owned(inbox.as_str()));
    summary.removed_mailboxes = one_string(inbox);
    match resolve_mailbox_id("archive", mailboxes.as_slice()) {
        Some(a) => {
            plan.add_mailboxes = one_string(owned(a.as_str()));
            summary.added_mailboxes = one_string(a);
        },
        None => {},
    }
    Ok((plan, summary))
}

/// The plan of `read` (set `$seen`) or `unread` (clear it).
pub open spec fn seen_plan_spec(seen: bool) -> PlanView {
    PlanView {
        add_mailboxes: Seq::empty(),
        remove_mailboxes: Seq::empty(),
        add_keywords: if seen {
            seq!["$seen"@]
        } else {
            Seq::empty()
        },
        remove_keywords: if seen {
            Seq::empty()
        } else {
            seq!["$seen"@]
        },
        replace_mailboxes: None,
    }
}

/// The plan of `read` (`seen`) or `unread`.
pub fn seen_plan(seen: bool) -> (r: (ModifyPlan, ChangeSummary))
    ensures
        r.0@ == seen_plan_spec(seen),
        r.1@ == summary_of(seen_plan_spec(seen)),
{
    let mut plan = ModifyPlan::new();
    let mut summary = ChangeSummary::new();
    if seen {
        plan.add_keywords = one_string(owned("$seen"));
        summary.added_keywords = one_string(owned("$seen"));
    } else {
        plan.remove_keywords = one_string(owned("$seen"));
        summary.removed_keywords = one_string(owned("$seen"));
    }
    (plan, summary)
}

/// The trash plan: the trash mailbox replaces all of the email's mailboxes.
pub open spec fn trash_plan_spec(ms: Seq<MailboxInfo>) -> Result<(PlanView, SummaryView), Seq<char>> {
    match resolve_mailbox_spec("trash"@, ms) {
        None => Err("trash mailbox not found"@),
        Some(t) => Ok(
            (
                PlanView {
                    add_mailboxes: Seq::empty(),
                    remove_mailboxes: Seq::empty(),
                    add_keywords: Seq::empty(),
                    remove_keywords: Seq::empty(),
                    replace_mailboxes: Some(seq![t]),
                },
                SummaryView {
                    added_mailboxes: seq![t],
                    removed_mailboxes: Seq::empty(),
                    added_keywords: Seq::empty(),
                    removed_keywords: Seq::empty(),
                },
            ),
        ),
    }
}

/// The plan of `trash`; an account without a trash mailbox is a configuration error.
pub fn trash_plan(mailboxes: &Vec<MailboxInfo>) -> (r: Result<(ModifyPlan, ChangeSummary), XinErrorOut>)
    ensures
        match trash_plan_spec(mailboxes@) {
            Ok((p, s)) => r matches Ok((plan, summary)) && plan@ == p && summary@ == s,
            Err(m) => r matches Err(e) && e.is_config(m),
        },
{
    let trash = match resolve_mailbox_id("trash", mailboxes.as_slice()) {
        Some(id) => id,
        None => return Err(XinErrorOut::config(owned("trash mailbox not found"))),
    };
    let mut plan = ModifyPlan::new();
    let mut summary = ChangeSummary::new();
    plan.replace_mailboxes = Some(one_string(owned(trash.as_str())));
    summary.added_mailboxes = one_string(trash);
    Ok((plan, summary))
}

/// Which of the organising shortcuts to apply.
#[derive(Clone, Copy, PartialEq, Eq, Structural, Debug)]
pub enum OrganizeAction {
    Archive,
    Read,
    Unread,
    Trash,
}

/// The plan and summary of an organising shortcut.
pub open spec fn action_plan_spec(action: OrganizeAction, ms: Seq<MailboxInfo>) -> Result<
    (PlanView, SummaryView),
    Seq<char>,
> {
    match action {
        OrganizeAction::Archive => match archive_plan_spec(ms) {
            Ok(p) => Ok((p, summary_of(p))),
            Err(e) => Err(e),
        },
        OrganizeAction::Read => Ok((seen_plan_spec(true), summary_of(seen_plan_spec(true)))),
        OrganizeAction::Unread => Ok((seen_plan_spec(false), summary_of(seen_plan_spec(false)))),
        OrganizeAction::Trash => trash_plan_spec(ms),
    }
}

/// The plan of an organising shortcut (the mailboxes are only read by `archive` and `trash`).
pub fn action_plan(action: OrganizeAction, mailboxes: &Vec<MailboxInfo>) -> (r: Result<
    (ModifyPlan, ChangeSummary),
    XinErrorOut,
>)
    ensures
        match action_plan_spec(action, mailboxes@) {
            Ok((p, s)) => r matches Ok((plan, summary)) && plan@ == p && summary@ == s,
            Err(m) => r matches Err(e) && e.is_config(m),
        },
{
    match action {
        OrganizeAction::Archive => archive_plan(mailboxes),
        OrganizeAction::Read => Ok(seen_plan(true)),
        OrganizeAction::Unread => Ok(seen_plan(false)),
        OrganizeAction::Trash => trash_plan(mailboxes),
    }
}

/// Each `--add` target and each added mailbox or keyword flag ends up in the plan
/// exactly once (as a mailbox or as a keyword), and likewise for the removals; a plan
/// built from the flags never replaces mailboxes.
pub proof fn law_modify_plan_accounts_for_every_target(
    add: Seq<Seq<char>>,
    remove: Seq<Seq<char>>,
    add_mailbox: Seq<Seq<char>>,
    remove_mailbox: Seq<Seq<char>>,
    add_keyword: Seq<Seq<char>>,
    remove_keyword: Seq<Seq<char>>,
    ms: Seq<MailboxInfo>,
)
    ensures
        modify_plan_spec(add, remove, add_mailbox, remove_mailbox, add_keyword, remove_keyword, ms) matches Ok(p)
            ==> {
            &&& p.replace_mailboxes is None
            &&& p.add_mailboxes.len() + p.add_keywords.len() == add_mailbox.len()
                + add_keyword.len() + add.len()
            &&& p.remove_mailboxes.len() + p.remove_keywords.len() == remove_mailbox.len()
                + remove_keyword.len() + remove.len()
        },
{
    lemma_auto_split(add, ms);
    lemma_auto_split(remove, ms);
    lemma_try_map_len(add_mailbox, resolve_explicit_one(ms));
    lemma_try_map_len(remove_mailbox, resolve_explicit_one(ms));
}

/// Every auto target lands in exactly one of the two lists.
pub proof fn lemma_auto_split(ts: Seq<Seq<char>>, ms: Seq<MailboxInfo>)
    ensures
        auto_mailboxes(ts, ms).len() + auto_keywords(ts, ms).len() == ts.len(),
    decreases ts.len(),
{
    if ts.len() > 0 {
        lemma_auto_split(ts.drop_last(), ms);
    }
}

/// A successful `try_map` keeps the length.
pub proof fn lemma_try_map_len<A, B, E>(s: Seq<A>, f: spec_fn(A) -> Result<B, E>)
    ensures
        try_map(s, f) matches Ok(bs) ==> bs.len() == s.len(),
    decreases s.len(),
{
    if s.len() > 0 {
        lemma_try_map_len(s.drop_last(), f);
    }
}


// ---------------------------------------------------------------- Email/set patch

/// The value a patch entry sets: `true`, `null`, or a set of mailbox ids (each `true`).
#[derive(Debug)]
pub enum PatchValue {
    True,
    Null,
    Ids(Vec<String>),
}

/// One entry of an `Email/set` update patch: a JSON pointer path and its value.
#[derive(Debug)]
pub struct PatchEntry {
    pub path: String,
    pub value: PatchValue,
}

/// The meaning of a `PatchValue`.
pub enum PatchValueView {
    True,
    Null,
    Ids(Seq<Seq<char>>),
}

/// The meaning of a patch: its entries, in the order they are applied.
pub open spec fn entry_views(v: Seq<PatchEntry>) -> Seq<(Seq<char>, PatchValueView)> {
    v.map_values(
        |e: PatchEntry|
            (
                e.path@,
                match e.value {
                    PatchValue::True => PatchValueView::True,
                    PatchValue::Null => PatchValueView::Null,
                    PatchValue::Ids(ids) => PatchValueView::Ids(string_views(ids@)),
                },
            ),
    )
}

/// One entry per id, at `prefix` followed by the id, each with the value `v`.
pub open spec fn id_entries(prefix: Seq<char>, ids: Seq<Seq<char>>, v: PatchValueView) -> Seq<
    (Seq<char>, PatchValueView),
> {
    ids.map_values(|id: Seq<char>| (prefix + id, v))
}

/// The update patch of a plan, in the order its entries are applied (a later entry
/// for the same path wins): the mailbox list that replaces the email's mailboxes,
/// or each added mailbox set and each removed one cleared; then each added keyword
/// set and each removed one cleared.
pub open spec fn plan_patch_spec(p: PlanView) -> Seq<(Seq<char>, PatchValueView)> {
    let mailboxes = match p.replace_mailboxes {
        Some(ids) => seq![("mailboxIds"@, PatchValueView::Ids(ids))],
        None => id_entries("mailboxIds/"@, p.add_mailboxes, PatchValueView::True) + id_entries(
            "mailboxIds/"@,
            p.remove_mailboxes,
            PatchValueView::Null,
        ),
    };
    mailboxes + id_entries("keywords/"@, p.add_keywords, PatchValueView::True) + id_entries(
        "keywords/"@,
        p.remove_keywords,
        PatchValueView::Null,
    )
}

/// Appends an entry at `prefix` + id for each id, setting or clearing it.
fn push_id_entries(out: &mut Vec<PatchEntry>, prefix: &str, ids: &Vec<String>, set: bool)
    ensures
        entry_views(final(out)@) == entry_views(old(out)@) + id_entries(
            prefix@,
            string_views(ids@),
            if set {
                PatchValueView::True
            } else {
                PatchValueView::Null
            },
        ),
{
    let ghost v = if set {
        PatchValueView::True
    } else {
        PatchValueView::Null
    };
    let ghost start = entry_views(out@);
    let mut i: usize = 0;
    while i < ids.len()
        invariant
            i <= ids.len(),
            v == (if set {
                PatchValueView::True
            } else {
                PatchValueView::Null
            }),
            entry_views(out@) == start + id_entries(
                prefix@,
                string_views(ids@).take(i as int),
                v,
            ),
        decreases ids.len() - i,
    {
        let path = concat_str(prefix, ids[i].as_str());
        let value = if set {
            PatchValue::True
        } else {
            PatchValue::Null
        };
        let ghost before = out@;
        out.push(PatchEntry { path, value });
        proof {
            assert(entry_views(out@) =~= entry_views(before).push((prefix@ + ids@[i as int]@, v)));
            assert(string_views(ids@).take(i as int + 1) =~= string_views(ids@).take(i as int).push(
                ids@[i as int]@,
            ));
            assert(id_entries(prefix@, string_views(ids@).take(i as int + 1), v) =~= id_entries(
                prefix@,
                string_views(ids@).take(i as int),
                v,
            ).push((prefix@ + ids@[i as int]@, v)));
        }
        i += 1;
    }
    proof {
        assert(string_views(ids@).take(ids.len() as int) =~= string_views(ids@));
    }
}

/// The `Email/set` update patch that applies a plan to one email.
pub fn plan_patch(plan: &ModifyPlan) -> (r: Vec<PatchEntry>)
    ensures
        entry_views(r@) == plan_patch_spec(plan@),
{
    let mut out: Vec<PatchEntry> = Vec::new();
    match &plan.replace_mailboxes {
        Some(ids) => {
            let ghost before = out@;
            out.push(PatchEntry { path: owned("mailboxIds"), value: PatchValue::Ids(clone_strings(ids)) });
            assert(entry_views(out@) =~= entry_views(before).push(
                ("mailboxIds"@, PatchValueView::Ids(string_views(ids@))),
            ));
        },
        None => {
            push_id_entries(&mut out, "mailboxIds/", &plan.add_mailboxes, true);
            push_id_entries(&mut out, "mailboxIds/", &plan.remove_mailboxes, false);
        },
    }
    push_id_entries(&mut out, "keywords/", &plan.add_keywords, true);
    push_id_entries(&mut out, "keywords/", &plan.remove_keywords, false);
    assert(entry_views(out@) =~= plan_patch_spec(plan@));
    out
}

// ---------------------------------------------------------------- lookups

/// The emails of a thread that `--whole-thread` acts on; a thread the server does not
/// have is a usage error.
pub fn thread_members(email_ids: Option<Vec<String>>) -> (r: Result<Vec<String>, XinErrorOut>)
    ensures
        match email_ids {
            Some(v) => r matches Ok(x) && x@ == v@,
            None => r matches Err(e) && e.is_usage("thread not found"@),
        },
{
    match email_ids {
        Some(v) => Ok(v),
        None => Err(XinErrorOut::usage(owned("thread not found"))),
    }
}

/// The thread of the email that `--whole-thread` names: `found` is `None` when the
/// server has no such email, else the email's `threadId` if it has one.
pub fn email_thread(found: Option<Option<String>>) -> (r: Result<String, XinErrorOut>)
    ensures
        match found {
            None => r matches Err(e) && e.is_usage("email not found"@),
            Some(None) => r matches Err(e) && e.is_config("email missing threadId"@),
            Some(Some(t)) => r matches Ok(x) && x@ == t@,
        },
{
    match found {
        None => Err(XinErrorOut::usage(owned("email not found"))),
        Some(None) => Err(XinErrorOut::config(owned("email missing threadId"))),
        Some(Some(t)) => Ok(t),
    }
}

/// `read` marks an email seen and `unread` marks it unseen: the one adds the keyword
/// `$seen` and the other removes it, and neither touches anything else. The two plans
/// undo each other.
pub proof fn lemma_read_unread_plans(ms: Seq<MailboxInfo>)
    ensures
        action_plan_spec(OrganizeAction::Read, ms) matches Ok((p, s)) && p.add_keywords == seq![
            "$seen"@,
        ] && p.remove_keywords.len() == 0 && p.add_mailboxes.len() == 0 && p.remove_mailboxes.len()
            == 0 && p.replace_mailboxes is None && s.added_keywords == seq!["$seen"@]
            && s.removed_keywords.len() == 0,
        action_plan_spec(OrganizeAction::Unread, ms) matches Ok((p, s)) && p.remove_keywords
            == seq!["$seen"@] && p.add_keywords.len() == 0 && p.add_mailboxes.len() == 0
            && p.remove_mailboxes.len() == 0 && p.replace_mailboxes is None && s.removed_keywords
            == seq!["$seen"@] && s.added_keywords.len() == 0,
        action_plan_spec(OrganizeAction::Read, ms) matches Ok((r, _)) && action_plan_spec(
            OrganizeAction::Unread,
            ms,
        ) matches Ok((u, _)) && r.add_keywords == u.remove_keywords && r.remove_keywords
            == u.add_keywords,
{
}

/// `archive` takes an email out of the inbox (into the archive when there is one) and
/// `trash` leaves it in the trash alone; neither touches keywords, and without the
/// mailbox it needs each one is refused.
pub proof fn lemma_archive_trash_plans(ms: Seq<MailboxInfo>)
    ensures
        resolve_mailbox_spec("inbox"@, ms) is None ==> action_plan_spec(OrganizeAction::Archive, ms)
            is Err,
        action_plan_spec(OrganizeAction::Archive, ms) matches Ok((p, _)) ==> (resolve_mailbox_spec(
            "inbox"@,
            ms,
        ) matches Some(i) && p.remove_mailboxes == seq![i] && p.add_keywords.len() == 0
            && p.remove_keywords.len() == 0 && p.replace_mailboxes is None && p.add_mailboxes.len()
            <= 1 && (p.add_mailboxes.len() == 1 ==> resolve_mailbox_spec("archive"@, ms) == Some(
            p.add_mailboxes[0],
        ))),
        resolve_mailbox_spec("trash"@, ms) is None ==> action_plan_spec(OrganizeAction::Trash, ms)
            is Err,
        action_plan_spec(OrganizeAction::Trash, ms) matches Ok((p, s)) ==> (resolve_mailbox_spec(
            "trash"@,
            ms,
        ) matches Some(t) && p.replace_mailboxes == Some(seq![t]) && p.add_keywords.len() == 0
            && p.remove_keywords.len() == 0 && s.added_mailboxes == seq![t]),
{
}

} // verus!
