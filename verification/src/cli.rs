//! The command line: every command and its options as plain values, the name each
//! command reports in its envelope, and the argument sets that one command derives
//! for another.
use vstd::prelude::*;

use crate::error::owned;
use crate::organize::OrganizeAction;
use crate::paging::{json_string, push_json_string};
use crate::pieces::append_chars;
use crate::text::{chars_of, string_of, trim, trim_chars};

verus! {

/// The global options and the command.
#[derive(Debug)]
pub struct Cli {
    pub json: bool,
    pub plain: bool,
    pub force: bool,
    pub no_input: bool,
    pub dry_run: bool,
    pub account: Option<String>,
    pub verbose: bool,
    pub command: Command,
}

/// A command.
#[derive(Debug)]
pub enum Command {
    Search(SearchArgs),
    Messages(MessagesCommand),
    Get(GetArgs),
    Thread(ThreadCommand),
    Attachment(AttachmentArgs),
    Url(UrlArgs),
    Archive(ArchiveArgs),
    Read(ReadArgs),
    Unread(UnreadArgs),
    Trash(TrashArgs),
    Batch(BatchCommand),
    Inbox(InboxCommand),
    Labels(LabelsCommand),
    Mailboxes(LabelsCommand),
    Identities(IdentitiesCommand),
    Send(SendArgs),
    Reply(ReplyArgs),
    Drafts(DraftsCommand),
    History(HistoryArgs),
    Watch(WatchArgs),
    Config(ConfigCommand),
    Auth(AuthCommand),
}

/// The sort key of a search.
#[derive(Clone, Copy, PartialEq, Eq, Structural, Debug)]
pub enum SortKey {
    ReceivedAt,
}

/// Options of `search`.
#[derive(Debug)]
pub struct SearchArgs {
    pub query: Option<String>,
    pub max: Option<usize>,
    pub page: Option<String>,
    pub oldest: bool,
    pub filter_json: Option<String>,
    pub collapse_threads: Option<bool>,
    pub sort: SortKey,
}

/// The `messages` commands.
#[derive(Debug)]
pub enum MessagesCommand {
    Search(MessagesSearchArgs),
}

/// Options of `messages search` (per email, never collapsed into threads).
#[derive(Debug)]
pub struct MessagesSearchArgs {
    pub query: Option<String>,
    pub max: Option<usize>,
    pub page: Option<String>,
    pub filter_json: Option<String>,
}

/// The output format of `get`.
#[derive(Clone, Copy, PartialEq, Eq, Structural, Debug)]
pub enum GetFormat {
    Metadata,
    Full,
    Raw,
}

/// Options of `get`.
#[derive(Debug)]
pub struct GetArgs {
    pub email_id: String,
    pub format: GetFormat,
    pub max_body_bytes: Option<usize>,
    pub headers: Option<String>,
}

/// The `thread` commands.
#[derive(Debug)]
pub enum ThreadCommand {
    Get(ThreadGetArgs),
    Attachments(ThreadAttachmentsArgs),
    Modify(ThreadModifyArgs),
    Archive(ThreadArchiveArgs),
    Read(ThreadReadArgs),
    Unread(ThreadUnreadArgs),
    Trash(ThreadTrashArgs),
    Delete(ThreadDeleteArgs),
}

/// Options of `thread get`.
#[derive(Debug)]
pub struct ThreadGetArgs {
    pub thread_id: String,
    pub full: bool,
}

/// Options of `thread attachments`.
#[derive(Debug)]
pub struct ThreadAttachmentsArgs {
    pub thread_id: String,
}

/// Options of `thread modify`.
#[derive(Debug)]
pub struct ThreadModifyArgs {
    pub thread_id: String,
    pub add: Vec<String>,
    pub remove: Vec<String>,
    pub add_mailbox: Vec<String>,
    pub remove_mailbox: Vec<String>,
    pub add_keyword: Vec<String>,
    pub remove_keyword: Vec<String>,
}

/// Options of `thread archive`.
#[derive(Debug)]
pub struct ThreadArchiveArgs {
    pub thread_id: String,
}

/// Options of `thread read`.
#[derive(Debug)]
pub struct ThreadReadArgs {
    pub thread_id: String,
}

/// Options of `thread unread`.
#[derive(Debug)]
pub struct ThreadUnreadArgs {
    pub thread_id: String,
}

/// Options of `thread trash`.
#[derive(Debug)]
pub struct ThreadTrashArgs {
    pub thread_id: String,
}

/// Options of `thread delete`.
#[derive(Debug)]
pub struct ThreadDeleteArgs {
    pub thread_id: String,
}

/// Options of `attachment`.
#[derive(Debug)]
pub struct AttachmentArgs {
    pub email_id: String,
    pub blob_id: String,
    pub out: Option<String>,
    pub name: Option<String>,
}

/// Options of `url`.
#[derive(Debug)]
pub struct UrlArgs {
    pub ids: Vec<String>,
}

/// Options of `archive`.
#[derive(Debug)]
pub struct ArchiveArgs {
    pub email_ids: Vec<String>,
    pub whole_thread: bool,
}

/// Options of `read`.
#[derive(Debug)]
pub struct ReadArgs {
    pub email_ids: Vec<String>,
    pub whole_thread: bool,
}

/// Options of `unread`.
#[derive(Debug)]
pub struct UnreadArgs {
    pub email_ids: Vec<String>,
    pub whole_thread: bool,
}

/// Options of `trash`.
#[derive(Debug)]
pub struct TrashArgs {
    pub email_ids: Vec<String>,
    pub whole_thread: bool,
}

/// The `batch` commands.
#[derive(Debug)]
pub enum BatchCommand {
    Modify(BatchModifyArgs),
    Delete(BatchDeleteArgs),
}

/// The `inbox` commands.
#[derive(Debug)]
pub enum InboxCommand {
    Next(InboxNextArgs),
    Do(InboxDoArgs),
}

/// Options of `inbox next`.
#[derive(Debug)]
pub struct InboxNextArgs {
    pub all: bool,
    pub oldest: bool,
    pub max: Option<usize>,
    pub query: Option<String>,
    pub page: Option<String>,
}

/// The actions of `inbox do`.
#[derive(Clone, Copy, PartialEq, Eq, Structural, Debug)]
pub enum InboxAction {
    Archive,
    Trash,
    Read,
    Unread,
}

/// Options of `inbox do`.
#[derive(Debug)]
pub struct InboxDoArgs {
    pub email_id: String,
    pub action: InboxAction,
    pub whole_thread: bool,
}

/// Options of `batch modify`.
#[derive(Debug)]
pub struct BatchModifyArgs {
    pub email_ids: Vec<String>,
    pub add: Vec<String>,
    pub remove: Vec<String>,
    pub add_mailbox: Vec<String>,
    pub remove_mailbox: Vec<String>,
    pub add_keyword: Vec<String>,
    pub remove_keyword: Vec<String>,
}

/// Options of `batch delete`.
#[derive(Debug)]
pub struct BatchDeleteArgs {
    pub email_ids: Vec<String>,
}

/// The `labels` (and `mailboxes`) commands.
#[derive(Debug)]
pub enum LabelsCommand {
    List(LabelsListArgs),
    Get(LabelsGetArgs),
    Create(LabelsCreateArgs),
    Rename(LabelsRenameArgs),
    Delete(LabelsDeleteArgs),
    Modify(LabelsModifyArgs),
}

/// Options of `labels list` (none).
#[derive(Debug)]
pub struct LabelsListArgs {}

/// Options of `labels get`.
#[derive(Debug)]
pub struct LabelsGetArgs {
    pub mailbox: String,
}

/// Options of `labels create`.
#[derive(Debug)]
pub struct LabelsCreateArgs {
    pub name: String,
    pub parent: Option<String>,
    pub role: Option<String>,
    pub subscribe: Option<bool>,
}

/// Options of `labels rename`.
#[derive(Debug)]
pub struct LabelsRenameArgs {
    pub mailbox_id: String,
    pub name: String,
}

/// Options of `labels delete`.
#[derive(Debug)]
pub struct LabelsDeleteArgs {
    pub mailbox_id: String,
    pub remove_emails: bool,
}

/// Options of `labels modify`.
#[derive(Debug)]
pub struct LabelsModifyArgs {
    pub mailbox_id: String,
    pub name: Option<String>,
    pub parent: Option<String>,
    pub sort_order: Option<i32>,
    pub subscribe: Option<bool>,
}

/// The `identities` commands.
#[derive(Debug)]
pub enum IdentitiesCommand {
    List,
    Get(IdentitiesGetArgs),
}

/// Options of `identities get`.
#[derive(Debug)]
pub struct IdentitiesGetArgs {
    pub id: String,
}

/// Options of `send`.
#[derive(Debug)]
pub struct SendArgs {
    pub to: Vec<String>,
    pub subject: String,
    pub text: Option<String>,
    pub body_html: Option<String>,
    pub cc: Vec<String>,
    pub bcc: Vec<String>,
    pub attach: Vec<String>,
    pub identity: Option<String>,
}

/// Options of `reply`.
#[derive(Debug)]
pub struct ReplyArgs {
    pub email_id: String,
    pub reply_all: bool,
    pub to: Vec<String>,
    pub cc: Vec<String>,
    pub bcc: Vec<String>,
    pub subject: Option<String>,
    pub text: Option<String>,
    pub body_html: Option<String>,
    pub attach: Vec<String>,
    pub identity: Option<String>,
}

/// The `drafts` commands.
#[derive(Debug)]
pub enum DraftsCommand {
    List(DraftsListArgs),
    Get(DraftsGetArgs),
    Create(DraftsCreateArgs),
    Update(DraftsUpdateArgs),
    Rewrite(DraftsRewriteArgs),
    Delete(DraftsDeleteArgs),
    Destroy(DraftsDestroyArgs),
    Send(DraftsSendArgs),
}

/// Options of `drafts list`.
#[derive(Debug)]
pub struct DraftsListArgs {
    pub max: Option<usize>,
    pub page: Option<String>,
}

/// Options of `drafts get`.
#[derive(Debug)]
pub struct DraftsGetArgs {
    pub draft_email_id: String,
    pub format: GetFormat,
}

/// Options of `drafts create`.
#[derive(Debug)]
pub struct DraftsCreateArgs {
    pub to: Vec<String>,
    pub subject: Option<String>,
    pub body: Option<String>,
    pub body_file: Option<String>,
    pub body_html: Option<String>,
    pub cc: Vec<String>,
    pub bcc: Vec<String>,
    pub attach: Vec<String>,
    pub identity: Option<String>,
}

/// Options of `drafts update` (mailboxes and keywords of a draft).
#[derive(Debug)]
pub struct DraftsUpdateArgs {
    pub draft_email_id: String,
    pub add: Vec<String>,
    pub remove: Vec<String>,
    pub add_mailbox: Vec<String>,
    pub remove_mailbox: Vec<String>,
    pub add_keyword: Vec<String>,
    pub remove_keyword: Vec<String>,
}

/// Options of `drafts rewrite` (replace a draft by a new one with changed content).
#[derive(Debug)]
pub struct DraftsRewriteArgs {
    pub draft_email_id: String,
    pub to: Option<Vec<String>>,
    pub cc: Option<Vec<String>>,
    pub bcc: Option<Vec<String>>,
    pub subject: Option<String>,
    pub body: Option<String>,
    pub body_file: Option<String>,
    pub body_html: Option<String>,
    pub attach: Vec<String>,
    pub replace_attachments: bool,
    pub clear_attachments: bool,
    pub identity: Option<String>,
    pub destroy_old: bool,
}

/// Options of `drafts delete`.
#[derive(Debug)]
pub struct DraftsDeleteArgs {
    pub draft_email_ids: Vec<String>,
}

/// Options of `drafts destroy`.
#[derive(Debug)]
pub struct DraftsDestroyArgs {
    pub draft_email_ids: Vec<String>,
}

/// Options of `drafts send`.
#[derive(Debug)]
pub struct DraftsSendArgs {
    pub draft_email_id: String,
    pub identity: Option<String>,
}

/// Options of `history`.
#[derive(Debug)]
pub struct HistoryArgs {
    pub since: Option<String>,
    pub max: Option<usize>,
    pub page: Option<String>,
    pub hydrate: bool,
}

/// Options of `watch`.
#[derive(Debug)]
pub struct WatchArgs {
    pub since: Option<String>,
    pub max: Option<usize>,
    pub page: Option<String>,
    pub checkpoint: Option<String>,
    pub hydrate: bool,
    pub pretty: bool,
    pub once: bool,
    pub interval_ms: u64,
    pub jitter_ms: u64,
    pub no_envelope: bool,
}

/// The `config` commands.
#[derive(Debug)]
pub enum ConfigCommand {
    Init,
    List,
    SetDefault(ConfigSetDefaultArgs),
    Show(ConfigShowArgs),
}

/// Options of `config set-default`.
#[derive(Debug)]
pub struct ConfigSetDefaultArgs {
    pub account: String,
}

/// Options of `config show`.
#[derive(Debug)]
pub struct ConfigShowArgs {
    pub effective: bool,
}

/// The `auth` commands.
#[derive(Debug)]
pub enum AuthCommand {
    SetToken(AuthSetTokenArgs),
}

/// Options of `auth set-token`.
#[derive(Debug)]
pub struct AuthSetTokenArgs {
    pub token: String,
}

/// The name a command reports in its envelope (`mailboxes` commands report under
/// `mailboxes.*`, the same commands as `labels` otherwise).
pub open spec fn command_name_spec(c: Command) -> Seq<char> {
    match c {
        Command::Search(_) => "search"@,
        Command::Messages(MessagesCommand::Search(_)) => "messages.search"@,
        Command::Get(_) => "get"@,
        Command::Thread(t) => match t {
            ThreadCommand::Get(_) => "thread.get"@,
            ThreadCommand::Attachments(_) => "thread.attachments"@,
            ThreadCommand::Modify(_) => "thread.modify"@,
            ThreadCommand::Archive(_) => "thread.archive"@,
            ThreadCommand::Read(_) => "thread.read"@,
            ThreadCommand::Unread(_) => "thread.unread"@,
            ThreadCommand::Trash(_) => "thread.trash"@,
            ThreadCommand::Delete(_) => "thread.delete"@,
        },
        Command::Attachment(_) => "attachment"@,
        Command::Url(_) => "url"@,
        Command::Archive(_) => "archive"@,
        Command::Read(_) => "read"@,
        Command::Unread(_) => "unread"@,
        Command::Trash(_) => "trash"@,
        Command::Batch(BatchCommand::Modify(_)) => "batch.modify"@,
        Command::Batch(BatchCommand::Delete(_)) => "batch.delete"@,
        Command::Inbox(InboxCommand::Next(_)) => "inbox.next"@,
        Command::Inbox(InboxCommand::Do(_)) => "inbox.do"@,
        Command::Labels(l) => "labels."@ + labels_verb(l),
        Command::Mailboxes(l) => "mailboxes."@ + labels_verb(l),
        Command::Identities(IdentitiesCommand::List) => "identities.list"@,
        Command::Identities(IdentitiesCommand::Get(_)) => "identities.get"@,
        Command::Send(_) => "send"@,
        Command::Reply(_) => "reply"@,
        Command::Drafts(d) => match d {
            DraftsCommand::List(_) => "drafts.list"@,
            DraftsCommand::Get(_) => "drafts.get"@,
            DraftsCommand::Create(_) => "drafts.create"@,
            DraftsCommand::Update(_) => "drafts.update"@,
            DraftsCommand::Rewrite(_) => "drafts.rewrite"@,
            DraftsCommand::Delete(_) => "drafts.delete"@,
            DraftsCommand::Destroy(_) => "drafts.destroy"@,
            DraftsCommand::Send(_) => "drafts.send"@,
        },
        Command::History(_) => "history"@,
        Command::Watch(_) => "watch"@,
        Command::Config(c) => match c {
            ConfigCommand::Init => "config.init"@,
            ConfigCommand::List => "config.list"@,
            ConfigCommand::SetDefault(_) => "config.set_default"@,
            ConfigCommand::Show(_) => "config.show"@,
        },
        Command::Auth(AuthCommand::SetToken(_)) => "auth.set_token"@,
    }
}

/// The second part of a `labels`/`mailboxes` command name.
pub open spec fn labels_verb(l: LabelsCommand) -> Seq<char> {
    match l {
        LabelsCommand::List(_) => "list"@,
        LabelsCommand::Get(_) => "get"@,
        LabelsCommand::Create(_) => "create"@,
        LabelsCommand::Rename(_) => "rename"@,
        LabelsCommand::Delete(_) => "delete"@,
        LabelsCommand::Modify(_) => "modify"@,
    }
}

fn labels_name(prefix: &str, l: &LabelsCommand) -> (r: String)
    ensures
        r@ == prefix@ + labels_verb(*l),
{
    let mut v = chars_of(prefix);
    let verb = match l {
        LabelsCommand::List(_) => "list",
        LabelsCommand::Get(_) => "get",
        LabelsCommand::Create(_) => "create",
        LabelsCommand::Rename(_) => "rename",
        LabelsCommand::Delete(_) => "delete",
        LabelsCommand::Modify(_) => "modify",
    };
    append_chars(&mut v, &chars_of(verb));
    string_of(&v)
}

/// The name the command reports in its envelope.
pub fn command_name(c: &Command) -> (r: String)
    ensures
        r@ == command_name_spec(*c),
{
    match c {
        Command::Search(_) => owned("search"),
        Command::Messages(MessagesCommand::Search(_)) => owned("messages.search"),
        Command::Get(_) => owned("get"),
        Command::Thread(t) => match t {
            ThreadCommand::Get(_) => owned("thread.get"),
            ThreadCommand::Attachments(_) => owned("thread.attachments"),
            ThreadCommand::Modify(_) => owned("thread.modify"),
            ThreadCommand::Archive(_) => owned("thread.archive"),
            ThreadCommand::Read(_) => owned("thread.read"),
            ThreadCommand::Unread(_) => owned("thread.unread"),
            ThreadCommand::Trash(_) => owned("thread.trash"),
            ThreadCommand::Delete(_) => owned("thread.delete"),
        },
        Command::Attachment(_) => owned("attachment"),
        Command::Url(_) => owned("url"),
        Command::Archive(_) => owned("archive"),
        Command::Read(_) => owned("read"),
        Command::Unread(_) => owned("unread"),
        Command::Trash(_) => owned("trash"),
        Command::Batch(BatchCommand::Modify(_)) => owned("batch.modify"),
        Command::Batch(BatchCommand::Delete(_)) => owned("batch.delete"),
        Command::Inbox(InboxCommand::Next(_)) => owned("inbox.next"),
        Command::Inbox(InboxCommand::Do(_)) => owned("inbox.do"),
        Command::Labels(l) => labels_name("labels.", l),
        Command::Mailboxes(l) => labels_name("mailboxes.", l),
        Command::Identities(IdentitiesCommand::List) => owned("identities.list"),
        Command::Identities(IdentitiesCommand::Get(_)) => owned("identities.get"),
        Command::Send(_) => owned("send"),
        Command::Reply(_) => owned("reply"),
        Command::Drafts(d) => match d {
            DraftsCommand::List(_) => owned("drafts.list"),
            DraftsCommand::Get(_) => owned("drafts.get"),
            DraftsCommand::Create(_) => owned("drafts.create"),
            DraftsCommand::Update(_) => owned("drafts.update"),
            DraftsCommand::Rewrite(_) => owned("drafts.rewrite"),
            DraftsCommand::Delete(_) => owned("drafts.delete"),
            DraftsCommand::Destroy(_) => owned("drafts.destroy"),
            DraftsCommand::Send(_) => owned("drafts.send"),
        },
        Command::History(_) => owned("history"),
        Command::Watch(_) => owned("watch"),
        Command::Config(c) => match c {
            ConfigCommand::Init => owned("config.init"),
            ConfigCommand::List => owned("config.list"),
            ConfigCommand::SetDefault(_) => owned("config.set_default"),
            ConfigCommand::Show(_) => owned("config.show"),
        },
        Command::Auth(AuthCommand::SetToken(_)) => owned("auth.set_token"),
    }
}

impl Cli {
    /// Whether the final envelope is left out: `watch` streams its events and prints
    /// no envelope with `--no-envelope` or `--plain`.
    pub fn suppresses_envelope(&self) -> (r: bool)
        ensures
            r == (self.command matches Command::Watch(w) && (w.no_envelope || self.plain)),
    {
        match &self.command {
            Command::Watch(w) => w.no_envelope || self.plain,
            _ => false,
        }
    }
}

/// The organising shortcut an `inbox do` action stands for.
pub fn inbox_action_plan(action: InboxAction) -> (r: OrganizeAction)
    ensures
        r == match action {
            InboxAction::Archive => OrganizeAction::Archive,
            InboxAction::Trash => OrganizeAction::Trash,
            InboxAction::Read => OrganizeAction::Read,
            InboxAction::Unread => OrganizeAction::Unread,
        },
{
    match action {
        InboxAction::Archive => OrganizeAction::Archive,
        InboxAction::Trash => OrganizeAction::Trash,
        InboxAction::Read => OrganizeAction::Read,
        InboxAction::Unread => OrganizeAction::Unread,
    }
}

/// The query of `inbox next`: the inbox, unread only unless `--all`, and the extra
/// query (trimmed) when it is not blank.
pub open spec fn inbox_query_spec(all: bool, extra: Option<Seq<char>>) -> Seq<char> {
    let base = if all {
        "in:inbox"@
    } else {
        "in:inbox seen:false"@
    };
    match extra {
        Some(e) => if trim(e).len() > 0 {
            base + " "@ + trim(e)
        } else {
            base
        },
        None => base,
    }
}

/// The query that `inbox next` searches with.
pub fn inbox_next_query(all: bool, extra: Option<&str>) -> (r: String)
    ensures
        r@ == inbox_query_spec(
            all,
            match extra {
                Some(e) => Some(e@),
                None => None,
            },
        ),
{
    let mut q = chars_of("in:inbox");
    if !all {
        append_chars(&mut q, &chars_of(" seen:false"));
    }
    if let Some(e) = extra {
        let t = trim_chars(&chars_of(e));
        if t.len() > 0 {
            q.push(' ');
            append_chars(&mut q, &t);
        }
    }
    proof {
        reveal_strlit("in:inbox");
        reveal_strlit(" seen:false");
        reveal_strlit("in:inbox seen:false");
        reveal_strlit(" ");
    }
    string_of(&q)
}

fn opt_owned(o: &Option<String>) -> (r: Option<String>)
    ensures
        crate::mailbox::opt_text(r) == crate::mailbox::opt_text(*o),
{
    match o {
        Some(s) => Some(owned(s.as_str())),
        None => None,
    }
}

/// The search that `inbox next` runs: its query, one item by default, per email.
pub fn inbox_next_search(args: &InboxNextArgs) -> (r: SearchArgs)
    ensures
        r.query matches Some(q) && q@ == inbox_query_spec(
            args.all,
            crate::mailbox::opt_text(args.query),
        ),
        r.max == Some(
            match args.max {
                Some(m) => m,
                None => 1usize,
            },
        ),
        crate::mailbox::opt_text(r.page) == crate::mailbox::opt_text(args.page),
        r.oldest == args.oldest,
        r.filter_json is None,
        r.collapse_threads == Some(false),
{
    let extra: Option<&str> = match &args.query {
        Some(q) => Some(q.as_str()),
        None => None,
    };
    SearchArgs {
        query: Some(inbox_next_query(args.all, extra)),
        max: Some(
            match args.max {
                Some(m) => m,
                None => 1,
            },
        ),
        page: opt_owned(&args.page),
        oldest: args.oldest,
        filter_json: None,
        collapse_threads: Some(false),
        sort: SortKey::ReceivedAt,
    }
}

/// The search that `messages search` runs: per email, newest first.
pub fn messages_search_args(args: &MessagesSearchArgs) -> (r: SearchArgs)
    ensures
        crate::mailbox::opt_text(r.query) == crate::mailbox::opt_text(args.query),
        r.max == args.max,
        crate::mailbox::opt_text(r.page) == crate::mailbox::opt_text(args.page),
        !r.oldest,
        crate::mailbox::opt_text(r.filter_json) == crate::mailbox::opt_text(args.filter_json),
        r.collapse_threads == Some(false),
{
    SearchArgs {
        query: opt_owned(&args.query),
        max: args.max,
        page: opt_owned(&args.page),
        oldest: false,
        filter_json: opt_owned(&args.filter_json),
        collapse_threads: Some(false),
        sort: SortKey::ReceivedAt,
    }
}

/// The filter that lists one mailbox, as JSON.
pub open spec fn in_mailbox_filter(id: Seq<char>) -> Seq<char> {
    "{\"inMailbox\":"@ + json_string(id) + "}"@
}

/// The search that `drafts list` runs: the drafts mailbox, per email, newest first.
pub fn drafts_list_search(args: &DraftsListArgs, drafts_id: &str) -> (r: SearchArgs)
    ensures
        r.query is None,
        r.max == args.max,
        crate::mailbox::opt_text(r.page) == crate::mailbox::opt_text(args.page),
        !r.oldest,
        r.filter_json matches Some(f) && f@ == in_mailbox_filter(drafts_id@),
        r.collapse_threads == Some(false),
{
    let mut f = chars_of("{\"inMailbox\":");
    push_json_string(&mut f, drafts_id);
    append_chars(&mut f, &chars_of("}"));
    SearchArgs {
        query: None,
        max: args.max,
        page: opt_owned(&args.page),
        oldest: false,
        filter_json: Some(string_of(&f)),
        collapse_threads: Some(false),
        sort: SortKey::ReceivedAt,
    }
}

} // verus!
