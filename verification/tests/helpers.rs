use xin::app_config::{
    apply_token_file, default_token_file_for_account, select_token_account, token_file_for, AccountConfig,
    AppConfig, AuthConfigFile, Defaults, EnvVars,
};
use xin::cli::{
    drafts_list_search, inbox_action_plan, inbox_next_search, messages_search_args, Cli, Command, DraftsListArgs,
    GetFormat, InboxAction, InboxNextArgs, MessagesSearchArgs, WatchArgs,
};
use xin::compose::{
    check_draft_ids, draft_body_source, drafts_update_plan, find_identity, reusable_attachments, rewrite_sender,
    text_arg_source, IdentityInfo, PartInfo, SenderChoice, TextArg,
};
use xin::envelope::{attachment_out_path, is_unread, Meta};
use xin::error::XinErrorOut;
use xin::feature::{
    assertion_prefix, case_path, check_assertion, default_expect_ok, default_retry_attempts, is_case_file_extension,
    retry_schedule, saved_value, check_step_ok, step_name, seed_user_email, seed_user_roles, use_color, Expected, Found, SubstContext,
};
use xin::headers::{
    full_properties, get_body_limit, get_properties, header_source, needs_header_fetch, thread_email_properties, EmailProperty,
    HeaderSource, StdProperty,
};
use xin::links::{check_url_request, replace_str, url_target, Session};
use xin::mailbox::{check_mailbox_changes, check_sort_order, find_drafts_mailbox_id, server_role, MailboxInfo, MailboxRole};
use xin::organize::{action_plan, email_thread, plan_patch, thread_members, seen_plan, ModifyPlan, OrganizeAction, PatchValue};
use xin::paging::{
    checkpoint_token, decode_token_bytes, history_is_bootstrap, history_next_page, search_shape, watch_start, WatchStart,
};
use xin::plain::{
    attachment_line, download_line, label_line, plain_ok_fallback, plain_view_for, render_get_page,
    render_search_items, AttachmentLine, GetPage, PlainView, SummaryLine,
};
use xin::time::to_rfc3339;
use xin::header_dict::{headers_dict, Address, CustomHeader, HeaderFields, HeaderOut};
use xin::links::is_fastmail;
use xin::stream::{change_line, ready_line, stopped_line, tick_line, ChangeKind};

fn s(v: &str) -> String {
    v.to_string()
}

fn strings(v: &[&str]) -> Vec<String> {
    v.iter().map(|x| x.to_string()).collect()
}

fn env(pairs: &[(&str, &str)]) -> EnvVars {
    EnvVars { vars: pairs.iter().map(|(k, v)| (s(k), s(v))).collect() }
}

fn mailbox(id: &str, name: &str, role: MailboxRole) -> MailboxInfo {
    MailboxInfo {
        id: Some(s(id)),
        name: Some(s(name)),
        role,
        parent_id: None,
        sort_order: 0,
        total_emails: 0,
        unread_emails: 0,
        total_threads: 0,
        unread_threads: 0,
        is_subscribed: true,
    }
}

// ---------------------------------------------------------------- time

#[test]
fn unix_seconds_as_rfc3339() {
    assert_eq!(to_rfc3339(Some(0)), Some(s("1970-01-01T00:00:00+00:00")));
    assert_eq!(to_rfc3339(Some(86_400)), Some(s("1970-01-02T00:00:00+00:00")));
    assert_eq!(to_rfc3339(None), None);
}

// ---------------------------------------------------------------- feature runner

#[test]
fn feature_defaults_and_retries() {
    assert!(default_expect_ok());
    assert_eq!(default_retry_attempts(), 20);
    assert_eq!(retry_schedule(None), (1, 500));
    assert_eq!(retry_schedule(Some((3, None))), (3, 500));
    assert_eq!(retry_schedule(Some((3, Some(10)))), (3, 10));
}

#[test]
fn feature_seed_users() {
    assert_eq!(seed_user_email("bob", "example.com", &None), "bob@example.com");
    assert_eq!(seed_user_email("bob", "example.com", &Some(s("b@x.org"))), "b@x.org");
    assert_eq!(seed_user_roles(&None), strings(&["user"]));
    assert_eq!(seed_user_roles(&Some(strings(&["admin", "user"]))), strings(&["admin", "user"]));
}

#[test]
fn feature_case_files() {
    assert!(is_case_file_extension(Some("yaml")));
    assert!(is_case_file_extension(Some("yml")));
    assert!(!is_case_file_extension(Some("json")));
    assert!(!is_case_file_extension(None));
    assert_eq!(case_path("/work", "cases/a.yaml"), "/work/cases/a.yaml");
    assert_eq!(case_path("/work", "/abs/a.yaml"), "/abs/a.yaml");
}

#[test]
fn feature_colour_choice() {
    assert!(!use_color(&env(&[("NO_COLOR", "1"), ("FORCE_COLOR", "1")]), true));
    assert!(use_color(&env(&[("FORCE_COLOR", "1")]), false));
    assert!(use_color(&env(&[]), true));
    assert!(!use_color(&env(&[]), false));
}

fn ctx() -> SubstContext {
    SubstContext { case_id: s("c1"), run_id: s("r1"), vars: vec![(s("id"), s("m1"))] }
}

#[test]
fn feature_assertions() {
    let c = ctx();
    assert_eq!(check_assertion("/data/x", &Found::Missing, None, &None, None, &c), Err(s("missing pointer /data/x")));
    assert_eq!(check_assertion("/p", &Found::Null, Some(true), &None, None, &c), Err(s("value is null")));
    assert_eq!(check_assertion("/p", &Found::Null, None, &None, None, &c), Ok(()));
    let eq = Some(Expected::Text(s("${id}")));
    assert_eq!(check_assertion("/p", &Found::Text(s("m1")), None, &eq, None, &c), Ok(()));
    assert_eq!(
        check_assertion("/p", &Found::Text(s("m2")), None, &eq, None, &c),
        Err(s("expected \"m1\", got \"m2\""))
    );
    let three = Some(Expected::Other(s("3")));
    assert_eq!(check_assertion("/p", &Found::Other(s("3")), None, &three, None, &c), Ok(()));
    assert_eq!(check_assertion("/p", &Found::Null, None, &three, None, &c), Err(s("expected 3, got null")));
    let bad = Some(Expected::Text(s("${nope}")));
    assert_eq!(
        check_assertion("/p", &Found::Text(s("m1")), None, &bad, None, &c),
        Err(s("unknown var \"nope\" in \"${nope}\""))
    );
    assert_eq!(check_assertion("/p", &Found::Text(s("hello")), None, &None, Some("ell"), &c), Ok(()));
    assert_eq!(
        check_assertion("/p", &Found::Text(s("hey")), None, &None, Some("ell"), &c),
        Err(s("expected to contain \"ell\", got \"hey\""))
    );
    assert_eq!(
        check_assertion("/p", &Found::Other(s("1")), None, &None, Some("1"), &c),
        Err(s("contains expects string, got 1"))
    );
}

#[test]
fn feature_step_names_and_ok() {
    assert_eq!(step_name(None, 0), "step-1");
    assert_eq!(step_name(None, 11), "step-12");
    assert_eq!(step_name(Some("login"), 3), "login");
    assert_eq!(check_step_ok(true, Some(true), "o", "e"), Ok(()));
    assert_eq!(check_step_ok(false, None, "o", "e"), Ok(()));
    assert_eq!(
        check_step_ok(true, None, "o", "e"),
        Err(s("expected ok=true but got ok=false\nstdout:\no\nstderr:\ne"))
    );
}

#[test]
fn feature_assertion_prefix_and_saved_values() {
    assert_eq!(assertion_prefix("/ok", None), "assert /ok");
    assert_eq!(assertion_prefix("/ok", Some("")), "assert /ok");
    assert_eq!(assertion_prefix("/ok", Some("is ok")), "assert /ok (is ok)");
    assert_eq!(saved_value("id", "/data/id", &Found::Text(s("E1")), "out"), Ok(s("E1")));
    assert_eq!(
        saved_value("id", "/data/id", &Found::Missing, "out"),
        Err(s("save var id: missing pointer /data/id\nstdout:\nout"))
    );
    assert_eq!(
        saved_value("id", "/data/id", &Found::Other(s("5")), "out"),
        Err(s("save var id: expected string at /data/id, got 5\nstdout:\nout"))
    );
}

// ---------------------------------------------------------------- plain output

#[test]
fn plain_lines() {
    assert_eq!(label_line("mb1", "inbox", "My\tBox"), "mb1\tinbox\tMy Box");
    let a = AttachmentLine {
        email_id: s("E1"),
        blob_id: s("B1"),
        name: s("a\nb.pdf"),
        content_type: s("application/pdf"),
        size: -3,
    };
    assert_eq!(attachment_line(&a), "E1\tB1\ta b.pdf\tapplication/pdf\t-3");
    assert_eq!(download_line("out/a.pdf", 12, "B1"), "out/a.pdf\t12\tB1");
    assert_eq!(plain_ok_fallback("send"), "OK\tsend");
}

#[test]
fn plain_views_by_command() {
    assert_eq!(plain_view_for("search"), PlainView::SearchItems);
    assert_eq!(plain_view_for("drafts.list"), PlainView::SearchItems);
    assert_eq!(plain_view_for("mailboxes.list"), PlainView::Labels);
    assert_eq!(plain_view_for("thread.attachments"), PlainView::ThreadAttachments);
    assert_eq!(plain_view_for("attachment"), PlainView::Attachment);
    assert_eq!(plain_view_for("history"), PlainView::History);
    assert_eq!(plain_view_for("get"), PlainView::Get);
    assert_eq!(plain_view_for("send"), PlainView::Fallback);
}

#[test]
fn plain_search_items_one_line_each() {
    let item = |id: &str, unread: bool| SummaryLine {
        received_at: s("2024-01-01T00:00:00Z"),
        from: s("a@x"),
        subject: s("Hi"),
        unread,
        has_attachment: false,
        thread_id: s("T"),
        email_id: s(id),
    };
    let out = render_search_items(&vec![item("E1", true), item("E2", false)]);
    assert_eq!(
        out,
        "2024-01-01T00:00:00Z\ta@x\tHi\tunread\t\tT\tE1\n2024-01-01T00:00:00Z\ta@x\tHi\tread\t\tT\tE2"
    );
}

fn page(body: &str, attachments: Vec<AttachmentLine>) -> GetPage {
    GetPage {
        subject: s("Hi"),
        from: s("a@x"),
        to: s("b@x"),
        received_at: s("2024-01-01T00:00:00Z"),
        thread_id: s("T1"),
        email_id: s("E1"),
        unread: true,
        has_attachment: !attachments.is_empty(),
        preview: s(""),
        body_text: s(body),
        attachments,
    }
}

#[test]
fn plain_get_page() {
    let head = "Subject: Hi\nFrom:    a@x\nTo:      b@x\nDate:    2024-01-01T00:00:00Z\nThread:  T1\nEmail:   E1\nUnread:  true\n";
    assert_eq!(render_get_page(&page("Hello\n", vec![])), format!("{head}Attach:  false\n\nBody (text):\nHello"));
    let att = AttachmentLine {
        email_id: s("E1"),
        blob_id: s("B1"),
        name: s("a.pdf"),
        content_type: s("application/pdf"),
        size: 10,
    };
    assert_eq!(
        render_get_page(&page("", vec![att])),
        format!("{head}Attach:  true\n\nAttachments:\n- a.pdf\tapplication/pdf\t10\tB1")
    );
}

// ---------------------------------------------------------------- organising

#[test]
fn read_and_unread_plans() {
    let (plan, summary) = seen_plan(true);
    assert_eq!(plan.add_keywords, strings(&["$seen"]));
    assert!(plan.remove_keywords.is_empty());
    assert_eq!(summary.added_keywords, strings(&["$seen"]));
    let (plan, summary) = seen_plan(false);
    assert_eq!(plan.remove_keywords, strings(&["$seen"]));
    assert_eq!(summary.removed_keywords, strings(&["$seen"]));
    assert!(plan.replace_mailboxes.is_none());
}

#[test]
fn action_plans_need_their_mailboxes() {
    assert!(action_plan(OrganizeAction::Read, &vec![]).is_ok());
    let e = action_plan(OrganizeAction::Archive, &vec![]).err().unwrap();
    assert_eq!((e.kind.as_str(), e.message.as_str()), ("xinConfigError", "inbox mailbox not found"));
    let e = action_plan(OrganizeAction::Trash, &vec![]).err().unwrap();
    assert_eq!(e.message, "trash mailbox not found");
    assert_eq!(inbox_action_plan(InboxAction::Trash), OrganizeAction::Trash);
    assert_eq!(inbox_action_plan(InboxAction::Unread), OrganizeAction::Unread);
}

// ---------------------------------------------------------------- drafts

#[test]
fn text_options_and_body_sources() {
    assert!(matches!(text_arg_source("@notes.txt"), TextArg::File(ref p) if p == "notes.txt"));
    assert!(matches!(text_arg_source("hello"), TextArg::Inline(ref t) if t == "hello"));
    assert_eq!(
        draft_body_source(Some("a"), Some("b")).err().unwrap().message,
        "use either --body or --body-file"
    );
    assert!(matches!(draft_body_source(None, Some("p.txt")), Ok(Some(TextArg::File(ref p))) if p == "p.txt"));
    assert!(matches!(draft_body_source(None, None), Ok(None)));
    assert_eq!(check_draft_ids(0).err().unwrap().message, "missing draft id");
    assert!(check_draft_ids(2).is_ok());
}

#[test]
fn rewrite_sender_choice() {
    assert!(matches!(rewrite_sender(Some("id1"), &None, &Some(s("e@x"))), SenderChoice::Identity(ref i) if i == "id1"));
    assert!(matches!(
        rewrite_sender(None, &Some(s("Ann")), &Some(s("e@x"))),
        SenderChoice::Existing(Some(ref n), ref e) if n == "Ann" && e == "e@x"
    ));
    assert!(matches!(rewrite_sender(None, &Some(s("Ann")), &None), SenderChoice::DefaultIdentity));
}

#[test]
fn reusable_attachments_need_blob_and_type() {
    let parts = vec![
        PartInfo { blob_id: Some(s("B1")), content_type: Some(s("text/plain")), size: 3, name: Some(s("a.txt")) },
        PartInfo { blob_id: None, content_type: Some(s("text/plain")), size: 4, name: None },
        PartInfo { blob_id: Some(s("B3")), content_type: None, size: 5, name: None },
        PartInfo { blob_id: Some(s("B4")), content_type: Some(s("image/png")), size: 6, name: None },
    ];
    let r = reusable_attachments(&parts);
    assert_eq!(r.iter().map(|b| b.blob_id.clone()).collect::<Vec<_>>(), strings(&["B1", "B4"]));
    assert_eq!(r[0].name, Some(s("a.txt")));
    assert_eq!(r[1].size, 6);
}

#[test]
fn identities_found_by_id_or_email() {
    let ids = vec![
        IdentityInfo { id: Some(s("i1")), name: Some(s("Me")), email: Some(s("me@x")) },
        IdentityInfo { id: Some(s("i2")), name: None, email: Some(s("alt@x")) },
    ];
    assert_eq!(find_identity(&ids, "i2").unwrap(), 1);
    assert_eq!(find_identity(&ids, "me@x").unwrap(), 0);
    let e = find_identity(&ids, "nobody").err().unwrap();
    assert_eq!(e.kind, "xinUsageError");
    assert_eq!(e.message, "identity not found: nobody (use `xin identities list`)");
}

#[test]
fn drafts_update_routes_words() {
    let mbs = vec![mailbox("mbInbox", "Inbox", MailboxRole::Inbox), mailbox("mbWork", "Work", MailboxRole::NoRole)];
    let plan = drafts_update_plan(
        &strings(&["work", "$flagged"]),
        &strings(&["inbox"]),
        &vec![],
        &vec![],
        &vec![],
        &vec![],
        &mbs,
    )
    .unwrap();
    assert_eq!(plan.add_mailboxes, strings(&["mbWork"]));
    assert_eq!(plan.add_keywords, strings(&["$flagged"]));
    assert_eq!(plan.remove_mailboxes, strings(&["mbInbox"]));
    let e = drafts_update_plan(&vec![], &vec![], &vec![], &vec![], &vec![], &vec![], &mbs).err().unwrap();
    assert_eq!(e.message, "no changes specified");
}

// ---------------------------------------------------------------- mailboxes

#[test]
fn drafts_mailbox_by_role_then_name() {
    let by_role = vec![mailbox("mb1", "Brouillons", MailboxRole::Drafts), mailbox("mb2", "Drafts", MailboxRole::NoRole)];
    assert_eq!(find_drafts_mailbox_id(&by_role).unwrap(), "mb1");
    let by_name = vec![mailbox("mb3", "draft", MailboxRole::NoRole)];
    assert_eq!(find_drafts_mailbox_id(&by_name).unwrap(), "mb3");
    let e = find_drafts_mailbox_id(&[]).err().unwrap();
    assert_eq!((e.kind.as_str(), e.message.as_str()), ("xinConfigError", "drafts mailbox not found"));
}

#[test]
fn mailbox_modify_checks() {
    assert_eq!(check_sort_order(Some(-1)).err().unwrap().message, "sort-order must be non-negative");
    assert_eq!(check_sort_order(Some(7)).unwrap(), Some(7));
    assert_eq!(check_sort_order(None).unwrap(), None);
    assert_eq!(check_mailbox_changes(&None, &None, None, None).err().unwrap().message, "no changes specified");
    assert_eq!(check_mailbox_changes(&Some(s("N")), &None, None, None).unwrap(), None);
    assert_eq!(check_mailbox_changes(&None, &None, Some(3), None).unwrap(), Some(3));
}

// ---------------------------------------------------------------- get

#[test]
fn get_property_lists() {
    assert_eq!(get_body_limit(None), 262_144);
    assert_eq!(get_body_limit(Some(10)), 10);
    let extra = vec![EmailProperty::TextHeader { name: s("X-Foo"), all: false }];
    assert!(get_properties(GetFormat::Full, &extra).is_none());
    let props = get_properties(GetFormat::Metadata, &extra).unwrap();
    assert_eq!(props.len(), 13);
    assert!(matches!(props[0], EmailProperty::Std(StdProperty::Id)));
    assert!(matches!(props[12], EmailProperty::TextHeader { ref name, all: false } if name == "X-Foo"));
    assert!(needs_header_fetch(GetFormat::Raw, true, &extra));
    assert!(!needs_header_fetch(GetFormat::Raw, false, &extra));
    assert!(!needs_header_fetch(GetFormat::Metadata, true, &extra));
    let t = thread_email_properties(true, false);
    assert_eq!(t.len(), 13);
    assert_eq!(t[12], StdProperty::Attachments);
    assert_eq!(thread_email_properties(true, true).len(), 17);
}

#[test]
fn full_get_property_list() {
    let extra = vec![
        EmailProperty::Std(StdProperty::Subject),
        EmailProperty::TextHeader { name: s("X-Foo"), all: true },
        EmailProperty::TextHeader { name: s("X-Foo"), all: true },
    ];
    let props = full_properties(&extra);
    assert_eq!(props.len(), 18);
    assert!(matches!(props[12], EmailProperty::Std(StdProperty::BodyStructure)));
    assert!(matches!(props[16], EmailProperty::Std(StdProperty::Attachments)));
    assert!(matches!(props[17], EmailProperty::TextHeader { ref name, all: true } if name == "X-Foo"));
}

#[test]
fn header_sources() {
    assert!(matches!(header_source("date"), HeaderSource::Date));
    assert!(matches!(header_source("reply-to"), HeaderSource::ReplyTo));
    assert!(matches!(header_source("x-mailer"), HeaderSource::Custom { ref name, all: false } if name == "X-Mailer"));
    assert!(matches!(header_source("received"), HeaderSource::Custom { ref name, all: true } if name == "Received"));
}

// ---------------------------------------------------------------- paging

#[test]
fn history_next_page_only_while_more() {
    assert_eq!(history_next_page(false, "S1", 5), None);
    let t = history_next_page(true, "S2", 100).unwrap();
    assert_eq!(decode_token_bytes(&t).unwrap(), br#"{"sinceState":"S2","maxChanges":100}"#.to_vec());
}

#[test]
fn watch_start_priority() {
    assert!(matches!(watch_start(Some("p"), Some("c"), Some("s")), WatchStart::Token(ref t) if t == "p"));
    assert!(matches!(watch_start(None, Some(" c \n"), Some("s")), WatchStart::Token(ref t) if t == "c"));
    assert!(matches!(watch_start(None, Some("  "), Some("s")), WatchStart::Since(ref t) if t == "s"));
    assert!(matches!(watch_start(None, None, None), WatchStart::CurrentState));
    assert_eq!(checkpoint_token(" tok\n"), Some(s("tok")));
    assert_eq!(checkpoint_token("\n"), None);
    assert!(history_is_bootstrap(None, None));
    assert!(!history_is_bootstrap(Some("S1"), None));
    assert!(!history_is_bootstrap(None, Some("tok")));
    assert_eq!(search_shape(None, None), (20, true));
    assert_eq!(search_shape(Some(5), Some(false)), (5, false));
}

// ---------------------------------------------------------------- command line

#[test]
fn derived_searches() {
    let args = InboxNextArgs { all: false, oldest: true, max: None, query: Some(s(" from:bob ")), page: None };
    let q = inbox_next_search(&args);
    assert_eq!(q.query, Some(s("in:inbox seen:false from:bob")));
    assert_eq!(q.max, Some(1));
    assert!(q.oldest);
    assert_eq!(q.collapse_threads, Some(false));

    let m = messages_search_args(&MessagesSearchArgs {
        query: Some(s("from:ann")),
        max: Some(3),
        page: None,
        filter_json: None,
    });
    assert_eq!(m.query, Some(s("from:ann")));
    assert_eq!(m.max, Some(3));
    assert!(!m.oldest);
    assert_eq!(m.collapse_threads, Some(false));

    let d = drafts_list_search(&DraftsListArgs { max: Some(5), page: Some(s("tok")) }, "d\"1");
    assert_eq!(d.filter_json, Some(s("{\"inMailbox\":\"d\\\"1\"}")));
    assert_eq!(d.page, Some(s("tok")));
    assert!(d.query.is_none());
}

fn watch_cli(no_envelope: bool, plain: bool) -> Cli {
    Cli {
        json: false,
        plain,
        force: false,
        no_input: false,
        dry_run: false,
        account: None,
        verbose: false,
        command: Command::Watch(WatchArgs {
            since: None,
            max: None,
            page: None,
            checkpoint: None,
            hydrate: false,
            pretty: false,
            once: true,
            interval_ms: 30_000,
            jitter_ms: 0,
            no_envelope,
        }),
    }
}

#[test]
fn watch_envelope_suppression() {
    assert!(!watch_cli(false, false).suppresses_envelope());
    assert!(watch_cli(true, false).suppresses_envelope());
    assert!(watch_cli(false, true).suppresses_envelope());
}

// ---------------------------------------------------------------- configuration

fn config_with(accounts: Vec<(&str, AuthConfigFile)>, default: Option<&str>) -> AppConfig {
    AppConfig {
        defaults: Defaults { account: default.map(s) },
        accounts: accounts
            .into_iter()
            .map(|(n, auth)| {
                (s(n), AccountConfig { base_url: None, session_url: None, auth, trust_redirect_hosts: vec![] })
            })
            .collect(),
    }
}

fn bearer_file(f: Option<&str>) -> AuthConfigFile {
    AuthConfigFile::Bearer { token: None, token_env: None, token_file: f.map(s) }
}

#[test]
fn token_account_and_file() {
    let e = env(&[("HOME", "/home/u")]);
    let cfg = config_with(vec![("work", bearer_file(None)), ("home", bearer_file(Some("~/t/home.token")))], Some("work"));
    assert_eq!(select_token_account(&cfg, None).unwrap(), "work");
    assert_eq!(select_token_account(&cfg, Some("home")).unwrap(), "home");
    assert_eq!(select_token_account(&cfg, Some("fastmail")).unwrap(), "fastmail");
    assert_eq!(
        select_token_account(&cfg, Some("other")).err().unwrap().message,
        "unknown account 'other'; run `xin config init` and edit config first"
    );
    assert_eq!(token_file_for(&cfg, "work", &e).unwrap(), "/home/u/.config/xin/tokens/work.token");
    assert_eq!(token_file_for(&cfg, "home", &e).unwrap(), "/home/u/t/home.token");
    assert_eq!(default_token_file_for_account("x", &env(&[("XIN_CONFIG_PATH", "/etc/xin.json")])).unwrap(), "/etc/tokens/x.token");
    let err = default_token_file_for_account("x", &env(&[])).err().unwrap();
    assert_eq!(err.kind, "xinConfigError");
    assert!(err.message.starts_with("token dir error: "));
}

#[test]
fn token_file_is_recorded_in_the_account() {
    let cfg = config_with(vec![("work", bearer_file(None))], None);
    let cfg = apply_token_file(cfg, "work", "/t/work.token");
    assert_eq!(cfg.defaults.account, Some(s("work")));
    assert!(matches!(
        cfg.accounts[0].1.auth,
        AuthConfigFile::Bearer { token: None, token_env: None, token_file: Some(ref f) } if f == "/t/work.token"
    ));
    let cfg = config_with(vec![("a", bearer_file(None)), ("b", bearer_file(None))], Some("a"));
    let cfg = apply_token_file(cfg, "b", "/t/b.token");
    assert_eq!(cfg.defaults.account, Some(s("a")));
}

// ---------------------------------------------------------------- links and session

#[test]
fn url_requests_and_targets() {
    let e = check_url_request(0).err().unwrap();
    assert_eq!(e.kind, "xinNotImplemented");
    assert!(check_url_request(2).is_ok());
    assert_eq!(url_target("T1", &Some(strings(&["E1", "E2"]))), (true, s("E1")));
    assert_eq!(url_target("E9", &Some(vec![])), (false, s("E9")));
    assert_eq!(url_target("E9", &None), (false, s("E9")));
    assert_eq!(replace_str("a{x}b{x}", "{x}", "1"), "a1b1");
    assert_eq!(replace_str("{x", "{x}", "1"), "{x");
}

#[test]
fn session_account_and_download_urls() {
    let session = Session {
        api_url: s("https://h/api"),
        download_url: s("https://h/d/{accountId}/{blobId}/{name}?type={type}"),
        upload_url: s("https://h/u/{accountId}"),
        primary_accounts: vec![(s("urn:ietf:params:jmap:core"), s("c1")), (s("urn:ietf:params:jmap:mail"), s("A1"))],
    };
    assert_eq!(session.mail_account_id().unwrap(), "A1");
    assert_eq!(
        session.expand_download_url("A1", "B1", "a b.pdf", "application/pdf"),
        "https://h/d/A1/B1/a%20b.pdf?type=application%2Fpdf"
    );
    let bare = Session { api_url: s(""), download_url: s(""), upload_url: s(""), primary_accounts: vec![] };
    assert_eq!(bare.mail_account_id().err().unwrap().message, "session missing primaryAccounts for jmap:mail");
}

// ---------------------------------------------------------------- envelope and errors

#[test]
fn envelope_helpers() {
    assert_eq!(attachment_out_path(&Some(s("o.bin")), &Some(s("n.pdf")), "B1"), "o.bin");
    assert_eq!(attachment_out_path(&None, &Some(s("n.pdf")), "B1"), "n.pdf");
    assert_eq!(attachment_out_path(&None, &None, "B1"), "B1");
    assert!(is_unread(&strings(&["$flagged"])));
    assert!(!is_unread(&strings(&["$flagged", "$seen"])));
    assert!(Meta::with_warnings(&vec![]).warnings.is_none());
    assert_eq!(Meta::with_warnings(&strings(&["w"])).warnings, Some(strings(&["w"])));
    assert_eq!(Meta::with_next_page(Some(s("p"))).next_page, Some(s("p")));
}

#[test]
fn error_kinds() {
    assert_eq!(XinErrorOut::usage(s("m")).kind, "xinUsageError");
    assert_eq!(XinErrorOut::config(s("m")).kind, "xinConfigError");
    assert_eq!(XinErrorOut::not_implemented(s("m")).kind, "xinNotImplemented");
    let nf = XinErrorOut::not_found(s("email not found"));
    assert_eq!(nf.kind, "jmapMethodError");
    assert_eq!(nf.jmap.map(|j| j.error_type), Some(s("notFound")));
    let h = XinErrorOut::http_status(s("session http error"), 401);
    assert_eq!(h.kind, "httpError");
    assert_eq!(h.http.map(|x| x.status), Some(401));
}

// ---------------------------------------------------------------- get --headers

#[test]
fn headers_dictionary_values() {
    let fields = HeaderFields {
        from: None,
        to: None,
        cc: None,
        bcc: None,
        sender: None,
        reply_to: Some(vec![Address { name: None, email: s("reply@example.com") }]),
        subject: None,
        sent_at: Some(1_770_508_800),
        message_id: Some(strings(&["<m1@example.com>"])),
        in_reply_to: None,
        references: None,
    };
    let custom = vec![
        CustomHeader { name: s("Received"), all: true, value: HeaderOut::Texts(strings(&["from A", "from B"])) },
        CustomHeader { name: s("X-Custom"), all: false, value: HeaderOut::Text(s("hello")) },
    ];
    let requested = strings(&["received", "dkim-signature", "message-id", "date", "reply-to", "x-custom"]);
    let d = headers_dict(&fields, &custom, &requested);
    assert_eq!(d.len(), 6);
    assert_eq!(d.iter().map(|(k, _)| k.clone()).collect::<Vec<_>>(), requested);
    assert!(matches!(d[0].1, HeaderOut::Texts(ref v) if v.len() == 2));
    assert!(matches!(d[1].1, HeaderOut::Null));
    assert!(matches!(d[2].1, HeaderOut::Text(ref t) if t == "<m1@example.com>"));
    assert!(matches!(d[3].1, HeaderOut::Text(ref t) if t == "2026-02-08T00:00:00+00:00"));
    assert!(matches!(d[4].1, HeaderOut::Addresses(ref a) if a.len() == 1 && a[0].email == "reply@example.com"));
    assert!(matches!(d[5].1, HeaderOut::Text(ref t) if t == "hello"));
}

#[test]
fn fastmail_hosts_only() {
    assert!(is_fastmail(None, "https://fastmail.com"));
    assert!(is_fastmail(None, "https://api.fastmail.com"));
    assert!(!is_fastmail(None, "https://evilfastmail.com"));
    assert!(!is_fastmail(None, "https://example.com"));
    assert!(is_fastmail(Some("fastmail"), "https://example.com"));
}

#[test]
fn watch_plain_lines() {
    assert_eq!(ready_line("S0", 100), "READY\tS0\tmaxChanges=100");
    assert_eq!(tick_line("S0", "S1", 1, 1, 1, false), "TICK\tS0 -> S1\tcreated=1\tupdated=1\tdestroyed=1\thasMore=false");
    assert_eq!(change_line(ChangeKind::Created, "m_new"), "CREATED\tm_new");
    assert_eq!(change_line(ChangeKind::Updated, "m_upd"), "UPDATED\tm_upd");
    assert_eq!(change_line(ChangeKind::Destroyed, "m_del"), "DESTROYED\tm_del");
    assert_eq!(stopped_line("ctrl_c"), "STOPPED\tctrl_c");
}

fn patch_summary(plan: &ModifyPlan) -> Vec<(String, String)> {
    plan_patch(plan)
        .into_iter()
        .map(|e| {
            let v = match e.value {
                PatchValue::True => "true".to_string(),
                PatchValue::Null => "null".to_string(),
                PatchValue::Ids(ids) => ids.join("+"),
            };
            (e.path, v)
        })
        .collect()
}

#[test]
fn email_set_patch_from_plan() {
    let plan = ModifyPlan {
        add_mailboxes: vec!["mb1".to_string()],
        remove_mailboxes: vec!["mb2".to_string()],
        add_keywords: vec!["$seen".to_string()],
        remove_keywords: vec!["$flagged".to_string()],
        replace_mailboxes: None,
    };
    assert_eq!(
        patch_summary(&plan),
        vec![
            ("mailboxIds/mb1".to_string(), "true".to_string()),
            ("mailboxIds/mb2".to_string(), "null".to_string()),
            ("keywords/$seen".to_string(), "true".to_string()),
            ("keywords/$flagged".to_string(), "null".to_string()),
        ]
    );
    let replace = ModifyPlan {
        add_mailboxes: vec!["ignored".to_string()],
        remove_mailboxes: vec![],
        add_keywords: vec![],
        remove_keywords: vec!["$seen".to_string()],
        replace_mailboxes: Some(vec!["a".to_string(), "b".to_string()]),
    };
    assert_eq!(
        patch_summary(&replace),
        vec![
            ("mailboxIds".to_string(), "a+b".to_string()),
            ("keywords/$seen".to_string(), "null".to_string()),
        ]
    );
}

#[test]
fn whole_thread_lookups() {
    let e = thread_members(None).unwrap_err();
    assert_eq!(e.kind, "xinUsageError");
    assert_eq!(e.message, "thread not found");
    assert_eq!(thread_members(Some(vec!["m1".to_string()])).unwrap(), vec!["m1".to_string()]);

    let e = email_thread(None).unwrap_err();
    assert_eq!(e.kind, "xinUsageError");
    assert_eq!(e.message, "email not found");
    let e = email_thread(Some(None)).unwrap_err();
    assert_eq!(e.kind, "xinConfigError");
    assert_eq!(e.message, "email missing threadId");
    assert_eq!(email_thread(Some(Some("t1".to_string()))).unwrap(), "t1");
}

#[test]
fn server_roles_are_read_case_insensitively() {
    assert!(matches!(server_role(Some("Inbox")), MailboxRole::Inbox));
    assert!(matches!(server_role(Some("JUNK")), MailboxRole::Junk));
    assert!(matches!(server_role(Some("spam")), MailboxRole::Other(ref r) if r == "spam"));
    assert!(matches!(server_role(Some("MyRole")), MailboxRole::Other(ref r) if r == "myrole"));
    assert!(matches!(server_role(None), MailboxRole::NoRole));
}
