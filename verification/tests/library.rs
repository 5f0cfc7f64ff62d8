use xin::app_config::{
    default_config_path, default_token_file_for_account, default_tokens_dir,
    ensure_minimal_fastmail_config, expand_user_path, sanitize_config, set_default_account,
    AccountConfig, AppConfig, AuthConfigFile, Defaults, EnvVars,
};
use xin::cli::{command_name, inbox_next_query, Command, HistoryArgs, InboxAction, SearchArgs, SortKey};
use xin::compose::{
    build_email_body, build_reply_headers, check_content, check_rewrite_flags, default_reply_subject,
    drafts_delete_plan, guess_content_type, infer_filename, infer_reply_recipients, merge_rewrite, reply_recipients,
    resolve_identity, rewrite_cleanup, BodyCore, Cleanup, ContentFor, DraftSnapshot, IdentityInfo,
    ReplySource, RewriteChanges, UploadedBlob,
};
use xin::config::{AuthConfig, Resolution, RuntimeConfig};
use xin::feature::{colorize, substitute, SubstContext};
use xin::headers::{
    canonical_header_name, extra_email_properties_for_headers, is_repeatable_header,
    normalize_header_key, parse_headers_arg, EmailProperty, StdProperty,
};
use xin::links::{fastmail_web_url_for_message_id, is_fastmail, parse_origin_from_session_url, url_encode};
use xin::mailbox::{MailboxInfo, MailboxRole};
use xin::organize::{archive_plan, check_email_targets, parse_modify_args_auto, require_changes, trash_plan};
use xin::paging::{
    changes_start, decode_token_bytes, encode_history_token, encode_search_token,
    next_search_position, poll_wait, search_start, watch_step, ChangeBatch, HistoryToken,
    SearchToken, WatchControl,
};
use xin::plain::{history_line, plain_err, sanitize_field, summary_line, truncate, tsv, SummaryLine};

fn s(v: &str) -> String {
    v.to_string()
}

fn strings(v: &[&str]) -> Vec<String> {
    v.iter().map(|x| x.to_string()).collect()
}

fn env(pairs: &[(&str, &str)]) -> EnvVars {
    EnvVars { vars: pairs.iter().map(|(k, v)| (s(k), s(v))).collect() }
}

fn mailbox(id: &str, name: &str, role: MailboxRole) -> MailboxInfo {
    MailboxInfo {
        id: Some(s(id)),
        name: Some(s(name)),
        role,
        parent_id: None,
        sort_order: 0,
        total_emails: 0,
        unread_emails: 0,
        total_threads: 0,
        unread_threads: 0,
        is_subscribed: true,
    }
}

fn standard_mailboxes() -> Vec<MailboxInfo> {
    vec![
        mailbox("mbInbox", "Inbox", MailboxRole::Inbox),
        mailbox("mbArchive", "Archive", MailboxRole::Archive),
        mailbox("mbTrash", "Trash", MailboxRole::Trash),
        mailbox("mbDrafts", "Drafts", MailboxRole::Drafts),
        mailbox("mbWork", "Work", MailboxRole::NoRole),
    ]
}

// ---------------------------------------------------------------- headers

#[test]
fn parse_headers_arg_normalizes_and_dedups() {
    let keys = parse_headers_arg(" List-Id , received,RECEIVED,, X Custom ,x-custom");
    assert_eq!(keys, strings(&["list-id", "received", "x custom", "x-custom"]));
    assert_eq!(parse_headers_arg("X  Custom"), strings(&["x custom"]));
    assert_eq!(parse_headers_arg(" X \t Custom ,x custom"), strings(&["x custom"]));
}

#[test]
fn parse_headers_arg_of_empty_text_is_empty() {
    assert!(parse_headers_arg("").is_empty());
    assert!(parse_headers_arg(" , ,").is_empty());
}

#[test]
fn normalize_header_key_collapses_whitespace_and_lowercases() {
    assert_eq!(normalize_header_key("  Message-ID "), "message-id");
    assert_eq!(normalize_header_key("  X \t  Custom\n"), "x custom");
}

#[test]
fn canonical_header_name_special_cases_and_title_case() {
    assert_eq!(canonical_header_name("message-id"), "Message-ID");
    assert_eq!(canonical_header_name("dkim-signature"), "DKIM-Signature");
    assert_eq!(canonical_header_name("x-custom-header"), "X-Custom-Header");
    assert_eq!(canonical_header_name("x--y"), "X-Y");
}

#[test]
fn repeatable_headers() {
    assert!(is_repeatable_header("received"));
    assert!(is_repeatable_header("resent-from"));
    assert!(!is_repeatable_header("subject"));
}

#[test]
fn extra_properties_for_headers_dedups_and_skips_defaults() {
    let props = extra_email_properties_for_headers(&strings(&[
        "from", "date", "message-id", "received", "x-custom", "date",
    ]));
    assert_eq!(props.len(), 4);
    assert!(matches!(props[0], EmailProperty::Std(StdProperty::SentAt)));
    assert!(matches!(props[1], EmailProperty::Std(StdProperty::MessageId)));
    match &props[2] {
        EmailProperty::TextHeader { name, all } => {
            assert_eq!(name, "Received");
            assert!(*all);
        }
        _ => panic!("expected a header property"),
    }
    match &props[3] {
        EmailProperty::TextHeader { name, all } => {
            assert_eq!(name, "X-Custom");
            assert!(!*all);
        }
        _ => panic!("expected a header property"),
    }
}

// ---------------------------------------------------------------- plain output

#[test]
fn sanitize_field_replaces_tabs_and_newlines() {
    assert_eq!(sanitize_field("a\tb\nc\rd"), "a b c d");
}

#[test]
fn truncate_keeps_short_text_and_marks_cuts() {
    assert_eq!(truncate("hello", 5), "hello");
    assert_eq!(truncate("hello world", 5), "hell…");
    assert_eq!(truncate("héllo", 2), "h…");
    assert_eq!(truncate("abc", 0), "…");
}

#[test]
fn tsv_joins_with_tabs() {
    assert_eq!(tsv(&strings(&["a", "", "c"])), "a\t\tc");
}

#[test]
fn plain_err_line() {
    assert_eq!(
        plain_err("search", &Some(s("xinUsageError")), &Some(s("bad\nquery"))),
        "ERR\tsearch\txinUsageError\tbad query"
    );
    assert_eq!(plain_err("get", &None, &None), "ERR\tget\terror\t");
}

#[test]
fn summary_line_fields() {
    let line = summary_line(&SummaryLine {
        received_at: s("2026-02-08T00:00:00Z"),
        from: s("alice@example.com"),
        subject: s("Hi\tthere"),
        unread: true,
        has_attachment: false,
        thread_id: s("t1"),
        email_id: s("m1"),
    });
    assert_eq!(line, "2026-02-08T00:00:00Z\talice@example.com\tHi there\tunread\t\tt1\tm1");
}

#[test]
fn history_line_fields() {
    assert_eq!(
        history_line("S0", "S1", 1, 2, 0, true, "tok"),
        "S0 -> S1\tcreated=1\tupdated=2\tdestroyed=0\thasMore=true\tnextPage=tok"
    );
    assert_eq!(
        history_line("S0", "S1", 0, 0, 10, false, ""),
        "S0 -> S1\tcreated=0\tupdated=0\tdestroyed=10\thasMore=false\t"
    );
}

// ---------------------------------------------------------------- organize

#[test]
fn modify_args_route_mailboxes_and_keywords() {
    let ms = standard_mailboxes();
    let (plan, summary) = parse_modify_args_auto(
        &strings(&["work", "$flagged"]),
        &strings(&["inbox"]),
        &strings(&["archive"]),
        &vec![],
        &strings(&["$seen"]),
        &vec![],
        &ms,
    )
    .expect("plan");
    assert_eq!(plan.add_mailboxes, strings(&["mbArchive", "mbWork"]));
    assert_eq!(plan.remove_mailboxes, strings(&["mbInbox"]));
    assert_eq!(plan.add_keywords, strings(&["$seen", "$flagged"]));
    assert!(plan.remove_keywords.is_empty());
    assert_eq!(summary.added_mailboxes, plan.add_mailboxes);
    assert_eq!(summary.added_keywords, plan.add_keywords);
}

#[test]
fn modify_args_unknown_explicit_mailbox_is_usage_error() {
    let ms = standard_mailboxes();
    let err = parse_modify_args_auto(&vec![], &vec![], &strings(&["nope"]), &vec![], &vec![], &vec![], &ms)
        .err()
        .expect("error");
    assert_eq!(err.kind, "xinUsageError");
    assert_eq!(err.message, "unknown mailbox: nope");
}

#[test]
fn empty_plan_is_refused() {
    let ms = standard_mailboxes();
    let (plan, _) = parse_modify_args_auto(&vec![], &vec![], &vec![], &vec![], &vec![], &vec![], &ms).unwrap();
    let err = require_changes(&plan).err().expect("error");
    assert_eq!(err.message, "no changes specified");
}

#[test]
fn whole_thread_needs_exactly_one_id() {
    assert_eq!(
        check_email_targets(2, true).err().unwrap().message,
        "--whole-thread requires exactly one emailId"
    );
    assert_eq!(check_email_targets(0, false).err().unwrap().message, "missing emailId");
    assert!(check_email_targets(1, true).is_ok());
    assert!(check_email_targets(3, false).is_ok());
}

#[test]
fn archive_and_trash_plans() {
    let ms = standard_mailboxes();
    let (plan, _) = archive_plan(&ms).unwrap();
    assert_eq!(plan.remove_mailboxes, strings(&["mbInbox"]));
    assert_eq!(plan.add_mailboxes, strings(&["mbArchive"]));
    let (plan, summary) = trash_plan(&ms).unwrap();
    assert_eq!(plan.replace_mailboxes, Some(strings(&["mbTrash"])));
    assert_eq!(summary.added_mailboxes, strings(&["mbTrash"]));
    let err = trash_plan(&vec![]).err().unwrap();
    assert_eq!(err.kind, "xinConfigError");
    assert_eq!(err.message, "trash mailbox not found");
}

// ---------------------------------------------------------------- compose

#[test]
fn reply_subject_defaults() {
    assert_eq!(default_reply_subject(Some("  Hello ")), "Re: Hello");
    assert_eq!(default_reply_subject(Some("RE: Hello")), "RE: Hello");
    assert_eq!(default_reply_subject(None), "Re:");
}

#[test]
fn reply_headers_chain_references() {
    let (in_reply_to, references) =
        build_reply_headers(&Some(strings(&["orig@example.com"])), &Some(strings(&["r0@example.com"]))).unwrap();
    assert_eq!(in_reply_to, strings(&["orig@example.com"]));
    assert_eq!(references, strings(&["r0@example.com", "orig@example.com"]));
    let (_, references) = build_reply_headers(&Some(strings(&["m1", "m2"])), &None).unwrap();
    assert_eq!(references, strings(&["m1"]));
    let err = build_reply_headers(&None, &None).err().unwrap();
    assert_eq!(err.message, "original email missing Message-ID");
}

#[test]
fn reply_recipients_prefer_reply_to_and_reply_all_skips_self() {
    let original = ReplySource {
        reply_to: Some(strings(&["list@example.com"])),
        from: Some(strings(&["alice@example.com"])),
        to: Some(strings(&["Me <ME@example.com>", "bob@example.com"])),
        cc: Some(strings(&["list@example.com", "cc1@example.com"])),
    };
    let (to, cc) = infer_reply_recipients(&original, true, &vec![], &vec![], "me@example.com");
    assert_eq!(to, strings(&["list@example.com"]));
    assert_eq!(cc, strings(&["bob@example.com", "cc1@example.com"]));
    let (to, cc) = infer_reply_recipients(&original, false, &strings(&["x@example.com"]), &vec![], "me@example.com");
    assert_eq!(to, strings(&["x@example.com"]));
    assert!(cc.is_empty());
}

#[test]
fn reply_without_recipients_is_refused() {
    let original = ReplySource {
        reply_to: None,
        from: None,
        to: Some(strings(&["me@example.com"])),
        cc: None,
    };
    let err = reply_recipients(&original, false, &vec![], &vec![], "me@example.com").err().unwrap();
    assert_eq!(err.kind, "xinUsageError");
    assert_eq!(err.message, "could not infer reply recipients (provide --to)");
    let (to, _) = reply_recipients(&original, false, &strings(&["x@example.com"]), &vec![], "me@example.com").unwrap();
    assert_eq!(to, strings(&["x@example.com"]));
}

#[test]
fn identity_resolution() {
    let ids = vec![
        IdentityInfo { id: Some(s("i1")), name: Some(s("Me")), email: Some(s("me@example.com")) },
        IdentityInfo { id: Some(s("i2")), name: None, email: Some(s("Other@example.com")) },
    ];
    assert_eq!(resolve_identity(&ids, None).unwrap(), (s("i1"), Some(s("Me")), s("me@example.com")));
    assert_eq!(resolve_identity(&ids, Some("other@EXAMPLE.com")).unwrap().0, "i2");
    let err = resolve_identity(&ids, Some("nobody@example.com")).err().unwrap();
    assert_eq!(err.kind, "xinUsageError");
    assert_eq!(
        err.message,
        "unknown identity: nobody@example.com (use `xin identities list` to see available identities)"
    );
    assert_eq!(resolve_identity(&vec![], None).err().unwrap().message, "no identities available");
}

#[test]
fn attachment_names_and_types() {
    assert_eq!(infer_filename("/tmp/dir/report.PDF"), Some(s("report.PDF")));
    assert_eq!(guess_content_type("/tmp/dir/report.PDF"), Some(s("application/pdf")));
    assert_eq!(guess_content_type("notes.md"), Some(s("text/markdown")));
    assert_eq!(guess_content_type("archive.tar.gz"), None);
}

#[test]
fn body_layout() {
    let b = build_email_body(Some("t"), Some("<b>h</b>"), &vec![]);
    assert_eq!(b.core, BodyCore::Alternative);
    assert_eq!(b.values, vec![(s("text"), s("t")), (s("html"), s("<b>h</b>"))]);
    let blob = UploadedBlob { blob_id: s("b1"), content_type: s("application/pdf"), size: 3, name: None };
    let b = build_email_body(None, None, &vec![blob]);
    assert_eq!(b.core, BodyCore::Text);
    assert_eq!(b.values, vec![(s("text"), s(""))]);
    assert_eq!(b.attachments.len(), 1);
    let blob = UploadedBlob { blob_id: s("b1"), content_type: s("application/pdf"), size: 3, name: Some(s("a.pdf")) };
    let b = build_email_body(Some("Hello"), Some("<b>Hello</b>"), &vec![blob]);
    assert_eq!(b.core, BodyCore::Alternative);
    assert_eq!(b.values, vec![(s("text"), s("Hello")), (s("html"), s("<b>Hello</b>"))]);
    assert_eq!(b.attachments[0].blob_id, "b1");
    assert_eq!(b.attachments[0].content_type, "application/pdf");
    assert_eq!(b.attachments[0].name, Some(s("a.pdf")));
    assert_eq!(b.attachments[0].disposition, "attachment");
}

#[test]
fn content_is_required() {
    assert_eq!(
        check_content(false, false, 0, ContentFor::Message).err().unwrap().message,
        "missing message content: provide --text, --body-html, or --attach"
    );
    assert!(check_content(false, false, 1, ContentFor::Draft).is_ok());
}

#[test]
fn rewrite_flag_checks() {
    assert_eq!(
        check_rewrite_flags(false, false, false, 0, true).err().unwrap().message,
        "--replace-attachments requires at least one --attach"
    );
    assert_eq!(
        check_rewrite_flags(false, false, true, 1, false).err().unwrap().message,
        "--clear-attachments cannot be combined with --attach/--replace-attachments"
    );
    assert!(check_rewrite_flags(false, true, false, 0, false).is_ok());
}

#[test]
fn rewrite_keeps_existing_attachments_and_appends_new_ones() {
    let old = UploadedBlob { blob_id: s("b_old"), content_type: s("application/pdf"), size: 3, name: Some(s("old.pdf")) };
    let new = UploadedBlob { blob_id: s("b_new"), content_type: s("text/plain"), size: 5, name: None };
    let snapshot = DraftSnapshot {
        to: strings(&["you@example.com"]),
        cc: vec![],
        bcc: vec![],
        subject: Some(s("Old")),
        text: Some(s("old body")),
        html: None,
        attachments: vec![old],
    };
    let changes = RewriteChanges {
        to: None,
        cc: None,
        bcc: None,
        subject: Some(s("Updated")),
        text: None,
        html: None,
        uploaded: vec![new],
        replace_attachments: false,
        clear_attachments: false,
    };
    let d = merge_rewrite(&changes, &snapshot);
    assert_eq!(d.subject, Some(s("Updated")));
    assert_eq!(d.text, Some(s("old body")));
    assert_eq!(d.to, strings(&["you@example.com"]));
    let ids: Vec<&str> = d.attachments.iter().map(|a| a.blob_id.as_str()).collect();
    assert_eq!(ids, vec!["b_old", "b_new"]);
}

#[test]
fn rewrite_cleanup_is_non_destructive_by_default() {
    match rewrite_cleanup(false, false, "mbDrafts").unwrap() {
        Cleanup::Unfile(p) => {
            assert_eq!(p.remove_mailboxes, strings(&["mbDrafts"]));
            assert_eq!(p.remove_keywords, strings(&["$draft"]));
        }
        Cleanup::Destroy => panic!("expected unfile"),
    }
    assert_eq!(
        rewrite_cleanup(true, false, "mbDrafts").err().unwrap().message,
        "--destroy-old requires global --force"
    );
    assert!(matches!(rewrite_cleanup(true, true, "mbDrafts"), Ok(Cleanup::Destroy)));
}

#[test]
fn drafts_delete_moves_to_trash() {
    let p = drafts_delete_plan(&standard_mailboxes()).unwrap();
    assert_eq!(p.remove_mailboxes, strings(&["mbDrafts"]));
    assert_eq!(p.add_mailboxes, strings(&["mbTrash"]));
    assert_eq!(p.remove_keywords, strings(&["$draft"]));
}

// ---------------------------------------------------------------- configuration

#[test]
fn config_path_locations() {
    assert_eq!(default_config_path(&env(&[("XIN_CONFIG_PATH", "/x/c.json")])).unwrap(), "/x/c.json");
    assert_eq!(default_config_path(&env(&[("HOME", "/home/u")])).unwrap(), "/home/u/.config/xin/config.json");
    assert_eq!(
        default_config_path(&env(&[("HOME", "/home/u"), ("XDG_CONFIG_HOME", "/xdg")])).unwrap(),
        "/xdg/xin/config.json"
    );
    let err = default_config_path(&env(&[])).err().unwrap();
    assert_eq!(err.kind, "xinConfigError");
    assert_eq!(err.message, "missing HOME environment variable");
    assert_eq!(default_tokens_dir(&env(&[("HOME", "/home/u")])).unwrap(), "/home/u/.config/xin/tokens");
}

#[test]
fn expand_user_paths() {
    let e = env(&[("HOME", "/home/u")]);
    assert_eq!(expand_user_path("~/t.token", &e).unwrap(), "/home/u/t.token");
    assert_eq!(expand_user_path("/abs/t.token", &env(&[])).unwrap(), "/abs/t.token");
    assert!(expand_user_path("~/t", &env(&[])).is_err());
}

#[test]
fn minimal_fastmail_config() {
    let (cfg, path, created) = ensure_minimal_fastmail_config(None, &env(&[("XIN_CONFIG_PATH", "/c/config.json")])).unwrap();
    assert!(created);
    assert_eq!(path, "/c/config.json");
    assert_eq!(cfg.defaults.account, Some(s("fastmail")));
    assert_eq!(cfg.accounts.len(), 1);
    let acct = &cfg.accounts[0].1;
    assert_eq!(acct.base_url, Some(s("https://api.fastmail.com")));
    match &acct.auth {
        AuthConfigFile::Bearer { token_file, .. } => assert_eq!(token_file, &Some(s("/c/tokens/fastmail.token"))),
        _ => panic!("expected bearer"),
    }
    assert_eq!(
        default_token_file_for_account("work", &env(&[("XIN_CONFIG_PATH", "/c/config.json")])).unwrap(),
        "/c/tokens/work.token"
    );
}

fn one_account_config(auth: AuthConfigFile) -> AppConfig {
    AppConfig {
        defaults: Defaults { account: None },
        accounts: vec![(
            s("work"),
            AccountConfig {
                base_url: Some(s("https://mail.example.com/")),
                session_url: None,
                auth,
                trust_redirect_hosts: strings(&["mail.example.com"]),
            },
        )],
    }
}

#[test]
fn sanitize_config_drops_secrets() {
    let cfg = one_account_config(AuthConfigFile::Bearer { token: Some(s("secret")), token_env: Some(s("T")), token_file: None });
    let out = sanitize_config(cfg);
    match &out.accounts[0].1.auth {
        AuthConfigFile::Bearer { token, token_env, .. } => {
            assert_eq!(token, &None);
            assert_eq!(token_env, &Some(s("T")));
        }
        _ => panic!("expected bearer"),
    }
}

#[test]
fn set_default_requires_a_known_account() {
    let cfg = one_account_config(AuthConfigFile::Bearer { token: None, token_env: None, token_file: None });
    let err = set_default_account(cfg, "does-not-exist").err().unwrap();
    assert_eq!(err.kind, "xinUsageError");
    let cfg = one_account_config(AuthConfigFile::Bearer { token: None, token_env: None, token_file: None });
    assert_eq!(set_default_account(cfg, "work").unwrap().defaults.account, Some(s("work")));
}

#[test]
fn basic_auth_selected_from_env() {
    let e = env(&[
        ("XIN_BASE_URL", "https://example.com"),
        ("XIN_BASIC_USER", "user@example.com"),
        ("XIN_BASIC_PASS", "secret"),
    ]);
    let cfg = match RuntimeConfig::from_env(&e, None, &vec![]) {
        Resolution::Ready(Ok(c)) => c,
        _ => panic!("config"),
    };
    match cfg.auth {
        AuthConfig::Basic { user, pass } => {
            assert_eq!(user, "user@example.com");
            assert_eq!(pass, "secret");
        }
        _ => panic!("expected basic auth"),
    }
}

#[test]
fn auth_conflict_returns_config_error() {
    let e = env(&[
        ("XIN_BASE_URL", "https://example.com"),
        ("XIN_BASIC_USER", "user@example.com"),
        ("XIN_BASIC_PASS", "pass-123"),
        ("XIN_TOKEN", "token-123"),
    ]);
    let err = match RuntimeConfig::from_env(&e, None, &vec![]) {
        Resolution::Ready(Err(e)) => e,
        _ => panic!("expected conflict"),
    };
    assert_eq!(err.kind, "xinConfigError");
    assert!(!err.message.contains("token-123"));
    assert!(!err.message.contains("pass-123"));
}

#[test]
fn token_file_is_requested_then_read_and_trimmed() {
    let e = env(&[("XIN_BASE_URL", "https://example.com/"), ("XIN_TOKEN_FILE", "/t/token")]);
    match RuntimeConfig::from_env(&e, None, &vec![]) {
        Resolution::NeedFile(p) => assert_eq!(p, "/t/token"),
        _ => panic!("expected a file request"),
    }
    let files = vec![xin::config::FileRead { path: s("/t/token"), content: Ok(s("  tok\n")) }];
    match RuntimeConfig::from_env(&e, None, &files) {
        Resolution::Ready(Ok(c)) => {
            assert_eq!(c.base_url, "https://example.com");
            assert!(matches!(c.auth, AuthConfig::Bearer(ref t) if t == "tok"));
        }
        _ => panic!("expected a configuration"),
    }
}

#[test]
fn config_account_supplies_missing_fields() {
    let cfg = one_account_config(AuthConfigFile::Bearer { token: Some(s(" abc ")), token_env: None, token_file: None });
    match RuntimeConfig::from_env(&env(&[]), Some(&cfg), &vec![]) {
        Resolution::Ready(Ok(c)) => {
            assert_eq!(c.base_url, "https://mail.example.com");
            assert!(matches!(c.auth, AuthConfig::Bearer(ref t) if t == "abc"));
            assert_eq!(c.follow_redirect_hosts, strings(&["mail.example.com"]));
        }
        _ => panic!("expected a configuration"),
    }
}

// ---------------------------------------------------------------- links

#[test]
fn session_url_origin() {
    assert_eq!(
        parse_origin_from_session_url("https://api.fastmail.com/.well-known/jmap").unwrap(),
        "https://api.fastmail.com"
    );
    assert_eq!(parse_origin_from_session_url("http://127.0.0.1:39090/jmap").unwrap(), "http://127.0.0.1:39090");
    let err = parse_origin_from_session_url("not a url").err().unwrap();
    assert_eq!(err.kind, "xinConfigError");
    assert!(err.message.starts_with("invalid session url: "));
}

#[test]
fn fastmail_detection_and_links() {
    assert!(is_fastmail(Some("fastmail"), "https://example.com"));
    assert!(is_fastmail(None, "https://api.fastmail.com"));
    assert!(!is_fastmail(Some("work"), "https://example.com"));
    assert_eq!(url_encode("<a b@c>"), "%3Ca+b%40c%3E");
    assert_eq!(
        fastmail_web_url_for_message_id("<m1@example.com>"),
        "https://app.fastmail.com/mail/search:msgid:%3Cm1%40example.com%3E"
    );
}

// ---------------------------------------------------------------- paging

#[test]
fn history_token_round_trips() {
    let t = encode_history_token("S1", 100);
    let bytes = decode_token_bytes(&t).unwrap();
    assert_eq!(bytes, br#"{"sinceState":"S1","maxChanges":100}"#.to_vec());
    let err = decode_token_bytes("not a token!").err().unwrap();
    assert!(err.message.starts_with("invalid page token: "));
}

#[test]
fn history_second_page_starts_where_the_first_ended() {
    let next = xin::paging::history_next_page(true, "S1", 2).unwrap();
    assert_eq!(
        decode_token_bytes(&next).unwrap(),
        br#"{"sinceState":"S1","maxChanges":2}"#.to_vec()
    );
    assert_ne!(next, xin::paging::history_next_page(true, "S1", 3).unwrap());
    assert_ne!(next, xin::paging::history_next_page(true, "S2", 2).unwrap());
    let read = HistoryToken { since_state: "S1".to_string(), max_changes: 2 };
    assert_eq!(changes_start(None, None, Some(&read), "missing").unwrap(), ("S1".to_string(), 2));
}

#[test]
fn history_token_escapes_its_state() {
    let t = encode_history_token("a\"b\\c\n\u{1}", 7);
    let bytes = decode_token_bytes(&t).unwrap();
    assert_eq!(
        String::from_utf8(bytes).unwrap(),
        r#"{"sinceState":"a\"b\\c\n\u0001","maxChanges":7}"#
    );
}

#[test]
fn search_token_round_trips() {
    let t = encode_search_token(20, 20, true, false, "{}");
    let bytes = decode_token_bytes(&t).unwrap();
    assert_eq!(
        String::from_utf8(bytes).unwrap(),
        r#"{"position":20,"limit":20,"collapseThreads":true,"isAscending":false,"filter":{}}"#
    );
}

#[test]
fn history_start_rules() {
    let tok = HistoryToken { since_state: s("S0"), max_changes: 2 };
    assert_eq!(changes_start(None, None, Some(&tok), "missing").unwrap(), (s("S0"), 2));
    assert_eq!(
        changes_start(None, Some(3), Some(&tok), "missing").err().unwrap().message,
        "page token does not match args"
    );
    assert_eq!(changes_start(Some("S9"), None, None, "missing").unwrap(), (s("S9"), 100));
    assert_eq!(
        changes_start(None, None, None, "missing --since (or --page)").err().unwrap().message,
        "missing --since (or --page)"
    );
}

#[test]
fn search_start_and_next_page() {
    let tok = SearchToken { position: 20, limit: 20, collapse_threads: true, is_ascending: false, filter: s("{}") };
    assert_eq!(search_start(Some(&tok), 20, true, false, "{}").unwrap(), (20, s("{}")));
    assert!(search_start(Some(&tok), 10, true, false, "{}").is_err());
    assert_eq!(search_start(None, 20, true, false, "{}").unwrap(), (0, s("{}")));
    assert_eq!(next_search_position(0, 2, 2, None), Some(2));
    assert_eq!(next_search_position(0, 1, 2, None), None);
    assert_eq!(next_search_position(0, 2, 2, Some(2)), None);
    assert_eq!(next_search_position(0, 2, 2, Some(5)), Some(2));
}

#[test]
fn watch_steps() {
    let batch = ChangeBatch { new_state: s("S1"), has_more_changes: false, created: 1, updated: 0, destroyed: 0 };
    let step = watch_step(&batch, 100, true);
    assert!(step.emit_changes);
    assert_eq!(step.since_state, "S1");
    assert_eq!(step.control, WatchControl::Stop);
    assert_eq!(decode_token_bytes(&step.checkpoint).unwrap(), br#"{"sinceState":"S1","maxChanges":100}"#.to_vec());
    let more = ChangeBatch { new_state: s("S2"), has_more_changes: true, created: 0, updated: 0, destroyed: 0 };
    let step = watch_step(&more, 100, true);
    assert!(!step.emit_changes);
    assert_eq!(step.control, WatchControl::Continue);
    assert_eq!(poll_wait(1000, 0, 123), 1000);
    assert_eq!(poll_wait(1000, 9, 123), 1003);
    assert_eq!(poll_wait(u64::MAX, 9, 5), u64::MAX);
}

// ---------------------------------------------------------------- feature runner

#[test]
fn substitute_vars() {
    let ctx = SubstContext { case_id: s("c1"), run_id: s("r1"), vars: vec![(s("id"), s("m1"))] };
    assert_eq!(substitute("x-${runId}-${caseId}-${id}", &ctx).unwrap(), "x-r1-c1-m1");
    assert_eq!(substitute("${nope}", &ctx).err().unwrap(), "unknown var \"nope\" in \"${nope}\"");
    assert_eq!(substitute("a${runId", &ctx).err().unwrap(), "unterminated var in \"a${runId\"");
}

#[test]
fn colorize_wraps_only_when_colouring() {
    assert_eq!(colorize("ok", "92", true), "\u{1b}[92mok\u{1b}[0m");
    assert_eq!(colorize("ok", "92", false), "ok");
}

// ---------------------------------------------------------------- command line

#[test]
fn command_names() {
    let c = Command::History(HistoryArgs { since: None, max: None, page: None, hydrate: false });
    assert_eq!(command_name(&c), "history");
    let c = Command::Search(SearchArgs {
        query: None,
        max: None,
        page: None,
        oldest: false,
        filter_json: None,
        collapse_threads: None,
        sort: SortKey::ReceivedAt,
    });
    assert_eq!(command_name(&c), "search");
    let _ = InboxAction::Archive;
}

#[test]
fn inbox_next_query_shapes() {
    assert_eq!(inbox_next_query(false, None), "in:inbox seen:false");
    assert_eq!(inbox_next_query(true, Some("  from:alice ")), "in:inbox from:alice");
    assert_eq!(inbox_next_query(true, Some("   ")), "in:inbox");
}

#[test]
fn environment_takes_precedence_over_config() {
    let cfg = one_account_config(AuthConfigFile::Bearer { token: Some(s("from-config")), token_env: None, token_file: None });
    let e = env(&[("XIN_BASE_URL", "https://example.invalid//"), ("XIN_TOKEN", "dummy")]);
    match RuntimeConfig::from_env(&e, Some(&cfg), &vec![]) {
        Resolution::Ready(Ok(c)) => {
            assert_eq!(c.base_url, "https://example.invalid");
            assert!(matches!(c.auth, AuthConfig::Bearer(ref t) if t == "dummy"));
        }
        _ => panic!("expected a configuration"),
    }
}

#[test]
fn reply_all_never_copies_self() {
    let original = ReplySource {
        reply_to: None,
        from: Some(strings(&["Alice <alice@example.com>"])),
        to: Some(strings(&["me@example.com"])),
        cc: Some(strings(&["ME@EXAMPLE.COM", "alice@example.com"])),
    };
    let (to, cc) = infer_reply_recipients(&original, true, &vec![], &vec![], "me@example.com");
    assert_eq!(to, strings(&["Alice <alice@example.com>"]));
    assert!(cc.is_empty());
}
