use xin::mailbox::{lookup_mailbox, parse_role, resolve_mailbox_id, MailboxInfo, MailboxRole};
use xin::sugar::{compile_search_filter, filter_top, Clause, FilterCondition, FilterTop, Literal, SearchFilter};

fn s(v: &str) -> String {
    v.to_string()
}

fn mailbox(id: &str, name: &str, role: MailboxRole) -> MailboxInfo {
    MailboxInfo {
        id: Some(s(id)),
        name: Some(s(name)),
        role,
        parent_id: None,
        sort_order: 0,
        total_emails: 0,
        unread_emails: 0,
        total_threads: 0,
        unread_threads: 0,
        is_subscribed: true,
    }
}

fn mailboxes() -> Vec<MailboxInfo> {
    vec![
        mailbox("mbInbox", "Inbox", MailboxRole::Inbox),
        mailbox("mbTrash", "Trash", MailboxRole::Trash),
        mailbox("mbJunk", "Spam", MailboxRole::Junk),
        mailbox("mbWork", "Work", MailboxRole::NoRole),
    ]
}

#[test]
fn bare_term_maps_to_text_filter() {
    let f = compile_search_filter("hello", None).unwrap();
    assert_eq!(f.clauses.len(), 1);
    match &f.clauses[0] {
        Clause::One(l) => {
            assert!(!l.negated);
            match &l.condition {
                FilterCondition::Field { name, value } => {
                    assert_eq!(name, "text");
                    assert_eq!(value, "hello");
                }
                _ => panic!("expected a text condition"),
            }
        }
        _ => panic!("expected one literal"),
    }
}

#[test]
fn negated_in_trash_resolves_the_mailbox() {
    let ms = mailboxes();
    let f = compile_search_filter("-in:trash", Some(&ms)).unwrap();
    match &f.clauses[0] {
        Clause::One(l) => {
            assert!(l.negated);
            assert!(matches!(&l.condition, FilterCondition::InMailbox(id) if id == "mbTrash"));
        }
        _ => panic!("expected one literal"),
    }
}

#[test]
fn or_group_and_seen_false() {
    let f = compile_search_filter("or:(from:alice|from:bob) seen:false", None).unwrap();
    assert_eq!(f.clauses.len(), 2);
    let f = compile_search_filter("or:(from:github | from:atlassian) seen:false", None).unwrap();
    assert_eq!(f.clauses.len(), 2);
    match &f.clauses[0] {
        Clause::AnyOf(ls) => assert_eq!(ls.len(), 2),
        _ => panic!("expected an OR group"),
    }
    match &f.clauses[1] {
        Clause::One(l) => assert!(matches!(&l.condition, FilterCondition::NotKeyword(k) if k == "$seen")),
        _ => panic!("expected one literal"),
    }
}

#[test]
fn mailboxes_only_matter_for_in_terms() {
    let ms = mailboxes();
    let with = compile_search_filter("from:alice subject:release", Some(&ms)).unwrap();
    let without = compile_search_filter("from:alice subject:release", None).unwrap();
    assert_eq!(with.clauses.len(), without.clauses.len());
    assert!(compile_search_filter("in:inbox", None).is_err());
}

#[test]
fn rejected_constructs() {
    let e = compile_search_filter("(from:alice)", None).err().unwrap();
    assert_eq!(e.kind, "xinUsageError");
    assert!(e.message.contains("parentheses"));
    let e = compile_search_filter("-(from:alice)", None).err().unwrap();
    assert!(e.message.contains("group negation"));
    let e = compile_search_filter("or:(or:(from:alice|from:bob)|from:carol)", None).err().unwrap();
    assert!(e.message.contains("nested or"));
    let e = compile_search_filter("seen:maybe", None).err().unwrap();
    assert_eq!(e.message, "seen must be true|false");
}

#[test]
fn dates_become_rfc3339() {
    let f = compile_search_filter("after:2026-01-01", None).unwrap();
    match &f.clauses[0] {
        Clause::One(l) => assert!(matches!(&l.condition, FilterCondition::After(t) if t == "2026-01-01T00:00:00+00:00")),
        _ => panic!("expected one literal"),
    }
}

#[test]
fn mailbox_words_resolve_by_id_role_alias_and_name() {
    let ms = mailboxes();
    assert_eq!(resolve_mailbox_id("mbWork", &ms), Some(s("mbWork")));
    assert_eq!(resolve_mailbox_id("spam", &ms), Some(s("mbJunk")));
    assert_eq!(resolve_mailbox_id(" WORK ", &ms), Some(s("mbWork")));
    assert_eq!(resolve_mailbox_id("", &ms), None);
    assert_eq!(lookup_mailbox(&ms, "work").unwrap(), 3);
    assert_eq!(lookup_mailbox(&ms, "nope").err().unwrap().message, "unknown mailbox: nope");
}

#[test]
fn role_names_parse_case_insensitively() {
    assert!(matches!(parse_role("SPAM"), MailboxRole::Junk));
    assert!(matches!(parse_role("Custom"), MailboxRole::Other(ref r) if r == "custom"));
}

fn kw(k: &str) -> Clause {
    Clause::One(Literal { negated: false, condition: FilterCondition::HasKeyword(k.to_string()) })
}

#[test]
fn filter_top_by_clause_count() {
    assert!(matches!(filter_top(SearchFilter { clauses: vec![] }), FilterTop::Everything));
    match filter_top(SearchFilter { clauses: vec![kw("$seen")] }) {
        FilterTop::Single(Clause::One(l)) => {
            assert!(matches!(l.condition, FilterCondition::HasKeyword(ref k) if k == "$seen"))
        }
        other => panic!("unexpected {other:?}"),
    }
    match filter_top(SearchFilter { clauses: vec![kw("a"), kw("b")] }) {
        FilterTop::All(cs) => assert_eq!(cs.len(), 2),
        other => panic!("unexpected {other:?}"),
    }
}
