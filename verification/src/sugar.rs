//! The search query language ("sugar") and its compilation to a JMAP `Email/query` filter.
//!
//! - AND is implicit between whitespace-separated terms.
//! - OR is written `or:(a | b | ...)`, as a single token.
//! - NOT is written as a `-` before a term.
//! - Parentheses are not a grouping construct.
//! - A term without `key:` searches the text (`text:<term>`).
use vstd::prelude::*;

use crate::error::{owned, usage_with, XinErrorOut};
use crate::mailbox::{opt_text, resolve_mailbox_id, resolve_mailbox_spec, MailboxInfo};
use crate::time::{parse_rfc3339_utc, parse_ymd_midnight, rfc3339_in_utc, ymd_midnight_rfc3339};
use crate::pieces::{keep_nonempty, lemma_texts_push, texts, trim_each};
use crate::seqs::{lemma_take_all, lemma_take_step, lemma_try_map_prefix_err, nonempty_pred, try_map};
use crate::text::{
    chars_of, concat_chars, ends_with, eq_chars, find_char, find_text, contains_chars, has_char, is_whitespace,
    is_ws, lower_chars, lowercase, slice_chars, starts_with, string_of, trim, trim_chars,
    trim_start, trim_start_chars, contains_text,
};

verus! {

// ---------------------------------------------------------------- splitting

/// The number of double quotes in `s`.
pub open spec fn quote_count(s: Seq<char>) -> nat {
    s.filter(|c: char| c == '"').len()
}

/// Whether `c` separates segments: whitespace when splitting a query, `|` inside `or:(...)`.
pub open spec fn is_sep(c: char, on_ws: bool) -> bool {
    if on_ws {
        is_ws(c)
    } else {
        c == '|'
    }
}

/// Whether a token being read is an `or:(...)` group whose closing parenthesis has not
/// come yet; whitespace inside such a group does not split it.
pub open spec fn open_group(seg: Seq<char>) -> bool {
    "or:("@.is_prefix_of(seg) && !seg.contains(')')
}

/// `s` cut at every separator that stands outside double quotes (quotes toggle, and
/// stay in the text) and, when splitting a query, outside an open `or:(...)` group.
/// Empty segments are kept; there is always at least one.
pub open spec fn segments(s: Seq<char>, on_ws: bool) -> Seq<Seq<char>>
    decreases s.len(),
{
    if s.len() == 0 {
        seq![Seq::empty()]
    } else {
        let p = segments(s.drop_last(), on_ws);
        let c = s.last();
        if is_sep(c, on_ws) && quote_count(s.drop_last()) % 2 == 0 && !(on_ws && open_group(
            p.last(),
        )) {
            p.push(Seq::empty())
        } else {
            p.update(p.len() - 1, p.last().push(c))
        }
    }
}

/// The whitespace-separated tokens of a query, keeping quoted segments and `or:(...)`
/// groups whole; an unbalanced quote is an error.
pub open spec fn split_ws_quoted_spec(s: Seq<char>) -> Result<Seq<Seq<char>>, Seq<char>> {
    if quote_count(s) % 2 == 1 {
        Err("unterminated quote"@)
    } else {
        Ok(segments(s, true).filter(nonempty_pred()))
    }
}

/// The `|`-separated alternatives inside `or:(...)`, each trimmed, empty ones dropped;
/// an unbalanced quote is an error.
pub open spec fn split_or_terms_spec(s: Seq<char>) -> Result<Seq<Seq<char>>, Seq<char>> {
    if quote_count(s) % 2 == 1 {
        Err("unterminated quote in or:(...)"@)
    } else {
        Ok(segments(s, false).map_values(|x: Seq<char>| trim(x)).filter(nonempty_pred()))
    }
}

proof fn lemma_segments_nonempty(s: Seq<char>, on_ws: bool)
    ensures
        segments(s, on_ws).len() >= 1,
    decreases s.len(),
{
    if s.len() > 0 {
        lemma_segments_nonempty(s.drop_last(), on_ws);
    }
}

proof fn lemma_quote_step(s: Seq<char>, i: int)
    requires
        0 <= i < s.len(),
    ensures
        quote_count(s.take(i + 1)) == quote_count(s.take(i)) + (if s[i] == '"' {
            1int
        } else {
            0int
        }),
{
    lemma_take_step(s, i);
    s.take(i).lemma_filter_push(s[i], |c: char| c == '"');
    assert(s.take(i).push(s[i]) == s.take(i + 1));
}

/// Whether the token read so far is an open `or:(...)` group.
fn is_open_group(cur: &Vec<char>) -> (r: bool)
    ensures
        r == open_group(cur@),
{
    starts_with(cur, &chars_of("or:(")) && !has_char(cur, ')')
}

/// Splits `input` at unquoted separators; gives the raw segments, the last one open.
fn split_core(input: &[char], on_ws: bool) -> (r: (Vec<Vec<char>>, Vec<char>, bool))
    ensures
        texts(r.0@).push(r.1@) == segments(input@, on_ws),
        r.2 == (quote_count(input@) % 2 == 1),
{
    let mut out: Vec<Vec<char>> = Vec::new();
    let mut cur: Vec<char> = Vec::new();
    let mut in_quotes = false;
    let mut i: usize = 0;
    proof {
        assert(input@.take(0) =~= Seq::<char>::empty());
        assert(Seq::<char>::empty().filter(|c: char| c == '"') =~= Seq::<char>::empty());
        assert(texts(out@).push(cur@) =~= seq![Seq::<char>::empty()]);
    }
    while i < input.len()
        invariant
            i <= input.len(),
            in_quotes == (quote_count(input@.take(i as int)) % 2 == 1),
            texts(out@).push(cur@) == segments(input@.take(i as int), on_ws),
        decreases input.len() - i,
    {
        let ch = input[i];
        proof {
            lemma_take_step(input@, i as int);
            lemma_quote_step(input@, i as int);
            lemma_segments_nonempty(input@.take(i as int), on_ws);
        }
        let ghost p = segments(input@.take(i as int), on_ws);
        assert(p.last() == cur@);
        let sep = if on_ws {
            is_whitespace(ch) && !is_open_group(&cur)
        } else {
            ch == '|'
        };
        if ch == '"' {
            in_quotes = !in_quotes;
            cur.push(ch);
            proof {
                assert(texts(out@).push(cur@) =~= p.update(p.len() - 1, p.last().push(ch)));
            }
        } else if sep && !in_quotes {
            proof {
                lemma_texts_push(out@, cur);
            }
            out.push(cur);
            cur = Vec::new();
            proof {
                assert(texts(out@).push(cur@) =~= p.push(Seq::empty()));
            }
        } else {
            cur.push(ch);
            proof {
                assert(texts(out@).push(cur@) =~= p.update(p.len() - 1, p.last().push(ch)));
            }
        }
        i += 1;
    }
    proof {
        lemma_take_all(input@);
    }
    (out, cur, in_quotes)
}

/// Splits a query on whitespace, keeping quoted segments (quotes included) together.
pub fn split_ws_quoted(input: &[char]) -> (r: Result<Vec<Vec<char>>, XinErrorOut>)
    ensures
        match split_ws_quoted_spec(input@) {
            Ok(ts) => r matches Ok(v) && texts(v@) == ts,
            Err(m) => r matches Err(e) && e.is_usage(m),
        },
{
    let (mut out, cur, in_quotes) = split_core(input, true);
    if in_quotes {
        return Err(XinErrorOut::usage(owned("unterminated quote")));
    }
    proof {
        lemma_texts_push(out@, cur);
    }
    out.push(cur);
    Ok(keep_nonempty(out))
}

/// Splits the inside of `or:(...)` on `|` outside quotes; trims the parts, drops empty ones.
pub fn split_or_terms(inner: &[char]) -> (r: Result<Vec<Vec<char>>, XinErrorOut>)
    ensures
        match split_or_terms_spec(inner@) {
            Ok(ts) => r matches Ok(v) && texts(v@) == ts,
            Err(m) => r matches Err(e) && e.is_usage(m),
        },
{
    let (mut out, cur, in_quotes) = split_core(inner, false);
    if in_quotes {
        return Err(XinErrorOut::usage(owned("unterminated quote in or:(...)")));
    }
    proof {
        lemma_texts_push(out@, cur);
    }
    out.push(cur);
    let trimmed = trim_each(out);
    Ok(keep_nonempty(trimmed))
}

// ---------------------------------------------------------------- tokens

/// One term: an optional `-`, an optional `key:` and a value.
#[derive(Debug)]
pub struct TermToken {
    pub negated: bool,
    pub key: Option<String>,
    pub value: String,
}

/// A query token: a single term or an `or:(...)` group of terms.
#[derive(Debug)]
pub enum Token {
    Term(TermToken),
    OrGroup(Vec<TermToken>),
}

/// The meaning of a `TermToken`.
pub struct TermView {
    pub negated: bool,
    pub key: Option<Seq<char>>,
    pub value: Seq<char>,
}

/// The meaning of a `Token`.
pub enum TokenView {
    Term(TermView),
    OrGroup(Seq<TermView>),
}

impl View for TermToken {
    type V = TermView;

    open spec fn view(&self) -> TermView {
        TermView {
            negated: self.negated,
            key: match self.key {
                Some(k) => Some(k@),
                None => None,
            },
            value: self.value@,
        }
    }
}

/// The meanings of a sequence of terms.
pub open spec fn term_views(v: Seq<TermToken>) -> Seq<TermView> {
    v.map_values(|t: TermToken| t@)
}

impl View for Token {
    type V = TokenView;

    open spec fn view(&self) -> TokenView {
        match self {
            Token::Term(t) => TokenView::Term(t@),
            Token::OrGroup(ts) => TokenView::OrGroup(term_views(ts@)),
        }
    }
}

/// The meanings of a sequence of tokens.
pub open spec fn token_views(v: Seq<Token>) -> Seq<TokenView> {
    v.map_values(|t: Token| t@)
}

/// A value without one pair of surrounding double quotes, if it has them.
pub open spec fn unquote_spec(s: Seq<char>) -> Seq<char> {
    if s.len() >= 2 && s[0] == '"' && s.last() == '"' {
        s.subrange(1, s.len() - 1)
    } else {
        s
    }
}

/// The message for a negated group `-(...)`.
pub open spec fn group_negation_message() -> Seq<char> {
    "group negation `-(...)` is not supported in v0; negate individual terms (e.g. `-from:alice -subject:foo`) or use `--filter-json` (inline JSON or @file). Example: --filter-json '{\"operator\":\"NOT\",\"conditions\":[{\"from\":\"alice\"}]}'"@
}

/// The message for a parenthesised term.
pub open spec fn parentheses_message() -> Seq<char> {
    "parentheses grouping is not supported in v0; use `or:(a|b|...)`, `-term`, or `--filter-json` (inline JSON or @file) for complex filters. Example: --filter-json '{\"operator\":\"AND\",\"conditions\":[{\"from\":\"alice\"},{\"subject\":\"foo\"}]}'"@
}

/// How one term is read: trimmed; a leading `-` negates it; a term that starts with `(`
/// or ends with `)` (after the `-`), or that is `-(...)`, is refused. Before the first `:`
/// is the key (trimmed, lowercased), after it the value (trimmed, unquoted). Without `:`
/// the key is `text` and the whole term is the value.
pub open spec fn parse_simple_term_spec(token: Seq<char>) -> Result<TermView, Seq<char>> {
    let s0 = trim(token);
    let negated = s0.len() > 0 && s0[0] == '-';
    let s = if negated {
        s0.drop_first()
    } else {
        s0
    };
    if s0.len() == 0 {
        Err("empty token"@)
    } else if "-("@.is_prefix_of(trim_start(token)) {
        Err(group_negation_message())
    } else if s.len() > 0 && (s[0] == '(' || s.last() == ')') {
        Err(parentheses_message())
    } else {
        match s.index_of_first(':') {
            Some(k) => Ok(
                TermView {
                    negated,
                    key: Some(lowercase(trim(s.take(k)))),
                    value: unquote_spec(trim(s.skip(k + 1))),
                },
            ),
            None => Ok(TermView { negated, key: Some("text"@), value: unquote_spec(s) }),
        }
    }
}

/// How one whitespace-separated token is read: `or:(a|b|...)` is a group of terms
/// (it must end with `)`, must not nest, and must hold at least one term); anything else
/// is a single term.
pub open spec fn lex_one_spec(tok: Seq<char>) -> Result<TokenView, Seq<char>> {
    if "or:("@.is_prefix_of(tok) {
        if !")"@.is_suffix_of(tok) {
            Err("or:(...) group must be a single token; quote the full query"@)
        } else {
            let inner = tok.subrange(4, tok.len() - 1);
            if contains_text(inner, "or:("@) {
                Err(
                    "nested or:(...) is not supported in v0; use `--filter-json` for nested boolean logic"@,
                )
            } else {
                match split_or_terms_spec(inner) {
                    Err(m) => Err(m),
                    Ok(parts) => match try_map(
                        parts,
                        |p: Seq<char>| parse_simple_term_spec(p),
                    ) {
                        Err(m) => Err(m),
                        Ok(terms) => if terms.len() == 0 {
                            Err("or:(...) group is empty"@)
                        } else {
                            Ok(TokenView::OrGroup(terms))
                        },
                    },
                }
            }
        }
    } else {
        match parse_simple_term_spec(tok) {
            Err(m) => Err(m),
            Ok(t) => Ok(TokenView::Term(t)),
        }
    }
}

/// How a query is read into tokens; the first error, in query order, is the result.
pub open spec fn lex_tokens_spec(input: Seq<char>) -> Result<Seq<TokenView>, Seq<char>> {
    match split_ws_quoted_spec(input) {
        Err(m) => Err(m),
        Ok(raw) => try_map(raw, |t: Seq<char>| lex_one_spec(t)),
    }
}

/// A value without one pair of surrounding double quotes.
pub fn unquote(s: &[char]) -> (r: Vec<char>)
    ensures
        r@ == unquote_spec(s@),
{
    if s.len() >= 2 && s[0] == '"' && s[s.len() - 1] == '"' {
        slice_chars(s, 1, s.len() - 1)
    } else {
        slice_chars(s, 0, s.len())
    }
}

fn group_negation_text() -> (r: String)
    ensures
        r@ == group_negation_message(),
{
    owned(
        "group negation `-(...)` is not supported in v0; negate individual terms (e.g. `-from:alice -subject:foo`) or use `--filter-json` (inline JSON or @file). Example: --filter-json '{\"operator\":\"NOT\",\"conditions\":[{\"from\":\"alice\"}]}'",
    )
}

fn parentheses_text() -> (r: String)
    ensures
        r@ == parentheses_message(),
{
    owned(
        "parentheses grouping is not supported in v0; use `or:(a|b|...)`, `-term`, or `--filter-json` (inline JSON or @file) for complex filters. Example: --filter-json '{\"operator\":\"AND\",\"conditions\":[{\"from\":\"alice\"},{\"subject\":\"foo\"}]}'",
    )
}

/// Reads one term (see `parse_simple_term_spec`).
pub fn parse_simple_term(token: &[char]) -> (r: Result<TermToken, XinErrorOut>)
    ensures
        match parse_simple_term_spec(token@) {
            Ok(t) => r matches Ok(v) && v@ == t,
            Err(m) => r matches Err(e) && e.is_usage(m),
        },
{
    let s0 = trim_chars(token);
    if s0.len() == 0 {
        return Err(XinErrorOut::usage(owned("empty token")));
    }
    let negated = s0[0] == '-';
    let s = if negated {
        slice_chars(&s0, 1, s0.len())
    } else {
        slice_chars(&s0, 0, s0.len())
    };
    assert(s0@.subrange(1, s0@.len() as int) =~= s0@.drop_first());
    assert(s0@.subrange(0, s0@.len() as int) =~= s0@);
    let ts = trim_start_chars(token);
    if starts_with(&ts, &chars_of("-(")) {
        return Err(XinErrorOut::usage(group_negation_text()));
    }
    if s.len() > 0 && (s[0] == '(' || s[s.len() - 1] == ')') {
        return Err(XinErrorOut::usage(parentheses_text()));
    }
    match find_char(&s, ':') {
        Some(k) => {
            let key = lower_chars(&trim_chars(&slice_chars(&s, 0, k)));
            let value = unquote(&trim_chars(&slice_chars(&s, k + 1, s.len())));
            assert(s@.subrange(0, k as int) =~= s@.take(k as int));
            assert(s@.subrange(k + 1, s@.len() as int) =~= s@.skip(k + 1));
            Ok(TermToken { negated, key: Some(string_of(&key)), value: string_of(&value) })
        },
        None => {
            let value = unquote(&s);
            Ok(TermToken { negated, key: Some(owned("text")), value: string_of(&value) })
        },
    }
}

/// Reads the terms of an `or:(...)` group, stopping at the first error.
fn parse_terms(parts: &Vec<Vec<char>>) -> (r: Result<Vec<TermToken>, XinErrorOut>)
    ensures
        match try_map(texts(parts@), |p: Seq<char>| parse_simple_term_spec(p)) {
            Ok(ts) => r matches Ok(v) && term_views(v@) == ts,
            Err(m) => r matches Err(e) && e.is_usage(m),
        },
{
    let ghost f = |p: Seq<char>| parse_simple_term_spec(p);
    let mut out: Vec<TermToken> = Vec::new();
    let mut i: usize = 0;
    assert(texts(parts@).take(0) =~= Seq::<Seq<char>>::empty());
    assert(term_views(out@) =~= Seq::<TermView>::empty());
    while i < parts.len()
        invariant
            i <= parts.len(),
            f == (|p: Seq<char>| parse_simple_term_spec(p)),
            try_map(texts(parts@).take(i as int), f) == Ok::<Seq<TermView>, Seq<char>>(
                term_views(out@),
            ),
        decreases parts.len() - i,
    {
        proof {
            lemma_take_step(texts(parts@), i as int);
        }
        match parse_simple_term(&parts[i]) {
            Ok(t) => {
                proof {
                    assert(term_views(out@.push(t)) =~= term_views(out@).push(t@));
                }
                out.push(t);
            },
            Err(e) => {
                proof {
                    lemma_try_map_prefix_err(texts(parts@), f, i as int + 1);
                }
                return Err(e);
            },
        }
        i += 1;
    }
    proof {
        lemma_take_all(texts(parts@));
    }
    Ok(out)
}

/// Reads one whitespace-separated token (see `lex_one_spec`).
pub fn lex_one(tok: &[char]) -> (r: Result<Token, XinErrorOut>)
    ensures
        match lex_one_spec(tok@) {
            Ok(t) => r matches Ok(v) && v@ == t,
            Err(m) => r matches Err(e) && e.is_usage(m),
        },
{
    if starts_with(tok, &chars_of("or:(")) {
        if !ends_with(tok, &chars_of(")")) {
            return Err(
                XinErrorOut::usage(
                    owned("or:(...) group must be a single token; quote the full query"),
                ),
            );
        }
        proof {
            reveal_strlit("or:(");
            reveal_strlit(")");
            if tok@.len() == 4 {
                assert(tok@[3] == "or:("@[3]);
                assert(tok@.last() == ")"@[0]);
            }
        }
        let inner = slice_chars(tok, 4, tok.len() - 1);
        if contains_chars(&inner, &chars_of("or:(")) {
            return Err(
                XinErrorOut::usage(
                    owned(
                        "nested or:(...) is not supported in v0; use `--filter-json` for nested boolean logic",
                    ),
                ),
            );
        }
        let parts = split_or_terms(&inner)?;
        let terms = parse_terms(&parts)?;
        if terms.len() == 0 {
            return Err(XinErrorOut::usage(owned("or:(...) group is empty")));
        }
        Ok(Token::OrGroup(terms))
    } else {
        let t = parse_simple_term(tok)?;
        Ok(Token::Term(t))
    }
}

/// Reads a query into tokens (see `lex_tokens_spec`).
pub fn lex_tokens(input: &[char]) -> (r: Result<Vec<Token>, XinErrorOut>)
    ensures
        match lex_tokens_spec(input@) {
            Ok(ts) => r matches Ok(v) && token_views(v@) == ts,
            Err(m) => r matches Err(e) && e.is_usage(m),
        },
{
    let raw = split_ws_quoted(input)?;
    let ghost f = |t: Seq<char>| lex_one_spec(t);
    let mut out: Vec<Token> = Vec::new();
    let mut i: usize = 0;
    assert(texts(raw@).take(0) =~= Seq::<Seq<char>>::empty());
    assert(token_views(out@) =~= Seq::<TokenView>::empty());
    while i < raw.len()
        invariant
            i <= raw.len(),
            f == (|t: Seq<char>| lex_one_spec(t)),
            lex_tokens_spec(input@) == try_map(texts(raw@), f),
            try_map(texts(raw@).take(i as int), f) == Ok::<Seq<TokenView>, Seq<char>>(
                token_views(out@),
            ),
        decreases raw.len() - i,
    {
        proof {
            lemma_take_step(texts(raw@), i as int);
        }
        match lex_one(&raw[i]) {
            Ok(t) => {
                proof {
                    assert(token_views(out@.push(t)) =~= token_views(out@).push(t@));
                }
                out.push(t);
            },
            Err(e) => {
                proof {
                    lemma_try_map_prefix_err(texts(raw@), f, i as int + 1);
                }
                return Err(e);
            },
        }
        i += 1;
    }
    proof {
        lemma_take_all(texts(raw@));
    }
    Ok(out)
}

// ---------------------------------------------------------------- compilation

/// One condition of a JMAP `Email/query` filter.
#[derive(Debug)]
pub enum FilterCondition {
    /// `{name: value}` for the address and text fields (`from`, `to`, `cc`, `bcc`,
    /// `subject`, `text`, `body`).
    Field { name: String, value: String },
    /// `{"inMailbox": id}`.
    InMailbox(String),
    /// `{"hasAttachment": b}`.
    HasAttachment(bool),
    /// `{"hasKeyword": k}`.
    HasKeyword(String),
    /// `{"notKeyword": k}`.
    NotKeyword(String),
    /// `{"after": t}`.
    After(String),
    /// `{"before": t}`.
    Before(String),
}

/// A condition, or its negation (`{"operator": "NOT", "conditions": [c]}`).
#[derive(Debug)]
pub struct Literal {
    pub negated: bool,
    pub condition: FilterCondition,
}

/// One conjunct of the compiled filter: a literal, or an `OR` of literals.
#[derive(Debug)]
pub enum Clause {
    One(Literal),
    AnyOf(Vec<Literal>),
}

/// A compiled query: the conjunction of its clauses. No clause is the empty filter `{}`,
/// one clause stands alone, more are joined by `{"operator": "AND"}`.
#[derive(Debug)]
pub struct SearchFilter {
    pub clauses: Vec<Clause>,
}

/// The meaning of a `FilterCondition`.
pub enum CondView {
    Field(Seq<char>, Seq<char>),
    InMailbox(Seq<char>),
    HasAttachment(bool),
    HasKeyword(Seq<char>),
    NotKeyword(Seq<char>),
    After(Seq<char>),
    Before(Seq<char>),
}

/// The meaning of a `Literal`.
pub struct LitView {
    pub negated: bool,
    pub cond: CondView,
}

/// The meaning of a `Clause`.
pub enum ClauseView {
    One(LitView),
    AnyOf(Seq<LitView>),
}

impl View for FilterCondition {
    type V = CondView;

    open spec fn view(&self) -> CondView {
        match self {
            FilterCondition::Field { name, value } => CondView::Field(name@, value@),
            FilterCondition::InMailbox(id) => CondView::InMailbox(id@),
            FilterCondition::HasAttachment(b) => CondView::HasAttachment(*b),
            FilterCondition::HasKeyword(k) => CondView::HasKeyword(k@),
            FilterCondition::NotKeyword(k) => CondView::NotKeyword(k@),
            FilterCondition::After(t) => CondView::After(t@),
            FilterCondition::Before(t) => CondView::Before(t@),
        }
    }
}

impl View for Literal {
    type V = LitView;

    open spec fn view(&self) -> LitView {
        LitView { negated: self.negated, cond: self.condition@ }
    }
}

/// The meanings of a sequence of literals.
pub open spec fn lit_views(v: Seq<Literal>) -> Seq<LitView> {
    v.map_values(|l: Literal| l@)
}

impl View for Clause {
    type V = ClauseView;

    open spec fn view(&self) -> ClauseView {
        match self {
            Clause::One(l) => ClauseView::One(l@),
            Clause::AnyOf(ls) => ClauseView::AnyOf(lit_views(ls@)),
        }
    }
}

/// The meanings of a sequence of clauses.
pub open spec fn clause_views(v: Seq<Clause>) -> Seq<ClauseView> {
    v.map_values(|c: Clause| c@)
}

impl View for SearchFilter {
    type V = Seq<ClauseView>;

    open spec fn view(&self) -> Seq<ClauseView> {
        clause_views(self.clauses@)
    }
}

/// How a yes/no value is read (case-insensitive `true|1|yes` and `false|0|no`).
pub open spec fn parse_bool_spec(value: Seq<char>, label: Seq<char>) -> Result<bool, Seq<char>> {
    let l = lowercase(value);
    if l == "true"@ || l == "1"@ || l == "yes"@ {
        Ok(true)
    } else if l == "false"@ || l == "0"@ || l == "no"@ {
        Ok(false)
    } else {
        Err(label + " must be true|false"@)
    }
}

/// How a date bound is read: `YYYY-MM-DD` is midnight UTC; otherwise RFC 3339, moved to UTC.
pub open spec fn parse_date_spec(value: Seq<char>, label: Seq<char>) -> Result<
    Seq<char>,
    Seq<char>,
> {
    match ymd_midnight_rfc3339(value) {
        Some(d) => Ok(d),
        None => match rfc3339_in_utc(value) {
            Ok(d) => Ok(d),
            Err(e) => Err("invalid "@ + label + " date: "@ + e),
        },
    }
}

/// Whether `k` is one of the address or text fields that map to `{k: value}`.
pub open spec fn is_field_key(k: Seq<char>) -> bool {
    k == "from"@ || k == "to"@ || k == "cc"@ || k == "bcc"@ || k == "subject"@ || k == "text"@
        || k == "body"@
}

/// The condition one term stands for. A missing key means `text`.
pub open spec fn compile_one_term_spec(
    key: Option<Seq<char>>,
    value: Seq<char>,
    mailboxes: Option<Seq<MailboxInfo>>,
) -> Result<CondView, Seq<char>> {
    let k = match key {
        Some(k) => k,
        None => "text"@,
    };
    if is_field_key(k) {
        Ok(CondView::Field(k, value))
    } else if k == "in"@ {
        match mailboxes {
            None => Err("in:<mailbox> requires mailbox listing (internal error)"@),
            Some(ms) => match resolve_mailbox_spec(value, ms) {
                None => Err("unknown mailbox: "@ + value),
                Some(id) => Ok(CondView::InMailbox(id)),
            },
        }
    } else if k == "has"@ && value == "attachment"@ {
        Ok(CondView::HasAttachment(true))
    } else if k == "hasattachment"@ {
        match parse_bool_spec(value, "hasAttachment"@) {
            Ok(b) => Ok(CondView::HasAttachment(b)),
            Err(m) => Err(m),
        }
    } else if k == "seen"@ {
        match parse_bool_spec(value, "seen"@) {
            Ok(b) => Ok(
                if b {
                    CondView::HasKeyword("$seen"@)
                } else {
                    CondView::NotKeyword("$seen"@)
                },
            ),
            Err(m) => Err(m),
        }
    } else if k == "flagged"@ {
        match parse_bool_spec(value, "flagged"@) {
            Ok(b) => Ok(
                if b {
                    CondView::HasKeyword("$flagged"@)
                } else {
                    CondView::NotKeyword("$flagged"@)
                },
            ),
            Err(m) => Err(m),
        }
    } else if k == "after"@ {
        match parse_date_spec(value, "after"@) {
            Ok(d) => Ok(CondView::After(d)),
            Err(m) => Err(m),
        }
    } else if k == "before"@ {
        match parse_date_spec(value, "before"@) {
            Ok(d) => Ok(CondView::Before(d)),
            Err(m) => Err(m),
        }
    } else {
        Err("unsupported term: "@ + k)
    }
}

/// The literal one term stands for (its condition, negated when the term is).
pub open spec fn compile_lit_spec(t: TermView, mailboxes: Option<Seq<MailboxInfo>>) -> Result<
    LitView,
    Seq<char>,
> {
    match compile_one_term_spec(t.key, t.value, mailboxes) {
        Ok(c) => Ok(LitView { negated: t.negated, cond: c }),
        Err(m) => Err(m),
    }
}

/// The clause one token stands for: a term is one literal, a group the `OR` of its terms.
pub open spec fn compile_token_spec(t: TokenView, mailboxes: Option<Seq<MailboxInfo>>) -> Result<
    ClauseView,
    Seq<char>,
> {
    match t {
        TokenView::Term(term) => match compile_lit_spec(term, mailboxes) {
            Ok(l) => Ok(ClauseView::One(l)),
            Err(m) => Err(m),
        },
        TokenView::OrGroup(terms) => match try_map(
            terms,
            |x: TermView| compile_lit_spec(x, mailboxes),
        ) {
            Ok(ls) => Ok(ClauseView::AnyOf(ls)),
            Err(m) => Err(m),
        },
    }
}

/// What a query compiles to: the trimmed query is read into tokens and each token, in
/// order, becomes one clause; the first error (a usage error with this message) wins.
/// An empty query is the empty filter.
pub open spec fn compile_search_filter_spec(
    query: Seq<char>,
    mailboxes: Option<Seq<MailboxInfo>>,
) -> Result<Seq<ClauseView>, Seq<char>> {
    let q = trim(query);
    if q.len() == 0 {
        Ok(Seq::empty())
    } else {
        match lex_tokens_spec(q) {
            Err(m) => Err(m),
            Ok(ts) => try_map(ts, |t: TokenView| compile_token_spec(t, mailboxes)),
        }
    }
}

/// Whether a term looks a mailbox up (`in:`).
pub open spec fn term_needs_mailboxes(t: TermView) -> bool {
    t.key == Some("in"@)
}

/// Whether a token looks a mailbox up.
pub open spec fn token_needs_mailboxes(t: TokenView) -> bool {
    match t {
        TokenView::Term(term) => term_needs_mailboxes(term),
        TokenView::OrGroup(terms) => exists|j: int|
            0 <= j < terms.len() && term_needs_mailboxes(#[trigger] terms[j]),
    }
}

/// Whether any token of the sequence looks a mailbox up.
pub open spec fn tokens_need_mailboxes(ts: Seq<TokenView>) -> bool {
    exists|i: int| 0 <= i < ts.len() && token_needs_mailboxes(#[trigger] ts[i])
}

/// Reads a yes/no value (see `parse_bool_spec`).
pub fn parse_bool(value: &str, label: &str) -> (r: Result<bool, XinErrorOut>)
    ensures
        match parse_bool_spec(value@, label@) {
            Ok(b) => r == Ok::<bool, XinErrorOut>(b),
            Err(m) => r matches Err(e) && e.is_usage(m),
        },
{
    let l = lower_chars(&chars_of(value));
    if eq_chars(&l, &chars_of("true")) || eq_chars(&l, &chars_of("1")) || eq_chars(
        &l,
        &chars_of("yes"),
    ) {
        Ok(true)
    } else if eq_chars(&l, &chars_of("false")) || eq_chars(&l, &chars_of("0")) || eq_chars(
        &l,
        &chars_of("no"),
    ) {
        Ok(false)
    } else {
        Err(usage_with(label, " must be true|false"))
    }
}

/// Reads a date bound (see `parse_date_spec`).
pub fn parse_date(value: &str, label: &str) -> (r: Result<String, XinErrorOut>)
    ensures
        match parse_date_spec(value@, label@) {
            Ok(d) => r matches Ok(x) && x@ == d,
            Err(m) => r matches Err(e) && e.is_usage(m),
        },
{
    if let Some(d) = parse_ymd_midnight(value) {
        return Ok(d);
    }
    match parse_rfc3339_utc(value) {
        Ok(d) => Ok(d),
        Err(e) => {
            let v = concat_chars(
                &concat_chars(&concat_chars(&chars_of("invalid "), &chars_of(label)), &chars_of(" date: ")),
                &chars_of(e.as_str()),
            );
            Err(XinErrorOut::usage(string_of(&v)))
        },
    }
}

fn copy_str(s: &String) -> (r: String)
    ensures
        r@ == s@,
{
    s.clone()
}

/// The condition one term stands for (see `compile_one_term_spec`).
pub fn compile_one_term(
    key: &Option<String>,
    value: &String,
    mailboxes: Option<&[MailboxInfo]>,
) -> (r: Result<FilterCondition, XinErrorOut>)
    ensures
        match compile_one_term_spec(
            opt_text(*key),
            value@,
            match mailboxes {
                Some(ms) => Some(ms@),
                None => None,
            },
        ) {
            Ok(c) => r matches Ok(x) && x@ == c,
            Err(m) => r matches Err(e) && e.is_usage(m),
        },
{
    let k: Vec<char> = match key {
        Some(k) => chars_of(k.as_str()),
        None => chars_of("text"),
    };
    let v = chars_of(value.as_str());
    if eq_chars(&k, &chars_of("from")) || eq_chars(&k, &chars_of("to")) || eq_chars(
        &k,
        &chars_of("cc"),
    ) || eq_chars(&k, &chars_of("bcc")) || eq_chars(&k, &chars_of("subject")) || eq_chars(
        &k,
        &chars_of("text"),
    ) || eq_chars(&k, &chars_of("body")) {
        return Ok(FilterCondition::Field { name: string_of(&k), value: copy_str(value) });
    }
    if eq_chars(&k, &chars_of("in")) {
        return match mailboxes {
            None => Err(
                XinErrorOut::usage(owned("in:<mailbox> requires mailbox listing (internal error)")),
            ),
            Some(ms) => match resolve_mailbox_id(value.as_str(), ms) {
                None => Err(usage_with("unknown mailbox: ", value.as_str())),
                Some(id) => Ok(FilterCondition::InMailbox(id)),
            },
        };
    }
    if eq_chars(&k, &chars_of("has")) && eq_chars(&v, &chars_of("attachment")) {
        return Ok(FilterCondition::HasAttachment(true));
    }
    if eq_chars(&k, &chars_of("hasattachment")) {
        let b = parse_bool(value.as_str(), "hasAttachment")?;
        return Ok(FilterCondition::HasAttachment(b));
    }
    if eq_chars(&k, &chars_of("seen")) {
        let b = parse_bool(value.as_str(), "seen")?;
        return Ok(
            if b {
                FilterCondition::HasKeyword(owned("$seen"))
            } else {
                FilterCondition::NotKeyword(owned("$seen"))
            },
        );
    }
    if eq_chars(&k, &chars_of("flagged")) {
        let b = parse_bool(value.as_str(), "flagged")?;
        return Ok(
            if b {
                FilterCondition::HasKeyword(owned("$flagged"))
            } else {
                FilterCondition::NotKeyword(owned("$flagged"))
            },
        );
    }
    if eq_chars(&k, &chars_of("after")) {
        let d = parse_date(value.as_str(), "after")?;
        return Ok(FilterCondition::After(d));
    }
    if eq_chars(&k, &chars_of("before")) {
        let d = parse_date(value.as_str(), "before")?;
        return Ok(FilterCondition::Before(d));
    }
    let ks = string_of(&k);
    Err(usage_with("unsupported term: ", ks.as_str()))
}

fn compile_lit(t: &TermToken, mailboxes: Option<&[MailboxInfo]>) -> (r: Result<
    Literal,
    XinErrorOut,
>)
    ensures
        match compile_lit_spec(
            t@,
            match mailboxes {
                Some(ms) => Some(ms@),
                None => None,
            },
        ) {
            Ok(l) => r matches Ok(x) && x@ == l,
            Err(m) => r matches Err(e) && e.is_usage(m),
        },
{
    let c = compile_one_term(&t.key, &t.value, mailboxes)?;
    Ok(Literal { negated: t.negated, condition: c })
}

fn compile_token(t: &Token, mailboxes: Option<&[MailboxInfo]>) -> (r: Result<
    Clause,
    XinErrorOut,
>)
    ensures
        match compile_token_spec(
            t@,
            match mailboxes {
                Some(ms) => Some(ms@),
                None => None,
            },
        ) {
            Ok(c) => r matches Ok(x) && x@ == c,
            Err(m) => r matches Err(e) && e.is_usage(m),
        },
{
    match t {
        Token::Term(term) => {
            let l = compile_lit(term, mailboxes)?;
            Ok(Clause::One(l))
        },
        Token::OrGroup(terms) => {
            let ghost mbs = match mailboxes {
                Some(ms) => Some(ms@),
                None => None,
            };
            let ghost f = |x: TermView| compile_lit_spec(x, mbs);
            let mut out: Vec<Literal> = Vec::new();
            let mut i: usize = 0;
            assert(term_views(terms@).take(0) =~= Seq::<TermView>::empty());
            assert(lit_views(out@) =~= Seq::<LitView>::empty());
            while i < terms.len()
                invariant
                    i <= terms.len(),
                    t@ == TokenView::OrGroup(term_views(terms@)),
                    f == (|x: TermView| compile_lit_spec(x, mbs)),
                    mbs == match mailboxes {
                        Some(ms) => Some(ms@),
                        None => None::<Seq<MailboxInfo>>,
                    },
                    try_map(term_views(terms@).take(i as int), f) == Ok::<
                        Seq<LitView>,
                        Seq<char>,
                    >(lit_views(out@)),
                decreases terms.len() - i,
            {
                proof {
                    lemma_take_step(term_views(terms@), i as int);
                }
                match compile_lit(&terms[i], mailboxes) {
                    Ok(l) => {
                        proof {
                            assert(lit_views(out@.push(l)) =~= lit_views(out@).push(l@));
                        }
                        out.push(l);
                    },
                    Err(e) => {
                        proof {
                            lemma_try_map_prefix_err(term_views(terms@), f, i as int + 1);
                        }
                        return Err(e);
                    },
                }
                i += 1;
            }
            proof {
                lemma_take_all(term_views(terms@));
            }
            Ok(Clause::AnyOf(out))
        },
    }
}

/// Reads a query into tokens after trimming it (see `lex_tokens_spec`).
pub fn lex_query(query: &str) -> (r: Result<Vec<Token>, XinErrorOut>)
    ensures
        match lex_tokens_spec(trim(query@)) {
            Ok(ts) => r matches Ok(v) && token_views(v@) == ts,
            Err(m) => r matches Err(e) && e.is_usage(m),
        },
{
    let q = trim_chars(&chars_of(query));
    lex_tokens(&q)
}

/// Whether compiling these tokens needs the account's mailboxes (some term is `in:`).
pub fn query_needs_mailboxes(tokens: &[Token]) -> (r: bool)
    ensures
        r == tokens_need_mailboxes(token_views(tokens@)),
{
    let mut i: usize = 0;
    while i < tokens.len()
        invariant
            i <= tokens.len(),
            forall|j: int| 0 <= j < i ==> !token_needs_mailboxes(#[trigger] token_views(tokens@)[j]),
        decreases tokens.len() - i,
    {
        let hit = match &tokens[i] {
            Token::Term(t) => {
                let h = term_is_in(t);
                assert(h == token_needs_mailboxes(tokens@[i as int]@));
                h
            },
            Token::OrGroup(ts) => {
                let h = group_needs_mailboxes(ts);
                proof {
                    let tv = term_views(ts@);
                    if h {
                        let k = choose|k: int| 0 <= k < ts@.len() && term_needs_mailboxes(ts@[k]@);
                        assert(tv[k] == ts@[k]@);
                        assert(term_needs_mailboxes(tv[k]));
                        assert(tokens@[i as int]@ == TokenView::OrGroup(tv));
                        assert(token_needs_mailboxes(tokens@[i as int]@));
                    } else {
                        assert forall|k: int| 0 <= k < tv.len() implies !term_needs_mailboxes(
                            #[trigger] tv[k],
                        ) by {
                            assert(tv[k] == ts@[k]@);
                        }
                    }
                }
                h
            },
        };
        assert(token_views(tokens@)[i as int] == tokens@[i as int]@);
        assert(hit == token_needs_mailboxes(token_views(tokens@)[i as int]));
        if hit {
            return true;
        }
        i += 1;
    }
    false
}

fn group_needs_mailboxes(ts: &Vec<TermToken>) -> (r: bool)
    ensures
        r == exists|k: int| 0 <= k < ts@.len() && term_needs_mailboxes(#[trigger] ts@[k]@),
{
    let mut j: usize = 0;
    while j < ts.len()
        invariant
            j <= ts.len(),
            forall|k: int| 0 <= k < j ==> !term_needs_mailboxes(#[trigger] ts@[k]@),
        decreases ts.len() - j,
    {
        if term_is_in(&ts[j]) {
            return true;
        }
        j += 1;
    }
    false
}

fn term_is_in(t: &TermToken) -> (r: bool)
    ensures
        r == term_needs_mailboxes(t@),
{
    match &t.key {
        Some(k) => eq_chars(&chars_of(k.as_str()), &chars_of("in")),
        None => false,
    }
}

/// Compiles a query into a filter (see `compile_search_filter_spec`). `mailboxes` is the
/// account's mailbox list; it is needed only when the query has an `in:` term.
pub fn compile_search_filter(query: &str, mailboxes: Option<&[MailboxInfo]>) -> (r: Result<
    SearchFilter,
    XinErrorOut,
>)
    ensures
        match compile_search_filter_spec(
            query@,
            match mailboxes {
                Some(ms) => Some(ms@),
                None => None,
            },
        ) {
            Ok(cs) => r matches Ok(f) && f@ == cs,
            Err(m) => r matches Err(e) && e.is_usage(m),
        },
{
    let q = trim_chars(&chars_of(query));
    if q.len() == 0 {
        let f = SearchFilter { clauses: Vec::new() };
        assert(f@ =~= Seq::<ClauseView>::empty());
        return Ok(f);
    }
    let tokens = lex_tokens(&q)?;
    let ghost mbs = match mailboxes {
        Some(ms) => Some(ms@),
        None => None,
    };
    let ghost f = |t: TokenView| compile_token_spec(t, mbs);
    let mut out: Vec<Clause> = Vec::new();
    let mut i: usize = 0;
    assert(token_views(tokens@).take(0) =~= Seq::<TokenView>::empty());
    assert(clause_views(out@) =~= Seq::<ClauseView>::empty());
    while i < tokens.len()
        invariant
            i <= tokens.len(),
            trim(query@).len() > 0,
            lex_tokens_spec(trim(query@)) == Ok::<Seq<TokenView>, Seq<char>>(token_views(tokens@)),
            f == (|t: TokenView| compile_token_spec(t, mbs)),
            mbs == match mailboxes {
                Some(ms) => Some(ms@),
                None => None::<Seq<MailboxInfo>>,
            },
            try_map(token_views(tokens@).take(i as int), f) == Ok::<Seq<ClauseView>, Seq<char>>(
                clause_views(out@),
            ),
        decreases tokens.len() - i,
    {
        proof {
            lemma_take_step(token_views(tokens@), i as int);
        }
        match compile_token(&tokens[i], mailboxes) {
            Ok(c) => {
                proof {
                    assert(clause_views(out@.push(c)) =~= clause_views(out@).push(c@));
                }
                out.push(c);
            },
            Err(e) => {
                proof {
                    lemma_try_map_prefix_err(token_views(tokens@), f, i as int + 1);
                }
                return Err(e);
            },
        }
        i += 1;
    }
    proof {
        lemma_take_all(token_views(tokens@));
    }
    Ok(SearchFilter { clauses: out })
}

/// Two maps that agree on every element give the same `try_map`.
pub proof fn lemma_try_map_congruent<A, B, E>(
    s: Seq<A>,
    f: spec_fn(A) -> Result<B, E>,
    g: spec_fn(A) -> Result<B, E>,
)
    requires
        forall|i: int| 0 <= i < s.len() ==> f(#[trigger] s[i]) == g(s[i]),
    ensures
        try_map(s, f) == try_map(s, g),
    decreases s.len(),
{
    if s.len() > 0 {
        assert forall|i: int| 0 <= i < s.drop_last().len() implies f(
            #[trigger] s.drop_last()[i],
        ) == g(s.drop_last()[i]) by {
            assert(s.drop_last()[i] == s[i]);
        }
        lemma_try_map_congruent(s.drop_last(), f, g);
        assert(f(s.last()) == g(s[s.len() - 1]));
    }
}

/// A term that does not look a mailbox up compiles the same with or without the list.
proof fn lemma_term_ignores_mailboxes(t: TermView, ms: Seq<MailboxInfo>)
    requires
        !term_needs_mailboxes(t),
    ensures
        compile_lit_spec(t, Some(ms)) == compile_lit_spec(t, None),
{
}

/// The account's mailboxes matter to a query only through its `in:` terms: a query
/// without one compiles to the same filter (or error) whether or not the mailboxes were
/// listed, which is why they are only fetched for `in:` terms.
pub proof fn law_mailboxes_only_matter_for_in_terms(query: Seq<char>, ms: Seq<MailboxInfo>)
    requires
        lex_tokens_spec(trim(query)) matches Ok(ts) && !tokens_need_mailboxes(ts),
    ensures
        compile_search_filter_spec(query, Some(ms)) == compile_search_filter_spec(query, None),
{
    let q = trim(query);
    if q.len() > 0 {
        let ts = lex_tokens_spec(q)->Ok_0;
        let f = |t: TokenView| compile_token_spec(t, Some(ms));
        let g = |t: TokenView| compile_token_spec(t, None);
        assert forall|i: int| 0 <= i < ts.len() implies f(#[trigger] ts[i]) == g(ts[i]) by {
            assert(!token_needs_mailboxes(ts[i]));
            match ts[i] {
                TokenView::Term(term) => {
                    lemma_term_ignores_mailboxes(term, ms);
                },
                TokenView::OrGroup(terms) => {
                    let fl = |x: TermView| compile_lit_spec(x, Some(ms));
                    let gl = |x: TermView| compile_lit_spec(x, None);
                    assert forall|j: int| 0 <= j < terms.len() implies fl(#[trigger] terms[j])
                        == gl(terms[j]) by {
                        assert(!term_needs_mailboxes(terms[j]));
                        lemma_term_ignores_mailboxes(terms[j], ms);
                    }
                    lemma_try_map_congruent(terms, fl, gl);
                },
            }
        }
        lemma_try_map_congruent(ts, f, g);
    }
}

/// The top of the JMAP filter of a compiled query: `{}` when it has no clause, the one
/// clause alone, or an `AND` of all of them.
#[derive(Debug)]
pub enum FilterTop {
    Everything,
    Single(Clause),
    All(Vec<Clause>),
}

/// Decides the top of the JMAP filter of a compiled query.
pub fn filter_top(f: SearchFilter) -> (r: FilterTop)
    ensures
        f@.len() == 0 ==> r is Everything,
        f@.len() == 1 ==> (r matches FilterTop::Single(c) && c@ == f@[0]),
        f@.len() > 1 ==> (r matches FilterTop::All(cs) && clause_views(cs@) == f@),
{
    let SearchFilter { clauses } = f;
    let mut clauses = clauses;
    if clauses.len() == 0 {
        FilterTop::Everything
    } else if clauses.len() == 1 {
        let c = clauses.pop().unwrap();
        FilterTop::Single(c)
    } else {
        FilterTop::All(clauses)
    }
}

/// Date terms keep their direction: `before:` a date asks for mail received before
/// that date, and `after:` for mail received after it; neither ever turns into the other.
pub proof fn lemma_date_terms_keep_direction(value: Seq<char>, mailboxes: Option<Seq<MailboxInfo>>)
    ensures
        parse_date_spec(value, "before"@) matches Ok(d) ==> compile_one_term_spec(
            Some("before"@),
            value,
            mailboxes,
        ) == Ok::<CondView, Seq<char>>(CondView::Before(d)),
        parse_date_spec(value, "after"@) matches Ok(d) ==> compile_one_term_spec(
            Some("after"@),
            value,
            mailboxes,
        ) == Ok::<CondView, Seq<char>>(CondView::After(d)),
        compile_one_term_spec(Some("before"@), value, mailboxes) matches Ok(c) ==> c is Before,
        compile_one_term_spec(Some("after"@), value, mailboxes) matches Ok(c) ==> c is After,
{
    reveal_strlit("before");
    reveal_strlit("after");
    reveal_strlit("from");
    reveal_strlit("to");
    reveal_strlit("cc");
    reveal_strlit("bcc");
    reveal_strlit("subject");
    reveal_strlit("text");
    reveal_strlit("body");
    reveal_strlit("in");
    reveal_strlit("has");
    reveal_strlit("hasattachment");
    reveal_strlit("seen");
    reveal_strlit("flagged");
    assert("before"@.len() == 6);
    assert("after"@.len() == 5);
    assert("from"@.len() == 4);
    assert("has"@.len() == 3);
    assert("hasattachment"@.len() == 13);
    assert("before"@ != "from"@);
    assert("before"@ != "to"@);
    assert("before"@ != "cc"@);
    assert("before"@ != "bcc"@);
    assert("before"@ != "subject"@);
    assert("before"@ != "text"@);
    assert("before"@ != "body"@);
    assert(!is_field_key("before"@));
    assert(!is_field_key("after"@));
    assert("before"@ != "in"@);
    assert("before"@ != "has"@);
    assert("before"@ != "hasattachment"@);
    assert("before"@ != "seen"@);
    assert("before"@ != "flagged"@);
    assert("before"@ != "after"@);
    assert("after"@ != "in"@);
    assert("after"@ != "has"@);
    assert("after"@ != "hasattachment"@);
    assert("after"@ != "seen"@);
    assert("after"@ != "flagged"@);
}

/// `seen:` and `flagged:` keep their polarity: a true value asks for the keyword
/// (`$seen`, `$flagged`) and a false one for its absence.
pub proof fn lemma_keyword_terms_keep_polarity(value: Seq<char>, mailboxes: Option<Seq<MailboxInfo>>)
    ensures
        parse_bool_spec(value, "seen"@) matches Ok(b) ==> compile_one_term_spec(
            Some("seen"@),
            value,
            mailboxes,
        ) == Ok::<CondView, Seq<char>>(
            if b {
                CondView::HasKeyword("$seen"@)
            } else {
                CondView::NotKeyword("$seen"@)
            },
        ),
        parse_bool_spec(value, "flagged"@) matches Ok(b) ==> compile_one_term_spec(
            Some("flagged"@),
            value,
            mailboxes,
        ) == Ok::<CondView, Seq<char>>(
            if b {
                CondView::HasKeyword("$flagged"@)
            } else {
                CondView::NotKeyword("$flagged"@)
            },
        ),
{
    reveal_strlit("seen");
    reveal_strlit("flagged");
    reveal_strlit("from");
    reveal_strlit("to");
    reveal_strlit("cc");
    reveal_strlit("bcc");
    reveal_strlit("subject");
    reveal_strlit("text");
    reveal_strlit("body");
    reveal_strlit("in");
    reveal_strlit("has");
    reveal_strlit("hasattachment");
    assert("seen"@.len() == 4 && "flagged"@.len() == 7 && "from"@.len() == 4 && "text"@.len() == 4);
    assert("body"@.len() == 4 && "to"@.len() == 2 && "cc"@.len() == 2 && "bcc"@.len() == 3);
    assert("subject"@.len() == 7 && "in"@.len() == 2 && "has"@.len() == 3);
    assert("hasattachment"@.len() == 13);
    assert("seen"@ != "from"@ && "seen"@ != "text"@ && "seen"@ != "body"@) by {
        assert("seen"@[0] != "from"@[0] && "seen"@[0] != "text"@[0] && "seen"@[0] != "body"@[0]);
    }
    assert("flagged"@ != "subject"@) by {
        assert("flagged"@[0] != "subject"@[0]);
    }
    assert(!is_field_key("seen"@));
    assert(!is_field_key("flagged"@));
}

/// The address and text keys search their own field with the value as given.
pub proof fn lemma_field_terms(k: Seq<char>, value: Seq<char>, mailboxes: Option<Seq<MailboxInfo>>)
    requires
        k == "from"@ || k == "to"@ || k == "cc"@ || k == "bcc"@ || k == "subject"@ || k == "text"@
            || k == "body"@,
    ensures
        compile_one_term_spec(Some(k), value, mailboxes) == Ok::<CondView, Seq<char>>(
            CondView::Field(k, value),
        ),
        compile_one_term_spec(None, value, mailboxes) == Ok::<CondView, Seq<char>>(
            CondView::Field("text"@, value),
        ),
{
}

} // verus!
