//! Paging: the opaque `--page` tokens of `search`, `history` and `watch` (URL-safe
//! base64 of a small JSON object), and the decisions of the paging and watching loops.
use vstd::prelude::*;

use base64::Engine;
use vstd::utf8::{encode_utf8, encode_utf8_decode_utf8};

use crate::error::{owned, XinErrorOut};
use crate::mailbox::opt_text;
use crate::pieces::{append_chars, decimal, i64_text, signed_decimal, u64_text};
use crate::text::{chars_of, eq_chars, string_of, trim, trim_chars};

verus! {

/// What URL-safe base64 without padding decodes the text to, or the decode error's text.
pub uninterp spec fn base64url_decoded(s: Seq<char>) -> Result<Seq<u8>, Seq<char>>;

/// What URL-safe base64 without padding encodes the bytes to.
pub uninterp spec fn base64url_encoded(b: Seq<u8>) -> Seq<char>;

/// Whether the text decodes to exactly these bytes.
pub open spec fn decodes_to(s: Seq<char>, b: Seq<u8>) -> bool {
    base64url_decoded(s) matches Ok(x) && x == b
}

/// Calls base64's `URL_SAFE_NO_PAD.encode`; decoding its output gives the bytes back.
#[verifier::external_body]
fn b64url_encode(bytes: &[u8]) -> (r: String)
    ensures
        r@ == base64url_encoded(bytes@),
        decodes_to(r@, bytes@),
{
    base64::engine::general_purpose::URL_SAFE_NO_PAD.encode(bytes)
}

/// Calls base64's `URL_SAFE_NO_PAD.decode` (the error as its text).
#[verifier::external_body]
fn b64url_decode(s: &str) -> (r: Result<Vec<u8>, String>)
    ensures
        match base64url_decoded(s@) {
            Ok(b) => r matches Ok(v) && v@ == b,
            Err(m) => r matches Err(e) && e@ == m,
        },
{
    base64::engine::general_purpose::URL_SAFE_NO_PAD.decode(s).map_err(|e| e.to_string())
}

// ---------------------------------------------------------------- JSON text

/// The lowercase hexadecimal digit for `d` (below 16).
pub open spec fn lower_hex(d: nat) -> char {
    if d < 10 {
        ((48 + d) as u32) as char
    } else {
        ((87 + d) as u32) as char
    }
}

/// How a character is written inside a JSON string: `"` and `\` and the control
/// characters are escaped (short forms where JSON has them, else `\u00XX`).
pub open spec fn json_char(c: char) -> Seq<char> {
    let n = c as u32;
    if c == '"' {
        seq!['\\', '"']
    } else if c == '\\' {
        seq!['\\', '\\']
    } else if n == 8 {
        seq!['\\', 'b']
    } else if n == 9 {
        seq!['\\', 't']
    } else if n == 10 {
        seq!['\\', 'n']
    } else if n == 12 {
        seq!['\\', 'f']
    } else if n == 13 {
        seq!['\\', 'r']
    } else if n < 32 {
        seq!['\\', 'u', '0', '0', lower_hex((n / 16) as nat), lower_hex((n % 16) as nat)]
    } else {
        seq![c]
    }
}

/// The characters of `s` as written inside a JSON string.
pub open spec fn json_chars(s: Seq<char>) -> Seq<char>
    decreases s.len(),
{
    if s.len() == 0 {
        Seq::empty()
    } else {
        json_chars(s.drop_last()) + json_char(s.last())
    }
}

/// `s` as a JSON string literal (as serde_json writes it).
pub open spec fn json_string(s: Seq<char>) -> Seq<char> {
    seq!['"'] + json_chars(s) + seq!['"']
}

/// Calls serde_json's `to_string` on a string: its JSON literal, with `"`, `\` and the
/// control characters escaped as `json_string` says (serde_json's escape table: the
/// short forms `\b \t \n \f \r`, else `\u00` and two lowercase hex digits).
/// Writing a `str` into a byte vector cannot fail; the error arm is never taken.
#[verifier::external_body]
fn json_quote(s: &str) -> (r: String)
    ensures
        r@ == json_string(s@),
{
    match serde_json::to_string(s) {
        Ok(q) => q,
        Err(_) => String::new(),
    }
}

/// Appends the JSON form of `s` (with quotes) to `out`.
pub fn push_json_string(out: &mut Vec<char>, s: &str)
    ensures
        final(out)@ == old(out)@ + json_string(s@),
{
    append_chars(out, &chars_of(json_quote(s).as_str()));
}

fn push_text(out: &mut Vec<char>, s: &str)
    ensures
        final(out)@ == old(out)@ + s@,
{
    append_chars(out, &chars_of(s));
}

// ---------------------------------------------------------------- history tokens

/// The JSON of a history page token.
pub open spec fn history_token_json(since_state: Seq<char>, max_changes: nat) -> Seq<char> {
    "{\"sinceState\":"@ + json_string(since_state) + ",\"maxChanges\":"@ + decimal(max_changes)
        + "}"@
}

/// The page token that continues `history` (and `watch`) from `since_state`.
pub fn encode_history_token(since_state: &str, max_changes: usize) -> (r: String)
    ensures
        r@ == base64url_encoded(encode_utf8(history_token_json(since_state@, max_changes as nat))),
        decodes_to(r@, encode_utf8(history_token_json(since_state@, max_changes as nat))),
{
    let mut v: Vec<char> = Vec::new();
    push_text(&mut v, "{\"sinceState\":");
    push_json_string(&mut v, since_state);
    push_text(&mut v, ",\"maxChanges\":");
    push_text(&mut v, u64_text(max_changes as u64).as_str());
    push_text(&mut v, "}");
    let s = string_of(&v);
    assert(s@ =~= history_token_json(since_state@, max_changes as nat));
    b64url_encode(s.as_str().as_bytes())
}

/// `json_chars` read from the front.
proof fn lemma_json_chars_front(s: Seq<char>)
    requires
        s.len() > 0,
    ensures
        json_chars(s) == json_char(s[0]) + json_chars(s.drop_first()),
    decreases s.len(),
{
    if s.len() == 1 {
        assert(s.drop_last() =~= Seq::<char>::empty());
        assert(s.drop_first() =~= Seq::<char>::empty());
        assert(json_chars(s) =~= json_char(s[0]) + json_chars(s.drop_first()));
    } else {
        lemma_json_chars_front(s.drop_last());
        assert(s.drop_last().drop_first() =~= s.drop_first().drop_last());
        assert(s.drop_first().last() == s.last());
        assert(json_chars(s) =~= json_char(s[0]) + json_chars(s.drop_first()));
    }
}

/// No character's JSON form starts with a quote.
proof fn lemma_json_char_first(c: char)
    ensures
        json_char(c).len() >= 1,
        json_char(c)[0] != '"',
{
}

/// The JSON forms of two characters can start the same text only when the
/// characters are the same.
proof fn lemma_json_char_prefix(a: char, b: char, x: Seq<char>, y: Seq<char>)
    requires
        json_char(a) + x == json_char(b) + y,
    ensures
        a == b,
        x == y,
{
    let ja = json_char(a);
    let jb = json_char(b);
    let t = ja + x;
    assert(t[0] == ja[0]);
    assert((jb + y)[0] == jb[0]);
    if ja.len() > 1 && jb.len() > 1 {
        assert(t[1] == ja[1]);
        assert((jb + y)[1] == jb[1]);
        if ja.len() == 6 && jb.len() == 6 {
            let na = a as u32;
            let nb = b as u32;
            assert(t[4] == ja[4]);
            assert((jb + y)[4] == jb[4]);
            assert(t[5] == ja[5]);
            assert((jb + y)[5] == jb[5]);
            assert(na / 16 == nb / 16);
            assert(na % 16 == nb % 16);
            assert(na == nb);
        }
    }
    assert(a == b);
    assert(x =~= t.skip(ja.len() as int));
    assert(y =~= (jb + y).skip(jb.len() as int));
}

/// The characters of a JSON string end at their first unescaped quote: what comes
/// before it gives back the text, and what follows is the rest.
proof fn lemma_json_chars_quote(s1: Seq<char>, s2: Seq<char>, r1: Seq<char>, r2: Seq<char>)
    requires
        json_chars(s1) + seq!['"'] + r1 == json_chars(s2) + seq!['"'] + r2,
    ensures
        s1 == s2,
        r1 == r2,
    decreases s1.len(),
{
    let t1 = json_chars(s1) + seq!['"'] + r1;
    let t2 = json_chars(s2) + seq!['"'] + r2;
    if s1.len() == 0 {
        assert(json_chars(s1) =~= Seq::<char>::empty());
        assert(t1[0] == '"');
        if s2.len() > 0 {
            lemma_json_chars_front(s2);
            lemma_json_char_first(s2[0]);
            assert(t2[0] == json_char(s2[0])[0]);
        } else {
            assert(json_chars(s2) =~= Seq::<char>::empty());
            assert(r1 =~= t1.skip(1));
            assert(r2 =~= t2.skip(1));
        }
    } else if s2.len() == 0 {
        assert(json_chars(s2) =~= Seq::<char>::empty());
        assert(t2[0] == '"');
        lemma_json_chars_front(s1);
        lemma_json_char_first(s1[0]);
        assert(t1[0] == json_char(s1[0])[0]);
    } else {
        lemma_json_chars_front(s1);
        lemma_json_chars_front(s2);
        let x = json_chars(s1.drop_first()) + seq!['"'] + r1;
        let y = json_chars(s2.drop_first()) + seq!['"'] + r2;
        assert(t1 =~= json_char(s1[0]) + x);
        assert(t2 =~= json_char(s2[0]) + y);
        lemma_json_char_prefix(s1[0], s2[0], x, y);
        lemma_json_chars_quote(s1.drop_first(), s2.drop_first(), r1, r2);
        assert(s1 =~= s2) by {
            assert forall|i: int| 0 <= i < s1.len() implies s1[i] == s2[i] by {
                if i > 0 {
                    assert(s1[i] == s1.drop_first()[i - 1]);
                    assert(s2[i] == s2.drop_first()[i - 1]);
                }
            }
        }
    }
}

/// Decimal text is never empty.
proof fn lemma_decimal_nonempty(n: nat)
    ensures
        decimal(n).len() >= 1,
{
}

/// Different numbers are written differently.
proof fn lemma_decimal_injective(m1: nat, m2: nat)
    requires
        decimal(m1) == decimal(m2),
    ensures
        m1 == m2,
    decreases m1,
{
    let d1 = decimal(m1);
    let d2 = decimal(m2);
    if m1 < 10 && m2 < 10 {
        assert(d1[0] == d2[0]);
    } else if m1 < 10 {
        lemma_decimal_nonempty(m2 / 10);
        assert(d1.len() == 1);
    } else if m2 < 10 {
        lemma_decimal_nonempty(m1 / 10);
        assert(d2.len() == 1);
    } else {
        assert(d1.last() == d2.last());
        assert(d1.drop_last() =~= decimal(m1 / 10));
        assert(d2.drop_last() =~= decimal(m2 / 10));
        lemma_decimal_injective(m1 / 10, m2 / 10);
    }
}

/// The JSON of a `history` page token names exactly one page: equal texts come from
/// the same state and the same page size.
pub proof fn lemma_history_token_json_injective(s1: Seq<char>, m1: nat, s2: Seq<char>, m2: nat)
    requires
        history_token_json(s1, m1) == history_token_json(s2, m2),
    ensures
        s1 == s2,
        m1 == m2,
{
    let p = "{\"sinceState\":"@;
    let q = ",\"maxChanges\":"@;
    let close = "}"@;
    reveal_strlit("}");
    let rest1 = q + decimal(m1) + close;
    let rest2 = q + decimal(m2) + close;
    let t1 = history_token_json(s1, m1);
    let t2 = history_token_json(s2, m2);
    assert(t1 =~= p + seq!['"'] + (json_chars(s1) + seq!['"'] + rest1));
    assert(t2 =~= p + seq!['"'] + (json_chars(s2) + seq!['"'] + rest2));
    assert(t1.skip(p.len() as int + 1) =~= json_chars(s1) + seq!['"'] + rest1);
    assert(t2.skip(p.len() as int + 1) =~= json_chars(s2) + seq!['"'] + rest2);
    lemma_json_chars_quote(s1, s2, rest1, rest2);
    assert(rest1.skip(q.len() as int).drop_last() =~= decimal(m1));
    assert(rest2.skip(q.len() as int).drop_last() =~= decimal(m2));
    lemma_decimal_injective(m1, m2);
}

/// A `history` page token names one page: text that decodes to the token of one page
/// decodes to the token of no other.
pub proof fn lemma_history_token_names_one_page(
    t: Seq<char>,
    s1: Seq<char>,
    m1: nat,
    s2: Seq<char>,
    m2: nat,
)
    requires
        decodes_to(t, encode_utf8(history_token_json(s1, m1))),
        decodes_to(t, encode_utf8(history_token_json(s2, m2))),
    ensures
        s1 == s2,
        m1 == m2,
{
    encode_utf8_decode_utf8(history_token_json(s1, m1));
    encode_utf8_decode_utf8(history_token_json(s2, m2));
    lemma_history_token_json_injective(s1, m1, s2, m2);
}

/// The bytes of a page token (its JSON), or the usage error for text that is not base64.
pub fn decode_token_bytes(token: &str) -> (r: Result<Vec<u8>, XinErrorOut>)
    ensures
        match base64url_decoded(token@) {
            Ok(b) => r matches Ok(v) && v@ == b,
            Err(m) => r matches Err(e) && e.is_usage("invalid page token: "@ + m),
        },
{
    match b64url_decode(token) {
        Ok(b) => Ok(b),
        Err(m) => {
            let mut v = chars_of("invalid page token: ");
            append_chars(&mut v, &chars_of(m.as_str()));
            Err(XinErrorOut::usage(string_of(&v)))
        },
    }
}

/// A decoded history page token.
#[derive(Debug)]
pub struct HistoryToken {
    pub since_state: String,
    pub max_changes: usize,
}

/// Where a `history`/`watch` page continues from: the token is the source of truth,
/// and `--since`/`--max` given with it must agree with it; without a token, `--since`
/// (or an empty state) and `--max` (100 by default).
pub open spec fn changes_start_spec(
    since: Option<Seq<char>>,
    max: Option<usize>,
    token: Option<(Seq<char>, usize)>,
) -> Result<(Seq<char>, usize), Seq<char>> {
    match token {
        Some((ts, tm)) => if (max matches Some(m) && m != tm) || (since matches Some(s) && s != ts) {
            Err("page token does not match args"@)
        } else {
            Ok((ts, tm))
        },
        None => Ok(
            (
                match since {
                    Some(s) => s,
                    None => Seq::empty(),
                },
                match max {
                    Some(m) => m,
                    None => 100,
                },
            ),
        ),
    }
}

/// Decides the state and page size a `history` or `watch` run starts from; an empty
/// (blank) state is refused with `missing`.
pub fn changes_start(
    since: Option<&str>,
    max: Option<usize>,
    token: Option<&HistoryToken>,
    missing: &str,
) -> (r: Result<(String, usize), XinErrorOut>)
    ensures
        match changes_start_spec(
            match since {
                Some(s) => Some(s@),
                None => None,
            },
            max,
            match token {
                Some(t) => Some((t.since_state@, t.max_changes)),
                None => None,
            },
        ) {
            Err(m) => r matches Err(e) && e.is_usage(m),
            Ok((s, m)) => if trim(s).len() == 0 {
                r matches Err(e) && e.is_usage(missing@)
            } else {
                r matches Ok((x, y)) && x@ == s && y == m
            },
        },
{
    let (state, used): (String, usize) = match token {
        Some(t) => {
            let max_differs = match max {
                Some(m) => m != t.max_changes,
                None => false,
            };
            let since_differs = match since {
                Some(s) => !eq_chars(&chars_of(s), &chars_of(t.since_state.as_str())),
                None => false,
            };
            if max_differs || since_differs {
                return Err(XinErrorOut::usage(owned("page token does not match args")));
            }
            (owned(t.since_state.as_str()), t.max_changes)
        },
        None => (
            match since {
                Some(s) => owned(s),
                None => owned(""),
            },
            match max {
                Some(m) => m,
                None => 100,
            },
        ),
    };
    proof {
        reveal_strlit("");
    }
    if trim_chars(&chars_of(state.as_str())).len() == 0 {
        return Err(XinErrorOut::usage(owned(missing)));
    }
    Ok((state, used))
}

/// `history` without `--since` and `--page` only reports the current state.
pub fn history_is_bootstrap(since: Option<&str>, page: Option<&str>) -> (r: bool)
    ensures
        r == (since is None && page is None),
{
    since.is_none() && page.is_none()
}

/// The token of the next `history` page: there is one only while the server has more
/// changes, and it continues from the new state with the same page size.
pub fn history_next_page(has_more_changes: bool, new_state: &str, max_changes: usize) -> (r: Option<String>)
    ensures
        has_more_changes <==> r is Some,
        r matches Some(t) ==> t@ == base64url_encoded(
            encode_utf8(history_token_json(new_state@, max_changes as nat)),
        ),
        r matches Some(t) ==> decodes_to(t@, encode_utf8(history_token_json(new_state@, max_changes as nat))),
{
    if has_more_changes {
        Some(encode_history_token(new_state, max_changes))
    } else {
        None
    }
}

/// History paging over two calls: the only page that the next-page token of a first
/// call can be read as is the state and page size that call ended on, and a second
/// call given only that token continues from there.
pub proof fn lemma_history_paging(
    new_state: Seq<char>,
    max_changes: usize,
    token: Seq<char>,
    read_state: Seq<char>,
    read_max: usize,
)
    requires
        token == base64url_encoded(encode_utf8(history_token_json(new_state, max_changes as nat))),
        decodes_to(token, encode_utf8(history_token_json(new_state, max_changes as nat))),
        decodes_to(token, encode_utf8(history_token_json(read_state, read_max as nat))),
    ensures
        read_state == new_state,
        read_max == max_changes,
        changes_start_spec(None, None, Some((read_state, read_max))) == Ok::<
            (Seq<char>, usize),
            Seq<char>,
        >((new_state, max_changes)),
{
    lemma_history_token_names_one_page(
        token,
        new_state,
        max_changes as nat,
        read_state,
        read_max as nat,
    );
}

// ---------------------------------------------------------------- watch

/// Where `watch` starts: `--page`, else a non-blank checkpoint file (trimmed), else
/// `--since`, else the server's current state.
#[derive(Debug)]
pub enum WatchStart {
    Token(String),
    Since(String),
    CurrentState,
}

/// The token held by a checkpoint file's text: the text trimmed, unless that is empty.
pub open spec fn checkpoint_token_spec(text: Seq<char>) -> Option<Seq<char>> {
    if trim(text).len() == 0 {
        None
    } else {
        Some(trim(text))
    }
}

/// The token held by a checkpoint file's text, if any.
pub fn checkpoint_token(text: &str) -> (r: Option<String>)
    ensures
        opt_text(r) == checkpoint_token_spec(text@),
{
    let t = trim_chars(&chars_of(text));
    if t.len() == 0 {
        None
    } else {
        Some(string_of(&t))
    }
}

/// Decides where `watch` starts; `checkpoint` is the checkpoint file's text when it
/// could be read.
pub fn watch_start(page: Option<&str>, checkpoint: Option<&str>, since: Option<&str>) -> (r: WatchStart)
    ensures
        match page {
            Some(p) => r matches WatchStart::Token(t) && t@ == p@,
            None => match (
                match checkpoint {
                    Some(c) => checkpoint_token_spec(c@),
                    None => None,
                }
            ) {
                Some(t) => r matches WatchStart::Token(x) && x@ == t,
                None => match since {
                    Some(s) => r matches WatchStart::Since(x) && x@ == s@,
                    None => r is CurrentState,
                },
            },
        },
{
    if let Some(p) = page {
        return WatchStart::Token(owned(p));
    }
    if let Some(c) = checkpoint {
        if let Some(t) = checkpoint_token(c) {
            return WatchStart::Token(t);
        }
    }
    match since {
        Some(s) => WatchStart::Since(owned(s)),
        None => WatchStart::CurrentState,
    }
}

/// One batch of changes from the server.
#[derive(Debug)]
pub struct ChangeBatch {
    pub new_state: String,
    pub has_more_changes: bool,
    pub created: usize,
    pub updated: usize,
    pub destroyed: usize,
}

/// What the watch loop does after a batch.
#[derive(Clone, Copy, PartialEq, Eq, Structural, Debug)]
pub enum WatchControl {
    /// Fetch the next batch at once (more changes are pending).
    Continue,
    /// Sleep before polling again.
    Sleep,
    /// Stop (`--once` and nothing pending).
    Stop,
}

/// What the watch loop does with one batch.
#[derive(Debug)]
pub struct WatchStep {
    /// Whether to emit the `tick` and change events (only when something changed).
    pub emit_changes: bool,
    /// The state to continue from: the batch's new state.
    pub since_state: String,
    /// The token to store in the checkpoint file: it continues from the new state.
    pub checkpoint: String,
    pub control: WatchControl,
}

/// Decides what the watch loop does with a batch fetched with page size `max_changes`.
pub fn watch_step(batch: &ChangeBatch, max_changes: usize, once: bool) -> (r: WatchStep)
    ensures
        r.emit_changes == (batch.created > 0 || batch.updated > 0 || batch.destroyed > 0),
        r.since_state@ == batch.new_state@,
        r.checkpoint@ == base64url_encoded(
            encode_utf8(history_token_json(batch.new_state@, max_changes as nat)),
        ),
        decodes_to(r.checkpoint@, encode_utf8(history_token_json(batch.new_state@, max_changes as nat))),
        r.control == if once && !batch.has_more_changes {
            WatchControl::Stop
        } else if batch.has_more_changes {
            WatchControl::Continue
        } else {
            WatchControl::Sleep
        },
{
    let control = if once && !batch.has_more_changes {
        WatchControl::Stop
    } else if batch.has_more_changes {
        WatchControl::Continue
    } else {
        WatchControl::Sleep
    };
    WatchStep {
        emit_changes: batch.created > 0 || batch.updated > 0 || batch.destroyed > 0,
        since_state: owned(batch.new_state.as_str()),
        checkpoint: encode_history_token(batch.new_state.as_str(), max_changes),
        control,
    }
}

/// How long the watch loop sleeps: the interval plus a jitter below `jitter_ms + 1`
/// taken from the clock's nanoseconds (none when the jitter is zero), saturating.
pub open spec fn poll_wait_spec(interval_ms: u64, jitter_ms: u64, nanos: u64) -> int {
    let jitter: int = if jitter_ms == 0 {
        0
    } else {
        (nanos as int) % (jitter_ms as int + 1)
    };
    if interval_ms + jitter > u64::MAX {
        u64::MAX as int
    } else {
        interval_ms + jitter
    }
}

/// The wait before the next poll.
pub fn poll_wait(interval_ms: u64, jitter_ms: u64, nanos: u64) -> (r: u64)
    requires
        jitter_ms < u64::MAX,
    ensures
        r == poll_wait_spec(interval_ms, jitter_ms, nanos),
        interval_ms <= r,
{
    let jitter = if jitter_ms == 0 {
        0
    } else {
        nanos % (jitter_ms + 1)
    };
    interval_ms.saturating_add(jitter)
}

// ---------------------------------------------------------------- search tokens

/// The JSON of a search page token; `filter` is the filter's compact JSON.
pub open spec fn search_token_json(
    position: int,
    limit: nat,
    collapse_threads: bool,
    is_ascending: bool,
    filter: Seq<char>,
) -> Seq<char> {
    "{\"position\":"@ + signed_decimal(position) + ",\"limit\":"@ + decimal(limit)
        + ",\"collapseThreads\":"@ + (if collapse_threads {
        "true"@
    } else {
        "false"@
    }) + ",\"isAscending\":"@ + (if is_ascending {
        "true"@
    } else {
        "false"@
    }) + ",\"filter\":"@ + filter + "}"@
}

/// The page token that continues a search.
pub fn encode_search_token(
    position: i32,
    limit: usize,
    collapse_threads: bool,
    is_ascending: bool,
    filter_json: &str,
) -> (r: String)
    ensures
        decodes_to(
            r@,
            encode_utf8(
                search_token_json(
                    position as int,
                    limit as nat,
                    collapse_threads,
                    is_ascending,
                    filter_json@,
                ),
            ),
        ),
{
    let mut v: Vec<char> = Vec::new();
    push_text(&mut v, "{\"position\":");
    push_text(&mut v, i64_text(position as i64).as_str());
    push_text(&mut v, ",\"limit\":");
    push_text(&mut v, u64_text(limit as u64).as_str());
    push_text(&mut v, ",\"collapseThreads\":");
    push_text(
        &mut v,
        if collapse_threads {
            "true"
        } else {
            "false"
        },
    );
    push_text(&mut v, ",\"isAscending\":");
    push_text(
        &mut v,
        if is_ascending {
            "true"
        } else {
            "false"
        },
    );
    push_text(&mut v, ",\"filter\":");
    push_text(&mut v, filter_json);
    push_text(&mut v, "}");
    let s = string_of(&v);
    assert(s@ =~= search_token_json(
        position as int,
        limit as nat,
        collapse_threads,
        is_ascending,
        filter_json@,
    ));
    b64url_encode(s.as_str().as_bytes())
}

/// A decoded search page token; `filter` is the filter's compact JSON.
#[derive(Debug)]
pub struct SearchToken {
    pub position: i32,
    pub limit: usize,
    pub collapse_threads: bool,
    pub is_ascending: bool,
    pub filter: String,
}

/// The page size and thread collapsing of a search: 20 and collapsed by default.
pub fn search_shape(max: Option<usize>, collapse_threads: Option<bool>) -> (r: (usize, bool))
    ensures
        r.0 == match max {
            Some(m) => m,
            None => 20usize,
        },
        r.1 == match collapse_threads {
            Some(c) => c,
            None => true,
        },
{
    (
        match max {
            Some(m) => m,
            None => 20,
        },
        match collapse_threads {
            Some(c) => c,
            None => true,
        },
    )
}

/// Where a search page starts: a token must have been made for the same page size,
/// thread collapsing, order and filter (compared as compact JSON); it gives the
/// position and the filter. Without a token, the first page of the given filter.
pub fn search_start(
    token: Option<&SearchToken>,
    limit: usize,
    collapse_threads: bool,
    is_ascending: bool,
    filter_json: &str,
) -> (r: Result<(i32, String), XinErrorOut>)
    ensures
        match token {
            Some(t) => if t.limit == limit && t.collapse_threads == collapse_threads
                && t.is_ascending == is_ascending && t.filter@ == filter_json@ {
                r matches Ok((p, f)) && p == t.position && f@ == t.filter@
            } else {
                r matches Err(e) && e.is_usage("page token does not match args"@)
            },
            None => r matches Ok((p, f)) && p == 0 && f@ == filter_json@,
        },
{
    match token {
        Some(t) => {
            if t.limit != limit || t.collapse_threads != collapse_threads || t.is_ascending
                != is_ascending || !eq_chars(&chars_of(t.filter.as_str()), &chars_of(filter_json)) {
                return Err(XinErrorOut::usage(owned("page token does not match args")));
            }
            Ok((t.position, owned(t.filter.as_str())))
        },
        None => Ok((0, owned(filter_json))),
    }
}

/// Where the next search page starts, when there is one: after this page's items.
/// With a known total, there is more while that position is below the total (compared
/// as `i32`); without one, a full page suggests more.
pub open spec fn next_position_spec(position: i32, items: usize, limit: usize, total: Option<usize>) -> Option<int> {
    let next = position + items;
    let has_more = match total {
        Some(t) => next < (t as i32),
        None => items == limit,
    };
    if has_more {
        Some(next)
    } else {
        None
    }
}

/// The position of the next page, if there is one.
pub fn next_search_position(position: i32, items: usize, limit: usize, total: Option<usize>) -> (r: Option<i32>)
    requires
        items <= i32::MAX,
        position + items <= i32::MAX,
    ensures
        match next_position_spec(position, items, limit, total) {
            Some(n) => r matches Some(x) && x == n,
            None => r is None,
        },
{
    let n = items as i32;
    assert(n == items);
    let next = position + n;
    let has_more = match total {
        Some(t) => next < (t as i32),
        None => items == limit,
    };
    if has_more {
        Some(next)
    } else {
        None
    }
}

/// The next search page starts right after this one: its position is the current
/// position plus the number of items shown, so a non-empty page always moves forward.
/// Without a known total, a next page exists exactly when this page was full.
pub proof fn lemma_next_search_position_advances(
    position: i32,
    items: usize,
    limit: usize,
    total: Option<usize>,
)
    ensures
        next_position_spec(position, items, limit, total) matches Some(n) ==> n == position + items,
        next_position_spec(position, items, limit, total) matches Some(n) ==> (items > 0 ==> n
            > position),
        total is None ==> (next_position_spec(position, items, limit, total) is Some <==> items
            == limit),
{
}

/// With a known total, the next search page exists exactly while the position after
/// this page is below the total.
pub proof fn lemma_next_search_position_total(position: i32, items: usize, limit: usize, t: usize)
    requires
        t <= i32::MAX,
    ensures
        next_position_spec(position, items, limit, Some(t)) is Some <==> position + items < t,
{
}

} // verus!
