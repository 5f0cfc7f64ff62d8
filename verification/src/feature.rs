//! The feature-test runner (`xin-feature`): `${var}` substitution in case files, the
//! defaults of a case's fields, the checks of a step's assertions and saved variables,
//! and colouring of its report.
use vstd::prelude::*;

use crate::app_config::EnvVars;
use crate::error::owned;
use crate::mailbox::opt_text;
use crate::pieces::{append_chars, clone_strings, decimal, string_views};
use crate::paging::json_string;
use crate::text::{chars_of, contains_chars, contains_text, eq_chars, find_char, find_text, slice_chars, string_of};

verus! {

/// What `format!("{:?}", s)` writes for the text: it quoted and escaped as Rust does.
pub uninterp spec fn debug_text(s: Seq<char>) -> Seq<char>;

/// Calls `<str as Debug>::fmt` through `format!`.
#[verifier::external_body]
fn debug_str(s: &str) -> (r: String)
    ensures
        r@ == debug_text(s@),
{
    format!("{:?}", s)
}

/// The values a case's text may refer to: `${runId}`, `${caseId}`, and saved variables.
#[derive(Debug)]
pub struct SubstContext {
    pub case_id: String,
    pub run_id: String,
    pub vars: Vec<(String, String)>,
}

/// The value of the first variable named `key`.
pub open spec fn var_lookup(vars: Seq<(String, String)>, key: Seq<char>) -> Option<Seq<char>>
    decreases vars.len(),
{
    if vars.len() == 0 {
        None
    } else if vars[0].0@ == key {
        Some(vars[0].1@)
    } else {
        var_lookup(vars.drop_first(), key)
    }
}

/// The value a `${key}` reference stands for.
pub open spec fn var_value(ctx: SubstContext, key: Seq<char>) -> Option<Seq<char>> {
    if key == "runId"@ {
        Some(ctx.run_id@)
    } else if key == "caseId"@ {
        Some(ctx.case_id@)
    } else {
        var_lookup(ctx.vars@, key)
    }
}

/// The position of the first `${` in `s`, if any.
pub open spec fn first_open(s: Seq<char>) -> Option<int>
    decreases s.len(),
{
    if s.len() < 2 {
        None
    } else if s[0] == '$' && s[1] == '{' {
        Some(0)
    } else {
        match first_open(s.drop_first()) {
            Some(i) => Some(i + 1),
            None => None,
        }
    }
}

/// The position of the first `}` in `s`, if any.
pub open spec fn first_close(s: Seq<char>) -> Option<int>
    decreases s.len(),
{
    if s.len() == 0 {
        None
    } else if s[0] == '}' {
        Some(0)
    } else {
        match first_close(s.drop_first()) {
            Some(i) => Some(i + 1),
            None => None,
        }
    }
}

/// `rest` with each `${key}` replaced by its value, left to right; an unterminated
/// reference or an unknown key is an error naming the whole `input`.
pub open spec fn substitute_spec(rest: Seq<char>, ctx: SubstContext, input: Seq<char>) -> Result<Seq<char>, Seq<char>>
    decreases rest.len(),
{
    match first_open(rest) {
        None => Ok(rest),
        Some(start) => {
            let after = rest.skip(start + 2);
            match first_close(after) {
                None => Err("unterminated var in "@ + debug_text(input)),
                Some(end) => {
                    let key = after.take(end);
                    match var_value(ctx, key) {
                        None => Err(
                            "unknown var "@ + debug_text(key) + " in "@ + debug_text(input),
                        ),
                        Some(v) => {
                            proof {
                                lemma_first_open_bound(rest);
                                lemma_first_close_bound(after);
                            }
                            match substitute_spec(after.skip(end + 1), ctx, input) {
                                Ok(tail) => Ok(rest.take(start) + v + tail),
                                Err(e) => Err(e),
                            }
                        },
                    }
                },
            }
        },
    }
}

/// `first_open` finds a `${` inside the text.
pub proof fn lemma_first_open_bound(s: Seq<char>)
    ensures
        first_open(s) matches Some(i) ==> 0 <= i && i + 2 <= s.len() && s[i] == '$' && s[i + 1]
            == '{',
    decreases s.len(),
{
    if s.len() >= 2 && !(s[0] == '$' && s[1] == '{') {
        lemma_first_open_bound(s.drop_first());
    }
}

/// `first_close` finds a `}` inside the text, the first one.
pub proof fn lemma_first_close_bound(s: Seq<char>)
    ensures
        first_close(s) matches Some(i) ==> 0 <= i < s.len() && s[i] == '}' && forall|j: int|
            0 <= j < i ==> s[j] != '}',
        first_close(s) is None ==> forall|j: int| 0 <= j < s.len() ==> s[j] != '}',
    decreases s.len(),
{
    if s.len() > 0 && s[0] != '}' {
        lemma_first_close_bound(s.drop_first());
        assert forall|j: int| 1 <= j < s.len() implies s.drop_first()[j - 1] == s[j] by {}
    }
}

fn lookup_var(ctx: &SubstContext, key: &[char]) -> (r: Option<String>)
    ensures
        opt_text(r) == var_value(*ctx, key@),
{
    if eq_chars(key, &chars_of("runId")) {
        return Some(owned(ctx.run_id.as_str()));
    }
    if eq_chars(key, &chars_of("caseId")) {
        return Some(owned(ctx.case_id.as_str()));
    }
    let mut i: usize = 0;
    assert(ctx.vars@.skip(0) =~= ctx.vars@);
    while i < ctx.vars.len()
        invariant
            i <= ctx.vars.len(),
            key@ != "runId"@,
            key@ != "caseId"@,
            var_lookup(ctx.vars@, key@) == var_lookup(ctx.vars@.skip(i as int), key@),
        decreases ctx.vars.len() - i,
    {
        assert(ctx.vars@.skip(i as int)[0] == ctx.vars@[i as int]);
        if eq_chars(&chars_of(ctx.vars[i].0.as_str()), key) {
            return Some(owned(ctx.vars[i].1.as_str()));
        }
        assert(ctx.vars@.skip(i as int).drop_first() =~= ctx.vars@.skip(i as int + 1));
        i += 1;
    }
    None
}

/// Finds the first `${` at or after `from`.
fn find_open(v: &[char], from: usize) -> (r: Option<usize>)
    requires
        from <= v.len(),
    ensures
        match r {
            Some(k) => from <= k && first_open(v@.skip(from as int)) == Some(k - from),
            None => first_open(v@.skip(from as int)) is None,
        },
    decreases v.len() - from,
{
    if v.len() - from < 2 {
        return None;
    }
    assert(v@.skip(from as int)[0] == v@[from as int]);
    assert(v@.skip(from as int)[1] == v@[from + 1]);
    if v[from] == '$' && v[from + 1] == '{' {
        return Some(from);
    }
    assert(v@.skip(from as int).drop_first() =~= v@.skip(from + 1));
    find_open(v, from + 1)
}

/// Finds the first `}` at or after `from`.
fn find_close(v: &[char], from: usize) -> (r: Option<usize>)
    requires
        from <= v.len(),
    ensures
        match r {
            Some(k) => from <= k && first_close(v@.skip(from as int)) == Some(k - from),
            None => first_close(v@.skip(from as int)) is None,
        },
    decreases v.len() - from,
{
    if from == v.len() {
        return None;
    }
    assert(v@.skip(from as int)[0] == v@[from as int]);
    if v[from] == '}' {
        return Some(from);
    }
    assert(v@.skip(from as int).drop_first() =~= v@.skip(from + 1));
    find_close(v, from + 1)
}

/// Replaces each `${key}` in `input` by its value.
pub fn substitute(input: &str, ctx: &SubstContext) -> (r: Result<String, String>)
    ensures
        match substitute_spec(input@, *ctx, input@) {
            Ok(s) => r matches Ok(x) && x@ == s,
            Err(m) => r matches Err(x) && x@ == m,
        },
{
    let v = chars_of(input);
    let mut out: Vec<char> = Vec::new();
    let mut i: usize = 0;
    assert(v@.skip(0) =~= v@);
    loop
        invariant
            i <= v.len(),
            v@ == input@,
            match substitute_spec(v@.skip(i as int), *ctx, input@) {
                Ok(t) => substitute_spec(input@, *ctx, input@) == Ok::<Seq<char>, Seq<char>>(
                    out@ + t,
                ),
                Err(m) => substitute_spec(input@, *ctx, input@) == Err::<Seq<char>, Seq<char>>(
                    m,
                ),
            },
        decreases v.len() - i,
    {
        let ghost rest = v@.skip(i as int);
        match find_open(&v, i) {
            None => {
                append_chars(&mut out, &slice_chars(&v, i, v.len()));
                assert(v@.subrange(i as int, v.len() as int) =~= rest);
                return Ok(string_of(&out));
            },
            Some(start) => {
                proof {
                    lemma_first_open_bound(rest);
                }
                let ghost after = rest.skip(start - i + 2);
                assert(after =~= v@.skip(start + 2));
                match find_close(&v, start + 2) {
                    None => {
                        let mut m = chars_of("unterminated var in ");
                        append_chars(&mut m, &chars_of(debug_str(input).as_str()));
                        return Err(string_of(&m));
                    },
                    Some(end) => {
                        proof {
                            lemma_first_close_bound(after);
                        }
                        let key = slice_chars(&v, start + 2, end);
                        assert(key@ =~= after.take(end - start - 2));
                        match lookup_var(ctx, &key) {
                            None => {
                                let mut m = chars_of("unknown var ");
                                append_chars(
                                    &mut m,
                                    &chars_of(debug_str(string_of(&key).as_str()).as_str()),
                                );
                                append_chars(&mut m, &chars_of(" in "));
                                append_chars(&mut m, &chars_of(debug_str(input).as_str()));
                                return Err(string_of(&m));
                            },
                            Some(val) => {
                                let ghost pre = out@;
                                append_chars(&mut out, &slice_chars(&v, i, start));
                                append_chars(&mut out, &chars_of(val.as_str()));
                                assert(v@.subrange(i as int, start as int) =~= rest.take(
                                    start - i,
                                ));
                                assert(after.skip(end - start - 2 + 1) =~= v@.skip(end + 1));
                                assert(substitute_spec(rest, *ctx, input@) == match substitute_spec(
                                    v@.skip(end + 1),
                                    *ctx,
                                    input@,
                                ) {
                                    Ok(tail) => Ok(rest.take(start - i) + val@ + tail),
                                    Err(e) => Err(e),
                                });
                                proof {
                                    match substitute_spec(v@.skip(end + 1), *ctx, input@) {
                                        Ok(tail) => {
                                            assert(pre + (rest.take(start - i) + val@ + tail)
                                                =~= out@ + tail);
                                        },
                                        Err(_) => {},
                                    }
                                }
                                i = end + 1;
                            },
                        }
                    },
                }
            },
        }
    }
}

/// Whether the report is coloured: never with `NO_COLOR`; always with
/// `XIN_FEATURE_FORCE_COLOR`, `CLICOLOR_FORCE` or `FORCE_COLOR`; otherwise when stderr
/// is a terminal.
pub open spec fn use_color_spec(env: EnvVars, stderr_is_terminal: bool) -> bool {
    if env.lookup("NO_COLOR"@) is Some {
        false
    } else if env.lookup("XIN_FEATURE_FORCE_COLOR"@) is Some || env.lookup("CLICOLOR_FORCE"@) is Some
        || env.lookup("FORCE_COLOR"@) is Some {
        true
    } else {
        stderr_is_terminal
    }
}

/// Decides whether the report is coloured.
pub fn use_color(env: &EnvVars, stderr_is_terminal: bool) -> (r: bool)
    ensures
        r == use_color_spec(*env, stderr_is_terminal),
{
    if env.get("NO_COLOR").is_some() {
        return false;
    }
    if env.get("XIN_FEATURE_FORCE_COLOR").is_some() || env.get("CLICOLOR_FORCE").is_some()
        || env.get("FORCE_COLOR").is_some() {
        return true;
    }
    stderr_is_terminal
}

/// `s` in the ANSI colour `code` when colouring, else `s` itself.
pub fn colorize(s: &str, code: &str, color: bool) -> (r: String)
    ensures
        r@ == if color {
            seq!['\x1b', '['] + code@ + seq!['m'] + s@ + seq!['\x1b', '[', '0', 'm']
        } else {
            s@
        },
{
    if !color {
        return owned(s);
    }
    let mut v: Vec<char> = Vec::new();
    v.push('\x1b');
    v.push('[');
    append_chars(&mut v, &chars_of(code));
    v.push('m');
    append_chars(&mut v, &chars_of(s));
    v.push('\x1b');
    v.push('[');
    v.push('0');
    v.push('m');
    string_of(&v)
}

/// A step expects `ok: true` unless the case says otherwise.
pub fn default_expect_ok() -> (r: bool)
    ensures
        r,
{
    true
}

/// A retried step is tried up to 20 times unless the case says otherwise.
pub fn default_retry_attempts() -> (r: usize)
    ensures
        r == 20,
{
    20
}

/// How often and how far apart a step is tried: once without a retry block; with one,
/// its attempts and its pause (500 ms by default).
pub fn retry_schedule(retry: Option<(usize, Option<u64>)>) -> (r: (usize, u64))
    ensures
        r.0 == match retry {
            Some((a, _)) => a,
            None => 1usize,
        },
        r.1 == match retry {
            Some((_, Some(ms))) => ms,
            _ => 500u64,
        },
{
    match retry {
        Some((a, Some(ms))) => (a, ms),
        Some((a, None)) => (a, 500),
        None => (1, 500),
    }
}

/// The address of a seeded user: the given one, else `user@domain`.
pub fn seed_user_email(user: &str, domain: &str, email: &Option<String>) -> (r: String)
    ensures
        r@ == match email {
            Some(e) => e@,
            None => user@ + seq!['@'] + domain@,
        },
{
    match email {
        Some(e) => owned(e.as_str()),
        None => {
            let mut v = chars_of(user);
            v.push('@');
            append_chars(&mut v, &chars_of(domain));
            string_of(&v)
        },
    }
}

/// The roles of a seeded user: the given ones, else just `user`.
pub fn seed_user_roles(roles: &Option<Vec<String>>) -> (r: Vec<String>)
    ensures
        string_views(r@) == match roles {
            Some(v) => string_views(v@),
            None => seq!["user"@],
        },
{
    match roles {
        Some(v) => clone_strings(v),
        None => {
            let mut v: Vec<String> = Vec::new();
            v.push(owned("user"));
            assert(string_views(v@) =~= seq!["user"@]);
            v
        },
    }
}

/// Whether a file of the case directory is a case: its extension is `yaml` or `yml`.
pub fn is_case_file_extension(ext: Option<&str>) -> (r: bool)
    ensures
        r == match ext {
            Some(e) => e@ == "yaml"@ || e@ == "yml"@,
            None => false,
        },
{
    match ext {
        Some(e) => eq_chars(&chars_of(e), &chars_of("yaml")) || eq_chars(&chars_of(e), &chars_of("yml")),
        None => false,
    }
}

/// The path of a case or case directory given on the command line: itself when
/// absolute, else under the project root.
pub fn case_path(root: &str, given: &str) -> (r: String)
    ensures
        r@ == crate::paths::join_path_spec(root@, given@),
{
    crate::paths::join_path(root, given)
}

// ---------------------------------------------------------------- step assertions

/// What a JSON pointer finds in the output of a step.
#[derive(Debug)]
pub enum Found {
    /// The pointer names no value.
    Missing,
    Null,
    Text(String),
    /// Any other value (a boolean, number, array or object), by its compact JSON text.
    Other(String),
}

/// The compact JSON text of a found value (a missing one has none).
pub open spec fn found_json(f: Found) -> Seq<char> {
    match f {
        Found::Missing => Seq::empty(),
        Found::Null => "null"@,
        Found::Text(s) => json_string(s@),
        Found::Other(j) => j@,
    }
}

/// The literal an `equals` assertion expects: a string, in which `${var}` references
/// are replaced first, or another value by its compact JSON text. Values are compared
/// by their compact JSON text.
#[derive(Debug)]
pub enum Expected {
    Text(String),
    Other(String),
}

/// The outcome of comparing an expected JSON text with the found value.
pub open spec fn compare_json(expected: Seq<char>, found: Found) -> Result<(), Seq<char>> {
    if expected == found_json(found) {
        Ok(())
    } else {
        Err("expected "@ + expected + ", got "@ + found_json(found))
    }
}

/// The outcome of the `equals` part of an assertion.
pub open spec fn equals_spec(found: Found, equals: Option<Expected>, ctx: SubstContext) -> Result<(), Seq<char>> {
    match equals {
        None => Ok(()),
        Some(Expected::Text(t)) => match substitute_spec(t@, ctx, t@) {
            Ok(v) => compare_json(json_string(v), found),
            Err(e) => Err(e),
        },
        Some(Expected::Other(j)) => compare_json(j@, found),
    }
}

/// The outcome of the `contains` part of an assertion: the found value must be a string
/// holding the substituted text.
pub open spec fn contains_spec(found: Found, contains: Option<Seq<char>>, ctx: SubstContext) -> Result<(), Seq<char>> {
    match contains {
        None => Ok(()),
        Some(c) => match substitute_spec(c, ctx, c) {
            Err(e) => Err(e),
            Ok(sub) => match found {
                Found::Text(s) => if contains_text(s@, sub) {
                    Ok(())
                } else {
                    Err("expected to contain "@ + debug_text(sub) + ", got "@ + debug_text(s@))
                },
                _ => Err("contains expects string, got "@ + found_json(found)),
            },
        },
    }
}

/// The outcome of one assertion on the value found at `path` (the pointer after
/// substitution): the value must exist, be non-null when `exists` is set, equal the
/// `equals` literal and contain the `contains` text, checked in that order.
pub open spec fn assertion_spec(
    path: Seq<char>,
    found: Found,
    exists: Option<bool>,
    equals: Option<Expected>,
    contains: Option<Seq<char>>,
    ctx: SubstContext,
) -> Result<(), Seq<char>> {
    if found is Missing {
        Err("missing pointer "@ + path)
    } else if exists == Some(true) && found is Null {
        Err("value is null"@)
    } else {
        match equals_spec(found, equals, ctx) {
            Err(e) => Err(e),
            Ok(_) => contains_spec(found, contains, ctx),
        }
    }
}

/// The compact JSON text of a found value.
fn found_text(found: &Found) -> (r: Vec<char>)
    ensures
        r@ == found_json(*found),
{
    match found {
        Found::Missing => Vec::new(),
        Found::Null => chars_of("null"),
        Found::Text(s) => {
            let mut v: Vec<char> = Vec::new();
            crate::paging::push_json_string(&mut v, s.as_str());
            v
        },
        Found::Other(j) => chars_of(j.as_str()),
    }
}

/// Checks one assertion of a step against the value found at `path`.
pub fn check_assertion(
    path: &str,
    found: &Found,
    exists: Option<bool>,
    equals: &Option<Expected>,
    contains: Option<&str>,
    ctx: &SubstContext,
) -> (r: Result<(), String>)
    ensures
        match assertion_spec(
            path@,
            *found,
            exists,
            *equals,
            match contains {
                Some(c) => Some(c@),
                None => None,
            },
            *ctx,
        ) {
            Ok(_) => r is Ok,
            Err(m) => r matches Err(e) && e@ == m,
        },
{
    proof {
        reveal_strlit("null");
    }
    if let Found::Missing = found {
        let mut m = chars_of("missing pointer ");
        append_chars(&mut m, &chars_of(path));
        return Err(string_of(&m));
    }
    if let (Some(true), Found::Null) = (exists, found) {
        return Err(owned("value is null"));
    }
    let got = found_text(found);
    let expected: Option<Vec<char>> = match equals {
        None => None,
        Some(Expected::Text(t)) => match substitute(t.as_str(), ctx) {
            Ok(v) => {
                let mut x: Vec<char> = Vec::new();
                crate::paging::push_json_string(&mut x, v.as_str());
                Some(x)
            },
            Err(e) => return Err(e),
        },
        Some(Expected::Other(j)) => Some(chars_of(j.as_str())),
    };
    if let Some(x) = expected {
        if !eq_chars(&x, &got) {
            let mut m = chars_of("expected ");
            append_chars(&mut m, &x);
            append_chars(&mut m, &chars_of(", got "));
            append_chars(&mut m, &got);
            return Err(string_of(&m));
        }
    }
    match contains {
        None => Ok(()),
        Some(c) => {
            let sub = match substitute(c, ctx) {
                Ok(v) => v,
                Err(e) => return Err(e),
            };
            match found {
                Found::Text(s) => {
                    if contains_chars(&chars_of(s.as_str()), &chars_of(sub.as_str())) {
                        Ok(())
                    } else {
                        let mut m = chars_of("expected to contain ");
                        append_chars(&mut m, &chars_of(debug_str(sub.as_str()).as_str()));
                        append_chars(&mut m, &chars_of(", got "));
                        append_chars(&mut m, &chars_of(debug_str(s.as_str()).as_str()));
                        Err(string_of(&m))
                    }
                },
                _ => {
                    let mut m = chars_of("contains expects string, got ");
                    append_chars(&mut m, &got);
                    Err(string_of(&m))
                },
            }
        },
    }
}

/// How a failed assertion is introduced: `assert <path>`, and ` (<label>)` when the
/// assertion has a non-empty label.
pub open spec fn assertion_prefix_spec(path: Seq<char>, label: Option<Seq<char>>) -> Seq<char> {
    match label {
        Some(l) => if l.len() > 0 {
            "assert "@ + path + " ("@ + l + ")"@
        } else {
            "assert "@ + path
        },
        None => "assert "@ + path,
    }
}

/// The introduction of a failed assertion.
pub fn assertion_prefix(path: &str, label: Option<&str>) -> (r: String)
    ensures
        r@ == assertion_prefix_spec(
            path@,
            match label {
                Some(l) => Some(l@),
                None => None,
            },
        ),
{
    let mut m = chars_of("assert ");
    append_chars(&mut m, &chars_of(path));
    if let Some(l) = label {
        let lv = chars_of(l);
        if lv.len() > 0 {
            append_chars(&mut m, &chars_of(" ("));
            append_chars(&mut m, &lv);
            append_chars(&mut m, &chars_of(")"));
        }
    }
    string_of(&m)
}

/// The value a step saves into variable `var` from pointer `ptr`: it must be a string.
pub open spec fn saved_value_spec(var: Seq<char>, ptr: Seq<char>, found: Found, stdout: Seq<char>) -> Result<Seq<char>, Seq<char>> {
    match found {
        Found::Text(s) => Ok(s@),
        Found::Missing => Err("save var "@ + var + ": missing pointer "@ + ptr + "\nstdout:\n"@ + stdout),
        _ => Err(
            "save var "@ + var + ": expected string at "@ + ptr + ", got "@ + found_json(found)
                + "\nstdout:\n"@ + stdout,
        ),
    }
}

/// Reads the value a step saves into a variable.
pub fn saved_value(var: &str, ptr: &str, found: &Found, stdout: &str) -> (r: Result<String, String>)
    ensures
        match saved_value_spec(var@, ptr@, *found, stdout@) {
            Ok(v) => r matches Ok(x) && x@ == v,
            Err(m) => r matches Err(x) && x@ == m,
        },
{
    if let Found::Text(s) = found {
        return Ok(owned(s.as_str()));
    }
    let mut m = chars_of("save var ");
    append_chars(&mut m, &chars_of(var));
    if let Found::Missing = found {
        append_chars(&mut m, &chars_of(": missing pointer "));
        append_chars(&mut m, &chars_of(ptr));
    } else {
        append_chars(&mut m, &chars_of(": expected string at "));
        append_chars(&mut m, &chars_of(ptr));
        append_chars(&mut m, &chars_of(", got "));
        append_chars(&mut m, &found_text(found));
    }
    append_chars(&mut m, &chars_of("\nstdout:\n"));
    append_chars(&mut m, &chars_of(stdout));
    Err(string_of(&m))
}

/// A step's output must report `ok: true` when the step expects it (a missing or
/// non-boolean `ok` counts as `false`).
pub fn check_step_ok(expect_ok: bool, ok: Option<bool>, stdout: &str, stderr: &str) -> (r: Result<(), String>)
    ensures
        r is Ok <==> (!expect_ok || ok == Some(true)),
        r matches Err(m) ==> m@ == "expected ok=true but got ok=false\nstdout:\n"@ + stdout@
            + "\nstderr:\n"@ + stderr@,
{
    if !expect_ok || ok == Some(true) {
        return Ok(());
    }
    let mut m = chars_of("expected ok=true but got ok=false\nstdout:\n");
    append_chars(&mut m, &chars_of(stdout));
    append_chars(&mut m, &chars_of("\nstderr:\n"));
    append_chars(&mut m, &chars_of(stderr));
    Err(string_of(&m))
}

/// The name a step is reported by: its own, else `step-<n>` for the `n`-th step
/// (counting from one).
pub fn step_name(name: Option<&str>, index: u64) -> (r: String)
    requires
        index < u64::MAX,
    ensures
        r@ == match name {
            Some(n) => n@,
            None => "step-"@ + decimal((index + 1) as nat),
        },
{
    match name {
        Some(n) => owned(n),
        None => {
            let mut m = chars_of("step-");
            append_chars(&mut m, &chars_of(crate::pieces::u64_text(index + 1).as_str()));
            string_of(&m)
        },
    }
}

} // verus!
