//! The runtime configuration of a command: which server and credentials to use, taken
//! field by field from the environment first and then from the selected account of the
//! configuration file. Reading a token or password file is the caller's part: the
//! resolution asks for a file by path and is run again with what was read.
use vstd::prelude::*;

use crate::app_config::{
    account_names, expand_user_path, expand_user_spec, AccountConfig, AppConfig, AuthConfigFile,
    EnvVars,
};
use crate::error::{owned, XinErrorOut};
use crate::links::{origin_spec, parse_origin_from_session_url};
use crate::mailbox::opt_text;
use crate::pieces::{
    append_chars, clone_strings, keep_nonempty, sep_pred, split_chars, split_when, strings_of,
    string_views, texts, trim_each,
};
use crate::seqs::nonempty_pred;
use crate::pieces::{trim_end_char, trim_end_chars_of};
use crate::text::{chars_of, eq_chars, string_of, trim, trim_chars, trim_str};

verus! {

/// The credentials to connect with.
#[derive(Debug)]
pub enum AuthConfig {
    Bearer(String),
    Basic { user: String, pass: String },
}

/// The meaning of an `AuthConfig`.
pub enum AuthView {
    Bearer(Seq<char>),
    Basic(Seq<char>, Seq<char>),
}

impl View for AuthConfig {
    type V = AuthView;

    open spec fn view(&self) -> AuthView {
        match self {
            AuthConfig::Bearer(t) => AuthView::Bearer(t@),
            AuthConfig::Basic { user, pass } => AuthView::Basic(user@, pass@),
        }
    }
}

/// Where to connect and how.
#[derive(Debug)]
pub struct RuntimeConfig {
    /// The origin the JMAP client connects to (it appends `/.well-known/jmap`).
    pub base_url: String,
    pub auth: AuthConfig,
    /// Hosts that the session URL may redirect to.
    pub follow_redirect_hosts: Vec<String>,
}

/// The runtime configuration and the account it came from, if any.
#[derive(Debug)]
pub struct ResolvedRuntimeConfig {
    pub config: RuntimeConfig,
    pub account: Option<String>,
}

/// A file the caller has read for the resolution: its path and its text, or the text
/// of the read error.
#[derive(Debug)]
pub struct FileRead {
    pub path: String,
    pub content: Result<String, String>,
}

/// A step of the resolution: its result, or the path of a file it needs to read first.
#[derive(Debug)]
pub enum Resolution<T> {
    Ready(Result<T, XinErrorOut>),
    NeedFile(String),
}

/// The meaning of a resolution step (all its errors are configuration errors).
pub enum Outcome<T> {
    Done(Result<T, Seq<char>>),
    Need(Seq<char>),
}

/// The text read from `path`, if the caller has read it (the first read of it counts).
pub open spec fn read_of(files: Seq<FileRead>, path: Seq<char>) -> Option<Result<Seq<char>, Seq<char>>>
    decreases files.len(),
{
    if files.len() == 0 {
        None
    } else if files[0].path@ == path {
        Some(
            match files[0].content {
                Ok(t) => Ok(t@),
                Err(e) => Err(e@),
            },
        )
    } else {
        read_of(files.drop_first(), path)
    }
}

/// What was read from `path`, if it was.
pub fn find_read(files: &Vec<FileRead>, path: &str) -> (r: Option<Result<String, String>>)
    ensures
        match read_of(files@, path@) {
            None => r is None,
            Some(Ok(t)) => r matches Some(Ok(x)) && x@ == t,
            Some(Err(e)) => r matches Some(Err(x)) && x@ == e,
        },
{
    let p = chars_of(path);
    let mut i: usize = 0;
    assert(files@.skip(0) =~= files@);
    while i < files.len()
        invariant
            i <= files.len(),
            p@ == path@,
            read_of(files@, path@) == read_of(files@.skip(i as int), path@),
        decreases files.len() - i,
    {
        assert(files@.skip(i as int)[0] == files@[i as int]);
        if eq_chars(&chars_of(files[i].path.as_str()), &p) {
            return match &files[i].content {
                Ok(t) => Some(Ok(owned(t.as_str()))),
                Err(e) => Some(Err(owned(e.as_str()))),
            };
        }
        assert(files@.skip(i as int).drop_first() =~= files@.skip(i as int + 1));
        i += 1;
    }
    None
}

/// The value read from a secret file, trimmed; `what` names the file in the error.
pub open spec fn secret_file_spec(files: Seq<FileRead>, path: Seq<char>, what: Seq<char>) -> Outcome<Seq<char>> {
    match read_of(files, path) {
        None => Outcome::Need(path),
        Some(Err(e)) => Outcome::Done(Err("failed to read "@ + what + " file: "@ + e)),
        Some(Ok(t)) => Outcome::Done(Ok(trim(t))),
    }
}

fn secret_file(files: &Vec<FileRead>, path: &str, what: &str) -> (r: Resolution<String>)
    ensures
        match secret_file_spec(files@, path@, what@) {
            Outcome::Need(p) => r matches Resolution::NeedFile(x) && x@ == p,
            Outcome::Done(Ok(t)) => r matches Resolution::Ready(Ok(x)) && x@ == t,
            Outcome::Done(Err(m)) => r matches Resolution::Ready(Err(e)) && e.is_config(m),
            },
{
    match find_read(files, path) {
        None => Resolution::NeedFile(owned(path)),
        Some(Err(e)) => {
            let mut m = chars_of("failed to read ");
            append_chars(&mut m, &chars_of(what));
            append_chars(&mut m, &chars_of(" file: "));
            append_chars(&mut m, &chars_of(e.as_str()));
            Resolution::Ready(Err(XinErrorOut::config(string_of(&m))))
        },
        Some(Ok(t)) => Resolution::Ready(Ok(trim_str(t.as_str()))),
    }
}

// ---------------------------------------------------------------- environment

/// The credentials given by the environment: `XIN_TOKEN` or `XIN_TOKEN_FILE` for a
/// bearer token, `XIN_BASIC_USER` with `XIN_BASIC_PASS` or `XIN_BASIC_PASS_FILE` for
/// basic auth. Setting variables of both kinds is an error; so is basic auth without a
/// user or a password. A token given directly is used as it is; values read from files,
/// and basic passwords, are trimmed.
pub open spec fn env_auth_spec(env: EnvVars, files: Seq<FileRead>) -> Outcome<Option<AuthView>> {
    let token = env.lookup("XIN_TOKEN"@);
    let token_file = env.lookup("XIN_TOKEN_FILE"@);
    let user = env.lookup("XIN_BASIC_USER"@);
    let pass = env.lookup("XIN_BASIC_PASS"@);
    let pass_file = env.lookup("XIN_BASIC_PASS_FILE"@);
    let any_bearer = token is Some || token_file is Some;
    let any_basic = user is Some || pass is Some || pass_file is Some;
    if any_bearer && any_basic {
        Outcome::Done(Err(both_auth_message()))
    } else if any_bearer {
        match token {
            Some(t) => Outcome::Done(Ok(Some(AuthView::Bearer(t)))),
            None => match secret_file_spec(files, token_file.unwrap(), "token"@) {
                Outcome::Need(p) => Outcome::Need(p),
                Outcome::Done(Err(m)) => Outcome::Done(Err(m)),
                Outcome::Done(Ok(t)) => Outcome::Done(Ok(Some(AuthView::Bearer(t)))),
            },
        }
    } else if any_basic {
        match user {
            None => Outcome::Done(Err("missing XIN_BASIC_USER environment variable"@)),
            Some(u) => match pass {
                Some(p) => Outcome::Done(Ok(Some(AuthView::Basic(u, trim(p))))),
                None => match pass_file {
                    None => Outcome::Done(
                        Err("missing XIN_BASIC_PASS (or XIN_BASIC_PASS_FILE) environment variable"@),
                    ),
                    Some(f) => match secret_file_spec(files, f, "basic pass"@) {
                        Outcome::Need(p) => Outcome::Need(p),
                        Outcome::Done(Err(m)) => Outcome::Done(Err(m)),
                        Outcome::Done(Ok(t)) => Outcome::Done(Ok(Some(AuthView::Basic(u, t)))),
                    },
                },
            },
        }
    } else {
        Outcome::Done(Ok(None))
    }
}

/// The error when both kinds of credentials are in the environment (it names the
/// variables, never their values).
pub open spec fn both_auth_message() -> Seq<char> {
    "both bearer (XIN_TOKEN/XIN_TOKEN_FILE) and basic (XIN_BASIC_USER/XIN_BASIC_PASS[_FILE]) credentials are set; choose one"@
}

/// The meaning of an optional credential.
pub open spec fn opt_auth_view(a: Option<AuthConfig>) -> Option<AuthView> {
    match a {
        Some(x) => Some(x@),
        None => None,
    }
}

/// The credentials given by the environment.
pub fn parse_auth_from_global_env(env: &EnvVars, files: &Vec<FileRead>) -> (r: Resolution<Option<AuthConfig>>)
    ensures
        match env_auth_spec(*env, files@) {
            Outcome::Need(p) => r matches Resolution::NeedFile(x) && x@ == p,
            Outcome::Done(Ok(a)) => r matches Resolution::Ready(Ok(x)) && opt_auth_view(x) == a,
            Outcome::Done(Err(m)) => r matches Resolution::Ready(Err(e)) && e.is_config(m),
        },
{
    let token = env.get("XIN_TOKEN");
    let token_file = env.get("XIN_TOKEN_FILE");
    let user = env.get("XIN_BASIC_USER");
    let pass = env.get("XIN_BASIC_PASS");
    let pass_file = env.get("XIN_BASIC_PASS_FILE");
    let any_bearer = token.is_some() || token_file.is_some();
    let any_basic = user.is_some() || pass.is_some() || pass_file.is_some();
    if any_bearer && any_basic {
        return Resolution::Ready(
            Err(
                XinErrorOut::config(
                    owned(
                        "both bearer (XIN_TOKEN/XIN_TOKEN_FILE) and basic (XIN_BASIC_USER/XIN_BASIC_PASS[_FILE]) credentials are set; choose one",
                    ),
                ),
            ),
        );
    }
    if any_bearer {
        return match token {
            Some(t) => Resolution::Ready(Ok(Some(AuthConfig::Bearer(t)))),
            None => {
                let f = token_file.unwrap();
                match secret_file(files, f.as_str(), "token") {
                    Resolution::NeedFile(p) => Resolution::NeedFile(p),
                    Resolution::Ready(Err(e)) => Resolution::Ready(Err(e)),
                    Resolution::Ready(Ok(t)) => Resolution::Ready(Ok(Some(AuthConfig::Bearer(t)))),
                }
            },
        };
    }
    if any_basic {
        let u = match user {
            None => return Resolution::Ready(
                Err(XinErrorOut::config(owned("missing XIN_BASIC_USER environment variable"))),
            ),
            Some(u) => u,
        };
        return match pass {
            Some(p) => Resolution::Ready(
                Ok(Some(AuthConfig::Basic { user: u, pass: trim_str(p.as_str()) })),
            ),
            None => match pass_file {
                None => Resolution::Ready(
                    Err(
                        XinErrorOut::config(
                            owned(
                                "missing XIN_BASIC_PASS (or XIN_BASIC_PASS_FILE) environment variable",
                            ),
                        ),
                    ),
                ),
                Some(f) => match secret_file(files, f.as_str(), "basic pass") {
                    Resolution::NeedFile(p) => Resolution::NeedFile(p),
                    Resolution::Ready(Err(e)) => Resolution::Ready(Err(e)),
                    Resolution::Ready(Ok(t)) => Resolution::Ready(
                        Ok(Some(AuthConfig::Basic { user: u, pass: t })),
                    ),
                },
            },
        };
    }
    Resolution::Ready(Ok(None))
}

/// The redirect hosts allowed by a comma-separated list: trimmed, empty ones dropped.
pub open spec fn redirect_hosts_spec(s: Seq<char>) -> Seq<Seq<char>> {
    split_when(s, sep_pred(false, ',')).map_values(|x: Seq<char>| trim(x)).filter(nonempty_pred())
}

/// Parses a comma-separated list of redirect hosts.
pub fn parse_follow_redirect_hosts(value: &str) -> (r: Vec<String>)
    ensures
        string_views(r@) == redirect_hosts_spec(value@),
{
    let parts = split_chars(&chars_of(value), false, ',');
    let trimmed = trim_each(parts);
    let kept = keep_nonempty(trimmed);
    strings_of(&kept)
}

// ---------------------------------------------------------------- accounts

/// The account a command uses: `--account`, else the configured default, else the only
/// account; otherwise there is nothing to go by.
pub open spec fn account_choice_spec(cfg: AppConfig, selected: Option<Seq<char>>) -> Result<Seq<char>, Seq<char>> {
    match selected {
        Some(a) => Ok(a),
        None => match opt_text(cfg.defaults.account) {
            Some(a) => Ok(a),
            None => if cfg.accounts@.len() == 1 {
                Ok(cfg.accounts@[0].0@)
            } else {
                Err(
                    "missing --account and no default account is set; run `xin config set-default <name>`"@,
                )
            },
        },
    }
}

/// The account name a command uses.
pub fn resolve_account_from_config(cfg: &AppConfig, selected: Option<&str>) -> (r: Result<String, XinErrorOut>)
    ensures
        match account_choice_spec(
            *cfg,
            match selected {
                Some(s) => Some(s@),
                None => None,
            },
        ) {
            Ok(a) => r matches Ok(s) && s@ == a,
            Err(m) => r matches Err(e) && e.is_config(m),
        },
{
    if let Some(a) = selected {
        return Ok(owned(a));
    }
    if let Some(a) = &cfg.defaults.account {
        return Ok(owned(a.as_str()));
    }
    if cfg.accounts.len() == 1 {
        return Ok(owned(cfg.accounts[0].0.as_str()));
    }
    Err(
        XinErrorOut::config(
            owned(
                "missing --account and no default account is set; run `xin config set-default <name>`",
            ),
        ),
    )
}

/// Whether an optional text has a non-blank value.
pub open spec fn non_blank(o: Option<String>) -> bool {
    o matches Some(s) && trim(s@).len() > 0
}

fn is_non_blank(o: &Option<String>) -> (r: bool)
    ensures
        r == non_blank(*o),
{
    match o {
        Some(s) => trim_chars(&chars_of(s.as_str())).len() > 0,
        None => false,
    }
}

/// The value of the environment variable named by an optional setting.
pub open spec fn env_named(env: EnvVars, name: Option<String>) -> Option<Seq<char>> {
    match name {
        Some(k) => env.lookup(k@),
        None => None,
    }
}

/// A secret from a configured file: the path has `~/` expanded, then the file is read.
pub open spec fn config_file_secret_spec(path: Seq<char>, env: EnvVars, files: Seq<FileRead>, what: Seq<char>) -> Outcome<Seq<char>> {
    match expand_user_spec(path, env) {
        Err(m) => Outcome::Done(Err(m)),
        Ok(p) => secret_file_spec(files, p, what),
    }
}

/// The credentials of an account: for a bearer account the inline token, else the
/// variable named by `tokenEnv`, else `tokenFile`; for a basic account the user (inline,
/// else `XIN_BASIC_USER`) and the password (inline, else `passEnv`, else `passFile`).
/// Blank inline values do not count; values are trimmed, except the user.
pub open spec fn account_auth_spec(acct: AccountConfig, env: EnvVars, files: Seq<FileRead>) -> Outcome<AuthView> {
    match acct.auth {
        AuthConfigFile::Bearer { token, token_env, token_file } => if non_blank(token) {
            Outcome::Done(Ok(AuthView::Bearer(trim(token.unwrap()@))))
        } else if env_named(env, token_env) is Some {
            Outcome::Done(Ok(AuthView::Bearer(trim(env_named(env, token_env).unwrap()))))
        } else if token_file is Some {
            match config_file_secret_spec(token_file.unwrap()@, env, files, "token"@) {
                Outcome::Need(p) => Outcome::Need(p),
                Outcome::Done(Err(m)) => Outcome::Done(Err(m)),
                Outcome::Done(Ok(t)) => Outcome::Done(Ok(AuthView::Bearer(t))),
            }
        } else {
            Outcome::Done(
                Err("missing bearer token; set XIN_TOKEN (or run `xin auth set-token <TOKEN>`)"@),
            )
        },
        AuthConfigFile::Basic { user, pass, pass_env, pass_file } => {
            let u = if non_blank(user) {
                Some(user.unwrap()@)
            } else {
                env.lookup("XIN_BASIC_USER"@)
            };
            match u {
                None => Outcome::Done(Err("missing basic user"@)),
                Some(u) => if non_blank(pass) {
                    Outcome::Done(Ok(AuthView::Basic(u, trim(pass.unwrap()@))))
                } else if env_named(env, pass_env) is Some {
                    Outcome::Done(Ok(AuthView::Basic(u, trim(env_named(env, pass_env).unwrap()))))
                } else if pass_file is Some {
                    match config_file_secret_spec(pass_file.unwrap()@, env, files, "basic pass"@) {
                        Outcome::Need(p) => Outcome::Need(p),
                        Outcome::Done(Err(m)) => Outcome::Done(Err(m)),
                        Outcome::Done(Ok(t)) => Outcome::Done(Ok(AuthView::Basic(u, t))),
                    }
                } else {
                    Outcome::Done(
                        Err("missing basic password; set XIN_BASIC_PASS or configure passFile"@),
                    )
                },
            }
        },
    }
}

fn env_named_exec(env: &EnvVars, name: &Option<String>) -> (r: Option<String>)
    ensures
        opt_text(r) == env_named(*env, *name),
{
    match name {
        Some(k) => env.get(k.as_str()),
        None => None,
    }
}

fn config_file_secret(path: &str, env: &EnvVars, files: &Vec<FileRead>, what: &str) -> (r: Resolution<String>)
    ensures
        match config_file_secret_spec(path@, *env, files@, what@) {
            Outcome::Need(p) => r matches Resolution::NeedFile(x) && x@ == p,
            Outcome::Done(Ok(t)) => r matches Resolution::Ready(Ok(x)) && x@ == t,
            Outcome::Done(Err(m)) => r matches Resolution::Ready(Err(e)) && e.is_config(m),
        },
{
    match expand_user_path(path, env) {
        Err(e) => Resolution::Ready(Err(e)),
        Ok(p) => secret_file(files, p.as_str(), what),
    }
}

/// The credentials of an account.
pub fn resolve_auth_from_account(acct: &AccountConfig, env: &EnvVars, files: &Vec<FileRead>) -> (r: Resolution<AuthConfig>)
    ensures
        match account_auth_spec(*acct, *env, files@) {
            Outcome::Need(p) => r matches Resolution::NeedFile(x) && x@ == p,
            Outcome::Done(Ok(a)) => r matches Resolution::Ready(Ok(x)) && x@ == a,
            Outcome::Done(Err(m)) => r matches Resolution::Ready(Err(e)) && e.is_config(m),
        },
{
    match &acct.auth {
        AuthConfigFile::Bearer { token, token_env, token_file } => {
            if is_non_blank(token) {
                let t = token.as_ref().unwrap();
                return Resolution::Ready(Ok(AuthConfig::Bearer(trim_str(t.as_str()))));
            }
            if let Some(v) = env_named_exec(env, token_env) {
                return Resolution::Ready(Ok(AuthConfig::Bearer(trim_str(v.as_str()))));
            }
            if let Some(f) = token_file {
                return match config_file_secret(f.as_str(), env, files, "token") {
                    Resolution::NeedFile(p) => Resolution::NeedFile(p),
                    Resolution::Ready(Err(e)) => Resolution::Ready(Err(e)),
                    Resolution::Ready(Ok(t)) => Resolution::Ready(Ok(AuthConfig::Bearer(t))),
                };
            }
            Resolution::Ready(
                Err(
                    XinErrorOut::config(
                        owned(
                            "missing bearer token; set XIN_TOKEN (or run `xin auth set-token <TOKEN>`)",
                        ),
                    ),
                ),
            )
        },
        AuthConfigFile::Basic { user, pass, pass_env, pass_file } => {
            let u = if is_non_blank(user) {
                owned(user.as_ref().unwrap().as_str())
            } else {
                match env.get("XIN_BASIC_USER") {
                    Some(v) => v,
                    None => return Resolution::Ready(
                        Err(XinErrorOut::config(owned("missing basic user"))),
                    ),
                }
            };
            if is_non_blank(pass) {
                let p = pass.as_ref().unwrap();
                return Resolution::Ready(
                    Ok(AuthConfig::Basic { user: u, pass: trim_str(p.as_str()) }),
                );
            }
            if let Some(v) = env_named_exec(env, pass_env) {
                return Resolution::Ready(
                    Ok(AuthConfig::Basic { user: u, pass: trim_str(v.as_str()) }),
                );
            }
            if let Some(f) = pass_file {
                return match config_file_secret(f.as_str(), env, files, "basic pass") {
                    Resolution::NeedFile(p) => Resolution::NeedFile(p),
                    Resolution::Ready(Err(e)) => Resolution::Ready(Err(e)),
                    Resolution::Ready(Ok(t)) => Resolution::Ready(
                        Ok(AuthConfig::Basic { user: u, pass: t }),
                    ),
                };
            }
            Resolution::Ready(
                Err(
                    XinErrorOut::config(
                        owned("missing basic password; set XIN_BASIC_PASS or configure passFile"),
                    ),
                ),
            )
        },
    }
}

// ---------------------------------------------------------------- resolution

/// The meaning of a `ResolvedRuntimeConfig`.
pub struct RuntimeView {
    pub base_url: Seq<char>,
    pub auth: AuthView,
    pub follow_redirect_hosts: Seq<Seq<char>>,
    pub account: Option<Seq<char>>,
}

impl ResolvedRuntimeConfig {
    /// What the resolved configuration holds.
    pub open spec fn view_of(&self) -> RuntimeView {
        RuntimeView {
            base_url: self.config.base_url@,
            auth: self.config.auth@,
            follow_redirect_hosts: string_views(self.config.follow_redirect_hosts@),
            account: opt_text(self.account),
        }
    }
}

/// The base URL given by the environment: `XIN_BASE_URL` without trailing slashes, else
/// the origin of `XIN_SESSION_URL`.
pub open spec fn env_base_url_spec(env: EnvVars) -> Result<Option<Seq<char>>, Seq<char>> {
    match env.lookup("XIN_BASE_URL"@) {
        Some(b) => Ok(Some(trim_end_char(b, '/'))),
        None => match env.lookup("XIN_SESSION_URL"@) {
            Some(su) => match origin_spec(su) {
                Ok(o) => Ok(Some(o)),
                Err(m) => Err(m),
            },
            None => Ok(None),
        },
    }
}

/// The account used and its position in the configuration (when there is a configuration).
pub open spec fn account_spec(cfg: Option<AppConfig>, selected: Option<Seq<char>>) -> Result<
    (Option<Seq<char>>, Option<int>),
    Seq<char>,
> {
    match cfg {
        Some(c) => match account_choice_spec(c, selected) {
            Err(m) => Err(m),
            Ok(name) => match c.find(name) {
                Some(i) => Ok((Some(name), Some(i))),
                None => Err("unknown account '"@ + name + "' in config"@),
            },
        },
        None => Ok((selected, None)),
    }
}

/// The base URL from the account: the origin of its session URL, else its base URL
/// without trailing slashes.
pub open spec fn account_base_url_spec(acct: AccountConfig) -> Result<Seq<char>, Seq<char>> {
    match acct.session_url {
        Some(su) => origin_spec(su@),
        None => match acct.base_url {
            Some(b) => Ok(trim_end_char(b@, '/')),
            None => Err("missing baseUrl/sessionUrl in account config"@),
        },
    }
}

/// The redirect hosts: `XIN_TRUST_REDIRECT_HOSTS` when it lists any, else the account's.
pub open spec fn hosts_spec(env: EnvVars, acct: Option<AccountConfig>) -> Seq<Seq<char>> {
    let from_env = match env.lookup("XIN_TRUST_REDIRECT_HOSTS"@) {
        Some(s) => redirect_hosts_spec(s),
        None => Seq::empty(),
    };
    if from_env.len() > 0 {
        from_env
    } else {
        match acct {
            Some(a) => string_views(a.trust_redirect_hosts@),
            None => Seq::empty(),
        }
    }
}

/// The error when nothing is set up: no base URL in the environment and no
/// configuration file. Such a command is reported as not available (not implemented)
/// rather than as a configuration mistake.
pub open spec fn unconfigured_message() -> Seq<char> {
    "missing XIN_BASE_URL (or XIN_SESSION_URL) environment variable, and no config file found"@
}

/// Nothing is set up: no base URL and no credential error in the environment, and no
/// configuration file. The resolution then fails with `unconfigured_message`.
pub open spec fn unconfigured(env: EnvVars, cfg: Option<AppConfig>, files: Seq<FileRead>) -> bool {
    &&& cfg is None
    &&& env_base_url_spec(env) == Ok::<Option<Seq<char>>, Seq<char>>(None)
    &&& env_auth_spec(env, files) matches Outcome::Done(Ok(_))
}

/// How a failed resolution is reported: as not implemented when nothing is set up, as a
/// configuration error otherwise.
pub open spec fn resolution_error(e: XinErrorOut, m: Seq<char>, none_set_up: bool) -> bool {
    if none_set_up {
        e.is_not_implemented(m)
    } else {
        e.is_config(m)
    }
}

/// The runtime configuration, field by field: the environment first, then the selected
/// account of the configuration file (when there is one). In this order: the base URL
/// from the environment, the credentials from the environment, the account, the base
/// URL, the credentials, the redirect hosts; the first error stops the resolution.
pub open spec fn runtime_spec(
    selected: Option<Seq<char>>,
    env: EnvVars,
    cfg: Option<AppConfig>,
    files: Seq<FileRead>,
) -> Outcome<RuntimeView> {
    match env_base_url_spec(env) {
        Err(m) => Outcome::Done(Err(m)),
        Ok(base_env) => match env_auth_spec(env, files) {
            Outcome::Need(p) => Outcome::Need(p),
            Outcome::Done(Err(m)) => Outcome::Done(Err(m)),
            Outcome::Done(Ok(auth_env)) => match account_spec(cfg, selected) {
                Err(m) => Outcome::Done(Err(m)),
                Ok((name, idx)) => {
                    let acct = match (cfg, idx) {
                        (Some(c), Some(i)) => Some(c.accounts@[i].1),
                        _ => None,
                    };
                    let base = match base_env {
                        Some(b) => Ok(b),
                        None => match acct {
                            Some(a) => account_base_url_spec(a),
                            None => Err(unconfigured_message()),
                        },
                    };
                    match base {
                        Err(m) => Outcome::Done(Err(m)),
                        Ok(b) => {
                            let auth = match auth_env {
                                Some(a) => Outcome::Done(Ok(a)),
                                None => match acct {
                                    Some(a) => account_auth_spec(a, env, files),
                                    None => Outcome::Done(
                                        Err(
                                            "missing XIN_TOKEN (or XIN_TOKEN_FILE) or XIN_BASIC_USER/XIN_BASIC_PASS environment variable"@,
                                        ),
                                    ),
                                },
                            };
                            match auth {
                                Outcome::Need(p) => Outcome::Need(p),
                                Outcome::Done(Err(m)) => Outcome::Done(Err(m)),
                                Outcome::Done(Ok(a)) => Outcome::Done(
                                    Ok(
                                        RuntimeView {
                                            base_url: b,
                                            auth: a,
                                            follow_redirect_hosts: hosts_spec(env, acct),
                                            account: name,
                                        },
                                    ),
                                ),
                            }
                        },
                    }
                },
            },
        },
    }
}

fn env_base_url(env: &EnvVars) -> (r: Result<Option<String>, XinErrorOut>)
    ensures
        match env_base_url_spec(*env) {
            Ok(b) => r matches Ok(x) && opt_text(x) == b,
            Err(m) => r matches Err(e) && e.is_config(m),
        },
{
    match env.get("XIN_BASE_URL") {
        Some(b) => Ok(Some(string_of(&trim_end_chars_of(&chars_of(b.as_str()), '/')))),
        None => match env.get("XIN_SESSION_URL") {
            Some(su) => match parse_origin_from_session_url(su.as_str()) {
                Ok(o) => Ok(Some(o)),
                Err(e) => Err(e),
            },
            None => Ok(None),
        },
    }
}

fn account_base_url(acct: &AccountConfig) -> (r: Result<String, XinErrorOut>)
    ensures
        match account_base_url_spec(*acct) {
            Ok(b) => r matches Ok(x) && x@ == b,
            Err(m) => r matches Err(e) && e.is_config(m),
        },
{
    match &acct.session_url {
        Some(su) => parse_origin_from_session_url(su.as_str()),
        None => match &acct.base_url {
            Some(b) => Ok(string_of(&trim_end_chars_of(&chars_of(b.as_str()), '/'))),
            None => Err(XinErrorOut::config(owned("missing baseUrl/sessionUrl in account config"))),
        },
    }
}

fn redirect_hosts(env: &EnvVars, acct: Option<&AccountConfig>) -> (r: Vec<String>)
    ensures
        string_views(r@) == hosts_spec(
            *env,
            match acct {
                Some(a) => Some(*a),
                None => None,
            },
        ),
{
    let from_env = match env.get("XIN_TRUST_REDIRECT_HOSTS") {
        Some(s) => parse_follow_redirect_hosts(s.as_str()),
        None => {
            let v: Vec<String> = Vec::new();
            assert(string_views(v@) =~= Seq::<Seq<char>>::empty());
            v
        },
    };
    if from_env.len() > 0 {
        from_env
    } else {
        match acct {
            Some(a) => clone_strings(&a.trust_redirect_hosts),
            None => {
                let v: Vec<String> = Vec::new();
                assert(string_views(v@) =~= Seq::<Seq<char>>::empty());
                v
            },
        }
    }
}

/// Resolves the runtime configuration for a command. `cfg` is the configuration file
/// when it could be read; `files` are the secret files read so far.
pub fn resolve_runtime_config(
    selected_account: Option<&str>,
    env: &EnvVars,
    cfg: Option<&AppConfig>,
    files: &Vec<FileRead>,
) -> (r: Resolution<ResolvedRuntimeConfig>)
    ensures
        match runtime_spec(
            match selected_account {
                Some(s) => Some(s@),
                None => None,
            },
            *env,
            match cfg {
                Some(c) => Some(*c),
                None => None,
            },
            files@,
        ) {
            Outcome::Need(p) => r matches Resolution::NeedFile(x) && x@ == p,
            Outcome::Done(Ok(v)) => r matches Resolution::Ready(Ok(x)) && x.view_of() == v,
            Outcome::Done(Err(m)) => r matches Resolution::Ready(Err(e)) && resolution_error(
                e,
                m,
                unconfigured(
                    *env,
                    match cfg {
                        Some(c) => Some(*c),
                        None => None,
                    },
                    files@,
                ),
            ),
        },
{
    let base_env = match env_base_url(env) {
        Ok(b) => b,
        Err(e) => return Resolution::Ready(Err(e)),
    };
    let auth_env = match parse_auth_from_global_env(env, files) {
        Resolution::NeedFile(p) => return Resolution::NeedFile(p),
        Resolution::Ready(Err(e)) => return Resolution::Ready(Err(e)),
        Resolution::Ready(Ok(a)) => a,
    };
    let (name, acct): (Option<String>, Option<&AccountConfig>) = match cfg {
        Some(c) => {
            let n = match resolve_account_from_config(c, selected_account) {
                Ok(n) => n,
                Err(e) => return Resolution::Ready(Err(e)),
            };
            match c.position(n.as_str()) {
                Some(i) => (Some(n), Some(&c.accounts[i].1)),
                None => {
                    let mut m = chars_of("unknown account '");
                    append_chars(&mut m, &chars_of(n.as_str()));
                    append_chars(&mut m, &chars_of("' in config"));
                    return Resolution::Ready(Err(XinErrorOut::config(string_of(&m))));
                },
            }
        },
        None => (
            match selected_account {
                Some(s) => Some(owned(s)),
                None => None,
            },
            None,
        ),
    };
    let base_url = match base_env {
        Some(b) => b,
        None => match acct {
            Some(a) => match account_base_url(a) {
                Ok(b) => b,
                Err(e) => return Resolution::Ready(Err(e)),
            },
            None => {
                proof {
                    reveal_strlit("missing XIN_BASE_URL (or XIN_SESSION_URL) environment variable, and no config file found");
                }
                return Resolution::Ready(
                    Err(
                        XinErrorOut::not_implemented(
                            owned(
                                "missing XIN_BASE_URL (or XIN_SESSION_URL) environment variable, and no config file found",
                            ),
                        ),
                    ),
                );
            },
        },
    };
    let auth = match auth_env {
        Some(a) => a,
        None => match acct {
            Some(a) => match resolve_auth_from_account(a, env, files) {
                Resolution::NeedFile(p) => return Resolution::NeedFile(p),
                Resolution::Ready(Err(e)) => return Resolution::Ready(Err(e)),
                Resolution::Ready(Ok(x)) => x,
            },
            None => return Resolution::Ready(
                Err(
                    XinErrorOut::config(
                        owned(
                            "missing XIN_TOKEN (or XIN_TOKEN_FILE) or XIN_BASIC_USER/XIN_BASIC_PASS environment variable",
                        ),
                    ),
                ),
            ),
        },
    };
    let hosts = redirect_hosts(env, acct);
    Resolution::Ready(
        Ok(
            ResolvedRuntimeConfig {
                config: RuntimeConfig { base_url, auth, follow_redirect_hosts: hosts },
                account: name,
            },
        ),
    )
}

impl RuntimeConfig {
    /// The runtime configuration without an account selected on the command line.
    pub fn from_env(env: &EnvVars, cfg: Option<&AppConfig>, files: &Vec<FileRead>) -> (r: Resolution<RuntimeConfig>)
        ensures
            match runtime_spec(
                None,
                *env,
                match cfg {
                    Some(c) => Some(*c),
                    None => None,
                },
                files@,
            ) {
                Outcome::Need(p) => r matches Resolution::NeedFile(x) && x@ == p,
                Outcome::Done(Ok(v)) => r matches Resolution::Ready(Ok(x)) && x.base_url@ == v.base_url
                    && x.auth@ == v.auth && string_views(x.follow_redirect_hosts@)
                    == v.follow_redirect_hosts,
                Outcome::Done(Err(m)) => r matches Resolution::Ready(Err(e)) && resolution_error(
                    e,
                    m,
                    unconfigured(
                        *env,
                        match cfg {
                            Some(c) => Some(*c),
                            None => None,
                        },
                        files@,
                    ),
                ),
            },
    {
        match resolve_runtime_config(None, env, cfg, files) {
            Resolution::NeedFile(p) => Resolution::NeedFile(p),
            Resolution::Ready(Err(e)) => Resolution::Ready(Err(e)),
            Resolution::Ready(Ok(r)) => Resolution::Ready(Ok(r.config)),
        }
    }
}

/// Credentials of both kinds in the environment are refused, whatever their values,
/// with a fixed message that names the variables and never their values.
pub proof fn law_both_kinds_of_credentials_refused(env: EnvVars, files: Seq<FileRead>)
    requires
        (env.lookup("XIN_TOKEN"@) is Some || env.lookup("XIN_TOKEN_FILE"@) is Some),
        (env.lookup("XIN_BASIC_USER"@) is Some || env.lookup("XIN_BASIC_PASS"@) is Some
            || env.lookup("XIN_BASIC_PASS_FILE"@) is Some),
    ensures
        env_auth_spec(env, files) == Outcome::<Option<AuthView>>::Done(Err(both_auth_message())),
{
}

/// The environment takes precedence field by field: when the resolution succeeds,
/// `XIN_BASE_URL` (without trailing slashes) is the base URL and credentials given in
/// the environment are the credentials, whatever the configuration file says.
pub proof fn law_environment_takes_precedence(
    selected: Option<Seq<char>>,
    env: EnvVars,
    cfg: Option<AppConfig>,
    files: Seq<FileRead>,
)
    ensures
        runtime_spec(selected, env, cfg, files) matches Outcome::Done(Ok(v)) ==> {
            &&& (env.lookup("XIN_BASE_URL"@) matches Some(b) ==> v.base_url == trim_end_char(b, '/'))
            &&& (env_auth_spec(env, files) matches Outcome::Done(Ok(Some(a))) ==> v.auth == a)
        },
{
}

} // verus!
