//! The configuration file (`~/.config/xin/config.json`): its content, where it lives,
//! the minimal Fastmail setup, and the edits that `config` and `auth` make to it.
use vstd::prelude::*;

use crate::error::{owned, XinErrorOut};
use crate::mailbox::opt_text;
use crate::paths::{join_path, join_path_spec, parent_of, path_parent};
use crate::pieces::{clone_strings, string_views};
use crate::seqs::{first_where, lemma_first_where, lemma_first_where_none};
use crate::text::{chars_of, eq_chars, slice_chars, starts_with, string_of};

verus! {

/// A snapshot of the environment variables: name and value pairs.
#[derive(Debug)]
pub struct EnvVars {
    pub vars: Vec<(String, String)>,
}

/// The value of the first variable named `key`.
pub open spec fn env_lookup(vars: Seq<(String, String)>, key: Seq<char>) -> Option<Seq<char>>
    decreases vars.len(),
{
    if vars.len() == 0 {
        None
    } else if vars[0].0@ == key {
        Some(vars[0].1@)
    } else {
        env_lookup(vars.drop_first(), key)
    }
}

impl EnvVars {
    /// The value of the variable `key`, if set.
    pub open spec fn lookup(&self, key: Seq<char>) -> Option<Seq<char>> {
        env_lookup(self.vars@, key)
    }

    /// The value of the variable `key`, if set.
    pub fn get(&self, key: &str) -> (r: Option<String>)
        ensures
            opt_text(r) == self.lookup(key@),
    {
        let k = chars_of(key);
        let mut i: usize = 0;
        assert(self.vars@.skip(0) =~= self.vars@);
        while i < self.vars.len()
            invariant
                i <= self.vars.len(),
                k@ == key@,
                env_lookup(self.vars@, key@) == env_lookup(self.vars@.skip(i as int), key@),
            decreases self.vars.len() - i,
        {
            assert(self.vars@.skip(i as int)[0] == self.vars@[i as int]);
            if eq_chars(&chars_of(self.vars[i].0.as_str()), &k) {
                return Some(owned(self.vars[i].1.as_str()));
            }
            assert(self.vars@.skip(i as int).drop_first() =~= self.vars@.skip(i as int + 1));
            i += 1;
        }
        None
    }
}

/// How an account authenticates, as written in the file.
#[derive(Debug)]
pub enum AuthConfigFile {
    Bearer { token: Option<String>, token_env: Option<String>, token_file: Option<String> },
    Basic {
        user: Option<String>,
        pass: Option<String>,
        pass_env: Option<String>,
        pass_file: Option<String>,
    },
}

/// One account of the file.
#[derive(Debug)]
pub struct AccountConfig {
    /// Origin, such as `https://api.fastmail.com` (the session is at `/.well-known/jmap`).
    pub base_url: Option<String>,
    /// Full session URL.
    pub session_url: Option<String>,
    pub auth: AuthConfigFile,
    pub trust_redirect_hosts: Vec<String>,
}

/// The defaults section of the file.
#[derive(Debug)]
pub struct Defaults {
    pub account: Option<String>,
}

/// The configuration file: defaults and the accounts by name.
#[derive(Debug)]
pub struct AppConfig {
    pub defaults: Defaults,
    pub accounts: Vec<(String, AccountConfig)>,
}

/// The test "is the account named `name`".
pub open spec fn named(name: Seq<char>) -> spec_fn((String, AccountConfig)) -> bool {
    |a: (String, AccountConfig)| a.0@ == name
}

/// The account names of a configuration, in order.
pub open spec fn account_names(accounts: Seq<(String, AccountConfig)>) -> Seq<Seq<char>> {
    accounts.map_values(|a: (String, AccountConfig)| a.0@)
}

impl AppConfig {
    /// No account name occurs twice (the accounts are a map from name to account; every
    /// function here that builds or changes a configuration keeps this).
    pub open spec fn wf(&self) -> bool {
        account_names(self.accounts@).no_duplicates()
    }

    /// The position of the first account named `name`, if any.
    pub open spec fn find(&self, name: Seq<char>) -> Option<int> {
        first_where(self.accounts@, named(name))
    }

    /// The position of the first account named `name`, if any.
    pub fn position(&self, name: &str) -> (r: Option<usize>)
        ensures
            match r {
                Some(i) => self.find(name@) == Some(i as int) && i < self.accounts@.len()
                    && self.accounts@[i as int].0@ == name@,
                None => self.find(name@) is None && forall|i: int|
                    0 <= i < self.accounts@.len() ==> #[trigger] self.accounts@[i].0@ != name@,
            },
    {
        let ghost p = named(name@);
        let n = chars_of(name);
        let mut i: usize = 0;
        while i < self.accounts.len()
            invariant
                i <= self.accounts.len(),
                n@ == name@,
                p == named(name@),
                forall|j: int| 0 <= j < i ==> #[trigger] self.accounts@[j].0@ != name@,
            decreases self.accounts.len() - i,
        {
            if eq_chars(&chars_of(self.accounts[i].0.as_str()), &n) {
                proof {
                    assert forall|j: int| 0 <= j < i implies !p(#[trigger] self.accounts@[j]) by {
                        assert(self.accounts@[j].0@ != name@);
                    }
                    lemma_first_where(self.accounts@, p, i as int);
                }
                return Some(i);
            }
            i += 1;
        }
        proof {
            assert forall|j: int| 0 <= j < self.accounts@.len() implies !p(
                #[trigger] self.accounts@[j],
            ) by {
                assert(self.accounts@[j].0@ != name@);
            }
            lemma_first_where_none(self.accounts@, p);
        }
        None
    }

    /// Whether an account named `name` exists.
    pub fn contains_account(&self, name: &str) -> (r: bool)
        ensures
            r == account_names(self.accounts@).contains(name@),
    {
        match self.position(name) {
            Some(i) => {
                assert(account_names(self.accounts@)[i as int] == name@);
                true
            },
            None => {
                assert(!account_names(self.accounts@).contains(name@)) by {
                    if account_names(self.accounts@).contains(name@) {
                        let j = choose|j: int|
                            0 <= j < account_names(self.accounts@).len() && account_names(
                                self.accounts@,
                            )[j] == name@;
                        assert(self.accounts@[j].0@ == name@);
                    }
                }
                false
            },
        }
    }
}

// ---------------------------------------------------------------- locations

/// The home directory, or the configuration error when `HOME` is not set.
pub open spec fn home_spec(env: EnvVars) -> Result<Seq<char>, Seq<char>> {
    match env.lookup("HOME"@) {
        Some(h) => Ok(h),
        None => Err("missing HOME environment variable"@),
    }
}

/// The home directory.
pub fn home_dir(env: &EnvVars) -> (r: Result<String, XinErrorOut>)
    ensures
        match home_spec(*env) {
            Ok(h) => r matches Ok(s) && s@ == h,
            Err(m) => r matches Err(e) && e.is_config(m),
        },
{
    match env.get("HOME") {
        Some(h) => Ok(h),
        None => Err(XinErrorOut::config(owned("missing HOME environment variable"))),
    }
}

/// Where the configuration file lives: `XIN_CONFIG_PATH` when set; otherwise
/// `xin/config.json` under `XDG_CONFIG_HOME`, or under `~/.config` (which needs `HOME`).
pub open spec fn config_path_spec(env: EnvVars) -> Result<Seq<char>, Seq<char>> {
    match env.lookup("XIN_CONFIG_PATH"@) {
        Some(p) => Ok(p),
        None => match home_spec(env) {
            Err(m) => Err(m),
            Ok(home) => {
                let base = match env.lookup("XDG_CONFIG_HOME"@) {
                    Some(x) => x,
                    None => join_path_spec(home, ".config"@),
                };
                Ok(join_path_spec(base, "xin/config.json"@))
            },
        },
    }
}

/// The path of the configuration file.
pub fn default_config_path(env: &EnvVars) -> (r: Result<String, XinErrorOut>)
    ensures
        match config_path_spec(*env) {
            Ok(p) => r matches Ok(s) && s@ == p,
            Err(m) => r matches Err(e) && e.is_config(m),
        },
{
    if let Some(p) = env.get("XIN_CONFIG_PATH") {
        return Ok(p);
    }
    let home = match home_dir(env) {
        Ok(h) => h,
        Err(e) => return Err(e),
    };
    let base = match env.get("XDG_CONFIG_HOME") {
        Some(x) => x,
        None => join_path(home.as_str(), ".config"),
    };
    Ok(join_path(base.as_str(), "xin/config.json"))
}

/// Where token files go: `tokens` beside the configuration file.
pub open spec fn tokens_dir_spec(env: EnvVars) -> Result<Seq<char>, Seq<char>> {
    match config_path_spec(env) {
        Err(m) => Err(m),
        Ok(p) => Ok(
            join_path_spec(
                match path_parent(p) {
                    Some(d) => d,
                    None => "."@,
                },
                "tokens"@,
            ),
        ),
    }
}

/// The directory for token files.
pub fn default_tokens_dir(env: &EnvVars) -> (r: Result<String, XinErrorOut>)
    ensures
        match tokens_dir_spec(*env) {
            Ok(p) => r matches Ok(s) && s@ == p,
            Err(m) => r matches Err(e) && e.is_config(m),
        },
{
    let cfg = match default_config_path(env) {
        Ok(p) => p,
        Err(e) => return Err(e),
    };
    let dir = match parent_of(cfg.as_str()) {
        Some(d) => d,
        None => owned("."),
    };
    Ok(join_path(dir.as_str(), "tokens"))
}

/// A path with a leading `~/` taken relative to the home directory (which then must be known).
pub open spec fn expand_user_spec(s: Seq<char>, env: EnvVars) -> Result<Seq<char>, Seq<char>> {
    if "~/"@.is_prefix_of(s) {
        match home_spec(env) {
            Ok(h) => Ok(join_path_spec(h, s.skip(2))),
            Err(m) => Err(m),
        }
    } else {
        Ok(s)
    }
}

/// Expands a leading `~/`.
pub fn expand_user_path(s: &str, env: &EnvVars) -> (r: Result<String, XinErrorOut>)
    ensures
        match expand_user_spec(s@, *env) {
            Ok(p) => r matches Ok(x) && x@ == p,
            Err(m) => r matches Err(e) && e.is_config(m),
        },
{
    let v = chars_of(s);
    let tilde = chars_of("~/");
    proof {
        reveal_strlit("~/");
    }
    if starts_with(&v, &tilde) {
        let home = match home_dir(env) {
            Ok(h) => h,
            Err(e) => return Err(e),
        };
        let rest = slice_chars(&v, 2, v.len());
        assert(rest@ =~= s@.skip(2));
        Ok(join_path(home.as_str(), string_of(&rest).as_str()))
    } else {
        Ok(owned(s))
    }
}

// ---------------------------------------------------------------- the minimal setup

/// The configuration that `auth set-token` and `config init` create when there is none:
/// one account `fastmail` (the default) on `https://api.fastmail.com`, with a bearer
/// token read from `tokens/fastmail.token` and Fastmail's hosts trusted for redirects.
pub open spec fn minimal_config_ok(cfg: AppConfig, token_file: Seq<char>) -> bool {
    &&& opt_text(cfg.defaults.account) == Some("fastmail"@)
    &&& cfg.accounts@.len() == 1
    &&& cfg.accounts@[0].0@ == "fastmail"@
    &&& opt_text(cfg.accounts@[0].1.base_url) == Some("https://api.fastmail.com"@)
    &&& cfg.accounts@[0].1.session_url is None
    &&& cfg.accounts@[0].1.auth matches AuthConfigFile::Bearer { token, token_env, token_file: f }
        && token is None && token_env is None && opt_text(f) == Some(token_file)
    &&& string_views(cfg.accounts@[0].1.trust_redirect_hosts@) == seq![
        "api.fastmail.com"@,
        "jmap.fastmail.com"@,
        "fastmail.com"@,
    ]
}

/// What `config init` settles on: the existing configuration and path, not created;
/// else the minimal Fastmail setup at the default path, created (or the error of
/// finding the tokens directory or the configuration path).
pub open spec fn init_outcome(
    existing: Option<(AppConfig, String)>,
    env: EnvVars,
    r: Result<(AppConfig, String, bool), XinErrorOut>,
) -> bool {
    match existing {
        Some((c0, p0)) => r matches Ok((c, p, created)) && !created && c == c0 && p@ == p0@,
        None => match tokens_dir_spec(env) {
            Err(m) => r matches Err(e) && e.is_config(m),
            Ok(dir) => match config_path_spec(env) {
                Err(m) => r matches Err(e) && e.is_config(m),
                Ok(path) => r matches Ok((c, p, created)) && created && p@ == path && minimal_config_ok(
                    c,
                    join_path_spec(dir, "fastmail.token"@),
                ) && c.wf(),
            },
        },
    }
}

/// `config init` run twice: the first run, with no configuration file, creates the
/// minimal one; the second, given what the first wrote, keeps that configuration and
/// path as they are and reports that nothing was created.
pub proof fn lemma_init_twice(
    env: EnvVars,
    first: Result<(AppConfig, String, bool), XinErrorOut>,
    second: Result<(AppConfig, String, bool), XinErrorOut>,
)
    requires
        init_outcome(None, env, first),
        first matches Ok((c, p, _)) && init_outcome(Some((c, p)), env, second),
    ensures
        first matches Ok((c, p, created)) && created && (second matches Ok((c2, p2, created2))
            && !created2 && c2 == c && p2@ == p@),
{
}

/// The configuration to use: the existing file (with its path) when there is one,
/// otherwise the minimal Fastmail setup and the path where it is to be written, flagged
/// as created.
pub fn ensure_minimal_fastmail_config(existing: Option<(AppConfig, String)>, env: &EnvVars) -> (r: Result<
    (AppConfig, String, bool),
    XinErrorOut,
>)
    ensures
        init_outcome(existing, *env, r),
{
    match existing {
        Some((c, p)) => Ok((c, p, false)),
        None => {
            let dir = match default_tokens_dir(env) {
                Ok(d) => d,
                Err(e) => return Err(e),
            };
            let token_file = join_path(dir.as_str(), "fastmail.token");
            let path = match default_config_path(env) {
                Ok(p) => p,
                Err(e) => return Err(e),
            };
            let mut hosts: Vec<String> = Vec::new();
            hosts.push(owned("api.fastmail.com"));
            hosts.push(owned("jmap.fastmail.com"));
            hosts.push(owned("fastmail.com"));
            assert(string_views(hosts@) =~= seq![
                "api.fastmail.com"@,
                "jmap.fastmail.com"@,
                "fastmail.com"@,
            ]);
            let acct = AccountConfig {
                base_url: Some(owned("https://api.fastmail.com")),
                session_url: None,
                auth: AuthConfigFile::Bearer { token: None, token_env: None, token_file: Some(token_file) },
                trust_redirect_hosts: hosts,
            };
            let mut accounts: Vec<(String, AccountConfig)> = Vec::new();
            accounts.push((owned("fastmail"), acct));
            let cfg = AppConfig { defaults: Defaults { account: Some(owned("fastmail")) }, accounts };
            assert(account_names(cfg.accounts@) =~= seq!["fastmail"@]);
            Ok((cfg, path, true))
        },
    }
}

// ---------------------------------------------------------------- edits

/// An account's auth with its inline secret (token or password) removed.
pub open spec fn without_secret(a: AuthConfigFile) -> AuthConfigFile {
    match a {
        AuthConfigFile::Bearer { token_env, token_file, .. } => AuthConfigFile::Bearer {
            token: None,
            token_env,
            token_file,
        },
        AuthConfigFile::Basic { user, pass_env, pass_file, .. } => AuthConfigFile::Basic {
            user,
            pass: None,
            pass_env,
            pass_file,
        },
    }
}

fn clear_secret(auth: AuthConfigFile) -> (r: AuthConfigFile)
    ensures
        r == without_secret(auth),
{
    match auth {
        AuthConfigFile::Bearer { token: _, token_env, token_file } => AuthConfigFile::Bearer {
            token: None,
            token_env,
            token_file,
        },
        AuthConfigFile::Basic { user, pass: _, pass_env, pass_file } => AuthConfigFile::Basic {
            user,
            pass: None,
            pass_env,
            pass_file,
        },
    }
}

/// Whether an account's auth holds no secret value (token or password).
pub open spec fn auth_has_no_secret(a: AuthConfigFile) -> bool {
    match a {
        AuthConfigFile::Bearer { token, .. } => token is None,
        AuthConfigFile::Basic { pass, .. } => pass is None,
    }
}

/// The configuration with every inline token and password removed (for display);
/// everything else is kept.
pub fn sanitize_config(cfg: AppConfig) -> (r: AppConfig)
    ensures
        r.defaults == cfg.defaults,
        account_names(r.accounts@) == account_names(cfg.accounts@),
        r.wf() == cfg.wf(),
        forall|i: int|
            0 <= i < r.accounts@.len() ==> auth_has_no_secret(#[trigger] r.accounts@[i].1.auth),
        forall|i: int|
            0 <= i < r.accounts@.len() ==> {
                let (a, b) = (#[trigger] r.accounts@[i].1, cfg.accounts@[i].1);
                &&& a.base_url == b.base_url
                &&& a.session_url == b.session_url
                &&& a.auth == without_secret(b.auth)
                &&& a.trust_redirect_hosts == b.trust_redirect_hosts
            },
{
    let AppConfig { defaults, accounts } = cfg;
    let ghost old_accounts = accounts@;
    let mut out: Vec<(String, AccountConfig)> = Vec::new();
    let mut rest = accounts;
    while rest.len() > 0
        invariant
            out@.len() + rest@.len() == old_accounts.len(),
            rest@ == old_accounts.subrange(out@.len() as int, old_accounts.len() as int),
            forall|j: int|
                0 <= j < out@.len() ==> {
                    let (a, b) = (#[trigger] out@[j], old_accounts[j]);
                    &&& a.0 == b.0
                    &&& auth_has_no_secret(a.1.auth)
                    &&& a.1.auth == without_secret(b.1.auth)
                    &&& a.1.base_url == b.1.base_url
                    &&& a.1.session_url == b.1.session_url
                    &&& a.1.trust_redirect_hosts == b.1.trust_redirect_hosts
                },
        decreases rest.len(),
    {
        let (name, acct) = rest.remove(0);
        let AccountConfig { base_url, session_url, auth, trust_redirect_hosts } = acct;
        let auth2 = clear_secret(auth);
        out.push((name, AccountConfig { base_url, session_url, auth: auth2, trust_redirect_hosts }));
    }
    let r = AppConfig { defaults, accounts: out };
    assert(account_names(r.accounts@) =~= account_names(old_accounts));
    r
}

/// Makes `account` the default; it must be one of the configured accounts.
pub fn set_default_account(cfg: AppConfig, account: &str) -> (r: Result<AppConfig, XinErrorOut>)
    ensures
        account_names(cfg.accounts@).contains(account@) ==> (r matches Ok(c) && opt_text(
            c.defaults.account,
        ) == Some(account@) && c.accounts == cfg.accounts && c.wf() == cfg.wf()),
        !account_names(cfg.accounts@).contains(account@) ==> (r matches Err(e) && e.is_usage(
            "unknown account '"@ + account@ + "'"@,
        )),
{
    if !cfg.contains_account(account) {
        let mut m = chars_of("unknown account '");
        crate::pieces::append_chars(&mut m, &chars_of(account));
        crate::pieces::append_chars(&mut m, &chars_of("'"));
        return Err(XinErrorOut::usage(string_of(&m)));
    }
    let AppConfig { defaults: _, accounts } = cfg;
    Ok(AppConfig { defaults: Defaults { account: Some(owned(account)) }, accounts })
}

/// The account `auth set-token` writes a token for: `--account`, else the default
/// account, else `fastmail`.
pub open spec fn token_account_spec(cfg: AppConfig, cli_account: Option<Seq<char>>) -> Seq<char> {
    match cli_account {
        Some(a) => a,
        None => match opt_text(cfg.defaults.account) {
            Some(a) => a,
            None => "fastmail"@,
        },
    }
}

/// Picks the account for `auth set-token`; an unknown account other than `fastmail` is
/// refused (the `fastmail` account is the one the minimal setup creates).
pub fn select_token_account(cfg: &AppConfig, cli_account: Option<&str>) -> (r: Result<String, XinErrorOut>)
    ensures
        ({
            let a = token_account_spec(
                *cfg,
                match cli_account {
                    Some(s) => Some(s@),
                    None => None,
                },
            );
            if account_names(cfg.accounts@).contains(a) || a == "fastmail"@ {
                r matches Ok(s) && s@ == a
            } else {
                r matches Err(e) && e.is_usage(
                    "unknown account '"@ + a + "'; run `xin config init` and edit config first"@,
                )
            }
        }),
{
    let account = match cli_account {
        Some(a) => owned(a),
        None => match &cfg.defaults.account {
            Some(a) => owned(a.as_str()),
            None => owned("fastmail"),
        },
    };
    if !cfg.contains_account(account.as_str()) && !eq_chars(
        &chars_of(account.as_str()),
        &chars_of("fastmail"),
    ) {
        let mut m = chars_of("unknown account '");
        crate::pieces::append_chars(&mut m, &chars_of(account.as_str()));
        crate::pieces::append_chars(&mut m, &chars_of("'; run `xin config init` and edit config first"));
        return Err(XinErrorOut::usage(string_of(&m)));
    }
    Ok(account)
}

/// The error text when the token directory cannot be found (the only cause is a
/// missing `HOME`), with the underlying error in debug form.
pub open spec fn token_dir_error_message() -> Seq<char> {
    "token dir error: XinErrorOut { kind: \"xinConfigError\", message: \"missing HOME environment variable\", http: None, jmap: None }"@
}

/// The default token file of an account: `<account>.token` in the token directory.
pub fn default_token_file_for_account(account: &str, env: &EnvVars) -> (r: Result<String, XinErrorOut>)
    ensures
        match tokens_dir_spec(*env) {
            Ok(dir) => r matches Ok(p) && p@ == join_path_spec(dir, account@ + ".token"@),
            Err(_) => r matches Err(e) && e.is_config(token_dir_error_message()),
        },
{
    let dir = match default_tokens_dir(env) {
        Ok(d) => d,
        Err(_) => return Err(
            XinErrorOut::config(
                owned(
                    "token dir error: XinErrorOut { kind: \"xinConfigError\", message: \"missing HOME environment variable\", http: None, jmap: None }",
                ),
            ),
        ),
    };
    let mut name = chars_of(account);
    crate::pieces::append_chars(&mut name, &chars_of(".token"));
    Ok(join_path(dir.as_str(), string_of(&name).as_str()))
}

/// Where `auth set-token` writes the token: the account's configured bearer token file
/// (with `~/` expanded), else the account's default token file.
pub open spec fn token_file_spec(cfg: AppConfig, account: Seq<char>, env: EnvVars) -> Result<Seq<char>, Seq<char>> {
    let configured = match cfg.find(account) {
        Some(i) => match cfg.accounts@[i].1.auth {
            AuthConfigFile::Bearer { token_file: Some(f), .. } => Some(f@),
            _ => None,
        },
        None => None,
    };
    match configured {
        Some(f) => expand_user_spec(f, env),
        None => match tokens_dir_spec(env) {
            Ok(dir) => Ok(join_path_spec(dir, account + ".token"@)),
            Err(_) => Err(token_dir_error_message()),
        },
    }
}

/// Decides the token file path for `auth set-token`.
pub fn token_file_for(cfg: &AppConfig, account: &str, env: &EnvVars) -> (r: Result<String, XinErrorOut>)
    ensures
        match token_file_spec(*cfg, account@, *env) {
            Ok(p) => r matches Ok(x) && x@ == p,
            Err(m) => r matches Err(e) && e.is_config(m),
        },
{
    let configured: Option<String> = match cfg.position(account) {
        Some(i) => {
            assert(cfg.find(account@) == Some(i as int));
            match &cfg.accounts[i].1.auth {
                AuthConfigFile::Bearer { token_file: Some(f), .. } => Some(owned(f.as_str())),
                _ => None,
            }
        },
        None => None,
    };
    match configured {
        Some(f) => expand_user_path(f.as_str(), env),
        None => default_token_file_for_account(account, env),
    }
}

/// The configuration after `auth set-token`: the account (which must exist) now reads
/// its bearer token from `token_file`, and becomes the default when there was none.
pub fn apply_token_file(cfg: AppConfig, account: &str, token_file: &str) -> (r: AppConfig)
    requires
        account_names(cfg.accounts@).contains(account@),
    ensures
        account_names(r.accounts@) == account_names(cfg.accounts@),
        r.wf() == cfg.wf(),
        forall|i: int|
            0 <= i < r.accounts@.len() ==> (#[trigger] r.accounts@[i]).0@ == account@ ==> (
            r.accounts@[i].1.auth matches AuthConfigFile::Bearer { token, token_env, token_file: f }
                && token is None && token_env is None && opt_text(f) == Some(token_file@)),
        forall|i: int|
            0 <= i < r.accounts@.len() ==> (#[trigger] r.accounts@[i]).0@ != account@ ==> r.accounts@[i]
                == cfg.accounts@[i],
        opt_text(r.defaults.account) == match opt_text(cfg.defaults.account) {
            Some(a) => Some(a),
            None => Some(account@),
        },
{
    let AppConfig { defaults, accounts } = cfg;
    let ghost old_accounts = accounts@;
    let mut out: Vec<(String, AccountConfig)> = Vec::new();
    let mut rest = accounts;
    while rest.len() > 0
        invariant
            out@.len() + rest@.len() == old_accounts.len(),
            rest@ == old_accounts.subrange(out@.len() as int, old_accounts.len() as int),
            forall|j: int| 0 <= j < out@.len() ==> (#[trigger] out@[j]).0 == old_accounts[j].0,
            forall|j: int|
                0 <= j < out@.len() ==> (#[trigger] out@[j]).0@ == account@ ==> (
                out@[j].1.auth matches AuthConfigFile::Bearer { token, token_env, token_file: f }
                    && token is None && token_env is None && opt_text(f) == Some(token_file@)),
            forall|j: int|
                0 <= j < out@.len() ==> (#[trigger] out@[j]).0@ != account@ ==> out@[j]
                    == old_accounts[j],
        decreases rest.len(),
    {
        let (name, acct) = rest.remove(0);
        if eq_chars(&chars_of(name.as_str()), &chars_of(account)) {
            let AccountConfig { base_url, session_url, auth: _, trust_redirect_hosts } = acct;
            let auth = AuthConfigFile::Bearer {
                token: None,
                token_env: None,
                token_file: Some(owned(token_file)),
            };
            out.push((name, AccountConfig { base_url, session_url, auth, trust_redirect_hosts }));
        } else {
            out.push((name, acct));
        }
    }
    assert(account_names(out@) =~= account_names(old_accounts));
    let account_default = match defaults.account {
        Some(a) => Some(a),
        None => Some(owned(account)),
    };
    AppConfig { defaults: Defaults { account: account_default }, accounts: out }
}

} // verus!
