//! URLs: the origin of a session URL, Fastmail web links (`xin url`), and the
//! percent-encodings they use.
use vstd::prelude::*;
use vstd::utf8::encode_utf8;

use crate::error::{owned, XinErrorOut};
use crate::mailbox::opt_text;
use crate::pieces::{append_chars, decimal, u64_text};
use crate::text::{chars_of, ends_with, eq_chars, string_of};

verus! {

/// What `url::Url::parse` makes of the text: its scheme, host and explicit port, or the
/// text of the parse error.
pub uninterp spec fn url_parts(s: Seq<char>) -> Result<(Seq<char>, Option<Seq<char>>, Option<u16>), Seq<char>>;

/// The uppercase hexadecimal digit for `d` (below 16).
pub open spec fn hex_digit(d: nat) -> char {
    if d < 10 {
        ((48 + d) as u32) as char
    } else {
        ((55 + d) as u32) as char
    }
}

/// `%XX` for a byte.
pub open spec fn percent_escape(b: u8) -> Seq<char> {
    seq!['%', hex_digit((b / 16) as nat), hex_digit((b % 16) as nat)]
}

/// ASCII letters and digits.
pub open spec fn is_alnum_byte(b: u8) -> bool {
    (48 <= b <= 57) || (65 <= b <= 90) || (97 <= b <= 122)
}

/// How `form_urlencoded` writes one byte: letters, digits and `*-._` stay, a space
/// becomes `+`, anything else `%XX`.
pub open spec fn form_byte(b: u8) -> Seq<char> {
    if is_alnum_byte(b) || b == 42 || b == 45 || b == 46 || b == 95 {
        seq![(b as u32) as char]
    } else if b == 32 {
        seq!['+']
    } else {
        percent_escape(b)
    }
}

/// How `urlencoding` writes one byte: letters, digits and `-._~` stay, anything else `%XX`.
pub open spec fn percent_byte(b: u8) -> Seq<char> {
    if is_alnum_byte(b) || b == 45 || b == 46 || b == 95 || b == 126 {
        seq![(b as u32) as char]
    } else {
        percent_escape(b)
    }
}

/// The form encoding of the bytes.
pub open spec fn form_encode_bytes(bs: Seq<u8>) -> Seq<char>
    decreases bs.len(),
{
    if bs.len() == 0 {
        Seq::empty()
    } else {
        form_encode_bytes(bs.drop_last()) + form_byte(bs.last())
    }
}

/// The percent encoding of the bytes.
pub open spec fn percent_encode_bytes(bs: Seq<u8>) -> Seq<char>
    decreases bs.len(),
{
    if bs.len() == 0 {
        Seq::empty()
    } else {
        percent_encode_bytes(bs.drop_last()) + percent_byte(bs.last())
    }
}

/// Calls `url::Url::parse` and reads the scheme, host and port (the error as its text).
#[verifier::external_body]
fn parse_url(s: &str) -> (r: Result<(String, Option<String>, Option<u16>), String>)
    ensures
        match url_parts(s@) {
            Ok((scheme, host, port)) => r matches Ok((a, b, c)) && a@ == scheme && opt_text(b)
                == host && c == port,
            Err(m) => r matches Err(e) && e@ == m,
        },
{
    match url::Url::parse(s) {
        Ok(u) => Ok((u.scheme().to_string(), u.host_str().map(|h| h.to_string()), u.port())),
        Err(e) => Err(e.to_string()),
    }
}

/// Calls `url::form_urlencoded::byte_serialize` on the text's UTF-8 bytes: letters,
/// digits and `*-._` stay, a space becomes `+`, every other byte becomes `%XX`.
#[verifier::external_body]
fn form_urlencode(s: &str) -> (r: String)
    ensures
        r@ == form_encode_bytes(encode_utf8(s@)),
{
    url::form_urlencoded::byte_serialize(s.as_bytes()).collect()
}

/// Calls `urlencoding::encode` on the text's UTF-8 bytes: letters, digits and `-._~`
/// stay, every other byte becomes `%XX`.
#[verifier::external_body]
fn percent_encode(s: &str) -> (r: String)
    ensures
        r@ == percent_encode_bytes(encode_utf8(s@)),
{
    urlencoding::encode(s).into_owned()
}

/// The origin of a URL: `scheme://host` and `:port` when the URL gives one.
pub open spec fn origin_spec(s: Seq<char>) -> Result<Seq<char>, Seq<char>> {
    match url_parts(s) {
        Err(e) => Err("invalid session url: "@ + e),
        Ok((scheme, host, port)) => Ok(
            scheme + "://"@ + match host {
                Some(h) => h,
                None => Seq::empty(),
            } + match port {
                Some(p) => seq![':'] + decimal(p as nat),
                None => Seq::empty(),
            },
        ),
    }
}

/// The origin (base URL) of a session URL.
pub fn parse_origin_from_session_url(session_url: &str) -> (r: Result<String, XinErrorOut>)
    ensures
        match origin_spec(session_url@) {
            Ok(o) => r matches Ok(s) && s@ == o,
            Err(m) => r matches Err(e) && e.is_config(m),
        },
{
    match parse_url(session_url) {
        Err(e) => {
            let mut m = chars_of("invalid session url: ");
            append_chars(&mut m, &chars_of(e.as_str()));
            Err(XinErrorOut::config(string_of(&m)))
        },
        Ok((scheme, host, port)) => {
            let mut v = chars_of(scheme.as_str());
            append_chars(&mut v, &chars_of("://"));
            match host {
                Some(h) => append_chars(&mut v, &chars_of(h.as_str())),
                None => {},
            }
            match port {
                Some(p) => {
                    v.push(':');
                    let d = chars_of(u64_text(p as u64).as_str());
                    let ghost before = v@;
                    append_chars(&mut v, &d);
                    assert(v@ =~= before.drop_last() + (seq![':'] + decimal(p as nat)));
                },
                None => {},
            }
            proof {
                assert(v@ =~= scheme@ + "://"@ + match opt_text(host) {
                    Some(h) => h,
                    None => Seq::empty(),
                } + match port {
                    Some(p) => seq![':'] + decimal(p as nat),
                    None => Seq::empty(),
                });
            }
            Ok(string_of(&v))
        },
    }
}

/// Whether a host is Fastmail's: `fastmail.com` itself or one of its subdomains.
pub open spec fn fastmail_host(h: Seq<char>) -> bool {
    h == "fastmail.com"@ || ".fastmail.com"@.is_suffix_of(h)
}

/// Whether the account is a Fastmail account: it is named `fastmail`, or the host of its
/// base URL is `fastmail.com` or a subdomain of it.
pub open spec fn is_fastmail_spec(account: Option<Seq<char>>, base_url: Seq<char>) -> bool {
    account == Some("fastmail"@) || match url_parts(base_url) {
        Ok((_, Some(h), _)) => fastmail_host(h),
        _ => false,
    }
}

/// Whether the account is a Fastmail account.
pub fn is_fastmail(resolved_account: Option<&str>, base_url: &str) -> (r: bool)
    ensures
        r == is_fastmail_spec(
            match resolved_account {
                Some(a) => Some(a@),
                None => None,
            },
            base_url@,
        ),
{
    if let Some(a) = resolved_account {
        if eq_chars(&chars_of(a), &chars_of("fastmail")) {
            return true;
        }
    }
    match parse_url(base_url) {
        Ok((_, Some(h), _)) => {
            let host = chars_of(h.as_str());
            eq_chars(&host, &chars_of("fastmail.com")) || ends_with(&host, &chars_of(".fastmail.com"))
        },
        _ => false,
    }
}

/// Encodes text for a URL query or path segment (form encoding).
pub fn url_encode(s: &str) -> (r: String)
    ensures
        r@ == form_encode_bytes(encode_utf8(s@)),
{
    form_urlencode(s)
}

/// The Fastmail web link that searches for a Message-ID.
pub fn fastmail_web_url_for_message_id(message_id: &str) -> (r: String)
    ensures
        r@ == "https://app.fastmail.com/mail/search:msgid:"@ + form_encode_bytes(
            encode_utf8(message_id@),
        ),
{
    let mut v = chars_of("https://app.fastmail.com/mail/search:msgid:");
    append_chars(&mut v, &chars_of(url_encode(message_id).as_str()));
    string_of(&v)
}

/// Whether `xin url` can run: it needs ids, and a Fastmail account.
pub fn check_url_request(id_count: usize) -> (r: Result<(), XinErrorOut>)
    ensures
        r is Ok <==> id_count > 0,
        r matches Err(e) ==> e.is_not_implemented(
            "url is Fastmail-only and requires one or more ids (threadId or emailId)"@,
        ),
{
    if id_count == 0 {
        Err(
            XinErrorOut::not_implemented(
                owned("url is Fastmail-only and requires one or more ids (threadId or emailId)"),
            ),
        )
    } else {
        Ok(())
    }
}

/// The refusal for an account that is not a Fastmail account.
pub fn not_fastmail_error() -> (e: XinErrorOut)
    ensures
        e.is_not_implemented("url is only supported for Fastmail accounts"@),
{
    XinErrorOut::not_implemented(owned("url is only supported for Fastmail accounts"))
}

/// What an id given to `xin url` stands for: a thread (its first email is used) when the
/// server knows it as a non-empty thread, else an email.
pub fn url_target(id: &str, thread_email_ids: &Option<Vec<String>>) -> (r: (bool, String))
    ensures
        match thread_email_ids {
            Some(ids) if ids@.len() > 0 => r.0 && r.1@ == ids@[0]@,
            _ => !r.0 && r.1@ == id@,
        },
{
    match thread_email_ids {
        Some(ids) if ids.len() > 0 => (true, owned(ids[0].as_str())),
        _ => (false, owned(id)),
    }
}

// ---------------------------------------------------------------- templates

/// `s` with every occurrence of `pat` (non-empty) replaced by `rep`, left to right.
pub open spec fn replace_all(s: Seq<char>, pat: Seq<char>, rep: Seq<char>) -> Seq<char>
    recommends
        pat.len() > 0,
    decreases s.len(),
{
    if s.len() == 0 || pat.len() == 0 {
        s
    } else if pat.is_prefix_of(s) {
        rep + replace_all(s.skip(pat.len() as int), pat, rep)
    } else {
        seq![s[0]] + replace_all(s.drop_first(), pat, rep)
    }
}

/// Replaces every occurrence of `pat` (non-empty) by `rep`.
pub fn replace_str(s: &str, pat: &str, rep: &str) -> (r: String)
    requires
        pat@.len() > 0,
    ensures
        r@ == replace_all(s@, pat@, rep@),
{
    let v = chars_of(s);
    let p = chars_of(pat);
    let rv = chars_of(rep);
    let mut out: Vec<char> = Vec::new();
    let mut i: usize = 0;
    assert(v@.skip(0) =~= v@);
    while i < v.len()
        invariant
            i <= v.len(),
            p@ == pat@,
            p@.len() > 0,
            v@ == s@,
            out@ + replace_all(v@.skip(i as int), p@, rv@) == replace_all(v@, p@, rv@),
        decreases v.len() - i,
    {
        let ghost rest = v@.skip(i as int);
        if crate::text::occurs_at_exec(&v, &p, i) {
            assert(p@.is_prefix_of(rest)) by {
                assert(rest.take(p@.len() as int) =~= v@.subrange(i as int, i as int + p@.len()));
            }
            assert(rest.skip(p@.len() as int) =~= v@.skip(i + p@.len()));
            append_chars(&mut out, &rv);
            assert(out@ + replace_all(v@.skip(i + p@.len()), p@, rv@) =~= (out@.subrange(
                0,
                out@.len() - rv@.len(),
            )) + replace_all(rest, p@, rv@));
            i = i + p.len();
        } else {
            assert(!p@.is_prefix_of(rest)) by {
                if p@.is_prefix_of(rest) {
                    assert(crate::text::occurs_at(v@, p@, i as int)) by {
                        assert(rest.take(p@.len() as int) =~= v@.subrange(
                            i as int,
                            i as int + p@.len(),
                        ));
                    }
                }
            }
            assert(rest.drop_first() =~= v@.skip(i + 1));
            let ghost before = out@;
            out.push(v[i]);
            assert(out@ + replace_all(v@.skip(i + 1), p@, rv@) =~= before + replace_all(
                rest,
                p@,
                rv@,
            ));
            i = i + 1;
        }
    }
    assert(v@.skip(v.len() as int) =~= Seq::<char>::empty());
    assert(out@ + Seq::<char>::empty() =~= out@);
    string_of(&out)
}

/// The JMAP session fields that `xin` uses.
#[derive(Debug)]
pub struct Session {
    pub api_url: String,
    pub download_url: String,
    pub upload_url: String,
    /// Primary account ids by capability.
    pub primary_accounts: Vec<(String, String)>,
}

/// The primary account for JMAP mail, if the session names one.
pub open spec fn mail_account_spec(accounts: Seq<(String, String)>) -> Option<Seq<char>>
    decreases accounts.len(),
{
    if accounts.len() == 0 {
        None
    } else if accounts[0].0@ == "urn:ietf:params:jmap:mail"@ {
        Some(accounts[0].1@)
    } else {
        mail_account_spec(accounts.drop_first())
    }
}

impl Session {
    /// The primary mail account id; a session without one is refused.
    pub fn mail_account_id(&self) -> (r: Result<String, XinErrorOut>)
        ensures
            match mail_account_spec(self.primary_accounts@) {
                Some(a) => r matches Ok(s) && s@ == a,
                None => r matches Err(e) && e.is_usage("session missing primaryAccounts for jmap:mail"@),
            },
    {
        let key = chars_of("urn:ietf:params:jmap:mail");
        let mut i: usize = 0;
        assert(self.primary_accounts@.skip(0) =~= self.primary_accounts@);
        while i < self.primary_accounts.len()
            invariant
                i <= self.primary_accounts.len(),
                key@ == "urn:ietf:params:jmap:mail"@,
                mail_account_spec(self.primary_accounts@) == mail_account_spec(
                    self.primary_accounts@.skip(i as int),
                ),
            decreases self.primary_accounts.len() - i,
        {
            assert(self.primary_accounts@.skip(i as int)[0] == self.primary_accounts@[i as int]);
            if eq_chars(&chars_of(self.primary_accounts[i].0.as_str()), &key) {
                return Ok(owned(self.primary_accounts[i].1.as_str()));
            }
            assert(self.primary_accounts@.skip(i as int).drop_first() =~= self.primary_accounts@.skip(
                i as int + 1,
            ));
            i += 1;
        }
        Err(XinErrorOut::usage(owned("session missing primaryAccounts for jmap:mail")))
    }

    /// The download URL for a blob: the session's template with `{accountId}`, `{blobId}`,
    /// `{name}` and `{type}` filled in (the last two percent-encoded), in that order.
    pub fn expand_download_url(&self, account_id: &str, blob_id: &str, name: &str, content_type: &str) -> (r: String)
        ensures
            r@ == replace_all(
                replace_all(
                    replace_all(
                        replace_all(self.download_url@, "{accountId}"@, account_id@),
                        "{blobId}"@,
                        blob_id@,
                    ),
                    "{name}"@,
                    percent_encode_bytes(encode_utf8(name@)),
                ),
                "{type}"@,
                percent_encode_bytes(encode_utf8(content_type@)),
            ),
    {
        proof {
            reveal_strlit("{accountId}");
            reveal_strlit("{blobId}");
            reveal_strlit("{name}");
            reveal_strlit("{type}");
        }
        let u = replace_str(self.download_url.as_str(), "{accountId}", account_id);
        let u = replace_str(u.as_str(), "{blobId}", blob_id);
        let n = percent_encode(name);
        let u = replace_str(u.as_str(), "{name}", n.as_str());
        let t = percent_encode(content_type);
        replace_str(u.as_str(), "{type}", t.as_str())
    }
}

} // verus!
