//! Process configuration, and discovery of custom mail servers.
//!
//! Discovery scans configuration key/value pairs for mail-server
//! definitions: one optional `default` entry under a fixed `DEFAULT` prefix,
//! and an open-ended number of per-domain entries recognized by keys ending
//! in `_IMAP_HOST`. A candidate is installed only when its six fields are
//! all present and valid; an incomplete or invalid candidate is silently
//! skipped. The one error case is a `default` entry whose six fields are
//! present but one of its port or boolean fields does not parse.

use vstd::prelude::*;

use crate::kvmap::assoc_map;
use crate::kvmap::keys_distinct;
use crate::kvmap::kv_get;
use crate::kvmap::kv_insert;
use crate::strutil::concat_str;
use crate::strutil::ends_with_str;
use crate::strutil::push_char;
use crate::strutil::str_eq;

verus! {

/// One mail server's connection parameters.
pub struct MailServerConfig {
    pub imap_host: String,
    pub imap_port: u16,
    pub imap_tls: bool,
    pub smtp_host: String,
    pub smtp_port: u16,
    pub smtp_secure: bool,
}

/// Mathematical model of a `MailServerConfig`.
pub ghost struct MailServerConfigV {
    pub imap_host: Seq<char>,
    pub imap_port: u16,
    pub imap_tls: bool,
    pub smtp_host: Seq<char>,
    pub smtp_port: u16,
    pub smtp_secure: bool,
}

impl View for MailServerConfig {
    type V = MailServerConfigV;

    open spec fn view(&self) -> MailServerConfigV {
        MailServerConfigV {
            imap_host: self.imap_host@,
            imap_port: self.imap_port,
            imap_tls: self.imap_tls,
            smtp_host: self.smtp_host@,
            smtp_port: self.smtp_port,
            smtp_secure: self.smtp_secure,
        }
    }
}

impl Clone for MailServerConfig {
    fn clone(&self) -> (r: Self)
        ensures
            r == *self,
    {
        MailServerConfig {
            imap_host: self.imap_host.clone(),
            imap_port: self.imap_port,
            imap_tls: self.imap_tls,
            smtp_host: self.smtp_host.clone(),
            smtp_port: self.smtp_port,
            smtp_secure: self.smtp_secure,
        }
    }
}

/// A `MailServerConfig` is well formed when its hosts are non-empty and its
/// ports are in the valid TCP port range.
pub open spec fn server_valid(c: MailServerConfigV) -> bool {
    c.imap_host.len() > 0 && c.smtp_host.len() > 0 && c.imap_port >= 1 && c.smtp_port >= 1
}

/// The process configuration. The fields other than `custom_mail_servers`
/// are read directly from the ambient configuration by the embedding
/// program; `custom_mail_servers` is built by `load_custom_mail_servers`.
pub struct Config {
    pub database_url: String,
    pub jwt_secret: String,
    pub api_access_token: String,
    pub server_host: String,
    pub server_port: u16,
    pub use_test_data: bool,
    pub custom_mail_servers: Vec<(String, MailServerConfig)>,
}

/// The one discovery-time failure: the reserved `default` entry has all six
/// fields present, but a port or boolean field among them does not parse.
#[derive(Clone, Copy, PartialEq, Eq, Structural, Debug)]
pub enum ConfigError {
    MalformedDefaultField,
}

// ---------------------------------------------------------------------------
// parsing of port and boolean fields
// ---------------------------------------------------------------------------

/// Is `c` a decimal digit?
pub open spec fn is_digit(c: char) -> bool {
    '0' <= c && c <= '9'
}

/// The value of a digit character.
pub open spec fn digit_val(c: char) -> int {
    c as u32 - 48
}

/// Every character of `s` is a decimal digit.
pub open spec fn all_digits(s: Seq<char>) -> bool {
    forall|i: int| 0 <= i < s.len() ==> is_digit(#[trigger] s[i])
}

/// The number denoted by a sequence of decimal digits.
pub open spec fn digits_val(s: Seq<char>) -> int
    decreases s.len(),
{
    if s.len() == 0 {
        0
    } else {
        digits_val(s.drop_last()) * 10 + digit_val(s.last())
    }
}

proof fn lemma_digits_val_nonneg(s: Seq<char>)
    requires
        all_digits(s),
    ensures
        digits_val(s) >= 0,
    decreases s.len(),
{
    if s.len() > 0 {
        assert(all_digits(s.drop_last()));
        lemma_digits_val_nonneg(s.drop_last());
    }
}

proof fn lemma_digits_val_prefix(s: Seq<char>, m: int)
    requires
        all_digits(s),
        0 <= m <= s.len(),
    ensures
        digits_val(s) >= digits_val(s.subrange(0, m)),
    decreases s.len() - m,
{
    if m == s.len() {
        assert(s.subrange(0, m) =~= s);
    } else {
        lemma_digits_val_prefix(s, m + 1);
        let p = s.subrange(0, m + 1);
        assert(p.drop_last() =~= s.subrange(0, m));
        assert(all_digits(s.subrange(0, m)));
        lemma_digits_val_nonneg(s.subrange(0, m));
        assert(digits_val(p) == digits_val(s.subrange(0, m)) * 10 + digit_val(s[m]));
    }
}

/// The digits of a numeric field, after an optional leading `+` sign.
pub open spec fn parse_body(s: Seq<char>) -> Seq<char> {
    if s.len() > 0 && s[0] == '+' {
        s.drop_first()
    } else {
        s
    }
}

/// The `u16` a numeric field denotes: an optional `+`, then at least one
/// decimal digit, with a value of at most 65535.
pub open spec fn spec_parse_u16(s: Seq<char>) -> Option<u16> {
    let body = parse_body(s);
    if body.len() > 0 && all_digits(body) && digits_val(body) <= 0xFFFF {
        Some(digits_val(body) as u16)
    } else {
        None
    }
}

/// The port a field denotes: a `u16` in the valid TCP port range `1..=65535`.
pub open spec fn spec_parse_port(s: Seq<char>) -> Option<u16> {
    match spec_parse_u16(s) {
        Some(p) => if p >= 1 {
            Some(p)
        } else {
            None
        },
        None => None,
    }
}

/// The boolean a field denotes: exactly `true` or `false`.
pub open spec fn spec_parse_bool(s: Seq<char>) -> Option<bool> {
    if s == "true"@ {
        Some(true)
    } else if s == "false"@ {
        Some(false)
    } else {
        None
    }
}

/// Parse a port field, rejecting anything outside `1..=65535`.
pub fn parse_port(s: &str) -> (r: Option<u16>)
    ensures
        r == spec_parse_port(s@),
{
    let n = s.unicode_len();
    let start: usize = if n > 0 && s.get_char(0) == '+' {
        1
    } else {
        0
    };
    let ghost body = parse_body(s@);
    proof {
        assert(body =~= s@.subrange(start as int, n as int));
    }
    if start >= n {
        return None;
    }
    let mut acc: u32 = 0;
    let mut i: usize = start;
    proof {
        assert(body.subrange(0, 0) =~= Seq::<char>::empty());
    }
    while i < n
        invariant
            n == s@.len(),
            start <= i <= n,
            start < n,
            body == s@.subrange(start as int, n as int),
            body =~= parse_body(s@),
            all_digits(body.subrange(0, i - start)),
            acc <= 0xFFFF,
            acc == digits_val(body.subrange(0, i - start)),
        decreases n - i,
    {
        let c = s.get_char(i);
        proof {
            assert(body[i - start] == c);
        }
        if !('0' <= c && c <= '9') {
            proof {
                assert(!is_digit(body[i - start]));
            }
            return None;
        }
        let d: u32 = (c as u32) - 48;
        let ghost p = body.subrange(0, i + 1 - start);
        proof {
            assert(p.drop_last() =~= body.subrange(0, i - start));
            assert(p.last() == body[i - start]);
            assert(all_digits(p));
        }
        let v: u32 = acc * 10 + d;
        if v > 0xFFFF {
            proof {
                if all_digits(body) && digits_val(body) <= 0xFFFF {
                    lemma_digits_val_prefix(body, (i + 1 - start) as int);
                }
            }
            return None;
        }
        acc = v;
        i = i + 1;
    }
    proof {
        assert(body.subrange(0, (n - start) as int) =~= body);
    }
    if acc == 0 {
        None
    } else {
        Some(acc as u16)
    }
}

/// Parse a boolean field: exactly `true` or `false`.
pub fn parse_bool(s: &str) -> (r: Option<bool>)
    ensures
        r == spec_parse_bool(s@),
{
    if str_eq(s, "true") {
        Some(true)
    } else if str_eq(s, "false") {
        Some(false)
    } else {
        None
    }
}

// ---------------------------------------------------------------------------
// the configuration namespace: key/value lookup
// ---------------------------------------------------------------------------

/// The value of the first pair of `vars` whose key is `key`, if any. The
/// configuration source hands each key at most once, so which match is
/// taken does not matter; first-match keeps the function total.
pub open spec fn spec_env_lookup(vars: Seq<(String, String)>, key: Seq<char>) -> Option<Seq<char>>
    decreases vars.len(),
{
    if vars.len() == 0 {
        None
    } else if vars[0].0@ == key {
        Some(vars[0].1@)
    } else {
        spec_env_lookup(vars.drop_first(), key)
    }
}

/// Look a key up among the configuration pairs.
pub fn env_lookup(vars: &Vec<(String, String)>, key: &str) -> (r: Option<String>)
    ensures
        r is Some <==> spec_env_lookup(vars@, key@) is Some,
        r matches Some(v) ==> Some(v@) == spec_env_lookup(vars@, key@),
{
    let n = vars.len();
    let mut i: usize = 0;
    proof {
        assert(vars@.subrange(0, n as int) =~= vars@);
    }
    while i < n
        invariant
            n == vars@.len(),
            i <= n,
            spec_env_lookup(vars@, key@) == spec_env_lookup(
                vars@.subrange(i as int, n as int),
                key@,
            ),
        decreases n - i,
    {
        let ghost tail = vars@.subrange(i as int, n as int);
        proof {
            assert(tail[0] == vars@[i as int]);
            assert(tail.drop_first() =~= vars@.subrange(i + 1, n as int));
        }
        if str_eq(vars[i].0.as_str(), key) {
            return Some(vars[i].1.clone());
        }
        i = i + 1;
    }
    None
}

/// Look up `prefix` followed by `suffix` among the configuration pairs.
pub fn lookup_with_suffix(vars: &Vec<(String, String)>, prefix: &str, suffix: &str) -> (r: Option<
    String,
>)
    ensures
        r is Some <==> spec_env_lookup(vars@, prefix@ + suffix@) is Some,
        r matches Some(v) ==> Some(v@) == spec_env_lookup(vars@, prefix@ + suffix@),
{
    let key = concat_str(prefix, suffix);
    env_lookup(vars, key.as_str())
}

// ---------------------------------------------------------------------------
// domain keys
// ---------------------------------------------------------------------------

/// How one character of a key prefix is turned into a character of a domain
/// name: `_` becomes the label separator `.`, an upper-case ASCII letter is
/// folded to lower case, and anything else is kept.
pub open spec fn domain_char(c: char) -> char {
    if c == '_' {
        '.'
    } else if 'A' <= c && c <= 'Z' {
        (((c as u32) + 32) as u8) as char
    } else {
        c
    }
}

/// The domain name derived from a key prefix, character by character.
pub open spec fn domain_seq(s: Seq<char>) -> Seq<char> {
    Seq::new(s.len(), |i: int| domain_char(s[i]))
}

/// Turn a configuration key prefix into the domain name it stands for.
pub fn to_domain_key(prefix: &str) -> (r: String)
    ensures
        r@ == domain_seq(prefix@),
{
    let n = prefix.unicode_len();
    let mut out = String::new();
    let mut i: usize = 0;
    while i < n
        invariant
            n == prefix@.len(),
            i <= n,
            out@ == domain_seq(prefix@).subrange(0, i as int),
        decreases n - i,
    {
        let c = prefix.get_char(i);
        let m: char = if c == '_' {
            '.'
        } else if 'A' <= c && c <= 'Z' {
            (((c as u32) + 32) as u8) as char
        } else {
            c
        };
        push_char(&mut out, m);
        proof {
            assert(out@ =~= domain_seq(prefix@).subrange(0, i + 1));
        }
        i = i + 1;
    }
    proof {
        assert(domain_seq(prefix@).subrange(0, n as int) =~= domain_seq(prefix@));
    }
    out
}

// ---------------------------------------------------------------------------
// candidate entries
// ---------------------------------------------------------------------------

/// The server definition denoted by six raw field strings, if all of them
/// are valid: ports in range, booleans exact, hosts non-empty.
pub open spec fn spec_server_of(
    imap_host: Seq<char>,
    imap_port: Seq<char>,
    imap_tls: Seq<char>,
    smtp_host: Seq<char>,
    smtp_port: Seq<char>,
    smtp_secure: Seq<char>,
) -> Option<MailServerConfigV> {
    match (spec_parse_port(imap_port), spec_parse_bool(imap_tls), spec_parse_port(smtp_port),
    spec_parse_bool(smtp_secure)) {
        (Some(ip), Some(it), Some(sp), Some(ss)) => if imap_host.len() > 0 && smtp_host.len()
            > 0 {
            Some(
                MailServerConfigV {
                    imap_host,
                    imap_port: ip,
                    imap_tls: it,
                    smtp_host,
                    smtp_port: sp,
                    smtp_secure: ss,
                },
            )
        } else {
            None
        },
        _ => None,
    }
}

/// The candidate server definition for a key prefix whose IMAP host field
/// holds `imap_host`: present when the five sibling fields can all be
/// looked up and all six fields are valid.
pub open spec fn spec_candidate(
    vars: Seq<(String, String)>,
    prefix: Seq<char>,
    imap_host: Seq<char>,
) -> Option<MailServerConfigV> {
    let p = spec_env_lookup(vars, prefix + "_IMAP_PORT"@);
    let t = spec_env_lookup(vars, prefix + "_IMAP_TLS"@);
    let sh = spec_env_lookup(vars, prefix + "_SMTP_HOST"@);
    let sp = spec_env_lookup(vars, prefix + "_SMTP_PORT"@);
    let ss = spec_env_lookup(vars, prefix + "_SMTP_SECURE"@);
    if p is Some && t is Some && sh is Some && sp is Some && ss is Some {
        spec_server_of(imap_host, p->0, t->0, sh->0, sp->0, ss->0)
    } else {
        None
    }
}

/// Build a server definition out of six raw field strings, if all are
/// valid.
fn try_build_server(
    imap_host: String,
    imap_port: &str,
    imap_tls: &str,
    smtp_host: String,
    smtp_port: &str,
    smtp_secure: &str,
) -> (r: Option<MailServerConfig>)
    ensures
        r is Some <==> spec_server_of(
            imap_host@,
            imap_port@,
            imap_tls@,
            smtp_host@,
            smtp_port@,
            smtp_secure@,
        ) is Some,
        r matches Some(c) ==> Some(c@) == spec_server_of(
            imap_host@,
            imap_port@,
            imap_tls@,
            smtp_host@,
            smtp_port@,
            smtp_secure@,
        ),
{
    let ip = parse_port(imap_port);
    let it = parse_bool(imap_tls);
    let sp = parse_port(smtp_port);
    let ss = parse_bool(smtp_secure);
    match (ip, it, sp, ss) {
        (Some(ip), Some(it), Some(sp), Some(ss)) => {
            if !imap_host.as_str().is_empty() && !smtp_host.as_str().is_empty() {
                Some(
                    MailServerConfig {
                        imap_host,
                        imap_port: ip,
                        imap_tls: it,
                        smtp_host,
                        smtp_port: sp,
                        smtp_secure: ss,
                    },
                )
            } else {
                None
            }
        },
        _ => None,
    }
}

// ---------------------------------------------------------------------------
// the discovered map
// ---------------------------------------------------------------------------

/// The fixed prefix of the reserved `default` entry's configuration keys.
pub open spec fn default_prefix() -> Seq<char> {
    "DEFAULT"@
}

/// All six fields of the reserved `default` entry are present.
pub open spec fn spec_default_present(vars: Seq<(String, String)>) -> bool {
    &&& spec_env_lookup(vars, default_prefix() + "_IMAP_HOST"@) is Some
    &&& spec_env_lookup(vars, default_prefix() + "_IMAP_PORT"@) is Some
    &&& spec_env_lookup(vars, default_prefix() + "_IMAP_TLS"@) is Some
    &&& spec_env_lookup(vars, default_prefix() + "_SMTP_HOST"@) is Some
    &&& spec_env_lookup(vars, default_prefix() + "_SMTP_PORT"@) is Some
    &&& spec_env_lookup(vars, default_prefix() + "_SMTP_SECURE"@) is Some
}

/// Discovery fails exactly when the `default` entry's six fields are all
/// present and one of its port or boolean fields does not parse.
pub open spec fn spec_default_malformed(vars: Seq<(String, String)>) -> bool {
    &&& spec_default_present(vars)
    &&& {
        ||| spec_parse_port(spec_env_lookup(vars, default_prefix() + "_IMAP_PORT"@)->0) is None
        ||| spec_parse_bool(spec_env_lookup(vars, default_prefix() + "_IMAP_TLS"@)->0) is None
        ||| spec_parse_port(spec_env_lookup(vars, default_prefix() + "_SMTP_PORT"@)->0) is None
        ||| spec_parse_bool(spec_env_lookup(vars, default_prefix() + "_SMTP_SECURE"@)->0) is None
    }
}

/// The server definition installed under the reserved `default` key, if
/// any.
pub open spec fn spec_default_candidate(vars: Seq<(String, String)>) -> Option<MailServerConfigV> {
    match spec_env_lookup(vars, default_prefix() + "_IMAP_HOST"@) {
        None => None,
        Some(h) => spec_candidate(vars, default_prefix(), h),
    }
}

/// The map discovery holds before scanning for per-domain entries: the
/// reserved `default` entry alone, when it is installed.
pub open spec fn spec_default_map(vars: Seq<(String, String)>) -> Map<Seq<char>, MailServerConfigV> {
    match spec_default_candidate(vars) {
        Some(c) => Map::empty().insert("default"@, c),
        None => Map::empty(),
    }
}

/// The suffix that marks a per-domain IMAP host key.
pub open spec fn imap_host_suffix() -> Seq<char> {
    "_IMAP_HOST"@
}

/// Does the key `k` end in the IMAP host suffix?
pub open spec fn is_imap_host_key(k: Seq<char>) -> bool {
    k.len() >= imap_host_suffix().len() && k.subrange(
        k.len() - imap_host_suffix().len(),
        k.len() as int,
    ) == imap_host_suffix()
}

/// The key `k` with the IMAP host suffix stripped.
pub open spec fn prefix_of(k: Seq<char>) -> Seq<char> {
    k.subrange(0, k.len() - imap_host_suffix().len())
}

/// The scan over the configuration pairs from position `i` on: each key
/// ending in the IMAP host suffix names a candidate domain, installed when
/// its five sibling fields are present and all six fields are valid, and
/// when the domain was not installed before (a domain key is installed at
/// most once).
pub open spec fn spec_scan(
    vars: Seq<(String, String)>,
    i: int,
    acc: Map<Seq<char>, MailServerConfigV>,
) -> Map<Seq<char>, MailServerConfigV>
    decreases vars.len() - i,
{
    if i < 0 || i >= vars.len() {
        acc
    } else {
        let k = vars[i].0@;
        let acc2 = if is_imap_host_key(k) && !acc.contains_key(domain_seq(prefix_of(k))) {
            match spec_candidate(vars, prefix_of(k), vars[i].1@) {
                Some(c) => acc.insert(domain_seq(prefix_of(k)), c),
                None => acc,
            }
        } else {
            acc
        };
        spec_scan(vars, i + 1, acc2)
    }
}

/// The whole discovered map: the reserved `default` entry, then every
/// per-domain candidate the scan installs.
pub open spec fn spec_discovered(vars: Seq<(String, String)>) -> Map<Seq<char>, MailServerConfigV> {
    spec_scan(vars, 0, spec_default_map(vars))
}

proof fn lemma_scan_servers_valid(
    vars: Seq<(String, String)>,
    i: int,
    acc: Map<Seq<char>, MailServerConfigV>,
)
    requires
        forall|k: Seq<char>| #[trigger] acc.contains_key(k) ==> server_valid(acc[k]),
    ensures
        forall|k: Seq<char>|
            #[trigger] spec_scan(vars, i, acc).contains_key(k) ==> server_valid(
                spec_scan(vars, i, acc)[k],
            ),
    decreases vars.len() - i,
{
    if 0 <= i < vars.len() {
        let k = vars[i].0@;
        if is_imap_host_key(k) && !acc.contains_key(domain_seq(prefix_of(k))) {
            match spec_candidate(vars, prefix_of(k), vars[i].1@) {
                Some(c) => {
                    assert(server_valid(c));
                    let acc2 = acc.insert(domain_seq(prefix_of(k)), c);
                    lemma_scan_servers_valid(vars, i + 1, acc2);
                    assert(spec_scan(vars, i, acc) == spec_scan(vars, i + 1, acc2));
                },
                None => {
                    lemma_scan_servers_valid(vars, i + 1, acc);
                    assert(spec_scan(vars, i, acc) == spec_scan(vars, i + 1, acc));
                },
            }
        } else {
            lemma_scan_servers_valid(vars, i + 1, acc);
            assert(spec_scan(vars, i, acc) == spec_scan(vars, i + 1, acc));
        }
    }
}

/// Every server definition discovery installs is well formed: non-empty
/// hosts and ports in the valid TCP port range.
pub proof fn lemma_discovered_servers_valid(vars: Seq<(String, String)>)
    ensures
        forall|k: Seq<char>|
            #[trigger] spec_discovered(vars).contains_key(k) ==> server_valid(
                spec_discovered(vars)[k],
            ),
{
    lemma_scan_servers_valid(vars, 0, spec_default_map(vars));
}

impl Config {
    /// Build the custom mail-server map from the configuration pairs.
    ///
    /// A candidate entry that is incomplete or invalid is silently skipped;
    /// the one error is a complete `default` entry with a malformed port or
    /// boolean field.
    pub fn load_custom_mail_servers(vars: &Vec<(String, String)>) -> (r: Result<
        Vec<(String, MailServerConfig)>,
        ConfigError,
    >)
        ensures
            match r {
                Ok(servers) => !spec_default_malformed(vars@) && keys_distinct(servers@)
                    && assoc_map(servers@) == spec_discovered(vars@),
                Err(e) => spec_default_malformed(vars@) && e == ConfigError::MalformedDefaultField,
            },
    {
        let mut servers: Vec<(String, MailServerConfig)> = Vec::new();

        // the reserved default entry
        let dh = lookup_with_suffix(vars, "DEFAULT", "_IMAP_HOST");
        let dp = lookup_with_suffix(vars, "DEFAULT", "_IMAP_PORT");
        let dt = lookup_with_suffix(vars, "DEFAULT", "_IMAP_TLS");
        let dsh = lookup_with_suffix(vars, "DEFAULT", "_SMTP_HOST");
        let dsp = lookup_with_suffix(vars, "DEFAULT", "_SMTP_PORT");
        let dss = lookup_with_suffix(vars, "DEFAULT", "_SMTP_SECURE");
        match (dh, dp, dt, dsh, dsp, dss) {
            (Some(dh), Some(dp), Some(dt), Some(dsh), Some(dsp), Some(dss)) => {
                if parse_port(dp.as_str()).is_none() || parse_bool(dt.as_str()).is_none()
                    || parse_port(dsp.as_str()).is_none() || parse_bool(dss.as_str()).is_none() {
                    return Err(ConfigError::MalformedDefaultField);
                }
                if let Some(cfg) = try_build_server(
                    dh,
                    dp.as_str(),
                    dt.as_str(),
                    dsh,
                    dsp.as_str(),
                    dss.as_str(),
                ) {
                    kv_insert(&mut servers, String::from_str("default"), cfg);
                }
            },
            _ => {},
        }
        proof {
            assert(assoc_map(servers@) == spec_default_map(vars@));
            assert(!spec_default_malformed(vars@));
        }

        // the per-domain entries
        let n = vars.len();
        let mut i: usize = 0;
        while i < n
            invariant
                n == vars@.len(),
                i <= n,
                keys_distinct(servers@),
                !spec_default_malformed(vars@),
                spec_scan(vars@, i as int, assoc_map(servers@)) == spec_discovered(vars@),
            decreases n - i,
        {
            let ghost before = assoc_map(servers@);
            let key: &String = &vars[i].0;
            if ends_with_str(key.as_str(), "_IMAP_HOST") {
                let klen = key.as_str().unicode_len();
                let slen = "_IMAP_HOST".unicode_len();
                let prefix = key.as_str().substring_char(0, klen - slen);
                proof {
                    assert(prefix@ == prefix_of(key@));
                }
                let d = to_domain_key(prefix);
                if kv_get(&servers, d.as_str()).is_none() {
                    let p = lookup_with_suffix(vars, prefix, "_IMAP_PORT");
                    let t = lookup_with_suffix(vars, prefix, "_IMAP_TLS");
                    let sh = lookup_with_suffix(vars, prefix, "_SMTP_HOST");
                    let sp = lookup_with_suffix(vars, prefix, "_SMTP_PORT");
                    let ss = lookup_with_suffix(vars, prefix, "_SMTP_SECURE");
                    match (p, t, sh, sp, ss) {
                        (Some(p), Some(t), Some(sh), Some(sp), Some(ss)) => {
                            let imap_host = vars[i].1.clone();
                            if let Some(cfg) = try_build_server(
                                imap_host,
                                p.as_str(),
                                t.as_str(),
                                sh,
                                sp.as_str(),
                                ss.as_str(),
                            ) {
                                kv_insert(&mut servers, d, cfg);
                            }
                        },
                        _ => {},
                    }
                }
            }
            proof {
                assert(spec_scan(vars@, i as int, before) == spec_scan(
                    vars@,
                    i + 1,
                    assoc_map(servers@),
                ));
            }
            i = i + 1;
        }
        Ok(servers)
    }
}

} // verus!
