//! The mail-provider resolution engine.
//!
//! The engine holds a built-in catalog of well-known providers and the
//! custom server map discovery produced, and resolves any email address to
//! a single endpoint configuration by a fixed precedence: exact catalog
//! match, custom server match, self-hosted heuristic, custom default
//! fallback, generic fallback.

use vstd::prelude::*;

use crate::config::MailServerConfig;
use crate::config::MailServerConfigV;
use crate::kvmap::assoc_map;
use crate::kvmap::keys_distinct;
use crate::kvmap::kv_get;
use crate::kvmap::kv_insert;
use crate::kvmap::lemma_assoc_contains_key_index;
use crate::kvmap::lemma_assoc_index;
use crate::strutil::concat_str;
use crate::strutil::replace_all;
use crate::strutil::replace_spec;
use crate::strutil::str_eq;
use crate::utils::domain_of;
use crate::utils::spec_domain_of;

verus! {

/// IMAP connection parameters of a provider.
pub struct ImapConfig {
    pub host: String,
    pub port: u16,
    pub tls: bool,
}

/// Mathematical model of an `ImapConfig`.
pub ghost struct ImapConfigV {
    pub host: Seq<char>,
    pub port: u16,
    pub tls: bool,
}

impl View for ImapConfig {
    type V = ImapConfigV;

    open spec fn view(&self) -> ImapConfigV {
        ImapConfigV { host: self.host@, port: self.port, tls: self.tls }
    }
}

impl Clone for ImapConfig {
    fn clone(&self) -> (r: Self)
        ensures
            r == *self,
    {
        ImapConfig { host: self.host.clone(), port: self.port, tls: self.tls }
    }
}

/// SMTP connection parameters of a provider.
pub struct SmtpConfig {
    pub host: String,
    pub port: u16,
    pub secure: bool,
}

/// Mathematical model of an `SmtpConfig`.
pub ghost struct SmtpConfigV {
    pub host: Seq<char>,
    pub port: u16,
    pub secure: bool,
}

impl View for SmtpConfig {
    type V = SmtpConfigV;

    open spec fn view(&self) -> SmtpConfigV {
        SmtpConfigV { host: self.host@, port: self.port, secure: self.secure }
    }
}

impl Clone for SmtpConfig {
    fn clone(&self) -> (r: Self)
        ensures
            r == *self,
    {
        SmtpConfig { host: self.host.clone(), port: self.port, secure: self.secure }
    }
}

/// A displayable provider entry: endpoints plus a human-readable name.
pub struct EmailProviderConfig {
    pub imap: ImapConfig,
    pub smtp: SmtpConfig,
    pub display_name: String,
}

/// Mathematical model of an `EmailProviderConfig`.
pub ghost struct EmailProviderConfigV {
    pub imap: ImapConfigV,
    pub smtp: SmtpConfigV,
    pub display_name: Seq<char>,
}

impl View for EmailProviderConfig {
    type V = EmailProviderConfigV;

    open spec fn view(&self) -> EmailProviderConfigV {
        EmailProviderConfigV {
            imap: self.imap@,
            smtp: self.smtp@,
            display_name: self.display_name@,
        }
    }
}

impl Clone for EmailProviderConfig {
    fn clone(&self) -> (r: Self)
        ensures
            r == *self,
    {
        EmailProviderConfig {
            imap: self.imap.clone(),
            smtp: self.smtp.clone(),
            display_name: self.display_name.clone(),
        }
    }
}

/// One row of the flattened provider listing.
pub struct ProviderInfo {
    pub domain: String,
    pub display_name: String,
    pub imap_host: String,
    pub imap_port: u16,
    pub smtp_host: String,
    pub smtp_port: u16,
}

/// Mathematical model of a `ProviderInfo`.
pub ghost struct ProviderInfoV {
    pub domain: Seq<char>,
    pub display_name: Seq<char>,
    pub imap_host: Seq<char>,
    pub imap_port: u16,
    pub smtp_host: Seq<char>,
    pub smtp_port: u16,
}

impl View for ProviderInfo {
    type V = ProviderInfoV;

    open spec fn view(&self) -> ProviderInfoV {
        ProviderInfoV {
            domain: self.domain@,
            display_name: self.display_name@,
            imap_host: self.imap_host@,
            imap_port: self.imap_port,
            smtp_host: self.smtp_host@,
            smtp_port: self.smtp_port,
        }
    }
}

// ---------------------------------------------------------------------------
// distinguished keys and the built-in catalog
// ---------------------------------------------------------------------------

/// The wildcard catalog key holding the generic fallback entry.
pub open spec fn wildcard_key() -> Seq<char> {
    "*"@
}

/// The organization's own primary domain.
pub open spec fn sge_domain() -> Seq<char> {
    "skygenesisenterprise.com"@
}

/// The organization's own mail host.
pub open spec fn sge_mail_host() -> Seq<char> {
    "mail.skygenesisenterprise.com"@
}

/// The reserved key of the custom server map's fallback entry.
pub open spec fn default_key() -> Seq<char> {
    "default"@
}

/// The placeholder token of the wildcard entry's host templates.
pub open spec fn domain_placeholder() -> Seq<char> {
    "{domain}"@
}

/// The display-name suffix of a domain resolved by the self-hosted
/// heuristic.
pub open spec fn self_hosted_suffix() -> Seq<char> {
    " (self-hosted)"@
}

/// The display-name suffix of a custom server in the provider listing.
pub open spec fn custom_suffix() -> Seq<char> {
    " (custom)"@
}

/// The catalog entry of the organization's own domain.
pub open spec fn sge_entry() -> EmailProviderConfigV {
    EmailProviderConfigV {
        imap: ImapConfigV { host: "mail.skygenesisenterprise.com"@, port: 993, tls: true },
        smtp: SmtpConfigV { host: "mail.skygenesisenterprise.com"@, port: 587, secure: true },
        display_name: "Sky Genesis Enterprise"@,
    }
}

/// The generic fallback entry, with the placeholder token in both host
/// templates.
pub open spec fn wildcard_entry() -> EmailProviderConfigV {
    EmailProviderConfigV {
        imap: ImapConfigV { host: "imap.{domain}"@, port: 993, tls: true },
        smtp: SmtpConfigV { host: "smtp.{domain}"@, port: 587, secure: true },
        display_name: "Generic"@,
    }
}

/// The full built-in catalog: the organization's own domain, six well-known
/// public providers, and the wildcard entry.
pub open spec fn builtin_catalog() -> Map<Seq<char>, EmailProviderConfigV> {
    Map::empty().insert("skygenesisenterprise.com"@, sge_entry()).insert(
        "gmail.com"@,
        EmailProviderConfigV {
            imap: ImapConfigV { host: "imap.gmail.com"@, port: 993, tls: true },
            smtp: SmtpConfigV { host: "smtp.gmail.com"@, port: 587, secure: true },
            display_name: "Gmail"@,
        },
    ).insert(
        "outlook.com"@,
        EmailProviderConfigV {
            imap: ImapConfigV { host: "outlook.office365.com"@, port: 993, tls: true },
            smtp: SmtpConfigV { host: "smtp-mail.outlook.com"@, port: 587, secure: false },
            display_name: "Outlook"@,
        },
    ).insert(
        "hotmail.com"@,
        EmailProviderConfigV {
            imap: ImapConfigV { host: "outlook.office365.com"@, port: 993, tls: true },
            smtp: SmtpConfigV { host: "smtp-mail.outlook.com"@, port: 587, secure: false },
            display_name: "Hotmail"@,
        },
    ).insert(
        "live.com"@,
        EmailProviderConfigV {
            imap: ImapConfigV { host: "outlook.office365.com"@, port: 993, tls: true },
            smtp: SmtpConfigV { host: "smtp-mail.outlook.com"@, port: 587, secure: false },
            display_name: "Live"@,
        },
    ).insert(
        "yahoo.com"@,
        EmailProviderConfigV {
            imap: ImapConfigV { host: "imap.mail.yahoo.com"@, port: 993, tls: true },
            smtp: SmtpConfigV { host: "smtp.mail.yahoo.com"@, port: 587, secure: true },
            display_name: "Yahoo"@,
        },
    ).insert(
        "aol.com"@,
        EmailProviderConfigV {
            imap: ImapConfigV { host: "imap.aol.com"@, port: 993, tls: true },
            smtp: SmtpConfigV { host: "smtp.aol.com"@, port: 587, secure: true },
            display_name: "AOL"@,
        },
    ).insert("*"@, wildcard_entry())
}

// ---------------------------------------------------------------------------
// the engine
// ---------------------------------------------------------------------------

/// The resolution engine: the built-in provider catalog plus the custom
/// server map.
///
/// Resolution is a pure read; the registration operations take `&mut
/// self`, so Rust's aliasing rules serialize them against concurrent
/// reads. A multi-threaded server that registers at runtime shares the
/// engine behind a read/write lock.
pub struct ImapService {
    providers: Vec<(String, EmailProviderConfig)>,
    custom_servers: Vec<(String, MailServerConfig)>,
}

/// Mathematical model of the engine: two maps from domain name to entry.
pub ghost struct ImapServiceV {
    pub providers: Map<Seq<char>, EmailProviderConfigV>,
    pub custom_servers: Map<Seq<char>, MailServerConfigV>,
}

impl View for ImapService {
    type V = ImapServiceV;

    closed spec fn view(&self) -> ImapServiceV {
        ImapServiceV {
            providers: assoc_map(self.providers@),
            custom_servers: assoc_map(self.custom_servers@),
        }
    }
}

/// The model-level invariant: the catalog holds the organization's own
/// entry and the wildcard entry, so every branch of the precedence chain
/// can deliver.
pub open spec fn inv_v(v: ImapServiceV) -> bool {
    v.providers.contains_key(sge_domain()) && v.providers.contains_key(wildcard_key())
}

impl ImapService {
    /// Well-formedness: both association lists have distinct keys and the
    /// catalog holds the two distinguished entries.
    pub closed spec fn wf(&self) -> bool {
        keys_distinct(self.providers@) && keys_distinct(self.custom_servers@) && inv_v(self@)
    }

    /// A well-formed engine satisfies the model-level invariant.
    pub proof fn lemma_wf_inv(&self)
        requires
            self.wf(),
        ensures
            inv_v(self@),
    {
    }
}

/// Build an entry of the catalog from its literal parts.
fn make_entry(
    imap_host: &str,
    imap_port: u16,
    tls: bool,
    smtp_host: &str,
    smtp_port: u16,
    secure: bool,
    display_name: &str,
) -> (r: EmailProviderConfig)
    ensures
        r@ == (EmailProviderConfigV {
            imap: ImapConfigV { host: imap_host@, port: imap_port, tls },
            smtp: SmtpConfigV { host: smtp_host@, port: smtp_port, secure },
            display_name: display_name@,
        }),
{
    EmailProviderConfig {
        imap: ImapConfig { host: String::from_str(imap_host), port: imap_port, tls },
        smtp: SmtpConfig { host: String::from_str(smtp_host), port: smtp_port, secure },
        display_name: String::from_str(display_name),
    }
}

impl ImapService {
    /// An engine over the built-in catalog alone, with no custom servers.
    pub fn new() -> (r: Self)
        ensures
            r.wf(),
            r@.providers == builtin_catalog(),
            r@.custom_servers == Map::<Seq<char>, MailServerConfigV>::empty(),
    {
        Self::new_with_custom_servers(Vec::new())
    }

    /// An engine over the built-in catalog plus the given custom servers.
    /// When two pairs carry the same domain, the later one wins, as under
    /// repeated insertion.
    pub fn new_with_custom_servers(custom_servers: Vec<(String, MailServerConfig)>) -> (r: Self)
        ensures
            r.wf(),
            r@.providers == builtin_catalog(),
            r@.custom_servers == assoc_map(custom_servers@),
    {
        let mut providers: Vec<(String, EmailProviderConfig)> = Vec::new();

        kv_insert(
            &mut providers,
            String::from_str("skygenesisenterprise.com"),
            make_entry(
                "mail.skygenesisenterprise.com",
                993,
                true,
                "mail.skygenesisenterprise.com",
                587,
                true,
                "Sky Genesis Enterprise",
            ),
        );
        kv_insert(
            &mut providers,
            String::from_str("gmail.com"),
            make_entry("imap.gmail.com", 993, true, "smtp.gmail.com", 587, true, "Gmail"),
        );
        kv_insert(
            &mut providers,
            String::from_str("outlook.com"),
            make_entry(
                "outlook.office365.com",
                993,
                true,
                "smtp-mail.outlook.com",
                587,
                false,
                "Outlook",
            ),
        );
        kv_insert(
            &mut providers,
            String::from_str("hotmail.com"),
            make_entry(
                "outlook.office365.com",
                993,
                true,
                "smtp-mail.outlook.com",
                587,
                false,
                "Hotmail",
            ),
        );
        kv_insert(
            &mut providers,
            String::from_str("live.com"),
            make_entry(
                "outlook.office365.com",
                993,
                true,
                "smtp-mail.outlook.com",
                587,
                false,
                "Live",
            ),
        );
        kv_insert(
            &mut providers,
            String::from_str("yahoo.com"),
            make_entry(
                "imap.mail.yahoo.com",
                993,
                true,
                "smtp.mail.yahoo.com",
                587,
                true,
                "Yahoo",
            ),
        );
        kv_insert(
            &mut providers,
            String::from_str("aol.com"),
            make_entry("imap.aol.com", 993, true, "smtp.aol.com", 587, true, "AOL"),
        );
        kv_insert(
            &mut providers,
            String::from_str("*"),
            make_entry("imap.{domain}", 993, true, "smtp.{domain}", 587, true, "Generic"),
        );

        let mut cs: Vec<(String, MailServerConfig)> = Vec::new();
        let m = custom_servers.len();
        let mut i: usize = 0;
        proof {
            assert(custom_servers@.subrange(0, 0) =~= Seq::<(String, MailServerConfig)>::empty());
        }
        while i < m
            invariant
                m == custom_servers@.len(),
                i <= m,
                keys_distinct(cs@),
                assoc_map(cs@) == assoc_map(custom_servers@.subrange(0, i as int)),
            decreases m - i,
        {
            let key = custom_servers[i].0.clone();
            let value = custom_servers[i].1.clone();
            proof {
                crate::kvmap::lemma_assoc_push(
                    custom_servers@.subrange(0, i as int),
                    custom_servers@[i as int],
                );
                assert(custom_servers@.subrange(0, i + 1) =~= custom_servers@.subrange(
                    0,
                    i as int,
                ).push(custom_servers@[i as int]));
            }
            kv_insert(&mut cs, key, value);
            i = i + 1;
        }
        proof {
            assert(custom_servers@.subrange(0, m as int) =~= custom_servers@);
        }

        ImapService { providers, custom_servers: cs }
    }
}

// ---------------------------------------------------------------------------
// resolution
// ---------------------------------------------------------------------------

/// The well-known public webmail domains excluded by the self-hosted
/// heuristic.
pub open spec fn excluded_domains() -> Set<Seq<char>> {
    set![
        "gmail.com"@,
        "outlook.com"@,
        "hotmail.com"@,
        "live.com"@,
        "yahoo.com"@,
        "aol.com"@,
        "icloud.com"@,
        "me.com"@,
    ]
}

/// The self-hosted heuristic: a domain is presumed to live on the
/// organization's own infrastructure unless it is a well-known public
/// provider, the wildcard key, or the organization's primary domain
/// itself. The assumption is closed-world and optimistic, not
/// authoritative.
pub open spec fn spec_is_sky_genesis_domain(d: Seq<char>) -> bool {
    !excluded_domains().contains(d) && d != wildcard_key() && d != sge_domain()
}

/// The entry synthesized for a domain found in the custom server map: its
/// stored endpoints, under the domain itself as display name.
pub open spec fn synthesized_entry(s: MailServerConfigV, d: Seq<char>) -> EmailProviderConfigV {
    EmailProviderConfigV {
        imap: ImapConfigV { host: s.imap_host, port: s.imap_port, tls: s.imap_tls },
        smtp: SmtpConfigV { host: s.smtp_host, port: s.smtp_port, secure: s.smtp_secure },
        display_name: d,
    }
}

/// The entry returned for a domain judged self-hosted: the organization's
/// own entry, with the display name rewritten.
pub open spec fn self_hosted_entry(base: EmailProviderConfigV, d: Seq<char>) -> EmailProviderConfigV {
    EmailProviderConfigV {
        imap: base.imap,
        smtp: base.smtp,
        display_name: d + self_hosted_suffix(),
    }
}

/// The generic fallback entry for a domain: the wildcard entry with the
/// placeholder token of both host templates replaced by the domain, under
/// the domain as display name.
pub open spec fn generic_entry(base: EmailProviderConfigV, d: Seq<char>) -> EmailProviderConfigV {
    EmailProviderConfigV {
        imap: ImapConfigV {
            host: replace_spec(base.imap.host, domain_placeholder(), d),
            port: base.imap.port,
            tls: base.imap.tls,
        },
        smtp: SmtpConfigV {
            host: replace_spec(base.smtp.host, domain_placeholder(), d),
            port: base.smtp.port,
            secure: base.smtp.secure,
        },
        display_name: d,
    }
}

/// The precedence chain, for an address whose domain is `d`: exact catalog
/// match (the wildcard key never matches exactly), custom server match,
/// self-hosted heuristic, custom default fallback, generic fallback. Each
/// step short-circuits the later ones.
pub open spec fn spec_resolve_domain(v: ImapServiceV, d: Seq<char>) -> EmailProviderConfigV {
    if d != wildcard_key() && v.providers.contains_key(d) {
        v.providers[d]
    } else if v.custom_servers.contains_key(d) {
        synthesized_entry(v.custom_servers[d], d)
    } else if spec_is_sky_genesis_domain(d) {
        self_hosted_entry(v.providers[sge_domain()], d)
    } else if v.custom_servers.contains_key(default_key()) {
        synthesized_entry(v.custom_servers[default_key()], d)
    } else {
        generic_entry(v.providers[wildcard_key()], d)
    }
}

/// What `resolve` returns for a whole address: nothing when the address
/// has no domain, else the entry of the precedence chain.
pub open spec fn spec_resolve(v: ImapServiceV, email: Seq<char>) -> Option<EmailProviderConfigV> {
    match spec_domain_of(email) {
        None => None,
        Some(d) => Some(spec_resolve_domain(v, d)),
    }
}

impl ImapService {
    /// The self-hosted heuristic on a raw domain string.
    pub fn is_sky_genesis_domain(&self, domain: &str) -> (r: bool)
        ensures
            r == spec_is_sky_genesis_domain(domain@),
    {
        let excluded = str_eq(domain, "gmail.com") || str_eq(domain, "outlook.com") || str_eq(
            domain,
            "hotmail.com",
        ) || str_eq(domain, "live.com") || str_eq(domain, "yahoo.com") || str_eq(
            domain,
            "aol.com",
        ) || str_eq(domain, "icloud.com") || str_eq(domain, "me.com");
        !excluded && !str_eq(domain, "*") && !str_eq(domain, "skygenesisenterprise.com")
    }

    /// Resolve an email address to the provider entry the precedence chain
    /// selects; `None` exactly when the address has no domain.
    ///
    /// Domain comparison is case-sensitive: no normalization is applied at
    /// lookup time, so a domain is found under exactly the key it was
    /// stored under. Discovery lower-cases the keys it derives.
    pub fn get_provider_config(&self, email: &str) -> (r: Option<EmailProviderConfig>)
        requires
            self.wf(),
        ensures
            r is Some <==> spec_domain_of(email@) is Some,
            r matches Some(c) ==> Some(c@) == spec_resolve(self@, email@),
    {
        let domain = match domain_of(email) {
            None => {
                return None;
            },
            Some(d) => d,
        };

        // exact catalog match, the wildcard key aside
        if !str_eq(domain, "*") {
            if let Some(entry) = kv_get(&self.providers, domain) {
                return Some(entry.clone());
            }
        }

        // custom server match
        if let Some(custom) = kv_get(&self.custom_servers, domain) {
            return Some(
                EmailProviderConfig {
                    imap: ImapConfig {
                        host: custom.imap_host.clone(),
                        port: custom.imap_port,
                        tls: custom.imap_tls,
                    },
                    smtp: SmtpConfig {
                        host: custom.smtp_host.clone(),
                        port: custom.smtp_port,
                        secure: custom.smtp_secure,
                    },
                    display_name: String::from_str(domain),
                },
            );
        }

        // self-hosted heuristic
        if self.is_sky_genesis_domain(domain) {
            let base = match kv_get(&self.providers, "skygenesisenterprise.com") {
                Some(e) => e,
                None => {
                    return vstd::pervasive::unreached();
                },
            };
            return Some(
                EmailProviderConfig {
                    imap: base.imap.clone(),
                    smtp: base.smtp.clone(),
                    display_name: concat_str(domain, " (self-hosted)"),
                },
            );
        }

        // custom default fallback
        if let Some(dflt) = kv_get(&self.custom_servers, "default") {
            return Some(
                EmailProviderConfig {
                    imap: ImapConfig {
                        host: dflt.imap_host.clone(),
                        port: dflt.imap_port,
                        tls: dflt.imap_tls,
                    },
                    smtp: SmtpConfig {
                        host: dflt.smtp_host.clone(),
                        port: dflt.smtp_port,
                        secure: dflt.smtp_secure,
                    },
                    display_name: String::from_str(domain),
                },
            );
        }

        // generic fallback from the wildcard entry
        proof {
            reveal_strlit("{domain}");
        }
        let base = match kv_get(&self.providers, "*") {
            Some(e) => e,
            None => {
                return vstd::pervasive::unreached();
            },
        };
        Some(
            EmailProviderConfig {
                imap: ImapConfig {
                    host: replace_all(base.imap.host.as_str(), "{domain}", domain),
                    port: base.imap.port,
                    tls: base.imap.tls,
                },
                smtp: SmtpConfig {
                    host: replace_all(base.smtp.host.as_str(), "{domain}", domain),
                    port: base.smtp.port,
                    secure: base.smtp.secure,
                },
                display_name: String::from_str(domain),
            },
        )
    }

    /// The IMAP side of what `get_provider_config` resolves.
    pub fn get_imap_config(&self, email: &str) -> (r: Option<ImapConfig>)
        requires
            self.wf(),
        ensures
            r is Some <==> spec_domain_of(email@) is Some,
            r matches Some(c) ==> Some(c@) == (match spec_resolve(self@, email@) {
                Some(e) => Some(e.imap),
                None => None::<ImapConfigV>,
            }),
    {
        match self.get_provider_config(email) {
            Some(config) => Some(config.imap),
            None => None,
        }
    }

    /// The SMTP side of what `get_provider_config` resolves.
    pub fn get_smtp_config(&self, email: &str) -> (r: Option<SmtpConfig>)
        requires
            self.wf(),
        ensures
            r is Some <==> spec_domain_of(email@) is Some,
            r matches Some(c) ==> Some(c@) == (match spec_resolve(self@, email@) {
                Some(e) => Some(e.smtp),
                None => None::<SmtpConfigV>,
            }),
    {
        match self.get_provider_config(email) {
            Some(config) => Some(config.smtp),
            None => None,
        }
    }
}

// ---------------------------------------------------------------------------
// runtime registration and the derived listings
// ---------------------------------------------------------------------------

/// One row of the flattened listing for a catalog entry: the domain, under
/// the entry's own display name.
pub open spec fn provider_info_of(d: Seq<char>, e: EmailProviderConfigV) -> ProviderInfoV {
    ProviderInfoV {
        domain: d,
        display_name: e.display_name,
        imap_host: e.imap.host,
        imap_port: e.imap.port,
        smtp_host: e.smtp.host,
        smtp_port: e.smtp.port,
    }
}

/// One row of the flattened listing for a custom server: the domain, with
/// the custom suffix appended to its display name.
pub open spec fn custom_info_of(d: Seq<char>, s: MailServerConfigV) -> ProviderInfoV {
    ProviderInfoV {
        domain: d,
        display_name: d + custom_suffix(),
        imap_host: s.imap_host,
        imap_port: s.imap_port,
        smtp_host: s.smtp_host,
        smtp_port: s.smtp_port,
    }
}

/// A row of the flattened listing that restates a catalog entry.
pub open spec fn is_catalog_item(p: ProviderInfoV, v: ImapServiceV) -> bool {
    v.providers.contains_key(p.domain) && p.domain != wildcard_key() && p == provider_info_of(
        p.domain,
        v.providers[p.domain],
    )
}

/// A row of the flattened listing that restates a custom server.
pub open spec fn is_custom_item(p: ProviderInfoV, v: ImapServiceV) -> bool {
    v.custom_servers.contains_key(p.domain) && p.domain != default_key() && p == custom_info_of(
        p.domain,
        v.custom_servers[p.domain],
    )
}

/// The flattened listing holds exactly one row for each catalog entry but
/// the wildcard, and one for each custom server but the reserved default,
/// and nothing else.
pub open spec fn supported_listing(r: Seq<ProviderInfo>, v: ImapServiceV) -> bool {
    &&& forall|i: int|
        0 <= i < r.len() ==> is_catalog_item((#[trigger] r[i])@, v) || is_custom_item(r[i]@, v)
    &&& forall|k: Seq<char>|
        #[trigger] v.providers.contains_key(k) && k != wildcard_key() ==> exists|i: int|
            0 <= i < r.len() && (#[trigger] r[i])@ == provider_info_of(k, v.providers[k])
    &&& forall|k: Seq<char>|
        #[trigger] v.custom_servers.contains_key(k) && k != default_key() ==> exists|i: int|
            0 <= i < r.len() && (#[trigger] r[i])@ == custom_info_of(k, v.custom_servers[k])
}

/// `r` lists, in some order and each exactly once, the catalog keys other
/// than the organization's own domain whose IMAP host is the
/// organization's own mail host.
pub open spec fn sky_domains_listing(r: Seq<String>, m: Map<Seq<char>, EmailProviderConfigV>) -> bool {
    &&& forall|i: int|
        0 <= i < r.len() ==> m.contains_key((#[trigger] r[i])@) && r[i]@ != sge_domain() && m[r[i]@].imap.host
            == sge_mail_host()
    &&& forall|k: Seq<char>|
        #[trigger] m.contains_key(k) && k != sge_domain() && m[k].imap.host == sge_mail_host()
            ==> exists|i: int| 0 <= i < r.len() && (#[trigger] r[i])@ == k
    &&& forall|i: int, j: int| 0 <= i < j < r.len() ==> (#[trigger] r[i])@ != (#[trigger] r[j])@
}

impl ImapService {
    /// Register a provider entry under a domain, overwriting any entry the
    /// catalog held for it.
    pub fn add_custom_provider(&mut self, domain: String, config: EmailProviderConfig)
        requires
            old(self).wf(),
        ensures
            final(self).wf(),
            final(self)@.providers == old(self)@.providers.insert(domain@, config@),
            final(self)@.custom_servers == old(self)@.custom_servers,
    {
        kv_insert(&mut self.providers, domain, config);
    }

    /// Promote a domain to the organization's own infrastructure: register
    /// the organization's entry under it, with the display name rewritten
    /// to mark it self-hosted.
    pub fn add_sky_genesis_domain(&mut self, domain: String)
        requires
            old(self).wf(),
        ensures
            final(self).wf(),
            final(self)@.providers == old(self)@.providers.insert(
                domain@,
                self_hosted_entry(old(self)@.providers[sge_domain()], domain@),
            ),
            final(self)@.custom_servers == old(self)@.custom_servers,
    {
        let base = match kv_get(&self.providers, "skygenesisenterprise.com") {
            Some(e) => e.clone(),
            None => {
                return vstd::pervasive::unreached();
            },
        };
        let display_name = concat_str(domain.as_str(), " (self-hosted)");
        kv_insert(
            &mut self.providers,
            domain,
            EmailProviderConfig { imap: base.imap, smtp: base.smtp, display_name },
        );
    }

    /// Register a custom server under a domain, overwriting any definition
    /// the map held for it.
    pub fn add_custom_server(&mut self, domain: String, config: MailServerConfig)
        requires
            old(self).wf(),
        ensures
            final(self).wf(),
            final(self)@.custom_servers == old(self)@.custom_servers.insert(domain@, config@),
            final(self)@.providers == old(self)@.providers,
    {
        kv_insert(&mut self.custom_servers, domain, config);
    }

    /// Every catalog entry except the wildcard, as pairs, in no promised
    /// order.
    pub fn get_all_providers(&self) -> (r: Vec<(String, EmailProviderConfig)>)
        requires
            self.wf(),
        ensures
            crate::kvmap::listing_of(r@, self@.providers, wildcard_key()),
    {
        let mut out: Vec<(String, EmailProviderConfig)> = Vec::new();
        let n = self.providers.len();
        let mut i: usize = 0;
        while i < n
            invariant
                self.wf(),
                n == self.providers@.len(),
                i <= n,
                keys_distinct(out@),
                forall|t: int|
                    0 <= t < out@.len() ==> (#[trigger] out@[t]).0@ != wildcard_key()
                        && assoc_map(self.providers@).contains_key(out@[t].0@) && out@[t].1@
                        == assoc_map(self.providers@)[out@[t].0@],
                forall|t: int|
                    0 <= t < out@.len() ==> exists|j: int|
                        0 <= j < i && (#[trigger] self.providers@[j]).0@ == (#[trigger] out@[t]).0@,
                forall|j: int|
                    0 <= j < i && (#[trigger] self.providers@[j]).0@ != wildcard_key()
                        ==> exists|t: int|
                        0 <= t < out@.len() && (#[trigger] out@[t]).0@ == self.providers@[j].0@,
            decreases n - i,
        {
            let ghost pre = out@;
            if !str_eq(self.providers[i].0.as_str(), "*") {
                proof {
                    lemma_assoc_index(self.providers@, i as int);
                }
                out.push((self.providers[i].0.clone(), self.providers[i].1.clone()));
            }
            proof {
                assert forall|j: int|
                    0 <= j < i + 1 && (#[trigger] self.providers@[j]).0@ != wildcard_key()
                        implies exists|t: int|
                    0 <= t < out@.len() && (#[trigger] out@[t]).0@ == self.providers@[j].0@ by {
                    if j == i as int {
                        assert(out@[out@.len() - 1].0@ == self.providers@[j].0@);
                    } else {
                        let t = choose|t: int|
                            0 <= t < pre.len() && (#[trigger] pre[t]).0@ == self.providers@[j].0@;
                        assert(out@[t].0@ == self.providers@[j].0@);
                    }
                }
            }
            i = i + 1;
        }
        proof {
            assert forall|k: Seq<char>|
                #[trigger] assoc_map(self.providers@).contains_key(k) && k != wildcard_key()
                    implies exists|t: int|
                0 <= t < out@.len() && (#[trigger] out@[t]).0@ == k by {
                lemma_assoc_contains_key_index(self.providers@, k);
            }
        }
        out
    }

    /// Every custom server except the reserved default entry, as pairs, in
    /// no promised order.
    pub fn get_custom_servers(&self) -> (r: Vec<(String, MailServerConfig)>)
        requires
            self.wf(),
        ensures
            crate::kvmap::listing_of(r@, self@.custom_servers, default_key()),
    {
        let mut out: Vec<(String, MailServerConfig)> = Vec::new();
        let n = self.custom_servers.len();
        let mut i: usize = 0;
        while i < n
            invariant
                self.wf(),
                n == self.custom_servers@.len(),
                i <= n,
                keys_distinct(out@),
                forall|t: int|
                    0 <= t < out@.len() ==> (#[trigger] out@[t]).0@ != default_key()
                        && assoc_map(self.custom_servers@).contains_key(out@[t].0@) && out@[t].1@
                        == assoc_map(self.custom_servers@)[out@[t].0@],
                forall|t: int|
                    0 <= t < out@.len() ==> exists|j: int|
                        0 <= j < i && (#[trigger] self.custom_servers@[j]).0@
                            == (#[trigger] out@[t]).0@,
                forall|j: int|
                    0 <= j < i && (#[trigger] self.custom_servers@[j]).0@ != default_key()
                        ==> exists|t: int|
                        0 <= t < out@.len() && (#[trigger] out@[t]).0@
                            == self.custom_servers@[j].0@,
            decreases n - i,
        {
            let ghost pre = out@;
            if !str_eq(self.custom_servers[i].0.as_str(), "default") {
                proof {
                    lemma_assoc_index(self.custom_servers@, i as int);
                }
                out.push((self.custom_servers[i].0.clone(), self.custom_servers[i].1.clone()));
            }
            proof {
                assert forall|j: int|
                    0 <= j < i + 1 && (#[trigger] self.custom_servers@[j]).0@ != default_key()
                        implies exists|t: int|
                    0 <= t < out@.len() && (#[trigger] out@[t]).0@ == self.custom_servers@[j].0@ by {
                    if j == i as int {
                        assert(out@[out@.len() - 1].0@ == self.custom_servers@[j].0@);
                    } else {
                        let t = choose|t: int|
                            0 <= t < pre.len() && (#[trigger] pre[t]).0@
                                == self.custom_servers@[j].0@;
                        assert(out@[t].0@ == self.custom_servers@[j].0@);
                    }
                }
            }
            i = i + 1;
        }
        proof {
            assert forall|k: Seq<char>|
                #[trigger] assoc_map(self.custom_servers@).contains_key(k) && k != default_key()
                    implies exists|t: int|
                0 <= t < out@.len() && (#[trigger] out@[t]).0@ == k by {
                lemma_assoc_contains_key_index(self.custom_servers@, k);
            }
        }
        out
    }

    /// Every catalog key, the organization's own domain aside, whose IMAP
    /// host is the organization's own mail host: the domains explicitly
    /// promoted, not the ones the heuristic would merely accept.
    pub fn get_sky_genesis_domains(&self) -> (r: Vec<String>)
        requires
            self.wf(),
        ensures
            sky_domains_listing(r@, self@.providers),
    {
        let mut out: Vec<String> = Vec::new();
        let n = self.providers.len();
        let mut i: usize = 0;
        while i < n
            invariant
                self.wf(),
                n == self.providers@.len(),
                i <= n,
                forall|t: int, u: int|
                    0 <= t < u < out@.len() ==> (#[trigger] out@[t])@ != (#[trigger] out@[u])@,
                forall|t: int|
                    0 <= t < out@.len() ==> assoc_map(self.providers@).contains_key(
                        (#[trigger] out@[t])@,
                    ) && out@[t]@ != sge_domain() && assoc_map(self.providers@)[out@[t]@].imap.host
                        == sge_mail_host(),
                forall|t: int|
                    0 <= t < out@.len() ==> exists|j: int|
                        0 <= j < i && (#[trigger] self.providers@[j]).0@ == (#[trigger] out@[t])@,
                forall|j: int|
                    0 <= j < i && (#[trigger] self.providers@[j]).0@ != sge_domain()
                        && self.providers@[j].1@.imap.host == sge_mail_host() ==> exists|t: int|
                        0 <= t < out@.len() && (#[trigger] out@[t])@ == self.providers@[j].0@,
            decreases n - i,
        {
            let ghost pre = out@;
            if !str_eq(self.providers[i].0.as_str(), "skygenesisenterprise.com") && str_eq(
                self.providers[i].1.imap.host.as_str(),
                "mail.skygenesisenterprise.com",
            ) {
                proof {
                    lemma_assoc_index(self.providers@, i as int);
                }
                out.push(self.providers[i].0.clone());
            }
            proof {
                assert forall|j: int|
                    0 <= j < i + 1 && (#[trigger] self.providers@[j]).0@ != sge_domain()
                        && self.providers@[j].1@.imap.host == sge_mail_host() implies exists|
                    t: int,
                |
                    0 <= t < out@.len() && (#[trigger] out@[t])@ == self.providers@[j].0@ by {
                    if j == i as int {
                        assert(out@[out@.len() - 1]@ == self.providers@[j].0@);
                    } else {
                        let t = choose|t: int|
                            0 <= t < pre.len() && (#[trigger] pre[t])@ == self.providers@[j].0@;
                        assert(out@[t]@ == self.providers@[j].0@);
                    }
                }
            }
            i = i + 1;
        }
        proof {
            assert forall|k: Seq<char>|
                #[trigger] assoc_map(self.providers@).contains_key(k) && k != sge_domain()
                    && assoc_map(self.providers@)[k].imap.host == sge_mail_host() implies exists|
                t: int,
            |
                0 <= t < out@.len() && (#[trigger] out@[t])@ == k by {
                lemma_assoc_contains_key_index(self.providers@, k);
                let j = choose|j: int|
                    0 <= j < self.providers@.len() && (#[trigger] self.providers@[j]).0@ == k;
                lemma_assoc_index(self.providers@, j);
            }
        }
        out
    }

    /// The flattened provider listing: every catalog entry but the
    /// wildcard, then every custom server but the reserved default, the
    /// latter marked by the custom suffix on their display names.
    pub fn get_supported_providers(&self) -> (r: Vec<ProviderInfo>)
        requires
            self.wf(),
        ensures
            supported_listing(r@, self@),
    {
        let all = self.get_all_providers();
        let customs = self.get_custom_servers();
        let mut out: Vec<ProviderInfo> = Vec::new();
        let n = all.len();
        let mut i: usize = 0;
        while i < n
            invariant
                n == all@.len(),
                i <= n,
                out@.len() == i,
                crate::kvmap::listing_of(all@, self@.providers, wildcard_key()),
                forall|t: int|
                    0 <= t < i ==> (#[trigger] out@[t])@ == provider_info_of(
                        all@[t].0@,
                        self@.providers[all@[t].0@],
                    ),
            decreases n - i,
        {
            let p = &all[i];
            out.push(
                ProviderInfo {
                    domain: p.0.clone(),
                    display_name: p.1.display_name.clone(),
                    imap_host: p.1.imap.host.clone(),
                    imap_port: p.1.imap.port,
                    smtp_host: p.1.smtp.host.clone(),
                    smtp_port: p.1.smtp.port,
                },
            );
            i = i + 1;
        }
        let m = customs.len();
        let mut j: usize = 0;
        while j < m
            invariant
                n == all@.len(),
                m == customs@.len(),
                j <= m,
                out@.len() == n + j,
                crate::kvmap::listing_of(all@, self@.providers, wildcard_key()),
                crate::kvmap::listing_of(customs@, self@.custom_servers, default_key()),
                forall|t: int|
                    0 <= t < n ==> (#[trigger] out@[t])@ == provider_info_of(
                        all@[t].0@,
                        self@.providers[all@[t].0@],
                    ),
                forall|t: int|
                    0 <= t < j ==> (#[trigger] out@[n + t])@ == custom_info_of(
                        customs@[t].0@,
                        self@.custom_servers[customs@[t].0@],
                    ),
            decreases m - j,
        {
            let c = &customs[j];
            out.push(
                ProviderInfo {
                    domain: c.0.clone(),
                    display_name: concat_str(c.0.as_str(), " (custom)"),
                    imap_host: c.1.imap_host.clone(),
                    imap_port: c.1.imap_port,
                    smtp_host: c.1.smtp_host.clone(),
                    smtp_port: c.1.smtp_port,
                },
            );
            j = j + 1;
        }
        proof {
            assert forall|t: int|
                0 <= t < out@.len() implies is_catalog_item((#[trigger] out@[t])@, self@)
                || is_custom_item(out@[t]@, self@) by {
                if t < n {
                    assert(is_catalog_item(out@[t]@, self@));
                } else {
                    let u = t - n;
                    assert(out@[n + u]@ == custom_info_of(
                        customs@[u].0@,
                        self@.custom_servers[customs@[u].0@],
                    ));
                    assert(is_custom_item(out@[t]@, self@));
                }
            }
            assert forall|k: Seq<char>|
                #[trigger] self@.providers.contains_key(k) && k != wildcard_key() implies exists|
                t: int,
            |
                0 <= t < out@.len() && (#[trigger] out@[t])@ == provider_info_of(
                    k,
                    self@.providers[k],
                ) by {
                let u = choose|u: int| 0 <= u < all@.len() && (#[trigger] all@[u]).0@ == k;
                assert(out@[u]@ == provider_info_of(k, self@.providers[k]));
            }
            assert forall|k: Seq<char>|
                #[trigger] self@.custom_servers.contains_key(k) && k != default_key()
                    implies exists|t: int|
                0 <= t < out@.len() && (#[trigger] out@[t])@ == custom_info_of(
                    k,
                    self@.custom_servers[k],
                ) by {
                let u = choose|u: int| 0 <= u < customs@.len() && (#[trigger] customs@[u]).0@ == k;
                assert(out@[n + u]@ == custom_info_of(k, self@.custom_servers[k]));
            }
        }
        out
    }
}

// ---------------------------------------------------------------------------
// laws of the precedence chain and of the listings
// ---------------------------------------------------------------------------

/// For an address whose domain is a catalog key other than the wildcard,
/// resolution returns exactly the catalog entry, unmodified.
pub proof fn lemma_resolve_known_provider(v: ImapServiceV, email: Seq<char>)
    requires
        spec_domain_of(email) matches Some(d) && d != wildcard_key() && v.providers.contains_key(
            d,
        ),
    ensures
        spec_resolve(v, email) == Some(v.providers[spec_domain_of(email)->0]),
{
}

/// For an address whose domain is absent from the catalog but present in
/// the custom server map, resolution returns an entry synthesized from the
/// stored definition, whose display name is the domain itself.
pub proof fn lemma_resolve_custom_server(v: ImapServiceV, email: Seq<char>)
    requires
        spec_domain_of(email) matches Some(d) && !v.providers.contains_key(d)
            && v.custom_servers.contains_key(d),
    ensures
        spec_resolve(v, email) == Some(
            synthesized_entry(
                v.custom_servers[spec_domain_of(email)->0],
                spec_domain_of(email)->0,
            ),
        ),
        spec_resolve(v, email)->0.display_name == spec_domain_of(email)->0,
        spec_resolve(v, email)->0.imap.host == v.custom_servers[spec_domain_of(
            email,
        )->0].imap_host,
        spec_resolve(v, email)->0.smtp.host == v.custom_servers[spec_domain_of(
            email,
        )->0].smtp_host,
{
}

/// For an address whose domain is absent from catalog and custom map and
/// not among the excluded public providers, resolution returns the
/// organization's own entry, with the display name rewritten to mark the
/// domain self-hosted.
pub proof fn lemma_resolve_self_hosted(v: ImapServiceV, email: Seq<char>)
    requires
        inv_v(v),
        spec_domain_of(email) matches Some(d) && !v.providers.contains_key(d)
            && !v.custom_servers.contains_key(d) && !excluded_domains().contains(d),
    ensures
        spec_resolve(v, email) == Some(
            self_hosted_entry(v.providers[sge_domain()], spec_domain_of(email)->0),
        ),
        spec_resolve(v, email)->0.display_name == spec_domain_of(email)->0
            + self_hosted_suffix(),
{
}

/// For an address whose domain is absent from catalog and custom map and
/// rejected by the self-hosted heuristic, with no reserved default entry
/// configured, resolution returns the wildcard entry with the placeholder
/// of both host templates replaced by the literal domain and the domain as
/// display name.
pub proof fn lemma_resolve_generic_fallback(v: ImapServiceV, email: Seq<char>)
    requires
        spec_domain_of(email) matches Some(d) && !v.providers.contains_key(d)
            && !v.custom_servers.contains_key(d) && !spec_is_sky_genesis_domain(d)
            && !v.custom_servers.contains_key(default_key()),
    ensures
        spec_resolve(v, email) == Some(
            generic_entry(v.providers[wildcard_key()], spec_domain_of(email)->0),
        ),
        spec_resolve(v, email)->0.imap.host == replace_spec(
            v.providers[wildcard_key()].imap.host,
            domain_placeholder(),
            spec_domain_of(email)->0,
        ),
        spec_resolve(v, email)->0.smtp.host == replace_spec(
            v.providers[wildcard_key()].smtp.host,
            domain_placeholder(),
            spec_domain_of(email)->0,
        ),
        spec_resolve(v, email)->0.display_name == spec_domain_of(email)->0,
{
}

/// On the built-in wildcard entry, the generic fallback concretely yields
/// `imap.<domain>` and `smtp.<domain>` with the domain as display name,
/// for every domain.
pub proof fn lemma_generic_entry_of_builtin(d: Seq<char>)
    ensures
        generic_entry(wildcard_entry(), d).imap.host == "imap."@ + d,
        generic_entry(wildcard_entry(), d).smtp.host == "smtp."@ + d,
        generic_entry(wildcard_entry(), d).display_name == d,
{
    reveal_strlit("imap.{domain}");
    reveal_strlit("smtp.{domain}");
    reveal_strlit("imap.");
    reveal_strlit("smtp.");
    reveal_strlit("{domain}");
    assert("imap.{domain}"@ =~= "imap."@ + "{domain}"@);
    assert("smtp.{domain}"@ =~= "smtp."@ + "{domain}"@);
    lemma_replace_template("imap.{domain}"@, "imap."@, d);
    lemma_replace_template("smtp.{domain}"@, "smtp."@, d);
}

/// Replacing the placeholder in a template made of a five-character prefix
/// followed by the placeholder yields the prefix followed by the
/// replacement.
proof fn lemma_replace_template(s: Seq<char>, head: Seq<char>, d: Seq<char>)
    requires
        head.len() == 5,
        s.len() == 13,
        s == head + "{domain}"@,
        head[0] != '{',
        head[1] != '{',
        head[2] != '{',
        head[3] != '{',
        head[4] != '{',
    ensures
        replace_spec(s, "{domain}"@, d) == head + d,
{
    reveal_strlit("{domain}");
    let p = "{domain}"@;
    assert(p[0] == '{');
    assert forall|i: int| 0 <= i < 5 implies replace_spec(
        s.subrange(i, 13),
        p,
        d,
    ) == seq![s[i]] + replace_spec(s.subrange(i + 1, 13), p, d) by {
        let t = s.subrange(i, 13);
        assert(t[0] == s[i] == head[i]);
        assert(t.subrange(0, 8)[0] == t[0]);
        assert(t.subrange(0, 8) != p);
        assert(t.subrange(1, t.len() as int) =~= s.subrange(i + 1, 13));
    }
    let tail = s.subrange(5, 13);
    assert(tail =~= p);
    assert(tail.subrange(0, 8) =~= p);
    assert(tail.subrange(8, 8) =~= Seq::<char>::empty());
    assert(replace_spec(Seq::<char>::empty(), p, d) == Seq::<char>::empty());
    assert(replace_spec(tail, p, d) == d + Seq::<char>::empty());
    assert(replace_spec(s.subrange(0, 13), p, d) == seq![s[0]] + (seq![s[1]] + (seq![s[2]]
        + (seq![s[3]] + (seq![s[4]] + (d + Seq::<char>::empty()))))));
    assert(s.subrange(0, 13) =~= s);
    assert(seq![s[0]] + (seq![s[1]] + (seq![s[2]] + (seq![s[3]] + (seq![s[4]] + (d
        + Seq::<char>::empty()))))) =~= head + d);
}

/// The flattened provider listing never holds a row for the wildcard key,
/// as long as no custom server was registered under the wildcard itself.
/// The listing of the catalog alone never holds it, whatever the state.
pub proof fn lemma_supported_listing_no_wildcard(r: Seq<ProviderInfo>, v: ImapServiceV)
    requires
        supported_listing(r, v),
        !v.custom_servers.contains_key(wildcard_key()),
    ensures
        forall|i: int| 0 <= i < r.len() ==> (#[trigger] r[i])@.domain != wildcard_key(),
{
    assert forall|i: int| 0 <= i < r.len() implies (#[trigger] r[i])@.domain != wildcard_key() by {
        if is_custom_item(r[i]@, v) {
            assert(v.custom_servers.contains_key(r[i]@.domain));
        }
    }
}

impl Default for ImapService {
    /// The default engine is the one with no custom servers.
    fn default() -> (r: Self)
        ensures
            r.wf(),
            r@.providers == builtin_catalog(),
            r@.custom_servers == Map::<Seq<char>, MailServerConfigV>::empty(),
    {
        Self::new()
    }
}

} // verus!
