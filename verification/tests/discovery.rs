//! Discovery of custom mail servers from configuration key/value pairs.

use aether_mail::config::Config;
use aether_mail::config::ConfigError;
use aether_mail::config::MailServerConfig;
use aether_mail::imap_service::ImapService;

fn pairs(entries: &[(&str, &str)]) -> Vec<(String, String)> {
    entries.iter().map(|(k, v)| (k.to_string(), v.to_string())).collect()
}

fn example_com_entry() -> Vec<(String, String)> {
    pairs(&[
        ("EXAMPLE_COM_IMAP_HOST", "mail.x"),
        ("EXAMPLE_COM_IMAP_PORT", "993"),
        ("EXAMPLE_COM_IMAP_TLS", "true"),
        ("EXAMPLE_COM_SMTP_HOST", "smtp.x"),
        ("EXAMPLE_COM_SMTP_PORT", "587"),
        ("EXAMPLE_COM_SMTP_SECURE", "true"),
    ])
}

fn get<'a>(servers: &'a [(String, MailServerConfig)], key: &str) -> Option<&'a MailServerConfig> {
    servers.iter().find(|(k, _)| k == key).map(|(_, v)| v)
}

#[test]
fn test_discovery_complete_entry() {
    let servers = Config::load_custom_mail_servers(&example_com_entry()).unwrap();
    let cfg = get(&servers, "example.com").unwrap();
    assert_eq!(cfg.imap_host, "mail.x");
    assert_eq!(cfg.imap_port, 993);
    assert!(cfg.imap_tls);
    assert_eq!(cfg.smtp_host, "smtp.x");
    assert_eq!(cfg.smtp_port, 587);
    assert!(cfg.smtp_secure);
}

#[test]
fn test_discovery_missing_field_skips_domain() {
    let mut vars = example_com_entry();
    vars.retain(|(k, _)| k != "EXAMPLE_COM_SMTP_SECURE");
    let servers = Config::load_custom_mail_servers(&vars).unwrap();
    assert!(get(&servers, "example.com").is_none());
    assert!(servers.is_empty());
}

#[test]
fn test_discovery_default_entry() {
    let vars = pairs(&[
        ("DEFAULT_IMAP_HOST", "imap.dflt"),
        ("DEFAULT_IMAP_PORT", "143"),
        ("DEFAULT_IMAP_TLS", "false"),
        ("DEFAULT_SMTP_HOST", "smtp.dflt"),
        ("DEFAULT_SMTP_PORT", "25"),
        ("DEFAULT_SMTP_SECURE", "false"),
    ]);
    let servers = Config::load_custom_mail_servers(&vars).unwrap();
    let cfg = get(&servers, "default").unwrap();
    assert_eq!(cfg.imap_host, "imap.dflt");
    assert_eq!(cfg.imap_port, 143);
    assert!(!cfg.imap_tls);
    assert_eq!(cfg.smtp_host, "smtp.dflt");
    assert_eq!(cfg.smtp_port, 25);
    assert!(!cfg.smtp_secure);
    // the DEFAULT prefix derives the same key, so nothing else is added
    assert_eq!(servers.len(), 1);
}

#[test]
fn test_discovery_default_malformed_port_is_error() {
    let vars = pairs(&[
        ("DEFAULT_IMAP_HOST", "imap.dflt"),
        ("DEFAULT_IMAP_PORT", "abc"),
        ("DEFAULT_IMAP_TLS", "false"),
        ("DEFAULT_SMTP_HOST", "smtp.dflt"),
        ("DEFAULT_SMTP_PORT", "25"),
        ("DEFAULT_SMTP_SECURE", "false"),
    ]);
    let r = Config::load_custom_mail_servers(&vars);
    assert!(matches!(r, Err(ConfigError::MalformedDefaultField)));
}

#[test]
fn test_discovery_default_port_zero_is_error() {
    let vars = pairs(&[
        ("DEFAULT_IMAP_HOST", "imap.dflt"),
        ("DEFAULT_IMAP_PORT", "0"),
        ("DEFAULT_IMAP_TLS", "false"),
        ("DEFAULT_SMTP_HOST", "smtp.dflt"),
        ("DEFAULT_SMTP_PORT", "25"),
        ("DEFAULT_SMTP_SECURE", "false"),
    ]);
    let r = Config::load_custom_mail_servers(&vars);
    assert!(matches!(r, Err(ConfigError::MalformedDefaultField)));
}

#[test]
fn test_discovery_default_incomplete_is_skipped() {
    let vars = pairs(&[
        ("DEFAULT_IMAP_HOST", "imap.dflt"),
        ("DEFAULT_IMAP_PORT", "143"),
    ]);
    let servers = Config::load_custom_mail_servers(&vars).unwrap();
    assert!(servers.is_empty());
}

#[test]
fn test_discovery_domain_malformed_is_skipped_not_error() {
    let mut vars = example_com_entry();
    for (k, v) in vars.iter_mut() {
        if k == "EXAMPLE_COM_IMAP_PORT" {
            *v = "not-a-port".to_string();
        }
    }
    let servers = Config::load_custom_mail_servers(&vars).unwrap();
    assert!(get(&servers, "example.com").is_none());
}

#[test]
fn test_discovery_one_bad_entry_never_blocks_the_rest() {
    let mut vars = example_com_entry();
    vars.extend(pairs(&[
        ("BROKEN_NET_IMAP_HOST", "mail.broken"),
        ("BROKEN_NET_IMAP_PORT", "99999"),
        ("BROKEN_NET_IMAP_TLS", "true"),
        ("BROKEN_NET_SMTP_HOST", "smtp.broken"),
        ("BROKEN_NET_SMTP_PORT", "587"),
        ("BROKEN_NET_SMTP_SECURE", "true"),
    ]));
    let servers = Config::load_custom_mail_servers(&vars).unwrap();
    assert!(get(&servers, "example.com").is_some());
    assert!(get(&servers, "broken.net").is_none());
}

#[test]
fn test_discovery_underscores_and_case_fold() {
    let vars = pairs(&[
        ("MY_CORP_NET_IMAP_HOST", "imap.my.corp.net"),
        ("MY_CORP_NET_IMAP_PORT", "993"),
        ("MY_CORP_NET_IMAP_TLS", "true"),
        ("MY_CORP_NET_SMTP_HOST", "smtp.my.corp.net"),
        ("MY_CORP_NET_SMTP_PORT", "465"),
        ("MY_CORP_NET_SMTP_SECURE", "true"),
    ]);
    let servers = Config::load_custom_mail_servers(&vars).unwrap();
    assert!(get(&servers, "my.corp.net").is_some());
}

#[test]
fn test_discovery_single_label_domain() {
    let vars = pairs(&[
        ("LOCALHOST_IMAP_HOST", "localhost"),
        ("LOCALHOST_IMAP_PORT", "143"),
        ("LOCALHOST_IMAP_TLS", "false"),
        ("LOCALHOST_SMTP_HOST", "localhost"),
        ("LOCALHOST_SMTP_PORT", "25"),
        ("LOCALHOST_SMTP_SECURE", "false"),
    ]);
    let servers = Config::load_custom_mail_servers(&vars).unwrap();
    assert!(get(&servers, "localhost").is_some());
}

#[test]
fn test_discovery_boolean_is_exact() {
    let mut vars = example_com_entry();
    for (k, v) in vars.iter_mut() {
        if k == "EXAMPLE_COM_IMAP_TLS" {
            *v = "TRUE".to_string();
        }
    }
    let servers = Config::load_custom_mail_servers(&vars).unwrap();
    assert!(get(&servers, "example.com").is_none());
}

#[test]
fn test_discovery_port_bounds() {
    let mut vars = example_com_entry();
    for (k, v) in vars.iter_mut() {
        if k == "EXAMPLE_COM_SMTP_PORT" {
            *v = "65535".to_string();
        }
    }
    let servers = Config::load_custom_mail_servers(&vars).unwrap();
    assert_eq!(get(&servers, "example.com").unwrap().smtp_port, 65535);

    for (k, v) in vars.iter_mut() {
        if k == "EXAMPLE_COM_SMTP_PORT" {
            *v = "65536".to_string();
        }
    }
    let servers = Config::load_custom_mail_servers(&vars).unwrap();
    assert!(get(&servers, "example.com").is_none());
}

#[test]
fn test_discovery_empty_host_is_skipped() {
    let mut vars = example_com_entry();
    for (k, v) in vars.iter_mut() {
        if k == "EXAMPLE_COM_IMAP_HOST" {
            *v = String::new();
        }
    }
    let servers = Config::load_custom_mail_servers(&vars).unwrap();
    assert!(get(&servers, "example.com").is_none());
}

#[test]
fn test_discovery_first_complete_candidate_wins() {
    let mut vars = example_com_entry();
    vars.extend(pairs(&[
        ("example_com_IMAP_HOST", "mail.other"),
        ("example_com_IMAP_PORT", "994"),
        ("example_com_IMAP_TLS", "true"),
        ("example_com_SMTP_HOST", "smtp.other"),
        ("example_com_SMTP_PORT", "465"),
        ("example_com_SMTP_SECURE", "true"),
    ]));
    let servers = Config::load_custom_mail_servers(&vars).unwrap();
    let cfg = get(&servers, "example.com").unwrap();
    assert_eq!(cfg.imap_host, "mail.x");
    assert_eq!(servers.len(), 1);
}

#[test]
fn test_discovery_feeds_the_engine() {
    let servers = Config::load_custom_mail_servers(&example_com_entry()).unwrap();
    let config = Config {
        database_url: String::new(),
        jwt_secret: String::new(),
        api_access_token: String::new(),
        server_host: "127.0.0.1".to_string(),
        server_port: 3000,
        use_test_data: true,
        custom_mail_servers: servers,
    };
    let service = ImapService::new_with_custom_servers(config.custom_mail_servers);
    let resolved = service.get_provider_config("joe@example.com").unwrap();
    assert_eq!(resolved.display_name, "example.com");
    assert_eq!(resolved.imap.host, "mail.x");
}
