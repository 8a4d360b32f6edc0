//! The derived read operations: provider and custom-server listings.

use aether_mail::config::MailServerConfig;
use aether_mail::imap_service::ImapService;
use aether_mail::utils::is_valid_domain_format;

fn server(imap_host: &str) -> MailServerConfig {
    MailServerConfig {
        imap_host: imap_host.to_string(),
        imap_port: 993,
        imap_tls: true,
        smtp_host: "smtp.s".to_string(),
        smtp_port: 587,
        smtp_secure: true,
    }
}

#[test]
fn test_all_providers_excludes_wildcard() {
    let service = ImapService::new();
    let all = service.get_all_providers();
    assert_eq!(all.len(), 7);
    assert!(all.iter().all(|(domain, _)| domain != "*"));
    let gmail = all.iter().find(|(domain, _)| domain == "gmail.com").unwrap();
    assert_eq!(gmail.1.display_name, "Gmail");
    assert!(all.iter().any(|(domain, _)| domain == "skygenesisenterprise.com"));
}

#[test]
fn test_custom_servers_excludes_default() {
    let custom = vec![
        ("default".to_string(), server("imap.dflt")),
        ("corp.example".to_string(), server("imap.corp.example")),
    ];
    let service = ImapService::new_with_custom_servers(custom);
    let listed = service.get_custom_servers();
    assert_eq!(listed.len(), 1);
    assert_eq!(listed[0].0, "corp.example");
    assert_eq!(listed[0].1.imap_host, "imap.corp.example");
}

#[test]
fn test_supported_providers_merge() {
    let custom = vec![
        ("default".to_string(), server("imap.dflt")),
        ("corp.example".to_string(), server("imap.corp.example")),
    ];
    let service = ImapService::new_with_custom_servers(custom);
    let listed = service.get_supported_providers();
    assert_eq!(listed.len(), 8);
    assert!(listed.iter().all(|p| p.domain != "*"));
    assert!(listed.iter().all(|p| p.domain != "default"));
    let gmail = listed.iter().find(|p| p.domain == "gmail.com").unwrap();
    assert_eq!(gmail.display_name, "Gmail");
    assert_eq!(gmail.imap_host, "imap.gmail.com");
    assert_eq!(gmail.imap_port, 993);
    let corp = listed.iter().find(|p| p.domain == "corp.example").unwrap();
    assert_eq!(corp.display_name, "corp.example (custom)");
    assert_eq!(corp.imap_host, "imap.corp.example");
    assert_eq!(corp.smtp_host, "smtp.s");
    assert_eq!(corp.smtp_port, 587);
}

#[test]
fn test_sky_genesis_domains_initially_empty() {
    let service = ImapService::new();
    assert!(service.get_sky_genesis_domains().is_empty());
}

#[test]
fn test_sky_genesis_domains_after_promotions() {
    let mut service = ImapService::new();
    service.add_sky_genesis_domain("a.example".to_string());
    service.add_sky_genesis_domain("b.example".to_string());
    let mut domains = service.get_sky_genesis_domains();
    domains.sort();
    assert_eq!(domains, vec!["a.example".to_string(), "b.example".to_string()]);
}

#[test]
fn test_is_sky_genesis_domain() {
    let service = ImapService::new();
    assert!(service.is_sky_genesis_domain("corp.example"));
    assert!(!service.is_sky_genesis_domain("gmail.com"));
    assert!(!service.is_sky_genesis_domain("icloud.com"));
    assert!(!service.is_sky_genesis_domain("me.com"));
    assert!(!service.is_sky_genesis_domain("*"));
    assert!(!service.is_sky_genesis_domain("skygenesisenterprise.com"));
}

#[test]
fn test_is_valid_domain_format() {
    assert!(is_valid_domain_format("corp.example"));
    assert!(!is_valid_domain_format("nodot"));
    assert!(!is_valid_domain_format(""));
}
