//! Resolution of email addresses through the precedence chain.

use aether_mail::config::MailServerConfig;
use aether_mail::imap_service::ImapService;
use aether_mail::utils::validate_email;

fn server(imap_host: &str, smtp_host: &str) -> MailServerConfig {
    MailServerConfig {
        imap_host: imap_host.to_string(),
        imap_port: 1993,
        imap_tls: true,
        smtp_host: smtp_host.to_string(),
        smtp_port: 1587,
        smtp_secure: false,
    }
}

#[test]
fn test_validate_email() {
    assert!(validate_email("test@example.com"));
    assert!(!validate_email("invalid"));
}

#[test]
fn test_resolve_gmail() {
    let service = ImapService::new();
    let config = service.get_provider_config("user@gmail.com").unwrap();
    assert_eq!(config.display_name, "Gmail");
    assert_eq!(config.imap.host, "imap.gmail.com");
    assert_eq!(config.imap.port, 993);
    assert!(config.imap.tls);
    assert_eq!(config.smtp.host, "smtp.gmail.com");
    assert_eq!(config.smtp.port, 587);
    assert!(config.smtp.secure);
}

#[test]
fn test_resolve_catalog_entry_unmodified() {
    let service = ImapService::new();
    let config = service.get_provider_config("someone@yahoo.com").unwrap();
    assert_eq!(config.display_name, "Yahoo");
    assert_eq!(config.imap.host, "imap.mail.yahoo.com");
    assert_eq!(config.imap.port, 993);
    assert!(config.imap.tls);
    assert_eq!(config.smtp.host, "smtp.mail.yahoo.com");
    assert_eq!(config.smtp.port, 587);
    assert!(config.smtp.secure);
}

#[test]
fn test_resolve_self_hosted() {
    let service = ImapService::new();
    let config = service.get_provider_config("user@unknownbiz.io").unwrap();
    assert_eq!(config.display_name, "unknownbiz.io (self-hosted)");
    assert_eq!(config.imap.host, "mail.skygenesisenterprise.com");
    assert_eq!(config.imap.port, 993);
    assert!(config.imap.tls);
    assert_eq!(config.smtp.host, "mail.skygenesisenterprise.com");
    assert_eq!(config.smtp.port, 587);
}

#[test]
fn test_resolve_no_domain() {
    let service = ImapService::new();
    assert!(service.get_provider_config("nodomain").is_none());
    assert!(service.get_provider_config("user@").is_none());
    assert!(service.get_provider_config("@gmail.com").is_none());
    assert!(service.get_provider_config("").is_none());
}

#[test]
fn test_resolve_custom_server() {
    let custom = vec![("corp.example".to_string(), server("imap.corp.example", "smtp.corp.example"))];
    let service = ImapService::new_with_custom_servers(custom);
    let config = service.get_provider_config("bob@corp.example").unwrap();
    assert_eq!(config.display_name, "corp.example");
    assert_eq!(config.imap.host, "imap.corp.example");
    assert_eq!(config.imap.port, 1993);
    assert!(config.imap.tls);
    assert_eq!(config.smtp.host, "smtp.corp.example");
    assert_eq!(config.smtp.port, 1587);
    assert!(!config.smtp.secure);
}

#[test]
fn test_custom_server_beats_fallbacks() {
    // icloud.com is excluded by the self-hosted heuristic, so without a
    // custom entry it would fall through to the generic branch
    let custom = vec![("icloud.com".to_string(), server("mail.inhouse.example", "mail.inhouse.example"))];
    let service = ImapService::new_with_custom_servers(custom);
    let config = service.get_provider_config("a@icloud.com").unwrap();
    assert_eq!(config.display_name, "icloud.com");
    assert_eq!(config.imap.host, "mail.inhouse.example");
}

#[test]
fn test_resolve_custom_default_fallback() {
    let custom = vec![("default".to_string(), server("imap.fallback.example", "smtp.fallback.example"))];
    let service = ImapService::new_with_custom_servers(custom);
    let config = service.get_provider_config("a@me.com").unwrap();
    assert_eq!(config.display_name, "me.com");
    assert_eq!(config.imap.host, "imap.fallback.example");
    assert_eq!(config.smtp.host, "smtp.fallback.example");
}

#[test]
fn test_resolve_generic_fallback() {
    let service = ImapService::new();
    let config = service.get_provider_config("a@icloud.com").unwrap();
    assert_eq!(config.display_name, "icloud.com");
    assert_eq!(config.imap.host, "imap.icloud.com");
    assert_eq!(config.imap.port, 993);
    assert!(config.imap.tls);
    assert_eq!(config.smtp.host, "smtp.icloud.com");
    assert_eq!(config.smtp.port, 587);
    assert!(config.smtp.secure);
}

#[test]
fn test_resolve_domain_after_first_at() {
    // the domain is everything after the first @, so such an address can
    // match no catalog key and lands on the self-hosted branch
    let service = ImapService::new();
    let config = service.get_provider_config("a@b@gmail.com").unwrap();
    assert_eq!(config.display_name, "b@gmail.com (self-hosted)");
}

#[test]
fn test_resolve_wildcard_literal_domain() {
    // "*" never matches the catalog exactly and is rejected by the
    // heuristic, so it reaches the generic branch
    let service = ImapService::new();
    let config = service.get_provider_config("user@*").unwrap();
    assert_eq!(config.display_name, "*");
    assert_eq!(config.imap.host, "imap.*");
    assert_eq!(config.smtp.host, "smtp.*");
}

#[test]
fn test_imap_and_smtp_projections() {
    let service = ImapService::new();
    let imap = service.get_imap_config("user@gmail.com").unwrap();
    assert_eq!(imap.host, "imap.gmail.com");
    assert_eq!(imap.port, 993);
    assert!(imap.tls);
    let smtp = service.get_smtp_config("user@gmail.com").unwrap();
    assert_eq!(smtp.host, "smtp.gmail.com");
    assert_eq!(smtp.port, 587);
    assert!(smtp.secure);
    assert!(service.get_imap_config("nodomain").is_none());
    assert!(service.get_smtp_config("nodomain").is_none());
}

#[test]
fn test_add_custom_provider_overwrites() {
    let mut service = ImapService::new();
    let entry = service.get_provider_config("a@icloud.com").unwrap();
    service.add_custom_provider("icloud.com".to_string(), entry);
    let config = service.get_provider_config("b@icloud.com").unwrap();
    // the synthesized generic entry is now an exact catalog match
    assert_eq!(config.display_name, "icloud.com");
    assert_eq!(config.imap.host, "imap.icloud.com");
}

#[test]
fn test_add_sky_genesis_domain() {
    let mut service = ImapService::new();
    service.add_sky_genesis_domain("corp.example".to_string());
    let config = service.get_provider_config("x@corp.example").unwrap();
    assert_eq!(config.display_name, "corp.example (self-hosted)");
    assert_eq!(config.imap.host, "mail.skygenesisenterprise.com");
    assert_eq!(config.smtp.host, "mail.skygenesisenterprise.com");
    let domains = service.get_sky_genesis_domains();
    assert_eq!(domains, vec!["corp.example".to_string()]);
}

#[test]
fn test_add_custom_server() {
    let mut service = ImapService::new();
    service.add_custom_server("corp.example".to_string(), server("h1", "h2"));
    let config = service.get_provider_config("x@corp.example").unwrap();
    assert_eq!(config.display_name, "corp.example");
    assert_eq!(config.imap.host, "h1");
    assert_eq!(config.smtp.host, "h2");
}
