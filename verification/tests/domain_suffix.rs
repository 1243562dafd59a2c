use domainest::domain_suffix::{
    domain_under_zone, host_covered_by_zone_resolver, normalize_dns_zone, validate_dns_zone,
};

#[test]
fn blocks_single_label_dev_and_com() {
    assert!(validate_dns_zone("dev").is_err());
    assert!(validate_dns_zone("com").is_err());
}

#[test]
fn allows_test_and_subdomain_zones() {
    assert!(validate_dns_zone("test").is_ok());
    assert!(validate_dns_zone("myapp").is_ok());
    assert!(validate_dns_zone("myapp.com").is_ok());
    assert!(validate_dns_zone("api.myapp.dev").is_ok());
}

#[test]
fn domain_under_zone_cases() {
    assert!(domain_under_zone("app.test", "test"));
    assert!(!domain_under_zone("be-brand.dev", "test"));
    assert!(domain_under_zone("be-brand.dev", "be-brand.dev"));
}

#[test]
fn normalize_trims_dots_and_case() {
    assert_eq!(normalize_dns_zone("  .MyApp.COM ").unwrap(), "myapp.com");
    assert_eq!(normalize_dns_zone("...test").unwrap(), "test");
    assert_eq!(normalize_dns_zone("a..b").unwrap(), "a..b");
}

#[test]
fn normalize_errors() {
    assert_eq!(normalize_dns_zone("   ").unwrap_err(), "DNS zone cannot be empty");
    assert_eq!(normalize_dns_zone("...").unwrap_err(), "DNS zone cannot be empty");
    let long = "a".repeat(254);
    assert_eq!(normalize_dns_zone(&long).unwrap_err(), "DNS zone is too long");
    let label = "b".repeat(64);
    assert_eq!(
        normalize_dns_zone(&format!("{label}.test")).unwrap_err(),
        "each label in the DNS zone must be at most 63 characters"
    );
    assert_eq!(
        normalize_dns_zone("-bad.test").unwrap_err(),
        "DNS zone labels must match [a-z0-9-] and not start/end with '-'"
    );
    assert_eq!(
        normalize_dns_zone("bad-.test").unwrap_err(),
        "DNS zone labels must match [a-z0-9-] and not start/end with '-'"
    );
    assert_eq!(
        normalize_dns_zone("my_app.test").unwrap_err(),
        "DNS zone labels must match [a-z0-9-] and not start/end with '-'"
    );
}

#[test]
fn normalize_counts_bytes_for_length() {
    // 127 two-byte characters are 254 bytes: too long before any label check
    let s = "é".repeat(127);
    assert_eq!(normalize_dns_zone(&s).unwrap_err(), "DNS zone is too long");
    // a label of 32 two-byte characters is 64 bytes
    let l = "é".repeat(32);
    assert_eq!(
        normalize_dns_zone(&l).unwrap_err(),
        "each label in the DNS zone must be at most 63 characters"
    );
}

#[test]
fn normalize_is_idempotent_on_examples() {
    for raw in [" Test ", ".myapp.com", "API.MyApp.Dev"] {
        let once = normalize_dns_zone(raw).unwrap();
        assert_eq!(normalize_dns_zone(&once).unwrap(), once);
    }
}

#[test]
fn blocked_zone_message_names_zone_and_examples() {
    let e = validate_dns_zone(".DEV").unwrap_err();
    assert_eq!(
        e,
        "`.dev` routes all `*.dev` DNS through Domainest and breaks real sites on that TLD. \
Use a private zone like `test`, or a subdomain you control (e.g. `myapp.com` for \
`*.myapp.com` only — other `.com` sites stay on normal DNS). Examples: `test`, `myapp.test`, `myapp.com`."
    );
    assert!(validate_dns_zone("onion").is_err());
    assert!(validate_dns_zone("dev.test").is_ok());
    assert_eq!(validate_dns_zone("").unwrap_err(), "DNS zone cannot be empty");
}

#[test]
fn under_zone_ignores_dots_and_case() {
    assert!(domain_under_zone("API.MyApp.com.", ".myapp.com"));
    assert!(domain_under_zone("myapp.com.", "myapp.com"));
    assert!(!domain_under_zone("notmyapp.com", "myapp.com"));
    assert!(host_covered_by_zone_resolver("x.test", "test"));
    assert!(!host_covered_by_zone_resolver("x.dev", "test"));
}
