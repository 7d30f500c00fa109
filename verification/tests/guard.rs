use alexandria::debug::guard::{host_check_active, rejection, strip_port, RequestParts};

fn request(method: &str, site: Option<&str>, host: Option<&str>) -> RequestParts {
    RequestParts {
        method: method.into(),
        sec_fetch_site: site.map(String::from).into_iter().collect(),
        host: host.map(String::from),
    }
}

fn hosts(entries: &[&str]) -> Vec<String> {
    entries.iter().map(|e| e.to_string()).collect()
}

#[test]
fn test_strip_port_leaves_ipv6_brackets_intact() {
    for (host, expected) in [
        ("localhost", "localhost"),
        ("localhost:3000", "localhost"),
        ("127.0.0.1:3000", "127.0.0.1"),
        ("[::1]", "[::1]"),
        ("[::1]:3000", "[::1]"),
        ("[::ffff:1.2.3.4]:8080", "[::ffff:1.2.3.4]"),
        ("host:notaport", "host:notaport"),
    ] {
        assert_eq!(strip_port(host), expected, "strip_port({host})");
    }
}

#[test]
fn test_host_check_active_only_when_configured() {
    assert!(!host_check_active(&vec![]));
    assert!(!host_check_active(&vec!["*".to_string()]));
    assert!(!host_check_active(&vec![" ".to_string(), "*".to_string()]));
    assert!(host_check_active(&vec!["localhost".to_string()]));
}

#[test]
fn test_cross_site_post_is_rejected() {
    for hostile in ["cross-site", "cross-origin"] {
        for allowed in [hosts(&[]), hosts(&["*"]), hosts(&["localhost"])] {
            let reason = rejection(&allowed, &request("POST", Some(hostile), Some("localhost")));
            assert!(
                reason.unwrap().contains("cross-site"),
                "Sec-Fetch-Site: {hostile} with allowed_hosts={allowed:?}"
            );
        }
    }
}

#[test]
fn test_rejection_is_plain_text() {
    let reason = rejection(
        &hosts(&[]),
        &request("POST", Some("cross-site"), Some("localhost")),
    );
    assert!(reason.unwrap().contains("debug/guard.rs"));
}

#[test]
fn test_same_origin_same_site_and_none_posts_are_allowed() {
    for site in ["same-origin", "same-site", "none"] {
        assert_eq!(
            rejection(&hosts(&[]), &request("POST", Some(site), Some("localhost"))),
            None,
            "Sec-Fetch-Site: {site} must not be blocked"
        );
    }
}

#[test]
fn test_post_without_sec_fetch_site_is_allowed() {
    assert_eq!(
        rejection(&hosts(&[]), &request("POST", None, Some("localhost"))),
        None
    );
}

#[test]
fn test_get_with_cross_site_is_allowed() {
    assert_eq!(
        rejection(
            &hosts(&[]),
            &request("GET", Some("cross-site"), Some("localhost"))
        ),
        None
    );
}

#[test]
fn test_header_is_matched_case_insensitively_and_ignoring_whitespace() {
    for variant in ["Cross-Site", "  cross-site  ", "SAME-ORIGIN, cross-origin"] {
        assert!(
            rejection(
                &hosts(&[]),
                &request("POST", Some(variant), Some("localhost"))
            )
            .is_some(),
            "{variant:?} must be rejected"
        );
    }
}

#[test]
fn test_wildcard_and_empty_allowed_hosts_skip_the_host_check() {
    for configured in [hosts(&["*"]), hosts(&[])] {
        assert_eq!(
            rejection(&configured, &request("GET", None, Some("evil.example"))),
            None,
            "allowed_hosts {configured:?}"
        );
    }
}

#[test]
fn test_restrictive_allowed_hosts_accepts_both_host_forms() {
    for (entry, header) in [
        ("localhost", "localhost"),
        ("localhost", "localhost:3000"),
        ("localhost:3000", "localhost:3000"),
        ("LOCALHOST", "localhost"),
        ("[::1]", "[::1]:3000"),
        ("[::1]:4567", "[::1]:4567"),
    ] {
        assert_eq!(
            rejection(&hosts(&[entry]), &request("GET", None, Some(header))),
            None,
            "{entry} should match {header}"
        );
    }
}

#[test]
fn test_restrictive_allowed_hosts_rejects_foreign_and_missing_host() {
    let allowed = hosts(&["localhost"]);
    for method in ["GET", "POST"] {
        let reason = rejection(&allowed, &request(method, None, Some("evil.example")));
        assert!(reason.unwrap().contains("allowed_hosts"));
    }
    let reason = rejection(&allowed, &request("GET", None, None));
    assert!(reason.unwrap().contains("no Host header"));
}

#[test]
fn test_missing_host_is_allowed_when_the_check_is_off() {
    assert_eq!(rejection(&hosts(&[]), &request("GET", None, None)), None);
}
