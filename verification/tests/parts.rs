use forge::config::validate::deps::detect_dep_cycle;
use forge::config::validate::fields::{
    check_duration_string, check_relative_path, contains_template_token, is_full_field_template, is_shell_safe_ident,
};
use forge::config::validate::names::{check_dns_label, check_docker_name, validate_dns_zone_rules};
use forge::config::validate::ports::{parse_bind_addr, BindAddr};
use forge::config::validate::steps::{check_upstream_value, split_upstream_host_port};
use forge::config::validate::templates::find_template_in_value;
use forge::digest::{digest_text, to_hex};
use forge::error::ForgeError;
use forge::graph::{compute_in_degrees, kahn_bfs, kahn_order};
use forge::ip::{parse_ip, parse_ipv4, IpAddr};
use forge::json::{to_text, Json};
use forge::numeral::{parse_unsigned, to_decimal};
use forge::strmap::{text_precedes, StrMap};
use forge::text::{blank, lines, split, trimmed};

fn message(r: Result<(), ForgeError>) -> String {
    match r {
        Ok(()) => String::new(),
        Err(ForgeError::Validation(m)) => m,
        Err(other) => panic!("unexpected error {other:?}"),
    }
}

#[test]
fn ip_literals_agree_with_the_standard_library() {
    for text in [
        "0.0.0.0", "127.0.0.1", "255.255.255.255", "256.0.0.1", "01.2.3.4", "1.2.3", "1.2.3.4.5", "1.2.3.4 ", "",
        "1..2.3", "+1.2.3.4", "::", "::1", "1::", "1:2:3:4:5:6:7:8", "1:2:3:4:5:6:7", "1:2:3:4:5:6:7::",
        "1:2:3:4:5:6:7::8", "::2:3:4:5:6:7:8", "1::3::5", ":::", ":1", "1:", "12345::", "g::", "FE80::1", "fe80::A",
        "::ffff:1.2.3.4", "1:2:3:4:5:6:1.2.3.4", "1:2:3:4:5:6:7:1.2.3.4", "1.2.3.4::", "::1.2.3.4", "::1.2.3",
        "::1.2.3.4:5", "1:2:3:4:5::1.2.3.4", "1:2:3:4:5:6::1.2.3.4", "not-an-ip", "::1%lo", "1:2:3:4:5:6:7:8:9",
        "0000:0:0:0:0:0:0:0",
    ] {
        let expected = text.parse::<core::net::IpAddr>().ok();
        let got = parse_ip(text);
        let same = match (&expected, &got) {
            (None, None) => true,
            (Some(core::net::IpAddr::V4(a)), Some(IpAddr::V4(b))) => u32::from(*a) == *b,
            (Some(core::net::IpAddr::V6(a)), Some(IpAddr::V6 { high, low })) => {
                u128::from(*a) == (u128::from(*high) << 64) | u128::from(*low)
            }
            _ => false,
        };
        assert!(same, "{text:?}: expected {expected:?}, got {got:?}");
        if let (Some(e), Some(g)) = (expected, got) {
            assert_eq!(e.is_unspecified(), g.is_unspecified(), "{text:?}");
        }
    }
    assert_eq!(parse_ipv4("10.1.2.3"), Some(0x0a01_0203));
    assert_eq!(parse_ipv4("::1"), None);
}

#[test]
fn unspecified_addresses_are_wildcards() {
    assert_eq!(parse_bind_addr(None), BindAddr::Wildcard);
    assert_eq!(parse_bind_addr(Some("0.0.0.0")), BindAddr::Wildcard);
    assert_eq!(parse_bind_addr(Some("::")), BindAddr::Wildcard);
    assert_eq!(parse_bind_addr(Some("junk")), BindAddr::Wildcard);
    assert_eq!(parse_bind_addr(Some("127.0.0.1")), BindAddr::Specific(IpAddr::V4(0x7f00_0001)));
}

#[test]
fn cycles_are_detected() {
    let chain = vec![vec![1], vec![2], Vec::new()];
    assert!(detect_dep_cycle(3, &chain).is_ok());
    let cycle = vec![vec![1], vec![2], vec![1]];
    assert_eq!(message(detect_dep_cycle(3, &cycle)), "service dependency cycle detected");
    let own = vec![vec![0]];
    assert!(detect_dep_cycle(1, &own).is_err());
    assert!(detect_dep_cycle(0, &Vec::new()).is_ok());
}

#[test]
fn nodes_behind_a_cycle_are_not_visited() {
    let adj = vec![vec![1, 1], vec![3], vec![2, 3], Vec::new()];
    let mut degrees = compute_in_degrees(4, &adj);
    assert_eq!(degrees, vec![0, 2, 1, 2]);
    assert_eq!(kahn_bfs(&mut degrees, &adj), 2);
    let mut degrees = compute_in_degrees(4, &adj);
    assert_eq!(kahn_order(&mut degrees, &adj), vec![0, 1]);
    assert_eq!(degrees, vec![0, 0, 1, 1]);
}

#[test]
fn durations_are_positive_and_bounded() {
    for good in ["1s", "86400s", "1ms", "86400000ms", "+5s"] {
        assert!(check_duration_string(good, "x").is_ok(), "{good}");
    }
    assert_eq!(message(check_duration_string("0s", "x")), "x: expected a positive integer");
    assert_eq!(message(check_duration_string("s", "x")), "x: expected a positive integer");
    assert_eq!(message(check_duration_string("-1s", "x")), "x: expected a positive integer");
    assert_eq!(message(check_duration_string("86401s", "x")), "x: must not exceed 86400s");
    assert_eq!(message(check_duration_string("86400001ms", "x")), "x: must not exceed 86400000ms");
    assert_eq!(message(check_duration_string("1m", "x")), "x: \"1m\" must end in \"s\" or \"ms\"");
}

#[test]
fn labels_zones_and_names_have_exact_messages() {
    assert_eq!(message(check_dns_label("", "c")), "c: name must not be empty");
    assert_eq!(
        message(check_dns_label(&"x".repeat(64), "c")),
        format!("c: \"{}\" exceeds 63 characters", "x".repeat(64))
    );
    assert_eq!(
        message(check_dns_label("Ab", "c")),
        "c: \"Ab\" contains invalid characters (allowed: lowercase alphanumeric and hyphens)"
    );
    assert_eq!(message(check_dns_label("ab-", "c")), "c: \"ab-\" must not start or end with a hyphen");
    assert_eq!(message(check_docker_name("a b", "n")), "n: \"a b\" contains characters unsafe for Docker/Podman");
    assert_eq!(message(check_docker_name("", "n")), "n: \"\" must be 1\u{2013}128 characters");
    assert_eq!(message(validate_dns_zone_rules("")), "dnsZone must be 1-253 characters");
    assert_eq!(
        message(validate_dns_zone_rules("A.b")),
        "dnsZone must contain only lowercase alphanumeric, hyphens, and dots"
    );
    assert_eq!(
        message(validate_dns_zone_rules("a.")),
        "dnsZone must not start or end with a dot or hyphen"
    );
    assert_eq!(message(validate_dns_zone_rules("ab")), "dnsZone must contain at least one dot");
    assert!(validate_dns_zone_rules("a.b").is_ok());
}

#[test]
fn quoting_escapes_what_the_debug_form_escapes() {
    assert_eq!(
        message(check_dns_label("a\"\n", "c")),
        format!("c: {:?} contains invalid characters (allowed: lowercase alphanumeric and hyphens)", "a\"\n")
    );
}

#[test]
fn paths_must_not_escape() {
    assert!(check_relative_path("a/b..c/..d", "p").is_ok());
    for bad in ["/a", "..", "a/../b", "a/.."] {
        assert_eq!(
            message(check_relative_path(bad, "p")),
            "p: path must be relative and must not escape the config root"
        );
    }
    assert_eq!(message(check_relative_path(" \t", "p")), "p: must not be blank");
}

#[test]
fn template_tokens_are_found_in_order() {
    assert!(contains_template_token("a {{ b }} c"));
    assert!(contains_template_token("{{}}"));
    assert!(!contains_template_token("}}{{"));
    assert!(!contains_template_token("{}"));
    assert!(is_full_field_template("  {{ a }} "));
    assert!(!is_full_field_template("{{ a }}{{ b }}"));
    assert!(!is_full_field_template("x{{ a }}"));
    assert!(is_full_field_template("{{{ a }}"));
}

#[test]
fn template_path_names_the_first_offender() {
    let value = Json::Object(vec![
        ("a".to_owned(), Json::Array(vec![Json::Null, Json::String("{{x}}".to_owned())])),
        ("{{k}}".to_owned(), Json::Bool(true)),
    ]);
    assert_eq!(find_template_in_value(&value, "$").as_deref(), Some("$.a[1]"));
    let key = Json::Object(vec![("{{k}}".to_owned(), Json::Number("1".to_owned()))]);
    assert_eq!(find_template_in_value(&key, "$").as_deref(), Some("$.{{k}}"));
    assert_eq!(find_template_in_value(&Json::Null, "$"), None);
}

#[test]
fn upstreams_are_split_at_the_last_colon() {
    assert_eq!(split_upstream_host_port("10.0.0.1:53"), ("10.0.0.1", Some("53")));
    assert_eq!(split_upstream_host_port("dns.test"), ("dns.test", None));
    assert_eq!(split_upstream_host_port("a:b:"), ("a:b:", None));
    assert_eq!(split_upstream_host_port("a:b:1"), ("a:b", Some("1")));
    assert!(check_upstream_value("0.pool.ntp.org:123", "s").is_ok());
    assert_eq!(
        message(check_upstream_value("a.b:0", "s")),
        "stack \"s\": coredns-forward upstream: port 0 must be 1\u{2013}65535"
    );
    assert_eq!(
        message(check_upstream_value("a.b:99999999999", "s")),
        "stack \"s\": coredns-forward upstream: invalid port \"99999999999\""
    );
    assert_eq!(message(check_upstream_value(":53", "s")), "stack \"s\": coredns-forward upstream: empty host");
}

#[test]
fn identifiers_are_shell_safe() {
    assert!(is_shell_safe_ident("_a9"));
    assert!(!is_shell_safe_ident("9a"));
    assert!(!is_shell_safe_ident(""));
    assert!(!is_shell_safe_ident("a-b"));
}

#[test]
fn numerals_are_read_and_written() {
    assert_eq!(to_decimal(0), "0");
    assert_eq!(to_decimal(u64::MAX), u64::MAX.to_string());
    assert_eq!(parse_unsigned("18446744073709551615", u64::MAX), Some(u64::MAX));
    assert_eq!(parse_unsigned("18446744073709551616", u64::MAX), None);
    assert_eq!(parse_unsigned("+7", 10), Some(7));
    assert_eq!(parse_unsigned("+", 10), None);
    assert_eq!(parse_unsigned("11", 10), None);
    assert_eq!(parse_unsigned("", 10), None);
}

#[test]
fn texts_are_split_and_trimmed_like_the_standard_library() {
    for text in ["", "a", "a\nb", "a\r\nb\n", "\n", "a\r", "\r\n\r\n", "x\n\ny"] {
        assert_eq!(lines(text), text.lines().map(str::to_owned).collect::<Vec<_>>(), "{text:?}");
        assert_eq!(split(text, '\n'), text.split('\n').map(str::to_owned).collect::<Vec<_>>(), "{text:?}");
    }
    for text in ["", " ", "a", " a\u{3000}", "\u{85}x y\t", "\u{200b}a"] {
        assert_eq!(trimmed(text), text.trim(), "{text:?}");
        assert_eq!(blank(text), text.trim().is_empty(), "{text:?}");
    }
    for code in 0..=0x3100u32 {
        if let Some(c) = char::from_u32(code) {
            assert_eq!(blank(&c.to_string()), c.is_whitespace(), "{code:x}");
        }
    }
}

#[test]
fn map_is_ordered_by_key() {
    let mut map: StrMap<u32> = StrMap::new();
    for (key, value) in [("b", 1), ("a", 2), ("é", 3), ("b", 4), ("ab", 5)] {
        map.insert(key.to_owned(), value);
    }
    let keys: Vec<&str> = (0..map.len()).map(|i| map.key_at(i).as_str()).collect();
    assert_eq!(keys, vec!["a", "ab", "b", "é"]);
    assert_eq!(map.get("b"), Some(&4));
    assert_eq!(map.get("c"), None);
    assert!(map.contains_key("é") && !map.is_empty());
    assert!(text_precedes("a", "ab") && !text_precedes("b", "ab") && !text_precedes("a", "a"));
}

#[test]
fn json_text_is_what_serde_json_writes() {
    let value = Json::Object(vec![
        ("a\"b".to_owned(), Json::Array(vec![Json::Null, Json::Bool(false), Json::Number("12".to_owned())])),
        ("e".to_owned(), Json::Array(Vec::new())),
        ("o".to_owned(), Json::Object(Vec::new())),
        ("s".to_owned(), Json::String("tab\t é \\ \u{1}".to_owned())),
    ]);
    let text = to_text(&value);
    let parsed: serde_json::Value = serde_json::from_str(&text).unwrap();
    assert_eq!(parsed.to_string(), text);
    assert_eq!(to_text(&value.duplicate()), text);
    assert_eq!(
        to_text(&Json::String("\u{0}\u{8}\t\n\u{b}\u{c}\r\u{1f} \"\\\u{7f}é".to_owned())),
        "\"\\u0000\\b\\t\\n\\u000b\\f\\r\\u001f \\\"\\\\\u{7f}é\""
    );
}

#[test]
fn digests_are_hexadecimal_sha256() {
    assert_eq!(
        digest_text("abc").as_deref(),
        Some("ba7816bf8f01cfea414140de5dae2223b00361a396177a9cb410ff61f20015ad")
    );
    assert_eq!(to_hex(&vec![0, 255, 16, 10]), "00ff100a");
}
