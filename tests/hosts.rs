use port_reconcile::docker::container_names;
use port_reconcile::hosts::{add_host_entry, parse_hosts, remove_host_entry, toggle_host_entry};
use port_reconcile::services::parse_services;
use port_reconcile::state::CommandOutput;

const SAMPLE: &str = "# Copyright\r\n127.0.0.1\tlocalhost\r\n# 10.0.0.2\tdev.local # staging\r\n\r\n192.168.1.5  nas   # storage box\r\n# just a remark\r\n";

#[test]
fn hosts_entries_are_parsed() {
    let es = parse_hosts(SAMPLE);
    assert_eq!(es.len(), 3);
    assert_eq!(es[0].ip, "127.0.0.1");
    assert_eq!(es[0].hostname, "localhost");
    assert!(es[0].enabled);
    assert_eq!(es[0].comment, None);
    assert_eq!(es[0].line_number, 2);
    assert_eq!(es[1].hostname, "dev.local");
    assert!(!es[1].enabled);
    assert_eq!(es[1].comment, Some("staging".to_string()));
    assert_eq!(es[1].line_number, 3);
    assert_eq!(es[2].ip, "192.168.1.5");
    assert_eq!(es[2].comment, Some("storage box".to_string()));
    assert_eq!(es[2].line_number, 5);
}

#[test]
fn add_entry_appends_line() {
    assert_eq!(add_host_entry("a b\n", "10.0.0.1", "x.test", None), "a b\n10.0.0.1\tx.test\n");
    assert_eq!(
        add_host_entry("a b", "10.0.0.1", "x.test", Some("mine")),
        "a b\n10.0.0.1\tx.test\t# mine\n"
    );
    assert_eq!(add_host_entry("", "::1", "h", None), "\n::1\th\n");
}

#[test]
fn remove_entry_drops_matching_lines() {
    let text = "127.0.0.1 localhost\n# 10.0.0.2 dev.local\n10.0.0.3 dev.local\n10.0.0.4 other\n";
    assert_eq!(remove_host_entry(text, "dev.local"), "127.0.0.1 localhost\n10.0.0.4 other\n");
    assert_eq!(remove_host_entry(text, "absent"), text);
}

#[test]
fn toggle_entry_both_ways() {
    let text = "127.0.0.1 localhost\n10.0.0.3 dev.local\n";
    let (t, enabled) = toggle_host_entry(text, "dev.local").expect("found");
    assert_eq!(t, "127.0.0.1 localhost\n# 10.0.0.3 dev.local\n");
    assert!(!enabled);
    let (back, enabled) = toggle_host_entry(&t, "dev.local").expect("found");
    assert_eq!(back, "127.0.0.1 localhost\n10.0.0.3 dev.local\n");
    assert!(enabled);
}

#[test]
fn toggle_missing_entry_is_err() {
    let r = toggle_host_entry("127.0.0.1 localhost\n", "nope.test");
    assert_eq!(r, Err("Host entry 'nope.test' not found".to_string()));
}

#[test]
fn services_csv_is_parsed() {
    let out = CommandOutput {
        command: "powershell: Get-Service".to_string(),
        stdout: "\"Name\",\"DisplayName\",\"Status\",\"StartType\"\r\n\"HTTP\",\"HTTP Service\",\"Running\",\"Manual\"\r\n\"bad\",\"row\"\r\n\"W32Time\",\"Windows Time\",\"Stopped\",\"Automatic\"\r\n".to_string(),
        stderr: String::new(),
        exit_code: 0,
        duration_ms: 3,
    };
    let s = parse_services(&out);
    assert_eq!(s.len(), 2);
    assert_eq!(s[0].name, "HTTP");
    assert_eq!(s[0].display_name, "HTTP Service");
    assert_eq!(s[0].status, "Running");
    assert_eq!(s[1].start_type, "Automatic");
    let failed = CommandOutput { exit_code: 1, ..out };
    assert!(parse_services(&failed).is_empty());
}

#[test]
fn container_names_from_listing() {
    let out = CommandOutput {
        command: "docker ps -a --format {{.Names}}".to_string(),
        stdout: "web\n  db \n\n".to_string(),
        stderr: String::new(),
        exit_code: 0,
        duration_ms: 1,
    };
    assert_eq!(container_names(&out), vec!["web".to_string(), "db".to_string()]);
    let failed = CommandOutput { exit_code: 1, ..out };
    assert!(container_names(&failed).is_empty());
}

#[test]
fn hosts_unicode_blanks_separate_tokens() {
    assert_eq!(remove_host_entry("a\u{0B}c\nkeep me\n", "c"), "keep me\n");
    assert_eq!(remove_host_entry("1.2.3.4\u{A0}host\n", "host"), "\n");
    let es = parse_hosts("1.2.3.4\u{0B}x host\n10.0.0.1\u{3000}svc\u{2003}# note\u{85}\n");
    assert_eq!(es.len(), 2);
    assert_eq!(es[0].ip, "1.2.3.4");
    assert_eq!(es[0].hostname, "x");
    assert_eq!(es[1].ip, "10.0.0.1");
    assert_eq!(es[1].hostname, "svc");
    assert_eq!(es[1].comment, Some("note".to_string()));
}

#[test]
fn toggle_with_unicode_blanks() {
    let (t, enabled) = toggle_host_entry("1.2.3.4\u{0B}host\n", "host").expect("found");
    assert_eq!(t, "# 1.2.3.4\u{0B}host\n");
    assert!(!enabled);
    assert!(toggle_host_entry("1.2.3.4 a\u{0B}b\n", "a\u{0B}b").is_err());
    let (back, enabled) = toggle_host_entry(&t, "host").expect("found");
    assert_eq!(back, "1.2.3.4\u{0B}host\n");
    assert!(enabled);
}

#[test]
fn last_line_keeps_carriage_return_without_line_feed() {
    assert_eq!(remove_host_entry("1.1.1.1 a\r\n2.2.2.2 b\r", "a"), "2.2.2.2 b\r\n");
    assert_eq!(remove_host_entry("1.1.1.1 a\r\n2.2.2.2 b\r\n", "a"), "2.2.2.2 b\n");
}
