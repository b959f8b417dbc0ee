use port_reconcile::docker::{docker_bindings, parse_port_mapping};
use port_reconcile::wsl::{parse_distro_list, parse_socket_line, wsl_bindings, GuestOutput};

#[test]
fn docker_mapping_round_trip() {
    let m = parse_port_mapping("0.0.0.0:8080->80/tcp", 8080).expect("mapping");
    assert_eq!(m.host_port, 8080);
    assert_eq!(m.container_port, 80);
    assert_eq!(m.protocol, "tcp");
    assert_eq!(m.host_address, "0.0.0.0");
}

#[test]
fn docker_mapping_other_port_is_no_match() {
    assert!(parse_port_mapping("0.0.0.0:8080->80/tcp", 9090).is_none());
}

#[test]
fn docker_mapping_defaults_to_tcp() {
    let m = parse_port_mapping(" :::5432->5432 ", 5432).expect("mapping");
    assert_eq!(m.protocol, "tcp");
    assert_eq!(m.host_address, "::");
    assert_eq!(m.container_port, 5432);
}

#[test]
fn docker_mapping_keeps_udp() {
    let m = parse_port_mapping("127.0.0.1:53->53/udp", 53).expect("mapping");
    assert_eq!(m.protocol, "udp");
    assert_eq!(m.host_address, "127.0.0.1");
}

#[test]
fn docker_mapping_malformed_is_skipped() {
    assert!(parse_port_mapping("80/tcp", 80).is_none());
    assert!(parse_port_mapping("0.0.0.0:abc->80/tcp", 80).is_none());
    assert!(parse_port_mapping("0.0.0.0:70000->80/tcp", 4464).is_none());
    assert!(parse_port_mapping("0.0.0.0:8000-8001->8000-8001/tcp", 8000).is_none());
    assert!(parse_port_mapping("", 80).is_none());
}

#[test]
fn docker_listing_skips_bad_lines_and_entries() {
    let listing = "id1\tapi\tapi:1\t0.0.0.0:3000->3000/tcp, 80/tcp\n\
                   garbage line\n\
                   id2\tdb\tpostgres:16\t0.0.0.0:5432->5432/tcp\n\
                   id3\tcache\tredis\t\n\
                   id4\tapi2\tapi:2\t:::3000->8080/tcp\n";
    let ds = docker_bindings(true, listing, 3000);
    assert_eq!(ds.len(), 2);
    assert_eq!(ds[0].container_id, "id1");
    assert_eq!(ds[0].container_name, "api");
    assert_eq!(ds[0].image, "api:1");
    assert_eq!(ds[1].container_id, "id4");
    assert_eq!(ds[1].container_port, 8080);
}

#[test]
fn docker_not_live_gives_nothing() {
    let listing = "id1\tapi\tapi:1\t0.0.0.0:3000->3000/tcp\n";
    assert!(docker_bindings(false, listing, 3000).is_empty());
}

#[test]
fn guest_socket_line_is_parsed() {
    let line = "LISTEN 0      511          0.0.0.0:3000      0.0.0.0:*    users:((\"node\",pid=1234,fd=18))";
    let w = parse_socket_line(line, &"Ubuntu".to_string(), 3000).expect("socket");
    assert_eq!(w.local_address, "0.0.0.0");
    assert_eq!(w.port, 3000);
    assert_eq!(w.process_name, "node");
    assert_eq!(w.pid, 1234);
    assert_eq!(w.distro, "Ubuntu");
}

#[test]
fn guest_socket_line_without_process_falls_back() {
    let line = "LISTEN 0 4096 [::]:8080 [::]:*";
    let w = parse_socket_line(line, &"Debian".to_string(), 8080).expect("socket");
    assert_eq!(w.local_address, "[::]");
    assert_eq!(w.process_name, "unknown");
    assert_eq!(w.pid, 0);
}

#[test]
fn guest_socket_line_other_port_or_header_is_skipped() {
    let header = "State Recv-Q Send-Q Local Address:Port Peer Address:Port Process";
    assert!(parse_socket_line(header, &"Ubuntu".to_string(), 3000).is_none());
    let line = "LISTEN 0 511 127.0.0.1:3001 0.0.0.0:*";
    assert!(parse_socket_line(line, &"Ubuntu".to_string(), 3000).is_none());
    assert!(parse_socket_line("", &"Ubuntu".to_string(), 3000).is_none());
}

#[test]
fn distro_list_is_trimmed() {
    let names = parse_distro_list("Ubuntu\r\n\r\n  docker-desktop \r\n");
    assert_eq!(names, vec!["Ubuntu".to_string(), "docker-desktop".to_string()]);
    assert!(parse_distro_list("").is_empty());
}

#[test]
fn failed_distro_does_not_stop_sweep() {
    let outs = vec![
        GuestOutput { distro: "Broken".to_string(), output: None },
        GuestOutput {
            distro: "Ubuntu".to_string(),
            output: Some(
                "State Recv-Q Send-Q Local Address:Port Peer Address:Port Process\n\
                 LISTEN 0 511 127.0.0.1:3000 0.0.0.0:* users:((\"ruby\",pid=77,fd=9))\n\
                 LISTEN 0 511 127.0.0.1:4000 0.0.0.0:* users:((\"ruby\",pid=78,fd=9))\n"
                    .to_string(),
            ),
        },
    ];
    let ws = wsl_bindings(&outs, 3000);
    assert_eq!(ws.len(), 1);
    assert_eq!(ws[0].process_name, "ruby");
    assert_eq!(ws[0].pid, 77);
    assert_eq!(ws[0].distro, "Ubuntu");
}

use port_reconcile::wsl::{clean_guest_text, decode_guest_text, is_wide_text, le_units_of};

#[test]
fn guest_text_wide_is_decoded() {
    let mut bytes = vec![0xFF, 0xFE];
    for u in "Ubuntu\r\ndocker-desktop\r\n".encode_utf16() {
        bytes.extend_from_slice(&u.to_le_bytes());
    }
    assert!(is_wide_text(&bytes));
    assert_eq!(decode_guest_text(&bytes), "Ubuntu\r\ndocker-desktop\r\n");
    let plain: Vec<u8> = "Ubuntu\r\n".encode_utf16().flat_map(|u| u.to_le_bytes()).collect();
    assert!(is_wide_text(&plain));
    assert_eq!(decode_guest_text(&plain), "Ubuntu\r\n");
    let names = parse_distro_list(&decode_guest_text(&plain));
    assert_eq!(names, vec!["Ubuntu".to_string()]);
}

#[test]
fn guest_text_narrow_is_utf8() {
    assert!(!is_wide_text(&b"Ubuntu\n".to_vec()));
    assert_eq!(decode_guest_text(&b"Ubuntu\n".to_vec()), "Ubuntu\n");
    assert_eq!(decode_guest_text(&Vec::new()), "");
    assert_eq!(decode_guest_text(&vec![b'A', 0, b'B', 0, 0xFF]), "AB\u{FF}");
}

#[test]
fn guest_text_units_and_marks() {
    assert_eq!(le_units_of(&vec![0x41, 0x00, 0x3A, 0x26, 0x07]), vec![0x0041, 0x263A, 0x0007]);
    assert_eq!(clean_guest_text("\u{feff}Deb\0ian\0"), "Debian");
}

#[test]
fn guest_socket_line_unicode_blanks() {
    let line = "LISTEN\u{3000}0 511\u{A0}127.0.0.1:3000 0.0.0.0:*";
    let w = parse_socket_line(line, &"Ubuntu".to_string(), 3000).expect("socket");
    assert_eq!(w.local_address, "127.0.0.1");
}
