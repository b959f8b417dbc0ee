use port_reconcile::remedy::{check_kill_target, diagnose_and_suggest, kill_result, suggest_free_port};
use port_reconcile::state::{BindingSource, CommandOutput, DockerPageState, PortBinding, PortsPageState};

fn orphan(port: u16, pid: u32) -> PortBinding {
    PortBinding {
        pid,
        process_name: "<orphaned>".to_string(),
        local_ip: "0.0.0.0".to_string(),
        local_port: port,
        state: "Listen".to_string(),
        is_loopback: false,
        is_all_interfaces: true,
        is_orphan: true,
        is_system: false,
        source: BindingSource::WindowsStack,
        source_detail: String::new(),
    }
}

#[test]
fn free_port_skips_occupied() {
    let r = suggest_free_port(3000, 3100, &vec![3050]);
    assert_eq!(r, Some(3000));
    let r = suggest_free_port(3050, 3100, &vec![3050]);
    assert_eq!(r, Some(3051));
    assert_ne!(r, Some(3050));
}

#[test]
fn free_port_none_when_range_full() {
    assert_eq!(suggest_free_port(10, 12, &vec![12, 10, 11]), None);
    assert_eq!(suggest_free_port(12, 10, &Vec::new()), None);
    assert_eq!(suggest_free_port(65535, 65535, &Vec::new()), Some(65535));
    assert_eq!(suggest_free_port(65534, 65535, &vec![65534, 65535]), None);
}

#[test]
fn kill_pid_zero_is_refused() {
    assert_eq!(check_kill_target(0), Err("Cannot kill PID 0".to_string()));
    assert_eq!(check_kill_target(1234), Ok(()));
    assert_eq!(kill_result(0, true, true), Err("Cannot kill PID 0".to_string()));
}

#[test]
fn kill_outcomes() {
    assert_eq!(kill_result(77, true, true), Ok(()));
    assert_eq!(kill_result(77, false, false), Err("Process 77 not found".to_string()));
    assert_eq!(kill_result(1024, true, false), Err("Failed to kill process 1024".to_string()));
}

#[test]
fn diagnosis_with_listener_matches() {
    let urlacl = "URL Reservations:\r\n    Reserved URL : http://+:8080/api/\r\n    Reserved URL : http://+:80/\r\n";
    let state = "Server session ID: 1\n  Registered URLs:\n    HTTP://LOCALHOST:8080/\n";
    let r = diagnose_and_suggest(&orphan(8080, 999), Some(urlacl), Some(state));
    let text = r.expect("managed socket");
    assert_eq!(
        text,
        "This appears to be an http.sys managed socket. Diagnostics:\n\n\
         Found http.sys URL reservations for port 8080:\n    Reserved URL : http://+:8080/api/\n\n\
         Found http.sys active listeners on port 8080:\n    HTTP://LOCALHOST:8080/\n\n\
         To clear, try: 1) Stop IIS/HTTP services, 2) Run 'net stop http' as admin, 3) Restart"
    );
}

#[test]
fn diagnosis_without_matches_is_err() {
    let urlacl = "    Reserved URL : http://+:80/\n";
    let r = diagnose_and_suggest(&orphan(8080, 999), Some(urlacl), None);
    let text = r.expect_err("no http.sys involvement");
    assert!(text.starts_with("Cannot programmatically close orphaned socket (PID 999 no longer exists)."));
    assert!(text.ends_with("3. Restart the machine to fully clear all socket states"));
}

#[test]
fn diagnosis_port_must_match_whole_tag() {
    let urlacl = "    Reserved URL : http://+:18080/\n";
    let r = diagnose_and_suggest(&orphan(8080, 5), Some(urlacl), None);
    assert!(r.is_err());
    let r = diagnose_and_suggest(&orphan(1808, 5), Some(urlacl), None);
    assert!(r.is_ok());
}

#[test]
fn binding_address_and_scope() {
    let mut b = orphan(8080, 1);
    b.local_ip = "127.0.0.1".to_string();
    b.is_loopback = true;
    assert_eq!(b.address(), "127.0.0.1:8080");
    assert_eq!(b.scope_description(), "Loopback");
    b.is_loopback = false;
    assert_eq!(b.scope_description(), "All Interfaces");
    b.local_port = 0;
    assert_eq!(b.address(), "127.0.0.1:0");
    b.is_orphan = false;
    assert_eq!(b.process_status(), "Active");
}

#[test]
fn command_output_display() {
    let c = CommandOutput {
        command: "ipconfig /flushdns".to_string(),
        stdout: "Flushed".to_string(),
        stderr: String::new(),
        exit_code: 0,
        duration_ms: 15,
    };
    assert!(c.succeeded());
    assert_eq!(c.display_output(), "$ ipconfig /flushdns\nFlushed\nExit code: 0 (15ms)\n");
    let d = CommandOutput {
        command: "net start http".to_string(),
        stdout: "a\n".to_string(),
        stderr: "denied\n".to_string(),
        exit_code: -1,
        duration_ms: 1200,
    };
    assert!(!d.succeeded());
    assert_eq!(d.display_output(), "$ net start http\na\ndenied\nExit code: -1 (1200ms)\n");
}

#[test]
fn page_states_start_empty() {
    let p = PortsPageState::new();
    assert_eq!(p.port_input, 3010);
    assert!(p.scan_result.bindings.is_empty());
    assert!(!p.is_scanning);
    let d = DockerPageState::new();
    assert_eq!(d.log_tail_lines, 100);
    assert!(d.container_names.is_empty());
}

use port_reconcile::remedy::{free_port_step, next_remedy_action, orphans_cleared, PortSearch, RemedyAction, RemedyEvent};
use port_reconcile::state::PortScanResult;

#[test]
fn free_port_search_steps() {
    assert_eq!(free_port_step(3000, 3100, false), PortSearch::Found(3000));
    assert_eq!(free_port_step(3050, 3100, true), PortSearch::Probe(3051));
    assert_eq!(free_port_step(3100, 3100, true), PortSearch::Exhausted);
    assert_eq!(free_port_step(65535, 65535, true), PortSearch::Exhausted);
    let mut port = 3049;
    let busy = |p: u16| p == 3049 || p == 3050;
    let found = loop {
        match free_port_step(port, 3100, busy(port)) {
            PortSearch::Found(p) => break Some(p),
            PortSearch::Probe(n) => port = n,
            PortSearch::Exhausted => break None,
        }
    };
    assert_eq!(found, Some(3051));
}

#[test]
fn remediation_steps() {
    assert_eq!(next_remedy_action(RemedyEvent::Diagnosed { elevated: true }), RemedyAction::RestartHttpService);
    assert_eq!(next_remedy_action(RemedyEvent::Diagnosed { elevated: false }), RemedyAction::Rescan);
    assert_eq!(next_remedy_action(RemedyEvent::Restarted), RemedyAction::Rescan);
    assert_eq!(next_remedy_action(RemedyEvent::Rescanned { cleared: true }), RemedyAction::Report { cleared: true });
    assert_eq!(next_remedy_action(RemedyEvent::Rescanned { cleared: false }), RemedyAction::Report { cleared: false });
}

#[test]
fn orphans_cleared_after_rescan() {
    let mut after = PortScanResult::empty();
    assert!(orphans_cleared(&after, &vec![999]));
    after.orphan_pids = vec![5, 999];
    assert!(!orphans_cleared(&after, &vec![999]));
    assert!(orphans_cleared(&after, &vec![7]));
    assert!(orphans_cleared(&after, &Vec::new()));
}

#[test]
fn diagnosis_last_line_carriage_return_is_kept() {
    let urlacl = "header\r\n    Reserved URL : http://+:8080/\r";
    let text = diagnose_and_suggest(&orphan(8080, 1), Some(urlacl), None).expect("managed");
    assert!(text.contains("port 8080:\n    Reserved URL : http://+:8080/\r\n\nTo clear"));
}
