use port_reconcile::docker::{docker_bindings, DockerPortBinding};
use port_reconcile::reconcile::{is_docker_related, probe_verdict, scan, BindOutcome};
use port_reconcile::state::{BindingSource, PortBinding, PortScanResult};
use port_reconcile::winstack::{list_windows_bindings, ProcessEntry, SocketEntry};
use port_reconcile::wsl::WslPortBinding;

fn row(ip: &str, port: u16, pid: u32) -> SocketEntry {
    SocketEntry { local_ip: ip.to_string(), local_port: port, pid, state: "Listen".to_string() }
}

fn proc_entry(pid: u32, name: &str) -> ProcessEntry {
    ProcessEntry { pid, name: name.to_string() }
}

fn docker_entry(port: u16) -> DockerPortBinding {
    DockerPortBinding {
        container_id: "abc123".to_string(),
        container_name: "web".to_string(),
        image: "nginx:latest".to_string(),
        host_address: "0.0.0.0".to_string(),
        host_port: port,
        container_port: 80,
        protocol: "tcp".to_string(),
    }
}

fn wsl_entry(name: &str, port: u16) -> WslPortBinding {
    WslPortBinding {
        distro: "Ubuntu".to_string(),
        local_address: "127.0.0.1".to_string(),
        port,
        process_name: name.to_string(),
        pid: 321,
    }
}

fn same_binding(a: &PortBinding, b: &PortBinding) -> bool {
    a.pid == b.pid
        && a.process_name == b.process_name
        && a.local_ip == b.local_ip
        && a.local_port == b.local_port
        && a.state == b.state
        && a.is_loopback == b.is_loopback
        && a.is_all_interfaces == b.is_all_interfaces
        && a.is_orphan == b.is_orphan
        && a.is_system == b.is_system
        && a.source == b.source
        && a.source_detail == b.source_detail
}

fn same_result(a: &PortScanResult, b: &PortScanResult) -> bool {
    a.bindings.len() == b.bindings.len()
        && a.bindings.iter().zip(b.bindings.iter()).all(|(x, y)| same_binding(x, y))
        && a.conflict_pids == b.conflict_pids
        && a.orphan_pids == b.orphan_pids
        && a.shadow_detected == b.shadow_detected
        && a.docker_bindings.len() == b.docker_bindings.len()
        && a.wsl_bindings.len() == b.wsl_bindings.len()
}

#[test]
fn quiet_port_has_no_bindings() {
    let rows = vec![row("0.0.0.0", 80, 100)];
    let procs = vec![proc_entry(100, "nginx.exe")];
    let r = scan(3000, Some(&rows), &procs, false, Vec::new(), Vec::new());
    assert!(r.bindings.is_empty());
    assert!(!r.shadow_detected);
    assert!(r.conflict_pids.is_empty());
    assert!(r.orphan_pids.is_empty());
}

#[test]
fn busy_unexplained_port_is_shadow() {
    let rows: Vec<SocketEntry> = Vec::new();
    let procs: Vec<ProcessEntry> = Vec::new();
    let r = scan(5173, Some(&rows), &procs, true, Vec::new(), Vec::new());
    assert!(r.shadow_detected);
    assert_eq!(r.bindings.len(), 1);
    let b = &r.bindings[0];
    assert_eq!(b.source, BindingSource::UnknownShadow);
    assert_eq!(b.pid, 0);
    assert_eq!(b.local_port, 5173);
    assert_eq!(b.local_ip, "?");
    assert_eq!(b.state, "UNKNOWN");
    assert!(b.is_all_interfaces);
    assert_eq!(b.process_name, "<shadow binding>");
}

#[test]
fn unreadable_table_and_busy_probe_is_shadow() {
    let procs: Vec<ProcessEntry> = Vec::new();
    let r = scan(8443, None, &procs, true, Vec::new(), Vec::new());
    assert!(r.shadow_detected);
    assert_eq!(r.bindings.len(), 1);
}

#[test]
fn probe_busy_but_explained_is_not_shadow() {
    let rows: Vec<SocketEntry> = Vec::new();
    let procs: Vec<ProcessEntry> = Vec::new();
    let r = scan(8080, Some(&rows), &procs, true, vec![docker_entry(8080)], Vec::new());
    assert!(!r.shadow_detected);
    assert_eq!(r.bindings.len(), 1);
    assert_eq!(r.bindings[0].source, BindingSource::Docker);
}

#[test]
fn loopback_and_wildcard_same_pid_is_conflict() {
    let rows = vec![row("127.0.0.1", 3000, 42), row("0.0.0.0", 3000, 42)];
    let procs = vec![proc_entry(42, "node.exe")];
    let r = list_windows_bindings(3000, Some(&rows), &procs);
    assert_eq!(r.bindings.len(), 2);
    assert_eq!(r.conflict_pids, vec![42]);
    assert!(r.bindings[0].is_loopback);
    assert!(r.bindings[1].is_all_interfaces);
    assert_eq!(r.bindings[0].process_name, "node.exe");
}

#[test]
fn loopback_only_is_no_conflict() {
    let rows = vec![row("127.0.0.1", 3000, 42), row("127.0.0.2", 3000, 42)];
    let procs = vec![proc_entry(42, "node.exe")];
    let r = list_windows_bindings(3000, Some(&rows), &procs);
    assert!(r.conflict_pids.is_empty());
}

#[test]
fn wildcard_only_is_no_conflict() {
    let rows = vec![row("0.0.0.0", 3000, 42), row("::", 3000, 42)];
    let procs = vec![proc_entry(42, "node.exe")];
    let r = list_windows_bindings(3000, Some(&rows), &procs);
    assert!(r.conflict_pids.is_empty());
    assert!(r.bindings[1].is_all_interfaces);
}

#[test]
fn ipv6_loopback_and_wildcard_is_conflict() {
    let rows = vec![row("::1", 3000, 7), row("::", 3000, 7), row("::", 3000, 8)];
    let procs = vec![proc_entry(7, "a.exe"), proc_entry(8, "b.exe")];
    let r = list_windows_bindings(3000, Some(&rows), &procs);
    assert_eq!(r.conflict_pids, vec![7]);
}

#[test]
fn missing_process_is_orphan() {
    let rows = vec![row("0.0.0.0", 3000, 999), row("127.0.0.1", 3000, 999)];
    let procs = vec![proc_entry(42, "node.exe")];
    let r = list_windows_bindings(3000, Some(&rows), &procs);
    assert!(r.bindings[0].is_orphan);
    assert_eq!(r.bindings[0].process_name, "<orphaned>");
    assert_eq!(r.orphan_pids, vec![999]);
    assert_eq!(r.bindings[0].process_status(), "Orphaned");
}

#[test]
fn system_pids_are_never_orphans() {
    let rows = vec![row("0.0.0.0", 445, 4), row("0.0.0.0", 445, 0)];
    let procs: Vec<ProcessEntry> = Vec::new();
    let r = list_windows_bindings(445, Some(&rows), &procs);
    assert!(r.orphan_pids.is_empty());
    assert!(r.bindings[0].is_system && !r.bindings[0].is_orphan);
    assert_eq!(r.bindings[0].process_name, "[System]");
    assert_eq!(r.bindings[1].process_name, "[System Idle]");
    assert_eq!(r.bindings[1].process_status(), "System/Kernel");
}

#[test]
fn other_ports_are_filtered_out() {
    let rows = vec![row("0.0.0.0", 80, 1), row("10.0.0.5", 3000, 2), row("0.0.0.0", 3001, 3)];
    let procs = vec![proc_entry(2, "svc.exe")];
    let r = list_windows_bindings(3000, Some(&rows), &procs);
    assert_eq!(r.bindings.len(), 1);
    assert_eq!(r.bindings[0].pid, 2);
    assert!(!r.bindings[0].is_loopback && !r.bindings[0].is_all_interfaces);
    assert_eq!(r.bindings[0].scope_description(), "Specific IP");
    assert_eq!(r.bindings[0].source, BindingSource::WindowsStack);
}

#[test]
fn unreadable_table_gives_empty_result() {
    let procs = vec![proc_entry(2, "svc.exe")];
    let r = list_windows_bindings(3000, None, &procs);
    assert!(r.bindings.is_empty());
    assert!(r.conflict_pids.is_empty());
    assert!(!r.shadow_detected);
}

#[test]
fn engine_guest_process_is_suppressed_when_containers_publish() {
    let rows: Vec<SocketEntry> = Vec::new();
    let procs: Vec<ProcessEntry> = Vec::new();
    let r = scan(
        8080,
        Some(&rows),
        &procs,
        true,
        vec![docker_entry(8080)],
        vec![wsl_entry("com.docker.backend", 8080), wsl_entry("python3", 8080)],
    );
    assert_eq!(r.bindings.len(), 2);
    assert_eq!(r.bindings[0].source, BindingSource::Docker);
    assert_eq!(r.bindings[0].process_name, "web (nginx:latest)");
    assert_eq!(r.bindings[0].source_detail, "abc123");
    assert_eq!(r.bindings[1].source, BindingSource::Wsl);
    assert_eq!(r.bindings[1].process_name, "python3 [WSL:Ubuntu]");
    assert!(r.bindings[1].is_loopback);
    assert_eq!(r.wsl_bindings.len(), 2);
}

#[test]
fn engine_guest_process_kept_without_containers() {
    let rows: Vec<SocketEntry> = Vec::new();
    let procs: Vec<ProcessEntry> = Vec::new();
    let r = scan(8080, Some(&rows), &procs, true, Vec::new(), vec![wsl_entry("containerd", 8080)]);
    assert_eq!(r.bindings.len(), 1);
    assert_eq!(r.bindings[0].process_name, "containerd [WSL:Ubuntu]");
    assert!(!r.shadow_detected);
}

#[test]
fn merge_order_is_stack_then_containers_then_guests() {
    let rows = vec![row("127.0.0.1", 8080, 42)];
    let procs = vec![proc_entry(42, "node.exe")];
    let r = scan(8080, Some(&rows), &procs, true, vec![docker_entry(8080)], vec![wsl_entry("ruby", 8080)]);
    assert_eq!(r.bindings.len(), 3);
    assert_eq!(r.bindings[0].source, BindingSource::WindowsStack);
    assert_eq!(r.bindings[1].source, BindingSource::Docker);
    assert_eq!(r.bindings[2].source, BindingSource::Wsl);
}

#[test]
fn repeated_scans_are_equal() {
    let rows = vec![row("127.0.0.1", 3000, 42), row("0.0.0.0", 3000, 42), row("0.0.0.0", 3000, 77)];
    let procs = vec![proc_entry(42, "node.exe")];
    let a = scan(3000, Some(&rows), &procs, true, vec![docker_entry(3000)], vec![wsl_entry("x", 3000)]);
    let b = scan(3000, Some(&rows), &procs, true, vec![docker_entry(3000)], vec![wsl_entry("x", 3000)]);
    assert!(same_result(&a, &b));
    assert_eq!(a.conflict_pids, vec![42]);
    assert_eq!(a.orphan_pids, vec![77]);
}

#[test]
fn engine_names_are_recognised() {
    assert!(is_docker_related("com.docker.backend"));
    assert!(is_docker_related("dockerd"));
    assert!(is_docker_related("containerd-shim"));
    assert!(!is_docker_related("node"));
    assert!(!is_docker_related(""));
}

#[test]
fn probe_first_conclusive_outcome_decides() {
    assert!(!probe_verdict(&vec![BindOutcome::Bound, BindOutcome::AddrInUse]));
    assert!(probe_verdict(&vec![BindOutcome::AddrInUse, BindOutcome::Bound]));
    assert!(probe_verdict(&vec![BindOutcome::OtherError, BindOutcome::AddrInUse]));
    assert!(!probe_verdict(&vec![BindOutcome::OtherError, BindOutcome::OtherError]));
    assert!(!probe_verdict(&vec![BindOutcome::OtherError, BindOutcome::Bound]));
    assert!(!probe_verdict(&Vec::new()));
}

#[test]
fn docker_listing_feeds_scan() {
    let listing = "abc123\tweb\tnginx:latest\t0.0.0.0:8080->80/tcp, :::8080->80/tcp\n";
    let ds = docker_bindings(true, listing, 8080);
    assert_eq!(ds.len(), 2);
    let rows: Vec<SocketEntry> = Vec::new();
    let procs: Vec<ProcessEntry> = Vec::new();
    let r = scan(8080, Some(&rows), &procs, false, ds, Vec::new());
    assert_eq!(r.bindings.len(), 2);
    assert_eq!(r.bindings[1].local_ip, "::");
}
