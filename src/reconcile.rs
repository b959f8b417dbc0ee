//! The reconciliation engine: merges the host stack, container mappings,
//! guest sockets and the bind probe into one result per port.

use vstd::prelude::*;
use vstd::string::*;
use crate::docker::{DockerPortBinding, DockerView, docker_views};
use crate::state::{BindingSource, BindingView, PortBinding, PortScanResult, ScanView, binding_views};
use crate::text::{chars_of, contains_seq, find_seq_exec, push_char};
use crate::winstack::{
    ProcessEntry, SocketEntry, conflict_pids, conflict_set, is_loopback_address,
    is_wildcard_address, lemma_no_rows_no_bindings, lemma_stack_source, loopback_address,
    orphan_pids, orphan_set, stack_bindings, stack_bindings_exec, stack_bindings_of, table_rows,
    wildcard_address,
};
use crate::wsl::{WslPortBinding, WslView, wsl_views};

verus! {

/// What one attempt to bind the wildcard address of one family gave.
#[derive(Clone, Copy, Debug, PartialEq, Eq, Structural)]
pub enum BindOutcome {
    /// The bind succeeded (and the listener was released).
    Bound,
    /// The bind failed because the address is already in use.
    AddrInUse,
    /// The bind failed for another reason (e.g. permission).
    OtherError,
}

/// The probe's verdict over the families tried in order: the first
/// conclusive outcome decides, and no conclusive outcome means free.
pub open spec fn probe_verdict_of(outcomes: Seq<BindOutcome>) -> bool
    decreases outcomes.len(),
{
    if outcomes.len() == 0 {
        false
    } else {
        match outcomes[0] {
            BindOutcome::Bound => false,
            BindOutcome::AddrInUse => true,
            BindOutcome::OtherError => probe_verdict_of(outcomes.drop_first()),
        }
    }
}

/// Whether the bind attempts, in the order made, show the port in use.
pub fn probe_verdict(outcomes: &Vec<BindOutcome>) -> (r: bool)
    ensures
        r == probe_verdict_of(outcomes@),
{
    let mut i: usize = 0;
    assert(outcomes@.subrange(0, outcomes@.len() as int) =~= outcomes@);
    while i < outcomes.len()
        invariant
            i <= outcomes.len(),
            probe_verdict_of(outcomes@) == probe_verdict_of(
                outcomes@.subrange(i as int, outcomes@.len() as int),
            ),
        decreases outcomes.len() - i,
    {
        let ghost rest = outcomes@.subrange(i as int, outcomes@.len() as int);
        assert(rest.drop_first() =~= outcomes@.subrange(i + 1, outcomes@.len() as int));
        assert(rest[0] == outcomes@[i as int]);
        match outcomes[i] {
            BindOutcome::Bound => return false,
            BindOutcome::AddrInUse => return true,
            BindOutcome::OtherError => {},
        }
        i = i + 1;
    }
    false
}

pub open spec fn docker_word() -> Seq<char> {
    seq!['d', 'o', 'c', 'k', 'e', 'r']
}

pub open spec fn containerd_word() -> Seq<char> {
    seq!['c', 'o', 'n', 't', 'a', 'i', 'n', 'e', 'r', 'd']
}

pub open spec fn com_docker_word() -> Seq<char> {
    seq!['c', 'o', 'm', '.', 'd', 'o', 'c', 'k', 'e', 'r']
}

/// Whether a guest process name points at the container engine.
pub open spec fn docker_related(name: Seq<char>) -> bool {
    contains_seq(name, docker_word()) || contains_seq(name, containerd_word()) || contains_seq(
        name,
        com_docker_word(),
    )
}

/// Whether a guest process name points at the container engine.
pub fn is_docker_related(name: &str) -> (r: bool)
    ensures
        r == docker_related(name@),
{
    let v = chars_of(name);
    let a = vec!['d', 'o', 'c', 'k', 'e', 'r'];
    let b = vec!['c', 'o', 'n', 't', 'a', 'i', 'n', 'e', 'r', 'd'];
    let c = vec!['c', 'o', 'm', '.', 'd', 'o', 'c', 'k', 'e', 'r'];
    assert(a@ =~= docker_word());
    assert(b@ =~= containerd_word());
    assert(c@ =~= com_docker_word());
    let x = find_seq_exec(&v, &a).is_some();
    let y = find_seq_exec(&v, &b).is_some();
    let z = find_seq_exec(&v, &c).is_some();
    x || y || z
}

pub open spec fn listen_text() -> Seq<char> {
    seq!['L', 'I', 'S', 'T', 'E', 'N']
}

/// The binding that stands for a container port mapping.
pub open spec fn docker_binding(d: DockerView) -> BindingView {
    BindingView {
        pid: 0,
        process_name: d.container_name + seq![' ', '('] + d.image + seq![')'],
        local_ip: d.host_address,
        local_port: d.host_port,
        state: listen_text(),
        is_loopback: false,
        is_all_interfaces: true,
        is_orphan: false,
        is_system: false,
        source: BindingSource::Docker,
        source_detail: d.container_id,
    }
}

pub open spec fn wsl_tag() -> Seq<char> {
    seq![' ', '[', 'W', 'S', 'L', ':']
}

/// The binding that stands for a guest's listening socket.
pub open spec fn wsl_binding(w: WslView) -> BindingView {
    BindingView {
        pid: 0,
        process_name: w.process_name + wsl_tag() + w.distro + seq![']'],
        local_ip: w.local_address,
        local_port: w.port,
        state: listen_text(),
        is_loopback: loopback_address(w.local_address),
        is_all_interfaces: wildcard_address(w.local_address),
        is_orphan: false,
        is_system: false,
        source: BindingSource::Wsl,
        source_detail: w.distro,
    }
}

/// The placeholder for a port that is busy with no source to explain it.
pub open spec fn shadow_binding(port: u16) -> BindingView {
    BindingView {
        pid: 0,
        process_name: "<shadow binding>"@,
        local_ip: seq!['?'],
        local_port: port,
        state: seq!['U', 'N', 'K', 'N', 'O', 'W', 'N'],
        is_loopback: false,
        is_all_interfaces: true,
        is_orphan: false,
        is_system: false,
        source: BindingSource::UnknownShadow,
        source_detail: "bind probe reports the port in use"@,
    }
}

/// The container bindings, in order.
pub open spec fn docker_part(ds: Seq<DockerView>) -> Seq<BindingView> {
    ds.map_values(|d: DockerView| docker_binding(d))
}

/// The guest bindings, in order, without those of engine processes when
/// `suppress` holds.
pub open spec fn wsl_part(ws: Seq<WslView>, suppress: bool) -> Seq<BindingView>
    decreases ws.len(),
{
    if ws.len() == 0 {
        Seq::empty()
    } else {
        let prev = wsl_part(ws.drop_last(), suppress);
        if suppress && docker_related(ws.last().process_name) {
            prev
        } else {
            prev.push(wsl_binding(ws.last()))
        }
    }
}

/// The busy-but-unexplained verdict.
pub open spec fn shadow_verdict(
    probe_in_use: bool,
    stack: Seq<BindingView>,
    ds: Seq<DockerView>,
    ws: Seq<WslView>,
) -> bool {
    probe_in_use && stack.len() == 0 && ds.len() == 0 && ws.len() == 0
}

/// The reconciled result: host bindings, then container bindings, then the
/// guest bindings that are not duplicates of containers, then the placeholder
/// when the verdict is shadow. Conflicts and orphans come from the host
/// bindings alone.
pub open spec fn scan_view(
    port: u16,
    stack: Seq<BindingView>,
    probe_in_use: bool,
    ds: Seq<DockerView>,
    ws: Seq<WslView>,
) -> ScanView {
    let shadow = shadow_verdict(probe_in_use, stack, ds, ws);
    let merged = stack + docker_part(ds) + wsl_part(ws, ds.len() > 0);
    ScanView {
        bindings: if shadow {
            merged.push(shadow_binding(port))
        } else {
            merged
        },
        conflict_pids: conflict_set(stack),
        orphan_pids: orphan_set(stack),
        docker_bindings: ds,
        wsl_bindings: ws,
        shadow_detected: shadow,
    }
}

fn concat(a: &String, b: &str, c: &String, d: char) -> (r: String)
    ensures
        r@ == a@ + b@ + c@ + seq![d],
{
    let mut r = a.clone();
    r.append(b);
    r.append(c.as_str());
    push_char(&mut r, d);
    r
}

fn docker_to_binding(d: &DockerPortBinding) -> (r: PortBinding)
    ensures
        r@ == docker_binding(d@),
{
    proof {
        reveal_strlit(" (");
        reveal_strlit("LISTEN");
    }
    let r = PortBinding {
        pid: 0,
        process_name: concat(&d.container_name, " (", &d.image, ')'),
        local_ip: d.host_address.clone(),
        local_port: d.host_port,
        state: String::from_str("LISTEN"),
        is_loopback: false,
        is_all_interfaces: true,
        is_orphan: false,
        is_system: false,
        source: BindingSource::Docker,
        source_detail: d.container_id.clone(),
    };
    assert(r@.process_name =~= docker_binding(d@).process_name);
    assert(r@.state =~= listen_text());
    r
}

fn wsl_to_binding(w: &WslPortBinding) -> (r: PortBinding)
    ensures
        r@ == wsl_binding(w@),
{
    proof {
        reveal_strlit(" [WSL:");
        reveal_strlit("LISTEN");
    }
    let r = PortBinding {
        pid: 0,
        process_name: concat(&w.process_name, " [WSL:", &w.distro, ']'),
        local_ip: w.local_address.clone(),
        local_port: w.port,
        state: String::from_str("LISTEN"),
        is_loopback: is_loopback_address(w.local_address.as_str()),
        is_all_interfaces: is_wildcard_address(w.local_address.as_str()),
        is_orphan: false,
        is_system: false,
        source: BindingSource::Wsl,
        source_detail: w.distro.clone(),
    };
    assert(r@.process_name =~= wsl_binding(w@).process_name);
    assert(r@.state =~= listen_text());
    r
}

fn shadow_to_binding(port: u16) -> (r: PortBinding)
    ensures
        r@ == shadow_binding(port),
{
    proof {
        reveal_strlit("?");
        reveal_strlit("UNKNOWN");
    }
    let r = PortBinding {
        pid: 0,
        process_name: String::from_str("<shadow binding>"),
        local_ip: String::from_str("?"),
        local_port: port,
        state: String::from_str("UNKNOWN"),
        is_loopback: false,
        is_all_interfaces: true,
        is_orphan: false,
        is_system: false,
        source: BindingSource::UnknownShadow,
        source_detail: String::from_str("bind probe reports the port in use"),
    };
    assert(r@.local_ip =~= seq!['?']);
    assert(r@.state =~= seq!['U', 'N', 'K', 'N', 'O', 'W', 'N']);
    r
}

/// Merges what the sources reported for `port` into one result; `stack` holds
/// the host stack's bindings for the port.
pub fn reconcile(
    port: u16,
    stack: Vec<PortBinding>,
    probe_in_use: bool,
    docker: Vec<DockerPortBinding>,
    wsl: Vec<WslPortBinding>,
) -> (r: PortScanResult)
    ensures
        r@ == scan_view(
            port,
            binding_views(stack@),
            probe_in_use,
            docker_views(docker@),
            wsl_views(wsl@),
        ),
        r.wf(),
{
    let ghost sb = binding_views(stack@);
    let ghost ds = docker_views(docker@);
    let ghost ws = wsl_views(wsl@);
    let conflict_pids = conflict_pids(&stack);
    let orphan_pids = orphan_pids(&stack);
    let mut bindings = stack;
    let stack_empty = bindings.len() == 0;
    let mut i: usize = 0;
    while i < docker.len()
        invariant
            i <= docker.len(),
            ds == docker_views(docker@),
            binding_views(bindings@) == sb + docker_part(ds.subrange(0, i as int)),
        decreases docker.len() - i,
    {
        let ghost before = bindings@;
        bindings.push(docker_to_binding(&docker[i]));
        assert(binding_views(bindings@) =~= binding_views(before).push(docker_binding(ds[i as int])));
        assert(docker_part(ds.subrange(0, i + 1)) =~= docker_part(ds.subrange(0, i as int)).push(
            docker_binding(ds[i as int]),
        ));
        assert(binding_views(bindings@) =~= sb + docker_part(ds.subrange(0, i + 1)));
        i = i + 1;
    }
    assert(ds.subrange(0, ds.len() as int) =~= ds);
    let ghost with_docker = binding_views(bindings@);
    let suppress = docker.len() > 0;
    let mut j: usize = 0;
    assert(with_docker =~= with_docker + wsl_part(ws.subrange(0, 0), suppress));
    while j < wsl.len()
        invariant
            j <= wsl.len(),
            ws == wsl_views(wsl@),
            binding_views(bindings@) == with_docker + wsl_part(ws.subrange(0, j as int), suppress),
        decreases wsl.len() - j,
    {
        let ghost next = ws.subrange(0, j + 1);
        assert(next.drop_last() =~= ws.subrange(0, j as int));
        let ghost before = bindings@;
        let engine = is_docker_related(wsl[j].process_name.as_str());
        if !(suppress && engine) {
            bindings.push(wsl_to_binding(&wsl[j]));
            assert(binding_views(bindings@) =~= binding_views(before).push(wsl_binding(ws[j as int])));
        }
        assert(binding_views(bindings@) =~= with_docker + wsl_part(next, suppress));
        j = j + 1;
    }
    assert(ws.subrange(0, ws.len() as int) =~= ws);
    let shadow = probe_in_use && stack_empty && docker.len() == 0 && wsl.len() == 0;
    if shadow {
        let ghost before = bindings@;
        bindings.push(shadow_to_binding(port));
        assert(binding_views(bindings@) =~= binding_views(before).push(shadow_binding(port)));
    }
    let r = PortScanResult {
        bindings,
        conflict_pids,
        orphan_pids,
        docker_bindings: docker,
        wsl_bindings: wsl,
        shadow_detected: shadow,
    };
    r
}

/// The port scan. Scans `port`: the host stack's rows (`None` when the table could not be
/// read) against a process snapshot, the bind probe's verdict, the container
/// mappings and the guest sockets for the port, merged into one result.
pub fn scan(
    port: u16,
    sockets: Option<&Vec<SocketEntry>>,
    procs: &Vec<ProcessEntry>,
    probe_in_use: bool,
    docker: Vec<DockerPortBinding>,
    wsl: Vec<WslPortBinding>,
) -> (r: PortScanResult)
    ensures
        r@ == scan_view(
            port,
            stack_bindings_of(table_rows(sockets), procs@, port),
            probe_in_use,
            docker_views(docker@),
            wsl_views(wsl@),
        ),
        r.wf(),
        no_rows_on(table_rows(sockets), port) && !probe_in_use && docker@.len() == 0
            && wsl@.len() == 0 ==> r@.bindings.len() == 0 && !r.shadow_detected,
        no_rows_on(table_rows(sockets), port) && probe_in_use && docker@.len() == 0 && wsl@.len()
            == 0 ==> r.shadow_detected && r@.bindings == seq![shadow_binding(port)],
        docker@.len() > 0 ==> forall|j: int|
            0 <= j < docker@.len() ==> r@.bindings.contains(
                docker_binding(#[trigger] docker_views(docker@)[j]),
            ),
        docker@.len() > 0 ==> forall|k: int|
            0 <= k < r@.bindings.len() && (#[trigger] r@.bindings[k]).source == BindingSource::Wsl
                ==> exists|j: int|
                0 <= j < wsl@.len() && r@.bindings[k] == wsl_binding(wsl_views(wsl@)[j])
                    && !docker_related(wsl_views(wsl@)[j].process_name),
{
    let stack = match sockets {
        Some(e) => stack_bindings_exec(e, procs, port),
        None => Vec::new(),
    };
    assert(binding_views(stack@) =~= stack_bindings_of(
        match sockets {
            Some(e) => Some(e@),
            None => None,
        },
        procs@,
        port,
    ));
    proof {
        let rows = table_rows(sockets);
        let ds = docker_views(docker@);
        let ws = wsl_views(wsl@);
        if no_rows_on(rows, port) && ds.len() == 0 && ws.len() == 0 {
            lemma_quiet_port(port, rows, procs@, ds, ws);
            lemma_shadow_port(port, rows, procs@, ds, ws);
        }
        if ds.len() > 0 {
            lemma_engine_guests_suppressed(port, rows, procs@, probe_in_use, ds, ws);
        }
    }
    reconcile(port, stack, probe_in_use, docker, wsl)
}

/// No row of the table (when read) is on `port`.
pub open spec fn no_rows_on(sockets: Option<Seq<SocketEntry>>, port: u16) -> bool {
    match sockets {
        Some(e) => forall|i: int| 0 <= i < e.len() ==> #[trigger] e[i].local_port != port,
        None => true,
    }
}

proof fn lemma_stack_empty(sockets: Option<Seq<SocketEntry>>, procs: Seq<ProcessEntry>, port: u16)
    requires
        no_rows_on(sockets, port),
    ensures
        stack_bindings_of(sockets, procs, port).len() == 0,
{
    match sockets {
        Some(e) => lemma_no_rows_no_bindings(e, procs, port),
        None => {},
    }
}

/// A port that no source reports, and that the probe finds free, has no
/// bindings and no shadow verdict.
pub proof fn lemma_quiet_port(
    port: u16,
    sockets: Option<Seq<SocketEntry>>,
    procs: Seq<ProcessEntry>,
    ds: Seq<DockerView>,
    ws: Seq<WslView>,
)
    requires
        no_rows_on(sockets, port),
        ds.len() == 0,
        ws.len() == 0,
    ensures
        scan_view(port, stack_bindings_of(sockets, procs, port), false, ds, ws).bindings.len() == 0,
        !scan_view(port, stack_bindings_of(sockets, procs, port), false, ds, ws).shadow_detected,
{
    lemma_stack_empty(sockets, procs, port);
    assert(wsl_part(ws, false).len() == 0);
}

/// A port that the probe finds busy while no source reports it gets the
/// shadow verdict and exactly one binding: the placeholder for that port.
pub proof fn lemma_shadow_port(
    port: u16,
    sockets: Option<Seq<SocketEntry>>,
    procs: Seq<ProcessEntry>,
    ds: Seq<DockerView>,
    ws: Seq<WslView>,
)
    requires
        no_rows_on(sockets, port),
        ds.len() == 0,
        ws.len() == 0,
    ensures
        ({
            let v = scan_view(port, stack_bindings_of(sockets, procs, port), true, ds, ws);
            &&& v.shadow_detected
            &&& v.bindings == seq![shadow_binding(port)]
            &&& v.bindings[0].source == BindingSource::UnknownShadow
            &&& v.bindings[0].local_port == port
        }),
{
    lemma_stack_empty(sockets, procs, port);
    let sb = stack_bindings_of(sockets, procs, port);
    assert(wsl_part(ws, false).len() == 0);
    assert(sb + docker_part(ds) + wsl_part(ws, false) =~= Seq::<BindingView>::empty());
    assert(Seq::<BindingView>::empty().push(shadow_binding(port)) =~= seq![shadow_binding(port)]);
}

/// Each guest binding kept with suppression on comes from a guest socket
/// whose process is not the container engine.
pub proof fn lemma_wsl_part_kept(ws: Seq<WslView>)
    ensures
        forall|k: int|
            0 <= k < wsl_part(ws, true).len() ==> exists|j: int|
                0 <= j < ws.len() && #[trigger] wsl_part(ws, true)[k] == wsl_binding(ws[j])
                    && !docker_related(ws[j].process_name),
    decreases ws.len(),
{
    if ws.len() > 0 {
        let prev = ws.drop_last();
        lemma_wsl_part_kept(prev);
        let wp = wsl_part(ws, true);
        let pp = wsl_part(prev, true);
        assert forall|k: int| 0 <= k < wp.len() implies exists|j: int|
            0 <= j < ws.len() && #[trigger] wp[k] == wsl_binding(ws[j]) && !docker_related(
                ws[j].process_name,
            ) by {
            if k < pp.len() {
                assert(wp[k] == pp[k]);
                let j = choose|j: int|
                    0 <= j < prev.len() && pp[k] == wsl_binding(prev[j]) && !docker_related(
                        prev[j].process_name,
                    );
                assert(ws[j] == prev[j]);
            } else {
                assert(wp[k] == wsl_binding(ws[ws.len() - 1]));
            }
        }
    }
}

/// When containers publish the port, every container mapping appears among
/// the bindings, and no guest binding of a container-engine process does.
pub proof fn lemma_engine_guests_suppressed(
    port: u16,
    sockets: Option<Seq<SocketEntry>>,
    procs: Seq<ProcessEntry>,
    probe_in_use: bool,
    ds: Seq<DockerView>,
    ws: Seq<WslView>,
)
    requires
        ds.len() > 0,
    ensures
        ({
            let v = scan_view(port, stack_bindings_of(sockets, procs, port), probe_in_use, ds, ws);
            &&& forall|j: int| 0 <= j < ds.len() ==> v.bindings.contains(docker_binding(#[trigger] ds[j]))
            &&& forall|k: int|
                0 <= k < v.bindings.len() && (#[trigger] v.bindings[k]).source == BindingSource::Wsl
                    ==> exists|j: int|
                    0 <= j < ws.len() && v.bindings[k] == wsl_binding(ws[j]) && !docker_related(
                        ws[j].process_name,
                    )
        }),
{
    let sb = stack_bindings_of(sockets, procs, port);
    match sockets {
        Some(e) => lemma_stack_source(e, procs, port),
        None => {},
    }
    lemma_wsl_part_kept(ws);
    let v = scan_view(port, sb, probe_in_use, ds, ws);
    let dp = docker_part(ds);
    let wp = wsl_part(ws, true);
    assert(!shadow_verdict(probe_in_use, sb, ds, ws));
    assert(v.bindings == sb + dp + wp);
    assert forall|j: int| 0 <= j < ds.len() implies v.bindings.contains(docker_binding(#[trigger] ds[j])) by {
        assert(v.bindings[sb.len() + j] == dp[j]);
    }
    assert forall|k: int|
        0 <= k < v.bindings.len() && (#[trigger] v.bindings[k]).source == BindingSource::Wsl
        implies exists|j: int|
        0 <= j < ws.len() && v.bindings[k] == wsl_binding(ws[j]) && !docker_related(
            ws[j].process_name,
        ) by {
        if k < sb.len() {
            assert(v.bindings[k] == sb[k]);
            assert(sb[k].source == BindingSource::WindowsStack);
        } else if k < sb.len() + dp.len() {
            assert(v.bindings[k] == dp[k - sb.len()]);
        } else {
            assert(v.bindings[k] == wp[k - sb.len() - dp.len()]);
        }
    }
}

/// The result depends on what the sources report and nothing else: two scans
/// of the same port over the same reports are equal.
pub proof fn lemma_scan_deterministic(
    port: u16,
    sockets_a: Option<Seq<SocketEntry>>,
    sockets_b: Option<Seq<SocketEntry>>,
    procs_a: Seq<ProcessEntry>,
    procs_b: Seq<ProcessEntry>,
    probe_in_use: bool,
    ds: Seq<DockerView>,
    ws: Seq<WslView>,
)
    requires
        stack_bindings_of(sockets_a, procs_a, port) == stack_bindings_of(sockets_b, procs_b, port),
    ensures
        scan_view(port, stack_bindings_of(sockets_a, procs_a, port), probe_in_use, ds, ws)
            == scan_view(port, stack_bindings_of(sockets_b, procs_b, port), probe_in_use, ds, ws),
{
}

} // verus!
