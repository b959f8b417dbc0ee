//! The host TCP stack: classifying socket table rows against a process
//! snapshot, and the conflict and orphan sets they give.

use vstd::prelude::*;
use vstd::string::*;
use crate::state::{BindingSource, BindingView, PortBinding, PortScanResult, ScanView, binding_views};
use crate::text::{chars_of, matches_at, occurs_at};

verus! {

/// One row of the host TCP socket table.
#[derive(Debug)]
pub struct SocketEntry {
    /// Local address, without the port.
    pub local_ip: String,
    pub local_port: u16,
    /// Owning process id; 0 when the table names none.
    pub pid: u32,
    /// Connection state as the table reports it.
    pub state: String,
}

/// One process of a process snapshot.
#[derive(Debug)]
pub struct ProcessEntry {
    pub pid: u32,
    pub name: String,
}

/// The name of the first process of `procs` with id `pid`.
pub open spec fn process_name_in(procs: Seq<ProcessEntry>, pid: u32) -> Option<Seq<char>>
    decreases procs.len(),
{
    if procs.len() == 0 {
        None
    } else if procs[0].pid == pid {
        Some(procs[0].name@)
    } else {
        process_name_in(procs.drop_first(), pid)
    }
}

/// Process ids the kernel reserves: the idle process and the system process.
pub open spec fn is_system_pid(pid: u32) -> bool {
    pid == 0 || pid == 4
}

/// Addresses in 127.0.0.0/8, and the IPv6 loopback (bare or bracketed).
pub open spec fn loopback_address(ip: Seq<char>) -> bool {
    occurs_at(ip, seq!['1', '2', '7', '.'], 0) || ip == seq![':', ':', '1'] || ip == seq![
        '[',
        ':',
        ':',
        '1',
        ']',
    ]
}

/// The IPv4 and IPv6 wildcard addresses (the latter bare or bracketed), and `*`.
pub open spec fn wildcard_address(ip: Seq<char>) -> bool {
    ip == seq!['0', '.', '0', '.', '0', '.', '0'] || ip == seq![':', ':'] || ip == seq![
        '[',
        ':',
        ':',
        ']',
    ] || ip == seq!['*']
}

fn same_chars(v: &Vec<char>, t: &Vec<char>) -> (r: bool)
    ensures
        r == (v@ == t@),
{
    if v.len() != t.len() {
        return false;
    }
    let r = matches_at(v, t, 0);
    assert(v@.subrange(0, t@.len() as int) =~= v@);
    r
}

/// Whether `ip` is a loopback address.
pub fn is_loopback_address(ip: &str) -> (r: bool)
    ensures
        r == loopback_address(ip@),
{
    let v = chars_of(ip);
    matches_at(&v, &vec!['1', '2', '7', '.'], 0) || same_chars(&v, &vec![':', ':', '1'])
        || same_chars(&v, &vec!['[', ':', ':', '1', ']'])
}

/// Whether `ip` is a wildcard address.
pub fn is_wildcard_address(ip: &str) -> (r: bool)
    ensures
        r == wildcard_address(ip@),
{
    let v = chars_of(ip);
    let any4 = vec!['0', '.', '0', '.', '0', '.', '0'];
    let any6 = vec![':', ':'];
    let any6b = vec!['[', ':', ':', ']'];
    let star = vec!['*'];
    assert(any4@ =~= seq!['0', '.', '0', '.', '0', '.', '0']);
    assert(any6@ =~= seq![':', ':']);
    assert(any6b@ =~= seq!['[', ':', ':', ']']);
    assert(star@ =~= seq!['*']);
    let a = same_chars(&v, &any4);
    let b = same_chars(&v, &any6);
    let c = same_chars(&v, &any6b);
    let d = same_chars(&v, &star);
    a || b || c || d
}

/// The binding that a socket table row gives, against a process snapshot.
pub open spec fn stack_binding(e: SocketEntry, procs: Seq<ProcessEntry>) -> BindingView {
    let found = process_name_in(procs, e.pid);
    BindingView {
        pid: e.pid,
        process_name: if e.pid == 0 {
            "[System Idle]"@
        } else if e.pid == 4 {
            "[System]"@
        } else if found is Some {
            found->0
        } else {
            "<orphaned>"@
        },
        local_ip: e.local_ip@,
        local_port: e.local_port,
        state: e.state@,
        is_loopback: loopback_address(e.local_ip@),
        is_all_interfaces: wildcard_address(e.local_ip@),
        is_orphan: !is_system_pid(e.pid) && found is None,
        is_system: is_system_pid(e.pid),
        source: BindingSource::WindowsStack,
        source_detail: Seq::empty(),
    }
}

/// The bindings of the rows on `port`, in table order.
pub open spec fn stack_bindings(
    entries: Seq<SocketEntry>,
    procs: Seq<ProcessEntry>,
    port: u16,
) -> Seq<BindingView>
    decreases entries.len(),
{
    if entries.len() == 0 {
        Seq::empty()
    } else {
        let prev = stack_bindings(entries.drop_last(), procs, port);
        if entries.last().local_port == port {
            prev.push(stack_binding(entries.last(), procs))
        } else {
            prev
        }
    }
}

/// Process ids with both a loopback and a wildcard binding among `bs`.
pub open spec fn conflict_set(bs: Seq<BindingView>) -> Set<u32> {
    Set::new(
        |p: u32|
            (exists|i: int| 0 <= i < bs.len() && bs[i].pid == p && bs[i].is_loopback) && (exists|
                j: int,
            |
                0 <= j < bs.len() && bs[j].pid == p && bs[j].is_all_interfaces),
    )
}

/// Process ids of the orphaned bindings among `bs`.
pub open spec fn orphan_set(bs: Seq<BindingView>) -> Set<u32> {
    Set::new(|p: u32| exists|i: int| 0 <= i < bs.len() && bs[i].pid == p && bs[i].is_orphan)
}

/// Looks a process id up in a snapshot.
pub fn lookup_process(procs: &Vec<ProcessEntry>, pid: u32) -> (r: Option<String>)
    ensures
        r matches Some(n) ==> process_name_in(procs@, pid) == Some(n@),
        r is None ==> process_name_in(procs@, pid) is None,
{
    let mut i: usize = 0;
    assert(procs@.subrange(0, procs@.len() as int) =~= procs@);
    while i < procs.len()
        invariant
            i <= procs.len(),
            process_name_in(procs@, pid) == process_name_in(
                procs@.subrange(i as int, procs@.len() as int),
                pid,
            ),
        decreases procs.len() - i,
    {
        let ghost rest = procs@.subrange(i as int, procs@.len() as int);
        assert(rest.drop_first() =~= procs@.subrange(i + 1, procs@.len() as int));
        assert(rest[0] == procs@[i as int]);
        if procs[i].pid == pid {
            return Some(procs[i].name.clone());
        }
        i = i + 1;
    }
    None
}

/// Classifies one socket table row against a process snapshot.
pub fn classify_entry(e: &SocketEntry, procs: &Vec<ProcessEntry>) -> (r: PortBinding)
    ensures
        r@ == stack_binding(*e, procs@),
{
    let pid = e.pid;
    let is_system = pid == 0 || pid == 4;
    let found = lookup_process(procs, pid);
    let is_orphan = !is_system && found.is_none();
    let process_name = if pid == 0 {
        String::from_str("[System Idle]")
    } else if pid == 4 {
        String::from_str("[System]")
    } else {
        match found {
            Some(n) => n,
            None => String::from_str("<orphaned>"),
        }
    };
    let r = PortBinding {
        pid,
        process_name,
        local_ip: e.local_ip.clone(),
        local_port: e.local_port,
        state: e.state.clone(),
        is_loopback: is_loopback_address(e.local_ip.as_str()),
        is_all_interfaces: is_wildcard_address(e.local_ip.as_str()),
        is_orphan,
        is_system,
        source: BindingSource::WindowsStack,
        source_detail: String::new(),
    };
    assert(r@.source_detail =~= Seq::<char>::empty());
    r
}

fn contains_pid(v: &Vec<u32>, p: u32) -> (r: bool)
    ensures
        r == v@.contains(p),
{
    let mut i: usize = 0;
    while i < v.len()
        invariant
            i <= v.len(),
            forall|k: int| 0 <= k < i ==> v@[k] != p,
        decreases v.len() - i,
    {
        if v[i] == p {
            return true;
        }
        i = i + 1;
    }
    false
}

spec fn loopback_before(bs: Seq<PortBinding>, p: u32, n: int) -> bool {
    exists|k: int| 0 <= k < n && bs[k].pid == p && bs[k].is_loopback
}

spec fn wildcard_in(bs: Seq<PortBinding>, p: u32) -> bool {
    exists|j: int| 0 <= j < bs.len() && bs[j].pid == p && bs[j].is_all_interfaces
}

spec fn orphan_before(bs: Seq<PortBinding>, p: u32, n: int) -> bool {
    exists|k: int| 0 <= k < n && bs[k].pid == p && bs[k].is_orphan
}

fn has_wildcard_binding(bs: &Vec<PortBinding>, p: u32) -> (r: bool)
    ensures
        r == wildcard_in(bs@, p),
{
    let mut i: usize = 0;
    while i < bs.len()
        invariant
            i <= bs.len(),
            forall|k: int| 0 <= k < i ==> !(bs@[k].pid == p && bs@[k].is_all_interfaces),
        decreases bs.len() - i,
    {
        if bs[i].pid == p && bs[i].is_all_interfaces {
            return true;
        }
        i = i + 1;
    }
    false
}

/// The process ids bound to the port on both a loopback and a wildcard
/// address, each once.
pub fn conflict_pids(bs: &Vec<PortBinding>) -> (r: Vec<u32>)
    ensures
        r@.to_set() == conflict_set(binding_views(bs@)),
        r@.no_duplicates(),
{
    let ghost views = binding_views(bs@);
    let mut r: Vec<u32> = Vec::new();
    let mut i: usize = 0;
    while i < bs.len()
        invariant
            i <= bs.len(),
            views == binding_views(bs@),
            r@.no_duplicates(),
            forall|q: u32|
                r@.contains(q) <==> (loopback_before(bs@, q, i as int) && wildcard_in(bs@, q)),
        decreases bs.len() - i,
    {
        let p = bs[i].pid;
        let ghost old_r = r@;
        let lo = bs[i].is_loopback;
        let wild = has_wildcard_binding(bs, p);
        let seen = contains_pid(&r, p);
        if lo && wild && !seen {
            r.push(p);
            proof {
                assert forall|x: int, y: int| 0 <= x < y < r@.len() implies r@[x] != r@[y] by {
                    if y == r@.len() - 1 {
                        assert(old_r.contains(old_r[x]));
                    } else {
                        assert(old_r[x] != old_r[y]);
                    }
                }
            }
        }
        proof {
            assert forall|q: u32|
                r@.contains(q) <==> (loopback_before(bs@, q, i + 1) && wildcard_in(bs@, q)) by {
                assert(r@.contains(q) <==> (old_r.contains(q) || (lo && wild && !seen && q == p)))
                    by {
                    if old_r.contains(q) {
                        let x = choose|x: int| 0 <= x < old_r.len() && old_r[x] == q;
                        assert(r@[x] == q);
                    }
                    if lo && wild && !seen && q == p {
                        assert(r@[r@.len() - 1] == q);
                    }
                }
                assert(loopback_before(bs@, q, i + 1) <==> (loopback_before(bs@, q, i as int) || (
                q == p && lo))) by {
                    if loopback_before(bs@, q, i + 1) {
                        let k = choose|k: int| 0 <= k < i + 1 && bs@[k].pid == q && bs@[k].is_loopback;
                        if k < i {
                            assert(loopback_before(bs@, q, i as int));
                        }
                    }
                    if loopback_before(bs@, q, i as int) {
                        let k = choose|k: int| 0 <= k < i && bs@[k].pid == q && bs@[k].is_loopback;
                        assert(loopback_before(bs@, q, i + 1));
                    }
                    if q == p && lo {
                        assert(bs@[i as int].pid == q);
                        assert(loopback_before(bs@, q, i + 1));
                    }
                }
            }
        }
        i = i + 1;
    }
    assert(r@.to_set() =~= conflict_set(views)) by {
        assert forall|p: u32| r@.to_set().contains(p) == conflict_set(views).contains(p) by {
            if r@.contains(p) {
                let k = choose|k: int| 0 <= k < bs@.len() && bs@[k].pid == p && bs@[k].is_loopback;
                let j = choose|j: int|
                    0 <= j < bs@.len() && bs@[j].pid == p && bs@[j].is_all_interfaces;
                assert(views[k].pid == p && views[k].is_loopback);
                assert(views[j].pid == p && views[j].is_all_interfaces);
            }
            if conflict_set(views).contains(p) {
                let k = choose|k: int| 0 <= k < views.len() && views[k].pid == p && views[k].is_loopback;
                let j = choose|j: int|
                    0 <= j < views.len() && views[j].pid == p && views[j].is_all_interfaces;
                assert(bs@[k].pid == p && bs@[k].is_loopback);
                assert(bs@[j].pid == p && bs@[j].is_all_interfaces);
            }
        }
    }
    r
}

/// The process ids of the orphaned bindings, each once.
pub fn orphan_pids(bs: &Vec<PortBinding>) -> (r: Vec<u32>)
    ensures
        r@.to_set() == orphan_set(binding_views(bs@)),
        r@.no_duplicates(),
{
    let ghost views = binding_views(bs@);
    let mut r: Vec<u32> = Vec::new();
    let mut i: usize = 0;
    while i < bs.len()
        invariant
            i <= bs.len(),
            views == binding_views(bs@),
            r@.no_duplicates(),
            forall|q: u32| r@.contains(q) <==> orphan_before(bs@, q, i as int),
        decreases bs.len() - i,
    {
        let p = bs[i].pid;
        let ghost old_r = r@;
        let orph = bs[i].is_orphan;
        let seen = contains_pid(&r, p);
        if orph && !seen {
            r.push(p);
            proof {
                assert forall|x: int, y: int| 0 <= x < y < r@.len() implies r@[x] != r@[y] by {
                    if y == r@.len() - 1 {
                        assert(old_r.contains(old_r[x]));
                    } else {
                        assert(old_r[x] != old_r[y]);
                    }
                }
            }
        }
        proof {
            assert forall|q: u32| r@.contains(q) <==> orphan_before(bs@, q, i + 1) by {
                assert(r@.contains(q) <==> (old_r.contains(q) || (orph && !seen && q == p))) by {
                    if old_r.contains(q) {
                        let x = choose|x: int| 0 <= x < old_r.len() && old_r[x] == q;
                        assert(r@[x] == q);
                    }
                    if orph && !seen && q == p {
                        assert(r@[r@.len() - 1] == q);
                    }
                }
                assert(orphan_before(bs@, q, i + 1) <==> (orphan_before(bs@, q, i as int) || (q
                    == p && orph))) by {
                    if orphan_before(bs@, q, i + 1) {
                        let k = choose|k: int| 0 <= k < i + 1 && bs@[k].pid == q && bs@[k].is_orphan;
                        if k < i {
                            assert(orphan_before(bs@, q, i as int));
                        }
                    }
                    if orphan_before(bs@, q, i as int) {
                        let k = choose|k: int| 0 <= k < i && bs@[k].pid == q && bs@[k].is_orphan;
                        assert(orphan_before(bs@, q, i + 1));
                    }
                    if q == p && orph {
                        assert(bs@[i as int].pid == q);
                        assert(orphan_before(bs@, q, i + 1));
                    }
                }
            }
        }
        i = i + 1;
    }
    assert(r@.to_set() =~= orphan_set(views)) by {
        assert forall|p: u32| r@.to_set().contains(p) == orphan_set(views).contains(p) by {
            if r@.contains(p) {
                let k = choose|k: int| 0 <= k < bs@.len() && bs@[k].pid == p && bs@[k].is_orphan;
                assert(views[k].pid == p && views[k].is_orphan);
            }
            if orphan_set(views).contains(p) {
                let k = choose|k: int| 0 <= k < views.len() && views[k].pid == p && views[k].is_orphan;
                assert(bs@[k].pid == p && bs@[k].is_orphan);
            }
        }
    }
    r
}

/// The rows of a socket table that could be read.
pub open spec fn table_rows(sockets: Option<&Vec<SocketEntry>>) -> Option<Seq<SocketEntry>> {
    match sockets {
        Some(e) => Some(e@),
        None => None,
    }
}

/// The host stack's bindings for `port`; none when the table could not be read.
pub open spec fn stack_bindings_of(
    sockets: Option<Seq<SocketEntry>>,
    procs: Seq<ProcessEntry>,
    port: u16,
) -> Seq<BindingView> {
    match sockets {
        Some(e) => stack_bindings(e, procs, port),
        None => Seq::empty(),
    }
}

/// What the host stack alone says of `port`.
pub open spec fn stack_result(
    sockets: Option<Seq<SocketEntry>>,
    procs: Seq<ProcessEntry>,
    port: u16,
) -> ScanView {
    let bs = stack_bindings_of(sockets, procs, port);
    ScanView {
        bindings: bs,
        conflict_pids: conflict_set(bs),
        orphan_pids: orphan_set(bs),
        docker_bindings: Seq::empty(),
        wsl_bindings: Seq::empty(),
        shadow_detected: false,
    }
}

/// The bindings of the rows on `port`, in table order.
pub fn stack_bindings_exec(entries: &Vec<SocketEntry>, procs: &Vec<ProcessEntry>, port: u16) -> (r:
    Vec<PortBinding>)
    ensures
        binding_views(r@) == stack_bindings(entries@, procs@, port),
{
    let mut out: Vec<PortBinding> = Vec::new();
    let mut i: usize = 0;
    while i < entries.len()
        invariant
            i <= entries.len(),
            binding_views(out@) == stack_bindings(entries@.subrange(0, i as int), procs@, port),
        decreases entries.len() - i,
    {
        let ghost next = entries@.subrange(0, i + 1);
        assert(next.drop_last() =~= entries@.subrange(0, i as int));
        if entries[i].local_port == port {
            let b = classify_entry(&entries[i], procs);
            out.push(b);
            assert(binding_views(out@) =~= stack_bindings(next, procs@, port));
        } else {
            assert(binding_views(out@) =~= stack_bindings(next, procs@, port));
        }
        i = i + 1;
    }
    assert(entries@.subrange(0, entries@.len() as int) =~= entries@);
    out
}

/// Reads the host stack's rows for `port` against a process snapshot: each
/// row classified, then the conflict and orphan sets. `None` stands for a
/// table that could not be read, and gives an empty result.
pub fn list_windows_bindings(port: u16, sockets: Option<&Vec<SocketEntry>>, procs: &Vec<ProcessEntry>) -> (r:
    PortScanResult)
    ensures
        r@ == stack_result(table_rows(sockets), procs@, port),
        r.wf(),
{
    let bindings = match sockets {
        Some(e) => stack_bindings_exec(e, procs, port),
        None => Vec::new(),
    };
    let conflict = conflict_pids(&bindings);
    let orphan = orphan_pids(&bindings);
    let r = PortScanResult {
        bindings,
        conflict_pids: conflict,
        orphan_pids: orphan,
        docker_bindings: Vec::new(),
        wsl_bindings: Vec::new(),
        shadow_detected: false,
    };
    assert(r@.bindings =~= stack_bindings_of(
        match sockets {
            Some(e) => Some(e@),
            None => None,
        },
        procs@,
        port,
    ));
    assert(r@.docker_bindings =~= Seq::empty());
    assert(r@.wsl_bindings =~= Seq::empty());
    r
}

/// Whether `b` is the binding of some row of `entries` on `port`.
pub open spec fn from_row(
    entries: Seq<SocketEntry>,
    procs: Seq<ProcessEntry>,
    port: u16,
    b: BindingView,
) -> bool {
    exists|i: int|
        0 <= i < entries.len() && entries[i].local_port == port && b == stack_binding(
            entries[i],
            procs,
        )
}

/// Each host binding comes from a row on the port, and each row on the port
/// gives a binding.
pub proof fn lemma_stack_rows(entries: Seq<SocketEntry>, procs: Seq<ProcessEntry>, port: u16)
    ensures
        forall|k: int|
            0 <= k < stack_bindings(entries, procs, port).len() ==> from_row(
                entries,
                procs,
                port,
                #[trigger] stack_bindings(entries, procs, port)[k],
            ),
        forall|i: int|
            0 <= i < entries.len() && #[trigger] entries[i].local_port == port ==> stack_bindings(
                entries,
                procs,
                port,
            ).contains(stack_binding(entries[i], procs)),
    decreases entries.len(),
{
    if entries.len() > 0 {
        let prev = entries.drop_last();
        lemma_stack_rows(prev, procs, port);
        let sb = stack_bindings(entries, procs, port);
        let pb = stack_bindings(prev, procs, port);
        let last = entries[entries.len() - 1];
        assert(sb == if last.local_port == port {
            pb.push(stack_binding(last, procs))
        } else {
            pb
        });
        assert forall|k: int| 0 <= k < sb.len() implies from_row(entries, procs, port, #[trigger] sb[k]) by {
            if k < pb.len() {
                assert(sb[k] == pb[k]);
                assert(from_row(prev, procs, port, pb[k]));
                let i = choose|i: int|
                    0 <= i < prev.len() && prev[i].local_port == port && pb[k] == stack_binding(
                        prev[i],
                        procs,
                    );
                assert(entries[i] == prev[i]);
            } else {
                assert(sb[k] == stack_binding(entries[entries.len() - 1], procs));
            }
        }
        assert forall|i: int| 0 <= i < entries.len() && #[trigger] entries[i].local_port == port
            implies sb.contains(stack_binding(entries[i], procs)) by {
            if i < prev.len() {
                assert(prev[i] == entries[i]);
                assert(prev[i].local_port == port);
                assert(pb.contains(stack_binding(prev[i], procs)));
                let k = choose|k: int| 0 <= k < pb.len() && pb[k] == stack_binding(prev[i], procs);
                assert(sb[k] == pb[k]);
            } else {
                assert(sb[pb.len() as int] == stack_binding(entries[i], procs));
            }
        }
    }
}

/// Every host binding carries the host-stack source.
pub proof fn lemma_stack_source(entries: Seq<SocketEntry>, procs: Seq<ProcessEntry>, port: u16)
    ensures
        forall|k: int|
            0 <= k < stack_bindings(entries, procs, port).len() ==> (#[trigger] stack_bindings(
                entries,
                procs,
                port,
            )[k]).source == BindingSource::WindowsStack,
{
    lemma_stack_rows(entries, procs, port);
}

/// With no row on the port, the host stack gives no binding.
pub proof fn lemma_no_rows_no_bindings(entries: Seq<SocketEntry>, procs: Seq<ProcessEntry>, port: u16)
    requires
        forall|i: int| 0 <= i < entries.len() ==> #[trigger] entries[i].local_port != port,
    ensures
        stack_bindings(entries, procs, port).len() == 0,
    decreases entries.len(),
{
    if entries.len() > 0 {
        let prev = entries.drop_last();
        assert forall|i: int| 0 <= i < prev.len() implies #[trigger] prev[i].local_port != port by {
            assert(prev[i] == entries[i]);
        }
        lemma_no_rows_no_bindings(prev, procs, port);
        assert(entries[entries.len() - 1].local_port != port);
    }
}

/// A process with a loopback row and a wildcard row on the port is a conflict.
pub proof fn lemma_conflict_detected(
    entries: Seq<SocketEntry>,
    procs: Seq<ProcessEntry>,
    port: u16,
    i: int,
    j: int,
)
    requires
        0 <= i < entries.len(),
        0 <= j < entries.len(),
        entries[i].local_port == port,
        entries[j].local_port == port,
        entries[i].pid == entries[j].pid,
        loopback_address(entries[i].local_ip@),
        wildcard_address(entries[j].local_ip@),
    ensures
        conflict_set(stack_bindings(entries, procs, port)).contains(entries[i].pid),
{
    lemma_stack_rows(entries, procs, port);
    let sb = stack_bindings(entries, procs, port);
    assert(entries[i].local_port == port);
    assert(entries[j].local_port == port);
    let k1 = choose|k: int| 0 <= k < sb.len() && sb[k] == stack_binding(entries[i], procs);
    let k2 = choose|k: int| 0 <= k < sb.len() && sb[k] == stack_binding(entries[j], procs);
    assert(sb[k1].pid == entries[i].pid && sb[k1].is_loopback);
    assert(sb[k2].pid == entries[i].pid && sb[k2].is_all_interfaces);
}

/// A process none of whose rows on the port is on a wildcard address is no
/// conflict.
pub proof fn lemma_no_conflict_without_wildcard(
    entries: Seq<SocketEntry>,
    procs: Seq<ProcessEntry>,
    port: u16,
    pid: u32,
)
    requires
        forall|i: int|
            0 <= i < entries.len() && entries[i].local_port == port && entries[i].pid == pid
                ==> !wildcard_address(#[trigger] entries[i].local_ip@),
    ensures
        !conflict_set(stack_bindings(entries, procs, port)).contains(pid),
{
    lemma_stack_rows(entries, procs, port);
    let sb = stack_bindings(entries, procs, port);
    assert forall|k: int| 0 <= k < sb.len() && sb[k].pid == pid implies !sb[k].is_all_interfaces by {
        let i = choose|i: int|
            0 <= i < entries.len() && entries[i].local_port == port && sb[k] == stack_binding(
                entries[i],
                procs,
            );
        assert(!wildcard_address(entries[i].local_ip@));
    }
}

/// A process none of whose rows on the port is on a loopback address is no
/// conflict.
pub proof fn lemma_no_conflict_without_loopback(
    entries: Seq<SocketEntry>,
    procs: Seq<ProcessEntry>,
    port: u16,
    pid: u32,
)
    requires
        forall|i: int|
            0 <= i < entries.len() && entries[i].local_port == port && entries[i].pid == pid
                ==> !loopback_address(#[trigger] entries[i].local_ip@),
    ensures
        !conflict_set(stack_bindings(entries, procs, port)).contains(pid),
{
    lemma_stack_rows(entries, procs, port);
    let sb = stack_bindings(entries, procs, port);
    assert forall|k: int| 0 <= k < sb.len() && sb[k].pid == pid implies !sb[k].is_loopback by {
        let i = choose|i: int|
            0 <= i < entries.len() && entries[i].local_port == port && sb[k] == stack_binding(
                entries[i],
                procs,
            );
        assert(!loopback_address(entries[i].local_ip@));
    }
}

/// A row on the port whose (non-reserved) process is missing from the
/// snapshot gives an orphaned binding, and its id is an orphan.
pub proof fn lemma_orphan_detected(
    entries: Seq<SocketEntry>,
    procs: Seq<ProcessEntry>,
    port: u16,
    i: int,
)
    requires
        0 <= i < entries.len(),
        entries[i].local_port == port,
        !is_system_pid(entries[i].pid),
        process_name_in(procs, entries[i].pid) is None,
    ensures
        stack_binding(entries[i], procs).is_orphan,
        orphan_set(stack_bindings(entries, procs, port)).contains(entries[i].pid),
{
    lemma_stack_rows(entries, procs, port);
    let sb = stack_bindings(entries, procs, port);
    let k = choose|k: int| 0 <= k < sb.len() && sb[k] == stack_binding(entries[i], procs);
    assert(sb[k].pid == entries[i].pid && sb[k].is_orphan);
}

/// The reserved kernel ids are never orphans.
pub proof fn lemma_system_never_orphan(entries: Seq<SocketEntry>, procs: Seq<ProcessEntry>, port: u16)
    ensures
        !orphan_set(stack_bindings(entries, procs, port)).contains(0),
        !orphan_set(stack_bindings(entries, procs, port)).contains(4),
{
    lemma_stack_rows(entries, procs, port);
    let sb = stack_bindings(entries, procs, port);
    assert forall|k: int| 0 <= k < sb.len() && sb[k].is_orphan implies !is_system_pid(sb[k].pid) by {
        let i = choose|i: int|
            0 <= i < entries.len() && entries[i].local_port == port && sb[k] == stack_binding(
                entries[i],
                procs,
            );
    }
}

} // verus!
