//! Remediation: picking a free port, checking a kill request, and the
//! diagnosis offered for an orphaned socket.

use vstd::prelude::*;
use vstd::string::*;
use crate::state::{PortBinding, PortScanResult};
use crate::text::{
    chars_of, contains_seq, dec_digits, text_lines, text_lines_exec, find_seq_exec, push_char, push_dec, split_chars,
    split_on, string_of, views,
};

verus! {

/// The lowest port of `start..=end` that `occupied` does not hold.
pub open spec fn first_free(start: int, end: int, occupied: Seq<u16>) -> Option<int>
    decreases end - start + 1,
{
    if start > end {
        None
    } else if !occupied.contains(start as u16) {
        Some(start)
    } else {
        first_free(start + 1, end, occupied)
    }
}

/// The suggested port is in the range, free, and the lowest free one; no
/// suggestion means every port of the range is occupied.
pub proof fn lemma_first_free(start: int, end: int, occupied: Seq<u16>)
    requires
        0 <= start,
        end <= 65535,
    ensures
        first_free(start, end, occupied) matches Some(p) ==> start <= p <= end
            && !occupied.contains(p as u16) && forall|q: int|
            start <= q < p ==> occupied.contains(#[trigger] (q as u16)),
        first_free(start, end, occupied) is None ==> forall|q: int|
            start <= q <= end ==> occupied.contains(#[trigger] (q as u16)),
    decreases end - start + 1,
{
    if start <= end && occupied.contains(start as u16) {
        lemma_first_free(start + 1, end, occupied);
    }
}

/// The first port of `start..=end` (inclusive) that is free, i.e. not in
/// `occupied`; `None` when the whole range is occupied.
pub fn suggest_free_port(start: u16, end: u16, occupied: &Vec<u16>) -> (r: Option<u16>)
    ensures
        r matches Some(p) ==> first_free(start as int, end as int, occupied@) == Some(p as int),
        r is None ==> first_free(start as int, end as int, occupied@) is None,
{
    let mut p: u32 = start as u32;
    while p <= end as u32
        invariant
            start as u32 <= p <= 65536,
            first_free(start as int, end as int, occupied@) == first_free(
                p as int,
                end as int,
                occupied@,
            ),
        decreases end as u32 + 1 - p,
    {
        let q = p as u16;
        let mut held = false;
        let mut k: usize = 0;
        while k < occupied.len()
            invariant
                k <= occupied.len(),
                held == (exists|m: int| 0 <= m < k && occupied@[m] == q),
            decreases occupied.len() - k,
        {
            if occupied[k] == q {
                held = true;
            }
            k = k + 1;
        }
        if !held {
            assert(!occupied@.contains(q));
            return Some(q);
        }
        p = p + 1;
    }
    None
}

/// What the search for a free port does after probing one port.
#[derive(Clone, Copy, Debug, PartialEq, Eq, Structural)]
pub enum PortSearch {
    /// The probed port is free: it is the answer.
    Found(u16),
    /// The probed port is busy: probe this one next.
    Probe(u16),
    /// The probed port was the last of the range and busy: none is free.
    Exhausted,
}

/// One step of the search for the first free port of `..=end`: `port` has
/// just been probed and found busy (`in_use`) or free. Whatever the set of
/// occupied ports, the step keeps the answer that [`first_free`] gives.
pub fn free_port_step(port: u16, end: u16, in_use: bool) -> (r: PortSearch)
    requires
        port <= end,
    ensures
        r == (if !in_use {
            PortSearch::Found(port)
        } else if port < end {
            PortSearch::Probe((port + 1) as u16)
        } else {
            PortSearch::Exhausted
        }),
        forall|occupied: Seq<u16>|
            #[trigger] occupied.contains(port) == in_use ==> match r {
                PortSearch::Found(p) => first_free(port as int, end as int, occupied) == Some(
                    p as int,
                ),
                PortSearch::Probe(q) => first_free(port as int, end as int, occupied)
                    == first_free(q as int, end as int, occupied),
                PortSearch::Exhausted => first_free(port as int, end as int, occupied) is None,
            },
{
    let r = if !in_use {
        PortSearch::Found(port)
    } else if port < end {
        PortSearch::Probe(port + 1)
    } else {
        PortSearch::Exhausted
    };
    assert forall|occupied: Seq<u16>| #[trigger] occupied.contains(port) == in_use implies match r {
        PortSearch::Found(p) => first_free(port as int, end as int, occupied) == Some(p as int),
        PortSearch::Probe(q) => first_free(port as int, end as int, occupied) == first_free(
            q as int,
            end as int,
            occupied,
        ),
        PortSearch::Exhausted => first_free(port as int, end as int, occupied) is None,
    } by {
        assert(port as int as u16 == port);
        if in_use && port == end {
            assert(first_free(end as int + 1, end as int, occupied) is None);
        }
    }
    r
}

/// What has just happened in the remediation of an orphaned socket.
#[derive(Clone, Copy, Debug, PartialEq, Eq, Structural)]
pub enum RemedyEvent {
    /// The diagnosis is out (either way); whether the caller is elevated.
    Diagnosed { elevated: bool },
    /// The HTTP listener service restart was attempted.
    Restarted,
    /// The port was scanned again; whether the orphan is gone.
    Rescanned { cleared: bool },
}

/// What the remediation does next.
#[derive(Clone, Copy, Debug, PartialEq, Eq, Structural)]
pub enum RemedyAction {
    RestartHttpService,
    Rescan,
    Report { cleared: bool },
}

/// The remediation's next action: an elevated caller restarts the HTTP
/// listener service whatever the diagnosis said, then the port is scanned
/// again, then whether the orphan cleared is reported.
pub fn next_remedy_action(event: RemedyEvent) -> (r: RemedyAction)
    ensures
        r == match event {
            RemedyEvent::Diagnosed { elevated } => if elevated {
                RemedyAction::RestartHttpService
            } else {
                RemedyAction::Rescan
            },
            RemedyEvent::Restarted => RemedyAction::Rescan,
            RemedyEvent::Rescanned { cleared } => RemedyAction::Report { cleared },
        },
{
    match event {
        RemedyEvent::Diagnosed { elevated } => if elevated {
            RemedyAction::RestartHttpService
        } else {
            RemedyAction::Rescan
        },
        RemedyEvent::Restarted => RemedyAction::Rescan,
        RemedyEvent::Rescanned { cleared } => RemedyAction::Report { cleared },
    }
}

/// Whether none of `pids` is still an orphan in the scan `after`.
pub fn orphans_cleared(after: &PortScanResult, pids: &Vec<u32>) -> (r: bool)
    ensures
        r == forall|i: int| 0 <= i < pids@.len() ==> !after@.orphan_pids.contains(#[trigger] pids@[i]),
{
    let mut i: usize = 0;
    while i < pids.len()
        invariant
            i <= pids.len(),
            forall|k: int| 0 <= k < i ==> !after@.orphan_pids.contains(#[trigger] pids@[k]),
        decreases pids.len() - i,
    {
        let p = pids[i];
        let mut j: usize = 0;
        while j < after.orphan_pids.len()
            invariant
                j <= after.orphan_pids.len(),
                i < pids.len(),
                p == pids@[i as int],
                forall|m: int| 0 <= m < j ==> after.orphan_pids@[m] != p,
            decreases after.orphan_pids.len() - j,
        {
            if after.orphan_pids[j] == p {
                assert(after.orphan_pids@[j as int] == p);
                assert(after.orphan_pids@.to_set().contains(p));
                assert(pids@[i as int] == p);
                return false;
            }
            j = j + 1;
        }
        assert(!after.orphan_pids@.to_set().contains(p)) by {
            if after.orphan_pids@.to_set().contains(p) {
                assert(after.orphan_pids@.contains(p));
            }
        }
        i = i + 1;
    }
    true
}

/// Checks a kill request before anything is attempted: id 0 is refused.
pub fn check_kill_target(pid: u32) -> (r: Result<(), String>)
    ensures
        r is Ok <==> pid != 0,
        r matches Err(e) ==> e@ == "Cannot kill PID 0"@,
{
    if pid == 0 {
        Err(String::from_str("Cannot kill PID 0"))
    } else {
        Ok(())
    }
}

pub open spec fn kill_failed_text(pid: u32) -> Seq<char> {
    "Failed to kill process "@ + dec_digits(pid as nat)
}

pub open spec fn not_found_text(pid: u32) -> Seq<char> {
    "Process "@ + dec_digits(pid as nat) + " not found"@
}

/// The outcome of a kill request, from whether the process was found and
/// whether the signal was delivered.
pub fn kill_result(pid: u32, found: bool, killed: bool) -> (r: Result<(), String>)
    ensures
        r is Ok <==> pid != 0 && found && killed,
        r matches Err(e) ==> e@ == (if pid == 0 {
            "Cannot kill PID 0"@
        } else if !found {
            not_found_text(pid)
        } else {
            kill_failed_text(pid)
        }),
{
    if pid == 0 {
        return Err(String::from_str("Cannot kill PID 0"));
    }
    if !found {
        let mut e = String::from_str("Process ");
        push_dec(&mut e, pid as u64);
        e.append(" not found");
        return Err(e);
    }
    if !killed {
        let mut e = String::from_str("Failed to kill process ");
        push_dec(&mut e, pid as u64);
        return Err(e);
    }
    Ok(())
}

/// `:` followed by the port number: how the listener tables name a port.
pub open spec fn port_tag(port: u16) -> Seq<char> {
    seq![':'] + dec_digits(port as nat)
}

/// The lines among `lines` that mention `tag`, in order.
pub open spec fn matching_lines(lines: Seq<Seq<char>>, tag: Seq<char>) -> Seq<Seq<char>>
    decreases lines.len(),
{
    if lines.len() == 0 {
        Seq::empty()
    } else {
        let prev = matching_lines(lines.drop_last(), tag);
        if contains_seq(lines.last(), tag) {
            prev.push(lines.last())
        } else {
            prev
        }
    }
}

/// The lines of a query's output that mention `tag`; none when the query failed.
pub open spec fn output_matches(out: Option<Seq<char>>, tag: Seq<char>) -> Seq<Seq<char>> {
    match out {
        Some(t) => matching_lines(text_lines(t), tag),
        None => Seq::empty(),
    }
}

/// `pieces` with `sep` between each two.
pub open spec fn join(pieces: Seq<Seq<char>>, sep: Seq<char>) -> Seq<char>
    decreases pieces.len(),
{
    if pieces.len() == 0 {
        Seq::empty()
    } else if pieces.len() == 1 {
        pieces[0]
    } else {
        join(pieces.drop_last(), sep) + sep + pieces.last()
    }
}

pub open spec fn reservation_section(port: u16, ms: Seq<Seq<char>>) -> Seq<char> {
    "Found http.sys URL reservations for port "@ + dec_digits(port as nat) + ":\n"@ + join(
        ms,
        seq!['\n'],
    )
}

pub open spec fn listener_section(port: u16, ms: Seq<Seq<char>>) -> Seq<char> {
    "Found http.sys active listeners on port "@ + dec_digits(port as nat) + ":\n"@ + join(
        ms,
        seq!['\n'],
    )
}

/// The diagnostic sections: reservations first, then listeners, each only
/// when its query mentions the port.
pub open spec fn diagnostics(
    port: u16,
    reservations: Option<Seq<char>>,
    listeners: Option<Seq<char>>,
) -> Seq<Seq<char>> {
    let m1 = output_matches(reservations, port_tag(port));
    let m2 = output_matches(listeners, port_tag(port));
    let s1: Seq<Seq<char>> = if m1.len() > 0 {
        seq![reservation_section(port, m1)]
    } else {
        Seq::empty()
    };
    let s2: Seq<Seq<char>> = if m2.len() > 0 {
        seq![listener_section(port, m2)]
    } else {
        Seq::empty()
    };
    s1 + s2
}

pub open spec fn managed_text(diags: Seq<Seq<char>>) -> Seq<char> {
    "This appears to be an http.sys managed socket. Diagnostics:\n\n"@ + join(
        diags,
        seq!['\n', '\n'],
    )
        + "\n\nTo clear, try: 1) Stop IIS/HTTP services, 2) Run 'net stop http' as admin, 3) Restart"@
}

pub open spec fn unmanaged_text(pid: u32) -> Seq<char> {
    "Cannot programmatically close orphaned socket (PID "@ + dec_digits(pid as nat)
        + " no longer exists).\n\nThis socket is likely in a kernel cleanup state. Options:\n1. Wait 2-4 minutes for TCP TIME_WAIT to expire\n2. Run 'net stop http && net start http' as Admin if http.sys related\n3. Restart the machine to fully clear all socket states"@
}

fn lines_mentioning(out: &str, tag: &Vec<char>) -> (r: Vec<Vec<char>>)
    ensures
        views(r@) == matching_lines(text_lines(out@), tag@),
{
    let lines = text_lines_exec(out);
    let ghost lv = views(lines@);
    let mut r: Vec<Vec<char>> = Vec::new();
    let mut i: usize = 0;
    while i < lines.len()
        invariant
            i <= lines.len(),
            lv == views(lines@),
            lv == text_lines(out@),
            views(r@) == matching_lines(lv.subrange(0, i as int), tag@),
        decreases lines.len() - i,
    {
        let ghost next = lv.subrange(0, i + 1);
        assert(next.drop_last() =~= lv.subrange(0, i as int));
        assert(next.last() == lines@[i as int]@);
        let l = &lines[i];
        if find_seq_exec(l, tag).is_some() {
            let ghost before = r@;
            r.push(crate::text::slice(l, 0, l.len()));
            assert(l@.subrange(0, l@.len() as int) =~= l@);
            assert(views(r@) =~= views(before).push(lv[i as int]));
        }
        assert(views(r@) =~= matching_lines(next, tag@));
        i = i + 1;
    }
    assert(lv.subrange(0, lv.len() as int) =~= lv);
    r
}

fn append_joined(out: &mut String, pieces: &Vec<Vec<char>>, sep: &str)
    ensures
        final(out)@ == old(out)@ + join(views(pieces@), sep@),
{
    let ghost pv = views(pieces@);
    let ghost start = out@;
    let mut i: usize = 0;
    while i < pieces.len()
        invariant
            i <= pieces.len(),
            pv == views(pieces@),
            out@ == start + join(pv.subrange(0, i as int), sep@),
        decreases pieces.len() - i,
    {
        let ghost next = pv.subrange(0, i + 1);
        assert(next.drop_last() =~= pv.subrange(0, i as int));
        if i > 0 {
            out.append(sep);
        }
        let s = string_of(&pieces[i]);
        out.append(s.as_str());
        assert(out@ =~= start + join(next, sep@));
        i = i + 1;
    }
    assert(pv.subrange(0, pv.len() as int) =~= pv);
}

/// Diagnoses an orphaned binding from the output of the two listener queries
/// (URL reservations, then active listeners; `None` for a query that failed).
/// `Ok` when either mentions the port: the matching lines and what to try.
/// `Err` otherwise: why no programmatic remedy exists.
pub fn diagnose_and_suggest(
    binding: &PortBinding,
    reservations: Option<&str>,
    listeners: Option<&str>,
) -> (r: Result<String, String>)
    ensures
        ({
            let d = diagnostics(
                binding.local_port,
                match reservations {
                    Some(t) => Some(t@),
                    None => None,
                },
                match listeners {
                    Some(t) => Some(t@),
                    None => None,
                },
            );
            &&& r is Ok <==> d.len() > 0
            &&& r matches Ok(s) ==> s@ == managed_text(d)
            &&& r matches Err(s) ==> s@ == unmanaged_text(binding.pid)
        }),
{
    let port = binding.local_port;
    proof {
        reveal_strlit("\n");
        reveal_strlit("\n\n");
    }
    assert("\n"@ =~= seq!['\n']);
    assert("\n\n"@ =~= seq!['\n', '\n']);
    let mut tag: Vec<char> = Vec::new();
    tag.push(':');
    let mut digits = String::new();
    push_dec(&mut digits, port as u64);
    let dchars = chars_of(digits.as_str());
    let mut k: usize = 0;
    while k < dchars.len()
        invariant
            k <= dchars.len(),
            tag@ == seq![':'] + dchars@.subrange(0, k as int),
        decreases dchars.len() - k,
    {
        tag.push(dchars[k]);
        k = k + 1;
        assert(tag@ =~= seq![':'] + dchars@.subrange(0, k as int));
    }
    assert(dchars@.subrange(0, dchars@.len() as int) =~= dchars@);
    assert(tag@ =~= port_tag(port));
    let m1 = match reservations {
        Some(t) => lines_mentioning(t, &tag),
        None => Vec::new(),
    };
    let m2 = match listeners {
        Some(t) => lines_mentioning(t, &tag),
        None => Vec::new(),
    };
    let ghost rv = match reservations {
        Some(t) => Some(t@),
        None => None,
    };
    let ghost lv = match listeners {
        Some(t) => Some(t@),
        None => None,
    };
    assert(views(m1@) =~= output_matches(rv, port_tag(port)));
    assert(views(m2@) =~= output_matches(lv, port_tag(port)));
    let ghost d = diagnostics(port, rv, lv);
    if m1.len() == 0 && m2.len() == 0 {
        assert(d =~= Seq::<Seq<char>>::empty());
        let mut e = String::from_str("Cannot programmatically close orphaned socket (PID ");
        push_dec(&mut e, binding.pid as u64);
        e.append(
            " no longer exists).\n\nThis socket is likely in a kernel cleanup state. Options:\n1. Wait 2-4 minutes for TCP TIME_WAIT to expire\n2. Run 'net stop http && net start http' as Admin if http.sys related\n3. Restart the machine to fully clear all socket states",
        );
        return Err(e);
    }
    let mut sections: Vec<Vec<char>> = Vec::new();
    if m1.len() > 0 {
        let mut s = String::from_str("Found http.sys URL reservations for port ");
        push_dec(&mut s, port as u64);
        s.append(":\n");
        append_joined(&mut s, &m1, "\n");
        assert(s@ =~= reservation_section(port, views(m1@)));
        sections.push(chars_of(s.as_str()));
    }
    if m2.len() > 0 {
        let mut s = String::from_str("Found http.sys active listeners on port ");
        push_dec(&mut s, port as u64);
        s.append(":\n");
        append_joined(&mut s, &m2, "\n");
        assert(s@ =~= listener_section(port, views(m2@)));
        let ghost before = sections@;
        sections.push(chars_of(s.as_str()));
        assert(views(sections@) =~= views(before).push(listener_section(port, views(m2@))));
    }
    assert(views(sections@) =~= d);
    let mut out = String::from_str("This appears to be an http.sys managed socket. Diagnostics:\n\n");
    append_joined(&mut out, &sections, "\n\n");
    out.append(
        "\n\nTo clear, try: 1) Stop IIS/HTTP services, 2) Run 'net stop http' as admin, 3) Restart",
    );
    assert(out@ =~= managed_text(d));
    Ok(out)
}

} // verus!
