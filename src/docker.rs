//! Container port mappings: parsing the container runtime's listing.

use vstd::prelude::*;
use crate::state::CommandOutput;
use crate::wsl::{nonblank_lines, parse_distro_list, string_views};
use crate::text::{
    chars_of, find_char, find_seq, find_seq_exec, index_of, last_index_of, parse_dec,
    parse_decimal, rfind_char, slice, split_chars, split_on, string_of, trim, trim_chars, views,
};

verus! {

/// One published port of a container that matches the scanned port.
#[derive(Clone, Debug, PartialEq)]
pub struct DockerPortBinding {
    pub container_id: String,
    pub container_name: String,
    pub image: String,
    /// Host address of the mapping (`0.0.0.0`, `::`, ...).
    pub host_address: String,
    pub host_port: u16,
    pub container_port: u16,
    /// `tcp` unless the mapping names another protocol.
    pub protocol: String,
}

/// The mathematical value of a [`DockerPortBinding`].
pub struct DockerView {
    pub container_id: Seq<char>,
    pub container_name: Seq<char>,
    pub image: Seq<char>,
    pub host_address: Seq<char>,
    pub host_port: u16,
    pub container_port: u16,
    pub protocol: Seq<char>,
}

impl View for DockerPortBinding {
    type V = DockerView;

    open spec fn view(&self) -> DockerView {
        DockerView {
            container_id: self.container_id@,
            container_name: self.container_name@,
            image: self.image@,
            host_address: self.host_address@,
            host_port: self.host_port,
            container_port: self.container_port,
            protocol: self.protocol@,
        }
    }
}

pub open spec fn docker_views(v: Seq<DockerPortBinding>) -> Seq<DockerView> {
    v.map_values(|d: DockerPortBinding| d@)
}

/// One entry of a ports field, `<host-addr>:<host-port>-><container-port>[/<proto>]`.
#[derive(Debug)]
pub struct PortMapping {
    pub host_address: String,
    pub host_port: u16,
    pub container_port: u16,
    pub protocol: String,
}

/// The mathematical value of a [`PortMapping`].
pub struct MappingView {
    pub host_address: Seq<char>,
    pub host_port: u16,
    pub container_port: u16,
    pub protocol: Seq<char>,
}

impl View for PortMapping {
    type V = MappingView;

    open spec fn view(&self) -> MappingView {
        MappingView {
            host_address: self.host_address@,
            host_port: self.host_port,
            container_port: self.container_port,
            protocol: self.protocol@,
        }
    }
}

pub open spec fn tcp_text() -> Seq<char> {
    seq!['t', 'c', 'p']
}

/// What one ports-field entry says, when it is well formed: the host side is
/// split at its last colon, the container side at its first slash, and the
/// protocol is `tcp` when none follows the slash.
pub open spec fn mapping_of(e: Seq<char>) -> Option<MappingView> {
    let t = trim(e);
    match find_seq(t, seq!['-', '>']) {
        None => None,
        Some(a) => {
            let left = t.subrange(0, a);
            let right = t.subrange(a + 2, t.len() as int);
            match last_index_of(left, ':') {
                None => None,
                Some(c) => {
                    let hp = parse_dec(left.subrange(c + 1, left.len() as int), 65535);
                    let slash = index_of(right, '/');
                    let cp_text = match slash {
                        Some(s) => right.subrange(0, s),
                        None => right,
                    };
                    let proto = match slash {
                        Some(s) => if s + 1 < right.len() {
                            right.subrange(s + 1, right.len() as int)
                        } else {
                            tcp_text()
                        },
                        None => tcp_text(),
                    };
                    let cp = parse_dec(cp_text, 65535);
                    if hp is Some && cp is Some {
                        Some(
                            MappingView {
                                host_address: left.subrange(0, c),
                                host_port: (hp->0) as u16,
                                container_port: (cp->0) as u16,
                                protocol: proto,
                            },
                        )
                    } else {
                        None
                    }
                },
            }
        },
    }
}

/// The entry's mapping, when it is well formed and its host port is `port`.
pub open spec fn mapping_for(e: Seq<char>, port: u16) -> Option<MappingView> {
    match mapping_of(e) {
        Some(m) => if m.host_port == port {
            Some(m)
        } else {
            None
        },
        None => None,
    }
}

/// Parses one ports-field entry; `None` when it is malformed or its host
/// port is not `port`.
pub fn parse_port_mapping(entry: &str, port: u16) -> (r: Option<PortMapping>)
    ensures
        r matches Some(m) ==> mapping_for(entry@, port) == Some(m@),
        r is None ==> mapping_for(entry@, port) is None,
{
    let v = chars_of(entry);
    mapping_in(&v, port)
}

fn mapping_in(v: &Vec<char>, port: u16) -> (r: Option<PortMapping>)
    ensures
        r matches Some(m) ==> mapping_for(v@, port) == Some(m@),
        r is None ==> mapping_for(v@, port) is None,
{
    let t = trim_chars(v);
    let arrow = vec!['-', '>'];
    assert(arrow@ =~= seq!['-', '>']);
    let a = match find_seq_exec(&t, &arrow) {
        None => return None,
        Some(a) => a,
    };
    assert(arrow@.len() == 2);
    let n = t.len();
    let left = slice(&t, 0, a);
    let right = slice(&t, a + 2, n);
    let c = match rfind_char(&left, ':') {
        None => return None,
        Some(c) => c,
    };
    let hp_text = slice(&left, c + 1, left.len());
    let hp = parse_decimal(&hp_text, 65535);
    let slash = find_char(&right, '/');
    let cp_text = match slash {
        Some(s) => slice(&right, 0, s),
        None => slice(&right, 0, right.len()),
    };
    assert(right@.subrange(0, right@.len() as int) =~= right@);
    let tcp = vec!['t', 'c', 'p'];
    assert(tcp@ =~= tcp_text());
    let proto = match slash {
        Some(s) => if s + 1 < right.len() {
            slice(&right, s + 1, right.len())
        } else {
            tcp
        },
        None => tcp,
    };
    let cp = parse_decimal(&cp_text, 65535);
    match (hp, cp) {
        (Some(h), Some(k)) => {
            if h as u16 != port {
                return None;
            }
            let host = slice(&left, 0, c);
            Some(
                PortMapping {
                    host_address: string_of(&host),
                    host_port: h as u16,
                    container_port: k as u16,
                    protocol: string_of(&proto),
                },
            )
        },
        _ => None,
    }
}

/// One line of the container listing: id, name, image and ports field,
/// separated by tabs.
pub struct RecordView {
    pub id: Seq<char>,
    pub name: Seq<char>,
    pub image: Seq<char>,
    pub ports: Seq<char>,
}

/// The record a listing line holds: at least four tab-separated fields and
/// a non-empty id.
pub open spec fn record_of(line: Seq<char>) -> Option<RecordView> {
    let f = split_on(line, '\t');
    if f.len() >= 4 && trim(f[0]).len() > 0 {
        Some(RecordView { id: trim(f[0]), name: trim(f[1]), image: trim(f[2]), ports: f[3] })
    } else {
        None
    }
}

pub open spec fn docker_view_of(rec: RecordView, m: MappingView) -> DockerView {
    DockerView {
        container_id: rec.id,
        container_name: rec.name,
        image: rec.image,
        host_address: m.host_address,
        host_port: m.host_port,
        container_port: m.container_port,
        protocol: m.protocol,
    }
}

/// The bindings that the ports-field entries `entries` of a record give for `port`.
pub open spec fn record_bindings(rec: RecordView, entries: Seq<Seq<char>>, port: u16) -> Seq<
    DockerView,
>
    decreases entries.len(),
{
    if entries.len() == 0 {
        Seq::empty()
    } else {
        let prev = record_bindings(rec, entries.drop_last(), port);
        match mapping_for(entries.last(), port) {
            Some(m) => prev.push(docker_view_of(rec, m)),
            None => prev,
        }
    }
}

/// The bindings that listing lines give for `port`, in listing order.
pub open spec fn lines_bindings(lines: Seq<Seq<char>>, port: u16) -> Seq<DockerView>
    decreases lines.len(),
{
    if lines.len() == 0 {
        Seq::empty()
    } else {
        let prev = lines_bindings(lines.drop_last(), port);
        match record_of(lines.last()) {
            Some(rec) => prev + record_bindings(rec, split_on(rec.ports, ','), port),
            None => prev,
        }
    }
}

/// The bindings that a whole container listing gives for `port`.
pub open spec fn listing_bindings(text: Seq<char>, port: u16) -> Seq<DockerView> {
    lines_bindings(split_on(text, '\n'), port)
}

struct Record {
    id: Vec<char>,
    name: Vec<char>,
    image: Vec<char>,
    ports: Vec<char>,
}

fn parse_record(line: &Vec<char>) -> (r: Option<Record>)
    ensures
        r matches Some(x) ==> record_of(line@) == Some(
            RecordView { id: x.id@, name: x.name@, image: x.image@, ports: x.ports@ },
        ),
        r is None ==> record_of(line@) is None,
{
    let f = split_chars(line, '\t');
    if f.len() < 4 {
        return None;
    }
    assert(views(f@)[0] == f@[0]@);
    let id = trim_chars(&f[0]);
    if id.len() == 0 {
        return None;
    }
    assert(views(f@)[1] == f@[1]@);
    assert(views(f@)[2] == f@[2]@);
    assert(views(f@)[3] == f@[3]@);
    let name = trim_chars(&f[1]);
    let image = trim_chars(&f[2]);
    let ports = slice(&f[3], 0, f[3].len());
    assert(f@[3]@.subrange(0, f@[3]@.len() as int) =~= f@[3]@);
    Some(Record { id, name, image, ports })
}

fn bindings_of_record(rec: &Record, port: u16, out: &mut Vec<DockerPortBinding>)
    ensures
        docker_views(final(out)@) == docker_views(old(out)@) + record_bindings(
            RecordView { id: rec.id@, name: rec.name@, image: rec.image@, ports: rec.ports@ },
            split_on(rec.ports@, ','),
            port,
        ),
{
    let ghost rv = RecordView { id: rec.id@, name: rec.name@, image: rec.image@, ports: rec.ports@ };
    let entries = split_chars(&rec.ports, ',');
    let ghost ev = views(entries@);
    let ghost start = docker_views(out@);
    let mut i: usize = 0;
    while i < entries.len()
        invariant
            i <= entries.len(),
            ev == views(entries@),
            ev == split_on(rec.ports@, ','),
            rv == (RecordView { id: rec.id@, name: rec.name@, image: rec.image@, ports: rec.ports@ }),
            docker_views(out@) == start + record_bindings(rv, ev.subrange(0, i as int), port),
        decreases entries.len() - i,
    {
        let ghost next = ev.subrange(0, i + 1);
        assert(next.drop_last() =~= ev.subrange(0, i as int));
        assert(next.last() == entries@[i as int]@);
        match mapping_in(&entries[i], port) {
            Some(m) => {
                let ghost mv = m@;
                let ghost before = out@;
                let b = DockerPortBinding {
                    container_id: string_of(&rec.id),
                    container_name: string_of(&rec.name),
                    image: string_of(&rec.image),
                    host_address: m.host_address,
                    host_port: m.host_port,
                    container_port: m.container_port,
                    protocol: m.protocol,
                };
                assert(b@ == docker_view_of(rv, mv));
                assert(record_bindings(rv, next, port) == record_bindings(
                    rv,
                    ev.subrange(0, i as int),
                    port,
                ).push(docker_view_of(rv, mv)));
                out.push(b);
                assert(docker_views(out@) =~= docker_views(before).push(b@));
                assert(docker_views(out@) =~= start + record_bindings(rv, next, port));
            },
            None => {
                assert(docker_views(out@) =~= start + record_bindings(rv, next, port));
            },
        }
        i = i + 1;
    }
    assert(ev.subrange(0, ev.len() as int) =~= ev);
}

/// The container port mappings for `port` that a listing shows, in listing
/// order; none when the runtime is not live. Malformed lines and entries are
/// skipped.
pub fn docker_bindings(live: bool, listing: &str, port: u16) -> (r: Vec<DockerPortBinding>)
    ensures
        docker_views(r@) == (if live {
            listing_bindings(listing@, port)
        } else {
            Seq::empty()
        }),
{
    let mut out: Vec<DockerPortBinding> = Vec::new();
    if !live {
        assert(docker_views(out@) =~= Seq::empty());
        return out;
    }
    let text = chars_of(listing);
    let lines = split_chars(&text, '\n');
    let ghost lv = views(lines@);
    let mut i: usize = 0;
    assert(docker_views(out@) =~= lines_bindings(lv.subrange(0, 0), port));
    while i < lines.len()
        invariant
            i <= lines.len(),
            lv == views(lines@),
            lv == split_on(listing@, '\n'),
            docker_views(out@) == lines_bindings(lv.subrange(0, i as int), port),
        decreases lines.len() - i,
    {
        let ghost next = lv.subrange(0, i + 1);
        assert(next.drop_last() =~= lv.subrange(0, i as int));
        assert(next.last() == lines@[i as int]@);
        match parse_record(&lines[i]) {
            Some(rec) => {
                bindings_of_record(&rec, port, &mut out);
            },
            None => {},
        }
        i = i + 1;
    }
    assert(lv.subrange(0, lv.len() as int) =~= lv);
    out
}

/// The container names that a names-only listing gives: one per non-blank
/// line; none when the command failed.
pub fn container_names(out: &CommandOutput) -> (r: Vec<String>)
    ensures
        string_views(r@) == (if out.exit_code == 0 {
            nonblank_lines(split_on(out.stdout@, '\n'))
        } else {
            Seq::empty()
        }),
{
    if out.exit_code == 0 {
        parse_distro_list(out.stdout.as_str())
    } else {
        let r: Vec<String> = Vec::new();
        assert(string_views(r@) =~= Seq::empty());
        r
    }
}

} // verus!
