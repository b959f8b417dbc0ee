//! Guest distributions: parsing their listing and their socket tables.

use vstd::prelude::*;
use crate::text::{
    chars_of, find_char, find_seq, find_seq_exec, index_of, is_digit, last_index_of, parse_dec,
    parse_decimal, rfind_char, slice, split_chars, split_on, string_of, trim, trim_chars, views,
    words, words_of,
};

verus! {

/// One listening socket inside a running guest distribution.
#[derive(Clone, Debug, PartialEq)]
pub struct WslPortBinding {
    pub distro: String,
    /// Local address as the guest printed it, without the port.
    pub local_address: String,
    pub port: u16,
    /// Process name, or `unknown`.
    pub process_name: String,
    /// Guest process id, or 0.
    pub pid: u32,
}

/// The mathematical value of a [`WslPortBinding`].
pub struct WslView {
    pub distro: Seq<char>,
    pub local_address: Seq<char>,
    pub port: u16,
    pub process_name: Seq<char>,
    pub pid: u32,
}

impl View for WslPortBinding {
    type V = WslView;

    open spec fn view(&self) -> WslView {
        WslView {
            distro: self.distro@,
            local_address: self.local_address@,
            port: self.port,
            process_name: self.process_name@,
            pid: self.pid,
        }
    }
}

pub open spec fn wsl_views(v: Seq<WslPortBinding>) -> Seq<WslView> {
    v.map_values(|w: WslPortBinding| w@)
}

/// The lines of a listing, trimmed, without the blank ones.
pub open spec fn nonblank_lines(lines: Seq<Seq<char>>) -> Seq<Seq<char>>
    decreases lines.len(),
{
    if lines.len() == 0 {
        Seq::empty()
    } else {
        let prev = nonblank_lines(lines.drop_last());
        if trim(lines.last()).len() > 0 {
            prev.push(trim(lines.last()))
        } else {
            prev
        }
    }
}

pub open spec fn string_views(v: Seq<String>) -> Seq<Seq<char>> {
    v.map_values(|s: String| s@)
}

/// The running distributions that a listing names, one per non-blank line.
pub fn parse_distro_list(listing: &str) -> (r: Vec<String>)
    ensures
        string_views(r@) == nonblank_lines(split_on(listing@, '\n')),
{
    let text = chars_of(listing);
    let lines = split_chars(&text, '\n');
    let ghost lv = views(lines@);
    let mut out: Vec<String> = Vec::new();
    let mut i: usize = 0;
    while i < lines.len()
        invariant
            i <= lines.len(),
            lv == views(lines@),
            lv == split_on(listing@, '\n'),
            string_views(out@) == nonblank_lines(lv.subrange(0, i as int)),
        decreases lines.len() - i,
    {
        let ghost next = lv.subrange(0, i + 1);
        assert(next.drop_last() =~= lv.subrange(0, i as int));
        assert(next.last() == lines@[i as int]@);
        let t = trim_chars(&lines[i]);
        if t.len() > 0 {
            out.push(string_of(&t));
        }
        assert(string_views(out@) =~= nonblank_lines(next));
        i = i + 1;
    }
    assert(lv.subrange(0, lv.len() as int) =~= lv);
    out
}

pub open spec fn users_marker() -> Seq<char> {
    seq!['u', 's', 'e', 'r', 's', ':', '(', '(', '"']
}

pub open spec fn pid_marker() -> Seq<char> {
    seq!['p', 'i', 'd', '=']
}

pub open spec fn unknown_text() -> Seq<char> {
    seq!['u', 'n', 'k', 'n', 'o', 'w', 'n']
}

/// The process name quoted in the process column (`users:(("name",...`),
/// or `unknown`.
pub open spec fn guest_process_name(line: Seq<char>) -> Seq<char> {
    match find_seq(line, users_marker()) {
        None => unknown_text(),
        Some(a) => {
            let rest = line.subrange(a + 9, line.len() as int);
            match index_of(rest, '"') {
                None => unknown_text(),
                Some(q) => rest.subrange(0, q),
            }
        },
    }
}

/// The end of the run of digits that starts at `k`.
pub open spec fn digit_run_end(s: Seq<char>, k: int) -> int
    decreases s.len() - k,
{
    if 0 <= k < s.len() && is_digit(s[k]) {
        digit_run_end(s, k + 1)
    } else {
        k
    }
}

/// The digits that open `s`.
pub open spec fn digit_prefix(s: Seq<char>) -> Seq<char> {
    s.subrange(0, digit_run_end(s, 0))
}

/// The number after `pid=` in the process column, or 0.
pub open spec fn guest_pid(line: Seq<char>) -> u32 {
    match find_seq(line, pid_marker()) {
        None => 0,
        Some(a) => match parse_dec(digit_prefix(line.subrange(a + 4, line.len() as int)), 0xffff_ffff) {
            Some(v) => v as u32,
            None => 0,
        },
    }
}

/// The listening socket that one row of a guest's socket table shows on
/// `port`: its fourth blank-separated field is `address:port`.
pub open spec fn guest_socket(line: Seq<char>, distro: Seq<char>, port: u16) -> Option<WslView> {
    let w = words(line);
    if w.len() < 4 {
        None
    } else {
        let f = w[3];
        match last_index_of(f, ':') {
            None => None,
            Some(c) => match parse_dec(f.subrange(c + 1, f.len() as int), 65535) {
                Some(p) => if p == port {
                    Some(
                        WslView {
                            distro,
                            local_address: f.subrange(0, c),
                            port,
                            process_name: guest_process_name(line),
                            pid: guest_pid(line),
                        },
                    )
                } else {
                    None
                },
                None => None,
            },
        }
    }
}

/// The sockets on `port` that the rows `lines` show, in order.
pub open spec fn guest_sockets(lines: Seq<Seq<char>>, distro: Seq<char>, port: u16) -> Seq<WslView>
    decreases lines.len(),
{
    if lines.len() == 0 {
        Seq::empty()
    } else {
        let prev = guest_sockets(lines.drop_last(), distro, port);
        match guest_socket(lines.last(), distro, port) {
            Some(w) => prev.push(w),
            None => prev,
        }
    }
}

fn process_name_of(line: &Vec<char>) -> (r: String)
    ensures
        r@ == guest_process_name(line@),
{
    let marker = vec!['u', 's', 'e', 'r', 's', ':', '(', '(', '"'];
    assert(marker@ =~= users_marker());
    let unknown = vec!['u', 'n', 'k', 'n', 'o', 'w', 'n'];
    assert(unknown@ =~= unknown_text());
    match find_seq_exec(line, &marker) {
        None => string_of(&unknown),
        Some(a) => {
            assert(marker@.len() == 9);
            let n = line.len();
            let rest = slice(line, a + 9, n);
            match find_char(&rest, '"') {
                None => string_of(&unknown),
                Some(q) => {
                    let name = slice(&rest, 0, q);
                    string_of(&name)
                },
            }
        },
    }
}

fn digit_prefix_of(s: &Vec<char>) -> (r: Vec<char>)
    ensures
        r@ == digit_prefix(s@),
{
    let mut k: usize = 0;
    while k < s.len() && '0' <= s[k] && s[k] <= '9'
        invariant
            k <= s.len(),
            digit_run_end(s@, 0) == digit_run_end(s@, k as int),
        decreases s.len() - k,
    {
        k = k + 1;
    }
    slice(s, 0, k)
}

fn pid_of(line: &Vec<char>) -> (r: u32)
    ensures
        r == guest_pid(line@),
{
    let marker = vec!['p', 'i', 'd', '='];
    assert(marker@ =~= pid_marker());
    match find_seq_exec(line, &marker) {
        None => 0,
        Some(a) => {
            assert(marker@.len() == 4);
            let n = line.len();
            let rest = slice(line, a + 4, n);
            let digits = digit_prefix_of(&rest);
            match parse_decimal(&digits, 0xffff_ffff) {
                Some(v) => v as u32,
                None => 0,
            }
        },
    }
}

fn socket_in(line: &Vec<char>, distro: &String, port: u16) -> (r: Option<WslPortBinding>)
    ensures
        r matches Some(w) ==> guest_socket(line@, distro@, port) == Some(w@),
        r is None ==> guest_socket(line@, distro@, port) is None,
{
    let w = words_of(line);
    if w.len() < 4 {
        return None;
    }
    assert(views(w@)[3] == w@[3]@);
    let f = &w[3];
    let c = match rfind_char(f, ':') {
        None => return None,
        Some(c) => c,
    };
    let port_text = slice(f, c + 1, f.len());
    match parse_decimal(&port_text, 65535) {
        Some(p) => {
            if p != port as u64 {
                return None;
            }
            let addr = slice(f, 0, c);
            Some(
                WslPortBinding {
                    distro: distro.clone(),
                    local_address: string_of(&addr),
                    port,
                    process_name: process_name_of(line),
                    pid: pid_of(line),
                },
            )
        },
        None => None,
    }
}

/// Parses one row of a guest's socket table; `None` when it is malformed or
/// not on `port`. The process name and id fall back to `unknown` and 0.
pub fn parse_socket_line(line: &str, distro: &String, port: u16) -> (r: Option<WslPortBinding>)
    ensures
        r matches Some(w) ==> guest_socket(line@, distro@, port) == Some(w@),
        r is None ==> guest_socket(line@, distro@, port) is None,
{
    let v = chars_of(line);
    socket_in(&v, distro, port)
}

fn sockets_in(text: &String, distro: &String, port: u16, out: &mut Vec<WslPortBinding>)
    ensures
        wsl_views(final(out)@) == wsl_views(old(out)@) + guest_sockets(
            split_on(text@, '\n'),
            distro@,
            port,
        ),
{
    let chars = chars_of(text.as_str());
    let lines = split_chars(&chars, '\n');
    let ghost lv = views(lines@);
    let ghost start = wsl_views(out@);
    let mut i: usize = 0;
    assert(wsl_views(out@) =~= start + guest_sockets(lv.subrange(0, 0), distro@, port));
    while i < lines.len()
        invariant
            i <= lines.len(),
            lv == views(lines@),
            lv == split_on(text@, '\n'),
            wsl_views(out@) == start + guest_sockets(lv.subrange(0, i as int), distro@, port),
        decreases lines.len() - i,
    {
        let ghost next = lv.subrange(0, i + 1);
        assert(next.drop_last() =~= lv.subrange(0, i as int));
        assert(next.last() == lines@[i as int]@);
        let ghost before = out@;
        match socket_in(&lines[i], distro, port) {
            Some(w) => {
                out.push(w);
                assert(wsl_views(out@) =~= wsl_views(before).push(w@));
            },
            None => {},
        }
        assert(wsl_views(out@) =~= start + guest_sockets(next, distro@, port));
        i = i + 1;
    }
    assert(lv.subrange(0, lv.len() as int) =~= lv);
}

/// What one distribution's socket-table query gave; `None` when it failed.
#[derive(Debug)]
pub struct GuestOutput {
    pub distro: String,
    pub output: Option<String>,
}

/// The sockets on `port` that a sweep over the distributions found, in sweep
/// order; a distribution whose query failed adds nothing.
pub open spec fn sweep_sockets(outs: Seq<GuestOutput>, port: u16) -> Seq<WslView>
    decreases outs.len(),
{
    if outs.len() == 0 {
        Seq::empty()
    } else {
        let prev = sweep_sockets(outs.drop_last(), port);
        match outs.last().output {
            Some(t) => prev + guest_sockets(split_on(t@, '\n'), outs.last().distro@, port),
            None => prev,
        }
    }
}

/// The guests' listening sockets on `port`, from each distribution's
/// socket-table output.
pub fn wsl_bindings(outs: &Vec<GuestOutput>, port: u16) -> (r: Vec<WslPortBinding>)
    ensures
        wsl_views(r@) == sweep_sockets(outs@, port),
{
    let mut out: Vec<WslPortBinding> = Vec::new();
    let mut i: usize = 0;
    assert(wsl_views(out@) =~= sweep_sockets(outs@.subrange(0, 0), port));
    while i < outs.len()
        invariant
            i <= outs.len(),
            wsl_views(out@) == sweep_sockets(outs@.subrange(0, i as int), port),
        decreases outs.len() - i,
    {
        let ghost next = outs@.subrange(0, i + 1);
        assert(next.drop_last() =~= outs@.subrange(0, i as int));
        match &outs[i].output {
            Some(t) => {
                sockets_in(t, &outs[i].distro, port, &mut out);
            },
            None => {},
        }
        i = i + 1;
    }
    assert(outs@.subrange(0, outs@.len() as int) =~= outs@);
    out
}

/// What `String::from_utf16_lossy` gives for the code units.
pub uninterp spec fn utf16_lossy(units: Seq<u16>) -> Seq<char>;

/// What `String::from_utf8_lossy` gives for the bytes.
pub uninterp spec fn utf8_lossy(bytes: Seq<u8>) -> Seq<char>;

/// Relies on `String::from_utf16_lossy`: the text depends on the code units alone.
#[verifier::external_body]
fn decode_utf16(units: &Vec<u16>) -> (r: String)
    ensures
        r@ == utf16_lossy(units@),
{
    String::from_utf16_lossy(units)
}

/// Relies on `String::from_utf8_lossy`: the text depends on the bytes alone.
#[verifier::external_body]
fn decode_utf8(bytes: &Vec<u8>) -> (r: String)
    ensures
        r@ == utf8_lossy(bytes@),
{
    String::from_utf8_lossy(bytes).to_string()
}

/// Output in a 16-bit little-endian encoding: two bytes or more, opening
/// with the byte-order mark `FF FE` or with every second byte zero.
pub open spec fn looks_wide(b: Seq<u8>) -> bool {
    b.len() >= 2 && ((b[0] == 0xff && b[1] == 0xfe) || forall|i: int|
        0 <= i < b.len() && i % 2 == 1 ==> #[trigger] b[i] == 0)
}

/// The little-endian 16-bit units of `b`; an odd last byte stands alone.
pub open spec fn le_units(b: Seq<u8>) -> Seq<u16> {
    Seq::new(
        ((b.len() + 1) / 2) as nat,
        |k: int|
            (b[2 * k] as int + if 2 * k + 1 < b.len() {
                256 * b[2 * k + 1] as int
            } else {
                0
            }) as u16,
    )
}

/// `s` without byte-order marks and NUL characters.
pub open spec fn strip_marks(s: Seq<char>) -> Seq<char>
    decreases s.len(),
{
    if s.len() == 0 {
        Seq::empty()
    } else if s.last() == '\u{feff}' || s.last() == '\0' {
        strip_marks(s.drop_last())
    } else {
        strip_marks(s.drop_last()).push(s.last())
    }
}

/// Whether the bytes look like 16-bit text.
pub fn is_wide_text(b: &Vec<u8>) -> (r: bool)
    ensures
        r == looks_wide(b@),
{
    if b.len() < 2 {
        return false;
    }
    if b[0] == 0xff && b[1] == 0xfe {
        return true;
    }
    let mut i: usize = 1;
    while i < b.len()
        invariant
            1 <= i,
            i % 2 == 1,
            b@.len() >= 2,
            !(b@[0] == 0xff && b@[1] == 0xfe),
            forall|k: int| 0 <= k < i && k < b@.len() && k % 2 == 1 ==> #[trigger] b@[k] == 0,
        decreases b.len() + 1 - i,
    {
        if b[i] != 0 {
            return false;
        }
        if b.len() - i <= 2 {
            return true;
        }
        i = i + 2;
    }
    true
}

/// The little-endian 16-bit units of the bytes.
pub fn le_units_of(b: &Vec<u8>) -> (r: Vec<u16>)
    ensures
        r@ == le_units(b@),
{
    let mut r: Vec<u16> = Vec::new();
    let mut k: usize = 0;
    let n = b.len();
    while k < n / 2 + n % 2
        invariant
            n == b.len(),
            k <= n / 2 + n % 2,
            r@.len() == k,
            forall|j: int| 0 <= j < k ==> r@[j] == le_units(b@)[j],
        decreases n / 2 + n % 2 - k,
    {
        let lo = b[2 * k] as u16;
        let hi: u16 = if 2 * k + 1 < n {
            b[2 * k + 1] as u16
        } else {
            0
        };
        r.push(lo + hi * 256);
        k = k + 1;
    }
    assert(r@ =~= le_units(b@));
    r
}

/// The text without byte-order marks and NUL characters.
pub fn clean_guest_text(s: &str) -> (r: String)
    ensures
        r@ == strip_marks(s@),
{
    let v = chars_of(s);
    let mut out: Vec<char> = Vec::new();
    let mut i: usize = 0;
    while i < v.len()
        invariant
            i <= v.len(),
            out@ == strip_marks(v@.subrange(0, i as int)),
        decreases v.len() - i,
    {
        let ghost next = v@.subrange(0, i + 1);
        assert(next.drop_last() =~= v@.subrange(0, i as int));
        let c = v[i];
        if c != '\u{feff}' && c != '\0' {
            out.push(c);
        }
        i = i + 1;
    }
    assert(v@.subrange(0, v@.len() as int) =~= v@);
    string_of(&out)
}

/// Decodes a guest tool's output: as 16-bit little-endian text when it looks
/// like that, else as UTF-8, then without byte-order marks and NULs.
pub fn decode_guest_text(b: &Vec<u8>) -> (r: String)
    ensures
        r@ == strip_marks(
            if looks_wide(b@) {
                utf16_lossy(le_units(b@))
            } else {
                utf8_lossy(b@)
            },
        ),
{
    let text = if is_wide_text(b) {
        let units = le_units_of(b);
        decode_utf16(&units)
    } else {
        decode_utf8(b)
    };
    clean_guest_text(text.as_str())
}

} // verus!
