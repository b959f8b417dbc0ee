//! The hosts file as text: its entries, and the edits made to it. Reading and
//! writing the file is left to the caller.

use vstd::prelude::*;
use vstd::string::*;
use crate::text::{
    text_lines, text_lines_exec, chars_of, is_digit, is_ws_char, push_char, slice, split_chars, split_on, string_of, trim,
    trim_chars, views, words, words_of,
};

verus! {

/// One entry of the hosts file.
#[derive(Clone, Debug)]
pub struct HostEntry {
    pub ip: String,
    pub hostname: String,
    /// Text after `#` on the entry's line, trimmed.
    pub comment: Option<String>,
    /// The entry is not commented out.
    pub enabled: bool,
    /// Line number, from 1.
    pub line_number: usize,
}

/// The mathematical value of a [`HostEntry`].
pub struct HostEntryView {
    pub ip: Seq<char>,
    pub hostname: Seq<char>,
    pub comment: Option<Seq<char>>,
    pub enabled: bool,
    pub line_number: nat,
}

impl View for HostEntry {
    type V = HostEntryView;

    open spec fn view(&self) -> HostEntryView {
        HostEntryView {
            ip: self.ip@,
            hostname: self.hostname@,
            comment: match self.comment {
                Some(c) => Some(c@),
                None => None,
            },
            enabled: self.enabled,
            line_number: self.line_number as nat,
        }
    }
}

pub open spec fn entry_views(v: Seq<HostEntry>) -> Seq<HostEntryView> {
    v.map_values(|e: HostEntry| e@)
}

/// `s` without its leading `#` characters.
pub open spec fn strip_hashes(s: Seq<char>) -> Seq<char>
    decreases s.len(),
{
    if s.len() > 0 && s[0] == '#' {
        strip_hashes(s.drop_first())
    } else {
        s
    }
}

/// The words of a line once its comment marks are taken off.
pub open spec fn line_tokens(l: Seq<char>) -> Seq<Seq<char>> {
    words(trim(strip_hashes(trim(l))))
}

/// Whether a line, commented out or not, is an entry for `host`.
pub open spec fn names_host(l: Seq<char>, host: Seq<char>) -> bool {
    line_tokens(l).len() >= 2 && line_tokens(l)[1] == host
}

/// `pieces`, each followed by a line feed.
pub open spec fn lines_text(pieces: Seq<Seq<char>>) -> Seq<char>
    decreases pieces.len(),
{
    if pieces.len() == 0 {
        Seq::empty()
    } else {
        lines_text(pieces.drop_last()) + pieces.last() + seq!['\n']
    }
}

fn strip_hashes_exec(v: &Vec<char>) -> (r: Vec<char>)
    ensures
        r@ == strip_hashes(v@),
{
    let mut a: usize = 0;
    assert(v@.subrange(0, v@.len() as int) =~= v@);
    while a < v.len() && v[a] == '#'
        invariant
            a <= v.len(),
            strip_hashes(v@) == strip_hashes(v@.subrange(a as int, v@.len() as int)),
        decreases v.len() - a,
    {
        assert(v@.subrange(a as int, v@.len() as int).drop_first() =~= v@.subrange(
            a + 1,
            v@.len() as int,
        ));
        a = a + 1;
    }
    slice(v, a, v.len())
}

fn tokens_exec(l: &Vec<char>) -> (r: Vec<Vec<char>>)
    ensures
        views(r@) == line_tokens(l@),
{
    let t = trim_chars(l);
    let h = strip_hashes_exec(&t);
    let u = trim_chars(&h);
    words_of(&u)
}

fn same(v: &Vec<char>, t: &Vec<char>) -> (r: bool)
    ensures
        r == (v@ == t@),
{
    if v.len() != t.len() {
        return false;
    }
    let mut k: usize = 0;
    while k < v.len()
        invariant
            v.len() == t.len(),
            k <= v.len(),
            forall|m: int| 0 <= m < k ==> v@[m] == t@[m],
        decreases v.len() - k,
    {
        if v[k] != t[k] {
            return false;
        }
        k = k + 1;
    }
    assert(v@ =~= t@);
    true
}

fn names_host_exec(l: &Vec<char>, host: &Vec<char>) -> (r: bool)
    ensures
        r == names_host(l@, host@),
{
    let t = tokens_exec(l);
    if t.len() < 2 {
        return false;
    }
    assert(views(t@)[1] == t@[1]@);
    same(&t[1], host)
}

fn append_chars(out: &mut String, v: &Vec<char>)
    ensures
        final(out)@ == old(out)@ + v@,
{
    let s = string_of(v);
    out.append(s.as_str());
}

/// `content` with a line `ip<TAB>hostname` added at the end (followed by
/// `<TAB># comment` when a comment is given), after a line feed if the text
/// did not end with one.
pub fn add_host_entry(content: &str, ip: &str, hostname: &str, comment: Option<&str>) -> (r: String)
    ensures
        r@ == (if content@.len() > 0 && content@.last() == '\n' {
            content@
        } else {
            content@.push('\n')
        }) + ip@ + seq!['\t'] + hostname@ + (match comment {
            Some(c) => seq!['\t', '#', ' '] + c@,
            None => Seq::empty(),
        }) + seq!['\n'],
{
    let mut out = String::from_str(content);
    let n = content.unicode_len();
    if n == 0 || content.get_char(n - 1) != '\n' {
        push_char(&mut out, '\n');
    }
    out.append(ip);
    push_char(&mut out, '\t');
    out.append(hostname);
    match comment {
        Some(c) => {
            push_char(&mut out, '\t');
            push_char(&mut out, '#');
            push_char(&mut out, ' ');
            out.append(c);
        },
        None => {},
    }
    push_char(&mut out, '\n');
    let ghost want = (if content@.len() > 0 && content@.last() == '\n' {
        content@
    } else {
        content@.push('\n')
    }) + ip@ + seq!['\t'] + hostname@ + (match comment {
        Some(c) => seq!['\t', '#', ' '] + c@,
        None => Seq::empty(),
    }) + seq!['\n'];
    assert(out@ =~= want);
    out
}

/// The lines of `lines` that are not entries for `host`.
pub open spec fn kept_lines(lines: Seq<Seq<char>>, host: Seq<char>) -> Seq<Seq<char>>
    decreases lines.len(),
{
    if lines.len() == 0 {
        Seq::empty()
    } else {
        let prev = kept_lines(lines.drop_last(), host);
        if names_host(lines.last(), host) {
            prev
        } else {
            prev.push(lines.last())
        }
    }
}

/// `pieces` with a line feed between each two.
pub open spec fn joined(pieces: Seq<Seq<char>>) -> Seq<char>
    decreases pieces.len(),
{
    if pieces.len() == 0 {
        Seq::empty()
    } else if pieces.len() == 1 {
        pieces[0]
    } else {
        joined(pieces.drop_last()) + seq!['\n'] + pieces.last()
    }
}

fn joined_exec(pieces: &Vec<Vec<char>>) -> (r: String)
    ensures
        r@ == joined(views(pieces@)),
{
    let ghost pv = views(pieces@);
    let mut out = String::new();
    let mut i: usize = 0;
    while i < pieces.len()
        invariant
            i <= pieces.len(),
            pv == views(pieces@),
            out@ == joined(pv.subrange(0, i as int)),
        decreases pieces.len() - i,
    {
        let ghost next = pv.subrange(0, i + 1);
        assert(next.drop_last() =~= pv.subrange(0, i as int));
        if i > 0 {
            push_char(&mut out, '\n');
        }
        append_chars(&mut out, &pieces[i]);
        assert(out@ =~= joined(next));
        i = i + 1;
    }
    assert(pv.subrange(0, pv.len() as int) =~= pv);
    out
}

/// `content` without the lines (commented out or not) that are entries for
/// `hostname`: the remaining lines joined by line feeds, ending in one.
pub fn remove_host_entry(content: &str, hostname: &str) -> (r: String)
    ensures
        r@ == joined(kept_lines(text_lines(content@), hostname@)) + seq!['\n'],
{
    let lines = text_lines_exec(content);
    let host = chars_of(hostname);
    let ghost lv = views(lines@);
    let mut kept: Vec<Vec<char>> = Vec::new();
    let mut i: usize = 0;
    while i < lines.len()
        invariant
            i <= lines.len(),
            lv == views(lines@),
            host@ == hostname@,
            views(kept@) == kept_lines(lv.subrange(0, i as int), hostname@),
        decreases lines.len() - i,
    {
        let ghost next = lv.subrange(0, i + 1);
        assert(next.drop_last() =~= lv.subrange(0, i as int));
        assert(next.last() == lines@[i as int]@);
        if !names_host_exec(&lines[i], &host) {
            let ghost before = kept@;
            kept.push(slice(&lines[i], 0, lines[i].len()));
            assert(lines@[i as int]@.subrange(0, lines@[i as int]@.len() as int) =~= lines@[i as int]@);
            assert(views(kept@) =~= views(before).push(lv[i as int]));
        }
        assert(views(kept@) =~= kept_lines(next, hostname@));
        i = i + 1;
    }
    assert(lv.subrange(0, lv.len() as int) =~= lv);
    let mut out = joined_exec(&kept);
    push_char(&mut out, '\n');
    out
}

/// A line after toggling, when it is an entry for the host: a commented
/// line loses its marks, another gets `# ` in front.
pub open spec fn toggled_line(l: Seq<char>) -> Seq<char> {
    let t = trim(l);
    if t.len() > 0 && t[0] == '#' {
        trim(strip_hashes(t))
    } else {
        seq!['#', ' '] + l
    }
}

/// The lines after toggling every entry for `host`.
pub open spec fn toggled_lines(lines: Seq<Seq<char>>, host: Seq<char>) -> Seq<Seq<char>>
    decreases lines.len(),
{
    if lines.len() == 0 {
        Seq::empty()
    } else {
        let prev = toggled_lines(lines.drop_last(), host);
        if names_host(lines.last(), host) {
            prev.push(toggled_line(lines.last()))
        } else {
            prev.push(lines.last())
        }
    }
}

/// The index of the last entry for `host` among `lines`.
pub open spec fn last_entry(lines: Seq<Seq<char>>, host: Seq<char>) -> Option<int>
    decreases lines.len(),
{
    if lines.len() == 0 {
        None
    } else if names_host(lines.last(), host) {
        Some(lines.len() - 1)
    } else {
        last_entry(lines.drop_last(), host)
    }
}

pub open spec fn not_found_text(host: Seq<char>) -> Seq<char> {
    "Host entry '"@ + host + "' not found"@
}

/// Comments out, or back in, every entry for `hostname`. `Err` when there is
/// none; otherwise the new text (lines joined by line feeds, ending in one)
/// and whether the last such entry is now enabled.
pub fn toggle_host_entry(content: &str, hostname: &str) -> (r: Result<(String, bool), String>)
    ensures
        ({
            let lines = text_lines(content@);
            &&& r is Err <==> last_entry(lines, hostname@) is None
            &&& r matches Err(e) ==> e@ == not_found_text(hostname@)
            &&& r matches Ok((s, enabled)) ==> s@ == joined(toggled_lines(lines, hostname@)) + seq![
                '\n',
            ] && enabled == ({
                let t = trim(lines[last_entry(lines, hostname@)->0]);
                t.len() > 0 && t[0] == '#'
            })
        }),
{
    let lines = text_lines_exec(content);
    let host = chars_of(hostname);
    let ghost lv = views(lines@);
    let mut out: Vec<Vec<char>> = Vec::new();
    let mut found = false;
    let mut now_enabled = false;
    let mut i: usize = 0;
    while i < lines.len()
        invariant
            i <= lines.len(),
            lv == views(lines@),
            host@ == hostname@,
            views(out@) == toggled_lines(lv.subrange(0, i as int), hostname@),
            found == (last_entry(lv.subrange(0, i as int), hostname@) is Some),
            found ==> now_enabled == ({
                let t = trim(lv[last_entry(lv.subrange(0, i as int), hostname@)->0]);
                t.len() > 0 && t[0] == '#'
            }),
        decreases lines.len() - i,
    {
        let ghost next = lv.subrange(0, i + 1);
        assert(next.drop_last() =~= lv.subrange(0, i as int));
        assert(next.last() == lines@[i as int]@);
        let line = &lines[i];
        let ghost before = out@;
        if names_host_exec(line, &host) {
            found = true;
            let t = trim_chars(line);
            if t.len() > 0 && t[0] == '#' {
                now_enabled = true;
                let h = strip_hashes_exec(&t);
                out.push(trim_chars(&h));
            } else {
                now_enabled = false;
                let mut v: Vec<char> = Vec::new();
                v.push('#');
                v.push(' ');
                let mut k: usize = 0;
                while k < line.len()
                    invariant
                        k <= line.len(),
                        v@ == seq!['#', ' '] + line@.subrange(0, k as int),
                    decreases line.len() - k,
                {
                    v.push(line[k]);
                    k = k + 1;
                    assert(v@ =~= seq!['#', ' '] + line@.subrange(0, k as int));
                }
                assert(line@.subrange(0, line@.len() as int) =~= line@);
                out.push(v);
            }
            assert(views(out@) =~= views(before).push(toggled_line(lv[i as int])));
            assert(next[next.len() - 1] == lv[i as int]);
        } else {
            out.push(slice(line, 0, line.len()));
            assert(line@.subrange(0, line@.len() as int) =~= line@);
            assert(views(out@) =~= views(before).push(lv[i as int]));
        }
        assert(views(out@) =~= toggled_lines(next, hostname@));
        i = i + 1;
    }
    assert(lv.subrange(0, lv.len() as int) =~= lv);
    if !found {
        let mut e = String::from_str("Host entry '");
        e.append(hostname);
        e.append("' not found");
        return Err(e);
    }
    let mut s = joined_exec(&out);
    push_char(&mut s, '\n');
    Ok((s, now_enabled))
}

/// The entry that line number `n` holds: `ip hostname [# comment]`, possibly
/// commented out (then it must start with a digit once the marks are off).
/// Blank lines and comment lines hold none.
pub open spec fn entry_of(l: Seq<char>, n: nat) -> Option<HostEntryView> {
    let t = trim(l);
    if t.len() == 0 {
        None
    } else {
        let enabled = t[0] != '#';
        let pl = if enabled {
            t
        } else {
            trim(strip_hashes(t))
        };
        if !enabled && !(pl.len() > 0 && is_digit(pl[0])) {
            None
        } else {
            let hash = crate::text::index_of(pl, '#');
            let main = match hash {
                Some(h) => trim(pl.subrange(0, h)),
                None => trim(pl),
            };
            let comment = match hash {
                Some(h) => Some(trim(pl.subrange(h + 1, pl.len() as int))),
                None => None,
            };
            let toks = words(main);
            if toks.len() >= 2 {
                Some(
                    HostEntryView {
                        ip: toks[0],
                        hostname: toks[1],
                        comment,
                        enabled,
                        line_number: n,
                    },
                )
            } else {
                None
            }
        }
    }
}

/// The entries of `lines`, in order, numbered from 1.
pub open spec fn entries_of(lines: Seq<Seq<char>>) -> Seq<HostEntryView>
    decreases lines.len(),
{
    if lines.len() == 0 {
        Seq::empty()
    } else {
        let prev = entries_of(lines.drop_last());
        match entry_of(lines.last(), lines.len()) {
            Some(e) => prev.push(e),
            None => prev,
        }
    }
}

fn entry_in(l: &Vec<char>, n: usize) -> (r: Option<HostEntry>)
    ensures
        r matches Some(e) ==> entry_of(l@, n as nat) == Some(e@),
        r is None ==> entry_of(l@, n as nat) is None,
{
    let t = trim_chars(l);
    if t.len() == 0 {
        return None;
    }
    let enabled = t[0] != '#';
    let pl = if enabled {
        t
    } else {
        let h = strip_hashes_exec(&t);
        trim_chars(&h)
    };
    if !enabled && !(pl.len() > 0 && '0' <= pl[0] && pl[0] <= '9') {
        return None;
    }
    let hash = crate::text::find_char(&pl, '#');
    let main = match hash {
        Some(h) => {
            let before = slice(&pl, 0, h);
            trim_chars(&before)
        },
        None => trim_chars(&pl),
    };
    let comment = match hash {
        Some(h) => {
            let after = slice(&pl, h + 1, pl.len());
            let c = trim_chars(&after);
            Some(string_of(&c))
        },
        None => None,
    };
    let toks = words_of(&main);
    if toks.len() < 2 {
        return None;
    }
    assert(views(toks@)[0] == toks@[0]@);
    assert(views(toks@)[1] == toks@[1]@);
    Some(
        HostEntry {
            ip: string_of(&toks[0]),
            hostname: string_of(&toks[1]),
            comment,
            enabled,
            line_number: n,
        },
    )
}

/// The entries of a hosts file's text, in order, numbered by line from 1.
pub fn parse_hosts(content: &str) -> (r: Vec<HostEntry>)
    ensures
        entry_views(r@) == entries_of(text_lines(content@)),
{
    let lines = text_lines_exec(content);
    let ghost lv = views(lines@);
    let mut out: Vec<HostEntry> = Vec::new();
    let mut i: usize = 0;
    while i < lines.len()
        invariant
            i <= lines.len(),
            lv == views(lines@),
            entry_views(out@) == entries_of(lv.subrange(0, i as int)),
        decreases lines.len() - i,
    {
        let ghost next = lv.subrange(0, i + 1);
        assert(next.drop_last() =~= lv.subrange(0, i as int));
        assert(next.last() == lines@[i as int]@);
        let ghost before = out@;
        match entry_in(&lines[i], i + 1) {
            Some(e) => {
                out.push(e);
                assert(entry_views(out@) =~= entry_views(before).push(out@[before.len() as int]@));
            },
            None => {},
        }
        assert(entry_views(out@) =~= entries_of(next));
        i = i + 1;
    }
    assert(lv.subrange(0, lv.len() as int) =~= lv);
    out
}

} // verus!
