//! Character-level text helpers shared by the parsers and formatters.

use vstd::prelude::*;
use vstd::string::*;

verus! {

/// The decimal digit character for `d` (`d < 10`).
pub open spec fn digit_char(d: nat) -> char {
    if d == 0 { '0' }
    else if d == 1 { '1' }
    else if d == 2 { '2' }
    else if d == 3 { '3' }
    else if d == 4 { '4' }
    else if d == 5 { '5' }
    else if d == 6 { '6' }
    else if d == 7 { '7' }
    else if d == 8 { '8' }
    else { '9' }
}

/// The decimal text of `n`, without leading zeros.
pub open spec fn dec_digits(n: nat) -> Seq<char>
    decreases n,
{
    if n < 10 {
        seq![digit_char(n)]
    } else {
        dec_digits(n / 10).push(digit_char(n % 10))
    }
}

/// The decimal text of a signed integer, with a leading `-` when negative.
pub open spec fn int_text(i: int) -> Seq<char> {
    if i < 0 {
        seq!['-'] + dec_digits((-i) as nat)
    } else {
        dec_digits(i as nat)
    }
}

/// Relies on `String::push`: the character is added at the end.
#[verifier::external_body]
pub(crate) fn push_char(s: &mut String, c: char)
    ensures
        final(s)@ == old(s)@.push(c),
{
    s.push(c)
}

fn digit_of(d: u64) -> (c: char)
    requires
        d < 10,
    ensures
        c == digit_char(d as nat),
{
    if d == 0 { '0' }
    else if d == 1 { '1' }
    else if d == 2 { '2' }
    else if d == 3 { '3' }
    else if d == 4 { '4' }
    else if d == 5 { '5' }
    else if d == 6 { '6' }
    else if d == 7 { '7' }
    else if d == 8 { '8' }
    else { '9' }
}

/// Appends the decimal text of `n` to `s`.
pub fn push_dec(s: &mut String, n: u64)
    ensures
        final(s)@ == old(s)@ + dec_digits(n as nat),
    decreases n,
{
    if n >= 10 {
        push_dec(s, n / 10);
        push_char(s, digit_of(n % 10));
        assert(final(s)@ =~= old(s)@ + dec_digits(n as nat));
    } else {
        push_char(s, digit_of(n));
        assert(final(s)@ =~= old(s)@ + dec_digits(n as nat));
    }
}

/// Appends the decimal text of a signed integer to `s`.
pub fn push_int(s: &mut String, i: i64)
    ensures
        final(s)@ == old(s)@ + int_text(i as int),
{
    if i < 0 {
        push_char(s, '-');
        let m: u64 = if i == i64::MIN { 9223372036854775808u64 } else { (-i) as u64 };
        push_dec(s, m);
        assert(final(s)@ =~= old(s)@ + int_text(i as int));
    } else {
        push_dec(s, i as u64);
    }
}

/// The characters of `s`, in order.
pub fn chars_of(s: &str) -> (r: Vec<char>)
    ensures
        r@ == s@,
{
    broadcast use vstd::string::group_string_axioms;
    let mut r: Vec<char> = Vec::new();
    for c in it: s.chars()
        invariant
            r@ == it.seq().subrange(0, it.index() as int),
    {
        r.push(c);
    }
    assert(r@ =~= s@);
    r
}

/// The text holding the characters of `v`.
pub fn string_of(v: &Vec<char>) -> (r: String)
    ensures
        r@ == v@,
{
    let mut r = String::new();
    let mut i: usize = 0;
    while i < v.len()
        invariant
            i <= v.len(),
            r@ == v@.subrange(0, i as int),
        decreases v.len() - i,
    {
        push_char(&mut r, v[i]);
        i = i + 1;
        assert(r@ =~= v@.subrange(0, i as int));
    }
    assert(r@ =~= v@);
    r
}

/// The characters of `v` from `lo` up to (not including) `hi`.
pub fn slice(v: &Vec<char>, lo: usize, hi: usize) -> (r: Vec<char>)
    requires
        lo <= hi <= v.len(),
    ensures
        r@ == v@.subrange(lo as int, hi as int),
{
    let mut r: Vec<char> = Vec::new();
    let mut i: usize = lo;
    while i < hi
        invariant
            lo <= i <= hi <= v.len(),
            r@ == v@.subrange(lo as int, i as int),
        decreases hi - i,
    {
        r.push(v[i]);
        i = i + 1;
        assert(r@ =~= v@.subrange(lo as int, i as int));
    }
    r
}

/// Blank characters: the Unicode `White_Space` set (tab, line feed, vertical
/// tab, form feed, carriage return, space, next line, no-break space, ogham
/// space mark, the spaces U+2000 to U+200A, line and paragraph separators,
/// narrow no-break space, medium mathematical space, ideographic space).
pub open spec fn is_ws(c: char) -> bool {
    c == ' ' || ('\t' <= c && c <= '\r') || c == '\u{85}' || c == '\u{a0}' || c == '\u{1680}'
        || ('\u{2000}' <= c && c <= '\u{200a}') || c == '\u{2028}' || c == '\u{2029}' || c
        == '\u{202f}' || c == '\u{205f}' || c == '\u{3000}'
}

pub fn is_ws_char(c: char) -> (r: bool)
    ensures
        r == is_ws(c),
{
    c == ' ' || ('\t' <= c && c <= '\r') || c == '\u{85}' || c == '\u{a0}' || c == '\u{1680}'
        || ('\u{2000}' <= c && c <= '\u{200a}') || c == '\u{2028}' || c == '\u{2029}' || c
        == '\u{202f}' || c == '\u{205f}' || c == '\u{3000}'
}

/// The first position at or after `i` that holds `c`.
pub open spec fn char_from(s: Seq<char>, c: char, i: int) -> Option<int>
    decreases s.len() - i,
{
    if i < 0 || i >= s.len() {
        None
    } else if s[i] == c {
        Some(i)
    } else {
        char_from(s, c, i + 1)
    }
}

/// The first position of `c` in `s`.
pub open spec fn index_of(s: Seq<char>, c: char) -> Option<int> {
    char_from(s, c, 0)
}

/// The last position before `j` that holds `c`.
pub open spec fn char_before(s: Seq<char>, c: char, j: int) -> Option<int>
    decreases j,
{
    if j <= 0 || j > s.len() {
        None
    } else if s[j - 1] == c {
        Some(j - 1)
    } else {
        char_before(s, c, j - 1)
    }
}

/// The last position of `c` in `s`.
pub open spec fn last_index_of(s: Seq<char>, c: char) -> Option<int> {
    char_before(s, c, s.len() as int)
}

/// Whether `t` occurs in `s` at position `i`.
pub open spec fn occurs_at(s: Seq<char>, t: Seq<char>, i: int) -> bool {
    0 <= i && i + t.len() <= s.len() && s.subrange(i, i + t.len()) == t
}

/// The first position at or after `i` where `t` occurs in `s`.
pub open spec fn seq_from(s: Seq<char>, t: Seq<char>, i: int) -> Option<int>
    decreases s.len() + 1 - i,
{
    if i < 0 || i + t.len() > s.len() {
        None
    } else if s.subrange(i, i + t.len()) == t {
        Some(i)
    } else {
        seq_from(s, t, i + 1)
    }
}

/// The first position where `t` occurs in `s`.
pub open spec fn find_seq(s: Seq<char>, t: Seq<char>) -> Option<int> {
    seq_from(s, t, 0)
}

/// Whether `t` occurs anywhere in `s`.
pub open spec fn contains_seq(s: Seq<char>, t: Seq<char>) -> bool {
    find_seq(s, t) is Some
}

pub fn find_char(v: &Vec<char>, c: char) -> (r: Option<usize>)
    ensures
        r matches Some(i) ==> i < v@.len() && v@[i as int] == c,
        r matches Some(i) ==> index_of(v@, c) == Some(i as int),
        r is None ==> index_of(v@, c) is None,
{
    let mut i: usize = 0;
    while i < v.len()
        invariant
            i <= v.len(),
            char_from(v@, c, 0) == char_from(v@, c, i as int),
        decreases v.len() - i,
    {
        if v[i] == c {
            return Some(i);
        }
        i = i + 1;
    }
    None
}

pub fn rfind_char(v: &Vec<char>, c: char) -> (r: Option<usize>)
    ensures
        r matches Some(i) ==> i < v@.len() && v@[i as int] == c,
        r matches Some(i) ==> last_index_of(v@, c) == Some(i as int),
        r is None ==> last_index_of(v@, c) is None,
{
    let mut j: usize = v.len();
    while j > 0
        invariant
            j <= v.len(),
            last_index_of(v@, c) == char_before(v@, c, j as int),
        decreases j,
    {
        if v[j - 1] == c {
            return Some(j - 1);
        }
        j = j - 1;
    }
    None
}

/// Whether `t` occurs in `v` at position `i`.
pub fn matches_at(v: &Vec<char>, t: &Vec<char>, i: usize) -> (r: bool)
    ensures
        r == occurs_at(v@, t@, i as int),
{
    if i > v.len() || t.len() > v.len() - i {
        return false;
    }
    let mut k: usize = 0;
    while k < t.len()
        invariant
            i + t.len() <= v.len(),
            k <= t.len(),
            forall|m: int| 0 <= m < k ==> v@[i + m] == t@[m],
        decreases t.len() - k,
    {
        if v[i + k] != t[k] {
            assert(v@.subrange(i as int, i + t.len())[k as int] != t@[k as int]);
            return false;
        }
        k = k + 1;
    }
    assert(v@.subrange(i as int, i + t.len()) =~= t@);
    true
}

pub fn find_seq_exec(v: &Vec<char>, t: &Vec<char>) -> (r: Option<usize>)
    ensures
        r matches Some(i) ==> occurs_at(v@, t@, i as int),
        r matches Some(i) ==> find_seq(v@, t@) == Some(i as int),
        r is None ==> find_seq(v@, t@) is None,
{
    let mut i: usize = 0;
    while i <= v.len()
        invariant
            i <= v.len() + 1,
            seq_from(v@, t@, 0) == seq_from(v@, t@, i as int),
        decreases v.len() + 1 - i,
    {
        if t.len() > v.len() - i {
            return None;
        }
        if matches_at(v, t, i) {
            return Some(i);
        }
        assert(t@.len() > 0) by {
            if t@.len() == 0 {
                assert(v@.subrange(i as int, i as int) =~= t@);
            }
        }
        i = i + 1;
    }
    None
}

/// `s` without its leading blanks.
pub open spec fn trim_left(s: Seq<char>) -> Seq<char>
    decreases s.len(),
{
    if s.len() > 0 && is_ws(s[0]) {
        trim_left(s.drop_first())
    } else {
        s
    }
}

/// `s` without its trailing blanks.
pub open spec fn trim_right(s: Seq<char>) -> Seq<char>
    decreases s.len(),
{
    if s.len() > 0 && is_ws(s.last()) {
        trim_right(s.drop_last())
    } else {
        s
    }
}

/// `s` without its leading and trailing blanks.
pub open spec fn trim(s: Seq<char>) -> Seq<char> {
    trim_right(trim_left(s))
}

pub fn trim_chars(v: &Vec<char>) -> (r: Vec<char>)
    ensures
        r@ == trim(v@),
{
    let mut a: usize = 0;
    assert(v@.subrange(0, v.len() as int) =~= v@);
    while a < v.len() && is_ws_char(v[a])
        invariant
            a <= v.len(),
            trim_left(v@) == trim_left(v@.subrange(a as int, v.len() as int)),
        decreases v.len() - a,
    {
        assert(v@.subrange(a as int, v.len() as int).drop_first()
            =~= v@.subrange(a + 1, v.len() as int));
        a = a + 1;
    }
    assert(trim_left(v@) == v@.subrange(a as int, v.len() as int));
    let mut b: usize = v.len();
    while b > a && is_ws_char(v[b - 1])
        invariant
            a <= b <= v.len(),
            trim(v@) == trim_right(v@.subrange(a as int, b as int)),
        decreases b,
    {
        assert(v@.subrange(a as int, b as int).drop_last() =~= v@.subrange(a as int, b - 1));
        b = b - 1;
    }
    slice(v, a, b)
}

/// The pieces of `s` between occurrences of `sep` (one piece when `sep`
/// does not occur; empty pieces kept).
pub open spec fn split_on(s: Seq<char>, sep: char) -> Seq<Seq<char>>
    decreases s.len(),
{
    if s.len() == 0 {
        seq![Seq::<char>::empty()]
    } else {
        let prev = split_on(s.drop_last(), sep);
        if s.last() == sep {
            prev.push(Seq::<char>::empty())
        } else {
            prev.update(prev.len() - 1, prev.last().push(s.last()))
        }
    }
}

pub proof fn lemma_split_on_nonempty(s: Seq<char>, sep: char)
    ensures
        split_on(s, sep).len() >= 1,
    decreases s.len(),
{
    if s.len() > 0 {
        lemma_split_on_nonempty(s.drop_last(), sep);
    }
}

/// The views of a sequence of character vectors.
pub open spec fn views(v: Seq<Vec<char>>) -> Seq<Seq<char>> {
    v.map_values(|p: Vec<char>| p@)
}

pub fn split_chars(v: &Vec<char>, sep: char) -> (r: Vec<Vec<char>>)
    ensures
        views(r@) == split_on(v@, sep),
{
    let mut done: Vec<Vec<char>> = Vec::new();
    let mut cur: Vec<char> = Vec::new();
    let mut i: usize = 0;
    while i < v.len()
        invariant
            i <= v.len(),
            views(done@).push(cur@) == split_on(v@.subrange(0, i as int), sep),
        decreases v.len() - i,
    {
        let ghost pre = v@.subrange(0, i as int);
        let ghost next = v@.subrange(0, i + 1);
        assert(next.drop_last() =~= pre);
        proof { lemma_split_on_nonempty(pre, sep); }
        if v[i] == sep {
            let piece = cur;
            done.push(piece);
            cur = Vec::new();
            assert(views(done@).push(cur@) =~= split_on(next, sep));
        } else {
            cur.push(v[i]);
            assert(views(done@).push(cur@) =~= split_on(next, sep));
        }
        i = i + 1;
    }
    assert(v@.subrange(0, v.len() as int) =~= v@);
    done.push(cur);
    assert(views(done@) =~= split_on(v@, sep));
    done
}

/// The blank-separated words of `s`, in order.
pub open spec fn words(s: Seq<char>) -> Seq<Seq<char>>
    decreases s.len(),
{
    if s.len() == 0 {
        Seq::empty()
    } else {
        let prev = words(s.drop_last());
        let c = s.last();
        if is_ws(c) {
            prev
        } else if s.len() >= 2 && !is_ws(s[s.len() - 2]) {
            prev.update(prev.len() - 1, prev.last().push(c))
        } else {
            prev.push(seq![c])
        }
    }
}

pub proof fn lemma_words_in_word(s: Seq<char>)
    requires
        s.len() > 0,
        !is_ws(s.last()),
    ensures
        words(s).len() >= 1,
    decreases s.len(),
{
    if s.len() >= 2 && !is_ws(s[s.len() - 2]) {
        assert(s.drop_last().last() == s[s.len() - 2]);
        lemma_words_in_word(s.drop_last());
    }
}

pub fn words_of(v: &Vec<char>) -> (r: Vec<Vec<char>>)
    ensures
        views(r@) == words(v@),
{
    let mut done: Vec<Vec<char>> = Vec::new();
    let mut cur: Vec<char> = Vec::new();
    let mut i: usize = 0;
    while i < v.len()
        invariant
            i <= v.len(),
            i > 0 && !is_ws(v@[i - 1]) ==> cur@.len() > 0
                && views(done@).push(cur@) == words(v@.subrange(0, i as int)),
            !(i > 0 && !is_ws(v@[i - 1])) ==> cur@.len() == 0
                && views(done@) == words(v@.subrange(0, i as int)),
        decreases v.len() - i,
    {
        let ghost pre = v@.subrange(0, i as int);
        let ghost next = v@.subrange(0, i + 1);
        assert(next.drop_last() =~= pre);
        let c = v[i];
        if i > 0 {
            assert(next[next.len() - 2] == v@[i - 1]);
        }
        if is_ws_char(c) {
            if cur.len() > 0 {
                let piece = cur;
                done.push(piece);
                cur = Vec::new();
            }
            assert(views(done@) =~= words(next));
        } else {
            let ghost old_cur = cur@;
            let ghost prev = words(pre);
            if i > 0 && !is_ws_char(v[i - 1]) {
                assert(pre.last() == v@[i - 1]);
                proof { lemma_words_in_word(pre); }
                assert(words(next) == prev.update(prev.len() - 1, prev.last().push(c)));
                assert(prev.last() == old_cur);
                cur.push(c);
                assert(views(done@).push(cur@) =~= words(next));
            } else {
                assert(words(next) == prev.push(seq![c]));
                cur.push(c);
                assert(cur@ =~= seq![c]);
                assert(views(done@).push(cur@) =~= words(next));
            }
        }
        i = i + 1;
    }
    assert(v@.subrange(0, v.len() as int) =~= v@);
    if cur.len() > 0 {
        done.push(cur);
    }
    assert(views(done@) =~= words(v@));
    done
}

/// Whether `c` is an ASCII decimal digit.
pub open spec fn is_digit(c: char) -> bool {
    '0' <= c && c <= '9'
}

/// The value of the digit character `c`.
pub open spec fn digit_value(c: char) -> nat {
    (c as u32 - '0' as u32) as nat
}

/// The value of a string of decimal digits.
pub open spec fn dec_value(s: Seq<char>) -> nat
    decreases s.len(),
{
    if s.len() == 0 {
        0
    } else {
        dec_value(s.drop_last()) * 10 + digit_value(s.last())
    }
}

pub open spec fn all_digits(s: Seq<char>) -> bool {
    forall|i: int| 0 <= i < s.len() ==> is_digit(#[trigger] s[i])
}

/// The number that `s` spells in decimal, when it is one or more digits and
/// at most `max`.
pub open spec fn parse_dec(s: Seq<char>, max: nat) -> Option<nat> {
    if s.len() > 0 && all_digits(s) && dec_value(s) <= max {
        Some(dec_value(s))
    } else {
        None
    }
}

proof fn lemma_dec_value_grows(s: Seq<char>, i: int, j: int)
    requires
        0 <= i <= j <= s.len(),
    ensures
        dec_value(s.subrange(0, i)) <= dec_value(s.subrange(0, j)),
    decreases j - i,
{
    if i < j {
        lemma_dec_value_grows(s, i, j - 1);
        assert(s.subrange(0, j).drop_last() =~= s.subrange(0, j - 1));
    }
}

/// Parses the digits of `v` as a number no greater than `max`.
pub fn parse_decimal(v: &Vec<char>, max: u64) -> (r: Option<u64>)
    ensures
        r matches Some(x) ==> parse_dec(v@, max as nat) == Some(x as nat),
        r is None ==> parse_dec(v@, max as nat) is None,
{
    if v.len() == 0 {
        return None;
    }
    let mut acc: u64 = 0;
    let mut i: usize = 0;
    while i < v.len()
        invariant
            i <= v.len(),
            acc <= max,
            acc == dec_value(v@.subrange(0, i as int)),
            all_digits(v@.subrange(0, i as int)),
        decreases v.len() - i,
    {
        let c = v[i];
        let ghost next = v@.subrange(0, i + 1);
        assert(next.drop_last() =~= v@.subrange(0, i as int));
        if !('0' <= c && c <= '9') {
            assert(!all_digits(v@));
            return None;
        }
        let d: u64 = (c as u32 - '0' as u32) as u64;
        if d > max || acc > (max - d) / 10 {
            proof {
                if d <= max {
                    assert(dec_value(next) > max) by (nonlinear_arith)
                        requires
                            dec_value(next) == acc * 10 + d,
                            acc > (max - d) / 10,
                            d <= max,
                    ;
                }
                if all_digits(v@) {
                    lemma_dec_value_grows(v@, i + 1, v@.len() as int);
                    assert(v@.subrange(0, v@.len() as int) =~= v@);
                }
            }
            return None;
        }
        acc = acc * 10 + d;
        i = i + 1;
        assert(all_digits(v@.subrange(0, i as int)));
    }
    assert(v@.subrange(0, v.len() as int) =~= v@);
    Some(acc)
}

/// `l` without one trailing carriage return.
pub open spec fn drop_cr(l: Seq<char>) -> Seq<char> {
    if l.len() > 0 && l.last() == '\r' {
        l.drop_last()
    } else {
        l
    }
}

/// The lines of a text: split at line feeds, with no empty line after a
/// final line feed; a carriage return right before a line feed belongs to
/// the line ending, not to the line.
pub open spec fn text_lines(s: Seq<char>) -> Seq<Seq<char>> {
    let p = split_on(s, '\n');
    let ended = p.drop_last().map_values(|l: Seq<char>| drop_cr(l));
    if p.last().len() == 0 {
        ended
    } else {
        ended.push(p.last())
    }
}

pub fn text_lines_exec(s: &str) -> (r: Vec<Vec<char>>)
    ensures
        views(r@) == text_lines(s@),
{
    let chars = chars_of(s);
    let p = split_chars(&chars, '\n');
    let ghost pv = views(p@);
    proof {
        lemma_split_on_nonempty(s@, '\n');
    }
    let n = p.len();
    let mut r: Vec<Vec<char>> = Vec::new();
    let mut i: usize = 0;
    while i + 1 < n
        invariant
            n == p.len(),
            n >= 1,
            i + 1 <= n,
            pv == views(p@),
            views(r@) == pv.subrange(0, i as int).map_values(|l: Seq<char>| drop_cr(l)),
        decreases n - i,
    {
        assert(pv[i as int] == p@[i as int]@);
        let l = &p[i];
        let m = l.len();
        let line = if m > 0 && l[m - 1] == '\r' {
            slice(l, 0, m - 1)
        } else {
            slice(l, 0, m)
        };
        assert(line@ =~= drop_cr(pv[i as int]));
        let ghost before = r@;
        r.push(line);
        assert(views(r@) =~= views(before).push(drop_cr(pv[i as int])));
        assert(pv.subrange(0, i + 1).map_values(|l: Seq<char>| drop_cr(l)) =~= pv.subrange(
            0,
            i as int,
        ).map_values(|l: Seq<char>| drop_cr(l)).push(drop_cr(pv[i as int])));
        i = i + 1;
    }
    assert(pv.drop_last() =~= pv.subrange(0, n - 1));
    assert(pv.last() == p@[n - 1]@);
    let last = &p[n - 1];
    if last.len() > 0 {
        let ghost before = r@;
        r.push(slice(last, 0, last.len()));
        assert(last@.subrange(0, last@.len() as int) =~= last@);
        assert(views(r@) =~= views(before).push(pv.last()));
    }
    r
}

} // verus!
