//! The service manager's listing, as comma-separated text.

use vstd::prelude::*;
use crate::state::{CommandOutput, ServiceInfo};
use crate::text::{text_lines, text_lines_exec, slice, split_chars, split_on, string_of, trim, trim_chars, views};

verus! {

/// `s` without its leading and trailing double quotes.
pub open spec fn strip_quotes(s: Seq<char>) -> Seq<char>
    decreases s.len(),
{
    if s.len() > 0 && s[0] == '"' {
        strip_quotes(s.drop_first())
    } else if s.len() > 0 && s.last() == '"' {
        strip_quotes(s.drop_last())
    } else {
        s
    }
}

/// A CSV field's value: quotes off, then blanks off.
pub open spec fn field_value(s: Seq<char>) -> Seq<char> {
    trim(strip_quotes(s))
}

/// The mathematical value of a [`ServiceInfo`].
pub struct ServiceView {
    pub name: Seq<char>,
    pub display_name: Seq<char>,
    pub status: Seq<char>,
    pub start_type: Seq<char>,
}

impl View for ServiceInfo {
    type V = ServiceView;

    open spec fn view(&self) -> ServiceView {
        ServiceView {
            name: self.name@,
            display_name: self.display_name@,
            status: self.status@,
            start_type: self.start_type@,
        }
    }
}

pub open spec fn service_views(v: Seq<ServiceInfo>) -> Seq<ServiceView> {
    v.map_values(|x: ServiceInfo| x@)
}

/// The service a CSV row names, when it has at least four fields.
pub open spec fn service_of(line: Seq<char>) -> Option<ServiceView> {
    let f = split_on(line, ',');
    if f.len() >= 4 {
        Some(
            ServiceView {
                name: field_value(f[0]),
                display_name: field_value(f[1]),
                status: field_value(f[2]),
                start_type: field_value(f[3]),
            },
        )
    } else {
        None
    }
}

/// The services of the rows `lines`, in order.
pub open spec fn services_of(lines: Seq<Seq<char>>) -> Seq<ServiceView>
    decreases lines.len(),
{
    if lines.len() == 0 {
        Seq::empty()
    } else {
        let prev = services_of(lines.drop_last());
        match service_of(lines.last()) {
            Some(x) => prev.push(x),
            None => prev,
        }
    }
}

/// The services that a listing shows: nothing when the command failed,
/// otherwise every row after the header line with four fields or more.
pub open spec fn listing_services(out: CommandOutput) -> Seq<ServiceView> {
    let lines = text_lines(out.stdout@);
    if out.exit_code != 0 || lines.len() == 0 {
        Seq::empty()
    } else {
        services_of(lines.drop_first())
    }
}

fn field_exec(v: &Vec<char>) -> (r: String)
    ensures
        r@ == field_value(v@),
{
    let mut a: usize = 0;
    let mut b: usize = v.len();
    assert(v@.subrange(0, v@.len() as int) =~= v@);
    while a < b && (v[a] == '"' || v[b - 1] == '"')
        invariant
            a <= b <= v.len(),
            strip_quotes(v@) == strip_quotes(v@.subrange(a as int, b as int)),
        decreases b - a,
    {
        let ghost cur = v@.subrange(a as int, b as int);
        if v[a] == '"' {
            assert(cur.drop_first() =~= v@.subrange(a + 1, b as int));
            a = a + 1;
        } else {
            assert(cur.drop_last() =~= v@.subrange(a as int, b - 1));
            b = b - 1;
        }
    }
    let inner = slice(v, a, b);
    let t = trim_chars(&inner);
    string_of(&t)
}

fn service_in(line: &Vec<char>) -> (r: Option<ServiceInfo>)
    ensures
        r matches Some(x) ==> service_of(line@) == Some(x@),
        r is None ==> service_of(line@) is None,
{
    let f = split_chars(line, ',');
    if f.len() < 4 {
        return None;
    }
    assert(views(f@)[0] == f@[0]@);
    assert(views(f@)[1] == f@[1]@);
    assert(views(f@)[2] == f@[2]@);
    assert(views(f@)[3] == f@[3]@);
    Some(
        ServiceInfo {
            name: field_exec(&f[0]),
            display_name: field_exec(&f[1]),
            status: field_exec(&f[2]),
            start_type: field_exec(&f[3]),
        },
    )
}

/// Parses the service manager's CSV listing (a header line, then one row per
/// service: name, display name, status, start type).
pub fn parse_services(out: &CommandOutput) -> (r: Vec<ServiceInfo>)
    ensures
        service_views(r@) == listing_services(*out),
{
    let mut res: Vec<ServiceInfo> = Vec::new();
    if out.exit_code != 0 {
        assert(service_views(res@) =~= Seq::empty());
        return res;
    }
    let lines = text_lines_exec(out.stdout.as_str());
    let ghost lv = views(lines@);
    if lines.len() == 0 {
        assert(service_views(res@) =~= Seq::empty());
        return res;
    }
    let ghost rows = lv.drop_first();
    let mut i: usize = 1;
    assert(service_views(res@) =~= services_of(rows.subrange(0, 0)));
    while i < lines.len()
        invariant
            1 <= i <= lines.len(),
            lv == views(lines@),
            rows == lv.drop_first(),
            service_views(res@) == services_of(rows.subrange(0, i - 1)),
        decreases lines.len() - i,
    {
        let ghost next = rows.subrange(0, i as int);
        assert(next.drop_last() =~= rows.subrange(0, i - 1));
        assert(next.last() == lines@[i as int]@);
        let ghost before = res@;
        match service_in(&lines[i]) {
            Some(x) => {
                res.push(x);
                assert(service_views(res@) =~= service_views(before).push(res@[before.len() as int]@));
            },
            None => {},
        }
        assert(service_views(res@) =~= services_of(next));
        i = i + 1;
    }
    assert(rows.subrange(0, rows.len() as int) =~= rows);
    res
}

} // verus!
