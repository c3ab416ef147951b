//! What a run writes: one line per subdomain, optionally with its address,
//! and the name under which an earlier output file is kept.

use vstd::prelude::*;
use vstd::string::*;
use crate::domains::{
    combined, filter_subdomains, filtered, lemma_names_of_views, merge_results, DomainSet,
};
use crate::resolve::{get_ip, is_ip_text, no_address};
use crate::text::{concat2, concat3};

verus! {

/// The line written for `subdomain`: the name alone, or `name,address`.
pub open spec fn line_spec(subdomain: Seq<char>, address: Option<Seq<char>>) -> Seq<char> {
    match address {
        Some(a) => subdomain + ","@ + a,
        None => subdomain,
    }
}

/// Formats one output line (without its line break).
pub fn output_line(subdomain: &str, address: Option<&str>) -> (r: String)
    ensures
        r@ == line_spec(subdomain@, match address {
            Some(a) => Some(a@),
            None => None,
        }),
{
    match address {
        Some(a) => concat3(subdomain, ",", a),
        None => String::from_str(subdomain),
    }
}

/// The index of the last `.` in `s`, or -1 when there is none.
pub open spec fn last_dot(s: Seq<char>) -> int
    decreases s.len(),
{
    if s.len() == 0 {
        -1
    } else if s.last() == '.' {
        s.len() - 1
    } else {
        last_dot(s.drop_last())
    }
}

/// The name an existing output file is moved to: its extension (the text
/// after the last `.`, or the whole name when there is no `.`) replaced by
/// `old.txt`.
pub open spec fn backup_name(file_name: Seq<char>) -> Seq<char> {
    file_name.take(last_dot(file_name) + 1) + "old.txt"@
}

/// Computes the backup name of an output file.
pub fn backup_file_name(file_name: &str) -> (r: String)
    ensures
        r@ == backup_name(file_name@),
{
    let n = file_name.unicode_len();
    let mut i: usize = n;
    assert(file_name@.take(n as int) =~= file_name@);
    while i > 0
        invariant
            n == file_name@.len(),
            i <= n,
            last_dot(file_name@) == last_dot(file_name@.take(i as int)),
        ensures
            i <= n,
            last_dot(file_name@) == last_dot(file_name@.take(i as int)),
            i == 0 || file_name@.take(i as int).last() == '.',
        decreases i,
    {
        if file_name.get_char(i - 1) == '.' {
            assert(file_name@.take(i as int).last() == '.');
            break;
        }
        assert(file_name@.take(i as int).drop_last() =~= file_name@.take(i - 1));
        i = i - 1;
    }
    proof {
        if i == 0 {
            assert(file_name@.take(0).len() == 0);
        }
    }
    let head = file_name.substring_char(0, i);
    assert(head@ =~= file_name@.take(i as int));
    concat2(head, "old.txt")
}

/// The subdomains of `target` found in the per-source results: their union,
/// filtered.
pub fn collect_subdomains(results: &Vec<Option<DomainSet>>, target: &str) -> (r: DomainSet)
    requires
        forall|i: int| 0 <= i < results@.len() && results@[i] is Some ==> (#[trigger] results@[i])->0.wf(),
    ensures
        r.wf(),
        r@ == filtered(combined(results@), target@),
{
    let all = merge_results(results);
    filter_subdomains(&all, target)
}

/// `line` is the output line of `name`: the name alone, or, with addresses,
/// `name,address` where the address is the sentinel or an address text.
pub open spec fn line_of(line: Seq<char>, name: Seq<char>, with_ip: bool) -> bool {
    if with_ip {
        exists|a: Seq<char>|
            (a == no_address() || is_ip_text(a)) && line == #[trigger] line_spec(name, Some(a))
    } else {
        line == name
    }
}

/// `lines` holds one line for each name of `set`, in the order of `names`.
pub open spec fn lines_for(
    lines: Seq<String>,
    names: Seq<Seq<char>>,
    set: Set<Seq<char>>,
    with_ip: bool,
) -> bool {
    &&& names.len() == lines.len()
    &&& names.no_duplicates()
    &&& names.to_set() == set
    &&& forall|i: int| 0 <= i < lines.len() ==> line_of(#[trigger] lines[i]@, names[i], with_ip)
}

/// The output lines for `subdomains`: one line for each name, in some order.
/// Without addresses each line is the name; with them each line is
/// `name,address`, where the address comes from a lookup (the sentinel when
/// it failed). `None` only when addresses are asked for and no resolver
/// could be built.
pub fn output_lines(subdomains: &DomainSet, with_ip: bool) -> (r: Option<Vec<String>>)
    requires
        subdomains.wf(),
    ensures
        !with_ip ==> r is Some,
        r is Some ==> r->0@.len() == subdomains@.len(),
        r is Some ==> exists|names: Seq<Seq<char>>| lines_for(r->0@, names, subdomains@, with_ip),
{
    let names = subdomains.to_vec();
    let ghost nv = names@.map_values(|x: String| x@);
    proof {
        lemma_names_of_views(names@);
        assert(nv.no_duplicates());
    }
    let mut lines: Vec<String> = Vec::new();
    let mut i: usize = 0;
    while i < names.len()
        invariant
            i <= names@.len(),
            nv == names@.map_values(|x: String| x@),
            lines@.len() == i,
            forall|k: int| 0 <= k < i ==> line_of(#[trigger] lines@[k]@, nv[k], with_ip),
        decreases names@.len() - i,
    {
        let name = names[i].as_str();
        let ghost before = lines@;
        let line = if with_ip {
            match get_ip(name) {
                Some(address) => {
                    let l = output_line(name, Some(address.as_str()));
                    assert(l@ == line_spec(nv[i as int], Some(address@)));
                    let ghost a = address@;
                    assert(a == no_address() || is_ip_text(a));
                    assert((a == no_address() || is_ip_text(a)) && l@ == line_spec(
                        nv[i as int],
                        Some(a),
                    ));
                    assert(line_of(l@, nv[i as int], true));
                    l
                },
                None => {
                    return None;
                },
            }
        } else {
            let l = output_line(name, None);
            assert(l@ == nv[i as int]);
            l
        };
        assert(line_of(line@, nv[i as int], with_ip));
        lines.push(line);
        proof {
            assert forall|k: int| 0 <= k <= i implies line_of(
                #[trigger] lines@[k]@,
                nv[k],
                with_ip,
            ) by {
                if k < i {
                    assert(lines@[k] == before[k]);
                }
            }
        }
        i = i + 1;
    }
    assert(lines_for(lines@, nv, subdomains@, with_ip));
    let r = Some(lines);
    assert(lines_for(r->0@, nv, subdomains@, with_ip));
    r
}

} // verus!
