//! Candidate domain sets: a duplicate-free collection of names, the union of
//! per-source results, and the filter that keeps true subdomains of a target.

use vstd::prelude::*;
use vstd::string::*;
use crate::text::{concat2, ends_with, has_char, starts_with};

verus! {

/// The names held by a sequence of strings.
pub open spec fn names_of(v: Seq<String>) -> Set<Seq<char>> {
    Set::new(|d: Seq<char>| exists|i: int| 0 <= i < v.len() && v[i]@ == d)
}

/// The union of a sequence of sets.
pub open spec fn union_all(sets: Seq<Set<Seq<char>>>) -> Set<Seq<char>>
    decreases sets.len(),
{
    if sets.len() == 0 {
        Set::empty()
    } else {
        union_all(sets.drop_last()).union(sets.last())
    }
}

/// What one source contributed: its set, or nothing when it failed.
pub open spec fn contribution(r: Option<DomainSet>) -> Set<Seq<char>> {
    match r {
        Some(s) => s@,
        None => Set::empty(),
    }
}

/// The combined set of a list of per-source results.
pub open spec fn combined(results: Seq<Option<DomainSet>>) -> Set<Seq<char>> {
    union_all(results.map_values(|r: Option<DomainSet>| contribution(r)))
}

/// A name kept for `target`: no wildcard, no leading dot, and it ends with
/// `.` followed by the target.
pub open spec fn is_valid_subdomain(d: Seq<char>, target: Seq<char>) -> bool {
    &&& !d.contains('*')
    &&& !(d.len() > 0 && d[0] == '.')
    &&& (seq!['.'] + target).is_suffix_of(d)
}

/// The filtered result set of `s` for `target`.
pub open spec fn filtered(s: Set<Seq<char>>, target: Seq<char>) -> Set<Seq<char>> {
    s.filter(|d: Seq<char>| is_valid_subdomain(d, target))
}

pub proof fn lemma_names_of_push(v: Seq<String>, x: String)
    ensures
        names_of(v.push(x)) == names_of(v).insert(x@),
{
    assert forall|d: Seq<char>| names_of(v.push(x)).contains(d) implies names_of(v).insert(
        x@,
    ).contains(d) by {
        let i = choose|i: int| 0 <= i < v.push(x).len() && v.push(x)[i]@ == d;
        if i < v.len() {
            assert(v[i]@ == d);
        }
    }
    assert forall|d: Seq<char>| names_of(v).insert(x@).contains(d) implies names_of(
        v.push(x),
    ).contains(d) by {
        if d == x@ {
            assert(v.push(x)[v.len() as int]@ == d);
        } else {
            let i = choose|i: int| 0 <= i < v.len() && v[i]@ == d;
            assert(v.push(x)[i]@ == d);
        }
    }
    assert(names_of(v.push(x)) =~= names_of(v).insert(x@));
}

pub proof fn lemma_names_of_take(v: Seq<String>, i: int)
    requires
        0 <= i < v.len(),
    ensures
        names_of(v.take(i + 1)) == names_of(v.take(i)).insert(v[i]@),
{
    assert(v.take(i + 1) =~= v.take(i).push(v[i]));
    lemma_names_of_push(v.take(i), v[i]);
}

pub proof fn lemma_union_all_take(sets: Seq<Set<Seq<char>>>, i: int)
    requires
        0 <= i < sets.len(),
    ensures
        union_all(sets.take(i + 1)) == union_all(sets.take(i)).union(sets[i]),
{
    assert(sets.take(i + 1).drop_last() =~= sets.take(i));
}

pub proof fn lemma_names_of_views(v: Seq<String>)
    ensures
        names_of(v) == v.map_values(|x: String| x@).to_set(),
{
    let m = v.map_values(|x: String| x@);
    assert forall|d: Seq<char>| names_of(v).contains(d) implies m.to_set().contains(d) by {
        let i = choose|i: int| 0 <= i < v.len() && v[i]@ == d;
        assert(m[i] == d);
    }
    assert forall|d: Seq<char>| m.to_set().contains(d) implies names_of(v).contains(d) by {
        let i = choose|i: int| 0 <= i < m.len() && m[i] == d;
        assert(v[i]@ == d);
    }
    assert(names_of(v) =~= m.to_set());
}

/// An unordered collection of distinct domain names.
pub struct DomainSet {
    items: Vec<String>,
}

impl View for DomainSet {
    type V = Set<Seq<char>>;

    closed spec fn view(&self) -> Set<Seq<char>> {
        names_of(self.items@)
    }
}

impl DomainSet {
    /// No name is held twice.
    pub closed spec fn wf(&self) -> bool {
        forall|i: int, j: int|
            0 <= i < j < self.items@.len() ==> self.items@[i]@ != self.items@[j]@
    }

    pub proof fn lemma_finite(&self)
        ensures
            self@.finite(),
    {
        let f = |s: String| s@;
        let m = self.items@.map_values(f);
        assert(self@ =~= m.to_set()) by {
            assert forall|d: Seq<char>| self@.contains(d) implies m.to_set().contains(d) by {
                let i = choose|i: int| 0 <= i < self.items@.len() && self.items@[i]@ == d;
                assert(m[i] == d);
            }
            assert forall|d: Seq<char>| m.to_set().contains(d) implies self@.contains(d) by {
                let i = choose|i: int| 0 <= i < m.len() && m[i] == d;
                assert(self.items@[i]@ == d);
            }
        }
        vstd::seq_lib::seq_to_set_is_finite(m);
    }

    /// The empty set.
    pub fn new() -> (r: DomainSet)
        ensures
            r.wf(),
            r@ == Set::<Seq<char>>::empty(),
    {
        let r = DomainSet { items: Vec::new() };
        assert(r@ =~= Set::<Seq<char>>::empty());
        r
    }

    /// Whether `name` is held.
    pub fn contains(&self, name: &str) -> (r: bool)
        ensures
            r == self@.contains(name@),
    {
        let mut i: usize = 0;
        while i < self.items.len()
            invariant
                i <= self.items@.len(),
                forall|k: int| 0 <= k < i ==> self.items@[k]@ != name@,
            decreases self.items@.len() - i,
        {
            if self.items[i].as_str().unicode_len() == name.unicode_len() && ends_with(
                self.items[i].as_str(),
                name,
            ) {
                proof {
                    let a = self.items@[i as int]@;
                    assert(a =~= name@);
                }
                return true;
            }
            i = i + 1;
        }
        false
    }

    /// Adds `name`; a name already held is not added again.
    pub fn insert(&mut self, name: String)
        requires
            old(self).wf(),
        ensures
            final(self).wf(),
            final(self)@ == old(self)@.insert(name@),
    {
        if self.contains(name.as_str()) {
            assert(self@.insert(name@) =~= self@);
        } else {
            proof {
                lemma_names_of_push(self.items@, name);
                assert forall|i: int| 0 <= i < self.items@.len() implies self.items@[i]@
                    != name@ by {
                    if self.items@[i]@ == name@ {
                        assert(self@.contains(name@));
                    }
                }
            }
            self.items.push(name);
        }
    }

    /// Adds every name of `other`.
    pub fn extend(&mut self, other: &DomainSet)
        requires
            old(self).wf(),
        ensures
            final(self).wf(),
            final(self)@ == old(self)@.union(other@),
    {
        let ghost start = self@;
        let mut i: usize = 0;
        while i < other.items.len()
            invariant
                self.wf(),
                i <= other.items@.len(),
                self@ == start.union(names_of(other.items@.take(i as int))),
            decreases other.items@.len() - i,
        {
            proof {
                lemma_names_of_take(other.items@, i as int);
            }
            self.insert(other.items[i].clone());
            i = i + 1;
            assert(self@ =~= start.union(names_of(other.items@.take(i as int))));
        }
        assert(other.items@.take(i as int) =~= other.items@);
    }

    /// The names of a list, once each.
    pub fn from_vec(v: &Vec<String>) -> (r: DomainSet)
        ensures
            r.wf(),
            r@ == names_of(v@),
    {
        let mut r = DomainSet::new();
        let mut i: usize = 0;
        while i < v.len()
            invariant
                r.wf(),
                i <= v@.len(),
                r@ == names_of(v@.take(i as int)),
            decreases v@.len() - i,
        {
            proof {
                lemma_names_of_take(v@, i as int);
            }
            r.insert(v[i].clone());
            i = i + 1;
        }
        assert(v@.take(i as int) =~= v@);
        r
    }

    proof fn lemma_len(&self)
        requires
            self.wf(),
        ensures
            self@.finite(),
            self@.len() == self.items@.len(),
    {
        self.lemma_finite();
        let f = |s: String| s@;
        let m = self.items@.map_values(f);
        assert(m.no_duplicates());
        assert(self@ =~= m.to_set()) by {
            assert forall|d: Seq<char>| self@.contains(d) implies m.to_set().contains(d) by {
                let i = choose|i: int| 0 <= i < self.items@.len() && self.items@[i]@ == d;
                assert(m[i] == d);
            }
        }
        m.unique_seq_to_set();
    }

    /// The number of names held.
    pub fn len(&self) -> (r: usize)
        requires
            self.wf(),
        ensures
            self@.finite(),
            r == self@.len(),
    {
        proof {
            self.lemma_len();
        }
        self.items.len()
    }

    /// The names, once each, in some order.
    pub fn to_vec(&self) -> (r: Vec<String>)
        requires
            self.wf(),
        ensures
            names_of(r@) == self@,
            forall|i: int, j: int| 0 <= i < j < r@.len() ==> r@[i]@ != r@[j]@,
            self@.finite(),
            r@.len() == self@.len(),
    {
        proof {
            self.lemma_len();
        }
        let mut r: Vec<String> = Vec::new();
        let mut i: usize = 0;
        while i < self.items.len()
            invariant
                i <= self.items@.len(),
                r@.len() == i,
                forall|k: int| 0 <= k < i ==> r@[k]@ == self.items@[k]@,
            decreases self.items@.len() - i,
        {
            r.push(self.items[i].clone());
            i = i + 1;
        }
        assert(names_of(r@) =~= self@) by {
            assert forall|d: Seq<char>| names_of(r@).contains(d) implies self@.contains(d) by {
                let k = choose|k: int| 0 <= k < r@.len() && r@[k]@ == d;
                assert(self.items@[k]@ == d);
            }
            assert forall|d: Seq<char>| self@.contains(d) implies names_of(r@).contains(d) by {
                let k = choose|k: int| 0 <= k < self.items@.len() && self.items@[k]@ == d;
                assert(r@[k]@ == d);
            }
        }
        r
    }
}

/// Flattens the per-source results into one set, skipping failed sources;
/// a name returned by several sources is held once.
pub fn merge_results(results: &Vec<Option<DomainSet>>) -> (r: DomainSet)
    requires
        forall|i: int| 0 <= i < results@.len() && results@[i] is Some ==> (#[trigger] results@[i])->0.wf(),
    ensures
        r.wf(),
        r@ == combined(results@),
{
    let ghost sets = results@.map_values(|o: Option<DomainSet>| contribution(o));
    let mut r = DomainSet::new();
    let mut i: usize = 0;
    while i < results.len()
        invariant
            r.wf(),
            i <= results@.len(),
            sets == results@.map_values(|o: Option<DomainSet>| contribution(o)),
            forall|i: int| 0 <= i < results@.len() && results@[i] is Some ==> (#[trigger] results@[i])->0.wf(),
            r@ == union_all(sets.take(i as int)),
        decreases results@.len() - i,
    {
        proof {
            lemma_union_all_take(sets, i as int);
        }
        match &results[i] {
            Some(set) => {
                r.extend(set);
            },
            None => {
                assert(r@.union(Set::empty()) =~= r@);
            },
        }
        i = i + 1;
    }
    assert(sets.take(i as int) =~= sets);
    r
}

/// Keeps the names of `set` that are valid subdomains of `target`.
pub fn filter_subdomains(set: &DomainSet, target: &str) -> (r: DomainSet)
    requires
        set.wf(),
    ensures
        r.wf(),
        r@ == filtered(set@, target@),
{
    let suffix = concat2(".", target);
    proof {
        reveal_strlit(".");
        assert(suffix@ =~= seq!['.'] + target@);
    }
    let names = set.to_vec();
    let mut r = DomainSet::new();
    let mut i: usize = 0;
    while i < names.len()
        invariant
            r.wf(),
            i <= names@.len(),
            suffix@ == seq!['.'] + target@,
            r@ == filtered(names_of(names@.take(i as int)), target@),
        decreases names@.len() - i,
    {
        proof {
            lemma_names_of_take(names@, i as int);
            reveal_strlit(".");
        }
        let d = names[i].as_str();
        let keep = !has_char(d, '*') && !starts_with(d, ".") && ends_with(d, suffix.as_str());
        proof {
            let dv = names@[i as int]@;
            assert(d@ == dv);
            assert("."@ =~= seq!['.']);
            assert("."@.is_prefix_of(dv) == (dv.len() > 0 && dv[0] == '.')) by {
                if dv.len() > 0 && dv[0] == '.' {
                    assert("."@ =~= dv.subrange(0, 1));
                }
                if "."@.is_prefix_of(dv) {
                    assert(dv.subrange(0, 1)[0] == dv[0]);
                }
            }
            assert(keep == is_valid_subdomain(dv, target@));
        }
        if keep {
            r.insert(names[i].clone());
        }
        i = i + 1;
        assert(r@ =~= filtered(names_of(names@.take(i as int)), target@));
    }
    assert(names@.take(i as int) =~= names@);
    r
}

/// Filtering is idempotent: filtering an already filtered set changes nothing.
pub proof fn lemma_filter_idempotent(s: Set<Seq<char>>, target: Seq<char>)
    ensures
        filtered(filtered(s, target), target) == filtered(s, target),
{
    assert(filtered(filtered(s, target), target) =~= filtered(s, target));
}

/// The combined set holds exactly the names that at least one successful
/// source returned.
pub proof fn lemma_combined_members(results: Seq<Option<DomainSet>>, d: Seq<char>)
    ensures
        combined(results).contains(d) <==> exists|i: int|
            0 <= i < results.len() && #[trigger] contribution(results[i]).contains(d),
    decreases results.len(),
{
    let sets = results.map_values(|o: Option<DomainSet>| contribution(o));
    if results.len() > 0 {
        let front = results.drop_last();
        lemma_combined_members(front, d);
        assert(sets.drop_last() =~= front.map_values(|o: Option<DomainSet>| contribution(o)));
        if combined(results).contains(d) {
            if !combined(front).contains(d) {
                assert(contribution(results[results.len() - 1]).contains(d));
            } else {
                let i = choose|i: int| 0 <= i < front.len() && #[trigger] contribution(front[i]).contains(d);
                assert(results[i] == front[i]);
            }
        }
        if exists|i: int| 0 <= i < results.len() && #[trigger] contribution(results[i]).contains(d) {
            let i = choose|i: int| 0 <= i < results.len() && #[trigger] contribution(results[i]).contains(d);
            if i < front.len() {
                assert(front[i] == results[i]);
            }
        }
    }
}

/// Every name of a successful source's set is in the combined set.
pub proof fn lemma_source_names_in_combined(results: Seq<Option<DomainSet>>, i: int, d: Seq<char>)
    requires
        0 <= i < results.len(),
        results[i] is Some,
        results[i]->0@.contains(d),
    ensures
        combined(results).contains(d),
{
    assert(contribution(results[i]).contains(d));
    lemma_combined_members(results, d);
}

} // verus!
