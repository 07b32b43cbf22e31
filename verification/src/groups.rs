//! Proxy groups: building them from the controller's proxy records, the set
//! of pinned group names, and the order in which groups are listed.
use vstd::prelude::*;
use vstd::multiset::Multiset;
use crate::model::{
    ProxyGroup, ProxyInfo, ProxyItem, opt_view, first_pos, lemma_first_pos_is,
    lemma_first_pos_absent,
};
use crate::text::{seq_lt, str_lt, lemma_seq_lt_transitive, lemma_seq_lt_asymmetric};

verus! {

broadcast use vstd::seq_lib::group_to_multiset_ensures;

/// `name` is one of `names`.
pub open spec fn name_in(names: Seq<String>, name: Seq<char>) -> bool {
    exists|i: int| 0 <= i < names.len() && #[trigger] names[i]@ == name
}

/// The set of the names in `names`.
pub open spec fn name_set(names: Seq<String>) -> Set<Seq<char>> {
    Set::new(|n: Seq<char>| name_in(names, n))
}

/// No name occurs twice in `names`.
pub open spec fn distinct_names(names: Seq<String>) -> bool {
    forall|i: int, j: int| 0 <= i < j < names.len() ==> names[i]@ != names[j]@
}

/// `names` without repeats: each name where it first occurs.
pub open spec fn dedup_names(names: Seq<String>) -> Seq<String>
    decreases names.len(),
{
    if names.len() == 0 {
        names
    } else {
        let kept = dedup_names(names.drop_last());
        if name_in(kept, names.last()@) {
            kept
        } else {
            kept.push(names.last())
        }
    }
}

/// Whether a string differs from `n`.
pub open spec fn other_than(n: Seq<char>) -> spec_fn(String) -> bool {
    |s: String| s@ != n
}

/// Whether `name` is one of `names`.
pub fn contains_name(names: &Vec<String>, name: &String) -> (r: bool)
    ensures
        r == name_in(names@, name@),
{
    let mut i: usize = 0;
    while i < names.len()
        invariant
            i <= names@.len(),
            forall|k: int| 0 <= k < i ==> names@[k]@ != name@,
        decreases names@.len() - i,
    {
        if names[i] == *name {
            return true;
        }
        i = i + 1;
    }
    false
}

/// Group `a` may be listed before group `b`: pinned groups come first, and
/// within pinned and unpinned groups the names ascend.
pub open spec fn group_precedes(pinned: Seq<String>, a: ProxyGroup, b: ProxyGroup) -> bool {
    let pa = name_in(pinned, a.name@);
    let pb = name_in(pinned, b.name@);
    (pa && !pb) || (pa == pb && !seq_lt(b.name@, a.name@))
}

/// Group `a` must be listed before group `b`.
pub open spec fn group_strictly_precedes(pinned: Seq<String>, a: ProxyGroup, b: ProxyGroup) -> bool {
    let pa = name_in(pinned, a.name@);
    let pb = name_in(pinned, b.name@);
    (pa && !pb) || (pa == pb && seq_lt(a.name@, b.name@))
}

/// The groups are listed in the order of `group_precedes`.
pub open spec fn groups_sorted(pinned: Seq<String>, gs: Seq<ProxyGroup>) -> bool {
    forall|i: int, j: int| 0 <= i < j < gs.len() ==> group_precedes(pinned, gs[i], gs[j])
}

proof fn lemma_strict_then_weak(pinned: Seq<String>, a: ProxyGroup, b: ProxyGroup, c: ProxyGroup)
    requires
        group_strictly_precedes(pinned, a, b),
        group_precedes(pinned, b, c),
    ensures
        group_precedes(pinned, a, c),
{
    if seq_lt(c.name@, a.name@) && seq_lt(a.name@, b.name@) {
        lemma_seq_lt_transitive(c.name@, a.name@, b.name@);
    }
}

proof fn lemma_seq_lt_irreflexive_names(pinned: Seq<String>, a: ProxyGroup, b: ProxyGroup)
    requires
        group_strictly_precedes(pinned, a, b),
    ensures
        a.name@ != b.name@,
{
    crate::text::lemma_seq_lt_irreflexive(a.name@);
}

proof fn lemma_strict_is_weak(pinned: Seq<String>, a: ProxyGroup, b: ProxyGroup)
    requires
        group_strictly_precedes(pinned, a, b),
    ensures
        group_precedes(pinned, a, b),
{
    if seq_lt(a.name@, b.name@) {
        lemma_seq_lt_asymmetric(a.name@, b.name@);
    }
}

/// Whether group `a` must be listed before group `b`.
fn strictly_precedes(pinned: &Vec<String>, a: &ProxyGroup, b: &ProxyGroup) -> (r: bool)
    ensures
        r == group_strictly_precedes(pinned@, *a, *b),
{
    let pa = contains_name(pinned, &a.name);
    let pb = contains_name(pinned, &b.name);
    if pa && !pb {
        true
    } else if pa == pb {
        str_lt(a.name.as_str(), b.name.as_str())
    } else {
        false
    }
}

/// Whether a group has the name `n`.
pub open spec fn has_name(n: Seq<char>) -> spec_fn(ProxyGroup) -> bool {
    |g: ProxyGroup| g.name@ == n
}

/// The groups named `n`, in their order in `gs`.
pub open spec fn named(gs: Seq<ProxyGroup>, n: Seq<char>) -> Seq<ProxyGroup> {
    gs.filter(has_name(n))
}

proof fn lemma_named_empty(gs: Seq<ProxyGroup>, n: Seq<char>)
    requires
        forall|i: int| 0 <= i < gs.len() ==> gs[i].name@ != n,
    ensures
        named(gs, n) == Seq::<ProxyGroup>::empty(),
{
    if named(gs, n).len() > 0 {
        let x = named(gs, n)[0];
        assert(named(gs, n).contains(x));
        gs.lemma_filter_contains_rev(has_name(n), x);
        gs.lemma_filter_pred(has_name(n), 0);
    }
}

proof fn lemma_named_single(g: ProxyGroup, n: Seq<char>)
    ensures
        named(seq![g], n) == if g.name@ == n {
            seq![g]
        } else {
            Seq::<ProxyGroup>::empty()
        },
{
    reveal_with_fuel(Seq::filter, 2);
    assert(seq![g].drop_last() =~= Seq::<ProxyGroup>::empty());
}

proof fn lemma_named_insert(before: Seq<ProxyGroup>, pos: int, g: ProxyGroup, n: Seq<char>)
    requires
        0 <= pos <= before.len(),
        forall|i: int| pos <= i < before.len() ==> before[i].name@ != g.name@,
    ensures
        named(before.insert(pos, g), n) == if g.name@ == n {
            named(before, n).push(g)
        } else {
            named(before, n)
        },
{
    let a = before.subrange(0, pos);
    let b = before.subrange(pos, before.len() as int);
    let p = has_name(n);
    assert(before =~= a + b);
    assert(before.insert(pos, g) =~= (a + seq![g]) + b);
    Seq::filter_distributes_over_add(a, b, p);
    Seq::filter_distributes_over_add(a + seq![g], b, p);
    Seq::filter_distributes_over_add(a, seq![g], p);
    lemma_named_single(g, n);
    if g.name@ == n {
        lemma_named_empty(b, n);
        assert(named(a, n) + Seq::<ProxyGroup>::empty() =~= named(a, n));
        assert(named(a, n) + seq![g] =~= named(a, n).push(g));
    } else {
        assert(named(a, n) + Seq::<ProxyGroup>::empty() =~= named(a, n));
    }
}

proof fn lemma_named_first(g: ProxyGroup, rest: Seq<ProxyGroup>, n: Seq<char>)
    ensures
        named(seq![g] + rest, n) == if g.name@ == n {
            seq![g] + named(rest, n)
        } else {
            named(rest, n)
        },
{
    Seq::filter_distributes_over_add(seq![g], rest, has_name(n));
    lemma_named_single(g, n);
    if g.name@ != n {
        assert(Seq::<ProxyGroup>::empty() + named(rest, n) =~= named(rest, n));
    }
}

proof fn lemma_strict_then_weak_other_name(
    pinned: Seq<String>,
    a: ProxyGroup,
    b: ProxyGroup,
    c: ProxyGroup,
)
    requires
        group_strictly_precedes(pinned, a, b),
        group_precedes(pinned, b, c),
    ensures
        c.name@ != a.name@,
{
    if c.name@ == a.name@ && seq_lt(a.name@, b.name@) {
        lemma_seq_lt_asymmetric(a.name@, b.name@);
    }
}

proof fn lemma_insert_to_multiset<A>(s: Seq<A>, i: int, x: A)
    requires
        0 <= i <= s.len(),
    ensures
        s.insert(i, x).to_multiset() =~= s.to_multiset().insert(x),
{
    let t = s.insert(i, x);
    assert(t.remove(i) =~= s);
    vstd::seq_lib::to_multiset_remove(t, i);
    assert(t[i] == x);
    assert(t.contains(x));
    assert(t.to_multiset().count(x) > 0);
}

/// The groups reordered so that pinned groups come first and names ascend
/// within pinned and unpinned groups; groups of the same name keep their
/// order.
pub fn sort_groups(groups: Vec<ProxyGroup>, pinned: &Vec<String>) -> (sorted: Vec<ProxyGroup>)
    ensures
        groups_sorted(pinned@, sorted@),
        sorted@.to_multiset() == groups@.to_multiset(),
        forall|n: Seq<char>| #[trigger] named(sorted@, n) == named(groups@, n),
{
    let mut rest = groups;
    let mut sorted: Vec<ProxyGroup> = Vec::new();
    let ghost all = rest@.to_multiset();
    proof {
        assert forall|n: Seq<char>| #[trigger] named(sorted@, n) + named(rest@, n) == named(
            groups@,
            n,
        ) by {
            lemma_named_empty(sorted@, n);
            assert(Seq::<ProxyGroup>::empty() + named(rest@, n) =~= named(rest@, n));
        }
    }
    while rest.len() > 0
        invariant
            groups_sorted(pinned@, sorted@),
            sorted@.to_multiset().add(rest@.to_multiset()) == all,
            all == groups@.to_multiset(),
            forall|n: Seq<char>| #[trigger] named(sorted@, n) + named(rest@, n) == named(groups@, n),
        decreases rest@.len(),
    {
        let ghost before_rest = rest@;
        let g = rest.remove(0);
        proof {
            vstd::seq_lib::to_multiset_remove(before_rest, 0);
        }
        let mut pos: usize = 0;
        while pos < sorted.len() && !strictly_precedes(pinned, &g, &sorted[pos])
            invariant
                pos <= sorted@.len(),
                forall|k: int| 0 <= k < pos ==> !group_strictly_precedes(pinned@, g, #[trigger] sorted@[k]),
            decreases sorted@.len() - pos,
        {
            pos = pos + 1;
        }
        let ghost before = sorted@;
        proof {
            lemma_insert_to_multiset(before, pos as int, g);
            assert(before_rest =~= seq![g] + rest@);
            assert forall|i: int| pos <= i < before.len() implies before[i].name@ != g.name@ by {
                if i == pos {
                    lemma_seq_lt_irreflexive_names(pinned@, g, before[i]);
                } else {
                    lemma_strict_then_weak_other_name(pinned@, g, before[pos as int], before[i]);
                }
            }
            assert forall|n: Seq<char>| #[trigger] named(before.insert(pos as int, g), n) + named(rest@, n)
                == named(groups@, n) by {
                lemma_named_insert(before, pos as int, g, n);
                lemma_named_first(g, rest@, n);
                assert(named(before, n) + named(before_rest, n) == named(groups@, n));
                if g.name@ == n {
                    assert(named(before, n).push(g) + named(rest@, n) =~= named(before, n) + (seq![g]
                        + named(rest@, n)));
                }
            }
        }
        sorted.insert(pos, g);
        assert(groups_sorted(pinned@, sorted@)) by {
            assert forall|i: int, j: int| 0 <= i < j < sorted@.len() implies group_precedes(
                pinned@,
                sorted@[i],
                sorted@[j],
            ) by {
                if j == pos {
                    assert(!group_strictly_precedes(pinned@, g, before[i]));
                } else if i == pos {
                    assert(pos < before.len());
                    assert(group_strictly_precedes(pinned@, g, before[pos as int]));
                    if j - 1 == pos {
                        lemma_strict_is_weak(pinned@, g, before[pos as int]);
                    } else {
                        lemma_strict_then_weak(pinned@, g, before[pos as int], before[j - 1]);
                    }
                }
            }
        }
        assert(sorted@.to_multiset().add(rest@.to_multiset()) =~= all);
    }
    assert(rest@.to_multiset() =~= Multiset::empty());
    assert(sorted@.to_multiset().add(rest@.to_multiset()) =~= sorted@.to_multiset());
    assert forall|n: Seq<char>| #[trigger] named(sorted@, n) == named(groups@, n) by {
        lemma_named_empty(rest@, n);
        assert(named(sorted@, n) + named(rest@, n) =~= named(sorted@, n));
    }
    sorted
}

/// The delay of the last entry of a record's delay history, if any.
pub open spec fn last_delay(info: ProxyInfo) -> Option<u32> {
    match info.history {
        Some(h) => if h@.len() > 0 {
            Some(h@.last().delay)
        } else {
            None
        },
        None => None,
    }
}

/// The names under which the records are listed, in order.
pub open spec fn entry_keys(entries: Seq<(String, ProxyInfo)>) -> Seq<Seq<char>> {
    entries.map_values(|e: (String, ProxyInfo)| e.0@)
}

/// No two records are listed under the same name.
pub open spec fn distinct_keys(entries: Seq<(String, ProxyInfo)>) -> bool {
    forall|i: int, j: int| 0 <= i < j < entries.len() ==> entries[i].0@ != entries[j].0@
}

/// The last measured delay of the record listed under `name`: that of the
/// first record with this name, or `None` where there is no such record.
pub open spec fn lookup_delay(entries: Seq<(String, ProxyInfo)>, name: Seq<char>) -> Option<u32> {
    let p = first_pos(entry_keys(entries), name);
    if p >= 0 {
        last_delay(entries[p].1)
    } else {
        None
    }
}

/// The positions, below `n`, of the records that are groups (that list
/// their members), ascending.
pub open spec fn group_positions(entries: Seq<(String, ProxyInfo)>, n: nat) -> Seq<int>
    decreases n,
{
    if n == 0 {
        seq![]
    } else {
        let prev = group_positions(entries, (n - 1) as nat);
        if entries[n - 1].1.all is Some {
            prev.push(n - 1)
        } else {
            prev
        }
    }
}

/// `g` is the group built from the record `e` listed among `entries`: the
/// record's name and current proxy, and one proxy for each member, with
/// the member's last measured delay.
pub open spec fn group_built_from(
    entries: Seq<(String, ProxyInfo)>,
    e: (String, ProxyInfo),
    g: ProxyGroup,
) -> bool {
    let members = e.1.all->0@;
    &&& g.name@ == e.0@
    &&& opt_view(g.current) == opt_view(e.1.now)
    &&& g.proxies@.len() == members.len()
    &&& forall|j: int|
        0 <= j < members.len() ==> {
            &&& (#[trigger] g.proxies@[j]).name@ == members[j]@
            &&& g.proxies@[j].delay == lookup_delay(entries, members[j]@)
        }
}

/// The last measured delay of the record listed under `name`.
fn find_delay(entries: &Vec<(String, ProxyInfo)>, name: &String) -> (d: Option<u32>)
    ensures
        d == lookup_delay(entries@, name@),
{
    let mut i: usize = 0;
    while i < entries.len()
        invariant
            i <= entries@.len(),
            forall|k: int| 0 <= k < i ==> entries@[k].0@ != name@,
        decreases entries@.len() - i,
    {
        if entries[i].0 == *name {
            proof {
                lemma_first_pos_is(entry_keys(entries@), name@, i as int);
            }
            match &entries[i].1.history {
                Some(h) => {
                    if h.len() > 0 {
                        return Some(h[h.len() - 1].delay);
                    } else {
                        return None;
                    }
                },
                None => {
                    return None;
                },
            }
        }
        i = i + 1;
    }
    proof {
        lemma_first_pos_absent(entry_keys(entries@), name@);
    }
    None
}

/// The groups among the controller's proxy records, keyed by the names
/// under which the controller lists them, in the order of the records:
/// each with its current proxy and its members with their last delays.
pub fn groups_from_proxies(entries: &Vec<(String, ProxyInfo)>) -> (groups: Vec<ProxyGroup>)
    ensures
        groups@.len() == group_positions(entries@, entries@.len()).len(),
        forall|k: int|
            0 <= k < groups@.len() ==> group_built_from(
                entries@,
                entries@[group_positions(entries@, entries@.len())[k]],
                #[trigger] groups@[k],
            ),
        distinct_keys(entries@) ==> crate::proxy_state::distinct_group_names(groups@),
{
    let mut groups: Vec<ProxyGroup> = Vec::new();
    let mut i: usize = 0;
    while i < entries.len()
        invariant
            i <= entries@.len(),
            groups@.len() == group_positions(entries@, i as nat).len(),
            forall|k: int| 0 <= k < group_positions(entries@, i as nat).len() ==>
                0 <= #[trigger] group_positions(entries@, i as nat)[k] < i,
            forall|k1: int, k2: int|
                0 <= k1 < k2 < group_positions(entries@, i as nat).len() ==> group_positions(
                    entries@,
                    i as nat,
                )[k1] < group_positions(entries@, i as nat)[k2],
            forall|k: int|
                0 <= k < groups@.len() ==> group_built_from(
                    entries@,
                    entries@[group_positions(entries@, i as nat)[k]],
                    #[trigger] groups@[k],
                ),
        decreases entries@.len() - i,
    {
        let ghost prev = group_positions(entries@, i as nat);
        assert(group_positions(entries@, (i + 1) as nat) == if entries@[i as int].1.all is Some {
            prev.push(i as int)
        } else {
            prev
        });
        match &entries[i].1.all {
            Some(all) => {
                let mut proxies: Vec<ProxyItem> = Vec::new();
                let mut j: usize = 0;
                while j < all.len()
                    invariant
                        j <= all@.len(),
                        proxies@.len() == j,
                        forall|t: int|
                            0 <= t < j ==> {
                                &&& (#[trigger] proxies@[t]).name@ == all@[t]@
                                &&& proxies@[t].delay == lookup_delay(entries@, all@[t]@)
                            },
                    decreases all@.len() - j,
                {
                    let delay = find_delay(entries, &all[j]);
                    proxies.push(ProxyItem { name: all[j].clone(), delay });
                    j = j + 1;
                }
                let group = ProxyGroup {
                    name: entries[i].0.clone(),
                    current: match &entries[i].1.now {
                        Some(now) => Some(now.clone()),
                        None => None,
                    },
                    proxies,
                };
                groups.push(group);
            },
            None => {},
        }
        i = i + 1;
    }
    proof {
        if distinct_keys(entries@) {
            let pos = group_positions(entries@, entries@.len());
            assert forall|a: int, b: int| 0 <= a < b < groups@.len() implies groups@[a].name@
                != groups@[b].name@ by {
                assert(group_built_from(entries@, entries@[pos[a]], groups@[a]));
                assert(group_built_from(entries@, entries@[pos[b]], groups@[b]));
                assert(pos[a] < pos[b]);
            }
        }
    }
    groups
}

} // verus!
