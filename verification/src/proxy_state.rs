//! Operations on the proxy groups held in the state: taking in a fresh
//! list from the controller, pinning groups, applying delay tests, and the
//! configuration and delay-test requests derived from the state.
use vstd::prelude::*;
use crate::model::{
    AppConfig, DelayRefreshRequest, DelayRefreshResult, ProxyGroup, ProxyItem, group_names,
    proxy_names, first_pos, lemma_first_pos_is, find_group, find_proxy,
};
use crate::groups::{
    contains_name, distinct_names, groups_sorted, name_in, name_set, named, other_than,
    sort_groups,
};
use crate::state::App;

verus! {

broadcast use vstd::seq_lib::group_to_multiset_ensures;

/// No two groups share a name.
pub open spec fn distinct_group_names(gs: Seq<ProxyGroup>) -> bool {
    forall|i: int, j: int| 0 <= i < j < gs.len() ==> gs[i].name@ != gs[j].name@
}

/// Reordering groups keeps their names distinct.
pub proof fn lemma_reorder_keeps_distinct(s: Seq<ProxyGroup>, t: Seq<ProxyGroup>)
    requires
        s.to_multiset() == t.to_multiset(),
        distinct_group_names(s),
    ensures
        distinct_group_names(t),
{
    assert(s.no_duplicates()) by {
        assert forall|i: int, j: int| 0 <= i < s.len() && 0 <= j < s.len() && i != j implies s[i]
            != s[j] by {
            if i < j {
                assert(s[i].name@ != s[j].name@);
            } else {
                assert(s[j].name@ != s[i].name@);
            }
        }
    }
    s.lemma_multiset_has_no_duplicates();
    t.lemma_multiset_has_no_duplicates_conv();
    assert forall|i: int, j: int| 0 <= i < j < t.len() implies t[i].name@ != t[j].name@ by {
        assert(t[i] != t[j]);
        assert(t.contains(t[i]));
        assert(t.contains(t[j]));
        assert(s.to_multiset().count(t[i]) > 0);
        assert(s.to_multiset().count(t[j]) > 0);
        assert(s.contains(t[i]));
        assert(s.contains(t[j]));
        let a = choose|a: int| 0 <= a < s.len() && s[a] == t[i];
        let b = choose|b: int| 0 <= b < s.len() && s[b] == t[j];
        if a < b {
            assert(s[a].name@ != s[b].name@);
        } else {
            assert(s[b].name@ != s[a].name@);
        }
    }
}

/// After reordering groups with distinct names, the first group named like
/// a group of the old order is that group.
pub proof fn lemma_reorder_finds_group(s: Seq<ProxyGroup>, t: Seq<ProxyGroup>, i: int)
    requires
        s.to_multiset() == t.to_multiset(),
        distinct_group_names(s),
        0 <= i < s.len(),
    ensures
        0 <= first_pos(group_names(t), s[i].name@) < t.len(),
        t[first_pos(group_names(t), s[i].name@)] == s[i],
{
    lemma_reorder_keeps_distinct(s, t);
    assert(s.contains(s[i]));
    assert(t.to_multiset().count(s[i]) > 0);
    assert(t.contains(s[i]));
    let q = choose|q: int| 0 <= q < t.len() && t[q] == s[i];
    assert forall|k: int| 0 <= k < q implies group_names(t)[k] != s[i].name@ by {
        assert(t[k].name@ != t[q].name@);
    }
    lemma_first_pos_is(group_names(t), s[i].name@, q);
}

/// `names` with `name` added at the end when it is not there, and removed
/// wherever it is when it is.
pub fn toggle_name(names: Vec<String>, name: &String) -> (out: Vec<String>)
    ensures
        out@ == if name_in(names@, name@) {
            names@.filter(other_than(name@))
        } else {
            names@.push(*name)
        },
        name_set(out@) == if name_in(names@, name@) {
            name_set(names@).remove(name@)
        } else {
            name_set(names@).insert(name@)
        },
        distinct_names(names@) ==> distinct_names(out@),
{
    if contains_name(&names, name) {
        let mut out: Vec<String> = Vec::new();
        let mut i: usize = 0;
        while i < names.len()
            invariant
                i <= names@.len(),
                forall|k: int| 0 <= k < out@.len() ==> (#[trigger] out@[k])@ != name@,
                forall|n: Seq<char>|
                    name_in(out@, n) <==> (n != name@ && exists|k: int|
                        0 <= k < i && #[trigger] names@[k]@ == n),
                distinct_names(names@) ==> distinct_names(out@),
                out@ == names@.subrange(0, i as int).filter(other_than(name@)),
                distinct_names(names@) ==> forall|k: int|
                    #![trigger out@[k]]
                    0 <= k < out@.len() ==> !(exists|t: int|
                        i <= t < names@.len() && #[trigger] names@[t]@ == out@[k]@),
            decreases names@.len() - i,
        {
            let ghost before = out@;
            if names[i] != *name {
                out.push(names[i].clone());
            }
            proof {
                reveal(Seq::filter);
                assert(names@.subrange(0, i + 1).drop_last() =~= names@.subrange(0, i as int));
                assert(names@.subrange(0, i + 1).last() == names@[i as int]);
                assert forall|n: Seq<char>|
                    name_in(out@, n) <==> (n != name@ && exists|k: int|
                        0 <= k < i + 1 && #[trigger] names@[k]@ == n) by {
                    if name_in(out@, n) {
                        let j = choose|j: int| 0 <= j < out@.len() && #[trigger] out@[j]@ == n;
                        if j < before.len() {
                            assert(name_in(before, n));
                        } else {
                            assert(names@[i as int]@ == n);
                        }
                    }
                    if n != name@ && exists|k: int| 0 <= k < i + 1 && #[trigger] names@[k]@ == n {
                        let k = choose|k: int| 0 <= k < i + 1 && #[trigger] names@[k]@ == n;
                        if k < i {
                            assert(name_in(before, n));
                            let j = choose|j: int| 0 <= j < before.len() && #[trigger] before[j]@ == n;
                            assert(out@[j] == before[j]);
                        } else {
                            assert(out@[out@.len() - 1]@ == n);
                        }
                    }
                }
                if distinct_names(names@) {
                    assert forall|k: int|
                        #![trigger out@[k]]
                        0 <= k < out@.len() implies !(exists|t: int|
                        i + 1 <= t < names@.len() && #[trigger] names@[t]@ == out@[k]@) by {
                        if k == before.len() && out@.len() > before.len() {
                            assert(out@[k] == names@[i as int]);
                        } else {
                            assert(out@[k] == before[k]);
                        }
                    }
                    assert forall|a: int, b: int|
                        0 <= a < b < out@.len() implies out@[a]@ != out@[b]@ by {
                        if b == before.len() && out@.len() > before.len() {
                            assert(out@[a] == before[a]);
                            assert(out@[b] == names@[i as int]);
                        } else {
                            assert(out@[a] == before[a]);
                            assert(out@[b] == before[b]);
                        }
                    }
                }
            }
            i = i + 1;
        }
        assert(name_set(out@) =~= name_set(names@).remove(name@));
        assert(names@.subrange(0, names@.len() as int) =~= names@);
        out
    } else {
        let mut out = names;
        let ghost before = out@;
        out.push(name.clone());
        assert forall|n: Seq<char>| name_in(out@, n) <==> (name_in(before, n) || n == name@) by {
            if name_in(before, n) {
                let j = choose|j: int| 0 <= j < before.len() && #[trigger] before[j]@ == n;
                assert(out@[j] == before[j]);
            }
            if name_in(out@, n) {
                let j = choose|j: int| 0 <= j < out@.len() && #[trigger] out@[j]@ == n;
                if j < before.len() {
                    assert(out@[j] == before[j]);
                }
            }
            if n == name@ {
                assert(out@[before.len() as int]@ == n);
            }
        }
        assert(name_set(out@) =~= name_set(before).insert(name@));
        out
    }
}

/// The delay measured last for `name` among `delays`, if any.
pub open spec fn last_delay_for(delays: Seq<(String, u32)>, name: Seq<char>) -> Option<u32>
    decreases delays.len(),
{
    if delays.len() == 0 {
        None
    } else if delays.last().0@ == name {
        Some(delays.last().1)
    } else {
        last_delay_for(delays.drop_last(), name)
    }
}

/// `after` is `before` with measured delays filled in: a proxy that is the
/// first of its name takes the delay measured last for that name; every
/// other proxy, and one with no measured delay, stays as it was.
pub open spec fn delays_applied(
    before: Seq<ProxyItem>,
    after: Seq<ProxyItem>,
    delays: Seq<(String, u32)>,
) -> bool {
    &&& after.len() == before.len()
    &&& forall|j: int|
        0 <= j < before.len() ==> #[trigger] after[j] == if first_pos(
            proxy_names(before),
            before[j].name@,
        ) == j && last_delay_for(delays, before[j].name@) is Some {
            ProxyItem {
                delay: last_delay_for(delays, before[j].name@),
                ..before[j]
            }
        } else {
            before[j]
        }
}

/// Sets the measured delays on the first proxy of each name.
fn apply_delays(proxies: &mut Vec<ProxyItem>, delays: &Vec<(String, u32)>)
    ensures
        delays_applied(old(proxies)@, final(proxies)@, delays@),
{
    let ghost orig = proxies@;
    let mut k: usize = 0;
    assert(delays@.subrange(0, 0) =~= Seq::<(String, u32)>::empty());
    while k < delays.len()
        invariant
            k <= delays@.len(),
            orig == old(proxies)@,
            delays_applied(orig, proxies@, delays@.subrange(0, k as int)),
        decreases delays@.len() - k,
    {
        let ghost before = proxies@;
        let ghost prefix = delays@.subrange(0, k as int);
        let ghost next = delays@.subrange(0, k + 1);
        assert(next.drop_last() =~= prefix);
        assert(next.last() == delays@[k as int]);
        assert(proxy_names(before) =~= proxy_names(orig)) by {
            assert forall|t: int| 0 <= t < orig.len() implies before[t].name == orig[t].name by {
                assert(before[t] == if first_pos(
                    proxy_names(orig),
                    orig[t].name@,
                ) == t && last_delay_for(prefix, orig[t].name@) is Some {
                    ProxyItem { delay: last_delay_for(prefix, orig[t].name@), ..orig[t] }
                } else {
                    orig[t]
                });
            }
        }
        let found = find_proxy(proxies, &delays[k].0);
        match found {
            Some(j) => {
                let d = delays[k].1;
                let mut item = proxies.remove(j);
                item.delay = Some(d);
                proxies.insert(j, item);
                assert forall|t: int| 0 <= t < orig.len() implies #[trigger] proxies@[t] == if first_pos(
                    proxy_names(orig),
                    orig[t].name@,
                ) == t && last_delay_for(next, orig[t].name@) is Some {
                    ProxyItem { delay: last_delay_for(next, orig[t].name@), ..orig[t] }
                } else {
                    orig[t]
                } by {
                    assert(before[t] == if first_pos(
                        proxy_names(orig),
                        orig[t].name@,
                    ) == t && last_delay_for(prefix, orig[t].name@) is Some {
                        ProxyItem { delay: last_delay_for(prefix, orig[t].name@), ..orig[t] }
                    } else {
                        orig[t]
                    });
                    if t == j {
                        assert(proxy_names(orig)[t] == orig[t].name@);
                    }
                }
            },
            None => {
                assert forall|t: int| 0 <= t < orig.len() implies #[trigger] proxies@[t] == if first_pos(
                    proxy_names(orig),
                    orig[t].name@,
                ) == t && last_delay_for(next, orig[t].name@) is Some {
                    ProxyItem { delay: last_delay_for(next, orig[t].name@), ..orig[t] }
                } else {
                    orig[t]
                } by {
                    assert(before[t] == if first_pos(
                        proxy_names(orig),
                        orig[t].name@,
                    ) == t && last_delay_for(prefix, orig[t].name@) is Some {
                        ProxyItem { delay: last_delay_for(prefix, orig[t].name@), ..orig[t] }
                    } else {
                        orig[t]
                    });
                    assert(proxy_names(before)[t] == before[t].name@);
                }
            },
        }
        k = k + 1;
    }
    assert(delays@.subrange(0, delays@.len() as int) =~= delays@);
}

/// `after` is `before` with the group under the group cursor pinned, or
/// unpinned when it was pinned, the groups reordered and the cursor kept on
/// the first group of that name; `changed` tells whether a group was under
/// the cursor. Without one nothing changes.
pub open spec fn pin_toggled(before: App, after: App, changed: bool) -> bool {
    &&& changed == before.selected_group() is Some
    &&& !changed ==> after == before
    &&& changed ==> ({
        let name = before.selected_group()->0.name@;
        let p = first_pos(group_names(after.proxy_groups@), name);
        &&& after.pinned_set() == if before.pinned_set().contains(name) {
            before.pinned_set().remove(name)
        } else {
            before.pinned_set().insert(name)
        }
        &&& groups_sorted(after.pinned_group_names@, after.proxy_groups@)
        &&& after.proxy_groups@.to_multiset() == before.proxy_groups@.to_multiset()
        &&& forall|m: Seq<char>| #[trigger] named(after.proxy_groups@, m) == named(before.proxy_groups@, m)
        &&& after.selected_group_index == if p >= 0 {
            p as usize
        } else {
            before.selected_group_index
        }
        &&& after == (App {
            proxy_groups: after.proxy_groups,
            selected_group_index: after.selected_group_index,
            pinned_group_names: after.pinned_group_names,
            ..before
        })
    })
}

/// `after` is `before` with the groups replaced by `groups` in sorted order,
/// the group cursor back on the first group named like the group it was on
/// (else at the top) and the proxy cursor on that group's current proxy.
pub open spec fn fetched_proxies_applied(before: App, after: App, groups: Seq<ProxyGroup>) -> bool {
    &&& groups_sorted(before.pinned_group_names@, after.proxy_groups@)
    &&& after.proxy_groups@.to_multiset() == groups.to_multiset()
    &&& forall|n: Seq<char>| #[trigger] named(after.proxy_groups@, n) == named(groups, n)
    &&& after.selected_group_index == match before.selected_group() {
        Some(g) => {
            let p = first_pos(group_names(after.proxy_groups@), g.name@);
            if p >= 0 {
                p as usize
            } else {
                0
            }
        },
        None => 0,
    }
    &&& after.selected_proxy_index == after.synced_proxy_index()
    &&& after == (App {
        proxy_groups: after.proxy_groups,
        selected_group_index: after.selected_group_index,
        selected_proxy_index: after.selected_proxy_index,
        ..before
    })
}

/// `request` is the delay test for the group under `app`'s group cursor:
/// its name, its proxies' names in order, and the controller's address and
/// secret; `None` when no group is under the cursor or it has no proxies.
pub open spec fn is_delay_request(app: App, request: Option<DelayRefreshRequest>) -> bool {
    match app.selected_group() {
        Some(g) => if g.proxies@.len() == 0 {
            request is None
        } else {
            request matches Some(r) && {
                &&& r.group_name == g.name
                &&& r.proxy_names@.len() == g.proxies@.len()
                &&& forall|j: int|
                    0 <= j < g.proxies@.len() ==> #[trigger] r.proxy_names@[j] == g.proxies@[j].name
                &&& r.api_url == app.api_url
                &&& r.secret == app.secret
            }
        },
        None => request is None,
    }
}

impl App {
    /// Reorders the groups: pinned groups first, names ascending within
    /// pinned and unpinned groups, groups of the same name in their old
    /// order. The cursors stay where they are.
    pub fn sort_proxy_groups(&mut self)
        ensures
            groups_sorted(old(self).pinned_group_names@, final(self).proxy_groups@),
            final(self).proxy_groups@.to_multiset() == old(self).proxy_groups@.to_multiset(),
            forall|n: Seq<char>| #[trigger] named(final(self).proxy_groups@, n) == named(
                old(self).proxy_groups@,
                n,
            ),
            *final(self) == (App { proxy_groups: final(self).proxy_groups, ..*old(self) }),
    {
        let mut groups: Vec<ProxyGroup> = Vec::new();
        std::mem::swap(&mut groups, &mut self.proxy_groups);
        self.proxy_groups = sort_groups(groups, &self.pinned_group_names);
    }

    /// Takes in the groups fetched from the controller: they replace the
    /// old ones in sorted order; the group cursor goes back to the first
    /// group named like the group it was on, else to the top; the proxy
    /// cursor goes to that group's current proxy.
    pub fn apply_fetched_proxies(&mut self, groups: Vec<ProxyGroup>)
        ensures
            fetched_proxies_applied(*old(self), *final(self), groups@),
            old(self).wf() && distinct_group_names(groups@) ==> final(self).wf(),
    {
        let previous: Option<String> = if self.selected_group_index < self.proxy_groups.len() {
            Some(self.proxy_groups[self.selected_group_index].name.clone())
        } else {
            None
        };
        self.proxy_groups = groups;
        self.sort_proxy_groups();
        match previous {
            Some(name) => {
                match find_group(&self.proxy_groups, &name) {
                    Some(p) => {
                        self.selected_group_index = p;
                    },
                    None => {
                        self.selected_group_index = 0;
                    },
                }
            },
            None => {
                self.selected_group_index = 0;
            },
        }
        if self.proxy_groups.len() == 0 {
            self.selected_group_index = 0;
            self.selected_proxy_index = 0;
        } else {
            if self.selected_group_index >= self.proxy_groups.len() {
                self.selected_group_index = 0;
            }
            self.sync_selected_proxy();
        }
        proof {
            if old(self).wf() && distinct_group_names(groups@) {
                lemma_reorder_keeps_distinct(groups@, self.proxy_groups@);
            }
        }
    }

    /// Pins the group under the group cursor, or unpins it when it is
    /// pinned, reorders the groups and keeps the cursor on that group.
    /// Returns whether a group was under the cursor (and the pinned names
    /// changed and are to be saved); when none was, nothing changes.
    pub fn toggle_selected_group_pin(&mut self) -> (changed: bool)
        ensures
            pin_toggled(*old(self), *final(self), changed),
            old(self).wf() ==> final(self).wf(),
    {
        if self.selected_group_index >= self.proxy_groups.len() {
            return false;
        }
        let name = self.proxy_groups[self.selected_group_index].name.clone();
        let mut pinned: Vec<String> = Vec::new();
        std::mem::swap(&mut pinned, &mut self.pinned_group_names);
        self.pinned_group_names = toggle_name(pinned, &name);
        self.sort_proxy_groups();
        match find_group(&self.proxy_groups, &name) {
            Some(p) => {
                self.selected_group_index = p;
            },
            None => {},
        }
        proof {
            if old(self).wf() {
                let gi = old(self).selected_group_index as int;
                lemma_reorder_finds_group(old(self).proxy_groups@, self.proxy_groups@, gi);
                lemma_reorder_keeps_distinct(old(self).proxy_groups@, self.proxy_groups@);
            }
        }
        true
    }

    /// Ends a delay test and fills in what it measured: in the first group
    /// named like the tested group, each proxy that is the first of its name
    /// takes the delay measured last for that name. When no group has that
    /// name, only the test ends.
    pub fn apply_delay_refresh_result(&mut self, result: DelayRefreshResult)
        ensures
            !final(self).delay_refreshing,
            ({
                let p = first_pos(group_names(old(self).proxy_groups@), result.group_name@);
                if p >= 0 {
                    &&& final(self).proxy_groups@.len() == old(self).proxy_groups@.len()
                    &&& forall|k: int|
                        0 <= k < old(self).proxy_groups@.len() && k != p
                            ==> #[trigger] final(self).proxy_groups@[k] == old(self).proxy_groups@[k]
                    &&& final(self).proxy_groups@[p].name == old(self).proxy_groups@[p].name
                    &&& final(self).proxy_groups@[p].current == old(self).proxy_groups@[p].current
                    &&& delays_applied(
                        old(self).proxy_groups@[p].proxies@,
                        final(self).proxy_groups@[p].proxies@,
                        result.delays@,
                    )
                    &&& *final(self) == (App {
                        proxy_groups: final(self).proxy_groups,
                        delay_refreshing: false,
                        ..*old(self)
                    })
                } else {
                    *final(self) == (App { delay_refreshing: false, ..*old(self) })
                }
            }),
            old(self).wf() ==> final(self).wf(),
    {
        self.delay_refreshing = false;
        let found = find_group(&self.proxy_groups, &result.group_name);
        match found {
            Some(p) => {
                let mut groups: Vec<ProxyGroup> = Vec::new();
                std::mem::swap(&mut groups, &mut self.proxy_groups);
                let ghost before = groups@;
                let mut group = groups.remove(p);
                apply_delays(&mut group.proxies, &result.delays);
                groups.insert(p, group);
                self.proxy_groups = groups;
                assert forall|k: int|
                    0 <= k < before.len() && k != p implies #[trigger] self.proxy_groups@[k]
                    == before[k] by {}
                proof {
                    if old(self).wf() {
                        assert forall|i: int, j: int|
                            0 <= i < j < self.proxy_groups@.len() implies self.proxy_groups@[i].name@
                            != self.proxy_groups@[j].name@ by {
                            assert(before[i].name@ != before[j].name@);
                        }
                    }
                }
            },
            None => {},
        }
    }

    /// The delay test for the group under the group cursor: its name, its
    /// proxies' names in order, and the controller's address and secret;
    /// `None` when no group is under the cursor or it has no proxies.
    pub fn delay_refresh_request(&self) -> (request: Option<DelayRefreshRequest>)
        ensures
            is_delay_request(*self, request),
    {
        if self.selected_group_index >= self.proxy_groups.len() {
            return None;
        }
        let group = &self.proxy_groups[self.selected_group_index];
        let mut names: Vec<String> = Vec::new();
        let mut j: usize = 0;
        while j < group.proxies.len()
            invariant
                j <= group.proxies@.len(),
                names@.len() == j,
                forall|t: int| 0 <= t < j ==> #[trigger] names@[t] == group.proxies@[t].name,
            decreases group.proxies@.len() - j,
        {
            names.push(group.proxies[j].name.clone());
            j = j + 1;
        }
        if names.len() == 0 {
            return None;
        }
        Some(
            DelayRefreshRequest {
                group_name: group.name.clone(),
                proxy_names: names,
                api_url: self.api_url.clone(),
                secret: match &self.secret {
                    Some(s) => Some(s.clone()),
                    None => None,
                },
            },
        )
    }

    /// The configuration to save: the pinned group names.
    pub fn save_config(&self) -> (config: AppConfig)
        ensures
            config.pinned_group_names@ == self.pinned_group_names@,
            name_set(config.pinned_group_names@) == self.pinned_set(),
    {
        let mut names: Vec<String> = Vec::new();
        let mut i: usize = 0;
        while i < self.pinned_group_names.len()
            invariant
                i <= self.pinned_group_names@.len(),
                names@ == self.pinned_group_names@.subrange(0, i as int),
            decreases self.pinned_group_names@.len() - i,
        {
            names.push(self.pinned_group_names[i].clone());
            i = i + 1;
            assert(names@ =~= self.pinned_group_names@.subrange(0, i as int));
        }
        assert(names@ =~= self.pinned_group_names@);
        AppConfig { pinned_group_names: names }
    }
}

} // verus!
