//! The data the client works on: proxy groups and their proxies, rules,
//! the controller's proxy records, delay tests and the saved configuration.
use vstd::prelude::*;

verus! {

/// A selectable proxy of a group, with its last measured delay.
#[derive(Clone, Debug)]
pub struct ProxyItem {
    pub name: String,
    pub delay: Option<u32>,
}

/// A proxy group: its name, the proxy it currently uses, and its proxies.
#[derive(Clone, Debug)]
pub struct ProxyGroup {
    pub name: String,
    pub current: Option<String>,
    pub proxies: Vec<ProxyItem>,
}

/// A routing rule as the controller reports it.
#[derive(Clone, Debug)]
pub struct Rule {
    pub rule_type: String,
    pub payload: String,
    pub proxy: String,
}

/// One entry of a proxy's delay history.
#[derive(Clone, Debug)]
pub struct DelayHistory {
    pub time: String,
    pub delay: u32,
}

/// A proxy or proxy group as the controller reports it. Groups are the
/// records that list their members in `all`.
#[derive(Clone, Debug)]
pub struct ProxyInfo {
    pub name: String,
    pub proxy_type: String,
    pub now: Option<String>,
    pub all: Option<Vec<String>>,
    pub history: Option<Vec<DelayHistory>>,
    pub udp: Option<bool>,
}

/// What a delay test of one group needs: the group, its proxies' names and
/// how to reach the controller.
#[derive(Clone, Debug)]
pub struct DelayRefreshRequest {
    pub group_name: String,
    pub proxy_names: Vec<String>,
    pub api_url: String,
    pub secret: Option<String>,
}

/// The outcome of a delay test: the delays measured, by proxy name.
#[derive(Clone, Debug)]
pub struct DelayRefreshResult {
    pub group_name: String,
    pub delays: Vec<(String, u32)>,
}

/// The configuration kept between runs: the names of the pinned groups.
#[derive(Clone, Debug)]
pub struct AppConfig {
    pub pinned_group_names: Vec<String>,
}

/// The list that receives the cursor keys.
#[derive(Clone, Copy, Debug, PartialEq, Eq, Structural)]
pub enum Focus {
    GroupList,
    ProxyList,
    RuleList,
}

/// The page on screen.
#[derive(Clone, Copy, Debug, PartialEq, Eq, Structural)]
pub enum ActiveTab {
    Proxy,
    Rules,
    About,
}

/// The names of a sequence of groups, in order.
pub open spec fn group_names(gs: Seq<ProxyGroup>) -> Seq<Seq<char>> {
    gs.map_values(|g: ProxyGroup| g.name@)
}

/// The names of a sequence of proxies, in order.
pub open spec fn proxy_names(ps: Seq<ProxyItem>) -> Seq<Seq<char>> {
    ps.map_values(|p: ProxyItem| p.name@)
}

/// The characters of an optional string.
pub open spec fn opt_view(o: Option<String>) -> Option<Seq<char>> {
    match o {
        Some(s) => Some(s@),
        None => None,
    }
}

/// `p` is the first position of `name` in `names`.
pub open spec fn is_first(names: Seq<Seq<char>>, name: Seq<char>, p: int) -> bool {
    &&& 0 <= p < names.len()
    &&& names[p] == name
    &&& forall|k: int| 0 <= k < p ==> names[k] != name
}

/// The first position of `name` in `names`, or -1 where it does not occur.
pub open spec fn first_pos(names: Seq<Seq<char>>, name: Seq<char>) -> int {
    if exists|p: int| is_first(names, name, p) {
        choose|p: int| is_first(names, name, p)
    } else {
        -1
    }
}

/// The first position is the one that `first_pos` gives.
pub proof fn lemma_first_pos_is(names: Seq<Seq<char>>, name: Seq<char>, p: int)
    requires
        is_first(names, name, p),
    ensures
        first_pos(names, name) == p,
{
    let q = choose|q: int| is_first(names, name, q);
    assert(is_first(names, name, q));
    if q < p {
        assert(names[q] != name);
    }
    if p < q {
        assert(names[p] != name);
    }
}

/// A name that does not occur has no position.
pub proof fn lemma_first_pos_absent(names: Seq<Seq<char>>, name: Seq<char>)
    requires
        forall|k: int| 0 <= k < names.len() ==> names[k] != name,
    ensures
        first_pos(names, name) == -1,
{
}

/// A name that occurs has a first position.
pub proof fn lemma_first_pos_present(names: Seq<Seq<char>>, name: Seq<char>, j: int)
    requires
        0 <= j < names.len(),
        names[j] == name,
    ensures
        is_first(names, name, first_pos(names, name)),
        first_pos(names, name) <= j,
    decreases j,
{
    if forall|k: int| 0 <= k < j ==> names[k] != name {
        lemma_first_pos_is(names, name, j);
    } else {
        let k = choose|k: int| 0 <= k < j && names[k] == name;
        lemma_first_pos_present(names, name, k);
    }
}

/// The position of the first group named `name`, searched from the start.
pub fn find_group(groups: &Vec<ProxyGroup>, name: &String) -> (r: Option<usize>)
    ensures
        match r {
            Some(p) => p as int == first_pos(group_names(groups@), name@) && p < groups@.len(),
            None => first_pos(group_names(groups@), name@) == -1 && forall|k: int|
                0 <= k < groups@.len() ==> groups@[k].name@ != name@,
        },
{
    let mut i: usize = 0;
    while i < groups.len()
        invariant
            i <= groups@.len(),
            forall|k: int| 0 <= k < i ==> groups@[k].name@ != name@,
        decreases groups@.len() - i,
    {
        if groups[i].name == *name {
            proof {
                lemma_first_pos_is(group_names(groups@), name@, i as int);
            }
            return Some(i);
        }
        i = i + 1;
    }
    proof {
        lemma_first_pos_absent(group_names(groups@), name@);
    }
    None
}

/// The position of the first proxy named `name`, searched from the start.
pub fn find_proxy(proxies: &Vec<ProxyItem>, name: &String) -> (r: Option<usize>)
    ensures
        match r {
            Some(p) => p as int == first_pos(proxy_names(proxies@), name@) && p < proxies@.len(),
            None => first_pos(proxy_names(proxies@), name@) == -1 && forall|k: int|
                0 <= k < proxies@.len() ==> proxies@[k].name@ != name@,
        },
{
    let mut i: usize = 0;
    while i < proxies.len()
        invariant
            i <= proxies@.len(),
            forall|k: int| 0 <= k < i ==> proxies@[k].name@ != name@,
        decreases proxies@.len() - i,
    {
        if proxies[i].name == *name {
            proof {
                lemma_first_pos_is(proxy_names(proxies@), name@, i as int);
            }
            return Some(i);
        }
        i = i + 1;
    }
    proof {
        lemma_first_pos_absent(proxy_names(proxies@), name@);
    }
    None
}

} // verus!
