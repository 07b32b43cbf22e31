//! The client's state: the lists on screen, the cursors in them, the page
//! and focus, the rule filter and the pinned groups; and the operations
//! that move the cursors and switch pages.
use vstd::prelude::*;
use crate::model::{
    ActiveTab, AppConfig, Focus, ProxyGroup, Rule, proxy_names, first_pos, find_proxy,
};
use crate::groups::{name_set, name_in, distinct_names, contains_name, dedup_names};
use crate::rules::matching_rules;

verus! {

/// The state of the client.
pub struct App {
    pub proxy_groups: Vec<ProxyGroup>,
    pub selected_group_index: usize,
    pub selected_proxy_index: usize,
    pub rules: Vec<Rule>,
    pub selected_rule_index: usize,
    pub rule_filter: String,
    pub editing_rule_filter: bool,
    pub active_tab: ActiveTab,
    pub focus: Focus,
    pub api_url: String,
    pub secret: Option<String>,
    pub delay_refreshing: bool,
    pub pinned_group_names: Vec<String>,
    pub pending_g: bool,
    pub show_help: bool,
}

/// The position after `i` in a list of `n`, wrapping to the first.
pub open spec fn next_index(i: usize, n: nat) -> usize {
    ((i + 1) % (n as int)) as usize
}

/// The position before `i` in a list of `n`, wrapping to the last.
pub open spec fn previous_index(i: usize, n: nat) -> usize {
    if i > 0 {
        (i - 1) as usize
    } else {
        (n - 1) as usize
    }
}

/// Within a list, the position after `i` is `i + 1`, or the first after
/// the last.
pub proof fn lemma_next_index(i: usize, n: nat)
    requires
        i < n,
        n <= usize::MAX,
    ensures
        next_index(i, n) == if i + 1 < n {
            (i + 1) as usize
        } else {
            0usize
        },
{
    if i + 1 < n {
        vstd::arithmetic::div_mod::lemma_small_mod((i + 1) as nat, n);
    } else {
        vstd::arithmetic::div_mod::lemma_mod_self_0(n as int);
    }
}

/// The first position of `x` in `s`, or -1 where it does not occur.
pub open spec fn index_of(s: Seq<usize>, x: usize) -> int {
    if exists|p: int| 0 <= p < s.len() && s[p] == x && forall|k: int| 0 <= k < p ==> s[k] != x {
        choose|p: int| 0 <= p < s.len() && s[p] == x && forall|k: int| 0 <= k < p ==> s[k] != x
    } else {
        -1
    }
}

pub(crate) proof fn lemma_index_of_is(s: Seq<usize>, x: usize, p: int)
    requires
        0 <= p < s.len(),
        s[p] == x,
        forall|k: int| 0 <= k < p ==> s[k] != x,
    ensures
        index_of(s, x) == p,
{
    let q = choose|q: int| 0 <= q < s.len() && s[q] == x && forall|k: int| 0 <= k < q ==> s[k] != x;
    if q < p {
        assert(s[q] != x);
    }
    if p < q {
        assert(s[p] != x);
    }
}

/// The position of `x` in `s`, searched from the start.
pub(crate) fn position_of(s: &Vec<usize>, x: usize) -> (r: Option<usize>)
    ensures
        match r {
            Some(p) => p as int == index_of(s@, x) && p < s@.len(),
            None => index_of(s@, x) == -1 && !s@.contains(x),
        },
{
    let mut i: usize = 0;
    while i < s.len()
        invariant
            i <= s@.len(),
            forall|k: int| 0 <= k < i ==> s@[k] != x,
        decreases s@.len() - i,
    {
        if s[i] == x {
            proof {
                lemma_index_of_is(s@, x, i as int);
            }
            return Some(i);
        }
        i = i + 1;
    }
    None
}

impl App {
    /// The group under the group cursor, if the cursor is on one.
    pub open spec fn selected_group(self) -> Option<ProxyGroup> {
        if self.selected_group_index < self.proxy_groups@.len() {
            Some(self.proxy_groups@[self.selected_group_index as int])
        } else {
            None
        }
    }

    /// Where the proxy cursor goes for the group under the group cursor: on
    /// the first proxy named like the group's current proxy, else on the top.
    pub open spec fn synced_proxy_index(self) -> usize {
        match self.selected_group() {
            Some(g) => match g.current {
                Some(c) => {
                    let p = first_pos(proxy_names(g.proxies@), c@);
                    if p >= 0 {
                        p as usize
                    } else {
                        0
                    }
                },
                None => 0,
            },
            None => 0,
        }
    }

    /// The state with the group cursor on `index` and the proxy cursor
    /// moved to that group's current proxy.
    pub open spec fn with_group_selected(self, index: usize) -> App {
        let moved = App { selected_group_index: index, ..self };
        App { selected_proxy_index: moved.synced_proxy_index(), ..moved }
    }

    /// The positions of the rules the filter shows, ascending.
    pub open spec fn shown_rules(self) -> Seq<usize> {
        matching_rules(self.rules@, self.rule_filter@, self.rules@.len())
    }

    /// The names of the pinned groups, as a set.
    pub open spec fn pinned_set(self) -> Set<Seq<char>> {
        name_set(self.pinned_group_names@)
    }

    /// The rule cursor is on a shown rule, or at the top when no rule is shown.
    pub open spec fn rule_cursor_ok(self) -> bool {
        let shown = self.shown_rules();
        shown.contains(self.selected_rule_index) || (shown.len() == 0 && self.selected_rule_index
            == 0)
    }

    /// All of `wf` but the place of the rule cursor.
    pub open spec fn wf_besides_rule_cursor(self) -> bool {
        let groups = self.proxy_groups@;
        let gi = self.selected_group_index;
        &&& (groups.len() == 0 ==> gi == 0)
        &&& (groups.len() > 0 ==> gi < groups.len())
        &&& (self.selected_proxy_index == 0 || (gi < groups.len() && self.selected_proxy_index
            < groups[gi as int].proxies@.len()))
        &&& forall|i: int, j: int|
            0 <= i < j < groups.len() ==> groups[i].name@ != groups[j].name@
        &&& distinct_names(self.pinned_group_names@)
        &&& (self.active_tab == ActiveTab::Proxy ==> self.focus != Focus::RuleList)
        &&& (self.active_tab == ActiveTab::Rules ==> self.focus == Focus::RuleList)
        &&& (self.editing_rule_filter ==> self.active_tab == ActiveTab::Rules)
        &&& (self.show_help ==> !self.editing_rule_filter)
    }

    /// The state the client keeps between operations: cursors on entries
    /// of their lists (or at the top of an empty list), the rule cursor on a
    /// shown rule, group and pinned names without repeats, and page, focus,
    /// filter editing and help consistent with one another.
    pub open spec fn wf(self) -> bool {
        self.wf_besides_rule_cursor() && self.rule_cursor_ok()
    }

    /// A new client for the controller at `api_url`, with no groups and no
    /// rules yet, on the proxy page with the group list focused, and with the
    /// groups pinned in the saved configuration (none when it could not be
    /// read).
    pub fn new(api_url: String, secret: Option<String>, config: Option<AppConfig>) -> (app: App)
        ensures
            app.proxy_groups@.len() == 0,
            app.selected_group_index == 0,
            app.selected_proxy_index == 0,
            app.rules@.len() == 0,
            app.selected_rule_index == 0,
            app.rule_filter@.len() == 0,
            !app.editing_rule_filter,
            app.active_tab == ActiveTab::Proxy,
            app.focus == Focus::GroupList,
            app.api_url == api_url,
            app.secret == secret,
            !app.delay_refreshing,
            !app.pending_g,
            !app.show_help,
            app.pinned_group_names@ == match config {
                Some(c) => dedup_names(c.pinned_group_names@),
                None => Seq::<String>::empty(),
            },
            app.pinned_set() == match config {
                Some(c) => name_set(c.pinned_group_names@),
                None => Set::<Seq<char>>::empty(),
            },
            app.wf(),
    {
        let mut pinned: Vec<String> = Vec::new();
        match config {
            Some(c) => {
                let names = c.pinned_group_names;
                let mut i: usize = 0;
                while i < names.len()
                    invariant
                        i <= names@.len(),
                        distinct_names(pinned@),
                        pinned@ == dedup_names(names@.subrange(0, i as int)),
                        forall|n: Seq<char>|
                            name_in(pinned@, n) <==> exists|k: int|
                                0 <= k < i && #[trigger] names@[k]@ == n,
                    decreases names@.len() - i,
                {
                    let ghost before = pinned@;
                    let present = contains_name(&pinned, &names[i]);
                    if !present {
                        pinned.push(names[i].clone());
                    }
                    proof {
                        assert(names@.subrange(0, i + 1).drop_last() =~= names@.subrange(0, i as int));
                        assert(names@.subrange(0, i + 1).last() == names@[i as int]);
                        assert forall|n: Seq<char>|
                            name_in(pinned@, n) <==> exists|k: int|
                                0 <= k < i + 1 && #[trigger] names@[k]@ == n by {
                            if name_in(pinned@, n) {
                                let j = choose|j: int| 0 <= j < pinned@.len() && #[trigger] pinned@[j]@ == n;
                                if j < before.len() {
                                    assert(name_in(before, n));
                                    let k = choose|k: int| 0 <= k < i && #[trigger] names@[k]@ == n;
                                    assert(0 <= k < i + 1 && names@[k]@ == n);
                                } else {
                                    assert(names@[i as int]@ == n);
                                }
                            }
                            if exists|k: int| 0 <= k < i + 1 && #[trigger] names@[k]@ == n {
                                let k = choose|k: int| 0 <= k < i + 1 && #[trigger] names@[k]@ == n;
                                if k < i {
                                    assert(name_in(before, n));
                                    let j = choose|j: int| 0 <= j < before.len() && #[trigger] before[j]@ == n;
                                    assert(pinned@[j] == before[j]);
                                } else if present {
                                    let j = choose|j: int| 0 <= j < before.len() && #[trigger] before[j]@ == n;
                                    assert(pinned@[j] == before[j]);
                                } else {
                                    assert(pinned@[pinned@.len() - 1]@ == n);
                                }
                            }
                        }
                    }
                    i = i + 1;
                }
                assert(name_set(pinned@) =~= name_set(names@));
                assert(names@.subrange(0, names@.len() as int) =~= names@);
            },
            None => {
                assert(name_set(pinned@) =~= Set::<Seq<char>>::empty());
            },
        }
        let app = App {
            proxy_groups: Vec::new(),
            selected_group_index: 0,
            selected_proxy_index: 0,
            rules: Vec::new(),
            selected_rule_index: 0,
            rule_filter: String::new(),
            editing_rule_filter: false,
            active_tab: ActiveTab::Proxy,
            focus: Focus::GroupList,
            api_url,
            secret,
            delay_refreshing: false,
            pinned_group_names: pinned,
            pending_g: false,
            show_help: false,
        };
        assert(app.shown_rules() =~= Seq::<usize>::empty());
        app
    }

    /// The state after `next_group`.
    pub open spec fn after_next_group(self) -> App {
        if self.proxy_groups@.len() > 0 {
            self.with_group_selected(next_index(self.selected_group_index, self.proxy_groups@.len()))
        } else {
            self
        }
    }

    /// The state after `previous_group`.
    pub open spec fn after_previous_group(self) -> App {
        if self.proxy_groups@.len() > 0 {
            self.with_group_selected(
                previous_index(self.selected_group_index, self.proxy_groups@.len()),
            )
        } else {
            self
        }
    }

    /// The state after `next_proxy`.
    pub open spec fn after_next_proxy(self) -> App {
        match self.selected_group() {
            Some(g) => if g.proxies@.len() > 0 {
                App {
                    selected_proxy_index: next_index(self.selected_proxy_index, g.proxies@.len()),
                    ..self
                }
            } else {
                self
            },
            None => self,
        }
    }

    /// The state after `previous_proxy`.
    pub open spec fn after_previous_proxy(self) -> App {
        match self.selected_group() {
            Some(g) => if g.proxies@.len() > 0 {
                App {
                    selected_proxy_index: previous_index(self.selected_proxy_index, g.proxies@.len()),
                    ..self
                }
            } else {
                self
            },
            None => self,
        }
    }

    /// The state after `toggle_proxy_focus`.
    pub open spec fn after_toggle_proxy_focus(self) -> App {
        if self.editing_rule_filter {
            self
        } else {
            App { focus: toggled_focus(self.focus), ..self }
        }
    }

    /// The state after `start_rule_filter_edit`.
    pub open spec fn after_start_rule_filter_edit(self) -> App {
        App {
            active_tab: ActiveTab::Rules,
            focus: Focus::RuleList,
            editing_rule_filter: true,
            ..self
        }
    }

    /// The state after `next_tab`.
    pub open spec fn after_next_tab(self) -> App {
        if self.editing_rule_filter {
            self
        } else {
            App {
                focus: focus_after(self.focus),
                active_tab: tab_showing(focus_after(self.focus)),
                ..self
            }
        }
    }

    /// Moves the proxy cursor to the current proxy of the group under the
    /// group cursor: the first proxy with that name; to the top where there
    /// is no such proxy, no current proxy, or no group under the cursor.
    pub fn sync_selected_proxy(&mut self)
        ensures
            *final(self) == (App { selected_proxy_index: old(self).synced_proxy_index(), ..*old(self) }),
            old(self).wf() ==> final(self).wf(),
    {
        let mut found: Option<usize> = None;
        if self.selected_group_index < self.proxy_groups.len() {
            let group = &self.proxy_groups[self.selected_group_index];
            match &group.current {
                Some(current) => {
                    found = find_proxy(&group.proxies, current);
                },
                None => {},
            }
        }
        match found {
            Some(p) => {
                self.selected_proxy_index = p;
            },
            None => {
                self.selected_proxy_index = 0;
            },
        }
    }

    /// Moves the group cursor one group down, from the last group to the
    /// first, and the proxy cursor to that group's current proxy; does
    /// nothing when there are no groups.
    pub fn next_group(&mut self)
        requires
            old(self).proxy_groups@.len() > 0 ==> old(self).selected_group_index < usize::MAX,
        ensures
            *final(self) == old(self).after_next_group(),
            old(self).wf() ==> final(self).wf(),
    {
        if self.proxy_groups.len() > 0 {
            self.selected_group_index = (self.selected_group_index + 1) % self.proxy_groups.len();
            self.sync_selected_proxy();
        }
    }

    /// Moves the group cursor one group up, from the first group to the
    /// last, and the proxy cursor to that group's current proxy; does
    /// nothing when there are no groups.
    pub fn previous_group(&mut self)
        ensures
            *final(self) == old(self).after_previous_group(),
            old(self).wf() ==> final(self).wf(),
    {
        if self.proxy_groups.len() > 0 {
            if self.selected_group_index > 0 {
                self.selected_group_index = self.selected_group_index - 1;
            } else {
                self.selected_group_index = self.proxy_groups.len() - 1;
            }
            self.sync_selected_proxy();
        }
    }

    /// Moves the proxy cursor one proxy down in the group under the group
    /// cursor, from the last proxy to the first; does nothing when no group
    /// is under the cursor or the group has no proxies.
    pub fn next_proxy(&mut self)
        requires
            (match old(self).selected_group() {
                Some(g) => g.proxies@.len() > 0,
                None => false,
            }) ==> old(self).selected_proxy_index < usize::MAX,
        ensures
            *final(self) == old(self).after_next_proxy(),
            old(self).wf() ==> final(self).wf(),
    {
        if self.selected_group_index < self.proxy_groups.len() {
            let n = self.proxy_groups[self.selected_group_index].proxies.len();
            if n > 0 {
                self.selected_proxy_index = (self.selected_proxy_index + 1) % n;
            }
        }
    }

    /// Moves the proxy cursor one proxy up in the group under the group
    /// cursor, from the first proxy to the last; does nothing when no group
    /// is under the cursor or the group has no proxies.
    pub fn previous_proxy(&mut self)
        ensures
            *final(self) == old(self).after_previous_proxy(),
            old(self).wf() ==> final(self).wf(),
    {
        if self.selected_group_index < self.proxy_groups.len() {
            let n = self.proxy_groups[self.selected_group_index].proxies.len();
            if n > 0 {
                if self.selected_proxy_index > 0 {
                    self.selected_proxy_index = self.selected_proxy_index - 1;
                } else {
                    self.selected_proxy_index = n - 1;
                }
            }
        }
    }

    /// Switches the focus between the group list and the proxy list; the
    /// rule list keeps it. Does nothing while the rule filter is edited.
    pub fn toggle_proxy_focus(&mut self)
        ensures
            *final(self) == old(self).after_toggle_proxy_focus(),
            old(self).wf() ==> final(self).wf(),
    {
        if self.editing_rule_filter {
            return;
        }
        self.focus = match self.focus {
            Focus::GroupList => Focus::ProxyList,
            Focus::ProxyList => Focus::GroupList,
            Focus::RuleList => Focus::RuleList,
        };
    }

    /// Opens the rule page, focuses the rule list and starts editing the
    /// rule filter.
    pub fn start_rule_filter_edit(&mut self)
        ensures
            *final(self) == old(self).after_start_rule_filter_edit(),
            old(self).wf() && !old(self).show_help ==> final(self).wf(),
    {
        self.active_tab = ActiveTab::Rules;
        self.focus = Focus::RuleList;
        self.editing_rule_filter = true;
    }

    /// Makes the focus fit the page: on the proxy page the rule list gives
    /// the focus to the group list; the rule page focuses the rule list; the
    /// about page keeps the focus.
    pub fn sync_focus_to_tab(&mut self)
        ensures
            *final(self) == (App {
                focus: focus_for_tab(old(self).active_tab, old(self).focus),
                ..*old(self)
            }),
            old(self).wf() ==> final(self).wf(),
    {
        match self.active_tab {
            ActiveTab::Proxy => {
                if self.focus == Focus::RuleList {
                    self.focus = Focus::GroupList;
                }
            },
            ActiveTab::Rules => {
                self.focus = Focus::RuleList;
            },
            ActiveTab::About => {},
        }
    }

    /// Moves the focus to the next panel (group list, proxy list, rule list,
    /// and round again) and shows the page that holds that panel. Does
    /// nothing while the rule filter is edited.
    pub fn next_tab(&mut self)
        ensures
            *final(self) == old(self).after_next_tab(),
            old(self).wf() ==> final(self).wf(),
    {
        if self.editing_rule_filter {
            return;
        }
        self.focus = match self.focus {
            Focus::GroupList => Focus::ProxyList,
            Focus::ProxyList => Focus::RuleList,
            Focus::RuleList => Focus::GroupList,
        };
        self.active_tab = match self.focus {
            Focus::RuleList => ActiveTab::Rules,
            _ => ActiveTab::Proxy,
        };
    }
}

/// The focus after switching between the group and proxy lists.
pub open spec fn toggled_focus(f: Focus) -> Focus {
    match f {
        Focus::GroupList => Focus::ProxyList,
        Focus::ProxyList => Focus::GroupList,
        Focus::RuleList => Focus::RuleList,
    }
}

/// The panel after `f` in the focus cycle: groups, proxies, rules.
pub open spec fn focus_after(f: Focus) -> Focus {
    match f {
        Focus::GroupList => Focus::ProxyList,
        Focus::ProxyList => Focus::RuleList,
        Focus::RuleList => Focus::GroupList,
    }
}

/// The page that holds panel `f`: the rule page for the rule list, the
/// proxy page for the group and proxy lists.
pub open spec fn tab_showing(f: Focus) -> ActiveTab {
    match f {
        Focus::RuleList => ActiveTab::Rules,
        _ => ActiveTab::Proxy,
    }
}

/// The focus that fits page `t` when the focus was `f`.
pub open spec fn focus_for_tab(t: ActiveTab, f: Focus) -> Focus {
    match t {
        ActiveTab::Proxy => if f == Focus::RuleList {
            Focus::GroupList
        } else {
            f
        },
        ActiveTab::Rules => Focus::RuleList,
        ActiveTab::About => f,
    }
}

} // verus!
