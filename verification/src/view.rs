//! What the screen shows beside the lists themselves: page and focus
//! names, the number of pinned groups and the row of the rule cursor.
use vstd::prelude::*;
use crate::groups::{name_in, contains_name};
use crate::model::{ActiveTab, Focus, ProxyGroup, opt_view};
use crate::state::{App, index_of, position_of};

verus! {

/// The name of a page in the footer and the help window.
pub fn tab_title(tab: ActiveTab) -> (title: &'static str)
    ensures
        title@ == match tab {
            ActiveTab::Proxy => "Proxy"@,
            ActiveTab::Rules => "Rules"@,
            ActiveTab::About => "About"@,
        },
{
    match tab {
        ActiveTab::Proxy => "Proxy",
        ActiveTab::Rules => "Rules",
        ActiveTab::About => "About",
    }
}

/// The name of the focused list in the footer.
pub fn focus_title(focus: Focus) -> (title: &'static str)
    ensures
        title@ == match focus {
            Focus::GroupList => "Groups"@,
            Focus::ProxyList => "Proxies"@,
            Focus::RuleList => "Rules"@,
        },
{
    match focus {
        Focus::GroupList => "Groups",
        Focus::ProxyList => "Proxies",
        Focus::RuleList => "Rules",
    }
}

/// How many of the first `n` groups are pinned.
pub open spec fn pinned_count(pinned: Seq<String>, gs: Seq<ProxyGroup>, n: nat) -> nat
    decreases n,
{
    if n == 0 {
        0
    } else {
        pinned_count(pinned, gs, (n - 1) as nat) + if name_in(pinned, gs[n - 1].name@) {
            1nat
        } else {
            0nat
        }
    }
}

impl App {
    /// How many of the listed groups are pinned.
    pub fn pinned_group_count(&self) -> (count: usize)
        ensures
            count == pinned_count(
                self.pinned_group_names@,
                self.proxy_groups@,
                self.proxy_groups@.len(),
            ),
    {
        let mut count: usize = 0;
        let mut i: usize = 0;
        while i < self.proxy_groups.len()
            invariant
                i <= self.proxy_groups@.len(),
                count == pinned_count(self.pinned_group_names@, self.proxy_groups@, i as nat),
                count <= i,
            decreases self.proxy_groups@.len() - i,
        {
            if contains_name(&self.pinned_group_names, &self.proxy_groups[i].name) {
                count = count + 1;
            }
            i = i + 1;
        }
        count
    }

    /// The row of the rule cursor among the shown rules, if its rule is
    /// shown.
    pub fn selected_rule_position(&self) -> (row: Option<usize>)
        ensures
            match row {
                Some(p) => p as int == index_of(self.shown_rules(), self.selected_rule_index),
                None => index_of(self.shown_rules(), self.selected_rule_index) == -1,
            },
    {
        let shown = self.filtered_rule_indices();
        position_of(&shown, self.selected_rule_index)
    }
}

/// Whether proxy `j` of the group is the group's current proxy (marked
/// with a check in the proxy list).
pub fn is_current_proxy(group: &ProxyGroup, j: usize) -> (current: bool)
    requires
        j < group.proxies@.len(),
    ensures
        current == (opt_view(group.current) == Some(group.proxies@[j as int].name@)),
{
    match &group.current {
        Some(c) => *c == group.proxies[j].name,
        None => false,
    }
}

/// The current proxy shown beside a group's name: its name, or 未选择
/// ("none chosen") when the group has none.
pub fn current_proxy_label(group: &ProxyGroup) -> (label: String)
    ensures
        label@ == match group.current {
            Some(c) => c@,
            None => "未选择"@,
        },
{
    match &group.current {
        Some(c) => c.clone(),
        None => String::from_str("未选择"),
    }
}

/// What the rule panel shows.
#[derive(Clone, Copy, Debug, PartialEq, Eq, Structural)]
pub enum RulePanel {
    /// There are no rules yet.
    NoRules,
    /// There are rules, but the filter shows none of them.
    NoMatches,
    /// The shown rules.
    Rules,
}

/// What the proxy panel shows.
#[derive(Clone, Copy, Debug, PartialEq, Eq, Structural)]
pub enum ProxyPanel {
    /// No group is under the group cursor.
    NoGroup,
    /// The group under the cursor has no proxies.
    NoProxies,
    /// The proxies of the group under the cursor.
    Proxies,
}

impl App {
    /// What the rule panel shows: a note that there are no rules, a note
    /// that none matches the filter, or the shown rules.
    pub fn rule_panel(&self) -> (panel: RulePanel)
        ensures
            panel == if self.rules@.len() == 0 {
                RulePanel::NoRules
            } else if self.shown_rules().len() == 0 {
                RulePanel::NoMatches
            } else {
                RulePanel::Rules
            },
    {
        if self.rules.len() == 0 {
            RulePanel::NoRules
        } else if self.filtered_rule_indices().len() == 0 {
            RulePanel::NoMatches
        } else {
            RulePanel::Rules
        }
    }

    /// What the proxy panel shows: a note that no group is chosen, a note
    /// that the group has no proxies, or the group's proxies.
    pub fn proxy_panel(&self) -> (panel: ProxyPanel)
        ensures
            panel == match self.selected_group() {
                Some(g) => if g.proxies@.len() == 0 {
                    ProxyPanel::NoProxies
                } else {
                    ProxyPanel::Proxies
                },
                None => ProxyPanel::NoGroup,
            },
    {
        if self.selected_group_index >= self.proxy_groups.len() {
            ProxyPanel::NoGroup
        } else if self.proxy_groups[self.selected_group_index].proxies.len() == 0 {
            ProxyPanel::NoProxies
        } else {
            ProxyPanel::Proxies
        }
    }
}

} // verus!
