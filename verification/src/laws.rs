//! What holds of the operations together: moves that undo each other, the
//! focus cycle of Tab, pinning twice, the place of pinned groups, the filter's
//! indifference to letter case, the keys that open and close things, where
//! Enter, "g" and "G" put the cursors, and what the filter keys leave of the
//! filter and the rule cursor.
use vstd::prelude::*;
use crate::groups::{groups_sorted, name_in};
use crate::keys::{Key, Action, key_effect};
use crate::model::{ActiveTab, Focus, ProxyGroup, Rule, group_names, first_pos};
use crate::proxy_state::{fetched_proxies_applied, pin_toggled, lemma_reorder_finds_group};
use crate::rules::{rule_matches, matching_rules, lemma_matching_rules};
use crate::state::{App, index_of, lemma_index_of_is, lemma_next_index};
use crate::text::lowercase;

verus! {

/// Moving the group cursor down and then up brings it back to the group
/// it was on, with the proxy cursor on that group's current proxy.
pub proof fn lemma_previous_group_undoes_next_group(s: App)
    requires
        s.wf(),
        s.proxy_groups@.len() > 0,
    ensures
        s.after_next_group().after_previous_group() == s.with_group_selected(
            s.selected_group_index,
        ),
{
    assert(s.proxy_groups.len() == s.proxy_groups@.len());
    lemma_next_index(s.selected_group_index, s.proxy_groups@.len());
}

/// Moving the group cursor up and then down brings it back to the group
/// it was on, with the proxy cursor on that group's current proxy.
pub proof fn lemma_next_group_undoes_previous_group(s: App)
    requires
        s.wf(),
        s.proxy_groups@.len() > 0,
    ensures
        s.after_previous_group().after_next_group() == s.with_group_selected(
            s.selected_group_index,
        ),
{
    assert(s.proxy_groups.len() == s.proxy_groups@.len());
    let n = s.proxy_groups@.len();
    let p = crate::state::previous_index(s.selected_group_index, n);
    lemma_next_index(p, n);
}

/// Moving the proxy cursor down and then up restores the state.
pub proof fn lemma_previous_proxy_undoes_next_proxy(s: App)
    requires
        s.wf(),
    ensures
        s.after_next_proxy().after_previous_proxy() == s,
{
    if let Some(g) = s.selected_group() {
        if g.proxies@.len() > 0 {
            assert(g.proxies.len() == g.proxies@.len());
            lemma_next_index(s.selected_proxy_index, g.proxies@.len());
        }
    }
}

/// Moving the proxy cursor up and then down restores the state.
pub proof fn lemma_next_proxy_undoes_previous_proxy(s: App)
    requires
        s.wf(),
    ensures
        s.after_previous_proxy().after_next_proxy() == s,
{
    if let Some(g) = s.selected_group() {
        if g.proxies@.len() > 0 {
            assert(g.proxies.len() == g.proxies@.len());
            let p = crate::state::previous_index(s.selected_proxy_index, g.proxies@.len());
            lemma_next_index(p, g.proxies@.len());
        }
    }
}

proof fn lemma_shown_positions(s: App, k: int)
    requires
        0 <= k < s.shown_rules().len(),
    ensures
        index_of(s.shown_rules(), s.shown_rules()[k]) == k,
{
    assert(s.rules.len() == s.rules@.len());
    lemma_matching_rules(s.rules@, s.rule_filter@, s.rules@.len());
    let shown = s.shown_rules();
    assert forall|j: int| 0 <= j < k implies shown[j] != shown[k] by {}
    lemma_index_of_is(shown, shown[k], k);
}

/// Moving the rule cursor down and then up restores the state.
pub proof fn lemma_previous_rule_undoes_next_rule(s: App)
    requires
        s.wf(),
    ensures
        s.after_next_rule().after_previous_rule() == s,
{
    let shown = s.shown_rules();
    if shown.len() > 0 {
        let p = choose|p: int| 0 <= p < shown.len() && shown[p] == s.selected_rule_index;
        lemma_shown_positions(s, p);
        assert(shown.len() <= usize::MAX) by {
            assert(s.rules.len() == s.rules@.len());
            lemma_matching_rules(s.rules@, s.rule_filter@, s.rules@.len());
        }
        lemma_next_index(p as usize, shown.len());
        let q = (p + 1) % (shown.len() as int);
        let t = s.after_next_rule();
        assert(t.shown_rules() == shown);
        lemma_shown_positions(s, q);
    }
}

/// Moving the rule cursor up and then down restores the state.
pub proof fn lemma_next_rule_undoes_previous_rule(s: App)
    requires
        s.wf(),
    ensures
        s.after_previous_rule().after_next_rule() == s,
{
    let shown = s.shown_rules();
    if shown.len() > 0 {
        let p = choose|p: int| 0 <= p < shown.len() && shown[p] == s.selected_rule_index;
        lemma_shown_positions(s, p);
        let q = if p == 0 {
            shown.len() - 1
        } else {
            p - 1
        };
        let t = s.after_previous_rule();
        assert(t.shown_rules() == shown);
        lemma_shown_positions(s, q);
        assert(shown.len() <= usize::MAX) by {
            assert(s.rules.len() == s.rules@.len());
            lemma_matching_rules(s.rules@, s.rule_filter@, s.rules@.len());
        }
        lemma_next_index(q as usize, shown.len());
    }
}

/// Tab moves the focus from the group list to the proxy list, then to the
/// rule list, then back to the group list; three presses restore focus and
/// page (outside the about page).
pub proof fn lemma_tab_cycles_focus(s: App)
    requires
        !s.editing_rule_filter,
        s.wf(),
    ensures
        s.focus == Focus::GroupList ==> s.after_next_tab().focus == Focus::ProxyList,
        s.focus == Focus::ProxyList ==> s.after_next_tab().focus == Focus::RuleList,
        s.focus == Focus::RuleList ==> s.after_next_tab().focus == Focus::GroupList,
        s.after_next_tab().after_next_tab().after_next_tab().focus == s.focus,
        s.active_tab != ActiveTab::About ==> s.after_next_tab().after_next_tab().after_next_tab()
            == s,
{
}

/// Pinning the group under the cursor twice restores the pinned names and
/// leaves the cursor on a group of the same name.
pub proof fn lemma_pin_twice_restores(s0: App, s1: App, s2: App)
    requires
        s0.wf(),
        pin_toggled(s0, s1, true),
        pin_toggled(s1, s2, true),
    ensures
        s2.pinned_set() == s0.pinned_set(),
        s2.selected_group()->0.name@ == s0.selected_group()->0.name@,
{
    let name = s0.selected_group()->0.name@;
    assert(crate::proxy_state::distinct_group_names(s0.proxy_groups@));
    lemma_reorder_finds_group(s0.proxy_groups@, s1.proxy_groups@, s0.selected_group_index as int);
    let p = first_pos(group_names(s1.proxy_groups@), name);
    assert(0 <= p < s1.proxy_groups@.len());
    assert(s1.proxy_groups.len() == s1.proxy_groups@.len());
    assert(s1.selected_group_index == p);
    assert(s1.proxy_groups@[p] == s0.proxy_groups@[s0.selected_group_index as int]);
    assert(s1.selected_group()->0.name@ == name);
    let g1 = s1.selected_group()->0;
    assert(s1.proxy_groups@.to_multiset() == s0.proxy_groups@.to_multiset());
    crate::proxy_state::lemma_reorder_keeps_distinct(s0.proxy_groups@, s1.proxy_groups@);
    lemma_reorder_finds_group(s1.proxy_groups@, s2.proxy_groups@, s1.selected_group_index as int);
    assert(s2.proxy_groups.len() == s2.proxy_groups@.len());
    if s0.pinned_set().contains(name) {
        assert(s2.pinned_set() =~= s0.pinned_set());
    } else {
        assert(s2.pinned_set() =~= s0.pinned_set());
    }
}

/// In a sorted group list every pinned group comes before every unpinned one.
pub proof fn lemma_pinned_groups_first(pinned: Seq<String>, gs: Seq<ProxyGroup>, i: int, j: int)
    requires
        groups_sorted(pinned, gs),
        0 <= i < gs.len(),
        0 <= j < gs.len(),
        !name_in(pinned, gs[i].name@),
        name_in(pinned, gs[j].name@),
    ensures
        j < i,
{
    if i < j {
        assert(crate::groups::group_precedes(pinned, gs[i], gs[j]));
    }
}

/// Taking in a fresh group list keeps the group cursor on the group it was
/// on whenever a group of that name is still listed.
pub proof fn lemma_refresh_keeps_selected_group(
    before: App,
    after: App,
    groups: Seq<ProxyGroup>,
    k: int,
)
    requires
        fetched_proxies_applied(before, after, groups),
        before.selected_group() is Some,
        0 <= k < after.proxy_groups@.len(),
        after.proxy_groups@[k].name@ == before.selected_group()->0.name@,
    ensures
        after.selected_group() is Some,
        after.selected_group()->0.name@ == before.selected_group()->0.name@,
{
    let name = before.selected_group()->0.name@;
    assert(after.proxy_groups.len() == after.proxy_groups@.len());
    crate::model::lemma_first_pos_present(group_names(after.proxy_groups@), name, k);
}

/// The filter ignores letter case: filters with the same lowercase form
/// show the same rules.
pub proof fn lemma_filter_ignores_case(rules: Seq<Rule>, f1: Seq<char>, f2: Seq<char>, n: nat)
    requires
        n <= rules.len(),
        lowercase(f1) == lowercase(f2),
    ensures
        matching_rules(rules, f1, n) == matching_rules(rules, f2, n),
    decreases n,
{
    if n > 0 {
        lemma_filter_ignores_case(rules, f1, f2, (n - 1) as nat);
    }
}

/// A filter whose lowercase form is empty (the empty filter, by the
/// contract of `to_lowercase`) shows every rule, in order.
pub proof fn lemma_empty_filter_shows_all(rules: Seq<Rule>, f: Seq<char>, n: nat)
    requires
        n <= rules.len(),
        n <= usize::MAX,
        lowercase(f).len() == 0,
    ensures
        matching_rules(rules, f, n) == Seq::new(n, |i: int| i as usize),
    decreases n,
{
    if n > 0 {
        lemma_empty_filter_shows_all(rules, f, (n - 1) as nat);
        crate::text::lemma_empty_is_infix(
            lowercase(f),
            lowercase(crate::rules::haystack(rules[n - 1])),
        );
        assert(matching_rules(rules, f, n) =~= Seq::new(n, |i: int| i as usize));
    }
}

/// Pressing "g" twice jumps to the top of the focused list.
pub proof fn lemma_gg_jumps_to_top(s0: App, s1: App, s2: App, a1: Action, a2: Action)
    requires
        !s0.show_help,
        !s0.editing_rule_filter,
        !s0.pending_g,
        key_effect(s0, Key::Char('g'), s1, a1),
        key_effect(s1, Key::Char('g'), s2, a2),
    ensures
        s2 == s0.after_jump_to_top(),
{
}

/// Pressing "?" twice opens and closes the help and otherwise only drops a
/// pending "g".
pub proof fn lemma_help_opens_and_closes(s0: App, s1: App, s2: App, a1: Action, a2: Action)
    requires
        !s0.show_help,
        !s0.editing_rule_filter,
        key_effect(s0, Key::Char('?'), s1, a1),
        key_effect(s1, Key::Char('?'), s2, a2),
    ensures
        s1.show_help,
        s2 == (App { pending_g: false, ..s0 }),
{
}

/// Typing a character into the filter and deleting it with Backspace
/// gives back the filter text.
pub proof fn lemma_backspace_undoes_typing(
    s0: App,
    s1: App,
    s2: App,
    c: char,
    a1: Action,
    a2: Action,
)
    requires
        !s0.show_help,
        s0.editing_rule_filter,
        key_effect(s0, Key::Char(c), s1, a1),
        key_effect(s1, Key::Backspace, s2, a2),
    ensures
        s2.rule_filter@ == s0.rule_filter@,
        s2.editing_rule_filter,
{
    assert(s0.rule_filter@.push(c).drop_last() =~= s0.rule_filter@);
}

/// While the help window is open, Esc and "?" close it and every other key
/// changes nothing; no key asks for outside work.
pub proof fn lemma_help_takes_every_key(s: App, key: Key, after: App, action: Action)
    requires
        s.show_help,
        key_effect(s, key, after, action),
    ensures
        action is NoOp,
        after == if key == Key::Esc || key == Key::Char('?') {
            App { show_help: false, ..s }
        } else {
            s
        },
{
}

/// Outside help and filter editing, Down and "j" do the same: they move
/// the focused list of the page on screen one entry down.
pub proof fn lemma_down_matches_j(s: App, d1: App, d2: App, a1: Action, a2: Action)
    requires
        !s.show_help,
        !s.editing_rule_filter,
        key_effect(s, Key::Down, d1, a1),
        key_effect(s, Key::Char('j'), d2, a2),
    ensures
        d1 == d2,
        d1 == (App { pending_g: false, ..s }).after_cursor_down(),
        a1 is NoOp && a2 is NoOp,
{
    let t = App { pending_g: false, ..s };
    assert(crate::keys::command_effect(t, Key::Down, d1, a1));
    assert(crate::keys::command_effect(t, Key::Char('j'), d2, a2));
}

/// Outside help and filter editing, Up and "k" do the same: they move the
/// focused list of the page on screen one entry up.
pub proof fn lemma_up_matches_k(s: App, u1: App, u2: App, a1: Action, a2: Action)
    requires
        !s.show_help,
        !s.editing_rule_filter,
        key_effect(s, Key::Up, u1, a1),
        key_effect(s, Key::Char('k'), u2, a2),
    ensures
        u1 == u2,
        u1 == (App { pending_g: false, ..s }).after_cursor_up(),
        a1 is NoOp && a2 is NoOp,
{
    let t = App { pending_g: false, ..s };
    assert(crate::keys::command_effect(t, Key::Up, u1, a1));
    assert(crate::keys::command_effect(t, Key::Char('k'), u2, a2));
}

/// A filter whose lowercase form holds the lowercase form of another filter
/// shows no rule that the other filter does not show.
pub proof fn lemma_longer_filter_shows_fewer(
    rules: Seq<Rule>,
    f1: Seq<char>,
    f2: Seq<char>,
    n: nat,
)
    requires
        n <= rules.len(),
        n <= usize::MAX,
        crate::text::is_infix(lowercase(f1), lowercase(f2)),
    ensures
        forall|k: usize|
            matching_rules(rules, f2, n).contains(k) ==> matching_rules(rules, f1, n).contains(k),
{
    lemma_matching_rules(rules, f1, n);
    lemma_matching_rules(rules, f2, n);
    assert forall|k: usize| matching_rules(rules, f2, n).contains(k) implies matching_rules(
        rules,
        f1,
        n,
    ).contains(k) by {
        let i = choose|i: int|
            0 <= i < matching_rules(rules, f2, n).len() && matching_rules(rules, f2, n)[i] == k;
        assert(rule_matches(rules[k as int], f2));
        crate::text::lemma_infix_transitive(
            lowercase(f1),
            lowercase(f2),
            lowercase(crate::rules::haystack(rules[k as int])),
        );
        assert(rule_matches(rules[k as int], f1));
    }
}


/// The shown rules are ascending: of two shown rules, the one listed first
/// comes first in the rule list.
proof fn lemma_shown_rules_ascending(s: App)
    ensures
        forall|i: int, j: int|
            0 <= i < j < s.shown_rules().len() ==> s.shown_rules()[i] < s.shown_rules()[j],
{
    assert(s.rules.len() == s.rules@.len());
    lemma_matching_rules(s.rules@, s.rule_filter@, s.rules@.len());
}

/// Enter on the proxy list of the proxy page asks to switch the group under
/// the group cursor to the proxy under the proxy cursor, whatever proxy the
/// group uses now, and changes nothing but a pending "g".
pub proof fn lemma_enter_switches_to_proxy_under_cursor(
    s: App,
    after: App,
    action: Action,
)
    requires
        !s.show_help,
        !s.editing_rule_filter,
        s.active_tab == ActiveTab::Proxy,
        s.focus == Focus::ProxyList,
        s.selected_group_index < s.proxy_groups@.len(),
        s.selected_proxy_index < s.proxy_groups@[s.selected_group_index as int].proxies@.len(),
        key_effect(s, Key::Enter, after, action),
    ensures
        action == (Action::SelectProxy {
            group: s.proxy_groups@[s.selected_group_index as int].name,
            proxy: s.proxy_groups@[s.selected_group_index as int].proxies@[
                s.selected_proxy_index as int].name,
        }),
        after == (App { pending_g: false, ..s }),
{
}

/// "G" puts the cursor of the focused list on its last entry: for the rule
/// list, on the shown rule that comes last, so that no shown rule lies
/// below it.
pub proof fn lemma_jump_to_bottom_reaches_last_entry(s: App, after: App, action: Action)
    requires
        !s.show_help,
        !s.editing_rule_filter,
        key_effect(s, Key::Char('G'), after, action),
    ensures
        action is NoOp,
        after.rules == s.rules,
        after.rule_filter == s.rule_filter,
        s.focus == Focus::RuleList && s.shown_rules().len() > 0 ==> {
            &&& after.shown_rules().contains(after.selected_rule_index)
            &&& forall|k: usize| #[trigger]
                after.shown_rules().contains(k) ==> k <= after.selected_rule_index
        },
        s.focus == Focus::GroupList && s.proxy_groups@.len() > 0 ==> after.selected_group_index
            == s.proxy_groups@.len() - 1,
        s.focus == Focus::ProxyList && s.selected_group_index < s.proxy_groups@.len()
            && s.proxy_groups@[s.selected_group_index as int].proxies@.len() > 0
            ==> after.selected_proxy_index
            == s.proxy_groups@[s.selected_group_index as int].proxies@.len() - 1,
{
    let shown = s.shown_rules();
    assert(s.proxy_groups.len() == s.proxy_groups@.len());
    if s.selected_group_index < s.proxy_groups@.len() {
        let g = s.proxy_groups@[s.selected_group_index as int];
        assert(g.proxies.len() == g.proxies@.len());
    }
    if s.focus == Focus::RuleList && shown.len() > 0 {
        assert(after.shown_rules() == shown);
        lemma_shown_rules_ascending(s);
        assert(shown[shown.len() - 1] == after.selected_rule_index);
        assert forall|k: usize| #[trigger] after.shown_rules().contains(k) implies k
            <= after.selected_rule_index by {
            let i = choose|i: int| 0 <= i < shown.len() && shown[i] == k;
            if i < shown.len() - 1 {
                assert(shown[i] < shown[shown.len() - 1]);
            }
        }
    }
}

/// "g" pressed twice puts the cursor of the rule list on the shown rule
/// that comes first, so that no shown rule lies above it.
pub proof fn lemma_jump_to_top_reaches_first_rule(
    s0: App,
    s1: App,
    s2: App,
    a1: Action,
    a2: Action,
)
    requires
        !s0.show_help,
        !s0.editing_rule_filter,
        !s0.pending_g,
        s0.focus == Focus::RuleList,
        s0.shown_rules().len() > 0,
        key_effect(s0, Key::Char('g'), s1, a1),
        key_effect(s1, Key::Char('g'), s2, a2),
    ensures
        s2.rules == s0.rules,
        s2.rule_filter == s0.rule_filter,
        s2.shown_rules().contains(s2.selected_rule_index),
        forall|k: usize| #[trigger] s2.shown_rules().contains(k) ==> s2.selected_rule_index <= k,
{
    let shown = s0.shown_rules();
    assert(s2.shown_rules() == shown);
    lemma_shown_rules_ascending(s0);
    assert(shown[0] == s2.selected_rule_index);
    assert forall|k: usize| #[trigger] s2.shown_rules().contains(k) implies s2.selected_rule_index
        <= k by {
        let i = choose|i: int| 0 <= i < shown.len() && shown[i] == k;
        if i > 0 {
            assert(shown[0] < shown[i]);
        }
    }
}

/// Putting the rule cursor on a shown rule leaves it where it is when the
/// rule under it is shown; otherwise it goes to the first shown rule, or to
/// the top when no rule is shown. It changes nothing else.
pub proof fn lemma_shown_rule_keeps_cursor(s: App)
    ensures
        s.shown_rules().contains(s.selected_rule_index) ==> s.after_ensure_rule_selection() == s,
        !s.shown_rules().contains(s.selected_rule_index) && s.shown_rules().len() > 0
            ==> s.after_ensure_rule_selection() == (App {
            selected_rule_index: s.shown_rules()[0],
            ..s
        }),
        s.shown_rules().len() == 0 ==> s.after_ensure_rule_selection() == (App {
            selected_rule_index: 0,
            ..s
        }),
{
    if s.rules@.len() == 0 {
        lemma_matching_rules(s.rules@, s.rule_filter@, 0);
    }
}

/// Typing a character into the filter keeps the rule cursor where it is
/// when its rule is still shown under the longer filter.
pub proof fn lemma_typing_keeps_shown_cursor(s: App, c: char, after: App, action: Action)
    requires
        !s.show_help,
        s.editing_rule_filter,
        key_effect(s, Key::Char(c), after, action),
    ensures
        action is NoOp,
        after.rule_filter@ == s.rule_filter@.push(c),
        after.shown_rules().contains(s.selected_rule_index) ==> after.selected_rule_index
            == s.selected_rule_index,
{
    let t = App { rule_filter: after.rule_filter, pending_g: false, ..s };
    lemma_shown_rule_keeps_cursor(t);
    assert(t.shown_rules() == after.shown_rules());
}

/// Refreshing the rules keeps the rule cursor where it is when its rule is
/// still shown among the new rules.
pub proof fn lemma_new_rules_keep_shown_cursor(s: App, rules: Vec<Rule>)
    ensures
        (App { rules: rules, ..s }).shown_rules().contains(s.selected_rule_index) ==> (App {
            rules: rules,
            ..s
        }).after_ensure_rule_selection().selected_rule_index == s.selected_rule_index,
{
    lemma_shown_rule_keeps_cursor(App { rules: rules, ..s });
}

/// While the filter is edited, Esc and Enter both end editing and keep the
/// filter text, so the shown rules stay the same.
pub proof fn lemma_esc_ends_filter_edit_like_enter(
    s: App,
    e1: App,
    e2: App,
    a1: Action,
    a2: Action,
)
    requires
        !s.show_help,
        s.editing_rule_filter,
        key_effect(s, Key::Esc, e1, a1),
        key_effect(s, Key::Enter, e2, a2),
    ensures
        e1 == e2,
        a1 is NoOp && a2 is NoOp,
        !e1.editing_rule_filter,
        e1.rule_filter == s.rule_filter,
        e1.rules == s.rules,
        e1.shown_rules() == s.shown_rules(),
        s.shown_rules().contains(s.selected_rule_index) ==> e1.selected_rule_index
            == s.selected_rule_index,
{
    lemma_shown_rule_keeps_cursor(App { editing_rule_filter: false, pending_g: false, ..s });
}

/// Outside help and filter editing, "c" clears the filter only with the rule
/// list focused; elsewhere it changes nothing but a pending "g".
pub proof fn lemma_c_clears_filter_only_in_rule_list(s: App, after: App, action: Action)
    requires
        !s.show_help,
        !s.editing_rule_filter,
        key_effect(s, Key::Char('c'), after, action),
    ensures
        action is NoOp,
        s.focus != Focus::RuleList ==> after == (App { pending_g: false, ..s }),
        s.focus == Focus::RuleList ==> after.rule_filter@.len() == 0 && after.rules == s.rules,
{
}


/// Setting the filter text puts the rule cursor on a shown rule (at the top
/// when none is shown), keeps it where it was when its rule is still shown,
/// and changes nothing but the filter text and the rule cursor.
pub proof fn lemma_filter_change_keeps_cursor_on_shown_rule(
    before: App,
    after: App,
    filter: Seq<char>,
)
    requires
        crate::rule_cursor::filter_set_to(before, after, filter),
    ensures
        after.rule_filter@ == filter,
        after.rule_cursor_ok(),
        after.shown_rules().contains(before.selected_rule_index) ==> after.selected_rule_index
            == before.selected_rule_index,
        after == (App {
            rule_filter: after.rule_filter,
            selected_rule_index: after.selected_rule_index,
            ..before
        }),
{
    let t = App { rule_filter: after.rule_filter, ..before };
    lemma_shown_rule_keeps_cursor(t);
    assert(t.shown_rules() == after.shown_rules());
    if t.shown_rules().len() > 0 && !t.shown_rules().contains(t.selected_rule_index) {
        assert(after.shown_rules()[0] == after.selected_rule_index);
    }
}

/// While the filter is edited, Backspace removes its last character and
/// Delete empties it; editing goes on and no outside work is asked for.
/// Outside editing and help, Delete empties the filter whatever the focus.
pub proof fn lemma_filter_erasing_keys(s: App, key: Key, after: App, action: Action)
    requires
        !s.show_help,
        key == Key::Backspace || key == Key::Delete,
        key_effect(s, key, after, action),
    ensures
        action is NoOp,
        after.rules == s.rules,
        after.editing_rule_filter == s.editing_rule_filter,
        key == Key::Delete ==> after.rule_filter@.len() == 0,
        key == Key::Backspace && s.editing_rule_filter ==> after.rule_filter@ + (
        if s.rule_filter@.len() > 0 {
            seq![s.rule_filter@.last()]
        } else {
            Seq::<char>::empty()
        }) == s.rule_filter@,
{
    if key == Key::Backspace && s.editing_rule_filter && s.rule_filter@.len() > 0 {
        assert(s.rule_filter@.drop_last() + seq![s.rule_filter@.last()] =~= s.rule_filter@);
    }
    if key == Key::Backspace && s.editing_rule_filter && s.rule_filter@.len() == 0 {
        assert(after.rule_filter@ + Seq::<char>::empty() =~= after.rule_filter@);
    }
}

} // verus!
