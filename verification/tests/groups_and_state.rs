use clash_tui::groups::{groups_from_proxies, sort_groups};
use clash_tui::model::{
    ActiveTab, AppConfig, DelayHistory, DelayRefreshResult, Focus, ProxyGroup, ProxyInfo,
    ProxyItem, Rule,
};
use clash_tui::proxy_state::toggle_name;
use clash_tui::state::App;
use clash_tui::view::{current_proxy_label, is_current_proxy, ProxyPanel, RulePanel};

fn item(name: &str, delay: Option<u32>) -> ProxyItem {
    ProxyItem { name: name.to_string(), delay }
}

fn group(name: &str, current: Option<&str>, proxies: &[&str]) -> ProxyGroup {
    ProxyGroup {
        name: name.to_string(),
        current: current.map(|c| c.to_string()),
        proxies: proxies.iter().map(|p| item(p, None)).collect(),
    }
}

fn names(groups: &[ProxyGroup]) -> Vec<String> {
    groups.iter().map(|g| g.name.clone()).collect()
}

fn info(all: Option<&[&str]>, now: Option<&str>, delays: &[u32]) -> ProxyInfo {
    ProxyInfo {
        name: String::new(),
        proxy_type: "Selector".to_string(),
        now: now.map(|n| n.to_string()),
        all: all.map(|a| a.iter().map(|s| s.to_string()).collect()),
        history: if delays.is_empty() {
            None
        } else {
            Some(
                delays
                    .iter()
                    .map(|d| DelayHistory { time: "t".to_string(), delay: *d })
                    .collect(),
            )
        },
        udp: None,
    }
}

fn app_with(groups: Vec<ProxyGroup>, pinned: &[&str]) -> App {
    let config = AppConfig { pinned_group_names: pinned.iter().map(|s| s.to_string()).collect() };
    let mut app = App::new("http://127.0.0.1:9091".to_string(), None, Some(config));
    app.apply_fetched_proxies(groups);
    app
}

#[test]
fn new_app_starts_empty() {
    let app = App::new("http://x".to_string(), Some("k".to_string()), None);
    assert!(app.proxy_groups.is_empty());
    assert!(app.rules.is_empty());
    assert_eq!(app.selected_group_index, 0);
    assert_eq!(app.active_tab, ActiveTab::Proxy);
    assert_eq!(app.focus, Focus::GroupList);
    assert!(app.pinned_group_names.is_empty());
    assert_eq!(app.secret, Some("k".to_string()));
}

#[test]
fn new_app_drops_repeated_pins() {
    let config = AppConfig {
        pinned_group_names: vec!["A".to_string(), "B".to_string(), "A".to_string()],
    };
    let app = App::new("http://x".to_string(), None, Some(config));
    assert_eq!(app.pinned_group_names, vec!["A".to_string(), "B".to_string()]);
}

#[test]
fn groups_built_from_records() {
    let entries = vec![
        ("GLOBAL".to_string(), info(Some(&["DIRECT", "HK"]), Some("HK"), &[])),
        ("HK".to_string(), info(None, None, &[10, 42])),
        ("DIRECT".to_string(), info(None, None, &[])),
        ("Empty".to_string(), info(Some(&[]), None, &[])),
    ];
    let groups = groups_from_proxies(&entries);
    assert_eq!(names(&groups), vec!["GLOBAL".to_string(), "Empty".to_string()]);
    assert_eq!(groups[0].current, Some("HK".to_string()));
    assert_eq!(groups[0].proxies[0].name, "DIRECT");
    assert_eq!(groups[0].proxies[0].delay, None);
    assert_eq!(groups[0].proxies[1].name, "HK");
    assert_eq!(groups[0].proxies[1].delay, Some(42));
    assert!(groups[1].proxies.is_empty());
    assert_eq!(groups[1].current, None);
}

#[test]
fn sorting_puts_pinned_first_then_names() {
    let groups = vec![
        group("b", None, &[]),
        group("Z", None, &[]),
        group("a", None, &[]),
        group("c", None, &[]),
    ];
    let sorted = sort_groups(groups, &vec!["c".to_string(), "b".to_string()]);
    assert_eq!(names(&sorted), vec!["b", "c", "Z", "a"]);
}

#[test]
fn sorting_keeps_same_named_groups_in_order() {
    let groups = vec![
        group("b", Some("1"), &[]),
        group("a", None, &[]),
        group("b", Some("2"), &[]),
    ];
    let sorted = sort_groups(groups, &Vec::new());
    assert_eq!(names(&sorted), vec!["a", "b", "b"]);
    assert_eq!(sorted[1].current, Some("1".to_string()));
    assert_eq!(sorted[2].current, Some("2".to_string()));
}

#[test]
fn toggling_a_name() {
    let names = vec!["a".to_string(), "b".to_string()];
    let added = toggle_name(names.clone(), &"c".to_string());
    assert_eq!(added, vec!["a".to_string(), "b".to_string(), "c".to_string()]);
    let removed = toggle_name(names, &"a".to_string());
    assert_eq!(removed, vec!["b".to_string()]);
    let repeated = toggle_name(vec!["a".to_string(), "b".to_string(), "a".to_string()], &"a".to_string());
    assert_eq!(repeated, vec!["b".to_string()]);
}

#[test]
fn cursor_follows_current_proxy() {
    let app = app_with(
        vec![group("B", Some("y"), &["x", "y"]), group("A", Some("gone"), &["p"])],
        &[],
    );
    assert_eq!(names(&app.proxy_groups), vec!["A", "B"]);
    assert_eq!(app.selected_group_index, 0);
    assert_eq!(app.selected_proxy_index, 0);
    let mut app = app;
    app.next_group();
    assert_eq!(app.selected_group_index, 1);
    assert_eq!(app.selected_proxy_index, 1);
    app.next_group();
    assert_eq!(app.selected_group_index, 0);
    app.previous_group();
    assert_eq!(app.selected_group_index, 1);
    assert_eq!(app.selected_proxy_index, 1);
}

#[test]
fn group_moves_on_empty_list_do_nothing() {
    let mut app = App::new("http://x".to_string(), None, None);
    app.next_group();
    app.previous_group();
    app.next_proxy();
    app.previous_proxy();
    assert_eq!(app.selected_group_index, 0);
    assert_eq!(app.selected_proxy_index, 0);
}

#[test]
fn proxy_cursor_wraps() {
    let mut app = app_with(vec![group("G", None, &["a", "b", "c"])], &[]);
    app.previous_proxy();
    assert_eq!(app.selected_proxy_index, 2);
    app.next_proxy();
    assert_eq!(app.selected_proxy_index, 0);
    app.next_proxy();
    app.next_proxy();
    assert_eq!(app.selected_proxy_index, 2);
    app.next_proxy();
    assert_eq!(app.selected_proxy_index, 0);
}

#[test]
fn moves_undo_each_other() {
    let mut app = app_with(
        vec![group("A", None, &["a", "b"]), group("B", None, &["c"]), group("C", None, &[])],
        &[],
    );
    app.next_proxy();
    let before = (app.selected_group_index, app.selected_proxy_index);
    app.next_proxy();
    app.previous_proxy();
    assert_eq!((app.selected_group_index, app.selected_proxy_index), before);
    app.previous_group();
    app.next_group();
    assert_eq!(app.selected_group_index, before.0);
    assert_eq!(app.selected_proxy_index, 0);
}

#[test]
fn refresh_keeps_the_selected_group() {
    let mut app = app_with(vec![group("A", None, &[]), group("B", None, &["x"])], &[]);
    app.next_group();
    assert_eq!(app.proxy_groups[app.selected_group_index].name, "B");
    app.apply_fetched_proxies(vec![
        group("C", None, &[]),
        group("B", Some("x"), &["x"]),
        group("0", None, &[]),
    ]);
    assert_eq!(names(&app.proxy_groups), vec!["0", "B", "C"]);
    assert_eq!(app.selected_group_index, 1);
    app.apply_fetched_proxies(vec![group("D", None, &[]), group("E", None, &[])]);
    assert_eq!(app.selected_group_index, 0);
    app.apply_fetched_proxies(vec![]);
    assert_eq!(app.selected_group_index, 0);
    assert_eq!(app.selected_proxy_index, 0);
}

#[test]
fn pinning_reorders_and_follows_the_group() {
    let mut app = app_with(
        vec![group("A", None, &[]), group("B", None, &[]), group("C", None, &[])],
        &[],
    );
    app.next_group();
    app.next_group();
    assert!(app.toggle_selected_group_pin());
    assert_eq!(names(&app.proxy_groups), vec!["C", "A", "B"]);
    assert_eq!(app.selected_group_index, 0);
    assert_eq!(app.save_config().pinned_group_names, vec!["C".to_string()]);
    assert!(app.toggle_selected_group_pin());
    assert_eq!(names(&app.proxy_groups), vec!["A", "B", "C"]);
    assert_eq!(app.selected_group_index, 2);
    assert!(app.save_config().pinned_group_names.is_empty());
}

#[test]
fn pinning_without_groups_changes_nothing() {
    let mut app = App::new("http://x".to_string(), None, None);
    assert!(!app.toggle_selected_group_pin());
    assert!(app.pinned_group_names.is_empty());
}

#[test]
fn pinned_groups_come_first_after_fetch() {
    let app = app_with(
        vec![group("a", None, &[]), group("b", None, &[]), group("c", None, &[])],
        &["c"],
    );
    assert_eq!(names(&app.proxy_groups), vec!["c", "a", "b"]);
    assert_eq!(app.pinned_group_count(), 1);
}

#[test]
fn delay_results_fill_in_delays() {
    let mut app = app_with(
        vec![
            ProxyGroup {
                name: "G".to_string(),
                current: None,
                proxies: vec![item("a", None), item("b", Some(7)), item("a", Some(1))],
            },
            group("H", None, &["a"]),
        ],
        &[],
    );
    app.delay_refreshing = true;
    app.apply_delay_refresh_result(DelayRefreshResult {
        group_name: "G".to_string(),
        delays: vec![("a".to_string(), 30), ("zz".to_string(), 5), ("a".to_string(), 40)],
    });
    assert!(!app.delay_refreshing);
    let g = &app.proxy_groups[0];
    assert_eq!(g.proxies[0].delay, Some(40));
    assert_eq!(g.proxies[1].delay, Some(7));
    assert_eq!(g.proxies[2].delay, Some(1));
    assert_eq!(app.proxy_groups[1].proxies[0].delay, None);

    app.delay_refreshing = true;
    app.apply_delay_refresh_result(DelayRefreshResult {
        group_name: "missing".to_string(),
        delays: vec![("a".to_string(), 1)],
    });
    assert!(!app.delay_refreshing);
    assert_eq!(app.proxy_groups[0].proxies[0].delay, Some(40));
}

#[test]
fn delay_request_for_selected_group() {
    let mut app = app_with(vec![group("A", None, &[]), group("B", None, &["x", "y"])], &[]);
    assert!(app.delay_refresh_request().is_none());
    app.next_group();
    let request = app.delay_refresh_request().unwrap();
    assert_eq!(request.group_name, "B");
    assert_eq!(request.proxy_names, vec!["x".to_string(), "y".to_string()]);
    assert_eq!(request.api_url, "http://127.0.0.1:9091");
    assert_eq!(request.secret, None);
}

fn rule(t: &str, p: &str, x: &str) -> Rule {
    Rule { rule_type: t.to_string(), payload: p.to_string(), proxy: x.to_string() }
}

fn rules_app() -> App {
    let mut app = App::new("http://x".to_string(), None, None);
    app.set_rules(vec![
        rule("DOMAIN-SUFFIX", "apple.com", "Apple"),
        rule("DOMAIN", "google.com", "Proxy"),
        rule("GEOIP", "CN", "DIRECT"),
        rule("MATCH", "", "APPLE-Fallback"),
    ]);
    app
}

#[test]
fn filter_ignores_case_and_matches_all_fields() {
    let mut app = rules_app();
    assert_eq!(app.filtered_rule_indices(), vec![0, 1, 2, 3]);
    app.rule_filter = "APPLE".to_string();
    assert_eq!(app.filtered_rule_indices(), vec![0, 3]);
    app.rule_filter = "geoip cn".to_string();
    assert_eq!(app.filtered_rule_indices(), vec![2]);
    app.rule_filter = "nothing".to_string();
    assert!(app.filtered_rule_indices().is_empty());
    app.rule_filter = "Apple".to_string();
    let upper = app.filtered_rule_indices();
    app.rule_filter = "aPPLE".to_string();
    assert_eq!(app.filtered_rule_indices(), upper);
}

#[test]
fn rule_cursor_stays_on_shown_rules() {
    let mut app = rules_app();
    assert_eq!(app.selected_rule_index, 0);
    app.selected_rule_index = 1;
    app.rule_filter = "apple".to_string();
    app.apply_rule_filter_change();
    assert_eq!(app.selected_rule_index, 0);
    app.next_rule();
    assert_eq!(app.selected_rule_index, 3);
    app.next_rule();
    assert_eq!(app.selected_rule_index, 0);
    app.previous_rule();
    assert_eq!(app.selected_rule_index, 3);
    assert_eq!(app.selected_rule_position(), Some(1));
    app.rule_filter = "zzz".to_string();
    app.apply_rule_filter_change();
    assert_eq!(app.selected_rule_index, 0);
    app.next_rule();
    assert_eq!(app.selected_rule_index, 0);
    app.clear_rule_filter();
    assert!(app.rule_filter.is_empty());
    assert_eq!(app.filtered_rule_indices(), vec![0, 1, 2, 3]);
}

#[test]
fn rule_moves_undo_each_other() {
    let mut app = rules_app();
    app.next_rule();
    app.next_rule();
    let at = app.selected_rule_index;
    app.next_rule();
    app.previous_rule();
    assert_eq!(app.selected_rule_index, at);
    app.previous_rule();
    app.next_rule();
    assert_eq!(app.selected_rule_index, at);
}

#[test]
fn empty_rule_list_keeps_cursor_at_top() {
    let mut app = App::new("http://x".to_string(), None, None);
    app.selected_rule_index = 5;
    app.ensure_rule_selection();
    assert_eq!(app.selected_rule_index, 0);
}

#[test]
fn jumps_to_ends() {
    let mut app = app_with(
        vec![group("A", None, &["a", "b", "c"]), group("B", Some("q"), &["p", "q"])],
        &[],
    );
    app.jump_to_bottom();
    assert_eq!(app.selected_group_index, 1);
    assert_eq!(app.selected_proxy_index, 1);
    app.jump_to_top();
    assert_eq!(app.selected_group_index, 0);
    app.focus = Focus::ProxyList;
    app.jump_to_bottom();
    assert_eq!(app.selected_proxy_index, 2);
    app.jump_to_top();
    assert_eq!(app.selected_proxy_index, 0);
}

#[test]
fn tab_cycles_the_focus_over_the_panels() {
    let mut app = App::new("http://x".to_string(), None, None);
    assert_eq!(app.focus, Focus::GroupList);
    app.next_tab();
    assert_eq!(app.focus, Focus::ProxyList);
    assert_eq!(app.active_tab, ActiveTab::Proxy);
    app.next_tab();
    assert_eq!(app.focus, Focus::RuleList);
    assert_eq!(app.active_tab, ActiveTab::Rules);
    app.next_tab();
    assert_eq!(app.focus, Focus::GroupList);
    assert_eq!(app.active_tab, ActiveTab::Proxy);
    app.toggle_proxy_focus();
    assert_eq!(app.focus, Focus::ProxyList);
    app.start_rule_filter_edit();
    assert!(app.editing_rule_filter);
    app.next_tab();
    assert_eq!(app.active_tab, ActiveTab::Rules);
    assert_eq!(app.focus, Focus::RuleList);
    app.toggle_proxy_focus();
    assert_eq!(app.focus, Focus::RuleList);
}

#[test]
fn sync_focus_to_tab_fits_the_page() {
    let mut app = App::new("http://x".to_string(), None, None);
    app.focus = Focus::RuleList;
    app.sync_focus_to_tab();
    assert_eq!(app.focus, Focus::GroupList);
    app.active_tab = ActiveTab::Rules;
    app.sync_focus_to_tab();
    assert_eq!(app.focus, Focus::RuleList);
    app.active_tab = ActiveTab::About;
    app.sync_focus_to_tab();
    assert_eq!(app.focus, Focus::RuleList);
}

#[test]
fn panels_and_current_marks() {
    let g = group("G", Some("b"), &["a", "b"]);
    assert!(!is_current_proxy(&g, 0));
    assert!(is_current_proxy(&g, 1));
    assert_eq!(current_proxy_label(&g), "b");
    assert_eq!(current_proxy_label(&group("H", None, &[])), "未选择");

    let mut app = App::new("http://x".to_string(), None, None);
    assert_eq!(app.proxy_panel(), ProxyPanel::NoGroup);
    assert_eq!(app.rule_panel(), RulePanel::NoRules);
    app.apply_fetched_proxies(vec![group("E", None, &[]), group("F", None, &["x"])]);
    assert_eq!(app.proxy_panel(), ProxyPanel::NoProxies);
    app.next_group();
    assert_eq!(app.proxy_panel(), ProxyPanel::Proxies);
    app.set_rules(vec![rule("DOMAIN", "a.com", "P")]);
    assert_eq!(app.rule_panel(), RulePanel::Rules);
    app.rule_filter = "zzz".to_string();
    assert_eq!(app.rule_panel(), RulePanel::NoMatches);
}

#[test]
fn distinct_records_give_distinct_groups() {
    let entries = vec![
        ("B".to_string(), info(Some(&["x"]), None, &[])),
        ("x".to_string(), info(None, None, &[3])),
        ("A".to_string(), info(Some(&["x", "B"]), Some("B"), &[])),
    ];
    let groups = groups_from_proxies(&entries);
    assert_eq!(names(&groups), vec!["B", "A"]);
    assert_eq!(groups[1].proxies[0].delay, Some(3));
    assert_eq!(groups[1].proxies[1].delay, None);
    let mut app = App::new("http://x".to_string(), None, None);
    app.apply_fetched_proxies(groups);
    assert_eq!(names(&app.proxy_groups), vec!["A", "B"]);
    assert_eq!(app.selected_proxy_index, 1);
}

#[test]
fn longer_filter_shows_fewer_rules() {
    let mut app = rules_app();
    app.rule_filter = "app".to_string();
    let short = app.filtered_rule_indices();
    app.rule_filter = "APPLE.".to_string();
    let long = app.filtered_rule_indices();
    assert_eq!(short, vec![0, 3]);
    assert_eq!(long, vec![0]);
    assert!(long.iter().all(|i| short.contains(i)));
}
