use clash_tui::keys::{Action, Key};
use clash_tui::model::{ActiveTab, Focus, ProxyGroup, ProxyItem, Rule};
use clash_tui::state::App;
use clash_tui::view::{focus_title, tab_title};

fn group(name: &str, current: Option<&str>, proxies: &[&str]) -> ProxyGroup {
    ProxyGroup {
        name: name.to_string(),
        current: current.map(|c| c.to_string()),
        proxies: proxies.iter().map(|p| ProxyItem { name: p.to_string(), delay: None }).collect(),
    }
}

fn sample() -> App {
    let mut app = App::new("http://127.0.0.1:9091".to_string(), Some("k".to_string()), None);
    app.apply_fetched_proxies(vec![
        group("GLOBAL", Some("HK"), &["DIRECT", "HK", "JP"]),
        group("Auto", None, &["HK"]),
    ]);
    app.set_rules(vec![
        Rule {
            rule_type: "DOMAIN".to_string(),
            payload: "apple.com".to_string(),
            proxy: "Apple".to_string(),
        },
        Rule {
            rule_type: "GEOIP".to_string(),
            payload: "CN".to_string(),
            proxy: "DIRECT".to_string(),
        },
        Rule {
            rule_type: "MATCH".to_string(),
            payload: String::new(),
            proxy: "GLOBAL".to_string(),
        },
    ]);
    app
}

fn press(app: &mut App, keys: &[Key]) -> Vec<Action> {
    keys.iter().map(|k| app.handle_key(*k)).collect()
}

#[test]
fn quit_and_refresh() {
    let mut app = sample();
    assert!(matches!(app.handle_key(Key::Char('q')), Action::Quit));
    assert!(matches!(app.handle_key(Key::Char('r')), Action::Refresh));
    assert!(matches!(app.handle_key(Key::Other), Action::NoOp));
}

#[test]
fn help_takes_keys_until_closed() {
    let mut app = sample();
    app.handle_key(Key::Char('?'));
    assert!(app.show_help);
    assert!(matches!(app.handle_key(Key::Char('q')), Action::NoOp));
    assert!(app.show_help);
    app.handle_key(Key::Down);
    assert_eq!(app.selected_group_index, 0);
    app.handle_key(Key::Char('?'));
    assert!(!app.show_help);
    app.handle_key(Key::Char('?'));
    app.handle_key(Key::Esc);
    assert!(!app.show_help);
}

#[test]
fn gg_and_shift_g() {
    let mut app = sample();
    assert_eq!(app.proxy_groups[0].name, "Auto");
    app.handle_key(Key::Char('G'));
    assert_eq!(app.selected_group_index, 1);
    assert_eq!(app.selected_proxy_index, 1);
    app.handle_key(Key::Char('g'));
    assert!(app.pending_g);
    assert_eq!(app.selected_group_index, 1);
    app.handle_key(Key::Char('g'));
    assert!(!app.pending_g);
    assert_eq!(app.selected_group_index, 0);
    app.handle_key(Key::Char('G'));
    app.handle_key(Key::Char('g'));
    app.handle_key(Key::Char('j'));
    assert!(!app.pending_g);
    app.handle_key(Key::Char('g'));
    assert!(app.pending_g);
}

#[test]
fn cursor_keys_move_the_focused_list() {
    let mut app = sample();
    press(&mut app, &[Key::Char('j')]);
    assert_eq!(app.selected_group_index, 1);
    assert_eq!(app.selected_proxy_index, 1);
    press(&mut app, &[Key::Char('l'), Key::Down]);
    assert_eq!(app.focus, Focus::ProxyList);
    assert_eq!(app.selected_proxy_index, 2);
    press(&mut app, &[Key::Down]);
    assert_eq!(app.selected_proxy_index, 0);
    press(&mut app, &[Key::Up]);
    assert_eq!(app.selected_proxy_index, 2);
    press(&mut app, &[Key::Left, Key::Up]);
    assert_eq!(app.focus, Focus::GroupList);
    assert_eq!(app.selected_group_index, 0);
}

#[test]
fn enter_selects_a_proxy() {
    let mut app = sample();
    press(&mut app, &[Key::Down, Key::Enter]);
    assert_eq!(app.focus, Focus::ProxyList);
    match app.handle_key(Key::Enter) {
        Action::SelectProxy { group, proxy } => {
            assert_eq!(group, "GLOBAL");
            assert_eq!(proxy, "HK");
        }
        other => panic!("unexpected {:?}", other),
    }
}

#[test]
fn delay_test_starts_once() {
    let mut app = sample();
    match app.handle_key(Key::Char('d')) {
        Action::TestDelays(request) => {
            assert_eq!(request.group_name, "Auto");
            assert_eq!(request.proxy_names, vec!["HK".to_string()]);
            assert_eq!(request.secret, Some("k".to_string()));
        }
        other => panic!("unexpected {:?}", other),
    }
    assert!(app.delay_refreshing);
    assert!(matches!(app.handle_key(Key::Char('d')), Action::NoOp));
}

#[test]
fn pin_key_asks_to_save() {
    let mut app = sample();
    press(&mut app, &[Key::Down]);
    match app.handle_key(Key::Char('p')) {
        Action::SaveConfig(config) => {
            assert_eq!(config.pinned_group_names, vec!["GLOBAL".to_string()]);
        }
        other => panic!("unexpected {:?}", other),
    }
    assert_eq!(app.proxy_groups[0].name, "GLOBAL");
    assert_eq!(app.selected_group_index, 0);
    press(&mut app, &[Key::Char('l')]);
    assert!(matches!(app.handle_key(Key::Char('p')), Action::NoOp));
    assert_eq!(app.pinned_group_names.len(), 1);
}

#[test]
fn filter_editing() {
    let mut app = sample();
    press(&mut app, &[Key::Char('/')]);
    assert!(app.editing_rule_filter);
    assert_eq!(app.active_tab, ActiveTab::Rules);
    assert_eq!(app.focus, Focus::RuleList);
    press(&mut app, &[Key::Char('C'), Key::Char('n'), Key::Char('q')]);
    assert_eq!(app.rule_filter, "Cnq");
    assert!(app.filtered_rule_indices().is_empty());
    assert_eq!(app.selected_rule_index, 0);
    press(&mut app, &[Key::Backspace]);
    assert_eq!(app.rule_filter, "Cn");
    assert_eq!(app.filtered_rule_indices(), vec![1]);
    assert_eq!(app.selected_rule_index, 1);
    press(&mut app, &[Key::Tab, Key::Char('j')]);
    assert_eq!(app.rule_filter, "Cnj");
    assert_eq!(app.active_tab, ActiveTab::Rules);
    press(&mut app, &[Key::Delete]);
    assert_eq!(app.rule_filter, "");
    assert_eq!(app.filtered_rule_indices(), vec![0, 1, 2]);
    press(&mut app, &[Key::Char('x'), Key::Enter]);
    assert!(!app.editing_rule_filter);
    assert_eq!(app.rule_filter, "x");
    press(&mut app, &[Key::Char('c')]);
    assert_eq!(app.rule_filter, "");
    press(&mut app, &[Key::Char('j'), Key::Char('j')]);
    assert_eq!(app.selected_rule_index, 2);
    press(&mut app, &[Key::Char('j')]);
    assert_eq!(app.selected_rule_index, 0);
    press(&mut app, &[Key::Char('k')]);
    assert_eq!(app.selected_rule_index, 2);
}

#[test]
fn backspace_on_empty_filter() {
    let mut app = sample();
    press(&mut app, &[Key::Char('/'), Key::Backspace, Key::Esc]);
    assert_eq!(app.rule_filter, "");
    assert!(!app.editing_rule_filter);
}

#[test]
fn tab_key_cycles_focus() {
    let mut app = sample();
    press(&mut app, &[Key::Tab]);
    assert_eq!(app.focus, Focus::ProxyList);
    assert_eq!(app.active_tab, ActiveTab::Proxy);
    press(&mut app, &[Key::Tab]);
    assert_eq!(app.focus, Focus::RuleList);
    assert_eq!(app.active_tab, ActiveTab::Rules);
    press(&mut app, &[Key::Tab]);
    assert_eq!(app.active_tab, ActiveTab::Proxy);
    assert_eq!(app.focus, Focus::GroupList);
    assert_eq!(tab_title(app.active_tab), "Proxy");
    assert_eq!(focus_title(app.focus), "Groups");
    assert_eq!(tab_title(ActiveTab::Rules), "Rules");
    assert_eq!(tab_title(ActiveTab::About), "About");
    assert_eq!(focus_title(Focus::ProxyList), "Proxies");
    assert_eq!(focus_title(Focus::RuleList), "Rules");
}

#[test]
fn delete_clears_the_filter_outside_editing() {
    let mut app = sample();
    press(&mut app, &[Key::Char('/'), Key::Char('c'), Key::Char('n'), Key::Enter]);
    assert_eq!(app.rule_filter, "cn");
    press(&mut app, &[Key::Tab, Key::Tab]);
    assert_eq!(app.active_tab, ActiveTab::Proxy);
    press(&mut app, &[Key::Delete]);
    assert_eq!(app.rule_filter, "");
    assert_eq!(app.filtered_rule_indices(), vec![0, 1, 2]);
}

#[test]
fn downward_move_checks_only_the_focused_cursor() {
    let mut app = sample();
    assert!(app.can_move_cursor_down());
    app.selected_group_index = usize::MAX;
    assert!(!app.can_move_cursor_down());
    app.focus = Focus::ProxyList;
    assert!(app.can_move_cursor_down());
    app.selected_group_index = 0;
    app.selected_proxy_index = usize::MAX;
    assert!(!app.can_move_cursor_down());
    app.active_tab = ActiveTab::Rules;
    app.focus = Focus::RuleList;
    assert!(app.can_move_cursor_down());
}

#[test]
fn empty_filter_shows_every_rule() {
    let mut app = sample();
    app.rule_filter = String::new();
    assert_eq!(app.filtered_rule_indices(), vec![0, 1, 2]);
}
