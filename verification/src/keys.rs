//! The keyboard: what each key press does to the state, and which outside
//! work (fetching, switching a proxy, a delay test, saving) it asks for.
use vstd::prelude::*;
use crate::model::{ActiveTab, AppConfig, DelayRefreshRequest, Focus};
use crate::proxy_state::{is_delay_request, pin_toggled};
use crate::rule_cursor::filter_set_to;
use crate::state::App;

verus! {

/// A key press, as far as the client tells keys apart.
#[derive(Clone, Copy, Debug, PartialEq, Eq, Structural)]
pub enum Key {
    Char(char),
    Esc,
    Enter,
    Backspace,
    Delete,
    Tab,
    Up,
    Down,
    Left,
    Right,
    Other,
}

/// The outside work a key press asks for.
#[derive(Debug)]
pub enum Action {
    /// Nothing beyond the change of state.
    NoOp,
    /// Leave the program.
    Quit,
    /// Fetch the proxies and then the rules again.
    Refresh,
    /// Run this delay test in the background.
    TestDelays(DelayRefreshRequest),
    /// Switch the group to the proxy, then fetch the proxies again.
    SelectProxy { group: String, proxy: String },
    /// Save this configuration.
    SaveConfig(AppConfig),
}

impl App {
    /// The cursor that a downward move advances (that of the focused group
    /// or proxy list on the proxy page) is not at the largest `usize`, where
    /// moving it down would overflow.
    pub open spec fn cursor_can_move_down(self) -> bool {
        if self.focus == Focus::GroupList && self.active_tab == ActiveTab::Proxy {
            self.proxy_groups@.len() > 0 ==> self.selected_group_index < usize::MAX
        } else if self.focus == Focus::ProxyList && self.active_tab == ActiveTab::Proxy {
            (match self.selected_group() {
                Some(g) => g.proxies@.len() > 0,
                None => false,
            }) ==> self.selected_proxy_index < usize::MAX
        } else {
            true
        }
    }

    /// Whether a downward move can advance the cursor it moves without
    /// overflow.
    pub fn can_move_cursor_down(&self) -> (ok: bool)
        ensures
            ok == self.cursor_can_move_down(),
    {
        if self.focus == Focus::GroupList && self.active_tab == ActiveTab::Proxy {
            self.proxy_groups.len() == 0 || self.selected_group_index < usize::MAX
        } else if self.focus == Focus::ProxyList && self.active_tab == ActiveTab::Proxy {
            if self.selected_group_index < self.proxy_groups.len()
                && self.proxy_groups[self.selected_group_index].proxies.len() > 0 {
                self.selected_proxy_index < usize::MAX
            } else {
                true
            }
        } else {
            true
        }
    }

    /// The state after `jump_to_top`.
    pub open spec fn after_jump_to_top(self) -> App {
        let shown = self.shown_rules();
        match self.focus {
            Focus::GroupList => if self.proxy_groups@.len() > 0 {
                self.with_group_selected(0)
            } else {
                self
            },
            Focus::ProxyList => App { selected_proxy_index: 0, ..self },
            Focus::RuleList => if shown.len() > 0 {
                App { selected_rule_index: shown[0], ..self }
            } else {
                self
            },
        }
    }

    /// The state after `jump_to_bottom`.
    pub open spec fn after_jump_to_bottom(self) -> App {
        let shown = self.shown_rules();
        match self.focus {
            Focus::GroupList => if self.proxy_groups@.len() > 0 {
                self.with_group_selected((self.proxy_groups@.len() - 1) as usize)
            } else {
                self
            },
            Focus::ProxyList => match self.selected_group() {
                Some(g) => if g.proxies@.len() > 0 {
                    App { selected_proxy_index: (g.proxies@.len() - 1) as usize, ..self }
                } else {
                    self
                },
                None => self,
            },
            Focus::RuleList => if shown.len() > 0 {
                App { selected_rule_index: shown.last(), ..self }
            } else {
                self
            },
        }
    }

    /// The state after an upward cursor key: the focused list of the page
    /// on screen moves one entry up.
    pub open spec fn after_cursor_up(self) -> App {
        if self.focus == Focus::GroupList && self.active_tab == ActiveTab::Proxy {
            self.after_previous_group()
        } else if self.focus == Focus::ProxyList && self.active_tab == ActiveTab::Proxy {
            self.after_previous_proxy()
        } else if self.focus == Focus::RuleList && self.active_tab == ActiveTab::Rules {
            self.after_previous_rule()
        } else {
            self
        }
    }

    /// The state after a downward cursor key: the focused list of the page
    /// on screen moves one entry down.
    pub open spec fn after_cursor_down(self) -> App {
        if self.focus == Focus::GroupList && self.active_tab == ActiveTab::Proxy {
            self.after_next_group()
        } else if self.focus == Focus::ProxyList && self.active_tab == ActiveTab::Proxy {
            self.after_next_proxy()
        } else if self.focus == Focus::RuleList && self.active_tab == ActiveTab::Rules {
            self.after_next_rule()
        } else {
            self
        }
    }

    /// Moves the cursor of the focused list to its first entry (for the
    /// rules, the first shown rule); the proxy cursor follows the group
    /// cursor to the group's current proxy.
    pub fn jump_to_top(&mut self)
        ensures
            *final(self) == old(self).after_jump_to_top(),
            old(self).wf() ==> final(self).wf(),
    {
        match self.focus {
            Focus::GroupList => {
                if self.proxy_groups.len() > 0 {
                    self.selected_group_index = 0;
                    self.sync_selected_proxy();
                }
            },
            Focus::ProxyList => {
                self.selected_proxy_index = 0;
            },
            Focus::RuleList => {
                let shown = self.filtered_rule_indices();
                if shown.len() > 0 {
                    self.selected_rule_index = shown[0];
                    assert(self.shown_rules()[0] == self.selected_rule_index);
                }
            },
        }
    }

    /// Moves the cursor of the focused list to its last entry (for the
    /// rules, the last shown rule); the proxy cursor follows the group
    /// cursor to the group's current proxy.
    pub fn jump_to_bottom(&mut self)
        ensures
            *final(self) == old(self).after_jump_to_bottom(),
            old(self).wf() ==> final(self).wf(),
    {
        match self.focus {
            Focus::GroupList => {
                if self.proxy_groups.len() > 0 {
                    self.selected_group_index = self.proxy_groups.len() - 1;
                    self.sync_selected_proxy();
                }
            },
            Focus::ProxyList => {
                if self.selected_group_index < self.proxy_groups.len() {
                    let n = self.proxy_groups[self.selected_group_index].proxies.len();
                    if n > 0 {
                        self.selected_proxy_index = n - 1;
                    }
                }
            },
            Focus::RuleList => {
                let shown = self.filtered_rule_indices();
                if shown.len() > 0 {
                    self.selected_rule_index = shown[shown.len() - 1];
                    assert(self.shown_rules()[self.shown_rules().len() - 1]
                        == self.selected_rule_index);
                }
            },
        }
    }
}

/// What "d" does: on the proxy page, when no delay test runs, it starts
/// one for the group under the cursor if that group has proxies.
pub open spec fn delay_key_effect(t: App, after: App, action: Action) -> bool {
    if t.active_tab == ActiveTab::Proxy && !t.delay_refreshing {
        match action {
            Action::TestDelays(r) => is_delay_request(t, Some(r)) && after == (App {
                delay_refreshing: true,
                ..t
            }),
            Action::NoOp => is_delay_request(t, None) && after == t,
            _ => false,
        }
    } else {
        action is NoOp && after == t
    }
}

/// What "p" does: in the group list of the proxy page it pins or unpins the
/// group under the cursor and asks to save the pinned names.
pub open spec fn pin_key_effect(t: App, after: App, action: Action) -> bool {
    if t.active_tab == ActiveTab::Proxy && t.focus == Focus::GroupList {
        &&& pin_toggled(t, after, t.selected_group() is Some)
        &&& t.selected_group() is Some ==> (action matches Action::SaveConfig(c)
            && c.pinned_group_names@ == after.pinned_group_names@)
        &&& t.selected_group() is None ==> action is NoOp
    } else {
        action is NoOp && after == t
    }
}

/// What Enter does outside filter editing: the group list hands the focus
/// to the proxy list; the proxy list asks to switch the group to the proxy
/// under the cursor.
pub open spec fn enter_key_effect(t: App, after: App, action: Action) -> bool {
    if t.active_tab == ActiveTab::Proxy && t.focus == Focus::GroupList {
        action is NoOp && after == (App { focus: Focus::ProxyList, ..t })
    } else if t.active_tab == ActiveTab::Proxy && t.focus == Focus::ProxyList {
        after == t && match t.selected_group() {
            Some(g) => if t.selected_proxy_index < g.proxies@.len() {
                action matches Action::SelectProxy { group, proxy } && group == g.name && proxy
                    == g.proxies@[t.selected_proxy_index as int].name
            } else {
                action is NoOp
            },
            None => action is NoOp,
        }
    } else {
        action is NoOp && after == t
    }
}

/// What a key press does once neither help nor filter editing takes it;
/// `t` is the state with a pending "g" dropped unless the key is "g".
pub open spec fn command_effect(t: App, key: Key, after: App, action: Action) -> bool {
    if key == Key::Char('q') {
        action is Quit && after == t
    } else if key == Key::Char('?') {
        action is NoOp && after == (App { show_help: true, ..t })
    } else if key == Key::Char('g') {
        action is NoOp && after == if t.pending_g {
            App { pending_g: false, ..t.after_jump_to_top() }
        } else {
            App { pending_g: true, ..t }
        }
    } else if key == Key::Char('G') {
        action is NoOp && after == t.after_jump_to_bottom()
    } else if key == Key::Char('r') {
        action is Refresh && after == t
    } else if key == Key::Char('d') {
        delay_key_effect(t, after, action)
    } else if key == Key::Tab {
        action is NoOp && after == t.after_next_tab()
    } else if key == Key::Char('h') || key == Key::Left || key == Key::Char('l') || key
        == Key::Right {
        action is NoOp && after == if t.active_tab == ActiveTab::Proxy {
            t.after_toggle_proxy_focus()
        } else {
            t
        }
    } else if key == Key::Char('/') {
        action is NoOp && after == t.after_start_rule_filter_edit()
    } else if key == Key::Char('c') {
        action is NoOp && if t.focus == Focus::RuleList {
            filter_set_to(t, after, Seq::<char>::empty())
        } else {
            after == t
        }
    } else if key == Key::Delete {
        action is NoOp && filter_set_to(t, after, Seq::<char>::empty())
    } else if key == Key::Char('p') {
        pin_key_effect(t, after, action)
    } else if key == Key::Char('k') || key == Key::Up {
        action is NoOp && after == t.after_cursor_up()
    } else if key == Key::Char('j') || key == Key::Down {
        action is NoOp && after == t.after_cursor_down()
    } else if key == Key::Enter {
        enter_key_effect(t, after, action)
    } else {
        action is NoOp && after == t
    }
}

/// What a key press does: the help window takes it first (Esc or "?"
/// closes it); then filter editing (Esc or Enter ends it, Backspace and
/// Delete remove one or all characters, other characters are typed);
/// otherwise it is a command.
pub open spec fn key_effect(s: App, key: Key, after: App, action: Action) -> bool {
    if s.show_help {
        &&& action is NoOp
        &&& after == if key == Key::Esc || key == Key::Char('?') {
            App { show_help: false, ..s }
        } else {
            s
        }
    } else if s.editing_rule_filter {
        let t = App { pending_g: false, ..s };
        &&& action is NoOp
        &&& match key {
            Key::Esc => after == (App { editing_rule_filter: false, ..t }).after_ensure_rule_selection(),
            Key::Enter => after == (App { editing_rule_filter: false, ..t }).after_ensure_rule_selection(),
            Key::Backspace => filter_set_to(
                t,
                after,
                if t.rule_filter@.len() > 0 {
                    t.rule_filter@.drop_last()
                } else {
                    t.rule_filter@
                },
            ),
            Key::Delete => filter_set_to(t, after, Seq::<char>::empty()),
            Key::Char(c) => filter_set_to(t, after, t.rule_filter@.push(c)),
            _ => after == t,
        }
    } else {
        let t = if key == Key::Char('g') {
            s
        } else {
            App { pending_g: false, ..s }
        };
        command_effect(t, key, after, action)
    }
}

impl App {
    fn press_cursor_up(&mut self)
        ensures
            *final(self) == old(self).after_cursor_up(),
            old(self).wf() ==> final(self).wf(),
    {
        if self.focus == Focus::GroupList && self.active_tab == ActiveTab::Proxy {
            self.previous_group();
        } else if self.focus == Focus::ProxyList && self.active_tab == ActiveTab::Proxy {
            self.previous_proxy();
        } else if self.focus == Focus::RuleList && self.active_tab == ActiveTab::Rules {
            self.previous_rule();
        }
    }

    fn press_cursor_down(&mut self)
        requires
            old(self).cursor_can_move_down(),
        ensures
            *final(self) == old(self).after_cursor_down(),
            old(self).wf() ==> final(self).wf(),
    {
        if self.focus == Focus::GroupList && self.active_tab == ActiveTab::Proxy {
            self.next_group();
        } else if self.focus == Focus::ProxyList && self.active_tab == ActiveTab::Proxy {
            self.next_proxy();
        } else if self.focus == Focus::RuleList && self.active_tab == ActiveTab::Rules {
            self.next_rule();
        }
    }

    fn press_delay(&mut self) -> (action: Action)
        ensures
            delay_key_effect(*old(self), *final(self), action),
            old(self).wf() ==> final(self).wf(),
    {
        if self.active_tab == ActiveTab::Proxy && !self.delay_refreshing {
            match self.delay_refresh_request() {
                Some(request) => {
                    self.delay_refreshing = true;
                    Action::TestDelays(request)
                },
                None => Action::NoOp,
            }
        } else {
            Action::NoOp
        }
    }

    fn press_pin(&mut self) -> (action: Action)
        ensures
            pin_key_effect(*old(self), *final(self), action),
            old(self).wf() ==> final(self).wf(),
    {
        if self.active_tab == ActiveTab::Proxy && self.focus == Focus::GroupList {
            if self.toggle_selected_group_pin() {
                Action::SaveConfig(self.save_config())
            } else {
                Action::NoOp
            }
        } else {
            Action::NoOp
        }
    }

    fn press_enter(&mut self) -> (action: Action)
        ensures
            enter_key_effect(*old(self), *final(self), action),
            old(self).wf() ==> final(self).wf(),
    {
        if self.active_tab == ActiveTab::Proxy && self.focus == Focus::GroupList {
            self.focus = Focus::ProxyList;
            Action::NoOp
        } else if self.active_tab == ActiveTab::Proxy && self.focus == Focus::ProxyList {
            if self.selected_group_index < self.proxy_groups.len() {
                let group = &self.proxy_groups[self.selected_group_index];
                if self.selected_proxy_index < group.proxies.len() {
                    Action::SelectProxy {
                        group: group.name.clone(),
                        proxy: group.proxies[self.selected_proxy_index].name.clone(),
                    }
                } else {
                    Action::NoOp
                }
            } else {
                Action::NoOp
            }
        } else {
            Action::NoOp
        }
    }

    fn press_in_filter(&mut self, key: Key)
        requires
            !old(self).pending_g,
        ensures
            match key {
                Key::Esc => *final(self) == (App {
                    editing_rule_filter: false,
                    ..*old(self)
                }).after_ensure_rule_selection(),
                Key::Enter => *final(self) == (App {
                    editing_rule_filter: false,
                    ..*old(self)
                }).after_ensure_rule_selection(),
                Key::Backspace => filter_set_to(
                    *old(self),
                    *final(self),
                    if old(self).rule_filter@.len() > 0 {
                        old(self).rule_filter@.drop_last()
                    } else {
                        old(self).rule_filter@
                    },
                ),
                Key::Delete => filter_set_to(*old(self), *final(self), Seq::<char>::empty()),
                Key::Char(c) => filter_set_to(*old(self), *final(self), old(self).rule_filter@.push(c)),
                _ => *final(self) == *old(self),
            },
            old(self).wf() ==> final(self).wf(),
    {
        match key {
            Key::Esc => {
                self.editing_rule_filter = false;
                self.apply_rule_filter_change();
            },
            Key::Enter => {
                self.editing_rule_filter = false;
                self.apply_rule_filter_change();
            },
            Key::Backspace => {
                self.pop_rule_filter_char();
            },
            Key::Delete => {
                self.clear_rule_filter();
            },
            Key::Char(c) => {
                self.push_rule_filter_char(c);
            },
            _ => {},
        }
    }

    fn press_basic(&mut self, key: Key) -> (action: Action)
        requires
            !old(self).show_help,
            !old(self).editing_rule_filter,
            key == Key::Char('q') || key == Key::Char('?') || key == Key::Char('g') || key
                == Key::Char('G') || key == Key::Char('r'),
        ensures
            command_effect(*old(self), key, *final(self), action),
            old(self).wf() ==> final(self).wf(),
    {
        if key == Key::Char('q') {
            Action::Quit
        } else if key == Key::Char('?') {
            self.show_help = true;
            Action::NoOp
        } else if key == Key::Char('g') {
            if self.pending_g {
                self.jump_to_top();
                self.pending_g = false;
            } else {
                self.pending_g = true;
            }
            Action::NoOp
        } else if key == Key::Char('G') {
            self.jump_to_bottom();
            Action::NoOp
        } else {
            Action::Refresh
        }
    }

    fn press_view(&mut self, key: Key)
        requires
            !old(self).show_help,
            !old(self).editing_rule_filter,
            key == Key::Tab || key == Key::Char('h') || key == Key::Left || key == Key::Char('l')
                || key == Key::Right || key == Key::Char('/') || key == Key::Char('c') || key
                == Key::Delete,
        ensures
            command_effect(*old(self), key, *final(self), Action::NoOp),
            old(self).wf() ==> final(self).wf(),
    {
        if key == Key::Tab {
            self.next_tab();
        } else if key == Key::Char('/') {
            self.start_rule_filter_edit();
        } else if key == Key::Char('c') {
            if self.focus == Focus::RuleList {
                self.clear_rule_filter();
            }
        } else if key == Key::Delete {
            self.clear_rule_filter();
        } else {
            if self.active_tab == ActiveTab::Proxy {
                self.toggle_proxy_focus();
            }
        }
    }

    fn run_command(&mut self, key: Key) -> (action: Action)
        requires
            !old(self).show_help,
            !old(self).editing_rule_filter,
            key == Key::Down || key == Key::Char('j') ==> old(self).cursor_can_move_down(),
        ensures
            command_effect(*old(self), key, *final(self), action),
            old(self).wf() ==> final(self).wf(),
    {
        if key == Key::Char('q') || key == Key::Char('?') || key == Key::Char('g') || key
            == Key::Char('G') || key == Key::Char('r') {
            self.press_basic(key)
        } else if key == Key::Char('d') {
            self.press_delay()
        } else if key == Key::Tab || key == Key::Char('h') || key == Key::Left || key == Key::Char(
            'l',
        ) || key == Key::Right || key == Key::Char('/') || key == Key::Char('c') || key
            == Key::Delete {
            self.press_view(key);
            Action::NoOp
        } else if key == Key::Char('p') {
            self.press_pin()
        } else if key == Key::Char('k') || key == Key::Up {
            self.press_cursor_up();
            Action::NoOp
        } else if key == Key::Char('j') || key == Key::Down {
            self.press_cursor_down();
            Action::NoOp
        } else if key == Key::Enter {
            self.press_enter()
        } else {
            Action::NoOp
        }
    }

    /// Handles one key press: changes the state and returns the outside work
    /// it asks for.
    pub fn handle_key(&mut self, key: Key) -> (action: Action)
        requires
            (key == Key::Down || key == Key::Char('j')) && !old(self).show_help
                && !old(self).editing_rule_filter ==> old(self).cursor_can_move_down(),
        ensures
            key_effect(*old(self), key, *final(self), action),
            old(self).wf() ==> final(self).wf(),
    {
        if self.show_help {
            if key == Key::Esc || key == Key::Char('?') {
                self.show_help = false;
            }
            return Action::NoOp;
        }
        if self.editing_rule_filter {
            self.pending_g = false;
            self.press_in_filter(key);
            return Action::NoOp;
        }
        if key != Key::Char('g') {
            self.pending_g = false;
        }
        self.run_command(key)
    }
}

} // verus!
