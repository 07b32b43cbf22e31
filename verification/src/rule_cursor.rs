//! The rule list: which rules are shown under the filter and where the rule
//! cursor goes as rules, the filter and the cursor keys change.
use vstd::prelude::*;
use crate::model::Rule;
use crate::rules::{filter_rules, lemma_matching_rules};
use crate::state::{App, index_of, position_of};
use crate::text::pop_char;

verus! {

/// `after` is `before` with the rule filter text set to `filter` and the
/// rule cursor put on a rule shown under it; nothing else changes.
pub open spec fn filter_set_to(before: App, after: App, filter: Seq<char>) -> bool {
    &&& after.rule_filter@ == filter
    &&& after == (App {
        rule_filter: after.rule_filter,
        ..before
    }).after_ensure_rule_selection()
}

impl App {
    /// Where the rule cursor goes to stay on a shown rule: where it is if
    /// that rule is shown, else on the first shown rule, else at the top.
    pub open spec fn kept_rule_index(self) -> usize {
        let shown = self.shown_rules();
        if self.rules@.len() == 0 || shown.len() == 0 {
            0
        } else if shown.contains(self.selected_rule_index) {
            self.selected_rule_index
        } else {
            shown[0]
        }
    }

    /// The shown rule after the one under the cursor, wrapping to the first;
    /// the second shown rule when the cursor is on no shown rule.
    pub open spec fn rule_after_cursor(self) -> usize {
        let shown = self.shown_rules();
        let p = index_of(shown, self.selected_rule_index);
        let cur = if p >= 0 {
            p
        } else {
            0
        };
        shown[(cur + 1) % (shown.len() as int)]
    }

    /// The shown rule before the one under the cursor, wrapping to the last;
    /// the one before the last when the cursor is on no shown rule.
    pub open spec fn rule_before_cursor(self) -> usize {
        let shown = self.shown_rules();
        let p = index_of(shown, self.selected_rule_index);
        let cur = if p >= 0 {
            p
        } else {
            shown.len() - 1
        };
        shown[if cur == 0 {
            shown.len() - 1
        } else {
            cur - 1
        }]
    }

    /// The state after `ensure_rule_selection`.
    pub open spec fn after_ensure_rule_selection(self) -> App {
        App { selected_rule_index: self.kept_rule_index(), ..self }
    }

    /// The state after `next_rule`.
    pub open spec fn after_next_rule(self) -> App {
        if self.shown_rules().len() == 0 {
            self
        } else {
            App { selected_rule_index: self.rule_after_cursor(), ..self }
        }
    }

    /// The state after `previous_rule`.
    pub open spec fn after_previous_rule(self) -> App {
        if self.shown_rules().len() == 0 {
            self
        } else {
            App { selected_rule_index: self.rule_before_cursor(), ..self }
        }
    }

    /// The positions of the rules the filter shows, ascending: all rules
    /// when the filter is empty, else those whose type, payload or target
    /// proxy text holds the filter, letter case aside.
    pub fn filtered_rule_indices(&self) -> (shown: Vec<usize>)
        ensures
            shown@ == self.shown_rules(),
            self.rule_filter@.len() == 0 ==> shown@ == Seq::new(
                self.rules@.len(),
                |i: int| i as usize,
            ),
    {
        filter_rules(&self.rules, &self.rule_filter)
    }

    /// Puts the rule cursor on a shown rule: it stays if its rule is shown,
    /// else goes to the first shown rule, or to the top when none is shown.
    pub fn ensure_rule_selection(&mut self)
        ensures
            *final(self) == old(self).after_ensure_rule_selection(),
            final(self).rule_cursor_ok(),
            old(self).wf_besides_rule_cursor() ==> final(self).wf(),
    {
        if self.rules.len() == 0 {
            self.selected_rule_index = 0;
            assert(self.shown_rules().len() == 0) by {
                lemma_matching_rules(self.rules@, self.rule_filter@, 0);
            }
            return;
        }
        let shown = self.filtered_rule_indices();
        if shown.len() == 0 {
            self.selected_rule_index = 0;
        } else {
            match position_of(&shown, self.selected_rule_index) {
                Some(_) => {},
                None => {
                    self.selected_rule_index = shown[0];
                },
            }
        }
    }

    /// Takes a new filter text into account: puts the rule cursor on a
    /// shown rule.
    pub fn apply_rule_filter_change(&mut self)
        ensures
            *final(self) == old(self).after_ensure_rule_selection(),
            final(self).rule_cursor_ok(),
            old(self).wf_besides_rule_cursor() ==> final(self).wf(),
    {
        self.ensure_rule_selection();
    }

    /// Empties the rule filter, which shows all rules, and puts the rule
    /// cursor on a shown rule.
    pub fn clear_rule_filter(&mut self)
        ensures
            filter_set_to(*old(self), *final(self), Seq::<char>::empty()),
            old(self).wf_besides_rule_cursor() ==> final(self).wf(),
    {
        self.rule_filter = String::new();
        self.ensure_rule_selection();
    }

    /// Removes the last character of the rule filter, if any, and puts the
    /// rule cursor on a shown rule.
    pub fn pop_rule_filter_char(&mut self)
        ensures
            filter_set_to(
                *old(self),
                *final(self),
                if old(self).rule_filter@.len() > 0 {
                    old(self).rule_filter@.drop_last()
                } else {
                    old(self).rule_filter@
                },
            ),
            old(self).wf_besides_rule_cursor() ==> final(self).wf(),
    {
        pop_char(&mut self.rule_filter);
        self.ensure_rule_selection();
    }

    /// Appends a character to the rule filter and puts the rule cursor on a
    /// shown rule.
    pub fn push_rule_filter_char(&mut self, c: char)
        ensures
            filter_set_to(*old(self), *final(self), old(self).rule_filter@.push(c)),
            old(self).wf_besides_rule_cursor() ==> final(self).wf(),
    {
        crate::text::push_char(&mut self.rule_filter, c);
        self.ensure_rule_selection();
    }

    /// Replaces the rule list with the controller's rules and puts the rule
    /// cursor on a shown rule.
    pub fn set_rules(&mut self, rules: Vec<Rule>)
        ensures
            *final(self) == (App { rules: rules, ..*old(self) }).after_ensure_rule_selection(),
            old(self).wf_besides_rule_cursor() ==> final(self).wf(),
    {
        self.rules = rules;
        self.ensure_rule_selection();
    }

    /// Moves the rule cursor to the next shown rule, from the last to the
    /// first; to the second shown rule when it is on no shown rule. Does
    /// nothing when no rule is shown.
    pub fn next_rule(&mut self)
        ensures
            *final(self) == old(self).after_next_rule(),
            old(self).wf() ==> final(self).wf(),
    {
        let shown = self.filtered_rule_indices();
        if shown.len() == 0 {
            return;
        }
        let cur = match position_of(&shown, self.selected_rule_index) {
            Some(p) => p,
            None => 0,
        };
        let next = (cur + 1) % shown.len();
        self.selected_rule_index = shown[next];
        assert(self.shown_rules()[next as int] == self.selected_rule_index);
    }

    /// Moves the rule cursor to the previous shown rule, from the first to
    /// the last; to the one before the last when it is on no shown rule.
    /// Does nothing when no rule is shown.
    pub fn previous_rule(&mut self)
        ensures
            *final(self) == old(self).after_previous_rule(),
            old(self).wf() ==> final(self).wf(),
    {
        let shown = self.filtered_rule_indices();
        if shown.len() == 0 {
            return;
        }
        let cur = match position_of(&shown, self.selected_rule_index) {
            Some(p) => p,
            None => shown.len() - 1,
        };
        let prev = if cur == 0 {
            shown.len() - 1
        } else {
            cur - 1
        };
        self.selected_rule_index = shown[prev];
        assert(self.shown_rules()[prev as int] == self.selected_rule_index);
    }
}

} // verus!
