//! The rule filter: which rules a filter text selects.
use vstd::prelude::*;
use crate::model::Rule;
use crate::text::{is_infix, lowercase, to_lowercase, chars_of, contains_chars, push_char};

verus! {

/// The text a filter is matched against: type, payload and target proxy,
/// separated by single spaces.
pub open spec fn haystack(rule: Rule) -> Seq<char> {
    rule.rule_type@ + seq![' '] + rule.payload@ + seq![' '] + rule.proxy@
}

/// The rule is shown under the filter: the filter's lowercase form occurs
/// in the lowercase form of the rule's text (so an empty filter shows
/// every rule).
pub open spec fn rule_matches(rule: Rule, filter: Seq<char>) -> bool {
    is_infix(lowercase(filter), lowercase(haystack(rule)))
}

/// The positions, below `n`, of the rules that the filter shows, ascending.
pub open spec fn matching_rules(rules: Seq<Rule>, filter: Seq<char>, n: nat) -> Seq<usize>
    decreases n,
{
    if n == 0 {
        seq![]
    } else {
        let prev = matching_rules(rules, filter, (n - 1) as nat);
        if rule_matches(rules[n - 1], filter) {
            prev.push((n - 1) as usize)
        } else {
            prev
        }
    }
}

/// The positions that `matching_rules` gives are below `n`, ascend strictly,
/// and are exactly those of the rules that the filter shows.
pub proof fn lemma_matching_rules(rules: Seq<Rule>, filter: Seq<char>, n: nat)
    requires
        n <= rules.len(),
        n <= usize::MAX,
    ensures
        forall|i: int|
            0 <= i < matching_rules(rules, filter, n).len() ==> #[trigger] matching_rules(
                rules,
                filter,
                n,
            )[i] < n && rule_matches(rules[matching_rules(rules, filter, n)[i] as int], filter),
        forall|i: int, j: int|
            0 <= i < j < matching_rules(rules, filter, n).len() ==> matching_rules(rules, filter, n)[i]
                < matching_rules(rules, filter, n)[j],
        forall|k: int|
            0 <= k < n && rule_matches(rules[k], filter) ==> matching_rules(
                rules,
                filter,
                n,
            ).contains(k as usize),
        matching_rules(rules, filter, n).len() <= n,
    decreases n,
{
    if n > 0 {
        lemma_matching_rules(rules, filter, (n - 1) as nat);
        let prev = matching_rules(rules, filter, (n - 1) as nat);
        let cur = matching_rules(rules, filter, n);
        assert forall|k: int| 0 <= k < n && rule_matches(rules[k], filter) implies cur.contains(
            k as usize,
        ) by {
            if k < n - 1 {
                assert(prev.contains(k as usize));
                let i = choose|i: int| 0 <= i < prev.len() && prev[i] == k as usize;
                assert(cur[i] == k as usize);
            } else {
                assert(cur[cur.len() - 1] == k as usize);
            }
        }
    }
}

/// The text of a rule that the filter is matched against.
fn rule_text(rule: &Rule) -> (text: String)
    ensures
        text@ == haystack(*rule),
{
    let mut text = String::from_str(rule.rule_type.as_str());
    push_char(&mut text, ' ');
    text.append(rule.payload.as_str());
    push_char(&mut text, ' ');
    text.append(rule.proxy.as_str());
    text
}

/// The positions of the rules that the filter shows, ascending: all rules
/// when the filter is empty, else those whose type, payload or target
/// proxy text holds the filter, letter case aside.
pub fn filter_rules(rules: &Vec<Rule>, filter: &String) -> (shown: Vec<usize>)
    ensures
        shown@ == matching_rules(rules@, filter@, rules@.len()),
        filter@.len() == 0 ==> shown@ == Seq::new(rules@.len(), |i: int| i as usize),
{
    let empty = filter.as_str().is_empty();
    let lower = to_lowercase(filter.as_str());
    let needle = chars_of(lower.as_str());
    let mut shown: Vec<usize> = Vec::new();
    let mut i: usize = 0;
    while i < rules.len()
        invariant
            i <= rules@.len(),
            empty == (filter@.len() == 0),
            needle@ == lowercase(filter@),
            empty == (needle@.len() == 0),
            shown@ == matching_rules(rules@, filter@, i as nat),
            empty ==> shown@ == Seq::new(i as nat, |k: int| k as usize),
        decreases rules@.len() - i,
    {
        let keep = if empty {
            proof {
                crate::text::lemma_empty_is_infix(needle@, lowercase(haystack(rules@[i as int])));
            }
            true
        } else {
            let text = to_lowercase(rule_text(&rules[i]).as_str());
            let hay = chars_of(text.as_str());
            contains_chars(&hay, &needle)
        };
        if keep {
            shown.push(i);
        }
        i = i + 1;
        assert(empty ==> shown@ =~= Seq::new(i as nat, |k: int| k as usize));
    }
    shown
}

} // verus!
