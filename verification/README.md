# clash_tui

A terminal client for the Clash controller API: it lists the proxy groups
and their proxies with the last measured delays, switches a group's proxy,
pins groups to the top, runs delay tests in the background and shows the
rule list under a case-insensitive filter.

The state of the client and the rules it follows are in `src/`, written in
Verus and verified. Two standard-library calls (`String::push`,
`str::to_lowercase`) and the url crate's address encoding (through
`reqwest::Url`) stand behind trusted wrappers there:

- `model` — groups, proxies, rules, controller records, delay tests, config;
- `groups` — building groups from the controller's records, pinned names,
  the group order (pinned first, then by name);
- `rules` — which rules a filter shows;
- `state`, `rule_cursor`, `proxy_state`, `keys` — the client state, its
  invariant, and every operation on it down to the key map;
- `text`, `labels`, `api`, `view` — texts, labels, controller addresses
  (with the encoded delay-test address) and what each panel shows;
- `laws` — properties that relate several operations.

`app/` is the program around it: the terminal, HTTP requests, JSON and the
configuration file.

Keys: Tab cycles the focus over the group, proxy and rule panels (the page
follows the panel), h/l and the arrow keys switch between the group and
proxy lists, j/k move, Enter selects, `/` edits the rule filter, `c` or
Delete clears it, `p` pins a group, `d` tests delays, `r` refreshes, `?`
shows help, `gg`/`G` jump to the ends, `q` quits.
