//! Verified state and rules of a terminal client for the Clash controller
//! API: proxy groups and their ordering, the rule filter, the cursors and
//! pages, the key map, and the texts and addresses the client builds.
pub mod text;
pub mod labels;
pub mod api;
pub mod model;
pub mod groups;
pub mod rules;
pub mod state;
pub mod rule_cursor;
pub mod proxy_state;
pub mod keys;
pub mod view;
pub mod laws;
