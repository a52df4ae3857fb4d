//! Clipboard text-transform rules: a hot-reloadable, lock-protected set of
//! literal-prefix substitution rules, the pure logic of the clipboard loop
//! that applies them, the config-document loader that produces them, and the
//! model of the status-bar menu that toggles them.

pub use crate::config::{
    event_triggers_reload, load_rules_from_text, reload_into_store, ConfigError, EventKind,
};
pub use crate::mapping::{mapping_matches, str_is_prefix, Mapping, MappingState, SimpleMapping};
pub use crate::store::{RuleStore, StoreError};
pub use crate::transform::{apply_first_mapping, apply_mapping, find_first_match, MonitorError};
pub use crate::tray::{
    choice_of_state, escape_underscores, state_of_choice, MenuEntry, MonitorTray,
};

mod config;
mod mapping;
mod store;
mod transform;
mod tray;
