use clipboard_transforms::{
    choice_of_state, escape_underscores, state_of_choice, Mapping, MappingState, MonitorTray,
    SimpleMapping,
};

fn rule(left: &str, right: &str, state: MappingState) -> Mapping {
    Mapping::Simple(SimpleMapping {
        left: left.to_string(),
        right: right.to_string(),
        state,
    })
}

#[test]
fn menu_shows_one_entry_per_rule() {
    let tray = MonitorTray::new(
        vec![
            rule("foo", "bar", MappingState::Disabled),
            rule("x", "y", MappingState::LeftToRight),
        ],
        "/tmp/config.json".to_string(),
    );
    let entries = tray.menu_entries();
    assert_eq!(entries.len(), 2);
    assert_eq!(entries[0].label, "foo \u{2194} bar");
    assert_eq!(entries[0].selected, 0);
    assert_eq!(entries[1].label, "x \u{2194} y");
    assert_eq!(entries[1].selected, 1);
}

#[test]
fn menu_labels_double_underscores() {
    let tray = MonitorTray::new(
        vec![rule("a_b", "c__d", MappingState::RightToLeft)],
        "/tmp/config.json".to_string(),
    );
    let entries = tray.menu_entries();
    assert_eq!(entries[0].label, "a__b \u{2194} c____d");
    assert_eq!(entries[0].selected, 2);
}

#[test]
fn update_mappings_swaps_the_snapshot() {
    let mut tray = MonitorTray::new(
        vec![rule("a", "b", MappingState::Disabled)],
        "/tmp/config.json".to_string(),
    );
    tray.update_mappings(vec![
        rule("c", "d", MappingState::Disabled),
        rule("e", "f", MappingState::Disabled),
    ]);
    assert_eq!(tray.menu_entries().len(), 2);
    assert_eq!(tray.config_path, "/tmp/config.json");
}

#[test]
fn escaping_doubles_every_underscore() {
    assert_eq!(escape_underscores("no marks"), "no marks");
    assert_eq!(escape_underscores("_"), "__");
    assert_eq!(escape_underscores("__"), "____");
    assert_eq!(escape_underscores("a_b_c"), "a__b__c");
    assert_eq!(escape_underscores(""), "");
}

#[test]
fn radio_positions_encode_states() {
    assert_eq!(choice_of_state(MappingState::Disabled), 0);
    assert_eq!(choice_of_state(MappingState::LeftToRight), 1);
    assert_eq!(choice_of_state(MappingState::RightToLeft), 2);
    for st in [
        MappingState::Disabled,
        MappingState::LeftToRight,
        MappingState::RightToLeft,
    ] {
        assert_eq!(state_of_choice(choice_of_state(st)), Some(st));
    }
    assert_eq!(state_of_choice(3), None);
}
