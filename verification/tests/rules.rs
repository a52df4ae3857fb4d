use clipboard_transforms::{mapping_matches, str_is_prefix, Mapping, MappingState, SimpleMapping};

fn simple(left: &str, right: &str, state: MappingState) -> SimpleMapping {
    SimpleMapping { left: left.to_string(), right: right.to_string(), state }
}

#[test]
fn source_dest_absent_when_disabled() {
    let m = simple("foo", "bar", MappingState::Disabled);
    assert!(m.get_source_str().is_none());
    assert!(m.get_dest_str().is_none());
}

#[test]
fn source_dest_left_to_right() {
    let m = simple("foo", "bar", MappingState::LeftToRight);
    assert_eq!(m.get_source_str(), Some("foo"));
    assert_eq!(m.get_dest_str(), Some("bar"));
}

#[test]
fn source_dest_right_to_left() {
    let m = simple("foo", "bar", MappingState::RightToLeft);
    assert_eq!(m.get_source_str(), Some("bar"));
    assert_eq!(m.get_dest_str(), Some("foo"));
}

#[test]
fn source_dest_are_the_two_fragments() {
    for state in [MappingState::LeftToRight, MappingState::RightToLeft] {
        let m = simple("foo", "bar", state);
        let src = m.get_source_str().unwrap();
        let dst = m.get_dest_str().unwrap();
        assert!(src == "foo" && dst == "bar" || src == "bar" && dst == "foo");
        assert_ne!(src, dst);
    }
}

#[test]
fn default_state_is_disabled() {
    assert_eq!(MappingState::default(), MappingState::Disabled);
}

#[test]
fn match_is_anchored_at_start() {
    let m = Mapping::Simple(simple("bc", "x", MappingState::LeftToRight));
    assert!(!mapping_matches(&m, "abc"));
    assert!(mapping_matches(&m, "bca"));
    assert!(mapping_matches(&m, "bc"));
}

#[test]
fn disabled_rule_never_matches() {
    let m = Mapping::Simple(simple("a", "b", MappingState::Disabled));
    assert!(!mapping_matches(&m, "abc"));
}

#[test]
fn prefix_check_is_anchored_and_exact() {
    assert!(str_is_prefix("", "abc"));
    assert!(str_is_prefix("ab", "abc"));
    assert!(str_is_prefix("abc", "abc"));
    assert!(!str_is_prefix("abc", "ab"));
    assert!(!str_is_prefix("b", "abc"));
}

#[test]
fn right_to_left_matches_right_fragment() {
    let m = Mapping::Simple(simple("foo", "bar", MappingState::RightToLeft));
    assert!(mapping_matches(&m, "barbaz"));
    assert!(!mapping_matches(&m, "foobaz"));
}
