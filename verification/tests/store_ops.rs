use clipboard_transforms::{
    apply_first_mapping, load_rules_from_text, Mapping, MappingState, RuleStore, SimpleMapping,
    StoreError,
};

fn rule(left: &str, right: &str) -> Mapping {
    Mapping::Simple(SimpleMapping {
        left: left.to_string(),
        right: right.to_string(),
        state: MappingState::Disabled,
    })
}

fn rule_set(n: usize) -> Vec<Mapping> {
    (0..n).map(|i| rule(&format!("l{}", i), &format!("r{}", i))).collect()
}

fn state_at(store: &RuleStore, i: usize) -> MappingState {
    match &store.read()[i] {
        Mapping::Simple(sm) => sm.state,
    }
}

#[test]
fn mutate_one_sets_only_that_rule() {
    let mut store = RuleStore::new(rule_set(3));
    store.mutate_one(1, MappingState::LeftToRight).unwrap();
    assert_eq!(state_at(&store, 0), MappingState::Disabled);
    assert_eq!(state_at(&store, 1), MappingState::LeftToRight);
    assert_eq!(state_at(&store, 2), MappingState::Disabled);
    match &store.read()[1] {
        Mapping::Simple(sm) => {
            assert_eq!(sm.left, "l1");
            assert_eq!(sm.right, "r1");
        },
    }
}

#[test]
fn mutate_one_stale_index_is_an_error() {
    let mut store = RuleStore::new(rule_set(2));
    let r = store.mutate_one(2, MappingState::LeftToRight);
    assert_eq!(r.unwrap_err(), StoreError::IndexOutOfBounds);
    assert_eq!(store.read().len(), 2);
    assert_eq!(state_at(&store, 0), MappingState::Disabled);
    assert_eq!(state_at(&store, 1), MappingState::Disabled);
}

#[test]
fn replace_swaps_the_whole_set() {
    let mut store = RuleStore::new(rule_set(2));
    store.mutate_one(0, MappingState::RightToLeft).unwrap();
    store.replace(rule_set(5));
    assert_eq!(store.read().len(), 5);
    for i in 0..5 {
        assert_eq!(state_at(&store, i), MappingState::Disabled);
    }
}

#[test]
fn hot_reload_resets_activation() {
    let doc = r#"[{"type":"simple","left":"foo","right":"bar"}]"#;
    let mut store = RuleStore::new(load_rules_from_text(doc).unwrap());
    store.mutate_one(0, MappingState::LeftToRight).unwrap();
    assert_eq!(state_at(&store, 0), MappingState::LeftToRight);
    // The config file is rewritten with an unchanged rule list and reloaded.
    store.replace(load_rules_from_text(doc).unwrap());
    assert_eq!(state_at(&store, 0), MappingState::Disabled);
    match &store.read()[0] {
        Mapping::Simple(sm) => {
            assert_eq!(sm.left, "foo");
            assert_eq!(sm.right, "bar");
        },
    }
}

#[test]
fn interleaved_mutations_and_replacements_stay_consistent() {
    // 100 mutate_one calls on distinct valid indices, interleaved with 10
    // replace calls, in one of the total orders the store's lock admits.
    let mut store = RuleStore::new(rule_set(100));
    let mut last_replace_len = 0;
    for round in 0..10 {
        for i in 0..10 {
            let idx = round * 10 + i;
            let _ = store.mutate_one(idx, MappingState::LeftToRight);
        }
        last_replace_len = 100 - round;
        store.replace(rule_set(last_replace_len));
    }
    assert_eq!(store.read().len(), last_replace_len);
    for (i, m) in store.read().iter().enumerate() {
        match m {
            Mapping::Simple(sm) => {
                assert_eq!(sm.left, format!("l{}", i));
                assert_eq!(sm.right, format!("r{}", i));
            },
        }
    }
}

#[test]
fn end_to_end_transform() {
    let doc = r#"[{"type":"simple","left":"foo","right":"bar"}]"#;
    let mut store = RuleStore::new(load_rules_from_text(doc).unwrap());
    store.mutate_one(0, MappingState::LeftToRight).unwrap();
    let transformed = apply_first_mapping(store.read(), "foobaz");
    assert_eq!(transformed.unwrap(), "barbaz");
}
