//! The status-bar menu model: what the tray renders for a rule snapshot — one
//! submenu per rule with an escaped label and a three-way exclusive choice
//! reflecting its activation — and the encoding between radio positions and
//! activation states. The host UI framework around this lives in the
//! embedding program; on selection it feeds the decoded state into the rule
//! store's `mutate_one`.

use vstd::prelude::*;

use crate::mapping::{Mapping, MappingState};

verus! {

/// Relies on String::push: appends exactly the one character.
pub assume_specification[ String::push ](s: &mut String, ch: char)
    ensures
        final(s)@ == old(s)@.push(ch),
;

/// A label fragment with every underscore doubled, so that the menu host
/// does not read a single underscore as an accelerator marker.
pub open spec fn spec_escape_underscores(s: Seq<char>) -> Seq<char>
    decreases s.len(),
{
    if s.len() == 0 {
        Seq::empty()
    } else {
        spec_escape_underscores(s.drop_last()) + (if s.last() == '_' {
            seq!['_', '_']
        } else {
            seq![s.last()]
        })
    }
}

/// Double every underscore of `s`.
pub fn escape_underscores(s: &str) -> (r: String)
    ensures
        r@ == spec_escape_underscores(s@),
{
    let len = s.unicode_len();
    let mut out = String::new();
    let mut i: usize = 0;
    while i < len
        invariant
            i <= len,
            len == s@.len(),
            out@ == spec_escape_underscores(s@.take(i as int)),
        decreases len - i,
    {
        let c = s.get_char(i);
        out.push(c);
        if c == '_' {
            out.push('_');
        }
        proof {
            let upto = s@.take(i as int + 1);
            assert(upto.drop_last() =~= s@.take(i as int));
            assert(upto.last() == s@[i as int]);
            if c == '_' {
                assert(out@ =~= spec_escape_underscores(s@.take(i as int)) + seq!['_', '_']);
            } else {
                assert(out@ =~= spec_escape_underscores(s@.take(i as int)) + seq![c]);
            }
        }
        i += 1;
    }
    proof {
        assert(s@.take(len as int) =~= s@);
    }
    out
}

/// The label the menu shows for a rule: both fragments, underscores doubled,
/// joined by an arrow.
pub open spec fn spec_label(m: Mapping) -> Seq<char> {
    spec_escape_underscores(m->0.left@) + " \u{2194} "@ + spec_escape_underscores(m->0.right@)
}

/// The radio position the menu shows for an activation state.
pub open spec fn spec_choice_of_state(st: MappingState) -> int {
    match st {
        MappingState::Disabled => 0,
        MappingState::LeftToRight => 1,
        MappingState::RightToLeft => 2,
    }
}

/// The activation state a radio position selects; positions beyond the three
/// radio entries select nothing.
pub open spec fn spec_state_of_choice(choice: int) -> Option<MappingState> {
    if choice == 0 {
        Some(MappingState::Disabled)
    } else if choice == 1 {
        Some(MappingState::LeftToRight)
    } else if choice == 2 {
        Some(MappingState::RightToLeft)
    } else {
        None
    }
}

pub fn choice_of_state(st: MappingState) -> (r: usize)
    ensures
        r == spec_choice_of_state(st),
{
    match st {
        MappingState::Disabled => 0,
        MappingState::LeftToRight => 1,
        MappingState::RightToLeft => 2,
    }
}

pub fn state_of_choice(choice: usize) -> (r: Option<MappingState>)
    ensures
        r == spec_state_of_choice(choice as int),
{
    if choice == 0 {
        Some(MappingState::Disabled)
    } else if choice == 1 {
        Some(MappingState::LeftToRight)
    } else if choice == 2 {
        Some(MappingState::RightToLeft)
    } else {
        None
    }
}

/// Law: the radio encoding is lossless — decoding the position shown for an
/// activation state yields that state back.
pub proof fn lemma_choice_round_trip(st: MappingState)
    ensures
        spec_state_of_choice(spec_choice_of_state(st)) == Some(st),
{
}

/// One rule's submenu: its label and the selected radio position.
#[derive(Clone, Debug)]
pub struct MenuEntry {
    pub label: String,
    pub selected: usize,
}

/// The tray model: the data the status-bar menu is rendered from — the rule
/// snapshot and the config file path behind the "open config" entry.
#[derive(Clone, Debug)]
pub struct MonitorTray {
    pub config_path: String,
    pub mappings: Vec<Mapping>,
}

impl MonitorTray {
    pub fn new(mappings: Vec<Mapping>, config_path: String) -> (r: MonitorTray)
        ensures
            r.mappings == mappings,
            r.config_path == config_path,
    {
        MonitorTray { config_path, mappings }
    }

    /// Point the tray at a new rule snapshot; rendered on the next redraw,
    /// which the watcher forces after every successful reload.
    pub fn update_mappings(&mut self, mappings: Vec<Mapping>)
        ensures
            final(self).mappings == mappings,
            final(self).config_path == old(self).config_path,
    {
        self.mappings = mappings;
    }

    /// The menu the tray renders: one entry per rule, in order, its label the
    /// escaped fragments and its selected position the rule's activation.
    pub fn menu_entries(&self) -> (r: Vec<MenuEntry>)
        ensures
            r@.len() == self.mappings@.len(),
            forall|i: int|
                0 <= i < r@.len() ==> {
                    &&& (#[trigger] r@[i]).label@ == spec_label(self.mappings@[i])
                    &&& r@[i].selected == spec_choice_of_state(self.mappings@[i]->0.state)
                },
    {
        let mut out: Vec<MenuEntry> = Vec::new();
        let mut i: usize = 0;
        while i < self.mappings.len()
            invariant
                i <= self.mappings@.len(),
                out@.len() == i,
                forall|j: int|
                    0 <= j < i ==> {
                        &&& (#[trigger] out@[j]).label@ == spec_label(self.mappings@[j])
                        &&& out@[j].selected == spec_choice_of_state(self.mappings@[j]->0.state)
                    },
            decreases self.mappings@.len() - i,
        {
            let entry = match &self.mappings[i] {
                Mapping::Simple(sm) => {
                    let mut label = escape_underscores(sm.left.as_str());
                    label.append(" \u{2194} ");
                    let escaped_right = escape_underscores(sm.right.as_str());
                    label.append(escaped_right.as_str());
                    MenuEntry { label, selected: choice_of_state(sm.state) }
                },
            };
            out.push(entry);
            i += 1;
        }
        out
    }
}

} // verus!
