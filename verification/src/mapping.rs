//! The mapping model: a rule is a pair of alternative text fragments plus a
//! tri-state activation direction, which determines which fragment is matched
//! against the clipboard text and which one replaces it.

use vstd::prelude::*;

verus! {

/// Direction selector of a rule: which fragment is matched (the source) and
/// which one replaces it (the destination). `Disabled` rules match nothing.
#[derive(Clone, Copy, PartialEq, Eq, Structural, Debug)]
pub enum MappingState {
    Disabled,
    LeftToRight,
    RightToLeft,
}

impl Default for MappingState {
    /// A fresh rule starts out disabled; activation is never read from the
    /// config document.
    fn default() -> (r: MappingState)
        ensures
            r == MappingState::Disabled,
    {
        MappingState::Disabled
    }
}

/// One literal-prefix substitution rule: the two alternative fragments are
/// immutable after load, the activation direction is toggled live.
#[derive(Clone, Debug)]
pub struct SimpleMapping {
    pub left: String,
    pub right: String,
    pub state: MappingState,
}

/// A rule of the closed set of rule kinds; currently the only kind is the
/// literal-prefix substitution. An unrecognized kind in a config document is
/// a parse failure, never a silent skip.
#[derive(Clone, Debug)]
pub enum Mapping {
    Simple(SimpleMapping),
}

impl SimpleMapping {
    /// The fragment matched against the clipboard text, by direction; absent
    /// when the rule is disabled.
    pub open spec fn spec_source(&self) -> Option<Seq<char>> {
        match self.state {
            MappingState::Disabled => None,
            MappingState::LeftToRight => Some(self.left@),
            MappingState::RightToLeft => Some(self.right@),
        }
    }

    /// The fragment that replaces the matched one, by direction; absent when
    /// the rule is disabled.
    pub open spec fn spec_dest(&self) -> Option<Seq<char>> {
        match self.state {
            MappingState::Disabled => None,
            MappingState::LeftToRight => Some(self.right@),
            MappingState::RightToLeft => Some(self.left@),
        }
    }

    pub fn get_source_str(&self) -> (r: Option<&str>)
        ensures
            r is Some <==> self.spec_source() is Some,
            r is Some ==> r.unwrap()@ == self.spec_source().unwrap(),
    {
        match self.state {
            MappingState::LeftToRight => Some(self.left.as_str()),
            MappingState::RightToLeft => Some(self.right.as_str()),
            MappingState::Disabled => None,
        }
    }

    pub fn get_dest_str(&self) -> (r: Option<&str>)
        ensures
            r is Some <==> self.spec_dest() is Some,
            r is Some ==> r.unwrap()@ == self.spec_dest().unwrap(),
    {
        match self.state {
            MappingState::LeftToRight => Some(self.right.as_str()),
            MappingState::RightToLeft => Some(self.left.as_str()),
            MappingState::Disabled => None,
        }
    }
}

/// Law: a rule's source and destination are both present exactly when the
/// rule is not disabled, and then they are the two configured fragments,
/// oriented by the activation direction.
pub proof fn lemma_source_destination_paired(m: SimpleMapping)
    ensures
        m.spec_source() is Some <==> m.state != MappingState::Disabled,
        m.spec_dest() is Some <==> m.state != MappingState::Disabled,
        m.state == MappingState::LeftToRight ==> m.spec_source() == Some(m.left@)
            && m.spec_dest() == Some(m.right@),
        m.state == MappingState::RightToLeft ==> m.spec_source() == Some(m.right@)
            && m.spec_dest() == Some(m.left@),
{
}

/// True when `p` occurs at the very start of `s` (anchored at position 0).
pub open spec fn is_text_prefix(p: Seq<char>, s: Seq<char>) -> bool {
    p.len() <= s.len() && p == s.subrange(0, p.len() as int)
}

/// True when the rule is active and its source fragment is a prefix of `s`.
pub open spec fn spec_mapping_matches(m: &Mapping, s: Seq<char>) -> bool {
    match *m {
        Mapping::Simple(sm) => match sm.spec_source() {
            None => false,
            Some(src) => is_text_prefix(src, s),
        },
    }
}

/// True when `p@` is a prefix of `s@`.
pub fn str_is_prefix(p: &str, s: &str) -> (r: bool)
    ensures
        r == is_text_prefix(p@, s@),
{
    let p_len = p.unicode_len();
    let s_len = s.unicode_len();
    if p_len > s_len {
        return false;
    }
    let mut i: usize = 0;
    while i < p_len
        invariant
            i <= p_len,
            p_len == p@.len(),
            s_len == s@.len(),
            p_len <= s_len,
            forall|j: int| 0 <= j < i ==> p@[j] == s@[j],
        decreases p_len - i,
    {
        if p.get_char(i) != s.get_char(i) {
            assert(!is_text_prefix(p@, s@)) by {
                if p@ == s@.subrange(0, p@.len() as int) {
                    assert(p@[i as int] == s@.subrange(0, p@.len() as int)[i as int]);
                }
            }
            return false;
        }
        i += 1;
    }
    assert(p@ =~= s@.subrange(0, p@.len() as int));
    true
}

/// Whether a rule applies to the given clipboard text: its source must be
/// present and a prefix of the text.
pub fn mapping_matches(m: &Mapping, s: &str) -> (r: bool)
    ensures
        r == spec_mapping_matches(m, s@),
{
    match m {
        Mapping::Simple(sm) => match sm.get_source_str() {
            None => false,
            Some(src) => str_is_prefix(src, s),
        },
    }
}

} // verus!
