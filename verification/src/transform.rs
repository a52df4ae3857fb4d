//! The pure core of the clipboard transform loop: find the first rule whose
//! source is a prefix of the clipboard text and substitute exactly its first
//! occurrence. The blocking clipboard reads and writes around this live in
//! the embedding program.

use vstd::prelude::*;

use crate::mapping::{
    is_text_prefix, spec_mapping_matches, Mapping, MappingState, SimpleMapping,
    mapping_matches,
};

verus! {

/// Failures of the clipboard loop: creating the clipboard handle, a
/// transport-level clipboard error, or non-UTF-8 clipboard content. All are
/// recoverable: the loop is restarted, never the process ended.
#[derive(Clone, Copy, PartialEq, Eq, Structural, Debug)]
pub enum MonitorError {
    ClipboardCreation,
    Clipboard,
    ClipboardUtf8,
}

/// The text after substituting the source prefix: the destination fragment
/// followed by the text beyond the matched prefix. Since the match is
/// anchored at position 0, replacing the first occurrence of the source is
/// exactly this — one substitution, never a global replace.
pub open spec fn spec_apply(src: Seq<char>, dst: Seq<char>, text: Seq<char>) -> Seq<char>
    recommends
        src.len() <= text.len(),
{
    dst + text.subrange(src.len() as int, text.len() as int)
}

/// The text a matching rule rewrites `text` to.
pub open spec fn spec_transformed(m: Mapping, text: Seq<char>) -> Seq<char>
    recommends
        spec_mapping_matches(&m, text),
{
    spec_apply(m->0.spec_source().unwrap(), m->0.spec_dest().unwrap(), text)
}

/// True when `i` is the position of the first rule that matches `text`:
/// rule `i` matches and no rule before it does (first-match wins, not
/// best-match).
pub open spec fn first_match_at(rules: Seq<Mapping>, text: Seq<char>, i: int) -> bool {
    &&& 0 <= i < rules.len()
    &&& spec_mapping_matches(&rules[i], text)
    &&& forall|j: int| 0 <= j < i ==> !spec_mapping_matches(&rules[j], text)
}

/// The position of the first rule whose source is a prefix of `text`, or
/// `None` when no active rule matches.
pub fn find_first_match(rules: &Vec<Mapping>, text: &str) -> (r: Option<usize>)
    ensures
        r is None <==> (forall|j: int|
            0 <= j < rules@.len() ==> !spec_mapping_matches(&rules@[j], text@)),
        r matches Some(i) ==> first_match_at(rules@, text@, i as int),
{
    let mut i: usize = 0;
    while i < rules.len()
        invariant
            i <= rules@.len(),
            forall|j: int| 0 <= j < i ==> !spec_mapping_matches(&rules@[j], text@),
        decreases rules@.len() - i,
    {
        if mapping_matches(&rules[i], text) {
            return Some(i);
        }
        i += 1;
    }
    None
}

/// The substitution for one matching rule. The source is required to be
/// present and a prefix of the text, so the result is the destination
/// followed by the remainder of the text after the source.
pub fn apply_mapping(sm: &SimpleMapping, text: &str) -> (r: String)
    requires
        sm.spec_source() is Some,
        is_text_prefix(sm.spec_source().unwrap(), text@),
    ensures
        r@ == spec_apply(sm.spec_source().unwrap(), sm.spec_dest().unwrap(), text@),
{
    let (src, dst): (&str, &str) = match sm.state {
        MappingState::LeftToRight => (sm.left.as_str(), sm.right.as_str()),
        MappingState::RightToLeft => (sm.right.as_str(), sm.left.as_str()),
        MappingState::Disabled => {
            proof {
                assert(false);
            }
            (sm.left.as_str(), sm.right.as_str())
        },
    };
    let src_len = src.unicode_len();
    let text_len = text.unicode_len();
    let rest = text.substring_char(src_len, text_len);
    let mut out = String::from_str(dst);
    out.append(rest);
    out
}

/// What one iteration of the transform loop computes from the current rule
/// snapshot and the clipboard text: `None` exactly when no active rule's
/// source is a prefix of the text — the clipboard is then left unchanged —
/// and otherwise the text rewritten by the first matching rule, with exactly
/// one substitution.
pub fn apply_first_mapping(rules: &Vec<Mapping>, text: &str) -> (r: Option<String>)
    ensures
        r is None <==> (forall|j: int|
            0 <= j < rules@.len() ==> !spec_mapping_matches(&rules@[j], text@)),
        r matches Some(out) ==> exists|i: int|
            {
                &&& #[trigger] first_match_at(rules@, text@, i)
                &&& out@ == spec_transformed(rules@[i], text@)
            },
{
    match find_first_match(rules, text) {
        None => None,
        Some(i) => {
            let ghost gi: int = i as int;
            match &rules[i] {
                Mapping::Simple(sm) => {
                    let out = apply_mapping(sm, text);
                    proof {
                        assert(first_match_at(rules@, text@, gi));
                        assert(out@ == spec_transformed(rules@[gi], text@));
                    }
                    Some(out)
                },
            }
        },
    }
}

} // verus!
