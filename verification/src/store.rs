//! The rule store: the single owner of the current rule set. The embedding
//! program places a value of this type behind one mutual-exclusion lock and
//! shares it between the clipboard loop, the config watcher and the menu
//! callbacks; each operation here is one critical section's worth of work, so
//! under the lock the operations are totally ordered and no reader ever sees
//! a partially updated set.

use vstd::prelude::*;

use crate::mapping::{Mapping, MappingState, SimpleMapping};

verus! {

/// Error of `mutate_one`: the index names no rule. The index comes from an
/// external UI component and the set may have been concurrently replaced, so
/// this is handled defensively, never a crash.
#[derive(Clone, Copy, PartialEq, Eq, Structural, Debug)]
pub enum StoreError {
    IndexOutOfBounds,
}

/// The rule at `i` with its activation replaced and its fragments kept.
pub open spec fn with_state(m: Mapping, state: MappingState) -> Mapping {
    match m {
        Mapping::Simple(sm) => Mapping::Simple(
            SimpleMapping { left: sm.left, right: sm.right, state },
        ),
    }
}

/// The configured fragment pairs of a rule set, which only a whole-set
/// replacement may change.
pub open spec fn fragments_of(rules: Seq<Mapping>) -> Seq<(Seq<char>, Seq<char>)> {
    rules.map(|i: int, m: Mapping| (m->0.left@, m->0.right@))
}

/// True when every rule of the set is disabled, as in a freshly loaded set.
pub open spec fn all_disabled(rules: Seq<Mapping>) -> bool {
    forall|i: int| 0 <= i < rules.len() ==> (#[trigger] rules[i])->0.state == MappingState::Disabled
}

/// The ordered collection of rules currently in effect.
pub struct RuleStore {
    rules: Vec<Mapping>,
}

impl View for RuleStore {
    type V = Seq<Mapping>;

    closed spec fn view(&self) -> Seq<Mapping> {
        self.rules@
    }
}

impl RuleStore {
    pub fn new(rules: Vec<Mapping>) -> (r: RuleStore)
        ensures
            r@ == rules@,
    {
        RuleStore { rules }
    }

    /// Read snapshot: a view of the current rule set, usable for the scope of
    /// the lock that guards the store; it is never to be held across a
    /// blocking clipboard or filesystem call.
    pub fn read(&self) -> (r: &Vec<Mapping>)
        ensures
            r@ == self@,
    {
        &self.rules
    }

    /// Atomically swap the entire rule set; all prior activation
    /// customization is discarded with the old set.
    pub fn replace(&mut self, new_rules: Vec<Mapping>)
        ensures
            final(self)@ == new_rules@,
    {
        self.rules = new_rules;
    }

    /// Set the activation of the rule at `index`, leaving its fragments and
    /// every other rule unchanged; `IndexOutOfBounds` — and no change at all —
    /// when the index names no rule.
    pub fn mutate_one(&mut self, index: usize, state: MappingState) -> (r: Result<
        (),
        StoreError,
    >)
        ensures
            index < old(self)@.len() ==> r is Ok && final(self)@ == old(self)@.update(
                index as int,
                with_state(old(self)@[index as int], state),
            ),
            index >= old(self)@.len() ==> r == Err::<(), StoreError>(StoreError::IndexOutOfBounds)
                && final(self)@ == old(self)@,
    {
        if index >= self.rules.len() {
            return Err(StoreError::IndexOutOfBounds);
        }
        let m = &mut self.rules[index];
        match m {
            Mapping::Simple(sm) => {
                sm.state = state;
            },
        }
        Ok(())
    }
}

/// One operation on the rule store, in the total order given by its lock.
pub enum StoreOp {
    Replace(Seq<Mapping>),
    MutateOne(int, MappingState),
}

/// The rule set after one store operation: `replace` installs the new set
/// whole; `mutate_one` retouches one activation, or does nothing on a stale
/// index.
pub open spec fn apply_op(rules: Seq<Mapping>, op: StoreOp) -> Seq<Mapping> {
    match op {
        StoreOp::Replace(new_rules) => new_rules,
        StoreOp::MutateOne(i, st) => if 0 <= i < rules.len() {
            rules.update(i, with_state(rules[i], st))
        } else {
            rules
        },
    }
}

/// The rule set after a serialized sequence of store operations.
pub open spec fn apply_ops(rules: Seq<Mapping>, ops: Seq<StoreOp>) -> Seq<Mapping>
    decreases ops.len(),
{
    if ops.len() == 0 {
        rules
    } else {
        apply_ops(apply_op(rules, ops[0]), ops.drop_first())
    }
}

/// A mutation never changes the shape of the set: the fragment pairs stay.
proof fn lemma_mutate_keeps_fragments(rules: Seq<Mapping>, i: int, st: MappingState)
    ensures
        fragments_of(apply_op(rules, StoreOp::MutateOne(i, st))) == fragments_of(rules),
{
    let mutated = apply_op(rules, StoreOp::MutateOne(i, st));
    assert(fragments_of(mutated) =~= fragments_of(rules));
}

/// Splitting a serialized run of operations at any point changes nothing:
/// the tail applies to the state the head produced.
proof fn lemma_apply_ops_split(rules: Seq<Mapping>, ops: Seq<StoreOp>, k: int)
    requires
        0 <= k <= ops.len(),
    ensures
        apply_ops(rules, ops) == apply_ops(apply_ops(rules, ops.take(k)), ops.skip(k)),
    decreases k,
{
    if k == 0 {
        assert(ops.take(0) =~= Seq::<StoreOp>::empty());
        assert(ops.skip(0) =~= ops);
    } else {
        lemma_apply_ops_split(apply_op(rules, ops[0]), ops.drop_first(), k - 1);
        assert(ops.drop_first().take(k - 1) =~= ops.take(k).drop_first());
        assert(ops.drop_first().skip(k - 1) =~= ops.skip(k));
        assert(apply_ops(rules, ops.take(k)) == apply_ops(
            apply_op(rules, ops.take(k)[0]),
            ops.take(k).drop_first(),
        ));
    }
}

/// A run of mutations alone keeps the fragment pairs of the set.
proof fn lemma_mutations_keep_fragments(rules: Seq<Mapping>, ops: Seq<StoreOp>)
    requires
        forall|j: int| 0 <= j < ops.len() ==> ops[j] is MutateOne,
    ensures
        fragments_of(apply_ops(rules, ops)) == fragments_of(rules),
    decreases ops.len(),
{
    if ops.len() > 0 {
        let next = apply_op(rules, ops[0]);
        lemma_mutate_keeps_fragments(rules, ops[0]->MutateOne_0, ops[0]->MutateOne_1);
        lemma_mutations_keep_fragments(next, ops.drop_first());
    }
}

/// Law: under the store's total ordering, any serialized interleaving of
/// `mutate_one` and `replace` calls leaves the store consistent. If the
/// operation at `k` is the last `replace`, the final set carries exactly the
/// fragment pairs that this `replace` installed — in particular its length —
/// whatever mutations ran before, between or after.
pub proof fn lemma_serialized_ops_consistent(rules: Seq<Mapping>, ops: Seq<StoreOp>, k: int)
    requires
        0 <= k < ops.len(),
        ops[k] is Replace,
        forall|j: int| k < j < ops.len() ==> ops[j] is MutateOne,
    ensures
        fragments_of(apply_ops(rules, ops)) == fragments_of(ops[k]->Replace_0),
        apply_ops(rules, ops).len() == ops[k]->Replace_0.len(),
{
    lemma_apply_ops_split(rules, ops, k + 1);
    let head = apply_ops(rules, ops.take(k + 1));
    lemma_apply_ops_split(rules, ops.take(k + 1), k);
    let upto = apply_ops(rules, ops.take(k + 1).take(k));
    let single = ops.take(k + 1).skip(k);
    assert(single =~= seq![ops[k]]);
    assert(single.len() == 1 && single[0] == ops[k]);
    assert(apply_ops(upto, single) == apply_op(upto, ops[k])) by {
        assert(single.drop_first() =~= Seq::<StoreOp>::empty());
        assert(apply_ops(upto, single) == apply_ops(apply_op(upto, single[0]), single.drop_first()));
        assert(apply_ops(apply_op(upto, ops[k]), Seq::<StoreOp>::empty()) == apply_op(upto, ops[k]));
    }
    assert(head == ops[k]->Replace_0);
    lemma_mutations_keep_fragments(head, ops.skip(k + 1));
    assert(fragments_of(apply_ops(rules, ops)).len() == apply_ops(rules, ops).len());
    assert(fragments_of(ops[k]->Replace_0).len() == ops[k]->Replace_0.len());
}

/// Law: a reload discards activation state. After any mutation of one rule's
/// activation, replacing the set with a freshly loaded one — whose rules all
/// start disabled — leaves exactly the fresh set, every rule disabled, even
/// when the fresh set carries the same fragments as before.
pub proof fn lemma_reload_resets_activation(
    rules: Seq<Mapping>,
    i: int,
    st: MappingState,
    fresh: Seq<Mapping>,
)
    requires
        all_disabled(fresh),
    ensures
        apply_ops(rules, seq![StoreOp::MutateOne(i, st), StoreOp::Replace(fresh)]) == fresh,
        all_disabled(apply_ops(rules, seq![StoreOp::MutateOne(i, st), StoreOp::Replace(fresh)])),
{
    let ops = seq![StoreOp::MutateOne(i, st), StoreOp::Replace(fresh)];
    assert(ops.len() == 2 && ops[0] == StoreOp::MutateOne(i, st) && ops[1] == StoreOp::Replace(
        fresh,
    ));
    let tail = ops.drop_first();
    assert(tail.len() == 1 && tail[0] == StoreOp::Replace(fresh));
    let s1 = apply_op(rules, ops[0]);
    assert(apply_ops(rules, ops) == apply_ops(s1, tail));
    assert(apply_ops(s1, tail) == apply_ops(fresh, tail.drop_first()));
    assert(tail.drop_first() =~= Seq::<StoreOp>::empty());
    assert(apply_ops(fresh, tail.drop_first()) == fresh);
}

} // verus!
