//! The config loader and the watcher's decision logic. A config document is
//! a JSON array of tagged records; deserializing the text into records is the
//! work of an outside crate, behind one trusted wrapper, and everything after
//! that — recognizing the one known tag, reading the two fragments, rejecting
//! anything else — is verified here. The blocking filesystem-event receive
//! and the file read live in the embedding program; the decision which events
//! trigger a reload is taken here.

use vstd::prelude::*;

use crate::mapping::{Mapping, MappingState, SimpleMapping};
use crate::store::{all_disabled, fragments_of, RuleStore};

verus! {

/// Failures of config handling: the file unreadable (`Io`), a malformed or
/// unrecognized-tag document (`Parse`), a config path with no parent
/// directory (`NoParentDir`), the observation mechanism refusing to install
/// (`Watch`), or the event channel closing (`Recv`).
#[derive(Clone, Copy, PartialEq, Eq, Structural, Debug)]
pub enum ConfigError {
    Io,
    Parse,
    NoParentDir,
    Watch,
    Recv,
}

/// A member value of a document record as the loader reads it: a text value,
/// or a value of some other shape — tolerated in members the loader does not
/// read, rejected in the ones it does.
#[derive(Clone, Debug)]
pub enum FieldValue {
    Text(String),
    Other,
}

/// Spec-level image of a `FieldValue`.
pub enum FieldView {
    Text(Seq<char>),
    Other,
}

impl View for FieldValue {
    type V = FieldView;

    open spec fn view(&self) -> FieldView {
        match self {
            FieldValue::Text(s) => FieldView::Text(s@),
            FieldValue::Other => FieldView::Other,
        }
    }
}

/// One record of the config document: its members, each a key and a value.
#[derive(Clone, Debug)]
pub struct Record {
    pub fields: Vec<(String, FieldValue)>,
}

/// The spec-level image of a record's members.
pub open spec fn fields_view(fields: Seq<(String, FieldValue)>) -> Seq<(Seq<char>, FieldView)> {
    fields.map(|i: int, f: (String, FieldValue)| (f.0@, f.1@))
}

impl View for Record {
    type V = Seq<(Seq<char>, FieldView)>;

    open spec fn view(&self) -> Seq<(Seq<char>, FieldView)> {
        fields_view(self.fields@)
    }
}

/// The spec-level image of a record list.
pub open spec fn records_view(rs: Seq<Record>) -> Seq<Seq<(Seq<char>, FieldView)>> {
    rs.map(|i: int, r: Record| r@)
}

/// What deserializing a config text yields: `None` when the text is not a
/// JSON array of objects, otherwise each object's members, text values as
/// `Text`. The result depends on the text alone.
pub uninterp spec fn doc_records_of(text: Seq<char>) -> Option<Seq<Seq<(Seq<char>, FieldView)>>>;

/// Relies on serde_json::from_str: deserializes a JSON array of objects, or
/// fails on any other document; the result depends on the input text alone.
#[verifier::external_body]
fn parse_record_list(text: &str) -> (r: Option<Vec<Record>>)
    ensures
        r is Some <==> doc_records_of(text@) is Some,
        r is Some ==> records_view(r.unwrap()@) == doc_records_of(text@).unwrap(),
{
    let parsed: Result<Vec<serde_json::Map<String, serde_json::Value>>, serde_json::Error> =
        serde_json::from_str(text);
    parsed.ok().map(|objects| objects.into_iter().map(|object| Record {
        fields: object.into_iter().map(|(key, value)| match value {
            serde_json::Value::String(s) => (key, FieldValue::Text(s)),
            _ => (key, FieldValue::Other),
        }).collect(),
    }).collect())
}

/// The value of the first member with the given key, if any.
pub open spec fn lookup(fields: Seq<(Seq<char>, FieldView)>, key: Seq<char>) -> Option<FieldView>
    decreases fields.len(),
{
    if fields.len() == 0 {
        None
    } else if fields[0].0 == key {
        Some(fields[0].1)
    } else {
        lookup(fields.drop_first(), key)
    }
}

/// The fragment pair one record configures: the record must carry the one
/// known tag, `"type": "simple"`, and text members `"left"` and `"right"`;
/// any other record is a parse failure, never a silent skip.
pub open spec fn spec_rule_of_record(fields: Seq<(Seq<char>, FieldView)>) -> Option<
    (Seq<char>, Seq<char>),
> {
    if lookup(fields, "type"@) != Some(FieldView::Text("simple"@)) {
        None
    } else {
        match (lookup(fields, "left"@), lookup(fields, "right"@)) {
            (Some(FieldView::Text(l)), Some(FieldView::Text(r))) => Some((l, r)),
            _ => None,
        }
    }
}

/// The fragment pairs of a whole record list, in order; `None` as soon as
/// any record is not a well-formed rule.
pub open spec fn spec_rules_of_records(recs: Seq<Seq<(Seq<char>, FieldView)>>) -> Option<
    Seq<(Seq<char>, Seq<char>)>,
>
    decreases recs.len(),
{
    if recs.len() == 0 {
        Some(Seq::empty())
    } else {
        match (spec_rules_of_records(recs.drop_last()), spec_rule_of_record(recs.last())) {
            (Some(init), Some(p)) => Some(init.push(p)),
            _ => None,
        }
    }
}

/// The rule set a config text loads to, as fragment pairs: `None` exactly
/// when the text is not a well-formed rule-list document.
pub open spec fn spec_load(text: Seq<char>) -> Option<Seq<(Seq<char>, Seq<char>)>> {
    match doc_records_of(text) {
        None => None,
        Some(recs) => spec_rules_of_records(recs),
    }
}

/// One malformed record anywhere makes the whole list malformed.
proof fn lemma_rules_none_at(recs: Seq<Seq<(Seq<char>, FieldView)>>, i: int)
    requires
        0 <= i < recs.len(),
        spec_rule_of_record(recs[i]) is None,
    ensures
        spec_rules_of_records(recs) is None,
    decreases recs.len(),
{
    if i == recs.len() - 1 {
        assert(recs.last() == recs[i]);
    } else {
        lemma_rules_none_at(recs.drop_last(), i);
    }
}

/// The position of the first member with the given key.
fn lookup_field(fields: &Vec<(String, FieldValue)>, key: &String) -> (r: Option<usize>)
    ensures
        match r {
            Some(i) => i < fields@.len() && lookup(fields_view(fields@), key@) == Some(
                fields@[i as int].1@,
            ),
            None => lookup(fields_view(fields@), key@) is None,
        },
{
    let ghost fv = fields_view(fields@);
    proof {
        assert(fv.skip(0) =~= fv);
    }
    let mut i: usize = 0;
    while i < fields.len()
        invariant
            i <= fields@.len(),
            fv == fields_view(fields@),
            fv.len() == fields@.len(),
            lookup(fv, key@) == lookup(fv.skip(i as int), key@),
        decreases fields@.len() - i,
    {
        proof {
            assert(fv.skip(i as int)[0] == fv[i as int]);
        }
        if fields[i].0.eq(key) {
            return Some(i);
        }
        proof {
            assert(fv.skip(i as int).drop_first() =~= fv.skip(i as int + 1));
        }
        i += 1;
    }
    proof {
        assert(fv.skip(fields@.len() as int) =~= Seq::<(Seq<char>, FieldView)>::empty());
    }
    None
}

/// The fragments of one record, or `None` when the record is no well-formed
/// rule of the known kind.
fn rule_of_record(rec: &Record) -> (r: Option<(String, String)>)
    ensures
        match r {
            Some(p) => spec_rule_of_record(rec@) == Some((p.0@, p.1@)),
            None => spec_rule_of_record(rec@) is None,
        },
{
    let type_key = String::from_str("type");
    let simple_tag = String::from_str("simple");
    let tag_ok: bool = match lookup_field(&rec.fields, &type_key) {
        Some(i) => match &rec.fields[i].1 {
            FieldValue::Text(t) => t.eq(&simple_tag),
            FieldValue::Other => false,
        },
        None => false,
    };
    if !tag_ok {
        return None;
    }
    let left_key = String::from_str("left");
    let left = match lookup_field(&rec.fields, &left_key) {
        Some(i) => match &rec.fields[i].1 {
            FieldValue::Text(s) => s.clone(),
            FieldValue::Other => {
                return None;
            },
        },
        None => {
            return None;
        },
    };
    let right_key = String::from_str("right");
    let right = match lookup_field(&rec.fields, &right_key) {
        Some(i) => match &rec.fields[i].1 {
            FieldValue::Text(s) => s.clone(),
            FieldValue::Other => {
                return None;
            },
        },
        None => {
            return None;
        },
    };
    Some((left, right))
}

/// Construct the rule set a config text describes: one rule per record, in
/// document order, every activation starting `Disabled`. `Parse` — and no
/// partial result — exactly when the text is not a well-formed rule-list
/// document.
pub fn load_rules_from_text(text: &str) -> (r: Result<Vec<Mapping>, ConfigError>)
    ensures
        match r {
            Ok(rules) => {
                &&& spec_load(text@) == Some(fragments_of(rules@))
                &&& all_disabled(rules@)
            },
            Err(e) => e == ConfigError::Parse && spec_load(text@) is None,
        },
{
    let records = match parse_record_list(text) {
        None => {
            return Err(ConfigError::Parse);
        },
        Some(rs) => rs,
    };
    let ghost recs = records_view(records@);
    let mut rules: Vec<Mapping> = Vec::new();
    let mut i: usize = 0;
    while i < records.len()
        invariant
            i <= records@.len(),
            recs == records_view(records@),
            recs.len() == records@.len(),
            doc_records_of(text@) == Some(recs),
            spec_rules_of_records(recs.take(i as int)) == Some(fragments_of(rules@)),
            all_disabled(rules@),
        decreases records@.len() - i,
    {
        let ghost old_rules = rules@;
        match rule_of_record(&records[i]) {
            None => {
                proof {
                    lemma_rules_none_at(recs, i as int);
                }
                return Err(ConfigError::Parse);
            },
            Some((left, right)) => {
                let ghost lv = left@;
                let ghost rv = right@;
                rules.push(
                    Mapping::Simple(
                        SimpleMapping { left, right, state: MappingState::Disabled },
                    ),
                );
                proof {
                    let upto = recs.take(i as int + 1);
                    assert(upto.drop_last() =~= recs.take(i as int));
                    assert(upto.last() == recs[i as int]);
                    assert(fragments_of(rules@) =~= fragments_of(old_rules).push((lv, rv)));
                }
            },
        }
        i += 1;
    }
    proof {
        assert(recs.take(records@.len() as int) =~= recs);
    }
    Ok(rules)
}

/// Republish a reloaded config into the store: on success the whole rule set
/// is swapped for the freshly loaded one, every activation reset; on failure
/// the error is surfaced and the prior rule set is left untouched — one bad
/// edit to the config file never clears the rules in effect.
pub fn reload_into_store(store: &mut RuleStore, text: &str) -> (r: Result<(), ConfigError>)
    ensures
        match r {
            Ok(()) => {
                &&& spec_load(text@) == Some(fragments_of(final(store)@))
                &&& all_disabled(final(store)@)
            },
            Err(e) => {
                &&& e == ConfigError::Parse
                &&& spec_load(text@) is None
                &&& final(store)@ == old(store)@
            },
        },
{
    match load_rules_from_text(text) {
        Ok(rules) => {
            store.replace(rules);
            Ok(())
        },
        Err(e) => Err(e),
    }
}

/// Kind of an observed filesystem event, as the watcher's decision reads it.
#[derive(Clone, Copy, PartialEq, Eq, Structural, Debug)]
pub enum EventKind {
    Create,
    Write,
    Other,
}

/// True when an observed event must trigger a reload: only a creation or a
/// write of exactly the watched config file qualifies; events on sibling
/// files in the same directory are discarded without effect.
pub open spec fn spec_triggers_reload(
    kind: EventKind,
    event_path: Seq<char>,
    watched: Seq<char>,
) -> bool {
    (kind == EventKind::Create || kind == EventKind::Write) && event_path == watched
}

/// The watcher's per-event decision: reload on a create or write of the
/// watched file, ignore everything else.
pub fn event_triggers_reload(kind: EventKind, event_path: &String, watched: &String) -> (r: bool)
    ensures
        r == spec_triggers_reload(kind, event_path@, watched@),
{
    (kind == EventKind::Create || kind == EventKind::Write) && event_path.eq(watched)
}

} // verus!
