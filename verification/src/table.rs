//! Small tables keyed by pipeline, kept as lists of entries. A key has at
//! most one entry as long as entries are only ever put in by `put`.

use vstd::prelude::*;
use crate::lookup::{
    lemma_position, lemma_position_absent, lemma_position_found, lemma_position_push, position,
};
use crate::types::PipelineId;

verus! {

/// The keys of the entries.
pub open spec fn keys<V>(table: Seq<(PipelineId, V)>) -> Seq<PipelineId> {
    Seq::new(table.len(), |i: int| table[i].0)
}

/// The value that the table holds for `key`.
pub open spec fn value_of<V>(table: Seq<(PipelineId, V)>, key: PipelineId) -> Option<V> {
    match position(keys(table), key) {
        Some(i) => Some(table[i].1),
        None => None,
    }
}

/// The table with `value` for `key`, in the place of what it held for that
/// key before, or at the end.
pub open spec fn with_entry<V>(table: Seq<(PipelineId, V)>, key: PipelineId, value: V) -> Seq<
    (PipelineId, V),
> {
    match position(keys(table), key) {
        Some(i) => table.update(i, (key, value)),
        None => table.push((key, value)),
    }
}

/// The place of the entry for `key`.
pub fn find<V>(table: &Vec<(PipelineId, V)>, key: PipelineId) -> (r: Option<usize>)
    ensures
        match r {
            Some(i) => position(keys(table@), key) == Some(i as int) && i < table.len(),
            None => position(keys(table@), key) is None,
        },
{
    let mut i: usize = 0;
    while i < table.len()
        invariant
            i <= table.len(),
            forall|j: int| 0 <= j < i ==> keys(table@)[j] != key,
        decreases table.len() - i,
    {
        if table[i].0 == key {
            proof {
                lemma_position_found(keys(table@), key, i as int);
            }
            return Some(i);
        }
        i += 1;
    }
    proof {
        lemma_position_absent(keys(table@), key);
    }
    None
}

/// The value that the table holds for `key`.
pub fn get<V: Copy>(table: &Vec<(PipelineId, V)>, key: PipelineId) -> (r: Option<V>)
    ensures
        r == value_of(table@, key),
{
    match find(table, key) {
        Some(i) => Some(table[i].1),
        None => None,
    }
}

/// Puts `value` in for `key`, in the place of what the table held for that key before.
pub fn put<V>(table: &mut Vec<(PipelineId, V)>, key: PipelineId, value: V)
    ensures
        final(table)@ == with_entry(old(table)@, key, value),
{
    match find(table, key) {
        Some(i) => {
            table[i] = (key, value);
        },
        None => {
            table.push((key, value));
        },
    }
}

/// What has been put in is what is found, and other keys are untouched.
pub proof fn lemma_put_then_get<V>(
    table: Seq<(PipelineId, V)>,
    key: PipelineId,
    value: V,
    other: PipelineId,
)
    ensures
        value_of(with_entry(table, key, value), key) == Some(value),
        other != key ==> value_of(with_entry(table, key, value), other) == value_of(table, other),
{
    let after = with_entry(table, key, value);
    lemma_position(keys(table), key);
    lemma_position(keys(table), other);
    match position(keys(table), key) {
        Some(i) => {
            assert(keys(after) =~= keys(table));
        },
        None => {
            assert(keys(after) =~= keys(table).push(key));
            lemma_position_push(keys(table), key, key);
            lemma_position_push(keys(table), key, other);
        },
    }
}

} // verus!
