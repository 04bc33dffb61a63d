//! What the panels decide without drawing anything: when a debug line about
//! the table view is due.
//!
//! Times are readings of one monotonic clock in nanoseconds.

use vstd::prelude::*;
use crate::text_map::TextMap;
use crate::types::{ResultStore, ScriptResult, ScriptResultView};

verus! {

/// Whether a debug line is due: always when none was written yet, else when
/// more than `interval` has passed since the last one. A last line that lies
/// after `now` counts as no time passed.
pub open spec fn debug_due(last_debug: Option<u64>, now: u64, interval: u64) -> bool {
    match last_debug {
        None => true,
        Some(last) => now - last > interval,
    }
}

/// Whether a debug line is due.
pub fn should_debug(last_debug: Option<u64>, now: u64, interval: u64) -> (due: bool)
    ensures
        due == debug_due(last_debug, now, interval),
{
    match last_debug {
        None => true,
        Some(last) => now > last && now - last > interval,
    }
}

/// When the table view last wrote its debug lines: the line about the view
/// as a whole, and the line about each table by its key.
pub struct TableDisplayState {
    pub last_debug: Option<u64>,
    pub table_debugs: TextMap<u64>,
}

/// One debug line about a table: its key and its size.
#[derive(Clone, Debug, PartialEq, Eq)]
pub struct TableNote {
    pub name: String,
    pub columns: usize,
    pub rows: usize,
}

/// When the line about the table `key` was last written.
pub open spec fn last_note(table_debugs: Map<Seq<char>, u64>, key: Seq<char>) -> Option<u64> {
    if table_debugs.contains_key(key) {
        Some(table_debugs[key])
    } else {
        None
    }
}

/// Whether a line about `key` is due: a table is stored under it, and its
/// last line is more than `interval` ago or was never written.
pub open spec fn note_due(
    results: Map<Seq<char>, ScriptResultView>,
    table_debugs: Map<Seq<char>, u64>,
    key: Seq<char>,
    now: u64,
    interval: u64,
) -> bool {
    results.contains_key(key) && results[key] is Table && debug_due(
        last_note(table_debugs, key),
        now,
        interval,
    )
}

/// The times of the last lines after the due ones were written at `now`.
pub open spec fn noted(
    results: Map<Seq<char>, ScriptResultView>,
    table_debugs: Map<Seq<char>, u64>,
    now: u64,
    interval: u64,
) -> Map<Seq<char>, u64> {
    Map::new(
        |key: Seq<char>|
            table_debugs.contains_key(key) || note_due(results, table_debugs, key, now, interval),
        |key: Seq<char>|
            if note_due(results, table_debugs, key, now, interval) {
                now
            } else {
                table_debugs[key]
            },
    )
}

/// The number of columns of a stored table; 0 for a scalar.
pub open spec fn columns_in(result: ScriptResultView) -> nat {
    match result {
        ScriptResultView::Table { columns, .. } => columns.len(),
        ScriptResultView::Scalar(_) => 0,
    }
}

/// The number of rows of a stored table; 0 for a scalar.
pub open spec fn rows_in(result: ScriptResultView) -> nat {
    match result {
        ScriptResultView::Table { rows, .. } => rows.len(),
        ScriptResultView::Scalar(_) => 0,
    }
}

impl TableDisplayState {
    /// A state in which no line was written yet.
    pub fn new() -> (state: Self)
        ensures
            state.last_debug.is_none(),
            state.table_debugs.map() == Map::<Seq<char>, u64>::empty(),
    {
        TableDisplayState { last_debug: None, table_debugs: TextMap::new() }
    }

    /// Says whether the line about the view as a whole is due at `now`, and
    /// if so records that it is written.
    pub fn note_view(&mut self, now: u64, interval: u64) -> (due: bool)
        ensures
            due == debug_due(old(self).last_debug, now, interval),
            final(self).last_debug == if due {
                Some(now)
            } else {
                old(self).last_debug
            },
            final(self).table_debugs == old(self).table_debugs,
    {
        let due = should_debug(self.last_debug, now, interval);
        if due {
            self.last_debug = Some(now);
        }
        due
    }
}

/// Whether `key` is among the first `count` of `names`.
pub open spec fn listed(names: Seq<Seq<char>>, count: int, key: Seq<char>) -> bool {
    exists|n: int| 0 <= n < count && #[trigger] names[n] == key
}

/// The times of the last lines after the due ones among the first `count`
/// of `names` were written at `now`.
pub open spec fn noted_among(
    results: Map<Seq<char>, ScriptResultView>,
    table_debugs: Map<Seq<char>, u64>,
    names: Seq<Seq<char>>,
    count: int,
    now: u64,
    interval: u64,
) -> Map<Seq<char>, u64> {
    Map::new(
        |key: Seq<char>|
            table_debugs.contains_key(key) || (listed(names, count, key) && note_due(
                results,
                table_debugs,
                key,
                now,
                interval,
            )),
        |key: Seq<char>|
            if listed(names, count, key) && note_due(results, table_debugs, key, now, interval) {
                now
            } else {
                table_debugs[key]
            },
    )
}

/// The note about the table `key` is among `notes`.
pub open spec fn has_note(notes: Seq<TableNote>, key: Seq<char>) -> bool {
    exists|i: int| 0 <= i < notes.len() && (#[trigger] notes[i]).name@ == key
}

/// Lists the debug lines that are due at `now`, one for each stored table
/// whose last line is more than `interval` ago or was never written, and
/// records that they are written. Scalars get no line.
pub fn debug_tables(
    results: &ResultStore,
    state: &mut TableDisplayState,
    now: u64,
    interval: u64,
) -> (notes: Vec<TableNote>)
    ensures
        final(state).table_debugs.map() == noted(
            results@,
            old(state).table_debugs.map(),
            now,
            interval,
        ),
        final(state).last_debug == old(state).last_debug,
        forall|i: int, j: int|
            0 <= i < j < notes.len() ==> (#[trigger] notes[i]).name@ != (#[trigger] notes[j]).name@,
        forall|i: int|
            0 <= i < notes.len() ==> {
                let note = #[trigger] notes[i];
                &&& note_due(results@, old(state).table_debugs.map(), note.name@, now, interval)
                &&& note.columns == columns_in(results@[note.name@])
                &&& note.rows == rows_in(results@[note.name@])
            },
        forall|key: Seq<char>|
            note_due(results@, old(state).table_debugs.map(), key, now, interval) ==> has_note(
                notes@,
                key,
            ),
{
    let keys = results.keys();
    let ghost before = state.table_debugs.map();
    let ghost names = keys.deep_view();
    let mut notes: Vec<TableNote> = Vec::new();
    let mut k: usize = 0;
    assert(state.table_debugs.map() =~= noted_among(results@, before, names, 0, now, interval));
    while k < keys.len()
        invariant
            k <= keys.len(),
            names == keys.deep_view(),
            names.no_duplicates(),
            forall|key: Seq<char>| names.contains(key) <==> results@.contains_key(key),
            state.last_debug == old(state).last_debug,
            state.table_debugs.map() == noted_among(
                results@,
                before,
                names,
                k as int,
                now,
                interval,
            ),
            forall|i: int, j: int|
                0 <= i < j < notes.len() ==> (#[trigger] notes[i]).name@ != (
                #[trigger] notes[j]).name@,
            forall|i: int|
                0 <= i < notes.len() ==> {
                    let note = #[trigger] notes[i];
                    &&& listed(names, k as int, note.name@)
                    &&& note_due(results@, before, note.name@, now, interval)
                    &&& note.columns == columns_in(results@[note.name@])
                    &&& note.rows == rows_in(results@[note.name@])
                },
            forall|key: Seq<char>|
                listed(names, k as int, key) && note_due(results@, before, key, now, interval)
                    ==> has_note(notes@, key),
        decreases keys.len() - k,
    {
        let key = &keys[k];
        let ghost name = names[k as int];
        let ghost current = state.table_debugs.map();
        let ghost earlier = notes@;
        proof {
            assert(names[k as int] == keys[k as int].deep_view());
            assert(names.contains(name));
            if listed(names, k as int, name) {
                let n = choose|n: int| 0 <= n < k && names[n] == name;
                assert(names[n] == names[k as int]);
            }
            assert(last_note(current, name) == last_note(before, name));
        }
        let mut due = false;
        match results.get(key.as_str()) {
            Some(result) => match result {
                ScriptResult::Table { columns, rows } => {
                    let last = match state.table_debugs.get(key.as_str()) {
                        Some(at) => Some(*at),
                        None => None,
                    };
                    if should_debug(last, now, interval) {
                        due = true;
                        notes.push(
                            TableNote {
                                name: key.clone(),
                                columns: columns.len(),
                                rows: rows.len(),
                            },
                        );
                        state.table_debugs.insert(key.clone(), now);
                    }
                },
                ScriptResult::Scalar(_) => {},
            },
            None => {},
        }
        proof {
            let after = state.table_debugs.map();
            assert(due == note_due(results@, before, name, now, interval));
            assert(after == if due {
                current.insert(name, now)
            } else {
                current
            });
            assert forall|key: Seq<char>|
                listed(names, k + 1, key) <==> (key == name || listed(names, k as int, key)) by {
                if listed(names, k + 1, key) {
                    let n = choose|n: int| 0 <= n < k + 1 && names[n] == key;
                    if n < k {
                        assert(listed(names, k as int, key));
                    }
                }
                if listed(names, k as int, key) {
                    let n = choose|n: int| 0 <= n < k && names[n] == key;
                    assert(0 <= n < k + 1 && names[n] == key);
                }
                if key == name {
                    assert(names[k as int] == key);
                }
            }
            assert(after =~= noted_among(results@, before, names, k + 1, now, interval));
            assert forall|i: int| 0 <= i < notes.len() implies {
                let note = #[trigger] notes[i];
                &&& listed(names, k + 1, note.name@)
                &&& note_due(results@, before, note.name@, now, interval)
                &&& note.columns == columns_in(results@[note.name@])
                &&& note.rows == rows_in(results@[note.name@])
            } by {
                if i < earlier.len() {
                    assert(notes[i] == earlier[i]);
                }
            }
            assert forall|i: int, j: int| 0 <= i < j < notes.len() implies (
            #[trigger] notes[i]).name@ != (#[trigger] notes[j]).name@ by {
                assert(notes[i] == earlier[i]);
                if j < earlier.len() {
                    assert(notes[j] == earlier[j]);
                } else {
                    assert(listed(names, k as int, earlier[i].name@));
                }
            }
            assert forall|key: Seq<char>|
                listed(names, k + 1, key) && note_due(
                    results@,
                    before,
                    key,
                    now,
                    interval,
                ) implies has_note(notes@, key) by {
                if key == name {
                    assert(notes[notes.len() - 1].name@ == key);
                } else {
                    assert(has_note(earlier, key));
                    let i = choose|i: int| 0 <= i < earlier.len() && earlier[i].name@ == key;
                    assert(notes[i] == earlier[i]);
                }
            }
        }
        k += 1;
    }
    proof {
        assert forall|key: Seq<char>|
            note_due(results@, before, key, now, interval) implies listed(
            names,
            k as int,
            key,
        ) by {
            assert(names.contains(key));
            let n = choose|n: int| 0 <= n < names.len() && names[n] == key;
            assert(0 <= n < k && names[n] == key);
        }
        assert(state.table_debugs.map() =~= noted(results@, before, now, interval));
    }
    notes
}

} // verus!
