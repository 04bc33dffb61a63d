use connect::executors::discrete::process_script_output;
use connect::panels::{debug_tables, should_debug, TableDisplayState, TableNote};
use connect::types::{ResultStore, ScriptConfig, ScriptOutputs};

const SECOND: u64 = 1_000_000_000;

fn store_with(entries: &[(&str, &str)]) -> ResultStore {
    let mut results = ResultStore::new();
    let mut outputs = ScriptOutputs::new();
    for (name, output) in entries {
        let script = ScriptConfig {
            name: name.to_string(),
            path: String::new(),
            script_type: "discrete".to_string(),
            functions: vec![],
        };
        process_script_output(output.to_string(), &script, None, &mut results, &mut outputs);
    }
    results
}

fn sorted(mut notes: Vec<TableNote>) -> Vec<TableNote> {
    notes.sort_by(|a, b| a.name.as_str().partial_cmp(b.name.as_str()).unwrap());
    notes
}

fn note(name: &str, columns: usize, rows: usize) -> TableNote {
    TableNote { name: name.to_string(), columns, rows }
}

#[test]
fn first_debug_line_is_always_due() {
    assert!(should_debug(None, 0, SECOND));
    assert!(should_debug(None, u64::MAX, u64::MAX));
}

#[test]
fn debug_line_is_due_only_after_the_interval() {
    assert!(!should_debug(Some(5), 5, 10));
    assert!(!should_debug(Some(5), 15, 10));
    assert!(should_debug(Some(5), 16, 10));
    assert!(should_debug(Some(0), u64::MAX, u64::MAX - 1));
    assert!(!should_debug(Some(0), u64::MAX, u64::MAX));
}

#[test]
fn a_last_line_in_the_future_is_never_due() {
    assert!(!should_debug(Some(100), 50, 0));
    assert!(!should_debug(Some(100), 100, 0));
    assert!(should_debug(Some(100), 101, 0));
}

#[test]
fn view_line_is_written_once_per_interval() {
    let mut state = TableDisplayState::new();
    assert!(state.note_view(10 * SECOND, SECOND));
    assert_eq!(state.last_debug, Some(10 * SECOND));
    assert!(!state.note_view(11 * SECOND, SECOND));
    assert_eq!(state.last_debug, Some(10 * SECOND));
    assert!(state.note_view(11 * SECOND + 1, SECOND));
    assert_eq!(state.last_debug, Some(11 * SECOND + 1));
    assert!(state.table_debugs.is_empty());
}

#[test]
fn each_table_gets_its_line_once_per_interval() {
    let results = store_with(&[
        ("wide", r#"{"columns":["a","b","c"],"data":[["1","2","3"],["4","5","6"]]}"#),
        ("scalar", "PASS"),
        ("empty", r#"{"columns":[],"data":[]}"#),
    ]);
    let mut state = TableDisplayState::new();

    let notes = sorted(debug_tables(&results, &mut state, 5 * SECOND, SECOND));
    assert_eq!(notes, vec![note("empty", 0, 0), note("wide", 3, 2)]);
    assert_eq!(state.table_debugs.get("wide"), Some(&(5 * SECOND)));
    assert_eq!(state.table_debugs.get("empty"), Some(&(5 * SECOND)));
    assert_eq!(state.table_debugs.get("scalar"), None);
    assert_eq!(state.last_debug, None);

    assert_eq!(debug_tables(&results, &mut state, 6 * SECOND, SECOND), vec![]);
    assert_eq!(state.table_debugs.get("wide"), Some(&(5 * SECOND)));

    let notes = sorted(debug_tables(&results, &mut state, 6 * SECOND + 1, SECOND));
    assert_eq!(notes, vec![note("empty", 0, 0), note("wide", 3, 2)]);
    assert_eq!(state.table_debugs.get("wide"), Some(&(6 * SECOND + 1)));
}

#[test]
fn a_new_table_is_due_at_once_and_old_times_stay() {
    let mut state = TableDisplayState::new();
    let results = store_with(&[("first", r#"{"columns":["a"],"data":[["1"]]}"#)]);
    assert_eq!(debug_tables(&results, &mut state, 100, 50), vec![note("first", 1, 1)]);

    let results = store_with(&[
        ("first", r#"{"columns":["a"],"data":[["1"]]}"#),
        ("second", r#"{"columns":["a","b"],"data":[]}"#),
    ]);
    assert_eq!(debug_tables(&results, &mut state, 120, 50), vec![note("second", 2, 0)]);
    assert_eq!(state.table_debugs.get("first"), Some(&100));
    assert_eq!(state.table_debugs.get("second"), Some(&120));

    let results = store_with(&[]);
    assert_eq!(debug_tables(&results, &mut state, 1000, 50), vec![]);
    assert_eq!(state.table_debugs.get("first"), Some(&100));
    assert_eq!(state.table_debugs.len(), 2);
}
