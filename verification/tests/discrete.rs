use connect::executors::discrete::{
    classify_output, completed_output, execute_script, handle_execute_all, last_result_line,
    parse_table, plan_jobs, process_script_output, result_key, script_command, script_path,
    ScriptJob, ScriptRun,
};
use connect::executors::streaming::{StreamManager, WaitOutcome};
use connect::types::{
    decode_table, deserialize_string_array, has_streaming_scripts, FunctionConfig, ResultStore,
    ScriptConfig, ScriptOutputs, ScriptResult, TableData,
};

fn function(name: &str) -> FunctionConfig {
    FunctionConfig { name: name.to_string(), display: name.to_uppercase() }
}

fn script(name: &str, script_type: &str, functions: &[&str]) -> ScriptConfig {
    ScriptConfig {
        name: name.to_string(),
        path: format!("scripts/{}.py", name),
        script_type: script_type.to_string(),
        functions: functions.iter().map(|f| function(f)).collect(),
    }
}

fn strings(items: &[&str]) -> Vec<String> {
    items.iter().map(|s| s.to_string()).collect()
}

fn finished(lines: &[&str]) -> ScriptRun {
    ScriptRun::Completed {
        lines: strings(lines),
        wait: WaitOutcome::Exited { success: true, code: Some(0) },
    }
}

const TABLE: &str = r#"{"columns":["a","b"],"data":[["1","2"]]}"#;
const TABLE_WITH_ERROR: &str = r#"{"columns":["a","b"],"data":[["1","2"]],"error":"boom"}"#;

#[test]
fn result_key_is_the_script_name_without_a_function() {
    assert_eq!(result_key("analysis", None), "analysis");
}

#[test]
fn result_key_joins_script_and_function_with_an_underscore() {
    assert_eq!(result_key("analysis", Some("mean")), "analysis_mean");
    assert_eq!(result_key("", Some("")), "_");
}

#[test]
fn table_output_is_stored_as_a_table() {
    let mut results = ResultStore::new();
    let mut outputs = ScriptOutputs::new();
    let analysis = script("analysis", "discrete", &[]);
    process_script_output(TABLE.to_string(), &analysis, None, &mut results, &mut outputs);
    match results.get("analysis") {
        Some(ScriptResult::Table { columns, rows }) => {
            assert_eq!(columns.len(), 2);
            assert_eq!(rows.len(), 1);
            assert_eq!(columns, &strings(&["a", "b"]));
            assert_eq!(rows, &vec![strings(&["1", "2"])]);
        }
        other => panic!("expected a table, found {:?}", other),
    }
    assert_eq!(results.len(), 1);
    assert_eq!(outputs.results, vec![TABLE.to_string()]);
}

#[test]
fn table_with_an_error_is_stored_as_the_error_text() {
    let mut results = ResultStore::new();
    let mut outputs = ScriptOutputs::new();
    let analysis = script("analysis", "discrete", &[]);
    process_script_output(TABLE_WITH_ERROR.to_string(), &analysis, None, &mut results, &mut outputs);
    assert_eq!(results.get("analysis"), Some(&ScriptResult::Scalar("boom".to_string())));
    assert_eq!(results.len(), 1);
}

#[test]
fn null_error_keeps_the_table_and_empty_error_does_not() {
    let mut results = ResultStore::new();
    let mut outputs = ScriptOutputs::new();
    let analysis = script("analysis", "discrete", &[]);
    let with_null = r#"{"columns":["a"],"data":[["1"],[null]],"error":null}"#;
    process_script_output(with_null.to_string(), &analysis, None, &mut results, &mut outputs);
    assert_eq!(
        results.get("analysis"),
        Some(&ScriptResult::Table {
            columns: strings(&["a"]),
            rows: vec![strings(&["1"]), strings(&[""])],
        })
    );
    let with_empty = r#"{"columns":["a"],"data":[["1"]],"error":""}"#;
    process_script_output(with_empty.to_string(), &analysis, None, &mut results, &mut outputs);
    assert_eq!(results.get("analysis"), Some(&ScriptResult::Scalar(String::new())));
}

#[test]
fn error_replaces_a_table_stored_before() {
    let mut results = ResultStore::new();
    let mut outputs = ScriptOutputs::new();
    let analysis = script("analysis", "discrete", &[]);
    process_script_output(TABLE.to_string(), &analysis, None, &mut results, &mut outputs);
    process_script_output(TABLE_WITH_ERROR.to_string(), &analysis, None, &mut results, &mut outputs);
    assert_eq!(results.get("analysis"), Some(&ScriptResult::Scalar("boom".to_string())));
    assert_eq!(results.len(), 1);
    assert_eq!(outputs.results, vec![TABLE.to_string(), TABLE_WITH_ERROR.to_string()]);
}

#[test]
fn plain_output_is_stored_verbatim_as_a_scalar() {
    let mut results = ResultStore::new();
    let mut outputs = ScriptOutputs::new();
    let check = script("check", "discrete", &["run"]);
    process_script_output("PASS".to_string(), &check, Some("run"), &mut results, &mut outputs);
    assert_eq!(results.get("check_run"), Some(&ScriptResult::Scalar("PASS".to_string())));
    assert_eq!(results.get("check"), None);
    process_script_output("42".to_string(), &check, None, &mut results, &mut outputs);
    assert_eq!(results.get("check"), Some(&ScriptResult::Scalar("42".to_string())));
    assert_eq!(results.len(), 2);
}

#[test]
fn json_that_is_no_table_is_stored_verbatim() {
    for output in [
        r#"{"columns":["a"]}"#,
        r#"{"data":[["1"]]}"#,
        r#"{"columns":["a"],"data":[[1]]}"#,
        r#"{"columns":[1],"data":[["1"]]}"#,
        r#"{"columns":"a","data":[["1"]]}"#,
        r#"{"columns":["a"],"data":["1"]}"#,
        r#"{"columns":["a"],"data":[["1"]],"error":7}"#,
        r#"[["a"],[["1"]]]"#,
        r#""text""#,
        "3.5",
        "null",
        r#"{"columns":["a"],"data":[["1"]]"#,
    ] {
        let mut results = ResultStore::new();
        let mut outputs = ScriptOutputs::new();
        let s = script("s", "discrete", &[]);
        process_script_output(output.to_string(), &s, None, &mut results, &mut outputs);
        assert_eq!(results.get("s"), Some(&ScriptResult::Scalar(output.to_string())), "{}", output);
    }
}

#[test]
fn null_cells_become_empty_text() {
    let table = parse_table(r#"{"columns":["a","b"],"data":[["1",null],[null,"4"],[]]}"#).unwrap();
    assert_eq!(table.columns, strings(&["a", "b"]));
    assert_eq!(table.data, vec![strings(&["1", ""]), strings(&["", "4"]), strings(&[])]);
    assert_eq!(table.error, None);
}

#[test]
fn null_error_counts_as_no_error() {
    let table = parse_table(r#"{"columns":[],"data":[],"error":null,"extra":1}"#).unwrap();
    assert_eq!(table, TableData { columns: vec![], data: vec![], error: None });
    let table = parse_table(r#"{"columns":[],"data":[],"error":""}"#).unwrap();
    assert_eq!(table.error, Some(String::new()));
}

#[test]
fn decode_table_reads_a_parsed_document() {
    let value: serde_json::Value = serde_json::from_str(TABLE_WITH_ERROR).unwrap();
    let table = decode_table(&value).unwrap();
    assert_eq!(
        table,
        TableData {
            columns: strings(&["a", "b"]),
            data: vec![strings(&["1", "2"])],
            error: Some("boom".to_string()),
        }
    );
    let value: serde_json::Value = serde_json::from_str("[1, 2]").unwrap();
    assert_eq!(decode_table(&value), None);
}

#[test]
fn string_grid_accepts_strings_and_nulls_only() {
    let grid: serde_json::Value = serde_json::from_str(r#"[["x", null], ["y"]]"#).unwrap();
    assert_eq!(
        deserialize_string_array(&grid),
        Some(vec![strings(&["x", ""]), strings(&["y"])])
    );
    let grid: serde_json::Value = serde_json::from_str(r#"[["x", 1]]"#).unwrap();
    assert_eq!(deserialize_string_array(&grid), None);
    let grid: serde_json::Value = serde_json::from_str(r#"{"x": []}"#).unwrap();
    assert_eq!(deserialize_string_array(&grid), None);
    let grid: serde_json::Value = serde_json::from_str("[]").unwrap();
    assert_eq!(deserialize_string_array(&grid), Some(vec![]));
}

#[test]
fn classification_follows_the_parsed_table() {
    assert_eq!(classify_output("raw".to_string(), None), ScriptResult::Scalar("raw".to_string()));
    let table = TableData { columns: strings(&["c"]), data: vec![strings(&["v"])], error: None };
    assert_eq!(
        classify_output("raw".to_string(), Some(table)),
        ScriptResult::Table { columns: strings(&["c"]), rows: vec![strings(&["v"])] }
    );
    let table = TableData {
        columns: strings(&["c"]),
        data: vec![strings(&["v"])],
        error: Some("bad input".to_string()),
    };
    assert_eq!(
        classify_output("raw".to_string(), Some(table)),
        ScriptResult::Scalar("bad input".to_string())
    );
}

#[test]
fn only_the_last_non_empty_line_counts() {
    assert_eq!(last_result_line(&strings(&["progress 1", "progress 2", "done"])), Some("done".to_string()));
    assert_eq!(last_result_line(&strings(&["first", "  second \t", "", "   "])), Some("second".to_string()));
    assert_eq!(last_result_line(&strings(&["\u{a0}42\u{2003}\r"])), Some("42".to_string()));
    assert_eq!(last_result_line(&strings(&["a b"])), Some("a b".to_string()));
    assert_eq!(last_result_line(&strings(&["", " ", "\t"])), None);
    assert_eq!(last_result_line(&strings(&[])), None);
}

#[test]
fn output_needs_a_successful_exit() {
    assert_eq!(completed_output(&finished(&["1", "2"])), Some("2".to_string()));
    assert_eq!(completed_output(&finished(&[])), None);
    assert_eq!(completed_output(&ScriptRun::NotSpawned), None);
    for wait in [
        WaitOutcome::Exited { success: false, code: Some(1) },
        WaitOutcome::Exited { success: false, code: None },
        WaitOutcome::WaitFailed,
        WaitOutcome::StillRunning,
    ] {
        let run = ScriptRun::Completed { lines: strings(&["result"]), wait };
        assert_eq!(completed_output(&run), None);
    }
}

#[test]
fn failed_run_leaves_the_previous_result_untouched() {
    let mut results = ResultStore::new();
    let mut outputs = ScriptOutputs::new();
    let analysis = script("analysis", "discrete", &[]);
    execute_script(&analysis, None, &finished(&["log", TABLE]), &mut results, &mut outputs);
    let before = results.get("analysis").cloned();
    assert!(matches!(before, Some(ScriptResult::Table { .. })));

    let failed = ScriptRun::Completed {
        lines: strings(&["partial", "FAIL"]),
        wait: WaitOutcome::Exited { success: false, code: Some(1) },
    };
    execute_script(&analysis, None, &failed, &mut results, &mut outputs);
    assert_eq!(results.get("analysis").cloned(), before);
    assert_eq!(results.len(), 1);
    assert_eq!(outputs.results, vec![TABLE.to_string()]);

    execute_script(&analysis, None, &ScriptRun::NotSpawned, &mut results, &mut outputs);
    assert_eq!(results.get("analysis").cloned(), before);
    execute_script(&analysis, None, &finished(&["", "  "]), &mut results, &mut outputs);
    assert_eq!(results.get("analysis").cloned(), before);
    assert_eq!(outputs.results, vec![TABLE.to_string()]);
}

#[test]
fn failed_run_stores_nothing_under_a_fresh_key() {
    let mut results = ResultStore::new();
    let mut outputs = ScriptOutputs::new();
    let analysis = script("analysis", "discrete", &[]);
    let failed = ScriptRun::Completed {
        lines: strings(&["oops"]),
        wait: WaitOutcome::Exited { success: false, code: Some(2) },
    };
    execute_script(&analysis, None, &failed, &mut results, &mut outputs);
    assert!(results.is_empty());
    assert!(results.keys().is_empty());
    assert!(outputs.results.is_empty());
}

#[test]
fn rerun_replaces_the_result_of_the_same_key_only() {
    let mut results = ResultStore::new();
    let mut outputs = ScriptOutputs::new();
    let stats = script("stats", "discrete", &["mean", "max"]);
    execute_script(&stats, Some("mean"), &finished(&["1.5"]), &mut results, &mut outputs);
    execute_script(&stats, Some("max"), &finished(&["9"]), &mut results, &mut outputs);
    execute_script(&stats, Some("mean"), &finished(&["2.5"]), &mut results, &mut outputs);
    assert_eq!(results.get("stats_mean"), Some(&ScriptResult::Scalar("2.5".to_string())));
    assert_eq!(results.get("stats_max"), Some(&ScriptResult::Scalar("9".to_string())));
    let mut keys = results.keys();
    keys.sort();
    assert_eq!(keys, strings(&["stats_max", "stats_mean"]));
    assert_eq!(outputs.results, strings(&["1.5", "9", "2.5"]));
    results.clear();
    assert!(results.is_empty());
    assert_eq!(results.get("stats_mean"), None);
}

#[test]
fn command_selects_a_function_only_where_the_script_declares_some() {
    let plain = script("plain", "discrete", &[]);
    let command = script_command(&plain, None);
    assert_eq!(command.program, "python3");
    assert!(command.selector.is_empty());
    assert!(!command.feeds_input);

    let command = script_command(&plain, Some("mean"));
    assert!(command.selector.is_empty());
    assert!(!command.feeds_input);

    let stats = script("stats", "discrete", &["mean", "max"]);
    let command = script_command(&stats, Some("max"));
    assert_eq!(command.selector, strings(&["--function", "max"]));
    assert!(command.feeds_input);

    let command = script_command(&stats, None);
    assert!(command.selector.is_empty());
    assert!(command.feeds_input);
}

#[test]
fn streaming_scripts_are_recognised_by_type() {
    assert!(!has_streaming_scripts(&vec![]));
    assert!(!has_streaming_scripts(&vec![script("a", "discrete", &[]), script("b", "Streaming", &[])]));
    assert!(has_streaming_scripts(&vec![script("a", "discrete", &[]), script("b", "streaming", &[])]));
}

#[test]
fn jobs_follow_the_configuration_order() {
    let scripts = vec![
        script("stats", "discrete", &["mean", "max"]),
        script("feed", "streaming", &["ignored"]),
        script("plain", "discrete", &[]),
        script("odd", "batch", &[]),
    ];
    assert_eq!(
        plan_jobs(&scripts),
        vec![
            ScriptJob::Discrete { script: 0, function: Some(0) },
            ScriptJob::Discrete { script: 0, function: Some(1) },
            ScriptJob::Streaming { script: 1 },
            ScriptJob::Discrete { script: 2, function: None },
            ScriptJob::Unknown { script: 3 },
        ]
    );
    assert_eq!(plan_jobs(&vec![]), vec![]);
}

#[test]
fn execute_all_restarts_streaming_where_a_streaming_script_is_configured() {
    let mut outputs = ScriptOutputs { results: strings(&["old"]) };
    let mut manager = StreamManager::new(false);
    manager.add_streaming_process();
    let scripts = vec![script("feed", "streaming", &[]), script("plain", "discrete", &[])];
    let plan = handle_execute_all(&mut outputs, &mut manager, &scripts);
    assert!(outputs.results.is_empty());
    assert!(manager.is_running());
    assert_eq!(plan.reclaimed, 1);
    assert!(manager.process_statuses().is_empty());
    assert_eq!(
        plan.jobs,
        vec![ScriptJob::Streaming { script: 0 }, ScriptJob::Discrete { script: 1, function: None }]
    );
}

#[test]
fn execute_all_leaves_streaming_alone_without_streaming_scripts() {
    let mut outputs = ScriptOutputs { results: strings(&["old"]) };
    let mut manager = StreamManager::new(false);
    manager.add_streaming_process();
    let scripts = vec![script("plain", "discrete", &[])];
    let plan = handle_execute_all(&mut outputs, &mut manager, &scripts);
    assert!(outputs.results.is_empty());
    assert!(!manager.is_running());
    assert_eq!(plan.reclaimed, 0);
    assert_eq!(manager.workers(), 1);
    assert_eq!(plan.jobs, vec![ScriptJob::Discrete { script: 0, function: None }]);
}

#[test]
fn script_path_is_relative_to_the_opened_configuration_file() {
    let analysis = script("analysis", "discrete", &[]);
    assert_eq!(
        script_path(Some("/home/user/apps/config.toml"), &analysis),
        "/home/user/apps/scripts/analysis.py"
    );
    assert_eq!(
        script_path(Some("apps/flight/config.toml"), &analysis),
        "apps/flight/scripts/analysis.py"
    );
    assert_eq!(script_path(Some("config.toml"), &analysis), "scripts/analysis.py");
}

#[test]
fn script_path_falls_back_to_the_current_directory() {
    let analysis = script("analysis", "discrete", &[]);
    assert_eq!(script_path(None, &analysis), "./scripts/analysis.py");
    assert_eq!(script_path(Some("/"), &analysis), "./scripts/analysis.py");
    assert_eq!(script_path(Some(""), &analysis), "./scripts/analysis.py");
}

#[test]
fn absolute_script_path_stands_as_it_is() {
    let mut tool = script("tool", "discrete", &[]);
    tool.path = "/opt/tools/tool.py".to_string();
    assert_eq!(script_path(Some("/home/user/apps/config.toml"), &tool), "/opt/tools/tool.py");
    assert_eq!(script_path(None, &tool), "/opt/tools/tool.py");
}

#[test]
fn white_space_is_the_unicode_property() {
    let spaces: Vec<u32> = vec![
        0x09, 0x0A, 0x0B, 0x0C, 0x0D, 0x20, 0x85, 0xA0, 0x1680, 0x2000, 0x2001, 0x2002, 0x2003,
        0x2004, 0x2005, 0x2006, 0x2007, 0x2008, 0x2009, 0x200A, 0x2028, 0x2029, 0x202F, 0x205F,
        0x3000,
    ];
    for code in 0..=0x10FFFFu32 {
        if let Some(c) = char::from_u32(code) {
            assert_eq!(c.is_whitespace(), spaces.contains(&code), "U+{:04X}", code);
        }
    }
    for code in spaces {
        let c = char::from_u32(code).unwrap();
        let line = format!("{}x{}", c, c);
        assert_eq!(last_result_line(&vec![line]), Some("x".to_string()), "U+{:04X}", code);
        assert_eq!(last_result_line(&vec![c.to_string()]), None, "U+{:04X}", code);
    }
    for c in ['\u{200B}', '\u{180E}', '\u{FEFF}', '\u{1F}', '_'] {
        assert_eq!(last_result_line(&vec![c.to_string()]), Some(c.to_string()));
    }
}
