//! The discrete half of the engine: what is handed to a one-shot worker,
//! which of its output lines counts, and how its result is classified and
//! filed.
//!
//! Spawning the worker, feeding its standard input and draining its pipes is
//! the caller's part. The caller asks [`script_path`] and [`script_command`]
//! what to run, reports how the run went as a [`ScriptRun`], and
//! [`execute_script`] does the rest.

use vstd::prelude::*;
use crate::executors::streaming::{started, StreamManager, WaitOutcome};
use crate::json::{parse_value, parsed_json};
use crate::paths::{join_paths, joined_path, parent_of, parent_path};
use crate::text::{same_text, trim_text, trimmed};
use crate::types::{
    any_streaming, decode_table, discrete_type, has_streaming_scripts, streaming_type, table_of,
    ResultStore, ScriptConfig, ScriptOutputs, ScriptResult, ScriptResultView, TableData,
    TableView,
};

verus! {

/// The text of an optional name.
pub open spec fn name_of(name: Option<&str>) -> Option<Seq<char>> {
    match name {
        Some(text) => Some(text@),
        None => None,
    }
}

/// The key under which a run files its result: the script's name, followed
/// by an underscore and the function's name where a function was targeted.
pub open spec fn key_of(script_name: Seq<char>, function_name: Option<Seq<char>>) -> Seq<char> {
    match function_name {
        Some(function) => script_name + seq!['_'] + function,
        None => script_name,
    }
}

/// Builds the result key of a run.
pub fn result_key(script_name: &str, function_name: Option<&str>) -> (key: String)
    ensures
        key@ == key_of(script_name@, name_of(function_name)),
{
    match function_name {
        Some(function) => {
            proof {
                reveal_strlit("_");
                assert("_"@ =~= seq!['_']);
            }
            String::from_str(script_name).concat("_").concat(function)
        },
        None => String::from_str(script_name),
    }
}

/// The directory against which script paths are resolved: the directory of
/// the opened configuration file, or the current directory where no file is
/// opened or the opened path has no parent.
pub open spec fn config_dir_of(opened_file: Option<Seq<char>>) -> Seq<char> {
    match opened_file {
        Some(file) => match parent_path(file) {
            Some(directory) => directory,
            None => "."@,
        },
        None => "."@,
    }
}

/// Resolves the configured path of a script against the directory of the
/// opened configuration file.
pub fn script_path(opened_file: Option<&str>, script: &ScriptConfig) -> (path: String)
    ensures
        path@ == joined_path(config_dir_of(name_of(opened_file)), script.path@),
{
    let directory = match opened_file {
        Some(file) => match parent_of(file) {
            Some(directory) => directory,
            None => String::from_str("."),
        },
        None => String::from_str("."),
    };
    join_paths(directory.as_str(), script.path.as_str())
}

/// What to run for a script: the interpreter, the arguments that follow the
/// script's path, and whether the input state is written to the worker's
/// standard input.
#[derive(Clone, Debug, PartialEq, Eq)]
pub struct ScriptCommand {
    /// The interpreter.
    pub program: String,
    /// The arguments after the script's path: empty, or the function
    /// selector flag and the function's name.
    pub selector: Vec<String>,
    /// Whether the worker is fed the input state.
    pub feeds_input: bool,
}

/// The arguments that select a function: the flag and the name where a
/// function is targeted and the script declares functions, else none.
pub open spec fn selector_of(declares_functions: bool, function_name: Option<Seq<char>>) -> Seq<
    Seq<char>,
> {
    match function_name {
        Some(function) => if declares_functions {
            seq!["--function"@, function]
        } else {
            Seq::empty()
        },
        None => Seq::empty(),
    }
}

/// Says how a script is invoked. The input state goes to the worker exactly
/// when the script declares functions, whether or not one is targeted.
pub fn script_command(script: &ScriptConfig, function_name: Option<&str>) -> (command:
    ScriptCommand)
    ensures
        command.program@ == "python3"@,
        command.selector.deep_view() == selector_of(
            script.functions.len() > 0,
            name_of(function_name),
        ),
        command.feeds_input == (script.functions.len() > 0),
{
    let declares_functions = script.functions.len() > 0;
    let mut selector: Vec<String> = Vec::new();
    match function_name {
        Some(function) => {
            if declares_functions {
                selector.push(String::from_str("--function"));
                selector.push(String::from_str(function));
            }
        },
        None => {},
    }
    assert(selector.deep_view() =~= selector_of(declares_functions, name_of(function_name)));
    ScriptCommand {
        program: String::from_str("python3"),
        selector,
        feeds_input: declares_functions,
    }
}

/// The result line among the lines that a worker printed: the last line that
/// is not empty once trimmed, trimmed. Earlier lines do not count.
pub open spec fn result_line(lines: Seq<Seq<char>>) -> Option<Seq<char>>
    decreases lines.len(),
{
    if lines.len() == 0 {
        None
    } else if trimmed(lines.last()).len() > 0 {
        Some(trimmed(lines.last()))
    } else {
        result_line(lines.drop_last())
    }
}

/// Picks the result line of a worker's standard output.
pub fn last_result_line(lines: &Vec<String>) -> (r: Option<String>)
    ensures
        r.deep_view() == result_line(lines.deep_view()),
{
    let ghost all = lines.deep_view();
    let mut i: usize = lines.len();
    assert(all.subrange(0, i as int) =~= all);
    while i > 0
        invariant
            i <= lines.len(),
            all == lines.deep_view(),
            result_line(all) == result_line(all.subrange(0, i as int)),
        decreases i,
    {
        let ghost upto = all.subrange(0, i as int);
        let line = trim_text(lines[i - 1].as_str());
        proof {
            assert(upto.last() == lines[i - 1]@) by {
                assert(all[i - 1] == lines[i - 1].deep_view());
            }
            assert(upto.drop_last() =~= all.subrange(0, i - 1));
        }
        if !line.is_empty() {
            return Some(String::from_str(line));
        }
        i -= 1;
    }
    assert(all.subrange(0, 0).len() == 0);
    None
}

/// How the run of a one-shot worker went.
#[derive(Clone, Debug, PartialEq, Eq)]
pub enum ScriptRun {
    /// The worker could not be spawned.
    NotSpawned,
    /// The worker ran: the lines of its standard output, and what waiting
    /// for it gave.
    Completed { lines: Vec<String>, wait: WaitOutcome },
}

/// A run as a mathematical value.
pub enum ScriptRunView {
    NotSpawned,
    Completed { lines: Seq<Seq<char>>, wait: WaitOutcome },
}

impl View for ScriptRun {
    type V = ScriptRunView;

    open spec fn view(&self) -> ScriptRunView {
        match *self {
            ScriptRun::NotSpawned => ScriptRunView::NotSpawned,
            ScriptRun::Completed { lines, wait } => ScriptRunView::Completed {
                lines: lines.deep_view(),
                wait,
            },
        }
    }
}

/// Whether a wait outcome is a successful exit.
pub open spec fn succeeded(wait: WaitOutcome) -> bool {
    wait matches WaitOutcome::Exited { success, .. } && success
}

/// The output of a run: the result line of a worker that exited
/// successfully. A worker that was not spawned, failed, or printed no result
/// line has no output.
pub open spec fn output_of(run: ScriptRunView) -> Option<Seq<char>> {
    match run {
        ScriptRunView::NotSpawned => None,
        ScriptRunView::Completed { lines, wait } => if succeeded(wait) {
            result_line(lines)
        } else {
            None
        },
    }
}

/// The output of a run, if it has one.
pub fn completed_output(run: &ScriptRun) -> (r: Option<String>)
    ensures
        r.deep_view() == output_of(run@),
{
    match run {
        ScriptRun::NotSpawned => None,
        ScriptRun::Completed { lines, wait } => match wait {
            WaitOutcome::Exited { success, code: _ } => if *success {
                last_result_line(lines)
            } else {
                None
            },
            _ => None,
        },
    }
}

/// The result that an output stands for, given the table payload that it
/// parses as, if it does: the payload's error as a scalar where it reports
/// one, else the payload's table; and the output itself as a scalar where it
/// is no table payload.
pub open spec fn classified(output: Seq<char>, table: Option<TableView>) -> ScriptResultView {
    match table {
        Some(table) => match table.error {
            Some(error) => ScriptResultView::Scalar(error),
            None => ScriptResultView::Table { columns: table.columns, rows: table.data },
        },
        None => ScriptResultView::Scalar(output),
    }
}

/// The table payload that an output parses as.
pub open spec fn table_in(output: Seq<char>) -> Option<TableView> {
    match parsed_json(output) {
        Some(document) => table_of(document),
        None => None,
    }
}

/// The result that an output stands for.
pub open spec fn result_of(output: Seq<char>) -> ScriptResultView {
    classified(output, table_in(output))
}

/// The view of an optional table payload.
pub open spec fn table_view(table: Option<TableData>) -> Option<TableView> {
    match table {
        Some(table) => Some(table@),
        None => None,
    }
}

/// Classifies an output, given what parsing it as a table payload gave.
pub fn classify_output(output: String, table: Option<TableData>) -> (result: ScriptResult)
    ensures
        result@ == classified(output@, table_view(table)),
{
    match table {
        Some(table) => match table.error {
            Some(error) => ScriptResult::Scalar(error),
            None => ScriptResult::Table { columns: table.columns, rows: table.data },
        },
        None => ScriptResult::Scalar(output),
    }
}

/// Parses an output as a table payload.
pub fn parse_table(output: &str) -> (r: Option<TableData>)
    ensures
        table_view(r) == table_in(output@),
{
    match parse_value(output) {
        Some(value) => decode_table(&value),
        None => None,
    }
}

/// Files the output of a successful run: classifies it, puts the result
/// under the run's key in place of whatever was there, and appends the
/// output to the list of raw outputs.
pub fn process_script_output(
    output: String,
    script: &ScriptConfig,
    function_name: Option<&str>,
    results: &mut ResultStore,
    script_outputs: &mut ScriptOutputs,
)
    ensures
        final(results)@ == old(results)@.insert(
            key_of(script.name@, name_of(function_name)),
            result_of(output@),
        ),
        final(script_outputs).results.deep_view() == old(script_outputs).results.deep_view().push(
            output@,
        ),
{
    let key = result_key(script.name.as_str(), function_name);
    let table = parse_table(output.as_str());
    let kept = output.clone();
    let result = classify_output(output, table);
    results.insert(key, result);
    script_outputs.results.push(kept);
    assert(script_outputs.results.deep_view() =~= old(script_outputs).results.deep_view().push(
        kept@,
    ));
}

/// Finishes one run of a script. A run with an output files it; any other
/// run (the worker could not be spawned, exited unsuccessfully, could not be
/// waited for, or printed no result line) changes nothing: what was stored
/// under the key before stays.
pub fn execute_script(
    script: &ScriptConfig,
    function_name: Option<&str>,
    run: &ScriptRun,
    results: &mut ResultStore,
    script_outputs: &mut ScriptOutputs,
)
    ensures
        match output_of(run@) {
            Some(output) => {
                &&& final(results)@ == old(results)@.insert(
                    key_of(script.name@, name_of(function_name)),
                    result_of(output),
                )
                &&& final(script_outputs).results.deep_view() == old(
                    script_outputs,
                ).results.deep_view().push(output)
            },
            None => {
                &&& final(results)@ == old(results)@
                &&& final(script_outputs).results.deep_view() == old(
                    script_outputs,
                ).results.deep_view()
            },
        },
        run@ matches ScriptRunView::Completed { wait, .. } && !succeeded(wait) ==> final(results)@
            == old(results)@,
{
    match completed_output(run) {
        Some(output) => {
            process_script_output(output, script, function_name, results, script_outputs);
        },
        None => {},
    }
}

/// One step of running every configured script.
#[derive(Clone, Copy, Debug, PartialEq, Eq, Structural)]
pub enum ScriptJob {
    /// Run the discrete script at `script` once: as a whole, or with the
    /// function at `function` of its list targeted.
    Discrete { script: usize, function: Option<usize> },
    /// Launch the streaming script at `script` and register its process.
    Streaming { script: usize },
    /// The script at `script` is of no known type: report it and go on.
    Unknown { script: usize },
}

/// The jobs of one script, which stands at `index` in the configuration: a
/// discrete script without functions runs once, one with functions runs
/// once per function, in their order; a streaming script is launched.
pub open spec fn jobs_for(script: ScriptConfig, index: usize) -> Seq<ScriptJob> {
    if script.script_type@ == discrete_type() {
        if script.functions.len() == 0 {
            seq![ScriptJob::Discrete { script: index, function: None }]
        } else {
            Seq::new(
                script.functions.len() as nat,
                |k: int| ScriptJob::Discrete { script: index, function: Some(k as usize) },
            )
        }
    } else if script.script_type@ == streaming_type() {
        seq![ScriptJob::Streaming { script: index }]
    } else {
        seq![ScriptJob::Unknown { script: index }]
    }
}

/// The jobs of all scripts, in the order of the configuration.
pub open spec fn jobs_of(scripts: Seq<ScriptConfig>) -> Seq<ScriptJob>
    decreases scripts.len(),
{
    if scripts.len() == 0 {
        Seq::empty()
    } else {
        jobs_of(scripts.drop_last()) + jobs_for(scripts.last(), (scripts.len() - 1) as usize)
    }
}

/// Lists the jobs of all scripts.
pub fn plan_jobs(scripts: &[ScriptConfig]) -> (jobs: Vec<ScriptJob>)
    ensures
        jobs@ == jobs_of(scripts@),
{
    let mut jobs: Vec<ScriptJob> = Vec::new();
    let mut i: usize = 0;
    assert(scripts@.subrange(0, 0) =~= Seq::<ScriptConfig>::empty());
    while i < scripts.len()
        invariant
            i <= scripts.len(),
            jobs@ == jobs_of(scripts@.subrange(0, i as int)),
        decreases scripts.len() - i,
    {
        let script = &scripts[i];
        let ghost done = jobs@;
        proof {
            let upto = scripts@.subrange(0, i + 1);
            assert(upto.drop_last() =~= scripts@.subrange(0, i as int));
            assert(upto.last() == scripts[i as int]);
        }
        if same_text(script.script_type.as_str(), "discrete") {
            if script.functions.len() == 0 {
                jobs.push(ScriptJob::Discrete { script: i, function: None });
                assert(jobs@ =~= done + jobs_for(*script, i));
            } else {
                let mut k: usize = 0;
                while k < script.functions.len()
                    invariant
                        k <= script.functions.len(),
                        jobs@ == done + Seq::new(
                            k as nat,
                            |n: int| ScriptJob::Discrete { script: i, function: Some(n as usize) },
                        ),
                    decreases script.functions.len() - k,
                {
                    jobs.push(ScriptJob::Discrete { script: i, function: Some(k) });
                    k += 1;
                }
                assert(jobs@ =~= done + jobs_for(*script, i));
            }
        } else if same_text(script.script_type.as_str(), "streaming") {
            jobs.push(ScriptJob::Streaming { script: i });
            assert(jobs@ =~= done + jobs_for(*script, i));
        } else {
            jobs.push(ScriptJob::Unknown { script: i });
            assert(jobs@ =~= done + jobs_for(*script, i));
        }
        i += 1;
    }
    assert(scripts@.subrange(0, i as int) =~= scripts@);
    jobs
}

/// What running every script asks of the caller.
#[derive(Clone, Debug, PartialEq, Eq)]
pub struct ExecutionPlan {
    /// How many worker handles to kill and drop before anything else.
    pub reclaimed: usize,
    /// The jobs to carry out, in order.
    pub jobs: Vec<ScriptJob>,
}

/// Begins a run of every configured script: clears the list of raw outputs,
/// starts a streaming session where a streaming script is configured, and
/// lists the jobs.
pub fn handle_execute_all(
    script_outputs: &mut ScriptOutputs,
    stream_manager: &mut StreamManager,
    scripts: &[ScriptConfig],
) -> (plan: ExecutionPlan)
    ensures
        final(script_outputs).results@ == Seq::<String>::empty(),
        final(stream_manager)@ == if any_streaming(scripts@) {
            started(old(stream_manager)@)
        } else {
            old(stream_manager)@
        },
        plan.reclaimed == if any_streaming(scripts@) {
            old(stream_manager)@.workers
        } else {
            0
        },
        plan.jobs@ == jobs_of(scripts@),
{
    script_outputs.results = Vec::new();
    let reclaimed = if has_streaming_scripts(scripts) {
        stream_manager.start_streaming()
    } else {
        0
    };
    ExecutionPlan { reclaimed, jobs: plan_jobs(scripts) }
}

} // verus!
