//! The configuration of scripts and the results that their runs leave.

use vstd::prelude::*;
use crate::json::{json_of, member, value_is_null, value_items, value_member, value_text, Json};
use crate::text::same_text;
use crate::text_map::TextMap;

verus! {

/// One function that a script offers: its name on the command line and the
/// label of its button.
#[derive(Clone, Debug, PartialEq, Eq)]
pub struct FunctionConfig {
    pub name: String,
    pub display: String,
}

/// One configured script: its name, its path relative to the configuration
/// file, its type (`"discrete"` or `"streaming"`) and its functions.
#[derive(Clone, Debug, PartialEq, Eq)]
pub struct ScriptConfig {
    pub name: String,
    pub path: String,
    pub script_type: String,
    pub functions: Vec<FunctionConfig>,
}

/// The type of a script that streams.
pub open spec fn streaming_type() -> Seq<char> {
    "streaming"@
}

/// The type of a script that runs once.
pub open spec fn discrete_type() -> Seq<char> {
    "discrete"@
}

/// Whether one of `scripts` is a streaming script.
pub open spec fn any_streaming(scripts: Seq<ScriptConfig>) -> bool {
    exists|i: int|
        0 <= i < scripts.len() && (#[trigger] scripts[i]).script_type@ == streaming_type()
}

/// Whether one of `scripts` is a streaming script.
pub fn has_streaming_scripts(scripts: &[ScriptConfig]) -> (r: bool)
    ensures
        r == any_streaming(scripts@),
{
    let mut i: usize = 0;
    while i < scripts.len()
        invariant
            i <= scripts.len(),
            forall|j: int| 0 <= j < i ==> (#[trigger] scripts[j]).script_type@ != streaming_type(),
        decreases scripts.len() - i,
    {
        if same_text(scripts[i].script_type.as_str(), "streaming") {
            return true;
        }
        i += 1;
    }
    false
}

/// A table as a script prints it: column names, rows of cells, and an error
/// text where the script reports one in place of data.
#[derive(Clone, Debug, PartialEq, Eq)]
pub struct TableData {
    pub columns: Vec<String>,
    pub data: Vec<Vec<String>>,
    pub error: Option<String>,
}

/// A table payload as a mathematical value.
pub struct TableView {
    pub columns: Seq<Seq<char>>,
    pub data: Seq<Seq<Seq<char>>>,
    pub error: Option<Seq<char>>,
}

impl View for TableData {
    type V = TableView;

    open spec fn view(&self) -> TableView {
        TableView {
            columns: self.columns.deep_view(),
            data: self.data.deep_view(),
            error: self.error.deep_view(),
        }
    }
}

/// The text of a string document; the empty text for any other document.
pub open spec fn text_in(document: Json) -> Seq<char> {
    match document {
        Json::Text(text) => text,
        _ => Seq::empty(),
    }
}

/// The items of an array document; none for any other document.
pub open spec fn items_in(document: Json) -> Seq<Json> {
    match document {
        Json::List(items) => items,
        _ => Seq::empty(),
    }
}

/// The column names that an array of strings holds; `None` where the
/// document is no array or one of its items is no string.
pub open spec fn columns_of(document: Json) -> Option<Seq<Seq<char>>> {
    if document is List && forall|i: int|
        0 <= i < items_in(document).len() ==> #[trigger] items_in(document)[i] is Text {
        Some(Seq::new(items_in(document).len(), |i: int| text_in(items_in(document)[i])))
    } else {
        None
    }
}

/// Whether a document can be a cell: a string, or `null` for an empty cell.
pub open spec fn is_cell(document: Json) -> bool {
    document is Text || document is Null
}

/// The row that an array of cells holds; `None` where the document is no
/// array or one of its items is no cell. A `null` cell is the empty text.
pub open spec fn row_of(document: Json) -> Option<Seq<Seq<char>>> {
    if document is List && forall|i: int|
        0 <= i < items_in(document).len() ==> is_cell(#[trigger] items_in(document)[i]) {
        Some(Seq::new(items_in(document).len(), |i: int| text_in(items_in(document)[i])))
    } else {
        None
    }
}

/// The grid that an array of rows holds; `None` where the document is no
/// array or one of its items is no row.
pub open spec fn grid_of(document: Json) -> Option<Seq<Seq<Seq<char>>>> {
    if document is List && forall|i: int|
        0 <= i < items_in(document).len() ==> row_of(#[trigger] items_in(document)[i]).is_some() {
        Some(
            Seq::new(items_in(document).len(), |i: int| row_of(items_in(document)[i]).unwrap()),
        )
    } else {
        None
    }
}

/// The error that a table payload reports: none where the member `error` is
/// absent or `null`, its text where it is a string. The outer `None` is for
/// a member of any other kind.
pub open spec fn error_of(document: Json) -> Option<Option<Seq<char>>> {
    match member(document, "error"@) {
        None => Some(None),
        Some(Json::Null) => Some(None),
        Some(Json::Text(text)) => Some(Some(text)),
        Some(_) => None,
    }
}

/// The table payload that a document holds: an object whose `columns` is an
/// array of strings and whose `data` is an array of rows, with an optional
/// `error`. `None` for any other document.
pub open spec fn table_of(document: Json) -> Option<TableView> {
    match (member(document, "columns"@), member(document, "data"@), error_of(document)) {
        (Some(columns), Some(data), Some(error)) => if columns_of(columns).is_some() && grid_of(
            data,
        ).is_some() {
            Some(
                TableView {
                    columns: columns_of(columns).unwrap(),
                    data: grid_of(data).unwrap(),
                    error,
                },
            )
        } else {
            None
        },
        _ => None,
    }
}

/// Reads an array of strings.
pub(crate) fn read_columns(value: &serde_json::Value) -> (r: Option<Vec<String>>)
    ensures
        r.deep_view() == columns_of(json_of(*value)),
{
    let items = match value_items(value) {
        Some(items) => items,
        None => { return None; },
    };
    let ghost list = items_in(json_of(*value));
    let mut columns: Vec<String> = Vec::new();
    let mut i: usize = 0;
    while i < items.len()
        invariant
            i <= items.len(),
            list.len() == items.len(),
            forall|j: int| 0 <= j < items.len() ==> list[j] == json_of(#[trigger] items[j]),
            list == items_in(json_of(*value)),
            json_of(*value) is List,
            columns.len() == i,
            forall|j: int| 0 <= j < i ==> list[j] is Text && columns[j]@ == text_in(list[j]),
        decreases items.len() - i,
    {
        match value_text(&items[i]) {
            Some(text) => {
                columns.push(String::from_str(text));
            },
            None => {
                assert(!(list[i as int] is Text));
                return None;
            },
        }
        i += 1;
    }
    assert(columns.deep_view() =~= columns_of(json_of(*value)).unwrap()) by {
        assert forall|j: int| 0 <= j < columns.len() implies columns.deep_view()[j] == text_in(
            list[j],
        ) by {
            assert(columns.deep_view()[j] == columns[j].deep_view());
        }
    }
    Some(columns)
}

/// Reads one row of cells; a `null` cell becomes the empty text.
pub(crate) fn read_row(value: &serde_json::Value) -> (r: Option<Vec<String>>)
    ensures
        r.deep_view() == row_of(json_of(*value)),
{
    let items = match value_items(value) {
        Some(items) => items,
        None => { return None; },
    };
    let ghost list = items_in(json_of(*value));
    let mut row: Vec<String> = Vec::new();
    let mut i: usize = 0;
    while i < items.len()
        invariant
            i <= items.len(),
            list.len() == items.len(),
            forall|j: int| 0 <= j < items.len() ==> list[j] == json_of(#[trigger] items[j]),
            list == items_in(json_of(*value)),
            json_of(*value) is List,
            row.len() == i,
            forall|j: int| 0 <= j < i ==> is_cell(list[j]) && row[j]@ == text_in(list[j]),
        decreases items.len() - i,
    {
        match value_text(&items[i]) {
            Some(text) => {
                row.push(String::from_str(text));
            },
            None => {
                if value_is_null(&items[i]) {
                    row.push(String::new());
                } else {
                    assert(!is_cell(list[i as int]));
                    return None;
                }
            },
        }
        i += 1;
    }
    assert(row.deep_view() =~= row_of(json_of(*value)).unwrap()) by {
        assert forall|j: int| 0 <= j < row.len() implies row.deep_view()[j] == text_in(
            list[j],
        ) by {
            assert(row.deep_view()[j] == row[j].deep_view());
        }
    }
    Some(row)
}

/// Reads a grid of cells: an array of rows, each an array of strings in
/// which `null` stands for an empty cell.
pub fn deserialize_string_array(value: &serde_json::Value) -> (r: Option<Vec<Vec<String>>>)
    ensures
        r.deep_view() == grid_of(json_of(*value)),
{
    let items = match value_items(value) {
        Some(items) => items,
        None => { return None; },
    };
    let ghost list = items_in(json_of(*value));
    let mut grid: Vec<Vec<String>> = Vec::new();
    let mut i: usize = 0;
    while i < items.len()
        invariant
            i <= items.len(),
            list.len() == items.len(),
            forall|j: int| 0 <= j < items.len() ==> list[j] == json_of(#[trigger] items[j]),
            list == items_in(json_of(*value)),
            json_of(*value) is List,
            grid.len() == i,
            forall|j: int|
                0 <= j < i ==> row_of(#[trigger] list[j]).is_some() && grid[j].deep_view()
                    == row_of(list[j]).unwrap(),
        decreases items.len() - i,
    {
        match read_row(&items[i]) {
            Some(row) => {
                assert(Some(row).deep_view() == Some(row.deep_view()));
                assert(list[i as int] == json_of(items[i as int]));
                assert(row_of(list[i as int]) == Some(row.deep_view()));
                grid.push(row);
            },
            None => {
                assert(row_of(list[i as int]).is_none());
                return None;
            },
        }
        i += 1;
    }
    assert(grid_of(json_of(*value)).is_some());
    assert(grid.deep_view() =~= grid_of(json_of(*value)).unwrap()) by {
        assert forall|j: int| 0 <= j < grid.len() implies grid.deep_view()[j] == row_of(
            list[j],
        ).unwrap() by {
            assert(grid.deep_view()[j] == grid[j].deep_view());
        }
    }
    Some(grid)
}

/// Reads the optional member `error` of an object.
fn read_error(value: &serde_json::Value) -> (r: Option<Option<String>>)
    requires
        json_of(*value) is Object,
    ensures
        r.deep_view() == error_of(json_of(*value)),
{
    match value_member(value, "error") {
        None => Some(None),
        Some(found) => match value_text(found) {
            Some(text) => Some(Some(String::from_str(text))),
            None => if value_is_null(found) {
                Some(None)
            } else {
                None
            },
        },
    }
}

/// Decodes a parsed JSON document as a table payload.
pub fn decode_table(value: &serde_json::Value) -> (r: Option<TableData>)
    ensures
        match r {
            Some(table) => table_of(json_of(*value)) == Some(table@),
            None => table_of(json_of(*value)).is_none(),
        },
{
    let columns = match value_member(value, "columns") {
        Some(found) => match read_columns(found) {
            Some(columns) => columns,
            None => { return None; },
        },
        None => { return None; },
    };
    let data = match value_member(value, "data") {
        Some(found) => match deserialize_string_array(found) {
            Some(data) => data,
            None => { return None; },
        },
        None => { return None; },
    };
    let error = match read_error(value) {
        Some(error) => error,
        None => { return None; },
    };
    Some(TableData { columns, data, error })
}

/// What a run of a script left behind: a scalar text or a table.
#[derive(Clone, Debug, PartialEq, Eq)]
pub enum ScriptResult {
    Scalar(String),
    Table { columns: Vec<String>, rows: Vec<Vec<String>> },
}

/// A script result as a mathematical value.
pub enum ScriptResultView {
    Scalar(Seq<char>),
    Table { columns: Seq<Seq<char>>, rows: Seq<Seq<Seq<char>>> },
}

impl View for ScriptResult {
    type V = ScriptResultView;

    open spec fn view(&self) -> ScriptResultView {
        match *self {
            ScriptResult::Scalar(text) => ScriptResultView::Scalar(text@),
            ScriptResult::Table { columns, rows } => ScriptResultView::Table {
                columns: columns.deep_view(),
                rows: rows.deep_view(),
            },
        }
    }
}

/// The results that a map of stored results stands for.
pub open spec fn results_of(map: Map<Seq<char>, ScriptResult>) -> Map<
    Seq<char>,
    ScriptResultView,
> {
    map.map_values(|result: ScriptResult| result@)
}

/// The result store: for each result key the result of the latest run that
/// produced one. A key is a script's name, or the script's name, an
/// underscore and a function's name.
pub struct ResultStore {
    entries: TextMap<ScriptResult>,
}

impl View for ResultStore {
    type V = Map<Seq<char>, ScriptResultView>;

    closed spec fn view(&self) -> Map<Seq<char>, ScriptResultView> {
        results_of(self.entries.map())
    }
}

impl ResultStore {
    /// A store without results.
    pub fn new() -> (store: Self)
        ensures
            store@ == Map::<Seq<char>, ScriptResultView>::empty(),
    {
        let store = ResultStore { entries: TextMap::new() };
        assert(store@ =~= Map::<Seq<char>, ScriptResultView>::empty());
        store
    }

    /// The result under `key`, if there is one.
    pub fn get(&self, key: &str) -> (r: Option<&ScriptResult>)
        ensures
            match r {
                Some(result) => self@.contains_key(key@) && result@ == self@[key@],
                None => !self@.contains_key(key@),
            },
    {
        self.entries.get(key)
    }

    /// Files `result` under `key`, in place of what was there.
    pub fn insert(&mut self, key: String, result: ScriptResult)
        ensures
            final(self)@ == old(self)@.insert(key@, result@),
    {
        self.entries.insert(key, result);
        assert(self@ =~= old(self)@.insert(key@, result@));
    }

    /// Drops every result.
    pub fn clear(&mut self)
        ensures
            final(self)@ == Map::<Seq<char>, ScriptResultView>::empty(),
    {
        self.entries.clear();
        assert(self@ =~= Map::<Seq<char>, ScriptResultView>::empty());
    }

    /// The number of keys that have a result.
    pub fn len(&self) -> (n: usize)
        ensures
            self@.dom().finite(),
            n == self@.dom().len(),
    {
        assert(self@.dom() =~= self.entries.map().dom());
        self.entries.len()
    }

    /// Whether no key has a result.
    pub fn is_empty(&self) -> (r: bool)
        ensures
            r == (self@ == Map::<Seq<char>, ScriptResultView>::empty()),
    {
        let r = self.entries.is_empty();
        proof {
            assert(self@.dom() =~= self.entries.map().dom());
            if r {
                assert(self@ =~= Map::<Seq<char>, ScriptResultView>::empty());
            } else {
                if self@ == Map::<Seq<char>, ScriptResultView>::empty() {
                    assert(self.entries.map() =~= Map::<Seq<char>, ScriptResult>::empty());
                }
            }
        }
        r
    }

    /// The keys that have a result, each once.
    pub fn keys(&self) -> (r: Vec<String>)
        ensures
            r.deep_view().no_duplicates(),
            forall|key: Seq<char>| r.deep_view().contains(key) <==> self@.contains_key(key),
    {
        self.entries.keys()
    }
}

/// The raw result lines of the scripts run since the list was last cleared,
/// in the order of the runs.
#[derive(Clone, Debug, PartialEq, Eq)]
pub struct ScriptOutputs {
    pub results: Vec<String>,
}

impl ScriptOutputs {
    /// An empty list.
    pub fn new() -> (outputs: Self)
        ensures
            outputs.results@.len() == 0,
    {
        ScriptOutputs { results: Vec::new() }
    }
}

} // verus!
