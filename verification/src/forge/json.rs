//! JSON, as the platforms' command line tools write it.
use vstd::prelude::*;

use crate::strmap;
use crate::text::args;
use crate::text::views;

verus! {

/// A value in a row of a JSON list, as far as it is of use.
pub enum Cell {
    /// Absent, null, a list, an object or a number that is negative, broken or too large.
    Nothing,
    Flag(bool),
    Number(u64),
    Text(String),
}

/// A value as it is seen in contracts.
pub enum CellView {
    Nothing,
    Flag(bool),
    Number(u64),
    Text(Seq<char>),
}

impl View for Cell {
    type V = CellView;

    open spec fn view(&self) -> CellView {
        match *self {
            Cell::Nothing => CellView::Nothing,
            Cell::Flag(b) => CellView::Flag(b),
            Cell::Number(n) => CellView::Number(n),
            Cell::Text(s) => CellView::Text(s@),
        }
    }
}

/// The values that a vector holds.
pub open spec fn cells(v: Seq<Cell>) -> Seq<CellView> {
    v.map_values(|c: Cell| c@)
}

/// The values that stand at a path of keys in the rows of a JSON list; none where the
/// text is no JSON list.
pub uninterp spec fn json_column(text: Seq<char>, path: Seq<Seq<char>>) -> Option<Seq<CellView>>;

/// `serde_json::from_str` into a list of values, and in each of them the value that
/// indexing by the keys, one after another, reaches. What it gives is a function of
/// the text and the keys.
#[verifier::external_body]
pub(crate) fn read_column(text: &str, path: &[&str]) -> (r: Option<Vec<Cell>>)
    ensures
        match r {
            Some(v) => json_column(text@, args::texts(path@)) == Some(cells(v@)),
            None => json_column(text@, args::texts(path@)) is None,
        },
{
    let rows: Vec<serde_json::Value> = serde_json::from_str(text).ok()?;
    let cell = |row: &serde_json::Value| match path.iter().fold(row, |v, k| &v[*k]) {
        serde_json::Value::Bool(b) => Cell::Flag(*b),
        serde_json::Value::Number(n) => n.as_u64().map_or(Cell::Nothing, Cell::Number),
        serde_json::Value::String(s) => Cell::Text(s.clone()),
        _ => Cell::Nothing,
    };
    Some(rows.iter().map(cell).collect())
}

/// The value in row `i`.
pub open spec fn cell_at(column: Seq<CellView>, i: int) -> CellView {
    if 0 <= i < column.len() {
        column[i]
    } else {
        CellView::Nothing
    }
}

impl CellView {
    /// The number, if it is one.
    pub open spec fn number(self) -> Option<u64> {
        match self {
            CellView::Number(n) => Some(n),
            _ => None,
        }
    }

    /// The text, if it is one.
    pub open spec fn text(self) -> Option<Seq<char>> {
        match self {
            CellView::Text(s) => Some(s),
            _ => None,
        }
    }

    /// Whether it is true.
    pub open spec fn is_true(self) -> bool {
        self == CellView::Flag(true)
    }
}

/// The number in row `i`, if there is one.
pub fn number_at(column: &Vec<Cell>, i: usize) -> (r: Option<u64>)
    ensures
        r == cell_at(cells(column@), i as int).number(),
{
    if i < column.len() {
        match &column[i] {
            Cell::Number(n) => Some(*n),
            _ => None,
        }
    } else {
        None
    }
}

/// The text in row `i`, if there is one.
pub fn text_at(column: &Vec<Cell>, i: usize) -> (r: Option<String>)
    ensures
        views::opt(r) == cell_at(cells(column@), i as int).text(),
{
    if i < column.len() {
        match &column[i] {
            Cell::Text(s) => Some(s.clone()),
            _ => None,
        }
    } else {
        None
    }
}

/// Whether the value in row `i` is true.
pub fn true_at(column: &Vec<Cell>, i: usize) -> (r: bool)
    ensures
        r == cell_at(cells(column@), i as int).is_true(),
{
    if i < column.len() {
        match &column[i] {
            Cell::Flag(b) => *b,
            _ => false,
        }
    } else {
        false
    }
}

/// The columns that a list of JSON rows holds at the paths; no rows where the text is
/// no such list.
pub open spec fn column_of(text: Seq<char>, path: Seq<Seq<char>>) -> Seq<CellView> {
    match json_column(text, path) {
        Some(c) => c,
        None => seq![],
    }
}

/// The column at the path; no rows where the text is no JSON list.
pub fn column(text: &str, path: &[&str]) -> (r: Vec<Cell>)
    ensures
        cells(r@) == column_of(text@, args::texts(path@)),
{
    match read_column(text, path) {
        Some(v) => v,
        None => {
            let v: Vec<Cell> = Vec::new();
            proof {
                assert(cells(v@) =~= Seq::<CellView>::empty());
            }
            v
        },
    }
}

/// The last 32 bits of a number.
pub open spec fn low_bits(n: u64) -> u32 {
    (n % 0x1_0000_0000) as u32
}

/// The last 32 bits of a number.
pub fn to_low_bits(n: u64) -> (r: u32)
    ensures
        r == low_bits(n),
{
    (n % 0x1_0000_0000) as u32
}

/// The entries of a JSON object of strings, ordered by key; none where the text is no
/// such object.
pub uninterp spec fn json_table(text: Seq<char>) -> Option<Seq<(Seq<char>, Seq<char>)>>;

/// `serde_json::from_str` into a map of strings, of which the entries come out in the
/// order of their keys, each key once. What it gives is a function of the text.
#[verifier::external_body]
pub(crate) fn read_table(text: &str) -> (r: Option<Vec<(String, String)>>)
    ensures
        match r {
            Some(v) => json_table(text@) == Some(views::pairs(v@)) && strmap::distinct_keys(
                views::pairs(v@),
            ),
            None => json_table(text@) is None,
        },
{
    let m: std::collections::BTreeMap<String, String> = serde_json::from_str(text).ok()?;
    Some(m.into_iter().collect())
}

/// `serde_json::to_string_pretty` of a map of strings: it does not fail, and what it
/// writes reads back as the same map.
#[verifier::external_body]
pub(crate) fn write_table(entries: &Vec<(String, String)>) -> (r: Option<String>)
    requires
        strmap::distinct_keys(views::pairs(entries@)),
    ensures
        match r {
            Some(t) => json_table(t@) is Some && forall|k: Seq<char>|
                #[trigger] strmap::lookup(json_table(t@)->0, k) == strmap::lookup(
                    views::pairs(entries@),
                    k,
                ),
            None => false,
        },
{
    let m: std::collections::BTreeMap<&String, &String> = entries.iter().map(|e| (&e.0, &e.1))
        .collect();
    serde_json::to_string_pretty(&m).ok()
}

} // verus!
