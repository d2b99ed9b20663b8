//! The help text: a usage line and a table of the flags, laid out by the
//! `tabular` crate.

use vstd::prelude::*;
use crate::arg::{Arg, ArgModel};
use crate::text::{owned, upper_of};

verus! {

#[verifier::external_type_specification]
#[verifier::external_body]
pub struct ExTable(tabular::Table);

/// The rows of cells that a table holds, in the order they were added.
pub uninterp spec fn table_rows(t: tabular::Table) -> Seq<Seq<Seq<char>>>;

/// The number of columns that a table was laid out with.
pub uninterp spec fn table_columns(t: tabular::Table) -> nat;

/// The row layout (format string) that a table was made with.
pub uninterp spec fn table_layout(t: tabular::Table) -> Seq<char>;

/// The text that a table prints at the end of each line.
pub uninterp spec fn table_line_end(t: tabular::Table) -> Seq<char>;

/// The text of a table made with row layout `layout`, ending each line with
/// `line_end`, and holding `rows`.
pub uninterp spec fn rendered(
    layout: Seq<char>,
    line_end: Seq<char>,
    rows: Seq<Seq<Seq<char>>>,
) -> Seq<char>;

/// The layout of the flags' table: four left-aligned columns parted by one space.
pub open spec fn options_layout() -> Seq<char> {
    "{:<} {:<} {:<} {:<}"@
}

/// The text of the flags' table holding `rows`.
pub open spec fn options_text(rows: Seq<Seq<Seq<char>>>) -> Seq<char> {
    rendered(options_layout(), "\n"@, rows)
}

/// Relies on `tabular::Table::new`: the layout of four left-aligned columns
/// parted by one space is well formed; the new table has that layout, four
/// columns, no rows, and the default line end `"\n"`.
#[verifier::external_body]
fn four_columns() -> (r: tabular::Table)
    ensures
        table_rows(r) == Seq::<Seq<Seq<char>>>::empty(),
        table_columns(r) == 4,
        table_layout(r) == options_layout(),
        table_line_end(r) == "\n"@,
{
    tabular::Table::new("{:<} {:<} {:<} {:<}")
}

/// Relies on `tabular::Table::add_row` (with a row made by
/// `tabular::Row::from_cells`): the row of `cells` is appended; it panics
/// unless the row has as many cells as the table has columns.
#[verifier::external_body]
fn add_row(t: &mut tabular::Table, cells: &Vec<String>)
    requires
        cells@.len() == table_columns(*old(t)),
    ensures
        table_rows(*final(t)) == table_rows(*old(t)).push(cells@.map_values(|c: String| c@)),
        table_columns(*final(t)) == table_columns(*old(t)),
        table_layout(*final(t)) == table_layout(*old(t)),
        table_line_end(*final(t)) == table_line_end(*old(t)),
{
    t.add_row(tabular::Row::from_cells(cells.iter().cloned()));
}

/// Relies on `tabular::Table`'s `Display`: the table's text depends on its
/// row layout, its line end and its rows alone.
#[verifier::external_body]
fn render(t: &tabular::Table) -> (r: String)
    ensures
        r@ == rendered(table_layout(*t), table_line_end(*t), table_rows(*t)),
{
    t.to_string()
}

/// The views of rows of owned texts.
pub open spec fn rows_view(rows: Seq<Vec<String>>) -> Seq<Seq<Seq<char>>> {
    rows.map_values(|r: Vec<String>| r@.map_values(|c: String| c@))
}

/// The cells of a flag's row: a margin, the short spelling with its dash
/// (empty where there is none), the long spelling with its dashes, and the
/// help text.
pub open spec fn option_cells(o: ArgModel) -> Seq<Seq<char>> {
    seq![
        " "@,
        if o.short.len() == 0 {
            Seq::empty()
        } else {
            "-"@ + o.short
        },
        "--"@ + o.long,
        o.help,
    ]
}

/// The rows of the flags' table.
pub open spec fn option_rows(os: Seq<ArgModel>) -> Seq<Seq<Seq<char>>> {
    os.map_values(|o: ArgModel| option_cells(o))
}

/// The names in upper case, each after one space.
pub open spec fn upper_names(ns: Seq<Seq<char>>) -> Seq<char>
    decreases ns.len(),
{
    if ns.len() == 0 {
        Seq::empty()
    } else {
        upper_names(ns.drop_last()) + " "@ + upper_of(ns.last())
    }
}

/// Lays out rows of four cells as a table.
pub fn options_table(rows: &Vec<Vec<String>>) -> (r: String)
    requires
        forall|i: int| 0 <= i < rows@.len() ==> (#[trigger] rows@[i])@.len() == 4,
    ensures
        r@ == options_text(rows_view(rows@)),
{
    let mut t = four_columns();
    let mut i: usize = 0;
    while i < rows.len()
        invariant
            i <= rows@.len(),
            forall|j: int| 0 <= j < rows@.len() ==> (#[trigger] rows@[j])@.len() == 4,
            table_columns(t) == 4,
            table_layout(t) == options_layout(),
            table_line_end(t) == "\n"@,
            table_rows(t) == rows_view(rows@.take(i as int)),
        decreases rows.len() - i,
    {
        add_row(&mut t, &rows[i]);
        assert(rows_view(rows@.take(i + 1)) =~= rows_view(rows@.take(i as int)).push(
            rows@[i as int]@.map_values(|c: String| c@),
        ));
        i = i + 1;
    }
    assert(rows@.take(i as int) =~= rows@);
    render(&t)
}

/// The row of one flag in the flags' table.
pub fn option_row(o: &Arg) -> (r: Vec<String>)
    ensures
        r@.map_values(|c: String| c@) == option_cells(o@),
{
    let mut cells: Vec<String> = Vec::new();
    cells.push(owned(" "));
    let short = o.get_short();
    if short.is_empty() {
        proof {
            reveal_strlit("");
        }
        cells.push(owned(""));
    } else {
        cells.push(owned("-").concat(short));
    }
    cells.push(owned("--").concat(o.get_long()));
    cells.push(owned(o.get_help()));
    let ghost v = cells@.map_values(|c: String| c@);
    assert(v[0] == option_cells(o@)[0]);
    assert(v[1] == option_cells(o@)[1]);
    assert(v[2] == option_cells(o@)[2]);
    assert(v[3] == option_cells(o@)[3]);
    assert(cells@.map_values(|c: String| c@) =~= option_cells(o@));
    cells
}

} // verus!
