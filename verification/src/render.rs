//! The report renderer: a table (or a plain mapping-style dump) of the
//! accumulated per-type counters. The table text itself comes from
//! term_table; which rows, alignments and width it is given is proved here,
//! and the text is named as a function of exactly those.

use vstd::prelude::*;
use vstd::string::StringExecFns;
use crate::analysis::{Analysis, EntryModel};
use crate::decimal::{decimal_string, spec_decimal};

verus! {

#[verifier::external_type_specification]
#[verifier::external_body]
/// term_table's table type, declared so that values of it can pass through
/// verified code.
pub struct ExTable(term_table::Table);

#[verifier::external_type_specification]
#[verifier::external_body]
/// term_table's row type, declared so that values of it can pass through
/// verified code.
pub struct ExRow(term_table::row::Row);

#[verifier::external_type_specification]
#[verifier::external_body]
/// term_table's cell type, declared so that values of it can pass through
/// verified code.
pub struct ExTableCell(term_table::table_cell::TableCell);

/// Which way a cell's content is aligned.
#[derive(Clone, Copy, Debug, PartialEq, Eq, Structural)]
pub enum CellAlign {
    /// Content at the left edge.
    Left,
    /// Content centered.
    Center,
    /// Content at the right edge.
    Right,
}

/// Names what a cell holds: its text and its alignment.
pub uninterp spec fn cell_content(c: term_table::table_cell::TableCell) -> (Seq<char>, CellAlign);

/// Names whether a cell is in the plain shape the two constructors below
/// produce: it spans one column and its content is padded.
pub uninterp spec fn cell_std(c: term_table::table_cell::TableCell) -> bool;

/// Names what a row holds: the content of its cells, in order.
pub uninterp spec fn row_cells(r: term_table::row::Row) -> Seq<(Seq<char>, CellAlign)>;

/// Names whether a row is in the plain shape `row_of` produces: it keeps its
/// separator and all its cells are plain.
pub uninterp spec fn row_std(r: term_table::row::Row) -> bool;

/// Names what a table holds: for each row in order, the content of its cells
/// in order.
pub uninterp spec fn table_rows(t: term_table::Table) -> Seq<Seq<(Seq<char>, CellAlign)>>;

/// Names the table's maximum column display width.
pub uninterp spec fn table_width(t: term_table::Table) -> nat;

/// Names whether everything else about the table is as `Table::new` leaves
/// it (extended style, separated rows, both borders, no per-column width
/// overrides) with every held row plain. Under this shape the rendered text
/// is a function of the rows and the width alone.
pub uninterp spec fn table_std_config(t: term_table::Table) -> bool;

/// Names the text that term_table renders for a plainly-configured table
/// holding exactly these rows under this maximum column width.
pub uninterp spec fn table_text_of(rows: Seq<Seq<(Seq<char>, CellAlign)>>, width: nat) -> Seq<
    char,
>;

/// Relies on term_table::Table::new: a table that starts with no rows, in
/// the extended style with the default flags and no width overrides.
#[verifier::external_body]
fn table_new() -> (t: term_table::Table)
    ensures
        table_rows(t) == Seq::<Seq<(Seq<char>, CellAlign)>>::empty(),
        table_std_config(t),
{
    term_table::Table::new()
}

/// Relies on term_table::Table::max_column_width: caps the display width of
/// every column; the rows and everything else are left as they are.
#[verifier::external_body]
fn table_set_max_column_width(t: &mut term_table::Table, width: usize)
    ensures
        table_rows(*final(t)) == table_rows(*old(t)),
        table_std_config(*final(t)) == table_std_config(*old(t)),
        table_width(*final(t)) == width as nat,
{
    t.max_column_width(width);
}

/// Relies on term_table::table_cell::TableCell::new: a plain cell holding
/// exactly the given text, left-aligned.
#[verifier::external_body]
fn cell_plain(text: &str) -> (c: term_table::table_cell::TableCell)
    ensures
        cell_content(c) == (text@, CellAlign::Left),
        cell_std(c),
{
    term_table::table_cell::TableCell::new(text)
}

/// Relies on term_table::table_cell::TableCell::new_with_alignment: a plain
/// cell holding exactly the given text, spanning one column, aligned as
/// asked.
#[allow(deprecated)]
#[verifier::external_body]
fn cell_aligned(text: &str, align: CellAlign) -> (c: term_table::table_cell::TableCell)
    ensures
        cell_content(c) == (text@, align),
        cell_std(c),
{
    term_table::table_cell::TableCell::new_with_alignment(text, 1, match align {
        CellAlign::Left => term_table::table_cell::Alignment::Left,
        CellAlign::Center => term_table::table_cell::Alignment::Center,
        CellAlign::Right => term_table::table_cell::Alignment::Right,
    })
}

/// Relies on term_table::row::Row::new: a row holding exactly the given
/// cells, in order, with its separator; it is plain exactly when all its
/// cells are.
#[verifier::external_body]
fn row_of(cells: Vec<term_table::table_cell::TableCell>) -> (r: term_table::row::Row)
    ensures
        row_cells(r) == cells@.map_values(
            |c: term_table::table_cell::TableCell| cell_content(c),
        ),
        row_std(r) == (forall|i: int|
            0 <= i < cells@.len() ==> cell_std(#[trigger] cells@[i])),
{
    term_table::row::Row::new(cells)
}

/// Relies on term_table::Table::add_row: appends the row after the existing
/// ones; width and flags are untouched, and the table stays plain exactly
/// when it was and the new row is.
#[verifier::external_body]
fn table_add_row(t: &mut term_table::Table, row: term_table::row::Row)
    ensures
        table_rows(*final(t)) == table_rows(*old(t)).push(row_cells(row)),
        table_width(*final(t)) == table_width(*old(t)),
        table_std_config(*final(t)) == (table_std_config(*old(t)) && row_std(row)),
{
    t.add_row(row)
}

/// Relies on term_table::Table::render: formats the rows as a textual
/// table. For a plainly-configured table the text is a function of the held
/// rows and the maximum column width alone, which `table_text_of` names.
#[verifier::external_body]
fn table_render(t: &term_table::Table) -> (r: String)
    requires
        table_std_config(*t),
    ensures
        r@ == table_text_of(table_rows(*t), table_width(*t)),
{
    t.render()
}

/// The display width every report caps its columns at.
pub const REPORT_MAX_COLUMN_WIDTH: usize = 40;

/// The content of one data row of the report: the raw type key at the left,
/// then the two counters in base 10, right-aligned.
pub open spec fn spec_data_row(e: EntryModel) -> Seq<(Seq<char>, CellAlign)> {
    seq![
        (e.key, CellAlign::Left),
        (spec_decimal(e.count), CellAlign::Right),
        (spec_decimal(e.bytes), CellAlign::Right),
    ]
}

/// The logical report: the centered three-column header row, then one data
/// row per entry, in insertion order.
pub open spec fn spec_report_rows(m: Seq<EntryModel>) -> Seq<Seq<(Seq<char>, CellAlign)>> {
    seq![
        seq![
            ("Type"@, CellAlign::Center),
            ("Number of objects"@, CellAlign::Center),
            ("Total byte size"@, CellAlign::Center),
        ],
    ].add(m.map_values(|e: EntryModel| spec_data_row(e)))
}

impl Analysis {
    /// Build the report table: a centered three-column header, then, for
    /// each entry in insertion order, a row carrying the raw type key and
    /// the two counters in base 10, right-aligned; columns capped at the
    /// report width. An empty analysis gives a table holding the header row
    /// alone.
    pub fn build_report_table(&self) -> (t: term_table::Table)
        ensures
            table_rows(t) == spec_report_rows(self.model()),
            table_width(t) == REPORT_MAX_COLUMN_WIDTH as nat,
            table_std_config(t),
    {
        let data = self.get_data();
        let mut t = table_new();
        table_set_max_column_width(&mut t, REPORT_MAX_COLUMN_WIDTH);
        let mut hcells: Vec<term_table::table_cell::TableCell> = Vec::new();
        hcells.push(cell_aligned("Type", CellAlign::Center));
        hcells.push(cell_aligned("Number of objects", CellAlign::Center));
        hcells.push(cell_aligned("Total byte size", CellAlign::Center));
        table_add_row(&mut t, row_of(hcells));
        proof {
            assert(table_rows(t) =~~= spec_report_rows(self.model().take(0)));
        }
        let n = data.len();
        let mut i: usize = 0;
        while i < n
            invariant
                i <= n,
                n == self.model().len(),
                data@.len() == n,
                forall|j: int|
                    0 <= j < n ==> {
                        &&& (#[trigger] data@[j]).0@ == self.model()[j].key
                        &&& data@[j].1.count() == self.model()[j].count
                        &&& data@[j].1.bytes() == self.model()[j].bytes
                    },
                table_rows(t) == spec_report_rows(self.model().take(i as int)),
                table_width(t) == REPORT_MAX_COLUMN_WIDTH as nat,
                table_std_config(t),
            decreases n - i,
        {
            let mut cells: Vec<term_table::table_cell::TableCell> = Vec::new();
            cells.push(cell_plain(data[i].0.as_str()));
            let count = data[i].1.object_count();
            let bytes = data[i].1.total_byte_size();
            let count_text = decimal_string(count as usize);
            let bytes_text = decimal_string(bytes);
            cells.push(cell_aligned(count_text.as_str(), CellAlign::Right));
            cells.push(cell_aligned(bytes_text.as_str(), CellAlign::Right));
            table_add_row(&mut t, row_of(cells));
            proof {
                assert(table_rows(t) =~~= spec_report_rows(self.model().take(i as int + 1)));
            }
            i += 1;
        }
        proof {
            assert(self.model().take(n as int) =~= self.model());
        }
        t
    }

    /// Render the report as a textual table: exactly the text term_table
    /// gives the rows of `build_report_table` — the centered header and one
    /// data row per entry — under the report's column width.
    pub fn render_table(&self) -> (r: String)
        ensures
            r@ == table_text_of(
                spec_report_rows(self.model()),
                REPORT_MAX_COLUMN_WIDTH as nat,
            ),
    {
        let t = self.build_report_table();
        table_render(&t)
    }
}

/// The mapping-style dump of one entry: `key: (count, bytes)`.
pub open spec fn spec_entry_text(e: EntryModel) -> Seq<char> {
    e.key + ": ("@ + spec_decimal(e.count) + ", "@ + spec_decimal(e.bytes) + ")"@
}

/// The mapping-style dump of the entries, comma-separated, in insertion
/// order.
pub open spec fn spec_debug_body(m: Seq<EntryModel>) -> Seq<char>
    decreases m.len(),
{
    if m.len() == 0 {
        Seq::empty()
    } else if m.len() == 1 {
        spec_entry_text(m[0])
    } else {
        spec_debug_body(m.drop_last()) + ", "@ + spec_entry_text(m.last())
    }
}

/// The whole mapping-style dump: the entries between braces.
pub open spec fn spec_debug_text(m: Seq<EntryModel>) -> Seq<char> {
    "{"@ + spec_debug_body(m) + "}"@
}

impl Analysis {
    /// Render the entries as a mapping-style debug dump instead of a table:
    /// `{key: (count, bytes), ...}` in insertion order, the raw type key as
    /// the key text and the counters in base 10.
    pub fn render_debug(&self) -> (r: String)
        ensures
            r@ == spec_debug_text(self.model()),
    {
        let data = self.get_data();
        let mut s = String::from_str("{");
        proof {
            assert(s@ =~= "{"@ + spec_debug_body(self.model().take(0)));
        }
        let n = data.len();
        let mut i: usize = 0;
        while i < n
            invariant
                i <= n,
                n == self.model().len(),
                data@.len() == n,
                forall|j: int|
                    0 <= j < n ==> {
                        &&& (#[trigger] data@[j]).0@ == self.model()[j].key
                        &&& data@[j].1.count() == self.model()[j].count
                        &&& data@[j].1.bytes() == self.model()[j].bytes
                    },
                s@ == "{"@ + spec_debug_body(self.model().take(i as int)),
            decreases n - i,
        {
            if i > 0 {
                s.append(", ");
            }
            s.append(data[i].0.as_str());
            s.append(": (");
            let count = data[i].1.object_count();
            let bytes = data[i].1.total_byte_size();
            let count_text = decimal_string(count as usize);
            s.append(count_text.as_str());
            s.append(", ");
            let bytes_text = decimal_string(bytes);
            s.append(bytes_text.as_str());
            s.append(")");
            proof {
                assert(self.model().take(i as int + 1).drop_last() =~= self.model().take(
                    i as int,
                ));
                assert(s@ =~= "{"@ + spec_debug_body(self.model().take(i as int + 1)));
            }
            i += 1;
        }
        s.append("}");
        proof {
            assert(self.model().take(n as int) =~= self.model());
            assert(s@ =~= spec_debug_text(self.model()));
        }
        s
    }
}

} // verus!
