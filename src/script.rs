//! The text written for one table: an optional `DROP TABLE`, the DDL block,
//! `SET DEFINE OFF;`, and one `INSERT` per row.
use vstd::prelude::*;
use crate::config::AppState;
use crate::ddl::{assemble_ddl, ddl_text};
use crate::text::join_commas;
use crate::text::join_with_commas;
use crate::value::{encode_value, literal_of, Cell, Column};

verus! {

broadcast use vstd::string::group_string_axioms;

/// The views of a sequence of strings.
pub open spec fn views(v: Seq<String>) -> Seq<Seq<char>> {
    v.map_values(|s: String| s@)
}

/// `s` between double quotes.
pub open spec fn double_quoted(s: Seq<char>) -> Seq<char> {
    seq!['"'] + s + seq!['"']
}

/// The head of a table's text: the `DROP TABLE` line where the flag is set,
/// the DDL block and an empty line, then `SET DEFINE OFF;`.
pub open spec fn header_text(table: Seq<char>, drop: bool, fragments: Seq<Seq<char>>) -> Seq<
    char,
> {
    (if drop {
        "DROP TABLE "@ + table + ";\n"@
    } else {
        Seq::empty()
    }) + ddl_text(fragments) + "\n"@ + "SET DEFINE OFF;\n"@
}

/// The literal written for one cell; empty where none is written.
pub open spec fn written_literal(column: Column, cell: Cell) -> Seq<char> {
    match literal_of(column.sql_type@, cell) {
        Some(l) => l,
        None => Seq::empty(),
    }
}

/// The `INSERT` statement of one row, without a line end.
pub open spec fn insert_text(table: Seq<char>, columns: Seq<Column>, cells: Seq<Cell>) -> Seq<
    char,
> {
    "Insert Into "@ + table + " ("@ + join_commas(
        Seq::new(columns.len(), |i: int| double_quoted(columns[i].name@)),
    ) + ") VALUES ("@ + join_commas(
        Seq::new(cells.len(), |i: int| written_literal(columns[i], cells[i])),
    ) + ");"@
}

/// One `INSERT` line per row, in order.
pub open spec fn rows_text(table: Seq<char>, columns: Seq<Column>, rows: Seq<Seq<Cell>>) -> Seq<
    char,
>
    decreases rows.len(),
{
    if rows.len() == 0 {
        Seq::empty()
    } else {
        rows_text(table, columns, rows.drop_last()) + insert_text(table, columns, rows.last())
            + "\n"@
    }
}

/// The whole text of one table.
pub open spec fn script_text(
    table: Seq<char>,
    drop: bool,
    fragments: Seq<Seq<char>>,
    columns: Seq<Column>,
    rows: Seq<Seq<Cell>>,
) -> Seq<char> {
    header_text(table, drop, fragments) + rows_text(table, columns, rows)
}

/// The rows of a table, each as a sequence of cells.
pub open spec fn row_views(rows: Seq<Vec<Cell>>) -> Seq<Seq<Cell>> {
    rows.map_values(|r: Vec<Cell>| r@)
}

/// A table without rows is written as its head alone: the DDL block and
/// `SET DEFINE OFF;`, and no `INSERT`.
pub proof fn lemma_empty_table(
    table: Seq<char>,
    drop: bool,
    fragments: Seq<Seq<char>>,
    columns: Seq<Column>,
)
    ensures
        script_text(table, drop, fragments, columns, Seq::empty()) == header_text(
            table,
            drop,
            fragments,
        ),
{
    assert(script_text(table, drop, fragments, columns, Seq::empty()) =~= header_text(
        table,
        drop,
        fragments,
    ));
}

/// The head of a table's text, from the DDL fragments that the database
/// returned for it.
pub fn table_header(table: &str, state: &AppState, fragments: &Vec<String>) -> (r: String)
    ensures
        r@ == header_text(table@, state.drop, views(fragments@)),
{
    let mut out = String::new();
    if state.drop {
        out.append("DROP TABLE ");
        out.append(table);
        out.append(";\n");
    }
    let ddl = assemble_ddl(fragments);
    out.append(ddl.as_str());
    out.append("\n");
    out.append("SET DEFINE OFF;\n");
    out
}

/// The `INSERT` statement of one row, without a line end.
pub fn insert_statement(table: &str, columns: &Vec<Column>, cells: &Vec<Cell>) -> (r: String)
    requires
        columns@.len() == cells@.len(),
    ensures
        r@ == insert_text(table@, columns@, cells@),
{
    let mut names: Vec<String> = Vec::new();
    let mut literals: Vec<String> = Vec::new();
    let mut i: usize = 0;
    while i < cells.len()
        invariant
            columns@.len() == cells@.len(),
            i <= cells@.len(),
            names@.len() == i,
            literals@.len() == i,
            forall|k: int| 0 <= k < i ==> #[trigger] names@[k]@ == double_quoted(columns@[k].name@),
            forall|k: int|
                0 <= k < i ==> #[trigger] literals@[k]@ == written_literal(columns@[k], cells@[k]),
        decreases cells@.len() - i,
    {
        let mut name = String::new();
        name.push('"');
        name.append(columns[i].name.as_str());
        name.push('"');
        names.push(name);
        match encode_value(&columns[i], &cells[i]) {
            Some(l) => literals.push(l),
            None => literals.push(String::new()),
        }
        i = i + 1;
    }
    assert(views(names@) =~= Seq::new(
        columns@.len(),
        |k: int| double_quoted(columns@[k].name@),
    ));
    assert(views(literals@) =~= Seq::new(
        cells@.len(),
        |k: int| written_literal(columns@[k], cells@[k]),
    ));
    let names_list = join_with_commas(&names);
    let literal_list = join_with_commas(&literals);
    let mut out = String::new();
    out.append("Insert Into ");
    out.append(table);
    out.append(" (");
    out.append(names_list.as_str());
    out.append(") VALUES (");
    out.append(literal_list.as_str());
    out.append(");");
    out
}

/// The whole text of one table: its head, then one `INSERT` line per row.
pub fn table_script(
    table: &str,
    state: &AppState,
    fragments: &Vec<String>,
    columns: &Vec<Column>,
    rows: &Vec<Vec<Cell>>,
) -> (r: String)
    requires
        forall|k: int| 0 <= k < rows@.len() ==> #[trigger] rows@[k]@.len() == columns@.len(),
    ensures
        r@ == script_text(table@, state.drop, views(fragments@), columns@, row_views(rows@)),
{
    let mut out = table_header(table, state, fragments);
    let ghost head = out@;
    let ghost all = row_views(rows@);
    let mut i: usize = 0;
    while i < rows.len()
        invariant
            i <= rows@.len(),
            all == row_views(rows@),
            forall|k: int| 0 <= k < rows@.len() ==> #[trigger] rows@[k]@.len() == columns@.len(),
            out@ == head + rows_text(table@, columns@, all.subrange(0, i as int)),
        decreases rows@.len() - i,
    {
        let line = insert_statement(table, columns, &rows[i]);
        out.append(line.as_str());
        out.append("\n");
        i = i + 1;
        assert(all.subrange(0, i as int).drop_last() =~= all.subrange(0, i - 1));
    }
    assert(all.subrange(0, rows@.len() as int) =~= all);
    out
}

} // verus!
