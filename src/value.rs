//! Columns, cells, and the SQL literal that each cell is written as.
use vstd::prelude::*;
use crate::hex::{hex_of, hex_upper};
use crate::text::{chars_of, has_prefix, starts_with};

verus! {

broadcast use vstd::string::group_string_axioms;

/// The kinds of column whose values have an encoding of their own.
#[derive(PartialEq, Eq, Structural, Clone, Copy, Debug)]
pub enum ColumnKind {
    /// `VARCHAR2`, `NVARCHAR2`, `NVARCHAR`: a quoted text literal.
    Text,
    /// `NUMBER`: the value's text, unquoted.
    Number,
    /// `DATE`: a `TO_DATE` call on the value's text.
    Date,
    /// `BLOB`: a `HEXTORAW` call on the bytes in hexadecimal.
    Blob,
    /// Any other declared type: a placeholder literal naming the type.
    Unsupported,
}

/// One column of a table: its name and its declared type, as the database
/// reports them (a type may carry a size, as in `VARCHAR2(10)`).
#[derive(Clone, Debug)]
pub struct Column {
    pub name: String,
    pub sql_type: String,
}

/// One cell of a row, as read from the database.
#[derive(Clone, Debug)]
pub struct Cell {
    /// Whether the value is null; `None` where that could not be determined.
    pub null: Option<bool>,
    /// The value's text form.
    pub text: String,
    /// The value read as raw bytes; `None` where that read failed.
    pub bytes: Option<Vec<u8>>,
}

/// The kind of a column, by the prefix of its declared type (case-sensitive).
pub open spec fn kind_of(sql_type: Seq<char>) -> ColumnKind {
    if has_prefix(sql_type, "NVARCHAR2"@) || has_prefix(sql_type, "VARCHAR2"@) || has_prefix(
        sql_type,
        "NVARCHAR"@,
    ) {
        ColumnKind::Text
    } else if has_prefix(sql_type, "NUMBER"@) {
        ColumnKind::Number
    } else if has_prefix(sql_type, "DATE"@) {
        ColumnKind::Date
    } else if has_prefix(sql_type, "BLOB"@) {
        ColumnKind::Blob
    } else {
        ColumnKind::Unsupported
    }
}

/// `s` between single quotes.
pub open spec fn single_quoted(s: Seq<char>) -> Seq<char> {
    seq!['\''] + s + seq!['\'']
}

/// The literal for a cell of a column with the given declared type, or `None`
/// where no literal is written: when null-ness could not be determined, or
/// when the bytes of a `BLOB` value could not be read. Text is embedded as it
/// is: a single quote inside it is not doubled.
pub open spec fn literal_of(sql_type: Seq<char>, cell: Cell) -> Option<Seq<char>> {
    match cell.null {
        None => None,
        Some(true) => Some("NULL"@),
        Some(false) => match kind_of(sql_type) {
            ColumnKind::Text => Some(single_quoted(cell.text@)),
            ColumnKind::Number => Some(cell.text@),
            ColumnKind::Date => Some(
                "TO_DATE('"@ + cell.text@ + "','YYYY-MM-DD HH24:MI:SS')"@,
            ),
            ColumnKind::Blob => match cell.bytes {
                Some(b) => Some("HEXTORAW('"@ + hex_of(b@) + "')"@),
                None => None,
            },
            ColumnKind::Unsupported => Some("'not supported:"@ + sql_type + "'"@),
        },
    }
}

/// Reads a SQL text literal with no quote inside it: the characters between
/// the opening and the closing quote.
pub open spec fn parse_text_literal(l: Seq<char>) -> Option<Seq<char>> {
    if 2 <= l.len() && l[0] == '\'' && l.last() == '\'' && forall|i: int|
        1 <= i < l.len() - 1 ==> #[trigger] l[i] != '\'' {
        Some(l.subrange(1, l.len() - 1))
    } else {
        None
    }
}

/// A null cell is written `NULL`, whatever the column's declared type.
pub proof fn lemma_null_is_null(sql_type: Seq<char>, cell: Cell)
    requires
        cell.null == Some(true),
    ensures
        literal_of(sql_type, cell) == Some("NULL"@),
{
}

/// The literal of a non-null text value with no quote in it reads back as
/// that value.
pub proof fn lemma_text_round_trip(sql_type: Seq<char>, cell: Cell)
    requires
        kind_of(sql_type) == ColumnKind::Text,
        cell.null == Some(false),
        forall|i: int| 0 <= i < cell.text@.len() ==> #[trigger] cell.text@[i] != '\'',
    ensures
        literal_of(sql_type, cell) is Some,
        parse_text_literal(literal_of(sql_type, cell)->0) == Some(cell.text@),
{
    let l = single_quoted(cell.text@);
    assert forall|i: int| 1 <= i < l.len() - 1 implies #[trigger] l[i] != '\'' by {
        assert(l[i] == cell.text@[i - 1]);
    }
    assert(l.subrange(1, l.len() - 1) =~= cell.text@);
}

impl ColumnKind {
    /// Classifies a declared type by its prefix.
    pub fn of(sql_type: &str) -> (r: ColumnKind)
        ensures
            r == kind_of(sql_type@),
    {
        let t = chars_of(sql_type);
        if starts_with(&t, &chars_of("NVARCHAR2")) || starts_with(&t, &chars_of("VARCHAR2"))
            || starts_with(&t, &chars_of("NVARCHAR")) {
            ColumnKind::Text
        } else if starts_with(&t, &chars_of("NUMBER")) {
            ColumnKind::Number
        } else if starts_with(&t, &chars_of("DATE")) {
            ColumnKind::Date
        } else if starts_with(&t, &chars_of("BLOB")) {
            ColumnKind::Blob
        } else {
            ColumnKind::Unsupported
        }
    }
}

/// The literal for one cell of the given column; `None` where no literal is
/// written (see `literal_of`).
pub fn encode_value(column: &Column, cell: &Cell) -> (r: Option<String>)
    ensures
        r matches Some(s) ==> literal_of(column.sql_type@, *cell) == Some(s@),
        r is None ==> literal_of(column.sql_type@, *cell) is None,
{
    match cell.null {
        None => None,
        Some(true) => Some(String::from_str("NULL")),
        Some(false) => {
            let mut out = String::new();
            match ColumnKind::of(column.sql_type.as_str()) {
                ColumnKind::Text => {
                    out.push('\'');
                    out.append(cell.text.as_str());
                    out.push('\'');
                },
                ColumnKind::Number => {
                    out.append(cell.text.as_str());
                },
                ColumnKind::Date => {
                    out.append("TO_DATE('");
                    out.append(cell.text.as_str());
                    out.append("','YYYY-MM-DD HH24:MI:SS')");
                },
                ColumnKind::Blob => {
                    match &cell.bytes {
                        Some(b) => {
                            out.append("HEXTORAW('");
                            out.append(hex_upper(b).as_str());
                            out.append("')");
                        },
                        None => {
                            return None;
                        },
                    }
                },
                ColumnKind::Unsupported => {
                    out.append("'not supported:");
                    out.append(column.sql_type.as_str());
                    out.append("'");
                },
            }
            Some(out)
        },
    }
}

} // verus!
