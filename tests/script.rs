use sqldump::config::{divide_ocistring, ocistring_is_divisible, AppState, SQLdumpRust};
use sqldump::ddl::{assemble_ddl, normalize_ddl};
use sqldump::hex::hex_upper;
use sqldump::script::{insert_statement, table_header, table_script};
use sqldump::text::split_on;
use sqldump::value::{encode_value, Cell, Column, ColumnKind};

fn column(name: &str, ty: &str) -> Column {
    Column { name: name.to_string(), sql_type: ty.to_string() }
}

fn text_cell(t: &str) -> Cell {
    Cell { null: Some(false), text: t.to_string(), bytes: None }
}

fn null_cell() -> Cell {
    Cell { null: Some(true), text: String::new(), bytes: None }
}

fn bytes_cell(b: &[u8]) -> Cell {
    Cell { null: Some(false), text: String::new(), bytes: Some(b.to_vec()) }
}

#[test]
fn number_and_varchar_row() {
    let cols = vec![column("ID", "NUMBER"), column("NAME", "VARCHAR2(10)")];
    let cells = vec![text_cell("1"), text_cell("abc")];
    assert_eq!(
        insert_statement("T", &cols, &cells),
        "Insert Into T (\"ID\",\"NAME\") VALUES (1,'abc');"
    );
}

#[test]
fn blob_literal() {
    let col = column("DATA", "BLOB");
    assert_eq!(
        encode_value(&col, &bytes_cell(&[0x0A, 0xFF])),
        Some("HEXTORAW('0AFF')".to_string())
    );
}

#[test]
fn empty_blob_literal() {
    let col = column("DATA", "BLOB");
    assert_eq!(encode_value(&col, &bytes_cell(&[])), Some("HEXTORAW('')".to_string()));
}

#[test]
fn unreadable_blob_is_skipped() {
    let col = column("DATA", "BLOB");
    let cell = Cell { null: Some(false), text: "x".to_string(), bytes: None };
    assert_eq!(encode_value(&col, &cell), None);
}

#[test]
fn date_literal() {
    let col = column("D", "DATE");
    assert_eq!(
        encode_value(&col, &text_cell("2024-01-02 03:04:05")),
        Some("TO_DATE('2024-01-02 03:04:05','YYYY-MM-DD HH24:MI:SS')".to_string())
    );
}

#[test]
fn alter_table_gap_is_terminated() {
    let out = normalize_ddl("CREATE TABLE \"T\" (\"ID\" NUMBER) \nALTER TABLE \"T\" ADD PRIMARY KEY");
    assert_eq!(out, "CREATE TABLE \"T\" (\"ID\" NUMBER);\nALTER TABLE \"T\" ADD PRIMARY KEY");
}

#[test]
fn unique_index_gap_is_terminated() {
    let out = normalize_ddl("CREATE TABLE \"T\" (\"ID\" NUMBER) \n  CREATE UNIQUE INDEX \"P\"");
    assert_eq!(out, "CREATE TABLE \"T\" (\"ID\" NUMBER);\n  CREATE UNIQUE INDEX \"P\"");
}

#[test]
fn normalizing_twice_changes_nothing() {
    let once = normalize_ddl("A \nALTER TABLE B \n  CREATE UNIQUE INDEX C \nALTER TABLE D");
    assert_eq!(normalize_ddl(&once), once);
}

#[test]
fn overlapping_alter_gaps_are_all_repaired() {
    let once = normalize_ddl(" \nALTER TABLE \nALTER TABLE x");
    assert_eq!(once, ";\nALTER TABLE;\nALTER TABLE x");
    assert_eq!(normalize_ddl(&once), once);
}

#[test]
fn fragments_are_joined_by_lines() {
    let frags = vec!["CREATE TABLE T (A NUMBER) ".to_string(), "ALTER TABLE T ADD X".to_string()];
    assert_eq!(assemble_ddl(&frags), "CREATE TABLE T (A NUMBER);\nALTER TABLE T ADD X\n;\n");
    assert_eq!(assemble_ddl(&vec![]), ";\n");
}

#[test]
fn empty_table_has_no_insert() {
    let state = AppState { drop: false };
    let frags = vec!["CREATE TABLE T (A NUMBER)".to_string()];
    let cols = vec![column("A", "NUMBER")];
    let out = table_script("T", &state, &frags, &cols, &vec![]);
    assert_eq!(out, "CREATE TABLE T (A NUMBER)\n;\n\nSET DEFINE OFF;\n");
    assert!(!out.contains("Insert Into"));
    assert_eq!(out, table_header("T", &state, &frags));
}

#[test]
fn drop_line_comes_first() {
    let state = AppState { drop: true };
    let frags = vec!["CREATE TABLE T (A NUMBER)".to_string()];
    let cols = vec![column("A", "NUMBER")];
    let rows = vec![vec![text_cell("7")], vec![null_cell()]];
    assert_eq!(
        table_script("T", &state, &frags, &cols, &rows),
        "DROP TABLE T;\nCREATE TABLE T (A NUMBER)\n;\n\nSET DEFINE OFF;\n\
         Insert Into T (\"A\") VALUES (7);\nInsert Into T (\"A\") VALUES (NULL);\n"
    );
}

#[test]
fn null_is_null_whatever_the_type() {
    for ty in ["NUMBER", "VARCHAR2(5)", "DATE", "BLOB", "CLOB", "TIMESTAMP(6)"] {
        assert_eq!(encode_value(&column("C", ty), &null_cell()), Some("NULL".to_string()));
    }
}

#[test]
fn undetermined_null_writes_nothing() {
    let cols = vec![column("A", "NUMBER"), column("B", "NUMBER"), column("C", "NUMBER")];
    let undetermined = Cell { null: None, text: "2".to_string(), bytes: None };
    let cells = vec![text_cell("1"), undetermined, text_cell("3")];
    assert_eq!(insert_statement("T", &cols, &cells), "Insert Into T (\"A\",\"B\",\"C\") VALUES (1,,3);");
}

#[test]
fn unsupported_type_placeholder() {
    assert_eq!(
        encode_value(&column("C", "CLOB"), &text_cell("x")),
        Some("'not supported:CLOB'".to_string())
    );
}

#[test]
fn text_kinds_are_quoted_verbatim() {
    for ty in ["VARCHAR2(100)", "NVARCHAR2(3)", "NVARCHAR"] {
        assert_eq!(encode_value(&column("C", ty), &text_cell("a b")), Some("'a b'".to_string()));
    }
    assert_eq!(encode_value(&column("C", "VARCHAR2"), &text_cell("it's")), Some("'it's'".to_string()));
}

#[test]
fn text_literal_round_trip() {
    let lit = encode_value(&column("C", "VARCHAR2(20)"), &text_cell("hello world")).unwrap();
    assert!(lit.starts_with('\'') && lit.ends_with('\''));
    assert_eq!(&lit[1..lit.len() - 1], "hello world");
}

#[test]
fn type_prefix_is_case_sensitive() {
    assert_eq!(ColumnKind::of("varchar2"), ColumnKind::Unsupported);
    assert_eq!(ColumnKind::of("NUMBER(10,2)"), ColumnKind::Number);
    assert_eq!(ColumnKind::of("DATE"), ColumnKind::Date);
    assert_eq!(ColumnKind::of("BLOB"), ColumnKind::Blob);
    assert_eq!(ColumnKind::of("NVARCHAR2(4)"), ColumnKind::Text);
    assert_eq!(ColumnKind::of(""), ColumnKind::Unsupported);
}

#[test]
fn hex_is_upper_and_decodes_back() {
    let bytes: Vec<u8> = (0u8..=255).collect();
    let h = hex_upper(&bytes);
    assert_eq!(h.len(), 512);
    assert!(h.chars().all(|c| c.is_ascii_digit() || ('A'..='F').contains(&c)));
    let back: Vec<u8> = (0..256).map(|i| u8::from_str_radix(&h[2 * i..2 * i + 2], 16).unwrap()).collect();
    assert_eq!(back, bytes);
}

#[test]
fn ocistring_is_divided() {
    let parts = divide_ocistring("admin/pass@//123.45.67.89/XEPDB1".to_string());
    assert_eq!(parts, vec!["admin", "pass", "//123.45.67.89/XEPDB1"]);
    assert!(ocistring_is_divisible("a/b@c"));
    assert!(!ocistring_is_divisible("a/b"));
    assert!(!ocistring_is_divisible("ab@c/d"));
}

#[test]
fn ocistring_extra_separators() {
    let parts = divide_ocistring("u/p/q@h@z".to_string());
    assert_eq!(parts, vec!["u", "p", "h"]);
}

#[test]
fn table_list_is_split_verbatim() {
    let opts = SQLdumpRust { tables: Some("A, B,,C".to_string()), drop: false, ocistring: None, dbenv: None };
    assert_eq!(opts.explicit_tables(), Some(vec!["A".to_string(), " B".to_string(), String::new(), "C".to_string()]));
    let none = SQLdumpRust { tables: None, ..opts };
    assert_eq!(none.explicit_tables(), None);
    assert_eq!(split_on("", ','), vec![String::new()]);
}

#[test]
fn connect_string_choice() {
    let opts = SQLdumpRust { tables: None, drop: false, ocistring: Some("a/b@c".to_string()), dbenv: None };
    assert_eq!(opts.connect_string(None), Some("a/b@c".to_string()));
    assert_eq!(opts.connect_string(Some("x/y@z".to_string())), Some("x/y@z".to_string()));
    assert_eq!(opts.connect_string(Some(String::new())), None);
    let bare = SQLdumpRust { tables: None, drop: false, ocistring: None, dbenv: None };
    assert_eq!(bare.connect_string(None), None);
    assert!(!AppState::default().drop);
}
