use uosql_webclient::table::{display, display_data, display_meta, display_seperator, Column,
    RowSet, SqlType};

fn col(name: &str, sql_type: SqlType, pk: bool, null: bool, desc: &str) -> Column {
    Column {
        name: name.to_string(),
        sql_type,
        is_primary_key: pk,
        allow_null: null,
        description: desc.to_string(),
    }
}

#[test]
fn separator_single_column() {
    assert_eq!(display_seperator(&vec![12]), "+--------------+\n");
}

#[test]
fn separator_caps_width_at_thirty() {
    assert_eq!(
        display_seperator(&vec![12, 35]),
        "+--------------+--------------------------------+\n"
    );
}

#[test]
fn separator_no_columns() {
    assert_eq!(display_seperator(&vec![]), "+\n");
}

#[test]
fn metadata_view_single_int_column() {
    let rows = RowSet {
        columns: vec![col("id", SqlType::Int, true, false, "row id")],
        data: vec![],
    };
    let expected = "\n+-------------+--------------+\n\
                    | Column name |      id      |\n\
                    +-------------+--------------+\n\
                    | Type        |     Int      |\n\
                    | Primary     |     true     |\n\
                    | Allow NULL  |    false     |\n\
                    | Description |    row id    |\n\
                    +-------------+--------------+\n";
    assert_eq!(display(&rows), expected);
}

#[test]
fn metadata_view_header_has_column_name_and_min_width() {
    let rows = RowSet {
        columns: vec![col("id", SqlType::Int, true, false, "row id")],
        data: vec![],
    };
    let out = display(&rows);
    assert!(out.contains("Column name"));
    // the column band is at least 12 wide, and the Primary row shows true
    assert!(out.contains("|      id      |"));
    assert!(out.contains("| Primary     |     true     |"));
}

#[test]
fn data_view_renders_header_band_only() {
    let rows = RowSet {
        columns: vec![
            col("id", SqlType::Int, true, false, "row id"),
            col("user", SqlType::VarChar, false, true, "who wrote the row"),
        ],
        data: vec![vec!["1".to_string(), "ada".to_string()]],
    };
    let expected = "+--------------+--------------+\n\
                    |      id      |     user     |\n\
                    +--------------+--------------+\n";
    assert_eq!(display(&rows), expected);
}

#[test]
fn long_name_truncated_in_data_view() {
    let name = "c".repeat(40);
    let rows = RowSet {
        columns: vec![col(&name, SqlType::VarChar, false, true, "long")],
        data: vec![vec!["x".to_string()]],
    };
    let expected = "+--------------------------------+\n\
                    | ccccccccccccccccccccccccccc... |\n\
                    +--------------------------------+\n";
    assert_eq!(display(&rows), expected);
}

#[test]
fn long_name_truncated_in_metadata_view() {
    let name = "c".repeat(40);
    let rows = RowSet {
        columns: vec![col(&name, SqlType::VarChar, false, true, "long")],
        data: vec![],
    };
    let expected = "\n+-------------+--------------------------------+\n\
                    | Column name | ccccccccccccccccccccccccccc... |\n\
                    +-------------+--------------------------------+\n\
                    | Type        |            VarChar             |\n\
                    | Primary     |             false              |\n\
                    | Allow NULL  |              true              |\n\
                    | Description |              long              |\n\
                    +-------------+--------------------------------+\n";
    assert_eq!(display(&rows), expected);
}

#[test]
fn long_description_truncated() {
    let desc = "d".repeat(31);
    let rows = RowSet {
        columns: vec![col("k", SqlType::Char, false, false, &desc)],
        data: vec![],
    };
    let out = display(&rows);
    assert!(out.contains(&format!("| {}... |", "d".repeat(27))));
}

#[test]
fn rendering_is_deterministic() {
    let make = || RowSet {
        columns: vec![
            col("id", SqlType::Int, true, false, "row id"),
            col("note", SqlType::VarChar, false, true, "free text"),
        ],
        data: vec![],
    };
    let a = make();
    let first = display(&a);
    let second = display(&a);
    assert_eq!(first, second);
    let b = make();
    assert_eq!(display(&b), first);
}

#[test]
fn empty_data_selects_metadata_view() {
    let rows = RowSet {
        columns: vec![col("id", SqlType::Int, true, false, "row id")],
        data: vec![],
    };
    assert_eq!(display(&rows), display_meta(&rows));
}

#[test]
fn nonempty_data_selects_data_view() {
    let rows = RowSet {
        columns: vec![col("id", SqlType::Int, true, false, "row id")],
        data: vec![vec!["7".to_string()]],
    };
    assert_eq!(display(&rows), display_data(&rows));
}

#[test]
fn metadata_view_no_columns() {
    let rows = RowSet { columns: vec![], data: vec![] };
    let expected = "\n+-------------+\n\
                    | Column name |\n\
                    +-------------+\n\
                    | Type        |\n\
                    | Primary     |\n\
                    | Allow NULL  |\n\
                    | Description |\n\
                    +-------------+\n";
    assert_eq!(display(&rows), expected);
}
