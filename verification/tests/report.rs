//! Tests of the two report renderings: the table and the debug dump.

use json_type_report::analysis::Analysis;
use json_type_report::decimal::decimal_string;
use json_type_report::interpret::analyze_lines;

fn analysis_of(texts: &[&str]) -> Analysis {
    let lines: Vec<String> = texts.iter().map(|t| t.to_string()).collect();
    let (_, result) = analyze_lines(&lines);
    result.expect("no fatal error expected")
}

#[allow(deprecated)]
fn expected_table(rows: &[Vec<(String, term_table::table_cell::Alignment)>]) -> String {
    let mut table = term_table::Table::new();
    table.max_column_width(40);
    for (i, row) in rows.iter().enumerate() {
        let cells: Vec<term_table::table_cell::TableCell> = row
            .iter()
            .map(|(text, align)| {
                if i == 0 || !matches!(align, term_table::table_cell::Alignment::Left) {
                    term_table::table_cell::TableCell::new_with_alignment(text, 1, *align)
                } else {
                    term_table::table_cell::TableCell::new(text)
                }
            })
            .collect();
        table.add_row(term_table::row::Row::new(cells));
    }
    table.render()
}

fn header_row() -> Vec<(String, term_table::table_cell::Alignment)> {
    vec![
        ("Type".to_string(), term_table::table_cell::Alignment::Center),
        (
            "Number of objects".to_string(),
            term_table::table_cell::Alignment::Center,
        ),
        (
            "Total byte size".to_string(),
            term_table::table_cell::Alignment::Center,
        ),
    ]
}

#[test]
fn empty_analysis_renders_header_only_table() {
    let analysis = analysis_of(&[]);
    let rendered = analysis.render_table();
    let expected = expected_table(&[header_row()]);
    assert_eq!(rendered, expected);
}

#[test]
fn table_holds_one_row_per_type_in_insertion_order() {
    let analysis = analysis_of(&["{\"type\":\"b\"}", "{\"type\":\"a\"}", "{\"type\":\"b\"}"]);
    let rendered = analysis.render_table();
    let expected = expected_table(&[
        header_row(),
        vec![
            ("\"b\"".to_string(), term_table::table_cell::Alignment::Left),
            ("2".to_string(), term_table::table_cell::Alignment::Right),
            ("24".to_string(), term_table::table_cell::Alignment::Right),
        ],
        vec![
            ("\"a\"".to_string(), term_table::table_cell::Alignment::Left),
            ("1".to_string(), term_table::table_cell::Alignment::Right),
            ("12".to_string(), term_table::table_cell::Alignment::Right),
        ],
    ]);
    assert_eq!(rendered, expected);
}

#[test]
fn debug_dump_is_exact() {
    let analysis = analysis_of(&["{\"type\":\"a\"}"]);
    assert_eq!(analysis.render_debug(), "{\"a\": (1, 12)}");
}

#[test]
fn debug_dump_separates_entries_with_commas() {
    let analysis = analysis_of(&["{\"type\":\"a\"}", "{\"type\":42}", "{\"type\":\"a\"}"]);
    assert_eq!(analysis.render_debug(), "{\"a\": (2, 24), 42: (1, 11)}");
}

#[test]
fn empty_analysis_debug_dump_is_braces() {
    let analysis = analysis_of(&[]);
    assert_eq!(analysis.render_debug(), "{}");
}

#[test]
fn decimal_rendering_is_base_ten() {
    assert_eq!(decimal_string(0), "0");
    assert_eq!(decimal_string(7), "7");
    assert_eq!(decimal_string(10), "10");
    assert_eq!(decimal_string(40), "40");
    assert_eq!(decimal_string(12345), "12345");
    assert_eq!(decimal_string(1000000), "1000000");
}
