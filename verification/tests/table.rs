use elfprobe::table::TableBuilder;

fn row_of(cells: &[&str]) -> Vec<String> {
    cells.iter().map(|c| c.to_string()).collect()
}

#[test]
fn display_table() {
    let mut table = TableBuilder::new("Fafa");
    table.row(row_of(&["Dada { a: -1 }", "false", "foobar"]));
    table.row(row_of(&["42", "true", "Dada { a: 101 }"]));
    table.row(row_of(&["Looooooooooooooooong", "123"]));
    table.row(row_of(&["1", "2", "3", "4", "5", "6"]));
    let expected = "Fafa\n  Dada { a: -1 }       false foobar          \n  42                   true  Dada { a: 101 } \n  Looooooooooooooooong 123   \n  1                    2     3               4 5 6 \n";
    assert_eq!(table.finish(), expected);
}

#[test]
fn empty_table_renders_title_only() {
    let table = TableBuilder::new("Nothing");
    assert_eq!(table.finish(), "Nothing\n");
}
