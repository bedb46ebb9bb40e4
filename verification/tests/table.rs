use barley::table::{print_table, table_line, widths};

fn strings(list: &[&str]) -> Vec<String> {
    list.iter().map(|s| s.to_string()).collect()
}

#[test]
fn a_line_sets_each_field_in_its_column() {
    assert_eq!(table_line(&strings(&["a", "bcd", "e"]), &vec![3, 2, 4]), "a   bcd e");
    assert_eq!(table_line(&strings(&["a", "b"]), &vec![3]), "a");
    assert_eq!(table_line(&strings(&["a"]), &vec![3, 5]), "a");
    assert_eq!(table_line(&strings(&["", "x "]), &vec![2, 0]), "   x");
    assert_eq!(table_line(&Vec::new(), &vec![2]), "");
    let fields = ["IMAGE", "VERSION"];
    let expected: String = fields
        .iter()
        .zip([9usize, 7].iter())
        .map(|(f, w)| format!("{:1$} ", f, w))
        .collect::<String>()
        .trim_end()
        .to_string();
    assert_eq!(table_line(&strings(&fields), &vec![9, 7]), expected);
}

#[test]
fn columns_are_as_wide_as_their_widest_field_but_for_the_last() {
    let rows = vec![strings(&["base", "20230101"]), strings(&["a-long-name", "20230101.12"]), strings(&["x"])];
    assert_eq!(widths(&strings(&["IMAGE", "VERSION"]), &rows), vec![11, 7]);
    assert_eq!(widths(&strings(&["FIELD"]), &vec![strings(&["a-long-name"])]), vec![5]);
    assert_eq!(widths(&Vec::new(), &rows), Vec::<usize>::new());
}

#[test]
fn a_table_has_a_line_of_headings_and_a_line_for_each_row() {
    let rows = vec![strings(&["base", "20230101"]), strings(&["a-long-name", "20230101.12"])];
    assert_eq!(
        print_table(&rows, "images", &strings(&["IMAGE", "VERSION"])),
        ["IMAGE       VERSION", "base        20230101", "a-long-name 20230101.12"]
    );
    assert_eq!(print_table(&Vec::new(), "fields", &strings(&["FIELD"])), ["No fields."]);
}
