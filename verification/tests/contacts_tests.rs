use panama::contacts::{members_from_rows, parse_row};

fn row(cells: &[&str]) -> Vec<String> {
    cells.iter().map(|c| c.to_string()).collect()
}

#[test]
fn parse_row_takes_six_cells() {
    let r = row(&["smith", "john", "john@example.com", "555-0100", "x", "y"]);
    let member = parse_row(&r).unwrap();
    assert_eq!(member.surname, "Smith");
    assert_eq!(member.first_name, "john");
    assert_eq!(member.email, "john@example.com");
    assert_eq!(member.mobile, "555-0100");
}

#[test]
fn parse_row_title_cases_a_compound_surname() {
    let r = row(&["van der berg", "anna", "anna@example.com", "555-0101", "x", "y"]);
    let member = parse_row(&r).unwrap();
    assert_eq!(member.surname, "Van Der Berg");
}

#[test]
fn parse_row_refuses_other_shapes() {
    let r = row(&["smith", "john"]);
    let e = parse_row(&r).unwrap_err();
    assert_eq!(e.cells, 2);
}

#[test]
fn members_come_from_the_rows_after_the_header() {
    let rows = vec![
        row(&["Some title"]),
        row(&["Surname", "First name", "Email", "Mobile", "a", "b"]),
        row(&["smith", "john", "john@example.com", "555-0100", "x", "y"]),
        row(&["jones", "mary", "mary@example.com", "555-0101", "x", "y"]),
        row(&["Page 2 of 2"]),
        row(&["lost", "entry", "after@example.com", "555-0102", "x", "y"]),
    ];
    let members = members_from_rows(&rows);
    assert_eq!(members.len(), 2);
    assert_eq!(members[0].surname, "Smith");
    assert_eq!(members[0].first_name, "john");
    assert_eq!(members[1].surname, "Jones");
    assert_eq!(members[1].email, "mary@example.com");
}

#[test]
fn no_header_means_no_members() {
    let rows = vec![row(&["a", "b", "c", "d", "e", "f"])];
    let members = members_from_rows(&rows);
    assert_eq!(members.len(), 0);
}
