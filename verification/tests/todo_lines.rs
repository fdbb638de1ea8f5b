use core::iter::zip;
use org_reminder::date::DateTime;
use org_reminder::todo::Todo;

#[test]
fn test_finding_date() {
    let line0 = "*TODO this should be good <2023-08-08>";
    let line1 = "*TODO this should be good <2023-08-08 Sun 10:10>";
    let line2 = "*TODO this should be good too <2023-08-08 10:10>";
    assert_eq!(Todo::find_date(line0), Some("2023-08-08"));
    assert_eq!(Todo::find_date(line1), Some("2023-08-08 Sun 10:10"));
    assert_eq!(Todo::find_date(line2), Some("2023-08-08 10:10"))
}

#[test]
fn testing_parse_todo() {
    let line0 = "*TODO this should be good <2023-08-08>";
    let line1 = "*TODO this should be good <2023-08-08 Sun 10:10>";
    let line2 = "*TODO this should be good too <2023-08-08 10:10>";
    let line3 = "*TODO this should be no gucci <Sun 10:10>";
    let line4 = "**TODO this should be no gucci <10:10>";
    let good_lines = vec![line0, line1, line2];
    let bad_lines = vec![line3, line4];
    for lines in good_lines {
        let x = Todo::parse_date(lines);
        assert!(x.is_ok())
    }
    for lines in bad_lines {
        let x = Todo::parse_date(lines);
        assert!(x.is_err())
    }
}

#[test]
fn filtering_lines() {
    let lines = vec![
        "this lines contains *TODO",
        "*TODO: ranger ma chambre DEADLINE: <blabla>",
        "*TODO: ranger ma chambre SCHEDULED: <blabla>",
        " ranger ma chambre SCHEDULED: <blabla>",
    ];
    let right_answers = vec![false, true, true, false];
    for (line, answer) in zip(lines, right_answers) {
        assert_eq!(Todo::filter(line), answer);
    }
}

#[test]
fn main_testing_parse_todo() {
    let line1 = "*TODO this should be good <2023-08-08 Mon 10:10>";
    let line2 = "*TODO this should be good too <2023-08-08 10:10>";
    let line3 = "*TODO this should be no gucci <Mon 10:10>";
    let line4 = "**TODO this should be no gucci <10:10>";
    let good_lines = vec![line1, line2];
    let bad_lines = vec![line3, line4];
    for lines in good_lines {
        let x = Todo::parse_todo(lines);
        println!("{}", lines);
        assert!(x.is_some(), "value of parsing: {:?}:", x.unwrap())
    }
    for lines in bad_lines {
        let x = Todo::parse_todo(lines);
        println!("{}", lines);
        assert!(x.is_none(), "value of parsing: {:?}:", x.unwrap())
    }
}

#[test]
fn parse_todo_keeps_everything_after_the_marker() {
    let todo = Todo::parse_todo("*TODO text <2023-08-08>").unwrap();
    assert_eq!(todo.item, " text <2023-08-08>");
    assert_eq!(todo.date, DateTime { year: 2023, month: 8, day: 8, hour: 0, minute: 0 });
}

#[test]
fn parse_todo_without_marker_is_none() {
    assert!(Todo::parse_todo("no marker here <2023-08-08>").is_none());
}

#[test]
fn build_requires_a_scheduling_marker() {
    assert!(Todo::build("*TODO text <2023-08-08>").is_none());
    let todo = Todo::build("*TODO text DEADLINE: <2023-08-08>").unwrap();
    assert_eq!(todo.item, " text DEADLINE: <2023-08-08>");
    assert_eq!(todo.date, DateTime { year: 2023, month: 8, day: 8, hour: 0, minute: 0 });
}

#[test]
fn build_drops_a_line_whose_timestamp_fails() {
    assert!(Todo::build("*TODO x SCHEDULED: <Mon 10:10>").is_none());
    assert!(Todo::build("*TODO x SCHEDULED: no token").is_none());
}

#[test]
fn records_compare_by_fields() {
    let a = Todo::parse_todo("*TODO a <2023-08-08>").unwrap();
    let b = Todo::parse_todo("*TODO a <2023-08-08>").unwrap();
    let c = Todo::parse_todo("*TODO b <2023-08-08>").unwrap();
    assert_eq!(a, b);
    assert_ne!(a, c);
}
