use org_reminder::date::DateTime;
use org_reminder::scan::{
    flatten_todos, generate_todos, is_org_name, iterate_over_file, selects_path, split_lines,
};
use org_reminder::todo::Todo;

fn dt(year: u16, month: u8, day: u8, hour: u8, minute: u8) -> DateTime {
    DateTime { year, month, day, hour, minute }
}

#[test]
fn splitting_lines() {
    let s = "a\nb\nc";
    assert_eq!(split_lines(s), vec!["a", "b", "c"]);
    assert_eq!(split_lines("a\nb\n"), vec!["a", "b"]);
    assert_eq!(split_lines("a\r\nb"), vec!["a", "b"]);
    assert_eq!(split_lines("a\n\nb"), vec!["a", "", "b"]);
    assert_eq!(split_lines(""), Vec::<String>::new());
    assert_eq!(split_lines("\n"), vec![""]);
    // a carriage return is stripped only when a newline terminated the line
    assert_eq!(split_lines("a\r\n"), vec!["a"]);
    assert_eq!(split_lines("a\r"), vec!["a\r"]);
}

#[test]
fn one_file_yields_its_qualifying_lines() {
    let file = "some heading\n\
                *TODO water the plants SCHEDULED: <2023-08-08>\n\
                a plain line\n\
                *TODO call back DEADLINE: <2023-09-05 Tue 10:06>\n\
                *TODO no schedule marker <2023-08-08>\n\
                *TODO bad stamp SCHEDULED: <Mon 10:10>\n";
    let todos = iterate_over_file(file);
    assert_eq!(todos.len(), 2);
    assert_eq!(todos[0].item, " water the plants SCHEDULED: <2023-08-08>");
    assert_eq!(todos[0].date, dt(2023, 8, 8, 0, 0));
    assert_eq!(todos[1].item, " call back DEADLINE: <2023-09-05 Tue 10:06>");
    assert_eq!(todos[1].date, dt(2023, 9, 5, 0, 0));
}

#[test]
fn a_scan_flattens_all_files() {
    let with_two = String::from(
        "*TODO a SCHEDULED: <2023-08-08>\n*TODO b DEADLINE: <2023-08-09 10:30>\n",
    );
    let with_none = String::from("nothing to see\nhere\n");
    let files = vec![with_two, with_none];
    let todos = generate_todos(&files);
    assert_eq!(todos.len(), 2);
    assert_eq!(todos[0].date, dt(2023, 8, 8, 0, 0));
    assert_eq!(todos[1].date, dt(2023, 8, 9, 10, 30));
}

#[test]
fn an_empty_scan_is_empty() {
    let files: Vec<String> = vec![];
    assert_eq!(generate_todos(&files).len(), 0);
}

#[test]
fn scanning_twice_gives_equal_results() {
    let files = vec![
        String::from("*TODO a SCHEDULED: <2023-08-08>\nx\n"),
        String::from("*TODO b DEADLINE: <2023-08-09 10:30>"),
    ];
    let first = generate_todos(&files);
    let second = generate_todos(&files);
    assert_eq!(first, second);
}

#[test]
fn flattening_parts_matches_the_sequential_scan() {
    let f1 = String::from("*TODO a SCHEDULED: <2023-08-08>\n");
    let f2 = String::from("*TODO b DEADLINE: <2023-08-09 10:30>\n*TODO c SCHEDULED: <2024-01-01>");
    let sequential = generate_todos(&vec![f1.clone(), f2.clone()]);
    let parts = vec![iterate_over_file(&f1), iterate_over_file(&f2)];
    let flat = flatten_todos(parts);
    assert_eq!(flat, sequential);
    assert_eq!(flat.len(), 3);
}

#[test]
fn org_extension_rule() {
    assert!(is_org_name("notes.org"));
    assert!(is_org_name("a/b/notes.org"));
    assert!(!is_org_name("notes.txt"));
    assert!(!is_org_name("org"));
    assert!(!is_org_name(""));
}

#[test]
fn hidden_directories_are_excluded() {
    assert!(selects_path("notes.org"));
    assert!(selects_path("sub/dir/notes.org"));
    assert!(!selects_path("sub/.cache/notes.org"));
    assert!(!selects_path(".cache/notes.org"));
    assert!(!selects_path("a/.b/c/notes.org"));
    assert!(!selects_path("sub/dir/notes.txt"));
    // a hidden file name is not a hidden directory on the way
    assert!(selects_path(".hidden.org"));
}

#[test]
fn records_of_a_scan_are_printable_pairs() {
    let files = vec![String::from("*TODO water SCHEDULED: <2023-08-08 10:30>\n")];
    let todos = generate_todos(&files);
    assert_eq!(todos[0].render(), " water SCHEDULED: <2023-08-08 10:30>,2023-08-08 10:30:00");
    assert_eq!(todos[0].date.render(), "2023-08-08 10:30:00");
}

#[test]
fn rendering_pads_every_field() {
    let files = vec![String::from("*TODO x DEADLINE: <0007-01-02 03:04>")];
    let todos = generate_todos(&files);
    assert_eq!(todos[0].date.render(), "0007-01-02 03:04:00");
}
