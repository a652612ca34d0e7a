use effort_timeline::effort::{
    effort_of_entry, effort_of_row, entries_of, get_max_height, get_partial_efforts_model,
    get_worker_efforts_model, partial_efforts_from,
};

fn chars(text: &str) -> Vec<char> {
    text.chars().collect()
}

#[test]
fn totals_run_on_across_rows() {
    let rows = vec!["A|10", "B|5\nC|5", "", "D|x"];
    assert_eq!(get_partial_efforts_model(&rows), vec![10, 20, 20, 20]);
}

#[test]
fn max_height_is_the_longest_row() {
    let rows = vec!["A|10", "B|5\nC|5", ""];
    assert_eq!(get_max_height(&rows), 2);
}

#[test]
fn totals_are_the_same_on_every_run() {
    let rows = vec!["A|10", "B|5\nC|5", "", "D|x", "E|-7\nF|+3\nG|1|2"];
    let first = get_partial_efforts_model(&rows);
    let second = get_partial_efforts_model(&rows);
    assert_eq!(first, second);
    assert_eq!(first, vec![10, 20, 20, 20, 16]);
    assert_eq!(partial_efforts_from(0, &rows), Some(first));
}

#[test]
fn no_rows_give_no_totals() {
    let rows: Vec<&str> = Vec::new();
    assert_eq!(get_partial_efforts_model(&rows), Vec::<i32>::new());
    assert_eq!(partial_efforts_from(42, &rows), Some(Vec::new()));
    assert_eq!(get_max_height(&rows), 0);
    assert_eq!(get_worker_efforts_model(&rows), Vec::<String>::new());
}

#[test]
fn an_empty_row_repeats_the_total() {
    let rows = vec!["", "A|3", "", ""];
    assert_eq!(get_partial_efforts_model(&rows), vec![0, 3, 3, 3]);
}

#[test]
fn an_empty_row_has_no_entries() {
    assert_eq!(entries_of(""), Vec::<Vec<char>>::new());
    assert_eq!(effort_of_row(""), 0);
    assert_eq!(get_max_height(&vec![""]), 0);
    assert_eq!(get_max_height(&vec!["", "", ""]), 0);
    assert_eq!(get_max_height(&vec!["", "a", ""]), 1);
}

#[test]
fn entries_are_the_lines_of_a_row() {
    assert_eq!(entries_of("A|10"), vec![chars("A|10")]);
    assert_eq!(entries_of("B|5\nC|5"), vec![chars("B|5"), chars("C|5")]);
    assert_eq!(entries_of("B|5\n"), vec![chars("B|5"), chars("")]);
    assert_eq!(entries_of("\n"), vec![chars(""), chars("")]);
    assert_eq!(entries_of("x"), vec![chars("x")]);
}

#[test]
fn a_line_break_at_the_end_opens_a_line() {
    assert_eq!(get_max_height(&vec!["A|1\n"]), 2);
    assert_eq!(get_max_height(&vec!["\n\n"]), 3);
    assert_eq!(get_max_height(&vec!["A|1", "B|2\nC|3\nD|4", "E|5\nF|6"]), 3);
    assert_eq!(get_partial_efforts_model(&vec!["A|1\n", "\n\nB|2"]), vec![1, 3]);
}

#[test]
fn max_height_does_not_add_up() {
    assert_eq!(get_max_height(&vec!["a\nb", "c\nd", "e\nf"]), 2);
}

#[test]
fn entry_books_its_second_field() {
    assert_eq!(effort_of_entry(&chars("Worker|15")), 15);
    assert_eq!(effort_of_entry(&chars("|5")), 5);
    assert_eq!(effort_of_entry(&chars("Worker|+5")), 5);
    assert_eq!(effort_of_entry(&chars("Worker|-5")), -5);
    assert_eq!(effort_of_entry(&chars("Worker|007")), 7);
    assert_eq!(effort_of_entry(&chars("Jos\u{e9}|12")), 12);
    assert_eq!(effort_of_entry(&chars("W|2147483647")), i32::MAX);
    assert_eq!(effort_of_entry(&chars("W|-2147483648")), i32::MIN);
}

#[test]
fn entry_of_another_shape_books_nothing() {
    assert_eq!(effort_of_entry(&chars("")), 0);
    assert_eq!(effort_of_entry(&chars("Worker")), 0);
    assert_eq!(effort_of_entry(&chars("15")), 0);
    assert_eq!(effort_of_entry(&chars("Worker|")), 0);
    assert_eq!(effort_of_entry(&chars("Worker|x")), 0);
    assert_eq!(effort_of_entry(&chars("Worker|1|2")), 0);
    assert_eq!(effort_of_entry(&chars("Worker||2")), 0);
    assert_eq!(effort_of_entry(&chars("Worker| 5")), 0);
    assert_eq!(effort_of_entry(&chars("Worker|5 ")), 0);
    assert_eq!(effort_of_entry(&chars("Worker|5.0")), 0);
    assert_eq!(effort_of_entry(&chars("Worker|2147483648")), 0);
    assert_eq!(effort_of_entry(&chars("Worker|-2147483649")), 0);
}

#[test]
fn row_books_the_sum_of_its_lines() {
    assert_eq!(effort_of_row(""), 0);
    assert_eq!(effort_of_row("A|10"), 10);
    assert_eq!(effort_of_row("A|10\nB|x\nC|5\n\nD|-1"), 14);
    assert_eq!(effort_of_row("A|2147483647\nB|2147483647\nC|2147483647"), 3 * 2147483647);
}

#[test]
fn carry_starts_the_total() {
    let rows = vec!["A|10", "B|5\nC|5"];
    assert_eq!(partial_efforts_from(0, &rows), Some(vec![10, 20]));
    assert_eq!(partial_efforts_from(5, &rows), Some(vec![15, 25]));
    assert_eq!(partial_efforts_from(-20, &rows), Some(vec![-10, 0]));
}

#[test]
fn carry_of_the_last_total_continues_a_list() {
    let first = vec!["A|10", "B|5\nC|5"];
    let second = vec!["D|1", "", "E|2"];
    let whole = vec!["A|10", "B|5\nC|5", "D|1", "", "E|2"];
    let head = get_partial_efforts_model(&first);
    let tail = partial_efforts_from(*head.last().unwrap(), &second).unwrap();
    let mut joined = head.clone();
    joined.extend(tail);
    assert_eq!(joined, get_partial_efforts_model(&whole));
}

#[test]
fn total_out_of_range_gives_none() {
    assert_eq!(partial_efforts_from(0, &vec!["A|2147483647", "B|1"]), None);
    assert_eq!(partial_efforts_from(0, &vec!["A|-2147483648", "B|-1"]), None);
    assert_eq!(partial_efforts_from(1, &vec!["A|2147483647"]), None);
    assert_eq!(partial_efforts_from(0, &vec!["A|2147483647\nB|1"]), None);
    assert_eq!(partial_efforts_from(0, &vec!["A|1", "B|2147483647", "C|-5"]), None);
}

#[test]
fn total_within_range_at_the_rows_end_is_kept() {
    assert_eq!(
        partial_efforts_from(0, &vec!["A|2147483647\nB|1\nC|-5"]),
        Some(vec![2147483643])
    );
    assert_eq!(partial_efforts_from(0, &vec!["A|2147483647"]), Some(vec![i32::MAX]));
    assert_eq!(partial_efforts_from(-1, &vec!["A|-2147483647"]), Some(vec![i32::MIN]));
}

#[test]
fn shown_rows_are_copies() {
    let rows = vec!["Worker1|10\nWorker9|10", "", "Jos\u{e9}|x"];
    assert_eq!(
        get_worker_efforts_model(&rows),
        vec!["Worker1|10\nWorker9|10".to_string(), String::new(), "Jos\u{e9}|x".to_string()]
    );
}

#[test]
fn first_developer_of_the_chart() {
    let rows = vec![
        "Worker12345|10",
        "Worker12|20",
        "Worker1|10\nWorker9|10",
        "Worker54321|10",
        "",
        "Worker5|25",
        "Worker|15",
        "Worker3|15",
        "Worker4|65",
        "Worker6|88",
        "Worker789|92",
        "Worker8|78",
        "Worker9|82",
    ];
    assert_eq!(
        get_partial_efforts_model(&rows),
        vec![10, 30, 50, 60, 60, 85, 100, 115, 180, 268, 360, 438, 520]
    );
    assert_eq!(get_max_height(&rows), 2);
    assert_eq!(get_worker_efforts_model(&rows).len(), 13);
}

#[test]
fn second_developer_of_the_chart() {
    let rows = vec![
        "Worker12345|80",
        "Worker12|80",
        "Worker54321|80",
        "Worker1|80\nWorker9|80\nWorker1|90",
        "Worker5|90",
        "Worker5|60",
        "Worker|25",
        "Worker3|45",
        "Worker4|65",
        "Worker6|88",
        "Worker789|92",
        "Worker8|78",
        "Worker9|82",
    ];
    assert_eq!(
        get_partial_efforts_model(&rows),
        vec![80, 160, 240, 490, 580, 640, 665, 710, 775, 863, 955, 1033, 1115]
    );
    assert_eq!(get_max_height(&rows), 3);
}

#[test]
fn shared_worker_row() {
    let rows = vec!["SharedWorker|50"];
    assert_eq!(get_worker_efforts_model(&rows), vec!["SharedWorker|50".to_string()]);
    assert_eq!(get_partial_efforts_model(&rows), vec![50]);
}
