use todotui::date::Date;
use todotui::task::{ParseError, Task};

fn d(year: u32, month: u32, day: u32) -> Date {
    Date { year, month, day }
}

#[test]
fn parses_full_completed_record() {
    let t = Task::from_string(
        "x (A) 2022-03-04 2022-03-01 @c1 @c2 +p1 due:2022-03-06 \"hoge fuga piyo due\"",
    );
    assert_eq!(t.done, true);
    assert_eq!(t.priority, Some('A'));
    assert_eq!(t.complete, Some(d(2022, 3, 4)));
    assert_eq!(t.create, Some(d(2022, 3, 1)));
    assert_eq!(t.context, vec!["c1".to_string(), "c2".to_string()]);
    assert_eq!(t.project, Some("p1".to_string()));
    assert_eq!(t.due, Some(d(2022, 3, 6)));
    assert_eq!(t.name, "hoge fuga piyo due");
}

#[test]
fn parses_open_record_single_date() {
    let t = Task::from_string("2022-01-02 due:2022-03-07 @context1 @context2 +project \"hoge\"");
    assert_eq!(t.done, false);
    assert_eq!(t.create, Some(d(2022, 1, 2)));
    assert_eq!(t.complete, None);
    assert_eq!(t.due, Some(d(2022, 3, 7)));
    assert_eq!(t.project, Some("project".to_string()));
    assert_eq!(t.context, vec!["context1".to_string(), "context2".to_string()]);
    assert_eq!(t.name, "hoge");
}

#[test]
fn open_record_ignores_second_date() {
    let t = Task::from_string("2022-01-02 2022-02-03 \"two dates\"");
    assert_eq!(t.done, false);
    assert_eq!(t.create, Some(d(2022, 1, 2)));
    assert_eq!(t.complete, None);
}

#[test]
fn completed_record_single_date_is_completion() {
    let t = Task::from_string("x 2022-03-04 \"only one date\"");
    assert_eq!(t.done, true);
    assert_eq!(t.complete, Some(d(2022, 3, 4)));
    assert_eq!(t.create, None);
}

#[test]
fn no_quotes_means_empty_name() {
    let t = Task::from_string("x 2022-03-04 +p no quotes at all");
    assert_eq!(t.name, "");
}

#[test]
fn no_at_tokens_means_empty_context() {
    let t = Task::from_string("(B) 2022-01-01 +p \"a name\"");
    assert!(t.context.is_empty());
}

#[test]
fn empty_line_parses_to_empty_task() {
    let t = Task::from_string("");
    assert_eq!(t.done, false);
    assert_eq!(t.name, "");
    assert_eq!(t.priority, None);
    assert_eq!(t.project, None);
    assert!(t.context.is_empty());
    assert_eq!(t.create, None);
    assert_eq!(t.complete, None);
    assert_eq!(t.due, None);
}

#[test]
fn marker_needs_separator() {
    let t = Task::from_string("xylophone \"not done\"");
    assert_eq!(t.done, false);
}

#[test]
fn invalid_calendar_date_is_skipped() {
    let t = Task::from_string("2022-13-40 2022-01-05 \"bad first date\"");
    assert_eq!(t.create, Some(d(2022, 1, 5)));
}

#[test]
fn new_resolves_literal_due() {
    let today = d(2022, 3, 2);
    let t = Task::new_on("(C) +p @c \"buy milk\" due:2022-04-01", today).unwrap();
    assert_eq!(t.done, false);
    assert_eq!(t.create, None);
    assert_eq!(t.complete, Some(today));
    assert_eq!(t.due, Some(d(2022, 4, 1)));
    assert_eq!(t.priority, Some('C'));
    assert_eq!(t.project, Some("p".to_string()));
    assert_eq!(t.context, vec!["c".to_string()]);
    assert_eq!(t.name, "buy milk");
}

#[test]
fn new_weekend_from_wednesday_is_friday() {
    // 2022-03-02 was a Wednesday; the coming Friday is two days later.
    let t = Task::new_on("due:weekend \"w\"", d(2022, 3, 2)).unwrap();
    assert_eq!(t.due, Some(d(2022, 3, 4)));
}

#[test]
fn new_weekend_from_saturday_is_next_friday() {
    // 2022-03-05 was a Saturday; the next Friday is six days later.
    let t = Task::new_on("due:weekend \"w\"", d(2022, 3, 5)).unwrap();
    assert_eq!(t.due, Some(d(2022, 3, 11)));
}

#[test]
fn new_weekend_on_friday_is_same_day() {
    let t = Task::new_on("due:weekend \"w\"", d(2022, 3, 4)).unwrap();
    assert_eq!(t.due, Some(d(2022, 3, 4)));
}

#[test]
fn new_today_yesterday_tomorrow() {
    let today = d(2022, 3, 1);
    let t = Task::new_on("due:today \"t\"", today).unwrap();
    assert_eq!(t.due, Some(today));
    let t = Task::new_on("due:yesterday \"t\"", today).unwrap();
    assert_eq!(t.due, Some(d(2022, 2, 28)));
    let t = Task::new_on("due:tomorrow \"t\"", today).unwrap();
    assert_eq!(t.due, Some(d(2022, 3, 2)));
}

#[test]
fn new_rejects_malformed_due() {
    let r = Task::new_on("due:bogus \"nope\"", d(2022, 3, 2));
    assert_eq!(r.err(), Some(ParseError::MalformedDueDate));
    let r = Task::new("due:bogus");
    assert_eq!(r.err(), Some(ParseError::MalformedDueDate));
}

#[test]
fn new_rejects_invalid_literal_due() {
    let r = Task::new_on("due:2022-13-40 \"nope\"", d(2022, 3, 2));
    assert_eq!(r.err(), Some(ParseError::MalformedDueDate));
}

#[test]
fn new_without_due_is_fine() {
    let t = Task::new_on("\"plain\"", d(2022, 3, 2)).unwrap();
    assert_eq!(t.due, None);
    let t = Task::new("\"plain\"").unwrap();
    assert_eq!(t.due, None);
    assert_eq!(t.done, false);
    assert!(t.complete.is_some());
}

#[test]
fn complete_and_incomplete_mutate_in_place() {
    let mut t = Task::from_string("\"flip me\"");
    t.complete_on(d(2023, 5, 6));
    assert_eq!(t.done, true);
    assert_eq!(t.complete, Some(d(2023, 5, 6)));
    t.incomplete();
    assert_eq!(t.done, false);
    assert_eq!(t.complete, None);
    t.complete();
    assert_eq!(t.done, true);
    assert!(t.complete.is_some());
}

#[test]
fn serialize_writes_canonical_line() {
    let t = Task {
        done: true,
        name: "hoge fuga".to_string(),
        priority: Some('A'),
        project: Some("p1".to_string()),
        context: vec!["c1".to_string(), "c2".to_string()],
        create: Some(d(2022, 3, 1)),
        complete: Some(d(2022, 3, 4)),
        due: Some(d(2022, 3, 6)),
    };
    assert_eq!(
        t.serialize(),
        "x (A) 2022-03-04 2022-03-01 +p1 @c1 @c2 due:2022-03-06 \"hoge fuga\"",
    );
}

#[test]
fn serialize_open_task_minimal() {
    let t = Task {
        done: false,
        name: "".to_string(),
        priority: None,
        project: None,
        context: vec![],
        create: None,
        complete: None,
        due: None,
    };
    assert_eq!(t.serialize(), "\"\"");
}

#[test]
fn round_trip_reproduces_all_fields() {
    let t = Task {
        done: true,
        name: "water the plants".to_string(),
        priority: Some('B'),
        project: Some("garden".to_string()),
        context: vec!["home".to_string(), "weekend".to_string()],
        create: Some(d(2021, 12, 31)),
        complete: Some(d(2022, 1, 1)),
        due: Some(d(2022, 2, 28)),
    };
    let back = Task::from_string(&t.serialize());
    assert_eq!(back.done, t.done);
    assert_eq!(back.name, t.name);
    assert_eq!(back.priority, t.priority);
    assert_eq!(back.project, t.project);
    assert_eq!(back.context, t.context);
    assert_eq!(back.create, t.create);
    assert_eq!(back.complete, t.complete);
    assert_eq!(back.due, t.due);
}

#[test]
fn weekday_of_known_dates() {
    // 2022-03-02: Wednesday; 2022-03-04: Friday; 2022-01-01: Saturday.
    assert_eq!(d(2022, 3, 2).weekday(), 3);
    assert_eq!(d(2022, 3, 4).weekday(), 5);
    assert_eq!(d(2022, 1, 1).weekday(), 6);
    assert_eq!(d(1970, 1, 1).weekday(), 4);
}

#[test]
fn date_arithmetic_rolls_over() {
    assert_eq!(d(2022, 2, 28).succ(), d(2022, 3, 1));
    assert_eq!(d(2020, 2, 28).succ(), d(2020, 2, 29));
    assert_eq!(d(2021, 12, 31).succ(), d(2022, 1, 1));
    assert_eq!(d(2022, 3, 1).pred(), d(2022, 2, 28));
    assert_eq!(d(2022, 1, 1).pred(), d(2021, 12, 31));
    assert_eq!(d(2022, 3, 2).add_days(6), d(2022, 3, 8));
}

#[test]
fn today_is_a_valid_date() {
    let t = todotui::date::today();
    assert!(t.month >= 1 && t.month <= 12);
    assert!(t.day >= 1);
    assert!(t.year <= 9999);
}
