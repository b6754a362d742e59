use todotui::parser::parse;

#[test]
fn prefix_parse_consumes_tag_priority_and_dates() {
    let p = parse("x (A) 2022-03-04 2022-03-01 rest of the line");
    assert_eq!(p.done, true);
    assert_eq!(p.priority, Some('A'));
    assert_eq!(p.created.as_deref(), Some("2022"));
    assert_eq!(p.finished.as_deref(), Some("2022"));
    assert_eq!(p.project, None);
    assert_eq!(p.rest, "rest of the line");
}

#[test]
fn prefix_parse_all_stages_optional() {
    let p = parse("just a line");
    assert_eq!(p.done, false);
    assert_eq!(p.priority, None);
    assert_eq!(p.created, None);
    assert_eq!(p.finished, None);
    assert_eq!(p.project, None);
    assert_eq!(p.rest, "just a line");
}

#[test]
fn prefix_parse_single_date_goes_to_created() {
    let p = parse("(B) 2021-11-30 tail");
    assert_eq!(p.done, false);
    assert_eq!(p.priority, Some('B'));
    assert_eq!(p.created.as_deref(), Some("2021"));
    assert_eq!(p.finished, None);
    assert_eq!(p.rest, "tail");
}

#[test]
fn prefix_parse_project_cut_at_literal_marker() {
    let p = parse("before @|+ after");
    assert_eq!(p.project.as_deref(), Some("before "));
    assert_eq!(p.rest, "@|+ after");
}

#[test]
fn prefix_parse_date_shape_checks_only_dashes() {
    let p = parse("abcd-ef-gh tail");
    assert_eq!(p.created.as_deref(), Some("abcd"));
    assert_eq!(p.rest, "tail");
}
