use calendar_transform::model::TaskCalendar;
use calendar_transform::transformer::transform;

fn one_task() -> TaskCalendar {
    let s = "BEGIN:VCALENDAR\r\nBEGIN:VEVENT\r\nUID:5@h\r\nSUMMARY:Izpit\r\nDESCRIPTION:D\r\nCLASS:PUBLIC\r\nLAST-MODIFIED:20221001T080000Z\r\nDTSTAMP:20221010T090000Z\r\nDTSTART:20221012T100000Z\r\nDTEND:20221012T120000Z\r\nCATEGORIES:C\r\nEND:VEVENT\r\nEND:VCALENDAR\r\n";
    transform(String::from(s)).unwrap()
}

#[test]
fn state_key_is_user_then_uid() {
    assert_eq!(one_task().state_key(0, "69696"), "696965@h");
}

#[test]
fn stored_state_sets_completion() {
    let mut cal = one_task();
    cal.apply_state(0, "2023-01-05T10:00:00Z;100");
    assert_eq!(cal.tasks[0].completed.as_deref(), Some("20230105T100000Z"));
    assert_eq!(cal.tasks[0].percent_complete, Some(100));
}

#[test]
fn unreadable_state_is_refused_and_changes_nothing() {
    for v in ["no separator", "yesterday;50", "2023-01-05T10:00:00Z;256", "2023-01-05T10:00:00Z;", "2023-01-05T10:00:00Z;-1"] {
        let mut cal = one_task();
        assert!(!cal.try_apply_state(0, v), "{v}");
        assert_eq!(cal.tasks[0].completed, None);
        assert_eq!(cal.tasks[0].percent_complete, None);
    }
}

#[test]
fn state_with_plus_sign_and_later_separators() {
    let mut cal = one_task();
    assert!(!cal.try_apply_state(0, "2023-01-05T10:00:00Z;5;0"));
    assert!(cal.try_apply_state(0, "2023-01-05T10:00:00+02:00;+25"));
    assert_eq!(cal.tasks[0].completed.as_deref(), Some("20230105T080000Z"));
    assert_eq!(cal.tasks[0].percent_complete, Some(25));
}

fn two_tasks() -> TaskCalendar {
    let ev = |uid: &str| format!("BEGIN:VEVENT\r\nUID:{uid}\r\nSUMMARY:Izpit\r\nDESCRIPTION:D\r\nCLASS:PUBLIC\r\nLAST-MODIFIED:20221001T080000Z\r\nDTSTAMP:20221010T090000Z\r\nDTSTART:20221012T100000Z\r\nDTEND:20221012T120000Z\r\nCATEGORIES:C\r\nEND:VEVENT\r\n");
    transform(format!("BEGIN:VCALENDAR\r\n{}{}END:VCALENDAR\r\n", ev("5@h"), ev("6@h"))).unwrap()
}

#[test]
fn stored_states_applied_to_every_item() {
    let mut cal = two_tasks();
    let values = vec![None, Some("2023-01-05T10:00:00Z;50".to_string())];
    assert!(cal.apply_stored_states(&values));
    assert_eq!(cal.tasks[0].completed, None);
    assert_eq!(cal.tasks[1].completed.as_deref(), Some("20230105T100000Z"));
    assert_eq!(cal.tasks[1].percent_complete, Some(50));
}

#[test]
fn applying_stored_states_twice_changes_nothing_more() {
    let mut cal = two_tasks();
    let values = vec![Some("2023-01-04T10:00:00Z;25".to_string()), Some("2023-01-05T10:00:00Z;50".to_string())];
    assert!(cal.apply_stored_states(&values));
    let keys: Vec<String> = (0..cal.len()).map(|i| cal.state_key(i, "u")).collect();
    let once = cal.to_ics();
    assert!(cal.apply_stored_states(&values));
    assert_eq!(cal.to_ics(), once);
    assert_eq!((0..cal.len()).map(|i| cal.state_key(i, "u")).collect::<Vec<_>>(), keys);
}

#[test]
fn unreadable_stored_state_leaves_calendar_unchanged() {
    let mut cal = two_tasks();
    let values = vec![Some("2023-01-05T10:00:00Z;50".to_string()), Some("broken".to_string())];
    assert!(!cal.apply_stored_states(&values));
    assert_eq!(cal.tasks[0].completed, None);
    assert_eq!(cal.tasks[1].completed, None);
}
