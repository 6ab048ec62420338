use std::cmp::Ordering;
use suaide::text::parse_i32;
use suaide::{
    list_window, local_window, local_window_between, local_window_from_dates, parse_local_date, sort_tasks,
    LocalDate, Selection, Settings, Status, SuaideError, Task, TaskChangeSet, TaskStore, Timeframe,
};

fn task(id: i32, status: Status, opened: i64) -> Task {
    Task {
        id,
        ticket: None,
        description: format!("task {}", id),
        status,
        opened,
        closed: if status == Status::Closed || status == Status::Cancelled { Some(opened + 10) } else { None },
    }
}

fn ids(tasks: &[Task]) -> Vec<i32> {
    tasks.iter().map(|t| t.id).collect()
}

fn date(y: i32, m: u32, d: u32) -> LocalDate {
    LocalDate::new(y, m, d).unwrap()
}

// Seconds of local wall-clock time at 00:00:01 of 2000-03-07.
const MARCH_7_2000: i64 = 952_387_201;

#[test]
fn sorting_puts_open_first_and_newest_first() {
    let mut tasks = vec![task(1, Status::Open, 100), task(2, Status::Open, 200), task(3, Status::Closed, 50)];
    sort_tasks(&mut tasks);
    assert_eq!(ids(&tasks), vec![2, 1, 3]);
}

#[test]
fn sorting_follows_status_rank() {
    let mut tasks = vec![
        task(1, Status::Cancelled, 400),
        task(2, Status::Closed, 300),
        task(3, Status::InProgress, 200),
        task(4, Status::Open, 100),
    ];
    sort_tasks(&mut tasks);
    assert_eq!(ids(&tasks), vec![4, 3, 2, 1]);
}

#[test]
fn sorting_empty_list() {
    let mut tasks: Vec<Task> = Vec::new();
    sort_tasks(&mut tasks);
    assert!(tasks.is_empty());
}

#[test]
fn compare_orders_by_status_then_opened() {
    let a = task(1, Status::Open, 100);
    let b = task(2, Status::Open, 200);
    let c = task(3, Status::Closed, 50);
    assert_eq!(a.compare(&b), Ordering::Greater);
    assert_eq!(b.compare(&a), Ordering::Less);
    assert_eq!(a.compare(&c), Ordering::Less);
    assert_eq!(a.compare(&a), Ordering::Equal);
}

#[test]
fn status_words() {
    assert_eq!(Status::parse("ip"), Ok(Status::InProgress));
    assert_eq!(Status::parse("in-progress"), Ok(Status::InProgress));
    assert_eq!(Status::parse("c"), Ok(Status::Closed));
    assert_eq!(Status::parse("cancelled"), Ok(Status::Cancelled));
    assert_eq!(Status::parse("o"), Ok(Status::Open));
    assert_eq!(Status::parse("done"), Err(SuaideError::IncorrectArgs));
    assert_eq!(Status::from_i16(3), Some(Status::Cancelled));
    assert_eq!(Status::from_i16(4), None);
    assert_eq!(Status::Closed.as_i16(), 2);
    assert_eq!(Status::InProgress.label(), "In Progress");
    assert_eq!(Status::Closed.label(), "Completed");
}

#[test]
fn timeframe_words() {
    assert_eq!(Timeframe::parse("lastweek"), Ok(Timeframe::LastWeek));
    assert_eq!(Timeframe::parse("last-week"), Ok(Timeframe::LastWeek));
    assert_eq!(Timeframe::parse("month"), Ok(Timeframe::Month));
    assert_eq!(Timeframe::parse("year"), Err(SuaideError::IncorrectArgs));
}

#[test]
fn local_window_today_is_exact() {
    let w = local_window(&date(2000, 3, 7), Timeframe::Today);
    assert_eq!(w, (MARCH_7_2000, MARCH_7_2000 + 86_398));
}

#[test]
fn local_window_month_to_date() {
    let w = local_window(&date(2000, 3, 7), Timeframe::Month);
    assert_eq!(w, (MARCH_7_2000 - 6 * 86_400, MARCH_7_2000 + 86_398));
}

#[test]
fn local_window_yesterday_over_leap_day() {
    let a = local_window(&date(2000, 3, 1), Timeframe::Yesterday);
    let b = local_window(&date(2000, 2, 29), Timeframe::Today);
    assert_eq!(a, b);
}

#[test]
fn local_window_last_week_from_sunday() {
    let w = local_window(&date(2000, 3, 12), Timeframe::LastWeek);
    let monday = local_window(&date(2000, 2, 28), Timeframe::Today).0;
    let friday = local_window(&date(2000, 3, 3), Timeframe::Today).1;
    assert_eq!(w, (monday, friday));
}

#[test]
fn week_window_starts_on_monday_across_year_end() {
    // 2021-01-01 is a Friday of the week that began on Monday 2020-12-28.
    let w = local_window(&date(2021, 1, 1), Timeframe::Week);
    assert_eq!(w.0, local_window(&date(2020, 12, 28), Timeframe::Today).0);
}

#[test]
fn explicit_dates_in_all_formats_agree() {
    let a = local_window_from_dates("2020-01-23", "2020-01-23").unwrap();
    let b = local_window_from_dates("23 Jan 2020", "23 Jan 2020").unwrap();
    let c = local_window_from_dates("23 January 2020", "23 January 2020").unwrap();
    assert_eq!(a, b);
    assert_eq!(a, c);
    assert_eq!(a, local_window_between(date(2020, 1, 23), date(2020, 1, 23)));
}

#[test]
fn explicit_dates_are_not_reordered() {
    let (start, end) = local_window_from_dates("2020-01-23", "2019-11-01").unwrap();
    assert!(start > end);
}

#[test]
fn unreadable_dates_are_format_errors() {
    assert_eq!(parse_local_date("23/01/2020"), Err(SuaideError::DateFormatError));
    assert_eq!(local_window_from_dates("2020-01-23", "someday"), Err(SuaideError::DateFormatError));
    assert_eq!(local_window_from_dates("2020-13-01", "2020-01-23"), Err(SuaideError::DateFormatError));
    assert_eq!(parse_local_date("1 Nov 2019"), Ok(date(2019, 11, 1)));
}

#[test]
fn invalid_calendar_dates_are_refused() {
    assert!(LocalDate::new(2019, 2, 29).is_none());
    assert!(LocalDate::new(2000, 2, 29).is_some());
    assert!(LocalDate::new(2000, 0, 1).is_none());
    assert!(LocalDate::new(400000, 1, 1).is_none());
    assert_eq!(date(1970, 1, 1).day_number(), 719_163);
}

#[test]
fn change_set_against_itself_is_empty() {
    let t = Task {
        id: 7,
        ticket: Some("T-1".to_string()),
        description: "Write report".to_string(),
        status: Status::InProgress,
        opened: 1000,
        closed: None,
    };
    let cs = TaskChangeSet::from_edit(&t, t.description.clone(), t.ticket.clone(), t.status, 5000);
    assert!(cs.is_empty());
    assert_eq!(cs.apply(&t), t);
}

#[test]
fn closing_sets_closed_time() {
    let t = task(1, Status::Open, 100);
    let cs = TaskChangeSet::from_status(&t, Status::Closed, 5000);
    assert_eq!(cs.status, Some(Status::Closed));
    assert_eq!(cs.closed, Some(Some(5000)));
    let closed = cs.apply(&t);
    assert_eq!(closed.status, Status::Closed);
    assert_eq!(closed.closed, Some(5000));
}

#[test]
fn reopening_clears_closed_time() {
    let t = task(1, Status::Closed, 100);
    assert!(t.closed.is_some());
    let cs = TaskChangeSet::from_status(&t, Status::Open, 5000);
    assert_eq!(cs.closed, Some(None));
    assert_eq!(cs.apply(&t).closed, None);
}

#[test]
fn explicit_closed_time_is_kept() {
    let t = task(1, Status::Open, 100);
    let mut cs = TaskChangeSet::new();
    cs.set_closed(&t, Some(4000));
    cs.set_status(&t, Status::Cancelled, 5000);
    assert_eq!(cs.apply(&t).closed, Some(4000));
}

#[test]
fn edit_records_only_differences() {
    let t = task(1, Status::Open, 100);
    let cs = TaskChangeSet::from_edit(&t, "New text".to_string(), None, Status::Open, 5000);
    assert_eq!(cs.description, Some("New text".to_string()));
    assert_eq!(cs.ticket, None);
    assert_eq!(cs.status, None);
    assert_eq!(cs.closed, None);
}

#[test]
fn insert_assigns_ids_and_opens() {
    let mut store = TaskStore::new();
    let a = store.insert("Test Description".to_string(), Some("1234".to_string()), 10_000).unwrap();
    let b = store.insert("Other".to_string(), None, 10_001).unwrap();
    assert_eq!(a.id, 1);
    assert_eq!(b.id, 2);
    assert_eq!(a.ticket, Some("1234".to_string()));
    assert_eq!(a.status, Status::Open);
    assert_eq!(a.closed, None);
    assert_eq!(a.opened, 10_000);
    assert_eq!(store.len(), 2);
}

#[test]
fn duplicate_ticket_is_refused() {
    let mut store = TaskStore::new();
    store.insert("Test Description".to_string(), Some("1234".to_string()), 10_000).unwrap();
    let r = store.insert("Again".to_string(), Some("1234".to_string()), 10_001);
    assert_eq!(r, Err(SuaideError::TicketAlreadyExistsError));
    assert_eq!(store.len(), 1);
}

#[test]
fn empty_description_is_refused() {
    let mut store = TaskStore::new();
    assert_eq!(store.insert(String::new(), None, 1), Err(SuaideError::IncorrectArgs));
}

#[test]
fn used_up_ids_are_a_storage_error() {
    let mut store = TaskStore::new();
    store.restore(task(i32::MAX, Status::Open, 1)).unwrap();
    assert_eq!(store.insert("More".to_string(), None, 2), Err(SuaideError::StorageError));
}

#[test]
fn restore_refuses_clashes() {
    let mut store = TaskStore::new();
    store.restore(task(3, Status::Open, 1)).unwrap();
    assert_eq!(store.restore(task(3, Status::Open, 2)), Err(SuaideError::IncorrectArgs));
    assert_eq!(store.restore(task(0, Status::Open, 2)), Err(SuaideError::IncorrectArgs));
    let mut t = task(4, Status::Open, 2);
    t.ticket = Some("A".to_string());
    store.restore(t).unwrap();
    let mut u = task(5, Status::Open, 2);
    u.ticket = Some("A".to_string());
    assert_eq!(store.restore(u), Err(SuaideError::TicketAlreadyExistsError));
    assert_eq!(store.insert("Next".to_string(), None, 3).unwrap().id, 5);
}

#[test]
fn lookup_by_ticket_and_by_id_agree() {
    let mut store = TaskStore::new();
    store.insert("First".to_string(), None, 1).unwrap();
    let b = store.insert("Second".to_string(), Some("T-9".to_string()), 2).unwrap();
    let by_ticket = store.find("T-9").unwrap();
    let by_id = store.find("2").unwrap();
    assert_eq!(by_ticket, b);
    assert_eq!(by_id, b);
    assert_eq!(store.find("+2").unwrap(), b);
    assert_eq!(store.find("3"), Err(SuaideError::NotFound));
    assert_eq!(store.find("nothing"), Err(SuaideError::NotFound));
}

#[test]
fn ticket_lookup_comes_before_id() {
    let mut store = TaskStore::new();
    store.insert("First".to_string(), None, 1).unwrap();
    let b = store.insert("Second".to_string(), Some("1".to_string()), 2).unwrap();
    assert_eq!(store.find("1").unwrap(), b);
}

#[test]
fn close_marks_task_closed() {
    let mut store = TaskStore::new();
    store.insert("Test Description".to_string(), Some("1234".to_string()), 10_000).unwrap();
    let t = store.close("1234", "1234", 20_000).unwrap();
    assert_eq!(t.status, Status::Closed);
    assert_eq!(t.closed, Some(20_000));
    assert_eq!(store.find("1").unwrap(), t);
    assert_eq!(store.close("99", "99", 1), Err(SuaideError::NotFound));
}

#[test]
fn update_applies_changes_and_checks_tickets() {
    let mut store = TaskStore::new();
    let a = store.insert("A".to_string(), Some("X".to_string()), 1).unwrap();
    let b = store.insert("B".to_string(), None, 2).unwrap();
    let cs = TaskChangeSet::from_edit(&b, "B2".to_string(), Some("X".to_string()), Status::Open, 3);
    assert_eq!(store.update(b.id, &cs), Err(SuaideError::TicketAlreadyExistsError));
    let cs = TaskChangeSet::from_edit(&b, "B2".to_string(), Some("Y".to_string()), Status::InProgress, 3);
    let b2 = store.update(b.id, &cs).unwrap();
    assert_eq!(b2.description, "B2".to_string());
    assert_eq!(b2.ticket, Some("Y".to_string()));
    assert_eq!(b2.status, Status::InProgress);
    assert_eq!(store.update(a.id, &TaskChangeSet::new()).unwrap(), a);
    assert_eq!(store.update(42, &TaskChangeSet::new()), Err(SuaideError::NotFound));
}

#[test]
fn remove_by_token_and_all() {
    let mut store = TaskStore::new();
    store.insert("A".to_string(), Some("X".to_string()), 1).unwrap();
    store.insert("B".to_string(), None, 2).unwrap();
    assert_eq!(store.remove("X", "X").unwrap().description, "A".to_string());
    assert_eq!(store.remove("X", "X"), Err(SuaideError::NotFound));
    assert_eq!(store.remove("2", "2").unwrap().description, "B".to_string());
    store.insert("C".to_string(), None, 3).unwrap();
    store.remove_all();
    assert_eq!(store.len(), 0);
    assert_eq!(store.insert("D".to_string(), None, 4).unwrap().id, 4);
}

#[test]
fn window_query_uses_opened_or_closed() {
    let mut store = TaskStore::new();
    for (id, status, opened) in [(1, Status::Open, 150), (2, Status::Closed, 10), (3, Status::Open, 10), (4, Status::InProgress, 120)] {
        let mut t = task(id, status, opened);
        if status == Status::Closed {
            t.closed = Some(160);
        }
        store.restore(t).unwrap();
    }
    let found = store.tasks_in_window(100, 200);
    assert_eq!(ids(&found), vec![1, 4, 2]);
}

#[test]
fn stand_up_sections() {
    let mut store = TaskStore::new();
    let mut closed_yesterday = task(1, Status::Closed, 10);
    closed_yesterday.closed = Some(150);
    let mut closed_earlier = task(2, Status::Closed, 10);
    closed_earlier.closed = Some(50);
    store.restore(closed_yesterday).unwrap();
    store.restore(closed_earlier).unwrap();
    store.restore(task(3, Status::InProgress, 90)).unwrap();
    store.restore(task(4, Status::InProgress, 500)).unwrap();
    store.restore(task(5, Status::Open, 20)).unwrap();
    store.restore(task(6, Status::Cancelled, 20)).unwrap();
    let (yesterday, today) = store.stand_up(100, 200);
    assert_eq!(ids(&yesterday), vec![3, 1]);
    assert_eq!(ids(&today), vec![5, 4, 3]);
    assert_eq!(ids(&store.select(Selection::Unfinished)), vec![5, 4, 3]);
}

#[test]
fn ticket_prefix_is_added_once() {
    let settings = Settings { db_url: "db".to_string(), ticket_prefix: "PRJ-".to_string() };
    assert_eq!(settings.generate_ticket_id("12".to_string()), "PRJ-12".to_string());
    assert_eq!(settings.qualify_ticket(Some("12".to_string())), Some("PRJ-12".to_string()));
    assert_eq!(settings.qualify_ticket(Some("PRJ-12".to_string())), Some("PRJ-12".to_string()));
    assert_eq!(settings.qualify_ticket(None), None);
}

#[test]
fn empty_answers_are_absent() {
    assert_eq!(suaide::text::non_empty(String::new()), None);
    assert_eq!(suaide::text::non_empty("x".to_string()), Some("x".to_string()));
}

#[test]
fn error_messages() {
    assert_eq!(SuaideError::NotFound.message(), "Task not found");
}

#[test]
fn find_by_prefixed_ticket_or_raw_id() {
    let mut store = TaskStore::new();
    store.insert("First".to_string(), None, 1).unwrap();
    let b = store.insert("Second".to_string(), Some("PRJ-1".to_string()), 2).unwrap();
    // the qualified form of "1" is a ticket, which wins over id 1
    assert_eq!(store.find_by("PRJ-1", "1").unwrap(), b);
    assert_eq!(store.find_by("PRJ-2", "2").unwrap(), b);
    assert_eq!(store.find_by("PRJ-9", "9"), Err(SuaideError::NotFound));
    let closed = store.close("PRJ-7", "1", 30).unwrap();
    assert_eq!(closed.id, 1);
    assert_eq!(closed.status, Status::Closed);
}

#[test]
fn list_window_choices() {
    let today = date(2000, 3, 7);
    assert_eq!(list_window(None, "all", today, 12_345), Ok((0, 12_345)));
    assert_eq!(list_window(None, "decade", today, 12_345), Err(SuaideError::IncorrectArgs));
    assert_eq!(list_window(Some(vec!["2020-01-01".to_string()]), "today", today, 1), Err(SuaideError::IncorrectArgs));
    assert_eq!(
        list_window(Some(vec!["2020-01-01".to_string(), "nope".to_string()]), "today", today, 1),
        Err(SuaideError::DateFormatError)
    );
    assert_eq!(
        list_window(Some(vec!["2020-01-23".to_string(), "2020-01-24".to_string()]), "today", today, 1),
        suaide::calculate_duration_from_dates("2020-01-23", "2020-01-24")
    );
    assert_eq!(
        list_window(None, "week", today, 1),
        suaide::calculate_duration_from_timeframe(today, Timeframe::Week)
    );
}

#[test]
fn integer_tokens() {
    assert_eq!(parse_i32("42"), Some(42));
    assert_eq!(parse_i32("+7"), Some(7));
    assert_eq!(parse_i32("-0"), Some(0));
    assert_eq!(parse_i32("-2147483648"), Some(i32::MIN));
    assert_eq!(parse_i32("2147483647"), Some(i32::MAX));
    assert_eq!(parse_i32("2147483648"), None);
    assert_eq!(parse_i32("99999999999999999999"), None);
    assert_eq!(parse_i32(""), None);
    assert_eq!(parse_i32("-"), None);
    assert_eq!(parse_i32("+"), None);
    assert_eq!(parse_i32("12a"), None);
    assert_eq!(parse_i32(" 12"), None);
    assert_eq!(parse_i32("+-1"), None);
}

#[test]
fn equal_values_keep_recorded_entries() {
    let t = Task {
        id: 1,
        ticket: Some("A".to_string()),
        description: "Old".to_string(),
        status: Status::Open,
        opened: 100,
        closed: None,
    };
    let mut cs = TaskChangeSet::new();
    cs.set_description(&t, "New".to_string());
    cs.set_description(&t, "Old".to_string());
    assert_eq!(cs.description, Some("New".to_string()));
    cs.set_ticket(&t, None);
    cs.set_ticket(&t, Some("A".to_string()));
    assert_eq!(cs.ticket, Some(None));
    cs.set_closed(&t, Some(7));
    cs.set_closed(&t, None);
    assert_eq!(cs.closed, Some(Some(7)));
    cs.set_status(&t, Status::Closed, 9);
    assert_eq!(cs.status, Some(Status::Closed));
    assert_eq!(cs.closed, Some(Some(7)));
    cs.set_status(&t, Status::Open, 9);
    assert_eq!(cs.status, Some(Status::Closed));
    assert_eq!(cs.closed, Some(Some(7)));
}

#[test]
fn update_refuses_empty_description() {
    let mut store = TaskStore::new();
    let a = store.insert("A".to_string(), None, 1).unwrap();
    let cs = TaskChangeSet::from_edit(&a, String::new(), None, Status::Open, 2);
    assert_eq!(store.update(a.id, &cs), Err(SuaideError::IncorrectArgs));
    assert_eq!(store.find("1").unwrap(), a);
    let mut t = task(5, Status::Open, 1);
    t.description = String::new();
    assert_eq!(store.restore(t), Err(SuaideError::IncorrectArgs));
}
