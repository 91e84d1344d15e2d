use habit_stack_rs::date::Date;
use habit_stack_rs::id::parse_id;
use habit_stack_rs::model::{Habit, HabitEntry, HabitStatus};
use habit_stack_rs::storage::{
    date_param, entries_query, entry_from_row, entry_to_row, habit_from_row, habit_to_row,
    habits_query, id_param, upsert_plan, EntryRow, HabitRow, RowError, UpsertPlan,
};

fn ymd(y: i32, m: u32, d: u32) -> Date {
    Date::from_ymd(y, m, d).unwrap()
}

fn is_v4(id: u128) -> bool {
    (id >> 76) & 0xf == 4 && (id >> 62) & 0x3 == 2
}

#[test]
fn status_text_round_trips() {
    for s in [HabitStatus::Done, HabitStatus::Skipped, HabitStatus::Missed] {
        assert_eq!(HabitStatus::from_str(s.as_str()), Some(s));
    }
    assert_eq!(HabitStatus::Done.as_str(), "done");
    assert_eq!(HabitStatus::Skipped.as_str(), "skipped");
    assert_eq!(HabitStatus::Missed.as_str(), "missed");
}

#[test]
fn status_from_unknown_text_is_none() {
    assert_eq!(HabitStatus::from_str("Done"), None);
    assert_eq!(HabitStatus::from_str(""), None);
    assert_eq!(HabitStatus::from_str("done "), None);
}

#[test]
fn new_habit_keeps_name_and_is_active() {
    let habit = Habit::new("Test Habit", None);
    assert_eq!(habit.name, "Test Habit");
    assert!(habit.color.is_none());
    assert!(!habit.archived);
    assert!(is_v4(habit.id));
    let other = Habit::new("Test Habit", Some("red".to_string()));
    assert_eq!(other.color.as_deref(), Some("red"));
    assert_ne!(habit.id, other.id);
}

#[test]
fn new_entry_has_no_note() {
    let date = ymd(2025, 1, 1);
    let entry = HabitEntry::new(7, date, HabitStatus::Skipped);
    assert_eq!(entry.habit_id, 7);
    assert_eq!(entry.date, date);
    assert_eq!(entry.status, HabitStatus::Skipped);
    assert!(entry.note.is_none());
    assert!(is_v4(entry.id));
}

#[test]
fn calendar_days_are_day_numbers() {
    assert_eq!(ymd(1, 1, 1).days(), 1);
    assert_eq!(ymd(1970, 1, 1).days(), 719163);
    assert_eq!(ymd(2025, 1, 1).days(), 739252);
    assert!(Date::from_ymd(2015, 2, 29).is_none());
    assert!(Date::from_ymd(2015, 13, 1).is_none());
    assert_eq!(Date::from_days(739252), Some(ymd(2025, 1, 1)));
    assert!(Date::from_days(95745399).is_some());
    assert!(Date::from_days(95745400).is_none());
    assert!(Date::from_days(-95746129).is_some());
    assert!(Date::from_days(-95746130).is_none());
}

#[test]
fn stored_texts_of_ids_and_dates() {
    assert_eq!(
        id_param(0x67e5504410b1426f9247bb680e5fe0c8),
        "67e55044-10b1-426f-9247-bb680e5fe0c8"
    );
    assert_eq!(date_param(ymd(2025, 1, 1)), "2025-01-01");
    assert_eq!(date_param(ymd(999, 12, 31)), "0999-12-31");
}

#[test]
fn habit_row_round_trips() {
    let habit = Habit::new("Read", Some("blue".to_string()));
    let row = habit_to_row(&habit);
    assert_eq!(row.id, id_param(habit.id));
    assert_eq!(row.name, "Read");
    assert_eq!(row.archived, 0);
    let back = habit_from_row(row).unwrap();
    assert_eq!(back.id, habit.id);
    assert_eq!(back.name, habit.name);
    assert_eq!(back.color, habit.color);
    assert_eq!(back.created_at, habit.created_at);
    assert_eq!(back.archived, habit.archived);
}

#[test]
fn archived_flag_reads_as_nonzero() {
    let row = HabitRow {
        id: "67e55044-10b1-426f-9247-bb680e5fe0c8".to_string(),
        name: "Walk".to_string(),
        color: None,
        created_at: "2024-02-29".to_string(),
        archived: 5,
    };
    let habit = habit_from_row(row).unwrap();
    assert!(habit.archived);
    assert_eq!(habit.id, 0x67e5504410b1426f9247bb680e5fe0c8);
    assert_eq!(habit.created_at, ymd(2024, 2, 29));
}

#[test]
fn habit_row_errors_name_the_column() {
    let bad_id = HabitRow {
        id: "not-an-id".to_string(),
        name: "Walk".to_string(),
        color: None,
        created_at: "2024-02-30".to_string(),
        archived: 0,
    };
    assert_eq!(habit_from_row(bad_id).err(), Some(RowError::InvalidId { column: 0 }));
    let bad_date = HabitRow {
        id: "67e55044-10b1-426f-9247-bb680e5fe0c8".to_string(),
        name: "Walk".to_string(),
        color: None,
        created_at: "2024-02-30".to_string(),
        archived: 0,
    };
    assert_eq!(habit_from_row(bad_date).err(), Some(RowError::InvalidDate { column: 3 }));
}

#[test]
fn entry_row_round_trips() {
    let mut entry = HabitEntry::new(0xabc, ymd(2025, 3, 9), HabitStatus::Missed);
    entry.note = Some("tired".to_string());
    let row = entry_to_row(&entry);
    assert_eq!(row.status, "missed");
    assert_eq!(row.date, "2025-03-09");
    assert_eq!(row.habit_id, "00000000-0000-0000-0000-000000000abc");
    let back = entry_from_row(row).unwrap();
    assert_eq!(back.id, entry.id);
    assert_eq!(back.habit_id, entry.habit_id);
    assert_eq!(back.date, entry.date);
    assert_eq!(back.status, entry.status);
    assert_eq!(back.note, entry.note);
}

#[test]
fn entry_row_errors_name_the_column() {
    let row = |id: &str, habit_id: &str, date: &str, status: &str| EntryRow {
        id: id.to_string(),
        habit_id: habit_id.to_string(),
        date: date.to_string(),
        status: status.to_string(),
        note: None,
    };
    let good = "67e55044-10b1-426f-9247-bb680e5fe0c8";
    assert_eq!(
        entry_from_row(row("x", good, "2025-01-01", "done")).err(),
        Some(RowError::InvalidId { column: 0 })
    );
    assert_eq!(
        entry_from_row(row(good, "y", "2025-01-01", "done")).err(),
        Some(RowError::InvalidId { column: 1 })
    );
    assert_eq!(
        entry_from_row(row(good, good, "yesterday", "done")).err(),
        Some(RowError::InvalidDate { column: 2 })
    );
    assert_eq!(
        entry_from_row(row(good, good, "2025-01-01", "DONE")).err(),
        Some(RowError::InvalidStatus { column: 3 })
    );
    assert!(entry_from_row(row(good, good, "2025-01-01", "skipped")).is_ok());
}

#[test]
fn habit_queries_filter_archived() {
    assert_eq!(
        habits_query(true),
        "SELECT id, name, color, created_at, archived FROM habits"
    );
    assert_eq!(
        habits_query(false),
        "SELECT id, name, color, created_at, archived FROM habits WHERE archived = 0"
    );
}

#[test]
fn entries_query_numbers_placeholders() {
    let start = ymd(2025, 1, 1);
    let end = ymd(2025, 1, 31);
    assert!(entries_query(&vec![], start, end).is_none());
    let ids: Vec<u128> = (1..=11).collect();
    let query = entries_query(&ids, start, end).unwrap();
    assert!(query.sql.contains(
        "WHERE habit_id IN (?1, ?2, ?3, ?4, ?5, ?6, ?7, ?8, ?9, ?10, ?11)"
    ));
    assert!(query.sql.starts_with("SELECT id, habit_id, date, status, note"));
    assert!(query.sql.ends_with("AND date >= ?\n               AND date <= ?"));
    assert_eq!(query.params.len(), 13);
    assert_eq!(query.params[0], id_param(1));
    assert_eq!(query.params[10], id_param(11));
    assert_eq!(query.params[11], "2025-01-01");
    assert_eq!(query.params[12], "2025-01-31");
    let single = entries_query(&vec![5], start, end).unwrap();
    assert!(single.sql.contains("IN (?1)"));
}

#[test]
fn upsert_updates_an_existing_entry() {
    let date = ymd(2025, 1, 1);
    let existing = Some("67E55044-10B1-426F-9247-BB680E5FE0C8".to_string());
    match upsert_plan(existing, 1, date, HabitStatus::Missed, Some("n".to_string())).unwrap() {
        UpsertPlan::Update { id, status, note } => {
            assert_eq!(id, "67e55044-10b1-426f-9247-bb680e5fe0c8");
            assert_eq!(status, "missed");
            assert_eq!(note.as_deref(), Some("n"));
        }
        UpsertPlan::Insert(_) => panic!("expected an update"),
    }
    assert_eq!(
        upsert_plan(Some("bad".to_string()), 1, date, HabitStatus::Done, None).err(),
        Some(RowError::InvalidId { column: 0 })
    );
}

#[test]
fn upsert_inserts_a_new_entry_without_note() {
    let date = ymd(2025, 1, 1);
    match upsert_plan(None, 9, date, HabitStatus::Done, Some("ignored".to_string())).unwrap() {
        UpsertPlan::Insert(row) => {
            assert_eq!(row.habit_id, id_param(9));
            assert_eq!(row.date, "2025-01-01");
            assert_eq!(row.status, "done");
            assert!(row.note.is_none());
            let entry = entry_from_row(row).unwrap();
            assert!(is_v4(entry.id));
        }
        UpsertPlan::Update { .. } => panic!("expected an insert"),
    }
}

#[test]
fn ids_read_back_from_text() {
    let id = 0x67e5504410b1426f9247bb680e5fe0c8u128;
    assert_eq!(parse_id(&id_param(id)), Some(id));
    assert_eq!(parse_id("67e5504410b1426f9247bb680e5fe0c8"), Some(id));
    assert_eq!(parse_id("67E55044-10B1-426F-9247-BB680E5FE0C8"), Some(id));
    assert_eq!(parse_id("67e55044-10b1-426f-9247"), None);
    assert_eq!(parse_id(""), None);
}

#[test]
fn create_and_list_habits() {
    // What the store keeps of a created habit, and what listing reads back from it.
    let habit = Habit::new("Test Habit", None);
    let stored = vec![habit_to_row(&habit)];

    let habits: Vec<Habit> = stored.into_iter().map(|row| habit_from_row(row).unwrap()).collect();
    assert_eq!(habits.len(), 1);
    assert_eq!(habits[0].name, "Test Habit");
}

#[test]
fn upsert_and_query_entries() {
    // Recording a status where none is stored inserts an entry; querying the day reads it back.
    let habit = Habit::new("Test Habit", None);
    let habit_id = habit.id;

    let date = Date::from_ymd(2025, 1, 1).unwrap();
    let stored = match upsert_plan(None, habit_id, date, HabitStatus::Done, None).unwrap() {
        UpsertPlan::Insert(row) => vec![row],
        UpsertPlan::Update { .. } => panic!("nothing was stored before"),
    };

    let query = entries_query(&vec![habit_id], date, date).unwrap();
    assert_eq!(query.params, vec![id_param(habit_id), date_param(date), date_param(date)]);
    let entries: Vec<HabitEntry> = stored
        .into_iter()
        .filter(|row| row.habit_id == query.params[0] && row.date == query.params[1])
        .map(|row| entry_from_row(row).unwrap())
        .collect();
    assert_eq!(entries.len(), 1);
    assert_eq!(entries[0].status, HabitStatus::Done);
}

#[test]
fn habit_created_on_a_given_day() {
    let day = ymd(2024, 2, 29);
    let habit = Habit::new_on("Walk", None, day);
    assert_eq!(habit.created_at, day);
    assert_eq!(habit.name, "Walk");
    assert!(!habit.archived);
    assert!(is_v4(habit.id));
}

#[test]
fn dates_outside_four_digit_years_round_trip() {
    for day in [-95746129, -366, 0, 3652060, 95745399] {
        let mut entry = HabitEntry::new(1, Date::from_days(day).unwrap(), HabitStatus::Done);
        entry.note = None;
        let back = entry_from_row(entry_to_row(&entry)).unwrap();
        assert_eq!(back.date, entry.date);
    }
    assert_eq!(date_param(Date::from_days(3652060).unwrap()), "+10000-01-01");
    assert_eq!(date_param(Date::from_days(0).unwrap()), "0000-12-31");
}
