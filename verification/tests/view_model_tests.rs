use habit_stack_rs::date::Date;
use habit_stack_rs::model::{Habit, HabitEntry, HabitStatus};
use habit_stack_rs::view_model::{build_weeks, AppState, GRAPH_WEEKS};

fn ymd(y: i32, m: u32, d: u32) -> Date {
    Date::from_ymd(y, m, d).unwrap()
}

fn entry(habit_id: u128, date: Date, status: HabitStatus, note: Option<&str>) -> HabitEntry {
    let mut e = HabitEntry::new(habit_id, date, status);
    e.note = note.map(|n| n.to_string());
    e
}

fn refresh(state: &mut AppState, stored: &[HabitEntry]) {
    let end = state.default_range_end();
    if let Some(query) = state.refresh_for_current_habit(end, GRAPH_WEEKS) {
        let loaded: Vec<HabitEntry> = stored
            .iter()
            .filter(|e| {
                e.habit_id == query.habit_id
                    && e.date.days() >= query.start.days()
                    && e.date.days() <= query.end.days()
            })
            .cloned()
            .collect();
        state.entries_loaded(&query, loaded);
    }
}

#[test]
fn set_current_habit_updates_graph() {
    // create two habits
    let h1 = Habit::new("H1", None);
    let h2 = Habit::new("H2", None);
    let h2_id = h2.id;

    let mut state = AppState::new();
    assert!(!state.initial_load(vec![h1, h2]));
    refresh(&mut state, &[]);

    // current_habit_id should be set and graph_weeks computed
    assert!(state.current_habit_id.is_some());
    let initial_id = state.current_habit_id.unwrap();

    // switch to the second habit
    assert!(state.set_current_habit(h2_id));
    refresh(&mut state, &[]);
    assert_eq!(state.current_habit_id, Some(h2_id));
    assert!(!state.graph_weeks.is_empty());

    // switching back should also work
    assert!(state.set_current_habit(initial_id));
    refresh(&mut state, &[]);
    assert_eq!(state.current_habit_id, Some(initial_id));
}

#[test]
fn unknown_habit_is_not_selected() {
    let h1 = Habit::new("H1", None);
    let id = h1.id;
    let mut state = AppState::new();
    state.initial_load(vec![h1]);
    assert!(!state.set_current_habit(id ^ 1));
    assert_eq!(state.current_habit_id, Some(id));
}

#[test]
fn first_launch_creates_default_habit() {
    let mut state = AppState::new();
    assert!(state.initial_load(Vec::new()));
    assert_eq!(state.habits.len(), 1);
    assert_eq!(state.habits[0].name, "Daily Check-in");
    assert!(state.habits[0].color.is_none());
    assert!(!state.habits[0].archived);
    assert_eq!(state.current_habit_id, Some(state.habits[0].id));
}

#[test]
fn refresh_without_habit_clears_graph() {
    let mut state = AppState::new();
    state.initial_load(vec![Habit::new("H", None)]);
    refresh(&mut state, &[]);
    assert!(!state.graph_weeks.is_empty());
    state.current_habit_id = None;
    let end = state.default_range_end();
    assert!(state.refresh_for_current_habit(end, GRAPH_WEEKS).is_none());
    assert!(state.graph_weeks.is_empty());
    assert!(state.entries.is_empty());
}

#[test]
fn twelve_weeks_end_on_the_given_day() {
    let end = ymd(2025, 3, 31);
    let (start, last) = AppState::range_for_weeks_ending(end, 12);
    assert_eq!(last, end);
    assert_eq!(start, ymd(2025, 1, 7));
    assert_eq!(end.days() - start.days() + 1, 84);
}

#[test]
fn graph_columns_start_on_mondays() {
    // 2025-01-01 is a Wednesday; its week begins on Monday 2024-12-30.
    let weeks = build_weeks(ymd(2025, 1, 1), ymd(2025, 1, 14), &Vec::new());
    assert_eq!(weeks.len(), 3);
    assert_eq!(weeks[0].start_date, ymd(2024, 12, 30));
    assert_eq!(weeks[1].start_date, ymd(2025, 1, 6));
    assert_eq!(weeks[2].start_date, ymd(2025, 1, 13));
    for week in &weeks {
        assert_eq!(week.days.len(), 7);
        for (row, cell) in week.days.iter().enumerate() {
            assert_eq!(cell.date.days(), week.start_date.days() + row as i32);
            assert_eq!((cell.date.days() - 1).rem_euclid(7), row as i32);
            assert_eq!(cell.status, None);
            assert_eq!(cell.entry_count, 0);
        }
    }
    // A range that starts on a Monday and ends on a Sunday is exactly one week.
    let one = build_weeks(ymd(2025, 1, 6), ymd(2025, 1, 12), &Vec::new());
    assert_eq!(one.len(), 1);
    // A range that ends before its start still shows the week of its start, if that
    // week begins on or before the end.
    assert_eq!(build_weeks(ymd(2025, 1, 8), ymd(2025, 1, 7), &Vec::new()).len(), 1);
    assert_eq!(build_weeks(ymd(2025, 1, 8), ymd(2025, 1, 5), &Vec::new()).len(), 0);
}

#[test]
fn graph_cells_summarise_entries() {
    let d2 = ymd(2025, 1, 2);
    let d3 = ymd(2025, 1, 3);
    let entries = vec![
        entry(1, d3, HabitStatus::Skipped, Some("")),
        entry(1, d2, HabitStatus::Missed, None),
        entry(1, d2, HabitStatus::Done, Some("walked")),
        entry(1, d3, HabitStatus::Missed, None),
    ];
    let weeks = build_weeks(ymd(2025, 1, 1), ymd(2025, 1, 5), &entries);
    assert_eq!(weeks.len(), 1);
    let cells = &weeks[0].days;
    // Thursday 2025-01-02: one done of two, with a note.
    let thu = &cells[3];
    assert_eq!(thu.date, d2);
    assert_eq!(thu.status, Some(HabitStatus::Done));
    assert_eq!(thu.done_count, 1);
    assert_eq!(thu.entry_count, 2);
    assert!(thu.has_note);
    // Friday 2025-01-03: nothing done; the first entry's status; an empty note is no note.
    let fri = &cells[4];
    assert_eq!(fri.date, d3);
    assert_eq!(fri.status, Some(HabitStatus::Skipped));
    assert_eq!(fri.done_count, 0);
    assert_eq!(fri.entry_count, 2);
    assert!(!fri.has_note);
    // Monday 2024-12-30: no entries.
    assert_eq!(cells[0].status, None);
    assert!(!cells[0].has_note);
}

#[test]
fn toggling_today_alternates() {
    let mut state = AppState::new();
    state.initial_load(vec![Habit::new("H", None)]);
    let id = state.habits[0].id;
    let today = state.today;

    let first = state.toggle_today_for_habit(id);
    assert_eq!(first.habit_id, id);
    assert_eq!(first.date, today);
    assert_eq!(first.status, HabitStatus::Done);

    state.entries = vec![entry(id, today, HabitStatus::Done, None)];
    assert_eq!(state.toggle_today_for_habit(id).status, HabitStatus::Missed);

    state.entries = vec![entry(id, today, HabitStatus::Missed, None)];
    assert_eq!(state.toggle_today_for_habit(id).status, HabitStatus::Done);

    // Only the first entry of the habit today counts; other habits and days do not.
    state.entries = vec![
        entry(id + 1, today, HabitStatus::Done, None),
        entry(id, ymd(2000, 1, 1), HabitStatus::Done, None),
        entry(id, today, HabitStatus::Skipped, None),
        entry(id, today, HabitStatus::Done, None),
    ];
    assert_eq!(state.toggle_today_for_habit(id).status, HabitStatus::Done);
}

#[test]
fn toggled_habit_becomes_current() {
    let mut state = AppState::new();
    state.initial_load(vec![Habit::new("A", None), Habit::new("B", None)]);
    let b = state.habits[1].id;
    let toggle = state.toggle_today_for_habit(b);
    state.select_habit(toggle.habit_id);
    assert_eq!(state.current_habit_id, Some(b));
}

#[test]
fn added_habit_becomes_current() {
    let mut state = AppState::new();
    state.initial_load(vec![Habit::new("A", None)]);
    let added = state.add_habit("Stretch");
    assert_eq!(added.name, "Stretch");
    assert!(added.color.is_none());
    let id = added.id;
    let mut listed = state.habits.clone();
    listed.push(added);
    state.habits_reloaded(listed, id);
    assert_eq!(state.habits.len(), 2);
    assert_eq!(state.current_habit_id, Some(id));
}

#[test]
fn tap_toggles_current_or_first_habit() {
    let mut state = AppState::new();
    assert_eq!(state.habit_for_tap(), None);
    state.initial_load(vec![Habit::new("A", None), Habit::new("B", None)]);
    let a = state.habits[0].id;
    let b = state.habits[1].id;
    assert_eq!(state.habit_for_tap(), Some(a));
    state.select_habit(b);
    assert_eq!(state.habit_for_tap(), Some(b));
    state.current_habit_id = None;
    assert_eq!(state.habit_for_tap(), Some(a));
}

#[test]
fn graph_reaches_the_calendar_limits() {
    // The first Monday of the calendar, and the last days of it.
    let first_monday = Date::from_days(-95746125).unwrap();
    let weeks = build_weeks(first_monday, first_monday, &Vec::new());
    assert_eq!(weeks.len(), 1);
    assert_eq!(weeks[0].start_date, first_monday);
    let late = Date::from_days(95745398).unwrap();
    let weeks = build_weeks(late, late, &Vec::new());
    assert_eq!(weeks.len(), 1);
    assert_eq!(weeks[0].start_date.days(), 95745392);
    assert_eq!(weeks[0].days[6].date, late);
}

#[test]
fn state_dated_on_a_given_day() {
    let day = ymd(2025, 1, 1);
    let state = AppState::new_on(day);
    assert_eq!(state.today, day);
    assert!(state.habits.is_empty());
    assert!(state.current_habit_id.is_none());
}

#[test]
fn week_label_and_current_chip() {
    let weeks = build_weeks(ymd(2025, 1, 1), ymd(2025, 1, 14), &Vec::new());
    assert_eq!(weeks[0].start_label(), "Dec 30");
    assert_eq!(weeks[1].start_label(), "Jan 06");
    let mut state = AppState::new();
    state.initial_load(vec![Habit::new("A", None), Habit::new("B", None)]);
    let a = state.habits[0].id;
    let b = state.habits[1].id;
    assert!(state.is_current(a));
    assert!(!state.is_current(b));
    state.current_habit_id = None;
    assert!(!state.is_current(a));
}
