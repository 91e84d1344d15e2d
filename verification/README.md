# Habit Stack

A privacy-first habit tracker whose core is verified with Verus. All data stays in a local
SQLite database (`habits.db` in the platform's app-data directory); the main view is a
contribution-style calendar graph: one column per week, one row per weekday (Monday to Sunday).

## Layout

- `src/` — the verified library (`habit_stack_rs`):
  - `date.rs`: calendar days as day numbers; weekdays, day arithmetic and the text form of
    dates come from `chrono`.
  - `id.rs`: 128-bit identifiers; generation, text form and parsing come from `uuid`.
  - `model.rs`: `HabitStatus`, `Habit`, `HabitEntry`.
  - `storage.rs`: the rows that store habits and entries, their conversions both ways, the
    queries that read them, and the update-or-insert decision for recording a status.
  - `view_model.rs`: `AppState`, and the week-by-week graph (`build_weeks`).
- `app/` — the program around it: the SQLite store (`rusqlite`), the sequence of store and
  state operations, and a terminal front end (`tap`, `select <id>`, `toggle <id>`,
  `add <name>`, `quit`).
- `tests/` — tests of the library.

`AppState` holds no database: each operation that needs the store is split into a step that
decides (in the library) and a step that the application performs before handing the result
back (`refresh_for_current_habit` then `entries_loaded`, `toggle_today_for_habit` then
`select_habit`, `add_habit` then `habits_reloaded`).
