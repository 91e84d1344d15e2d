//! How habits and entries are stored as rows of text and integers, and the queries that read
//! them back. The database itself is opened and queried by the application around the library.
use crate::date::{date_from_text, date_parse, date_text, date_to_text, in_range, Date};
use crate::id::{id_from_text, id_to_text, is_random_id, uuid_parse, uuid_text};
use crate::model::{
    lemma_status_text_roundtrip, opt_text, status_from_text, status_text, Habit, HabitEntry,
    HabitEntryView, HabitStatus, HabitView,
};
use vstd::prelude::*;

verus! {

/// The columns of a stored habit: `id`, `name`, `color`, `created_at`, `archived`.
pub struct HabitRow {
    pub id: String,
    pub name: String,
    pub color: Option<String>,
    pub created_at: String,
    pub archived: i64,
}

/// The columns of a stored entry: `id`, `habit_id`, `date`, `status`, `note`.
pub struct EntryRow {
    pub id: String,
    pub habit_id: String,
    pub date: String,
    pub status: String,
    pub note: Option<String>,
}

/// A stored value that does not convert back; `column` is the column's position in its row.
#[derive(Clone, Copy, Debug, PartialEq, Eq, Structural)]
pub enum RowError {
    InvalidId { column: usize },
    InvalidDate { column: usize },
    InvalidStatus { column: usize },
}

/// `row` holds the stored form of the habit `h`.
pub open spec fn habit_row_holds(row: HabitRow, h: HabitView) -> bool {
    &&& row.id@ == uuid_text(h.id)
    &&& row.name@ == h.name
    &&& opt_text(row.color) == h.color
    &&& row.created_at@ == date_text(h.created_at)
    &&& row.archived == (if h.archived {
        1i64
    } else {
        0i64
    })
}

/// The habit that a stored row reads as, or the first column that does not convert.
pub open spec fn decoded_habit(row: HabitRow) -> Result<HabitView, RowError> {
    match uuid_parse(row.id@) {
        None => Err(RowError::InvalidId { column: 0 }),
        Some(id) => match date_parse(row.created_at@) {
            None => Err(RowError::InvalidDate { column: 3 }),
            Some(day) => Ok(
                HabitView {
                    id,
                    name: row.name@,
                    color: opt_text(row.color),
                    created_at: day,
                    archived: row.archived != 0,
                },
            ),
        },
    }
}

/// `row` holds the stored form of the entry `e`.
pub open spec fn entry_row_holds(row: EntryRow, e: HabitEntryView) -> bool {
    &&& row.id@ == uuid_text(e.id)
    &&& row.habit_id@ == uuid_text(e.habit_id)
    &&& row.date@ == date_text(e.date)
    &&& row.status@ == status_text(e.status)
    &&& opt_text(row.note) == e.note
}

/// The entry that a stored row reads as, or the first column that does not convert.
pub open spec fn decoded_entry(row: EntryRow) -> Result<HabitEntryView, RowError> {
    match uuid_parse(row.id@) {
        None => Err(RowError::InvalidId { column: 0 }),
        Some(id) => match uuid_parse(row.habit_id@) {
            None => Err(RowError::InvalidId { column: 1 }),
            Some(habit_id) => match date_parse(row.date@) {
                None => Err(RowError::InvalidDate { column: 2 }),
                Some(day) => match status_from_text(row.status@) {
                    None => Err(RowError::InvalidStatus { column: 3 }),
                    Some(status) => Ok(
                        HabitEntryView {
                            id,
                            habit_id,
                            date: day,
                            status,
                            note: opt_text(row.note),
                        },
                    ),
                },
            },
        },
    }
}

/// A copy of an optional text.
fn copy_text(o: &Option<String>) -> (r: Option<String>)
    ensures
        r == *o,
{
    match o {
        Some(s) => Some(s.clone()),
        None => None,
    }
}

/// The text under which an identifier is stored (its hyphenated lower-case form).
pub fn id_param(id: u128) -> (s: String)
    ensures
        s@ == uuid_text(id),
{
    id_to_text(id)
}

/// The text under which a date is stored (`YYYY-MM-DD` for the years 0 to 9999).
pub fn date_param(date: Date) -> (s: String)
    ensures
        s@ == date_text(date@),
{
    date_to_text(date)
}

/// The row that stores a habit.
pub fn habit_to_row(habit: &Habit) -> (row: HabitRow)
    ensures
        habit_row_holds(row, habit@),
        row.name == habit.name,
        row.color == habit.color,
{
    HabitRow {
        id: id_to_text(habit.id),
        name: habit.name.clone(),
        color: copy_text(&habit.color),
        created_at: date_to_text(habit.created_at),
        archived: if habit.archived {
            1
        } else {
            0
        },
    }
}

/// Reads a habit back from its row. A row that holds a habit reads back as that habit.
pub fn habit_from_row(row: HabitRow) -> (r: Result<Habit, RowError>)
    ensures
        match r {
            Ok(h) => decoded_habit(row) == Ok::<HabitView, RowError>(h@),
            Err(e) => decoded_habit(row) == Err::<HabitView, RowError>(e),
        },
        forall|h: HabitView|
            #[trigger] habit_row_holds(row, h) && in_range(h.created_at) ==> (
            r matches Ok(back) && back@ == h),
{
    let id = match id_from_text(row.id.as_str()) {
        Some(id) => id,
        None => {
            return Err(RowError::InvalidId { column: 0 });
        },
    };
    let created_at = match date_from_text(row.created_at.as_str()) {
        Some(d) => d,
        None => {
            return Err(RowError::InvalidDate { column: 3 });
        },
    };
    let archived = row.archived != 0;
    Ok(Habit { id, name: row.name, color: row.color, created_at, archived })
}

/// The row that stores an entry.
pub fn entry_to_row(entry: &HabitEntry) -> (row: EntryRow)
    ensures
        entry_row_holds(row, entry@),
        row.note == entry.note,
{
    EntryRow {
        id: id_to_text(entry.id),
        habit_id: id_to_text(entry.habit_id),
        date: date_to_text(entry.date),
        status: entry.status.as_str().to_owned(),
        note: copy_text(&entry.note),
    }
}

/// Reads an entry back from its row. A row that holds an entry reads back as that entry.
pub fn entry_from_row(row: EntryRow) -> (r: Result<HabitEntry, RowError>)
    ensures
        match r {
            Ok(e) => decoded_entry(row) == Ok::<HabitEntryView, RowError>(e@),
            Err(err) => decoded_entry(row) == Err::<HabitEntryView, RowError>(err),
        },
        forall|e: HabitEntryView|
            #[trigger] entry_row_holds(row, e) && in_range(e.date) ==> (
            r matches Ok(back) && back@ == e),
{
    proof {
        assert forall|e: HabitEntryView| #[trigger]
            entry_row_holds(row, e) implies status_from_text(row.status@) == Some(e.status) by {
            lemma_status_text_roundtrip(e.status, row.status@);
        }
    }
    let id = match id_from_text(row.id.as_str()) {
        Some(id) => id,
        None => {
            return Err(RowError::InvalidId { column: 0 });
        },
    };
    let habit_id = match id_from_text(row.habit_id.as_str()) {
        Some(id) => id,
        None => {
            return Err(RowError::InvalidId { column: 1 });
        },
    };
    let date = match date_from_text(row.date.as_str()) {
        Some(d) => d,
        None => {
            return Err(RowError::InvalidDate { column: 2 });
        },
    };
    let status = match HabitStatus::from_str(row.status.as_str()) {
        Some(s) => s,
        None => {
            return Err(RowError::InvalidStatus { column: 3 });
        },
    };
    Ok(HabitEntry { id, habit_id, date, status, note: row.note })
}

/// The query for the stored habits, all of them or only those not archived.
pub open spec fn all_habits_sql() -> Seq<char> {
    "SELECT id, name, color, created_at, archived FROM habits"@
}

/// The query for the habits that are not archived.
pub open spec fn active_habits_sql() -> Seq<char> {
    "SELECT id, name, color, created_at, archived FROM habits WHERE archived = 0"@
}

/// The query that lists habits: with `include_archived`, all of them; otherwise those not archived.
pub fn habits_query(include_archived: bool) -> (sql: &'static str)
    ensures
        sql@ == (if include_archived {
            all_habits_sql()
        } else {
            active_habits_sql()
        }),
{
    if include_archived {
        "SELECT id, name, color, created_at, archived FROM habits"
    } else {
        "SELECT id, name, color, created_at, archived FROM habits WHERE archived = 0"
    }
}

/// The character of a decimal digit.
pub open spec fn digit_char(d: int) -> char {
    (48 + d) as char
}

/// The decimal form of `n`, without leading zeros.
pub open spec fn decimal_text(n: nat) -> Seq<char>
    decreases n,
{
    if n < 10 {
        seq![digit_char(n as int)]
    } else {
        decimal_text(n / 10).push(digit_char((n % 10) as int))
    }
}

/// The numbered placeholders `?1, ?2, ..., ?n`.
pub open spec fn placeholder_list(n: nat) -> Seq<char>
    decreases n,
{
    if n == 0 {
        Seq::empty()
    } else {
        let before = placeholder_list((n - 1) as nat);
        let separator = if n > 1 {
            ", "@
        } else {
            Seq::empty()
        };
        before + separator + "?"@ + decimal_text(n)
    }
}

/// A decimal digit, `0` to `9`.
pub open spec fn is_decimal_digit(c: char) -> bool {
    c == '0' || c == '1' || c == '2' || c == '3' || c == '4' || c == '5' || c == '6' || c == '7'
        || c == '8' || c == '9'
}

/// `s` is a non-empty list of numbered placeholders such as `?1, ?2, ?3`: each item is `?`
/// followed by digits, and the items are separated by a comma and a space. Nothing else
/// (no parenthesis, keyword or operator) occurs in it.
pub open spec fn placeholder_syntax(s: Seq<char>) -> bool {
    &&& s.len() > 0
    &&& s[0] == '?'
    &&& is_decimal_digit(s[s.len() - 1])
    &&& forall|i: int|
        0 <= i < s.len() ==> (#[trigger] s[i] == '?' || s[i] == ',' || s[i] == ' '
            || is_decimal_digit(s[i]))
    &&& forall|i: int|
        0 <= i < s.len() && #[trigger] s[i] == '?' ==> i + 1 < s.len() && is_decimal_digit(
            s[i + 1],
        ) && (i > 0 ==> s[i - 1] == ' ')
    &&& forall|i: int|
        0 <= i < s.len() && #[trigger] s[i] == ',' ==> i + 2 < s.len() && s[i + 1] == ' ' && s[i
            + 2] == '?'
    &&& forall|i: int| 0 <= i < s.len() && #[trigger] s[i] == ' ' ==> 0 < i && s[i - 1] == ','
}

/// The query for the entries of `n` habits between two dates: the habits' identifiers are the
/// numbered placeholders, the first and last date the two placeholders after them.
pub open spec fn entries_sql(n: nat) -> Seq<char> {
    "SELECT id, habit_id, date, status, note\n"@ + "             FROM habit_entries\n"@ + "             WHERE habit_id IN ("@
        + placeholder_list(n)
        + ")\n               AND date >= ?\n               AND date <= ?"@
}

/// The number of times `c` occurs among the first `k` characters of `s`.
pub open spec fn occurrences_before(s: Seq<char>, c: char, k: int) -> nat
    decreases k,
{
    if k <= 0 {
        0
    } else {
        occurrences_before(s, c, k - 1) + (if s[k - 1] == c {
            1nat
        } else {
            0nat
        })
    }
}

/// The number of times `c` occurs in `s`.
pub open spec fn occurrences(s: Seq<char>, c: char) -> nat {
    occurrences_before(s, c, s.len() as int)
}

proof fn lemma_occurrences_prefix(a: Seq<char>, b: Seq<char>, c: char, k: int)
    requires
        0 <= k <= a.len(),
    ensures
        occurrences_before(a + b, c, k) == occurrences_before(a, c, k),
    decreases k,
{
    if k > 0 {
        lemma_occurrences_prefix(a, b, c, k - 1);
    }
}

proof fn lemma_occurrences_suffix(a: Seq<char>, b: Seq<char>, c: char, k: int)
    requires
        0 <= k <= b.len(),
    ensures
        occurrences_before(a + b, c, a.len() + k) == occurrences(a, c) + occurrences_before(
            b,
            c,
            k,
        ),
    decreases k,
{
    if k > 0 {
        lemma_occurrences_suffix(a, b, c, k - 1);
    } else {
        lemma_occurrences_prefix(a, b, c, a.len() as int);
    }
}

proof fn lemma_occurrences_concat(a: Seq<char>, b: Seq<char>, c: char)
    ensures
        occurrences(a + b, c) == occurrences(a, c) + occurrences(b, c),
{
    lemma_occurrences_suffix(a, b, c, b.len() as int);
}

proof fn lemma_no_occurrence(s: Seq<char>, c: char, k: int)
    requires
        0 <= k <= s.len(),
        forall|i: int| 0 <= i < s.len() ==> s[i] != c,
    ensures
        occurrences_before(s, c, k) == 0,
    decreases k,
{
    if k > 0 {
        lemma_no_occurrence(s, c, k - 1);
    }
}

proof fn lemma_digit_char(d: int)
    requires
        0 <= d < 10,
    ensures
        is_decimal_digit(digit_char(d)),
{
    if d == 0 {
    } else if d == 1 {
    } else if d == 2 {
    } else if d == 3 {
    } else if d == 4 {
    } else if d == 5 {
    } else if d == 6 {
    } else if d == 7 {
    } else if d == 8 {
    } else {
    }
}

proof fn lemma_decimal_digits(n: nat)
    ensures
        decimal_text(n).len() > 0,
        forall|i: int| 0 <= i < decimal_text(n).len() ==> is_decimal_digit(#[trigger] decimal_text(n)[i]),
    decreases n,
{
    if n >= 10 {
        lemma_decimal_digits(n / 10);
        lemma_digit_char((n % 10) as int);
        assert(decimal_text(n) == decimal_text(n / 10).push(digit_char((n % 10) as int)));
    } else {
        lemma_digit_char(n as int);
        assert(decimal_text(n) =~= seq![digit_char(n as int)]);
    }
}

proof fn lemma_placeholder_count(n: nat)
    ensures
        occurrences(placeholder_list(n), '?') == n,
    decreases n,
{
    if n > 0 {
        let before = placeholder_list((n - 1) as nat);
        let separator: Seq<char> = if n > 1 {
            ", "@
        } else {
            Seq::empty()
        };
        lemma_placeholder_count((n - 1) as nat);
        reveal_strlit(", ");
        reveal_strlit("?");
        lemma_no_occurrence(separator, '?', separator.len() as int);
        lemma_decimal_digits(n);
        lemma_no_occurrence(decimal_text(n), '?', decimal_text(n).len() as int);
        assert(occurrences("?"@, '?') == 1) by {
            reveal_with_fuel(occurrences_before, 2);
        }
        lemma_occurrences_concat(before, separator, '?');
        lemma_occurrences_concat(before + separator, "?"@, '?');
        lemma_occurrences_concat(before + separator + "?"@, decimal_text(n), '?');
    }
}

proof fn lemma_placeholder_syntax_first(d: Seq<char>)
    requires
        d.len() > 0,
        forall|i: int| 0 <= i < d.len() ==> is_decimal_digit(#[trigger] d[i]),
    ensures
        placeholder_syntax("?"@ + d),
{
    reveal_strlit("?");
    let t = "?"@ + d;
    assert forall|i: int| 0 < i < t.len() implies #[trigger] t[i] == d[i - 1] by {}
    assert(t[t.len() - 1] == d[d.len() - 1]);
}

proof fn lemma_placeholder_syntax_next(s: Seq<char>, d: Seq<char>)
    requires
        placeholder_syntax(s),
        d.len() > 0,
        forall|i: int| 0 <= i < d.len() ==> is_decimal_digit(#[trigger] d[i]),
    ensures
        placeholder_syntax(s + ", "@ + "?"@ + d),
{
    reveal_strlit("?");
    reveal_strlit(", ");
    let n: int = s.len() as int;
    let t = s + ", "@ + "?"@ + d;
    assert(t.len() == n + 3 + d.len());
    assert forall|i: int| 0 <= i < n implies #[trigger] t[i] == s[i] by {}
    assert forall|i: int| n + 3 <= i < t.len() implies #[trigger] t[i] == d[i - n - 3] by {}
    assert(t[n] == ',');
    assert(t[n + 1] == ' ');
    assert(t[n + 2] == '?');
    assert(t[t.len() - 1] == d[d.len() - 1]);
    assert forall|i: int| 0 <= i < t.len() implies (#[trigger] t[i] == '?' || t[i] == ',' || t[i]
        == ' ' || is_decimal_digit(t[i])) by {
        if i < n {
            assert(t[i] == s[i]);
        } else if i >= n + 3 {
            assert(t[i] == d[i - n - 3]);
        }
    }
    assert forall|i: int| 0 <= i < t.len() && #[trigger] t[i] == '?' implies i + 1 < t.len()
        && is_decimal_digit(t[i + 1]) && (i > 0 ==> t[i - 1] == ' ') by {
        if i < n {
            assert(t[i] == s[i]);
            assert(t[i + 1] == s[i + 1]);
            if i > 0 {
                assert(t[i - 1] == s[i - 1]);
            }
        } else if i == n + 2 {
            assert(t[i + 1] == d[0]);
        } else if i >= n + 3 {
            assert(t[i] == d[i - n - 3]);
        }
    }
    assert forall|i: int| 0 <= i < t.len() && #[trigger] t[i] == ',' implies i + 2 < t.len()
        && t[i + 1] == ' ' && t[i + 2] == '?' by {
        if i < n {
            assert(t[i] == s[i]);
            assert(t[i + 1] == s[i + 1]);
            assert(t[i + 2] == s[i + 2]);
        } else if i >= n + 3 {
            assert(t[i] == d[i - n - 3]);
        }
    }
    assert forall|i: int| 0 <= i < t.len() && #[trigger] t[i] == ' ' implies 0 < i && t[i - 1]
        == ',' by {
        if i < n {
            assert(t[i] == s[i]);
            assert(t[i - 1] == s[i - 1]);
        } else if i >= n + 3 {
            assert(t[i] == d[i - n - 3]);
        }
    }
}

/// The numbered placeholders of one or more habits are a list of placeholders and nothing else.
pub proof fn lemma_placeholder_list_syntax(n: nat)
    requires
        n > 0,
    ensures
        placeholder_syntax(placeholder_list(n)),
    decreases n,
{
    lemma_decimal_digits(n);
    if n == 1 {
        reveal_with_fuel(placeholder_list, 2);
        assert(placeholder_list(0) =~= Seq::<char>::empty());
        assert(placeholder_list(n) =~= "?"@ + decimal_text(n));
        lemma_placeholder_syntax_first(decimal_text(n));
    } else {
        lemma_placeholder_list_syntax((n - 1) as nat);
        lemma_placeholder_syntax_next(placeholder_list((n - 1) as nat), decimal_text(n));
    }
}

/// The lines of the query hold no placeholder but the last, which holds two.
#[verifier::rlimit(100)]
proof fn lemma_entries_sql_head_1()
    ensures
        occurrences("SELECT id, habit_id, date, status, note\n"@, '?') == 0,
{
    reveal_strlit("SELECT id, habit_id, date, status, note\n");
    reveal_with_fuel(occurrences_before, 60);
}

#[verifier::rlimit(100)]
proof fn lemma_entries_sql_head_2()
    ensures
        occurrences("             FROM habit_entries\n"@, '?') == 0,
{
    reveal_strlit("             FROM habit_entries\n");
    reveal_with_fuel(occurrences_before, 60);
}

#[verifier::rlimit(100)]
proof fn lemma_entries_sql_head_3()
    ensures
        occurrences("             WHERE habit_id IN ("@, '?') == 0,
{
    reveal_strlit("             WHERE habit_id IN (");
    reveal_with_fuel(occurrences_before, 60);
}

#[verifier::rlimit(100)]
proof fn lemma_entries_sql_tail()
    ensures
        occurrences(")\n               AND date >= ?\n               AND date <= ?"@, '?') == 2,
{
    reveal_strlit(")\n               AND date >= ?\n               AND date <= ?");
    reveal_with_fuel(occurrences_before, 60);
}

/// The query for the entries of `n` habits has `n + 2` placeholders: one for each habit and
/// one for each of the two dates.
pub proof fn lemma_entries_sql_placeholders(n: nat)
    ensures
        occurrences(entries_sql(n), '?') == n + 2,
{
    let line1 = "SELECT id, habit_id, date, status, note\n"@;
    let line2 = "             FROM habit_entries\n"@;
    let line3 = "             WHERE habit_id IN ("@;
    let tail = ")\n               AND date >= ?\n               AND date <= ?"@;
    lemma_entries_sql_head_1();
    lemma_entries_sql_head_2();
    lemma_entries_sql_head_3();
    lemma_entries_sql_tail();
    lemma_placeholder_count(n);
    lemma_occurrences_concat(line1, line2, '?');
    lemma_occurrences_concat(line1 + line2, line3, '?');
    lemma_occurrences_concat(line1 + line2 + line3, placeholder_list(n), '?');
    lemma_occurrences_concat(line1 + line2 + line3 + placeholder_list(n), tail, '?');
}

/// A query with its parameters, in the order of its placeholders.
pub struct EntriesQuery {
    pub sql: String,
    pub params: Vec<String>,
}

/// The text of a decimal digit.
fn digit_str(d: usize) -> (s: &'static str)
    requires
        d < 10,
    ensures
        s@ == seq![digit_char(d as int)],
{
    if d == 0 {
        proof {
            reveal_strlit("0");
        }
        "0"
    } else if d == 1 {
        proof {
            reveal_strlit("1");
        }
        "1"
    } else if d == 2 {
        proof {
            reveal_strlit("2");
        }
        "2"
    } else if d == 3 {
        proof {
            reveal_strlit("3");
        }
        "3"
    } else if d == 4 {
        proof {
            reveal_strlit("4");
        }
        "4"
    } else if d == 5 {
        proof {
            reveal_strlit("5");
        }
        "5"
    } else if d == 6 {
        proof {
            reveal_strlit("6");
        }
        "6"
    } else if d == 7 {
        proof {
            reveal_strlit("7");
        }
        "7"
    } else if d == 8 {
        proof {
            reveal_strlit("8");
        }
        "8"
    } else {
        proof {
            reveal_strlit("9");
        }
        "9"
    }
}

/// Appends the decimal form of `n`.
fn append_decimal(s: &mut String, n: usize)
    ensures
        final(s)@ == old(s)@ + decimal_text(n as nat),
    decreases n,
{
    if n >= 10 {
        append_decimal(s, n / 10);
    }
    s.append(digit_str(n % 10));
    proof {
        if n >= 10 {
            assert(decimal_text(n as nat) == decimal_text((n / 10) as nat).push(
                digit_char((n % 10) as int),
            ));
        }
    }
}

/// The query for the entries of the given habits from `start` to `end`, with its parameters:
/// the habits' identifiers, then the two dates. Without habits there is nothing to query.
pub fn entries_query(habit_ids: &Vec<u128>, start: Date, end: Date) -> (q: Option<EntriesQuery>)
    ensures
        q is None <==> habit_ids@.len() == 0,
        q matches Some(query) ==> {
            &&& query.sql@ == entries_sql(habit_ids@.len())
            &&& query.params@.len() == habit_ids@.len() + 2
            &&& occurrences(query.sql@, '?') == query.params@.len()
            &&& forall|i: int|
                0 <= i < habit_ids@.len() ==> #[trigger] query.params@[i]@ == uuid_text(
                    habit_ids@[i],
                )
            &&& query.params@[habit_ids@.len() as int]@ == date_text(start@)
            &&& query.params@[habit_ids@.len() + 1int]@ == date_text(end@)
            &&& {
                let head = "SELECT id, habit_id, date, status, note\n"@
                    + "             FROM habit_entries\n"@ + "             WHERE habit_id IN ("@;
                let tail = ")\n               AND date >= ?\n               AND date <= ?"@;
                let list = query.sql@.subrange(
                    head.len() as int,
                    query.sql@.len() - tail.len(),
                );
                &&& query.sql@ == head + list + tail
                &&& placeholder_syntax(list)
                &&& occurrences(list, '?') == habit_ids@.len()
            }
        },
{
    let n: usize = habit_ids.len();
    if n == 0 {
        return None;
    }
    let mut list = String::new();
    let mut params: Vec<String> = Vec::new();
    let mut i: usize = 0;
    while i < n
        invariant
            n == habit_ids@.len(),
            i <= n,
            list@ == placeholder_list(i as nat),
            params@.len() == i,
            forall|j: int| 0 <= j < i ==> #[trigger] params@[j]@ == uuid_text(habit_ids@[j]),
        decreases n - i,
    {
        if i > 0 {
            list.append(", ");
        }
        list.append("?");
        append_decimal(&mut list, i + 1);
        proof {
            assert(list@ =~= placeholder_list((i + 1) as nat));
        }
        params.push(id_to_text(habit_ids[i]));
        i = i + 1;
    }
    let mut sql = "SELECT id, habit_id, date, status, note\n".to_owned();
    sql.append("             FROM habit_entries\n");
    sql.append("             WHERE habit_id IN (");
    sql.append(list.as_str());
    sql.append(")\n               AND date >= ?\n               AND date <= ?");
    params.push(date_to_text(start));
    params.push(date_to_text(end));
    proof {
        lemma_entries_sql_placeholders(n as nat);
        lemma_placeholder_list_syntax(n as nat);
        lemma_placeholder_count(n as nat);
        let head = "SELECT id, habit_id, date, status, note\n"@
            + "             FROM habit_entries\n"@ + "             WHERE habit_id IN ("@;
        let tail = ")\n               AND date >= ?\n               AND date <= ?"@;
        assert(sql@ == head + list@ + tail);
        assert(sql@.subrange(head.len() as int, sql@.len() - tail.len()) =~= list@);
    }
    Some(EntriesQuery { sql, params })
}

/// What recording a status for a habit on a day does to the store.
pub enum UpsertPlan {
    /// Overwrite the status and note of the stored entry `id`.
    Update { id: String, status: String, note: Option<String> },
    /// Store a new entry.
    Insert(EntryRow),
}

/// Records `status` (and `note`) for a habit on a day, given the identifier of the entry already
/// stored for that habit and day, if any: that entry is updated, or else a new entry with a fresh
/// identifier and no note is inserted. A stored identifier that does not read is an error.
pub fn upsert_plan(
    existing_id: Option<String>,
    habit_id: u128,
    date: Date,
    status: HabitStatus,
    note: Option<String>,
) -> (r: Result<UpsertPlan, RowError>)
    ensures
        match existing_id {
            Some(found) => match uuid_parse(found@) {
                None => r == Err::<UpsertPlan, RowError>(RowError::InvalidId { column: 0 }),
                Some(id) => {
                    &&& r matches Ok(UpsertPlan::Update { id: stored, status: text, note: kept })
                    &&& stored@ == uuid_text(id)
                    &&& text@ == status_text(status)
                    &&& kept == note
                },
            },
            None => {
                &&& r matches Ok(UpsertPlan::Insert(row))
                &&& row.habit_id@ == uuid_text(habit_id)
                &&& row.date@ == date_text(date@)
                &&& row.status@ == status_text(status)
                &&& row.note is None
                &&& exists|entry_id: u128| #![trigger uuid_text(entry_id)]
                    is_random_id(entry_id) && row.id@ == uuid_text(entry_id)
            },
        },
{
    match existing_id {
        Some(found) => match id_from_text(found.as_str()) {
            Some(id) => Ok(
                UpsertPlan::Update { id: id_to_text(id), status: status.as_str().to_owned(), note },
            ),
            None => Err(RowError::InvalidId { column: 0 }),
        },
        None => {
            let entry = HabitEntry::new(habit_id, date, status);
            Ok(UpsertPlan::Insert(entry_to_row(&entry)))
        },
    }
}

} // verus!
