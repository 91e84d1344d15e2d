//! The application state and the calendar graph in the style of a contribution graph:
//! one column per week, one row per weekday (Monday to Sunday), one cell per day.
use crate::date::{
    add_days, current_date, date_to_month_day, month_day_text, in_range, monday_on_or_before, weekday_from_monday, weekday_index, Date,
    MAX_DAY, MIN_DAY,
};
use crate::id::is_random_id;
use crate::model::{Habit, HabitEntry, HabitStatus};
use std::collections::HashMap;
use vstd::prelude::*;

verus! {

/// One day of the graph: the entries recorded on it, summarised.
/// The intensity of the cell is `done_count / max(entry_count, 1)`.
pub struct DayCell {
    pub date: Date,
    pub status: Option<HabitStatus>,
    pub done_count: usize,
    pub entry_count: usize,
    pub has_note: bool,
}

/// One week of the graph: seven cells, Monday to Sunday.
pub struct WeekColumn {
    pub start_date: Date,
    pub days: Vec<DayCell>,
}

impl WeekColumn {
    /// The label of the week: the month and day of its Monday, such as `Jan 06`.
    pub fn start_label(&self) -> (r: String)
        ensures
            r@ == month_day_text(self.start_date@),
    {
        date_to_month_day(self.start_date)
    }
}

/// Entries recorded on day `day`.
pub open spec fn on_day(day: int) -> spec_fn(HabitEntry) -> bool {
    |e: HabitEntry| e.date@ == day
}

/// Entries recorded as done on day `day`.
pub open spec fn done_on_day(day: int) -> spec_fn(HabitEntry) -> bool {
    |e: HabitEntry| e.date@ == day && e.status == HabitStatus::Done
}

/// Whether an entry carries a note that is not empty.
pub open spec fn has_text_note(e: HabitEntry) -> bool {
    e.note matches Some(n) && n@.len() > 0
}

/// Entries with a non-empty note on day `day`.
pub open spec fn noted_on_day(day: int) -> spec_fn(HabitEntry) -> bool {
    |e: HabitEntry| e.date@ == day && has_text_note(e)
}

/// The status shown for a day: done if any entry of the day is done, else the status of the
/// day's first entry, and none on a day without entries.
pub open spec fn cell_status(entries: Seq<HabitEntry>, day: int) -> Option<HabitStatus> {
    let day_entries = entries.filter(on_day(day));
    if entries.filter(done_on_day(day)).len() > 0 {
        Some(HabitStatus::Done)
    } else if day_entries.len() > 0 {
        Some(day_entries[0].status)
    } else {
        None
    }
}

/// `c` is the cell of day `day` for the given entries.
pub open spec fn is_cell_of(c: DayCell, entries: Seq<HabitEntry>, day: int) -> bool {
    &&& c.date@ == day
    &&& c.entry_count == entries.filter(on_day(day)).len()
    &&& c.done_count == entries.filter(done_on_day(day)).len()
    &&& c.has_note == (entries.filter(noted_on_day(day)).len() > 0)
    &&& c.status == cell_status(entries, day)
}

/// `w` is the week that begins on day `first`: seven cells for `first` to `first + 6`.
pub open spec fn is_week_of(w: WeekColumn, first: int, entries: Seq<HabitEntry>) -> bool {
    &&& w.start_date@ == first
    &&& w.days@.len() == 7
    &&& forall|j: int| 0 <= j < 7 ==> is_cell_of(#[trigger] w.days@[j], entries, first + j)
}

/// The number of weeks shown for the days `start` to `end`: from the Monday on or before
/// `start`, every week that begins on or before `end`.
pub open spec fn week_count(start: int, end: int) -> int {
    let first: int = monday_on_or_before(start);
    if first > end {
        0
    } else {
        (end - first) / 7 + 1
    }
}

/// `weeks` is the graph of the days `start` to `end` for the given entries.
pub open spec fn is_graph_of(
    weeks: Seq<WeekColumn>,
    start: int,
    end: int,
    entries: Seq<HabitEntry>,
) -> bool {
    &&& weeks.len() == week_count(start, end)
    &&& forall|k: int|
        0 <= k < weeks.len() ==> is_week_of(
            #[trigger] weeks[k],
            monday_on_or_before(start) + 7 * k,
            entries,
        )
}

/// Filtering one more element of a sequence either keeps the filtered prefix or appends it.
proof fn lemma_filter_step<A>(s: Seq<A>, i: int, p: spec_fn(A) -> bool)
    requires
        0 <= i < s.len(),
    ensures
        s.take(i + 1).filter(p) == (if p(s[i]) {
            s.take(i).filter(p).push(s[i])
        } else {
            s.take(i).filter(p)
        }),
{
    reveal_with_fuel(Seq::filter, 1);
    assert(s.take(i + 1).drop_last() =~= s.take(i));
}

/// Filtering keeps nothing of a sequence none of whose elements passes.
proof fn lemma_filter_none<A>(s: Seq<A>, p: spec_fn(A) -> bool)
    requires
        forall|j: int| 0 <= j < s.len() ==> !p(#[trigger] s[j]),
    ensures
        s.filter(p).len() == 0,
    decreases s.len(),
{
    reveal_with_fuel(Seq::filter, 1);
    if s.len() > 0 {
        let t = s.drop_last();
        assert forall|j: int| 0 <= j < t.len() implies !p(#[trigger] t[j]) by {
            assert(t[j] == s[j]);
        }
        lemma_filter_none(t, p);
    }
}

/// Filtering keeps something of a sequence one of whose elements passes.
proof fn lemma_filter_some<A>(s: Seq<A>, p: spec_fn(A) -> bool, i: int)
    requires
        0 <= i < s.len(),
        p(s[i]),
    ensures
        s.filter(p).len() > 0,
    decreases s.len(),
{
    reveal_with_fuel(Seq::filter, 1);
    let t = s.drop_last();
    if i < s.len() - 1 {
        assert(t[i] == s[i]);
        lemma_filter_some(t, p, i);
    }
}

/// The first element that passes a filter comes first in what the filter keeps.
proof fn lemma_filter_first<A>(s: Seq<A>, p: spec_fn(A) -> bool, i: int)
    requires
        0 <= i < s.len(),
        p(s[i]),
        forall|j: int| 0 <= j < i ==> !p(#[trigger] s[j]),
    ensures
        s.filter(p).len() > 0,
        s.filter(p)[0] == s[i],
    decreases s.len(),
{
    reveal_with_fuel(Seq::filter, 1);
    let t = s.drop_last();
    if i < s.len() - 1 {
        assert(t[i] == s[i]);
        assert forall|j: int| 0 <= j < i implies !p(#[trigger] t[j]) by {
            assert(t[j] == s[j]);
        }
        lemma_filter_first(t, p, i);
    } else {
        assert forall|j: int| 0 <= j < t.len() implies !p(#[trigger] t[j]) by {
            assert(t[j] == s[j]);
        }
        lemma_filter_none(t, p);
    }
}

/// The cell of a day reads the entries of that day alone: it is done where some entry of the
/// day is done; otherwise it shows the status of the day's first entry; and a day without
/// entries shows no status, counts nothing and has no note.
pub proof fn lemma_cell_status(c: DayCell, entries: Seq<HabitEntry>, day: int)
    requires
        is_cell_of(c, entries, day),
    ensures
        forall|i: int|
            0 <= i < entries.len() && (#[trigger] entries[i]).date@ == day && entries[i].status
                == HabitStatus::Done ==> c.status == Some(HabitStatus::Done),
        forall|i: int|
            0 <= i < entries.len() && (#[trigger] entries[i]).date@ == day && (forall|j: int|
                0 <= j < i ==> (#[trigger] entries[j]).date@ != day) && (forall|j: int|
                0 <= j < entries.len() && (#[trigger] entries[j]).date@ == day
                    ==> entries[j].status != HabitStatus::Done) ==> c.status == Some(
                entries[i].status,
            ),
        (forall|i: int| 0 <= i < entries.len() ==> (#[trigger] entries[i]).date@ != day) ==> {
            &&& c.status is None
            &&& c.entry_count == 0
            &&& c.done_count == 0
            &&& !c.has_note
        },
{
    assert forall|i: int|
        0 <= i < entries.len() && (#[trigger] entries[i]).date@ == day && entries[i].status
            == HabitStatus::Done implies c.status == Some(HabitStatus::Done) by {
        lemma_filter_some(entries, done_on_day(day), i);
    }
    assert forall|i: int|
        0 <= i < entries.len() && (#[trigger] entries[i]).date@ == day && (forall|j: int|
            0 <= j < i ==> (#[trigger] entries[j]).date@ != day) && (forall|j: int|
            0 <= j < entries.len() && (#[trigger] entries[j]).date@ == day ==> entries[j].status
                != HabitStatus::Done) implies c.status == Some(entries[i].status) by {
        assert forall|j: int| 0 <= j < i implies !on_day(day)(#[trigger] entries[j]) by {}
        lemma_filter_first(entries, on_day(day), i);
        assert forall|j: int| 0 <= j < entries.len() implies !done_on_day(day)(
            #[trigger] entries[j],
        ) by {}
        lemma_filter_none(entries, done_on_day(day));
    }
    if forall|i: int| 0 <= i < entries.len() ==> (#[trigger] entries[i]).date@ != day {
        assert forall|j: int| 0 <= j < entries.len() implies !on_day(day)(#[trigger] entries[j]) by {}
        assert forall|j: int| 0 <= j < entries.len() implies !done_on_day(day)(
            #[trigger] entries[j],
        ) by {}
        assert forall|j: int| 0 <= j < entries.len() implies !noted_on_day(day)(
            #[trigger] entries[j],
        ) by {}
        lemma_filter_none(entries, on_day(day));
        lemma_filter_none(entries, done_on_day(day));
        lemma_filter_none(entries, noted_on_day(day));
    }
}

/// What the entries of one day add up to: how many there are, how many are done, whether one
/// has a note, and the status of the first.
#[derive(Clone, Copy)]
struct DayTally {
    total: usize,
    done: usize,
    noted: bool,
    first: HabitStatus,
}

/// `t` sums up the entries of `es` on day `day`, of which there is at least one.
spec fn tally_of(t: DayTally, es: Seq<HabitEntry>, day: int) -> bool {
    &&& es.filter(on_day(day)).len() > 0
    &&& t.total == es.filter(on_day(day)).len()
    &&& t.done == es.filter(done_on_day(day)).len()
    &&& t.noted == (es.filter(noted_on_day(day)).len() > 0)
    &&& t.first == es.filter(on_day(day))[0].status
}

/// `es` has no entry on day `day`.
spec fn no_entries_on(es: Seq<HabitEntry>, day: int) -> bool {
    &&& es.filter(on_day(day)).len() == 0
    &&& es.filter(done_on_day(day)).len() == 0
    &&& es.filter(noted_on_day(day)).len() == 0
}

/// `m` indexes the entries `es` by day number: each day with entries maps to their tally, and
/// no other day is in the map.
spec fn indexes(m: Map<i32, DayTally>, es: Seq<HabitEntry>) -> bool {
    forall|k: i32|
        #![trigger m.contains_key(k)]
        if m.contains_key(k) {
            tally_of(m[k], es, k as int)
        } else {
            no_entries_on(es, k as int)
        }
}

/// The entries indexed by their day number.
fn index_by_day(entries: &Vec<HabitEntry>) -> (m: HashMap<i32, DayTally>)
    ensures
        indexes(m@, entries@),
{
    broadcast use vstd::std_specs::hash::group_hash_axioms;

    let mut m: HashMap<i32, DayTally> = HashMap::new();
    let n: usize = entries.len();
    let mut i: usize = 0;
    proof {
        reveal_with_fuel(Seq::filter, 1);
        assert forall|k: i32| #![trigger m@.contains_key(k)] !m@.contains_key(k) implies no_entries_on(
            entries@.take(0),
            k as int,
        ) by {
            assert(entries@.take(0).filter(on_day(k as int)) =~= Seq::<HabitEntry>::empty());
            assert(entries@.take(0).filter(done_on_day(k as int)) =~= Seq::<HabitEntry>::empty());
            assert(entries@.take(0).filter(noted_on_day(k as int)) =~= Seq::<HabitEntry>::empty());
        }
    }
    while i < n
        invariant
            n == entries@.len(),
            i <= n,
            indexes(m@, entries@.take(i as int)),
        decreases n - i,
    {
        let e = &entries[i];
        let key: i32 = e.date.days();
        let is_done = e.status == HabitStatus::Done;
        let noted = match &e.note {
            Some(text) => !text.as_str().is_empty(),
            None => false,
        };
        let ghost before = m@;
        proof {
            entries@.take(i as int).lemma_filter_len(on_day(key as int));
            entries@.take(i as int).lemma_filter_len(done_on_day(key as int));
            if before.contains_key(key) {
            }
        }
        let tally = match m.get(&key) {
            Some(t) => DayTally {
                total: t.total + 1,
                done: if is_done {
                    t.done + 1
                } else {
                    t.done
                },
                noted: t.noted || noted,
                first: t.first,
            },
            None => DayTally {
                total: 1,
                done: if is_done {
                    1
                } else {
                    0
                },
                noted,
                first: e.status,
            },
        };
        m.insert(key, tally);
        proof {
            assert forall|k: i32| #![trigger m@.contains_key(k)] (if m@.contains_key(k) {
                tally_of(m@[k], entries@.take(i + 1), k as int)
            } else {
                no_entries_on(entries@.take(i + 1), k as int)
            }) by {
                lemma_filter_step(entries@, i as int, on_day(k as int));
                lemma_filter_step(entries@, i as int, done_on_day(k as int));
                lemma_filter_step(entries@, i as int, noted_on_day(k as int));
                if before.contains_key(k) {
                }
            }
        }
        i = i + 1;
    }
    proof {
        assert(entries@.take(n as int) =~= entries@);
    }
    m
}

/// The cell of one day, from the entries indexed by day.
fn cell_from_index(
    index: &HashMap<i32, DayTally>,
    Ghost(entries): Ghost<Seq<HabitEntry>>,
    date: Date,
) -> (c: DayCell)
    requires
        indexes(index@, entries),
    ensures
        is_cell_of(c, entries, date@),
        forall|i: int|
            0 <= i < entries.len() && (#[trigger] entries[i]).date@ == date@ && entries[i].status
                == HabitStatus::Done ==> c.status == Some(HabitStatus::Done),
        forall|i: int|
            0 <= i < entries.len() && (#[trigger] entries[i]).date@ == date@ && (forall|j: int|
                0 <= j < i ==> (#[trigger] entries[j]).date@ != date@) && (forall|j: int|
                0 <= j < entries.len() && (#[trigger] entries[j]).date@ == date@
                    ==> entries[j].status != HabitStatus::Done) ==> c.status == Some(
                entries[i].status,
            ),
{
    broadcast use vstd::std_specs::hash::group_hash_axioms;

    let key: i32 = date.days();
    proof {
        if index@.contains_key(key) {
        }
    }
    let c = match index.get(&key) {
        Some(t) => DayCell {
            date,
            status: if t.done > 0 {
                Some(HabitStatus::Done)
            } else {
                Some(t.first)
            },
            done_count: t.done,
            entry_count: t.total,
            has_note: t.noted,
        },
        None => DayCell { date, status: None, done_count: 0, entry_count: 0, has_note: false },
    };
    proof {
        lemma_cell_status(c, entries, date@);
    }
    c
}

/// A Monday on or before day `e` lies on or before the Monday of `e`'s week.
proof fn lemma_monday_before(c: int, e: int)
    requires
        (c - 1) % 7 == 0,
        c <= e,
    ensures
        c <= monday_on_or_before(e),
{
    assert(c <= e - (e - 1) % 7) by (nonlinear_arith)
        requires
            (c - 1) % 7 == 0,
            c <= e,
    ;
}

/// The weeks of the graph for the days `start` to `end`, beginning on the Monday on or before
/// `start`, each with the cells of its seven days. The days are indexed by date first.
pub fn build_weeks(start: Date, end: Date, entries: &Vec<HabitEntry>) -> (weeks: Vec<WeekColumn>)
    requires
        MIN_DAY <= monday_on_or_before(start@),
        monday_on_or_before(start@) <= end@ ==> monday_on_or_before(end@) + 7 <= MAX_DAY,
    ensures
        is_graph_of(weeks@, start@, end@, entries@),
{
    let index = index_by_day(entries);
    let ghost first_day = monday_on_or_before(start@);
    // `days` tells that `start` lies within the calendar.
    let _ = start.days();
    let wd: u32 = weekday_from_monday(start);
    let first = add_days(start, -(wd as i64));
    let mut cursor = first;
    let mut weeks: Vec<WeekColumn> = Vec::new();
    proof {
        assert((first_day - 1) % 7 == 0);
    }
    while cursor.days() <= end.days()
        invariant
            indexes(index@, entries@),
            first@ == first_day,
            first_day == monday_on_or_before(start@),
            MIN_DAY <= first_day,
            first_day <= end@ ==> monday_on_or_before(end@) + 7 <= MAX_DAY,
            cursor@ == first_day + 7 * weeks@.len(),
            (cursor@ - 1) % 7 == 0,
            weeks@.len() > 0 ==> cursor@ <= monday_on_or_before(end@) + 7,
            weeks@.len() > 0 ==> first_day + 7 * (weeks@.len() - 1) <= end@,
            forall|k: int|
                0 <= k < weeks@.len() ==> is_week_of(#[trigger] weeks@[k], first_day + 7 * k, entries@),
        decreases end@ + 7 - cursor@,
    {
        let week_start = cursor;
        proof {
            lemma_monday_before(cursor@, end@);
        }
        let mut days: Vec<DayCell> = Vec::new();
        let mut offset: i64 = 0;
        while offset < 7
            invariant
                0 <= offset <= 7,
                indexes(index@, entries@),
                MIN_DAY <= week_start@,
                week_start@ + 7 <= MAX_DAY,
                days@.len() == offset,
                forall|j: int|
                    0 <= j < offset ==> is_cell_of(#[trigger] days@[j], entries@, week_start@ + j),
            decreases 7 - offset,
        {
            let date = add_days(week_start, offset);
            days.push(cell_from_index(&index, Ghost(entries@), date));
            offset = offset + 1;
        }
        let ghost before = weeks@;
        weeks.push(WeekColumn { start_date: week_start, days });
        proof {
            assert forall|k: int| 0 <= k < weeks@.len() implies is_week_of(
                #[trigger] weeks@[k],
                first_day + 7 * k,
                entries@,
            ) by {
                if k < before.len() {
                    assert(weeks@[k] == before[k]);
                }
            }
        }
        cursor = add_days(week_start, 7);
    }
    weeks
}

/// Each cell of the graph reads the entries of its own day alone: it is done where some entry
/// of its day is done; otherwise it shows the status of the first entry of its day; and a day
/// without entries shows no status, counts nothing and has no note.
pub proof fn lemma_graph_cell(
    weeks: Seq<WeekColumn>,
    start: int,
    end: int,
    entries: Seq<HabitEntry>,
    k: int,
    j: int,
)
    requires
        is_graph_of(weeks, start, end, entries),
        0 <= k < weeks.len(),
        0 <= j < 7,
    ensures
        forall|i: int|
            0 <= i < entries.len() && (#[trigger] entries[i]).date@ == weeks[k].days@[j].date@
                && entries[i].status == HabitStatus::Done ==> weeks[k].days@[j].status == Some(
                HabitStatus::Done,
            ),
        forall|i: int|
            0 <= i < entries.len() && (#[trigger] entries[i]).date@ == weeks[k].days@[j].date@
                && (forall|m: int|
                0 <= m < i ==> (#[trigger] entries[m]).date@ != weeks[k].days@[j].date@) && (
            forall|m: int|
                0 <= m < entries.len() && (#[trigger] entries[m]).date@
                    == weeks[k].days@[j].date@ ==> entries[m].status != HabitStatus::Done)
                ==> weeks[k].days@[j].status == Some(entries[i].status),
        (forall|m: int|
            0 <= m < entries.len() ==> (#[trigger] entries[m]).date@ != weeks[k].days@[j].date@)
            ==> {
            &&& weeks[k].days@[j].status is None
            &&& weeks[k].days@[j].entry_count == 0
            &&& weeks[k].days@[j].done_count == 0
            &&& !weeks[k].days@[j].has_note
        },
{
    assert(is_week_of(weeks[k], monday_on_or_before(start) + 7 * k, entries));
    lemma_cell_status(weeks[k].days@[j], entries, weeks[k].days@[j].date@);
}

/// Some cell of the graph falls on day `d`.
pub open spec fn graph_shows_day(weeks: Seq<WeekColumn>, d: int) -> bool {
    exists|k: int, j: int|
        0 <= k < weeks.len() && 0 <= j < 7 && #[trigger] weeks[k].days@[j].date@ == d
}

/// The layout of the graph: every column begins on a Monday and follows the previous one by a
/// week; the cell in row `j` of any column falls on weekday `j` (Monday is row 0, Sunday row 6);
/// every day from `start` to `end` has a cell; and no cell lies before the Monday on or before
/// `start` or more than six days after `end`.
pub proof fn lemma_graph_layout(
    weeks: Seq<WeekColumn>,
    start: int,
    end: int,
    entries: Seq<HabitEntry>,
)
    requires
        is_graph_of(weeks, start, end, entries),
    ensures
        forall|k: int|
            0 <= k < weeks.len() ==> weekday_index(#[trigger] weeks[k].start_date@) == 0,
        forall|k: int|
            0 < k < weeks.len() ==> #[trigger] weeks[k].start_date@ == weeks[k - 1].start_date@ + 7,
        forall|k: int, j: int|
            0 <= k < weeks.len() && 0 <= j < 7 ==> weekday_index(
                #[trigger] weeks[k].days@[j].date@,
            ) == j,
        forall|k: int, j: int|
            0 <= k < weeks.len() && 0 <= j < 7 ==> monday_on_or_before(start)
                <= #[trigger] weeks[k].days@[j].date@ <= end + 6,
        forall|d: int| start <= d <= end ==> #[trigger] graph_shows_day(weeks, d),
{
    let m: int = monday_on_or_before(start);
    assert((m - 1) % 7 == 0);
    assert forall|k: int, j: int| 0 <= k < weeks.len() && 0 <= j < 7 implies weekday_index(
        #[trigger] weeks[k].days@[j].date@,
    ) == j && m <= weeks[k].days@[j].date@ <= end + 6 by {
        assert(is_week_of(weeks[k], m + 7 * k, entries));
        assert(is_cell_of(weeks[k].days@[j], entries, m + 7 * k + j));
        lemma_weekday_of_week_day(m, k, j);
    }
    assert forall|k: int| 0 <= k < weeks.len() implies weekday_index(
        #[trigger] weeks[k].start_date@,
    ) == 0 by {
        assert(is_week_of(weeks[k], m + 7 * k, entries));
        lemma_weekday_of_week_day(m, k, 0);
    }
    assert forall|k: int| 0 < k < weeks.len() implies #[trigger] weeks[k].start_date@
        == weeks[k - 1].start_date@ + 7 by {
        assert(is_week_of(weeks[k], m + 7 * k, entries));
        assert(is_week_of(weeks[k - 1], m + 7 * (k - 1), entries));
    }
    assert forall|d: int| start <= d <= end implies #[trigger] graph_shows_day(weeks, d) by {
        let k: int = (d - m) / 7;
        let j: int = (d - m) % 7;
        assert(0 <= k < weeks.len());
        assert(is_week_of(weeks[k], m + 7 * k, entries));
        assert(is_cell_of(weeks[k].days@[j], entries, m + 7 * k + j));
        assert(weeks[k].days@[j].date@ == d);
    }
}

/// Day `j` of the `k`-th week after a Monday `m` falls on weekday `j`.
proof fn lemma_weekday_of_week_day(m: int, k: int, j: int)
    requires
        (m - 1) % 7 == 0,
        0 <= j < 7,
    ensures
        weekday_index(m + 7 * k + j) == j,
{
    assert((m + 7 * k + j - 1) % 7 == j) by (nonlinear_arith)
        requires
            (m - 1) % 7 == 0,
            0 <= j < 7,
    ;
}

/// The number of weeks that the graph shows.
pub const GRAPH_WEEKS: i64 = 12i64;

/// The name of the habit created when there is none.
pub open spec fn default_habit_name() -> Seq<char> {
    "Daily Check-in"@
}

/// The state behind the application's screen: the habits, the entries of the current habit
/// over the period shown, the graph of that period, and today's date.
pub struct AppState {
    pub habits: Vec<Habit>,
    pub entries: Vec<HabitEntry>,
    pub graph_weeks: Vec<WeekColumn>,
    pub selected_date: Option<Date>,
    pub current_habit_id: Option<u128>,
    pub today: Date,
}

/// The entries a refresh needs: those of one habit from `start` to `end`.
pub struct EntryQuery {
    pub habit_id: u128,
    pub start: Date,
    pub end: Date,
}

/// The status to record for a habit on a day.
pub struct TodayToggle {
    pub habit_id: u128,
    pub date: Date,
    pub status: HabitStatus,
}

/// Entries of habit `habit_id` on day `day`.
pub open spec fn of_habit_on(habit_id: u128, day: int) -> spec_fn(HabitEntry) -> bool {
    |e: HabitEntry| e.habit_id == habit_id && e.date@ == day
}

/// The status recorded for a habit on a day: that of its first entry there, if any.
pub open spec fn recorded_status(entries: Seq<HabitEntry>, habit_id: u128, day: int) -> Option<
    HabitStatus,
> {
    let found = entries.filter(of_habit_on(habit_id, day));
    if found.len() > 0 {
        Some(found[0].status)
    } else {
        None
    }
}

/// The status recorded for a habit on a day comes from the entries of that habit dated that
/// very day: none where there is no such entry, else that of the first of them. Entries of
/// other habits or other days play no part.
pub proof fn lemma_recorded_status(entries: Seq<HabitEntry>, habit_id: u128, day: int)
    ensures
        (forall|i: int|
            0 <= i < entries.len() ==> !((#[trigger] entries[i]).habit_id == habit_id
                && entries[i].date@ == day)) ==> recorded_status(entries, habit_id, day) is None,
        forall|i: int|
            0 <= i < entries.len() && (#[trigger] entries[i]).habit_id == habit_id
                && entries[i].date@ == day && (forall|j: int|
                0 <= j < i ==> !((#[trigger] entries[j]).habit_id == habit_id && entries[j].date@
                    == day)) ==> recorded_status(entries, habit_id, day) == Some(entries[i].status),
{
    let p = of_habit_on(habit_id, day);
    if forall|i: int|
        0 <= i < entries.len() ==> !((#[trigger] entries[i]).habit_id == habit_id
            && entries[i].date@ == day) {
        assert forall|j: int| 0 <= j < entries.len() implies !p(#[trigger] entries[j]) by {}
        lemma_filter_none(entries, p);
    }
    assert forall|i: int|
        0 <= i < entries.len() && (#[trigger] entries[i]).habit_id == habit_id
            && entries[i].date@ == day && (forall|j: int|
            0 <= j < i ==> !((#[trigger] entries[j]).habit_id == habit_id && entries[j].date@
                == day)) implies recorded_status(entries, habit_id, day) == Some(
        entries[i].status,
    ) by {
        assert forall|j: int| 0 <= j < i implies !p(#[trigger] entries[j]) by {}
        lemma_filter_first(entries, p, i);
    }
}

/// Toggling completion: a day recorded as done becomes missed, any other day becomes done.
pub open spec fn toggled_status(recorded: Option<HabitStatus>) -> HabitStatus {
    if recorded == Some(HabitStatus::Done) {
        HabitStatus::Missed
    } else {
        HabitStatus::Done
    }
}

/// Some habit of the list has identifier `id`.
pub open spec fn lists_habit(habits: Seq<Habit>, id: u128) -> bool {
    exists|i: int| 0 <= i < habits.len() && #[trigger] habits[i].id == id
}

/// The first date of the `weeks` weeks that end on day `end`.
pub open spec fn period_start(end: int, weeks: int) -> int {
    end - 7 * weeks + 1
}

impl AppState {
    /// An empty state, dated today (the date read from the clock, in UTC).
    pub fn new() -> (s: AppState)
        ensures
            s.habits@.len() == 0,
            s.entries@.len() == 0,
            s.graph_weeks@.len() == 0,
            s.selected_date is None,
            s.current_habit_id is None,
    {
        AppState::new_on(current_date())
    }

    /// An empty state, dated `today`.
    pub fn new_on(today: Date) -> (s: AppState)
        ensures
            s.habits@.len() == 0,
            s.entries@.len() == 0,
            s.graph_weeks@.len() == 0,
            s.selected_date is None,
            s.current_habit_id is None,
            s.today == today,
    {
        AppState {
            habits: Vec::new(),
            entries: Vec::new(),
            graph_weeks: Vec::new(),
            selected_date: None,
            current_habit_id: None,
            today,
        }
    }

    /// Takes the habits listed by the store. Where there are none, a default habit is created
    /// (and `true` returned, so that it is stored too). The first habit becomes current.
    pub fn initial_load(&mut self, listed: Vec<Habit>) -> (created: bool)
        ensures
            created == (listed@.len() == 0),
            !created ==> final(self).habits@ == listed@,
            created ==> {
                &&& final(self).habits@.len() == 1
                &&& final(self).habits@[0].name@ == default_habit_name()
                &&& final(self).habits@[0].color is None
                &&& !final(self).habits@[0].archived
                &&& is_random_id(final(self).habits@[0].id)
            },
            final(self).current_habit_id == Some(final(self).habits@[0].id),
            final(self).entries == old(self).entries,
            final(self).graph_weeks == old(self).graph_weeks,
            final(self).selected_date == old(self).selected_date,
            final(self).today == old(self).today,
    {
        self.habits = listed;
        let created = self.habits.len() == 0;
        if created {
            let default = Habit::new("Daily Check-in", None);
            self.habits.push(default);
        }
        self.current_habit_id = Some(self.habits[0].id);
        created
    }

    /// The last day the graph shows by default: today, read from the clock.
    pub fn default_range_end(&self) -> (r: Date) {
        current_date()
    }

    /// The first and last day of the `weeks` weeks that end on `at`.
    pub fn range_for_weeks_ending(at: Date, weeks: i64) -> (r: (Date, Date))
        requires
            in_range(period_start(at@, weeks as int)),
        ensures
            r.0@ == period_start(at@, weeks as int),
            r.1 == at,
            r.0@ == at@ - 7 * weeks + 1,
            r.1@ - r.0@ + 1 == 7 * weeks,
    {
        // `days` tells that `at` lies within the calendar.
        let _ = at.days();
        let back: i64 = 7 * weeks - 1;
        let start = add_days(at, -back);
        (start, at)
    }

    /// Begins a refresh of the graph for the `weeks` weeks ending on `end`. Without a current
    /// habit the entries and the graph are cleared and there is nothing to load; otherwise the
    /// query for the entries to load is returned, and the state is left as it is.
    pub fn refresh_for_current_habit(&mut self, end: Date, weeks: i64) -> (q: Option<EntryQuery>)
        requires
            old(self).current_habit_id is Some ==> {
                let start = period_start(end@, weeks as int);
                &&& in_range(start)
                &&& MIN_DAY <= monday_on_or_before(start)
                &&& monday_on_or_before(start) <= end@ ==> monday_on_or_before(end@) + 7 <= MAX_DAY
            },
        ensures
            match old(self).current_habit_id {
                None => {
                    &&& q is None
                    &&& final(self).entries@.len() == 0
                    &&& final(self).graph_weeks@.len() == 0
                    &&& final(self).habits == old(self).habits
                    &&& final(self).current_habit_id == old(self).current_habit_id
                    &&& final(self).selected_date == old(self).selected_date
                    &&& final(self).today == old(self).today
                },
                Some(id) => {
                    &&& q matches Some(query)
                    &&& query.habit_id == id
                    &&& query.start@ == period_start(end@, weeks as int)
                    &&& query.end == end
                    &&& query.start@ == end@ - 7 * weeks + 1
                    &&& query.end@ - query.start@ + 1 == 7 * weeks
                    &&& *final(self) == *old(self)
                },
            },
    {
        match self.current_habit_id {
            None => {
                self.entries.clear();
                self.graph_weeks.clear();
                None
            },
            Some(habit_id) => {
                let (start, end) = Self::range_for_weeks_ending(end, weeks);
                Some(EntryQuery { habit_id, start, end })
            },
        }
    }

    /// Completes a refresh with the entries loaded for `query`: they become the entries shown,
    /// and the graph is rebuilt from them.
    pub fn entries_loaded(&mut self, query: &EntryQuery, entries: Vec<HabitEntry>)
        requires
            MIN_DAY <= monday_on_or_before(query.start@),
            monday_on_or_before(query.start@) <= query.end@ ==> monday_on_or_before(query.end@) + 7
                <= MAX_DAY,
        ensures
            final(self).entries@ == entries@,
            is_graph_of(final(self).graph_weeks@, query.start@, query.end@, entries@),
            final(self).habits == old(self).habits,
            final(self).current_habit_id == old(self).current_habit_id,
            final(self).selected_date == old(self).selected_date,
            final(self).today == old(self).today,
    {
        self.graph_weeks = build_weeks(query.start, query.end, &entries);
        self.entries = entries;
    }

    /// Makes `habit_id` the current habit if it is one of the habits; returns whether it is
    /// (the graph then needs a refresh). An unknown identifier changes nothing.
    pub fn set_current_habit(&mut self, habit_id: u128) -> (found: bool)
        ensures
            found == lists_habit(old(self).habits@, habit_id),
            found ==> final(self).current_habit_id == Some(habit_id),
            found ==> final(self).habits == old(self).habits,
            found ==> final(self).entries == old(self).entries,
            found ==> final(self).graph_weeks == old(self).graph_weeks,
            found ==> final(self).selected_date == old(self).selected_date,
            found ==> final(self).today == old(self).today,
            !found ==> *final(self) == *old(self),
    {
        let n: usize = self.habits.len();
        let mut i: usize = 0;
        while i < n
            invariant
                n == self.habits@.len(),
                i <= n,
                *self == *old(self),
                forall|k: int| 0 <= k < i ==> #[trigger] self.habits@[k].id != habit_id,
            decreases n - i,
        {
            if self.habits[i].id == habit_id {
                assert(self.habits@[i as int].id == habit_id);
                self.current_habit_id = Some(habit_id);
                return true;
            }
            i = i + 1;
        }
        false
    }

    /// What toggling today's completion of a habit records: `Missed` where today's first entry
    /// of the habit is done, `Done` otherwise, dated today.
    pub fn toggle_today_for_habit(&self, habit_id: u128) -> (t: TodayToggle)
        ensures
            t.habit_id == habit_id,
            t.date == self.today,
            t.status == toggled_status(recorded_status(self.entries@, habit_id, self.today@)),
            (forall|i: int|
                0 <= i < self.entries@.len() ==> !((#[trigger] self.entries@[i]).habit_id
                    == habit_id && self.entries@[i].date@ == self.today@)) ==> t.status
                == HabitStatus::Done,
            forall|i: int|
                0 <= i < self.entries@.len() && (#[trigger] self.entries@[i]).habit_id == habit_id
                    && self.entries@[i].date@ == self.today@ && (forall|j: int|
                    0 <= j < i ==> !((#[trigger] self.entries@[j]).habit_id == habit_id
                        && self.entries@[j].date@ == self.today@)) ==> t.status == (if self.entries@[i].status
                    == HabitStatus::Done {
                    HabitStatus::Missed
                } else {
                    HabitStatus::Done
                }),
    {
        let date = self.today;
        let ghost day = date@;
        let ghost pred = of_habit_on(habit_id, day);
        let n: usize = self.entries.len();
        let mut found: Option<HabitStatus> = None;
        let mut i: usize = 0;
        while i < n
            invariant
                n == self.entries@.len(),
                i <= n,
                day == date@,
                pred == of_habit_on(habit_id, day),
                found == recorded_status(self.entries@.take(i as int), habit_id, day),
            decreases n - i,
        {
            let e = &self.entries[i];
            proof {
                lemma_filter_step(self.entries@, i as int, pred);
            }
            if found.is_none() && e.habit_id == habit_id && e.date.days() == date.days() {
                found = Some(e.status);
            }
            i = i + 1;
        }
        proof {
            assert(self.entries@.take(n as int) =~= self.entries@);
            lemma_recorded_status(self.entries@, habit_id, day);
        }
        let status = match found {
            Some(HabitStatus::Done) => HabitStatus::Missed,
            _ => HabitStatus::Done,
        };
        TodayToggle { habit_id, date, status }
    }

    /// Whether `habit_id` is the current habit (its chip is shown selected).
    pub fn is_current(&self, habit_id: u128) -> (r: bool)
        ensures
            r == (self.current_habit_id == Some(habit_id)),
    {
        match self.current_habit_id {
            Some(id) => id == habit_id,
            None => false,
        }
    }

    /// The habit whose completion tapping a day of the graph toggles: the current habit, or
    /// else the first habit, if there is one.
    pub fn habit_for_tap(&self) -> (r: Option<u128>)
        ensures
            r == (match self.current_habit_id {
                Some(id) => Some(id),
                None => if self.habits@.len() > 0 {
                    Some(self.habits@[0].id)
                } else {
                    None
                },
            }),
    {
        match self.current_habit_id {
            Some(id) => Some(id),
            None => {
                if self.habits.len() > 0 {
                    Some(self.habits[0].id)
                } else {
                    None
                }
            },
        }
    }

    /// Makes `habit_id` the current habit, whether or not it is listed (after toggling it).
    pub fn select_habit(&mut self, habit_id: u128)
        ensures
            final(self).current_habit_id == Some(habit_id),
            final(self).habits == old(self).habits,
            final(self).entries == old(self).entries,
            final(self).graph_weeks == old(self).graph_weeks,
            final(self).selected_date == old(self).selected_date,
            final(self).today == old(self).today,
    {
        self.current_habit_id = Some(habit_id);
    }

    /// A new habit of the given name, without a color, to be stored.
    pub fn add_habit(&self, name: &str) -> (h: Habit)
        ensures
            h.name@ == name@,
            h.color is None,
            !h.archived,
            is_random_id(h.id),
    {
        Habit::new(name, None)
    }

    /// Takes the habits listed by the store after one was added; the added one becomes current.
    pub fn habits_reloaded(&mut self, listed: Vec<Habit>, added: u128)
        ensures
            final(self).habits@ == listed@,
            final(self).current_habit_id == Some(added),
            final(self).entries == old(self).entries,
            final(self).graph_weeks == old(self).graph_weeks,
            final(self).selected_date == old(self).selected_date,
            final(self).today == old(self).today,
    {
        self.habits = listed;
        self.current_habit_id = Some(added);
    }
}

/// Toggling alternates: whatever was recorded, toggling gives done or missed, and toggling
/// again what the first toggle recorded gives the other one, and a third time the first again.
pub proof fn lemma_toggle_alternates(recorded: Option<HabitStatus>)
    ensures
        toggled_status(recorded) == HabitStatus::Done || toggled_status(recorded)
            == HabitStatus::Missed,
        toggled_status(Some(toggled_status(recorded))) != toggled_status(recorded),
        toggled_status(Some(toggled_status(Some(toggled_status(recorded))))) == toggled_status(
            recorded,
        ),
{
}

} // verus!
