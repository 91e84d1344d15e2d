//! Domain types: habits, the entries recorded for them day by day, and an entry's status.
use crate::date::{current_date, Date};
use crate::id::{is_random_id, new_id};
use vstd::prelude::*;

verus! {

/// What happened to a habit on a given day.
#[derive(Clone, Copy, Debug, PartialEq, Eq, Structural)]
pub enum HabitStatus {
    Done,
    Skipped,
    Missed,
}

/// The text under which a status is stored.
pub open spec fn status_text(s: HabitStatus) -> Seq<char> {
    match s {
        HabitStatus::Done => "done"@,
        HabitStatus::Skipped => "skipped"@,
        HabitStatus::Missed => "missed"@,
    }
}

/// The status that a stored text stands for, if any.
pub open spec fn status_from_text(t: Seq<char>) -> Option<HabitStatus> {
    if t == "done"@ {
        Some(HabitStatus::Done)
    } else if t == "skipped"@ {
        Some(HabitStatus::Skipped)
    } else if t == "missed"@ {
        Some(HabitStatus::Missed)
    } else {
        None
    }
}

impl HabitStatus {
    /// Reads a status from its stored text: `"done"`, `"skipped"` or `"missed"`; anything else is `None`.
    pub fn from_str(s: &str) -> (r: Option<Self>)
        ensures
            r == status_from_text(s@),
    {
        let text = s.to_owned();
        if text == "done".to_owned() {
            Some(HabitStatus::Done)
        } else if text == "skipped".to_owned() {
            Some(HabitStatus::Skipped)
        } else if text == "missed".to_owned() {
            Some(HabitStatus::Missed)
        } else {
            None
        }
    }

    /// The stored text of this status.
    pub fn as_str(&self) -> (r: &'static str)
        ensures
            r@ == status_text(*self),
    {
        match self {
            HabitStatus::Done => "done",
            HabitStatus::Skipped => "skipped",
            HabitStatus::Missed => "missed",
        }
    }
}

/// Writing a status and reading the text back gives the same status, so no two statuses share
/// a text; and a text that reads as a status is exactly that status's text.
pub proof fn lemma_status_text_roundtrip(s: HabitStatus, t: Seq<char>)
    ensures
        status_from_text(status_text(s)) == Some(s),
        status_from_text(t) == Some(s) ==> status_text(s) == t,
{
    reveal_strlit("done");
    reveal_strlit("skipped");
    reveal_strlit("missed");
    assert("done"@.len() == 4 && "skipped"@.len() == 7 && "missed"@.len() == 6);
}

/// The text of an optional string, if any.
pub open spec fn opt_text(o: Option<String>) -> Option<Seq<char>> {
    match o {
        Some(s) => Some(s@),
        None => None,
    }
}

/// A habit being tracked.
#[derive(Clone, Debug)]
pub struct Habit {
    pub id: u128,
    pub name: String,
    pub color: Option<String>,
    pub created_at: Date,
    pub archived: bool,
}

/// The value a habit stands for.
pub struct HabitView {
    pub id: u128,
    pub name: Seq<char>,
    pub color: Option<Seq<char>>,
    pub created_at: int,
    pub archived: bool,
}

impl View for Habit {
    type V = HabitView;

    open spec fn view(&self) -> HabitView {
        HabitView {
            id: self.id,
            name: self.name@,
            color: opt_text(self.color),
            created_at: self.created_at@,
            archived: self.archived,
        }
    }
}

impl Habit {
    /// A new, unarchived habit with a fresh random identifier, created today (the date read
    /// from the clock, in UTC).
    pub fn new(name: &str, color: Option<String>) -> (r: Habit)
        ensures
            r.name@ == name@,
            r.color == color,
            !r.archived,
            is_random_id(r.id),
    {
        Habit::new_on(name, color, current_date())
    }

    /// A new, unarchived habit with a fresh random identifier, created on `today`.
    pub fn new_on(name: &str, color: Option<String>, today: Date) -> (r: Habit)
        ensures
            r.name@ == name@,
            r.color == color,
            r.created_at == today,
            !r.archived,
            is_random_id(r.id),
    {
        Habit { id: new_id(), name: name.to_owned(), color, created_at: today, archived: false }
    }
}

/// What was recorded for a habit on one day.
#[derive(Clone, Debug)]
pub struct HabitEntry {
    pub id: u128,
    pub habit_id: u128,
    pub date: Date,
    pub status: HabitStatus,
    pub note: Option<String>,
}

/// The value an entry stands for.
pub struct HabitEntryView {
    pub id: u128,
    pub habit_id: u128,
    pub date: int,
    pub status: HabitStatus,
    pub note: Option<Seq<char>>,
}

impl View for HabitEntry {
    type V = HabitEntryView;

    open spec fn view(&self) -> HabitEntryView {
        HabitEntryView {
            id: self.id,
            habit_id: self.habit_id,
            date: self.date@,
            status: self.status,
            note: opt_text(self.note),
        }
    }
}

impl HabitEntry {
    /// A new entry without a note, with a fresh random identifier.
    pub fn new(habit_id: u128, date: Date, status: HabitStatus) -> (r: HabitEntry)
        ensures
            r.habit_id == habit_id,
            r.date == date,
            r.status == status,
            r.note is None,
            is_random_id(r.id),
    {
        HabitEntry { id: new_id(), habit_id, date, status, note: None }
    }
}

} // verus!
