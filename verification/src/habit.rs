//! Habits: the weekday a habit's calendar starts on, the habit records, and
//! the store of habits keyed by id with the days marked as completed.
use crate::dates::{weekday_from_sunday, weekday_number, Date, MAX_DAY, MIN_DAY};
use crate::ids::Id;
use crate::sort::{is_stable_sort_of, lemma_stable_sort_elements, sorted_by_key, stable_sort, SortKey};
use crate::text::{all_ascii, ascii_lower, lowercase_of, push_str, str_equals, to_lowercase};
use std::collections::HashMap;
use vstd::prelude::*;
use vstd::relations::{sorted_by, total_ordering};
use vstd::std_specs::hash::{group_hash_axioms, spec_hash_map_iter};
use vstd::std_specs::iter::IteratorSpec;

verus! {

/// A day of the week (chrono's `Weekday`).
#[derive(Clone, Copy, Debug, PartialEq, Eq, Structural)]
pub enum Weekday {
    Sun,
    Mon,
    Tue,
    Wed,
    Thu,
    Fri,
    Sat,
}

/// Days from Sunday to `w` (Sunday = 0, ..., Saturday = 6).
pub open spec fn weekday_index(w: Weekday) -> int {
    match w {
        Weekday::Sun => 0,
        Weekday::Mon => 1,
        Weekday::Tue => 2,
        Weekday::Wed => 3,
        Weekday::Thu => 4,
        Weekday::Fri => 5,
        Weekday::Sat => 6,
    }
}

impl Weekday {
    /// `Weekday::num_days_from_sunday`.
    pub fn num_days_from_sunday(&self) -> (r: u32)
        ensures
            r == weekday_index(*self),
    {
        match self {
            Weekday::Sun => 0,
            Weekday::Mon => 1,
            Weekday::Tue => 2,
            Weekday::Wed => 3,
            Weekday::Thu => 4,
            Weekday::Fri => 5,
            Weekday::Sat => 6,
        }
    }
}

/// The weekday a habit's calendar weeks begin with.
#[derive(Clone, Copy, Debug, PartialEq, Eq, Structural)]
pub enum WeekStart {
    Sunday,
    Monday,
    Tuesday,
    Wednesday,
    Thursday,
    Friday,
    Saturday,
}

/// The weekday of a week start.
pub open spec fn week_start_day(w: WeekStart) -> Weekday {
    match w {
        WeekStart::Sunday => Weekday::Sun,
        WeekStart::Monday => Weekday::Mon,
        WeekStart::Tuesday => Weekday::Tue,
        WeekStart::Wednesday => Weekday::Wed,
        WeekStart::Thursday => Weekday::Thu,
        WeekStart::Friday => Weekday::Fri,
        WeekStart::Saturday => Weekday::Sat,
    }
}

/// The stored name of a week start.
pub open spec fn week_start_name(w: WeekStart) -> Seq<char> {
    match w {
        WeekStart::Sunday => "sunday"@,
        WeekStart::Monday => "monday"@,
        WeekStart::Tuesday => "tuesday"@,
        WeekStart::Wednesday => "wednesday"@,
        WeekStart::Thursday => "thursday"@,
        WeekStart::Friday => "friday"@,
        WeekStart::Saturday => "saturday"@,
    }
}

/// The week start a lowercase name stands for; anything unknown is Sunday.
pub open spec fn week_start_of_lower(s: Seq<char>) -> WeekStart {
    if s == "monday"@ {
        WeekStart::Monday
    } else if s == "tuesday"@ {
        WeekStart::Tuesday
    } else if s == "wednesday"@ {
        WeekStart::Wednesday
    } else if s == "thursday"@ {
        WeekStart::Thursday
    } else if s == "friday"@ {
        WeekStart::Friday
    } else if s == "saturday"@ {
        WeekStart::Saturday
    } else {
        WeekStart::Sunday
    }
}

/// Days from the week's first day to the weekday numbered `day_from_sunday`,
/// in 0..7.
pub open spec fn days_into_week(day_from_sunday: int, w: WeekStart) -> int {
    let d = day_from_sunday - weekday_index(week_start_day(w));
    if d < 0 {
        d + 7
    } else {
        d
    }
}

/// Going back from a day by its distance into the week lands on the week's
/// first weekday.
pub proof fn lemma_back_to_week_start(day: int, w: WeekStart)
    ensures
        0 <= days_into_week(weekday_number(day), w) < 7,
        weekday_number(day - days_into_week(weekday_number(day), w)) == weekday_index(
            week_start_day(w),
        ),
{
    let c = day % 7;
    let q = day / 7;
    vstd::arithmetic::div_mod::lemma_fundamental_div_mod(day, 7);
    let s = weekday_index(week_start_day(w));
    let d = days_into_week(c, w);
    if c - s < 0 {
        assert(day - d == 7 * (q - 1) + s);
        vstd::arithmetic::div_mod::lemma_mod_multiples_vanish(q - 1, s, 7);
    } else {
        assert(day - d == 7 * q + s);
        vstd::arithmetic::div_mod::lemma_mod_multiples_vanish(q, s, 7);
    }
    vstd::arithmetic::div_mod::lemma_small_mod(s as nat, 7);
}

impl WeekStart {
    /// The chrono weekday of this week start.
    pub fn to_weekday(&self) -> (r: Weekday)
        ensures
            r == week_start_day(*self),
    {
        match self {
            WeekStart::Sunday => Weekday::Sun,
            WeekStart::Monday => Weekday::Mon,
            WeekStart::Tuesday => Weekday::Tue,
            WeekStart::Wednesday => Weekday::Wed,
            WeekStart::Thursday => Weekday::Thu,
            WeekStart::Friday => Weekday::Fri,
            WeekStart::Saturday => Weekday::Sat,
        }
    }

    /// How many days `date` lies after the start of its week (0 to 6).
    pub fn get_days_from_start(&self, date: Date) -> (r: i64)
        requires
            date.is_valid(),
        ensures
            r == days_into_week(weekday_number(date.day as int), *self),
            0 <= r < 7,
            weekday_number(date.day - r) == weekday_index(week_start_day(*self)),
    {
        proof {
            lemma_back_to_week_start(date.day as int, *self);
        }
        let week_start = self.to_weekday();
        let current = weekday_from_sunday(date);
        let days = current as i64 - week_start.num_days_from_sunday() as i64;
        if days < 0 {
            days + 7
        } else {
            days
        }
    }

    /// The lowercase English name of the weekday.
    pub fn to_string(&self) -> (r: String)
        ensures
            r@ == week_start_name(*self),
    {
        let mut s = String::new();
        match self {
            WeekStart::Sunday => push_str(&mut s, "sunday"),
            WeekStart::Monday => push_str(&mut s, "monday"),
            WeekStart::Tuesday => push_str(&mut s, "tuesday"),
            WeekStart::Wednesday => push_str(&mut s, "wednesday"),
            WeekStart::Thursday => push_str(&mut s, "thursday"),
            WeekStart::Friday => push_str(&mut s, "friday"),
            WeekStart::Saturday => push_str(&mut s, "saturday"),
        }
        s
    }

    /// The week start named by an already lowercased string (Sunday when the
    /// name is unknown).
    pub fn from_lowercase(s: &str) -> (r: WeekStart)
        ensures
            r == week_start_of_lower(s@),
    {
        if str_equals(s, "monday") {
            WeekStart::Monday
        } else if str_equals(s, "tuesday") {
            WeekStart::Tuesday
        } else if str_equals(s, "wednesday") {
            WeekStart::Wednesday
        } else if str_equals(s, "thursday") {
            WeekStart::Thursday
        } else if str_equals(s, "friday") {
            WeekStart::Friday
        } else if str_equals(s, "saturday") {
            WeekStart::Saturday
        } else {
            WeekStart::Sunday
        }
    }

    /// The week start named by `s` in any case (Sunday when the name is
    /// unknown).
    pub fn from_string(s: &str) -> (r: WeekStart)
        ensures
            r == week_start_of_lower(lowercase_of(s@)),
            all_ascii(s@) ==> r == week_start_of_lower(s@.map_values(|c: char| ascii_lower(c))),
    {
        let lower = to_lowercase(s);
        WeekStart::from_lowercase(lower.as_str())
    }
}

/// On ASCII text, reading a week start is indifferent to lowercasing the
/// text first: the ASCII lowercase of ASCII text is ASCII and lowercases to
/// itself, so `from_string(s)` and `from_string(&s.to_lowercase())` agree.
pub proof fn lemma_from_string_lowercase_ascii(s: Seq<char>)
    requires
        all_ascii(s),
    ensures
        all_ascii(s.map_values(|c: char| ascii_lower(c))),
        s.map_values(|c: char| ascii_lower(c)).map_values(|c: char| ascii_lower(c)) == s.map_values(
            |c: char| ascii_lower(c),
        ),
        week_start_of_lower(
            s.map_values(|c: char| ascii_lower(c)).map_values(|c: char| ascii_lower(c)),
        ) == week_start_of_lower(s.map_values(|c: char| ascii_lower(c))),
{
    let l = s.map_values(|c: char| ascii_lower(c));
    assert forall|i: int| 0 <= i < l.len() implies (#[trigger] l[i] as u32) < 128
        && ascii_lower(l[i]) == l[i] by {
        let c = s[i];
        assert((c as u32) < 128);
        if 'A' <= c && c <= 'Z' {
            assert(l[i] == ((c as u32) + 32) as char);
            assert((((c as u32) + 32) as char) as u32 == (c as u32) + 32);
        }
    }
    assert(l.map_values(|c: char| ascii_lower(c)) =~= l);
}

/// Reading back the name of a week start gives the same week start.
pub proof fn lemma_week_start_name_round_trip(w: WeekStart)
    ensures
        week_start_of_lower(week_start_name(w)) == w,
{
    reveal_strlit("sunday");
    reveal_strlit("monday");
    reveal_strlit("tuesday");
    reveal_strlit("wednesday");
    reveal_strlit("thursday");
    reveal_strlit("friday");
    reveal_strlit("saturday");
    let m = "monday"@;
    let tu = "tuesday"@;
    let we = "wednesday"@;
    let th = "thursday"@;
    let fr = "friday"@;
    let sa = "saturday"@;
    let su = "sunday"@;
    assert(su[0] != m[0] && su.len() != tu.len() && su.len() != we.len() && su.len() != th.len());
    assert(su[0] != fr[0] && su.len() != sa.len());
    assert(tu.len() != m.len());
    assert(we.len() != m.len() && we.len() != tu.len());
    assert(th.len() != m.len() && th.len() != tu.len() && th.len() != we.len());
    assert(fr[0] != m[0] && fr.len() != tu.len() && fr.len() != we.len() && fr.len() != th.len());
    assert(sa.len() != m.len() && sa.len() != tu.len() && sa.len() != we.len() && sa[0] != th[0]);
    assert(sa.len() != fr.len());
}

/// A habit as the tab bar lists it: id, title, start date, color and the
/// name of its week start.
#[derive(Debug, Clone)]
pub struct Habit {
    pub id: Id,
    pub title: String,
    pub start_date: Date,
    pub color: String,
    pub week_start: String,
}

/// What the store keeps for a habit.
#[derive(Debug, Clone)]
pub struct HabitData {
    pub title: String,
    pub start_date: Date,
    pub completed_days: Vec<Date>,
    pub week_start: WeekStart,
    pub color: String,
}

/// The contents of a `HabitData`.
pub ghost struct HabitModel {
    pub title: Seq<char>,
    pub start_date: Date,
    pub completed_days: Seq<Date>,
    pub week_start: WeekStart,
    pub color: Seq<char>,
}

impl View for HabitData {
    type V = HabitModel;

    open spec fn view(&self) -> HabitModel {
        HabitModel {
            title: self.title@,
            start_date: self.start_date,
            completed_days: self.completed_days@,
            week_start: self.week_start,
            color: self.color@,
        }
    }
}

/// A copy of a list of dates.
pub fn copy_dates(v: &Vec<Date>) -> (r: Vec<Date>)
    ensures
        r@ == v@,
{
    let mut out: Vec<Date> = Vec::new();
    let mut i: usize = 0;
    while i < v.len()
        invariant
            i <= v.len(),
            out@ == v@.subrange(0, i as int),
        decreases v.len() - i,
    {
        out.push(v[i]);
        i = i + 1;
        proof {
            assert(out@ =~= v@.subrange(0, i as int));
        }
    }
    proof {
        assert(v@.subrange(0, v.len() as int) =~= v@);
    }
    out
}

impl HabitData {
    /// A copy with the same contents.
    pub fn duplicate(&self) -> (r: HabitData)
        ensures
            r@ == self@,
    {
        HabitData {
            title: self.title.clone(),
            start_date: self.start_date,
            completed_days: copy_dates(&self.completed_days),
            week_start: self.week_start,
            color: self.color.clone(),
        }
    }
}

/// The habits, keyed by id.
#[derive(Debug, Clone)]
pub struct HabitsStore {
    habits: HashMap<Id, HabitData>,
}

impl View for HabitsStore {
    type V = Map<Id, HabitModel>;

    closed spec fn view(&self) -> Map<Id, HabitModel> {
        self.habits@.map_values(|d: HabitData| d@)
    }
}

impl HabitsStore {
    /// An empty store.
    pub fn new() -> (r: HabitsStore)
        ensures
            r@ == Map::<Id, HabitModel>::empty(),
    {
        let r = HabitsStore { habits: HashMap::new() };
        assert(r@ =~= Map::<Id, HabitModel>::empty());
        r
    }

    /// Every habit with its id, each once, in the map's iteration order.
    pub fn get_all_habits(&self) -> (r: Vec<(Id, HabitData)>)
        ensures
            r@.len() == self@.dom().len(),
            forall|i: int|
                0 <= i < r@.len() ==> self@.contains_key(#[trigger] r@[i].0) && self@[r@[i].0]
                    == r@[i].1@,
            forall|k: Id|
                #[trigger] self@.contains_key(k) ==> exists|i: int| 0 <= i < r@.len() && r@[i].0 == k,
            forall|i: int, j: int| 0 <= i < j < r@.len() ==> r@[i].0 != r@[j].0,
    {
        broadcast use group_hash_axioms;
        let mut out: Vec<(Id, HabitData)> = Vec::new();
        let iter = self.habits.iter();
        for kv in it: iter
            invariant
                it.seq() == spec_hash_map_iter(&self.habits).remaining(),
                out@.len() == it.index(),
                forall|i: int| 0 <= i < it.index() ==> (#[trigger] out@[i]).0 == *it.seq()[i].0
                    && out@[i].1@ == it.seq()[i].1@,
        {
            let (k, v) = kv;
            out.push((*k, v.duplicate()));
        }
        proof {
            let v = spec_hash_map_iter(&self.habits).remaining();
            assert(v.len() == self.habits@.dom().len());
            assert(self@.dom() =~= self.habits@.dom());
            assert forall|k: Id| #[trigger] self@.contains_key(k) implies exists|i: int|
                0 <= i < out@.len() && out@[i].0 == k by {
                assert(v.contains((&k, &self.habits@[k])));
                let i = choose|i: int| 0 <= i < v.len() && v[i] == (&k, &self.habits@[k]);
                assert(out@[i].0 == k);
            }
            assert(v.no_duplicates());
            assert forall|i: int, j: int| 0 <= i < j < out@.len() implies out@[i].0 != out@[j].0 by {
                if out@[i].0 == out@[j].0 {
                    assert(self.habits@[*v[i].0] == *v[i].1);
                    assert(self.habits@[*v[j].0] == *v[j].1);
                    assert(v[i] == v[j]);
                }
            }
        }
        out
    }

    /// The data of the habit `id`, if there is one.
    pub fn get_habit(&self, id: Id) -> (r: Option<HabitData>)
        ensures
            r matches Some(d) ==> self@.contains_key(id) && d@ == self@[id],
            r is None ==> !self@.contains_key(id),
    {
        broadcast use group_hash_axioms;
        match self.habits.get(&id) {
            Some(d) => Some(d.duplicate()),
            None => None,
        }
    }

    /// Stores `data` under `id`, replacing what was there.
    pub fn create_habit(&mut self, id: Id, data: HabitData)
        ensures
            final(self)@ == old(self)@.insert(id, data@),
    {
        broadcast use group_hash_axioms;
        self.habits.insert(id, data);
        assert(self@ =~= old(self)@.insert(id, data@));
    }

    /// Replaces the data of `id` when the habit exists; otherwise nothing
    /// changes.
    pub fn update_habit(&mut self, id: Id, data: HabitData)
        ensures
            old(self)@.contains_key(id) ==> final(self)@ == old(self)@.insert(id, data@),
            !old(self)@.contains_key(id) ==> final(self)@ == old(self)@,
    {
        broadcast use group_hash_axioms;
        if self.habits.contains_key(&id) {
            self.habits.insert(id, data);
            assert(self@ =~= old(self)@.insert(id, data@));
        }
    }

    /// Removes the habit `id`, if there is one.
    pub fn delete_habit(&mut self, id: Id)
        ensures
            final(self)@ == old(self)@.remove(id),
    {
        broadcast use group_hash_axioms;
        self.habits.remove(&id);
        assert(self@ =~= old(self)@.remove(id));
    }

    /// Marks `date` as completed for habit `id`: when the habit exists and
    /// the date is not yet marked, the date is added and the completed days
    /// are sorted (stably, earliest first). Otherwise nothing changes.
    pub fn mark_day(&mut self, id: Id, date: Date)
        ensures
            day_marked(old(self)@, final(self)@, id, date),
    {
        broadcast use group_hash_axioms;
        let found = match self.habits.get(&id) {
            Some(h) => Some(h.duplicate()),
            None => None,
        };
        if let Some(mut h) = found {
            if !contains_date(&h.completed_days, date) {
                let mut days = copy_dates(&h.completed_days);
                days.push(date);
                let sorted = stable_sort(days);
                h.completed_days = sorted;
                let ghost new_model = h@;
                self.habits.insert(id, h);
                assert(self@ =~= old(self)@.insert(id, new_model));
                assert(self@.dom() =~= old(self)@.dom());
            }
        }
    }

    /// Removes every mark of `date` from habit `id`, if the habit exists.
    pub fn unmark_day(&mut self, id: Id, date: Date)
        ensures
            old(self)@.contains_key(id) ==> final(self)@ == old(self)@.insert(
                id,
                without_day(old(self)@[id], date),
            ),
            !old(self)@.contains_key(id) ==> final(self)@ == old(self)@,
    {
        broadcast use group_hash_axioms;
        let found = match self.habits.get(&id) {
            Some(h) => Some(h.duplicate()),
            None => None,
        };
        if let Some(mut h) = found {
            h.completed_days = retain_other_days(&h.completed_days, date);
            let ghost new_model = h@;
            self.habits.insert(id, h);
            assert(self@ =~= old(self)@.insert(id, new_model));
        }
    }
}

/// `date` occurs in `v`.
pub fn contains_date(v: &Vec<Date>, date: Date) -> (r: bool)
    ensures
        r == v@.contains(date),
{
    let mut i: usize = 0;
    while i < v.len()
        invariant
            i <= v.len(),
            forall|j: int| 0 <= j < i ==> v@[j] != date,
        decreases v.len() - i,
    {
        if v[i] == date {
            return true;
        }
        i = i + 1;
    }
    false
}

/// Keeps the dates other than `date`.
pub open spec fn not_day(date: Date) -> spec_fn(Date) -> bool {
    |d: Date| d != date
}

/// The dates of `v` other than `date`, in order.
pub fn retain_other_days(v: &Vec<Date>, date: Date) -> (r: Vec<Date>)
    ensures
        r@ == v@.filter(not_day(date)),
{
    let mut out: Vec<Date> = Vec::new();
    let mut i: usize = 0;
    proof {
        assert(v@.subrange(0, 0) =~= Seq::<Date>::empty());
    }
    while i < v.len()
        invariant
            i <= v.len(),
            out@ == v@.subrange(0, i as int).filter(not_day(date)),
        decreases v.len() - i,
    {
        let d = v[i];
        proof {
            assert(v@.subrange(0, i + 1) =~= v@.subrange(0, i as int).push(d));
            v@.subrange(0, i as int).lemma_filter_push(d, not_day(date));
        }
        if d != date {
            out.push(d);
        }
        i = i + 1;
    }
    proof {
        assert(v@.subrange(0, v.len() as int) =~= v@);
    }
    out
}

/// A habit's contents with `date` no longer marked.
pub open spec fn without_day(h: HabitModel, date: Date) -> HabitModel {
    HabitModel { completed_days: h.completed_days.filter(not_day(date)), ..h }
}

/// `new` is `old` after marking `date` for `id`: unchanged when there is no
/// habit `id` or the date is already marked; else the habit's completed days
/// are a stable sort of the old ones with `date` appended.
pub open spec fn day_marked(old: Map<Id, HabitModel>, new: Map<Id, HabitModel>, id: Id, date: Date) -> bool {
    if old.contains_key(id) && !old[id].completed_days.contains(date) {
        &&& new.dom() == old.dom()
        &&& forall|k: Id| #[trigger] old.contains_key(k) && k != id ==> new[k] == old[k]
        &&& new[id].title == old[id].title
        &&& new[id].start_date == old[id].start_date
        &&& new[id].week_start == old[id].week_start
        &&& new[id].color == old[id].color
        &&& is_stable_sort_of(old[id].completed_days.push(date), new[id].completed_days)
    } else {
        new == old
    }
}

impl Habit {
    /// The tab bar's entry for the stored habit `id`.
    pub fn from_data(id: Id, data: &HabitData) -> (r: Habit)
        ensures
            r.id == id,
            r.title@ == data.title@,
            r.start_date == data.start_date,
            r.color@ == data.color@,
            r.week_start@ == week_start_name(data.week_start),
    {
        Habit {
            id,
            title: data.title.clone(),
            start_date: data.start_date,
            color: data.color.clone(),
            week_start: data.week_start.to_string(),
        }
    }

    /// The data stored for a habit created from the tab bar: its title,
    /// start date and color, the week start its name gives, and no completed
    /// day.
    pub fn to_data(&self) -> (r: HabitData)
        ensures
            r.title@ == self.title@,
            r.start_date == self.start_date,
            r.color@ == self.color@,
            r.week_start == week_start_of_lower(lowercase_of(self.week_start@)),
            r.completed_days@ == Seq::<Date>::empty(),
    {
        HabitData {
            title: self.title.clone(),
            start_date: self.start_date,
            completed_days: Vec::new(),
            week_start: WeekStart::from_string(self.week_start.as_str()),
            color: self.color.clone(),
        }
    }
}

/// A habit as the "+" button creates it: titled "New Habit", starting
/// `today`, purple (`#800080`), with weeks starting on Sunday.
pub fn new_habit(id: Id, today: Date) -> (r: Habit)
    ensures
        r.id == id,
        r.title@ == "New Habit"@,
        r.start_date == today,
        r.color@ == "#800080"@,
        r.week_start@ == "sunday"@,
{
    let mut title = String::new();
    push_str(&mut title, "New Habit");
    let mut color = String::new();
    push_str(&mut color, "#800080");
    let mut week_start = String::new();
    push_str(&mut week_start, "sunday");
    Habit { id, title, start_date: today, color, week_start }
}

/// The two habits an empty database starts with: "Meditation" (`#4A90E2`)
/// and "Push-ups" (`#50C878`), both starting `today` with weeks starting on
/// Monday.
pub fn default_habits(today: Date, first_id: Id, second_id: Id) -> (r: Vec<Habit>)
    ensures
        r@.len() == 2,
        r@[0].id == first_id,
        r@[0].title@ == "Meditation"@,
        r@[0].color@ == "#4A90E2"@,
        r@[1].id == second_id,
        r@[1].title@ == "Push-ups"@,
        r@[1].color@ == "#50C878"@,
        forall|i: int| 0 <= i < 2 ==> (#[trigger] r@[i]).start_date == today && r@[i].week_start@ == "monday"@,
{
    let mut t1 = String::new();
    push_str(&mut t1, "Meditation");
    let mut c1 = String::new();
    push_str(&mut c1, "#4A90E2");
    let mut w1 = String::new();
    push_str(&mut w1, "monday");
    let mut t2 = String::new();
    push_str(&mut t2, "Push-ups");
    let mut c2 = String::new();
    push_str(&mut c2, "#50C878");
    let mut w2 = String::new();
    push_str(&mut w2, "monday");
    let mut out: Vec<Habit> = Vec::new();
    out.push(Habit { id: first_id, title: t1, start_date: today, color: c1, week_start: w1 });
    out.push(Habit { id: second_id, title: t2, start_date: today, color: c2, week_start: w2 });
    out
}

/// Position of the first habit with id `id` in `s`, or `s.len()`.
pub open spec fn habit_position(s: Seq<Habit>, id: Id) -> int
    decreases s.len(),
{
    if s.len() == 0 {
        0
    } else if s[0].id == id {
        0
    } else {
        1 + habit_position(s.drop_first(), id)
    }
}

proof fn lemma_habit_position(s: Seq<Habit>, id: Id)
    ensures
        0 <= habit_position(s, id) <= s.len(),
        habit_position(s, id) < s.len() ==> s[habit_position(s, id)].id == id,
        forall|j: int| 0 <= j < habit_position(s, id) ==> (#[trigger] s[j]).id != id,
    decreases s.len(),
{
    if s.len() > 0 && s[0].id != id {
        lemma_habit_position(s.drop_first(), id);
        assert forall|j: int| 0 <= j < habit_position(s, id) implies (#[trigger] s[j]).id != id by {
            if j > 0 {
                assert(s[j] == s.drop_first()[j - 1]);
            }
        }
    }
}

/// Sets the title of the first listed habit with id `id` (the tab bar's
/// edit field); the list is unchanged when no habit has that id.
pub fn retitle_in_list(habits: &mut Vec<Habit>, id: Id, title: String)
    ensures
        ({
            let k = habit_position(old(habits)@, id);
            &&& final(habits)@.len() == old(habits)@.len()
            &&& forall|j: int| 0 <= j < old(habits)@.len() && j != k ==> #[trigger] final(habits)@[j] == old(habits)@[j]
            &&& k < old(habits)@.len() ==> {
                &&& final(habits)@[k].id == id
                &&& final(habits)@[k].title == title
                &&& final(habits)@[k].start_date == old(habits)@[k].start_date
                &&& final(habits)@[k].color == old(habits)@[k].color
                &&& final(habits)@[k].week_start == old(habits)@[k].week_start
            }
        }),
{
    proof {
        lemma_habit_position(habits@, id);
    }
    let mut i: usize = 0;
    while i < habits.len()
        invariant
            habits@ == old(habits)@,
            i <= habits.len(),
            forall|j: int| 0 <= j < i ==> (#[trigger] habits@[j]).id != id,
            habit_position(habits@, id) >= i,
            habit_position(habits@, id) <= habits@.len(),
            habit_position(habits@, id) < habits@.len() ==> habits@[habit_position(habits@, id)].id == id,
            forall|j: int| 0 <= j < habit_position(habits@, id) ==> (#[trigger] habits@[j]).id != id,
        decreases habits.len() - i,
    {
        if habits[i].id == id {
            habits[i].title = title;
            return;
        }
        i = i + 1;
    }
}

/// The habits whose id is not `id`, in order (the tab bar after a delete).
pub fn remove_from_list(habits: Vec<Habit>, id: Id) -> (r: Vec<Habit>)
    ensures
        r@ == habits@.filter(|h: Habit| h.id != id),
{
    let ghost keep = |h: Habit| h.id != id;
    let ghost orig = habits@;
    let mut rest = habits;
    let mut out: Vec<Habit> = Vec::new();
    let ghost mut n: int = 0;
    proof {
        assert(orig.subrange(0, 0) =~= Seq::<Habit>::empty());
        assert(orig.subrange(0, orig.len() as int) =~= orig);
    }
    while rest.len() > 0
        invariant
            0 <= n <= orig.len(),
            rest@ == orig.subrange(n, orig.len() as int),
            out@ == orig.subrange(0, n).filter(keep),
            keep == (|h: Habit| h.id != id),
        decreases rest.len(),
    {
        let h = rest.remove(0);
        proof {
            assert(orig.subrange(0, n + 1) =~= orig.subrange(0, n).push(h));
            orig.subrange(0, n).lemma_filter_push(h, keep);
        }
        if h.id != id {
            out.push(h);
        }
        proof {
            n = n + 1;
            assert(rest@ =~= orig.subrange(n, orig.len() as int));
        }
    }
    proof {
        assert(orig.subrange(0, n) =~= orig);
    }
    out
}

/// Which columns of a habit a request changes; absent fields stay.
#[derive(Debug, Clone)]
pub struct UpdateHabitRequest {
    pub title: Option<String>,
    pub start_date: Option<String>,
    pub color: Option<String>,
    pub week_start: Option<String>,
}

/// The column updates a request asks for, in the order they are applied:
/// title, start date, color, week start.
pub open spec fn requested_updates(r: UpdateHabitRequest) -> Seq<(Seq<char>, Seq<char>)> {
    (if r.title is Some { seq![("title"@, r.title->0@)] } else { Seq::empty() })
        + (if r.start_date is Some { seq![("start_date"@, r.start_date->0@)] } else { Seq::empty() })
        + (if r.color is Some { seq![("color"@, r.color->0@)] } else { Seq::empty() })
        + (if r.week_start is Some { seq![("week_start"@, r.week_start->0@)] } else { Seq::empty() })
}

/// Pushes `(column, value)` when a value is given.
fn push_update(out: &mut Vec<(String, String)>, column: &str, value: &Option<String>)
    ensures
        final(out)@.len() == old(out)@.len() + (if value is Some { 1int } else { 0 }),
        forall|i: int| 0 <= i < old(out)@.len() ==> #[trigger] final(out)@[i] == old(out)@[i],
        value is Some ==> final(out)@.last().0@ == column@ && final(out)@.last().1@ == value->0@,
{
    if let Some(v) = value {
        let mut c = String::new();
        push_str(&mut c, column);
        out.push((c, v.clone()));
    }
}

impl UpdateHabitRequest {
    /// The `(column, value)` pairs to write, in order.
    pub fn column_updates(&self) -> (r: Vec<(String, String)>)
        ensures
            r@.len() == requested_updates(*self).len(),
            forall|i: int|
                0 <= i < r@.len() ==> (#[trigger] r@[i]).0@ == requested_updates(*self)[i].0
                    && r@[i].1@ == requested_updates(*self)[i].1,
    {
        let mut out: Vec<(String, String)> = Vec::new();
        push_update(&mut out, "title", &self.title);
        let ghost a = out@;
        push_update(&mut out, "start_date", &self.start_date);
        let ghost b = out@;
        push_update(&mut out, "color", &self.color);
        let ghost c = out@;
        push_update(&mut out, "week_start", &self.week_start);
        proof {
            let t = if self.title is Some { seq![("title"@, self.title->0@)] } else { Seq::<(Seq<char>, Seq<char>)>::empty() };
            let sd = if self.start_date is Some { seq![("start_date"@, self.start_date->0@)] } else { Seq::<(Seq<char>, Seq<char>)>::empty() };
            let co = if self.color is Some { seq![("color"@, self.color->0@)] } else { Seq::<(Seq<char>, Seq<char>)>::empty() };
            let ws = if self.week_start is Some { seq![("week_start"@, self.week_start->0@)] } else { Seq::<(Seq<char>, Seq<char>)>::empty() };
            assert(a.len() == t.len());
            assert forall|i: int| 0 <= i < out@.len() implies (#[trigger] out@[i]).0@ == requested_updates(*self)[i].0
                && out@[i].1@ == requested_updates(*self)[i].1 by {
                assert(requested_updates(*self) == t + sd + co + ws);
                if i < a.len() {
                    assert(out@[i] == a[i]);
                } else if i < b.len() {
                    assert(out@[i] == b[i]);
                } else if i < c.len() {
                    assert(out@[i] == c[i]);
                }
            }
        }
        out
    }
}

/// First day shown in a habit's calendar: the start of the week holding the
/// habit's start date.
pub open spec fn calendar_first_day(start: Date, w: WeekStart) -> int {
    start.day - days_into_week(weekday_number(start.day as int), w)
}

/// Number of days a habit's calendar shows: from the first day through the
/// end of the week holding the day 66 days after the start.
pub open spec fn calendar_length(start: Date, w: WeekStart) -> int {
    let min_end = start.day + 66;
    (min_end - calendar_first_day(start, w)) + (6 - days_into_week(weekday_number(min_end), w)) + 1
}

/// A habit's calendar is made of whole weeks: its first day falls on the week
/// start day, and it holds a multiple of seven days.
pub proof fn lemma_calendar_whole_weeks(start: Date, w: WeekStart)
    ensures
        weekday_number(calendar_first_day(start, w)) == weekday_index(week_start_day(w)),
        calendar_length(start, w) % 7 == 0,
        calendar_length(start, w) >= 67,
{
    let min_end = start.day + 66;
    lemma_back_to_week_start(start.day as int, w);
    lemma_back_to_week_start(min_end, w);
    let a = calendar_first_day(start, w);
    let b = min_end - days_into_week(weekday_number(min_end), w);
    let s = weekday_index(week_start_day(w));
    vstd::arithmetic::div_mod::lemma_fundamental_div_mod(a, 7);
    vstd::arithmetic::div_mod::lemma_fundamental_div_mod(b, 7);
    let k = b / 7 - a / 7 + 1;
    assert(calendar_length(start, w) == 7 * k + 0);
    vstd::arithmetic::div_mod::lemma_mod_multiples_vanish(k, 0, 7);
}

/// The calendar's days, and the day 66 days after the start, lie within
/// chrono's range.
pub open spec fn calendar_fits(start: Date, w: WeekStart) -> bool {
    &&& start.is_valid()
    &&& start.day + 66 <= MAX_DAY
    &&& MIN_DAY <= calendar_first_day(start, w)
    &&& calendar_first_day(start, w) + calendar_length(start, w) - 1 <= MAX_DAY
}

/// One day of a habit's calendar and how it is shown.
#[derive(Clone, Copy, Debug, PartialEq, Eq, Structural)]
pub struct CalendarCell {
    pub date: Date,
    /// The day is marked as completed.
    pub completed: bool,
    /// The day lies after today.
    pub future: bool,
    /// The day is today.
    pub current: bool,
    /// The day lies before the habit's start date.
    pub before_start: bool,
}

/// The cell shown for `date`.
pub open spec fn cell_for(date: Date, start: Date, current: Date, completed: Seq<Date>) -> CalendarCell {
    CalendarCell {
        date,
        completed: completed.contains(date),
        future: date.day > current.day,
        current: date.day == current.day,
        before_start: date.day < start.day,
    }
}

/// The days of a habit's calendar: whole weeks, beginning on the week start
/// day on or before `start_date` and ending on the last day of the week that
/// holds the day 66 days after it, each with its completed, future, current
/// and before-start flags.
pub fn calendar_cells(
    start_date: Date,
    current_date: Date,
    completed_days: &Vec<Date>,
    week_start: WeekStart,
) -> (r: Vec<CalendarCell>)
    requires
        calendar_fits(start_date, week_start),
    ensures
        r@.len() == calendar_length(start_date, week_start),
        forall|i: int|
            0 <= i < r@.len() ==> #[trigger] r@[i] == cell_for(
                Date { day: (calendar_first_day(start_date, week_start) + i) as i32 },
                start_date,
                current_date,
                completed_days@,
            ),
        r@.len() % 7 == 0,
        weekday_number(calendar_first_day(start_date, week_start)) == weekday_index(
            week_start_day(week_start),
        ),
{
    proof {
        lemma_calendar_whole_weeks(start_date, week_start);
    }
    let days_to_start = week_start.get_days_from_start(start_date);
    let week_start_date = start_date.add_days(-days_to_start);
    let min_end_date = start_date.add_days(66);
    let days_to_complete_week = 6 - week_start.get_days_from_start(min_end_date);
    let total_days = min_end_date.days_since(week_start_date) + days_to_complete_week + 1;
    let mut out: Vec<CalendarCell> = Vec::new();
    let mut i: i64 = 0;
    while i < total_days
        invariant
            calendar_fits(start_date, week_start),
            week_start_date.day == calendar_first_day(start_date, week_start),
            total_days == calendar_length(start_date, week_start),
            0 <= i <= total_days,
            out@.len() == i,
            forall|j: int|
                0 <= j < i ==> #[trigger] out@[j] == cell_for(
                    Date { day: (calendar_first_day(start_date, week_start) + j) as i32 },
                    start_date,
                    current_date,
                    completed_days@,
                ),
        decreases total_days - i,
    {
        let date = week_start_date.add_days(i);
        let cell = CalendarCell {
            date,
            completed: contains_date(completed_days, date),
            future: date.day > current_date.day,
            current: date.day == current_date.day,
            before_start: date.day < start_date.day,
        };
        out.push(cell);
        i = i + 1;
    }
    out
}

/// `calendar_cells`, or `None` when the calendar would leave chrono's range
/// of dates, which `calendar_cells` does not accept.
pub fn try_calendar_cells(
    start_date: Date,
    current_date: Date,
    completed_days: &Vec<Date>,
    week_start: WeekStart,
) -> (r: Option<Vec<CalendarCell>>)
    ensures
        !calendar_fits(start_date, week_start) ==> r is None,
        calendar_fits(start_date, week_start) ==> (r matches Some(cells) && cells@.len()
            == calendar_length(start_date, week_start) && forall|i: int|
            0 <= i < cells@.len() ==> #[trigger] cells@[i] == cell_for(
                Date { day: (calendar_first_day(start_date, week_start) + i) as i32 },
                start_date,
                current_date,
                completed_days@,
            )),
{
    if start_date.day < MIN_DAY || start_date.day > MAX_DAY - 66 {
        return None;
    }
    let back = week_start.get_days_from_start(start_date);
    if (start_date.day as i64) - back < MIN_DAY as i64 {
        return None;
    }
    let min_end = start_date.add_days(66);
    let forward = 6 - week_start.get_days_from_start(min_end);
    if (min_end.day as i64) + forward > MAX_DAY as i64 {
        return None;
    }
    Some(calendar_cells(start_date, current_date, completed_days, week_start))
}

/// The CSS class of a calendar cell:
/// `format!("calendar-cell {} {} {} {}", completed, future, current-day, past)`
/// with each part empty when its flag is off.
pub open spec fn cell_class_text(c: CalendarCell) -> Seq<char> {
    "calendar-cell "@ + (if c.completed { "completed"@ } else { ""@ }) + " "@ + (if c.future {
        "future"@
    } else {
        ""@
    }) + " "@ + (if c.current { "current-day"@ } else { ""@ }) + " "@ + (if c.before_start {
        "past"@
    } else {
        ""@
    })
}

/// The CSS class of a calendar cell.
pub fn cell_class(c: &CalendarCell) -> (r: String)
    ensures
        r@ == cell_class_text(*c),
{
    let mut s = String::new();
    push_str(&mut s, "calendar-cell ");
    push_str(&mut s, if c.completed { "completed" } else { "" });
    push_str(&mut s, " ");
    push_str(&mut s, if c.future { "future" } else { "" });
    push_str(&mut s, " ");
    push_str(&mut s, if c.current { "current-day" } else { "" });
    push_str(&mut s, " ");
    push_str(&mut s, if c.before_start { "past" } else { "" });
    proof {
        assert(s@ =~= cell_class_text(*c));
    }
    s
}

/// The one-letter weekday labels, Sunday first.
pub open spec fn day_letter(k: int) -> Seq<char> {
    if k == 0 || k == 6 {
        "S"@
    } else if k == 1 {
        "M"@
    } else if k == 2 || k == 4 {
        "T"@
    } else if k == 3 {
        "W"@
    } else {
        "F"@
    }
}

/// The label of weekday `k` (Sunday = 0).
fn day_letter_string(k: u32) -> (r: String)
    requires
        k < 7,
    ensures
        r@ == day_letter(k as int),
{
    let mut s = String::new();
    if k == 0 || k == 6 {
        push_str(&mut s, "S");
    } else if k == 1 {
        push_str(&mut s, "M");
    } else if k == 2 || k == 4 {
        push_str(&mut s, "T");
    } else if k == 3 {
        push_str(&mut s, "W");
    } else {
        push_str(&mut s, "F");
    }
    s
}

/// The calendar's header: the seven weekday letters starting with the week
/// start day.
pub fn calendar_header(week_start: WeekStart) -> (r: Vec<String>)
    ensures
        r@.len() == 7,
        forall|i: int|
            0 <= i < 7 ==> (#[trigger] r@[i])@ == day_letter(
                (weekday_index(week_start_day(week_start)) + i) % 7,
            ),
{
    let skip = week_start.to_weekday().num_days_from_sunday();
    let mut out: Vec<String> = Vec::new();
    let mut i: u32 = 0;
    while i < 7
        invariant
            skip == weekday_index(week_start_day(week_start)),
            i <= 7,
            out@.len() == i,
            forall|j: int|
                0 <= j < i ==> (#[trigger] out@[j])@ == day_letter(
                    (weekday_index(week_start_day(week_start)) + j) % 7,
                ),
        decreases 7 - i,
    {
        out.push(day_letter_string((skip + i) % 7));
        i = i + 1;
    }
    out
}

/// What a click on a calendar day does.
#[derive(Clone, Copy, Debug, PartialEq, Eq, Structural)]
pub enum ToggleAction {
    /// The day lies in the future: nothing happens.
    Ignore,
    /// The day was completed: its mark is removed.
    Unmark,
    /// The day was not completed: it is marked.
    Mark,
}

/// The action for a click on `date`: days after `today` are ignored, a
/// completed day is unmarked and any other day is marked.
pub fn toggle_day_action(date: Date, today: Date, completed_days: &Vec<Date>) -> (r: ToggleAction)
    ensures
        date.day > today.day ==> r == ToggleAction::Ignore,
        date.day <= today.day && completed_days@.contains(date) ==> r == ToggleAction::Unmark,
        date.day <= today.day && !completed_days@.contains(date) ==> r == ToggleAction::Mark,
{
    if date.day <= today.day {
        if contains_date(completed_days, date) {
            ToggleAction::Unmark
        } else {
            ToggleAction::Mark
        }
    } else {
        ToggleAction::Ignore
    }
}

/// A stored habit reads back as written: after `create_habit(id, d)`,
/// `get_habit(id)` gives `d`, and the other habits are unchanged.
pub proof fn lemma_create_then_get(store: Map<Id, HabitModel>, id: Id, d: HabitModel, other: Id)
    ensures
        store.insert(id, d).contains_key(id),
        store.insert(id, d)[id] == d,
        other != id ==> (store.insert(id, d).contains_key(other) == store.contains_key(other)),
        other != id && store.contains_key(other) ==> store.insert(id, d)[other] == store[other],
{
}

/// After `delete_habit(id)`, `get_habit(id)` finds nothing.
pub proof fn lemma_delete_then_get(store: Map<Id, HabitModel>, id: Id)
    ensures
        !store.remove(id).contains_key(id),
{
}

/// After `mark_day(id, date)` on an existing habit the date is marked and
/// every earlier mark stays; when the date was newly added the completed days
/// come out in order, and days that were in order stay in order.
pub proof fn lemma_mark_day_marks(old: Map<Id, HabitModel>, new: Map<Id, HabitModel>, id: Id, date: Date)
    requires
        day_marked(old, new, id, date),
        old.contains_key(id),
    ensures
        new.contains_key(id),
        new[id].completed_days.contains(date),
        forall|d: Date| old[id].completed_days.contains(d) ==> #[trigger] new[id].completed_days.contains(d),
        !old[id].completed_days.contains(date) ==> sorted_by_key(new[id].completed_days),
        sorted_by_key(old[id].completed_days) ==> sorted_by_key(new[id].completed_days),
{
    if !old[id].completed_days.contains(date) {
        let input = old[id].completed_days.push(date);
        lemma_stable_sort_elements(input, new[id].completed_days);
        assert(input[input.len() - 1] == date);
        assert forall|d: Date| old[id].completed_days.contains(d) implies #[trigger] new[id].completed_days.contains(d) by {
            let k = choose|k: int| 0 <= k < old[id].completed_days.len() && old[id].completed_days[k] == d;
            assert(input[k] == d);
        }
    }
}

/// Marking a day that is already marked changes nothing.
pub proof fn lemma_mark_day_idempotent(old: Map<Id, HabitModel>, new: Map<Id, HabitModel>, id: Id, date: Date)
    requires
        day_marked(old, new, id, date),
        old.contains_key(id),
        old[id].completed_days.contains(date),
    ensures
        new == old,
{
}

/// After `unmark_day(id, date)` the date is no longer marked and every other
/// mark stays.
pub proof fn lemma_unmark_day_unmarks(h: HabitModel, date: Date)
    ensures
        !without_day(h, date).completed_days.contains(date),
        forall|d: Date| d != date && h.completed_days.contains(d) ==> #[trigger] without_day(h, date).completed_days.contains(d),
{
    broadcast use vstd::seq_lib::group_filter_ensures;
    let days = h.completed_days;
    let kept = days.filter(not_day(date));
    assert forall|d: Date| d != date && days.contains(d) implies #[trigger] kept.contains(d) by {
        let k = choose|k: int| 0 <= k < days.len() && days[k] == d;
        days.lemma_filter_contains(not_day(date), k);
    }
    if kept.contains(date) {
        let k = choose|k: int| 0 <= k < kept.len() && kept[k] == date;
        days.lemma_filter_pred(not_day(date), k);
    }
}

/// Dates ordered by day.
pub open spec fn date_leq() -> spec_fn(Date, Date) -> bool {
    |a: Date, b: Date| a.day <= b.day
}

/// Dates without `date` come through the filter unchanged.
proof fn lemma_filter_keeps_other_days(t: Seq<Date>, date: Date)
    requires
        !t.contains(date),
    ensures
        t.filter(not_day(date)) == t,
    decreases t.len(),
{
    if t.len() == 0 {
        t.lemma_filter_len(not_day(date));
        assert(t.filter(not_day(date)) =~= t);
    } else {
        let init = t.drop_last();
        let last = t.last();
        assert(init.push(last) =~= t);
        assert(!init.contains(date)) by {
            if init.contains(date) {
                let k = choose|k: int| 0 <= k < init.len() && init[k] == date;
                assert(t[k] == date);
            }
        }
        assert(last != date) by {
            if last == date {
                assert(t[t.len() - 1] == date);
            }
        }
        lemma_filter_keeps_other_days(init, date);
        init.lemma_filter_push(last, not_day(date));
    }
}

/// Sorted days without `date`, split where the days after `date` begin, with
/// `date` put in between, are sorted.
proof fn lemma_insert_sorted(days: Seq<Date>, date: Date, k: int)
    requires
        sorted_by_key(days),
        0 <= k <= days.len(),
        forall|i: int| 0 <= i < k ==> (#[trigger] days[i]).day < date.day,
        forall|i: int| k <= i < days.len() ==> (#[trigger] days[i]).day > date.day,
    ensures
        sorted_by(days.insert(k, date), date_leq()),
{
    let c = days.insert(k, date);
    let leq = date_leq();
    assert forall|i: int, j: int| 0 <= i < j < c.len() implies #[trigger] leq(c[i], c[j]) by {
        if j < k {
            assert(!days[j].key_lt(days[i]));
        } else if j == k {
        } else if i < k {
        } else if i == k {
        } else {
            assert(!days[j - 1].key_lt(days[i - 1]));
        }
    }
}

/// A stable sort by day is sorted by `date_leq`.
proof fn lemma_sorted_by_day(input: Seq<Date>, out: Seq<Date>)
    requires
        is_stable_sort_of(input, out),
    ensures
        sorted_by(out, date_leq()),
{
    lemma_stable_sort_elements(input, out);
    let leq = date_leq();
    assert forall|i: int, j: int| 0 <= i < j < out.len() implies #[trigger] leq(out[i], out[j]) by {
        assert(!out[j].key_lt(out[i]));
    }
}

/// Where the days after `date` begin in sorted days without `date`.
proof fn lemma_split_point(days: Seq<Date>, date: Date) -> (k: int)
    requires
        sorted_by_key(days),
        !days.contains(date),
    ensures
        0 <= k <= days.len(),
        forall|i: int| 0 <= i < k ==> (#[trigger] days[i]).day < date.day,
        forall|i: int| k <= i < days.len() ==> (#[trigger] days[i]).day > date.day,
{
    let later = |x: Date| x.day > date.day;
    let k = crate::timeline::first_index_from(days, later, 0);
    crate::timeline::lemma_first_index_from(days, later, 0);
    assert forall|i: int| 0 <= i < k implies (#[trigger] days[i]).day < date.day by {
        assert(!later(days[i]));
        if days[i].day == date.day {
            assert(days[i] == date);
        }
    }
    assert forall|i: int| k <= i < days.len() implies (#[trigger] days[i]).day > date.day by {
        assert(later(days[k]));
        if i > k {
            assert(!days[i].key_lt(days[k]));
        }
    }
    k
}

/// Taking `date` out of days without it, with `date` put in at `k`, gives the
/// days back.
proof fn lemma_filter_inserted(days: Seq<Date>, date: Date, k: int)
    requires
        !days.contains(date),
        0 <= k <= days.len(),
    ensures
        days.insert(k, date).filter(not_day(date)) == days,
    decreases days.len(),
{
    if k == days.len() {
        assert(days.insert(k, date) =~= days.push(date));
        days.lemma_filter_push(date, not_day(date));
        lemma_filter_keeps_other_days(days, date);
    } else {
        let init = days.drop_last();
        let last = days.last();
        assert(!init.contains(date)) by {
            if init.contains(date) {
                let i = choose|i: int| 0 <= i < init.len() && init[i] == date;
                assert(days[i] == date);
            }
        }
        assert(last != date) by {
            if last == date {
                assert(days[days.len() - 1] == date);
            }
        }
        lemma_filter_inserted(init, date, k);
        assert(days.insert(k, date) =~= init.insert(k, date).push(last));
        init.insert(k, date).lemma_filter_push(last, not_day(date));
        assert(init.push(last) =~= days);
    }
}

/// Putting a day that is not there into sorted days, sorting, and taking it
/// out again gives the days back.
proof fn lemma_sorted_insert_then_filter(days: Seq<Date>, date: Date, out: Seq<Date>)
    requires
        sorted_by_key(days),
        !days.contains(date),
        is_stable_sort_of(days.push(date), out),
    ensures
        out.filter(not_day(date)) == days,
{
    let k = lemma_split_point(days, date);
    let c = days.insert(k, date);
    let leq = date_leq();
    lemma_insert_sorted(days, date, k);
    lemma_sorted_by_day(days.push(date), out);
    assert(total_ordering(leq));
    assert(c.to_multiset() == out.to_multiset()) by {
        broadcast use vstd::seq_lib::to_multiset_build, vstd::seq_lib::to_multiset_insert;
        assert(c.to_multiset() == days.to_multiset().insert(date));
        assert(days.push(date).to_multiset() == days.to_multiset().insert(date));
    }
    vstd::seq_lib::lemma_sorted_unique(out, c, leq);
    lemma_filter_inserted(days, date, k);
}

/// Unmarking a day right after marking it leaves the store as it was, when
/// the habit's completed days were in order and the day was not marked:
/// toggling a day twice changes nothing.
pub proof fn lemma_mark_then_unmark(old: Map<Id, HabitModel>, mid: Map<Id, HabitModel>, id: Id, date: Date)
    requires
        old.contains_key(id),
        !old[id].completed_days.contains(date),
        sorted_by_key(old[id].completed_days),
        day_marked(old, mid, id, date),
    ensures
        mid.contains_key(id),
        mid.insert(id, without_day(mid[id], date)) == old,
{
    lemma_sorted_insert_then_filter(old[id].completed_days, date, mid[id].completed_days);
    let new = mid.insert(id, without_day(mid[id], date));
    assert(new[id] == old[id]);
    assert(new =~= old);
}

/// Lowercase ASCII letters are their own ASCII lowercase.
proof fn lemma_lower_letters_fixed(s: Seq<char>)
    requires
        forall|i: int| 0 <= i < s.len() ==> 'a' <= #[trigger] s[i] && s[i] <= 'z',
    ensures
        all_ascii(s),
        s.map_values(|c: char| ascii_lower(c)) == s,
{
    assert(s.map_values(|c: char| ascii_lower(c)) =~= s);
}

/// Parsing the name of a week start in any case gives the week start back:
/// `WeekStart::from_string(&w.to_string()) == w`.
pub proof fn lemma_week_start_round_trip(w: WeekStart)
    ensures
        all_ascii(week_start_name(w)),
        week_start_of_lower(week_start_name(w).map_values(|c: char| ascii_lower(c))) == w,
{
    reveal_strlit("sunday");
    reveal_strlit("monday");
    reveal_strlit("tuesday");
    reveal_strlit("wednesday");
    reveal_strlit("thursday");
    reveal_strlit("friday");
    reveal_strlit("saturday");
    let s = week_start_name(w);
    assert forall|i: int| 0 <= i < s.len() implies 'a' <= #[trigger] s[i] && s[i] <= 'z' by {
        match w {
            WeekStart::Sunday => {},
            WeekStart::Monday => {},
            WeekStart::Tuesday => {},
            WeekStart::Wednesday => {},
            WeekStart::Thursday => {},
            WeekStart::Friday => {},
            WeekStart::Saturday => {},
        }
    }
    lemma_lower_letters_fixed(s);
    lemma_week_start_name_round_trip(w);
}

} // verus!
