//! Editing the legend of a timeline: the item being edited, saving and
//! deleting it, checking its date and color, and the item that "Add New Item"
//! starts with.
use crate::dates::{format_ymd, parse_ymd, parsed_ymd, today, year_month_day, calendar_fields, Date};
use crate::ids::{new_v4_id, Id};
use crate::sort::{is_stable_sort_of, sorted_by_key, stable_sort};
use crate::text::{
    decimal, decimal2, lex_lt, signed_decimal, signed_to_string, str_equals, str_less,
    two_digit_string,
};
use crate::timeline::{
    duplicate_periods, find_period, first_index_from, lemma_first_index_from, period_index, periods_same_except,
    periods_view, same_header, same_period_header, timeline_ids_filled, all_ids_present, LegendItem,
    LifePeriod, LifePeriodEvent, PeriodModel, Yaml, event_index, find_event,
};
use vstd::prelude::*;

verus! {

/// `c` is an ASCII hexadecimal digit.
pub open spec fn is_hex_digit(c: char) -> bool {
    (48 <= c as int && c as int <= 57) || (97 <= c as int && c as int <= 102) || (65 <= c as int
        && c as int <= 70)
}

/// `#` followed by exactly six hexadecimal digits.
pub open spec fn valid_hex_color(s: Seq<char>) -> bool {
    &&& s.len() == 7
    &&& s[0] == '#'
    &&& forall|i: int| 1 <= i < 7 ==> is_hex_digit(#[trigger] s[i])
}

fn hex_digit(c: char) -> (r: bool)
    ensures
        r == is_hex_digit(c),
{
    ('0' <= c && c <= '9') || ('a' <= c && c <= 'f') || ('A' <= c && c <= 'F')
}

/// `#RRGGBB` with hexadecimal digits: a byte length of 7, a leading `#` and
/// ASCII hexadecimal digits after it, which is the same as seven characters
/// of this form.
pub fn is_valid_hex_color(color: &str) -> (r: bool)
    ensures
        r == valid_hex_color(color@),
{
    let n = color.unicode_len();
    if n != 7 {
        return false;
    }
    if color.get_char(0) != '#' {
        return false;
    }
    let mut i: usize = 1;
    while i < 7
        invariant
            n == 7,
            color@.len() == 7,
            1 <= i <= 7,
            forall|j: int| 1 <= j < i ==> is_hex_digit(#[trigger] color@[j]),
        decreases 7 - i,
    {
        if !hex_digit(color.get_char(i)) {
            return false;
        }
        i = i + 1;
    }
    true
}

/// The color shown in the preview square: the typed color when it is valid,
/// else the item's color, else black.
pub fn color_preview(color_input: &str, item: &Option<LegendItem>) -> (r: String)
    ensures
        r@ == (if valid_hex_color(color_input@) {
            color_input@
        } else {
            match item {
                Some(it) => it.color@,
                None => "#000000"@,
            }
        }),
{
    if is_valid_hex_color(color_input) {
        String::from_str(color_input)
    } else {
        match item {
            Some(it) => it.color.clone(),
            None => String::from_str("#000000"),
        }
    }
}

/// What chrono gives for `"{start}-01"` parsed as `%Y-%m-%d`: the first day
/// of a `YYYY-MM` month.
pub open spec fn parsed_month(start: Seq<char>) -> Option<Date> {
    parsed_ymd(start + "-01"@)
}

/// `NaiveDate::parse_from_str(&format!("{}-01", start), "%Y-%m-%d").ok()`.
pub fn parse_month_start(start: &str) -> (r: Option<Date>)
    ensures
        r == parsed_month(start@),
        r matches Some(d) ==> d.is_valid(),
{
    let mut s = String::from_str(start);
    s.append("-01");
    parse_ymd(s.as_str())
}

/// The text is a `YYYY-MM` month.
pub fn is_valid_date(date_str: &str) -> (r: bool)
    ensures
        r == (parsed_month(date_str@) is Some),
{
    parse_month_start(date_str).is_some()
}

/// Day number of `NaiveDate::default()` (January 1, 1970).
pub const EPOCH_DAY: i32 = 719163i32;

/// The first day of a month, or `NaiveDate::default()` when it does not parse.
pub open spec fn month_or_epoch(start: Seq<char>) -> Date {
    match parsed_month(start) {
        Some(d) => d,
        None => Date { day: EPOCH_DAY },
    }
}

/// The predicate "starts after `start`" used to find the next period.
pub open spec fn starts_after(start: Seq<char>) -> spec_fn(PeriodModel) -> bool {
    |p: PeriodModel| lex_lt(start, p.start)
}

/// Index of the first period whose start comes after `start` (compared as
/// text), or the number of periods.
pub open spec fn next_period_index(ps: Seq<PeriodModel>, start: Seq<char>) -> int {
    first_index_from(ps, starts_after(start), 0)
}

/// Position of the first period whose start comes after `start`.
pub fn find_next_period(periods: &Vec<LifePeriod>, start: &str) -> (r: usize)
    ensures
        r == next_period_index(periods_view(periods@), start@),
{
    let ghost v = periods_view(periods@);
    let mut i: usize = 0;
    while i < periods.len() && !str_less(start, periods[i].start.as_str())
        invariant
            i <= periods.len(),
            v == periods_view(periods@),
            forall|j: int| 0 <= j < i ==> !starts_after(start@)(#[trigger] v[j]),
        decreases periods.len() - i,
    {
        i = i + 1;
    }
    proof {
        lemma_first_index_from(v, starts_after(start@), 0);
        let f = next_period_index(v, start@);
        if f < i {
            assert(!starts_after(start@)(v[f]));
        }
        if (i as int) < f {
            assert(!starts_after(start@)(v[i as int]));
        }
    }
    i
}

/// The dates an event of the selected period may take: from the first day of
/// the period to the first day of the next period (or today).
pub open spec fn event_bounds_spec(
    ps: Seq<PeriodModel>,
    item: Option<LegendItem>,
    selected: Option<Id>,
    today: Date,
) -> (Option<Date>, Option<Date>) {
    match item {
        Some(it) => if it.is_event {
            let idx = period_index(ps, selected);
            if idx < ps.len() {
                let start = ps[idx].start;
                let next = next_period_index(ps, start);
                let end = if next < ps.len() {
                    month_or_epoch(ps[next].start)
                } else {
                    today
                };
                (Some(month_or_epoch(start)), Some(end))
            } else {
                (None, None)
            }
        } else {
            (None, None)
        },
        None => (None, None),
    }
}

/// The range of dates allowed for the edited event of the legend editor;
/// `today` stands for the current local date.
pub fn event_date_bounds(
    yaml: &Yaml,
    item: &Option<LegendItem>,
    selected_life_period: Option<Id>,
    today: Date,
) -> (r: (Option<Date>, Option<Date>))
    requires
        (item matches Some(it) && it.is_event) ==> selected_life_period is Some,
    ensures
        r == event_bounds_spec(yaml@.periods, *item, selected_life_period, today),
{
    match item {
        Some(it) => {
            if it.is_event {
                let sel = match selected_life_period {
                    Some(s) => s,
                    None => { return (None, None); },
                };
                let idx = find_period(&yaml.life_periods, Some(sel));
                if idx < yaml.life_periods.len() {
                    let start = &yaml.life_periods[idx].start;
                    let period_start = match parse_month_start(start.as_str()) {
                        Some(d) => d,
                        None => Date { day: EPOCH_DAY },
                    };
                    let next = find_next_period(&yaml.life_periods, start.as_str());
                    let period_end = if next < yaml.life_periods.len() {
                        match parse_month_start(yaml.life_periods[next].start.as_str()) {
                            Some(d) => d,
                            None => Date { day: EPOCH_DAY },
                        }
                    } else {
                        today
                    };
                    (Some(period_start), Some(period_end))
                } else {
                    (None, None)
                }
            } else {
                (None, None)
            }
        },
        None => (None, None),
    }
}

/// `event_date_bounds` at the current local date.
pub fn event_date_bounds_now(
    yaml: &Yaml,
    item: &Option<LegendItem>,
    selected_life_period: Option<Id>,
) -> (r: (Option<Date>, Option<Date>))
    requires
        (item matches Some(it) && it.is_event) ==> selected_life_period is Some,
    ensures
        exists|t: Date| t.is_valid() && r == event_bounds_spec(yaml@.periods, *item, selected_life_period, t),
{
    let t = today();
    event_date_bounds(yaml, item, selected_life_period, t)
}


/// The updates queued by saving an item, for the timeline store: a period to
/// update or add, or an event to update or add in a period.
pub struct PendingUpdate {
    pub period: Option<LifePeriod>,
    pub event: Option<(Id, LifePeriodEvent)>,
}

/// The event that saving `item` writes.
pub open spec fn item_event(item: LegendItem) -> LifePeriodEvent {
    LifePeriodEvent { name: item.name, color: item.color, start: item.start, id: Some(item.id) }
}

/// The period that saving `item` writes, keeping `events`.
pub open spec fn item_period(item: LegendItem, events: Seq<LifePeriodEvent>) -> PeriodModel {
    PeriodModel {
        name: item.name@,
        start: item.start@,
        color: item.color@,
        events,
        id: Some(item.id),
    }
}

/// Saving an event item into `old`: the timeline that results and the
/// queued update, when the selected period exists.
pub open spec fn saved_event(old: Yaml, new: Yaml, pending: Option<PendingUpdate>, item: LegendItem, sel: Id) -> bool {
    let ps = old@.periods;
    let idx = period_index(ps, Some(sel));
    if idx < ps.len() {
        let evs = ps[idx].events;
        let k = event_index(evs, Some(item.id));
        &&& same_header(old@, new@)
        &&& periods_same_except(ps, new@.periods, idx)
        &&& same_period_header(ps[idx], new@.periods[idx])
        &&& is_stable_sort_of(
            if k < evs.len() { evs.update(k, item_event(item)) } else { evs.push(item_event(item)) },
            new@.periods[idx].events,
        )
        &&& (pending matches Some(pu) && pu.period is None && pu.event == Some((sel, item_event(item))))
    } else {
        new@ == old@ && pending is None
    }
}

/// `p` written over position `idx` of `s`, or added at its end when `idx` is
/// past the end.
pub open spec fn period_written(s: Seq<LifePeriod>, idx: int, p: LifePeriod) -> Seq<LifePeriod> {
    if idx < s.len() {
        s.update(idx, p)
    } else {
        s.push(p)
    }
}

/// Saving a period item into `old`.
pub open spec fn saved_period(old: Yaml, new: Yaml, pending: Option<PendingUpdate>, item: LegendItem) -> bool {
    let ps = old@.periods;
    let idx = period_index(ps, Some(item.id));
    let model = item_period(item, if idx < ps.len() { ps[idx].events } else { Seq::empty() });
    &&& same_header(old@, new@)
    &&& exists|p: LifePeriod|
        #![trigger period_written(old.life_periods@, idx, p)]
        p@ == model && is_stable_sort_of(period_written(old.life_periods@, idx, p), new.life_periods@)
    &&& (pending matches Some(pu) && pu.event is None && (pu.period matches Some(pp) && pp@ == model))
}

/// Saving a period item whose id the timeline already has keeps that
/// period's events: the saved timeline holds, among as many periods as
/// before, a period with the item's name, start, color and id and exactly the
/// events the old period had; the queued update carries that same period; and
/// every other period is still there.
pub proof fn lemma_saving_period_keeps_events(
    old: Yaml,
    new: Yaml,
    pending: Option<PendingUpdate>,
    item: LegendItem,
)
    requires
        saved_period(old, new, pending, item),
        period_index(old@.periods, Some(item.id)) < old@.periods.len(),
    ensures
        ({
            let idx = period_index(old@.periods, Some(item.id));
            let evs = old@.periods[idx].events;
            &&& new@.periods.len() == old@.periods.len()
            &&& exists|j: int|
                0 <= j < new@.periods.len() && (#[trigger] new@.periods[j]).events == evs
                    && new@.periods[j].name == item.name@ && new@.periods[j].start == item.start@
                    && new@.periods[j].color == item.color@ && new@.periods[j].id == Some(item.id)
            &&& pending is Some && pending->0.period is Some
            &&& ({
                let pp = pending->0.period->0;
                &&& pp@.events == evs
                &&& pp@.name == item.name@
                &&& pp@.start == item.start@
                &&& pp@.color == item.color@
                &&& pp@.id == Some(item.id)
            })
            &&& forall|j: int|
                0 <= j < old@.periods.len() && j != idx ==> new@.periods.contains(#[trigger] old@.periods[j])
        }),
{
    let ps = old@.periods;
    let idx = period_index(ps, Some(item.id));
    let model = item_period(item, ps[idx].events);
    let p = choose|p: LifePeriod|
        #![trigger period_written(old.life_periods@, idx, p)]
        p@ == model && is_stable_sort_of(period_written(old.life_periods@, idx, p), new.life_periods@);
    crate::timeline::lemma_period_index(ps, Some(item.id));
    assert(ps.len() == old.life_periods@.len());
    let input = period_written(old.life_periods@, idx, p);
    assert(input == old.life_periods@.update(idx, p));
    assert(new@.periods.len() == new.life_periods@.len());
    crate::sort::lemma_stable_sort_elements(input, new.life_periods@);
    assert(new.life_periods@.contains(input[idx]));
    let j = choose|j: int| 0 <= j < new.life_periods@.len() && new.life_periods@[j] == input[idx];
    assert(new@.periods[j] == new.life_periods@[j]@);
    assert forall|m: int| 0 <= m < ps.len() && m != idx implies new@.periods.contains(#[trigger] ps[m]) by {
        assert(input[m] == old.life_periods@[m]);
        assert(new.life_periods@.contains(input[m]));
        let q = choose|q: int| 0 <= q < new.life_periods@.len() && new.life_periods@[q] == input[m];
        assert(new@.periods[q] == new.life_periods@[q]@);
        assert(ps[m] == old.life_periods@[m]@);
    }
}

/// Saving a period item whose id the timeline does not have adds it: the
/// saved timeline has one period more, holds a period with the item's name,
/// start, color and id and no events, keeps every old period, and is sorted
/// by start; the queued update carries that new period.
pub proof fn lemma_saving_new_period_adds_it(
    old: Yaml,
    new: Yaml,
    pending: Option<PendingUpdate>,
    item: LegendItem,
)
    requires
        saved_period(old, new, pending, item),
        period_index(old@.periods, Some(item.id)) >= old@.periods.len(),
    ensures
        new@.periods.len() == old@.periods.len() + 1,
        exists|j: int|
            0 <= j < new@.periods.len() && (#[trigger] new@.periods[j]).events.len() == 0
                && new@.periods[j].name == item.name@ && new@.periods[j].start == item.start@
                && new@.periods[j].color == item.color@ && new@.periods[j].id == Some(item.id),
        forall|j: int| 0 <= j < old@.periods.len() ==> new@.periods.contains(#[trigger] old@.periods[j]),
        sorted_by_key(new.life_periods@),
        pending is Some && pending->0.event is None && pending->0.period is Some,
        pending->0.period->0@.events.len() == 0,
        pending->0.period->0@.name == item.name@,
        pending->0.period->0@.start == item.start@,
        pending->0.period->0@.color == item.color@,
        pending->0.period->0@.id == Some(item.id),
{
    let ps = old@.periods;
    let idx = period_index(ps, Some(item.id));
    let model = item_period(item, Seq::empty());
    let p = choose|p: LifePeriod|
        #![trigger period_written(old.life_periods@, idx, p)]
        p@ == model && is_stable_sort_of(period_written(old.life_periods@, idx, p), new.life_periods@);
    crate::timeline::lemma_period_index(ps, Some(item.id));
    assert(ps.len() == old.life_periods@.len());
    let input = period_written(old.life_periods@, idx, p);
    assert(input == old.life_periods@.push(p));
    assert(new@.periods.len() == new.life_periods@.len());
    crate::sort::lemma_stable_sort_elements(input, new.life_periods@);
    let n = old.life_periods@.len() as int;
    assert(input[n] == p);
    assert(new.life_periods@.contains(input[n]));
    let j = choose|j: int| 0 <= j < new.life_periods@.len() && new.life_periods@[j] == input[n];
    assert(new@.periods[j] == new.life_periods@[j]@);
    assert forall|m: int| 0 <= m < ps.len() implies new@.periods.contains(#[trigger] ps[m]) by {
        assert(input[m] == old.life_periods@[m]);
        assert(new.life_periods@.contains(input[m]));
        let q = choose|q: int| 0 <= q < new.life_periods@.len() && new.life_periods@[q] == input[m];
        assert(new@.periods[q] == new.life_periods@[q]@);
        assert(ps[m] == old.life_periods@[m]@);
    }
}

/// Saving an event item into an existing selected period writes the item
/// into that period: the period keeps its place, name, start, color and id;
/// it holds an event with the item's name, color, start and id; an event with
/// the item's id is replaced (one event fewer to count) and otherwise one is
/// added; every event with another id is still there; and the queued update
/// carries the item as an event of the selected period.
pub proof fn lemma_saving_event_holds_item(
    old: Yaml,
    new: Yaml,
    pending: Option<PendingUpdate>,
    item: LegendItem,
    sel: Id,
)
    requires
        saved_event(old, new, pending, item, sel),
        period_index(old@.periods, Some(sel)) < old@.periods.len(),
    ensures
        ({
            let idx = period_index(old@.periods, Some(sel));
            let evs = old@.periods[idx].events;
            let nevs = new@.periods[idx].events;
            &&& new@.periods.len() == old@.periods.len()
            &&& same_period_header(old@.periods[idx], new@.periods[idx])
            &&& exists|k: int|
                0 <= k < nevs.len() && (#[trigger] nevs[k]).name@ == item.name@ && nevs[k].color@
                    == item.color@ && nevs[k].start@ == item.start@ && nevs[k].id == Some(item.id)
            &&& nevs.len() == (if exists|m: int| 0 <= m < evs.len() && (#[trigger] evs[m]).id == Some(item.id) {
                evs.len() as int
            } else {
                evs.len() + 1int
            })
            &&& forall|m: int|
                0 <= m < evs.len() && (#[trigger] evs[m]).id != Some(item.id) ==> nevs.contains(evs[m])
            &&& pending is Some && pending->0.period is None && pending->0.event is Some
            &&& ({
                let ev = pending->0.event->0;
                &&& ev.0 == sel
                &&& ev.1.name@ == item.name@
                &&& ev.1.color@ == item.color@
                &&& ev.1.start@ == item.start@
                &&& ev.1.id == Some(item.id)
            })
        }),
{
    let ps = old@.periods;
    let idx = period_index(ps, Some(sel));
    let evs = ps[idx].events;
    let k = event_index(evs, Some(item.id));
    crate::timeline::lemma_event_index(evs, Some(item.id));
    let input = if k < evs.len() { evs.update(k, item_event(item)) } else { evs.push(item_event(item)) };
    let nevs = new@.periods[idx].events;
    crate::sort::lemma_stable_sort_elements(input, nevs);
    assert(nevs.contains(input[k]));
    assert(input[k] == item_event(item));
    if k < evs.len() {
        assert(exists|m: int| 0 <= m < evs.len() && (#[trigger] evs[m]).id == Some(item.id)) by {
            assert(evs[k].id == Some(item.id));
        }
    } else {
        assert(!exists|m: int| 0 <= m < evs.len() && (#[trigger] evs[m]).id == Some(item.id));
    }
    assert forall|m: int| 0 <= m < evs.len() && (#[trigger] evs[m]).id != Some(item.id) implies nevs.contains(
        evs[m],
    ) by {
        assert(m != k);
        assert(input[m] == evs[m]);
        assert(nevs.contains(input[m]));
    }
}

/// Saves the edited legend item into the timeline (the Save button of the
/// legend editor): an event goes into the selected period, a period into the
/// timeline, each list re-sorted by start. Returns the new timeline and the
/// update to queue for the store (none when the selected period is missing).
pub fn apply_legend_item(yaml: Yaml, item: &LegendItem, selected_life_period: Option<Id>) -> (r: (
    Yaml,
    Option<PendingUpdate>,
))
    requires
        item.is_event ==> selected_life_period is Some,
    ensures
        item.is_event ==> saved_event(yaml, r.0, r.1, *item, selected_life_period->0),
        !item.is_event ==> saved_period(yaml, r.0, r.1, *item),
        // An existing period keeps its events when its item is saved.
        !item.is_event && period_index(yaml@.periods, Some(item.id)) < yaml@.periods.len() ==> exists|j: int|
            0 <= j < r.0@.periods.len() && (#[trigger] r.0@.periods[j]).events
                == yaml@.periods[period_index(yaml@.periods, Some(item.id))].events
                && r.0@.periods[j].name == item.name@ && r.0@.periods[j].start == item.start@
                && r.0@.periods[j].color == item.color@ && r.0@.periods[j].id == Some(item.id),
        // A period item with a new id is added, with no events.
        !item.is_event && period_index(yaml@.periods, Some(item.id)) >= yaml@.periods.len() ==> r.0@.periods.len()
            == yaml@.periods.len() + 1 && exists|j: int|
            0 <= j < r.0@.periods.len() && (#[trigger] r.0@.periods[j]).events.len() == 0
                && r.0@.periods[j].name == item.name@ && r.0@.periods[j].start == item.start@
                && r.0@.periods[j].color == item.color@ && r.0@.periods[j].id == Some(item.id),
        // A saved event appears, as the item gives it, in the selected period.
        item.is_event && period_index(yaml@.periods, Some(selected_life_period->0)) < yaml@.periods.len()
            ==> exists|k: int|
            0 <= k < r.0@.periods[period_index(yaml@.periods, Some(selected_life_period->0))].events.len()
                && (#[trigger] r.0@.periods[period_index(yaml@.periods, Some(selected_life_period->0))].events[k]).name@
                == item.name@
                && r.0@.periods[period_index(yaml@.periods, Some(selected_life_period->0))].events[k].color@
                == item.color@
                && r.0@.periods[period_index(yaml@.periods, Some(selected_life_period->0))].events[k].start@
                == item.start@
                && r.0@.periods[period_index(yaml@.periods, Some(selected_life_period->0))].events[k].id
                == Some(item.id),
{
    let mut y = yaml;
    if item.is_event {
        let sel = match selected_life_period {
            Some(s) => s,
            None => { return (y, None); },
        };
        let idx = find_period(&y.life_periods, Some(sel));
        if idx < y.life_periods.len() {
            let k = find_event(&y.life_periods[idx].events, Some(item.id));
            let ev = LifePeriodEvent {
                name: item.name.clone(),
                color: item.color.clone(),
                start: item.start.clone(),
                id: Some(item.id),
            };
            let queued = ev.duplicate();
            if k < y.life_periods[idx].events.len() {
                y.life_periods[idx].replace_event_sorted(k, ev);
            } else {
                y.life_periods[idx].push_event_sorted(ev);
            }
            let r = (y, Some(PendingUpdate { period: None, event: Some((sel, queued)) }));
            proof {
                assert(saved_event(yaml, r.0, r.1, *item, sel));
                lemma_saving_event_holds_item(yaml, r.0, r.1, *item, sel);
            }
            r
        } else {
            (y, None)
        }
    } else {
        let ghost old_periods = y.life_periods@;
        let idx = find_period(&y.life_periods, Some(item.id));
        let mut ps: Vec<LifePeriod> = Vec::new();
        std::mem::swap(&mut ps, &mut y.life_periods);
        let queued;
        let ghost written: LifePeriod;
        if idx < ps.len() {
            ps[idx].name = item.name.clone();
            ps[idx].start = item.start.clone();
            ps[idx].color = item.color.clone();
            queued = ps[idx].duplicate();
            proof {
                written = ps@[idx as int];
                crate::timeline::lemma_period_index(periods_view(old_periods), Some(item.id));
                assert(ps@ =~= old_periods.update(idx as int, written));
                assert(written@ == item_period(*item, periods_view(old_periods)[idx as int].events));
            }
        } else {
            let p = LifePeriod {
                name: item.name.clone(),
                start: item.start.clone(),
                color: item.color.clone(),
                events: Vec::new(),
                id: Some(item.id),
            };
            queued = p.duplicate();
            proof {
                written = p;
                assert(p.events@ =~= Seq::<LifePeriodEvent>::empty());
            }
            ps.push(p);
        }
        let ghost pre_sort = ps@;
        y.life_periods = stable_sort(ps);
        proof {
            let pv = periods_view(old_periods);
            let model = item_period(*item, if idx < pv.len() { pv[idx as int].events } else { Seq::empty() });
            assert(written@ == model);
            assert(pre_sort == (if idx < pv.len() { old_periods.update(idx as int, written) } else { old_periods.push(written) }));
            assert(is_stable_sort_of(pre_sort, y.life_periods@));
            assert(same_header(yaml@, y@));
            assert(queued@ == model);
        }
        let r = (y, Some(PendingUpdate { period: Some(queued), event: None }));
        proof {
            let pv = periods_view(old_periods);
            let model = item_period(*item, if idx < pv.len() { pv[idx as int].events } else { Seq::empty() });
            assert(old_periods == yaml.life_periods@);
            assert(period_written(yaml.life_periods@, idx as int, written) == pre_sort);
            assert(saved_period(yaml, r.0, r.1, *item));
            if idx < pv.len() {
                lemma_saving_period_keeps_events(yaml, r.0, r.1, *item);
            } else {
                lemma_saving_new_period_adds_it(yaml, r.0, r.1, *item);
            }
        }
        r
    }
}


/// Sends the queued update to the timeline store as the legend editor's
/// effect does: the period is updated (or added when it has no id), the
/// event is updated (or added), and then the store takes the whole edited
/// timeline `yaml_state`.
pub fn apply_pending_update(store: &mut Yaml, pending: PendingUpdate, yaml_state: &Yaml)
    ensures
        timeline_ids_filled(yaml_state@, final(store)@),
        all_ids_present(final(store)@),
{
    match pending.period {
        Some(period) => {
            if period.id.is_some() {
                store.update_life_period(period);
            } else {
                store.add_life_period(period);
            }
        },
        None => {},
    }
    match pending.event {
        Some((period_id, event)) => {
            if event.id.is_some() {
                store.update_event(period_id, event);
            } else {
                store.add_event(period_id, event);
            }
        },
        None => {},
    }
    store.update_timeline(yaml_state);
}

/// Deletes the edited item (the Delete button of the legend editor): an
/// event is removed from the selected period, a period from the timeline.
/// The same change is made to the timeline store.
pub fn delete_legend_item(yaml: &mut Yaml, item: &LegendItem, selected_life_period: Option<Id>)
    requires
        item.is_event ==> selected_life_period is Some,
    ensures
        item.is_event ==> crate::timeline::event_deleted(*old(yaml), *final(yaml), selected_life_period->0, item.id),
        !item.is_event ==> crate::timeline::period_deleted(*old(yaml), *final(yaml), item.id),
{
    if item.is_event {
        match selected_life_period {
            Some(sel) => yaml.delete_event(sel, item.id),
            None => {},
        }
    } else {
        yaml.delete_life_period(item.id);
    }
}

/// Outcome of typing a start date into the legend editor.
pub enum DateCheck {
    /// The date is taken as the item's start.
    Accepted,
    /// The event date lies outside the period; the message to show.
    OutOfRange(String),
    /// The text is not a date of the expected form.
    InvalidFormat,
    /// An event date with no known period range: nothing changes.
    Unchanged,
}

/// The message shown for an event date outside `[min, max)`.
pub open spec fn out_of_range_message(min: Date, max: Date) -> Seq<char> {
    "Date must be between "@ + crate::dates::ymd_text(min.day as int) + " and "@
        + crate::dates::ymd_text(max.day as int)
}

/// Checks a date typed for the edited item of the legend editor. `format_ok` is the verdict of the date-format check on the text;
/// an event date must then lie in `[min, max)` of `bounds`.
pub fn check_item_date(
    new_date: &str,
    format_ok: bool,
    is_event: bool,
    bounds: (Option<Date>, Option<Date>),
) -> (r: DateCheck)
    requires
        format_ok && is_event && bounds.0 is Some && bounds.1 is Some ==> parsed_ymd(new_date@) is Some,
        bounds.0 matches Some(d) ==> d.is_valid(),
        bounds.1 matches Some(d) ==> d.is_valid(),
    ensures
        !format_ok ==> r is InvalidFormat,
        format_ok && !is_event ==> r is Accepted,
        format_ok && is_event ==> match bounds {
            (Some(min), Some(max)) => {
                let d = parsed_ymd(new_date@)->0;
                if min.day <= d.day && d.day < max.day {
                    r is Accepted
                } else {
                    r matches DateCheck::OutOfRange(m) && m@ == out_of_range_message(min, max)
                }
            },
            _ => r is Unchanged,
        },
{
    if !format_ok {
        return DateCheck::InvalidFormat;
    }
    if !is_event {
        return DateCheck::Accepted;
    }
    match bounds {
        (Some(min), Some(max)) => {
            match parse_ymd(new_date) {
                Some(d) => {
                    if min.day <= d.day && d.day < max.day {
                        DateCheck::Accepted
                    } else {
                        let mut m = String::from_str("Date must be between ");
                        let a = format_ymd(min);
                        m.append(a.as_str());
                        m.append(" and ");
                        let b = format_ymd(max);
                        m.append(b.as_str());
                        DateCheck::OutOfRange(m)
                    }
                },
                None => DateCheck::InvalidFormat,
            }
        },
        _ => DateCheck::Unchanged,
    }
}

/// `check_item_date`, or `None` for an event date that passed the format
/// check and has a range but does not parse as `%Y-%m-%d`, which
/// `check_item_date` does not accept.
pub fn try_check_item_date(
    new_date: &str,
    format_ok: bool,
    is_event: bool,
    bounds: (Option<Date>, Option<Date>),
) -> (r: Option<DateCheck>)
    requires
        bounds.0 matches Some(d) ==> d.is_valid(),
        bounds.1 matches Some(d) ==> d.is_valid(),
    ensures
        (format_ok && is_event && bounds.0 is Some && bounds.1 is Some && parsed_ymd(new_date@) is None)
            <==> r is None,
        r matches Some(c) ==> {
            &&& !format_ok ==> c is InvalidFormat
            &&& format_ok && !is_event ==> c is Accepted
            &&& format_ok && is_event ==> match bounds {
                (Some(min), Some(max)) => {
                    let d = parsed_ymd(new_date@)->0;
                    if min.day <= d.day && d.day < max.day {
                        c is Accepted
                    } else {
                        c matches DateCheck::OutOfRange(m) && m@ == out_of_range_message(min, max)
                    }
                },
                _ => c is Unchanged,
            }
        },
{
    if format_ok && is_event && bounds.0.is_some() && bounds.1.is_some() {
        if parse_ymd(new_date).is_none() {
            return None;
        }
    }
    Some(check_item_date(new_date, format_ok, is_event, bounds))
}

/// The start that "Add New Item" proposes: the current month (`YYYY-MM`) in
/// the lifetime view; in the event view the first day of the selected
/// period, or else the current day (`YYYY-MM-DD`).
pub open spec fn new_item_start(
    is_lifetime: bool,
    ps: Seq<PeriodModel>,
    selected: Option<Id>,
    now: Date,
) -> Seq<char> {
    let (y, m, d) = calendar_fields(now.day as int);
    if is_lifetime {
        signed_decimal(y as int) + "-"@ + decimal2(m as nat)
    } else {
        let idx = period_index(ps, selected);
        if selected is Some && idx < ps.len() {
            ps[idx].start + "-01"@
        } else {
            signed_decimal(y as int) + "-"@ + decimal2(m as nat) + "-"@ + decimal2(d as nat)
        }
    }
}

/// The item that "Add New Item" opens in the editor, with its start: a "New
/// Period" in the lifetime view, a "New Event" otherwise, colored `#6495ED`.
pub fn new_legend_item(
    view: &str,
    selected_life_period: Option<Id>,
    yaml: &Yaml,
    now: Date,
    id: Id,
) -> (r: (LegendItem, String))
    requires
        now.is_valid(),
    ensures
        r.0.id == id,
        r.0.is_event == (view@ != "Lifetime"@),
        r.0.name@ == (if view@ == "Lifetime"@ { "New Period"@ } else { "New Event"@ }),
        r.0.color@ == "#6495ED"@,
        r.0.start@ == r.1@,
        r.1@ == new_item_start(view@ == "Lifetime"@, yaml@.periods, selected_life_period, now),
{
    let is_lifetime = str_equals(view, "Lifetime");
    let (y, m, d) = year_month_day(now);
    let start = if is_lifetime {
        let mut s = signed_to_string(y as i64);
        s.append("-");
        let mm = two_digit_string(m as u64);
        s.append(mm.as_str());
        s
    } else {
        let idx = match selected_life_period {
            Some(sel) => find_period(&yaml.life_periods, Some(sel)),
            None => yaml.life_periods.len(),
        };
        if selected_life_period.is_some() && idx < yaml.life_periods.len() {
            let mut s = yaml.life_periods[idx].start.clone();
            s.append("-01");
            s
        } else {
            let mut s = signed_to_string(y as i64);
            s.append("-");
            let mm = two_digit_string(m as u64);
            s.append(mm.as_str());
            s.append("-");
            let dd = two_digit_string(d as u64);
            s.append(dd.as_str());
            s
        }
    };
    let item = LegendItem {
        id,
        name: if is_lifetime { String::from_str("New Period") } else { String::from_str("New Event") },
        start: start.clone(),
        color: String::from_str("#6495ED"),
        is_event: !is_lifetime,
    };
    (item, start)
}

/// "Add New Item": the new item for the current local date with a fresh id.
/// Which date that is, and the id, come from the clock and the random source;
/// the name, color, kind and how the start is formed from the date do not.
pub fn add_new_item(view: &str, selected_life_period: Option<Id>, yaml: &Yaml) -> (r: (LegendItem, String))
    ensures
        r.0.is_event == (view@ != "Lifetime"@),
        r.0.name@ == (if view@ == "Lifetime"@ { "New Period"@ } else { "New Event"@ }),
        r.0.color@ == "#6495ED"@,
        r.0.start@ == r.1@,
        exists|now: Date|
            now.is_valid() && r.1@ == new_item_start(view@ == "Lifetime"@, yaml@.periods, selected_life_period, now),
{
    let now = today();
    let id = new_v4_id();
    new_legend_item(view, selected_life_period, yaml, now, id)
}

/// One row of the legend: its text, its color, and the item a click on it
/// selects.
#[derive(Clone, Debug)]
pub struct LegendRow {
    pub label: String,
    pub color: String,
    pub item: LegendItem,
}

/// The id an item takes from an optional id: the id itself, or the nil id 0
/// for a period or event that has none (none is left once ids are filled in).
pub open spec fn id_or_nil(id: Option<Id>) -> Id {
    match id {
        Some(i) => i,
        None => 0,
    }
}

/// The row of a period: "<name> (from <start>)" in the period's color,
/// selecting the period.
pub open spec fn is_period_row(row: LegendRow, p: PeriodModel) -> bool {
    &&& row.label@ == p.name + " (from "@ + p.start + ")"@
    &&& row.color@ == p.color
    &&& row.item.id == id_or_nil(p.id)
    &&& row.item.name@ == p.name
    &&& row.item.start@ == p.start
    &&& row.item.color@ == p.color
    &&& !row.item.is_event
}

/// The row of an event: "<name> (<start>)" in the event's color, selecting
/// the event.
pub open spec fn is_event_row(row: LegendRow, e: LifePeriodEvent) -> bool {
    &&& row.label@ == e.name@ + " ("@ + e.start@ + ")"@
    &&& row.color@ == e.color@
    &&& row.item.id == id_or_nil(e.id)
    &&& row.item.name@ == e.name@
    &&& row.item.start@ == e.start@
    &&& row.item.color@ == e.color@
    &&& row.item.is_event
}

fn period_row(p: &LifePeriod) -> (r: LegendRow)
    ensures
        is_period_row(r, p@),
{
    let mut label = p.name.clone();
    label.append(" (from ");
    label.append(p.start.as_str());
    label.append(")");
    let id = match p.id {
        Some(i) => i,
        None => 0,
    };
    let item = LegendItem {
        id,
        name: p.name.clone(),
        start: p.start.clone(),
        color: p.color.clone(),
        is_event: false,
    };
    LegendRow { label, color: p.color.clone(), item }
}

fn event_row(e: &LifePeriodEvent) -> (r: LegendRow)
    ensures
        is_event_row(r, *e),
{
    let mut label = e.name.clone();
    label.append(" (");
    label.append(e.start.as_str());
    label.append(")");
    let id = match e.id {
        Some(i) => i,
        None => 0,
    };
    let item = LegendItem {
        id,
        name: e.name.clone(),
        start: e.start.clone(),
        color: e.color.clone(),
        is_event: true,
    };
    LegendRow { label, color: e.color.clone(), item }
}

/// The rows of the legend: in the lifetime view the periods
/// sorted by start, in the event view the events of the selected period in
/// their order, and nothing otherwise.
pub fn legend_rows(yaml: &Yaml, view: &str, selected_life_period: Option<Id>) -> (r: Vec<LegendRow>)
    ensures
        view@ == "Lifetime"@ ==> exists|copy: Seq<LifePeriod>, sorted: Seq<LifePeriod>|
            {
                &&& periods_view(copy) == yaml@.periods
                &&& is_stable_sort_of(copy, sorted)
                &&& r@.len() == sorted.len()
                &&& forall|i: int| 0 <= i < sorted.len() ==> is_period_row(#[trigger] r@[i], sorted[i]@)
            },
        view@ == "EventView"@ ==> match selected_life_period {
            Some(pid) => {
                let ps = yaml@.periods;
                let idx = period_index(ps, Some(pid));
                if idx < ps.len() {
                    &&& r@.len() == ps[idx].events.len()
                    &&& forall|i: int|
                        0 <= i < r@.len() ==> is_event_row(#[trigger] r@[i], ps[idx].events[i])
                } else {
                    r@.len() == 0
                }
            },
            None => r@.len() == 0,
        },
        view@ != "Lifetime"@ && view@ != "EventView"@ ==> r@.len() == 0,
{
    let mut rows: Vec<LegendRow> = Vec::new();
    proof {
        reveal_strlit("Lifetime");
        reveal_strlit("EventView");
        assert("Lifetime"@[0] != "EventView"@[0]);
    }
    if str_equals(view, "Lifetime") {
        let copy = duplicate_periods(&yaml.life_periods);
        let ghost copy_seq = copy@;
        let sorted = stable_sort(copy);
        let mut i: usize = 0;
        while i < sorted.len()
            invariant
                i <= sorted.len(),
                rows@.len() == i,
                forall|k: int| 0 <= k < i ==> is_period_row(#[trigger] rows@[k], sorted@[k]@),
            decreases sorted.len() - i,
        {
            rows.push(period_row(&sorted[i]));
            i = i + 1;
        }
        assert(periods_view(copy_seq) == yaml@.periods && is_stable_sort_of(copy_seq, sorted@));
    } else if str_equals(view, "EventView") {
        if let Some(pid) = selected_life_period {
            let idx = find_period(&yaml.life_periods, Some(pid));
            assert(yaml@.periods.len() == yaml.life_periods@.len());
            if idx < yaml.life_periods.len() {
                let events = &yaml.life_periods[idx].events;
                proof {
                    assert(yaml@.periods[idx as int] == yaml.life_periods@[idx as int]@);
                }
                let mut i: usize = 0;
                while i < events.len()
                    invariant
                        i <= events.len(),
                        rows@.len() == i,
                        forall|k: int| 0 <= k < i ==> is_event_row(#[trigger] rows@[k], events@[k]),
                    decreases events.len() - i,
                {
                    rows.push(event_row(&events[i]));
                    i = i + 1;
                }
                assert(events@ == yaml@.periods[idx as int].events);
                assert(forall|k: int|
                    0 <= k < rows@.len() ==> is_event_row(#[trigger] rows@[k], yaml@.periods[idx as int].events[k]));
            }
        }
    }
    rows
}

} // verus!
