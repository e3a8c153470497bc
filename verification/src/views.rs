//! What the timeline screens show: the event grid of a period and the cells
//! of the lifetime grid.
use crate::dates::{parse_ymd, parsed_ymd, Date, MAX_DAY, MIN_DAY};
use crate::ids::Id;
use crate::legend::{find_next_period, next_period_index, parse_month_start, parsed_month, starts_after};
use crate::text::lex_lt;
use crate::sort::{is_stable_sort_of, stable_sort};
use crate::timeline::{
    duplicate_events, find_period, lemma_first_index_from, period_index, periods_view, LifePeriod, LifePeriodEvent,
    PeriodModel, Yaml,
};
use vstd::prelude::*;

verus! {

/// End of the event at `i`: the start of the next event when that parses,
/// else the end of the period.
pub open spec fn event_end(events: Seq<LifePeriodEvent>, i: int, period_end: Date) -> Date {
    if i + 1 < events.len() {
        match parsed_ymd(events[i + 1].start@) {
            Some(d) => d,
            None => period_end,
        }
    } else {
        period_end
    }
}

/// Color of the first event, from `i` on, whose start parses and whose span
/// `[start, end)` holds `date`.
pub open spec fn event_color_from(
    date: Date,
    events: Seq<LifePeriodEvent>,
    period_end: Date,
    i: int,
) -> Option<Seq<char>>
    decreases events.len() - i,
{
    if i < 0 || i >= events.len() {
        None
    } else {
        match parsed_ymd(events[i].start@) {
            Some(s) => if s.day <= date.day && date.day < event_end(events, i, period_end).day {
                Some(events[i].color@)
            } else {
                event_color_from(date, events, period_end, i + 1)
            },
            None => event_color_from(date, events, period_end, i + 1),
        }
    }
}

/// The color of a day in the event grid, `transparent` when no event covers it.
pub open spec fn event_color(date: Date, events: Seq<LifePeriodEvent>, period_end: Date) -> Seq<char> {
    match event_color_from(date, events, period_end, 0) {
        Some(c) => c,
        None => "transparent"@,
    }
}

/// The color of the event whose span holds `date`, `transparent` when none
/// does.
pub fn get_color_for_event(date: Date, events: &Vec<LifePeriodEvent>, period_end: Date) -> (r: String)
    ensures
        r@ == event_color(date, events@, period_end),
{
    let mut i: usize = 0;
    while i < events.len()
        invariant
            i <= events.len(),
            event_color_from(date, events@, period_end, 0) == event_color_from(
                date,
                events@,
                period_end,
                i as int,
            ),
        decreases events.len() - i,
    {
        match parse_ymd(events[i].start.as_str()) {
            Some(event_start) => {
                let event_end = if i + 1 < events.len() {
                    match parse_ymd(events[i + 1].start.as_str()) {
                        Some(next_start) => next_start,
                        None => period_end,
                    }
                } else {
                    period_end
                };
                if event_start.day <= date.day && date.day < event_end.day {
                    return events[i].color.clone();
                }
            },
            None => {},
        }
        i = i + 1;
    }
    String::from_str("transparent")
}

/// Combines a running minimum with one more optional date.
pub open spec fn min_date(acc: Option<Date>, x: Option<Date>) -> Option<Date> {
    match x {
        None => acc,
        Some(d) => match acc {
            None => Some(d),
            Some(a) => if d.day < a.day { Some(d) } else { Some(a) },
        },
    }
}

/// Earliest start among the first `n` events whose start parses.
pub open spec fn earliest_start(events: Seq<LifePeriodEvent>, n: int) -> Option<Date>
    decreases n,
{
    if n <= 0 || n > events.len() {
        None
    } else {
        min_date(earliest_start(events, n - 1), parsed_ymd(events[n - 1].start@))
    }
}

/// What the event view of a period shows.
pub enum EventViewState {
    /// No period has the selected id.
    NotFound,
    /// The period has no events; its start month.
    Empty(String),
    /// The events sorted by start, and the span of days of the grid.
    Grid { events: Vec<LifePeriodEvent>, start: Date, end: Date },
}

/// The grid span of a period with events: from the earliest parsable event
/// start (or the period's first day, or today) to the first day of the next
/// period (or today).
pub open spec fn grid_span(ps: Seq<PeriodModel>, idx: int, sorted: Seq<LifePeriodEvent>, today: Date) -> (Date, Date) {
    let start = match earliest_start(sorted, sorted.len() as int) {
        Some(d) => d,
        None => match parsed_month(ps[idx].start) {
            Some(d) => d,
            None => today,
        },
    };
    let next = next_period_index(ps, ps[idx].start);
    let end = if next < ps.len() {
        match parsed_month(ps[next].start) {
            Some(d) => d,
            None => today,
        }
    } else {
        today
    };
    (start, end)
}

/// The grid of the last period, one that no period starts after, runs up to
/// today: its end is `today`, so it covers at least one day whenever its
/// start lies before today.
pub proof fn lemma_last_period_grid_ends_today(
    ps: Seq<PeriodModel>,
    idx: int,
    sorted: Seq<LifePeriodEvent>,
    today: Date,
)
    requires
        0 <= idx < ps.len(),
        forall|j: int| 0 <= j < ps.len() ==> !lex_lt(ps[idx].start, #[trigger] ps[j].start),
    ensures
        grid_span(ps, idx, sorted, today).1 == today,
        grid_span(ps, idx, sorted, today).0.day < today.day ==> grid_span(ps, idx, sorted, today).0.day
            < grid_span(ps, idx, sorted, today).1.day,
{
    let start = ps[idx].start;
    lemma_first_index_from(ps, starts_after(start), 0);
    let next = next_period_index(ps, start);
    if next < ps.len() {
        assert(starts_after(start)(ps[next]));
        assert(!lex_lt(start, ps[next].start));
    }
}

/// The event view of the period with id `selected`: its events sorted by
/// start and the span of days the grid covers; `today` stands for the
/// current local date.
pub fn event_view(yaml: &Yaml, selected: Id, today: Date) -> (r: EventViewState)
    requires
        today.is_valid(),
    ensures
        ({
            let ps = yaml@.periods;
            let idx = period_index(ps, Some(selected));
            if idx >= ps.len() {
                r is NotFound
            } else if ps[idx].events.len() == 0 {
                r matches EventViewState::Empty(s) && s@ == ps[idx].start
            } else {
                r matches EventViewState::Grid { events, start, end } && is_stable_sort_of(
                    ps[idx].events,
                    events@,
                ) && (start, end) == grid_span(ps, idx, events@, today) && start.is_valid()
                    && end.is_valid() && ((forall|j: int|
                    0 <= j < ps.len() ==> !lex_lt(ps[idx].start, #[trigger] ps[j].start)) ==> end == today
                    && (start.day < today.day ==> start.day < end.day))
            }
        }),
{
    let idx = find_period(&yaml.life_periods, Some(selected));
    if idx >= yaml.life_periods.len() {
        return EventViewState::NotFound;
    }
    let period = &yaml.life_periods[idx];
    if period.events.len() == 0 {
        return EventViewState::Empty(period.start.clone());
    }
    let sorted = stable_sort(duplicate_events(&period.events));
    let mut earliest: Option<Date> = None;
    let mut i: usize = 0;
    while i < sorted.len()
        invariant
            i <= sorted.len(),
            earliest == earliest_start(sorted@, i as int),
            earliest matches Some(d) ==> d.is_valid(),
        decreases sorted.len() - i,
    {
        let parsed = parse_ymd(sorted[i].start.as_str());
        earliest = match parsed {
            None => earliest,
            Some(d) => match earliest {
                None => Some(d),
                Some(a) => if d.day < a.day { Some(d) } else { Some(a) },
            },
        };
        i = i + 1;
    }
    let start = match earliest {
        Some(d) => d,
        None => match parse_month_start(period.start.as_str()) {
            Some(d) => d,
            None => today,
        },
    };
    let next = find_next_period(&yaml.life_periods, period.start.as_str());
    let end = if next < yaml.life_periods.len() {
        match parse_month_start(yaml.life_periods[next].start.as_str()) {
            Some(d) => d,
            None => today,
        }
    } else {
        today
    };
    proof {
        let ps = yaml@.periods;
        if forall|j: int| 0 <= j < ps.len() ==> !lex_lt(ps[idx as int].start, #[trigger] ps[j].start) {
            lemma_last_period_grid_ends_today(ps, idx as int, sorted@, today);
        }
    }
    EventViewState::Grid { events: sorted, start, end }
}

/// The colors of the days `start, start + 1, ..., end - 1` of the event grid.
pub fn event_day_colors(events: &Vec<LifePeriodEvent>, start: Date, end: Date) -> (r: Vec<String>)
    requires
        start.is_valid(),
        end.is_valid(),
        start.day <= end.day,
    ensures
        r@.len() == end.day - start.day,
        forall|i: int|
            0 <= i < r@.len() ==> (#[trigger] r@[i])@ == event_color(
                Date { day: (start.day + i) as i32 },
                events@,
                end,
            ),
{
    let total = end.days_since(start);
    let mut r: Vec<String> = Vec::new();
    let mut day: i64 = 0;
    while day < total
        invariant
            0 <= day <= total,
            total == end.day - start.day,
            start.is_valid(),
            end.is_valid(),
            r@.len() == day,
            forall|i: int|
                0 <= i < day ==> (#[trigger] r@[i])@ == event_color(
                    Date { day: (start.day + i) as i32 },
                    events@,
                    end,
                ),
        decreases total - day,
    {
        let date = start.add_days(day);
        r.push(get_color_for_event(date, events, end));
        day = day + 1;
    }
    r
}


/// Columns and rows of the lifetime grid: 48 columns of months (four years
/// a row) in landscape, 24 (two years a row) in portrait.
pub fn calculate_grid_dimensions(is_landscape: bool, life_expectancy: u32) -> (r: (usize, usize))
    ensures
        r.0 == (if is_landscape { 48int } else { 24int }),
        r.1 == (if is_landscape {
            (life_expectancy + 7) / 4
        } else {
            (life_expectancy + 3) / 2
        }),
{
    let le = life_expectancy as u64;
    if is_landscape {
        (48, ((le + 7) / 4) as usize)
    } else {
        (24, ((le + 3) / 2) as usize)
    }
}

/// One cell of the lifetime grid: its color, the period it falls in, and its date.
pub struct CellData {
    pub color: String,
    pub period: Option<LifePeriod>,
    pub date: Date,
}

/// Looks for the period holding `date`, from the period at `p` backwards: a
/// period holds the dates from its first day up to the first day of the next
/// period (the last one up to `current`). `None` where a month that the
/// search reads does not parse (the search cannot go on); `Some(None)` when
/// no period holds the date.
pub open spec fn lookup_from(date: Date, ps: Seq<PeriodModel>, current: Date, p: int) -> Option<Option<int>>
    decreases p + 1,
{
    if p < 0 || p >= ps.len() {
        Some(None)
    } else {
        match parsed_month(ps[p].start) {
            None => None,
            Some(s) => {
                let end = if p == ps.len() - 1 {
                    Some(current)
                } else {
                    parsed_month(ps[p + 1].start)
                };
                match end {
                    None => None,
                    Some(e) => if s.day <= date.day && date.day < e.day {
                        Some(Some(p))
                    } else {
                        lookup_from(date, ps, current, p - 1)
                    },
                }
            },
        }
    }
}

/// The period that holds `date`, searching from the last period.
pub open spec fn period_lookup(date: Date, ps: Seq<PeriodModel>, current: Date) -> Option<Option<int>> {
    lookup_from(date, ps, current, ps.len() - 1)
}

/// The color of the period holding `date` and a copy of it, or `#fafafa`
/// and no period; `None` when a month the search reads does not parse.
pub fn color_and_period_for_date(date: Date, periods: &Vec<LifePeriod>, current_date: Date) -> (r: Option<(String, Option<LifePeriod>)>)
    ensures
        match period_lookup(date, periods_view(periods@), current_date) {
            None => r is None,
            Some(None) => r matches Some(c) && c.0@ == "#fafafa"@ && c.1 is None,
            Some(Some(p)) => r matches Some(c) && c.0@ == periods@[p].color@ && (c.1 matches Some(q) && q@ == periods@[p]@),
        },
{
    let ghost ps = periods_view(periods@);
    let n = periods.len();
    let mut k: usize = n;
    while k > 0
        invariant
            k <= n,
            n == periods@.len(),
            ps == periods_view(periods@),
            period_lookup(date, ps, current_date) == lookup_from(date, ps, current_date, k - 1),
        decreases k,
    {
        let p = k - 1;
        let start = match parse_month_start(periods[p].start.as_str()) {
            Some(d) => d,
            None => { return None; },
        };
        let end = if p == n - 1 {
            current_date
        } else {
            match parse_month_start(periods[p + 1].start.as_str()) {
                Some(d) => d,
                None => { return None; },
            }
        };
        if start.day <= date.day && date.day < end.day {
            return Some((periods[p].color.clone(), Some(periods[p].duplicate())));
        }
        k = p;
    }
    Some((String::from_str("#fafafa"), None))
}

/// Day number of the lifetime cell `index` (month `index` of life): a year
/// counts 365 days and a month 30.
pub open spec fn cell_day(dob: Date, index: int) -> int {
    dob.day + (index / 12) * 365 + (index % 12) * 30
}

/// Every cell of a life of `years` years can be computed: its date is
/// representable and its period lookup reads only parsable months.
pub open spec fn lifetime_computable(dob: Date, years: int, ps: Seq<PeriodModel>, current: Date) -> bool {
    &&& dob.is_valid()
    &&& years * 12 <= u32::MAX
    &&& forall|i: int| 0 <= i < years * 12 ==> MIN_DAY <= #[trigger] cell_day(dob, i) <= MAX_DAY
    &&& forall|i: int| 0 <= i < years * 12 ==> (#[trigger] period_lookup(
        Date { day: cell_day(dob, i) as i32 },
        ps,
        current,
    )) is Some
}

/// The cell `index` for the life born `dob`.
pub open spec fn cell_matches(c: CellData, dob: Date, index: int, ps: Seq<PeriodModel>, periods: Seq<LifePeriod>, current: Date) -> bool {
    let d = Date { day: cell_day(dob, index) as i32 };
    &&& c.date == d
    &&& match period_lookup(d, ps, current) {
        Some(Some(p)) => c.color@ == periods[p].color@ && (c.period matches Some(q) && q@ == periods[p]@),
        _ => c.color@ == "#fafafa"@ && c.period is None,
    }
}

/// Whether every cell of the life born `dob` can be computed (see
/// `lifetime_computable`), found by trying each cell.
fn cells_computable(yaml: &Yaml, dob: Date, current_date: Date) -> (r: bool)
    requires
        dob.is_valid(),
    ensures
        r == lifetime_computable(dob, yaml.life_expectancy as int, yaml@.periods, current_date),
{
    let years = yaml.life_expectancy as u64;
    if years * 12 > u32::MAX as u64 {
        return false;
    }
    let total = years * 12;
    let ghost ps = yaml@.periods;
    let mut index: u64 = 0;
    while index < total
        invariant
            index <= total,
            total == yaml.life_expectancy * 12,
            total <= u32::MAX,
            dob.is_valid(),
            ps == yaml@.periods,
            forall|i: int| 0 <= i < index ==> MIN_DAY <= #[trigger] cell_day(dob, i) <= MAX_DAY,
            forall|i: int| 0 <= i < index ==> (#[trigger] period_lookup(
                Date { day: cell_day(dob, i) as i32 },
                ps,
                current_date,
            )) is Some,
        decreases total - index,
    {
        let year = index / 12;
        let month = index % 12;
        let offset = year * 365 + month * 30;
        if (dob.day as i64) + (offset as i64) > MAX_DAY as i64 {
            proof {
                assert(cell_day(dob, index as int) > MAX_DAY);
            }
            return false;
        }
        let cell_date = dob.add_days(offset as i64);
        if color_and_period_for_date(cell_date, &yaml.life_periods, current_date).is_none() {
            proof {
                assert(period_lookup(Date { day: cell_day(dob, index as int) as i32 }, ps, current_date) is None);
            }
            return false;
        }
        index = index + 1;
    }
    true
}

/// The cells of the lifetime grid: one per month of the life expectancy,
/// dated from the date of birth, for a timeline where they can all be
/// computed.
pub fn lifetime_cells(yaml: &Yaml, current_date: Date) -> (r: Vec<CellData>)
    requires
        parsed_month(yaml.date_of_birth@) matches Some(dob) && lifetime_computable(
            dob,
            yaml.life_expectancy as int,
            yaml@.periods,
            current_date,
        ),
    ensures
        r@.len() == yaml.life_expectancy * 12,
        forall|i: int|
            0 <= i < r@.len() ==> cell_matches(#[trigger] r@[i], parsed_month(yaml.date_of_birth@)->0, i, yaml@.periods, yaml.life_periods@, current_date),
{
    let dob = match parse_month_start(yaml.date_of_birth.as_str()) {
        Some(d) => d,
        None => { return Vec::new(); },
    };
    let years = yaml.life_expectancy as u64;
    let total = years * 12;
    let ghost ps = yaml@.periods;
    let mut cells: Vec<CellData> = Vec::new();
    let mut index: u64 = 0;
    while index < total
        invariant
            index <= total,
            total == yaml.life_expectancy * 12,
            total <= u32::MAX,
            dob.is_valid(),
            parsed_month(yaml.date_of_birth@) == Some(dob),
            ps == yaml@.periods,
            lifetime_computable(dob, yaml.life_expectancy as int, ps, current_date),
            cells@.len() == index,
            forall|i: int| 0 <= i < index ==> cell_matches(#[trigger] cells@[i], dob, i, ps, yaml.life_periods@, current_date),
        decreases total - index,
    {
        let year = index / 12;
        let month = index % 12;
        let offset = year * 365 + month * 30;
        proof {
            assert(MIN_DAY <= cell_day(dob, index as int) <= MAX_DAY);
            assert(period_lookup(Date { day: cell_day(dob, index as int) as i32 }, ps, current_date) is Some);
        }
        let cell_date = dob.add_days(offset as i64);
        match color_and_period_for_date(cell_date, &yaml.life_periods, current_date) {
            Some((color, period)) => {
                cells.push(CellData { color, period, date: cell_date });
            },
            None => {
                return cells;
            },
        }
        index = index + 1;
    }
    cells
}

/// `lifetime_cells`, or `None` exactly where it cannot run: the date of
/// birth or a month the lookup reads does not parse, or a cell date leaves
/// chrono's range.
pub fn try_lifetime_cells(yaml: &Yaml, current_date: Date) -> (r: Option<Vec<CellData>>)
    ensures
        match parsed_month(yaml.date_of_birth@) {
            None => r is None,
            Some(dob) => if lifetime_computable(dob, yaml.life_expectancy as int, yaml@.periods, current_date) {
                r matches Some(cells) && cells@.len() == yaml.life_expectancy * 12 && forall|i: int|
                    0 <= i < cells@.len() ==> cell_matches(#[trigger] cells@[i], dob, i, yaml@.periods, yaml.life_periods@, current_date)
            } else {
                r is None
            },
        },
{
    let dob = match parse_month_start(yaml.date_of_birth.as_str()) {
        Some(d) => d,
        None => { return None; },
    };
    if cells_computable(yaml, dob, current_date) {
        Some(lifetime_cells(yaml, current_date))
    } else {
        None
    }
}

/// What the central panel shows.
#[derive(Clone, Copy, Debug, PartialEq, Eq, Structural)]
pub enum CentralView {
    /// The lifetime grid.
    Lifetime,
    /// The event view of the selected period.
    Events(Id),
    /// The event view was asked for with no period selected.
    NoPeriodSelected,
    /// A view name the panel does not know.
    Unknown,
}

/// The central panel's content for the view name and the selected period:
/// `Lifetime` shows the grid, `EventView` the selected period's events.
pub fn central_view(view: &str, selected_life_period: Option<Id>) -> (r: CentralView)
    ensures
        view@ == "Lifetime"@ ==> r == CentralView::Lifetime,
        view@ == "EventView"@ ==> r == (match selected_life_period {
            Some(id) => CentralView::Events(id),
            None => CentralView::NoPeriodSelected,
        }),
        view@ != "Lifetime"@ && view@ != "EventView"@ ==> r == CentralView::Unknown,
{
    proof {
        reveal_strlit("Lifetime");
        reveal_strlit("EventView");
        assert("Lifetime"@.len() != "EventView"@.len());
    }
    if crate::text::str_equals(view, "Lifetime") {
        CentralView::Lifetime
    } else if crate::text::str_equals(view, "EventView") {
        match selected_life_period {
            Some(id) => CentralView::Events(id),
            None => CentralView::NoPeriodSelected,
        }
    } else {
        CentralView::Unknown
    }
}

} // verus!
