//! The life timeline: periods of a life with their events, the operations the
//! timeline store offers, and the views derived from a timeline.
use crate::ids::{new_v4_id, Id};
use crate::sort::{is_stable_sort_of, lemma_stable_sort_elements, sorted_by_key, stable_sort, SortKey};
use crate::text::{
    lemma_lex_irreflexive, lemma_lex_total, lemma_lex_transitive, lex_lt, str_less,
};
use vstd::prelude::*;

verus! {

/// A named routine.
#[derive(Clone, Debug, PartialEq)]
pub struct Routine {
    pub name: String,
    pub id: Option<Id>,
}

/// An event inside a life period; `start` is a `YYYY-MM-DD` date.
#[derive(Clone, Debug, PartialEq)]
pub struct LifePeriodEvent {
    pub name: String,
    pub color: String,
    pub start: String,
    pub id: Option<Id>,
}

/// A period of a life; `start` is a `YYYY-MM` month.
#[derive(Clone, Debug, PartialEq)]
pub struct LifePeriod {
    pub name: String,
    pub start: String,
    pub color: String,
    pub events: Vec<LifePeriodEvent>,
    pub id: Option<Id>,
}

/// A whole timeline (the content of a timeline YAML file).
#[derive(Clone, Debug, PartialEq)]
pub struct Yaml {
    pub name: String,
    pub date_of_birth: String,
    pub life_expectancy: u32,
    pub life_periods: Vec<LifePeriod>,
    pub routines: Vec<Routine>,
}

/// An item of the legend being edited: a period or, with `is_event`, an event.
#[derive(Clone, Debug, PartialEq)]
pub struct LegendItem {
    pub id: Id,
    pub name: String,
    pub start: String,
    pub color: String,
    pub is_event: bool,
}

/// Mathematical value of a period: its events as a sequence.
pub ghost struct PeriodModel {
    pub name: Seq<char>,
    pub start: Seq<char>,
    pub color: Seq<char>,
    pub events: Seq<LifePeriodEvent>,
    pub id: Option<Id>,
}

impl View for LifePeriod {
    type V = PeriodModel;

    open spec fn view(&self) -> PeriodModel {
        PeriodModel {
            name: self.name@,
            start: self.start@,
            color: self.color@,
            events: self.events@,
            id: self.id,
        }
    }
}

/// Mathematical value of a timeline.
pub ghost struct YamlModel {
    pub name: Seq<char>,
    pub date_of_birth: Seq<char>,
    pub life_expectancy: u32,
    pub periods: Seq<PeriodModel>,
    pub routines: Seq<Routine>,
}

/// The contents of a list of periods.
pub open spec fn periods_view(s: Seq<LifePeriod>) -> Seq<PeriodModel> {
    s.map_values(|p: LifePeriod| p@)
}

impl View for Yaml {
    type V = YamlModel;

    open spec fn view(&self) -> YamlModel {
        YamlModel {
            name: self.name@,
            date_of_birth: self.date_of_birth@,
            life_expectancy: self.life_expectancy,
            periods: periods_view(self.life_periods@),
            routines: self.routines@,
        }
    }
}

impl Routine {
    pub fn duplicate(&self) -> (r: Routine)
        ensures
            r == *self,
    {
        Routine { name: self.name.clone(), id: self.id }
    }
}

impl LifePeriodEvent {
    pub fn duplicate(&self) -> (r: LifePeriodEvent)
        ensures
            r == *self,
    {
        LifePeriodEvent {
            name: self.name.clone(),
            color: self.color.clone(),
            start: self.start.clone(),
            id: self.id,
        }
    }
}

/// Copies of the events, in order.
pub fn duplicate_events(events: &Vec<LifePeriodEvent>) -> (r: Vec<LifePeriodEvent>)
    ensures
        r@ == events@,
{
    let mut r: Vec<LifePeriodEvent> = Vec::new();
    let mut i: usize = 0;
    while i < events.len()
        invariant
            i <= events.len(),
            r@ == events@.subrange(0, i as int),
        decreases events.len() - i,
    {
        r.push(events[i].duplicate());
        i = i + 1;
        proof {
            assert(r@ =~= events@.subrange(0, i as int));
        }
    }
    proof {
        assert(r@ =~= events@);
    }
    r
}

impl LifePeriod {
    pub fn duplicate(&self) -> (r: LifePeriod)
        ensures
            r@ == self@,
    {
        LifePeriod {
            name: self.name.clone(),
            start: self.start.clone(),
            color: self.color.clone(),
            events: duplicate_events(&self.events),
            id: self.id,
        }
    }
}

/// Copies of the periods, in order.
pub fn duplicate_periods(periods: &Vec<LifePeriod>) -> (r: Vec<LifePeriod>)
    ensures
        periods_view(r@) == periods_view(periods@),
{
    let mut r: Vec<LifePeriod> = Vec::new();
    let mut i: usize = 0;
    while i < periods.len()
        invariant
            i <= periods.len(),
            r@.len() == i,
            periods_view(r@) == periods_view(periods@.subrange(0, i as int)),
        decreases periods.len() - i,
    {
        let ghost prev = r@;
        let d = periods[i].duplicate();
        r.push(d);
        i = i + 1;
        proof {
            let a = periods_view(r@);
            let b = periods_view(periods@.subrange(0, i as int));
            assert forall|k: int| 0 <= k < a.len() implies a[k] == b[k] by {
                if k < prev.len() {
                    assert(periods_view(prev)[k] == periods_view(periods@.subrange(0, i - 1))[k]);
                }
            }
            assert(a =~= b);
        }
    }
    proof {
        assert(periods@.subrange(0, i as int) =~= periods@);
    }
    r
}

/// Copies of the routines, in order.
pub fn duplicate_routines(routines: &Vec<Routine>) -> (r: Vec<Routine>)
    ensures
        r@ == routines@,
{
    let mut r: Vec<Routine> = Vec::new();
    let mut i: usize = 0;
    while i < routines.len()
        invariant
            i <= routines.len(),
            r@ == routines@.subrange(0, i as int),
        decreases routines.len() - i,
    {
        r.push(routines[i].duplicate());
        i = i + 1;
        proof {
            assert(r@ =~= routines@.subrange(0, i as int));
        }
    }
    proof {
        assert(r@ =~= routines@);
    }
    r
}

impl Yaml {
    pub fn duplicate(&self) -> (r: Yaml)
        ensures
            r@ == self@,
    {
        Yaml {
            name: self.name.clone(),
            date_of_birth: self.date_of_birth.clone(),
            life_expectancy: self.life_expectancy,
            life_periods: duplicate_periods(&self.life_periods),
            routines: duplicate_routines(&self.routines),
        }
    }
}

impl SortKey for LifePeriod {
    open spec fn key_lt(self, other: Self) -> bool {
        lex_lt(self.start@, other.start@)
    }

    fn key_less(&self, other: &Self) -> (r: bool) {
        str_less(self.start.as_str(), other.start.as_str())
    }

    proof fn lemma_key_order(a: Self, b: Self, c: Self) {
        lemma_lex_irreflexive(a.start@);
        if lex_lt(a.start@, b.start@) && lex_lt(b.start@, c.start@) {
            lemma_lex_transitive(a.start@, b.start@, c.start@);
        }
        lemma_lex_total(a.start@, b.start@);
        if lex_lt(b.start@, a.start@) && lex_lt(a.start@, c.start@) {
            lemma_lex_transitive(b.start@, a.start@, c.start@);
        }
    }
}

impl SortKey for LifePeriodEvent {
    open spec fn key_lt(self, other: Self) -> bool {
        lex_lt(self.start@, other.start@)
    }

    fn key_less(&self, other: &Self) -> (r: bool) {
        str_less(self.start.as_str(), other.start.as_str())
    }

    proof fn lemma_key_order(a: Self, b: Self, c: Self) {
        lemma_lex_irreflexive(a.start@);
        if lex_lt(a.start@, b.start@) && lex_lt(b.start@, c.start@) {
            lemma_lex_transitive(a.start@, b.start@, c.start@);
        }
        lemma_lex_total(a.start@, b.start@);
        if lex_lt(b.start@, a.start@) && lex_lt(a.start@, c.start@) {
            lemma_lex_transitive(b.start@, a.start@, c.start@);
        }
    }
}


/// `new` is `old` when `old` is present, and is present in any case.
pub open spec fn id_filled(old: Option<Id>, new: Option<Id>) -> bool {
    &&& new is Some
    &&& old is Some ==> new == old
}

/// `new` is the event `old` with its id filled in.
pub open spec fn event_id_filled(old: LifePeriodEvent, new: LifePeriodEvent) -> bool {
    &&& new.name == old.name
    &&& new.color == old.color
    &&& new.start == old.start
    &&& id_filled(old.id, new.id)
}

/// Position by position, `new` is `old` with the event ids filled in.
pub open spec fn events_ids_filled(old: Seq<LifePeriodEvent>, new: Seq<LifePeriodEvent>) -> bool {
    &&& new.len() == old.len()
    &&& forall|k: int| 0 <= k < old.len() ==> event_id_filled(old[k], #[trigger] new[k])
}

/// `new` is the period `old` with its own id filled in (events untouched).
pub open spec fn period_id_filled(old: PeriodModel, new: PeriodModel) -> bool {
    &&& new.name == old.name
    &&& new.start == old.start
    &&& new.color == old.color
    &&& new.events == old.events
    &&& id_filled(old.id, new.id)
}

/// `new` is the period `old` with its id and all its event ids filled in.
pub open spec fn period_ids_filled(old: PeriodModel, new: PeriodModel) -> bool {
    &&& new.name == old.name
    &&& new.start == old.start
    &&& new.color == old.color
    &&& events_ids_filled(old.events, new.events)
    &&& id_filled(old.id, new.id)
}

/// The other fields of two timelines agree.
pub open spec fn same_header(a: YamlModel, b: YamlModel) -> bool {
    &&& a.name == b.name
    &&& a.date_of_birth == b.date_of_birth
    &&& a.life_expectancy == b.life_expectancy
    &&& a.routines == b.routines
}

/// `new` is `old` with every period id filled in (event ids untouched).
pub open spec fn timeline_period_ids_filled(old: YamlModel, new: YamlModel) -> bool {
    &&& same_header(old, new)
    &&& new.periods.len() == old.periods.len()
    &&& forall|i: int|
        0 <= i < old.periods.len() ==> period_id_filled(old.periods[i], #[trigger] new.periods[i])
}

/// `new` is `old` with every period id and every event id filled in.
pub open spec fn timeline_ids_filled(old: YamlModel, new: YamlModel) -> bool {
    &&& same_header(old, new)
    &&& new.periods.len() == old.periods.len()
    &&& forall|i: int|
        0 <= i < old.periods.len() ==> period_ids_filled(old.periods[i], #[trigger] new.periods[i])
}

/// Every period and every event of the timeline has an id.
pub open spec fn all_ids_present(y: YamlModel) -> bool {
    forall|i: int|
        0 <= i < y.periods.len() ==> (#[trigger] y.periods[i]).id is Some && forall|k: int|
            0 <= k < y.periods[i].events.len() ==> (#[trigger] y.periods[i].events[k]).id is Some
}

/// Gives every event without an id a fresh random one.
pub fn fill_event_ids(events: &mut Vec<LifePeriodEvent>)
    ensures
        events_ids_filled(old(events)@, final(events)@),
{
    let ghost orig = events@;
    let mut j: usize = 0;
    while j < events.len()
        invariant
            j <= events.len(),
            events@.len() == orig.len(),
            forall|k: int| 0 <= k < j ==> event_id_filled(orig[k], #[trigger] events@[k]),
            forall|k: int| j <= k < orig.len() ==> #[trigger] events@[k] == orig[k],
        decreases events.len() - j,
    {
        if events[j].id.is_none() {
            let fresh = new_v4_id();
            events[j].id = Some(fresh);
        }
        j = j + 1;
    }
}

impl Yaml {
    /// Gives every period without an id a fresh random one (events are left
    /// as they are), as loading a timeline by name does.
    pub fn assign_period_ids(&mut self)
        ensures
            timeline_period_ids_filled(old(self)@, final(self)@),
    {
        let ghost orig = self.life_periods@;
        let mut i: usize = 0;
        while i < self.life_periods.len()
            invariant
                i <= self.life_periods.len(),
                self.life_periods@.len() == orig.len(),
                same_header(old(self)@, self@),
                periods_view(orig) == old(self)@.periods,
                forall|k: int| 0 <= k < i ==> period_id_filled(orig[k]@, #[trigger] self.life_periods@[k]@),
                forall|k: int| i <= k < orig.len() ==> #[trigger] self.life_periods@[k] == orig[k],
            decreases self.life_periods.len() - i,
        {
            if self.life_periods[i].id.is_none() {
                let fresh = new_v4_id();
                self.life_periods[i].id = Some(fresh);
            }
            i = i + 1;
        }
        proof {
            assert forall|k: int| 0 <= k < orig.len() implies period_id_filled(
                old(self)@.periods[k],
                #[trigger] self@.periods[k],
            ) by {
                assert(old(self)@.periods[k] == orig[k]@);
            }
        }
    }

    /// Gives every period and every event without an id a fresh random one
    /// (as the timeline manager and the app state do).
    pub fn assign_ids(&mut self)
        ensures
            timeline_ids_filled(old(self)@, final(self)@),
            all_ids_present(final(self)@),
    {
        let ghost orig = self.life_periods@;
        let mut i: usize = 0;
        while i < self.life_periods.len()
            invariant
                i <= self.life_periods.len(),
                self.life_periods@.len() == orig.len(),
                same_header(old(self)@, self@),
                periods_view(orig) == old(self)@.periods,
                forall|k: int| 0 <= k < i ==> period_ids_filled(orig[k]@, #[trigger] self.life_periods@[k]@),
                forall|k: int| i <= k < orig.len() ==> #[trigger] self.life_periods@[k] == orig[k],
            decreases self.life_periods.len() - i,
        {
            if self.life_periods[i].id.is_none() {
                let fresh = new_v4_id();
                self.life_periods[i].id = Some(fresh);
            }
            fill_event_ids(&mut self.life_periods[i].events);
            i = i + 1;
        }
        proof {
            assert forall|k: int| 0 <= k < orig.len() implies period_ids_filled(
                old(self)@.periods[k],
                #[trigger] self@.periods[k],
            ) by {
                assert(old(self)@.periods[k] == orig[k]@);
            }
            assert forall|k: int| 0 <= k < self@.periods.len() implies (#[trigger] self@.periods[k]).id is Some
                && forall|m: int| 0 <= m < self@.periods[k].events.len() ==> (
                #[trigger] self@.periods[k].events[m]).id is Some by {
                assert(period_ids_filled(orig[k]@, self.life_periods@[k]@));
                assert forall|m: int| 0 <= m < self@.periods[k].events.len() implies (
                #[trigger] self@.periods[k].events[m]).id is Some by {
                    assert(event_id_filled(orig[k]@.events[m], self@.periods[k].events[m]));
                }
            }
        }
    }
}


/// Index of the first element of `s` from `i` on that satisfies `pred`, or
/// `s.len()` when there is none.
pub open spec fn first_index_from<A>(s: Seq<A>, pred: spec_fn(A) -> bool, i: int) -> int
    decreases s.len() - i,
{
    if i < 0 || i >= s.len() {
        s.len() as int
    } else if pred(s[i]) {
        i
    } else {
        first_index_from(s, pred, i + 1)
    }
}

/// What `first_index_from` returns: the first match from `i` on, with no
/// match before it.
pub proof fn lemma_first_index_from<A>(s: Seq<A>, pred: spec_fn(A) -> bool, i: int)
    requires
        0 <= i <= s.len(),
    ensures
        i <= first_index_from(s, pred, i) <= s.len(),
        forall|j: int| i <= j < first_index_from(s, pred, i) ==> !pred(#[trigger] s[j]),
        first_index_from(s, pred, i) < s.len() ==> pred(s[first_index_from(s, pred, i)]),
    decreases s.len() - i,
{
    if i < s.len() && !pred(s[i]) {
        lemma_first_index_from(s, pred, i + 1);
    }
}

/// The id predicate used to find a period.
pub open spec fn has_period_id(id: Option<Id>) -> spec_fn(PeriodModel) -> bool {
    |p: PeriodModel| p.id == id
}

/// The id predicate used to find an event.
pub open spec fn has_event_id(id: Option<Id>) -> spec_fn(LifePeriodEvent) -> bool {
    |e: LifePeriodEvent| e.id == id
}

/// Index of the first period whose id is `id` (the `iter().find` of the
/// timeline manager), or the number of periods when there is none.
pub open spec fn period_index(s: Seq<PeriodModel>, id: Option<Id>) -> int {
    first_index_from(s, has_period_id(id), 0)
}

/// Index of the first event whose id is `id`, or the number of events.
pub open spec fn event_index(s: Seq<LifePeriodEvent>, id: Option<Id>) -> int {
    first_index_from(s, has_event_id(id), 0)
}

/// What `period_index` returns: the first period with the id, or the
/// number of periods when none has it.
pub proof fn lemma_period_index(s: Seq<PeriodModel>, id: Option<Id>)
    ensures
        0 <= period_index(s, id) <= s.len(),
        forall|j: int| 0 <= j < period_index(s, id) ==> (#[trigger] s[j]).id != id,
        period_index(s, id) < s.len() ==> s[period_index(s, id)].id == id,
{
    lemma_first_index_from(s, has_period_id(id), 0);
    assert forall|j: int| 0 <= j < period_index(s, id) implies (#[trigger] s[j]).id != id by {
        assert(!has_period_id(id)(s[j]));
    }
}

/// What `event_index` returns: the first event with the id, or the number of
/// events when none has it.
pub proof fn lemma_event_index(s: Seq<LifePeriodEvent>, id: Option<Id>)
    ensures
        0 <= event_index(s, id) <= s.len(),
        forall|j: int| 0 <= j < event_index(s, id) ==> (#[trigger] s[j]).id != id,
        event_index(s, id) < s.len() ==> s[event_index(s, id)].id == id,
{
    lemma_first_index_from(s, has_event_id(id), 0);
    assert forall|j: int| 0 <= j < event_index(s, id) implies (#[trigger] s[j]).id != id by {
        assert(!has_event_id(id)(s[j]));
    }
}

/// `a == b` for optional ids.
pub fn same_id(a: Option<Id>, b: Option<Id>) -> (r: bool)
    ensures
        r == (a == b),
{
    match (a, b) {
        (Some(x), Some(y)) => x == y,
        (None, None) => true,
        _ => false,
    }
}

/// Position of the first period whose id is `id`, or the number of periods.
pub fn find_period(periods: &Vec<LifePeriod>, id: Option<Id>) -> (r: usize)
    ensures
        r == period_index(periods_view(periods@), id),
{
    let ghost v = periods_view(periods@);
    let mut i: usize = 0;
    while i < periods.len() && !same_id(periods[i].id, id)
        invariant
            i <= periods.len(),
            v == periods_view(periods@),
            forall|j: int| 0 <= j < i ==> (#[trigger] v[j]).id != id,
        decreases periods.len() - i,
    {
        i = i + 1;
    }
    proof {
        lemma_period_index(v, id);
        let f = period_index(v, id);
        if f < i {
            assert(v[f].id != id);
        }
        if (i as int) < f {
            assert(v[i as int].id != id);
        }
    }
    i
}

/// Position of the first event whose id is `id`, or the number of events.
pub fn find_event(events: &Vec<LifePeriodEvent>, id: Option<Id>) -> (r: usize)
    ensures
        r == event_index(events@, id),
{
    let mut i: usize = 0;
    while i < events.len() && !same_id(events[i].id, id)
        invariant
            i <= events.len(),
            forall|j: int| 0 <= j < i ==> (#[trigger] events@[j]).id != id,
        decreases events.len() - i,
    {
        i = i + 1;
    }
    proof {
        lemma_event_index(events@, id);
        let f = event_index(events@, id);
        if f < i {
            assert(events@[f].id != id);
        }
        if (i as int) < f {
            assert(events@[i as int].id != id);
        }
    }
    i
}


/// The event predicate kept by `delete_event`.
pub open spec fn event_not_id(id: Id) -> spec_fn(LifePeriodEvent) -> bool {
    |e: LifePeriodEvent| e.id != Some(id)
}

/// The period predicate kept by `delete_life_period`.
pub open spec fn period_not_id(id: Id) -> spec_fn(LifePeriod) -> bool {
    |p: LifePeriod| p.id != Some(id)
}

/// Two periods agree on everything but their events.
pub open spec fn same_period_header(a: PeriodModel, b: PeriodModel) -> bool {
    &&& a.name == b.name
    &&& a.start == b.start
    &&& a.color == b.color
    &&& a.id == b.id
}

/// `b` is `a` with only the period at `idx` changed.
pub open spec fn periods_same_except(a: Seq<PeriodModel>, b: Seq<PeriodModel>, idx: int) -> bool {
    &&& a.len() == b.len()
    &&& forall|j: int| 0 <= j < a.len() && j != idx ==> #[trigger] b[j] == a[j]
}

/// The events whose id is not `Some(id)`, in order (the result of `retain`).
pub fn retain_events(v: Vec<LifePeriodEvent>, id: Id) -> (r: Vec<LifePeriodEvent>)
    ensures
        r@ == v@.filter(event_not_id(id)),
{
    let ghost orig = v@;
    let mut rest = v;
    let mut out: Vec<LifePeriodEvent> = Vec::new();
    let ghost mut n: int = 0;
    proof {
        assert(orig.subrange(0, 0) =~= Seq::<LifePeriodEvent>::empty());
        assert(orig.subrange(0, orig.len() as int) =~= orig);
    }
    while rest.len() > 0
        invariant
            0 <= n <= orig.len(),
            rest@ == orig.subrange(n, orig.len() as int),
            out@ == orig.subrange(0, n).filter(event_not_id(id)),
        decreases rest.len(),
    {
        let e = rest.remove(0);
        proof {
            assert(orig.subrange(0, n + 1) =~= orig.subrange(0, n).push(e));
            orig.subrange(0, n).lemma_filter_push(e, event_not_id(id));
        }
        if !same_id(e.id, Some(id)) {
            out.push(e);
        }
        proof {
            n = n + 1;
            assert(rest@ =~= orig.subrange(n, orig.len() as int));
        }
    }
    proof {
        assert(orig.subrange(0, n) =~= orig);
    }
    out
}

/// The periods whose id is not `Some(id)`, in order.
pub fn retain_periods(v: Vec<LifePeriod>, id: Id) -> (r: Vec<LifePeriod>)
    ensures
        r@ == v@.filter(period_not_id(id)),
{
    let ghost orig = v@;
    let mut rest = v;
    let mut out: Vec<LifePeriod> = Vec::new();
    let ghost mut n: int = 0;
    proof {
        assert(orig.subrange(0, 0) =~= Seq::<LifePeriod>::empty());
        assert(orig.subrange(0, orig.len() as int) =~= orig);
    }
    while rest.len() > 0
        invariant
            0 <= n <= orig.len(),
            rest@ == orig.subrange(n, orig.len() as int),
            out@ == orig.subrange(0, n).filter(period_not_id(id)),
        decreases rest.len(),
    {
        let p = rest.remove(0);
        proof {
            assert(orig.subrange(0, n + 1) =~= orig.subrange(0, n).push(p));
            orig.subrange(0, n).lemma_filter_push(p, period_not_id(id));
        }
        if !same_id(p.id, Some(id)) {
            out.push(p);
        }
        proof {
            n = n + 1;
            assert(rest@ =~= orig.subrange(n, orig.len() as int));
        }
    }
    proof {
        assert(orig.subrange(0, n) =~= orig);
    }
    out
}

impl LifePeriod {
    /// Adds an event and re-sorts the events by start (stable).
    pub fn push_event_sorted(&mut self, event: LifePeriodEvent)
        ensures
            same_period_header(old(self)@, final(self)@),
            is_stable_sort_of(old(self).events@.push(event), final(self).events@),
    {
        let mut evs: Vec<LifePeriodEvent> = Vec::new();
        std::mem::swap(&mut evs, &mut self.events);
        evs.push(event);
        self.events = stable_sort(evs);
    }

    /// Replaces the event at `k` and re-sorts the events by start (stable).
    pub fn replace_event_sorted(&mut self, k: usize, event: LifePeriodEvent)
        requires
            k < old(self).events@.len(),
        ensures
            same_period_header(old(self)@, final(self)@),
            is_stable_sort_of(old(self).events@.update(k as int, event), final(self).events@),
    {
        let mut evs: Vec<LifePeriodEvent> = Vec::new();
        std::mem::swap(&mut evs, &mut self.events);
        evs.set(k, event);
        self.events = stable_sort(evs);
    }

    /// Drops the events whose id is `Some(id)`.
    pub fn remove_events_with_id(&mut self, id: Id)
        ensures
            same_period_header(old(self)@, final(self)@),
            final(self).events@ == old(self).events@.filter(event_not_id(id)),
    {
        let mut evs: Vec<LifePeriodEvent> = Vec::new();
        std::mem::swap(&mut evs, &mut self.events);
        self.events = retain_events(evs, id);
    }
}


/// `new` is `old` without the periods whose id is `Some(id)`.
pub open spec fn period_deleted(old: Yaml, new: Yaml, id: Id) -> bool {
    &&& same_header(old@, new@)
    &&& new.life_periods@ == old.life_periods@.filter(period_not_id(id))
}

/// `new` is `old` where the first period with id `Some(period_id)` lost its
/// events with id `Some(event_id)`.
pub open spec fn event_deleted(old: Yaml, new: Yaml, period_id: Id, event_id: Id) -> bool {
    &&& same_header(old@, new@)
    &&& ({
        let idx = period_index(old@.periods, Some(period_id));
        if idx < old.life_periods@.len() {
            &&& periods_same_except(old@.periods, new@.periods, idx)
            &&& same_period_header(old@.periods[idx], new@.periods[idx])
            &&& new@.periods[idx].events == old@.periods[idx].events.filter(event_not_id(event_id))
        } else {
            new@ == old@
        }
    })
}

impl Yaml {
    /// Replaces the whole timeline by `yaml` with its missing ids filled in
    /// (`update_timeline` of the timeline manager).
    pub fn update_timeline(&mut self, yaml: &Yaml)
        ensures
            timeline_ids_filled(yaml@, final(self)@),
            all_ids_present(final(self)@),
    {
        let mut fresh = yaml.duplicate();
        fresh.assign_ids();
        *self = fresh;
    }

    /// Adds `period` as it is and re-sorts the periods by start (stable).
    pub fn insert_life_period(&mut self, period: LifePeriod)
        ensures
            same_header(old(self)@, final(self)@),
            is_stable_sort_of(old(self).life_periods@.push(period), final(self).life_periods@),
    {
        let mut ps: Vec<LifePeriod> = Vec::new();
        std::mem::swap(&mut ps, &mut self.life_periods);
        ps.push(period);
        self.life_periods = stable_sort(ps);
    }

    /// Adds a period, giving it a fresh random id when it has none, and keeps
    /// the periods sorted by start (`add_life_period` of the timeline manager).
    pub fn add_life_period(&mut self, period: LifePeriod)
        ensures
            same_header(old(self)@, final(self)@),
            exists|added: LifePeriod|
                period_id_filled(period@, added@) && is_stable_sort_of(
                    old(self).life_periods@.push(added),
                    final(self).life_periods@,
                ),
    {
        let ghost given = period;
        let mut added = period;
        if added.id.is_none() {
            let fresh = new_v4_id();
            added.id = Some(fresh);
        }
        proof {
            assert(period_id_filled(given@, added@));
        }
        self.insert_life_period(added);
    }

    /// Replaces the first period with the same id as `period` (ids compared as
    /// options) and re-sorts; does nothing when there is none
    /// (`update_life_period` of the timeline manager).
    pub fn update_life_period(&mut self, period: LifePeriod)
        ensures
            same_header(old(self)@, final(self)@),
            ({
                let idx = period_index(old(self)@.periods, period.id);
                if idx < old(self).life_periods@.len() {
                    is_stable_sort_of(
                        old(self).life_periods@.update(idx, period),
                        final(self).life_periods@,
                    )
                } else {
                    final(self).life_periods@ == old(self).life_periods@
                }
            }),
    {
        let idx = find_period(&self.life_periods, period.id);
        if idx < self.life_periods.len() {
            let mut ps: Vec<LifePeriod> = Vec::new();
            std::mem::swap(&mut ps, &mut self.life_periods);
            ps.set(idx, period);
            self.life_periods = stable_sort(ps);
        }
    }

    /// Removes every period whose id is `Some(id)` (`delete_life_period`).
    pub fn delete_life_period(&mut self, id: Id)
        ensures
            period_deleted(*old(self), *final(self), id),
    {
        let mut ps: Vec<LifePeriod> = Vec::new();
        std::mem::swap(&mut ps, &mut self.life_periods);
        self.life_periods = retain_periods(ps, id);
    }

    /// Adds `event` as it is to the first period whose id is `Some(period_id)`
    /// and re-sorts that period's events; does nothing when there is none.
    pub fn insert_event(&mut self, period_id: Id, event: LifePeriodEvent)
        ensures
            same_header(old(self)@, final(self)@),
            ({
                let idx = period_index(old(self)@.periods, Some(period_id));
                if idx < old(self).life_periods@.len() {
                    &&& periods_same_except(old(self)@.periods, final(self)@.periods, idx)
                    &&& same_period_header(old(self)@.periods[idx], final(self)@.periods[idx])
                    &&& is_stable_sort_of(
                        old(self)@.periods[idx].events.push(event),
                        final(self)@.periods[idx].events,
                    )
                } else {
                    final(self)@ == old(self)@
                }
            }),
    {
        let idx = find_period(&self.life_periods, Some(period_id));
        if idx < self.life_periods.len() {
            self.life_periods[idx].push_event_sorted(event);
        }
    }

    /// Adds an event to a period, giving the event a fresh random id when it
    /// has none (`add_event` of the timeline manager).
    pub fn add_event(&mut self, period_id: Id, event: LifePeriodEvent)
        ensures
            same_header(old(self)@, final(self)@),
            exists|added: LifePeriodEvent|
                event_id_filled(event, added) && ({
                    let idx = period_index(old(self)@.periods, Some(period_id));
                    if idx < old(self).life_periods@.len() {
                        &&& periods_same_except(old(self)@.periods, final(self)@.periods, idx)
                        &&& same_period_header(old(self)@.periods[idx], final(self)@.periods[idx])
                        &&& is_stable_sort_of(
                            old(self)@.periods[idx].events.push(added),
                            final(self)@.periods[idx].events,
                        )
                    } else {
                        final(self)@ == old(self)@
                    }
                }),
    {
        let ghost given = event;
        let mut added = event;
        if added.id.is_none() {
            let fresh = new_v4_id();
            added.id = Some(fresh);
        }
        proof {
            assert(event_id_filled(given, added));
        }
        self.insert_event(period_id, added);
    }

    /// In the first period whose id is `Some(period_id)`, replaces the first
    /// event with the same id as `event` and re-sorts the events; does nothing
    /// when either is missing (`update_event` of the timeline manager).
    pub fn update_event(&mut self, period_id: Id, event: LifePeriodEvent)
        ensures
            same_header(old(self)@, final(self)@),
            ({
                let idx = period_index(old(self)@.periods, Some(period_id));
                let evs = old(self)@.periods[idx].events;
                let k = event_index(evs, event.id);
                if idx < old(self).life_periods@.len() && k < evs.len() {
                    &&& periods_same_except(old(self)@.periods, final(self)@.periods, idx)
                    &&& same_period_header(old(self)@.periods[idx], final(self)@.periods[idx])
                    &&& is_stable_sort_of(evs.update(k, event), final(self)@.periods[idx].events)
                } else {
                    final(self)@ == old(self)@
                }
            }),
    {
        let idx = find_period(&self.life_periods, Some(period_id));
        if idx < self.life_periods.len() {
            let k = find_event(&self.life_periods[idx].events, event.id);
            if k < self.life_periods[idx].events.len() {
                self.life_periods[idx].replace_event_sorted(k, event);
            }
        }
    }

    /// In the first period whose id is `Some(period_id)`, removes the events
    /// whose id is `Some(event_id)` (`delete_event` of the timeline manager).
    pub fn delete_event(&mut self, period_id: Id, event_id: Id)
        ensures
            event_deleted(*old(self), *final(self), period_id, event_id),
    {
        let idx = find_period(&self.life_periods, Some(period_id));
        if idx < self.life_periods.len() {
            self.life_periods[idx].remove_events_with_id(event_id);
        }
    }

    /// Copies of the events of the first period whose id is `Some(period_id)`,
    /// or none (`get_period_events` of the timeline manager).
    pub fn get_period_events(&self, period_id: Id) -> (r: Vec<LifePeriodEvent>)
        ensures
            ({
                let idx = period_index(self@.periods, Some(period_id));
                if idx < self.life_periods@.len() {
                    r@ == self@.periods[idx].events
                } else {
                    r@ == Seq::<LifePeriodEvent>::empty()
                }
            }),
    {
        let idx = find_period(&self.life_periods, Some(period_id));
        if idx < self.life_periods.len() {
            duplicate_events(&self.life_periods[idx].events)
        } else {
            Vec::new()
        }
    }
}


/// A period with the given fields, no events and no id.
pub open spec fn plain_period(name: Seq<char>, start: Seq<char>, color: Seq<char>) -> PeriodModel {
    PeriodModel { name, start, color, events: Seq::empty(), id: None }
}

/// The timeline used when none can be loaded.
pub open spec fn default_timeline_model() -> YamlModel {
    YamlModel {
        name: "John Doe"@,
        date_of_birth: "2000-01"@,
        life_expectancy: 92,
        periods: seq![
            plain_period("Childhood"@, "2000-01"@, "#5100FF"@),
            plain_period("Teenage Years"@, "2013-01"@, "#00FF77"@),
            plain_period("University"@, "2018-01"@, "#00BEFF"@),
            plain_period("Career Growth"@, "2022-01"@, "#FFFF00"@),
            plain_period("Working"@, "2024-01"@, "#FF9E00"@),
        ],
        routines: Seq::empty(),
    }
}

pub(crate) fn make_period(name: &str, start: &str, color: &str) -> (r: LifePeriod)
    ensures
        r@ == plain_period(name@, start@, color@),
{
    let r = LifePeriod {
        name: String::from_str(name),
        start: String::from_str(start),
        color: String::from_str(color),
        events: Vec::new(),
        id: None,
    };
    proof {
        assert(r.events@ =~= Seq::<LifePeriodEvent>::empty());
    }
    r
}

/// The default timeline (John Doe, born 2000-01, five periods).
pub fn default_timeline() -> (r: Yaml)
    ensures
        r@ == default_timeline_model(),
{
    let mut periods: Vec<LifePeriod> = Vec::new();
    periods.push(make_period("Childhood", "2000-01", "#5100FF"));
    periods.push(make_period("Teenage Years", "2013-01", "#00FF77"));
    periods.push(make_period("University", "2018-01", "#00BEFF"));
    periods.push(make_period("Career Growth", "2022-01", "#FFFF00"));
    periods.push(make_period("Working", "2024-01", "#FF9E00"));
    let r = Yaml {
        name: String::from_str("John Doe"),
        date_of_birth: String::from_str("2000-01"),
        life_expectancy: 92,
        life_periods: periods,
        routines: Vec::new(),
    };
    proof {
        assert(r@.periods =~= default_timeline_model().periods);
        assert(r@.routines =~= Seq::<Routine>::empty());
    }
    r
}

/// The default timeline renamed to `name`: what selecting a timeline gives
/// when its file cannot be loaded.
pub fn default_timeline_named(name: &str) -> (r: Yaml)
    ensures
        r@ == (YamlModel { name: name@, ..default_timeline_model() }),
{
    let mut r = default_timeline();
    r.name = String::from_str(name);
    r
}

/// The one-period timeline the YAML manager writes when a file is missing
/// (`create_default_yaml`).
pub open spec fn starter_yaml_model() -> YamlModel {
    YamlModel {
        name: "John Doe"@,
        date_of_birth: "2000-01"@,
        life_expectancy: 92,
        periods: seq![
            PeriodModel { id: Some(0u128), ..plain_period("Childhood"@, "2000-01"@, "#5100FF"@) },
        ],
        routines: Seq::empty(),
    }
}

/// `create_default_yaml`: John Doe with a single "Childhood" period whose id
/// is the nil UUID.
pub fn create_default_yaml() -> (r: Yaml)
    ensures
        r@ == starter_yaml_model(),
{
    let mut p = make_period("Childhood", "2000-01", "#5100FF");
    p.id = Some(crate::ids::nil_id());
    let mut periods: Vec<LifePeriod> = Vec::new();
    periods.push(p);
    let r = Yaml {
        name: String::from_str("John Doe"),
        date_of_birth: String::from_str("2000-01"),
        life_expectancy: 92,
        life_periods: periods,
        routines: Vec::new(),
    };
    proof {
        assert(r@.periods =~= starter_yaml_model().periods);
        assert(r@.routines =~= Seq::<Routine>::empty());
    }
    r
}

impl Default for Yaml {
    /// An empty timeline: empty strings, life expectancy 0, no periods.
    fn default() -> (r: Yaml)
        ensures
            r@.name == Seq::<char>::empty(),
            r@.date_of_birth == Seq::<char>::empty(),
            r@.life_expectancy == 0,
            r@.periods == Seq::<PeriodModel>::empty(),
            r@.routines == Seq::<Routine>::empty(),
    {
        let r = Yaml {
            name: String::new(),
            date_of_birth: String::new(),
            life_expectancy: 0,
            life_periods: Vec::new(),
            routines: Vec::new(),
        };
        proof {
            assert(r@.periods =~= Seq::<PeriodModel>::empty());
            assert(r@.routines =~= Seq::<Routine>::empty());
        }
        r
    }
}

/// `old` with the id of the period and of every event dropped.
pub open spec fn period_without_ids(p: PeriodModel) -> PeriodModel {
    PeriodModel {
        id: None,
        events: p.events.map_values(|e: LifePeriodEvent| LifePeriodEvent { id: None, ..e }),
        ..p
    }
}

impl LifePeriod {
    /// A copy without the ids of the period and its events.
    pub fn without_ids(&self) -> (r: LifePeriod)
        ensures
            r@ == period_without_ids(self@),
    {
        let mut events: Vec<LifePeriodEvent> = Vec::new();
        let mut j: usize = 0;
        while j < self.events.len()
            invariant
                j <= self.events.len(),
                events@ == self.events@.subrange(0, j as int).map_values(
                    |e: LifePeriodEvent| LifePeriodEvent { id: None, ..e },
                ),
            decreases self.events.len() - j,
        {
            let mut e = self.events[j].duplicate();
            e.id = None;
            events.push(e);
            j = j + 1;
            proof {
                assert(events@ =~= self.events@.subrange(0, j as int).map_values(
                    |e: LifePeriodEvent| LifePeriodEvent { id: None, ..e },
                ));
            }
        }
        proof {
            assert(self.events@.subrange(0, j as int) =~= self.events@);
        }
        let r = LifePeriod {
            name: self.name.clone(),
            start: self.start.clone(),
            color: self.color.clone(),
            events,
            id: None,
        };
        proof {
            assert(r@.events =~= period_without_ids(self@).events);
        }
        r
    }
}

impl Yaml {
    /// A copy of the timeline without any period or event id, the form in
    /// which timelines are written to their YAML files.
    pub fn without_ids(&self) -> (r: Yaml)
        ensures
            same_header(self@, r@),
            r@.periods == self@.periods.map_values(|p: PeriodModel| period_without_ids(p)),
    {
        let mut periods: Vec<LifePeriod> = Vec::new();
        let mut i: usize = 0;
        while i < self.life_periods.len()
            invariant
                i <= self.life_periods.len(),
                periods@.len() == i,
                forall|k: int| 0 <= k < i ==> (#[trigger] periods@[k])@ == period_without_ids(
                    self.life_periods@[k]@,
                ),
            decreases self.life_periods.len() - i,
        {
            periods.push(self.life_periods[i].without_ids());
            i = i + 1;
        }
        let r = Yaml {
            name: self.name.clone(),
            date_of_birth: self.date_of_birth.clone(),
            life_expectancy: self.life_expectancy,
            life_periods: periods,
            routines: duplicate_routines(&self.routines),
        };
        proof {
            assert(r@.periods =~= self@.periods.map_values(|p: PeriodModel| period_without_ids(p)));
        }
        r
    }
}

/// A period changed in place (same header) is found again under its id:
/// when `new` differs from `old` only in the period at `idx`, found by `id`,
/// and that period keeps its id, looking `id` up in `new` gives `idx`.
pub proof fn lemma_period_found_again(old: Seq<PeriodModel>, new: Seq<PeriodModel>, id: Option<Id>, idx: int)
    requires
        idx == period_index(old, id),
        idx < old.len(),
        periods_same_except(old, new, idx),
        same_period_header(old[idx], new[idx]),
    ensures
        period_index(new, id) == idx,
{
    lemma_period_index(old, id);
    lemma_period_index(new, id);
    let f = period_index(new, id);
    if f < idx {
        assert(new[f] == old[f]);
    }
    if idx < f {
        assert(new[idx].id == id);
    }
}

/// What `add_event` writes, `get_period_events` reads back: after an event
/// is added to the period `period_id`, that period is still found by its id,
/// keeps every earlier event, holds the added one, and lists its events in
/// order of start.
pub proof fn lemma_add_event_then_get(old: YamlModel, new: YamlModel, period_id: Id, added: LifePeriodEvent)
    requires
        period_index(old.periods, Some(period_id)) < old.periods.len(),
        periods_same_except(old.periods, new.periods, period_index(old.periods, Some(period_id))),
        same_period_header(
            old.periods[period_index(old.periods, Some(period_id))],
            new.periods[period_index(old.periods, Some(period_id))],
        ),
        is_stable_sort_of(
            old.periods[period_index(old.periods, Some(period_id))].events.push(added),
            new.periods[period_index(old.periods, Some(period_id))].events,
        ),
    ensures
        period_index(new.periods, Some(period_id)) == period_index(old.periods, Some(period_id)),
        new.periods[period_index(new.periods, Some(period_id))].events.contains(added),
        forall|e: LifePeriodEvent|
            old.periods[period_index(old.periods, Some(period_id))].events.contains(e)
                ==> #[trigger] new.periods[period_index(new.periods, Some(period_id))].events.contains(e),
        sorted_by_key(new.periods[period_index(new.periods, Some(period_id))].events),
{
    let idx = period_index(old.periods, Some(period_id));
    lemma_period_found_again(old.periods, new.periods, Some(period_id), idx);
    let input = old.periods[idx].events.push(added);
    lemma_stable_sort_elements(input, new.periods[idx].events);
    assert(input[input.len() - 1] == added);
    assert forall|e: LifePeriodEvent| old.periods[idx].events.contains(e) implies #[trigger] new.periods[idx].events.contains(e) by {
        let k = choose|k: int| 0 <= k < old.periods[idx].events.len() && old.periods[idx].events[k] == e;
        assert(input[k] == e);
    }
}

/// After `add_life_period` the timeline holds the added period and every
/// earlier one, one more in all, ordered by start.
pub proof fn lemma_add_life_period_sorted(old: Seq<LifePeriod>, new: Seq<LifePeriod>, added: LifePeriod)
    requires
        is_stable_sort_of(old.push(added), new),
    ensures
        new.len() == old.len() + 1,
        new.contains(added),
        forall|p: LifePeriod| old.contains(p) ==> #[trigger] new.contains(p),
        sorted_by_key(new),
{
    let input = old.push(added);
    lemma_stable_sort_elements(input, new);
    assert(input[input.len() - 1] == added);
    assert forall|p: LifePeriod| old.contains(p) implies #[trigger] new.contains(p) by {
        let k = choose|k: int| 0 <= k < old.len() && old[k] == p;
        assert(input[k] == p);
    }
}

/// After `delete_life_period(id)` no period has the id `id`, and every other
/// period stays.
pub proof fn lemma_deleted_period_gone(old: Yaml, new: Yaml, id: Id)
    requires
        period_deleted(old, new, id),
    ensures
        forall|i: int| 0 <= i < new.life_periods@.len() ==> (#[trigger] new.life_periods@[i]).id != Some(id),
        forall|p: LifePeriod| old.life_periods@.contains(p) && p.id != Some(id) ==> #[trigger] new.life_periods@.contains(p),
{
    broadcast use vstd::seq_lib::group_filter_ensures;
    let ps = old.life_periods@;
    assert forall|i: int| 0 <= i < new.life_periods@.len() implies (#[trigger] new.life_periods@[i]).id != Some(id) by {
        ps.lemma_filter_pred(period_not_id(id), i);
    }
    assert forall|p: LifePeriod| ps.contains(p) && p.id != Some(id) implies #[trigger] new.life_periods@.contains(p) by {
        let k = choose|k: int| 0 <= k < ps.len() && ps[k] == p;
        ps.lemma_filter_contains(period_not_id(id), k);
    }
}

/// After `delete_event(period_id, event_id)` the period keeps no event with
/// id `event_id`.
pub proof fn lemma_deleted_event_gone(old: Yaml, new: Yaml, period_id: Id, event_id: Id)
    requires
        event_deleted(old, new, period_id, event_id),
        period_index(old@.periods, Some(period_id)) < old.life_periods@.len(),
    ensures
        period_index(new@.periods, Some(period_id)) == period_index(old@.periods, Some(period_id)),
        forall|k: int|
            0 <= k < new@.periods[period_index(old@.periods, Some(period_id))].events.len()
                ==> (#[trigger] new@.periods[period_index(old@.periods, Some(period_id))].events[k]).id != Some(event_id),
{
    broadcast use vstd::seq_lib::group_filter_ensures;
    let idx = period_index(old@.periods, Some(period_id));
    lemma_period_found_again(old@.periods, new@.periods, Some(period_id), idx);
    let evs = old@.periods[idx].events;
    assert forall|k: int| 0 <= k < new@.periods[idx].events.len() implies (#[trigger] new@.periods[idx].events[k]).id != Some(event_id) by {
        evs.lemma_filter_pred(event_not_id(event_id), k);
    }
}

/// Filling in ids keeps the ids that are there: a timeline whose periods and
/// events all have ids comes out of `update_timeline` unchanged.
pub proof fn lemma_update_timeline_keeps_ids(old: YamlModel, new: YamlModel)
    requires
        all_ids_present(old),
        timeline_ids_filled(old, new),
    ensures
        new == old,
{
    assert forall|i: int| 0 <= i < old.periods.len() implies #[trigger] new.periods[i] == old.periods[i] by {
        assert(period_ids_filled(old.periods[i], new.periods[i]));
        assert forall|k: int| 0 <= k < old.periods[i].events.len() implies #[trigger] new.periods[i].events[k] == old.periods[i].events[k] by {
            assert(event_id_filled(old.periods[i].events[k], new.periods[i].events[k]));
        }
        assert(new.periods[i].events =~= old.periods[i].events);
    }
    assert(new.periods =~= old.periods);
}

} // verus!
