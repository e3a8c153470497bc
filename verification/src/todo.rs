//! The weekly todo list: todos stored per day of the week, with positions.
use crate::dates::{now_local, LocalDateTime};
use crate::ids::{new_v4_id, Id};
use crate::sort::{
    is_stable_sort_of, lemma_stable_sort_elements, lemma_stable_sort_push, lemma_stable_sort_unique, stable_sort,
    SortKey,
};
use crate::text::{lowercase_of, str_equals, to_lowercase};
use crate::timeline::{first_index_from, lemma_first_index_from};
use vstd::prelude::*;

verus! {

/// A todo of a day of the week.
#[derive(Debug, Clone, PartialEq)]
pub struct Todo {
    pub id: Id,
    pub content: String,
    pub day: String,
    pub created_at: LocalDateTime,
    pub position: i32,
}

impl Todo {
    /// A todo with a fresh random id, created now, at position 0 (`Todo::new`).
    pub fn new(content: String, day: String) -> (r: Todo)
        ensures
            r.content == content,
            r.day == day,
            r.position == 0,
    {
        let id = new_v4_id();
        let created_at = now_local();
        Todo { id, content, day, created_at, position: 0 }
    }

    pub fn duplicate(&self) -> (r: Todo)
        ensures
            r == *self,
    {
        Todo {
            id: self.id,
            content: self.content.clone(),
            day: self.day.clone(),
            created_at: self.created_at,
            position: self.position,
        }
    }
}

impl SortKey for Todo {
    open spec fn key_lt(self, other: Self) -> bool {
        self.position < other.position
    }

    fn key_less(&self, other: &Self) -> (r: bool) {
        self.position < other.position
    }

    proof fn lemma_key_order(a: Self, b: Self, c: Self) {
    }
}

/// The todos of one day.
#[derive(Debug, Clone, PartialEq)]
pub struct DayTodos {
    pub todos: Vec<Todo>,
}

/// The todos of the week, one list per day.
#[derive(Debug, Clone, PartialEq)]
pub struct TodoStore {
    pub monday: DayTodos,
    pub tuesday: DayTodos,
    pub wednesday: DayTodos,
    pub thursday: DayTodos,
    pub friday: DayTodos,
    pub saturday: DayTodos,
    pub sunday: DayTodos,
}

/// Position of a lowercase day name in the week, Monday first.
pub open spec fn day_slot(lower: Seq<char>) -> Option<int> {
    if lower == "monday"@ {
        Some(0)
    } else if lower == "tuesday"@ {
        Some(1)
    } else if lower == "wednesday"@ {
        Some(2)
    } else if lower == "thursday"@ {
        Some(3)
    } else if lower == "friday"@ {
        Some(4)
    } else if lower == "saturday"@ {
        Some(5)
    } else if lower == "sunday"@ {
        Some(6)
    } else {
        None
    }
}

/// The slot of a day name, compared after lowercasing.
pub open spec fn day_of(day: Seq<char>) -> Option<int> {
    day_slot(lowercase_of(day))
}

/// The slot of an already lowercased day name.
pub fn slot_of_lowercase(lower: &str) -> (r: Option<usize>)
    ensures
        r matches Some(k) ==> day_slot(lower@) == Some(k as int),
        r is None ==> day_slot(lower@) is None,
{
    if str_equals(lower, "monday") {
        Some(0)
    } else if str_equals(lower, "tuesday") {
        Some(1)
    } else if str_equals(lower, "wednesday") {
        Some(2)
    } else if str_equals(lower, "thursday") {
        Some(3)
    } else if str_equals(lower, "friday") {
        Some(4)
    } else if str_equals(lower, "saturday") {
        Some(5)
    } else if str_equals(lower, "sunday") {
        Some(6)
    } else {
        None
    }
}

/// The slot of a day name in any case.
pub fn day_index(day: &str) -> (r: Option<usize>)
    ensures
        r matches Some(k) ==> day_of(day@) == Some(k as int),
        r is None ==> day_of(day@) is None,
{
    let lower = to_lowercase(day);
    slot_of_lowercase(lower.as_str())
}

/// Positions renumbered 1, 2, 3, ... in list order.
pub open spec fn renumbered(s: Seq<Todo>) -> Seq<Todo> {
    s.map(|k: int, t: Todo| Todo { position: (k + 1) as i32, ..t })
}

/// The id predicate on todos.
pub open spec fn todo_has_id(id: Id) -> spec_fn(Todo) -> bool {
    |t: Todo| t.id == id
}

/// Index of the first todo with `id` in a list, or its length.
pub open spec fn todo_index(s: Seq<Todo>, id: Id) -> int {
    first_index_from(s, todo_has_id(id), 0)
}

/// The predicate "this day holds a todo with `id`".
pub open spec fn day_holds(id: Id) -> spec_fn(Seq<Todo>) -> bool {
    |d: Seq<Todo>| todo_index(d, id) < d.len()
}

/// The first day, Monday to Sunday, holding a todo with `id`, or 7.
pub open spec fn day_with(days: Seq<Seq<Todo>>, id: Id) -> int {
    first_index_from(days, day_holds(id), 0)
}

/// The last position given to `id` in `updates` (later pairs win, as when
/// they are collected into a map).
pub open spec fn last_update(updates: Seq<(Id, i32)>, id: Id) -> Option<i32>
    decreases updates.len(),
{
    if updates.len() == 0 {
        None
    } else if updates.last().0 == id {
        Some(updates.last().1)
    } else {
        last_update(updates.drop_last(), id)
    }
}

/// A todo after applying `updates`.
pub open spec fn repositioned(t: Todo, updates: Seq<(Id, i32)>) -> Todo {
    match last_update(updates, t.id) {
        Some(p) => Todo { position: p, ..t },
        None => t,
    }
}

impl TodoStore {
    /// The seven lists, Monday first.
    pub open spec fn days(&self) -> Seq<Seq<Todo>> {
        seq![
            self.monday.todos@,
            self.tuesday.todos@,
            self.wednesday.todos@,
            self.thursday.todos@,
            self.friday.todos@,
            self.saturday.todos@,
            self.sunday.todos@,
        ]
    }

    /// An empty week.
    pub fn new() -> (r: TodoStore)
        ensures
            forall|k: int| 0 <= k < 7 ==> (#[trigger] r.days()[k]).len() == 0,
    {
        TodoStore {
            monday: DayTodos { todos: Vec::new() },
            tuesday: DayTodos { todos: Vec::new() },
            wednesday: DayTodos { todos: Vec::new() },
            thursday: DayTodos { todos: Vec::new() },
            friday: DayTodos { todos: Vec::new() },
            saturday: DayTodos { todos: Vec::new() },
            sunday: DayTodos { todos: Vec::new() },
        }
    }

    /// A copy of the week.
    pub fn duplicate_week(&self) -> (r: TodoStore)
        ensures
            r.days() == self.days(),
    {
        TodoStore {
            monday: DayTodos { todos: duplicate_todos(&self.monday.todos) },
            tuesday: DayTodos { todos: duplicate_todos(&self.tuesday.todos) },
            wednesday: DayTodos { todos: duplicate_todos(&self.wednesday.todos) },
            thursday: DayTodos { todos: duplicate_todos(&self.thursday.todos) },
            friday: DayTodos { todos: duplicate_todos(&self.friday.todos) },
            saturday: DayTodos { todos: duplicate_todos(&self.saturday.todos) },
            sunday: DayTodos { todos: duplicate_todos(&self.sunday.todos) },
        }
    }

    /// The list of the day at `slot`.
    pub fn slot(&self, slot: usize) -> (r: &Vec<Todo>)
        requires
            slot < 7,
        ensures
            r@ == self.days()[slot as int],
    {
        match slot {
            0 => &self.monday.todos,
            1 => &self.tuesday.todos,
            2 => &self.wednesday.todos,
            3 => &self.thursday.todos,
            4 => &self.friday.todos,
            5 => &self.saturday.todos,
            _ => &self.sunday.todos,
        }
    }

    /// The list of the day at `slot`, to change.
    pub fn slot_mut(&mut self, slot: usize) -> (r: &mut Vec<Todo>)
        requires
            slot < 7,
        ensures
            r@ == old(self).days()[slot as int],
            final(self).days() == old(self).days().update(slot as int, final(r)@),
    {
        match slot {
            0 => &mut self.monday.todos,
            1 => &mut self.tuesday.todos,
            2 => &mut self.wednesday.todos,
            3 => &mut self.thursday.todos,
            4 => &mut self.friday.todos,
            5 => &mut self.saturday.todos,
            _ => &mut self.sunday.todos,
        }
    }
}


/// Copies of the todos, in order.
pub fn duplicate_todos(v: &Vec<Todo>) -> (r: Vec<Todo>)
    ensures
        r@ == v@,
{
    let mut r: Vec<Todo> = Vec::new();
    let mut i: usize = 0;
    while i < v.len()
        invariant
            i <= v.len(),
            r@ == v@.subrange(0, i as int),
        decreases v.len() - i,
    {
        r.push(v[i].duplicate());
        i = i + 1;
        proof {
            assert(r@ =~= v@.subrange(0, i as int));
        }
    }
    proof {
        assert(r@ =~= v@);
    }
    r
}

/// Position of the first todo with `id`, or the length of the list.
pub fn find_todo(v: &Vec<Todo>, id: Id) -> (r: usize)
    ensures
        r == todo_index(v@, id),
{
    let mut i: usize = 0;
    while i < v.len() && v[i].id != id
        invariant
            i <= v.len(),
            forall|j: int| 0 <= j < i ==> !todo_has_id(id)(#[trigger] v@[j]),
        decreases v.len() - i,
    {
        i = i + 1;
    }
    proof {
        lemma_first_index_from(v@, todo_has_id(id), 0);
        let f = todo_index(v@, id);
        if f < i {
            assert(!todo_has_id(id)(v@[f]));
        }
        if (i as int) < f {
            assert(!todo_has_id(id)(v@[i as int]));
        }
    }
    i
}

/// Gives the todos the positions 1, 2, 3, ... in list order.
pub fn renumber(v: &mut Vec<Todo>)
    ensures
        final(v)@ == renumbered(old(v)@),
{
    let ghost orig = v@;
    let mut i: usize = 0;
    while i < v.len()
        invariant
            i <= v.len(),
            v@.len() == orig.len(),
            forall|k: int| 0 <= k < i ==> #[trigger] v@[k] == (Todo { position: (k + 1) as i32, ..orig[k] }),
            forall|k: int| i <= k < orig.len() ==> #[trigger] v@[k] == orig[k],
        decreases v.len() - i,
    {
        #[verifier::truncate]
        let p = (i + 1) as i32;
        v[i].position = p;
        i = i + 1;
    }
    proof {
        assert(v@ =~= renumbered(orig));
    }
}

/// Removes the todo at `k` and renumbers the rest 1, 2, 3, ...
pub fn remove_and_renumber(v: &mut Vec<Todo>, k: usize) -> (r: Todo)
    requires
        k < old(v)@.len(),
    ensures
        final(v)@ == renumbered(old(v)@.remove(k as int)),
        r == old(v)@[k as int],
{
    let t = v.remove(k);
    renumber(v);
    t
}

/// The last position `updates` gives to `id`.
pub fn find_last_update(updates: &Vec<(Id, i32)>, id: Id) -> (r: Option<i32>)
    ensures
        r == last_update(updates@, id),
{
    let mut k: usize = updates.len();
    proof {
        assert(updates@.subrange(0, k as int) =~= updates@);
    }
    while k > 0
        invariant
            k <= updates@.len(),
            last_update(updates@, id) == last_update(updates@.subrange(0, k as int), id),
        decreases k,
    {
        let (uid, pos) = updates[k - 1];
        proof {
            assert(updates@.subrange(0, k as int).drop_last() =~= updates@.subrange(0, k - 1));
        }
        if uid == id {
            return Some(pos);
        }
        k = k - 1;
    }
    None
}

/// The week after adding a todo at the end of the day at `slot`.
pub open spec fn with_new_todo(days: Seq<Seq<Todo>>, slot: int, t: Todo) -> Seq<Seq<Todo>> {
    days.update(slot, days[slot].push(t))
}

/// The week after adding `Todo { id, content, day, created_at }` at the end
/// of the day at `slot`, numbered one past the length of that day.
pub open spec fn appended_todo(
    days: Seq<Seq<Todo>>,
    slot: int,
    id: Id,
    content: String,
    day: String,
    created_at: LocalDateTime,
) -> Seq<Seq<Todo>> {
    with_new_todo(days, slot, Todo {
        id,
        content,
        day,
        created_at,
        position: ((days[slot].len() as i32) + 1) as i32,
    })
}

/// The week after taking the todo with `id` out of the first day holding it
/// and renumbering that day.
pub open spec fn without_todo(days: Seq<Seq<Todo>>, id: Id) -> Seq<Seq<Todo>> {
    let di = day_with(days, id);
    if di < 7 {
        days.update(di, renumbered(days[di].remove(todo_index(days[di], id))))
    } else {
        days
    }
}

/// The week after moving the todo with `id` to the end of `new_day` (with
/// its day field set to `new_day`).
pub open spec fn moved_todo(days: Seq<Seq<Todo>>, id: Id, new_day: String) -> Seq<Seq<Todo>> {
    let di = day_with(days, id);
    if di < 7 {
        let t = days[di][todo_index(days[di], id)];
        let mid = without_todo(days, id);
        let target = day_of(new_day@)->0;
        mid.update(target, mid[target].push(Todo {
            day: new_day,
            position: ((mid[target].len() as i32) + 1) as i32,
            ..t
        }))
    } else {
        days
    }
}

impl TodoStore {
    /// The todos of a day sorted by position, ties in stored order
    /// (`get_todos_by_day`). The day name is matched in any case.
    pub fn get_todos_by_day(&self, day: &str) -> (r: Vec<Todo>)
        requires
            day_of(day@) is Some,
        ensures
            is_stable_sort_of(self.days()[day_of(day@)->0], r@),
    {
        match day_index(day) {
            Some(slot) => stable_sort(duplicate_todos(self.slot(slot))),
            None => Vec::new(),
        }
    }

    /// `get_todos_by_day`, or `None` for a name that is no day of the week
    /// (which `get_todos_by_day` does not accept).
    pub fn try_get_todos_by_day(&self, day: &str) -> (r: Option<Vec<Todo>>)
        ensures
            day_of(day@) is None ==> r is None,
            day_of(day@) is Some ==> (r matches Some(v) && is_stable_sort_of(self.days()[day_of(day@)->0], v@)),
    {
        match day_index(day) {
            Some(_) => Some(self.get_todos_by_day(day)),
            None => None,
        }
    }

    /// Adds `Todo { id, content, day, created_at }` at the end of the day at
    /// `slot`, with the position after the last one (length + 1).
    pub fn insert_new_todo(&mut self, slot: usize, content: String, day: String, id: Id, created_at: LocalDateTime)
        requires
            slot < 7,
            (old(self).days()[slot as int].len() as i32) < i32::MAX,
        ensures
            final(self).days() == appended_todo(old(self).days(), slot as int, id, content, day, created_at),
    {
        let list = self.slot_mut(slot);
        #[verifier::truncate]
        let n = list.len() as i32;
        let position = n + 1;
        list.push(Todo { id, content, day, created_at, position });
    }

    /// Adds a todo to a day with a fresh random id, created now, at the end of
    /// that day (`create_todo` of the todo manager).
    pub fn create_todo(&mut self, content: String, day: String)
        requires
            day_of(day@) is Some,
            (old(self).days()[day_of(day@)->0].len() as i32) < i32::MAX,
        ensures
            exists|id: Id, created_at: LocalDateTime|
                final(self).days() == appended_todo(old(self).days(), day_of(day@)->0, id, content, day, created_at),
    {
        let created_at = now_local();
        match day_index(day.as_str()) {
            Some(slot) => {
                let id = new_v4_id();
                self.insert_new_todo(slot, content, day, id, created_at);
            },
            None => {},
        }
    }

    /// `create_todo`, or nothing (returning `false`) when the name is no day
    /// of the week or the day's positions are exhausted (which `create_todo`
    /// does not accept).
    pub fn try_create_todo(&mut self, content: String, day: String) -> (r: bool)
        ensures
            r == (day_of(day@) is Some && (old(self).days()[day_of(day@)->0].len() as i32) < i32::MAX),
            !r ==> final(self).days() == old(self).days(),
            r ==> exists|id: Id, created_at: LocalDateTime|
                final(self).days() == appended_todo(old(self).days(), day_of(day@)->0, id, content, day, created_at),
    {
        match day_index(day.as_str()) {
            Some(slot) => {
                #[verifier::truncate]
                let n = self.slot(slot).len() as i32;
                if n < i32::MAX {
                    self.create_todo(content, day);
                    true
                } else {
                    false
                }
            },
            None => false,
        }
    }

    /// Takes the todo with `id` out of the first day (Monday first) holding
    /// it, renumbering that day 1, 2, 3, ...; returns it.
    pub fn take_todo(&mut self, id: Id) -> (r: Option<Todo>)
        ensures
            final(self).days() == without_todo(old(self).days(), id),
            ({
                let days = old(self).days();
                let di = day_with(days, id);
                if di < 7 {
                    r == Some(days[di][todo_index(days[di], id)])
                } else {
                    r is None
                }
            }),
    {
        let ghost days = self.days();
        let mut slot: usize = 0;
        while slot < 7
            invariant
                slot <= 7,
                self.days() == days,
                days == old(self).days(),
                forall|k: int| 0 <= k < slot ==> !day_holds(id)(#[trigger] days[k]),
            decreases 7 - slot,
        {
            let k = find_todo(self.slot(slot), id);
            if k < self.slot(slot).len() {
                proof {
                    lemma_first_index_from(days, day_holds(id), 0);
                    let f = day_with(days, id);
                    if f < slot {
                        assert(!day_holds(id)(days[f]));
                    }
                    if (slot as int) < f {
                        assert(!day_holds(id)(days[slot as int]));
                    }
                    assert(day_with(days, id) == slot);
                    assert(k == todo_index(days[slot as int], id));
                }
                let t = remove_and_renumber(self.slot_mut(slot), k);
                proof {
                    assert(self.days() == days.update(slot as int, renumbered(days[slot as int].remove(k as int))));
                }
                return Some(t);
            }
            slot = slot + 1;
        }
        proof {
            lemma_first_index_from(days, day_holds(id), 0);
            let f = day_with(days, id);
            if f < 7 {
                assert(!day_holds(id)(days[f]));
            }
        }
        None
    }

    /// Removes the todo with `id` from the first day (Monday first) holding
    /// it and renumbers that day 1, 2, 3, ... (`delete_todo`).
    pub fn delete_todo(&mut self, id: Id)
        ensures
            final(self).days() == without_todo(old(self).days(), id),
    {
        let _ = self.take_todo(id);
    }

    /// Moves the todo with `id` from the first day holding it to the end of
    /// `new_day`, setting its day to `new_day` and its position one past the
    /// last; the day it left is renumbered (`move_todo`). Nothing happens
    /// when no day holds it.
    pub fn move_todo(&mut self, id: Id, new_day: String)
        requires
            day_with(old(self).days(), id) < 7 ==> (day_of(new_day@) is Some && (without_todo(
                old(self).days(),
                id,
            )[day_of(new_day@)->0].len() as i32) < i32::MAX),
        ensures
            final(self).days() == moved_todo(old(self).days(), id, new_day),
    {
        let ghost days = self.days();
        match self.take_todo(id) {
            Some(t) => {
                let target = match day_index(new_day.as_str()) {
                    Some(k) => k,
                    None => { return; },
                };
                let list = self.slot_mut(target);
                #[verifier::truncate]
                let n = list.len() as i32;
                let mut moved = t;
                moved.day = new_day;
                moved.position = n + 1;
                list.push(moved);
            },
            None => {},
        }
    }

    /// `move_todo`, or nothing (returning `false`) when the todo exists but
    /// `new_day` is no day of the week or that day's positions are exhausted
    /// (which `move_todo` does not accept).
    pub fn try_move_todo(&mut self, id: Id, new_day: String) -> (r: bool)
        ensures
            r == (day_with(old(self).days(), id) < 7 ==> (day_of(new_day@) is Some && (without_todo(
                old(self).days(),
                id,
            )[day_of(new_day@)->0].len() as i32) < i32::MAX)),
            !r ==> final(self).days() == old(self).days(),
            r ==> final(self).days() == moved_todo(old(self).days(), id, new_day),
    {
        let mut after = self.duplicate_week();
        match after.take_todo(id) {
            None => {
                self.move_todo(id, new_day);
                true
            },
            Some(_) => {
                match day_index(new_day.as_str()) {
                    Some(target) => {
                        #[verifier::truncate]
                        let n = after.slot(target).len() as i32;
                        if n < i32::MAX {
                            self.move_todo(id, new_day);
                            true
                        } else {
                            false
                        }
                    },
                    None => false,
                }
            },
        }
    }

    /// Sets the positions of the todos of a day that `updates` names (the
    /// last pair for an id wins); other todos keep theirs (`update_positions`).
    pub fn update_positions(&mut self, day: &str, updates: Vec<(Id, i32)>)
        requires
            day_of(day@) is Some,
        ensures
            final(self).days() == old(self).days().update(
                day_of(day@)->0,
                old(self).days()[day_of(day@)->0].map_values(|t: Todo| repositioned(t, updates@)),
            ),
    {
        let slot = match day_index(day) {
            Some(s) => s,
            None => { return; },
        };
        let list = self.slot_mut(slot);
        let ghost orig = list@;
        let mut i: usize = 0;
        while i < list.len()
            invariant
                i <= list.len(),
                list@.len() == orig.len(),
                forall|k: int| 0 <= k < i ==> #[trigger] list@[k] == repositioned(orig[k], updates@),
                forall|k: int| i <= k < orig.len() ==> #[trigger] list@[k] == orig[k],
            decreases list.len() - i,
        {
            match find_last_update(&updates, list[i].id) {
                Some(p) => { list[i].position = p; },
                None => {},
            }
            i = i + 1;
        }
        proof {
            assert(list@ =~= orig.map_values(|t: Todo| repositioned(t, updates@)));
        }
    }

    /// `update_positions`, or nothing (returning `false`) for a name that is
    /// no day of the week (which `update_positions` does not accept).
    pub fn try_update_positions(&mut self, day: &str, updates: Vec<(Id, i32)>) -> (r: bool)
        ensures
            r == (day_of(day@) is Some),
            !r ==> final(self).days() == old(self).days(),
            r ==> final(self).days() == old(self).days().update(
                day_of(day@)->0,
                old(self).days()[day_of(day@)->0].map_values(|t: Todo| repositioned(t, updates@)),
            ),
    {
        match day_index(day) {
            Some(_) => {
                self.update_positions(day, updates);
                true
            },
            None => false,
        }
    }
}

/// The ids of a list of todos, in order.
pub open spec fn todo_ids(s: Seq<Todo>) -> Seq<Id> {
    s.map_values(|t: Todo| t.id)
}

/// Ids moved by a drag and drop: the id at `from` is taken out and put back
/// at `to`.
pub open spec fn moved_id(ids: Seq<Id>, from: int, to: int) -> Seq<Id> {
    ids.remove(from).insert(to, ids[from])
}

/// Each id with its index in the list as its new position.
pub open spec fn indexed_positions(ids: Seq<Id>) -> Seq<(Id, i32)> {
    Seq::new(ids.len(), |i: int| (ids[i], i as i32))
}

/// The position updates of dropping the dragged todo `dragged` at
/// `new_index` of a day's list: `None` when the todo is not in the list or
/// is dropped where it is; otherwise every todo of the reordered list with
/// its index as position.
pub fn drop_updates(todos: &Vec<Todo>, dragged: Id, new_index: usize) -> (r: Option<Vec<(Id, i32)>>)
    requires
        (todo_index(todos@, dragged) < todos@.len() && todo_index(todos@, dragged) != new_index)
            ==> new_index < todos@.len(),
    ensures
        ({
            let k = todo_index(todos@, dragged);
            &&& (k >= todos@.len() || k == new_index) ==> r is None
            &&& (k < todos@.len() && k != new_index) ==> (r matches Some(u) && u@
                == indexed_positions(moved_id(todo_ids(todos@), k, new_index as int)))
        }),
{
    let old_index = find_todo(todos, dragged);
    if old_index >= todos.len() || old_index == new_index {
        return None;
    }
    let mut ids: Vec<Id> = Vec::new();
    let mut i: usize = 0;
    while i < todos.len()
        invariant
            i <= todos@.len(),
            ids@ == todo_ids(todos@.subrange(0, i as int)),
        decreases todos.len() - i,
    {
        ids.push(todos[i].id);
        i = i + 1;
        proof {
            assert(ids@ =~= todo_ids(todos@.subrange(0, i as int)));
        }
    }
    proof {
        assert(todos@.subrange(0, todos@.len() as int) =~= todos@);
    }
    let ghost all_ids = ids@;
    let item = ids.remove(old_index);
    ids.insert(new_index, item);
    proof {
        assert(ids@ =~= moved_id(all_ids, old_index as int, new_index as int));
    }
    let mut out: Vec<(Id, i32)> = Vec::new();
    let mut j: usize = 0;
    while j < ids.len()
        invariant
            j <= ids@.len(),
            ids@.len() == todos@.len(),
            out@ == indexed_positions(ids@.subrange(0, j as int)),
        decreases ids.len() - j,
    {
        #[verifier::truncate]
        let position = j as i32;
        out.push((ids[j], position));
        j = j + 1;
        proof {
            assert(out@ =~= indexed_positions(ids@.subrange(0, j as int)));
        }
    }
    proof {
        assert(ids@.subrange(0, ids@.len() as int) =~= ids@);
    }
    Some(out)
}

/// What `str::trim` returns for a character sequence (the text without
/// leading and trailing Unicode whitespace).
pub uninterp spec fn trimmed(s: Seq<char>) -> Seq<char>;

/// `str::trim`. Trusted: the result is the standard library's trim of `s`,
/// named `trimmed` (a piece of `s` cut at both ends). Which characters
/// count as whitespace is the Unicode White_Space property, whose list the
/// documentation refers to but does not give, so it is left to the name.
#[verifier::external_body]
fn trim(s: &str) -> (r: String)
    ensures
        r@ == trimmed(s@),
{
    s.trim().to_string()
}

/// The content of a todo typed into the form: the input without surrounding
/// whitespace, or `None` when nothing is left.
pub fn new_todo_content(input: &str) -> (r: Option<String>)
    ensures
        trimmed(input@).len() == 0 ==> r is None,
        trimmed(input@).len() > 0 ==> (r matches Some(c) && c@ == trimmed(input@)),
{
    let t = trim(input);
    if t.as_str().unicode_len() == 0 {
        None
    } else {
        Some(t)
    }
}

/// How many todos the week holds.
pub open spec fn week_count(days: Seq<Seq<Todo>>) -> int {
    (days[0].len() + days[1].len() + days[2].len() + days[3].len() + days[4].len() + days[5].len()
        + days[6].len()) as int
}

/// After `delete_todo(id)` the day that held the todo has one todo less, is
/// numbered 1, 2, 3, ... in order, and the other days are unchanged; the
/// week holds one todo less.
pub proof fn lemma_delete_todo_renumbers(days: Seq<Seq<Todo>>, id: Id)
    requires
        days.len() == 7,
        day_with(days, id) < 7,
        days[day_with(days, id)].len() <= i32::MAX,
    ensures
        ({
            let di = day_with(days, id);
            let new = without_todo(days, id);
            &&& new.len() == 7
            &&& new[di].len() == days[di].len() - 1
            &&& forall|k: int| 0 <= k < new[di].len() ==> (#[trigger] new[di][k]).position == k + 1
            &&& forall|d: int| 0 <= d < 7 && d != di ==> #[trigger] new[d] == days[d]
            &&& week_count(new) == week_count(days) - 1
        }),
{
    let di = day_with(days, id);
    lemma_first_index_from(days, day_holds(id), 0);
    lemma_first_index_from(days[di], todo_has_id(id), 0);
    let new = without_todo(days, id);
    assert forall|k: int| 0 <= k < new[di].len() implies (#[trigger] new[di][k]).position == k + 1 by {
        assert((k + 1) as i32 == k + 1);
    }
}

/// What `create_todo` writes, `get_todos_by_day` reads back: if the day read
/// `before` the call, it reads `before` with the new todo appended, stably
/// sorted by position, afterwards. The new todo has the given content, day
/// and creation time, and the position one past the day's count; every other
/// day is stored as it was.
pub proof fn lemma_create_then_get(
    days: Seq<Seq<Todo>>,
    slot: int,
    id: Id,
    content: String,
    day: String,
    created_at: LocalDateTime,
    before: Seq<Todo>,
    listed: Seq<Todo>,
)
    requires
        days.len() == 7,
        0 <= slot < 7,
        days[slot].len() < i32::MAX,
        is_stable_sort_of(days[slot], before),
        is_stable_sort_of(appended_todo(days, slot, id, content, day, created_at)[slot], listed),
    ensures
        ({
            let t = Todo { id, content, day, created_at, position: (days[slot].len() + 1) as i32 };
            &&& is_stable_sort_of(before.push(t), listed)
            &&& t.position == before.len() + 1
            &&& appended_todo(days, slot, id, content, day, created_at)[slot] == days[slot].push(t)
            &&& listed.contains(t)
            &&& listed.len() == before.len() + 1
            &&& forall|x: int|
                0 <= x < 7 && x != slot ==> #[trigger] appended_todo(days, slot, id, content, day, created_at)[x]
                    == days[x]
        }),
{
    let t = Todo { id, content, day, created_at, position: (days[slot].len() + 1) as i32 };
    let new_day = appended_todo(days, slot, id, content, day, created_at)[slot];
    assert(new_day == days[slot].push(t));
    lemma_stable_sort_elements(days[slot], before);
    lemma_stable_sort_elements(new_day, listed);
    lemma_stable_sort_push(days[slot], before, t, listed);
    assert(new_day[new_day.len() - 1] == t);
}

/// Creating a todo leaves every other day's listing as it was: a day other
/// than the one written reads the same before and after.
pub proof fn lemma_create_keeps_other_days(
    days: Seq<Seq<Todo>>,
    slot: int,
    id: Id,
    content: String,
    day: String,
    created_at: LocalDateTime,
    other: int,
    before: Seq<Todo>,
    after: Seq<Todo>,
)
    requires
        days.len() == 7,
        0 <= slot < 7,
        0 <= other < 7,
        other != slot,
        is_stable_sort_of(days[other], before),
        is_stable_sort_of(appended_todo(days, slot, id, content, day, created_at)[other], after),
    ensures
        after == before,
{
    assert(appended_todo(days, slot, id, content, day, created_at)[other] == days[other]);
    lemma_stable_sort_unique(days[other], before, after);
}

/// `get_todos_by_day` lists each todo of the day once, in order of position.
pub proof fn lemma_todos_by_day_sorted(day: Seq<Todo>, listed: Seq<Todo>)
    requires
        is_stable_sort_of(day, listed),
    ensures
        listed.len() == day.len(),
        forall|t: Todo| day.contains(t) ==> #[trigger] listed.contains(t),
        forall|t: Todo| listed.contains(t) ==> #[trigger] day.contains(t),
        forall|i: int, j: int| 0 <= i < j < listed.len() ==> (#[trigger] listed[i]).position <= (#[trigger] listed[j]).position,
{
    lemma_stable_sort_elements(day, listed);
    assert forall|t: Todo| day.contains(t) implies #[trigger] listed.contains(t) by {
        let k = choose|k: int| 0 <= k < day.len() && day[k] == t;
        assert(listed.contains(day[k]));
    }
    assert forall|t: Todo| listed.contains(t) implies #[trigger] day.contains(t) by {
        let k = choose|k: int| 0 <= k < listed.len() && listed[k] == t;
        assert(day.contains(listed[k]));
    }
}

/// `move_todo` keeps the number of todos in the week, and the moved todo
/// comes last in its new day, with that day as its day.
pub proof fn lemma_move_todo_keeps_count(days: Seq<Seq<Todo>>, id: Id, new_day: String)
    requires
        days.len() == 7,
        day_with(days, id) < 7,
        day_of(new_day@) is Some,
        days[day_with(days, id)].len() <= i32::MAX,
    ensures
        week_count(moved_todo(days, id, new_day)) == week_count(days),
        moved_todo(days, id, new_day)[day_of(new_day@)->0].last().id == id,
        moved_todo(days, id, new_day)[day_of(new_day@)->0].last().day == new_day,
{
    lemma_delete_todo_renumbers(days, id);
    let di = day_with(days, id);
    lemma_first_index_from(days, day_holds(id), 0);
    lemma_first_index_from(days[di], todo_has_id(id), 0);
    let target = day_of(new_day@)->0;
    assert(0 <= target < 7) by {
        reveal_strlit("monday");
    }
    assert(todo_has_id(id)(days[di][todo_index(days[di], id)]));
}

/// A tab of the day bar: the day's name and its planet symbol.
#[derive(Debug, Clone, PartialEq)]
pub struct DayInfo {
    pub name: String,
    pub symbol: String,
}

/// The names of the day tabs, Monday first.
pub open spec fn tab_name(k: int) -> Seq<char> {
    if k == 0 {
        "Monday"@
    } else if k == 1 {
        "Tuesday"@
    } else if k == 2 {
        "Wednesday"@
    } else if k == 3 {
        "Thursday"@
    } else if k == 4 {
        "Friday"@
    } else if k == 5 {
        "Saturday"@
    } else {
        "Sunday"@
    }
}

/// The symbols of the day tabs: moon, Mars, Mercury, Jupiter, Venus, Saturn,
/// sun.
pub open spec fn tab_symbol(k: int) -> Seq<char> {
    if k == 0 {
        "🌙"@
    } else if k == 1 {
        "♂"@
    } else if k == 2 {
        "☿"@
    } else if k == 3 {
        "♃"@
    } else if k == 4 {
        "♀"@
    } else if k == 5 {
        "♄"@
    } else {
        "☉"@
    }
}

fn day_info(name: &str, symbol: &str) -> (r: DayInfo)
    ensures
        r.name@ == name@,
        r.symbol@ == symbol@,
{
    let mut n = String::new();
    crate::text::push_str(&mut n, name);
    let mut s = String::new();
    crate::text::push_str(&mut s, symbol);
    DayInfo { name: n, symbol: s }
}

/// The seven day tabs, Monday first.
pub fn day_tabs() -> (r: Vec<DayInfo>)
    ensures
        r@.len() == 7,
        forall|k: int| 0 <= k < 7 ==> (#[trigger] r@[k]).name@ == tab_name(k) && r@[k].symbol@ == tab_symbol(k),
{
    let mut out: Vec<DayInfo> = Vec::new();
    out.push(day_info("Monday", "🌙"));
    out.push(day_info("Tuesday", "♂"));
    out.push(day_info("Wednesday", "☿"));
    out.push(day_info("Thursday", "♃"));
    out.push(day_info("Friday", "♀"));
    out.push(day_info("Saturday", "♄"));
    out.push(day_info("Sunday", "☉"));
    out
}

/// The drop placeholder shows before the todo at `index` when the drag is
/// over that index and the todo is not the one being dragged.
pub fn shows_placeholder(drop_index: Option<usize>, index: usize, dragged: Option<Id>, id: Id) -> (r: bool)
    ensures
        r == (drop_index == Some(index) && dragged != Some(id)),
{
    let over = match drop_index {
        Some(k) => k == index,
        None => false,
    };
    let other = match dragged {
        Some(d) => d != id,
        None => true,
    };
    over && other
}

} // verus!
