//! The canvas model: notes, to-do items, the links between them, and the
//! reminder scan over the to-do items.
use crate::recurrence::{advance_past, is_clock_reading, is_next_occurrence, LoopFrequency};
use crate::time::{Timestamp, DAY, MAX_SECS};
use vstd::prelude::*;

verus! {

/// A free-form note. `frame` is its placement on the canvas (position and
/// size), which the library carries without reading it.
#[derive(Clone, Debug)]
pub struct Note<G> {
    pub id: usize,
    pub frame: G,
    pub text: String,
}

/// A to-do item with an optional due time and a recurrence rule.
#[derive(Clone, Debug)]
pub struct Todo<G> {
    pub id: usize,
    pub frame: G,
    pub text: String,
    pub due: Option<Timestamp>,
    pub is_done: bool,
    pub loop_freq: LoopFrequency,
    pub notified: bool,
}

/// Where an item stands: the index of a note or of a to-do item.
#[derive(Clone, Copy, Debug, PartialEq, Eq, Structural)]
pub enum Place {
    Note(usize),
    Todo(usize),
}

/// The canvas, generic over the placement `G` of its items.
#[derive(Clone, Debug)]
pub struct CanvasState<G> {
    pub notes: Vec<Note<G>>,
    pub todos: Vec<Todo<G>>,
    pub connections: Vec<(usize, usize)>,
    pub next_id: usize,
    pub background_image_path: Option<String>,
    pub connecting_from_id: Option<usize>,
}

/// The to-do item has fallen due and has not yet been announced.
pub open spec fn due_for_notice<G>(t: Todo<G>, now: Timestamp) -> bool {
    !t.is_done && !t.notified && t.due is Some && now.utc_secs > t.due->0.utc_secs
}

/// `u` is what one reminder scan at `now` makes of `t`: a one-shot item
/// that falls due is marked notified, a recurring one gets its next
/// occurrence as its due time; every other item is left as it was.
pub open spec fn scanned<G>(t: Todo<G>, u: Todo<G>, now: Timestamp) -> bool {
    u.id == t.id && u.frame == t.frame && u.text == t.text && u.is_done == t.is_done
        && u.loop_freq == t.loop_freq && if due_for_notice(t, now) {
        if t.loop_freq == LoopFrequency::Once {
            u.notified && u.due == t.due
        } else {
            !u.notified && u.due is Some && is_next_occurrence(t.due->0, t.loop_freq, now, u.due->0)
        }
    } else {
        u.due == t.due && u.notified == t.notified
    }
}

/// The texts of the items that a scan at `now` announces, in order.
pub open spec fn notices<G>(todos: Seq<Todo<G>>, now: Timestamp) -> Seq<String>
    decreases todos.len(),
{
    if todos.len() == 0 {
        seq![]
    } else {
        let rest = notices(todos.drop_last(), now);
        if due_for_notice(todos.last(), now) {
            rest.push(todos.last().text)
        } else {
            rest
        }
    }
}

/// What one link gesture on `id` makes of the pending source: the new
/// pending source, and the link that it completes, if any.
pub open spec fn link_step(pending: Option<usize>, id: usize) -> (Option<usize>, Option<(usize, usize)>) {
    match pending {
        None => (Some(id), None),
        Some(p) => if p == id {
            (None, None)
        } else {
            (None, Some((p, id)))
        },
    }
}

impl<G> CanvasState<G> {
    pub open spec fn ids_distinct(&self) -> bool {
        &&& forall|i: int, j: int|
            0 <= i < self.notes.len() && 0 <= j < self.notes.len() && i != j ==> self.notes[i].id
                != self.notes[j].id
        &&& forall|i: int, j: int|
            0 <= i < self.todos.len() && 0 <= j < self.todos.len() && i != j ==> self.todos[i].id
                != self.todos[j].id
        &&& forall|i: int, j: int|
            0 <= i < self.notes.len() && 0 <= j < self.todos.len() ==> self.notes[i].id
                != self.todos[j].id
    }

    /// Some note or to-do item has id `id`.
    pub open spec fn has_item(&self, id: usize) -> bool {
        (exists|i: int| 0 <= i < self.notes.len() && #[trigger] self.notes[i].id == id) || (exists|
            i: int,
        |
            0 <= i < self.todos.len() && #[trigger] self.todos[i].id == id)
    }

    /// Ids are unique over notes and to-do items together and all below
    /// `next_id`; every due time lies in the range of the library; a
    /// pending link starts at an item that exists.
    pub open spec fn wf(&self) -> bool {
        &&& self.ids_distinct()
        &&& (self.connecting_from_id matches Some(p) ==> self.has_item(p))
        &&& forall|i: int| 0 <= i < self.notes.len() ==> self.notes[i].id < self.next_id
        &&& forall|i: int| 0 <= i < self.todos.len() ==> self.todos[i].id < self.next_id
        &&& forall|i: int|
            0 <= i < self.todos.len() ==> (#[trigger] self.todos[i].due matches Some(d) ==> d.wf())
    }

    pub open spec fn is_first_note(&self, i: int, id: usize) -> bool {
        0 <= i < self.notes.len() && self.notes[i].id == id && forall|j: int|
            0 <= j < i ==> self.notes[j].id != id
    }

    pub open spec fn is_first_todo(&self, i: int, id: usize) -> bool {
        0 <= i < self.todos.len() && self.todos[i].id == id && forall|j: int|
            0 <= j < i ==> self.todos[j].id != id
    }

    /// The item with id `id`: notes are searched first, then to-do items.
    pub open spec fn place_of(&self, id: usize) -> Option<Place> {
        if exists|i: int| self.is_first_note(i, id) {
            Some(Place::Note((choose|i: int| self.is_first_note(i, id)) as usize))
        } else if exists|i: int| self.is_first_todo(i, id) {
            Some(Place::Todo((choose|i: int| self.is_first_todo(i, id)) as usize))
        } else {
            None
        }
    }

    /// The links whose two ends both resolve to an item, in order.
    pub open spec fn drawn_links(&self, links: Seq<(usize, usize)>) -> Seq<(Place, Place)>
        decreases links.len(),
    {
        if links.len() == 0 {
            seq![]
        } else {
            let rest = self.drawn_links(links.drop_last());
            let (a, b) = links.last();
            match (self.place_of(a), self.place_of(b)) {
                (Some(pa), Some(pb)) => rest.push((pa, pb)),
                _ => rest,
            }
        }
    }

    proof fn lemma_has_item_kept(&self, other: &Self, id: usize)
        requires
            self.has_item(id),
            self.notes.len() <= other.notes.len(),
            self.todos.len() <= other.todos.len(),
            forall|i: int| 0 <= i < self.notes.len() ==> #[trigger] other.notes[i].id == self.notes[i].id,
            forall|i: int| 0 <= i < self.todos.len() ==> #[trigger] other.todos[i].id == self.todos[i].id,
        ensures
            other.has_item(id),
    {
        if exists|i: int| 0 <= i < self.notes.len() && #[trigger] self.notes[i].id == id {
            let i = choose|i: int| 0 <= i < self.notes.len() && #[trigger] self.notes[i].id == id;
            assert(other.notes[i].id == id);
        } else {
            let i = choose|i: int| 0 <= i < self.todos.len() && #[trigger] self.todos[i].id == id;
            assert(other.todos[i].id == id);
        }
    }

    /// An empty canvas.
    pub fn new() -> (r: Self)
        ensures
            r.wf(),
            r.notes@.len() == 0,
            r.todos@.len() == 0,
            r.connections@.len() == 0,
            r.next_id == 0,
            r.background_image_path is None,
            r.connecting_from_id is None,
    {
        CanvasState {
            notes: Vec::new(),
            todos: Vec::new(),
            connections: Vec::new(),
            next_id: 0,
            background_image_path: None,
            connecting_from_id: None,
        }
    }

    /// Adds a note placed at `frame`, with the default text, and returns
    /// its new id.
    pub fn add_note(&mut self, frame: G) -> (id: usize)
        requires
            old(self).wf(),
            old(self).next_id < usize::MAX,
        ensures
            final(self).wf(),
            id == old(self).next_id,
            final(self).next_id == id + 1,
            final(self).notes@ == old(self).notes@.push(
                Note { id, frame, text: final(self).notes@.last().text },
            ),
            final(self).notes@.last().text@ == "New note"@,
            final(self).todos == old(self).todos,
            final(self).connections == old(self).connections,
            final(self).background_image_path == old(self).background_image_path,
            final(self).connecting_from_id == old(self).connecting_from_id,
    {
        let id = self.next_id;
        self.next_id = id + 1;
        let text = "New note".to_owned();
        self.notes.push(Note { id, frame, text });
        proof {
            if let Some(p) = self.connecting_from_id {
                old(self).lemma_has_item_kept(self, p);
            }
        }
        id
    }

    /// Adds a to-do item placed at `frame`, with the default text, no due
    /// time, not done, not recurring and not notified; returns its new id.
    pub fn add_todo(&mut self, frame: G) -> (id: usize)
        requires
            old(self).wf(),
            old(self).next_id < usize::MAX,
        ensures
            final(self).wf(),
            id == old(self).next_id,
            final(self).next_id == id + 1,
            final(self).todos@ == old(self).todos@.push(
                Todo {
                    id,
                    frame,
                    text: final(self).todos@.last().text,
                    due: None,
                    is_done: false,
                    loop_freq: LoopFrequency::Once,
                    notified: false,
                },
            ),
            final(self).todos@.last().text@ == "New todo"@,
            final(self).notes == old(self).notes,
            final(self).connections == old(self).connections,
            final(self).background_image_path == old(self).background_image_path,
            final(self).connecting_from_id == old(self).connecting_from_id,
    {
        let id = self.next_id;
        self.next_id = id + 1;
        let text = "New todo".to_owned();
        self.todos.push(
            Todo {
                id,
                frame,
                text,
                due: None,
                is_done: false,
                loop_freq: LoopFrequency::Once,
                notified: false,
            },
        );
        proof {
            if let Some(p) = self.connecting_from_id {
                old(self).lemma_has_item_kept(self, p);
            }
        }
        id
    }

    /// The note or to-do item with id `id`, notes first; `None` when no
    /// item has that id, which is no error: a link to it is not drawn.
    pub fn locate(&self, id: usize) -> (r: Option<Place>)
        ensures
            r == self.place_of(id),
    {
        let mut i: usize = 0;
        while i < self.notes.len()
            invariant
                i <= self.notes.len(),
                forall|j: int| 0 <= j < i ==> self.notes[j].id != id,
            decreases self.notes.len() - i,
        {
            if self.notes[i].id == id {
                assert(self.is_first_note(i as int, id));
                assert forall|x: int| #[trigger] self.is_first_note(x, id) implies x == i as int by {
                    if x < i {
                    } else if x > i {
                        assert(self.notes[i as int].id == id);
                    }
                }
                return Some(Place::Note(i));
            }
            i = i + 1;
        }
        assert(!exists|x: int| self.is_first_note(x, id));
        let mut i: usize = 0;
        while i < self.todos.len()
            invariant
                i <= self.todos.len(),
                forall|j: int| 0 <= j < i ==> self.todos[j].id != id,
                !exists|x: int| self.is_first_note(x, id),
            decreases self.todos.len() - i,
        {
            if self.todos[i].id == id {
                assert(self.is_first_todo(i as int, id));
                assert forall|x: int| #[trigger] self.is_first_todo(x, id) implies x == i as int by {
                    if x < i {
                    } else if x > i {
                        assert(self.todos[i as int].id == id);
                    }
                }
                return Some(Place::Todo(i));
            }
            i = i + 1;
        }
        assert(!exists|x: int| self.is_first_todo(x, id));
        None
    }

    /// The links to draw: each link whose two ends resolve, as the places
    /// of its ends, in the order of the links; the others are skipped.
    pub fn visible_links(&self) -> (r: Vec<(Place, Place)>)
        ensures
            r@ == self.drawn_links(self.connections@),
    {
        let mut r: Vec<(Place, Place)> = Vec::new();
        let mut i: usize = 0;
        while i < self.connections.len()
            invariant
                i <= self.connections.len(),
                r@ == self.drawn_links(self.connections@.take(i as int)),
            decreases self.connections.len() - i,
        {
            let (a, b) = self.connections[i];
            let pa = self.locate(a);
            let pb = self.locate(b);
            assert(self.connections@.take(i + 1).drop_last() =~= self.connections@.take(i as int));
            match (pa, pb) {
                (Some(x), Some(y)) => r.push((x, y)),
                _ => {},
            }
            i = i + 1;
        }
        assert(self.connections@.take(i as int) =~= self.connections@);
        r
    }

    /// Whether some note or to-do item has id `id`.
    pub fn contains_id(&self, id: usize) -> (r: bool)
        ensures
            r == self.has_item(id),
    {
        let mut i: usize = 0;
        while i < self.notes.len()
            invariant
                i <= self.notes.len(),
                forall|j: int| 0 <= j < i ==> #[trigger] self.notes[j].id != id,
            decreases self.notes.len() - i,
        {
            if self.notes[i].id == id {
                return true;
            }
            i = i + 1;
        }
        let mut i: usize = 0;
        while i < self.todos.len()
            invariant
                i <= self.todos.len(),
                forall|j: int| 0 <= j < self.notes.len() ==> #[trigger] self.notes[j].id != id,
                forall|j: int| 0 <= j < i ==> #[trigger] self.todos[j].id != id,
            decreases self.todos.len() - i,
        {
            if self.todos[i].id == id {
                return true;
            }
            i = i + 1;
        }
        false
    }

    /// One link gesture on item `id`: starts a link from it when none is
    /// pending; completes the pending one with a link to `id` when it
    /// started elsewhere; cancels it when it started at `id` itself.
    pub fn begin_or_complete_connection(&mut self, id: usize)
        requires
            old(self).wf(),
            old(self).has_item(id),
        ensures
            final(self).wf(),
            final(self).connecting_from_id == link_step(old(self).connecting_from_id, id).0,
            final(self).connections@ == match link_step(old(self).connecting_from_id, id).1 {
                Some(l) => old(self).connections@.push(l),
                None => old(self).connections@,
            },
            final(self).notes == old(self).notes,
            final(self).todos == old(self).todos,
            final(self).next_id == old(self).next_id,
            final(self).background_image_path == old(self).background_image_path,
    {
        match self.connecting_from_id {
            None => {
                self.connecting_from_id = Some(id);
            },
            Some(source) => {
                self.connecting_from_id = None;
                if source != id {
                    self.connections.push((source, id));
                }
            },
        }
    }

    /// Drops the pending link, if any.
    pub fn cancel_pending_connection(&mut self)
        requires
            old(self).wf(),
        ensures
            final(self).wf(),
            final(self).connecting_from_id is None,
            final(self).connections == old(self).connections,
            final(self).notes == old(self).notes,
            final(self).todos == old(self).todos,
            final(self).next_id == old(self).next_id,
            final(self).background_image_path == old(self).background_image_path,
    {
        self.connecting_from_id = None;
    }

    /// Sets the due time of the to-do item with id `todo_id` and re-arms its
    /// notice. Returns whether there is such an item; without one nothing
    /// changes.
    pub fn set_due(&mut self, todo_id: usize, due: Timestamp) -> (found: bool)
        requires
            old(self).wf(),
            due.wf(),
        ensures
            final(self).wf(),
            found == exists|i: int| 0 <= i < old(self).todos.len() && old(self).todos[i].id == todo_id,
            final(self).todos.len() == old(self).todos.len(),
            forall|i: int|
                0 <= i < old(self).todos.len() ==> {
                    let (t, u) = (#[trigger] old(self).todos[i], final(self).todos[i]);
                    if t.id == todo_id {
                        u == Todo { due: Some(due), notified: false, ..t }
                    } else {
                        u == t
                    }
                },
            final(self).notes == old(self).notes,
            final(self).connections == old(self).connections,
            final(self).next_id == old(self).next_id,
            final(self).background_image_path == old(self).background_image_path,
            final(self).connecting_from_id == old(self).connecting_from_id,
    {
        let mut i: usize = 0;
        while i < self.todos.len()
            invariant
                i <= self.todos.len(),
                self == old(self),
                old(self).wf(),
                due.wf(),
                forall|j: int| 0 <= j < i ==> self.todos[j].id != todo_id,
            decreases self.todos.len() - i,
        {
            if self.todos[i].id == todo_id {
                self.todos[i].due = Some(due);
                self.todos[i].notified = false;
                assert forall|j: int| 0 <= j < self.todos.len() && j != i implies #[trigger] old(self).todos[j].id != todo_id by {
                    assert(old(self).todos[j].id != old(self).todos[i as int].id);
                }
                assert forall|j: int| 0 <= j < self.todos.len() implies #[trigger] self.todos[j].id == old(self).todos[j].id by {}
                proof {
                    if let Some(p) = self.connecting_from_id {
                        old(self).lemma_has_item_kept(self, p);
                    }
                }
                return true;
            }
            i = i + 1;
        }
        false
    }

    /// One reminder scan at `now`. Each to-do item that is not done, has a
    /// due time before `now` and has not been announced yet is announced:
    /// a one-shot item is then marked notified, a recurring one moves on to
    /// its next occurrence and stays armed. Returns the announced texts.
    pub fn scan_due(&mut self, now: Timestamp) -> (fired: Vec<String>)
        requires
            old(self).wf(),
            is_clock_reading(now),
        ensures
            final(self).wf(),
            final(self).todos.len() == old(self).todos.len(),
            forall|i: int|
                0 <= i < old(self).todos.len() ==> scanned(
                    #[trigger] old(self).todos[i],
                    final(self).todos[i],
                    now,
                ),
            fired@ == notices(old(self).todos@, now),
            forall|i: int|
                0 <= i < old(self).todos.len() && (#[trigger] old(self).todos[i]).loop_freq
                    == LoopFrequency::Once && old(self).todos[i].notified ==> !due_for_notice(
                    old(self).todos[i],
                    now,
                ) && final(self).todos[i] == old(self).todos[i],
            forall|i: int|
                0 <= i < old(self).todos.len() && (#[trigger] old(self).todos[i]).loop_freq
                    != LoopFrequency::Once && due_for_notice(old(self).todos[i], now) ==> (!final(self).todos[i].notified
                    && (final(self).todos[i].due matches Some(d) && d.utc_secs > now.utc_secs)),
            final(self).notes == old(self).notes,
            final(self).connections == old(self).connections,
            final(self).next_id == old(self).next_id,
            final(self).background_image_path == old(self).background_image_path,
            final(self).connecting_from_id == old(self).connecting_from_id,
    {
        let mut fired: Vec<String> = Vec::new();
        let n = self.todos.len();
        let mut i: usize = 0;
        while i < n
            invariant
                n == old(self).todos.len(),
                n == self.todos.len(),
                i <= n,
                is_clock_reading(now),
                old(self).wf(),
                forall|j: int| 0 <= j < i ==> scanned(#[trigger] old(self).todos[j], self.todos[j], now),
                forall|j: int| i <= j < n ==> #[trigger] self.todos[j] == old(self).todos[j],
                forall|j: int|
                    0 <= j < n ==> (#[trigger] self.todos[j].due matches Some(d) ==> d.wf()),
                fired@ == notices(old(self).todos@.take(i as int), now),
                self.notes == old(self).notes,
                self.connections == old(self).connections,
                self.next_id == old(self).next_id,
                self.background_image_path == old(self).background_image_path,
                self.connecting_from_id == old(self).connecting_from_id,
            decreases n - i,
        {
            assert(old(self).todos@.take(i + 1).drop_last() =~= old(self).todos@.take(i as int));
            if !self.todos[i].is_done && !self.todos[i].notified {
                if let Some(d) = self.todos[i].due {
                    if now.utc_secs > d.utc_secs {
                        let text = self.todos[i].text.clone();
                        fired.push(text);
                        if self.todos[i].loop_freq == LoopFrequency::Once {
                            self.todos[i].notified = true;
                        } else {
                            let freq = self.todos[i].loop_freq;
                            let next = advance_past(d, freq, now);
                            self.todos[i].due = Some(next);
                        }
                    }
                }
            }
            i = i + 1;
        }
        assert(old(self).todos@.take(n as int) =~= old(self).todos@);
        proof {
            assert forall|a: int, b: int|
                0 <= a < n && 0 <= b < n && a != b implies self.todos[a].id != self.todos[b].id by {
                assert(scanned(old(self).todos[a], self.todos[a], now));
                assert(scanned(old(self).todos[b], self.todos[b], now));
            }
            assert forall|a: int, b: int|
                0 <= a < self.notes.len() && 0 <= b < n implies self.notes[a].id != self.todos[b].id by {
                assert(scanned(old(self).todos[b], self.todos[b], now));
            }
            assert forall|b: int| 0 <= b < n implies self.todos[b].id < self.next_id by {
                assert(scanned(old(self).todos[b], self.todos[b], now));
            }
            assert forall|b: int|
                0 <= b < n && (#[trigger] old(self).todos[b]).loop_freq == LoopFrequency::Once
                    && old(self).todos[b].notified implies self.todos[b] == old(self).todos[b] by {
                assert(scanned(old(self).todos[b], self.todos[b], now));
            }
            assert forall|b: int|
                0 <= b < n && (#[trigger] old(self).todos[b]).loop_freq != LoopFrequency::Once
                    && due_for_notice(old(self).todos[b], now) implies (!self.todos[b].notified
                    && (self.todos[b].due matches Some(d) && d.utc_secs > now.utc_secs)) by {
                assert(scanned(old(self).todos[b], self.todos[b], now));
            }
        }
        fired
    }

    /// Whether the canvas holds together: ids unique over notes and to-do
    /// items and below the counter, due times in range. A canvas read back
    /// from storage is checked with this before it is used.
    pub fn is_well_formed(&self) -> (r: bool)
        ensures
            r == self.wf(),
    {
        let mut i: usize = 0;
        while i < self.notes.len()
            invariant
                i <= self.notes.len(),
                forall|a: int| 0 <= a < i ==> #[trigger] self.notes[a].id < self.next_id,
                forall|a: int, b: int|
                    0 <= a < i && 0 <= b < self.notes.len() && a != b ==> self.notes[a].id
                        != self.notes[b].id,
                forall|a: int, b: int|
                    0 <= a < i && 0 <= b < self.todos.len() ==> self.notes[a].id
                        != self.todos[b].id,
            decreases self.notes.len() - i,
        {
            if self.notes[i].id >= self.next_id {
                return false;
            }
            let mut j: usize = 0;
            while j < self.notes.len()
                invariant
                    i < self.notes.len(),
                    j <= self.notes.len(),
                    forall|b: int| 0 <= b < j && b != i ==> self.notes[i as int].id != #[trigger] self.notes[b].id,
                decreases self.notes.len() - j,
            {
                if j != i && self.notes[j].id == self.notes[i].id {
                    return false;
                }
                j = j + 1;
            }
            let mut j: usize = 0;
            while j < self.todos.len()
                invariant
                    i < self.notes.len(),
                    j <= self.todos.len(),
                    forall|b: int| 0 <= b < j ==> self.notes[i as int].id != #[trigger] self.todos[b].id,
                decreases self.todos.len() - j,
            {
                if self.todos[j].id == self.notes[i].id {
                    return false;
                }
                j = j + 1;
            }
            i = i + 1;
        }
        let mut i: usize = 0;
        while i < self.todos.len()
            invariant
                i <= self.todos.len(),
                forall|a: int| 0 <= a < self.notes.len() ==> #[trigger] self.notes[a].id < self.next_id,
                forall|a: int, b: int|
                    0 <= a < self.notes.len() && 0 <= b < self.notes.len() && a != b ==> self.notes[a].id
                        != self.notes[b].id,
                forall|a: int, b: int|
                    0 <= a < self.notes.len() && 0 <= b < self.todos.len() ==> self.notes[a].id
                        != self.todos[b].id,
                forall|a: int| 0 <= a < i ==> #[trigger] self.todos[a].id < self.next_id,
                forall|a: int| 0 <= a < i ==> (#[trigger] self.todos[a].due matches Some(d) ==> d.wf()),
                forall|a: int, b: int|
                    0 <= a < i && 0 <= b < self.todos.len() && a != b ==> self.todos[a].id
                        != self.todos[b].id,
            decreases self.todos.len() - i,
        {
            if self.todos[i].id >= self.next_id {
                return false;
            }
            match self.todos[i].due {
                Some(d) => {
                    if !(-MAX_SECS <= d.utc_secs && d.utc_secs <= MAX_SECS && -DAY < d.offset_secs as i64
                        && (d.offset_secs as i64) < DAY) {
                        return false;
                    }
                },
                None => {},
            }
            let mut j: usize = 0;
            while j < self.todos.len()
                invariant
                    i < self.todos.len(),
                    j <= self.todos.len(),
                    forall|b: int| 0 <= b < j && b != i ==> self.todos[i as int].id != #[trigger] self.todos[b].id,
                decreases self.todos.len() - j,
            {
                if j != i && self.todos[j].id == self.todos[i].id {
                    return false;
                }
                j = j + 1;
            }
            i = i + 1;
        }
        match self.connecting_from_id {
            Some(p) => self.contains_id(p),
            None => true,
        }
    }
}

} // verus!
