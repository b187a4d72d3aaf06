//! Events, the in-memory store, and the merge of replicas.
//!
//! The store maps the id of an event to the event. Replicas are merged into
//! it in trust order, and an id that is already there keeps its event.
//! The canonical sequence of a store lists its events by ascending id.

use std::collections::HashMap;
use vstd::prelude::*;
use vstd::std_specs::hash::spec_keys_iter;
use vstd::std_specs::iter::IteratorSpec;

use crate::task::{Task, TaskId};

verus! {

broadcast use vstd::std_specs::hash::group_hash_axioms;

pub type EventId = u64;

/// What an event records.
#[derive(Debug, PartialEq, Eq, PartialOrd, Ord)]
pub enum TaskEventData {
    CreateTask(Task),
    UpdateTask(Task),
    DeleteTask(TaskId),
}

impl Clone for TaskEventData {
    fn clone(&self) -> (copy: Self)
        ensures
            copy == *self,
    {
        match self {
            TaskEventData::CreateTask(task) => TaskEventData::CreateTask(task.clone()),
            TaskEventData::UpdateTask(task) => TaskEventData::UpdateTask(task.clone()),
            TaskEventData::DeleteTask(task_id) => TaskEventData::DeleteTask(*task_id),
        }
    }
}

/// One entry of the log. The id orders the log and tells entries apart.
#[derive(Debug, PartialEq, Eq, PartialOrd, Ord)]
pub struct TaskEvent {
    pub id: EventId,
    pub data: TaskEventData,
}

impl Clone for TaskEvent {
    fn clone(&self) -> (copy: Self)
        ensures
            copy == *self,
    {
        TaskEvent { id: self.id, data: self.data.clone() }
    }
}

// ---------------------------------------------------------------------
// The model
// ---------------------------------------------------------------------

/// Every event is filed under its own id.
pub open spec fn keyed_by_id(m: Map<EventId, TaskEvent>) -> bool {
    forall|id: EventId| #[trigger] m.contains_key(id) ==> m[id].id == id
}

/// First seen wins: an event enters only where its id is not yet there.
pub open spec fn merge_event(m: Map<EventId, TaskEvent>, event: TaskEvent) -> Map<
    EventId,
    TaskEvent,
> {
    if m.contains_key(event.id) {
        m
    } else {
        m.insert(event.id, event)
    }
}

/// The events of one replica, merged in the order in which it lists them.
pub open spec fn merge_replica(m: Map<EventId, TaskEvent>, events: Seq<TaskEvent>) -> Map<
    EventId,
    TaskEvent,
>
    decreases events.len(),
{
    if events.len() == 0 {
        m
    } else {
        merge_event(merge_replica(m, events.drop_last()), events.last())
    }
}

/// Several replicas, merged in the order given: the first is trusted most.
pub open spec fn merge_replicas(m: Map<EventId, TaskEvent>, replicas: Seq<Seq<TaskEvent>>) -> Map<
    EventId,
    TaskEvent,
>
    decreases replicas.len(),
{
    if replicas.len() == 0 {
        m
    } else {
        merge_replica(merge_replicas(m, replicas.drop_last()), replicas.last())
    }
}

/// The events that a list of replica contents holds.
pub open spec fn replica_views(replicas: Seq<Vec<TaskEvent>>) -> Seq<Seq<TaskEvent>> {
    replicas.map_values(|events: Vec<TaskEvent>| events@)
}

/// Ids rise strictly along `events`.
pub open spec fn ascending_by_id(events: Seq<TaskEvent>) -> bool {
    forall|i: int, j: int| 0 <= i < j < events.len() ==> events[i].id < events[j].id
}

/// `events` lists exactly the events of `m`, by ascending id.
pub open spec fn is_canonical(events: Seq<TaskEvent>, m: Map<EventId, TaskEvent>) -> bool {
    &&& ascending_by_id(events)
    &&& forall|i: int|
        0 <= i < events.len() ==> m.contains_key(#[trigger] events[i].id) && m[events[i].id]
            == events[i]
    &&& forall|id: EventId| #[trigger]
        m.contains_key(id) ==> exists|i: int| 0 <= i < events.len() && events[i].id == id
}

/// The canonical sequence of a store.
pub open spec fn canonical_sequence(m: Map<EventId, TaskEvent>) -> Seq<TaskEvent> {
    choose|events: Seq<TaskEvent>| is_canonical(events, m)
}

// ---------------------------------------------------------------------
// The store
// ---------------------------------------------------------------------

/// The merged log of a session.
#[derive(Debug)]
pub struct EventStore {
    pub events: HashMap<EventId, TaskEvent>,
}

impl View for EventStore {
    type V = Map<EventId, TaskEvent>;

    open spec fn view(&self) -> Map<EventId, TaskEvent> {
        self.events@
    }
}

impl EventStore {
    /// The store holds a log: every event is filed under its own id.
    pub open spec fn wf(&self) -> bool {
        keyed_by_id(self@)
    }

    pub fn new() -> (store: Self)
        ensures
            store@ == Map::<EventId, TaskEvent>::empty(),
            store.wf(),
    {
        EventStore { events: HashMap::new() }
    }
}

/// Merges the events of one replica into `all_events`. An id that
/// `all_events` holds keeps its event, also against an earlier event of the
/// same replica.
pub fn merge_events(all_events: &mut HashMap<EventId, TaskEvent>, file_events: Vec<TaskEvent>)
    ensures
        final(all_events)@ == merge_replica(old(all_events)@, file_events@),
{
    let ghost before = all_events@;
    let mut i: usize = 0;
    while i < file_events.len()
        invariant
            i <= file_events.len(),
            all_events@ == merge_replica(before, file_events@.take(i as int)),
        decreases file_events.len() - i,
    {
        let event = file_events[i].clone();
        proof {
            let done = file_events@.take(i as int);
            let next = file_events@.take(i + 1);
            assert(next.drop_last() =~= done);
            assert(next.last() == event);
        }
        all_events.entry(event.id).or_insert(event);
        i += 1;
    }
    proof {
        assert(file_events@.take(file_events.len() as int) =~= file_events@);
    }
}

/// Merging the events of a replica into a log gives a log.
pub proof fn merge_replica_keeps_keying(m: Map<EventId, TaskEvent>, events: Seq<TaskEvent>)
    requires
        keyed_by_id(m),
    ensures
        keyed_by_id(merge_replica(m, events)),
    decreases events.len(),
{
    if events.len() > 0 {
        merge_replica_keeps_keying(m, events.drop_last());
    }
}

/// A store has one canonical sequence: two that list the same events by
/// ascending id agree up to any length that both reach.
proof fn canonical_prefixes_agree(
    a: Seq<TaskEvent>,
    b: Seq<TaskEvent>,
    m: Map<EventId, TaskEvent>,
    n: int,
)
    requires
        is_canonical(a, m),
        is_canonical(b, m),
        0 <= n <= a.len(),
        n <= b.len(),
    ensures
        forall|i: int| 0 <= i < n ==> a[i] == b[i],
    decreases n,
{
    if n > 0 {
        canonical_prefixes_agree(a, b, m, n - 1);
        let k = n - 1;
        assert(m.contains_key(a[k].id));
        assert(m.contains_key(b[k].id));
        let in_b = choose|i: int| 0 <= i < b.len() && b[i].id == a[k].id;
        let in_a = choose|i: int| 0 <= i < a.len() && a[i].id == b[k].id;
        if in_b < k {
            assert(a[in_b].id == b[in_b].id);
            assert(a[in_b].id < a[k].id);
        }
        if in_a < k {
            assert(a[in_a].id == b[in_a].id);
            assert(b[in_a].id < b[k].id);
        }
        if in_b > k {
            assert(b[k].id < b[in_b].id);
        }
        if in_a > k {
            assert(a[k].id < a[in_a].id);
        }
        assert(a[k].id == b[k].id);
    }
}

/// A store has one canonical sequence.
pub proof fn canonical_is_unique(a: Seq<TaskEvent>, b: Seq<TaskEvent>, m: Map<EventId, TaskEvent>)
    requires
        is_canonical(a, m),
        is_canonical(b, m),
    ensures
        a == b,
{
    if a.len() < b.len() {
        canonical_prefixes_agree(a, b, m, a.len() as int);
        let extra = b[a.len() as int];
        assert(m.contains_key(extra.id));
        let in_a = choose|i: int| 0 <= i < a.len() && a[i].id == extra.id;
        assert(a[in_a] == b[in_a]);
        assert(b[in_a].id < extra.id);
    } else if b.len() < a.len() {
        canonical_prefixes_agree(a, b, m, b.len() as int);
        let extra = a[b.len() as int];
        assert(m.contains_key(extra.id));
        let in_b = choose|i: int| 0 <= i < b.len() && b[i].id == extra.id;
        assert(a[in_b] == b[in_b]);
        assert(a[in_b].id < extra.id);
    } else {
        canonical_prefixes_agree(a, b, m, a.len() as int);
        assert(a =~= b);
    }
}

/// Puts `event` where its id belongs among `events`.
fn insert_by_id(events: &mut Vec<TaskEvent>, event: TaskEvent)
    requires
        ascending_by_id(old(events)@),
        forall|i: int| 0 <= i < old(events)@.len() ==> old(events)@[i].id != event.id,
    ensures
        ascending_by_id(final(events)@),
        exists|at: int|
            0 <= at <= old(events)@.len() && final(events)@ == #[trigger] old(events)@.insert(
                at,
                event,
            ),
{
    let mut at: usize = 0;
    while at < events.len() && events[at].id < event.id
        invariant
            at <= events.len(),
            events@ == old(events)@,
            forall|i: int| 0 <= i < at ==> events@[i].id < event.id,
        decreases events.len() - at,
    {
        at += 1;
    }
    let ghost before = events@;
    events.insert(at, event);
    proof {
        assert forall|i: int, j: int| 0 <= i < j < events@.len() implies events@[i].id
            < events@[j].id by {
            if j < at {
                assert(events@[i] == before[i] && events@[j] == before[j]);
            } else if j == at {
                assert(events@[i] == before[i]);
            } else if i < at {
                assert(events@[i] == before[i] && events@[j] == before[j - 1]);
                assert(before[at as int].id > event.id);
                assert(at as int <= j - 1);
            } else if i == at {
                assert(events@[j] == before[j - 1]);
                assert(at as int <= j - 1);
                assert(before[at as int].id >= event.id);
            } else {
                assert(events@[i] == before[i - 1] && events@[j] == before[j - 1]);
            }
        }
        assert(events@ == before.insert(at as int, event));
    }
}

/// Putting a new event where its id belongs keeps a sequence canonical.
pub proof fn canonical_after_insert(
    events: Seq<TaskEvent>,
    m: Map<EventId, TaskEvent>,
    at: int,
    event: TaskEvent,
)
    requires
        is_canonical(events, m),
        !m.contains_key(event.id),
        0 <= at <= events.len(),
        ascending_by_id(events.insert(at, event)),
    ensures
        is_canonical(events.insert(at, event), m.insert(event.id, event)),
{
    let after = events.insert(at, event);
    let grown = m.insert(event.id, event);
    assert forall|i: int| 0 <= i < after.len() implies grown.contains_key(#[trigger] after[i].id)
        && grown[after[i].id] == after[i] by {
        if i < at {
            assert(after[i] == events[i]);
            assert(m.contains_key(events[i].id));
        } else if i > at {
            assert(after[i] == events[i - 1]);
            assert(m.contains_key(events[i - 1].id));
        }
    }
    assert forall|id: EventId| #[trigger] grown.contains_key(id) implies exists|i: int|
        0 <= i < after.len() && after[i].id == id by {
        if id == event.id {
            assert(after[at].id == id);
        } else {
            assert(m.contains_key(id));
            let i = choose|i: int| 0 <= i < events.len() && events[i].id == id;
            if i < at {
                assert(after[i] == events[i]);
            } else {
                assert(after[i + 1] == events[i]);
            }
        }
    }
}

/// The events of a store, by ascending id.
pub fn hashmap_to_sorted_vec(hashmap: &HashMap<EventId, TaskEvent>) -> (events: Vec<TaskEvent>)
    requires
        keyed_by_id(hashmap@),
    ensures
        is_canonical(events@, hashmap@),
        events@ == canonical_sequence(hashmap@),
{
    let ghost keys = spec_keys_iter(hashmap).remaining();
    let mut ids: Vec<EventId> = Vec::new();
    for id in it: hashmap.keys()
        invariant
            it.seq() == keys,
            ids@.len() == it.index(),
            forall|j: int| 0 <= j < ids@.len() ==> ids@[j] == *keys[j],
    {
        ids.push(*id);
    }
    proof {
        assert(ids@ =~= keys.unref());
        assert(ids@.no_duplicates()) by {
            assert forall|i: int, j: int|
                0 <= i < ids@.len() && 0 <= j < ids@.len() && i != j implies ids@[i] != ids@[j] by {
                assert(keys[i] != keys[j]);
            }
        }
        assert(ids@.to_set() == hashmap@.dom());
    }
    let mut events: Vec<TaskEvent> = Vec::new();
    let ghost mut seen = Map::<EventId, TaskEvent>::empty();
    let mut n: usize = 0;
    while n < ids.len()
        invariant
            n <= ids.len(),
            keyed_by_id(hashmap@),
            ids@.no_duplicates(),
            ids@.to_set() == hashmap@.dom(),
            is_canonical(events@, seen),
            seen.dom() =~= ids@.take(n as int).to_set(),
            forall|id: EventId| #[trigger] seen.contains_key(id) ==> seen[id] == hashmap@[id],
        decreases ids.len() - n,
    {
        let id = ids[n];
        proof {
            assert(ids@.to_set().contains(id));
            assert(!ids@.take(n as int).contains(id));
            assert(ids@.take(n + 1) =~= ids@.take(n as int).push(id));
            ids@.take(n as int).lemma_push_to_set_commute(id);
        }
        match hashmap.get(&id) {
            None => {},
            Some(found) => {
                let event = found.clone();
                let ghost before = events@;
                proof {
                    assert(!seen.contains_key(id));
                    assert forall|i: int| 0 <= i < before.len() implies before[i].id != id by {
                        assert(seen.contains_key(before[i].id));
                    }
                }
                insert_by_id(&mut events, event);
                proof {
                    let at = choose|at: int|
                        0 <= at <= before.len() && events@ == #[trigger] before.insert(at, event);
                    canonical_after_insert(before, seen, at, event);
                    seen = seen.insert(id, event);
                }
            },
        }
        n += 1;
    }
    proof {
        assert(ids@.take(n as int) =~= ids@);
        assert(seen =~= hashmap@);
        canonical_is_unique(events@, canonical_sequence(hashmap@), hashmap@);
    }
    events
}

// ---------------------------------------------------------------------
// What holds of every merge
// ---------------------------------------------------------------------

/// Some event of `events` has the id `id`.
pub open spec fn lists_id(events: Seq<TaskEvent>, id: EventId) -> bool {
    exists|i: int| 0 <= i < events.len() && (#[trigger] events[i]).id == id
}

/// Some event of some replica has the id `id`.
pub open spec fn replicas_list_id(replicas: Seq<Seq<TaskEvent>>, id: EventId) -> bool {
    exists|r: int| 0 <= r < replicas.len() && lists_id(#[trigger] replicas[r], id)
}

/// `events[i]` is the first event of `events` with its id.
pub open spec fn is_first_with_id(events: Seq<TaskEvent>, i: int) -> bool {
    &&& 0 <= i < events.len()
    &&& forall|j: int| 0 <= j < i ==> (#[trigger] events[j]).id != events[i].id
}

/// A merge of one replica keeps what the store held, takes in every id of
/// the replica and no other, and gives a new id the first event that has
/// it.
pub proof fn merge_replica_first_seen_wins(m: Map<EventId, TaskEvent>, events: Seq<TaskEvent>)
    ensures
        forall|id: EventId| #[trigger]
            m.contains_key(id) ==> merge_replica(m, events).contains_key(id) && merge_replica(
                m,
                events,
            )[id] == m[id],
        forall|id: EventId| #[trigger]
            merge_replica(m, events).contains_key(id) <==> m.contains_key(id) || lists_id(
                events,
                id,
            ),
        forall|i: int|
            is_first_with_id(events, i) && !m.contains_key(events[i].id) ==> merge_replica(
                m,
                events,
            )[(#[trigger] events[i]).id] == events[i],
    decreases events.len(),
{
    let merged = merge_replica(m, events);
    if events.len() > 0 {
        let front = events.drop_last();
        let before = merge_replica(m, front);
        merge_replica_first_seen_wins(m, front);
        assert forall|id: EventId| #[trigger] merged.contains_key(id) <==> m.contains_key(id)
            || lists_id(events, id) by {
            if lists_id(front, id) {
                let i = choose|i: int| 0 <= i < front.len() && (#[trigger] front[i]).id == id;
                assert(events[i].id == id);
            }
            if lists_id(events, id) {
                let i = choose|i: int| 0 <= i < events.len() && (#[trigger] events[i]).id == id;
                if i < front.len() {
                    assert(front[i].id == id);
                }
            }
            if id == events.last().id {
                assert(events[events.len() - 1].id == id);
            }
        }
        assert forall|i: int|
            is_first_with_id(events, i) && !m.contains_key(events[i].id) implies merged[(
            #[trigger] events[i]).id] == events[i] by {
            if i < front.len() {
                assert(front[i] == events[i]);
                assert forall|j: int| 0 <= j < i implies (#[trigger] front[j]).id
                    != front[i].id by {
                    assert(events[j].id != events[i].id);
                }
                assert(is_first_with_id(front, i));
                assert(before.contains_key(front[i].id)) by {
                    assert(lists_id(front, front[i].id));
                }
            } else {
                if lists_id(front, events[i].id) {
                    let j = choose|j: int|
                        0 <= j < front.len() && (#[trigger] front[j]).id == events[i].id;
                    assert(events[j].id == events[i].id);
                }
            }
        }
    }
}

/// A replica whose ids the store holds already changes nothing.
pub proof fn merge_replica_absorbs(m: Map<EventId, TaskEvent>, events: Seq<TaskEvent>)
    requires
        forall|i: int| 0 <= i < events.len() ==> m.contains_key((#[trigger] events[i]).id),
    ensures
        merge_replica(m, events) == m,
    decreases events.len(),
{
    if events.len() > 0 {
        let front = events.drop_last();
        assert forall|i: int| 0 <= i < front.len() implies m.contains_key(
            (#[trigger] front[i]).id,
        ) by {
            assert(front[i] == events[i]);
        }
        merge_replica_absorbs(m, front);
        assert(m.contains_key(events[events.len() - 1].id));
    }
}

/// A merge of several replicas keeps what the store held, and takes in
/// every id of every replica and no other.
pub proof fn merge_replicas_grows(m: Map<EventId, TaskEvent>, replicas: Seq<Seq<TaskEvent>>)
    ensures
        forall|id: EventId| #[trigger]
            m.contains_key(id) ==> merge_replicas(m, replicas).contains_key(id) && merge_replicas(
                m,
                replicas,
            )[id] == m[id],
        forall|id: EventId| #[trigger]
            merge_replicas(m, replicas).contains_key(id) <==> m.contains_key(id)
                || replicas_list_id(replicas, id),
    decreases replicas.len(),
{
    let merged = merge_replicas(m, replicas);
    if replicas.len() > 0 {
        let front = replicas.drop_last();
        let before = merge_replicas(m, front);
        merge_replicas_grows(m, front);
        merge_replica_first_seen_wins(before, replicas.last());
        assert forall|id: EventId| #[trigger] merged.contains_key(id) <==> m.contains_key(id)
            || replicas_list_id(replicas, id) by {
            if replicas_list_id(front, id) {
                let r = choose|r: int| 0 <= r < front.len() && lists_id(#[trigger] front[r], id);
                assert(lists_id(replicas[r], id));
            }
            if replicas_list_id(replicas, id) {
                let r = choose|r: int|
                    0 <= r < replicas.len() && lists_id(#[trigger] replicas[r], id);
                if r < front.len() {
                    assert(lists_id(front[r], id));
                }
            }
            if lists_id(replicas.last(), id) {
                assert(lists_id(replicas[replicas.len() - 1], id));
            }
        }
    }
}

/// Replicas whose ids the store holds already change nothing.
pub proof fn merge_replicas_absorbs(m: Map<EventId, TaskEvent>, replicas: Seq<Seq<TaskEvent>>)
    requires
        forall|id: EventId| replicas_list_id(replicas, id) ==> #[trigger] m.contains_key(id),
    ensures
        merge_replicas(m, replicas) == m,
    decreases replicas.len(),
{
    if replicas.len() > 0 {
        let front = replicas.drop_last();
        let last = replicas.last();
        assert forall|id: EventId| replicas_list_id(front, id) implies #[trigger] m.contains_key(
            id,
        ) by {
            let r = choose|r: int| 0 <= r < front.len() && lists_id(#[trigger] front[r], id);
            assert(lists_id(replicas[r], id));
        }
        merge_replicas_absorbs(m, front);
        assert forall|i: int| 0 <= i < last.len() implies m.contains_key(
            (#[trigger] last[i]).id,
        ) by {
            assert(lists_id(replicas[replicas.len() - 1], last[i].id));
        }
        merge_replica_absorbs(m, last);
    }
}

/// Merging one list of replicas and then another is merging the two
/// lists, one after the other, in one go.
pub proof fn merge_replicas_in_two_steps(
    m: Map<EventId, TaskEvent>,
    first: Seq<Seq<TaskEvent>>,
    second: Seq<Seq<TaskEvent>>,
)
    ensures
        merge_replicas(m, first + second) == merge_replicas(merge_replicas(m, first), second),
    decreases second.len(),
{
    if second.len() == 0 {
        assert(first + second =~= first);
    } else {
        assert((first + second).drop_last() =~= first + second.drop_last());
        assert((first + second).last() == second.last());
        merge_replicas_in_two_steps(m, first, second.drop_last());
    }
}

/// Merging is idempotent: replicas that were merged into a store change
/// nothing when they are merged into it again, whether in a second load or
/// listed twice in one, and so the canonical sequence stays what it was.
pub proof fn merge_is_idempotent(m: Map<EventId, TaskEvent>, replicas: Seq<Seq<TaskEvent>>)
    ensures
        merge_replicas(merge_replicas(m, replicas), replicas) == merge_replicas(m, replicas),
        merge_replicas(m, replicas + replicas) == merge_replicas(m, replicas),
        canonical_sequence(merge_replicas(m, replicas + replicas)) == canonical_sequence(
            merge_replicas(m, replicas),
        ),
{
    merge_replicas_grows(m, replicas);
    merge_replicas_absorbs(merge_replicas(m, replicas), replicas);
    merge_replicas_in_two_steps(m, replicas, replicas);
}

/// First seen wins across replicas: an id that the store does not hold
/// gets the event of the first replica that lists it, and within that
/// replica the first event that has it. What the store held, it keeps.
pub proof fn merge_replicas_first_seen_wins(
    m: Map<EventId, TaskEvent>,
    replicas: Seq<Seq<TaskEvent>>,
    r: int,
    i: int,
)
    requires
        0 <= r < replicas.len(),
        is_first_with_id(replicas[r], i),
        !m.contains_key(replicas[r][i].id),
        forall|earlier: int|
            0 <= earlier < r ==> !lists_id(#[trigger] replicas[earlier], replicas[r][i].id),
    ensures
        merge_replicas(m, replicas).contains_key(replicas[r][i].id),
        merge_replicas(m, replicas)[replicas[r][i].id] == replicas[r][i],
    decreases replicas.len(),
{
    let id = replicas[r][i].id;
    let front = replicas.drop_last();
    let before = merge_replicas(m, front);
    if r == replicas.len() - 1 {
        merge_replicas_grows(m, front);
        assert(!before.contains_key(id)) by {
            if replicas_list_id(front, id) {
                let earlier = choose|earlier: int|
                    0 <= earlier < front.len() && lists_id(#[trigger] front[earlier], id);
                assert(lists_id(replicas[earlier], id));
            }
        }
        merge_replica_first_seen_wins(before, replicas.last());
    } else {
        assert(front[r] == replicas[r]);
        assert forall|earlier: int| 0 <= earlier < r implies !lists_id(
            #[trigger] front[earlier],
            front[r][i].id,
        ) by {
            assert(front[earlier] == replicas[earlier]);
        }
        merge_replicas_first_seen_wins(m, front, r, i);
        merge_replica_first_seen_wins(before, replicas.last());
    }
}

// ---------------------------------------------------------------------
// Every log has a canonical sequence
// ---------------------------------------------------------------------

/// Where an event with the id `id` belongs among `events`: behind every
/// event of a lesser id.
pub open spec fn place_of(events: Seq<TaskEvent>, id: EventId) -> int
    decreases events.len(),
{
    if events.len() == 0 || events.last().id < id {
        events.len() as int
    } else {
        place_of(events.drop_last(), id)
    }
}

/// An event put at its place keeps the ids ascending.
proof fn place_keeps_ascending(events: Seq<TaskEvent>, event: TaskEvent)
    requires
        ascending_by_id(events),
        !lists_id(events, event.id),
    ensures
        0 <= place_of(events, event.id) <= events.len(),
        ascending_by_id(events.insert(place_of(events, event.id), event)),
    decreases events.len(),
{
    let at = place_of(events, event.id);
    let after = events.insert(at, event);
    if events.len() == 0 {
    } else if events.last().id < event.id {
        assert forall|i: int, j: int| 0 <= i < j < after.len() implies after[i].id
            < after[j].id by {
            if j < at {
                assert(after[i] == events[i] && after[j] == events[j]);
            } else {
                assert(after[j] == event);
                assert(after[i] == events[i]);
                assert(i == events.len() - 1 || events[i].id < events[events.len() - 1].id);
            }
        }
    } else {
        let front = events.drop_last();
        assert(ascending_by_id(front)) by {
            assert forall|i: int, j: int| 0 <= i < j < front.len() implies front[i].id
                < front[j].id by {
                assert(front[i] == events[i] && front[j] == events[j]);
            }
        }
        assert(!lists_id(front, event.id)) by {
            if lists_id(front, event.id) {
                let i = choose|i: int| 0 <= i < front.len() && (#[trigger] front[i]).id == event.id;
                assert(events[i].id == event.id);
            }
        }
        place_keeps_ascending(front, event);
        let front_after = front.insert(at, event);
        assert(after =~= front_after.push(events.last()));
        assert(events[events.len() - 1].id != event.id);
        assert forall|i: int, j: int| 0 <= i < j < after.len() implies after[i].id
            < after[j].id by {
            if j < front_after.len() {
                assert(after[i] == front_after[i] && after[j] == front_after[j]);
            } else {
                assert(after[j] == events.last());
                assert(after[i] == front_after[i]);
                if i < at {
                    assert(front_after[i] == events[i]);
                } else if i > at {
                    assert(front_after[i] == events[i - 1]);
                }
            }
        }
    }
}

/// Every log has a canonical sequence, and it lists the events by
/// strictly ascending id: whatever set of events with distinct ids a store
/// holds, `canonical_sequence` names the one sequence of them that is
/// sorted.
pub proof fn canonical_sequence_is_sorted(m: Map<EventId, TaskEvent>)
    requires
        m.dom().finite(),
        keyed_by_id(m),
    ensures
        is_canonical(canonical_sequence(m), m),
        ascending_by_id(canonical_sequence(m)),
        canonical_sequence(m).len() == m.dom().len(),
    decreases m.dom().len(),
{
    if m.dom().len() == 0 {
        let none = Seq::<TaskEvent>::empty();
        assert(is_canonical(none, m)) by {
            assert forall|id: EventId| #[trigger] m.contains_key(id) implies exists|i: int|
                0 <= i < none.len() && none[i].id == id by {
                assert(m.dom().contains(id));
                assert(m.dom() =~= Set::<EventId>::empty());
            }
        }
        canonical_is_unique(none, canonical_sequence(m), m);
    } else {
        let id = m.dom().choose();
        let event = m[id];
        let rest = m.remove(id);
        assert(m.contains_key(id));
        assert(keyed_by_id(rest)) by {
            assert forall|other: EventId| #[trigger] rest.contains_key(other) implies rest[other].id
                == other by {
                assert(m.contains_key(other));
            }
        }
        canonical_sequence_is_sorted(rest);
        let listed = canonical_sequence(rest);
        assert(!lists_id(listed, event.id)) by {
            if lists_id(listed, event.id) {
                let i = choose|i: int|
                    0 <= i < listed.len() && (#[trigger] listed[i]).id == event.id;
                assert(rest.contains_key(listed[i].id));
            }
        }
        place_keeps_ascending(listed, event);
        let at = place_of(listed, event.id);
        canonical_after_insert(listed, rest, at, event);
        assert(rest.insert(event.id, event) =~= m);
        canonical_is_unique(listed.insert(at, event), canonical_sequence(m), m);
    }
}

} // verus!
