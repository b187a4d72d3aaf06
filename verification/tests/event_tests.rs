use std::collections::HashMap;

use shushing_face::event::{
    hashmap_to_sorted_vec, merge_events, EventId, EventStore, TaskEvent, TaskEventData,
};
use shushing_face::storage::{load_events, save_event};
use shushing_face::task::Task;

fn task(id: u64, description: &str) -> Task {
    Task {
        id,
        description: description.to_string(),
        deadline: Default::default(),
        details: Default::default(),
        completed: false,
    }
}

fn create(id: EventId, description: &str) -> TaskEvent {
    TaskEvent {
        id,
        data: TaskEventData::CreateTask(task(id, description)),
    }
}

fn ids(events: &[TaskEvent]) -> Vec<EventId> {
    events.iter().map(|event| event.id).collect()
}

#[test]
fn test_event_store_new() {
    let store = EventStore::new();
    assert!(store.events.is_empty());
}

#[test]
fn test_event_store_add_and_retrieve_event() {
    let mut store = EventStore::new();
    let task = Task {
        id: 1,
        description: "Test Task".to_string(),
        deadline: Default::default(),
        details: Default::default(),
        completed: false,
    };

    let event = TaskEvent {
        id: 1,
        data: TaskEventData::CreateTask(task),
    };

    {
        let events = &mut store.events;
        events.insert(event.id, event.clone());
    }

    let retrieved_events = &store.events;
    let retrieved_event = retrieved_events.get(&event.id);
    assert!(retrieved_event.is_some());
    assert_eq!(&event, retrieved_event.unwrap());
}

#[test]
fn test_hashmap_to_sorted_vec() {
    let mut hashmap = HashMap::new();
    let task1 = Task {
        id: 1,
        description: "Task 1".to_string(),
        deadline: Default::default(),
        details: Default::default(),
        completed: false,
    };
    let task2 = Task {
        id: 2,
        description: "Task 2".to_string(),
        deadline: Default::default(),
        details: Default::default(),
        completed: false,
    };

    let event1 = TaskEvent {
        id: 2,
        data: TaskEventData::CreateTask(task1),
    };
    let event2 = TaskEvent {
        id: 1,
        data: TaskEventData::CreateTask(task2),
    };

    hashmap.insert(event2.id, event2.clone());
    hashmap.insert(event1.id, event1.clone());

    let sorted_events = hashmap_to_sorted_vec(&hashmap);

    assert_eq!(sorted_events.len(), 2);
    assert_eq!(sorted_events[0].id, 1);
    assert_eq!(sorted_events[1].id, 2);
}

#[test]
fn sorted_vec_of_an_empty_store_is_empty() {
    let hashmap: HashMap<EventId, TaskEvent> = HashMap::new();
    assert!(hashmap_to_sorted_vec(&hashmap).is_empty());
}

#[test]
fn sorted_vec_lists_every_event_by_ascending_id() {
    let mut hashmap = HashMap::new();
    let given = [
        u64::MAX,
        7,
        0,
        300,
        5,
        1 << 40,
        6,
        299,
        301,
        u64::MAX - 1,
        42,
        1,
    ];
    for id in given {
        hashmap.insert(id, create(id, &format!("task {}", id)));
    }
    let sorted = hashmap_to_sorted_vec(&hashmap);
    let mut expected = given.to_vec();
    expected.sort();
    assert_eq!(ids(&sorted), expected);
    for event in &sorted {
        assert_eq!(event, &create(event.id, &format!("task {}", event.id)));
    }
}

#[test]
fn sorted_vec_keeps_the_data_of_each_kind_of_event() {
    let mut hashmap = HashMap::new();
    let update = TaskEvent {
        id: 3,
        data: TaskEventData::UpdateTask(Task {
            completed: true,
            ..task(9, "done")
        }),
    };
    let delete = TaskEvent {
        id: 2,
        data: TaskEventData::DeleteTask(9),
    };
    hashmap.insert(3, update.clone());
    hashmap.insert(2, delete.clone());
    hashmap.insert(1, create(1, "first"));
    assert_eq!(
        hashmap_to_sorted_vec(&hashmap),
        vec![create(1, "first"), delete, update]
    );
}

#[test]
fn merge_keeps_the_event_that_the_store_holds() {
    let mut all_events = HashMap::new();
    all_events.insert(5, create(5, "A"));
    merge_events(&mut all_events, vec![create(5, "B"), create(6, "C")]);
    assert_eq!(all_events.len(), 2);
    assert_eq!(all_events[&5], create(5, "A"));
    assert_eq!(all_events[&6], create(6, "C"));
}

#[test]
fn merge_keeps_the_first_of_two_events_of_one_replica() {
    let mut all_events = HashMap::new();
    merge_events(
        &mut all_events,
        vec![create(1, "first"), create(2, "other"), create(1, "second")],
    );
    assert_eq!(all_events.len(), 2);
    assert_eq!(all_events[&1], create(1, "first"));
}

#[test]
fn merge_of_nothing_changes_nothing() {
    let mut all_events = HashMap::new();
    all_events.insert(1, create(1, "kept"));
    merge_events(&mut all_events, Vec::new());
    assert_eq!(all_events.len(), 1);
    assert_eq!(all_events[&1], create(1, "kept"));
}

#[test]
fn load_takes_the_event_of_the_replica_resolved_first() {
    let mut store = EventStore::new();
    let replica_1 = vec![create(5, "A")];
    let replica_2 = vec![create(5, "B")];
    let merged = load_events(vec![replica_1, replica_2], &mut store);
    assert_eq!(merged, vec![create(5, "A")]);
    assert_eq!(store.events.len(), 1);
    assert_eq!(store.events[&5], create(5, "A"));
}

#[test]
fn load_merges_replicas_and_sorts_by_id() {
    let mut store = EventStore::new();
    let replica_1 = vec![create(3, "local 3"), create(1, "local 1")];
    let replica_2 = vec![create(2, "cloud 2"), create(3, "cloud 3"), create(9, "cloud 9")];
    let replica_3 = vec![create(9, "box 9"), create(0, "box 0")];
    let merged = load_events(vec![replica_1, replica_2, replica_3], &mut store);
    assert_eq!(
        merged,
        vec![
            create(0, "box 0"),
            create(1, "local 1"),
            create(2, "cloud 2"),
            create(3, "local 3"),
            create(9, "cloud 9"),
        ]
    );
    assert_eq!(hashmap_to_sorted_vec(&store.events), merged);
}

#[test]
fn load_of_a_replica_set_against_itself_gives_the_same_sequence() {
    let replicas = || {
        vec![
            vec![create(4, "a"), create(2, "b")],
            vec![create(2, "c"), create(8, "d")],
        ]
    };
    let mut once = EventStore::new();
    let single = load_events(replicas(), &mut once);

    let mut twice_over = replicas();
    twice_over.extend(replicas());
    let mut doubled_store = EventStore::new();
    let doubled = load_events(twice_over, &mut doubled_store);
    assert_eq!(doubled, single);

    let again = load_events(replicas(), &mut once);
    assert_eq!(again, single);

    let mut held = once.events;
    for replica in replicas() {
        merge_events(&mut held, replica);
    }
    assert_eq!(hashmap_to_sorted_vec(&held), single);
}

#[test]
fn load_starts_from_an_empty_log() {
    let mut store = EventStore::new();
    store.events.insert(77, create(77, "stale"));
    let merged = load_events(vec![vec![create(1, "on disk")]], &mut store);
    assert_eq!(merged, vec![create(1, "on disk")]);
    assert!(!store.events.contains_key(&77));
}

#[test]
fn load_of_no_replica_gives_an_empty_log() {
    let mut store = EventStore::new();
    store.events.insert(1, create(1, "stale"));
    assert!(load_events(Vec::new(), &mut store).is_empty());
    assert!(store.events.is_empty());
    assert!(load_events(vec![Vec::new(), Vec::new()], &mut store).is_empty());
}

#[test]
fn save_event_puts_the_event_in_and_returns_the_whole_log() {
    let mut store = EventStore::new();
    let first = save_event(create(2, "two"), &mut store);
    assert_eq!(first.version, "1");
    assert_eq!(first.events, vec![create(2, "two")]);
    let second = save_event(create(1, "one"), &mut store);
    assert_eq!(second.version, "1");
    assert_eq!(second.events, vec![create(1, "one"), create(2, "two")]);
    assert_eq!(store.events.len(), 2);
}

#[test]
fn save_event_replaces_an_event_of_the_same_id() {
    let mut store = EventStore::new();
    save_event(create(1, "old"), &mut store);
    let saved = save_event(create(1, "new"), &mut store);
    assert_eq!(saved.events, vec![create(1, "new")]);
}

#[test]
fn event_clone_is_equal_to_the_event() {
    let update = TaskEvent {
        id: 3,
        data: TaskEventData::UpdateTask(task(9, "done")),
    };
    assert_eq!(update.clone(), update);
    let delete = TaskEvent {
        id: 4,
        data: TaskEventData::DeleteTask(9),
    };
    assert_eq!(delete.clone(), delete);
    assert_ne!(update, delete);
}
