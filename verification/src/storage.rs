//! The operations on the replicated log.
//!
//! Nothing here reads or writes a file. The caller reads every replica of
//! an artifact into a `Replica` and hands the list in; what has to be
//! written comes back as a list of `ReplicaWrite`, one for each replica,
//! all with the same bytes. The caller performs them in order and stops at
//! the first that fails: replicas written before stay written, and the
//! next save brings all into line, since every save carries the whole log.
//!
//! The envelope is turned into bytes and back by the caller too. Between
//! the two, this module decides.

use std::path::PathBuf;
use vstd::prelude::*;
use vstd::slice::slice_to_vec;
use vstd::utf8::{decode_utf8, valid_utf8};

use crate::config::{AppConfig, Config, SERIALIZATION_VERSION};
use crate::crypto::{
    decrypt, decrypt_inverts_encrypt, derivable, derive_key, derived_key, encrypt,
    generate_random_bytes, open_blob, seals, zero_key, EncryptionKey, Salt, ENCRYPTION_KEY_SIZE,
    MAX_PLAINTEXT_SIZE, SALT_SIZE,
};
use crate::error::{
    Failure, TasksError, INCORRECT_PASSWORD, INVALID_SALT_SIZE, SALT_FILE_NOT_FOUND,
};
use crate::event::{
    canonical_sequence, hashmap_to_sorted_vec, is_canonical, keyed_by_id, merge_events,
    merge_replicas, replica_views, EventId, EventStore, TaskEvent,
};
use crate::util::{first_existing, first_existing_replica, Replica, ReplicaRead};

verus! {

broadcast use vstd::std_specs::hash::group_hash_axioms;

/// The envelope: what is turned into bytes and sealed.
#[derive(Debug)]
pub struct TasksData {
    pub version: String,
    pub events: Vec<TaskEvent>,
}

impl TasksData {
    /// The envelope of `events` in the current version.
    pub fn new(events: Vec<TaskEvent>) -> (data: Self)
        ensures
            data.version@ == SERIALIZATION_VERSION@,
            data.events == events,
    {
        TasksData { version: SERIALIZATION_VERSION.to_owned(), events }
    }
}

/// One write that the caller owes: these bytes, whole, to this path.
#[derive(Debug)]
pub struct ReplicaWrite {
    pub path: PathBuf,
    pub data: Vec<u8>,
}

/// `writes` sends `data` to every replica, in the order of `replicas`.
pub open spec fn is_fan_out(
    writes: Seq<ReplicaWrite>,
    replicas: Seq<Replica>,
    data: Seq<u8>,
) -> bool {
    &&& writes.len() == replicas.len()
    &&& forall|i: int|
        0 <= i < writes.len() ==> (#[trigger] writes[i]).path == replicas[i].path && writes[i].data@
            == data
}

/// Whether any replica of the log exists.
pub fn check_exists(replicas: &Vec<Replica>) -> (res: Result<bool, TasksError>)
    ensures
        res matches Ok(found) && found == (exists|i: int|
            0 <= i < replicas@.len() && (#[trigger] replicas@[i]).is_present()),
{
    match first_existing_replica(replicas) {
        Some(_) => Ok(true),
        None => Ok(false),
    }
}

/// The writes that send `data` to every replica.
pub fn save_data_to_files(data: &[u8], replicas: &Vec<Replica>) -> (writes: Vec<ReplicaWrite>)
    ensures
        is_fan_out(writes@, replicas@, data@),
{
    let mut writes: Vec<ReplicaWrite> = Vec::new();
    let mut i: usize = 0;
    while i < replicas.len()
        invariant
            i <= replicas.len(),
            writes@.len() == i,
            forall|j: int|
                0 <= j < i ==> (#[trigger] writes@[j]).path == replicas@[j].path && writes@[j].data@
                    == data@,
        decreases replicas.len() - i,
    {
        writes.push(ReplicaWrite { path: replicas[i].path.clone(), data: slice_to_vec(data) });
        i += 1;
    }
    writes
}

/// The writes that send `salt` to every salt replica.
pub fn save_salt(replicas: &Vec<Replica>, salt: &[u8; SALT_SIZE]) -> (writes: Vec<ReplicaWrite>)
    ensures
        is_fan_out(writes@, replicas@, salt@),
{
    save_data_to_files(salt.as_slice(), replicas)
}

/// A fresh random salt, and the writes that send it to every salt replica.
pub fn create_new_salt(replicas: &Vec<Replica>) -> (created: (Salt, Vec<ReplicaWrite>))
    ensures
        is_fan_out(created.1@, replicas@, created.0@),
{
    let mut new_salt: Salt = [0u8; SALT_SIZE];
    generate_random_bytes(&mut new_salt);
    let writes = save_salt(replicas, &new_salt);
    (new_salt, writes)
}

/// The salt that the replicas hold: that of the first replica that exists.
/// No salt where none exists; a failure where the first that exists could
/// not be read or has another length than a salt.
pub open spec fn stored_salt(replicas: Seq<Replica>) -> Result<Option<Seq<u8>>, Failure> {
    match first_existing(replicas) {
        None => Ok(None),
        Some(i) => match replicas[i].content {
            ReplicaRead::Missing => Ok(None),
            ReplicaRead::Unreadable(why) => Err(Failure::ReplicaUnreadable(why@)),
            ReplicaRead::Data(bytes) => if bytes@.len() == SALT_SIZE {
                Ok(Some(bytes@))
            } else {
                Err(Failure::SaltSizeInvalid)
            },
        },
    }
}

/// Reads the salt that the replicas hold.
pub fn read_salt(replicas: &Vec<Replica>) -> (res: Result<Option<Salt>, TasksError>)
    ensures
        match stored_salt(replicas@) {
            Ok(Some(stored)) => res matches Ok(Some(salt)) && salt@ == stored,
            Ok(None) => res matches Ok(None),
            Err(failure) => res matches Err(e) && e.reports(failure),
        },
{
    match first_existing_replica(replicas) {
        None => Ok(None),
        Some(i) => match &replicas[i].content {
            ReplicaRead::Missing => Ok(None),
            ReplicaRead::Unreadable(why) => Err(TasksError::IoError(why.clone())),
            ReplicaRead::Data(bytes) => {
                if bytes.len() != SALT_SIZE {
                    return Err(TasksError::UnknownError(INVALID_SALT_SIZE.to_owned()));
                }
                let mut salt: Salt = [0u8; SALT_SIZE];
                let mut n: usize = 0;
                while n < SALT_SIZE
                    invariant
                        n <= SALT_SIZE,
                        bytes@.len() == SALT_SIZE,
                        forall|j: int| 0 <= j < n ==> salt@[j] == bytes@[j],
                    decreases SALT_SIZE - n,
                {
                    salt[n] = bytes[n];
                    n += 1;
                }
                assert(salt@ =~= bytes@);
                Ok(Some(salt))
            },
        },
    }
}

/// The salt of this installation, and the writes that it takes to have it:
/// none where a replica holds the salt, and a fresh salt sent to every salt
/// replica where none does.
pub fn load_salt(replicas: &Vec<Replica>) -> (res: Result<(Salt, Vec<ReplicaWrite>), TasksError>)
    ensures
        match stored_salt(replicas@) {
            Ok(Some(stored)) => res matches Ok(loaded) && loaded.0@ == stored && loaded.1@.len()
                == 0,
            Ok(None) => res matches Ok(loaded) && is_fan_out(loaded.1@, replicas@, loaded.0@),
            Err(failure) => res matches Err(e) && e.reports(failure),
        },
{
    match read_salt(replicas) {
        Err(e) => Err(e),
        Ok(Some(salt)) => Ok((salt, Vec::new())),
        Ok(None) => Ok(create_new_salt(replicas)),
    }
}

/// Seals `data` once under the held key; the writes send the one blob to
/// every replica.
pub fn encrypt_then_save(
    data: &[u8],
    encryption_key: &EncryptionKey,
    replicas: &Vec<Replica>,
) -> (res: Result<Vec<ReplicaWrite>, TasksError>)
    ensures
        res is Ok <==> data@.len() <= MAX_PLAINTEXT_SIZE,
        res matches Ok(writes) ==> exists|blob: Seq<u8>| #[trigger]
            seals(blob, encryption_key@, data@) && is_fan_out(writes@, replicas@, blob),
        res matches Err(e) ==> e.reports(Failure::PlaintextTooLong),
{
    match encrypt(data, encryption_key.bytes()) {
        Err(e) => Err(e),
        Ok(encrypted) => {
            let writes = save_data_to_files(encrypted.as_slice(), replicas);
            assert(seals(encrypted@, encryption_key@, data@));
            Ok(writes)
        },
    }
}

// ---------------------------------------------------------------------
// Loading
// ---------------------------------------------------------------------

/// Why the content of one replica cannot be used under `key`, if it
/// cannot. A missing replica can: it has no data yet.
pub open spec fn replica_failure(content: ReplicaRead, key: Seq<u8>) -> Option<Failure> {
    match content {
        ReplicaRead::Missing => None,
        ReplicaRead::Unreadable(why) => Some(Failure::ReplicaUnreadable(why@)),
        ReplicaRead::Data(bytes) => match open_blob(bytes@, key) {
            Ok(_) => None,
            Err(failure) => Some(failure),
        },
    }
}

/// The failure of the first replica that cannot be used, if any.
pub open spec fn first_failure(replicas: Seq<Replica>, key: Seq<u8>) -> Option<Failure>
    decreases replicas.len(),
{
    if replicas.len() == 0 {
        None
    } else {
        match first_failure(replicas.drop_last(), key) {
            Some(failure) => Some(failure),
            None => replica_failure(replicas.last().content, key),
        }
    }
}

/// The texts of the replicas that exist and open under `key`, in order.
pub open spec fn opened_texts(replicas: Seq<Replica>, key: Seq<u8>) -> Seq<Seq<char>>
    decreases replicas.len(),
{
    if replicas.len() == 0 {
        Seq::empty()
    } else {
        let before = opened_texts(replicas.drop_last(), key);
        match replicas.last().content {
            ReplicaRead::Data(bytes) => match open_blob(bytes@, key) {
                Ok(text) => before.push(text),
                Err(_) => before,
            },
            _ => before,
        }
    }
}

/// The texts that a list of strings holds.
pub open spec fn text_views(texts: Seq<String>) -> Seq<Seq<char>> {
    texts.map_values(|text: String| text@)
}

/// Opens every replica that exists, in order. A missing replica is passed
/// over. One that cannot be read, or does not open under `key`, fails the
/// whole: a log merged from what is left could bring back what was
/// deleted.
pub fn open_replicas(replicas: &Vec<Replica>, key: &[u8; ENCRYPTION_KEY_SIZE]) -> (res: Result<
    Vec<String>,
    TasksError,
>)
    ensures
        match first_failure(replicas@, key@) {
            Some(failure) => res matches Err(e) && e.reports(failure),
            None => res matches Ok(texts) && text_views(texts@) == opened_texts(replicas@, key@),
        },
{
    let mut texts: Vec<String> = Vec::new();
    let mut i: usize = 0;
    while i < replicas.len()
        invariant
            i <= replicas.len(),
            first_failure(replicas@.take(i as int), key@) is None,
            text_views(texts@) == opened_texts(replicas@.take(i as int), key@),
        decreases replicas.len() - i,
    {
        proof {
            assert(replicas@.take(i + 1).drop_last() =~= replicas@.take(i as int));
            assert(replicas@.take(i + 1).last() == replicas@[i as int]);
            assert(replicas@.take(replicas@.len() as int) =~= replicas@);
        }
        let ghost texts_before = texts@;
        match &replicas[i].content {
            ReplicaRead::Missing => {},
            ReplicaRead::Unreadable(why) => {
                proof {
                    first_failure_stays(replicas@, key@, i + 1);
                }
                return Err(TasksError::IoError(why.clone()));
            },
            ReplicaRead::Data(bytes) => match decrypt(bytes.as_slice(), key) {
                Err(e) => {
                    proof {
                        first_failure_stays(replicas@, key@, i + 1);
                    }
                    return Err(e);
                },
                Ok(text) => {
                    texts.push(text);
                    assert(text_views(texts@) =~= text_views(texts_before).push(text@));
                },
            },
        }
        i += 1;
    }
    proof {
        assert(replicas@.take(replicas@.len() as int) =~= replicas@);
    }
    Ok(texts)
}

/// A failure among the first `n` replicas is the failure of the whole
/// list.
proof fn first_failure_stays(replicas: Seq<Replica>, key: Seq<u8>, n: int)
    requires
        0 <= n <= replicas.len(),
        first_failure(replicas.take(n), key) is Some,
    ensures
        first_failure(replicas, key) == first_failure(replicas.take(n), key),
    decreases replicas.len() - n,
{
    if n < replicas.len() {
        assert(replicas.take(n + 1).drop_last() =~= replicas.take(n));
        first_failure_stays(replicas, key, n + 1);
    } else {
        assert(replicas.take(n) =~= replicas);
    }
}

/// Opens every replica that exists under the held key. See `open_replicas`.
pub fn decrypt_replicas(replicas: &Vec<Replica>, encryption_key: &EncryptionKey) -> (res: Result<
    Vec<String>,
    TasksError,
>)
    ensures
        match first_failure(replicas@, encryption_key@) {
            Some(failure) => res matches Err(e) && e.reports(failure),
            None => res matches Ok(texts) && text_views(texts@) == opened_texts(
                replicas@,
                encryption_key@,
            ),
        },
{
    open_replicas(replicas, encryption_key.bytes())
}

/// Merges the events of the replicas, the most trusted first, into an
/// empty log; the store then holds the merged log, and its canonical
/// sequence is returned.
///
/// `replica_events` holds, for each replica that exists, the events that
/// its text was found to hold.
pub fn load_events(
    replica_events: Vec<Vec<TaskEvent>>,
    event_store: &mut EventStore,
) -> (sorted_events: Vec<TaskEvent>)
    ensures
        final(event_store)@ == merge_replicas(
            Map::<EventId, TaskEvent>::empty(),
            replica_views(replica_events@),
        ),
        final(event_store).wf(),
        is_canonical(sorted_events@, final(event_store)@),
        sorted_events@ == canonical_sequence(final(event_store)@),
{
    let ghost views = replica_views(replica_events@);
    let mut replica_events = replica_events;
    let mut all_events: std::collections::HashMap<EventId, TaskEvent> =
        std::collections::HashMap::new();
    let mut i: usize = 0;
    let n: usize = replica_events.len();
    while i < n
        invariant
            i <= n,
            n == views.len(),
            replica_events@.len() == n,
            forall|j: int| i <= j < n ==> (#[trigger] replica_events@[j])@ == views[j],
            all_events@ == merge_replicas(Map::<EventId, TaskEvent>::empty(), views.take(i as int)),
            keyed_by_id(all_events@),
        decreases n - i,
    {
        let mut file_events: Vec<TaskEvent> = Vec::new();
        std::mem::swap(&mut file_events, &mut replica_events[i]);
        proof {
            assert(views.take(i + 1).drop_last() =~= views.take(i as int));
            assert(views.take(i + 1).last() == file_events@);
            crate::event::merge_replica_keeps_keying(all_events@, file_events@);
        }
        merge_events(&mut all_events, file_events);
        i += 1;
    }
    proof {
        assert(views.take(n as int) =~= views);
    }
    let sorted_events = hashmap_to_sorted_vec(&all_events);
    event_store.events = all_events;
    sorted_events
}

/// Puts `event` into the store, in place of an event of the same id where
/// there is one, and returns the envelope that is then to be saved: the
/// whole log, in canonical order.
pub fn save_event(event: TaskEvent, event_store: &mut EventStore) -> (tasks_data: TasksData)
    requires
        old(event_store).wf(),
    ensures
        final(event_store)@ == old(event_store)@.insert(event.id, event),
        final(event_store).wf(),
        tasks_data.version@ == SERIALIZATION_VERSION@,
        is_canonical(tasks_data.events@, final(event_store)@),
        tasks_data.events@ == canonical_sequence(final(event_store)@),
{
    event_store.events.insert(event.id, event);
    let sorted_events = hashmap_to_sorted_vec(&event_store.events);
    TasksData::new(sorted_events)
}

// ---------------------------------------------------------------------
// The session
// ---------------------------------------------------------------------

/// What an operation leaves to be written, salt first: the salt in use,
/// the writes of the salt, and the writes of the log.
#[derive(Debug)]
pub struct Commit {
    pub salt: Salt,
    pub salt_writes: Vec<ReplicaWrite>,
    pub log_writes: Vec<ReplicaWrite>,
}

/// Some replica exists.
pub open spec fn any_present(replicas: Seq<Replica>) -> bool {
    exists|i: int| 0 <= i < replicas.len() && (#[trigger] replicas[i]).is_present()
}

/// Why `password` does not unlock a log with this salt, if it does not.
/// A log that exists must open under the key of the password, every
/// replica of it; where none exists, the empty log must be sealable.
pub open spec fn unlock_refusal(
    password: Seq<char>,
    salt: Seq<u8>,
    logs: Seq<Replica>,
    empty_log: Seq<u8>,
) -> Option<Failure> {
    if !derivable(password) {
        Some(Failure::PasswordTooLong)
    } else if any_present(logs) {
        first_failure(logs, derived_key(password, salt))
    } else if empty_log.len() > MAX_PLAINTEXT_SIZE {
        Some(Failure::PlaintextTooLong)
    } else {
        None
    }
}

/// `commit` is what unlocking with `password` leaves to be written, and
/// `key` the key that is then held: the stored salt is kept and not
/// written again, a fresh one goes to every salt replica; a log that
/// exists is left alone, and where none exists the sealed empty log goes
/// to every log replica.
pub open spec fn unlocks(
    commit: Commit,
    key: Seq<u8>,
    password: Seq<char>,
    salts: Seq<Replica>,
    logs: Seq<Replica>,
    empty_log: Seq<u8>,
) -> bool {
    &&& key == derived_key(password, commit.salt@)
    &&& match stored_salt(salts) {
        Ok(Some(stored)) => commit.salt@ == stored && commit.salt_writes@.len() == 0,
        _ => is_fan_out(commit.salt_writes@, salts, commit.salt@),
    }
    &&& if any_present(logs) {
        commit.log_writes@.len() == 0
    } else {
        exists|blob: Seq<u8>| #[trigger]
            seals(blob, key, empty_log) && is_fan_out(commit.log_writes@, logs, blob)
    }
}

/// Unlocks the session: derives the key of `password` under the salt of
/// this installation and holds it.
///
/// The salt is the stored one, or a fresh one where no replica holds any.
/// Where a log exists, every replica of it must open under the new key;
/// that is how a wrong password shows, and it cannot be told from a
/// damaged log. Where none exists, this is the first run: `empty_log`, the
/// bytes of the envelope of an empty log, is sealed for every replica.
/// On failure the held key stays and nothing is to be written.
pub fn unlock(
    password: &str,
    salt_replicas: &Vec<Replica>,
    log_replicas: &Vec<Replica>,
    empty_log: &[u8],
    encryption_key: &mut EncryptionKey,
) -> (res: Result<Commit, TasksError>)
    ensures
        match res {
            Ok(commit) => {
                &&& stored_salt(salt_replicas@) is Ok
                &&& unlock_refusal(password@, commit.salt@, log_replicas@, empty_log@) is None
                &&& unlocks(
                    commit,
                    final(encryption_key)@,
                    password@,
                    salt_replicas@,
                    log_replicas@,
                    empty_log@,
                )
            },
            Err(e) => {
                &&& final(encryption_key)@ == old(encryption_key)@
                &&& match stored_salt(salt_replicas@) {
                    Err(failure) => e.reports(failure),
                    Ok(Some(salt)) => e.reports_refusal(
                        unlock_refusal(password@, salt, log_replicas@, empty_log@),
                    ),
                    Ok(None) => exists|salt: Seq<u8>|
                        salt.len() == SALT_SIZE && e.reports_refusal(
                            #[trigger] unlock_refusal(password@, salt, log_replicas@, empty_log@),
                        ),
                }
            },
        },
        stored_salt(salt_replicas@) matches Ok(Some(salt)) ==> (res is Ok <==> unlock_refusal(
            password@,
            salt,
            log_replicas@,
            empty_log@,
        ) is None),
        stored_salt(salt_replicas@) matches Ok(None) && !any_present(log_replicas@) ==> (res is Ok
            <==> derivable(password@) && empty_log@.len() <= MAX_PLAINTEXT_SIZE),
{
    let (salt, salt_writes) = match load_salt(salt_replicas) {
        Err(e) => {
            return Err(e);
        },
        Ok(loaded) => loaded,
    };
    let mut candidate = [0u8; ENCRYPTION_KEY_SIZE];
    match derive_key(password, &salt, &mut candidate) {
        Err(e) => {
            assert(e.reports_refusal(
                unlock_refusal(password@, salt@, log_replicas@, empty_log@),
            ));
            return Err(e);
        },
        Ok(()) => {},
    }
    let log_exists = match check_exists(log_replicas) {
        Err(e) => {
            return Err(e);
        },
        Ok(found) => found,
    };
    let log_writes = if log_exists {
        match open_replicas(log_replicas, &candidate) {
            Err(e) => {
                assert(e.reports_refusal(
                    unlock_refusal(password@, salt@, log_replicas@, empty_log@),
                ));
                return Err(e);
            },
            Ok(_) => Vec::new(),
        }
    } else {
        match encrypt(empty_log, &candidate) {
            Err(e) => {
                assert(e.reports_refusal(
                    unlock_refusal(password@, salt@, log_replicas@, empty_log@),
                ));
                return Err(e);
            },
            Ok(blob) => {
                let writes = save_data_to_files(blob.as_slice(), log_replicas);
                assert(seals(blob@, candidate@, empty_log@));
                writes
            },
        }
    };
    encryption_key.set(&candidate);
    Ok(Commit { salt, salt_writes, log_writes })
}

/// Locks the session: the key is overwritten with zeros and the store is
/// emptied.
pub fn lock(encryption_key: &mut EncryptionKey, event_store: &mut EventStore) -> (res: Result<
    (),
    TasksError,
>)
    ensures
        res is Ok,
        final(encryption_key)@ == zero_key(),
        final(event_store)@ == Map::<EventId, TaskEvent>::empty(),
        final(event_store).wf(),
{
    encryption_key.zeroize();
    event_store.events.clear();
    Ok(())
}

/// Why `current_password` is not accepted as the password of the held key,
/// if it is not: there is no salt, the salt cannot be used, or the key of
/// the password under the stored salt is another than the held one.
pub open spec fn password_refusal(
    current_password: Seq<char>,
    salts: Seq<Replica>,
    held: Seq<u8>,
) -> Option<Failure> {
    match stored_salt(salts) {
        Err(failure) => Some(failure),
        Ok(None) => Some(Failure::SaltMissing),
        Ok(Some(salt)) => if !derivable(current_password) {
            Some(Failure::PasswordTooLong)
        } else if derived_key(current_password, salt) != held {
            Some(Failure::PasswordIncorrect)
        } else {
            None
        },
    }
}

/// Checks `current_password` against the held key, byte for byte.
pub fn verify_password(
    current_password: &str,
    salt_replicas: &Vec<Replica>,
    encryption_key: &EncryptionKey,
) -> (res: Result<(), TasksError>)
    ensures
        match password_refusal(current_password@, salt_replicas@, encryption_key@) {
            Some(failure) => res matches Err(e) && e.reports(failure),
            None => res is Ok,
        },
{
    let current_salt = match read_salt(salt_replicas) {
        Err(e) => {
            return Err(e);
        },
        Ok(None) => {
            return Err(TasksError::CryptoError(SALT_FILE_NOT_FOUND.to_owned()));
        },
        Ok(Some(salt)) => salt,
    };
    let mut key_to_check = [0u8; ENCRYPTION_KEY_SIZE];
    match derive_key(current_password, &current_salt, &mut key_to_check) {
        Err(e) => {
            return Err(e);
        },
        Ok(()) => {},
    }
    if !encryption_key.matches(&key_to_check) {
        return Err(TasksError::AuthenticationError(INCORRECT_PASSWORD.to_owned()));
    }
    Ok(())
}

/// Why a password change is refused, if it is. In this order: the current
/// password is not accepted; a replica of the log cannot be used under the
/// held key; no key can be derived from the new password; the log is too
/// long to seal.
pub open spec fn rotation_refusal(
    current_password: Seq<char>,
    new_password: Seq<char>,
    salts: Seq<Replica>,
    logs: Seq<Replica>,
    log: Seq<u8>,
    held: Seq<u8>,
) -> Option<Failure> {
    match password_refusal(current_password, salts, held) {
        Some(failure) => Some(failure),
        None => match first_failure(logs, held) {
            Some(failure) => Some(failure),
            None => if !derivable(new_password) {
                Some(Failure::PasswordTooLong)
            } else if log.len() > MAX_PLAINTEXT_SIZE {
                Some(Failure::PlaintextTooLong)
            } else {
                None
            },
        },
    }
}

/// `commit` is what a change to `new_password` leaves to be written, and
/// `key` the key that is then held: the key of the new password under the
/// new salt, the new salt for every salt replica, and for every log replica
/// one blob that seals `log` under the new key.
pub open spec fn rotates(
    commit: Commit,
    key: Seq<u8>,
    new_password: Seq<char>,
    salts: Seq<Replica>,
    logs: Seq<Replica>,
    log: Seq<u8>,
) -> bool {
    &&& key == derived_key(new_password, commit.salt@)
    &&& is_fan_out(commit.salt_writes@, salts, commit.salt@)
    &&& exists|blob: Seq<u8>| #[trigger]
        seals(blob, key, log) && is_fan_out(commit.log_writes@, logs, blob)
}

/// Changes the password.
///
/// `log` holds the bytes of the envelope of the merged log, as loaded under
/// the held key. The current password is checked against the held key, and
/// every replica of the log must open under it. Then a fresh salt is
/// drawn, the key of the new password under it is derived, and the log is
/// sealed under that key. Only when all of that has succeeded is the new
/// key held. On failure the held key stays and nothing is to be written.
pub fn change_password(
    current_password: &str,
    new_password: &str,
    salt_replicas: &Vec<Replica>,
    log_replicas: &Vec<Replica>,
    log: &[u8],
    encryption_key: &mut EncryptionKey,
) -> (res: Result<Commit, TasksError>)
    ensures
        match rotation_refusal(
            current_password@,
            new_password@,
            salt_replicas@,
            log_replicas@,
            log@,
            old(encryption_key)@,
        ) {
            Some(failure) => res matches Err(e) && e.reports(failure) && final(encryption_key)@
                == old(encryption_key)@,
            None => res matches Ok(commit) && rotates(
                commit,
                final(encryption_key)@,
                new_password@,
                salt_replicas@,
                log_replicas@,
                log@,
            ),
        },
{
    match verify_password(current_password, salt_replicas, encryption_key) {
        Err(e) => {
            return Err(e);
        },
        Ok(()) => {},
    }
    match open_replicas(log_replicas, encryption_key.bytes()) {
        Err(e) => {
            return Err(e);
        },
        Ok(_) => {},
    }
    let (new_salt, salt_writes) = create_new_salt(salt_replicas);
    let mut new_key = [0u8; ENCRYPTION_KEY_SIZE];
    match derive_key(new_password, &new_salt, &mut new_key) {
        Err(e) => {
            return Err(e);
        },
        Ok(()) => {},
    }
    let log_writes = match encrypt(log, &new_key) {
        Err(e) => {
            return Err(e);
        },
        Ok(blob) => {
            let writes = save_data_to_files(blob.as_slice(), log_replicas);
            assert(seals(blob@, new_key@, log@));
            writes
        },
    };
    encryption_key.set(&new_key);
    Ok(Commit { salt: new_salt, salt_writes, log_writes })
}

/// Puts a new configuration in force. `salt_replicas` and `log_replicas`
/// are the replicas under the new configuration, and `log` holds the bytes
/// of the envelope of the store. The salt and the log go to every replica,
/// so that a sync target that was just enabled starts from the present
/// state; nothing that a replica held before is read back or removed.
pub fn update_config(
    new_config: Config,
    app_config: &mut AppConfig,
    salt_replicas: &Vec<Replica>,
    log_replicas: &Vec<Replica>,
    log: &[u8],
    encryption_key: &EncryptionKey,
) -> (res: Result<Commit, TasksError>)
    ensures
        final(app_config).config == new_config,
        match stored_salt(salt_replicas@) {
            Err(failure) => res matches Err(e) && e.reports(failure),
            Ok(_) => if log@.len() > MAX_PLAINTEXT_SIZE {
                res matches Err(e) && e.reports(Failure::PlaintextTooLong)
            } else {
                res matches Ok(commit) && {
                    &&& stored_salt(salt_replicas@) matches Ok(Some(stored)) ==> commit.salt@
                        == stored
                    &&& is_fan_out(commit.salt_writes@, salt_replicas@, commit.salt@)
                    &&& exists|blob: Seq<u8>| #[trigger]
                        seals(blob, encryption_key@, log@) && is_fan_out(
                            commit.log_writes@,
                            log_replicas@,
                            blob,
                        )
                }
            },
        },
{
    app_config.config = new_config;
    let salt = match load_salt(salt_replicas) {
        Err(e) => {
            return Err(e);
        },
        Ok(loaded) => loaded.0,
    };
    let salt_writes = save_salt(salt_replicas, &salt);
    match encrypt_then_save(log, encryption_key, log_replicas) {
        Err(e) => Err(e),
        Ok(log_writes) => Ok(Commit { salt, salt_writes, log_writes }),
    }
}

// ---------------------------------------------------------------------
// What holds after the writes
// ---------------------------------------------------------------------

/// The replica exists and holds `data`.
pub open spec fn holds(replica: Replica, data: Seq<u8>) -> bool {
    replica.content matches ReplicaRead::Data(bytes) && bytes@ == data
}

/// Every replica exists and holds `data`: what a list of replicas looks
/// like once the writes of a fan-out of `data` have been performed.
pub open spec fn all_hold(replicas: Seq<Replica>, data: Seq<u8>) -> bool {
    forall|i: int| 0 <= i < replicas.len() ==> holds(#[trigger] replicas[i], data)
}

/// Replicas that all hold one blob open to one text each, where the blob
/// opens.
pub proof fn replicas_of_one_blob_open(
    replicas: Seq<Replica>,
    blob: Seq<u8>,
    key: Seq<u8>,
    text: Seq<char>,
)
    requires
        all_hold(replicas, blob),
        open_blob(blob, key) == Ok::<Seq<char>, Failure>(text),
    ensures
        first_failure(replicas, key) is None,
        opened_texts(replicas, key) == Seq::new(replicas.len(), |i: int| text),
    decreases replicas.len(),
{
    if replicas.len() > 0 {
        let front = replicas.drop_last();
        assert(all_hold(front, blob)) by {
            assert forall|i: int| 0 <= i < front.len() implies holds(#[trigger] front[i], blob) by {
                assert(front[i] == replicas[i]);
            }
        }
        replicas_of_one_blob_open(front, blob, key, text);
        assert(holds(replicas[replicas.len() - 1], blob));
        assert(opened_texts(replicas, key) =~= Seq::new(replicas.len(), |i: int| text));
    } else {
        assert(opened_texts(replicas, key) =~= Seq::new(replicas.len(), |i: int| text));
    }
}

/// A password change loses nothing. Let a change to `new_password` have
/// succeeded with the salt `salt` and the blob `blob`, which seals the text
/// `log` under the new key, and let the writes have been performed, so that
/// every salt replica holds `salt` and every log replica `blob`. Then the
/// stored salt is `salt`, nothing refuses to unlock with the new password,
/// and every replica of the log opens under its key to the text of `log`.
pub proof fn rotation_loses_nothing(
    new_password: Seq<char>,
    salt: Seq<u8>,
    log: Seq<u8>,
    blob: Seq<u8>,
    salts: Seq<Replica>,
    logs: Seq<Replica>,
    empty_log: Seq<u8>,
)
    requires
        derivable(new_password),
        salt.len() == SALT_SIZE,
        seals(blob, derived_key(new_password, salt), log),
        valid_utf8(log),
        salts.len() > 0,
        all_hold(salts, salt),
        logs.len() > 0,
        all_hold(logs, blob),
    ensures
        stored_salt(salts) == Ok::<Option<Seq<u8>>, Failure>(Some(salt)),
        unlock_refusal(new_password, salt, logs, empty_log) is None,
        opened_texts(logs, derived_key(new_password, salt)) == Seq::new(
            logs.len(),
            |i: int| decode_utf8(log),
        ),
{
    let key = derived_key(new_password, salt);
    assert(holds(salts[0], salt));
    assert(crate::util::is_first_existing(salts, 0));
    assert(holds(logs[0], blob));
    assert(logs[0].is_present());
    decrypt_inverts_encrypt(log, key, blob);
    replicas_of_one_blob_open(logs, blob, key, decode_utf8(log));
}

} // verus!
