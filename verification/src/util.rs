//! The replica set: where each artifact lives.
//!
//! Every artifact (event log, salt) has one file in the primary replica,
//! under the home directory, and one in each sync target that the
//! configuration enables. The order is the order of trust: primary first,
//! then iCloud Drive, then Dropbox.

use std::path::PathBuf;
use vstd::prelude::*;

use crate::config::{
    Config, CONFIG_FILENAME, DROPBOX_DIRNAME, ICLOUD_DIRNAME, SALT_FILENAME, TASKS_FILENAME,
    YO_DIRNAME,
};

verus! {

/// Path of std. Opaque here: paths are made by `PathBuf::join` and handed
/// on.
#[verifier::external_type_specification]
#[verifier::external_body]
pub struct ExPathBuf(PathBuf);

/// The path that `PathBuf::join` makes of a path and a component.
pub uninterp spec fn path_join(base: PathBuf, component: Seq<char>) -> PathBuf;

/// `PathBuf::join` of std. What it returns depends on the two arguments
/// alone.
#[verifier::external_body]
fn join_path(base: &PathBuf, component: &str) -> (joined: PathBuf)
    ensures
        joined == path_join(*base, component@),
{
    base.join(component)
}

/// `Clone::clone` of `PathBuf`: an equal path.
pub assume_specification[ <PathBuf as Clone>::clone ](path: &PathBuf) -> (copy: PathBuf)
    ensures
        copy == *path,
;

/// `home::home_dir`: the home directory of the current user, as the
/// environment gives it. Nothing is known of it.
#[verifier::external_body]
fn get_home_dir() -> (home: Option<PathBuf>) {
    home::home_dir()
}

/// The file `file_name` of the replica whose root is `root`.
pub open spec fn replica_file(root: PathBuf, file_name: Seq<char>) -> PathBuf {
    path_join(path_join(root, YO_DIRNAME@), file_name)
}

/// The roots of the replicas, in order of trust.
pub open spec fn replica_roots(home: PathBuf, config: Config) -> Seq<PathBuf> {
    seq![home] + (if config.icloud_enabled {
        seq![path_join(home, ICLOUD_DIRNAME@)]
    } else {
        Seq::<PathBuf>::empty()
    }) + (if config.dropbox_enabled {
        seq![path_join(home, DROPBOX_DIRNAME@)]
    } else {
        Seq::<PathBuf>::empty()
    })
}

/// The paths of `file_name` in all replicas, in order of trust.
pub open spec fn replica_paths(home: PathBuf, config: Config, file_name: Seq<char>) -> Seq<
    PathBuf,
> {
    replica_roots(home, config).map_values(|root: PathBuf| replica_file(root, file_name))
}

/// The paths of `file_name` in all replicas under `home`: the primary one
/// first, then one for each enabled sync target.
pub fn get_paths_for_file(home: &PathBuf, config: &Config, file_name: &str) -> (paths: Vec<PathBuf>)
    ensures
        paths@ == replica_paths(*home, *config, file_name@),
        paths@.len() == config.replica_count(),
        paths@[0] == replica_file(*home, file_name@),
{
    let mut dirs: Vec<PathBuf> = Vec::new();
    dirs.push(home.clone());
    if config.icloud_enabled {
        dirs.push(join_path(home, ICLOUD_DIRNAME));
    }
    if config.dropbox_enabled {
        dirs.push(join_path(home, DROPBOX_DIRNAME));
    }
    assert(dirs@ =~= replica_roots(*home, *config));
    let mut paths: Vec<PathBuf> = Vec::new();
    let mut i: usize = 0;
    while i < dirs.len()
        invariant
            i <= dirs.len(),
            paths@.len() == i,
            forall|j: int| 0 <= j < i ==> paths@[j] == replica_file(dirs@[j], file_name@),
        decreases dirs.len() - i,
    {
        let app_dir = join_path(&dirs[i], YO_DIRNAME);
        paths.push(join_path(&app_dir, file_name));
        i += 1;
    }
    assert(paths@ =~= replica_paths(*home, *config, file_name@));
    paths
}

/// The paths of the salt under `home`.
pub fn salt_paths_in(home: &PathBuf, config: &Config) -> (paths: Vec<PathBuf>)
    ensures
        paths@ == replica_paths(*home, *config, SALT_FILENAME@),
{
    get_paths_for_file(home, config, SALT_FILENAME)
}

/// The paths of the event log under `home`.
pub fn tasks_paths_in(home: &PathBuf, config: &Config) -> (paths: Vec<PathBuf>)
    ensures
        paths@ == replica_paths(*home, *config, TASKS_FILENAME@),
{
    get_paths_for_file(home, config, TASKS_FILENAME)
}

/// The path of the configuration under `home`. It is kept in the primary
/// replica only.
pub fn config_path_in(home: &PathBuf) -> (path: PathBuf)
    ensures
        path == replica_file(*home, CONFIG_FILENAME@),
{
    let app_dir = join_path(home, YO_DIRNAME);
    join_path(&app_dir, CONFIG_FILENAME)
}

/// The paths of the salt under the home directory of the current user;
/// nothing where the environment names no home directory.
pub fn get_salt_paths(config: &Config) -> (found: Option<Vec<PathBuf>>)
    ensures
        found matches Some(paths) ==> exists|home: PathBuf|
            paths@ == #[trigger] replica_paths(home, *config, SALT_FILENAME@),
{
    let home = get_home_dir();
    salt_paths_under(home, config)
}

/// The path of the configuration under the home directory of the current
/// user; nothing where the environment names no home directory.
pub fn get_config_path() -> (found: Option<PathBuf>)
    ensures
        found matches Some(path) ==> exists|home: PathBuf|
            path == #[trigger] replica_file(home, CONFIG_FILENAME@),
{
    let home = get_home_dir();
    config_path_under(home)
}

/// The paths of the event log under the home directory of the current
/// user; nothing where the environment names no home directory.
pub fn get_tasks_paths(config: &Config) -> (found: Option<Vec<PathBuf>>)
    ensures
        found matches Some(paths) ==> exists|home: PathBuf|
            paths@ == #[trigger] replica_paths(home, *config, TASKS_FILENAME@),
{
    let home = get_home_dir();
    tasks_paths_under(home, config)
}

/// The paths of the salt for a home directory that may be unknown: those
/// under `home` where there is one, and nothing where there is none.
pub fn salt_paths_under(home: Option<PathBuf>, config: &Config) -> (found: Option<Vec<PathBuf>>)
    ensures
        home is None ==> found is None,
        home matches Some(known) ==> found matches Some(paths) && paths@ == replica_paths(
            known,
            *config,
            SALT_FILENAME@,
        ),
{
    match home {
        None => None,
        Some(known) => Some(salt_paths_in(&known, config)),
    }
}

/// The paths of the event log for a home directory that may be unknown:
/// those under `home` where there is one, and nothing where there is none.
pub fn tasks_paths_under(home: Option<PathBuf>, config: &Config) -> (found: Option<Vec<PathBuf>>)
    ensures
        home is None ==> found is None,
        home matches Some(known) ==> found matches Some(paths) && paths@ == replica_paths(
            known,
            *config,
            TASKS_FILENAME@,
        ),
{
    match home {
        None => None,
        Some(known) => Some(tasks_paths_in(&known, config)),
    }
}

/// The path of the configuration for a home directory that may be
/// unknown: that under `home` where there is one, and nothing where there
/// is none.
pub fn config_path_under(home: Option<PathBuf>) -> (found: Option<PathBuf>)
    ensures
        home is None ==> found is None,
        home matches Some(known) ==> found == Some(replica_file(known, CONFIG_FILENAME@)),
{
    match home {
        None => None,
        Some(known) => Some(config_path_in(&known)),
    }
}

/// What reading one replica file came to.
#[derive(Debug)]
pub enum ReplicaRead {
    /// There is no such file: this replica has no data yet.
    Missing,
    /// The file exists and could not be read; the text says why.
    Unreadable(String),
    /// The bytes of the file.
    Data(Vec<u8>),
}

/// One replica of an artifact: where it lives, and what was read there.
#[derive(Debug)]
pub struct Replica {
    pub path: PathBuf,
    pub content: ReplicaRead,
}

impl Replica {
    /// The file of this replica exists.
    pub open spec fn is_present(self) -> bool {
        !(self.content is Missing)
    }
}

/// Replica `i` exists and none before it does.
pub open spec fn is_first_existing(replicas: Seq<Replica>, i: int) -> bool {
    &&& 0 <= i < replicas.len()
    &&& replicas[i].is_present()
    &&& forall|j: int| 0 <= j < i ==> !(#[trigger] replicas[j]).is_present()
}

/// The first replica that exists, if any does.
pub open spec fn first_existing(replicas: Seq<Replica>) -> Option<int> {
    if exists|i: int| is_first_existing(replicas, i) {
        Some(choose|i: int| is_first_existing(replicas, i))
    } else {
        None
    }
}

/// Where the first replica that exists stands in `replicas`.
pub fn first_existing_replica(replicas: &Vec<Replica>) -> (found: Option<usize>)
    ensures
        match found {
            Some(i) => first_existing(replicas@) == Some(i as int) && is_first_existing(
                replicas@,
                i as int,
            ),
            None => first_existing(replicas@) is None && forall|j: int|
                0 <= j < replicas@.len() ==> !(#[trigger] replicas@[j]).is_present(),
        },
{
    let mut i: usize = 0;
    while i < replicas.len()
        invariant
            i <= replicas.len(),
            forall|j: int| 0 <= j < i ==> !(#[trigger] replicas@[j]).is_present(),
        decreases replicas.len() - i,
    {
        match replicas[i].content {
            ReplicaRead::Missing => {},
            _ => {
                assert(is_first_existing(replicas@, i as int));
                return Some(i);
            },
        }
        i += 1;
    }
    None
}

/// The path of the first replica that exists.
pub fn find_first_existing_file(replicas: &Vec<Replica>) -> (found: Option<PathBuf>)
    ensures
        found == (match first_existing(replicas@) {
            Some(i) => Some(replicas@[i].path),
            None => None,
        }),
{
    match first_existing_replica(replicas) {
        Some(i) => Some(replicas[i].path.clone()),
        None => None,
    }
}

} // verus!
