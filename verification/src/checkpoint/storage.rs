//! Where checkpoints are kept: in memory, or in Redis under a key per task.

use vstd::prelude::*;
use crate::config::redis::RedisConfig;
use crate::dlq::redis_storage::{redis_open, redis_open_error};
use crate::error::MeiliBridgeError;
use crate::keyed::{map_of, KeyedMap};
use crate::models::progress::{Checkpoint, CheckpointView};
use crate::text::{concat2, concat3, has_key};

verus! {

/// Checkpoints kept in memory, the latest per task.
pub struct MemoryStorage {
    checkpoints: KeyedMap<Checkpoint>,
}

/// The views of the checkpoints of a map.
pub open spec fn checkpoint_views(m: Map<Seq<char>, Checkpoint>) -> Map<Seq<char>, CheckpointView> {
    Map::new(|k: Seq<char>| m.contains_key(k), |k: Seq<char>| m[k]@)
}

/// What a load of a task from the kept checkpoints `saved` answers: a copy
/// of its checkpoint if one is kept, else nothing; never an error.
pub open spec fn load_answer(
    saved: Map<Seq<char>, CheckpointView>,
    task_id: Seq<char>,
    r: Result<Option<Checkpoint>, MeiliBridgeError>,
) -> bool {
    match r {
        Ok(Some(c)) => saved.contains_key(task_id) && c@ == saved[task_id],
        Ok(None) => !saved.contains_key(task_id),
        Err(_) => false,
    }
}

impl MemoryStorage {
    /// The kept checkpoints by task.
    pub closed spec fn saved(&self) -> Map<Seq<char>, CheckpointView> {
        checkpoint_views(self.checkpoints@)
    }

    /// The store is well formed.
    pub closed spec fn wf(&self) -> bool {
        &&& self.checkpoints.wf()
        &&& forall|k: Seq<char>| #[trigger] self.checkpoints@.contains_key(k) ==> self.checkpoints@[k].task_id@ == k
    }

    /// An empty store.
    pub fn new() -> (r: Self)
        ensures
            r.wf(),
            r.saved() == Map::<Seq<char>, CheckpointView>::empty(),
    {
        let r = MemoryStorage { checkpoints: KeyedMap::new() };
        assert(r.saved() =~= Map::<Seq<char>, CheckpointView>::empty());
        r
    }

    /// Keeps a copy of the checkpoint as its task's latest.
    pub fn save(&mut self, checkpoint: &Checkpoint) -> (r: Result<(), MeiliBridgeError>)
        requires
            old(self).wf(),
        ensures
            final(self).wf(),
            r is Ok,
            final(self).saved() == old(self).saved().insert(checkpoint.task_id@, checkpoint@),
    {
        let c = checkpoint.copy();
        self.checkpoints.insert(checkpoint.task_id.clone(), c);
        assert forall|k: Seq<char>| #[trigger] self.checkpoints@.contains_key(k) implies self.checkpoints@[k].task_id@ == k by {
            if k != checkpoint.task_id@ {
                assert(old(self).checkpoints@.contains_key(k));
            }
        }
        assert(self.saved() =~= old(self).saved().insert(checkpoint.task_id@, checkpoint@));
        Ok(())
    }

    /// A copy of the latest checkpoint of a task, if one is kept.
    pub fn load(&self, task_id: &String) -> (r: Result<Option<Checkpoint>, MeiliBridgeError>)
        requires
            self.wf(),
        ensures
            load_answer(self.saved(), task_id@, r),
    {
        match self.checkpoints.get(task_id) {
            Some(c) => Ok(Some(c.copy())),
            None => Ok(None),
        }
    }

    /// Drops the checkpoint of a task.
    pub fn delete(&mut self, task_id: &String) -> (r: Result<(), MeiliBridgeError>)
        requires
            old(self).wf(),
        ensures
            final(self).wf(),
            r is Ok,
            final(self).saved() == old(self).saved().remove(task_id@),
    {
        self.checkpoints.remove(task_id);
        assert forall|k: Seq<char>| #[trigger] self.checkpoints@.contains_key(k) implies self.checkpoints@[k].task_id@ == k by {
            assert(old(self).checkpoints@.contains_key(k));
        }
        assert(self.saved() =~= old(self).saved().remove(task_id@));
        Ok(())
    }

    /// Copies of all kept checkpoints, one per task.
    pub fn list(&self) -> (r: Result<Vec<Checkpoint>, MeiliBridgeError>)
        requires
            self.wf(),
        ensures
            r matches Ok(v) && (forall|i: int|
                0 <= i < v@.len() ==> self.saved().contains_key(#[trigger] v@[i].task_id@) && v@[i]@
                    == self.saved()[v@[i].task_id@]) && (forall|i: int, j: int|
                0 <= i < j < v@.len() ==> #[trigger] v@[i].task_id@ != #[trigger] v@[j].task_id@) && (forall|k: Seq<
                char,
            >| #[trigger] self.saved().contains_key(k) ==> exists|i: int| 0 <= i < v@.len() && v@[i].task_id@ == k),
    {
        let entries = self.checkpoints.entries();
        let mut out: Vec<Checkpoint> = Vec::new();
        let mut i: usize = 0;
        while i < entries.len()
            invariant
                i <= entries@.len(),
                entries@ == self.checkpoints.entry_list(),
                crate::keyed::unique_keys(entries@),
                map_of(entries@) == self.checkpoints@,
                out@.len() == i,
                forall|j: int| 0 <= j < i ==> #[trigger] out@[j]@ == entries@[j].1@ && out@[j].task_id@ == entries@[j].1.task_id@,
            decreases entries@.len() - i,
        {
            out.push(entries[i].1.copy());
            i = i + 1;
        }
        proof {
            assert forall|j: int| 0 <= j < out@.len() implies self.saved().contains_key(#[trigger] out@[j].task_id@)
                && out@[j]@ == self.saved()[out@[j].task_id@] by {
                let k = entries@[j].0@;
                crate::keyed::lemma_unique_lookup(entries@, k, j);
                assert(self.checkpoints@.contains_key(k));
                assert(self.checkpoints@[k] == entries@[j].1);
                assert(entries@[j].1.task_id@ == k);
                assert(out@[j]@ == entries@[j].1@);
                assert(out@[j].task_id@ == k);
                assert(self.saved()[k] == self.checkpoints@[k]@);
            }
            assert forall|a: int, b: int| 0 <= a < b < out@.len() implies #[trigger] out@[a].task_id@
                != #[trigger] out@[b].task_id@ by {
                crate::keyed::lemma_unique_lookup(entries@, entries@[a].0@, a);
                crate::keyed::lemma_unique_lookup(entries@, entries@[b].0@, b);
                assert(self.checkpoints@.contains_key(entries@[a].0@));
                assert(self.checkpoints@.contains_key(entries@[b].0@));
                assert(entries@[a].0@ != entries@[b].0@);
                assert(out@[a]@ == entries@[a].1@);
                assert(out@[b]@ == entries@[b].1@);
            }
            assert forall|k: Seq<char>| #[trigger] self.saved().contains_key(k) implies exists|i: int|
                0 <= i < out@.len() && out@[i].task_id@ == k by {
                assert(has_key(entries@, k));
                let i = choose|i: int| 0 <= i < entries@.len() && #[trigger] entries@[i].0@ == k;
                crate::keyed::lemma_unique_lookup(entries@, k, i);
                assert(self.checkpoints@[k] == entries@[i].1);
                assert(out@[i]@ == entries@[i].1@);
                assert(out@[i].task_id@ == k);
            }
        }
        Ok(out)
    }

    /// Whether the store can be used: always.
    pub fn is_healthy(&self) -> (r: bool)
        ensures
            r,
    {
        true
    }
}

/// A load after a save of the same task gives the saved checkpoint.
pub proof fn law_read_after_write(
    before: Map<Seq<char>, CheckpointView>,
    after: Map<Seq<char>, CheckpointView>,
    c: Checkpoint,
    r: Result<Option<Checkpoint>, MeiliBridgeError>,
)
    requires
        after == before.insert(c.task_id@, c@),
        load_answer(after, c.task_id@, r),
    ensures
        r matches Ok(Some(x)) && x@ == c@,
{
}

/// A save of one task does not change what a load of another gives.
pub proof fn law_write_keeps_others(
    before: Map<Seq<char>, CheckpointView>,
    after: Map<Seq<char>, CheckpointView>,
    c: Checkpoint,
    other: Seq<char>,
    r1: Result<Option<Checkpoint>, MeiliBridgeError>,
    r2: Result<Option<Checkpoint>, MeiliBridgeError>,
)
    requires
        after == before.insert(c.task_id@, c@),
        other != c.task_id@,
        load_answer(before, other, r1),
        load_answer(after, other, r2),
    ensures
        match (r1, r2) {
            (Ok(Some(x)), Ok(Some(y))) => x@ == y@,
            (Ok(None), Ok(None)) => true,
            _ => false,
        },
{
}

/// After a delete of a task, a load of it finds nothing; a load of another
/// task gives what it gave before.
pub proof fn law_read_after_delete(
    before: Map<Seq<char>, CheckpointView>,
    after: Map<Seq<char>, CheckpointView>,
    task_id: Seq<char>,
    other: Seq<char>,
    r: Result<Option<Checkpoint>, MeiliBridgeError>,
    r1: Result<Option<Checkpoint>, MeiliBridgeError>,
    r2: Result<Option<Checkpoint>, MeiliBridgeError>,
)
    requires
        after == before.remove(task_id),
        load_answer(after, task_id, r),
        other != task_id,
        load_answer(before, other, r1),
        load_answer(after, other, r2),
    ensures
        r matches Ok(None),
        match (r1, r2) {
            (Ok(Some(x)), Ok(Some(y))) => x@ == y@,
            (Ok(None), Ok(None)) => true,
            _ => false,
        },
{
}

/// Checkpoints kept in Redis under `<prefix>:checkpoint:<task>`, for seven
/// days each; the caller does the Redis commands.
pub struct RedisStorage {
    pub config: RedisConfig,
    pub client: Option<redis::Client>,
    /// `<prefix>:checkpoint:`.
    pub key_prefix: String,
}

/// Seconds a checkpoint is kept in Redis: seven days.
pub const CHECKPOINT_TTL_SECS: u64 = 604800;

impl RedisStorage {
    /// A store for the configuration, not connected yet.
    pub fn new(config: RedisConfig) -> (r: Self)
        ensures
            r.key_prefix@ == config.key_prefix@ + ":checkpoint:"@,
            r.config == config,
            r.client is None,
    {
        let key_prefix = concat2(config.key_prefix.as_str(), ":checkpoint:");
        RedisStorage { config, client: None, key_prefix }
    }

    /// The client for the configured URL, not yet connected; a URL that
    /// is refused gives a configuration error.
    pub fn open_client(&self) -> (r: Result<redis::Client, MeiliBridgeError>)
        ensures
            match redis_open_error(self.config.url@) {
                None => r is Ok,
                Some(e) => r matches Err(MeiliBridgeError::Config(m)) && m@ == "Failed to create Redis client: "@ + e,
            },
    {
        match redis_open(self.config.url.as_str()) {
            Ok(c) => Ok(c),
            Err(e) => Err(MeiliBridgeError::Config(concat2("Failed to create Redis client: ", e.as_str()))),
        }
    }

    /// Keeps the client once its connection answered.
    pub fn set_client(&mut self, client: redis::Client)
        ensures
            final(self).client == Some(client),
            final(self).config == old(self).config,
            final(self).key_prefix == old(self).key_prefix,
    {
        self.client = Some(client);
    }

    /// The client, or the error of a store that is not connected.
    pub fn client(&self) -> (r: Result<&redis::Client, MeiliBridgeError>)
        ensures
            match self.client {
                Some(c) => r == Ok::<&redis::Client, MeiliBridgeError>(&c),
                None => r matches Err(MeiliBridgeError::Config(m)) && m@ == "Redis client not initialized"@,
            },
    {
        match &self.client {
            Some(c) => Ok(c),
            None => Err(MeiliBridgeError::Config("Redis client not initialized".to_owned())),
        }
    }

    /// The key of a task's checkpoint.
    pub fn make_key(&self, task_id: &str) -> (r: String)
        ensures
            r@ == self.key_prefix@ + task_id@,
    {
        concat2(self.key_prefix.as_str(), task_id)
    }

    /// The pattern of all checkpoint keys: the prefix and `*`.
    pub fn key_pattern(&self) -> (r: String)
        ensures
            r@ == self.key_prefix@ + "*"@,
    {
        concat2(self.key_prefix.as_str(), "*")
    }
}

/// The error of a Redis command of the store: what was attempted and the
/// cause.
pub fn storage_error(what: &str, cause: &str) -> (r: MeiliBridgeError)
    ensures
        r matches MeiliBridgeError::Config(m) && m@ == "Failed to "@ + what@ + ": "@ + cause@,
{
    let mut m = concat3("Failed to ", what, ": ");
    crate::text::append_str(&mut m, cause);
    MeiliBridgeError::Config(m)
}

} // verus!
