//! The two-phase commit of a batch: begin, prepare, commit or abort.

use vstd::prelude::*;
use crate::clock::now_micros;
use crate::delivery::checkpoint::TransactionalCheckpoint;
use crate::ids::new_uuid_string;
use crate::error::MeiliBridgeError;
use crate::keyed::{map_of, KeyedMap};
use crate::position::Position;
use crate::text::{append_str, concat3, texts};

verus! {

/// Where a transaction stands.
#[derive(Debug, Clone, Copy, PartialEq, Eq, Structural)]
pub enum TransactionState {
    Started,
    Prepared,
    Committed,
    Aborted,
}

/// The `Debug` name of a state.
pub open spec fn state_name(s: TransactionState) -> Seq<char> {
    match s {
        TransactionState::Started => "Started"@,
        TransactionState::Prepared => "Prepared"@,
        TransactionState::Committed => "Committed"@,
        TransactionState::Aborted => "Aborted"@,
    }
}

fn state_name_exec(s: TransactionState) -> (r: &'static str)
    ensures
        r@ == state_name(s),
{
    match s {
        TransactionState::Started => "Started",
        TransactionState::Prepared => "Prepared",
        TransactionState::Committed => "Committed",
        TransactionState::Aborted => "Aborted",
    }
}

/// A transaction of one task.
#[derive(Debug)]
pub struct Transaction {
    pub id: String,
    pub task_id: String,
    pub state: TransactionState,
    pub position: Option<Position>,
    /// Microseconds since the Unix epoch.
    pub created_at: i64,
    pub participants: Vec<String>,
}

/// The error text `Transaction <id><rest>`.
pub open spec fn txn_text(id: Seq<char>, rest: Seq<char>) -> Seq<char> {
    "Transaction "@ + id + rest
}

fn txn_error(id: &String, rest: &str, state: Option<TransactionState>) -> (r: MeiliBridgeError)
    ensures
        r matches MeiliBridgeError::Pipeline(m) && m@ == txn_text(
            id@,
            match state {
                Some(s) => rest@ + state_name(s),
                None => rest@,
            },
        ),
{
    let mut m = "Transaction ".to_owned();
    append_str(&mut m, id.as_str());
    append_str(&mut m, rest);
    match state {
        Some(s) => append_str(&mut m, state_name_exec(s)),
        None => {},
    }
    MeiliBridgeError::Pipeline(m)
}

/// Whether a transaction has outlived the timeout at time `now` without
/// being committed.
pub open spec fn is_stale(t: Transaction, now: i64, timeout_secs: u64) -> bool {
    now - t.created_at > timeout_secs * 1000000 && t.state != TransactionState::Committed
}

/// The transactions that remain after dropping the stale ones.
pub open spec fn without_stale(
    m: Map<Seq<char>, Transaction>,
    now: i64,
    timeout_secs: u64,
) -> Map<Seq<char>, Transaction> {
    Map::new(|k: Seq<char>| m.contains_key(k) && !is_stale(m[k], now, timeout_secs), |k: Seq<char>| m[k])
}

/// What preparing transaction `id` at position `p` does, taking the
/// transactions from `a` to `b` with result `r`: an unknown id fails with
/// `not found`; a transaction that is not just started fails with its
/// state; a started one becomes prepared at `p`, and the result is `true`.
pub open spec fn prepare_outcome(
    a: Map<Seq<char>, Transaction>,
    b: Map<Seq<char>, Transaction>,
    id: Seq<char>,
    p: Position,
    r: Result<bool, MeiliBridgeError>,
) -> bool {
    if !a.contains_key(id) {
        b == a && (r matches Err(MeiliBridgeError::Pipeline(m)) && m@ == txn_text(id, " not found"@))
    } else if a[id].state != TransactionState::Started {
        b == a && (r matches Err(MeiliBridgeError::Pipeline(m)) && m@ == txn_text(
            id,
            " in invalid state: "@ + state_name(a[id].state),
        ))
    } else {
        r == Ok::<bool, MeiliBridgeError>(true) && b == a.insert(
            id,
            Transaction { state: TransactionState::Prepared, position: Some(p), ..a[id] },
        )
    }
}

/// What committing transaction `id` does, taking the transactions from `a`
/// to `b` with result `r`: an unknown id fails with `not found`; one that
/// is not prepared fails with its state; a prepared one becomes committed.
pub open spec fn commit_outcome(
    a: Map<Seq<char>, Transaction>,
    b: Map<Seq<char>, Transaction>,
    id: Seq<char>,
    r: Result<(), MeiliBridgeError>,
) -> bool {
    if !a.contains_key(id) {
        b == a && (r matches Err(MeiliBridgeError::Pipeline(m)) && m@ == txn_text(id, " not found"@))
    } else if a[id].state != TransactionState::Prepared {
        b == a && (r matches Err(MeiliBridgeError::Pipeline(m)) && m@ == txn_text(
            id,
            " not prepared: "@ + state_name(a[id].state),
        ))
    } else {
        r is Ok && b == a.insert(id, Transaction { state: TransactionState::Committed, ..a[id] })
    }
}

/// The two-phase commit of transactions.
pub struct TwoPhaseCommit {
    timeout_secs: u64,
    transactions: KeyedMap<Transaction>,
}

impl TwoPhaseCommit {
    /// The transactions by id.
    pub closed spec fn txns(&self) -> Map<Seq<char>, Transaction> {
        self.transactions@
    }

    /// Seconds after which an uncommitted transaction is stale.
    pub closed spec fn timeout(&self) -> u64 {
        self.timeout_secs
    }

    /// The inner map is well formed.
    pub closed spec fn wf(&self) -> bool {
        self.transactions.wf()
    }

    /// No transactions.
    pub fn new(timeout_secs: u64) -> (r: Self)
        ensures
            r.wf(),
            r.txns() == Map::<Seq<char>, Transaction>::empty(),
            r.timeout() == timeout_secs,
    {
        TwoPhaseCommit { timeout_secs, transactions: KeyedMap::new() }
    }

    /// Seconds after which an uncommitted transaction is stale.
    pub fn timeout_secs(&self) -> (r: u64)
        ensures
            r == self.timeout(),
    {
        self.timeout_secs
    }

    /// The state of a transaction, if it is known.
    pub fn state_of(&self, transaction_id: &String) -> (r: Option<TransactionState>)
        requires
            self.wf(),
        ensures
            match r {
                Some(s) => self.txns().contains_key(transaction_id@) && self.txns()[transaction_id@].state == s,
                None => !self.txns().contains_key(transaction_id@),
            },
    {
        match self.transactions.get(transaction_id) {
            Some(t) => Some(t.state),
            None => None,
        }
    }

    /// Starts a transaction of a task with the checkpoint and Meilisearch as
    /// participants; fails if the id is taken.
    pub fn begin(&mut self, transaction_id: String, task_id: String) -> (r: Result<(), MeiliBridgeError>)
        requires
            old(self).wf(),
        ensures
            final(self).wf(),
            final(self).timeout() == old(self).timeout(),
            old(self).txns().contains_key(transaction_id@) ==> final(self).txns() == old(self).txns() && (r matches Err(
                MeiliBridgeError::Pipeline(m),
            ) && m@ == txn_text(transaction_id@, " already exists"@)),
            !old(self).txns().contains_key(transaction_id@) ==> {
                let t = final(self).txns()[transaction_id@];
                &&& r is Ok
                &&& final(self).txns().contains_key(transaction_id@)
                &&& final(self).txns() == old(self).txns().insert(transaction_id@, t)
                &&& t.id == transaction_id
                &&& t.task_id == task_id
                &&& t.state == TransactionState::Started
                &&& t.position is None
                &&& texts(t.participants@) == seq!["checkpoint"@, "meilisearch"@]
            },
    {
        if self.transactions.contains_key(&transaction_id) {
            return Err(txn_error(&transaction_id, " already exists", None));
        }
        let mut participants: Vec<String> = Vec::new();
        participants.push("checkpoint".to_owned());
        participants.push("meilisearch".to_owned());
        assert(texts(participants@) =~= seq!["checkpoint"@, "meilisearch"@]);
        let t = Transaction {
            id: transaction_id.clone(),
            task_id,
            state: TransactionState::Started,
            position: None,
            created_at: now_micros(),
            participants,
        };
        self.transactions.insert(transaction_id, t);
        Ok(())
    }

    /// Records the position of a started transaction and marks it prepared.
    pub fn prepare(&mut self, transaction_id: &String, position: Position) -> (r: Result<bool, MeiliBridgeError>)
        requires
            old(self).wf(),
        ensures
            final(self).wf(),
            final(self).timeout() == old(self).timeout(),
            prepare_outcome(old(self).txns(), final(self).txns(), transaction_id@, position, r),
    {
        match self.transactions.take(transaction_id) {
            None => {
                assert(self.txns() =~= old(self).txns());
                Err(txn_error(transaction_id, " not found", None))
            },
            Some(t) => {
                if t.state != TransactionState::Started {
                    let s = t.state;
                    let ghost tv = t;
                    self.transactions.insert(transaction_id.clone(), t);
                    assert(self.txns() =~= old(self).txns());
                    return Err(txn_error(transaction_id, " in invalid state: ", Some(s)));
                }
                let t2 = Transaction { state: TransactionState::Prepared, position: Some(position), ..t };
                self.transactions.insert(transaction_id.clone(), t2);
                assert(self.txns() =~= old(self).txns().insert(transaction_id@, t2));
                Ok(true)
            },
        }
    }

    /// Marks a prepared transaction committed. The caller forgets it a few
    /// seconds later with `forget`.
    pub fn commit(&mut self, transaction_id: &String) -> (r: Result<(), MeiliBridgeError>)
        requires
            old(self).wf(),
        ensures
            final(self).wf(),
            final(self).timeout() == old(self).timeout(),
            commit_outcome(old(self).txns(), final(self).txns(), transaction_id@, r),
    {
        match self.transactions.take(transaction_id) {
            None => {
                assert(self.txns() =~= old(self).txns());
                Err(txn_error(transaction_id, " not found", None))
            },
            Some(t) => {
                if t.state != TransactionState::Prepared {
                    let s = t.state;
                    self.transactions.insert(transaction_id.clone(), t);
                    assert(self.txns() =~= old(self).txns());
                    return Err(txn_error(transaction_id, " not prepared: ", Some(s)));
                }
                let t2 = Transaction { state: TransactionState::Committed, ..t };
                self.transactions.insert(transaction_id.clone(), t2);
                assert(self.txns() =~= old(self).txns().insert(transaction_id@, t2));
                Ok(())
            },
        }
    }

    /// Drops a transaction (what happens to a committed one a few seconds
    /// after its commit).
    pub fn forget(&mut self, transaction_id: &String)
        requires
            old(self).wf(),
        ensures
            final(self).wf(),
            final(self).timeout() == old(self).timeout(),
            final(self).txns() == old(self).txns().remove(transaction_id@),
    {
        self.transactions.remove(transaction_id);
    }

    /// Aborts a transaction: it is dropped; this never fails.
    pub fn abort(&mut self, transaction_id: &String) -> (r: Result<(), MeiliBridgeError>)
        requires
            old(self).wf(),
        ensures
            final(self).wf(),
            final(self).timeout() == old(self).timeout(),
            r is Ok,
            final(self).txns() == old(self).txns().remove(transaction_id@),
    {
        self.transactions.remove(transaction_id);
        Ok(())
    }

    /// Drops every uncommitted transaction older than the timeout at time
    /// `now` (microseconds since the epoch); this never fails.
    pub fn cleanup_stale_transactions_at(&mut self, now: i64) -> (r: Result<(), MeiliBridgeError>)
        requires
            old(self).wf(),
        ensures
            final(self).wf(),
            final(self).timeout() == old(self).timeout(),
            r is Ok,
            final(self).txns() == without_stale(old(self).txns(), now, old(self).timeout()),
    {
        let limit: i128 = (self.timeout_secs as i128) * 1000000;
        let mut stale: Vec<String> = Vec::new();
        let entries = self.transactions.entries();
        let ghost s0 = entries@;
        let mut i: usize = 0;
        while i < entries.len()
            invariant
                i <= s0.len(),
                s0 == entries@,
                limit == self.timeout_secs * 1000000,
                forall|j: int| 0 <= j < stale@.len() ==> map_of(s0).contains_key(#[trigger] stale@[j]@) && is_stale(
                    map_of(s0)[stale@[j]@],
                    now,
                    self.timeout_secs,
                ),
                forall|j: int| 0 <= j < i && is_stale(#[trigger] s0[j].1, now, self.timeout_secs) ==> texts(
                    stale@,
                ).contains(s0[j].0@),
                crate::keyed::unique_keys(s0),
            decreases s0.len() - i,
        {
            let t = &entries[i].1;
            proof {
                crate::keyed::lemma_unique_lookup(s0, s0[i as int].0@, i as int);
            }
            if (now as i128) - (t.created_at as i128) > limit && t.state != TransactionState::Committed {
                let ghost before = texts(stale@);
                stale.push(entries[i].0.clone());
                assert(texts(stale@) =~= before.push(s0[i as int].0@));
                assert forall|j: int| 0 <= j <= i && is_stale(#[trigger] s0[j].1, now, self.timeout_secs) implies texts(
                    stale@,
                ).contains(s0[j].0@) by {
                    if j < i {
                        let a = choose|a: int| 0 <= a < before.len() && before[a] == s0[j].0@;
                        assert(texts(stale@)[a] == s0[j].0@);
                    } else {
                        assert(texts(stale@)[before.len() as int] == s0[j].0@);
                    }
                }
            }
            i = i + 1;
        }
        let ghost m0 = self.txns();
        assert(m0 == map_of(s0));
        let mut k: usize = 0;
        while k < stale.len()
            invariant
                self.wf(),
                k <= stale@.len(),
                self.timeout_secs == old(self).timeout(),
                m0 == old(self).txns(),
                forall|j: int| 0 <= j < stale@.len() ==> m0.contains_key(#[trigger] stale@[j]@) && is_stale(
                    m0[stale@[j]@],
                    now,
                    self.timeout_secs,
                ),
                forall|x: Seq<char>| #[trigger] self.txns().contains_key(x) <==> (m0.contains_key(x) && !texts(stale@).take(
                    k as int,
                ).contains(x)),
                forall|x: Seq<char>| #[trigger] self.txns().contains_key(x) ==> self.txns()[x] == m0[x],
            decreases stale@.len() - k,
        {
            let ghost prefix = texts(stale@).take(k as int);
            let ghost before = self.txns();
            self.transactions.remove(&stale[k]);
            let ghost sk = stale@[k as int]@;
            assert(texts(stale@).take(k + 1) =~= prefix.push(sk));
            assert forall|x: Seq<char>| #[trigger] self.txns().contains_key(x) <==> (m0.contains_key(x) && !prefix.push(
                sk,
            ).contains(x)) by {
                assert(prefix.push(sk).contains(x) <==> (prefix.contains(x) || x == sk)) by {
                    if prefix.push(sk).contains(x) {
                        let a = choose|a: int| 0 <= a < prefix.push(sk).len() && prefix.push(sk)[a] == x;
                        if a < prefix.len() {
                            assert(prefix[a] == x);
                        }
                    }
                    if prefix.contains(x) {
                        let a = choose|a: int| 0 <= a < prefix.len() && prefix[a] == x;
                        assert(prefix.push(sk)[a] == x);
                    }
                    if x == sk {
                        assert(prefix.push(sk)[prefix.len() as int] == x);
                    }
                }
                assert(self.txns() == before.remove(sk));
            }
            k = k + 1;
        }
        assert(texts(stale@).take(stale@.len() as int) =~= texts(stale@));
        assert(self.txns() =~= without_stale(m0, now, self.timeout_secs)) by {
            assert forall|x: Seq<char>| #[trigger] self.txns().contains_key(x) <==> without_stale(m0, now, self.timeout_secs).contains_key(x) by {
                if m0.contains_key(x) && is_stale(m0[x], now, self.timeout_secs) {
                    let j = choose|j: int| 0 <= j < s0.len() && #[trigger] s0[j].0@ == x;
                    crate::keyed::lemma_unique_lookup(s0, x, j);
                    assert(is_stale(s0[j].1, now, self.timeout_secs));
                    assert(texts(stale@).contains(x));
                }
                if texts(stale@).contains(x) {
                    let j = choose|j: int| 0 <= j < texts(stale@).len() && texts(stale@)[j] == x;
                    assert(stale@[j]@ == x);
                }
            }
        }
        Ok(())
    }

    /// Drops every uncommitted transaction older than the timeout, now.
    pub fn cleanup_stale_transactions(&mut self) -> (r: Result<(), MeiliBridgeError>)
        requires
            old(self).wf(),
        ensures
            final(self).wf(),
            r is Ok,
            exists|now: i64| final(self).txns() == without_stale(old(self).txns(), now, old(self).timeout()),
    {
        let now = now_micros();
        self.cleanup_stale_transactions_at(now)
    }
}

/// The task of a coordinated transaction id: the text before its first
/// `-` (all of it when there is none).
pub open spec fn id_task(id: Seq<char>) -> Seq<char> {
    if exists|i: int| 0 <= i < id.len() && id[i] == '-' {
        id.take(choose|i: int| 0 <= i < id.len() && id[i] == '-' && forall|j: int| 0 <= j < i ==> id[j] != '-')
    } else {
        id
    }
}

/// The task of a coordinated transaction id: the text before its first
/// `-` (all of it when there is none).
pub fn checkpoint_task_id(transaction_id: &str) -> (r: String)
    ensures
        r@ == id_task(transaction_id@),
{
    let cs = crate::text::chars_of(transaction_id);
    let mut out = String::new();
    let mut i: usize = 0;
    while i < cs.len()
        invariant
            cs@ == transaction_id@,
            i <= cs@.len(),
            out@ == cs@.take(i as int),
            forall|j: int| 0 <= j < i ==> cs@[j] != '-',
        decreases cs@.len() - i,
    {
        if cs[i] == '-' {
            proof {
                let c = choose|c: int| 0 <= c < cs@.len() && cs@[c] == '-' && forall|j: int| 0 <= j < c ==> cs@[j] != '-';
                assert(c == i) by {
                    if c < i {
                        assert(cs@[c] != '-');
                    }
                    if c > i {
                        assert(cs@[i as int] == '-');
                    }
                }
            }
            return out;
        }
        crate::text::push_char(&mut out, cs[i]);
        assert(cs@.take(i + 1) =~= cs@.take(i as int).push(cs@[i as int]));
        i = i + 1;
    }
    assert(cs@.take(i as int) =~= cs@);
    out
}

/// What the checkpoint participant did in the prepare phase.
#[derive(Debug, Clone, Copy, PartialEq, Eq, Structural)]
pub enum CheckpointPrepare {
    /// There is no checkpoint participant.
    NoHandler,
    /// The checkpoint was saved as prepared.
    Prepared,
    /// It was not: the save failed, errored or timed out.
    NotPrepared,
}

/// Coordinates the two-phase commit with the checkpoint participant, whose
/// storage work the caller does.
pub struct TransactionCoordinator {
    pub two_phase_commit: TwoPhaseCommit,
    pub checkpoint_handler: Option<TransactionalCheckpoint>,
}

impl TransactionCoordinator {
    /// The parts are well kept.
    pub open spec fn wf(&self) -> bool {
        &&& self.two_phase_commit.wf()
        &&& self.checkpoint_handler matches Some(h) ==> h.wf()
    }

    /// A coordinator with no transactions and no checkpoint participant.
    pub fn new(timeout_secs: u64) -> (r: Self)
        ensures
            r.wf(),
            r.two_phase_commit.txns() == Map::<Seq<char>, Transaction>::empty(),
            r.two_phase_commit.timeout() == timeout_secs,
            r.checkpoint_handler is None,
    {
        TransactionCoordinator { two_phase_commit: TwoPhaseCommit::new(timeout_secs), checkpoint_handler: None }
    }

    /// Sets the checkpoint participant.
    pub fn set_checkpoint_handler(&mut self, handler: TransactionalCheckpoint)
        requires
            old(self).wf(),
            handler.wf(),
        ensures
            final(self).wf(),
            final(self).two_phase_commit == old(self).two_phase_commit,
            final(self).checkpoint_handler == Some(handler),
    {
        self.checkpoint_handler = Some(handler);
    }

    /// Starts a transaction of a task under a fresh id, the task id, `-`
    /// and a random UUID; fails only if that id is taken.
    pub fn begin(&mut self, task_id: &String) -> (r: Result<String, MeiliBridgeError>)
        requires
            old(self).wf(),
        ensures
            final(self).wf(),
            final(self).checkpoint_handler == old(self).checkpoint_handler,
            final(self).two_phase_commit.timeout() == old(self).two_phase_commit.timeout(),
            match r {
                Ok(id) => {
                    let t = final(self).two_phase_commit.txns()[id@];
                    &&& id@.len() == task_id@.len() + 37
                    &&& id@.take(task_id@.len() as int) == task_id@
                    &&& id@[task_id@.len() as int] == '-'
                    &&& !old(self).two_phase_commit.txns().contains_key(id@)
                    &&& final(self).two_phase_commit.txns() == old(self).two_phase_commit.txns().insert(id@, t)
                    &&& t.task_id == *task_id
                    &&& t.state == TransactionState::Started
                    &&& t.position is None
                },
                Err(e) => {
                    &&& final(self).two_phase_commit.txns() == old(self).two_phase_commit.txns()
                    &&& exists|id: Seq<char>|
                        {
                            &&& id.len() == task_id@.len() + 37
                            &&& id.take(task_id@.len() as int) == task_id@
                            &&& id[task_id@.len() as int] == '-'
                            &&& #[trigger] old(self).two_phase_commit.txns().contains_key(id)
                            &&& e matches MeiliBridgeError::Pipeline(m) && m@ == txn_text(id, " already exists"@)
                        }
                },
            },
    {
        let u = new_uuid_string();
        let id = concat3(task_id.as_str(), "-", u.as_str());
        proof {
            reveal_strlit("-");
            assert(id@.take(task_id@.len() as int) =~= task_id@);
        }
        match self.two_phase_commit.begin(id.clone(), task_id.clone()) {
            Ok(()) => Ok(id),
            Err(e) => {
                proof {
                    assert(old(self).two_phase_commit.txns().contains_key(id@));
                }
                Err(e)
            },
        }
    }

    /// Finishes the prepare phase once the checkpoint participant has done
    /// its part: when it did not prepare, the answer is `false` and the
    /// transaction is left as it was; else the transaction is prepared at
    /// the position (its errors are passed on) and the answer is `true`.
    pub fn finish_prepare(
        &mut self,
        transaction_id: &String,
        position: Position,
        checkpoint: CheckpointPrepare,
    ) -> (r: Result<bool, MeiliBridgeError>)
        requires
            old(self).wf(),
        ensures
            final(self).wf(),
            final(self).checkpoint_handler == old(self).checkpoint_handler,
            final(self).two_phase_commit.timeout() == old(self).two_phase_commit.timeout(),
            checkpoint == CheckpointPrepare::NotPrepared ==> r == Ok::<bool, MeiliBridgeError>(false)
                && final(self).two_phase_commit.txns() == old(self).two_phase_commit.txns(),
            checkpoint != CheckpointPrepare::NotPrepared ==> prepare_outcome(
                old(self).two_phase_commit.txns(),
                final(self).two_phase_commit.txns(),
                transaction_id@,
                position,
                r,
            ),
    {
        if checkpoint == CheckpointPrepare::NotPrepared {
            return Ok(false);
        }
        self.two_phase_commit.prepare(transaction_id, position)
    }

    /// Finishes the commit phase once the checkpoint participant has
    /// committed: the transaction is committed.
    pub fn finish_commit(&mut self, transaction_id: &String) -> (r: Result<(), MeiliBridgeError>)
        requires
            old(self).wf(),
        ensures
            final(self).wf(),
            final(self).checkpoint_handler == old(self).checkpoint_handler,
            final(self).two_phase_commit.timeout() == old(self).two_phase_commit.timeout(),
            commit_outcome(old(self).two_phase_commit.txns(), final(self).two_phase_commit.txns(), transaction_id@, r),
    {
        self.two_phase_commit.commit(transaction_id)
    }

    /// Finishes a rollback once the checkpoint participant has rolled back
    /// (its errors are only reported): the transaction is dropped; this
    /// never fails.
    pub fn finish_rollback(&mut self, transaction_id: &String) -> (r: Result<(), MeiliBridgeError>)
        requires
            old(self).wf(),
        ensures
            final(self).wf(),
            final(self).checkpoint_handler == old(self).checkpoint_handler,
            final(self).two_phase_commit.timeout() == old(self).two_phase_commit.timeout(),
            r is Ok,
            final(self).two_phase_commit.txns() == old(self).two_phase_commit.txns().remove(transaction_id@),
    {
        self.two_phase_commit.abort(transaction_id)
    }
}

/// A started transaction that is prepared and then committed succeeds at
/// both steps and ends committed at the prepared position; committing a
/// transaction that was not prepared fails and changes nothing.
pub proof fn law_prepare_then_commit(
    a: Map<Seq<char>, Transaction>,
    b: Map<Seq<char>, Transaction>,
    c: Map<Seq<char>, Transaction>,
    id: Seq<char>,
    p: Position,
    r1: Result<bool, MeiliBridgeError>,
    r2: Result<(), MeiliBridgeError>,
)
    requires
        a.contains_key(id),
        a[id].state == TransactionState::Started,
        prepare_outcome(a, b, id, p, r1),
        commit_outcome(b, c, id, r2),
    ensures
        r1 == Ok::<bool, MeiliBridgeError>(true),
        r2 is Ok,
        c.contains_key(id),
        c[id].state == TransactionState::Committed,
        c[id].position == Some(p),
        c[id].task_id == a[id].task_id,
{
}

/// Committing a started transaction, one that was never prepared, fails
/// and leaves the transactions as they were.
pub proof fn law_commit_needs_prepare(
    a: Map<Seq<char>, Transaction>,
    b: Map<Seq<char>, Transaction>,
    id: Seq<char>,
    r: Result<(), MeiliBridgeError>,
)
    requires
        a.contains_key(id),
        a[id].state == TransactionState::Started,
        commit_outcome(a, b, id, r),
    ensures
        r is Err,
        b == a,
{
}

} // verus!
