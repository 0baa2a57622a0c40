//! The idempotency store: requests carrying the same (user, key) pair are
//! deduplicated by an atomic insert-or-detect-conflict reservation, and the
//! response of the one winner is persisted and replayed byte-identically to
//! every later caller.

use vstd::prelude::*;
use vstd::string::StringExecFns;
use crate::response::HttpResponse;
use crate::store::Database;
use crate::store::IdempotencyRecord;
use crate::store::RecordState;
use crate::store::Transaction;
use crate::store::can_commit;
use crate::store::commit;
use crate::store::commit_post;
use crate::store::find_record_index;
use crate::store::has_record;
use crate::store::record_index;
use crate::store::record_matches;
use crate::store::record_state;

verus! {

/// A syntactically valid idempotency key: non-empty and at most 50 characters,
/// so that storage stays bounded and abuse is rejected before any transaction
/// is opened.
pub open spec fn valid_idempotency_key(s: Seq<char>) -> bool {
    0 < s.len() <= 50
}

/// A validated idempotency key.
///
/// Requests carrying the same key (for the same user) are deduplicated: only
/// the first one executes, and every later one replays the stored response.
#[derive(Debug)]
pub struct IdempotencyKey {
    key: String,
}

impl View for IdempotencyKey {
    type V = Seq<char>;

    /// The character sequence of the key.
    closed spec fn view(&self) -> Seq<char> {
        self.key@
    }
}

impl IdempotencyKey {
    /// Validates a raw string as an idempotency key. Accepts exactly the
    /// non-empty strings of at most 50 characters; anything else is rejected
    /// before any state is touched.
    pub fn parse(s: String) -> (r: Result<IdempotencyKey, String>)
        ensures
            r is Ok <==> valid_idempotency_key(s@),
            r matches Ok(k) ==> k@ == s@,
    {
        let n = s.as_str().unicode_len();
        if n == 0 {
            Err(String::from_str("the idempotency key cannot be empty"))
        } else if n > 50 {
            Err(String::from_str("the idempotency key must be no longer than 50 characters"))
        } else {
            Ok(IdempotencyKey { key: s })
        }
    }

    /// The underlying string.
    pub fn as_str(&self) -> (r: &str)
        ensures
            r@ == self@,
    {
        self.key.as_str()
    }

    /// The underlying string, as an owned-string reference.
    pub fn as_string(&self) -> (r: &String)
        ensures
            r@ == self@,
    {
        &self.key
    }

    /// An exact copy of the key.
    pub fn duplicate(&self) -> (r: IdempotencyKey)
        ensures
            r@ == self@,
    {
        IdempotencyKey { key: String::from_str(self.key.as_str()) }
    }
}

/// What the caller must do next for a (user, key) pair: it either won the
/// reservation and must execute the work inside the returned transaction, or
/// a finished response exists and must be replayed as is, or the winner is
/// still in flight and the caller has to back off and retry.
pub enum NextAction {
    StartProcessing(Transaction),
    ReturnSavedResponse(HttpResponse),
    AlreadyStarted,
}

/// What `try_processing` does, by outcome. In every case nothing but the
/// idempotency records changes, and they change only by reserving a fresh
/// (user, key): a completed record is never touched.
pub open spec fn try_processing_post(
    db0: Database,
    db1: Database,
    user_id: u64,
    key: Seq<char>,
    a: NextAction,
) -> bool {
    match a {
        NextAction::StartProcessing(txn) => {
            &&& db1.subscriptions == db0.subscriptions
            &&& db1.tokens == db0.tokens
            &&& db1.issues == db0.issues
            &&& db1.tasks == db0.tasks
            &&& db1.next_subscriber_id == db0.next_subscriber_id
            &&& db1.next_issue_id == db0.next_issue_id
            &&& !has_record(db0.idempotency@, user_id, key)
            &&& db1.idempotency@.len() == db0.idempotency@.len() + 1
            &&& db1.idempotency@.drop_last() == db0.idempotency@
            &&& record_matches(db1.idempotency@.last(), user_id, key)
            &&& db1.idempotency@.last().state is Started
            &&& txn.reservation matches Some((u, k)) && u == user_id && k@ == key
            &&& txn.new_subscriptions@.len() == 0
            &&& txn.new_tokens@.len() == 0
            &&& txn.new_issue is None
            &&& txn.new_tasks@.len() == 0
            &&& txn.response is None
        },
        NextAction::ReturnSavedResponse(resp) => {
            &&& has_record(db0.idempotency@, user_id, key)
            &&& record_state(db0.idempotency@, user_id, key) matches RecordState::Completed(r)
                && resp@ == r@
            &&& db1 == db0
        },
        NextAction::AlreadyStarted => {
            &&& has_record(db0.idempotency@, user_id, key)
            &&& record_state(db0.idempotency@, user_id, key) is Started
            &&& db1 == db0
        },
    }
}

/// The single-winner gate at the start of handling a keyed request. Exactly
/// one caller per (user, key) ever receives `StartProcessing`: the reservation
/// is inserted atomically, and every later caller finds it and is told either
/// to replay the saved response or that the winner is still in flight.
pub fn try_processing(db: &mut Database, key: &IdempotencyKey, user_id: u64) -> (a: NextAction)
    requires
        old(db).wf(),
        valid_idempotency_key(key@),
    ensures
        final(db).wf(),
        try_processing_post(*old(db), *final(db), user_id, key@, a),
{
    let ghost db0 = *db;
    let found = find_record_index(&db.idempotency, user_id, key.as_string());
    match found {
        None => {
            db.idempotency.push(
                IdempotencyRecord {
                    user_id,
                    key: String::from_str(key.as_str()),
                    state: RecordState::Started,
                },
            );
            proof {
                assert(db.idempotency@.drop_last() =~= db0.idempotency@);
                assert forall|i: int, j: int| 0 <= i < j < db.idempotency@.len() implies !((
                #[trigger] db.idempotency@[i]).user_id == (#[trigger] db.idempotency@[j]).user_id
                    && db.idempotency@[i].key@ == db.idempotency@[j].key@) by {
                    if j == db.idempotency@.len() - 1 {
                        assert(!record_matches(db0.idempotency@[i], user_id, key@));
                    }
                }
            }
            let mut txn = Transaction::begin();
            txn.reservation = Some((user_id, key.duplicate()));
            NextAction::StartProcessing(txn)
        },
        Some(idx) => {
            proof {
                let spec_idx = record_index(db0.idempotency@, user_id, key@);
                assert(0 <= spec_idx < db0.idempotency@.len() && record_matches(
                    db0.idempotency@[spec_idx],
                    user_id,
                    key@,
                ));
                assert(idx == spec_idx);
            }
            match &db.idempotency[idx].state {
                RecordState::Completed(resp) => NextAction::ReturnSavedResponse(resp.duplicate()),
                RecordState::Started => NextAction::AlreadyStarted,
            }
        },
    }
}

/// A transaction with its response column filled in, ready to commit.
pub open spec fn with_response(txn: Transaction, response: HttpResponse) -> Transaction {
    Transaction {
        reservation: txn.reservation,
        new_subscriptions: txn.new_subscriptions,
        new_tokens: txn.new_tokens,
        new_issue: txn.new_issue,
        new_tasks: txn.new_tasks,
        response: Some(response),
    }
}

/// Writes the response into the reserved (user, key) record and commits the
/// whole transaction: this commit is what makes the staged work and the
/// replayable response visible at once. Returns the response unchanged, byte
/// for byte.
pub fn save_response(
    db: &mut Database,
    txn: Transaction,
    key: &IdempotencyKey,
    user_id: u64,
    response: HttpResponse,
) -> (r: HttpResponse)
    requires
        old(db).wf(),
        txn.reservation matches Some((u, k)) && u == user_id && k@ == key@,
        txn.response is None,
        can_commit(*old(db), with_response(txn, response)),
    ensures
        final(db).wf(),
        commit_post(*old(db), *final(db), with_response(txn, response)),
        r@ == response@,
{
    let r = response.duplicate();
    let Transaction {
        reservation,
        new_subscriptions,
        new_tokens,
        new_issue,
        new_tasks,
        response: _staged,
    } = txn;
    let txn2 = Transaction {
        reservation,
        new_subscriptions,
        new_tokens,
        new_issue,
        new_tasks,
        response: Some(response),
    };
    commit(db, txn2);
    r
}

/// What `release_stale_reservation` does: a reservation that never completed
/// is deleted so the key becomes available to retry; anything else — no
/// record, or a completed one — is left exactly as it was.
pub open spec fn release_post(
    db0: Database,
    db1: Database,
    user_id: u64,
    key: Seq<char>,
    released: bool,
) -> bool {
    &&& released == (has_record(db0.idempotency@, user_id, key) && record_state(
        db0.idempotency@,
        user_id,
        key,
    ) is Started)
    &&& if released {
        &&& db1.subscriptions == db0.subscriptions
        &&& db1.tokens == db0.tokens
        &&& db1.issues == db0.issues
        &&& db1.tasks == db0.tasks
        &&& db1.next_subscriber_id == db0.next_subscriber_id
        &&& db1.next_issue_id == db0.next_issue_id
        &&& db1.idempotency@ == db0.idempotency@.remove(
            record_index(db0.idempotency@, user_id, key),
        )
    } else {
        db1 == db0
    }
}

/// Crash recovery for the single-winner gate: a reservation whose winner
/// died before committing would block its key forever, so once a bounded
/// wait has expired the caller may delete the started record and retry from
/// scratch. A completed record is immutable and is never released.
pub fn release_stale_reservation(db: &mut Database, key: &IdempotencyKey, user_id: u64) -> (released:
    bool)
    requires
        old(db).wf(),
    ensures
        final(db).wf(),
        release_post(*old(db), *final(db), user_id, key@, released),
{
    let ghost db0 = *db;
    let found = find_record_index(&db.idempotency, user_id, key.as_string());
    match found {
        None => false,
        Some(idx) => {
            proof {
                let spec_idx = record_index(db0.idempotency@, user_id, key@);
                assert(0 <= spec_idx < db0.idempotency@.len() && record_matches(
                    db0.idempotency@[spec_idx],
                    user_id,
                    key@,
                ));
                assert(idx == spec_idx);
            }
            let started = match &db.idempotency[idx].state {
                RecordState::Started => true,
                RecordState::Completed(_) => false,
            };
            if started {
                db.idempotency.remove(idx);
                proof {
                    assert forall|i: int, j: int| 0 <= i < j < db.idempotency@.len() implies !((
                    #[trigger] db.idempotency@[i]).user_id
                        == (#[trigger] db.idempotency@[j]).user_id && db.idempotency@[i].key@
                        == db.idempotency@[j].key@) by {
                        let oi: int = if i < idx { i } else { i + 1 };
                        let oj: int = if j < idx { j } else { j + 1 };
                        assert(db.idempotency@[i] == db0.idempotency@[oi]);
                        assert(db.idempotency@[j] == db0.idempotency@[oj]);
                    }
                    assert forall|i: int| 0 <= i < db.idempotency@.len() implies
                        valid_idempotency_key((#[trigger] db.idempotency@[i]).key@) by {
                        let oi: int = if i < idx { i } else { i + 1 };
                        assert(db.idempotency@[i] == db0.idempotency@[oi]);
                    }
                }
                true
            } else {
                false
            }
        },
    }
}

} // verus!
