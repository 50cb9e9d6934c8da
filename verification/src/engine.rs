//! The notification synchronization engine's decisions.
//!
//! For each eligible lobby the engine sends one remote call at a time: an
//! update when a record links the lobby to an already-posted message, else a
//! create. The response decides what happens next: success commits a record
//! upsert, a rate limit suspends and re-enters sending with the same
//! payload, and an error either clears a vanished record or abandons the
//! cycle. The caller performs the calls and the waits; every decision is
//! made here.
//!
//! The record table is the durable link between lobby ids and posted message
//! ids, unique on message id. After a batch, records whose timestamp has
//! gone stale mark messages that are no longer refreshed; each is deleted
//! remotely once and removed from the table whatever the remote call says.

use vstd::prelude::*;

use crate::webhook::WebhookResponse;

verus! {

/// The remote error code meaning the addressed message no longer exists.
pub const UNKNOWN_MESSAGE_CODE: i64 = 10008;

/// A record not refreshed for this long marks a lobby that is no longer
/// eligible; its message is swept away.
pub const STALE_AFTER_SECONDS: u64 = 600;

/// The durable link between a lobby and the remote message representing it,
/// stamped with the time it was last synchronized.
#[derive(Debug, Clone, PartialEq)]
pub struct NotificationRecord {
    pub message_id: String,
    pub lobby_id: String,
    pub last_updated: u64,
}

/// Which remote call a cycle opens with.
#[derive(Debug, Clone, PartialEq)]
pub enum SendKind {
    /// Post a new message.
    Create,
    /// Patch the already-posted message with this id.
    Update { message_id: String },
}

/// A change the engine commits to the record table.
#[derive(Debug, Clone, PartialEq)]
pub enum StoreCommand {
    /// Link the lobby to this message id, refreshing the timestamp.
    UpsertRecord { message_id: String, lobby_id: String },
    /// Drop the record holding this message id.
    DeleteRecord { message_id: String },
}

/// What a response means for the cycle.
#[derive(Debug, Clone, PartialEq)]
pub enum CycleOutcome {
    /// The message was posted or patched; commit the record and stop.
    Committed { command: StoreCommand },
    /// Rate limited: wait this long, then send the same payload again.
    RetryAfter { delay_millis: u64 },
    /// The addressed message no longer exists: drop its record and stop;
    /// the lobby will be re-created on the next batch.
    RecordVanished { command: StoreCommand },
    /// Any other remote error: log and stop, committing nothing.
    Abandoned,
}

/// Which call opens a cycle: an update addressed to the existing message
/// when the lobby has a record, else a create.
pub fn plan_send(existing: &Option<String>) -> (k: SendKind)
    ensures
        (match existing {
            Some(id) => k == (SendKind::Update { message_id: *id }),
            None => k == SendKind::Create,
        }),
{
    match existing {
        Some(id) => SendKind::Update { message_id: id.clone() },
        None => SendKind::Create,
    }
}

/// Classifies a response for the lobby `lobby_id`, whose record before the
/// call was `existing`. The cycle goes terminal exactly when the response is
/// not a rate limit.
pub fn handle_response(lobby_id: &String, existing: &Option<String>, response: &WebhookResponse) -> (r:
    CycleOutcome)
    ensures
        (r is RetryAfter) <==> (response is Ratelimit),
        (match response {
            WebhookResponse::Success { id } => r == (CycleOutcome::Committed {
                command: StoreCommand::UpsertRecord { message_id: *id, lobby_id: *lobby_id },
            }),
            WebhookResponse::Ratelimit { retry_after_millis, .. } => r == (
            CycleOutcome::RetryAfter { delay_millis: *retry_after_millis }),
            WebhookResponse::Error { code, .. } => {
                if *code == UNKNOWN_MESSAGE_CODE && existing is Some {
                    r == (CycleOutcome::RecordVanished {
                        command: StoreCommand::DeleteRecord { message_id: existing->0 },
                    })
                } else {
                    r == CycleOutcome::Abandoned
                }
            },
        }),
{
    match response {
        WebhookResponse::Success { id } => CycleOutcome::Committed {
            command: StoreCommand::UpsertRecord {
                message_id: id.clone(),
                lobby_id: lobby_id.clone(),
            },
        },
        WebhookResponse::Ratelimit { retry_after_millis, .. } => CycleOutcome::RetryAfter {
            delay_millis: *retry_after_millis,
        },
        WebhookResponse::Error { code, .. } => {
            if *code == UNKNOWN_MESSAGE_CODE {
                match existing {
                    Some(id) => CycleOutcome::RecordVanished {
                        command: StoreCommand::DeleteRecord { message_id: id.clone() },
                    },
                    None => CycleOutcome::Abandoned,
                }
            } else {
                CycleOutcome::Abandoned
            }
        },
    }
}

/// The record table is well formed when no message id repeats.
pub open spec fn records_wf(rs: Seq<NotificationRecord>) -> bool {
    forall|i: int, j: int|
        0 <= i < j < rs.len() ==> (#[trigger] rs[i]).message_id@ != (#[trigger] rs[j]).message_id@
}

/// Links `lobby_id` to `message_id` as of `now`: refreshes the timestamp of
/// the record already holding this message id, or appends a new record when
/// none does.
pub fn upsert_record(
    records: &mut Vec<NotificationRecord>,
    message_id: &String,
    lobby_id: &String,
    now: u64,
)
    requires
        records_wf(old(records)@),
    ensures
        records_wf(final(records)@),
        (forall|i: int|
            0 <= i < old(records)@.len() ==> (#[trigger] old(records)@[i]).message_id@
                != message_id@) ==> final(records)@ == old(records)@.push(
            NotificationRecord { message_id: *message_id, lobby_id: *lobby_id, last_updated: now },
        ),
        (exists|i: int|
            0 <= i < old(records)@.len() && (#[trigger] old(records)@[i]).message_id@
                == message_id@) ==> final(records)@.len() == old(records)@.len() && (forall|j: int|
            0 <= j < old(records)@.len() ==> final(records)@[j] == (
            if old(records)@[j].message_id@ == message_id@ {
                NotificationRecord {
                    message_id: old(records)@[j].message_id,
                    lobby_id: old(records)@[j].lobby_id,
                    last_updated: now,
                }
            } else {
                old(records)@[j]
            })),
{
    let n = records.len();
    let mut i: usize = 0;
    while i < n
        invariant
            0 <= i <= n,
            n == records@.len(),
            records@ == old(records)@,
            records_wf(records@),
            forall|m: int| 0 <= m < i ==> (#[trigger] records@[m]).message_id@ != message_id@,
        decreases n - i,
    {
        if records[i].message_id.eq(message_id) {
            let refreshed = NotificationRecord {
                message_id: records[i].message_id.clone(),
                lobby_id: records[i].lobby_id.clone(),
                last_updated: now,
            };
            let ghost pre = records@;
            records.remove(i);
            records.insert(i, refreshed);
            proof {
                assert(records@ =~= pre.update(i as int, refreshed));
                let fin = records@;
                assert(refreshed.message_id@ == pre[i as int].message_id@);
                assert forall|a: int, b: int| 0 <= a < b < fin.len() implies (
                #[trigger] fin[a]).message_id@ != (#[trigger] fin[b]).message_id@ by {
                    assert(pre[a].message_id@ != pre[b].message_id@);
                }
                assert forall|j: int| 0 <= j < pre.len() implies fin[j] == (
                if pre[j].message_id@ == message_id@ {
                    NotificationRecord {
                        message_id: pre[j].message_id,
                        lobby_id: pre[j].lobby_id,
                        last_updated: now,
                    }
                } else {
                    pre[j]
                }) by {
                    assert(pre[i as int].message_id@ == message_id@);
                    if j != i {
                        assert(pre[j].message_id@ != pre[i as int].message_id@);
                    }
                }
            }
            return ;
        }
        i = i + 1;
    }
    records.push(
        NotificationRecord {
            message_id: message_id.clone(),
            lobby_id: lobby_id.clone(),
            last_updated: now,
        },
    );
}

/// Drops the record holding `message_id`, when one does; the rest of the
/// table is untouched.
pub fn delete_record(records: &mut Vec<NotificationRecord>, message_id: &String)
    requires
        records_wf(old(records)@),
    ensures
        records_wf(final(records)@),
        (forall|i: int|
            0 <= i < old(records)@.len() ==> (#[trigger] old(records)@[i]).message_id@
                != message_id@) ==> final(records)@ == old(records)@,
        (exists|i: int|
            0 <= i < old(records)@.len() && (#[trigger] old(records)@[i]).message_id@
                == message_id@) ==> exists|i: int|
            0 <= i < old(records)@.len() && (#[trigger] old(records)@[i]).message_id@ == message_id@
                && final(records)@ == old(records)@.remove(i),
{
    let n = records.len();
    let mut i: usize = 0;
    while i < n
        invariant
            0 <= i <= n,
            n == records@.len(),
            records@ == old(records)@,
            records_wf(records@),
            forall|m: int| 0 <= m < i ==> (#[trigger] records@[m]).message_id@ != message_id@,
        decreases n - i,
    {
        if records[i].message_id.eq(message_id) {
            let ghost pre = records@;
            records.remove(i);
            proof {
                let fin = records@;
                assert forall|a: int, b: int| 0 <= a < b < fin.len() implies (
                #[trigger] fin[a]).message_id@ != (#[trigger] fin[b]).message_id@ by {
                    let a0 = if a < i { a } else { a + 1 };
                    let b0 = if b < i { b } else { b + 1 };
                    assert(fin[a] == pre[a0] && fin[b] == pre[b0]);
                    assert(pre[a0].message_id@ != pre[b0].message_id@);
                }
            }
            return ;
        }
        i = i + 1;
    }
}

/// The record of the lobby `lobby_id`, when one exists: the first record
/// holding that lobby id.
pub fn record_for_lobby<'a>(records: &'a Vec<NotificationRecord>, lobby_id: &String) -> (r: Option<
    &'a NotificationRecord,
>)
    ensures
        (match r {
            Some(rec) => exists|i: int|
                0 <= i < records@.len() && #[trigger] records@[i] == *rec && rec.lobby_id@
                    == lobby_id@ && (forall|j: int|
                    0 <= j < i ==> (#[trigger] records@[j]).lobby_id@ != lobby_id@),
            None => forall|i: int|
                0 <= i < records@.len() ==> (#[trigger] records@[i]).lobby_id@ != lobby_id@,
        }),
{
    let n = records.len();
    let mut i: usize = 0;
    while i < n
        invariant
            0 <= i <= n,
            n == records@.len(),
            forall|m: int| 0 <= m < i ==> (#[trigger] records@[m]).lobby_id@ != lobby_id@,
        decreases n - i,
    {
        if records[i].lobby_id.eq(lobby_id) {
            return Some(&records[i]);
        }
        i = i + 1;
    }
    None
}

/// The message ids of the records gone stale by `now`, in table order.
pub open spec fn stale_ids(rs: Seq<NotificationRecord>, now: u64) -> Seq<Seq<char>>
    decreases rs.len(),
{
    if rs.len() == 0 {
        Seq::empty()
    } else {
        let rest = stale_ids(rs.drop_last(), now);
        if rs.last().last_updated + STALE_AFTER_SECONDS <= now {
            rest.push(rs.last().message_id@)
        } else {
            rest
        }
    }
}

/// Selects the records whose message must be swept: those last synchronized
/// [`STALE_AFTER_SECONDS`] or more before `now`. Each is deleted remotely
/// once and its record removed whatever that call returns.
pub fn select_stale(records: &Vec<NotificationRecord>, now: u64) -> (r: Vec<String>)
    ensures
        r.deep_view() == stale_ids(records@, now),
{
    let n = records.len();
    let mut out: Vec<String> = Vec::new();
    let mut i: usize = 0;
    proof {
        assert(records@.take(0) =~= Seq::<NotificationRecord>::empty());
    }
    while i < n
        invariant
            0 <= i <= n,
            n == records@.len(),
            out.deep_view() == stale_ids(records@.take(i as int), now),
        decreases n - i,
    {
        proof {
            assert(records@.take(i as int + 1).drop_last() =~= records@.take(i as int));
            assert(records@.take(i as int + 1).last() == records@[i as int]);
        }
        let ghost pre = out.deep_view();
        if now >= STALE_AFTER_SECONDS && records[i].last_updated <= now - STALE_AFTER_SECONDS {
            out.push(records[i].message_id.clone());
            proof {
                assert(out.deep_view() =~= pre.push(records@[i as int].message_id@));
            }
        }
        i = i + 1;
    }
    proof {
        assert(records@.take(n as int) =~= records@);
    }
    out
}

} // verus!
