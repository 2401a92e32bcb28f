//! The consumer around the per-entry handling: the durable cursor, the
//! batch and loop cadence, and the reconnect schedule.
use vstd::prelude::*;
use crate::dispatch::{advances, jid_spec, outcome_advances, Dispatch, Outcome, Stage};
use crate::entry_id::{id_before, id_lt, parse_entry_id, parse_id_spec};
use crate::keys::push_ascii;
use crate::value::{copy_bytes, BrokerValue, StreamEntry};

verus! {

/// `b` is at or after `a` in the cursor order: equal, or `b` is an entry ID
/// and `a` is either no entry ID (a start sentinel such as `$`) or an
/// earlier one.
pub open spec fn cursor_le(a: Seq<u8>, b: Seq<u8>) -> bool {
    a == b || (parse_id_spec(b).is_some() && (parse_id_spec(a).is_none() || id_lt(
        parse_id_spec(a).unwrap(),
        parse_id_spec(b).unwrap(),
    )))
}

/// `id` is an entry ID strictly after the cursor.
pub open spec fn after_cursor(id: Seq<u8>, cursor: Seq<u8>) -> bool {
    parse_id_spec(id).is_some() && (parse_id_spec(cursor).is_none() || id_lt(
        parse_id_spec(cursor).unwrap(),
        parse_id_spec(id).unwrap(),
    ))
}

/// The cursor order is transitive: the cursor seen by a later load is at or
/// after the one seen by an earlier load, however many entries were settled
/// between them.
pub proof fn lemma_cursor_order_transitive(a: Seq<u8>, b: Seq<u8>, c: Seq<u8>)
    requires
        cursor_le(a, b),
        cursor_le(b, c),
    ensures
        cursor_le(a, c),
{
}

/// Milliseconds to sleep when a read returned nothing (the read timed out).
pub const READ_TIMEOUT_SLEEP_MS: u64 = 10;

/// Milliseconds to sleep after a batch that advanced nothing.
pub const IDLE_SLEEP_MS: u64 = 25;

/// Milliseconds to back off after an entry's handling failed.
pub const RETRY_BACKOFF_ON_ERROR_MS: u64 = 250;

pub struct Worker {
    /// The last entry whose handling ended for good, or the start position.
    pub cursor: Vec<u8>,
    pub loop_count: u64,
    /// Trim every this many loop iterations; 0 never trims.
    pub trim_every: u64,
    pub runner_timeout_s: u64,
}

impl Worker {
    /// A worker resuming from the persisted cursor, or from `start_id` where
    /// none was persisted.
    pub fn new(persisted: Option<Vec<u8>>, start_id: Vec<u8>, trim_every: u64, runner_timeout_s: u64) -> (w: Worker)
        ensures
            w.cursor@ == (match persisted {
                Some(c) => c@,
                None => start_id@,
            }),
            w.loop_count == 0,
            w.trim_every == trim_every,
            w.runner_timeout_s == runner_timeout_s,
    {
        let cursor = match persisted {
            Some(c) => c,
            None => start_id,
        };
        Worker { cursor, loop_count: 0, trim_every, runner_timeout_s }
    }

    /// Whether `id` is an entry ID strictly after the cursor.
    pub fn is_after_cursor(&self, id: &[u8]) -> (r: bool)
        ensures
            r == after_cursor(id@, self.cursor@),
    {
        match parse_entry_id(id) {
            None => false,
            Some(e) => match parse_entry_id(self.cursor.as_slice()) {
                None => true,
                Some(c) => id_before(c, e),
            },
        }
    }

    /// Starts handling `entry`: `None` where its ID is not an entry ID
    /// strictly after the cursor, so that it is dropped without advancing.
    pub fn begin(&self, entry: StreamEntry) -> (r: Option<Dispatch>)
        ensures
            r.is_some() <==> after_cursor(entry.id@, self.cursor@),
            match r {
                Some(d) => {
                    &&& d.entry_id@ == entry.id@
                    &&& match d.jid {
                        Some(s) => jid_spec(entry@.fields) == Some(s@),
                        None => jid_spec(entry@.fields).is_none(),
                    }
                    &&& d.timeout_s == self.runner_timeout_s
                    &&& d.stage == Stage::Start
                    &&& d.failure.is_none()
                    &&& !d.completion_marked
                    &&& !d.spawned
                },
                None => true,
            },
    {
        if self.is_after_cursor(entry.id.as_slice()) {
            Some(Dispatch::new(entry, self.runner_timeout_s))
        } else {
            None
        }
    }

    /// Settles a handling: where it finished with an outcome that moves past
    /// the entry, and the entry is after the cursor, the cursor becomes the
    /// entry's ID, and the result says so (the caller then persists it).
    pub fn settle(&mut self, d: &Dispatch) -> (advanced: bool)
        ensures
            advanced == (match d.stage {
                Stage::Finished(o) => advances(o),
                _ => false,
            } && after_cursor(d.entry_id@, old(self).cursor@)),
            advanced ==> final(self).cursor@ == d.entry_id@,
            !advanced ==> final(self).cursor@ == old(self).cursor@,
            cursor_le(old(self).cursor@, final(self).cursor@),
            final(self).loop_count == old(self).loop_count,
            final(self).trim_every == old(self).trim_every,
            final(self).runner_timeout_s == old(self).runner_timeout_s,
    {
        let finished = match d.stage {
            Stage::Finished(o) => outcome_advances(o),
            _ => false,
        };
        if finished && self.is_after_cursor(d.entry_id.as_slice()) {
            self.cursor = copy_bytes(d.entry_id.as_slice());
            true
        } else {
            false
        }
    }

    /// Counts one more loop iteration.
    pub fn start_iteration(&mut self)
        ensures
            final(self).loop_count == (if old(self).loop_count == u64::MAX {
                0
            } else {
                old(self).loop_count + 1
            }),
            final(self).cursor == old(self).cursor,
            final(self).trim_every == old(self).trim_every,
            final(self).runner_timeout_s == old(self).runner_timeout_s,
    {
        if self.loop_count == u64::MAX {
            self.loop_count = 0;
        } else {
            self.loop_count = self.loop_count + 1;
        }
    }

    /// Whether this iteration trims the stream.
    pub fn trim_due(&self) -> (r: bool)
        ensures
            r == (self.trim_every > 0 && self.loop_count % self.trim_every == 0),
    {
        self.trim_every > 0 && self.loop_count % self.trim_every == 0
    }
}

/// Milliseconds to sleep at the end of an iteration: after a read that timed
/// out (no array came back), a short pause; after a batch, an idle pause
/// where nothing advanced and a back-off where a handling failed.
pub fn iteration_sleep_ms(got_batch: bool, advanced_any: bool, had_error: bool) -> (r: u64)
    ensures
        r as int == (if !got_batch {
            READ_TIMEOUT_SLEEP_MS as int
        } else {
            (if advanced_any { 0 } else { IDLE_SLEEP_MS as int }) + (if had_error {
                RETRY_BACKOFF_ON_ERROR_MS as int
            } else {
                0
            })
        }),
{
    if !got_batch {
        return READ_TIMEOUT_SLEEP_MS;
    }
    let idle = if advanced_any {
        0
    } else {
        IDLE_SLEEP_MS
    };
    let backoff = if had_error {
        RETRY_BACKOFF_ON_ERROR_MS
    } else {
        0
    };
    idle + backoff
}

/// Whether a handling's outcome ends the batch: the cursor stays, the rest of
/// the batch is read again on the next iteration.
pub fn ends_batch(o: Outcome) -> (r: bool)
    ensures
        r == !advances(o),
{
    !outcome_advances(o)
}

/// The persisted cursor in a reply to a read of its key: a string reply's
/// bytes, `OK` for a plain acknowledgement, none for anything else.
pub fn cursor_from_reply(v: &BrokerValue) -> (r: Option<Vec<u8>>)
    ensures
        match *v {
            BrokerValue::Bytes(b) => r.is_some() && r.unwrap()@ == b@,
            BrokerValue::Status(b) => r.is_some() && r.unwrap()@ == b@,
            BrokerValue::Okay => r.is_some() && r.unwrap()@ == seq![79u8, 75u8],
            _ => r.is_none(),
        },
{
    match v {
        BrokerValue::Bytes(b) => Some(copy_bytes(b.as_slice())),
        BrokerValue::Status(b) => Some(copy_bytes(b.as_slice())),
        BrokerValue::Okay => {
            let mut r: Vec<u8> = Vec::new();
            proof {
                reveal_strlit("OK");
            }
            push_ascii(&mut r, "OK");
            assert(r@ =~= seq![79u8, 75u8]);
            Some(r)
        },
        _ => None,
    }
}

/// First delay of the reconnect schedule, in milliseconds.
pub const INITIAL_RECONNECT_DELAY_MS: u64 = 200;

/// Cap of the reconnect delay, in milliseconds.
pub const MAX_RECONNECT_DELAY_MS: u64 = 5000;

/// Attempts with a delay after them; one final attempt follows.
pub const RECONNECT_ATTEMPTS: u32 = 8;

/// The delay after failed attempt `k` (from 0): 200 ms, doubled each time,
/// capped at 5 s.
pub open spec fn reconnect_delay_spec(k: nat) -> nat
    decreases k,
{
    if k == 0 {
        INITIAL_RECONNECT_DELAY_MS as nat
    } else if 2 * reconnect_delay_spec((k - 1) as nat) >= MAX_RECONNECT_DELAY_MS {
        MAX_RECONNECT_DELAY_MS as nat
    } else {
        2 * reconnect_delay_spec((k - 1) as nat)
    }
}

/// The delay that follows `delay_ms` in the reconnect schedule: doubled, capped.
pub fn next_reconnect_delay(delay_ms: u64) -> (r: u64)
    ensures
        r as int == if 2 * delay_ms >= MAX_RECONNECT_DELAY_MS {
            MAX_RECONNECT_DELAY_MS as int
        } else {
            2 * delay_ms
        },
{
    if delay_ms >= MAX_RECONNECT_DELAY_MS / 2 {
        MAX_RECONNECT_DELAY_MS
    } else {
        delay_ms * 2
    }
}

/// The delay to wait after failed connection attempt `attempt`, or `None`
/// where the attempts with a delay are used up and only the final one is left.
pub fn reconnect_delay(attempt: u32) -> (r: Option<u64>)
    ensures
        attempt < RECONNECT_ATTEMPTS ==> r == Some(reconnect_delay_spec(attempt as nat) as u64),
        attempt >= RECONNECT_ATTEMPTS ==> r.is_none(),
{
    if attempt >= RECONNECT_ATTEMPTS {
        return None;
    }
    let mut delay: u64 = INITIAL_RECONNECT_DELAY_MS;
    let mut k: u32 = 0;
    while k < attempt
        invariant
            k <= attempt,
            delay as nat == reconnect_delay_spec(k as nat),
            delay <= MAX_RECONNECT_DELAY_MS,
        decreases attempt - k,
    {
        delay = next_reconnect_delay(delay);
        k = k + 1;
    }
    Some(delay)
}

} // verus!
