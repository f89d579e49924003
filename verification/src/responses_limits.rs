//! How long records are kept, and how many.
//!
//! A record expires lazily: a read removes an expired record and reports it as
//! missing, and a write removes the expired records before it counts.

use vstd::prelude::*;

use crate::json::{field, Json, JsonView, NumberView};
use crate::responses_store::{
    ConversationRecord,
    StoredResponse,
    StoredResponseView,
};
use crate::text::{decimal, decimal_text};

verus! {

/// A record is older than the retention time. The time zero keeps every record.
pub open spec fn expired(created_at: u64, retention_secs: u64, now: u64) -> bool {
    retention_secs != 0 && now - created_at > retention_secs
}

/// True when a record is older than the retention time at `now`.
pub fn is_expired(created_at: u64, retention_secs: u64, now: u64) -> (yes: bool)
    ensures
        yes == expired(created_at, retention_secs, now),
{
    retention_secs != 0 && now > created_at && now - created_at > retention_secs
}

/// When a response was created, or zero where its object does not say.
pub open spec fn creation(response: JsonView) -> u64 {
    match field(response, "created_at"@) {
        Some(JsonView::Number(NumberView::PosInt(n))) => n,
        _ => 0,
    }
}

fn created_at(record: &StoredResponse) -> (time: u64)
    ensures
        time == creation(record@.response),
{
    match record.response.get("created_at") {
        Some(Json::Number(number)) => match number.as_u64() {
            Some(n) => n,
            None => 0,
        },
        _ => 0,
    }
}

/// What a read found.
#[derive(Debug)]
pub enum Loaded<T> {
    /// There is no record.
    Missing,
    /// There is one, and it has expired: it is to be removed and counts as
    /// missing.
    Expired,
    /// The record.
    Live(T),
}

/// What the read of a response comes to: an expired record is to be removed.
pub fn load_response(
    found: Option<StoredResponse>,
    retention_secs: u64,
    now: u64,
) -> (loaded: Loaded<StoredResponse>)
    ensures
        match found {
            None => loaded is Missing,
            Some(record) => if expired(creation(record@.response), retention_secs, now) {
                loaded is Expired
            } else {
                loaded == Loaded::Live(record)
            },
        },
{
    match found {
        None => Loaded::Missing,
        Some(record) => {
            if is_expired(created_at(&record), retention_secs, now) {
                return Loaded::Expired;
            }
            Loaded::Live(record)
        },
    }
}

/// What the read of a conversation comes to: an expired record is to be removed.
pub fn load_conversation(
    found: Option<ConversationRecord>,
    retention_secs: u64,
    now: u64,
) -> (loaded: Loaded<ConversationRecord>)
    ensures
        match found {
            None => loaded is Missing,
            Some(record) => if expired(record.created_at, retention_secs, now) {
                loaded is Expired
            } else {
                loaded == Loaded::Live(record)
            },
        },
{
    match found {
        None => Loaded::Missing,
        Some(record) => {
            if is_expired(record.created_at, retention_secs, now) {
                return Loaded::Expired;
            }
            Loaded::Live(record)
        },
    }
}

/// The walk over the stored responses before a write. It counts the records that
/// are kept.
#[derive(Debug)]
pub struct WriteScan {
    live: usize,
}

/// How many of the records have not expired.
pub open spec fn kept(records: Seq<StoredResponseView>, retention_secs: u64, now: u64) -> nat
    decreases records.len(),
{
    if records.len() == 0 {
        0
    } else {
        let before = kept(records.drop_last(), retention_secs, now);
        if expired(creation(records.last().response), retention_secs, now) {
            before
        } else {
            before + 1
        }
    }
}

impl WriteScan {
    /// How many records were kept so far.
    pub closed spec fn live(&self) -> nat {
        self.live as nat
    }

    /// The walk before its first record.
    pub fn new() -> (scan: WriteScan)
        ensures
            scan.live() == 0,
    {
        WriteScan { live: 0 }
    }

    /// Takes the next record. True when it has expired and is to be removed;
    /// otherwise it counts.
    pub fn step(&mut self, record: &StoredResponse, retention_secs: u64, now: u64) -> (remove: bool)
        requires
            old(self).live() < usize::MAX,
        ensures
            remove == expired(creation(record@.response), retention_secs, now),
            final(self).live() == old(self).live() + if remove {
                0int
            } else {
                1int
            },
    {
        if is_expired(created_at(record), retention_secs, now) {
            true
        } else {
            self.live = self.live + 1;
            false
        }
    }

    /// True when a new record fits. The limit zero is none.
    pub fn fits(&self, limit: usize) -> (fits: bool)
        ensures
            fits == (limit == 0 || self.live() < limit),
    {
        limit == 0 || self.live < limit
    }
}

/// The wording for a full store.
pub fn storage_full_message(limit: usize) -> (message: String)
    ensures
        message@ == "the response storage limit of "@ + decimal(limit as nat) + " is reached"@,
{
    "the response storage limit of ".to_owned().concat(decimal_text(limit as u64).as_str()).concat(
        " is reached",
    )
}

/// A record that has expired stays expired, and one that is kept was kept before.
pub proof fn law_expiry_is_final(created_at: u64, retention_secs: u64, now: u64, later: u64)
    requires
        now <= later,
        expired(created_at, retention_secs, now),
    ensures
        expired(created_at, retention_secs, later),
{
}

/// Without a retention time nothing expires, and a record is kept for the whole of
/// the time: at its last second it is still there.
pub proof fn law_retention_is_inclusive(created_at: u64, retention_secs: u64, now: u64)
    requires
        now <= created_at + retention_secs,
    ensures
        !expired(created_at, retention_secs, now),
        !expired(created_at, 0, now),
{
}

/// A walk over the records counts those that have not expired: each step adds
/// what its record adds to the count.
pub proof fn law_scan_counts_what_is_kept(
    before: WriteScan,
    after: WriteScan,
    records: Seq<StoredResponseView>,
    record: StoredResponseView,
    retention_secs: u64,
    now: u64,
)
    requires
        before.live() == kept(records, retention_secs, now),
        after.live() == before.live() + if expired(
            creation(record.response),
            retention_secs,
            now,
        ) {
            0int
        } else {
            1int
        },
    ensures
        after.live() == kept(records.push(record), retention_secs, now),
        kept(records.push(record), retention_secs, now) <= records.len() + 1,
{
    assert(records.push(record).drop_last() =~= records);
    lemma_kept_is_bounded(records.push(record), retention_secs, now);
}

proof fn lemma_kept_is_bounded(records: Seq<StoredResponseView>, retention_secs: u64, now: u64)
    ensures
        kept(records, retention_secs, now) <= records.len(),
    decreases records.len(),
{
    if records.len() > 0 {
        lemma_kept_is_bounded(records.drop_last(), retention_secs, now);
    }
}

} // verus!
