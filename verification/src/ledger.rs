//! The evidence ledger: an append-only hash chain of events, each linked to
//! the digest of the one before it.
use crate::digest::{digest_hex, sha256_hex};
use crate::keyed::{key_of, SortedStrings};
use crate::text::{dec_chars, lemma_utf8_injective, owned, str_eq, u64_to_dec, utf8};
use vstd::prelude::*;

verus! {

#[derive(Debug, Clone, PartialEq, Eq)]
pub struct LedgerEvent {
    pub event_id: String,
    pub event_type: String,
    pub event_at_ms: u64,
    pub payload_digest: String,
    pub previous_digest: String,
    pub event_digest: String,
}

#[derive(Debug, Clone, Copy, PartialEq, Eq, Structural)]
pub enum LedgerError {
    EmptyEventId,
    EmptyEventType,
    InvalidEventTime,
    NonMonotonicTime,
    DuplicateEventId,
}

#[derive(Debug, Clone, PartialEq, Eq)]
pub struct EvidenceLedger {
    pub events: Vec<LedgerEvent>,
    pub head_digest: String,
}

/// The text an event's digest covers.
pub open spec fn link_text(
    previous: Seq<char>,
    event_id: Seq<char>,
    event_type: Seq<char>,
    at_ms: u64,
    payload_digest: Seq<char>,
) -> Seq<char> {
    previous + "|"@ + event_id + "|"@ + event_type + "|"@ + dec_chars(at_ms as nat) + "|"@ + payload_digest
}

/// The digest of an event, chained to the previous one.
pub open spec fn link_digest(
    previous: Seq<char>,
    event_id: Seq<char>,
    event_type: Seq<char>,
    at_ms: u64,
    payload_digest: Seq<char>,
) -> Seq<char> {
    sha256_hex(utf8(link_text(previous, event_id, event_type, at_ms, payload_digest)))
}

/// The digest the next event links to: the last event's, or empty.
pub open spec fn head_of(events: Seq<LedgerEvent>) -> Seq<char> {
    if events.len() == 0 {
        Seq::empty()
    } else {
        events.last().event_digest@
    }
}

/// Every event is identified, typed and timed, no earlier than the one
/// before it, with an id not used before, linked to the previous digest,
/// and carries the digest of its own contents and that link.
pub open spec fn chain_valid(events: Seq<LedgerEvent>) -> bool
    decreases events.len(),
{
    if events.len() == 0 {
        true
    } else {
        let prev = events.drop_last();
        let e = events.last();
        &&& chain_valid(prev)
        &&& e.event_id@.len() > 0
        &&& e.event_type@.len() > 0
        &&& e.event_at_ms != 0
        &&& prev.len() > 0 ==> prev.last().event_at_ms <= e.event_at_ms
        &&& forall|i: int| 0 <= i < prev.len() ==> (#[trigger] prev[i]).event_id@ != e.event_id@
        &&& e.previous_digest@ == head_of(prev)
        &&& e.event_digest@ == link_digest(e.previous_digest@, e.event_id@, e.event_type@, e.event_at_ms, e.payload_digest@)
    }
}

impl EvidenceLedger {
    /// A ledger verifies when its chain is valid and its head is the digest
    /// of its last event.
    pub open spec fn valid(&self) -> bool {
        chain_valid(self.events@) && self.head_digest@ == head_of(self.events@)
    }

    pub open spec fn id_taken(&self, event_id: Seq<char>) -> bool {
        exists|i: int| 0 <= i < self.events@.len() && (#[trigger] self.events@[i]).event_id@ == event_id
    }

    /// Why appending this event is refused, if it is.
    pub open spec fn append_error(&self, event_id: Seq<char>, event_type: Seq<char>, at_ms: u64) -> Option<LedgerError> {
        if event_id.len() == 0 {
            Some(LedgerError::EmptyEventId)
        } else if event_type.len() == 0 {
            Some(LedgerError::EmptyEventType)
        } else if at_ms == 0 {
            Some(LedgerError::InvalidEventTime)
        } else if self.id_taken(event_id) {
            Some(LedgerError::DuplicateEventId)
        } else if self.events@.len() > 0 && at_ms < self.events@.last().event_at_ms {
            Some(LedgerError::NonMonotonicTime)
        } else {
            None
        }
    }

    /// `next` is this ledger with the event appended and linked to the head.
    pub open spec fn appended(
        &self,
        next: EvidenceLedger,
        event_id: Seq<char>,
        event_type: Seq<char>,
        at_ms: u64,
        payload: Seq<u8>,
    ) -> bool {
        let e = next.events@.last();
        &&& next.events@.len() == self.events@.len() + 1
        &&& next.events@.drop_last() == self.events@
        &&& e.event_id@ == event_id
        &&& e.event_type@ == event_type
        &&& e.event_at_ms == at_ms
        &&& e.payload_digest@ == sha256_hex(payload)
        &&& e.previous_digest@ == self.head_digest@
        &&& e.event_digest@ == link_digest(self.head_digest@, event_id, event_type, at_ms, e.payload_digest@)
        &&& next.head_digest@ == e.event_digest@
    }

    /// Appends an event: it needs an id not used before, a type, a non-zero
    /// time no earlier than the last event's, and is linked to the head.
    pub fn append(&mut self, event_id: &str, event_type: &str, at_ms: u64, payload: &[u8]) -> (r: Result<(), LedgerError>)
        ensures
            old(self).append_error(event_id@, event_type@, at_ms) matches Some(e) ==> r == Err::<(), LedgerError>(e)
                && *final(self) == *old(self),
            old(self).append_error(event_id@, event_type@, at_ms) is None ==> r is Ok && old(self).appended(
                *final(self),
                event_id@,
                event_type@,
                at_ms,
                payload@,
            ),
    {
        if event_id.is_empty() {
            return Err(LedgerError::EmptyEventId);
        }
        if event_type.is_empty() {
            return Err(LedgerError::EmptyEventType);
        }
        if at_ms == 0 {
            return Err(LedgerError::InvalidEventTime);
        }
        let mut i: usize = 0;
        while i < self.events.len()
            invariant
                i <= self.events@.len(),
                event_id@.len() > 0,
                event_type@.len() > 0,
                at_ms != 0,
                forall|k: int| 0 <= k < i ==> (#[trigger] self.events@[k]).event_id@ != event_id@,
            decreases self.events@.len() - i,
        {
            if str_eq(self.events[i].event_id.as_str(), event_id) {
                assert(self.events@[i as int].event_id@ == event_id@);
                return Err(LedgerError::DuplicateEventId);
            }
            i = i + 1;
        }
        if self.events.len() > 0 && at_ms < self.events[self.events.len() - 1].event_at_ms {
            return Err(LedgerError::NonMonotonicTime);
        }
        let payload_digest = digest_hex(payload);
        let previous_digest = owned(self.head_digest.as_str());
        let event_digest = link_digest_exec(
            previous_digest.as_str(),
            event_id,
            event_type,
            at_ms,
            payload_digest.as_str(),
        );
        let head = owned(event_digest.as_str());
        let ghost old_events = self.events@;
        self.events.push(
            LedgerEvent {
                event_id: owned(event_id),
                event_type: owned(event_type),
                event_at_ms: at_ms,
                payload_digest,
                previous_digest,
                event_digest,
            },
        );
        self.head_digest = head;
        assert(self.events@.drop_last() =~= old_events);
        Ok(())
    }

    /// Checks the whole chain and its head.
    pub fn verify(&self) -> (r: bool)
        ensures
            r == self.valid(),
    {
        let mut previous = String::new();
        let mut previous_at_ms: u64 = 0;
        let mut event_ids = SortedStrings::new();
        let mut i: usize = 0;
        while i < self.events.len()
            invariant
                i <= self.events@.len(),
                chain_valid(self.events@.subrange(0, i as int)),
                previous@ == head_of(self.events@.subrange(0, i as int)),
                previous_at_ms == (if i == 0 { 0 } else { self.events@[i - 1].event_at_ms }),
                event_ids.wf(),
                event_ids.key_set() == self.events@.subrange(0, i as int).map_values(|e: LedgerEvent| key_of(e.event_id)).to_set(),
            decreases self.events@.len() - i,
        {
            let event = &self.events[i];
            let ghost prefix = self.events@.subrange(0, i as int);
            let ghost next = self.events@.subrange(0, i + 1);
            proof {
                assert(next.drop_last() =~= prefix);
                assert(next.last() == *event);
                let ks = prefix.map_values(|e: LedgerEvent| key_of(e.event_id));
                assert(next.map_values(|e: LedgerEvent| key_of(e.event_id)) =~= ks.push(key_of(event.event_id)));
                ks.lemma_push_to_set_commute(key_of(event.event_id));
                assert forall|k: int| 0 <= k < prefix.len() implies ((#[trigger] prefix[k]).event_id@ != event.event_id@
                    <==> ks[k] != key_of(event.event_id)) by {
                    if ks[k] == key_of(event.event_id) {
                        lemma_utf8_injective(prefix[k].event_id@, event.event_id@);
                    }
                }
                if ks.to_set().contains(key_of(event.event_id)) {
                    let k = choose|k: int| 0 <= k < ks.len() && ks[k] == key_of(event.event_id);
                    assert(prefix[k].event_id@ == event.event_id@);
                }
                if i > 0 {
                    assert(prefix.last() == self.events@[i - 1]);
                }
            }
            if event.event_id.as_str().is_empty() || event.event_type.as_str().is_empty() || event.event_at_ms == 0
                || event.event_at_ms < previous_at_ms {
                proof {
                    lemma_chain_prefix(self.events@, i + 1);
                }
                return false;
            }
            let fresh = event_ids.insert(owned(event.event_id.as_str()));
            if !fresh || !str_eq(event.previous_digest.as_str(), previous.as_str()) {
                proof {
                    lemma_chain_prefix(self.events@, i + 1);
                }
                return false;
            }
            let expected = link_digest_exec(
                event.previous_digest.as_str(),
                event.event_id.as_str(),
                event.event_type.as_str(),
                event.event_at_ms,
                event.payload_digest.as_str(),
            );
            if !str_eq(event.event_digest.as_str(), expected.as_str()) {
                proof {
                    lemma_chain_prefix(self.events@, i + 1);
                }
                return false;
            }
            previous = owned(event.event_digest.as_str());
            previous_at_ms = event.event_at_ms;
            i = i + 1;
        }
        assert(self.events@.subrange(0, self.events@.len() as int) =~= self.events@);
        str_eq(self.head_digest.as_str(), previous.as_str())
    }
}

impl Default for EvidenceLedger {
    fn default() -> (r: Self)
        ensures
            r.events@.len() == 0,
            r.head_digest@.len() == 0,
    {
        EvidenceLedger { events: Vec::new(), head_digest: String::new() }
    }
}

/// A prefix of a valid chain is valid.
proof fn lemma_chain_prefix(events: Seq<LedgerEvent>, k: int)
    requires
        0 <= k <= events.len(),
        !chain_valid(events.subrange(0, k)),
    ensures
        !chain_valid(events),
    decreases events.len() - k,
{
    if k < events.len() {
        assert(events.subrange(0, k + 1).drop_last() =~= events.subrange(0, k));
        lemma_chain_prefix(events, k + 1);
    } else {
        assert(events.subrange(0, k) =~= events);
    }
}

fn link_digest_exec(previous: &str, event_id: &str, event_type: &str, at_ms: u64, payload_digest: &str) -> (r: String)
    ensures
        r@ == link_digest(previous@, event_id@, event_type@, at_ms, payload_digest@),
{
    let mut text = owned(previous);
    text.append("|");
    text.append(event_id);
    text.append("|");
    text.append(event_type);
    text.append("|");
    text.append(u64_to_dec(at_ms).as_str());
    text.append("|");
    text.append(payload_digest);
    digest_hex(text.as_str().as_bytes())
}

/// Appending to a ledger that verifies gives a ledger that verifies.
pub proof fn law_append_preserves_validity(
    ledger: EvidenceLedger,
    next: EvidenceLedger,
    event_id: Seq<char>,
    event_type: Seq<char>,
    at_ms: u64,
    payload: Seq<u8>,
)
    requires
        ledger.valid(),
        ledger.append_error(event_id, event_type, at_ms) is None,
        ledger.appended(next, event_id, event_type, at_ms, payload),
    ensures
        next.valid(),
{
    let prev = next.events@.drop_last();
    assert(prev == ledger.events@);
    assert forall|i: int| 0 <= i < prev.len() implies (#[trigger] prev[i]).event_id@ != event_id by {
        if prev[i].event_id@ == event_id {
            assert(ledger.id_taken(event_id));
        }
    }
}

} // verus!
