//! Per-connection session state and its manager.
//!
//! A session records the last accepted message type, the repetition counters
//! of the voucher-entry and service-info exchanges, the derived keys, and an
//! expiry instant. The ordering check runs before any payload processing: a
//! message whose type may not follow the recorded previous type is a hard
//! protocol violation and the session is rejected, never repaired. Derived
//! keys are installed in two steps — set as pending at the key exchange,
//! activated only after the key-parameters step — so the opening exchange
//! stays in the clear.
//!
//! The manager owns every session exclusively: handlers lease a session,
//! mutate it, and commit it back; the sweep removes what has expired.

use vstd::prelude::*;

use crate::constants::{EncryptionRequirement, MessageType, ProtocolPhase};
use crate::errors::{Error, ProtocolViolation, StoreError};
use crate::kex::SessionKeys;

verus! {

// ---------------------------------------------------------------------------
// the ordering check
// ---------------------------------------------------------------------------

/// The bare ordering rule: may a message of type `t` follow a session whose
/// last accepted type is `prev`? An illegal position always yields the
/// protocol violation, a legal one always passes — independent of the
/// payload.
pub fn check_ordering(t: MessageType, prev: Option<MessageType>) -> (r: Result<(), Error>)
    ensures
        r is Ok <==> t.spec_valid_previous(prev),
        r is Err ==> r == Err::<(), Error>(Error::Protocol(ProtocolViolation::OutOfOrder)),
{
    if t.valid_previous(prev) {
        Ok(())
    } else {
        Err(Error::Protocol(ProtocolViolation::OutOfOrder))
    }
}

/// The transport-envelope rule: a type that must travel in the clear may not
/// arrive encrypted, one that must travel encrypted may not arrive in the
/// clear, and a type with no constraint must match whether the session has
/// active keys.
pub open spec fn spec_encryption_ok(
    t: MessageType,
    keys_active: bool,
    inbound_encrypted: bool,
) -> bool {
    match t.spec_encryption_requirement() {
        Some(EncryptionRequirement::MustBeEncrypted) => inbound_encrypted,
        Some(EncryptionRequirement::MustNotBeEncrypted) => !inbound_encrypted,
        None => inbound_encrypted == keys_active,
    }
}

/// Enforces the envelope rule before any payload is interpreted.
pub fn check_encryption(t: MessageType, keys_active: bool, inbound_encrypted: bool) -> (r: Result<
    (),
    Error,
>)
    ensures
        r is Ok <==> spec_encryption_ok(t, keys_active, inbound_encrypted),
        r is Err ==> (r == Err::<(), Error>(
            Error::Protocol(ProtocolViolation::MissingEncryption),
        ) && !inbound_encrypted) || (r == Err::<(), Error>(
            Error::Protocol(ProtocolViolation::UnexpectedEncryption),
        ) && inbound_encrypted),
{
    let ok = match t.encryption_requirement() {
        Some(EncryptionRequirement::MustBeEncrypted) => inbound_encrypted,
        Some(EncryptionRequirement::MustNotBeEncrypted) => !inbound_encrypted,
        None => inbound_encrypted == keys_active,
    };
    if ok {
        Ok(())
    } else if inbound_encrypted {
        Err(Error::Protocol(ProtocolViolation::UnexpectedEncryption))
    } else {
        Err(Error::Protocol(ProtocolViolation::MissingEncryption))
    }
}

// ---------------------------------------------------------------------------
// sessions
// ---------------------------------------------------------------------------

/// Mutable per-connection state, owned by the manager and leased to one
/// handler at a time.
#[derive(Clone, Debug, PartialEq, Eq)]
pub struct Session {
    /// The unique identifier the transport uses to address this session.
    pub id: u64,
    /// The phase this session was created for; it accepts no other's
    /// messages.
    pub phase: ProtocolPhase,
    /// The last accepted message type; None on a fresh session.
    pub last_message: Option<MessageType>,
    /// Keys derived at the key exchange but not yet applied.
    pub pending_keys: Option<SessionKeys>,
    /// Keys in force for the encrypted envelope.
    pub active_keys: Option<SessionKeys>,
    /// The instant past which the sweep removes this session.
    pub expires_at: u64,
    /// How many voucher entries the session is expected to hand out.
    pub expected_entries: u16,
    /// How many voucher entries have been handed out so far.
    pub entries_sent: u16,
    /// Whether the owner has signalled the service-info exchange complete.
    pub service_info_done: bool,
}

/// The repetition gate: the terminal messages of the repeated exchanges are
/// only acceptable once the expected count is satisfied or the completion
/// flag was seen.
pub open spec fn spec_counter_gate(t: MessageType, s: Session) -> bool {
    match t {
        MessageType::TO2ProveDevice => s.entries_sent == s.expected_entries,
        MessageType::TO2Done => s.service_info_done,
        _ => true,
    }
}

/// Whether a session in this state accepts a message of type `t`: the
/// ordering table admits it after the recorded previous type, it belongs to
/// the session's phase, and the repetition gate is satisfied.
pub open spec fn spec_accepts(s: Session, t: MessageType) -> bool {
    &&& t.spec_valid_previous(s.last_message)
    &&& t.spec_phase() == s.phase
    &&& spec_counter_gate(t, s)
}

impl Session {
    /// A fresh session for one phase.
    pub fn new(id: u64, phase: ProtocolPhase, expires_at: u64) -> (r: Session)
        ensures
            r.id == id,
            r.phase == phase,
            r.last_message is None,
            r.pending_keys is None,
            r.active_keys is None,
            r.expires_at == expires_at,
            r.expected_entries == 0,
            r.entries_sent == 0,
            !r.service_info_done,
    {
        Session {
            id,
            phase,
            last_message: None,
            pending_keys: None,
            active_keys: None,
            expires_at,
            expected_entries: 0,
            entries_sent: 0,
            service_info_done: false,
        }
    }

    /// The ordering check against this session's state, without recording
    /// anything.
    pub fn check_message(&self, t: MessageType) -> (r: Result<(), Error>)
        ensures
            r is Ok <==> spec_accepts(*self, t),
            r is Err ==> (r == Err::<(), Error>(Error::Protocol(ProtocolViolation::OutOfOrder))
                && !(t.spec_valid_previous(self.last_message) && t.spec_phase() == self.phase)) || (
            r == Err::<(), Error>(Error::Protocol(ProtocolViolation::CounterMismatch)) && (
            t.spec_valid_previous(self.last_message) && t.spec_phase() == self.phase)
                && !spec_counter_gate(t, *self)),
    {
        if !(t.valid_previous(self.last_message) && t.phase() == self.phase) {
            return Err(Error::Protocol(ProtocolViolation::OutOfOrder));
        }
        let gate = match t {
            MessageType::TO2ProveDevice => self.entries_sent == self.expected_entries,
            MessageType::TO2Done => self.service_info_done,
            _ => true,
        };
        if !gate {
            return Err(Error::Protocol(ProtocolViolation::CounterMismatch));
        }
        Ok(())
    }

    /// Records an accepted message as the new session position.
    pub fn record_message(&mut self, t: MessageType)
        requires
            spec_accepts(*old(self), t),
        ensures
            final(self).last_message == Some(t),
            final(self).id == old(self).id,
            final(self).phase == old(self).phase,
            final(self).pending_keys == old(self).pending_keys,
            final(self).active_keys == old(self).active_keys,
            final(self).expires_at == old(self).expires_at,
            final(self).expected_entries == old(self).expected_entries,
            final(self).entries_sent == old(self).entries_sent,
            final(self).service_info_done == old(self).service_info_done,
    {
        self.last_message = Some(t);
    }

    /// Stores derived keys without applying them: the reply that carries the
    /// key exchange must still travel in the clear.
    pub fn set_pending_keys(&mut self, keys: SessionKeys)
        ensures
            final(self).pending_keys == Some(keys),
            final(self).active_keys == old(self).active_keys,
            final(self).last_message == old(self).last_message,
            final(self).id == old(self).id,
            final(self).phase == old(self).phase,
            final(self).expires_at == old(self).expires_at,
            final(self).expected_entries == old(self).expected_entries,
            final(self).entries_sent == old(self).entries_sent,
            final(self).service_info_done == old(self).service_info_done,
    {
        self.pending_keys = Some(keys);
    }

    /// Applies the pending keys: from here on the envelope is encrypted.
    pub fn activate_pending_keys(&mut self)
        ensures
            final(self).active_keys == old(self).pending_keys,
            final(self).pending_keys is None,
            final(self).last_message == old(self).last_message,
            final(self).id == old(self).id,
            final(self).phase == old(self).phase,
            final(self).expires_at == old(self).expires_at,
            final(self).expected_entries == old(self).expected_entries,
            final(self).entries_sent == old(self).entries_sent,
            final(self).service_info_done == old(self).service_info_done,
    {
        self.active_keys = self.pending_keys.take();
    }

    /// Records how many voucher entries this session is to hand out.
    pub fn set_expected_entries(&mut self, n: u16)
        ensures
            final(self).expected_entries == n,
            final(self).entries_sent == old(self).entries_sent,
            final(self).last_message == old(self).last_message,
            final(self).id == old(self).id,
            final(self).phase == old(self).phase,
            final(self).pending_keys == old(self).pending_keys,
            final(self).active_keys == old(self).active_keys,
            final(self).expires_at == old(self).expires_at,
            final(self).service_info_done == old(self).service_info_done,
    {
        self.expected_entries = n;
    }

    /// Counts one handed-out voucher entry.
    pub fn note_entry_sent(&mut self) -> (r: Result<(), Error>)
        ensures
            match r {
                Ok(()) => {
                    &&& old(self).entries_sent < old(self).expected_entries
                    &&& final(self).entries_sent == old(self).entries_sent + 1
                },
                Err(_) => {
                    &&& old(self).entries_sent >= old(self).expected_entries
                    &&& final(self).entries_sent == old(self).entries_sent
                },
            },
            final(self).expected_entries == old(self).expected_entries,
            final(self).last_message == old(self).last_message,
            final(self).id == old(self).id,
            final(self).phase == old(self).phase,
            final(self).pending_keys == old(self).pending_keys,
            final(self).active_keys == old(self).active_keys,
            final(self).expires_at == old(self).expires_at,
            final(self).service_info_done == old(self).service_info_done,
    {
        if self.entries_sent < self.expected_entries {
            self.entries_sent = self.entries_sent + 1;
            Ok(())
        } else {
            Err(Error::Protocol(ProtocolViolation::CounterMismatch))
        }
    }

    /// Records the owner's completion flag for the service-info exchange.
    pub fn note_service_info_done(&mut self)
        ensures
            final(self).service_info_done,
            final(self).entries_sent == old(self).entries_sent,
            final(self).expected_entries == old(self).expected_entries,
            final(self).last_message == old(self).last_message,
            final(self).id == old(self).id,
            final(self).phase == old(self).phase,
            final(self).pending_keys == old(self).pending_keys,
            final(self).active_keys == old(self).active_keys,
            final(self).expires_at == old(self).expires_at,
    {
        self.service_info_done = true;
    }
}

// ---------------------------------------------------------------------------
// the manager
// ---------------------------------------------------------------------------

/// Identifiers never repeat and stay below the next one to be issued.
pub open spec fn spec_store_wf(sessions: Seq<Session>, next_id: u64) -> bool {
    &&& forall|i: int, j: int|
        0 <= i < j < sessions.len() ==> (#[trigger] sessions[i]).id != (#[trigger] sessions[j]).id
    &&& forall|i: int| 0 <= i < sessions.len() ==> (#[trigger] sessions[i]).id < next_id
}

/// An element of a filtered sequence is an element of the original.
proof fn lemma_filter_membership(s: Seq<Session>, pred: spec_fn(Session) -> bool, i: int)
    requires
        0 <= i < s.filter(pred).len(),
    ensures
        exists|j: int| 0 <= j < s.len() && s[j] == #[trigger] s.filter(pred)[i],
    decreases s.len(),
{
    reveal(Seq::filter);
    if s.len() > 0 {
        let fd = s.drop_last().filter(pred);
        if i < fd.len() {
            lemma_filter_membership(s.drop_last(), pred, i);
            let j = choose|j: int|
                0 <= j < s.drop_last().len() && s.drop_last()[j] == s.drop_last().filter(pred)[i];
            assert(s[j] == s.drop_last()[j]);
        } else {
            assert(s.filter(pred)[i] == s.last());
            assert(s[s.len() - 1] == s.last());
        }
    }
}

/// Filtering keeps identifiers unique: a swept store is still well formed.
proof fn lemma_filter_keeps_wf(s: Seq<Session>, pred: spec_fn(Session) -> bool, next_id: u64)
    requires
        spec_store_wf(s, next_id),
    ensures
        spec_store_wf(s.filter(pred), next_id),
    decreases s.len(),
{
    reveal(Seq::filter);
    if s.len() == 0 {
    } else {
        let d = s.drop_last();
        assert(spec_store_wf(d, next_id)) by {
            assert(forall|i: int| 0 <= i < d.len() ==> d[i] == s[i]);
        }
        lemma_filter_keeps_wf(d, pred, next_id);
        let f = s.filter(pred);
        let fd = d.filter(pred);
        if pred(s.last()) {
            assert(f == fd.push(s.last()));
            assert forall|i: int, j: int| 0 <= i < j < f.len() implies (#[trigger] f[i]).id != (
            #[trigger] f[j]).id by {
                if j == f.len() - 1 {
                    assert(f[i] == fd[i]);
                    lemma_filter_membership(d, pred, i);
                    let k = choose|k: int| 0 <= k < d.len() && d[k] == fd[i];
                    assert(s[k] == d[k]);
                    assert(s[s.len() - 1] == s.last());
                } else {
                    assert(f[i] == fd[i] && f[j] == fd[j]);
                }
            }
            assert forall|i: int| 0 <= i < f.len() implies (#[trigger] f[i]).id < next_id by {
                if i < f.len() - 1 {
                    assert(f[i] == fd[i]);
                } else {
                    assert(f[i] == s.last());
                    assert(s[s.len() - 1] == s.last());
                }
            }
        } else {
            assert(f == fd);
        }
    }
}

/// The session manager: exclusive owner of every live session. Handlers
/// lease a session out, mutate it, and commit it back; no two handlers hold
/// the same session at once, because a leased session is absent from the
/// store until committed.
pub struct SessionStore {
    pub sessions: Vec<Session>,
    pub next_id: u64,
}

impl SessionStore {
    pub open spec fn wf(self) -> bool {
        spec_store_wf(self.sessions@, self.next_id)
    }

    /// Whether some live session carries the identifier.
    pub open spec fn spec_has(self, id: u64) -> bool {
        exists|i: int| 0 <= i < self.sessions@.len() && (#[trigger] self.sessions@[i]).id == id
    }

    pub fn new() -> (r: SessionStore)
        ensures
            r.sessions@.len() == 0,
            r.next_id == 0,
            r.wf(),
    {
        SessionStore { sessions: Vec::new(), next_id: 0 }
    }

    /// Creates a session for one phase and returns its fresh identifier.
    pub fn create(&mut self, phase: ProtocolPhase, expires_at: u64) -> (r: Result<u64, Error>)
        requires
            old(self).wf(),
        ensures
            final(self).wf(),
            match r {
                Ok(id) => {
                    &&& id == old(self).next_id
                    &&& final(self).next_id == old(self).next_id + 1
                    &&& final(self).sessions@.len() == old(self).sessions@.len() + 1
                    &&& final(self).sessions@.last() == (Session {
                        id,
                        phase,
                        last_message: None,
                        pending_keys: None,
                        active_keys: None,
                        expires_at,
                        expected_entries: 0,
                        entries_sent: 0,
                        service_info_done: false,
                    })
                    &&& final(self).sessions@.take(old(self).sessions@.len() as int) == old(
                        self,
                    ).sessions@
                    &&& !old(self).spec_has(id)
                },
                Err(_) => *final(self) == *old(self) && old(self).next_id == u64::MAX,
            },
    {
        if self.next_id == u64::MAX {
            return Err(Error::Store(StoreError::Backend));
        }
        let id = self.next_id;
        let s = Session::new(id, phase, expires_at);
        self.next_id = self.next_id + 1;
        self.sessions.push(s);
        proof {
            assert(self.sessions@.take(old(self).sessions@.len() as int) =~= old(self).sessions@);
            let sq = self.sessions@;
            let pre = old(self).sessions@;
            assert forall|a: int, b: int| 0 <= a < b < sq.len() implies (#[trigger] sq[a]).id != (
            #[trigger] sq[b]).id by {
                if b < sq.len() - 1 {
                    assert(sq[a] == pre[a] && sq[b] == pre[b]);
                } else {
                    assert(sq[a] == pre[a]);
                    assert(pre[a].id < old(self).next_id);
                }
            }
            assert forall|a: int| 0 <= a < sq.len() implies (#[trigger] sq[a]).id
                < self.next_id by {
                if a < sq.len() - 1 {
                    assert(sq[a] == pre[a]);
                    assert(pre[a].id < old(self).next_id);
                }
            }
        }
        Ok(id)
    }

    /// Checks a session out of the store; until it is committed back, no
    /// other handler can reach it.
    pub fn lease(&mut self, id: u64) -> (r: Result<Session, Error>)
        requires
            old(self).wf(),
        ensures
            final(self).wf(),
            final(self).next_id == old(self).next_id,
            match r {
                Ok(s) => {
                    &&& s.id == id
                    &&& old(self).spec_has(id)
                    &&& !final(self).spec_has(id)
                    &&& final(self).sessions@.len() + 1 == old(self).sessions@.len()
                    &&& (exists|i: int|
                        0 <= i < old(self).sessions@.len() && old(self).sessions@[i] == s
                            && final(self).sessions@ == old(self).sessions@.remove(i))
                },
                Err(_) => {
                    &&& *final(self) == *old(self)
                    &&& !old(self).spec_has(id)
                    &&& r == Err::<Session, Error>(Error::Store(StoreError::NotFound))
                },
            },
    {
        let n = self.sessions.len();
        let mut i: usize = 0;
        while i < n
            invariant
                spec_store_wf(old(self).sessions@, old(self).next_id),
                self.sessions == old(self).sessions,
                self.sessions@ == old(self).sessions@,
                self.next_id == old(self).next_id,
                n == self.sessions@.len(),
                i <= n,
                forall|j: int| 0 <= j < i ==> (#[trigger] self.sessions@[j]).id != id,
            decreases n - i,
        {
            if self.sessions[i].id == id {
                let ghost pre = self.sessions@;
                let s = self.sessions.remove(i);
                proof {
                    pre.remove_ensures(i as int);
                    assert(self.sessions@ == pre.remove(i as int));
                    assert(spec_store_wf(pre, self.next_id));
                    assert forall|a: int|
                        0 <= a < self.sessions@.len() implies #[trigger] self.sessions@[a] == (
                        if a < i as int {
                            pre[a]
                        } else {
                            pre[a + 1]
                        }) by {
                        if a < i as int {
                            assert(pre.remove(i as int)[a] == pre[a]);
                        } else {
                            assert(pre.remove(i as int)[a] == pre[a + 1]);
                        }
                    }
                    assert forall|a: int, b: int|
                        0 <= a < b < self.sessions@.len() implies (#[trigger] self.sessions@[a]).id
                        != (#[trigger] self.sessions@[b]).id by {
                        let pa: int = if a < i as int {
                            a
                        } else {
                            a + 1
                        };
                        let pb: int = if b < i as int {
                            b
                        } else {
                            b + 1
                        };
                        assert(self.sessions@[a] == pre[pa] && self.sessions@[b] == pre[pb]);
                        assert(pre[pa].id != pre[pb].id);
                    }
                    assert forall|a: int|
                        0 <= a < self.sessions@.len() implies (#[trigger] self.sessions@[a]).id
                        < self.next_id && (#[trigger] self.sessions@[a]).id != id by {
                        let pa: int = if a < i as int {
                            a
                        } else {
                            a + 1
                        };
                        assert(self.sessions@[a] == pre[pa]);
                        assert(pre[pa].id < self.next_id);
                        assert(pre[pa].id != pre[i as int].id);
                    }
                }
                return Ok(s);
            }
            i = i + 1;
        }
        Err(Error::Store(StoreError::NotFound))
    }

    /// Commits a leased session back. A session whose identifier is already
    /// live, or one the store never issued, is refused.
    pub fn commit(&mut self, s: Session) -> (r: Result<(), Error>)
        requires
            old(self).wf(),
        ensures
            final(self).wf(),
            final(self).next_id == old(self).next_id,
            match r {
                Ok(()) => {
                    &&& !old(self).spec_has(s.id)
                    &&& s.id < old(self).next_id
                    &&& final(self).sessions@ == old(self).sessions@.push(s)
                },
                Err(_) => {
                    &&& *final(self) == *old(self)
                    &&& (old(self).spec_has(s.id) || s.id >= old(self).next_id)
                },
            },
    {
        if s.id >= self.next_id {
            return Err(Error::Store(StoreError::Backend));
        }
        let n = self.sessions.len();
        let mut i: usize = 0;
        while i < n
            invariant
                spec_store_wf(old(self).sessions@, old(self).next_id),
                self.sessions == old(self).sessions,
                self.sessions@ == old(self).sessions@,
                self.next_id == old(self).next_id,
                n == self.sessions@.len(),
                i <= n,
                forall|j: int| 0 <= j < i ==> (#[trigger] self.sessions@[j]).id != s.id,
            decreases n - i,
        {
            if self.sessions[i].id == s.id {
                return Err(Error::Store(StoreError::Backend));
            }
            i = i + 1;
        }
        let ghost sid = s.id;
        self.sessions.push(s);
        proof {
            let sq = self.sessions@;
            let pre = old(self).sessions@;
            assert forall|a: int, b: int| 0 <= a < b < sq.len() implies (#[trigger] sq[a]).id != (
            #[trigger] sq[b]).id by {
                if b < sq.len() - 1 {
                    assert(sq[a] == pre[a] && sq[b] == pre[b]);
                } else {
                    assert(sq[a] == pre[a]);
                    assert(pre[a].id != sid);
                }
            }
            assert forall|a: int| 0 <= a < sq.len() implies (#[trigger] sq[a]).id
                < self.next_id by {
                if a < sq.len() - 1 {
                    assert(sq[a] == pre[a]);
                }
            }
        }
        Ok(())
    }

    /// Removes every session whose expiry is not past `now` — a session past
    /// its expiry is simply no longer retrievable — and reports how many
    /// were removed.
    pub fn expire_sweep(&mut self, now: u64) -> (r: usize)
        requires
            old(self).wf(),
        ensures
            final(self).wf(),
            final(self).next_id == old(self).next_id,
            final(self).sessions@ == old(self).sessions@.filter(
                |s: Session| s.expires_at > now,
            ),
            r + final(self).sessions@.len() == old(self).sessions@.len(),
    {
        let ghost pred = |s: Session| s.expires_at > now;
        let ghost orig = old(self).sessions@;
        let n = self.sessions.len();

        // Sessions move out of the store back to front, then are walked in
        // original order; the keepers move back in.
        proof {
            assert(orig.take(orig.len() as int) =~= orig);
        }
        let mut rev: Vec<Session> = Vec::new();
        while self.sessions.len() > 0
            invariant
                n == orig.len(),
                self.next_id == old(self).next_id,
                rev@.len() + self.sessions@.len() == orig.len(),
                self.sessions@ == orig.take(self.sessions@.len() as int),
                forall|j: int| 0 <= j < rev@.len() ==> rev@[j] == orig[orig.len() - 1 - j],
            decreases self.sessions@.len(),
        {
            let ghost m = self.sessions@.len();
            let s = self.sessions.pop().unwrap();
            proof {
                assert(orig.take(m as int)[m - 1] == orig[m - 1]);
                assert(self.sessions@ =~= orig.take(m - 1));
            }
            rev.push(s);
        }
        proof {
            assert(rev@.len() == orig.len());
        }

        let mut kept: Vec<Session> = Vec::new();
        let mut removed: usize = 0;
        let mut i: usize = 0;
        proof {
            reveal(Seq::filter);
            assert(orig.take(0int) =~= Seq::<Session>::empty());
        }
        while rev.len() > 0
            invariant
                n == orig.len(),
                self.next_id == old(self).next_id,
                i + rev@.len() == orig.len(),
                i <= n,
                removed <= i,
                forall|j: int| 0 <= j < rev@.len() ==> rev@[j] == orig[orig.len() - 1 - j],
                kept@ == orig.take(i as int).filter(pred),
                pred == (|s: Session| s.expires_at > now),
                kept@.len() + removed == i,
            decreases rev@.len(),
        {
            let ghost pre_rev = rev@;
            let s = rev.pop().unwrap();
            proof {
                assert(s == pre_rev[pre_rev.len() - 1]);
                assert(s == orig[i as int]);
                reveal(Seq::filter);
                let t = orig.take(i as int + 1);
                assert(t.drop_last() =~= orig.take(i as int));
                assert(t.last() == orig[i as int]);
            }
            if s.expires_at > now {
                kept.push(s);
            } else {
                removed = removed + 1;
            }
            i = i + 1;
        }
        proof {
            assert(orig.take(i as int) =~= orig);
            lemma_filter_keeps_wf(orig, pred, self.next_id);
        }
        self.sessions = kept;
        removed
    }
}

} // verus!
