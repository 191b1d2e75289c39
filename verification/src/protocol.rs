//! The messaging session: one slot that holds the session store, handed
//! out to one operation at a time, and the timer that persists changes in
//! the background.
//!
//! The store itself is the caller's: this library moves it in and out of
//! the slot and never looks inside.
use vstd::prelude::*;
use vstd::string::*;
use vstd::utf8::*;
use crate::encoding::{base64_bytes, base64_decode, base64_encode, base64_text};
use crate::error::SessionError;
use crate::flow::{Action, ActionView, Flow, FlowView, Stage};
use crate::wire::{bundles_url, SYNC_DELAY_MS};

verus! {

/// Version of the fingerprint format.
pub const FINGERPRINT_VERSION: u32 = 2;

/// Hash iterations of a fingerprint.
pub const FINGERPRINT_ITERATIONS: u32 = 5200;

/// A session store together with the address of the server it syncs with.
#[derive(Debug)]
pub struct SyncableStore<S> {
    pub store: S,
    pub api_basepath: String,
}

/// What a messaging session holds.
pub struct ProtocolInner<S> {
    storage: Option<SyncableStore<S>>,
    timeout: bool,
}

/// The messaging session.
pub struct Protocol<S> {
    inner: ProtocolInner<S>,
}

/// An operation that has the store: the store, the flow that decides, and
/// the first thing the flow asks for.
#[derive(Debug)]
pub struct Running<S> {
    pub store: SyncableStore<S>,
    pub flow: Flow,
    pub action: Action,
}

/// How a call that changes the session began.
#[derive(Debug)]
pub struct Begun<S> {
    /// The delay of the sync timer to arm now, if none was armed.
    pub arm_timer: Option<u32>,
    /// The operation, or `Busy` where the store was not in the slot, or
    /// `Protocol` where the message was not Base64.
    pub started: Result<Running<S>, SessionError>,
}

/// What goes into a fingerprint besides our own identity key.
#[derive(Debug, PartialEq, Eq)]
pub struct FingerprintQuery {
    pub version: u32,
    pub iterations: u32,
    pub local_id: Vec<u8>,
    pub remote_id: Vec<u8>,
    /// The peer's identity key, serialized.
    pub remote_identity: Vec<u8>,
}

/// Taking from the slot: the slot is empty afterwards, and the taker has
/// what was in it, or is told `Busy`.
pub open spec fn slot_take<T>(slot: Option<T>) -> (Option<T>, Result<T, SessionError>) {
    match slot {
        Some(held) => (None, Ok(held)),
        None => (None, Err(SessionError::Busy)),
    }
}

/// Scheduling a sync: the timer is armed afterwards, and a new timer is
/// asked for only where none was armed.
pub open spec fn timer_schedule(armed: bool) -> (bool, Option<u32>) {
    if armed {
        (true, None)
    } else {
        (true, Some(SYNC_DELAY_MS))
    }
}

/// The number of timers asked for by `calls` schedulings in a row, with
/// no timer firing in between.
pub open spec fn timers_asked(armed: bool, calls: nat) -> nat
    decreases calls,
{
    if calls == 0 {
        0
    } else {
        let asked: nat = if timer_schedule(armed).1 is Some {
            1
        } else {
            0
        };
        asked + timers_asked(timer_schedule(armed).0, (calls - 1) as nat)
    }
}

/// While a timer is armed, scheduling asks for none.
pub proof fn lemma_armed_asks_nothing(calls: nat)
    ensures
        timers_asked(true, calls) == 0,
    decreases calls,
{
    if calls > 0 {
        lemma_armed_asks_nothing((calls - 1) as nat);
    }
}

/// Any number of schedulings within one delay ask for exactly one timer,
/// and so lead to one sync.
pub proof fn lemma_burst_asks_one_timer(calls: nat)
    requires
        calls >= 1,
    ensures
        timers_asked(false, calls) == 1,
{
    lemma_armed_asks_nothing((calls - 1) as nat);
}

/// Of two operations that ask for the store before the first has given it
/// back, the first gets it and the second is told `Busy`; once it is back,
/// the next gets it again.
pub proof fn lemma_second_taker_is_busy<T>(store: T)
    ensures
        slot_take(Some(store)).1 == Ok::<T, SessionError>(store),
        slot_take(slot_take(Some(store)).0).1 == Err::<T, SessionError>(SessionError::Busy),
        slot_take(slot_take(slot_take(Some(store)).0).0).1 == Err::<T, SessionError>(
            SessionError::Busy,
        ),
{
}

impl<S> Protocol<S> {
    /// The store in the slot, if it is there.
    pub closed spec fn slot(&self) -> Option<SyncableStore<S>> {
        self.inner.storage
    }

    /// Whether the sync timer is armed.
    pub closed spec fn armed(&self) -> bool {
        self.inner.timeout
    }

    /// A session without a store and without a timer.
    pub fn new() -> (r: Protocol<S>)
        ensures
            r.slot() is None,
            !r.armed(),
    {
        Protocol { inner: ProtocolInner { storage: None, timeout: false } }
    }

    /// Puts a loaded store into the slot, in place of what was there.
    pub fn init(&mut self, store: SyncableStore<S>)
        ensures
            final(self).slot() == Some(store),
            final(self).armed() == old(self).armed(),
    {
        self.inner.storage = Some(store);
    }

    /// Puts the store of a new identity into the slot and returns the
    /// identity's public key in Base64, which decodes to the key again.
    pub fn register(&mut self, store: SyncableStore<S>, identity_public_key: &[u8]) -> (r: String)
        ensures
            final(self).slot() == Some(store),
            final(self).armed() == old(self).armed(),
            r@ == base64_text(identity_public_key@),
            base64_bytes(r@) == Some(identity_public_key@),
    {
        self.inner.storage = Some(store);
        base64_encode(identity_public_key)
    }

    /// Takes the store out of the slot for one operation.
    pub fn take_store(&mut self) -> (r: Result<SyncableStore<S>, SessionError>)
        ensures
            (final(self).slot(), r) == slot_take(old(self).slot()),
            final(self).armed() == old(self).armed(),
    {
        match self.inner.storage.take() {
            Some(store) => Ok(store),
            None => Err(SessionError::Busy),
        }
    }

    /// Gives the store back when the operation is over.
    pub fn put_store(&mut self, store: SyncableStore<S>)
        ensures
            final(self).slot() == Some(store),
            final(self).armed() == old(self).armed(),
    {
        self.inner.storage = Some(store);
    }

    /// The store, for persisting it, if it is in the slot.
    pub fn sync(&self) -> (r: Result<&SyncableStore<S>, SessionError>)
        ensures
            match self.slot() {
                Some(store) => r == Ok::<&SyncableStore<S>, SessionError>(&store),
                None => r == Err::<&SyncableStore<S>, SessionError>(SessionError::Busy),
            },
    {
        match &self.inner.storage {
            Some(store) => Ok(store),
            None => Err(SessionError::Busy),
        }
    }

    /// Arms the sync timer unless one is armed: the result is the delay of
    /// the timer to set, or nothing.
    pub fn schedule_sync(&mut self) -> (r: Option<u32>)
        ensures
            (final(self).armed(), r) == timer_schedule(old(self).armed()),
            final(self).slot() == old(self).slot(),
    {
        if self.inner.timeout {
            None
        } else {
            self.inner.timeout = true;
            Some(SYNC_DELAY_MS)
        }
    }

    /// The sync timer fired: it is cleared, so that the next change arms a
    /// new one, and the result says whether to sync now. Where the store
    /// is out of the slot this sync is skipped.
    pub fn timer_fired(&mut self) -> (r: bool)
        ensures
            !final(self).armed(),
            final(self).slot() == old(self).slot(),
            r == (old(self).slot() is Some),
    {
        self.inner.timeout = false;
        self.inner.storage.is_some()
    }

    /// What the fingerprint of two parties is computed from, besides our
    /// own identity key. `Busy` where the store is out of the slot; else
    /// nothing where the peer's identity key is not known yet.
    pub fn get_fingerprint(
        &self,
        our_id: String,
        their_id: String,
        their_identity: Option<Vec<u8>>,
    ) -> (r: Result<Option<FingerprintQuery>, SessionError>)
        ensures
            match (self.slot(), their_identity) {
                (None, _) => r matches Err(e) && e == SessionError::Busy,
                (Some(_), None) => r matches Ok(None),
                (Some(_), Some(identity)) => r matches Ok(Some(query)) && {
                    &&& query.version == FINGERPRINT_VERSION
                    &&& query.iterations == FINGERPRINT_ITERATIONS
                    &&& query.local_id@ == encode_utf8(our_id@)
                    &&& query.remote_id@ == encode_utf8(their_id@)
                    &&& query.remote_identity@ == identity@
                },
            },
    {
        if self.inner.storage.is_none() {
            return Err(SessionError::Busy);
        }
        match their_identity {
            None => Ok(None),
            Some(remote_identity) => Ok(
                Some(
                    FingerprintQuery {
                        version: FINGERPRINT_VERSION,
                        iterations: FINGERPRINT_ITERATIONS,
                        local_id: our_id.as_str().as_bytes_vec(),
                        remote_id: their_id.as_str().as_bytes_vec(),
                        remote_identity,
                    },
                ),
            ),
        }
    }

    /// Begins the publication of bundles for a store that is not in the
    /// slot yet, as a new identity needs it.
    pub fn begin_register(store: SyncableStore<S>) -> (r: Running<S>)
        ensures
            r.store == store,
            r.flow@ == (FlowView {
                peer: Seq::empty(),
                basepath: store.api_basepath@,
                payload: Seq::empty(),
                stage: Stage::PublishLast,
            }),
            r.action@ == (ActionView::Get { url: bundles_url(store.api_basepath@) }),
    {
        let (flow, action) = Flow::publish(store.api_basepath.clone());
        Running { store, flow, action }
    }

    /// Begins the publication of five more bundles. `Busy` where the store
    /// is out of the slot.
    pub fn add_pre_key_bundles(&mut self) -> (r: Result<Running<S>, SessionError>)
        ensures
            final(self).armed() == old(self).armed(),
            final(self).slot() is None,
            match old(self).slot() {
                Some(store) => r matches Ok(run) && {
                    &&& run.store == store
                    &&& run.flow@ == (FlowView {
                        peer: Seq::empty(),
                        basepath: store.api_basepath@,
                        payload: Seq::empty(),
                        stage: Stage::PublishLast,
                    })
                    &&& run.action@ == (ActionView::Get { url: bundles_url(store.api_basepath@) })
                },
                None => r matches Err(e) && e == SessionError::Busy,
            },
    {
        match self.take_store() {
            Ok(store) => Ok(Self::begin_register(store)),
            Err(e) => Err(e),
        }
    }

    /// Begins the encryption of a message for a peer, and schedules a
    /// sync. `Busy` where the store is out of the slot.
    pub fn encrypt(&mut self, user_id: String, message: String) -> (r: Begun<S>)
        ensures
            (final(self).armed(), r.arm_timer) == timer_schedule(old(self).armed()),
            final(self).slot() is None,
            match old(self).slot() {
                Some(store) => r.started matches Ok(run) && {
                    &&& run.store == store
                    &&& run.flow@ == (FlowView {
                        peer: user_id@,
                        basepath: store.api_basepath@,
                        payload: encode_utf8(message@),
                        stage: Stage::EncryptSession,
                    })
                    &&& run.action@ == ActionView::HasSession
                },
                None => r.started matches Err(e) && e == SessionError::Busy,
            },
    {
        let arm_timer = self.schedule_sync();
        let started = match self.take_store() {
            Ok(store) => {
                let (flow, action) = Flow::encrypt(user_id, &message, store.api_basepath.clone());
                Ok(Running { store, flow, action })
            },
            Err(e) => Err(e),
        };
        Begun { arm_timer, started }
    }

    /// Begins the decryption of a message from a peer, and schedules a
    /// sync. `Busy` where the store is out of the slot; else `Protocol`
    /// where the message is not Base64, and the store stays in the slot.
    pub fn decrypt(&mut self, user_id: String, message: String) -> (r: Begun<S>)
        ensures
            (final(self).armed(), r.arm_timer) == timer_schedule(old(self).armed()),
            match old(self).slot() {
                None => {
                    &&& final(self).slot() is None
                    &&& r.started matches Err(e) && e == SessionError::Busy
                },
                Some(store) => match base64_bytes(message@) {
                    None => {
                        &&& final(self).slot() == Some(store)
                        &&& r.started matches Err(e) && e == SessionError::Protocol
                    },
                    Some(bytes) => {
                        &&& final(self).slot() is None
                        &&& r.started matches Ok(run) && {
                            &&& run.store == store
                            &&& run.flow@ == (FlowView {
                                peer: user_id@,
                                basepath: store.api_basepath@,
                                payload: bytes,
                                stage: Stage::DecryptSession,
                            })
                            &&& run.action@ == ActionView::HasSession
                        }
                    },
                },
            },
    {
        let arm_timer = self.schedule_sync();
        if self.inner.storage.is_none() {
            return Begun { arm_timer, started: Err(SessionError::Busy) };
        }
        let started = match base64_decode(message.as_str()) {
            Err(_) => Err(SessionError::Protocol),
            Ok(bytes) => match self.take_store() {
                Ok(store) => {
                    let (flow, action) = Flow::decrypt(user_id, bytes, store.api_basepath.clone());
                    Ok(Running { store, flow, action })
                },
                Err(e) => Err(e),
            },
        };
        Begun { arm_timer, started }
    }
}

} // verus!
