//! The course of one messaging operation, as a sequence of requests to the
//! surroundings and their replies.
//!
//! The session store, the ratchet and the network are not part of this
//! library. An operation therefore runs as a `Flow`: it names the next
//! thing it needs as an `Action`, the caller performs it and reports what
//! came of it as an `Event`, and `Flow::step` decides what follows.
use vstd::prelude::*;
use vstd::string::*;
use vstd::utf8::*;
use crate::bundle::{
    bundle_bytes, fits, lemma_bundle_reads_back, read_bundle, Bundle, BundleView,
};
use crate::crypto::utf8_text;
use crate::encoding::{base64_bytes, base64_decode, base64_encode, base64_text};
use crate::error::SessionError;
use crate::wire::{
    bundle_payload, bundles_url, first_bundle_id, make_bundle_payload, make_bundles_url,
    make_peer_bundle_url, make_peer_bundles_url, peer_bundle_url, peer_bundles_url,
    spec_first_bundle_id, BUNDLE_BATCH, SIGNED_PRE_KEY_ID,
};

verus! {

/// The two forms of an incoming message.
#[derive(Clone, Copy, Debug, PartialEq, Eq, Structural)]
pub enum MessageKind {
    /// A message of an established session.
    Signal,
    /// A message that establishes the session it belongs to.
    PreKey,
}

/// Why the store or the ratchet refused a request.
#[derive(Clone, Copy, Debug, PartialEq, Eq, Structural)]
pub enum Refusal {
    /// The message was processed before.
    Duplicate,
    /// Any other reason.
    Other,
}

/// Where a flow stands: what it waits for.
#[derive(Clone, Copy, Debug, PartialEq, Eq, Structural)]
pub enum Stage {
    /// Encrypting: whether a session with the peer exists.
    EncryptSession,
    /// Encrypting: the identifier of the peer's next unused bundle.
    EncryptBundleId,
    /// Encrypting: the bundle that is fetched and deleted.
    EncryptBundle,
    /// Encrypting: the session made from the bundle.
    EncryptEstablish,
    /// Encrypting: the ciphertext.
    EncryptCiphertext,
    /// Decrypting: whether a session with the peer exists.
    DecryptSession,
    /// Decrypting: whether the bytes read as a session message.
    DecryptParseSignal,
    /// Decrypting: whether the bytes read as a pre-key message.
    DecryptParsePreKey,
    /// Decrypting: the plaintext.
    DecryptPlain,
    /// Publishing: the highest bundle identifier the server knows.
    PublishLast,
    /// Publishing: whether the signed pre-key exists.
    PublishSignedLookup { first: u32 },
    /// Publishing: the signed pre-key that is being made.
    PublishSignedMade { first: u32 },
    /// Publishing: the next bundle, after `done` were published.
    PublishBundle { first: u32, done: u32 },
    /// Publishing: the server's word that the bundle arrived.
    PublishPosted { first: u32, done: u32 },
    /// Nothing more: the flow has finished.
    Finished,
}

/// What came of an action.
#[derive(Debug, PartialEq, Eq)]
pub enum Event {
    /// Whether the store holds what was asked for.
    Present(bool),
    /// The number in a reply, if there was one.
    Number(Option<u32>),
    /// The text of a reply.
    Text(String),
    /// Bytes that the ratchet produced.
    Bytes(Vec<u8>),
    /// The bundle that was made.
    Bundle(Bundle),
    /// The action succeeded and yields nothing.
    Done,
    /// The store or the ratchet refused.
    Refused(Refusal),
}

/// An event, as mathematics sees it.
pub ghost enum EventView {
    Present(bool),
    Number(Option<u32>),
    Text(Seq<char>),
    Bytes(Seq<u8>),
    Bundle(BundleView),
    Done,
    Refused(Refusal),
}

impl View for Event {
    type V = EventView;

    open spec fn view(&self) -> EventView {
        match *self {
            Event::Present(b) => EventView::Present(b),
            Event::Number(n) => EventView::Number(n),
            Event::Text(t) => EventView::Text(t@),
            Event::Bytes(b) => EventView::Bytes(b@),
            Event::Bundle(b) => EventView::Bundle(b@),
            Event::Done => EventView::Done,
            Event::Refused(r) => EventView::Refused(r),
        }
    }
}

/// What a flow asks of its surroundings next.
#[derive(Debug, PartialEq, Eq)]
pub enum Action {
    /// Ask the store whether it holds a session with the peer.
    HasSession,
    /// Ask the store whether it holds the signed pre-key.
    HasSignedPreKey { id: u32 },
    /// Generate, sign and store the signed pre-key.
    MakeSignedPreKey { id: u32 },
    /// Generate and store a one-time pre-key and make its bundle.
    MakeBundle { pre_key_id: u32, signed_pre_key_id: u32 },
    /// Ask the server for a number.
    Get { url: String },
    /// Fetch and delete a text on the server.
    Delete { url: String },
    /// Send a document to the server.
    Post { url: String, body: String },
    /// Establish a session with the peer from its bundle.
    Establish { bundle: Bundle },
    /// Encrypt for the peer.
    Encrypt { plaintext: Vec<u8> },
    /// Try to read the bytes as a message of the given kind.
    Parse { kind: MessageKind, bytes: Vec<u8> },
    /// Decrypt the message that was read, of the given kind.
    Decrypt { kind: MessageKind },
    /// The operation is over, with this result.
    Finish(Result<String, SessionError>),
}

/// An action, as mathematics sees it.
pub ghost enum ActionView {
    HasSession,
    HasSignedPreKey { id: u32 },
    MakeSignedPreKey { id: u32 },
    MakeBundle { pre_key_id: u32, signed_pre_key_id: u32 },
    Get { url: Seq<char> },
    Delete { url: Seq<char> },
    Post { url: Seq<char>, body: Seq<char> },
    Establish { bundle: BundleView },
    Encrypt { plaintext: Seq<u8> },
    Parse { kind: MessageKind, bytes: Seq<u8> },
    Decrypt { kind: MessageKind },
    Finish(Result<Seq<char>, SessionError>),
}

impl View for Action {
    type V = ActionView;

    open spec fn view(&self) -> ActionView {
        match *self {
            Action::HasSession => ActionView::HasSession,
            Action::HasSignedPreKey { id } => ActionView::HasSignedPreKey { id },
            Action::MakeSignedPreKey { id } => ActionView::MakeSignedPreKey { id },
            Action::MakeBundle { pre_key_id, signed_pre_key_id } => ActionView::MakeBundle {
                pre_key_id,
                signed_pre_key_id,
            },
            Action::Get { url } => ActionView::Get { url: url@ },
            Action::Delete { url } => ActionView::Delete { url: url@ },
            Action::Post { url, body } => ActionView::Post { url: url@, body: body@ },
            Action::Establish { bundle } => ActionView::Establish { bundle: bundle@ },
            Action::Encrypt { plaintext } => ActionView::Encrypt { plaintext: plaintext@ },
            Action::Parse { kind, bytes } => ActionView::Parse { kind, bytes: bytes@ },
            Action::Decrypt { kind } => ActionView::Decrypt { kind },
            Action::Finish(Ok(text)) => ActionView::Finish(Ok(text@)),
            Action::Finish(Err(e)) => ActionView::Finish(Err(e)),
        }
    }
}

/// A flow, as mathematics sees it.
pub ghost struct FlowView {
    /// The peer that the operation is about; empty when publishing.
    pub peer: Seq<char>,
    /// The base address of the protocol server.
    pub basepath: Seq<char>,
    /// The bytes to encrypt, or the bytes of the message to decrypt.
    pub payload: Seq<u8>,
    /// What the flow waits for.
    pub stage: Stage,
}

/// The flow ends in failure.
pub open spec fn fail(e: SessionError) -> (Stage, ActionView) {
    (Stage::Finished, ActionView::Finish(Err(e)))
}

/// A bundle of the batch is asked for.
pub open spec fn ask_bundle(first: u32, done: u32) -> (Stage, ActionView) {
    if first + done <= u32::MAX {
        (
            Stage::PublishBundle { first, done },
            ActionView::MakeBundle {
                pre_key_id: (first + done) as u32,
                signed_pre_key_id: SIGNED_PRE_KEY_ID,
            },
        )
    } else {
        fail(SessionError::Protocol)
    }
}

/// What follows an event while encrypting.
pub open spec fn encrypt_next(flow: FlowView, event: EventView) -> (Stage, ActionView) {
    match (flow.stage, event) {
        (Stage::EncryptSession, EventView::Present(true)) => (
            Stage::EncryptCiphertext,
            ActionView::Encrypt { plaintext: flow.payload },
        ),
        (Stage::EncryptSession, EventView::Present(false)) => (
            Stage::EncryptBundleId,
            ActionView::Get { url: peer_bundles_url(flow.basepath, flow.peer) },
        ),
        (Stage::EncryptBundleId, EventView::Number(Some(id))) => (
            Stage::EncryptBundle,
            ActionView::Delete { url: peer_bundle_url(flow.basepath, flow.peer, id) },
        ),
        (Stage::EncryptBundleId, EventView::Number(None)) => fail(SessionError::NotFound),
        (Stage::EncryptBundle, EventView::Text(text)) => match base64_bytes(text) {
            Some(bytes) => match read_bundle(bytes) {
                Some(bundle) => (Stage::EncryptEstablish, ActionView::Establish { bundle }),
                None => fail(SessionError::Protocol),
            },
            None => fail(SessionError::Protocol),
        },
        (Stage::EncryptBundle, EventView::Refused(_)) => fail(SessionError::NotFound),
        (Stage::EncryptEstablish, EventView::Done) => (
            Stage::EncryptCiphertext,
            ActionView::Encrypt { plaintext: flow.payload },
        ),
        (Stage::EncryptCiphertext, EventView::Bytes(ciphertext)) => (
            Stage::Finished,
            ActionView::Finish(Ok(base64_text(ciphertext))),
        ),
        _ => fail(SessionError::Protocol),
    }
}

/// What follows an event while decrypting.
pub open spec fn decrypt_next(flow: FlowView, event: EventView) -> (Stage, ActionView) {
    match (flow.stage, event) {
        (Stage::DecryptSession, EventView::Present(true)) => (
            Stage::DecryptParseSignal,
            ActionView::Parse { kind: MessageKind::Signal, bytes: flow.payload },
        ),
        (Stage::DecryptSession, EventView::Present(false)) => (
            Stage::DecryptParsePreKey,
            ActionView::Parse { kind: MessageKind::PreKey, bytes: flow.payload },
        ),
        (Stage::DecryptParseSignal, EventView::Done) => (
            Stage::DecryptPlain,
            ActionView::Decrypt { kind: MessageKind::Signal },
        ),
        (Stage::DecryptParseSignal, EventView::Refused(_)) => (
            Stage::DecryptParsePreKey,
            ActionView::Parse { kind: MessageKind::PreKey, bytes: flow.payload },
        ),
        (Stage::DecryptParsePreKey, EventView::Done) => (
            Stage::DecryptPlain,
            ActionView::Decrypt { kind: MessageKind::PreKey },
        ),
        (Stage::DecryptPlain, EventView::Bytes(plaintext)) => if valid_utf8(plaintext) {
            (Stage::Finished, ActionView::Finish(Ok(decode_utf8(plaintext))))
        } else {
            fail(SessionError::MessageDecrypt)
        },
        (Stage::DecryptPlain, EventView::Refused(Refusal::Duplicate)) => fail(
            SessionError::DuplicateMessage,
        ),
        (Stage::DecryptPlain, EventView::Refused(Refusal::Other)) => fail(
            SessionError::MessageDecrypt,
        ),
        _ => fail(SessionError::Protocol),
    }
}

/// The bundle is the one that was asked for after `done` others: it
/// carries the pre-key `first + done` and the signed pre-key, and it can
/// be written as bytes.
pub open spec fn is_asked_bundle(first: u32, done: u32, bundle: BundleView) -> bool {
    &&& bundle.pre_key_id == first + done
    &&& bundle.signed_pre_key_id == SIGNED_PRE_KEY_ID
    &&& fits(bundle)
}

/// What follows an event while publishing a batch of bundles.
pub open spec fn publish_next(flow: FlowView, event: EventView) -> (Stage, ActionView) {
    match (flow.stage, event) {
        (Stage::PublishLast, EventView::Number(last)) => match spec_first_bundle_id(last) {
            Some(first) => (
                Stage::PublishSignedLookup { first },
                ActionView::HasSignedPreKey { id: SIGNED_PRE_KEY_ID },
            ),
            None => fail(SessionError::Protocol),
        },
        (Stage::PublishSignedLookup { first }, EventView::Present(true)) => ask_bundle(first, 0),
        (Stage::PublishSignedLookup { first }, EventView::Present(false)) => (
            Stage::PublishSignedMade { first },
            ActionView::MakeSignedPreKey { id: SIGNED_PRE_KEY_ID },
        ),
        (Stage::PublishSignedMade { first }, EventView::Done) => ask_bundle(first, 0),
        (Stage::PublishBundle { first, done }, EventView::Bundle(bundle)) => if is_asked_bundle(
            first,
            done,
            bundle,
        ) {
            (
                Stage::PublishPosted { first, done },
                ActionView::Post {
                    url: bundles_url(flow.basepath),
                    body: bundle_payload(bundle.pre_key_id, bundle_bytes(bundle)),
                },
            )
        } else {
            fail(SessionError::Protocol)
        },
        (Stage::PublishPosted { first, done }, EventView::Done) => if done + 1 >= BUNDLE_BATCH {
            (Stage::Finished, ActionView::Finish(Ok(Seq::empty())))
        } else {
            ask_bundle(first, (done + 1) as u32)
        },
        _ => fail(SessionError::Protocol),
    }
}

/// The stage belongs to an encryption.
pub open spec fn is_encrypt_stage(stage: Stage) -> bool {
    stage is EncryptSession || stage is EncryptBundleId || stage is EncryptBundle
        || stage is EncryptEstablish || stage is EncryptCiphertext
}

/// The stage belongs to a decryption.
pub open spec fn is_decrypt_stage(stage: Stage) -> bool {
    stage is DecryptSession || stage is DecryptParseSignal || stage is DecryptParsePreKey
        || stage is DecryptPlain
}

/// What follows an event: the next stage and the next action. An event
/// that the stage does not wait for ends the flow with `Protocol`, and a
/// finished flow stays finished.
pub open spec fn flow_next(flow: FlowView, event: EventView) -> (Stage, ActionView) {
    if is_encrypt_stage(flow.stage) {
        encrypt_next(flow, event)
    } else if is_decrypt_stage(flow.stage) {
        decrypt_next(flow, event)
    } else {
        publish_next(flow, event)
    }
}

/// One running operation.
#[derive(Debug)]
pub struct Flow {
    peer: String,
    basepath: String,
    payload: Vec<u8>,
    stage: Stage,
}

impl View for Flow {
    type V = FlowView;

    closed spec fn view(&self) -> FlowView {
        FlowView {
            peer: self.peer@,
            basepath: self.basepath@,
            payload: self.payload@,
            stage: self.stage,
        }
    }
}

fn finish_with(e: SessionError) -> (r: (Stage, Action))
    ensures
        (r.0, r.1@) == fail(e),
{
    (Stage::Finished, Action::Finish(Err(e)))
}

fn bundle_request(first: u32, done: u32) -> (r: (Stage, Action))
    ensures
        (r.0, r.1@) == ask_bundle(first, done),
{
    match first.checked_add(done) {
        Some(pre_key_id) => (
            Stage::PublishBundle { first, done },
            Action::MakeBundle { pre_key_id, signed_pre_key_id: SIGNED_PRE_KEY_ID },
        ),
        None => finish_with(SessionError::Protocol),
    }
}

impl Flow {
    /// An encryption of `message` for `peer`. It starts by asking whether
    /// a session with the peer exists.
    pub fn encrypt(peer: String, message: &String, basepath: String) -> (r: (Flow, Action))
        ensures
            r.0@ == (FlowView {
                peer: peer@,
                basepath: basepath@,
                payload: encode_utf8(message@),
                stage: Stage::EncryptSession,
            }),
            r.1@ == ActionView::HasSession,
    {
        let payload = message.as_str().as_bytes_vec();
        (Flow { peer, basepath, payload, stage: Stage::EncryptSession }, Action::HasSession)
    }

    /// A decryption of the message with the given bytes, from `peer`. It
    /// starts by asking whether a session with the peer exists.
    pub fn decrypt(peer: String, bytes: Vec<u8>, basepath: String) -> (r: (Flow, Action))
        ensures
            r.0@ == (FlowView {
                peer: peer@,
                basepath: basepath@,
                payload: bytes@,
                stage: Stage::DecryptSession,
            }),
            r.1@ == ActionView::HasSession,
    {
        (Flow { peer, basepath, payload: bytes, stage: Stage::DecryptSession }, Action::HasSession)
    }

    /// The publication of a batch of bundles. It starts by asking the
    /// server for the highest bundle identifier it knows.
    pub fn publish(basepath: String) -> (r: (Flow, Action))
        ensures
            r.0@ == (FlowView {
                peer: Seq::empty(),
                basepath: basepath@,
                payload: Seq::empty(),
                stage: Stage::PublishLast,
            }),
            r.1@ == (ActionView::Get { url: bundles_url(basepath@) }),
    {
        let url = make_bundles_url(basepath.as_str());
        (
            Flow { peer: String::new(), basepath, payload: Vec::new(), stage: Stage::PublishLast },
            Action::Get { url },
        )
    }

    /// What the flow waits for.
    pub fn stage(&self) -> (r: Stage)
        ensures
            r == self@.stage,
    {
        self.stage
    }

    /// Whether the flow is over.
    pub fn is_finished(&self) -> (r: bool)
        ensures
            r == (self@.stage is Finished),
    {
        match self.stage {
            Stage::Finished => true,
            _ => false,
        }
    }

    fn step_encrypt(&self, event: Event) -> (r: (Stage, Action))
        requires
            is_encrypt_stage(self@.stage),
        ensures
            (r.0, r.1@) == encrypt_next(self@, event@),
    {
        match (self.stage, event) {
            (Stage::EncryptSession, Event::Present(true)) => (
                Stage::EncryptCiphertext,
                Action::Encrypt { plaintext: self.payload.clone() },
            ),
            (Stage::EncryptSession, Event::Present(false)) => (
                Stage::EncryptBundleId,
                Action::Get { url: make_peer_bundles_url(self.basepath.as_str(), self.peer.as_str()) },
            ),
            (Stage::EncryptBundleId, Event::Number(Some(id))) => (
                Stage::EncryptBundle,
                Action::Delete {
                    url: make_peer_bundle_url(self.basepath.as_str(), self.peer.as_str(), id),
                },
            ),
            (Stage::EncryptBundleId, Event::Number(None)) => finish_with(SessionError::NotFound),
            (Stage::EncryptBundle, Event::Text(text)) => match base64_decode(text.as_str()) {
                Ok(bytes) => match Bundle::deserialize(bytes.as_slice()) {
                    Some(bundle) => (Stage::EncryptEstablish, Action::Establish { bundle }),
                    None => finish_with(SessionError::Protocol),
                },
                Err(_) => finish_with(SessionError::Protocol),
            },
            (Stage::EncryptBundle, Event::Refused(_)) => finish_with(SessionError::NotFound),
            (Stage::EncryptEstablish, Event::Done) => (
                Stage::EncryptCiphertext,
                Action::Encrypt { plaintext: self.payload.clone() },
            ),
            (Stage::EncryptCiphertext, Event::Bytes(ciphertext)) => (
                Stage::Finished,
                Action::Finish(Ok(base64_encode(ciphertext.as_slice()))),
            ),
            _ => finish_with(SessionError::Protocol),
        }
    }

    fn step_decrypt(&self, event: Event) -> (r: (Stage, Action))
        requires
            is_decrypt_stage(self@.stage),
        ensures
            (r.0, r.1@) == decrypt_next(self@, event@),
    {
        match (self.stage, event) {
            (Stage::DecryptSession, Event::Present(true)) => (
                Stage::DecryptParseSignal,
                Action::Parse { kind: MessageKind::Signal, bytes: self.payload.clone() },
            ),
            (Stage::DecryptSession, Event::Present(false)) => (
                Stage::DecryptParsePreKey,
                Action::Parse { kind: MessageKind::PreKey, bytes: self.payload.clone() },
            ),
            (Stage::DecryptParseSignal, Event::Done) => (
                Stage::DecryptPlain,
                Action::Decrypt { kind: MessageKind::Signal },
            ),
            (Stage::DecryptParseSignal, Event::Refused(_)) => (
                Stage::DecryptParsePreKey,
                Action::Parse { kind: MessageKind::PreKey, bytes: self.payload.clone() },
            ),
            (Stage::DecryptParsePreKey, Event::Done) => (
                Stage::DecryptPlain,
                Action::Decrypt { kind: MessageKind::PreKey },
            ),
            (Stage::DecryptPlain, Event::Bytes(plaintext)) => match utf8_text(plaintext) {
                Ok(text) => (Stage::Finished, Action::Finish(Ok(text))),
                Err(_) => finish_with(SessionError::MessageDecrypt),
            },
            (Stage::DecryptPlain, Event::Refused(Refusal::Duplicate)) => finish_with(
                SessionError::DuplicateMessage,
            ),
            (Stage::DecryptPlain, Event::Refused(Refusal::Other)) => finish_with(
                SessionError::MessageDecrypt,
            ),
            _ => finish_with(SessionError::Protocol),
        }
    }

    fn step_publish(&self, event: Event) -> (r: (Stage, Action))
        ensures
            (r.0, r.1@) == publish_next(self@, event@),
    {
        match (self.stage, event) {
            (Stage::PublishLast, Event::Number(last)) => match first_bundle_id(last) {
                Some(first) => (
                    Stage::PublishSignedLookup { first },
                    Action::HasSignedPreKey { id: SIGNED_PRE_KEY_ID },
                ),
                None => finish_with(SessionError::Protocol),
            },
            (Stage::PublishSignedLookup { first }, Event::Present(true)) => bundle_request(
                first,
                0,
            ),
            (Stage::PublishSignedLookup { first }, Event::Present(false)) => (
                Stage::PublishSignedMade { first },
                Action::MakeSignedPreKey { id: SIGNED_PRE_KEY_ID },
            ),
            (Stage::PublishSignedMade { first }, Event::Done) => bundle_request(first, 0),
            (Stage::PublishBundle { first, done }, Event::Bundle(bundle)) => {
                let asked = match first.checked_add(done) {
                    Some(id) => bundle.pre_key_id == id && bundle.signed_pre_key_id
                        == SIGNED_PRE_KEY_ID,
                    None => false,
                };
                match bundle.serialize() {
                    Some(bytes) => if asked {
                        (
                            Stage::PublishPosted { first, done },
                            Action::Post {
                                url: make_bundles_url(self.basepath.as_str()),
                                body: make_bundle_payload(bundle.pre_key_id, bytes.as_slice()),
                            },
                        )
                    } else {
                        finish_with(SessionError::Protocol)
                    },
                    None => finish_with(SessionError::Protocol),
                }
            },
            (Stage::PublishPosted { first, done }, Event::Done) => if done >= BUNDLE_BATCH - 1 {
                (Stage::Finished, Action::Finish(Ok(String::new())))
            } else {
                bundle_request(first, done + 1)
            },
            _ => finish_with(SessionError::Protocol),
        }
    }

    /// Takes in what came of the last action and names the next one.
    pub fn step(&mut self, event: Event) -> (action: Action)
        ensures
            (final(self)@.stage, action@) == flow_next(old(self)@, event@),
            final(self)@.peer == old(self)@.peer,
            final(self)@.basepath == old(self)@.basepath,
            final(self)@.payload == old(self)@.payload,
    {
        let (stage, action) = match self.stage {
            Stage::EncryptSession
            | Stage::EncryptBundleId
            | Stage::EncryptBundle
            | Stage::EncryptEstablish
            | Stage::EncryptCiphertext => self.step_encrypt(event),
            Stage::DecryptSession
            | Stage::DecryptParseSignal
            | Stage::DecryptParsePreKey
            | Stage::DecryptPlain => self.step_decrypt(event),
            _ => self.step_publish(event),
        };
        self.stage = stage;
        action
    }
}


/// An upper bound on the events that a flow at this stage still takes.
pub open spec fn steps_left(stage: Stage) -> nat {
    match stage {
        Stage::EncryptSession => 5,
        Stage::EncryptBundleId => 4,
        Stage::EncryptBundle => 3,
        Stage::EncryptEstablish => 2,
        Stage::EncryptCiphertext => 1,
        Stage::DecryptSession => 4,
        Stage::DecryptParseSignal => 3,
        Stage::DecryptParsePreKey => 2,
        Stage::DecryptPlain => 1,
        Stage::PublishLast => 2 * BUNDLE_BATCH as nat + 3,
        Stage::PublishSignedLookup { first } => 2 * BUNDLE_BATCH as nat + 2,
        Stage::PublishSignedMade { first } => 2 * BUNDLE_BATCH as nat + 1,
        Stage::PublishBundle { first, done } => if done < BUNDLE_BATCH {
            (2 * (BUNDLE_BATCH - done)) as nat
        } else {
            2
        },
        Stage::PublishPosted { first, done } => if done < BUNDLE_BATCH {
            (2 * (BUNDLE_BATCH - done) - 1) as nat
        } else {
            1
        },
        Stage::Finished => 0,
    }
}

/// Every event brings a flow nearer to its end, a finished flow stays
/// finished, and an action that ends the operation comes exactly with the
/// stage `Finished`.
pub proof fn lemma_flow_advances(flow: FlowView, event: EventView)
    ensures
        flow.stage is Finished ==> flow_next(flow, event) == fail(SessionError::Protocol),
        !(flow.stage is Finished) ==> steps_left(flow_next(flow, event).0) < steps_left(
            flow.stage,
        ),
        flow_next(flow, event).0 is Finished <==> flow_next(flow, event).1 is Finish,
{
}

/// A bundle is fetched and deleted only in answer to the server's naming
/// a peer's unused bundle, and it is that bundle of that peer. Where the
/// server names none, or the named bundle is gone when it is fetched, the
/// encryption ends with `NotFound`, and nothing else ends with it.
pub proof fn lemma_bundle_is_consumed_on_offer(flow: FlowView, event: EventView)
    ensures
        flow_next(flow, event).1 is Delete ==> {
            &&& flow.stage is EncryptBundleId
            &&& event matches EventView::Number(Some(id)) && flow_next(flow, event).1 == (
                ActionView::Delete { url: peer_bundle_url(flow.basepath, flow.peer, id) })
        },
        flow_next(flow, event).1 == ActionView::Finish(Err(SessionError::NotFound)) <==> (
        flow.stage is EncryptBundleId && event == EventView::Number(None)) || (flow.stage
            is EncryptBundle && event is Refused),
        flow_next(flow, event).0 is EncryptBundleId ==> flow.stage is EncryptSession,
{
}

/// A message that the ratchet has processed before is reported as
/// `DuplicateMessage`, and nothing else is.
pub proof fn lemma_duplicate_is_reported(flow: FlowView, event: EventView)
    ensures
        flow_next(flow, event).1 == ActionView::Finish(Err(SessionError::DuplicateMessage))
            <==> flow.stage is DecryptPlain && event == EventView::Refused(Refusal::Duplicate),
{
}

/// A batch is `BUNDLE_BATCH` bundles with consecutive identifiers: the
/// bundle made after `done` others is published under `first + done`, as
/// bytes that read back to it, and after it comes the next one, or the
/// end once the batch is full.
pub proof fn lemma_batch_is_consecutive(
    basepath: Seq<char>,
    last: Option<u32>,
    done: u32,
    bundle: BundleView,
)
    requires
        spec_first_bundle_id(last) is Some,
        done < BUNDLE_BATCH,
        is_asked_bundle(spec_first_bundle_id(last)->0, done, bundle),
    ensures
        ({
            let first = spec_first_bundle_id(last)->0;
            let made = FlowView {
                peer: Seq::empty(),
                basepath,
                payload: Seq::empty(),
                stage: Stage::PublishBundle { first, done },
            };
            let posted = FlowView {
                peer: Seq::empty(),
                basepath,
                payload: Seq::empty(),
                stage: Stage::PublishPosted { first, done },
            };
            &&& first + done <= u32::MAX
            &&& flow_next(made, EventView::Bundle(bundle)) == (
                Stage::PublishPosted { first, done },
                ActionView::Post {
                    url: bundles_url(basepath),
                    body: bundle_payload((first + done) as u32, bundle_bytes(bundle)),
                },
            )
            &&& read_bundle(bundle_bytes(bundle)) == Some(bundle)
            &&& flow_next(posted, EventView::Done) == if done + 1 < BUNDLE_BATCH {
                (
                    Stage::PublishBundle { first, done: (done + 1) as u32 },
                    ActionView::MakeBundle {
                        pre_key_id: (first + done + 1) as u32,
                        signed_pre_key_id: SIGNED_PRE_KEY_ID,
                    },
                )
            } else {
                (Stage::Finished, ActionView::Finish(Ok(Seq::empty())))
            }
        }),
{
    lemma_bundle_reads_back(bundle);
}

/// Text survives the way through the ratchet: where decrypting gives the
/// bytes that were handed over for encrypting, the decryption ends with
/// the text that the encryption began with.
pub proof fn lemma_text_survives(sent: FlowView, received: FlowView, message: Seq<char>)
    requires
        sent.stage is EncryptSession || sent.stage is EncryptEstablish,
        sent.payload == encode_utf8(message),
        received.stage is DecryptPlain,
    ensures
        flow_next(sent, EventView::Present(true)).1 is Encrypt || flow_next(
            sent,
            EventView::Done,
        ).1 is Encrypt,
        flow_next(received, EventView::Bytes(encode_utf8(message))) == (
            Stage::Finished,
            ActionView::Finish(Ok(message)),
        ),
{
    broadcast use {encode_utf8_valid_utf8, encode_utf8_decode_utf8};

}


} // verus!
