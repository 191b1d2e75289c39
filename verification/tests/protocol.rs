use key_x::bundle::Bundle;
use key_x::error::SessionError;
use key_x::flow::{Action, Event, Flow, MessageKind, Refusal, Stage};
use key_x::protocol::{Protocol, SyncableStore};

fn store(tag: u32) -> SyncableStore<u32> {
    SyncableStore { store: tag, api_basepath: "http://srv".to_string() }
}

fn text(s: &str) -> String {
    s.to_string()
}

fn bundle(pre_key_id: u32) -> Bundle {
    Bundle {
        registration_id: 77,
        pre_key_id,
        pre_key: vec![5, 1, 2],
        signed_pre_key_id: 1,
        signed_pre_key: vec![5, 3],
        signature: vec![9; 4],
        identity_key: vec![5, 8, 8],
    }
}

fn published(pre_key_id: u32) -> String {
    base64::encode(bundle(pre_key_id).serialize().unwrap())
}

#[test]
fn test_protocol() {
    let protocol = Protocol::<u32>::new();
    assert!(protocol.sync().is_err());

    assert!(true);
}

#[test]
fn new_session_has_no_store() {
    let mut protocol = Protocol::<u32>::new();
    assert_eq!(protocol.sync().unwrap_err(), SessionError::Busy);
    assert_eq!(protocol.take_store().unwrap_err(), SessionError::Busy);
    assert_eq!(
        protocol.get_fingerprint(text("me"), text("you"), Some(vec![5, 1])).unwrap_err(),
        SessionError::Busy
    );
    assert_eq!(protocol.add_pre_key_bundles().unwrap_err(), SessionError::Busy);
}

#[test]
fn second_mutating_call_is_busy_until_the_first_resolves() {
    let mut protocol = Protocol::new();
    protocol.init(store(7));
    let first = protocol.encrypt(text("bob"), text("hello"));
    let running = first.started.unwrap();
    assert_eq!(running.store.store, 7);
    let second = protocol.encrypt(text("bob"), text("again"));
    assert_eq!(second.started.unwrap_err(), SessionError::Busy);
    let third = protocol.decrypt(text("bob"), text("aGVsbG8="));
    assert_eq!(third.started.unwrap_err(), SessionError::Busy);
    assert_eq!(protocol.sync().unwrap_err(), SessionError::Busy);
    protocol.put_store(running.store);
    let fourth = protocol.encrypt(text("bob"), text("again"));
    assert!(fourth.started.is_ok());
}

#[test]
fn burst_of_schedules_arms_one_timer() {
    let mut protocol = Protocol::new();
    protocol.init(store(1));
    assert_eq!(protocol.schedule_sync(), Some(3000));
    for _ in 0..10 {
        assert_eq!(protocol.schedule_sync(), None);
    }
    assert!(protocol.timer_fired());
    assert_eq!(protocol.schedule_sync(), Some(3000));
    assert_eq!(protocol.schedule_sync(), None);
}

#[test]
fn mutating_calls_schedule_a_sync() {
    let mut protocol = Protocol::new();
    protocol.init(store(1));
    let begun = protocol.encrypt(text("bob"), text("hello"));
    assert_eq!(begun.arm_timer, Some(3000));
    let running = begun.started.unwrap();
    let busy = protocol.decrypt(text("bob"), text("aGVsbG8="));
    assert_eq!(busy.arm_timer, None);
    // the timer fires while the store is out: the sync is skipped
    assert!(!protocol.timer_fired());
    protocol.put_store(running.store);
    let begun = protocol.decrypt(text("bob"), text("aGVsbG8="));
    assert_eq!(begun.arm_timer, Some(3000));
}

#[test]
fn register_installs_store_and_encodes_identity() {
    let mut protocol = Protocol::new();
    let run = Protocol::begin_register(store(3));
    assert_eq!(run.action, Action::Get { url: text("http://srv/protocol/bundles") });
    let identity = protocol.register(run.store, &[5u8, 1, 2, 3]);
    assert_eq!(identity, "BQECAw==");
    assert_eq!(protocol.sync().unwrap().store, 3);
}

#[test]
fn fingerprint_query_fixes_the_parameters() {
    let mut protocol = Protocol::new();
    protocol.init(store(1));
    assert_eq!(protocol.get_fingerprint(text("me"), text("yöu"), None), Ok(None));
    let query = protocol
        .get_fingerprint(text("me"), text("yöu"), Some(vec![5, 9, 9]))
        .unwrap()
        .unwrap();
    assert_eq!(query.remote_identity, vec![5, 9, 9]);
    assert_eq!(query.version, 2);
    assert_eq!(query.iterations, 5200);
    assert_eq!(query.local_id, b"me".to_vec());
    assert_eq!(query.remote_id, "yöu".as_bytes().to_vec());
}

#[test]
fn decrypt_refuses_bad_base64_and_keeps_the_store() {
    let mut protocol = Protocol::new();
    protocol.init(store(9));
    let begun = protocol.decrypt(text("bob"), text("not base64!"));
    assert_eq!(begun.started.unwrap_err(), SessionError::Protocol);
    assert_eq!(protocol.sync().unwrap().store, 9);
}

#[test]
fn encrypt_on_first_contact_consumes_one_bundle() {
    let mut protocol = Protocol::new();
    protocol.init(store(1));
    let run = protocol.encrypt(text("bob"), text("hi bob")).started.unwrap();
    let mut flow = run.flow;
    assert_eq!(run.action, Action::HasSession);
    assert_eq!(flow.stage(), Stage::EncryptSession);
    assert_eq!(
        flow.step(Event::Present(false)),
        Action::Get { url: text("http://srv/protocol/bundles/bob") }
    );
    assert_eq!(
        flow.step(Event::Number(Some(42))),
        Action::Delete { url: text("http://srv/protocol/bundles/bob/42") }
    );
    assert_eq!(
        flow.step(Event::Text(published(42))),
        Action::Establish { bundle: bundle(42) }
    );
    assert_eq!(flow.step(Event::Done), Action::Encrypt { plaintext: b"hi bob".to_vec() });
    assert!(!flow.is_finished());
    assert_eq!(flow.step(Event::Bytes(vec![0xde, 0xad])), Action::Finish(Ok(text("3q0="))));
    assert!(flow.is_finished());
    assert_eq!(flow.step(Event::Done), Action::Finish(Err(SessionError::Protocol)));
}

#[test]
fn encrypt_on_established_session_skips_the_bundle() {
    let (mut flow, first) = Flow::encrypt(text("bob"), &text("héllo"), text("http://srv"));
    assert_eq!(first, Action::HasSession);
    assert_eq!(
        flow.step(Event::Present(true)),
        Action::Encrypt { plaintext: "héllo".as_bytes().to_vec() }
    );
    assert_eq!(flow.step(Event::Bytes(vec![])), Action::Finish(Ok(text(""))));
}

#[test]
fn exhausted_peer_surfaces_not_found() {
    let (mut flow, _) = Flow::encrypt(text("bob"), &text("hi"), text("http://srv"));
    flow.step(Event::Present(false));
    assert_eq!(flow.step(Event::Number(None)), Action::Finish(Err(SessionError::NotFound)));
    assert!(flow.is_finished());
}

#[test]
fn bundle_gone_at_fetch_surfaces_not_found() {
    let (mut flow, _) = Flow::encrypt(text("bob"), &text("hi"), text("http://srv"));
    flow.step(Event::Present(false));
    flow.step(Event::Number(Some(3)));
    assert_eq!(
        flow.step(Event::Refused(Refusal::Other)),
        Action::Finish(Err(SessionError::NotFound))
    );
    assert!(flow.is_finished());
}

#[test]
fn encrypt_failures_are_protocol_errors() {
    let (mut flow, _) = Flow::encrypt(text("bob"), &text("hi"), text("http://srv"));
    flow.step(Event::Present(false));
    flow.step(Event::Number(Some(1)));
    assert_eq!(
        flow.step(Event::Text(text("***"))),
        Action::Finish(Err(SessionError::Protocol))
    );

    // Base64, but not the bytes of a bundle
    let (mut flow, _) = Flow::encrypt(text("bob"), &text("hi"), text("http://srv"));
    flow.step(Event::Present(false));
    flow.step(Event::Number(Some(1)));
    assert_eq!(
        flow.step(Event::Text(text("AQID"))),
        Action::Finish(Err(SessionError::Protocol))
    );

    // a bundle that the ratchet refuses
    let (mut flow, _) = Flow::encrypt(text("bob"), &text("hi"), text("http://srv"));
    flow.step(Event::Present(false));
    flow.step(Event::Number(Some(1)));
    assert_eq!(flow.step(Event::Text(published(1))), Action::Establish { bundle: bundle(1) });
    assert_eq!(
        flow.step(Event::Refused(Refusal::Other)),
        Action::Finish(Err(SessionError::Protocol))
    );

    let (mut flow, _) = Flow::encrypt(text("bob"), &text("hi"), text("http://srv"));
    assert_eq!(flow.step(Event::Done), Action::Finish(Err(SessionError::Protocol)));
}

#[test]
fn decrypt_with_session_tries_signal_then_prekey() {
    let mut protocol = Protocol::new();
    protocol.init(store(1));
    let run = protocol.decrypt(text("bob"), text("AQID")).started.unwrap();
    let mut flow = run.flow;
    assert_eq!(run.action, Action::HasSession);
    assert_eq!(
        flow.step(Event::Present(true)),
        Action::Parse { kind: MessageKind::Signal, bytes: vec![1, 2, 3] }
    );
    assert_eq!(
        flow.step(Event::Refused(Refusal::Other)),
        Action::Parse { kind: MessageKind::PreKey, bytes: vec![1, 2, 3] }
    );
    assert_eq!(flow.step(Event::Done), Action::Decrypt { kind: MessageKind::PreKey });
    assert_eq!(
        flow.step(Event::Bytes("grüß dich".as_bytes().to_vec())),
        Action::Finish(Ok(text("grüß dich")))
    );
}

#[test]
fn decrypt_with_session_prefers_signal() {
    let (mut flow, _) = Flow::decrypt(text("bob"), vec![9], text("http://srv"));
    flow.step(Event::Present(true));
    assert_eq!(flow.step(Event::Done), Action::Decrypt { kind: MessageKind::Signal });
}

#[test]
fn decrypt_without_session_reads_only_prekey() {
    let (mut flow, _) = Flow::decrypt(text("bob"), vec![9], text("http://srv"));
    assert_eq!(
        flow.step(Event::Present(false)),
        Action::Parse { kind: MessageKind::PreKey, bytes: vec![9] }
    );
    assert_eq!(
        flow.step(Event::Refused(Refusal::Other)),
        Action::Finish(Err(SessionError::Protocol))
    );
}

#[test]
fn duplicate_message_is_a_distinct_signal() {
    let (mut flow, _) = Flow::decrypt(text("bob"), vec![9], text("http://srv"));
    flow.step(Event::Present(true));
    flow.step(Event::Done);
    assert_eq!(
        flow.step(Event::Refused(Refusal::Duplicate)),
        Action::Finish(Err(SessionError::DuplicateMessage))
    );

    let (mut flow, _) = Flow::decrypt(text("bob"), vec![9], text("http://srv"));
    flow.step(Event::Present(true));
    flow.step(Event::Done);
    assert_eq!(
        flow.step(Event::Refused(Refusal::Other)),
        Action::Finish(Err(SessionError::MessageDecrypt))
    );

    let (mut flow, _) = Flow::decrypt(text("bob"), vec![9], text("http://srv"));
    flow.step(Event::Present(true));
    flow.step(Event::Done);
    assert_eq!(
        flow.step(Event::Bytes(vec![0xff, 0xfe])),
        Action::Finish(Err(SessionError::MessageDecrypt))
    );
}

#[test]
fn publish_makes_five_consecutive_bundles() {
    let mut protocol = Protocol::new();
    protocol.init(store(1));
    let run = protocol.add_pre_key_bundles().unwrap();
    let mut flow = run.flow;
    assert_eq!(run.action, Action::Get { url: text("http://srv/protocol/bundles") });
    assert_eq!(flow.step(Event::Number(Some(10))), Action::HasSignedPreKey { id: 1 });
    assert_eq!(flow.step(Event::Present(false)), Action::MakeSignedPreKey { id: 1 });
    let mut action = flow.step(Event::Done);
    for id in 11u32..16 {
        assert_eq!(action, Action::MakeBundle { pre_key_id: id, signed_pre_key_id: 1 });
        assert_eq!(
            flow.step(Event::Bundle(bundle(id))),
            Action::Post {
                url: text("http://srv/protocol/bundles"),
                body: format!("{{\"bundle_id\": {}, \"bundle\": \"{}\" }}", id, published(id)),
            }
        );
        action = flow.step(Event::Done);
    }
    assert_eq!(action, Action::Finish(Ok(text(""))));
    assert!(flow.is_finished());
    protocol.put_store(run.store);
    assert!(protocol.sync().is_ok());
}

#[test]
fn publish_starts_at_one_and_keeps_an_existing_signed_pre_key() {
    let (mut flow, _) = Flow::publish(text("http://srv"));
    assert_eq!(flow.step(Event::Number(None)), Action::HasSignedPreKey { id: 1 });
    assert_eq!(
        flow.step(Event::Present(true)),
        Action::MakeBundle { pre_key_id: 1, signed_pre_key_id: 1 }
    );
    assert_eq!(flow.stage(), Stage::PublishBundle { first: 1, done: 0 });
}

#[test]
fn publish_refuses_when_identifiers_run_out() {
    let (mut flow, _) = Flow::publish(text("http://srv"));
    assert_eq!(
        flow.step(Event::Number(Some(u32::MAX - 4))),
        Action::Finish(Err(SessionError::Protocol))
    );
    let (mut flow, _) = Flow::publish(text("http://srv"));
    assert_eq!(
        flow.step(Event::Number(Some(u32::MAX - 5))),
        Action::HasSignedPreKey { id: 1 }
    );
    let (mut flow, _) = Flow::publish(text("http://srv"));
    flow.step(Event::Number(None));
    flow.step(Event::Present(true));
    assert_eq!(
        flow.step(Event::Refused(Refusal::Other)),
        Action::Finish(Err(SessionError::Protocol))
    );
}

#[test]
fn publish_refuses_a_bundle_that_was_not_asked_for() {
    let (mut flow, _) = Flow::publish(text("http://srv"));
    flow.step(Event::Number(Some(4)));
    flow.step(Event::Present(true));
    assert_eq!(
        flow.step(Event::Bundle(bundle(6))),
        Action::Finish(Err(SessionError::Protocol))
    );

    let (mut flow, _) = Flow::publish(text("http://srv"));
    flow.step(Event::Number(Some(4)));
    flow.step(Event::Present(true));
    let mut other = bundle(5);
    other.signed_pre_key_id = 2;
    assert_eq!(flow.step(Event::Bundle(other)), Action::Finish(Err(SessionError::Protocol)));

    let (mut flow, _) = Flow::publish(text("http://srv"));
    flow.step(Event::Number(Some(4)));
    flow.step(Event::Present(true));
    assert_eq!(
        flow.step(Event::Bytes(vec![1])),
        Action::Finish(Err(SessionError::Protocol))
    );
}

#[test]
fn bundle_bytes_are_exact_and_read_back() {
    let bytes = bundle(258).serialize().unwrap();
    assert_eq!(
        bytes,
        vec![
            77, 0, 0, 0, // registration id
            2, 1, 0, 0, // pre-key id
            3, 0, 0, 0, 5, 1, 2, // pre-key
            1, 0, 0, 0, // signed pre-key id
            2, 0, 0, 0, 5, 3, // signed pre-key
            4, 0, 0, 0, 9, 9, 9, 9, // signature
            3, 0, 0, 0, 5, 8, 8, // identity key
        ]
    );
    assert_eq!(Bundle::deserialize(&bytes), Some(bundle(258)));

    let empty = Bundle {
        registration_id: u32::MAX,
        pre_key_id: 0,
        pre_key: vec![],
        signed_pre_key_id: 0,
        signed_pre_key: vec![],
        signature: vec![],
        identity_key: vec![],
    };
    let bytes = empty.serialize().unwrap();
    assert_eq!(bytes.len(), 28);
    assert_eq!(Bundle::deserialize(&bytes), Some(empty));
}

#[test]
fn malformed_bundle_bytes_are_refused() {
    let bytes = bundle(7).serialize().unwrap();
    for cut in 0..bytes.len() {
        assert_eq!(Bundle::deserialize(&bytes[..cut]), None, "cut at {}", cut);
    }
    let mut longer = bytes.clone();
    longer.push(0);
    assert_eq!(Bundle::deserialize(&longer), None);
    let mut lying = bytes.clone();
    lying[8] = 200; // the pre-key claims more bytes than there are
    assert_eq!(Bundle::deserialize(&lying), None);
    assert_eq!(Bundle::deserialize(&[]), None);
}
