use snapshot_relay::codec::{Receiver, Sender};
use snapshot_relay::error::{Error, ProtocolViolation};
use snapshot_relay::frame::{Frame, FrameRead};
use snapshot_relay::handshake::Role;
use snapshot_relay::registry::{FileBinding, TokenRegistry};
use snapshot_relay::session::{Action, Event, Flow, Session, SessionState};
use snapshot_relay::snapshot::VersionedSnapshot;
use snapshot_relay::watcher::{Notice, PublisherWatcher, WatchEvent, RENAME};
use std::collections::HashMap;

fn frame(payload: &[u8]) -> Frame {
    Frame::seal(payload.to_vec()).unwrap()
}

fn line(payload: &[u8]) -> Event {
    Event::Line(payload.to_vec())
}

fn registry() -> TokenRegistry {
    TokenRegistry::new(vec![FileBinding { token: b"abc".to_vec(), path: b"a.json".to_vec() }])
        .unwrap()
}

fn nobody() -> TokenRegistry {
    TokenRegistry::new(Vec::new()).unwrap()
}

/// Performs what a collecting session asks for on files kept in memory.
fn perform(files: &mut HashMap<Vec<u8>, Vec<u8>>, action: Action) -> Option<Event> {
    match action {
        Action::Proceed => Some(Event::Start),
        Action::Stage { path, frame } => {
            files.insert(path, frame.into_bytes());
            Some(Event::Staged)
        }
        Action::Commit { from, to } => {
            let staged = files.remove(&from).unwrap();
            files.insert(to, staged);
            Some(Event::Committed)
        }
        _ => None,
    }
}

/// Feeds one line to a session and performs all that follows from it, until
/// the session asks for the next line or closes.
fn deliver(
    session: &mut Session,
    registry: &TokenRegistry,
    files: &mut HashMap<Vec<u8>, Vec<u8>>,
    event: Event,
) -> Action {
    let mut action = session.step(registry, event);
    loop {
        match action {
            Action::ReadLine | Action::Close(_) | Action::Continue => return action,
            other => match perform(files, other) {
                Some(event) => action = session.step(registry, event),
                None => panic!("a collecting session asked for something else"),
            },
        }
    }
}

#[test]
fn pushed_content_reaches_the_bound_file() {
    let registry = registry();
    let mut files = HashMap::new();
    let mut session = Session::accept(false, false, 4711);
    assert_eq!(session.state(), SessionState::Connecting);
    assert_eq!(session.step(&registry, Event::Connected), Action::ReadLine);
    assert_eq!(session.state(), SessionState::Handshaking);

    let mut wire = Sender::new(0).unwrap();
    let mut incoming = Receiver::new().unwrap();
    incoming.feed(&wire.send(&frame(b"twc1 abc")).unwrap()).unwrap();
    incoming.feed(&wire.send(&frame(b"{\"x\":1}\n")).unwrap()).unwrap();

    let handshake = match incoming.read_frame(false) {
        Ok(FrameRead::Frame(payload)) => payload,
        other => panic!("{:?}", other),
    };
    assert_eq!(session.step(&registry, Event::Line(handshake)), Action::Proceed);
    assert_eq!(session.state(), SessionState::Authenticated);
    assert_eq!(session.flow(), Some(Flow::Collect));
    assert_eq!(session.path(), &b"a.json".to_vec());
    assert_eq!(session.step(&registry, Event::Start), Action::ReadLine);
    assert_eq!(session.state(), SessionState::Streaming);

    let content = match incoming.read_frame(false) {
        Ok(FrameRead::Frame(payload)) => payload,
        other => panic!("{:?}", other),
    };
    assert_eq!(
        session.step(&registry, Event::Line(content)),
        Action::Stage { path: b"a.json.tmp.4711".to_vec(), frame: frame(b"{\"x\":1}") }
    );
    files.insert(b"a.json.tmp.4711".to_vec(), b"{\"x\":1}\n".to_vec());
    assert_eq!(
        session.step(&registry, Event::Staged),
        Action::Commit { from: b"a.json.tmp.4711".to_vec(), to: b"a.json".to_vec() }
    );
    let staged = files.remove(&b"a.json.tmp.4711".to_vec()).unwrap();
    files.insert(b"a.json".to_vec(), staged);
    assert_eq!(session.step(&registry, Event::Committed), Action::ReadLine);

    assert_eq!(incoming.read_frame(true), Ok(FrameRead::EndOfStream));
    assert_eq!(session.step(&registry, Event::EndOfStream), Action::Close(None));
    assert_eq!(session.state(), SessionState::Closed);
    assert_eq!(session.reason(), None);
    assert_eq!(files.len(), 1);
    assert_eq!(files.get(&b"a.json".to_vec()), Some(&b"{\"x\":1}\n".to_vec()));
}

#[test]
fn changes_of_the_watched_file_arrive_in_order() {
    let registry = nobody();
    let watcher = PublisherWatcher::new(None, b"servers.json".to_vec());
    let mut source = b"{\"x\":1}".to_vec();
    let mut transmitter = Session::transmitter(b"servers.json".to_vec());
    let mut sender = Sender::new(0).unwrap();
    let mut receiver = Receiver::new().unwrap();
    let mut observed: Vec<Vec<u8>> = Vec::new();

    let mut action = transmitter.step(&registry, Event::Connected);
    let mut changes = 0;
    loop {
        let event = match action {
            Action::Send(frame) => {
                receiver.feed(&sender.send(&frame).unwrap()).unwrap();
                while let Ok(FrameRead::Frame(payload)) = receiver.read_frame(false) {
                    observed.push(Frame::seal(payload).unwrap().into_bytes());
                }
                Event::Sent
            }
            Action::Proceed => Event::Start,
            Action::ReadFile => Event::FileRead(source.clone()),
            Action::AwaitChange => {
                if changes == 1 {
                    break;
                }
                let in_place = WatchEvent { file_name: Some(b"servers.json".to_vec()), op: Some(16) };
                assert_eq!(watcher.notice(&in_place), Notice::Unrelated);
                source = b"{\"x\":2}".to_vec();
                let renamed = WatchEvent { file_name: Some(b"servers.json".to_vec()), op: Some(RENAME) };
                assert_eq!(watcher.notice(&renamed), Notice::Completed);
                changes += 1;
                Event::Changed
            }
            other => panic!("{:?}", other),
        };
        action = transmitter.step(&registry, event);
    }
    assert_eq!(
        observed,
        vec![b"twc2\n".to_vec(), b"{\"x\":1}\n".to_vec(), b"{\"x\":2}\n".to_vec()]
    );
}

#[test]
fn unknown_token_closes_the_connection_untouched() {
    let registry = registry();
    let mut files: HashMap<Vec<u8>, Vec<u8>> = HashMap::new();
    files.insert(b"a.json".to_vec(), b"before\n".to_vec());
    let mut session = Session::accept(false, false, 1);
    assert_eq!(session.step(&registry, Event::Connected), Action::ReadLine);
    assert_eq!(
        deliver(&mut session, &registry, &mut files, line(b"twc1 zzz")),
        Action::Close(Some(Error::Auth))
    );
    assert_eq!(session.state(), SessionState::Closed);
    assert_eq!(session.reason(), Some(Error::Auth));
    assert_eq!(session.flow(), None);
    for event in [
        line(b"{\"x\":1}"),
        Event::Start,
        Event::Sent,
        Event::Staged,
        Event::Committed,
        Event::FileRead(b"x".to_vec()),
        Event::Newer(3, frame(b"x")),
        Event::Changed,
        line(b"twc1 abc"),
    ] {
        assert_eq!(session.step(&registry, event), Action::Close(Some(Error::Auth)));
    }
    assert_eq!(files.len(), 1);
    assert_eq!(files.get(&b"a.json".to_vec()), Some(&b"before\n".to_vec()));
}

#[test]
fn interior_newline_never_reaches_the_wire() {
    let registry = nobody();
    let mut session = Session::transmitter(b"servers.json".to_vec());
    assert_eq!(session.step(&registry, Event::Connected), Action::Send(frame(b"twc2")));
    assert_eq!(session.step(&registry, Event::Sent), Action::Proceed);
    assert_eq!(session.step(&registry, Event::Start), Action::ReadFile);
    assert_eq!(
        session.step(&registry, Event::FileRead(b"{\"x\":\n1}\n".to_vec())),
        Action::Close(Some(Error::Protocol(ProtocolViolation::InteriorNewline { at: 5 })))
    );
    assert_eq!(session.state(), SessionState::Closed);
    assert_eq!(
        session.step(&registry, Event::Sent),
        Action::Close(Some(Error::Protocol(ProtocolViolation::InteriorNewline { at: 5 })))
    );
}

#[test]
fn two_subscribers_both_reach_the_latest_version() {
    let registry = registry();
    let mut snapshot = VersionedSnapshot::new();
    snapshot.publish(frame(b"v1"));
    snapshot.publish(frame(b"v2"));

    let mut early = Session::accept(true, false, 1);
    assert_eq!(early.step(&registry, Event::Connected), Action::ReadLine);
    assert_eq!(early.step(&registry, line(b"twc2 abc")), Action::Proceed);
    assert_eq!(early.flow(), Some(Flow::Broadcast));
    assert_eq!(early.step(&registry, Event::Start), Action::AwaitNewer(0));
    let (version, payload) = snapshot.newer_than(0).unwrap();
    assert_eq!(early.step(&registry, Event::Newer(version, payload)), Action::Send(frame(b"v2")));
    assert_eq!(early.step(&registry, Event::Sent), Action::AwaitNewer(2));
    assert_eq!(snapshot.newer_than(2), None);

    snapshot.publish(frame(b"v3"));
    snapshot.publish(frame(b"v4"));
    snapshot.publish(frame(b"v5"));

    let mut late = Session::accept(true, false, 2);
    assert_eq!(late.step(&registry, Event::Connected), Action::ReadLine);
    assert_eq!(late.step(&registry, line(b"twc2 abc")), Action::Proceed);
    assert_eq!(late.step(&registry, Event::Start), Action::AwaitNewer(0));
    let (version, payload) = snapshot.newer_than(0).unwrap();
    assert_eq!(late.step(&registry, Event::Newer(version, payload)), Action::Send(frame(b"v5")));
    assert_eq!(late.step(&registry, Event::Sent), Action::AwaitNewer(5));

    let (version, payload) = snapshot.newer_than(2).unwrap();
    assert_eq!(version, 5);
    assert_eq!(early.step(&registry, Event::Newer(version, payload)), Action::Send(frame(b"v5")));
    assert_eq!(early.step(&registry, Event::Sent), Action::AwaitNewer(5));
}

#[test]
fn stale_snapshot_is_not_sent_again() {
    let registry = registry();
    let mut session = Session::accept(true, false, 1);
    session.step(&registry, Event::Connected);
    session.step(&registry, line(b"twc2 abc"));
    session.step(&registry, Event::Start);
    assert_eq!(session.step(&registry, Event::Newer(4, frame(b"v4"))), Action::Send(frame(b"v4")));
    assert_eq!(session.step(&registry, Event::Sent), Action::AwaitNewer(4));
    assert_eq!(session.step(&registry, Event::Newer(4, frame(b"v4"))), Action::AwaitNewer(4));
    assert_eq!(session.step(&registry, Event::Newer(3, frame(b"v3"))), Action::AwaitNewer(4));
    assert_eq!(session.step(&registry, Event::Newer(0, frame(b"v0"))), Action::AwaitNewer(4));
    assert_eq!(session.step(&registry, Event::Newer(6, frame(b"v6"))), Action::Send(frame(b"v6")));
}

#[test]
fn receiver_without_fanout_gets_a_watcher_of_its_own() {
    let registry = registry();
    let mut session = Session::accept(false, false, 1);
    session.step(&registry, Event::Connected);
    assert_eq!(session.step(&registry, line(b"twc2 abc")), Action::Proceed);
    assert_eq!(session.flow(), Some(Flow::Publish));
    assert_eq!(session.path(), &b"a.json".to_vec());
    assert_eq!(session.step(&registry, Event::Start), Action::ReadFile);
    assert_eq!(
        session.step(&registry, Event::FileRead(b"{\"x\":1}".to_vec())),
        Action::Send(frame(b"{\"x\":1}"))
    );
    assert_eq!(session.step(&registry, Event::Sent), Action::AwaitChange);
    assert_eq!(session.step(&registry, Event::Changed), Action::ReadFile);
}

#[test]
fn first_frame_is_skipped_on_request() {
    let registry = nobody();
    let mut files = HashMap::new();
    let mut session = Session::collector(b"servers.json".to_vec(), true, 9);
    assert_eq!(session.step(&registry, Event::Connected), Action::ReadLine);
    assert_eq!(deliver(&mut session, &registry, &mut files, line(b"twc2")), Action::ReadLine);
    assert_eq!(session.state(), SessionState::Streaming);
    assert_eq!(deliver(&mut session, &registry, &mut files, line(b"old")), Action::ReadLine);
    assert!(files.is_empty());
    assert_eq!(deliver(&mut session, &registry, &mut files, line(b"new")), Action::ReadLine);
    assert_eq!(files.get(&b"servers.json".to_vec()), Some(&b"new\n".to_vec()));
    assert_eq!(deliver(&mut session, &registry, &mut files, line(b"newer")), Action::ReadLine);
    assert_eq!(files.get(&b"servers.json".to_vec()), Some(&b"newer\n".to_vec()));
    assert_eq!(files.len(), 1);
}

#[test]
fn first_frame_is_written_by_default() {
    let registry = nobody();
    let mut files = HashMap::new();
    let mut session = Session::collector(b"servers.json".to_vec(), false, 9);
    session.step(&registry, Event::Connected);
    deliver(&mut session, &registry, &mut files, line(b"twc2"));
    assert_eq!(deliver(&mut session, &registry, &mut files, line(b"old")), Action::ReadLine);
    assert_eq!(files.get(&b"servers.json".to_vec()), Some(&b"old\n".to_vec()));
}

#[test]
fn collector_turns_a_stranger_away() {
    let registry = nobody();
    for first in [&b"hello"[..], b"twc1", b"", b"twc"] {
        let mut session = Session::collector(b"servers.json".to_vec(), false, 9);
        session.step(&registry, Event::Connected);
        assert_eq!(session.step(&registry, line(first)), Action::Close(Some(Error::Auth)));
    }
    let mut session = Session::collector(b"servers.json".to_vec(), false, 9);
    session.step(&registry, Event::Connected);
    assert_eq!(session.step(&registry, Event::EndOfStream), Action::Close(Some(Error::Auth)));
}

#[test]
fn persisting_twice_leaves_exactly_the_frame() {
    let registry = nobody();
    let mut files = HashMap::new();
    let mut session = Session::collector(b"servers.json".to_vec(), false, 9);
    session.step(&registry, Event::Connected);
    deliver(&mut session, &registry, &mut files, line(b"twc2"));
    deliver(&mut session, &registry, &mut files, line(b"{\"x\":1}"));
    let once = files.clone();
    deliver(&mut session, &registry, &mut files, line(b"{\"x\":1}"));
    assert_eq!(files, once);
    assert_eq!(files.get(&b"servers.json".to_vec()), Some(&b"{\"x\":1}\n".to_vec()));
    assert_eq!(files.len(), 1);
}

#[test]
fn failed_staging_is_never_renamed() {
    let registry = nobody();
    let mut session = Session::collector(b"servers.json".to_vec(), false, 9);
    session.step(&registry, Event::Connected);
    session.step(&registry, line(b"twc2"));
    session.step(&registry, Event::Start);
    assert_eq!(
        session.step(&registry, line(b"{\"x\":1}")),
        Action::Stage { path: b"servers.json.tmp.9".to_vec(), frame: frame(b"{\"x\":1}") }
    );
    assert_eq!(session.step(&registry, Event::Failed), Action::Close(Some(Error::Io)));
    assert_eq!(session.step(&registry, Event::Staged), Action::Close(Some(Error::Io)));
    assert_eq!(session.step(&registry, Event::Committed), Action::Close(Some(Error::Io)));
    assert_eq!(session.reason(), Some(Error::Io));
}

#[test]
fn rename_is_asked_for_only_after_staging() {
    let registry = nobody();
    let mut session = Session::collector(b"servers.json".to_vec(), false, 9);
    session.step(&registry, Event::Connected);
    session.step(&registry, line(b"twc2"));
    session.step(&registry, Event::Start);
    assert_eq!(session.step(&registry, Event::Staged), Action::Continue);
    assert_eq!(session.step(&registry, Event::Committed), Action::Continue);
    session.step(&registry, line(b"x"));
    assert_eq!(session.step(&registry, Event::Committed), Action::Continue);
    assert_eq!(session.step(&registry, line(b"y")), Action::Continue);
    assert_eq!(
        session.step(&registry, Event::Staged),
        Action::Commit { from: b"servers.json.tmp.9".to_vec(), to: b"servers.json".to_vec() }
    );
    assert_eq!(session.step(&registry, Event::Staged), Action::Continue);
    assert_eq!(session.step(&registry, Event::Committed), Action::ReadLine);
}

#[test]
fn stream_cut_inside_a_frame_ends_the_session() {
    let registry = registry();
    let mut session = Session::accept(false, false, 1);
    session.step(&registry, Event::Connected);
    session.step(&registry, line(b"twc1 abc"));
    session.step(&registry, Event::Start);
    assert_eq!(
        session.step(&registry, Event::Truncated),
        Action::Close(Some(Error::Protocol(ProtocolViolation::TruncatedFrame)))
    );
    assert_eq!(session.state(), SessionState::Closed);
}

#[test]
fn line_with_a_newline_inside_is_a_violation() {
    let registry = registry();
    let mut session = Session::accept(false, false, 1);
    session.step(&registry, Event::Connected);
    session.step(&registry, line(b"twc1 abc"));
    session.step(&registry, Event::Start);
    assert_eq!(
        session.step(&registry, line(b"a\nb")),
        Action::Close(Some(Error::Protocol(ProtocolViolation::InteriorNewline { at: 1 })))
    );
}

#[test]
fn dial_failure_is_a_connect_error() {
    let registry = nobody();
    let mut session = Session::dial(Role::Push, b"abc".to_vec(), b"a.json".to_vec(), false, 1);
    assert_eq!(session.step(&registry, Event::ConnectFailed), Action::Close(Some(Error::Connect)));
    assert_eq!(session.state(), SessionState::Closed);
    assert_eq!(session.reason(), Some(Error::Connect));
    assert_eq!(session.step(&registry, Event::Connected), Action::Close(Some(Error::Connect)));
}

#[test]
fn dialling_to_push_announces_and_publishes() {
    let registry = nobody();
    let mut session = Session::dial(Role::Push, b"abc".to_vec(), b"a.json".to_vec(), false, 1);
    assert_eq!(session.flow(), Some(Flow::Publish));
    assert_eq!(session.step(&registry, Event::Connected), Action::Send(frame(b"twc1 abc")));
    assert_eq!(session.state(), SessionState::Handshaking);
    assert_eq!(session.step(&registry, Event::Sent), Action::Proceed);
    assert_eq!(session.state(), SessionState::Authenticated);
    assert_eq!(session.step(&registry, Event::Start), Action::ReadFile);
    assert_eq!(session.state(), SessionState::Streaming);
}

#[test]
fn dialling_to_receive_announces_and_collects() {
    let registry = nobody();
    let mut files = HashMap::new();
    let mut session = Session::dial(Role::Receive, b"abc".to_vec(), b"copy.json".to_vec(), false, 3);
    assert_eq!(session.flow(), Some(Flow::Collect));
    assert_eq!(session.step(&registry, Event::Connected), Action::Send(frame(b"twc2 abc")));
    assert_eq!(deliver(&mut session, &registry, &mut files, Event::Sent), Action::ReadLine);
    assert_eq!(deliver(&mut session, &registry, &mut files, line(b"{}")), Action::ReadLine);
    assert_eq!(files.get(&b"copy.json".to_vec()), Some(&b"{}\n".to_vec()));
}

#[test]
fn token_with_a_newline_is_never_announced() {
    let registry = nobody();
    let mut session = Session::dial(Role::Push, b"a\nb".to_vec(), b"a.json".to_vec(), false, 1);
    assert_eq!(
        session.step(&registry, Event::Connected),
        Action::Close(Some(Error::Protocol(ProtocolViolation::InteriorNewline { at: 6 })))
    );
}

#[test]
fn events_that_are_not_waited_for_change_nothing() {
    let registry = registry();
    let mut session = Session::accept(false, false, 1);
    for event in [Event::Start, Event::Sent, line(b"twc1 abc"), Event::EndOfStream, Event::Changed] {
        assert_eq!(session.step(&registry, event), Action::Continue);
        assert_eq!(session.state(), SessionState::Connecting);
    }
    assert_eq!(session.step(&registry, Event::Connected), Action::ReadLine);
    for event in [Event::Start, Event::Sent, Event::Connected, Event::Staged] {
        assert_eq!(session.step(&registry, event), Action::Continue);
        assert_eq!(session.state(), SessionState::Handshaking);
    }
    assert_eq!(session.step(&registry, line(b"twc1 abc")), Action::Proceed);
    for event in [line(b"x"), Event::EndOfStream, Event::Sent, Event::Connected] {
        assert_eq!(session.step(&registry, event), Action::Continue);
        assert_eq!(session.state(), SessionState::Authenticated);
    }
}

#[test]
fn failure_closes_from_every_state() {
    let registry = registry();
    let mut connecting = Session::accept(false, false, 1);
    assert_eq!(connecting.step(&registry, Event::Failed), Action::Close(Some(Error::Io)));
    let mut handshaking = Session::accept(false, false, 1);
    handshaking.step(&registry, Event::Connected);
    assert_eq!(handshaking.step(&registry, Event::Failed), Action::Close(Some(Error::Io)));
    let mut authenticated = Session::accept(false, false, 1);
    authenticated.step(&registry, Event::Connected);
    authenticated.step(&registry, line(b"twc1 abc"));
    assert_eq!(authenticated.step(&registry, Event::Failed), Action::Close(Some(Error::Io)));
    assert_eq!(authenticated.state(), SessionState::Closed);
}
