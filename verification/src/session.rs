//! One connection, from its first byte to its last.
//!
//! A session is a state machine that never performs anything itself. Its
//! worker performs what the session asks for, one action at a time, and
//! reports what came of it as an event; the session answers with the next
//! action. Every rule of the protocol is in [`next`]; the worker only reads,
//! writes, waits and renames.

use crate::auth::authenticate;
use crate::auth::authenticate_spec;
use crate::error::Error;
use crate::error::ProtocolViolation;
use crate::frame::has_interior_newline;
use crate::frame::is_frame;
use crate::frame::lemma_seal;
use crate::frame::seal_spec;
use crate::frame::Frame;
use crate::handshake::handshake_payload;
use crate::handshake::has_magic;
use crate::handshake::parse_spec;
use crate::handshake::starts_with_magic;
use crate::handshake::Handshake;
use crate::handshake::Role;
use crate::registry::knows;
use crate::registry::TokenRegistry;
use crate::snapshot::newer;
use crate::snapshot::SnapshotModel;
use crate::writer::lemma_persist_is_idempotent;
use crate::writer::lemma_temp_path_is_not_destination;
use crate::writer::persisted;
use crate::writer::renamed;
use crate::writer::temp_path;
use crate::writer::temp_path_spec;
use crate::writer::written;
use crate::writer::Files;
use vstd::prelude::*;
use vstd::slice::slice_to_vec;

verus! {

/// How far a session has come.
#[derive(Clone, Copy, Debug, PartialEq, Eq, Structural)]
pub enum SessionState {
    /// The transport is not there yet.
    Connecting,
    /// The transport is there; the handshake is under way.
    Handshaking,
    /// The handshake is done; nothing has been streamed yet.
    Authenticated,
    /// Content frames flow.
    Streaming,
    /// The session is over. Nothing leads out of this state.
    Closed,
}

/// What a session does while it streams.
#[derive(Clone, Copy, Debug, PartialEq, Eq, Structural)]
pub enum Flow {
    /// It watches its file and sends every new content to the peer.
    Publish,
    /// It receives frames from the peer and persists each to its file.
    Collect,
    /// It sends the peer every newer snapshot of its file that the shared
    /// cell shows.
    Broadcast,
}

/// How a session gets through its handshake.
#[derive(Clone, Copy, Debug, PartialEq, Eq, Structural)]
pub enum Entry {
    /// It reads the peer's handshake and looks the token up in the table.
    Registry,
    /// It reads the first line of a local collaborator and asks only for the
    /// magic of the given role.
    Expect(Role),
    /// It sends a handshake of its own, with the given role.
    Announce(Role),
}

/// What a session is waiting to hear of.
#[derive(Clone, Copy, Debug, PartialEq, Eq, Structural)]
pub enum Waiting {
    /// Whether the transport could be established.
    Transport,
    /// The next frame from the peer.
    Line,
    /// The word to start streaming.
    Start,
    /// The content of the watched file.
    File,
    /// The next completed change of the watched file.
    Change,
    /// Whether a frame has gone out.
    Delivery,
    /// Whether a frame has been written to its temporary path.
    Staging,
    /// Whether the temporary path has been renamed to the destination.
    Commit,
    /// A snapshot that may be newer than the last one sent.
    Snapshot,
    /// Nothing any more.
    Nothing,
}

/// The loop that a peer's role asks of the side that accepted it: one who
/// pushes is collected from; one who wants to receive is published to, from
/// the shared cell where there is one.
pub open spec fn flow_for(role: Role, fanout: bool) -> Flow {
    match role {
        Role::Push => Flow::Collect,
        Role::Receive => if fanout {
            Flow::Broadcast
        } else {
            Flow::Publish
        },
    }
}

/// The loop that the side that dials runs for the role it announces.
pub open spec fn flow_of(role: Role) -> Flow {
    match role {
        Role::Push => Flow::Publish,
        Role::Receive => Flow::Collect,
    }
}

/// A session as a value.
pub struct SessionModel {
    pub state: SessionState,
    pub waiting: Waiting,
    pub entry: Entry,
    /// The token to announce; empty unless the session announces itself.
    pub token: Seq<u8>,
    /// Peers that want to receive are served from the shared cell.
    pub fanout: bool,
    /// The first frame collected is dropped, not persisted.
    pub skip_initial: bool,
    /// The number that tells this writer's temporary paths from others'.
    pub suffix: nat,
    pub flow: Option<Flow>,
    /// The file that the session is bound to.
    pub path: Seq<u8>,
    /// No frame has been collected yet.
    pub first: bool,
    /// The version of the last snapshot sent.
    pub last_seen: nat,
    /// Why the session was closed, where it was closed for a failure.
    pub reason: Option<Error>,
}

/// What a worker reports.
pub enum EventModel {
    Connected,
    ConnectFailed,
    Line(Seq<u8>),
    EndOfStream,
    Truncated,
    Start,
    FileRead(Seq<u8>),
    Changed,
    Sent,
    Staged,
    Committed,
    Newer(nat, Seq<u8>),
    Failed,
}

/// What a session asks of its worker.
pub enum ActionModel {
    ReadLine,
    Proceed,
    ReadFile,
    AwaitChange,
    AwaitNewer(nat),
    Send(Seq<u8>),
    Stage { path: Seq<u8>, frame: Seq<u8> },
    Commit { from: Seq<u8>, to: Seq<u8> },
    Close(Option<Error>),
    Continue,
}

/// The session closes, for `reason`.
pub open spec fn closing(s: SessionModel, reason: Option<Error>) -> (SessionModel, ActionModel) {
    (
        SessionModel { state: SessionState::Closed, waiting: Waiting::Nothing, reason, ..s },
        ActionModel::Close(reason),
    )
}

/// The session goes on waiting for `waiting` and asks for `action`.
pub open spec fn asking(s: SessionModel, waiting: Waiting, action: ActionModel) -> (
    SessionModel,
    ActionModel,
) {
    (SessionModel { waiting, ..s }, action)
}

/// The handshake is done.
pub open spec fn entering(s: SessionModel, flow: Flow, path: Seq<u8>) -> (
    SessionModel,
    ActionModel,
) {
    (
        SessionModel {
            state: SessionState::Authenticated,
            waiting: Waiting::Start,
            flow: Some(flow),
            path,
            ..s
        },
        ActionModel::Proceed,
    )
}

/// The transport is there: one who announces itself sends its handshake, any
/// other reads the peer's.
pub open spec fn on_connected(s: SessionModel) -> (SessionModel, ActionModel) {
    let shaking = SessionModel { state: SessionState::Handshaking, ..s };
    match s.entry {
        Entry::Announce(role) => match seal_spec(handshake_payload(role, s.token)) {
            Ok(frame) => asking(shaking, Waiting::Delivery, ActionModel::Send(frame)),
            Err(violation) => closing(s, Some(Error::Protocol(violation))),
        },
        _ => asking(shaking, Waiting::Line, ActionModel::ReadLine),
    }
}

/// The peer's handshake has arrived.
pub open spec fn on_handshake(
    s: SessionModel,
    bindings: Seq<(Seq<u8>, Seq<u8>)>,
    line: Seq<u8>,
) -> (SessionModel, ActionModel) {
    match s.entry {
        Entry::Registry => match authenticate_spec(bindings, line) {
            Some((role, path)) => entering(s, flow_for(role, s.fanout), path),
            None => closing(s, Some(Error::Auth)),
        },
        Entry::Expect(role) => match s.flow {
            Some(flow) => if starts_with_magic(line, role) {
                entering(s, flow, s.path)
            } else {
                closing(s, Some(Error::Auth))
            },
            None => closing(s, Some(Error::Auth)),
        },
        Entry::Announce(_) => (s, ActionModel::Continue),
    }
}

/// A content frame has arrived, without its terminator. The first one is
/// dropped where the session was told to skip it; every other is staged at the
/// temporary path of the session's file.
pub open spec fn on_content(s: SessionModel, line: Seq<u8>) -> (SessionModel, ActionModel) {
    match seal_spec(line) {
        Err(violation) => closing(s, Some(Error::Protocol(violation))),
        Ok(frame) => if s.first && s.skip_initial {
            asking(SessionModel { first: false, ..s }, Waiting::Line, ActionModel::ReadLine)
        } else {
            asking(
                SessionModel { first: false, ..s },
                Waiting::Staging,
                ActionModel::Stage { path: temp_path_spec(s.path, s.suffix), frame },
            )
        },
    }
}

/// The word to start streaming has come: the flow decides what is done first.
pub open spec fn on_start(s: SessionModel) -> (SessionModel, ActionModel) {
    let streaming = SessionModel { state: SessionState::Streaming, ..s };
    match s.flow {
        Some(Flow::Publish) => asking(streaming, Waiting::File, ActionModel::ReadFile),
        Some(Flow::Collect) => asking(streaming, Waiting::Line, ActionModel::ReadLine),
        Some(Flow::Broadcast) => asking(
            streaming,
            Waiting::Snapshot,
            ActionModel::AwaitNewer(s.last_seen),
        ),
        None => (s, ActionModel::Continue),
    }
}

/// The watched file has been read: its content goes out as a frame, unless it
/// holds a newline before its last byte.
pub open spec fn on_file(s: SessionModel, contents: Seq<u8>) -> (SessionModel, ActionModel) {
    match seal_spec(contents) {
        Ok(frame) => asking(s, Waiting::Delivery, ActionModel::Send(frame)),
        Err(violation) => closing(s, Some(Error::Protocol(violation))),
    }
}

/// A frame has gone out.
pub open spec fn on_sent(s: SessionModel) -> (SessionModel, ActionModel) {
    match (s.state, s.entry, s.flow) {
        (SessionState::Handshaking, Entry::Announce(_), Some(flow)) => entering(s, flow, s.path),
        (SessionState::Streaming, _, Some(Flow::Publish)) => asking(
            s,
            Waiting::Change,
            ActionModel::AwaitChange,
        ),
        (SessionState::Streaming, _, Some(Flow::Broadcast)) => asking(
            s,
            Waiting::Snapshot,
            ActionModel::AwaitNewer(s.last_seen),
        ),
        _ => (s, ActionModel::Continue),
    }
}

/// The shared cell has been looked at: a snapshot that is news goes out, and
/// its version is remembered; for any other the session goes on waiting.
pub open spec fn on_newer(s: SessionModel, version: nat, frame: Seq<u8>) -> (
    SessionModel,
    ActionModel,
) {
    if newer(SnapshotModel { version, payload: frame }, s.last_seen) {
        asking(
            SessionModel { last_seen: version, ..s },
            Waiting::Delivery,
            ActionModel::Send(frame),
        )
    } else {
        asking(s, Waiting::Snapshot, ActionModel::AwaitNewer(s.last_seen))
    }
}

/// What a session makes of an event: the session after it, and what it asks
/// of its worker next. A closed session stays as it is. A failure closes any
/// other, and so does the end of the peer's stream once content flows. Every
/// other event counts only where the session is waiting for it; where it is
/// not, nothing changes.
pub open spec fn next(s: SessionModel, bindings: Seq<(Seq<u8>, Seq<u8>)>, event: EventModel) -> (
    SessionModel,
    ActionModel,
) {
    let streaming = s.state == SessionState::Streaming;
    if s.state == SessionState::Closed {
        (s, ActionModel::Close(s.reason))
    } else {
        match (event, s.waiting) {
            (EventModel::Failed, _) => closing(s, Some(Error::Io)),
            (EventModel::Connected, Waiting::Transport) => if s.state == SessionState::Connecting {
                on_connected(s)
            } else {
                (s, ActionModel::Continue)
            },
            (EventModel::ConnectFailed, Waiting::Transport) => if s.state
                == SessionState::Connecting {
                closing(s, Some(Error::Connect))
            } else {
                (s, ActionModel::Continue)
            },
            (EventModel::Line(line), Waiting::Line) => if s.state == SessionState::Handshaking {
                on_handshake(s, bindings, line)
            } else if streaming && s.flow == Some(Flow::Collect) {
                on_content(s, line)
            } else {
                (s, ActionModel::Continue)
            },
            (EventModel::EndOfStream, waiting) => if streaming {
                closing(s, None)
            } else if waiting == Waiting::Line {
                closing(s, Some(Error::Auth))
            } else {
                (s, ActionModel::Continue)
            },
            (EventModel::Truncated, Waiting::Line) => closing(
                s,
                Some(Error::Protocol(ProtocolViolation::TruncatedFrame)),
            ),
            (EventModel::Start, Waiting::Start) => if s.state == SessionState::Authenticated {
                on_start(s)
            } else {
                (s, ActionModel::Continue)
            },
            (EventModel::FileRead(contents), Waiting::File) => if streaming && s.flow == Some(
                Flow::Publish,
            ) {
                on_file(s, contents)
            } else {
                (s, ActionModel::Continue)
            },
            (EventModel::Changed, Waiting::Change) => if streaming && s.flow == Some(
                Flow::Publish,
            ) {
                asking(s, Waiting::File, ActionModel::ReadFile)
            } else {
                (s, ActionModel::Continue)
            },
            (EventModel::Sent, Waiting::Delivery) => on_sent(s),
            (EventModel::Staged, Waiting::Staging) => if streaming && s.flow == Some(
                Flow::Collect,
            ) {
                asking(
                    s,
                    Waiting::Commit,
                    ActionModel::Commit { from: temp_path_spec(s.path, s.suffix), to: s.path },
                )
            } else {
                (s, ActionModel::Continue)
            },
            (EventModel::Committed, Waiting::Commit) => if streaming && s.flow == Some(
                Flow::Collect,
            ) {
                asking(s, Waiting::Line, ActionModel::ReadLine)
            } else {
                (s, ActionModel::Continue)
            },
            (EventModel::Newer(version, frame), Waiting::Snapshot) => if streaming && s.flow
                == Some(Flow::Broadcast) {
                on_newer(s, version, frame)
            } else {
                (s, ActionModel::Continue)
            },
            _ => (s, ActionModel::Continue),
        }
    }
}

/// A session that has not begun.
pub open spec fn fresh(
    entry: Entry,
    token: Seq<u8>,
    flow: Option<Flow>,
    path: Seq<u8>,
    fanout: bool,
    skip_initial: bool,
    suffix: nat,
) -> SessionModel {
    SessionModel {
        state: SessionState::Connecting,
        waiting: Waiting::Transport,
        entry,
        token,
        fanout,
        skip_initial,
        suffix,
        flow,
        path,
        first: true,
        last_seen: 0,
        reason: None,
    }
}

/// The session after a run of events.
pub open spec fn after_events(
    s: SessionModel,
    bindings: Seq<(Seq<u8>, Seq<u8>)>,
    events: Seq<EventModel>,
) -> SessionModel
    decreases events.len(),
{
    if events.len() == 0 {
        s
    } else {
        next(after_events(s, bindings, events.drop_last()), bindings, events.last()).0
    }
}

/// What the session asks for in answer to the last of a run of events.
pub open spec fn last_action(
    s: SessionModel,
    bindings: Seq<(Seq<u8>, Seq<u8>)>,
    events: Seq<EventModel>,
) -> ActionModel
    recommends
        events.len() > 0,
{
    next(after_events(s, bindings, events.drop_last()), bindings, events.last()).1
}

/// The place of a state on the way from connecting to closed.
pub open spec fn rank(state: SessionState) -> nat {
    match state {
        SessionState::Connecting => 0,
        SessionState::Handshaking => 1,
        SessionState::Authenticated => 2,
        SessionState::Streaming => 3,
        SessionState::Closed => 4,
    }
}

/// The action asks for nothing but to read from the peer, to close, or to go
/// on: nothing is sent, no file is read, written or renamed, and nothing is
/// waited for.
pub open spec fn is_idle(action: ActionModel) -> bool {
    action is ReadLine || action is Close || action is Continue
}

/// A session moves only forward: an event leaves it in its state, takes it to
/// the next one, or closes it.
pub proof fn lemma_states_advance(
    s: SessionModel,
    bindings: Seq<(Seq<u8>, Seq<u8>)>,
    event: EventModel,
)
    ensures
        ({
            let after = next(s, bindings, event).0.state;
            ||| after == s.state
            ||| after == SessionState::Closed
            ||| rank(after) == rank(s.state) + 1
        }),
{
}

/// Closed is final: whatever is reported to a closed session, it stays as it
/// is and asks for nothing but closing.
pub proof fn lemma_closed_stays_closed(
    s: SessionModel,
    bindings: Seq<(Seq<u8>, Seq<u8>)>,
    events: Seq<EventModel>,
)
    requires
        s.state == SessionState::Closed,
    ensures
        after_events(s, bindings, events) == s,
        events.len() > 0 ==> last_action(s, bindings, events) == ActionModel::Close(s.reason),
    decreases events.len(),
{
    if events.len() > 0 {
        lemma_closed_stays_closed(s, bindings, events.drop_last());
    }
}

/// A failure ends a session for good: it is closed, and whatever is reported
/// after that, it asks for nothing but closing. So a frame whose staging
/// failed is never renamed into place.
pub proof fn lemma_failure_is_final(
    s: SessionModel,
    bindings: Seq<(Seq<u8>, Seq<u8>)>,
    events: Seq<EventModel>,
)
    requires
        events.len() > 0,
    ensures
        next(s, bindings, EventModel::Failed).0.state == SessionState::Closed,
        last_action(next(s, bindings, EventModel::Failed).0, bindings, events) is Close,
{
    lemma_closed_stays_closed(next(s, bindings, EventModel::Failed).0, bindings, events);
}

/// No line of `events` is a handshake with a token that the table knows.
pub open spec fn nobody_known(bindings: Seq<(Seq<u8>, Seq<u8>)>, events: Seq<EventModel>) -> bool {
    forall|i: int|
        0 <= i < events.len() ==> (#[trigger] events[i] matches EventModel::Line(line)
            ==> authenticate_spec(bindings, line) is None)
}

proof fn lemma_stranger_stays_out(
    s: SessionModel,
    bindings: Seq<(Seq<u8>, Seq<u8>)>,
    events: Seq<EventModel>,
)
    requires
        s == fresh(s.entry, s.token, s.flow, s.path, s.fanout, s.skip_initial, s.suffix),
        s.entry == Entry::Registry,
        nobody_known(bindings, events),
    ensures
        rank(after_events(s, bindings, events).state) <= 1 || after_events(
            s,
            bindings,
            events,
        ).state == SessionState::Closed,
        after_events(s, bindings, events).entry == Entry::Registry,
        events.len() > 0 ==> is_idle(last_action(s, bindings, events)),
    decreases events.len(),
{
    if events.len() > 0 {
        let before = events.drop_last();
        assert(nobody_known(bindings, before)) by {
            assert forall|i: int| 0 <= i < before.len() implies before[i] == events[i] by {}
        }
        lemma_stranger_stays_out(s, bindings, before);
    }
}

/// One who shows no token of the table gets nothing. Take a session that was
/// accepted, and any run of events in which no line from the peer is a
/// handshake with a token that the table knows. Then at no point of the run is
/// the session authenticated, and at no point does it ask for anything but to
/// read from the peer, to go on, or to close: no frame is sent and no file is
/// read, written or renamed.
pub proof fn lemma_unknown_token_gets_nothing(
    fanout: bool,
    skip_initial: bool,
    suffix: nat,
    bindings: Seq<(Seq<u8>, Seq<u8>)>,
    events: Seq<EventModel>,
)
    requires
        nobody_known(bindings, events),
    ensures
        ({
            let s = fresh(
                Entry::Registry,
                Seq::empty(),
                None,
                Seq::empty(),
                fanout,
                skip_initial,
                suffix,
            );
            forall|upto: int|
                0 < upto <= events.len() ==> {
                    &&& is_idle(#[trigger] last_action(s, bindings, events.take(upto)))
                    &&& after_events(s, bindings, events.take(upto)).state
                        != SessionState::Authenticated
                    &&& after_events(s, bindings, events.take(upto)).state
                        != SessionState::Streaming
                }
        }),
{
    let s = fresh(Entry::Registry, Seq::empty(), None, Seq::empty(), fanout, skip_initial, suffix);
    assert forall|upto: int| 0 < upto <= events.len() implies {
        &&& is_idle(#[trigger] last_action(s, bindings, events.take(upto)))
        &&& after_events(s, bindings, events.take(upto)).state != SessionState::Authenticated
        &&& after_events(s, bindings, events.take(upto)).state != SessionState::Streaming
    } by {
        let run = events.take(upto);
        assert(nobody_known(bindings, run)) by {
            assert forall|i: int| 0 <= i < run.len() implies run[i] == events[i] by {}
        }
        lemma_stranger_stays_out(s, bindings, run);
    }
}

/// A line that is no handshake, or that shows a token which no binding
/// carries, lets nobody in.
pub proof fn lemma_absent_token_is_refused(bindings: Seq<(Seq<u8>, Seq<u8>)>, line: Seq<u8>)
    requires
        parse_spec(line) matches Some((_, token)) ==> !knows(bindings, token),
    ensures
        authenticate_spec(bindings, line) is None,
{
}

/// Nothing but frames leaves a session: whatever it asks to send or to stage
/// ends in a newline and holds no other, as long as what the shared cell is
/// reported to hold is a frame.
pub proof fn lemma_only_frames_leave(
    s: SessionModel,
    bindings: Seq<(Seq<u8>, Seq<u8>)>,
    event: EventModel,
)
    requires
        event matches EventModel::Newer(_, frame) ==> is_frame(frame),
    ensures
        next(s, bindings, event).1 matches ActionModel::Send(frame) ==> is_frame(frame),
        next(s, bindings, event).1 matches ActionModel::Stage { frame, .. } ==> is_frame(frame),
{
    match event {
        EventModel::Line(line) => lemma_seal(line),
        EventModel::FileRead(contents) => lemma_seal(contents),
        EventModel::Connected => match s.entry {
            Entry::Announce(role) => lemma_seal(handshake_payload(role, s.token)),
            _ => {},
        },
        _ => {},
    }
}

/// Content with a newline before its last byte never leaves: a session that
/// reads it from its file closes for the violation and sends nothing.
pub proof fn lemma_interior_newline_stays_home(
    s: SessionModel,
    bindings: Seq<(Seq<u8>, Seq<u8>)>,
    contents: Seq<u8>,
)
    requires
        has_interior_newline(contents),
    ensures
        !(next(s, bindings, EventModel::FileRead(contents)).1 is Send),
        s.state == SessionState::Streaming && s.flow == Some(Flow::Publish) && s.waiting
            == Waiting::File ==> {
            &&& next(s, bindings, EventModel::FileRead(contents)).0.state == SessionState::Closed
            &&& next(s, bindings, EventModel::FileRead(contents)).1 matches ActionModel::Close(
                Some(Error::Protocol(ProtocolViolation::InteriorNewline { .. })),
            )
        },
{
    lemma_seal(contents);
}

/// A file is replaced only by what was staged for it. A session asks for a
/// rename only in answer to the report that staging is done, and then from
/// the temporary path of its file to the file; and it stages only at that
/// temporary path, which is never the file itself.
pub proof fn lemma_rename_follows_staging(
    s: SessionModel,
    bindings: Seq<(Seq<u8>, Seq<u8>)>,
    event: EventModel,
)
    ensures
        next(s, bindings, event).1 matches ActionModel::Commit { from, to } ==> {
            &&& event is Staged
            &&& s.waiting == Waiting::Staging
            &&& from == temp_path_spec(s.path, s.suffix)
            &&& to == s.path
            &&& from != to
        },
        next(s, bindings, event).1 matches ActionModel::Stage { path, .. } ==> {
            &&& event is Line
            &&& path == temp_path_spec(s.path, s.suffix)
            &&& path != s.path
            &&& next(s, bindings, event).0.waiting == Waiting::Staging
        },
        next(s, bindings, event).0.waiting == Waiting::Staging && s.waiting != Waiting::Staging
            ==> next(s, bindings, event).1 is Stage,
{
    lemma_temp_path_is_not_destination(s.path, s.suffix);
}

/// The files after the worker has performed `action`: staging writes the
/// frame to its path, committing renames, and nothing else touches a file.
pub open spec fn performed(files: Files, action: ActionModel) -> Files {
    match action {
        ActionModel::Stage { path, frame } => written(files, path, frame),
        ActionModel::Commit { from, to } => renamed(files, from, to),
        _ => files,
    }
}

/// A frame that is collected is persisted. Where a streaming session that
/// collects is waiting for a line and does not skip it, the line is answered
/// by staging and the report of that by committing; once the worker has
/// performed both, the files are those after persisting the sealed line, the
/// session's file holds exactly that frame, and the session asks for the next
/// line.
pub proof fn lemma_collected_frame_is_persisted(
    s: SessionModel,
    bindings: Seq<(Seq<u8>, Seq<u8>)>,
    line: Seq<u8>,
    files: Files,
)
    requires
        s.state == SessionState::Streaming,
        s.flow == Some(Flow::Collect),
        s.waiting == Waiting::Line,
        !(s.first && s.skip_initial),
        seal_spec(line) is Ok,
    ensures
        ({
            let frame = seal_spec(line)->Ok_0;
            let (staging, stage) = next(s, bindings, EventModel::Line(line));
            let (committing, commit) = next(staging, bindings, EventModel::Staged);
            let after = performed(performed(files, stage), commit);
            &&& stage is Stage
            &&& commit is Commit
            &&& after == persisted(files, s.path, s.suffix, frame)
            &&& after.contains_key(s.path)
            &&& after[s.path] == frame
            &&& next(committing, bindings, EventModel::Committed).1 == ActionModel::ReadLine
        }),
{
    lemma_persist_is_idempotent(files, s.path, s.suffix, seal_spec(line)->Ok_0);
}

/// The versions that a session sends on rise: the version it remembers never
/// falls, and it changes only when a snapshot above it is reported, which is
/// then sent.
pub proof fn lemma_versions_sent_rise(
    s: SessionModel,
    bindings: Seq<(Seq<u8>, Seq<u8>)>,
    event: EventModel,
)
    ensures
        next(s, bindings, event).0.last_seen >= s.last_seen,
        next(s, bindings, event).0.last_seen != s.last_seen ==> {
            &&& event matches EventModel::Newer(version, frame)
            &&& version > s.last_seen
            &&& next(s, bindings, event).0.last_seen == version
            &&& next(s, bindings, event).1 == ActionModel::Send(frame)
        },
        event matches EventModel::Newer(version, _) && version <= s.last_seen ==> !(next(
            s,
            bindings,
            event,
        ).1 is Send),
{
}

/// What a worker reports.
#[derive(Debug, PartialEq, Eq)]
pub enum Event {
    /// The transport is established.
    Connected,
    /// The transport could not be established.
    ConnectFailed,
    /// A frame has arrived from the peer; it is given without its terminator.
    Line(Vec<u8>),
    /// The peer has ended the stream at a frame boundary.
    EndOfStream,
    /// The stream has ended inside a frame.
    Truncated,
    /// Streaming may begin.
    Start,
    /// The watched file has been read; this is its content.
    FileRead(Vec<u8>),
    /// The watched file has been replaced.
    Changed,
    /// The frame has gone out.
    Sent,
    /// The frame has been written to its temporary path.
    Staged,
    /// The temporary path has been renamed to the destination.
    Committed,
    /// The shared cell holds this version and content.
    Newer(u64, Frame),
    /// What was asked for could not be done.
    Failed,
}

impl View for Event {
    type V = EventModel;

    open spec fn view(&self) -> EventModel {
        match *self {
            Event::Connected => EventModel::Connected,
            Event::ConnectFailed => EventModel::ConnectFailed,
            Event::Line(line) => EventModel::Line(line@),
            Event::EndOfStream => EventModel::EndOfStream,
            Event::Truncated => EventModel::Truncated,
            Event::Start => EventModel::Start,
            Event::FileRead(contents) => EventModel::FileRead(contents@),
            Event::Changed => EventModel::Changed,
            Event::Sent => EventModel::Sent,
            Event::Staged => EventModel::Staged,
            Event::Committed => EventModel::Committed,
            Event::Newer(version, frame) => EventModel::Newer(version as nat, frame@),
            Event::Failed => EventModel::Failed,
        }
    }
}

/// What a session asks of its worker.
#[derive(Debug, PartialEq, Eq)]
pub enum Action {
    /// Read the next frame from the peer and report it, or how the stream
    /// ended.
    ReadLine,
    /// Nothing is to be performed: report that streaming may begin.
    Proceed,
    /// Read the watched file whole and report its content.
    ReadFile,
    /// Wait until the watched file has been replaced, then report it.
    AwaitChange,
    /// Wait until the shared cell holds a version above this one, then report
    /// what it holds.
    AwaitNewer(u64),
    /// Send this frame to the peer.
    Send(Frame),
    /// Write this frame to this path.
    Stage { path: Vec<u8>, frame: Frame },
    /// Rename the first path to the second.
    Commit { from: Vec<u8>, to: Vec<u8> },
    /// Tear the connection down; the session is over, for this reason where
    /// it failed.
    Close(Option<Error>),
    /// Go on with what was being done: the event was not waited for.
    Continue,
}

impl View for Action {
    type V = ActionModel;

    open spec fn view(&self) -> ActionModel {
        match *self {
            Action::ReadLine => ActionModel::ReadLine,
            Action::Proceed => ActionModel::Proceed,
            Action::ReadFile => ActionModel::ReadFile,
            Action::AwaitChange => ActionModel::AwaitChange,
            Action::AwaitNewer(version) => ActionModel::AwaitNewer(version as nat),
            Action::Send(frame) => ActionModel::Send(frame@),
            Action::Stage { path, frame } => ActionModel::Stage { path: path@, frame: frame@ },
            Action::Commit { from, to } => ActionModel::Commit { from: from@, to: to@ },
            Action::Close(reason) => ActionModel::Close(reason),
            Action::Continue => ActionModel::Continue,
        }
    }
}

/// One connection.
#[derive(Debug)]
pub struct Session {
    state: SessionState,
    waiting: Waiting,
    entry: Entry,
    token: Vec<u8>,
    fanout: bool,
    skip_initial: bool,
    suffix: u32,
    flow: Option<Flow>,
    path: Vec<u8>,
    first: bool,
    last_seen: u64,
    reason: Option<Error>,
}

impl View for Session {
    type V = SessionModel;

    closed spec fn view(&self) -> SessionModel {
        SessionModel {
            state: self.state,
            waiting: self.waiting,
            entry: self.entry,
            token: self.token@,
            fanout: self.fanout,
            skip_initial: self.skip_initial,
            suffix: self.suffix as nat,
            flow: self.flow,
            path: self.path@,
            first: self.first,
            last_seen: self.last_seen as nat,
            reason: self.reason,
        }
    }
}

impl Session {
    fn begin(
        entry: Entry,
        token: Vec<u8>,
        flow: Option<Flow>,
        path: Vec<u8>,
        fanout: bool,
        skip_initial: bool,
        suffix: u32,
    ) -> (r: Session)
        ensures
            r@ == fresh(entry, token@, flow, path@, fanout, skip_initial, suffix as nat),
    {
        Session {
            state: SessionState::Connecting,
            waiting: Waiting::Transport,
            entry,
            token,
            fanout,
            skip_initial,
            suffix,
            flow,
            path,
            first: true,
            last_seen: 0,
            reason: None,
        }
    }

    /// The session of a connection that was accepted. The peer's handshake
    /// decides its file and its flow; with `fanout`, peers that want to
    /// receive are served from the shared cell.
    pub fn accept(fanout: bool, skip_initial: bool, suffix: u32) -> (r: Session)
        ensures
            r@ == fresh(
                Entry::Registry,
                Seq::empty(),
                None,
                Seq::empty(),
                fanout,
                skip_initial,
                suffix as nat,
            ),
    {
        Session::begin(Entry::Registry, Vec::new(), None, Vec::new(), fanout, skip_initial, suffix)
    }

    /// The session of a connection that is dialled, for the file at `path`:
    /// it announces `role` with `token`, and then publishes the file where it
    /// announced to push, and collects it where it announced to receive.
    pub fn dial(role: Role, token: Vec<u8>, path: Vec<u8>, skip_initial: bool, suffix: u32) -> (r:
        Session)
        ensures
            r@ == fresh(
                Entry::Announce(role),
                token@,
                Some(flow_of(role)),
                path@,
                false,
                skip_initial,
                suffix as nat,
            ),
    {
        let flow = match role {
            Role::Push => Flow::Publish,
            Role::Receive => Flow::Collect,
        };
        Session::begin(Entry::Announce(role), token, Some(flow), path, false, skip_initial, suffix)
    }

    /// The session that collects the file at `path` from the output of a
    /// local transmitter. Of the first line it asks only that it start with
    /// the magic `twc2`.
    pub fn collector(path: Vec<u8>, skip_initial: bool, suffix: u32) -> (r: Session)
        ensures
            r@ == fresh(
                Entry::Expect(Role::Receive),
                Seq::empty(),
                Some(Flow::Collect),
                path@,
                false,
                skip_initial,
                suffix as nat,
            ),
    {
        Session::begin(
            Entry::Expect(Role::Receive),
            Vec::new(),
            Some(Flow::Collect),
            path,
            false,
            skip_initial,
            suffix,
        )
    }

    /// The session that transmits the file at `path` to a local collector:
    /// it announces `twc2` without a token and then publishes the file.
    pub fn transmitter(path: Vec<u8>) -> (r: Session)
        ensures
            r@ == fresh(
                Entry::Announce(Role::Receive),
                Seq::empty(),
                Some(Flow::Publish),
                path@,
                false,
                false,
                0,
            ),
    {
        Session::begin(
            Entry::Announce(Role::Receive),
            Vec::new(),
            Some(Flow::Publish),
            path,
            false,
            false,
            0,
        )
    }

    /// How far the session has come.
    pub fn state(&self) -> (r: SessionState)
        ensures
            r == self@.state,
    {
        self.state
    }

    /// What the session does, or will do, while it streams; `None` as long as
    /// the peer's handshake has to tell.
    pub fn flow(&self) -> (r: Option<Flow>)
        ensures
            r == self@.flow,
    {
        self.flow
    }

    /// The file that the session is bound to.
    pub fn path(&self) -> (r: &Vec<u8>)
        ensures
            r@ == self@.path,
    {
        &self.path
    }

    /// Why the session was closed, where it was closed for a failure.
    pub fn reason(&self) -> (r: Option<Error>)
        ensures
            r == self@.reason,
    {
        self.reason
    }

    fn close(&mut self, reason: Option<Error>) -> (action: Action)
        ensures
            (final(self)@, action@) == closing(old(self)@, reason),
    {
        self.state = SessionState::Closed;
        self.waiting = Waiting::Nothing;
        self.reason = reason;
        Action::Close(reason)
    }

    fn ask(&mut self, waiting: Waiting, action: Action) -> (r: Action)
        ensures
            (final(self)@, r@) == asking(old(self)@, waiting, action@),
    {
        self.waiting = waiting;
        action
    }

    fn enter(&mut self, flow: Flow, path: Vec<u8>) -> (action: Action)
        ensures
            (final(self)@, action@) == entering(old(self)@, flow, path@),
    {
        self.state = SessionState::Authenticated;
        self.waiting = Waiting::Start;
        self.flow = Some(flow);
        self.path = path;
        Action::Proceed
    }

    fn flows(&self, flow: Flow) -> (r: bool)
        ensures
            r == (self@.state == SessionState::Streaming && self@.flow == Some(flow)),
    {
        match self.flow {
            Some(own) => self.state == SessionState::Streaming && own == flow,
            None => false,
        }
    }

    fn connected(&mut self) -> (action: Action)
        ensures
            (final(self)@, action@) == on_connected(old(self)@),
    {
        match self.entry {
            Entry::Announce(role) => {
                let handshake = Handshake { role, token: slice_to_vec(self.token.as_slice()) };
                match handshake.encode() {
                    Ok(frame) => {
                        self.state = SessionState::Handshaking;
                        self.ask(Waiting::Delivery, Action::Send(frame))
                    },
                    Err(violation) => self.close(Some(Error::Protocol(violation))),
                }
            },
            _ => {
                self.state = SessionState::Handshaking;
                self.ask(Waiting::Line, Action::ReadLine)
            },
        }
    }

    fn handshake(&mut self, registry: &TokenRegistry, line: Vec<u8>) -> (action: Action)
        ensures
            (final(self)@, action@) == on_handshake(old(self)@, registry@, line@),
    {
        match self.entry {
            Entry::Registry => match authenticate(registry, line.as_slice()) {
                Ok(grant) => {
                    let flow = match grant.role {
                        Role::Push => Flow::Collect,
                        Role::Receive => if self.fanout {
                            Flow::Broadcast
                        } else {
                            Flow::Publish
                        },
                    };
                    self.enter(flow, grant.path)
                },
                Err(_) => self.close(Some(Error::Auth)),
            },
            Entry::Expect(role) => match self.flow {
                Some(flow) => if has_magic(line.as_slice(), role) {
                    let path = slice_to_vec(self.path.as_slice());
                    self.enter(flow, path)
                } else {
                    self.close(Some(Error::Auth))
                },
                None => self.close(Some(Error::Auth)),
            },
            Entry::Announce(_) => Action::Continue,
        }
    }

    fn content(&mut self, line: Vec<u8>) -> (action: Action)
        ensures
            (final(self)@, action@) == on_content(old(self)@, line@),
    {
        match Frame::seal(line) {
            Err(violation) => self.close(Some(Error::Protocol(violation))),
            Ok(frame) => if self.first && self.skip_initial {
                self.first = false;
                self.ask(Waiting::Line, Action::ReadLine)
            } else {
                self.first = false;
                let path = temp_path(self.path.as_slice(), self.suffix);
                self.ask(Waiting::Staging, Action::Stage { path, frame })
            },
        }
    }

    fn start(&mut self) -> (action: Action)
        ensures
            (final(self)@, action@) == on_start(old(self)@),
    {
        match self.flow {
            Some(Flow::Publish) => {
                self.state = SessionState::Streaming;
                self.ask(Waiting::File, Action::ReadFile)
            },
            Some(Flow::Collect) => {
                self.state = SessionState::Streaming;
                self.ask(Waiting::Line, Action::ReadLine)
            },
            Some(Flow::Broadcast) => {
                self.state = SessionState::Streaming;
                let last_seen = self.last_seen;
                self.ask(Waiting::Snapshot, Action::AwaitNewer(last_seen))
            },
            None => Action::Continue,
        }
    }

    fn file(&mut self, contents: Vec<u8>) -> (action: Action)
        ensures
            (final(self)@, action@) == on_file(old(self)@, contents@),
    {
        match Frame::seal(contents) {
            Ok(frame) => self.ask(Waiting::Delivery, Action::Send(frame)),
            Err(violation) => self.close(Some(Error::Protocol(violation))),
        }
    }

    fn sent(&mut self) -> (action: Action)
        ensures
            (final(self)@, action@) == on_sent(old(self)@),
    {
        match (self.state, self.entry, self.flow) {
            (SessionState::Handshaking, Entry::Announce(_), Some(flow)) => {
                let path = slice_to_vec(self.path.as_slice());
                self.enter(flow, path)
            },
            (SessionState::Streaming, _, Some(Flow::Publish)) => self.ask(
                Waiting::Change,
                Action::AwaitChange,
            ),
            (SessionState::Streaming, _, Some(Flow::Broadcast)) => {
                let last_seen = self.last_seen;
                self.ask(Waiting::Snapshot, Action::AwaitNewer(last_seen))
            },
            _ => Action::Continue,
        }
    }

    fn offered(&mut self, version: u64, frame: Frame) -> (action: Action)
        ensures
            (final(self)@, action@) == on_newer(old(self)@, version as nat, frame@),
    {
        if version > self.last_seen {
            self.last_seen = version;
            self.ask(Waiting::Delivery, Action::Send(frame))
        } else {
            let last_seen = self.last_seen;
            self.ask(Waiting::Snapshot, Action::AwaitNewer(last_seen))
        }
    }

    /// Takes what the worker reports and answers with what it is to do next,
    /// as [`next`] says.
    pub fn step(&mut self, registry: &TokenRegistry, event: Event) -> (action: Action)
        ensures
            (final(self)@, action@) == next(old(self)@, registry@, event@),
    {
        if self.state == SessionState::Closed {
            return Action::Close(self.reason);
        }
        match (event, self.waiting) {
            (Event::Failed, _) => self.close(Some(Error::Io)),
            (Event::Connected, Waiting::Transport) => if self.state == SessionState::Connecting {
                self.connected()
            } else {
                Action::Continue
            },
            (Event::ConnectFailed, Waiting::Transport) => if self.state
                == SessionState::Connecting {
                self.close(Some(Error::Connect))
            } else {
                Action::Continue
            },
            (Event::Line(line), Waiting::Line) => if self.state == SessionState::Handshaking {
                self.handshake(registry, line)
            } else if self.flows(Flow::Collect) {
                self.content(line)
            } else {
                Action::Continue
            },
            (Event::EndOfStream, waiting) => if self.state == SessionState::Streaming {
                self.close(None)
            } else if waiting == Waiting::Line {
                self.close(Some(Error::Auth))
            } else {
                Action::Continue
            },
            (Event::Truncated, Waiting::Line) => self.close(
                Some(Error::Protocol(ProtocolViolation::TruncatedFrame)),
            ),
            (Event::Start, Waiting::Start) => if self.state == SessionState::Authenticated {
                self.start()
            } else {
                Action::Continue
            },
            (Event::FileRead(contents), Waiting::File) => if self.flows(Flow::Publish) {
                self.file(contents)
            } else {
                Action::Continue
            },
            (Event::Changed, Waiting::Change) => if self.flows(Flow::Publish) {
                self.ask(Waiting::File, Action::ReadFile)
            } else {
                Action::Continue
            },
            (Event::Sent, Waiting::Delivery) => self.sent(),
            (Event::Staged, Waiting::Staging) => if self.flows(Flow::Collect) {
                let from = temp_path(self.path.as_slice(), self.suffix);
                let to = slice_to_vec(self.path.as_slice());
                self.ask(Waiting::Commit, Action::Commit { from, to })
            } else {
                Action::Continue
            },
            (Event::Committed, Waiting::Commit) => if self.flows(Flow::Collect) {
                self.ask(Waiting::Line, Action::ReadLine)
            } else {
                Action::Continue
            },
            (Event::Newer(version, frame), Waiting::Snapshot) => if self.flows(Flow::Broadcast) {
                self.offered(version, frame)
            } else {
                Action::Continue
            },
            _ => Action::Continue,
        }
    }
}

} // verus!
