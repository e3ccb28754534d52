//! The latest snapshot of a watched file, shared by all who send it on.
//!
//! One writer publishes; any number of subscribers look. Each publication
//! replaces the payload and raises the version by one. A subscriber remembers
//! the last version it has seen and takes a snapshot only where it is newer,
//! so it may miss versions in between but never goes back.
//!
//! The cell itself is plain data. Whoever shares it between threads guards it
//! with one lock, holds the lock only to publish or to look, and wakes all
//! who wait whenever something is published.

use crate::frame::is_frame;
use crate::frame::Frame;
use vstd::prelude::*;

verus! {

/// A snapshot as a value: how often the file has been published, and its
/// latest content. The payload of version 0 is empty.
pub struct SnapshotModel {
    pub version: nat,
    pub payload: Seq<u8>,
}

/// The snapshot before anything is published.
pub open spec fn initial() -> SnapshotModel {
    SnapshotModel { version: 0, payload: Seq::empty() }
}

/// The snapshot after `frame` is published.
pub open spec fn published(snapshot: SnapshotModel, frame: Seq<u8>) -> SnapshotModel {
    SnapshotModel { version: snapshot.version + 1, payload: frame }
}

/// The snapshot is news to one who has last seen version `last_seen`.
pub open spec fn newer(snapshot: SnapshotModel, last_seen: nat) -> bool {
    snapshot.version > last_seen
}

/// One subscriber as the history of a cell knows it.
pub struct Follower {
    /// The version that the cell had when the subscriber attached.
    pub attached_at: nat,
    /// The last version that the subscriber has taken.
    pub last_seen: nat,
    /// All that the subscriber has taken so far, in order.
    pub taken: Seq<SnapshotModel>,
}

/// A cell and all who follow it. Whatever touches the cell does so under its
/// lock, one at a time, so its history is a run of steps.
pub struct Hub {
    pub snapshot: SnapshotModel,
    pub followers: Seq<Follower>,
}

/// One step in the history of a cell: the writer publishes a frame, a new
/// subscriber attaches, or the subscriber with the given number looks at the
/// snapshot.
pub enum Tick {
    Publish(Seq<u8>),
    Attach,
    Look(int),
}

/// A cell that holds `snapshot` and has no subscribers yet.
pub open spec fn unfollowed(snapshot: SnapshotModel) -> Hub {
    Hub { snapshot, followers: Seq::empty() }
}

/// What a look makes of a subscriber: it takes the snapshot where it is news,
/// and stays as it is otherwise.
pub open spec fn after_look(follower: Follower, snapshot: SnapshotModel) -> Follower {
    if newer(snapshot, follower.last_seen) {
        Follower {
            attached_at: follower.attached_at,
            last_seen: snapshot.version,
            taken: follower.taken.push(snapshot),
        }
    } else {
        follower
    }
}

/// What one step makes of a cell and its subscribers. A look by one
/// subscriber changes nothing for any other.
pub open spec fn after_tick(hub: Hub, tick: Tick) -> Hub {
    match tick {
        Tick::Publish(frame) => Hub { snapshot: published(hub.snapshot, frame), ..hub },
        Tick::Attach => Hub {
            followers: hub.followers.push(
                Follower {
                    attached_at: hub.snapshot.version,
                    last_seen: 0,
                    taken: Seq::empty(),
                },
            ),
            ..hub
        },
        Tick::Look(who) => if 0 <= who < hub.followers.len() {
            Hub {
                followers: hub.followers.update(
                    who,
                    after_look(hub.followers[who], hub.snapshot),
                ),
                ..hub
            }
        } else {
            hub
        },
    }
}

/// What a run of steps makes of a cell and its subscribers.
pub open spec fn after_ticks(hub: Hub, ticks: Seq<Tick>) -> Hub
    decreases ticks.len(),
{
    if ticks.len() == 0 {
        hub
    } else {
        after_tick(after_ticks(hub, ticks.drop_last()), ticks.last())
    }
}

/// What holds of every subscriber at any time.
spec fn in_order(follower: Follower, snapshot: SnapshotModel) -> bool {
    &&& follower.attached_at <= snapshot.version
    &&& follower.last_seen <= snapshot.version
    &&& forall|i: int|
        0 <= i < follower.taken.len() ==> follower.attached_at <= (
        #[trigger] follower.taken[i]).version <= follower.last_seen
    &&& forall|i: int, j: int|
        0 <= i < j < follower.taken.len() ==> follower.taken[i].version
            < follower.taken[j].version
    &&& follower.last_seen > 0 ==> follower.taken.len() > 0 && follower.taken.last().version
        == follower.last_seen
    &&& follower.last_seen > 0 && follower.last_seen == snapshot.version ==> follower.taken.last()
        == snapshot
}

proof fn lemma_in_order(snapshot: SnapshotModel, ticks: Seq<Tick>)
    ensures
        forall|who: int|
            0 <= who < after_ticks(unfollowed(snapshot), ticks).followers.len() ==> in_order(
                #[trigger] after_ticks(unfollowed(snapshot), ticks).followers[who],
                after_ticks(unfollowed(snapshot), ticks).snapshot,
            ),
    decreases ticks.len(),
{
    if ticks.len() > 0 {
        lemma_in_order(snapshot, ticks.drop_last());
        let before = after_ticks(unfollowed(snapshot), ticks.drop_last());
        let after = after_ticks(unfollowed(snapshot), ticks);
        assert forall|who: int| 0 <= who < after.followers.len() implies in_order(
            #[trigger] after.followers[who],
            after.snapshot,
        ) by {
            if who < before.followers.len() {
                assert(in_order(before.followers[who], before.snapshot));
            }
        }
    }
}

/// Whatever is published, whoever attaches and whenever anyone looks: the
/// versions that a subscriber takes rise strictly, and none is below the
/// version that the cell had when the subscriber attached.
pub proof fn lemma_taken_versions_rise(snapshot: SnapshotModel, ticks: Seq<Tick>, who: int)
    requires
        0 <= who < after_ticks(unfollowed(snapshot), ticks).followers.len(),
    ensures
        ({
            let follower = after_ticks(unfollowed(snapshot), ticks).followers[who];
            &&& forall|i: int|
                0 <= i < follower.taken.len() ==> follower.attached_at <= (
                #[trigger] follower.taken[i]).version
            &&& forall|i: int, j: int|
                0 <= i < j < follower.taken.len() ==> follower.taken[i].version
                    < follower.taken[j].version
        }),
{
    lemma_in_order(snapshot, ticks);
    let hub = after_ticks(unfollowed(snapshot), ticks);
    assert(in_order(hub.followers[who], hub.snapshot));
}

/// A subscriber that looks has the latest snapshot, however many versions it
/// missed on the way and whenever it attached: after its look the last
/// version it has seen is the cell's, and unless nothing was ever published,
/// the last thing it took is what the cell holds.
pub proof fn lemma_look_catches_up(snapshot: SnapshotModel, ticks: Seq<Tick>, who: int)
    requires
        0 <= who < after_ticks(unfollowed(snapshot), ticks).followers.len(),
    ensures
        ({
            let before = after_ticks(unfollowed(snapshot), ticks);
            let after = after_ticks(unfollowed(snapshot), ticks.push(Tick::Look(who)));
            &&& after.snapshot == before.snapshot
            &&& after.followers.len() == before.followers.len()
            &&& after.followers[who].last_seen == after.snapshot.version
            &&& after.snapshot.version > 0 ==> after.followers[who].taken.last()
                == after.snapshot
            &&& forall|other: int|
                0 <= other < before.followers.len() && other != who
                    ==> #[trigger] after.followers[other] == before.followers[other]
        }),
{
    lemma_in_order(snapshot, ticks);
    let before = after_ticks(unfollowed(snapshot), ticks);
    assert(ticks.push(Tick::Look(who)).drop_last() == ticks);
    assert(in_order(before.followers[who], before.snapshot));
}

/// The cell that holds the latest snapshot of one watched file.
#[derive(Debug)]
pub struct VersionedSnapshot {
    version: u64,
    payload: Option<Frame>,
}

impl View for VersionedSnapshot {
    type V = SnapshotModel;

    closed spec fn view(&self) -> SnapshotModel {
        SnapshotModel {
            version: self.version as nat,
            payload: match self.payload {
                Some(frame) => frame@,
                None => Seq::empty(),
            },
        }
    }
}

impl VersionedSnapshot {
    #[verifier::type_invariant]
    spec fn well_formed(&self) -> bool {
        self.version == 0 <==> self.payload is None
    }

    /// The cell of a file that has not been published yet.
    pub fn new() -> (r: VersionedSnapshot)
        ensures
            r@ == initial(),
    {
        VersionedSnapshot { version: 0, payload: None }
    }

    /// The number of publications so far.
    pub fn version(&self) -> (r: u64)
        ensures
            r == self@.version,
    {
        self.version
    }

    /// Stores `frame` as the latest content and raises the version by one.
    pub fn publish(&mut self, frame: Frame)
        requires
            old(self)@.version < u64::MAX,
        ensures
            final(self)@ == published(old(self)@, frame@),
    {
        let next = self.version + 1;
        *self = VersionedSnapshot { version: next, payload: Some(frame) };
    }

    /// The current version and content, where the version is above
    /// `last_seen`; `None` where there is nothing newer. This is the test that
    /// a waiting subscriber repeats each time it is woken.
    pub fn newer_than(&self, last_seen: u64) -> (r: Option<(u64, Frame)>)
        ensures
            match r {
                Some((version, frame)) => {
                    &&& newer(self@, last_seen as nat)
                    &&& version == self@.version
                    &&& frame@ == self@.payload
                    &&& is_frame(frame@)
                },
                None => !newer(self@, last_seen as nat),
            },
    {
        proof {
            use_type_invariant(self);
        }
        if self.version > last_seen {
            match &self.payload {
                Some(frame) => {
                    Some((self.version, frame.duplicate()))
                },
                None => None,
            }
        } else {
            None
        }
    }
}

/// What one subscriber knows: the last version that it has taken.
#[derive(Debug)]
pub struct Subscriber {
    last_seen: u64,
}

impl View for Subscriber {
    type V = nat;

    closed spec fn view(&self) -> nat {
        self.last_seen as nat
    }
}

impl Subscriber {
    /// A subscriber that has seen nothing yet.
    pub fn attach() -> (r: Subscriber)
        ensures
            r@ == 0,
    {
        Subscriber { last_seen: 0 }
    }

    /// The last version taken.
    pub fn last_seen(&self) -> (r: u64)
        ensures
            r == self@,
    {
        self.last_seen
    }

    /// Looks at the snapshot: where its version is above the last one taken,
    /// takes it and returns its content; otherwise leaves everything as it is.
    pub fn observe(&mut self, snapshot: &VersionedSnapshot) -> (r: Option<Frame>)
        ensures
            match r {
                Some(frame) => {
                    &&& newer(snapshot@, old(self)@)
                    &&& final(self)@ == snapshot@.version
                    &&& frame@ == snapshot@.payload
                    &&& is_frame(frame@)
                },
                None => !newer(snapshot@, old(self)@) && final(self)@ == old(self)@,
            },
    {
        match snapshot.newer_than(self.last_seen) {
            Some((version, frame)) => {
                self.last_seen = version;
                Some(frame)
            },
            None => None,
        }
    }
}

} // verus!
