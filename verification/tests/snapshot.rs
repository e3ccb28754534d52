use snapshot_relay::frame::Frame;
use snapshot_relay::snapshot::{Subscriber, VersionedSnapshot};

fn frame(payload: &[u8]) -> Frame {
    Frame::seal(payload.to_vec()).unwrap()
}

#[test]
fn fresh_cell_has_nothing_to_show() {
    let snapshot = VersionedSnapshot::new();
    assert_eq!(snapshot.version(), 0);
    assert_eq!(snapshot.newer_than(0), None);
    assert_eq!(snapshot.newer_than(7), None);
}

#[test]
fn each_publication_raises_the_version_by_one() {
    let mut snapshot = VersionedSnapshot::new();
    snapshot.publish(frame(b"one"));
    assert_eq!(snapshot.version(), 1);
    snapshot.publish(frame(b"two"));
    assert_eq!(snapshot.version(), 2);
    snapshot.publish(frame(b"two"));
    assert_eq!(snapshot.version(), 3);
}

#[test]
fn newer_than_gives_the_current_pair() {
    let mut snapshot = VersionedSnapshot::new();
    snapshot.publish(frame(b"one"));
    snapshot.publish(frame(b"two"));
    assert_eq!(snapshot.newer_than(0), Some((2, frame(b"two"))));
    assert_eq!(snapshot.newer_than(1), Some((2, frame(b"two"))));
    assert_eq!(snapshot.newer_than(2), None);
    assert_eq!(snapshot.newer_than(3), None);
    assert_eq!(snapshot.newer_than(u64::MAX), None);
}

#[test]
fn subscriber_takes_only_what_is_news() {
    let mut snapshot = VersionedSnapshot::new();
    let mut subscriber = Subscriber::attach();
    assert_eq!(subscriber.last_seen(), 0);
    assert_eq!(subscriber.observe(&snapshot), None);
    snapshot.publish(frame(b"{\"x\":1}"));
    assert_eq!(subscriber.observe(&snapshot), Some(frame(b"{\"x\":1}\n")));
    assert_eq!(subscriber.last_seen(), 1);
    assert_eq!(subscriber.observe(&snapshot), None);
    assert_eq!(subscriber.last_seen(), 1);
    snapshot.publish(frame(b"{\"x\":2}"));
    assert_eq!(subscriber.observe(&snapshot), Some(frame(b"{\"x\":2}\n")));
    assert_eq!(subscriber.last_seen(), 2);
}

#[test]
fn versions_in_between_may_be_missed() {
    let mut snapshot = VersionedSnapshot::new();
    let mut subscriber = Subscriber::attach();
    snapshot.publish(frame(b"1"));
    assert_eq!(subscriber.observe(&snapshot), Some(frame(b"1")));
    snapshot.publish(frame(b"2"));
    snapshot.publish(frame(b"3"));
    snapshot.publish(frame(b"4"));
    assert_eq!(subscriber.observe(&snapshot), Some(frame(b"4")));
    assert_eq!(subscriber.last_seen(), 4);
    assert_eq!(subscriber.observe(&snapshot), None);
}

#[test]
fn early_and_late_subscriber_both_reach_the_latest() {
    let mut snapshot = VersionedSnapshot::new();
    snapshot.publish(frame(b"v1"));
    snapshot.publish(frame(b"v2"));
    let mut early = Subscriber::attach();
    let mut early_versions = Vec::new();
    assert_eq!(early.observe(&snapshot), Some(frame(b"v2")));
    early_versions.push(early.last_seen());
    snapshot.publish(frame(b"v3"));
    snapshot.publish(frame(b"v4"));
    snapshot.publish(frame(b"v5"));
    let mut late = Subscriber::attach();
    assert_eq!(late.observe(&snapshot), Some(frame(b"v5")));
    assert_eq!(late.last_seen(), 5);
    assert_eq!(early.observe(&snapshot), Some(frame(b"v5")));
    early_versions.push(early.last_seen());
    assert_eq!(early_versions, vec![2, 5]);
    assert_eq!(early.observe(&snapshot), None);
    assert_eq!(late.observe(&snapshot), None);
}

#[test]
fn observed_versions_never_go_back() {
    let mut snapshot = VersionedSnapshot::new();
    snapshot.publish(frame(b"a"));
    snapshot.publish(frame(b"b"));
    snapshot.publish(frame(b"c"));
    let at_attach = snapshot.version();
    let mut subscriber = Subscriber::attach();
    let mut seen = Vec::new();
    for round in 0..20u32 {
        if round % 3 != 0 {
            snapshot.publish(frame(&[b'a' + round as u8]));
        }
        if round % 2 == 0 {
            if subscriber.observe(&snapshot).is_some() {
                seen.push(subscriber.last_seen());
            }
        }
    }
    assert!(!seen.is_empty());
    assert!(seen.iter().all(|&v| v >= at_attach));
    assert!(seen.windows(2).all(|w| w[0] < w[1]));
}
