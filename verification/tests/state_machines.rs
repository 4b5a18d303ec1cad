use mediadir::errors::CreateRateError;
use mediadir::rate_limit::{Bucket, CreateRateLimit, MAX_CREATE_TOKENS, RATE_REFILL_SECS};
use mediadir::rename_control::{Rename, RenameAction, RenameControl, RenameFrom};
use mediadir::skip::{BucketTracker, KeyTracker, NameSet, ObjectTracker, Skipper, ToSkip};

#[test]
fn bucket_hands_out_its_tokens() {
    let mut b = Bucket::new_at(2, RATE_REFILL_SECS, 1000);
    assert_eq!(b.token(), MAX_CREATE_TOKENS);
    assert!(b.get_token().is_ok());
    assert!(b.get_token().is_ok());
    assert!(matches!(b.get_token(), Err(CreateRateError::BucketEmpty)));
    assert_eq!(b.token(), 0);
}

#[test]
fn refill_earns_one_token_per_period_up_to_capacity() {
    let mut b = Bucket::new_at(5, 2, 100);
    b.get_token().unwrap();
    b.get_token().unwrap();
    assert_eq!(b.due_at(105), 2);
    b.refill_at(105);
    assert_eq!(b.token(), 2);
    b.refill_at(200);
    assert_eq!(b.token(), 5);
    b.refill_at(150);
    assert_eq!(b.token(), 5);
    b.set_capacity(1);
    b.refill_at(150);
    assert_eq!(b.token(), 1);
    assert_eq!(b.capacity(), 1);
}

#[test]
fn refill_counts_a_byte_of_tokens() {
    let mut b = Bucket::new_at(255, 1, 0);
    assert_eq!(b.due_at(10_000), 255);
    b.refill_at(10_000);
    assert_eq!(b.token(), 1);
    let mut c = Bucket::new_at(2, 1, 0);
    c.refill();
    assert!(c.token() <= 2);
}

#[test]
fn clients_get_fresh_buckets() {
    let mut r = CreateRateLimit::new();
    r.add_client(7);
    r.add_client(7);
    r.add_client(u128::MAX);
}

#[test]
fn rename_then_expiry_is_a_removal() {
    let mut c = RenameControl::new(2000);
    let path = b"/data/bucket/file".to_vec();
    let ticket = match c.handle(Rename::From(RenameFrom::new(path.clone()))) {
        RenameAction::StartTimer { path: p, ticket, after_ms } => {
            assert_eq!(p, path);
            assert_eq!(after_ms, 2000);
            ticket
        }
        other => panic!("{other:?}"),
    };
    assert!(c.on_expired(&path, ticket));
    assert!(!c.on_expired(&path, ticket));
}

#[test]
fn declined_rename_removes_nothing() {
    let mut c = RenameControl::new(10);
    let path = b"/d/x".to_vec();
    let ticket = match c.handle(Rename::From(RenameFrom::new(path.clone()))) {
        RenameAction::StartTimer { ticket, .. } => ticket,
        other => panic!("{other:?}"),
    };
    assert!(matches!(c.handle(Rename::Decline(path.clone())), RenameAction::Cancel(_)));
    assert!(!c.on_expired(&path, ticket));
    assert!(matches!(c.handle(Rename::Decline(path.clone())), RenameAction::Nothing));
}

#[test]
fn a_later_rename_voids_the_earlier_wait() {
    let mut c = RenameControl::new(10);
    let path = b"/d/y".to_vec();
    let first = match c.handle(Rename::From(RenameFrom::new(path.clone()))) {
        RenameAction::StartTimer { ticket, .. } => ticket,
        other => panic!("{other:?}"),
    };
    let second = match c.handle(Rename::From(RenameFrom::new(path.clone()))) {
        RenameAction::StartTimer { ticket, .. } => ticket,
        other => panic!("{other:?}"),
    };
    assert_ne!(first, second);
    assert!(c.has_tickets());
    assert!(!c.on_expired(&path, first));
    assert!(c.on_expired(&path, second));
}

#[test]
fn name_set_semantics() {
    let mut s = NameSet::new();
    let t = vec!["b".to_string(), "k".to_string()];
    assert!(!s.contains(&t));
    assert!(s.insert(t.clone()));
    assert!(!s.insert(t.clone()));
    assert!(s.contains(&t));
    assert_eq!(s.items().len(), 1);
    assert!(s.remove(&t));
    assert!(!s.remove(&t));
    assert!(s.items().is_empty());
}

#[test]
fn trackers_skip_once() {
    let mut b = BucketTracker::new();
    assert!(b.to_skip("music".into()));
    assert!(!b.to_skip("music".into()));
    assert!(b.skipped(&"music".into()));
    assert!(!b.skipped(&"music".into()));

    let mut k = KeyTracker::new();
    assert!(k.to_skip("music".into(), "rock".into()));
    assert!(!k.skipped(&"music".into(), &"jazz".into()));
    assert!(k.skipped(&"music".into(), &"rock".into()));
    assert!(!k.skipped(&"music".into(), &"rock".into()));

    let mut o = ObjectTracker::new();
    assert!(o.to_skip("m".into(), "r".into(), "song.mp3".into()));
    assert!(!o.skipped(&"m".into(), &"r".into(), "other.mp3"));
    assert!(o.skipped(&"m".into(), &"r".into(), "song.mp3"));
    assert!(!o.skipped(&"m".into(), &"r".into(), "song.mp3"));
}

#[test]
fn skipper_holds_three_trackers() {
    let mut s = Skipper::new();
    assert!(s.bucket_tracker().to_skip("b".into()));
    assert!(s.key_tracker().to_skip("b".into(), "k".into()));
    assert!(s.object_tracker().to_skip("b".into(), "k".into(), "f".into()));
    assert!(s.bucket_tracker().skipped(&"b".into()));
    assert!(s.key_tracker().skipped(&"b".into(), &"k".into()));
    assert!(s.object_tracker().skipped(&"b".into(), &"k".into(), "f"));
}

#[test]
fn to_skip_stacks() {
    let mut s = ToSkip::new();
    s.push_bucket("a".into());
    s.push_bucket("b".into());
    assert!(!s.pop_bucket(&"a".into()));
    assert!(s.pop_bucket(&"b".into()));
    assert!(s.pop_bucket(&"a".into()));
    assert!(!s.pop_bucket(&"a".into()));

    s.push_key("bk".into(), "k1".into());
    s.push_key("bk".into(), "k2".into());
    s.push_key("other".into(), "k1".into());
    assert!(!s.pop_key(&"bk".into(), &"k1".into()));
    assert!(s.pop_key(&"bk".into(), &"k2".into()));
    assert!(s.pop_key(&"bk".into(), &"k1".into()));
    assert!(!s.pop_key(&"bk".into(), &"k1".into()));
    assert!(s.pop_key(&"other".into(), &"k1".into()));
    assert!(!s.pop_key(&"missing".into(), &"k1".into()));
}

#[test]
fn a_zero_period_earns_the_most_at_once() {
    let mut b = Bucket::new_at(3, 0, 100);
    assert_eq!(b.due_at(100), 255);
    assert_eq!(b.due_at(99), 0);
    b.get_token().unwrap();
    b.get_token().unwrap();
    b.refill_at(100);
    assert_eq!(b.token(), 3);
}
