use mediadir::changes::{
    first_effects, handle_in_order, handler_effects, report_on_success, EventLoop, FirstEffect,
    StepRun, WatchEffect,
    event_action, first_event_action, FirstAction, new_bucket_or_key_step, new_object_step, planned_rename, rename_object_step,
    rename_path_step, store_operation, workdir_action, Change, EventAction, FsRename, NameCheck,
    StoreOp,
};
use mediadir::skip::{Skip, Skipper};
use mediadir::notify_table::{ListToNotification, Scope};
use mediadir::storage::ListenAction;
use mediadir::watcher::WatchDecision;

fn yes(from: &str, to: &str) -> NameCheck {
    NameCheck::Yes { from: from.to_string(), to: to.to_string() }
}

fn not(name: &str) -> NameCheck {
    NameCheck::Not(name.to_string())
}

#[test]
fn own_bucket_rename_is_reported_once() {
    let mut sk = Skipper::new();
    match new_bucket_or_key_step(yes("Mi Canal", "mi_canal"), true, None, None, true, &mut sk) {
        Ok(Change::NewBucket { bucket }) => assert_eq!(bucket, "mi_canal"),
        other => panic!("{other:?}"),
    }
    let follow = rename_path_step(not("mi_canal"), true, "Mi Canal".into(), None, None, None, &mut sk);
    assert!(follow.is_err());
    match rename_path_step(not("mi_canal"), true, "otro".into(), None, None, None, &mut sk) {
        Ok(Change::NameBucket { from, to }) => {
            assert_eq!(from, "otro");
            assert_eq!(to, "mi_canal");
        }
        other => panic!("{other:?}"),
    }
}

#[test]
fn new_directories() {
    let mut sk = Skipper::new();
    assert!(matches!(
        new_bucket_or_key_step(not("canal"), true, None, None, true, &mut sk),
        Ok(Change::NewBucket { .. })
    ));
    match new_bucket_or_key_step(not("x"), false, Some("canal".into()), Some("show".into()), true, &mut sk) {
        Ok(Change::NewKey { bucket, key }) => assert_eq!((bucket.as_str(), key.as_str()), ("canal", "show")),
        other => panic!("{other:?}"),
    }
    assert!(new_bucket_or_key_step(not("x"), false, Some("canal".into()), None, true, &mut sk).is_err());
    assert!(new_bucket_or_key_step(yes("a b", "a_b"), true, None, None, false, &mut sk).is_err());
    assert!(new_bucket_or_key_step(NameCheck::Failed, true, None, None, true, &mut sk).is_err());
    match new_bucket_or_key_step(yes("s 1", "s_1"), false, None, Some("k".into()), true, &mut sk) {
        Ok(Change::NewKey { bucket, key }) => assert_eq!((bucket.as_str(), key.as_str()), ("s_1", "k")),
        other => panic!("{other:?}"),
    }
    assert!(sk.skipped(&Skip::Key { bucket: "s_1".into(), key: "k".into() }));
}

#[test]
fn new_files_and_their_renames() {
    let mut sk = Skipper::new();
    assert!(new_object_step(not("f.mp4"), true, "b".into(), "k".into(), "f.mp4".into(), true, &mut sk).is_err());
    match new_object_step(yes("f 1.mp4", "f_1.mp4"), false, "b".into(), "k".into(), "f 1.mp4".into(), true, &mut sk) {
        Ok(Change::NewObject { file_name, .. }) => assert_eq!(file_name, "f_1.mp4"),
        other => panic!("{other:?}"),
    }
    assert!(rename_object_step(not("f_1.mp4"), "b".into(), "k".into(), "f 1.mp4".into(), "k".into(), true, &mut sk).is_err());
    match rename_object_step(not("f_1.mp4"), "b".into(), "k".into(), "g.mp4".into(), "k".into(), true, &mut sk) {
        Ok(Change::NameObject { from, to, .. }) => assert_eq!((from.as_str(), to.as_str()), ("g.mp4", "f_1.mp4")),
        other => panic!("{other:?}"),
    }
}

#[test]
fn renamed_keys_and_restores() {
    let mut sk = Skipper::new();
    match rename_path_step(yes("x y", "x_y"), false, "old".into(), Some("b".into()), Some("old".into()), Some("x_y".into()), &mut sk) {
        Ok(Change::NameKey { bucket, from, to }) => {
            assert_eq!((bucket.as_str(), from.as_str(), to.as_str()), ("b", "old", "x_y"))
        }
        other => panic!("{other:?}"),
    }
    assert!(rename_path_step(not("x_y"), false, "x y".into(), Some("b".into()), None, Some("x_y".into()), &mut sk).is_err());
    assert!(rename_path_step(NameCheck::NeedRestore, true, "a".into(), None, None, None, &mut sk).is_err());
    assert!(matches!(planned_rename(&NameCheck::NeedRestore), Some(FsRename::Restore)));
    assert!(matches!(planned_rename(&yes("a b", "a_b")), Some(FsRename::Within { .. })));
    assert!(planned_rename(&not("a")).is_none());
}

#[test]
fn events_to_actions_and_operations() {
    let r = WatchDecision::Rename { from: b"/r/a".to_vec(), to: b"/r/b".to_vec() };
    assert!(matches!(event_action(r.clone(), true), EventAction::RenamePath { .. }));
    assert!(matches!(event_action(r, false), EventAction::RenameObject { .. }));
    assert!(matches!(event_action(WatchDecision::Ignore, true), EventAction::Ignore));
    match store_operation(Change::NameObject { bucket: "b".into(), key: "k".into(), from: "f".into(), to: "g".into() }) {
        StoreOp::SetName { file_name, new_name, .. } => assert_eq!((file_name.as_str(), new_name.as_str()), ("f", "g")),
        other => panic!("{other:?}"),
    }
    assert!(matches!(store_operation(Change::NewBucket { bucket: "b".into() }), StoreOp::Nothing));
    assert!(matches!(workdir_action(Change::NewBucket { bucket: "b".into() }), Some(ListenAction::Create { .. })));
    assert!(workdir_action(Change::NewKey { bucket: "b".into(), key: "k".into() }).is_none());
}

#[test]
fn first_watcher_actions() {
    assert!(matches!(first_event_action(WatchDecision::NewObject(b"/r/b/f".to_vec())), FirstAction::New(_)));
    assert!(matches!(first_event_action(WatchDecision::NewBucketOrKey(b"/r/b".to_vec())), FirstAction::New(_)));
    assert!(matches!(first_event_action(WatchDecision::Removed(b"/r/b".to_vec())), FirstAction::Delete(_)));
    match first_event_action(WatchDecision::Rename { from: b"/r/a".to_vec(), to: b"/r/b".to_vec() }) {
        FirstAction::Rename { from, to } => assert_eq!((from, to), (b"/r/a".to_vec(), b"/r/b".to_vec())),
        other => panic!("{other:?}"),
    }
}

#[test]
fn rename_effects_decline_first_and_report_on_success() {
    let e = handler_effects(EventAction::RenamePath { from: b"/r/a".to_vec(), to: b"/r/b".to_vec() });
    assert_eq!(e.len(), 2);
    assert!(matches!(&e[0], WatchEffect::Decline(p) if p == b"/r/a"));
    assert!(matches!(&e[1], WatchEffect::RunAndReport(StepRun::RenamePath { .. })));
    assert!(handler_effects(EventAction::Ignore).is_empty());
    assert!(matches!(handler_effects(EventAction::RenameFrom(b"/r/a".to_vec()))[0], WatchEffect::RenameFrom(_)));
    assert!(report_on_success(Err(())).is_none());
    assert!(matches!(report_on_success(Ok(Change::NewBucket { bucket: "b".into() })), Some(Change::NewBucket { .. })));
    let f = first_effects(FirstAction::Rename { from: b"/r/a".to_vec(), to: b"/r/b".to_vec() });
    assert!(matches!(&f[0], FirstEffect::Decline(p) if p == b"/r/a"));
    assert!(matches!(&f[1], FirstEffect::ReportName { .. }));
    assert_eq!(f.len(), 2);
}

#[test]
fn the_loop_stops_at_the_first_error() {
    let items: Vec<Option<Result<u32, ()>>> = vec![Some(Ok(1)), Some(Ok(2)), Some(Err(())), Some(Ok(3)), None];
    assert_eq!(handle_in_order(items), vec![1, 2]);
    let items: Vec<Option<Result<u32, ()>>> = vec![Some(Ok(7)), None, Some(Ok(8))];
    assert_eq!(handle_in_order(items), vec![7]);
    let mut l = EventLoop::new();
    assert_eq!(l.on_received::<u32, ()>(Some(Ok(5))), Some(5));
    assert_eq!(l.on_received::<u32, ()>(None), None);
    assert!(l.stopped());
    assert_eq!(l.on_received::<u32, ()>(Some(Ok(6))), None);
}

#[test]
fn changes_reach_the_channels_of_their_scope() {
    let mut t: ListToNotification<u32> = ListToNotification::new();
    t.rcv_or_create("b".into(), "k1".into(), 1);
    t.rcv_or_create("b".into(), "k2".into(), 2);
    t.rcv_or_create("c".into(), "k1".into(), 3);
    let key = t.broadcast_targets(&Scope::Key("b".into(), "k2".into()));
    assert_eq!(key.len(), 1);
    assert_eq!((key[0].0.as_str(), *key[0].1), ("k2", 2));
    let mut bucket: Vec<u32> = t.broadcast_targets(&Scope::Bucket("b".into())).iter().map(|x| *x.1).collect();
    bucket.sort();
    assert_eq!(bucket, vec![1, 2]);
    assert!(t.broadcast_targets(&Scope::Bucket("z".into())).is_empty());
    assert!(t.broadcast_targets(&Scope::Key("c".into(), "k2".into())).is_empty());
}
