use mediadir::models::{FileLog, GetCollection, Logs, User};
use mediadir::notify_table::{ListToNotification, ListToNotificationError, UserTracker};
use mediadir::permissions::{permissions_key, role_key, Permissions, PermissionsUser};
use mediadir::skip::NameSet;
use mediadir::storage::{
    deleted_name, fresh_deleted_name, listen_action, ListenAction, ListenBucketBuilder,
    ListenOperation, LocalStorageBuild, Payload,
};
use mediadir::sync::{sync_plan, AsObjectDeserialize, FsTree};
use mediadir::watcher::{
    first_watch_decision, watch_decision, EventWatcherBuilder, EventWatcherNoNotify,
    EventWatcherNoPath, EventWatcherNotify, EventWatcherPath, ForDir, ForDirErr, Pending,
    PollWatcherNotifyCh, TakeOwn, WatchDecision, WatchKind, Watcher, WatcherErr,
    DEFAULT_RENAME_AWAIT_MS,
};

#[test]
fn collections() {
    assert_eq!(User::collection(), "users");
    assert_eq!(Logs::collection(), "logs");
    assert_eq!(FileLog::collection(), "files");
}

#[test]
fn object_store_settings() {
    let s = LocalStorageBuild::new()
        .username("u".into())
        .password("p".into())
        .host("db".into())
        .port(27017)
        .database("media".into())
        .into_settings();
    assert_eq!(s.host, "db");
    assert_eq!(s.port, Some(27017));
    assert_eq!(s.username.as_deref(), Some("u"));
    assert_eq!(s.password.as_deref(), Some("p"));
    assert_eq!(s.database.as_deref(), Some("media"));
    let bare = LocalStorageBuild::new().host("h".into()).into_settings();
    assert!(bare.username.is_none() && bare.port.is_none());
}

#[test]
fn listener_workdir_setter_sets_the_user() {
    let b = ListenBucketBuilder::new().username("u".into()).workdir("/srv".into());
    let _ = b;
}

#[test]
fn listen_actions() {
    let p = |op, old: Option<&str>| Payload {
        operation: op,
        bucket: "new".into(),
        old_bucket: old.map(|x| x.to_string()),
    };
    assert!(matches!(listen_action(p(ListenOperation::Delete, None)), ListenAction::Delete { bucket } if bucket == "new"));
    assert!(matches!(listen_action(p(ListenOperation::New, None)), ListenAction::Create { bucket } if bucket == "new"));
    assert!(matches!(listen_action(p(ListenOperation::Rename, Some("old"))), ListenAction::Rename { from, to } if from == "old" && to == "new"));
    assert!(matches!(listen_action(p(ListenOperation::Rename, None)), ListenAction::Stop));
}

#[test]
fn set_aside_names() {
    assert_eq!(deleted_name("a1_-", "03-05-24_10-30", "music"), "DELETED-a1_--03-05-24_10-30_music");
    let n = fresh_deleted_name("01-01-25_00-00", "films");
    assert!(n.starts_with("DELETED-"));
    assert!(n.ends_with("-01-01-25_00-00_films"));
    let id = &n["DELETED-".len().."DELETED-".len() + 4];
    assert!(id.chars().all(|c| c == '_' || c == '-' || c.is_ascii_alphanumeric()));
}

#[test]
fn permission_names() {
    assert_eq!(Permissions::from_text("Put"), Permissions::Put);
    assert_eq!(Permissions::from_text("Get"), Permissions::Get);
    assert_eq!(Permissions::from_text("Delete"), Permissions::Delete);
    assert_eq!(Permissions::from_text("Read"), Permissions::Read);
    assert_eq!(Permissions::from_text("anything"), Permissions::Read);
    for p in [PermissionsUser::Put, PermissionsUser::Get, PermissionsUser::Read, PermissionsUser::Delete] {
        assert_eq!(PermissionsUser::from_permissions(Permissions::from_text(p.message())), p);
    }
}

#[test]
fn cache_keys() {
    let id = 0x67e55044_10b1_426f_9247_bb680e5fe0c8u128;
    assert_eq!(
        permissions_key(id, "music"),
        "user:67e55044-10b1-426f-9247-bb680e5fe0c8:bucket:music"
    );
    assert_eq!(role_key(id), "user:67e55044-10b1-426f-9247-bb680e5fe0c8:role");
    assert_eq!(role_key(0), "user:00000000-0000-0000-0000-000000000000:role");
}

#[test]
fn notification_lookups() {
    let mut t: ListToNotification<u32> = ListToNotification::new();
    assert!(matches!(t.send_message("b", "k"), Err(ListToNotificationError::BucketNotFound(b)) if b == "b"));
    t.rcv_or_create("b".into(), "k".into(), 1);
    t.rcv_or_create("b".into(), "k".into(), 2);
    t.rcv_or_create("b".into(), "j".into(), 3);
    assert!(t.contains("b", "k"));
    assert_eq!(*t.send_message("b", "k").unwrap(), 1);
    assert!(matches!(t.send_message("b", "x"), Err(ListToNotificationError::KeyNotFound(k)) if k == "x"));
    let mut all: Vec<(String, u32)> =
        t.send_all_in_bucket("b").unwrap().into_iter().map(|(k, v)| (k, *v)).collect();
    all.sort();
    assert_eq!(all, vec![("j".to_string(), 3), ("k".to_string(), 1)]);
    assert!(t.send_all_in_bucket("c").is_err());

    let mut u: UserTracker<u32> = UserTracker::new();
    assert_eq!(*u.get_rx("b".into(), "k".into(), 5), 5);
    assert_eq!(*u.get_rx("b".into(), "k".into(), 6), 5);
}

fn set(items: &[&[&str]]) -> NameSet {
    let mut s = NameSet::new();
    for i in items {
        s.insert(i.iter().map(|x| x.to_string()).collect());
    }
    s
}

fn obj(b: &str, k: &str, n: &str, c: &str) -> AsObjectDeserialize {
    AsObjectDeserialize { bucket: b.into(), key: k.into(), name: n.into(), checksum: c.into() }
}

#[test]
fn database_follows_the_file_system() {
    let fs = FsTree {
        buckets: set(&[&["music"], &["films"]]),
        keys: set(&[&["music", "rock"], &["films", "drama"]]),
        objects: set(&[&["music", "rock", "c1"]]),
    };
    let db = vec![
        obj("gone", "x", "a", "c0"),
        obj("gone", "y", "b", "c0"),
        obj("music", "jazz", "c", "c2"),
        obj("music", "rock", "d", "c1"),
        obj("music", "rock", "e", "c9"),
        obj("films", "drama", "f", "c3"),
    ];
    let plan = sync_plan(&db, &fs);
    let names = |s: &NameSet| {
        let mut v: Vec<Vec<String>> = s.items().clone();
        v.sort();
        v
    };
    assert_eq!(names(&plan.buckets), vec![vec!["gone".to_string()]]);
    assert_eq!(names(&plan.keys), vec![vec!["music".to_string(), "jazz".to_string()]]);
    assert_eq!(
        names(&plan.objects),
        vec![
            vec!["films".to_string(), "drama".to_string(), "f".to_string()],
            vec!["music".to_string(), "rock".to_string(), "e".to_string()],
        ]
    );
}

#[test]
fn watcher_decisions() {
    let p = |s: &str| s.as_bytes().to_vec();
    assert!(matches!(watch_decision(WatchKind::CreateFolder, vec![p("/r/b")]), WatchDecision::NewBucketOrKey(x) if x == p("/r/b")));
    assert!(matches!(watch_decision(WatchKind::CreateFolder, vec![]), WatchDecision::Ignore));
    assert!(matches!(watch_decision(WatchKind::CreateOther, vec![p("/a"), p("/r/b/f")]), WatchDecision::NewObject(x) if x == p("/r/b/f")));
    assert!(matches!(watch_decision(WatchKind::RenameFrom, vec![p("/r/b")]), WatchDecision::RenameFrom(x) if x == p("/r/b")));
    assert!(matches!(watch_decision(WatchKind::RenameBoth, vec![p("/old"), p("/new")]), WatchDecision::Rename { from, to } if from == p("/old") && to == p("/new")));
    assert!(matches!(watch_decision(WatchKind::RenameBoth, vec![p("/only")]), WatchDecision::Ignore));
    assert!(matches!(watch_decision(WatchKind::Other, vec![p("/x")]), WatchDecision::Ignore));
    assert!(matches!(first_watch_decision(WatchKind::Remove, vec![p("/r/b/f")]), WatchDecision::Removed(x) if x == p("/r/b/f")));
}

#[test]
fn small_watcher_types() {
    assert_eq!(WatcherErr::new("Path not defined").message(), "Path not defined");
    assert_eq!(Pending::new(5u8).take(), 5);
    assert_eq!(EventWatcherPath::new(vec![1, 2]).take(), vec![1, 2]);
    assert_eq!(EventWatcherNotify::new("tx").take(), "tx");
    let _ch = PollWatcherNotifyCh::new(3u8);
}

#[test]
fn watcher_is_taken_once() {
    let mut w = Watcher::new(7u32, "sender");
    assert_eq!(*w.get_sender(), "sender");
    assert_eq!(w.into_inner().ok(), Some(7));
    match w.into_inner() {
        Err(e) => assert_eq!(e.message(), "Watcher not defined"),
        Ok(_) => panic!("a watcher is taken once"),
    }
    assert_eq!(*w.get_sender(), "sender");
}

#[test]
fn event_watcher_builder_settings() {
    let b: EventWatcherBuilder<EventWatcherNoPath, EventWatcherNoNotify> = Default::default();
    let (path, wait, tx) = b.change_notify(5u8).path(b"/srv/media".to_vec()).settings();
    assert_eq!(path, b"/srv/media".to_vec());
    assert_eq!(wait, DEFAULT_RENAME_AWAIT_MS);
    assert_eq!(wait, 2000);
    assert_eq!(tx, 5);
    let b: EventWatcherBuilder<EventWatcherNoPath, EventWatcherNoNotify> = Default::default();
    let (_, wait, _) =
        b.rename_control_await(150).path(b"/x".to_vec()).change_notify(()).settings();
    assert_eq!(wait, 150);
}

#[test]
fn root_pairs_and_their_errors() {
    let d = ForDir::new("/media".to_string(), "/srv/data".to_string());
    let _borrowed: ForDir<&str> = d.get();
    assert_eq!(
        ForDirErr::ParentNotFound("/a/b".to_string()).message(),
        " Parent \"/a/b\" not found"
    );
    assert_eq!(ForDirErr::FileNotFound("/a".to_string()).message(), "File \"/a\" not found");
}
