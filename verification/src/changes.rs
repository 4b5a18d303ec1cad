//! What the watcher makes of a file system event: which handler runs, the
//! change it reports, the renames it makes itself (which it remembers to
//! skip), and what the object store and the listener do with a change.
//!
//! The names of buckets, keys and objects that a path stands for, and the
//! verdict of the name check, are found by the caller and handed in; the
//! caller also performs the file system renames that a step plans.
use crate::skip::{Skip, Skipper};
use crate::storage::ListenAction;
use crate::watcher::WatchDecision;
use vstd::prelude::*;
use vstd::string::*;

verus! {

/// A change of the watched tree.
#[derive(Debug, Clone)]
pub enum Change {
    NewObject { bucket: String, key: String, file_name: String },
    NewKey { bucket: String, key: String },
    NewBucket { bucket: String },
    NameObject { bucket: String, key: String, from: String, to: String },
    NameBucket { from: String, to: String },
    NameKey { bucket: String, from: String, to: String },
    DeleteObject { bucket: String, key: String, file_name: String },
    DeleteKey { bucket: String, key: String },
    DeleteBucket { bucket: String },
}

/// The verdict of the name check on an entry.
#[derive(Debug, Clone)]
pub enum NameCheck {
    /// The name is acceptable as it is.
    Not(String),
    /// The entry must be renamed, in its directory, from `from` to `to`.
    Yes { from: String, to: String },
    /// The entry must get its former name back.
    NeedRestore,
    /// The check failed.
    Failed,
    /// Any other verdict.
    Other,
}

/// A rename that the watcher makes on disk.
#[derive(Debug, Clone)]
pub enum FsRename {
    /// Rename the entry `from` to `to`, in its directory.
    Within { from: String, to: String },
    /// Give the renamed entry its former path back.
    Restore,
}

/// The rename that the watcher makes for a verdict of the name check.
pub open spec fn spec_planned_rename(check: NameCheck) -> Option<FsRename> {
    match check {
        NameCheck::Yes { from, to } => Some(FsRename::Within { from, to }),
        NameCheck::NeedRestore => Some(FsRename::Restore),
        _ => None,
    }
}

/// The rename to make on disk before a step runs: the one the name check
/// asks for, if any.
pub fn planned_rename(check: &NameCheck) -> (r: Option<FsRename>)
    ensures
        r == spec_planned_rename(*check),
        check matches NameCheck::Yes { from, to } ==> (r matches Some(FsRename::Within { from: f, to: t })
            && f@ == from@ && t@ == to@),
        check is NeedRestore ==> r == Some(FsRename::Restore),
        !(check is Yes) && !(check is NeedRestore) ==> r is None,
{
    match check {
        NameCheck::Yes { from, to } => Some(FsRename::Within { from: from.clone(), to: to.clone() }),
        NameCheck::NeedRestore => Some(FsRename::Restore),
        _ => None,
    }
}

/// The skip lists as sets: buckets, (bucket, key) pairs and (bucket, key,
/// file name) triples.
pub type SkipSets = (Set<Seq<char>>, Set<(Seq<char>, Seq<char>)>, Set<(Seq<char>, Seq<char>, Seq<char>)>);

pub open spec fn skip_sets(s: Skipper) -> SkipSets {
    (s.buckets(), s.keys(), s.objects())
}

/// What a new directory gives.  `key` is the key that the directory names
/// (for a renamed one, the key that its new path names under the new name
/// taken as the bucket), `bucket` the bucket of its path, `rename_ok`
/// whether the planned rename succeeded.
pub open spec fn new_dir_outcome(
    check: NameCheck,
    parent_is_root: bool,
    bucket: Option<String>,
    key: Option<String>,
    rename_ok: bool,
    s: SkipSets,
) -> (Result<Change, ()>, SkipSets) {
    match check {
        NameCheck::Not(name) => if parent_is_root {
            (Ok(Change::NewBucket { bucket: name }), s)
        } else {
            match key {
                Some(k) => (Ok(Change::NewKey { bucket: bucket->0, key: k }), s),
                None => (Err(()), s),
            }
        },
        NameCheck::Yes { from, to } => if !rename_ok {
            (Err(()), s)
        } else if parent_is_root {
            (Ok(Change::NewBucket { bucket: to }), (s.0.insert(to@), s.1, s.2))
        } else {
            match key {
                Some(k) => (
                    Ok(Change::NewKey { bucket: to, key: k }),
                    (s.0, s.1.insert((to@, k@)), s.2),
                ),
                None => (Err(()), s),
            }
        },
        _ => (Err(()), s),
    }
}

/// Handles a new directory: a bucket under the root, a key elsewhere.  A
/// directory that the watcher renamed for its name is remembered, so that
/// the event of that rename is skipped.
pub fn new_bucket_or_key_step(
    check: NameCheck,
    parent_is_root: bool,
    bucket: Option<String>,
    key: Option<String>,
    rename_ok: bool,
    skipper: &mut Skipper,
) -> (r: Result<Change, ()>)
    requires
        old(skipper).wf(),
        !(check is NeedRestore),
        !(check is Other),
        (check is Not && !parent_is_root) ==> bucket is Some,
    ensures
        final(skipper).wf(),
        (r, skip_sets(*final(skipper))) == new_dir_outcome(
            check,
            parent_is_root,
            bucket,
            key,
            rename_ok,
            skip_sets(*old(skipper)),
        ),
{
    match check {
        NameCheck::Not(name) => {
            if parent_is_root {
                Ok(Change::NewBucket { bucket: name })
            } else {
                match key {
                    Some(k) => Ok(Change::NewKey { bucket: bucket.unwrap(), key: k }),
                    None => Err(()),
                }
            }
        },
        NameCheck::Yes { from, to } => {
            if !rename_ok {
                Err(())
            } else if parent_is_root {
                skipper.to_skip(Skip::Bucket { bucket: to.clone() });
                Ok(Change::NewBucket { bucket: to })
            } else {
                match key {
                    Some(k) => {
                        skipper.to_skip(Skip::Key { bucket: to.clone(), key: k.clone() });
                        Ok(Change::NewKey { bucket: to, key: k })
                    },
                    None => Err(()),
                }
            }
        },
        _ => Err(()),
    }
}

/// What a new file gives: no object in the root; otherwise the object, by
/// its new name when the watcher renamed it (which it then remembers).
pub open spec fn new_object_outcome(
    check: NameCheck,
    parent_is_root: bool,
    bucket: String,
    key: String,
    file_name: String,
    rename_ok: bool,
    s: SkipSets,
) -> (Result<Change, ()>, SkipSets) {
    if parent_is_root {
        (Err(()), s)
    } else {
        match check {
            NameCheck::Yes { from, to } => if !rename_ok {
                (Err(()), s)
            } else {
                (
                    Ok(Change::NewObject { bucket, key, file_name: to }),
                    (s.0, s.1, s.2.insert((bucket@, key@, to@))),
                )
            },
            NameCheck::Not(_) => (Ok(Change::NewObject { bucket, key, file_name }), s),
            _ => (Err(()), s),
        }
    }
}

/// Handles a new file under the key `key` of `bucket`; `file_name` is its
/// name on disk.
pub fn new_object_step(
    check: NameCheck,
    parent_is_root: bool,
    bucket: String,
    key: String,
    file_name: String,
    rename_ok: bool,
    skipper: &mut Skipper,
) -> (r: Result<Change, ()>)
    requires
        old(skipper).wf(),
        !parent_is_root ==> !(check is NeedRestore) && !(check is Other),
    ensures
        final(skipper).wf(),
        (r, skip_sets(*final(skipper))) == new_object_outcome(
            check,
            parent_is_root,
            bucket,
            key,
            file_name,
            rename_ok,
            skip_sets(*old(skipper)),
        ),
{
    if parent_is_root {
        return Err(());
    }
    match check {
        NameCheck::Yes { from, to } => {
            if !rename_ok {
                Err(())
            } else {
                skipper.to_skip(
                    Skip::Object { bucket: bucket.clone(), key: key.clone(), file_name: to.clone() },
                );
                Ok(Change::NewObject { bucket, key, file_name: to })
            }
        },
        NameCheck::Not(_) => Ok(Change::NewObject { bucket, key, file_name }),
        _ => Err(()),
    }
}

/// What a renamed directory gives.  `from_name` is the directory's former
/// name, `bucket` the bucket of its new path, `key_from` and `key_to` the
/// keys of its former and new path.  A rename that the watcher made itself
/// is found in the skip lists, forgotten, and not reported; a rename that
/// the watcher makes now for the name is remembered.
pub open spec fn rename_path_outcome(
    check: NameCheck,
    parent_is_root: bool,
    from_name: String,
    bucket: Option<String>,
    key_from: Option<String>,
    key_to: Option<String>,
    s: SkipSets,
) -> (Result<Change, ()>, SkipSets) {
    match check {
        NameCheck::Not(name) => if parent_is_root {
            if s.0.contains(name@) {
                (Err(()), (s.0.remove(name@), s.1, s.2))
            } else {
                (Ok(Change::NameBucket { from: from_name, to: name }), s)
            }
        } else {
            let b = bucket->0;
            let k = key_to->0;
            if s.1.contains((b@, k@)) {
                (Err(()), (s.0, s.1.remove((b@, k@)), s.2))
            } else {
                (Ok(Change::NameKey { bucket: b, from: key_from->0, to: k }), s)
            }
        },
        NameCheck::Yes { from, to } => if parent_is_root {
            (Ok(Change::NameBucket { from: from_name, to }), (s.0.insert(to@), s.1, s.2))
        } else {
            let b = bucket->0;
            let k = key_to->0;
            (
                Ok(Change::NameKey { bucket: b, from: key_from->0, to: k }),
                (s.0, s.1.insert((b@, k@)), s.2),
            )
        },
        _ => (Err(()), s),
    }
}

/// Handles a renamed directory.
pub fn rename_path_step(
    check: NameCheck,
    parent_is_root: bool,
    from_name: String,
    bucket: Option<String>,
    key_from: Option<String>,
    key_to: Option<String>,
    skipper: &mut Skipper,
) -> (r: Result<Change, ()>)
    requires
        old(skipper).wf(),
        !(check is Failed),
        (check is Not && !parent_is_root) ==> bucket is Some && key_to is Some && (key_from is Some
            || old(skipper).keys().contains((bucket->0@, key_to->0@))),
        (check is Yes && !parent_is_root) ==> bucket is Some && key_to is Some && key_from is Some,
    ensures
        final(skipper).wf(),
        (r, skip_sets(*final(skipper))) == rename_path_outcome(
            check,
            parent_is_root,
            from_name,
            bucket,
            key_from,
            key_to,
            skip_sets(*old(skipper)),
        ),
{
    match check {
        NameCheck::Not(name) => {
            if parent_is_root {
                let skip = Skip::Bucket { bucket: name.clone() };
                if skipper.skipped(&skip) {
                    Err(())
                } else {
                    Ok(Change::NameBucket { from: from_name, to: name })
                }
            } else {
                let b = bucket.unwrap();
                let k = key_to.unwrap();
                let skip = Skip::Key { bucket: b.clone(), key: k.clone() };
                if skipper.skipped(&skip) {
                    Err(())
                } else {
                    Ok(Change::NameKey { bucket: b, from: key_from.unwrap(), to: k })
                }
            }
        },
        NameCheck::Yes { from, to } => {
            if parent_is_root {
                skipper.to_skip(Skip::Bucket { bucket: to.clone() });
                Ok(Change::NameBucket { from: from_name, to })
            } else {
                let b = bucket.unwrap();
                let k = key_to.unwrap();
                skipper.to_skip(Skip::Key { bucket: b.clone(), key: k.clone() });
                Ok(Change::NameKey { bucket: b, from: key_from.unwrap(), to: k })
            }
        },
        _ => Err(()),
    }
}

/// What a renamed file gives.  `bucket` and `key` are those of its new
/// path, `from_name` its former name, `key_of_parent` the key of its
/// directory.
pub open spec fn rename_object_outcome(
    check: NameCheck,
    bucket: String,
    key: String,
    from_name: String,
    key_of_parent: String,
    rename_ok: bool,
    s: SkipSets,
) -> (Result<Change, ()>, SkipSets) {
    match check {
        NameCheck::Not(name) => if s.2.contains((bucket@, key@, name@)) {
            (Err(()), (s.0, s.1, s.2.remove((bucket@, key@, name@))))
        } else {
            (Ok(Change::NameObject { bucket, key, from: from_name, to: name }), s)
        },
        NameCheck::Yes { from, to } => if !rename_ok {
            (Err(()), s)
        } else {
            (
                Ok(Change::NameObject { bucket, key: key_of_parent, from, to }),
                (s.0, s.1, s.2.insert((bucket@, key_of_parent@, to@))),
            )
        },
        _ => (Err(()), s),
    }
}

/// Handles a renamed file.
pub fn rename_object_step(
    check: NameCheck,
    bucket: String,
    key: String,
    from_name: String,
    key_of_parent: String,
    rename_ok: bool,
    skipper: &mut Skipper,
) -> (r: Result<Change, ()>)
    requires
        old(skipper).wf(),
        !(check is NeedRestore),
        !(check is Other),
    ensures
        final(skipper).wf(),
        (r, skip_sets(*final(skipper))) == rename_object_outcome(
            check,
            bucket,
            key,
            from_name,
            key_of_parent,
            rename_ok,
            skip_sets(*old(skipper)),
        ),
{
    match check {
        NameCheck::Not(name) => {
            let skip = Skip::Object { bucket: bucket.clone(), key: key.clone(), file_name: name.clone() };
            if skipper.skipped(&skip) {
                Err(())
            } else {
                Ok(Change::NameObject { bucket, key, from: from_name, to: name })
            }
        },
        NameCheck::Yes { from, to } => {
            if !rename_ok {
                Err(())
            } else {
                skipper.to_skip(
                    Skip::Object {
                        bucket: bucket.clone(),
                        key: key_of_parent.clone(),
                        file_name: to.clone(),
                    },
                );
                Ok(Change::NameObject { bucket, key: key_of_parent, from, to })
            }
        },
        _ => Err(()),
    }
}

/// A rename that the watcher makes itself is reported once: the step that
/// makes it reports the change and remembers the new name; the event of
/// that rename then gives `Err` and forgets it; a later rename to the same
/// name is reported again.  Stated for a bucket (made by a new directory
/// and by a renamed one), for a key, and for an object.
pub proof fn lemma_own_rename_reported_once(
    s: SkipSets,
    from: String,
    to: String,
    from_name: String,
    later_from: String,
    bucket: String,
    key: String,
    file_name: String,
)
    ensures
        ({
            let (r1, s1) = new_dir_outcome(NameCheck::Yes { from, to }, true, None, None, true, s);
            let (r2, s2) = rename_path_outcome(NameCheck::Not(to), true, from_name, None, None, None, s1);
            let (r3, s3) = rename_path_outcome(NameCheck::Not(to), true, later_from, None, None, None, s2);
            &&& r1 == Ok::<Change, ()>(Change::NewBucket { bucket: to })
            &&& s1.0 == s.0.insert(to@)
            &&& r2 is Err
            &&& s2.0 == s.0.remove(to@) && s2.1 == s.1 && s2.2 == s.2
            &&& r3 == Ok::<Change, ()>(Change::NameBucket { from: later_from, to })
            &&& s3 == s2
        }),
        ({
            let (r1, s1) = rename_path_outcome(NameCheck::Yes { from, to }, true, from_name, None, None, None, s);
            let (r2, s2) = rename_path_outcome(NameCheck::Not(to), true, from, None, None, None, s1);
            &&& r1 == Ok::<Change, ()>(Change::NameBucket { from: from_name, to })
            &&& r2 is Err
            &&& s2.0 == s.0.remove(to@) && s2.1 == s.1 && s2.2 == s.2
        }),
        ({
            let (r1, s1) = new_dir_outcome(
                NameCheck::Yes { from, to },
                false,
                Some(bucket),
                Some(key),
                true,
                s,
            );
            let (r2, s2) = rename_path_outcome(
                NameCheck::Not(to),
                false,
                from_name,
                Some(to),
                None,
                Some(key),
                s1,
            );
            &&& r1 == Ok::<Change, ()>(Change::NewKey { bucket: to, key })
            &&& r2 is Err
            &&& s2.0 == s.0 && s2.1 == s.1.remove((to@, key@)) && s2.2 == s.2
        }),
        ({
            let (r1, s1) = new_object_outcome(
                NameCheck::Yes { from, to },
                false,
                bucket,
                key,
                file_name,
                true,
                s,
            );
            let (r2, s2) = rename_object_outcome(NameCheck::Not(to), bucket, key, from, key, true, s1);
            let (r3, s3) = rename_object_outcome(NameCheck::Not(to), bucket, key, later_from, key, true, s2);
            &&& r1 == Ok::<Change, ()>(Change::NewObject { bucket, key, file_name: to })
            &&& r2 is Err
            &&& s2.0 == s.0 && s2.1 == s.1 && s2.2 == s.2.remove((bucket@, key@, to@))
            &&& r3 == Ok::<Change, ()>(Change::NameObject { bucket, key, from: later_from, to })
        }),
{
    assert(s.0.insert(to@).remove(to@) =~= s.0.remove(to@));
    assert(s.1.insert((to@, key@)).remove((to@, key@)) =~= s.1.remove((to@, key@)));
    assert(s.2.insert((bucket@, key@, to@)).remove((bucket@, key@, to@)) =~= s.2.remove(
        (bucket@, key@, to@),
    ));
}

/// What the watcher does with an event.
#[derive(Debug, Clone)]
pub enum EventAction {
    Ignore,
    /// Run the new-directory step on the path.
    NewBucketOrKey(Vec<u8>),
    /// Run the new-file step on the path.
    NewObject(Vec<u8>),
    /// Tell the rename control that the path was renamed away (it may be a
    /// removal).
    RenameFrom(Vec<u8>),
    /// Tell the rename control to stop waiting on `from`, then run the
    /// renamed-directory step.
    RenamePath { from: Vec<u8>, to: Vec<u8> },
    /// Tell the rename control to stop waiting on `from`, then run the
    /// renamed-file step.
    RenameObject { from: Vec<u8>, to: Vec<u8> },
    /// A removal, which the watcher does not handle yet.
    Removed(Vec<u8>),
}

/// The action for a decision on an event; `to_is_dir` says whether the new
/// path of a rename is a directory.
pub fn event_action(decision: WatchDecision, to_is_dir: bool) -> (a: EventAction)
    ensures
        match decision {
            WatchDecision::Ignore => a is Ignore,
            WatchDecision::NewBucketOrKey(p) => a == EventAction::NewBucketOrKey(p),
            WatchDecision::NewObject(p) => a == EventAction::NewObject(p),
            WatchDecision::RenameFrom(p) => a == EventAction::RenameFrom(p),
            WatchDecision::Rename { from, to } => if to_is_dir {
                a == (EventAction::RenamePath { from, to })
            } else {
                a == (EventAction::RenameObject { from, to })
            },
            WatchDecision::Removed(p) => a == EventAction::Removed(p),
        },
{
    match decision {
        WatchDecision::Ignore => EventAction::Ignore,
        WatchDecision::NewBucketOrKey(p) => EventAction::NewBucketOrKey(p),
        WatchDecision::NewObject(p) => EventAction::NewObject(p),
        WatchDecision::RenameFrom(p) => EventAction::RenameFrom(p),
        WatchDecision::Rename { from, to } => if to_is_dir {
            EventAction::RenamePath { from, to }
        } else {
            EventAction::RenameObject { from, to }
        },
        WatchDecision::Removed(p) => EventAction::Removed(p),
    }
}

/// What the object store does with a change.
#[derive(Debug, Clone)]
pub enum StoreOp {
    NewObject { bucket: String, key: String, file_name: String },
    DeleteObject { bucket: String, key: String, file_name: String },
    /// Give the object `file_name` the name `new_name`.
    SetName { bucket: String, key: String, file_name: String, new_name: String },
    DeleteBucket { bucket: String },
    SetNameBucket { from: String, to: String },
    SetNameKey { bucket: String, from: String, to: String },
    DeleteKey { bucket: String, key: String },
    /// Nothing: a new bucket or key holds no object yet.
    Nothing,
}

/// The object store's operation for a change.
pub fn store_operation(change: Change) -> (op: StoreOp)
    ensures
        match change {
            Change::NewObject { bucket, key, file_name } => op == (StoreOp::NewObject {
                bucket,
                key,
                file_name,
            }),
            Change::DeleteObject { bucket, key, file_name } => op == (StoreOp::DeleteObject {
                bucket,
                key,
                file_name,
            }),
            Change::NameObject { bucket, key, from, to } => op == (StoreOp::SetName {
                bucket,
                key,
                file_name: from,
                new_name: to,
            }),
            Change::DeleteBucket { bucket } => op == (StoreOp::DeleteBucket { bucket }),
            Change::NameBucket { from, to } => op == (StoreOp::SetNameBucket { from, to }),
            Change::NameKey { bucket, from, to } => op == (StoreOp::SetNameKey { bucket, from, to }),
            Change::DeleteKey { bucket, key } => op == (StoreOp::DeleteKey { bucket, key }),
            Change::NewKey { .. } => op is Nothing,
            Change::NewBucket { .. } => op is Nothing,
        },
{
    match change {
        Change::NewObject { bucket, key, file_name } => StoreOp::NewObject { bucket, key, file_name },
        Change::DeleteObject { bucket, key, file_name } => StoreOp::DeleteObject {
            bucket,
            key,
            file_name,
        },
        Change::NameObject { bucket, key, from, to } => StoreOp::SetName {
            bucket,
            key,
            file_name: from,
            new_name: to,
        },
        Change::DeleteBucket { bucket } => StoreOp::DeleteBucket { bucket },
        Change::NameBucket { from, to } => StoreOp::SetNameBucket { from, to },
        Change::NameKey { bucket, from, to } => StoreOp::SetNameKey { bucket, from, to },
        Change::DeleteKey { bucket, key } => StoreOp::DeleteKey { bucket, key },
        Change::NewKey { .. } => StoreOp::Nothing,
        Change::NewBucket { .. } => StoreOp::Nothing,
    }
}

/// What the bucket listener does in its working directory with a change:
/// create a new bucket's directory, rename a renamed one, remove a deleted
/// one (without force); nothing for any other change.
pub fn workdir_action(change: Change) -> (a: Option<ListenAction>)
    ensures
        match change {
            Change::NewBucket { bucket } => a == Some(ListenAction::Create { bucket }),
            Change::NameBucket { from, to } => a == Some(ListenAction::Rename { from, to }),
            Change::DeleteBucket { bucket } => a == Some(ListenAction::Delete { bucket }),
            _ => a is None,
        },
{
    match change {
        Change::NewBucket { bucket } => Some(ListenAction::Create { bucket }),
        Change::NameBucket { from, to } => Some(ListenAction::Rename { from, to }),
        Change::DeleteBucket { bucket } => Some(ListenAction::Delete { bucket }),
        _ => None,
    }
}

/// What the first watcher does with an event, before the directory of a
/// path is resolved: report a new entry at `path`; tell the rename control
/// that `path` was renamed away; decline the wait on `from` and report
/// that the entry `from` is now `to`; report that the entry at `path` was
/// removed.
#[derive(Debug, Clone)]
pub enum FirstAction {
    Ignore,
    New(Vec<u8>),
    WaitRename(Vec<u8>),
    Rename { from: Vec<u8>, to: Vec<u8> },
    Delete(Vec<u8>),
}

/// The first watcher's action for a decision on an event: creations of
/// directories and of files alike are new entries, a whole rename is first
/// declined to the rename control and then reported, a removal is
/// reported.
pub fn first_event_action(decision: WatchDecision) -> (a: FirstAction)
    ensures
        match decision {
            WatchDecision::Ignore => a is Ignore,
            WatchDecision::NewBucketOrKey(p) => a == FirstAction::New(p),
            WatchDecision::NewObject(p) => a == FirstAction::New(p),
            WatchDecision::RenameFrom(p) => a == FirstAction::WaitRename(p),
            WatchDecision::Rename { from, to } => a == (FirstAction::Rename { from, to }),
            WatchDecision::Removed(p) => a == FirstAction::Delete(p),
        },
{
    match decision {
        WatchDecision::Ignore => FirstAction::Ignore,
        WatchDecision::NewBucketOrKey(p) => FirstAction::New(p),
        WatchDecision::NewObject(p) => FirstAction::New(p),
        WatchDecision::RenameFrom(p) => FirstAction::WaitRename(p),
        WatchDecision::Rename { from, to } => FirstAction::Rename { from, to },
        WatchDecision::Removed(p) => FirstAction::Delete(p),
    }
}

/// A step the watcher runs on the paths of an event.
#[derive(Debug, Clone)]
pub enum StepRun {
    NewBucketOrKey(Vec<u8>),
    NewObject(Vec<u8>),
    RenamePath { from: Vec<u8>, to: Vec<u8> },
    RenameObject { from: Vec<u8>, to: Vec<u8> },
}

/// One thing the watcher does for an event, in order.
#[derive(Debug, Clone)]
pub enum WatchEffect {
    /// Tell the rename control that `path` was renamed away.
    RenameFrom(Vec<u8>),
    /// Tell the rename control to stop waiting on `path`.
    Decline(Vec<u8>),
    /// Run the step, and tell the manager its change if it succeeds
    /// (`report_on_success`).
    RunAndReport(StepRun),
}

/// What the watcher does for an action, in order: a whole rename first
/// declines the wait on the old path and then runs its step; a creation
/// runs its step; a path renamed away goes to the rename control; an event
/// that is ignored, or a removal (which the watcher does not handle), does
/// nothing.
pub fn handler_effects(action: EventAction) -> (e: Vec<WatchEffect>)
    ensures
        match action {
            EventAction::Ignore => e@.len() == 0,
            EventAction::Removed(_) => e@.len() == 0,
            EventAction::NewBucketOrKey(p) => e@ == seq![WatchEffect::RunAndReport(StepRun::NewBucketOrKey(p))],
            EventAction::NewObject(p) => e@ == seq![WatchEffect::RunAndReport(StepRun::NewObject(p))],
            EventAction::RenameFrom(p) => e@ == seq![WatchEffect::RenameFrom(p)],
            EventAction::RenamePath { from, to } => {
                &&& e@.len() == 2
                &&& e@[0] matches WatchEffect::Decline(d) && d@ == from@
                &&& e@[1] == WatchEffect::RunAndReport(StepRun::RenamePath { from, to })
            },
            EventAction::RenameObject { from, to } => {
                &&& e@.len() == 2
                &&& e@[0] matches WatchEffect::Decline(d) && d@ == from@
                &&& e@[1] == WatchEffect::RunAndReport(StepRun::RenameObject { from, to })
            },
        },
{
    let mut e: Vec<WatchEffect> = Vec::new();
    match action {
        EventAction::Ignore => {},
        EventAction::Removed(_) => {},
        EventAction::NewBucketOrKey(p) => {
            e.push(WatchEffect::RunAndReport(StepRun::NewBucketOrKey(p)));
        },
        EventAction::NewObject(p) => {
            e.push(WatchEffect::RunAndReport(StepRun::NewObject(p)));
        },
        EventAction::RenameFrom(p) => {
            e.push(WatchEffect::RenameFrom(p));
        },
        EventAction::RenamePath { from, to } => {
            e.push(WatchEffect::Decline(from.clone()));
            e.push(WatchEffect::RunAndReport(StepRun::RenamePath { from, to }));
        },
        EventAction::RenameObject { from, to } => {
            e.push(WatchEffect::Decline(from.clone()));
            e.push(WatchEffect::RunAndReport(StepRun::RenameObject { from, to }));
        },
    }
    e
}

/// The change that the manager hears of after a step: the step's change
/// when it succeeded, nothing when it failed.
pub fn report_on_success(result: Result<Change, ()>) -> (r: Option<Change>)
    ensures
        match result {
            Ok(c) => r == Some(c),
            Err(()) => r is None,
        },
{
    match result {
        Ok(c) => Some(c),
        Err(()) => None,
    }
}

/// A message of the first watcher, in the order it sends them.
#[derive(Debug, Clone)]
pub enum FirstEffect {
    /// Tell the rename control that `path` was renamed away.
    RenameFrom(Vec<u8>),
    /// Tell the rename control to stop waiting on `path`.
    Decline(Vec<u8>),
    /// Report a new entry at `path` (in the directory of its parent).
    ReportNew(Vec<u8>),
    /// Report that the entry `from` is now `to` (in the directory of the
    /// parent of `to`, under the file name of `from`).
    ReportName { from: Vec<u8>, to: Vec<u8> },
    /// Report that the entry at `path` was removed (from the directory of
    /// its parent, by its file name).
    ReportDelete(Vec<u8>),
}

/// The messages of the first watcher for an action, in order: a whole
/// rename is declined to the rename control and then reported; every
/// other action sends one message, or none when ignored.
pub fn first_effects(action: FirstAction) -> (e: Vec<FirstEffect>)
    ensures
        match action {
            FirstAction::Ignore => e@.len() == 0,
            FirstAction::New(p) => e@ == seq![FirstEffect::ReportNew(p)],
            FirstAction::WaitRename(p) => e@ == seq![FirstEffect::RenameFrom(p)],
            FirstAction::Rename { from, to } => {
                &&& e@.len() == 2
                &&& e@[0] matches FirstEffect::Decline(d) && d@ == from@
                &&& e@[1] == (FirstEffect::ReportName { from, to })
            },
            FirstAction::Delete(p) => e@ == seq![FirstEffect::ReportDelete(p)],
        },
{
    let mut e: Vec<FirstEffect> = Vec::new();
    match action {
        FirstAction::Ignore => {},
        FirstAction::New(p) => {
            e.push(FirstEffect::ReportNew(p));
        },
        FirstAction::WaitRename(p) => {
            e.push(FirstEffect::RenameFrom(p));
        },
        FirstAction::Rename { from, to } => {
            e.push(FirstEffect::Decline(from.clone()));
            e.push(FirstEffect::ReportName { from, to });
        },
        FirstAction::Delete(p) => {
            e.push(FirstEffect::ReportDelete(p));
        },
    }
    e
}

/// The receiving end of the watcher's event loop: it hands out each event
/// received until the first error or the end of the channel, and nothing
/// after that.
#[derive(Debug)]
pub struct EventLoop {
    stopped: bool,
}

impl EventLoop {
    pub closed spec fn spec_stopped(&self) -> bool {
        self.stopped
    }

    /// A loop that has received nothing.
    pub fn new() -> (l: Self)
        ensures
            !l.spec_stopped(),
    {
        EventLoop { stopped: false }
    }

    /// Whether the loop is over.
    pub fn stopped(&self) -> (b: bool)
        ensures
            b == self.spec_stopped(),
    {
        self.stopped
    }

    /// Takes what the channel gave: an event is handled, an error or the
    /// end of the channel ends the loop; once over, nothing more is handled.
    pub fn on_received<E, X>(&mut self, item: Option<Result<E, X>>) -> (r: Option<E>)
        ensures
            old(self).spec_stopped() ==> r is None && final(self).spec_stopped(),
            !old(self).spec_stopped() ==> match item {
                Some(Ok(ev)) => r == Some(ev) && !final(self).spec_stopped(),
                _ => r is None && final(self).spec_stopped(),
            },
    {
        if self.stopped {
            return None;
        }
        match item {
            Some(Ok(ev)) => Some(ev),
            _ => {
                self.stopped = true;
                None
            },
        }
    }
}

/// The events a loop hands out from what the channel gives: the events
/// before the first error or end, and none after.
pub open spec fn handled_events<E, X>(items: Seq<Option<Result<E, X>>>) -> Seq<E>
    decreases items.len(),
{
    if items.len() == 0 {
        Seq::empty()
    } else {
        match items[0] {
            Some(Ok(ev)) => seq![ev] + handled_events(items.drop_first()),
            _ => Seq::empty(),
        }
    }
}

/// Feeds `items` to a loop in order and collects what it hands out: the
/// events before the first error or end of the channel, and nothing after.
pub fn handle_in_order<E, X>(items: Vec<Option<Result<E, X>>>) -> (handled: Vec<E>)
    ensures
        handled@ == handled_events(items@),
{
    let mut l = EventLoop::new();
    let mut handled: Vec<E> = Vec::new();
    let mut items = items;
    let ghost all = items@;
    let ghost mut i: int = 0;
    while items.len() > 0
        invariant
            0 <= i <= all.len(),
            items@ == all.subrange(i, all.len() as int),
            !l.spec_stopped() ==> handled@ + handled_events(items@) == handled_events(all),
            l.spec_stopped() ==> handled@ == handled_events(all),
        decreases items.len(),
    {
        let ghost rest = items@;
        let item = items.remove(0);
        assert(item == rest[0]);
        assert(items@ =~= rest.drop_first());
        let was_stopped = l.stopped();
        match l.on_received(item) {
            Some(ev) => {
                handled.push(ev);
                proof {
                    assert(handled@ + handled_events(items@) =~= handled@.drop_last()
                        + handled_events(rest));
                }
            },
            None => {
                proof {
                    if !was_stopped {
                        assert(handled_events(rest) =~= Seq::<E>::empty());
                        assert(handled@.add(handled_events(rest)) =~= handled@);
                    }
                }
            },
        }
        proof {
            i = i + 1;
            assert(items@ =~= all.subrange(i, all.len() as int));
        }
    }
    proof {
        if !l.spec_stopped() {
            assert(handled_events(items@) =~= Seq::<E>::empty());
            assert(handled@ + Seq::<E>::empty() =~= handled@);
        }
    }
    handled
}

/// The rename planned for a verdict goes from the name the entry has to the
/// name the check gives it; a restore is planned only when the check asks
/// for one, and nothing otherwise.
pub proof fn lemma_planned_rename_direction(from: String, to: String, n: String)
    ensures
        spec_planned_rename(NameCheck::Yes { from, to }) == Some(FsRename::Within { from, to }),
        spec_planned_rename(NameCheck::NeedRestore) == Some(FsRename::Restore),
        spec_planned_rename(NameCheck::Not(n)) is None,
        spec_planned_rename(NameCheck::Failed) is None,
        spec_planned_rename(NameCheck::Other) is None,
{
}

/// A new directory is reported by the name it ends up with: a bucket in
/// the root, a key elsewhere (with the bucket and key given).  A directory
/// whose name the check accepts leaves the skip lists as they are; one that
/// the watcher renamed is reported by its new name, which is remembered;
/// without the key, a failed rename or a failed check nothing is reported.
pub proof fn lemma_new_dir_reported(
    n: String,
    from: String,
    to: String,
    bucket: String,
    key: String,
    ok: bool,
    s: SkipSets,
)
    ensures
        new_dir_outcome(NameCheck::Not(n), true, None, None, ok, s) == (
            Ok::<Change, ()>(Change::NewBucket { bucket: n }),
            s,
        ),
        new_dir_outcome(NameCheck::Not(n), false, Some(bucket), Some(key), ok, s) == (
            Ok::<Change, ()>(Change::NewKey { bucket, key }),
            s,
        ),
        new_dir_outcome(NameCheck::Not(n), false, Some(bucket), None, ok, s) == (
            Err::<Change, ()>(()),
            s,
        ),
        new_dir_outcome(NameCheck::Yes { from, to }, true, None, None, true, s) == (
            Ok::<Change, ()>(Change::NewBucket { bucket: to }),
            (s.0.insert(to@), s.1, s.2),
        ),
        new_dir_outcome(NameCheck::Yes { from, to }, false, Some(bucket), Some(key), true, s) == (
            Ok::<Change, ()>(Change::NewKey { bucket: to, key }),
            (s.0, s.1.insert((to@, key@)), s.2),
        ),
        new_dir_outcome(NameCheck::Yes { from, to }, true, None, None, false, s) == (
            Err::<Change, ()>(()),
            s,
        ),
        new_dir_outcome(NameCheck::Failed, true, None, None, ok, s) == (Err::<Change, ()>(()), s),
{
}

/// A new file outside the root is reported as an object of the bucket and
/// key given: by its own name when the check accepts it (the skip lists
/// stay), by its new name when the watcher renamed it (that name is
/// remembered).  A file in the root, a failed rename and a failed check
/// report nothing and change nothing.
pub proof fn lemma_new_object_reported(
    check: NameCheck,
    n: String,
    from: String,
    to: String,
    bucket: String,
    key: String,
    file_name: String,
    ok: bool,
    s: SkipSets,
)
    ensures
        new_object_outcome(NameCheck::Not(n), false, bucket, key, file_name, ok, s) == (
            Ok::<Change, ()>(Change::NewObject { bucket, key, file_name }),
            s,
        ),
        new_object_outcome(NameCheck::Yes { from, to }, false, bucket, key, file_name, true, s) == (
            Ok::<Change, ()>(Change::NewObject { bucket, key, file_name: to }),
            (s.0, s.1, s.2.insert((bucket@, key@, to@))),
        ),
        new_object_outcome(NameCheck::Yes { from, to }, false, bucket, key, file_name, false, s) == (
            Err::<Change, ()>(()),
            s,
        ),
        new_object_outcome(check, true, bucket, key, file_name, ok, s) == (Err::<Change, ()>(()), s),
        new_object_outcome(NameCheck::Failed, false, bucket, key, file_name, ok, s) == (
            Err::<Change, ()>(()),
            s,
        ),
{
}

/// A renamed directory is reported as going from its former name to its
/// new one: a bucket from `from_name` to the new name in the root, a key
/// of the bucket from the key of the former path to the key of the new
/// path elsewhere.  A rename that the watcher made (its new name is in the
/// skip lists) is not reported and is forgotten; one the watcher makes now
/// is reported from the former name to the name it gives, and remembered.
/// A restore, or any other verdict, reports nothing and changes nothing.
pub proof fn lemma_rename_path_reported(
    n: String,
    from: String,
    to: String,
    from_name: String,
    bucket: String,
    key_from: String,
    key_to: String,
    s: SkipSets,
)
    ensures
        !s.0.contains(n@) ==> rename_path_outcome(NameCheck::Not(n), true, from_name, None, None, None, s)
            == (Ok::<Change, ()>(Change::NameBucket { from: from_name, to: n }), s),
        s.0.contains(n@) ==> rename_path_outcome(NameCheck::Not(n), true, from_name, None, None, None, s)
            == (Err::<Change, ()>(()), (s.0.remove(n@), s.1, s.2)),
        !s.1.contains((bucket@, key_to@)) ==> rename_path_outcome(
            NameCheck::Not(n),
            false,
            from_name,
            Some(bucket),
            Some(key_from),
            Some(key_to),
            s,
        ) == (Ok::<Change, ()>(Change::NameKey { bucket, from: key_from, to: key_to }), s),
        s.1.contains((bucket@, key_to@)) ==> rename_path_outcome(
            NameCheck::Not(n),
            false,
            from_name,
            Some(bucket),
            Some(key_from),
            Some(key_to),
            s,
        ) == (Err::<Change, ()>(()), (s.0, s.1.remove((bucket@, key_to@)), s.2)),
        rename_path_outcome(NameCheck::Yes { from, to }, true, from_name, None, None, None, s) == (
            Ok::<Change, ()>(Change::NameBucket { from: from_name, to }),
            (s.0.insert(to@), s.1, s.2),
        ),
        rename_path_outcome(
            NameCheck::Yes { from, to },
            false,
            from_name,
            Some(bucket),
            Some(key_from),
            Some(key_to),
            s,
        ) == (
            Ok::<Change, ()>(Change::NameKey { bucket, from: key_from, to: key_to }),
            (s.0, s.1.insert((bucket@, key_to@)), s.2),
        ),
        rename_path_outcome(NameCheck::NeedRestore, true, from_name, None, None, None, s) == (
            Err::<Change, ()>(()),
            s,
        ),
        rename_path_outcome(NameCheck::Other, false, from_name, Some(bucket), Some(key_from), Some(key_to), s)
            == (Err::<Change, ()>(()), s),
{
}

/// A renamed file is reported as going from its former name to its new
/// one: when the check accepts the new name and the rename is not one the
/// watcher made, from `from_name` to that name; when the watcher renames it
/// now, from the verdict's `from` to its `to`, which is also the name put
/// in the skip lists.  A rename the watcher made is not reported and is
/// forgotten; a failed rename reports nothing and changes nothing.
pub proof fn lemma_rename_object_reported(
    n: String,
    from: String,
    to: String,
    bucket: String,
    key: String,
    from_name: String,
    key_of_parent: String,
    s: SkipSets,
)
    ensures
        !s.2.contains((bucket@, key@, n@)) ==> rename_object_outcome(
            NameCheck::Not(n),
            bucket,
            key,
            from_name,
            key_of_parent,
            true,
            s,
        ) == (Ok::<Change, ()>(Change::NameObject { bucket, key, from: from_name, to: n }), s),
        s.2.contains((bucket@, key@, n@)) ==> rename_object_outcome(
            NameCheck::Not(n),
            bucket,
            key,
            from_name,
            key_of_parent,
            true,
            s,
        ) == (Err::<Change, ()>(()), (s.0, s.1, s.2.remove((bucket@, key@, n@)))),
        rename_object_outcome(NameCheck::Yes { from, to }, bucket, key, from_name, key_of_parent, true, s)
            == (
            Ok::<Change, ()>(Change::NameObject { bucket, key: key_of_parent, from, to }),
            (s.0, s.1, s.2.insert((bucket@, key_of_parent@, to@))),
        ),
        rename_object_outcome(NameCheck::Yes { from, to }, bucket, key, from_name, key_of_parent, false, s)
            == (Err::<Change, ()>(()), s),
{
}

/// The rename the watcher plans on disk and the change it reports agree:
/// the entry is renamed from the verdict's `from` to its `to`, and the
/// change reports the entry by `to` (a renamed file as going from `from` to
/// `to`).
pub proof fn lemma_plan_and_report_agree(
    from: String,
    to: String,
    bucket: String,
    key: String,
    file_name: String,
    from_name: String,
    s: SkipSets,
)
    ensures
        ({
            let plan = spec_planned_rename(NameCheck::Yes { from, to });
            &&& plan == Some(FsRename::Within { from, to })
            &&& new_dir_outcome(NameCheck::Yes { from, to }, true, None, None, true, s).0 == Ok::<
                Change,
                (),
            >(Change::NewBucket { bucket: plan->0->Within_to })
            &&& new_object_outcome(NameCheck::Yes { from, to }, false, bucket, key, file_name, true, s).0
                == Ok::<Change, ()>(Change::NewObject { bucket, key, file_name: plan->0->Within_to })
            &&& rename_object_outcome(NameCheck::Yes { from, to }, bucket, key, from_name, key, true, s).0
                == Ok::<Change, ()>(
                Change::NameObject {
                    bucket,
                    key,
                    from: plan->0->Within_from,
                    to: plan->0->Within_to,
                },
            )
        }),
{
}

} // verus!
