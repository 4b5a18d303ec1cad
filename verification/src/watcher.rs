//! The file system watcher: its small types, and what it does with each
//! event that the notifier reports.  Paths are held as the bytes of the
//! file system path.
use vstd::prelude::*;
use vstd::string::*;

verus! {

/// A failure to set up a watcher.
#[derive(Debug, Clone)]
pub struct WatcherErr(String);

impl WatcherErr {
    pub fn new(detail: &str) -> (e: Self)
        ensures
            e.detail() == detail@,
    {
        WatcherErr(detail.to_owned())
    }

    pub closed spec fn detail(&self) -> Seq<char> {
        self.0@
    }

    /// The text that `Display` shows: the detail.
    pub fn message(&self) -> (s: &str)
        ensures
            s@ == self.detail(),
    {
        self.0.as_str()
    }
}

/// A value that can be taken out of its wrapper.
pub trait TakeOwn<T> {
    fn take(self) -> T;
}

/// A task not started yet, holding what it will run.
#[derive(Debug, Clone)]
pub struct Pending<W>(W);

impl<W> Pending<W> {
    pub fn new(inner: W) -> (p: Self)
        ensures
            p.inner() == inner,
    {
        Pending(inner)
    }

    pub closed spec fn inner(&self) -> W {
        self.0
    }
}

impl<W> TakeOwn<W> for Pending<W> {
    fn take(self) -> (w: W)
        ensures
            w == self.inner(),
    {
        self.0
    }
}

/// A task that runs.
#[derive(Debug, Clone, Copy)]
pub struct Executing;

/// A watcher builder without a path yet.
pub struct EventWatcherNoPath;

/// A watcher builder's path.
pub struct EventWatcherPath(Vec<u8>);

impl EventWatcherPath {
    pub fn new(path: Vec<u8>) -> (p: Self)
        ensures
            p.path() == path@,
    {
        EventWatcherPath(path)
    }

    pub closed spec fn path(&self) -> Seq<u8> {
        self.0@
    }
}

impl TakeOwn<Vec<u8>> for EventWatcherPath {
    fn take(self) -> (p: Vec<u8>)
        ensures
            p@ == self.path(),
    {
        self.0
    }
}

/// A watcher builder without a change sink yet.
pub struct EventWatcherNoNotify;

/// A watcher builder's change sink.
pub struct EventWatcherNotify<T>(T);

impl<T> EventWatcherNotify<T> {
    pub fn new(tx: T) -> (n: Self)
        ensures
            n.sink() == tx,
    {
        EventWatcherNotify(tx)
    }

    pub closed spec fn sink(&self) -> T {
        self.0
    }
}

impl<T> TakeOwn<T> for EventWatcherNotify<T> {
    fn take(self) -> (t: T)
        ensures
            t == self.sink(),
    {
        self.0
    }
}

/// The sending side of a polling watcher's channel.
pub struct PollWatcherNotifyCh<Tx>(Tx);

impl<Tx> PollWatcherNotifyCh<Tx> {
    pub fn new(tx: Tx) -> (c: Self)
        ensures
            c.sender() == tx,
    {
        PollWatcherNotifyCh(tx)
    }

    pub closed spec fn sender(&self) -> Tx {
        self.0
    }
}

/// The maker of watchers.
pub struct WatchFabric;

/// A reading of paths as values of `T`.
pub trait ParserFrom<T> {
    fn parser(&self, from: Vec<u8>) -> T;
}

/// A path that could not be read as a value.
#[derive(Debug, Clone, Copy)]
pub struct ParserError;

/// A failure to validate a name or a path.
#[derive(Debug, Clone)]
pub enum ValidateError {
    RegexError(String),
    PathNotExist(Vec<u8>),
}

/// A question to the manager.
#[derive(Debug, Clone)]
pub enum ManagerAsk {
    WhatIs(Vec<u8>),
}

/// The manager's answer.
#[derive(Debug, Clone, Copy, PartialEq, Eq, Structural)]
pub enum ManagerReply {
    /// No answer is owed (a change was applied).
    NoReply,
    IsDir,
    IsFile,
}

/// The kinds of file system event that the watcher tells apart.
#[derive(Debug, Clone, Copy, PartialEq, Eq, Structural)]
pub enum WatchKind {
    /// A directory was created.
    CreateFolder,
    /// Anything else was created.
    CreateOther,
    /// The first half of a rename: the old path.
    RenameFrom,
    /// A whole rename: the old path, then the new one.
    RenameBoth,
    /// Something was removed.
    Remove,
    /// Any other event.
    Other,
}

/// What the watcher does with an event.
#[derive(Debug, Clone)]
pub enum WatchDecision {
    Ignore,
    /// A bucket or a key appeared at `path`.
    NewBucketOrKey(Vec<u8>),
    /// An object appeared at `path`.
    NewObject(Vec<u8>),
    /// `path` was renamed away (or removed): the rename control waits.
    RenameFrom(Vec<u8>),
    /// `from` was renamed to `to`: the rename control declines `from` and
    /// the rename is handled.
    Rename { from: Vec<u8>, to: Vec<u8> },
    /// `path` was removed.
    Removed(Vec<u8>),
}

pub open spec fn byte_paths(paths: Seq<Vec<u8>>) -> Seq<Seq<u8>> {
    Seq::new(paths.len(), |i: int| paths[i]@)
}

/// The decision of the watcher for an event with `paths`: creations use
/// the last path, a rename uses the last two (old, then new), and an event
/// without the paths it needs is ignored.  Removals are not handled by this
/// watcher.
pub fn watch_decision(kind: WatchKind, paths: Vec<Vec<u8>>) -> (d: WatchDecision)
    requires
        kind != WatchKind::Remove,
        kind == WatchKind::RenameFrom ==> paths@.len() > 0,
    ensures
        ({
            let ps = byte_paths(paths@);
            let n = ps.len();
            &&& kind == WatchKind::CreateFolder ==> if n > 0 {
                d matches WatchDecision::NewBucketOrKey(p) && p@ == ps[n - 1]
            } else {
                d is Ignore
            }
            &&& kind == WatchKind::CreateOther ==> if n > 0 {
                d matches WatchDecision::NewObject(p) && p@ == ps[n - 1]
            } else {
                d is Ignore
            }
            &&& kind == WatchKind::RenameFrom ==> (d matches WatchDecision::RenameFrom(p) && p@
                == ps[n - 1])
            &&& kind == WatchKind::RenameBoth ==> if n >= 2 {
                d matches WatchDecision::Rename { from, to } && from@ == ps[n - 2] && to@ == ps[n
                    - 1]
            } else {
                d is Ignore
            }
            &&& kind == WatchKind::Other ==> (d is Ignore)
        }),
{
    let mut paths = paths;
    let ghost ps = byte_paths(paths@);
    let n = paths.len();
    match kind {
        WatchKind::CreateFolder => match paths.pop() {
            Some(p) => {
                assert(p@ == ps[n - 1]);
                WatchDecision::NewBucketOrKey(p)
            },
            None => WatchDecision::Ignore,
        },
        WatchKind::CreateOther => match paths.pop() {
            Some(p) => {
                assert(p@ == ps[n - 1]);
                WatchDecision::NewObject(p)
            },
            None => WatchDecision::Ignore,
        },
        WatchKind::RenameFrom => match paths.pop() {
            Some(p) => {
                assert(p@ == ps[n - 1]);
                WatchDecision::RenameFrom(p)
            },
            None => WatchDecision::Ignore,
        },
        WatchKind::RenameBoth => {
            if n >= 2 {
                let to = match paths.pop() {
                    Some(p) => p,
                    None => Vec::new(),
                };
                let from = match paths.pop() {
                    Some(p) => p,
                    None => Vec::new(),
                };
                assert(to@ == ps[n - 1]);
                assert(from@ == ps[n - 2]);
                WatchDecision::Rename { from, to }
            } else {
                WatchDecision::Ignore
            }
        },
        _ => WatchDecision::Ignore,
    }
}

/// The decision of the first watcher, which also reports removals: every
/// event it handles names its path last (a rename: old, then new).
pub fn first_watch_decision(kind: WatchKind, paths: Vec<Vec<u8>>) -> (d: WatchDecision)
    requires
        kind == WatchKind::CreateFolder || kind == WatchKind::CreateOther || kind
            == WatchKind::RenameFrom || kind == WatchKind::Remove ==> paths@.len() > 0,
        kind == WatchKind::RenameBoth ==> paths@.len() >= 2,
    ensures
        ({
            let ps = byte_paths(paths@);
            let n = ps.len();
            &&& kind == WatchKind::CreateFolder ==> (d matches WatchDecision::NewBucketOrKey(p)
                && p@ == ps[n - 1])
            &&& kind == WatchKind::CreateOther ==> (d matches WatchDecision::NewObject(p) && p@
                == ps[n - 1])
            &&& kind == WatchKind::RenameFrom ==> (d matches WatchDecision::RenameFrom(p) && p@
                == ps[n - 1])
            &&& kind == WatchKind::RenameBoth ==> (d matches WatchDecision::Rename { from, to }
                && from@ == ps[n - 2] && to@ == ps[n - 1])
            &&& kind == WatchKind::Remove ==> (d matches WatchDecision::Removed(p) && p@ == ps[n
                - 1])
            &&& kind == WatchKind::Other ==> (d is Ignore)
        }),
{
    match kind {
        WatchKind::Remove => {
            let mut paths = paths;
            let ghost ps = byte_paths(paths@);
            let n = paths.len();
            match paths.pop() {
                Some(p) => {
                    assert(p@ == ps[n - 1]);
                    WatchDecision::Removed(p)
                },
                None => WatchDecision::Ignore,
            }
        },
        _ => watch_decision(kind, paths),
    }
}

/// How long, in milliseconds, the rename control waits for the second half
/// of a rename when the builder names no other time.
pub const DEFAULT_RENAME_AWAIT_MS: u64 = 2000;

/// The builder of an event watcher: a path (`P` says whether there is one
/// yet), how long the rename control waits, and a change sink (`CN` says
/// whether there is one yet).
pub struct EventWatcherBuilder<P, CN> {
    path: P,
    await_ms: Option<u64>,
    change_notify: CN,
}

impl Default for EventWatcherBuilder<EventWatcherNoPath, EventWatcherNoNotify> {
    /// A builder with nothing set.
    fn default() -> (b: Self)
        ensures
            b.await_setting() is None,
    {
        EventWatcherBuilder {
            path: EventWatcherNoPath,
            await_ms: None,
            change_notify: EventWatcherNoNotify,
        }
    }
}

impl<P, CN> EventWatcherBuilder<P, CN> {
    pub closed spec fn path_part(&self) -> P {
        self.path
    }

    pub closed spec fn await_setting(&self) -> Option<u64> {
        self.await_ms
    }

    pub closed spec fn notify_part(&self) -> CN {
        self.change_notify
    }

    /// Sets how long the rename control waits, in milliseconds.
    pub fn rename_control_await(self, await_ms: u64) -> (b: Self)
        ensures
            b.await_setting() == Some(await_ms),
            b.path_part() == self.path_part(),
            b.notify_part() == self.notify_part(),
    {
        EventWatcherBuilder { path: self.path, await_ms: Some(await_ms), change_notify: self.change_notify }
    }
}

impl<P> EventWatcherBuilder<P, EventWatcherNoNotify> {
    /// Sets the sink that the watcher sends its changes to.
    pub fn change_notify<Tx>(self, tx: Tx) -> (b: EventWatcherBuilder<P, EventWatcherNotify<Tx>>)
        ensures
            b.notify_part().sink() == tx,
            b.path_part() == self.path_part(),
            b.await_setting() == self.await_setting(),
    {
        EventWatcherBuilder {
            path: self.path,
            await_ms: self.await_ms,
            change_notify: EventWatcherNotify::new(tx),
        }
    }
}

impl<CN> EventWatcherBuilder<EventWatcherNoPath, CN> {
    /// Sets the watched path; `absolute` is the path made absolute, which
    /// the caller does against the file system.
    pub fn path(self, absolute: Vec<u8>) -> (b: EventWatcherBuilder<EventWatcherPath, CN>)
        ensures
            b.path_part().path() == absolute@,
            b.await_setting() == self.await_setting(),
            b.notify_part() == self.notify_part(),
    {
        EventWatcherBuilder {
            path: EventWatcherPath::new(absolute),
            await_ms: self.await_ms,
            change_notify: self.change_notify,
        }
    }
}

impl<Tx> EventWatcherBuilder<EventWatcherPath, EventWatcherNotify<Tx>> {
    /// What a watcher is built from: the path, the rename control's wait
    /// (two seconds unless set), and the change sink.
    pub fn settings(self) -> (r: (Vec<u8>, u64, Tx))
        ensures
            r.0@ == self.path_part().path(),
            r.1 == match self.await_setting() {
                Some(ms) => ms,
                None => DEFAULT_RENAME_AWAIT_MS,
            },
            r.2 == self.notify_part().sink(),
    {
        let path = self.path.take();
        let await_ms: u64 = match self.await_ms {
            Some(ms) => ms,
            None => DEFAULT_RENAME_AWAIT_MS,
        };
        let tx = self.change_notify.take();
        (path, await_ms, tx)
    }
}

/// A watcher that has not been started, and the sender that reaches it.
pub struct Watcher<W, Tx> {
    inner: Option<W>,
    tx: Tx,
}

impl<W, Tx> Watcher<W, Tx> {
    pub closed spec fn held(&self) -> Option<W> {
        self.inner
    }

    pub closed spec fn sender(&self) -> Tx {
        self.tx
    }

    /// Holds `watcher`; `tx` is the sender that the watcher hands out.
    pub fn new(watcher: W, tx: Tx) -> (w: Self)
        ensures
            w.held() == Some(watcher),
            w.sender() == tx,
    {
        Watcher { inner: Some(watcher), tx }
    }

    pub fn get_sender(&self) -> (t: &Tx)
        ensures
            *t == self.sender(),
    {
        &self.tx
    }

    /// Takes the watcher out to start it.  It can be taken once: after a
    /// call the watcher is gone, and a later call fails.
    pub fn into_inner(&mut self) -> (r: Result<W, WatcherErr>)
        ensures
            old(self).held() matches Some(w) ==> r == Ok::<W, WatcherErr>(w),
            old(self).held() is None ==> (r matches Err(e) && e.detail() == "Watcher not defined"@),
            final(self).held() is None,
            final(self).sender() == old(self).sender(),
    {
        let taken = self.inner.take();
        match taken {
            Some(w) => Ok(w),
            None => Err(WatcherErr::new("Watcher not defined")),
        }
    }
}

/// The root of the watched tree as clients see it, and the real path it
/// stands for on disk.
#[derive(Debug, Default)]
pub struct ForDir<T> {
    root: T,
    real_path: T,
}

impl<T> ForDir<T> {
    pub closed spec fn root_part(&self) -> T {
        self.root
    }

    pub closed spec fn real_path_part(&self) -> T {
        self.real_path
    }
}

impl ForDir<String> {
    pub fn new(root: String, real_path: String) -> (d: Self)
        ensures
            d.root_part() == root,
            d.real_path_part() == real_path,
    {
        ForDir { root, real_path }
    }

    /// The same pair, borrowed.
    pub fn get(&self) -> (d: ForDir<&str>)
        ensures
            d.root_part()@ == self.root_part()@,
            d.real_path_part()@ == self.real_path_part()@,
    {
        ForDir { root: self.root.as_str(), real_path: self.real_path.as_str() }
    }
}

/// A path that a `ForDir` could not resolve.
#[derive(Debug, Clone)]
pub enum ForDirErr {
    ParentNotFound(String),
    FileNotFound(String),
}

impl ForDirErr {
    pub open spec fn text(self) -> Seq<char> {
        match self {
            ForDirErr::ParentNotFound(p) => " Parent \""@ + p@ + "\" not found"@,
            ForDirErr::FileNotFound(p) => "File \""@ + p@ + "\" not found"@,
        }
    }

    /// The text that `Display` shows, with the path in quotes.
    pub fn message(&self) -> (s: String)
        ensures
            s@ == self.text(),
    {
        match self {
            ForDirErr::ParentNotFound(p) => {
                let head = " Parent \"".to_string();
                let with_path = head.concat(p.as_str());
                with_path.concat("\" not found")
            },
            ForDirErr::FileNotFound(p) => {
                let head = "File \"".to_string();
                let with_path = head.concat(p.as_str());
                with_path.concat("\" not found")
            },
        }
    }
}

} // verus!
