//! Changes that the watcher makes itself, remembered so that the events
//! they cause are skipped once.
//!
//! Buckets, keys and file names are held as text.
use crate::text::str_eq;
use vstd::prelude::*;
use vstd::string::*;

verus! {

/// The views of a list of names.
pub open spec fn name_views(v: Seq<String>) -> Seq<Seq<char>> {
    Seq::new(v.len(), |i: int| v[i]@)
}

/// Whether two lists of names are equal.
pub fn names_eq(a: &Vec<String>, b: &Vec<String>) -> (r: bool)
    ensures
        r == (name_views(a@) == name_views(b@)),
{
    if a.len() != b.len() {
        assert(name_views(a@).len() != name_views(b@).len());
        return false;
    }
    let mut i: usize = 0;
    while i < a.len()
        invariant
            a@.len() == b@.len(),
            i <= a@.len(),
            forall|j: int| 0 <= j < i ==> a@[j]@ == b@[j]@,
        decreases a.len() - i,
    {
        if !str_eq(a[i].as_str(), b[i].as_str()) {
            assert(name_views(a@)[i as int] != name_views(b@)[i as int]);
            return false;
        }
        i += 1;
    }
    assert(name_views(a@) =~= name_views(b@));
    true
}

/// A set of name tuples (a bucket; a bucket and a key; a bucket, a key and
/// a file name).
#[derive(Debug, Default)]
pub struct NameSet {
    entries: Vec<Vec<String>>,
}

impl NameSet {
    pub closed spec fn entry_views(&self) -> Seq<Seq<Seq<char>>> {
        Seq::new(self.entries@.len(), |i: int| name_views(self.entries@[i]@))
    }

    /// The tuples in the set.
    pub closed spec fn view(&self) -> Set<Seq<Seq<char>>> {
        self.entry_views().to_set()
    }

    /// No tuple is held twice.
    pub closed spec fn wf(&self) -> bool {
        self.entry_views().no_duplicates()
    }

    pub fn new() -> (s: NameSet)
        ensures
            s.wf(),
            s.view() == Set::<Seq<Seq<char>>>::empty(),
    {
        let s = NameSet { entries: Vec::new() };
        assert(s.entry_views().to_set() =~= Set::<Seq<Seq<char>>>::empty());
        s
    }

    fn find(&self, name: &Vec<String>) -> (r: Option<usize>)
        ensures
            match r {
                Some(i) => i < self.entries@.len() && self.entry_views()[i as int] == name_views(
                    name@,
                ),
                None => !self.entry_views().contains(name_views(name@)),
            },
    {
        let mut i: usize = 0;
        while i < self.entries.len()
            invariant
                i <= self.entries@.len(),
                forall|j: int| 0 <= j < i ==> self.entry_views()[j] != name_views(name@),
            decreases self.entries.len() - i,
        {
            if names_eq(&self.entries[i], name) {
                return Some(i);
            }
            i += 1;
        }
        None
    }

    /// The tuples, each once, in no particular order.
    pub fn items(&self) -> (v: &Vec<Vec<String>>)
        ensures
            Seq::new(v@.len(), |i: int| name_views(v@[i]@)) == self.entry_views(),
            self.entry_views().to_set() == self.view(),
    {
        &self.entries
    }

    /// Whether the set holds `name`.
    pub fn contains(&self, name: &Vec<String>) -> (b: bool)
        ensures
            b == self.view().contains(name_views(name@)),
    {
        match self.find(name) {
            Some(i) => {
                assert(self.entry_views().contains(name_views(name@)));
                true
            },
            None => false,
        }
    }

    /// Adds `name`; true when it was not there before.
    pub fn insert(&mut self, name: Vec<String>) -> (added: bool)
        requires
            old(self).wf(),
        ensures
            final(self).wf(),
            final(self).view() == old(self).view().insert(name_views(name@)),
            added == !old(self).view().contains(name_views(name@)),
    {
        let ghost nv = name_views(name@);
        match self.find(&name) {
            Some(i) => {
                assert(self.entry_views().contains(nv));
                assert(self.view().insert(nv) =~= self.view());
                false
            },
            None => {
                let ghost before = self.entry_views();
                self.entries.push(name);
                assert(self.entry_views() =~= before.push(nv));
                proof {
                    assert(self.entry_views().to_set() =~= before.to_set().insert(nv)) by {
                        assert forall|x| self.entry_views().to_set().contains(x) implies before.to_set().insert(
                            nv,
                        ).contains(x) by {
                            let j = choose|j: int| 0 <= j < self.entry_views().len() && self.entry_views()[j] == x;
                            if j < before.len() {
                                assert(before[j] == x);
                            }
                        }
                        assert forall|x| before.to_set().insert(nv).contains(x) implies self.entry_views().to_set().contains(
                            x,
                        ) by {
                            if x == nv {
                                assert(self.entry_views()[before.len() as int] == nv);
                            } else {
                                let j = choose|j: int| 0 <= j < before.len() && before[j] == x;
                                assert(self.entry_views()[j] == x);
                            }
                        }
                    }
                }
                true
            },
        }
    }

    /// Removes `name`; true when it was there.
    pub fn remove(&mut self, name: &Vec<String>) -> (removed: bool)
        requires
            old(self).wf(),
        ensures
            final(self).wf(),
            final(self).view() == old(self).view().remove(name_views(name@)),
            removed == old(self).view().contains(name_views(name@)),
    {
        let ghost nv = name_views(name@);
        match self.find(name) {
            Some(i) => {
                let ghost before = self.entry_views();
                assert(before.contains(nv));
                self.entries.remove(i);
                assert(self.entry_views() =~= before.remove(i as int));
                proof {
                    assert(self.entry_views().to_set() =~= before.to_set().remove(nv)) by {
                        assert forall|x| self.entry_views().to_set().contains(x) implies before.to_set().remove(
                            nv,
                        ).contains(x) by {
                            let j = choose|j: int| 0 <= j < self.entry_views().len() && self.entry_views()[j] == x;
                            if j < i {
                                assert(before[j] == x);
                            } else {
                                assert(before[j + 1] == x);
                            }
                        }
                        assert forall|x| before.to_set().remove(nv).contains(x) implies self.entry_views().to_set().contains(
                            x,
                        ) by {
                            let j = choose|j: int| 0 <= j < before.len() && before[j] == x;
                            if j < i {
                                assert(self.entry_views()[j] == x);
                            } else {
                                assert(j != i);
                                assert(self.entry_views()[j - 1] == x);
                            }
                        }
                    }
                }
                true
            },
            None => {
                assert(self.view().remove(nv) =~= self.view());
                false
            },
        }
    }
}

/// Buckets whose next event is skipped.
#[derive(Debug, Default)]
pub struct BucketTracker(NameSet);

impl BucketTracker {
    pub closed spec fn view(&self) -> Set<Seq<char>> {
        Set::new(|b: Seq<char>| self.0.view().contains(seq![b]))
    }

    pub closed spec fn wf(&self) -> bool {
        self.0.wf()
    }

    pub fn new() -> (t: Self)
        ensures
            t.wf(),
            t.view() == Set::<Seq<char>>::empty(),
    {
        let t = BucketTracker(NameSet::new());
        assert(t.view() =~= Set::<Seq<char>>::empty());
        t
    }

    /// Remembers `bucket`; true when it was not remembered yet.
    pub fn to_skip(&mut self, bucket: String) -> (added: bool)
        requires
            old(self).wf(),
        ensures
            final(self).wf(),
            final(self).view() == old(self).view().insert(bucket@),
            added == !old(self).view().contains(bucket@),
    {
        let ghost b = bucket@;
        let name = vec![bucket];
        assert(name_views(name@) =~= seq![b]);
        let added = self.0.insert(name);
        proof {
            assert forall|x: Seq<char>| self.view().contains(x) == old(self).view().insert(b).contains(x) by {
                if x != b {
                    assert(seq![x] != seq![b]) by {
                        assert(seq![x][0] != seq![b][0]);
                    }
                }
            }
            assert(self.view() =~= old(self).view().insert(b));
        }
        added
    }

    /// Forgets `bucket`; true when it was remembered, which means that the
    /// event is skipped.
    pub fn skipped(&mut self, bucket: &String) -> (was: bool)
        requires
            old(self).wf(),
        ensures
            final(self).wf(),
            final(self).view() == old(self).view().remove(bucket@),
            was == old(self).view().contains(bucket@),
    {
        let ghost b = bucket@;
        let name = vec![bucket.clone()];
        assert(name_views(name@) =~= seq![b]);
        let was = self.0.remove(&name);
        proof {
            assert forall|x: Seq<char>| self.view().contains(x) == old(self).view().remove(b).contains(x) by {
                if x != b {
                    assert(seq![x] != seq![b]) by {
                        assert(seq![x][0] != seq![b][0]);
                    }
                }
            }
            assert(self.view() =~= old(self).view().remove(b));
        }
        was
    }
}

/// Keys, within their bucket, whose next event is skipped.
#[derive(Debug, Default)]
pub struct KeyTracker(NameSet);

impl KeyTracker {
    pub closed spec fn view(&self) -> Set<(Seq<char>, Seq<char>)> {
        Set::new(|p: (Seq<char>, Seq<char>)| self.0.view().contains(seq![p.0, p.1]))
    }

    pub closed spec fn wf(&self) -> bool {
        self.0.wf()
    }

    pub fn new() -> (t: Self)
        ensures
            t.wf(),
            t.view() == Set::<(Seq<char>, Seq<char>)>::empty(),
    {
        let t = KeyTracker(NameSet::new());
        assert(t.view() =~= Set::<(Seq<char>, Seq<char>)>::empty());
        t
    }

    /// Remembers `key` of `bucket`; true when it was not remembered yet.
    pub fn to_skip(&mut self, bucket: String, key: String) -> (added: bool)
        requires
            old(self).wf(),
        ensures
            final(self).wf(),
            final(self).view() == old(self).view().insert((bucket@, key@)),
            added == !old(self).view().contains((bucket@, key@)),
    {
        let ghost p = (bucket@, key@);
        let name = vec![bucket, key];
        assert(name_views(name@) =~= seq![p.0, p.1]);
        let added = self.0.insert(name);
        proof {
            assert forall|x: (Seq<char>, Seq<char>)| self.view().contains(x) == old(self).view().insert(p).contains(x) by {
                if x != p {
                    assert(seq![x.0, x.1] != seq![p.0, p.1]) by {
                        if x.0 != p.0 {
                            assert(seq![x.0, x.1][0] != seq![p.0, p.1][0]);
                        } else {
                            assert(seq![x.0, x.1][1] != seq![p.0, p.1][1]);
                        }
                    }
                }
            }
            assert(self.view() =~= old(self).view().insert(p));
        }
        added
    }

    /// Forgets `key` of `bucket`; true when it was remembered.
    pub fn skipped(&mut self, bucket: &String, key: &String) -> (was: bool)
        requires
            old(self).wf(),
        ensures
            final(self).wf(),
            final(self).view() == old(self).view().remove((bucket@, key@)),
            was == old(self).view().contains((bucket@, key@)),
    {
        let ghost p = (bucket@, key@);
        let name = vec![bucket.clone(), key.clone()];
        assert(name_views(name@) =~= seq![p.0, p.1]);
        let was = self.0.remove(&name);
        proof {
            assert forall|x: (Seq<char>, Seq<char>)| self.view().contains(x) == old(self).view().remove(p).contains(x) by {
                if x != p {
                    assert(seq![x.0, x.1] != seq![p.0, p.1]) by {
                        if x.0 != p.0 {
                            assert(seq![x.0, x.1][0] != seq![p.0, p.1][0]);
                        } else {
                            assert(seq![x.0, x.1][1] != seq![p.0, p.1][1]);
                        }
                    }
                }
            }
            assert(self.view() =~= old(self).view().remove(p));
        }
        was
    }
}

/// Files, within their bucket and key, whose next event is skipped.
#[derive(Debug, Default)]
pub struct ObjectTracker(NameSet);

impl ObjectTracker {
    pub closed spec fn view(&self) -> Set<(Seq<char>, Seq<char>, Seq<char>)> {
        Set::new(|p: (Seq<char>, Seq<char>, Seq<char>)| self.0.view().contains(seq![p.0, p.1, p.2]))
    }

    pub closed spec fn wf(&self) -> bool {
        self.0.wf()
    }

    pub fn new() -> (t: Self)
        ensures
            t.wf(),
            t.view() == Set::<(Seq<char>, Seq<char>, Seq<char>)>::empty(),
    {
        let t = ObjectTracker(NameSet::new());
        assert(t.view() =~= Set::<(Seq<char>, Seq<char>, Seq<char>)>::empty());
        t
    }

    /// Remembers `file_name` under `key` of `bucket`; true when it was not
    /// remembered yet.
    pub fn to_skip(&mut self, bucket: String, key: String, file_name: String) -> (added: bool)
        requires
            old(self).wf(),
        ensures
            final(self).wf(),
            final(self).view() == old(self).view().insert((bucket@, key@, file_name@)),
            added == !old(self).view().contains((bucket@, key@, file_name@)),
    {
        let ghost p = (bucket@, key@, file_name@);
        let name = vec![bucket, key, file_name];
        assert(name_views(name@) =~= seq![p.0, p.1, p.2]);
        let added = self.0.insert(name);
        proof {
            assert forall|x: (Seq<char>, Seq<char>, Seq<char>)| self.view().contains(x) == old(self).view().insert(p).contains(x) by {
                if x != p {
                    assert(seq![x.0, x.1, x.2] != seq![p.0, p.1, p.2]) by {
                        if x.0 != p.0 {
                            assert(seq![x.0, x.1, x.2][0] != seq![p.0, p.1, p.2][0]);
                        } else if x.1 != p.1 {
                            assert(seq![x.0, x.1, x.2][1] != seq![p.0, p.1, p.2][1]);
                        } else {
                            assert(seq![x.0, x.1, x.2][2] != seq![p.0, p.1, p.2][2]);
                        }
                    }
                }
            }
            assert(self.view() =~= old(self).view().insert(p));
        }
        added
    }

    /// Forgets `file_name` under `key` of `bucket`; true when it was
    /// remembered.
    pub fn skipped(&mut self, bucket: &String, key: &String, file_name: &str) -> (was: bool)
        requires
            old(self).wf(),
        ensures
            final(self).wf(),
            final(self).view() == old(self).view().remove((bucket@, key@, file_name@)),
            was == old(self).view().contains((bucket@, key@, file_name@)),
    {
        let ghost p = (bucket@, key@, file_name@);
        let name = vec![bucket.clone(), key.clone(), file_name.to_owned()];
        assert(name_views(name@) =~= seq![p.0, p.1, p.2]);
        let was = self.0.remove(&name);
        proof {
            assert forall|x: (Seq<char>, Seq<char>, Seq<char>)| self.view().contains(x) == old(self).view().remove(p).contains(x) by {
                if x != p {
                    assert(seq![x.0, x.1, x.2] != seq![p.0, p.1, p.2]) by {
                        if x.0 != p.0 {
                            assert(seq![x.0, x.1, x.2][0] != seq![p.0, p.1, p.2][0]);
                        } else if x.1 != p.1 {
                            assert(seq![x.0, x.1, x.2][1] != seq![p.0, p.1, p.2][1]);
                        } else {
                            assert(seq![x.0, x.1, x.2][2] != seq![p.0, p.1, p.2][2]);
                        }
                    }
                }
            }
            assert(self.view() =~= old(self).view().remove(p));
        }
        was
    }
}

/// An entry whose next event the watcher skips: a bucket, a key of a
/// bucket, or an object under a key.
#[derive(Debug, Clone)]
pub enum Skip {
    Bucket { bucket: String },
    Key { bucket: String, key: String },
    Object { bucket: String, key: String, file_name: String },
}

/// The three trackers that the watcher consults.
#[derive(Debug, Default)]
pub struct InnerSkipper {
    bucket_tracker: BucketTracker,
    key_tracker: KeyTracker,
    object_tracker: ObjectTracker,
}

/// The skip lists of the watcher.
#[derive(Debug, Default)]
pub struct Skipper(InnerSkipper);

impl Skipper {
    pub closed spec fn wf(&self) -> bool {
        self.0.bucket_tracker.wf() && self.0.key_tracker.wf() && self.0.object_tracker.wf()
    }

    pub closed spec fn bt(&self) -> BucketTracker {
        self.0.bucket_tracker
    }

    pub closed spec fn kt(&self) -> KeyTracker {
        self.0.key_tracker
    }

    pub closed spec fn ot(&self) -> ObjectTracker {
        self.0.object_tracker
    }

    pub closed spec fn buckets(&self) -> Set<Seq<char>> {
        self.0.bucket_tracker.view()
    }

    pub closed spec fn keys(&self) -> Set<(Seq<char>, Seq<char>)> {
        self.0.key_tracker.view()
    }

    pub closed spec fn objects(&self) -> Set<(Seq<char>, Seq<char>, Seq<char>)> {
        self.0.object_tracker.view()
    }

    /// Empty skip lists.
    pub fn new() -> (s: Self)
        ensures
            s.wf(),
            s.buckets() == Set::<Seq<char>>::empty(),
            s.keys() == Set::<(Seq<char>, Seq<char>)>::empty(),
            s.objects() == Set::<(Seq<char>, Seq<char>, Seq<char>)>::empty(),
    {
        Skipper(
            InnerSkipper {
                bucket_tracker: BucketTracker::new(),
                key_tracker: KeyTracker::new(),
                object_tracker: ObjectTracker::new(),
            },
        )
    }

    /// Remembers `skip` in the tracker of its kind; the other trackers stay.
    pub fn to_skip(&mut self, skip: Skip)
        requires
            old(self).wf(),
        ensures
            final(self).wf(),
            match skip {
                Skip::Bucket { bucket } => {
                    &&& final(self).buckets() == old(self).buckets().insert(bucket@)
                    &&& final(self).keys() == old(self).keys()
                    &&& final(self).objects() == old(self).objects()
                },
                Skip::Key { bucket, key } => {
                    &&& final(self).buckets() == old(self).buckets()
                    &&& final(self).keys() == old(self).keys().insert((bucket@, key@))
                    &&& final(self).objects() == old(self).objects()
                },
                Skip::Object { bucket, key, file_name } => {
                    &&& final(self).buckets() == old(self).buckets()
                    &&& final(self).keys() == old(self).keys()
                    &&& final(self).objects() == old(self).objects().insert(
                        (bucket@, key@, file_name@),
                    )
                },
            },
    {
        match skip {
            Skip::Bucket { bucket } => {
                self.0.bucket_tracker.to_skip(bucket);
            },
            Skip::Key { bucket, key } => {
                self.0.key_tracker.to_skip(bucket, key);
            },
            Skip::Object { bucket, key, file_name } => {
                self.0.object_tracker.to_skip(bucket, key, file_name);
            },
        }
    }

    /// Whether `skip` was remembered; if so it is forgotten, so that it is
    /// skipped once.
    pub fn skipped(&mut self, skip: &Skip) -> (was: bool)
        requires
            old(self).wf(),
        ensures
            final(self).wf(),
            match *skip {
                Skip::Bucket { bucket } => {
                    &&& was == old(self).buckets().contains(bucket@)
                    &&& final(self).buckets() == old(self).buckets().remove(bucket@)
                    &&& final(self).keys() == old(self).keys()
                    &&& final(self).objects() == old(self).objects()
                },
                Skip::Key { bucket, key } => {
                    &&& was == old(self).keys().contains((bucket@, key@))
                    &&& final(self).buckets() == old(self).buckets()
                    &&& final(self).keys() == old(self).keys().remove((bucket@, key@))
                    &&& final(self).objects() == old(self).objects()
                },
                Skip::Object { bucket, key, file_name } => {
                    &&& was == old(self).objects().contains((bucket@, key@, file_name@))
                    &&& final(self).buckets() == old(self).buckets()
                    &&& final(self).keys() == old(self).keys()
                    &&& final(self).objects() == old(self).objects().remove(
                        (bucket@, key@, file_name@),
                    )
                },
            },
    {
        match skip {
            Skip::Bucket { bucket } => self.0.bucket_tracker.skipped(bucket),
            Skip::Key { bucket, key } => self.0.key_tracker.skipped(bucket, key),
            Skip::Object { bucket, key, file_name } => self.0.object_tracker.skipped(
                bucket,
                key,
                file_name.as_str(),
            ),
        }
    }

    pub fn bucket_tracker(&mut self) -> (t: &mut BucketTracker)
        ensures
            *t == old(self).bt(),
            final(self).kt() == old(self).kt(),
            final(self).ot() == old(self).ot(),
            final(self).bt() == *final(t),
    {
        &mut self.0.bucket_tracker
    }

    pub fn key_tracker(&mut self) -> (t: &mut KeyTracker)
        ensures
            *t == old(self).kt(),
            final(self).bt() == old(self).bt(),
            final(self).ot() == old(self).ot(),
            final(self).kt() == *final(t),
    {
        &mut self.0.key_tracker
    }

    pub fn object_tracker(&mut self) -> (t: &mut ObjectTracker)
        ensures
            *t == old(self).ot(),
            final(self).bt() == old(self).bt(),
            final(self).kt() == old(self).kt(),
            final(self).ot() == *final(t),
    {
        &mut self.0.object_tracker
    }
}

/// An entry remembered to be skipped is skipped exactly once: right after
/// it is remembered, asking for it finds it, and asking again does not.
pub proof fn lemma_skipped_once<A>(before: Set<A>, x: A)
    ensures
        before.insert(x).contains(x),
        !before.insert(x).remove(x).contains(x),
        before.insert(x).remove(x) == before.remove(x),
{
    assert(before.insert(x).remove(x) =~= before.remove(x));
}

/// The skip list of the first watcher: a stack of renamed buckets, and per
/// bucket a stack of renamed keys.
#[derive(Debug, Default)]
pub struct ToSkip {
    buckets: Vec<String>,
    keys: Vec<(String, Vec<String>)>,
}

impl ToSkip {
    pub closed spec fn entry_names(&self) -> Seq<Seq<char>> {
        Seq::new(self.keys@.len(), |i: int| self.keys@[i].0@)
    }

    pub closed spec fn entry_keys(&self) -> Seq<Seq<Seq<char>>> {
        Seq::new(self.keys@.len(), |i: int| name_views(self.keys@[i].1@))
    }

    /// Each bucket has at most one non-empty stack of keys.
    pub closed spec fn wf(&self) -> bool {
        &&& self.entry_names().no_duplicates()
        &&& forall|i: int| 0 <= i < self.keys@.len() ==> #[trigger] self.keys@[i].1@.len() > 0
    }

    /// The remembered buckets, oldest first.
    pub closed spec fn bucket_stack(&self) -> Seq<Seq<char>> {
        name_views(self.buckets@)
    }

    /// The remembered keys of `bucket`, oldest first.
    pub closed spec fn keys_of(&self, bucket: Seq<char>) -> Seq<Seq<char>> {
        if exists|i: int| 0 <= i < self.entry_names().len() && self.entry_names()[i] == bucket {
            let i = choose|i: int| 0 <= i < self.entry_names().len() && self.entry_names()[i] == bucket;
            self.entry_keys()[i]
        } else {
            Seq::empty()
        }
    }

    proof fn lemma_keys_at(&self, i: int)
        requires
            self.wf(),
            0 <= i < self.keys@.len(),
        ensures
            self.keys_of(self.keys@[i].0@) == name_views(self.keys@[i].1@),
    {
        let b = self.keys@[i].0@;
        assert(self.entry_names()[i] == b);
        let j = choose|j: int| 0 <= j < self.entry_names().len() && self.entry_names()[j] == b;
        if j != i {
            assert(self.entry_names()[j] == self.entry_names()[i]);
        }
    }

    proof fn lemma_keys_absent(&self, bucket: Seq<char>)
        requires
            forall|i: int| 0 <= i < self.keys@.len() ==> self.keys@[i].0@ != bucket,
        ensures
            self.keys_of(bucket) == Seq::<Seq<char>>::empty(),
    {
        if exists|i: int| 0 <= i < self.entry_names().len() && self.entry_names()[i] == bucket {
            let i = choose|i: int| 0 <= i < self.entry_names().len() && self.entry_names()[i] == bucket;
            assert(self.keys@[i].0@ == bucket);
        }
    }

    /// Nothing remembered.
    pub fn new() -> (s: Self)
        ensures
            s.wf(),
            s.bucket_stack() == Seq::<Seq<char>>::empty(),
            forall|b: Seq<char>| s.keys_of(b) == Seq::<Seq<char>>::empty(),
    {
        let s = ToSkip { buckets: Vec::new(), keys: Vec::new() };
        assert(s.bucket_stack() =~= Seq::<Seq<char>>::empty());
        assert forall|b: Seq<char>| s.keys_of(b) == Seq::<Seq<char>>::empty() by {
            s.lemma_keys_absent(b);
        }
        s
    }

    fn find_bucket(&self, bucket: &str) -> (r: Option<usize>)
        ensures
            match r {
                Some(i) => i < self.keys@.len() && self.keys@[i as int].0@ == bucket@,
                None => forall|i: int| 0 <= i < self.keys@.len() ==> self.keys@[i].0@ != bucket@,
            },
    {
        let mut i: usize = 0;
        while i < self.keys.len()
            invariant
                i <= self.keys@.len(),
                forall|j: int| 0 <= j < i ==> self.keys@[j].0@ != bucket@,
            decreases self.keys.len() - i,
        {
            if str_eq(self.keys[i].0.as_str(), bucket) {
                return Some(i);
            }
            i += 1;
        }
        None
    }

    /// Remembers that the next event of `bucket` is skipped.
    pub fn push_bucket(&mut self, bucket: String)
        requires
            old(self).wf(),
        ensures
            final(self).wf(),
            final(self).bucket_stack() == old(self).bucket_stack().push(bucket@),
            forall|b: Seq<char>| #[trigger] final(self).keys_of(b) == old(self).keys_of(b),
    {
        self.buckets.push(bucket);
        assert(self.bucket_stack() =~= old(self).bucket_stack().push(bucket@));
        assert(self.entry_names() =~= old(self).entry_names());
        assert(self.entry_keys() =~= old(self).entry_keys());
    }

    /// Whether the last remembered bucket is `bucket`; if so it is
    /// forgotten.
    pub fn pop_bucket(&mut self, bucket: &String) -> (hit: bool)
        requires
            old(self).wf(),
        ensures
            final(self).wf(),
            hit == (old(self).bucket_stack().len() > 0 && old(self).bucket_stack().last()
                == bucket@),
            hit ==> final(self).bucket_stack() == old(self).bucket_stack().drop_last(),
            !hit ==> final(self).bucket_stack() == old(self).bucket_stack(),
            forall|b: Seq<char>| #[trigger] final(self).keys_of(b) == old(self).keys_of(b),
    {
        let n = self.buckets.len();
        if n > 0 && str_eq(self.buckets[n - 1].as_str(), bucket.as_str()) {
            self.buckets.pop();
            assert(self.bucket_stack() =~= old(self).bucket_stack().drop_last());
            assert(self.entry_names() =~= old(self).entry_names());
            assert(self.entry_keys() =~= old(self).entry_keys());
            true
        } else {
            false
        }
    }

    /// Remembers that the next event of `key` in `bucket` is skipped.
    pub fn push_key(&mut self, bucket: String, key: String)
        requires
            old(self).wf(),
        ensures
            final(self).wf(),
            final(self).keys_of(bucket@) == old(self).keys_of(bucket@).push(key@),
            forall|b: Seq<char>| b != bucket@ ==> #[trigger] final(self).keys_of(b) == old(self).keys_of(b),
            final(self).bucket_stack() == old(self).bucket_stack(),
    {
        let ghost bv = bucket@;
        match self.find_bucket(bucket.as_str()) {
            Some(i) => {
                proof {
                    old(self).lemma_keys_at(i as int);
                }
                let (name, mut list) = self.keys.remove(i);
                list.push(key);
                self.keys.insert(i, (name, list));
                proof {
                    assert(self.entry_names() =~= old(self).entry_names());
                    assert forall|j: int| 0 <= j < self.keys@.len() implies #[trigger] self.keys@[j].1@.len() > 0 by {
                        if j != i {
                            assert(self.keys@[j] == old(self).keys@[j]);
                        }
                    }
                    self.lemma_keys_at(i as int);
                    assert(name_views(self.keys@[i as int].1@) =~= old(self).keys_of(bv).push(
                        key@,
                    ));
                    assert forall|b: Seq<char>| b != bv implies #[trigger] self.keys_of(b) == old(
                        self,
                    ).keys_of(b) by {
                        if exists|j: int| 0 <= j < self.keys@.len() && self.keys@[j].0@ == b {
                            let j = choose|j: int| 0 <= j < self.keys@.len() && self.keys@[j].0@ == b;
                            self.lemma_keys_at(j);
                            old(self).lemma_keys_at(j);
                            assert(self.keys@[j] == old(self).keys@[j]);
                        } else {
                            self.lemma_keys_absent(b);
                            assert forall|j: int| 0 <= j < old(self).keys@.len() implies old(
                                self,
                            ).keys@[j].0@ != b by {
                                assert(self.keys@[j].0@ == old(self).keys@[j].0@);
                            }
                            old(self).lemma_keys_absent(b);
                        }
                    }
                }
            },
            None => {
                proof {
                    old(self).lemma_keys_absent(bv);
                }
                let n = self.keys.len();
                self.keys.push((bucket, vec![key]));
                proof {
                    assert(self.entry_names() =~= old(self).entry_names().push(bv));
                    assert forall|j: int| 0 <= j < self.keys@.len() implies #[trigger] self.keys@[j].1@.len() > 0 by {
                        if j < n {
                            assert(self.keys@[j] == old(self).keys@[j]);
                        }
                    }
                    assert(self.entry_names().no_duplicates()) by {
                        assert forall|a: int, c: int|
                            0 <= a < self.entry_names().len() && 0 <= c < self.entry_names().len()
                                && a != c implies self.entry_names()[a] != self.entry_names()[c] by {
                            if a < n && c < n {
                                assert(old(self).entry_names()[a] != old(self).entry_names()[c]);
                            }
                        }
                    }
                    self.lemma_keys_at(n as int);
                    assert(name_views(self.keys@[n as int].1@) =~= seq![key@]);
                    assert(old(self).keys_of(bv).push(key@) =~= seq![key@]);
                    assert forall|b: Seq<char>| b != bv implies #[trigger] self.keys_of(b) == old(
                        self,
                    ).keys_of(b) by {
                        if exists|j: int| 0 <= j < old(self).keys@.len() && old(self).keys@[j].0@ == b {
                            let j = choose|j: int| 0 <= j < old(self).keys@.len() && old(self).keys@[j].0@ == b;
                            self.lemma_keys_at(j);
                            old(self).lemma_keys_at(j);
                            assert(self.keys@[j] == old(self).keys@[j]);
                        } else {
                            old(self).lemma_keys_absent(b);
                            assert forall|j: int| 0 <= j < self.keys@.len() implies self.keys@[j].0@
                                != b by {
                                if j < n {
                                    assert(self.keys@[j] == old(self).keys@[j]);
                                }
                            }
                            self.lemma_keys_absent(b);
                        }
                    }
                }
            },
        }
    }

    /// Whether the last remembered key of `bucket` is `key`; if so it is
    /// forgotten.
    pub fn pop_key(&mut self, bucket: &String, key: &String) -> (hit: bool)
        requires
            old(self).wf(),
        ensures
            final(self).wf(),
            hit == (old(self).keys_of(bucket@).len() > 0 && old(self).keys_of(bucket@).last()
                == key@),
            hit ==> final(self).keys_of(bucket@) == old(self).keys_of(bucket@).drop_last(),
            !hit ==> final(self).keys_of(bucket@) == old(self).keys_of(bucket@),
            forall|b: Seq<char>| b != bucket@ ==> #[trigger] final(self).keys_of(b) == old(self).keys_of(b),
            final(self).bucket_stack() == old(self).bucket_stack(),
    {
        let ghost bv = bucket@;
        match self.find_bucket(bucket.as_str()) {
            Some(i) => {
                proof {
                    old(self).lemma_keys_at(i as int);
                }
                let m = self.keys[i].1.len();
                assert(name_views(self.keys@[i as int].1@)[m - 1] == self.keys@[i as int].1@[m
                    - 1]@);
                if !str_eq(self.keys[i].1[m - 1].as_str(), key.as_str()) {
                    return false;
                }
                let (name, mut list) = self.keys.remove(i);
                let ghost after_remove = self.keys@;
                list.pop();
                if list.len() > 0 {
                    self.keys.insert(i, (name, list));
                    proof {
                        assert(self.entry_names() =~= old(self).entry_names());
                        assert forall|j: int| 0 <= j < self.keys@.len() implies #[trigger] self.keys@[j].1@.len() > 0 by {
                            if j != i {
                                assert(self.keys@[j] == old(self).keys@[j]);
                            }
                        }
                        self.lemma_keys_at(i as int);
                        assert(name_views(self.keys@[i as int].1@) =~= old(self).keys_of(
                            bv,
                        ).drop_last());
                        assert forall|b: Seq<char>| b != bv implies #[trigger] self.keys_of(b) == old(
                            self,
                        ).keys_of(b) by {
                            if exists|j: int| 0 <= j < self.keys@.len() && self.keys@[j].0@ == b {
                                let j = choose|j: int| 0 <= j < self.keys@.len() && self.keys@[j].0@ == b;
                                self.lemma_keys_at(j);
                                old(self).lemma_keys_at(j);
                                assert(self.keys@[j] == old(self).keys@[j]);
                            } else {
                                self.lemma_keys_absent(b);
                                assert forall|j: int| 0 <= j < old(self).keys@.len() implies old(
                                    self,
                                ).keys@[j].0@ != b by {
                                    assert(self.keys@[j].0@ == old(self).keys@[j].0@);
                                }
                                old(self).lemma_keys_absent(b);
                            }
                        }
                    }
                } else {
                    proof {
                        assert(self.keys@ =~= old(self).keys@.remove(i as int));
                        assert(self.entry_names() =~= old(self).entry_names().remove(i as int));
                        assert forall|j: int| 0 <= j < self.keys@.len() implies #[trigger] self.keys@[j].1@.len() > 0 by {
                            if j < i {
                                assert(self.keys@[j] == old(self).keys@[j]);
                            } else {
                                assert(self.keys@[j] == old(self).keys@[j + 1]);
                            }
                        }
                        assert(self.entry_names().no_duplicates()) by {
                            assert forall|a: int, c: int|
                                0 <= a < self.entry_names().len() && 0 <= c < self.entry_names().len()
                                    && a != c implies self.entry_names()[a] != self.entry_names()[c] by {
                                let a2 = if a < i { a } else { a + 1 };
                                let c2 = if c < i { c } else { c + 1 };
                                assert(self.entry_names()[a] == old(self).entry_names()[a2]);
                                assert(self.entry_names()[c] == old(self).entry_names()[c2]);
                            }
                        }
                        assert forall|j: int| 0 <= j < self.keys@.len() implies self.keys@[j].0@
                            != bv by {
                            let j2 = if j < i { j } else { j + 1 };
                            assert(self.keys@[j] == old(self).keys@[j2]);
                            assert(old(self).entry_names()[j2] != old(self).entry_names()[i as int]);
                        }
                        self.lemma_keys_absent(bv);
                        assert(old(self).keys_of(bv).drop_last() =~= Seq::<Seq<char>>::empty());
                        assert forall|b: Seq<char>| b != bv implies #[trigger] self.keys_of(b) == old(
                            self,
                        ).keys_of(b) by {
                            if exists|j: int| 0 <= j < self.keys@.len() && self.keys@[j].0@ == b {
                                let j = choose|j: int| 0 <= j < self.keys@.len() && self.keys@[j].0@ == b;
                                let j2 = if j < i { j } else { j + 1 };
                                assert(self.keys@[j] == old(self).keys@[j2]);
                                self.lemma_keys_at(j);
                                old(self).lemma_keys_at(j2);
                            } else {
                                self.lemma_keys_absent(b);
                                assert forall|j: int| 0 <= j < old(self).keys@.len() implies old(
                                    self,
                                ).keys@[j].0@ != b by {
                                    if j < i {
                                        assert(self.keys@[j] == old(self).keys@[j]);
                                    } else if j > i {
                                        assert(self.keys@[j - 1] == old(self).keys@[j]);
                                    }
                                }
                                old(self).lemma_keys_absent(b);
                            }
                        }
                    }
                }
                true
            },
            None => {
                proof {
                    old(self).lemma_keys_absent(bv);
                }
                false
            },
        }
    }
}

/// Popping undoes pushing: right after a bucket (or a key of a bucket) is
/// remembered, popping the same name hits, and leaves the stack as it was
/// before the push.
pub proof fn lemma_pop_undoes_push(stack: Seq<Seq<char>>, name: Seq<char>)
    ensures
        stack.push(name).len() > 0,
        stack.push(name).last() == name,
        stack.push(name).drop_last() == stack,
{
    assert(stack.push(name).drop_last() =~= stack);
}

} // verus!
