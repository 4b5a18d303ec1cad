//! Who listens to what: one channel per key of a bucket, through which the
//! changes of that key are sent to the clients that follow it.  The table
//! holds the channels as opaque values.
use crate::text::str_eq;
use vstd::prelude::*;
use vstd::string::*;

verus! {

/// A lookup that found no channel.
#[derive(Debug, Clone)]
pub enum ListToNotificationError {
    /// Nobody listens to anything in the bucket.
    BucketNotFound(String),
    /// Nobody listens to the key.
    KeyNotFound(String),
}

/// The channels by bucket and key.
pub struct ListToNotification<V> {
    entries: Vec<(String, String, V)>,
}

impl<V> ListToNotification<V> {
    pub closed spec fn names(&self) -> Seq<(Seq<char>, Seq<char>)> {
        Seq::new(self.entries@.len(), |i: int| (self.entries@[i].0@, self.entries@[i].1@))
    }

    /// A key of a bucket has at most one channel.
    pub closed spec fn wf(&self) -> bool {
        self.names().no_duplicates()
    }

    pub closed spec fn holds(&self, p: (Seq<char>, Seq<char>)) -> bool {
        exists|i: int| 0 <= i < self.entries@.len() && self.names()[i] == p
    }

    pub closed spec fn value_of(&self, p: (Seq<char>, Seq<char>)) -> V {
        let i = choose|i: int| 0 <= i < self.entries@.len() && self.names()[i] == p;
        self.entries@[i].2
    }

    /// The channel of each (bucket, key).
    pub closed spec fn view(&self) -> Map<(Seq<char>, Seq<char>), V> {
        Map::new(|p: (Seq<char>, Seq<char>)| self.holds(p), |p: (Seq<char>, Seq<char>)| self.value_of(p))
    }

    /// Whether anybody listens to something in `bucket`.
    pub open spec fn has_bucket(&self, bucket: Seq<char>) -> bool {
        exists|k: Seq<char>| self.view().contains_key((bucket, k))
    }

    proof fn lemma_view_at(&self, i: int)
        requires
            self.wf(),
            0 <= i < self.entries@.len(),
        ensures
            self.view().contains_key(self.names()[i]),
            self.view()[self.names()[i]] == self.entries@[i].2,
    {
        let p = self.names()[i];
        assert(self.holds(p));
        assert forall|k: int| 0 <= k < self.entries@.len() && self.names()[k] == p implies k == i by {
        }
        assert(self.view()[p] == self.value_of(p));
    }

    /// An empty table.
    pub fn new() -> (t: Self)
        ensures
            t.wf(),
            t.view() == Map::<(Seq<char>, Seq<char>), V>::empty(),
    {
        let t = ListToNotification { entries: Vec::new() };
        assert(t.view() =~= Map::<(Seq<char>, Seq<char>), V>::empty());
        t
    }

    fn find(&self, bucket: &str, key: &str) -> (r: Option<usize>)
        ensures
            match r {
                Some(i) => i < self.entries@.len() && self.names()[i as int] == (bucket@, key@),
                None => forall|i: int| 0 <= i < self.entries@.len() ==> self.names()[i] != (bucket@, key@),
            },
    {
        let mut i: usize = 0;
        while i < self.entries.len()
            invariant
                i <= self.entries@.len(),
                forall|j: int| 0 <= j < i ==> self.names()[j] != (bucket@, key@),
            decreases self.entries.len() - i,
        {
            if str_eq(self.entries[i].0.as_str(), bucket) && str_eq(self.entries[i].1.as_str(), key) {
                return Some(i);
            }
            i += 1;
        }
        None
    }

    fn find_bucket(&self, bucket: &str) -> (r: bool)
        requires
            self.wf(),
        ensures
            r == self.has_bucket(bucket@),
    {
        let mut i: usize = 0;
        while i < self.entries.len()
            invariant
                self.wf(),
                i <= self.entries@.len(),
                forall|j: int| 0 <= j < i ==> self.names()[j].0 != bucket@,
            decreases self.entries.len() - i,
        {
            if str_eq(self.entries[i].0.as_str(), bucket) {
                proof {
                    self.lemma_view_at(i as int);
                    assert(self.view().contains_key((bucket@, self.names()[i as int].1)));
                }
                return true;
            }
            i += 1;
        }
        proof {
            assert forall|k: Seq<char>| !self.view().contains_key((bucket@, k)) by {
                if self.view().contains_key((bucket@, k)) {
                    assert(self.holds((bucket@, k)));
                    let j = choose|j: int| 0 <= j < self.entries@.len() && self.names()[j] == (bucket@, k);
                    assert(self.names()[j].0 == bucket@);
                }
            }
        }
        false
    }

    /// Whether `key` of `bucket` has a channel.
    pub fn contains(&self, bucket: &str, key: &str) -> (b: bool)
        requires
            self.wf(),
        ensures
            b == self.view().contains_key((bucket@, key@)),
    {
        match self.find(bucket, key) {
            Some(i) => {
                proof {
                    self.lemma_view_at(i as int);
                }
                true
            },
            None => {
                assert(!self.holds((bucket@, key@)));
                false
            },
        }
    }

    /// The channel of `key` of `bucket`; without one, the error says
    /// whether the bucket or only the key is unknown.
    pub fn send_message(&self, bucket: &str, key: &str) -> (r: Result<&V, ListToNotificationError>)
        requires
            self.wf(),
        ensures
            match r {
                Ok(v) => self.view().contains_key((bucket@, key@)) && *v == self.view()[(
                    bucket@,
                    key@,
                )],
                Err(ListToNotificationError::BucketNotFound(b)) => !self.has_bucket(bucket@) && b@
                    == bucket@,
                Err(ListToNotificationError::KeyNotFound(k)) => self.has_bucket(bucket@)
                    && !self.view().contains_key((bucket@, key@)) && k@ == key@,
            },
    {
        match self.find(bucket, key) {
            Some(i) => {
                proof {
                    self.lemma_view_at(i as int);
                }
                Ok(&self.entries[i].2)
            },
            None => {
                assert(!self.holds((bucket@, key@)));
                if self.find_bucket(bucket) {
                    Err(ListToNotificationError::KeyNotFound(key.to_owned()))
                } else {
                    Err(ListToNotificationError::BucketNotFound(bucket.to_owned()))
                }
            },
        }
    }

    /// The indices, below `i`, of the entries of `bucket`, in order.
    pub closed spec fn matching(&self, bucket: Seq<char>, i: int) -> Seq<int>
        decreases i,
    {
        if i <= 0 {
            Seq::empty()
        } else if self.names()[i - 1].0 == bucket {
            self.matching(bucket, i - 1).push(i - 1)
        } else {
            self.matching(bucket, i - 1)
        }
    }

    proof fn lemma_matching(&self, bucket: Seq<char>, i: int)
        requires
            0 <= i <= self.entries@.len(),
        ensures
            forall|m: int| #[trigger]
                self.matching(bucket, i).contains(m) <==> (0 <= m < i && self.names()[m].0 == bucket),
            forall|j: int|
                0 <= j < self.matching(bucket, i).len() ==> 0 <= #[trigger] self.matching(bucket, i)[j]
                    < i && self.names()[self.matching(bucket, i)[j]].0 == bucket,
            forall|a: int, c: int|
                0 <= a < c < self.matching(bucket, i).len() ==> self.matching(bucket, i)[a]
                    < self.matching(bucket, i)[c],
        decreases i,
    {
        if i > 0 {
            self.lemma_matching(bucket, i - 1);
            let prev = self.matching(bucket, i - 1);
            if self.names()[i - 1].0 == bucket {
                assert forall|m: int| #[trigger]
                    self.matching(bucket, i).contains(m) <==> (0 <= m < i && self.names()[m].0
                        == bucket) by {
                    if m == i - 1 {
                        assert(self.matching(bucket, i)[prev.len() as int] == m);
                    } else if self.matching(bucket, i).contains(m) {
                        let j = choose|j: int| 0 <= j < self.matching(bucket, i).len() && self.matching(bucket, i)[j] == m;
                        assert(j < prev.len());
                        assert(prev.contains(m));
                    } else if 0 <= m < i && self.names()[m].0 == bucket {
                        assert(prev.contains(m));
                        let j = choose|j: int| 0 <= j < prev.len() && prev[j] == m;
                        assert(self.matching(bucket, i)[j] == m);
                    }
                }
            }
        }
    }

    /// Every channel of `bucket`, with its key; an error when nobody
    /// listens to anything in the bucket.
    pub fn send_all_in_bucket(&self, bucket: &str) -> (r: Result<
        Vec<(String, &V)>,
        ListToNotificationError,
    >)
        requires
            self.wf(),
        ensures
            match r {
                Ok(all) => {
                    &&& all@.len() > 0
                    &&& forall|j: int|
                        0 <= j < all@.len() ==> self.view().contains_key((bucket@, #[trigger] all@[j].0@))
                            && *all@[j].1 == self.view()[(bucket@, all@[j].0@)]
                    &&& forall|k: Seq<char>|
                        #[trigger] self.view().contains_key((bucket@, k)) ==> exists|j: int|
                            0 <= j < all@.len() && all@[j].0@ == k
                    &&& forall|a: int, c: int|
                        0 <= a < all@.len() && 0 <= c < all@.len() && a != c ==> all@[a].0@
                            != all@[c].0@
                },
                Err(ListToNotificationError::BucketNotFound(b)) => !self.has_bucket(bucket@) && b@
                    == bucket@,
                Err(ListToNotificationError::KeyNotFound(_)) => false,
            },
    {
        let ghost bv = bucket@;
        let mut all: Vec<(String, &V)> = Vec::new();
        let mut i: usize = 0;
        while i < self.entries.len()
            invariant
                self.wf(),
                bv == bucket@,
                i <= self.entries@.len(),
                all@.len() == self.matching(bv, i as int).len(),
                forall|j: int|
                    0 <= j < all@.len() ==> (#[trigger] all@[j]).0@ == self.names()[self.matching(
                        bv,
                        i as int,
                    )[j]].1 && *all@[j].1 == self.entries@[self.matching(bv, i as int)[j]].2,
            decreases self.entries.len() - i,
        {
            let ghost before = all@;
            if str_eq(self.entries[i].0.as_str(), bucket) {
                all.push((self.entries[i].1.clone(), &self.entries[i].2));
                proof {
                    assert(self.matching(bv, i + 1) == self.matching(bv, i as int).push(i as int));
                    assert forall|j: int| 0 <= j < all@.len() implies (#[trigger] all@[j]).0@
                        == self.names()[self.matching(bv, i + 1)[j]].1 && *all@[j].1
                        == self.entries@[self.matching(bv, i + 1)[j]].2 by {
                        if j < before.len() {
                            assert(all@[j] == before[j]);
                        }
                    }
                }
            } else {
                proof {
                    assert(self.matching(bv, i + 1) == self.matching(bv, i as int));
                }
            }
            i += 1;
        }
        proof {
            self.lemma_matching(bv, i as int);
        }
        let ghost idx = self.matching(bv, i as int);
        if all.len() == 0 {
            proof {
                assert forall|k: Seq<char>| !self.view().contains_key((bv, k)) by {
                    if self.view().contains_key((bv, k)) {
                        assert(self.holds((bv, k)));
                        let m = choose|m: int| 0 <= m < self.entries@.len() && self.names()[m] == (bv, k);
                        assert(idx.contains(m));
                    }
                }
            }
            return Err(ListToNotificationError::BucketNotFound(bucket.to_owned()));
        }
        proof {
            assert forall|j: int|
                0 <= j < all@.len() implies self.view().contains_key((bv, #[trigger] all@[j].0@))
                    && *all@[j].1 == self.view()[(bv, all@[j].0@)] by {
                let m = idx[j];
                assert(self.names()[m] == (bv, all@[j].0@));
                self.lemma_view_at(m);
            }
            assert forall|k: Seq<char>|
                #[trigger] self.view().contains_key((bv, k)) implies exists|j: int|
                    0 <= j < all@.len() && all@[j].0@ == k by {
                assert(self.holds((bv, k)));
                let m = choose|m: int| 0 <= m < self.entries@.len() && self.names()[m] == (bv, k);
                assert(idx.contains(m));
                let j = choose|j: int| 0 <= j < idx.len() && idx[j] == m;
                assert(all@[j].0@ == k);
            }
            assert forall|a: int, c: int|
                0 <= a < all@.len() && 0 <= c < all@.len() && a != c implies all@[a].0@
                    != all@[c].0@ by {
                let ma = idx[a];
                let mc = idx[c];
                if a < c {
                    assert(ma < mc);
                } else {
                    assert(mc < ma);
                }
                assert(self.names()[ma] != self.names()[mc]);
                assert(self.names()[ma].0 == bv && self.names()[mc].0 == bv);
            }
        }
        Ok(all)
    }

    /// Gives `key` of `bucket` the channel `fresh` unless it has one.
    pub fn rcv_or_create(&mut self, bucket: String, key: String, fresh: V)
        requires
            old(self).wf(),
        ensures
            final(self).wf(),
            old(self).view().contains_key((bucket@, key@)) ==> final(self).view() == old(self).view(),
            !old(self).view().contains_key((bucket@, key@)) ==> final(self).view() == old(
                self,
            ).view().insert((bucket@, key@), fresh),
    {
        if self.contains(bucket.as_str(), key.as_str()) {
            return;
        }
        let ghost p = (bucket@, key@);
        let ghost before = self.names();
        assert forall|j: int| 0 <= j < before.len() implies before[j] != p by {
            if before[j] == p {
                self.lemma_view_at(j);
            }
        }
        let n = self.entries.len();
        self.entries.push((bucket, key, fresh));
        proof {
            assert(self.names() =~= before.push(p));
            assert(self.names().no_duplicates()) by {
                assert forall|a: int, c: int|
                    0 <= a < self.names().len() && 0 <= c < self.names().len() && a != c implies self.names()[a]
                    != self.names()[c] by {
                    if a < n && c < n {
                        assert(before[a] != before[c]);
                    }
                }
            }
            self.lemma_view_at(n as int);
            assert forall|q: (Seq<char>, Seq<char>)| #[trigger] self.view().contains_key(q) == old(self).view().insert(p, fresh).contains_key(q) by {
                if q != p {
                    if old(self).view().contains_key(q) {
                        let j = choose|j: int| 0 <= j < old(self).entries@.len() && old(self).names()[j] == q;
                        assert(self.names()[j] == q);
                    }
                    if self.view().contains_key(q) {
                        let j = choose|j: int| 0 <= j < self.entries@.len() && self.names()[j] == q;
                        assert(j != n);
                        assert(old(self).names()[j] == q);
                    }
                }
            }
            assert forall|q: (Seq<char>, Seq<char>)| #[trigger] self.view().contains_key(q) implies self.view()[q]
                == old(self).view().insert(p, fresh)[q] by {
                if q != p {
                    let j = choose|j: int| 0 <= j < self.entries@.len() && self.names()[j] == q;
                    assert(j != n);
                    assert(self.entries@[j] == old(self).entries@[j]);
                    self.lemma_view_at(j);
                    old(self).lemma_view_at(j);
                }
            }
            assert(self.view() =~= old(self).view().insert(p, fresh));
        }
    }
}

/// The reach of a change: every key of a bucket, or one key of a bucket.
#[derive(Debug, Clone)]
pub enum Scope {
    Bucket(String),
    Key(String, String),
}

impl<V> ListToNotification<V> {
    /// The channels that a change of `scope` is sent on, each with its key:
    /// for a key, its channel if it has one; for a bucket, the channel of
    /// every key of the bucket, each once.  Nothing when nobody listens.
    pub fn broadcast_targets(&self, scope: &Scope) -> (r: Vec<(String, &V)>)
        requires
            self.wf(),
        ensures
            match *scope {
                Scope::Key(b, k) => if self.view().contains_key((b@, k@)) {
                    r@.len() == 1 && r@[0].0@ == k@ && *r@[0].1 == self.view()[(b@, k@)]
                } else {
                    r@.len() == 0
                },
                Scope::Bucket(b) => {
                    &&& forall|j: int|
                        0 <= j < r@.len() ==> self.view().contains_key((b@, #[trigger] r@[j].0@))
                            && *r@[j].1 == self.view()[(b@, r@[j].0@)]
                    &&& forall|k: Seq<char>|
                        #[trigger] self.view().contains_key((b@, k)) ==> exists|j: int|
                            0 <= j < r@.len() && r@[j].0@ == k
                    &&& forall|a: int, c: int|
                        0 <= a < r@.len() && 0 <= c < r@.len() && a != c ==> r@[a].0@ != r@[c].0@
                },
            },
    {
        match scope {
            Scope::Key(b, k) => match self.send_message(b.as_str(), k.as_str()) {
                Ok(v) => {
                    let mut r: Vec<(String, &V)> = Vec::new();
                    r.push((k.clone(), v));
                    r
                },
                Err(_) => Vec::new(),
            },
            Scope::Bucket(b) => match self.send_all_in_bucket(b.as_str()) {
                Ok(all) => all,
                Err(_) => Vec::new(),
            },
        }
    }
}

/// The channels of the clients that follow a key, by bucket and key.
pub struct UserTracker<V>(ListToNotification<V>);

impl<V> UserTracker<V> {
    pub closed spec fn view(&self) -> Map<(Seq<char>, Seq<char>), V> {
        self.0.view()
    }

    pub closed spec fn wf(&self) -> bool {
        self.0.wf()
    }

    /// Nobody follows anything.
    pub fn new() -> (t: Self)
        ensures
            t.wf(),
            t.view() == Map::<(Seq<char>, Seq<char>), V>::empty(),
    {
        UserTracker(ListToNotification::new())
    }

    /// The channel of `key` of `bucket`, made from `fresh` when the key has
    /// none yet.
    pub fn get_rx(&mut self, bucket: String, key: String, fresh: V) -> (v: &V)
        requires
            old(self).wf(),
        ensures
            final(self).wf(),
            old(self).view().contains_key((bucket@, key@)) ==> final(self).view() == old(self).view(),
            !old(self).view().contains_key((bucket@, key@)) ==> final(self).view() == old(
                self,
            ).view().insert((bucket@, key@), fresh),
            final(self).view().contains_key((bucket@, key@)),
            *v == final(self).view()[(bucket@, key@)],
    {
        let ghost b = bucket@;
        let ghost k = key@;
        let probe_b = bucket.clone();
        let probe_k = key.clone();
        self.0.rcv_or_create(bucket, key, fresh);
        let found = self.0.find(probe_b.as_str(), probe_k.as_str());
        proof {
            if found is None {
                assert(self.0.view().contains_key((b, k)));
                assert(self.0.holds((b, k)));
                let j = choose|j: int| 0 <= j < self.0.entries@.len() && self.0.names()[j] == (b, k);
            }
        }
        let i = found.unwrap();
        proof {
            self.0.lemma_view_at(i as int);
        }
        &self.0.entries[i].2
    }
}

/// Once a client follows a key, a change to that key finds a channel: the
/// table after `rcv_or_create` (or `get_rx`) holds the key, with the
/// channel it had before, or else with the fresh one.
pub proof fn lemma_followed_key_is_found<V>(
    before: Map<(Seq<char>, Seq<char>), V>,
    bucket: Seq<char>,
    key: Seq<char>,
    fresh: V,
)
    ensures
        ({
            let after = if before.contains_key((bucket, key)) {
                before
            } else {
                before.insert((bucket, key), fresh)
            };
            &&& after.contains_key((bucket, key))
            &&& after[(bucket, key)] == (if before.contains_key((bucket, key)) {
                before[(bucket, key)]
            } else {
                fresh
            })
            &&& forall|p: (Seq<char>, Seq<char>)|
                p != (bucket, key) ==> (#[trigger] after.contains_key(p) == before.contains_key(p))
        }),
{
}

} // verus!
