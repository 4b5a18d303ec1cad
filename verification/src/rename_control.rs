//! Telling a rename from a removal.
//!
//! The watcher sees the first half of a rename ("renamed from") before it
//! knows whether the second half follows.  The control keeps such a path
//! pending for a while: if the rename completes, the path is declined and
//! nothing is removed; if the wait expires first, the path was removed.
//! Paths are held as the bytes of the file system path.
use vstd::prelude::*;

verus! {

/// The first half of a rename: `path` was renamed to somewhere unknown.
#[derive(Debug, Clone)]
pub struct RenameFrom(Vec<u8>);

impl RenameFrom {
    pub fn new(path: Vec<u8>) -> (r: Self)
        ensures
            r.path() == path@,
    {
        RenameFrom(path)
    }

    pub closed spec fn path(&self) -> Seq<u8> {
        self.0@
    }
}

/// The message that stops a pending removal.
#[derive(Debug, Clone, Copy)]
pub struct DropDelete;

/// What the watcher tells the control.
#[derive(Debug, Clone)]
pub enum Rename {
    /// A path was renamed away (or maybe removed).
    From(RenameFrom),
    /// The rename of a path completed.
    Decline(Vec<u8>),
}

/// What the control asks its driver to do.
#[derive(Debug, Clone)]
pub enum RenameAction {
    /// Wait `after_ms` milliseconds, then report expiry of `path` with
    /// `ticket`; a wait started earlier for the same path is void.
    StartTimer { path: Vec<u8>, ticket: u64, after_ms: u64 },
    /// Stop the wait of the declined path.
    Cancel(DropDelete),
    /// Nothing to do.
    Nothing,
}

/// Whether two paths are the same bytes.
pub fn bytes_eq(a: &Vec<u8>, b: &Vec<u8>) -> (r: bool)
    ensures
        r == (a@ == b@),
{
    if a.len() != b.len() {
        return false;
    }
    let mut i: usize = 0;
    while i < a.len()
        invariant
            a@.len() == b@.len(),
            i <= a@.len(),
            forall|j: int| 0 <= j < i ==> a@[j] == b@[j],
        decreases a.len() - i,
    {
        if a[i] != b[i] {
            return false;
        }
        i += 1;
    }
    assert(a@ =~= b@);
    true
}

/// The paths waiting to be declined, each with the ticket of its wait.
pub struct RenameControl {
    await_ms: u64,
    pending: Vec<(Vec<u8>, u64)>,
    next_ticket: u64,
}

impl RenameControl {
    pub closed spec fn paths(&self) -> Seq<Seq<u8>> {
        Seq::new(self.pending@.len(), |i: int| self.pending@[i].0@)
    }

    /// No path is pending twice.
    pub closed spec fn wf(&self) -> bool {
        self.paths().no_duplicates()
    }

    pub closed spec fn holds(&self, p: Seq<u8>) -> bool {
        exists|i: int| 0 <= i < self.pending@.len() && self.pending@[i].0@ == p
    }

    pub closed spec fn ticket_of(&self, p: Seq<u8>) -> u64 {
        let i = choose|i: int| 0 <= i < self.pending@.len() && self.pending@[i].0@ == p;
        self.pending@[i].1
    }

    /// The pending paths and the tickets of their waits.
    pub closed spec fn view(&self) -> Map<Seq<u8>, u64> {
        Map::new(|p: Seq<u8>| self.holds(p), |p: Seq<u8>| self.ticket_of(p))
    }

    /// The ticket that the next wait gets.
    pub closed spec fn spec_next_ticket(&self) -> u64 {
        self.next_ticket
    }

    pub closed spec fn spec_await(&self) -> u64 {
        self.await_ms
    }

    proof fn lemma_view_at(&self, i: int)
        requires
            self.wf(),
            0 <= i < self.pending@.len(),
        ensures
            self.view().contains_key(self.pending@[i].0@),
            self.view()[self.pending@[i].0@] == self.pending@[i].1,
    {
        let p = self.pending@[i].0@;
        assert(self.paths()[i] == p);
        assert(self.holds(p));
        assert forall|k: int| 0 <= k < self.pending@.len() && self.pending@[k].0@ == p implies k
            == i by {
            if k != i {
                assert(self.paths()[k] == self.paths()[i]);
            }
        }
        assert(self.view().contains_key(p));
        assert(self.view()[p] == self.ticket_of(p));
    }

    /// A control that waits `await_ms` milliseconds before a path counts as
    /// removed.
    pub fn new(await_ms: u64) -> (c: Self)
        ensures
            c.wf(),
            c.view() == Map::<Seq<u8>, u64>::empty(),
            c.spec_await() == await_ms,
            c.spec_next_ticket() == 0,
    {
        let c = RenameControl { await_ms, pending: Vec::new(), next_ticket: 0 };
        assert(c.view() =~= Map::<Seq<u8>, u64>::empty());
        c
    }

    /// Whether another wait can be started.
    pub fn has_tickets(&self) -> (b: bool)
        ensures
            b == (self.spec_next_ticket() < u64::MAX),
    {
        self.next_ticket < u64::MAX
    }

    fn find(&self, path: &Vec<u8>) -> (r: Option<usize>)
        ensures
            match r {
                Some(i) => i < self.pending@.len() && self.pending@[i as int].0@ == path@,
                None => forall|i: int| 0 <= i < self.pending@.len() ==> self.pending@[i].0@ != path@,
            },
    {
        let mut i: usize = 0;
        while i < self.pending.len()
            invariant
                i <= self.pending@.len(),
                forall|j: int| 0 <= j < i ==> self.pending@[j].0@ != path@,
            decreases self.pending.len() - i,
        {
            if bytes_eq(&self.pending[i].0, path) {
                return Some(i);
            }
            i += 1;
        }
        None
    }

    fn remove_at(&mut self, i: usize)
        requires
            old(self).wf(),
            i < old(self).pending@.len(),
        ensures
            final(self).wf(),
            final(self).view() == old(self).view().remove(old(self).pending@[i as int].0@),
            final(self).spec_next_ticket() == old(self).spec_next_ticket(),
            final(self).spec_await() == old(self).spec_await(),
    {
        let ghost p = self.pending@[i as int].0@;
        self.pending.remove(i);
        proof {
            assert(self.paths() =~= old(self).paths().remove(i as int));
            assert(self.paths().no_duplicates()) by {
                assert forall|a: int, c: int|
                    0 <= a < self.paths().len() && 0 <= c < self.paths().len() && a != c implies self.paths()[a]
                    != self.paths()[c] by {
                    let a2 = if a < i { a } else { a + 1 };
                    let c2 = if c < i { c } else { c + 1 };
                    assert(self.paths()[a] == old(self).paths()[a2]);
                    assert(self.paths()[c] == old(self).paths()[c2]);
                }
            }
            assert forall|q: Seq<u8>| #[trigger] self.view().contains_key(q) == old(self).view().remove(p).contains_key(q) by {
                if q == p {
                    if self.view().contains_key(q) {
                        let j = choose|j: int| 0 <= j < self.pending@.len() && self.pending@[j].0@ == q;
                        let j2 = if j < i { j } else { j + 1 };
                        assert(old(self).paths()[j2] == old(self).paths()[i as int]);
                    }
                } else {
                    if old(self).view().contains_key(q) {
                        let j = choose|j: int| 0 <= j < old(self).pending@.len() && old(self).pending@[j].0@ == q;
                        assert(j != i);
                        let j2 = if j < i { j } else { j - 1 };
                        assert(self.pending@[j2] == old(self).pending@[j]);
                    }
                    if self.view().contains_key(q) {
                        let j = choose|j: int| 0 <= j < self.pending@.len() && self.pending@[j].0@ == q;
                        let j2 = if j < i { j } else { j + 1 };
                        assert(self.pending@[j] == old(self).pending@[j2]);
                    }
                }
            }
            assert forall|q: Seq<u8>| #[trigger] self.view().contains_key(q) implies self.view()[q]
                == old(self).view()[q] by {
                let j = choose|j: int| 0 <= j < self.pending@.len() && self.pending@[j].0@ == q;
                let j2 = if j < i { j } else { j + 1 };
                assert(self.pending@[j] == old(self).pending@[j2]);
                self.lemma_view_at(j);
                old(self).lemma_view_at(j2);
            }
            assert(self.view() =~= old(self).view().remove(p));
        }
    }

    /// Handles a message of the watcher.  A path renamed away waits for
    /// its decline under a fresh ticket (replacing any earlier wait for the
    /// same path); a declined path stops waiting.
    pub fn handle(&mut self, message: Rename) -> (action: RenameAction)
        requires
            old(self).wf(),
            message is From ==> old(self).spec_next_ticket() < u64::MAX,
        ensures
            final(self).wf(),
            final(self).spec_await() == old(self).spec_await(),
            match message {
                Rename::From(from) => {
                    &&& final(self).view() == old(self).view().insert(
                        from.path(),
                        old(self).spec_next_ticket(),
                    )
                    &&& final(self).spec_next_ticket() == old(self).spec_next_ticket() + 1
                    &&& action matches RenameAction::StartTimer { path, ticket, after_ms } && path@
                        == from.path() && ticket == old(self).spec_next_ticket() && after_ms == old(
                        self,
                    ).spec_await()
                },
                Rename::Decline(path) => {
                    &&& final(self).view() == old(self).view().remove(path@)
                    &&& final(self).spec_next_ticket() == old(self).spec_next_ticket()
                    &&& old(self).view().contains_key(path@) ==> action is Cancel
                    &&& !old(self).view().contains_key(path@) ==> action is Nothing
                },
            },
    {
        match message {
            Rename::From(from) => {
                let path = from.0;
                let ticket = self.next_ticket;
                if let Some(i) = self.find(&path) {
                    self.remove_at(i);
                }
                let ghost before = *self;
                assert(!before.view().contains_key(path@));
                assert forall|j: int| 0 <= j < before.pending@.len() implies before.pending@[j].0@
                    != path@ by {
                    if before.pending@[j].0@ == path@ {
                        before.lemma_view_at(j);
                    }
                }
                let n = self.pending.len();
                self.pending.push((path.clone(), ticket));
                self.next_ticket = ticket + 1;
                proof {
                    assert(self.paths() =~= before.paths().push(path@));
                    assert(self.paths().no_duplicates()) by {
                        assert forall|a: int, c: int|
                            0 <= a < self.paths().len() && 0 <= c < self.paths().len() && a != c implies self.paths()[a]
                            != self.paths()[c] by {
                            if a < n && c < n {
                                assert(before.paths()[a] != before.paths()[c]);
                            } else if a < n {
                                assert(before.pending@[a].0@ != path@);
                            } else {
                                assert(before.pending@[c].0@ != path@);
                            }
                        }
                    }
                    self.lemma_view_at(n as int);
                    assert forall|q: Seq<u8>| #[trigger] self.view().contains_key(q) == before.view().insert(path@, ticket).contains_key(q) by {
                        if q != path@ {
                            if before.view().contains_key(q) {
                                let j = choose|j: int| 0 <= j < before.pending@.len() && before.pending@[j].0@ == q;
                                assert(self.pending@[j] == before.pending@[j]);
                            }
                            if self.view().contains_key(q) {
                                let j = choose|j: int| 0 <= j < self.pending@.len() && self.pending@[j].0@ == q;
                                assert(j != n);
                                assert(self.pending@[j] == before.pending@[j]);
                            }
                        }
                    }
                    assert forall|q: Seq<u8>| #[trigger] self.view().contains_key(q) implies self.view()[q]
                        == before.view().insert(path@, ticket)[q] by {
                        if q != path@ {
                            let j = choose|j: int| 0 <= j < self.pending@.len() && self.pending@[j].0@ == q;
                            assert(j != n);
                            assert(self.pending@[j] == before.pending@[j]);
                            self.lemma_view_at(j);
                            before.lemma_view_at(j);
                        }
                    }
                    assert(self.view() =~= before.view().insert(path@, ticket));
                    assert(before.view().insert(path@, ticket) =~= old(self).view().insert(
                        path@,
                        ticket,
                    ));
                }
                RenameAction::StartTimer { path, ticket, after_ms: self.await_ms }
            },
            Rename::Decline(path) => {
                match self.find(&path) {
                    Some(i) => {
                        proof {
                            self.lemma_view_at(i as int);
                        }
                        self.remove_at(i);
                        RenameAction::Cancel(DropDelete)
                    },
                    None => {
                        proof {
                            assert(!self.view().contains_key(path@));
                            assert(self.view().remove(path@) =~= self.view());
                        }
                        RenameAction::Nothing
                    },
                }
            },
        }
    }

    /// The wait with `ticket` for `path` expired.  When that wait is still
    /// the pending one, the path stops waiting and counts as removed.
    pub fn on_expired(&mut self, path: &Vec<u8>, ticket: u64) -> (removed: bool)
        requires
            old(self).wf(),
        ensures
            final(self).wf(),
            final(self).spec_await() == old(self).spec_await(),
            final(self).spec_next_ticket() == old(self).spec_next_ticket(),
            removed == (old(self).view().contains_key(path@) && old(self).view()[path@] == ticket),
            removed ==> final(self).view() == old(self).view().remove(path@),
            !removed ==> final(self).view() == old(self).view(),
    {
        match self.find(path) {
            Some(i) => {
                proof {
                    self.lemma_view_at(i as int);
                }
                if self.pending[i].1 == ticket {
                    self.remove_at(i);
                    true
                } else {
                    false
                }
            },
            None => {
                assert(!self.view().contains_key(path@));
                false
            },
        }
    }
}

/// A path renamed away counts as removed when its wait expires before any
/// decline, and only once; after a decline, or a later rename of the same
/// path, the expiry of the earlier wait removes nothing.
pub proof fn lemma_decline_or_expiry(pending: Map<Seq<u8>, u64>, path: Seq<u8>, ticket: u64, later: u64)
    requires
        later != ticket,
    ensures
        ({
            let waiting = pending.insert(path, ticket);
            &&& waiting.contains_key(path) && waiting[path] == ticket
            &&& !(waiting.remove(path).contains_key(path))
            &&& !(waiting.insert(path, later)[path] == ticket)
        }),
{
}

} // verus!
