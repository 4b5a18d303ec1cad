//! Bringing the object database in line with the file system: which
//! buckets, keys and objects the database holds that the file system no
//! longer has.  Objects are compared by checksum and deleted by name.
use crate::skip::{name_views, NameSet};
use vstd::prelude::*;

verus! {

/// An object as the database records it: its bucket, its key, and the
/// object's own name and checksum.
#[derive(Debug, Clone)]
pub struct AsObjectDeserialize {
    pub bucket: String,
    pub key: String,
    pub name: String,
    pub checksum: String,
}

/// What the file system holds: its buckets, its keys (bucket, key) and the
/// checksums of its objects (bucket, key, checksum).
pub struct FsTree {
    pub buckets: NameSet,
    pub keys: NameSet,
    pub objects: NameSet,
}

/// The deletions that bring the database in line: whole buckets, whole
/// keys (bucket, key), and single objects (bucket, key, name).
pub struct SyncPlan {
    pub buckets: NameSet,
    pub keys: NameSet,
    pub objects: NameSet,
}

pub open spec fn db_tuple1(o: AsObjectDeserialize) -> Seq<Seq<char>> {
    seq![o.bucket@]
}

pub open spec fn db_tuple2(o: AsObjectDeserialize) -> Seq<Seq<char>> {
    seq![o.bucket@, o.key@]
}

/// Whether the database entry `o` lies in a bucket the file system lacks.
pub open spec fn stale_bucket(fs_buckets: Set<Seq<Seq<char>>>, o: AsObjectDeserialize) -> bool {
    !fs_buckets.contains(seq![o.bucket@])
}

/// Whether `o` lies in a key the file system lacks, in a bucket it has.
pub open spec fn stale_key(
    fs_buckets: Set<Seq<Seq<char>>>,
    fs_keys: Set<Seq<Seq<char>>>,
    o: AsObjectDeserialize,
) -> bool {
    fs_buckets.contains(seq![o.bucket@]) && !fs_keys.contains(seq![o.bucket@, o.key@])
}

/// Whether `o` lies in a key the file system has, without an object of the
/// same checksum there.
pub open spec fn stale_object(
    fs_buckets: Set<Seq<Seq<char>>>,
    fs_keys: Set<Seq<Seq<char>>>,
    fs_objects: Set<Seq<Seq<char>>>,
    o: AsObjectDeserialize,
) -> bool {
    fs_buckets.contains(seq![o.bucket@]) && fs_keys.contains(seq![o.bucket@, o.key@])
        && !fs_objects.contains(seq![o.bucket@, o.key@, o.checksum@])
}

/// The deletions owed for the first `n` database entries.
pub open spec fn planned_buckets(db: Seq<AsObjectDeserialize>, fs_buckets: Set<Seq<Seq<char>>>, n: int) -> Set<
    Seq<Seq<char>>,
> {
    Set::new(
        |t: Seq<Seq<char>>|
            exists|j: int| 0 <= j < n && stale_bucket(fs_buckets, db[j]) && t == seq![db[j].bucket@],
    )
}

pub open spec fn planned_keys(
    db: Seq<AsObjectDeserialize>,
    fs_buckets: Set<Seq<Seq<char>>>,
    fs_keys: Set<Seq<Seq<char>>>,
    n: int,
) -> Set<Seq<Seq<char>>> {
    Set::new(
        |t: Seq<Seq<char>>|
            exists|j: int|
                0 <= j < n && stale_key(fs_buckets, fs_keys, db[j]) && t == seq![db[j].bucket@, db[j].key@],
    )
}

pub open spec fn planned_objects(
    db: Seq<AsObjectDeserialize>,
    fs_buckets: Set<Seq<Seq<char>>>,
    fs_keys: Set<Seq<Seq<char>>>,
    fs_objects: Set<Seq<Seq<char>>>,
    n: int,
) -> Set<Seq<Seq<char>>> {
    Set::new(
        |t: Seq<Seq<char>>|
            exists|j: int|
                0 <= j < n && stale_object(fs_buckets, fs_keys, fs_objects, db[j]) && t == seq![
                    db[j].bucket@,
                    db[j].key@,
                    db[j].name@,
                ],
    )
}

/// The plan deletes nothing the file system has and everything it lacks:
/// a bucket is deleted exactly when an entry lies in it and the file
/// system lacks it; a key is deleted only in a bucket the file system has,
/// and only when the file system lacks the key; an object is deleted only
/// in a key the file system has, and every entry in such a key whose
/// checksum the file system lacks there is deleted by its name.
pub proof fn lemma_plan_spares_the_file_system(
    db: Seq<AsObjectDeserialize>,
    fb: Set<Seq<Seq<char>>>,
    fk: Set<Seq<Seq<char>>>,
    fo: Set<Seq<Seq<char>>>,
    j: int,
)
    requires
        0 <= j < db.len(),
    ensures
        forall|t: Seq<Seq<char>>|
            #[trigger] planned_buckets(db, fb, db.len() as int).contains(t) ==> !fb.contains(t),
        !fb.contains(seq![db[j].bucket@]) <==> planned_buckets(db, fb, db.len() as int).contains(
            seq![db[j].bucket@],
        ),
        forall|t: Seq<Seq<char>>|
            #[trigger] planned_keys(db, fb, fk, db.len() as int).contains(t) ==> !fk.contains(t)
                && t.len() == 2 && fb.contains(seq![t[0]]),
        (fb.contains(seq![db[j].bucket@]) && !fk.contains(seq![db[j].bucket@, db[j].key@]))
            ==> planned_keys(db, fb, fk, db.len() as int).contains(seq![db[j].bucket@, db[j].key@]),
        forall|t: Seq<Seq<char>>|
            #[trigger] planned_objects(db, fb, fk, fo, db.len() as int).contains(t) ==> t.len() == 3
                && fb.contains(seq![t[0]]) && fk.contains(seq![t[0], t[1]]),
        (fb.contains(seq![db[j].bucket@]) && fk.contains(seq![db[j].bucket@, db[j].key@])
            && !fo.contains(seq![db[j].bucket@, db[j].key@, db[j].checksum@])) ==> planned_objects(
            db,
            fb,
            fk,
            fo,
            db.len() as int,
        ).contains(seq![db[j].bucket@, db[j].key@, db[j].name@]),
        fo.contains(seq![db[j].bucket@, db[j].key@, db[j].checksum@]) && (forall|i: int|
            0 <= i < db.len() && db[i].bucket@ == db[j].bucket@ && db[i].key@ == db[j].key@
                && db[i].name@ == db[j].name@ ==> db[i].checksum@ == db[j].checksum@)
            ==> !planned_objects(db, fb, fk, fo, db.len() as int).contains(
            seq![db[j].bucket@, db[j].key@, db[j].name@],
        ),
{
    let n = db.len() as int;
    assert forall|t: Seq<Seq<char>>| #[trigger] planned_buckets(db, fb, n).contains(t) implies !fb.contains(t) by {
        let i = choose|i: int| 0 <= i < n && stale_bucket(fb, db[i]) && t == seq![db[i].bucket@];
    }
    if planned_buckets(db, fb, n).contains(seq![db[j].bucket@]) {
        let i = choose|i: int| 0 <= i < n && stale_bucket(fb, db[i]) && seq![db[j].bucket@] == seq![db[i].bucket@];
        assert(seq![db[j].bucket@][0] == db[i].bucket@);
    }
    assert forall|t: Seq<Seq<char>>| #[trigger] planned_keys(db, fb, fk, n).contains(t) implies !fk.contains(t)
        && t.len() == 2 && fb.contains(seq![t[0]]) by {
        let i = choose|i: int| 0 <= i < n && stale_key(fb, fk, db[i]) && t == seq![db[i].bucket@, db[i].key@];
        assert(seq![t[0]] =~= seq![db[i].bucket@]);
    }
    assert forall|t: Seq<Seq<char>>| #[trigger] planned_objects(db, fb, fk, fo, n).contains(t) implies t.len()
        == 3 && fb.contains(seq![t[0]]) && fk.contains(seq![t[0], t[1]]) by {
        let i = choose|i: int| 0 <= i < n && stale_object(fb, fk, fo, db[i]) && t == seq![
            db[i].bucket@,
            db[i].key@,
            db[i].name@,
        ];
        assert(seq![t[0]] =~= seq![db[i].bucket@]);
        assert(seq![t[0], t[1]] =~= seq![db[i].bucket@, db[i].key@]);
    }
    let tj = seq![db[j].bucket@, db[j].key@, db[j].name@];
    if fo.contains(seq![db[j].bucket@, db[j].key@, db[j].checksum@]) && (forall|i: int|
        0 <= i < db.len() && db[i].bucket@ == db[j].bucket@ && db[i].key@ == db[j].key@
            && db[i].name@ == db[j].name@ ==> db[i].checksum@ == db[j].checksum@) {
        if planned_objects(db, fb, fk, fo, n).contains(tj) {
            let i = choose|i: int| 0 <= i < n && stale_object(fb, fk, fo, db[i]) && tj == seq![
                db[i].bucket@,
                db[i].key@,
                db[i].name@,
            ];
            assert(tj[0] == db[i].bucket@ && tj[1] == db[i].key@ && tj[2] == db[i].name@);
            assert(seq![db[i].bucket@, db[i].key@, db[i].checksum@] =~= seq![
                db[j].bucket@,
                db[j].key@,
                db[j].checksum@,
            ]);
        }
    }
}

/// The deletions that bring the database entries `db` in line with the file
/// system `fs`: a bucket the file system lacks goes whole; in a bucket it
/// has, a key it lacks goes whole; in a key it has, an object goes when no
/// object of the file system there has its checksum.
pub fn sync_plan(db: &Vec<AsObjectDeserialize>, fs: &FsTree) -> (plan: SyncPlan)
    requires
        fs.buckets.wf(),
        fs.keys.wf(),
        fs.objects.wf(),
    ensures
        plan.buckets.wf(),
        plan.keys.wf(),
        plan.objects.wf(),
        plan.buckets.view() == planned_buckets(db@, fs.buckets.view(), db@.len() as int),
        plan.keys.view() == planned_keys(db@, fs.buckets.view(), fs.keys.view(), db@.len() as int),
        plan.objects.view() == planned_objects(
            db@,
            fs.buckets.view(),
            fs.keys.view(),
            fs.objects.view(),
            db@.len() as int,
        ),
{
    let ghost fb = fs.buckets.view();
    let ghost fk = fs.keys.view();
    let ghost fo = fs.objects.view();
    let mut buckets = NameSet::new();
    let mut keys = NameSet::new();
    let mut objects = NameSet::new();
    proof {
        assert(buckets.view() =~= planned_buckets(db@, fb, 0));
        assert(keys.view() =~= planned_keys(db@, fb, fk, 0));
        assert(objects.view() =~= planned_objects(db@, fb, fk, fo, 0));
    }
    let mut i: usize = 0;
    while i < db.len()
        invariant
            i <= db@.len(),
            fb == fs.buckets.view(),
            fk == fs.keys.view(),
            fo == fs.objects.view(),
            buckets.wf(),
            keys.wf(),
            objects.wf(),
            buckets.view() == planned_buckets(db@, fb, i as int),
            keys.view() == planned_keys(db@, fb, fk, i as int),
            objects.view() == planned_objects(db@, fb, fk, fo, i as int),
        decreases db.len() - i,
    {
        let o = &db[i];
        let b = vec![o.bucket.clone()];
        assert(name_views(b@) =~= seq![o.bucket@]);
        let bk = vec![o.bucket.clone(), o.key.clone()];
        assert(name_views(bk@) =~= seq![o.bucket@, o.key@]);
        let bkc = vec![o.bucket.clone(), o.key.clone(), o.checksum.clone()];
        assert(name_views(bkc@) =~= seq![o.bucket@, o.key@, o.checksum@]);
        let bkn = vec![o.bucket.clone(), o.key.clone(), o.name.clone()];
        assert(name_views(bkn@) =~= seq![o.bucket@, o.key@, o.name@]);
        let ghost ob = buckets.view();
        let ghost ok = keys.view();
        let ghost oo = objects.view();
        if !fs.buckets.contains(&b) {
            buckets.insert(b);
        } else if !fs.keys.contains(&bk) {
            keys.insert(bk);
        } else if !fs.objects.contains(&bkc) {
            objects.insert(bkn);
        }
        proof {
            let n = i + 1;
            assert(buckets.view() =~= planned_buckets(db@, fb, n)) by {
                assert forall|t| #[trigger] planned_buckets(db@, fb, n).contains(t) implies buckets.view().contains(t) by {
                    let j = choose|j: int| 0 <= j < n && stale_bucket(fb, db@[j]) && t == seq![db@[j].bucket@];
                    if j < i {
                        assert(planned_buckets(db@, fb, i as int).contains(t));
                    }
                }
                assert forall|t| #[trigger] buckets.view().contains(t) implies planned_buckets(db@, fb, n).contains(t) by {
                    if ob.contains(t) {
                        let j = choose|j: int| 0 <= j < i && stale_bucket(fb, db@[j]) && t == seq![db@[j].bucket@];
                        assert(0 <= j < n);
                    } else {
                        assert(stale_bucket(fb, db@[i as int]) && t == seq![db@[i as int].bucket@]);
                    }
                }
            }
            assert(keys.view() =~= planned_keys(db@, fb, fk, n)) by {
                assert forall|t| #[trigger] planned_keys(db@, fb, fk, n).contains(t) implies keys.view().contains(t) by {
                    let j = choose|j: int|
                        0 <= j < n && stale_key(fb, fk, db@[j]) && t == seq![db@[j].bucket@, db@[j].key@];
                    if j < i {
                        assert(planned_keys(db@, fb, fk, i as int).contains(t));
                    }
                }
                assert forall|t| #[trigger] keys.view().contains(t) implies planned_keys(db@, fb, fk, n).contains(t) by {
                    if ok.contains(t) {
                        let j = choose|j: int|
                            0 <= j < i && stale_key(fb, fk, db@[j]) && t == seq![db@[j].bucket@, db@[j].key@];
                        assert(0 <= j < n);
                    } else {
                        assert(stale_key(fb, fk, db@[i as int]) && t == seq![db@[i as int].bucket@, db@[i as int].key@]);
                    }
                }
            }
            assert(objects.view() =~= planned_objects(db@, fb, fk, fo, n)) by {
                assert forall|t| #[trigger] planned_objects(db@, fb, fk, fo, n).contains(t) implies objects.view().contains(t) by {
                    let j = choose|j: int|
                        0 <= j < n && stale_object(fb, fk, fo, db@[j]) && t == seq![
                            db@[j].bucket@,
                            db@[j].key@,
                            db@[j].name@,
                        ];
                    if j < i {
                        assert(planned_objects(db@, fb, fk, fo, i as int).contains(t));
                    }
                }
                assert forall|t| #[trigger] objects.view().contains(t) implies planned_objects(db@, fb, fk, fo, n).contains(t) by {
                    if oo.contains(t) {
                        let j = choose|j: int|
                            0 <= j < i && stale_object(fb, fk, fo, db@[j]) && t == seq![
                                db@[j].bucket@,
                                db@[j].key@,
                                db@[j].name@,
                            ];
                        assert(0 <= j < n);
                    } else {
                        assert(stale_object(fb, fk, fo, db@[i as int]) && t == seq![
                            db@[i as int].bucket@,
                            db@[i as int].key@,
                            db@[i as int].name@,
                        ]);
                    }
                }
            }
        }
        i += 1;
    }
    SyncPlan { buckets, keys, objects }
}

} // verus!
