//! Snapshot bookkeeping: the snapshot records, their ordering by creation
//! time, and the choice of which snapshots a cleanup removes. Copying files
//! into and out of a snapshot is the shell's work.

use vstd::prelude::*;
use vstd::string::*;
use crate::codec::{JsonValue, JsonVal};
use crate::memory::{fresh_id, now_rfc3339};
use crate::strutil::{lex_le, str_le};

verus! {

/// One snapshot's record.
#[derive(Debug)]
pub struct Snapshot {
    pub id: String,
    pub description: String,
    pub created_at: String,
    pub metadata: JsonValue,
}

#[verifier::ext_equal]
pub struct SnapshotV {
    pub id: Seq<char>,
    pub description: Seq<char>,
    pub created_at: Seq<char>,
    pub metadata: JsonVal,
}

impl View for Snapshot {
    type V = SnapshotV;

    open spec fn view(&self) -> SnapshotV {
        SnapshotV {
            id: self.id@,
            description: self.description@,
            created_at: self.created_at@,
            metadata: self.metadata@,
        }
    }
}

/// The views of a sequence of snapshot records.
pub open spec fn snap_views(s: Seq<Snapshot>) -> Seq<SnapshotV> {
    Seq::new(s.len(), |i: int| s[i]@)
}

/// Newest first: creation stamps weakly decrease.
pub open spec fn sorted_desc(s: Seq<SnapshotV>) -> bool {
    forall|i: int|
        0 <= i && i + 1 < s.len() ==> lex_le(#[trigger] s[i + 1].created_at, s[i].created_at)
}

/// Keeps snapshot records and the bound on how many may stay.
#[derive(Debug)]
pub struct RecoveryManager {
    snapshots_dir: String,
    max_snapshots: usize,
}

impl RecoveryManager {
    /// A manager over the given directory, keeping at most `max_snapshots`
    /// snapshots. The directory itself is created by the shell.
    pub fn new(snapshots_dir: String, max_snapshots: usize) -> (r: RecoveryManager)
        ensures
            r.snapshots_dir_spec() == snapshots_dir@,
            r.max_snapshots_spec() == max_snapshots,
    {
        RecoveryManager { snapshots_dir, max_snapshots }
    }

    pub closed spec fn snapshots_dir_spec(&self) -> Seq<char> {
        self.snapshots_dir@
    }

    /// The directory the snapshots live under.
    pub fn snapshots_dir(&self) -> (s: &String)
        ensures
            s@ == self.snapshots_dir_spec(),
    {
        &self.snapshots_dir
    }

    /// How many snapshots the cleanup keeps.
    pub fn max_snapshots(&self) -> (n: usize)
        ensures
            n == self.max_snapshots_spec(),
    {
        self.max_snapshots
    }

    pub closed spec fn max_snapshots_spec(&self) -> usize {
        self.max_snapshots
    }

    /// A fresh snapshot record with the given description, stamped with a
    /// new identifier and the current time.
    pub fn snapshot_record(&self, description: &str) -> (s: Snapshot)
        ensures
            s@.description == description@,
            s@.id.len() == 26,
            s@.created_at.len() >= 1,
            s@.metadata == JsonVal::Obj(Seq::empty()),
    {
        let s = Snapshot {
            id: fresh_id(),
            description: String::from_str(description),
            created_at: now_rfc3339(),
            metadata: JsonValue::Obj(Vec::new()),
        };
        proof {
            assert(crate::codec::jv_fields(Seq::<(String, JsonValue)>::empty()) =~= Seq::<
                (Seq<char>, JsonVal),
            >::empty());
        }
        s
    }

    /// Picks the snapshots a cleanup deletes: with the list sorted newest
    /// first, everything past the first `max_snapshots` records goes,
    /// oldest first.
    pub fn snapshots_to_delete<'a>(&self, sorted: &'a Vec<Snapshot>) -> (r: Vec<&'a Snapshot>)
        ensures
            sorted@.len() <= self.max_snapshots_spec() ==> r@.len() == 0,
            sorted@.len() > self.max_snapshots_spec() ==> {
                &&& r@.len() == sorted@.len() - self.max_snapshots_spec()
                &&& forall|m: int|
                    0 <= m < r@.len() ==> (#[trigger] r@[m]@) == sorted@[sorted@.len() - 1 - m]@
            },
    {
        let mut r: Vec<&'a Snapshot> = Vec::new();
        if sorted.len() <= self.max_snapshots {
            return r;
        }
        let excess: usize = sorted.len() - self.max_snapshots;
        let mut m: usize = 0;
        while m < excess
            invariant
                excess == sorted@.len() - self.max_snapshots_spec(),
                self.max_snapshots_spec() < sorted@.len(),
                m <= excess,
                r@.len() == m,
                forall|x: int|
                    0 <= x < m ==> (#[trigger] r@[x]@) == sorted@[sorted@.len() - 1 - x]@,
            decreases excess - m,
        {
            r.push(&sorted[sorted.len() - 1 - m]);
            m = m + 1;
        }
        r
    }
}

/// Sorts snapshot records newest first; the result holds exactly the given
/// records.
pub fn sort_snapshots_desc(v: Vec<Snapshot>) -> (out: Vec<Snapshot>)
    ensures
        sorted_desc(snap_views(out@)),
        snap_views(out@).to_multiset() == snap_views(v@).to_multiset(),
{
    broadcast use vstd::seq_lib::group_to_multiset_ensures;

    let ghost orig = snap_views(v@);
    let mut v = v;
    let mut out: Vec<Snapshot> = Vec::new();
    proof {
        assert(snap_views(out@) =~= Seq::<SnapshotV>::empty());
        assert(snap_views(v@).to_multiset() =~= snap_views(out@).to_multiset().add(
            snap_views(v@).to_multiset(),
        ));
    }
    while v.len() > 0
        invariant
            sorted_desc(snap_views(out@)),
            snap_views(v@).to_multiset().add(snap_views(out@).to_multiset())
                == orig.to_multiset(),
        decreases v.len(),
    {
        let ghost pre_v = snap_views(v@);
        let x = v.remove(0);
        proof {
            pre_v.to_multiset_ensures();
            assert(snap_views(v@) =~= pre_v.remove(0));
            assert(pre_v[0] == x@);
            assert(pre_v.remove(0).to_multiset() =~= pre_v.to_multiset().remove(x@));
            assert(pre_v.to_multiset().count(x@) > 0) by {
                assert(pre_v.contains(pre_v[0]));
            }
        }
        insert_desc(&mut out, x);
        proof {
            assert(snap_views(v@).to_multiset().add(snap_views(out@).to_multiset())
                =~= orig.to_multiset());
        }
    }
    proof {
        assert(snap_views(v@) =~= Seq::<SnapshotV>::empty());
        assert(snap_views(v@).to_multiset().add(snap_views(out@).to_multiset()) =~= snap_views(
            out@,
        ).to_multiset());
    }
    out
}

fn stays_before(x: &Snapshot, out: &Vec<Snapshot>, pos: usize) -> (r: bool)
    requires
        pos < out@.len(),
    ensures
        r == !lex_le(out@[pos as int].created_at@, x.created_at@),
{
    !str_le(out[pos].created_at.as_str(), x.created_at.as_str())
}

/// Inserts a record into a newest-first vector, keeping the order.
#[verifier::rlimit(50)]
fn insert_desc(out: &mut Vec<Snapshot>, x: Snapshot)
    requires
        sorted_desc(snap_views(old(out)@)),
    ensures
        sorted_desc(snap_views(final(out)@)),
        snap_views(final(out)@).to_multiset() == snap_views(old(out)@).to_multiset().insert(x@),
    decreases old(out)@.len(),
{
    broadcast use vstd::seq_lib::group_to_multiset_ensures;

    let mut pos: usize = 0;
    while pos < out.len() && stays_before(&x, out, pos)
        invariant
            pos <= out@.len(),
            sorted_desc(snap_views(out@)),
            out@ == old(out)@,
            forall|m: int|
                0 <= m < pos ==> lex_le(x.created_at@, (#[trigger] snap_views(out@)[m]).created_at),
        decreases out@.len() - pos,
    {
        proof {
            crate::strutil::lemma_lex_total(x.created_at@, out@[pos as int].created_at@);
            assert(snap_views(out@)[pos as int] == out@[pos as int]@);
        }
        pos = pos + 1;
    }
    proof {
        if pos < out@.len() {
            assert(lex_le(out@[pos as int].created_at@, x.created_at@));
        }
    }
    let ghost pre = snap_views(out@);
    let ghost xv = x@;
    out.insert(pos, x);
    proof {
        let post = snap_views(out@);
        pre.insert_ensures(pos as int, xv);
        assert forall|m: int| 0 <= m < post.len() implies post[m] == pre.insert(pos as int, xv)[m]
            by {
            if m < pos {
                assert(pre.insert(pos as int, xv)[m] == pre[m]);
                assert(out@[m] == old(out)@[m]);
            } else if m == pos {
            } else {
                assert(pre.insert(pos as int, xv)[(m - 1) + 1] == pre[m - 1]);
            }
        }
        assert(post =~= pre.insert(pos as int, xv));
        assert forall|i: int| 0 <= i && i + 1 < post.len() implies lex_le(
            post[i + 1].created_at,
            #[trigger] post[i].created_at,
        ) by {
            let ins = pre.insert(pos as int, xv);
            if i + 1 < pos {
                assert(ins[i] == pre[i]);
                assert(ins[i + 1] == pre[i + 1]);
            } else if i + 1 == pos {
                assert(ins[i] == pre[i]);
            } else if i == pos {
                assert(ins[i + 1] == pre[i]);
            } else {
                assert(ins[(i - 1) + 1] == pre[i - 1]);
                assert(ins[i + 1] == pre[i]);
            }
        }
        lemma_insert_to_multiset_snap(pre, pos as int, xv);
    }
}

proof fn lemma_insert_to_multiset_snap(s: Seq<SnapshotV>, pos: int, x: SnapshotV)
    requires
        0 <= pos <= s.len(),
    ensures
        s.insert(pos, x).to_multiset() == s.to_multiset().insert(x),
    decreases s.len() - pos,
{
    broadcast use vstd::seq_lib::group_to_multiset_ensures;

    s.to_multiset_ensures();
    if pos == s.len() {
        assert(s.insert(pos, x) =~= s.push(x));
    } else {
        let t = s.insert(pos, x);
        t.to_multiset_ensures();
        s.insert_ensures(pos, x);
        assert(t.remove(pos) =~= s);
        assert(t[pos] == x);
        assert(t.remove(pos).to_multiset() =~= t.to_multiset().remove(x));
        assert(t.to_multiset().count(x) > 0) by {
            assert(t.contains(t[pos]));
        }
        assert(s.to_multiset().insert(x) =~= t.to_multiset());
    }
}

} // verus!
