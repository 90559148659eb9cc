//! The order of records: from the newest to the oldest.

use vstd::prelude::*;
use crate::conversation::{views, ConversationMeta, MetaView};

verus! {

/// `x` put into `s` before the first record that is not newer than `x`.
pub open spec fn insert_recent(x: MetaView, s: Seq<MetaView>) -> Seq<MetaView>
    decreases s.len(),
{
    if s.len() == 0 || s[0].modified_at <= x.modified_at {
        seq![x] + s
    } else {
        seq![s[0]] + insert_recent(x, s.drop_first())
    }
}

/// The records of `s` from the newest to the oldest. Records of the same
/// time keep the order they have in `s`.
pub open spec fn by_recency(s: Seq<MetaView>) -> Seq<MetaView>
    decreases s.len(),
{
    if s.len() == 0 {
        s
    } else {
        insert_recent(s[0], by_recency(s.drop_first()))
    }
}

/// No record of `s` is newer than one before it.
pub open spec fn newest_first(s: Seq<MetaView>) -> bool {
    forall|i: int, j: int| 0 <= i <= j < s.len() ==> s[i].modified_at >= s[j].modified_at
}

proof fn lemma_insert_recent_at(x: MetaView, s: Seq<MetaView>, k: int)
    requires
        0 <= k <= s.len(),
        forall|j: int| 0 <= j < k ==> s[j].modified_at > x.modified_at,
        k < s.len() ==> s[k].modified_at <= x.modified_at,
    ensures
        insert_recent(x, s) == s.insert(k, x),
    decreases s.len(),
{
    if k == 0 {
        assert(seq![x] + s =~= s.insert(0, x));
    } else {
        let t = s.drop_first();
        assert forall|j: int| 0 <= j < k - 1 implies t[j].modified_at > x.modified_at by {
            assert(t[j] == s[j + 1]);
        }
        lemma_insert_recent_at(x, t, k - 1);
        assert(seq![s[0]] + t.insert(k - 1, x) =~= s.insert(k, x));
    }
}

/// Putting a record into an ordered sequence keeps it ordered, and adds
/// that record and no other.
proof fn lemma_insert_recent(x: MetaView, s: Seq<MetaView>)
    requires
        newest_first(s),
    ensures
        newest_first(insert_recent(x, s)),
        insert_recent(x, s).to_multiset() == s.to_multiset().insert(x),
        insert_recent(x, s).len() == s.len() + 1,
    decreases s.len(),
{
    broadcast use vstd::seq_lib::group_to_multiset_ensures;

    let r = insert_recent(x, s);
    if s.len() == 0 || s[0].modified_at <= x.modified_at {
        assert(r =~= s.insert(0, x));
        assert forall|i: int, j: int| 0 <= i <= j < r.len() implies r[i].modified_at
            >= r[j].modified_at by {
            if i > 0 {
                assert(r[i] == s[i - 1] && r[j] == s[j - 1]);
            } else if j > 0 {
                assert(r[j] == s[j - 1]);
                assert(s[0].modified_at >= s[j - 1].modified_at);
            }
        }
        lemma_insert_multiset(s, 0, x);
    } else {
        let t = s.drop_first();
        assert forall|i: int, j: int| 0 <= i <= j < t.len() implies t[i].modified_at
            >= t[j].modified_at by {
            assert(t[i] == s[i + 1] && t[j] == s[j + 1]);
        }
        lemma_insert_recent(x, t);
        let u = insert_recent(x, t);
        assert(r == seq![s[0]] + u);
        assert forall|i: int, j: int| 0 <= i <= j < r.len() implies r[i].modified_at
            >= r[j].modified_at by {
            if i > 0 {
                assert(r[i] == u[i - 1] && r[j] == u[j - 1]);
            } else if j > 0 {
                assert(r[j] == u[j - 1]);
                assert(u.to_multiset().count(u[j - 1]) > 0);
                assert(u.contains(u[j - 1]));
                if u[j - 1] != x {
                    assert(t.to_multiset().count(u[j - 1]) > 0);
                    assert(t.contains(u[j - 1]));
                    let w = choose|w: int| 0 <= w < t.len() && t[w] == u[j - 1];
                    assert(s[w + 1] == t[w]);
                }
            }
        }
        assert(r =~= u.insert(0, s[0]));
        lemma_insert_multiset(u, 0, s[0]);
        assert(s =~= t.insert(0, s[0]));
        lemma_insert_multiset(t, 0, s[0]);
        assert(r.to_multiset() =~= s.to_multiset().insert(x));
    }
}

/// Inserting `x` anywhere into `s` adds one `x` to what `s` holds.
proof fn lemma_insert_multiset<A>(s: Seq<A>, k: int, x: A)
    requires
        0 <= k <= s.len(),
    ensures
        s.insert(k, x).to_multiset() == s.to_multiset().insert(x),
    decreases s.len() - k,
{
    broadcast use vstd::seq_lib::group_to_multiset_ensures;

    if k == s.len() {
        assert(s.insert(k, x) =~= s.push(x));
    } else {
        let last = s.last();
        let front = s.drop_last();
        assert(s =~= front.push(last));
        assert(s.insert(k, x) =~= front.insert(k, x).push(last));
        lemma_insert_multiset(front, k, x);
        assert(s.insert(k, x).to_multiset() =~= s.to_multiset().insert(x));
    }
}

/// Ordering gives an ordered sequence that holds what the given one
/// holds, each record as often as there.
pub proof fn law_ordering_permutes(s: Seq<MetaView>)
    ensures
        newest_first(by_recency(s)),
        by_recency(s).to_multiset() == s.to_multiset(),
        by_recency(s).len() == s.len(),
    decreases s.len(),
{
    if s.len() > 0 {
        let t = s.drop_first();
        law_ordering_permutes(t);
        lemma_insert_recent(s[0], by_recency(t));
        assert(s =~= t.insert(0, s[0]));
        lemma_insert_multiset(t, 0, s[0]);
    }
}

/// Orders records from the newest to the oldest; records of the same time
/// keep their order.
pub fn sort_by_recency(list: Vec<ConversationMeta>) -> (out: Vec<ConversationMeta>)
    ensures
        views(out@) == by_recency(views(list@)),
        newest_first(views(out@)),
        views(out@).to_multiset() == views(list@).to_multiset(),
{
    let ghost all = views(list@);
    let mut rest = list;
    let mut out: Vec<ConversationMeta> = Vec::new();
    proof {
        assert(all.skip(all.len() as int) =~= Seq::empty());
        assert(views(out@) =~= Seq::empty());
    }
    while rest.len() > 0
        invariant
            rest.len() <= all.len(),
            views(rest@) == all.take(rest.len() as int),
            views(out@) == by_recency(all.skip(rest.len() as int)),
        decreases rest.len(),
    {
        let ghost before = out@;
        let ghost n = rest.len() - 1;
        let ghost full = rest@;
        let x = rest.pop().unwrap();
        let mut k: usize = 0;
        proof {
            assert(x@ == views(full)[n]);
            assert(all.take(n + 1)[n] == all[n]);
            assert(views(rest@) =~= all.take(n));
        }
        while k < out.len() && out[k].modified_at > x.modified_at
            invariant
                k <= out.len(),
                out@ == before,
                forall|j: int| 0 <= j < k ==> views(before)[j].modified_at > x@.modified_at,
            decreases out.len() - k,
        {
            k = k + 1;
        }
        out.insert(k, x);
        proof {
            lemma_insert_recent_at(x@, views(before), k as int);
            assert(views(before.insert(k as int, x)) =~= views(before).insert(k as int, x@));
            assert(all.skip(n).drop_first() =~= all.skip(n + 1));
        }
    }
    proof {
        assert(all.skip(0) =~= all);
        law_ordering_permutes(all);
    }
    out
}

/// Ordering leaves an ordered sequence as it is; so ordering twice is
/// ordering once.
pub proof fn law_ordered_stays(s: Seq<MetaView>)
    requires
        newest_first(s),
    ensures
        by_recency(s) == s,
    decreases s.len(),
{
    if s.len() > 0 {
        let t = s.drop_first();
        assert forall|i: int, j: int| 0 <= i <= j < t.len() implies t[i].modified_at
            >= t[j].modified_at by {
            assert(t[i] == s[i + 1] && t[j] == s[j + 1]);
        }
        law_ordered_stays(t);
        if t.len() > 0 {
            assert(t[0] == s[1]);
        }
        assert(seq![s[0]] + t =~= s);
    }
}

/// The records of `s` that were last changed at `time`, in their order.
pub open spec fn changed_at(s: Seq<MetaView>, time: i64) -> Seq<MetaView>
    decreases s.len(),
{
    if s.len() == 0 {
        s
    } else if s[0].modified_at == time {
        seq![s[0]] + changed_at(s.drop_first(), time)
    } else {
        changed_at(s.drop_first(), time)
    }
}

proof fn lemma_insert_recent_changed_at(x: MetaView, s: Seq<MetaView>, time: i64)
    ensures
        changed_at(insert_recent(x, s), time) == if x.modified_at == time {
            seq![x] + changed_at(s, time)
        } else {
            changed_at(s, time)
        },
    decreases s.len(),
{
    let r = insert_recent(x, s);
    if s.len() == 0 || s[0].modified_at <= x.modified_at {
        assert(r[0] == x);
        assert(r.drop_first() =~= s);
    } else {
        let t = s.drop_first();
        lemma_insert_recent_changed_at(x, t, time);
        assert(r[0] == s[0]);
        assert(r.drop_first() =~= insert_recent(x, t));
    }
}

/// Ordering is stable: the records of one time come in the order in which
/// they were given.
pub proof fn law_ordering_is_stable(s: Seq<MetaView>, time: i64)
    ensures
        changed_at(by_recency(s), time) == changed_at(s, time),
    decreases s.len(),
{
    if s.len() > 0 {
        law_ordering_is_stable(s.drop_first(), time);
        lemma_insert_recent_changed_at(s[0], by_recency(s.drop_first()), time);
    }
}

} // verus!
