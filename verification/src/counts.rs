//! Occurrence counting of addresses per participant role. The tables keep,
//! for every address seen so far, the exact number of occurrences recorded,
//! and the result depends only on the collection of occurrences, never on
//! the order in which messages were processed.

use vstd::prelude::*;
use vstd::seq_lib::group_to_multiset_ensures;
use vstd::seq_lib::lemma_multiset_commutative;
use vstd::multiset::group_multiset_axioms;
use crate::address::{Address, AddressView, addr_views};
use crate::header::{HeaderRecord, HeaderView};

verus! {

/// Number of occurrences of `a` in the recorded history `s`. Defined through
/// the multiset of `s`, so it depends only on which occurrences were
/// recorded, not on their order.
pub open spec fn count_in(s: Seq<AddressView>, a: AddressView) -> nat {
    s.to_multiset().count(a)
}

/// Recording one more occurrence raises exactly the count of that address
/// by one and leaves every other count unchanged.
pub broadcast proof fn lemma_count_in_push(s: Seq<AddressView>, a: AddressView, b: AddressView)
    ensures
        #[trigger] count_in(s.push(b), a) == count_in(s, a) + (if a == b {
            1int
        } else {
            0int
        }),
{
    broadcast use group_to_multiset_ensures, group_multiset_axioms;

}

/// A count never exceeds the length of the history it was drawn from.
pub proof fn lemma_count_in_le_len(s: Seq<AddressView>, a: AddressView)
    ensures
        count_in(s, a) <= s.len(),
{
    broadcast use group_multiset_axioms;

    vstd::seq_lib::to_multiset_len(s);
}

/// Occurrence counts for one participant role. `log()` is the full history
/// of recorded occurrences; the table holds one entry per distinct address
/// that occurs in it, carrying exactly its number of occurrences.
pub struct RoleCounts {
    table: Vec<(Address, u64)>,
    total: u64,
    history: Ghost<Seq<AddressView>>,
}

impl RoleCounts {
    /// Everything recorded into this table so far, in recording order.
    pub closed spec fn log(self) -> Seq<AddressView> {
        self.history@
    }

    /// The number of occurrences of `a` recorded so far.
    pub open spec fn count(self, a: AddressView) -> nat {
        count_in(self.log(), a)
    }

    /// The table rows: one `(address, count)` pair per distinct address.
    pub closed spec fn rows(self) -> Seq<(Address, u64)> {
        self.table@
    }

    /// The stored total of recorded occurrences matches the history.
    pub closed spec fn total_tracked(self) -> bool {
        self.total as nat == self.history@.len()
    }

    /// How many occurrences were recorded so far.
    pub fn occupancy(&self) -> (r: u64)
        requires
            self.wf(),
        ensures
            r as nat == self.log().len(),
    {
        self.total
    }

    /// The table is exact: its keys are distinct, every key's stored count
    /// is its number of occurrences in the history, and every address that
    /// occurs in the history has a row.
    pub open spec fn wf(self) -> bool {
        &&& self.total_tracked()
        &&& forall|i: int, j: int|
            0 <= i < j < self.rows().len() ==> (#[trigger] self.rows()[i]).0@ != (
            #[trigger] self.rows()[j]).0@
        &&& forall|i: int|
            0 <= i < self.rows().len() ==> (#[trigger] self.rows()[i]).1 as nat == self.count(
                self.rows()[i].0@,
            )
        &&& forall|i: int| 0 <= i < self.rows().len() ==> (#[trigger] self.rows()[i]).1 > 0
        &&& forall|a: AddressView|
            count_in(self.log(), a) > 0 ==> exists|i: int|
                0 <= i < self.rows().len() && (#[trigger] self.rows()[i]).0@ == a
    }

    /// An empty table: nothing recorded, no rows.
    pub fn new() -> (r: RoleCounts)
        ensures
            r.wf(),
            r.log() == Seq::<AddressView>::empty(),
            r.rows() == Seq::<(Address, u64)>::empty(),
    {
        let r = RoleCounts { table: Vec::new(), total: 0, history: Ghost(Seq::empty()) };
        proof {
            assert forall|a: AddressView| count_in(r.log(), a) == 0 by {
                lemma_count_in_le_len(r.log(), a);
            }
        }
        r
    }

    /// Record one occurrence of `a`: its count rises by one, every other
    /// count stays as it was.
    pub fn record(&mut self, a: &Address)
        requires
            old(self).wf(),
            old(self).log().len() < u64::MAX as nat,
        ensures
            final(self).wf(),
            final(self).log() == old(self).log().push(a@),
    {
        let ghost prior = old(self).log();
        let n = self.table.len();
        let mut i: usize = 0;
        while i < n
            invariant
                n == self.table@.len(),
                i <= n,
                self.rows() == old(self).rows(),
                self.log() == old(self).log(),
                self.wf(),
                old(self).wf(),
                prior == old(self).log(),
                prior.len() < u64::MAX as nat,
                forall|j: int| 0 <= j < i ==> (#[trigger] self.table@[j]).0@ != a@,
            decreases n - i,
        {
            if self.table[i].0 == *a {
                proof {
                    lemma_count_in_le_len(prior, a@);
                    assert(old(self).rows()[i as int].1 as nat == count_in(prior, a@));
                }
                let c = self.table[i].1;
                self.table[i].1 = c + 1;
                self.total = self.total + 1;
                self.history = Ghost(prior.push(a@));
                proof {
                    broadcast use lemma_count_in_push;

                    assert(self.log() == prior.push(a@));
                    assert(self.rows().len() == old(self).rows().len());
                    assert(self.rows()[i as int].0 == old(self).rows()[i as int].0);
                    assert(forall|j: int|
                        0 <= j < self.rows().len() && j != i ==> self.rows()[j] == old(
                            self,
                        ).rows()[j]);
                    assert forall|p: int, q: int|
                        0 <= p < q < self.rows().len() implies (#[trigger] self.rows()[p]).0@ != (
                    #[trigger] self.rows()[q]).0@ by {
                        assert(old(self).rows()[p].0@ != old(self).rows()[q].0@);
                    }
                    assert forall|j: int| 0 <= j < self.rows().len() implies (
                    #[trigger] self.rows()[j]).1 as nat == count_in(
                        self.log(),
                        self.rows()[j].0@,
                    ) by {
                        if j == i {
                            assert(count_in(self.log(), a@) == count_in(prior, a@) + 1);
                        } else {
                            if old(self).rows()[j].0@ == a@ {
                                if j < i {
                                    assert(old(self).rows()[j].0@ != old(
                                        self,
                                    ).rows()[i as int].0@);
                                } else {
                                    assert(old(self).rows()[i as int].0@ != old(
                                        self,
                                    ).rows()[j].0@);
                                }
                                assert(false);
                            }
                            assert(count_in(self.log(), self.rows()[j].0@) == count_in(
                                prior,
                                old(self).rows()[j].0@,
                            ));
                        }
                    }
                    assert forall|b: AddressView| count_in(self.log(), b) > 0 implies exists|
                        k: int,
                    |
                        0 <= k < self.rows().len() && (#[trigger] self.rows()[k]).0@ == b by {
                        if b == a@ {
                            assert(self.rows()[i as int].0@ == b);
                        } else {
                            assert(count_in(self.log(), b) == count_in(prior, b));
                            assert(count_in(old(self).log(), b) > 0);
                            let k = choose|k: int|
                                0 <= k < old(self).rows().len() && (#[trigger] old(
                                    self,
                                ).rows()[k]).0@ == b;
                            assert(self.rows()[k].0@ == b);
                        }
                    }
                }
                return ;
            }
            i = i + 1;
        }
        self.table.push((a.clone(), 1));
        self.total = self.total + 1;
        self.history = Ghost(prior.push(a@));
        proof {
            broadcast use lemma_count_in_push;

            assert(self.log() == prior.push(a@));
            assert(self.rows() == old(self).rows().push(self.rows().last()));
            assert(self.rows().last().0@ == a@);
            if count_in(old(self).log(), a@) > 0 {
                let k = choose|k: int|
                    0 <= k < old(self).rows().len() && (#[trigger] old(self).rows()[k]).0@ == a@;
                assert(false);
            }
            assert(count_in(prior, a@) == 0);
            assert forall|j: int| 0 <= j < self.rows().len() implies (
            #[trigger] self.rows()[j]).1 as nat == count_in(self.log(), self.rows()[j].0@) by {
                if j < self.rows().len() - 1 {
                    assert(self.rows()[j] == old(self).rows()[j]);
                    assert(old(self).rows()[j].0@ != a@);
                    assert(count_in(self.log(), self.rows()[j].0@) == count_in(
                        prior,
                        old(self).rows()[j].0@,
                    ));
                } else {
                    assert(count_in(self.log(), a@) == count_in(prior, a@) + 1);
                }
            }
            assert forall|b: AddressView| count_in(self.log(), b) > 0 implies exists|k: int|
                0 <= k < self.rows().len() && (#[trigger] self.rows()[k]).0@ == b by {
                if b == a@ {
                    assert(self.rows()[self.rows().len() - 1].0@ == b);
                } else {
                    assert(count_in(self.log(), b) == count_in(prior, b));
                    assert(count_in(old(self).log(), b) > 0);
                    let k = choose|k: int|
                        0 <= k < old(self).rows().len() && (#[trigger] old(self).rows()[k]).0@
                            == b;
                    assert(self.rows()[k].0@ == b);
                }
            }
        }
    }

    /// Record one occurrence of every address in `list`, in order.
    pub fn record_all(&mut self, list: &Vec<Address>)
        requires
            old(self).wf(),
            old(self).log().len() + list@.len() < u64::MAX as nat,
        ensures
            final(self).wf(),
            final(self).log() == old(self).log() + addr_views(list@),
    {
        let ghost prior = self.log();
        let n = list.len();
        let mut i: usize = 0;
        while i < n
            invariant
                n == list@.len(),
                i <= n,
                self.wf(),
                self.log() == prior + addr_views(list@.subrange(0, i as int)),
                prior.len() + list@.len() < u64::MAX as nat,
            decreases n - i,
        {
            self.record(&list[i]);
            proof {
                assert(addr_views(list@.subrange(0, i + 1int)) =~= addr_views(
                    list@.subrange(0, i as int),
                ).push(list@[i as int]@));
                assert(self.log() =~= prior + addr_views(list@.subrange(0, i + 1int)));
            }
            i = i + 1;
        }
        proof {
            assert(list@.subrange(0, n as int) =~= list@);
        }
    }

    /// The count recorded for `a`: zero exactly when it never occurred.
    pub fn count_of(&self, a: &Address) -> (r: u64)
        requires
            self.wf(),
        ensures
            r as nat == self.count(a@),
    {
        let n = self.table.len();
        let mut i: usize = 0;
        while i < n
            invariant
                n == self.table@.len(),
                i <= n,
                self.wf(),
                forall|j: int| 0 <= j < i ==> (#[trigger] self.table@[j]).0@ != a@,
            decreases n - i,
        {
            if self.table[i].0 == *a {
                proof {
                    assert(self.rows()[i as int].1 as nat == self.count(self.rows()[i as int].0@));
                }
                return self.table[i].1;
            }
            i = i + 1;
        }
        proof {
            if count_in(self.log(), a@) > 0 {
                let k = choose|k: int|
                    0 <= k < self.rows().len() && (#[trigger] self.rows()[k]).0@ == a@;
                assert(false);
            }
        }
        0
    }

    /// Read access to the rows for export.
    pub fn snapshot(&self) -> (r: &Vec<(Address, u64)>)
        ensures
            r@ == self.rows(),
    {
        &self.table
    }
}

/// The process-wide aggregate: one counting table per participant role.
pub struct Aggregator {
    pub from: RoleCounts,
    pub to: RoleCounts,
    pub cc: RoleCounts,
    pub bcc: RoleCounts,
}

impl Aggregator {
    pub open spec fn wf(self) -> bool {
        self.from.wf() && self.to.wf() && self.cc.wf() && self.bcc.wf()
    }

    /// Empty tables for all four roles.
    pub fn new() -> (r: Aggregator)
        ensures
            r.wf(),
            r.from.log() == Seq::<AddressView>::empty(),
            r.to.log() == Seq::<AddressView>::empty(),
            r.cc.log() == Seq::<AddressView>::empty(),
            r.bcc.log() == Seq::<AddressView>::empty(),
    {
        Aggregator {
            from: RoleCounts::new(),
            to: RoleCounts::new(),
            cc: RoleCounts::new(),
            bcc: RoleCounts::new(),
        }
    }

    /// Record one message: every occurrence of an address in a role list
    /// raises that role's count for it by one, duplicates included.
    pub fn record(&mut self, h: &HeaderRecord)
        requires
            old(self).wf(),
            old(self).from.log().len() + h.from@.len() < u64::MAX as nat,
            old(self).to.log().len() + h.to@.len() < u64::MAX as nat,
            old(self).cc.log().len() + h.cc@.len() < u64::MAX as nat,
            old(self).bcc.log().len() + h.bcc@.len() < u64::MAX as nat,
        ensures
            final(self).wf(),
            final(self).from.log() == old(self).from.log() + h@.from,
            final(self).to.log() == old(self).to.log() + h@.to,
            final(self).cc.log() == old(self).cc.log() + h@.cc,
            final(self).bcc.log() == old(self).bcc.log() + h@.bcc,
    {
        self.from.record_all(&h.from);
        self.to.record_all(&h.to);
        self.cc.record_all(&h.cc);
        self.bcc.record_all(&h.bcc);
    }
}

/// Aggregation is insensitive to processing order: whenever two runs record
/// the same occurrences — the histories hold the same multiset — every
/// address ends with the same count in both.
pub proof fn lemma_counts_order_irrelevant(s1: Seq<AddressView>, s2: Seq<AddressView>)
    requires
        s1.to_multiset() == s2.to_multiset(),
    ensures
        forall|a: AddressView| count_in(s1, a) == count_in(s2, a),
{
}

/// Two batches of occurrences may be recorded in either order: the final
/// count of every address is the same.
pub proof fn lemma_record_order_commutes(s1: Seq<AddressView>, s2: Seq<AddressView>)
    ensures
        forall|a: AddressView| count_in(s1 + s2, a) == count_in(s2 + s1, a),
{
    broadcast use group_multiset_axioms;

    lemma_multiset_commutative(s1, s2);
    lemma_multiset_commutative(s2, s1);
}

/// The occurrences one role receives from a batch of header records: each
/// record's list for that role, concatenated in processing order. `sel`
/// picks the role list of a record.
pub open spec fn batch_log(
    hs: Seq<HeaderView>,
    sel: spec_fn(HeaderView) -> Seq<AddressView>,
) -> Seq<AddressView>
    decreases hs.len(),
{
    if hs.len() == 0 {
        Seq::empty()
    } else {
        batch_log(hs.drop_last(), sel) + sel(hs.last())
    }
}

/// Taking one record out of a batch takes exactly its occurrences out of
/// the batch's occurrence multiset.
proof fn lemma_batch_log_remove(
    hs: Seq<HeaderView>,
    sel: spec_fn(HeaderView) -> Seq<AddressView>,
    i: int,
)
    requires
        0 <= i < hs.len(),
    ensures
        batch_log(hs, sel).to_multiset() == batch_log(hs.remove(i), sel).to_multiset().add(
            sel(hs[i]).to_multiset(),
        ),
    decreases hs.len(),
{
    broadcast use group_multiset_axioms;

    lemma_multiset_commutative(batch_log(hs.drop_last(), sel), sel(hs.last()));
    if i == hs.len() - 1 {
        assert(hs.remove(i) =~= hs.drop_last());
        assert(batch_log(hs, sel).to_multiset() =~= batch_log(hs.remove(i), sel).to_multiset().add(
            sel(hs[i]).to_multiset(),
        ));
    } else {
        let dl = hs.drop_last();
        lemma_batch_log_remove(dl, sel, i);
        assert(hs.remove(i).drop_last() =~= dl.remove(i));
        assert(hs.remove(i).last() == hs.last());
        lemma_multiset_commutative(batch_log(hs.remove(i).drop_last(), sel), sel(hs.remove(i).last()));
        assert(batch_log(hs, sel).to_multiset() =~= batch_log(hs.remove(i), sel).to_multiset().add(
            sel(hs[i]).to_multiset(),
        ));
    }
}

/// Aggregation over a whole batch is insensitive to processing order: two
/// runs over the same records — however each of them orders the batch —
/// give every address the same count in the role that `sel` picks.
pub proof fn lemma_batch_order_irrelevant(
    hs1: Seq<HeaderView>,
    hs2: Seq<HeaderView>,
    sel: spec_fn(HeaderView) -> Seq<AddressView>,
)
    requires
        hs1.to_multiset() == hs2.to_multiset(),
    ensures
        forall|a: AddressView| count_in(batch_log(hs1, sel), a) == count_in(batch_log(hs2, sel), a),
    decreases hs1.len(),
{
    broadcast use group_multiset_axioms, group_to_multiset_ensures;

    if hs1.len() == 0 {
        vstd::seq_lib::to_multiset_len(hs1);
        vstd::seq_lib::to_multiset_len(hs2);
        assert(hs2.len() == 0);
        assert(hs1 =~= hs2);
    } else {
        let x = hs1.last();
        assert(hs1.contains(x));
        assert(hs2.to_multiset().count(x) > 0);
        assert(hs2.contains(x));
        let i = choose|i: int| 0 <= i < hs2.len() && hs2[i] == x;
        let last1: int = hs1.len() - 1;
        let hs1p = hs1.drop_last();
        let hs2p = hs2.remove(i);
        assert(hs1.remove(last1) =~= hs1p);
        assert(hs1.remove(last1).to_multiset() =~= hs1.to_multiset().remove(x));
        assert(hs2p.to_multiset() =~= hs2.to_multiset().remove(x));
        assert(hs1p.to_multiset() == hs2p.to_multiset());
        lemma_batch_order_irrelevant(hs1p, hs2p, sel);
        lemma_batch_log_remove(hs1, sel, last1);
        lemma_batch_log_remove(hs2, sel, i);
        assert forall|a: AddressView|
            count_in(batch_log(hs1, sel), a) == count_in(batch_log(hs2, sel), a) by {
            assert(count_in(batch_log(hs1p, sel), a) == count_in(batch_log(hs2p, sel), a));
            assert(batch_log(hs1, sel).to_multiset().count(a) == batch_log(hs1p, sel).to_multiset().count(a)
                + sel(x).to_multiset().count(a));
            assert(batch_log(hs2, sel).to_multiset().count(a) == batch_log(hs2p, sel).to_multiset().count(a)
                + sel(hs2[i]).to_multiset().count(a));
        }
    }
}

/// Two addresses with the same email but different display names are
/// distinct entities: recording one raises its own count and leaves the
/// other's untouched.
pub proof fn lemma_display_name_distinguishes(
    s: Seq<AddressView>,
    a1: AddressView,
    a2: AddressView,
)
    requires
        a1.addr == a2.addr,
        a1.name != a2.name,
    ensures
        count_in(s.push(a1), a1) == count_in(s, a1) + 1,
        count_in(s.push(a1), a2) == count_in(s, a2),
{
    broadcast use lemma_count_in_push;

}

} // verus!
