//! Transmission edges: one directed sender→recipient relation per
//! (sender, recipient, role) combination of a message, tagged with the
//! message date. The cross product is taken literally: self-addressed mail
//! yields a self-loop, and nothing is deduplicated.

use vstd::prelude::*;
use vstd::seq_lib::group_filter_ensures;
use crate::address::{Address, AddressView, addr_views};
use crate::header::{HeaderRecord, HeaderView};

verus! {

/// The recipient role an edge was derived from.
#[derive(Clone, Copy, PartialEq, Eq, Structural, Debug)]
pub enum TransmissionKind {
    To,
    Cc,
    Bcc,
}

/// The report label of a kind.
pub open spec fn kind_label(k: TransmissionKind) -> Seq<char> {
    match k {
        TransmissionKind::To => "to"@,
        TransmissionKind::Cc => "cc"@,
        TransmissionKind::Bcc => "bcc"@,
    }
}

impl TransmissionKind {
    /// The label under which this kind appears in the edge report.
    pub fn label(&self) -> (r: String)
        ensures
            r@ == kind_label(*self),
    {
        match self {
            TransmissionKind::To => "to".to_owned(),
            TransmissionKind::Cc => "cc".to_owned(),
            TransmissionKind::Bcc => "bcc".to_owned(),
        }
    }
}

/// Mathematical value of a [`Transmission`].
#[verifier::ext_equal]
pub struct TransmissionView {
    pub source: AddressView,
    pub target: AddressView,
    pub date: Seq<char>,
    pub kind: TransmissionKind,
}

/// One directed sender→recipient relation derived from a message.
pub struct Transmission {
    pub source: Address,
    pub target: Address,
    pub date: String,
    pub kind: TransmissionKind,
}

impl View for Transmission {
    type V = TransmissionView;

    open spec fn view(&self) -> TransmissionView {
        TransmissionView { source: self.source@, target: self.target@, date: self.date@, kind: self.kind }
    }
}

/// The mathematical values of a sequence of transmissions.
pub open spec fn trans_views(s: Seq<Transmission>) -> Seq<TransmissionView> {
    s.map_values(|t: Transmission| t@)
}

/// The edges from one sender to every recipient of one role list.
pub open spec fn tagged_edges(
    s: AddressView,
    targets: Seq<AddressView>,
    date: Seq<char>,
    kind: TransmissionKind,
) -> Seq<TransmissionView> {
    targets.map_values(|t: AddressView| TransmissionView { source: s, target: t, date, kind })
}

/// All edges contributed by one sender: its `to`, then `cc`, then `bcc`
/// recipients.
pub open spec fn sender_edges(s: AddressView, h: HeaderView) -> Seq<TransmissionView> {
    tagged_edges(s, h.to, h.date, TransmissionKind::To) + tagged_edges(
        s,
        h.cc,
        h.date,
        TransmissionKind::Cc,
    ) + tagged_edges(s, h.bcc, h.date, TransmissionKind::Bcc)
}

/// All edges of a message: the contributions of its senders, in order.
pub open spec fn edges_of(h: HeaderView) -> Seq<TransmissionView>
    decreases h.from.len(),
{
    if h.from.len() == 0 {
        Seq::empty()
    } else {
        edges_of(
            HeaderView { from: h.from.drop_last(), to: h.to, cc: h.cc, bcc: h.bcc, date: h.date },
        ) + sender_edges(h.from.last(), h)
    }
}

/// The recipient list of `h` for role `k`.
pub open spec fn role_list(h: HeaderView, k: TransmissionKind) -> Seq<AddressView> {
    match k {
        TransmissionKind::To => h.to,
        TransmissionKind::Cc => h.cc,
        TransmissionKind::Bcc => h.bcc,
    }
}

/// Append the edges from `source` to every address of `targets` to `r`.
fn push_tagged(
    r: &mut Vec<Transmission>,
    source: &Address,
    targets: &Vec<Address>,
    date: &String,
    kind: TransmissionKind,
)
    ensures
        trans_views(final(r)@) == trans_views(old(r)@) + tagged_edges(
            source@,
            addr_views(targets@),
            date@,
            kind,
        ),
{
    let ghost base = trans_views(r@);
    let n = targets.len();
    let mut j: usize = 0;
    while j < n
        invariant
            n == targets@.len(),
            j <= n,
            trans_views(r@) == base + tagged_edges(
                source@,
                addr_views(targets@.subrange(0, j as int)),
                date@,
                kind,
            ),
        decreases n - j,
    {
        let ghost pre = r@;
        r.push(
            Transmission {
                source: source.clone(),
                target: targets[j].clone(),
                date: date.clone(),
                kind,
            },
        );
        proof {
            let e = TransmissionView {
                source: source@,
                target: targets@[j as int]@,
                date: date@,
                kind,
            };
            assert(r@.last()@ =~= e);
            assert(trans_views(r@) =~= trans_views(pre).push(e));
            assert(addr_views(targets@.subrange(0, j + 1int)) =~= addr_views(
                targets@.subrange(0, j as int),
            ).push(targets@[j as int]@));
            assert(tagged_edges(source@, addr_views(targets@.subrange(0, j + 1int)), date@, kind)
                =~= tagged_edges(
                source@,
                addr_views(targets@.subrange(0, j as int)),
                date@,
                kind,
            ).push(e));
            assert(trans_views(r@) =~= base + tagged_edges(
                source@,
                addr_views(targets@.subrange(0, j + 1int)),
                date@,
                kind,
            ));
        }
        j = j + 1;
    }
    proof {
        assert(targets@.subrange(0, n as int) =~= targets@);
    }
}

/// All transmission edges of one message: the full sender × recipient cross
/// product, per recipient role, each edge carrying the message date.
pub fn edges_for(h: &HeaderRecord) -> (r: Vec<Transmission>)
    ensures
        trans_views(r@) == edges_of(h@),
{
    let mut r: Vec<Transmission> = Vec::new();
    let nf = h.from.len();
    let mut i: usize = 0;
    proof {
        assert(trans_views(r@) =~= edges_of(
            HeaderView {
                from: h@.from.subrange(0, 0),
                to: h@.to,
                cc: h@.cc,
                bcc: h@.bcc,
                date: h@.date,
            },
        ));
    }
    while i < nf
        invariant
            nf == h.from@.len(),
            i <= nf,
            trans_views(r@) == edges_of(
                HeaderView {
                    from: h@.from.subrange(0, i as int),
                    to: h@.to,
                    cc: h@.cc,
                    bcc: h@.bcc,
                    date: h@.date,
                },
            ),
        decreases nf - i,
    {
        push_tagged(&mut r, &h.from[i], &h.to, &h.date, TransmissionKind::To);
        push_tagged(&mut r, &h.from[i], &h.cc, &h.date, TransmissionKind::Cc);
        push_tagged(&mut r, &h.from[i], &h.bcc, &h.date, TransmissionKind::Bcc);
        proof {
            let hv_next = HeaderView {
                from: h@.from.subrange(0, i + 1int),
                to: h@.to,
                cc: h@.cc,
                bcc: h@.bcc,
                date: h@.date,
            };
            let hv_cur = HeaderView {
                from: h@.from.subrange(0, i as int),
                to: h@.to,
                cc: h@.cc,
                bcc: h@.bcc,
                date: h@.date,
            };
            assert(hv_next.from.drop_last() =~= hv_cur.from);
            assert(hv_next.from.last() == h@.from[i as int]);
            assert(edges_of(hv_next) == edges_of(hv_cur) + sender_edges(h@.from[i as int], hv_next));
            assert(sender_edges(h@.from[i as int], hv_next) == sender_edges(
                h@.from[i as int],
                h@,
            ));
            assert(h@.from[i as int] == h.from@[i as int]@);
            assert(trans_views(r@) =~= edges_of(hv_next));
        }
        i = i + 1;
    }
    proof {
        assert(h@.from.subrange(0, nf as int) =~= h@.from);
        assert(HeaderView {
            from: h@.from.subrange(0, nf as int),
            to: h@.to,
            cc: h@.cc,
            bcc: h@.bcc,
            date: h@.date,
        } =~= h@);
    }
    r
}

/// Within one role list, the filtered edge count of a sender's tagged edges
/// is the whole list for the matching kind and nothing for any other.
proof fn lemma_tagged_filter(
    s: AddressView,
    targets: Seq<AddressView>,
    date: Seq<char>,
    kind: TransmissionKind,
    k: TransmissionKind,
)
    ensures
        tagged_edges(s, targets, date, kind).filter(|e: TransmissionView| e.kind == k).len() == (
        if kind == k {
            targets.len() as int
        } else {
            0int
        }),
    decreases targets.len(),
{
    broadcast use group_filter_ensures;
    broadcast use vstd::seq::Seq::lemma_filter_push;

    if targets.len() == 0 {
        assert(tagged_edges(s, targets, date, kind) =~= Seq::<TransmissionView>::empty());
        assert(Seq::<TransmissionView>::empty().filter(|e: TransmissionView| e.kind == k) =~= Seq::<
            TransmissionView,
        >::empty());
    } else {
        let prefix = targets.drop_last();
        lemma_tagged_filter(s, prefix, date, kind, k);
        let e_last = TransmissionView { source: s, target: targets.last(), date, kind };
        assert(tagged_edges(s, targets, date, kind) =~= tagged_edges(s, prefix, date, kind).push(
            e_last,
        ));
    }
}

/// Every edge of a sender's contribution carries the record's date, and the
/// contribution has one edge per recipient.
proof fn lemma_sender_edges_shape(s: AddressView, h: HeaderView)
    ensures
        sender_edges(s, h).len() == h.to.len() + h.cc.len() + h.bcc.len(),
        forall|i: int|
            0 <= i < sender_edges(s, h).len() ==> (#[trigger] sender_edges(s, h)[i]).date
                == h.date,
{
}

/// The edge derivation is exhaustive and exact: a record with `k` senders
/// and `m` recipients over all roles yields `k * m` edges, and every edge
/// carries the record's date.
pub proof fn lemma_edges_shape(h: HeaderView)
    ensures
        edges_of(h).len() == h.from.len() * (h.to.len() + h.cc.len() + h.bcc.len()),
        forall|i: int| 0 <= i < edges_of(h).len() ==> (#[trigger] edges_of(h)[i]).date == h.date,
    decreases h.from.len(),
{
    if h.from.len() == 0 {
    } else {
        let hp = HeaderView {
            from: h.from.drop_last(),
            to: h.to,
            cc: h.cc,
            bcc: h.bcc,
            date: h.date,
        };
        lemma_edges_shape(hp);
        lemma_sender_edges_shape(h.from.last(), h);
        assert(edges_of(h).len() == h.from.len() * (h.to.len() + h.cc.len() + h.bcc.len())) by {
            let m = h.to.len() + h.cc.len() + h.bcc.len();
            assert(edges_of(h).len() == (h.from.len() - 1) * m + m);
            assert((h.from.len() - 1) * m + m == h.from.len() * m) by (nonlinear_arith);
        }
    }
}

/// For a record with `k` senders and `m` recipients in the role of kind
/// `k`, exactly `k * m` of its edges are tagged with that kind.
pub proof fn lemma_edges_count_per_kind(h: HeaderView, k: TransmissionKind)
    ensures
        edges_of(h).filter(|e: TransmissionView| e.kind == k).len() == h.from.len() * role_list(
            h,
            k,
        ).len(),
    decreases h.from.len(),
{
    broadcast use group_filter_ensures;
    broadcast use vstd::seq::Seq::filter_distributes_over_add;

    let p = |e: TransmissionView| e.kind == k;
    if h.from.len() == 0 {
        assert(edges_of(h).filter(p) =~= Seq::<TransmissionView>::empty());
    } else {
        let hp = HeaderView {
            from: h.from.drop_last(),
            to: h.to,
            cc: h.cc,
            bcc: h.bcc,
            date: h.date,
        };
        lemma_edges_count_per_kind(hp, k);
        let s = h.from.last();
        lemma_tagged_filter(s, h.to, h.date, TransmissionKind::To, k);
        lemma_tagged_filter(s, h.cc, h.date, TransmissionKind::Cc, k);
        lemma_tagged_filter(s, h.bcc, h.date, TransmissionKind::Bcc, k);
        assert(sender_edges(s, h).filter(p).len() == role_list(h, k).len());
        assert(edges_of(h).filter(p).len() == (h.from.len() - 1) * role_list(h, k).len()
            + role_list(h, k).len());
        assert((h.from.len() - 1) * role_list(h, k).len() + role_list(h, k).len() == h.from.len()
            * role_list(h, k).len()) by (nonlinear_arith);
    }
}

/// A record with no recipients in a role contributes no edges of that role,
/// however many senders it has.
pub proof fn lemma_empty_role_no_edges(h: HeaderView, k: TransmissionKind)
    requires
        role_list(h, k).len() == 0,
    ensures
        edges_of(h).filter(|e: TransmissionView| e.kind == k).len() == 0,
{
    lemma_edges_count_per_kind(h, k);
}

} // verus!
