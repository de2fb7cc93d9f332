//! The tabular exports: address-report rows and edge-report rows, with
//! their column headers. Field contracts pin every cell; how the rows are
//! serialized beyond that is the caller's concern.

use vstd::prelude::*;
use crate::address::{Address, AddressView};
use crate::counts::{Aggregator, RoleCounts};
use crate::edges::{Transmission, TransmissionView, kind_label};
use crate::textfmt::{dec_of, to_decimal};

verus! {

/// The display name of a row, or empty text when there is none.
pub open spec fn name_or_empty(n: Option<Seq<char>>) -> Seq<char> {
    match n {
        Some(s) => s,
        None => Seq::empty(),
    }
}

/// Mathematical value of a [`CountRow`].
#[verifier::ext_equal]
pub struct CountRowView {
    pub address: Seq<char>,
    pub name: Seq<char>,
    pub count: Seq<char>,
    pub kind: Seq<char>,
}

/// One row of the address report: bare address, display name or empty,
/// decimal count, role label.
pub struct CountRow {
    pub address: String,
    pub name: String,
    pub count: String,
    pub kind: String,
}

impl View for CountRow {
    type V = CountRowView;

    open spec fn view(&self) -> CountRowView {
        CountRowView {
            address: self.address@,
            name: self.name@,
            count: self.count@,
            kind: self.kind@,
        }
    }
}

/// The report row of one table entry under a role label.
pub open spec fn count_row_of(a: AddressView, c: nat, kind: Seq<char>) -> CountRowView {
    CountRowView { address: a.addr, name: name_or_empty(a.name), count: dec_of(c), kind }
}

/// The report rows of one whole role table, in table order.
pub open spec fn count_rows_of(t: Seq<(Address, u64)>, kind: Seq<char>) -> Seq<CountRowView> {
    t.map_values(|p: (Address, u64)| count_row_of(p.0@, p.1 as nat, kind))
}

/// The mathematical values of a sequence of count rows.
pub open spec fn count_row_views(s: Seq<CountRow>) -> Seq<CountRowView> {
    s.map_values(|r: CountRow| r@)
}

/// Append one role table's rows to `out` under `label`.
fn push_role_rows(out: &mut Vec<CountRow>, counts: &RoleCounts, label: &str)
    ensures
        count_row_views(final(out)@) == count_row_views(old(out)@) + count_rows_of(
            counts.rows(),
            label@,
        ),
{
    let ghost base = count_row_views(out@);
    let rows = counts.snapshot();
    let n = rows.len();
    let mut i: usize = 0;
    proof {
        assert(count_row_views(out@) =~= base + count_rows_of(rows@.subrange(0, 0), label@));
    }
    while i < n
        invariant
            n == rows@.len(),
            i <= n,
            rows@ == counts.rows(),
            count_row_views(out@) == base + count_rows_of(rows@.subrange(0, i as int), label@),
        decreases n - i,
    {
        let name = match &rows[i].0.name {
            Some(s) => s.clone(),
            None => String::new(),
        };
        let ghost pre = out@;
        out.push(
            CountRow {
                address: rows[i].0.addr.clone(),
                name,
                count: to_decimal(rows[i].1),
                kind: label.to_owned(),
            },
        );
        proof {
            assert(out@.last()@ =~= count_row_of(
                rows@[i as int].0@,
                rows@[i as int].1 as nat,
                label@,
            ));
            assert(count_row_views(out@) =~= count_row_views(pre).push(out@.last()@));
            assert(count_rows_of(rows@.subrange(0, i + 1int), label@) =~= count_rows_of(
                rows@.subrange(0, i as int),
                label@,
            ).push(count_row_of(rows@[i as int].0@, rows@[i as int].1 as nat, label@)));
            assert(count_row_views(out@) =~= base + count_rows_of(
                rows@.subrange(0, i + 1int),
                label@,
            ));
        }
        i = i + 1;
    }
    proof {
        assert(rows@.subrange(0, n as int) =~= rows@);
    }
}

/// The address report: every role table in turn, under the labels `from`,
/// `to`, `cc`, `bcc`. One row per distinct `(address, role)` pair with a
/// nonzero count, carrying exactly that count in decimal.
pub fn address_report(agg: &Aggregator) -> (r: Vec<CountRow>)
    ensures
        count_row_views(r@) == count_rows_of(agg.from.rows(), "from"@) + count_rows_of(
            agg.to.rows(),
            "to"@,
        ) + count_rows_of(agg.cc.rows(), "cc"@) + count_rows_of(agg.bcc.rows(), "bcc"@),
{
    let mut out: Vec<CountRow> = Vec::new();
    proof {
        assert(count_row_views(out@) =~= Seq::<CountRowView>::empty());
    }
    push_role_rows(&mut out, &agg.from, "from");
    push_role_rows(&mut out, &agg.to, "to");
    push_role_rows(&mut out, &agg.cc, "cc");
    push_role_rows(&mut out, &agg.bcc, "bcc");
    proof {
        assert(count_row_views(out@) =~= count_rows_of(agg.from.rows(), "from"@) + count_rows_of(
            agg.to.rows(),
            "to"@,
        ) + count_rows_of(agg.cc.rows(), "cc"@) + count_rows_of(agg.bcc.rows(), "bcc"@));
    }
    out
}

/// The column header of the address report.
pub fn count_header_fields() -> (r: Vec<String>)
    ensures
        r@.len() == 4,
        r@[0]@ == "address"@,
        r@[1]@ == "name"@,
        r@[2]@ == "count"@,
        r@[3]@ == "kind"@,
{
    let mut v: Vec<String> = Vec::new();
    v.push("address".to_owned());
    v.push("name".to_owned());
    v.push("count".to_owned());
    v.push("kind".to_owned());
    v
}

/// Mathematical value of an [`EdgeRow`].
#[verifier::ext_equal]
pub struct EdgeRowView {
    pub source: Seq<char>,
    pub target: Seq<char>,
    pub date: Seq<char>,
    pub kind: Seq<char>,
}

/// One row of the edge report: source address, target address, date text,
/// role label.
pub struct EdgeRow {
    pub source: String,
    pub target: String,
    pub date: String,
    pub kind: String,
}

impl View for EdgeRow {
    type V = EdgeRowView;

    open spec fn view(&self) -> EdgeRowView {
        EdgeRowView {
            source: self.source@,
            target: self.target@,
            date: self.date@,
            kind: self.kind@,
        }
    }
}

/// The report row of one transmission edge.
pub open spec fn edge_row_of(t: TransmissionView) -> EdgeRowView {
    EdgeRowView {
        source: t.source.addr,
        target: t.target.addr,
        date: t.date,
        kind: kind_label(t.kind),
    }
}

/// The edge report: one row per edge, in edge order.
pub fn edge_report(edges: &Vec<Transmission>) -> (r: Vec<EdgeRow>)
    ensures
        r@.len() == edges@.len(),
        forall|i: int| 0 <= i < r@.len() ==> (#[trigger] r@[i])@ == edge_row_of(edges@[i]@),
{
    let mut out: Vec<EdgeRow> = Vec::new();
    let n = edges.len();
    let mut i: usize = 0;
    while i < n
        invariant
            n == edges@.len(),
            i == out@.len(),
            i <= n,
            forall|k: int| 0 <= k < i ==> (#[trigger] out@[k])@ == edge_row_of(edges@[k]@),
        decreases n - i,
    {
        out.push(
            EdgeRow {
                source: edges[i].source.addr.clone(),
                target: edges[i].target.addr.clone(),
                date: edges[i].date.clone(),
                kind: edges[i].kind.label(),
            },
        );
        proof {
            assert(out@[i as int]@ =~= edge_row_of(edges@[i as int]@));
        }
        i = i + 1;
    }
    out
}

/// The column header of the edge report.
pub fn edge_header_fields() -> (r: Vec<String>)
    ensures
        r@.len() == 4,
        r@[0]@ == "source"@,
        r@[1]@ == "target"@,
        r@[2]@ == "date"@,
        r@[3]@ == "kind"@,
{
    let mut v: Vec<String> = Vec::new();
    v.push("source".to_owned());
    v.push("target".to_owned());
    v.push("date".to_owned());
    v.push("kind".to_owned());
    v
}

} // verus!
