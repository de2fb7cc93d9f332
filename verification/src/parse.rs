//! Extraction of header records and attachment parts from raw message
//! bytes. The byte-level work is delegated to the external MIME parser;
//! everything downstream of it is verified against what the parser is
//! relied upon to return.

use vstd::prelude::*;
use crate::address::{Address, AddressView, addr_views};
use crate::attachment::{Attachment, AttachmentView, att_views};
use crate::counts::Aggregator;
use crate::edges::{Transmission, edges_for, edges_of, trans_views};
use crate::header::{HeaderRecord, HeaderView};

verus! {

/// What the external header parser yields on the given message bytes: the
/// normalized header record, or nothing when the bytes hold no parseable
/// header. The outcome is a function of the bytes alone.
pub uninterp spec fn header_of(input: Seq<u8>) -> Option<HeaderView>;

/// What the external full-message parser yields on the given message
/// bytes: the decoded attachment parts in message order, or nothing when
/// the bytes hold no parseable message. The outcome is a function of the
/// bytes alone.
pub uninterp spec fn attachments_of(input: Seq<u8>) -> Option<Seq<AttachmentView>>;

/// Relies on `mail_parser::MessageParser::parse_headers`, documented never
/// to panic and to return `None` when no headers are found; on the
/// `from`/`to`/`cc`/`bcc` accessors of `Message` with
/// `Address::into_list`, whose `Addr` elements expose their optional
/// display name and optional bare address; and on
/// `DateTime::to_rfc3339` for the date text. All of them compute from the
/// input bytes alone.
#[verifier::external_body]
fn parse_message_headers(input: &[u8]) -> (r: Option<HeaderRecord>)
    ensures
        r matches Some(h) ==> header_of(input@) == Some(h@),
        r is Some <==> header_of(input@) is Some,
{
    let m = mail_parser::MessageParser::default().parse_headers(input)?;
    let conv = |l: Option<&mail_parser::Address<'_>>| -> Vec<Address> {
        l.map(|a| a.clone().into_list()).unwrap_or_default().iter().map(|a| Address {
            name: a.name().map(|n| n.to_owned()),
            addr: a.address().map(|n| n.to_owned()).unwrap_or_default(),
        }).collect()
    };
    Some(HeaderRecord {
        from: conv(m.from()),
        to: conv(m.to()),
        cc: conv(m.cc()),
        bcc: conv(m.bcc()),
        date: m.date().map(|d| d.to_rfc3339()).unwrap_or_default(),
    })
}

/// Relies on `mail_parser::MessageParser::parse`, documented never to
/// panic and to return `None` when no headers are found; on
/// `Message::attachments`; and on each part's `attachment_name` and
/// decoded `contents`. All of them compute from the input bytes alone.
#[verifier::external_body]
pub fn extract_attachments(input: &[u8]) -> (r: Option<Vec<Attachment>>)
    ensures
        r matches Some(v) ==> attachments_of(input@) == Some(att_views(v@)),
        r is Some <==> attachments_of(input@) is Some,
{
    let m = mail_parser::MessageParser::default().parse(input)?;
    Some(
        m.attachments().map(
            |p| Attachment {
                filename: mail_parser::MimeHeaders::attachment_name(p).map(|n| n.to_owned()),
                data: p.contents().to_vec(),
            },
        ).collect(),
    )
}

/// A display name that is present but empty counts as absent.
pub open spec fn normalized_addr(a: AddressView) -> AddressView {
    if a.name == Some(Seq::<char>::empty()) {
        AddressView { name: None, addr: a.addr }
    } else {
        a
    }
}

/// One role list with every participant normalized.
pub open spec fn normalized_list(s: Seq<AddressView>) -> Seq<AddressView> {
    s.map_values(|a: AddressView| normalized_addr(a))
}

/// One header record with every participant of every role normalized.
pub open spec fn normalized_header(h: HeaderView) -> HeaderView {
    HeaderView {
        from: normalized_list(h.from),
        to: normalized_list(h.to),
        cc: normalized_list(h.cc),
        bcc: normalized_list(h.bcc),
        date: h.date,
    }
}

/// Normalize one role list: drop display names that are present but empty.
fn normalize_list(list: Vec<Address>) -> (r: Vec<Address>)
    ensures
        addr_views(r@) == normalized_list(addr_views(list@)),
{
    let mut out: Vec<Address> = Vec::new();
    let n = list.len();
    let mut i: usize = 0;
    proof {
        assert(addr_views(out@) =~= normalized_list(addr_views(list@.subrange(0, 0))));
    }
    while i < n
        invariant
            n == list@.len(),
            i <= n,
            addr_views(out@) == normalized_list(addr_views(list@.subrange(0, i as int))),
        decreases n - i,
    {
        let name = match &list[i].name {
            Some(s) => if s.as_str().is_empty() {
                None
            } else {
                Some(s.clone())
            },
            None => None,
        };
        let ghost pre = out@;
        out.push(Address { name, addr: list[i].addr.clone() });
        proof {
            match list@[i as int]@.name {
                Some(nm) => {
                    if nm.len() == 0 {
                        assert(nm =~= Seq::<char>::empty());
                    }
                },
                None => {},
            }
            assert(out@.last()@ =~= normalized_addr(list@[i as int]@));
            assert(addr_views(out@) =~= addr_views(pre).push(out@.last()@));
            assert(addr_views(list@.subrange(0, i + 1int)) =~= addr_views(
                list@.subrange(0, i as int),
            ).push(list@[i as int]@));
            assert(normalized_list(addr_views(list@.subrange(0, i + 1int))) =~= normalized_list(
                addr_views(list@.subrange(0, i as int)),
            ).push(normalized_addr(list@[i as int]@)));
            assert(addr_views(out@) =~= normalized_list(addr_views(list@.subrange(0, i + 1int))));
        }
        i = i + 1;
    }
    proof {
        assert(list@.subrange(0, n as int) =~= list@);
    }
    out
}

/// The normalized header record of one message: what the external parser
/// found, with a present-but-empty display name mapped to an absent one.
/// `None` exactly when the bytes hold no parseable header.
pub fn extract_headers(input: &[u8]) -> (r: Option<HeaderRecord>)
    ensures
        r matches Some(h) ==> (header_of(input@) matches Some(g) && h@ == normalized_header(g)),
        r is Some <==> header_of(input@) is Some,
{
    match parse_message_headers(input) {
        Some(h) => {
            let ghost g = h@;
            let out = HeaderRecord {
                from: normalize_list(h.from),
                to: normalize_list(h.to),
                cc: normalize_list(h.cc),
                bcc: normalize_list(h.bcc),
                date: h.date,
            };
            proof {
                assert(out@ =~= normalized_header(g));
            }
            Some(out)
        },
        None => None,
    }
}

/// The transmission edges of one message: the full sender × recipient
/// cross product of its parsed headers, or nothing when the headers
/// cannot be parsed — a malformed message yields no edges rather than
/// stopping a batch.
pub fn message_edges(input: &[u8]) -> (r: Option<Vec<Transmission>>)
    ensures
        r matches Some(v) ==> (header_of(input@) matches Some(h) && trans_views(v@) == edges_of(
            normalized_header(h),
        )),
        r is Some <==> header_of(input@) is Some,
{
    match extract_headers(input) {
        Some(h) => Some(edges_for(&h)),
        None => None,
    }
}

/// The outcome of feeding one message to the aggregate.
#[derive(Clone, Copy, PartialEq, Eq, Structural, Debug)]
pub enum IngestOutcome {
    /// The headers parsed and every address occurrence was counted.
    Recorded,
    /// The headers did not parse; nothing was counted.
    Malformed,
    /// The headers parsed but a role table has no room left; nothing was
    /// counted.
    Saturated,
}

/// Whether the aggregate still has room for this record's occurrences.
pub open spec fn has_room(agg: Aggregator, h: HeaderView) -> bool {
    &&& agg.from.log().len() + h.from.len() < u64::MAX as nat
    &&& agg.to.log().len() + h.to.len() < u64::MAX as nat
    &&& agg.cc.log().len() + h.cc.len() < u64::MAX as nat
    &&& agg.bcc.log().len() + h.bcc.len() < u64::MAX as nat
}

/// Parse one message and count its address occurrences. A parseable
/// message contributes every occurrence of its four role lists; a
/// malformed one contributes nothing and is reported as such instead of
/// stopping the batch.
pub fn ingest_message(agg: &mut Aggregator, input: &[u8]) -> (r: IngestOutcome)
    requires
        old(agg).wf(),
    ensures
        final(agg).wf(),
        r == IngestOutcome::Malformed <==> header_of(input@) is None,
        r == IngestOutcome::Malformed ==> *final(agg) == *old(agg),
        r == IngestOutcome::Saturated ==> *final(agg) == *old(agg),
        header_of(input@) matches Some(g) ==> (if has_room(*old(agg), normalized_header(g)) {
            &&& r == IngestOutcome::Recorded
            &&& final(agg).from.log() == old(agg).from.log() + normalized_header(g).from
            &&& final(agg).to.log() == old(agg).to.log() + normalized_header(g).to
            &&& final(agg).cc.log() == old(agg).cc.log() + normalized_header(g).cc
            &&& final(agg).bcc.log() == old(agg).bcc.log() + normalized_header(g).bcc
        } else {
            r == IngestOutcome::Saturated
        }),
{
    match extract_headers(input) {
        None => IngestOutcome::Malformed,
        Some(h) => {
            let fits = (h.from.len() as u64) < u64::MAX - agg.from.occupancy() && (h.to.len()
                as u64) < u64::MAX - agg.to.occupancy() && (h.cc.len() as u64) < u64::MAX
                - agg.cc.occupancy() && (h.bcc.len() as u64) < u64::MAX - agg.bcc.occupancy();
            if fits {
                agg.record(&h);
                IngestOutcome::Recorded
            } else {
                IngestOutcome::Saturated
            }
        },
    }
}

} // verus!
