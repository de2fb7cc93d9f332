use mailgraph::address::Address;
use mailgraph::edges::{edges_for, TransmissionKind};
use mailgraph::header::HeaderRecord;

fn addr(name: Option<&str>, a: &str) -> Address {
    Address { name: name.map(|s| s.to_string()), addr: a.to_string() }
}

fn header(from: Vec<Address>, to: Vec<Address>, cc: Vec<Address>, bcc: Vec<Address>, date: &str) -> HeaderRecord {
    HeaderRecord { from, to, cc, bcc, date: date.to_string() }
}

#[test]
fn cross_product_counts_per_role() {
    let h = header(
        vec![addr(None, "s1@x.com"), addr(None, "s2@x.com")],
        vec![addr(None, "t1@x.com"), addr(None, "t2@x.com"), addr(None, "t3@x.com")],
        vec![addr(None, "c1@x.com")],
        vec![],
        "2021-01-04T10:00:00Z",
    );
    let es = edges_for(&h);
    assert_eq!(es.len(), 2 * (3 + 1));
    assert_eq!(es.iter().filter(|e| e.kind == TransmissionKind::To).count(), 6);
    assert_eq!(es.iter().filter(|e| e.kind == TransmissionKind::Cc).count(), 2);
    assert_eq!(es.iter().filter(|e| e.kind == TransmissionKind::Bcc).count(), 0);
    for e in &es {
        assert_eq!(e.date, "2021-01-04T10:00:00Z");
    }
}

#[test]
fn empty_role_contributes_no_edges() {
    let h = header(
        vec![addr(None, "s@x.com")],
        vec![],
        vec![addr(None, "c@x.com")],
        vec![],
        "",
    );
    let es = edges_for(&h);
    assert_eq!(es.iter().filter(|e| e.kind == TransmissionKind::To).count(), 0);
    assert_eq!(es.len(), 1);
    assert_eq!(es[0].kind, TransmissionKind::Cc);
}

#[test]
fn no_senders_means_no_edges() {
    let h = header(vec![], vec![addr(None, "t@x.com")], vec![], vec![], "");
    assert_eq!(edges_for(&h).len(), 0);
}

#[test]
fn self_loop_is_kept() {
    let h = header(
        vec![addr(None, "me@x.com")],
        vec![addr(None, "me@x.com")],
        vec![],
        vec![],
        "",
    );
    let es = edges_for(&h);
    assert_eq!(es.len(), 1);
    assert_eq!(es[0].source.addr, "me@x.com");
    assert_eq!(es[0].target.addr, "me@x.com");
}

#[test]
fn edge_fields_follow_the_record() {
    let h = header(
        vec![addr(Some("Ann"), "a@x.com")],
        vec![addr(Some("Bob"), "b@x.com")],
        vec![],
        vec![addr(None, "d@x.com")],
        "2020-12-31T23:59:59Z",
    );
    let es = edges_for(&h);
    assert_eq!(es.len(), 2);
    assert_eq!(es[0].kind, TransmissionKind::To);
    assert_eq!(es[0].source.addr, "a@x.com");
    assert_eq!(es[0].target.addr, "b@x.com");
    assert_eq!(es[1].kind, TransmissionKind::Bcc);
    assert_eq!(es[1].target.addr, "d@x.com");
}

#[test]
fn kind_labels() {
    assert_eq!(TransmissionKind::To.label(), "to");
    assert_eq!(TransmissionKind::Cc.label(), "cc");
    assert_eq!(TransmissionKind::Bcc.label(), "bcc");
}
