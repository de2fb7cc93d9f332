use mailgraph::address::Address;
use mailgraph::counts::Aggregator;
use mailgraph::header::HeaderRecord;

fn addr(name: Option<&str>, a: &str) -> Address {
    Address { name: name.map(|s| s.to_string()), addr: a.to_string() }
}

fn header(from: Vec<Address>, to: Vec<Address>, cc: Vec<Address>, bcc: Vec<Address>) -> HeaderRecord {
    HeaderRecord { from, to, cc, bcc, date: String::new() }
}

#[test]
fn counts_accumulate_per_role() {
    let mut agg = Aggregator::new();
    agg.record(&header(
        vec![addr(None, "a@x.com")],
        vec![addr(None, "b@x.com")],
        vec![addr(None, "c@x.com")],
        vec![],
    ));
    agg.record(&header(vec![addr(None, "a@x.com")], vec![addr(None, "b@x.com")], vec![], vec![]));
    assert_eq!(agg.from.count_of(&addr(None, "a@x.com")), 2);
    assert_eq!(agg.to.count_of(&addr(None, "b@x.com")), 2);
    assert_eq!(agg.cc.count_of(&addr(None, "c@x.com")), 1);
    assert_eq!(agg.bcc.count_of(&addr(None, "c@x.com")), 0);
    assert_eq!(agg.to.count_of(&addr(None, "a@x.com")), 0);
}

#[test]
fn processing_order_does_not_change_counts() {
    let mk = |i: usize| {
        header(
            vec![addr(None, "s@x.com")],
            vec![addr(None, &format!("t{}@x.com", i % 3)), addr(None, "t0@x.com")],
            vec![],
            vec![],
        )
    };
    let mut fwd = Aggregator::new();
    for i in 0..6 {
        fwd.record(&mk(i));
    }
    let mut rev = Aggregator::new();
    for i in (0..6).rev() {
        rev.record(&mk(i));
    }
    for a in ["t0@x.com", "t1@x.com", "t2@x.com", "s@x.com"] {
        assert_eq!(fwd.to.count_of(&addr(None, a)), rev.to.count_of(&addr(None, a)));
        assert_eq!(fwd.from.count_of(&addr(None, a)), rev.from.count_of(&addr(None, a)));
    }
    assert_eq!(fwd.to.count_of(&addr(None, "t0@x.com")), 8);
}

#[test]
fn same_email_different_display_names_are_two_entries() {
    let mut agg = Aggregator::new();
    agg.record(&header(vec![addr(Some("Alice"), "a@x.com")], vec![], vec![], vec![]));
    agg.record(&header(vec![addr(None, "a@x.com")], vec![], vec![], vec![]));
    assert_eq!(agg.from.count_of(&addr(Some("Alice"), "a@x.com")), 1);
    assert_eq!(agg.from.count_of(&addr(None, "a@x.com")), 1);
    assert_eq!(agg.from.snapshot().len(), 2);
}

#[test]
fn duplicate_occurrences_in_one_message_both_count() {
    let mut agg = Aggregator::new();
    agg.record(&header(
        vec![],
        vec![addr(None, "b@x.com"), addr(None, "b@x.com")],
        vec![],
        vec![],
    ));
    assert_eq!(agg.to.count_of(&addr(None, "b@x.com")), 2);
    assert_eq!(agg.to.snapshot().len(), 1);
}
