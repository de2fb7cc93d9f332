use mailgraph::address::Address;
use mailgraph::counts::Aggregator;
use mailgraph::edges::edges_for;
use mailgraph::header::HeaderRecord;
use mailgraph::report::{
    address_report, count_header_fields, edge_header_fields, edge_report,
};
use mailgraph::textfmt::to_decimal;

fn addr(name: Option<&str>, a: &str) -> Address {
    Address { name: name.map(|s| s.to_string()), addr: a.to_string() }
}

#[test]
fn decimal_rendering_is_exact() {
    assert_eq!(to_decimal(0), "0");
    assert_eq!(to_decimal(7), "7");
    assert_eq!(to_decimal(10), "10");
    assert_eq!(to_decimal(409), "409");
    assert_eq!(to_decimal(18446744073709551615), "18446744073709551615");
}

#[test]
fn report_headers_name_the_columns() {
    assert_eq!(count_header_fields(), vec!["address", "name", "count", "kind"]);
    assert_eq!(edge_header_fields(), vec!["source", "target", "date", "kind"]);
}

#[test]
fn address_report_rows_carry_name_count_and_role() {
    let mut agg = Aggregator::new();
    agg.record(&HeaderRecord {
        from: vec![addr(Some("Ann"), "a@x.com")],
        to: vec![],
        cc: vec![addr(None, "c@x.com"), addr(None, "c@x.com")],
        bcc: vec![],
        date: String::new(),
    });
    let rows = address_report(&agg);
    assert_eq!(rows.len(), 2);
    assert_eq!(rows[0].address, "a@x.com");
    assert_eq!(rows[0].name, "Ann");
    assert_eq!(rows[0].count, "1");
    assert_eq!(rows[0].kind, "from");
    assert_eq!(rows[1].address, "c@x.com");
    assert_eq!(rows[1].name, "");
    assert_eq!(rows[1].count, "2");
    assert_eq!(rows[1].kind, "cc");
}

#[test]
fn edge_report_rows_mirror_the_edges() {
    let h = HeaderRecord {
        from: vec![addr(Some("Ann"), "a@x.com")],
        to: vec![addr(None, "b@x.com")],
        cc: vec![],
        bcc: vec![addr(None, "d@x.com")],
        date: "2021-01-04T10:00:00Z".to_string(),
    };
    let rows = edge_report(&edges_for(&h));
    assert_eq!(rows.len(), 2);
    assert_eq!(rows[0].source, "a@x.com");
    assert_eq!(rows[0].target, "b@x.com");
    assert_eq!(rows[0].date, "2021-01-04T10:00:00Z");
    assert_eq!(rows[0].kind, "to");
    assert_eq!(rows[1].target, "d@x.com");
    assert_eq!(rows[1].kind, "bcc");
}
