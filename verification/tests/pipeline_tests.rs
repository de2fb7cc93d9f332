use mailgraph::address::Address;
use mailgraph::counts::Aggregator;
use mailgraph::parse::{
    extract_attachments, extract_headers, ingest_message, message_edges, IngestOutcome,
};
use mailgraph::report::address_report;

fn addr(name: Option<&str>, a: &str) -> Address {
    Address { name: name.map(|s| s.to_string()), addr: a.to_string() }
}

const MSG_ONE: &[u8] =
    b"From: a@x.com\r\nTo: b@x.com, c@x.com\r\nDate: Mon, 4 Jan 2021 10:00:00 +0000\r\n\r\nhello\r\n";

const MSG_TWO: &[u8] = b"From: a@x.com\r\nTo: b@x.com\r\n\r\nhello again\r\n";

#[test]
fn headers_are_normalized() {
    let h = extract_headers(MSG_ONE).expect("headers should parse");
    assert_eq!(h.from.len(), 1);
    assert_eq!(h.from[0].addr, "a@x.com");
    assert_eq!(h.from[0].name, None);
    assert_eq!(h.to.len(), 2);
    assert_eq!(h.to[0].addr, "b@x.com");
    assert_eq!(h.to[1].addr, "c@x.com");
    assert_eq!(h.cc.len(), 0);
    assert_eq!(h.bcc.len(), 0);
    assert_eq!(h.date, "2021-01-04T10:00:00Z");
}

#[test]
fn display_names_are_kept() {
    let h = extract_headers(b"From: \"Ann A\" <a@x.com>\r\n\r\n").expect("headers should parse");
    assert_eq!(h.from.len(), 1);
    assert_eq!(h.from[0].name.as_deref(), Some("Ann A"));
    assert_eq!(h.from[0].addr, "a@x.com");
}

#[test]
fn missing_date_is_empty() {
    let h = extract_headers(MSG_TWO).expect("headers should parse");
    assert_eq!(h.date, "");
}

#[test]
fn malformed_message_does_not_abort_the_batch() {
    let batch: [&[u8]; 3] = [MSG_ONE, b"", MSG_TWO];
    let mut agg = Aggregator::new();
    let mut failures: Vec<usize> = Vec::new();
    for (i, m) in batch.iter().enumerate() {
        match ingest_message(&mut agg, m) {
            IngestOutcome::Recorded => {}
            _ => failures.push(i),
        }
    }
    assert_eq!(failures, vec![1]);
    assert_eq!(agg.from.count_of(&addr(None, "a@x.com")), 2);
    assert_eq!(agg.to.count_of(&addr(None, "b@x.com")), 2);
    assert_eq!(agg.to.count_of(&addr(None, "c@x.com")), 1);
}

#[test]
fn two_message_example_report() {
    let mut agg = Aggregator::new();
    assert_eq!(ingest_message(&mut agg, MSG_ONE), IngestOutcome::Recorded);
    assert_eq!(ingest_message(&mut agg, MSG_TWO), IngestOutcome::Recorded);

    let rows = address_report(&agg);
    let mut found: Vec<(String, String, String, String)> = rows
        .iter()
        .map(|r| (r.address.clone(), r.name.clone(), r.count.clone(), r.kind.clone()))
        .collect();
    found.sort();
    let mut expected = vec![
        ("a@x.com".to_string(), String::new(), "2".to_string(), "from".to_string()),
        ("b@x.com".to_string(), String::new(), "2".to_string(), "to".to_string()),
        ("c@x.com".to_string(), String::new(), "1".to_string(), "to".to_string()),
    ];
    expected.sort();
    assert_eq!(found, expected);
}

#[test]
fn two_message_example_edges() {
    let mut all = Vec::new();
    all.extend(message_edges(MSG_ONE).expect("should parse"));
    all.extend(message_edges(MSG_TWO).expect("should parse"));
    assert_eq!(all.len(), 3);
    for e in &all {
        assert_eq!(e.kind.label(), "to");
        assert_eq!(e.source.addr, "a@x.com");
    }
    assert_eq!(all.iter().filter(|e| e.target.addr == "b@x.com").count(), 2);
    assert_eq!(all.iter().filter(|e| e.target.addr == "c@x.com").count(), 1);
}

#[test]
fn malformed_message_yields_no_edges() {
    assert!(message_edges(b"").is_none());
}

const MSG_WITH_ATTACHMENT: &[u8] = b"From: a@x.com\r\n\
To: b@x.com\r\n\
MIME-Version: 1.0\r\n\
Content-Type: multipart/mixed; boundary=\"BOUND\"\r\n\
\r\n\
--BOUND\r\n\
Content-Type: text/plain\r\n\
\r\n\
hello\r\n\
--BOUND\r\n\
Content-Type: application/octet-stream; name=\"data.bin\"\r\n\
Content-Disposition: attachment; filename=\"data.bin\"\r\n\
Content-Transfer-Encoding: base64\r\n\
\r\n\
AAEC\r\n\
--BOUND--\r\n";

#[test]
fn attachments_are_decoded_with_their_declared_names() {
    let parts = extract_attachments(MSG_WITH_ATTACHMENT).expect("message should parse");
    assert_eq!(parts.len(), 1);
    assert_eq!(parts[0].filename.as_deref(), Some("data.bin"));
    assert_eq!(parts[0].data, vec![0u8, 1, 2]);
}

#[test]
fn malformed_message_yields_no_attachments() {
    assert!(extract_attachments(b"").is_none());
}
