use mailgraph::attachment::{attachment_names, Attachment};
use mailgraph::naming::NameRegistry;

#[test]
fn free_name_is_granted_as_is() {
    let mut reg = NameRegistry::new();
    assert_eq!(reg.reserve(&"report.pdf".to_string()), "report.pdf");
}

#[test]
fn colliding_names_get_distinct_fallbacks() {
    let mut reg = NameRegistry::new();
    let first = reg.reserve(&"data.bin".to_string());
    let second = reg.reserve(&"data.bin".to_string());
    let third = reg.reserve(&"data.bin".to_string());
    assert_eq!(first, "data.bin");
    assert_ne!(second, first);
    assert_ne!(third, first);
    assert_ne!(third, second);
}

#[test]
fn identical_declared_filenames_from_two_messages_stay_distinct() {
    let mut reg = NameRegistry::new();
    let msg_a = vec![Attachment { filename: Some("invoice.pdf".to_string()), data: vec![1] }];
    let msg_b = vec![Attachment { filename: Some("invoice.pdf".to_string()), data: vec![2] }];
    let names_a = attachment_names(&msg_a, &"fallback".to_string(), &mut reg);
    let names_b = attachment_names(&msg_b, &"fallback".to_string(), &mut reg);
    assert_eq!(names_a, vec!["invoice.pdf".to_string()]);
    assert_eq!(names_b.len(), 1);
    assert_ne!(names_b[0], names_a[0]);
}

#[test]
fn missing_filename_uses_the_fallback() {
    let mut reg = NameRegistry::new();
    let parts = vec![
        Attachment { filename: None, data: vec![] },
        Attachment { filename: None, data: vec![] },
    ];
    let names = attachment_names(&parts, &"msg1_part".to_string(), &mut reg);
    assert_eq!(names.len(), 2);
    assert_eq!(names[0], "msg1_part");
    assert_ne!(names[1], names[0]);
}
