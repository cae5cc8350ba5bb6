use xiaoo_shared::queue_file::{queue_file_records, queue_file_text, QueueFileRecords};

#[test]
fn blank_queue_file_is_empty() {
    assert!(matches!(queue_file_records(""), QueueFileRecords::Empty));
    assert!(matches!(queue_file_records(" \n\t\r\n"), QueueFileRecords::Empty));
}

#[test]
fn array_queue_file_is_one_record() {
    match queue_file_records("  [{\"a\":1},\n{\"a\":2}]\n") {
        QueueFileRecords::Array(s) => assert_eq!(s, "[{\"a\":1},\n{\"a\":2}]"),
        other => panic!("unexpected {:?}", other),
    }
}

#[test]
fn line_queue_file_skips_blank_lines_and_crlf() {
    match queue_file_records("{\"a\":1}\r\n\n   \n{\"a\":2}\n") {
        QueueFileRecords::Lines(v) => assert_eq!(v, vec!["{\"a\":1}".to_string(), "{\"a\":2}".to_string()]),
        other => panic!("unexpected {:?}", other),
    }
}

#[test]
fn queue_text_reads_back() {
    let records = vec!["{\"id\":\"m1\"}".to_string(), "{\"id\":\"m2\"}".to_string()];
    let text = queue_file_text(&records);
    assert_eq!(text, "{\"id\":\"m1\"}\n{\"id\":\"m2\"}\n");
    match queue_file_records(&text) {
        QueueFileRecords::Lines(v) => assert_eq!(v, records),
        other => panic!("unexpected {:?}", other),
    }
    assert_eq!(queue_file_text(&Vec::new()), "");
}
