use simpleos::fault::{FaultRecord, Location};
use simpleos::format::FormatError;

#[test]
fn location_reads_file_line_column() {
    let at = Location::new("src/main.rs", 12, 5);
    let mut out = Vec::new();
    at.push_text(&mut out);
    assert_eq!(out, b"src/main.rs:12:5".to_vec());
    let copy = at.duplicate();
    assert_eq!(copy.file, "src/main.rs");
    assert_eq!(copy.line, 12);
    assert_eq!(copy.column, 5);
}

#[test]
fn location_at_the_limits() {
    let at = Location::new("", 0, u32::MAX);
    let mut out = b"@".to_vec();
    at.push_text(&mut out);
    assert_eq!(out, b"@:0:4294967295".to_vec());
}

#[test]
fn record_shows_message_and_location() {
    let fault = FaultRecord::new("index out of bounds", Location::new("src/main.rs", 12, 5));
    let mut out = Vec::new();
    fault.push_text(&mut out);
    assert_eq!(
        String::from_utf8(out).unwrap(),
        "FaultRecord {\n    message: index out of bounds,\n    location: src/main.rs:12:5,\n}"
    );
}

#[test]
fn report_begins_with_the_header() {
    let fault = FaultRecord::new("boom", Location::new("k.rs", 1, 2));
    let text = fault.report();
    assert!(text.starts_with(b"KERNEL PANIC"));
    assert_eq!(
        String::from_utf8(text).unwrap(),
        "KERNEL PANIC\nFaultRecord {\n    message: boom,\n    location: k.rs:1:2,\n}\n"
    );
}

#[test]
fn report_of_an_empty_fault_still_has_a_record() {
    let fault = FaultRecord::new("", Location::new("", 0, 0));
    let text = fault.report();
    assert!(text.starts_with(b"KERNEL PANIC\n"));
    assert!(text.len() > b"KERNEL PANIC\n".len() + 1);
    assert_eq!(
        String::from_utf8(text).unwrap(),
        "KERNEL PANIC\nFaultRecord {\n    message: ,\n    location: :0:0,\n}\n"
    );
}

#[test]
fn format_error_becomes_a_fault_at_the_place_of_the_request() {
    let at = Location::new("demo.rs", 3, 9);
    let fault = FaultRecord::from_format_error(FormatError::MissingArgument, &at);
    assert_eq!(fault.message, FormatError::MissingArgument.describe());
    assert_eq!(fault.message, "template has more holes than arguments");
    assert_eq!(fault.location.file, "demo.rs");
    assert_eq!(fault.location.line, 3);
    assert_eq!(fault.location.column, 9);
}
