use whipseey_save_manager::document::{Document, Section};
use whipseey_save_manager::util::error::Error;
use whipseey_save_manager::util::file::{ini_to_vec_padded_no_spacing, parse_ini_file};

#[test]
fn parse_ini_file_valid() {
    let content = "[section]\nkey = \"value\"".to_string();
    let doc = parse_ini_file(content).expect("fixture should parse");
    assert_eq!(
        doc.section("section")
            .expect("section should exist")
            .get("key")
            .map(|v| v.as_str()),
        Some("value")
    );
}

#[test]
fn parse_ini_file_padded() {
    let content = "\nkey = \"value\"\0\0\0".to_string();
    let doc = parse_ini_file(content).expect("fixture should parse");
    assert_eq!(
        doc.section("")
            .expect("general section should exist")
            .get("key")
            .map(|v| v.as_str()),
        Some("value")
    );
}

#[test]
fn parse_ini_file_invalid() {
    let content = "just a sentence".to_string();
    let result = parse_ini_file(content);
    assert!(matches!(result, Err(Error::DocumentSyntax(_))));
}

#[test]
fn ini_to_vec_padded_no_spacing_valid() {
    let content_padded = "[section]\r\nkey=value\r\n\0\0\0";
    let content = content_padded.trim_end_matches('\0');
    let doc = parse_ini_file(content.to_string()).expect("fixture should parse");
    let vec = ini_to_vec_padded_no_spacing(&doc, content_padded.len());
    assert_eq!(content_padded, std::str::from_utf8(&vec).expect("output should be text"));
}

#[test]
fn ini_to_vec_padded_no_spacing_long() {
    let content = "[section]\r\nkey=value\r\n";
    let doc = parse_ini_file(content.to_string()).expect("fixture should parse");
    let vec = ini_to_vec_padded_no_spacing(&doc, 8);
    assert_eq!(content, std::str::from_utf8(&vec).expect("output should be text"));
}

#[test]
fn padded_writer_pads_minimal_document_to_exact_size() {
    let mut doc = Document::new();
    let mut sec = Section::new("Cheats");
    sec.insert("cheats_enabled", "1".to_string());
    doc.push_section(sec);
    let bytes = ini_to_vec_padded_no_spacing(&doc, 1024);
    assert_eq!(bytes.len(), 1024);
    let content = b"[Cheats]\r\ncheats_enabled=1\r\n";
    assert_eq!(&bytes[..content.len()], &content[..]);
    assert!(bytes[content.len()..].iter().all(|&b| b == 0));
}

#[test]
fn padded_writer_strips_embedded_null_bytes() {
    let mut doc = Document::new();
    let mut sec = Section::new("section");
    sec.insert("key", "a\u{0}b".to_string());
    doc.push_section(sec);
    let bytes = ini_to_vec_padded_no_spacing(&doc, 0);
    assert_eq!(bytes, b"[section]\r\nkey=ab\r\n");
}
