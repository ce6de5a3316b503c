use std::io::Write;
use local_file_intelligence::config::{parser_type_for_extension, MAX_TEXT_SIZE};
use local_file_intelligence::parser::{
    collect_docx_text, cut_text, docx_document_text, docx_text, extract_content, parser_kind,
    text_content, ContentSource, DocxArchiveError, ParserKind, PdfOutcome,
};

#[test]
fn extension_classification_ignores_case() {
    assert_eq!(parser_type_for_extension("TXT"), "text");
    assert_eq!(parser_type_for_extension("Md"), "text");
    assert_eq!(parser_type_for_extension("rs"), "text");
    assert_eq!(parser_type_for_extension("Makefile"), "text");
    assert_eq!(parser_type_for_extension("csv"), "text");
    assert_eq!(parser_type_for_extension("PDF"), "pdf");
    assert_eq!(parser_type_for_extension("docx"), "docx");
    assert_eq!(parser_type_for_extension("doc"), "none");
    assert_eq!(parser_type_for_extension("exe"), "none");
    assert_eq!(parser_type_for_extension(""), "none");
}

#[test]
fn extension_classification_lowercases_unicode() {
    // U+212A KELVIN SIGN lower-cases to an ASCII 'k'.
    assert_eq!(parser_type_for_extension("\u{212A}T"), "text");
    assert_eq!(parser_type_for_extension("p\u{0307}df"), "none");
}

#[test]
fn parser_kinds_by_name() {
    assert!(matches!(parser_kind("text"), ParserKind::Text));
    assert!(matches!(parser_kind("pdf"), ParserKind::Pdf));
    assert!(matches!(parser_kind("docx"), ParserKind::Docx));
    assert!(matches!(parser_kind("none"), ParserKind::NoContent));
    assert!(matches!(parser_kind("TEXT"), ParserKind::NoContent));
}

#[test]
fn text_content_decodes_and_replaces_invalid_bytes() {
    assert_eq!(text_content(b"hello\nworld"), "hello\nworld");
    assert_eq!(text_content(&[0x66, 0x6f, 0xff, 0x6f]), "fo\u{FFFD}o");
    assert_eq!(text_content("caf\u{e9}".as_bytes()), "caf\u{e9}");
}

#[test]
fn text_content_reads_at_most_the_limit() {
    let mut bytes = vec![b'a'; MAX_TEXT_SIZE];
    bytes.extend_from_slice(b"tail");
    let text = text_content(&bytes);
    assert_eq!(text.len(), MAX_TEXT_SIZE);
    assert!(!text.contains("tail"));
}

#[test]
fn no_content_for_unknown_parser_types() {
    let r = extract_content("none", ContentSource::TextBytes(b"ignored".to_vec()));
    assert_eq!(r, Ok(String::new()));
}

#[test]
fn text_files_become_their_text() {
    let r = extract_content("text", ContentSource::TextBytes(b"some notes".to_vec()));
    assert_eq!(r, Ok("some notes".to_string()));
}

#[test]
fn pdf_outcomes_become_text_or_messages() {
    let ok = extract_content("pdf", ContentSource::Pdf(PdfOutcome::Text("page one".to_string())));
    assert_eq!(ok, Ok("page one".to_string()));
    let failed = extract_content("pdf", ContentSource::Pdf(PdfOutcome::Failed("bad xref".to_string())));
    assert_eq!(failed, Err("PDF extraction error: bad xref".to_string()));
    let panicked = extract_content("pdf", ContentSource::Pdf(PdfOutcome::Panicked));
    assert_eq!(panicked, Err("PDF extraction panicked on malformed file".to_string()));
}

#[test]
fn long_pdf_text_is_cut_to_the_limit() {
    let long = "x".repeat(MAX_TEXT_SIZE + 10);
    let r = extract_content("pdf", ContentSource::Pdf(PdfOutcome::Text(long))).unwrap();
    assert_eq!(r.len(), MAX_TEXT_SIZE);
    assert_eq!(cut_text("short".to_string()), "short");
}

#[test]
fn cut_falls_between_characters() {
    // Each euro sign is three bytes; the limit falls inside one of them.
    let euros = "\u{20ac}".repeat(MAX_TEXT_SIZE / 3 + 5);
    let cut = cut_text(euros);
    assert_eq!(cut.len(), MAX_TEXT_SIZE - MAX_TEXT_SIZE % 3);
    let stored = extract_content("pdf", ContentSource::Pdf(PdfOutcome::Text("\u{20ac}".repeat(MAX_TEXT_SIZE)))).unwrap();
    assert!(stored.len() <= MAX_TEXT_SIZE);
    assert!(stored.len() > MAX_TEXT_SIZE - 3);
}

#[test]
fn text_with_invalid_bytes_stays_within_the_limit() {
    let bytes = vec![0xffu8; MAX_TEXT_SIZE];
    let text = text_content(&bytes);
    assert!(text.len() <= MAX_TEXT_SIZE);
    assert!(text.len() > MAX_TEXT_SIZE - 3);
    assert!(text.chars().all(|c| c == '\u{FFFD}'));
}

fn docx_archive(xml: &str) -> Vec<u8> {
    let mut writer = zip::ZipWriter::new(std::io::Cursor::new(Vec::new()));
    let options = zip::write::SimpleFileOptions::default()
        .compression_method(zip::CompressionMethod::Stored);
    writer.start_file("word/document.xml", options).unwrap();
    writer.write_all(xml.as_bytes()).unwrap();
    writer.finish().unwrap().into_inner()
}

#[test]
fn docx_archive_is_unzipped_and_read() {
    let bytes = docx_archive("<w:document xmlns:w=\"x\"><w:p><w:t>Hello</w:t></w:p><w:p><w:t>there</w:t></w:p></w:document>");
    assert_eq!(docx_text(&bytes), Ok("Hello\nthere".to_string()));
}

#[test]
fn docx_archive_failures() {
    let r = docx_text(b"not a zip file at all");
    assert!(r.unwrap_err().starts_with("Failed to read docx as zip: "));
    let mut writer = zip::ZipWriter::new(std::io::Cursor::new(Vec::new()));
    let options = zip::write::SimpleFileOptions::default()
        .compression_method(zip::CompressionMethod::Stored);
    writer.start_file("other.xml", options).unwrap();
    writer.write_all(b"<a/>").unwrap();
    let bytes = writer.finish().unwrap().into_inner();
    assert!(docx_text(&bytes).unwrap_err().starts_with("No word/document.xml in docx: "));
}

#[test]
fn docx_empty_text_element_collects_nothing_after_it() {
    let xml = r#"<w:document xmlns:w="x"><w:p><w:t/><w:instrText>PAGE</w:instrText><w:t>a</w:t></w:p></w:document>"#;
    assert_eq!(collect_docx_text(xml), Ok("a".to_string()));
}

#[test]
fn docx_paragraphs_are_separated_by_newlines() {
    let xml = r#"<?xml version="1.0" encoding="UTF-8"?><w:document xmlns:w="http://schemas.openxmlformats.org/wordprocessingml/2006/main"><w:body><w:p><w:r><w:t>Hello</w:t></w:r></w:p><w:p><w:r><w:t>World &amp; more</w:t></w:r></w:p></w:body></w:document>"#;
    assert_eq!(collect_docx_text(xml), Ok("Hello\nWorld & more".to_string()));
}

#[test]
fn docx_text_outside_text_elements_is_ignored() {
    let xml = r#"<w:document xmlns:w="x"><w:p><w:r><w:instrText>PAGE</w:instrText><w:t xml:space="preserve">a b</w:t></w:r></w:p><w:p/><w:p><w:t>c</w:t></w:p></w:document>"#;
    assert_eq!(collect_docx_text(xml), Ok("a b\n\nc".to_string()));
}

#[test]
fn docx_first_paragraph_adds_no_newline() {
    let xml = r#"<w:document xmlns:w="x"><w:p></w:p><w:p><w:t>only</w:t></w:p></w:document>"#;
    assert_eq!(collect_docx_text(xml), Ok("only".to_string()));
}

#[test]
fn docx_malformed_xml_is_an_error() {
    let r = collect_docx_text("<w:document><w:p><w:t>x</w:p></w:document>");
    let message = r.unwrap_err();
    assert!(message.starts_with("XML parse error in docx: "));
}

#[test]
fn docx_archive_errors_have_their_messages() {
    let r = docx_document_text(Err(DocxArchiveError::MissingDocument("not found".to_string())));
    assert_eq!(r, Err("No word/document.xml in docx: not found".to_string()));
    let r = docx_document_text(Err(DocxArchiveError::NotZip("bad magic".to_string())));
    assert_eq!(r, Err("Failed to read docx as zip: bad magic".to_string()));
    let r = docx_document_text(Err(DocxArchiveError::Open("denied".to_string())));
    assert_eq!(r, Err("Failed to open docx: denied".to_string()));
    let r = docx_document_text(Err(DocxArchiveError::ReadDocument("invalid utf-8".to_string())));
    assert_eq!(r, Err("Failed to read document.xml: invalid utf-8".to_string()));
}

#[test]
fn docx_collection_stops_after_the_limit() {
    let piece = "y".repeat(600_000);
    let xml = format!(
        "<d><p><t>{}</t></p><p><t>{}</t></p><p><t>never</t></p></d>",
        piece, piece
    );
    let collected = collect_docx_text(&xml).unwrap();
    assert!(collected.len() >= MAX_TEXT_SIZE);
    assert!(!collected.contains("never"));
    let stored = extract_content("docx", ContentSource::Docx(Ok(collected))).unwrap();
    assert_eq!(stored.len(), MAX_TEXT_SIZE);
}
