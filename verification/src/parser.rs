//! Text extraction from content that has already been read from disk:
//! plain text bytes, the text a PDF extractor produced, and the
//! `word/document.xml` part of a DOCX archive.

use vstd::prelude::*;
use vstd::string::StringSliceAdditionalSpecFns;
use vstd::utf8::{decode_utf8, encode_utf8, is_char_boundary, valid_utf8};
use std::io::Read;
use quick_xml::events::Event;
use quick_xml::reader::Reader;
use crate::config::MAX_TEXT_SIZE;
use crate::text::str_eq;

verus! {

broadcast use vstd::string::group_string_axioms;

/// The UTF-8 length of a string in bytes.
pub open spec fn byte_len(s: Seq<char>) -> nat {
    encode_utf8(s).len()
}

/// The UTF-8 length of `s` in bytes.
pub fn byte_length(s: &str) -> (n: usize)
    ensures
        n == byte_len(s@),
{
    let b = s.as_bytes();
    b.len()
}

/// The extractor that a parser type names.
pub enum ParserKind {
    Text,
    Pdf,
    Docx,
    NoContent,
}

/// `"text"`, `"pdf"` and `"docx"` name their extractors; every other parser
/// type means metadata only.
pub open spec fn parser_kind_of(parser_type: Seq<char>) -> ParserKind {
    if parser_type == "text"@ {
        ParserKind::Text
    } else if parser_type == "pdf"@ {
        ParserKind::Pdf
    } else if parser_type == "docx"@ {
        ParserKind::Docx
    } else {
        ParserKind::NoContent
    }
}

/// The extractor for a parser type.
pub fn parser_kind(parser_type: &str) -> (r: ParserKind)
    ensures
        r == parser_kind_of(parser_type@),
{
    if str_eq(parser_type, "text") {
        ParserKind::Text
    } else if str_eq(parser_type, "pdf") {
        ParserKind::Pdf
    } else if str_eq(parser_type, "docx") {
        ParserKind::Docx
    } else {
        ParserKind::NoContent
    }
}

/// What the PDF extractor gave for a file: its text, the text of its error,
/// or nothing because it panicked on a malformed file.
pub enum PdfOutcome {
    Text(String),
    Failed(String),
    Panicked,
}

/// Why the `word/document.xml` part of a DOCX file could not be read; each
/// carries the text of the underlying error.
pub enum DocxArchiveError {
    Open(String),
    NotZip(String),
    MissingDocument(String),
    ReadDocument(String),
}

/// The content read for a file, by extractor: the first bytes of a text
/// file, the outcome of PDF extraction, or the text collected from a DOCX
/// document (see `docx_document_text`) or the error met on the way.
pub enum ContentSource {
    TextBytes(Vec<u8>),
    Pdf(PdfOutcome),
    Docx(Result<String, String>),
}

/// What `String::from_utf8_lossy` gives for these bytes.
pub uninterp spec fn utf8_lossy(bytes: Seq<u8>) -> Seq<char>;

/// Calls `String::from_utf8_lossy`. Claimed: the result is the name
/// `utf8_lossy` of the bytes, and for valid UTF-8 it is the decoded text,
/// as the documentation says (invalid sequences alone are replaced).
#[verifier::external_body]
fn from_utf8_lossy(bytes: &[u8]) -> (r: String)
    ensures
        r@ == utf8_lossy(bytes@),
        valid_utf8(bytes@) ==> r@ == decode_utf8(bytes@),
{
    String::from_utf8_lossy(bytes).into_owned()
}

/// The first `n` bytes of `bytes`, all of them when there are fewer.
pub open spec fn prefix_bytes(bytes: Seq<u8>, n: nat) -> Seq<u8> {
    if bytes.len() <= n {
        bytes
    } else {
        bytes.take(n as int)
    }
}

/// The largest character boundary of `bytes` that is at most `n`.
pub open spec fn floor_boundary(bytes: Seq<u8>, n: nat) -> nat
    decreases n,
{
    if n == 0 || is_char_boundary(bytes, n as int) {
        n
    } else {
        floor_boundary(bytes, (n - 1) as nat)
    }
}

/// The UTF-8 bytes of a text cut to at most `MAX_TEXT_SIZE` bytes at a
/// character boundary: the whole text when it fits, otherwise its longest
/// prefix of whole characters that fits.
pub open spec fn cut_bytes(bytes: Seq<u8>) -> Seq<u8> {
    if bytes.len() <= MAX_TEXT_SIZE {
        bytes
    } else {
        bytes.take(floor_boundary(bytes, MAX_TEXT_SIZE as nat) as int)
    }
}

proof fn lemma_floor_boundary(bytes: Seq<u8>, n: nat)
    ensures
        floor_boundary(bytes, n) <= n,
    decreases n,
{
    if n > 0 && !is_char_boundary(bytes, n as int) {
        lemma_floor_boundary(bytes, (n - 1) as nat);
    }
}

/// Cuts a text to at most `MAX_TEXT_SIZE` bytes, between two characters.
pub fn cut_text(s: String) -> (r: String)
    ensures
        encode_utf8(r@) == cut_bytes(encode_utf8(s@)),
        byte_len(r@) <= MAX_TEXT_SIZE,
{
    if byte_length(s.as_str()) <= MAX_TEXT_SIZE {
        return s;
    }
    let whole = s.as_str();
    let ghost bytes = encode_utf8(s@);
    assert(whole.spec_bytes() == bytes);
    proof {
        vstd::utf8::encode_utf8_valid_utf8(s@);
        lemma_floor_boundary(bytes, MAX_TEXT_SIZE as nat);
    }
    let mut b: usize = MAX_TEXT_SIZE;
    while b > 0 && !whole.is_char_boundary(b)
        invariant
            b <= MAX_TEXT_SIZE < bytes.len(),
            whole.spec_bytes() == bytes,
            vstd::utf8::valid_utf8(bytes),
            floor_boundary(bytes, MAX_TEXT_SIZE as nat) == floor_boundary(bytes, b as nat),
        decreases b,
    {
        b = b - 1;
    }
    assert(floor_boundary(bytes, b as nat) == b);
    assert(is_char_boundary(bytes, b as int));
    let (head, _tail) = whole.split_at(b);
    let r = head.to_owned();
    assert(head.spec_bytes() == encode_utf8(head@));
    assert(encode_utf8(r@) =~= bytes.take(b as int));
    r
}

/// Decodes the content of a text file: the first `MAX_TEXT_SIZE` bytes
/// with invalid UTF-8 replaced, the decoded text then cut to at most
/// `MAX_TEXT_SIZE` bytes between two characters.
pub fn text_content(bytes: &[u8]) -> (r: String)
    ensures
        encode_utf8(r@) == cut_bytes(encode_utf8(utf8_lossy(prefix_bytes(bytes@, MAX_TEXT_SIZE as nat)))),
{
    let decoded = if bytes.len() <= MAX_TEXT_SIZE {
        from_utf8_lossy(bytes)
    } else {
        let mut head: Vec<u8> = Vec::new();
        let mut i: usize = 0;
        while i < MAX_TEXT_SIZE
            invariant
                i <= MAX_TEXT_SIZE < bytes.len(),
                head@ == bytes@.take(i as int),
            decreases MAX_TEXT_SIZE - i,
        {
            head.push(bytes[i]);
            i = i + 1;
            assert(head@ =~= bytes@.take(i as int));
        }
        from_utf8_lossy(head.as_slice())
    };
    cut_text(decoded)
}

/// The result of extracting a PDF's text.
pub open spec fn pdf_result(outcome: PdfOutcome) -> Result<Seq<u8>, Seq<char>> {
    match outcome {
        PdfOutcome::Text(t) => Ok(cut_bytes(encode_utf8(t@))),
        PdfOutcome::Failed(e) => Err("PDF extraction error: "@ + e@),
        PdfOutcome::Panicked => Err("PDF extraction panicked on malformed file"@),
    }
}

/// The message for a DOCX file whose document part could not be read.
pub open spec fn docx_archive_message(e: DocxArchiveError) -> Seq<char> {
    match e {
        DocxArchiveError::Open(m) => "Failed to open docx: "@ + m@,
        DocxArchiveError::NotZip(m) => "Failed to read docx as zip: "@ + m@,
        DocxArchiveError::MissingDocument(m) => "No word/document.xml in docx: "@ + m@,
        DocxArchiveError::ReadDocument(m) => "Failed to read document.xml: "@ + m@,
    }
}

/// The message for a DOCX file whose document part could not be read.
pub fn docx_archive_error_message(e: DocxArchiveError) -> (r: String)
    ensures
        r@ == docx_archive_message(e),
{
    match e {
        DocxArchiveError::Open(m) => String::from_str("Failed to open docx: ").concat(m.as_str()),
        DocxArchiveError::NotZip(m) => String::from_str("Failed to read docx as zip: ").concat(
            m.as_str(),
        ),
        DocxArchiveError::MissingDocument(m) => String::from_str(
            "No word/document.xml in docx: ",
        ).concat(m.as_str()),
        DocxArchiveError::ReadDocument(m) => String::from_str(
            "Failed to read document.xml: ",
        ).concat(m.as_str()),
    }
}

/// The extracted content, as UTF-8 bytes, or the error message.
pub open spec fn extracted(parser_type: Seq<char>, source: ContentSource) -> Result<
    Seq<u8>,
    Seq<char>,
> {
    if parser_kind_of(parser_type) == ParserKind::NoContent {
        Ok(seq![])
    } else {
        match source {
            ContentSource::TextBytes(b) => Ok(
                cut_bytes(encode_utf8(utf8_lossy(prefix_bytes(b@, MAX_TEXT_SIZE as nat)))),
            ),
            ContentSource::Pdf(o) => pdf_result(o),
            ContentSource::Docx(Ok(t)) => Ok(cut_bytes(encode_utf8(t@))),
            ContentSource::Docx(Err(m)) => Err(m@),
        }
    }
}

/// Extract text content from what was read for a file, by its parser type.
/// Types without an extractor give empty content; errors are non-fatal, the
/// file is then indexed with metadata only.
pub fn extract_content(parser_type: &str, source: ContentSource) -> (r: Result<String, String>)
    ensures
        r matches Ok(t) ==> extracted(parser_type@, source) == Ok::<Seq<u8>, Seq<char>>(
            encode_utf8(t@),
        ),
        r matches Err(m) ==> extracted(parser_type@, source) == Err::<Seq<u8>, Seq<char>>(m@),
        parser_kind_of(parser_type@) is NoContent ==> (r matches Ok(t) && t@.len() == 0),
        !(parser_kind_of(parser_type@) is NoContent) ==> {
            &&& source matches ContentSource::Docx(Err(m)) ==> (r matches Err(e) && e@ == m@)
            &&& source matches ContentSource::Pdf(PdfOutcome::Failed(m)) ==> (r matches Err(e)
                && e@ == "PDF extraction error: "@ + m@)
            &&& source matches ContentSource::Pdf(PdfOutcome::Panicked) ==> (r matches Err(e)
                && e@ == "PDF extraction panicked on malformed file"@)
            &&& (source is TextBytes || source matches ContentSource::Pdf(PdfOutcome::Text(_))
                || source matches ContentSource::Docx(Ok(_))) ==> r is Ok
        },
{
    match parser_kind(parser_type) {
        ParserKind::NoContent => {
            return Ok(String::new());
        },
        _ => {},
    }
    match source {
        ContentSource::TextBytes(b) => Ok(text_content(b.as_slice())),
        ContentSource::Pdf(PdfOutcome::Text(t)) => Ok(cut_text(t)),
        ContentSource::Pdf(PdfOutcome::Failed(e)) => Err(
            String::from_str("PDF extraction error: ").concat(e.as_str()),
        ),
        ContentSource::Pdf(PdfOutcome::Panicked) => Err(
            String::from_str("PDF extraction panicked on malformed file"),
        ),
        ContentSource::Docx(Ok(t)) => Ok(cut_text(t)),
        ContentSource::Docx(Err(m)) => Err(m),
    }
}

} // verus!

verus! {

/// An XML reader over a document held in memory.
#[verifier::external_type_specification]
#[verifier::external_body]
#[verifier::reject_recursive_types(R)]
pub struct ExXmlReader<R>(Reader<R>);

/// One event of an XML document, reduced to what text extraction reads:
/// the local name of a start, empty or end tag, the unescaped text of a
/// text node (`None` when unescaping failed), the end of the document, a
/// parse error with its message, or anything else.
pub enum XmlEvent {
    Start(Vec<u8>),
    Empty(Vec<u8>),
    End(Vec<u8>),
    Text(Option<String>),
    Eof,
    Error(String),
    Other,
}

/// Whether the event ends the document: its end or a parse error.
pub open spec fn is_terminal(e: XmlEvent) -> bool {
    e is Eof || e is Error
}

/// A stream of events that stops at its first terminal event.
pub open spec fn ends_at_terminal(evs: Seq<XmlEvent>) -> bool {
    &&& evs.len() > 0
    &&& is_terminal(evs.last())
    &&& forall|i: int| 0 <= i < evs.len() - 1 ==> !is_terminal(#[trigger] evs[i])
}

/// The events that `quick_xml`'s reader yields for a document, up to and
/// including the first end or error.
pub uninterp spec fn xml_document_events(xml: Seq<char>) -> Seq<XmlEvent>;

/// The events a reader has yet to yield, up to and including the first end
/// or error.
pub uninterp spec fn xml_pending_events(reader: Reader<&[u8]>) -> Seq<XmlEvent>;

/// Calls `quick_xml::Reader::from_str`. Claimed: the new reader has the
/// document's events ahead of it, and these stop at the first end of
/// document or error (the reader consumes its finite input and then reports
/// `Eof`).
#[verifier::external_body]
fn xml_reader<'a>(xml: &'a str) -> (r: Reader<&'a [u8]>)
    ensures
        xml_pending_events(r) == xml_document_events(xml@),
        ends_at_terminal(xml_pending_events(r)),
{
    Reader::from_str(xml)
}

/// Calls `quick_xml::Reader::read_event_into` and converts the event: the
/// tag's `local_name`, the text's `unescape`, the error's message. Claimed:
/// the reader yields its next pending event and has the rest ahead of it.
/// The scratch buffer's contents are left unsaid.
#[verifier::external_body]
fn read_xml_event(reader: &mut Reader<&[u8]>, buf: &mut Vec<u8>) -> (e: XmlEvent)
    requires
        xml_pending_events(*old(reader)).len() > 0,
    ensures
        e == xml_pending_events(*old(reader))[0],
        xml_pending_events(*final(reader)) == xml_pending_events(*old(reader)).drop_first(),
{
    match reader.read_event_into(buf) {
        Ok(Event::Start(t)) => XmlEvent::Start(t.local_name().as_ref().to_vec()),
        Ok(Event::Empty(t)) => XmlEvent::Empty(t.local_name().as_ref().to_vec()),
        Ok(Event::End(t)) => XmlEvent::End(t.local_name().as_ref().to_vec()),
        Ok(Event::Text(t)) => XmlEvent::Text(t.unescape().ok().map(|s| s.into_owned())),
        Ok(Event::Eof) => XmlEvent::Eof,
        Err(err) => XmlEvent::Error(err.to_string()),
        Ok(_) => XmlEvent::Other,
    }
}

/// Whether a tag's local name is the single letter `letter`.
pub open spec fn is_tag(name: Seq<u8>, letter: u8) -> bool {
    name.len() == 1 && name[0] == letter
}

/// The text of a DOCX document collected from its XML events: the content
/// of `<w:t>` elements (an empty `<w:t/>` holds none), a newline at each
/// `<w:p>` paragraph once some text was collected; reading stops once `MAX_TEXT_SIZE` bytes were collected,
/// at the end of the document, or with an error at a parse error.
pub open spec fn docx_fold(events: Seq<XmlEvent>, acc: Seq<char>, in_text: bool) -> Result<
    Seq<char>,
    Seq<char>,
>
    decreases events.len(),
{
    if byte_len(acc) >= MAX_TEXT_SIZE || events.len() == 0 {
        Ok(acc)
    } else {
        let rest = events.drop_first();
        match events[0] {
            XmlEvent::Start(n) => if is_tag(n@, 116) {
                docx_fold(rest, acc, true)
            } else if is_tag(n@, 112) && acc.len() > 0 {
                docx_fold(rest, acc.push('\n'), in_text)
            } else {
                docx_fold(rest, acc, in_text)
            },
            XmlEvent::Empty(n) => if is_tag(n@, 112) && acc.len() > 0 {
                docx_fold(rest, acc.push('\n'), in_text)
            } else {
                docx_fold(rest, acc, in_text)
            },
            XmlEvent::End(n) => if is_tag(n@, 116) {
                docx_fold(rest, acc, false)
            } else {
                docx_fold(rest, acc, in_text)
            },
            XmlEvent::Text(Some(t)) => if in_text {
                docx_fold(rest, acc + t@, in_text)
            } else {
                docx_fold(rest, acc, in_text)
            },
            XmlEvent::Text(None) => docx_fold(rest, acc, in_text),
            XmlEvent::Eof => Ok(acc),
            XmlEvent::Error(m) => Err("XML parse error in docx: "@ + m@),
            XmlEvent::Other => docx_fold(rest, acc, in_text),
        }
    }
}

/// The text collected from a DOCX document's XML.
pub open spec fn docx_xml_text(xml: Seq<char>) -> Result<Seq<char>, Seq<char>> {
    docx_fold(xml_document_events(xml), seq![], false)
}

fn tag_is(name: &Vec<u8>, letter: u8) -> (r: bool)
    ensures
        r == is_tag(name@, letter),
{
    name.len() == 1 && name[0] == letter
}

/// Collects the text of a DOCX document from its `word/document.xml`: the
/// content of text elements, a newline between paragraphs, stopping once
/// `MAX_TEXT_SIZE` bytes were collected (the last piece may pass the limit;
/// `extract_content` cuts it).
pub fn collect_docx_text(xml: &str) -> (r: Result<String, String>)
    ensures
        r matches Ok(t) ==> docx_xml_text(xml@) == Ok::<Seq<char>, Seq<char>>(t@),
        r matches Err(m) ==> docx_xml_text(xml@) == Err::<Seq<char>, Seq<char>>(m@),
{
    let mut reader = xml_reader(xml);
    let mut result = String::new();
    let mut in_text = false;
    let mut buf: Vec<u8> = Vec::new();
    loop
        invariant
            ends_at_terminal(xml_pending_events(reader)),
            docx_xml_text(xml@) == docx_fold(xml_pending_events(reader), result@, in_text),
        decreases xml_pending_events(reader).len(),
    {
        if byte_length(result.as_str()) >= MAX_TEXT_SIZE {
            return Ok(result);
        }
        let ghost pending = xml_pending_events(reader);
        let ghost acc = result@;
        let ev = read_xml_event(&mut reader, &mut buf);
        assert(pending.drop_first() == xml_pending_events(reader));
        match ev {
            XmlEvent::Start(name) => {
                if tag_is(&name, 116) {
                    in_text = true;
                } else if tag_is(&name, 112) && !result.as_str().is_empty() {
                    push_newline(&mut result);
                }
            },
            XmlEvent::Empty(name) => {
                if tag_is(&name, 112) && !result.as_str().is_empty() {
                    push_newline(&mut result);
                }
            },
            XmlEvent::End(name) => {
                if tag_is(&name, 116) {
                    in_text = false;
                }
            },
            XmlEvent::Text(Some(t)) => {
                if in_text {
                    result.append(t.as_str());
                }
            },
            XmlEvent::Text(None) => {},
            XmlEvent::Eof => {
                return Ok(result);
            },
            XmlEvent::Error(m) => {
                return Err(String::from_str("XML parse error in docx: ").concat(m.as_str()));
            },
            XmlEvent::Other => {},
        }
        proof {
            assert(!is_terminal(pending[0]));
            let rest = pending.drop_first();
            assert(rest.last() == pending.last());
            assert forall|i: int| 0 <= i < rest.len() - 1 implies !is_terminal(#[trigger] rest[i]) by {
                assert(rest[i] == pending[i + 1]);
            }
        }
        buf.clear();
    }
}

fn push_newline(s: &mut String)
    ensures
        final(s)@ == old(s)@.push('\n'),
{
    crate::text::push_char(s, '\n');
}

/// Reads the text of a DOCX document from its `word/document.xml`, or
/// gives the message for the part that could not be read.
pub fn docx_document_text(document: Result<String, DocxArchiveError>) -> (r: Result<String, String>)
    ensures
        document matches Err(e) ==> r matches Err(m) && m@ == docx_archive_message(e),
        document matches Ok(xml) ==> (r matches Ok(t) ==> docx_xml_text(xml@) == Ok::<
            Seq<char>,
            Seq<char>,
        >(t@)),
        document matches Ok(xml) ==> (r matches Err(m) ==> docx_xml_text(xml@) == Err::<
            Seq<char>,
            Seq<char>,
        >(m@)),
{
    match document {
        Ok(xml) => collect_docx_text(xml.as_str()),
        Err(e) => Err(docx_archive_error_message(e)),
    }
}


/// The text of the `word/document.xml` entry of a ZIP archive, as the `zip`
/// crate reads it; `None` when the archive, the entry or its UTF-8 text
/// cannot be read.
pub uninterp spec fn zip_document_xml(archive: Seq<u8>) -> Option<Seq<char>>;

/// Calls `zip::ZipArchive::new` over the bytes, `ZipArchive::by_name` for
/// `word/document.xml` and `Read::read_to_string` on the entry, converting
/// each error to its text. Claimed: the result is the name
/// `zip_document_xml` of the bytes, and a failure is never an open error.
/// Which of the three failures comes is left unsaid.
#[verifier::external_body]
fn unzip_document_xml(archive: &[u8]) -> (r: Result<String, DocxArchiveError>)
    ensures
        r is Ok <==> zip_document_xml(archive@) is Some,
        r matches Ok(xml) ==> zip_document_xml(archive@) == Some(xml@),
        r matches Err(e) ==> !(e is Open),
{
    let mut zip = zip::ZipArchive::new(std::io::Cursor::new(archive))
        .map_err(|e| DocxArchiveError::NotZip(e.to_string()))?;
    let mut entry = zip
        .by_name("word/document.xml")
        .map_err(|e| DocxArchiveError::MissingDocument(e.to_string()))?;
    let mut xml = String::new();
    entry.read_to_string(&mut xml).map_err(|e| DocxArchiveError::ReadDocument(e.to_string()))?;
    Ok(xml)
}

/// Whether `m` is the message of an archive that could not be read as a
/// DOCX document (not a ZIP file, no document part, or an unreadable one).
pub open spec fn is_archive_failure_message(m: Seq<char>) -> bool {
    exists|detail: Seq<char>|
        m == "Failed to read docx as zip: "@ + detail || m == "No word/document.xml in docx: "@
            + detail || m == "Failed to read document.xml: "@ + detail
}

/// Extract text content from the bytes of a DOCX file: the text of its
/// `word/document.xml`, collected as `collect_docx_text` does.
pub fn docx_text(archive: &[u8]) -> (r: Result<String, String>)
    ensures
        zip_document_xml(archive@) matches Some(xml) ==> (r matches Ok(t) ==> docx_xml_text(xml)
            == Ok::<Seq<char>, Seq<char>>(t@)),
        zip_document_xml(archive@) matches Some(xml) ==> (r matches Err(m) ==> docx_xml_text(xml)
            == Err::<Seq<char>, Seq<char>>(m@)),
        zip_document_xml(archive@) is None ==> (r matches Err(m) && is_archive_failure_message(m@)),
{
    let document = unzip_document_xml(archive);
    let ghost d = document;
    let r = docx_document_text(document);
    proof {
        if let Err(e) = d {
            match e {
                DocxArchiveError::NotZip(x) => {
                    assert(docx_archive_message(e) == "Failed to read docx as zip: "@ + x@);
                },
                DocxArchiveError::MissingDocument(x) => {
                    assert(docx_archive_message(e) == "No word/document.xml in docx: "@ + x@);
                },
                DocxArchiveError::ReadDocument(x) => {
                    assert(docx_archive_message(e) == "Failed to read document.xml: "@ + x@);
                },
                DocxArchiveError::Open(_) => {},
            }
        }
    }
    r
}

} // verus!

verus! {

/// Extracted content is stored as at most `MAX_TEXT_SIZE` bytes (1 MB),
/// whatever the extractor.
pub proof fn extracted_text_within_limit(parser_type: Seq<char>, source: ContentSource)
    requires
        extracted(parser_type, source) is Ok,
    ensures
        extracted(parser_type, source)->Ok_0.len() <= MAX_TEXT_SIZE,
{
    let r = extracted(parser_type, source)->Ok_0;
    match source {
        ContentSource::TextBytes(b) => {
            lemma_floor_boundary(encode_utf8(utf8_lossy(prefix_bytes(b@, MAX_TEXT_SIZE as nat))), MAX_TEXT_SIZE as nat);
        },
        ContentSource::Pdf(PdfOutcome::Text(t)) => {
            lemma_floor_boundary(encode_utf8(t@), MAX_TEXT_SIZE as nat);
        },
        ContentSource::Docx(Ok(t)) => {
            lemma_floor_boundary(encode_utf8(t@), MAX_TEXT_SIZE as nat);
        },
        _ => {},
    }
}

/// A file whose type has an extractor is reported as failed exactly when
/// what was read for it carries an error, and with that error's message:
/// an unreadable DOCX gives its archive or XML message, a failed PDF its
/// extractor's message; readable content is never an error.
pub proof fn extraction_errors_are_reported(parser_type: Seq<char>, source: ContentSource)
    requires
        !(parser_kind_of(parser_type) is NoContent),
    ensures
        source matches ContentSource::Docx(Err(m)) ==> extracted(parser_type, source) == Err::<
            Seq<u8>,
            Seq<char>,
        >(m@),
        source matches ContentSource::Pdf(PdfOutcome::Failed(m)) ==> extracted(parser_type, source)
            == Err::<Seq<u8>, Seq<char>>("PDF extraction error: "@ + m@),
        source matches ContentSource::Pdf(PdfOutcome::Panicked) ==> extracted(parser_type, source)
            == Err::<Seq<u8>, Seq<char>>("PDF extraction panicked on malformed file"@),
        (source is TextBytes || source matches ContentSource::Pdf(PdfOutcome::Text(_))
            || source matches ContentSource::Docx(Ok(_))) ==> extracted(parser_type, source) is Ok,
{
}

/// A type without an extractor stores no content, whatever was read.
pub proof fn metadata_only_types_store_nothing(parser_type: Seq<char>, source: ContentSource)
    requires
        parser_kind_of(parser_type) is NoContent,
    ensures
        extracted(parser_type, source) == Ok::<Seq<u8>, Seq<char>>(seq![]),
{
}

/// Whether `e` opens a text element (`<w:t>`).
pub open spec fn opens_text_element(e: XmlEvent) -> bool {
    e matches XmlEvent::Start(n) && is_tag(n@, 116)
}

proof fn lemma_fold_same_tail(before: Seq<XmlEvent>, t1: Seq<XmlEvent>, t2: Seq<XmlEvent>)
    requires
        forall|a: Seq<char>, c: bool| docx_fold(t1, a, c) == docx_fold(t2, a, c),
    ensures
        forall|a: Seq<char>, c: bool| docx_fold(before + t1, a, c) == docx_fold(before + t2, a, c),
    decreases before.len(),
{
    if before.len() == 0 {
        assert(before + t1 =~= t1);
        assert(before + t2 =~= t2);
    } else {
        let tail = before.drop_first();
        lemma_fold_same_tail(tail, t1, t2);
        assert((before + t1).drop_first() =~= tail + t1);
        assert((before + t2).drop_first() =~= tail + t2);
        assert forall|a: Seq<char>, c: bool|
            docx_fold(before + t1, a, c) == docx_fold(before + t2, a, c) by {
            let e1 = before + t1;
            let e2 = before + t2;
            assert(e1[0] == before[0]);
            assert(e2[0] == before[0]);
            assert(e1.drop_first() == tail + t1);
            assert(e2.drop_first() == tail + t2);
            match before[0] {
                XmlEvent::Start(n) => {
                    assert(docx_fold(tail + t1, a.push('\n'), c) == docx_fold(tail + t2, a.push('\n'), c));
                    assert(docx_fold(tail + t1, a, true) == docx_fold(tail + t2, a, true));
                    assert(docx_fold(tail + t1, a, c) == docx_fold(tail + t2, a, c));
                },
                XmlEvent::Empty(n) => {
                    assert(docx_fold(tail + t1, a.push('\n'), c) == docx_fold(tail + t2, a.push('\n'), c));
                    assert(docx_fold(tail + t1, a, c) == docx_fold(tail + t2, a, c));
                },
                XmlEvent::End(n) => {
                    assert(docx_fold(tail + t1, a, false) == docx_fold(tail + t2, a, false));
                    assert(docx_fold(tail + t1, a, c) == docx_fold(tail + t2, a, c));
                },
                XmlEvent::Text(Some(t)) => {
                    assert(docx_fold(tail + t1, a + t@, c) == docx_fold(tail + t2, a + t@, c));
                    assert(docx_fold(tail + t1, a, c) == docx_fold(tail + t2, a, c));
                },
                _ => {
                    assert(docx_fold(tail + t1, a, c) == docx_fold(tail + t2, a, c));
                },
            }
        }
    }
}

proof fn lemma_outside_text(mid: Seq<XmlEvent>, x: String, after: Seq<XmlEvent>)
    requires
        forall|i: int| 0 <= i < mid.len() ==> !opens_text_element(#[trigger] mid[i]),
    ensures
        forall|a: Seq<char>|
            docx_fold(mid + seq![XmlEvent::Text(Some(x))] + after, a, false) == docx_fold(
                mid + after,
                a,
                false,
            ),
    decreases mid.len(),
{
    let with = mid + seq![XmlEvent::Text(Some(x))] + after;
    let without = mid + after;
    if mid.len() == 0 {
        assert(with.drop_first() =~= after);
        assert(without =~= after);
        assert(with[0] == XmlEvent::Text(Some(x)));
    } else {
        let rest = mid.drop_first();
        assert forall|i: int| 0 <= i < rest.len() implies !opens_text_element(#[trigger] rest[i]) by {
            assert(rest[i] == mid[i + 1]);
        }
        lemma_outside_text(rest, x, after);
        let w = rest + seq![XmlEvent::Text(Some(x))] + after;
        let wo = rest + after;
        assert(with.drop_first() =~= w);
        assert(without.drop_first() =~= wo);
        assert(with[0] == mid[0]);
        assert(without[0] == mid[0]);
        assert(!opens_text_element(mid[0]));
        assert forall|a: Seq<char>| docx_fold(with, a, false) == docx_fold(without, a, false) by {
            assert(docx_fold(w, a, false) == docx_fold(wo, a, false));
            assert(docx_fold(w, a.push('\n'), false) == docx_fold(wo, a.push('\n'), false));
        }
    }
}

/// Only the content of `<w:t>` elements is collected: after a `</w:t>`,
/// and until the next `<w:t>` opens, a text node adds nothing, so taking
/// it out of the document leaves the collected text (or error) unchanged.
pub proof fn text_outside_text_elements_is_ignored(
    before: Seq<XmlEvent>,
    end_name: Vec<u8>,
    mid: Seq<XmlEvent>,
    text: String,
    after: Seq<XmlEvent>,
    acc: Seq<char>,
    in_text: bool,
)
    requires
        is_tag(end_name@, 116),
        forall|i: int| 0 <= i < mid.len() ==> !opens_text_element(#[trigger] mid[i]),
    ensures
        docx_fold(
            before + seq![XmlEvent::End(end_name)] + mid + seq![XmlEvent::Text(Some(text))] + after,
            acc,
            in_text,
        ) == docx_fold(before + seq![XmlEvent::End(end_name)] + mid + after, acc, in_text),
{
    let end = seq![XmlEvent::End(end_name)];
    let t1 = end + mid + seq![XmlEvent::Text(Some(text))] + after;
    let t2 = end + mid + after;
    lemma_outside_text(mid, text, after);
    assert forall|a: Seq<char>, c: bool| docx_fold(t1, a, c) == docx_fold(t2, a, c) by {
        assert(t1.drop_first() =~= mid + seq![XmlEvent::Text(Some(text))] + after);
        assert(t2.drop_first() =~= mid + after);
        assert(docx_fold(mid + seq![XmlEvent::Text(Some(text))] + after, a, false) == docx_fold(
            mid + after,
            a,
            false,
        ));
        assert(t1[0] == XmlEvent::End(end_name));
        assert(t2[0] == XmlEvent::End(end_name));
    }
    lemma_fold_same_tail(before, t1, t2);
    assert(before + seq![XmlEvent::End(end_name)] + mid + seq![XmlEvent::Text(Some(text))] + after
        =~= before + t1);
    assert(before + seq![XmlEvent::End(end_name)] + mid + after =~= before + t2);
}

/// Before the first `<w:t>` of a document no text is collected: a text
/// node there adds nothing to the document's text.
pub proof fn text_before_any_text_element_is_ignored(
    mid: Seq<XmlEvent>,
    text: String,
    after: Seq<XmlEvent>,
)
    requires
        forall|i: int| 0 <= i < mid.len() ==> !opens_text_element(#[trigger] mid[i]),
    ensures
        docx_fold(mid + seq![XmlEvent::Text(Some(text))] + after, seq![], false) == docx_fold(
            mid + after,
            seq![],
            false,
        ),
{
    lemma_outside_text(mid, text, after);
}

} // verus!
