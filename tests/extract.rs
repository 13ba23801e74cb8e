use std::io::{Cursor, Write};

use dmarc_analyzer::extract::{strip_extension, DecompressedPayload, ImapExtract, RawAttachment, SkipReason};
use dmarc_analyzer::mail::{parse_message, MailMessage, MailPart};

fn part(mimetype: &str, filename: Option<&str>, body: &[u8]) -> MailPart {
    MailPart { mimetype: String::from(mimetype), filename: filename.map(String::from), body: Some(body.to_vec()) }
}

fn message(top: MailPart, subparts: Vec<MailPart>) -> MailMessage {
    MailMessage { message_id: Some(String::from("<m@example>")), top, subparts }
}

fn gzip(data: &[u8]) -> Vec<u8> {
    let mut enc = libflate::gzip::Encoder::new(Vec::new()).unwrap();
    enc.write_all(data).unwrap();
    enc.finish().into_result().unwrap()
}

fn zip(name: &str, data: &[u8]) -> Vec<u8> {
    let mut w = zip::ZipWriter::new(Cursor::new(Vec::new()));
    w.start_file(name, zip::write::FileOptions::default()).unwrap();
    w.write_all(data).unwrap();
    w.finish().unwrap().into_inner()
}

fn attachment(content: Vec<u8>, mimetype: &str, filename: &str) -> RawAttachment {
    RawAttachment { content, mimetype: String::from(mimetype), filename: String::from(filename) }
}

#[test]
fn locator_takes_third_child_after_two_text_parts() {
    let m = message(
        part("multipart/mixed", None, b""),
        vec![
            part("text/plain", None, b"one"),
            part("text/plain", None, b"two"),
            part("application/zip", Some("report.zip"), b"three"),
        ],
    );
    let a = ImapExtract::get_attachment(&m).unwrap();
    assert_eq!(a.content, b"three".to_vec());
    assert_eq!(a.mimetype, "application/zip");
    assert_eq!(a.filename, "report.zip");
}

#[test]
fn locator_takes_top_level_body() {
    let m = message(part("application/gzip", Some("r.xml.gz"), b"top"), vec![part("application/zip", Some("z.zip"), b"child")]);
    let a = ImapExtract::get_attachment(&m).unwrap();
    assert_eq!(a.content, b"top".to_vec());
    assert_eq!(a.filename, "r.xml.gz");
}

#[test]
fn locator_stops_at_first_usable_part() {
    let m = message(
        part("multipart/mixed", None, b""),
        vec![part("application/octet-stream", Some("first.gz"), b"1"), part("application/zip", Some("second.zip"), b"2")],
    );
    assert_eq!(ImapExtract::get_attachment(&m).unwrap().filename, "first.gz");
}

#[test]
fn locator_without_usable_part() {
    let m = message(part("multipart/mixed", None, b""), vec![part("text/plain", None, b"hi"), part("image/png", Some("a.png"), b"x")]);
    assert_eq!(ImapExtract::get_attachment(&m), Err(SkipReason::NoAttachment));
    let single = message(part("text/plain", None, b"hi"), vec![]);
    assert_eq!(ImapExtract::get_attachment(&single), Err(SkipReason::NoAttachment));
}

#[test]
fn locator_without_filename() {
    let m = message(part("multipart/mixed", None, b""), vec![part("application/zip", None, b"x")]);
    assert_eq!(ImapExtract::get_attachment(&m), Err(SkipReason::NoFilename));
    let empty_name = message(part("application/zip", Some(""), b"x"), vec![]);
    assert_eq!(ImapExtract::get_attachment(&empty_name), Err(SkipReason::NoFilename));
}

#[test]
fn locator_with_empty_or_missing_body() {
    let m = message(part("application/zip", Some("a.zip"), b""), vec![]);
    assert_eq!(ImapExtract::get_attachment(&m), Err(SkipReason::NoAttachment));
    let mut p = part("application/zip", Some("a.zip"), b"");
    p.body = None;
    assert_eq!(ImapExtract::get_attachment(&message(p, vec![])), Err(SkipReason::NoAttachment));
}

#[test]
fn decompress_zip_takes_first_entry() {
    let a = attachment(zip("google.com!example.com!1!2.xml", b"<feedback/>"), "application/zip", "x.zip");
    assert_eq!(
        ImapExtract::decompress_attachment(a),
        Ok(DecompressedPayload { bytes: b"<feedback/>".to_vec(), inferred_name: String::from("google.com!example.com!1!2.xml") })
    );
}

fn zip_with_aes_field(name: &str, data: &[u8]) -> Vec<u8> {
    let mut w = zip::ZipWriter::new(Cursor::new(Vec::new()));
    let options = zip::write::FileOptions::default().compression_method(zip::CompressionMethod::Stored);
    w.start_file_with_extra_data(name, options).unwrap();
    w.write_all(&[0xFE, 0xCA, 0x07, 0x00, 0x02, 0x00, b'A', b'E', 0x03, 0x00, 0x00]).unwrap();
    w.end_extra_data().unwrap();
    w.write_all(data).unwrap();
    let mut bytes = w.finish().unwrap().into_inner();
    let field = [0xFE, 0xCA, 0x07, 0x00, 0x02, 0x00, b'A', b'E'];
    let mut patched = 0;
    let mut i = 0;
    while i + field.len() <= bytes.len() {
        if bytes[i..i + field.len()] == field {
            bytes[i] = 0x01;
            bytes[i + 1] = 0x99;
            patched += 1;
        }
        i += 1;
    }
    assert_eq!(patched, 2);
    bytes
}

#[test]
fn decompress_zip_with_aes_field_fails_cleanly() {
    let a = attachment(zip_with_aes_field("r.xml", b"<feedback/>"), "application/zip", "r.zip");
    assert_eq!(ImapExtract::decompress_attachment(a), Err(SkipReason::DecompressionFailed));
}

#[test]
fn decompress_gzip_strips_extension() {
    let a = attachment(gzip(b"<feedback></feedback>"), "application/gzip", "report.xml.gz");
    assert_eq!(
        ImapExtract::decompress_attachment(a),
        Ok(DecompressedPayload { bytes: b"<feedback></feedback>".to_vec(), inferred_name: String::from("report.xml") })
    );
}

#[test]
fn decompress_octet_stream_as_gzip() {
    let a = attachment(gzip(b"abc"), "application/octet-stream", "r.gz");
    let p = ImapExtract::decompress_attachment(a).unwrap();
    assert_eq!(p.bytes, b"abc".to_vec());
    assert_eq!(p.inferred_name, "r");
}

#[test]
fn decompress_failures() {
    let bad_zip = attachment(b"not a zip".to_vec(), "application/zip", "a.zip");
    assert_eq!(ImapExtract::decompress_attachment(bad_zip), Err(SkipReason::DecompressionFailed));
    let bad_gzip = attachment(b"not gzip".to_vec(), "application/gzip", "a.gz");
    assert_eq!(ImapExtract::decompress_attachment(bad_gzip), Err(SkipReason::DecompressionFailed));
    let other = attachment(gzip(b"abc"), "text/plain", "a.gz");
    assert_eq!(ImapExtract::decompress_attachment(other), Err(SkipReason::DecompressionFailed));
}

#[test]
fn decompress_refuses_oversized_documents() {
    let data = b"0123456789";
    let gz = attachment(gzip(data), "application/gzip", "r.xml.gz");
    assert_eq!(ImapExtract::decompress_attachment_within(gz.clone(), 10).unwrap().bytes, data.to_vec());
    assert_eq!(ImapExtract::decompress_attachment_within(gz, 9), Err(SkipReason::DecompressionFailed));
    let z = attachment(zip("r.xml", data), "application/zip", "r.zip");
    assert_eq!(ImapExtract::decompress_attachment_within(z.clone(), 10).unwrap().bytes, data.to_vec());
    assert_eq!(ImapExtract::decompress_attachment_within(z, 0), Err(SkipReason::DecompressionFailed));
    let empty = attachment(gzip(b""), "application/gzip", "e.gz");
    assert_eq!(ImapExtract::decompress_attachment_within(empty, 0).unwrap().bytes, Vec::<u8>::new());
}

#[test]
fn extract_payload_runs_both_steps() {
    let m = message(part("multipart/mixed", None, b""), vec![part("text/plain", None, b"x"), part("application/gzip", Some("r.xml.gz"), &gzip(b"doc"))]);
    let p = ImapExtract::extract_payload(&m).unwrap();
    assert_eq!(p.bytes, b"doc".to_vec());
    assert_eq!(p.inferred_name, "r.xml");
    let none = message(part("text/plain", None, b"x"), vec![]);
    assert_eq!(ImapExtract::extract_payload(&none), Err(SkipReason::NoAttachment));
}

#[test]
fn strip_extension_cases() {
    assert_eq!(strip_extension("report.xml.gz"), "report.xml");
    assert_eq!(strip_extension("report"), "report");
    assert_eq!(strip_extension(".hidden"), ".hidden");
    assert_eq!(strip_extension("dir.d/file"), "dir.d/file");
    assert_eq!(strip_extension("dir/file.gz"), "dir/file");
    assert_eq!(strip_extension("dir/.gz"), "dir/.gz");
    assert_eq!(strip_extension("name."), "name");
    assert_eq!(strip_extension(""), "");
}

#[test]
fn parse_message_reads_parts() {
    let raw = b"Message-ID: <abc@example.com>\r\n\
Content-Type: multipart/mixed; boundary=\"XX\"\r\n\
\r\n\
--XX\r\n\
Content-Type: text/plain\r\n\
\r\n\
hello\r\n\
--XX\r\n\
Content-Type: application/zip\r\n\
Content-Disposition: attachment; filename=\"report.zip\"\r\n\
Content-Transfer-Encoding: base64\r\n\
\r\n\
aGVsbG8=\r\n\
--XX--\r\n";
    let m = parse_message(raw).unwrap();
    assert_eq!(m.message_id, Some(String::from("<abc@example.com>")));
    assert_eq!(m.top.mimetype, "multipart/mixed");
    assert_eq!(m.subparts.len(), 2);
    assert_eq!(m.subparts[0].mimetype, "text/plain");
    assert_eq!(m.subparts[1].filename, Some(String::from("report.zip")));
    assert_eq!(m.subparts[1].body, Some(b"hello".to_vec()));
    let a = ImapExtract::get_attachment(&m).unwrap();
    assert_eq!(a.content, b"hello".to_vec());
}

#[test]
fn parse_message_refuses_malformed_header() {
    assert_eq!(parse_message(b" folded first line\r\n\r\nbody").unwrap_err(), SkipReason::MalformedMessage);
}

#[test]
fn skip_reasons_are_described() {
    assert_eq!(SkipReason::NoAttachment.describe(), "No attachment found.");
    assert_eq!(SkipReason::NoFilename.describe(), "No file name found.");
    assert_eq!(SkipReason::MalformedMessage.describe(), "Message could not be parsed.");
    assert_eq!(SkipReason::DecompressionFailed.describe(), "Attachment could not be decompressed.");
    assert_eq!(SkipReason::MalformedReport.describe(), "Report could not be parsed.");
}
