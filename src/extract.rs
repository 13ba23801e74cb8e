//! Locating the report attachment of a message and decompressing it.
use vstd::prelude::*;
use crate::config::Config;
use crate::mail::{MailMessage, MailPart};
use crate::text::{copy_bytes, str_less, lemma_str_lt_total, lemma_str_lt_irreflexive};
use vstd::string::StringExecFns;

verus! {

#[verifier::external_type_specification]
#[verifier::external_body]
pub struct ExZipError(zip::result::ZipError);

#[verifier::external_type_specification]
#[verifier::external_body]
pub struct ExIoError(std::io::Error);

/// Why a message was skipped. Each is a condition of the one message; the
/// scan goes on with the next.
#[derive(Debug, Clone, Copy, PartialEq, Eq, Structural)]
pub enum SkipReason {
    /// The message could not be parsed as a mail message.
    MalformedMessage,
    /// No part of the message has a usable content type and a body.
    NoAttachment,
    /// The attachment's content disposition gives no file name.
    NoFilename,
    /// The attachment could not be decompressed.
    DecompressionFailed,
    /// The decompressed document is not a well-formed aggregate report.
    MalformedReport,
}

/// The text that describes a reason in the scan's log.
pub open spec fn reason_text(r: SkipReason) -> Seq<char> {
    match r {
        SkipReason::MalformedMessage => "Message could not be parsed."@,
        SkipReason::NoAttachment => "No attachment found."@,
        SkipReason::NoFilename => "No file name found."@,
        SkipReason::DecompressionFailed => "Attachment could not be decompressed."@,
        SkipReason::MalformedReport => "Report could not be parsed."@,
    }
}

impl SkipReason {
    /// A description of the reason for the scan's log.
    pub fn describe(&self) -> (r: String)
        ensures
            r@ == reason_text(*self),
    {
        let s = match self {
            SkipReason::MalformedMessage => "Message could not be parsed.",
            SkipReason::NoAttachment => "No attachment found.",
            SkipReason::NoFilename => "No file name found.",
            SkipReason::DecompressionFailed => "Attachment could not be decompressed.",
            SkipReason::MalformedReport => "Report could not be parsed.",
        };
        String::from_str(s)
    }
}

/// A report attachment as found in a message.
#[derive(Debug, Clone, PartialEq)]
pub struct RawAttachment {
    pub content: Vec<u8>,
    pub mimetype: String,
    pub filename: String,
}

/// The XML document of an attachment and the name of the report.
#[derive(Debug, Clone, PartialEq)]
pub struct DecompressedPayload {
    pub bytes: Vec<u8>,
    pub inferred_name: String,
}

pub open spec fn zip_type() -> Seq<char> {
    seq!['a', 'p', 'p', 'l', 'i', 'c', 'a', 't', 'i', 'o', 'n', '/', 'z', 'i', 'p']
}

pub open spec fn gzip_type() -> Seq<char> {
    seq!['a', 'p', 'p', 'l', 'i', 'c', 'a', 't', 'i', 'o', 'n', '/', 'g', 'z', 'i', 'p']
}

pub open spec fn octet_stream_type() -> Seq<char> {
    seq![
        'a', 'p', 'p', 'l', 'i', 'c', 'a', 't', 'i', 'o', 'n', '/',
        'o', 'c', 't', 'e', 't', '-', 's', 't', 'r', 'e', 'a', 'm',
    ]
}

/// The content types that may carry a report.
pub open spec fn is_usable(m: Seq<char>) -> bool {
    m == zip_type() || m == gzip_type() || m == octet_stream_type()
}

/// The first part of `ps` with a usable content type.
pub open spec fn first_usable(ps: Seq<MailPart>) -> Option<MailPart>
    decreases ps.len(),
{
    if ps.len() == 0 {
        None
    } else if is_usable(ps[0].mimetype@) {
        Some(ps[0])
    } else {
        first_usable(ps.drop_first())
    }
}

/// The part that holds the report: the message itself where its type is
/// usable, else the first usable part directly below it.
pub open spec fn chosen_part(m: MailMessage) -> Option<MailPart> {
    if is_usable(m.top.mimetype@) {
        Some(m.top)
    } else {
        first_usable(m.subparts@)
    }
}

/// Whether a part has a body that is there and not empty.
pub open spec fn has_body(p: MailPart) -> bool {
    p.body matches Some(b) && b@.len() > 0
}

/// Whether a part has a file name that is not empty.
pub open spec fn has_filename(p: MailPart) -> bool {
    p.filename matches Some(f) && f@.len() > 0
}

fn same_str(a: &str, b: &str) -> (r: bool)
    ensures
        r == (a@ == b@),
{
    let r = !str_less(a, b) && !str_less(b, a);
    proof {
        lemma_str_lt_total(a@, b@);
        lemma_str_lt_irreflexive(a@);
    }
    r
}

fn zip_type_exec() -> (r: &'static str)
    ensures
        r@ == zip_type(),
{
    proof {
        reveal_strlit("application/zip");
    }
    "application/zip"
}

fn gzip_type_exec() -> (r: &'static str)
    ensures
        r@ == gzip_type(),
{
    proof {
        reveal_strlit("application/gzip");
    }
    "application/gzip"
}

fn octet_stream_type_exec() -> (r: &'static str)
    ensures
        r@ == octet_stream_type(),
{
    proof {
        reveal_strlit("application/octet-stream");
    }
    "application/octet-stream"
}

fn usable(m: &String) -> (r: bool)
    ensures
        r == is_usable(m@),
{
    let t = m.as_str();
    same_str(t, zip_type_exec()) || same_str(t, gzip_type_exec()) || same_str(
        t,
        octet_stream_type_exec(),
    )
}

/// What zip makes of an archive: the bytes and the name of its first entry,
/// read with an empty password, or `None` where the archive or that entry
/// cannot be read.
pub uninterp spec fn zip_first_entry(archive: Seq<u8>) -> Option<(Seq<u8>, Seq<char>)>;

/// What libflate's gzip decoder makes of a stream: the decoded bytes, or
/// `None` where the stream cannot be decoded.
pub uninterp spec fn gunzip_of(stream: Seq<u8>) -> Option<Seq<u8>>;

/// Whether reading stopped at `read_limit` bytes of a content whose full
/// decoding, if it succeeds, is at least that long.
pub open spec fn cut_short(full: Option<Seq<u8>>, read: Seq<u8>, read_limit: u64) -> bool {
    read.len() == read_limit && (full matches Some(b) ==> b.len() >= read_limit)
}

/// Relies on zip's `ZipArchive::new`, `ZipArchive::by_index_decrypt(0, b"")`
/// and reading that entry through std's `Read::take(read_limit)` to its end:
/// the first entry's bytes, cut at `read_limit`, and its name, or an error.
/// An entry that is not encrypted ignores the empty password; one that
/// carries an AES field comes back as `InvalidPassword`, which becomes an
/// error here (`by_index` would panic on it).
#[verifier::external_body]
fn unzip_first(content: &Vec<u8>, read_limit: u64) -> (r: Result<(Vec<u8>, String), zip::result::ZipError>)
    ensures
        match r {
            Ok((b, n)) => b@.len() <= read_limit && (b@.len() < read_limit ==> zip_first_entry(
                content@,
            ) == Some((b@, n@))) && (b@.len() == read_limit ==> cut_short(
                match zip_first_entry(content@) {
                    Some(e) => Some(e.0),
                    None => None,
                },
                b@,
                read_limit,
            )),
            Err(_) => zip_first_entry(content@) is None,
        },
{
    let mut archive = zip::ZipArchive::new(std::io::Cursor::new(content))?;
    let entry = match archive.by_index_decrypt(0, b"")? {
        Ok(entry) => entry,
        Err(_) => {
            return Err(zip::result::ZipError::UnsupportedArchive(
                zip::result::ZipError::PASSWORD_REQUIRED,
            ))
        },
    };
    let name = String::from(entry.name());
    let mut bytes: Vec<u8> = Vec::new();
    std::io::copy(&mut std::io::Read::take(entry, read_limit), &mut bytes)?;
    Ok((bytes, name))
}

/// Relies on libflate's `gzip::Decoder`, read through std's
/// `Read::take(read_limit)` to its end: the decoded bytes, cut at
/// `read_limit`, or an error.
#[verifier::external_body]
fn gunzip(content: &Vec<u8>, read_limit: u64) -> (r: Result<Vec<u8>, std::io::Error>)
    ensures
        match r {
            Ok(b) => b@.len() <= read_limit && (b@.len() < read_limit ==> gunzip_of(content@) == Some(
                b@,
            )) && (b@.len() == read_limit ==> cut_short(gunzip_of(content@), b@, read_limit)),
            Err(_) => gunzip_of(content@) is None,
        },
{
    let decoder = libflate::gzip::Decoder::new(std::io::Cursor::new(content))?;
    let mut bytes: Vec<u8> = Vec::new();
    std::io::copy(&mut std::io::Read::take(decoder, read_limit), &mut bytes)?;
    Ok(bytes)
}

/// Where the extension of the last path component of `s[..i]` begins: the
/// position of its last `.`, or -1 where it has none.
pub open spec fn dot_before(s: Seq<char>, i: int) -> int
    decreases i,
{
    if i <= 0 || i > s.len() {
        -1
    } else if s[i - 1] == '/' {
        -1
    } else if s[i - 1] == '.' {
        i - 1
    } else {
        dot_before(s, i - 1)
    }
}

/// A file name without its last extension. A leading dot, as in
/// `.hidden`, starts no extension.
pub open spec fn without_extension(s: Seq<char>) -> Seq<char> {
    let p = dot_before(s, s.len() as int);
    if p > 0 && s[p - 1] != '/' {
        s.subrange(0, p)
    } else {
        s
    }
}

/// Drops the last extension of a file name.
pub fn strip_extension(name: &str) -> (r: String)
    ensures
        r@ == without_extension(name@),
{
    let n = name.unicode_len();
    let mut i: usize = n;
    while i > 0 && name.get_char(i - 1) != '/' && name.get_char(i - 1) != '.'
        invariant
            n == name@.len(),
            i <= n,
            dot_before(name@, n as int) == dot_before(name@, i as int),
        decreases i,
    {
        i = i - 1;
    }
    if i > 1 && name.get_char(i - 1) == '.' && name.get_char(i - 2) != '/' {
        String::from_str(name.substring_char(0, i - 1))
    } else {
        String::from_str(name)
    }
}

/// The located attachment of a message, as content, content type and file name.
pub open spec fn located(m: MailMessage) -> Result<(Seq<u8>, Seq<char>, Seq<char>), SkipReason> {
    match chosen_part(m) {
        None => Err(SkipReason::NoAttachment),
        Some(p) => if !has_body(p) {
            Err(SkipReason::NoAttachment)
        } else if !has_filename(p) {
            Err(SkipReason::NoFilename)
        } else {
            Ok((p.body->Some_0@, p.mimetype@, p.filename->Some_0@))
        },
    }
}

pub open spec fn attachment_view(r: Result<RawAttachment, SkipReason>) -> Result<
    (Seq<u8>, Seq<char>, Seq<char>),
    SkipReason,
> {
    match r {
        Ok(a) => Ok((a.content@, a.mimetype@, a.filename@)),
        Err(e) => Err(e),
    }
}

/// The largest decompressed document that is accepted.
pub const MAX_PAYLOAD: u64 = 67108864;

/// The document and report name that an attachment decompresses to, by its
/// content type. A zip archive gives its first entry, named as in the
/// archive; a gzip stream (also one sent as `application/octet-stream`)
/// gives its content, named as the attachment without its last extension.
/// A document longer than `max_len` bytes is refused.
pub open spec fn decompressed(content: Seq<u8>, mimetype: Seq<char>, filename: Seq<char>, max_len: u64) -> Result<
    (Seq<u8>, Seq<char>),
    SkipReason,
> {
    if mimetype == zip_type() {
        match zip_first_entry(content) {
            Some(e) => if e.0.len() <= max_len {
                Ok(e)
            } else {
                Err(SkipReason::DecompressionFailed)
            },
            None => Err(SkipReason::DecompressionFailed),
        }
    } else if mimetype == gzip_type() || mimetype == octet_stream_type() {
        match gunzip_of(content) {
            Some(b) => if b.len() <= max_len {
                Ok((b, without_extension(filename)))
            } else {
                Err(SkipReason::DecompressionFailed)
            },
            None => Err(SkipReason::DecompressionFailed),
        }
    } else {
        Err(SkipReason::DecompressionFailed)
    }
}

pub open spec fn payload_view(r: Result<DecompressedPayload, SkipReason>) -> Result<
    (Seq<u8>, Seq<char>),
    SkipReason,
> {
    match r {
        Ok(p) => Ok((p.bytes@, p.inferred_name@)),
        Err(e) => Err(e),
    }
}

/// The report document of a message: its attachment, decompressed.
pub open spec fn message_payload(m: MailMessage) -> Result<(Seq<u8>, Seq<char>), SkipReason> {
    match located(m) {
        Ok((c, t, f)) => decompressed(c, t, f, MAX_PAYLOAD),
        Err(e) => Err(e),
    }
}

/// Connection settings for the mailbox that reports are fetched from.
#[derive(Debug, Clone, PartialEq)]
pub struct ImapExtract {
    pub server: String,
    pub port: u16,
    pub user: String,
    pub password: String,
    pub store_folder: String,
}

impl ImapExtract {
    /// The mailbox settings of `config`.
    pub fn new(config: &Config) -> (r: Self)
        ensures
            r.server@ == config.server@,
            r.port == config.port,
            r.user@ == config.user@,
            r.password@ == config.password@,
            r.store_folder@ == config.store_folder@,
    {
        ImapExtract {
            server: config.server.clone(),
            port: config.port,
            user: config.user.clone(),
            password: config.password.clone(),
            store_folder: config.store_folder.clone(),
        }
    }

    /// Decompresses an attachment by its content type; see `decompressed`.
    /// A document longer than `MAX_PAYLOAD` bytes fails with
    /// `DecompressionFailed`, as do any other type and a stream that cannot
    /// be read.
    pub fn decompress_attachment(attachment: RawAttachment) -> (r: Result<DecompressedPayload, SkipReason>)
        ensures
            payload_view(r) == decompressed(
                attachment.content@,
                attachment.mimetype@,
                attachment.filename@,
                MAX_PAYLOAD,
            ),
    {
        Self::decompress_attachment_within(attachment, MAX_PAYLOAD)
    }

    /// Decompresses an attachment by its content type, refusing a document
    /// longer than `max_len` bytes; see `decompressed`.
    pub fn decompress_attachment_within(attachment: RawAttachment, max_len: u64) -> (r: Result<
        DecompressedPayload,
        SkipReason,
    >)
        requires
            max_len < u64::MAX,
        ensures
            payload_view(r) == decompressed(
                attachment.content@,
                attachment.mimetype@,
                attachment.filename@,
                max_len,
            ),
    {
        let t = attachment.mimetype.as_str();
        if same_str(t, zip_type_exec()) {
            match unzip_first(&attachment.content, max_len + 1) {
                Ok((bytes, name)) => if (bytes.len() as u64) <= max_len {
                    Ok(DecompressedPayload { bytes, inferred_name: name })
                } else {
                    Err(SkipReason::DecompressionFailed)
                },
                Err(_) => Err(SkipReason::DecompressionFailed),
            }
        } else if same_str(t, gzip_type_exec()) || same_str(t, octet_stream_type_exec()) {
            match gunzip(&attachment.content, max_len + 1) {
                Ok(bytes) => if (bytes.len() as u64) <= max_len {
                    Ok(
                        DecompressedPayload {
                            bytes,
                            inferred_name: strip_extension(attachment.filename.as_str()),
                        },
                    )
                } else {
                    Err(SkipReason::DecompressionFailed)
                },
                Err(_) => Err(SkipReason::DecompressionFailed),
            }
        } else {
            Err(SkipReason::DecompressionFailed)
        }
    }

    /// Locates the attachment of a message and decompresses it.
    pub fn extract_payload(mail: &MailMessage) -> (r: Result<DecompressedPayload, SkipReason>)
        ensures
            payload_view(r) == message_payload(*mail),
    {
        match Self::get_attachment(mail) {
            Ok(a) => Self::decompress_attachment(a),
            Err(e) => Err(e),
        }
    }

    /// Finds the report attachment of a message: the message itself where
    /// its content type is usable, else the first usable part directly
    /// below it. The search stops at that part: it fails with
    /// `NoAttachment` where there is none or its body is missing or empty,
    /// and with `NoFilename` where it gives no file name.
    pub fn get_attachment(mail: &MailMessage) -> (r: Result<RawAttachment, SkipReason>)
        ensures
            attachment_view(r) == located(*mail),
    {
        let part: &MailPart = if usable(&mail.top.mimetype) {
            &mail.top
        } else {
            let n = mail.subparts.len();
            let mut i: usize = 0;
            assert(mail.subparts@.subrange(0, n as int) =~= mail.subparts@);
            while i < n && !usable(&mail.subparts[i].mimetype)
                invariant
                    n == mail.subparts@.len(),
                    i <= n,
                    first_usable(mail.subparts@) == first_usable(mail.subparts@.subrange(i as int, n as int)),
                decreases n - i,
            {
                assert(mail.subparts@.subrange(i as int, n as int).drop_first() =~= mail.subparts@.subrange(i + 1, n as int));
                i = i + 1;
            }
            if i == n {
                return Err(SkipReason::NoAttachment);
            }
            &mail.subparts[i]
        };
        let body = match &part.body {
            Some(b) => if b.len() > 0 {
                b
            } else {
                return Err(SkipReason::NoAttachment);
            },
            None => {
                return Err(SkipReason::NoAttachment);
            },
        };
        let filename = match &part.filename {
            Some(f) => if f.as_str().unicode_len() > 0 {
                f
            } else {
                return Err(SkipReason::NoFilename);
            },
            None => {
                return Err(SkipReason::NoFilename);
            },
        };
        Ok(RawAttachment { content: copy_bytes(body), mimetype: part.mimetype.clone(), filename: filename.clone() })
    }
}

} // verus!
