//! Mail messages as the attachment locator reads them, and their parsing.
use vstd::prelude::*;
use mailparse::{MailHeaderMap, MailParseError, ParsedMail};
use crate::extract::SkipReason;

verus! {

#[verifier::external_type_specification]
#[verifier::external_body]
pub struct ExParsedMail<'a>(ParsedMail<'a>);

#[verifier::external_type_specification]
#[verifier::external_body]
pub struct ExMailParseError(MailParseError);

/// One MIME part: its content type, the file name of its content
/// disposition, and its body with the transfer encoding undone.
#[derive(Debug, Clone, PartialEq)]
pub struct MailPart {
    pub mimetype: String,
    pub filename: Option<String>,
    /// `None` where the transfer encoding could not be undone.
    pub body: Option<Vec<u8>>,
}

/// A mail message: its id, its top-level part and the parts directly below it.
#[derive(Debug, Clone, PartialEq)]
pub struct MailMessage {
    pub message_id: Option<String>,
    pub top: MailPart,
    pub subparts: Vec<MailPart>,
}

/// Relies on mailparse's `parse_mail`: splits a raw message into headers and a tree of parts.
pub assume_specification<'a>[ mailparse::parse_mail ](raw_data: &'a [u8]) -> Result<
    ParsedMail<'a>,
    MailParseError,
>;

/// Relies on mailparse's `ParsedMail::get_body_raw`: the body with its transfer encoding undone.
pub assume_specification<'a>[ ParsedMail::<'a>::get_body_raw ](m: &ParsedMail<'a>) -> Result<
    Vec<u8>,
    MailParseError,
>;

/// Relies on mailparse's parsed `Content-Type`: the lowercased MIME type of the part.
#[verifier::external_body]
fn part_mimetype(m: &ParsedMail) -> String {
    m.ctype.mimetype.clone()
}

/// Relies on mailparse's `get_content_disposition`: the `filename` parameter, if any.
#[verifier::external_body]
fn part_filename(m: &ParsedMail) -> Option<String> {
    m.get_content_disposition().params.get("filename").cloned()
}

/// Relies on mailparse's `MailHeaderMap::get_first_value`: the first `Message-ID` header.
#[verifier::external_body]
fn part_message_id(m: &ParsedMail) -> Option<String> {
    m.headers.get_first_value("Message-ID")
}

/// Relies on mailparse's `ParsedMail::subparts`: the parts directly below this one.
#[verifier::external_body]
fn part_children<'b, 'a>(m: &'b ParsedMail<'a>) -> &'b Vec<ParsedMail<'a>> {
    &m.subparts
}

fn read_part(m: &ParsedMail) -> MailPart {
    let body = match m.get_body_raw() {
        Ok(b) => Some(b),
        Err(_) => None,
    };
    MailPart { mimetype: part_mimetype(m), filename: part_filename(m), body }
}

/// Parses a raw message into the parts that the locator reads; a message
/// that cannot be parsed fails with `MalformedMessage`.
pub fn parse_message(raw: &[u8]) -> (r: Result<MailMessage, SkipReason>)
    ensures
        r matches Err(e) ==> e == SkipReason::MalformedMessage,
{
    let parsed = match mailparse::parse_mail(raw) {
        Ok(p) => p,
        Err(_) => {
            return Err(SkipReason::MalformedMessage);
        },
    };
    let children = part_children(&parsed);
    let mut subparts: Vec<MailPart> = Vec::new();
    let mut i: usize = 0;
    while i < children.len()
        invariant
            i <= children@.len(),
        decreases children@.len() - i,
    {
        subparts.push(read_part(&children[i]));
        i = i + 1;
    }
    Ok(MailMessage { message_id: part_message_id(&parsed), top: read_part(&parsed), subparts })
}

} // verus!
