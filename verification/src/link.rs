//! The dialogs that offer a report to the user, as far as they are made of
//! plain values: what a dialog is opened with, and the link under which
//! the report is sent to support.

use vstd::prelude::*;
use vstd::string::*;
use vstd::utf8::encode_utf8;

verus! {

/// Address that reports are sent to.
pub const SUPPORT_EMAIL: &'static str = "support@x-software.com";

/// What the dialog that creates a report of everything is opened with.
#[derive(Clone, Copy, Debug)]
pub struct CreateReportDialogInit {
    /// Name of the application as the user knows it.
    pub app_name: &'static str,
    /// Name of the binary, from which the name of the archive is made.
    pub binary_name: &'static str,
}

/// What the dialog that reports the failed runs is opened with.
#[derive(Clone, Copy, Debug)]
pub struct ProblemReportDialogInit {
    /// Name of the application as the user knows it.
    pub app_name: &'static str,
    /// Name of the binary, from which the name of the archive is made.
    pub binary_name: &'static str,
}

/// A byte that stands for itself in a link: a letter, a digit, or one of
/// `-`, `.`, `_` and `~`.
pub open spec fn is_unreserved(b: u8) -> bool {
    ||| 0x30 <= b <= 0x39
    ||| 0x41 <= b <= 0x5a
    ||| 0x61 <= b <= 0x7a
    ||| b == 0x2d
    ||| b == 0x2e
    ||| b == 0x5f
    ||| b == 0x7e
}

/// The hexadecimal digit, in upper case, of a number below sixteen.
pub open spec fn hex_digit(d: int) -> u8 {
    if d < 10 {
        (0x30 + d) as u8
    } else {
        (0x41 + d - 10) as u8
    }
}

/// A byte as it stands in a link: itself, or a percent sign and its two
/// hexadecimal digits.
pub open spec fn encoded_byte(b: u8) -> Seq<u8> {
    if is_unreserved(b) {
        seq![b]
    } else {
        seq![0x25u8, hex_digit(b as int / 16), hex_digit(b as int % 16)]
    }
}

/// Bytes as they stand in a link, byte after byte.
pub open spec fn percent_encoded(data: Seq<u8>) -> Seq<u8>
    decreases data.len(),
{
    if data.len() == 0 {
        Seq::empty()
    } else {
        percent_encoded(data.drop_last()) + encoded_byte(data.last())
    }
}

/// A text as it stands in a link: the bytes of its UTF-8 form, each as it
/// stands in a link. All of them are ASCII.
pub open spec fn percent_encoded_text(text: Seq<char>) -> Seq<char> {
    percent_encoded(encode_utf8(text)).map_values(|b: u8| b as char)
}

/// The subject of the mail that carries a report.
pub open spec fn report_subject(app_name: Seq<char>) -> Seq<char> {
    "Problem report file for "@ + app_name
}

/// The body of the mail that carries a report.
pub open spec fn report_body(app_name: Seq<char>) -> Seq<char> {
    "Hello X-Software Support,\n\n\nI would like get assistance for "@ + app_name
        + ".\n\nThanks!"@
}

/// The link, as markup, that opens a mail to support.
pub open spec fn report_email_link(app_name: Seq<char>) -> Seq<char> {
    "<a href=\"mailto:"@ + SUPPORT_EMAIL@ + "?subject="@ + percent_encoded_text(
        report_subject(app_name),
    ) + "&amp;body="@ + percent_encoded_text(report_body(app_name)) + "\">"@ + SUPPORT_EMAIL@
        + "</a>"@
}

/// A text percent-encoded by `urlencoding::encode`. Trusted: every byte of
/// the text's UTF-8 form other than an ASCII letter, a digit, `-`, `.`, `_`
/// and `~` is replaced by a percent sign and its two hexadecimal digits in
/// upper case; the others stay.
#[verifier::external_body]
fn percent_encode(text: &str) -> (r: String)
    ensures
        r@ == percent_encoded_text(text@),
{
    urlencoding::encode(text).into_owned()
}

/// The link, as markup, under which the user sends a report of
/// `app_name` to support: a mail with subject and body filled in.
pub fn create_report_email_link(app_name: &str) -> (r: String)
    ensures
        r@ == report_email_link(app_name@),
{
    let mut subject = String::from_str("Problem report file for ");
    subject.append(app_name);
    let mut body = String::from_str("Hello X-Software Support,\n\n\nI would like get assistance for ");
    body.append(app_name);
    body.append(".\n\nThanks!");
    let subject = percent_encode(subject.as_str());
    let body = percent_encode(body.as_str());
    let mut link = String::from_str("<a href=\"mailto:");
    link.append(SUPPORT_EMAIL);
    link.append("?subject=");
    link.append(subject.as_str());
    link.append("&amp;body=");
    link.append(body.as_str());
    link.append("\">");
    link.append(SUPPORT_EMAIL);
    link.append("</a>");
    link
}

} // verus!
