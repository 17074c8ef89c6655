//! The four severities and the look that each gives to a title and to a
//! message. The terminal styling itself is done by the `colored` crate,
//! which decides from the process's environment whether to emit escape
//! codes at all.

use colored::Colorize;
use vstd::prelude::*;

use crate::template::replaced;
use crate::text_utills::{p, pad, spaced};

verus! {

/// The kind of message, which decides its look.
#[derive(Debug, Clone, Copy, PartialEq, Eq, Structural)]
pub enum Severity {
    Statement,
    Warn,
    Success,
    Fail,
}

/// The escape sequence that switches on the attributes named by `codes`.
pub open spec fn opener(codes: Seq<char>) -> Seq<char> {
    seq!['\x1b', '['] + codes + seq!['m']
}

/// The escape sequence that switches every attribute off.
pub open spec fn reset_code() -> Seq<char> {
    seq!['\x1b', '[', '0', 'm']
}

/// `text` as it is shown in colour with the attributes `codes`: the opening
/// sequence, the text, the reset sequence. Behind every reset sequence that
/// the text itself holds, the opening sequence is written again.
pub open spec fn painted(text: Seq<char>, codes: Seq<char>) -> Seq<char> {
    opener(codes) + replaced(text, reset_code(), reset_code() + opener(codes)) + reset_code()
}

/// Whether `out` is `text` shown with the attributes `codes`: `text` itself
/// where colouring is switched off, the painted text where it is on.
pub open spec fn styled(text: Seq<char>, codes: Seq<char>, out: Seq<char>) -> bool {
    out == text || out == painted(text, codes)
}

/// The attribute codes of a title: bold on a background of the severity's
/// colour, for a warning and a failure with white letters.
pub open spec fn title_codes(severity: Severity) -> Seq<char> {
    match severity {
        Severity::Statement => seq!['1', ';', '4', '4'],
        Severity::Warn => seq!['1', ';', '1', '0', '3', ';', '3', '7'],
        Severity::Success => seq!['1', ';', '4', '2'],
        Severity::Fail => seq!['1', ';', '4', '1', ';', '3', '7'],
    }
}

/// The attribute codes of a message: white italics for a statement, bold
/// yellow for a warning, underlined bright green for a success, bold
/// underlined yellow for a failure.
pub open spec fn message_codes(severity: Severity) -> Seq<char> {
    match severity {
        Severity::Statement => seq!['3', ';', '3', '7'],
        Severity::Warn => seq!['1', ';', '3', '3'],
        Severity::Success => seq!['4', ';', '9', '2'],
        Severity::Fail => seq!['1', ';', '4', ';', '3', '3'],
    }
}

/// Trusted, not proved: calls `colored`'s `on_blue` and `bold` on
/// the text and writes the `ColoredString` out through its `Display`. By
/// the crate's source the result is `text` itself where colouring is off,
/// and else `ESC[1;44m`, the text, `ESC[0m`, with `ESC[1;44m` written again
/// behind every `ESC[0m` inside the text.
#[verifier::external_body]
fn statement_title(text: &str) -> (r: String)
    ensures
        styled(text@, title_codes(Severity::Statement), r@),
{
    text.on_blue().bold().to_string()
}

/// Trusted, not proved: calls `colored`'s `white` and `italic` on
/// the text and writes the `ColoredString` out through its `Display`. By
/// the crate's source the result is `text` itself where colouring is off,
/// and else `ESC[3;37m`, the text, `ESC[0m`, with `ESC[3;37m` written again
/// behind every `ESC[0m` inside the text.
#[verifier::external_body]
fn statement_message(text: &str) -> (r: String)
    ensures
        styled(text@, message_codes(Severity::Statement), r@),
{
    text.white().italic().to_string()
}

/// Trusted, not proved: calls `colored`'s `white`, `on_bright_yellow` and `bold` on
/// the text and writes the `ColoredString` out through its `Display`. By
/// the crate's source the result is `text` itself where colouring is off,
/// and else `ESC[1;103;37m`, the text, `ESC[0m`, with `ESC[1;103;37m` written again
/// behind every `ESC[0m` inside the text.
#[verifier::external_body]
fn warn_title(text: &str) -> (r: String)
    ensures
        styled(text@, title_codes(Severity::Warn), r@),
{
    text.white().on_bright_yellow().bold().to_string()
}

/// Trusted, not proved: calls `colored`'s `yellow` and `bold` on
/// the text and writes the `ColoredString` out through its `Display`. By
/// the crate's source the result is `text` itself where colouring is off,
/// and else `ESC[1;33m`, the text, `ESC[0m`, with `ESC[1;33m` written again
/// behind every `ESC[0m` inside the text.
#[verifier::external_body]
fn warn_message(text: &str) -> (r: String)
    ensures
        styled(text@, message_codes(Severity::Warn), r@),
{
    text.yellow().bold().to_string()
}

/// Trusted, not proved: calls `colored`'s `on_green` and `bold` on
/// the text and writes the `ColoredString` out through its `Display`. By
/// the crate's source the result is `text` itself where colouring is off,
/// and else `ESC[1;42m`, the text, `ESC[0m`, with `ESC[1;42m` written again
/// behind every `ESC[0m` inside the text.
#[verifier::external_body]
fn success_title(text: &str) -> (r: String)
    ensures
        styled(text@, title_codes(Severity::Success), r@),
{
    text.on_green().bold().to_string()
}

/// Trusted, not proved: calls `colored`'s `underline` and `bright_green` on
/// the text and writes the `ColoredString` out through its `Display`. By
/// the crate's source the result is `text` itself where colouring is off,
/// and else `ESC[4;92m`, the text, `ESC[0m`, with `ESC[4;92m` written again
/// behind every `ESC[0m` inside the text.
#[verifier::external_body]
fn success_message(text: &str) -> (r: String)
    ensures
        styled(text@, message_codes(Severity::Success), r@),
{
    text.underline().bright_green().to_string()
}

/// Trusted, not proved: calls `colored`'s `on_red`, `white` and `bold` on
/// the text and writes the `ColoredString` out through its `Display`. By
/// the crate's source the result is `text` itself where colouring is off,
/// and else `ESC[1;41;37m`, the text, `ESC[0m`, with `ESC[1;41;37m` written again
/// behind every `ESC[0m` inside the text.
#[verifier::external_body]
fn fail_title(text: &str) -> (r: String)
    ensures
        styled(text@, title_codes(Severity::Fail), r@),
{
    text.on_red().white().bold().to_string()
}

/// Trusted, not proved: calls `colored`'s `yellow`, `bold` and `underline` on
/// the text and writes the `ColoredString` out through its `Display`. By
/// the crate's source the result is `text` itself where colouring is off,
/// and else `ESC[1;4;33m`, the text, `ESC[0m`, with `ESC[1;4;33m` written again
/// behind every `ESC[0m` inside the text.
#[verifier::external_body]
fn fail_message(text: &str) -> (r: String)
    ensures
        styled(text@, message_codes(Severity::Fail), r@),
{
    text.yellow().bold().underline().to_string()
}

/// Whether `pair` is a title and a message dressed for `severity`: each
/// padded with one space on either side, then shown with the severity's
/// attributes.
pub open spec fn dressed(
    severity: Severity,
    title: Seq<char>,
    message: Seq<char>,
    pair: (Seq<char>, Seq<char>),
) -> bool {
    &&& styled(spaced(title), title_codes(severity), pair.0)
    &&& styled(spaced(message), message_codes(severity), pair.1)
}

/// Dresses a title and a message for `severity`.
pub fn dress(severity: Severity, title: &str, message: &str) -> (r: (String, String))
    ensures
        dressed(severity, title@, message@, (r.0@, r.1@)),
{
    match severity {
        Severity::Statement => {
            let t = p(title);
            let m = p(message);
            (statement_title(t.as_str()), statement_message(m.as_str()))
        },
        Severity::Warn => {
            let t = p(title);
            let m = p(message);
            (warn_title(t.as_str()), warn_message(m.as_str()))
        },
        Severity::Success => {
            let t = pad(title, " ", 1);
            let m = pad(message, " ", 1);
            proof {
                reveal_strlit(" ");
                assert(" "@ =~= seq![' ']);
            }
            (success_title(t.as_str()), success_message(m.as_str()))
        },
        Severity::Fail => {
            let t = p(title);
            let m = p(message);
            (fail_title(t.as_str()), fail_message(m.as_str()))
        },
    }
}

} // verus!
