//! The texts that present the result of a run.

use vstd::prelude::*;
use vstd::string::StringExecFns;
use crate::events::MatchEvent;
use crate::base16::hex_text;

verus! {

/// The view of an optional text.
pub open spec fn text_view(text: Option<String>) -> Option<Seq<char>> {
    match text {
        Some(t) => Some(t@),
        None => None,
    }
}

/// The character that writes the decimal digit `d` (0 to 9).
pub open spec fn digit_char(d: nat) -> char {
    (0x30 + d) as u8 as char
}

/// A number in decimal, without leading zeros.
pub open spec fn decimal_text(n: nat) -> Seq<char>
    decreases n,
{
    if n < 10 {
        seq![digit_char(n)]
    } else {
        decimal_text(n / 10).push(digit_char(n % 10))
    }
}

/// The text that presents a match: the hash in lowercase hex, the
/// passphrase as it is, and the time taken in milliseconds.
pub open spec fn match_text(matched_hash: Seq<u8>, passphrase: Seq<char>, elapsed_ms: nat) -> Seq<
    char,
> {
    "PMKID Hash: "@ + hex_text(matched_hash) + "\nPassphrase: "@ + passphrase + "\nTime Taken: "@
        + decimal_text(elapsed_ms) + " ms"@
}

/// The text that presents a scan that found nothing.
pub open spec fn no_match_text() -> Seq<char> {
    "No match found"@
}

/// The one-character text of a decimal digit.
fn digit_str(d: u8) -> (text: &'static str)
    requires
        d < 10,
    ensures
        text@ == seq![digit_char(d as nat)],
{
    proof {
        reveal_strlit("0");
        reveal_strlit("1");
        reveal_strlit("2");
        reveal_strlit("3");
        reveal_strlit("4");
        reveal_strlit("5");
        reveal_strlit("6");
        reveal_strlit("7");
        reveal_strlit("8");
        reveal_strlit("9");
    }
    let text = match d {
        0 => "0",
        1 => "1",
        2 => "2",
        3 => "3",
        4 => "4",
        5 => "5",
        6 => "6",
        7 => "7",
        8 => "8",
        _ => "9",
    };
    assert(text@ =~= seq![digit_char(d as nat)]);
    text
}

/// Writes a number in decimal.
pub fn decimal(n: u128) -> (text: String)
    ensures
        text@ == decimal_text(n as nat),
    decreases n,
{
    if n < 10 {
        String::from_str(digit_str(n as u8))
    } else {
        let mut text = decimal(n / 10);
        text.append(digit_str((n % 10) as u8));
        text
    }
}

/// Presents a match as text of three lines.
pub fn match_report(event: &MatchEvent) -> (text: String)
    ensures
        text@ == match_text(event.matched_hash@, event.passphrase@, event.elapsed_ms as nat),
{
    let hash = crate::base16::encode(event.matched_hash.as_slice());
    let elapsed = decimal(event.elapsed_ms);
    let mut text = String::from_str("PMKID Hash: ");
    text.append(hash.as_str());
    text.append("\nPassphrase: ");
    text.append(event.passphrase.as_str());
    text.append("\nTime Taken: ");
    text.append(elapsed.as_str());
    text.append(" ms");
    text
}

/// Presents a scan that found nothing.
pub fn no_match_report() -> (text: String)
    ensures
        text@ == no_match_text(),
{
    String::from_str("No match found")
}

} // verus!
