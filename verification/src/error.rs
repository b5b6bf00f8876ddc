//! Error values reported before a cracking run starts.

use vstd::prelude::*;

verus! {

/// Why a MAC-like field or a target hash could not be decoded.
#[derive(Clone, Copy, Debug, PartialEq, Eq, Structural)]
pub enum FormatError {
    /// The hex text does not have the expected number of digits.
    BadLength,
    /// The hex text has the expected length but holds a non-hex character.
    BadHex,
}

impl FormatError {
    /// A short human-readable description of the error.
    pub fn message(&self) -> (text: &'static str)
        ensures
            *self == FormatError::BadLength ==> text@ == "unexpected number of hex digits"@,
            *self == FormatError::BadHex ==> text@ == "non-hex character in input"@,
    {
        match self {
            FormatError::BadLength => "unexpected number of hex digits",
            FormatError::BadHex => "non-hex character in input",
        }
    }
}

/// One of the four fields of a network parameter file.
#[derive(Clone, Copy, Debug, PartialEq, Eq, Structural)]
pub enum Field {
    /// The network name, under the key `essid`.
    Essid,
    /// The access point's address, under the key `bssid`.
    Bssid,
    /// The station's address, under the key `sta_mac`.
    StaMac,
    /// The captured PMKID string, under the key `pmkid`.
    Pmkid,
}

/// Why a wordlist or a network parameter file gave no input for a run.
#[derive(Clone, Copy, Debug, PartialEq, Eq, Structural)]
pub enum SourceError {
    /// The file could not be read.
    Unreadable,
    /// The text is no JSON document.
    Malformed,
    /// The document has no member under the key of this field.
    MissingKey(Field),
    /// The member under the key of this field is no JSON string.
    NotAString(Field),
}

impl Field {
    /// The key of the field in a network parameter file.
    pub fn key(&self) -> (key: &'static str)
        ensures
            key@ == self.key_text(),
    {
        match self {
            Field::Essid => "essid",
            Field::Bssid => "bssid",
            Field::StaMac => "sta_mac",
            Field::Pmkid => "pmkid",
        }
    }

    /// The key of the field in a network parameter file.
    pub open spec fn key_text(&self) -> Seq<char> {
        match self {
            Field::Essid => "essid"@,
            Field::Bssid => "bssid"@,
            Field::StaMac => "sta_mac"@,
            Field::Pmkid => "pmkid"@,
        }
    }
}

} // verus!
