//! The network parameter file: a JSON object with the string members
//! `essid`, `bssid`, `sta_mac` and `pmkid`.
//!
//! The text is parsed by `serde_json`. What the document holds appears in
//! contracts as a map from keys to members.

use vstd::prelude::*;
use crate::error::{Field, FormatError, SourceError};
use crate::network::NetworkParams;
use crate::report::text_view;

verus! {

/// A parsed JSON value of `serde_json`, read only through `member` and
/// `text_of`.
#[verifier::external_type_specification]
#[verifier::external_body]
pub struct ExValue(serde_json::Value);

/// The error type of `serde_json::from_str`, carried through as it is.
#[verifier::external_type_specification]
#[verifier::external_body]
pub struct ExJsonError(serde_json::Error);

/// The text of a JSON value that is a string, `None` for any other value.
pub uninterp spec fn string_of(value: serde_json::Value) -> Option<Seq<char>>;

/// The members of a JSON value by key. A member that is a JSON string
/// stands for its text, any other member for `None`. A value that is no
/// object has no members.
pub uninterp spec fn members(doc: serde_json::Value) -> Map<Seq<char>, Option<Seq<char>>>;

/// The members of the JSON document that a text is, or `None` where the
/// text is no JSON document.
pub uninterp spec fn document_members(text: Seq<char>) -> Option<Map<Seq<char>, Option<Seq<char>>>>;

/// `serde_json::from_str` for a `Value`: the document that the text is.
#[verifier::external_body]
pub(crate) fn parse_document(text: &str) -> (r: Result<serde_json::Value, serde_json::Error>)
    ensures
        r is Ok <==> document_members(text@) is Some,
        r matches Ok(doc) ==> Some(members(doc)) == document_members(text@),
{
    serde_json::from_str(text)
}

/// `Value::get` with a string key: the member of an object under that
/// key, `None` where the value is no object or has no such member.
#[verifier::external_body]
pub(crate) fn member<'a>(doc: &'a serde_json::Value, key: &str) -> (r: Option<&'a serde_json::Value>)
    ensures
        r is Some <==> members(*doc).contains_key(key@),
        r matches Some(m) ==> string_of(*m) == members(*doc)[key@],
{
    doc.get(key)
}

/// `Value::as_str`: the text of a value that is a JSON string.
#[verifier::external_body]
pub(crate) fn text_of(value: &serde_json::Value) -> (r: Option<String>)
    ensures
        text_view(r) == string_of(*value),
{
    value.as_str().map(str::to_owned)
}

/// The four raw texts of a network parameter file, not yet validated.
#[derive(Clone, Debug)]
pub struct NetworkFile {
    /// The network name.
    pub essid: String,
    /// The access point's address as written.
    pub bssid: String,
    /// The station's address as written.
    pub sta_mac: String,
    /// The captured PMKID string.
    pub pmkid: String,
}

/// The four raw texts of a network parameter file as plain values.
pub struct NetworkFileView {
    /// The network name.
    pub essid: Seq<char>,
    /// The access point's address as written.
    pub bssid: Seq<char>,
    /// The station's address as written.
    pub sta_mac: Seq<char>,
    /// The captured PMKID string.
    pub pmkid: Seq<char>,
}

impl View for NetworkFile {
    type V = NetworkFileView;

    open spec fn view(&self) -> NetworkFileView {
        NetworkFileView {
            essid: self.essid@,
            bssid: self.bssid@,
            sta_mac: self.sta_mac@,
            pmkid: self.pmkid@,
        }
    }
}

/// The text of a required field among the members of a document.
pub open spec fn required(
    all: Map<Seq<char>, Option<Seq<char>>>,
    field: Field,
) -> Result<Seq<char>, SourceError> {
    if !all.contains_key(field.key_text()) {
        Err(SourceError::MissingKey(field))
    } else {
        match all[field.key_text()] {
            Some(text) => Ok(text),
            None => Err(SourceError::NotAString(field)),
        }
    }
}

/// The four fields among the members of a document. They are looked up
/// in the order ESSID, BSSID, station address, PMKID, and the first one
/// that is missing or no string gives the error.
pub open spec fn fields_of(all: Map<Seq<char>, Option<Seq<char>>>) -> Result<
    NetworkFileView,
    SourceError,
> {
    if required(all, Field::Essid) is Err {
        Err(required(all, Field::Essid)->Err_0)
    } else if required(all, Field::Bssid) is Err {
        Err(required(all, Field::Bssid)->Err_0)
    } else if required(all, Field::StaMac) is Err {
        Err(required(all, Field::StaMac)->Err_0)
    } else if required(all, Field::Pmkid) is Err {
        Err(required(all, Field::Pmkid)->Err_0)
    } else {
        Ok(
            NetworkFileView {
                essid: required(all, Field::Essid)->Ok_0,
                bssid: required(all, Field::Bssid)->Ok_0,
                sta_mac: required(all, Field::StaMac)->Ok_0,
                pmkid: required(all, Field::Pmkid)->Ok_0,
            },
        )
    }
}

/// What the text of a network parameter file holds.
pub open spec fn network_file_of(text: Seq<char>) -> Result<NetworkFileView, SourceError> {
    match document_members(text) {
        None => Err(SourceError::Malformed),
        Some(all) => fields_of(all),
    }
}

/// Looks up one required field of a document.
pub fn required_field(doc: &serde_json::Value, field: Field) -> (r: Result<String, SourceError>)
    ensures
        match required(members(*doc), field) {
            Ok(text) => r is Ok && r->Ok_0@ == text,
            Err(e) => r == Err::<String, SourceError>(e),
        },
{
    match member(doc, field.key()) {
        None => Err(SourceError::MissingKey(field)),
        Some(value) => match text_of(value) {
            None => Err(SourceError::NotAString(field)),
            Some(text) => Ok(text),
        },
    }
}

/// Looks up the four fields of a parsed network parameter file.
pub fn read_fields(doc: &serde_json::Value) -> (r: Result<NetworkFile, SourceError>)
    ensures
        match fields_of(members(*doc)) {
            Ok(v) => r is Ok && r->Ok_0@ == v,
            Err(e) => r == Err::<NetworkFile, SourceError>(e),
        },
{
    let essid = match required_field(doc, Field::Essid) {
        Ok(text) => text,
        Err(e) => { return Err(e); },
    };
    let bssid = match required_field(doc, Field::Bssid) {
        Ok(text) => text,
        Err(e) => { return Err(e); },
    };
    let sta_mac = match required_field(doc, Field::StaMac) {
        Ok(text) => text,
        Err(e) => { return Err(e); },
    };
    let pmkid = match required_field(doc, Field::Pmkid) {
        Ok(text) => text,
        Err(e) => { return Err(e); },
    };
    Ok(NetworkFile { essid, bssid, sta_mac, pmkid })
}

/// Parses the text of a network parameter file and looks up its four
/// fields. Text that is no JSON document gives `Malformed`.
pub fn parse_network_file(text: &str) -> (r: Result<NetworkFile, SourceError>)
    ensures
        match network_file_of(text@) {
            Ok(v) => r is Ok && r->Ok_0@ == v,
            Err(e) => r == Err::<NetworkFile, SourceError>(e),
        },
{
    match parse_document(text) {
        Err(_) => Err(SourceError::Malformed),
        Ok(doc) => read_fields(&doc),
    }
}

impl NetworkFile {
    /// Validates the four raw texts and turns them into the parameters of
    /// a run.
    pub fn validate(&self) -> (r: Result<NetworkParams, FormatError>)
        ensures
            match crate::network::params_of(
                vstd::utf8::encode_utf8(self@.essid),
                vstd::utf8::encode_utf8(self@.bssid),
                vstd::utf8::encode_utf8(self@.sta_mac),
                vstd::utf8::encode_utf8(self@.pmkid),
            ) {
                Ok(v) => r is Ok && r->Ok_0@ == v,
                Err(e) => r == Err::<NetworkParams, FormatError>(e),
            },
    {
        NetworkParams::parse(
            self.essid.as_str(),
            self.bssid.as_str(),
            self.sta_mac.as_str(),
            self.pmkid.as_str(),
        )
    }
}

} // verus!
