use std::collections::BTreeMap;
use std::string::FromUtf8Error;

use ron::error::SpannedError;
use ron::ser::PrettyConfig;
use vstd::prelude::*;

use crate::registry::keys_of;

verus! {

/// A RON value as `ron` parses it; this library carries it without looking inside.
#[verifier::external_type_specification]
#[verifier::external_body]
pub struct ExRonValue(ron::Value);

/// The error `ron` reports when it cannot write a value.
#[verifier::external_type_specification]
#[verifier::external_body]
pub struct ExRonError(ron::Error);

/// The error `ron` reports when it cannot parse a text, with the place it stopped.
#[verifier::external_type_specification]
#[verifier::external_body]
pub struct ExRonSpannedError(SpannedError);

/// The error `String::from_utf8` reports for bytes that are not UTF-8.
#[verifier::external_type_specification]
#[verifier::external_body]
pub struct ExFromUtf8Error(FromUtf8Error);

/// The value `ron::from_str::<ron::Value>` reads from the text, or `None` where
/// it reports an error.
pub uninterp spec fn ron_value_of(text: Seq<char>) -> Option<ron::Value>;

/// Whether `ron::from_str::<ron::Value>` accepts the text.
pub open spec fn ron_value_parses(text: Seq<char>) -> bool {
    ron_value_of(text) is Some
}

/// The text `ron::ser::to_string_pretty` writes, with the default pretty
/// configuration except that lines end in `new_line`, for the map from each key to
/// its value, or `None` where it reports an error.
pub uninterp spec fn ron_bag_text(entries: Seq<(Seq<char>, ron::Value)>, new_line: Seq<char>) -> Option<Seq<char>>;

/// A bag's entries with each key taken as text.
pub open spec fn bag_view(entries: Seq<(String, ron::Value)>) -> Seq<(Seq<char>, ron::Value)> {
    entries.map_values(|e: (String, ron::Value)| (e.0@, e.1))
}

/// The entries, in ascending key order, of the map that `ron::from_str` reads from
/// the text as a `BTreeMap<String, ron::Value>`, or `None` where it reports an error.
pub uninterp spec fn ron_bag_entries(text: Seq<char>) -> Option<Seq<(Seq<char>, ron::Value)>>;

/// Calls `ron::from_str::<ron::Value>(text)`. Claimed: its outcome depends on the
/// text alone; `ron_value_of` names it.
#[verifier::external_body]
pub fn parse_ron_value(text: &str) -> (r: Result<ron::Value, SpannedError>)
    ensures
        r is Ok <==> ron_value_of(text@) is Some,
        r matches Ok(v) ==> ron_value_of(text@) == Some(v),
{
    ron::from_str::<ron::Value>(text)
}

/// Calls `ron::from_str::<BTreeMap<String, ron::Value>>(text)` and hands back the
/// map's entries in its (ascending) key order. Claimed: its outcome depends on the
/// text alone (`ron_bag_entries` names it), and, as in any map, no key occurs twice.
#[verifier::external_body]
pub fn parse_ron_bag(text: &str) -> (r: Result<Vec<(String, ron::Value)>, SpannedError>)
    ensures
        r is Ok <==> ron_bag_entries(text@) is Some,
        r matches Ok(entries) ==> bag_view(entries@) == ron_bag_entries(text@)->0,
        r matches Ok(entries) ==> keys_of(entries@).no_duplicates(),
{
    ron::from_str::<BTreeMap<String, ron::Value>>(text).map(|map| map.into_iter().collect())
}

/// Calls `ron::ser::to_string_pretty` with `PrettyConfig::default().new_line(new_line)`
/// on the entries as a `BTreeMap` from key to value, so a RON map `{ "key": value, .. }`
/// in key order. The line ending is passed in because the default one differs
/// between platforms. Claimed: its outcome depends on the keys, the values and the
/// line ending alone; `ron_bag_text` names it.
#[verifier::external_body]
pub fn ron_bag_to_string(entries: &Vec<(String, ron::Value)>, new_line: &str) -> (r: Result<String, ron::Error>)
    ensures
        r is Ok <==> ron_bag_text(bag_view(entries@), new_line@) is Some,
        r matches Ok(t) ==> ron_bag_text(bag_view(entries@), new_line@) == Some(t@),
{
    let map: BTreeMap<&str, &ron::Value> = entries.iter().map(|(k, v)| (k.as_str(), v)).collect();
    ron::ser::to_string_pretty(&map, PrettyConfig::default().new_line(new_line.to_string()))
}

/// Calls `String::from_utf8`. Claimed, as its documentation says: it succeeds
/// exactly on valid UTF-8, and then the string holds the characters the bytes encode.
#[verifier::external_body]
pub fn string_from_utf8(bytes: Vec<u8>) -> (r: Result<String, FromUtf8Error>)
    ensures
        r is Ok <==> vstd::utf8::valid_utf8(bytes@),
        r matches Ok(s) ==> s@ == vstd::utf8::decode_utf8(bytes@),
{
    String::from_utf8(bytes)
}

/// The `Display` text of a `ron` parse error (`SpannedError`); not described.
#[verifier::external_body]
pub fn spanned_error_text(e: &SpannedError) -> (t: String) {
    e.to_string()
}

/// The `Display` text of a `ron` write error; not described.
#[verifier::external_body]
pub fn ron_error_text(e: &ron::Error) -> (t: String) {
    e.to_string()
}

/// The `Display` text of a `FromUtf8Error`; not described.
#[verifier::external_body]
pub fn utf8_error_text(e: &FromUtf8Error) -> (t: String) {
    e.to_string()
}

} // verus!
