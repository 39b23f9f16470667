//! Decoding of the metadata block: the block is read as a flat YAML map by
//! an outside decoder, and the fields of the metadata are taken from the map.

use crate::text::{chars_of, parse_unsigned, push_text, same_chars, string_of, unsigned_of};
use crate::types::{Metadata, MetadataView};
use vstd::prelude::*;

verus! {

/// One entry of a flat map: a key, and the text of its scalar value (`None`
/// for a null).
pub type Field = (String, Option<String>);

/// The characters of an entry.
pub type FieldView = (Seq<char>, Option<Seq<char>>);

/// What a text decodes to as a flat YAML map from text keys to scalars, each
/// scalar read as text: the entries, or the message of the decoder's error.
pub uninterp spec fn yaml_flat_map(text: Seq<char>) -> Result<Seq<FieldView>, Seq<char>>;

/// The characters of the key and of the value of an entry.
pub open spec fn field_view(f: Field) -> FieldView {
    (
        f.0@,
        match f.1 {
            Some(s) => Some(s@),
            None => None,
        },
    )
}

/// The characters of each entry.
pub open spec fn fields_view(fields: Seq<Field>) -> Seq<FieldView> {
    Seq::new(fields.len(), |i: int| field_view(fields[i]))
}

/// The characters of what a block decoded to: of its entries, or of the
/// message of the failure.
pub open spec fn decoded_view(d: Result<Vec<Field>, String>) -> Result<Seq<FieldView>, Seq<char>> {
    match d {
        Ok(fields) => Ok(fields_view(fields@)),
        Err(message) => Err(message@),
    }
}

/// `serde_yaml::from_str` at the type of a map from strings to optional
/// strings: the entries of the map that the text denotes, or the message of
/// the error that the decoder reports. The result is a function of the text.
#[verifier::external_body]
pub(crate) fn decode_flat_map(text: &str) -> (r: Result<Vec<Field>, String>)
    ensures
        decoded_view(r) == yaml_flat_map(text@),
{
    match serde_yaml::from_str::<std::collections::BTreeMap<String, Option<String>>>(text) {
        Ok(map) => Ok(map.into_iter().collect()),
        Err(e) => Err(e.to_string()),
    }
}

/// The value of the first entry at or after `i` whose key is `key`.
pub open spec fn lookup_from(fields: Seq<FieldView>, key: Seq<char>, i: int) -> Option<
    Option<Seq<char>>,
>
    decreases fields.len() - i,
{
    if i < 0 || i >= fields.len() {
        None
    } else if fields[i].0 == key {
        Some(fields[i].1)
    } else {
        lookup_from(fields, key, i + 1)
    }
}

/// The text under `key`: `None` where the map has no such key or holds a
/// null under it.
pub open spec fn text_under(fields: Seq<FieldView>, key: Seq<char>) -> Option<Seq<char>> {
    match lookup_from(fields, key, 0) {
        Some(Some(text)) => Some(text),
        _ => None,
    }
}

/// Whether the map has the key.
pub open spec fn has_key(fields: Seq<FieldView>, key: Seq<char>) -> bool {
    lookup_from(fields, key, 0).is_some()
}

/// The text of a required field: empty where the map holds a null.
pub open spec fn required_text(fields: Seq<FieldView>, key: Seq<char>) -> Seq<char> {
    match text_under(fields, key) {
        Some(text) => text,
        None => Seq::empty(),
    }
}

/// Whether the text under `key`, if there is any, is an unsigned decimal
/// numeral no larger than `max`.
pub open spec fn number_fits(fields: Seq<FieldView>, key: Seq<char>, max: nat) -> bool {
    match text_under(fields, key) {
        Some(text) => unsigned_of(text, max).is_some(),
        None => true,
    }
}

/// The number under `key`, where the text under it is a numeral.
pub open spec fn number_under(fields: Seq<FieldView>, key: Seq<char>, max: nat) -> Option<nat> {
    match text_under(fields, key) {
        Some(text) => unsigned_of(text, max),
        None => None,
    }
}

pub open spec fn missing_field_message(key: Seq<char>) -> Seq<char> {
    "missing field `"@ + key + "`"@
}

pub open spec fn invalid_number_message(key: Seq<char>) -> Seq<char> {
    "invalid value for `"@ + key + "`: expected an unsigned integer"@
}

/// The complaint about a map that does not hold a metadata block, if there
/// is one: a required key is missing, or a number is none.
pub open spec fn metadata_complaint(fields: Seq<FieldView>) -> Option<Seq<char>> {
    if !has_key(fields, "title"@) {
        Some(missing_field_message("title"@))
    } else if !has_key(fields, "raga"@) {
        Some(missing_field_message("raga"@))
    } else if !has_key(fields, "tala"@) {
        Some(missing_field_message("tala"@))
    } else if !number_fits(fields, "tempo"@, u32::MAX as nat) {
        Some(invalid_number_message("tempo"@))
    } else if !number_fits(fields, "gati"@, u8::MAX as nat) {
        Some(invalid_number_message("gati"@))
    } else {
        None
    }
}

/// The metadata that a map of fields holds. Keys other than the twelve
/// known ones are ignored.
pub open spec fn metadata_from(fields: Seq<FieldView>) -> MetadataView {
    MetadataView {
        title: required_text(fields, "title"@),
        raga: required_text(fields, "raga"@),
        tala: required_text(fields, "tala"@),
        composition_type: text_under(fields, "type"@),
        tempo: match number_under(fields, "tempo"@, u32::MAX as nat) {
            Some(n) => Some(n as u32),
            None => None,
        },
        composer: text_under(fields, "composer"@),
        language: text_under(fields, "language"@),
        key: text_under(fields, "key"@),
        gati: match number_under(fields, "gati"@, u8::MAX as nat) {
            Some(n) => Some(n as u8),
            None => None,
        },
        default_octave: text_under(fields, "default_octave"@),
        arohanam: text_under(fields, "arohanam"@),
        avarohanam: text_under(fields, "avarohanam"@),
    }
}

/// The metadata of a decoded map, or the complaint about it.
pub open spec fn metadata_of(fields: Seq<FieldView>) -> Result<MetadataView, Seq<char>> {
    match metadata_complaint(fields) {
        Some(message) => Err(message),
        None => Ok(metadata_from(fields)),
    }
}

fn lookup(fields: &Vec<Field>, key: &str) -> (r: Option<Option<String>>)
    ensures
        match r {
            Some(Some(s)) => lookup_from(fields_view(fields@), key@, 0) == Some(Some(s@)),
            Some(None) => lookup_from(fields_view(fields@), key@, 0) == Some(
                None::<Seq<char>>,
            ),
            None => lookup_from(fields_view(fields@), key@, 0).is_none(),
        },
{
    let wanted = chars_of(key);
    let mut i: usize = 0;
    while i < fields.len()
        invariant
            i <= fields.len(),
            wanted@ == key@,
            lookup_from(fields_view(fields@), key@, 0) == lookup_from(
                fields_view(fields@),
                key@,
                i as int,
            ),
        decreases fields.len() - i,
    {
        let name = chars_of(fields[i].0.as_str());
        if same_chars(&name, &wanted) {
            return match &fields[i].1 {
                Some(s) => Some(Some(s.clone())),
                None => Some(None),
            };
        }
        i += 1;
    }
    None
}

fn text_of_field(fields: &Vec<Field>, key: &str) -> (r: Option<String>)
    ensures
        crate::types::opt_text(r) == text_under(fields_view(fields@), key@),
{
    match lookup(fields, key) {
        Some(Some(s)) => Some(s),
        _ => None,
    }
}

fn required_field(fields: &Vec<Field>, key: &str) -> (r: Option<String>)
    ensures
        match r {
            Some(s) => has_key(fields_view(fields@), key@) && s@ == required_text(
                fields_view(fields@),
                key@,
            ),
            None => !has_key(fields_view(fields@), key@),
        },
{
    match lookup(fields, key) {
        Some(Some(s)) => Some(s),
        Some(None) => Some(String::new()),
        None => None,
    }
}

fn number_field(fields: &Vec<Field>, key: &str, max: u32) -> (r: Result<Option<u32>, ()>)
    ensures
        match r {
            Ok(Some(n)) => number_fits(fields_view(fields@), key@, max as nat) && number_under(
                fields_view(fields@),
                key@,
                max as nat,
            ) == Some(n as nat),
            Ok(None) => number_fits(fields_view(fields@), key@, max as nat) && number_under(
                fields_view(fields@),
                key@,
                max as nat,
            ).is_none(),
            Err(_) => !number_fits(fields_view(fields@), key@, max as nat),
        },
{
    match text_of_field(fields, key) {
        Some(text) => {
            let digits = chars_of(text.as_str());
            match parse_unsigned(&digits, max) {
                Some(n) => Ok(Some(n)),
                None => Err(()),
            }
        },
        None => Ok(None),
    }
}

fn missing_field(key: &str) -> (m: String)
    ensures
        m@ == missing_field_message(key@),
{
    let mut m: Vec<char> = Vec::new();
    push_text(&mut m, "missing field `");
    push_text(&mut m, key);
    push_text(&mut m, "`");
    string_of(&m)
}

fn invalid_number(key: &str) -> (m: String)
    ensures
        m@ == invalid_number_message(key@),
{
    let mut m: Vec<char> = Vec::new();
    push_text(&mut m, "invalid value for `");
    push_text(&mut m, key);
    push_text(&mut m, "`: expected an unsigned integer");
    string_of(&m)
}

/// Takes the metadata out of a decoded map. The three required keys must be
/// there, and `tempo` and `gati`, where they are there, must be numerals
/// that fit their fields.
pub fn metadata_from_fields(fields: &Vec<Field>) -> (r: Result<Metadata, String>)
    ensures
        match r {
            Ok(m) => metadata_of(fields_view(fields@)) == Ok::<MetadataView, Seq<char>>(m@),
            Err(message) => metadata_of(fields_view(fields@)) == Err::<MetadataView, Seq<char>>(
                message@,
            ),
        },
{
    let title = match required_field(fields, "title") {
        Some(s) => s,
        None => { return Err(missing_field("title")); },
    };
    let raga = match required_field(fields, "raga") {
        Some(s) => s,
        None => { return Err(missing_field("raga")); },
    };
    let tala = match required_field(fields, "tala") {
        Some(s) => s,
        None => { return Err(missing_field("tala")); },
    };
    let tempo = match number_field(fields, "tempo", u32::MAX) {
        Ok(n) => n,
        Err(_) => { return Err(invalid_number("tempo")); },
    };
    let gati = match number_field(fields, "gati", 255) {
        Ok(Some(n)) => Some(n as u8),
        Ok(None) => None,
        Err(_) => { return Err(invalid_number("gati")); },
    };
    Ok(
        Metadata {
            title,
            raga,
            tala,
            composition_type: text_of_field(fields, "type"),
            tempo,
            composer: text_of_field(fields, "composer"),
            language: text_of_field(fields, "language"),
            key: text_of_field(fields, "key"),
            gati,
            default_octave: text_of_field(fields, "default_octave"),
            arohanam: text_of_field(fields, "arohanam"),
            avarohanam: text_of_field(fields, "avarohanam"),
        },
    )
}

} // verus!
