//! Calls into `serde_json` and `zip`. Each function here makes one call whose
//! result this library names but does not compute; everything around these
//! calls is verified.
use vstd::prelude::*;
use std::io::Read;

verus! {

/// What `serde_json::from_str::<serde_json::Value>(text)` followed by
/// `.get(key).and_then(Value::as_str)` gives: the string member `key` of the
/// parsed value (`None` when it is absent, not a string, or the value is not
/// an object), or the parse error's message.
pub uninterp spec fn json_string_member_spec(text: Seq<char>, key: Seq<char>) -> Result<Option<Seq<char>>, Seq<char>>;

/// Parses `text` as JSON with `serde_json` and reads its string member `key`.
/// The contract only names the result: JSON syntax and serde_json's error
/// messages are not restated here.
#[verifier::external_body]
pub(crate) fn json_string_member(text: &str, key: &str) -> (r: Result<Option<String>, String>)
    ensures
        match r {
            Ok(Some(v)) => json_string_member_spec(text@, key@) == Ok::<Option<Seq<char>>, Seq<char>>(Some(v@)),
            Ok(None) => json_string_member_spec(text@, key@) == Ok::<Option<Seq<char>>, Seq<char>>(None),
            Err(e) => json_string_member_spec(text@, key@) == Err::<Option<Seq<char>>, Seq<char>>(e@),
        },
{
    let value: serde_json::Value = serde_json::from_str(text).map_err(|error| error.to_string())?;
    Ok(value.get(key).and_then(|member| member.as_str()).map(|member| member.to_string()))
}

/// What `zip::ZipArchive::new` over `bytes` followed by `len()` gives: the
/// number of entries, or the error's message.
pub uninterp spec fn zip_entry_count_spec(bytes: Seq<u8>) -> Result<usize, Seq<char>>;

/// Opens `bytes` as a ZIP archive with the `zip` crate and counts its entries.
/// Only the result's name is stated; the ZIP format is not restated here.
#[verifier::external_body]
pub(crate) fn zip_entry_count(bytes: &[u8]) -> (r: Result<usize, String>)
    ensures
        match r {
            Ok(n) => zip_entry_count_spec(bytes@) == Ok::<usize, Seq<char>>(n),
            Err(e) => zip_entry_count_spec(bytes@) == Err::<usize, Seq<char>>(e@),
        },
{
    zip::ZipArchive::new(std::io::Cursor::new(bytes)).map(|archive| archive.len()).map_err(|error| error.to_string())
}

/// What `by_index(index)` and then `name()` give on the archive `bytes`:
/// the entry's name, or the error's message.
pub uninterp spec fn zip_entry_name_spec(bytes: Seq<u8>, index: usize) -> Result<Seq<char>, Seq<char>>;

/// The name of the entry at `index` of the ZIP archive `bytes`, by the `zip`
/// crate. Only the result's name is stated.
#[verifier::external_body]
pub(crate) fn zip_entry_name(bytes: &[u8], index: usize) -> (r: Result<String, String>)
    ensures
        match r {
            Ok(n) => zip_entry_name_spec(bytes@, index) == Ok::<Seq<char>, Seq<char>>(n@),
            Err(e) => zip_entry_name_spec(bytes@, index) == Err::<Seq<char>, Seq<char>>(e@),
        },
{
    let mut archive = zip::ZipArchive::new(std::io::Cursor::new(bytes)).map_err(|error| error.to_string())?;
    let entry = archive.by_index(index).map_err(|error| error.to_string())?;
    let name = entry.name().map_err(|error| error.to_string())?;
    Ok(name.to_string())
}

/// Why an entry's text could not be had: the entry could not be opened
/// (`Entry`) or its content could not be read as text (`Content`).
pub enum ZipReadFailure {
    Entry(String),
    Content(String),
}

/// What `by_index(index)` and then `read_to_string` give on the archive
/// `bytes`: the entry's text, or `(false, message)` when the entry could not
/// be opened and `(true, message)` when its content could not be read.
pub uninterp spec fn zip_entry_text_spec(bytes: Seq<u8>, index: usize) -> Result<Seq<char>, (bool, Seq<char>)>;

/// The decompressed text of the entry at `index` of the ZIP archive `bytes`,
/// by the `zip` crate. Only the result's name is stated.
#[verifier::external_body]
pub(crate) fn zip_entry_text(bytes: &[u8], index: usize) -> (r: Result<String, ZipReadFailure>)
    ensures
        match r {
            Ok(t) => zip_entry_text_spec(bytes@, index) == Ok::<Seq<char>, (bool, Seq<char>)>(t@),
            Err(ZipReadFailure::Entry(e)) => zip_entry_text_spec(bytes@, index) == Err::<Seq<char>, (bool, Seq<char>)>((false, e@)),
            Err(ZipReadFailure::Content(e)) => zip_entry_text_spec(bytes@, index) == Err::<Seq<char>, (bool, Seq<char>)>((true, e@)),
        },
{
    let mut archive = zip::ZipArchive::new(std::io::Cursor::new(bytes)).map_err(|error| ZipReadFailure::Entry(error.to_string()))?;
    let mut entry = archive.by_index(index).map_err(|error| ZipReadFailure::Entry(error.to_string()))?;
    let mut content = String::new();
    entry.read_to_string(&mut content).map_err(|error| ZipReadFailure::Content(error.to_string()))?;
    Ok(content)
}

} // verus!
