//! A small key-value store for the bot's state (a last-seen id, a few
//! counters): a JSON object of named values, kept in a file that is
//! replaced as a whole on every change (written to a temporary file, then
//! renamed over the old one, so that a crash leaves no broken file).
//!
//! This module holds the store in memory and decides what is read and
//! written; opening and writing the file are the caller's part.

use vstd::prelude::*;
use serde_json::Value;
use std::path::PathBuf;

verus! {

#[verifier::external_type_specification]
#[verifier::external_body]
pub struct ExValue(Value);

#[verifier::external_type_specification]
#[verifier::external_body]
pub struct ExJsonError(serde_json::Error);

#[verifier::external_type_specification]
#[verifier::external_body]
#[verifier::reject_recursive_types(K)]
#[verifier::reject_recursive_types(V)]
pub struct ExJsonMap<K, V>(serde_json::Map<K, V>);

#[verifier::external_type_specification]
#[verifier::external_body]
pub struct ExPathBuf(PathBuf);

/// A JSON object: named JSON values.
pub type JsonObject = serde_json::Map<String, Value>;

/// The members of a JSON object, by name.
pub uninterp spec fn members(object: JsonObject) -> Map<Seq<char>, Value>;

/// The members of the JSON object that `text` holds, or `None` where
/// `text` is no JSON object, as serde_json parses it.
pub uninterp spec fn parsed_object(text: Seq<char>) -> Option<Map<Seq<char>, Value>>;

/// The bytes of the pretty-printed JSON object with these members, as
/// serde_json prints it.
pub uninterp spec fn pretty_object(members: Map<Seq<char>, Value>) -> Seq<u8>;

/// The members of an empty object.
pub open spec fn no_members() -> Map<Seq<char>, Value> {
    Map::empty()
}

/// Calls `serde_json::Map::new`: an object without members.
#[verifier::external_body]
fn empty_object() -> (object: JsonObject)
    ensures
        members(object) == no_members(),
{
    serde_json::Map::new()
}

/// Calls `serde_json::Map::get` and clones the value found: the member
/// named `key`, where there is one.
#[verifier::external_body]
fn member(object: &JsonObject, key: &str) -> (value: Option<Value>)
    ensures
        value == (if members(*object).contains_key(key@) {
            Some(members(*object)[key@])
        } else {
            None
        }),
{
    object.get(key).cloned()
}

/// Calls `serde_json::Map::insert`: the member named `key` becomes
/// `value`, and the others stay.
#[verifier::external_body]
fn insert_member(object: &mut JsonObject, key: String, value: Value)
    ensures
        members(*final(object)) == members(*old(object)).insert(key@, value),
{
    object.insert(key, value);
}

/// Calls `serde_json::Map::remove`: the member named `key` is taken out
/// and handed back, where there was one.
#[verifier::external_body]
fn remove_member(object: &mut JsonObject, key: &str) -> (removed: Option<
    Value,
>)
    ensures
        members(*final(object)) == members(*old(object)).remove(key@),
        removed == (if members(*old(object)).contains_key(key@) {
            Some(members(*old(object))[key@])
        } else {
            None
        }),
{
    object.remove(key)
}

/// Calls `serde_json::from_str` for a JSON object; what it parses is named
/// `parsed_object` of the text.
#[verifier::external_body]
fn parse_object(text: &str) -> (r: Result<JsonObject, serde_json::Error>)
    ensures
        r is Ok <==> parsed_object(text@) is Some,
        r matches Ok(object) ==> Some(members(object)) == parsed_object(text@),
{
    serde_json::from_str(text)
}

/// Calls `serde_json::to_vec_pretty` on the object; the bytes it gives are
/// named `pretty_object` of its members. It succeeds: serde_json documents
/// that serialization fails only where a `Serialize` impl decides to fail or
/// a map has keys that are no strings, and neither happens here (the keys
/// are strings, `Value`'s impl fails only where the writer does, and its
/// non-finite floats are written as `null`), while writing to a `Vec<u8>`
/// does not fail. The bytes are UTF-8 (serde_json's `to_string_pretty`
/// rests on that: "We do not emit invalid UTF-8"), and every member name is
/// written as a JSON string that reads back as itself, so where serde_json
/// parses the text back into an object, that object has exactly the same
/// member names. That the values read back the same is not claimed: floats
/// do not always come back exactly without serde_json's `float_roundtrip`,
/// and values nested deeper than 128 levels do not parse at all.
#[verifier::external_body]
fn print_object(object: &JsonObject) -> (r: Result<Vec<u8>, serde_json::Error>)
    ensures
        r is Ok,
        r matches Ok(bytes) ==> bytes@ == pretty_object(members(*object)),
        r matches Ok(bytes) ==> vstd::utf8::valid_utf8(bytes@),
        r matches Ok(bytes) ==> (parsed_object(vstd::utf8::decode_utf8(bytes@)) matches Some(
            back,
        ) ==> back.dom() == members(*object).dom()),
{
    serde_json::to_vec_pretty(&Value::Object(object.clone()))
}

/// The text `Path::display` gives for a path. It depends on the path
/// alone, but a path has no view here, so nothing is claimed of it.
#[verifier::external_body]
fn path_text(path: &PathBuf) -> String {
    path.display().to_string()
}

/// The message of a serde_json error, as its `Display` writes it. Nothing
/// is claimed of it.
#[verifier::external_body]
fn json_error_text(error: &serde_json::Error) -> String {
    error.to_string()
}

/// The message for a store file at the path shown as `path` that holds no
/// JSON object, where the parser reported `error`.
pub open spec fn corrupt_file_text(path: Seq<char>, error: Seq<char>) -> Seq<char> {
    "corrupt store file "@ + path + ": "@ + error
}

/// The message for a store file at the path shown as `path` that could not
/// be read, for `reason`.
pub open spec fn unreadable_file_text(path: Seq<char>, reason: Seq<char>) -> Seq<char> {
    "failed to read "@ + path + ": "@ + reason
}

/// `prefix`, `path`, `": "` and `detail`, as one string.
fn message(prefix: &str, path: &str, detail: &str) -> (m: String)
    ensures
        m@ == prefix@ + path@ + ": "@ + detail@,
{
    let mut m = String::new();
    m.append(prefix);
    m.append(path);
    m.append(": ");
    m.append(detail);
    m
}

/// The value a store with these values holds under `key`, where it holds
/// one: what `Store::get` gives.
pub open spec fn lookup(values: Map<Seq<char>, Value>, key: Seq<char>) -> Option<Value> {
    if values.contains_key(key) {
        Some(values[key])
    } else {
        None
    }
}

/// A change to a store: `(key, Some(value))` stores `value` under `key`, as
/// `Store::set` does; `(key, None)` removes `key`, as `Store::delete` does.
pub open spec fn apply_change(
    values: Map<Seq<char>, Value>,
    change: (Seq<char>, Option<Value>),
) -> Map<Seq<char>, Value> {
    match change.1 {
        Some(value) => values.insert(change.0, value),
        None => values.remove(change.0),
    }
}

/// The values after the changes are made in turn.
pub open spec fn apply_changes(
    values: Map<Seq<char>, Value>,
    changes: Seq<(Seq<char>, Option<Value>)>,
) -> Map<Seq<char>, Value>
    decreases changes.len(),
{
    if changes.len() == 0 {
        values
    } else {
        apply_change(apply_changes(values, changes.drop_last()), changes.last())
    }
}

/// What the last of the changes that touch `key` left there, or what the
/// store held there before them where none does.
pub open spec fn last_write(
    values: Map<Seq<char>, Value>,
    changes: Seq<(Seq<char>, Option<Value>)>,
    key: Seq<char>,
) -> Option<Value>
    decreases changes.len(),
{
    if changes.len() == 0 {
        lookup(values, key)
    } else if changes.last().0 == key {
        changes.last().1
    } else {
        last_write(values, changes.drop_last(), key)
    }
}

/// A read gives back what the last write under its key wrote, and a write
/// leaves the other keys as they were.
pub proof fn lemma_get_after_set(
    values: Map<Seq<char>, Value>,
    key: Seq<char>,
    value: Value,
    other: Seq<char>,
)
    ensures
        lookup(apply_change(values, (key, Some(value))), key) == Some(value),
        other != key ==> lookup(apply_change(values, (key, Some(value))), other) == lookup(
            values,
            other,
        ),
{
}

/// After a delete the key holds nothing and the other keys stay; deleting
/// it again removes nothing (so the file is not written again) and changes
/// nothing.
pub proof fn lemma_delete_is_idempotent(
    values: Map<Seq<char>, Value>,
    key: Seq<char>,
    other: Seq<char>,
)
    ensures
        lookup(apply_change(values, (key, None)), key) is None,
        other != key ==> lookup(apply_change(values, (key, None)), other) == lookup(values, other),
        !apply_change(values, (key, None)).contains_key(key),
        apply_change(apply_change(values, (key, None)), (key, None)) == apply_change(
            values,
            (key, None),
        ),
{
    assert(values.remove(key).remove(key) =~= values.remove(key));
}

/// Over any sequence of sets and deletes, a read of a key gives what the
/// last set of that key stored, nothing where a delete came after it, and
/// what the store held before where no change touched the key.
pub proof fn lemma_read_gives_last_write(
    values: Map<Seq<char>, Value>,
    changes: Seq<(Seq<char>, Option<Value>)>,
    key: Seq<char>,
)
    ensures
        lookup(apply_changes(values, changes), key) == last_write(values, changes, key),
    decreases changes.len(),
{
    if changes.len() > 0 {
        lemma_read_gives_last_write(values, changes.drop_last(), key);
    }
}

/// An error of the bot.
#[derive(Debug)]
pub enum NotebotError {
    /// The store could not be read, parsed or written; the message says why.
    Store(String),
}

/// What reading the store file gave.
pub enum StoreRead {
    /// The file's text.
    Contents(String),
    /// There is no such file.
    Missing,
    /// The file could not be read; the reason, for the message.
    Failed(String),
}

/// The bot's key-value store: named JSON values, and the file they are
/// kept in.
pub struct Store {
    path: PathBuf,
    data: JsonObject,
}

impl View for Store {
    type V = Map<Seq<char>, Value>;

    closed spec fn view(&self) -> Map<Seq<char>, Value> {
        members(self.data)
    }
}

impl Store {
    /// The file the store is kept in.
    pub closed spec fn file(self) -> PathBuf {
        self.path
    }

    /// Opens the store kept at `path`, given what reading that file gave:
    /// the object the file holds, or an empty store where there is no file.
    /// A file that holds no JSON object, or could not be read, is an error.
    pub fn open(path: PathBuf, read: StoreRead) -> (r: Result<Store, NotebotError>)
        ensures
            match read {
                StoreRead::Contents(text) => match parsed_object(text@) {
                    Some(object) => r matches Ok(store) && store@ == object && store.file()
                        == path,
                    None => r matches Err(NotebotError::Store(message)) && exists|
                        shown: Seq<char>,
                        error: Seq<char>,
                    | message@ == #[trigger] corrupt_file_text(shown, error),
                },
                StoreRead::Missing => r matches Ok(store) && store@ == no_members() && store.file()
                    == path,
                StoreRead::Failed(reason) => r matches Err(NotebotError::Store(message))
                    && exists|shown: Seq<char>|
                    message@ == #[trigger] unreadable_file_text(shown, reason@),
            },
    {
        match read {
            StoreRead::Contents(text) => match parse_object(text.as_str()) {
                Ok(data) => Ok(Store { path, data }),
                Err(e) => {
                    let shown = path_text(&path);
                    let error = json_error_text(&e);
                    let m = message("corrupt store file ", shown.as_str(), error.as_str());
                    assert(m@ == corrupt_file_text(shown@, error@));
                    Err(NotebotError::Store(m))
                },
            },
            StoreRead::Missing => Ok(Store { path, data: empty_object() }),
            StoreRead::Failed(reason) => {
                let shown = path_text(&path);
                let m = message("failed to read ", shown.as_str(), reason.as_str());
                assert(m@ == unreadable_file_text(shown@, reason@));
                Err(NotebotError::Store(m))
            },
        }
    }

    /// The file the store is kept in.
    pub fn path(&self) -> (p: &PathBuf)
        ensures
            *p == self.file(),
    {
        &self.path
    }

    /// The value stored under `key`, where there is one.
    pub fn get(&self, key: &str) -> (value: Option<Value>)
        ensures
            value == lookup(self@, key@),
    {
        member(&self.data, key)
    }

    /// Stores `value` under `key`, in place of any value it had. The file
    /// is then to be written anew.
    pub fn set(&mut self, key: &str, value: Value)
        ensures
            final(self)@ == apply_change(old(self)@, (key@, Some(value))),
            final(self).file() == old(self).file(),
    {
        insert_member(&mut self.data, key.to_owned(), value);
    }

    /// Removes `key` and its value. The result tells whether there was one,
    /// which is when the file is to be written anew.
    pub fn delete(&mut self, key: &str) -> (removed: bool)
        ensures
            final(self)@ == apply_change(old(self)@, (key@, None)),
            removed == old(self)@.contains_key(key@),
            final(self).file() == old(self).file(),
    {
        let removed = remove_member(&mut self.data, key);
        removed.is_some()
    }

    /// The bytes of the store file: the stored values as one pretty-printed
    /// JSON object. Printing them does not fail; the bytes are UTF-8 text,
    /// and where that text opens as a store again it holds exactly the keys
    /// of this one: no key is left out of the file or added to it.
    pub fn document(&self) -> (r: Result<Vec<u8>, NotebotError>)
        ensures
            r is Ok,
            r matches Ok(bytes) ==> bytes@ == pretty_object(self@),
            r matches Ok(bytes) ==> vstd::utf8::valid_utf8(bytes@),
            r matches Ok(bytes) ==> (parsed_object(vstd::utf8::decode_utf8(bytes@)) matches Some(
                back,
            ) ==> back.dom() == self@.dom()),
    {
        match print_object(&self.data) {
            Ok(bytes) => Ok(bytes),
            Err(e) => Err(NotebotError::Store(json_error_text(&e))),
        }
    }
}

} // verus!
