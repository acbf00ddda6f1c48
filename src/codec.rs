//! The entry codec: between JSON items and the records the engine stores.

use vstd::prelude::*;
use crate::json::{JsonValue, JsonMember, json_text, to_json_text};

verus! {

/// A tag of a stored record. Tags written by this library are always of the
/// encrypted kind.
pub struct TagPair {
    pub name: String,
    pub value: String,
}

/// A record as handed to the engine's insert: the value is stored as the
/// bytes of the `value` text.
pub struct EntryRecord {
    pub category: String,
    pub name: String,
    pub value: String,
    pub tags: Vec<TagPair>,
}

/// The plain content of a record.
pub ghost struct RecordModel {
    pub category: Seq<char>,
    pub name: Seq<char>,
    pub value: Seq<char>,
    pub tags: Seq<(Seq<char>, Seq<char>)>,
}

pub open spec fn tags_model(tags: Seq<TagPair>) -> Seq<(Seq<char>, Seq<char>)> {
    tags.map_values(|t: TagPair| (t.name@, t.value@))
}

impl View for EntryRecord {
    type V = RecordModel;

    open spec fn view(&self) -> RecordModel {
        RecordModel {
            category: self.category@,
            name: self.name@,
            value: self.value@,
            tags: tags_model(self.tags@),
        }
    }
}

/// The key of an item's name field.
pub open spec fn name_key() -> Seq<char> {
    seq!['n', 'a', 'm', 'e']
}

/// The key of an item's value field.
pub open spec fn value_key() -> Seq<char> {
    seq!['v', 'a', 'l', 'u', 'e']
}

/// The key of an item's tags field.
pub open spec fn tags_key() -> Seq<char> {
    seq!['t', 'a', 'g', 's']
}

/// The category of entries written by the single-entry insert.
pub open spec fn item_category() -> Seq<char> {
    seq!['i', 't', 'e', 'm']
}

/// The value of the first member named `key`, if any.
pub open spec fn lookup(members: Seq<JsonMember>, key: Seq<char>) -> Option<JsonValue>
    decreases members.len(),
{
    if members.len() == 0 {
        None
    } else if members[0].key@ == key {
        Some(members[0].value)
    } else {
        lookup(members.drop_first(), key)
    }
}

/// Text of a tag value: a string as it is, anything else as its canonical
/// JSON text (`12`, `true`, `null`).
pub open spec fn tag_text(v: JsonValue) -> Seq<char> {
    match v {
        JsonValue::Str(s) => s@,
        _ => json_text(v),
    }
}

/// The tags that an item's `tags` field gives: one per member of an object,
/// none for anything else or for a missing field.
pub open spec fn item_tags(t: Option<JsonValue>) -> Seq<(Seq<char>, Seq<char>)> {
    match t {
        Some(JsonValue::Object(ms)) => ms@.map_values(|m: JsonMember| (m.key@, tag_text(m.value))),
        _ => Seq::empty(),
    }
}

/// The record that a bulk-import item gives under `category`: `None` unless
/// the item is an object with a string `name`. A missing `value` counts as
/// `null`.
pub open spec fn item_record(item: JsonValue, category: Seq<char>) -> Option<RecordModel> {
    match item {
        JsonValue::Object(ms) => match lookup(ms@, name_key()) {
            Some(JsonValue::Str(n)) => Some(
                RecordModel {
                    category,
                    name: n@,
                    value: json_text(
                        match lookup(ms@, value_key()) {
                            Some(v) => v,
                            None => JsonValue::Null,
                        },
                    ),
                    tags: item_tags(lookup(ms@, tags_key())),
                },
            ),
            _ => None,
        },
        _ => None,
    }
}

/// Index of the first member named `key`.
pub fn find_member(members: &Vec<JsonMember>, key: &str) -> (r: Option<usize>)
    ensures
        match r {
            Some(i) => i < members@.len() && members@[i as int].key@ == key@ && lookup(
                members@,
                key@,
            ) == Some(members@[i as int].value),
            None => lookup(members@, key@) == None::<JsonValue>,
        },
{
    let key_text = key.to_owned();
    let mut i: usize = 0;
    assert(members@.skip(0) =~= members@);
    while i < members.len()
        invariant
            i <= members@.len(),
            key_text@ == key@,
            lookup(members@, key@) == lookup(members@.skip(i as int), key@),
        decreases members@.len() - i,
    {
        assert(members@.skip(i as int)[0] == members@[i as int]);
        if members[i].key == key_text {
            return Some(i);
        }
        assert(members@.skip(i as int).drop_first() =~= members@.skip(i + 1));
        i = i + 1;
    }
    None
}

/// Text of a tag value, see `tag_text`.
pub fn tag_value_text(v: &JsonValue) -> (r: String)
    ensures
        r@ == tag_text(*v),
{
    match v {
        JsonValue::Str(s) => s.clone(),
        _ => to_json_text(v),
    }
}

/// The tags of an item's `tags` field, all to be stored encrypted.
pub fn encode_tags(t: Option<&JsonValue>) -> (r: Vec<TagPair>)
    ensures
        tags_model(r@) == item_tags(
            match t {
                Some(v) => Some(*v),
                None => None,
            },
        ),
{
    let mut out: Vec<TagPair> = Vec::new();
    match t {
        Some(JsonValue::Object(ms)) => {
            let mut i: usize = 0;
            while i < ms.len()
                invariant
                    i <= ms@.len(),
                    out@.len() == i,
                    tags_model(out@) =~= ms@.take(i as int).map_values(
                        |m: JsonMember| (m.key@, tag_text(m.value)),
                    ),
                decreases ms@.len() - i,
            {
                let name = ms[i].key.clone();
                let value = tag_value_text(&ms[i].value);
                let ghost before = out@;
                out.push(TagPair { name, value });
                assert(out@ =~= before.push(out@[i as int]));
                assert(tags_model(out@) =~= tags_model(before).push(
                    (ms@[i as int].key@, tag_text(ms@[i as int].value)),
                ));
                assert(ms@.take(i + 1) =~= ms@.take(i as int).push(ms@[i as int]));
                i = i + 1;
            }
            assert(ms@.take(ms@.len() as int) =~= ms@);
        },
        _ => {},
    }
    out
}

/// Encodes one bulk-import item under `category`; `None` for an item that
/// is not an object with a string `name`.
pub fn encode_item(item: &JsonValue, category: &str) -> (r: Option<EntryRecord>)
    ensures
        match r {
            Some(rec) => item_record(*item, category@) == Some(rec@),
            None => item_record(*item, category@) == None::<RecordModel>,
        },
{
    proof {
        reveal_strlit("name");
        reveal_strlit("value");
        reveal_strlit("tags");
        assert("name"@ =~= name_key());
        assert("value"@ =~= value_key());
        assert("tags"@ =~= tags_key());
    }
    match item {
        JsonValue::Object(ms) => {
            let name = match find_member(ms, "name") {
                Some(i) => match &ms[i].value {
                    JsonValue::Str(n) => n.clone(),
                    _ => return None,
                },
                None => return None,
            };
            let value = match find_member(ms, "value") {
                Some(i) => to_json_text(&ms[i].value),
                None => to_json_text(&JsonValue::Null),
            };
            let tags = match find_member(ms, "tags") {
                Some(i) => encode_tags(Some(&ms[i].value)),
                None => encode_tags(None),
            };
            let rec = EntryRecord { category: category.to_owned(), name, value, tags };
            assert(rec@ =~= item_record(*item, category@)->Some_0);
            Some(rec)
        },
        _ => None,
    }
}

/// The record written by the single-entry insert: category `item`, the value
/// text stored as it is (not JSON-encoded), no tags.
pub fn single_entry(name: &str, value: &str) -> (r: EntryRecord)
    ensures
        r@ == (RecordModel {
            category: item_category(),
            name: name@,
            value: value@,
            tags: Seq::empty(),
        }),
{
    proof {
        reveal_strlit("item");
        assert("item"@ =~= item_category());
    }
    let rec = EntryRecord {
        category: "item".to_owned(),
        name: name.to_owned(),
        value: value.to_owned(),
        tags: Vec::new(),
    };
    assert(rec@.tags =~= Seq::<(Seq<char>, Seq<char>)>::empty());
    rec
}

/// The characters that the bytes `b` encode in UTF-8, or `None` where they
/// are not well-formed UTF-8.
pub uninterp spec fn utf8_decoded(b: Seq<u8>) -> Option<Seq<char>>;

/// Relies on std's String::from_utf8: the text that the bytes encode, or an
/// error where they are not well-formed UTF-8.
#[verifier::external_body]
fn utf8_text(b: &[u8]) -> (r: Option<String>)
    ensures
        match r {
            Some(s) => utf8_decoded(b@) == Some(s@),
            None => utf8_decoded(b@) is None,
        },
{
    String::from_utf8(b.to_vec()).ok()
}

/// Text shown for a stored value that is not UTF-8.
pub open spec fn binary_marker() -> Seq<char> {
    "<binary data>"@
}

/// The text shown for a stored value: its UTF-8 text, or the binary marker.
pub open spec fn stored_text(b: Seq<u8>) -> Seq<char> {
    match utf8_decoded(b) {
        Some(t) => t,
        None => binary_marker(),
    }
}

/// Decodes a stored value for display.
pub fn decode_value(b: &[u8]) -> (r: String)
    ensures
        r@ == stored_text(b@),
{
    match utf8_text(b) {
        Some(s) => s,
        None => "<binary data>".to_owned(),
    }
}

/// Relies on str::as_bytes: a `str` is always well-formed UTF-8, so
/// String::from_utf8 on these bytes gives back the same text.
#[verifier::external_body]
fn text_bytes(s: &str) -> (r: Vec<u8>)
    ensures
        utf8_decoded(r@) == Some(s@),
{
    s.as_bytes().to_vec()
}

/// The bytes handed to the engine for a record's value: the UTF-8 encoding
/// of its value text.
pub fn value_bytes(rec: &EntryRecord) -> (r: Vec<u8>)
    ensures
        utf8_decoded(r@) == Some(rec.value@),
{
    text_bytes(rec.value.as_str())
}

/// What the single-entry insert writes is listed as it was written: where
/// the engine hands back the bytes of the record that `single_entry` built,
/// the listing shows the input text itself, not the binary marker.
pub proof fn lemma_single_entry_lists_as_written(
    name: Seq<char>,
    value: Seq<char>,
    rec: RecordModel,
    stored: Seq<u8>,
)
    requires
        rec == (RecordModel { category: item_category(), name, value, tags: Seq::empty() }),
        utf8_decoded(stored) == Some(rec.value),
    ensures
        stored_text(stored) == value,
        rec.category == item_category(),
        rec.name == name,
{
}

/// A stored record as listed: its value already decoded for display.
pub struct StoredEntry {
    pub name: String,
    pub category: String,
    pub value: String,
    pub tags: Vec<TagPair>,
}

/// The listing form of a record fetched from the engine.
pub fn stored_entry(name: String, category: String, value: &[u8], tags: Vec<TagPair>) -> (r:
    StoredEntry)
    ensures
        r.name == name,
        r.category == category,
        r.value@ == stored_text(value@),
        r.tags == tags,
{
    StoredEntry { name, category, value: decode_value(value), tags }
}

} // verus!
