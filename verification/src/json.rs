//! The output table as a JSON document: one object that holds, under each
//! output identifier, the key and the text of the entry.

use crate::run::ErrorKind;
use crate::table::{EntryView, OutputTable, ResolvedEntry};
use serde_json::Value;
use vstd::prelude::*;
use vstd::string::StringExecFns;

verus! {

/// `serde_json::Value`: a JSON value, carried through as it is.
#[verifier::external_type_specification]
#[verifier::external_body]
pub struct ExValue(Value);

/// `serde_json::Map`: a JSON object, carried through as it is.
#[verifier::external_type_specification]
#[verifier::external_body]
#[verifier::reject_recursive_types(K)]
#[verifier::reject_recursive_types(V)]
pub struct ExMap<K, V>(serde_json::Map<K, V>);

/// `serde_json::Error`: why a rendering failed.
#[verifier::external_type_specification]
#[verifier::external_body]
pub struct ExError(serde_json::Error);

/// What a JSON value says. A number is told by its digits.
pub ghost enum Json {
    Null,
    Bool(bool),
    Number(Seq<char>),
    Text(Seq<char>),
    Array(Seq<Json>),
    Object(Map<Seq<char>, Json>),
}

/// What a `serde_json::Value` holds.
pub uninterp spec fn json_of(value: Value) -> Json;

/// What a `serde_json::Map` holds: the value under each name.
pub uninterp spec fn members(object: serde_json::Map<String, Value>) -> Map<Seq<char>, Json>;

/// The text that `serde_json::to_string_pretty` gives for an object with
/// the given members.
pub uninterp spec fn pretty_json(members: Map<Seq<char>, Json>) -> Seq<char>;

/// The object without members.
pub open spec fn no_members() -> Map<Seq<char>, Json> {
    Map::empty()
}

/// The name under which an entry's natural key is written.
pub open spec fn key_name() -> Seq<char> {
    "key"@
}

/// The name under which an entry's text is written.
pub open spec fn text_name() -> Seq<char> {
    "text"@
}

/// What is written for one entry: its natural key and its text.
pub open spec fn entry_json(entry: EntryView) -> Json {
    Json::Object(
        no_members().insert(key_name(), Json::Text(entry.display_key)).insert(
            text_name(),
            Json::Text(entry.text),
        ),
    )
}

/// What is written for a table: every output identifier with its entry.
pub open spec fn table_json(table: Map<Seq<char>, EntryView>) -> Map<Seq<char>, Json> {
    Map::new(|id: Seq<char>| table.contains_key(id), |id: Seq<char>| entry_json(table[id]))
}

/// `serde_json::Value::String`: the value that holds a text.
#[verifier::external_body]
fn text_value(text: String) -> (value: Value)
    ensures
        json_of(value) == Json::Text(text@),
{
    Value::String(text)
}

/// `serde_json::Value::Object`: the value that holds an object.
#[verifier::external_body]
fn object_value(object: serde_json::Map<String, Value>) -> (value: Value)
    ensures
        json_of(value) == Json::Object(members(object)),
{
    Value::Object(object)
}

/// `serde_json::Map::new` makes an empty map.
#[verifier::external_body]
fn new_object() -> (object: serde_json::Map<String, Value>)
    ensures
        members(object) == no_members(),
{
    serde_json::Map::new()
}

/// `serde_json::Map::insert`: the value stands under the name afterwards,
/// in place of what stood there; the other members stay.
#[verifier::external_body]
fn insert_member(object: &mut serde_json::Map<String, Value>, name: String, value: Value)
    ensures
        members(*final(object)) == members(*old(object)).insert(name@, json_of(value)),
{
    object.insert(name, value);
}

/// `serde_json::to_string_pretty` on a map: the pretty-printed text of the
/// object. The call succeeds: the text is written into memory, where no
/// write fails, and the names of the members are strings, which is all that
/// the serializer asks of them. The map keeps its members sorted by name,
/// so the text depends on nothing but the members.
#[verifier::external_body]
fn to_string_pretty(object: &serde_json::Map<String, Value>) -> (rendered: Result<
    String,
    serde_json::Error,
>)
    ensures
        rendered is Ok,
        rendered matches Ok(text) ==> text@ == pretty_json(members(*object)),
{
    serde_json::to_string_pretty(object)
}

/// The JSON value of one entry: an object with its key and its text.
fn entry_value(entry: &ResolvedEntry) -> (value: Value)
    ensures
        json_of(value) == entry_json(entry@),
{
    let mut inner = new_object();
    insert_member(&mut inner, String::from_str("key"), text_value(entry.display_key.clone()));
    insert_member(&mut inner, String::from_str("text"), text_value(entry.text.clone()));
    object_value(inner)
}

/// The JSON object of a table.
pub fn table_object(table: &OutputTable) -> (object: serde_json::Map<String, Value>)
    ensures
        members(object) == table_json(table@),
{
    let entries = table.entries();
    let mut object = new_object();
    let mut i: usize = 0;
    while i < entries.len()
        invariant
            i <= entries.len(),
            forall|j: int|
                0 <= j < entries@.len() ==> table@.contains_key(#[trigger] entries@[j].output_id@)
                    && table@[entries@[j].output_id@] == entries@[j]@,
            forall|id: Seq<char>| #[trigger]
                members(object).contains_key(id) <==> exists|j: int|
                    0 <= j < i && #[trigger] entries@[j].output_id@ == id,
            forall|id: Seq<char>| #[trigger]
                members(object).contains_key(id) ==> members(object)[id] == entry_json(table@[id]),
        decreases entries.len() - i,
    {
        let entry = &entries[i];
        let ghost before = members(object);
        insert_member(&mut object, entry.output_id.clone(), entry_value(entry));
        proof {
            let added = entry.output_id@;
            assert(entries@[i as int].output_id@ == added);
            assert forall|id: Seq<char>| #[trigger]
                members(object).contains_key(id) <==> exists|j: int|
                    0 <= j < i + 1 && #[trigger] entries@[j].output_id@ == id by {
                if before.contains_key(id) {
                    let j = choose|j: int| 0 <= j < i && #[trigger] entries@[j].output_id@ == id;
                    assert(0 <= j < i + 1 && entries@[j].output_id@ == id);
                }
                if exists|j: int| 0 <= j < i + 1 && #[trigger] entries@[j].output_id@ == id {
                    let j = choose|j: int|
                        0 <= j < i + 1 && #[trigger] entries@[j].output_id@ == id;
                    if j < i {
                        assert(before.contains_key(id));
                    }
                }
            }
        }
        i = i + 1;
    }
    assert(members(object) =~= table_json(table@));
    object
}

/// What a rendering comes to: the text where there is one,
/// `OutputWriteFailed` where the rendering failed.
pub fn rendered_or_failure(outcome: Result<String, serde_json::Error>) -> (rendered: Result<
    String,
    ErrorKind,
>)
    ensures
        match outcome {
            Ok(text) => rendered == Ok::<String, ErrorKind>(text),
            Err(_) => rendered == Err::<String, ErrorKind>(ErrorKind::OutputWriteFailed),
        },
{
    match outcome {
        Ok(text) => Ok(text),
        Err(_) => Err(ErrorKind::OutputWriteFailed),
    }
}

/// The table as pretty-printed JSON. Every table has such a text.
pub fn render_table(table: &OutputTable) -> (rendered: Result<String, ErrorKind>)
    ensures
        rendered is Ok,
        rendered matches Ok(text) ==> text@ == pretty_json(table_json(table@)),
{
    rendered_or_failure(to_string_pretty(&table_object(table)))
}

/// The document loses nothing of an entry: entries that are written alike
/// have the same key and the same text.
pub proof fn lemma_entry_json_keeps_key_and_text(a: EntryView, b: EntryView)
    requires
        entry_json(a) == entry_json(b),
    ensures
        a.display_key == b.display_key,
        a.text == b.text,
{
    reveal_strlit("key");
    reveal_strlit("text");
    assert(key_name() != text_name()) by {
        assert(key_name().len() == 3);
        assert(text_name().len() == 4);
    }
    let written_a = entry_json(a)->Object_0;
    let written_b = entry_json(b)->Object_0;
    assert(written_a[key_name()] == Json::Text(a.display_key));
    assert(written_b[key_name()] == Json::Text(b.display_key));
    assert(written_a[text_name()] == Json::Text(a.text));
    assert(written_b[text_name()] == Json::Text(b.text));
}

/// The document of a table lists the output identifiers of the table and
/// no others.
pub proof fn lemma_table_json_lists_the_identifiers(table: Map<Seq<char>, EntryView>)
    ensures
        table_json(table).dom() == table.dom(),
{
    assert(table_json(table).dom() =~= table.dom());
}

} // verus!
