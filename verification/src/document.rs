//! The configuration document: a table of named values, each a text, a
//! list, a table in turn, or another scalar. The document is kept as the
//! TOML value that was parsed, and read and changed through the calls below;
//! contracts speak of its model.

use vstd::prelude::*;

verus! {

/// `toml::map::Map`, the table of a TOML document; `toml::Table` is this
/// map from `String` to `toml::Value`.
#[verifier::external_type_specification]
#[verifier::external_body]
#[verifier::reject_recursive_types(K)]
#[verifier::reject_recursive_types(V)]
pub struct ExTable<K, V>(toml::map::Map<K, V>);

/// `toml::Value`, a value of a TOML document.
#[verifier::external_type_specification]
#[verifier::external_body]
pub struct ExValue(toml::Value);

/// `toml::de::Error`, why a text is no TOML document.
#[verifier::external_type_specification]
#[verifier::external_body]
pub struct ExParseError(toml::de::Error);

/// `toml::ser::Error`, why a document cannot be written out.
#[verifier::external_type_specification]
#[verifier::external_body]
pub struct ExRenderError(toml::ser::Error);

/// What a value of the document is.
pub enum Node {
    /// A string.
    Text(Seq<char>),
    /// An array, in order.
    List(Seq<Node>),
    /// A table, by key.
    Section(Map<Seq<char>, Node>),
    /// An integer, a float, a boolean or a date.
    Scalar(toml::Value),
}

/// What the value `v` is.
pub uninterp spec fn value_model(v: toml::Value) -> Node;

/// What the table `t` holds under each of its keys.
pub uninterp spec fn table_model(t: toml::Table) -> Map<Seq<char>, Node>;

/// The document that `text` is read as, where it is well-formed TOML.
pub uninterp spec fn parsed_document(text: Seq<char>) -> Option<Map<Seq<char>, Node>>;

/// The text that a document is written out as, where it can be.
pub uninterp spec fn rendered_document(doc: Map<Seq<char>, Node>) -> Option<Seq<char>>;

/// The table without entries.
pub open spec fn empty_section() -> Map<Seq<char>, Node> {
    Map::empty()
}

/// What the values `items` are, one by one.
pub open spec fn list_model(items: Seq<toml::Value>) -> Seq<Node> {
    items.map_values(|v: toml::Value| value_model(v))
}

/// Calls `toml::from_str` for a `toml::Table`. The outcome is a function of
/// the text alone; the contract names it `parsed_document`.
#[verifier::external_body]
pub(crate) fn parse_document(text: &str) -> (r: Result<toml::Table, toml::de::Error>)
    ensures
        match r {
            Ok(t) => parsed_document(text@) == Some(table_model(t)),
            Err(_) => parsed_document(text@) is None,
        },
{
    toml::from_str::<toml::Table>(text)
}

/// Calls `toml::to_string_pretty` on a table. The outcome is a function of
/// what the table holds; the contract names it `rendered_document`.
#[verifier::external_body]
pub(crate) fn render_document(doc: &toml::Table) -> (r: Result<String, toml::ser::Error>)
    ensures
        match r {
            Ok(text) => rendered_document(table_model(*doc)) == Some(text@),
            Err(_) => rendered_document(table_model(*doc)) is None,
        },
{
    toml::to_string_pretty(doc)
}

/// Calls `toml::map::Map::new`, which makes a table without entries.
#[verifier::external_body]
pub(crate) fn table_new() -> (t: toml::Table)
    ensures
        table_model(t) == empty_section(),
{
    toml::Table::new()
}

/// Calls `toml::map::Map::get`: the value under `key`, if the table has
/// that key.
#[verifier::external_body]
pub(crate) fn table_get<'a>(t: &'a toml::Table, key: &str) -> (r: Option<&'a toml::Value>)
    ensures
        r.is_some() == table_model(*t).contains_key(key@),
        r matches Some(v) ==> value_model(*v) == table_model(*t)[key@],
{
    t.get(key)
}

/// Calls `toml::map::Map::insert`: afterwards the table holds `v` under
/// `key`, in place of what it held there before, and is otherwise as it was.
#[verifier::external_body]
pub(crate) fn table_insert(t: &mut toml::Table, key: String, v: toml::Value)
    ensures
        table_model(*final(t)) == table_model(*old(t)).insert(key@, value_model(v)),
{
    t.insert(key, v);
}

/// Calls `Clone::clone` of `toml::map::Map`: the copy holds what the table
/// holds.
#[verifier::external_body]
pub(crate) fn clone_table(t: &toml::Table) -> (r: toml::Table)
    ensures
        table_model(r) == table_model(*t),
{
    t.clone()
}

/// Calls `Clone::clone` of `toml::Value`: the copy is what the value is.
#[verifier::external_body]
pub(crate) fn clone_value(v: &toml::Value) -> (r: toml::Value)
    ensures
        value_model(r) == value_model(*v),
{
    v.clone()
}

/// Calls `toml::Value::as_str`: the text of a value that is a string.
#[verifier::external_body]
pub(crate) fn value_as_str<'a>(v: &'a toml::Value) -> (r: Option<&'a str>)
    ensures
        r.is_some() == (value_model(*v) is Text),
        r matches Some(s) ==> value_model(*v) == Node::Text(s@),
{
    v.as_str()
}

/// Calls `toml::Value::as_array`: the items of a value that is an array.
#[verifier::external_body]
pub(crate) fn value_as_array<'a>(v: &'a toml::Value) -> (r: Option<&'a Vec<toml::Value>>)
    ensures
        r.is_some() == (value_model(*v) is List),
        r matches Some(items) ==> value_model(*v) == Node::List(list_model(items@)),
{
    v.as_array()
}

/// Calls `toml::Value::as_table`: the table of a value that is one.
#[verifier::external_body]
pub(crate) fn value_as_table<'a>(v: &'a toml::Value) -> (r: Option<&'a toml::Table>)
    ensures
        r.is_some() == (value_model(*v) is Section),
        r matches Some(t) ==> value_model(*v) == Node::Section(table_model(*t)),
{
    v.as_table()
}

/// Builds the variant `String` of `toml::Value`.
#[verifier::external_body]
pub(crate) fn text_value(s: String) -> (v: toml::Value)
    ensures
        value_model(v) == Node::Text(s@),
{
    toml::Value::String(s)
}

/// Builds the variant `Array` of `toml::Value`.
#[verifier::external_body]
pub(crate) fn list_value(items: Vec<toml::Value>) -> (v: toml::Value)
    ensures
        value_model(v) == Node::List(list_model(items@)),
{
    toml::Value::Array(items)
}

/// Builds the variant `Table` of `toml::Value`.
#[verifier::external_body]
pub(crate) fn section_value(t: toml::Table) -> (v: toml::Value)
    ensures
        value_model(v) == Node::Section(table_model(t)),
{
    toml::Value::Table(t)
}

} // verus!
