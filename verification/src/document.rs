//! TOML documents, as far as settings and manifests are read from them.
//!
//! Parsing is the `toml` crate's work. Its tables and values stay opaque; what they hold is
//! named here by [`Node`], and [`Entry`] carries the part of a value that the rules for
//! settings look at as plain data.

use crate::text::copy_text;
use vstd::prelude::*;

verus! {

/// `toml::map::Map`, the type behind `toml::Table`.
#[verifier::external_type_specification]
#[verifier::external_body]
#[verifier::reject_recursive_types(K)]
#[verifier::reject_recursive_types(V)]
pub struct ExTomlMap<K, V>(toml::map::Map<K, V>);

/// `toml::Value`.
#[verifier::external_type_specification]
#[verifier::external_body]
pub struct ExTomlValue(toml::Value);

/// What kind of thing a TOML value is.
pub enum Shape {
    Text(Seq<char>),
    Flag(bool),
    Table(Map<Seq<char>, Node>),
    Other,
}

/// What a TOML value holds: its shape, and what `{:?}` prints of it.
pub struct Node {
    pub shape: Shape,
    pub rendered: Seq<char>,
}

/// What the `toml` crate makes of a text: the entries of the document's root table, or the
/// message of the error it reports.
pub uninterp spec fn parsed_document(text: Seq<char>) -> Result<Map<Seq<char>, Node>, Seq<char>>;

/// The entries of a `toml::Table`.
pub uninterp spec fn table_nodes(table: toml::Table) -> Map<Seq<char>, Node>;

/// What a `toml::Value` holds.
pub uninterp spec fn value_node(value: toml::Value) -> Node;

/// `str::parse::<toml::Table>`: parsing depends on the text alone. An error is handed on as
/// the message it displays.
#[verifier::external_body]
pub(crate) fn parse_table(text: &str) -> (r: Result<toml::Table, String>)
    ensures
        match r {
            Ok(table) => parsed_document(text@) == Ok::<Map<Seq<char>, Node>, Seq<char>>(
                table_nodes(table),
            ),
            Err(message) => parsed_document(text@) == Err::<Map<Seq<char>, Node>, Seq<char>>(
                message@,
            ),
        },
{
    text.parse::<toml::Table>().map_err(|e| e.to_string())
}

/// `toml::map::Map::get`: the value stored under a key, if there is one.
#[verifier::external_body]
pub(crate) fn table_get<'a>(table: &'a toml::Table, key: &str) -> (r: Option<&'a toml::Value>)
    ensures
        r is Some <==> table_nodes(*table).contains_key(key@),
        r matches Some(value) ==> value_node(*value) == table_nodes(*table)[key@],
{
    table.get(key)
}

/// `toml::Value::get` with a text index: looks into a table, and finds nothing in any other
/// kind of value.
#[verifier::external_body]
pub(crate) fn value_get<'a>(value: &'a toml::Value, key: &str) -> (r: Option<&'a toml::Value>)
    ensures
        r is Some <==> (value_node(*value).shape matches Shape::Table(nodes) && nodes.contains_key(
            key@,
        )),
        r matches Some(inner) ==> value_node(*inner) == value_node(*value).shape->Table_0[key@],
{
    value.get(key)
}

/// `toml::Value::as_str`: the text of a text value, nothing for any other.
#[verifier::external_body]
pub(crate) fn value_text(value: &toml::Value) -> (r: Option<&str>)
    ensures
        r is Some <==> value_node(*value).shape is Text,
        r matches Some(text) ==> value_node(*value).shape == Shape::Text(text@),
{
    value.as_str()
}

/// `toml::Value::as_bool`: the truth value of a boolean, nothing for any other value.
#[verifier::external_body]
pub(crate) fn value_flag(value: &toml::Value) -> (r: Option<bool>)
    ensures
        r is Some <==> value_node(*value).shape is Flag,
        r matches Some(flag) ==> value_node(*value).shape == Shape::Flag(flag),
{
    value.as_bool()
}

/// `toml::Value` under `{:?}`, which depends on the value alone.
#[verifier::external_body]
pub(crate) fn value_rendered(value: &toml::Value) -> (r: String)
    ensures
        r@ == value_node(*value).rendered,
{
    format!("{value:?}")
}

/// The part of a value that the rules for settings look at.
#[derive(Debug, Clone, PartialEq, Eq)]
pub enum Held {
    Text(String),
    Flag(bool),
    Other,
}

/// One entry of a settings file: its value, and what `{:?}` prints of it.
#[derive(Debug, Clone, PartialEq, Eq)]
pub struct Entry {
    pub value: Held,
    pub rendered: String,
}

/// A [`Held`] as contracts see it.
#[verifier::ext_equal]
pub enum HeldView {
    Text(Seq<char>),
    Flag(bool),
    Other,
}

/// An [`Entry`] as contracts see it.
#[verifier::ext_equal]
pub struct EntryView {
    pub value: HeldView,
    pub rendered: Seq<char>,
}

impl View for Held {
    type V = HeldView;

    open spec fn view(&self) -> HeldView {
        match self {
            Held::Text(text) => HeldView::Text(text@),
            Held::Flag(flag) => HeldView::Flag(*flag),
            Held::Other => HeldView::Other,
        }
    }
}

impl View for Entry {
    type V = EntryView;

    open spec fn view(&self) -> EntryView {
        EntryView { value: self.value@, rendered: self.rendered@ }
    }
}

/// An entry that may be missing, as contracts see it.
pub open spec fn entry_view(entry: Option<Entry>) -> Option<EntryView> {
    match entry {
        Some(e) => Some(e@),
        None => None,
    }
}

/// The plain form of what a value holds.
pub open spec fn plain(node: Node) -> EntryView {
    EntryView {
        value: match node.shape {
            Shape::Text(text) => HeldView::Text(text),
            Shape::Flag(flag) => HeldView::Flag(flag),
            _ => HeldView::Other,
        },
        rendered: node.rendered,
    }
}

/// The entry under a key of a document's root table, if there is one.
pub open spec fn entry_at(nodes: Map<Seq<char>, Node>, key: Seq<char>) -> Option<EntryView> {
    if nodes.contains_key(key) {
        Some(plain(nodes[key]))
    } else {
        None
    }
}

/// Reads the entry under a key.
pub(crate) fn entry(table: &toml::Table, key: &str) -> (r: Option<Entry>)
    ensures
        entry_view(r) == entry_at(table_nodes(*table), key@),
{
    match table_get(table, key) {
        None => None,
        Some(found) => {
            let rendered = value_rendered(found);
            let value = match value_text(found) {
                Some(text) => Held::Text(copy_text(text)),
                None => match value_flag(found) {
                    Some(flag) => Held::Flag(flag),
                    None => Held::Other,
                },
            };
            Some(Entry { value, rendered })
        },
    }
}

/// An entry is there exactly where the document has its key, and carries the text of a text, the
/// truth value of a boolean, and nothing of any other value but how it is printed.
pub proof fn law_entries_follow_the_document(nodes: Map<Seq<char>, Node>, key: Seq<char>)
    ensures
        entry_at(nodes, key) is Some <==> nodes.contains_key(key),
        entry_at(nodes, key) matches Some(e) ==> {
            &&& e.rendered == nodes[key].rendered
            &&& nodes[key].shape matches Shape::Text(text) ==> e.value == HeldView::Text(text)
            &&& nodes[key].shape matches Shape::Flag(flag) ==> e.value == HeldView::Flag(flag)
            &&& nodes[key].shape is Table || nodes[key].shape is Other ==> e.value
                == HeldView::Other
        },
{
}

/// An entry is seen as what it holds.
pub proof fn law_entries_are_seen_as_they_are(found: Option<Entry>)
    ensures
        found is None ==> entry_view(found) is None,
        found matches Some(e) ==> (entry_view(found) matches Some(seen) && seen.rendered
            == e.rendered@ && match e.value {
            Held::Text(text) => seen.value == HeldView::Text(text@),
            Held::Flag(flag) => seen.value == HeldView::Flag(flag),
            Held::Other => seen.value == HeldView::Other,
        }),
{
}

} // verus!
