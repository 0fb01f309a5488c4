//! Format-preserving access to TOML documents, through `toml_edit`.
//!
//! The document stays opaque; the library sees the member list of a
//! workspace section and the entries of a dependencies table, and knows of
//! the rest of the text that its edits keep it.
use toml_edit::DocumentMut;
use toml_edit::TomlError;
use vstd::prelude::*;

verus! {

#[verifier::external_type_specification]
#[verifier::external_body]
pub struct ExDocumentMut(DocumentMut);

#[verifier::external_type_specification]
#[verifier::external_body]
pub struct ExTomlError(TomlError);

/// The value of a dependency entry, in the shapes this library writes.
pub enum DepValue {
    /// `name = "<text>"`
    Text(String),
    /// `name = { <field> = "<text>" }`
    Field(String, String),
    /// `name = { <field> = <flag> }`
    Flag(String, bool),
}

/// What an entry of a dependencies table holds, as far as this library
/// reads it: a string; a table (inline or not) whose one entry `field` is a
/// string or a boolean; anything else.
pub ghost enum DepShape {
    Text(Seq<char>),
    Field(Seq<char>, Seq<char>),
    Flag(Seq<char>, bool),
    Other,
}

impl DepValue {
    pub open spec fn shape(&self) -> DepShape {
        match self {
            DepValue::Text(t) => DepShape::Text(t@),
            DepValue::Field(f, t) => DepShape::Field(f@, t@),
            DepValue::Flag(f, b) => DepShape::Flag(f@, *b),
        }
    }
}

/// The parts of a TOML document that this library reads or keeps.
pub ghost struct TomlView {
    /// The entries of `workspace.members`, in order: `Some` for a string,
    /// `None` for any other value; `None` as a whole when there is no such array.
    pub members: Option<Seq<Option<Seq<char>>>>,
    /// The entries of the root `dependencies` table by name; empty when there
    /// is no such key, `None` when that key holds something other than a table.
    pub dependencies: Option<Map<Seq<char>, DepShape>>,
    /// The root `dependencies` table is one that the text writes out: an
    /// inline table, or a table with a header or with entries of its own
    /// (not one implied only by `[dependencies.x]` headers).
    pub dependencies_shown: bool,
    /// The text the document renders to, with the elements of the
    /// `workspace.members` array left out, together with their separators
    /// and any trailing comma (its brackets, inner trailing space and
    /// everything else kept).
    pub outside_members: Seq<char>,
    /// For a name, the text the document renders to with the entry under that
    /// name in the `dependencies` table (key, value and separator) left out.
    pub outside_dependency: spec_fn(Seq<char>) -> Seq<char>,
}

/// What a document holds, as far as this library reads it.
pub uninterp spec fn doc_view(d: DocumentMut) -> TomlView;

/// What parsing `text` gives, as far as this library reads it; `None` when
/// the text is not a TOML document.
pub uninterp spec fn parsed(text: Seq<char>) -> Option<TomlView>;

pub open spec fn members_of(d: DocumentMut) -> Option<Seq<Option<Seq<char>>>> {
    doc_view(d).members
}

pub open spec fn dependencies_of(d: DocumentMut) -> Option<Map<Seq<char>, DepShape>> {
    doc_view(d).dependencies
}

/// Declaring the same dependency twice gives the table of declaring it once:
/// one entry under its name, with that value.
pub proof fn lemma_link_twice_single_entry(e: Map<Seq<char>, DepShape>, key: Seq<char>, v: DepShape)
    ensures
        e.insert(key, v).insert(key, v) == e.insert(key, v),
        e.insert(key, v).dom().contains(key),
        e.insert(key, v)[key] == v,
{
    assert(e.insert(key, v).insert(key, v) =~= e.insert(key, v));
}

/// Whether a member entry survives the removal of `name`.
pub open spec fn keeps_member(entry: Option<Seq<char>>, name: Seq<char>) -> bool {
    entry != Some(name)
}

/// Decides, for `Array::retain`, whether a member entry stays.
pub fn keep_entry(entry: Option<&str>, name: &str) -> (r: bool)
    ensures
        r == keeps_member(
            match entry {
                Some(s) => Some(s@),
                None => None,
            },
            name@,
        ),
{
    match entry {
        Some(s) => {
            let a = String::from_str(s);
            let b = String::from_str(name);
            !(a == b)
        },
        None => true,
    }
}

/// Relies on `DocumentMut`'s `FromStr`: it fails exactly on text that is
/// not TOML.
#[verifier::external_body]
pub(crate) fn parse_document(text: &str) -> (r: Result<DocumentMut, TomlError>)
    ensures
        r is Ok <==> parsed(text@) is Some,
        r matches Ok(d) ==> parsed(text@) == Some(doc_view(d)),
{
    text.parse::<DocumentMut>()
}

/// Relies on `DocumentMut`'s `Display`: it renders the document as TOML
/// text that parses back to the same content, and parsing keeps the text
/// (so what is left outside the members or a dependency entry is kept). The
/// order of the dependency entries is not claimed.
#[verifier::external_body]
pub(crate) fn render_document(d: &DocumentMut) -> (r: String)
    ensures
        parsed(r@) == Some(doc_view(*d)),
{
    d.to_string()
}

/// Relies on `Table::get`, `Item::get`, `Item::as_array` and `Value::as_str`
/// of toml_edit to read `workspace.members` as plain values.
#[verifier::external_body]
pub(crate) fn member_entries(d: &DocumentMut) -> (r: Option<Vec<Option<String>>>)
    ensures
        r is Some <==> members_of(*d) is Some,
        r matches Some(v) ==> v@.len() == members_of(*d)->0.len() && forall|i: int|
            0 <= i < v@.len() ==> (match #[trigger] v@[i] {
                Some(s) => Some(s@),
                None => None,
            }) == members_of(*d)->0[i],
{
    let members = d.get("workspace").and_then(|w| w.get("members")).and_then(|m| m.as_array());
    members.map(|a| a.iter().map(|v| v.as_str().map(String::from)).collect())
}

/// Relies on `Array::retain` of toml_edit: it visits each member entry once
/// and keeps, in order, those for which `keep_entry` holds; the rest of the
/// document is untouched.
#[verifier::external_body]
pub(crate) fn retain_members(d: &mut DocumentMut, name: &str)
    requires
        members_of(*old(d)) is Some,
    ensures
        members_of(*final(d)) == Some(
            members_of(*old(d))->0.filter(|e: Option<Seq<char>>| keeps_member(e, name@)),
        ),
        doc_view(*final(d)).dependencies == doc_view(*old(d)).dependencies,
        doc_view(*final(d)).dependencies_shown == doc_view(*old(d)).dependencies_shown,
        doc_view(*final(d)).outside_members == doc_view(*old(d)).outside_members,
{
    let members = d.get_mut("workspace").and_then(|w| w.get_mut("members"));
    if let Some(a) = members.and_then(|m| m.as_array_mut()) {
        a.retain(|v| keep_entry(v.as_str(), name));
    }
}

/// Relies on `Table::entry`, `Entry::or_insert`, `Item::as_table_like_mut`
/// and `TableLike::insert` of toml_edit: a missing `dependencies` table is
/// created; an entry under `name` is overwritten, else added. Only that
/// entry changes in the rendering of a table that was already written out.
/// When `dependencies` holds something other than a table, nothing changes.
#[verifier::external_body]
pub(crate) fn insert_dependency(d: &mut DocumentMut, name: &str, v: &DepValue) -> (ok: bool)
    ensures
        ok == (dependencies_of(*old(d)) is Some),
        ok ==> dependencies_of(*final(d)) == Some(
            dependencies_of(*old(d))->0.insert(name@, v.shape()),
        ),
        ok ==> members_of(*final(d)) == members_of(*old(d)),
        ok && doc_view(*old(d)).dependencies_shown ==> (doc_view(*final(d)).outside_dependency)(
            name@,
        ) == (doc_view(*old(d)).outside_dependency)(name@),
        !ok ==> *final(d) == *old(d),
{
    let item = match v {
        DepValue::Text(t) => toml_edit::value(t.as_str()),
        DepValue::Field(f, t) => toml_edit::value(toml_edit::InlineTable::from_iter([(f.as_str(), t.as_str())])),
        DepValue::Flag(f, b) => toml_edit::value(toml_edit::InlineTable::from_iter([(f.as_str(), *b)])),
    };
    match d.entry("dependencies").or_insert(toml_edit::table()).as_table_like_mut() {
        Some(t) => {
            t.insert(name, item);
            true
        },
        None => false,
    }
}

/// Relies on `Table::get`, `Item::as_table_like` and `TableLike::iter` of
/// toml_edit to read the keys of the root `dependencies` item: `None` when
/// there is no such key, `Some(None)` when it is not a table. A table's keys
/// are distinct.
#[verifier::external_body]
pub(crate) fn dependency_item_keys(d: &DocumentMut) -> (r: Option<Option<Vec<String>>>)
    ensures
        r matches Some(None) <==> dependencies_of(*d) is None,
        r matches Some(Some(v)) ==> v@.map_values(|s: String| s@).to_set() == dependencies_of(
            *d,
        )->0.dom() && v@.map_values(|s: String| s@).no_duplicates(),
        r is None ==> dependencies_of(*d) == Some(Map::<Seq<char>, DepShape>::empty()),
{
    d.get("dependencies").map(|item| item.as_table_like().map(|t| t.iter().map(|(k, _)| k.to_string()).collect()))
}

/// The member list that a descriptor text declares: `None` when the text is
/// not TOML or has no `workspace.members` array; non-string entries are `None`.
pub fn descriptor_members(text: &str) -> (r: Option<Vec<Option<String>>>)
    ensures
        r is Some <==> (parsed(text@) matches Some(v) && v.members is Some),
        r matches Some(m) ==> m@.len() == parsed(text@)->0.members->0.len() && forall|i: int|
            0 <= i < m@.len() ==> (match #[trigger] m@[i] {
                Some(s) => Some(s@),
                None => None,
            }) == parsed(text@)->0.members->0[i],
{
    match parse_document(text) {
        Ok(d) => member_entries(&d),
        Err(_) => None,
    }
}

/// The names under the `dependencies` table of a manifest text, each once:
/// `None` when the text is not TOML or `dependencies` is not a table.
pub fn dependency_names(text: &str) -> (r: Option<Vec<String>>)
    ensures
        r is Some <==> (parsed(text@) matches Some(v) && v.dependencies is Some),
        r matches Some(n) ==> n@.map_values(|s: String| s@).to_set()
            == parsed(text@)->0.dependencies->0.dom(),
        r matches Some(n) ==> n@.map_values(|s: String| s@).no_duplicates(),
{
    match parse_document(text) {
        Ok(d) => match dependency_item_keys(&d) {
            None => {
                let v: Vec<String> = Vec::new();
                assert(v@.map_values(|s: String| s@).to_set() =~= Set::empty());
                assert(v@.map_values(|s: String| s@) =~= Seq::empty());
                Some(v)
            },
            Some(keys) => keys,
        },
        Err(_) => None,
    }
}

} // verus!
