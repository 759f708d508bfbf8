//! Reading the package name and version string out of the manifest text.
use vstd::prelude::*;

use crate::error::VersionInfoError;

verus! {

/// The shape of a TOML value as far as reading a manifest needs it: strings
/// and tables are told apart from everything else.
pub enum TomlTree {
    Str(Seq<char>),
    Table(Map<Seq<char>, TomlTree>),
    Other,
}

#[verifier::external_type_specification]
#[verifier::external_body]
pub struct ExTomlValue(toml::Value);

/// The top-level table that `toml::Parser` reads from `text`, or `None` when
/// `text` is not valid TOML.
pub uninterp spec fn toml_document(text: Seq<char>) -> Option<Map<Seq<char>, TomlTree>>;

/// The shape of a `toml::Value`.
pub uninterp spec fn toml_tree(v: toml::Value) -> TomlTree;

/// Parses manifest text.
/// Relies on `toml::Parser::parse`, which returns the top-level table, or
/// `None` on a syntax error; the table is handed back as a table value.
#[verifier::external_body]
fn parse_toml(text: &str) -> (r: Option<toml::Value>)
    ensures
        r is Some <==> toml_document(text@) is Some,
        r matches Some(v) ==> toml_tree(v) == TomlTree::Table(toml_document(text@)->0),
{
    toml::Parser::new(text).parse().map(toml::Value::Table)
}

/// The entry under `key` of a table value.
/// Relies on `toml::Value::as_table` (`Some` exactly for a table) and on the
/// table's `BTreeMap::get` (the value stored under an equal key).
#[verifier::external_body]
fn table_entry<'a>(v: &'a toml::Value, key: &str) -> (r: Option<&'a toml::Value>)
    ensures
        match toml_tree(*v) {
            TomlTree::Table(m) => {
                &&& (r is Some <==> m.contains_key(key@))
                &&& (r matches Some(e) ==> toml_tree(*e) == m[key@])
            },
            _ => r is None,
        },
{
    match v.as_table() {
        Some(t) => t.get(key),
        None => None,
    }
}

/// Relies on `toml::Value::as_str`: the string held by a string value, and
/// `None` for a value of any other kind.
pub assume_specification<'a>[ toml::Value::as_str ](v: &'a toml::Value) -> (r: Option<&'a str>)
    ensures
        r is Some <==> toml_tree(*v) is Str,
        r matches Some(s) ==> toml_tree(*v) == TomlTree::Str(s@),
;

/// The entry under `key` of table `t`, if it is itself a table.
pub open spec fn table_field(t: TomlTree, key: Seq<char>) -> Option<TomlTree> {
    match t {
        TomlTree::Table(m) => if m.contains_key(key) && m[key] is Table {
            Some(m[key])
        } else {
            None
        },
        _ => None,
    }
}

/// The entry under `key` of table `t`, if it is a string.
pub open spec fn string_field(t: TomlTree, key: Seq<char>) -> Option<Seq<char>> {
    match t {
        TomlTree::Table(m) => if m.contains_key(key) && m[key] is Str {
            Some(m[key]->Str_0)
        } else {
            None
        },
        _ => None,
    }
}

/// `(package.name, package.version)` of a parsed manifest, or `Schema` when
/// `package` is not a table or either field is missing or not a string.
pub open spec fn manifest_fields(doc: TomlTree) -> Result<(Seq<char>, Seq<char>), VersionInfoError> {
    match table_field(doc, "package"@) {
        Some(p) => match (string_field(p, "name"@), string_field(p, "version"@)) {
            (Some(n), Some(v)) => Ok((n, v)),
            _ => Err(VersionInfoError::Schema),
        },
        None => Err(VersionInfoError::Schema),
    }
}

/// What reading manifest `text` gives: `ManifestParse` when it is not valid
/// TOML, else its package fields.
pub open spec fn manifest_outcome(text: Seq<char>) -> Result<
    (Seq<char>, Seq<char>),
    VersionInfoError,
> {
    match toml_document(text) {
        Some(m) => manifest_fields(TomlTree::Table(m)),
        None => Err(VersionInfoError::ManifestParse),
    }
}

/// The package name and version string that a manifest declares.
pub struct ManifestInfo {
    pub name: String,
    pub version: String,
}

impl View for ManifestInfo {
    type V = (Seq<char>, Seq<char>);

    open spec fn view(&self) -> (Seq<char>, Seq<char>) {
        (self.name@, self.version@)
    }
}

/// Whether `r` is the outcome `o`, comparing the fields by their text.
pub open spec fn info_matches(
    r: Result<ManifestInfo, VersionInfoError>,
    o: Result<(Seq<char>, Seq<char>), VersionInfoError>,
) -> bool {
    match r {
        Ok(i) => o == Ok::<(Seq<char>, Seq<char>), VersionInfoError>(i@),
        Err(e) => o == Err::<(Seq<char>, Seq<char>), VersionInfoError>(e),
    }
}

/// Reads `package.name` and `package.version` from a parsed manifest.
pub fn package_info(doc: &toml::Value) -> (r: Result<ManifestInfo, VersionInfoError>)
    ensures
        info_matches(r, manifest_fields(toml_tree(*doc))),
{
    let package = match table_entry(doc, "package") {
        Some(p) => p,
        None => return Err(VersionInfoError::Schema),
    };
    let name = match table_entry(package, "name") {
        Some(v) => v.as_str(),
        None => None,
    };
    let version = match table_entry(package, "version") {
        Some(v) => v.as_str(),
        None => None,
    };
    match (name, version) {
        (Some(n), Some(v)) => Ok(ManifestInfo { name: n.to_owned(), version: v.to_owned() }),
        _ => Err(VersionInfoError::Schema),
    }
}

/// Reads `package.name` and `package.version` from manifest text.
pub fn read_infos(text: &str) -> (r: Result<ManifestInfo, VersionInfoError>)
    ensures
        info_matches(r, manifest_outcome(text@)),
{
    match parse_toml(text) {
        Some(doc) => package_info(&doc),
        None => Err(VersionInfoError::ManifestParse),
    }
}

} // verus!
