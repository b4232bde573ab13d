use vstd::prelude::*;
use vstd::string::StringSliceAdditionalSpecFns;
use yaml_rust::{Yaml, YamlLoader};

verus! {

#[verifier::external_type_specification]
#[verifier::external_body]
pub struct ExYaml(Yaml);

#[verifier::external_type_specification]
#[verifier::external_body]
pub struct ExScanError(yaml_rust::ScanError);

/// A node of a YAML document, as the YAML loader builds it.
pub enum YamlNode {
    /// A float, kept as its text.
    Real(String),
    Integer(i64),
    /// A string scalar.
    Str(String),
    Boolean(bool),
    Array(Vec<YamlNode>),
    /// A mapping, as its entries in document order; no two keys are equal.
    Hash(Vec<(YamlNode, YamlNode)>),
    Alias(usize),
    Null,
    BadValue,
}

/// The longest line, in bytes, that the loader is given.
pub const MAX_LINE_BYTES: usize = 1000;

/// The number of bytes since the last line feed before position `i`.
pub open spec fn line_run(bytes: Seq<u8>, i: int) -> nat
    decreases i,
{
    if i <= 0 {
        0
    } else if bytes[i - 1] == 10u8 {
        0
    } else {
        line_run(bytes, i - 1) + 1
    }
}

/// No line of the text is longer than `width` bytes.
pub open spec fn lines_within(bytes: Seq<u8>, width: nat) -> bool {
    forall|i: int| 0 <= i <= bytes.len() ==> #[trigger] line_run(bytes, i) <= width
}

/// The text holds a `*`, the mark of a YAML alias.
pub open spec fn has_alias_mark(bytes: Seq<u8>) -> bool {
    exists|k: int| 0 <= k < bytes.len() && bytes[k] == 42u8
}

/// Text on which the loader's recursion stays shallow: block nesting needs a
/// deeper column for each level, so short lines bound it, the loader itself
/// caps flow nesting, and without aliases no node is copied into another.
pub open spec fn within_loader_bounds(bytes: Seq<u8>) -> bool {
    lines_within(bytes, MAX_LINE_BYTES as nat) && !has_alias_mark(bytes)
}

/// The documents that YAML text holds, or `None` where the text is no YAML.
pub uninterp spec fn yaml_documents(text: Seq<char>) -> Option<Seq<YamlNode>>;

/// Relies on `yaml_rust::YamlLoader::load_from_str`: it either returns the
/// documents of the text or rejects the text with a `ScanError`, and which of
/// the two depends on the text alone. Its parser and loader recurse once per
/// level of nesting, so the text is held to `within_loader_bounds`.
#[verifier::external_body]
pub(crate) fn load_documents(text: &str) -> (r: Result<Vec<YamlNode>, yaml_rust::ScanError>)
    requires
        within_loader_bounds(text.spec_bytes()),
    ensures
        match r {
            Ok(docs) => yaml_documents(text@) == Some(docs@),
            Err(_) => yaml_documents(text@) is None,
        },
{
    YamlLoader::load_from_str(text).map(|docs| docs.into_iter().map(node_from).collect())
}

/// Moves a `yaml_rust::Yaml` value into a `YamlNode`, variant for variant,
/// for `load_documents`.
#[verifier::external_body]
fn node_from(y: Yaml) -> YamlNode {
    match y {
        Yaml::Real(s) => YamlNode::Real(s),
        Yaml::Integer(i) => YamlNode::Integer(i),
        Yaml::String(s) => YamlNode::Str(s),
        Yaml::Boolean(b) => YamlNode::Boolean(b),
        Yaml::Array(a) => YamlNode::Array(a.into_iter().map(node_from).collect()),
        Yaml::Hash(h) => YamlNode::Hash(h.into_iter().map(|(k, v)| (node_from(k), node_from(v))).collect()),
        Yaml::Alias(n) => YamlNode::Alias(n),
        Yaml::Null => YamlNode::Null,
        Yaml::BadValue => YamlNode::BadValue,
    }
}

} // verus!
