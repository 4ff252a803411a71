//! YAML documents as plain values, and the YAML loader that reads them.

use vstd::prelude::*;

verus! {

#[verifier::external_type_specification]
#[verifier::external_body]
pub struct ExYaml(yaml_rust::Yaml);

/// A YAML node, variant for variant as the loader builds it: scalars, the
/// items of an array, and the entries of a mapping in document order.
pub enum YamlNode {
    /// A float, kept as written.
    Real(String),
    /// An integer.
    Integer(i64),
    /// A string scalar.
    String(String),
    /// A boolean.
    Boolean(bool),
    /// A sequence of nodes.
    Array(Vec<YamlNode>),
    /// A mapping, as its (key, value) entries in document order.
    Hash(Vec<(YamlNode, YamlNode)>),
    /// An alias.
    Alias(usize),
    /// `null` or `~`.
    Null,
    /// What looking up a missing key gives.
    BadValue,
}

/// The documents of a YAML text, as the loader reads them (`None` when the
/// text is not YAML).
pub uninterp spec fn yaml_documents(text: Seq<char>) -> Option<Seq<YamlNode>>;

/// A loaded node as plain values, one variant for one variant, arrays item
/// for item and mappings entry for entry in their order.
#[verifier::external_body]
fn node_of(yaml: yaml_rust::Yaml) -> YamlNode {
    match yaml {
        yaml_rust::Yaml::Real(s) => YamlNode::Real(s),
        yaml_rust::Yaml::Integer(i) => YamlNode::Integer(i),
        yaml_rust::Yaml::String(s) => YamlNode::String(s),
        yaml_rust::Yaml::Boolean(b) => YamlNode::Boolean(b),
        yaml_rust::Yaml::Array(items) => YamlNode::Array(items.into_iter().map(node_of).collect()),
        yaml_rust::Yaml::Hash(h) => YamlNode::Hash(h.into_iter().map(|(k, v)| (node_of(k), node_of(v))).collect()),
        yaml_rust::Yaml::Alias(a) => YamlNode::Alias(a),
        yaml_rust::Yaml::Null => YamlNode::Null,
        yaml_rust::Yaml::BadValue => YamlNode::BadValue,
    }
}

/// `yaml_rust::YamlLoader::load_from_str`: the documents of a YAML text, or
/// `None` when the scanner rejects it. The result is named; what it holds for
/// a given text is left to the loader.
#[verifier::external_body]
pub(crate) fn load_yaml(text: &str) -> (r: Option<Vec<YamlNode>>)
    ensures
        match r {
            Some(docs) => yaml_documents(text@) == Some(docs@),
            None => yaml_documents(text@) is None,
        },
{
    match yaml_rust::YamlLoader::load_from_str(text) {
        Ok(docs) => Some(docs.into_iter().map(node_of).collect()),
        Err(_) => None,
    }
}

/// The value of the first entry whose key is the string `key`, or `BadValue`.
pub open spec fn entry_value(entries: Seq<(YamlNode, YamlNode)>, key: Seq<char>) -> YamlNode
    decreases entries.len(),
{
    if entries.len() == 0 {
        YamlNode::BadValue
    } else {
        match entries[0].0 {
            YamlNode::String(k) if k@ == key => entries[0].1,
            _ => entry_value(entries.drop_first(), key),
        }
    }
}

/// `node[key]`: the value under the string `key` of a mapping; `BadValue`
/// when the key is missing or the node is no mapping.
pub open spec fn yaml_index(node: YamlNode, key: Seq<char>) -> YamlNode {
    match node {
        YamlNode::Hash(entries) => entry_value(entries@, key),
        _ => YamlNode::BadValue,
    }
}

/// The text of a string node.
pub open spec fn yaml_str(node: YamlNode) -> Option<Seq<char>> {
    match node {
        YamlNode::String(s) => Some(s@),
        _ => None,
    }
}

impl YamlNode {
    /// The value under the string `key`, when this is a mapping that has it.
    pub fn get(&self, key: &str) -> (r: Option<&YamlNode>)
        ensures
            match r {
                Some(v) => *v == yaml_index(*self, key@),
                None => yaml_index(*self, key@) == YamlNode::BadValue,
            },
    {
        match self {
            YamlNode::Hash(entries) => {
                let wanted = key.to_owned();
                let mut i: usize = 0;
                assert(entries@.skip(0) =~= entries@);
                while i < entries.len()
                    invariant
                        0 <= i <= entries@.len(),
                        wanted@ == key@,
                        *self == YamlNode::Hash(*entries),
                        entry_value(entries@, key@) == entry_value(entries@.skip(i as int), key@),
                    decreases entries@.len() - i,
                {
                    let ghost rest = entries@.skip(i as int);
                    assert(rest.drop_first() =~= entries@.skip(i + 1));
                    assert(rest[0] == entries@[i as int]);
                    let (k, v) = &entries[i];
                    if let YamlNode::String(s) = k {
                        if *s == wanted {
                            return Some(v);
                        }
                    }
                    i = i + 1;
                }
                None
            },
            _ => None,
        }
    }

    /// The text of a string node.
    pub fn as_str(&self) -> (r: Option<&str>)
        ensures
            match r {
                Some(s) => yaml_str(*self) == Some(s@),
                None => yaml_str(*self) is None,
            },
    {
        match self {
            YamlNode::String(s) => Some(s.as_str()),
            _ => None,
        }
    }
}

} // verus!
