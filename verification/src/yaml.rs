//! Reading YAML text into configuration values.
//!
//! The text is parsed by the `yaml_rust` crate. What that parser makes of a
//! text is not stated here: it has a name, `yaml_documents`, and everything
//! that this library does with the documents is stated over that name.

use vstd::prelude::*;
use yaml_rust::{ScanError, Yaml, YamlLoader};
use crate::config::Value;
use crate::error::{Error, ErrorView};

verus! {

/// A node of a YAML document, as `yaml_rust` holds it.
#[verifier::external_type_specification]
#[verifier::external_body]
pub struct ExYaml(yaml_rust::Yaml);

/// The error of `yaml_rust`'s scanner.
#[verifier::external_type_specification]
#[verifier::external_body]
pub struct ExScanError(yaml_rust::ScanError);

/// The documents that `yaml_rust` reads from a text, or `None` where it
/// rejects the text.
pub uninterp spec fn yaml_documents(text: Seq<char>) -> Option<Seq<Value>>;

/// The configuration value that a node of `yaml_rust` holds: the same
/// variant with the same content, a list item by item, and a hash entry by
/// entry in the order of insertion.
pub uninterp spec fn yaml_value(yaml: Yaml) -> Value;

/// The values that the nodes hold.
pub open spec fn yaml_values(nodes: Seq<Yaml>) -> Seq<Value> {
    Seq::new(nodes.len(), |i: int| yaml_value(nodes[i]))
}

/// Calls `YamlLoader::load_from_str`, which parses a text into its
/// documents. The contract only names the outcome: the nodes that come back
/// hold the documents of the text, and an error comes back exactly where
/// the text has none.
#[verifier::external_body]
fn load_from_str(text: &str) -> (r: Result<Vec<Yaml>, ScanError>)
    ensures
        match r {
            Ok(nodes) => yaml_documents(text@) == Some(yaml_values(nodes@)),
            Err(_) => yaml_documents(text@) is None,
        },
{
    YamlLoader::load_from_str(text)
}

/// Converts a node of `yaml_rust` to a configuration value, variant by
/// variant. The contract names the result, and `yaml_value` is defined by
/// it.
#[verifier::external_body]
fn value_of(yaml: Yaml) -> (value: Value)
    ensures
        value == yaml_value(yaml),
{
    match yaml {
        Yaml::Real(s) => Value::Real(s),
        Yaml::Integer(i) => Value::Integer(i),
        Yaml::String(s) => Value::Text(s),
        Yaml::Boolean(b) => Value::Boolean(b),
        Yaml::Array(a) => Value::Array(a.into_iter().map(value_of).collect()),
        Yaml::Hash(h) => Value::Hash(h.into_iter().map(|(k, v)| (value_of(k), value_of(v))).collect()),
        Yaml::Alias(n) => Value::Alias(n),
        Yaml::Null => Value::Null,
        Yaml::BadValue => Value::BadValue,
    }
}

/// Parses a YAML text into its documents.
pub fn load_documents(text: &str) -> (r: Result<Vec<Value>, Error>)
    ensures
        match yaml_documents(text@) {
            Some(documents) => r matches Ok(v) && v@ == documents,
            None => r matches Err(e) && e@ == ErrorView::Msg("Failed to parse YAML"@),
        },
{
    let nodes: Vec<Yaml> = match load_from_str(text) {
        Ok(nodes) => nodes,
        Err(_) => {
            return Err(Error::msg("Failed to parse YAML"));
        },
    };
    let ghost all = nodes@;
    let mut documents: Vec<Value> = Vec::new();
    for node in it: nodes.into_iter()
        invariant
            it.seq() == all,
            documents@ == yaml_values(all.take(it.index() as int)),
    {
        let ghost before = documents@;
        documents.push(value_of(node));
        assert(documents@ =~= yaml_values(all.take(it.index() + 1)));
    }
    assert(all.take(all.len() as int) =~= all);
    Ok(documents)
}

} // verus!
