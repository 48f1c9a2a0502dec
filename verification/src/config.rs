//! Configuration values and the rules for reading settings from them.
//!
//! A configuration is a dictionary from setting names to values. Reading a
//! setting takes it out of the dictionary, so that what is left at the end
//! is what nobody asked for.

use vstd::prelude::*;
use vstd::string::*;
use crate::error::{Error, ErrorView};
use crate::text::str_eq;
use crate::yaml::{load_documents, yaml_documents};

verus! {

/// A value of a configuration document.
#[derive(Debug, PartialEq, Eq)]
pub enum Value {
    /// A number with a fraction, kept as it was written.
    Real(String),
    /// A whole number.
    Integer(i64),
    /// A text.
    Text(String),
    /// A truth value.
    Boolean(bool),
    /// A list of values.
    Array(Vec<Value>),
    /// A dictionary, as its entries in the order in which they were written.
    Hash(Vec<(Value, Value)>),
    /// A reference to another node.
    Alias(usize),
    /// No value.
    Null,
    /// The result of an invalid access.
    BadValue,
}

impl Value {
    /// The whole number that the value is, if it is one.
    pub open spec fn as_integer(self) -> Option<i64> {
        match self {
            Value::Integer(i) => Some(i),
            _ => None,
        }
    }

    /// The written form of the number with a fraction that the value is, if
    /// it is one.
    pub open spec fn as_real(self) -> Option<String> {
        match self {
            Value::Real(s) => Some(s),
            _ => None,
        }
    }

    /// The text that the value is, if it is one.
    pub open spec fn as_text(self) -> Option<String> {
        match self {
            Value::Text(s) => Some(s),
            _ => None,
        }
    }

    /// The truth value that the value is, if it is one.
    pub open spec fn as_boolean(self) -> Option<bool> {
        match self {
            Value::Boolean(b) => Some(b),
            _ => None,
        }
    }

    /// The items of the list that the value is, if it is one.
    pub open spec fn as_array(self) -> Option<Vec<Value>> {
        match self {
            Value::Array(a) => Some(a),
            _ => None,
        }
    }

    /// The entries of the dictionary that the value is, if it is one.
    pub open spec fn as_hash(self) -> Option<Vec<(Value, Value)>> {
        match self {
            Value::Hash(h) => Some(h),
            _ => None,
        }
    }

    /// The whole number that the value is, if it is one.
    pub fn into_i64(self) -> (r: Option<i64>)
        ensures
            r == self.as_integer(),
    {
        match self {
            Value::Integer(i) => Some(i),
            _ => None,
        }
    }

    /// The written form of the number with a fraction that the value is, if
    /// it is one.
    pub fn into_real(self) -> (r: Option<String>)
        ensures
            r == self.as_real(),
    {
        match self {
            Value::Real(s) => Some(s),
            _ => None,
        }
    }

    /// The text that the value is, if it is one.
    pub fn into_string(self) -> (r: Option<String>)
        ensures
            r == self.as_text(),
    {
        match self {
            Value::Text(s) => Some(s),
            _ => None,
        }
    }

    /// The truth value that the value is, if it is one.
    pub fn into_bool(self) -> (r: Option<bool>)
        ensures
            r == self.as_boolean(),
    {
        match self {
            Value::Boolean(b) => Some(b),
            _ => None,
        }
    }

    /// The items of the list that the value is, if it is one.
    pub fn into_vec(self) -> (r: Option<Vec<Value>>)
        ensures
            r == self.as_array(),
    {
        match self {
            Value::Array(a) => Some(a),
            _ => None,
        }
    }

    /// The entries of the dictionary that the value is, if it is one.
    pub fn into_hash(self) -> (r: Option<Vec<(Value, Value)>>)
        ensures
            r == self.as_hash(),
    {
        match self {
            Value::Hash(h) => Some(h),
            _ => None,
        }
    }
}

/// The dictionary that a list of named values stands for: a later entry
/// replaces an earlier one of the same name.
pub open spec fn entries_map(entries: Seq<(String, Value)>) -> Map<Seq<char>, Value>
    decreases entries.len(),
{
    if entries.len() == 0 {
        Map::empty()
    } else {
        entries_map(entries.drop_last()).insert(entries.last().0@, entries.last().1)
    }
}

/// What a dictionary holds under a name.
pub open spec fn lookup(map: Map<Seq<char>, Value>, name: Seq<char>) -> Option<Value> {
    if map.dom().contains(name) {
        Some(map[name])
    } else {
        None
    }
}

/// The message for a setting that has the wrong kind of value; `get_fn`
/// names the kind that was asked for.
pub open spec fn wrong_kind_message(name: Seq<char>, get_fn: Seq<char>) -> Seq<char> {
    "Failed to get '"@ + name + "' field using '"@ + get_fn + "'"@
}

/// The message for a setting that must be there and is not.
pub open spec fn missing_message(name: Seq<char>) -> Seq<char> {
    "Value '"@ + name + "' does not exist"@
}

/// The error for a setting that has the wrong kind of value.
pub fn wrong_kind(name: &str, get_fn: &str) -> (e: Error)
    ensures
        e@ == ErrorView::ConfigError(wrong_kind_message(name@, get_fn@)),
{
    let mut message = String::from_str("Failed to get '");
    message.append(name);
    message.append("' field using '");
    message.append(get_fn);
    message.append("'");
    Error::ConfigError(message)
}

/// The error for a setting that must be there and is not.
pub fn missing(name: &str) -> (e: Error)
    ensures
        e@ == ErrorView::ConfigError(missing_message(name@)),
{
    let mut message = String::from_str("Value '");
    message.append(name);
    message.append("' does not exist");
    Error::ConfigError(message)
}

/// A dictionary from setting names to values.
#[derive(Debug)]
pub struct Config {
    entries: Vec<(String, Value)>,
}

impl View for Config {
    type V = Map<Seq<char>, Value>;

    closed spec fn view(&self) -> Map<Seq<char>, Value> {
        entries_map(self.entries@)
    }
}

impl Config {
    /// An empty dictionary.
    pub fn new() -> (config: Config)
        ensures
            config@ == Map::<Seq<char>, Value>::empty(),
    {
        Config { entries: Vec::new() }
    }

    /// Puts a value under a name, in place of what was there.
    pub fn insert(&mut self, name: String, value: Value)
        ensures
            final(self)@ == old(self)@.insert(name@, value),
    {
        self.entries.push((name, value));
        assert(self.entries@.drop_last() =~= old(self).entries@);
    }

    /// Whether there is a value under the name.
    pub fn contains_key(&self, name: &str) -> (found: bool)
        ensures
            found == self@.dom().contains(name@),
    {
        let mut found = false;
        let n: usize = self.entries.len();
        let mut i: usize = 0;
        while i < n
            invariant
                i <= n,
                n == self.entries@.len(),
                found == entries_map(self.entries@.take(i as int)).dom().contains(name@),
            decreases n - i,
        {
            assert(self.entries@.take(i + 1).drop_last() =~= self.entries@.take(i as int));
            if str_eq(self.entries[i].0.as_str(), name) {
                found = true;
            }
            i += 1;
        }
        assert(self.entries@.take(n as int) =~= self.entries@);
        found
    }

    /// Takes out what is under the name.
    pub fn remove(&mut self, name: &str) -> (value: Option<Value>)
        ensures
            value == lookup(old(self)@, name@),
            final(self)@ == old(self)@.remove(name@),
    {
        let mut entries: Vec<(String, Value)> = Vec::new();
        core::mem::swap(&mut entries, &mut self.entries);
        let ghost all = entries@;
        let mut found: Option<Value> = None;
        for entry in it: entries.into_iter()
            invariant
                it.seq() == all,
                found == lookup(entries_map(all.take(it.index() as int)), name@),
                entries_map(self.entries@) == entries_map(all.take(it.index() as int)).remove(
                    name@,
                ),
        {
            let ghost seen = entries_map(all.take(it.index() as int));
            assert(all.take(it.index() + 1).drop_last() =~= all.take(it.index() as int));
            if str_eq(entry.0.as_str(), name) {
                assert(seen.insert(name@, entry.1).remove(name@) =~= seen.remove(name@));
                found = Some(entry.1);
            } else {
                let ghost kept = self.entries@;
                assert(seen.insert(entry.0@, entry.1).remove(name@) =~= seen.remove(name@).insert(
                    entry.0@,
                    entry.1,
                ));
                self.entries.push(entry);
                assert(self.entries@.drop_last() =~= kept);
            }
        }
        assert(all.take(all.len() as int) =~= all);
        found
    }
}


/// A result with the error taken by its view.
pub open spec fn outcome<T>(r: Result<T, Error>) -> Result<T, ErrorView> {
    match r {
        Ok(v) => Ok(v),
        Err(e) => Err(e@),
    }
}

/// The kinds of value that a setting can be asked to have.
#[derive(Clone, Copy, Debug, PartialEq, Eq, Structural)]
pub enum Kind {
    Integer,
    Real,
    Text,
    Boolean,
    Array,
    Hash,
}

impl Value {
    /// The value is of the kind.
    pub open spec fn is_a(self, kind: Kind) -> bool {
        match kind {
            Kind::Integer => self is Integer,
            Kind::Real => self is Real,
            Kind::Text => self is Text,
            Kind::Boolean => self is Boolean,
            Kind::Array => self is Array,
            Kind::Hash => self is Hash,
        }
    }

    /// Whether the value is of the kind.
    pub fn has_kind(&self, kind: Kind) -> (b: bool)
        ensures
            b == self.is_a(kind),
    {
        match (kind, self) {
            (Kind::Integer, Value::Integer(_)) => true,
            (Kind::Real, Value::Real(_)) => true,
            (Kind::Text, Value::Text(_)) => true,
            (Kind::Boolean, Value::Boolean(_)) => true,
            (Kind::Array, Value::Array(_)) => true,
            (Kind::Hash, Value::Hash(_)) => true,
            _ => false,
        }
    }
}

/// What reading a setting of a kind gives: nothing if the name is not
/// there, the value if it is of the kind, and an error if it is not.
pub open spec fn setting(
    map: Map<Seq<char>, Value>,
    name: Seq<char>,
    kind: Kind,
    get_fn: Seq<char>,
) -> Result<Option<Value>, ErrorView> {
    match lookup(map, name) {
        None => Ok(None),
        Some(v) => if v.is_a(kind) {
            Ok(Some(v))
        } else {
            Err(ErrorView::ConfigError(wrong_kind_message(name, get_fn)))
        },
    }
}

/// A setting that may be left out, with the value that then stands for it.
pub open spec fn or_default<T>(r: Result<Option<T>, ErrorView>, default: T) -> Result<
    T,
    ErrorView,
> {
    match r {
        Ok(Some(v)) => Ok(v),
        Ok(None) => Ok(default),
        Err(e) => Err(e),
    }
}

/// A setting that must be there.
pub open spec fn required<T>(r: Result<Option<T>, ErrorView>, name: Seq<char>) -> Result<
    T,
    ErrorView,
> {
    match r {
        Ok(Some(v)) => Ok(v),
        Ok(None) => Err(ErrorView::ConfigError(missing_message(name))),
        Err(e) => Err(e),
    }
}

/// The whole number under a name.
pub open spec fn integer_setting(
    map: Map<Seq<char>, Value>,
    name: Seq<char>,
    get_fn: Seq<char>,
) -> Result<Option<i64>, ErrorView> {
    match setting(map, name, Kind::Integer, get_fn) {
        Ok(Some(v)) => Ok(v.as_integer()),
        Ok(None) => Ok(None),
        Err(e) => Err(e),
    }
}

/// The truth value under a name.
pub open spec fn boolean_setting(
    map: Map<Seq<char>, Value>,
    name: Seq<char>,
    get_fn: Seq<char>,
) -> Result<Option<bool>, ErrorView> {
    match setting(map, name, Kind::Boolean, get_fn) {
        Ok(Some(v)) => Ok(v.as_boolean()),
        Ok(None) => Ok(None),
        Err(e) => Err(e),
    }
}

/// The text under a name.
pub open spec fn text_setting(
    map: Map<Seq<char>, Value>,
    name: Seq<char>,
    get_fn: Seq<char>,
) -> Result<Option<String>, ErrorView> {
    match setting(map, name, Kind::Text, get_fn) {
        Ok(Some(v)) => Ok(v.as_text()),
        Ok(None) => Ok(None),
        Err(e) => Err(e),
    }
}

/// The written form of the number with a fraction under a name.
pub open spec fn real_setting(
    map: Map<Seq<char>, Value>,
    name: Seq<char>,
    get_fn: Seq<char>,
) -> Result<Option<String>, ErrorView> {
    match setting(map, name, Kind::Real, get_fn) {
        Ok(Some(v)) => Ok(v.as_real()),
        Ok(None) => Ok(None),
        Err(e) => Err(e),
    }
}

/// Every value is of the kind.
pub open spec fn all_of_kind(values: Seq<Value>, kind: Kind) -> bool {
    forall|i: int| 0 <= i < values.len() ==> (#[trigger] values[i]).is_a(kind)
}

/// The items of the list under a name, each of which must be of the kind;
/// no list stands for an empty one. What is no list is reported as not
/// gotten with `into_vec`, and an item of another kind with `get_fn`.
pub open spec fn list_setting(map: Map<Seq<char>, Value>, name: Seq<char>, kind: Kind) -> Result<
    Seq<Value>,
    ErrorView,
> {
    match setting(map, name, Kind::Array, "into_vec"@) {
        Ok(Some(v)) => if all_of_kind(v.as_array().unwrap()@, kind) {
            Ok(v.as_array().unwrap()@)
        } else {
            Err(ErrorView::ConfigError(wrong_kind_message(name, "get_fn"@)))
        },
        Ok(None) => Ok(Seq::empty()),
        Err(e) => Err(e),
    }
}

impl Config {
    /// Takes out the setting under the name, which must be of the kind;
    /// `get_fn` names the kind in the error.
    pub fn take(&mut self, name: &str, kind: Kind, get_fn: &str) -> (r: Result<Option<Value>, Error>)
        ensures
            final(self)@ == old(self)@.remove(name@),
            outcome(r) == setting(old(self)@, name@, kind, get_fn@),
    {
        match self.remove(name) {
            None => Ok(None),
            Some(v) => if v.has_kind(kind) {
                Ok(Some(v))
            } else {
                Err(wrong_kind(name, get_fn))
            },
        }
    }

    /// Takes out the whole number under the name.
    pub fn take_i64(&mut self, name: &str, get_fn: &str) -> (r: Result<Option<i64>, Error>)
        ensures
            final(self)@ == old(self)@.remove(name@),
            outcome(r) == integer_setting(old(self)@, name@, get_fn@),
    {
        match self.take(name, Kind::Integer, get_fn) {
            Ok(Some(v)) => Ok(v.into_i64()),
            Ok(None) => Ok(None),
            Err(e) => Err(e),
        }
    }

    /// Takes out the truth value under the name.
    pub fn take_bool(&mut self, name: &str, get_fn: &str) -> (r: Result<Option<bool>, Error>)
        ensures
            final(self)@ == old(self)@.remove(name@),
            outcome(r) == boolean_setting(old(self)@, name@, get_fn@),
    {
        match self.take(name, Kind::Boolean, get_fn) {
            Ok(Some(v)) => Ok(v.into_bool()),
            Ok(None) => Ok(None),
            Err(e) => Err(e),
        }
    }

    /// Takes out the text under the name.
    pub fn take_string(&mut self, name: &str, get_fn: &str) -> (r: Result<Option<String>, Error>)
        ensures
            final(self)@ == old(self)@.remove(name@),
            outcome(r) == text_setting(old(self)@, name@, get_fn@),
    {
        match self.take(name, Kind::Text, get_fn) {
            Ok(Some(v)) => Ok(v.into_string()),
            Ok(None) => Ok(None),
            Err(e) => Err(e),
        }
    }

    /// Takes out the number with a fraction under the name, as it was
    /// written.
    pub fn take_real(&mut self, name: &str, get_fn: &str) -> (r: Result<Option<String>, Error>)
        ensures
            final(self)@ == old(self)@.remove(name@),
            outcome(r) == real_setting(old(self)@, name@, get_fn@),
    {
        match self.take(name, Kind::Real, get_fn) {
            Ok(Some(v)) => Ok(v.into_real()),
            Ok(None) => Ok(None),
            Err(e) => Err(e),
        }
    }

    /// Takes out the list under the name, each item of which must be of the
    /// kind. No list stands for an empty one.
    #[verifier::loop_isolation(false)]
    pub fn take_list(&mut self, name: &str, kind: Kind) -> (r: Result<Vec<Value>, Error>)
        ensures
            final(self)@ == old(self)@.remove(name@),
            match list_setting(old(self)@, name@, kind) {
                Ok(items) => r matches Ok(v) && v@ == items,
                Err(e) => r matches Err(x) && x@ == e,
            },
    {
        let items: Vec<Value> = match self.take(name, Kind::Array, "into_vec") {
            Ok(Some(v)) => match v.into_vec() {
                Some(items) => items,
                None => Vec::new(),
            },
            Ok(None) => {
                return Ok(Vec::new());
            },
            Err(e) => {
                return Err(e);
            },
        };
        let n: usize = items.len();
        let mut i: usize = 0;
        while i < n
            invariant
                i <= n,
                n == items@.len(),
                all_of_kind(items@.take(i as int), kind),
            decreases n - i,
        {
            if !items[i].has_kind(kind) {
                assert(!items@[i as int].is_a(kind));
                return Err(wrong_kind(name, "get_fn"));
            }
            assert forall|k: int| 0 <= k < i + 1 implies (#[trigger] items@.take(i + 1)[k]).is_a(
                kind,
            ) by {
                if k < i {
                    assert(items@.take(i as int)[k].is_a(kind));
                }
            }
            i += 1;
        }
        assert(items@.take(n as int) =~= items@);
        Ok(items)
    }
}

/// Gives the value that stands for a setting that was left out.
pub fn unwrap_or<T>(r: Result<Option<T>, Error>, default: T) -> (out: Result<T, Error>)
    ensures
        outcome(out) == or_default(outcome(r), default),
{
    match r {
        Ok(Some(v)) => Ok(v),
        Ok(None) => Ok(default),
        Err(e) => Err(e),
    }
}

/// Asks for a setting to be there.
pub fn require<T>(r: Result<Option<T>, Error>, name: &str) -> (out: Result<T, Error>)
    ensures
        outcome(out) == required(outcome(r), name@),
{
    match r {
        Ok(Some(v)) => Ok(v),
        Ok(None) => Err(missing(name)),
        Err(e) => Err(e),
    }
}

/// Every entry has a text as its name.
pub open spec fn all_named(entries: Seq<(Value, Value)>) -> bool {
    forall|i: int| 0 <= i < entries.len() ==> (#[trigger] entries[i]).0 is Text
}

/// The dictionary that the entries of a hash stand for, each under the text
/// that is its name: a later entry replaces an earlier one of the same name.
pub open spec fn hash_map(entries: Seq<(Value, Value)>) -> Map<Seq<char>, Value>
    decreases entries.len(),
{
    if entries.len() == 0 {
        Map::empty()
    } else {
        hash_map(entries.drop_last()).insert(
            entries.last().0.as_text().unwrap()@,
            entries.last().1,
        )
    }
}

/// The dictionary that a value stands for: it must be a hash, and the name
/// of every entry a text.
pub open spec fn dictionary_of(value: Value) -> Result<Map<Seq<char>, Value>, ErrorView> {
    match value {
        Value::Hash(entries) => if all_named(entries@) {
            Ok(hash_map(entries@))
        } else {
            Err(ErrorView::ConfigError("Found non-string key in yaml"@))
        },
        _ => Err(ErrorView::ConfigError("Expected object"@)),
    }
}

/// Converts a value to a dictionary of settings.
#[verifier::loop_isolation(false)]
pub fn yaml_to_hash_map(yaml: Value) -> (r: Result<Config, Error>)
    ensures
        match dictionary_of(yaml) {
            Ok(map) => r matches Ok(config) && config@ == map,
            Err(e) => r matches Err(x) && x@ == e,
        },
{
    let entries: Vec<(Value, Value)> = match yaml.into_hash() {
        Some(entries) => entries,
        None => {
            return Err(Error::config("Expected object"));
        },
    };
    let ghost all = entries@;
    let mut config = Config::new();
    for entry in it: entries.into_iter()
        invariant
            it.seq() == all,
            all_named(all.take(it.index() as int)),
            config@ == hash_map(all.take(it.index() as int)),
    {
        let ghost i = it.index() as int;
        assert(all.take(i + 1).drop_last() =~= all.take(i));
        let (key, value) = entry;
        let name: String = match key.into_string() {
            Some(name) => name,
            None => {
                assert(!(all[i].0 is Text));
                return Err(Error::config("Found non-string key in yaml"));
            },
        };
        config.insert(name, value);
        assert forall|k: int| 0 <= k < i + 1 implies (#[trigger] all.take(i + 1)[k]).0 is Text by {
            if k < i {
                assert(all.take(i)[k].0 is Text);
            }
        }
    }
    assert(all.take(all.len() as int) =~= all);
    Ok(config)
}


/// The first of the documents of a configuration text.
pub open spec fn first_of(documents: Seq<Value>) -> Result<Value, ErrorView> {
    if documents.len() == 0 {
        Err(ErrorView::ConfigError("Yaml was empty"@))
    } else {
        Ok(documents[0])
    }
}

/// The first of the documents of a configuration text; a text without
/// documents is no configuration.
pub fn first_document(documents: Vec<Value>) -> (r: Result<Value, Error>)
    ensures
        outcome(r) == first_of(documents@),
{
    let mut documents = documents;
    if documents.len() == 0 {
        return Err(Error::config("Yaml was empty"));
    }
    Ok(documents.remove(0))
}

/// The configuration that a list of documents holds: the first document,
/// as a dictionary.
pub open spec fn config_of(documents: Seq<Value>) -> Result<Map<Seq<char>, Value>, ErrorView> {
    match first_of(documents) {
        Ok(value) => dictionary_of(value),
        Err(e) => Err(e),
    }
}

/// The configuration that a list of documents holds.
pub fn config_from_documents(documents: Vec<Value>) -> (r: Result<Config, Error>)
    ensures
        match config_of(documents@) {
            Ok(map) => r matches Ok(config) && config@ == map,
            Err(e) => r matches Err(x) && x@ == e,
        },
{
    match first_document(documents) {
        Ok(value) => yaml_to_hash_map(value),
        Err(e) => Err(e),
    }
}

/// Parses a YAML text and gives its first document.
pub fn get_yaml(text: &str) -> (r: Result<Value, Error>)
    ensures
        match yaml_documents(text@) {
            Some(documents) => outcome(r) == first_of(documents),
            None => r matches Err(e) && e@ == ErrorView::Msg("Failed to parse YAML"@),
        },
{
    match load_documents(text) {
        Ok(documents) => first_document(documents),
        Err(e) => Err(e),
    }
}

/// Gets the configuration from the text of a configuration file.
pub fn get_config(text: &str) -> (r: Result<Config, Error>)
    ensures
        match yaml_documents(text@) {
            Some(documents) => match config_of(documents) {
                Ok(map) => r matches Ok(config) && config@ == map,
                Err(e) => r matches Err(x) && x@ == e,
            },
            None => r matches Err(e) && e@ == ErrorView::Msg("Failed to parse YAML"@),
        },
{
    match load_documents(text) {
        Ok(documents) => config_from_documents(documents),
        Err(e) => Err(e),
    }
}

} // verus!
