//! YAML values as plain data, and the reading of YAML text into them.

use vstd::prelude::*;
use crate::strings::str_eq;

verus! {

/// A YAML value. A number holds its text and, where it is a whole number
/// that is not negative and fits, that number. A tagged value holds the value
/// under the tag.
#[derive(Debug, PartialEq, Eq)]
pub enum YamlValue {
    Null,
    Bool(bool),
    Number { text: String, unsigned: Option<u64> },
    String(String),
    Sequence(Vec<YamlValue>),
    Mapping(Vec<(YamlValue, YamlValue)>),
    Tagged(Box<YamlValue>),
}

/// The entries of a mapping: keys with their values, in the order of the
/// text.
pub type Entries = Seq<(YamlValue, YamlValue)>;

/// The value that `entries` gives to the key `key`: that of the first entry
/// whose key is the string `key`, untagged.
pub open spec fn entry_value(entries: Entries, key: Seq<char>) -> Option<YamlValue>
    decreases entries.len(),
{
    if entries.len() == 0 {
        None
    } else if entries[0].0 matches YamlValue::String(k) && k@ == key {
        Some(entries[0].1)
    } else {
        entry_value(entries.drop_first(), key)
    }
}

/// The string that `entries` gives to the key `key`, if it gives it one.
pub open spec fn string_field(entries: Entries, key: Seq<char>) -> Option<Seq<char>> {
    match entry_value(entries, key) {
        Some(value) => value.spec_as_str(),
        None => None,
    }
}

impl YamlValue {
    /// The value under all the tags that stand around it.
    pub open spec fn untagged(self) -> YamlValue
        decreases self,
    {
        match self {
            YamlValue::Tagged(inner) => inner.untagged(),
            _ => self,
        }
    }

    /// The characters of the value, if it is a string, tagged or not.
    pub open spec fn spec_as_str(self) -> Option<Seq<char>> {
        match self.untagged() {
            YamlValue::String(s) => Some(s@),
            _ => None,
        }
    }

    /// The entries of the value, if it is a mapping, tagged or not.
    pub open spec fn spec_as_mapping(self) -> Option<Entries> {
        match self.untagged() {
            YamlValue::Mapping(entries) => Some(entries@),
            _ => None,
        }
    }

    /// The value as a whole number that is not negative, if it is one, tagged
    /// or not.
    pub open spec fn spec_as_u64(self) -> Option<u64> {
        match self.untagged() {
            YamlValue::Number { text, unsigned } => unsigned,
            _ => None,
        }
    }

    /// The value under all the tags that stand around it.
    pub fn untag(&self) -> (r: &YamlValue)
        ensures
            *r == self.untagged(),
        decreases self,
    {
        match self {
            YamlValue::Tagged(inner) => inner.untag(),
            _ => self,
        }
    }

    /// The value as a string, if it is one.
    pub fn as_str(&self) -> (r: Option<&str>)
        ensures
            crate::strings::option_text(r) == self.spec_as_str(),
    {
        match self.untag() {
            YamlValue::String(s) => Some(s.as_str()),
            _ => None,
        }
    }

    /// The entries of the value, if it is a mapping.
    pub fn as_mapping(&self) -> (r: Option<&Vec<(YamlValue, YamlValue)>>)
        ensures
            match r {
                Some(entries) => self.spec_as_mapping() == Some(entries@),
                None => self.spec_as_mapping() is None,
            },
    {
        match self.untag() {
            YamlValue::Mapping(entries) => Some(entries),
            _ => None,
        }
    }

    /// The value as a whole number that is not negative, if it is one.
    pub fn as_u64(&self) -> (r: Option<u64>)
        ensures
            r == self.spec_as_u64(),
    {
        match self.untag() {
            YamlValue::Number { text, unsigned } => *unsigned,
            _ => None,
        }
    }
}

/// The value that `entries` gives to the key `key`.
pub fn get<'a>(entries: &'a Vec<(YamlValue, YamlValue)>, key: &str) -> (r: Option<&'a YamlValue>)
    ensures
        match r {
            Some(value) => entry_value(entries@, key@) == Some(*value),
            None => entry_value(entries@, key@) is None,
        },
{
    let mut i: usize = 0;
    assert(entries@.skip(0) =~= entries@);
    while i < entries.len()
        invariant
            i <= entries.len(),
            entry_value(entries@, key@) == entry_value(entries@.skip(i as int), key@),
        decreases entries.len() - i,
    {
        proof {
            assert(entries@.skip(i as int).drop_first() =~= entries@.skip(i as int + 1));
            assert(entries@.skip(i as int)[0] == entries@[i as int]);
        }
        match &entries[i].0 {
            YamlValue::String(k) => {
                if str_eq(k.as_str(), key) {
                    return Some(&entries[i].1);
                }
            },
            _ => {},
        }
        i += 1;
    }
    proof {
        assert(entries@.skip(i as int).len() == 0);
    }
    None
}

/// The string that `entries` gives to the key `key`, if it gives it one.
pub fn get_str<'a>(entries: &'a Vec<(YamlValue, YamlValue)>, key: &str) -> (r: Option<&'a str>)
    ensures
        crate::strings::option_text(r) == string_field(entries@, key@),
{
    match get(entries, key) {
        Some(value) => value.as_str(),
        None => None,
    }
}

/// `serde_yaml_ng::Value`: a YAML value as the reader gives it. It is taken
/// apart by `model_of`; nothing else is known of what it holds.
#[verifier::external_type_specification]
#[verifier::external_body]
pub struct ExYamlValue(serde_yaml_ng::Value);

/// `serde_yaml_ng::Error`: why the reader gave up.
#[verifier::external_type_specification]
#[verifier::external_body]
pub struct ExYamlError(serde_yaml_ng::Error);

/// The values of the YAML sequence that `text` holds; none where `text` is
/// not YAML or is not a sequence.
pub uninterp spec fn yaml_sequence(text: Seq<char>) -> Option<Seq<serde_yaml_ng::Value>>;

/// What a value of the YAML reader holds, as plain data.
pub uninterp spec fn yaml_model(value: serde_yaml_ng::Value) -> YamlValue;

/// `serde_yaml_ng::from_str` for a sequence of values. What it returns is
/// taken for a function of the text, under the name `yaml_sequence`; nothing
/// more is claimed of it.
#[verifier::external_body]
pub(crate) fn read_sequence(text: &str) -> (r: Result<
    Vec<serde_yaml_ng::Value>,
    serde_yaml_ng::Error,
>)
    ensures
        match r {
            Ok(values) => yaml_sequence(text@) == Some(values@),
            Err(_) => yaml_sequence(text@) is None,
        },
{
    serde_yaml_ng::from_str::<Vec<serde_yaml_ng::Value>>(text)
}

/// Takes a `serde_yaml_ng::Value` apart, variant by variant, into a
/// [`YamlValue`]: a number by `to_string` and `Number::as_u64`, the items of
/// a sequence and the entries of a mapping in their order, a tagged value
/// without its tag. What it returns is taken for a function of the value,
/// under the name `yaml_model`.
#[verifier::external_body]
pub(crate) fn model_of(value: &serde_yaml_ng::Value) -> (r: YamlValue)
    ensures
        r == yaml_model(*value),
{
    match value {
        serde_yaml_ng::Value::Null => YamlValue::Null,
        serde_yaml_ng::Value::Bool(b) => YamlValue::Bool(*b),
        serde_yaml_ng::Value::Number(n) => YamlValue::Number { text: n.to_string(), unsigned: n.as_u64() },
        serde_yaml_ng::Value::String(s) => YamlValue::String(s.clone()),
        serde_yaml_ng::Value::Sequence(s) => YamlValue::Sequence(s.iter().map(model_of).collect()),
        serde_yaml_ng::Value::Mapping(m) => YamlValue::Mapping(m.iter().map(|(k, v)| (model_of(k), model_of(v))).collect()),
        serde_yaml_ng::Value::Tagged(t) => YamlValue::Tagged(Box::new(model_of(&t.value))),
    }
}

/// The text of a `serde_yaml_ng::Error`, by `to_string`. Nothing is claimed
/// of it.
#[verifier::external_body]
pub(crate) fn error_text(error: &serde_yaml_ng::Error) -> (message: String) {
    error.to_string()
}

/// The models of a sequence of values, in order.
pub open spec fn models(values: Seq<serde_yaml_ng::Value>) -> Seq<YamlValue> {
    values.map_values(|v: serde_yaml_ng::Value| yaml_model(v))
}

/// The values of the YAML sequence that `text` holds, as plain data; none
/// where `text` is not YAML or is not a sequence.
pub open spec fn yaml_declarations(text: Seq<char>) -> Option<Seq<YamlValue>> {
    match yaml_sequence(text) {
        Some(values) => Some(models(values)),
        None => None,
    }
}

/// Reads `text` as a YAML sequence. An error holds the reader's message.
pub fn parse_sequence(text: &str) -> (r: Result<Vec<YamlValue>, String>)
    ensures
        match r {
            Ok(values) => yaml_declarations(text@) == Some(values@),
            Err(_) => yaml_declarations(text@) is None,
        },
{
    match read_sequence(text) {
        Ok(values) => {
            let mut out: Vec<YamlValue> = Vec::new();
            let mut i: usize = 0;
            while i < values.len()
                invariant
                    i <= values.len(),
                    out@ == models(values@).take(i as int),
                decreases values.len() - i,
            {
                out.push(model_of(&values[i]));
                assert(out@ =~= models(values@).take(i as int + 1));
                i += 1;
            }
            assert(models(values@).take(values.len() as int) =~= models(values@));
            Ok(out)
        },
        Err(error) => Err(error_text(&error)),
    }
}

} // verus!
