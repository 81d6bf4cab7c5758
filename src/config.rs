use vstd::prelude::*;

use crate::text::same_text;

verus! {

/// One field value of a configuration record, holding what the limbs read of it.
pub enum ConfigValue {
    Null,
    Bool(bool),
    /// A number, with its value where it is an integer that fits in a `u64`.
    Number(Option<u64>),
    Text(String),
    /// An array or an object.
    Nested,
}

/// The mathematical value of a [`ConfigValue`].
pub enum ConfigValueView {
    Null,
    Bool(bool),
    Number(Option<u64>),
    Text(Seq<char>),
    Nested,
}

impl View for ConfigValue {
    type V = ConfigValueView;

    open spec fn view(&self) -> ConfigValueView {
        match self {
            ConfigValue::Null => ConfigValueView::Null,
            ConfigValue::Bool(b) => ConfigValueView::Bool(*b),
            ConfigValue::Number(n) => ConfigValueView::Number(*n),
            ConfigValue::Text(s) => ConfigValueView::Text(s@),
            ConfigValue::Nested => ConfigValueView::Nested,
        }
    }
}

/// The fields of a record, as keys with their values.
pub type RecordView = Seq<(Seq<char>, ConfigValueView)>;

/// A document: instance names, each with its record.
pub type DocumentView = Seq<(Seq<char>, RecordView)>;

/// The configuration record of one limb: the fields of its JSON object.
pub struct ConfigRecord {
    pub fields: Vec<(String, ConfigValue)>,
}

pub open spec fn field_view(f: (String, ConfigValue)) -> (Seq<char>, ConfigValueView) {
    (f.0@, f.1@)
}

impl View for ConfigRecord {
    type V = RecordView;

    open spec fn view(&self) -> RecordView {
        self.fields@.map_values(|f: (String, ConfigValue)| field_view(f))
    }
}

pub open spec fn entry_view(e: (String, ConfigRecord)) -> (Seq<char>, RecordView) {
    (e.0@, e.1@)
}

/// The view of a document held as a vector of entries.
pub open spec fn document_view(d: Seq<(String, ConfigRecord)>) -> DocumentView {
    d.map_values(|e: (String, ConfigRecord)| entry_view(e))
}

/// The value of the first field of `fields` under `key`.
pub open spec fn field_of(fields: RecordView, key: Seq<char>) -> Option<ConfigValueView>
    decreases fields.len(),
{
    if fields.len() == 0 {
        None
    } else if fields[0].0 == key {
        Some(fields[0].1)
    } else {
        field_of(fields.drop_first(), key)
    }
}

/// The text under `key`, where that field holds text.
pub open spec fn text_field(fields: RecordView, key: Seq<char>) -> Option<Seq<char>> {
    match field_of(fields, key) {
        Some(ConfigValueView::Text(s)) => Some(s),
        _ => None,
    }
}

/// The integer under `key`, where that field holds a number that fits in a `u64`.
pub open spec fn unsigned_field(fields: RecordView, key: Seq<char>) -> Option<u64> {
    match field_of(fields, key) {
        Some(ConfigValueView::Number(Some(n))) => Some(n),
        _ => None,
    }
}

/// The value of the first field of `fields` under `key`.
pub open spec fn field_value(fields: Seq<(String, ConfigValue)>, key: Seq<char>) -> Option<ConfigValue>
    decreases fields.len(),
{
    if fields.len() == 0 {
        None
    } else if fields[0].0@ == key {
        Some(fields[0].1)
    } else {
        field_value(fields.drop_first(), key)
    }
}

/// The text under `key`, where that field holds text.
pub open spec fn text_value(fields: Seq<(String, ConfigValue)>, key: Seq<char>) -> Option<String> {
    match field_value(fields, key) {
        Some(ConfigValue::Text(s)) => Some(s),
        _ => None,
    }
}

/// The document that serde_json reads from a text as an object of objects.
pub uninterp spec fn json_document(text: Seq<char>) -> Option<Vec<(String, ConfigRecord)>>;

/// Relies on serde_json::from_str reading the text into a `BTreeMap` of `BTreeMap`s of
/// `serde_json::Value` (it fails where the text is not a JSON object whose values are
/// all objects), and on `Number::as_u64`.
#[verifier::external_body]
pub(crate) fn parse_json_document(text: &str) -> (r: Option<Vec<(String, ConfigRecord)>>)
    ensures
        r == json_document(text@),
{
    let doc: std::collections::BTreeMap<String, std::collections::BTreeMap<String, serde_json::Value>> =
        serde_json::from_str(text).ok()?;
    Some(doc.into_iter().map(|(name, fields)| (name, ConfigRecord {
        fields: fields.into_iter().map(|(key, value)| (key, match value {
            serde_json::Value::Null => ConfigValue::Null,
            serde_json::Value::Bool(b) => ConfigValue::Bool(b),
            serde_json::Value::Number(n) => ConfigValue::Number(n.as_u64()),
            serde_json::Value::String(s) => ConfigValue::Text(s),
            _ => ConfigValue::Nested,
        })).collect(),
    })).collect())
}

impl ConfigRecord {
    /// The value of the field under `key`.
    pub fn get(&self, key: &str) -> (r: Option<&ConfigValue>)
        ensures
            match r {
                Some(v) => field_of(self@, key@) == Some(v@) && field_value(self.fields@, key@) == Some(*v),
                None => field_of(self@, key@) is None && field_value(self.fields@, key@) is None,
            },
    {
        let mut i: usize = 0;
        proof {
            assert(self@.skip(0) =~= self@);
            assert(self.fields@.skip(0) =~= self.fields@);
        }
        while i < self.fields.len()
            invariant
                i <= self.fields.len(),
                field_of(self@, key@) == field_of(self@.skip(i as int), key@),
                field_value(self.fields@, key@) == field_value(self.fields@.skip(i as int), key@),
            decreases self.fields.len() - i,
        {
            proof {
                assert(self@.skip(i as int).drop_first() =~= self@.skip(i + 1));
                assert(self.fields@.skip(i as int).drop_first() =~= self.fields@.skip(i + 1));
            }
            if same_text(self.fields[i].0.as_str(), key) {
                return Some(&self.fields[i].1);
            }
            i += 1;
        }
        None
    }

    /// The text under `key`, where that field holds text.
    pub fn text(&self, key: &str) -> (r: Option<&str>)
        ensures
            match r {
                Some(s) => text_field(self@, key@) == Some(s@),
                None => text_field(self@, key@) is None,
            },
    {
        match self.get(key) {
            Some(ConfigValue::Text(s)) => Some(s.as_str()),
            _ => None,
        }
    }

    /// The text under `key`, as the record holds it, where that field holds text.
    pub fn text_value(&self, key: &str) -> (r: Option<&String>)
        ensures
            match r {
                Some(s) => text_value(self.fields@, key@) == Some(*s),
                None => text_value(self.fields@, key@) is None,
            },
    {
        match self.get(key) {
            Some(ConfigValue::Text(s)) => Some(s),
            _ => None,
        }
    }

    /// The integer under `key`, where that field holds a number that fits in a `u64`.
    pub fn unsigned(&self, key: &str) -> (r: Option<u64>)
        ensures
            r == unsigned_field(self@, key@),
    {
        match self.get(key) {
            Some(ConfigValue::Number(Some(n))) => Some(*n),
            _ => None,
        }
    }
}

} // verus!
