//! The structural value tree a YAML document deserializes into, and its
//! mathematical model.  Mappings keep insertion order; keys that are not
//! text scalars are kept only to have their values walked.

use vstd::prelude::*;

verus! {

/// A mapping key: a text scalar, or any other key shape (kept opaque).
pub enum YamlKey {
    Text(String),
    Other,
}

/// A structural YAML value: scalars, sequences and mappings.  Numeric
/// scalars carry their rendered text.
pub enum YamlValue {
    Null,
    Bool(bool),
    Number(String),
    Str(String),
    Sequence(Vec<YamlValue>),
    Mapping(Vec<(YamlKey, YamlValue)>),
    Other,
}

/// The model of a mapping key.
pub enum Yk {
    Text(Seq<char>),
    Other,
}

/// The model of a YAML value: the same tree over character sequences.
pub enum Yv {
    Null,
    Bool(bool),
    Number(Seq<char>),
    Str(Seq<char>),
    Sequence(Seq<Yv>),
    Mapping(Seq<(Yk, Yv)>),
    Other,
}

impl YamlKey {
    /// The key's model.
    pub open spec fn model(self) -> Yk {
        match self {
            YamlKey::Text(s) => Yk::Text(s@),
            YamlKey::Other => Yk::Other,
        }
    }
}

/// The models of a list of values, in order.
pub open spec fn model_list(items: Seq<YamlValue>) -> Seq<Yv>
    decreases items,
{
    if items.len() == 0 {
        Seq::empty()
    } else {
        model_list(items.drop_last()).push(items.last().model())
    }
}

/// The models of a list of mapping entries, in order.
pub open spec fn model_entries(entries: Seq<(YamlKey, YamlValue)>) -> Seq<(Yk, Yv)>
    decreases entries,
{
    if entries.len() == 0 {
        Seq::empty()
    } else {
        model_entries(entries.drop_last()).push(
            (entries.last().0.model(), entries.last().1.model()),
        )
    }
}

impl YamlValue {
    /// The value's model.
    pub open spec fn model(self) -> Yv
        decreases self,
    {
        match self {
            YamlValue::Null => Yv::Null,
            YamlValue::Bool(b) => Yv::Bool(b),
            YamlValue::Number(s) => Yv::Number(s@),
            YamlValue::Str(s) => Yv::Str(s@),
            YamlValue::Sequence(items) => Yv::Sequence(model_list(items@)),
            YamlValue::Mapping(entries) => Yv::Mapping(model_entries(entries@)),
            YamlValue::Other => Yv::Other,
        }
    }
}

impl YamlKey {
    /// A copy with the same model.
    pub fn duplicate(&self) -> (r: YamlKey)
        ensures
            r.model() == self.model(),
    {
        match self {
            YamlKey::Text(s) => YamlKey::Text(s.clone()),
            YamlKey::Other => YamlKey::Other,
        }
    }
}

impl YamlValue {
    /// A deep copy with the same model.
    #[verifier::loop_isolation(false)]
    pub fn duplicate(&self) -> (r: YamlValue)
        ensures
            r.model() == self.model(),
        decreases *self,
    {
        match self {
            YamlValue::Null => YamlValue::Null,
            YamlValue::Other => YamlValue::Other,
            YamlValue::Bool(b) => YamlValue::Bool(*b),
            YamlValue::Number(s) => YamlValue::Number(s.clone()),
            YamlValue::Str(s) => YamlValue::Str(s.clone()),
            YamlValue::Sequence(items) => {
                let mut out: Vec<YamlValue> = Vec::new();
                let mut i: usize = 0;
                while i < items.len()
                    invariant
                        i <= items@.len(),
                        out@.len() == i,
                        forall|j: int|
                            0 <= j < i ==> (#[trigger] out@[j]).model() == items@[j].model(),
                    decreases items@.len() - i,
                {
                    proof {
                        assert(decreases_to!(*self => (*self)->Sequence_0));
                        assert(decreases_to!((*self)->Sequence_0 => (*self)->Sequence_0@));
                        assert(decreases_to!(
                            (*self)->Sequence_0@ => (*self)->Sequence_0@[i as int]));
                        assert(decreases_to!(*self => items@[i as int]));
                    }
                    let c = items[i].duplicate();
                    out.push(c);
                    i = i + 1;
                }
                proof {
                    lemma_model_list(items@);
                    lemma_model_list(out@);
                    assert(model_list(out@) =~= model_list(items@));
                }
                YamlValue::Sequence(out)
            },
            YamlValue::Mapping(entries) => {
                let mut out: Vec<(YamlKey, YamlValue)> = Vec::new();
                let mut i: usize = 0;
                while i < entries.len()
                    invariant
                        i <= entries@.len(),
                        out@.len() == i,
                        forall|j: int|
                            0 <= j < i ==> (#[trigger] out@[j]).0.model() == entries@[j].0.model()
                                && out@[j].1.model() == entries@[j].1.model(),
                    decreases entries@.len() - i,
                {
                    proof {
                        assert(decreases_to!(*self => (*self)->Mapping_0));
                        assert(decreases_to!((*self)->Mapping_0 => (*self)->Mapping_0@));
                        assert(decreases_to!(
                            (*self)->Mapping_0@ => (*self)->Mapping_0@[i as int]));
                        assert(decreases_to!(
                            (*self)->Mapping_0@[i as int] => (*self)->Mapping_0@[i as int].1));
                        assert(decreases_to!(*self => entries@[i as int].1));
                    }
                    let k = entries[i].0.duplicate();
                    let v = entries[i].1.duplicate();
                    out.push((k, v));
                    i = i + 1;
                }
                proof {
                    lemma_model_entries(entries@);
                    lemma_model_entries(out@);
                    assert(model_entries(out@) =~= model_entries(entries@));
                }
                YamlValue::Mapping(out)
            },
        }
    }
}

#[verifier::external_type_specification]
#[verifier::external_body]
pub struct ExYamlRaw(serde_yaml::Value);

/// The model of a raw deserialized value: what the conversion below turns
/// it into.  The raw value determines it completely.
pub uninterp spec fn raw_model(v: serde_yaml::Value) -> Yv;

/// What a document text deserializes to: `Some` of the tree's model when
/// the text is a well-formed YAML document, `None` otherwise.  The text
/// determines it completely.
pub uninterp spec fn yaml_tree_of(s: Seq<char>) -> Option<Yv>;

/// Relies on serde_yaml::from_str::<serde_yaml::Value>: deserializes the
/// document text into a generic value tree, keeping mapping order; it is
/// `Err` exactly when the text is not a well-formed YAML document, and the
/// outcome is a function of the text alone.
#[verifier::external_body]
pub(crate) fn read_raw_document(content: &str) -> (r: Result<serde_yaml::Value, String>)
    ensures
        match r {
            Ok(v) => yaml_tree_of(content@) == Some(raw_model(v)),
            Err(_) => yaml_tree_of(content@) is None,
        },
{
    match serde_yaml::from_str::<serde_yaml::Value>(content) {
        Ok(v) => Ok(v),
        Err(e) => Err(e.to_string()),
    }
}

/// Relies on serde_yaml::Value's variants: rebuilds the deserialized tree
/// as the library's own value type, variant by variant; tagged values are
/// kept opaque.  `raw_model` names the result.
#[verifier::external_body]
pub(crate) fn convert_raw(v: &serde_yaml::Value) -> (r: YamlValue)
    ensures
        r.model() == raw_model(*v),
{
    match v {
        serde_yaml::Value::Null => YamlValue::Null,
        serde_yaml::Value::Bool(b) => YamlValue::Bool(*b),
        serde_yaml::Value::Number(n) => YamlValue::Number(n.to_string()),
        serde_yaml::Value::String(s) => YamlValue::Str(s.clone()),
        serde_yaml::Value::Sequence(items) => YamlValue::Sequence(
            items.iter().map(convert_raw).collect(),
        ),
        serde_yaml::Value::Mapping(m) => YamlValue::Mapping(
            m.iter().map(|(k, x)| (convert_raw_key(k), convert_raw(x))).collect(),
        ),
        serde_yaml::Value::Tagged(_) => YamlValue::Other,
    }
}

/// Relies on serde_yaml::Value's variants: a text-scalar key is kept,
/// any other key shape is kept opaque.
#[verifier::external_body]
fn convert_raw_key(k: &serde_yaml::Value) -> YamlKey {
    match k {
        serde_yaml::Value::String(s) => YamlKey::Text(s.clone()),
        _ => YamlKey::Other,
    }
}

/// `model_list` is the pointwise model of its input.
pub proof fn lemma_model_list(items: Seq<YamlValue>)
    ensures
        model_list(items).len() == items.len(),
        forall|i: int| 0 <= i < items.len() ==> model_list(items)[i] == items[i].model(),
    decreases items.len(),
{
    if items.len() > 0 {
        lemma_model_list(items.drop_last());
        assert forall|i: int| 0 <= i < items.len() implies model_list(items)[i]
            == items[i].model() by {
            if i < items.len() - 1 {
                assert(items.drop_last()[i] == items[i]);
            }
        }
    }
}

/// `model_entries` is the pointwise model of its input.
pub proof fn lemma_model_entries(entries: Seq<(YamlKey, YamlValue)>)
    ensures
        model_entries(entries).len() == entries.len(),
        forall|i: int|
            0 <= i < entries.len() ==> model_entries(entries)[i] == (
            entries[i].0.model(),
            entries[i].1.model(),
            ),
    decreases entries.len(),
{
    if entries.len() > 0 {
        lemma_model_entries(entries.drop_last());
        assert forall|i: int| 0 <= i < entries.len() implies model_entries(entries)[i] == (
        entries[i].0.model(),
        entries[i].1.model(),
        ) by {
            if i < entries.len() - 1 {
                assert(entries.drop_last()[i] == entries[i]);
            }
        }
    }
}

} // verus!
