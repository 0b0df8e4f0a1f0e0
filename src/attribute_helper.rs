//! Attribute codec: the store's tagged attribute values and the decoders that
//! turn a record's attribute map into plain values.

use crate::decimal::{parse_i64, parse_i64_spec};
use vstd::prelude::*;

verus! {

/// A tagged attribute value as the authoritative store hands it out.
pub enum AttrValue {
    /// A string scalar.
    S(String),
    /// A set of strings, in the order the store lists them.
    Ss(Vec<String>),
    /// Any other tag (number, binary, list, map, ...); no decoder accepts it.
    Other,
}

/// Mathematical form of an attribute value.
pub enum AttrView {
    S(Seq<char>),
    Ss(Seq<Seq<char>>),
    Other,
}

pub open spec fn strings_view(v: Seq<String>) -> Seq<Seq<char>> {
    v.map_values(|s: String| s@)
}

impl View for AttrValue {
    type V = AttrView;

    open spec fn view(&self) -> AttrView {
        match self {
            AttrValue::S(s) => AttrView::S(s@),
            AttrValue::Ss(v) => AttrView::Ss(strings_view(v@)),
            AttrValue::Other => AttrView::Other,
        }
    }
}

/// Mathematical form of an attribute map: its entries, in order.
pub type AttrSeq = Seq<(Seq<char>, AttrView)>;

/// A record's attributes: field name to tagged value. A well-formed map
/// (see `names_unique`) names each field once, as the store's maps do; the
/// decoders read the first entry of a name, which in a well-formed map is
/// its only one.
pub struct AttributeMap {
    pub entries: Vec<(String, AttrValue)>,
}

/// No field name occurs twice.
pub open spec fn names_unique(m: AttrSeq) -> bool {
    forall|i: int, j: int| 0 <= i < j < m.len() ==> (#[trigger] m[i]).0 != (#[trigger] m[j]).0
}

impl AttributeMap {
    /// Well-formedness: each field name occurs once.
    pub open spec fn wf(&self) -> bool {
        names_unique(self@)
    }
}

pub open spec fn entries_view(e: Seq<(String, AttrValue)>) -> Seq<(Seq<char>, AttrView)> {
    e.map_values(|p: (String, AttrValue)| (p.0@, p.1@))
}

impl View for AttributeMap {
    type V = Seq<(Seq<char>, AttrView)>;

    open spec fn view(&self) -> Seq<(Seq<char>, AttrView)> {
        entries_view(self.entries@)
    }
}

/// The value that an attribute map gives a name: that of its first entry
/// with this name.
pub open spec fn lookup(m: Seq<(Seq<char>, AttrView)>, name: Seq<char>) -> Option<AttrView>
    decreases m.len(),
{
    if m.len() == 0 {
        None
    } else if m[0].0 == name {
        Some(m[0].1)
    } else {
        lookup(m.drop_first(), name)
    }
}

/// The value under `name` is that of the first entry with that name.
pub proof fn lemma_lookup_first(m: Seq<(Seq<char>, AttrView)>, name: Seq<char>, i: int)
    requires
        0 <= i < m.len(),
        m[i].0 == name,
        forall|j: int| 0 <= j < i ==> (#[trigger] m[j]).0 != name,
    ensures
        lookup(m, name) == Some(m[i].1),
    decreases i,
{
    if i > 0 {
        assert(m[0].0 != name);
        let rest = m.drop_first();
        assert forall|j: int| 0 <= j < i - 1 implies (#[trigger] rest[j]).0 != name by {
            assert(rest[j] == m[j + 1]);
        }
        lemma_lookup_first(rest, name, i - 1);
    }
}

/// In a well-formed map, the value under a name is that of its one entry.
pub proof fn lemma_lookup_unique(m: AttrSeq, i: int)
    requires
        names_unique(m),
        0 <= i < m.len(),
    ensures
        lookup(m, m[i].0) == Some(m[i].1),
{
    assert forall|j: int| 0 <= j < i implies (#[trigger] m[j]).0 != m[i].0 by {}
    lemma_lookup_first(m, m[i].0, i);
}

/// A name that no entry has gives no value.
pub proof fn lemma_lookup_absent(m: AttrSeq, name: Seq<char>)
    requires
        forall|j: int| 0 <= j < m.len() ==> (#[trigger] m[j]).0 != name,
    ensures
        lookup(m, name) is None,
    decreases m.len(),
{
    if m.len() > 0 {
        let rest = m.drop_first();
        assert forall|j: int| 0 <= j < rest.len() implies (#[trigger] rest[j]).0 != name by {
            assert(rest[j] == m[j + 1]);
        }
        lemma_lookup_absent(rest, name);
    }
}

/// The string scalar under `name`, if the field is there with that tag.
pub open spec fn string_field(m: Seq<(Seq<char>, AttrView)>, name: Seq<char>) -> Option<Seq<char>> {
    match lookup(m, name) {
        Some(AttrView::S(s)) => Some(s),
        _ => None,
    }
}

/// The integer written as a string scalar under `name`, if there is one.
pub open spec fn int64_field(m: Seq<(Seq<char>, AttrView)>, name: Seq<char>) -> Option<i64> {
    match string_field(m, name) {
        Some(s) => parse_i64_spec(s),
        None => None,
    }
}

/// An optional integer under `name`: `Some(None)` when the field is absent,
/// `Some(Some(n))` when it is a string scalar holding `n`, and `None` (an
/// error) when it is there in any other form.
pub open spec fn optional_int64_field(m: Seq<(Seq<char>, AttrView)>, name: Seq<char>) -> Option<Option<i64>> {
    if lookup(m, name) is None {
        Some(None)
    } else {
        match int64_field(m, name) {
            Some(n) => Some(Some(n)),
            None => None,
        }
    }
}

/// The string set under `name`, if the field is there with that tag.
pub open spec fn string_set_field(m: Seq<(Seq<char>, AttrView)>, name: Seq<char>) -> Option<Seq<Seq<char>>> {
    match lookup(m, name) {
        Some(AttrView::Ss(v)) => Some(v),
        _ => None,
    }
}

/// A field that could not be decoded: it is absent, or carries a tag (or,
/// for an integer, text) that the decoder does not accept.
pub enum DecodeError {
    FieldMissingOrWrongType { field: String },
}

impl DecodeError {
    pub open spec fn field(&self) -> Seq<char> {
        match self {
            DecodeError::FieldMissingOrWrongType { field } => field@,
        }
    }

    /// The message of the error, naming the field.
    pub fn message(&self) -> (r: String)
        ensures
            r@ == self.field() + " missing"@,
    {
        match self {
            DecodeError::FieldMissingOrWrongType { field } => {
                let mut r = field.clone();
                r.append(" missing");
                r
            },
        }
    }
}

impl AttrValue {
    pub fn clone_value(&self) -> (r: AttrValue)
        ensures
            r@ == self@,
    {
        match self {
            AttrValue::S(s) => AttrValue::S(s.clone()),
            AttrValue::Ss(v) => AttrValue::Ss(clone_strings(v)),
            AttrValue::Other => AttrValue::Other,
        }
    }
}

/// A copy of a list of strings.
pub fn clone_strings(v: &Vec<String>) -> (r: Vec<String>)
    ensures
        strings_view(r@) == strings_view(v@),
{
    let mut r: Vec<String> = Vec::new();
    let mut i: usize = 0;
    while i < v.len()
        invariant
            i <= v.len(),
            strings_view(r@) == strings_view(v@.take(i as int)),
        decreases v.len() - i,
    {
        r.push(v[i].clone());
        i += 1;
        assert(strings_view(v@.take(i as int)) =~= strings_view(v@.take(i - 1)).push(v@[i - 1]@));
    }
    assert(v@.take(v.len() as int) =~= v@);
    r
}

impl AttributeMap {
    /// The value under `name`, if any.
    pub fn get(&self, name: &str) -> (r: Option<&AttrValue>)
        ensures
            match r {
                Some(v) => lookup(self@, name@) == Some(v@),
                None => lookup(self@, name@) is None,
            },
    {
        let key = name.to_string();
        let mut i: usize = 0;
        assert(self@.skip(0) =~= self@);
        while i < self.entries.len()
            invariant
                i <= self.entries.len(),
                key@ == name@,
                lookup(self@, name@) == lookup(self@.skip(i as int), name@),
            decreases self.entries.len() - i,
        {
            let ghost rest = self@.skip(i as int);
            assert(rest[0] == (self.entries@[i as int].0@, self.entries@[i as int].1@));
            if self.entries[i].0 == key {
                return Some(&self.entries[i].1);
            }
            assert(rest.drop_first() =~= self@.skip(i + 1));
            i += 1;
        }
        assert(self@.skip(i as int).len() == 0);
        None
    }
}

/// Decoders from an attribute map to plain values.
pub struct AttributeHelper;

impl AttributeHelper {
    /// The string scalar under `attribute_name`.
    pub fn parse_string(attributes: &AttributeMap, attribute_name: &str) -> (r: Result<String, DecodeError>)
        ensures
            match r {
                Ok(s) => string_field(attributes@, attribute_name@) == Some(s@),
                Err(e) => string_field(attributes@, attribute_name@) is None
                    && e.field() == attribute_name@,
            },
    {
        match attributes.get(attribute_name) {
            Some(AttrValue::S(value)) => Ok(value.clone()),
            _ => Err(DecodeError::FieldMissingOrWrongType { field: attribute_name.to_string() }),
        }
    }

    /// The integer written as a string scalar under `attribute_name`.
    pub fn parse_int_64(attributes: &AttributeMap, attribute_name: &str) -> (r: Result<i64, DecodeError>)
        ensures
            match r {
                Ok(n) => int64_field(attributes@, attribute_name@) == Some(n),
                Err(e) => int64_field(attributes@, attribute_name@) is None
                    && e.field() == attribute_name@,
            },
    {
        match attributes.get(attribute_name) {
            Some(AttrValue::S(value)) => match parse_i64(value.as_str()) {
                Some(n) => Ok(n),
                None => Err(DecodeError::FieldMissingOrWrongType { field: attribute_name.to_string() }),
            },
            _ => Err(DecodeError::FieldMissingOrWrongType { field: attribute_name.to_string() }),
        }
    }

    /// The integer written as a string scalar under `attribute_name`, or
    /// nothing when the field is absent; a field in another form is an error.
    pub fn parse_optional_int_64(attributes: &AttributeMap, attribute_name: &str) -> (r: Result<Option<i64>, DecodeError>)
        ensures
            match r {
                Ok(n) => optional_int64_field(attributes@, attribute_name@) == Some(n),
                Err(e) => optional_int64_field(attributes@, attribute_name@) is None
                    && e.field() == attribute_name@,
            },
    {
        match attributes.get(attribute_name) {
            None => Ok(None),
            Some(_) => match AttributeHelper::parse_int_64(attributes, attribute_name) {
                Ok(n) => Ok(Some(n)),
                Err(e) => Err(e),
            },
        }
    }

    /// The string set under `attribute_name`.
    pub fn parse_string_array(attributes: &AttributeMap, attribute_name: &str) -> (r: Result<Vec<String>, DecodeError>)
        ensures
            match r {
                Ok(v) => string_set_field(attributes@, attribute_name@) == Some(strings_view(v@)),
                Err(e) => string_set_field(attributes@, attribute_name@) is None
                    && e.field() == attribute_name@,
            },
    {
        match attributes.get(attribute_name) {
            Some(AttrValue::Ss(values)) => Ok(clone_strings(values)),
            _ => Err(DecodeError::FieldMissingOrWrongType { field: attribute_name.to_string() }),
        }
    }
}

} // verus!
