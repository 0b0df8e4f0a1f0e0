//! Schema registry: the fixed fields of each index, how each is indexed,
//! which one is the identity, and which ones a query matches when it names
//! no field.

use crate::attribute_helper::strings_view;
use vstd::prelude::*;

verus! {

/// How a field is indexed and stored.
#[derive(Clone, Copy, PartialEq, Eq, Structural)]
pub enum FieldRole {
    /// Exact match, stored; the key for deletions and replacements.
    Identity,
    /// Tokenized and indexed for full-text search, not stored.
    FullText,
    /// Exact match, stored.
    StoredExact,
    /// A signed integer, indexed, not tokenized.
    Numeric,
}

/// One field of a schema.
pub struct FieldSpec {
    pub name: String,
    pub role: FieldRole,
    /// Whether a query term that names no field is matched against it.
    pub default_search: bool,
}

pub struct FieldSpecView {
    pub name: Seq<char>,
    pub role: FieldRole,
    pub default_search: bool,
}

impl View for FieldSpec {
    type V = FieldSpecView;

    open spec fn view(&self) -> FieldSpecView {
        FieldSpecView { name: self.name@, role: self.role, default_search: self.default_search }
    }
}

pub open spec fn specs_view(v: Seq<FieldSpec>) -> Seq<FieldSpecView> {
    v.map_values(|f: FieldSpec| f@)
}

pub open spec fn field(name: Seq<char>, role: FieldRole, default_search: bool) -> FieldSpecView {
    FieldSpecView { name, role, default_search }
}

/// The names of the fields searched by default, in schema order.
pub open spec fn default_field_names(fields: Seq<FieldSpecView>) -> Seq<Seq<char>>
    decreases fields.len(),
{
    if fields.len() == 0 {
        seq![]
    } else {
        let rest = default_field_names(fields.drop_last());
        if fields.last().default_search {
            rest.push(fields.last().name)
        } else {
            rest
        }
    }
}

/// The fields of the email index.
pub open spec fn email_fields() -> Seq<FieldSpecView> {
    seq![
        field("id"@, FieldRole::Identity, true),
        field("timestamp"@, FieldRole::Numeric, true),
        field("subject"@, FieldRole::FullText, true),
        field("body"@, FieldRole::FullText, true),
        field("to"@, FieldRole::FullText, true),
    ]
}

/// The fields of the message index: the composite identity is not
/// searched by default, its parts are.
pub open spec fn message_fields() -> Seq<FieldSpecView> {
    seq![
        field("pksk"@, FieldRole::Identity, false),
        field("pk"@, FieldRole::StoredExact, true),
        field("sk"@, FieldRole::StoredExact, true),
        field("subject"@, FieldRole::FullText, true),
        field("body"@, FieldRole::FullText, true),
    ]
}

fn field_spec(name: &str, role: FieldRole, default_search: bool) -> (r: FieldSpec)
    ensures
        r@ == field(name@, role, default_search),
{
    FieldSpec { name: name.to_string(), role, default_search }
}

/// The names of the fields of `fields` searched by default, in order.
pub fn default_names(fields: &Vec<FieldSpec>) -> (r: Vec<String>)
    ensures
        strings_view(r@) == default_field_names(specs_view(fields@)),
{
    let ghost fv = specs_view(fields@);
    let mut r: Vec<String> = Vec::new();
    let mut i: usize = 0;
    while i < fields.len()
        invariant
            i <= fields.len(),
            fv == specs_view(fields@),
            strings_view(r@) == default_field_names(fv.take(i as int)),
        decreases fields.len() - i,
    {
        let ghost before = r@;
        assert(fv.take(i + 1).drop_last() =~= fv.take(i as int));
        assert(fv.take(i + 1).last() == fields@[i as int]@);
        if fields[i].default_search {
            r.push(fields[i].name.clone());
            assert(strings_view(r@) =~= strings_view(before).push(
                fields@[i as int].name@,
            ));
        }
        i += 1;
    }
    assert(fv.take(fields.len() as int) =~= fv);
    r
}

/// The schema of the email index.
pub struct EmailIndexSchema {
    pub fields: Vec<FieldSpec>,
}

impl EmailIndexSchema {
    pub fn new() -> (r: EmailIndexSchema)
        ensures
            specs_view(r.fields@) == email_fields(),
    {
        let mut fields: Vec<FieldSpec> = Vec::new();
        fields.push(field_spec("id", FieldRole::Identity, true));
        fields.push(field_spec("timestamp", FieldRole::Numeric, true));
        fields.push(field_spec("subject", FieldRole::FullText, true));
        fields.push(field_spec("body", FieldRole::FullText, true));
        fields.push(field_spec("to", FieldRole::FullText, true));
        assert(specs_view(fields@) =~= email_fields());
        EmailIndexSchema { fields }
    }

    /// The fields a query matches when it names none, in schema order.
    pub fn default_fields(&self) -> (r: Vec<String>)
        ensures
            strings_view(r@) == default_field_names(specs_view(self.fields@)),
    {
        default_names(&self.fields)
    }
}

/// The schema of the message index.
pub struct IndexSchema {
    pub fields: Vec<FieldSpec>,
}

impl IndexSchema {
    pub fn new() -> (r: IndexSchema)
        ensures
            specs_view(r.fields@) == message_fields(),
    {
        let mut fields: Vec<FieldSpec> = Vec::new();
        fields.push(field_spec("pksk", FieldRole::Identity, false));
        fields.push(field_spec("pk", FieldRole::StoredExact, true));
        fields.push(field_spec("sk", FieldRole::StoredExact, true));
        fields.push(field_spec("subject", FieldRole::FullText, true));
        fields.push(field_spec("body", FieldRole::FullText, true));
        assert(specs_view(fields@) =~= message_fields());
        IndexSchema { fields }
    }

    /// The fields a query matches when it names none, in schema order.
    pub fn default_fields(&self) -> (r: Vec<String>)
        ensures
            strings_view(r@) == default_field_names(specs_view(self.fields@)),
    {
        default_names(&self.fields)
    }
}

} // verus!
