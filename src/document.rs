//! The projection stored in the full-text index: an identity value plus
//! named field values.

use vstd::prelude::*;

verus! {

/// One value of a document field.
pub enum FieldValue {
    /// Text, tokenized or kept exact as the schema says for the field.
    Text(String),
    /// A signed integer, indexed but not full-text searched.
    Integer(i64),
}

pub enum FieldValueView {
    Text(Seq<char>),
    Integer(i64),
}

impl View for FieldValue {
    type V = FieldValueView;

    open spec fn view(&self) -> FieldValueView {
        match self {
            FieldValue::Text(s) => FieldValueView::Text(s@),
            FieldValue::Integer(n) => FieldValueView::Integer(*n),
        }
    }
}

/// A document of the index. `identity` is the value of the schema's identity
/// field, by which the document is later deleted or replaced; it also
/// appears among `fields` under that field's name.
pub struct IndexedDocument {
    pub identity: String,
    pub fields: Vec<(String, FieldValue)>,
}

pub struct DocView {
    pub identity: Seq<char>,
    pub fields: Seq<(Seq<char>, FieldValueView)>,
}

pub open spec fn fields_view(f: Seq<(String, FieldValue)>) -> Seq<(Seq<char>, FieldValueView)> {
    f.map_values(|p: (String, FieldValue)| (p.0@, p.1@))
}

impl View for IndexedDocument {
    type V = DocView;

    open spec fn view(&self) -> DocView {
        DocView { identity: self.identity@, fields: fields_view(self.fields@) }
    }
}

/// A field entry holding text.
pub fn text_field(name: &str, value: &String) -> (r: (String, FieldValue))
    ensures
        r.0@ == name@,
        r.1@ == FieldValueView::Text(value@),
{
    (name.to_string(), FieldValue::Text(value.clone()))
}

} // verus!
