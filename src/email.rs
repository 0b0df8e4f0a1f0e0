//! Email records: decoding from the store's attributes, the attribute image
//! written back, and the index document they project to.

use crate::attribute_helper::{
    lemma_lookup_absent, names_unique, optional_int64_field, string_field, string_set_field, strings_view, clone_strings, AttrValue,
    AttributeHelper, AttributeMap, AttrView, DecodeError,
};
use crate::attribute_helper::lemma_lookup_first;
use crate::decimal::{decimal_of, format_i64, lemma_parse_decimal_of};
use crate::document::{fields_view, text_field, DocView, FieldValue, FieldValueView, IndexedDocument};
use vstd::prelude::*;

verus! {

/// An email as the authoritative store holds it. The timestamp is
/// optional: an email without one is still decoded, indexed and returned.
pub struct Email {
    pub id: String,
    pub timestamp: Option<i64>,
    pub subject: String,
    pub body: String,
    pub to: Vec<String>,
}

pub struct EmailView {
    pub id: Seq<char>,
    pub timestamp: Option<i64>,
    pub subject: Seq<char>,
    pub body: Seq<char>,
    pub to: Seq<Seq<char>>,
}

impl View for Email {
    type V = EmailView;

    open spec fn view(&self) -> EmailView {
        EmailView {
            id: self.id@,
            timestamp: self.timestamp,
            subject: self.subject@,
            body: self.body@,
            to: strings_view(self.to@),
        }
    }
}

/// Decoding of an attribute map into an email: the first field, in the order
/// id, timestamp, subject, body, to, that is missing (the timestamp may be)
/// or of the wrong type is the error.
pub open spec fn decode_email(m: Seq<(Seq<char>, AttrView)>) -> Result<EmailView, Seq<char>> {
    if string_field(m, "id"@) is None {
        Err("id"@)
    } else if optional_int64_field(m, "timestamp"@) is None {
        Err("timestamp"@)
    } else if string_field(m, "subject"@) is None {
        Err("subject"@)
    } else if string_field(m, "body"@) is None {
        Err("body"@)
    } else if string_set_field(m, "to"@) is None {
        Err("to"@)
    } else {
        Ok(
            EmailView {
                id: string_field(m, "id"@).unwrap(),
                timestamp: optional_int64_field(m, "timestamp"@).unwrap(),
                subject: string_field(m, "subject"@).unwrap(),
                body: string_field(m, "body"@).unwrap(),
                to: string_set_field(m, "to"@).unwrap(),
            },
        )
    }
}

/// The attributes under which the store keeps an email: id, subject, body,
/// to, and the timestamp when there is one.
pub open spec fn email_attributes(e: EmailView) -> Seq<(Seq<char>, AttrView)> {
    seq![
        ("id"@, AttrView::S(e.id)),
        ("subject"@, AttrView::S(e.subject)),
        ("body"@, AttrView::S(e.body)),
        ("to"@, AttrView::Ss(e.to)),
    ] + match e.timestamp {
        Some(t) => seq![("timestamp"@, AttrView::S(decimal_of(t as int)))],
        None => Seq::<(Seq<char>, AttrView)>::empty(),
    }
}

/// One text entry under `name` for each string of `v`, in order.
pub open spec fn text_entries(name: Seq<char>, v: Seq<Seq<char>>) -> Seq<(Seq<char>, FieldValueView)> {
    v.map_values(|s: Seq<char>| (name, FieldValueView::Text(s)))
}

/// The fields of an email's document before its recipients: id, the
/// timestamp when there is one, subject, body.
pub open spec fn email_head_fields(e: EmailView) -> Seq<(Seq<char>, FieldValueView)> {
    seq![("id"@, FieldValueView::Text(e.id))] + match e.timestamp {
        Some(t) => seq![("timestamp"@, FieldValueView::Integer(t))],
        None => Seq::<(Seq<char>, FieldValueView)>::empty(),
    } + seq![("subject"@, FieldValueView::Text(e.subject)), ("body"@, FieldValueView::Text(e.body))]
}

/// The index document of an email: identity `id`; fields id, timestamp
/// (only when there is one), subject, body, and one `to` entry per recipient.
pub open spec fn email_document(e: EmailView) -> DocView {
    DocView { identity: e.id, fields: email_head_fields(e) + text_entries("to"@, e.to) }
}

/// Decoding the attribute image of an email gives the email back, with or
/// without a timestamp; the image names each field once.
pub proof fn lemma_email_round_trip(e: EmailView)
    ensures
        decode_email(email_attributes(e)) == Ok::<EmailView, Seq<char>>(e),
        names_unique(email_attributes(e)),
{
    reveal_strlit("id");
    reveal_strlit("timestamp");
    reveal_strlit("subject");
    reveal_strlit("body");
    reveal_strlit("to");
    let m = email_attributes(e);
    assert("id"@.len() == 2 && "timestamp"@.len() == 9 && "subject"@.len() == 7);
    assert("body"@.len() == 4 && "to"@.len() == 2);
    assert("id"@[0] == 'i' && "to"@[0] == 't');
    assert("id"@ != "timestamp"@ && "id"@ != "subject"@ && "id"@ != "body"@ && "id"@ != "to"@);
    assert("timestamp"@ != "subject"@ && "timestamp"@ != "body"@ && "timestamp"@ != "to"@);
    assert("subject"@ != "body"@ && "subject"@ != "to"@ && "body"@ != "to"@);
    assert(m[0].0 == "id"@ && m[1].0 == "subject"@ && m[2].0 == "body"@ && m[3].0 == "to"@);
    lemma_lookup_first(m, "id"@, 0);
    lemma_lookup_first(m, "subject"@, 1);
    lemma_lookup_first(m, "body"@, 2);
    lemma_lookup_first(m, "to"@, 3);
    match e.timestamp {
        Some(t) => {
            assert(m.len() == 5 && m[4].0 == "timestamp"@);
            lemma_lookup_first(m, "timestamp"@, 4);
            lemma_parse_decimal_of(t);
        },
        None => {
            assert(m.len() == 4);
            lemma_lookup_absent(m, "timestamp"@);
        },
    }
}

impl Email {
    /// The attribute image of this email, as the store keeps it.
    pub fn attributes(self) -> (r: AttributeMap)
        ensures
            r@ == email_attributes(self@),
            r.wf(),
    {
        let ghost e = self@;
        let mut entries: Vec<(String, AttrValue)> = Vec::new();
        entries.push(("id".to_string(), AttrValue::S(self.id)));
        entries.push(("subject".to_string(), AttrValue::S(self.subject)));
        entries.push(("body".to_string(), AttrValue::S(self.body)));
        entries.push(("to".to_string(), AttrValue::Ss(self.to)));
        match self.timestamp {
            Some(t) => entries.push(("timestamp".to_string(), AttrValue::S(format_i64(t)))),
            None => {},
        }
        let r = AttributeMap { entries };
        assert(r@ =~= email_attributes(e));
        proof {
            lemma_email_round_trip(e);
        }
        r
    }

    /// Decodes an email from a record's attributes.
    pub fn from(attributes: &AttributeMap) -> (r: Result<Email, DecodeError>)
        ensures
            match r {
                Ok(e) => decode_email(attributes@) == Ok::<EmailView, Seq<char>>(e@),
                Err(err) => decode_email(attributes@) == Err::<EmailView, Seq<char>>(err.field()),
            },
    {
        let id = match AttributeHelper::parse_string(attributes, "id") {
            Ok(v) => v,
            Err(e) => return Err(e),
        };
        let timestamp = match AttributeHelper::parse_optional_int_64(attributes, "timestamp") {
            Ok(v) => v,
            Err(e) => return Err(e),
        };
        let subject = match AttributeHelper::parse_string(attributes, "subject") {
            Ok(v) => v,
            Err(e) => return Err(e),
        };
        let body = match AttributeHelper::parse_string(attributes, "body") {
            Ok(v) => v,
            Err(e) => return Err(e),
        };
        let to = match AttributeHelper::parse_string_array(attributes, "to") {
            Ok(v) => v,
            Err(e) => return Err(e),
        };
        Ok(Email { id, timestamp, subject, body, to })
    }

    /// A copy of this email.
    pub fn duplicate(&self) -> (r: Email)
        ensures
            r@ == self@,
    {
        Email {
            id: self.id.clone(),
            timestamp: self.timestamp,
            subject: self.subject.clone(),
            body: self.body.clone(),
            to: clone_strings(&self.to),
        }
    }

    /// The index document that this email projects to.
    pub fn to_document(&self) -> (r: IndexedDocument)
        ensures
            r@ == email_document(self@),
    {
        let mut fields: Vec<(String, FieldValue)> = Vec::new();
        fields.push(text_field("id", &self.id));
        match self.timestamp {
            Some(t) => fields.push(("timestamp".to_string(), FieldValue::Integer(t))),
            None => {},
        }
        fields.push(text_field("subject", &self.subject));
        fields.push(text_field("body", &self.body));
        let ghost head = fields@;
        assert(fields_view(head) =~= email_head_fields(self@));
        let h = fields.len();
        let mut i: usize = 0;
        while i < self.to.len()
            invariant
                i <= self.to.len(),
                h == head.len(),
                fields@.len() == h + i,
                fields@.take(h as int) == head,
                forall|j: int| 0 <= j < i ==> #[trigger] fields@[h + j].0@ == "to"@
                    && fields@[h + j].1@ == FieldValueView::Text(self.to@[j]@),
            decreases self.to.len() - i,
        {
            fields.push(text_field("to", &self.to[i]));
            assert(fields@.take(h as int) =~= head);
            i += 1;
        }
        let r = IndexedDocument { identity: self.id.clone(), fields };
        proof {
            let d = email_document(self@);
            assert(r@.fields =~= d.fields) by {
                assert forall|j: int| 0 <= j < r@.fields.len() implies r@.fields[j] == d.fields[j] by {
                    if j >= h {
                        assert(fields@[h + (j - h)] == fields@[j]);
                    } else {
                        assert(fields@[j] == head[j]);
                        assert(fields_view(head)[j] == email_head_fields(self@)[j]);
                    }
                }
            }
        }
        r
    }
}

} // verus!
