//! Message records, keyed in the store by a partition and a sort key, and
//! indexed under a composite identity made of both.

use crate::attribute_helper::{lemma_lookup_first, names_unique};
use crate::attribute_helper::{
    string_field, AttrValue, AttributeHelper, AttributeMap, AttrView, DecodeError,
};
use crate::document::{text_field, DocView, FieldValue, FieldValueView, IndexedDocument};
use vstd::prelude::*;

verus! {

/// A message as the authoritative store holds it.
pub struct Message {
    pub pk: String,
    pub sk: String,
    pub subject: String,
    pub body: String,
}

pub struct MessageView {
    pub pk: Seq<char>,
    pub sk: Seq<char>,
    pub subject: Seq<char>,
    pub body: Seq<char>,
}

impl View for Message {
    type V = MessageView;

    open spec fn view(&self) -> MessageView {
        MessageView { pk: self.pk@, sk: self.sk@, subject: self.subject@, body: self.body@ }
    }
}

/// Decoding of an attribute map into a message: the first of PK, SK,
/// subject, body that is not a string scalar is the error.
pub open spec fn decode_message(m: Seq<(Seq<char>, AttrView)>) -> Result<MessageView, Seq<char>> {
    if string_field(m, "PK"@) is None {
        Err("PK"@)
    } else if string_field(m, "SK"@) is None {
        Err("SK"@)
    } else if string_field(m, "subject"@) is None {
        Err("subject"@)
    } else if string_field(m, "body"@) is None {
        Err("body"@)
    } else {
        Ok(
            MessageView {
                pk: string_field(m, "PK"@).unwrap(),
                sk: string_field(m, "SK"@).unwrap(),
                subject: string_field(m, "subject"@).unwrap(),
                body: string_field(m, "body"@).unwrap(),
            },
        )
    }
}

/// The attributes under which the store keeps a message.
pub open spec fn message_attributes(m: MessageView) -> Seq<(Seq<char>, AttrView)> {
    seq![
        ("PK"@, AttrView::S(m.pk)),
        ("SK"@, AttrView::S(m.sk)),
        ("subject"@, AttrView::S(m.subject)),
        ("body"@, AttrView::S(m.body)),
    ]
}

/// The composite identity of a message: partition key, `:`, sort key.
pub open spec fn composite_identity(pk: Seq<char>, sk: Seq<char>) -> Seq<char> {
    pk + ":"@ + sk
}

/// The index document of a message: identity `pksk`; fields pksk, pk, sk,
/// subject, body.
pub open spec fn message_document(m: MessageView) -> DocView {
    let pksk = composite_identity(m.pk, m.sk);
    DocView {
        identity: pksk,
        fields: seq![
            ("pksk"@, FieldValueView::Text(pksk)),
            ("pk"@, FieldValueView::Text(m.pk)),
            ("sk"@, FieldValueView::Text(m.sk)),
            ("subject"@, FieldValueView::Text(m.subject)),
            ("body"@, FieldValueView::Text(m.body)),
        ],
    }
}

/// Decoding the attribute image of a message gives the message back; the
/// image names each field once.
pub proof fn lemma_message_round_trip(msg: MessageView)
    ensures
        decode_message(message_attributes(msg)) == Ok::<MessageView, Seq<char>>(msg),
        names_unique(message_attributes(msg)),
{
    reveal_strlit("PK");
    reveal_strlit("SK");
    reveal_strlit("subject");
    reveal_strlit("body");
    let m = message_attributes(msg);
    assert("PK"@.len() == 2 && "SK"@.len() == 2 && "subject"@.len() == 7 && "body"@.len() == 4);
    assert("PK"@[0] == 'P' && "SK"@[0] == 'S');
    assert("PK"@ != "SK"@ && "PK"@ != "subject"@ && "PK"@ != "body"@);
    assert("SK"@ != "subject"@ && "SK"@ != "body"@ && "subject"@ != "body"@);
    lemma_lookup_first(m, "PK"@, 0);
    lemma_lookup_first(m, "SK"@, 1);
    lemma_lookup_first(m, "subject"@, 2);
    lemma_lookup_first(m, "body"@, 3);
}

impl Message {
    /// The attribute image of this message, as the store keeps it.
    pub fn attributes(self) -> (r: AttributeMap)
        ensures
            r@ == message_attributes(self@),
            r.wf(),
    {
        let ghost m = self@;
        let mut entries: Vec<(String, AttrValue)> = Vec::new();
        entries.push(("PK".to_string(), AttrValue::S(self.pk)));
        entries.push(("SK".to_string(), AttrValue::S(self.sk)));
        entries.push(("subject".to_string(), AttrValue::S(self.subject)));
        entries.push(("body".to_string(), AttrValue::S(self.body)));
        let r = AttributeMap { entries };
        assert(r@ =~= message_attributes(m));
        proof {
            lemma_message_round_trip(m);
        }
        r
    }

    /// Decodes a message from a record's attributes.
    pub fn from(attributes: &AttributeMap) -> (r: Result<Message, DecodeError>)
        ensures
            match r {
                Ok(m) => decode_message(attributes@) == Ok::<MessageView, Seq<char>>(m@),
                Err(err) => decode_message(attributes@) == Err::<MessageView, Seq<char>>(err.field()),
            },
    {
        let pk = match AttributeHelper::parse_string(attributes, "PK") {
            Ok(v) => v,
            Err(e) => return Err(e),
        };
        let sk = match AttributeHelper::parse_string(attributes, "SK") {
            Ok(v) => v,
            Err(e) => return Err(e),
        };
        let subject = match AttributeHelper::parse_string(attributes, "subject") {
            Ok(v) => v,
            Err(e) => return Err(e),
        };
        let body = match AttributeHelper::parse_string(attributes, "body") {
            Ok(v) => v,
            Err(e) => return Err(e),
        };
        Ok(Message { pk, sk, subject, body })
    }

    /// The composite identity of this message.
    pub fn identity(&self) -> (r: String)
        ensures
            r@ == composite_identity(self.pk@, self.sk@),
    {
        let mut r = self.pk.clone();
        r.append(":");
        r.append(self.sk.as_str());
        r
    }

    /// The index document that this message projects to.
    pub fn to_document(&self) -> (r: IndexedDocument)
        ensures
            r@ == message_document(self@),
    {
        let pksk = self.identity();
        let mut fields: Vec<(String, FieldValue)> = Vec::new();
        fields.push(text_field("pksk", &pksk));
        fields.push(text_field("pk", &self.pk));
        fields.push(text_field("sk", &self.sk));
        fields.push(text_field("subject", &self.subject));
        fields.push(text_field("body", &self.body));
        let r = IndexedDocument { identity: pksk, fields };
        assert(r@.fields =~= message_document(self@).fields);
        r
    }
}

} // verus!
