//! Hydration of ranked messages: store keys made of partition and sort
//! key, and the rows that came back put in rank order.

use crate::attribute_helper::{AttrSeq, AttrValue, AttributeMap, AttrView};
use crate::hydrate::rows_view;
use crate::message::{decode_message, Message, MessageView};
use vstd::prelude::*;

verus! {

/// The store key of a ranked message.
pub struct MessageId {
    pub pk: String,
    pub sk: String,
}

pub open spec fn ids_view(v: Seq<MessageId>) -> Seq<(Seq<char>, Seq<char>)> {
    v.map_values(|m: MessageId| (m.pk@, m.sk@))
}

/// The key of a message in the store: PK and SK as string scalars.
pub open spec fn message_key(pk: Seq<char>, sk: Seq<char>) -> AttrSeq {
    seq![("PK"@, AttrView::S(pk)), ("SK"@, AttrView::S(sk))]
}

/// The store keys of `ids[lo..hi]`, in order.
pub fn message_lookup_keys(ids: &Vec<MessageId>, lo: usize, hi: usize) -> (keys: Vec<AttributeMap>)
    requires
        lo <= hi <= ids.len(),
    ensures
        keys.len() == hi - lo,
        forall|i: int|
            0 <= i < keys.len() ==> (#[trigger] keys@[i])@ == message_key(ids@[lo + i].pk@, ids@[lo + i].sk@),
        forall|i: int| 0 <= i < keys.len() ==> (#[trigger] keys@[i]).wf(),
{
    let mut keys: Vec<AttributeMap> = Vec::new();
    let mut i: usize = lo;
    while i < hi
        invariant
            lo <= i <= hi <= ids.len(),
            keys.len() == i - lo,
            forall|j: int|
                0 <= j < keys.len() ==> (#[trigger] keys@[j])@ == message_key(ids@[lo + j].pk@, ids@[lo + j].sk@),
            forall|j: int| 0 <= j < keys.len() ==> (#[trigger] keys@[j]).wf(),
        decreases hi - i,
    {
        let mut entries: Vec<(String, AttrValue)> = Vec::new();
        entries.push(("PK".to_string(), AttrValue::S(ids[i].pk.clone())));
        entries.push(("SK".to_string(), AttrValue::S(ids[i].sk.clone())));
        let key = AttributeMap { entries };
        assert(key@ =~= message_key(ids@[i as int].pk@, ids@[i as int].sk@));
        proof {
            reveal_strlit("PK");
            reveal_strlit("SK");
            assert("PK"@[0] == 'P' && "SK"@[0] == 'S');
            assert(key@[0].0 != key@[1].0);
        }
        keys.push(key);
        i += 1;
    }
    keys
}

/// The messages that the rows returned by the store decode to, in the order
/// they came; rows that do not decode are left out.
pub open spec fn decoded_messages(rows: Seq<AttrSeq>) -> Seq<MessageView>
    decreases rows.len(),
{
    if rows.len() == 0 {
        seq![]
    } else {
        let rest = decoded_messages(rows.drop_last());
        match decode_message(rows.last()) {
            Ok(m) => rest.push(m),
            Err(_) => rest,
        }
    }
}

/// The first message of `found` with the given keys.
pub open spec fn first_message_for(found: Seq<MessageView>, key: (Seq<char>, Seq<char>)) -> Option<MessageView>
    decreases found.len(),
{
    if found.len() == 0 {
        None
    } else if found[0].pk == key.0 && found[0].sk == key.1 {
        Some(found[0])
    } else {
        first_message_for(found.drop_first(), key)
    }
}

/// For each key in rank order, the message found for it; keys with none
/// are left out.
pub open spec fn hydrate_messages(ids: Seq<(Seq<char>, Seq<char>)>, found: Seq<MessageView>) -> Seq<MessageView>
    decreases ids.len(),
{
    if ids.len() == 0 {
        seq![]
    } else {
        let rest = hydrate_messages(ids.drop_last(), found);
        match first_message_for(found, ids.last()) {
            Some(m) => rest.push(m),
            None => rest,
        }
    }
}

pub open spec fn messages_view(v: Seq<Message>) -> Seq<MessageView> {
    v.map_values(|m: Message| m@)
}

impl Message {
    /// A copy of this message.
    pub fn duplicate(&self) -> (r: Message)
        ensures
            r@ == self@,
    {
        Message {
            pk: self.pk.clone(),
            sk: self.sk.clone(),
            subject: self.subject.clone(),
            body: self.body.clone(),
        }
    }
}

/// Decodes the rows that the store returned, dropping those that do not.
pub fn decode_message_rows(rows: &Vec<AttributeMap>) -> (r: Vec<Message>)
    ensures
        messages_view(r@) == decoded_messages(rows_view(rows@)),
{
    let mut r: Vec<Message> = Vec::new();
    let mut i: usize = 0;
    while i < rows.len()
        invariant
            i <= rows.len(),
            messages_view(r@) == decoded_messages(rows_view(rows@).take(i as int)),
        decreases rows.len() - i,
    {
        let ghost before = r@;
        assert(rows_view(rows@).take(i + 1).drop_last() =~= rows_view(rows@).take(i as int));
        match Message::from(&rows[i]) {
            Ok(m) => {
                r.push(m);
                assert(messages_view(r@) =~= messages_view(before).push(r@.last()@));
            },
            Err(_) => {},
        }
        i += 1;
    }
    assert(rows_view(rows@).take(rows.len() as int) =~= rows_view(rows@));
    r
}

fn find_message(found: &Vec<Message>, id: &MessageId) -> (r: Option<Message>)
    ensures
        match r {
            Some(m) => first_message_for(messages_view(found@), (id.pk@, id.sk@)) == Some(m@),
            None => first_message_for(messages_view(found@), (id.pk@, id.sk@)) is None,
        },
{
    let ghost key = (id.pk@, id.sk@);
    let mut i: usize = 0;
    assert(messages_view(found@).skip(0) =~= messages_view(found@));
    while i < found.len()
        invariant
            i <= found.len(),
            key == (id.pk@, id.sk@),
            first_message_for(messages_view(found@), key) == first_message_for(messages_view(found@).skip(i as int), key),
        decreases found.len() - i,
    {
        assert(messages_view(found@).skip(i as int).drop_first() =~= messages_view(found@).skip(i + 1));
        if found[i].pk == id.pk && found[i].sk == id.sk {
            return Some(found[i].duplicate());
        }
        i += 1;
    }
    None
}

/// Puts the messages found in the order of the ranked keys, leaving out
/// keys for which none was found.
pub fn order_messages(ids: &Vec<MessageId>, found: &Vec<Message>) -> (r: Vec<Message>)
    ensures
        messages_view(r@) == hydrate_messages(ids_view(ids@), messages_view(found@)),
{
    let ghost idv = ids_view(ids@);
    let mut r: Vec<Message> = Vec::new();
    let mut i: usize = 0;
    while i < ids.len()
        invariant
            i <= ids.len(),
            idv == ids_view(ids@),
            messages_view(r@) == hydrate_messages(idv.take(i as int), messages_view(found@)),
        decreases ids.len() - i,
    {
        let ghost before = r@;
        assert(idv.take(i + 1).drop_last() =~= idv.take(i as int));
        assert(idv.take(i + 1).last() == (ids@[i as int].pk@, ids@[i as int].sk@));
        match find_message(found, &ids[i]) {
            Some(m) => {
                r.push(m);
                assert(messages_view(r@) =~= messages_view(before).push(r@.last()@));
            },
            None => {},
        }
        i += 1;
    }
    assert(idv.take(ids.len() as int) =~= idv);
    r
}

/// Hydrates ranked message keys from the rows the store returned for them,
/// in whatever order and over however many batched reads they came.
pub fn hydrate_message_rows(ids: &Vec<MessageId>, rows: &Vec<AttributeMap>) -> (r: Vec<Message>)
    ensures
        messages_view(r@) == hydrate_messages(ids_view(ids@), decoded_messages(rows_view(rows@))),
{
    let found = decode_message_rows(rows);
    order_messages(ids, &found)
}

} // verus!
