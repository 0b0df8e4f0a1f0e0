//! Change applier: turns a batch of change records into the index
//! operations to stage before one commit, and a tally of the outcomes.

use crate::attribute_helper::{AttrSeq, AttributeMap};
use crate::document::{DocView, IndexedDocument};
use crate::email::{decode_email, email_document, Email};
use crate::message::{decode_message, message_document, Message};
use vstd::prelude::*;

verus! {

/// What a change record says happened to a record of the store.
#[derive(Clone, Copy, PartialEq, Eq, Structural)]
pub enum Operation {
    Insert,
    Modify,
    Remove,
    /// An event kind that this pipeline does not act on.
    Unrecognized,
}

/// One change event with the images of the record before and after it.
pub struct ChangeRecord {
    pub operation: Operation,
    pub new_image: Option<AttributeMap>,
    pub old_image: Option<AttributeMap>,
}

pub struct RecordView {
    pub operation: Operation,
    pub new_image: Option<AttrSeq>,
    pub old_image: Option<AttrSeq>,
}

pub open spec fn image_view(m: Option<AttributeMap>) -> Option<AttrSeq> {
    match m {
        Some(a) => Some(a@),
        None => None,
    }
}

impl View for ChangeRecord {
    type V = RecordView;

    open spec fn view(&self) -> RecordView {
        RecordView {
            operation: self.operation,
            new_image: image_view(self.new_image),
            old_image: image_view(self.old_image),
        }
    }
}

pub open spec fn records_view(s: Seq<ChangeRecord>) -> Seq<RecordView> {
    s.map_values(|r: ChangeRecord| r@)
}

/// Which kind of record the index projects, and so how images decode.
#[derive(Clone, Copy, PartialEq, Eq, Structural)]
pub enum DocumentKind {
    Email,
    Message,
}

/// The document an attribute image projects to, if it decodes.
pub open spec fn decode_document(kind: DocumentKind, m: AttrSeq) -> Option<DocView> {
    match kind {
        DocumentKind::Email => match decode_email(m) {
            Ok(e) => Some(email_document(e)),
            Err(_) => None,
        },
        DocumentKind::Message => match decode_message(m) {
            Ok(msg) => Some(message_document(msg)),
            Err(_) => None,
        },
    }
}

/// The image that an operation reads: the new one for an insert or a
/// modification, the last known one for a removal.
pub open spec fn record_image(r: RecordView) -> Option<AttrSeq> {
    match r.operation {
        Operation::Insert => r.new_image,
        Operation::Modify => r.new_image,
        Operation::Remove => r.old_image,
        Operation::Unrecognized => None,
    }
}

/// The document that a record's image decodes to, if any.
pub open spec fn record_document(kind: DocumentKind, r: RecordView) -> Option<DocView> {
    match record_image(r) {
        Some(m) => decode_document(kind, m),
        None => None,
    }
}

/// How a record is counted.
pub enum Outcome {
    Created,
    Updated,
    Deleted,
    Skipped,
}

pub open spec fn record_outcome(kind: DocumentKind, r: RecordView) -> Outcome {
    if record_document(kind, r) is None {
        Outcome::Skipped
    } else {
        match r.operation {
            Operation::Insert => Outcome::Created,
            Operation::Modify => Outcome::Updated,
            Operation::Remove => Outcome::Deleted,
            Operation::Unrecognized => Outcome::Skipped,
        }
    }
}

/// An operation staged against the index.
pub enum IndexOp {
    /// Add the document.
    Add(IndexedDocument),
    /// Delete every document whose identity field holds this value.
    DeleteIdentity(String),
}

pub enum OpView {
    Add(DocView),
    DeleteIdentity(Seq<char>),
}

impl View for IndexOp {
    type V = OpView;

    open spec fn view(&self) -> OpView {
        match self {
            IndexOp::Add(d) => OpView::Add(d@),
            IndexOp::DeleteIdentity(id) => OpView::DeleteIdentity(id@),
        }
    }
}

pub open spec fn ops_view(s: Seq<IndexOp>) -> Seq<OpView> {
    s.map_values(|o: IndexOp| o@)
}

/// The operations one record stages: an insert or a modification deletes
/// the identity and adds the new document (so that a replay converges); a
/// removal deletes the identity; a record that does not decode stages nothing.
pub open spec fn record_ops(kind: DocumentKind, r: RecordView) -> Seq<OpView> {
    match record_document(kind, r) {
        None => seq![],
        Some(d) => match r.operation {
            Operation::Insert => seq![OpView::DeleteIdentity(d.identity), OpView::Add(d)],
            Operation::Modify => seq![OpView::DeleteIdentity(d.identity), OpView::Add(d)],
            Operation::Remove => seq![OpView::DeleteIdentity(d.identity)],
            Operation::Unrecognized => seq![],
        },
    }
}

/// The operations a batch stages: those of each record, in delivery order.
pub open spec fn batch_ops(kind: DocumentKind, rs: Seq<RecordView>) -> Seq<OpView>
    decreases rs.len(),
{
    if rs.len() == 0 {
        seq![]
    } else {
        batch_ops(kind, rs.drop_last()) + record_ops(kind, rs.last())
    }
}

/// How many records of a batch have the given outcome.
pub open spec fn outcome_count(kind: DocumentKind, rs: Seq<RecordView>, o: Outcome) -> nat
    decreases rs.len(),
{
    if rs.len() == 0 {
        0
    } else {
        outcome_count(kind, rs.drop_last(), o) + if record_outcome(kind, rs.last()) == o {
            1nat
        } else {
            0nat
        }
    }
}

/// Tally of a batch.
pub struct ApplyReport {
    pub total: u64,
    pub created: u64,
    pub updated: u64,
    pub deleted: u64,
    pub skipped: u64,
}

/// What to stage for a batch, all before its single commit, and its tally.
pub struct BatchPlan {
    pub ops: Vec<IndexOp>,
    pub report: ApplyReport,
}

/// Decodes an image into the document of the given kind.
pub fn decode_image(kind: DocumentKind, image: &AttributeMap) -> (r: Option<IndexedDocument>)
    ensures
        match r {
            Some(d) => decode_document(kind, image@) == Some(d@),
            None => decode_document(kind, image@) is None,
        },
{
    match kind {
        DocumentKind::Email => match Email::from(image) {
            Ok(e) => Some(e.to_document()),
            Err(_) => None,
        },
        DocumentKind::Message => match Message::from(image) {
            Ok(m) => Some(m.to_document()),
            Err(_) => None,
        },
    }
}

/// The document that a record's operation reads from its image.
pub fn record_document_of(kind: DocumentKind, record: &ChangeRecord) -> (r: Option<IndexedDocument>)
    ensures
        match r {
            Some(d) => record_document(kind, record@) == Some(d@),
            None => record_document(kind, record@) is None,
        },
{
    let image = match record.operation {
        Operation::Insert => &record.new_image,
        Operation::Modify => &record.new_image,
        Operation::Remove => &record.old_image,
        Operation::Unrecognized => return None,
    };
    match image {
        Some(m) => decode_image(kind, m),
        None => None,
    }
}

/// Plans a batch: the operations of every record in delivery order, a
/// record that does not decode being skipped without failing the batch,
/// and the count of each outcome.
pub fn plan_batch(kind: DocumentKind, records: &Vec<ChangeRecord>) -> (plan: BatchPlan)
    ensures
        ops_view(plan.ops@) == batch_ops(kind, records_view(records@)),
        plan.report.total == records.len(),
        plan.report.created == outcome_count(kind, records_view(records@), Outcome::Created),
        plan.report.updated == outcome_count(kind, records_view(records@), Outcome::Updated),
        plan.report.deleted == outcome_count(kind, records_view(records@), Outcome::Deleted),
        plan.report.skipped == outcome_count(kind, records_view(records@), Outcome::Skipped),
        plan.report.created + plan.report.updated + plan.report.deleted + plan.report.skipped
            == plan.report.total,
{
    let ghost rs = records_view(records@);
    let mut ops: Vec<IndexOp> = Vec::new();
    let mut created: u64 = 0;
    let mut updated: u64 = 0;
    let mut deleted: u64 = 0;
    let mut skipped: u64 = 0;
    let mut i: usize = 0;
    while i < records.len()
        invariant
            i <= records.len(),
            rs == records_view(records@),
            ops_view(ops@) == batch_ops(kind, rs.take(i as int)),
            created == outcome_count(kind, rs.take(i as int), Outcome::Created),
            updated == outcome_count(kind, rs.take(i as int), Outcome::Updated),
            deleted == outcome_count(kind, rs.take(i as int), Outcome::Deleted),
            skipped == outcome_count(kind, rs.take(i as int), Outcome::Skipped),
            created + updated + deleted + skipped == i,
        decreases records.len() - i,
    {
        let record = &records[i];
        let ghost prefix = rs.take(i as int);
        let ghost next = rs.take(i + 1);
        assert(next.drop_last() =~= prefix);
        assert(next.last() == record@);
        let ghost before = ops_view(ops@);
        match record_document_of(kind, record) {
            None => {
                skipped += 1;
            },
            Some(doc) => match record.operation {
                Operation::Insert => {
                    ops.push(IndexOp::DeleteIdentity(doc.identity.clone()));
                    ops.push(IndexOp::Add(doc));
                    created += 1;
                },
                Operation::Modify => {
                    ops.push(IndexOp::DeleteIdentity(doc.identity.clone()));
                    ops.push(IndexOp::Add(doc));
                    updated += 1;
                },
                Operation::Remove => {
                    ops.push(IndexOp::DeleteIdentity(doc.identity));
                    deleted += 1;
                },
                Operation::Unrecognized => {
                    skipped += 1;
                },
            },
        }
        assert(ops_view(ops@) =~= before + record_ops(kind, record@));
        i += 1;
    }
    assert(rs.take(records.len() as int) =~= rs);
    BatchPlan {
        ops,
        report: ApplyReport { total: records.len() as u64, created, updated, deleted, skipped },
    }
}

} // verus!
