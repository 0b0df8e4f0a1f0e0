use dynamodb_email_indexer::attribute_helper::{AttrValue, AttributeMap};
use dynamodb_email_indexer::change::{plan_batch, BatchPlan, ChangeRecord, DocumentKind, IndexOp, Operation};
use dynamodb_email_indexer::document::{FieldValue, IndexedDocument};

fn email_image(id: &str, subject: &str, body: Option<&str>) -> AttributeMap {
    let mut entries = vec![
        ("id".to_string(), AttrValue::S(id.to_string())),
        ("timestamp".to_string(), AttrValue::S("1700000000".to_string())),
        ("subject".to_string(), AttrValue::S(subject.to_string())),
    ];
    if let Some(b) = body {
        entries.push(("body".to_string(), AttrValue::S(b.to_string())));
    }
    entries.push(("to".to_string(), AttrValue::Ss(vec!["a@x.com".to_string()])));
    AttributeMap { entries }
}

fn record(operation: Operation, image: AttributeMap) -> ChangeRecord {
    match operation {
        Operation::Remove => ChangeRecord { operation, new_image: None, old_image: Some(image) },
        _ => ChangeRecord { operation, new_image: Some(image), old_image: None },
    }
}

fn commit(index: &mut Vec<IndexedDocument>, plan: BatchPlan) {
    for op in plan.ops {
        match op {
            IndexOp::Add(d) => index.push(d),
            IndexOp::DeleteIdentity(id) => index.retain(|d| d.identity != id),
        }
    }
}

fn subject_of(d: &IndexedDocument) -> String {
    d.fields
        .iter()
        .find_map(|(k, v)| match v {
            FieldValue::Text(t) if k == "subject" => Some(t.clone()),
            _ => None,
        })
        .unwrap()
}

#[test]
fn insert_stages_delete_then_add() {
    let plan = plan_batch(DocumentKind::Email, &vec![record(Operation::Insert, email_image("e1", "hello", Some("world")))]);
    assert_eq!(plan.ops.len(), 2);
    assert!(matches!(&plan.ops[0], IndexOp::DeleteIdentity(id) if id == "e1"));
    assert!(matches!(&plan.ops[1], IndexOp::Add(d) if d.identity == "e1"));
    assert_eq!((plan.report.total, plan.report.created, plan.report.skipped), (1, 1, 0));
}

#[test]
fn replayed_insert_leaves_one_document() {
    let mut index: Vec<IndexedDocument> = Vec::new();
    let batch = || vec![record(Operation::Insert, email_image("e1", "hello", Some("world")))];
    commit(&mut index, plan_batch(DocumentKind::Email, &batch()));
    assert_eq!(index.len(), 1);
    commit(&mut index, plan_batch(DocumentKind::Email, &batch()));
    assert_eq!(index.len(), 1);
    assert_eq!(index[0].identity, "e1");
    assert_eq!(subject_of(&index[0]), "hello");
}

#[test]
fn insert_modify_remove_leaves_nothing() {
    let mut index: Vec<IndexedDocument> = Vec::new();
    commit(&mut index, plan_batch(DocumentKind::Email, &vec![record(Operation::Insert, email_image("e2", "keep", Some("b")))]));
    commit(&mut index, plan_batch(DocumentKind::Email, &vec![record(Operation::Insert, email_image("e1", "v1", Some("b")))]));
    let modify = plan_batch(DocumentKind::Email, &vec![record(Operation::Modify, email_image("e1", "v2", Some("b")))]);
    assert_eq!(modify.report.updated, 1);
    commit(&mut index, modify);
    assert_eq!(index.iter().filter(|d| d.identity == "e1").count(), 1);
    assert_eq!(subject_of(index.iter().find(|d| d.identity == "e1").unwrap()), "v2");
    let remove = plan_batch(DocumentKind::Email, &vec![record(Operation::Remove, email_image("e1", "v2", Some("b")))]);
    assert_eq!(remove.report.deleted, 1);
    commit(&mut index, remove);
    assert_eq!(index.iter().filter(|d| d.identity == "e1").count(), 0);
    assert_eq!(index.len(), 1);
    assert_eq!(index[0].identity, "e2");
}

#[test]
fn batch_visible_only_after_its_commit() {
    let committed: Vec<IndexedDocument> = Vec::new();
    let plan = plan_batch(
        DocumentKind::Email,
        &vec![
            record(Operation::Insert, email_image("e1", "a", Some("b"))),
            record(Operation::Insert, email_image("e2", "c", Some("d"))),
        ],
    );
    // Staging is separate from what readers see: before the commit the
    // snapshot is the committed state, after it every staged effect.
    let snapshot_before: Vec<String> = committed.iter().map(|d| d.identity.clone()).collect();
    assert!(snapshot_before.is_empty());
    let mut after = committed;
    commit(&mut after, plan);
    let ids: Vec<&str> = after.iter().map(|d| d.identity.as_str()).collect();
    assert_eq!(ids, vec!["e1", "e2"]);
}

#[test]
fn missing_body_is_skipped() {
    let plan = plan_batch(
        DocumentKind::Email,
        &vec![
            record(Operation::Insert, email_image("e1", "hello", None)),
            record(Operation::Insert, email_image("e2", "hello", Some("world"))),
        ],
    );
    assert_eq!(plan.report.total, 2);
    assert_eq!(plan.report.skipped, 1);
    assert_eq!(plan.report.created, 1);
    assert_eq!(plan.report.updated, 0);
    assert_eq!(plan.ops.len(), 2);
    assert!(matches!(&plan.ops[1], IndexOp::Add(d) if d.identity == "e2"));
}

#[test]
fn malformed_and_unrecognized_records_are_skipped() {
    let records = vec![
        ChangeRecord { operation: Operation::Insert, new_image: None, old_image: Some(email_image("e1", "a", Some("b"))) },
        ChangeRecord { operation: Operation::Remove, new_image: Some(email_image("e1", "a", Some("b"))), old_image: None },
        ChangeRecord { operation: Operation::Unrecognized, new_image: Some(email_image("e1", "a", Some("b"))), old_image: None },
    ];
    let plan = plan_batch(DocumentKind::Email, &records);
    assert_eq!(plan.ops.len(), 0);
    assert_eq!((plan.report.total, plan.report.skipped), (3, 3));
    assert_eq!((plan.report.created, plan.report.updated, plan.report.deleted), (0, 0, 0));
}

#[test]
fn empty_batch() {
    let plan = plan_batch(DocumentKind::Email, &vec![]);
    assert_eq!(plan.ops.len(), 0);
    assert_eq!(plan.report.total, 0);
}

#[test]
fn message_batch_uses_composite_identity() {
    let image = AttributeMap {
        entries: vec![
            ("PK".to_string(), AttrValue::S("p".to_string())),
            ("SK".to_string(), AttrValue::S("s".to_string())),
            ("subject".to_string(), AttrValue::S("x".to_string())),
            ("body".to_string(), AttrValue::S("y".to_string())),
        ],
    };
    let plan = plan_batch(DocumentKind::Message, &vec![record(Operation::Remove, image)]);
    assert_eq!(plan.report.deleted, 1);
    assert!(matches!(&plan.ops[0], IndexOp::DeleteIdentity(id) if id == "p:s"));
}
