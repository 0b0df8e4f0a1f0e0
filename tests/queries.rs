use dynamodb_email_indexer::attribute_helper::{AttrValue, AttributeMap};
use dynamodb_email_indexer::change::{plan_batch, ChangeRecord, DocumentKind, IndexOp, Operation};
use dynamodb_email_indexer::document::FieldValue;
use dynamodb_email_indexer::email::Email;
use dynamodb_email_indexer::hydrate::{
    chunk_bounds, chunk_identities, email_lookup_keys, hydrate_rows, next_fetch_step, FetchStep, BATCH_GET_LIMIT,
};
use dynamodb_email_indexer::message::Message;
use dynamodb_email_indexer::message_hydrate::{hydrate_message_rows, message_lookup_keys, MessageId};
use dynamodb_email_indexer::schema::{EmailIndexSchema, IndexSchema};
use dynamodb_email_indexer::search::{assemble_response, prepare_search, should_reload, EMAIL_RELOAD_INTERVAL_MS};
use dynamodb_email_indexer::search_request::SearchRequest;
use dynamodb_email_indexer::search_response::SearchResponse;

fn email(id: &str) -> Email {
    Email {
        id: id.to_string(),
        timestamp: Some(1),
        subject: format!("subject {id}"),
        body: "body".to_string(),
        to: vec!["a@x.com".to_string()],
    }
}

fn ids(v: &[&str]) -> Vec<String> {
    v.iter().map(|s| s.to_string()).collect()
}

#[test]
fn hydration_keeps_rank_order() {
    let rows = vec![email("C").attributes(), email("A").attributes(), email("B").attributes()];
    let out = hydrate_rows(&ids(&["A", "B", "C"]), &rows);
    let got: Vec<&str> = out.iter().map(|e| e.id.as_str()).collect();
    assert_eq!(got, vec!["A", "B", "C"]);
    assert_eq!(out[0].subject, "subject A");
}

#[test]
fn hydration_drops_missing_and_undecodable() {
    let mut bad = email("B").attributes();
    bad.entries.retain(|(k, _)| k != "body");
    let rows = vec![bad, email("C").attributes()];
    let out = hydrate_rows(&ids(&["A", "B", "C"]), &rows);
    let got: Vec<&str> = out.iter().map(|e| e.id.as_str()).collect();
    assert_eq!(got, vec!["C"]);
}

#[test]
fn chunking_250_identities() {
    let all: Vec<String> = (0..250).map(|i| format!("id{i}")).collect();
    let chunks = chunk_identities(&all, BATCH_GET_LIMIT);
    let sizes: Vec<usize> = chunks.iter().map(|c| c.len()).collect();
    assert_eq!(sizes, vec![100, 100, 50]);
    assert_eq!(chunks.concat(), all);
    let keys = email_lookup_keys(&chunks[2]);
    assert_eq!(keys.len(), 50);
    assert!(matches!(&keys[0].entries[0], (k, AttrValue::S(v)) if k == "id" && v == "id200"));
    let rows: Vec<AttributeMap> = (0..250).step_by(3).map(|i| email(&format!("id{i}")).attributes()).collect();
    let out = hydrate_rows(&all, &rows);
    assert_eq!(out.len(), 84);
    assert!(out.len() <= 250);
}

#[test]
fn chunk_bounds_edges() {
    assert_eq!(chunk_bounds(0, 100), vec![]);
    assert_eq!(chunk_bounds(100, 100), vec![(0, 100)]);
    assert_eq!(chunk_bounds(101, 100), vec![(0, 100), (100, 101)]);
}

#[test]
fn retry_schedule() {
    assert!(matches!(next_fetch_step(0, 1), FetchStep::Done));
    assert!(matches!(next_fetch_step(3, 0), FetchStep::RetryAfter(50)));
    assert!(matches!(next_fetch_step(3, 2), FetchStep::RetryAfter(200)));
    assert!(matches!(next_fetch_step(3, 4), FetchStep::RetryAfter(800)));
    assert!(matches!(next_fetch_step(3, 5), FetchStep::GiveUp));
}

#[test]
fn reload_policy() {
    assert!(!should_reload(EMAIL_RELOAD_INTERVAL_MS, EMAIL_RELOAD_INTERVAL_MS));
    assert!(should_reload(EMAIL_RELOAD_INTERVAL_MS + 1, EMAIL_RELOAD_INTERVAL_MS));
    assert!(!should_reload(0, EMAIL_RELOAD_INTERVAL_MS));
}

#[test]
fn search_without_query() {
    let r = prepare_search(&SearchRequest { query: None, limit: Some(5) });
    let resp = r.err().unwrap();
    assert_eq!(resp.error.as_deref(), Some("query is required"));
    assert!(resp.emails.is_none() && resp.index_num_docs.is_none() && resp.query_num_docs.is_none());
}

#[test]
fn search_limit_defaults_to_ten() {
    let p = prepare_search(&SearchRequest { query: Some("hello".to_string()), limit: None }).ok().unwrap();
    assert_eq!((p.text.as_str(), p.limit), ("hello", 10));
    let p = prepare_search(&SearchRequest { query: Some("x".to_string()), limit: Some(3) }).ok().unwrap();
    assert_eq!(p.limit, 3);
}

#[test]
fn response_envelopes() {
    let e = SearchResponse::error("unexpected token");
    assert_eq!(e.error.as_deref(), Some("unexpected token"));
    assert!(e.emails.is_none());
    let s = SearchResponse::success(7, 2, vec![email("A")]);
    assert_eq!((s.index_num_docs, s.query_num_docs), (Some(7), Some(2)));
    assert!(s.error.is_none());
    assert_eq!(s.emails.unwrap().len(), 1);
}

#[test]
fn insert_then_search_example() {
    let image = AttributeMap {
        entries: vec![
            ("id".to_string(), AttrValue::S("e1".to_string())),
            ("subject".to_string(), AttrValue::S("hello".to_string())),
            ("body".to_string(), AttrValue::S("world".to_string())),
            ("to".to_string(), AttrValue::Ss(vec!["a@x.com".to_string()])),
        ],
    };
    let stored = AttributeMap { entries: image.entries.iter().map(|(k, v)| (k.clone(), v.clone_value())).collect() };
    let plan = plan_batch(
        DocumentKind::Email,
        &vec![ChangeRecord { operation: Operation::Insert, new_image: Some(image), old_image: None }],
    );
    assert_eq!((plan.report.created, plan.report.skipped), (1, 0));
    let doc = match &plan.ops[1] {
        IndexOp::Add(d) => d,
        _ => panic!("expected an add"),
    };
    assert!(doc.fields.iter().any(|(k, v)| k == "subject" && matches!(v, FieldValue::Text(t) if t == "hello")));
    let p = prepare_search(&SearchRequest { query: Some("hello".to_string()), limit: Some(10) }).ok().unwrap();
    assert_eq!(p.limit, 10);
    let resp = assemble_response(1, 1, &ids(&["e1"]), &vec![stored]);
    assert_eq!(resp.query_num_docs, Some(1));
    let emails = resp.emails.unwrap();
    assert_eq!(emails.len(), 1);
    assert_eq!(emails[0].id, "e1");
    assert_eq!(emails[0].to, vec!["a@x.com".to_string()]);
    assert_eq!(emails[0].timestamp, None);
}

#[test]
fn schema_default_fields() {
    assert_eq!(EmailIndexSchema::new().default_fields(), ids(&["id", "timestamp", "subject", "body", "to"]));
    assert_eq!(IndexSchema::new().default_fields(), ids(&["pk", "sk", "subject", "body"]));
}

#[test]
fn message_hydration_order() {
    let m = |pk: &str, sk: &str| Message { pk: pk.to_string(), sk: sk.to_string(), subject: "s".to_string(), body: "b".to_string() };
    let wanted = vec![
        MessageId { pk: "p".to_string(), sk: "2".to_string() },
        MessageId { pk: "p".to_string(), sk: "1".to_string() },
        MessageId { pk: "q".to_string(), sk: "1".to_string() },
    ];
    let keys = message_lookup_keys(&wanted, 1, 3);
    assert_eq!(keys.len(), 2);
    assert!(matches!(&keys[0].entries[1], (k, AttrValue::S(v)) if k == "SK" && v == "1"));
    let rows = vec![m("p", "1").attributes(), m("p", "2").attributes()];
    let out = hydrate_message_rows(&wanted, &rows);
    let got: Vec<(&str, &str)> = out.iter().map(|x| (x.pk.as_str(), x.sk.as_str())).collect();
    assert_eq!(got, vec![("p", "2"), ("p", "1")]);
}
