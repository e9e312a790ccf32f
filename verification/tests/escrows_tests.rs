use star_escrow::escrows::{
    escrow_listing, escrows_document, events_of, find_escrows, status_document, status_document_of,
};
use star_escrow::json::Json;

const EVENTS: &str = r#"[
  {"topic": ["escrow_created", "x"], "value": ["GPAYER", "GFREE", 5000000, "Logo"]},
  {"topic": ["work_submitted"], "value": ["GPAYER", "GFREE", 1, "m"]},
  {"topic": ["escrow_created"], "value": ["GOTHER", "GF2", 7, "Site"]},
  {"topic": ["escrow_created"], "value": ["GPAYER", "GF3", "12", "Audit"]},
  {"topic": ["escrow_created"], "value": ["GPAYER"]}
]"#;

fn s(x: &str) -> Json {
    Json::Str(x.to_string())
}

fn num(n: u64) -> Json {
    Json::Number(serde_json::Number::from(n))
}

fn record(contract: &str, payer: Json, freelancer: Json, amount: Json, milestone: Json) -> Json {
    Json::Object(vec![
        ("contract_id".to_string(), s(contract)),
        ("payer".to_string(), payer),
        ("freelancer".to_string(), freelancer),
        ("amount".to_string(), amount),
        ("milestone".to_string(), milestone),
    ])
}

#[test]
fn finds_only_the_payers_created_escrows() {
    let recs = find_escrows(EVENTS.as_bytes(), "CESCROW", "GPAYER");
    assert_eq!(
        recs,
        vec![
            record("CESCROW", s("GPAYER"), s("GFREE"), num(5000000), s("Logo")),
            record("CESCROW", s("GPAYER"), s("GF3"), s("12"), s("Audit")),
            record("CESCROW", s("GPAYER"), Json::Null, Json::Null, Json::Null),
        ]
    );
}

#[test]
fn no_escrows_in_output_that_is_not_an_array() {
    assert!(find_escrows(b"not json", "C", "GPAYER").is_empty());
    assert!(find_escrows(b"{\"topic\": [\"escrow_created\"]}", "C", "GPAYER").is_empty());
    assert!(find_escrows(b"", "C", "GPAYER").is_empty());
    assert!(find_escrows(b"[]", "C", "GPAYER").is_empty());
}

#[test]
fn empty_payer_matches_events_without_a_string_payer() {
    let out = br#"[{"topic": ["escrow_created"], "value": [42]}, {"topic": ["escrow_created"]}, {"topic": ["escrow_created"], "value": ["G"]}]"#;
    let recs = find_escrows(out, "C", "");
    assert_eq!(recs.len(), 2);
    assert_eq!(recs[0], record("C", num(42), Json::Null, Json::Null, Json::Null));
}

#[test]
fn listing_shows_each_escrow() {
    let recs = find_escrows(EVENTS.as_bytes(), "CESCROW", "GPAYER");
    assert_eq!(
        escrow_listing("GPAYER", &recs),
        vec![
            "Escrows for payer GPAYER:".to_string(),
            "  [1] contract=CESCROW milestone=Logo amount=5000000 freelancer=GFREE".to_string(),
            "  [2] contract=CESCROW milestone=Audit amount=\"12\" freelancer=GF3".to_string(),
            "  [3] contract=CESCROW milestone=- amount=null freelancer=-".to_string(),
        ]
    );
}

#[test]
fn listing_says_when_there_are_none() {
    assert_eq!(
        escrow_listing("GNOBODY", &Vec::new()),
        vec!["No escrows found for payer GNOBODY".to_string()]
    );
}

#[test]
fn listing_numbers_past_nine() {
    let recs: Vec<Json> = (0..11).map(|_| record("C", s("P"), s("F"), num(1), s("M"))).collect();
    let lines = escrow_listing("P", &recs);
    assert_eq!(lines.len(), 12);
    assert_eq!(lines[11], "  [11] contract=C milestone=M amount=1 freelancer=F");
}

#[test]
fn escrows_document_wraps_records() {
    let recs = vec![record("C", s("P"), s("F"), num(1), s("M"))];
    let doc = escrows_document(recs);
    let inner = doc.get("escrows").unwrap();
    assert_eq!(inner.at(0).unwrap().get("payer").unwrap().as_str().unwrap(), "P");
    assert!(inner.at(1).is_none());
}

#[test]
fn status_document_parses_json_output() {
    let doc = status_document("  {\"status\": \"Funded\", \"amount\": 10}\n");
    assert_eq!(doc.get("status").unwrap(), &s("ok"));
    let escrow = doc.get("escrow").unwrap();
    assert_eq!(escrow.get("status").unwrap(), &s("Funded"));
    assert_eq!(escrow.get("amount").unwrap(), &num(10));
}

#[test]
fn status_document_keeps_non_json_output_as_text() {
    let doc = status_document("\n  AAAA-xdr-blob \n");
    assert_eq!(doc.get("escrow").unwrap(), &s("AAAA-xdr-blob"));
}

#[test]
fn json_lookups_follow_serde_indexing() {
    let v = Json::Object(vec![("a".to_string(), Json::Array(vec![s("x"), Json::Bool(true)]))]);
    assert_eq!(v.get("a").unwrap().at(1), Some(&Json::Bool(true)));
    assert!(v.get("b").is_none());
    assert!(v.get("a").unwrap().at(2).is_none());
    assert!(s("x").get("a").is_none());
    assert!(s("x").at(0).is_none());
    assert_eq!(v.get("a").unwrap().at(0).unwrap().as_str().map(|t| t.as_str()), Some("x"));
    assert_eq!(v.into_field("a").into_items().len(), 2);
}

#[test]
fn events_of_takes_array_elements_only() {
    assert_eq!(events_of(None), Vec::<Json>::new());
    assert_eq!(events_of(Some(s("x"))), Vec::<Json>::new());
    assert_eq!(events_of(Some(Json::Array(vec![s("a"), Json::Null]))), vec![s("a"), Json::Null]);
}

#[test]
fn status_document_of_falls_back_to_text() {
    let doc = status_document_of(None, "raw".to_string());
    assert_eq!(doc.get("escrow").unwrap(), &s("raw"));
    let doc = status_document_of(Some(num(3)), "3".to_string());
    assert_eq!(doc.get("escrow").unwrap(), &num(3));
    assert_eq!(doc.get("status").unwrap(), &s("ok"));
}

#[test]
fn escrows_document_prints_as_pretty_json() {
    let recs = vec![record("C", s("P"), s("F"), num(1), s("M"))];
    let text = star_escrow::json::report_text(true, &escrows_document(recs), "");
    let v: serde_json::Value = serde_json::from_str(&text).unwrap();
    assert_eq!(
        v,
        parse(r#"{"escrows": [{"contract_id": "C", "payer": "P", "freelancer": "F",
            "amount": 1, "milestone": "M"}]}"#)
    );
    assert!(text.contains("\n  \"escrows\": ["));
}


fn parse(text: &str) -> serde_json::Value {
    serde_json::from_str(text).unwrap()
}

#[test]
fn escrows_of_joined_event_lists() {
    let all = find_escrows(EVENTS.as_bytes(), "C", "GPAYER");
    let first = find_escrows(br#"[{"topic": ["escrow_created", "x"], "value": ["GPAYER", "GFREE", 5000000, "Logo"]}, {"topic": ["work_submitted"], "value": ["GPAYER", "GFREE", 1, "m"]}]"#, "C", "GPAYER");
    let second = find_escrows(br#"[{"topic": ["escrow_created"], "value": ["GOTHER", "GF2", 7, "Site"]}, {"topic": ["escrow_created"], "value": ["GPAYER", "GF3", "12", "Audit"]}, {"topic": ["escrow_created"], "value": ["GPAYER"]}]"#, "C", "GPAYER");
    let mut joined = first;
    joined.extend(second);
    assert_eq!(all, joined);
}
