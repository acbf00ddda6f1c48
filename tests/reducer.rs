use ffi_bridge::categories::summarize_categories;
use ffi_bridge::codec::{decode_value, encode_item, single_entry, stored_entry, tag_value_text, value_bytes, TagPair};
use ffi_bridge::envelope::{
    categories_envelope, entries_envelope, failure_envelope, import_envelope, prefixed_failure,
    success_envelope,
};
use ffi_bridge::import::{finish_import, plan_import, CategoryPlan, CategoryReport, ImportReport, ItemPlan};
use ffi_bridge::json::{to_json_text, JsonMember, JsonValue};
use ffi_bridge::marshal::{planned_count, store_uri};

fn model(v: &serde_json::Value) -> JsonValue {
    match v {
        serde_json::Value::Null => JsonValue::Null,
        serde_json::Value::Bool(b) => JsonValue::Bool(*b),
        serde_json::Value::Number(n) => JsonValue::Number(n.to_string()),
        serde_json::Value::String(s) => JsonValue::Str(s.clone()),
        serde_json::Value::Array(a) => JsonValue::Array(a.iter().map(model).collect()),
        serde_json::Value::Object(m) => JsonValue::Object(
            m.iter()
                .map(|(k, v)| JsonMember { key: k.clone(), value: model(v) })
                .collect(),
        ),
    }
}

fn parse(text: &str) -> JsonValue {
    model(&serde_json::from_str::<serde_json::Value>(text).unwrap())
}

fn as_json(text: &str) -> serde_json::Value {
    serde_json::from_str(text).unwrap()
}

/// Runs an import whose inserts the engine answers with `taken`.
fn import_with(payload: &str, taken: bool) -> (Vec<CategoryPlan>, ImportReport) {
    let plan = plan_import(&parse(payload)).ok().unwrap();
    let outcomes: Vec<Vec<bool>> = plan
        .iter()
        .map(|cp| match &cp.items {
            Some(ps) => ps
                .iter()
                .map(|p| matches!(p, ItemPlan::Insert(_)) && taken)
                .collect(),
            None => Vec::new(),
        })
        .collect();
    assert!(planned_count(&plan).is_some());
    let report = finish_import(&plan, &outcomes);
    (plan, report)
}

#[test]
fn canonical_text_matches_serde_json() {
    let text = r#"{"b":[1,-2.5,true,null,"x\"y\n"],"a":{},"c":[]}"#;
    let v: serde_json::Value = serde_json::from_str(text).unwrap();
    assert_eq!(to_json_text(&model(&v)), serde_json::to_string(&v).unwrap());
}

#[test]
fn tag_values_are_coerced_to_text() {
    assert_eq!(tag_value_text(&JsonValue::Str("v".to_string())), "v");
    assert_eq!(tag_value_text(&JsonValue::Number("12".to_string())), "12");
    assert_eq!(tag_value_text(&JsonValue::Bool(true)), "true");
    assert_eq!(tag_value_text(&JsonValue::Bool(false)), "false");
    assert_eq!(tag_value_text(&JsonValue::Null), "null");
}

#[test]
fn item_encodes_value_and_tags() {
    let item = parse(r#"{"name":"a","value":{"x":1},"tags":{"t":"v","n":3}}"#);
    let rec = encode_item(&item, "creds").unwrap();
    assert_eq!(rec.category, "creds");
    assert_eq!(rec.name, "a");
    assert_eq!(rec.value, r#"{"x":1}"#);
    let tags: Vec<(String, String)> = rec.tags.iter().map(|t| (t.name.clone(), t.value.clone())).collect();
    assert_eq!(tags, vec![("n".to_string(), "3".to_string()), ("t".to_string(), "v".to_string())]);
}

#[test]
fn item_without_value_stores_null() {
    let rec = encode_item(&parse(r#"{"name":"a"}"#), "c").unwrap();
    assert_eq!(rec.value, "null");
    assert!(rec.tags.is_empty());
}

#[test]
fn malformed_items_are_rejected() {
    assert!(encode_item(&parse(r#"{"value":{}}"#), "c").is_none());
    assert!(encode_item(&parse(r#"{"name":7}"#), "c").is_none());
    assert!(encode_item(&parse(r#""a""#), "c").is_none());
}

#[test]
fn single_entry_keeps_raw_text() {
    let rec = single_entry("k", "{\"raw\": 1}");
    assert_eq!(rec.category, "item");
    assert_eq!(rec.name, "k");
    assert_eq!(rec.value, "{\"raw\": 1}");
    assert!(rec.tags.is_empty());
}

#[test]
fn stored_values_decode_or_show_marker() {
    assert_eq!(decode_value(b"hello"), "hello");
    assert_eq!(decode_value(&[0xff, 0xfe]), "<binary data>");
    assert_eq!(decode_value(b""), "");
}

#[test]
fn missing_name_counts_as_failure() {
    let (_, report) = import_with(r#"{"creds":[{"value":{}}]}"#, true);
    assert_eq!(
        as_json(&import_envelope(&report)),
        as_json(r#"{"success":true,"imported":0,"failed":1,"categories":{"creds":{"imported":0,"failed":1}}}"#)
    );
}

#[test]
fn non_object_root_is_refused() {
    let err = plan_import(&parse(r#""not an object""#)).err().unwrap();
    let env = as_json(&failure_envelope(&err.message()));
    assert_eq!(env["success"], serde_json::Value::Bool(false));
    assert!(env["error"].is_string());
    assert!(env.get("imported").is_none());
    assert!(plan_import(&parse("[1,2]")).is_err());
}

#[test]
fn imported_item_is_listed_under_its_category() {
    let (plan, report) = import_with(r#"{"creds":[{"name":"a","value":{"x":1},"tags":{"t":"v"}}]}"#, true);
    assert_eq!(report.imported, 1);
    let cats: Vec<String> = plan
        .iter()
        .flat_map(|cp| cp.items.iter().flatten())
        .filter_map(|p| match p {
            ItemPlan::Insert(rec) => Some(rec.category.clone()),
            ItemPlan::Malformed => None,
        })
        .collect();
    let summary = summarize_categories(&cats);
    assert_eq!(
        as_json(&categories_envelope(&summary)),
        as_json(r#"{"success":true,"categories":{"creds":1},"total":1}"#)
    );
}

const MIXED: &str = r#"{"a":[{"name":"x"},{"nope":1},{"name":"y","value":[1,2]}],"b":{"name":"z"},"c":5,"d":"s"}"#;

#[test]
fn every_candidate_is_counted_once() {
    let (_, report) = import_with(MIXED, true);
    assert_eq!(report.imported + report.failed, 4);
    let rows: Vec<(String, u64, u64)> =
        report.categories.iter().map(|r| (r.category.clone(), r.imported, r.failed)).collect();
    assert_eq!(rows, vec![("a".to_string(), 2, 1), ("b".to_string(), 1, 0)]);
}

#[test]
fn counts_follow_engine_answers() {
    let (_, first) = import_with(MIXED, true);
    assert_eq!((first.imported, first.failed), (3, 1));
    let (_, again) = import_with(MIXED, true);
    assert_eq!((again.imported, again.failed), (3, 1));
    let (_, refused) = import_with(MIXED, false);
    assert_eq!((refused.imported, refused.failed), (0, 4));
}

#[test]
fn single_object_is_a_batch_of_one() {
    let (plan, report) = import_with(r#"{"k":{"name":"n"}}"#, true);
    assert_eq!(plan.len(), 1);
    assert_eq!(plan[0].items.as_ref().unwrap().len(), 1);
    assert_eq!((report.imported, report.failed), (1, 0));
}

#[test]
fn empty_payload_gives_empty_report() {
    let (_, report) = import_with("{}", true);
    assert_eq!(
        as_json(&import_envelope(&report)),
        as_json(r#"{"success":true,"imported":0,"failed":0,"categories":{}}"#)
    );
}

#[test]
fn report_numbers_print_in_decimal() {
    let report = ImportReport {
        imported: 1234,
        failed: 0,
        categories: vec![CategoryReport { category: "q\"r".to_string(), imported: 1234, failed: 0 }],
    };
    assert_eq!(
        import_envelope(&report),
        r#"{"success":true,"imported":1234,"failed":0,"categories":{"q\"r":{"imported":1234,"failed":0}}}"#
    );
}

#[test]
fn categories_are_counted() {
    let cats = vec!["a".to_string(), "b".to_string(), "a".to_string()];
    let summary = summarize_categories(&cats);
    assert_eq!(summary.total, 3);
    assert_eq!(
        as_json(&categories_envelope(&summary)),
        as_json(r#"{"success":true,"categories":{"a":2,"b":1},"total":3}"#)
    );
    let empty = summarize_categories(&Vec::new());
    assert_eq!(categories_envelope(&empty), r#"{"success":true,"categories":{},"total":0}"#);
}

#[test]
fn envelopes_for_success_and_failure() {
    assert_eq!(success_envelope(), r#"{"success":true}"#);
    assert_eq!(failure_envelope("bad \"x\""), r#"{"success":false,"error":"bad \"x\""}"#);
    assert_eq!(
        prefixed_failure("Failed to open store: ", "locked"),
        r#"{"success":false,"error":"Failed to open store: locked"}"#
    );
}

#[test]
fn entries_are_listed() {
    let e = stored_entry(
        "k".to_string(),
        "item".to_string(),
        b"v1",
        vec![TagPair { name: "t".to_string(), value: "v".to_string() }],
    );
    let bin = stored_entry("b".to_string(), "c".to_string(), &[0xc3], Vec::new());
    assert_eq!(
        as_json(&entries_envelope(&vec![e, bin])),
        as_json(
            r#"{"success":true,"entries":[{"name":"k","category":"item","value":"v1","tags":[{"name":"t","value":"v"}]},{"name":"b","category":"c","value":"<binary data>","tags":[]}]}"#
        )
    );
}

#[test]
fn store_uri_names_the_sqlite_file() {
    assert_eq!(store_uri("/tmp/w.db"), "sqlite:///tmp/w.db");
}

#[test]
fn written_value_bytes_decode_to_the_text() {
    let rec = single_entry("k", "héllo");
    let bytes = value_bytes(&rec);
    assert_eq!(bytes, "héllo".as_bytes().to_vec());
    assert_eq!(decode_value(&bytes), "héllo");
}
