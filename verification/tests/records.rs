use conoha_acme::dns::{
    build_validation_record, cleanup_delete_urls, records_to_delete, validation_record_name,
    Record, RecordListResponse,
};

fn record(id: Option<&str>, name: &str) -> Record {
    Record {
        id: id.map(|s| s.to_string()),
        name: name.to_string(),
        record_type: "TXT".to_string(),
        data: String::new(),
        ttl: None,
        priority: None,
        description: None,
    }
}

#[test]
fn validation_record_name_is_exact() {
    assert_eq!(validation_record_name("a.com"), "_acme-challenge.a.com.");
}

#[test]
fn build_validation_record_fields() {
    let r = build_validation_record("_acme-challenge.a.com.", "tokval");
    assert_eq!(r.name, "_acme-challenge.a.com.");
    assert_eq!(r.record_type, "TXT");
    assert_eq!(r.data, "tokval");
    assert_eq!(r.ttl, Some(60));
    assert!(r.id.is_none());
    assert!(r.priority.is_none());
    assert!(r.description.is_none());
}

#[test]
fn cleanup_deletes_all_matches_and_no_others() {
    let records = RecordListResponse {
        records: vec![
            record(Some("1"), "_acme-challenge.a.com."),
            record(Some("2"), "other.a.com."),
            record(Some("3"), "_acme-challenge.a.com."),
        ],
    };
    let ids = records_to_delete(&records, "_acme-challenge.a.com.");
    assert_eq!(ids, vec!["1".to_string(), "3".to_string()]);
}

#[test]
fn cleanup_is_idempotent() {
    let records = RecordListResponse {
        records: vec![
            record(Some("1"), "_acme-challenge.a.com."),
            record(Some("2"), "other.a.com."),
            record(Some("3"), "_acme-challenge.a.com."),
        ],
    };
    let first = records_to_delete(&records, "_acme-challenge.a.com.");
    assert_eq!(first.len(), 2);
    let survivors = RecordListResponse {
        records: records
            .records
            .into_iter()
            .filter(|r| !(r.name == "_acme-challenge.a.com." && r.id.is_some()))
            .collect(),
    };
    let second = records_to_delete(&survivors, "_acme-challenge.a.com.");
    assert!(second.is_empty());
}

#[test]
fn cleanup_of_absent_record_is_noop() {
    let records = RecordListResponse { records: vec![record(Some("2"), "other.a.com.")] };
    let ids = records_to_delete(&records, "_acme-challenge.a.com.");
    assert!(ids.is_empty());
}

#[test]
fn cleanup_delete_urls_are_exact() {
    let records = RecordListResponse {
        records: vec![
            record(Some("1"), "_acme-challenge.a.com."),
            record(Some("2"), "other.a.com."),
            record(Some("3"), "_acme-challenge.a.com."),
        ],
    };
    let urls = cleanup_delete_urls("zid", &records, "_acme-challenge.a.com.");
    assert_eq!(
        urls,
        vec![
            "https://dns-service.tyo1.conoha.io/v1/domains/zid/records/1".to_string(),
            "https://dns-service.tyo1.conoha.io/v1/domains/zid/records/3".to_string(),
        ]
    );
}
