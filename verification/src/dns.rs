//! DNS data model, zone resolution, and the record provisioning plans.
//!
//! Zone resolution maps a full hostname to the first zone in the account's
//! list that is authoritative for it; the provisioning plans say exactly
//! which record to create and which records to delete.

use vstd::prelude::*;
use crate::errors::ProvisionError;
use crate::strutil::{ends_with_spec, str_eq, str_ends_with};

verus! {

/// A DNS zone owned by the account. Only `id` and `name` matter to the
/// workflow; the rest is informational.
pub struct Domain {
    pub id: Option<String>,
    pub name: String,
    pub ttl: Option<i32>,
    pub serial: Option<i32>,
    pub email: String,
    pub gslb: Option<i32>,
    pub description: Option<String>,
}

/// A DNS record inside a zone. `id` is absent until the record is created.
pub struct Record {
    pub id: Option<String>,
    pub name: String,
    pub record_type: String,
    pub data: String,
    pub ttl: Option<i32>,
    pub priority: Option<i32>,
    pub description: Option<String>,
}

/// The zone list as returned by the domains endpoint.
pub struct DomainListResponse {
    pub domains: Vec<Domain>,
}

/// The record list of one zone as returned by the records endpoint.
pub struct RecordListResponse {
    pub records: Vec<Record>,
}

/// A zone name with its trailing separator stripped, if present.
pub open spec fn strip_dot_spec(zone_name: Seq<char>) -> Seq<char> {
    if zone_name.len() > 0 && zone_name.last() == '.' {
        zone_name.drop_last()
    } else {
        zone_name
    }
}

/// The zone named `zone_name` is authoritative for `full`: after stripping
/// the trailing separator, `full` equals the zone name or ends with
/// `"." + zone_name`.
pub open spec fn zone_matches(full: Seq<char>, zone_name: Seq<char>) -> bool {
    let z = strip_dot_spec(zone_name);
    full == z || ends_with_spec(full, seq!['.'] + z)
}

/// Position `i` holds the first zone in `zs` that matches `full`.
pub open spec fn is_first_match(zs: Seq<Domain>, full: Seq<char>, i: int) -> bool {
    &&& 0 <= i < zs.len()
    &&& zone_matches(full, zs[i].name@)
    &&& forall|j: int| 0 <= j < i ==> !zone_matches(full, zs[j].name@)
}

/// Some zone in `zs` matches `full`.
pub open spec fn some_zone_matches(zs: Seq<Domain>, full: Seq<char>) -> bool {
    exists|i: int| 0 <= i < zs.len() && zone_matches(full, zs[i].name@)
}

/// The first match is unique.
pub proof fn lemma_first_match_unique(zs: Seq<Domain>, full: Seq<char>, i: int, j: int)
    requires
        is_first_match(zs, full, i),
        is_first_match(zs, full, j),
    ensures
        i == j,
{
}

/// A zone name with its trailing separator stripped, if present; a name
/// without one is returned unchanged.
pub fn get_domain_without_dot(domain_with_dot: &str) -> (r: String)
    ensures
        r@ == strip_dot_spec(domain_with_dot@),
{
    let n = domain_with_dot.unicode_len();
    if n > 0 && domain_with_dot.get_char(n - 1) == '.' {
        let r = String::from_str(domain_with_dot.substring_char(0, n - 1));
        assert(r@ =~= domain_with_dot@.drop_last());
        r
    } else {
        String::from_str(domain_with_dot)
    }
}

/// `full_domain` equals `domain` or ends with `"." + domain`.
pub fn is_same_domain(full_domain: &str, domain: &str) -> (r: bool)
    ensures
        r == (full_domain@ == domain@ || ends_with_spec(full_domain@, seq!['.'] + domain@)),
{
    if str_eq(full_domain, domain) {
        true
    } else {
        let dotted = String::from_str(".").concat(domain);
        proof {
            reveal_strlit(".");
        }
        assert(dotted@ =~= seq!['.'] + domain@);
        str_ends_with(full_domain, dotted.as_str())
    }
}

/// The zone named `zone_name` is authoritative for `full_domain`.
pub fn domain_matches(full_domain: &str, zone_name: &str) -> (r: bool)
    ensures
        r == zone_matches(full_domain@, zone_name@),
{
    let stripped = get_domain_without_dot(zone_name);
    is_same_domain(full_domain, stripped.as_str())
}

/// Select the zone authoritative for `full_domain`: the first matching zone
/// in list order wins. Fails with `NotFound` when no zone matches, and with
/// `Deserialization` when the matching zone carries no id.
pub fn resolve(domains: &DomainListResponse, full_domain: &str) -> (r: Result<
    String,
    ProvisionError,
>)
    ensures
        !some_zone_matches(domains.domains@, full_domain@) ==> (r matches Err(e)
            && e matches ProvisionError::NotFound(d) && d@ == full_domain@),
        some_zone_matches(domains.domains@, full_domain@) ==> exists|i: int|
            is_first_match(domains.domains@, full_domain@, i),
        forall|i: int|
            is_first_match(domains.domains@, full_domain@, i) ==> match domains.domains@[i].id {
                Some(zid) => r matches Ok(id) && id@ == zid@,
                None => r matches Err(e) && e matches ProvisionError::Deserialization(_),
            },
{
    let n = domains.domains.len();
    let mut idx: usize = 0;
    while idx < n
        invariant
            idx <= n,
            n == domains.domains@.len(),
            forall|j: int| 0 <= j < idx ==> !zone_matches(full_domain@, domains.domains@[j].name@),
        decreases n - idx,
    {
        let d = &domains.domains[idx];
        if domain_matches(full_domain, d.name.as_str()) {
            assert(is_first_match(domains.domains@, full_domain@, idx as int));
            proof {
                assert forall|i: int|
                    is_first_match(domains.domains@, full_domain@, i) implies i == idx as int by {
                    lemma_first_match_unique(domains.domains@, full_domain@, i, idx as int);
                }
            }
            match &d.id {
                Some(zid) => {
                    return Ok(zid.clone());
                },
                None => {
                    return Err(
                        ProvisionError::Deserialization(
                            String::from_str("matched zone has no id"),
                        ),
                    );
                },
            }
        }
        idx += 1;
    }
    Err(ProvisionError::NotFound(String::from_str(full_domain)))
}

/// URL of the zone list endpoint.
pub open spec fn domains_url_spec() -> Seq<char> {
    "https://dns-service.tyo1.conoha.io/v1/domains"@
}

pub fn domains_url() -> (r: String)
    ensures
        r@ == domains_url_spec(),
{
    String::from_str("https://dns-service.tyo1.conoha.io/v1/domains")
}

/// URL of the record collection of one zone.
pub open spec fn records_url_spec(zone_id: Seq<char>) -> Seq<char> {
    "https://dns-service.tyo1.conoha.io/v1/domains/"@ + zone_id + "/records"@
}

pub fn records_url(zone_id: &str) -> (r: String)
    ensures
        r@ == records_url_spec(zone_id@),
{
    let r = String::from_str("https://dns-service.tyo1.conoha.io/v1/domains/").concat(
        zone_id,
    ).concat("/records");
    assert(r@ =~= records_url_spec(zone_id@));
    r
}

/// URL of one record of one zone.
pub open spec fn record_url_spec(zone_id: Seq<char>, record_id: Seq<char>) -> Seq<char> {
    "https://dns-service.tyo1.conoha.io/v1/domains/"@ + zone_id + "/records/"@ + record_id
}

pub fn record_url(zone_id: &str, record_id: &str) -> (r: String)
    ensures
        r@ == record_url_spec(zone_id@, record_id@),
{
    let r = String::from_str("https://dns-service.tyo1.conoha.io/v1/domains/").concat(
        zone_id,
    ).concat("/records/").concat(record_id);
    assert(r@ =~= record_url_spec(zone_id@, record_id@));
    r
}

/// Name of the validation record for a domain.
pub open spec fn record_name_spec(full_domain: Seq<char>) -> Seq<char> {
    "_acme-challenge."@ + full_domain + "."@
}

pub fn validation_record_name(full_domain: &str) -> (r: String)
    ensures
        r@ == record_name_spec(full_domain@),
{
    let r = String::from_str("_acme-challenge.").concat(full_domain).concat(".");
    assert(r@ =~= record_name_spec(full_domain@));
    r
}

/// Build the TXT validation record: type "TXT", ttl 60, the validation token
/// as data, everything else empty.
pub fn build_validation_record(record_name: &str, validation_token: &str) -> (r: Record)
    ensures
        r.id is None,
        r.name@ == record_name@,
        r.record_type@ == "TXT"@,
        r.data@ == validation_token@,
        r.ttl == Some(60i32),
        r.priority is None,
        r.description is None,
{
    Record {
        id: None,
        name: String::from_str(record_name),
        record_type: String::from_str("TXT"),
        data: String::from_str(validation_token),
        ttl: Some(60),
        priority: None,
        description: None,
    }
}

/// Ids of the records that cleanup deletes: those whose name equals the
/// target exactly and which carry an id, in list order.
pub open spec fn delete_ids_spec(records: Seq<Record>, target: Seq<char>) -> Seq<Seq<char>>
    decreases records.len(),
{
    if records.len() == 0 {
        Seq::empty()
    } else {
        let prefix = delete_ids_spec(records.drop_last(), target);
        let rec = records.last();
        match rec.id {
            Some(id) => if rec.name@ == target {
                prefix.push(id@)
            } else {
                prefix
            },
            None => prefix,
        }
    }
}

/// List the ids of all records matching the cleanup target, in list order.
pub fn records_to_delete(records: &RecordListResponse, record_target: &str) -> (r: Vec<String>)
    ensures
        r@.map_values(|s: String| s@) == delete_ids_spec(records.records@, record_target@),
{
    let n = records.records.len();
    let mut out: Vec<String> = Vec::new();
    assert(out@.map_values(|s: String| s@) =~= delete_ids_spec(
        records.records@.take(0),
        record_target@,
    ));
    let mut idx: usize = 0;
    while idx < n
        invariant
            idx <= n,
            n == records.records@.len(),
            out@.map_values(|s: String| s@) == delete_ids_spec(
                records.records@.take(idx as int),
                record_target@,
            ),
        decreases n - idx,
    {
        let rec = &records.records[idx];
        proof {
            assert(records.records@.take(idx as int + 1).drop_last() =~= records.records@.take(
                idx as int,
            ));
            assert(records.records@.take(idx as int + 1).last() == records.records@[idx as int]);
        }
        match &rec.id {
            Some(id) => {
                if str_eq(rec.name.as_str(), record_target) {
                    let ghost prev = out@;
                    out.push(id.clone());
                    proof {
                        assert(out@.map_values(|s: String| s@) =~= prev.map_values(
                            |s: String| s@,
                        ).push(records.records@[idx as int].id.unwrap()@));
                    }
                }
            },
            None => {},
        }
        idx += 1;
    }
    proof {
        assert(records.records@.take(n as int) =~= records.records@);
    }
    out
}

/// The records that survive a cleanup pass: those that do not match the
/// target, together with matching records that carry no id (which cannot be
/// addressed for deletion).
pub open spec fn surviving_records_spec(records: Seq<Record>, target: Seq<char>) -> Seq<Record>
    decreases records.len(),
{
    if records.len() == 0 {
        Seq::empty()
    } else {
        let prefix = surviving_records_spec(records.drop_last(), target);
        let rec = records.last();
        match rec.id {
            Some(_) => if rec.name@ == target {
                prefix
            } else {
                prefix.push(rec)
            },
            None => prefix.push(rec),
        }
    }
}

/// Cleanup is idempotent: after one pass has deleted every matching record
/// that carries an id, a second pass over the surviving records deletes
/// nothing.
pub proof fn lemma_cleanup_idempotent(records: Seq<Record>, target: Seq<char>)
    ensures
        delete_ids_spec(surviving_records_spec(records, target), target) == Seq::<
            Seq<char>,
        >::empty(),
    decreases records.len(),
{
    if records.len() == 0 {
    } else {
        lemma_cleanup_idempotent(records.drop_last(), target);
        let prefix = surviving_records_spec(records.drop_last(), target);
        let rec = records.last();
        match rec.id {
            Some(_) => {
                if rec.name@ == target {
                } else {
                    assert(surviving_records_spec(records, target) == prefix.push(rec));
                    assert(prefix.push(rec).drop_last() =~= prefix);
                }
            },
            None => {
                assert(surviving_records_spec(records, target) == prefix.push(rec));
                assert(prefix.push(rec).drop_last() =~= prefix);
            },
        }
    }
}

/// The one POST that create mode performs: where, and with what body.
pub struct CreateRecordPlan {
    pub url: String,
    pub record: Record,
}

/// Plan create mode: resolve the zone owning `full_domain`, then build the
/// TXT validation record and the URL of that zone's record collection.
pub fn auth_plan(
    domains: &DomainListResponse,
    full_domain: &str,
    validation_token: &str,
) -> (r: Result<CreateRecordPlan, ProvisionError>)
    ensures
        !some_zone_matches(domains.domains@, full_domain@) ==> (r matches Err(e)
            && e matches ProvisionError::NotFound(d) && d@ == full_domain@),
        forall|i: int|
            is_first_match(domains.domains@, full_domain@, i) ==> match domains.domains@[i].id {
                Some(zid) => r matches Ok(p) && p.url@ == records_url_spec(zid@)
                    && p.record.id is None && p.record.name@ == record_name_spec(full_domain@)
                    && p.record.record_type@ == "TXT"@ && p.record.data@ == validation_token@
                    && p.record.ttl == Some(60i32) && p.record.priority is None
                    && p.record.description is None,
                None => r matches Err(e) && e matches ProvisionError::Deserialization(_),
            },
{
    match resolve(domains, full_domain) {
        Ok(zone_id) => {
            let name = validation_record_name(full_domain);
            Ok(
                CreateRecordPlan {
                    url: records_url(zone_id.as_str()),
                    record: build_validation_record(name.as_str(), validation_token),
                },
            )
        },
        Err(e) => Err(e),
    }
}

/// Plan cleanup mode for one zone: the DELETE URLs of all records whose
/// name equals the cleanup target, in list order. An empty result (no
/// record present) is a successful no-op.
pub fn cleanup_delete_urls(
    zone_id: &str,
    records: &RecordListResponse,
    record_target: &str,
) -> (r: Vec<String>)
    ensures
        r@.map_values(|s: String| s@) == delete_ids_spec(records.records@, record_target@)
            .map_values(|id: Seq<char>| record_url_spec(zone_id@, id)),
{
    let ids = records_to_delete(records, record_target);
    urls_for_ids(zone_id, &ids)
}

/// Map record ids to the DELETE URLs for one zone, keeping the order.
pub fn urls_for_ids(zone_id: &str, ids: &Vec<String>) -> (r: Vec<String>)
    ensures
        r@.map_values(|s: String| s@) == ids@.map_values(|s: String| s@).map_values(
            |id: Seq<char>| record_url_spec(zone_id@, id),
        ),
{
    let n = ids.len();
    let mut out: Vec<String> = Vec::new();
    let mut idx: usize = 0;
    while idx < n
        invariant
            idx <= n,
            n == ids@.len(),
            out@.len() == idx,
            forall|j: int|
                0 <= j < idx ==> out@.map_values(|s: String| s@)[j] == record_url_spec(
                    zone_id@,
                    ids@[j]@,
                ),
        decreases n - idx,
    {
        out.push(record_url(zone_id, ids[idx].as_str()));
        idx += 1;
    }
    assert(out@.map_values(|s: String| s@) =~= ids@.map_values(|s: String| s@).map_values(
        |id: Seq<char>| record_url_spec(zone_id@, id),
    ));
    out
}

} // verus!
