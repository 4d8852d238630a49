//! Lookups in the loaded configuration document.
use vstd::prelude::*;
use crate::value::{Json, Value, get_member, member};
use crate::jobs::AtJobDetail;
use crate::templates::{load_filter, replaced, source_query};

verus! {

/// Why a job cannot be configured.
#[derive(Debug, PartialEq)]
pub enum ConfigError {
    /// No text is configured under this key.
    Missing(String),
    /// The document is not an object.
    NotAnObject,
    /// The document names this member twice.
    DuplicateName(String),
}

/// The text that a looked-up value holds, if it is text.
pub open spec fn text_of(j: Option<Json>) -> Option<Seq<char>> {
    match j {
        Some(Json::Text(t)) => Some(t),
        _ => None,
    }
}

/// The member `key` of a looked-up value, if there is one.
pub open spec fn member_of(j: Option<Json>, key: Seq<char>) -> Option<Json> {
    match j {
        Some(v) => member(v, key),
        None => None,
    }
}

/// The text configured under `key`.
pub fn config_text(config: &Value, key: &str) -> (r: Result<String, ConfigError>)
    ensures
        match r {
            Ok(t) => text_of(member(config@, key@)) == Some(t@),
            Err(ConfigError::Missing(k)) => k@ == key@ && text_of(member(config@, key@)) is None,
            Err(ConfigError::NotAnObject) => false,
            Err(ConfigError::DuplicateName(_)) => false,
        },
{
    match get_member(config, key) {
        Some(Value::Text(t)) => Ok(t.clone()),
        _ => Err(ConfigError::Missing(key.to_owned())),
    }
}

/// The text configured under `inner` within the object under `outer`.
pub fn nested_text(config: &Value, outer: &str, inner: &str) -> (r: Result<String, ConfigError>)
    ensures
        match r {
            Ok(t) => text_of(member_of(member(config@, outer@), inner@)) == Some(t@),
            Err(ConfigError::Missing(k)) => k@ == inner@ && text_of(
                member_of(member(config@, outer@), inner@),
            ) is None,
            Err(ConfigError::NotAnObject) => false,
            Err(ConfigError::DuplicateName(_)) => false,
        },
{
    match get_member(config, outer) {
        Some(v) => config_text(v, inner),
        None => Err(ConfigError::Missing(inner.to_owned())),
    }
}

/// `a` followed by `b`.
pub fn joined(a: &str, b: &str) -> (r: String)
    ensures
        r@ == a@ + b@,
{
    let mut t = a.to_owned();
    t.append(b);
    t
}

/// The configuration key of the record-store address for a year.
pub open spec fn url_key(year: Seq<char>) -> Seq<char> {
    "url_"@ + year
}

/// The configuration key of the endpoint names for a table type.
pub open spec fn endpoint_key(kind: Seq<char>) -> Seq<char> {
    "api_endpoint_"@ + kind
}

/// Resolves a record-store job against the configuration: its address
/// (`url_{year}`), its endpoint (`api_endpoint_{type}` then the endpoint
/// name) and its token (`auth_token`); also returns the directory of the
/// schema documents (`job_config_path`). Other fields are kept.
pub fn resolve_record_store_job(config: &Value, job: &AtJobDetail) -> (r: Result<(AtJobDetail, String), ConfigError>)
    ensures
        match r {
            Ok((j, path)) => {
                &&& text_of(member(config@, url_key(job.year@))) == Some(j.airtable_url@)
                &&& text_of(member(config@, "job_config_path"@)) == Some(path@)
                &&& text_of(member_of(member(config@, endpoint_key(job.airtables_type@)), job.airtable_endpoint@))
                    == Some(j.api_endpoint@)
                &&& text_of(member(config@, "auth_token"@)) == Some(j.auth_token@)
                &&& j.airtables_type@ == job.airtables_type@
                &&& j.airtable_endpoint@ == job.airtable_endpoint@
                &&& j.year@ == job.year@
                &&& j.offset_value@ == job.offset_value@
            },
            Err(ConfigError::Missing(k)) => {
                ||| k@ == url_key(job.year@) && text_of(member(config@, k@)) is None
                ||| k@ == "job_config_path"@ && text_of(member(config@, k@)) is None
                ||| k@ == job.airtable_endpoint@ && text_of(
                    member_of(member(config@, endpoint_key(job.airtables_type@)), k@),
                ) is None
                ||| k@ == "auth_token"@ && text_of(member(config@, k@)) is None
            },
            Err(ConfigError::NotAnObject) => false,
            Err(ConfigError::DuplicateName(_)) => false,
        },
{
    let url_name = joined("url_", job.year.as_str());
    let url = config_text(config, url_name.as_str())?;
    let path = config_text(config, "job_config_path")?;
    let group = joined("api_endpoint_", job.airtables_type.as_str());
    let endpoint = nested_text(config, group.as_str(), job.airtable_endpoint.as_str())?;
    let token = config_text(config, "auth_token")?;
    let resolved = AtJobDetail {
        airtables_type: job.airtables_type.clone(),
        airtable_endpoint: job.airtable_endpoint.clone(),
        year: job.year.clone(),
        api_endpoint: endpoint,
        airtable_url: url,
        auth_token: token,
        offset_value: job.offset_value.clone(),
    };
    Ok((resolved, path))
}

/// The path of a schema document: `{config_path}/{family}/{year}/{table}.json`.
pub fn schema_path(config_path: &str, family: &str, year: &str, table: &str) -> (r: String)
    ensures
        r@ == config_path@ + "/"@ + family@ + "/"@ + year@ + "/"@ + table@ + ".json"@,
{
    let mut p = config_path.to_owned();
    p.append("/");
    p.append(family);
    p.append("/");
    p.append(year);
    p.append("/");
    p.append(table);
    p.append(".json");
    p
}

/// Whether no two members share a name.
pub open spec fn names_distinct<T>(es: Seq<(Seq<char>, T)>) -> bool {
    forall|i: int, j: int| 0 <= i < j < es.len() ==> (#[trigger] es[i]).0 != (#[trigger] es[j]).0
}

/// Whether no two pairs share their first text.
pub open spec fn names_unique(ps: Seq<(String, String)>) -> bool {
    forall|i: int, j: int| 0 <= i < j < ps.len() ==> (#[trigger] ps[i]).0@ != (#[trigger] ps[j]).0@
}

/// Whether some two members share the name `k`.
pub open spec fn name_repeated<T>(es: Seq<(Seq<char>, T)>, k: Seq<char>) -> bool {
    exists|i: int, j: int| 0 <= i < j < es.len() && (#[trigger] es[i]).0 == k && (#[trigger] es[j]).0 == k
}

/// Whether every member of an object document is text.
pub open spec fn all_text(es: Seq<(Seq<char>, Json)>) -> bool {
    forall|i: int| 0 <= i < es.len() ==> (#[trigger] es[i]).1 is Text
}

/// The members of a document whose members are all text, under distinct
/// names: each name and its text, in the document's order.
pub fn text_entries(doc: &Value) -> (r: Result<Vec<(String, String)>, ConfigError>)
    ensures
        match r {
            Ok(es) => doc@ is Object && all_text(doc@->Object_0) && names_distinct(doc@->Object_0)
                && names_unique(es@) && es@.len() == doc@->Object_0.len() && forall|i: int|
                0 <= i < es@.len() ==> (#[trigger] doc@->Object_0[i]) == (
                    es@[i].0@,
                    Json::Text(es@[i].1@),
                ),
            Err(ConfigError::NotAnObject) => !(doc@ is Object),
            Err(ConfigError::Missing(k)) => doc@ is Object && exists|i: int|
                0 <= i < doc@->Object_0.len() && (#[trigger] doc@->Object_0[i]).0 == k@ && !(
                doc@->Object_0[i].1 is Text),
            Err(ConfigError::DuplicateName(k)) => doc@ is Object && all_text(doc@->Object_0)
                && name_repeated(doc@->Object_0, k@),
        },
{
    match doc {
        Value::Object(entries) => {
            let ghost es = doc@->Object_0;
            let mut out: Vec<(String, String)> = Vec::new();
            let mut i: usize = 0;
            while i < entries.len()
                invariant
                    *doc == Value::Object(*entries),
                    es == doc@->Object_0,
                    es.len() == entries@.len(),
                    forall|k: int| 0 <= k < es.len() ==> es[k] == (entries@[k].0@, entries@[k].1@),
                    i <= es.len(),
                    out@.len() == i,
                    forall|k: int| 0 <= k < i ==> es[k] == (out@[k].0@, Json::Text(#[trigger] out@[k].1@)),
                decreases es.len() - i,
            {
                match &entries[i].1 {
                    Value::Text(t) => {
                        out.push((entries[i].0.clone(), t.clone()));
                    },
                    _ => {
                        assert(es[i as int].0 == entries@[i as int].0@);
                        assert(!(entries@[i as int].1@ is Text));
                        return Err(ConfigError::Missing(entries[i].0.clone()));
                    },
                }
                i = i + 1;
            }
            assert forall|k: int| 0 <= k < es.len() implies (#[trigger] es[k]).1 is Text by {
                assert(es[k] == (out@[k].0@, Json::Text(out@[k].1@)));
            }
            let mut j: usize = 0;
            while j < out.len()
                invariant
                    es.len() == out@.len(),
                    forall|k: int| 0 <= k < es.len() ==> es[k] == ((#[trigger] out@[k]).0@, Json::Text(out@[k].1@)),
                    es == doc@->Object_0,
                    *doc == Value::Object(*entries),
                    all_text(es),
                    j <= out@.len(),
                    forall|a: int, b: int| 0 <= a < b < j ==> (#[trigger] es[a]).0 != (#[trigger] es[b]).0,
                decreases out@.len() - j,
            {
                let mut i: usize = 0;
                while i < j
                    invariant
                        es.len() == out@.len(),
                        forall|k: int| 0 <= k < es.len() ==> es[k] == ((#[trigger] out@[k]).0@, Json::Text(out@[k].1@)),
                    es == doc@->Object_0,
                    *doc == Value::Object(*entries),
                    all_text(es),
                        i <= j < out@.len(),
                        forall|a: int, b: int| 0 <= a < b < j ==> (#[trigger] es[a]).0 != (#[trigger] es[b]).0,
                        forall|a: int| 0 <= a < i ==> (#[trigger] es[a]).0 != es[j as int].0,
                    decreases j - i,
                {
                    if out[i].0 == out[j].0 {
                        assert(es[i as int].0 == out@[i as int].0@ && es[j as int].0 == out@[j as int].0@);
                        assert(name_repeated(es, out@[j as int].0@));
                        return Err(ConfigError::DuplicateName(out[j].0.clone()));
                    }
                    assert(es[i as int].0 == out@[i as int].0@ && es[j as int].0 == out@[j as int].0@);
                    i = i + 1;
                }
                j = j + 1;
            }
            assert forall|a: int, b: int| 0 <= a < b < out@.len() implies (#[trigger] out@[a]).0@ != (#[trigger] out@[b]).0@ by {
                assert(es[a].0 != es[b].0);
            }
            Ok(out)
        },
        _ => Err(ConfigError::NotAnObject),
    }
}

/// The query of each warehouse source table, under distinct table names: the
/// document maps each table to a template, filled with the project, the dataset and the filter on the
/// execution date.
pub fn source_tables(doc: &Value, project: &str, dataset: &str, execution_date: &str) -> (r: Result<Vec<(String, String)>, ConfigError>)
    ensures
        match r {
            Ok(qs) => doc@ is Object && all_text(doc@->Object_0) && names_distinct(doc@->Object_0)
                && names_unique(qs@) && qs@.len() == doc@->Object_0.len()
                && forall|i: int|
                0 <= i < qs@.len() ==> {
                    &&& (#[trigger] qs@[i]).0@ == doc@->Object_0[i].0
                    &&& Json::Text(qs@[i].1@) == Json::Text(replaced(
                        replaced(
                            replaced(doc@->Object_0[i].1->Text_0, "{EMARSYS_GOOGLE_PROJECT}"@, project@),
                            "{SRC_DATASET}"@,
                            dataset@,
                        ),
                        "{SQL_FILTER}"@,
                        load_filter(execution_date@),
                    ))
                },
            Err(ConfigError::NotAnObject) => !(doc@ is Object),
            Err(ConfigError::Missing(k)) => doc@ is Object && exists|i: int|
                0 <= i < doc@->Object_0.len() && (#[trigger] doc@->Object_0[i]).0 == k@ && !(
                doc@->Object_0[i].1 is Text),
            Err(ConfigError::DuplicateName(k)) => doc@ is Object && all_text(doc@->Object_0)
                && name_repeated(doc@->Object_0, k@),
        },
{
    let templates = text_entries(doc)?;
    let ghost es = doc@->Object_0;
    let mut out: Vec<(String, String)> = Vec::new();
    let mut i: usize = 0;
    while i < templates.len()
        invariant
            es == doc@->Object_0,
            templates@.len() == es.len(),
            forall|k: int| 0 <= k < es.len() ==> es[k] == ((#[trigger] templates@[k]).0@, Json::Text(templates@[k].1@)),
            i <= es.len(),
            out@.len() == i,
            forall|k: int| 0 <= k < i ==> {
                &&& (#[trigger] out@[k]).0@ == es[k].0
                &&& out@[k].1@ == replaced(
                    replaced(replaced(es[k].1->Text_0, "{EMARSYS_GOOGLE_PROJECT}"@, project@), "{SRC_DATASET}"@, dataset@),
                    "{SQL_FILTER}"@,
                    load_filter(execution_date@),
                )
            },
        decreases es.len() - i,
    {
        let q = source_query(templates[i].1.as_str(), project, dataset, execution_date);
        assert(es[i as int].1->Text_0 == templates@[i as int].1@);
        out.push((templates[i].0.clone(), q));
        i = i + 1;
    }
    assert forall|a: int, b: int| 0 <= a < b < out@.len() implies (#[trigger] out@[a]).0@ != (#[trigger] out@[b]).0@ by {
        assert(es[a].0 != es[b].0);
    }
    Ok(out)
}

} // verus!
