//! Column mappings: how each source field of a record becomes an output column.
use vstd::prelude::*;
use crate::value::{Json, Value, get_member, member, same_text};

verus! {

/// The declared type of an output column.
#[derive(Clone, Copy, Debug, PartialEq, Eq, Structural)]
pub enum ColumnType {
    /// The value is taken as it is.
    Text,
    /// The value is a list whose first element is taken.
    List,
}

/// One entry of a column mapping: `source_field` becomes the column `target_field`.
#[derive(Clone, Debug, PartialEq)]
pub struct ColumnMapping {
    pub source_field: String,
    pub target_field: String,
    pub target_type: ColumnType,
}

/// The model of a [`ColumnMapping`].
pub struct MappingModel {
    pub source: Seq<char>,
    pub target: Seq<char>,
    pub target_type: ColumnType,
}

impl View for ColumnMapping {
    type V = MappingModel;

    open spec fn view(&self) -> MappingModel {
        MappingModel {
            source: self.source_field@,
            target: self.target_field@,
            target_type: self.target_type,
        }
    }
}

/// The model of a schema: its mappings, in the order they were declared.
pub open spec fn schema_model(s: Seq<ColumnMapping>) -> Seq<MappingModel> {
    s.map_values(|m: ColumnMapping| m@)
}

/// Why a schema cannot be read or applied.
#[derive(Debug, PartialEq)]
pub enum SchemaError {
    /// The schema document is not an object.
    NotAnObject,
    /// The entry for this source field lacks a textual `new` or `type`.
    MalformedEntry(String),
    /// Two entries map to this output column.
    AmbiguousTarget(String),
}

/// The type that a `type` text declares: `list`, or anything else as text.
pub open spec fn declared_type(t: Seq<char>) -> ColumnType {
    if t == "list"@ {
        ColumnType::List
    } else {
        ColumnType::Text
    }
}

/// The mapping that one member `{source: {"new": target, "type": type}}` of a
/// schema document declares, if it is well formed.
pub open spec fn entry_mapping(e: (Seq<char>, Json)) -> Option<MappingModel> {
    match (member(e.1, "new"@), member(e.1, "type"@)) {
        (Some(Json::Text(target)), Some(Json::Text(t))) => Some(
            MappingModel { source: e.0, target: target, target_type: declared_type(t) },
        ),
        _ => None,
    }
}

/// The mappings that a schema document declares, in its order.
pub open spec fn document_mappings(es: Seq<(Seq<char>, Json)>) -> Seq<MappingModel> {
    Seq::new(es.len(), |i: int| entry_mapping(es[i])->Some_0)
}

/// Whether every member of the document is a well-formed entry.
pub open spec fn document_well_formed(es: Seq<(Seq<char>, Json)>) -> bool {
    forall|i: int| 0 <= i < es.len() ==> (#[trigger] entry_mapping(es[i])) is Some
}

fn text_member(v: &Value, key: &str) -> (r: Option<String>)
    ensures
        match r {
            Some(t) => member(v@, key@) == Some(Json::Text(t@)),
            None => !(member(v@, key@) matches Some(Json::Text(_))),
        },
{
    match get_member(v, key) {
        Some(Value::Text(t)) => Some(t.clone()),
        _ => None,
    }
}

/// Reads a schema document `{source: {"new": target, "type": type}, ...}`
/// into its column mappings, in the document's order.
pub fn schema_from_document(doc: &Value) -> (r: Result<Vec<ColumnMapping>, SchemaError>)
    ensures
        match r {
            Ok(s) => doc@ is Object && document_well_formed(doc@->Object_0) && schema_model(s@)
                == document_mappings(doc@->Object_0),
            Err(SchemaError::NotAnObject) => !(doc@ is Object),
            Err(SchemaError::MalformedEntry(f)) => doc@ is Object && exists|i: int|
                0 <= i < doc@->Object_0.len() && (#[trigger] doc@->Object_0[i]).0 == f@
                    && entry_mapping(doc@->Object_0[i]) is None,
            Err(_) => false,
        },
{
    match doc {
        Value::Object(entries) => {
            let ghost es = doc@->Object_0;
            let mut out: Vec<ColumnMapping> = Vec::new();
            let mut i: usize = 0;
            while i < entries.len()
                invariant
                    *doc == Value::Object(*entries),
                    es == doc@->Object_0,
                    es.len() == entries@.len(),
                    forall|k: int| 0 <= k < es.len() ==> es[k] == (entries@[k].0@, entries@[k].1@),
                    i <= es.len(),
                    out@.len() == i,
                    forall|k: int| 0 <= k < i ==> entry_mapping(es[k]) == Some(#[trigger] out@[k]@),
                decreases es.len() - i,
            {
                let entry = &entries[i];
                let target = text_member(&entry.1, "new");
                let kind = text_member(&entry.1, "type");
                match (target, kind) {
                    (Some(target), Some(kind)) => {
                        let target_type = if same_text(kind.as_str(), "list") {
                            ColumnType::List
                        } else {
                            ColumnType::Text
                        };
                        out.push(
                            ColumnMapping {
                                source_field: entry.0.clone(),
                                target_field: target,
                                target_type: target_type,
                            },
                        );
                    },
                    _ => {
                        assert(es[i as int].0 == entry.0@ && entry_mapping(es[i as int]) is None);
                        return Err(SchemaError::MalformedEntry(entry.0.clone()));
                    },
                }
                i = i + 1;
            }
            assert forall|k: int| 0 <= k < es.len() implies (#[trigger] entry_mapping(es[k])) is Some by {
                assert(entry_mapping(es[k]) == Some(out@[k]@));
            }
            assert(schema_model(out@) =~= document_mappings(es));
            Ok(out)
        },
        _ => Err(SchemaError::NotAnObject),
    }
}

} // verus!
