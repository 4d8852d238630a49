//! Reconciliation of decoded records against a declared column schema.
use vstd::prelude::*;
use crate::value::{Json, Value, copy_value, entry_value, find_entry, same_text, view_opt};
use crate::schema::{ColumnMapping, ColumnType, MappingModel, SchemaError, schema_model};

verus! {

/// One output column: its name, the type it was built with, one cell per record.
pub struct Column {
    pub name: String,
    pub column_type: ColumnType,
    pub cells: Vec<Value>,
}

/// The model of a [`Column`].
pub struct ColumnModel {
    pub name: Seq<char>,
    pub column_type: ColumnType,
    pub cells: Seq<Json>,
}

impl View for Column {
    type V = ColumnModel;

    open spec fn view(&self) -> ColumnModel {
        ColumnModel {
            name: self.name@,
            column_type: self.column_type,
            cells: self.cells@.map_values(|v: Value| v@),
        }
    }
}

/// A reconciled table: one column per schema entry, in the schema's order.
pub struct Table {
    pub columns: Vec<Column>,
}

impl View for Table {
    type V = Seq<ColumnModel>;

    open spec fn view(&self) -> Seq<ColumnModel> {
        self.columns@.map_values(|c: Column| c@)
    }
}

/// The models of a sequence of values.
pub open spec fn values_model(vs: Seq<Value>) -> Seq<Json> {
    vs.map_values(|v: Value| v@)
}

/// Whether a record member is the `fields` object that some sources nest
/// their payload under.
pub open spec fn is_wrapper(e: (Seq<char>, Json)) -> bool {
    e.0 == "fields"@ && e.1 is Object
}

/// The value of field `key` among the members `es` of a record, where the
/// members of a `fields` object count as members of the record itself and the
/// `fields` member does not.
pub open spec fn flat_value(es: Seq<(Seq<char>, Json)>, key: Seq<char>) -> Option<Json>
    decreases es.len(),
{
    if es.len() == 0 {
        None
    } else if is_wrapper(es[0]) && entry_value(es[0].1->Object_0, key) is Some {
        entry_value(es[0].1->Object_0, key)
    } else if !is_wrapper(es[0]) && es[0].0 == key {
        Some(es[0].1)
    } else {
        flat_value(es.drop_first(), key)
    }
}

/// The value of field `key` in a record; a record that is not an object has no fields.
pub open spec fn record_value(rec: Json, key: Seq<char>) -> Option<Json> {
    match rec {
        Json::Object(es) => flat_value(es, key),
        _ => None,
    }
}

/// Whether some record has field `key`.
pub open spec fn observed(records: Seq<Json>, key: Seq<char>) -> bool {
    exists|r: int| 0 <= r < records.len() && (#[trigger] record_value(records[r], key)) is Some
}

/// The first element of a list, or null.
pub open spec fn first_element(v: Json) -> Json {
    match v {
        Json::Array(items) => if items.len() > 0 {
            items[0]
        } else {
            Json::Null
        },
        _ => Json::Null,
    }
}

/// The cell that mapping `m` makes of one record.
pub open spec fn cell(rec: Json, m: MappingModel) -> Json {
    match record_value(rec, m.source) {
        None => Json::Null,
        Some(v) => if m.target_type == ColumnType::List {
            first_element(v)
        } else {
            v
        },
    }
}

/// The column that mapping `m` makes of the records. A field that no record
/// has becomes a column of nulls typed as text.
pub open spec fn column_for(records: Seq<Json>, m: MappingModel) -> ColumnModel {
    ColumnModel {
        name: m.target,
        column_type: if observed(records, m.source) {
            m.target_type
        } else {
            ColumnType::Text
        },
        cells: Seq::new(records.len(), |r: int| cell(records[r], m)),
    }
}

/// The reconciled table: one column per mapping, in the schema's order.
pub open spec fn reconciled(records: Seq<Json>, schema: Seq<MappingModel>) -> Seq<ColumnModel> {
    Seq::new(schema.len(), |c: int| column_for(records, schema[c]))
}

/// Whether no two mappings name the same output column.
pub open spec fn targets_distinct(schema: Seq<MappingModel>) -> bool {
    forall|i: int, j: int|
        0 <= i < j < schema.len() ==> (#[trigger] schema[i]).target != (#[trigger] schema[j]).target
}

/// The value of field `key` in record `rec`, as [`record_value`] defines it.
pub fn record_field<'a>(rec: &'a Value, key: &str) -> (r: Option<&'a Value>)
    ensures
        view_opt(r) == record_value(rec@, key@),
{
    match rec {
        Value::Object(entries) => {
            let ghost es = rec@->Object_0;
            assert(es.subrange(0, es.len() as int) =~= es);
            let mut i: usize = 0;
            while i < entries.len()
                invariant
                    *rec == Value::Object(*entries),
                    es == rec@->Object_0,
                    es.len() == entries@.len(),
                    forall|k: int| 0 <= k < es.len() ==> es[k] == (entries@[k].0@, entries@[k].1@),
                    i <= es.len(),
                    flat_value(es, key@) == flat_value(es.subrange(i as int, es.len() as int), key@),
                decreases es.len() - i,
            {
                let ghost rest = es.subrange(i as int, es.len() as int);
                assert(rest[0] == es[i as int]);
                let entry = &entries[i];
                let named_wrapper = same_text(entry.0.as_str(), "fields");
                match &entry.1 {
                    Value::Object(inner) => {
                        if named_wrapper {
                            let found = find_entry(inner, key);
                            if found.is_some() {
                                return found;
                            }
                        } else if same_text(entry.0.as_str(), key) {
                            return Some(&entry.1);
                        }
                    },
                    _ => {
                        if same_text(entry.0.as_str(), key) {
                            return Some(&entry.1);
                        }
                    },
                }
                assert(rest.drop_first() =~= es.subrange(i + 1, es.len() as int));
                i = i + 1;
            }
            None
        },
        _ => None,
    }
}

/// Whether some record has field `key`.
pub fn field_observed(records: &Vec<Value>, key: &str) -> (r: bool)
    ensures
        r == observed(values_model(records@), key@),
{
    let ghost rs = values_model(records@);
    let mut i: usize = 0;
    while i < records.len()
        invariant
            rs == values_model(records@),
            i <= records@.len(),
            forall|k: int| 0 <= k < i ==> (#[trigger] record_value(rs[k], key@)) is None,
        decreases records@.len() - i,
    {
        if record_field(&records[i], key).is_some() {
            assert(record_value(rs[i as int], key@) is Some);
            return true;
        }
        i = i + 1;
    }
    false
}

/// The first element of a list value, or null.
fn first_of(v: &Value) -> (r: Value)
    ensures
        r@ == first_element(v@),
{
    match v {
        Value::Array(items) => {
            if items.len() > 0 {
                copy_value(&items[0])
            } else {
                Value::Null
            }
        },
        _ => Value::Null,
    }
}

/// The cell that mapping `m` makes of record `rec`.
pub fn cell_of(rec: &Value, m: &ColumnMapping) -> (r: Value)
    ensures
        r@ == cell(rec@, m@),
{
    match record_field(rec, m.source_field.as_str()) {
        None => Value::Null,
        Some(v) => {
            if m.target_type == ColumnType::List {
                first_of(v)
            } else {
                copy_value(v)
            }
        },
    }
}

/// The column that mapping `m` makes of the records.
pub fn build_column(records: &Vec<Value>, m: &ColumnMapping) -> (c: Column)
    ensures
        c@ == column_for(values_model(records@), m@),
{
    let ghost rs = values_model(records@);
    let seen = field_observed(records, m.source_field.as_str());
    let mut cells: Vec<Value> = Vec::new();
    let mut i: usize = 0;
    while i < records.len()
        invariant
            rs == values_model(records@),
            i <= records@.len(),
            cells@.len() == i,
            forall|k: int| 0 <= k < i ==> (#[trigger] cells@[k])@ == cell(rs[k], m@),
        decreases records@.len() - i,
    {
        let v = cell_of(&records[i], m);
        cells.push(v);
        i = i + 1;
    }
    let column_type = if seen {
        m.target_type
    } else {
        ColumnType::Text
    };
    let c = Column { name: m.target_field.clone(), column_type, cells };
    assert(c@.cells =~= column_for(rs, m@).cells);
    c
}

/// A target name that two mappings share, if any.
fn find_shared_target(schema: &Vec<ColumnMapping>) -> (r: Option<String>)
    ensures
        match r {
            Some(t) => exists|i: int, j: int|
                0 <= i < j < schema@.len() && (#[trigger] schema_model(schema@)[i]).target == t@
                    && (#[trigger] schema_model(schema@)[j]).target == t@,
            None => targets_distinct(schema_model(schema@)),
        },
{
    let ghost s = schema_model(schema@);
    let mut j: usize = 0;
    while j < schema.len()
        invariant
            s == schema_model(schema@),
            j <= schema@.len(),
            forall|a: int, b: int| 0 <= a < b < j ==> (#[trigger] s[a]).target != (#[trigger] s[b]).target,
        decreases schema@.len() - j,
    {
        let mut i: usize = 0;
        while i < j
            invariant
                s == schema_model(schema@),
                i <= j < schema@.len(),
                forall|a: int, b: int| 0 <= a < b < j ==> (#[trigger] s[a]).target != (#[trigger] s[b]).target,
                forall|a: int| 0 <= a < i ==> (#[trigger] s[a]).target != s[j as int].target,
            decreases j - i,
        {
            if schema[i].target_field == schema[j].target_field {
                assert(s[i as int].target == schema[j as int].target_field@);
                return Some(schema[j].target_field.clone());
            }
            i = i + 1;
        }
        j = j + 1;
    }
    None
}

/// Reconciles decoded records against a schema. Every mapping yields one
/// column, named by its target and holding one cell per record, in the
/// schema's order; a field that no record has becomes a column of nulls typed
/// as text; a list mapping keeps the first element of each list, and null
/// where the value is not a non-empty list. Fails only when two mappings
/// share a target.
pub fn reconcile(records: &Vec<Value>, schema: &Vec<ColumnMapping>) -> (r: Result<Table, SchemaError>)
    ensures
        targets_distinct(schema_model(schema@)) <==> r is Ok,
        match r {
            Ok(t) => t@ == reconciled(values_model(records@), schema_model(schema@)),
            Err(SchemaError::AmbiguousTarget(t)) => exists|i: int, j: int|
                0 <= i < j < schema@.len() && (#[trigger] schema_model(schema@)[i]).target == t@
                    && (#[trigger] schema_model(schema@)[j]).target == t@,
            Err(_) => false,
        },
{
    if let Some(t) = find_shared_target(schema) {
        return Err(SchemaError::AmbiguousTarget(t));
    }
    let ghost rs = values_model(records@);
    let ghost s = schema_model(schema@);
    let mut columns: Vec<Column> = Vec::new();
    let mut c: usize = 0;
    while c < schema.len()
        invariant
            rs == values_model(records@),
            s == schema_model(schema@),
            c <= schema@.len(),
            columns@.len() == c,
            forall|k: int| 0 <= k < c ==> (#[trigger] columns@[k])@ == column_for(rs, s[k]),
        decreases schema@.len() - c,
    {
        let col = build_column(records, &schema[c]);
        columns.push(col);
        c = c + 1;
    }
    let t = Table { columns };
    assert(t@ =~= reconciled(rs, s));
    Ok(t)
}

/// Completeness: whatever fields the records carry, the reconciled table has
/// exactly one column per mapping, named by its target in the schema's order,
/// and every column has one cell per record.
pub proof fn lemma_reconcile_complete(records: Seq<Json>, schema: Seq<MappingModel>)
    ensures
        reconciled(records, schema).len() == schema.len(),
        forall|c: int|
            0 <= c < schema.len() ==> (#[trigger] reconciled(records, schema)[c]).name
                == schema[c].target && reconciled(records, schema)[c].cells.len() == records.len(),
{
}

/// Null fill: a field that no record has yields a column of nulls typed as text.
pub proof fn lemma_absent_field_null(records: Seq<Json>, schema: Seq<MappingModel>, c: int)
    requires
        0 <= c < schema.len(),
        forall|r: int| 0 <= r < records.len() ==> (#[trigger] record_value(records[r], schema[c].source)) is None,
    ensures
        reconciled(records, schema)[c].column_type == ColumnType::Text,
        forall|r: int| 0 <= r < records.len() ==> (#[trigger] reconciled(records, schema)[c].cells[r]) == Json::Null,
{
    assert(!observed(records, schema[c].source));
}

/// List unwrap: a list mapping keeps the first element of a non-empty list,
/// and makes null of an empty list or an absent field.
pub proof fn lemma_list_unwrap(rec: Json, m: MappingModel)
    requires
        m.target_type == ColumnType::List,
    ensures
        forall|items: Seq<Json>|
            #[trigger] record_value(rec, m.source) == Some(Json::Array(items)) ==> cell(rec, m) == if items.len() > 0 {
                items[0]
            } else {
                Json::Null
            },
        record_value(rec, m.source) is None ==> cell(rec, m) == Json::Null,
{
}

/// Idempotence: two reconciliations of the same records against the same
/// schema give the same table.
pub proof fn lemma_reconcile_deterministic(
    records: Seq<Value>,
    schema: Seq<ColumnMapping>,
    first: Table,
    second: Table,
)
    requires
        first@ == reconciled(values_model(records), schema_model(schema)),
        second@ == reconciled(values_model(records), schema_model(schema)),
    ensures
        first@ == second@,
        forall|c: int| 0 <= c < first@.len() ==> (#[trigger] first@[c]) == second@[c],
{
}

} // verus!
