//! The JSON documents of a Delta Lake transaction log: which keys each
//! action has, how they nest, and which value each key holds.  Turning a
//! document into text is left to the JSON writer.

use vstd::prelude::*;
use crate::stats::{ColumnStats, StatValue};
use crate::delta_log::{DeltaAddFile, DeltaCommitInfo, DeltaLog, DeltaMetadata, DeltaProtocol, DeltaSchemaField};

verus! {

/// A JSON value as the log writes it.  The entries of an object are listed
/// in the order they are written; `Embedded` is a string whose text is the
/// compact JSON rendering of the inner value.
#[derive(Debug, PartialEq)]
pub enum JsonValue {
    Str(String),
    Int(i64),
    UInt(u64),
    Bool(bool),
    Array(Vec<JsonValue>),
    Object(Vec<(String, JsonValue)>),
    Embedded(Box<JsonValue>),
}

/// A JSON value as plain data; both kinds of integer are numbers.
#[verifier::ext_equal]
pub enum JsonModel {
    Str(Seq<char>),
    Num(int),
    Bool(bool),
    Array(Seq<JsonModel>),
    Object(Seq<(Seq<char>, JsonModel)>),
    Embedded(Box<JsonModel>),
}

/// The plain data of a JSON value.
pub open spec fn json_model(v: JsonValue) -> JsonModel
    decreases v,
{
    match v {
        JsonValue::Str(s) => JsonModel::Str(s@),
        JsonValue::Int(i) => JsonModel::Num(i as int),
        JsonValue::UInt(u) => JsonModel::Num(u as int),
        JsonValue::Bool(b) => JsonModel::Bool(b),
        JsonValue::Array(items) => JsonModel::Array(
            Seq::new(
                items@.len(),
                |i: int|
                    if 0 <= i < items@.len() {
                        json_model(items@[i])
                    } else {
                        JsonModel::Bool(false)
                    },
            ),
        ),
        JsonValue::Object(entries) => JsonModel::Object(
            Seq::new(
                entries@.len(),
                |i: int|
                    if 0 <= i < entries@.len() {
                        (entries@[i].0@, json_model(entries@[i].1))
                    } else {
                        (Seq::empty(), JsonModel::Bool(false))
                    },
            ),
        ),
        JsonValue::Embedded(inner) => JsonModel::Embedded(Box::new(json_model(*inner))),
    }
}

/// The plain data of a list of JSON values.
pub open spec fn item_models(items: Seq<JsonValue>) -> Seq<JsonModel> {
    Seq::new(items.len(), |i: int| json_model(items[i]))
}

/// The plain data of the entries of a JSON object.
pub open spec fn entry_models(entries: Seq<(String, JsonValue)>) -> Seq<(Seq<char>, JsonModel)> {
    Seq::new(entries.len(), |i: int| (entries[i].0@, json_model(entries[i].1)))
}

/// An object with no entries.
pub open spec fn empty_object() -> JsonModel {
    JsonModel::Object(Seq::empty())
}

fn object(entries: Vec<(String, JsonValue)>) -> (j: JsonValue)
    ensures
        json_model(j) == JsonModel::Object(entry_models(entries@)),
{
    let ghost e = entries@;
    let j = JsonValue::Object(entries);
    assert(json_model(j) == JsonModel::Object(entry_models(e))) by {
        assert(json_model(j)->Object_0 =~= entry_models(e));
    }
    j
}

fn array(items: Vec<JsonValue>) -> (j: JsonValue)
    ensures
        json_model(j) == JsonModel::Array(item_models(items@)),
{
    let ghost e = items@;
    let j = JsonValue::Array(items);
    assert(json_model(j) == JsonModel::Array(item_models(e))) by {
        assert(json_model(j)->Array_0 =~= item_models(e));
    }
    j
}

fn embedded(inner: JsonValue) -> (j: JsonValue)
    ensures
        json_model(j) == JsonModel::Embedded(Box::new(json_model(inner))),
{
    JsonValue::Embedded(Box::new(inner))
}

fn push_entry(entries: &mut Vec<(String, JsonValue)>, key: &str, value: JsonValue)
    ensures
        entry_models(final(entries)@) == entry_models(old(entries)@).push((key@, json_model(value))),
{
    let ghost v = value;
    entries.push((String::from_str(key), value));
    assert(entry_models(entries@) =~= entry_models(old(entries)@).push((key@, json_model(v))));
}

fn text(s: &String) -> (j: JsonValue)
    ensures
        json_model(j) == JsonModel::Str(s@),
{
    JsonValue::Str(s.clone())
}

fn literal(s: &str) -> (j: JsonValue)
    ensures
        json_model(j) == JsonModel::Str(s@),
{
    JsonValue::Str(String::from_str(s))
}

fn no_entries() -> (j: JsonValue)
    ensures
        json_model(j) == empty_object(),
{
    let e: Vec<(String, JsonValue)> = Vec::new();
    assert(entry_models(e@) =~= Seq::empty());
    object(e)
}

/// A minimum or maximum as JSON: a number or a string.
pub open spec fn stat_document(v: StatValue) -> JsonModel {
    match v {
        StatValue::Int(i) => JsonModel::Num(i as int),
        StatValue::Text(s) => JsonModel::Str(s@),
    }
}

/// Entries keyed by column name, each holding a minimum or maximum.
pub open spec fn stat_entry_documents(v: Seq<(String, StatValue)>) -> Seq<(Seq<char>, JsonModel)> {
    Seq::new(v.len(), |i: int| (v[i].0@, stat_document(v[i].1)))
}

/// The statistics of a data file: `numRecords`, then `minValues`,
/// `maxValues` and `nullCount`, each an object keyed by column name.
pub open spec fn stats_document(stats: ColumnStats) -> JsonModel {
    JsonModel::Object(
        seq![
            ("numRecords"@, JsonModel::Num(stats.num_records as int)),
            ("minValues"@, JsonModel::Object(stat_entry_documents(stats.min_values@))),
            ("maxValues"@, JsonModel::Object(stat_entry_documents(stats.max_values@))),
            ("nullCount"@, JsonModel::Object(
                Seq::new(
                    stats.null_count@.len(),
                    |i: int| (stats.null_count@[i].0@, JsonModel::Num(stats.null_count@[i].1 as int)),
                ),
            )),
        ],
    )
}

/// The protocol action: `{"protocol": {"minReaderVersion", "minWriterVersion"}}`.
pub open spec fn protocol_document(p: DeltaProtocol) -> JsonModel {
    JsonModel::Object(
        seq![
            ("protocol"@, JsonModel::Object(
                seq![
                    ("minReaderVersion"@, JsonModel::Num(p.min_reader_version as int)),
                    ("minWriterVersion"@, JsonModel::Num(p.min_writer_version as int)),
                ],
            )),
        ],
    )
}

/// One field of the schema: `name`, `type`, `nullable` and empty `metadata`.
pub open spec fn schema_field_document(f: DeltaSchemaField) -> JsonModel {
    JsonModel::Object(
        seq![
            ("name"@, JsonModel::Str(f.name@)),
            ("type"@, JsonModel::Str(f.data_type@)),
            ("nullable"@, JsonModel::Bool(f.nullable)),
            ("metadata"@, empty_object()),
        ],
    )
}

/// The schema of a table: a struct type with its fields in order.
pub open spec fn schema_document(fields: Seq<DeltaSchemaField>) -> JsonModel {
    JsonModel::Object(
        seq![
            ("type"@, JsonModel::Str("struct"@)),
            ("fields"@, JsonModel::Array(Seq::new(fields.len(), |i: int| schema_field_document(fields[i])))),
        ],
    )
}

/// The metadata action: `{"metaData": {...}}` with the table id, name and
/// description, the parquet format, the schema embedded as a JSON string,
/// the partition columns, the configuration and the creation time.
pub open spec fn metadata_document(md: DeltaMetadata) -> JsonModel {
    JsonModel::Object(
        seq![
            ("metaData"@, JsonModel::Object(
                seq![
                    ("id"@, JsonModel::Str(md.id@)),
                    ("name"@, JsonModel::Str(md.name@)),
                    ("description"@, JsonModel::Str(md.description@)),
                    ("format"@, JsonModel::Object(
                        seq![("provider"@, JsonModel::Str(md.provider@)), ("options"@, empty_object())],
                    )),
                    ("schemaString"@, JsonModel::Embedded(Box::new(schema_document(md.schema_fields@)))),
                    ("partitionColumns"@, JsonModel::Array(
                        Seq::new(md.partition_columns@.len(), |i: int| JsonModel::Str(md.partition_columns@[i]@)),
                    )),
                    ("configuration"@, JsonModel::Object(
                        Seq::new(
                            md.configuration@.len(),
                            |i: int| (md.configuration@[i].0@, JsonModel::Str(md.configuration@[i].1@)),
                        ),
                    )),
                    ("createdTime"@, JsonModel::Num(md.created_time as int)),
                ],
            )),
        ],
    )
}

/// The commit info of the INSERT commit: `{"commitInfo": {...}}`.
pub open spec fn commit_info_document(ci: DeltaCommitInfo) -> JsonModel {
    JsonModel::Object(
        seq![
            ("commitInfo"@, JsonModel::Object(
                seq![
                    ("timestamp"@, JsonModel::Num(ci.timestamp as int)),
                    ("operation"@, JsonModel::Str(ci.operation@)),
                    ("operationParameters"@, JsonModel::Object(
                        seq![("mode"@, JsonModel::Str(ci.mode@)), ("partitionBy"@, JsonModel::Str(ci.partition_by@))],
                    )),
                    ("readVersion"@, JsonModel::Num(ci.read_version as int)),
                    ("isolationLevel"@, JsonModel::Str(ci.isolation_level@)),
                    ("isBlindAppend"@, JsonModel::Bool(ci.is_blind_append)),
                    ("operationMetrics"@, JsonModel::Object(
                        seq![
                            ("numFiles"@, JsonModel::Str(ci.num_files@)),
                            ("numOutputRows"@, JsonModel::Str(ci.num_output_rows@)),
                            ("numOutputBytes"@, JsonModel::Str(ci.num_output_bytes@)),
                        ],
                    )),
                    ("engineInfo"@, JsonModel::Str(ci.engine_info@)),
                ],
            )),
        ],
    )
}

/// An add action: `{"add": {...}}` with the file's path, empty partition
/// values, size, modification time, data-change flag and its statistics
/// embedded as a JSON string.
pub open spec fn add_document(a: DeltaAddFile) -> JsonModel {
    JsonModel::Object(
        seq![
            ("add"@, JsonModel::Object(
                seq![
                    ("path"@, JsonModel::Str(a.path@)),
                    ("partitionValues"@, empty_object()),
                    ("size"@, JsonModel::Num(a.size as int)),
                    ("modificationTime"@, JsonModel::Num(a.modification_time as int)),
                    ("dataChange"@, JsonModel::Bool(a.data_change)),
                    ("stats"@, JsonModel::Embedded(Box::new(stats_document(a.stats)))),
                ],
            )),
        ],
    )
}

fn stat_json(v: &StatValue) -> (j: JsonValue)
    ensures
        json_model(j) == stat_document(*v),
{
    match v {
        StatValue::Int(i) => JsonValue::Int(*i as i64),
        StatValue::Text(s) => text(s),
    }
}

fn stat_entries_json(v: &Vec<(String, StatValue)>) -> (j: JsonValue)
    ensures
        json_model(j) == JsonModel::Object(stat_entry_documents(v@)),
{
    let mut e: Vec<(String, JsonValue)> = Vec::new();
    assert(entry_models(e@) =~= stat_entry_documents(v@.take(0)));
    let mut i: usize = 0;
    while i < v.len()
        invariant
            i <= v.len(),
            entry_models(e@) == stat_entry_documents(v@.take(i as int)),
        decreases v.len() - i,
    {
        let ghost before = entry_models(e@);
        push_entry(&mut e, v[i].0.as_str(), stat_json(&v[i].1));
        assert(stat_entry_documents(v@.take(i + 1)) =~= before.push((v@[i as int].0@, stat_document(v@[i as int].1))));
        i = i + 1;
    }
    assert(v@.take(v.len() as int) =~= v@);
    object(e)
}

fn null_counts_json(v: &Vec<(String, usize)>) -> (j: JsonValue)
    ensures
        json_model(j) == JsonModel::Object(
            Seq::new(v@.len(), |i: int| (v@[i].0@, JsonModel::Num(v@[i].1 as int))),
        ),
{
    let mut e: Vec<(String, JsonValue)> = Vec::new();
    let mut i: usize = 0;
    while i < v.len()
        invariant
            i <= v.len(),
            entry_models(e@) == Seq::new(i as nat, |k: int| (v@[k].0@, JsonModel::Num(v@[k].1 as int))),
        decreases v.len() - i,
    {
        let ghost before = entry_models(e@);
        push_entry(&mut e, v[i].0.as_str(), JsonValue::UInt(v[i].1 as u64));
        assert(Seq::new((i + 1) as nat, |k: int| (v@[k].0@, JsonModel::Num(v@[k].1 as int))) =~= before.push(
            (v@[i as int].0@, JsonModel::Num(v@[i as int].1 as int)),
        ));
        i = i + 1;
    }
    object(e)
}

/// The statistics of a data file as a JSON object.
pub fn stats_json(stats: &ColumnStats) -> (j: JsonValue)
    ensures
        json_model(j) == stats_document(*stats),
{
    let mut e: Vec<(String, JsonValue)> = Vec::new();
    assert(entry_models(e@) =~= Seq::empty());
    let ghost target = stats_document(*stats)->Object_0;
    push_entry(&mut e, "numRecords", JsonValue::UInt(stats.num_records as u64));
    push_entry(&mut e, "minValues", stat_entries_json(&stats.min_values));
    push_entry(&mut e, "maxValues", stat_entries_json(&stats.max_values));
    push_entry(&mut e, "nullCount", null_counts_json(&stats.null_count));
    assert(entry_models(e@) =~= target);
    object(e)
}

/// The protocol action as a JSON object.
pub fn protocol_json(p: &DeltaProtocol) -> (j: JsonValue)
    ensures
        json_model(j) == protocol_document(*p),
{
    let mut inner: Vec<(String, JsonValue)> = Vec::new();
    assert(entry_models(inner@) =~= Seq::empty());
    push_entry(&mut inner, "minReaderVersion", JsonValue::Int(p.min_reader_version));
    push_entry(&mut inner, "minWriterVersion", JsonValue::Int(p.min_writer_version));
    assert(entry_models(inner@) =~= protocol_document(*p)->Object_0[0].1->Object_0);
    let mut e: Vec<(String, JsonValue)> = Vec::new();
    assert(entry_models(e@) =~= Seq::empty());
    push_entry(&mut e, "protocol", object(inner));
    object(e)
}

fn schema_field_json(f: &DeltaSchemaField) -> (j: JsonValue)
    ensures
        json_model(j) == schema_field_document(*f),
{
    let mut e: Vec<(String, JsonValue)> = Vec::new();
    assert(entry_models(e@) =~= Seq::empty());
    push_entry(&mut e, "name", text(&f.name));
    push_entry(&mut e, "type", text(&f.data_type));
    push_entry(&mut e, "nullable", JsonValue::Bool(f.nullable));
    push_entry(&mut e, "metadata", no_entries());
    assert(entry_models(e@) =~= schema_field_document(*f)->Object_0);
    object(e)
}

fn schema_json(fields: &Vec<DeltaSchemaField>) -> (j: JsonValue)
    ensures
        json_model(j) == schema_document(fields@),
{
    let mut items: Vec<JsonValue> = Vec::new();
    let mut i: usize = 0;
    while i < fields.len()
        invariant
            i <= fields.len(),
            item_models(items@) == Seq::new(i as nat, |k: int| schema_field_document(fields@[k])),
        decreases fields.len() - i,
    {
        let ghost before = item_models(items@);
        items.push(schema_field_json(&fields[i]));
        assert(item_models(items@) =~= before.push(schema_field_document(fields@[i as int])));
        assert(Seq::new((i + 1) as nat, |k: int| schema_field_document(fields@[k])) =~= before.push(
            schema_field_document(fields@[i as int]),
        ));
        i = i + 1;
    }
    let mut e: Vec<(String, JsonValue)> = Vec::new();
    assert(entry_models(e@) =~= Seq::empty());
    push_entry(&mut e, "type", literal("struct"));
    push_entry(&mut e, "fields", array(items));
    assert(entry_models(e@) =~= schema_document(fields@)->Object_0);
    object(e)
}

fn string_array_json(v: &Vec<String>) -> (j: JsonValue)
    ensures
        json_model(j) == JsonModel::Array(Seq::new(v@.len(), |i: int| JsonModel::Str(v@[i]@))),
{
    let mut items: Vec<JsonValue> = Vec::new();
    let mut i: usize = 0;
    while i < v.len()
        invariant
            i <= v.len(),
            item_models(items@) == Seq::new(i as nat, |k: int| JsonModel::Str(v@[k]@)),
        decreases v.len() - i,
    {
        let ghost before = item_models(items@);
        items.push(text(&v[i]));
        assert(item_models(items@) =~= before.push(JsonModel::Str(v@[i as int]@)));
        assert(Seq::new((i + 1) as nat, |k: int| JsonModel::Str(v@[k]@)) =~= before.push(
            JsonModel::Str(v@[i as int]@),
        ));
        i = i + 1;
    }
    array(items)
}

fn string_entries_json(v: &Vec<(String, String)>) -> (j: JsonValue)
    ensures
        json_model(j) == JsonModel::Object(Seq::new(v@.len(), |i: int| (v@[i].0@, JsonModel::Str(v@[i].1@)))),
{
    let mut e: Vec<(String, JsonValue)> = Vec::new();
    let mut i: usize = 0;
    while i < v.len()
        invariant
            i <= v.len(),
            entry_models(e@) == Seq::new(i as nat, |k: int| (v@[k].0@, JsonModel::Str(v@[k].1@))),
        decreases v.len() - i,
    {
        let ghost before = entry_models(e@);
        push_entry(&mut e, v[i].0.as_str(), text(&v[i].1));
        assert(Seq::new((i + 1) as nat, |k: int| (v@[k].0@, JsonModel::Str(v@[k].1@))) =~= before.push(
            (v@[i as int].0@, JsonModel::Str(v@[i as int].1@)),
        ));
        i = i + 1;
    }
    object(e)
}

/// The metadata action as a JSON object.
pub fn metadata_json(md: &DeltaMetadata) -> (j: JsonValue)
    ensures
        json_model(j) == metadata_document(*md),
{
    let mut format: Vec<(String, JsonValue)> = Vec::new();
    assert(entry_models(format@) =~= Seq::empty());
    push_entry(&mut format, "provider", text(&md.provider));
    push_entry(&mut format, "options", no_entries());
    let ghost meta = metadata_document(*md)->Object_0[0].1->Object_0;
    assert(entry_models(format@) =~= meta[3].1->Object_0);
    let mut inner: Vec<(String, JsonValue)> = Vec::new();
    assert(entry_models(inner@) =~= Seq::empty());
    push_entry(&mut inner, "id", text(&md.id));
    push_entry(&mut inner, "name", text(&md.name));
    push_entry(&mut inner, "description", text(&md.description));
    push_entry(&mut inner, "format", object(format));
    push_entry(&mut inner, "schemaString", embedded(schema_json(&md.schema_fields)));
    push_entry(&mut inner, "partitionColumns", string_array_json(&md.partition_columns));
    push_entry(&mut inner, "configuration", string_entries_json(&md.configuration));
    push_entry(&mut inner, "createdTime", JsonValue::Int(md.created_time));
    assert(entry_models(inner@) =~= meta);
    let mut e: Vec<(String, JsonValue)> = Vec::new();
    assert(entry_models(e@) =~= Seq::empty());
    push_entry(&mut e, "metaData", object(inner));
    object(e)
}

/// The commit info of the INSERT commit as a JSON object.
pub fn commit_info_json(ci: &DeltaCommitInfo) -> (j: JsonValue)
    ensures
        json_model(j) == commit_info_document(*ci),
{
    let mut params: Vec<(String, JsonValue)> = Vec::new();
    assert(entry_models(params@) =~= Seq::empty());
    push_entry(&mut params, "mode", text(&ci.mode));
    push_entry(&mut params, "partitionBy", text(&ci.partition_by));
    let ghost commit = commit_info_document(*ci)->Object_0[0].1->Object_0;
    assert(entry_models(params@) =~= commit[2].1->Object_0);
    let mut metrics: Vec<(String, JsonValue)> = Vec::new();
    assert(entry_models(metrics@) =~= Seq::empty());
    push_entry(&mut metrics, "numFiles", text(&ci.num_files));
    push_entry(&mut metrics, "numOutputRows", text(&ci.num_output_rows));
    push_entry(&mut metrics, "numOutputBytes", text(&ci.num_output_bytes));
    assert(entry_models(metrics@) =~= commit[6].1->Object_0);
    let mut inner: Vec<(String, JsonValue)> = Vec::new();
    assert(entry_models(inner@) =~= Seq::empty());
    push_entry(&mut inner, "timestamp", JsonValue::Int(ci.timestamp));
    push_entry(&mut inner, "operation", text(&ci.operation));
    push_entry(&mut inner, "operationParameters", object(params));
    push_entry(&mut inner, "readVersion", JsonValue::Int(ci.read_version));
    push_entry(&mut inner, "isolationLevel", text(&ci.isolation_level));
    push_entry(&mut inner, "isBlindAppend", JsonValue::Bool(ci.is_blind_append));
    push_entry(&mut inner, "operationMetrics", object(metrics));
    push_entry(&mut inner, "engineInfo", text(&ci.engine_info));
    assert(entry_models(inner@) =~= commit);
    let mut e: Vec<(String, JsonValue)> = Vec::new();
    assert(entry_models(e@) =~= Seq::empty());
    push_entry(&mut e, "commitInfo", object(inner));
    object(e)
}

/// An add action as a JSON object.
pub fn add_file_json(a: &DeltaAddFile) -> (j: JsonValue)
    ensures
        json_model(j) == add_document(*a),
{
    let mut inner: Vec<(String, JsonValue)> = Vec::new();
    assert(entry_models(inner@) =~= Seq::empty());
    push_entry(&mut inner, "path", text(&a.path));
    push_entry(&mut inner, "partitionValues", no_entries());
    push_entry(&mut inner, "size", JsonValue::UInt(a.size));
    push_entry(&mut inner, "modificationTime", JsonValue::Int(a.modification_time));
    push_entry(&mut inner, "dataChange", JsonValue::Bool(a.data_change));
    push_entry(&mut inner, "stats", embedded(stats_json(&a.stats)));
    assert(entry_models(inner@) =~= add_document(*a)->Object_0[0].1->Object_0);
    let mut e: Vec<(String, JsonValue)> = Vec::new();
    assert(entry_models(e@) =~= Seq::empty());
    push_entry(&mut e, "add", object(inner));
    object(e)
}

/// The documents of the CREATE TABLE commit (version 0): the protocol
/// action, then the metadata action.
pub fn create_table_documents(log: &DeltaLog) -> (docs: Vec<JsonValue>)
    ensures
        item_models(docs@) == seq![protocol_document(log.protocol), metadata_document(log.metadata)],
{
    let mut docs: Vec<JsonValue> = Vec::new();
    docs.push(protocol_json(&log.protocol));
    docs.push(metadata_json(&log.metadata));
    assert(item_models(docs@) =~= seq![protocol_document(log.protocol), metadata_document(log.metadata)]);
    docs
}

/// The documents of the INSERT commit (version 1): the commit info, then
/// one add action per data file, in order.
pub fn insert_documents(log: &DeltaLog) -> (docs: Vec<JsonValue>)
    ensures
        item_models(docs@) == seq![commit_info_document(log.commit_info)] + Seq::new(
            log.add_files@.len(),
            |q: int| add_document(log.add_files@[q]),
        ),
{
    let mut docs: Vec<JsonValue> = Vec::new();
    docs.push(commit_info_json(&log.commit_info));
    let ghost first = seq![commit_info_document(log.commit_info)];
    assert(item_models(docs@) =~= first);
    let mut q: usize = 0;
    while q < log.add_files.len()
        invariant
            q <= log.add_files.len(),
            first == seq![commit_info_document(log.commit_info)],
            item_models(docs@) == first + Seq::new(q as nat, |k: int| add_document(log.add_files@[k])),
        decreases log.add_files.len() - q,
    {
        let ghost before = item_models(docs@);
        docs.push(add_file_json(&log.add_files[q]));
        assert(item_models(docs@) =~= before.push(add_document(log.add_files@[q as int])));
        assert(first + Seq::new((q + 1) as nat, |k: int| add_document(log.add_files@[k])) =~= before.push(
            add_document(log.add_files@[q as int]),
        ));
        q = q + 1;
    }
    docs
}

} // verus!
