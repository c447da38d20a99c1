use csv2parquet::delta_log::delta_log_for_file;
use csv2parquet::log_json::{create_table_documents, insert_documents, JsonValue};
use csv2parquet::table::ColumnType;

fn strings(v: &[&str]) -> Vec<String> {
    v.iter().map(|s| s.to_string()).collect()
}

fn s(text: &str) -> JsonValue {
    JsonValue::Str(text.to_string())
}

fn obj(entries: Vec<(&str, JsonValue)>) -> JsonValue {
    JsonValue::Object(entries.into_iter().map(|(k, v)| (k.to_string(), v)).collect())
}

fn field<'a>(v: &'a JsonValue, key: &str) -> &'a JsonValue {
    match v {
        JsonValue::Object(entries) => &entries.iter().find(|(k, _)| k == key).expect(key).1,
        _ => panic!("not an object"),
    }
}

fn keys(v: &JsonValue) -> Vec<String> {
    match v {
        JsonValue::Object(entries) => entries.iter().map(|(k, _)| k.clone()).collect(),
        _ => panic!("not an object"),
    }
}

fn salary_log() -> csv2parquet::delta_log::DeltaLog {
    let columns = vec![strings(&["1-1000-10000-10-0", "2-2000-20000-20-1"]), strings(&["15000", "900"])];
    delta_log_for_file(
        "mock_data_salary.csv",
        &columns,
        &strings(&["citizen_id", "salary"]),
        &vec![ColumnType::Utf8, ColumnType::Int32],
        "part-00000-data.snappy.parquet",
        1234,
        2,
        "0123",
        1_699_934_881_000,
    )
}

#[test]
fn create_table_commit_holds_protocol_then_metadata() {
    let docs = create_table_documents(&salary_log());
    assert_eq!(docs.len(), 2);
    assert_eq!(
        docs[0],
        obj(vec![("protocol", obj(vec![("minReaderVersion", JsonValue::Int(1)), ("minWriterVersion", JsonValue::Int(2))]))])
    );
    let md = field(&docs[1], "metaData");
    assert_eq!(
        keys(md),
        strings(&[
            "id",
            "name",
            "description",
            "format",
            "schemaString",
            "partitionColumns",
            "configuration",
            "createdTime"
        ])
    );
    assert_eq!(field(md, "id"), &s("delta-0123"));
    assert_eq!(field(md, "name"), &s("mock_data_salary"));
    assert_eq!(field(md, "format"), &obj(vec![("provider", s("parquet")), ("options", obj(vec![]))]));
    assert_eq!(field(md, "partitionColumns"), &JsonValue::Array(vec![]));
    assert_eq!(
        field(md, "configuration"),
        &obj(vec![("delta.enableChangeDataFeed", s("true")), ("delta.checkpoint.writeStatsAsJson", s("true"))])
    );
    assert_eq!(field(md, "createdTime"), &JsonValue::Int(1_699_934_881_000));
    let schema_field = |name: &str, ty: &str| {
        obj(vec![("name", s(name)), ("type", s(ty)), ("nullable", JsonValue::Bool(false)), ("metadata", obj(vec![]))])
    };
    assert_eq!(
        field(md, "schemaString"),
        &JsonValue::Embedded(Box::new(obj(vec![
            ("type", s("struct")),
            ("fields", JsonValue::Array(vec![schema_field("citizen_id", "string"), schema_field("salary", "integer")]))
        ])))
    );
}

#[test]
fn insert_commit_holds_commit_info_then_one_add_per_file() {
    let docs = insert_documents(&salary_log());
    assert_eq!(docs.len(), 2);
    let ci = field(&docs[0], "commitInfo");
    assert_eq!(field(ci, "timestamp"), &JsonValue::Int(1_699_934_882_000));
    assert_eq!(field(ci, "operation"), &s("WRITE"));
    assert_eq!(field(ci, "operationParameters"), &obj(vec![("mode", s("Append")), ("partitionBy", s("[]"))]));
    assert_eq!(
        field(ci, "operationMetrics"),
        &obj(vec![("numFiles", s("1")), ("numOutputRows", s("2")), ("numOutputBytes", s("1234"))])
    );
    assert_eq!(field(ci, "isBlindAppend"), &JsonValue::Bool(true));

    let add = field(&docs[1], "add");
    assert_eq!(
        keys(add),
        strings(&["path", "partitionValues", "size", "modificationTime", "dataChange", "stats"])
    );
    assert_eq!(field(add, "path"), &s("part-00000-data.snappy.parquet"));
    assert_eq!(field(add, "size"), &JsonValue::UInt(1234));
    assert_eq!(
        field(add, "stats"),
        &JsonValue::Embedded(Box::new(obj(vec![
            ("numRecords", JsonValue::UInt(2)),
            ("minValues", obj(vec![("citizen_id", s("1-1000-10000-10-0")), ("salary", JsonValue::Int(900))])),
            ("maxValues", obj(vec![("citizen_id", s("2-2000-20000-20-1")), ("salary", JsonValue::Int(15000))])),
            ("nullCount", obj(vec![("citizen_id", JsonValue::UInt(0)), ("salary", JsonValue::UInt(0))]))
        ])))
    );
}
