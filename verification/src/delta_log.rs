//! The contents of a Delta Lake transaction log for a table written as one
//! or several Parquet files: a CREATE TABLE commit (protocol and metadata)
//! followed by an INSERT commit (commit info and one add action per file).

use vstd::prelude::*;
use crate::error::ConvertError;
use crate::stats::{calculate_column_stats, ColumnStats};
use crate::table::{min_len, ColumnType};
use crate::text::{decimal_text, str_trim_end_matches, trim_suffix_all, u64_to_decimal, zero_pad, zero_padded};

verus! {

/// The wall-clock time of std.
#[verifier::external_type_specification]
#[verifier::external_body]
pub struct ExSystemTime(std::time::SystemTime);

/// `std::time::SystemTime::now`: the current time of the system clock.
#[verifier::external_body]
fn system_time_now() -> std::time::SystemTime {
    std::time::SystemTime::now()
}

/// `SystemTime::duration_since` with `UNIX_EPOCH`: the time elapsed since
/// the epoch, or an error when `t` is before it.
#[verifier::external_body]
fn duration_since_unix_epoch(t: std::time::SystemTime) -> Result<core::time::Duration, std::time::SystemTimeError> {
    t.duration_since(std::time::UNIX_EPOCH)
}

/// `Duration::as_millis`: the number of whole milliseconds in `d`.
#[verifier::external_body]
fn duration_as_millis(d: core::time::Duration) -> u128 {
    d.as_millis()
}

/// A lowercase hexadecimal digit.
pub open spec fn is_lower_hex(c: char) -> bool {
    ('0' <= c && c <= '9') || ('a' <= c && c <= 'f')
}

/// The hyphenated text form of a UUID: 36 characters, dashes at positions
/// 8, 13, 18 and 23, lowercase hexadecimal digits elsewhere.
pub open spec fn is_hyphenated_uuid(s: Seq<char>) -> bool {
    &&& s.len() == 36
    &&& forall|i: int| 0 <= i < 36 ==> if i == 8 || i == 13 || i == 18 || i == 23 {
        #[trigger] s[i] == '-'
    } else {
        is_lower_hex(s[i])
    }
}

/// `uuid::Uuid::new_v4` rendered with `to_string`: a random UUID in its
/// hyphenated lowercase form.  Which UUID comes back is left open.
#[verifier::external_body]
fn new_uuid_v4_text() -> (s: String)
    ensures
        is_hyphenated_uuid(s@),
{
    uuid::Uuid::new_v4().to_string()
}

/// The protocol action of the CREATE TABLE commit.
#[derive(Debug)]
pub struct DeltaProtocol {
    pub min_reader_version: i64,
    pub min_writer_version: i64,
}

/// One field of the table schema written into the metadata.
#[derive(Debug)]
pub struct DeltaSchemaField {
    pub name: String,
    pub data_type: String,
    pub nullable: bool,
}

/// The metadata action of the CREATE TABLE commit.
#[derive(Debug)]
pub struct DeltaMetadata {
    pub id: String,
    pub name: String,
    pub description: String,
    pub provider: String,
    pub schema_fields: Vec<DeltaSchemaField>,
    pub partition_columns: Vec<String>,
    pub configuration: Vec<(String, String)>,
    pub created_time: i64,
}

/// The commit info of the INSERT commit.
#[derive(Debug)]
pub struct DeltaCommitInfo {
    pub timestamp: i64,
    pub operation: String,
    pub mode: String,
    pub partition_by: String,
    pub read_version: i64,
    pub isolation_level: String,
    pub is_blind_append: bool,
    pub num_files: String,
    pub num_output_rows: String,
    pub num_output_bytes: String,
    pub engine_info: String,
}

/// An add action of the INSERT commit: one data file and its statistics.
#[derive(Debug)]
pub struct DeltaAddFile {
    pub path: String,
    pub size: u64,
    pub modification_time: i64,
    pub data_change: bool,
    pub stats: ColumnStats,
}

/// A whole transaction log: version 0 holds the protocol and the metadata,
/// version 1 the commit info and the add actions.
#[derive(Debug)]
pub struct DeltaLog {
    pub protocol: DeltaProtocol,
    pub metadata: DeltaMetadata,
    pub commit_info: DeltaCommitInfo,
    pub add_files: Vec<DeltaAddFile>,
}

/// A data file of a partitioned table: its name, its size in bytes and its
/// rows, column by column.
#[derive(Debug)]
pub struct PartitionFile {
    pub file_name: String,
    pub size: u64,
    pub columns: Vec<Vec<String>>,
}

/// The Delta Lake name of a column type.
pub open spec fn delta_type_name(t: ColumnType) -> Seq<char> {
    match t {
        ColumnType::Int32 => "integer"@,
        ColumnType::Int64 => "long"@,
        ColumnType::Float32 => "float"@,
        ColumnType::Float64 => "double"@,
        ColumnType::Boolean => "boolean"@,
        ColumnType::Utf8 => "string"@,
    }
}

/// The Delta Lake name of a column type.
pub fn delta_type_name_of(t: ColumnType) -> (s: String)
    ensures
        s@ == delta_type_name(t),
{
    match t {
        ColumnType::Int32 => String::from_str("integer"),
        ColumnType::Int64 => String::from_str("long"),
        ColumnType::Float32 => String::from_str("float"),
        ColumnType::Float64 => String::from_str("double"),
        ColumnType::Boolean => String::from_str("boolean"),
        ColumnType::Utf8 => String::from_str("string"),
    }
}

/// Name of the log file of a version: the version in 20 zero-padded digits
/// followed by `.json`.
pub open spec fn log_file_name_text(version: nat) -> Seq<char> {
    zero_padded(version, 20) + ".json"@
}

/// Name of the log file of a version.
pub fn log_file_name(version: u64) -> (s: String)
    ensures
        s@ == log_file_name_text(version as nat),
{
    zero_pad(version, 20).concat(".json")
}

/// The table name derived from the input file name: trailing `.csv`
/// suffixes removed.
pub open spec fn table_name_text(input: Seq<char>) -> Seq<char> {
    trim_suffix_all(input, ".csv"@)
}

/// The protocol action: reader version 1, writer version 2.
pub open spec fn protocol_matches(p: DeltaProtocol) -> bool {
    p.min_reader_version == 1 && p.min_writer_version == 2
}

/// The metadata of a table created from `input` with the given schema.
pub open spec fn metadata_matches(
    md: DeltaMetadata,
    input: Seq<char>,
    headers: Seq<Seq<char>>,
    types: Seq<ColumnType>,
    table_uuid: Seq<char>,
    created_time: i64,
    partitioned: bool,
) -> bool {
    let m = min_len(headers.len(), types.len());
    &&& md.id@ == "delta-"@ + table_uuid
    &&& md.name@ == table_name_text(input)
    &&& md.description@ == (if partitioned {
        "Delta table (partitioned) created from "@
    } else {
        "Delta table created from "@
    }) + input
    &&& md.provider@ == "parquet"@
    &&& md.schema_fields.len() == m
    &&& forall|i: int| 0 <= i < m ==> {
        &&& (#[trigger] md.schema_fields[i]).name@ == headers[i]
        &&& md.schema_fields[i].data_type@ == delta_type_name(types[i])
        &&& !md.schema_fields[i].nullable
    }
    &&& md.partition_columns.len() == 0
    &&& md.configuration.len() == 2
    &&& md.configuration[0].0@ == "delta.enableChangeDataFeed"@
    &&& md.configuration[0].1@ == "true"@
    &&& md.configuration[1].0@ == "delta.checkpoint.writeStatsAsJson"@
    &&& md.configuration[1].1@ == "true"@
    &&& md.created_time == created_time
}

/// The commit info of an append of `num_files` files holding `num_rows`
/// rows and `num_bytes` bytes, committed at `timestamp`.
pub open spec fn commit_info_matches(
    ci: DeltaCommitInfo,
    timestamp: int,
    num_files: nat,
    num_rows: nat,
    num_bytes: nat,
) -> bool {
    &&& ci.timestamp == timestamp
    &&& ci.operation@ == "WRITE"@
    &&& ci.mode@ == "Append"@
    &&& ci.partition_by@ == "[]"@
    &&& ci.read_version == 0
    &&& ci.isolation_level@ == "Serializable"@
    &&& ci.is_blind_append
    &&& ci.num_files@ == decimal_text(num_files)
    &&& ci.num_output_rows@ == decimal_text(num_rows)
    &&& ci.num_output_bytes@ == decimal_text(num_bytes)
    &&& ci.engine_info@ == "Rust-Manual-Delta-1.0"@
}

/// An add action for the file `path` of `size` bytes, modified at `time`.
pub open spec fn add_file_matches(a: DeltaAddFile, path: Seq<char>, size: u64, time: int) -> bool {
    &&& a.path@ == path
    &&& a.size == size
    &&& a.modification_time == time
    &&& a.data_change
}

/// Sum of the sizes of the partition files.
pub open spec fn total_size(files: Seq<PartitionFile>) -> nat
    decreases files.len(),
{
    if files.len() == 0 {
        0
    } else {
        total_size(files.drop_last()) + files.last().size as nat
    }
}

/// `log` is the log of a table created from `input` at `created_time` with
/// id `delta-<table_uuid>`, written as the single file `parquet_file` of
/// `file_size` bytes holding `num_records` rows: the INSERT commit and the
/// add action are stamped one second after the creation, and the add action
/// carries the statistics of the whole table.
pub open spec fn file_log_matches(
    log: DeltaLog,
    input: Seq<char>,
    columns: Seq<Seq<Seq<char>>>,
    headers: Seq<Seq<char>>,
    types: Seq<ColumnType>,
    parquet_file: Seq<char>,
    file_size: u64,
    num_records: nat,
    table_uuid: Seq<char>,
    created_time: int,
) -> bool {
    &&& protocol_matches(log.protocol)
    &&& metadata_matches(log.metadata, input, headers, types, table_uuid, created_time as i64, false)
    &&& log.metadata.created_time == created_time
    &&& commit_info_matches(log.commit_info, created_time + 1000, 1, num_records, file_size as nat)
    &&& log.add_files.len() == 1
    &&& add_file_matches(log.add_files[0], parquet_file, file_size, created_time + 1000)
    &&& log.add_files[0].stats.describes(columns, headers, types)
}

/// `log` is the log of a table created from `input` at `created_time` with
/// id `delta-<table_uuid>`, written as the given partition files holding
/// `total_records` rows: one add action per file, in order, each with that
/// file's name, size and statistics; the commit counts the files and sums
/// their sizes.
pub open spec fn partitions_log_matches(
    log: DeltaLog,
    input: Seq<char>,
    headers: Seq<Seq<char>>,
    types: Seq<ColumnType>,
    partition_files: Seq<PartitionFile>,
    total_records: nat,
    table_uuid: Seq<char>,
    created_time: int,
) -> bool {
    &&& protocol_matches(log.protocol)
    &&& metadata_matches(log.metadata, input, headers, types, table_uuid, created_time as i64, true)
    &&& log.metadata.created_time == created_time
    &&& commit_info_matches(
        log.commit_info,
        created_time + 1000,
        partition_files.len(),
        total_records,
        total_size(partition_files),
    )
    &&& log.add_files.len() == partition_files.len()
    &&& forall|q: int| 0 <= q < partition_files.len() ==> {
        &&& add_file_matches(
            #[trigger] log.add_files[q],
            partition_files[q].file_name@,
            partition_files[q].size,
            created_time + 1000,
        )
        &&& log.add_files[q].stats.describes(partition_files[q].columns.deep_view(), headers, types)
    }
}

/// The protocol action.
pub fn delta_protocol() -> (p: DeltaProtocol)
    ensures
        protocol_matches(p),
{
    DeltaProtocol { min_reader_version: 1, min_writer_version: 2 }
}

/// The metadata action of a table created from the file `input`.
pub fn delta_metadata(
    input: &str,
    headers: &Vec<String>,
    column_types: &Vec<ColumnType>,
    table_uuid: &str,
    created_time: i64,
    partitioned: bool,
) -> (md: DeltaMetadata)
    ensures
        metadata_matches(md, input@, headers.deep_view(), column_types@, table_uuid@, created_time, partitioned),
{
    let m = if headers.len() <= column_types.len() { headers.len() } else { column_types.len() };
    let mut schema_fields: Vec<DeltaSchemaField> = Vec::new();
    let mut i: usize = 0;
    while i < m
        invariant
            i <= m,
            m == min_len(headers.len() as nat, column_types.len() as nat),
            schema_fields.len() == i,
            forall|k: int| 0 <= k < i ==> {
                &&& (#[trigger] schema_fields[k]).name@ == headers[k]@
                &&& schema_fields[k].data_type@ == delta_type_name(column_types[k])
                &&& !schema_fields[k].nullable
            },
        decreases m - i,
    {
        schema_fields.push(
            DeltaSchemaField {
                name: headers[i].clone(),
                data_type: delta_type_name_of(column_types[i]),
                nullable: false,
            },
        );
        i = i + 1;
    }
    let description = if partitioned {
        String::from_str("Delta table (partitioned) created from ").concat(input)
    } else {
        String::from_str("Delta table created from ").concat(input)
    };
    let mut configuration: Vec<(String, String)> = Vec::new();
    configuration.push((String::from_str("delta.enableChangeDataFeed"), String::from_str("true")));
    configuration.push((String::from_str("delta.checkpoint.writeStatsAsJson"), String::from_str("true")));
    proof {
        reveal_strlit(".csv");
    }
    let md = DeltaMetadata {
        id: String::from_str("delta-").concat(table_uuid),
        name: str_trim_end_matches(input, ".csv"),
        description,
        provider: String::from_str("parquet"),
        schema_fields,
        partition_columns: Vec::new(),
        configuration,
        created_time,
    };
    assert(headers.deep_view().len() == headers.len());
    md
}

/// The commit info of an append.
pub fn delta_commit_info(timestamp: i64, num_files: u64, num_rows: u64, num_bytes: u64) -> (ci: DeltaCommitInfo)
    ensures
        commit_info_matches(ci, timestamp as int, num_files as nat, num_rows as nat, num_bytes as nat),
{
    DeltaCommitInfo {
        timestamp,
        operation: String::from_str("WRITE"),
        mode: String::from_str("Append"),
        partition_by: String::from_str("[]"),
        read_version: 0,
        isolation_level: String::from_str("Serializable"),
        is_blind_append: true,
        num_files: u64_to_decimal(num_files),
        num_output_rows: u64_to_decimal(num_rows),
        num_output_bytes: u64_to_decimal(num_bytes),
        engine_info: String::from_str("Rust-Manual-Delta-1.0"),
    }
}

/// The log of a table written as the single file `parquet_file` of
/// `file_size` bytes holding `num_records` rows, created at `created_time`
/// with the id `delta-<table_uuid>`.  The INSERT commit and the add action
/// are stamped one second after the creation.
pub fn delta_log_for_file(
    input: &str,
    columns: &Vec<Vec<String>>,
    headers: &Vec<String>,
    column_types: &Vec<ColumnType>,
    parquet_file: &str,
    file_size: u64,
    num_records: usize,
    table_uuid: &str,
    created_time: i64,
) -> (log: DeltaLog)
    requires
        created_time <= i64::MAX - 1000,
        columns.len() > 0,
        columns.len() >= min_len(headers.len() as nat, column_types.len() as nat),
    ensures
        file_log_matches(
            log,
            input@,
            columns.deep_view(),
            headers.deep_view(),
            column_types@,
            parquet_file@,
            file_size,
            num_records as nat,
            table_uuid@,
            created_time as int,
        ),
{
    let commit_time = created_time + 1000;
    let mut add_files: Vec<DeltaAddFile> = Vec::new();
    add_files.push(
        DeltaAddFile {
            path: String::from_str(parquet_file),
            size: file_size,
            modification_time: commit_time,
            data_change: true,
            stats: calculate_column_stats(columns, headers, column_types),
        },
    );
    DeltaLog {
        protocol: delta_protocol(),
        metadata: delta_metadata(input, headers, column_types, table_uuid, created_time, false),
        commit_info: delta_commit_info(commit_time, 1, num_records as u64, file_size),
        add_files,
    }
}

/// The log of a table written as the given partition files, holding
/// `total_records` rows in all.  One add action per file, in order, each
/// with the statistics of that file's rows.
pub fn delta_log_for_partitions(
    input: &str,
    headers: &Vec<String>,
    column_types: &Vec<ColumnType>,
    partition_files: &Vec<PartitionFile>,
    total_records: usize,
    table_uuid: &str,
    created_time: i64,
) -> (log: DeltaLog)
    requires
        created_time <= i64::MAX - 1000,
        total_size(partition_files@) <= u64::MAX,
        forall|q: int| 0 <= q < partition_files.len() ==> {
            &&& (#[trigger] partition_files[q]).columns.len() > 0
            &&& partition_files[q].columns.len() >= min_len(headers.len() as nat, column_types.len() as nat)
        },
    ensures
        partitions_log_matches(
            log,
            input@,
            headers.deep_view(),
            column_types@,
            partition_files@,
            total_records as nat,
            table_uuid@,
            created_time as int,
        ),
{
    let commit_time = created_time + 1000;
    let mut add_files: Vec<DeltaAddFile> = Vec::new();
    let mut size_sum: u64 = 0;
    let mut q: usize = 0;
    while q < partition_files.len()
        invariant
            q <= partition_files.len(),
            commit_time == created_time + 1000,
            total_size(partition_files@) <= u64::MAX,
            forall|k: int| 0 <= k < partition_files.len() ==> {
                &&& (#[trigger] partition_files[k]).columns.len() > 0
                &&& partition_files[k].columns.len() >= min_len(headers.len() as nat, column_types.len() as nat)
            },
            size_sum == total_size(partition_files@.take(q as int)),
            add_files.len() == q,
            forall|k: int| 0 <= k < q ==> {
                &&& add_file_matches(
                    #[trigger] add_files[k],
                    partition_files[k].file_name@,
                    partition_files[k].size,
                    commit_time as int,
                )
                &&& add_files[k].stats.describes(
                    partition_files[k].columns.deep_view(),
                    headers.deep_view(),
                    column_types@,
                )
            },
        decreases partition_files.len() - q,
    {
        let file = &partition_files[q];
        proof {
            lemma_total_size_prefix(partition_files@, (q + 1) as nat);
            assert(partition_files@.take(q + 1).drop_last() =~= partition_files@.take(q as int));
        }
        size_sum = size_sum + file.size;
        add_files.push(
            DeltaAddFile {
                path: file.file_name.clone(),
                size: file.size,
                modification_time: commit_time,
                data_change: true,
                stats: calculate_column_stats(&file.columns, headers, column_types),
            },
        );
        q = q + 1;
    }
    assert(partition_files@.take(partition_files.len() as int) =~= partition_files@);
    DeltaLog {
        protocol: delta_protocol(),
        metadata: delta_metadata(input, headers, column_types, table_uuid, created_time, true),
        commit_info: delta_commit_info(
            commit_time,
            partition_files.len() as u64,
            total_records as u64,
            size_sum,
        ),
        add_files,
    }
}

/// A prefix of the files is no larger than all of them.
proof fn lemma_total_size_prefix(files: Seq<PartitionFile>, k: nat)
    requires
        k <= files.len(),
    ensures
        total_size(files.take(k as int)) <= total_size(files),
    decreases files.len(),
{
    if k < files.len() {
        assert(files.drop_last().take(k as int) =~= files.take(k as int));
        lemma_total_size_prefix(files.drop_last(), k);
    } else {
        assert(files.take(k as int) =~= files);
    }
}

/// The current time in milliseconds since the Unix epoch, truncated to
/// `i64`, when it leaves room for the one-second commit offset.
fn log_timestamp() -> (r: Result<i64, ConvertError>)
    ensures
        r matches Ok(t) ==> t <= i64::MAX - 1000,
        r matches Err(e) ==> e is Clock || e is TimestampOverflow,
{
    let since_epoch = match duration_since_unix_epoch(system_time_now()) {
        Ok(d) => d,
        Err(e) => return Err(ConvertError::Clock(e)),
    };
    timestamp_from_millis(duration_as_millis(since_epoch))
}

/// A clock reading in milliseconds as a log timestamp: truncated to `i64`,
/// and refused when it leaves no room for the one-second commit offset.
fn timestamp_from_millis(millis: u128) -> (r: Result<i64, ConvertError>)
    ensures
        (millis as i64) <= i64::MAX - 1000 ==> (r matches Ok(t) && t == millis as i64),
        (millis as i64) > i64::MAX - 1000 ==> (r matches Err(e) && e is TimestampOverflow),
{
    let t = millis as i64;
    if t <= i64::MAX - 1000 {
        Ok(t)
    } else {
        Err(ConvertError::TimestampOverflow)
    }
}

/// The transaction log of a table written as a single data file: a fresh
/// random table id and the current time are drawn, then the log is that of
/// `delta_log_for_file`.
pub fn create_delta_log_files(
    input: &str,
    columns: &Vec<Vec<String>>,
    headers: &Vec<String>,
    column_types: &Vec<ColumnType>,
    parquet_file: &str,
    file_size: u64,
    num_records: usize,
) -> (r: Result<DeltaLog, ConvertError>)
    requires
        columns.len() > 0,
        columns.len() >= min_len(headers.len() as nat, column_types.len() as nat),
    ensures
        r matches Ok(log) ==> {
            let table_uuid = log.metadata.id@.skip(6);
            let created_time = log.metadata.created_time as int;
            &&& is_hyphenated_uuid(table_uuid)
            &&& created_time <= i64::MAX - 1000
            &&& file_log_matches(
                log,
                input@,
                columns.deep_view(),
                headers.deep_view(),
                column_types@,
                parquet_file@,
                file_size,
                num_records as nat,
                table_uuid,
                created_time,
            )
        },
        r matches Err(e) ==> e is Clock || e is TimestampOverflow,
{
    let created_time = match log_timestamp() {
        Ok(t) => t,
        Err(e) => return Err(e),
    };
    let table_uuid = new_uuid_v4_text();
    proof {
        reveal_strlit("delta-");
    }
    let log = delta_log_for_file(
        input,
        columns,
        headers,
        column_types,
        parquet_file,
        file_size,
        num_records,
        table_uuid.as_str(),
        created_time,
    );
    assert(file_log_matches(
        log,
        input@,
        columns.deep_view(),
        headers.deep_view(),
        column_types@,
        parquet_file@,
        file_size,
        num_records as nat,
        table_uuid@,
        created_time as int,
    ));
    assert(log.metadata.id@.skip(6) =~= table_uuid@);
    Ok(log)
}

/// The transaction log of a table written as several partition files: a
/// fresh random table id and the current time are drawn, then the log is
/// that of `delta_log_for_partitions`.
pub fn create_delta_log_files_partitioned(
    input: &str,
    headers: &Vec<String>,
    column_types: &Vec<ColumnType>,
    partition_files: &Vec<PartitionFile>,
    total_records: usize,
) -> (r: Result<DeltaLog, ConvertError>)
    requires
        total_size(partition_files@) <= u64::MAX,
        forall|q: int| 0 <= q < partition_files.len() ==> {
            &&& (#[trigger] partition_files[q]).columns.len() > 0
            &&& partition_files[q].columns.len() >= min_len(headers.len() as nat, column_types.len() as nat)
        },
    ensures
        r matches Ok(log) ==> {
            let table_uuid = log.metadata.id@.skip(6);
            let created_time = log.metadata.created_time as int;
            &&& is_hyphenated_uuid(table_uuid)
            &&& created_time <= i64::MAX - 1000
            &&& partitions_log_matches(
                log,
                input@,
                headers.deep_view(),
                column_types@,
                partition_files@,
                total_records as nat,
                table_uuid,
                created_time,
            )
        },
        r matches Err(e) ==> e is Clock || e is TimestampOverflow,
{
    let created_time = match log_timestamp() {
        Ok(t) => t,
        Err(e) => return Err(e),
    };
    let table_uuid = new_uuid_v4_text();
    proof {
        reveal_strlit("delta-");
    }
    let log = delta_log_for_partitions(
        input,
        headers,
        column_types,
        partition_files,
        total_records,
        table_uuid.as_str(),
        created_time,
    );
    assert(partitions_log_matches(
        log,
        input@,
        headers.deep_view(),
        column_types@,
        partition_files@,
        total_records as nat,
        table_uuid@,
        created_time as int,
    ));
    assert(log.metadata.id@.skip(6) =~= table_uuid@);
    Ok(log)
}

} // verus!
