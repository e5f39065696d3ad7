//! Grouped aggregation end to end: detection, partial columns, the merge query, `HAVING` and
//! `ORDER BY`, run with a small SQL dialect.

use lakehouse_engine::aggregates::{
    cast_merge_items, cast_to_declared_type, merge_select_items, AggKind, AggregatePlan,
};
use lakehouse_engine::error::UserError;
use lakehouse_engine::grouped_agg::detection::{
    fold_aggregate_plan, AggregateReader, GroupedAggregateDetection, GroupedSelectItem,
};
use lakehouse_engine::grouped_agg::having::MergeWriter;
use lakehouse_engine::grouped_agg::order::GroupedOrderBy;
use lakehouse_engine::grouped_agg::partials::{col_type_for, validate_agg_col_types};
use lakehouse_engine::joins::dialects::QueryDialect;
use lakehouse_engine::joins::fallback::FanOutProjection;
use lakehouse_engine::json::Json;
use lakehouse_engine::scan::{
    CommonScanSpec, FileEntry, ProjectionItem, ScanSpec, ScanStorage, ScanTuning, StorageBackend,
    StorageProps,
};
use lakehouse_engine::types::sum_emit_type;
use serde_json::{to_value, Value};

fn parse(text: &str) -> Value {
    serde_json::from_str(text).expect("valid JSON")
}

fn put(node: &mut Value, values: &[Value]) {
    match node {
        Value::String(text) => {
            if let Some(index) = text.strip_prefix('$').and_then(|index| index.parse::<usize>().ok()) {
                *node = values[index].clone();
            }
        }
        Value::Array(items) => items.iter_mut().for_each(|item| put(item, values)),
        Value::Object(members) => members.values_mut().for_each(|member| put(member, values)),
        _ => {}
    }
}

/// Parses `text` and puts `values[i]` where the string `"$i"` stands.
fn fill(text: &str, values: &[Value]) -> Value {
    let mut document = parse(text);
    put(&mut document, values);
    document
}

fn json(value: &Value) -> Json {
    match value {
        Value::Null => Json::Null,
        Value::Bool(flag) => Json::Bool(*flag),
        Value::Number(number) => match (number.as_u64(), number.as_i64()) {
            (Some(n), _) => Json::Unsigned(n),
            (None, Some(n)) => Json::Negative(n),
            (None, None) => Json::Decimal(number.to_string()),
        },
        Value::String(text) => Json::Str(text.clone()),
        Value::Array(items) => Json::Array(items.iter().map(json).collect()),
        Value::Object(members) => {
            Json::Object(members.iter().map(|(key, member)| (key.clone(), json(member))).collect())
        }
    }
}

fn value(json: &Json) -> Value {
    match json {
        Json::Null => Value::Null,
        Json::Bool(flag) => Value::Bool(*flag),
        Json::Unsigned(number) => Value::from(*number),
        Json::Negative(number) => Value::from(*number),
        Json::Decimal(text) => parse(text),
        Json::Str(text) => Value::String(text.clone()),
        Json::Array(items) => Value::Array(items.iter().map(value).collect()),
        Json::Object(members) => {
            Value::Object(members.iter().map(|(key, member)| (key.clone(), value(member))).collect())
        }
    }
}

// ---------------------------------------------------------------------------
// The dialects: what the database executes, and what a scan executes.
// ---------------------------------------------------------------------------

const QUERY: bool = true;

const SCAN_ONLY: bool = false;

fn sql_literal(text: &str) -> String {
    format!("'{}'", text.replace('\'', "''"))
}

fn nodes_of<'a>(node: &'a Value, key: &str) -> &'a [Value] {
    node[key].as_array().map_or(&[], |items| items.as_slice())
}

/// Renders a tree; `leaf` renders the nodes that the caller treats on its own.
fn render_with(
    node: &Value,
    query: bool,
    leaf: &dyn Fn(&Value) -> Option<Option<String>>,
) -> Option<String> {
    if let Some(rendered) = leaf(node) {
        return rendered;
    }
    let inner = |child: &Value| render_with(child, query, leaf);
    let infix = |operator: &str| {
        Some(format!("({} {operator} {})", inner(&node["left"])?, inner(&node["right"])?))
    };
    match node["type"].as_str()? {
        "column" => {
            let name = node["name"].as_str()?;
            Some(match node["tableAlias"].as_str() {
                Some(alias) => format!("\"{alias}\".\"{name}\""),
                None => format!("\"{name}\""),
            })
        }
        "literal_null" => Some("NULL".to_string()),
        "literal_exactnumeric" | "literal_double" => Some(node["value"].to_string()),
        "literal_string" => Some(sql_literal(node["value"].as_str()?)),
        "literal_bool" => Some(if node["value"].as_bool()? { "TRUE" } else { "FALSE" }.to_string()),
        "predicate_equal" => infix("="),
        "predicate_less" => infix("<"),
        "predicate_greater" => infix(">"),
        "function_scalar_case" => {
            let condition = inner(nodes_of(node, "arguments").first()?)?;
            let results = nodes_of(node, "results");
            let (yes, no) = (inner(results.first()?)?, inner(results.get(1)?)?);
            Some(format!("CASE WHEN {condition} THEN {yes} ELSE {no} END"))
        }
        "function_scalar_cast" => {
            let argument = inner(nodes_of(node, "arguments").first()?)?;
            let target = if query { exasol_type(&json(&node["dataType"])) } else { "VARCHAR".into() };
            Some(format!("CAST({argument} AS {target})"))
        }
        "function_scalar" => {
            let name = node["name"].as_str()?;
            let arguments: Vec<String> =
                nodes_of(node, "arguments").iter().map(inner).collect::<Option<Vec<String>>>()?;
            match (name, arguments.len()) {
                ("MOD", 2) => Some(format!("({} % {})", arguments[0], arguments[1])),
                ("MULT", 2) => Some(format!("({} * {})", arguments[0], arguments[1])),
                ("FLOAT_DIV", 2) => Some(format!("({} / {})", arguments[0], arguments[1])),
                _ => Some(format!("{name}({})", arguments.join(", "))),
            }
        }
        "function_aggregate" if query => {
            let name = node["name"].as_str()?;
            Some(match nodes_of(node, "arguments").first() {
                None => format!("{name}(*)"),
                Some(argument) if node["distinct"] == true => {
                    format!("{name}(DISTINCT {})", inner(argument)?)
                }
                Some(argument) => format!("{name}({})", inner(argument)?),
            })
        }
        _ => None,
    }
}

fn render(node: &Value, query: bool) -> Option<String> {
    render_with(node, query, &|_node| None)
}

fn exasol_type(data_type: &Json) -> String {
    let node = value(data_type);
    let kind = node["type"].as_str().unwrap_or("").to_lowercase();
    match kind.as_str() {
        "decimal" => format!("DECIMAL({},{})", node["precision"], node["scale"]),
        "varchar" => format!("VARCHAR({})", node["size"]),
        "char" if node["characterSet"] == "ASCII" => format!("CHAR({}) ASCII", node["size"]),
        "char" => format!("CHAR({})", node["size"]),
        "boolean" => "BOOLEAN".to_string(),
        "double" => "DOUBLE PRECISION".to_string(),
        _ => "VARCHAR(2000000)".to_string(),
    }
}

fn plan(kind: AggKind, column: Option<&str>) -> AggregatePlan {
    AggregatePlan { kind, column: column.map(str::to_string), arg_expr: None }
}

/// Reads an aggregate that a scan can compute in parts.
fn parse_agg_item(node: &Value) -> Option<AggregatePlan> {
    if node["type"] != "function_aggregate" || node["distinct"] == true {
        return None;
    }
    let argument = nodes_of(node, "arguments").first();
    let kind = match (node["name"].as_str()?, argument) {
        ("COUNT", None) => return Some(plan(AggKind::Count, None)),
        ("COUNT", Some(_)) => AggKind::CountCol,
        ("SUM", _) => AggKind::Sum,
        ("MIN", _) => AggKind::Min,
        ("MAX", _) => AggKind::Max,
        ("AVG", _) => AggKind::Avg,
        ("STDDEV", _) => AggKind::StddevSamp,
        _ => return None,
    };
    let argument = argument?;
    if argument["type"] == "column" {
        return Some(plan(kind, Some(argument["name"].as_str()?)));
    }
    if kind == AggKind::StddevSamp {
        return None;
    }
    Some(AggregatePlan { kind, column: None, arg_expr: Some(render(argument, SCAN_ONLY)?) })
}

fn collect_aggregates(node: &Value, plans: &mut Vec<AggregatePlan>) -> Option<()> {
    if node["type"] == "function_aggregate" {
        plans.push(parse_agg_item(node)?);
        return Some(());
    }
    if node["type"] == "column" {
        return None;
    }
    for argument in nodes_of(node, "arguments") {
        collect_aggregates(argument, plans)?;
    }
    Some(())
}

/// The aggregates of an expression over aggregates.
fn classify_scalar_over_aggregate(node: &Value) -> Option<Vec<AggregatePlan>> {
    let mut plans = Vec::new();
    collect_aggregates(node, &mut plans)?;
    if plans.is_empty() {
        None
    } else {
        Some(plans)
    }
}

/// Renders an expression over the merged partial columns of its aggregates.
fn render_scalar_over_merge(
    node: &Value,
    plans: &[AggregatePlan],
    merged: &[String],
) -> Option<String> {
    render_with(node, QUERY, &|leaf| match leaf["type"].as_str() {
        Some("function_aggregate") => Some(parse_agg_item(leaf).and_then(|wanted| {
            plans.iter().position(|known| *known == wanted).map(|slot| merged[slot].clone())
        })),
        Some("column") => Some(None),
        _ => None,
    })
}

fn scalar_over_merge(
    node: &Json,
    plans: &Vec<AggregatePlan>,
    merged: &Vec<String>,
) -> Option<String> {
    render_scalar_over_merge(&value(node), plans, merged)
}

fn merge_writer() -> MergeWriter<
    impl Fn(&Json) -> Option<AggregatePlan>,
    impl Fn(&Json, &Vec<AggregatePlan>, &Vec<String>) -> Option<String>,
> {
    MergeWriter { aggregate: |node: &Json| parse_agg_item(&value(node)), scalar: scalar_over_merge }
}

// ---------------------------------------------------------------------------
// The scan.
// ---------------------------------------------------------------------------

const SCAN_UDF_NAME: &str = "SCAN";

const DISTRIBUTE_FILES_UDF_NAME: &str = "DISTRIBUTE";

fn sample_storage() -> StorageBackend {
    StorageBackend::S3(StorageProps {
        endpoint: "http://minio:9000".to_string(),
        region: "us-east-1".to_string(),
        access_key: "minioadmin".to_string(),
        secret_key: "minioadmin".to_string(),
        allow_http: true,
        path_style: true,
    })
}

fn common_spec() -> CommonScanSpec {
    CommonScanSpec {
        table_root: String::new(),
        projection: Vec::new(),
        filter: None,
        limit: None,
        order_by: Vec::new(),
        aggregates: None,
        group_keys: None,
        distinct: false,
        logical_schema: Vec::new(),
        name_mapping: Vec::new(),
        join: None,
        partition_columns: Vec::new(),
        storage: ScanStorage::Inline(sample_storage()),
        tuning: ScanTuning {
            df_target_partitions: 1,
            df_batch_size: 8192,
            df_threads_per_udf: 1,
            memory_pool_fraction_bits: 0.6f64.to_bits(),
            instance_overhead_mb: 200,
            s3_max_connections: 8,
        },
    }
}

fn files_json(files: &[FileEntry]) -> String {
    let entries: Vec<String> =
        files.iter().map(|file| format!("[\"{}\",{}]", file.path, file.size)).collect();
    format!("[{}]", entries.join(","))
}

fn common_json(common: &CommonScanSpec) -> String {
    let mut fields: Vec<String> = Vec::new();
    if let Some(limit) = common.limit {
        fields.push(format!("\"limit\":{limit}"));
    }
    if let Some(keys) = &common.group_keys {
        fields.push(format!("\"group_keys\":{}", serde_json::to_string(keys).expect("JSON")));
    }
    let ScanStorage::Inline(StorageBackend::S3(props)) = &common.storage else {
        panic!("fixtures read inline storage, not {:?}", common.storage);
    };
    fields.push(format!("\"endpoint\":\"{}\"", props.endpoint));
    let fraction = f64::from_bits(common.tuning.memory_pool_fraction_bits);
    fields.push(format!("\"memory_pool_fraction\":{fraction}"));
    format!("{{{}}}", fields.join(","))
}

/// The query that drives a scan: one call for one shard, else a distributor over the shards.
fn fan_out(spec: &ScanSpec, shards: &Vec<Vec<FileEntry>>, emits: &String) -> String {
    let common = sql_literal(&common_json(&spec.common));
    if shards.len() == 1 {
        let files = sql_literal(&files_json(&shards[0]));
        return format!("SELECT {SCAN_UDF_NAME}({common}, {files}) EMITS ({emits})");
    }
    let rows: Vec<String> = shards
        .iter()
        .enumerate()
        .map(|(key, files)| format!("({key}, {})", sql_literal(&files_json(files))))
        .collect();
    format!(
        "SELECT {SCAN_UDF_NAME}({common}, files) EMITS ({emits}) FROM (SELECT {DISTRIBUTE_FILES_UDF_NAME}(files) FROM (VALUES {}) AS shards(shard_key, files) GROUP BY shard_key)",
        rows.join(", ")
    )
}

fn shard_count(nodes: usize, factor: usize, files: usize) -> usize {
    (nodes * factor).min(files)
}

fn partition_files(files: Vec<FileEntry>, count: usize) -> Vec<Vec<FileEntry>> {
    let mut shards: Vec<Vec<FileEntry>> = (0..count).map(|_| Vec::new()).collect();
    for (index, file) in files.into_iter().enumerate() {
        shards[index % count].push(file);
    }
    shards
}

/// The first argument of a scan call in `sql`.
fn common_arg_literal(sql: &str) -> &str {
    let start = sql.find("SCAN('").expect("a scan call") + "SCAN('".len();
    let length = sql[start..].find("', ").expect("a second argument");
    &sql[start..start + length]
}

// ---------------------------------------------------------------------------
// The functions under test over JSON documents, with the dialects above.
// ---------------------------------------------------------------------------

fn detect_group_by_aggregates(req: &Value) -> Option<GroupedAggregateDetection> {
    let reader = AggregateReader {
        expression: |node: &Json| render(&value(node), SCAN_ONLY),
        aggregate: |node: &Json| parse_agg_item(&value(node)),
        nested: |node: &Json| classify_scalar_over_aggregate(&value(node)),
        exasol_type,
    };
    lakehouse_engine::grouped_agg::detection::detect_group_by_aggregates(&json(req), &reader)
}

fn build_grouped_order_by_clause(
    req: &Value,
    detection: &GroupedAggregateDetection,
) -> Option<GroupedOrderBy> {
    lakehouse_engine::grouped_agg::order::build_grouped_order_by_clause(
        &json(req),
        detection,
        &|node: &Json| render(&value(node), SCAN_ONLY),
        &merge_writer(),
    )
}

fn render_having_over_merge(node: &Value, plans: &Vec<AggregatePlan>) -> Option<String> {
    lakehouse_engine::grouped_agg::having::render_having_over_merge(
        &json(node),
        plans,
        &merge_writer(),
    )
}

fn group_key_exasol_types(
    req: &Value,
    group_keys: &Vec<String>,
    select_items: &Vec<GroupedSelectItem>,
) -> Vec<String> {
    lakehouse_engine::grouped_agg::key_types::group_key_exasol_types(
        &json(req),
        group_keys,
        select_items,
        &exasol_type,
    )
}

fn blank_pad_char_group_keys(keys: &[String], types: &[String]) -> Vec<String> {
    lakehouse_engine::grouped_agg::key_types::blank_pad_char_group_keys(
        &keys.to_vec(),
        &types.to_vec(),
    )
}

fn partial_emits_items(
    plans: &Vec<AggregatePlan>,
    col_types: &[(String, String)],
    types: &[String],
) -> Vec<String> {
    lakehouse_engine::grouped_agg::partials::partial_emits_items(
        plans,
        &col_types.to_vec(),
        &types.to_vec(),
    )
}

#[allow(clippy::too_many_arguments)]
fn build_grouped_aggregate_scan_sql(
    spec_template: &ScanSpec,
    shards: &Vec<Vec<FileEntry>>,
    group_keys: &[String],
    group_key_types: &[String],
    aggregates: &[AggregatePlan],
    aggregate_types: &[String],
    select_items: &Vec<GroupedSelectItem>,
    limit: Option<u64>,
    offset: u64,
    col_types: &[(String, String)],
    having: Option<&str>,
    order_by: Option<&str>,
) -> String {
    lakehouse_engine::grouped_agg::wrapper::build_grouped_aggregate_scan_sql(
        spec_template,
        shards,
        &group_keys.to_vec(),
        &group_key_types.to_vec(),
        &aggregates.to_vec(),
        &aggregate_types.to_vec(),
        select_items,
        limit,
        offset,
        &col_types.to_vec(),
        having,
        order_by,
        &scalar_over_merge,
        &fan_out,
    )
}

fn agg_item(name: &str, column: Option<&str>, distinct: bool) -> Value {
    match column {
        Some(column) => agg_item_expr(
            name,
            fill(r#"{"type": "column", "name": "$0"}"#, &[Value::from(column)]),
            distinct,
        ),
        None => fill(
            r#"{"type": "function_aggregate", "name": "$0", "arguments": [], "distinct": "$1"}"#,
            &[Value::from(name), Value::from(distinct)],
        ),
    }
}

fn agg_item_expr(name: &str, argument: Value, distinct: bool) -> Value {
    fill(
        r#"{"type": "function_aggregate", "name": "$0", "arguments": ["$1"], "distinct": "$2"}"#,
        &[Value::from(name), argument, Value::from(distinct)],
    )
}

/// An absent scale defaults to `0`, so `DECIMAL(10)` widens to `DECIMAL(36,0)`.
#[test]
fn sum_emit_type_absent_scale_widens_to_a_scale_zero_decimal() {
    assert_eq!(sum_emit_type("DECIMAL(10)"), "DECIMAL(36,0)");
}

/// A non-canonical scale text re-emerges canonically or falls back, never echoed raw.
#[test]
fn sum_emit_type_never_echoes_a_non_canonical_scale_text() {
    // `None` = the parser rejects the text, so the answer is the numeric fallback.
    let non_canonical: &[(&str, Option<&str>)] = &[
        (" 2", Some("DECIMAL(36,2)")),
        ("2 ", Some("DECIMAL(36,2)")),
        ("+2", Some("DECIMAL(36,2)")),
        ("02", Some("DECIMAL(36,2)")),
        ("-02", Some("DECIMAL(36,-2)")),
        ("X", None),
        ("2,3", None),
        ("200", None),
        ("", None),
    ];
    for (raw_scale, canonical) in non_canonical {
        let answer = sum_emit_type(&format!("DECIMAL(10,{raw_scale})"));
        assert_ne!(
            answer,
            format!("DECIMAL(36,{raw_scale})"),
            "a non-canonical scale text must never be echoed verbatim"
        );
        assert_eq!(
            answer,
            canonical.unwrap_or("DOUBLE PRECISION"),
            "wrong answer for scale text {raw_scale:?}"
        );
    }
}

/// Every precision `parse_decimal_args` rejects declines to the numeric fallback.
#[test]
fn sum_emit_type_declines_every_precision_the_parser_rejects() {
    for rejected_precision in ["300", "256", "-1", "X", "", " "] {
        assert_eq!(
            sum_emit_type(&format!("DECIMAL({rejected_precision},2)")),
            "DOUBLE PRECISION",
            "precision {rejected_precision:?} is rejected by the parser, so the \
                 aggregate must fall back rather than borrow a DECIMAL(36,…) width"
        );
    }
}

/// A GROUP BY request carrying COUNT(DISTINCT) declines to row scanning.
#[test]
fn grouped_count_distinct_falls_back_to_row_scan() {
    let req = fill(r#"{
        "aggregationType": "group_by",
        "groupBy": [{"type": "column", "name": "REGION"}],
        "selectList": [
            {"type": "column", "name": "REGION"},
            "$0"
        ]
    }"#, &[to_value(&agg_item("COUNT", Some("L_SHIPMODE"), true)).unwrap()]);
    assert!(
        detect_group_by_aggregates(&req).is_none(),
        "grouped COUNT(DISTINCT) must still decline (row-scan fallback)"
    );
}

/// MIN/MAX over a DATE column emits DATE, not DOUBLE PRECISION.
#[test]
fn partial_emits_min_max_preserve_date_timestamp_type() {
    let plans = vec![
        AggregatePlan {
            kind: AggKind::Min,
            column: Some("EVENT_DATE".into()),
            arg_expr: None,
        },
        AggregatePlan {
            kind: AggKind::Max,
            column: Some("EVENT_TS".into()),
            arg_expr: None,
        },
    ];
    let col_types = vec![
        ("EVENT_DATE".to_string(), "DATE".to_string()),
        ("EVENT_TS".to_string(), "TIMESTAMP".to_string()),
    ];
    let emits = partial_emits_items(&plans, &col_types, &[]);
    assert!(
        emits[0].contains("DATE") && !emits[0].contains("DOUBLE"),
        "MIN over DATE must emit DATE, not DOUBLE: {:?}",
        emits[0]
    );
    assert!(
        emits[1].contains("TIMESTAMP") && !emits[1].contains("DOUBLE"),
        "MAX over TIMESTAMP must emit TIMESTAMP, not DOUBLE: {:?}",
        emits[1]
    );
}

/// SUM over a DECIMAL(20,0) column emits DECIMAL(36,0), not DOUBLE.
#[test]
fn partial_emits_sum_integer_stays_decimal() {
    let plans = vec![AggregatePlan {
        kind: AggKind::Sum,
        column: Some("AMOUNT".into()),
        arg_expr: None,
    }];
    let col_types = vec![("AMOUNT".to_string(), "DECIMAL(20,0)".to_string())];
    let emits = partial_emits_items(&plans, &col_types, &[]);
    assert!(
        emits[0].contains("DECIMAL") && !emits[0].contains("DOUBLE"),
        "SUM over DECIMAL integer must emit DECIMAL, not DOUBLE: {:?}",
        emits[0]
    );
    assert!(
        emits[0].contains("DECIMAL(36,0)"),
        "SUM over DECIMAL(20,0) must widen to DECIMAL(36,0): {:?}",
        emits[0]
    );
}

/// SUM over a DOUBLE PRECISION column stays DOUBLE PRECISION.
#[test]
fn partial_emits_sum_double_stays_double() {
    let plans = vec![AggregatePlan {
        kind: AggKind::Sum,
        column: Some("SCORE".into()),
        arg_expr: None,
    }];
    let col_types = vec![("SCORE".to_string(), "DOUBLE PRECISION".to_string())];
    let emits = partial_emits_items(&plans, &col_types, &[]);
    assert!(
        emits[0].contains("DOUBLE PRECISION"),
        "SUM over DOUBLE must emit DOUBLE PRECISION: {:?}",
        emits[0]
    );
}

/// SUM over a VARCHAR or DATE column fails `validate_agg_col_types`.
#[test]
fn aggregate_falls_back_to_row_scan_for_sum_of_non_numeric() {
    let col_types_varchar = vec![("NAME".to_string(), "VARCHAR(2000000)".to_string())];
    let sum_varchar = vec![AggregatePlan {
        kind: AggKind::Sum,
        column: Some("NAME".into()),
        arg_expr: None,
    }];
    assert!(
        !validate_agg_col_types(&sum_varchar, &col_types_varchar),
        "SUM over VARCHAR must fail validation (fall back to row scan)"
    );

    let col_types_date = vec![("EVENT_DATE".to_string(), "DATE".to_string())];
    let sum_date = vec![AggregatePlan {
        kind: AggKind::Sum,
        column: Some("EVENT_DATE".into()),
        arg_expr: None,
    }];
    assert!(
        !validate_agg_col_types(&sum_date, &col_types_date),
        "SUM over DATE must fail validation (fall back to row scan)"
    );
}

/// A grouped SUM over VARCHAR falls back to row scan instead of an opaque UDF error.
#[test]
fn grouped_aggregate_sum_over_varchar_falls_back_via_type_validation() {
    let req = fill(r#"{
        "aggregationType": "group_by",
        "groupBy": [{"type": "column", "name": "REGION"}],
        "selectList": [
            {"type": "column", "name": "REGION"},
            "$0"
        ]
    }"#, &[to_value(&agg_item("SUM", Some("NAME"), false)).unwrap()]);

    let detected = detect_group_by_aggregates(&req);
    assert!(
        detected.is_some(),
        "detect_group_by_aggregates must accept the shape: {req}"
    );
    let agg_plans = detected.unwrap().plans;

    let col_types = vec![
        ("REGION".to_string(), "VARCHAR(2000000)".to_string()),
        ("NAME".to_string(), "VARCHAR(2000000)".to_string()),
    ];
    assert!(
        !validate_agg_col_types(&agg_plans, &col_types),
        "validate_agg_col_types must fail for SUM over VARCHAR (fall back to row scan)"
    );

    let col_types_date = vec![
        ("REGION".to_string(), "VARCHAR(2000000)".to_string()),
        ("NAME".to_string(), "DATE".to_string()),
    ];
    assert!(
        !validate_agg_col_types(&agg_plans, &col_types_date),
        "validate_agg_col_types must fail for SUM over DATE (fall back to row scan)"
    );

    let col_types_numeric = vec![
        ("REGION".to_string(), "VARCHAR(2000000)".to_string()),
        ("NAME".to_string(), "DOUBLE PRECISION".to_string()),
    ];
    assert!(
        validate_agg_col_types(&agg_plans, &col_types_numeric),
        "validate_agg_col_types must pass for SUM over DOUBLE PRECISION"
    );
}

fn make_group_by_request(
    group_by: Value,
    select_list: Value,
) -> Value {
    fill(r#"{
        "aggregationType": "group_by",
        "groupBy": "$0",
        "selectList": "$1"
    }"#, &[to_value(&group_by).unwrap(), to_value(&select_list).unwrap()])
}

fn make_group_by_request_with_types(
    group_by: Value,
    select_list: Value,
    select_list_data_types: Value,
) -> Value {
    fill(r#"{
        "aggregationType": "group_by",
        "groupBy": "$0",
        "selectList": "$1",
        "selectListDataTypes": "$2"
    }"#, &[to_value(&group_by).unwrap(), to_value(&select_list).unwrap(), to_value(&select_list_data_types).unwrap()])
}

/// Its own `dataType` is the only place the key's type appears when the key is not also in the
/// select list.
fn char_cast_key(size: u64, character_set: &str) -> Value {
    fill(r#"{
        "type": "function_scalar_cast",
        "name": "CAST",
        "dataType": {"type": "CHAR", "size": "$0", "characterSet": "$1"},
        "arguments": [{"type": "column", "name": "NAME"}]
    }"#, &[to_value(&size).unwrap(), to_value(&character_set).unwrap()])
}

fn varchar_cast_key(size: u64) -> Value {
    fill(r#"{
        "type": "function_scalar_cast",
        "name": "CAST",
        "dataType": {"type": "VARCHAR", "size": "$0"},
        "arguments": [{"type": "column", "name": "NAME"}]
    }"#, &[to_value(&size).unwrap()])
}

fn mod_item(col: &str, divisor: i64) -> Value {
    fill(r#"{
        "type": "function_scalar",
        "name": "MOD",
        "arguments": [
            {"type": "column", "name": "$0"},
            {"type": "literal_exactnumeric", "value": "$1"}
        ]
    }"#, &[to_value(&col).unwrap(), to_value(&divisor).unwrap()])
}

fn upper_item(col: &str) -> Value {
    fill(r#"{
        "type": "function_scalar",
        "name": "UPPER",
        "arguments": [
            {"type": "column", "name": "$0"}
        ]
    }"#, &[to_value(&col).unwrap()])
}

fn decimal_type(precision: u64, scale: u64) -> Value {
    fill(r#"{"type": "decimal", "precision": "$0", "scale": "$1"}"#, &[to_value(&precision).unwrap(), to_value(&scale).unwrap()])
}

/// A column reference in GROUP BY renders to a quoted identifier.
#[test]
fn detect_group_by_aggregates_column_key() {
    let req = make_group_by_request(
        parse(r#"[{"type": "column", "name": "REGION"}]"#),
        fill(r#"[
            {"type": "column", "name": "REGION"},
            "$0"
        ]"#, &[to_value(&agg_item("COUNT", None, false)).unwrap()]),
    );
    let result = detect_group_by_aggregates(&req).expect("must detect grouped aggregate");
    let GroupedAggregateDetection {
        group_keys: keys,
        plans,
        ..
    } = result;
    assert_eq!(keys.len(), 1, "one group key");
    assert!(
        keys[0].contains("REGION"),
        "group key must reference REGION: {:?}",
        keys[0]
    );
    assert_eq!(plans.len(), 1, "one aggregate plan");
    assert_eq!(plans[0].kind, AggKind::Count);
}

fn grouped_spec(result: &GroupedAggregateDetection) -> ScanSpec {
    ScanSpec {
        common: CommonScanSpec {
            aggregates: Some(result.plans.clone()),
            group_keys: Some(result.group_keys.clone()),
            ..common_spec()
        },
        files: vec![],
    }
}

/// A grouped ORDER BY without LIMIT renders a positional final ORDER BY, sorting typed output.
#[test]
fn grouped_order_by_no_limit_renders_explicit_merge_order_by() {
    let mut req = make_group_by_request_with_types(
        parse(r#"[{"type": "column", "name": "ID"}]"#),
        fill(r#"[
            {"type": "column", "name": "ID"},
            "$0"
        ]"#, &[to_value(&agg_item("COUNT", None, false)).unwrap()]),
        fill(r#"["$0", "$1"]"#, &[to_value(&decimal_type(20, 0)).unwrap(), to_value(&decimal_type(20, 0)).unwrap()]),
    );
    req["orderBy"] = parse(r#"[{
        "type": "order_by_element",
        "expression": {"type": "column", "name": "ID"},
        "isAscending": true,
        "nullsLast": true
    }]"#);

    let result = detect_group_by_aggregates(&req).expect("grouped aggregate");
    assert_eq!(
        build_grouped_order_by_clause(&req, &result),
        Some(GroupedOrderBy::Clause("1 ASC NULLS LAST".to_string())),
        "grouped ORDER BY must map the sort key to its 1-based output ordinal"
    );

    let group_key_types = group_key_exasol_types(&req, &result.group_keys, &result.select_items);
    let sql = build_grouped_aggregate_scan_sql(
        &grouped_spec(&result),
        &vec![vec![FileEntry::new("s3://wh/f0.parquet", 1)]],
        &result.group_keys,
        &group_key_types,
        &result.plans,
        &[],
        &result.select_items,
        None,
        0,
        &[("ID".to_string(), "DECIMAL(20,0)".to_string())],
        None,
        Some("1 ASC NULLS LAST"),
    );
    assert!(
        sql.contains(" ORDER BY 1 ASC NULLS LAST"),
        "merge SQL must render the explicit final ORDER BY: {sql}"
    );
    assert!(!sql.contains("LIMIT"), "no LIMIT requested: {sql}");
}

/// An ORDER BY on a detected aggregate resolves to its merged expression.
#[test]
fn grouped_order_by_select_list_aggregate_renders_merged_partial() {
    let mut req = make_group_by_request_with_types(
        parse(r#"[{"type": "column", "name": "ID"}]"#),
        fill(r#"[
            {"type": "column", "name": "ID"},
            "$0"
        ]"#, &[to_value(&agg_item("SUM", Some("AMOUNT"), false)).unwrap()]),
        fill(r#"["$0", "$1"]"#, &[to_value(&decimal_type(20, 0)).unwrap(), to_value(&decimal_type(36, 2)).unwrap()]),
    );
    req["orderBy"] = fill(r#"[
        {
            "type": "order_by_element",
            "expression": "$0",
            "isAscending": false,
            "nullsLast": true
        },
        {
            "type": "order_by_element",
            "expression": {"type": "column", "name": "ID"},
            "isAscending": true,
            "nullsLast": false
        }
    ]"#, &[to_value(&agg_item("SUM", Some("AMOUNT"), false)).unwrap()]);

    let detection = detect_group_by_aggregates(&req).expect("grouped aggregate");
    assert_eq!(
        build_grouped_order_by_clause(&req, &detection),
        Some(GroupedOrderBy::Clause(
            r#"SUM("PARTIAL_sum_0") DESC NULLS LAST, 1 ASC NULLS FIRST"#.to_string()
        )),
        "an aggregate sort key must render as its merged partial, a group key as its ordinal"
    );
}

/// An ORDER BY on an undetected aggregate is `Unresolvable`, routing to a wrapper.
#[test]
fn grouped_order_by_aggregate_absent_from_plans_is_unresolvable() {
    let mut req = make_group_by_request_with_types(
        parse(r#"[{"type": "column", "name": "ID"}]"#),
        fill(r#"[
            {"type": "column", "name": "ID"},
            "$0"
        ]"#, &[to_value(&agg_item("COUNT", None, false)).unwrap()]),
        fill(r#"["$0", "$1"]"#, &[to_value(&decimal_type(20, 0)).unwrap(), to_value(&decimal_type(20, 0)).unwrap()]),
    );
    req["orderBy"] = fill(r#"[{
        "type": "order_by_element",
        "expression": "$0",
        "isAscending": false,
        "nullsLast": true
    }]"#, &[to_value(&agg_item("SUM", Some("AMOUNT"), false)).unwrap()]);

    let detection = detect_group_by_aggregates(&req).expect("grouped aggregate");
    assert_eq!(
        build_grouped_order_by_clause(&req, &detection),
        Some(GroupedOrderBy::Unresolvable),
        "an aggregate with no matching plan must not resolve to a fabricated partial"
    );
}

/// A scalar expression in GROUP BY renders via `render_expression`.
#[test]
fn detect_group_by_aggregates_expression_key() {
    let req = make_group_by_request(
        parse(r#"[{
            "type": "predicate_equal",
            "left": {"type": "column", "name": "STATUS"},
            "right": {"type": "literal_string", "value": "active"}
        }]"#),
        fill(r#"["$0"]"#, &[to_value(&agg_item("SUM", Some("AMOUNT"), false)).unwrap()]),
    );
    let result = detect_group_by_aggregates(&req);
    assert!(result.is_some(), "renderable expression key must succeed");
    let GroupedAggregateDetection {
        group_keys: keys,
        plans,
        ..
    } = result.unwrap();
    assert_eq!(keys.len(), 1);
    assert!(keys[0].contains("="), "rendered expression must contain =");
    assert_eq!(plans[0].kind, AggKind::Sum);
}

/// An unsupported GROUP BY expression makes detection return None.
#[test]
fn detect_group_by_unsupported_expression_falls_back() {
    let req = make_group_by_request(
        parse(r#"[{"type": "fn_custom_unsupported", "name": "MYSTERY"}]"#),
        fill(r#"["$0"]"#, &[to_value(&agg_item("COUNT", None, false)).unwrap()]),
    );
    assert!(
        detect_group_by_aggregates(&req).is_none(),
        "unsupported expression must fall back to None"
    );
}

/// A non-aggregate, non-column select-list item causes fallback.
#[test]
fn detect_group_by_mixed_select_falls_back() {
    let req = make_group_by_request(
        parse(r#"[{"type": "column", "name": "REGION"}]"#),
        fill(r#"[
            {"type": "function_scalar", "name": "YEAR", "arguments": [{"type": "column", "name": "TS"}]},
            "$0"
        ]"#, &[to_value(&agg_item("COUNT", None, false)).unwrap()]),
    );
    assert!(
        detect_group_by_aggregates(&req).is_none(),
        "non-aggregate non-column in selectList must fall back"
    );
}

/// A `literal_null`-only grouped select list keeps its GROUP BY, never a row-scan fallback.
#[test]
fn composed_nested_aggregate_request_does_not_reference_phantom_column() {
    let req = parse(r#"{
        "aggregationType": "group_by",
        "from": { "name": "EVENTS", "type": "table" },
        "groupBy": [
            { "columnNr": 0, "name": "ID", "tableName": "EVENTS", "type": "column" }
        ],
        "selectList": [ { "type": "literal_null" } ],
        "selectListDataTypes": [ { "type": "BOOLEAN" } ],
        "type": "select"
    }"#);
    let result = detect_group_by_aggregates(&req).expect(
        "composed literal-only selectList must preserve GROUP BY, not fall back to row scan",
    );
    assert_eq!(result.group_keys.len(), 1, "one group key from groupBy");
    assert!(
        result.group_keys[0].contains("ID"),
        "group key must reference ID: {:?}",
        result.group_keys[0]
    );
    assert!(
        result.plans.is_empty(),
        "a literal placeholder contributes no aggregate plan"
    );
    assert!(
        matches!(
            result.select_items.as_slice(),
            [GroupedSelectItem::Constant {
                select_index: 0,
                ..
            }]
        ),
        "the literal_null item must classify as a Constant: {:?}",
        result.select_items
    );

    // A row-scan fallback would return one row per source row, not per group.
    let group_key_types = group_key_exasol_types(&req, &result.group_keys, &result.select_items);
    let sql = build_grouped_aggregate_scan_sql(
        &ScanSpec {
            common: CommonScanSpec {
                aggregates: Some(result.plans.clone()),
                group_keys: Some(result.group_keys.clone()),
                    ..common_spec()
            },
            files: vec![],
        },
        &vec![vec![FileEntry::new("s3://wh/f0.parquet", 1)]],
        &result.group_keys,
        &group_key_types,
        &result.plans,
        &[],
        &result.select_items,
        None,
        0,
        &[("ID".to_string(), "DECIMAL(20,0)".to_string())],
        None,
        None,
    );
    assert!(
        !sql.contains(r#""NULL""#),
        "grouped scan SQL must not reference a phantom \"NULL\" identifier: {sql}"
    );
    assert!(
        sql.contains(r#"GROUP BY "GK_0""#),
        "outer wrapper must group by GK_0 to yield one row per distinct group: {sql}"
    );
    assert!(
        sql.contains("SELECT CAST(NULL AS BOOLEAN) FROM"),
        "outer wrapper must project the type-cast constant placeholder: {sql}"
    );
}

/// A `literal_bool` placeholder in a grouped select list does not abort detection.
#[test]
fn literal_bool_selectlist_item_classifies_as_constant_not_group_key() {
    let req = make_group_by_request_with_types(
        parse(r#"[{"type": "column", "name": "ID"}]"#),
        fill(r#"[
            {"type": "column", "name": "ID"},
            {"type": "literal_bool", "value": true},
            "$0"
        ]"#, &[to_value(&agg_item("COUNT", None, false)).unwrap()]),
        fill(r#"[
            "$0",
            "$1",
            "$2"
        ]"#, &[to_value(&decimal_type(20, 0)).unwrap(), to_value(&parse(r#"{"type": "boolean"}"#)).unwrap(), to_value(&decimal_type(20, 0)).unwrap()]),
    );
    let result = detect_group_by_aggregates(&req).expect(
        "a literal_bool selectList item must classify as Constant, not abort detection to None",
    );
    assert!(
        matches!(
            result.select_items[1],
            GroupedSelectItem::Constant {
                select_index: 1,
                ..
            }
        ),
        "the literal_bool item must classify as a Constant, not fall through \
             to the group-key arm: {:?}",
        result.select_items
    );
}

/// An aggregate before the group key keeps its original select-list ordinal.
#[test]
fn detect_group_by_aggregates_preserves_select_list_order() {
    let req = make_group_by_request(
        fill(r#"["$0"]"#, &[to_value(&mod_item("ID", 4)).unwrap()]),
        fill(r#"["$0", "$1"]"#, &[to_value(&agg_item("SUM", Some("SCORE"), false)).unwrap(), to_value(&mod_item("ID", 4)).unwrap()]),
    );
    let result = detect_group_by_aggregates(&req).expect("must detect grouped aggregate");
    assert_eq!(result.group_keys.len(), 1, "one group key");
    assert_eq!(result.plans.len(), 1, "one aggregate plan");
    assert_eq!(
        result.select_items,
        vec![
            GroupedSelectItem::Aggregate {
                plan_slot: 0,
                select_index: 0,
            },
            GroupedSelectItem::GroupKey {
                group_key_slot: 0,
                select_index: 1,
            },
        ],
        "classification must preserve original select-list ordinals: {:?}",
        result.select_items
    );
}

/// Interleaved multi-key GROUP BY items keep their own ordinals and key slots.
#[test]
fn detect_group_by_aggregates_interleaved_multi_key_preserves_order() {
    let req = make_group_by_request(
        parse(r#"[
            {"type": "column", "name": "REGION"},
            {"type": "column", "name": "YEAR"}
        ]"#),
        fill(r#"[
            {"type": "column", "name": "REGION"},
            "$0",
            {"type": "column", "name": "YEAR"}
        ]"#, &[to_value(&agg_item("SUM", Some("SCORE"), false)).unwrap()]),
    );
    let result = detect_group_by_aggregates(&req).expect("must detect grouped aggregate");
    assert_eq!(result.group_keys.len(), 2, "two group keys");
    assert_eq!(result.plans.len(), 1, "one aggregate plan");
    assert_eq!(
        result.select_items,
        vec![
            GroupedSelectItem::GroupKey {
                group_key_slot: 0,
                select_index: 0,
            },
            GroupedSelectItem::Aggregate {
                plan_slot: 0,
                select_index: 1,
            },
            GroupedSelectItem::GroupKey {
                group_key_slot: 1,
                select_index: 2,
            },
        ],
        "classification must preserve interleaved ordinals: {:?}",
        result.select_items
    );
}

/// An expression group key after an aggregate keeps its original ordinal.
#[test]
fn detect_group_by_aggregates_expr_key_after_agg_preserves_order() {
    let req = make_group_by_request(
        fill(r#"["$0"]"#, &[to_value(&mod_item("ID", 4)).unwrap()]),
        fill(r#"["$0", "$1"]"#, &[to_value(&agg_item("COUNT", None, false)).unwrap(), to_value(&mod_item("ID", 4)).unwrap()]),
    );
    let result = detect_group_by_aggregates(&req).expect("must detect grouped aggregate");
    assert_eq!(
        result.select_items,
        vec![
            GroupedSelectItem::Aggregate {
                plan_slot: 0,
                select_index: 0,
            },
            GroupedSelectItem::GroupKey {
                group_key_slot: 0,
                select_index: 1,
            },
        ],
        "expression key after aggregate must classify by original ordinal: {:?}",
        result.select_items
    );
}

/// HAVING does not change aggregate-first select-list classification.
#[test]
fn detect_group_by_aggregates_aggregate_first_with_having_preserves_order() {
    let req = fill(r#"{
        "aggregationType": "group_by",
        "groupBy": ["$0"],
        "selectList": ["$1", "$2"],
        "having": {
            "type": "predicate_greater",
            "left": "$3",
            "right": {"type": "literal_exactnumeric", "value": 100}
        }
    }"#, &[to_value(&mod_item("ID", 4)).unwrap(), to_value(&agg_item("SUM", Some("SCORE"), false)).unwrap(), to_value(&mod_item("ID", 4)).unwrap(), to_value(&agg_item("SUM", Some("SCORE"), false)).unwrap()]);
    let result = detect_group_by_aggregates(&req).expect("must detect grouped aggregate");
    assert_eq!(
        result.select_items,
        vec![
            GroupedSelectItem::Aggregate {
                plan_slot: 0,
                select_index: 0,
            },
            GroupedSelectItem::GroupKey {
                group_key_slot: 0,
                select_index: 1,
            },
        ],
        "HAVING presence must not affect selectList classification order: {:?}",
        result.select_items
    );
}

/// All-expression multi-key GROUP BY renders each key; one untranslatable key declines all.
#[test]
fn detect_group_by_all_expression_multi_key() {
    let req = make_group_by_request(
        fill(r#"["$0", "$1"]"#, &[to_value(&mod_item("ID", 4)).unwrap(), to_value(&upper_item("NAME")).unwrap()]),
        fill(r#"[
            "$0",
            "$1",
            "$2"
        ]"#, &[to_value(&mod_item("ID", 4)).unwrap(), to_value(&upper_item("NAME")).unwrap(), to_value(&agg_item("COUNT", None, false)).unwrap()]),
    );
    let result = detect_group_by_aggregates(&req).expect("all-expression multi-key must detect");
    assert_eq!(result.group_keys.len(), 2, "two expression group keys");
    assert!(
        result.group_keys[0].contains('%') && result.group_keys[0].contains('4'),
        "key 0 must render the MOD expression: {:?}",
        result.group_keys
    );
    assert!(
        result.group_keys[1].to_lowercase().contains("upper"),
        "key 1 must render the UPPER expression: {:?}",
        result.group_keys
    );
    assert_eq!(result.plans.len(), 1, "one aggregate plan");
    assert_eq!(
        result.select_items,
        vec![
            GroupedSelectItem::GroupKey {
                group_key_slot: 0,
                select_index: 0,
            },
            GroupedSelectItem::GroupKey {
                group_key_slot: 1,
                select_index: 1,
            },
            GroupedSelectItem::Aggregate {
                plan_slot: 0,
                select_index: 2,
            },
        ],
        "each expression key must classify to its own slot: {:?}",
        result.select_items
    );

    let col_types: Vec<(String, String)> = vec![];
    let group_key_types = vec!["VARCHAR(2000000)".to_string(); 2];
    let aggregate_types = vec!["DECIMAL(18,0)".to_string()];
    let spec_template = ScanSpec {
        common: CommonScanSpec {
            aggregates: Some(result.plans.clone()),
            group_keys: Some(result.group_keys.clone()),
            ..common_spec()
        },
        files: vec![],
    };
    let shards = vec![vec![FileEntry::new("s3://wh/f0.parquet", 1)]];
    let sql = build_grouped_aggregate_scan_sql(
        &spec_template,
        &shards,
        &result.group_keys,
        &group_key_types,
        &result.plans,
        &aggregate_types,
        &result.select_items,
        None,
        0,
        &col_types,
        None,
        None,
    );
    assert!(
        sql.contains("% 4"),
        "built SQL must carry the MOD key rendered on its own: {sql}"
    );
    assert!(
        sql.to_lowercase().contains("upper("),
        "built SQL must carry the UPPER key rendered on its own: {sql}"
    );
    assert!(
        sql.contains(r#""GK_0""#) && sql.contains(r#""GK_1""#),
        "built SQL must emit both group-key slots: {sql}"
    );

    let bad_req = make_group_by_request(
        fill(r#"["$0", {"type": "fn_custom_unsupported", "name": "MYSTERY"}]"#, &[to_value(&mod_item("ID", 4)).unwrap()]),
        fill(r#"[
            "$0",
            {"type": "fn_custom_unsupported", "name": "MYSTERY"},
            "$1"
        ]"#, &[to_value(&mod_item("ID", 4)).unwrap(), to_value(&agg_item("COUNT", None, false)).unwrap()]),
    );
    assert!(
        detect_group_by_aggregates(&bad_req).is_none(),
        "one untranslatable tuple element must force full fallback to None"
    );
}

/// Keys-first classification: group keys at ordinals 0..m, aggregates after.
fn keys_first_select_items(group_keys: usize, aggregates: usize) -> Vec<GroupedSelectItem> {
    let mut items = Vec::with_capacity(group_keys + aggregates);
    for slot in 0..group_keys {
        items.push(GroupedSelectItem::GroupKey {
            group_key_slot: slot,
            select_index: slot,
        });
    }
    for slot in 0..aggregates {
        items.push(GroupedSelectItem::Aggregate {
            plan_slot: slot,
            select_index: group_keys + slot,
        });
    }
    items
}

fn build_grouped_agg_sql(
    group_keys: Vec<String>,
    agg_plans: Vec<AggregatePlan>,
    files: Vec<String>,
    g: usize,
) -> String {
    let col_types: Vec<(String, String)> = vec![
        ("AMOUNT".to_string(), "DOUBLE PRECISION".to_string()),
        ("SCORE".to_string(), "DOUBLE PRECISION".to_string()),
    ];
    let spec_template = ScanSpec {
        common: CommonScanSpec {
            aggregates: Some(agg_plans.clone()),
            group_keys: Some(group_keys.clone()),
            ..common_spec()
        },
        files: vec![],
    };
    let files_with_sizes: Vec<FileEntry> =
        files.into_iter().map(|p| FileEntry::new(&p, 1)).collect();
    let shards = partition_files(files_with_sizes, g);
    let select_items = keys_first_select_items(group_keys.len(), agg_plans.len());
    build_grouped_aggregate_scan_sql(
        &spec_template,
        &shards,
        &group_keys,
        &[],
        &agg_plans,
        &[],
        &select_items,
        None,
        0,
        &col_types,
        None,
        None,
    )
}

/// Grouped SQL fans out via GROUP BY shard_key, one common blob and one files literal per
/// shard.
#[test]
fn grouped_fan_out_common_once_files_per_shard() {
    let files: Vec<String> = (0..2).map(|i| format!("s3://w/f{i}.parquet")).collect();
    let g = shard_count(2, 1, files.len());
    let sql = build_grouped_agg_sql(
        vec!["\"REGION\"".into()],
        vec![AggregatePlan {
            kind: AggKind::Count,
            column: None,
            arg_expr: None,
        }],
        files,
        g,
    );
    assert!(
        !sql.contains("IPROC()"),
        "grouped SQL must NOT contain IPROC(): {sql}"
    );
    assert!(
        sql.contains("GROUP BY shard_key"),
        "grouped SQL inner must GROUP BY shard_key: {sql}"
    );
    assert!(
        sql.contains("AS shards(shard_key, files)"),
        "grouped fan-out must alias the VALUES table as shards(shard_key, files): {sql}"
    );

    assert_eq!(
        sql.matches("http://minio:9000").count(),
        1,
        "grouped common blob (endpoint) must appear exactly once: {sql}"
    );
    assert_eq!(
        sql.matches("memory_pool_fraction").count(),
        1,
        "grouped common blob (tuning payload) must appear exactly once: {sql}"
    );

    for file in ["f0.parquet", "f1.parquet"] {
        assert_eq!(
            sql.matches(file).count(),
            1,
            "grouped shard file {file} must appear exactly once: {sql}"
        );
    }
}

/// The shard_key GROUP BY sits inside the distributor; the outer wrapper re-groups on GK_*.
#[test]
fn grouped_group_by_shard_key_inside_distributor() {
    let files: Vec<String> = (0..2).map(|i| format!("s3://w/f{i}.parquet")).collect();
    let g = shard_count(2, 1, files.len());
    let sql = build_grouped_agg_sql(
        vec!["\"REGION\"".into()],
        vec![AggregatePlan {
            kind: AggKind::Count,
            column: None,
            arg_expr: None,
        }],
        files,
        g,
    );

    assert!(
        sql.contains("AS shards(shard_key, files) GROUP BY shard_key"),
        "the shard_key fan-out must live in the distributor subquery: {sql}"
    );
    assert!(
        sql.trim_end().ends_with(r#"GROUP BY "GK_0""#),
        "the outer wrapper must re-group on the user group key GK_0: {sql}"
    );
    let shard_gb = sql
        .find("GROUP BY shard_key")
        .expect("shard_key GROUP BY present");
    let gk_gb = sql
        .find(r#"GROUP BY "GK_0""#)
        .expect("GK_0 GROUP BY present");
    assert!(
        shard_gb < gk_gb,
        "shard_key GROUP BY (distributor) must precede the outer GK_0 GROUP BY: {sql}"
    );
    assert!(
        !sql.contains("SELECT * FROM ("),
        "grouped wrapper must not use a SELECT * materialization boundary: {sql}"
    );
}

/// Single-shard grouped SQL re-groups over a from-less scan, with no distributor.
#[test]
fn grouped_single_shard_short_circuits_distributor() {
    let sql = build_grouped_agg_sql(
        vec!["\"REGION\"".into()],
        vec![AggregatePlan {
            kind: AggKind::Count,
            column: None,
            arg_expr: None,
        }],
        vec!["s3://w/only.parquet".into()],
        1,
    );

    assert!(
        !sql.contains("VALUES") && !sql.contains("shard_key"),
        "single-shard grouped must short-circuit the distributor: {sql}"
    );
    assert!(
        sql.contains(&format!("FROM (SELECT {SCAN_UDF_NAME}(")),
        "the outer re-group reads directly from the from-less scalar scan: {sql}"
    );
    assert!(
        sql.trim_end().ends_with(r#"GROUP BY "GK_0""#),
        "the outer wrapper still re-groups on the user group key GK_0: {sql}"
    );
}

/// A grouped LIMIT applies only on the outer wrapper, never in the shard blob.
#[test]
fn grouped_common_blob_has_no_limit() {
    let files = vec![FileEntry::new("s3://w/f0.parquet", 200)];
    let g = shard_count(1, 1, files.len());
    let col_types = vec![("AMOUNT".to_string(), "DOUBLE PRECISION".to_string())];
    let spec_template = ScanSpec {
        common: CommonScanSpec {
            limit: Some(100),
            aggregates: Some(vec![AggregatePlan {
                kind: AggKind::Count,
                column: None,
                arg_expr: None,
            }]),
            group_keys: Some(vec!["\"REGION\"".into()]),
            ..common_spec()
        },
        files: vec![],
    };
    let shards = partition_files(files, g);
    let sql = build_grouped_aggregate_scan_sql(
        &spec_template,
        &shards,
        &["\"REGION\"".to_string()],
        &[],
        &[AggregatePlan {
            kind: AggKind::Count,
            column: None,
            arg_expr: None,
        }],
        &[],
        &keys_first_select_items(1, 1),
        Some(100),
        0,
        &col_types,
        None,
        None,
    );
    let common = common_arg_literal(&sql);
    assert!(
        !common.contains("\"limit\""),
        "grouped common blob must NOT carry limit: {common}"
    );
    assert!(
        sql.contains("LIMIT 100"),
        "outer wrapper should still apply the final LIMIT: {sql}"
    );
}

/// A grouped offset renders only on the outer wrapper, never in the shared blob.
#[test]
fn grouped_merge_offset_never_reaches_per_shard_spec() {
    let files = vec![FileEntry::new("s3://w/f0.parquet", 200)];
    let g = shard_count(1, 1, files.len());
    let col_types = vec![("AMOUNT".to_string(), "DOUBLE PRECISION".to_string())];
    let spec_template = ScanSpec {
        common: CommonScanSpec {
            limit: Some(100),
            aggregates: Some(vec![AggregatePlan {
                kind: AggKind::Count,
                column: None,
                arg_expr: None,
            }]),
            group_keys: Some(vec!["\"REGION\"".into()]),
            ..common_spec()
        },
        files: vec![],
    };
    let shards = partition_files(files, g);
    let sql = build_grouped_aggregate_scan_sql(
        &spec_template,
        &shards,
        &["\"REGION\"".to_string()],
        &[],
        &[AggregatePlan {
            kind: AggKind::Count,
            column: None,
            arg_expr: None,
        }],
        &[],
        &keys_first_select_items(1, 1),
        Some(100),
        3,
        &col_types,
        None,
        Some("1 ASC NULLS LAST"),
    );
    let common = common_arg_literal(&sql);
    assert!(
        !common.contains("\"limit\"") && !common.contains("\"offset\""),
        "grouped common blob must NOT carry limit or offset: {common}"
    );
    assert!(
        sql.contains("ORDER BY 1 ASC NULLS LAST LIMIT 100 OFFSET 3"),
        "outer wrapper applies the final ORDER BY ... LIMIT ... OFFSET: {sql}"
    );
}

/// A zero offset renders exactly ` LIMIT {n}` with no OFFSET token.
#[test]
fn grouped_merge_zero_offset_is_byte_identical_to_bare_limit() {
    let files = vec![FileEntry::new("s3://w/f0.parquet", 200)];
    let g = shard_count(1, 1, files.len());
    let col_types = vec![("AMOUNT".to_string(), "DOUBLE PRECISION".to_string())];
    let spec_template = ScanSpec {
        common: CommonScanSpec {
            limit: Some(100),
            aggregates: Some(vec![AggregatePlan {
                kind: AggKind::Count,
                column: None,
                arg_expr: None,
            }]),
            group_keys: Some(vec!["\"REGION\"".into()]),
            ..common_spec()
        },
        files: vec![],
    };
    let shards = partition_files(files, g);
    let sql = build_grouped_aggregate_scan_sql(
        &spec_template,
        &shards,
        &["\"REGION\"".to_string()],
        &[],
        &[AggregatePlan {
            kind: AggKind::Count,
            column: None,
            arg_expr: None,
        }],
        &[],
        &keys_first_select_items(1, 1),
        Some(100),
        0,
        &col_types,
        None,
        None,
    );
    assert!(
        sql.ends_with(" LIMIT 100"),
        "zero offset must render the bare pre-offset LIMIT clause: {sql}"
    );
    assert!(
        !sql.contains("OFFSET"),
        "zero offset must never render an OFFSET token: {sql}"
    );
}

/// The grouped merge renders `GROUP BY … ORDER BY … LIMIT n OFFSET m` in that order.
#[test]
fn grouped_merge_renders_limit_offset_in_clause_order() {
    let mut req = make_group_by_request_with_types(
        parse(r#"[{"type": "column", "name": "ID"}]"#),
        fill(r#"[
            {"type": "column", "name": "ID"},
            "$0"
        ]"#, &[to_value(&agg_item("COUNT", None, false)).unwrap()]),
        fill(r#"["$0", "$1"]"#, &[to_value(&decimal_type(20, 0)).unwrap(), to_value(&decimal_type(20, 0)).unwrap()]),
    );
    req["orderBy"] = parse(r#"[{
        "type": "order_by_element",
        "expression": {"type": "column", "name": "ID"},
        "isAscending": true,
        "nullsLast": true
    }]"#);

    let result = detect_group_by_aggregates(&req).expect("grouped aggregate");
    let group_key_types = group_key_exasol_types(&req, &result.group_keys, &result.select_items);
    let sql = build_grouped_aggregate_scan_sql(
        &grouped_spec(&result),
        &vec![vec![FileEntry::new("s3://wh/f0.parquet", 1)]],
        &result.group_keys,
        &group_key_types,
        &result.plans,
        &[],
        &result.select_items,
        Some(2),
        1,
        &[("ID".to_string(), "DECIMAL(20,0)".to_string())],
        None,
        Some("1 ASC NULLS LAST"),
    );
    assert!(
        sql.ends_with(" ORDER BY 1 ASC NULLS LAST LIMIT 2 OFFSET 1"),
        "merge SQL must render GROUP BY … ORDER BY … LIMIT n OFFSET m in that order: {sql}"
    );
    let group_by_pos = sql.find("GROUP BY").expect("must contain GROUP BY");
    let order_by_pos = sql.find(" ORDER BY").expect("must contain ORDER BY");
    let limit_pos = sql.find(" LIMIT").expect("must contain LIMIT");
    let offset_pos = sql.find(" OFFSET").expect("must contain OFFSET");
    assert!(
        group_by_pos < order_by_pos && order_by_pos < limit_pos && limit_pos < offset_pos,
        "clauses must appear in GROUP BY, ORDER BY, LIMIT, OFFSET order: {sql}"
    );
}

/// The grouped wrapper re-groups partial results per user group key.
#[test]
fn grouped_aggregate_wrapper_sql_groups_by_user_key_cols() {
    let files: Vec<String> = (0..2).map(|i| format!("s3://w/f{i}.parquet")).collect();
    let g = shard_count(2, 1, files.len());
    let sql = build_grouped_agg_sql(
        vec!["\"REGION\"".into(), "\"YEAR\"".into()],
        vec![
            AggregatePlan {
                kind: AggKind::Count,
                column: None,
                arg_expr: None,
            },
            AggregatePlan {
                kind: AggKind::Sum,
                column: Some("AMOUNT".into()),
                arg_expr: None,
            },
        ],
        files,
        g,
    );
    assert!(
        sql.contains("GK_0"),
        "wrapper SQL must reference GK_0: {sql}"
    );
    assert!(
        sql.contains("GK_1"),
        "wrapper SQL must reference GK_1: {sql}"
    );
    assert!(
        sql.contains("SUM("),
        "wrapper must contain SUM for merge: {sql}"
    );
    assert!(
        sql.contains("PARTIAL_count_0"),
        "wrapper must reference PARTIAL_count_0: {sql}"
    );
    assert!(
        sql.contains("PARTIAL_sum_1"),
        "wrapper must reference PARTIAL_sum_1: {sql}"
    );
    let outer_group_by = sql
        .rfind("GROUP BY")
        .expect("must have GROUP BY in outer wrapper");
    let outer_group_by_clause = &sql[outer_group_by..];
    assert!(
        outer_group_by_clause.contains("GK_0"),
        "outer GROUP BY must include GK_0: {outer_group_by_clause}"
    );
    assert!(
        outer_group_by_clause.contains("GK_1"),
        "outer GROUP BY must include GK_1: {outer_group_by_clause}"
    );
}

/// A paren-depth-aware split suffices: the merge and CAST shapes used here carry no top-level
/// `, ` inside quotes.
fn outer_select_items(sql: &str) -> Vec<String> {
    let from_pos = sql
        .find(" FROM (")
        .expect("must have outer FROM (: sql={sql}");
    let select_str = &sql["SELECT ".len()..from_pos];
    let mut items = Vec::new();
    let mut depth = 0i32;
    let mut current = String::new();
    for ch in select_str.chars() {
        match ch {
            '(' => {
                depth += 1;
                current.push(ch);
            }
            ')' => {
                depth -= 1;
                current.push(ch);
            }
            ',' if depth == 0 => {
                items.push(current.trim().to_string());
                current = String::new();
            }
            _ => current.push(ch),
        }
    }
    if !current.trim().is_empty() {
        items.push(current.trim().to_string());
    }
    items
}

fn build_grouped_agg_sql_with_select_items(
    group_keys: Vec<String>,
    group_key_types: Vec<String>,
    agg_plans: Vec<AggregatePlan>,
    aggregate_types: Vec<String>,
    select_items: Vec<GroupedSelectItem>,
    having: Option<&str>,
) -> String {
    let col_types: Vec<(String, String)> = vec![
        ("AMOUNT".to_string(), "DOUBLE PRECISION".to_string()),
        ("SCORE".to_string(), "DOUBLE PRECISION".to_string()),
    ];
    let spec_template = ScanSpec {
        common: CommonScanSpec {
            aggregates: Some(agg_plans.clone()),
            group_keys: Some(group_keys.clone()),
            ..common_spec()
        },
        files: vec![],
    };
    let shards = vec![vec![FileEntry::new("s3://wh/f0.parquet", 1)]];
    build_grouped_aggregate_scan_sql(
        &spec_template,
        &shards,
        &group_keys,
        &group_key_types,
        &agg_plans,
        &aggregate_types,
        &select_items,
        None,
        0,
        &col_types,
        having,
        None,
    )
}

/// The outer SELECT follows select-list order, merged SUM before the cast key.
#[test]
fn grouped_wrapper_agg_before_key_ordering() {
    let sql = build_grouped_agg_sql_with_select_items(
        vec![r#"("ID" % 4)"#.to_string()],
        vec!["DECIMAL(9,0)".to_string()],
        vec![AggregatePlan {
            kind: AggKind::Sum,
            column: Some("SCORE".into()),
            arg_expr: None,
        }],
        vec!["DOUBLE PRECISION".to_string()],
        vec![
            GroupedSelectItem::Aggregate {
                plan_slot: 0,
                select_index: 0,
            },
            GroupedSelectItem::GroupKey {
                group_key_slot: 0,
                select_index: 1,
            },
        ],
        None,
    );
    let items = outer_select_items(&sql);
    assert_eq!(
        items.len(),
        2,
        "outer SELECT must have exactly 2 items: {items:?}"
    );
    assert!(
        items[0].contains("PARTIAL_sum_0") && items[0].starts_with("CAST(SUM("),
        "position 0 must be the merged aggregate: {items:?}"
    );
    assert!(
        items[1].starts_with("CAST(\"GK_0\" AS DECIMAL(9,0))"),
        "position 1 must be the CAST'd group key with its declared type: {items:?}"
    );
}

/// Interleaved multi-key outer SELECT order is [key0, aggregate, key1].
#[test]
fn grouped_wrapper_interleaved_multi_key_ordering() {
    let sql = build_grouped_agg_sql_with_select_items(
        vec![r#""REGION""#.to_string(), r#""YEAR""#.to_string()],
        vec!["VARCHAR(100)".to_string(), "DECIMAL(4,0)".to_string()],
        vec![AggregatePlan {
            kind: AggKind::Sum,
            column: Some("SCORE".into()),
            arg_expr: None,
        }],
        vec!["DOUBLE PRECISION".to_string()],
        vec![
            GroupedSelectItem::GroupKey {
                group_key_slot: 0,
                select_index: 0,
            },
            GroupedSelectItem::Aggregate {
                plan_slot: 0,
                select_index: 1,
            },
            GroupedSelectItem::GroupKey {
                group_key_slot: 1,
                select_index: 2,
            },
        ],
        None,
    );
    let items = outer_select_items(&sql);
    assert_eq!(
        items.len(),
        3,
        "outer SELECT must have exactly 3 items: {items:?}"
    );
    assert!(
        items[0].starts_with("CAST(\"GK_0\" AS VARCHAR(100))"),
        "position 0 must be key0's CAST: {items:?}"
    );
    assert!(
        items[1].contains("PARTIAL_sum_0") && items[1].starts_with("CAST(SUM("),
        "position 1 must be the merged aggregate: {items:?}"
    );
    assert!(
        items[2].starts_with("CAST(\"GK_1\" AS DECIMAL(4,0))"),
        "position 2 must be key1's CAST: {items:?}"
    );
}

/// An expression key after an aggregate keeps its declared DECIMAL type, not VARCHAR.
#[test]
fn grouped_wrapper_expr_key_after_agg_ordering() {
    let sql = build_grouped_agg_sql_with_select_items(
        vec![r#"("ID" % 4)"#.to_string()],
        vec!["DECIMAL(9,0)".to_string()],
        vec![AggregatePlan {
            kind: AggKind::Count,
            column: None,
            arg_expr: None,
        }],
        vec!["DECIMAL(18,0)".to_string()],
        vec![
            GroupedSelectItem::Aggregate {
                plan_slot: 0,
                select_index: 0,
            },
            GroupedSelectItem::GroupKey {
                group_key_slot: 0,
                select_index: 1,
            },
        ],
        None,
    );
    let items = outer_select_items(&sql);
    assert_eq!(items.len(), 2, "outer SELECT must have 2 items: {items:?}");
    assert!(
        items[0].contains("PARTIAL_count_0") && items[0].starts_with("CAST(SUM("),
        "position 0 must be the merged COUNT: {items:?}"
    );
    assert!(
        items[1].starts_with("CAST(\"GK_0\" AS DECIMAL(9,0))"),
        "position 1 must be the CAST'd group key, not a VARCHAR fallback: {items:?}"
    );
}

/// Aggregate-first GROUP BY with HAVING keeps select-list order and appends HAVING after GROUP
/// BY.
#[test]
fn grouped_wrapper_agg_first_with_having_ordering() {
    let sql = build_grouped_agg_sql_with_select_items(
        vec![r#"("ID" % 4)"#.to_string()],
        vec!["DECIMAL(9,0)".to_string()],
        vec![AggregatePlan {
            kind: AggKind::Sum,
            column: Some("SCORE".into()),
            arg_expr: None,
        }],
        vec!["DOUBLE PRECISION".to_string()],
        vec![
            GroupedSelectItem::Aggregate {
                plan_slot: 0,
                select_index: 0,
            },
            GroupedSelectItem::GroupKey {
                group_key_slot: 0,
                select_index: 1,
            },
        ],
        Some(r#"(SUM("PARTIAL_sum_0") > 100)"#),
    );
    let having_pos = sql.find("HAVING").expect("must contain HAVING: {sql}");
    let group_by_pos = sql.find("GROUP BY").expect("must contain GROUP BY: {sql}");
    assert!(
        having_pos > group_by_pos,
        "HAVING must appear after GROUP BY: {sql}"
    );
    let select_only = &sql[..group_by_pos];
    let items = outer_select_items(select_only);
    assert_eq!(items.len(), 2, "outer SELECT must have 2 items: {items:?}");
    assert!(
        items[0].contains("PARTIAL_sum_0") && items[0].starts_with("CAST(SUM("),
        "position 0 must be the merged aggregate even with HAVING present: {items:?}"
    );
    assert!(
        items[1].starts_with("CAST(\"GK_0\" AS DECIMAL(9,0))"),
        "position 1 must be the CAST'd group key even with HAVING present: {items:?}"
    );
}

fn case_flag_eq(col: &str, val: &str) -> Value {
    fill(r#"{
        "type": "function_scalar_case",
        "name": "CASE",
        "arguments": [
            {"type": "predicate_equal",
             "left": {"type": "column", "name": "$0"},
             "right": {"type": "literal_string", "value": "$1"}}
        ],
        "results": [
            {"type": "literal_exactnumeric", "value": 1},
            {"type": "literal_exactnumeric", "value": 0}
        ]
    }"#, &[to_value(&col).unwrap(), to_value(&val).unwrap()])
}

fn round_pct_over_aggregates() -> Value {
    fill(r#"{
        "type": "function_scalar",
        "name": "ROUND",
        "arguments": [
            {"type": "function_scalar", "name": "FLOAT_DIV", "arguments": [
                {"type": "function_scalar", "name": "MULT", "arguments": [
                    {"type": "literal_double", "value": 100.0},
                    "$0"]},
                "$1"]},
            {"type": "literal_exactnumeric", "value": 2}
        ]
    }"#, &[to_value(&agg_item_expr("SUM", case_flag_eq("L_RETURNFLAG", "R"), false)).unwrap(), to_value(&agg_item("COUNT", None, false)).unwrap()])
}

fn soa_col_types() -> Vec<(String, String)> {
    vec![
        ("L_RETURNFLAG".to_string(), "VARCHAR(1)".to_string()),
        ("L_QUANTITY".to_string(), "DECIMAL(36,2)".to_string()),
        (
            "L_EXTENDEDPRICE".to_string(),
            "DOUBLE PRECISION".to_string(),
        ),
    ]
}

fn build_grouped_from_detection(req: &Value) -> String {
    let d = detect_group_by_aggregates(req)
        .expect("must detect the grouped scalar-over-aggregate pushdown");
    let group_key_types = group_key_exasol_types(req, &d.group_keys, &d.select_items);
    let spec_template = ScanSpec {
        common: CommonScanSpec {
            aggregates: Some(d.plans.clone()),
            group_keys: Some(d.group_keys.clone()),
            ..common_spec()
        },
        files: vec![],
    };
    build_grouped_aggregate_scan_sql(
        &spec_template,
        &vec![vec![FileEntry::new("s3://wh/f0.parquet", 1)]],
        &d.group_keys,
        &group_key_types,
        &d.plans,
        &d.plan_types,
        &d.select_items,
        None,
        0,
        &soa_col_types(),
        None,
        None,
    )
}

/// A scalar-over-aggregate folds its inner aggregates into the plan list, deduping COUNT(*).
#[test]
fn grouped_scalar_over_aggregate_detects_and_dedups_inner_aggregates() {
    let req = make_group_by_request_with_types(
        parse(r#"[{"type": "column", "name": "L_RETURNFLAG"}]"#),
        fill(r#"[
            {"type": "column", "name": "L_RETURNFLAG"},
            "$0",
            "$1",
            "$2",
            "$3"
        ]"#, &[to_value(&agg_item("SUM", Some("L_QUANTITY"), false)).unwrap(), to_value(&agg_item("AVG", Some("L_EXTENDEDPRICE"), false)).unwrap(), to_value(&round_pct_over_aggregates()).unwrap(), to_value(&agg_item("COUNT", None, false)).unwrap()]),
        fill(r#"[
            "$0",
            "$1",
            "$2",
            "$3",
            "$4"
        ]"#, &[to_value(&parse(r#"{"type": "varchar", "size": 1}"#)).unwrap(), to_value(&decimal_type(36, 2)).unwrap(), to_value(&parse(r#"{"type": "double"}"#)).unwrap(), to_value(&decimal_type(5, 2)).unwrap(), to_value(&decimal_type(18, 0)).unwrap()]),
    );
    let d = detect_group_by_aggregates(&req).expect("must detect grouped scalar-over-aggregate");

    assert!(
        matches!(
            &d.select_items[3],
            GroupedSelectItem::ScalarOverAggregate {
                select_index: 3,
                declared_type,
                ..
            } if declared_type == "DECIMAL(5,2)"
        ),
        "item 3 must be a ScalarOverAggregate with its declared type: {:?}",
        d.select_items[3]
    );

    assert_eq!(
        d.plans.len(),
        4,
        "inner SUM(CASE) + COUNT(*) fold in; the two COUNT(*) dedup to one: {:?}",
        d.plans
    );
    let count_plans = d
        .plans
        .iter()
        .filter(|p| matches!(p.kind, AggKind::Count | AggKind::CountCol))
        .count();
    assert_eq!(
        count_plans, 1,
        "the shared COUNT(*) must be a single plan: {:?}",
        d.plans
    );

    let count_slot = d
        .plans
        .iter()
        .position(|p| matches!(p.kind, AggKind::Count | AggKind::CountCol))
        .unwrap();
    assert!(
        matches!(
            d.select_items[4],
            GroupedSelectItem::Aggregate { plan_slot, select_index: 4 } if plan_slot == count_slot
        ),
        "the bare COUNT(*) must reuse the shared count slot {count_slot}: {:?}",
        d.select_items[4]
    );
}

/// The wrapper renders a scalar-over-aggregate over merged partials with no source column.
#[test]
fn grouped_scalar_over_aggregate_renders_merged_partials() {
    let req = make_group_by_request_with_types(
        parse(r#"[{"type": "column", "name": "L_RETURNFLAG"}]"#),
        fill(r#"[
            {"type": "column", "name": "L_RETURNFLAG"},
            "$0",
            "$1",
            "$2"
        ]"#, &[to_value(&agg_item("SUM", Some("L_QUANTITY"), false)).unwrap(), to_value(&agg_item("AVG", Some("L_EXTENDEDPRICE"), false)).unwrap(), to_value(&round_pct_over_aggregates()).unwrap()]),
        fill(r#"[
            "$0",
            "$1",
            "$2",
            "$3"
        ]"#, &[to_value(&parse(r#"{"type": "varchar", "size": 1}"#)).unwrap(), to_value(&decimal_type(36, 2)).unwrap(), to_value(&parse(r#"{"type": "double"}"#)).unwrap(), to_value(&decimal_type(5, 2)).unwrap()]),
    );
    let sql = build_grouped_from_detection(&req);
    let items = outer_select_items(&sql);
    assert_eq!(
        items.len(),
        4,
        "outer SELECT must have one item per selectList item: {items:?}"
    );

    let soa = &items[3];
    assert!(
        soa.contains("PARTIAL_"),
        "wrapper item must be over merged partials: {soa}"
    );
    assert!(
        soa.contains("SUM(\"PARTIAL_") && soa.contains("ROUND("),
        "wrapper must render ROUND over merged SUM(PARTIAL_*) partials: {soa}"
    );
    assert!(
        soa.starts_with("CAST(") && soa.contains("DECIMAL(5,2)"),
        "wrapper item must be CAST to its declared type at its own ordinal: {soa}"
    );
    assert!(
        !soa.contains("CASE"),
        "the CASE must be folded into a PARTIAL_* column: {soa}"
    );
    assert!(
        !soa.contains("L_RETURNFLAG") && !soa.contains("L_QUANTITY"),
        "wrapper item must not reference any source column: {soa}"
    );
}

/// A scalar-over-aggregate before the key keeps select-list order and its declared cast.
#[test]
fn grouped_scalar_over_aggregate_preserves_selectlist_order() {
    let req = make_group_by_request_with_types(
        parse(r#"[{"type": "column", "name": "L_RETURNFLAG"}]"#),
        fill(r#"[
            "$0",
            {"type": "column", "name": "L_RETURNFLAG"},
            "$1"
        ]"#, &[to_value(&round_pct_over_aggregates()).unwrap(), to_value(&agg_item("SUM", Some("L_QUANTITY"), false)).unwrap()]),
        fill(r#"[
            "$0",
            "$1",
            "$2"
        ]"#, &[to_value(&decimal_type(5, 2)).unwrap(), to_value(&parse(r#"{"type": "varchar", "size": 1}"#)).unwrap(), to_value(&decimal_type(36, 2)).unwrap()]),
    );
    let sql = build_grouped_from_detection(&req);
    let items = outer_select_items(&sql);
    assert_eq!(
        items.len(),
        3,
        "outer SELECT must have 3 items in selectList order: {items:?}"
    );
    assert!(
        items[0].starts_with("CAST(")
            && items[0].contains("ROUND(")
            && items[0].contains("DECIMAL(5,2)"),
        "position 0 must be the scalar-over-aggregate, cast to its own type: {items:?}"
    );
    assert!(
        items[1].starts_with("CAST(\"GK_0\" AS VARCHAR(1))"),
        "position 1 must be the CAST'd group key at its own ordinal: {items:?}"
    );
    assert!(
        items[2].starts_with("CAST(SUM(\"PARTIAL_") && items[2].contains("DECIMAL(36,2)"),
        "position 2 must be the merged plain aggregate, cast to its own type: {items:?}"
    );
}

/// A scalar over COUNT(DISTINCT) routes to the qualified wrapper, not a bare row scan.
#[test]
fn grouped_undecomposable_falls_back_to_qualified_wrapper() {
    let pushdown_req = fill(r#"{
        "aggregationType": "group_by",
        "groupBy": [{"type": "column", "name": "L_RETURNFLAG", "tableName": "LINEITEM"}],
        "selectList": [
            {"type": "column", "name": "L_RETURNFLAG", "tableName": "LINEITEM"},
            {"type": "function_scalar", "name": "ROUND", "arguments": [
                {"type": "function_scalar", "name": "FLOAT_DIV", "arguments": [
                    "$0",
                    "$1"]},
                {"type": "literal_exactnumeric", "value": 2}
            ]}
        ],
        "selectListDataTypes": [
            "$2",
            "$3"
        ]
    }"#, &[to_value(&agg_item_expr("SUM", parse(r#"{"type": "column", "name": "X", "tableName": "LINEITEM"}"#), false)).unwrap(), to_value(&agg_item_expr("COUNT", parse(r#"{"type": "column", "name": "Y", "tableName": "LINEITEM"}"#), true)).unwrap(), to_value(&parse(r#"{"type": "varchar", "size": 1}"#)).unwrap(), to_value(&decimal_type(5, 2)).unwrap()]);

    assert!(
        detect_group_by_aggregates(&pushdown_req).is_none(),
        "a nested COUNT(DISTINCT) must decline the grouped partial/merge path"
    );

    let request = parse(r#"{
        "involvedTables": [{"name": "LINEITEM", "columns": [
            {"name": "L_RETURNFLAG", "dataType": {"type": "varchar", "size": 1}},
            {"name": "X", "dataType": {"type": "double"}},
            {"name": "Y", "dataType": {"type": "double"}}
        ]}]
    }"#);
    let all_cols = lakehouse_engine::joins::planning::involved_table_columns(
        &json(&request),
        "LINEITEM",
        &exasol_type,
    );
    let (proj_cols, proj_types) = lakehouse_engine::joins::fallback::referenced_column_projection(
        &json(&pushdown_req),
        &all_cols,
    );
    let fan_out_spec = ScanSpec {
        common: CommonScanSpec {
            projection: proj_cols,
            ..common_spec()
        },
        files: vec![],
    };
    let fan_out_row = FanOutProjection::new(&fan_out_spec, &proj_types).expect("aligned fan-out");
    let sql = lakehouse_engine::joins::fallback::build_qualified_single_table_fallback_sql(
        &json(&request),
        &json(&pushdown_req),
        &fan_out_row,
        &vec![vec![FileEntry::new("s3://wh/f0.parquet", 1)]],
        None,
        &QueryDialect {
            expression: |node: &Json| render(&value(node), QUERY),
            filter: |node: &Json| render(&value(node), QUERY),
        },
        &|spec: &ScanSpec,
          shards: &Vec<Vec<FileEntry>>,
          types: &Vec<String>,
          _limit: Option<u64>| fan_out(spec, shards, &types.join(", ")),
    )
    .expect("qualified fallback must build");

    assert!(
        !sql.starts_with("SELECT * FROM"),
        "fallback must NOT be a bare row scan: {sql}"
    );
    assert!(
        sql.contains(" GROUP BY "),
        "fallback must render the GROUP BY: {sql}"
    );
    assert!(
        sql.contains("FROM (") && sql.contains("AS \"LHS_T0\""),
        "fallback must wrap one aliased raw fan-out subquery: {sql}"
    );
    assert!(
        sql.contains("COUNT(DISTINCT"),
        "the undecomposable aggregate is rendered verbatim for Exasol to compute: {sql}"
    );
    // The first ` FROM (` is the outer wrapper's; the fan-out subquery's comes later.
    let items = outer_select_items(&sql);
    assert_eq!(
        items.len(),
        2,
        "the wrapper must return exactly the selectList columns, not a full row: {items:?}"
    );
}

/// A HAVING aggregate renders against the merged partial, not the source column.
#[test]
fn render_having_over_merge_rewrites_aggregate_to_partial() {
    let having = fill(r#"{
        "type": "predicate_greater",
        "left": "$0",
        "right": {"type": "literal_exactnumeric", "value": 250}
    }"#, &[to_value(&agg_item("SUM", Some("SCORE"), false)).unwrap()]);
    let plans = vec![AggregatePlan {
        kind: AggKind::Sum,
        column: Some("SCORE".into()),
        arg_expr: None,
    }];
    let rendered = render_having_over_merge(&having, &plans)
        .expect("HAVING over a known aggregate must render");
    assert_eq!(
        rendered, r#"(SUM("PARTIAL_sum_0") > 250)"#,
        "HAVING must reference the merged partial, not the source column: {rendered}"
    );
    assert!(
        !rendered.contains(r#""SCORE""#) && !rendered.contains("SUM(\"SCORE\")"),
        "HAVING must NOT reference the source column SCORE: {rendered}"
    );
}

#[test]
fn grouped_wrapper_having_over_aggregate_uses_merge_expression() {
    let req = make_group_by_request_with_types(
        fill(r#"["$0"]"#, &[to_value(&mod_item("ID", 4)).unwrap()]),
        fill(r#"["$0", "$1"]"#, &[to_value(&agg_item("SUM", Some("SCORE"), false)).unwrap(), to_value(&mod_item("ID", 4)).unwrap()]),
        fill(r#"[
            {"type": "double"},
            "$0"
        ]"#, &[to_value(&decimal_type(9, 0)).unwrap()]),
    );
    let detection = detect_group_by_aggregates(&req).expect("must detect grouped aggregate");
    let group_key_types =
        group_key_exasol_types(&req, &detection.group_keys, &detection.select_items);
    let aggregate_types = detection.plan_types.clone();

    let having_node = fill(r#"{
        "type": "predicate_greater",
        "left": "$0",
        "right": {"type": "literal_exactnumeric", "value": 250}
    }"#, &[to_value(&agg_item("SUM", Some("SCORE"), false)).unwrap()]);
    let having = render_having_over_merge(&having_node, &detection.plans)
        .expect("HAVING must render over the merge decomposition");

    let col_types: Vec<(String, String)> =
        vec![("SCORE".to_string(), "DOUBLE PRECISION".to_string())];
    let spec_template = ScanSpec {
        common: CommonScanSpec {
            aggregates: Some(detection.plans.clone()),
            group_keys: Some(detection.group_keys.clone()),
            ..common_spec()
        },
        files: vec![],
    };
    let shards = vec![vec![FileEntry::new("s3://wh/f0.parquet", 1)]];
    let sql = build_grouped_aggregate_scan_sql(
        &spec_template,
        &shards,
        &detection.group_keys,
        &group_key_types,
        &detection.plans,
        &aggregate_types,
        &detection.select_items,
        None,
        0,
        &col_types,
        Some(&having),
        None,
    );
    let having_pos = sql.find("HAVING").expect("must contain HAVING");
    let having_clause = &sql[having_pos..];
    assert!(
        having_clause.contains(r#"SUM("PARTIAL_sum_0") > 250"#),
        "HAVING clause must use the merge expression: {having_clause}"
    );
    assert!(
        !having_clause.contains(r#""SCORE""#) && !having_clause.contains("SUM(\"SCORE\")"),
        "HAVING clause must NOT reference the source SCORE column: {having_clause}"
    );
}

/// A HAVING on an unplanned aggregate returns None so the request routes to a wrapper.
#[test]
fn render_having_over_merge_declines_unknown_aggregate() {
    let having = fill(r#"{
        "type": "predicate_greater",
        "left": "$0",
        "right": {"type": "literal_exactnumeric", "value": 10}
    }"#, &[to_value(&agg_item("COUNT", None, false)).unwrap()]);
    let plans = vec![AggregatePlan {
        kind: AggKind::Sum,
        column: Some("SCORE".into()),
        arg_expr: None,
    }];
    assert!(
        render_having_over_merge(&having, &plans).is_none(),
        "HAVING over an aggregate absent from the plans must not render"
    );
}

/// Detection output feeds the SQL builder and the wrapper follows select-list order.
#[test]
fn grouped_wrapper_outer_select_follows_select_list_order() {
    let req = make_group_by_request_with_types(
        fill(r#"["$0"]"#, &[to_value(&mod_item("ID", 4)).unwrap()]),
        fill(r#"["$0", "$1"]"#, &[to_value(&agg_item("SUM", Some("SCORE"), false)).unwrap(), to_value(&mod_item("ID", 4)).unwrap()]),
        fill(r#"[
            {"type": "double"},
            "$0"
        ]"#, &[to_value(&decimal_type(9, 0)).unwrap()]),
    );
    let detection = detect_group_by_aggregates(&req).expect("must detect grouped aggregate");
    let group_key_types =
        group_key_exasol_types(&req, &detection.group_keys, &detection.select_items);
    let aggregate_types = detection.plan_types.clone();

    let col_types: Vec<(String, String)> =
        vec![("SCORE".to_string(), "DOUBLE PRECISION".to_string())];
    let spec_template = ScanSpec {
        common: CommonScanSpec {
            aggregates: Some(detection.plans.clone()),
            group_keys: Some(detection.group_keys.clone()),
            ..common_spec()
        },
        files: vec![],
    };
    let shards = vec![vec![FileEntry::new("s3://wh/f0.parquet", 1)]];
    let sql = build_grouped_aggregate_scan_sql(
        &spec_template,
        &shards,
        &detection.group_keys,
        &group_key_types,
        &detection.plans,
        &aggregate_types,
        &detection.select_items,
        None,
        0,
        &col_types,
        None,
        None,
    );

    let items = outer_select_items(&sql);
    assert_eq!(items.len(), 2, "outer SELECT must have 2 items: {items:?}");
    assert!(
        items[0].contains("PARTIAL_sum_0") && items[0].starts_with("CAST(SUM("),
        "position 0 must be the merged SUM (selectList order): {items:?}"
    );
    assert!(
        items[1].starts_with("CAST(\"GK_0\" AS DECIMAL(9,0))"),
        "position 1 must be the CAST'd group key with its declared type: {items:?}"
    );
}

/// Multi-key HAVING and LIMIT render only in the outer wrapper, never per shard.
#[test]
fn grouped_wrapper_multi_key_having_and_limit_outer_only() {
    let req = make_group_by_request_with_types(
        fill(r#"[
            {"type": "column", "name": "REGION"},
            "$0"
        ]"#, &[to_value(&mod_item("ID", 4)).unwrap()]),
        fill(r#"[
            {"type": "column", "name": "REGION"},
            "$0",
            "$1"
        ]"#, &[to_value(&agg_item("SUM", Some("SCORE"), false)).unwrap(), to_value(&mod_item("ID", 4)).unwrap()]),
        fill(r#"[
            {"type": "varchar", "size": 100},
            {"type": "double"},
            "$0"
        ]"#, &[to_value(&decimal_type(9, 0)).unwrap()]),
    );
    let detection = detect_group_by_aggregates(&req).expect("must detect grouped aggregate");
    assert_eq!(detection.group_keys.len(), 2, "two group keys");
    let group_key_types =
        group_key_exasol_types(&req, &detection.group_keys, &detection.select_items);
    let aggregate_types = detection.plan_types.clone();

    let having_node = fill(r#"{
        "type": "predicate_greater",
        "left": "$0",
        "right": {"type": "literal_exactnumeric", "value": 100}
    }"#, &[to_value(&agg_item("SUM", Some("SCORE"), false)).unwrap()]);
    let having = render_having_over_merge(&having_node, &detection.plans)
        .expect("HAVING must render over the merge decomposition");

    let col_types: Vec<(String, String)> =
        vec![("SCORE".to_string(), "DOUBLE PRECISION".to_string())];
    let spec_template = ScanSpec {
        common: CommonScanSpec {
            aggregates: Some(detection.plans.clone()),
            group_keys: Some(detection.group_keys.clone()),
            ..common_spec()
        },
        files: vec![],
    };
    let shards = vec![
        vec![FileEntry::new("s3://wh/f0.parquet", 1)],
        vec![FileEntry::new("s3://wh/f1.parquet", 1)],
    ];
    let sql = build_grouped_aggregate_scan_sql(
        &spec_template,
        &shards,
        &detection.group_keys,
        &group_key_types,
        &detection.plans,
        &aggregate_types,
        &detection.select_items,
        Some(2),
        0,
        &col_types,
        Some(&having),
        None,
    );

    let shard_group_end = sql
        .find("GROUP BY shard_key")
        .map(|i| i + "GROUP BY shard_key".len())
        .unwrap_or_else(|| panic!("must contain the inner per-shard fan-out: {sql}"));
    let inner_part = &sql[..shard_group_end];
    assert!(
        !inner_part.contains("HAVING"),
        "HAVING must not appear in the per-shard partial scan: {inner_part}"
    );
    assert!(
        !inner_part.contains("LIMIT"),
        "LIMIT must not appear in the per-shard partial scan: {inner_part}"
    );

    let outer_part = &sql[shard_group_end..];
    let outer_group_by_pos = outer_part
        .find("GROUP BY")
        .unwrap_or_else(|| panic!("outer wrapper must have its own GROUP BY: {outer_part}"));
    assert!(
        outer_part.contains(r#""GK_0""#) && outer_part.contains(r#""GK_1""#),
        "outer GROUP BY must reference both group-key slots: {outer_part}"
    );
    let having_pos = outer_part
        .find("HAVING")
        .unwrap_or_else(|| panic!("HAVING must appear in the outer wrapper: {outer_part}"));
    let limit_pos = outer_part
        .find("LIMIT 2")
        .unwrap_or_else(|| panic!("LIMIT must appear in the outer wrapper: {outer_part}"));
    assert!(
        outer_group_by_pos < having_pos,
        "outer GROUP BY must precede HAVING: {outer_part}"
    );
    assert!(
        having_pos < limit_pos,
        "HAVING must precede LIMIT in the outer wrapper: {outer_part}"
    );
}

/// An expression key resolves its declared type by index, not by rendered-string match.
#[test]
fn group_key_type_resolved_by_index_not_string_match() {
    let req = fill(r#"{
        "aggregationType": "group_by",
        "groupBy": ["$0"],
        "selectList": [
            "$1",
            "$2"
        ],
        "selectListDataTypes": [
            {"type": "double"},
            "$3"
        ]
    }"#, &[to_value(&mod_item("ID", 4)).unwrap(), to_value(&agg_item("SUM", Some("SCORE"), false)).unwrap(), to_value(&mod_item("ID", 4)).unwrap(), to_value(&decimal_type(9, 0)).unwrap()]);
    let detection = detect_group_by_aggregates(&req).expect("must detect grouped aggregate");

    let group_keys = vec![r#"("id" % 4)"#.to_string()];
    let select_items = detection.select_items;
    let types = group_key_exasol_types(&req, &group_keys, &select_items);

    assert_eq!(
        types,
        vec!["DECIMAL(9,0)".to_string()],
        "type must resolve via select_index, not via string-matching the (drifted) \
             rendered group key: {types:?}"
    );
}

/// Mixed-type multi-key GROUP BY resolves each key's own declared type.
#[test]
fn group_key_types_multi_key_mixed_types() {
    let req = make_group_by_request_with_types(
        fill(r#"[
            {"type": "column", "name": "REGION"},
            "$0"
        ]"#, &[to_value(&mod_item("ID", 4)).unwrap()]),
        fill(r#"[
            {"type": "column", "name": "REGION"},
            "$0",
            "$1"
        ]"#, &[to_value(&mod_item("ID", 4)).unwrap(), to_value(&agg_item("COUNT", None, false)).unwrap()]),
        fill(r#"[
            {"type": "varchar", "size": 100},
            "$0",
            "$1"
        ]"#, &[to_value(&decimal_type(9, 0)).unwrap(), to_value(&decimal_type(18, 0)).unwrap()]),
    );
    let detection = detect_group_by_aggregates(&req).expect("must detect grouped aggregate");
    assert_eq!(detection.group_keys.len(), 2, "two group keys");

    let types = group_key_exasol_types(&req, &detection.group_keys, &detection.select_items);

    assert_eq!(types.len(), 2, "one declared type per group key");
    assert_eq!(
        types[0], "VARCHAR(100)",
        "the REGION key must resolve its own VARCHAR type, at its own select index: {types:?}"
    );
    assert_eq!(
        types[1], "DECIMAL(9,0)",
        "the MOD(id,4) key must resolve its own DECIMAL type, not a shared/defaulted \
             VARCHAR: {types:?}"
    );
}

/// An equal-length CASE group key resolves to `CHAR(3) ASCII`, as Exasol declares it.
#[test]
fn group_key_exasol_types_resolves_char_case_key() {
    let case_key = parse(r#"{
        "type": "function_scalar_case",
        "name": "CASE",
        "arguments": [
            {"type": "predicate_less",
             "left": {"type": "column", "name": "C_DECIMAL_A"},
             "right": {"type": "literal_exactnumeric", "value": 0}}
        ],
        "results": [
            {"type": "literal_string", "value": "NEG"},
            {"type": "literal_string", "value": "POS"}
        ]
    }"#);
    let req = make_group_by_request_with_types(
        fill(r#"["$0"]"#, &[to_value(&case_key.clone()).unwrap()]),
        fill(r#"["$0", "$1"]"#, &[to_value(&case_key).unwrap(), to_value(&agg_item("COUNT", None, false)).unwrap()]),
        fill(r#"[
            {"type": "CHAR", "size": 3, "characterSet": "ASCII"},
            "$0"
        ]"#, &[to_value(&decimal_type(18, 0)).unwrap()]),
    );
    let detection = detect_group_by_aggregates(&req)
        .expect("equal-length CASE group key must be detected as a grouped aggregate");
    assert_eq!(detection.group_keys.len(), 1, "one group key");

    let types = group_key_exasol_types(&req, &detection.group_keys, &detection.select_items);

    assert_eq!(
        types,
        vec!["CHAR(3) ASCII".to_string()],
        "an equal-length CASE group key must resolve to CHAR(3) ASCII, not \
             VARCHAR(3) ASCII: {types:?}"
    );
}

/// A VARCHAR-declared group key keeps resolving to `VARCHAR(10)`.
#[test]
fn group_key_exasol_types_resolves_varchar_key_unchanged() {
    let req = make_group_by_request_with_types(
        parse(r#"[{"type": "column", "name": "REGION"}]"#),
        fill(r#"[
            {"type": "column", "name": "REGION"},
            "$0"
        ]"#, &[to_value(&agg_item("COUNT", None, false)).unwrap()]),
        fill(r#"[
            {"type": "varchar", "size": 10},
            "$0"
        ]"#, &[to_value(&decimal_type(18, 0)).unwrap()]),
    );
    let detection = detect_group_by_aggregates(&req).expect("must detect grouped aggregate");

    let types = group_key_exasol_types(&req, &detection.group_keys, &detection.select_items);

    assert_eq!(
        types,
        vec!["VARCHAR(10)".to_string()],
        "a VARCHAR-declared group key must be unaffected: {types:?}"
    );
}

/// An unprojected group key reads its declared CHAR type from its `groupBy` node.
#[test]
fn group_key_exasol_types_resolves_char_type_for_unprojected_group_key() {
    let req = make_group_by_request_with_types(
        fill(r#"["$0"]"#, &[to_value(&char_cast_key(20, "UTF8")).unwrap()]),
        fill(r#"["$0"]"#, &[to_value(&agg_item("COUNT", None, false)).unwrap()]),
        fill(r#"["$0"]"#, &[to_value(&decimal_type(18, 0)).unwrap()]),
    );
    let detection = detect_group_by_aggregates(&req)
        .expect("an unprojected group key must still detect as a grouped aggregate");
    assert_eq!(detection.group_keys.len(), 1, "one group key");
    assert!(
        !detection
            .select_items
            .iter()
            .any(|item| matches!(item, GroupedSelectItem::GroupKey { .. })),
        "fixture precondition: the group key must NOT appear in the select list"
    );

    let types = group_key_exasol_types(&req, &detection.group_keys, &detection.select_items);

    assert_eq!(
        types,
        vec!["CHAR(20)".to_string()],
        "an unprojected group key must resolve CHAR(20) from its own groupBy dataType: \
             {types:?}"
    );
}

/// An unprojected VARCHAR group key resolves VARCHAR, never a padded CHAR width.
#[test]
fn group_key_exasol_types_resolves_varchar_type_for_unprojected_group_key() {
    let req = make_group_by_request_with_types(
        fill(r#"["$0"]"#, &[to_value(&varchar_cast_key(10)).unwrap()]),
        fill(r#"["$0"]"#, &[to_value(&agg_item("COUNT", None, false)).unwrap()]),
        fill(r#"["$0"]"#, &[to_value(&decimal_type(18, 0)).unwrap()]),
    );
    let detection = detect_group_by_aggregates(&req)
        .expect("an unprojected group key must still detect as a grouped aggregate");

    let types = group_key_exasol_types(&req, &detection.group_keys, &detection.select_items);

    assert_eq!(
        types,
        vec!["VARCHAR(10)".to_string()],
        "an unprojected VARCHAR-declared group key must resolve VARCHAR(10): {types:?}"
    );
}

/// A projected key's `selectListDataTypes` entry wins over its `groupBy` type.
#[test]
fn group_key_exasol_types_prefers_select_list_type_over_group_by_type() {
    let req = make_group_by_request_with_types(
        fill(r#"["$0"]"#, &[to_value(&char_cast_key(20, "UTF8")).unwrap()]),
        fill(r#"["$0", "$1"]"#, &[to_value(&char_cast_key(20, "UTF8")).unwrap(), to_value(&agg_item("COUNT", None, false)).unwrap()]),
        fill(r#"[{"type": "varchar", "size": 30}, "$0"]"#, &[to_value(&decimal_type(18, 0)).unwrap()]),
    );
    let detection = detect_group_by_aggregates(&req).expect("must detect grouped aggregate");

    let types = group_key_exasol_types(&req, &detection.group_keys, &detection.select_items);

    assert_eq!(
        types,
        vec!["VARCHAR(30)".to_string()],
        "the selectListDataTypes entry must win over the groupBy node's own dataType: \
             {types:?}"
    );
}

/// A bare string-literal select item renders `CAST('X' AS CHAR(1) ASCII)`.
#[test]
fn constant_projection_casts_literal_to_char() {
    let req = make_group_by_request_with_types(
        parse(r#"[{"type": "column", "name": "REGION"}]"#),
        fill(r#"[
            {"type": "literal_string", "value": "X"},
            "$0"
        ]"#, &[to_value(&agg_item("COUNT", None, false)).unwrap()]),
        fill(r#"[
            {"type": "CHAR", "size": 1, "characterSet": "ASCII"},
            "$0"
        ]"#, &[to_value(&decimal_type(18, 0)).unwrap()]),
    );
    let detection = detect_group_by_aggregates(&req).expect("must detect grouped aggregate");

    let projection = detection
        .select_items
        .iter()
        .find_map(|item| match item {
            GroupedSelectItem::Constant { projection, .. } => Some(projection.clone()),
            _ => None,
        })
        .expect("the literal_string item must classify as Constant");

    assert_eq!(
        projection, "CAST('X' AS CHAR(1) ASCII)",
        "a CHAR(1)-declared literal must cast to CHAR(1) ASCII, not VARCHAR(1) ASCII: \
             {projection}"
    );
}

/// `MIN(CAST(<col> AS CHAR(20)))` emits and merges as `CHAR(20)`, not VARCHAR.
#[test]
fn min_over_char_expression_declares_char_partial_and_merge_cast() {
    let cast_arg = parse(r#"{
        "type": "function_scalar_cast",
        "name": "CAST",
        "arguments": [{"type": "column", "name": "C_VARCHAR"}],
        "dataType": {"type": "CHAR", "size": 20, "characterSet": "UTF8"}
    }"#);
    let req = make_group_by_request_with_types(
        parse(r#"[{"type": "column", "name": "REGION"}]"#),
        fill(r#"[
            {"type": "column", "name": "REGION"},
            "$0"
        ]"#, &[to_value(&agg_item_expr("MIN", cast_arg, false)).unwrap()]),
        parse(r#"[
            {"type": "varchar", "size": 100},
            {"type": "CHAR", "size": 20, "characterSet": "UTF8"}
        ]"#),
    );
    let detection = detect_group_by_aggregates(&req).expect("must detect grouped aggregate");
    assert_eq!(detection.plans.len(), 1, "one aggregate plan (MIN)");
    assert_eq!(
        detection.plan_types,
        vec!["CHAR(20)".to_string()],
        "the MIN plan's declared type must be CHAR(20), not VARCHAR(20): {:?}",
        detection.plan_types
    );

    let partial_emits = partial_emits_items(&detection.plans, &[], &detection.plan_types);
    assert_eq!(
        partial_emits,
        vec![r#""PARTIAL_min_0" CHAR(20)"#.to_string()],
        "MIN over a CHAR-declared expression must declare its partial column \
             CHAR(20), not VARCHAR(20): {partial_emits:?}"
    );

    let merge_items = cast_merge_items(&detection.plans, &detection.plan_types);
    assert_eq!(
        merge_items,
        vec![r#"CAST(MIN("PARTIAL_min_0") AS CHAR(20))"#.to_string()],
        "the merge item must cast to CHAR(20), not VARCHAR(20): {merge_items:?}"
    );
}

/// A missing or non-"group_by" aggregationType returns None.
#[test]
fn detect_group_by_aggregates_no_group_by_type_returns_none() {
    let req1 = fill(r#"{
        "groupBy": [{"type": "column", "name": "REGION"}],
        "selectList": ["$0"]
    }"#, &[to_value(&agg_item("COUNT", None, false)).unwrap()]);
    assert!(detect_group_by_aggregates(&req1).is_none());

    let req2 = fill(r#"{
        "aggregationType": "single_group",
        "selectList": ["$0"]
    }"#, &[to_value(&agg_item("COUNT", None, false)).unwrap()]);
    assert!(detect_group_by_aggregates(&req2).is_none());
}

/// An empty groupBy array returns None.
#[test]
fn detect_group_by_aggregates_empty_group_by_returns_none() {
    let req = fill(r#"{
        "aggregationType": "group_by",
        "groupBy": [],
        "selectList": ["$0"]
    }"#, &[to_value(&agg_item("SUM", Some("AMOUNT"), false)).unwrap()]);
    assert!(detect_group_by_aggregates(&req).is_none());
}

/// `partial_emits_items` produces 3 columns for stat aggregates.
#[test]
fn stat_aggregate_emits_three_partial_columns() {
    for kind in &[
        AggKind::VarPop,
        AggKind::VarSamp,
        AggKind::StddevPop,
        AggKind::StddevSamp,
    ] {
        let plans = vec![AggregatePlan {
            kind: *kind,
            column: Some("SCORE".into()),
            arg_expr: None,
        }];
        let col_types = vec![("SCORE".to_string(), "DOUBLE PRECISION".to_string())];
        let items = partial_emits_items(&plans, &col_types, &[]);
        assert_eq!(
            items.len(),
            3,
            "{kind:?} must emit 3 partial columns, got: {items:?}"
        );
        assert!(
            items[0].contains("PARTIAL_stat_cnt_0"),
            "first column must be cnt: {items:?}"
        );
        assert!(
            items[1].contains("PARTIAL_stat_sum_0"),
            "second column must be sum: {items:?}"
        );
        assert!(
            items[2].contains("PARTIAL_stat_sumsq_0"),
            "third column must be sumsq: {items:?}"
        );
    }
}

/// Both sides terminate the name with a double quote.
fn partial_names_in(text: &str) -> Vec<String> {
    let mut names = Vec::new();
    let mut rest = text;
    while let Some(start) = rest.find("PARTIAL_") {
        let tail = &rest[start..];
        let end = tail
            .find('"')
            .expect("a PARTIAL_ name is always double-quote terminated");
        names.push(tail[..end].to_string());
        rest = &tail[end..];
    }
    names
}

/// The select list with which a scan computes the parts of its aggregates.
fn build_partial_agg_sql(plans: &[AggregatePlan]) -> String {
    let mut items: Vec<String> = Vec::new();
    for (slot, plan) in plans.iter().enumerate() {
        let parts: &[(&str, &str)] = match plan.kind {
            AggKind::Count => &[("COUNT(*)", "count")],
            AggKind::CountCol => &[("COUNT(v)", "count")],
            AggKind::Sum => &[("SUM(v)", "sum")],
            AggKind::Min => &[("MIN(v)", "min")],
            AggKind::Max => &[("MAX(v)", "max")],
            AggKind::Avg => &[("SUM(v)", "avg_sum"), ("COUNT(v)", "avg_cnt")],
            AggKind::VarPop | AggKind::VarSamp | AggKind::StddevPop | AggKind::StddevSamp => {
                &[("COUNT(v)", "stat_cnt"), ("SUM(v)", "stat_sum"), ("SUM(v * v)", "stat_sumsq")]
            }
        };
        for (expression, part) in parts {
            items.push(format!("{expression} AS \"PARTIAL_{part}_{slot}\""));
        }
    }
    format!("SELECT {} FROM aliased", items.join(", "))
}

/// The scan's partial SELECT and the `EMITS` clause name the same partial columns in order.
#[test]
fn scan_select_list_and_emits_agree_per_agg_kind() {
    let all_kinds = [
        AggKind::Count,
        AggKind::CountCol,
        AggKind::Sum,
        AggKind::Min,
        AggKind::Max,
        AggKind::Avg,
        AggKind::VarPop,
        AggKind::VarSamp,
        AggKind::StddevPop,
        AggKind::StddevSamp,
    ];
    let col_types = vec![("SCORE".to_string(), "DOUBLE PRECISION".to_string())];

    let plan_for = |kind: &AggKind| AggregatePlan {
        kind: *kind,
        column: match kind {
            AggKind::Count => None,
            _ => Some("SCORE".to_string()),
        },
        arg_expr: None,
    };

    for kind in &all_kinds {
        let plans = vec![plan_for(kind)];
        let scan_names = partial_names_in(&build_partial_agg_sql(&plans));
        let emits_names =
            partial_names_in(&partial_emits_items(&plans, &col_types, &[]).join(", "));
        assert_eq!(
            scan_names, emits_names,
            "{kind:?}: scan SELECT list and EMITS clause disagree"
        );
    }

    // Mixed arities make a plan ordinal and a column ordinal diverge.
    let mixed: Vec<AggregatePlan> = all_kinds.iter().map(plan_for).collect();
    assert_eq!(
        partial_names_in(&build_partial_agg_sql(&mixed)),
        partial_names_in(&partial_emits_items(&mixed, &col_types, &[]).join(", ")),
        "mixed-arity plan list: scan SELECT list and EMITS clause disagree"
    );
}

/// The VAR_POP merge guards the count with NULLIF and does not divide by N-1.
#[test]
fn var_pop_merge_formula_divides_by_n() {
    let plans = vec![AggregatePlan {
        kind: AggKind::VarPop,
        column: Some("X".into()),
        arg_expr: None,
    }];
    let sql = merge_select_items(&plans).join(", ");
    assert!(
        sql.contains("NULLIF"),
        "var_pop merge must guard zero count: {sql}"
    );
    assert!(
        !sql.contains("- 1"),
        "var_pop must not subtract 1 from count: {sql}"
    );
}

/// The VAR_SAMP merge divides by N-1 and maps N<=1 to NULL.
#[test]
fn var_samp_merge_formula_divides_by_n_minus_1() {
    let plans = vec![AggregatePlan {
        kind: AggKind::VarSamp,
        column: Some("X".into()),
        arg_expr: None,
    }];
    let sql = merge_select_items(&plans).join(", ");
    assert!(
        sql.contains("<= 1"),
        "var_samp merge must guard count<=1 with '<= 1': {sql}"
    );
    assert!(
        sql.contains("CASE"),
        "var_samp merge must use CASE for N<=1 guard: {sql}"
    );
}

/// The STDDEV_POP merge wraps the variance in SQRT.
#[test]
fn stddev_pop_merge_formula_uses_sqrt() {
    let plans = vec![AggregatePlan {
        kind: AggKind::StddevPop,
        column: Some("X".into()),
        arg_expr: None,
    }];
    let sql = merge_select_items(&plans).join(", ");
    assert!(sql.contains("SQRT("), "stddev_pop must use SQRT: {sql}");
    assert!(
        !sql.contains("- 1"),
        "stddev_pop must not subtract 1: {sql}"
    );
}

/// The STDDEV_SAMP merge wraps the sample variance in SQRT.
#[test]
fn stddev_samp_merge_formula_uses_sqrt_and_n_minus_1() {
    let plans = vec![AggregatePlan {
        kind: AggKind::StddevSamp,
        column: Some("X".into()),
        arg_expr: None,
    }];
    let sql = merge_select_items(&plans).join(", ");
    assert!(sql.contains("SQRT("), "stddev_samp must use SQRT: {sql}");
    assert!(
        sql.contains("<= 1"),
        "stddev_samp must guard N<=1 (sample divisor): {sql}"
    );
    assert!(
        sql.contains("CASE"),
        "stddev_samp must use CASE for N<=1 guard: {sql}"
    );
}

/// The STDDEV_POP merge passes NULL through for N=0.
#[test]
fn stddev_pop_merge_null_passthrough_for_n_zero() {
    let plans = vec![AggregatePlan {
        kind: AggKind::StddevPop,
        column: Some("X".into()),
        arg_expr: None,
    }];
    let sql = merge_select_items(&plans).join(", ");
    assert!(
        sql.contains("IS NULL"),
        "stddev_pop must pass NULL through for N=0 via IS NULL guard: {sql}"
    );
    // Guards against tiny-negative float rounding.
    assert!(
        sql.contains("GREATEST"),
        "stddev_pop must keep GREATEST rounding guard: {sql}"
    );
}

/// The STDDEV_SAMP merge passes NULL through for N=0 and N=1.
#[test]
fn stddev_samp_merge_null_passthrough_for_n_zero_and_n_one() {
    let plans = vec![AggregatePlan {
        kind: AggKind::StddevSamp,
        column: Some("X".into()),
        arg_expr: None,
    }];
    let sql = merge_select_items(&plans).join(", ");
    assert!(
        sql.contains("IS NULL"),
        "stddev_samp must pass NULL through for N<=1 via IS NULL guard: {sql}"
    );
    // Guards against tiny-negative float rounding.
    assert!(
        sql.contains("GREATEST"),
        "stddev_samp must keep GREATEST rounding guard: {sql}"
    );
}

/// HAVING renders after GROUP BY in the outer wrapper.
#[test]
fn having_clause_appears_in_outer_wrapper_only() {
    let having_filter = Some(r#"(SUM("AMOUNT") > 100)"#.to_string());
    let spec_template = ScanSpec {
        common: CommonScanSpec {
            projection: vec![
                ProjectionItem::Column("REGION".into()),
                ProjectionItem::Column("AMOUNT".into()),
            ],
            aggregates: Some(vec![AggregatePlan {
                kind: AggKind::Sum,
                column: Some("AMOUNT".into()),
                arg_expr: None,
            }]),
            group_keys: Some(vec![r#""REGION""#.to_string()]),
            ..common_spec()
        },
        files: vec![],
    };
    let shards = vec![vec![FileEntry::new("s3://wh/f.parquet", 1)]];
    let col_types = vec![
        ("REGION".to_string(), "VARCHAR(2000000)".to_string()),
        ("AMOUNT".to_string(), "DOUBLE PRECISION".to_string()),
    ];
    let sql = build_grouped_aggregate_scan_sql(
        &spec_template,
        &shards,
        &[r#""REGION""#.to_string()],
        &[],
        &[AggregatePlan {
            kind: AggKind::Sum,
            column: Some("AMOUNT".into()),
            arg_expr: None,
        }],
        &[],
        &keys_first_select_items(1, 1),
        None,
        0,
        &col_types,
        having_filter.as_deref(),
        None,
    );
    assert!(
        sql.contains("HAVING"),
        "outer wrapper must contain HAVING: {sql}"
    );
    assert!(
        sql.contains("100"),
        "HAVING predicate value must be in SQL: {sql}"
    );
    let having_pos = sql.find("HAVING").unwrap();
    let group_by_pos = sql.find("GROUP BY").unwrap();
    assert!(
        having_pos > group_by_pos,
        "HAVING must appear after GROUP BY: {sql}"
    );
}

/// Spelled out on its own, so that a changed construct fails.
fn expected_pad(fragment: &str, width: u32) -> String {
    format!(
        "CASE WHEN character_length({fragment}) < {width} \
             THEN rpad({fragment}, {width}) ELSE {fragment} END"
    )
}

/// A CHAR(20) group key is blank-padded so trailing-blank variants form one group.
#[test]
fn char_declared_group_key_is_blank_padded_to_its_declared_width() {
    let fragment = r#"CAST("NAME" AS VARCHAR)"#.to_string();

    let padded =
        blank_pad_char_group_keys(std::slice::from_ref(&fragment), &["CHAR(20)".to_string()]);

    assert_eq!(
        padded,
        vec![expected_pad(&fragment, 20)],
        "a CHAR(20)-declared group key must be blank-padded to 20 characters on the \
             DataFusion side: {padded:?}"
    );
}

/// The pad width parses from inside the parentheses, so `CHAR(3) ASCII` still pads.
#[test]
fn ascii_suffixed_char_group_key_width_is_parsed_before_the_suffix() {
    let fragment = "CASE WHEN \"C_DECIMAL_A\" < 0 THEN 'NEG' ELSE 'POS' END".to_string();

    let padded = blank_pad_char_group_keys(
        std::slice::from_ref(&fragment),
        &["CHAR(3) ASCII".to_string()],
    );

    assert_eq!(
        padded,
        vec![expected_pad(&fragment, 3)],
        "a `CHAR(3) ASCII` group key must be padded to 3, not left unpadded because of \
             the character-set suffix: {padded:?}"
    );
}

/// An over-length value passes through untruncated, since `rpad` would merge it into a wrong
/// group.
#[test]
fn char_pad_leaves_an_over_length_value_unmodified() {
    let fragment = r#""NAME""#.to_string();

    let padded =
        blank_pad_char_group_keys(std::slice::from_ref(&fragment), &["CHAR(20)".to_string()])
            .pop()
            .expect("one padded group key");

    assert!(
        padded.starts_with(&format!("CASE WHEN character_length({fragment}) < 20 THEN")),
        "the pad must be guarded by a shorter-than-width test, never unconditional: {padded}"
    );
    assert!(
        padded.ends_with(&format!("ELSE {fragment} END")),
        "an over-length value must pass through the ELSE branch unmodified: {padded}"
    );
    assert_eq!(
        padded.matches("rpad(").count(),
        1,
        "rpad must appear exactly once, inside the guarded THEN branch: {padded}"
    );
    for truncating in ["substr", "substring", "left("] {
        assert!(
            !padded.contains(truncating),
            "the pad must contain no truncating construct ({truncating}): {padded}"
        );
    }
}

/// A VARCHAR group key is untouched, proving a prefix rather than substring match.
#[test]
fn varchar_declared_group_key_is_left_unpadded() {
    let keys = vec![r#""REGION""#.to_string()];

    let padded = blank_pad_char_group_keys(&keys, &["VARCHAR(10)".to_string()]);

    assert_eq!(
        padded, keys,
        "a VARCHAR-declared group key must be left unpadded: {padded:?}"
    );
}

/// A mixed VARCHAR + CHAR multi-key GROUP BY pads only the CHAR slot at its own width.
#[test]
fn multi_key_pad_applies_only_to_the_char_slot() {
    let keys = vec![
        r#""REGION""#.to_string(),
        r#"CAST("NAME" AS VARCHAR)"#.to_string(),
    ];

    let padded = blank_pad_char_group_keys(
        &keys,
        &["VARCHAR(10)".to_string(), "CHAR(5) ASCII".to_string()],
    );

    assert_eq!(
        padded,
        vec![keys[0].clone(), expected_pad(&keys[1], 5)],
        "only the CHAR-declared slot may be padded, at its own width: {padded:?}"
    );
}

/// A grouped statistical aggregate over an expression argument declines to the wrapper.
#[test]
fn grouped_stat_aggregate_over_expression_argument_declines() {
    let req = make_group_by_request_with_types(
        fill(r#"["$0"]"#, &[to_value(&mod_item("ID", 4)).unwrap()]),
        fill(r#"[
            "$0",
            "$1"
        ]"#, &[to_value(&mod_item("ID", 4)).unwrap(), to_value(&agg_item_expr("STDDEV", mod_item("SCORE", 4), false)).unwrap()]),
        fill(r#"["$0", {"type": "double"}]"#, &[to_value(&decimal_type(9, 0)).unwrap()]),
    );
    assert!(
        detect_group_by_aggregates(&req).is_none(),
        "a grouped STDDEV over an expression argument must decline the grouped \
             partial/merge path"
    );
}

/// A grouped `SQRT(STDDEV(<expr>))` declines to the qualified single-table wrapper.
#[test]
fn scalar_over_stat_aggregate_with_expression_argument_declines() {
    let sqrt_over_stat = fill(r#"{
        "type": "function_scalar",
        "name": "SQRT",
        "arguments": ["$0"]
    }"#, &[to_value(&agg_item_expr("STDDEV", mod_item("SCORE", 4), false)).unwrap()]);
    assert!(
        classify_scalar_over_aggregate(&sqrt_over_stat).is_none(),
        "a scalar wrapping a stat aggregate over an expression must not classify"
    );

    let req = make_group_by_request_with_types(
        fill(r#"["$0"]"#, &[to_value(&mod_item("ID", 4)).unwrap()]),
        fill(r#"["$0", "$1"]"#, &[to_value(&mod_item("ID", 4)).unwrap(), to_value(&sqrt_over_stat).unwrap()]),
        fill(r#"["$0", {"type": "double"}]"#, &[to_value(&decimal_type(9, 0)).unwrap()]),
    );
    assert!(
        detect_group_by_aggregates(&req).is_none(),
        "an unclassifiable scalar-over-aggregate item must decline the whole \
             grouped detection"
    );
}

/// A HAVING over a statistical aggregate of an expression does not render over the merge.
#[test]
fn having_over_stat_aggregate_with_expression_argument_declines() {
    let having = fill(r#"{
        "type": "predicate_greater",
        "left": "$0",
        "right": {"type": "literal_double", "value": 5.0}
    }"#, &[to_value(&agg_item_expr("STDDEV", mod_item("SCORE", 4), false)).unwrap()]);
    let plans = vec![AggregatePlan {
        kind: AggKind::StddevSamp,
        column: None,
        arg_expr: None,
    }];
    assert!(
        render_having_over_merge(&having, &plans).is_none(),
        "a HAVING over a stat aggregate with an expression argument must not \
             render over the merge wrapper"
    );
}

// ---------------------------------------------------------------------------
// Exact formulas.
// ---------------------------------------------------------------------------

#[test]
fn every_aggregate_merges_by_its_own_formula() {
    let kinds = [
        AggKind::Count,
        AggKind::CountCol,
        AggKind::Sum,
        AggKind::Min,
        AggKind::Max,
        AggKind::Avg,
        AggKind::VarPop,
        AggKind::VarSamp,
    ];
    let plans: Vec<AggregatePlan> = kinds.iter().map(|kind| plan(*kind, Some("X"))).collect();

    assert_eq!(
        merge_select_items(&plans),
        vec![
            r#"SUM("PARTIAL_count_0")"#,
            r#"SUM("PARTIAL_count_1")"#,
            r#"SUM("PARTIAL_sum_2")"#,
            r#"MIN("PARTIAL_min_3")"#,
            r#"MAX("PARTIAL_max_4")"#,
            r#"(SUM("PARTIAL_avg_sum_5") / NULLIF(SUM("PARTIAL_avg_cnt_5"), 0))"#,
            r#"((SUM("PARTIAL_stat_sumsq_6") - SUM("PARTIAL_stat_sum_6") * SUM("PARTIAL_stat_sum_6") / NULLIF(SUM("PARTIAL_stat_cnt_6"), 0)) / NULLIF(SUM("PARTIAL_stat_cnt_6"), 0))"#,
            r#"CASE WHEN SUM("PARTIAL_stat_cnt_7") <= 1 THEN NULL ELSE (SUM("PARTIAL_stat_sumsq_7") - SUM("PARTIAL_stat_sum_7") * SUM("PARTIAL_stat_sum_7") / SUM("PARTIAL_stat_cnt_7")) / (SUM("PARTIAL_stat_cnt_7") - 1) END"#,
        ]
    );
}

#[test]
fn a_deviation_is_the_guarded_root_of_its_variance() {
    for (variance, deviation) in
        [(AggKind::VarPop, AggKind::StddevPop), (AggKind::VarSamp, AggKind::StddevSamp)]
    {
        let variance = merge_select_items(&vec![plan(variance, Some("X"))]).remove(0);
        let deviation = merge_select_items(&vec![plan(deviation, Some("X"))]).remove(0);
        assert_eq!(
            deviation,
            format!("CASE WHEN {variance} IS NULL THEN NULL ELSE SQRT(GREATEST({variance}, 0)) END")
        );
    }
}

#[test]
fn partial_columns_are_typed_by_kind() {
    let col_types = vec![
        ("PRICE".to_string(), "DECIMAL(20,2)".to_string()),
        ("NAME".to_string(), "VARCHAR(10)".to_string()),
    ];
    let plans = vec![
        plan(AggKind::Count, None),
        plan(AggKind::Sum, Some("PRICE")),
        plan(AggKind::Min, Some("NAME")),
        plan(AggKind::Avg, Some("PRICE")),
        AggregatePlan { kind: AggKind::Sum, column: None, arg_expr: Some("(\"A\" * 2)".into()) },
    ];
    let types: Vec<String> = ["", "", "", "", "DECIMAL(18,3)"].map(str::to_string).to_vec();

    let emits = partial_emits_items(&plans, &col_types, &types);

    assert_eq!(emits[1], r#""PARTIAL_sum_1" DECIMAL(36,2)"#);
    assert_eq!(emits[2], r#""PARTIAL_min_2" VARCHAR(10)"#);
    assert_eq!(emits.last().unwrap(), r#""PARTIAL_sum_4" DECIMAL(36,3)"#);
    assert_eq!(emits.len(), 6);
}

#[test]
fn an_argument_type_is_looked_up_or_declared() {
    let col_types = vec![("PRICE".to_string(), "DECIMAL(20,2)".to_string())];

    assert_eq!(col_type_for(Some("PRICE"), None, &col_types, Some("DATE")), "DECIMAL(20,2)");
    assert_eq!(col_type_for(Some("OTHER"), None, &col_types, Some("DATE")), "DOUBLE PRECISION");
    assert_eq!(col_type_for(None, Some("a + b"), &col_types, Some("DATE")), "DATE");
    assert_eq!(col_type_for(None, Some("a + b"), &col_types, None), "DOUBLE PRECISION");
    assert_eq!(col_type_for(None, None, &col_types, Some("DATE")), "DOUBLE PRECISION");
}

#[test]
fn merged_items_are_cast_to_their_declared_types() {
    let plans = vec![plan(AggKind::Sum, Some("A")), plan(AggKind::Max, Some("B"))];

    assert_eq!(
        cast_merge_items(&plans, &vec!["DECIMAL(18,0)".to_string()]),
        vec![r#"CAST(SUM("PARTIAL_sum_0") AS DECIMAL(18,0))"#, r#"MAX("PARTIAL_max_1")"#]
    );
    assert_eq!(cast_to_declared_type("x", Some("DATE")), "CAST(x AS DATE)");
    assert_eq!(cast_to_declared_type("x", None), "x");
}

// ---------------------------------------------------------------------------
// Plans, detection and ordering.
// ---------------------------------------------------------------------------

#[test]
fn a_plan_is_folded_in_once_and_takes_the_latest_declared_type() {
    let mut plans = Vec::new();
    let mut types = Vec::new();

    assert_eq!(fold_aggregate_plan(&mut plans, &mut types, plan(AggKind::Count, None), None), 0);
    assert_eq!(
        fold_aggregate_plan(
            &mut plans,
            &mut types,
            plan(AggKind::Sum, Some("A")),
            Some("DECIMAL(36,0)".to_string())
        ),
        1
    );
    assert_eq!(types, vec!["DOUBLE PRECISION", "DECIMAL(36,0)"]);

    let declared = Some("DECIMAL(18,0)".to_string());
    assert_eq!(
        fold_aggregate_plan(&mut plans, &mut types, plan(AggKind::Count, None), declared),
        0
    );
    assert_eq!(
        fold_aggregate_plan(&mut plans, &mut types, plan(AggKind::Sum, Some("A")), None),
        1
    );
    assert_eq!(plans, vec![plan(AggKind::Count, None), plan(AggKind::Sum, Some("A"))]);
    assert_eq!(types, vec!["DECIMAL(18,0)", "DECIMAL(36,0)"]);
}

#[test]
fn a_constant_without_a_declared_type_is_not_cast() {
    let req = make_group_by_request(
        parse(r#"[{"type": "column", "name": "REGION"}]"#),
        parse(r#"[{"type": "literal_string", "value": "it's"}]"#),
    );
    let detection = detect_group_by_aggregates(&req).expect("grouped keys");

    assert_eq!(
        detection.select_items,
        vec![GroupedSelectItem::Constant { select_index: 0, projection: "'it''s'".to_string() }]
    );
}

#[test]
fn an_expression_over_aggregates_without_a_declared_type_is_taken_as_text() {
    let req = make_group_by_request(
        parse(r#"[{"type": "column", "name": "L_RETURNFLAG"}]"#),
        fill(r#"["$0"]"#, &[round_pct_over_aggregates()]),
    );
    let detection = detect_group_by_aggregates(&req).expect("grouped aggregate");

    assert_eq!(
        detection.select_items,
        vec![GroupedSelectItem::ScalarOverAggregate {
            select_index: 0,
            node: json(&round_pct_over_aggregates()),
            declared_type: "VARCHAR(2000000)".to_string(),
        }]
    );
    assert_eq!(detection.plan_types, vec!["DOUBLE PRECISION", "DOUBLE PRECISION"]);
}

#[test]
fn a_request_without_order_by_has_no_order_clause() {
    let req = make_group_by_request(
        parse(r#"[{"type": "column", "name": "REGION"}]"#),
        parse(r#"[{"type": "column", "name": "REGION"}]"#),
    );
    let detection = detect_group_by_aggregates(&req).expect("grouped keys");

    assert_eq!(build_grouped_order_by_clause(&req, &detection), None);
}

#[test]
fn an_order_by_element_without_flags_is_unresolvable() {
    let mut req = make_group_by_request(
        parse(r#"[{"type": "column", "name": "REGION"}]"#),
        parse(r#"[{"type": "column", "name": "REGION"}]"#),
    );
    req["orderBy"] =
        parse(r#"[{"expression": {"type": "column", "name": "REGION"}, "isAscending": true}]"#);
    let detection = detect_group_by_aggregates(&req).expect("grouped keys");

    assert_eq!(
        build_grouped_order_by_clause(&req, &detection),
        Some(GroupedOrderBy::Unresolvable)
    );
}

#[test]
fn an_order_by_on_an_unprojected_group_key_is_unresolvable() {
    let mut req = make_group_by_request(
        parse(r#"[{"type": "column", "name": "REGION"}]"#),
        fill(r#"["$0"]"#, &[agg_item("COUNT", None, false)]),
    );
    req["orderBy"] = parse(
        r#"[{"expression": {"type": "column", "name": "REGION"},
             "isAscending": true, "nullsLast": true}]"#,
    );
    let detection = detect_group_by_aggregates(&req).expect("grouped keys");

    assert_eq!(
        build_grouped_order_by_clause(&req, &detection),
        Some(GroupedOrderBy::Unresolvable)
    );
}

// ---------------------------------------------------------------------------
// HAVING.
// ---------------------------------------------------------------------------

fn having_of(text: &str) -> Option<String> {
    let sum = agg_item("SUM", Some("SCORE"), false);
    render_having_over_merge(&fill(text, &[sum]), &vec![plan(AggKind::Sum, Some("SCORE"))])
}

const ONE: &str = r#"{"type": "literal_exactnumeric", "value": 1}"#;

#[test]
fn having_renders_every_predicate() {
    let sum = r#"SUM("PARTIAL_sum_0")"#;
    for (kind, operator) in [
        ("predicate_equal", "="),
        ("predicate_notequal", "<>"),
        ("predicate_less", "<"),
        ("predicate_lessequal", "<="),
        ("predicate_greater", ">"),
        ("predicate_greaterequal", ">="),
    ] {
        let node = format!(r#"{{"type": "{kind}", "left": "$0", "right": {ONE}}}"#);
        assert_eq!(having_of(&node), Some(format!("({sum} {operator} 1)")));
    }
    assert_eq!(
        having_of(r#"{"type": "predicate_is_null", "expression": "$0"}"#),
        Some(format!("({sum} IS NULL)"))
    );
    assert_eq!(
        having_of(r#"{"type": "predicate_is_not_null", "expression": "$0"}"#),
        Some(format!("({sum} IS NOT NULL)"))
    );
    assert_eq!(
        having_of(r#"{"type": "predicate_not", "expression": "$0"}"#),
        Some(format!("(NOT {sum})"))
    );
    let between =
        format!(r#"{{"type": "predicate_between", "expression": "$0", "left": {ONE}, "right": {ONE}}}"#);
    assert_eq!(having_of(&between), Some(format!("({sum} BETWEEN 1 AND 1)")));
}

#[test]
fn having_junctions_keep_their_parts_and_fail_with_any_of_them() {
    let greater = format!(r#"{{"type": "predicate_greater", "left": "$0", "right": {ONE}}}"#);
    let rendered = r#"(SUM("PARTIAL_sum_0") > 1)"#;

    let both = format!(r#"{{"type": "predicate_and", "expressions": [{greater}, {greater}]}}"#);
    assert_eq!(having_of(&both), Some(format!("({rendered} AND {rendered})")));
    let either = format!(r#"{{"type": "predicate_or", "expressions": [{greater}, {greater}]}}"#);
    assert_eq!(having_of(&either), Some(format!("({rendered} OR {rendered})")));
    let single = format!(r#"{{"type": "predicate_and", "expressions": [{greater}]}}"#);
    assert_eq!(having_of(&single), Some(rendered.to_string()));
    assert_eq!(having_of(r#"{"type": "predicate_and", "expressions": []}"#), None);
    let broken = format!(
        r#"{{"type": "predicate_and", "expressions": [{greater}, {{"type": "column", "name": "A"}}]}}"#
    );
    assert_eq!(having_of(&broken), None);
}

// ---------------------------------------------------------------------------
// The merge query.
// ---------------------------------------------------------------------------

#[test]
fn the_merge_query_is_written_in_full() {
    let sql = build_grouped_aggregate_scan_sql(
        &ScanSpec {
            common: CommonScanSpec {
                limit: Some(9),
                group_keys: Some(vec![r#""REGION""#.to_string()]),
                ..common_spec()
            },
            files: vec![],
        },
        &vec![vec![FileEntry::new("s3://wh/f0.parquet", 1)]],
        &[r#""REGION""#.to_string()],
        &["CHAR(3) ASCII".to_string()],
        &[plan(AggKind::Count, None)],
        &["DECIMAL(18,0)".to_string()],
        &keys_first_select_items(1, 1),
        Some(5),
        2,
        &[],
        Some("(1 = 1)"),
        Some("1 ASC NULLS LAST"),
    );

    assert_eq!(
        sql,
        r#"SELECT CAST("GK_0" AS CHAR(3) ASCII), CAST(SUM("PARTIAL_count_0") AS DECIMAL(18,0)) FROM (SELECT SCAN('{"group_keys":["\"REGION\""],"endpoint":"http://minio:9000","memory_pool_fraction":0.6}', '[["s3://wh/f0.parquet",1]]') EMITS ("GK_0" VARCHAR(2000000), "PARTIAL_count_0" DECIMAL(20,0))) GROUP BY "GK_0" HAVING (1 = 1) ORDER BY 1 ASC NULLS LAST LIMIT 5 OFFSET 2"#
    );
}

#[test]
fn the_merge_query_ignores_the_order_in_which_items_are_handed_over() {
    let merge = |items: &Vec<GroupedSelectItem>| {
        build_grouped_aggregate_scan_sql(
            &ScanSpec { common: common_spec(), files: vec![] },
            &vec![vec![FileEntry::new("s3://wh/f0.parquet", 1)]],
            &[r#""REGION""#.to_string()],
            &[],
            &[plan(AggKind::Count, None), plan(AggKind::Sum, Some("A"))],
            &[],
            items,
            None,
            0,
            &[],
            None,
            None,
        )
    };
    let items = keys_first_select_items(1, 2);
    let mut reversed = items.clone();
    reversed.reverse();

    assert_ne!(items, reversed);
    assert_eq!(merge(&items), merge(&reversed));
}

#[test]
fn further_plans_add_columns_behind_the_others() {
    let plans = vec![plan(AggKind::Avg, Some("A")), plan(AggKind::Count, None)];
    let first = vec![plan(AggKind::Avg, Some("A"))];

    let all = partial_emits_items(&plans, &[], &[]);
    let head = partial_emits_items(&first, &[], &[]);

    assert_eq!(head.len(), 2);
    assert_eq!(all[..2], head[..]);
    assert_eq!(all[2], r#""PARTIAL_count_1" DECIMAL(20,0)"#);
}

#[test]
fn a_qualified_wrapper_reports_an_item_that_no_dialect_renders() {
    let request = parse(r#"{"involvedTables": [{"name": "T"}]}"#);
    let pushdown_req = parse(r#"{"selectList": [{"type": "no_such_node"}]}"#);
    let spec = ScanSpec {
        common: CommonScanSpec {
            projection: vec![ProjectionItem::Column("A".to_string())],
            ..common_spec()
        },
        files: vec![],
    };
    let types = vec!["DATE".to_string()];
    let row = FanOutProjection::new(&spec, &types).expect("aligned");
    let outcome: Result<String, UserError> =
        lakehouse_engine::joins::fallback::build_qualified_single_table_fallback_sql(
            &json(&request),
            &json(&pushdown_req),
            &row,
            &vec![vec![FileEntry::new("s3://wh/f0.parquet", 1)]],
            None,
            &QueryDialect {
                expression: |node: &Json| render(&value(node), QUERY),
                filter: |node: &Json| render(&value(node), QUERY),
            },
            &|spec: &ScanSpec,
              shards: &Vec<Vec<FileEntry>>,
              types: &Vec<String>,
              _limit: Option<u64>| fan_out(spec, shards, &types.join(", ")),
        );

    assert!(outcome.expect_err("declined").message.contains("select-list item"));
}
