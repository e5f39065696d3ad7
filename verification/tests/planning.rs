//! Recognising a join, resolving its sides and choosing their roles.

use lakehouse_engine::error::UserError;
use lakehouse_engine::joins::plan::{ineligible_join_decline, qualify_udf};
use lakehouse_engine::joins::planning::{
    select_broadcast_sides, DetectedJoin, IneligibleJoinReason, JoinShape, ResolvedJoinSide,
    ResolvedScan,
};
use lakehouse_engine::json::Json;
use lakehouse_engine::scan::{FileEntry, LogicalField, StorageBackend, StorageProps};
use serde_json::{to_value, Value};

fn parse(text: &str) -> Value {
    serde_json::from_str(text).expect("valid JSON")
}

fn put(node: &mut Value, values: &[Value]) {
    match node {
        Value::String(text) => {
            if let Some(index) = text.strip_prefix('$').and_then(|index| index.parse::<usize>().ok()) {
                *node = values[index].clone();
            }
        }
        Value::Array(items) => items.iter_mut().for_each(|item| put(item, values)),
        Value::Object(members) => members.values_mut().for_each(|member| put(member, values)),
        _ => {}
    }
}

/// Parses `text` and puts `values[i]` where the string `"$i"` stands.
fn fill(text: &str, values: &[Value]) -> Value {
    let mut document = parse(text);
    put(&mut document, values);
    document
}

fn json(value: &Value) -> Json {
    match value {
        Value::Null => Json::Null,
        Value::Bool(flag) => Json::Bool(*flag),
        Value::Number(number) => match (number.as_u64(), number.as_i64()) {
            (Some(n), _) => Json::Unsigned(n),
            (None, Some(n)) => Json::Negative(n),
            (None, None) => Json::Decimal(number.to_string()),
        },
        Value::String(text) => Json::Str(text.clone()),
        Value::Array(items) => Json::Array(items.iter().map(json).collect()),
        Value::Object(members) => {
            Json::Object(members.iter().map(|(key, member)| (key.clone(), json(member))).collect())
        }
    }
}

/// The `pushdownRequest` of a request.
fn pd(request: &Value) -> Value {
    request["pushdownRequest"].clone()
}

fn table_map(request: &Value) -> Vec<(String, String)> {
    let notes = parse(request["schemaMetadataInfo"]["adapterNotes"].as_str().unwrap_or("{}"));
    notes["TABLE_MAP"].as_object().map_or(Vec::new(), |map| {
        map.iter()
            .map(|(table, identifier)| {
                (table.clone(), identifier.as_str().expect("an identifier").to_string())
            })
            .collect()
    })
}

fn detect_join(request: &Value, pushdown_req: &Value) -> Result<JoinShape, UserError> {
    lakehouse_engine::joins::planning::detect_join(&json(pushdown_req), &table_map(request))
}

fn detected_join(request: &Value) -> DetectedJoin {
    match detect_join(request, &pd(request)).expect("detected join shape") {
        JoinShape::Join(join) => join,
        other => panic!("expected Join, got {other:?}"),
    }
}

fn sample_storage() -> StorageBackend {
    StorageBackend::S3(StorageProps {
        endpoint: "http://minio:9000".to_string(),
        region: "us-east-1".to_string(),
        access_key: "minioadmin".to_string(),
        secret_key: "minioadmin".to_string(),
        allow_http: true,
        path_style: true,
    })
}

fn resolved_scan(table_name: &str, files: Vec<(&str, u64)>) -> ResolvedScan {
    ResolvedScan {
        files: files.into_iter().map(|(path, size)| FileEntry::new(path, size)).collect(),
        effective_storage: sample_storage(),
        logical_schema: vec![LogicalField {
            field_id: Some(1),
            name: format!("{table_name}_KEY"),
            arrow_type: "int64".to_string(),
            nullable: false,
            initial_default: None,
            physical_name: None,
        }],
        table_root: format!("s3://warehouse/lh/{}", table_name.to_lowercase()),
        name_mapping: Vec::new(),
        partition_columns: Vec::new(),
        refused_columns: Vec::new(),
    }
}

fn resolved_side(table_name: &str, files: Vec<(&str, u64)>) -> ResolvedJoinSide {
    ResolvedJoinSide::new(
        table_name.to_string(),
        format!("lh.{}", table_name.to_lowercase()),
        resolved_scan(table_name, files),
    )
}

/// A self-join of `FACT_ORDERS` with one occurrence for each alias, joined left to right on
/// `O_ORDERKEY`.
fn self_join_request(aliases: &[Option<&str>]) -> Value {
    let leaf = |alias: &Option<&str>| {
        let mut node = parse(r#"{"name": "FACT_ORDERS", "type": "table"}"#);
        if let Some(alias) = alias {
            node["alias"] = Value::from(*alias);
        }
        node
    };
    let column = |alias: &Option<&str>, name: &str| {
        let mut node = parse(r#"{"type": "column", "tableName": "FACT_ORDERS"}"#);
        node["name"] = Value::from(name);
        if let Some(alias) = alias {
            node["tableAlias"] = Value::from(*alias);
        }
        node
    };
    let mut from = leaf(&aliases[0]);
    for index in 1..aliases.len() {
        from = fill(
            r#"{"type": "join", "join_type": "inner", "left": "$0", "right": "$1",
                "condition": {"type": "predicate_equal", "left": "$2", "right": "$3"}}"#,
            &[
                from,
                leaf(&aliases[index]),
                column(&aliases[index - 1], "O_ORDERKEY"),
                column(&aliases[index], "O_ORDERKEY"),
            ],
        );
    }
    fill(
        r#"{
        "involvedTables": [{"name": "FACT_ORDERS", "columns": [
            {"name": "O_ORDERKEY", "dataType": {"type": "decimal", "precision": 20, "scale": 0}},
            {"name": "O_CUSTKEY", "dataType": {"type": "decimal", "precision": 20, "scale": 0}}]}],
        "pushdownRequest": {"type": "select", "from": "$0", "selectList": ["$1"]},
        "schemaMetadataInfo": {"properties": {},
            "adapterNotes": "{\"TABLE_MAP\":{\"FACT_ORDERS\":\"lh.fact_orders\"}}"}
    }"#,
        &[from, column(&aliases[0], "O_ORDERKEY")],
    )
}

/// Build a two-table-join pushdown request. `from_extra` is spliced into the `from` object
/// (e.g. to swap `join_type`, drop a field, or corrupt a side), and `condition` becomes the
/// join's `condition` node.
fn join_request(from_extra: Value, condition: Value) -> Value {
    let mut from = parse(r#"{
        "type": "join",
        "join_type": "inner",
        "left": {"name": "CUSTOMER", "type": "table"},
        "right": {"name": "ORDERS", "type": "table"}
    }"#);
    if let Value::Object(extra) = from_extra {
        from.as_object_mut().unwrap().extend(extra);
    }
    from["condition"] = condition;

    fill(r#"{
        "involvedTables": [
            {
                "name": "CUSTOMER",
                "columns": [
                    {"name": "C_CUSTKEY", "dataType": {"type": "decimal", "precision": 20, "scale": 0}},
                    {"name": "C_NAME", "dataType": {"type": "varchar", "size": 100}}
                ]
            },
            {
                "name": "ORDERS",
                "columns": [
                    {"name": "O_CUSTKEY", "dataType": {"type": "decimal", "precision": 20, "scale": 0}},
                    {"name": "O_ORDERDATE", "dataType": {"type": "date"}}
                ]
            }
        ],
        "pushdownRequest": {
            "type": "select",
            "from": "$0",
            "selectList": [
                {"type": "column", "name": "C_NAME", "tableName": "CUSTOMER"},
                {"type": "column", "name": "O_ORDERDATE", "tableName": "ORDERS"}
            ]
        },
        "schemaMetadataInfo": {
            "properties": {},
            "adapterNotes": "$1"
        }
    }"#, &[to_value(&from).unwrap(), to_value(&parse(r#"{
                "TABLE_MAP": {"CUSTOMER": "lh.customer", "ORDERS": "lh.orders"}
            }"#).to_string()).unwrap()])
}

/// The standard equi-join condition: `CUSTOMER.C_CUSTKEY = ORDERS.O_CUSTKEY`.
fn equi_condition() -> Value {
    parse(r#"{
        "type": "predicate_equal",
        "left": {"type": "column", "name": "C_CUSTKEY", "tableName": "CUSTOMER"},
        "right": {"type": "column", "name": "O_CUSTKEY", "tableName": "ORDERS"}
    }"#)
}

/// A three-table inner-join pushdown request: `(CUSTOMER ⋈ ORDERS) ⋈ LINEITEM`, all three in
/// `TABLE_MAP`. Leaves in stable tree order CUSTOMER, ORDERS, LINEITEM; two join conditions
/// (`C_CUSTKEY=O_CUSTKEY`, `O_ORDERKEY=L_ORDERKEY`).
fn three_table_join_request() -> Value {
    fill(r#"{
        "involvedTables": [
            {"name": "CUSTOMER", "columns": [
                {"name": "C_CUSTKEY", "dataType": {"type": "decimal", "precision": 20, "scale": 0}},
                {"name": "C_NAME", "dataType": {"type": "varchar", "size": 100}}]},
            {"name": "ORDERS", "columns": [
                {"name": "O_ORDERKEY", "dataType": {"type": "decimal", "precision": 20, "scale": 0}},
                {"name": "O_CUSTKEY", "dataType": {"type": "decimal", "precision": 20, "scale": 0}}]},
            {"name": "LINEITEM", "columns": [
                {"name": "L_ORDERKEY", "dataType": {"type": "decimal", "precision": 20, "scale": 0}},
                {"name": "L_QUANTITY", "dataType": {"type": "decimal", "precision": 15, "scale": 2}}]}
        ],
        "pushdownRequest": {
            "type": "select",
            "from": {"type": "join", "join_type": "inner",
                "left": {"type": "join", "join_type": "inner",
                    "left": {"name": "CUSTOMER", "type": "table"},
                    "right": {"name": "ORDERS", "type": "table"},
                    "condition": {"type": "predicate_equal",
                        "left": {"type": "column", "name": "C_CUSTKEY", "tableName": "CUSTOMER"},
                        "right": {"type": "column", "name": "O_CUSTKEY", "tableName": "ORDERS"}}},
                "right": {"name": "LINEITEM", "type": "table"},
                "condition": {"type": "predicate_equal",
                    "left": {"type": "column", "name": "O_ORDERKEY", "tableName": "ORDERS"},
                    "right": {"type": "column", "name": "L_ORDERKEY", "tableName": "LINEITEM"}}},
            "selectList": [
                {"type": "column", "name": "C_NAME", "tableName": "CUSTOMER"},
                {"type": "column", "name": "L_QUANTITY", "tableName": "LINEITEM"}]
        },
        "schemaMetadataInfo": {"properties": {}, "adapterNotes":
            "$0"}
    }"#, &[to_value(&parse(r#"{"TABLE_MAP":
                {"CUSTOMER": "lh.customer", "ORDERS": "lh.orders", "LINEITEM": "lh.lineitem"}}"#)
                .to_string()).unwrap()])
}

/// The NQ3-shape four-table inner-join pushdown request: `((PART ⋈ PARTSUPP) ⋈ SUPPLIER) ⋈
/// NATION`, all four in `TABLE_MAP`. Leaves in stable tree order PART, PARTSUPP, SUPPLIER,
/// NATION; three join conditions.
fn nq3_join_request() -> Value {
    fill(r#"{
        "involvedTables": [
            {"name": "PART", "columns": [
                {"name": "P_PARTKEY", "dataType": {"type": "decimal", "precision": 20, "scale": 0}},
                {"name": "P_NAME", "dataType": {"type": "varchar", "size": 100}}]},
            {"name": "PARTSUPP", "columns": [
                {"name": "PS_PARTKEY", "dataType": {"type": "decimal", "precision": 20, "scale": 0}},
                {"name": "PS_SUPPKEY", "dataType": {"type": "decimal", "precision": 20, "scale": 0}},
                {"name": "PS_AVAILQTY", "dataType": {"type": "decimal", "precision": 15, "scale": 0}}]},
            {"name": "SUPPLIER", "columns": [
                {"name": "S_SUPPKEY", "dataType": {"type": "decimal", "precision": 20, "scale": 0}},
                {"name": "S_NATIONKEY", "dataType": {"type": "decimal", "precision": 20, "scale": 0}}]},
            {"name": "NATION", "columns": [
                {"name": "N_NATIONKEY", "dataType": {"type": "decimal", "precision": 20, "scale": 0}},
                {"name": "N_NAME", "dataType": {"type": "varchar", "size": 100}}]}
        ],
        "pushdownRequest": {
            "type": "select",
            "from": {"type": "join", "join_type": "inner",
                "left": {"type": "join", "join_type": "inner",
                    "left": {"type": "join", "join_type": "inner",
                        "left": {"name": "PART", "type": "table"},
                        "right": {"name": "PARTSUPP", "type": "table"},
                        "condition": {"type": "predicate_equal",
                            "left": {"type": "column", "name": "P_PARTKEY", "tableName": "PART"},
                            "right": {"type": "column", "name": "PS_PARTKEY", "tableName": "PARTSUPP"}}},
                    "right": {"name": "SUPPLIER", "type": "table"},
                    "condition": {"type": "predicate_equal",
                        "left": {"type": "column", "name": "PS_SUPPKEY", "tableName": "PARTSUPP"},
                        "right": {"type": "column", "name": "S_SUPPKEY", "tableName": "SUPPLIER"}}},
                "right": {"name": "NATION", "type": "table"},
                "condition": {"type": "predicate_equal",
                    "left": {"type": "column", "name": "S_NATIONKEY", "tableName": "SUPPLIER"},
                    "right": {"type": "column", "name": "N_NATIONKEY", "tableName": "NATION"}}},
            "selectList": [
                {"type": "column", "name": "P_NAME", "tableName": "PART"},
                {"type": "column", "name": "PS_AVAILQTY", "tableName": "PARTSUPP"},
                {"type": "column", "name": "N_NAME", "tableName": "NATION"}]
        },
        "schemaMetadataInfo": {"properties": {}, "adapterNotes":
            "$0"}
    }"#, &[to_value(&parse(r#"{"TABLE_MAP": {
                "PART": "lh.part", "PARTSUPP": "lh.partsupp",
                "SUPPLIER": "lh.supplier", "NATION": "lh.nation"}}"#)
                .to_string()).unwrap()])
}

/// A request over one table, without a `from` clause.
fn nq4_request() -> Value {
    parse(
        r#"{
        "involvedTables": [{"name": "LINEITEM", "columns": [
            {"name": "L_ORDERKEY", "dataType": {"type": "decimal", "precision": 20, "scale": 0}}]}],
        "pushdownRequest": {"type": "select", "selectList": [
            {"type": "column", "name": "L_ORDERKEY", "tableName": "LINEITEM"}]},
        "schemaMetadataInfo": {"properties": {},
            "adapterNotes": "{\"TABLE_MAP\":{\"LINEITEM\":\"lh.lineitem\"}}"}
    }"#,
    )
}

fn leaf_keys(join: &DetectedJoin) -> Vec<(&str, Option<&str>)> {
    join.tables
        .iter()
        .map(|leaf| (leaf.table_name.as_str(), leaf.table_alias.as_deref()))
        .collect()
}

const BROADCAST_MAX: u64 = 134_217_728;

/// A two-table inner equi-join is detected with both identifiers from TABLE_MAP.
#[test]
fn planning_tests_genuine_inner_equi_join_is_detected_with_both_idents() {
    let request = join_request(Value::Null, equi_condition());
    let pushdown_req = pd(&request);

    let shape = detect_join(&request, &pushdown_req).expect("TABLE_MAP has both tables");
    match shape {
        JoinShape::Join(join) => {
            assert_eq!(join.tables.len(), 2);
            assert_eq!(join.tables[0].table_name, "CUSTOMER");
            assert_eq!(join.tables[1].table_name, "ORDERS");
            assert_eq!(join.tables[0].table_identifier, "lh.customer");
            assert_eq!(join.tables[1].table_identifier, "lh.orders");
            assert_eq!(join.conditions, vec![json(&equi_condition())]);
        }
        other => panic!("expected Join, got {other:?}"),
    }
}

/// A request with no from field is not a join.
#[test]
fn planning_tests_plain_single_table_request_is_not_a_join() {
    let request = nq4_request();
    let shape = detect_join(&request, &pd(&request)).expect("not a join, no TABLE_MAP lookup");
    assert_eq!(shape, JoinShape::NotAJoin);
}

/// A from clause that is a plain table reference is not a join.
#[test]
fn planning_tests_from_table_node_is_not_a_join() {
    let mut request = nq4_request();
    request["pushdownRequest"]["from"] = parse(r#"{"name": "LINEITEM", "type": "table"}"#);
    let shape = detect_join(&request, &pd(&request)).expect("not a join");
    assert_eq!(shape, JoinShape::NotAJoin);
}

/// Outer joins are ineligible.
#[test]
fn planning_tests_outer_join_is_ineligible() {
    for outer in ["left_outer", "right_outer", "full_outer"] {
        let request = join_request(fill(r#"{"join_type": "$0"}"#, &[to_value(&outer).unwrap()]), equi_condition());
        let shape = detect_join(&request, &pd(&request)).expect("shape decline, no Err");
        assert_eq!(
            shape,
            JoinShape::Ineligible(IneligibleJoinReason::NotInnerJoinType),
            "join_type '{outer}' must be ineligible, not broadcast-eligible"
        );
    }
}

/// A non-equi two-table inner join is served by the unified fallback.
#[test]
fn planning_tests_non_equi_two_table_join_is_served_by_unified_fallback() {
    let condition = parse(r#"{
        "type": "predicate_less",
        "left": {"type": "column", "name": "C_CUSTKEY", "tableName": "CUSTOMER"},
        "right": {"type": "column", "name": "O_CUSTKEY", "tableName": "ORDERS"}
    }"#);
    let request = join_request(Value::Null, condition.clone());
    match detect_join(&request, &pd(&request)).expect("served, not declined") {
        JoinShape::Join(join) => {
            assert_eq!(join.tables.len(), 2);
            assert_eq!(join.conditions, vec![json(&condition)]);
        }
        other => panic!("expected Join (unified fallback), got {other:?}"),
    }
}

/// A three-table inner join is the unified Join shape.
#[test]
fn planning_tests_three_table_inner_join_is_unified_join() {
    let request = three_table_join_request();
    let shape = detect_join(&request, &pd(&request)).expect("all leaves are in TABLE_MAP");
    match shape {
        JoinShape::Join(join) => {
            let names: Vec<&str> = join.tables.iter().map(|t| t.table_name.as_str()).collect();
            assert_eq!(names, ["CUSTOMER", "ORDERS", "LINEITEM"]);
            let idents: Vec<&str> = join
                .tables
                .iter()
                .map(|t| t.table_identifier.as_str())
                .collect();
            assert_eq!(idents, ["lh.customer", "lh.orders", "lh.lineitem"]);
            assert_eq!(join.conditions.len(), 2, "N-1 conditions for N=3 tables");
        }
        other => panic!("expected Join, got {other:?}"),
    }
}

/// A non-inner join node anywhere in the tree is ineligible.
#[test]
fn planning_tests_non_inner_node_in_join_tree_is_ineligible() {
    let mut request = three_table_join_request();
    request["pushdownRequest"]["from"]["left"]["join_type"] = parse(r#""left_outer""#);
    let shape = detect_join(&request, &pd(&request)).expect("shape decline, no Err");
    assert_eq!(
        shape,
        JoinShape::Ineligible(IneligibleJoinReason::NotInnerJoinType)
    );
}

/// A multi-table leaf absent from TABLE_MAP is a hard error.
#[test]
fn planning_tests_multi_table_leaf_absent_from_table_map_is_err() {
    let mut request = three_table_join_request();
    request["schemaMetadataInfo"]["adapterNotes"] = Value::from(
        parse(r#"{"TABLE_MAP": {"CUSTOMER": "lh.customer", "ORDERS": "lh.orders"}}"#)
            .to_string(),
    );
    let err = detect_join(&request, &pd(&request))
        .expect_err("LINEITEM is absent from TABLE_MAP: must be Err, not a decline");
    assert!(
        err.message.contains("LINEITEM"),
        "error must name the unmapped table: {err:?}"
    );
}

/// A four-table inner join is the unified Join shape.
#[test]
fn planning_tests_four_table_inner_join_is_unified_join() {
    let request = nq3_join_request();
    let shape = detect_join(&request, &pd(&request)).expect("all leaves are in TABLE_MAP");
    match shape {
        JoinShape::Join(join) => {
            let names: Vec<&str> = join.tables.iter().map(|t| t.table_name.as_str()).collect();
            assert_eq!(names, ["PART", "PARTSUPP", "SUPPLIER", "NATION"]);
            let idents: Vec<&str> = join
                .tables
                .iter()
                .map(|t| t.table_identifier.as_str())
                .collect();
            assert_eq!(
                idents,
                ["lh.part", "lh.partsupp", "lh.supplier", "lh.nation"]
            );
            assert_eq!(join.conditions.len(), 3, "N-1 conditions for N=4 tables");
        }
        other => panic!("expected Join, got {other:?}"),
    }
}

/// Detection follows the from tree, not the involvedTables count.
#[test]
fn planning_tests_detect_join_follows_from_tree_not_involved_tables_count() {
    let mut request = join_request(Value::Null, equi_condition());
    request["involvedTables"].as_array_mut().unwrap().push(parse(r#"{
        "name": "NATION",
        "columns": [{"name": "N_NATIONKEY", "dataType": {"type": "decimal", "precision": 20, "scale": 0}}]
    }"#));
    match detect_join(&request, &pd(&request)).expect("tree-driven, no decline") {
        JoinShape::Join(join) => {
            let names: Vec<&str> = join.tables.iter().map(|t| t.table_name.as_str()).collect();
            assert_eq!(names, ["CUSTOMER", "ORDERS"], "only the from-tree leaves");
        }
        other => panic!("expected Join over the two from-tree tables, got {other:?}"),
    }
}

/// A join whose table is absent from TABLE_MAP is a hard error, not a decline.
#[test]
fn planning_tests_join_with_unmapped_table_is_an_error() {
    let mut request = join_request(Value::Null, equi_condition());
    request["schemaMetadataInfo"]["adapterNotes"] =
        Value::from(parse(r#"{"TABLE_MAP": {"CUSTOMER": "lh.customer"}}"#).to_string());
    let err = detect_join(&request, &pd(&request))
        .expect_err("ORDERS is absent from TABLE_MAP: must be Err, not a decline");
    assert!(
        err.message.contains("ORDERS"),
        "error must name the unmapped table: {err:?}"
    );
}

/// A two-leg self-join's leaves carry their own aliases.
#[test]
fn two_leg_self_join_leaves_carry_their_own_aliases() {
    let request = self_join_request(&[Some("A"), Some("B")]);
    let join = detected_join(&request);

    assert_eq!(
        leaf_keys(&join),
        [("FACT_ORDERS", Some("A")), ("FACT_ORDERS", Some("B"))]
    );
    assert_eq!(
        join.tables[0].table_identifier, join.tables[1].table_identifier,
        "both occurrences resolve to the same catalog table"
    );
}

/// An unaliased self-join leg collects None and stays distinct.
#[test]
fn unaliased_self_join_leg_collects_none_and_stays_distinct() {
    let request = self_join_request(&[None, Some("B")]);
    let join = detected_join(&request);

    let keys = leaf_keys(&join);
    assert_eq!(keys, [("FACT_ORDERS", None), ("FACT_ORDERS", Some("B"))]);
    assert_ne!(keys[0], keys[1], "the two legs must remain distinguishable");
}

/// A mixed-case leaf alias is retained verbatim.
#[test]
fn mixed_case_leaf_alias_is_retained_verbatim() {
    let request = self_join_request(&[Some("myAlias"), Some("B")]);
    let join = detected_join(&request);

    assert_eq!(join.tables[0].table_alias.as_deref(), Some("myAlias"));
}

/// A three-leg left-deep self-join collects one aliased leaf per occurrence.
#[test]
fn three_leg_left_deep_self_join_collects_one_aliased_leaf_per_occurrence() {
    let request = self_join_request(&[Some("A"), Some("B"), Some("C")]);
    let join = detected_join(&request);

    assert_eq!(
        leaf_keys(&join),
        [
            ("FACT_ORDERS", Some("A")),
            ("FACT_ORDERS", Some("B")),
            ("FACT_ORDERS", Some("C")),
        ]
    );
    assert_eq!(join.conditions.len(), 2, "N-1 conditions for N=3 legs");
}

/// An unaliased two-table join's leaves carry no alias.
#[test]
fn unaliased_two_table_join_leaves_carry_no_alias() {
    let request = join_request(Value::Null, equi_condition());
    let join = detected_join(&request);

    assert_eq!(leaf_keys(&join), [("CUSTOMER", None), ("ORDERS", None)]);
}

/// A side's total bytes is the saturating sum of its file sizes.
#[test]
fn planning_tests_resolved_side_sums_file_bytes_saturating() {
    assert_eq!(
        resolved_side("ORDERS", vec![("a", 100), ("b", 250), ("c", 4)]).total_bytes,
        354
    );
    assert_eq!(resolved_side("EMPTY", vec![]).total_bytes, 0);
    assert_eq!(
        resolved_side("HUGE", vec![("x", u64::MAX), ("y", 1)]).total_bytes,
        u64::MAX
    );
}

/// The smaller left side is the dimension and carries its resolved payload.
#[test]
fn planning_tests_dimension_is_left_when_left_side_is_smaller() {
    let customer = resolved_side("CUSTOMER", vec![("c1", 1_000)]);
    let orders = resolved_side("ORDERS", vec![("o1", 50_000), ("o2", 50_000)]);
    let sides = select_broadcast_sides(customer, orders, BROADCAST_MAX);

    assert_eq!(sides.dimension.table_name, "CUSTOMER");
    assert_eq!(sides.fact.table_name, "ORDERS");
    assert_eq!(sides.dimension.total_bytes, 1_000);
    assert_eq!(sides.fact.total_bytes, 100_000);
    assert!(
        sides.broadcast_eligible,
        "1000 bytes is well under the 128 MiB threshold"
    );
    assert_eq!(sides.dimension.table_identifier, "lh.customer");
    assert_eq!(sides.fact.table_identifier, "lh.orders");
    assert_eq!(sides.dimension.files, vec![FileEntry::new("c1", 1_000)]);
    assert_eq!(sides.dimension.table_root, "s3://warehouse/lh/customer");
    assert_eq!(sides.dimension.logical_schema.len(), 1);
    assert_eq!(sides.dimension.effective_storage, sample_storage());
}

/// Selection is by byte size, not FROM-clause position.
#[test]
fn planning_tests_dimension_is_right_when_right_side_is_smaller() {
    let orders = resolved_side("ORDERS", vec![("o1", 50_000), ("o2", 50_000)]);
    let customer = resolved_side("CUSTOMER", vec![("c1", 1_000)]);
    let sides = select_broadcast_sides(orders, customer, BROADCAST_MAX);

    assert_eq!(sides.dimension.table_name, "CUSTOMER");
    assert_eq!(sides.fact.table_name, "ORDERS");
    assert_eq!(sides.dimension.total_bytes, 1_000);
    assert!(sides.broadcast_eligible);
}

/// A dimension over the threshold is not broadcast-eligible.
#[test]
fn planning_tests_dimension_over_threshold_is_not_broadcast_eligible() {
    let part = resolved_side("PART", vec![("p1", 200)]);
    let lineitem = resolved_side("LINEITEM", vec![("l1", 900)]);
    let sides = select_broadcast_sides(part, lineitem, 100);

    assert_eq!(
        sides.dimension.table_name, "PART",
        "PART (200 bytes) is the smaller side"
    );
    assert_eq!(sides.fact.table_name, "LINEITEM");
    assert!(
        !sides.broadcast_eligible,
        "dimension total 200 > threshold 100: not broadcast-eligible"
    );
}

/// The broadcast threshold boundary is inclusive.
#[test]
fn planning_tests_threshold_boundary_is_inclusive() {
    let at = select_broadcast_sides(
        resolved_side("DIM", vec![("d", 100)]),
        resolved_side("FACT", vec![("f", 10_000)]),
        100,
    );
    assert!(
        at.broadcast_eligible,
        "dimension == threshold must be eligible"
    );

    let over = select_broadcast_sides(
        resolved_side("DIM", vec![("d", 101)]),
        resolved_side("FACT", vec![("f", 10_000)]),
        100,
    );
    assert!(
        !over.broadcast_eligible,
        "dimension == threshold + 1 must not be eligible"
    );
}

/// An empty side is the eligible dimension.
#[test]
fn planning_tests_empty_side_is_the_eligible_dimension() {
    let empty = resolved_side("EMPTYDIM", vec![]);
    let fact = resolved_side("FACT", vec![("f", 5_000)]);
    let sides = select_broadcast_sides(empty, fact, BROADCAST_MAX);

    assert_eq!(sides.dimension.table_name, "EMPTYDIM");
    assert_eq!(sides.dimension.total_bytes, 0);
    assert!(sides.dimension.files.is_empty());
    assert!(sides.broadcast_eligible);
}

/// An exact byte-size tie breaks to the first argument.
#[test]
fn planning_tests_equal_size_tie_breaks_to_first_argument() {
    let a = resolved_side("SELF_A", vec![("s", 4_242)]);
    let b = resolved_side("SELF_B", vec![("s", 4_242)]);
    let sides = select_broadcast_sides(a, b, BROADCAST_MAX);

    assert_eq!(sides.dimension.table_name, "SELF_A");
    assert_eq!(sides.fact.table_name, "SELF_B");
    assert_eq!(sides.dimension.total_bytes, sides.fact.total_bytes);
}

#[test]
fn joins_genuine_inner_equi_join_is_detected_with_both_idents() {
    planning_tests_genuine_inner_equi_join_is_detected_with_both_idents();
}

#[test]
fn joins_plain_single_table_request_is_not_a_join() {
    planning_tests_plain_single_table_request_is_not_a_join();
}

#[test]
fn joins_from_table_node_is_not_a_join() {
    planning_tests_from_table_node_is_not_a_join();
}

#[test]
fn joins_outer_join_is_ineligible() {
    planning_tests_outer_join_is_ineligible();
}

#[test]
fn joins_non_equi_two_table_join_is_served_by_unified_fallback() {
    planning_tests_non_equi_two_table_join_is_served_by_unified_fallback();
}

#[test]
fn joins_three_table_inner_join_is_unified_join() {
    planning_tests_three_table_inner_join_is_unified_join();
}

#[test]
fn joins_non_inner_node_in_join_tree_is_ineligible() {
    planning_tests_non_inner_node_in_join_tree_is_ineligible();
}

#[test]
fn joins_multi_table_leaf_absent_from_table_map_is_err() {
    planning_tests_multi_table_leaf_absent_from_table_map_is_err();
}

#[test]
fn joins_four_table_inner_join_is_unified_join() {
    planning_tests_four_table_inner_join_is_unified_join();
}

#[test]
fn joins_detect_join_follows_from_tree_not_involved_tables_count() {
    planning_tests_detect_join_follows_from_tree_not_involved_tables_count();
}

#[test]
fn joins_join_with_unmapped_table_is_an_error() {
    planning_tests_join_with_unmapped_table_is_an_error();
}

#[test]
fn joins_resolved_side_sums_file_bytes_saturating() {
    planning_tests_resolved_side_sums_file_bytes_saturating();
}

#[test]
fn joins_dimension_is_left_when_left_side_is_smaller() {
    planning_tests_dimension_is_left_when_left_side_is_smaller();
}

#[test]
fn joins_dimension_is_right_when_right_side_is_smaller() {
    planning_tests_dimension_is_right_when_right_side_is_smaller();
}

#[test]
fn joins_dimension_over_threshold_is_not_broadcast_eligible() {
    planning_tests_dimension_over_threshold_is_not_broadcast_eligible();
}

#[test]
fn joins_threshold_boundary_is_inclusive() {
    planning_tests_threshold_boundary_is_inclusive();
}

#[test]
fn joins_empty_side_is_the_eligible_dimension() {
    planning_tests_empty_side_is_the_eligible_dimension();
}

#[test]
fn joins_equal_size_tie_breaks_to_first_argument() {
    planning_tests_equal_size_tie_breaks_to_first_argument();
}

/// A non-empty schema quote-qualifies the UDF name; an empty string or `None` (the handshake's
/// own no-schema case) falls back to the bare, unqualified name with no new conditional.
#[test]
fn joins_tests_qualify_udf_uses_schema_and_falls_back_when_empty() {
    assert_eq!(qualify_udf(Some("schema"), "UDF"), "\"schema\".UDF");
    assert_eq!(qualify_udf(Some(""), "UDF"), "UDF");
    assert_eq!(qualify_udf(None, "UDF"), "UDF");
}

#[test]
fn golden_ineligible_decline_message_unchanged() {
    let not_inner = ineligible_join_decline(IneligibleJoinReason::NotInnerJoinType).message;
    let unsupported = ineligible_join_decline(IneligibleJoinReason::UnsupportedShape).message;
    assert_eq!(
        not_inner,
        "join pushdown declined: the join is not an inner join; the adapter cannot render this join shape, so this is a hard error, not a native re-plan"
    );
    assert_eq!(
        unsupported,
        "join pushdown declined: the join `from` clause has an unsupported shape; the adapter cannot render this join shape, so this is a hard error, not a native re-plan"
    );
}

#[test]
fn joins_qualify_udf_uses_schema_and_falls_back_when_empty() {
    joins_tests_qualify_udf_uses_schema_and_falls_back_when_empty();
}

#[test]
fn a_from_clause_of_an_unknown_shape_is_ineligible() {
    let mut request = join_request(Value::Null, equi_condition());
    request["pushdownRequest"]["from"]["right"] = parse(r#"{"type": "subquery"}"#);

    assert_eq!(
        detect_join(&request, &pd(&request)).expect("shape decline, no Err"),
        JoinShape::Ineligible(IneligibleJoinReason::UnsupportedShape)
    );
}

#[test]
fn a_join_without_a_condition_is_ineligible() {
    let mut request = join_request(Value::Null, equi_condition());
    request["pushdownRequest"]["from"].as_object_mut().unwrap().remove("condition");

    assert_eq!(
        detect_join(&request, &pd(&request)).expect("shape decline, no Err"),
        JoinShape::Ineligible(IneligibleJoinReason::UnsupportedShape)
    );
}

#[test]
fn the_roles_of_two_sides_do_not_depend_on_their_order() {
    let small = || resolved_side("SMALL", vec![("a", 10)]);
    let large = || resolved_side("LARGE", vec![("b", 20)]);

    assert_eq!(
        select_broadcast_sides(small(), large(), 15),
        select_broadcast_sides(large(), small(), 15)
    );
}
