//! Which occurrence of a table a column belongs to.

use lakehouse_engine::joins::attribution::{ColumnLeg, JoinLegs};
use lakehouse_engine::joins::planning::JoinLeaf;
use lakehouse_engine::json::Json;
use serde_json::Value;
use std::collections::BTreeSet;

fn json(value: &Value) -> Json {
    match value {
        Value::Null => Json::Null,
        Value::Bool(flag) => Json::Bool(*flag),
        Value::Number(number) => match (number.as_u64(), number.as_i64()) {
            (Some(n), _) => Json::Unsigned(n),
            (None, Some(n)) => Json::Negative(n),
            (None, None) => Json::Decimal(number.to_string()),
        },
        Value::String(text) => Json::Str(text.clone()),
        Value::Array(items) => Json::Array(items.iter().map(json).collect()),
        Value::Object(members) => {
            Json::Object(members.iter().map(|(key, member)| (key.clone(), json(member))).collect())
        }
    }
}

fn parse(text: &str) -> Json {
    json(&serde_json::from_str(text).expect("valid JSON"))
}

fn resolve(legs: &JoinLegs, node: &Json) -> ColumnLeg {
    match node {
        Json::Object(members) => legs.resolve_column(members),
        other => panic!("a column node is a JSON object, not {other:?}"),
    }
}

fn alias_of(node: &Json) -> Option<&str> {
    node.get_str("tableAlias")
}

fn leaf(table_name: &str, table_alias: Option<&str>) -> JoinLeaf {
    JoinLeaf {
        table_name: table_name.to_string(),
        table_alias: table_alias.map(str::to_string),
        table_identifier: format!("lh.{}", table_name.to_ascii_lowercase()),
    }
}

fn column(table_name: &str, table_alias: Option<&str>, name: &str) -> Json {
    let mut members = vec![
        ("type".to_string(), Json::Str("column".to_string())),
        ("name".to_string(), Json::Str(name.to_string())),
        ("tableName".to_string(), Json::Str(table_name.to_string())),
    ];
    if let Some(alias) = table_alias {
        members.push(("tableAlias".to_string(), Json::Str(alias.to_string())));
    }
    Json::Object(members)
}

fn literal(value: i64) -> Json {
    Json::Object(vec![
        ("type".to_string(), Json::Str("literal_exactnumeric".to_string())),
        ("value".to_string(), Json::Str(value.to_string())),
    ])
}

fn equal(left: Json, right: Json) -> Json {
    Json::Object(vec![
        ("type".to_string(), Json::Str("predicate_equal".to_string())),
        ("left".to_string(), left),
        ("right".to_string(), right),
    ])
}

/// `FROM FACT_ORDERS a JOIN FACT_ORDERS b`, both occurrences aliased.
fn self_join_legs() -> JoinLegs {
    JoinLegs::from_leaves(&vec![
        leaf("FACT_ORDERS", Some("A")),
        leaf("FACT_ORDERS", Some("B")),
    ])
}

/// `FROM CUSTOMER c JOIN ORDERS o`: no table occurs twice.
fn two_table_legs() -> JoinLegs {
    JoinLegs::from_leaves(&vec![leaf("CUSTOMER", Some("C")), leaf("ORDERS", Some("O"))])
}

#[test]
fn exact_table_name_and_alias_pair_selects_its_own_leg() {
    let legs = self_join_legs();

    let first = resolve(&legs, &column("FACT_ORDERS", Some("A"), "O_ORDERKEY"));
    let second = resolve(&legs, &column("FACT_ORDERS", Some("B"), "O_ORDERKEY"));

    assert_eq!(first, ColumnLeg::Leg(0));
    assert_eq!(second, ColumnLeg::Leg(1));
}

#[test]
fn absent_alias_is_a_distinct_leg_key() {
    let legs =
        JoinLegs::from_leaves(&vec![leaf("FACT_ORDERS", None), leaf("FACT_ORDERS", Some("B"))]);

    let unaliased = resolve(&legs, &column("FACT_ORDERS", None, "O_ORDERKEY"));
    let aliased = resolve(&legs, &column("FACT_ORDERS", Some("B"), "O_ORDERKEY"));

    assert_eq!(unaliased, ColumnLeg::Leg(0));
    assert_eq!(aliased, ColumnLeg::Leg(1));
}

#[test]
fn single_leg_table_name_resolves_without_consulting_an_alias() {
    let legs = two_table_legs();

    let no_alias = resolve(&legs, &column("CUSTOMER", None, "C_CUSTKEY"));
    let foreign_alias = resolve(&legs, &column("ORDERS", Some("STALE"), "O_CUSTKEY"));

    assert_eq!(no_alias, ColumnLeg::Leg(0));
    assert_eq!(foreign_alias, ColumnLeg::Leg(1));
}

#[test]
fn alias_matching_is_verbatim_not_case_folded() {
    let legs = JoinLegs::from_leaves(&vec![
        leaf("FACT_ORDERS", Some("myAlias")),
        leaf("FACT_ORDERS", Some("B")),
    ]);

    let verbatim = resolve(&legs, &column("FACT_ORDERS", Some("myAlias"), "O_ORDERKEY"));
    let folded = resolve(&legs, &column("FACT_ORDERS", Some("MYALIAS"), "O_ORDERKEY"));

    assert_eq!(verbatim, ColumnLeg::Leg(0));
    assert_eq!(folded, ColumnLeg::Unattributable);
}

#[test]
fn column_of_a_table_no_leg_declares_is_left_unqualified() {
    let legs = self_join_legs();
    let foreign = column("DIM_CUSTOMER", Some("C"), "C_CUSTKEY");

    let untagged = resolve(&legs, &parse(r#"{"type": "column", "name": "X"}"#));

    assert_eq!(resolve(&legs, &foreign), ColumnLeg::NoLeg);
    assert_eq!(untagged, ColumnLeg::NoLeg);
    assert_eq!(legs.qualify(&foreign).expect("no leg is not a failure"), foreign);
}

#[test]
fn unattributable_column_is_reported_rather_than_resolved() {
    let legs = self_join_legs();

    let no_alias = resolve(&legs, &column("FACT_ORDERS", None, "O_ORDERKEY"));
    let unknown_alias = resolve(&legs, &column("FACT_ORDERS", Some("Z"), "O_ORDERKEY"));

    assert_eq!(no_alias, ColumnLeg::Unattributable);
    assert_eq!(unknown_alias, ColumnLeg::Unattributable);
}

#[test]
fn qualify_tags_each_self_join_occurrence_with_its_own_leg_alias() {
    let legs = self_join_legs();
    let condition = equal(
        column("FACT_ORDERS", Some("A"), "O_ORDERKEY"),
        column("FACT_ORDERS", Some("B"), "O_ORDERKEY"),
    );

    let qualified = legs.qualify(&condition).expect("both occurrences resolve");

    assert_eq!(alias_of(qualified.get("left").unwrap()), Some("LHS_T0"));
    assert_eq!(alias_of(qualified.get("right").unwrap()), Some("LHS_T1"));
}

#[test]
fn qualify_overwrites_the_request_alias_and_leaves_the_input_untouched() {
    let legs = two_table_legs();
    let expr = column("ORDERS", Some("O"), "O_CUSTKEY");

    let qualified = legs.qualify(&expr).expect("resolves to its one leg");

    assert_eq!(alias_of(&qualified), Some("LHS_T1"));
    assert_eq!(alias_of(&expr), Some("O"));
    assert_eq!(qualified, column("ORDERS", Some("LHS_T1"), "O_CUSTKEY"));
}

#[test]
fn qualify_reaches_columns_nested_in_arrays_and_function_nodes() {
    let legs = self_join_legs();
    let expr = Json::Object(vec![
        ("type".to_string(), Json::Str("function_scalar".to_string())),
        ("name".to_string(), Json::Str("UPPER".to_string())),
        (
            "arguments".to_string(),
            Json::Array(vec![column("FACT_ORDERS", Some("B"), "O_COMMENT")]),
        ),
    ]);

    let qualified = legs.qualify(&expr).expect("the nested occurrence resolves");

    let arguments = qualified.get_array("arguments").unwrap();
    assert_eq!(alias_of(&arguments[0]), Some("LHS_T1"));
}

#[test]
fn qualify_fails_on_an_unattributable_column_naming_it() {
    let legs = self_join_legs();
    let expr = Json::Object(vec![
        ("type".to_string(), Json::Str("predicate_not".to_string())),
        ("expression".to_string(), column("FACT_ORDERS", None, "O_ORDERKEY")),
    ]);

    let err = legs.qualify(&expr).expect_err("no leg key matches");

    let message = err.describe();
    assert!(message.contains("O_ORDERKEY"), "{message}");
    assert!(message.contains("FACT_ORDERS"), "{message}");
}

#[test]
fn legs_referenced_reports_every_leg_a_tree_touches() {
    let legs = self_join_legs();
    let condition = equal(
        column("FACT_ORDERS", Some("A"), "O_ORDERKEY"),
        column("FACT_ORDERS", Some("B"), "O_ORDERKEY"),
    );

    let referenced = legs.legs_referenced(&condition);

    assert_eq!(referenced.legs, BTreeSet::from([0, 1]));
    assert!(!referenced.has_unattributed);
    assert!(referenced.any_column);
}

#[test]
fn legs_referenced_flags_an_unattributed_column() {
    let legs = self_join_legs();
    let conjunct = equal(column("FACT_ORDERS", None, "O_ORDERKEY"), literal(7));

    let referenced = legs.legs_referenced(&conjunct);

    assert!(referenced.has_unattributed);
    assert!(referenced.any_column);
    assert!(referenced.legs.is_empty());
}

#[test]
fn legs_referenced_flags_a_column_free_expression() {
    let legs = self_join_legs();

    let referenced = legs.legs_referenced(&equal(literal(1), literal(1)));

    assert!(!referenced.any_column);
    assert!(!referenced.has_unattributed);
    assert!(referenced.legs.is_empty());
}

#[test]
fn attachment_leg_is_the_highest_leg_a_cross_leg_condition_references() {
    let legs = JoinLegs::from_leaves(&vec![
        leaf("FACT_ORDERS", Some("A")),
        leaf("FACT_ORDERS", Some("B")),
        leaf("FACT_ORDERS", Some("C")),
    ]);
    let condition = equal(
        column("FACT_ORDERS", Some("A"), "O_ORDERKEY"),
        column("FACT_ORDERS", Some("C"), "O_ORDERKEY"),
    );

    assert_eq!(legs.attachment_leg(&condition), Some(2));
}

#[test]
fn attachment_leg_is_the_only_leg_a_single_leg_condition_references() {
    let legs = self_join_legs();
    let condition = equal(column("FACT_ORDERS", Some("B"), "O_ORDERKEY"), literal(7));

    assert_eq!(legs.attachment_leg(&condition), Some(1));
}

#[test]
fn attachment_leg_is_none_for_a_column_free_condition() {
    let legs = self_join_legs();

    assert_eq!(legs.attachment_leg(&equal(literal(1), literal(1))), None);
}

#[test]
fn attachment_leg_is_none_when_any_column_is_unattributed() {
    let legs = self_join_legs();
    let condition = equal(
        column("FACT_ORDERS", Some("B"), "O_ORDERKEY"),
        column("FACT_ORDERS", Some("Z"), "O_ORDERKEY"),
    );

    assert_eq!(legs.attachment_leg(&condition), None);
}

#[test]
fn conjunct_leg_is_the_single_leg_every_column_resolves_to() {
    let legs = self_join_legs();
    let conjunct = equal(column("FACT_ORDERS", Some("B"), "O_ORDERKEY"), literal(7));

    assert_eq!(legs.conjunct_leg(&conjunct), Some(1));
}

#[test]
fn conjunct_leg_is_none_for_a_cross_leg_unattributed_or_column_free_conjunct() {
    let legs = self_join_legs();
    let cross_leg = equal(
        column("FACT_ORDERS", Some("A"), "O_ORDERKEY"),
        column("FACT_ORDERS", Some("B"), "O_ORDERKEY"),
    );
    let unattributed = equal(column("FACT_ORDERS", None, "O_ORDERKEY"), literal(7));
    let foreign = equal(column("DIM_CUSTOMER", Some("C"), "C_CUSTKEY"), literal(7));

    assert_eq!(legs.conjunct_leg(&cross_leg), None);
    assert_eq!(legs.conjunct_leg(&unattributed), None);
    assert_eq!(legs.conjunct_leg(&foreign), None);
    assert_eq!(legs.conjunct_leg(&equal(literal(1), literal(1))), None);
}

#[test]
fn single_scan_binding_maps_every_involved_table_onto_leg_zero() {
    let request =
        parse(r#"{"involvedTables": [{"name": "FACT_ORDERS"}, {"name": "DIM_CUSTOMER"}]}"#);
    let legs = JoinLegs::for_single_scan(&request);

    let first = resolve(&legs, &column("FACT_ORDERS", Some("A"), "O_ORDERKEY"));
    let second = resolve(&legs, &column("DIM_CUSTOMER", None, "C_CUSTKEY"));
    let outsider = resolve(&legs, &column("SOMETHING_ELSE", None, "X"));
    let qualified = legs
        .qualify(&column("FACT_ORDERS", Some("A"), "O_ORDERKEY"))
        .expect("the single scan can never be unattributable");

    assert_eq!(legs.leg_count(), 1);
    assert_eq!(first, ColumnLeg::Leg(0));
    assert_eq!(second, ColumnLeg::Leg(0));
    assert_eq!(outsider, ColumnLeg::NoLeg);
    assert_eq!(alias_of(&qualified), Some("LHS_T0"));
}

#[test]
fn repeated_involved_table_still_collapses_onto_leg_zero() {
    let request =
        parse(r#"{"involvedTables": [{"name": "FACT_ORDERS"}, {"name": "FACT_ORDERS"}]}"#);
    let legs = JoinLegs::for_single_scan(&request);

    let resolved = resolve(&legs, &column("FACT_ORDERS", Some("A"), "O_ORDERKEY"));

    assert_eq!(resolved, ColumnLeg::Leg(0));
}

#[test]
fn single_scan_binding_without_involved_tables_qualifies_nothing() {
    let legs = JoinLegs::for_single_scan(&parse("{}"));
    let expr = column("FACT_ORDERS", Some("A"), "O_ORDERKEY");

    assert_eq!(resolve(&legs, &expr), ColumnLeg::NoLeg);
    assert_eq!(legs.qualify(&expr).expect("no leg is not a failure"), expr);
}

#[test]
fn leg_alias_is_the_wrapper_subquery_alias_of_that_leg() {
    let legs = JoinLegs::from_leaves(&vec![
        leaf("FACT_ORDERS", Some("A")),
        leaf("FACT_ORDERS", Some("B")),
        leaf("DIM_CUSTOMER", Some("C")),
    ]);

    assert_eq!(legs.leg_count(), 3);
    assert_eq!(legs.leg_alias(0), "LHS_T0");
    assert_eq!(legs.leg_alias(1), "LHS_T1");
    assert_eq!(legs.leg_alias(2), "LHS_T2");
}

#[test]
fn a_column_without_an_alias_is_tagged_after_its_other_members() {
    let legs = two_table_legs();
    let qualified = legs.qualify(&column("CUSTOMER", None, "C_NAME")).expect("one leg");

    assert_eq!(qualified, column("CUSTOMER", Some("LHS_T0"), "C_NAME"));
}

#[test]
fn table_names_match_whatever_their_ascii_case() {
    let legs = two_table_legs();

    assert_eq!(resolve(&legs, &column("customer", None, "C_NAME")), ColumnLeg::Leg(0));
}

#[test]
fn an_unattributable_column_is_described_with_its_table_and_alias() {
    let legs = self_join_legs();

    let unaliased = legs.qualify(&column("FACT_ORDERS", None, "O_ORDERKEY")).expect_err("two legs");
    let aliased =
        legs.qualify(&column("FACT_ORDERS", Some("Z"), "O_ORDERKEY")).expect_err("two legs");
    let nameless = legs
        .qualify(&parse(r#"{"type": "column", "tableName": "FACT_ORDERS"}"#))
        .expect_err("two legs");

    assert_eq!(
        unaliased.describe(),
        "column O_ORDERKEY of table FACT_ORDERS with no alias"
    );
    assert_eq!(
        aliased.describe(),
        "column O_ORDERKEY of table FACT_ORDERS with alias Z"
    );
    assert_eq!(
        nameless.describe(),
        "column <unnamed> of table FACT_ORDERS with no alias"
    );
}

#[test]
fn qualifying_twice_changes_nothing_where_each_table_has_one_leg() {
    let legs = two_table_legs();
    let condition = equal(column("CUSTOMER", Some("C"), "C_KEY"), column("orders", None, "O_KEY"));

    let once = legs.qualify(&condition).expect("each table has one leg");

    assert_eq!(alias_of(once.get("left").unwrap()), Some("LHS_T0"));
    assert_eq!(alias_of(once.get("right").unwrap()), Some("LHS_T1"));
    assert_eq!(legs.qualify(&once).expect("each table has one leg"), once);
}

#[test]
fn a_qualified_column_of_a_self_joined_table_is_unattributable() {
    let legs = self_join_legs();

    let once = legs.qualify(&column("FACT_ORDERS", Some("A"), "O_KEY")).expect("an exact pair");

    assert_eq!(once, column("FACT_ORDERS", Some("LHS_T0"), "O_KEY"));
    assert!(legs.qualify(&once).is_err());
}

#[test]
fn a_clone_of_the_legs_attributes_alike() {
    let legs = self_join_legs();
    let node = column("FACT_ORDERS", Some("B"), "O_KEY");

    assert_eq!(legs.clone().qualify(&node), legs.qualify(&node));
    assert_eq!(legs.legs_referenced(&node).clone(), legs.legs_referenced(&node));
    let refused = legs.qualify(&column("FACT_ORDERS", None, "O_KEY")).expect_err("two legs");
    assert_eq!(refused.clone(), refused);
}
