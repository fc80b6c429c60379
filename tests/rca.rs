use tesseract_rca::{
    calculate, compose_drilldowns, partition_cuts, plan, CutSql, DrilldownSql, LevelColumn,
    MeasureSql, MemberType, RcaError, RcaSql, Table, TableSql,
};

fn date_drill() -> DrilldownSql {
    DrilldownSql {
        foreign_key: "date_id".into(),
        primary_key: "date_id".into(),
        table: Table { name: "sales".into(), schema: None, primary_key: None },
        level_columns: vec![
            LevelColumn { key_column: "year".into(), name_column: None },
            LevelColumn { key_column: "month".into(), name_column: None },
            LevelColumn { key_column: "day".into(), name_column: None },
        ],
        property_columns: vec![],
    }
}

fn product_drill() -> DrilldownSql {
    DrilldownSql {
        foreign_key: "product_id".into(),
        primary_key: "product_id".into(),
        table: Table { name: "dim_products".into(), schema: None, primary_key: None },
        level_columns: vec![
            LevelColumn {
                key_column: "product_group_id".into(),
                name_column: Some("product_group_label".into()),
            },
            LevelColumn {
                key_column: "product_id_raw".into(),
                name_column: Some("product_label".into()),
            },
        ],
        property_columns: vec![],
    }
}

fn store_drill() -> DrilldownSql {
    DrilldownSql {
        foreign_key: "store_id".into(),
        primary_key: "store_id".into(),
        table: Table { name: "dim_stores".into(), schema: None, primary_key: None },
        level_columns: vec![LevelColumn {
            key_column: "store_id".into(),
            name_column: Some("store_name".into()),
        }],
        property_columns: vec![],
    }
}

fn sales_rca() -> RcaSql {
    RcaSql {
        drill_1: vec![date_drill()],
        drill_2: vec![product_drill()],
        mea: MeasureSql { aggregator: "sum".into(), column: "quantity".into() },
    }
}

fn cut_on(column: &str) -> CutSql {
    CutSql {
        foreign_key: "x_id".into(),
        primary_key: "x_id".into(),
        table: Table { name: "dim_x".into(), schema: None, primary_key: None },
        column: column.into(),
        members: vec!["3".into()],
        member_type: MemberType::NonText,
    }
}

const PRODUCT_COLS: &str = "product_group_id, product_group_label, product_id_raw, product_label";
const GROUP_ARRAYS: &str = "groupArray(product_group_id) as product_group_id_s, \
groupArray(product_group_label) as product_group_label_s, \
groupArray(product_id_raw) as product_id_raw_s, groupArray(product_label) as product_label_s";
const ARRAY_JOINS: &str = "product_group_id_s as product_group_id, \
product_group_label_s as product_group_label, product_id_raw_s as product_id_raw, \
product_label_s as product_label";

fn a_scan() -> (String, String) {
    let cols = format!("year, month, day, {}", PRODUCT_COLS);
    (format!("select {cols}, sum(quantity) as final_m0 from sales group by {cols}"), cols)
}

fn b_scan() -> (String, String) {
    let cols = PRODUCT_COLS.to_string();
    (format!("select {cols}, sum(quantity) as final_m0 from sales group by {cols}"), cols)
}

#[test]
fn test_rca_sql() {
    let table = TableSql { name: "sales".into(), primary_key: Some("product_id".into()) };
    let rca = sales_rca();

    let p = plan(&[], &[], &[], &rca).unwrap();
    assert_eq!(p.a_drills.len(), 2);
    assert_eq!(p.a_drills[0].level_columns[0].key_column, "year");
    assert_eq!(p.a_drills[1].level_columns[0].key_column, "product_group_id");
    assert_eq!(p.b_drills.len(), 1);
    assert_eq!(p.b_drills[0].foreign_key, "product_id");
    assert_eq!(p.measures.len(), 1);
    assert_eq!(p.measures[0].column, "quantity");
    assert_eq!(table.name, "sales");

    let (a, a_cols) = a_scan();
    let (b, b_cols) = b_scan();
    let a_inner = a.replace("final_m0", "a");
    let b_inner = b.replace("final_m0", "b");
    let ac = format!(
        "select {a_cols}, a, c from (select year, month, day, {GROUP_ARRAYS}, groupArray(a) as a_s, \
         sum(a) as c from ({a_inner}) group by year, month, day) Array Join {ARRAY_JOINS}, a_s as a"
    );
    let bd = format!(
        "select {b_cols}, b, d from (select {GROUP_ARRAYS}, groupArray(b) as b_s, sum(b) as d \
         from ({b_inner})) Array Join {ARRAY_JOINS}, b_s as b"
    );
    let expected = format!(
        "select {a_cols}, ((a/b) / (c/d)) as rca from (select * from ({ac}) all inner join ({bd}) \
         using {b_cols})"
    );

    let got = calculate(&[], &[], &[], &rca, &Ok(a_scan()), &Ok(b_scan())).unwrap();
    assert_eq!(got, (expected, a_cols.clone()));
}

#[test]
fn measure_column_is_renamed_in_both_scans() {
    let rca = sales_rca();
    let (sql, _) = calculate(&[], &[], &[], &rca, &Ok(a_scan()), &Ok(b_scan())).unwrap();
    assert!(!sql.contains("final_m0"));
    assert!(sql.contains("sum(quantity) as a from sales"));
    assert!(sql.contains("sum(quantity) as b from sales"));
}

#[test]
fn cut_on_year_goes_to_ac_only() {
    let rca = sales_rca();
    let cuts = vec![cut_on("year")];
    let (ac, bd) = partition_cuts(&cuts, &rca);
    assert_eq!(ac.len(), 1);
    assert_eq!(ac[0].column, "year");
    assert!(bd.is_empty());
}

#[test]
fn cuts_are_placed_by_column() {
    let rca = sales_rca();
    let cuts = vec![cut_on("product_id_raw"), cut_on("region"), cut_on("month"), cut_on("region")];
    let (ac, bd) = partition_cuts(&cuts, &rca);
    let ac_cols: Vec<&str> = ac.iter().map(|c| c.column.as_str()).collect();
    let bd_cols: Vec<&str> = bd.iter().map(|c| c.column.as_str()).collect();
    assert_eq!(ac_cols, vec!["region", "month", "region"]);
    assert_eq!(bd_cols, vec!["region", "region"]);

    let reversed: Vec<CutSql> = cuts.iter().rev().cloned().collect();
    let (ac_r, bd_r) = partition_cuts(&reversed, &rca);
    let ac_r_cols: Vec<&str> = ac_r.iter().map(|c| c.column.as_str()).collect();
    assert_eq!(ac_r_cols, vec!["region", "month", "region"]);
    assert_eq!(bd_r.len(), 2);
}

#[test]
fn a_label_column_is_not_a_key() {
    let rca = sales_rca();
    let cuts = vec![cut_on("product_label")];
    let (ac, bd) = partition_cuts(&cuts, &rca);
    assert_eq!(ac.len(), 1);
    assert_eq!(bd.len(), 1);
}

#[test]
fn passthrough_measures_follow_rca_in_order() {
    let rca = sales_rca();
    let meas = vec![
        MeasureSql { aggregator: "sum".into(), column: "price".into() },
        MeasureSql { aggregator: "avg".into(), column: "discount".into() },
    ];
    let p = plan(&[], &[], &meas, &rca).unwrap();
    let cols: Vec<&str> = p.measures.iter().map(|m| m.column.as_str()).collect();
    assert_eq!(cols, vec!["quantity", "price", "discount"]);

    let (sql, _) = calculate(&[], &[], &meas, &rca, &Ok(a_scan()), &Ok(b_scan())).unwrap();
    assert!(sql.contains("((a/b) / (c/d)) as rca, m1, m2 from (select * from ("));
}

#[test]
fn ten_passthrough_measures_are_numbered_in_decimal() {
    let rca = sales_rca();
    let meas: Vec<MeasureSql> = (0..10)
        .map(|i| MeasureSql { aggregator: "sum".into(), column: format!("c{i}") })
        .collect();
    let (sql, _) = calculate(&[], &[], &meas, &rca, &Ok(a_scan()), &Ok(b_scan())).unwrap();
    assert!(sql.contains("as rca, m1, m2, m3, m4, m5, m6, m7, m8, m9, m10 from"));
}

#[test]
fn empty_base_derives_d_from_one_ungrouped_row() {
    let rca = sales_rca();
    let (sql, _) = calculate(&[], &[], &[], &rca, &Ok(a_scan()), &Ok(b_scan())).unwrap();
    let bd_start = sql.find("all inner join (").unwrap();
    let bd = &sql[bd_start..];
    assert!(bd.starts_with(&format!("all inner join (select {PRODUCT_COLS}, b, d from (select groupArray(")));
    let b_inner = b_scan().0.replace("final_m0", "b");
    assert!(bd.contains(&format!("sum(b) as d from ({b_inner})) Array Join {ARRAY_JOINS}, b_s as b)")));
    assert!(!sql.contains("select , "));
    assert!(!sql.contains("group by )"));
}

#[test]
fn base_drilldown_groups_both_rollups() {
    let rca = sales_rca();
    let drills = vec![store_drill()];
    let a_cols = format!("store_id, store_name, year, month, day, {PRODUCT_COLS}");
    let b_cols = format!("store_id, store_name, {PRODUCT_COLS}");
    let a = (String::from("A final_m0"), a_cols.clone());
    let b = (String::from("B final_m0"), b_cols.clone());
    let (sql, cols) = calculate(&[], &drills, &[], &rca, &Ok(a), &Ok(b)).unwrap();
    assert_eq!(cols, a_cols);
    assert!(sql.contains(
        "from (A a) group by store_id, store_name, year, month, day) Array Join"
    ));
    assert!(sql.contains(&format!(
        "select store_id, store_name, {GROUP_ARRAYS}, groupArray(b) as b_s, sum(b) as d from (B b) group by store_id, store_name) Array Join"
    )));
    assert!(sql.ends_with(&format!("using {b_cols})")));
}

#[test]
fn base_drilldown_equal_to_drill_2_is_not_kept() {
    let rca = sales_rca();
    let drills = vec![product_drill()];
    let a = (String::from("A"), String::from("ka"));
    let b = (String::from("B"), String::from("kb"));
    let (sql, _) = calculate(&[], &drills, &[], &rca, &Ok(a), &Ok(b)).unwrap();
    assert!(sql.contains("from (A) group by year, month, day) Array Join"));
    assert!(sql.contains(&format!("select {GROUP_ARRAYS}, groupArray(b) as b_s, sum(b) as d from (B)) Array Join")));
}

#[test]
fn grouping_sets_follow_the_decomposition() {
    let rca = sales_rca();
    let drills = vec![store_drill()];
    let sets = compose_drilldowns(&drills, &rca);
    let keys = |ds: &Vec<DrilldownSql>| -> Vec<String> {
        ds.iter().map(|d| d.foreign_key.clone()).collect()
    };
    assert_eq!(keys(&sets.a), vec!["store_id", "date_id", "product_id"]);
    assert_eq!(keys(&sets.b), vec!["store_id", "product_id"]);
    assert_eq!(keys(&sets.c), vec!["store_id", "date_id"]);
    assert_eq!(keys(&sets.d), vec!["store_id"]);
}

#[test]
fn shared_level_key_is_rejected() {
    let mut rca = sales_rca();
    rca.drill_2[0].level_columns.push(LevelColumn { key_column: "month".into(), name_column: None });
    assert_eq!(plan(&[], &[], &[], &rca).err(), Some(RcaError::InvalidRcaConfiguration));
    assert_eq!(
        calculate(&[], &[], &[], &rca, &Ok(a_scan()), &Ok(b_scan())),
        Err(RcaError::InvalidRcaConfiguration)
    );
}

#[test]
fn empty_drill_is_rejected() {
    let mut rca = sales_rca();
    rca.drill_2.clear();
    assert_eq!(plan(&[], &[], &[], &rca).err(), Some(RcaError::InvalidRcaConfiguration));
    let mut rca = sales_rca();
    rca.drill_1[0].level_columns.clear();
    assert_eq!(plan(&[], &[], &[], &rca).err(), Some(RcaError::InvalidRcaConfiguration));
}

#[test]
fn cut_without_column_is_rejected() {
    let rca = sales_rca();
    let cuts = vec![cut_on("region"), cut_on("")];
    assert_eq!(plan(&cuts, &[], &[], &rca).err(), Some(RcaError::UnresolvableCutColumn));
    assert_eq!(
        calculate(&cuts, &[], &[], &rca, &Ok(a_scan()), &Ok(b_scan())),
        Err(RcaError::UnresolvableCutColumn)
    );
}

#[test]
fn failed_scan_is_reported() {
    let rca = sales_rca();
    assert_eq!(
        calculate(&[], &[], &[], &rca, &Err("no a".to_string()), &Ok(b_scan())),
        Err(RcaError::CollaboratorCompilationFailure("no a".to_string()))
    );
    assert_eq!(
        calculate(&[], &[], &[], &rca, &Ok(a_scan()), &Err("no b".to_string())),
        Err(RcaError::CollaboratorCompilationFailure("no b".to_string()))
    );
}

#[test]
fn external_cuts_go_to_both_scans() {
    let rca = sales_rca();
    let cuts = vec![cut_on("region"), cut_on("store_id")];
    let (ac, bd) = partition_cuts(&cuts, &rca);
    let ac_cols: Vec<&str> = ac.iter().map(|c| c.column.as_str()).collect();
    let bd_cols: Vec<&str> = bd.iter().map(|c| c.column.as_str()).collect();
    assert_eq!(ac_cols, vec!["region", "store_id"]);
    assert_eq!(bd_cols, vec!["region", "store_id"]);
    assert_eq!(ac[1].members, vec!["3".to_string()]);
    assert_eq!(bd[0].table.name, "dim_x");
}
