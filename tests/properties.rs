use tesseract::dims::{order_joins, split_cuts, split_drills};
use tesseract::growth::growth_stage;
use tesseract::options::wrap_options;
use tesseract::postgres::Postgres;
use tesseract::query_ir::{
    CutSql, DrilldownSql, GrowthSql, HiddenDrilldownSql, LevelColumn, LimitSql, MeasureSql,
    MemberType, RcaSql, SortDirection, SortSql, Table, TableSql, TopSql, TopWhereSql,
};
use tesseract::text::{decimal_string, final_alias_string, measure_alias_string};
use tesseract::{calculate, clickhouse_sql, primary_agg};

fn table(name: &str) -> Table {
    Table { name: name.into(), schema: None, primary_key: None }
}

fn simple_drill(fk: &str, tbl: &str, col: &str) -> DrilldownSql {
    DrilldownSql {
        foreign_key: fk.into(),
        primary_key: fk.into(),
        table: table(tbl),
        level_columns: vec![LevelColumn { key_column: col.into(), name_column: None }],
        property_columns: vec![],
        inline_table: None,
    }
}

fn date_drill() -> DrilldownSql {
    DrilldownSql {
        foreign_key: "date_id".into(),
        primary_key: "date_id".into(),
        table: table("sales"),
        level_columns: vec![
            LevelColumn { key_column: "year".into(), name_column: None },
            LevelColumn { key_column: "month".into(), name_column: None },
            LevelColumn { key_column: "day".into(), name_column: None },
        ],
        property_columns: vec![],
        inline_table: None,
    }
}

fn product_drill() -> DrilldownSql {
    DrilldownSql {
        foreign_key: "product_id".into(),
        primary_key: "product_id".into(),
        table: table("dim_products"),
        level_columns: vec![
            LevelColumn {
                key_column: "product_group_id".into(),
                name_column: Some("product_group_label".into()),
            },
            LevelColumn { key_column: "product_id_raw".into(), name_column: Some("product_label".into()) },
        ],
        property_columns: vec![],
        inline_table: None,
    }
}

fn quantity() -> MeasureSql {
    MeasureSql { aggregator: "sum".into(), column: "quantity".into() }
}

fn cut(tbl: &str, column: &str, members: Vec<&str>, member_type: MemberType) -> CutSql {
    CutSql {
        foreign_key: "product_id".into(),
        primary_key: "product_id".into(),
        table: table(tbl),
        column: column.into(),
        members: members.into_iter().map(|m| m.to_owned()).collect(),
        member_type,
        inline_table: None,
    }
}

fn sales(pk: Option<&str>) -> TableSql {
    TableSql { name: "sales".into(), primary_key: pk.map(|p| p.to_owned()) }
}

#[test]
fn aggregation_without_drilldowns_or_cuts() {
    let (sql, cols) = primary_agg(&sales(None), &[], &[], &[quantity()], None);
    assert_eq!(sql, "select sum(m0) as final_m0 from (select sum(quantity) as m0 from sales)");
    assert_eq!(cols, "");
}

#[test]
fn hidden_drilldown_groups_but_is_not_projected() {
    let hidden = vec![HiddenDrilldownSql { drilldown_sql: simple_drill("h_id", "sales", "h") }];
    let (sql, cols) = primary_agg(&sales(None), &[], &[], &[quantity()], Some(&hidden));
    assert_eq!(
        sql,
        "select sum(m0) as final_m0 from (select h, sum(quantity) as m0 from sales group by h)"
    );
    assert_eq!(cols, "");
}

#[test]
fn inline_table_forces_an_external_join() {
    let mut d = simple_drill("k", "sales", "x");
    d.inline_table = Some("select x, k from t".into());
    let (sql, cols) = primary_agg(&sales(None), &[], &[d], &[quantity()], None);
    assert_eq!(
        sql,
        "select x, sum(m0) as final_m0 from (select k, x, m0 from (select x, k as k from (select x, k from t) as sales) as dim0 all inner join (select k, sum(quantity) as m0 from sales group by k) as agg0 using k) group by x"
    );
    assert_eq!(cols, "x");
}

#[test]
fn classification_is_a_partition() {
    let mut forced = simple_drill("k", "sales", "x");
    forced.inline_table = Some("select x, k from t".into());
    let drills = vec![date_drill(), product_drill(), forced];
    let refs: Vec<&DrilldownSql> = drills.iter().collect();
    let (inline, ext) = split_drills(&sales(None), &refs);
    assert_eq!(inline.len(), 1);
    assert_eq!(ext.len(), 2);
    assert_eq!(inline[0].foreign_key, "date_id");
    assert_eq!(ext[0].foreign_key, "product_id");
    assert_eq!(ext[1].foreign_key, "k");

    let cuts = vec![cut("sales", "year", vec!["2020"], MemberType::NonText), cut("dim_products", "g", vec![], MemberType::NonText)];
    let crefs: Vec<&CutSql> = cuts.iter().collect();
    let (ci, ce) = split_cuts(&sales(None), &crefs);
    assert_eq!((ci.len(), ce.len()), (1, 1));
    assert_eq!(ci[0].column, "year");
    assert_eq!(ce[0].column, "g");
}

#[test]
fn primary_key_dimension_joins_first() {
    let a = simple_drill("a_id", "dim_a", "a");
    let b = simple_drill("b_id", "dim_b", "b");
    let c = simple_drill("c_id", "dim_c", "c");
    let refs = vec![&a, &b, &c];
    let ordered = order_joins(&sales(Some("c_id")), refs.clone());
    let keys: Vec<&str> = ordered.iter().map(|d| d.foreign_key.as_str()).collect();
    assert_eq!(keys, vec!["c_id", "a_id", "b_id"]);
    let unordered = order_joins(&sales(None), refs.clone());
    let keys: Vec<&str> = unordered.iter().map(|d| d.foreign_key.as_str()).collect();
    assert_eq!(keys, vec!["a_id", "b_id", "c_id"]);
    let no_match = order_joins(&sales(Some("z")), refs);
    let keys: Vec<&str> = no_match.iter().map(|d| d.foreign_key.as_str()).collect();
    assert_eq!(keys, vec!["a_id", "b_id", "c_id"]);

    let pair = vec![simple_drill("a_id", "dim_a", "a"), simple_drill("b_id", "dim_b", "b")];
    let (sql, _) = primary_agg(&sales(Some("b_id")), &[], &pair, &[quantity()], None);
    assert!(sql.contains("from dim_b) as dim0"));
    assert!(sql.contains("from dim_a) as dim1"));
}

#[test]
fn text_members_are_quoted_in_the_query() {
    let cuts = vec![
        cut("sales", "geo", vec!["x", "y"], MemberType::Text),
        cut("sales", "age", vec!["3", "4"], MemberType::NonText),
    ];
    let (sql, _) = primary_agg(&sales(None), &cuts, &[], &[quantity()], None);
    assert_eq!(
        sql,
        "select sum(m0) as final_m0 from (select sum(quantity) as m0 from sales where geo in ('x', 'y') and age in (3, 4))"
    );
}

#[test]
fn external_cut_without_members_checks_existence() {
    let cuts = vec![cut("dim_products", "product_group_id", vec![], MemberType::NonText)];
    let (sql, _) = primary_agg(&sales(None), &cuts, &[], &[quantity()], None);
    assert_eq!(
        sql,
        "select sum(m0) as final_m0 from (select sum(quantity) as m0 from sales where product_id in (select product_id from dim_products))"
    );
}

#[test]
fn ratio_aliases_are_renamed() {
    let rca = RcaSql { drill_1: vec![date_drill()], drill_2: vec![product_drill()], mea: quantity() };
    let extra = vec![MeasureSql { aggregator: "count".into(), column: "orders".into() }];
    let (sql, cols) = calculate(&sales(Some("product_id")), &[], &[], &extra, &rca);
    for alias in ["sum(m0) as a, count(m1)", "sum(m0) as b, count(m1)", "sum(m0) as c, count(m1)", "sum(m0) as d, count(m1)"] {
        assert!(sql.contains(alias), "{}", alias);
    }
    assert!(!sql.contains("final_m0"));
    assert!(sql.contains("count(m1) as final_m1"));
    assert!(sql.starts_with(
        "select year, month, day, product_group_id, product_group_label, product_id_raw, product_label, ((a/b) / (c/d)) as rca, final_m1 as m1 from ("
    ));
    assert_eq!(cols, "year, month, day, product_group_id, product_group_label, product_id_raw, product_label");
    let two = vec![MeasureSql { aggregator: "count".into(), column: "orders".into() }, MeasureSql { aggregator: "avg".into(), column: "price".into() }];
    let (sql2, _) = calculate(&sales(Some("product_id")), &[], &[], &two, &rca);
    assert!(sql2.contains("((a/b) / (c/d)) as rca, final_m1 as m1, final_m2 as m2 from ("));
}

#[test]
fn ratio_without_caller_drilldowns_cross_joins_d() {
    let rca = RcaSql { drill_1: vec![date_drill()], drill_2: vec![product_drill()], mea: quantity() };
    let sql = clickhouse_sql(&sales(Some("product_id")), &[], &[], &[], &None, &None, &None, &None, &Some(rca), &None);
    assert!(sql.contains(
        "select * from (select sum(m0) as d from (select sum(quantity) as m0 from sales)) cross join ("
    ));
    assert!(!sql.contains("select , "));
    assert!(!sql.contains("group by )"));
    assert!(!sql.contains("using )"));
}

#[test]
fn ratio_with_caller_drilldown_joins_d_on_it() {
    let rca = RcaSql { drill_1: vec![date_drill()], drill_2: vec![product_drill()], mea: quantity() };
    let drills = vec![simple_drill("store_id", "dim_store", "store")];
    let (sql, cols) = calculate(&sales(Some("product_id")), &[], &drills, &[], &rca);
    assert!(!sql.contains("cross join"));
    assert!(sql.ends_with(") using store)"));
    assert!(cols.starts_with("store, year"));
}

#[test]
fn ratio_cuts_on_axis_levels_are_dropped() {
    let rca = RcaSql { drill_1: vec![date_drill()], drill_2: vec![product_drill()], mea: quantity() };
    let cuts = vec![cut("sales", "year", vec!["2020"], MemberType::NonText)];
    let (sql, _) = calculate(&sales(Some("product_id")), &cuts, &[], &[], &rca);
    // a and c keep the cut on drill_1's level; b and d drop it
    assert_eq!(sql.matches("where year in (2020)").count(), 2);
}

#[test]
fn clauses_wrap_in_order() {
    let top = Some(TopSql {
        n: 3,
        by_column: "year".into(),
        sort_columns: vec!["m".into()],
        sort_direction: SortDirection::Desc,
    });
    let top_where = Some(TopWhereSql { by_column: "m".into(), constraint: "> 5".into() });
    let sort = Some(SortSql { direction: SortDirection::Desc, column: Some("m".into()) });
    let limit = Some(LimitSql { offset: Some(10), n: 5 });
    let drills: Vec<String> = vec!["year".into()];
    assert_eq!(wrap_options("q".into(), &drills, &top, &None, &None, &None), "select * from (q) order by m desc limit 3 by year");
    assert_eq!(wrap_options("q".into(), &drills, &None, &top_where, &None, &None), "select * from (q) where m > 5");
    assert_eq!(wrap_options("q".into(), &drills, &None, &None, &sort, &None), "select * from (q) order by m desc ");
    assert_eq!(wrap_options("q".into(), &drills, &None, &None, &None, &limit), "select * from (q) limit 10, 5");
    assert_eq!(
        wrap_options("q".into(), &drills, &top, &top_where, &sort, &limit),
        "select * from (select * from (select * from (select * from (q) order by m desc limit 3 by year) where m > 5) order by m desc ) limit 10, 5"
    );
    assert_eq!(wrap_options("q".into(), &drills, &None, &None, &None, &None), "q");
    let default_sort = Some(SortSql { direction: SortDirection::Asc, column: None });
    assert_eq!(wrap_options("q".into(), &vec![], &None, &None, &default_sort, &None), "q");
    assert_eq!(wrap_options("q".into(), &drills, &None, &None, &default_sort, &None), "select * from (q) order by year asc ");
    let plain_limit = Some(LimitSql { offset: None, n: 0 });
    assert_eq!(wrap_options("q".into(), &drills, &None, &None, &None, &plain_limit), "select * from (q) limit 0");
}

#[test]
fn growth_relates_each_row_to_its_predecessor() {
    let g = GrowthSql { time_drill: date_drill(), mea: "final_m0".into() };
    let drills: Vec<String> = vec!["year, month, day".into(), "store".into()];
    assert_eq!(
        growth_stage(&"q".to_owned(), &drills, &g),
        "select * from (select *, final_m0 - prev_value as growth_value, (final_m0 - prev_value) / prev_value as growth_pct from (select *, lagInFrame(final_m0) over w as prev_value, row_number() over w as growth_row from (q) window w as (partition by store order by year, month, day rows between unbounded preceding and unbounded following))) where growth_row > 1"
    );
    let only_time: Vec<String> = vec!["year, month, day".into()];
    assert!(growth_stage(&"q".to_owned(), &only_time, &g).contains("window w as (order by year, month, day rows"));
}

#[test]
fn growth_through_the_entry_point() {
    let g = GrowthSql { time_drill: date_drill(), mea: "final_m0".into() };
    let sql = clickhouse_sql(&sales(None), &[], &[date_drill()], &[quantity()], &None, &None, &None, &None, &None, &Some(g));
    assert_eq!(
        sql,
        "select * from (select *, final_m0 - prev_value as growth_value, (final_m0 - prev_value) / prev_value as growth_pct from (select *, lagInFrame(final_m0) over w as prev_value, row_number() over w as growth_row from (select year, month, day, sum(m0) as final_m0 from (select year, month, day, sum(quantity) as m0 from sales group by year, month, day) group by year, month, day) window w as (order by year, month, day rows between unbounded preceding and unbounded following))) where growth_row > 1"
    );
}

#[test]
fn decimal_and_aliases() {
    assert_eq!(decimal_string(0), "0");
    assert_eq!(decimal_string(7), "7");
    assert_eq!(decimal_string(10), "10");
    assert_eq!(decimal_string(1234567), "1234567");
    assert_eq!(decimal_string(u64::MAX), "18446744073709551615");
    assert_eq!(measure_alias_string(12), "m12");
    assert_eq!(final_alias_string(3), "final_m3");
}

#[test]
fn schema_qualified_table() {
    let t = Table { name: "t".into(), schema: Some("s".into()), primary_key: None };
    assert_eq!(t.full_name(), "s.t");
    assert_eq!(table("t").full_name(), "t");
}

#[test]
fn postgres_handle_keeps_address() {
    let p = Postgres::new("postgres://db");
    assert_eq!(p.conn_url(), "postgres://db");
    let q = Postgres::from_addr("postgres://other").ok().unwrap();
    assert_eq!(q.conn_url(), "postgres://other");
}
