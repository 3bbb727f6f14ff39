use tesseract::query_ir::{
    CutSql, DrilldownSql, LevelColumn, MeasureSql, MemberType, RcaSql, SortDirection, SortSql,
    Table, TableSql,
};
use tesseract::{clickhouse_sql, standard_sql};

fn table(name: &str) -> Table {
    Table { name: name.into(), schema: None, primary_key: None }
}

fn level(key: &str, name: Option<&str>) -> LevelColumn {
    LevelColumn { key_column: key.into(), name_column: name.map(|n| n.to_owned()) }
}

fn date_drill() -> DrilldownSql {
    DrilldownSql {
        foreign_key: "date_id".into(),
        primary_key: "date_id".into(),
        table: table("sales"),
        level_columns: vec![level("year", None), level("month", None), level("day", None)],
        property_columns: vec![],
        inline_table: None,
    }
}

fn product_drill(props: Vec<String>) -> DrilldownSql {
    DrilldownSql {
        foreign_key: "product_id".into(),
        primary_key: "product_id".into(),
        table: table("dim_products"),
        level_columns: vec![
            level("product_group_id", Some("product_group_label")),
            level("product_id_raw", Some("product_label")),
        ],
        property_columns: props,
        inline_table: None,
    }
}

#[test]
fn test_clickhouse_sql() {
    let table = TableSql { name: "sales".into(), primary_key: Some("product_id".into()) };
    let cuts = vec![CutSql {
        foreign_key: "product_id".into(),
        primary_key: "product_id".into(),
        table: Table { name: "dim_products".into(), schema: None, primary_key: None },
        column: "product_group_id".into(),
        members: vec!["3".into()],
        member_type: MemberType::NonText,
        inline_table: None,
    }];
    // the date drilldown is inline; the product one joins first, on the fact
    // table's primary key
    let drills = vec![date_drill(), product_drill(vec![])];
    let meas = vec![MeasureSql { aggregator: "sum".into(), column: "quantity".into() }];
    let sort = Some(SortSql { direction: SortDirection::Asc, column: None });

    assert_eq!(
        clickhouse_sql(&table, &cuts, &drills, &meas, &None, &None, &sort, &None, &None, &None),
        "select * from (select year, month, day, product_group_id, product_group_label, product_id_raw, product_label, sum(m0) as final_m0 from (select year, month, day, product_id, product_group_id, product_group_label, product_id_raw, product_label, m0 from (select product_group_id, product_group_label, product_id_raw, product_label, product_id as product_id from dim_products) as dim0 all inner join (select year, month, day, product_id, sum(quantity) as m0 from sales where product_id in (select product_id from dim_products where product_group_id in (3)) group by year, month, day, product_id) as agg0 using product_id) group by year, month, day, product_group_id, product_group_label, product_id_raw, product_label) order by year, month, day, product_group_id, product_group_label, product_id_raw, product_label asc ".to_owned()
    );
}

#[test]
fn cutsql_membertype() {
    let cuts = vec![
        CutSql {
            foreign_key: "".into(),
            primary_key: "".into(),
            table: Table { name: "".into(), schema: None, primary_key: None },
            column: "geo".into(),
            members: vec!["1".into(), "2".into()],
            member_type: MemberType::Text,
            inline_table: None,
        },
        CutSql {
            foreign_key: "".into(),
            primary_key: "".into(),
            table: Table { name: "".into(), schema: None, primary_key: None },
            column: "age".into(),
            members: vec!["3".into()],
            member_type: MemberType::NonText,
            inline_table: None,
        },
    ];

    assert_eq!(cuts[0].members_string(), "'1', '2'",);
    assert_eq!(cuts[1].members_string(), "3",);
}

#[test]
fn drilldown_with_properties() {
    let drill = product_drill(vec!["hexcode".to_owned(), "form".to_owned()]);

    assert_eq!(
        drill.col_string(),
        "product_group_id, product_group_label, product_id_raw, product_label, hexcode, form".to_owned(),
    );
}

#[test]
fn drilldown_with_properties_qual() {
    let drill = product_drill(vec!["hexcode".to_owned(), "form".to_owned()]);

    assert_eq!(
        drill.col_qual_string(),
        "dim_products.product_group_id, dim_products.product_group_label, dim_products.product_id_raw, dim_products.product_label, dim_products.hexcode, dim_products.form".to_owned(),
    );
}

#[test]
fn test_standard_sql() {
    let table = TableSql { name: "project_facts".into(), primary_key: Some("id".into()) };
    let cuts = vec![CutSql {
        foreign_key: "project_id".into(),
        primary_key: "id".into(),
        table: Table { name: "valid_projects".into(), schema: None, primary_key: None },
        column: "id".into(),
        members: vec!["3".into()],
        member_type: MemberType::NonText,
        inline_table: None,
    }];
    let drills = vec![DrilldownSql {
        foreign_key: "project_id".into(),
        primary_key: "id".into(),
        table: Table { name: "valid_projects".into(), schema: None, primary_key: None },
        level_columns: vec![LevelColumn { key_column: "id".into(), name_column: Some("name".to_owned()) }],
        property_columns: vec![],
        inline_table: None,
    }];
    let meas = vec![MeasureSql { aggregator: "sum".into(), column: "commits".into() }];

    assert_eq!(
        standard_sql(&table, &cuts, &drills, &meas),
        "select valid_projects.id, valid_projects.name, sum(commits) from project_facts inner join valid_projects on valid_projects.id = project_facts.project_id where valid_projects.id in (3) group by valid_projects.id, valid_projects.name;".to_owned()
    );
}

#[test]
fn test_rca_sql() {
    let table = TableSql { name: "sales".into(), primary_key: Some("product_id".into()) };
    let rca = RcaSql {
        drill_1: vec![date_drill()],
        drill_2: vec![product_drill(vec![])],
        mea: MeasureSql { aggregator: "sum".into(), column: "quantity".into() },
    };

    assert_eq!(
        clickhouse_sql(&table, &[], &[], &[], &None, &None, &None, &None, &Some(rca), &None),
        "select year, month, day, product_group_id, product_group_label, product_id_raw, product_label, ((a/b) / (c/d)) as rca from (select * from (select sum(m0) as d from (select sum(quantity) as m0 from sales)) cross join (select * from (select year, month, day, sum(m0) as c from (select year, month, day, sum(quantity) as m0 from sales group by year, month, day) group by year, month, day) all inner join (select * from (select year, month, day, product_group_id, product_group_label, product_id_raw, product_label, sum(m0) as a from (select year, month, day, product_id, product_group_id, product_group_label, product_id_raw, product_label, m0 from (select product_group_id, product_group_label, product_id_raw, product_label, product_id as product_id from dim_products) as dim0 all inner join (select year, month, day, product_id, sum(quantity) as m0 from sales group by year, month, day, product_id) as agg0 using product_id) group by year, month, day, product_group_id, product_group_label, product_id_raw, product_label) all inner join (select product_group_id, product_group_label, product_id_raw, product_label, sum(m0) as b from (select product_id, product_group_id, product_group_label, product_id_raw, product_label, m0 from (select product_group_id, product_group_label, product_id_raw, product_label, product_id as product_id from dim_products) as dim0 all inner join (select product_id, sum(quantity) as m0 from sales group by product_id) as agg0 using product_id) group by product_group_id, product_group_label, product_id_raw, product_label) using product_group_id, product_group_label, product_id_raw, product_label) using year, month, day))".to_owned()
    );
}
