//! The compile entry points: the column-store dialect with its analytics and
//! clauses, and a single-level row-store dialect.
use vstd::prelude::*;
use crate::dims::{drills_of, external_drills, join_order, order_joins, split_drills};
use crate::growth::{growth_sql, growth_stage};
use crate::options::{wrap_options, wrap_text};
use crate::primary_agg::{
    agg_sql, append_measure_refs, compile_agg, cut_refs, drill_refs, drill_texts, group_string,
    group_suffix, meas_of,
};
use crate::query_ir::{
    CutSql, DrilldownSql, GrowthSql, LimitSql, MeasureSql, RcaSql, SortSql, TableSql, TopSql,
    TopWhereSql, drill_qual_text, members_text, table_text,
};
use crate::rca::{a_drills, rca_sql, rca_stage};
use crate::text::{
    comma, join, join_comma, joined, lemma_subrange_push, lemma_texts_push, push, texts,
};

verus! {

/// The innermost stage: the ratio when one is asked for, else the
/// aggregation; with the drill columns that the result exposes.
pub open spec fn base_stage(
    t: TableSql,
    cuts: Seq<CutSql>,
    drills: Seq<DrilldownSql>,
    meas: Seq<MeasureSql>,
    rca: Option<RcaSql>,
) -> (Seq<char>, Seq<Seq<char>>) {
    match rca {
        Some(r) => (rca_sql(t, cuts, drills, meas, r), drill_texts(a_drills(drills, r))),
        None => (agg_sql(t, cuts, drills, meas, Seq::empty(), None), drill_texts(drills)),
    }
}

/// The whole query: base stage, then growth if asked for, then the clauses.
pub open spec fn clickhouse_text(
    t: TableSql,
    cuts: Seq<CutSql>,
    drills: Seq<DrilldownSql>,
    meas: Seq<MeasureSql>,
    top: Option<TopSql>,
    top_where: Option<TopWhereSql>,
    sort: Option<SortSql>,
    limit: Option<LimitSql>,
    rca: Option<RcaSql>,
    growth: Option<GrowthSql>,
) -> Seq<char> {
    let (sql, cols) = base_stage(t, cuts, drills, meas, rca);
    let grown = match growth {
        Some(g) => growth_sql(sql, cols, g),
        None => sql,
    };
    wrap_text(grown, cols, top, top_where, sort, limit)
}

/// Compiles a query for the column store. The ratio compiler or the
/// aggregation compiler builds the innermost query, the growth compiler wraps
/// it when asked for, and the present clauses wrap the result.
pub fn clickhouse_sql(
    table: &TableSql,
    cuts: &[CutSql],
    drills: &[DrilldownSql],
    meas: &[MeasureSql],
    top: &Option<TopSql>,
    top_where: &Option<TopWhereSql>,
    sort: &Option<SortSql>,
    limit: &Option<LimitSql>,
    rca: &Option<RcaSql>,
    growth: &Option<GrowthSql>,
) -> (r: String)
    ensures
        r@ == clickhouse_text(
            *table,
            cuts@,
            drills@,
            meas@,
            *top,
            *top_where,
            *sort,
            *limit,
            *rca,
            *growth,
        ),
{
    let (sql, cols) = match rca {
        Some(r) => rca_stage(table, cuts, drills, meas, r),
        None => {
            let cs = cut_refs(cuts);
            let ds = drill_refs(drills);
            let mut ms: Vec<&MeasureSql> = Vec::new();
            append_measure_refs(&mut ms, meas);
            assert(meas_of(ms@) =~= meas@);
            let hs: Vec<&DrilldownSql> = Vec::new();
            assert(drills_of(hs@) =~= Seq::<DrilldownSql>::empty());
            compile_agg(table, &cs, &ds, &ms, &hs, None)
        },
    };
    let grown = match growth {
        Some(g) => growth_stage(&sql, &cols, g),
        None => sql,
    };
    wrap_options(grown, &cols, top, top_where, sort, limit)
}

/// A cut as a predicate on its qualified column.
pub open spec fn std_cut_text(c: CutSql) -> Seq<char> {
    table_text(c.table) + "."@ + c.column@ + " in ("@ + members_text(c) + ")"@
}

/// ` where ...` over every cut, or nothing when there is none.
pub open spec fn std_where(cuts: Seq<CutSql>) -> Seq<char> {
    if cuts.len() == 0 {
        Seq::empty()
    } else {
        " where "@ + joined(cuts.map_values(|c: CutSql| std_cut_text(c)), " and "@)
    }
}

/// The join of one external drilldown's table to the fact table.
pub open spec fn std_join_text(t: TableSql, d: DrilldownSql) -> Seq<char> {
    " inner join "@ + table_text(d.table) + " on "@ + table_text(d.table) + "."@ + d.primary_key@
        + " = "@ + t.name@ + "."@ + d.foreign_key@
}

/// The joins of the external drilldowns, in the given order.
pub open spec fn std_joins(t: TableSql, ds: Seq<DrilldownSql>) -> Seq<char>
    decreases ds.len(),
{
    if ds.len() == 0 {
        Seq::empty()
    } else {
        std_joins(t, ds.drop_last()) + std_join_text(t, ds.last())
    }
}

/// Each measure as `aggregator(column)`.
pub open spec fn std_measures(meas: Seq<MeasureSql>) -> Seq<Seq<char>> {
    meas.map_values(|m: MeasureSql| m.aggregator@ + "("@ + m.column@ + ")"@)
}

/// Each drilldown's qualified columns.
pub open spec fn std_dims(ds: Seq<DrilldownSql>) -> Seq<Seq<char>> {
    ds.map_values(|d: DrilldownSql| drill_qual_text(d))
}

/// One aggregation over the fact table joined with each external dimension,
/// in join order.
pub open spec fn standard_text(
    t: TableSql,
    cuts: Seq<CutSql>,
    drills: Seq<DrilldownSql>,
    meas: Seq<MeasureSql>,
) -> Seq<char> {
    "select "@ + joined(std_dims(drills) + std_measures(meas), comma()) + " from "@ + t.name@
        + std_joins(t, join_order(external_drills(t, drills), t.primary_key)) + std_where(cuts) + group_suffix(std_dims(drills))
        + ";"@
}

/// Compiles a single-level aggregation for a row store: the fact table joined
/// with each external dimension's table, qualified columns, one group-by.
pub fn standard_sql(
    table: &TableSql,
    cuts: &[CutSql],
    drills: &[DrilldownSql],
    meas: &[MeasureSql],
) -> (r: String)
    ensures
        r@ == standard_text(*table, cuts@, drills@, meas@),
{
    let mut list: Vec<String> = Vec::new();
    let mut i: usize = 0;
    while i < drills.len()
        invariant
            i <= drills@.len(),
            texts(list@) =~= std_dims(drills@).subrange(0, i as int),
        decreases drills@.len() - i,
    {
        let s = drills[i].col_qual_string();
        let ghost before = list@;
        list.push(s);
        proof {
            lemma_texts_push(before, s);
            lemma_subrange_push(std_dims(drills@), i as int);
        }
        i += 1;
    }
    assert(std_dims(drills@).subrange(0, i as int) =~= std_dims(drills@));
    let dims_list = list;
    let mut list: Vec<String> = Vec::new();
    crate::primary_agg::extend(&mut list, &dims_list);
    let ghost head = texts(list@);
    let mut j: usize = 0;
    while j < meas.len()
        invariant
            j <= meas@.len(),
            texts(list@) =~= head + std_measures(meas@).subrange(0, j as int),
        decreases meas@.len() - j,
    {
        let mut s = meas[j].aggregator.clone();
        push(&mut s, "(");
        push(&mut s, meas[j].column.as_str());
        push(&mut s, ")");
        let ghost before = list@;
        list.push(s);
        proof {
            lemma_texts_push(before, s);
            lemma_subrange_push(std_measures(meas@), j as int);
        }
        j += 1;
    }
    assert(std_measures(meas@).subrange(0, j as int) =~= std_measures(meas@));

    let mut sql = String::from_str("select ");
    let l = join_comma(&list);
    push(&mut sql, l.as_str());
    push(&mut sql, " from ");
    push(&mut sql, table.name.as_str());

    let ds = drill_refs(drills);
    let (_inline, ext) = split_drills(table, &ds);
    let order = order_joins(table, ext);
    let ghost ord = drills_of(order@);
    let mut joins = String::new();
    let mut k: usize = 0;
    while k < order.len()
        invariant
            k <= order@.len(),
            ord == drills_of(order@),
            joins@ == std_joins(*table, ord.subrange(0, k as int)),
        decreases order@.len() - k,
    {
        let d = order[k];
        proof {
            assert(ord.subrange(0, k + 1).drop_last() =~= ord.subrange(0, k as int));
        }
        push(&mut joins, " inner join ");
        let name = d.table.full_name();
        push(&mut joins, name.as_str());
        push(&mut joins, " on ");
        push(&mut joins, name.as_str());
        push(&mut joins, ".");
        push(&mut joins, d.primary_key.as_str());
        push(&mut joins, " = ");
        push(&mut joins, table.name.as_str());
        push(&mut joins, ".");
        push(&mut joins, d.foreign_key.as_str());
        k += 1;
    }
    assert(ord.subrange(0, k as int) =~= ord);
    push(&mut sql, joins.as_str());

    let mut wh = String::new();
    if cuts.len() != 0 {
        let mut parts: Vec<String> = Vec::new();
        let mut m: usize = 0;
        while m < cuts.len()
            invariant
                m <= cuts@.len(),
                texts(parts@) =~= cuts@.map_values(|c: CutSql| std_cut_text(c)).subrange(0, m as int),
            decreases cuts@.len() - m,
        {
            let c = &cuts[m];
            let name = c.table.full_name();
            let mut s = name;
            push(&mut s, ".");
            push(&mut s, c.column.as_str());
            push(&mut s, " in (");
            let ms = c.members_string();
            push(&mut s, ms.as_str());
            push(&mut s, ")");
            let ghost before = parts@;
            parts.push(s);
            proof {
                lemma_texts_push(before, s);
                lemma_subrange_push(cuts@.map_values(|c: CutSql| std_cut_text(c)), m as int);
            }
            m += 1;
        }
        assert(cuts@.map_values(|c: CutSql| std_cut_text(c)).subrange(0, m as int)
            =~= cuts@.map_values(|c: CutSql| std_cut_text(c)));
        push(&mut wh, " where ");
        let body = join(&parts, " and ");
        push(&mut wh, body.as_str());
    }
    push(&mut sql, wh.as_str());
    let g = group_string(&dims_list);
    push(&mut sql, g.as_str());
    push(&mut sql, ";");
    sql
}

} // verus!
