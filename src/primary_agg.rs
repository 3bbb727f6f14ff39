//! The aggregation compiler: a fact-grain aggregation, nested joins of the
//! external dimensions, and a re-aggregation at the requested drill grain.
use vstd::prelude::*;
use crate::dims::{
    dim_sql_text, dim_subquery, drills_of, cuts_of, external_cuts, external_drills, inline_cuts,
    inline_drills, join_order, order_joins, source_string, source_text, split_cuts, split_drills,
};
use crate::query_ir::{
    CutSql, DrilldownSql, HiddenDrilldownSql, MeasureSql, TableSql, cut_text, drill_text,
};
use crate::text::{
    comma, decimal, decimal_string, final_alias, final_alias_string, join, join_comma, joined,
    lemma_map_push, lemma_subrange_push, lemma_texts_push, measure_alias, measure_alias_string, push, texts,
};

verus! {

/// The measures behind a list of references.
pub open spec fn meas_of(s: Seq<&MeasureSql>) -> Seq<MeasureSql> {
    s.map_values(|m: &MeasureSql| *m)
}

/// The column list of each drilldown.
pub open spec fn drill_texts(s: Seq<DrilldownSql>) -> Seq<Seq<char>> {
    s.map_values(|d: DrilldownSql| drill_text(d))
}

/// The join key of each drilldown.
pub open spec fn key_texts(s: Seq<DrilldownSql>) -> Seq<Seq<char>> {
    s.map_values(|d: DrilldownSql| d.foreign_key@)
}

/// Pass 1 of measure `i`: `aggregator(column) as m{i}`.
pub open spec fn pass1_texts(meas: Seq<MeasureSql>) -> Seq<Seq<char>> {
    Seq::new(
        meas.len(),
        |i: int| meas[i].aggregator@ + "("@ + meas[i].column@ + ") as "@ + measure_alias(i as nat),
    )
}

/// The pass-1 aliases `m{i}`, carried unchanged through the joins.
pub open spec fn carried_texts(n: nat) -> Seq<Seq<char>> {
    Seq::new(n, |i: int| measure_alias(i as nat))
}

/// The pass-2 alias of measure `i`: `final_m{i}`, or `rename` for measure 0
/// when one is given.
pub open spec fn result_alias(i: nat, rename: Option<Seq<char>>) -> Seq<char> {
    if i == 0 && rename.is_some() {
        rename.unwrap()
    } else {
        final_alias(i)
    }
}

/// Pass 2 of measure `i`: `aggregator(m{i}) as final_m{i}`.
pub open spec fn pass2_texts(meas: Seq<MeasureSql>, rename: Option<Seq<char>>) -> Seq<Seq<char>> {
    Seq::new(
        meas.len(),
        |i: int|
            meas[i].aggregator@ + "("@ + measure_alias(i as nat) + ") as "@ + result_alias(
                i as nat,
                rename,
            ),
    )
}

/// ` group by cols`, or nothing when there is no column to group on.
pub open spec fn group_suffix(cols: Seq<Seq<char>>) -> Seq<char> {
    if cols.len() == 0 {
        Seq::empty()
    } else {
        " group by "@ + joined(cols, comma())
    }
}

/// An external cut as a predicate on the fact table's join key; with no
/// members, the key need only exist in the dimension.
pub open spec fn ext_cut_text(c: CutSql) -> Seq<char> {
    c.foreign_key@ + " in (select "@ + c.primary_key@ + " from "@ + source_text(
        c.table,
        c.inline_table,
    ) + if c.members@.len() == 0 {
        Seq::empty()
    } else {
        " where "@ + cut_text(c)
    } + ")"@
}

/// ` where ...` over every cut, or nothing when there is none.
pub open spec fn where_suffix(inline: Seq<CutSql>, ext: Seq<CutSql>) -> Seq<char> {
    if inline.len() + ext.len() == 0 {
        Seq::empty()
    } else {
        " where "@ + joined(
            inline.map_values(|c: CutSql| cut_text(c)) + ext.map_values(|c: CutSql| ext_cut_text(c)),
            " and "@,
        )
    }
}

/// The dimension columns of the fact-grain query: the inline drilldowns'
/// columns, then the join key of each external drilldown in join order.
pub open spec fn fact_dims(t: TableSql, drills: Seq<DrilldownSql>) -> Seq<Seq<char>> {
    drill_texts(inline_drills(t, drills)) + key_texts(
        join_order(external_drills(t, drills), t.primary_key),
    )
}

/// The fact-grain aggregation.
pub open spec fn fact_sql(
    t: TableSql,
    cuts: Seq<CutSql>,
    drills: Seq<DrilldownSql>,
    meas: Seq<MeasureSql>,
    hidden: Seq<DrilldownSql>,
) -> Seq<char> {
    let dims = fact_dims(t, drills) + drill_texts(hidden);
    "select "@ + joined(dims + pass1_texts(meas), comma()) + " from "@ + t.name@ + where_suffix(
        inline_cuts(t, cuts),
        external_cuts(t, cuts),
    ) + group_suffix(dims)
}

/// One join: dimension subquery `d` joined with the query built so far.
pub open spec fn join_step(
    acc: Seq<char>,
    cols: Seq<Seq<char>>,
    d: DrilldownSql,
    k: nat,
    n_meas: nat,
) -> Seq<char> {
    "select "@ + joined(cols + carried_texts(n_meas), comma()) + " from ("@ + dim_sql_text(d)
        + ") as dim"@ + decimal(k) + " all inner join ("@ + acc + ") as agg"@ + decimal(k)
        + " using "@ + d.foreign_key@
}

/// The fact-grain query joined with each drilldown of `order` in turn.
pub open spec fn fold_joins(
    base: Seq<char>,
    dims: Seq<Seq<char>>,
    order: Seq<DrilldownSql>,
    n_meas: nat,
) -> Seq<char>
    decreases order.len(),
{
    if order.len() == 0 {
        base
    } else {
        join_step(
            fold_joins(base, dims, order.drop_last(), n_meas),
            dims + drill_texts(order),
            order.last(),
            (order.len() - 1) as nat,
            n_meas,
        )
    }
}

/// The whole aggregation: the folded joins re-aggregated at drill grain.
pub open spec fn agg_sql(
    t: TableSql,
    cuts: Seq<CutSql>,
    drills: Seq<DrilldownSql>,
    meas: Seq<MeasureSql>,
    hidden: Seq<DrilldownSql>,
    rename: Option<Seq<char>>,
) -> Seq<char> {
    let folded = fold_joins(
        fact_sql(t, cuts, drills, meas, hidden),
        fact_dims(t, drills),
        join_order(external_drills(t, drills), t.primary_key),
        meas.len(),
    );
    "select "@ + joined(drill_texts(drills) + pass2_texts(meas, rename), comma()) + " from ("@
        + folded + ")"@ + group_suffix(drill_texts(drills))
}

/// The hidden drilldowns of an optional list.
pub open spec fn hidden_of(h: Option<&[HiddenDrilldownSql]>) -> Seq<DrilldownSql> {
    match h {
        Some(s) => s@.map_values(|x: HiddenDrilldownSql| x.drilldown_sql),
        None => Seq::empty(),
    }
}

/// Appends copies of `w` to `v`.
pub(crate) fn extend(v: &mut Vec<String>, w: &Vec<String>)
    ensures
        texts(final(v)@) == texts(old(v)@) + texts(w@),
{
    let ghost start = texts(v@);
    let mut i: usize = 0;
    while i < w.len()
        invariant
            i <= w@.len(),
            texts(v@) =~= start + texts(w@.subrange(0, i as int)),
        decreases w@.len() - i,
    {
        let ghost before = v@;
        let s = w[i].clone();
        v.push(s);
        proof {
            lemma_texts_push(before, s);
            lemma_subrange_push(w@, i as int);
            lemma_texts_push(w@.subrange(0, i as int), s);
        }
        i += 1;
    }
    assert(w@.subrange(0, i as int) =~= w@);
}

/// The column list of each drilldown.
pub(crate) fn drill_strings(ds: &Vec<&DrilldownSql>) -> (r: Vec<String>)
    ensures
        texts(r@) == drill_texts(drills_of(ds@)),
{
    let mut r: Vec<String> = Vec::new();
    let mut i: usize = 0;
    while i < ds.len()
        invariant
            i <= ds@.len(),
            texts(r@) =~= drill_texts(drills_of(ds@)).subrange(0, i as int),
        decreases ds@.len() - i,
    {
        let ghost before = r@;
        let s = ds[i].col_string();
        r.push(s);
        proof {
            lemma_texts_push(before, s);
            lemma_subrange_push(drill_texts(drills_of(ds@)), i as int);
        }
        i += 1;
    }
    r
}

fn key_strings(ds: &Vec<&DrilldownSql>) -> (r: Vec<String>)
    ensures
        texts(r@) == key_texts(drills_of(ds@)),
{
    let mut r: Vec<String> = Vec::new();
    let mut i: usize = 0;
    while i < ds.len()
        invariant
            i <= ds@.len(),
            texts(r@) =~= key_texts(drills_of(ds@)).subrange(0, i as int),
        decreases ds@.len() - i,
    {
        let ghost before = r@;
        let s = ds[i].foreign_key.clone();
        r.push(s);
        proof {
            lemma_texts_push(before, s);
            lemma_subrange_push(key_texts(drills_of(ds@)), i as int);
        }
        i += 1;
    }
    r
}

fn pass1_strings(meas: &Vec<&MeasureSql>) -> (r: Vec<String>)
    ensures
        texts(r@) == pass1_texts(meas_of(meas@)),
{
    let mut r: Vec<String> = Vec::new();
    let mut i: usize = 0;
    while i < meas.len()
        invariant
            i <= meas@.len(),
            texts(r@) =~= pass1_texts(meas_of(meas@)).subrange(0, i as int),
        decreases meas@.len() - i,
    {
        let m = meas[i];
        let mut s = m.aggregator.clone();
        push(&mut s, "(");
        push(&mut s, m.column.as_str());
        push(&mut s, ") as ");
        let a = measure_alias_string(i);
        push(&mut s, a.as_str());
        let ghost before = r@;
        r.push(s);
        proof {
            lemma_texts_push(before, s);
            lemma_subrange_push(pass1_texts(meas_of(meas@)), i as int);
        }
        i += 1;
    }
    r
}

pub(crate) fn carried_strings(n: usize) -> (r: Vec<String>)
    ensures
        texts(r@) == carried_texts(n as nat),
{
    let mut r: Vec<String> = Vec::new();
    let mut i: usize = 0;
    while i < n
        invariant
            i <= n,
            texts(r@) =~= carried_texts(n as nat).subrange(0, i as int),
        decreases n - i,
    {
        let s = measure_alias_string(i);
        let ghost before = r@;
        r.push(s);
        proof {
            lemma_texts_push(before, s);
            lemma_subrange_push(carried_texts(n as nat), i as int);
        }
        i += 1;
    }
    r
}

fn pass2_strings(meas: &Vec<&MeasureSql>, rename: Option<&str>) -> (r: Vec<String>)
    ensures
        texts(r@) == pass2_texts(
            meas_of(meas@),
            match rename {
                Some(x) => Some(x@),
                None => None,
            },
        ),
{
    let ghost rn = match rename {
        Some(x) => Some(x@),
        None => None,
    };
    let mut r: Vec<String> = Vec::new();
    let mut i: usize = 0;
    while i < meas.len()
        invariant
            i <= meas@.len(),
            rn == match rename {
                Some(x) => Some(x@),
                None => None::<Seq<char>>,
            },
            texts(r@) =~= pass2_texts(meas_of(meas@), rn).subrange(0, i as int),
        decreases meas@.len() - i,
    {
        let m = meas[i];
        let mut s = m.aggregator.clone();
        push(&mut s, "(");
        let a = measure_alias_string(i);
        push(&mut s, a.as_str());
        push(&mut s, ") as ");
        let fin = match rename {
            Some(x) => if i == 0 {
                String::from_str(x)
            } else {
                final_alias_string(i)
            },
            None => final_alias_string(i),
        };
        push(&mut s, fin.as_str());
        let ghost before = r@;
        r.push(s);
        proof {
            lemma_texts_push(before, s);
            lemma_subrange_push(pass2_texts(meas_of(meas@), rn), i as int);
        }
        i += 1;
    }
    r
}

/// ` group by cols`, or nothing for no column.
pub(crate) fn group_string(cols: &Vec<String>) -> (r: String)
    ensures
        r@ == group_suffix(texts(cols@)),
{
    if cols.len() == 0 {
        String::new()
    } else {
        let mut r = String::from_str(" group by ");
        let j = join_comma(cols);
        push(&mut r, j.as_str());
        r
    }
}

fn ext_cut_string(c: &CutSql) -> (r: String)
    ensures
        r@ == ext_cut_text(*c),
{
    let mut r = c.foreign_key.clone();
    push(&mut r, " in (select ");
    push(&mut r, c.primary_key.as_str());
    push(&mut r, " from ");
    let src = source_string(&c.table, &c.inline_table);
    push(&mut r, src.as_str());
    let mut cond = String::new();
    if c.members.len() != 0 {
        push(&mut cond, " where ");
        let p = c.cut_string();
        push(&mut cond, p.as_str());
    }
    push(&mut r, cond.as_str());
    push(&mut r, ")");
    r
}

fn where_string(inline: &Vec<&CutSql>, ext: &Vec<&CutSql>) -> (r: String)
    ensures
        r@ == where_suffix(cuts_of(inline@), cuts_of(ext@)),
{
    if inline.len() == 0 && ext.len() == 0 {
        return String::new();
    }
    let ghost target = cuts_of(inline@).map_values(|c: CutSql| cut_text(c)) + cuts_of(
        ext@,
    ).map_values(|c: CutSql| ext_cut_text(c));
    let mut parts: Vec<String> = Vec::new();
    let mut i: usize = 0;
    while i < inline.len()
        invariant
            i <= inline@.len(),
            target == cuts_of(inline@).map_values(|c: CutSql| cut_text(c)) + cuts_of(
                ext@,
            ).map_values(|c: CutSql| ext_cut_text(c)),
            texts(parts@) =~= target.subrange(0, i as int),
        decreases inline@.len() - i,
    {
        let s = inline[i].cut_string();
        let ghost before = parts@;
        parts.push(s);
        proof {
            lemma_texts_push(before, s);
            lemma_subrange_push(target, i as int);
        }
        i += 1;
    }
    let mut j: usize = 0;
    while j < ext.len()
        invariant
            j <= ext@.len(),
            i == inline@.len(),
            target == cuts_of(inline@).map_values(|c: CutSql| cut_text(c)) + cuts_of(
                ext@,
            ).map_values(|c: CutSql| ext_cut_text(c)),
            texts(parts@) =~= target.subrange(0, i + j),
        decreases ext@.len() - j,
    {
        let s = ext_cut_string(ext[j]);
        let ghost before = parts@;
        parts.push(s);
        proof {
            lemma_texts_push(before, s);
            lemma_subrange_push(target, i + j);
        }
        j += 1;
    }
    assert(target.subrange(0, i + j) =~= target);
    let mut r = String::from_str(" where ");
    let body = join(&parts, " and ");
    push(&mut r, body.as_str());
    r
}

/// Compiles the aggregation over lists of references, so that the ratio
/// compiler can combine lists without copying them. Returns the SQL and the
/// column list of each drilldown. Measure 0's pass-2 alias becomes `rename`
/// when one is given.
pub fn compile_agg(
    table: &TableSql,
    cuts: &Vec<&CutSql>,
    drills: &Vec<&DrilldownSql>,
    meas: &Vec<&MeasureSql>,
    hidden: &Vec<&DrilldownSql>,
    rename: Option<&str>,
) -> (r: (String, Vec<String>))
    ensures
        r.0@ == agg_sql(
            *table,
            cuts_of(cuts@),
            drills_of(drills@),
            meas_of(meas@),
            drills_of(hidden@),
            match rename {
                Some(x) => Some(x@),
                None => None,
            },
        ),
        texts(r.1@) == drill_texts(drills_of(drills@)),
{
    let ghost t = *table;
    let ghost ds = drills_of(drills@);
    let (inline_ds, ext_ds) = split_drills(table, drills);
    let (inline_cs, ext_cs) = split_cuts(table, cuts);
    let order = order_joins(table, ext_ds);
    let ghost ord = drills_of(order@);

    // fact-grain query
    let mut dims = drill_strings(&inline_ds);
    let keys = key_strings(&order);
    extend(&mut dims, &keys);
    assert(texts(dims@) == fact_dims(t, ds));
    let mut all_dims: Vec<String> = Vec::new();
    extend(&mut all_dims, &dims);
    let hidden_cols = drill_strings(hidden);
    extend(&mut all_dims, &hidden_cols);
    let mut select_list: Vec<String> = Vec::new();
    extend(&mut select_list, &all_dims);
    let first_pass = pass1_strings(meas);
    extend(&mut select_list, &first_pass);
    let mut sql = String::from_str("select ");
    let sel = join_comma(&select_list);
    push(&mut sql, sel.as_str());
    push(&mut sql, " from ");
    push(&mut sql, table.name.as_str());
    let w = where_string(&inline_cs, &ext_cs);
    push(&mut sql, w.as_str());
    let g = group_string(&all_dims);
    push(&mut sql, g.as_str());
    assert(sql@ == fact_sql(t, cuts_of(cuts@), ds, meas_of(meas@), drills_of(hidden@)));

    // joins, in join order
    let ghost base = sql@;
    let ghost dims0 = texts(dims@);
    let carried = carried_strings(meas.len());
    let mut cols: Vec<String> = Vec::new();
    extend(&mut cols, &dims);
    let mut k: usize = 0;
    while k < order.len()
        invariant
            k <= order@.len(),
            ord == drills_of(order@),
            texts(carried@) == carried_texts(meas@.len() as nat),
            texts(cols@) == dims0 + drill_texts(ord.subrange(0, k as int)),
            sql@ == fold_joins(base, dims0, ord.subrange(0, k as int), meas@.len() as nat),
        decreases order@.len() - k,
    {
        let d = order[k];
        let sub = dim_subquery(d);
        let ghost before = cols@;
        let dc = sub.dim_cols;
        cols.push(dc);
        proof {
            lemma_texts_push(before, dc);
            assert(ord.subrange(0, k + 1).drop_last() =~= ord.subrange(0, k as int));
            assert(drill_texts(ord.subrange(0, k + 1)) =~= drill_texts(ord.subrange(0, k as int)).push(
                drill_text(ord[k as int]),
            ));
        }
        let mut list: Vec<String> = Vec::new();
        extend(&mut list, &cols);
        extend(&mut list, &carried);
        let mut step = String::from_str("select ");
        let l = join_comma(&list);
        push(&mut step, l.as_str());
        push(&mut step, " from (");
        push(&mut step, sub.sql.as_str());
        push(&mut step, ") as dim");
        let kd = decimal_string(k as u64);
        push(&mut step, kd.as_str());
        push(&mut step, " all inner join (");
        push(&mut step, sql.as_str());
        push(&mut step, ") as agg");
        push(&mut step, kd.as_str());
        push(&mut step, " using ");
        push(&mut step, sub.foreign_key.as_str());
        sql = step;
        k += 1;
    }
    assert(ord.subrange(0, k as int) =~= ord);

    // re-aggregation at drill grain
    let final_cols = drill_strings(drills);
    let mut final_list: Vec<String> = Vec::new();
    extend(&mut final_list, &final_cols);
    let second_pass = pass2_strings(meas, rename);
    extend(&mut final_list, &second_pass);
    let mut out = String::from_str("select ");
    let fl = join_comma(&final_list);
    push(&mut out, fl.as_str());
    push(&mut out, " from (");
    push(&mut out, sql.as_str());
    push(&mut out, ")");
    let g2 = group_string(&final_cols);
    push(&mut out, g2.as_str());
    (out, final_cols)
}

/// References to each drilldown of a slice.
pub(crate) fn drill_refs<'a>(s: &'a [DrilldownSql]) -> (r: Vec<&'a DrilldownSql>)
    ensures
        drills_of(r@) == s@,
{
    let mut r: Vec<&'a DrilldownSql> = Vec::new();
    append_drill_refs(&mut r, s);
    assert(drills_of(r@) =~= s@);
    r
}

/// Appends references to each drilldown of a slice.
pub(crate) fn append_drill_refs<'a>(v: &mut Vec<&'a DrilldownSql>, s: &'a [DrilldownSql])
    ensures
        drills_of(final(v)@) == drills_of(old(v)@) + s@,
{
    let ghost start = drills_of(v@);
    let mut i: usize = 0;
    while i < s.len()
        invariant
            i <= s@.len(),
            drills_of(v@) =~= start + s@.subrange(0, i as int),
        decreases s@.len() - i,
    {
        let ghost before = v@;
        v.push(&s[i]);
        proof {
            lemma_map_push(before, &s@[i as int], |d: &DrilldownSql| *d);
            lemma_subrange_push(s@, i as int);
        }
        i += 1;
    }
    assert(s@.subrange(0, i as int) =~= s@);
}

/// References to each cut of a slice.
pub(crate) fn cut_refs<'a>(s: &'a [CutSql]) -> (r: Vec<&'a CutSql>)
    ensures
        cuts_of(r@) == s@,
{
    let mut r: Vec<&'a CutSql> = Vec::new();
    let mut i: usize = 0;
    while i < s.len()
        invariant
            i <= s@.len(),
            cuts_of(r@) =~= s@.subrange(0, i as int),
        decreases s@.len() - i,
    {
        let ghost before = r@;
        r.push(&s[i]);
        proof {
            lemma_map_push(before, &s@[i as int], |c: &CutSql| *c);
            lemma_subrange_push(s@, i as int);
        }
        i += 1;
    }
    assert(s@.subrange(0, i as int) =~= s@);
    r
}

/// Appends references to each measure of a slice.
pub(crate) fn append_measure_refs<'a>(v: &mut Vec<&'a MeasureSql>, s: &'a [MeasureSql])
    ensures
        meas_of(final(v)@) == meas_of(old(v)@) + s@,
{
    let ghost start = meas_of(v@);
    let mut i: usize = 0;
    while i < s.len()
        invariant
            i <= s@.len(),
            meas_of(v@) =~= start + s@.subrange(0, i as int),
        decreases s@.len() - i,
    {
        let ghost before = v@;
        v.push(&s[i]);
        proof {
            lemma_map_push(before, &s@[i as int], |m: &MeasureSql| *m);
            lemma_subrange_push(s@, i as int);
        }
        i += 1;
    }
    assert(s@.subrange(0, i as int) =~= s@);
}

fn hidden_refs<'a>(h: Option<&'a [HiddenDrilldownSql]>) -> (r: Vec<&'a DrilldownSql>)
    ensures
        drills_of(r@) == hidden_of(h),
{
    let mut r: Vec<&'a DrilldownSql> = Vec::new();
    match h {
        Some(s) => {
            let mut i: usize = 0;
            while i < s.len()
                invariant
                    i <= s@.len(),
                    h == Some(s),
                    drills_of(r@) =~= s@.subrange(0, i as int).map_values(
                        |x: HiddenDrilldownSql| x.drilldown_sql,
                    ),
                decreases s@.len() - i,
            {
                let ghost before = r@;
                r.push(&s[i].drilldown_sql);
                proof {
                    lemma_map_push(before, &s@[i as int].drilldown_sql, |d: &DrilldownSql| *d);
                    lemma_subrange_push(s@, i as int);
                    lemma_map_push(
                        s@.subrange(0, i as int),
                        s@[i as int],
                        |x: HiddenDrilldownSql| x.drilldown_sql,
                    );
                }
                i += 1;
            }
            assert(s@.subrange(0, i as int) =~= s@);
        },
        None => {
            assert(drills_of(r@) =~= hidden_of(h));
        },
    }
    r
}

/// Compiles a query into a fact-grain aggregation, joins of the external
/// dimensions in join order, and a re-aggregation at the drilldowns' grain.
/// Returns the SQL and the comma-separated list of the result's drill columns.
pub fn primary_agg(
    table: &TableSql,
    cuts: &[CutSql],
    drills: &[DrilldownSql],
    meas: &[MeasureSql],
    hidden_drills: Option<&[HiddenDrilldownSql]>,
) -> (r: (String, String))
    ensures
        r.0@ == agg_sql(*table, cuts@, drills@, meas@, hidden_of(hidden_drills), None),
        r.1@ == joined(drill_texts(drills@), comma()),
{
    let cs = cut_refs(cuts);
    let ds = drill_refs(drills);
    let mut ms: Vec<&MeasureSql> = Vec::new();
    append_measure_refs(&mut ms, meas);
    assert(meas_of(ms@) =~= meas@);
    let hs = hidden_refs(hidden_drills);
    let (sql, cols) = compile_agg(table, &cs, &ds, &ms, &hs, None);
    let joined_cols = join_comma(&cols);
    (sql, joined_cols)
}

} // verus!
