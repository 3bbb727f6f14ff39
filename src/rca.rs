//! The ratio compiler: `(a/b) / (c/d)`, each of a, b, c and d an aggregation
//! over its own combination of drilldowns and cuts.
use vstd::prelude::*;
use crate::dims::{cuts_of, drills_of, kept};
use crate::primary_agg::{
    agg_sql, append_drill_refs, append_measure_refs, compile_agg, drill_texts, meas_of,
};
use crate::query_ir::{CutSql, DrilldownSql, MeasureSql, RcaSql, TableSql};
use crate::text::{
    comma, final_alias, final_alias_string, join_comma, joined, lemma_map_push,
    lemma_subrange_push, lemma_texts_push, measure_alias, measure_alias_string, push, texts,
};

verus! {

/// The key column of every level of every drilldown, in order.
pub open spec fn key_columns(ds: Seq<DrilldownSql>) -> Seq<Seq<char>>
    decreases ds.len(),
{
    if ds.len() == 0 {
        Seq::empty()
    } else {
        key_columns(ds.drop_last()) + ds.last().level_columns@.map_values(
            |l: crate::query_ir::LevelColumn| l.key_column@,
        )
    }
}

/// The cuts whose column is none of `keys`.
pub open spec fn cuts_outside(cuts: Seq<CutSql>, keys: Seq<Seq<char>>) -> Seq<CutSql> {
    kept(cuts, |c: CutSql| !keys.contains(c.column@))
}

/// `left` joined with `right` on the `using` columns; a cross join when there
/// is no column to join on.
pub open spec fn join_text(left: Seq<char>, right: Seq<char>, using: Seq<Seq<char>>) -> Seq<char> {
    if using.len() == 0 {
        "select * from ("@ + left + ") cross join ("@ + right + ")"@
    } else {
        "select * from ("@ + left + ") all inner join ("@ + right + ") using "@ + joined(
            using,
            comma(),
        )
    }
}

/// The ratio measure first, then the caller's measures.
pub open spec fn ratio_measures(mea: MeasureSql, meas: Seq<MeasureSql>) -> Seq<MeasureSql> {
    seq![mea] + meas
}

/// The caller's measures, which follow the ratio measure: each pass-2 alias
/// `final_m{i}` projected under its pass-1 name `m{i}`, for `i` from 1.
pub open spec fn passed_measures(n: nat) -> Seq<Seq<char>> {
    Seq::new(n, |i: int| final_alias((i + 1) as nat) + " as "@ + measure_alias((i + 1) as nat))
}

/// The drilldowns of variant a: the caller's, then both axes.
pub open spec fn a_drills(drills: Seq<DrilldownSql>, rca: RcaSql) -> Seq<DrilldownSql> {
    drills + rca.drill_1@ + rca.drill_2@
}

pub open spec fn ac_cuts(cuts: Seq<CutSql>, rca: RcaSql) -> Seq<CutSql> {
    cuts_outside(cuts, key_columns(rca.drill_2@))
}

pub open spec fn bd_cuts(cuts: Seq<CutSql>, rca: RcaSql) -> Seq<CutSql> {
    cuts_outside(cuts, key_columns(rca.drill_1@ + rca.drill_2@))
}

/// One variant of the ratio, its measure 0 renamed to `name`.
pub open spec fn variant(
    t: TableSql,
    cuts: Seq<CutSql>,
    drills: Seq<DrilldownSql>,
    meas: Seq<MeasureSql>,
    name: Seq<char>,
) -> Seq<char> {
    agg_sql(t, cuts, drills, meas, Seq::empty(), Some(name))
}

/// Variant d: no axis added, measure 0 renamed to `d`.
pub open spec fn d_variant(
    t: TableSql,
    cuts: Seq<CutSql>,
    drills: Seq<DrilldownSql>,
    meas: Seq<MeasureSql>,
    rca: RcaSql,
) -> Seq<char> {
    variant(t, bd_cuts(cuts, rca), drills, ratio_measures(rca.mea, meas), "d"@)
}

/// Variants c, a and b joined: c with (a with b).
pub open spec fn cab_joins(
    t: TableSql,
    cuts: Seq<CutSql>,
    drills: Seq<DrilldownSql>,
    meas: Seq<MeasureSql>,
    rca: RcaSql,
) -> Seq<char> {
    let all = ratio_measures(rca.mea, meas);
    let bd = drills + rca.drill_2@;
    let cd = drills + rca.drill_1@;
    let a = variant(t, ac_cuts(cuts, rca), a_drills(drills, rca), all, "a"@);
    let b = variant(t, bd_cuts(cuts, rca), bd, all, "b"@);
    let c = variant(t, ac_cuts(cuts, rca), cd, all, "c"@);
    join_text(c, join_text(a, b, drill_texts(bd)), drill_texts(cd))
}

/// The four variants joined: d with (c with (a with b)).
#[verifier::opaque]
pub open spec fn rca_joins(
    t: TableSql,
    cuts: Seq<CutSql>,
    drills: Seq<DrilldownSql>,
    meas: Seq<MeasureSql>,
    rca: RcaSql,
) -> Seq<char> {
    join_text(
        d_variant(t, cuts, drills, meas, rca),
        cab_joins(t, cuts, drills, meas, rca),
        drill_texts(drills),
    )
}

/// The ratio query: a's drill columns, the ratio, and the caller's measures.
pub open spec fn rca_sql(
    t: TableSql,
    cuts: Seq<CutSql>,
    drills: Seq<DrilldownSql>,
    meas: Seq<MeasureSql>,
    rca: RcaSql,
) -> Seq<char> {
    "select "@ + joined(
        drill_texts(a_drills(drills, rca)) + seq!["((a/b) / (c/d)) as rca"@] + passed_measures(
            meas.len(),
        ),
        comma(),
    ) + " from ("@ + rca_joins(t, cuts, drills, meas, rca) + ")"@
}

fn key_column_strings(ds: &Vec<&DrilldownSql>) -> (r: Vec<String>)
    ensures
        texts(r@) == key_columns(drills_of(ds@)),
{
    let mut r: Vec<String> = Vec::new();
    let mut i: usize = 0;
    while i < ds.len()
        invariant
            i <= ds@.len(),
            texts(r@) == key_columns(drills_of(ds@).subrange(0, i as int)),
        decreases ds@.len() - i,
    {
        let d = ds[i];
        let ghost start = texts(r@);
        let mut j: usize = 0;
        while j < d.level_columns.len()
            invariant
                j <= d.level_columns@.len(),
                texts(r@) =~= start + d.level_columns@.subrange(0, j as int).map_values(
                    |l: crate::query_ir::LevelColumn| l.key_column@,
                ),
            decreases d.level_columns@.len() - j,
        {
            let ghost before = r@;
            let k = d.level_columns[j].key_column.clone();
            r.push(k);
            proof {
                lemma_texts_push(before, k);
                lemma_subrange_push(d.level_columns@, j as int);
                lemma_map_push(
                    d.level_columns@.subrange(0, j as int),
                    d.level_columns@[j as int],
                    |l: crate::query_ir::LevelColumn| l.key_column@,
                );
            }
            j += 1;
        }
        proof {
            assert(d.level_columns@.subrange(0, j as int) =~= d.level_columns@);
            assert(drills_of(ds@).subrange(0, i + 1).drop_last() =~= drills_of(ds@).subrange(
                0,
                i as int,
            ));
        }
        i += 1;
    }
    assert(drills_of(ds@).subrange(0, i as int) =~= drills_of(ds@));
    r
}

fn contains_string(v: &Vec<String>, s: &String) -> (r: bool)
    ensures
        r == texts(v@).contains(s@),
{
    let mut i: usize = 0;
    while i < v.len()
        invariant
            i <= v@.len(),
            forall|j: int| 0 <= j < i ==> v@[j]@ != s@,
        decreases v@.len() - i,
    {
        if v[i] == *s {
            assert(texts(v@)[i as int] == s@);
            return true;
        }
        i += 1;
    }
    assert forall|j: int| 0 <= j < texts(v@).len() implies texts(v@)[j] != s@ by {
        assert(texts(v@)[j] == v@[j]@);
    }
    false
}

fn cuts_excluding<'a>(cuts: &'a [CutSql], keys: &Vec<String>) -> (r: Vec<&'a CutSql>)
    ensures
        cuts_of(r@) == cuts_outside(cuts@, texts(keys@)),
{
    let ghost p = |c: CutSql| !texts(keys@).contains(c.column@);
    let mut r: Vec<&'a CutSql> = Vec::new();
    let mut i: usize = 0;
    while i < cuts.len()
        invariant
            i <= cuts@.len(),
            p == |c: CutSql| !texts(keys@).contains(c.column@),
            cuts_of(r@) == kept(cuts@.subrange(0, i as int), p),
        decreases cuts@.len() - i,
    {
        proof {
            assert(cuts@.subrange(0, i + 1).drop_last() =~= cuts@.subrange(0, i as int));
        }
        if !contains_string(keys, &cuts[i].column) {
            let ghost before = r@;
            r.push(&cuts[i]);
            proof {
                lemma_map_push(before, &cuts@[i as int], |c: &CutSql| *c);
            }
        }
        i += 1;
    }
    assert(cuts@.subrange(0, i as int) =~= cuts@);
    r
}

/// `left` joined with `right` on `using`, or crossed when `using` is empty.
pub fn join_string(left: &String, right: &String, using: &Vec<String>) -> (r: String)
    ensures
        r@ == join_text(left@, right@, texts(using@)),
{
    let mut r = String::from_str("select * from (");
    push(&mut r, left.as_str());
    if using.len() == 0 {
        push(&mut r, ") cross join (");
        push(&mut r, right.as_str());
        push(&mut r, ")");
    } else {
        push(&mut r, ") all inner join (");
        push(&mut r, right.as_str());
        push(&mut r, ") using ");
        let u = join_comma(using);
        push(&mut r, u.as_str());
    }
    r
}

/// The four variants, joined.
fn joins_string(
    table: &TableSql,
    cuts: &[CutSql],
    drills: &[DrilldownSql],
    meas: &[MeasureSql],
    rca: &RcaSql,
) -> (r: String)
    ensures
        r@ == rca_joins(*table, cuts@, drills@, meas@, *rca),
{
    reveal(rca_joins);
    let mut a_ds: Vec<&DrilldownSql> = Vec::new();
    append_drill_refs(&mut a_ds, drills);
    let mut b_ds: Vec<&DrilldownSql> = Vec::new();
    append_drill_refs(&mut b_ds, drills);
    let mut c_ds: Vec<&DrilldownSql> = Vec::new();
    append_drill_refs(&mut c_ds, drills);
    let mut d_ds: Vec<&DrilldownSql> = Vec::new();
    append_drill_refs(&mut d_ds, drills);
    append_drill_refs(&mut a_ds, rca.drill_1.as_slice());
    append_drill_refs(&mut a_ds, rca.drill_2.as_slice());
    append_drill_refs(&mut b_ds, rca.drill_2.as_slice());
    append_drill_refs(&mut c_ds, rca.drill_1.as_slice());
    assert(drills_of(d_ds@) =~= drills@);

    let mut all_meas: Vec<&MeasureSql> = Vec::new();
    all_meas.push(&rca.mea);
    append_measure_refs(&mut all_meas, meas);
    assert(meas_of(all_meas@) =~= ratio_measures(rca.mea, meas@));

    let mut axis_2: Vec<&DrilldownSql> = Vec::new();
    append_drill_refs(&mut axis_2, rca.drill_2.as_slice());
    let mut both_axes: Vec<&DrilldownSql> = Vec::new();
    append_drill_refs(&mut both_axes, rca.drill_1.as_slice());
    append_drill_refs(&mut both_axes, rca.drill_2.as_slice());
    assert(drills_of(axis_2@) =~= rca.drill_2@);
    let ac_keys = key_column_strings(&axis_2);
    let bd_keys = key_column_strings(&both_axes);
    let ac = cuts_excluding(cuts, &ac_keys);
    let bd = cuts_excluding(cuts, &bd_keys);

    let no_hidden: Vec<&DrilldownSql> = Vec::new();
    assert(drills_of(no_hidden@) =~= Seq::<DrilldownSql>::empty());
    let (a, _a_cols) = compile_agg(table, &ac, &a_ds, &all_meas, &no_hidden, Some("a"));
    let (b, b_cols) = compile_agg(table, &bd, &b_ds, &all_meas, &no_hidden, Some("b"));
    let (c, c_cols) = compile_agg(table, &ac, &c_ds, &all_meas, &no_hidden, Some("c"));
    let (d, d_cols) = compile_agg(table, &bd, &d_ds, &all_meas, &no_hidden, Some("d"));

    let ab = join_string(&a, &b, &b_cols);
    let cab = join_string(&c, &ab, &c_cols);
    join_string(&d, &cab, &d_cols)
}

/// Compiles the ratio; returns the SQL and a's drill columns.
pub(crate) fn rca_stage(
    table: &TableSql,
    cuts: &[CutSql],
    drills: &[DrilldownSql],
    meas: &[MeasureSql],
    rca: &RcaSql,
) -> (r: (String, Vec<String>))
    ensures
        r.0@ == rca_sql(*table, cuts@, drills@, meas@, *rca),
        texts(r.1@) == drill_texts(a_drills(drills@, *rca)),
{
    let all = joins_string(table, cuts, drills, meas, rca);
    let mut a_ds: Vec<&DrilldownSql> = Vec::new();
    append_drill_refs(&mut a_ds, drills);
    append_drill_refs(&mut a_ds, rca.drill_1.as_slice());
    append_drill_refs(&mut a_ds, rca.drill_2.as_slice());
    let a_cols = crate::primary_agg::drill_strings(&a_ds);

    let mut list: Vec<String> = Vec::new();
    crate::primary_agg::extend(&mut list, &a_cols);
    let ghost before = list@;
    let ratio = String::from_str("((a/b) / (c/d)) as rca");
    list.push(ratio);
    proof {
        lemma_texts_push(before, ratio);
    }
    let ghost head = texts(list@);
    let mut i: usize = 0;
    while i < meas.len()
        invariant
            i <= meas@.len(),
            texts(list@) =~= head + passed_measures(meas@.len() as nat).subrange(0, i as int),
        decreases meas@.len() - i,
    {
        let mut f = final_alias_string(i + 1);
        push(&mut f, " as ");
        let m = measure_alias_string(i + 1);
        push(&mut f, m.as_str());
        let ghost before = list@;
        list.push(f);
        proof {
            lemma_texts_push(before, f);
            lemma_subrange_push(passed_measures(meas@.len() as nat), i as int);
        }
        i += 1;
    }
    assert(passed_measures(meas@.len() as nat).subrange(0, i as int) =~= passed_measures(
        meas@.len() as nat,
    ));
    assert(drills_of(a_ds@) == a_drills(drills@, *rca));
    assert(texts(list@) == drill_texts(a_drills(drills@, *rca)) + seq!["((a/b) / (c/d)) as rca"@]
        + passed_measures(meas@.len() as nat));
    let mut sql = String::from_str("select ");
    let l = join_comma(&list);
    push(&mut sql, l.as_str());
    push(&mut sql, " from (");
    push(&mut sql, all.as_str());
    push(&mut sql, ")");
    (sql, a_cols)
}

/// Compiles the ratio of ratios `(a/b) / (c/d)` of `rca.mea` over the two axes.
/// Returns the SQL and the comma-separated drill columns of the result.
pub fn calculate(
    table: &TableSql,
    cuts: &[CutSql],
    drills: &[DrilldownSql],
    meas: &[MeasureSql],
    rca: &RcaSql,
) -> (r: (String, String))
    ensures
        r.0@ == rca_sql(*table, cuts@, drills@, meas@, *rca),
        r.1@ == joined(drill_texts(a_drills(drills@, *rca)), comma()),
{
    let (sql, cols) = rca_stage(table, cuts, drills, meas, rca);
    let c = join_comma(&cols);
    (sql, c)
}

} // verus!
