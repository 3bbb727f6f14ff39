//! The growth compiler: relates each row to the row of the previous time value
//! with the same other drill columns, and keeps only rows that have one.
use vstd::prelude::*;
use crate::dims::kept;
use crate::query_ir::{GrowthSql, drill_text};
use crate::text::{comma, join_comma, joined, lemma_texts_push, push, texts};

verus! {

/// The drill columns other than the time drilldown's.
pub open spec fn other_drills(drills: Seq<Seq<char>>, g: GrowthSql) -> Seq<Seq<char>> {
    kept(drills, |c: Seq<char>| c != drill_text(g.time_drill))
}

/// `partition by cols `, or nothing when there is no column.
pub open spec fn partition_text(cols: Seq<Seq<char>>) -> Seq<char> {
    if cols.len() == 0 {
        Seq::empty()
    } else {
        "partition by "@ + joined(cols, comma()) + " "@
    }
}

/// The growth query: `prev_value` is the measure at the previous time value,
/// `growth_value` and `growth_pct` the change from it; the first time value of
/// each group has no predecessor and is dropped.
pub open spec fn growth_sql(sql: Seq<char>, drills: Seq<Seq<char>>, g: GrowthSql) -> Seq<char> {
    "select * from (select *, "@ + g.mea@ + " - prev_value as growth_value, ("@ + g.mea@
        + " - prev_value) / prev_value as growth_pct from (select *, lagInFrame("@ + g.mea@
        + ") over w as prev_value, row_number() over w as growth_row from ("@ + sql
        + ") window w as ("@ + partition_text(other_drills(drills, g)) + "order by "@ + drill_text(
        g.time_drill,
    ) + " rows between unbounded preceding and unbounded following))) where growth_row > 1"@
}

fn other_drill_strings(drills: &Vec<String>, g: &GrowthSql) -> (r: Vec<String>)
    ensures
        texts(r@) == other_drills(texts(drills@), *g),
{
    let time = g.time_drill.col_string();
    let ghost p = |c: Seq<char>| c != drill_text(g.time_drill);
    let mut r: Vec<String> = Vec::new();
    let mut i: usize = 0;
    while i < drills.len()
        invariant
            i <= drills@.len(),
            time@ == drill_text(g.time_drill),
            p == |c: Seq<char>| c != drill_text(g.time_drill),
            texts(r@) == kept(texts(drills@).subrange(0, i as int), p),
        decreases drills@.len() - i,
    {
        proof {
            assert(texts(drills@).subrange(0, i + 1).drop_last() =~= texts(drills@).subrange(
                0,
                i as int,
            ));
            assert(texts(drills@)[i as int] == drills@[i as int]@);
        }
        if !(drills[i] == time) {
            let ghost before = r@;
            let c = drills[i].clone();
            r.push(c);
            proof {
                lemma_texts_push(before, c);
            }
        }
        i += 1;
    }
    assert(texts(drills@).subrange(0, i as int) =~= texts(drills@));
    r
}

/// Adds the growth of `g.mea` along `g.time_drill` to the rows of `sql`, whose
/// drill columns are `drills`. The drill columns of the result are the same.
pub fn growth_stage(sql: &String, drills: &Vec<String>, g: &GrowthSql) -> (r: String)
    ensures
        r@ == growth_sql(sql@, texts(drills@), *g),
{
    let others = other_drill_strings(drills, g);
    let mut partition = String::new();
    if others.len() != 0 {
        push(&mut partition, "partition by ");
        let p = join_comma(&others);
        push(&mut partition, p.as_str());
        push(&mut partition, " ");
    }
    let time = g.time_drill.col_string();
    let mut r = String::from_str("select * from (select *, ");
    push(&mut r, g.mea.as_str());
    push(&mut r, " - prev_value as growth_value, (");
    push(&mut r, g.mea.as_str());
    push(&mut r, " - prev_value) / prev_value as growth_pct from (select *, lagInFrame(");
    push(&mut r, g.mea.as_str());
    push(&mut r, ") over w as prev_value, row_number() over w as growth_row from (");
    push(&mut r, sql.as_str());
    push(&mut r, ") window w as (");
    push(&mut r, partition.as_str());
    push(&mut r, "order by ");
    push(&mut r, time.as_str());
    push(
        &mut r,
        " rows between unbounded preceding and unbounded following))) where growth_row > 1",
    );
    r
}

} // verus!
