//! Dimension classification (inline or external) and the order in which the
//! external dimensions are joined.
use vstd::prelude::*;
use crate::query_ir::{CutSql, DrilldownSql, Table, TableSql, drill_text, table_text};
use crate::text::push;

verus! {

/// The elements of `s` that satisfy `p`, in order.
pub open spec fn kept<A>(s: Seq<A>, p: spec_fn(A) -> bool) -> Seq<A>
    decreases s.len(),
{
    if s.len() == 0 {
        Seq::empty()
    } else if p(s.last()) {
        kept(s.drop_last(), p).push(s.last())
    } else {
        kept(s.drop_last(), p)
    }
}

/// A drilldown is inline when it reads the fact table itself and no subquery
/// stands in for its table.
pub open spec fn drill_is_inline(t: TableSql, d: DrilldownSql) -> bool {
    d.table.name@ == t.name@ && d.inline_table.is_none()
}

/// A cut is inline when it reads the fact table itself and no subquery stands
/// in for its table.
pub open spec fn cut_is_inline(t: TableSql, c: CutSql) -> bool {
    c.table.name@ == t.name@ && c.inline_table.is_none()
}

pub open spec fn inline_drills(t: TableSql, s: Seq<DrilldownSql>) -> Seq<DrilldownSql> {
    kept(s, |d: DrilldownSql| drill_is_inline(t, d))
}

pub open spec fn external_drills(t: TableSql, s: Seq<DrilldownSql>) -> Seq<DrilldownSql> {
    kept(s, |d: DrilldownSql| !drill_is_inline(t, d))
}

pub open spec fn inline_cuts(t: TableSql, s: Seq<CutSql>) -> Seq<CutSql> {
    kept(s, |c: CutSql| cut_is_inline(t, c))
}

pub open spec fn external_cuts(t: TableSql, s: Seq<CutSql>) -> Seq<CutSql> {
    kept(s, |c: CutSql| !cut_is_inline(t, c))
}

/// The drilldowns behind a list of references.
pub open spec fn drills_of(s: Seq<&DrilldownSql>) -> Seq<DrilldownSql> {
    s.map_values(|d: &DrilldownSql| *d)
}

/// The cuts behind a list of references.
pub open spec fn cuts_of(s: Seq<&CutSql>) -> Seq<CutSql> {
    s.map_values(|c: &CutSql| *c)
}

proof fn lemma_kept_step<A>(s: Seq<A>, p: spec_fn(A) -> bool, i: int)
    requires
        0 <= i < s.len(),
    ensures
        kept(s.subrange(0, i + 1), p) == if p(s[i]) {
            kept(s.subrange(0, i), p).push(s[i])
        } else {
            kept(s.subrange(0, i), p)
        },
{
    assert(s.subrange(0, i + 1).drop_last() =~= s.subrange(0, i));
}

/// Splits drilldowns into the inline ones and the external ones, each list in
/// input order.
pub fn split_drills<'a>(table: &TableSql, drills: &Vec<&'a DrilldownSql>) -> (r: (
    Vec<&'a DrilldownSql>,
    Vec<&'a DrilldownSql>,
))
    ensures
        drills_of(r.0@) == inline_drills(*table, drills_of(drills@)),
        drills_of(r.1@) == external_drills(*table, drills_of(drills@)),
{
    let mut inline: Vec<&'a DrilldownSql> = Vec::new();
    let mut external: Vec<&'a DrilldownSql> = Vec::new();
    let mut i: usize = 0;
    while i < drills.len()
        invariant
            i <= drills@.len(),
            drills_of(inline@) == inline_drills(*table, drills_of(drills@).subrange(0, i as int)),
            drills_of(external@) == external_drills(
                *table,
                drills_of(drills@).subrange(0, i as int),
            ),
        decreases drills@.len() - i,
    {
        let d = drills[i];
        proof {
            lemma_kept_step(drills_of(drills@), |d: DrilldownSql| drill_is_inline(*table, d), i as int);
            lemma_kept_step(drills_of(drills@), |d: DrilldownSql| !drill_is_inline(*table, d), i as int);
        }
        let ghost (bi, be) = (inline@, external@);
        if d.table.name == table.name && d.inline_table.is_none() {
            inline.push(d);
            assert(drills_of(inline@) =~= drills_of(bi).push(*d));
        } else {
            external.push(d);
            assert(drills_of(external@) =~= drills_of(be).push(*d));
        }
        i += 1;
    }
    assert(drills_of(drills@).subrange(0, i as int) =~= drills_of(drills@));
    (inline, external)
}

/// Splits cuts into the inline ones and the external ones, each list in input
/// order.
pub fn split_cuts<'a>(table: &TableSql, cuts: &Vec<&'a CutSql>) -> (r: (
    Vec<&'a CutSql>,
    Vec<&'a CutSql>,
))
    ensures
        cuts_of(r.0@) == inline_cuts(*table, cuts_of(cuts@)),
        cuts_of(r.1@) == external_cuts(*table, cuts_of(cuts@)),
{
    let mut inline: Vec<&'a CutSql> = Vec::new();
    let mut external: Vec<&'a CutSql> = Vec::new();
    let mut i: usize = 0;
    while i < cuts.len()
        invariant
            i <= cuts@.len(),
            cuts_of(inline@) == inline_cuts(*table, cuts_of(cuts@).subrange(0, i as int)),
            cuts_of(external@) == external_cuts(*table, cuts_of(cuts@).subrange(0, i as int)),
        decreases cuts@.len() - i,
    {
        let c = cuts[i];
        proof {
            lemma_kept_step(cuts_of(cuts@), |c: CutSql| cut_is_inline(*table, c), i as int);
            lemma_kept_step(cuts_of(cuts@), |c: CutSql| !cut_is_inline(*table, c), i as int);
        }
        let ghost (bi, be) = (inline@, external@);
        if c.table.name == table.name && c.inline_table.is_none() {
            inline.push(c);
            assert(cuts_of(inline@) =~= cuts_of(bi).push(*c));
        } else {
            external.push(c);
            assert(cuts_of(external@) =~= cuts_of(be).push(*c));
        }
        i += 1;
    }
    assert(cuts_of(cuts@).subrange(0, i as int) =~= cuts_of(cuts@));
    (inline, external)
}

/// The position of the first drilldown joined on `k`, or the length when none is.
pub open spec fn key_position(s: Seq<DrilldownSql>, k: Seq<char>) -> nat
    decreases s.len(),
{
    if s.len() == 0 {
        0
    } else if s[0].foreign_key@ == k {
        0
    } else {
        1 + key_position(s.drop_first(), k)
    }
}

/// The join order of the external drilldowns: input order, except that the
/// first one joined on the fact table's primary key is moved to the front.
pub open spec fn join_order(s: Seq<DrilldownSql>, pk: Option<String>) -> Seq<DrilldownSql> {
    match pk {
        Some(k) => {
            let i = key_position(s, k@) as int;
            if i < s.len() {
                seq![s[i]] + s.remove(i)
            } else {
                s
            }
        },
        None => s,
    }
}

pub proof fn lemma_key_position(s: Seq<DrilldownSql>, k: Seq<char>)
    ensures
        key_position(s, k) <= s.len(),
        key_position(s, k) < s.len() ==> s[key_position(s, k) as int].foreign_key@ == k,
        forall|j: int| 0 <= j < key_position(s, k) ==> s[j].foreign_key@ != k,
    decreases s.len(),
{
    if s.len() > 0 && s[0].foreign_key@ != k {
        lemma_key_position(s.drop_first(), k);
        assert forall|j: int| 0 <= j < key_position(s, k) implies s[j].foreign_key@ != k by {
            if j > 0 {
                assert(s[j] == s.drop_first()[j - 1]);
            }
        }
    }
}

/// Puts the external drilldowns in join order.
pub fn order_joins<'a>(table: &TableSql, ext: Vec<&'a DrilldownSql>) -> (r: Vec<&'a DrilldownSql>)
    ensures
        drills_of(r@) == join_order(drills_of(ext@), table.primary_key),
{
    match &table.primary_key {
        None => ext,
        Some(pk) => {
            let ghost s = drills_of(ext@);
            let mut ext = ext;
            let mut i: usize = 0;
            while i < ext.len() && !(ext[i].foreign_key == *pk)
                invariant
                    i <= ext@.len(),
                    s == drills_of(ext@),
                    forall|j: int| 0 <= j < i ==> s[j].foreign_key@ != pk@,
                decreases ext@.len() - i,
            {
                i += 1;
            }
            proof {
                lemma_key_position(s, pk@);
            }
            if i < ext.len() {
                assert(s[i as int].foreign_key@ == pk@);
                let ghost kp = key_position(s, pk@) as int;
                proof {
                    if kp < i as int {
                        assert(s[kp].foreign_key@ != pk@);
                    } else if kp > i as int {
                        assert(s[i as int].foreign_key@ != pk@);
                    }
                }
                assert(kp == i);
                let d = ext.remove(i);
                ext.insert(0, d);
                assert(drills_of(ext@) =~= seq![s[i as int]] + s.remove(i as int));
                ext
            } else {
                ext
            }
        },
    }
}

/// A joinable subquery built from one external drilldown.
pub struct DimSubquery {
    pub sql: String,
    pub foreign_key: String,
    pub dim_cols: String,
}

/// What a dimension reads from: its table, or the subquery that stands in for it.
pub open spec fn source_text(t: Table, inline: Option<String>) -> Seq<char> {
    match inline {
        Some(q) => "("@ + q@ + ") as "@ + table_text(t),
        None => table_text(t),
    }
}

/// The subquery of an external drilldown: its columns and its join key.
pub open spec fn dim_sql_text(d: DrilldownSql) -> Seq<char> {
    "select "@ + drill_text(d) + ", "@ + d.primary_key@ + " as "@ + d.foreign_key@ + " from "@
        + source_text(d.table, d.inline_table)
}

pub fn source_string(t: &Table, inline: &Option<String>) -> (r: String)
    ensures
        r@ == source_text(*t, *inline),
{
    match inline {
        Some(q) => {
            let mut r = String::from_str("(");
            push(&mut r, q.as_str());
            push(&mut r, ") as ");
            let name = t.full_name();
            push(&mut r, name.as_str());
            r
        },
        None => t.full_name(),
    }
}

/// Builds the joinable subquery of an external drilldown.
pub fn dim_subquery(d: &DrilldownSql) -> (r: DimSubquery)
    ensures
        r.sql@ == dim_sql_text(*d),
        r.foreign_key@ == d.foreign_key@,
        r.dim_cols@ == drill_text(*d),
{
    let cols = d.col_string();
    let mut sql = String::from_str("select ");
    push(&mut sql, cols.as_str());
    push(&mut sql, ", ");
    push(&mut sql, d.primary_key.as_str());
    push(&mut sql, " as ");
    push(&mut sql, d.foreign_key.as_str());
    push(&mut sql, " from ");
    let src = source_string(&d.table, &d.inline_table);
    push(&mut sql, src.as_str());
    DimSubquery { sql, foreign_key: d.foreign_key.clone(), dim_cols: cols }
}

} // verus!
