//! The wrapping clauses: top-N per group, a filter after it, a sort and a limit.
use vstd::prelude::*;
use crate::query_ir::{LimitSql, SortSql, TopSql, TopWhereSql, direction_text};
use crate::text::{comma, decimal, decimal_string, join_comma, joined, push, texts};

verus! {

/// ` order by cols dir`, or nothing when there is no column.
pub open spec fn order_suffix(cols: Seq<Seq<char>>, dir: Seq<char>) -> Seq<char> {
    if cols.len() == 0 {
        Seq::empty()
    } else {
        " order by "@ + joined(cols, comma()) + " "@ + dir
    }
}

/// The first `n` rows of each `by_column` group.
pub open spec fn top_text(sql: Seq<char>, top: TopSql) -> Seq<char> {
    "select * from ("@ + sql + ")"@ + order_suffix(
        texts(top.sort_columns@),
        direction_text(top.sort_direction),
    ) + " limit "@ + decimal(top.n as nat) + " by "@ + top.by_column@
}

/// The rows that satisfy `by_column constraint`.
pub open spec fn top_where_text(sql: Seq<char>, w: TopWhereSql) -> Seq<char> {
    "select * from ("@ + sql + ") where "@ + w.by_column@ + " "@ + w.constraint@
}

/// The columns a sort orders by: its own column, or else the drill columns.
pub open spec fn sort_columns(sort: SortSql, drills: Seq<Seq<char>>) -> Seq<Seq<char>> {
    match sort.column {
        Some(c) => seq![c@],
        None => drills,
    }
}

/// The rows in sorted order; unchanged when there is no column to sort by.
pub open spec fn sort_text(sql: Seq<char>, sort: SortSql, drills: Seq<Seq<char>>) -> Seq<char> {
    let cols = sort_columns(sort, drills);
    if cols.len() == 0 {
        sql
    } else {
        "select * from ("@ + sql + ") order by "@ + joined(cols, comma()) + " "@ + direction_text(
            sort.direction,
        ) + " "@
    }
}

/// At most `n` rows after skipping `offset`.
pub open spec fn limit_text(sql: Seq<char>, limit: LimitSql) -> Seq<char> {
    "select * from ("@ + sql + ") limit "@ + match limit.offset {
        Some(o) => decimal(o as nat) + ", "@,
        None => Seq::empty(),
    } + decimal(limit.n as nat)
}

/// Each present clause, in the order top, filter, sort, limit.
pub open spec fn wrap_text(
    sql: Seq<char>,
    drills: Seq<Seq<char>>,
    top: Option<TopSql>,
    top_where: Option<TopWhereSql>,
    sort: Option<SortSql>,
    limit: Option<LimitSql>,
) -> Seq<char> {
    let s1 = match top {
        Some(t) => top_text(sql, t),
        None => sql,
    };
    let s2 = match top_where {
        Some(w) => top_where_text(s1, w),
        None => s1,
    };
    let s3 = match sort {
        Some(s) => sort_text(s2, s, drills),
        None => s2,
    };
    match limit {
        Some(l) => limit_text(s3, l),
        None => s3,
    }
}

fn top_string(sql: &String, top: &TopSql) -> (r: String)
    ensures
        r@ == top_text(sql@, *top),
{
    let mut r = String::from_str("select * from (");
    push(&mut r, sql.as_str());
    push(&mut r, ")");
    let mut order = String::new();
    if top.sort_columns.len() != 0 {
        push(&mut order, " order by ");
        let cols = join_comma(&top.sort_columns);
        push(&mut order, cols.as_str());
        push(&mut order, " ");
        let dir = top.sort_direction.sql_string();
        push(&mut order, dir.as_str());
    }
    push(&mut r, order.as_str());
    push(&mut r, " limit ");
    let n = decimal_string(top.n);
    push(&mut r, n.as_str());
    push(&mut r, " by ");
    push(&mut r, top.by_column.as_str());
    r
}

fn top_where_string(sql: &String, w: &TopWhereSql) -> (r: String)
    ensures
        r@ == top_where_text(sql@, *w),
{
    let mut r = String::from_str("select * from (");
    push(&mut r, sql.as_str());
    push(&mut r, ") where ");
    push(&mut r, w.by_column.as_str());
    push(&mut r, " ");
    push(&mut r, w.constraint.as_str());
    r
}

fn sort_string(sql: String, sort: &SortSql, drills: &Vec<String>) -> (r: String)
    ensures
        r@ == sort_text(sql@, *sort, texts(drills@)),
{
    let cols = match &sort.column {
        Some(c) => {
            let mut v: Vec<String> = Vec::new();
            v.push(c.clone());
            assert(texts(v@) =~= seq![c@]);
            v
        },
        None => {
            let mut v: Vec<String> = Vec::new();
            crate::primary_agg::extend(&mut v, drills);
            assert(texts(v@) =~= texts(drills@));
            v
        },
    };
    if cols.len() == 0 {
        sql
    } else {
        let mut r = String::from_str("select * from (");
        push(&mut r, sql.as_str());
        push(&mut r, ") order by ");
        let c = join_comma(&cols);
        push(&mut r, c.as_str());
        push(&mut r, " ");
        let dir = sort.direction.sql_string();
        push(&mut r, dir.as_str());
        push(&mut r, " ");
        r
    }
}

fn limit_string(sql: &String, limit: &LimitSql) -> (r: String)
    ensures
        r@ == limit_text(sql@, *limit),
{
    let mut r = String::from_str("select * from (");
    push(&mut r, sql.as_str());
    push(&mut r, ") limit ");
    let mut skip = String::new();
    match limit.offset {
        Some(o) => {
            let d = decimal_string(o);
            push(&mut skip, d.as_str());
            push(&mut skip, ", ");
        },
        None => {},
    }
    push(&mut r, skip.as_str());
    let n = decimal_string(limit.n);
    push(&mut r, n.as_str());
    r
}

/// Wraps `sql` in each clause that is present, in the order top, filter, sort,
/// limit; an absent clause adds nothing.
pub fn wrap_options(
    sql: String,
    drills: &Vec<String>,
    top: &Option<TopSql>,
    top_where: &Option<TopWhereSql>,
    sort: &Option<SortSql>,
    limit: &Option<LimitSql>,
) -> (r: String)
    ensures
        r@ == wrap_text(sql@, texts(drills@), *top, *top_where, *sort, *limit),
{
    let s1 = match top {
        Some(t) => top_string(&sql, t),
        None => sql,
    };
    let s2 = match top_where {
        Some(w) => top_where_string(&s1, w),
        None => s1,
    };
    let s3 = match sort {
        Some(s) => sort_string(s2, s, drills),
        None => s2,
    };
    match limit {
        Some(l) => limit_string(&s3, l),
        None => s3,
    }
}

} // verus!
