//! The structured query description that the compiler consumes.
use vstd::prelude::*;
use crate::text::{comma, join, join_comma, joined, lemma_subrange_push, lemma_texts_push, push, texts};

verus! {

/// A physical table, optionally in a schema.
pub struct Table {
    pub name: String,
    pub schema: Option<String>,
    pub primary_key: Option<String>,
}

/// The fact table of a query.
pub struct TableSql {
    pub name: String,
    pub primary_key: Option<String>,
}

/// Whether a cut's members are written as quoted literals.
#[derive(Clone, Copy, PartialEq, Eq, Debug)]
pub enum MemberType {
    Text,
    NonText,
}

/// One hierarchy level: its key column and, optionally, a label column.
pub struct LevelColumn {
    pub key_column: String,
    pub name_column: Option<String>,
}

/// A filter restricting a dimension to a list of members.
pub struct CutSql {
    pub foreign_key: String,
    pub primary_key: String,
    pub table: Table,
    pub column: String,
    pub members: Vec<String>,
    pub member_type: MemberType,
    /// A subquery that stands in for `table`.
    pub inline_table: Option<String>,
}

/// A dimension hierarchy requested for grouping and output.
pub struct DrilldownSql {
    pub foreign_key: String,
    pub primary_key: String,
    pub table: Table,
    pub level_columns: Vec<LevelColumn>,
    pub property_columns: Vec<String>,
    /// A subquery that stands in for `table`.
    pub inline_table: Option<String>,
}

/// A drilldown grouped on at fact grain but never projected in the result.
pub struct HiddenDrilldownSql {
    pub drilldown_sql: DrilldownSql,
}

/// An aggregated measure: `aggregator(column)`.
pub struct MeasureSql {
    pub aggregator: String,
    pub column: String,
}

/// The two axes and the measure of a ratio comparison `(a/b)/(c/d)`.
pub struct RcaSql {
    pub drill_1: Vec<DrilldownSql>,
    pub drill_2: Vec<DrilldownSql>,
    pub mea: MeasureSql,
}

/// The time drilldown and the measure of a period-over-period growth.
pub struct GrowthSql {
    pub time_drill: DrilldownSql,
    pub mea: String,
}

#[derive(Clone, Copy, PartialEq, Eq, Debug)]
pub enum SortDirection {
    Asc,
    Desc,
}

/// Keep the first `n` rows of each `by_column` group, ordered by `sort_columns`.
pub struct TopSql {
    pub n: u64,
    pub by_column: String,
    pub sort_columns: Vec<String>,
    pub sort_direction: SortDirection,
}

/// A predicate `by_column constraint` applied after the top-N step.
pub struct TopWhereSql {
    pub by_column: String,
    pub constraint: String,
}

/// Sort by `column`, or by the result's drill columns when it is `None`.
pub struct SortSql {
    pub direction: SortDirection,
    pub column: Option<String>,
}

/// Skip `offset` rows, then keep at most `n`.
pub struct LimitSql {
    pub offset: Option<u64>,
    pub n: u64,
}

pub open spec fn direction_text(d: SortDirection) -> Seq<char> {
    match d {
        SortDirection::Asc => "asc"@,
        SortDirection::Desc => "desc"@,
    }
}

impl SortDirection {
    pub fn sql_string(&self) -> (r: String)
        ensures
            r@ == direction_text(*self),
    {
        match self {
            SortDirection::Asc => String::from_str("asc"),
            SortDirection::Desc => String::from_str("desc"),
        }
    }
}

/// `schema.name`, or `name` without a schema.
pub open spec fn table_text(t: Table) -> Seq<char> {
    match t.schema {
        Some(s) => s@ + "."@ + t.name@,
        None => t.name@,
    }
}

impl Table {
    pub fn full_name(&self) -> (r: String)
        ensures
            r@ == table_text(*self),
    {
        match &self.schema {
            Some(s) => {
                let mut r = s.clone();
                push(&mut r, ".");
                push(&mut r, self.name.as_str());
                r
            },
            None => self.name.clone(),
        }
    }
}

/// A member as a quoted SQL literal.
pub open spec fn quoted(m: Seq<char>) -> Seq<char> {
    "'"@ + m + "'"@
}

/// Each member of `c` as it is written in SQL.
pub open spec fn member_texts(c: CutSql) -> Seq<Seq<char>> {
    match c.member_type {
        MemberType::Text => texts(c.members@).map_values(|m: Seq<char>| quoted(m)),
        MemberType::NonText => texts(c.members@),
    }
}

/// The comma-separated member list of `c`.
pub open spec fn members_text(c: CutSql) -> Seq<char> {
    joined(member_texts(c), comma())
}

/// The predicate `column in (members)` of `c`.
pub open spec fn cut_text(c: CutSql) -> Seq<char> {
    c.column@ + " in ("@ + members_text(c) + ")"@
}

/// The columns of one level: its key, then its label if it has one.
pub open spec fn level_texts(l: LevelColumn) -> Seq<Seq<char>> {
    match l.name_column {
        Some(n) => seq![l.key_column@, n@],
        None => seq![l.key_column@],
    }
}

/// The columns of a list of levels, coarsest first.
pub open spec fn levels_texts(ls: Seq<LevelColumn>) -> Seq<Seq<char>>
    decreases ls.len(),
{
    if ls.len() == 0 {
        Seq::empty()
    } else {
        levels_texts(ls.drop_last()) + level_texts(ls.last())
    }
}

/// Every column of a drilldown: the level columns, then the properties.
pub open spec fn drill_columns(d: DrilldownSql) -> Seq<Seq<char>> {
    levels_texts(d.level_columns@) + texts(d.property_columns@)
}

/// The comma-separated columns of a drilldown.
pub open spec fn drill_text(d: DrilldownSql) -> Seq<char> {
    joined(drill_columns(d), comma())
}

/// The columns of a drilldown, each qualified by the drilldown's table.
pub open spec fn drill_qual_text(d: DrilldownSql) -> Seq<char> {
    joined(drill_columns(d).map_values(|c: Seq<char>| table_text(d.table) + "."@ + c), comma())
}

impl CutSql {
    /// The members, comma separated; quoted when they are text.
    pub fn members_string(&self) -> (r: String)
        ensures
            r@ == members_text(*self),
    {
        let mut parts: Vec<String> = Vec::new();
        let mut i: usize = 0;
        while i < self.members.len()
            invariant
                i <= self.members@.len(),
                texts(parts@) =~= member_texts(*self).subrange(0, i as int),
            decreases self.members@.len() - i,
        {
            let m = &self.members[i];
            let ghost before = parts@;
            let q = match self.member_type {
                MemberType::Text => {
                    let mut q = String::from_str("'");
                    push(&mut q, m.as_str());
                    push(&mut q, "'");
                    q
                },
                MemberType::NonText => m.clone(),
            };
            parts.push(q);
            proof {
                lemma_texts_push(before, q);
                lemma_subrange_push(member_texts(*self), i as int);
            }
            i += 1;
        }
        proof {
            assert(member_texts(*self).subrange(0, i as int) =~= member_texts(*self));
        }
        join_comma(&parts)
    }

    /// The predicate `column in (members)`.
    pub fn cut_string(&self) -> (r: String)
        ensures
            r@ == cut_text(*self),
    {
        let mut r = self.column.clone();
        push(&mut r, " in (");
        let m = self.members_string();
        push(&mut r, m.as_str());
        push(&mut r, ")");
        r
    }
}

impl DrilldownSql {
    /// Every column of the drilldown, in order.
    pub fn col_vec(&self) -> (r: Vec<String>)
        ensures
            texts(r@) == drill_columns(*self),
    {
        let mut r: Vec<String> = Vec::new();
        let mut i: usize = 0;
        while i < self.level_columns.len()
            invariant
                i <= self.level_columns@.len(),
                texts(r@) =~= levels_texts(self.level_columns@.subrange(0, i as int)),
            decreases self.level_columns@.len() - i,
        {
            let l = &self.level_columns[i];
            proof {
                assert(self.level_columns@.subrange(0, i + 1).drop_last()
                    =~= self.level_columns@.subrange(0, i as int));
            }
            r.push(l.key_column.clone());
            match &l.name_column {
                Some(n) => {
                    r.push(n.clone());
                },
                None => {},
            }
            i += 1;
        }
        proof {
            assert(self.level_columns@.subrange(0, i as int) =~= self.level_columns@);
        }
        let ghost levels = texts(r@);
        let mut j: usize = 0;
        while j < self.property_columns.len()
            invariant
                j <= self.property_columns@.len(),
                texts(r@) =~= levels + texts(self.property_columns@.subrange(0, j as int)),
            decreases self.property_columns@.len() - j,
        {
            let ghost before = r@;
            let p = self.property_columns[j].clone();
            r.push(p);
            proof {
                lemma_texts_push(before, p);
                lemma_subrange_push(self.property_columns@, j as int);
                assert(texts(self.property_columns@.subrange(0, j + 1)) =~= texts(
                    self.property_columns@.subrange(0, j as int),
                ).push(p@));
            }
            j += 1;
        }
        proof {
            assert(self.property_columns@.subrange(0, j as int) =~= self.property_columns@);
        }
        r
    }

    /// The columns, comma separated.
    pub fn col_string(&self) -> (r: String)
        ensures
            r@ == drill_text(*self),
    {
        let cols = self.col_vec();
        join_comma(&cols)
    }

    /// The columns, each qualified by the table, comma separated.
    pub fn col_qual_string(&self) -> (r: String)
        ensures
            r@ == drill_qual_text(*self),
    {
        let cols = self.col_vec();
        let table = self.table.full_name();
        let mut parts: Vec<String> = Vec::new();
        let mut i: usize = 0;
        while i < cols.len()
            invariant
                i <= cols@.len(),
                table@ == table_text(self.table),
                texts(cols@) == drill_columns(*self),
                texts(parts@) =~= drill_columns(*self).map_values(
                    |c: Seq<char>| table_text(self.table) + "."@ + c,
                ).subrange(0, i as int),
            decreases cols@.len() - i,
        {
            let mut q = table.clone();
            push(&mut q, ".");
            push(&mut q, cols[i].as_str());
            let ghost before = parts@;
            parts.push(q);
            proof {
                lemma_texts_push(before, q);
                assert(texts(cols@)[i as int] == cols@[i as int]@);
                lemma_subrange_push(
                    drill_columns(*self).map_values(
                        |c: Seq<char>| table_text(self.table) + "."@ + c,
                    ),
                    i as int,
                );
            }
            i += 1;
        }
        proof {
            assert(drill_columns(*self).map_values(
                |c: Seq<char>| table_text(self.table) + "."@ + c,
            ).subrange(0, i as int) =~= drill_columns(*self).map_values(
                |c: Seq<char>| table_text(self.table) + "."@ + c,
            ));
        }
        join(&parts, ", ")
    }
}

} // verus!
