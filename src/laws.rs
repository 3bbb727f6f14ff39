//! Properties of the compiler, stated over its specifications and proved.
use vstd::prelude::*;
use crate::dims::{
    cut_is_inline, drill_is_inline, external_cuts, external_drills, inline_cuts, inline_drills,
    join_order, key_position, kept, lemma_key_position,
};
use crate::primary_agg::{agg_sql, drill_texts, pass2_texts, result_alias};
use crate::query_ir::{
    CutSql, DrilldownSql, MeasureSql, MemberType, RcaSql, SortSql, TableSql, direction_text,
    member_texts,
    members_text, quoted,
};
use crate::sql::clickhouse_text;
use crate::rca::{cab_joins, d_variant, join_text, rca_joins};
use crate::text::{comma, joined, measure_alias, texts};

verus! {

proof fn lemma_kept_partition<A>(s: Seq<A>, p: spec_fn(A) -> bool, q: spec_fn(A) -> bool)
    requires
        forall|x: A| #[trigger] q(x) == !p(x),
    ensures
        kept(s, p).len() + kept(s, q).len() == s.len(),
        forall|i: int| 0 <= i < kept(s, p).len() ==> p(#[trigger] kept(s, p)[i]),
        forall|i: int| 0 <= i < kept(s, q).len() ==> q(#[trigger] kept(s, q)[i]),
        forall|i: int| 0 <= i < s.len() && p(s[i]) ==> #[trigger] kept(s, p).contains(s[i]),
        forall|i: int| 0 <= i < s.len() && !p(s[i]) ==> #[trigger] kept(s, q).contains(s[i]),
    decreases s.len(),
{
    if s.len() > 0 {
        let r = s.drop_last();
        lemma_kept_partition(r, p, q);
        let kp = kept(r, p);
        let kq = kept(r, q);
        assert(kept(s, p) == if p(s.last()) {
            kp.push(s.last())
        } else {
            kp
        });
        assert(kept(s, q) == if q(s.last()) {
            kq.push(s.last())
        } else {
            kq
        });
        assert forall|i: int| 0 <= i < s.len() && p(s[i]) implies #[trigger] kept(
            s,
            p,
        ).contains(s[i]) by {
            if i < s.len() - 1 {
                assert(s[i] == r[i]);
                assert(kp.contains(r[i]));
                let j = choose|j: int| 0 <= j < kp.len() && kp[j] == r[i];
                assert(kept(s, p)[j] == s[i]);
            } else {
                assert(kept(s, p)[kept(s, p).len() - 1] == s[i]);
            }
        }
        assert forall|i: int| 0 <= i < s.len() && !p(s[i]) implies #[trigger] kept(
            s,
            q,
        ).contains(s[i]) by {
            if i < s.len() - 1 {
                assert(s[i] == r[i]);
                assert(kq.contains(r[i]));
                let j = choose|j: int| 0 <= j < kq.len() && kq[j] == r[i];
                assert(kept(s, q)[j] == s[i]);
            } else {
                assert(kept(s, q)[kept(s, q).len() - 1] == s[i]);
            }
        }
    }
}

/// Every drilldown is inline or external, never both: the two lists hold, between
/// them, as many entries as the input, every inline entry is inline, every
/// external entry is external, and each input entry lands in the list of its kind.
pub proof fn law_drill_partition(t: TableSql, drills: Seq<DrilldownSql>)
    ensures
        inline_drills(t, drills).len() + external_drills(t, drills).len() == drills.len(),
        forall|i: int|
            0 <= i < inline_drills(t, drills).len() ==> drill_is_inline(
                t,
                #[trigger] inline_drills(t, drills)[i],
            ),
        forall|i: int|
            0 <= i < external_drills(t, drills).len() ==> !drill_is_inline(
                t,
                #[trigger] external_drills(t, drills)[i],
            ),
        forall|i: int|
            0 <= i < drills.len() ==> if drill_is_inline(t, drills[i]) {
                inline_drills(t, drills).contains(drills[i])
            } else {
                external_drills(t, drills).contains(drills[i])
            },
{
    let p = |d: DrilldownSql| drill_is_inline(t, d);
    let q = |d: DrilldownSql| !drill_is_inline(t, d);
    lemma_kept_partition(drills, p, q);
    assert forall|i: int| 0 <= i < drills.len() implies if drill_is_inline(t, drills[i]) {
        inline_drills(t, drills).contains(drills[i])
    } else {
        external_drills(t, drills).contains(drills[i])
    } by {
        if drill_is_inline(t, drills[i]) {
            assert(kept(drills, p).contains(drills[i]));
        } else {
            assert(kept(drills, q).contains(drills[i]));
        }
    }
}

/// Every cut is inline or external, never both, in the same sense as for
/// drilldowns.
pub proof fn law_cut_partition(t: TableSql, cuts: Seq<CutSql>)
    ensures
        inline_cuts(t, cuts).len() + external_cuts(t, cuts).len() == cuts.len(),
        forall|i: int|
            0 <= i < inline_cuts(t, cuts).len() ==> cut_is_inline(
                t,
                #[trigger] inline_cuts(t, cuts)[i],
            ),
        forall|i: int|
            0 <= i < external_cuts(t, cuts).len() ==> !cut_is_inline(
                t,
                #[trigger] external_cuts(t, cuts)[i],
            ),
        forall|i: int|
            0 <= i < cuts.len() ==> if cut_is_inline(t, cuts[i]) {
                inline_cuts(t, cuts).contains(cuts[i])
            } else {
                external_cuts(t, cuts).contains(cuts[i])
            },
{
    let p = |c: CutSql| cut_is_inline(t, c);
    let q = |c: CutSql| !cut_is_inline(t, c);
    lemma_kept_partition(cuts, p, q);
    assert forall|i: int| 0 <= i < cuts.len() implies if cut_is_inline(t, cuts[i]) {
        inline_cuts(t, cuts).contains(cuts[i])
    } else {
        external_cuts(t, cuts).contains(cuts[i])
    } by {
        if cut_is_inline(t, cuts[i]) {
            assert(kept(cuts, p).contains(cuts[i]));
        } else {
            assert(kept(cuts, q).contains(cuts[i]));
        }
    }
}

/// When some external drilldown joins on the fact table's primary key, the
/// join order starts with such a drilldown, whatever the input order, and it
/// keeps every drilldown.
pub proof fn law_primary_key_joins_first(ext: Seq<DrilldownSql>, pk: String)
    requires
        exists|j: int| 0 <= j < ext.len() && #[trigger] ext[j].foreign_key@ == pk@,
    ensures
        join_order(ext, Some(pk)).len() == ext.len(),
        join_order(ext, Some(pk))[0].foreign_key@ == pk@,
        forall|j: int| 0 <= j < ext.len() ==> join_order(ext, Some(pk)).contains(#[trigger] ext[j]),
{
    lemma_key_position(ext, pk@);
    let i = key_position(ext, pk@) as int;
    let j0 = choose|j: int| 0 <= j < ext.len() && #[trigger] ext[j].foreign_key@ == pk@;
    assert(i < ext.len()) by {
        if i >= ext.len() {
            assert(ext[j0].foreign_key@ != pk@);
        }
    }
    let r = join_order(ext, Some(pk));
    assert(r == seq![ext[i]] + ext.remove(i));
    assert forall|j: int| 0 <= j < ext.len() implies r.contains(#[trigger] ext[j]) by {
        if j == i {
            assert(r[0] == ext[j]);
        } else if j < i {
            assert(r[j + 1] == ext[j]);
        } else {
            assert(r[j] == ext[j]);
        }
    }
}

proof fn lemma_joined_contains(parts: Seq<Seq<char>>, sep: Seq<char>, i: int)
    requires
        0 <= i < parts.len(),
    ensures
        exists|k: int|
            0 <= k && k + parts[i].len() <= joined(parts, sep).len() && #[trigger] joined(
                parts,
                sep,
            ).subrange(k, k + parts[i].len()) == parts[i],
    decreases parts.len(),
{
    let j = joined(parts, sep);
    if parts.len() == 1 {
        assert(joined(parts, sep).subrange(0, 0int + parts[i].len()) =~= parts[i]);
    } else if i == parts.len() - 1 {
        let k = (joined(parts.drop_last(), sep).len() + sep.len()) as int;
        assert(joined(parts, sep).subrange(k, k + parts[i].len()) =~= parts[i]);
    } else {
        let r = parts.drop_last();
        lemma_joined_contains(r, sep, i);
        let k = choose|k: int|
            0 <= k && k + r[i].len() <= joined(r, sep).len() && #[trigger] joined(r, sep).subrange(
                k,
                k + r[i].len(),
            ) == r[i];
        assert(r[i] == parts[i]);
        assert(joined(parts, sep).subrange(k, k + parts[i].len()) =~= joined(r, sep).subrange(
            k,
            k + r[i].len(),
        ));
    }
}

/// `piece` stands whole somewhere in `text`.
pub open spec fn appears_in(piece: Seq<char>, text: Seq<char>) -> bool {
    exists|k: int|
        0 <= k && k + piece.len() <= text.len() && #[trigger] text.subrange(k, k + piece.len())
            == piece
}

/// Text members are written single-quoted, each one standing whole in the
/// member list; other members are written as they are.
pub proof fn law_member_quoting(c: CutSql)
    ensures
        c.member_type == MemberType::Text ==> forall|i: int|
            0 <= i < c.members@.len() ==> appears_in(
                quoted(#[trigger] c.members@[i]@),
                members_text(c),
            ),
        c.member_type == MemberType::NonText ==> forall|i: int|
            0 <= i < c.members@.len() ==> #[trigger] member_texts(c)[i] == c.members@[i]@,
        c.member_type == MemberType::NonText ==> forall|i: int|
            0 <= i < c.members@.len() ==> appears_in(#[trigger] c.members@[i]@, members_text(c)),
{
    if c.member_type == MemberType::Text {
        assert forall|i: int| 0 <= i < c.members@.len() implies appears_in(
            quoted(#[trigger] c.members@[i]@),
            members_text(c),
        ) by {
            lemma_joined_contains(member_texts(c), comma(), i);
            assert(texts(c.members@)[i] == c.members@[i]@);
            assert(member_texts(c)[i] == quoted(c.members@[i]@));
        }
    } else {
        assert forall|i: int| 0 <= i < c.members@.len() implies #[trigger] member_texts(c)[i]
            == c.members@[i]@ by {
            assert(texts(c.members@)[i] == c.members@[i]@);
        }
        assert forall|i: int| 0 <= i < c.members@.len() implies appears_in(
            #[trigger] c.members@[i]@,
            members_text(c),
        ) by {
            lemma_joined_contains(member_texts(c), comma(), i);
            assert(texts(c.members@)[i] == c.members@[i]@);
            assert(member_texts(c)[i] == c.members@[i]@);
        }
    }
}

/// Renaming measure 0's pass-2 alias to `name` changes that alias and nothing
/// else among the pass-2 measures.
pub proof fn law_ratio_alias_renaming(meas: Seq<MeasureSql>, name: Seq<char>)
    requires
        meas.len() > 0,
    ensures
        pass2_texts(meas, Some(name))[0] == meas[0].aggregator@ + "("@ + measure_alias(0) + ") as "@
            + name,
        result_alias(0, Some(name)) == name,
        pass2_texts(meas, Some(name)).len() == pass2_texts(meas, None).len(),
        forall|i: int|
            0 < i < meas.len() ==> #[trigger] pass2_texts(meas, Some(name))[i] == pass2_texts(
                meas,
                None,
            )[i],
{
}

/// A join on no column is a cross join; a join on some columns is an equality
/// join on exactly them.
pub proof fn law_join_on_no_column_is_cross(left: Seq<char>, right: Seq<char>, using: Seq<Seq<char>>)
    ensures
        using.len() == 0 ==> join_text(left, right, using) == "select * from ("@ + left
            + ") cross join ("@ + right + ")"@,
        using.len() > 0 ==> join_text(left, right, using) == "select * from ("@ + left
            + ") all inner join ("@ + right + ") using "@ + joined(using, comma()),
{
}

/// In the ratio compiler, when variant d has no drill column (the caller gave
/// no drilldown), d is cross joined with the other variants.
pub proof fn law_ratio_cross_join_on_empty_drills(
    t: TableSql,
    cuts: Seq<CutSql>,
    drills: Seq<DrilldownSql>,
    meas: Seq<MeasureSql>,
    rca: RcaSql,
)
    requires
        drills.len() == 0,
    ensures
        rca_joins(t, cuts, drills, meas, rca) == "select * from ("@ + d_variant(
            t,
            cuts,
            drills,
            meas,
            rca,
        ) + ") cross join ("@ + cab_joins(t, cuts, drills, meas, rca) + ")"@,
{
    reveal(rca_joins);
}

/// What one `sum` aggregation pass computes from rows of (group key, value):
/// the total of the values of each key.
pub open spec fn sum_by_key(rows: Seq<(Seq<Seq<char>>, int)>) -> Map<Seq<Seq<char>>, int>
    decreases rows.len(),
{
    if rows.len() == 0 {
        Map::empty()
    } else {
        let m = sum_by_key(rows.drop_last());
        let k = rows.last().0;
        let v = rows.last().1;
        m.insert(
            k,
            if m.dom().contains(k) {
                m[k] + v
            } else {
                v
            },
        )
    }
}

/// Re-aggregating rows that already hold one row per group key, grouped by
/// that same key, changes nothing: as many groups as rows, each with its
/// row's value.
pub proof fn law_reaggregation_is_idempotent(rows: Seq<(Seq<Seq<char>>, int)>)
    requires
        forall|i: int, j: int| 0 <= i < j < rows.len() ==> rows[i].0 != rows[j].0,
    ensures
        sum_by_key(rows).dom().finite(),
        sum_by_key(rows).dom().len() == rows.len(),
        forall|i: int| 0 <= i < rows.len() ==> sum_by_key(rows)[#[trigger] rows[i].0] == rows[i].1,
        forall|k: Seq<Seq<char>>|
            #[trigger] sum_by_key(rows).dom().contains(k) <==> exists|i: int|
                0 <= i < rows.len() && rows[i].0 == k,
    decreases rows.len(),
{
    if rows.len() > 0 {
        let r = rows.drop_last();
        assert forall|i: int, j: int| 0 <= i < j < r.len() implies r[i].0 != r[j].0 by {
            assert(r[i] == rows[i] && r[j] == rows[j]);
        }
        law_reaggregation_is_idempotent(r);
        let m = sum_by_key(r);
        let k = rows.last().0;
        let n = rows.len() - 1;
        assert(!m.dom().contains(k)) by {
            if m.dom().contains(k) {
                let i = choose|i: int| 0 <= i < r.len() && r[i].0 == k;
                assert(rows[i].0 == rows[n].0);
            }
        }
        assert(sum_by_key(rows) == m.insert(k, rows.last().1));
        assert forall|i: int| 0 <= i < rows.len() implies sum_by_key(rows)[#[trigger] rows[i].0]
            == rows[i].1 by {
            if i < n {
                assert(r[i] == rows[i]);
                assert(rows[i].0 != k);
            }
        }
        assert forall|key: Seq<Seq<char>>| #[trigger] sum_by_key(rows).dom().contains(key)
            <==> exists|i: int| 0 <= i < rows.len() && rows[i].0 == key by {
            if sum_by_key(rows).dom().contains(key) && key != k {
                let i = choose|i: int| 0 <= i < r.len() && r[i].0 == key;
                assert(rows[i].0 == key);
            }
            if exists|i: int| 0 <= i < rows.len() && rows[i].0 == key {
                let i = choose|i: int| 0 <= i < rows.len() && rows[i].0 == key;
                if i < n {
                    assert(r[i].0 == key);
                }
            }
        }
    }
}

/// An aggregation with no drilldown has no drill column to list: its final
/// select starts with the measures and it has no group-by.
pub proof fn law_no_drill_aggregation_lists_no_empty_columns(
    t: TableSql,
    cuts: Seq<CutSql>,
    meas: Seq<MeasureSql>,
    hidden: Seq<DrilldownSql>,
    rename: Option<Seq<char>>,
)
    ensures
        exists|folded: Seq<char>|
            #[trigger] agg_sql(t, cuts, Seq::empty(), meas, hidden, rename) == "select "@ + joined(
                pass2_texts(meas, rename),
                comma(),
            ) + " from ("@ + folded + ")"@,
{
    let none = Seq::<DrilldownSql>::empty();
    assert(drill_texts(none) =~= Seq::<Seq<char>>::empty());
    assert(drill_texts(none) + pass2_texts(meas, rename) =~= pass2_texts(meas, rename));
    let folded = crate::primary_agg::fold_joins(
        crate::primary_agg::fact_sql(t, cuts, none, meas, hidden),
        crate::primary_agg::fact_dims(t, none),
        join_order(external_drills(t, none), t.primary_key),
        meas.len(),
    );
    assert(agg_sql(t, cuts, none, meas, hidden, rename) == "select "@ + joined(
        pass2_texts(meas, rename),
        comma(),
    ) + " from ("@ + folded + ")"@);
}

/// A default sort (no sort column) and no other clause or analytic: the
/// aggregation is wrapped in an order by all of its drill columns, in the
/// requested direction.
pub proof fn law_default_sort_orders_by_drill_columns(
    t: TableSql,
    cuts: Seq<CutSql>,
    drills: Seq<DrilldownSql>,
    meas: Seq<MeasureSql>,
    sort: SortSql,
)
    requires
        drills.len() > 0,
        sort.column.is_none(),
    ensures
        clickhouse_text(t, cuts, drills, meas, None, None, Some(sort), None, None, None)
            == "select * from ("@ + agg_sql(t, cuts, drills, meas, Seq::empty(), None)
            + ") order by "@ + joined(drill_texts(drills), comma()) + " "@ + direction_text(
            sort.direction,
        ) + " "@,
{
    assert(drill_texts(drills).len() == drills.len());
}

} // verus!
