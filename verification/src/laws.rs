//! The library's laws: what rendering and composition guarantee, proved
//! once and for all over the mathematical values of the types.

use vstd::prelude::*;
use crate::fragment::{frag_binds, frag_sql, lemma_frag_binds_concat, lemma_frag_single,
    lemma_frag_sql_concat, placeholder};
use crate::fragment::{BindView, FragmentView};
use crate::full_query::{cols_sql, fq_binds, fq_filter, fq_frags, fq_of, fq_sql, joins_frags,
    pred_frags, preds_frags, FullQueryView, PredicateView};
use crate::projection::{col_in, col_sql, ColumnView};
use crate::subquery::{lemma_subq_frags, subq_frags, subq_sql, subq_wf, SubqueryView};

verus! {

/// Rendering a derived table promoted to a full query with its default
/// (implicit) column selection yields a select clause enumerating exactly
/// the declared columns, alias-qualified, in declaration order, over the
/// parenthesized aliased inner query — and exactly the inner query's own
/// bind values, in the same order.
pub proof fn lemma_default_selection_render(s: SubqueryView)
    ensures
        fq_sql(fq_of(s)) == "SELECT "@ + cols_sql(s.projection.columns) + " FROM "@ + subq_sql(
            s,
            0,
        ),
        fq_binds(fq_of(s)) == frag_binds(s.query.fragments),
{
    let q = fq_of(s);
    let head = seq![FragmentView::Sql("SELECT "@ + cols_sql(q.selection) + " FROM "@)];
    assert(joins_frags(q.joins) == Seq::<FragmentView>::empty());
    assert(preds_frags(q.predicates) == Seq::<FragmentView>::empty());
    assert(fq_frags(q) =~= head + subq_frags(s));
    lemma_frag_single(head[0], 0);
    lemma_frag_sql_concat(head, subq_frags(s), 0);
    lemma_frag_binds_concat(head, subq_frags(s));
    lemma_subq_frags(s, 0);
    assert(frag_binds(head) =~= Seq::<BindView>::empty());
    assert(fq_sql(q) =~= "SELECT "@ + cols_sql(s.projection.columns) + " FROM "@ + subq_sql(
        s,
        0,
    ));
    assert(fq_binds(q) =~= frag_binds(s.query.fragments));
}

/// The text and binds of one predicate's fragments, numbered after `k`
/// preceding bind parameters.
proof fn lemma_pred_frags(p: PredicateView, first: bool, k: nat)
    ensures
        frag_sql(pred_frags(p, first), k) == (if first {
            " WHERE ("@
        } else {
            " AND ("@
        }) + col_sql(p.column) + " = "@ + placeholder(k + 1) + ")"@,
        frag_binds(pred_frags(p, first)) == seq![p.value],
{
    let pre = (if first {
        " WHERE ("@
    } else {
        " AND ("@
    }) + col_sql(p.column) + " = "@;
    let s = pred_frags(p, first);
    let s1 = seq![FragmentView::Bind(p.value), FragmentView::Sql(")"@)];
    let s2 = seq![FragmentView::Sql(")"@)];
    assert(s[0] == FragmentView::Sql(pre));
    assert(s.drop_first() =~= s1);
    assert(s1[0] == FragmentView::Bind(p.value));
    assert(s1.drop_first() =~= s2);
    lemma_frag_single(FragmentView::Sql(")"@), (k + 1) as nat);
    assert(frag_sql(s1, k) =~= placeholder(k + 1) + ")"@);
    assert(frag_sql(s, k) =~= pre + placeholder(k + 1) + ")"@);
    assert(frag_binds(s2) =~= Seq::<BindView>::empty());
    assert(frag_binds(s1) =~= seq![p.value]);
    assert(frag_binds(s) =~= seq![p.value]);
}

/// Filtering appends the predicate as a trailing condition: the rendered
/// text is the unfiltered query's text followed by the alias-qualified
/// column compared against the next placeholder, and the bind list is the
/// unfiltered query's bind list with the predicate's value appended after
/// the wrapped query's own binds.
pub proof fn lemma_filter_render(q: FullQueryView, p: PredicateView)
    ensures
        fq_sql(fq_filter(q, p)) == fq_sql(q) + (if q.predicates.len() == 0 {
            " WHERE ("@
        } else {
            " AND ("@
        }) + col_sql(p.column) + " = "@ + placeholder(fq_binds(q).len() + 1) + ")"@,
        fq_binds(fq_filter(q, p)) == fq_binds(q).push(p.value),
{
    let qf = fq_filter(q, p);
    let first = q.predicates.len() == 0;
    assert(q.predicates.push(p).drop_last() =~= q.predicates);
    assert(q.predicates.push(p).last() == p);
    assert((q.predicates.push(p).len() == 1) == first);
    assert(preds_frags(qf.predicates) == preds_frags(q.predicates) + pred_frags(p, first));
    assert(fq_frags(qf) =~= fq_frags(q) + pred_frags(p, first));
    lemma_frag_sql_concat(fq_frags(q), pred_frags(p, first), 0);
    lemma_frag_binds_concat(fq_frags(q), pred_frags(p, first));
    lemma_pred_frags(p, first, fq_binds(q).len());
    assert(fq_sql(qf) =~= fq_sql(q) + (if first {
        " WHERE ("@
    } else {
        " AND ("@
    }) + col_sql(p.column) + " = "@ + placeholder(fq_binds(q).len() + 1) + ")"@);
    assert(fq_binds(qf) =~= fq_binds(q).push(p.value));
}

/// The scoping law: a column descriptor whose alias is not the derived
/// table's own never satisfies the "belongs to this derived table"
/// relation, even when both wrap the identical inner query.  Together
/// with the filter and select contracts, a composition that mixes
/// descriptors across aliases therefore fails to bind.
pub proof fn lemma_alias_scoping(c: ColumnView, s: SubqueryView)
    requires
        subq_wf(s),
        c.alias != s.projection.alias,
    ensures
        !col_in(c, s.projection.columns),
{
    assert forall|i: int| 0 <= i < s.projection.columns.len() implies s.projection.columns[i]
        != c by {
        assert(s.projection.columns[i].alias == s.projection.alias);
    }
}

/// Duplication independence: composition is a pure function of a derived
/// table's mathematical value, and a duplicate has the very same value,
/// so filtering the duplicate renders exactly what filtering the original
/// renders — and no composition on one copy can appear in, or alter, the
/// other copy's rendering, since every operation builds a new value.
pub proof fn lemma_duplicate_independent(a: SubqueryView, b: SubqueryView, p: PredicateView)
    requires
        a == b,
    ensures
        fq_sql(fq_filter(fq_of(a), p)) == fq_sql(fq_filter(fq_of(b), p)),
        fq_binds(fq_filter(fq_of(a), p)) == fq_binds(fq_filter(fq_of(b), p)),
        fq_filter(fq_of(a), p).from == a,
{
}

} // verus!
