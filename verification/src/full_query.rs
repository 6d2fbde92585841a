//! The full query that a derived table is promoted to: a select statement
//! over the derived table, with an explicit selection, optional joins and
//! a conjunction of predicates.  The composition operations of the host
//! builder — filter, select, join — live here; the derived table forwards
//! to them.

use vstd::prelude::*;
use vstd::string::StringExecFns;
use crate::fragment::{binds_view, frags_view, frag_binds, frag_sql, render_debug,
    walk_fragments};
use crate::fragment::{debug_suffix, Bind, BindView, Fragment, FragmentView};
use crate::projection::{col_in, col_sql, cols_view, BindingError, Column, ColumnView};
use crate::subquery::{subq_frags, Subquery, SubqueryView};

verus! {

/// A predicate composed onto a query: an alias-scoped column compared for
/// equality against a bind value.
#[derive(Debug)]
pub struct Predicate {
    pub column: Column,
    pub value: Bind,
}

/// The mathematical value of a predicate.
pub struct PredicateView {
    pub column: ColumnView,
    pub value: BindView,
}

impl View for Predicate {
    type V = PredicateView;

    open spec fn view(&self) -> PredicateView {
        PredicateView { column: self.column@, value: self.value@ }
    }
}

impl Predicate {
    /// Build the predicate `column = value`.
    pub fn new(column: Column, value: Bind) -> (r: Predicate)
        ensures
            r@ == (PredicateView { column: column@, value: value@ }),
    {
        Predicate { column, value }
    }

    /// An independent copy of the predicate.
    pub fn dup(&self) -> (r: Predicate)
        ensures
            r@ == self@,
    {
        Predicate { column: self.column.dup(), value: self.value.dup() }
    }
}

/// The views of a sequence of predicates.
pub open spec fn preds_view(s: Seq<Predicate>) -> Seq<PredicateView> {
    s.map_values(|p: Predicate| p@)
}

/// The kind of a join.
#[derive(Clone, Copy, PartialEq, Eq, Structural, Debug)]
pub enum JoinKind {
    Inner,
    LeftOuter,
}

/// The wire text introducing a join of the given kind.
pub open spec fn join_kind_sql(k: JoinKind) -> Seq<char> {
    match k {
        JoinKind::Inner => " INNER JOIN "@,
        JoinKind::LeftOuter => " LEFT OUTER JOIN "@,
    }
}

/// The wire text introducing a join of the given kind.
fn join_kind_str(k: JoinKind) -> (r: &'static str)
    ensures
        r@ == join_kind_sql(k),
{
    match k {
        JoinKind::Inner => " INNER JOIN ",
        JoinKind::LeftOuter => " LEFT OUTER JOIN ",
    }
}

/// An `ON` condition: equality of two alias-scoped columns.
#[derive(Debug)]
pub struct On {
    pub left: Column,
    pub right: Column,
}

/// The mathematical value of an `ON` condition.
pub struct OnView {
    pub left: ColumnView,
    pub right: ColumnView,
}

impl View for On {
    type V = OnView;

    open spec fn view(&self) -> OnView {
        OnView { left: self.left@, right: self.right@ }
    }
}

impl On {
    /// Build the condition `left = right`.
    pub fn new(left: Column, right: Column) -> (r: On)
        ensures
            r@ == (OnView { left: left@, right: right@ }),
    {
        On { left, right }
    }
}

/// One join composed onto a query: another derived table with its kind
/// and `ON` condition.
#[derive(Debug)]
pub struct Join {
    pub kind: JoinKind,
    pub rhs: Subquery,
    pub on: On,
}

/// The mathematical value of a join.
pub struct JoinView {
    pub kind: JoinKind,
    pub rhs: SubqueryView,
    pub on: OnView,
}

impl View for Join {
    type V = JoinView;

    open spec fn view(&self) -> JoinView {
        JoinView { kind: self.kind, rhs: self.rhs@, on: self.on@ }
    }
}

/// The views of a sequence of joins.
pub open spec fn joins_view(s: Seq<Join>) -> Seq<JoinView> {
    s.map_values(|j: Join| j@)
}

/// A select statement over a derived table: the from clause, joined
/// sources, the selected columns, and composed predicates.
#[derive(Debug)]
pub struct FullQuery {
    pub from: Subquery,
    pub joins: Vec<Join>,
    pub selection: Vec<Column>,
    pub predicates: Vec<Predicate>,
}

/// The mathematical value of a full query.
pub struct FullQueryView {
    pub from: SubqueryView,
    pub joins: Seq<JoinView>,
    pub selection: Seq<ColumnView>,
    pub predicates: Seq<PredicateView>,
}

impl View for FullQuery {
    type V = FullQueryView;

    open spec fn view(&self) -> FullQueryView {
        FullQueryView {
            from: self.from@,
            joins: joins_view(self.joins@),
            selection: cols_view(self.selection@),
            predicates: preds_view(self.predicates@),
        }
    }
}

/// The select clause text: the columns' renderings, comma separated, in
/// order.
pub open spec fn cols_sql(cs: Seq<ColumnView>) -> Seq<char>
    decreases cs.len(),
{
    if cs.len() == 0 {
        Seq::<char>::empty()
    } else if cs.len() == 1 {
        col_sql(cs[0])
    } else {
        cols_sql(cs.drop_last()) + ", "@ + col_sql(cs.last())
    }
}

/// The fragments of one join: its introducing text, the joined derived
/// table, and the `ON` condition.
pub open spec fn join_frags(j: JoinView) -> Seq<FragmentView> {
    seq![FragmentView::Sql(join_kind_sql(j.kind))] + subq_frags(j.rhs) + seq![
        FragmentView::Sql(" ON "@ + col_sql(j.on.left) + " = "@ + col_sql(j.on.right)),
    ]
}

/// The fragments of a sequence of joins, in order.
pub open spec fn joins_frags(js: Seq<JoinView>) -> Seq<FragmentView>
    decreases js.len(),
{
    if js.len() == 0 {
        Seq::<FragmentView>::empty()
    } else {
        joins_frags(js.drop_last()) + join_frags(js.last())
    }
}

/// The fragments of one predicate: its introducing text (`WHERE` for the
/// first, `AND` for the rest), the column, and the bind value.
pub open spec fn pred_frags(p: PredicateView, first: bool) -> Seq<FragmentView> {
    seq![
        FragmentView::Sql((if first {
            " WHERE ("@
        } else {
            " AND ("@
        }) + col_sql(p.column) + " = "@),
        FragmentView::Bind(p.value),
        FragmentView::Sql(")"@),
    ]
}

/// The fragments of a sequence of predicates, in order.
pub open spec fn preds_frags(ps: Seq<PredicateView>) -> Seq<FragmentView>
    decreases ps.len(),
{
    if ps.len() == 0 {
        Seq::<FragmentView>::empty()
    } else {
        preds_frags(ps.drop_last()) + pred_frags(ps.last(), ps.len() == 1)
    }
}

/// The fragments of a full query.
pub open spec fn fq_frags(q: FullQueryView) -> Seq<FragmentView> {
    seq![FragmentView::Sql("SELECT "@ + cols_sql(q.selection) + " FROM "@)] + subq_frags(q.from)
        + joins_frags(q.joins) + preds_frags(q.predicates)
}

/// The rendered wire text of a full query.
pub open spec fn fq_sql(q: FullQueryView) -> Seq<char> {
    frag_sql(fq_frags(q), 0)
}

/// The ordered bind values of a full query.
pub open spec fn fq_binds(q: FullQueryView) -> Seq<BindView> {
    frag_binds(fq_frags(q))
}

/// Whether a column descriptor is scoped to one of the query's sources:
/// its from clause or a joined derived table.
pub open spec fn col_in_scope(c: ColumnView, q: FullQueryView) -> bool {
    col_in(c, q.from.projection.columns) || exists|i: int|
        0 <= i < q.joins.len() && col_in(c, (#[trigger] q.joins[i]).rhs.projection.columns)
}

/// The trivial full query a derived table is promoted to: its default
/// columns selected from it, nothing joined, nothing filtered.
pub open spec fn fq_of(s: SubqueryView) -> FullQueryView {
    FullQueryView {
        from: s,
        joins: Seq::<JoinView>::empty(),
        selection: s.projection.columns,
        predicates: Seq::<PredicateView>::empty(),
    }
}

/// The query that filtering composes: the same query with the predicate
/// appended as a trailing condition.
pub open spec fn fq_filter(q: FullQueryView, p: PredicateView) -> FullQueryView {
    FullQueryView {
        from: q.from,
        joins: q.joins,
        selection: q.selection,
        predicates: q.predicates.push(p),
    }
}

/// The query that selecting composes: the same query with the selection
/// replaced.
pub open spec fn fq_select(q: FullQueryView, cs: Seq<ColumnView>) -> FullQueryView {
    FullQueryView { from: q.from, joins: q.joins, selection: cs, predicates: q.predicates }
}

/// The query that joining composes: the same query with the join
/// appended.
pub open spec fn fq_join(q: FullQueryView, j: JoinView) -> FullQueryView {
    FullQueryView {
        from: q.from,
        joins: q.joins.push(j),
        selection: q.selection,
        predicates: q.predicates,
    }
}

impl FullQuery {
    /// Whether the column is scoped to one of this query's sources.
    #[verifier::loop_isolation(false)]
    pub fn in_scope(&self, c: &Column) -> (r: bool)
        ensures
            r == col_in_scope(c@, self@),
    {
        if c.appears_on(&self.from) {
            return true;
        }
        let mut i: usize = 0;
        while i < self.joins.len()
            invariant
                0 <= i <= self.joins@.len(),
                forall|j: int| 0 <= j < i ==> !col_in(
                    c@,
                    (#[trigger] joins_view(self.joins@)[j]).rhs.projection.columns,
                ),
            decreases self.joins@.len() - i,
        {
            if c.appears_on(&self.joins[i].rhs) {
                proof {
                    assert(joins_view(self.joins@)[i as int] == self.joins@[i as int]@);
                }
                return true;
            }
            i = i + 1;
        }
        false
    }

    /// Emit the query's fragments: the select clause, the from clause,
    /// the joins and the predicates, in order.
    #[verifier::loop_isolation(false)]
    pub fn walk_ast(&self, pass: &mut Vec<Fragment>)
        ensures
            frags_view(final(pass)@) == frags_view(old(pass)@) + fq_frags(self@),
    {
        let mut head: String = "SELECT ".to_owned();
        let mut i: usize = 0;
        while i < self.selection.len()
            invariant
                0 <= i <= self.selection@.len(),
                head@ == "SELECT "@ + cols_sql(cols_view(self.selection@).take(i as int)),
            decreases self.selection@.len() - i,
        {
            if i > 0 {
                head.append(", ");
            }
            let t = self.selection[i].render();
            head.append(t.as_str());
            proof {
                let cv = cols_view(self.selection@);
                assert(cv.take(i as int + 1).drop_last() =~= cv.take(i as int));
                assert(cv.take(i as int + 1).last() == cv[i as int]);
                assert(cv[i as int] == self.selection@[i as int]@);
                if i == 0 {
                    assert(cols_sql(cv.take(1)) == col_sql(cv[0]));
                }
                assert(head@ =~= "SELECT "@ + cols_sql(cv.take(i as int + 1)));
            }
            i = i + 1;
        }
        proof {
            assert(cols_view(self.selection@).take(self.selection@.len() as int) =~= cols_view(
                self.selection@,
            ));
        }
        head.append(" FROM ");
        let ghost head_view = head@;
        pass.push(Fragment::Sql(head));
        proof {
            assert(frags_view(pass@) =~= frags_view(old(pass)@) + seq![
                FragmentView::Sql(head_view),
            ]);
        }
        self.from.walk_ast(pass);
        let ghost before_joins = frags_view(pass@);
        let mut i: usize = 0;
        while i < self.joins.len()
            invariant
                0 <= i <= self.joins@.len(),
                frags_view(pass@) == before_joins + joins_frags(
                    joins_view(self.joins@).take(i as int),
                ),
            decreases self.joins@.len() - i,
        {
            let ghost prev = frags_view(pass@);
            let j = &self.joins[i];
            pass.push(Fragment::Sql(join_kind_str(j.kind).to_owned()));
            proof {
                assert(frags_view(pass@) =~= prev + seq![
                    FragmentView::Sql(join_kind_sql(j.kind)),
                ]);
            }
            j.rhs.walk_ast(pass);
            let mut onstr: String = " ON ".to_owned();
            let lt = j.on.left.render();
            onstr.append(lt.as_str());
            onstr.append(" = ");
            let rt = j.on.right.render();
            onstr.append(rt.as_str());
            let ghost on_view = onstr@;
            let ghost before_on = frags_view(pass@);
            pass.push(Fragment::Sql(onstr));
            proof {
                let jv = joins_view(self.joins@);
                assert(frags_view(pass@) =~= before_on + seq![FragmentView::Sql(on_view)]);
                assert(jv.take(i as int + 1).drop_last() =~= jv.take(i as int));
                assert(jv.take(i as int + 1).last() == jv[i as int]);
                assert(jv[i as int] == self.joins@[i as int]@);
                assert(on_view =~= " ON "@ + col_sql(jv[i as int].on.left) + " = "@ + col_sql(
                    jv[i as int].on.right,
                ));
                assert(frags_view(pass@) =~= prev + join_frags(jv[i as int]));
                assert(frags_view(pass@) =~= before_joins + joins_frags(jv.take(i as int + 1)));
            }
            i = i + 1;
        }
        proof {
            assert(joins_view(self.joins@).take(self.joins@.len() as int) =~= joins_view(
                self.joins@,
            ));
        }
        let ghost before_preds = frags_view(pass@);
        let mut i: usize = 0;
        while i < self.predicates.len()
            invariant
                0 <= i <= self.predicates@.len(),
                frags_view(pass@) == before_preds + preds_frags(
                    preds_view(self.predicates@).take(i as int),
                ),
            decreases self.predicates@.len() - i,
        {
            let ghost prev = frags_view(pass@);
            let p = &self.predicates[i];
            let mut pre: String = if i == 0 {
                " WHERE (".to_owned()
            } else {
                " AND (".to_owned()
            };
            let ct = p.column.render();
            pre.append(ct.as_str());
            pre.append(" = ");
            let ghost pre_view = pre@;
            pass.push(Fragment::Sql(pre));
            pass.push(Fragment::Bind(p.value.dup()));
            pass.push(Fragment::Sql(")".to_owned()));
            proof {
                let pv = preds_view(self.predicates@);
                assert(pv.take(i as int + 1).drop_last() =~= pv.take(i as int));
                assert(pv.take(i as int + 1).last() == pv[i as int]);
                assert(pv[i as int] == self.predicates@[i as int]@);
                assert(pre_view =~= (if i == 0 {
                    " WHERE ("@
                } else {
                    " AND ("@
                }) + col_sql(pv[i as int].column) + " = "@);
                assert(frags_view(pass@) =~= prev + pred_frags(pv[i as int], i == 0));
                assert((pv.take(i as int + 1).len() == 1) == (i == 0));
                assert(frags_view(pass@) =~= before_preds + preds_frags(pv.take(i as int + 1)));
            }
            i = i + 1;
        }
        proof {
            assert(preds_view(self.predicates@).take(self.predicates@.len() as int) =~= preds_view(
                self.predicates@,
            ));
            assert(frags_view(pass@) =~= frags_view(old(pass)@) + fq_frags(self@));
        }
    }

    /// Render the query: wire text with numbered placeholders, plus the
    /// ordered bind values.
    pub fn render(&self) -> (r: (String, Vec<Bind>))
        ensures
            r.0@ == fq_sql(self@),
            binds_view(r.1@) == fq_binds(self@),
    {
        let mut pass: Vec<Fragment> = Vec::new();
        self.walk_ast(&mut pass);
        proof {
            assert(frags_view(Seq::<Fragment>::empty()) =~= Seq::<FragmentView>::empty());
            assert(frags_view(pass@) =~= fq_frags(self@));
        }
        walk_fragments(&pass)
    }

    /// Render the query in the debug format `<sql> -- binds: [..]`.
    pub fn debug_string(&self) -> (r: String)
        ensures
            r@ == fq_sql(self@) + debug_suffix(fq_binds(self@)),
    {
        let (sql, binds) = self.render();
        render_debug(sql.as_str(), &binds)
    }

    /// Compose a predicate onto the query, appended as a trailing
    /// condition.  A column not scoped to one of the query's sources
    /// fails to bind.
    pub fn filter(self, predicate: Predicate) -> (r: Result<FullQuery, BindingError>)
        ensures
            (r is Ok) == col_in_scope(predicate@.column, self@),
            (r matches Ok(f) ==> f@ == fq_filter(self@, predicate@)),
            (r matches Err(e) ==> e == BindingError::ColumnOutOfScope),
    {
        if !self.in_scope(&predicate.column) {
            return Err(BindingError::ColumnOutOfScope);
        }
        let ghost orig = self@;
        let mut q = self;
        q.predicates.push(predicate);
        proof {
            assert(preds_view(q.predicates@) =~= orig.predicates.push(predicate@));
            assert(q@ == fq_filter(orig, predicate@));
        }
        Ok(q)
    }

    /// Replace the query's selection.  A selected column not scoped to
    /// one of the query's sources fails to bind.
    #[verifier::loop_isolation(false)]
    pub fn select(self, selection: Vec<Column>) -> (r: Result<FullQuery, BindingError>)
        ensures
            (r is Ok) == (forall|i: int| 0 <= i < selection@.len() ==> col_in_scope(
                #[trigger] cols_view(selection@)[i],
                self@,
            )),
            (r matches Ok(f) ==> f@ == fq_select(self@, cols_view(selection@))),
            (r matches Err(e) ==> e == BindingError::ColumnOutOfScope),
    {
        let mut i: usize = 0;
        while i < selection.len()
            invariant
                0 <= i <= selection@.len(),
                forall|j: int| 0 <= j < i ==> col_in_scope(
                    #[trigger] cols_view(selection@)[j],
                    self@,
                ),
            decreases selection@.len() - i,
        {
            if !self.in_scope(&selection[i]) {
                proof {
                    assert(cols_view(selection@)[i as int] == selection@[i as int]@);
                }
                return Err(BindingError::ColumnOutOfScope);
            }
            proof {
                assert(cols_view(selection@)[i as int] == selection@[i as int]@);
            }
            i = i + 1;
        }
        let ghost orig = self@;
        let mut q = self;
        q.selection = selection;
        proof {
            assert(q@ == fq_select(orig, cols_view(selection@)));
        }
        Ok(q)
    }

    /// Compose a join onto the query.  Each column of the `ON` condition
    /// must be scoped to one of the joined sources: the query's own, or
    /// the joined derived table.
    pub fn join(self, rhs: Subquery, kind: JoinKind, on: On) -> (r: Result<
        FullQuery,
        BindingError,
    >)
        ensures
            (r is Ok) == ((col_in_scope(on@.left, self@) || col_in(
                on@.left,
                rhs@.projection.columns,
            )) && (col_in_scope(on@.right, self@) || col_in(
                on@.right,
                rhs@.projection.columns,
            ))),
            (r matches Ok(f) ==> f@ == fq_join(
                self@,
                (JoinView { kind: kind, rhs: rhs@, on: on@ }),
            )),
            (r matches Err(e) ==> e == BindingError::ColumnOutOfScope),
    {
        let left_ok = on.left.appears_on(&rhs) || self.in_scope(&on.left);
        let right_ok = on.right.appears_on(&rhs) || self.in_scope(&on.right);
        if !(left_ok && right_ok) {
            return Err(BindingError::ColumnOutOfScope);
        }
        let ghost orig = self@;
        let ghost jv = (JoinView { kind: kind, rhs: rhs@, on: on@ });
        let mut q = self;
        q.joins.push(Join { kind, rhs, on });
        proof {
            assert(joins_view(q.joins@) =~= orig.joins.push(jv));
            assert(q@ == fq_join(orig, jv));
        }
        Ok(q)
    }
}

} // verus!
