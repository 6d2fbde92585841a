//! Alias-scoped column descriptors and the projection descriptor that a
//! derived table is built with, together with the build-time generator
//! that turns a declarative alias binding into a validated descriptor set.

use vstd::prelude::*;
use vstd::string::StringExecFns;
use crate::fragment::{dup_shape, frags_view, FragmentView, SqlType};
use crate::fragment::Fragment;
use crate::text::{check_identifier, is_identifier, quote};
use crate::text::append_quoted;

verus! {

/// Why an alias binding, or a composition over one, was rejected.
#[derive(Clone, Copy, PartialEq, Eq, Structural, Debug)]
pub enum BindingError {
    /// The alias is not a well-formed identifier.
    MalformedAlias,
    /// A column descriptor does not carry the projection's own alias.
    ColumnAliasMismatch,
    /// An exposed column name is not a well-formed identifier.
    MalformedColumnName,
    /// Two exposed columns share one name.
    DuplicateColumnName,
    /// The declared columns and the inner query's shape differ in count.
    ColumnCountMismatch,
    /// A declared column's wire type differs from the inner query's shape.
    ColumnTypeMismatch,
    /// The primary-key index does not point at a declared column.
    PrimaryKeyOutOfRange,
    /// The projection's recorded shape differs from the wrapped query's.
    ShapeMismatch,
    /// A column descriptor is used against a derived table it was not
    /// generated for.
    ColumnOutOfScope,
}

/// A stateless, alias-scoped column handle: it knows the alias it was
/// generated for, its exposed name, and its wire type.
#[derive(Debug)]
pub struct Column {
    pub alias: String,
    pub name: String,
    pub ty: SqlType,
}

/// The mathematical value of a column descriptor.
pub struct ColumnView {
    pub alias: Seq<char>,
    pub name: Seq<char>,
    pub ty: SqlType,
}

impl View for Column {
    type V = ColumnView;

    open spec fn view(&self) -> ColumnView {
        ColumnView { alias: self.alias@, name: self.name@, ty: self.ty }
    }
}

/// The rendering of a column descriptor: the alias-qualified, quoted name.
pub open spec fn col_sql(c: ColumnView) -> Seq<char> {
    quote(c.alias) + "."@ + quote(c.name)
}

/// The views of a sequence of column descriptors.
pub open spec fn cols_view(s: Seq<Column>) -> Seq<ColumnView> {
    s.map_values(|c: Column| c@)
}

/// Membership of a column descriptor among declared columns.
pub open spec fn col_in(c: ColumnView, cols: Seq<ColumnView>) -> bool {
    exists|i: int| 0 <= i < cols.len() && cols[i] == c
}

impl Column {
    /// An independent copy of the descriptor.
    pub fn dup(&self) -> (r: Column)
        ensures
            r == *self,
    {
        Column { alias: self.alias.clone(), name: self.name.clone(), ty: self.ty }
    }

    /// Render the descriptor as `"alias"."name"`.
    pub fn render(&self) -> (r: String)
        ensures
            r@ == col_sql(self@),
    {
        let mut out = String::new();
        append_quoted(&mut out, self.alias.as_str());
        out.append(".");
        append_quoted(&mut out, self.name.as_str());
        proof {
            assert(out@ =~= col_sql(self@));
        }
        out
    }

    /// Emit the descriptor's rendering as one sql fragment.
    pub fn walk_ast(&self, pass: &mut Vec<Fragment>)
        ensures
            frags_view(final(pass)@) == frags_view(old(pass)@) + seq![
                FragmentView::Sql(col_sql(self@)),
            ],
    {
        let text = self.render();
        pass.push(Fragment::Sql(text));
        proof {
            assert(frags_view(pass@) =~= frags_view(old(pass)@) + seq![
                FragmentView::Sql(col_sql(self@)),
            ]);
        }
    }

    /// Whether two descriptors denote the same alias-scoped column.
    pub fn same_column(&self, other: &Column) -> (r: bool)
        ensures
            r == (self@ == other@),
    {
        let r = self.alias == other.alias && self.name == other.name && self.ty == other.ty;
        proof {
            if r {
                assert(self@ == other@);
            } else {
                assert(self@ != other@);
            }
        }
        r
    }

    /// Whether this descriptor is one of the given declared columns.
    #[verifier::loop_isolation(false)]
    pub fn among(&self, cols: &Vec<Column>) -> (r: bool)
        ensures
            r == col_in(self@, cols_view(cols@)),
    {
        let mut i: usize = 0;
        while i < cols.len()
            invariant
                0 <= i <= cols@.len(),
                forall|j: int| 0 <= j < i ==> cols_view(cols@)[j] != self@,
            decreases cols@.len() - i,
        {
            if self.same_column(&cols[i]) {
                proof {
                    assert(cols_view(cols@)[i as int] == cols@[i as int]@);
                }
                return true;
            }
            i = i + 1;
        }
        false
    }
}

/// Per-alias metadata: the alias identifier, the ordered exposed columns,
/// the inner query shape the binding was declared against, and an
/// optional primary-key column index.
#[derive(Debug)]
pub struct SubqueryProjection {
    pub alias: String,
    pub columns: Vec<Column>,
    pub inner_shape: Vec<SqlType>,
    pub primary_key: Option<usize>,
}

/// The mathematical value of a projection descriptor.
pub struct ProjectionView {
    pub alias: Seq<char>,
    pub columns: Seq<ColumnView>,
    pub inner_shape: Seq<SqlType>,
    pub primary_key: Option<int>,
}

/// The view of an optional primary-key index.
pub open spec fn pk_view(pk: Option<usize>) -> Option<int> {
    match pk {
        Some(k) => Some(k as int),
        None => None,
    }
}

impl View for SubqueryProjection {
    type V = ProjectionView;

    open spec fn view(&self) -> ProjectionView {
        ProjectionView {
            alias: self.alias@,
            columns: cols_view(self.columns@),
            inner_shape: self.inner_shape@,
            primary_key: pk_view(self.primary_key),
        }
    }
}

/// A well-formed projection descriptor: the alias and every column name
/// are identifiers, every column carries the projection's own alias, the
/// names are pairwise distinct, the column types match the recorded inner
/// shape exactly, and the primary-key index, if any, is in range.
pub open spec fn proj_wf(p: ProjectionView) -> bool {
    &&& is_identifier(p.alias)
    &&& forall|i: int| 0 <= i < p.columns.len() ==> (#[trigger] p.columns[i]).alias == p.alias
    &&& forall|i: int| 0 <= i < p.columns.len() ==> is_identifier((#[trigger] p.columns[i]).name)
    &&& forall|i: int, j: int|
        #![trigger p.columns[i], p.columns[j]]
        0 <= i < j < p.columns.len() ==> p.columns[i].name != p.columns[j].name
    &&& p.inner_shape.len() == p.columns.len()
    &&& forall|i: int| 0 <= i < p.columns.len() ==> (#[trigger] p.columns[i]).ty == p.inner_shape[i]
    &&& (match p.primary_key {
        Some(k) => 0 <= k < p.columns.len(),
        None => true,
    })
}

/// The error reported for an ill-formed projection descriptor: the first
/// failing check, in a fixed order.
pub open spec fn proj_err(p: ProjectionView) -> BindingError {
    if !is_identifier(p.alias) {
        BindingError::MalformedAlias
    } else if exists|i: int| 0 <= i < p.columns.len() && (#[trigger] p.columns[i]).alias
        != p.alias {
        BindingError::ColumnAliasMismatch
    } else if exists|i: int| 0 <= i < p.columns.len() && !is_identifier(
        (#[trigger] p.columns[i]).name,
    ) {
        BindingError::MalformedColumnName
    } else if exists|i: int, j: int|
        #![trigger p.columns[i], p.columns[j]]
        0 <= i < j < p.columns.len() && p.columns[i].name == p.columns[j].name {
        BindingError::DuplicateColumnName
    } else if p.inner_shape.len() != p.columns.len() {
        BindingError::ColumnCountMismatch
    } else if exists|i: int| 0 <= i < p.columns.len() && (#[trigger] p.columns[i]).ty
        != p.inner_shape[i] {
        BindingError::ColumnTypeMismatch
    } else {
        BindingError::PrimaryKeyOutOfRange
    }
}

/// The column descriptors that an alias binding generates: one per
/// declared `(name, type)` pair, in declaration order, each carrying the
/// binding's alias.
pub open spec fn generated_columns(alias: Seq<char>, declared: Seq<(String, SqlType)>) -> Seq<
    ColumnView,
> {
    Seq::new(declared.len(), |i: int| ColumnView {
        alias: alias,
        name: declared[i].0@,
        ty: declared[i].1,
    })
}

impl SubqueryProjection {
    /// An independent deep copy of the descriptor.
    pub fn duplicate(&self) -> (r: SubqueryProjection)
        ensures
            r@ == self@,
    {
        let mut cols: Vec<Column> = Vec::new();
        let mut i: usize = 0;
        while i < self.columns.len()
            invariant
                0 <= i <= self.columns@.len(),
                cols@ == self.columns@.take(i as int),
            decreases self.columns@.len() - i,
        {
            cols.push(self.columns[i].dup());
            proof {
                assert(cols@ =~= self.columns@.take(i as int + 1));
            }
            i = i + 1;
        }
        proof {
            assert(self.columns@.take(self.columns@.len() as int) =~= self.columns@);
        }
        SubqueryProjection {
            alias: self.alias.clone(),
            columns: cols,
            inner_shape: dup_shape(&self.inner_shape),
            primary_key: self.primary_key,
        }
    }

    /// Check the descriptor's well-formedness, reporting the first failing
    /// check in a fixed order.
    #[verifier::loop_isolation(false)]
    pub fn check(&self) -> (r: Result<(), BindingError>)
        ensures
            (r is Ok) == proj_wf(self@),
            (r matches Err(e) ==> e == proj_err(self@) && !proj_wf(self@)),
    {
        if !check_identifier(self.alias.as_str()) {
            return Err(BindingError::MalformedAlias);
        }
        let n = self.columns.len();
        let mut i: usize = 0;
        while i < n
            invariant
                0 <= i <= n,
                n == self.columns@.len(),
                forall|j: int| 0 <= j < i ==> (#[trigger] cols_view(self.columns@)[j]).alias
                    == self.alias@,
            decreases n - i,
        {
            if !(self.columns[i].alias == self.alias) {
                proof {
                    assert(self@.columns[i as int].alias != self@.alias);
                    assert(exists|t: int| 0 <= t < self@.columns.len() && (
                    #[trigger] self@.columns[t]).alias != self@.alias);
                }
                return Err(BindingError::ColumnAliasMismatch);
            }
            i = i + 1;
        }
        let mut i: usize = 0;
        while i < n
            invariant
                0 <= i <= n,
                n == self.columns@.len(),
                forall|j: int| 0 <= j < i ==> is_identifier(
                    (#[trigger] cols_view(self.columns@)[j]).name,
                ),
            decreases n - i,
        {
            if !check_identifier(self.columns[i].name.as_str()) {
                proof {
                    assert(!is_identifier(self@.columns[i as int].name));
                    assert(exists|t: int| 0 <= t < self@.columns.len() && !is_identifier((
                    #[trigger] self@.columns[t]).name));
                }
                return Err(BindingError::MalformedColumnName);
            }
            i = i + 1;
        }
        let mut i: usize = 0;
        while i < n
            invariant
                0 <= i <= n,
                n == self.columns@.len(),
                forall|a: int, b: int|
                    #![trigger cols_view(self.columns@)[a], cols_view(self.columns@)[b]]
                    0 <= a < b < i ==> cols_view(self.columns@)[a].name != cols_view(
                        self.columns@,
                    )[b].name,
            decreases n - i,
        {
            let mut j: usize = 0;
            while j < i
                invariant
                    0 <= j <= i < n,
                    n == self.columns@.len(),
                    forall|a: int, b: int|
                        #![trigger cols_view(self.columns@)[a], cols_view(self.columns@)[b]]
                        0 <= a < b < i ==> cols_view(self.columns@)[a].name != cols_view(
                            self.columns@,
                        )[b].name,
                    forall|a: int| 0 <= a < j ==> (#[trigger] cols_view(self.columns@)[a]).name
                        != cols_view(self.columns@)[i as int].name,
                decreases i - j,
            {
                if self.columns[j].name == self.columns[i].name {
                    proof {
                        assert(self@.columns[j as int].name == self@.columns[i as int].name);
                        assert(exists|a: int, b: int|
                            #![trigger self@.columns[a], self@.columns[b]]
                            0 <= a < b < self@.columns.len() && self@.columns[a].name
                                == self@.columns[b].name);
                    }
                    return Err(BindingError::DuplicateColumnName);
                }
                j = j + 1;
            }
            i = i + 1;
        }
        if self.inner_shape.len() != n {
            return Err(BindingError::ColumnCountMismatch);
        }
        let mut i: usize = 0;
        while i < n
            invariant
                0 <= i <= n,
                n == self.columns@.len(),
                n == self.inner_shape@.len(),
                forall|j: int| 0 <= j < i ==> (#[trigger] cols_view(self.columns@)[j]).ty
                    == self.inner_shape@[j],
            decreases n - i,
        {
            if !(self.columns[i].ty == self.inner_shape[i]) {
                proof {
                    assert(self@.columns[i as int].ty != self@.inner_shape[i as int]);
                    assert(exists|t: int| 0 <= t < self@.columns.len() && (
                    #[trigger] self@.columns[t]).ty != self@.inner_shape[t]);
                }
                return Err(BindingError::ColumnTypeMismatch);
            }
            i = i + 1;
        }
        match self.primary_key {
            Some(k) => {
                if !(k < n) {
                    return Err(BindingError::PrimaryKeyOutOfRange);
                }
            },
            None => {},
        }
        Ok(())
    }

    /// Turn a declarative alias binding into a validated projection
    /// descriptor: one generated column per declared pair, in declaration
    /// order, each scoped to the binding's alias.  An ill-formed binding
    /// is rejected here, before any derived table can be built from it.
    #[verifier::loop_isolation(false)]
    pub fn generate(
        alias: &str,
        inner_shape: &Vec<SqlType>,
        declared: &Vec<(String, SqlType)>,
        primary_key: Option<usize>,
    ) -> (r: Result<SubqueryProjection, BindingError>)
        ensures
            ({
                let pv = (ProjectionView {
                    alias: alias@,
                    columns: generated_columns(alias@, declared@),
                    inner_shape: inner_shape@,
                    primary_key: pk_view(primary_key),
                });
                &&& (r is Ok) == proj_wf(pv)
                &&& (r matches Ok(p) ==> p@ == pv)
                &&& (r matches Err(e) ==> e == proj_err(pv) && !proj_wf(pv))
            }),
    {
        let mut cols: Vec<Column> = Vec::new();
        let mut i: usize = 0;
        while i < declared.len()
            invariant
                0 <= i <= declared@.len(),
                cols_view(cols@) == generated_columns(alias@, declared@).take(i as int),
            decreases declared@.len() - i,
        {
            let ghost prev = cols@;
            let pair = &declared[i];
            cols.push(Column { alias: alias.to_owned(), name: pair.0.clone(), ty: pair.1 });
            proof {
                let g = generated_columns(alias@, declared@);
                assert(cols_view(prev).len() == prev.len());
                assert(prev.len() == i as int);
                assert(cols@[i as int]@ == g[i as int]);
                assert forall|j: int| 0 <= j < i + 1 implies cols_view(cols@)[j] == g.take(
                    i as int + 1,
                )[j] by {
                    if j < i {
                        assert(cols_view(prev)[j] == g.take(i as int)[j]);
                        assert(cols@[j] == prev[j]);
                    }
                }
                assert(cols_view(cols@) =~= g.take(i as int + 1));
            }
            i = i + 1;
        }
        proof {
            assert(generated_columns(alias@, declared@).take(declared@.len() as int)
                =~= generated_columns(alias@, declared@));
        }
        let p = SubqueryProjection {
            alias: alias.to_owned(),
            columns: cols,
            inner_shape: dup_shape(inner_shape),
            primary_key,
        };
        match p.check() {
            Ok(()) => Ok(p),
            Err(e) => Err(e),
        }
    }
}

} // verus!
