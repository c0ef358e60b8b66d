use vstd::prelude::*;
use crate::fragment::{render, rendered_as, type_in, Fragment};
use crate::schema::Table;
use crate::sql::{cat, lemma_extends_trans, lit, Backend, QueryBuilder, RenderError, RenderResult, SqlType};

verus! {

/// A SELECT statement whose parts have been type-erased, so that filters
/// can be added and the projection replaced at run time.
///
/// The row type tag is checked once, when the statement is built, and
/// carried along for callers; rendering never inspects it.
pub struct BoxedSelectStatement {
    select: Box<Fragment>,
    from: Table,
    where_clause: Option<Box<Fragment>>,
    order: Box<Fragment>,
    limit: Box<Fragment>,
    offset: Box<Fragment>,
    row_type: SqlType,
}

/// The where-clause after one `filter(p)`: the predicate itself when there
/// was none, else the previous clause ANDed (on the left) with it.
pub open spec fn filtered(w: Option<Box<Fragment>>, p: Fragment) -> Option<Box<Fragment>> {
    match w {
        None => Some(Box::new(p)),
        Some(prev) => Some(Box::new(Fragment::And(prev, Box::new(p)))),
    }
}

/// The where-clause after filtering by each predicate of `ps` in turn.
pub open spec fn filtered_all(w: Option<Box<Fragment>>, ps: Seq<Fragment>) -> Option<Box<Fragment>>
    decreases ps.len(),
{
    if ps.len() == 0 {
        w
    } else {
        filtered(filtered_all(w, ps.drop_last()), ps.last())
    }
}

/// The left-deep conjunction of a non-empty sequence of predicates:
/// `[p1, p2, p3]` is `(p1 AND p2) AND p3`.
pub open spec fn left_conjunction(ps: Seq<Fragment>) -> Fragment
    recommends
        ps.len() > 0,
    decreases ps.len(),
{
    if ps.len() <= 1 {
        ps[0]
    } else {
        Fragment::And(Box::new(left_conjunction(ps.drop_last())), Box::new(ps.last()))
    }
}

/// `head`, followed by ` WHERE <w>` when there is a where-clause `w`.
pub open spec fn with_where(head: RenderResult, where_clause: Option<Box<Fragment>>, b: Backend) -> RenderResult {
    match where_clause {
        Some(w) => cat(cat(head, lit(" WHERE "@)), render(*w, b)),
        None => head,
    }
}

/// Rendering of a statement: `SELECT <select> FROM <from>`, then
/// ` WHERE <where>` only if there is a where-clause, then order, limit and
/// offset. The first error in that order is the result.
pub open spec fn render_statement(
    select: Fragment,
    from: Table,
    where_clause: Option<Box<Fragment>>,
    order: Fragment,
    limit: Fragment,
    offset: Fragment,
    b: Backend,
) -> RenderResult {
    let head = cat(cat(cat(lit("SELECT "@), render(select, b)), lit(" FROM "@)), lit(from.name@));
    cat(cat(cat(with_where(head, where_clause, b), render(order, b)), render(limit, b)), render(offset, b))
}

/// Filtering a statement that has no where-clause by `p1, ..., pn` in
/// turn leaves the left-deep conjunction `((p1 AND p2) AND ...) AND pn`.
pub proof fn law_filters_conjoin_left_deep(ps: Seq<Fragment>)
    requires
        ps.len() > 0,
    ensures
        filtered_all(None, ps) == Some(Box::new(left_conjunction(ps))),
    decreases ps.len(),
{
    if ps.len() > 1 {
        law_filters_conjoin_left_deep(ps.drop_last());
    } else {
        assert(filtered_all(None, ps.drop_last()) == None::<Box<Fragment>>);
        assert(ps.last() == ps[0]);
    }
}

/// Filtering a statement whose where-clause is `w` by `p1, ..., pn` in turn
/// leaves `((w AND p1) AND ...) AND pn`.
pub proof fn law_filters_extend_where_clause(w: Fragment, ps: Seq<Fragment>)
    ensures
        filtered_all(Some(Box::new(w)), ps) == Some(Box::new(left_conjunction(seq![w] + ps))),
    decreases ps.len(),
{
    if ps.len() > 0 {
        law_filters_extend_where_clause(w, ps.drop_last());
        assert((seq![w] + ps).drop_last() =~= seq![w] + ps.drop_last());
    } else {
        assert(seq![w] + ps =~= seq![w]);
    }
}

/// A statement without a where-clause renders as `SELECT <select> FROM
/// <from>` followed directly by order, limit and offset: no `WHERE` keyword
/// and no placeholder condition.
pub proof fn law_no_where_keyword(
    select: Fragment,
    from: Table,
    order: Fragment,
    limit: Fragment,
    offset: Fragment,
    b: Backend,
)
    requires
        render(select, b) is Ok,
        render(order, b) is Ok,
        render(limit, b) is Ok,
        render(offset, b) is Ok,
    ensures
        render_statement(select, from, None, order, limit, offset, b) == Ok::<_, RenderError>(
            (
                "SELECT "@ + render(select, b)->Ok_0.0 + " FROM "@ + from.name@ + render(
                    order,
                    b,
                )->Ok_0.0 + render(limit, b)->Ok_0.0 + render(offset, b)->Ok_0.0,
                render(select, b)->Ok_0.1 + render(order, b)->Ok_0.1 + render(limit, b)->Ok_0.1
                    + render(offset, b)->Ok_0.1,
            ),
        ),
{
    let r = render_statement(select, from, None, order, limit, offset, b)->Ok_0;
    assert(r.1 =~= render(select, b)->Ok_0.1 + render(order, b)->Ok_0.1 + render(limit, b)->Ok_0.1
        + render(offset, b)->Ok_0.1);
}

impl BoxedSelectStatement {
    /// The statement's projection.
    pub closed spec fn spec_select(self) -> Fragment {
        *self.select
    }

    pub closed spec fn spec_from(self) -> Table {
        self.from
    }

    pub closed spec fn spec_where(self) -> Option<Box<Fragment>> {
        self.where_clause
    }

    pub closed spec fn spec_order(self) -> Fragment {
        *self.order
    }

    pub closed spec fn spec_limit(self) -> Fragment {
        *self.limit
    }

    pub closed spec fn spec_offset(self) -> Fragment {
        *self.offset
    }

    /// The logical row type of the statement's result.
    pub closed spec fn spec_row_type(self) -> SqlType {
        self.row_type
    }

    /// The SQL text and parameters of this statement on `b`.
    pub open spec fn spec_render(self, b: Backend) -> RenderResult {
        render_statement(
            self.spec_select(),
            self.spec_from(),
            self.spec_where(),
            self.spec_order(),
            self.spec_limit(),
            self.spec_offset(),
            b,
        )
    }

    /// Assembles a statement from already-erased parts. The projection must
    /// be a well-typed expression over `from`; its type becomes the row type.
    pub fn new(
        select: Box<Fragment>,
        from: Table,
        where_clause: Option<Box<Fragment>>,
        order: Box<Fragment>,
        limit: Box<Fragment>,
        offset: Box<Fragment>,
    ) -> (r: Self)
        requires
            type_in(*select, from.name@) is Some,
        ensures
            r.spec_select() == *select,
            r.spec_from() == from,
            r.spec_where() == where_clause,
            r.spec_order() == *order,
            r.spec_limit() == *limit,
            r.spec_offset() == *offset,
            Some(r.spec_row_type()) == type_in(*select, from.name@),
    {
        let row_type = select.sql_type_in(&from.name).unwrap();
        BoxedSelectStatement { select, from, where_clause, order, limit, offset, row_type }
    }

    /// Replaces the projection (never merging with the previous one); the
    /// row type becomes the selection's type. All other parts are kept.
    pub fn select(self, selection: Fragment) -> (r: Self)
        requires
            type_in(selection, self.spec_from().name@) is Some,
        ensures
            r.spec_select() == selection,
            Some(r.spec_row_type()) == type_in(selection, self.spec_from().name@),
            r.spec_from() == self.spec_from(),
            r.spec_where() == self.spec_where(),
            r.spec_order() == self.spec_order(),
            r.spec_limit() == self.spec_limit(),
            r.spec_offset() == self.spec_offset(),
    {
        BoxedSelectStatement::new(
            Box::new(selection),
            self.from,
            self.where_clause,
            self.order,
            self.limit,
            self.offset,
        )
    }

    /// Adds a boolean predicate over the statement's table: it becomes the
    /// where-clause, or is ANDed to the right of the existing one.
    pub fn filter(self, predicate: Fragment) -> (r: Self)
        requires
            type_in(predicate, self.spec_from().name@) == Some(SqlType::Bool),
        ensures
            r.spec_where() == filtered(self.spec_where(), predicate),
            r.spec_select() == self.spec_select(),
            r.spec_row_type() == self.spec_row_type(),
            r.spec_from() == self.spec_from(),
            r.spec_order() == self.spec_order(),
            r.spec_limit() == self.spec_limit(),
            r.spec_offset() == self.spec_offset(),
    {
        let mut s = self;
        s.where_clause = Some(
            match s.where_clause {
                Some(w) => Box::new(Fragment::And(w, Box::new(predicate))),
                None => Box::new(predicate),
            },
        );
        s
    }

    pub fn row_type(&self) -> (r: SqlType)
        ensures
            r == self.spec_row_type(),
    {
        self.row_type
    }

    pub fn has_where_clause(&self) -> (r: bool)
        ensures
            r == self.spec_where() is Some,
    {
        self.where_clause.is_some()
    }

    /// Renders the statement for `backend` into `out`, stopping at the first
    /// error met in the order select, from, where, order, limit, offset.
    pub fn to_sql(&self, out: &mut QueryBuilder, backend: Backend) -> (r: Result<(), RenderError>)
        ensures
            rendered_as(self.spec_render(backend), *old(out), *final(out), r),
    {
        let ghost o0 = *out;
        let ghost sel = render(*self.select, backend);
        out.push_sql("SELECT ");
        let ghost o1 = *out;
        match self.select.to_sql(out, backend) {
            Err(e) => { return Err(e); },
            Ok(_) => {},
        }
        proof { lemma_extends_trans(o0, o1, *out, ("SELECT "@, Seq::empty()), sel->Ok_0); }
        let ghost o2 = *out;
        let ghost a = cat(lit("SELECT "@), sel)->Ok_0;
        out.push_sql(" FROM ");
        proof { lemma_extends_trans(o0, o2, *out, a, (" FROM "@, Seq::empty())); }
        let ghost o3 = *out;
        let ghost a = cat(cat(lit("SELECT "@), sel), lit(" FROM "@))->Ok_0;
        out.push_sql(self.from.name.as_str());
        proof { lemma_extends_trans(o0, o3, *out, a, (self.from.name@, Seq::empty())); }
        let ghost head = cat(cat(cat(lit("SELECT "@), sel), lit(" FROM "@)), lit(self.from.name@));
        match &self.where_clause {
            Some(w) => {
                let ghost o4 = *out;
                out.push_sql(" WHERE ");
                proof { lemma_extends_trans(o0, o4, *out, head->Ok_0, (" WHERE "@, Seq::empty())); }
                let ghost o5 = *out;
                match w.to_sql(out, backend) {
                    Err(e) => { return Err(e); },
                    Ok(_) => {},
                }
                proof {
                    lemma_extends_trans(o0, o5, *out, cat(head, lit(" WHERE "@))->Ok_0, render(**w, backend)->Ok_0);
                }
            },
            None => {},
        }
        let ghost fh = with_where(head, self.where_clause, backend);
        let ghost o6 = *out;
        match self.order.to_sql(out, backend) {
            Err(e) => { return Err(e); },
            Ok(_) => {},
        }
        proof { lemma_extends_trans(o0, o6, *out, fh->Ok_0, render(*self.order, backend)->Ok_0); }
        let ghost o7 = *out;
        let ghost a = cat(fh, render(*self.order, backend));
        match self.limit.to_sql(out, backend) {
            Err(e) => { return Err(e); },
            Ok(_) => {},
        }
        proof { lemma_extends_trans(o0, o7, *out, a->Ok_0, render(*self.limit, backend)->Ok_0); }
        let ghost o8 = *out;
        let ghost a = cat(a, render(*self.limit, backend));
        match self.offset.to_sql(out, backend) {
            Err(e) => { return Err(e); },
            Ok(_) => {},
        }
        proof { lemma_extends_trans(o0, o8, *out, a->Ok_0, render(*self.offset, backend)->Ok_0); }
        Ok(())
    }
}

} // verus!
