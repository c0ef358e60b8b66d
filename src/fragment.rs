use vstd::prelude::*;
use crate::schema::Column;
use crate::sql::{cat, lemma_extends_trans, lit, Backend, QueryBuilder, RenderError, RenderResult, SqlType, Value};

verus! {

/// A type-erased, renderable query fragment. Each composite fragment owns
/// its children.
#[derive(Debug, PartialEq, Eq)]
pub enum Fragment {
    /// Renders nothing: an unset ORDER BY, LIMIT or OFFSET.
    Empty,
    /// The default projection, `*`.
    AllColumns,
    Column(Column),
    /// A value bound as a parameter, rendered as `?`.
    Bind(Value),
    /// `l = r`
    Eq(Box<Fragment>, Box<Fragment>),
    /// `(l) AND (r)`
    And(Box<Fragment>, Box<Fragment>),
    /// `l ILIKE r`, available on Postgres only.
    ILike(Box<Fragment>, Box<Fragment>),
    /// ` ORDER BY e`, with ` DESC` when the flag is set.
    OrderBy(Box<Fragment>, bool),
    /// ` LIMIT ?`
    Limit(i64),
    /// ` OFFSET ?`
    Offset(i64),
}

/// The SQL text and parameters of a fragment on a backend, or the first
/// construct (in source order) that the backend cannot express.
pub open spec fn render(f: Fragment, b: Backend) -> RenderResult
    decreases f,
{
    match f {
        Fragment::Empty => lit(Seq::empty()),
        Fragment::AllColumns => lit("*"@),
        Fragment::Column(c) => lit(c.name@),
        Fragment::Bind(v) => Ok((seq!['?'], seq![v])),
        Fragment::Eq(l, r) => cat(cat(render(*l, b), lit(" = "@)), render(*r, b)),
        Fragment::And(l, r) => cat(
            cat(cat(cat(lit("("@), render(*l, b)), lit(") AND ("@)), render(*r, b)),
            lit(")"@),
        ),
        Fragment::ILike(l, r) => if b == Backend::Pg {
            cat(cat(render(*l, b), lit(" ILIKE "@)), render(*r, b))
        } else {
            Err(RenderError::ILikeUnsupported(b))
        },
        Fragment::OrderBy(e, desc) => cat(
            cat(lit(" ORDER BY "@), render(*e, b)),
            lit(if desc { " DESC"@ } else { Seq::empty() }),
        ),
        Fragment::Limit(n) => cat(lit(" LIMIT "@), Ok((seq!['?'], seq![Value::Integer(n)]))),
        Fragment::Offset(n) => cat(lit(" OFFSET "@), Ok((seq!['?'], seq![Value::Integer(n)]))),
    }
}

/// The logical type of a fragment used as an expression over the table
/// named `table`; `None` where it is no well-typed expression there
/// (a column of another table, a comparison of unlike types, a clause).
pub open spec fn type_in(f: Fragment, table: Seq<char>) -> Option<SqlType>
    decreases f,
{
    match f {
        Fragment::AllColumns => Some(SqlType::Row),
        Fragment::Column(c) => if c.table@ == table {
            Some(c.sql_type)
        } else {
            None
        },
        Fragment::Bind(v) => v.sql_type(),
        Fragment::Eq(l, r) => match (type_in(*l, table), type_in(*r, table)) {
            (Some(tl), Some(tr)) => if tl == tr && tl != SqlType::Row {
                Some(SqlType::Bool)
            } else {
                None
            },
            _ => None,
        },
        Fragment::And(l, r) => if type_in(*l, table) == Some(SqlType::Bool) && type_in(*r, table)
            == Some(SqlType::Bool) {
            Some(SqlType::Bool)
        } else {
            None
        },
        Fragment::ILike(l, r) => if type_in(*l, table) == Some(SqlType::Text) && type_in(*r, table)
            == Some(SqlType::Text) {
            Some(SqlType::Bool)
        } else {
            None
        },
        _ => None,
    }
}

/// Whether `r` and the buffers before and after a rendering call agree
/// with the rendering result `spec_r`.
pub open spec fn rendered_as(
    spec_r: RenderResult,
    before: QueryBuilder,
    after: QueryBuilder,
    r: Result<(), RenderError>,
) -> bool {
    match spec_r {
        Ok(x) => r is Ok && QueryBuilder::extends(before, after, x),
        Err(e) => r == Err::<(), RenderError>(e),
    }
}

impl Fragment {
    /// `l = r`
    pub fn eq(l: Fragment, r: Fragment) -> (f: Fragment)
        ensures
            f == Fragment::Eq(Box::new(l), Box::new(r)),
    {
        Fragment::Eq(Box::new(l), Box::new(r))
    }

    /// `(l) AND (r)`
    pub fn and(l: Fragment, r: Fragment) -> (f: Fragment)
        ensures
            f == Fragment::And(Box::new(l), Box::new(r)),
    {
        Fragment::And(Box::new(l), Box::new(r))
    }

    /// Renders this fragment for `backend` into `out`; stops at the first
    /// construct the backend cannot express.
    pub fn to_sql(&self, out: &mut QueryBuilder, backend: Backend) -> (r: Result<(), RenderError>)
        ensures
            rendered_as(render(*self, backend), *old(out), *final(out), r),
        decreases self,
    {
        let ghost o0 = *out;
        match self {
            Fragment::Empty => {
                assert(out.sql@ =~= o0.sql@ + Seq::<char>::empty());
                assert(out.binds@ =~= o0.binds@ + Seq::<Value>::empty());
                Ok(())
            },
            Fragment::AllColumns => {
                out.push_sql("*");
                Ok(())
            },
            Fragment::Column(c) => {
                out.push_sql(c.name.as_str());
                Ok(())
            },
            Fragment::Bind(v) => {
                out.push_bind(v.duplicate());
                Ok(())
            },
            Fragment::Eq(l, rt) => {
                match l.to_sql(out, backend) {
                    Err(e) => { return Err(e); },
                    Ok(_) => {},
                }
                let ghost o1 = *out;
                out.push_sql(" = ");
                proof { lemma_extends_trans(o0, o1, *out, render(**l, backend)->Ok_0, (" = "@, Seq::empty())); }
                let ghost o2 = *out;
                match rt.to_sql(out, backend) {
                    Err(e) => { return Err(e); },
                    Ok(_) => {},
                }
                proof {
                    lemma_extends_trans(o0, o2, *out, cat(render(**l, backend), lit(" = "@))->Ok_0, render(**rt, backend)->Ok_0);
                }
                Ok(())
            },
            Fragment::And(l, rt) => {
                out.push_sql("(");
                let ghost o1 = *out;
                match l.to_sql(out, backend) {
                    Err(e) => { return Err(e); },
                    Ok(_) => {},
                }
                proof { lemma_extends_trans(o0, o1, *out, ("("@, Seq::empty()), render(**l, backend)->Ok_0); }
                let ghost o2 = *out;
                let ghost a1 = cat(lit("("@), render(**l, backend))->Ok_0;
                out.push_sql(") AND (");
                proof { lemma_extends_trans(o0, o2, *out, a1, (") AND ("@, Seq::empty())); }
                let ghost o3 = *out;
                let ghost a2 = cat(cat(lit("("@), render(**l, backend)), lit(") AND ("@))->Ok_0;
                match rt.to_sql(out, backend) {
                    Err(e) => { return Err(e); },
                    Ok(_) => {},
                }
                proof { lemma_extends_trans(o0, o3, *out, a2, render(**rt, backend)->Ok_0); }
                let ghost o4 = *out;
                let ghost a3 = cat(cat(cat(lit("("@), render(**l, backend)), lit(") AND ("@)), render(**rt, backend))->Ok_0;
                out.push_sql(")");
                proof { lemma_extends_trans(o0, o4, *out, a3, (")"@, Seq::empty())); }
                Ok(())
            },
            Fragment::ILike(l, rt) => {
                if backend != Backend::Pg {
                    return Err(RenderError::ILikeUnsupported(backend));
                }
                match l.to_sql(out, backend) {
                    Err(e) => { return Err(e); },
                    Ok(_) => {},
                }
                let ghost o1 = *out;
                out.push_sql(" ILIKE ");
                proof { lemma_extends_trans(o0, o1, *out, render(**l, backend)->Ok_0, (" ILIKE "@, Seq::empty())); }
                let ghost o2 = *out;
                match rt.to_sql(out, backend) {
                    Err(e) => { return Err(e); },
                    Ok(_) => {},
                }
                proof {
                    lemma_extends_trans(o0, o2, *out, cat(render(**l, backend), lit(" ILIKE "@))->Ok_0, render(**rt, backend)->Ok_0);
                }
                Ok(())
            },
            Fragment::OrderBy(e, desc) => {
                out.push_sql(" ORDER BY ");
                let ghost o1 = *out;
                match e.to_sql(out, backend) {
                    Err(err) => { return Err(err); },
                    Ok(_) => {},
                }
                proof { lemma_extends_trans(o0, o1, *out, (" ORDER BY "@, Seq::empty()), render(**e, backend)->Ok_0); }
                let ghost o2 = *out;
                let ghost a1 = cat(lit(" ORDER BY "@), render(**e, backend))->Ok_0;
                if *desc {
                    out.push_sql(" DESC");
                    proof { lemma_extends_trans(o0, o2, *out, a1, (" DESC"@, Seq::empty())); }
                } else {
                    assert(out.sql@ =~= o0.sql@ + (a1.0 + Seq::<char>::empty()));
                    assert(out.binds@ =~= o0.binds@ + (a1.1 + Seq::<Value>::empty()));
                }
                Ok(())
            },
            Fragment::Limit(n) => {
                out.push_sql(" LIMIT ");
                let ghost o1 = *out;
                out.push_bind(Value::Integer(*n));
                proof { lemma_extends_trans(o0, o1, *out, (" LIMIT "@, Seq::empty()), (seq!['?'], seq![Value::Integer(*n)])); }
                Ok(())
            },
            Fragment::Offset(n) => {
                out.push_sql(" OFFSET ");
                let ghost o1 = *out;
                out.push_bind(Value::Integer(*n));
                proof { lemma_extends_trans(o0, o1, *out, (" OFFSET "@, Seq::empty()), (seq!['?'], seq![Value::Integer(*n)])); }
                Ok(())
            },
        }
    }

    /// The logical type of this fragment over the table named `table`.
    pub fn sql_type_in(&self, table: &String) -> (r: Option<SqlType>)
        ensures
            r == type_in(*self, table@),
        decreases self,
    {
        match self {
            Fragment::AllColumns => Some(SqlType::Row),
            Fragment::Column(c) => {
                if c.table == *table {
                    Some(c.sql_type)
                } else {
                    None
                }
            },
            Fragment::Bind(v) => match v {
                Value::Null => None,
                Value::Integer(_) => Some(SqlType::Integer),
                Value::Text(_) => Some(SqlType::Text),
                Value::Bool(_) => Some(SqlType::Bool),
            },
            Fragment::Eq(l, r) => match (l.sql_type_in(table), r.sql_type_in(table)) {
                (Some(tl), Some(tr)) => {
                    if tl == tr && tl != SqlType::Row {
                        Some(SqlType::Bool)
                    } else {
                        None
                    }
                },
                _ => None,
            },
            Fragment::And(l, r) => {
                let tl = l.sql_type_in(table);
                let tr = r.sql_type_in(table);
                if tl == Some(SqlType::Bool) && tr == Some(SqlType::Bool) {
                    Some(SqlType::Bool)
                } else {
                    None
                }
            },
            Fragment::ILike(l, r) => {
                let tl = l.sql_type_in(table);
                let tr = r.sql_type_in(table);
                if tl == Some(SqlType::Text) && tr == Some(SqlType::Text) {
                    Some(SqlType::Bool)
                } else {
                    None
                }
            },
            _ => None,
        }
    }
}

} // verus!
