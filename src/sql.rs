use vstd::prelude::*;

verus! {

/// Logical SQL type tag of a fragment or a column.
#[derive(Debug, PartialEq, Eq, Structural, Clone, Copy)]
pub enum SqlType {
    Integer,
    Text,
    Bool,
    /// A whole table row (the default projection `*`).
    Row,
}

/// The SQL dialect a statement is rendered for.
#[derive(Debug, PartialEq, Eq, Structural, Clone, Copy)]
pub enum Backend {
    Pg,
    Sqlite,
    Mysql,
}

/// The one error the rendering core raises: a construct that the
/// requested backend cannot express.
#[derive(Debug, PartialEq, Eq, Structural, Clone, Copy)]
pub enum RenderError {
    /// Case-insensitive `ILIKE` matching exists on Postgres only.
    ILikeUnsupported(Backend),
}

/// A value bound as a query parameter.
#[derive(Debug, PartialEq, Eq)]
pub enum Value {
    Null,
    Integer(i64),
    Text(String),
    Bool(bool),
}

impl Value {
    /// The logical type of a bound value; SQL NULL has none of its own.
    pub open spec fn sql_type(self) -> Option<SqlType> {
        match self {
            Value::Null => None,
            Value::Integer(_) => Some(SqlType::Integer),
            Value::Text(_) => Some(SqlType::Text),
            Value::Bool(_) => Some(SqlType::Bool),
        }
    }

    pub fn duplicate(&self) -> (r: Value)
        ensures
            r == *self,
    {
        match self {
            Value::Null => Value::Null,
            Value::Integer(n) => Value::Integer(*n),
            Value::Text(s) => Value::Text(s.clone()),
            Value::Bool(b) => Value::Bool(*b),
        }
    }
}

/// Rendered SQL text together with the parameters bound by it, in order.
pub type Rendered = (Seq<char>, Seq<Value>);

/// Result of rendering: the text and parameters, or the first error met.
pub type RenderResult = Result<Rendered, RenderError>;

/// Literal SQL text with no parameters.
pub open spec fn lit(s: Seq<char>) -> RenderResult {
    Ok((s, Seq::empty()))
}

/// Rendering `a` then `b`: the first error in that order wins.
pub open spec fn cat(a: RenderResult, b: RenderResult) -> RenderResult {
    match a {
        Err(e) => Err(e),
        Ok(x) => match b {
            Err(e) => Err(e),
            Ok(y) => Ok((x.0 + y.0, x.1 + y.1)),
        },
    }
}

/// Output buffer shared by nested fragments: SQL text and bound parameters.
pub struct QueryBuilder {
    pub sql: String,
    pub binds: Vec<Value>,
}

impl QueryBuilder {
    pub fn new() -> (r: QueryBuilder)
        ensures
            r.sql@ == Seq::<char>::empty(),
            r.binds@ == Seq::<Value>::empty(),
    {
        QueryBuilder { sql: String::new(), binds: Vec::new() }
    }

    /// Whether `after` is `before` with `r` appended.
    pub open spec fn extends(before: QueryBuilder, after: QueryBuilder, r: Rendered) -> bool {
        &&& after.sql@ == before.sql@ + r.0
        &&& after.binds@ == before.binds@ + r.1
    }

    pub fn push_sql(&mut self, s: &str)
        ensures
            QueryBuilder::extends(*old(self), *final(self), (s@, Seq::empty())),
    {
        self.sql.append(s);
        assert(self.binds@ =~= old(self).binds@ + Seq::<Value>::empty());
    }

    pub fn push_bind(&mut self, v: Value)
        ensures
            QueryBuilder::extends(*old(self), *final(self), (seq!['?'], seq![v])),
    {
        self.sql.append("?");
        proof {
            reveal_strlit("?");
        }
        assert("?"@ =~= seq!['?']);
        self.binds.push(v);
        assert(self.binds@ =~= old(self).binds@ + seq![v]);
    }

    pub fn sql(&self) -> (r: &str)
        ensures
            r@ == self.sql@,
    {
        self.sql.as_str()
    }

    pub fn binds(&self) -> (r: &Vec<Value>)
        ensures
            r@ == self.binds@,
    {
        &self.binds
    }
}

/// Writing `x` and then `y` writes their concatenation.
pub proof fn lemma_extends_trans(
    a: QueryBuilder,
    b: QueryBuilder,
    c: QueryBuilder,
    x: (Seq<char>, Seq<Value>),
    y: (Seq<char>, Seq<Value>),
)
    requires
        QueryBuilder::extends(a, b, x),
        QueryBuilder::extends(b, c, y),
    ensures
        QueryBuilder::extends(a, c, (x.0 + y.0, x.1 + y.1)),
{
    assert(c.sql@ =~= a.sql@ + (x.0 + y.0));
    assert(c.binds@ =~= a.binds@ + (x.1 + y.1));
}

} // verus!
