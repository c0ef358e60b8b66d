use query_core::boxed::BoxedSelectStatement;
use query_core::fragment::Fragment;
use query_core::schema::Table;
use query_core::sql::{Backend, QueryBuilder, RenderError, SqlType, Value};

fn users() -> Table {
    Table::new("users", "id")
}

fn users_statement() -> BoxedSelectStatement {
    BoxedSelectStatement::new(
        Box::new(Fragment::AllColumns),
        users(),
        None,
        Box::new(Fragment::Empty),
        Box::new(Fragment::Empty),
        Box::new(Fragment::Empty),
    )
}

fn id_eq(n: i64) -> Fragment {
    let t = users();
    Fragment::eq(Fragment::Column(t.column("id", SqlType::Integer)), Fragment::Bind(Value::Integer(n)))
}

fn name_eq(s: &str) -> Fragment {
    let t = users();
    Fragment::eq(
        Fragment::Column(t.column("name", SqlType::Text)),
        Fragment::Bind(Value::Text(s.to_string())),
    )
}

fn render(s: &BoxedSelectStatement, b: Backend) -> Result<QueryBuilder, RenderError> {
    let mut out = QueryBuilder::new();
    s.to_sql(&mut out, b)?;
    Ok(out)
}

#[test]
fn no_where_clause_omits_where_keyword() {
    let out = render(&users_statement(), Backend::Pg).unwrap();
    assert_eq!(out.sql(), "SELECT * FROM users");
    assert!(out.binds().is_empty());
}

#[test]
fn two_filters_render_as_conjunction() {
    let s = users_statement().filter(id_eq(1)).filter(name_eq("Ann"));
    let out = render(&s, Backend::Pg).unwrap();
    assert_eq!(out.sql(), "SELECT * FROM users WHERE (id = ?) AND (name = ?)");
    assert_eq!(out.binds(), &vec![Value::Integer(1), Value::Text("Ann".to_string())]);
}

#[test]
fn three_filters_associate_to_the_left() {
    let s = users_statement().filter(id_eq(1)).filter(name_eq("Ann")).filter(id_eq(2));
    let out = render(&s, Backend::Sqlite).unwrap();
    assert_eq!(out.sql(), "SELECT * FROM users WHERE ((id = ?) AND (name = ?)) AND (id = ?)");
    assert_eq!(
        out.binds(),
        &vec![Value::Integer(1), Value::Text("Ann".to_string()), Value::Integer(2)]
    );
}

#[test]
fn single_filter_is_the_where_clause() {
    let s = users_statement().filter(id_eq(7));
    assert!(s.has_where_clause());
    let out = render(&s, Backend::Mysql).unwrap();
    assert_eq!(out.sql(), "SELECT * FROM users WHERE id = ?");
    assert_eq!(out.binds(), &vec![Value::Integer(7)]);
}

#[test]
fn select_replaces_projection_and_row_type() {
    let t = users();
    let s = users_statement();
    assert_eq!(s.row_type(), SqlType::Row);
    let s = s.select(Fragment::Column(t.column("id", SqlType::Integer)));
    assert_eq!(s.row_type(), SqlType::Integer);
    let s = s.select(Fragment::Column(t.column("name", SqlType::Text)));
    assert_eq!(s.row_type(), SqlType::Text);
    let out = render(&s.filter(id_eq(3)), Backend::Pg).unwrap();
    assert_eq!(out.sql(), "SELECT name FROM users WHERE id = ?");
}

#[test]
fn order_limit_offset_follow_where() {
    let t = users();
    let s = BoxedSelectStatement::new(
        Box::new(Fragment::AllColumns),
        users(),
        None,
        Box::new(Fragment::OrderBy(Box::new(Fragment::Column(t.column("name", SqlType::Text))), true)),
        Box::new(Fragment::Limit(10)),
        Box::new(Fragment::Offset(20)),
    )
    .filter(id_eq(1));
    let out = render(&s, Backend::Pg).unwrap();
    assert_eq!(out.sql(), "SELECT * FROM users WHERE id = ? ORDER BY name DESC LIMIT ? OFFSET ?");
    assert_eq!(out.binds(), &vec![Value::Integer(1), Value::Integer(10), Value::Integer(20)]);
}

#[test]
fn ilike_renders_on_postgres() {
    let t = users();
    let pred = Fragment::ILike(
        Box::new(Fragment::Column(t.column("name", SqlType::Text))),
        Box::new(Fragment::Bind(Value::Text("a%".to_string()))),
    );
    let out = render(&users_statement().filter(pred), Backend::Pg).unwrap();
    assert_eq!(out.sql(), "SELECT * FROM users WHERE name ILIKE ?");
}

#[test]
fn ilike_is_refused_on_sqlite() {
    let t = users();
    let pred = Fragment::ILike(
        Box::new(Fragment::Column(t.column("name", SqlType::Text))),
        Box::new(Fragment::Bind(Value::Text("a%".to_string()))),
    );
    let s = users_statement().filter(id_eq(1)).filter(pred);
    assert_eq!(render(&s, Backend::Sqlite).err(), Some(RenderError::ILikeUnsupported(Backend::Sqlite)));
    assert_eq!(render(&s, Backend::Mysql).err(), Some(RenderError::ILikeUnsupported(Backend::Mysql)));
}

#[test]
fn type_tags_of_fragments() {
    let t = users();
    let name = String::from("users");
    assert_eq!(id_eq(1).sql_type_in(&name), Some(SqlType::Bool));
    let mismatched = Fragment::eq(
        Fragment::Column(t.column("id", SqlType::Integer)),
        Fragment::Bind(Value::Text("x".to_string())),
    );
    assert_eq!(mismatched.sql_type_in(&name), None);
    let other = Table::new("posts", "id");
    let foreign = Fragment::Column(other.column("id", SqlType::Integer));
    assert_eq!(foreign.sql_type_in(&name), None);
    assert_eq!(Fragment::and(id_eq(1), name_eq("a")).sql_type_in(&name), Some(SqlType::Bool));
}
