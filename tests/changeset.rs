use query_core::changeset::{Field, Record};
use query_core::schema::Table;
use query_core::sql::{QueryBuilder, SqlType, Value};

fn users() -> Table {
    Table::new("users", "id")
}

fn ann(email: Option<&str>) -> Record {
    let t = users();
    Record {
        fields: vec![
            Field::required(t.column("id", SqlType::Integer), Value::Integer(1)),
            Field::required(t.column("name", SqlType::Text), Value::Text("Ann".to_string())),
            Field::optional(t.column("email", SqlType::Text), email.map(|e| Value::Text(e.to_string()))),
        ],
    }
}

fn set_list(record: &Record, treat_none_as_null: bool) -> QueryBuilder {
    let mut out = QueryBuilder::new();
    record.as_changeset(&users(), treat_none_as_null).to_sql(&mut out);
    out
}

#[test]
fn absent_optional_is_omitted_by_default_policy() {
    let out = set_list(&ann(None), false);
    assert_eq!(out.sql(), "name = ?");
    assert_eq!(out.binds(), &vec![Value::Text("Ann".to_string())]);
}

#[test]
fn absent_optional_is_null_under_null_policy() {
    let out = set_list(&ann(None), true);
    assert_eq!(out.sql(), "name = ?, email = ?");
    assert_eq!(out.binds(), &vec![Value::Text("Ann".to_string()), Value::Null]);
}

#[test]
fn present_optional_is_assigned() {
    let cs = ann(Some("a@x.org")).as_changeset(&users(), false);
    assert_eq!(cs.entries.len(), 2);
    let email = cs.entries[1].as_ref().unwrap();
    assert_eq!(email.column.name, "email");
    assert_eq!(email.value, Value::Text("a@x.org".to_string()));
    let out = set_list(&ann(Some("a@x.org")), false);
    assert_eq!(out.sql(), "name = ?, email = ?");
}

#[test]
fn entries_keep_declaration_order_and_skip_key() {
    let cs = ann(None).as_changeset(&users(), false);
    assert_eq!(cs.entries.len(), 2);
    assert_eq!(cs.entries[0].as_ref().unwrap().column.name, "name");
    assert!(cs.entries[1].is_none());
    assert!(!cs.is_noop());
}

#[test]
fn deriving_twice_gives_identical_entries() {
    let r = ann(None);
    let a = r.as_changeset(&users(), false);
    let b = r.as_changeset(&users(), false);
    assert_eq!(a.entries, b.entries);
    let a = r.as_changeset(&users(), true);
    let b = r.as_changeset(&users(), true);
    assert_eq!(a.entries, b.entries);
}

#[test]
fn no_present_fields_is_a_noop_update() {
    let t = users();
    let r = Record {
        fields: vec![
            Field::required(t.column("id", SqlType::Integer), Value::Integer(1)),
            Field::optional(t.column("email", SqlType::Text), None),
        ],
    };
    let cs = r.as_changeset(&t, false);
    assert!(cs.is_noop());
    let mut out = QueryBuilder::new();
    cs.to_sql(&mut out);
    assert_eq!(out.sql(), "");
    assert!(out.binds().is_empty());
    assert!(!r.as_changeset(&t, true).is_noop());
}

#[test]
fn empty_record_gives_empty_changeset() {
    let cs = Record { fields: vec![] }.as_changeset(&users(), true);
    assert!(cs.entries.is_empty());
    assert!(cs.is_noop());
}

#[test]
fn required_field_entry_ignores_policy() {
    let t = users();
    let f = Field::required(t.column("name", SqlType::Text), Value::Text("Bo".to_string()));
    assert_eq!(f.entry(false), f.entry(true));
    assert_eq!(f.entry(false).unwrap().value, Value::Text("Bo".to_string()));
    let g = Field::optional(t.column("email", SqlType::Text), None);
    assert!(g.entry(false).is_none());
    assert_eq!(g.entry(true).unwrap().value, Value::Null);
}
