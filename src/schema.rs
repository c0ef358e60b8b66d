use vstd::prelude::*;
use crate::sql::SqlType;

verus! {

/// A column as declared by table metadata: its table, its name and its
/// logical type.
#[derive(Debug, PartialEq, Eq)]
pub struct Column {
    pub table: String,
    pub name: String,
    pub sql_type: SqlType,
}

impl Column {
    pub fn new(table: &str, name: &str, sql_type: SqlType) -> (r: Column)
        ensures
            r.table@ == table@,
            r.name@ == name@,
            r.sql_type == sql_type,
    {
        Column { table: String::from_str(table), name: String::from_str(name), sql_type }
    }

    pub fn duplicate(&self) -> (r: Column)
        ensures
            r == *self,
    {
        Column { table: self.table.clone(), name: self.name.clone(), sql_type: self.sql_type }
    }
}

/// A table used as a query source and as the target of an UPDATE.
#[derive(Debug, PartialEq, Eq)]
pub struct Table {
    pub name: String,
    /// Name of the primary-key column.
    pub primary_key: String,
}

impl Table {
    pub fn new(name: &str, primary_key: &str) -> (r: Table)
        ensures
            r.name@ == name@,
            r.primary_key@ == primary_key@,
    {
        Table { name: String::from_str(name), primary_key: String::from_str(primary_key) }
    }

    /// A column of this table.
    pub fn column(&self, name: &str, sql_type: SqlType) -> (r: Column)
        ensures
            r.table@ == self.name@,
            r.name@ == name@,
            r.sql_type == sql_type,
    {
        Column { table: self.name.clone(), name: String::from_str(name), sql_type }
    }
}

} // verus!
