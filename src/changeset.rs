use vstd::prelude::*;
use crate::schema::{Column, Table};
use crate::sql::{lemma_extends_trans, QueryBuilder, Value};

verus! {

/// A record field's value together with its declared kind.
#[derive(Debug, PartialEq, Eq)]
pub enum FieldValue {
    /// A field that always holds a value.
    Required(Value),
    /// A field that may be absent.
    Optional(Option<Value>),
}

/// One field of a record, with the column it is stored in.
#[derive(Debug, PartialEq, Eq)]
pub struct Field {
    pub column: Column,
    pub value: FieldValue,
}

/// `column = value` in an UPDATE's SET list.
#[derive(Debug, PartialEq, Eq)]
pub struct Assignment {
    pub column: Column,
    pub value: Value,
}

/// A record: its fields in declaration order.
pub struct Record {
    pub fields: Vec<Field>,
}

/// The ordered entries derived from a record; an absent entry leaves its
/// column untouched by the UPDATE.
pub struct Changeset {
    pub entries: Vec<Option<Assignment>>,
}

/// The entry derived from one field. With `treat_none_as_null` false an
/// absent optional field yields no assignment; otherwise every field is
/// assigned, an absent optional one to NULL.
pub open spec fn entry_of(f: Field, treat_none_as_null: bool) -> Option<Assignment> {
    match f.value {
        FieldValue::Required(v) => Some(Assignment { column: f.column, value: v }),
        FieldValue::Optional(o) => match o {
            Some(v) => Some(Assignment { column: f.column, value: v }),
            None => if treat_none_as_null {
                Some(Assignment { column: f.column, value: Value::Null })
            } else {
                None
            },
        },
    }
}

/// Whether a field is stored in the primary-key column named `key`, which
/// an UPDATE of the row never assigns.
pub open spec fn is_key_field(f: Field, key: Seq<char>) -> bool {
    f.column.name@ == key
}

/// The entries derived from `fields`, in order, one for each field that is
/// not in the primary-key column `key`.
pub open spec fn changeset_entries(fields: Seq<Field>, key: Seq<char>, treat_none_as_null: bool) -> Seq<
    Option<Assignment>,
>
    decreases fields.len(),
{
    if fields.len() == 0 {
        Seq::empty()
    } else {
        let prev = changeset_entries(fields.drop_last(), key, treat_none_as_null);
        if is_key_field(fields.last(), key) {
            prev
        } else {
            prev.push(entry_of(fields.last(), treat_none_as_null))
        }
    }
}

/// `column = ?`, with the value bound.
pub open spec fn assignment_sql(a: Assignment) -> Seq<char> {
    a.column.name@ + " = "@ + seq!['?']
}

/// The SET list of an UPDATE: the present entries as `col = ?`, separated
/// by `, `, with their values bound in order. Absent entries are dropped.
pub open spec fn set_list(entries: Seq<Option<Assignment>>) -> (Seq<char>, Seq<Value>)
    decreases entries.len(),
{
    if entries.len() == 0 {
        (Seq::empty(), Seq::empty())
    } else {
        let prev = set_list(entries.drop_last());
        match entries.last() {
            None => prev,
            Some(a) => if prev.0.len() == 0 {
                (assignment_sql(a), prev.1.push(a.value))
            } else {
                (prev.0 + ", "@ + assignment_sql(a), prev.1.push(a.value))
            },
        }
    }
}

/// Whether no entry assigns anything: the update is a no-op.
pub open spec fn no_assignments(entries: Seq<Option<Assignment>>) -> bool {
    forall|i: int| 0 <= i < entries.len() ==> entries[i] is None
}

/// With no primary-key field among them, each field yields exactly one
/// entry, in declaration order.
pub proof fn law_entries_follow_fields(fields: Seq<Field>, key: Seq<char>, treat_none_as_null: bool)
    requires
        forall|i: int| 0 <= i < fields.len() ==> !is_key_field(#[trigger] fields[i], key),
    ensures
        changeset_entries(fields, key, treat_none_as_null).len() == fields.len(),
        forall|i: int|
            0 <= i < fields.len() ==> changeset_entries(fields, key, treat_none_as_null)[i]
                == entry_of(#[trigger] fields[i], treat_none_as_null),
    decreases fields.len(),
{
    if fields.len() > 0 {
        let init = fields.drop_last();
        assert forall|i: int| 0 <= i < init.len() implies !is_key_field(#[trigger] init[i], key) by {
            assert(init[i] == fields[i]);
        }
        law_entries_follow_fields(init, key, treat_none_as_null);
        assert(!is_key_field(fields[fields.len() - 1], key));
        let all = changeset_entries(fields, key, treat_none_as_null);
        assert forall|i: int| 0 <= i < fields.len() implies all[i] == entry_of(
            #[trigger] fields[i],
            treat_none_as_null,
        ) by {
            if i < init.len() {
                assert(init[i] == fields[i]);
            }
        }
    }
}

/// Under the omit-absent policy an absent optional field yields no
/// assignment, and a present one with value `v` yields `column = v`.
pub proof fn law_absent_optional_is_omitted(column: Column, value: Option<Value>)
    ensures
        value is None ==> entry_of(Field { column, value: FieldValue::Optional(value) }, false)
            is None,
        value matches Some(v) ==> entry_of(Field { column, value: FieldValue::Optional(value) }, false)
            == Some(Assignment { column, value: v }),
{
}

/// Under the NULL policy, or for a required field, every field yields an
/// assignment; an absent optional field is assigned NULL.
pub proof fn law_every_field_assigned(f: Field, treat_none_as_null: bool)
    requires
        treat_none_as_null || f.value is Required,
    ensures
        entry_of(f, treat_none_as_null) is Some,
        entry_of(f, treat_none_as_null)->Some_0.column == f.column,
        f.value == FieldValue::Optional(None) ==> entry_of(f, treat_none_as_null)->Some_0.value
            == Value::Null,
{
}

/// Under the NULL policy every entry of a changeset assigns its column.
pub proof fn law_null_policy_assigns_all(fields: Seq<Field>, key: Seq<char>)
    ensures
        forall|i: int|
            0 <= i < changeset_entries(fields, key, true).len() ==> (#[trigger] changeset_entries(
                fields,
                key,
                true,
            )[i]) is Some,
    decreases fields.len(),
{
    if fields.len() > 0 {
        law_null_policy_assigns_all(fields.drop_last(), key);
    }
}

/// Deriving a changeset twice from the same record, table and policy gives
/// the same entries, in the same order.
pub proof fn law_derivation_is_repeatable(
    record: Record,
    table: Table,
    treat_none_as_null: bool,
    first: Changeset,
    second: Changeset,
)
    requires
        first.entries@ == changeset_entries(record.fields@, table.primary_key@, treat_none_as_null),
        second.entries@ == changeset_entries(record.fields@, table.primary_key@, treat_none_as_null),
    ensures
        first.entries@ == second.entries@,
{
}

/// A changeset assigns nothing exactly when its SET list is empty and binds
/// no value.
pub proof fn law_noop_iff_empty_set_list(entries: Seq<Option<Assignment>>)
    ensures
        no_assignments(entries) <==> set_list(entries).0.len() == 0,
        no_assignments(entries) ==> set_list(entries).1.len() == 0,
    decreases entries.len(),
{
    if entries.len() > 0 {
        let init = entries.drop_last();
        law_noop_iff_empty_set_list(init);
        if no_assignments(entries) {
            assert forall|i: int| 0 <= i < init.len() implies init[i] is None by {
                assert(init[i] == entries[i]);
            }
            assert(entries[entries.len() - 1] is None);
        }
        if entries.last() is None && no_assignments(init) {
            assert forall|i: int| 0 <= i < entries.len() implies entries[i] is None by {
                if i < init.len() {
                    assert(init[i] == entries[i]);
                }
            }
        }
        if !no_assignments(init) {
            let i = choose|i: int| 0 <= i < init.len() && !(init[i] is None);
            assert(entries[i] == init[i]);
        }
    }
}

impl Field {
    pub fn required(column: Column, value: Value) -> (r: Field)
        ensures
            r == (Field { column, value: FieldValue::Required(value) }),
    {
        Field { column, value: FieldValue::Required(value) }
    }

    pub fn optional(column: Column, value: Option<Value>) -> (r: Field)
        ensures
            r == (Field { column, value: FieldValue::Optional(value) }),
    {
        Field { column, value: FieldValue::Optional(value) }
    }

    /// The entry this field yields under the given null policy.
    pub fn entry(&self, treat_none_as_null: bool) -> (r: Option<Assignment>)
        ensures
            r == entry_of(*self, treat_none_as_null),
    {
        match &self.value {
            FieldValue::Required(v) => Some(
                Assignment { column: self.column.duplicate(), value: v.duplicate() },
            ),
            FieldValue::Optional(o) => match o {
                Some(v) => Some(Assignment { column: self.column.duplicate(), value: v.duplicate() }),
                None => {
                    if treat_none_as_null {
                        Some(Assignment { column: self.column.duplicate(), value: Value::Null })
                    } else {
                        None
                    }
                },
            },
        }
    }
}

impl Record {
    /// Derives the changeset of this record for an UPDATE of `table`: one
    /// entry per field outside the primary key, in declaration order.
    pub fn as_changeset(&self, table: &Table, treat_none_as_null: bool) -> (r: Changeset)
        ensures
            r.entries@ == changeset_entries(self.fields@, table.primary_key@, treat_none_as_null),
    {
        let mut entries: Vec<Option<Assignment>> = Vec::new();
        let mut i: usize = 0;
        while i < self.fields.len()
            invariant
                i <= self.fields@.len(),
                entries@ == changeset_entries(
                    self.fields@.subrange(0, i as int),
                    table.primary_key@,
                    treat_none_as_null,
                ),
            decreases self.fields@.len() - i,
        {
            let f = &self.fields[i];
            assert(self.fields@.subrange(0, i + 1).drop_last() =~= self.fields@.subrange(0, i as int));
            if !(f.column.name == table.primary_key) {
                entries.push(f.entry(treat_none_as_null));
            }
            i = i + 1;
        }
        assert(self.fields@.subrange(0, self.fields@.len() as int) =~= self.fields@);
        Changeset { entries }
    }
}

impl Changeset {
    /// Whether the changeset assigns no column: a no-op update, not an error.
    pub fn is_noop(&self) -> (r: bool)
        ensures
            r == no_assignments(self.entries@),
    {
        let mut i: usize = 0;
        while i < self.entries.len()
            invariant
                i <= self.entries@.len(),
                forall|j: int| 0 <= j < i ==> self.entries@[j] is None,
            decreases self.entries@.len() - i,
        {
            if self.entries[i].is_some() {
                return false;
            }
            i = i + 1;
        }
        true
    }

    /// Renders the SET list into `out`, dropping absent entries.
    pub fn to_sql(&self, out: &mut QueryBuilder)
        ensures
            QueryBuilder::extends(*old(out), *final(out), set_list(self.entries@)),
    {
        let ghost o0 = *out;
        let mut any = false;
        let mut i: usize = 0;
        assert(out.sql@ =~= o0.sql@ + Seq::<char>::empty());
        assert(out.binds@ =~= o0.binds@ + Seq::<Value>::empty());
        while i < self.entries.len()
            invariant
                i <= self.entries@.len(),
                QueryBuilder::extends(o0, *out, set_list(self.entries@.subrange(0, i as int))),
                any == (set_list(self.entries@.subrange(0, i as int)).0.len() > 0),
            decreases self.entries@.len() - i,
        {
            let ghost prev = set_list(self.entries@.subrange(0, i as int));
            assert(self.entries@.subrange(0, i + 1).drop_last() =~= self.entries@.subrange(0, i as int));
            match &self.entries[i] {
                None => {},
                Some(a) => {
                    let ghost o1 = *out;
                    if any {
                        out.push_sql(", ");
                    } else {
                        assert(out.sql@ =~= o1.sql@ + Seq::<char>::empty());
                        assert(out.binds@ =~= o1.binds@ + Seq::<Value>::empty());
                    }
                    let ghost sep: Seq<char> = if any { ", "@ } else { Seq::empty() };
                    let ghost o2 = *out;
                    out.push_sql(a.column.name.as_str());
                    let ghost o3 = *out;
                    out.push_sql(" = ");
                    let ghost o4 = *out;
                    out.push_bind(a.value.duplicate());
                    proof {
                        lemma_extends_trans(o1, o2, o3, (sep, Seq::empty()), (a.column.name@, Seq::empty()));
                        lemma_extends_trans(o1, o3, o4, (sep + a.column.name@, Seq::empty()), (" = "@, Seq::empty()));
                        lemma_extends_trans(o1, o4, *out, (sep + a.column.name@ + " = "@, Seq::empty()), (seq!['?'], seq![a.value]));
                        let step = (sep + a.column.name@ + " = "@ + seq!['?'], Seq::<Value>::empty() + seq![a.value]);
                        lemma_extends_trans(o0, o1, *out, prev, step);
                        let cur = set_list(self.entries@.subrange(0, i + 1));
                        if any {
                            assert(cur.0 =~= prev.0 + step.0);
                        } else {
                            assert(cur.0 =~= prev.0 + step.0);
                        }
                        assert(cur.1 =~= prev.1 + step.1);
                        assert(cur.0.len() > 0);
                    }
                    any = true;
                },
            }
            i = i + 1;
        }
        assert(self.entries@.subrange(0, self.entries@.len() as int) =~= self.entries@);
    }
}

} // verus!
