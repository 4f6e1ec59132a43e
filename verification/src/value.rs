//! The data that flows through a migration: values as a document source
//! hands them over, documents as ordered field lists, relational values as
//! a relational sink takes them, and the five storage classes of a column.

use vstd::prelude::*;
use crate::text::same_name;

verus! {

/// The storage class of a relational column.
#[derive(Clone, Copy, Debug, PartialEq, Eq, Structural)]
pub enum StorageClass {
    Integer,
    Real,
    Text,
    Blob,
    Null,
}

impl StorageClass {
    /// The class as it is written in a column definition.
    pub open spec fn name(self) -> Seq<char> {
        match self {
            StorageClass::Integer => "INTEGER"@,
            StorageClass::Real => "REAL"@,
            StorageClass::Text => "TEXT"@,
            StorageClass::Blob => "BLOB"@,
            StorageClass::Null => "NULL"@,
        }
    }

    /// The class as it is written in a column definition.
    pub fn as_str(self) -> (r: &'static str)
        ensures
            r@ == self.name(),
    {
        match self {
            StorageClass::Integer => "INTEGER",
            StorageClass::Real => "REAL",
            StorageClass::Text => "TEXT",
            StorageClass::Blob => "BLOB",
            StorageClass::Null => "NULL",
        }
    }
}

/// The five names are pairwise different, so a name tells its class.
pub proof fn lemma_class_names_distinct(a: StorageClass, b: StorageClass)
    ensures
        a.name() == b.name() <==> a == b,
{
    reveal_strlit("INTEGER");
    reveal_strlit("REAL");
    reveal_strlit("TEXT");
    reveal_strlit("BLOB");
    reveal_strlit("NULL");
    if a != b {
        assert(a.name().len() != b.name().len() || a.name()[0] != b.name()[0]);
    }
}

/// `bson::Document`, as an embedded document is carried. Nothing is known
/// of what it holds.
#[verifier::external_type_specification]
#[verifier::external_body]
pub struct ExNestedDocument(bson::Document);

/// `bson::Bson`, as an element of an array is carried. Nothing is known of
/// what it holds.
#[verifier::external_type_specification]
#[verifier::external_body]
pub struct ExNestedValue(bson::Bson);

/// One value of a document, tagged by its kind.
///
/// Scalars are held as plain values. A double is held by its IEEE 754 bit
/// pattern, an object id and a decimal by their bytes, a date-time by its
/// milliseconds since the Unix epoch. An embedded document, the elements of
/// an array and the scope of a piece of code are carried as the source made
/// them: nothing here looks inside them, they are only turned into JSON text.
#[derive(Debug)]
pub enum Value {
    Double(u64),
    String(String),
    Document(bson::Document),
    Array(Vec<bson::Bson>),
    Binary { subtype: u8, bytes: Vec<u8> },
    ObjectId([u8; 12]),
    Boolean(bool),
    DateTime(i64),
    Null,
    RegularExpression { pattern: String, options: String },
    JavaScriptCode(String),
    JavaScriptCodeWithScope { code: String, scope: bson::Document },
    Int32(i32),
    Int64(i64),
    Timestamp { time: u32, increment: u32 },
    Decimal128([u8; 16]),
    Undefined,
    MaxKey,
    MinKey,
    DbPointer,
    Symbol(String),
}

/// One positional value of a row.
///
/// A real number is held by its IEEE 754 bit pattern.
#[derive(Clone, Debug, PartialEq, Eq)]
pub enum SqlValue {
    Null,
    Integer(i64),
    Real(u64),
    Text(String),
    Blob(Vec<u8>),
}

/// What a `SqlValue` holds, with text and bytes as sequences.
pub enum SqlValueView {
    Null,
    Integer(i64),
    Real(u64),
    Text(Seq<char>),
    Blob(Seq<u8>),
}

impl View for SqlValue {
    type V = SqlValueView;

    open spec fn view(&self) -> SqlValueView {
        match self {
            SqlValue::Null => SqlValueView::Null,
            SqlValue::Integer(i) => SqlValueView::Integer(*i),
            SqlValue::Real(bits) => SqlValueView::Real(*bits),
            SqlValue::Text(s) => SqlValueView::Text(s@),
            SqlValue::Blob(b) => SqlValueView::Blob(b@),
        }
    }
}

impl SqlValue {
    /// A second value that holds the same.
    pub fn duplicate(&self) -> (r: SqlValue)
        ensures
            r@ == self@,
    {
        match self {
            SqlValue::Null => SqlValue::Null,
            SqlValue::Integer(i) => SqlValue::Integer(*i),
            SqlValue::Real(bits) => SqlValue::Real(*bits),
            SqlValue::Text(s) => SqlValue::Text(s.clone()),
            SqlValue::Blob(bytes) => {
                let mut copy: Vec<u8> = Vec::new();
                let mut i: usize = 0;
                while i < bytes.len()
                    invariant
                        i <= bytes@.len(),
                        copy@ == bytes@.take(i as int),
                    decreases bytes@.len() - i,
                {
                    copy.push(bytes[i]);
                    assert(bytes@.take(i + 1) =~= bytes@.take(i as int).push(bytes@[i as int]));
                    i = i + 1;
                }
                assert(bytes@.take(bytes@.len() as int) =~= bytes@);
                SqlValue::Blob(copy)
            },
        }
    }
}

/// A second row that holds the same values in the same order.
pub fn duplicate_row(row: &Vec<SqlValue>) -> (r: Vec<SqlValue>)
    ensures
        row_view(r@) == row_view(row@),
{
    let mut copy: Vec<SqlValue> = Vec::new();
    let mut i: usize = 0;
    while i < row.len()
        invariant
            i <= row@.len(),
            copy@.len() == i,
            forall|j: int| 0 <= j < i ==> (#[trigger] copy@[j])@ == row@[j]@,
        decreases row@.len() - i,
    {
        copy.push(row[i].duplicate());
        i = i + 1;
    }
    assert(row_view(copy@) =~= row_view(row@));
    copy
}

/// The views of the values of a row, in order.
pub open spec fn row_view(row: Seq<SqlValue>) -> Seq<SqlValueView> {
    Seq::new(row.len(), |i: int| row[i]@)
}

/// The views of the rows, in order.
pub open spec fn rows_view(rows: Seq<Vec<SqlValue>>) -> Seq<Seq<SqlValueView>> {
    Seq::new(rows.len(), |i: int| row_view(rows[i]@))
}

/// The fields of a document in order: each name with its value.
pub type Fields = Seq<(Seq<char>, Value)>;

/// No name occurs twice among the fields.
pub open spec fn distinct_keys(fields: Fields) -> bool {
    forall|i: int, j: int|
        0 <= i < j < fields.len() ==> (#[trigger] fields[i]).0 != (#[trigger] fields[j]).0
}

/// Whether some field has the name `key`.
pub open spec fn has_key(fields: Fields, key: Seq<char>) -> bool {
    exists|i: int| 0 <= i < fields.len() && (#[trigger] fields[i]).0 == key
}

/// The value under the name `key`, if a field has that name.
pub open spec fn lookup(fields: Fields, key: Seq<char>) -> Option<Value> {
    if has_key(fields, key) {
        Some(fields[choose|i: int| 0 <= i < fields.len() && (#[trigger] fields[i]).0 == key].1)
    } else {
        None
    }
}

/// Where no name occurs twice, the field found under a name is the one
/// field that has it.
pub proof fn lemma_lookup_at(fields: Fields, i: int)
    requires
        distinct_keys(fields),
        0 <= i < fields.len(),
    ensures
        has_key(fields, fields[i].0),
        lookup(fields, fields[i].0) == Some(fields[i].1),
{
    let key = fields[i].0;
    let j = choose|j: int| 0 <= j < fields.len() && (#[trigger] fields[j]).0 == key;
    if i < j {
        assert(fields[i].0 != fields[j].0);
    } else if j < i {
        assert(fields[j].0 != fields[i].0);
    }
}

/// The fields after `value` was stored under `key`: in the place of the
/// field that had the name, or else at the end.
pub open spec fn with_field(fields: Fields, key: Seq<char>, value: Value) -> Fields {
    if has_key(fields, key) {
        fields.update(
            choose|i: int| 0 <= i < fields.len() && (#[trigger] fields[i]).0 == key,
            (key, value),
        )
    } else {
        fields.push((key, value))
    }
}

/// Storing under the name that the field at `i` has replaces that field.
pub proof fn lemma_with_field_at(fields: Fields, i: int, value: Value)
    requires
        distinct_keys(fields),
        0 <= i < fields.len(),
    ensures
        with_field(fields, fields[i].0, value) == fields.update(i, (fields[i].0, value)),
{
    let key = fields[i].0;
    let j = choose|j: int| 0 <= j < fields.len() && (#[trigger] fields[j]).0 == key;
    if i < j {
        assert(fields[i].0 != fields[j].0);
    } else if j < i {
        assert(fields[j].0 != fields[i].0);
    }
}

/// Storing a value keeps the names distinct.
pub proof fn lemma_with_field_distinct(fields: Fields, key: Seq<char>, value: Value)
    requires
        distinct_keys(fields),
    ensures
        distinct_keys(with_field(fields, key, value)),
{
    let after = with_field(fields, key, value);
    assert forall|a: int, b: int| 0 <= a < b < after.len() implies (#[trigger] after[a]).0 != (
    #[trigger] after[b]).0 by {
        if has_key(fields, key) {
            assert(after[a].0 == fields[a].0);
            assert(after[b].0 == fields[b].0);
        } else if b < fields.len() {
            assert(after[a] == fields[a]);
            assert(after[b] == fields[b]);
        } else {
            assert(after[a] == fields[a]);
        }
    }
}

/// A document of the source: an ordered list of named values in which no
/// name occurs twice.
#[derive(Debug)]
pub struct SourceDocument {
    entries: Vec<(String, Value)>,
}

impl View for SourceDocument {
    type V = Fields;

    closed spec fn view(&self) -> Fields {
        Seq::new(self.entries@.len(), |i: int| (self.entries@[i].0@, self.entries@[i].1))
    }
}

impl SourceDocument {
    /// What holds of every document: no name occurs twice.
    #[verifier::type_invariant]
    pub open spec fn well_formed(&self) -> bool {
        distinct_keys(self@)
    }

    /// A document without fields.
    pub fn new() -> (r: SourceDocument)
        ensures
            r@ == Seq::<(Seq<char>, Value)>::empty(),
    {
        let r = SourceDocument { entries: Vec::new() };
        assert(r@ =~= Seq::<(Seq<char>, Value)>::empty());
        r
    }

    /// The number of fields.
    pub fn len(&self) -> (r: usize)
        ensures
            r == self@.len(),
    {
        self.entries.len()
    }

    /// Whether the document has no field.
    pub fn is_empty(&self) -> (r: bool)
        ensures
            r == (self@.len() == 0),
    {
        self.entries.len() == 0
    }

    /// The name of the field at position `index`.
    pub fn key_at(&self, index: usize) -> (r: &String)
        requires
            index < self@.len(),
        ensures
            r@ == self@[index as int].0,
    {
        &self.entries[index].0
    }

    /// The value of the field at position `index`.
    pub fn value_at(&self, index: usize) -> (r: &Value)
        requires
            index < self@.len(),
        ensures
            *r == self@[index as int].1,
    {
        &self.entries[index].1
    }

    fn position(&self, key: &str) -> (r: Option<usize>)
        ensures
            match r {
                Some(i) => i < self@.len() && self@[i as int].0 == key@,
                None => !has_key(self@, key@),
            },
    {
        let mut i: usize = 0;
        while i < self.entries.len()
            invariant
                i <= self.entries@.len(),
                forall|j: int| 0 <= j < i ==> (#[trigger] self@[j]).0 != key@,
            decreases self.entries@.len() - i,
        {
            if same_name(self.entries[i].0.as_str(), key) {
                return Some(i);
            }
            i = i + 1;
        }
        None
    }

    /// The value under the name `key`, if a field has that name.
    pub fn get(&self, key: &str) -> (r: Option<&Value>)
        ensures
            match r {
                Some(v) => lookup(self@, key@) == Some(*v),
                None => lookup(self@, key@).is_none(),
            },
    {
        proof {
            use_type_invariant(self);
        }
        match self.position(key) {
            Some(i) => {
                proof {
                    lemma_lookup_at(self@, i as int);
                }
                Some(&self.entries[i].1)
            },
            None => None,
        }
    }

    /// Whether a field has the name `key`.
    pub fn contains_key(&self, key: &str) -> (r: bool)
        ensures
            r == has_key(self@, key@),
    {
        self.position(key).is_some()
    }

    /// Stores `value` under `key`. A field that had the name keeps its place
    /// and hands back its former value; otherwise the field is added last.
    pub fn insert(&mut self, key: String, value: Value) -> (r: Option<Value>)
        ensures
            final(self)@ == with_field(old(self)@, key@, value),
            r == lookup(old(self)@, key@),
    {
        proof {
            use_type_invariant(&*self);
        }
        let ghost before = self@;
        let found = self.position(key.as_str());
        let mut entries: Vec<(String, Value)> = Vec::new();
        core::mem::swap(&mut entries, &mut self.entries);
        assert(before =~= Seq::new(entries@.len(), |i: int| (entries@[i].0@, entries@[i].1)));
        let former = match found {
            Some(i) => {
                proof {
                    lemma_lookup_at(before, i as int);
                    lemma_with_field_at(before, i as int, value);
                }
                let former = entries.remove(i);
                entries.insert(i, (key, value));
                Some(former.1)
            },
            None => {
                entries.push((key, value));
                None
            },
        };
        proof {
            lemma_with_field_distinct(before, key@, value);
            assert(with_field(before, key@, value) =~= Seq::new(
                entries@.len(),
                |i: int| (entries@[i].0@, entries@[i].1),
            ));
        }
        self.entries = entries;
        former
    }
}

} // verus!
