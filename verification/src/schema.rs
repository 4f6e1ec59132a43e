//! The schema of a collection and the statements that are made from it.

use vstd::prelude::*;
use vstd::string::StringExecFns;
use crate::converter::{escape_identifier, quoted};
use crate::text::{join, join_strings, strings_view};

verus! {

/// One column of a table.
#[derive(Clone, Debug, PartialEq, Eq)]
pub struct Field {
    pub name: String,
    pub sql_type: String,
    pub nullable: bool,
    pub is_primary_key: bool,
}

/// What a `Field` holds, with its texts as character sequences.
pub struct FieldView {
    pub name: Seq<char>,
    pub sql_type: Seq<char>,
    pub nullable: bool,
    pub is_primary_key: bool,
}

impl View for Field {
    type V = FieldView;

    open spec fn view(&self) -> FieldView {
        FieldView {
            name: self.name@,
            sql_type: self.sql_type@,
            nullable: self.nullable,
            is_primary_key: self.is_primary_key,
        }
    }
}

/// The name of a collection and its columns in order.
#[derive(Clone, Debug, PartialEq, Eq)]
pub struct CollectionSchema {
    pub collection_name: String,
    pub fields: Vec<Field>,
}

/// What a `CollectionSchema` holds.
pub struct SchemaView {
    pub collection_name: Seq<char>,
    pub fields: Seq<FieldView>,
}

/// The views of the fields, in order.
pub open spec fn fields_view(fields: Seq<Field>) -> Seq<FieldView> {
    Seq::new(fields.len(), |i: int| fields[i]@)
}

impl View for CollectionSchema {
    type V = SchemaView;

    open spec fn view(&self) -> SchemaView {
        SchemaView { collection_name: self.collection_name@, fields: fields_view(self.fields@) }
    }
}

/// The definition of one column: its quoted name and its type, then
/// `PRIMARY KEY` for the primary key, or `NOT NULL` for another column that
/// is not nullable.
pub open spec fn column_definition(field: FieldView) -> Seq<char> {
    quoted(field.name) + " "@ + field.sql_type + (if field.is_primary_key {
        " PRIMARY KEY"@
    } else {
        Seq::empty()
    }) + (if !field.nullable && !field.is_primary_key {
        " NOT NULL"@
    } else {
        Seq::empty()
    })
}

/// The definitions of the columns, in order.
pub open spec fn column_definitions(fields: Seq<FieldView>) -> Seq<Seq<char>> {
    Seq::new(fields.len(), |i: int| column_definition(fields[i]))
}

/// The names of the columns, in order.
pub open spec fn column_names(fields: Seq<FieldView>) -> Seq<Seq<char>> {
    Seq::new(fields.len(), |i: int| fields[i].name)
}

/// The quoted names of the columns, in order.
pub open spec fn quoted_column_names(fields: Seq<FieldView>) -> Seq<Seq<char>> {
    Seq::new(fields.len(), |i: int| quoted(fields[i].name))
}

/// As many placeholders as asked for.
pub open spec fn placeholders(count: nat) -> Seq<Seq<char>> {
    Seq::new(count, |i: int| "?"@)
}

/// The statement that creates the table of a schema unless it exists:
/// one column definition on each line.
pub open spec fn create_table_text(schema: SchemaView) -> Seq<char> {
    "CREATE TABLE IF NOT EXISTS "@ + quoted(schema.collection_name) + " (\n  "@ + join(
        column_definitions(schema.fields),
        ",\n  "@,
    ) + "\n)"@
}

/// The statement that inserts one row into the table of a schema: the
/// quoted column names in order, and one placeholder for each.
pub open spec fn insert_text(schema: SchemaView) -> Seq<char> {
    "INSERT INTO "@ + quoted(schema.collection_name) + " ("@ + join(
        quoted_column_names(schema.fields),
        ", "@,
    ) + ") VALUES ("@ + join(placeholders(schema.fields.len()), ", "@) + ")"@
}

impl Field {
    /// The definition of this column in a `CREATE TABLE` statement.
    pub fn definition(&self) -> (r: String)
        ensures
            r@ == column_definition(self@),
    {
        let mut def = escape_identifier(self.name.as_str());
        def.append(" ");
        def.append(self.sql_type.as_str());
        if self.is_primary_key {
            def.append(" PRIMARY KEY");
        }
        if !self.nullable && !self.is_primary_key {
            def.append(" NOT NULL");
        }
        assert(def@ =~= column_definition(self@));
        def
    }
}

impl CollectionSchema {
    /// The statement that creates the table unless it exists.
    pub fn to_create_table_sql(&self) -> (r: String)
        ensures
            r@ == create_table_text(self@),
    {
        let table_name = escape_identifier(self.collection_name.as_str());
        let mut field_defs: Vec<String> = Vec::new();
        let mut i: usize = 0;
        while i < self.fields.len()
            invariant
                i <= self.fields@.len(),
                field_defs@.len() == i,
                forall|j: int|
                    0 <= j < i ==> (#[trigger] field_defs@[j])@ == column_definition(
                        self.fields@[j]@,
                    ),
            decreases self.fields@.len() - i,
        {
            field_defs.push(self.fields[i].definition());
            i = i + 1;
        }
        assert(strings_view(field_defs@) =~= column_definitions(self@.fields));
        let mut sql = "CREATE TABLE IF NOT EXISTS ".to_owned();
        sql.append(table_name.as_str());
        sql.append(" (\n  ");
        sql.append(join_strings(&field_defs, ",\n  ").as_str());
        sql.append("\n)");
        sql
    }

    /// The names of the columns, in the order of the schema.
    pub fn field_names(&self) -> (r: Vec<String>)
        ensures
            strings_view(r@) == column_names(self@.fields),
    {
        let mut names: Vec<String> = Vec::new();
        let mut i: usize = 0;
        while i < self.fields.len()
            invariant
                i <= self.fields@.len(),
                names@.len() == i,
                forall|j: int| 0 <= j < i ==> (#[trigger] names@[j])@ == self.fields@[j].name@,
            decreases self.fields@.len() - i,
        {
            names.push(self.fields[i].name.clone());
            i = i + 1;
        }
        assert(strings_view(names@) =~= column_names(self@.fields));
        names
    }

    /// The statement that inserts one row, with a placeholder for each
    /// column in the order of the schema.
    pub fn to_insert_sql(&self) -> (r: String)
        ensures
            r@ == insert_text(self@),
    {
        let table_name = escape_identifier(self.collection_name.as_str());
        let mut field_names: Vec<String> = Vec::new();
        let mut marks: Vec<String> = Vec::new();
        let mut i: usize = 0;
        while i < self.fields.len()
            invariant
                i <= self.fields@.len(),
                field_names@.len() == i,
                marks@.len() == i,
                forall|j: int|
                    0 <= j < i ==> (#[trigger] field_names@[j])@ == quoted(self.fields@[j].name@),
                forall|j: int| 0 <= j < i ==> (#[trigger] marks@[j])@ == "?"@,
            decreases self.fields@.len() - i,
        {
            field_names.push(escape_identifier(self.fields[i].name.as_str()));
            marks.push("?".to_owned());
            i = i + 1;
        }
        assert(strings_view(field_names@) =~= quoted_column_names(self@.fields));
        assert(strings_view(marks@) =~= placeholders(self@.fields.len()));
        let mut sql = "INSERT INTO ".to_owned();
        sql.append(table_name.as_str());
        sql.append(" (");
        sql.append(join_strings(&field_names, ", ").as_str());
        sql.append(") VALUES (");
        sql.append(join_strings(&marks, ", ").as_str());
        sql.append(")");
        sql
    }
}

} // verus!
