//! The value mapper: the storage class of a value, the relational value it
//! becomes, the row of a document, and the quoting of identifiers.

use vstd::prelude::*;
use vstd::std_specs::iter::IteratorSpec;
use crate::outside::{
    array_json, array_json_text, binary_json, binary_json_text, code_with_scope_json,
    code_with_scope_json_text, datetime_rfc3339, decimal128_string, decimal128_text,
    document_json, document_json_text, hex_text, object_id_hex, rfc3339_utc, string_pair_json,
    string_pair_json_text,
};
use crate::text::{push_char, strings_view};
use crate::value::{lookup, Fields, SourceDocument, SqlValue, SqlValueView, StorageClass, Value};

verus! {

/// The storage class of a value. It depends on the kind of the value alone.
pub open spec fn storage_class_of(value: Value) -> StorageClass {
    match value {
        Value::Double(_) => StorageClass::Real,
        Value::String(_) => StorageClass::Text,
        Value::Document(_) => StorageClass::Text,
        Value::Array(_) => StorageClass::Text,
        Value::Binary { .. } => StorageClass::Blob,
        Value::ObjectId(_) => StorageClass::Text,
        Value::Boolean(_) => StorageClass::Integer,
        Value::DateTime(_) => StorageClass::Text,
        Value::Null => StorageClass::Null,
        Value::RegularExpression { .. } => StorageClass::Text,
        Value::JavaScriptCode(_) => StorageClass::Text,
        Value::JavaScriptCodeWithScope { .. } => StorageClass::Text,
        Value::Int32(_) => StorageClass::Integer,
        Value::Int64(_) => StorageClass::Integer,
        Value::Timestamp { .. } => StorageClass::Integer,
        Value::Decimal128(_) => StorageClass::Text,
        Value::Undefined => StorageClass::Null,
        Value::MaxKey => StorageClass::Text,
        Value::MinKey => StorageClass::Text,
        Value::DbPointer => StorageClass::Null,
        Value::Symbol(_) => StorageClass::Text,
    }
}

/// The storage class of a value.
pub fn classify(value: &Value) -> (r: StorageClass)
    ensures
        r == storage_class_of(*value),
{
    match value {
        Value::Double(_) => StorageClass::Real,
        Value::Binary { .. } => StorageClass::Blob,
        Value::Boolean(_) | Value::Int32(_) | Value::Int64(_) | Value::Timestamp { .. } => {
            StorageClass::Integer
        },
        Value::Null | Value::Undefined | Value::DbPointer => StorageClass::Null,
        _ => StorageClass::Text,
    }
}

/// The storage class of a value, by its name.
pub fn infer_sqlite_type(bson: &Value) -> (r: &'static str)
    ensures
        r@ == storage_class_of(*bson).name(),
{
    classify(bson).as_str()
}

/// What a serialization gives: its text, or null where it failed.
pub open spec fn text_or_null(text: Option<Seq<char>>) -> SqlValueView {
    match text {
        Some(t) => SqlValueView::Text(t),
        None => SqlValueView::Null,
    }
}

/// The relational value that a value becomes.
pub open spec fn sql_value_of(value: Value) -> SqlValueView {
    match value {
        Value::Double(bits) => SqlValueView::Real(bits),
        Value::String(s) => SqlValueView::Text(s@),
        Value::Document(d) => text_or_null(document_json_text(d)),
        Value::Array(a) => text_or_null(array_json_text(a@)),
        Value::Binary { subtype, bytes } => text_or_null(binary_json_text(subtype, bytes@)),
        Value::ObjectId(bytes) => SqlValueView::Text(hex_text(bytes@)),
        Value::Boolean(b) => SqlValueView::Integer(
            if b {
                1
            } else {
                0
            },
        ),
        Value::DateTime(millis) => SqlValueView::Text(rfc3339_utc(millis)),
        Value::Null => SqlValueView::Null,
        Value::RegularExpression { pattern, options } => SqlValueView::Text(
            string_pair_json_text("pattern"@, pattern@, "options"@, options@),
        ),
        Value::JavaScriptCode(code) => SqlValueView::Text(code@),
        Value::JavaScriptCodeWithScope { code, scope } => text_or_null(
            code_with_scope_json_text("code"@, code@, "scope"@, scope),
        ),
        Value::Int32(i) => SqlValueView::Integer(i as i64),
        Value::Int64(i) => SqlValueView::Integer(i),
        Value::Timestamp { time, increment } => SqlValueView::Integer(time as i64),
        Value::Decimal128(bytes) => SqlValueView::Text(decimal128_string(bytes@)),
        Value::Undefined => SqlValueView::Null,
        Value::MaxKey => SqlValueView::Text("$maxKey"@),
        Value::MinKey => SqlValueView::Text("$minKey"@),
        Value::DbPointer => SqlValueView::Null,
        Value::Symbol(s) => SqlValueView::Text(s@),
    }
}

/// Why a value was stored as null although it held something.
#[derive(Clone, Copy, Debug, PartialEq, Eq, Structural)]
pub enum Diagnostic {
    /// An embedded document could not be written as JSON.
    DocumentNotSerialized,
    /// An array could not be written as JSON.
    ArrayNotSerialized,
    /// A binary payload could not be written as JSON.
    BinaryNotSerialized,
    /// A piece of code with its scope could not be written as JSON.
    CodeNotSerialized,
    /// A pointer of the deprecated kind is not stored.
    DeprecatedPointer,
}

/// The diagnostic that the conversion of a value comes with: one for each
/// value whose serialization failed and for each deprecated pointer, none
/// for any other value.
pub open spec fn diagnostic_of(value: Value) -> Option<Diagnostic> {
    match value {
        Value::Document(d) => if document_json_text(d).is_none() {
            Some(Diagnostic::DocumentNotSerialized)
        } else {
            None
        },
        Value::Array(a) => if array_json_text(a@).is_none() {
            Some(Diagnostic::ArrayNotSerialized)
        } else {
            None
        },
        Value::Binary { subtype, bytes } => if binary_json_text(subtype, bytes@).is_none() {
            Some(Diagnostic::BinaryNotSerialized)
        } else {
            None
        },
        Value::JavaScriptCodeWithScope { code, scope } => if code_with_scope_json_text(
            "code"@,
            code@,
            "scope"@,
            scope,
        ).is_none() {
            Some(Diagnostic::CodeNotSerialized)
        } else {
            None
        },
        Value::DbPointer => Some(Diagnostic::DeprecatedPointer),
        _ => None,
    }
}

/// The relational value of a serialization with the diagnostic to give
/// where it failed.
pub fn json_or_diagnostic(json: Result<String, serde_json::Error>, on_failure: Diagnostic) -> (r: (
    SqlValue,
    Option<Diagnostic>,
))
    ensures
        r.0@ == match json {
            Ok(text) => SqlValueView::Text(text@),
            Err(_) => SqlValueView::Null,
        },
        r.1 == match json {
            Ok(_) => None,
            Err(_) => Some(on_failure),
        },
{
    match json {
        Ok(text) => (SqlValue::Text(text), None),
        Err(_) => (SqlValue::Null, Some(on_failure)),
    }
}

/// Converts a value of a document to the relational value it is stored as,
/// and says where the value was stored as null although it held something.
/// Such a value is no failure: the conversion goes on.
pub fn convert_with_diagnostic(bson: &Value) -> (r: (SqlValue, Option<Diagnostic>))
    ensures
        r.0@ == sql_value_of(*bson),
        r.1 == diagnostic_of(*bson),
{
    match bson {
        Value::Double(bits) => (SqlValue::Real(*bits), None),
        Value::String(s) => (SqlValue::Text(s.clone()), None),
        Value::Document(document) => json_or_diagnostic(
            document_json(document),
            Diagnostic::DocumentNotSerialized,
        ),
        Value::Array(elements) => json_or_diagnostic(
            array_json(elements),
            Diagnostic::ArrayNotSerialized,
        ),
        Value::Binary { subtype, bytes } => json_or_diagnostic(
            binary_json(*subtype, bytes),
            Diagnostic::BinaryNotSerialized,
        ),
        Value::ObjectId(bytes) => (SqlValue::Text(object_id_hex(bytes)), None),
        Value::Boolean(b) => (
            SqlValue::Integer(
                if *b {
                    1
                } else {
                    0
                },
            ),
            None,
        ),
        Value::DateTime(millis) => (SqlValue::Text(datetime_rfc3339(*millis)), None),
        Value::Null => (SqlValue::Null, None),
        Value::RegularExpression { pattern, options } => (
            SqlValue::Text(
                string_pair_json("pattern", pattern.as_str(), "options", options.as_str()),
            ),
            None,
        ),
        Value::JavaScriptCode(code) => (SqlValue::Text(code.clone()), None),
        Value::JavaScriptCodeWithScope { code, scope } => json_or_diagnostic(
            code_with_scope_json("code", code.as_str(), "scope", scope),
            Diagnostic::CodeNotSerialized,
        ),
        Value::Int32(i) => (SqlValue::Integer(*i as i64), None),
        Value::Int64(i) => (SqlValue::Integer(*i), None),
        Value::Timestamp { time, increment } => (SqlValue::Integer(*time as i64), None),
        Value::Decimal128(bytes) => (SqlValue::Text(decimal128_text(bytes)), None),
        Value::Undefined => (SqlValue::Null, None),
        Value::MaxKey => (SqlValue::Text("$maxKey".to_owned()), None),
        Value::MinKey => (SqlValue::Text("$minKey".to_owned()), None),
        Value::DbPointer => (SqlValue::Null, Some(Diagnostic::DeprecatedPointer)),
        Value::Symbol(s) => (SqlValue::Text(s.clone()), None),
    }
}

/// Converts a value of a document to the relational value it is stored as.
pub fn bson_to_sql_value(bson: &Value) -> (r: SqlValue)
    ensures
        r@ == sql_value_of(*bson),
{
    convert_with_diagnostic(bson).0
}

/// The relational value at one position of a row: the converted value of the
/// field with that name, or null where the document has no such field.
pub open spec fn cell_of(fields: Fields, name: Seq<char>) -> SqlValueView {
    match lookup(fields, name) {
        Some(value) => sql_value_of(value),
        None => SqlValueView::Null,
    }
}

/// The row of a document under an ordered list of field names.
pub open spec fn row_of(fields: Fields, names: Seq<Seq<char>>) -> Seq<SqlValueView> {
    Seq::new(names.len(), |i: int| cell_of(fields, names[i]))
}

/// The diagnostic at one position of a row.
pub open spec fn cell_diagnostic(fields: Fields, name: Seq<char>) -> Option<Diagnostic> {
    match lookup(fields, name) {
        Some(value) => diagnostic_of(value),
        None => None,
    }
}

/// The diagnostics that the row of a document comes with, in the order of
/// the names.
pub open spec fn row_diagnostics(fields: Fields, names: Seq<Seq<char>>) -> Seq<Diagnostic>
    decreases names.len(),
{
    if names.len() == 0 {
        Seq::empty()
    } else {
        match cell_diagnostic(fields, names.last()) {
            Some(diagnostic) => row_diagnostics(fields, names.drop_last()).push(diagnostic),
            None => row_diagnostics(fields, names.drop_last()),
        }
    }
}

/// Converts a document to a row, and gathers the diagnostics of its values.
pub fn convert_document(doc: &SourceDocument, field_names: &[String]) -> (r: (
    Vec<SqlValue>,
    Vec<Diagnostic>,
))
    ensures
        crate::value::row_view(r.0@) == row_of(doc@, strings_view(field_names@)),
        r.1@ == row_diagnostics(doc@, strings_view(field_names@)),
{
    let ghost names = strings_view(field_names@);
    let mut row: Vec<SqlValue> = Vec::new();
    let mut diagnostics: Vec<Diagnostic> = Vec::new();
    let mut i: usize = 0;
    while i < field_names.len()
        invariant
            i <= field_names@.len(),
            names == strings_view(field_names@),
            row@.len() == i,
            forall|j: int| 0 <= j < i ==> (#[trigger] row@[j])@ == cell_of(doc@, field_names@[j]@),
            diagnostics@ == row_diagnostics(doc@, names.take(i as int)),
        decreases field_names@.len() - i,
    {
        proof {
            let next = names.take(i + 1);
            assert(next.drop_last() =~= names.take(i as int));
            assert(next.last() == field_names@[i as int]@);
        }
        let (cell, diagnostic) = match doc.get(field_names[i].as_str()) {
            Some(value) => convert_with_diagnostic(value),
            None => (SqlValue::Null, None),
        };
        row.push(cell);
        match diagnostic {
            Some(d) => {
                diagnostics.push(d);
            },
            None => {},
        }
        i = i + 1;
    }
    assert(names.take(field_names@.len() as int) =~= names);
    assert(crate::value::row_view(row@) =~= row_of(doc@, strings_view(field_names@)));
    (row, diagnostics)
}

/// Converts a document to a row: one value for each name, in the order of
/// the names, null where the document has no field of that name. Fields of
/// the document that no name asks for are left out.
pub fn document_to_sql_values(doc: &SourceDocument, field_names: &[String]) -> (row: Vec<SqlValue>)
    ensures
        crate::value::row_view(row@) == row_of(doc@, strings_view(field_names@)),
{
    convert_document(doc, field_names).0
}

/// The characters of an identifier with every double quote written twice.
pub open spec fn doubled_quotes(s: Seq<char>) -> Seq<char>
    decreases s.len(),
{
    if s.len() == 0 {
        Seq::empty()
    } else if s.last() == '"' {
        doubled_quotes(s.drop_last()).push('"').push('"')
    } else {
        doubled_quotes(s.drop_last()).push(s.last())
    }
}

/// An identifier as it is written in a statement: in double quotes, every
/// double quote inside written twice.
pub open spec fn quoted(identifier: Seq<char>) -> Seq<char> {
    seq!['"'] + doubled_quotes(identifier) + seq!['"']
}

/// The characters of a doubled text with every pair of double quotes
/// written once.
pub open spec fn undoubled_quotes(s: Seq<char>) -> Seq<char>
    decreases s.len(),
{
    if s.len() == 0 {
        Seq::empty()
    } else if s.len() >= 2 && s[s.len() - 1] == '"' && s[s.len() - 2] == '"' {
        undoubled_quotes(s.subrange(0, s.len() - 2)).push('"')
    } else {
        undoubled_quotes(s.drop_last()).push(s.last())
    }
}

/// The identifier that a quoted text stands for: what is between its first
/// and its last character, every pair of double quotes written once.
pub open spec fn unquoted(text: Seq<char>) -> Seq<char> {
    undoubled_quotes(text.subrange(1, text.len() - 1))
}

/// Doubling the quotes of a text loses nothing.
pub proof fn lemma_doubling_round_trips(s: Seq<char>)
    ensures
        undoubled_quotes(doubled_quotes(s)) == s,
    decreases s.len(),
{
    if s.len() > 0 {
        let rest = s.drop_last();
        lemma_doubling_round_trips(rest);
        let doubled = doubled_quotes(s);
        if s.last() == '"' {
            assert(doubled.subrange(0, doubled.len() - 2) =~= doubled_quotes(rest));
        } else {
            assert(doubled.drop_last() =~= doubled_quotes(rest));
        }
        assert(rest.push(s.last()) =~= s);
    }
}

/// Quoting round-trips: every identifier, whatever characters it holds, is
/// read back from its quoted form as it was.
pub proof fn lemma_quoting_round_trips(identifier: Seq<char>)
    ensures
        unquoted(quoted(identifier)) == identifier,
{
    let text = quoted(identifier);
    assert(text.subrange(1, text.len() - 1) =~= doubled_quotes(identifier));
    lemma_doubling_round_trips(identifier);
}

/// Two identifiers that differ never share a quoted form.
pub proof fn lemma_quoting_is_injective(first: Seq<char>, second: Seq<char>)
    requires
        quoted(first) == quoted(second),
    ensures
        first == second,
{
    lemma_quoting_round_trips(first);
    lemma_quoting_round_trips(second);
}

/// Quotes the name of a table or of a column for use in a statement.
pub fn escape_identifier(identifier: &str) -> (r: String)
    ensures
        r@ == quoted(identifier@),
{
    let mut out = String::new();
    push_char(&mut out, '"');
    for c in it: identifier.chars()
        invariant
            it.seq() == identifier@,
            out@ == seq!['"'] + doubled_quotes(identifier@.take(it.index() as int)),
    {
        assert(identifier@.take(it.index() + 1).drop_last() == identifier@.take(
            it.index() as int,
        ));
        if c == '"' {
            push_char(&mut out, '"');
            push_char(&mut out, '"');
        } else {
            push_char(&mut out, c);
        }
    }
    assert(identifier@.take(identifier@.len() as int) == identifier@);
    push_char(&mut out, '"');
    out
}

} // verus!
