//! Schema inference: what a sample of documents says of each field, and
//! the one storage class that is chosen for it.

use vstd::prelude::*;
use crate::converter::{classify, row_of, storage_class_of};
use crate::schema::{column_names, CollectionSchema, Field, FieldView, SchemaView};
use crate::text::{
    compare_names, lemma_lex_lt_asymmetric, lemma_lex_lt_transitive, lex_lt, same_name,
    strings_view, NameOrder,
};
use crate::value::{
    distinct_keys, has_key, lemma_lookup_at, lookup, Fields, SourceDocument, SqlValueView,
    StorageClass, Value,
};

verus! {

/// How often each storage class was seen for one field.
pub struct Tally {
    pub integer: nat,
    pub real: nat,
    pub text: nat,
    pub blob: nat,
    pub null: nat,
}

impl Tally {
    /// Nothing seen.
    pub open spec fn zero() -> Tally {
        Tally { integer: 0, real: 0, text: 0, blob: 0, null: 0 }
    }

    /// How often `class` was seen.
    pub open spec fn of(self, class: StorageClass) -> nat {
        match class {
            StorageClass::Integer => self.integer,
            StorageClass::Real => self.real,
            StorageClass::Text => self.text,
            StorageClass::Blob => self.blob,
            StorageClass::Null => self.null,
        }
    }

    /// How many values were seen.
    pub open spec fn total(self) -> nat {
        self.integer + self.real + self.text + self.blob + self.null
    }

    /// How many values of a class other than `NULL` were seen.
    pub open spec fn typed(self) -> nat {
        self.integer + self.real + self.text + self.blob
    }

    /// The tally after one more value of `class`.
    pub open spec fn bump(self, class: StorageClass) -> Tally {
        match class {
            StorageClass::Integer => Tally { integer: self.integer + 1, ..self },
            StorageClass::Real => Tally { real: self.real + 1, ..self },
            StorageClass::Text => Tally { text: self.text + 1, ..self },
            StorageClass::Blob => Tally { blob: self.blob + 1, ..self },
            StorageClass::Null => Tally { null: self.null + 1, ..self },
        }
    }

    /// Two tallies taken together.
    pub open spec fn plus(self, other: Tally) -> Tally {
        Tally {
            integer: self.integer + other.integer,
            real: self.real + other.real,
            text: self.text + other.text,
            blob: self.blob + other.blob,
            null: self.null + other.null,
        }
    }

    /// The largest of the five counts.
    pub open spec fn highest(self) -> nat {
        let a = if self.integer >= self.real {
            self.integer
        } else {
            self.real
        };
        let b = if self.text >= self.blob {
            self.text
        } else {
            self.blob
        };
        let c = if a >= b {
            a
        } else {
            b
        };
        if c >= self.null {
            c
        } else {
            self.null
        }
    }
}

/// The place of a class in the order of preference: `INTEGER` before `REAL`
/// before `TEXT` before `BLOB` before `NULL`.
pub open spec fn preference(class: StorageClass) -> int {
    match class {
        StorageClass::Integer => 0,
        StorageClass::Real => 1,
        StorageClass::Text => 2,
        StorageClass::Blob => 3,
        StorageClass::Null => 4,
    }
}

/// The class that was seen most often; among classes seen equally often,
/// the one that is preferred.
pub open spec fn plurality(tally: Tally) -> StorageClass {
    if tally.integer == tally.highest() {
        StorageClass::Integer
    } else if tally.real == tally.highest() {
        StorageClass::Real
    } else if tally.text == tally.highest() {
        StorageClass::Text
    } else if tally.blob == tally.highest() {
        StorageClass::Blob
    } else {
        StorageClass::Null
    }
}

/// The preferred class among those other than `NULL` that were seen.
pub open spec fn first_typed(tally: Tally) -> StorageClass {
    if tally.integer > 0 {
        StorageClass::Integer
    } else if tally.real > 0 {
        StorageClass::Real
    } else if tally.text > 0 {
        StorageClass::Text
    } else {
        StorageClass::Blob
    }
}

/// The storage class chosen for a field.
///
/// `TEXT` where nothing was seen. Otherwise the class seen most often, ties
/// going to the preferred class; but where that is `NULL` and another class
/// was seen too, the preferred one among those others.
pub open spec fn resolved_class(tally: Tally) -> StorageClass {
    if tally.total() == 0 {
        StorageClass::Text
    } else if plurality(tally) == StorageClass::Null && tally.typed() > 0 {
        first_typed(tally)
    } else {
        plurality(tally)
    }
}

/// No class was seen more often than the plurality class, and every class
/// preferred to it was seen less often.
pub proof fn lemma_plurality_leads(tally: Tally, other: StorageClass)
    ensures
        tally.of(other) <= tally.of(plurality(tally)),
        preference(other) < preference(plurality(tally)) ==> tally.of(other) < tally.of(
            plurality(tally),
        ),
{
}

/// Where anything was seen, the chosen class is one that was seen.
pub proof fn lemma_resolved_was_seen(tally: Tally)
    requires
        tally.total() > 0,
    ensures
        tally.of(resolved_class(tally)) > 0,
{
}

/// A field that was seen with a class other than `NULL` is never given the
/// class `NULL`; one that was only ever seen as `NULL` is.
pub proof fn lemma_null_only_when_untyped(tally: Tally)
    ensures
        resolved_class(tally) == StorageClass::Null <==> (tally.typed() == 0 && tally.null > 0),
{
}

/// Where `NULL` was not seen more often than every other class, the chosen
/// class is the plurality class.
pub proof fn lemma_resolved_is_plurality(tally: Tally)
    requires
        tally.total() > 0,
        plurality(tally) != StorageClass::Null,
    ensures
        resolved_class(tally) == plurality(tally),
{
}

/// The counts of one field, as they are kept while a sample is read.
#[derive(Clone, Copy, Debug, PartialEq, Eq)]
pub struct TypeCounts {
    pub integer: usize,
    pub real: usize,
    pub text: usize,
    pub blob: usize,
    pub null: usize,
}

impl View for TypeCounts {
    type V = Tally;

    open spec fn view(&self) -> Tally {
        Tally {
            integer: self.integer as nat,
            real: self.real as nat,
            text: self.text as nat,
            blob: self.blob as nat,
            null: self.null as nat,
        }
    }
}

/// What a sample says of one field.
#[derive(Clone, Copy, Debug)]
pub struct FieldInfo {
    type_counts: TypeCounts,
    presence_count: usize,
    most_common_type: StorageClass,
}

impl FieldInfo {
    /// The values counted by class are the values counted.
    #[verifier::type_invariant]
    pub closed spec fn consistent(&self) -> bool {
        self.presence_count == self.type_counts@.total()
    }

    /// How often each class was seen.
    pub closed spec fn tally(&self) -> Tally {
        self.type_counts@
    }

    /// The class held as the most common one.
    pub closed spec fn chosen(&self) -> StorageClass {
        self.most_common_type
    }

    /// Nothing seen yet; the class is `TEXT` until something else is found.
    pub fn new() -> (r: FieldInfo)
        ensures
            r.tally() == Tally::zero(),
            r.chosen() == StorageClass::Text,
    {
        FieldInfo {
            type_counts: TypeCounts { integer: 0, real: 0, text: 0, blob: 0, null: 0 },
            presence_count: 0,
            most_common_type: StorageClass::Text,
        }
    }

    /// How often each class was seen.
    pub fn type_counts(&self) -> (r: TypeCounts)
        ensures
            r@ == self.tally(),
    {
        self.type_counts
    }

    /// In how many values the field was seen.
    pub fn presence_count(&self) -> (r: usize)
        ensures
            r == self.tally().total(),
    {
        proof {
            use_type_invariant(self);
        }
        self.presence_count
    }

    /// The name of the class held as the most common one.
    pub fn most_common_type(&self) -> (r: &'static str)
        ensures
            r@ == self.chosen().name(),
    {
        self.most_common_type.as_str()
    }

    /// Counts one more value of the given class.
    pub fn record_class(&mut self, class: StorageClass)
        requires
            old(self).tally().total() < usize::MAX,
        ensures
            final(self).tally() == old(self).tally().bump(class),
            final(self).chosen() == old(self).chosen(),
    {
        proof {
            use_type_invariant(&*self);
        }
        let mut counts = self.type_counts;
        match class {
            StorageClass::Integer => {
                counts.integer = counts.integer + 1;
            },
            StorageClass::Real => {
                counts.real = counts.real + 1;
            },
            StorageClass::Text => {
                counts.text = counts.text + 1;
            },
            StorageClass::Blob => {
                counts.blob = counts.blob + 1;
            },
            StorageClass::Null => {
                counts.null = counts.null + 1;
            },
        }
        *self = FieldInfo {
            type_counts: counts,
            presence_count: self.presence_count + 1,
            most_common_type: self.most_common_type,
        };
    }

    /// Counts one more value, under its storage class.
    pub fn record_value(&mut self, value: &Value)
        requires
            old(self).tally().total() < usize::MAX,
        ensures
            final(self).tally() == old(self).tally().bump(storage_class_of(*value)),
            final(self).chosen() == old(self).chosen(),
    {
        self.record_class(classify(value));
    }

    /// Chooses the class of the field from what was counted.
    pub fn finalize(&mut self)
        ensures
            final(self).tally() == old(self).tally(),
            final(self).chosen() == resolved_class(old(self).tally()),
    {
        proof {
            use_type_invariant(&*self);
        }
        let counts = self.type_counts;
        let mut max_count: usize = 0;
        let mut most_common = StorageClass::Text;
        if counts.integer > max_count {
            max_count = counts.integer;
            most_common = StorageClass::Integer;
        }
        if counts.real > max_count {
            max_count = counts.real;
            most_common = StorageClass::Real;
        }
        if counts.text > max_count {
            max_count = counts.text;
            most_common = StorageClass::Text;
        }
        if counts.blob > max_count {
            max_count = counts.blob;
            most_common = StorageClass::Blob;
        }
        if counts.null > max_count {
            max_count = counts.null;
            most_common = StorageClass::Null;
        }
        if most_common == StorageClass::Null {
            if counts.integer > 0 {
                most_common = StorageClass::Integer;
            } else if counts.real > 0 {
                most_common = StorageClass::Real;
            } else if counts.text > 0 {
                most_common = StorageClass::Text;
            } else if counts.blob > 0 {
                most_common = StorageClass::Blob;
            }
        }
        *self = FieldInfo {
            type_counts: counts,
            presence_count: self.presence_count,
            most_common_type: most_common,
        };
    }
}

/// What one document says of the field `name`: one value of the class of
/// the field's value, or nothing where the document has no such field.
pub open spec fn document_tally(fields: Fields, name: Seq<char>) -> Tally {
    match lookup(fields, name) {
        Some(value) => Tally::zero().bump(storage_class_of(value)),
        None => Tally::zero(),
    }
}

/// What a sample says of the field `name`: how many of its documents hold
/// the field with a value of each class.
pub open spec fn tallies(sample: Seq<Fields>, name: Seq<char>) -> Tally
    decreases sample.len(),
{
    if sample.len() == 0 {
        Tally::zero()
    } else {
        tallies(sample.drop_last(), name).plus(document_tally(sample.last(), name))
    }
}

/// Whether some document of the sample has a field `name`.
pub open spec fn observed(sample: Seq<Fields>, name: Seq<char>) -> bool {
    exists|i: int| 0 <= i < sample.len() && has_key(#[trigger] sample[i], name)
}

/// A field is counted at most once for each document.
pub proof fn lemma_tallies_bounded(sample: Seq<Fields>, name: Seq<char>)
    ensures
        tallies(sample, name).total() <= sample.len(),
    decreases sample.len(),
{
    if sample.len() > 0 {
        lemma_tallies_bounded(sample.drop_last(), name);
    }
}

/// A field was counted if and only if some document of the sample has it.
pub proof fn lemma_observed_iff_counted(sample: Seq<Fields>, name: Seq<char>)
    ensures
        observed(sample, name) <==> tallies(sample, name).total() > 0,
    decreases sample.len(),
{
    if sample.len() > 0 {
        let rest = sample.drop_last();
        lemma_observed_iff_counted(rest, name);
        if observed(sample, name) {
            let i = choose|i: int| 0 <= i < sample.len() && has_key(#[trigger] sample[i], name);
            if i < rest.len() {
                assert(has_key(rest[i], name));
            }
        }
        if observed(rest, name) {
            let i = choose|i: int| 0 <= i < rest.len() && has_key(#[trigger] rest[i], name);
            assert(has_key(sample[i], name));
        }
        if has_key(sample.last(), name) {
            assert(has_key(sample[sample.len() - 1], name));
        }
    }
}

/// What the first `count` fields of a document say of a name, against what
/// one field fewer says: the field at `count - 1` adds its own class under
/// its own name, and nothing under any other.
proof fn lemma_document_tally_step(fields: Fields, count: int, name: Seq<char>)
    requires
        distinct_keys(fields),
        0 < count <= fields.len(),
    ensures
        document_tally(fields.take(count), name) == if name == fields[count - 1].0 {
            Tally::zero().bump(storage_class_of(fields[count - 1].1))
        } else {
            document_tally(fields.take(count - 1), name)
        },
        name == fields[count - 1].0 ==> document_tally(fields.take(count - 1), name)
            == Tally::zero(),
{
    let longer = fields.take(count);
    let shorter = fields.take(count - 1);
    assert(distinct_keys(longer)) by {
        assert forall|a: int, b: int| 0 <= a < b < longer.len() implies (#[trigger] longer[a]).0
            != (#[trigger] longer[b]).0 by {
            assert(fields[a].0 != fields[b].0);
        }
    }
    assert(distinct_keys(shorter)) by {
        assert forall|a: int, b: int| 0 <= a < b < shorter.len() implies (
        #[trigger] shorter[a]).0 != (#[trigger] shorter[b]).0 by {
            assert(fields[a].0 != fields[b].0);
        }
    }
    if name == fields[count - 1].0 {
        lemma_lookup_at(longer, count - 1);
        if has_key(shorter, name) {
            let q = choose|q: int| 0 <= q < shorter.len() && (#[trigger] shorter[q]).0 == name;
            assert(fields[q].0 != fields[count - 1].0);
        }
    } else {
        if has_key(shorter, name) {
            let q = choose|q: int| 0 <= q < shorter.len() && (#[trigger] shorter[q]).0 == name;
            lemma_lookup_at(shorter, q);
            lemma_lookup_at(longer, q);
        } else if has_key(longer, name) {
            let q = choose|q: int| 0 <= q < longer.len() && (#[trigger] longer[q]).0 == name;
            assert(shorter[q].0 == name);
        }
    }
}

/// The names are in strictly ascending order.
pub open spec fn ascending(names: Seq<Seq<char>>) -> bool {
    forall|a: int, b: int| 0 <= a < b < names.len() ==> lex_lt(#[trigger] names[a], #[trigger] names[b])
}

/// In an ascending list no name occurs twice.
pub proof fn lemma_ascending_distinct(names: Seq<Seq<char>>, a: int, b: int)
    requires
        ascending(names),
        0 <= a < names.len(),
        0 <= b < names.len(),
        names[a] == names[b],
    ensures
        a == b,
{
    if a < b {
        lemma_lex_lt_asymmetric(names[a], names[b]);
    } else if b < a {
        lemma_lex_lt_asymmetric(names[b], names[a]);
    }
}

/// What is counted under `name` in a list of names with what is held for
/// each: nothing where the name is not in the list.
pub open spec fn tally_in(names: Seq<Seq<char>>, infos: Seq<FieldInfo>, name: Seq<char>) -> Tally {
    if names.contains(name) {
        infos[names.index_of(name)].tally()
    } else {
        Tally::zero()
    }
}

/// In an ascending list, what is counted under the name at a position is
/// what is held at that position.
pub proof fn lemma_tally_in_at(names: Seq<Seq<char>>, infos: Seq<FieldInfo>, k: int)
    requires
        ascending(names),
        0 <= k < names.len(),
    ensures
        names.contains(names[k]),
        names.index_of(names[k]) == k,
        tally_in(names, infos, names[k]) == infos[k].tally(),
{
    assert(names.contains(names[k]));
    lemma_ascending_distinct(names, names.index_of(names[k]), k);
}

proof fn lemma_replaced(
    names: Seq<Seq<char>>,
    infos: Seq<FieldInfo>,
    p: int,
    updated: FieldInfo,
    name: Seq<char>,
)
    requires
        ascending(names),
        names.len() == infos.len(),
        0 <= p < names.len(),
    ensures
        tally_in(names, infos.update(p, updated), name) == if name == names[p] {
            updated.tally()
        } else {
            tally_in(names, infos, name)
        },
{
    if names.contains(name) {
        let k = names.index_of(name);
        lemma_tally_in_at(names, infos, k);
        lemma_tally_in_at(names, infos.update(p, updated), k);
        if name == names[p] {
            lemma_ascending_distinct(names, k, p);
        }
    }
}

proof fn lemma_inserted_ascending(names: Seq<Seq<char>>, p: int, key: Seq<char>)
    requires
        ascending(names),
        0 <= p <= names.len(),
        forall|q: int| 0 <= q < p ==> lex_lt(#[trigger] names[q], key),
        p < names.len() ==> lex_lt(key, names[p]),
    ensures
        ascending(names.insert(p, key)),
        !names.contains(key),
{
    let after = names.insert(p, key);
    names.insert_ensures(p, key);
    assert forall|q: int| p <= q < names.len() implies lex_lt(key, #[trigger] names[q]) by {
        if p < q {
            assert(lex_lt(names[p], names[q]));
            lemma_lex_lt_transitive(key, names[p], names[q]);
        }
    }
    assert forall|a: int, b: int| 0 <= a < b < after.len() implies lex_lt(
        #[trigger] after[a],
        #[trigger] after[b],
    ) by {
        if b < p {
            assert(after[a] == names[a] && after[b] == names[b]);
        } else if b == p {
            assert(after[a] == names[a]);
        } else if a < p {
            assert(after[a] == names[a] && after[b] == names[b - 1]);
            if a < b - 1 {
                assert(lex_lt(names[a], names[b - 1]));
            } else {
                assert(false);
            }
        } else if a == p {
            assert(after[b] == names[b - 1]);
        } else {
            assert(after[a] == names[a - 1] && after[b] == names[b - 1]);
            assert(lex_lt(names[a - 1], names[b - 1]));
        }
    }
    if names.contains(key) {
        let q = names.index_of(key);
        if q < p {
            lemma_lex_lt_asymmetric(names[q], key);
        } else {
            lemma_lex_lt_asymmetric(key, names[q]);
        }
    }
}

proof fn lemma_inserted(
    names: Seq<Seq<char>>,
    infos: Seq<FieldInfo>,
    p: int,
    key: Seq<char>,
    fresh: FieldInfo,
    name: Seq<char>,
)
    requires
        ascending(names),
        names.len() == infos.len(),
        0 <= p <= names.len(),
        forall|q: int| 0 <= q < p ==> lex_lt(#[trigger] names[q], key),
        p < names.len() ==> lex_lt(key, names[p]),
    ensures
        tally_in(names.insert(p, key), infos.insert(p, fresh), name) == if name == key {
            fresh.tally()
        } else {
            tally_in(names, infos, name)
        },
{
    let after = names.insert(p, key);
    let held = infos.insert(p, fresh);
    lemma_inserted_ascending(names, p, key);
    names.insert_ensures(p, key);
    infos.insert_ensures(p, fresh);
    if name == key {
        assert(after[p] == key);
        lemma_tally_in_at(after, held, p);
    } else if names.contains(name) {
        let k = names.index_of(name);
        lemma_tally_in_at(names, infos, k);
        let moved = if k < p {
            k
        } else {
            k + 1
        };
        assert(after[moved] == name);
        lemma_tally_in_at(after, held, moved);
    } else if after.contains(name) {
        let k = after.index_of(name);
        if k < p {
            assert(names[k] == name);
        } else {
            assert(names[k - 1] == name);
        }
    }
}

/// What a sample says of each of its fields, the fields in ascending order
/// of their names.
#[derive(Debug)]
pub struct FieldTable {
    names: Vec<String>,
    infos: Vec<FieldInfo>,
}

impl FieldTable {
    /// One entry for each name, the names ascending, and something counted
    /// under each.
    #[verifier::type_invariant]
    pub closed spec fn well_formed(&self) -> bool {
        &&& self.names@.len() == self.infos@.len()
        &&& ascending(strings_view(self.names@))
        &&& forall|k: int| 0 <= k < self.infos@.len() ==> (#[trigger] self.infos@[k]).tally().total() > 0
    }

    /// The names of the fields, in the order of the table.
    pub closed spec fn names(&self) -> Seq<Seq<char>> {
        strings_view(self.names@)
    }

    /// What the table holds at each position.
    pub closed spec fn infos(&self) -> Seq<FieldInfo> {
        self.infos@
    }

    /// What was counted under `name`: nothing where the table has no such
    /// field.
    pub open spec fn tally_of(&self, name: Seq<char>) -> Tally {
        tally_in(self.names(), self.infos(), name)
    }

    /// A table without fields.
    pub fn new() -> (r: FieldTable)
        ensures
            r.names().len() == 0,
            forall|name: Seq<char>| r.tally_of(name) == Tally::zero(),
    {
        FieldTable { names: Vec::new(), infos: Vec::new() }
    }

    /// The number of fields. The names are ascending, and something was
    /// counted under each.
    pub fn len(&self) -> (r: usize)
        ensures
            r == self.names().len(),
            r == self.infos().len(),
            ascending(self.names()),
            forall|k: int|
                0 <= k < self.infos().len() ==> (#[trigger] self.infos()[k]).tally().total() > 0,
    {
        proof {
            use_type_invariant(self);
        }
        self.names.len()
    }

    /// The name of the field at position `index`.
    pub fn name_at(&self, index: usize) -> (r: &String)
        requires
            index < self.names().len(),
        ensures
            r@ == self.names()[index as int],
    {
        &self.names[index]
    }

    /// What the table holds of the field at position `index`.
    pub fn info_at(&self, index: usize) -> (r: FieldInfo)
        requires
            index < self.names().len(),
        ensures
            r == self.infos()[index as int],
            r.tally() == self.tally_of(self.names()[index as int]),
    {
        proof {
            use_type_invariant(self);
            lemma_tally_in_at(self.names(), self.infos(), index as int);
        }
        self.infos[index]
    }

    /// Where `key` stands in the table, or where it would have to go.
    fn locate(&self, key: &str) -> (r: (usize, bool))
        ensures
            r.0 <= self.names().len(),
            forall|q: int| 0 <= q < r.0 ==> lex_lt(#[trigger] self.names()[q], key@),
            r.1 ==> r.0 < self.names().len() && self.names()[r.0 as int] == key@,
            !r.1 && r.0 < self.names().len() ==> lex_lt(key@, self.names()[r.0 as int]),
    {
        let mut p: usize = 0;
        while p < self.names.len()
            invariant
                p <= self.names().len(),
                forall|q: int| 0 <= q < p ==> lex_lt(#[trigger] self.names()[q], key@),
            decreases self.names().len() - p,
        {
            match compare_names(self.names[p].as_str(), key) {
                NameOrder::Less => {
                    p = p + 1;
                },
                NameOrder::Equal => {
                    return (p, true);
                },
                NameOrder::Greater => {
                    return (p, false);
                },
            }
        }
        (p, false)
    }

    /// Counts one more value of `class` under the field `key`.
    pub fn record(&mut self, key: &str, class: StorageClass)
        requires
            old(self).tally_of(key@).total() < usize::MAX,
        ensures
            forall|name: Seq<char>| #[trigger]
                final(self).tally_of(name) == if name == key@ {
                    old(self).tally_of(name).bump(class)
                } else {
                    old(self).tally_of(name)
                },
    {
        proof {
            use_type_invariant(&*self);
        }
        let ghost before_names = self.names();
        let ghost before_infos = self.infos();
        let (p, found) = self.locate(key);
        let mut table = FieldTable::new();
        core::mem::swap(&mut table, self);
        let FieldTable { mut names, mut infos } = table;
        assert(strings_view(names@) == before_names && infos@ == before_infos);
        if found {
            proof {
                lemma_tally_in_at(before_names, before_infos, p as int);
            }
            let mut info = infos[p];
            info.record_class(class);
            infos.set(p, info);
            proof {
                assert forall|name: Seq<char>| #[trigger]
                    tally_in(before_names, infos@, name) == if name == key@ {
                        tally_in(before_names, before_infos, name).bump(class)
                    } else {
                        tally_in(before_names, before_infos, name)
                    } by {
                    lemma_replaced(before_names, before_infos, p as int, info, name);
                }
            }
        } else {
            let mut info = FieldInfo::new();
            info.record_class(class);
            names.insert(p, key.to_owned());
            infos.insert(p, info);
            proof {
                assert(strings_view(names@) =~= before_names.insert(p as int, key@)) by {
                    before_names.insert_ensures(p as int, key@);
                }
                lemma_inserted_ascending(before_names, p as int, key@);
                before_infos.insert_ensures(p as int, info);
                assert forall|name: Seq<char>| #[trigger]
                    tally_in(strings_view(names@), infos@, name) == if name == key@ {
                        tally_in(before_names, before_infos, name).bump(class)
                    } else {
                        tally_in(before_names, before_infos, name)
                    } by {
                    lemma_inserted(before_names, before_infos, p as int, key@, info, name);
                }
            }
        }
        *self = FieldTable { names, infos };
    }

    /// Chooses the class of every field from what was counted for it.
    pub fn finalize(&mut self)
        ensures
            final(self).names() == old(self).names(),
            forall|name: Seq<char>| #[trigger] final(self).tally_of(name) == old(self).tally_of(name),
            forall|k: int|
                0 <= k < final(self).infos().len() ==> (#[trigger] final(self).infos()[k]).chosen()
                    == resolved_class(final(self).infos()[k].tally()),
    {
        proof {
            use_type_invariant(&*self);
        }
        let ghost before_names = self.names();
        let ghost before_infos = self.infos();
        let mut table = FieldTable::new();
        core::mem::swap(&mut table, self);
        let FieldTable { names, mut infos } = table;
        let mut k: usize = 0;
        while k < infos.len()
            invariant
                k <= infos@.len(),
                infos@.len() == before_infos.len(),
                forall|q: int|
                    0 <= q < infos@.len() ==> (#[trigger] infos@[q]).tally()
                        == before_infos[q].tally(),
                forall|q: int|
                    0 <= q < k ==> (#[trigger] infos@[q]).chosen() == resolved_class(
                        infos@[q].tally(),
                    ),
            decreases infos@.len() - k,
        {
            let mut info = infos[k];
            info.finalize();
            infos.set(k, info);
            k = k + 1;
        }
        proof {
            assert forall|name: Seq<char>| #[trigger]
                tally_in(before_names, infos@, name) == tally_in(
                    before_names,
                    before_infos,
                    name,
                ) by {
                if before_names.contains(name) {
                    let i = before_names.index_of(name);
                    assert(infos@[i].tally() == before_infos[i].tally());
                }
            }
        }
        *self = FieldTable { names, infos };
    }
}

/// The fields of each document of a sample, in order.
pub open spec fn sample_view(documents: Seq<SourceDocument>) -> Seq<Fields> {
    Seq::new(documents.len(), |i: int| documents[i]@)
}

/// The column of the identifier: `_id`, `TEXT`, the primary key, never null.
pub open spec fn id_column() -> FieldView {
    FieldView { name: "_id"@, sql_type: "TEXT"@, nullable: false, is_primary_key: true }
}

/// The column of a field of the sample other than the identifier: the class
/// chosen from what the sample says of it, nullable, no primary key.
pub open spec fn column_of(sample: Seq<Fields>, name: Seq<char>) -> FieldView {
    FieldView {
        name,
        sql_type: resolved_class(tallies(sample, name)).name(),
        nullable: true,
        is_primary_key: false,
    }
}

/// Whether `schema` is the schema of the collection `collection_name` as a
/// sample shows it.
///
/// The identifier column comes first, whatever the sample holds. After it
/// comes one column for each other field that some document of the sample
/// has, in ascending order of the names.
pub open spec fn inferred(collection_name: Seq<char>, sample: Seq<Fields>, schema: SchemaView) -> bool {
    &&& schema.collection_name == collection_name
    &&& schema.fields.len() >= 1
    &&& schema.fields[0] == id_column()
    &&& forall|i: int|
        1 <= i < schema.fields.len() ==> {
            &&& (#[trigger] schema.fields[i]).name != "_id"@
            &&& observed(sample, schema.fields[i].name)
            &&& schema.fields[i] == column_of(sample, schema.fields[i].name)
        }
    &&& forall|i: int, j: int|
        1 <= i < j < schema.fields.len() ==> lex_lt(
            (#[trigger] schema.fields[i]).name,
            (#[trigger] schema.fields[j]).name,
        )
    &&& forall|name: Seq<char>|
        #[trigger] observed(sample, name) && name != "_id"@ ==> exists|i: int|
            1 <= i < schema.fields.len() && (#[trigger] schema.fields[i]).name == name
}

/// Inference of the schema of a collection from a sample of its documents.
pub struct SchemaInferrer;

impl SchemaInferrer {
    /// The schema of a collection of which nothing is known: the identifier
    /// column alone.
    pub fn create_empty_schema(collection_name: &str) -> (schema: CollectionSchema)
        ensures
            schema@.collection_name == collection_name@,
            schema@.fields == seq![id_column()],
    {
        let mut fields: Vec<Field> = Vec::new();
        fields.push(
            Field {
                name: "_id".to_owned(),
                sql_type: "TEXT".to_owned(),
                nullable: false,
                is_primary_key: true,
            },
        );
        let schema = CollectionSchema { collection_name: collection_name.to_owned(), fields };
        assert(schema@.fields =~= seq![id_column()]);
        schema
    }

    /// Reads a sample: counts for each field in how many documents it has a
    /// value of each class, and chooses the class of each field.
    pub fn analyze_documents(documents: &[SourceDocument]) -> (table: FieldTable)
        ensures
            forall|name: Seq<char>| #[trigger]
                table.tally_of(name) == tallies(sample_view(documents@), name),
            forall|k: int|
                0 <= k < table.infos().len() ==> (#[trigger] table.infos()[k]).chosen()
                    == resolved_class(table.infos()[k].tally()),
    {
        let ghost sample = sample_view(documents@);
        let mut table = FieldTable::new();
        let mut i: usize = 0;
        while i < documents.len()
            invariant
                i <= documents@.len(),
                sample == sample_view(documents@),
                forall|name: Seq<char>| #[trigger]
                    table.tally_of(name) == tallies(sample.take(i as int), name),
            decreases documents@.len() - i,
        {
            let doc = &documents[i];
            proof {
                use_type_invariant(doc);
            }
            assert(documents@.len() <= usize::MAX);
            let ghost seen = sample.take(i as int);
            let mut j: usize = 0;
            while j < doc.len()
                invariant
                    j <= doc@.len(),
                    distinct_keys(doc@),
                    i < documents@.len() <= usize::MAX,
                    sample.len() == documents@.len(),
                    seen == sample.take(i as int),
                    forall|name: Seq<char>| #[trigger]
                        table.tally_of(name) == tallies(seen, name).plus(
                            document_tally(doc@.take(j as int), name),
                        ),
                decreases doc@.len() - j,
            {
                let key = doc.key_at(j);
                let value = doc.value_at(j);
                let ghost before = table;
                proof {
                    lemma_document_tally_step(doc@, j + 1, key@);
                    lemma_tallies_bounded(seen, key@);
                    assert(before.tally_of(key@) == tallies(seen, key@));
                }
                table.record(key.as_str(), classify(value));
                proof {
                    assert forall|name: Seq<char>| #[trigger]
                        table.tally_of(name) == tallies(seen, name).plus(
                            document_tally(doc@.take(j + 1), name),
                        ) by {
                        lemma_document_tally_step(doc@, j + 1, name);
                        assert(before.tally_of(name) == tallies(seen, name).plus(
                            document_tally(doc@.take(j as int), name),
                        ));
                    }
                }
                j = j + 1;
            }
            proof {
                let next = sample.take(i + 1);
                assert(doc@.take(doc@.len() as int) =~= doc@);
                assert(next.drop_last() =~= seen);
                assert(next.last() == doc@);
            }
            i = i + 1;
        }
        proof {
            assert(sample.take(documents@.len() as int) =~= sample);
        }
        table.finalize();
        table
    }

    /// Infers the schema of a collection from a sample of its documents.
    ///
    /// The sample may be empty, and its documents may lack the identifier:
    /// the identifier column is there all the same, first.
    pub fn infer_schema(collection_name: &str, documents: &[SourceDocument]) -> (schema:
        CollectionSchema)
        ensures
            inferred(collection_name@, sample_view(documents@), schema@),
            schema@.fields[0] == id_column(),
            documents@.len() == 0 ==> schema@.fields.len() == 1,
    {
        let ghost sample = sample_view(documents@);
        if documents.len() == 0 {
            let schema = Self::create_empty_schema(collection_name);
            assert(forall|name: Seq<char>| !observed(sample, name));
            return schema;
        }
        let table = Self::analyze_documents(documents);
        let count = table.len();
        let mut fields: Vec<Field> = Vec::new();
        fields.push(
            Field {
                name: "_id".to_owned(),
                sql_type: "TEXT".to_owned(),
                nullable: false,
                is_primary_key: true,
            },
        );
        let ghost mut origin: Seq<int> = seq![-1int];
        let mut k: usize = 0;
        while k < count
            invariant
                k <= count,
                count == table.names().len(),
                count == table.infos().len(),
                ascending(table.names()),
                forall|name: Seq<char>| #[trigger] table.tally_of(name) == tallies(sample, name),
                forall|q: int|
                    0 <= q < table.infos().len() ==> (#[trigger] table.infos()[q]).chosen()
                        == resolved_class(table.infos()[q].tally()),
                fields@.len() >= 1,
                fields@[0]@ == id_column(),
                origin.len() == fields@.len(),
                forall|a: int|
                    1 <= a < fields@.len() ==> {
                        &&& 0 <= #[trigger] origin[a] < k
                        &&& table.names()[origin[a]] != "_id"@
                        &&& fields@[a]@ == column_of(sample, table.names()[origin[a]])
                    },
                forall|a: int, b: int|
                    1 <= a < b < fields@.len() ==> #[trigger] origin[a] < #[trigger] origin[b],
                forall|q: int|
                    0 <= q < k && #[trigger] table.names()[q] != "_id"@ ==> exists|a: int|
                        1 <= a < fields@.len() && #[trigger] origin[a] == q,
            decreases count - k,
        {
            let name = table.name_at(k);
            if !same_name(name.as_str(), "_id") {
                let info = table.info_at(k);
                let ghost before = fields@;
                let ghost before_origin = origin;
                fields.push(
                    Field {
                        name: name.clone(),
                        sql_type: info.most_common_type().to_owned(),
                        nullable: true,
                        is_primary_key: false,
                    },
                );
                proof {
                    origin = origin.push(k as int);
                    assert(info.tally() == tallies(sample, name@));
                    assert forall|q: int|
                        0 <= q < k + 1 && #[trigger] table.names()[q] != "_id"@ implies exists|
                        a: int,
                    |
                        1 <= a < fields@.len() && #[trigger] origin[a] == q by {
                        if q < k {
                            let a = choose|a: int|
                                1 <= a < before.len() && #[trigger] before_origin[a] == q;
                            assert(origin[a] == q);
                        } else {
                            assert(origin[fields@.len() - 1] == q);
                        }
                    }
                }
            }
            k = k + 1;
        }
        let schema = CollectionSchema { collection_name: collection_name.to_owned(), fields };
        proof {
            let view = schema@;
            assert forall|i: int| 1 <= i < view.fields.len() implies {
                &&& (#[trigger] view.fields[i]).name != "_id"@
                &&& observed(sample, view.fields[i].name)
                &&& view.fields[i] == column_of(sample, view.fields[i].name)
            } by {
                let q = origin[i];
                let name = table.names()[q];
                lemma_tally_in_at(table.names(), table.infos(), q);
                assert(table.tally_of(name) == tallies(sample, name));
                assert(table.infos()[q].tally().total() > 0);
                lemma_observed_iff_counted(sample, name);
            }
            assert forall|i: int, j: int| 1 <= i < j < view.fields.len() implies lex_lt(
                (#[trigger] view.fields[i]).name,
                (#[trigger] view.fields[j]).name,
            ) by {
                assert(origin[i] < origin[j]);
                assert(lex_lt(table.names()[origin[i]], table.names()[origin[j]]));
            }
            assert forall|name: Seq<char>| #[trigger]
                observed(sample, name) && name != "_id"@ implies exists|i: int|
                1 <= i < view.fields.len() && (#[trigger] view.fields[i]).name == name by {
                lemma_observed_iff_counted(sample, name);
                assert(table.tally_of(name) == tallies(sample, name));
                assert(table.names().contains(name));
                let q = table.names().index_of(name);
                let a = choose|a: int| 1 <= a < schema.fields@.len() && #[trigger] origin[a] == q;
                assert(view.fields[a].name == name);
            }
        }
        schema
    }
}

/// The row of any document under the columns of any schema has one value
/// for each column, and null at every column whose field the document
/// lacks.
pub proof fn lemma_row_fits_schema(fields: Fields, schema: SchemaView)
    ensures
        row_of(fields, column_names(schema.fields)).len() == schema.fields.len(),
        forall|i: int|
            0 <= i < schema.fields.len() && !has_key(fields, schema.fields[i].name)
                ==> #[trigger] row_of(fields, column_names(schema.fields))[i]
                == SqlValueView::Null,
{
}

/// No field of a sampled document is lost: each is the identifier or has
/// its column in the schema of the sample.
pub proof fn lemma_sampled_fields_have_columns(
    collection_name: Seq<char>,
    sample: Seq<Fields>,
    schema: SchemaView,
    document: int,
    field: int,
)
    requires
        inferred(collection_name, sample, schema),
        0 <= document < sample.len(),
        0 <= field < sample[document].len(),
    ensures
        exists|i: int|
            0 <= i < schema.fields.len() && (#[trigger] schema.fields[i]).name
                == sample[document][field].0,
{
    let name = sample[document][field].0;
    assert(has_key(sample[document], name));
    assert(observed(sample, name));
    if name == "_id"@ {
        assert(schema.fields[0].name == name);
    } else {
        let i = choose|i: int| 1 <= i < schema.fields.len() && (#[trigger] schema.fields[i]).name == name;
        assert(schema.fields[i].name == name);
    }
}

/// A sample has one schema: two schemas that both stand to the same name
/// and sample as `inferred` says are the same schema.
pub proof fn lemma_inferred_unique(
    collection_name: Seq<char>,
    sample: Seq<Fields>,
    first: SchemaView,
    second: SchemaView,
)
    requires
        inferred(collection_name, sample, first),
        inferred(collection_name, sample, second),
    ensures
        first == second,
{
    lemma_same_columns(sample, first, second, first.fields.len() as int);
    lemma_same_columns(sample, second, first, second.fields.len() as int);
    assert(first.fields.len() == second.fields.len()) by {
        lemma_no_longer(sample, first, second);
        lemma_no_longer(sample, second, first);
    }
    assert(first.fields =~= second.fields);
}

/// Up to any position that both schemas reach, they hold the same columns.
proof fn lemma_same_columns(sample: Seq<Fields>, first: SchemaView, second: SchemaView, upto: int)
    requires
        inferred(first.collection_name, sample, first),
        inferred(second.collection_name, sample, second),
        0 <= upto <= first.fields.len(),
    ensures
        forall|i: int|
            0 <= i < upto && i < second.fields.len() ==> #[trigger] first.fields[i]
                == second.fields[i],
    decreases upto,
{
    if upto > 0 {
        lemma_same_columns(sample, first, second, upto - 1);
        let i = upto - 1;
        if 1 <= i && i < second.fields.len() {
            let name = first.fields[i].name;
            let other = second.fields[i].name;
            assert(observed(sample, name));
            let j = choose|j: int| 1 <= j < second.fields.len() && (#[trigger] second.fields[j]).name == name;
            assert(observed(sample, other));
            let m = choose|m: int| 1 <= m < first.fields.len() && (#[trigger] first.fields[m]).name == other;
            if j < i {
                assert(first.fields[j] == second.fields[j]);
                assert(lex_lt(first.fields[j].name, first.fields[i].name));
                lemma_lex_lt_asymmetric(first.fields[j].name, first.fields[i].name);
            } else if j > i {
                assert(lex_lt(second.fields[i].name, second.fields[j].name));
                if m < i {
                    assert(first.fields[m] == second.fields[m]);
                    assert(lex_lt(second.fields[m].name, second.fields[i].name));
                    lemma_lex_lt_asymmetric(second.fields[m].name, second.fields[i].name);
                } else if m > i {
                    assert(lex_lt(first.fields[i].name, first.fields[m].name));
                    lemma_lex_lt_asymmetric(name, other);
                } else {
                    lemma_lex_lt_asymmetric(other, name);
                }
            }
            assert(first.fields[i] == column_of(sample, name));
            assert(second.fields[i] == column_of(sample, other));
        }
    }
}

/// A schema has no more columns than another schema of the same sample.
proof fn lemma_no_longer(sample: Seq<Fields>, first: SchemaView, second: SchemaView)
    requires
        inferred(first.collection_name, sample, first),
        inferred(second.collection_name, sample, second),
        forall|i: int|
            0 <= i < first.fields.len() && i < second.fields.len() ==> #[trigger] first.fields[i]
                == second.fields[i],
    ensures
        first.fields.len() <= second.fields.len(),
{
    if first.fields.len() > second.fields.len() {
        let i = second.fields.len() as int;
        let name = first.fields[i].name;
        assert(observed(sample, name));
        let j = choose|j: int| 1 <= j < second.fields.len() && (#[trigger] second.fields[j]).name == name;
        assert(first.fields[j] == second.fields[j]);
        assert(lex_lt(first.fields[j].name, first.fields[i].name));
        lemma_lex_lt_asymmetric(first.fields[j].name, first.fields[i].name);
    }
}

} // verus!
