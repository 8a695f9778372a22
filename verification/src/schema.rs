//! The schema index: where each dotted field path of a writer schema stands
//! in the field list of the record that owns it.

use vstd::prelude::*;
use vstd::string::*;
use crate::error::{DecodeError, ErrorView};

verus! {

/// A writer schema, as far as the index reads it.
#[derive(Debug, PartialEq)]
pub enum WriterSchema {
    Null,
    Boolean,
    Int,
    Long,
    Float,
    Double,
    Bytes,
    String,
    /// A record with its fields.
    Record(RecordSchema),
    /// An array with the schema of its elements.
    Array(Box<WriterSchema>),
    /// A map with the schema of its values.
    Mapping(Box<WriterSchema>),
    /// A union with its branches.
    Union(Vec<WriterSchema>),
    Enum,
    Fixed,
    /// Any other schema: a reference to a named schema, a logical type.
    Other,
}

/// A record of a writer schema.
#[derive(Debug, PartialEq)]
pub struct RecordSchema {
    /// The fields in their order.
    pub fields: Vec<RecordField>,
    /// The record's own table from field names to positions in `fields`.
    pub lookup: Vec<(String, usize)>,
}

/// One field of a record of a writer schema.
#[derive(Debug, PartialEq)]
pub struct RecordField {
    pub name: String,
    pub schema: WriterSchema,
}

/// The path of a child under a parent path: the two joined by a dot.
pub open spec fn dotted(parent: Seq<char>, name: Seq<char>) -> Seq<char> {
    parent + seq!['.'] + name
}

/// The path of the elements of an array that stands at `parent`.
pub open spec fn element_path(parent: Seq<char>) -> Seq<char> {
    dotted(parent, seq!['e', 'l', 'e', 'm', 'e', 'n', 't'])
}

/// The path of a field of a record: the bare name for the top record, and
/// for a record that stands at a path, that path, a dot and the name.
pub open spec fn child_path(parent: Option<Seq<char>>, name: Seq<char>) -> Seq<char> {
    match parent {
        Some(path) => dotted(path, name),
        None => name,
    }
}

/// Whether a union resolves: it has exactly two branches, and exactly one of
/// them is null.
pub open spec fn resolves(branches: Seq<WriterSchema>) -> bool {
    branches.len() == 2 && (branches[0] is Null) != (branches[1] is Null)
}

/// Whether a schema is a union that does not resolve.
pub open spec fn unresolved(schema: WriterSchema) -> bool {
    schema matches WriterSchema::Union(branches) && !resolves(branches@)
}

/// Whether the entry of a record's table that names `position` gets into
/// the index: it does unless the field at that position is a union that does
/// not resolve.
pub open spec fn entry_kept(fields: Seq<RecordField>, position: usize) -> bool {
    !(position < fields.len() && unresolved(fields[position as int].schema))
}

/// The map after the entries of a record's table were put into it in their
/// order, each under the path of its name, a later entry replacing an
/// earlier one. An entry that names a field whose type is a union that does
/// not resolve is left out.
pub open spec fn with_entries(
    acc: Map<Seq<char>, usize>,
    parent: Option<Seq<char>>,
    fields: Seq<RecordField>,
    entries: Seq<(String, usize)>,
) -> Map<Seq<char>, usize>
    decreases entries.len(),
{
    if entries.len() == 0 {
        acc
    } else {
        let head = with_entries(acc, parent, fields, entries.drop_last());
        if entry_kept(fields, entries.last().1) {
            head.insert(child_path(parent, entries.last().0@), entries.last().1)
        } else {
            head
        }
    }
}

/// The map after the schema that stands at the path `parent` was indexed
/// into it.
///
/// A record puts its own table under the path and then indexes each field
/// under the path extended by the field's name. An array indexes its element
/// schema under the path extended by `element`. A union that resolves
/// indexes its branch that is not null under the same path. Every other
/// schema, a union that does not resolve among them, leaves the map as it
/// is.
pub open spec fn index_schema(
    acc: Map<Seq<char>, usize>,
    parent: Seq<char>,
    schema: WriterSchema,
) -> Map<Seq<char>, usize>
    decreases schema,
{
    match schema {
        WriterSchema::Union(branches) => {
            if resolves(branches@) {
                if branches@[0] is Null {
                    index_schema(acc, parent, branches@[1])
                } else {
                    index_schema(acc, parent, branches@[0])
                }
            } else {
                acc
            }
        },
        WriterSchema::Record(record) => index_fields(
            with_entries(acc, Some(parent), record.fields@, record.lookup@),
            Some(parent),
            record.fields@,
        ),
        WriterSchema::Array(element) => index_schema(acc, element_path(parent), *element),
        _ => acc,
    }
}

/// The map after a record was indexed into it: its table first, then its
/// fields one after the other.
pub open spec fn index_record(
    acc: Map<Seq<char>, usize>,
    parent: Option<Seq<char>>,
    record: RecordSchema,
) -> Map<Seq<char>, usize> {
    index_fields(
        with_entries(acc, parent, record.fields@, record.lookup@),
        parent,
        record.fields@,
    )
}

/// The map after the fields of a record were indexed into it, one after the
/// other, each under the path of its name.
pub open spec fn index_fields(
    acc: Map<Seq<char>, usize>,
    parent: Option<Seq<char>>,
    fields: Seq<RecordField>,
) -> Map<Seq<char>, usize>
    decreases fields, 0nat,
{
    if fields.len() == 0 {
        acc
    } else {
        index_schema(
            index_fields(acc, parent, fields.drop_last()),
            child_path(parent, fields.last().name@),
            fields.last().schema,
        )
    }
}

/// The index of a writer schema: for a record, its own table and then its
/// fields indexed in their order, all under their bare names; for anything
/// else, a failure.
pub open spec fn schema_lookup_spec(schema: WriterSchema) -> Result<Map<Seq<char>, usize>, ErrorView> {
    match schema {
        WriterSchema::Record(record) => Ok(index_record(Map::empty(), None, record)),
        _ => Err(ErrorView::NotARecord),
    }
}

/// Whether entry `k` of a table is kept and has the given path.
pub open spec fn entry_gives(
    parent: Option<Seq<char>>,
    fields: Seq<RecordField>,
    entries: Seq<(String, usize)>,
    path: Seq<char>,
    k: int,
) -> bool {
    0 <= k < entries.len() && entry_kept(fields, entries[k].1) && child_path(parent, entries[k].0@)
        == path
}

/// Whether indexing field `j` of a record into the empty map puts the given
/// path.
pub open spec fn field_gives(
    parent: Option<Seq<char>>,
    fields: Seq<RecordField>,
    path: Seq<char>,
    j: int,
) -> bool {
    0 <= j < fields.len() && index_schema(
        Map::empty(),
        child_path(parent, fields[j].name@),
        fields[j].schema,
    ).dom().contains(path)
}

/// A path stands in a map after a table was put into it exactly where the
/// map held it before or an entry that is kept has that path.
pub proof fn lemma_with_entries_domain(
    acc: Map<Seq<char>, usize>,
    parent: Option<Seq<char>>,
    fields: Seq<RecordField>,
    entries: Seq<(String, usize)>,
    path: Seq<char>,
)
    ensures
        with_entries(acc, parent, fields, entries).dom().contains(path) <==> acc.dom().contains(path)
            || exists|k: int| entry_gives(parent, fields, entries, path, k),
    decreases entries.len(),
{
    if entries.len() > 0 {
        let shorter = entries.drop_last();
        lemma_with_entries_domain(acc, parent, fields, shorter, path);
        if exists|k: int| entry_gives(parent, fields, shorter, path, k) {
            let k = choose|k: int| entry_gives(parent, fields, shorter, path, k);
            assert(entries[k] == shorter[k]);
            assert(entry_gives(parent, fields, entries, path, k));
        }
        if exists|k: int| entry_gives(parent, fields, entries, path, k) {
            let k = choose|k: int| entry_gives(parent, fields, entries, path, k);
            if k < entries.len() - 1 {
                assert(entries[k] == shorter[k]);
                assert(entry_gives(parent, fields, shorter, path, k));
            }
        }
        if entry_kept(fields, entries.last().1) && child_path(parent, entries.last().0@) == path {
            assert(entry_gives(parent, fields, entries, path, entries.len() - 1));
        }
    }
}

/// What indexing a schema adds does not depend on what the map held: a path
/// stands in the map afterwards exactly where the map held it before or
/// indexing the schema into the empty map puts it.
pub proof fn lemma_index_schema_domain(
    acc: Map<Seq<char>, usize>,
    parent: Seq<char>,
    schema: WriterSchema,
    path: Seq<char>,
)
    ensures
        index_schema(acc, parent, schema).dom().contains(path) <==> acc.dom().contains(path)
            || index_schema(Map::empty(), parent, schema).dom().contains(path),
    decreases schema, 0nat,
{
    match schema {
        WriterSchema::Union(branches) => {
            if resolves(branches@) {
                if branches@[0] is Null {
                    lemma_index_schema_domain(acc, parent, branches@[1], path);
                } else {
                    lemma_index_schema_domain(acc, parent, branches@[0], path);
                }
            }
        },
        WriterSchema::Record(record) => {
            let table = with_entries(acc, Some(parent), record.fields@, record.lookup@);
            let bare = with_entries(Map::empty(), Some(parent), record.fields@, record.lookup@);
            lemma_with_entries_domain(acc, Some(parent), record.fields@, record.lookup@, path);
            lemma_with_entries_domain(
                Map::empty(),
                Some(parent),
                record.fields@,
                record.lookup@,
                path,
            );
            lemma_index_fields_domain(table, Some(parent), record.fields@, path);
            lemma_index_fields_domain(bare, Some(parent), record.fields@, path);
        },
        WriterSchema::Array(element) => {
            lemma_index_schema_domain(acc, element_path(parent), *element, path);
        },
        _ => {},
    }
}

/// A path stands in a map after the fields of a record were indexed into it
/// exactly where the map held it before or indexing one of the fields into
/// the empty map puts it.
pub proof fn lemma_index_fields_domain(
    acc: Map<Seq<char>, usize>,
    parent: Option<Seq<char>>,
    fields: Seq<RecordField>,
    path: Seq<char>,
)
    ensures
        index_fields(acc, parent, fields).dom().contains(path) <==> acc.dom().contains(path)
            || exists|j: int| field_gives(parent, fields, path, j),
    decreases fields, 1nat,
{
    if fields.len() > 0 {
        let shorter = fields.drop_last();
        lemma_index_fields_domain(acc, parent, shorter, path);
        lemma_index_schema_domain(
            index_fields(acc, parent, shorter),
            child_path(parent, fields.last().name@),
            fields.last().schema,
            path,
        );
        if exists|j: int| field_gives(parent, shorter, path, j) {
            let j = choose|j: int| field_gives(parent, shorter, path, j);
            assert(fields[j] == shorter[j]);
            assert(field_gives(parent, fields, path, j));
        }
        if exists|j: int| field_gives(parent, fields, path, j) {
            let j = choose|j: int| field_gives(parent, fields, path, j);
            if j < fields.len() - 1 {
                assert(fields[j] == shorter[j]);
                assert(field_gives(parent, shorter, path, j));
            }
        }
        if index_schema(
            Map::empty(),
            child_path(parent, fields.last().name@),
            fields.last().schema,
        ).dom().contains(path) {
            assert(field_gives(parent, fields, path, fields.len() - 1));
        }
    }
}

/// A field whose type is a union that does not resolve has no entry in the
/// index, so that no lookup at its path resolves: the path of the field
/// stands in the index of its record only where the map held it before,
/// where the table gives the same path to a field that is kept, or where
/// indexing another field puts it.
pub proof fn law_unresolved_union_has_no_entry(
    acc: Map<Seq<char>, usize>,
    parent: Option<Seq<char>>,
    record: RecordSchema,
    k: int,
)
    requires
        0 <= k < record.fields@.len(),
        unresolved(record.fields@[k].schema),
        !acc.dom().contains(child_path(parent, record.fields@[k].name@)),
        forall|e: int|
            !entry_gives(
                parent,
                record.fields@,
                record.lookup@,
                child_path(parent, record.fields@[k].name@),
                e,
            ),
        forall|j: int|
            j != k ==> !field_gives(
                parent,
                record.fields@,
                child_path(parent, record.fields@[k].name@),
                j,
            ),
    ensures
        !index_record(acc, parent, record).dom().contains(
            child_path(parent, record.fields@[k].name@),
        ),
{
    let path = child_path(parent, record.fields@[k].name@);
    lemma_with_entries_domain(acc, parent, record.fields@, record.lookup@, path);
    lemma_index_fields_domain(
        with_entries(acc, parent, record.fields@, record.lookup@),
        parent,
        record.fields@,
        path,
    );
}

/// Every name of the table of a record resolves in the index of the record,
/// unless it names a field whose type is a union that does not resolve.
pub proof fn law_index_holds_the_table(record: RecordSchema, k: int)
    requires
        0 <= k < record.lookup@.len(),
        entry_kept(record.fields@, record.lookup@[k].1),
    ensures
        schema_lookup_spec(WriterSchema::Record(record)) is Ok,
        schema_lookup_spec(WriterSchema::Record(record))->Ok_0.dom().contains(record.lookup@[k].0@),
{
    let path = record.lookup@[k].0@;
    assert(entry_gives(None, record.fields@, record.lookup@, path, k));
    lemma_with_entries_domain(Map::empty(), None, record.fields@, record.lookup@, path);
    lemma_index_fields_domain(
        with_entries(Map::empty(), None, record.fields@, record.lookup@),
        None,
        record.fields@,
        path,
    );
}

/// A mapping from dotted field paths to positions.
#[derive(Debug)]
pub struct SchemaIndex {
    entries: Vec<(String, usize)>,
}

/// The map that a list of entries stands for: the entries put in one after
/// the other, a later one replacing an earlier one of the same path.
pub open spec fn entries_map(entries: Seq<(String, usize)>) -> Map<Seq<char>, usize>
    decreases entries.len(),
{
    if entries.len() == 0 {
        Map::empty()
    } else {
        entries_map(entries.drop_last()).insert(entries.last().0@, entries.last().1)
    }
}

/// What a map holds under a key, if anything.
pub open spec fn map_get(m: Map<Seq<char>, usize>, key: Seq<char>) -> Option<usize> {
    if m.dom().contains(key) {
        Some(m[key])
    } else {
        None
    }
}

impl View for SchemaIndex {
    type V = Map<Seq<char>, usize>;

    closed spec fn view(&self) -> Map<Seq<char>, usize> {
        entries_map(self.entries@)
    }
}

impl SchemaIndex {
    /// An index without entries.
    pub fn new() -> (r: SchemaIndex)
        ensures
            r@ == Map::<Seq<char>, usize>::empty(),
    {
        SchemaIndex { entries: Vec::new() }
    }

    /// Puts a position under a path, in place of what stood there.
    pub fn insert(&mut self, path: String, position: usize)
        ensures
            final(self)@ == old(self)@.insert(path@, position),
    {
        let ghost before = self.entries@;
        self.entries.push((path, position));
        assert(self.entries@.drop_last() == before);
    }

    /// The position that stands under a path.
    pub fn get(&self, path: &String) -> (r: Option<usize>)
        ensures
            r == map_get(self@, path@),
    {
        let mut found: Option<usize> = None;
        let mut i: usize = 0;
        while i < self.entries.len()
            invariant
                i <= self.entries.len(),
                found == map_get(entries_map(self.entries@.take(i as int)), path@),
            decreases self.entries.len() - i,
        {
            assert(self.entries@.take(i + 1).drop_last() == self.entries@.take(i as int));
            if self.entries[i].0 == *path {
                found = Some(self.entries[i].1);
            }
            i = i + 1;
        }
        assert(self.entries@.take(i as int) == self.entries@);
        found
    }

    /// Whether a path has a position.
    pub fn contains(&self, path: &String) -> (r: bool)
        ensures
            r == self@.dom().contains(path@),
    {
        self.get(path).is_some()
    }
}

/// Joins a parent path and a name by a dot.
pub fn join_dotted(parent: &str, name: &str) -> (r: String)
    ensures
        r@ == dotted(parent@, name@),
{
    let mut path = String::from_str(parent);
    proof {
        reveal_strlit(".");
    }
    path.append(".");
    path.append(name);
    assert(path@ =~= dotted(parent@, name@));
    path
}

/// The path of the elements of an array that stands at `parent`.
pub fn join_element(parent: &str) -> (r: String)
    ensures
        r@ == element_path(parent@),
{
    proof {
        reveal_strlit("element");
    }
    let r = join_dotted(parent, "element");
    assert("element"@ =~= seq!['e', 'l', 'e', 'm', 'e', 'n', 't']);
    r
}

/// Whether a schema is a union that does not resolve.
pub fn is_unresolved(schema: &WriterSchema) -> (r: bool)
    ensures
        r == unresolved(*schema),
{
    match schema {
        WriterSchema::Union(branches) => {
            if branches.len() == 2 {
                let first_null = matches!(branches[0], WriterSchema::Null);
                let second_null = matches!(branches[1], WriterSchema::Null);
                first_null == second_null
            } else {
                true
            }
        },
        _ => false,
    }
}

/// Puts the table of a record into the index, each entry under the path of
/// its name, and then indexes the fields of the record.
#[verifier::loop_isolation(false)]
fn record_lookup(parent: Option<&str>, record: &RecordSchema, schema_lookup: &mut SchemaIndex)
    ensures
        final(schema_lookup)@ == index_record(
            old(schema_lookup)@,
            match parent {
                Some(path) => Some(path@),
                None => None,
            },
            *record,
        ),
    decreases record, 1nat,
{
    let ghost prefix = match parent {
        Some(path) => Some(path@),
        None => None,
    };
    let mut i: usize = 0;
    while i < record.lookup.len()
        invariant
            i <= record.lookup.len(),
            schema_lookup@ == with_entries(
                old(schema_lookup)@,
                prefix,
                record.fields@,
                record.lookup@.take(i as int),
            ),
        decreases record.lookup.len() - i,
    {
        assert(record.lookup@.take(i + 1).drop_last() == record.lookup@.take(i as int));
        let position = record.lookup[i].1;
        let kept = !(position < record.fields.len() && is_unresolved(
            &record.fields[position].schema,
        ));
        if kept {
            let path = match parent {
                Some(path) => join_dotted(path, record.lookup[i].0.as_str()),
                None => record.lookup[i].0.clone(),
            };
            schema_lookup.insert(path, position);
        }
        i = i + 1;
    }
    assert(record.lookup@.take(i as int) == record.lookup@);
    let ghost with_table = schema_lookup@;
    let mut j: usize = 0;
    while j < record.fields.len()
        invariant
            j <= record.fields.len(),
            schema_lookup@ == index_fields(with_table, prefix, record.fields@.take(j as int)),
        decreases record.fields.len() - j,
    {
        assert(record.fields@.take(j + 1).drop_last() == record.fields@.take(j as int));
        let sub_parent_field_name = match parent {
            Some(path) => join_dotted(path, record.fields[j].name.as_str()),
            None => record.fields[j].name.clone(),
        };
        child_schema_lookup(sub_parent_field_name.as_str(), &record.fields[j].schema, schema_lookup);
        j = j + 1;
    }
    assert(record.fields@.take(j as int) == record.fields@);
}

/// Indexes the schema that stands at the path `parent_field_name`.
pub fn child_schema_lookup(
    parent_field_name: &str,
    schema: &WriterSchema,
    schema_lookup: &mut SchemaIndex,
)
    ensures
        final(schema_lookup)@ == index_schema(old(schema_lookup)@, parent_field_name@, *schema),
    decreases schema, 0nat,
{
    match schema {
        WriterSchema::Union(branches) => {
            if !is_unresolved(schema) {
                if matches!(branches[0], WriterSchema::Null) {
                    child_schema_lookup(parent_field_name, &branches[1], schema_lookup);
                } else {
                    child_schema_lookup(parent_field_name, &branches[0], schema_lookup);
                }
            }
        },
        WriterSchema::Record(record) => {
            record_lookup(Some(parent_field_name), record, schema_lookup);
        },
        WriterSchema::Array(element) => {
            let sub_parent_field_name = join_element(parent_field_name);
            child_schema_lookup(sub_parent_field_name.as_str(), element, schema_lookup);
        },
        _ => {},
    }
}

/// Builds the index of a writer schema, which must be a record.
pub fn schema_lookup(schema: WriterSchema) -> (r: Result<SchemaIndex, DecodeError>)
    ensures
        match r {
            Ok(index) => schema_lookup_spec(schema) == Ok::<Map<Seq<char>, usize>, ErrorView>(index@),
            Err(e) => schema_lookup_spec(schema) == Err::<Map<Seq<char>, usize>, ErrorView>(e@),
        },
{
    match &schema {
        WriterSchema::Record(record) => {
            let mut lookup = SchemaIndex::new();
            record_lookup(None, record, &mut lookup);
            Ok(lookup)
        },
        _ => Err(DecodeError::NotARecord),
    }
}

} // verus!
