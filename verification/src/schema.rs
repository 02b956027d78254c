//! Schemas and documents. A schema is an ordered set of uniquely named,
//! typed fields, immutable once an index is created. A document is an
//! unvalidated structured value; it is checked against the target index's
//! schema before it is accepted into the writer's pending buffer.
//!
//! Every type has a mathematical view: a schema is a sequence of named,
//! typed fields, a document a sequence of named values. All contracts of
//! the crate are stated over these views.

use vstd::prelude::*;

verus! {

/// The type of one schema field.
#[derive(Debug, Clone, Copy, PartialEq, Eq, Structural)]
pub enum FieldType {
    Text,
    Integer,
}

/// A concrete field value carried by a document.
#[derive(Debug)]
pub enum FieldValue {
    Text(String),
    Integer(i64),
}

/// Mathematical model of a field value.
pub enum FieldValueV {
    Text(Seq<char>),
    Integer(i64),
}

impl FieldValueV {
    /// The schema type this value inhabits.
    pub open spec fn spec_type(self) -> FieldType {
        match self {
            FieldValueV::Text(_) => FieldType::Text,
            FieldValueV::Integer(_) => FieldType::Integer,
        }
    }
}

impl View for FieldValue {
    type V = FieldValueV;

    open spec fn view(&self) -> FieldValueV {
        match self {
            FieldValue::Text(s) => FieldValueV::Text(s@),
            FieldValue::Integer(x) => FieldValueV::Integer(*x),
        }
    }
}

impl Clone for FieldValue {
    fn clone(&self) -> (r: FieldValue)
        ensures
            r@ == self@,
    {
        match self {
            FieldValue::Text(s) => FieldValue::Text(s.clone()),
            FieldValue::Integer(x) => FieldValue::Integer(*x),
        }
    }
}

impl PartialEq for FieldValue {
    fn eq(&self, other: &FieldValue) -> (r: bool) {
        match (self, other) {
            (FieldValue::Text(a), FieldValue::Text(b)) => *a == *b,
            (FieldValue::Integer(a), FieldValue::Integer(b)) => *a == *b,
            _ => false,
        }
    }
}

impl vstd::std_specs::cmp::PartialEqSpecImpl for FieldValue {
    open spec fn obeys_eq_spec() -> bool {
        true
    }

    open spec fn eq_spec(&self, other: &FieldValue) -> bool {
        self@ == other@
    }
}

/// One named, typed field of a schema.
#[derive(Debug)]
pub struct SchemaField {
    pub name: String,
    pub field_type: FieldType,
}

/// Mathematical model of one schema field.
pub struct SchemaFieldV {
    pub name: Seq<char>,
    pub field_type: FieldType,
}

impl View for SchemaField {
    type V = SchemaFieldV;

    open spec fn view(&self) -> SchemaFieldV {
        SchemaFieldV { name: self.name@, field_type: self.field_type }
    }
}

impl Clone for SchemaField {
    fn clone(&self) -> (r: SchemaField)
        ensures
            r@ == self@,
    {
        SchemaField { name: self.name.clone(), field_type: self.field_type }
    }
}

/// No two fields of the schema share a name.
pub open spec fn schema_wf(s: Seq<SchemaFieldV>) -> bool {
    forall|i: int, j: int| 0 <= i < j < s.len() ==> s[i].name != s[j].name
}

/// Some field of the schema is called `name`.
pub open spec fn schema_has_field(s: Seq<SchemaFieldV>, name: Seq<char>) -> bool {
    exists|i: int| 0 <= i < s.len() && s[i].name == name
}

/// The schema declares a field called `name` of type `t`.
pub open spec fn schema_field_ok(s: Seq<SchemaFieldV>, name: Seq<char>, t: FieldType) -> bool {
    exists|i: int| 0 <= i < s.len() && s[i].name == name && s[i].field_type == t
}

/// An ordered set of typed fields; field names are unique.
#[derive(Debug)]
pub struct Schema {
    pub fields: Vec<SchemaField>,
}

impl View for Schema {
    type V = Seq<SchemaFieldV>;

    open spec fn view(&self) -> Seq<SchemaFieldV> {
        Seq::new(self.fields@.len(), |i: int| self.fields@[i]@)
    }
}

impl Clone for Schema {
    fn clone(&self) -> (r: Schema)
        ensures
            r@ == self@,
    {
        let fields = self.fields.clone();
        proof {
            assert forall|i: int| 0 <= i < fields@.len() implies fields@[i]@ == self.fields@[i]@
            by {
                assert(cloned::<SchemaField>(self.fields@[i], fields@[i]));
            }
            assert(Schema { fields }@ =~= self@);
        }
        Schema { fields }
    }
}

impl Schema {
    /// Well-formedness: no two fields share a name.
    pub open spec fn wf(self) -> bool {
        schema_wf(self@)
    }

    /// A schema with no fields.
    pub fn empty() -> (s: Schema)
        ensures
            s@.len() == 0,
            s.wf(),
    {
        Schema { fields: Vec::new() }
    }

    /// Appends a field; refuses a name that is already taken, leaving the
    /// schema unchanged, so that well-formedness is preserved.
    pub fn add_field(&mut self, name: String, field_type: FieldType) -> (added: bool)
        requires
            old(self).wf(),
        ensures
            final(self).wf(),
            added == !schema_has_field(old(self)@, name@),
            added ==> final(self)@ == old(self)@.push(SchemaFieldV { name: name@, field_type }),
            !added ==> final(self)@ == old(self)@,
    {
        if self.contains_field(&name) {
            false
        } else {
            let ghost pre = self@;
            self.fields.push(SchemaField { name, field_type });
            proof {
                assert(self@ =~= pre.push(self.fields@.last()@));
            }
            true
        }
    }

    /// Checks well-formedness of an arbitrary schema value: whether all
    /// field names are distinct.
    pub fn is_wf(&self) -> (b: bool)
        ensures
            b == self.wf(),
    {
        let mut i: usize = 0;
        while i < self.fields.len()
            invariant
                i <= self.fields@.len(),
                forall|a: int, b: int| 0 <= a < b < i ==> self@[a].name != self@[b].name,
            decreases self.fields@.len() - i,
        {
            let mut j: usize = 0;
            while j < i
                invariant
                    j <= i,
                    i < self.fields@.len(),
                    forall|a: int| 0 <= a < j ==> self@[a].name != self@[i as int].name,
                decreases i - j,
            {
                if self.fields[j].name == self.fields[i].name {
                    proof {
                        assert(self@[j as int].name == self@[i as int].name);
                    }
                    return false;
                }
                j += 1;
            }
            i += 1;
        }
        true
    }

    /// Whether a field with this name exists.
    pub fn contains_field(&self, name: &String) -> (r: bool)
        ensures
            r == schema_has_field(self@, name@),
    {
        let mut i: usize = 0;
        while i < self.fields.len()
            invariant
                i <= self.fields@.len(),
                forall|k: int| 0 <= k < i ==> self@[k].name != name@,
            decreases self.fields@.len() - i,
        {
            if self.fields[i].name == *name {
                proof {
                    assert(self@[i as int].name == name@);
                }
                return true;
            }
            i += 1;
        }
        false
    }

    /// Looks a field up by name; returns the position of the first field
    /// with that name.
    pub fn find_field(&self, name: &String) -> (r: Option<usize>)
        ensures
            match r {
                Some(i) => i < self@.len() && self@[i as int].name == name@ && forall|k: int|
                    0 <= k < i ==> self@[k].name != name@,
                None => !schema_has_field(self@, name@),
            },
    {
        let mut i: usize = 0;
        while i < self.fields.len()
            invariant
                i <= self.fields@.len(),
                forall|k: int| 0 <= k < i ==> self@[k].name != name@,
            decreases self.fields@.len() - i,
        {
            if self.fields[i].name == *name {
                return Some(i);
            }
            i += 1;
        }
        None
    }
}

/// One field of a document: a name and a value.
#[derive(Debug)]
pub struct DocField {
    pub name: String,
    pub value: FieldValue,
}

/// Mathematical model of one document field.
pub struct DocFieldV {
    pub name: Seq<char>,
    pub value: FieldValueV,
}

impl View for DocField {
    type V = DocFieldV;

    open spec fn view(&self) -> DocFieldV {
        DocFieldV { name: self.name@, value: self.value@ }
    }
}

impl Clone for DocField {
    fn clone(&self) -> (r: DocField)
        ensures
            r@ == self@,
    {
        DocField { name: self.name.clone(), value: self.value.clone() }
    }
}

/// The field is declared in the schema with the type of its value.
pub open spec fn field_conforms(f: DocFieldV, s: Seq<SchemaFieldV>) -> bool {
    schema_field_ok(s, f.name, f.value.spec_type())
}

/// Every field of the document is declared in the schema with a matching
/// type.
pub open spec fn doc_conforms(d: Seq<DocFieldV>, s: Seq<SchemaFieldV>) -> bool {
    forall|i: int| 0 <= i < d.len() ==> field_conforms(#[trigger] d[i], s)
}

/// An unvalidated structured value submitted for ingestion.
#[derive(Debug)]
pub struct Document {
    pub fields: Vec<DocField>,
}

impl View for Document {
    type V = Seq<DocFieldV>;

    open spec fn view(&self) -> Seq<DocFieldV> {
        Seq::new(self.fields@.len(), |i: int| self.fields@[i]@)
    }
}

impl Clone for Document {
    fn clone(&self) -> (r: Document)
        ensures
            r@ == self@,
    {
        let fields = self.fields.clone();
        proof {
            assert forall|i: int| 0 <= i < fields@.len() implies fields@[i]@ == self.fields@[i]@
            by {
                assert(cloned::<DocField>(self.fields@[i], fields@[i]));
            }
            assert(Document { fields }@ =~= self@);
        }
        Document { fields }
    }
}

impl Document {
    /// A document with no fields.
    pub fn empty() -> (d: Document)
        ensures
            d@.len() == 0,
    {
        Document { fields: Vec::new() }
    }

    /// Appends a field to the document.
    pub fn add_field(&mut self, name: String, value: FieldValue)
        ensures
            final(self)@ == old(self)@.push(DocFieldV { name: name@, value: value@ }),
    {
        let ghost pre = self@;
        self.fields.push(DocField { name, value });
        proof {
            assert(self@ =~= pre.push(self.fields@.last()@));
        }
    }
}

/// Validates a document against a schema. Returns `Ok` exactly when every
/// document field is declared in the schema with a matching type; otherwise
/// names the first offending field in a `SchemaValidationError`.
pub fn validate_document(schema: &Schema, doc: &Document) -> (r: Result<(), crate::error::Error>)
    requires
        schema.wf(),
    ensures
        r is Ok <==> doc_conforms(doc@, schema@),
        r matches Err(e) ==> (e matches crate::error::Error::SchemaValidationError(f)
            && exists|i: int|
            {
                &&& 0 <= i < doc@.len()
                &&& !field_conforms(#[trigger] doc@[i], schema@)
                &&& f@ == doc@[i].name
                &&& forall|j: int| 0 <= j < i ==> field_conforms(#[trigger] doc@[j], schema@)
            }),
{
    let mut i: usize = 0;
    while i < doc.fields.len()
        invariant
            schema.wf(),
            i <= doc.fields@.len(),
            forall|k: int| 0 <= k < i ==> field_conforms(#[trigger] doc@[k], schema@),
        decreases doc.fields@.len() - i,
    {
        let f = &doc.fields[i];
        let ok: bool = match schema.find_field(&f.name) {
            Some(k) => {
                let declared = schema.fields[k].field_type;
                let same_type = match &f.value {
                    FieldValue::Text(_) => declared == FieldType::Text,
                    FieldValue::Integer(_) => declared == FieldType::Integer,
                };
                proof {
                    if same_type {
                        assert(schema@[k as int].name == f@.name
                            && schema@[k as int].field_type == f@.value.spec_type());
                    } else if field_conforms(f@, schema@) {
                        let w: int = choose|w: int|
                            0 <= w < schema@.len() && schema@[w].name == f@.name
                                && schema@[w].field_type == f@.value.spec_type();
                        assert(w != k as int ==> schema@[w].name != schema@[k as int].name);
                        assert(false);
                    }
                }
                same_type
            },
            None => {
                proof {
                    if field_conforms(f@, schema@) {
                        let w: int = choose|w: int|
                            0 <= w < schema@.len() && schema@[w].name == f@.name
                                && schema@[w].field_type == f@.value.spec_type();
                        assert(schema_has_field(schema@, f@.name));
                    }
                }
                false
            },
        };
        if !ok {
            proof {
                assert(doc@[i as int] == f@);
                assert(!field_conforms(doc@[i as int], schema@));
            }
            return Err(crate::error::Error::SchemaValidationError(f.name.clone()));
        }
        i += 1;
    }
    Ok(())
}

} // verus!
