//! Record instances and the default/builder engine.
//!
//! A [`Record`] is a plain value: an optional document identity plus one
//! field value per declared field, in declaration order. [`Record::new`]
//! and [`Record::default`] build the same fresh record, initializing each
//! field to its declared default or, failing that, to the zero value of
//! its kind. Setters replace one field and hand the record back, so
//! construction chains; the result depends only on the final assignment
//! to each field, never on the order of assignments to different fields.

use vstd::prelude::*;
use crate::value::{DocumentId, FieldValue, ValueModel};
use crate::schema::{FieldDescriptor, FieldKind, Schema, value_fits};

verus! {

/// Mathematical model of a record: its identity and field contents.
pub ghost struct RecordModel {
    pub id: Option<DocumentId>,
    pub values: Seq<ValueModel>,
}

/// A record instance of some declared record type.
#[derive(Clone, Debug)]
pub struct Record {
    /// The document identity: `None` until first save or explicit assignment.
    pub id: Option<DocumentId>,
    /// One value per declared field, in declaration order.
    pub values: Vec<FieldValue>,
}

/// The zero value of a field: absent when the field is optional, else the
/// empty text, zero, or false.
pub open spec fn zero_model(kind: FieldKind, optional: bool) -> ValueModel {
    if optional {
        ValueModel::Absent
    } else {
        match kind {
            FieldKind::Text => ValueModel::Text(Seq::empty()),
            FieldKind::Int => ValueModel::Int(0),
            FieldKind::Flag => ValueModel::Flag(false),
        }
    }
}

/// The value a fresh record starts with in one field: the declared
/// default if present, else the zero value of the field's kind.
pub open spec fn fresh_value(f: FieldDescriptor) -> ValueModel {
    match f.default {
        Some(v) => v.model(),
        None => zero_model(f.kind, f.optional),
    }
}

/// Whether a record is a fresh construction for the given record type:
/// no identity, and every field holds its declared default or zero value.
pub open spec fn is_fresh(r: Record, s: Schema) -> bool {
    &&& r.id is None
    &&& r.values@.len() == s.fields@.len()
    &&& forall|i: int|
        0 <= i < s.fields@.len() ==> (#[trigger] r.values@[i]).model() == fresh_value(
            s.fields@[i],
        )
}

/// Builds the zero value of a field kind.
fn mk_zero(kind: FieldKind, optional: bool) -> (r: FieldValue)
    ensures
        r.model() == zero_model(kind, optional),
{
    if optional {
        FieldValue::Absent
    } else {
        match kind {
            FieldKind::Text => FieldValue::Text(String::new()),
            FieldKind::Int => FieldValue::Int(0),
            FieldKind::Flag => FieldValue::Flag(false),
        }
    }
}

impl Record {
    /// The mathematical record this value stands for.
    pub open spec fn model(self) -> RecordModel {
        RecordModel { id: self.id, values: Seq::new(self.values@.len(), |i: int| self.values@[i].model()) }
    }

    /// Whether the record is shaped by the given record type: one value
    /// per field, each of a kind the field admits.
    pub open spec fn wf(self, s: Schema) -> bool {
        &&& self.values@.len() == s.fields@.len()
        &&& forall|i: int|
            0 <= i < s.fields@.len() ==> value_fits(
                (#[trigger] self.values@[i]).model(),
                s.fields@[i].kind,
                s.fields@[i].optional,
            )
    }

    /// Builds a fresh record for the given record type.
    ///
    /// Every field starts at its declared default, or at the zero value
    /// of its kind; the identity starts unset.
    pub fn new(schema: &Schema) -> (r: Record)
        ensures
            is_fresh(r, *schema),
            schema.wf() ==> r.wf(*schema),
    {
        let mut values: Vec<FieldValue> = Vec::new();
        let mut i: usize = 0;
        while i < schema.fields.len()
            invariant
                0 <= i <= schema.fields@.len(),
                values@.len() == i,
                forall|p: int|
                    0 <= p < i ==> (#[trigger] values@[p]).model() == fresh_value(
                        schema.fields@[p],
                    ),
            decreases schema.fields@.len() - i,
        {
            let f = &schema.fields[i];
            let v = match &f.default {
                Some(d) => d.duplicate(),
                None => mk_zero(f.kind, f.optional),
            };
            proof {
                assert(v.model() == fresh_value(schema.fields@[i as int]));
            }
            values.push(v);
            i += 1;
        }
        let r = Record { id: None, values };
        proof {
            if schema.wf() {
                assert forall|k: int| 0 <= k < schema.fields@.len() implies value_fits(
                    (#[trigger] r.values@[k]).model(),
                    schema.fields@[k].kind,
                    schema.fields@[k].optional,
                ) by {
                    assert(schema.fields@[k].wf());
                }
            }
        }
        r
    }

    /// Builds the same fresh record as [`Record::new`].
    pub fn default(schema: &Schema) -> (r: Record)
        ensures
            is_fresh(r, *schema),
            schema.wf() ==> r.wf(*schema),
    {
        Record::new(schema)
    }

    /// Assigns the document identity, for callers that choose their own.
    pub fn id(self, id: DocumentId) -> (r: Record)
        ensures
            r.id == Some(id),
            r.values == self.values,
    {
        Record { id: Some(id), values: self.values }
    }

    /// Replaces the value of the named field and hands the record back.
    ///
    /// A name that the record type does not declare leaves the record
    /// unchanged.
    pub fn set(self, schema: &Schema, name: &str, v: FieldValue) -> (r: Record)
        requires
            schema.wf(),
            self.values@.len() == schema.fields@.len(),
        ensures
            r.id == self.id,
            r.values@.len() == self.values@.len(),
            forall|i: int|
                0 <= i < schema.fields@.len() && (#[trigger] schema.fields@[i]).name@ == name@
                    ==> r.values@[i] == v,
            forall|i: int|
                0 <= i < schema.fields@.len() && (#[trigger] schema.fields@[i]).name@ != name@
                    ==> r.values@[i] == self.values@[i],
    {
        let ghost gv = v;
        let mut rec = self;
        let mut i: usize = 0;
        let target = String::from_str(name);
        while i < schema.fields.len()
            invariant
                0 <= i <= schema.fields@.len(),
                schema.wf(),
                target@ == name@,
                rec.id == self.id,
                rec.values@.len() == self.values@.len() == schema.fields@.len(),
                forall|p: int|
                    0 <= p < i && (#[trigger] schema.fields@[p]).name@ == name@ ==> rec.values@[p]
                        == gv,
                forall|p: int|
                    0 <= p < schema.fields@.len() && (#[trigger] schema.fields@[p]).name@ != name@
                        ==> rec.values@[p] == self.values@[p],
                forall|p: int|
                    i <= p < schema.fields@.len() ==> (#[trigger] rec.values@[p])
                        == self.values@[p],
            decreases schema.fields@.len() - i,
        {
            if schema.fields[i].name == target {
                rec.values.set(i, v);
                return rec;
            }
            i += 1;
        }
        rec
    }
}

impl Record {
    /// Reads the value of the named field; a name the record type does
    /// not declare reads as the absent value.
    pub fn value_of(&self, schema: &Schema, name: &str) -> (r: FieldValue)
        requires
            schema.wf(),
            self.values@.len() == schema.fields@.len(),
        ensures
            forall|i: int|
                0 <= i < schema.fields@.len() && (#[trigger] schema.fields@[i]).name@ == name@
                    ==> r.model() == self.values@[i].model(),
            (forall|i: int|
                0 <= i < schema.fields@.len() ==> (#[trigger] schema.fields@[i]).name@ != name@)
                ==> r.model() is Absent,
    {
        let target = String::from_str(name);
        let mut i: usize = 0;
        while i < schema.fields.len()
            invariant
                schema.wf(),
                target@ == name@,
                self.values@.len() == schema.fields@.len(),
                0 <= i <= schema.fields@.len(),
                forall|p: int| 0 <= p < i ==> (#[trigger] schema.fields@[p]).name@ != name@,
            decreases schema.fields@.len() - i,
        {
            if schema.fields[i].name == target {
                return self.values[i].duplicate();
            }
            i += 1;
        }
        FieldValue::Absent
    }
}

/// Fresh records of one record type are field-identical, however they
/// were obtained: any two records satisfying the fresh-construction
/// contract of [`Record::new`] and [`Record::default`] have the same
/// model.
pub proof fn lemma_new_default_identical(a: Record, b: Record, s: Schema)
    requires
        is_fresh(a, s),
        is_fresh(b, s),
    ensures
        a.model() == b.model(),
{
    assert(a.model().values =~= b.model().values);
}

} // verus!
