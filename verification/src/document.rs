//! Stored documents and record serialization.
//!
//! A stored document is the store-side shape of a record: a document
//! identity plus named field values. Encoding writes one pair per
//! declared field, in declaration order; decoding reads each declared
//! field back by name, treating a missing key as an absent value, and
//! fails on a value of the wrong kind. For a well-formed schema the two
//! are inverse to each other.

use vstd::prelude::*;
use crate::errors::OximodError;
use crate::record::{Record, RecordModel};
use crate::schema::{Schema, value_fits};
use crate::strings::cat3;
use crate::value::{DocumentId, FieldValue, ValueModel};

verus! {

/// Mathematical model of a stored document.
pub ghost struct DocModel {
    pub id: DocumentId,
    pub fields: Seq<(Seq<char>, ValueModel)>,
}

/// A document as the store holds it: an identity plus named values.
#[derive(Clone, Debug)]
pub struct StoredDoc {
    pub id: DocumentId,
    pub fields: Vec<(String, FieldValue)>,
}

impl StoredDoc {
    /// The mathematical document this value stands for.
    pub open spec fn model(self) -> DocModel {
        DocModel {
            id: self.id,
            fields: Seq::new(
                self.fields@.len(),
                |i: int| (self.fields@[i].0@, self.fields@[i].1.model()),
            ),
        }
    }

    /// Copies the document; the copy has the same model.
    pub fn duplicate(&self) -> (r: StoredDoc)
        ensures
            r.model() == self.model(),
    {
        let mut fields: Vec<(String, FieldValue)> = Vec::new();
        let mut k: usize = 0;
        while k < self.fields.len()
            invariant
                0 <= k <= self.fields@.len(),
                fields@.len() == k,
                forall|p: int|
                    0 <= p < k ==> (#[trigger] fields@[p]).0@ == self.fields@[p].0@
                        && fields@[p].1.model() == self.fields@[p].1.model(),
            decreases self.fields@.len() - k,
        {
            fields.push((self.fields[k].0.clone(), self.fields[k].1.duplicate()));
            k += 1;
        }
        let r = StoredDoc { id: self.id, fields };
        proof {
            assert(r.model().fields =~= self.model().fields);
        }
        r
    }
}

/// The value stored under a key: the first pair with that key, or an
/// absent value when no pair carries it.
pub open spec fn lookup(fields: Seq<(Seq<char>, ValueModel)>, name: Seq<char>) -> ValueModel
    decreases fields.len(),
{
    if fields.len() == 0 {
        ValueModel::Absent
    } else if fields[0].0 == name {
        fields[0].1
    } else {
        lookup(fields.drop_first(), name)
    }
}

/// Looking a key up finds the first pair that carries it.
pub proof fn lemma_lookup_at(fields: Seq<(Seq<char>, ValueModel)>, name: Seq<char>, i: int)
    requires
        0 <= i < fields.len(),
        fields[i].0 == name,
        forall|p: int| 0 <= p < i ==> (#[trigger] fields[p]).0 != name,
    ensures
        lookup(fields, name) == fields[i].1,
    decreases i,
{
    if i > 0 {
        lemma_lookup_at(fields.drop_first(), name, i - 1);
    }
}

/// Looking up a key that no pair carries yields the absent value.
pub proof fn lemma_lookup_none(fields: Seq<(Seq<char>, ValueModel)>, name: Seq<char>)
    requires
        forall|p: int| 0 <= p < fields.len() ==> (#[trigger] fields[p]).0 != name,
    ensures
        lookup(fields, name) == ValueModel::Absent,
    decreases fields.len(),
{
    if fields.len() > 0 {
        lemma_lookup_none(fields.drop_first(), name);
    }
}

/// Reads the value stored under a key.
pub fn lookup_value(doc: &StoredDoc, name: &String) -> (r: FieldValue)
    ensures
        r.model() == lookup(doc.model().fields, name@),
{
    let mut k: usize = 0;
    while k < doc.fields.len()
        invariant
            0 <= k <= doc.fields@.len(),
            forall|p: int| 0 <= p < k ==> (#[trigger] doc.model().fields[p]).0 != name@,
        decreases doc.fields@.len() - k,
    {
        if doc.fields[k].0 == *name {
            let r = doc.fields[k].1.duplicate();
            proof {
                lemma_lookup_at(doc.model().fields, name@, k as int);
            }
            return r;
        }
        k += 1;
    }
    proof {
        lemma_lookup_none(doc.model().fields, name@);
    }
    FieldValue::Absent
}

/// The document a record encodes to under a schema, once its identity is
/// settled: one pair per declared field, in declaration order.
pub open spec fn encoded(s: Schema, values: Seq<ValueModel>, id: DocumentId) -> DocModel {
    DocModel {
        id,
        fields: Seq::new(s.fields@.len(), |i: int| (s.fields@[i].name@, values[i])),
    }
}

/// Serializes a record into a stored document carrying the given identity.
pub fn encode(schema: &Schema, record: &Record, id: DocumentId) -> (r: StoredDoc)
    requires
        record.values@.len() == schema.fields@.len(),
    ensures
        r.model() == encoded(*schema, record.model().values, id),
{
    let mut fields: Vec<(String, FieldValue)> = Vec::new();
    let mut i: usize = 0;
    while i < schema.fields.len()
        invariant
            record.values@.len() == schema.fields@.len(),
            0 <= i <= schema.fields@.len(),
            fields@.len() == i,
            forall|p: int|
                0 <= p < i ==> (#[trigger] fields@[p]).0@ == schema.fields@[p].name@
                    && fields@[p].1.model() == record.values@[p].model(),
        decreases schema.fields@.len() - i,
    {
        fields.push((schema.fields[i].name.clone(), record.values[i].duplicate()));
        i += 1;
    }
    let r = StoredDoc { id, fields };
    proof {
        assert(r.model().fields =~= encoded(*schema, record.model().values, id).fields);
    }
    r
}

/// Whether a stored document can be read back as a record of the given
/// type: every declared field's stored value is of an admissible kind.
pub open spec fn decodable(s: Schema, d: DocModel) -> bool {
    forall|i: int|
        0 <= i < s.fields@.len() ==> value_fits(
            lookup(d.fields, (#[trigger] s.fields@[i]).name@),
            s.fields@[i].kind,
            s.fields@[i].optional,
        )
}

/// The record a decodable stored document reads back as.
pub open spec fn decoded(s: Schema, d: DocModel) -> RecordModel {
    RecordModel {
        id: Some(d.id),
        values: Seq::new(s.fields@.len(), |i: int| lookup(d.fields, s.fields@[i].name@)),
    }
}

/// Deserializes a stored document into a record of the given type.
///
/// Succeeds exactly when every declared field's stored value fits the
/// field; a value of the wrong kind is a serialization error naming the
/// field. A key the document does not carry reads as the absent value.
pub fn decode(schema: &Schema, doc: &StoredDoc) -> (r: Result<Record, OximodError>)
    ensures
        r is Ok <==> decodable(*schema, doc.model()),
        r matches Ok(rec) ==> rec.model() == decoded(*schema, doc.model()),
        r matches Err(e) ==> e is SerializationError,
{
    let mut values: Vec<FieldValue> = Vec::new();
    let mut i: usize = 0;
    while i < schema.fields.len()
        invariant
            0 <= i <= schema.fields@.len(),
            values@.len() == i,
            forall|p: int|
                0 <= p < i ==> (#[trigger] values@[p]).model() == lookup(
                    doc.model().fields,
                    schema.fields@[p].name@,
                ),
            forall|p: int|
                0 <= p < i ==> value_fits(
                    lookup(doc.model().fields, (#[trigger] schema.fields@[p]).name@),
                    schema.fields@[p].kind,
                    schema.fields@[p].optional,
                ),
        decreases schema.fields@.len() - i,
    {
        let f = &schema.fields[i];
        let v = lookup_value(doc, &f.name);
        let fits = match (&v, f.kind, f.optional) {
            (FieldValue::Absent, _, opt) => opt,
            (FieldValue::Text(_), crate::schema::FieldKind::Text, _) => true,
            (FieldValue::Int(_), crate::schema::FieldKind::Int, _) => true,
            (FieldValue::Flag(_), crate::schema::FieldKind::Flag, _) => true,
            _ => false,
        };
        if !fits {
            return Err(
                OximodError::SerializationError(
                    cat3("Field '", f.name.as_str(), "' holds a value of the wrong kind"),
                ),
            );
        }
        values.push(v);
        i += 1;
    }
    let rec = Record { id: Some(doc.id), values };
    proof {
        assert(rec.model().values =~= decoded(*schema, doc.model()).values);
    }
    Ok(rec)
}

/// Law: serialization round-trips. Under a well-formed schema, the
/// document a record encodes to is decodable, and decoding it restores
/// the record's fields exactly, with the identity the encoding carried.
pub proof fn lemma_encode_decode_roundtrip(s: Schema, values: Seq<ValueModel>, id: DocumentId)
    requires
        s.wf(),
        values.len() == s.fields@.len(),
        forall|i: int|
            0 <= i < s.fields@.len() ==> value_fits(
                #[trigger] values[i],
                s.fields@[i].kind,
                s.fields@[i].optional,
            ),
    ensures
        decodable(s, encoded(s, values, id)),
        decoded(s, encoded(s, values, id)).values =~= values,
        decoded(s, encoded(s, values, id)).id == Some(id),
{
    let d = encoded(s, values, id);
    assert forall|i: int| 0 <= i < s.fields@.len() implies lookup(
        d.fields,
        (#[trigger] s.fields@[i]).name@,
    ) == values[i] by {
        assert(d.fields[i].0 == s.fields@[i].name@);
        assert forall|p: int| 0 <= p < i implies (#[trigger] d.fields[p]).0 != s.fields@[i].name@
        by {
            assert(s.fields@[p].name@ != s.fields@[i].name@);
        }
        lemma_lookup_at(d.fields, s.fields@[i].name@, i);
    }
}

/// Replaces the value stored under a key, or appends the pair when no
/// pair carries the key yet.
pub open spec fn set_key(
    fields: Seq<(Seq<char>, ValueModel)>,
    name: Seq<char>,
    v: ValueModel,
) -> Seq<(Seq<char>, ValueModel)>
    decreases fields.len(),
{
    if fields.len() == 0 {
        seq![(name, v)]
    } else if fields[0].0 == name {
        seq![(fields[0].0, v)] + fields.drop_first()
    } else {
        seq![fields[0]] + set_key(fields.drop_first(), name, v)
    }
}

/// Setting a key rewrites the first pair that carries it.
pub proof fn lemma_set_key_at(
    fields: Seq<(Seq<char>, ValueModel)>,
    name: Seq<char>,
    v: ValueModel,
    i: int,
)
    requires
        0 <= i < fields.len(),
        fields[i].0 == name,
        forall|p: int| 0 <= p < i ==> (#[trigger] fields[p]).0 != name,
    ensures
        set_key(fields, name, v) =~= fields.update(i, (fields[i].0, v)),
    decreases i,
{
    if i > 0 {
        lemma_set_key_at(fields.drop_first(), name, v, i - 1);
        assert(seq![fields[0]] + fields.drop_first().update(i - 1, (fields[i].0, v)) =~= fields
            .update(i, (fields[i].0, v)));
    }
}

/// Setting a key no pair carries appends the pair.
pub proof fn lemma_set_key_none(
    fields: Seq<(Seq<char>, ValueModel)>,
    name: Seq<char>,
    v: ValueModel,
)
    requires
        forall|p: int| 0 <= p < fields.len() ==> (#[trigger] fields[p]).0 != name,
    ensures
        set_key(fields, name, v) =~= fields.push((name, v)),
    decreases fields.len(),
{
    if fields.len() > 0 {
        lemma_set_key_none(fields.drop_first(), name, v);
    }
}

/// Stores a value under a key in a document.
pub fn set_value(doc: &mut StoredDoc, name: &String, v: FieldValue)
    ensures
        final(doc).id == old(doc).id,
        final(doc).model().fields == set_key(old(doc).model().fields, name@, v.model()),
{
    let ghost orig = doc.model().fields;
    let mut k: usize = 0;
    while k < doc.fields.len()
        invariant
            *doc == *old(doc),
            orig == doc.model().fields,
            0 <= k <= doc.fields@.len(),
            forall|p: int| 0 <= p < k ==> (#[trigger] orig[p]).0 != name@,
        decreases doc.fields@.len() - k,
    {
        if doc.fields[k].0 == *name {
            proof {
                lemma_set_key_at(orig, name@, v.model(), k as int);
            }
            let ghost oldvec = doc.fields@;
            let key = doc.fields[k].0.clone();
            let ghost gkey = key;
            doc.fields[k] = (key, v);
            proof {
                assert(doc.fields@.len() == oldvec.len());
                assert(doc.fields@[k as int].0 == gkey);
                assert(doc.fields@[k as int].1 == v);
                assert(forall|i: int| 0 <= i < oldvec.len() && i != k ==> doc.fields@[i] == oldvec[i]);
                assert(doc.fields@ =~= oldvec.update(k as int, (gkey, v)));
                assert forall|i: int| 0 <= i < orig.len() implies doc.model().fields[i]
                    == orig.update(k as int, (orig[k as int].0, v.model()))[i] by {
                    if i == k {
                        assert(doc.fields@[i] == (gkey, v));
                        assert(gkey@ == oldvec[i].0@);
                    } else {
                        assert(doc.fields@[i] == oldvec[i]);
                    }
                }
                assert(doc.model().fields =~= orig.update(
                    k as int,
                    (orig[k as int].0, v.model()),
                ));
            }
            return ;
        }
        k += 1;
    }
    proof {
        lemma_set_key_none(orig, name@, v.model());
    }
    doc.fields.push((name.clone(), v));
    proof {
        assert(doc.model().fields =~= orig.push((name@, v.model())));
    }
}

} // verus!
