//! The CRUD translator over an in-memory collection.
//!
//! [`CollectionStore`] is an executable model of one store collection: an
//! ordered sequence of documents with unique identities. The operations
//! mirror the persistence surface of a record type — save, find, update,
//! delete, count, presence, clear — each against an exact contract over
//! the sequence of document models. A save validates first, provisions
//! the declared indexes once, and only then writes: no invalid record is
//! ever stored.

use vstd::prelude::*;
use crate::document::{
    DocModel, StoredDoc, decodable, decode, decoded, encode, encoded, lemma_encode_decode_roundtrip,
};
use crate::errors::OximodError;
use crate::filter::{
    Filter, FilterModel, Update, all_filter, apply_update, doc_matches, fields_changed,
    filter_matches, id_filter, with_sets,
};
use crate::index::{IndexModel, IndexModelView, compile_indexes, index_models, spec_compile_indexes};
use crate::record::Record;
use crate::schema::{Schema, value_fits};
use crate::validate::{record_valid, validate};
use crate::value::{DocumentId, ValueModel};

verus! {

/// The outcome of an update operation.
#[derive(Clone, Copy, PartialEq, Eq, Structural, Debug)]
pub struct UpdateResult {
    /// How many documents the filter matched.
    pub matched_count: u64,
    /// How many matched documents the update actually changed.
    pub modified_count: u64,
}

/// The outcome of a delete operation.
#[derive(Clone, Copy, PartialEq, Eq, Structural, Debug)]
pub struct DeleteResult {
    /// How many documents were deleted.
    pub deleted_count: u64,
}

/// The documents of a sequence that a filter matches, in order.
pub open spec fn matching(docs: Seq<DocModel>, f: FilterModel) -> Seq<DocModel>
    decreases docs.len(),
{
    if docs.len() == 0 {
        Seq::empty()
    } else {
        matching(docs.drop_last(), f) + (if filter_matches(f, docs.last()) {
            seq![docs.last()]
        } else {
            Seq::empty()
        })
    }
}

/// The documents of a sequence that a filter does not match, in order.
pub open spec fn remaining(docs: Seq<DocModel>, f: FilterModel) -> Seq<DocModel>
    decreases docs.len(),
{
    if docs.len() == 0 {
        Seq::empty()
    } else {
        remaining(docs.drop_last(), f) + (if filter_matches(f, docs.last()) {
            Seq::empty()
        } else {
            seq![docs.last()]
        })
    }
}

/// Every document after an update: matched documents get the assignments,
/// the others stay.
pub open spec fn update_all(
    docs: Seq<DocModel>,
    f: FilterModel,
    sets: Seq<(Seq<char>, ValueModel)>,
) -> Seq<DocModel> {
    Seq::new(
        docs.len(),
        |i: int|
            if filter_matches(f, docs[i]) {
                with_sets(docs[i], sets)
            } else {
                docs[i]
            },
    )
}

/// How many matched documents an update would actually change.
pub open spec fn count_changed(
    docs: Seq<DocModel>,
    f: FilterModel,
    sets: Seq<(Seq<char>, ValueModel)>,
) -> nat
    decreases docs.len(),
{
    if docs.len() == 0 {
        0
    } else {
        count_changed(docs.drop_last(), f, sets) + (if filter_matches(f, docs.last()) && with_sets(
            docs.last(),
            sets,
        ).fields != docs.last().fields {
            1nat
        } else {
            0nat
        })
    }
}

/// Whether some document of the sequence carries the identity.
pub open spec fn contains_id(docs: Seq<DocModel>, id: DocumentId) -> bool {
    exists|p: int| 0 <= p < docs.len() && (#[trigger] docs[p]).id == id
}

/// Whether position `m` holds the first document the filter matches.
pub open spec fn is_first_match(docs: Seq<DocModel>, f: FilterModel, m: int) -> bool {
    &&& 0 <= m < docs.len()
    &&& filter_matches(f, docs[m])
    &&& forall|p: int| 0 <= p < m ==> !filter_matches(f, #[trigger] docs[p])
}

/// Pairwise distinct document identities.
pub open spec fn unique_ids(docs: Seq<DocModel>) -> bool {
    forall|i: int, j: int|
        0 <= i < j < docs.len() ==> (#[trigger] docs[i]).id != (#[trigger] docs[j]).id
}

/// Extending a sequence by one document extends what a filter matches.
pub proof fn lemma_matching_push(docs: Seq<DocModel>, f: FilterModel, d: DocModel)
    ensures
        filter_matches(f, d) ==> matching(docs.push(d), f) == matching(docs, f).push(d),
        !filter_matches(f, d) ==> matching(docs.push(d), f) == matching(docs, f),
        filter_matches(f, d) ==> remaining(docs.push(d), f) == remaining(docs, f),
        !filter_matches(f, d) ==> remaining(docs.push(d), f) == remaining(docs, f).push(d),
{
    assert(docs.push(d).drop_last() =~= docs);
    assert(docs.push(d).last() == d);
    if filter_matches(f, d) {
        assert(matching(docs.push(d), f) =~= matching(docs, f).push(d));
        assert(remaining(docs.push(d), f) =~= remaining(docs, f));
    } else {
        assert(matching(docs.push(d), f) =~= matching(docs, f));
        assert(remaining(docs.push(d), f) =~= remaining(docs, f).push(d));
    }
}

/// One step of scanning a sequence front to back: what the filter matches
/// in the prefix one longer.
pub proof fn lemma_matching_take_step(docs: Seq<DocModel>, f: FilterModel, i: int)
    requires
        0 <= i < docs.len(),
    ensures
        filter_matches(f, docs[i]) ==> matching(docs.take(i + 1), f) == matching(docs.take(i), f).push(
            docs[i],
        ),
        !filter_matches(f, docs[i]) ==> matching(docs.take(i + 1), f) == matching(docs.take(i), f),
        filter_matches(f, docs[i]) ==> remaining(docs.take(i + 1), f) == remaining(docs.take(i), f),
        !filter_matches(f, docs[i]) ==> remaining(docs.take(i + 1), f) == remaining(docs.take(i), f).push(
            docs[i],
        ),
{
    assert(docs.take(i + 1) =~= docs.take(i).push(docs[i]));
    lemma_matching_push(docs.take(i), f, docs[i]);
}

/// Scanning the whole sequence scans every document.
pub proof fn lemma_take_all(docs: Seq<DocModel>)
    ensures
        docs.take(docs.len() as int) == docs,
{
    assert(docs.take(docs.len() as int) =~= docs);
}

/// A filter matches nothing exactly when it matches no document.
pub proof fn lemma_matching_empty(docs: Seq<DocModel>, f: FilterModel)
    ensures
        (matching(docs, f).len() == 0) <==> (forall|i: int|
            0 <= i < docs.len() ==> !filter_matches(f, #[trigger] docs[i])),
    decreases docs.len(),
{
    if docs.len() > 0 {
        lemma_matching_empty(docs.drop_last(), f);
        assert forall|i: int| 0 <= i < docs.len() - 1 implies docs.drop_last()[i] == docs[i] by {}
    }
}

/// A matched document appears among what the filter matches.
pub proof fn lemma_matching_contains(docs: Seq<DocModel>, f: FilterModel, i: int)
    requires
        0 <= i < docs.len(),
        filter_matches(f, docs[i]),
    ensures
        exists|k: int|
            0 <= k < matching(docs, f).len() && #[trigger] matching(docs, f)[k] == docs[i],
    decreases docs.len(),
{
    if i == docs.len() - 1 {
        let k = matching(docs.drop_last(), f).len() as int;
        assert(matching(docs, f)[k] == docs[i]);
    } else {
        lemma_matching_contains(docs.drop_last(), f, i);
        let k = choose|k: int|
            0 <= k < matching(docs.drop_last(), f).len() && #[trigger] matching(
                docs.drop_last(),
                f,
            )[k] == docs.drop_last()[i];
        assert(matching(docs, f)[k] == docs[i]);
    }
}

/// The first matched document heads what the filter matches.
pub proof fn lemma_matching_first(docs: Seq<DocModel>, f: FilterModel, m: int)
    requires
        is_first_match(docs, f, m),
    ensures
        matching(docs, f).len() > 0,
        matching(docs, f)[0] == docs[m],
    decreases docs.len(),
{
    if m == docs.len() - 1 {
        lemma_matching_empty(docs.drop_last(), f);
        assert(matching(docs.drop_last(), f).len() == 0);
        assert(matching(docs, f)[0] == docs[m]);
    } else {
        assert(docs.drop_last()[m] == docs[m]);
        lemma_matching_first(docs.drop_last(), f, m);
        assert(matching(docs, f)[0] == matching(docs.drop_last(), f)[0]);
    }
}

/// Every document a filter leaves over is one of the originals.
pub proof fn lemma_remaining_subset(docs: Seq<DocModel>, f: FilterModel)
    ensures
        forall|k: int|
            0 <= k < remaining(docs, f).len() ==> exists|p: int|
                0 <= p < docs.len() && #[trigger] remaining(docs, f)[k] == docs[p],
    decreases docs.len(),
{
    if docs.len() > 0 {
        lemma_remaining_subset(docs.drop_last(), f);
        assert forall|k: int| 0 <= k < remaining(docs, f).len() implies exists|p: int|
            0 <= p < docs.len() && #[trigger] remaining(docs, f)[k] == docs[p] by {
            if k < remaining(docs.drop_last(), f).len() {
                let p = choose|p: int|
                    0 <= p < docs.drop_last().len() && #[trigger] remaining(docs.drop_last(), f)[k]
                        == docs.drop_last()[p];
                assert(remaining(docs, f)[k] == docs[p]);
            } else {
                assert(remaining(docs, f)[k] == docs.last());
                assert(remaining(docs, f)[k] == docs[docs.len() - 1]);
            }
        }
    }
}

/// Deletion keeps identities pairwise distinct.
pub proof fn lemma_remaining_unique(docs: Seq<DocModel>, f: FilterModel)
    requires
        unique_ids(docs),
    ensures
        unique_ids(remaining(docs, f)),
    decreases docs.len(),
{
    if docs.len() > 0 {
        lemma_remaining_unique(docs.drop_last(), f);
        lemma_remaining_subset(docs.drop_last(), f);
        let r = remaining(docs, f);
        let rp = remaining(docs.drop_last(), f);
        assert forall|i: int, j: int| 0 <= i < j < r.len() implies (#[trigger] r[i]).id != (
        #[trigger] r[j]).id by {
            if j < rp.len() {
            } else {
                assert(!filter_matches(f, docs.last()));
                assert(r[j] == docs.last());
                assert(r[i] == rp[i]);
                let p = choose|p: int|
                    0 <= p < docs.drop_last().len() && #[trigger] rp[i] == docs.drop_last()[p];
                assert(docs[p].id != docs[docs.len() - 1].id);
            }
        }
    }
}

/// Deletion never invents an identity.
pub proof fn lemma_remaining_ids_bounded(docs: Seq<DocModel>, f: FilterModel, bound: int)
    requires
        forall|p: int| 0 <= p < docs.len() ==> (#[trigger] docs[p]).id.raw < bound,
    ensures
        forall|k: int|
            0 <= k < remaining(docs, f).len() ==> (#[trigger] remaining(docs, f)[k]).id.raw
                < bound,
{
    lemma_remaining_subset(docs, f);
    assert forall|k: int| 0 <= k < remaining(docs, f).len() implies (#[trigger] remaining(
        docs,
        f,
    )[k]).id.raw < bound by {
        let p = choose|p: int| 0 <= p < docs.len() && #[trigger] remaining(docs, f)[k] == docs[p];
    }
}


/// Extending a sequence by one document extends the changed-count.
pub proof fn lemma_count_changed_push(
    docs: Seq<DocModel>,
    f: FilterModel,
    sets: Seq<(Seq<char>, ValueModel)>,
    d: DocModel,
)
    ensures
        count_changed(docs.push(d), f, sets) == count_changed(docs, f, sets) + (if filter_matches(
            f,
            d,
        ) && with_sets(d, sets).fields != d.fields {
            1nat
        } else {
            0nat
        }),
{
    assert(docs.push(d).drop_last() =~= docs);
    assert(docs.push(d).last() == d);
}

/// One step of scanning front to back for the changed-count.
pub proof fn lemma_count_changed_take_step(
    docs: Seq<DocModel>,
    f: FilterModel,
    sets: Seq<(Seq<char>, ValueModel)>,
    i: int,
)
    requires
        0 <= i < docs.len(),
    ensures
        count_changed(docs.take(i + 1), f, sets) == count_changed(docs.take(i), f, sets) + (
        if filter_matches(f, docs[i]) && with_sets(docs[i], sets).fields != docs[i].fields {
            1nat
        } else {
            0nat
        }),
{
    assert(docs.take(i + 1) =~= docs.take(i).push(docs[i]));
    lemma_count_changed_push(docs.take(i), f, sets, docs[i]);
}

/// The empty filter matches every document and leaves nothing over.
pub proof fn lemma_all_filter(docs: Seq<DocModel>)
    ensures
        matching(docs, all_filter()).len() == docs.len(),
        remaining(docs, all_filter()).len() == 0,
    decreases docs.len(),
{
    if docs.len() > 0 {
        lemma_all_filter(docs.drop_last());
        assert(filter_matches(all_filter(), docs.last()));
    }
}

/// Whether every document of a sequence can be read back as a record.
pub open spec fn all_decodable(s: Schema, ds: Seq<DocModel>) -> bool {
    forall|k: int| 0 <= k < ds.len() ==> decodable(s, #[trigger] ds[k])
}

/// One collection of the document store, held in memory: the documents in
/// insertion order, the identity counter, and the indexes provisioned on
/// first write.
#[derive(Clone, Debug)]
pub struct CollectionStore {
    /// The stored documents, in insertion order.
    pub docs: Vec<StoredDoc>,
    /// The lowest identity value never yet generated or stored.
    pub next: u128,
    /// The compiled index requests, once provisioned.
    pub indexes: Option<Vec<IndexModel>>,
}

impl CollectionStore {
    /// The mathematical contents of the collection.
    pub open spec fn docs_model(self) -> Seq<DocModel> {
        Seq::new(self.docs@.len(), |i: int| self.docs@[i].model())
    }

    /// The provisioned index requests, mathematically.
    pub open spec fn indexes_model(self) -> Option<Seq<IndexModelView>> {
        match self.indexes {
            Some(v) => Some(index_models(v@)),
            None => None,
        }
    }

    /// Well-formedness: identities are pairwise distinct, below the
    /// counter, and the counter has room to grow.
    pub open spec fn wf(self) -> bool {
        &&& unique_ids(self.docs_model())
        &&& forall|p: int|
            0 <= p < self.docs_model().len() ==> (#[trigger] self.docs_model()[p]).id.raw
                < self.next
    }

    /// An empty collection. Generated identities start above the zero
    /// value, so a fresh identity never reads as the all-zero one.
    pub fn new() -> (r: CollectionStore)
        ensures
            r.wf(),
            r.docs_model() == Seq::<DocModel>::empty(),
            r.indexes_model() is None,
            r.next == 1,
    {
        let r = CollectionStore { docs: Vec::new(), next: 1, indexes: None };
        proof {
            assert(r.docs_model() =~= Seq::<DocModel>::empty());
        }
        r
    }

    /// Provisions the record type's indexes, idempotently.
    ///
    /// The first call compiles and records the declarations; any later
    /// call leaves them exactly as they are, so repeated provisioning
    /// never fails and never duplicates.
    pub fn ensure_indexes(&mut self, schema: &Schema)
        ensures
            final(self).docs == old(self).docs,
            final(self).next == old(self).next,
            final(self).indexes is Some,
            old(self).indexes is Some ==> final(self).indexes == old(self).indexes,
            old(self).indexes is None ==> final(self).indexes_model() == Some(
                spec_compile_indexes(schema.fields@),
            ),
            final(self).wf() == old(self).wf(),
            final(self).docs_model() == old(self).docs_model(),
    {
        if self.indexes.is_none() {
            self.indexes = Some(compile_indexes(schema));
        }
    }

    /// Whether a document with this identity is stored.
    fn holds_id(&self, id: DocumentId) -> (r: bool)
        ensures
            r == contains_id(self.docs_model(), id),
    {
        let mut k: usize = 0;
        while k < self.docs.len()
            invariant
                0 <= k <= self.docs@.len(),
                forall|p: int| 0 <= p < k ==> (#[trigger] self.docs_model()[p]).id != id,
            decreases self.docs@.len() - k,
        {
            if self.docs[k].id == id {
                proof {
                    assert(self.docs_model()[k as int].id == id);
                }
                return true;
            }
            k += 1;
        }
        false
    }

    /// Counts the documents a filter matches.
    pub fn count(&self, filter: &Filter) -> (r: Result<u64, OximodError>)
        ensures
            r matches Ok(c) && c == matching(self.docs_model(), filter.model()).len(),
    {
        let ghost docs = self.docs_model();
        let ghost f = filter.model();
        let mut c: u64 = 0;
        let mut i: usize = 0;
        while i < self.docs.len()
            invariant
                docs == self.docs_model(),
                f == filter.model(),
                0 <= i <= docs.len(),
                c == matching(docs.take(i as int), f).len(),
                c <= i,
            decreases docs.len() - i,
        {
            proof {
                lemma_matching_take_step(docs, f, i as int);
            }
            if doc_matches(&self.docs[i], filter) {
                c += 1;
            }
            i += 1;
        }
        proof {
            lemma_take_all(docs);
        }
        Ok(c)
    }

    /// Finds every document a filter matches, decoded into records in
    /// store order.
    ///
    /// Succeeds exactly when every matched document can be read back as
    /// a record of the given type; otherwise the first unreadable match
    /// is reported as a serialization error.
    pub fn find(&self, schema: &Schema, filter: &Filter) -> (r: Result<Vec<Record>, OximodError>)
        ensures
            r is Ok <==> all_decodable(*schema, matching(self.docs_model(), filter.model())),
            r matches Ok(v) ==> {
                &&& v@.len() == matching(self.docs_model(), filter.model()).len()
                &&& forall|k: int|
                    0 <= k < v@.len() ==> (#[trigger] v@[k]).model() == decoded(
                        *schema,
                        matching(self.docs_model(), filter.model())[k],
                    )
            },
            r matches Err(e) ==> e is SerializationError,
    {
        let ghost docs = self.docs_model();
        let ghost f = filter.model();
        let mut out: Vec<Record> = Vec::new();
        let mut i: usize = 0;
        while i < self.docs.len()
            invariant
                docs == self.docs_model(),
                f == filter.model(),
                0 <= i <= docs.len(),
                out@.len() == matching(docs.take(i as int), f).len(),
                forall|k: int|
                    0 <= k < out@.len() ==> (#[trigger] out@[k]).model() == decoded(
                        *schema,
                        matching(docs.take(i as int), f)[k],
                    ),
                forall|k: int|
                    0 <= k < matching(docs.take(i as int), f).len() ==> decodable(
                        *schema,
                        #[trigger] matching(docs.take(i as int), f)[k],
                    ),
            decreases docs.len() - i,
        {
            proof {
                lemma_matching_take_step(docs, f, i as int);
            }
            if doc_matches(&self.docs[i], filter) {
                match decode(schema, &self.docs[i]) {
                    Ok(rec) => {
                        out.push(rec);
                    },
                    Err(e) => {
                        proof {
                            lemma_take_all(docs);
                            lemma_matching_contains(docs, f, i as int);
                            let k = choose|k: int|
                                0 <= k < matching(docs, f).len() && #[trigger] matching(docs, f)[k]
                                    == docs[i as int];
                            assert(!decodable(*schema, matching(docs, f)[k]));
                        }
                        return Err(e);
                    },
                }
            }
            i += 1;
        }
        proof {
            lemma_take_all(docs);
        }
        Ok(out)
    }

    /// Finds the first document a filter matches, if any, decoded.
    ///
    /// A collection without a match yields nothing; a first match that
    /// cannot be read back is a serialization error.
    pub fn find_one(&self, schema: &Schema, filter: &Filter) -> (r: Result<
        Option<Record>,
        OximodError,
    >)
        ensures
            matching(self.docs_model(), filter.model()).len() == 0 ==> (r matches Ok(o) && o
                is None),
            matching(self.docs_model(), filter.model()).len() > 0 ==> {
                let first = matching(self.docs_model(), filter.model())[0];
                if decodable(*schema, first) {
                    r matches Ok(o) && o matches Some(rec) && rec.model() == decoded(
                        *schema,
                        first,
                    )
                } else {
                    r matches Err(e) && e is SerializationError
                }
            },
    {
        let ghost docs = self.docs_model();
        let ghost f = filter.model();
        let mut i: usize = 0;
        while i < self.docs.len()
            invariant
                docs == self.docs_model(),
                f == filter.model(),
                0 <= i <= docs.len(),
                forall|p: int| 0 <= p < i ==> !filter_matches(f, #[trigger] docs[p]),
            decreases docs.len() - i,
        {
            if doc_matches(&self.docs[i], filter) {
                proof {
                    assert(is_first_match(docs, f, i as int));
                    lemma_matching_first(docs, f, i as int);
                }
                match decode(schema, &self.docs[i]) {
                    Ok(rec) => {
                        return Ok(Some(rec));
                    },
                    Err(e) => {
                        return Err(e);
                    },
                }
            }
            i += 1;
        }
        proof {
            lemma_matching_empty(docs, f);
        }
        Ok(None)
    }

    /// Finds the document carrying an identity: the by-identity filter
    /// substituted into a one-document find.
    pub fn find_by_id(&self, schema: &Schema, id: DocumentId) -> (r: Result<
        Option<Record>,
        OximodError,
    >)
        ensures
            matching(self.docs_model(), id_filter(id)).len() == 0 ==> (r matches Ok(o) && o
                is None),
            matching(self.docs_model(), id_filter(id)).len() > 0 ==> {
                let first = matching(self.docs_model(), id_filter(id))[0];
                if decodable(*schema, first) {
                    r matches Ok(o) && o matches Some(rec) && rec.model() == decoded(
                        *schema,
                        first,
                    )
                } else {
                    r matches Err(e) && e is SerializationError
                }
            },
    {
        self.find_one(schema, &Filter::for_id(id))
    }

    /// Whether any document matches the filter, through the presence of a
    /// first decoded match.
    pub fn has_match(&self, schema: &Schema, filter: &Filter) -> (r: Result<bool, OximodError>)
        ensures
            matching(self.docs_model(), filter.model()).len() == 0 ==> (r matches Ok(b) && b
                == false),
            matching(self.docs_model(), filter.model()).len() > 0 ==> {
                if decodable(*schema, matching(self.docs_model(), filter.model())[0]) {
                    r matches Ok(b) && b == true
                } else {
                    r matches Err(e) && e is SerializationError
                }
            },
    {
        match self.find_one(schema, filter) {
            Ok(o) => Ok(o.is_some()),
            Err(e) => Err(e),
        }
    }

    /// Persists a record: validates, provisions the indexes once,
    /// serializes, and inserts.
    ///
    /// An invalid record is rejected before anything is written, so no
    /// stored document ever violates the schema's rules. A record that
    /// carries its own identity keeps it; one without gets a fresh
    /// identity never stored before, which the call returns. Writing an
    /// identity the collection already holds is refused by the store.
    pub fn save(&mut self, schema: &Schema, record: &Record) -> (r: Result<
        DocumentId,
        OximodError,
    >)
        requires
            old(self).wf(),
            schema.wf(),
            record.values@.len() == schema.fields@.len(),
            record.id matches Some(d) ==> d.raw < u128::MAX - 1,
            old(self).next < u128::MAX - 1,
        ensures
            final(self).wf(),
            !record_valid(*schema, *record) ==> (r matches Err(e) && e is ValidationError
                && *final(self) == *old(self) && (exists|i: int, j: int|
                #[trigger] crate::validate::fails_at(*schema, *record, i, j)
                    && crate::validate::failure_message_ok(
                    schema.fields@[i].rules@[j],
                    schema.fields@[i].name@,
                    record.values@[i].model(),
                    e->ValidationError_0@,
                ))),
            record_valid(*schema, *record) ==> final(self).indexes_model() == (match old(self).indexes_model() {
                Some(x) => Some(x),
                None => Some(spec_compile_indexes(schema.fields@)),
            }),
            (record_valid(*schema, *record) && (record.id matches Some(d) && contains_id(
                old(self).docs_model(),
                d,
            ))) ==> (r matches Err(e) && e is ConnectionError && final(self).docs_model() == old(self).docs_model()),
            (record_valid(*schema, *record) && (match record.id {
                Some(d) => !contains_id(old(self).docs_model(), d),
                None => true,
            })) ==> (r matches Ok(rid) && (match record.id {
                Some(d) => rid == d,
                None => rid == (DocumentId { raw: old(self).next }) && !contains_id(
                    old(self).docs_model(),
                    rid,
                ),
            }) && final(self).docs_model() == old(self).docs_model().push(
                encoded(*schema, record.model().values, rid),
            )),
    {
        let ghost olddocs = self.docs_model();
        match validate(schema, record) {
            Ok(()) => {},
            Err(e) => {
                return Err(e);
            },
        }
        self.ensure_indexes(schema);
        let rid = match &record.id {
            Some(d) => {
                if self.holds_id(*d) {
                    return Err(
                        OximodError::ConnectionError(
                            String::from_str("a document with this _id is already stored"),
                        ),
                    );
                }
                if d.raw >= self.next {
                    self.next = d.raw + 1;
                }
                *d
            },
            None => {
                let rid = DocumentId { raw: self.next };
                proof {
                    assert(!contains_id(self.docs_model(), rid));
                }
                self.next = self.next + 1;
                rid
            },
        };
        let doc = encode(schema, record, rid);
        let ghost dm = doc.model();
        self.docs.push(doc);
        proof {
            assert(self.docs_model() =~= olddocs.push(dm));
        }
        Ok(rid)
    }

    /// Applies an update to every document a filter matches.
    ///
    /// The outcome reports how many documents matched and how many the
    /// assignments actually changed.
    pub fn update(&mut self, filter: &Filter, u: &Update) -> (r: Result<
        UpdateResult,
        OximodError,
    >)
        requires
            old(self).wf(),
        ensures
            final(self).wf(),
            final(self).next == old(self).next,
            final(self).indexes == old(self).indexes,
            r matches Ok(ur) && ur.matched_count == matching(
                old(self).docs_model(),
                filter.model(),
            ).len() && ur.modified_count == count_changed(
                old(self).docs_model(),
                filter.model(),
                u.model(),
            ) && final(self).docs_model() == update_all(
                old(self).docs_model(),
                filter.model(),
                u.model(),
            ),
    {
        let ghost docs = old(self).docs_model();
        let ghost f = filter.model();
        let ghost um = u.model();
        let mut matched: u64 = 0;
        let mut modified: u64 = 0;
        let mut i: usize = 0;
        while i < self.docs.len()
            invariant
                self.docs@.len() == docs.len(),
                self.next == old(self).next,
                self.indexes == old(self).indexes,
                f == filter.model(),
                um == u.model(),
                0 <= i <= docs.len(),
                forall|p: int| i <= p < docs.len() ==> #[trigger] self.docs_model()[p] == docs[p],
                forall|p: int|
                    0 <= p < i ==> #[trigger] self.docs_model()[p] == update_all(docs, f, um)[p],
                matched == matching(docs.take(i as int), f).len(),
                modified == count_changed(docs.take(i as int), f, um),
                matched <= i,
                modified <= i,
            decreases docs.len() - i,
        {
            proof {
                lemma_matching_take_step(docs, f, i as int);
                lemma_count_changed_take_step(docs, f, um, i as int);
                assert(self.docs_model()[i as int] == docs[i as int]);
            }
            if doc_matches(&self.docs[i], filter) {
                let mut nd = self.docs[i].duplicate();
                apply_update(&mut nd, u);
                if fields_changed(&self.docs[i], &nd) {
                    modified += 1;
                }
                matched += 1;
                let ghost cur = self.docs_model();
                let ghost ndm = nd.model();
                self.docs[i] = nd;
                proof {
                    assert(ndm == with_sets(docs[i as int], um));
                    assert(self.docs_model() =~= cur.update(i as int, ndm));
                }
            }
            i += 1;
        }
        proof {
            lemma_take_all(docs);
            assert(self.docs_model() =~= update_all(docs, f, um));
            assert forall|p: int| 0 <= p < self.docs_model().len() implies (
            #[trigger] self.docs_model()[p]).id == docs[p].id by {
                if filter_matches(f, docs[p]) {
                    assert(self.docs_model()[p] == with_sets(docs[p], um));
                }
            }
        }
        Ok(UpdateResult { matched_count: matched, modified_count: modified })
    }

    /// Applies an update to the first document a filter matches, if any.
    pub fn update_one(&mut self, filter: &Filter, u: &Update) -> (r: Result<
        UpdateResult,
        OximodError,
    >)
        requires
            old(self).wf(),
        ensures
            final(self).wf(),
            final(self).next == old(self).next,
            final(self).indexes == old(self).indexes,
            matching(old(self).docs_model(), filter.model()).len() == 0 ==> (r matches Ok(ur) && ur
                == (UpdateResult { matched_count: 0, modified_count: 0 }) && final(self).docs_model() == old(self).docs_model()),
            matching(old(self).docs_model(), filter.model()).len() > 0 ==> (exists|m: int|
                {
                    &&& #[trigger] is_first_match(old(self).docs_model(), filter.model(), m)
                    &&& r matches Ok(ur) && ur.matched_count == 1 && ur.modified_count == (
                    if with_sets(old(self).docs_model()[m], u.model()).fields != old(self).docs_model()[m].fields {
                        1int
                    } else {
                        0int
                    })
                    &&& final(self).docs_model() == old(self).docs_model().update(
                        m,
                        with_sets(old(self).docs_model()[m], u.model()),
                    )
                }),
    {
        let ghost docs = old(self).docs_model();
        let ghost f = filter.model();
        let ghost um = u.model();
        let mut i: usize = 0;
        while i < self.docs.len()
            invariant
                old(self).wf(),
                *self == *old(self),
                docs == self.docs_model(),
                f == filter.model(),
                um == u.model(),
                0 <= i <= docs.len(),
                forall|p: int| 0 <= p < i ==> !filter_matches(f, #[trigger] docs[p]),
            decreases docs.len() - i,
        {
            if doc_matches(&self.docs[i], filter) {
                proof {
                    assert(is_first_match(docs, f, i as int));
                    lemma_matching_first(docs, f, i as int);
                }
                let mut nd = self.docs[i].duplicate();
                apply_update(&mut nd, u);
                let changed = fields_changed(&self.docs[i], &nd);
                let ghost ndm = nd.model();
                self.docs[i] = nd;
                proof {
                    assert(self.docs_model() =~= docs.update(i as int, ndm));
                    assert(ndm.id == docs[i as int].id);
                    assert(unique_ids(docs));
                    assert(forall|q: int|
                        0 <= q < docs.len() ==> (#[trigger] docs[q]).id.raw < old(self).next);
                    assert forall|a: int, b: int|
                        0 <= a < b < self.docs_model().len() implies (
                    #[trigger] self.docs_model()[a]).id != (#[trigger] self.docs_model()[b]).id by {
                        assert(docs[a].id != docs[b].id);
                        assert(self.docs_model()[a].id == docs[a].id);
                        assert(self.docs_model()[b].id == docs[b].id);
                    }
                    assert forall|p: int| 0 <= p < self.docs_model().len() implies (
                    #[trigger] self.docs_model()[p]).id.raw < self.next by {
                        assert(docs[p].id.raw < old(self).next);
                        assert(self.docs_model()[p].id == docs[p].id);
                    }
                }
                let modified: u64 = if changed {
                    1
                } else {
                    0
                };
                return Ok(UpdateResult { matched_count: 1, modified_count: modified });
            }
            i += 1;
        }
        proof {
            lemma_matching_empty(docs, f);
        }
        Ok(UpdateResult { matched_count: 0, modified_count: 0 })
    }

    /// Applies an update to the document carrying an identity: the
    /// by-identity filter substituted into a one-document update.
    pub fn update_by_id(&mut self, id: DocumentId, u: &Update) -> (r: Result<
        UpdateResult,
        OximodError,
    >)
        requires
            old(self).wf(),
        ensures
            final(self).wf(),
            matching(old(self).docs_model(), id_filter(id)).len() == 0 ==> (r matches Ok(ur) && ur
                == (UpdateResult { matched_count: 0, modified_count: 0 }) && final(self).docs_model() == old(self).docs_model()),
            matching(old(self).docs_model(), id_filter(id)).len() > 0 ==> (exists|m: int|
                {
                    &&& #[trigger] is_first_match(old(self).docs_model(), id_filter(id), m)
                    &&& r matches Ok(ur) && ur.matched_count == 1
                    &&& final(self).docs_model() == old(self).docs_model().update(
                        m,
                        with_sets(old(self).docs_model()[m], u.model()),
                    )
                }),
    {
        self.update_one(&Filter::for_id(id), u)
    }

    /// Deletes every document a filter matches.
    pub fn delete(&mut self, filter: &Filter) -> (r: Result<DeleteResult, OximodError>)
        requires
            old(self).wf(),
        ensures
            final(self).wf(),
            final(self).next == old(self).next,
            final(self).indexes == old(self).indexes,
            r matches Ok(dr) && dr.deleted_count == matching(
                old(self).docs_model(),
                filter.model(),
            ).len() && final(self).docs_model() == remaining(
                old(self).docs_model(),
                filter.model(),
            ),
    {
        let ghost docs = old(self).docs_model();
        let ghost f = filter.model();
        let mut kept: Vec<StoredDoc> = Vec::new();
        let mut deleted: u64 = 0;
        let mut i: usize = 0;
        while i < self.docs.len()
            invariant
                *self == *old(self),
                docs == self.docs_model(),
                f == filter.model(),
                0 <= i <= docs.len(),
                Seq::new(kept@.len(), |q: int| kept@[q].model()) == remaining(
                    docs.take(i as int),
                    f,
                ),
                deleted == matching(docs.take(i as int), f).len(),
                deleted <= i,
            decreases docs.len() - i,
        {
            proof {
                lemma_matching_take_step(docs, f, i as int);
            }
            let ghost pre = Seq::new(kept@.len(), |q: int| kept@[q].model());
            if doc_matches(&self.docs[i], filter) {
                deleted += 1;
            } else {
                kept.push(self.docs[i].duplicate());
                proof {
                    assert(Seq::new(kept@.len(), |q: int| kept@[q].model()) =~= pre.push(
                        docs[i as int],
                    ));
                }
            }
            i += 1;
        }
        self.docs = kept;
        proof {
            lemma_take_all(docs);
            assert(self.docs_model() =~= remaining(docs, f));
            lemma_remaining_unique(docs, f);
            lemma_remaining_ids_bounded(docs, f, self.next as int);
        }
        Ok(DeleteResult { deleted_count: deleted })
    }

    /// Deletes the first document a filter matches, if any.
    pub fn delete_one(&mut self, filter: &Filter) -> (r: Result<DeleteResult, OximodError>)
        requires
            old(self).wf(),
        ensures
            final(self).wf(),
            final(self).next == old(self).next,
            final(self).indexes == old(self).indexes,
            matching(old(self).docs_model(), filter.model()).len() == 0 ==> (r matches Ok(dr) && dr
                == (DeleteResult { deleted_count: 0 }) && final(self).docs_model() == old(self).docs_model()),
            matching(old(self).docs_model(), filter.model()).len() > 0 ==> (exists|m: int|
                {
                    &&& #[trigger] is_first_match(old(self).docs_model(), filter.model(), m)
                    &&& r matches Ok(dr) && dr == (DeleteResult { deleted_count: 1 })
                    &&& final(self).docs_model() == old(self).docs_model().remove(m)
                }),
    {
        let ghost docs = old(self).docs_model();
        let ghost f = filter.model();
        let mut i: usize = 0;
        while i < self.docs.len()
            invariant
                old(self).wf(),
                *self == *old(self),
                docs == self.docs_model(),
                f == filter.model(),
                0 <= i <= docs.len(),
                forall|p: int| 0 <= p < i ==> !filter_matches(f, #[trigger] docs[p]),
            decreases docs.len() - i,
        {
            if doc_matches(&self.docs[i], filter) {
                proof {
                    assert(is_first_match(docs, f, i as int));
                    lemma_matching_first(docs, f, i as int);
                }
                self.docs.remove(i);
                proof {
                    assert(self.docs_model() =~= docs.remove(i as int));
                    docs.remove_ensures(i as int);
                    assert(unique_ids(docs));
                    assert(forall|q: int|
                        0 <= q < docs.len() ==> (#[trigger] docs[q]).id.raw < old(self).next);
                    assert forall|a: int, b: int|
                        0 <= a < b < self.docs_model().len() implies (
                    #[trigger] self.docs_model()[a]).id != (#[trigger] self.docs_model()[b]).id by {
                        let oa: int = if a < i { a } else { a + 1 };
                        let ob: int = if b < i { b } else { b + 1 };
                        assert(docs.remove(i as int)[a] == docs[oa]);
                        assert(docs.remove(i as int)[b] == docs[ob]);
                        assert(docs[oa].id != docs[ob].id);
                    }
                    assert forall|p: int| 0 <= p < self.docs_model().len() implies (
                    #[trigger] self.docs_model()[p]).id.raw < self.next by {
                        let op: int = if p < i { p } else { p + 1 };
                        assert(docs.remove(i as int)[p] == docs[op]);
                        assert(docs[op].id.raw < old(self).next);
                    }
                }
                return Ok(DeleteResult { deleted_count: 1 });
            }
            i += 1;
        }
        proof {
            lemma_matching_empty(docs, f);
        }
        Ok(DeleteResult { deleted_count: 0 })
    }

    /// Deletes the document carrying an identity: the by-identity filter
    /// substituted into a one-document delete.
    pub fn delete_by_id(&mut self, id: DocumentId) -> (r: Result<DeleteResult, OximodError>)
        requires
            old(self).wf(),
        ensures
            final(self).wf(),
            matching(old(self).docs_model(), id_filter(id)).len() == 0 ==> (r matches Ok(dr) && dr
                == (DeleteResult { deleted_count: 0 }) && final(self).docs_model() == old(self).docs_model()),
            matching(old(self).docs_model(), id_filter(id)).len() > 0 ==> (exists|m: int|
                {
                    &&& #[trigger] is_first_match(old(self).docs_model(), id_filter(id), m)
                    &&& r matches Ok(dr) && dr == (DeleteResult { deleted_count: 1 })
                    &&& final(self).docs_model() == old(self).docs_model().remove(m)
                }),
    {
        self.delete_one(&Filter::for_id(id))
    }

    /// Empties the collection: a delete with the empty filter.
    ///
    /// The outcome reports exactly how many documents were stored, and a
    /// count right after yields zero.
    pub fn clear(&mut self) -> (r: Result<DeleteResult, OximodError>)
        requires
            old(self).wf(),
        ensures
            final(self).wf(),
            r matches Ok(dr) && dr.deleted_count == old(self).docs_model().len(),
            final(self).docs_model().len() == 0,
    {
        proof {
            lemma_all_filter(old(self).docs_model());
        }
        self.delete(&Filter::all())
    }
}

/// Law: saving a record and then finding by the returned identity yields
/// a record equal on all fields.
///
/// After a save pushes the encoded record under a fresh identity, the
/// by-identity filter matches exactly that document, and decoding it
/// restores every field of the saved record, with the returned identity.
pub proof fn lemma_save_then_find_by_id(
    s: Schema,
    values: Seq<ValueModel>,
    docs: Seq<DocModel>,
    rid: DocumentId,
)
    requires
        s.wf(),
        values.len() == s.fields@.len(),
        forall|i: int|
            0 <= i < s.fields@.len() ==> value_fits(
                #[trigger] values[i],
                s.fields@[i].kind,
                s.fields@[i].optional,
            ),
        !contains_id(docs, rid),
    ensures
        matching(docs.push(encoded(s, values, rid)), id_filter(rid)).len() == 1,
        matching(docs.push(encoded(s, values, rid)), id_filter(rid))[0] == encoded(s, values, rid),
        decodable(s, encoded(s, values, rid)),
        decoded(s, encoded(s, values, rid)).values =~= values,
        decoded(s, encoded(s, values, rid)).id == Some(rid),
{
    let d = encoded(s, values, rid);
    assert(filter_matches(id_filter(rid), d));
    assert forall|p: int| 0 <= p < docs.len() implies !filter_matches(
        id_filter(rid),
        #[trigger] docs[p],
    ) by {
        assert(docs[p].id != rid);
    }
    lemma_matching_empty(docs, id_filter(rid));
    lemma_matching_push(docs, id_filter(rid), d);
    lemma_encode_decode_roundtrip(s, values, rid);
}

/// Law: deleting by an identity and then finding by the same identity
/// yields no result.
///
/// With pairwise distinct identities, the document a by-identity delete
/// removes was the only one carrying the identity, so the by-identity
/// filter matches nothing afterwards.
pub proof fn lemma_delete_by_id_then_find_by_id(docs: Seq<DocModel>, id: DocumentId, m: int)
    requires
        unique_ids(docs),
        is_first_match(docs, id_filter(id), m),
    ensures
        matching(docs.remove(m), id_filter(id)).len() == 0,
{
    docs.remove_ensures(m);
    assert forall|p: int| 0 <= p < docs.remove(m).len() implies !filter_matches(
        id_filter(id),
        #[trigger] docs.remove(m)[p],
    ) by {
        let op: int = if p < m {
            p
        } else {
            p + 1
        };
        assert(docs.remove(m)[p] == docs[op]);
        assert(docs[m].id == id);
        assert(docs[op].id != docs[m].id);
    }
    lemma_matching_empty(docs.remove(m), id_filter(id));
}

/// Law: an update whose assignments change every matched document
/// modifies exactly as many documents as the filter matches; a
/// one-document update then reports one matched, one modified.
pub proof fn lemma_update_modifies_all_matches(
    docs: Seq<DocModel>,
    f: FilterModel,
    sets: Seq<(Seq<char>, ValueModel)>,
)
    requires
        forall|i: int|
            0 <= i < docs.len() && filter_matches(f, #[trigger] docs[i]) ==> with_sets(
                docs[i],
                sets,
            ).fields != docs[i].fields,
    ensures
        count_changed(docs, f, sets) == matching(docs, f).len(),
    decreases docs.len(),
{
    if docs.len() > 0 {
        assert forall|i: int|
            0 <= i < docs.drop_last().len() && filter_matches(
                f,
                #[trigger] docs.drop_last()[i],
            ) implies with_sets(docs.drop_last()[i], sets).fields != docs.drop_last()[i].fields by {
            assert(docs.drop_last()[i] == docs[i]);
        }
        lemma_update_modifies_all_matches(docs.drop_last(), f, sets);
        assert(docs.last() == docs[docs.len() - 1]);
    }
}

/// Law: clearing a collection deletes exactly as many documents as it
/// held, and a count with the empty filter right after yields zero.
pub proof fn lemma_clear_then_count(f: FilterModel)
    ensures
        matching(Seq::<DocModel>::empty(), f).len() == 0,
{
}

} // verus!
