//! Typed filter and update expressions.
//!
//! A filter is a conjunction: an optional identity condition plus any
//! number of field conditions, each comparing the value stored under a
//! key against a given value. An update is an ordered list of field
//! assignments, applied in order: an assignment rewrites the first pair
//! carrying its key, or appends the pair when the document lacks the
//! key. The CRUD translator passes both through untouched; only the
//! by-identity operations substitute the `{_id: id}` condition.

use vstd::prelude::*;
use crate::document::{DocModel, StoredDoc, lookup, lookup_value, set_key, set_value};
use crate::value::{DocumentId, FieldValue, ValueModel, value_eq};

verus! {

/// How a field condition compares the stored value to its operand.
#[derive(Clone, Copy, PartialEq, Eq, Structural, Debug)]
pub enum CondOp {
    /// The stored value equals the operand.
    Equal,
    /// Both are integers and the stored value is at least the operand.
    GreaterOrEqual,
    /// Both are integers and the stored value exceeds the operand.
    Greater,
    /// Both are integers and the stored value is at most the operand.
    LessOrEqual,
    /// Both are integers and the stored value is below the operand.
    Less,
}

/// Mathematical model of one field condition.
pub ghost struct CondModel {
    pub field: Seq<char>,
    pub op: CondOp,
    pub value: ValueModel,
}

/// One field condition of a filter.
#[derive(Clone, Debug)]
pub struct FieldCond {
    pub field: String,
    pub op: CondOp,
    pub value: FieldValue,
}

impl FieldCond {
    /// The mathematical condition this value stands for.
    pub open spec fn model(self) -> CondModel {
        CondModel { field: self.field@, op: self.op, value: self.value.model() }
    }
}

/// Mathematical model of a filter.
pub ghost struct FilterModel {
    pub by_id: Option<DocumentId>,
    pub conds: Seq<CondModel>,
}

/// The filter of a by-identity operation: `{_id: id}` and nothing else.
pub open spec fn id_filter(id: DocumentId) -> FilterModel {
    FilterModel { by_id: Some(id), conds: Seq::empty() }
}

/// The empty filter, matching every document.
pub open spec fn all_filter() -> FilterModel {
    FilterModel { by_id: None, conds: Seq::empty() }
}

/// A typed filter expression: a conjunction of conditions.
#[derive(Clone, Debug)]
pub struct Filter {
    /// The document identity to match, if the filter is by identity.
    pub by_id: Option<DocumentId>,
    /// The field conditions, all of which must hold.
    pub conds: Vec<FieldCond>,
}

impl Filter {
    /// The mathematical filter this value stands for.
    pub open spec fn model(self) -> FilterModel {
        FilterModel {
            by_id: self.by_id,
            conds: Seq::new(self.conds@.len(), |i: int| self.conds@[i].model()),
        }
    }

    /// The empty filter: matches every document.
    pub fn all() -> (r: Filter)
        ensures
            r.model() == all_filter(),
    {
        let r = Filter { by_id: None, conds: Vec::new() };
        proof {
            assert(r.model().conds =~= all_filter().conds);
        }
        r
    }

    /// The by-identity filter `{_id: id}`.
    pub fn for_id(id: DocumentId) -> (r: Filter)
        ensures
            r.model() == id_filter(id),
    {
        let r = Filter { by_id: Some(id), conds: Vec::new() };
        proof {
            assert(r.model().conds =~= id_filter(id).conds);
        }
        r
    }

    /// Adds an equality condition on a field.
    pub fn field_eq(self, name: &str, v: FieldValue) -> (r: Filter)
        ensures
            r.model().by_id == self.model().by_id,
            r.model().conds == self.model().conds.push(
                CondModel { field: name@, op: CondOp::Equal, value: v.model() },
            ),
    {
        self.field_cmp(name, CondOp::Equal, v)
    }

    /// Adds a comparison condition on a field.
    pub fn field_cmp(self, name: &str, op: CondOp, v: FieldValue) -> (r: Filter)
        ensures
            r.model().by_id == self.model().by_id,
            r.model().conds == self.model().conds.push(
                CondModel { field: name@, op, value: v.model() },
            ),
    {
        let mut conds = self.conds;
        conds.push(FieldCond { field: String::from_str(name), op, value: v });
        let r = Filter { by_id: self.by_id, conds };
        proof {
            assert(r.model().conds =~= self.model().conds.push(
                CondModel { field: name@, op, value: v.model() },
            ));
        }
        r
    }
}

/// Whether one condition holds of a document.
pub open spec fn cond_holds(d: DocModel, c: CondModel) -> bool {
    let x = lookup(d.fields, c.field);
    match c.op {
        CondOp::Equal => x == c.value,
        CondOp::GreaterOrEqual => x matches ValueModel::Int(a) && c.value matches ValueModel::Int(
            b,
        ) && a >= b,
        CondOp::Greater => x matches ValueModel::Int(a) && c.value matches ValueModel::Int(b) && a
            > b,
        CondOp::LessOrEqual => x matches ValueModel::Int(a) && c.value matches ValueModel::Int(b)
            && a <= b,
        CondOp::Less => x matches ValueModel::Int(a) && c.value matches ValueModel::Int(b) && a
            < b,
    }
}

/// Whether a filter matches a document: the identity condition, if any,
/// and every field condition hold.
pub open spec fn filter_matches(f: FilterModel, d: DocModel) -> bool {
    &&& match f.by_id {
        Some(id) => d.id == id,
        None => true,
    }
    &&& forall|k: int| 0 <= k < f.conds.len() ==> cond_holds(d, #[trigger] f.conds[k])
}

/// Decides one condition on a document.
fn cond_holds_exec(doc: &StoredDoc, c: &FieldCond) -> (r: bool)
    ensures
        r == cond_holds(doc.model(), c.model()),
{
    let x = lookup_value(doc, &c.field);
    match c.op {
        CondOp::Equal => value_eq(&x, &c.value),
        CondOp::GreaterOrEqual => match (&x, &c.value) {
            (FieldValue::Int(a), FieldValue::Int(b)) => *a >= *b,
            _ => false,
        },
        CondOp::Greater => match (&x, &c.value) {
            (FieldValue::Int(a), FieldValue::Int(b)) => *a > *b,
            _ => false,
        },
        CondOp::LessOrEqual => match (&x, &c.value) {
            (FieldValue::Int(a), FieldValue::Int(b)) => *a <= *b,
            _ => false,
        },
        CondOp::Less => match (&x, &c.value) {
            (FieldValue::Int(a), FieldValue::Int(b)) => *a < *b,
            _ => false,
        },
    }
}

/// Decides a filter on a document.
pub fn doc_matches(doc: &StoredDoc, f: &Filter) -> (r: bool)
    ensures
        r == filter_matches(f.model(), doc.model()),
{
    if let Some(id) = &f.by_id {
        if doc.id != *id {
            return false;
        }
    }
    let mut k: usize = 0;
    while k < f.conds.len()
        invariant
            0 <= k <= f.conds@.len(),
            forall|p: int| 0 <= p < k ==> cond_holds(doc.model(), #[trigger] f.model().conds[p]),
            match f.by_id {
                Some(id) => doc.id == id,
                None => true,
            },
        decreases f.conds@.len() - k,
    {
        if !cond_holds_exec(doc, &f.conds[k]) {
            proof {
                assert(f.model().conds[k as int] == f.conds@[k as int].model());
                assert(!cond_holds(doc.model(), f.model().conds[k as int]));
            }
            return false;
        }
        k += 1;
    }
    true
}

/// A typed update expression: ordered field assignments.
#[derive(Clone, Debug)]
pub struct Update {
    /// The assignments, applied in order.
    pub sets: Vec<(String, FieldValue)>,
}

impl Update {
    /// The mathematical update this value stands for.
    pub open spec fn model(self) -> Seq<(Seq<char>, ValueModel)> {
        Seq::new(self.sets@.len(), |i: int| (self.sets@[i].0@, self.sets@[i].1.model()))
    }

    /// The empty update, which leaves any document unchanged.
    pub fn new() -> (r: Update)
        ensures
            r.model() == Seq::<(Seq<char>, ValueModel)>::empty(),
    {
        let r = Update { sets: Vec::new() };
        proof {
            assert(r.model() =~= Seq::<(Seq<char>, ValueModel)>::empty());
        }
        r
    }

    /// Appends one field assignment.
    pub fn set_field(self, name: &str, v: FieldValue) -> (r: Update)
        ensures
            r.model() == self.model().push((name@, v.model())),
    {
        let mut sets = self.sets;
        let ghost pre = self.model();
        sets.push((String::from_str(name), v));
        let r = Update { sets };
        proof {
            assert(r.model() =~= pre.push((name@, v.model())));
        }
        r
    }
}

/// The fields of a document after an ordered list of assignments.
pub open spec fn apply_sets(
    fields: Seq<(Seq<char>, ValueModel)>,
    sets: Seq<(Seq<char>, ValueModel)>,
) -> Seq<(Seq<char>, ValueModel)>
    decreases sets.len(),
{
    if sets.len() == 0 {
        fields
    } else {
        apply_sets(set_key(fields, sets[0].0, sets[0].1), sets.drop_first())
    }
}

/// A document after an update: same identity, assigned fields.
pub open spec fn with_sets(d: DocModel, sets: Seq<(Seq<char>, ValueModel)>) -> DocModel {
    DocModel { id: d.id, fields: apply_sets(d.fields, sets) }
}

/// Appending one assignment applies it after the others.
pub proof fn lemma_apply_sets_push(
    fields: Seq<(Seq<char>, ValueModel)>,
    sets: Seq<(Seq<char>, ValueModel)>,
    x: (Seq<char>, ValueModel),
)
    ensures
        apply_sets(fields, sets.push(x)) == set_key(apply_sets(fields, sets), x.0, x.1),
    decreases sets.len(),
{
    if sets.len() == 0 {
        let e = sets.push(x).drop_first();
        assert(e =~= Seq::<(Seq<char>, ValueModel)>::empty());
        assert(sets.push(x)[0] == x);
        assert(apply_sets(fields, sets.push(x)) == apply_sets(set_key(fields, x.0, x.1), e));
        assert(apply_sets(set_key(fields, x.0, x.1), e) == set_key(fields, x.0, x.1));
        assert(apply_sets(fields, sets) == fields);
    } else {
        assert(sets.push(x).drop_first() =~= sets.drop_first().push(x));
        assert(sets.push(x)[0] == sets[0]);
        assert(apply_sets(fields, sets.push(x)) == apply_sets(
            set_key(fields, sets[0].0, sets[0].1),
            sets.drop_first().push(x),
        ));
        lemma_apply_sets_push(set_key(fields, sets[0].0, sets[0].1), sets.drop_first(), x);
        assert(apply_sets(fields, sets) == apply_sets(
            set_key(fields, sets[0].0, sets[0].1),
            sets.drop_first(),
        ));
    }
}

/// Applies an update to a document in place.
pub fn apply_update(doc: &mut StoredDoc, u: &Update)
    ensures
        final(doc).model() == with_sets(old(doc).model(), u.model()),
{
    let ghost orig = doc.model();
    let mut k: usize = 0;
    while k < u.sets.len()
        invariant
            0 <= k <= u.sets@.len(),
            doc.id == old(doc).id,
            doc.model().fields == apply_sets(orig.fields, u.model().take(k as int)),
            orig == old(doc).model(),
        decreases u.sets@.len() - k,
    {
        let v = u.sets[k].1.duplicate();
        proof {
            assert(u.model().take(k + 1) =~= u.model().take(k as int).push(u.model()[k as int]));
            lemma_apply_sets_push(orig.fields, u.model().take(k as int), u.model()[k as int]);
        }
        set_value(doc, &u.sets[k].0, v);
        k += 1;
    }
    proof {
        assert(u.model().take(u.sets@.len() as int) =~= u.model());
    }
}

/// Decides whether two documents hold different fields.
pub fn fields_changed(a: &StoredDoc, b: &StoredDoc) -> (r: bool)
    ensures
        r == (a.model().fields != b.model().fields),
{
    if a.fields.len() != b.fields.len() {
        return true;
    }
    let mut k: usize = 0;
    while k < a.fields.len()
        invariant
            a.fields@.len() == b.fields@.len(),
            0 <= k <= a.fields@.len(),
            forall|p: int|
                0 <= p < k ==> (#[trigger] a.model().fields[p]) == b.model().fields[p],
        decreases a.fields@.len() - k,
    {
        if !(a.fields[k].0 == b.fields[k].0) || !value_eq(&a.fields[k].1, &b.fields[k].1) {
            proof {
                assert(a.model().fields[k as int] != b.model().fields[k as int]);
            }
            return true;
        }
        k += 1;
    }
    proof {
        assert(a.model().fields =~= b.model().fields);
    }
    false
}

} // verus!
