//! The index specification compiler.
//!
//! Each field may declare one secondary index. Compilation normalizes
//! the declaration into the store's index request shape: the sort order
//! defaults to ascending, the boolean switches default to off, and the
//! optional custom name and expiry carry over unchanged. The requests
//! for a record type are compiled in field declaration order.

use vstd::prelude::*;
use crate::schema::{IndexArgs, IndexDefinition, Schema};

verus! {

/// A store index-creation request for one field.
#[derive(Clone, Debug)]
pub struct IndexModel {
    /// The indexed field's name.
    pub field: String,
    /// Sort order: `1` ascending, `-1` descending.
    pub order: i32,
    /// Reject documents that duplicate an indexed value.
    pub unique: bool,
    /// Leave documents without the field out of the index.
    pub sparse: bool,
    /// Build the index without blocking other operations.
    pub background: bool,
    /// The custom index name, if declared.
    pub name: Option<String>,
    /// Expire documents this many seconds after the indexed timestamp.
    pub expire_after_secs: Option<i32>,
}

/// Mathematical model of an index request.
pub ghost struct IndexModelView {
    pub field: Seq<char>,
    pub order: int,
    pub unique: bool,
    pub sparse: bool,
    pub background: bool,
    pub name: Option<Seq<char>>,
    pub expire_after_secs: Option<int>,
}

impl IndexModel {
    /// The mathematical request this value stands for.
    pub open spec fn model(self) -> IndexModelView {
        IndexModelView {
            field: self.field@,
            order: self.order as int,
            unique: self.unique,
            sparse: self.sparse,
            background: self.background,
            name: match self.name {
                Some(n) => Some(n@),
                None => None,
            },
            expire_after_secs: match self.expire_after_secs {
                Some(e) => Some(e as int),
                None => None,
            },
        }
    }
}

/// The request one declaration compiles to: order defaults to ascending,
/// switches default to off.
pub open spec fn spec_compile_one(field: Seq<char>, args: IndexArgs) -> IndexModelView {
    IndexModelView {
        field,
        order: match args.order {
            Some(o) => o as int,
            None => 1,
        },
        unique: match args.unique {
            Some(b) => b,
            None => false,
        },
        sparse: match args.sparse {
            Some(b) => b,
            None => false,
        },
        background: match args.background {
            Some(b) => b,
            None => false,
        },
        name: match args.name {
            Some(n) => Some(n@),
            None => None,
        },
        expire_after_secs: match args.expire_after_secs {
            Some(e) => Some(e as int),
            None => None,
        },
    }
}

/// Compiles one field's index declaration.
pub fn compile_index(field: &String, args: &IndexArgs) -> (m: IndexModel)
    ensures
        m.model() == spec_compile_one(field@, *args),
{
    IndexModel {
        field: field.clone(),
        order: match args.order {
            Some(o) => o,
            None => 1,
        },
        unique: match args.unique {
            Some(b) => b,
            None => false,
        },
        sparse: match args.sparse {
            Some(b) => b,
            None => false,
        },
        background: match args.background {
            Some(b) => b,
            None => false,
        },
        name: match &args.name {
            Some(n) => Some(n.clone()),
            None => None,
        },
        expire_after_secs: match args.expire_after_secs {
            Some(e) => Some(e),
            None => None,
        },
    }
}

/// Compiles one named index declaration.
pub fn compile_definition(def: &IndexDefinition) -> (m: IndexModel)
    ensures
        m.model() == spec_compile_one(def.field_name@, def.args),
{
    compile_index(&def.field_name, &def.args)
}

/// The index requests a record type compiles to, in field declaration
/// order; fields without a declaration contribute nothing.
pub open spec fn spec_compile_indexes(
    fields: Seq<crate::schema::FieldDescriptor>,
) -> Seq<IndexModelView>
    decreases fields.len(),
{
    if fields.len() == 0 {
        Seq::empty()
    } else {
        spec_compile_indexes(fields.drop_last()) + (match fields.last().index {
            Some(args) => seq![spec_compile_one(fields.last().name@, args)],
            None => Seq::empty(),
        })
    }
}

/// The models of a compiled request list.
pub open spec fn index_models(s: Seq<IndexModel>) -> Seq<IndexModelView> {
    Seq::new(s.len(), |i: int| s[i].model())
}

/// Compiles every index declaration of a record type.
pub fn compile_indexes(schema: &Schema) -> (r: Vec<IndexModel>)
    ensures
        index_models(r@) == spec_compile_indexes(schema.fields@),
{
    let mut r: Vec<IndexModel> = Vec::new();
    let mut i: usize = 0;
    while i < schema.fields.len()
        invariant
            0 <= i <= schema.fields@.len(),
            index_models(r@) == spec_compile_indexes(schema.fields@.take(i as int)),
        decreases schema.fields@.len() - i,
    {
        let ghost pre = r@;
        let f = &schema.fields[i];
        if let Some(args) = &f.index {
            let m = compile_index(&f.name, args);
            r.push(m);
        }
        proof {
            assert(schema.fields@.take(i + 1).drop_last() =~= schema.fields@.take(i as int));
            assert(schema.fields@.take(i + 1).last() == schema.fields@[i as int]);
            assert(index_models(r@) =~= spec_compile_indexes(schema.fields@.take(i + 1)));
        }
        i += 1;
    }
    proof {
        assert(schema.fields@.take(schema.fields@.len() as int) =~= schema.fields@);
    }
    r
}

} // verus!
