//! Declarative schema of a record type.
//!
//! A [`Schema`] is built once per entity and names the target database and
//! collection, plus one [`FieldDescriptor`] per field: its kind, whether it
//! is optional, an optional default value, an ordered rule list, and an
//! optional secondary-index declaration. Malformed declarations (a rule on
//! a field kind it cannot apply to, a default of the wrong kind, an index
//! order other than plus or minus one, a duplicate or reserved field name)
//! are rejected when the schema is built, not when records flow through it.

use vstd::prelude::*;
use crate::value::{FieldValue, ValueModel};
use crate::errors::OximodError;
use crate::strings::cat3;

verus! {

/// The kind of data a field holds.
#[derive(Clone, Copy, PartialEq, Eq, Structural, Debug)]
pub enum FieldKind {
    /// A textual field.
    Text,
    /// A signed integer field.
    Int,
    /// A boolean field.
    Flag,
}

/// A single declared validation rule.
#[derive(Clone, Debug)]
pub enum ValidationRule {
    /// The text must have at least this many characters.
    MinLength(u32),
    /// The text must have at most this many characters.
    MaxLength(u32),
    /// The optional field must carry a value.
    Required,
    /// The text must look like an email address: exactly one `@`, both
    /// sides non-empty, and a `.` somewhere after the `@`.
    Email,
    /// The text must match this regular expression.
    Pattern(String),
    /// The field must carry a value that is not blank after trimming.
    NonEmpty,
    /// The integer must be strictly greater than zero.
    Positive,
    /// The integer must be strictly less than zero.
    Negative,
    /// The integer must be at least zero.
    NonNegative,
    /// The integer must be at least this bound (inclusive).
    Min(i64),
    /// The integer must be at most this bound (inclusive).
    Max(i64),
}

/// Arguments of one field's validation declaration.
///
/// Every member is optional; a value of `None` (or `Some(false)` for the
/// boolean switches) declares no rule. [`rules_of_args`] compiles the
/// arguments into the ordered rule list the validation engine evaluates.
#[derive(Clone, Debug)]
pub struct ValidateArgs {
    pub min_length: Option<u32>,
    pub max_length: Option<u32>,
    pub required: Option<bool>,
    pub email: Option<bool>,
    pub pattern: Option<String>,
    pub non_empty: Option<bool>,
    pub positive: Option<bool>,
    pub negative: Option<bool>,
    pub non_negative: Option<bool>,
    pub min: Option<i64>,
    pub max: Option<i64>,
}

impl Default for ValidateArgs {
    /// An empty declaration: no rule at all.
    fn default() -> (r: Self)
        ensures
            r.min_length is None,
            r.max_length is None,
            r.required is None,
            r.email is None,
            r.pattern is None,
            r.non_empty is None,
            r.positive is None,
            r.negative is None,
            r.non_negative is None,
            r.min is None,
            r.max is None,
    {
        ValidateArgs {
            min_length: None,
            max_length: None,
            required: None,
            email: None,
            pattern: None,
            non_empty: None,
            positive: None,
            negative: None,
            non_negative: None,
            min: None,
            max: None,
        }
    }
}

/// A validation declaration attached to a named field.
#[derive(Clone, Debug)]
pub struct ValidateDefinition {
    pub field_name: String,
    pub args: ValidateArgs,
}

impl ValidateDefinition {
    /// Compiles the declaration: the field it names, with its ordered
    /// rule list.
    pub fn compile(self) -> (r: (String, Vec<ValidationRule>))
        ensures
            r.0@ == self.field_name@,
            r.1@ == spec_rules_of_args(self.args),
    {
        let ValidateDefinition { field_name, args } = self;
        (field_name, rules_of_args(args))
    }
}

/// Arguments of one field's secondary-index declaration.
#[derive(Clone, Debug)]
pub struct IndexArgs {
    /// Reject documents that duplicate an indexed value.
    pub unique: Option<bool>,
    /// Leave documents without the field out of the index.
    pub sparse: Option<bool>,
    /// A custom index name.
    pub name: Option<String>,
    /// Build the index without blocking other operations.
    pub background: Option<bool>,
    /// Sort order of the index: `1` ascending, `-1` descending.
    pub order: Option<i32>,
    /// Expire documents this many seconds after the indexed timestamp.
    pub expire_after_secs: Option<i32>,
}

impl Default for IndexArgs {
    /// An empty declaration: a plain ascending index.
    fn default() -> (r: Self)
        ensures
            r.unique is None,
            r.sparse is None,
            r.name is None,
            r.background is None,
            r.order is None,
            r.expire_after_secs is None,
    {
        IndexArgs {
            unique: None,
            sparse: None,
            name: None,
            background: None,
            order: None,
            expire_after_secs: None,
        }
    }
}

/// An index declaration attached to a named field.
#[derive(Clone, Debug)]
pub struct IndexDefinition {
    pub field_name: String,
    pub args: IndexArgs,
}

/// The ordered rule list a validation declaration compiles to.
///
/// The order is the engine's evaluation order for one field: length
/// bounds, required, email, pattern, non-empty, sign checks, then the
/// inclusive numeric bounds.
pub open spec fn seg_min_length(o: Option<u32>) -> Seq<ValidationRule> {
    match o {
        Some(n) => seq![ValidationRule::MinLength(n)],
        None => Seq::empty(),
    }
}

pub open spec fn seg_max_length(o: Option<u32>) -> Seq<ValidationRule> {
    match o {
        Some(n) => seq![ValidationRule::MaxLength(n)],
        None => Seq::empty(),
    }
}

pub open spec fn seg_required(o: Option<bool>) -> Seq<ValidationRule> {
    match o {
        Some(true) => seq![ValidationRule::Required],
        _ => Seq::empty(),
    }
}

pub open spec fn seg_email(o: Option<bool>) -> Seq<ValidationRule> {
    match o {
        Some(true) => seq![ValidationRule::Email],
        _ => Seq::empty(),
    }
}

pub open spec fn seg_pattern(o: Option<String>) -> Seq<ValidationRule> {
    match o {
        Some(p) => seq![ValidationRule::Pattern(p)],
        None => Seq::empty(),
    }
}

pub open spec fn seg_non_empty(o: Option<bool>) -> Seq<ValidationRule> {
    match o {
        Some(true) => seq![ValidationRule::NonEmpty],
        _ => Seq::empty(),
    }
}

pub open spec fn seg_positive(o: Option<bool>) -> Seq<ValidationRule> {
    match o {
        Some(true) => seq![ValidationRule::Positive],
        _ => Seq::empty(),
    }
}

pub open spec fn seg_negative(o: Option<bool>) -> Seq<ValidationRule> {
    match o {
        Some(true) => seq![ValidationRule::Negative],
        _ => Seq::empty(),
    }
}

pub open spec fn seg_non_negative(o: Option<bool>) -> Seq<ValidationRule> {
    match o {
        Some(true) => seq![ValidationRule::NonNegative],
        _ => Seq::empty(),
    }
}

pub open spec fn seg_min(o: Option<i64>) -> Seq<ValidationRule> {
    match o {
        Some(n) => seq![ValidationRule::Min(n)],
        None => Seq::empty(),
    }
}

pub open spec fn seg_max(o: Option<i64>) -> Seq<ValidationRule> {
    match o {
        Some(n) => seq![ValidationRule::Max(n)],
        None => Seq::empty(),
    }
}

pub open spec fn spec_rules_of_args(args: ValidateArgs) -> Seq<ValidationRule> {
    seg_min_length(args.min_length) + seg_max_length(args.max_length) + seg_required(args.required)
        + seg_email(args.email) + seg_pattern(args.pattern) + seg_non_empty(args.non_empty)
        + seg_positive(args.positive) + seg_negative(args.negative)
        + seg_non_negative(args.non_negative) + seg_min(args.min) + seg_max(args.max)
}

fn push_min_length(v: &mut Vec<ValidationRule>, o: Option<u32>)
    ensures
        final(v)@ == old(v)@ + seg_min_length(o),
{
    if let Some(n) = o {
        v.push(ValidationRule::MinLength(n));
    }
    proof {
        assert(v@ =~= old(v)@ + seg_min_length(o));
    }
}

fn push_max_length(v: &mut Vec<ValidationRule>, o: Option<u32>)
    ensures
        final(v)@ == old(v)@ + seg_max_length(o),
{
    if let Some(n) = o {
        v.push(ValidationRule::MaxLength(n));
    }
    proof {
        assert(v@ =~= old(v)@ + seg_max_length(o));
    }
}

fn push_required(v: &mut Vec<ValidationRule>, o: Option<bool>)
    ensures
        final(v)@ == old(v)@ + seg_required(o),
{
    if let Some(true) = o {
        v.push(ValidationRule::Required);
    }
    proof {
        assert(v@ =~= old(v)@ + seg_required(o));
    }
}

fn push_email(v: &mut Vec<ValidationRule>, o: Option<bool>)
    ensures
        final(v)@ == old(v)@ + seg_email(o),
{
    if let Some(true) = o {
        v.push(ValidationRule::Email);
    }
    proof {
        assert(v@ =~= old(v)@ + seg_email(o));
    }
}

fn push_pattern(v: &mut Vec<ValidationRule>, o: Option<String>)
    ensures
        final(v)@ == old(v)@ + seg_pattern(o),
{
    let ghost g = o;
    if let Some(p) = o {
        v.push(ValidationRule::Pattern(p));
    }
    proof {
        assert(v@ =~= old(v)@ + seg_pattern(g));
    }
}

fn push_non_empty(v: &mut Vec<ValidationRule>, o: Option<bool>)
    ensures
        final(v)@ == old(v)@ + seg_non_empty(o),
{
    if let Some(true) = o {
        v.push(ValidationRule::NonEmpty);
    }
    proof {
        assert(v@ =~= old(v)@ + seg_non_empty(o));
    }
}

fn push_positive(v: &mut Vec<ValidationRule>, o: Option<bool>)
    ensures
        final(v)@ == old(v)@ + seg_positive(o),
{
    if let Some(true) = o {
        v.push(ValidationRule::Positive);
    }
    proof {
        assert(v@ =~= old(v)@ + seg_positive(o));
    }
}

fn push_negative(v: &mut Vec<ValidationRule>, o: Option<bool>)
    ensures
        final(v)@ == old(v)@ + seg_negative(o),
{
    if let Some(true) = o {
        v.push(ValidationRule::Negative);
    }
    proof {
        assert(v@ =~= old(v)@ + seg_negative(o));
    }
}

fn push_non_negative(v: &mut Vec<ValidationRule>, o: Option<bool>)
    ensures
        final(v)@ == old(v)@ + seg_non_negative(o),
{
    if let Some(true) = o {
        v.push(ValidationRule::NonNegative);
    }
    proof {
        assert(v@ =~= old(v)@ + seg_non_negative(o));
    }
}

fn push_min(v: &mut Vec<ValidationRule>, o: Option<i64>)
    ensures
        final(v)@ == old(v)@ + seg_min(o),
{
    if let Some(n) = o {
        v.push(ValidationRule::Min(n));
    }
    proof {
        assert(v@ =~= old(v)@ + seg_min(o));
    }
}

fn push_max(v: &mut Vec<ValidationRule>, o: Option<i64>)
    ensures
        final(v)@ == old(v)@ + seg_max(o),
{
    if let Some(n) = o {
        v.push(ValidationRule::Max(n));
    }
    proof {
        assert(v@ =~= old(v)@ + seg_max(o));
    }
}

/// Compiles a validation declaration into its ordered rule list.
pub fn rules_of_args(args: ValidateArgs) -> (r: Vec<ValidationRule>)
    ensures
        r@ == spec_rules_of_args(args),
{
    let ghost g = args;
    let mut v: Vec<ValidationRule> = Vec::new();
    push_min_length(&mut v, args.min_length);
    push_max_length(&mut v, args.max_length);
    push_required(&mut v, args.required);
    push_email(&mut v, args.email);
    push_pattern(&mut v, args.pattern);
    push_non_empty(&mut v, args.non_empty);
    push_positive(&mut v, args.positive);
    push_negative(&mut v, args.negative);
    push_non_negative(&mut v, args.non_negative);
    push_min(&mut v, args.min);
    push_max(&mut v, args.max);
    proof {
        assert(v@ =~= spec_rules_of_args(g));
    }
    v
}

/// One field of a record type.
#[derive(Clone, Debug)]
pub struct FieldDescriptor {
    /// The field's (and stored document key's) name.
    pub name: String,
    /// What kind of data the field holds.
    pub kind: FieldKind,
    /// Whether the field may be absent.
    pub optional: bool,
    /// The value a freshly built record starts with, if declared.
    pub default: Option<FieldValue>,
    /// The ordered rules evaluated on this field.
    pub rules: Vec<ValidationRule>,
    /// The secondary index declared on this field, if any.
    pub index: Option<IndexArgs>,
}

/// Whether a value of this shape may sit in a field of the given kind.
pub open spec fn value_fits(v: ValueModel, kind: FieldKind, optional: bool) -> bool {
    match v {
        ValueModel::Absent => optional,
        ValueModel::Text(_) => kind is Text,
        ValueModel::Int(_) => kind is Int,
        ValueModel::Flag(_) => kind is Flag,
    }
}

/// Whether a rule can be declared on a field of the given kind.
pub open spec fn rule_applicable(rule: ValidationRule, kind: FieldKind, optional: bool) -> bool {
    match rule {
        ValidationRule::MinLength(_) => kind is Text,
        ValidationRule::MaxLength(_) => kind is Text,
        ValidationRule::Required => optional,
        ValidationRule::Email => kind is Text,
        ValidationRule::Pattern(_) => kind is Text,
        ValidationRule::NonEmpty => kind is Text,
        ValidationRule::Positive => kind is Int,
        ValidationRule::Negative => kind is Int,
        ValidationRule::NonNegative => kind is Int,
        ValidationRule::Min(_) => kind is Int,
        ValidationRule::Max(_) => kind is Int,
    }
}

/// Whether an index declaration is well formed: order, if given, is `1` or `-1`.
pub open spec fn index_args_wf(args: IndexArgs) -> bool {
    match args.order {
        Some(o) => o == 1 || o == -1,
        None => true,
    }
}

impl FieldDescriptor {
    /// Well-formedness of one field declaration.
    pub open spec fn wf(self) -> bool {
        &&& self.name@ != "_id"@
        &&& self.name@.len() > 0
        &&& forall|j: int|
            0 <= j < self.rules@.len() ==> rule_applicable(
                #[trigger] self.rules@[j],
                self.kind,
                self.optional,
            )
        &&& match self.default {
            Some(v) => value_fits(v.model(), self.kind, self.optional),
            None => true,
        }
        &&& match self.index {
            Some(args) => index_args_wf(args),
            None => true,
        }
    }
}

/// A record type: a named target collection plus its field declarations.
#[derive(Clone, Debug)]
pub struct Schema {
    /// The store (database) name.
    pub db: String,
    /// The collection name.
    pub collection: String,
    /// The declared fields, in declaration order.
    pub fields: Vec<FieldDescriptor>,
}

impl Schema {
    /// Well-formedness: every field is well formed and names are unique.
    pub open spec fn wf(self) -> bool {
        &&& forall|i: int| 0 <= i < self.fields@.len() ==> (#[trigger] self.fields@[i]).wf()
        &&& forall|i: int, j: int|
            0 <= i < j < self.fields@.len() ==> (#[trigger] self.fields@[i]).name@ != (
            #[trigger] self.fields@[j]).name@
    }

    /// The number of declared fields.
    pub open spec fn spec_len(self) -> nat {
        self.fields@.len()
    }
}

/// Checks one rule's applicability to a field declaration.
fn rule_applicable_exec(rule: &ValidationRule, kind: FieldKind, optional: bool) -> (r: bool)
    ensures
        r == rule_applicable(*rule, kind, optional),
{
    match rule {
        ValidationRule::MinLength(_) => kind == FieldKind::Text,
        ValidationRule::MaxLength(_) => kind == FieldKind::Text,
        ValidationRule::Required => optional,
        ValidationRule::Email => kind == FieldKind::Text,
        ValidationRule::Pattern(_) => kind == FieldKind::Text,
        ValidationRule::NonEmpty => kind == FieldKind::Text,
        ValidationRule::Positive => kind == FieldKind::Int,
        ValidationRule::Negative => kind == FieldKind::Int,
        ValidationRule::NonNegative => kind == FieldKind::Int,
        ValidationRule::Min(_) => kind == FieldKind::Int,
        ValidationRule::Max(_) => kind == FieldKind::Int,
    }
}

/// Checks whether a value fits a field declaration.
fn value_fits_exec(v: &FieldValue, kind: FieldKind, optional: bool) -> (r: bool)
    ensures
        r == value_fits(v.model(), kind, optional),
{
    match v {
        FieldValue::Absent => optional,
        FieldValue::Text(_) => kind == FieldKind::Text,
        FieldValue::Int(_) => kind == FieldKind::Int,
        FieldValue::Flag(_) => kind == FieldKind::Flag,
    }
}

/// Checks one field declaration.
fn field_wf_exec(f: &FieldDescriptor) -> (r: bool)
    ensures
        r == f.wf(),
{
    let reserved = String::from_str("_id");
    if f.name == reserved {
        return false;
    }
    if f.name.as_str().unicode_len() == 0 {
        return false;
    }
    let mut k: usize = 0;
    while k < f.rules.len()
        invariant
            0 <= k <= f.rules@.len(),
            forall|j: int|
                0 <= j < k ==> rule_applicable(#[trigger] f.rules@[j], f.kind, f.optional),
        decreases f.rules@.len() - k,
    {
        if !rule_applicable_exec(&f.rules[k], f.kind, f.optional) {
            return false;
        }
        k += 1;
    }
    if let Some(v) = &f.default {
        if !value_fits_exec(v, f.kind, f.optional) {
            return false;
        }
    }
    if let Some(args) = &f.index {
        if let Some(o) = args.order {
            if !(o == 1 || o == -1) {
                return false;
            }
        }
    }
    true
}

impl Schema {
    /// Builds a record type from its declarations.
    ///
    /// Succeeds exactly when every field declaration is well formed and no
    /// two fields share a name; a malformed declaration is reported here,
    /// at declaration time, as a validation error naming the field.
    pub fn build(db: String, collection: String, fields: Vec<FieldDescriptor>) -> (r: Result<
        Schema,
        OximodError,
    >)
        ensures
            r matches Ok(s) ==> s == (Schema { db, collection, fields }) && s.wf(),
            r is Ok <==> (Schema { db, collection, fields }).wf(),
            r matches Err(e) ==> e is ValidationError,
    {
        let ghost target = Schema { db, collection, fields };
        let mut i: usize = 0;
        while i < fields.len()
            invariant
                0 <= i <= fields@.len(),
                forall|p: int| 0 <= p < i ==> (#[trigger] fields@[p]).wf(),
                forall|p: int, q: int|
                    0 <= p < q < i ==> (#[trigger] fields@[p]).name@ != (
                    #[trigger] fields@[q]).name@,
            decreases fields@.len() - i,
        {
            if !field_wf_exec(&fields[i]) {
                return Err(
                    OximodError::ValidationError(
                        cat3("Field '", fields[i].name.as_str(), "' is not well formed"),
                    ),
                );
            }
            let mut j: usize = 0;
            while j < i
                invariant
                    0 <= j <= i < fields@.len(),
                    forall|p: int| 0 <= p < j ==> (#[trigger] fields@[p]).name@ != fields@[i as int].name@,
                decreases i - j,
            {
                if fields[j].name == fields[i].name {
                    return Err(
                        OximodError::ValidationError(
                            cat3("Field '", fields[i].name.as_str(), "' is declared twice"),
                        ),
                    );
                }
                j += 1;
            }
            i += 1;
        }
        Ok(Schema { db, collection, fields })
    }
}

} // verus!
