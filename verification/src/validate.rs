//! The validation engine.
//!
//! [`validate`] walks a record's fields in declaration order and each
//! field's rules in their declared order, and stops at the first rule
//! that fails: the result is either success or the error of that first
//! failure, with a message naming the field and the violated bound. The
//! semantics of every rule is pinned by [`rule_passes`]; pattern rules go
//! through a regular-expression engine, whose verdict is named by
//! [`regex_ok`] and [`regex_match`].

use vstd::prelude::*;
use crate::errors::OximodError;
use crate::record::Record;
use crate::schema::{Schema, ValidationRule};
use crate::strings::{cat3, cat4, cat5, dec_rep, int_rep, i64_dec, u64_dec};
use crate::value::{FieldValue, ValueModel};

verus! {

/// Whether a pattern is a valid regular expression.
pub uninterp spec fn regex_ok(pattern: Seq<char>) -> bool;

/// Whether a text matches a (valid) regular expression. The verdict is a
/// function of the pattern and the text alone.
pub uninterp spec fn regex_match(pattern: Seq<char>, text: Seq<char>) -> bool;

/// Relies on `regex::Regex::new` and `regex::Regex::is_match`: compiling
/// a pattern succeeds or fails depending on the pattern alone, and a
/// compiled pattern's verdict on a text depends on the pattern and the
/// text alone. On a pattern that does not compile, the rendered
/// compilation error is returned.
#[verifier::external_body]
fn regex_check(pattern: &str, text: &str) -> (r: Result<bool, String>)
    ensures
        r is Ok <==> regex_ok(pattern@),
        r matches Ok(b) ==> b == regex_match(pattern@, text@),
{
    match regex::Regex::new(pattern) {
        Ok(re) => Ok(re.is_match(text)),
        Err(e) => Err(e.to_string()),
    }
}

/// The simplified email shape: exactly one `@`, a non-empty name before
/// it, a non-empty domain after it, and a `.` somewhere in the domain.
pub open spec fn email_ok(s: Seq<char>) -> bool {
    exists|i: int|
        0 < i < s.len() - 1 && s[i] == '@' && (forall|p: int|
            0 <= p < s.len() && p != i ==> s[p] != '@') && (exists|j: int|
            i < j < s.len() && s[j] == '.')
}

/// Decides the email shape of a text.
pub fn email_check(s: &str) -> (r: bool)
    ensures
        r == email_ok(s@),
{
    let len = s.unicode_len();
    let mut first: Option<usize> = None;
    let mut dup: bool = false;
    let mut k: usize = 0;
    while k < len
        invariant
            len == s@.len(),
            0 <= k <= len,
            first is None ==> forall|p: int| 0 <= p < k ==> s@[p] != '@',
            first matches Some(f) ==> 0 <= f < k && s@[f as int] == '@',
            dup <==> exists|p: int, q: int|
                0 <= p < q < k && #[trigger] s@[p] == '@' && #[trigger] s@[q] == '@',
        decreases len - k,
    {
        if s.get_char(k) == '@' {
            if first.is_some() {
                proof {
                    let f = first->0;
                    assert(s@[f as int] == '@' && s@[k as int] == '@' && f < k);
                }
                dup = true;
            } else {
                first = Some(k);
            }
        }
        k += 1;
    }
    if dup {
        proof {
            let (p, q) = choose|p: int, q: int|
                0 <= p < q < len && #[trigger] s@[p] == '@' && #[trigger] s@[q] == '@';
            assert forall|i: int|
                0 < i < s@.len() - 1 && s@[i] == '@' implies !(forall|r: int|
                0 <= r < s@.len() && r != i ==> s@[r] != '@') by {
                if i == p {
                    assert(s@[q] == '@' && q != i);
                } else {
                    assert(s@[p] == '@' && p != i);
                }
            }
        }
        return false;
    }
    let f = match first {
        Some(f) => f,
        None => {
            return false;
        },
    };
    if f == 0 || f + 1 >= len {
        return false;
    }
    let mut j: usize = f + 1;
    while j < len
        invariant
            len == s@.len(),
            f + 1 <= j <= len,
            0 < f < len - 1,
            s@[f as int] == '@',
            forall|p: int| 0 <= p < len && p != f ==> s@[p] != '@',
            forall|q: int| f < q < j ==> s@[q] != '.',
        decreases len - j,
    {
        if s.get_char(j) == '.' {
            return true;
        }
        j += 1;
    }
    proof {
        assert forall|i: int|
            0 < i < s@.len() - 1 && s@[i] == '@' implies !(exists|q: int|
            i < q < s@.len() && s@[q] == '.') by {
            assert(i == f);
        }
    }
    false
}

/// The characters the blank check treats as spacing.
pub open spec fn is_space(c: char) -> bool {
    c == ' ' || c == '\t' || c == '\n' || c == '\r' || c == '\u{000B}' || c == '\u{000C}'
}

/// A text is blank when every character is spacing; trimming such a text
/// leaves nothing.
pub open spec fn blank(s: Seq<char>) -> bool {
    forall|i: int| 0 <= i < s.len() ==> is_space(#[trigger] s[i])
}

/// Decides blankness of a text.
pub fn blank_check(s: &str) -> (r: bool)
    ensures
        r == blank(s@),
{
    let len = s.unicode_len();
    let mut k: usize = 0;
    while k < len
        invariant
            len == s@.len(),
            0 <= k <= len,
            forall|p: int| 0 <= p < k ==> is_space(#[trigger] s@[p]),
        decreases len - k,
    {
        let c = s.get_char(k);
        if !(c == ' ' || c == '\t' || c == '\n' || c == '\r' || c == '\u{000B}' || c
            == '\u{000C}') {
            return false;
        }
        k += 1;
    }
    true
}

/// Whether a rule accepts a value.
///
/// Rules other than `Required` and `NonEmpty` pass over an absent value,
/// and every rule passes over a value of a kind it does not speak about;
/// a well-formed schema never declares such a combination.
pub open spec fn rule_passes(rule: ValidationRule, v: ValueModel) -> bool {
    match rule {
        ValidationRule::MinLength(n) => match v {
            ValueModel::Text(s) => s.len() >= n,
            _ => true,
        },
        ValidationRule::MaxLength(n) => match v {
            ValueModel::Text(s) => s.len() <= n,
            _ => true,
        },
        ValidationRule::Required => !(v is Absent),
        ValidationRule::Email => match v {
            ValueModel::Text(s) => email_ok(s),
            _ => true,
        },
        ValidationRule::Pattern(p) => match v {
            ValueModel::Text(s) => regex_ok(p@) && regex_match(p@, s),
            _ => true,
        },
        ValidationRule::NonEmpty => match v {
            ValueModel::Absent => false,
            ValueModel::Text(s) => !blank(s),
            _ => true,
        },
        ValidationRule::Positive => match v {
            ValueModel::Int(i) => i > 0,
            _ => true,
        },
        ValidationRule::Negative => match v {
            ValueModel::Int(i) => i < 0,
            _ => true,
        },
        ValidationRule::NonNegative => match v {
            ValueModel::Int(i) => i >= 0,
            _ => true,
        },
        ValidationRule::Min(n) => match v {
            ValueModel::Int(i) => i >= n,
            _ => true,
        },
        ValidationRule::Max(n) => match v {
            ValueModel::Int(i) => i <= n,
            _ => true,
        },
    }
}

/// Evaluates one rule on one value.
///
/// The boolean verdict agrees with [`rule_passes`]; the error case arises
/// exactly when a pattern rule meets a present text but its pattern does
/// not compile, and carries the rendered compilation error.
fn eval_rule(rule: &ValidationRule, value: &FieldValue) -> (r: Result<bool, String>)
    ensures
        r matches Ok(b) ==> b == rule_passes(*rule, value.model()),
        r is Err <==> (rule matches ValidationRule::Pattern(p) && value.model() is Text
            && !regex_ok(p@)),
{
    match rule {
        ValidationRule::MinLength(n) => match value {
            FieldValue::Text(s) => Ok(s.as_str().unicode_len() >= (*n) as usize),
            _ => Ok(true),
        },
        ValidationRule::MaxLength(n) => match value {
            FieldValue::Text(s) => Ok(s.as_str().unicode_len() <= (*n) as usize),
            _ => Ok(true),
        },
        ValidationRule::Required => Ok(!value.is_absent()),
        ValidationRule::Email => match value {
            FieldValue::Text(s) => Ok(email_check(s.as_str())),
            _ => Ok(true),
        },
        ValidationRule::Pattern(p) => match value {
            FieldValue::Text(s) => match regex_check(p.as_str(), s.as_str()) {
                Ok(b) => Ok(b),
                Err(t) => Err(t),
            },
            _ => Ok(true),
        },
        ValidationRule::NonEmpty => match value {
            FieldValue::Absent => Ok(false),
            FieldValue::Text(s) => Ok(!blank_check(s.as_str())),
            _ => Ok(true),
        },
        ValidationRule::Positive => match value {
            FieldValue::Int(i) => Ok(*i > 0),
            _ => Ok(true),
        },
        ValidationRule::Negative => match value {
            FieldValue::Int(i) => Ok(*i < 0),
            _ => Ok(true),
        },
        ValidationRule::NonNegative => match value {
            FieldValue::Int(i) => Ok(*i >= 0),
            _ => Ok(true),
        },
        ValidationRule::Min(n) => match value {
            FieldValue::Int(i) => Ok(*i >= *n),
            _ => Ok(true),
        },
        ValidationRule::Max(n) => match value {
            FieldValue::Int(i) => Ok(*i <= *n),
            _ => Ok(true),
        },
    }
}

/// The message of a rule failure: it names the field and, for bounded
/// rules, cites the bound.
pub open spec fn fail_msg(rule: ValidationRule, name: Seq<char>, v: ValueModel) -> Seq<char> {
    match rule {
        ValidationRule::MinLength(n) => "Field '"@ + name + "' must be at least "@ + dec_rep(
            n as nat,
        ) + " characters long"@,
        ValidationRule::MaxLength(n) => "Field '"@ + name + "' must be at most "@ + dec_rep(
            n as nat,
        ) + " characters long"@,
        ValidationRule::Required => "Field '"@ + name + "' is required"@,
        ValidationRule::Email => "Field '"@ + name + "' must be a valid email address"@,
        ValidationRule::Pattern(_) => "Field '"@ + name + "' does not match the required pattern"@,
        ValidationRule::NonEmpty => if v is Absent {
            "Field '"@ + name + "' is missing but marked as non-empty"@
        } else {
            "Field '"@ + name + "' must be non-empty"@
        },
        ValidationRule::Positive => "Field '"@ + name + "' must be positive"@,
        ValidationRule::Negative => "Field '"@ + name + "' must be negative"@,
        ValidationRule::NonNegative => "Field '"@ + name + "' must be non-negative"@,
        ValidationRule::Min(n) => "Field '"@ + name + "' must be at least "@ + int_rep(n as int),
        ValidationRule::Max(n) => "Field '"@ + name + "' must be at most "@ + int_rep(n as int),
    }
}

/// The message reported for a pattern that does not compile; `t` is the
/// engine's rendered compilation error.
pub open spec fn bad_pattern_msg(name: Seq<char>, t: Seq<char>) -> Seq<char> {
    "Invalid regex pattern in validation for '"@ + name + "': "@ + t
}

/// Whether `m` is the message owed for a failure of `rule` on `v` at the
/// field called `name`. For a pattern that does not compile, the message
/// embeds the engine's own rendering of the defect, which this library
/// does not pin down.
pub open spec fn failure_message_ok(
    rule: ValidationRule,
    name: Seq<char>,
    v: ValueModel,
    m: Seq<char>,
) -> bool {
    if rule matches ValidationRule::Pattern(p) && !regex_ok(p@) {
        exists|t: Seq<char>| m == bad_pattern_msg(name, t)
    } else {
        m == fail_msg(rule, name, v)
    }
}

/// Builds the failure message of a rule that failed with a compiled (or
/// absent) pattern.
fn build_fail_msg(rule: &ValidationRule, name: &String, v: &FieldValue) -> (m: String)
    ensures
        m@ == fail_msg(*rule, name@, v.model()),
{
    match rule {
        ValidationRule::MinLength(n) => {
            let b = u64_dec((*n) as u64);
            cat5("Field '", name.as_str(), "' must be at least ", b.as_str(), " characters long")
        },
        ValidationRule::MaxLength(n) => {
            let b = u64_dec((*n) as u64);
            cat5("Field '", name.as_str(), "' must be at most ", b.as_str(), " characters long")
        },
        ValidationRule::Required => cat3("Field '", name.as_str(), "' is required"),
        ValidationRule::Email => cat3("Field '", name.as_str(), "' must be a valid email address"),
        ValidationRule::Pattern(_) => cat3(
            "Field '",
            name.as_str(),
            "' does not match the required pattern",
        ),
        ValidationRule::NonEmpty => {
            if value_is_absent(v) {
                cat3("Field '", name.as_str(), "' is missing but marked as non-empty")
            } else {
                cat3("Field '", name.as_str(), "' must be non-empty")
            }
        },
        ValidationRule::Positive => cat3("Field '", name.as_str(), "' must be positive"),
        ValidationRule::Negative => cat3("Field '", name.as_str(), "' must be negative"),
        ValidationRule::NonNegative => cat3("Field '", name.as_str(), "' must be non-negative"),
        ValidationRule::Min(n) => {
            let b = i64_dec(*n);
            cat4("Field '", name.as_str(), "' must be at least ", b.as_str())
        },
        ValidationRule::Max(n) => {
            let b = i64_dec(*n);
            cat4("Field '", name.as_str(), "' must be at most ", b.as_str())
        },
    }
}

/// True if the value is absent (helper shared by the message builder).
fn value_is_absent(v: &FieldValue) -> (r: bool)
    ensures
        r == (v.model() is Absent),
{
    match v {
        FieldValue::Absent => true,
        _ => false,
    }
}

/// Whether every declared rule accepts the record.
pub open spec fn record_valid(s: Schema, rec: Record) -> bool {
    forall|i: int, j: int|
        0 <= i < s.fields@.len() && 0 <= j < s.fields@[i].rules@.len() ==> rule_passes(
            #[trigger] s.fields@[i].rules@[j],
            rec.values@[i].model(),
        )
}

/// Whether every rule strictly before position `(i, j)` — fields in
/// declaration order, rules within a field in declaration order —
/// accepts the record.
pub open spec fn passes_before(s: Schema, rec: Record, i: int, j: int) -> bool {
    &&& forall|p: int, q: int|
        0 <= p < i && 0 <= q < s.fields@[p].rules@.len() ==> rule_passes(
            #[trigger] s.fields@[p].rules@[q],
            rec.values@[p].model(),
        )
    &&& forall|q: int|
        0 <= q < j ==> rule_passes(#[trigger] s.fields@[i].rules@[q], rec.values@[i].model())
}

/// Whether the first rule the engine's order meets that rejects the
/// record is the rule at position `(i, j)`.
pub open spec fn fails_at(s: Schema, rec: Record, i: int, j: int) -> bool {
    &&& 0 <= i < s.fields@.len()
    &&& 0 <= j < s.fields@[i].rules@.len()
    &&& !rule_passes(s.fields@[i].rules@[j], rec.values@[i].model())
    &&& passes_before(s, rec, i, j)
}

/// Validates a record against its record type.
///
/// Succeeds exactly when every declared rule accepts the record.
/// Otherwise the evaluation stops at the first failing rule — fields in
/// declaration order, rules within a field in declaration order — and
/// the result is a validation error whose message names that field and
/// the violated bound.
pub fn validate(schema: &Schema, record: &Record) -> (r: Result<(), OximodError>)
    requires
        record.values@.len() == schema.fields@.len(),
    ensures
        r is Ok <==> record_valid(*schema, *record),
        r matches Err(e) ==> e is ValidationError && exists|i: int, j: int|
            #[trigger] fails_at(*schema, *record, i, j) && failure_message_ok(
                schema.fields@[i].rules@[j],
                schema.fields@[i].name@,
                record.values@[i].model(),
                e->ValidationError_0@,
            ),
{
    let mut i: usize = 0;
    while i < schema.fields.len()
        invariant
            record.values@.len() == schema.fields@.len(),
            0 <= i <= schema.fields@.len(),
            forall|p: int, q: int|
                0 <= p < i && 0 <= q < schema.fields@[p].rules@.len() ==> rule_passes(
                    #[trigger] schema.fields@[p].rules@[q],
                    record.values@[p].model(),
                ),
        decreases schema.fields@.len() - i,
    {
        let f = &schema.fields[i];
        let value = &record.values[i];
        let mut j: usize = 0;
        while j < f.rules.len()
            invariant
                record.values@.len() == schema.fields@.len(),
                0 <= i < schema.fields@.len(),
                0 <= j <= f.rules@.len(),
                f == &schema.fields@[i as int],
                value == &record.values@[i as int],
                forall|p: int, q: int|
                    0 <= p < i && 0 <= q < schema.fields@[p].rules@.len() ==> rule_passes(
                        #[trigger] schema.fields@[p].rules@[q],
                        record.values@[p].model(),
                    ),
                forall|q: int|
                    0 <= q < j ==> rule_passes(
                        #[trigger] schema.fields@[i as int].rules@[q],
                        record.values@[i as int].model(),
                    ),
            decreases f.rules@.len() - j,
        {
            let rule = &f.rules[j];
            match eval_rule(rule, value) {
                Ok(true) => {},
                Ok(false) => {
                    let m = build_fail_msg(rule, &f.name, value);
                    proof {
                        assert(fails_at(*schema, *record, i as int, j as int));
                    }
                    return Err(OximodError::ValidationError(m));
                },
                Err(t) => {
                    let m = cat4(
                        "Invalid regex pattern in validation for '",
                        f.name.as_str(),
                        "': ",
                        t.as_str(),
                    );
                    proof {
                        assert(fails_at(*schema, *record, i as int, j as int));
                        assert(m@ == bad_pattern_msg(schema.fields@[i as int].name@, t@));
                    }
                    return Err(OximodError::ValidationError(m));
                },
            }
            j += 1;
        }
        i += 1;
    }
    Ok(())
}

/// Law: a record with a required field absent never validates, whatever
/// its other fields hold. `i` is the field with the `Required` rule at
/// position `j` of its rule list.
pub proof fn lemma_required_absent_invalid(s: Schema, rec: Record, i: int, j: int)
    requires
        rec.values@.len() == s.fields@.len(),
        0 <= i < s.fields@.len(),
        0 <= j < s.fields@[i].rules@.len(),
        s.fields@[i].rules@[j] is Required,
        rec.values@[i].model() is Absent,
    ensures
        !record_valid(s, rec),
{
    assert(!rule_passes(s.fields@[i].rules@[j], rec.values@[i].model()));
}

/// Law: when the absent required field is the first failure the engine
/// meets, the reported failure is at that field and its message names
/// the field: it reads exactly `Field '<name>' is required`.
pub proof fn lemma_required_absent_named(s: Schema, rec: Record, i: int, j: int)
    requires
        rec.values@.len() == s.fields@.len(),
        0 <= i < s.fields@.len(),
        0 <= j < s.fields@[i].rules@.len(),
        s.fields@[i].rules@[j] is Required,
        rec.values@[i].model() is Absent,
        passes_before(s, rec, i, j),
    ensures
        fails_at(s, rec, i, j),
        fail_msg(s.fields@[i].rules@[j], s.fields@[i].name@, rec.values@[i].model()) == "Field '"@
            + s.fields@[i].name@ + "' is required"@,
{
}

/// Law: a text shorter than a `MinLength` bound fails that rule, one
/// longer than a `MaxLength` bound fails that rule, and a text within
/// both bounds passes both; the failure messages cite the bound.
pub proof fn lemma_length_bounds(n: u32, m: u32, s: Seq<char>, name: Seq<char>)
    ensures
        s.len() < n ==> !rule_passes(ValidationRule::MinLength(n), ValueModel::Text(s)),
        s.len() > m ==> !rule_passes(ValidationRule::MaxLength(m), ValueModel::Text(s)),
        n <= s.len() <= m ==> rule_passes(ValidationRule::MinLength(n), ValueModel::Text(s))
            && rule_passes(ValidationRule::MaxLength(m), ValueModel::Text(s)),
        fail_msg(ValidationRule::MinLength(n), name, ValueModel::Text(s)) == "Field '"@ + name
            + "' must be at least "@ + dec_rep(n as nat) + " characters long"@,
        fail_msg(ValidationRule::MaxLength(m), name, ValueModel::Text(s)) == "Field '"@ + name
            + "' must be at most "@ + dec_rep(m as nat) + " characters long"@,
{
}

} // verus!
