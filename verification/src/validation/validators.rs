//! The common validators the forms are built from.
use vstd::prelude::*;
use crate::text::{copy_str, is_blank, is_blank_spec, text_len, u64_to_decimal};
use super::{
    email_message, failed_on, field_failure, field_map, joined, max_length_message,
    min_length_message, passed, required_message, texts, unique_fields, FieldError,
    ValidationResult, ValidationView,
};

verus! {

/// What `required` gives: a value that is blank after trimming fails as missing.
pub open spec fn required_view(value: Seq<char>, field: Seq<char>) -> ValidationView {
    if is_blank_spec(value) {
        failed_on(field, required_message(field))
    } else {
        passed()
    }
}

/// What `min_length` gives for a value of `len` bytes.
pub open spec fn min_length_view(len: nat, min: nat, field: Seq<char>) -> ValidationView {
    if len < min {
        failed_on(field, min_length_message(field, min))
    } else {
        passed()
    }
}

/// What `max_length` gives for a value of `len` bytes.
pub open spec fn max_length_view(len: nat, max: nat, field: Seq<char>) -> ValidationView {
    if len > max {
        failed_on(field, max_length_message(field, max))
    } else {
        passed()
    }
}

/// A value that is blank after trimming fails as missing.
pub fn required(value: &str, field_name: &str) -> (r: ValidationResult)
    ensures
        r@ == required_view(value@, field_name@),
        unique_fields(r.field_errors@),
{
    if is_blank(value) {
        field_failure(field_name, joined(field_name, " is required"))
    } else {
        ValidationResult::new()
    }
}

/// A value shorter than `min` bytes fails.
pub fn min_length(value: &str, min: usize, field_name: &str) -> (r: ValidationResult)
    ensures
        r@ == min_length_view(text_len(value@), min as nat, field_name@),
        unique_fields(r.field_errors@),
{
    if value.len() < min {
        let mut message = joined(field_name, " must be at least ");
        message.append(u64_to_decimal(min as u64).as_str());
        message.append(" characters");
        assert(message@ =~= min_length_message(field_name@, min as nat));
        field_failure(field_name, message)
    } else {
        ValidationResult::new()
    }
}

/// A value longer than `max` bytes fails.
pub fn max_length(value: &str, max: usize, field_name: &str) -> (r: ValidationResult)
    ensures
        r@ == max_length_view(text_len(value@), max as nat, field_name@),
        unique_fields(r.field_errors@),
{
    if value.len() > max {
        let mut message = joined(field_name, " must be no more than ");
        message.append(u64_to_decimal(max as u64).as_str());
        message.append(" characters");
        assert(message@ =~= max_length_message(field_name@, max as nat));
        field_failure(field_name, message)
    } else {
        ValidationResult::new()
    }
}

/// The result of the e-mail check once the pattern has been matched:
/// the value passes only when the pattern compiled and matched it.
pub open spec fn email_spec(field: Seq<char>, outcome: Option<bool>) -> ValidationView {
    if outcome == Some(true) {
        passed()
    } else {
        failed_on(field, email_message(field))
    }
}

/// Turns the outcome of matching the e-mail pattern into a result.
pub fn email_result(field_name: &str, outcome: Option<bool>) -> (r: ValidationResult)
    ensures
        r@ == email_spec(field_name@, outcome),
        unique_fields(r.field_errors@),
{
    match outcome {
        Some(true) => ValidationResult::new(),
        _ => field_failure(field_name, joined(field_name, " must be a valid email address")),
    }
}

/// The e-mail shape: something, `@`, something, `.`, something, with no
/// white space and no second `@`.
pub const EMAIL_PATTERN: &'static str = "^[^\\s@]+@[^\\s@]+\\.[^\\s@]+$";

/// A value that does not match the e-mail pattern fails.
pub fn email(value: &str, field_name: &str) -> (r: ValidationResult)
    ensures
        r@ == email_spec(field_name@, crate::outside::regex_outcome(EMAIL_PATTERN@, value@)),
        unique_fields(r.field_errors@),
{
    let outcome = crate::outside::regex_is_match(EMAIL_PATTERN, value);
    email_result(field_name, outcome)
}

/// Folds a list of results: the outcome passes when all of them pass; the
/// errors of the failed ones are gathered in order, and for a field that
/// several of them fail the later message wins.
pub open spec fn combined(results: Seq<ValidationView>) -> ValidationView
    decreases results.len(),
{
    if results.len() == 0 {
        passed()
    } else {
        let c = combined(results.drop_last());
        let r = results.last();
        if r.is_valid {
            c
        } else {
            ValidationView {
                is_valid: false,
                errors: c.errors + r.errors,
                field_errors: c.field_errors.union_prefer_right(r.field_errors),
            }
        }
    }
}

/// The views of a list of results.
pub open spec fn views(results: Seq<ValidationResult>) -> Seq<ValidationView> {
    results.map_values(|r: ValidationResult| r@)
}

proof fn lemma_union_step(m: Map<Seq<char>, Seq<char>>, s: Seq<FieldError>, j: int)
    requires
        0 <= j < s.len(),
    ensures
        m.union_prefer_right(field_map(s.take(j + 1))) == m.union_prefer_right(
            field_map(s.take(j)),
        ).insert(s[j].0@, s[j].1@),
{
    assert(s.take(j + 1).drop_last() =~= s.take(j));
    assert(m.union_prefer_right(field_map(s.take(j + 1))) =~= m.union_prefer_right(
        field_map(s.take(j)),
    ).insert(s[j].0@, s[j].1@));
}

/// Combines several results into one.
pub fn combine_results(results: Vec<ValidationResult>) -> (r: ValidationResult)
    ensures
        r@ == combined(views(results@)),
        unique_fields(r.field_errors@),
{
    let mut out = ValidationResult::new();
    let mut i: usize = 0;
    while i < results.len()
        invariant
            i <= results.len(),
            out@ == combined(views(results@.take(i as int))),
            unique_fields(out.field_errors@),
        decreases results.len() - i,
    {
        let r = &results[i];
        proof {
            assert(results@.take(i + 1).drop_last() =~= results@.take(i as int));
            assert(views(results@.take(i + 1)).drop_last() =~= views(results@.take(i as int)));
        }
        if !r.is_valid {
            let ghost start = out@;
            out.is_valid = false;
            let mut j: usize = 0;
            while j < r.errors.len()
                invariant
                    j <= r.errors.len(),
                    out.is_valid == false,
                    out@.errors == start.errors + texts(r.errors@.take(j as int)),
                    out@.field_errors == start.field_errors,
                    unique_fields(out.field_errors@),
                decreases r.errors.len() - j,
            {
                let ghost before = out.errors@;
                out.errors.push(r.errors[j].clone());
                assert(r.errors@.take(j + 1) =~= r.errors@.take(j as int).push(r.errors@[j as int]));
                assert(texts(out.errors@) =~= texts(before).push(r.errors@[j as int]@));
                assert(texts(r.errors@.take(j + 1)) =~= texts(r.errors@.take(j as int)).push(
                    r.errors@[j as int]@,
                ));
                assert(texts(out.errors@) =~= start.errors + texts(r.errors@.take(j + 1)));
                j = j + 1;
            }
            assert(r.errors@.take(j as int) =~= r.errors@);
            let mut k: usize = 0;
            while k < r.field_errors.len()
                invariant
                    k <= r.field_errors.len(),
                    out.is_valid == false,
                    out@.errors == start.errors + texts(r.errors@),
                    out@.field_errors == start.field_errors.union_prefer_right(
                        field_map(r.field_errors@.take(k as int)),
                    ),
                    unique_fields(out.field_errors@),
                decreases r.field_errors.len() - k,
            {
                let field = r.field_errors[k].0.clone();
                let message = r.field_errors[k].1.clone();
                proof {
                    lemma_union_step(start.field_errors, r.field_errors@, k as int);
                }
                out = out.with_field_error(field, message);
                k = k + 1;
            }
            assert(r.field_errors@.take(k as int) =~= r.field_errors@);
        }
        i = i + 1;
    }
    assert(results@.take(i as int) =~= results@);
    assert(views(results@.take(i as int)) =~= views(results@));
    out
}


/// Combining passes exactly when every one of the combined results passes.
pub proof fn lemma_combined_valid(results: Seq<ValidationView>)
    ensures
        combined(results).is_valid <==> forall|i: int|
            0 <= i < results.len() ==> (#[trigger] results[i]).is_valid,
    decreases results.len(),
{
    if results.len() > 0 {
        lemma_combined_valid(results.drop_last());
        if combined(results).is_valid {
            assert forall|i: int| 0 <= i < results.len() implies (#[trigger] results[i]).is_valid by {
                if i < results.len() - 1 {
                    assert(results.drop_last()[i] == results[i]);
                }
            }
        } else {
            if results.last().is_valid {
                let k = choose|k: int|
                    0 <= k < results.drop_last().len() && !(#[trigger] results.drop_last()[k]).is_valid;
                assert(results[k] == results.drop_last()[k]);
            }
        }
    }
}

/// Combining results that all pass gives a result that passes with no errors.
pub proof fn lemma_combined_all_passed(results: Seq<ValidationView>)
    requires
        forall|i: int| 0 <= i < results.len() ==> #[trigger] results[i] == passed(),
    ensures
        combined(results) == passed(),
    decreases results.len(),
{
    if results.len() > 0 {
        assert forall|i: int| 0 <= i < results.drop_last().len() implies #[trigger] results.drop_last()[i]
            == passed() by {
            assert(results.drop_last()[i] == results[i]);
        }
        lemma_combined_all_passed(results.drop_last());
        assert(results[results.len() - 1] == passed());
    }
}

/// Two combined results, merged: valid when both are, errors one after the
/// other, field errors of the second winning.
pub open spec fn merged(a: ValidationView, b: ValidationView) -> ValidationView {
    ValidationView {
        is_valid: a.is_valid && b.is_valid,
        errors: a.errors + b.errors,
        field_errors: a.field_errors.union_prefer_right(b.field_errors),
    }
}

/// Combining a list in two parts and merging the parts gives the same as
/// combining it at once.
pub proof fn lemma_combined_concat(a: Seq<ValidationView>, b: Seq<ValidationView>)
    ensures
        combined(a + b) == merged(combined(a), combined(b)),
    decreases b.len(),
{
    if b.len() == 0 {
        assert(a + b =~= a);
        let c = combined(a);
        assert(c.errors + Seq::<Seq<char>>::empty() =~= c.errors);
        assert(c.field_errors.union_prefer_right(Map::empty()) =~= c.field_errors);
    } else {
        lemma_combined_concat(a, b.drop_last());
        assert((a + b).drop_last() =~= a + b.drop_last());
        assert((a + b).last() == b.last());
        let ca = combined(a);
        let cb = combined(b.drop_last());
        let r = b.last();
        if !r.is_valid {
            assert(ca.errors + cb.errors + r.errors =~= ca.errors + (cb.errors + r.errors));
            assert(ca.field_errors.union_prefer_right(cb.field_errors).union_prefer_right(
                r.field_errors,
            ) =~= ca.field_errors.union_prefer_right(
                cb.field_errors.union_prefer_right(r.field_errors),
            ));
        }
    }
}

} // verus!
