//! The invoice's configurable parts: custom fields, taxes, discounts, other
//! charges and line items, with the rules their forms are checked by.
use vstd::prelude::*;
use crate::text::copy_str;
use crate::validation::{failed_on, field_failure, ValidationResult, ValidationView};

pub mod charges;
pub mod custom_fields;
pub mod discounts;
pub mod line_items;
pub mod taxes;

verus! {

/// How the text of a numeric form field reads as a decimal number: not a
/// number at all, below zero, between zero and a hundred, or above a hundred.
/// A text that reads as "not a number" (`NaN`) counts as between zero and a
/// hundred, since it is neither below zero nor above a hundred.
#[derive(Clone, Copy, Debug, PartialEq, Eq, Structural)]
pub enum NumberReading {
    NotANumber,
    Negative,
    UpToHundred,
    AboveHundred,
}


/// The checks on a numeric field once its text is not empty: it must read as
/// a number, not a negative one, and when `capped`, not one above a hundred.
pub open spec fn number_checks(
    text: Seq<char>,
    reading: NumberReading,
    key: Seq<char>,
    not_a_number: Seq<char>,
    negative: Seq<char>,
    capped: bool,
) -> Seq<ValidationView> {
    if text.len() == 0 {
        Seq::empty()
    } else {
        match reading {
            NumberReading::NotANumber => seq![failed_on(key, not_a_number)],
            NumberReading::Negative => seq![failed_on(key, negative)],
            NumberReading::AboveHundred => if capped {
                seq![failed_on(key, "Percentage cannot exceed 100%"@)]
            } else {
                Seq::empty()
            },
            NumberReading::UpToHundred => Seq::empty(),
        }
    }
}

/// Appends to `results` the checks on a numeric field (see `number_checks`).
pub(crate) fn push_number_checks(
    results: &mut Vec<ValidationResult>,
    text: &str,
    reading: NumberReading,
    key: &str,
    not_a_number: &str,
    negative: &str,
    capped: bool,
)
    ensures
        crate::validation::validators::views(final(results)@) == crate::validation::validators::views(
            old(results)@,
        ) + number_checks(text@, reading, key@, not_a_number@, negative@, capped),
{
    let ghost start = old(results)@;
    if text.is_empty() {
        assert(crate::validation::validators::views(results@) =~= crate::validation::validators::views(start) + Seq::<ValidationView>::empty());
        return;
    }
    match reading {
        NumberReading::NotANumber => {
            results.push(field_failure(key, copy_str(not_a_number)));
        },
        NumberReading::Negative => {
            results.push(field_failure(key, copy_str(negative)));
        },
        NumberReading::AboveHundred => {
            if capped {
                results.push(field_failure(key, copy_str("Percentage cannot exceed 100%")));
            }
        },
        NumberReading::UpToHundred => {},
    }
    assert(crate::validation::validators::views(results@) =~= crate::validation::validators::views(start) + number_checks(
        text@,
        reading,
        key@,
        not_a_number@,
        negative@,
        capped,
    ));
}


/// A numeric field's checks pass exactly when its text is empty or it reads
/// as a number that is neither negative nor, when capped, above a hundred.
pub proof fn lemma_number_checks_pass(
    text: Seq<char>,
    reading: NumberReading,
    key: Seq<char>,
    not_a_number: Seq<char>,
    negative: Seq<char>,
    capped: bool,
)
    ensures
        (forall|i: int|
            0 <= i < number_checks(text, reading, key, not_a_number, negative, capped).len()
                ==> (#[trigger] number_checks(text, reading, key, not_a_number, negative, capped)[i]).is_valid)
            <==> (text.len() == 0 || reading == NumberReading::UpToHundred || (reading
            == NumberReading::AboveHundred && !capped)),
{
    let c = number_checks(text, reading, key, not_a_number, negative, capped);
    if !(text.len() == 0 || reading == NumberReading::UpToHundred || (reading
        == NumberReading::AboveHundred && !capped)) {
        assert(!c[0].is_valid);
    }
}

} // verus!
