//! Taxes: the tax type and the tax form.
use vstd::prelude::*;
use crate::text::{is_blank_spec, str_eq, text_len};
use crate::validation::validators::{
    combine_results, combined, max_length, max_length_view, min_length, min_length_view, required,
    required_view, views,
};
use crate::validation::{ValidationResult, ValidationView};
use super::{number_checks, push_number_checks, NumberReading};

verus! {

/// Whether a tax is a share of the amount or a fixed sum.
#[derive(Clone, Copy, Debug, PartialEq, Eq, Structural)]
pub enum TaxType {
    Percentage,
    FixedAmount,
}

impl TaxType {
    /// The type's name for people.
    pub open spec fn label_spec(self) -> Seq<char> {
        match self {
            TaxType::FixedAmount => "Fixed Amount"@,
            TaxType::Percentage => "Percentage"@,
        }
    }

    /// The type's name, as it is displayed.
    pub fn label(&self) -> (r: &'static str)
        ensures
            r@ == self.label_spec(),
    {
        match self {
            TaxType::FixedAmount => "Fixed Amount",
            TaxType::Percentage => "Percentage",
        }
    }

    /// The type chosen in the type select: `"FixedAmount"`, else a percentage.
    pub fn from_select_value(value: &str) -> (r: TaxType)
        ensures
            r == (if value@ == "FixedAmount"@ {
                TaxType::FixedAmount
            } else {
                TaxType::Percentage
            }),
    {
        if str_eq(value, "FixedAmount") {
            TaxType::FixedAmount
        } else {
            TaxType::Percentage
        }
    }
}

impl Default for TaxType {
    fn default() -> (r: Self)
        ensures
            r == TaxType::Percentage,
    {
        TaxType::Percentage
    }
}

/// The form a tax is added or edited with; the rate is kept as typed.
#[derive(Clone, Debug, PartialEq)]
pub struct TaxForm {
    pub name: String,
    pub tax_type: TaxType,
    pub rate: String,
}

impl Default for TaxForm {
    /// The empty form: no name, a percentage, no rate.
    fn default() -> (r: Self)
        ensures
            r.name@ == Seq::<char>::empty(),
            r.tax_type == TaxType::Percentage,
            r.rate@ == Seq::<char>::empty(),
    {
        TaxForm { name: String::new(), tax_type: TaxType::Percentage, rate: String::new() }
    }
}

/// A tax needs a name of 2 to 50 bytes and a rate that reads as a number,
/// not negative, and for a percentage not above a hundred.
pub open spec fn tax_validation(form: TaxForm, rate: NumberReading) -> ValidationView {
    combined(
        seq![
            required_view(form.name@, "Tax Name"@),
            min_length_view(text_len(form.name@), 2, "Tax Name"@),
            max_length_view(text_len(form.name@), 50, "Tax Name"@),
            required_view(form.rate@, "Rate"@),
        ] + number_checks(
            form.rate@,
            rate,
            "rate"@,
            "Rate must be a valid number"@,
            "Rate cannot be negative"@,
            form.tax_type == TaxType::Percentage,
        ),
    )
}

impl TaxForm {
    /// Checks the form; `rate` is how its rate text reads as a number.
    pub fn validate(&self, rate: NumberReading) -> (r: ValidationResult)
        ensures
            r@ == tax_validation(*self, rate),
    {
        let mut results: Vec<ValidationResult> = Vec::new();
        results.push(required(self.name.as_str(), "Tax Name"));
        results.push(min_length(self.name.as_str(), 2, "Tax Name"));
        results.push(max_length(self.name.as_str(), 50, "Tax Name"));
        results.push(required(self.rate.as_str(), "Rate"));
        let ghost head = views(results@);
        let percentage = match self.tax_type {
            TaxType::Percentage => true,
            TaxType::FixedAmount => false,
        };
        push_number_checks(
            &mut results,
            self.rate.as_str(),
            rate,
            "rate",
            "Rate must be a valid number",
            "Rate cannot be negative",
            percentage,
        );
        proof {
            assert(head =~= seq![
                required_view(self.name@, "Tax Name"@),
                min_length_view(text_len(self.name@), 2, "Tax Name"@),
                max_length_view(text_len(self.name@), 50, "Tax Name"@),
                required_view(self.rate@, "Rate"@),
            ]);
        }
        combine_results(results)
    }
}


/// A tax form passes exactly when its name is not blank and takes 2 to 50
/// bytes, its rate is not blank, and the rate reads as a number that is not
/// negative and, for a percentage, not above a hundred.
pub proof fn lemma_tax_valid(form: TaxForm, rate: NumberReading)
    ensures
        tax_validation(form, rate).is_valid <==> {
            &&& !is_blank_spec(form.name@)
            &&& 2 <= text_len(form.name@) <= 50
            &&& !is_blank_spec(form.rate@)
            &&& (rate == NumberReading::UpToHundred || (rate == NumberReading::AboveHundred
                && form.tax_type == TaxType::FixedAmount))
        },
{
    let head = seq![
        required_view(form.name@, "Tax Name"@),
        min_length_view(text_len(form.name@), 2, "Tax Name"@),
        max_length_view(text_len(form.name@), 50, "Tax Name"@),
        required_view(form.rate@, "Rate"@),
    ];
    let tail = number_checks(
        form.rate@,
        rate,
        "rate"@,
        "Rate must be a valid number"@,
        "Rate cannot be negative"@,
        form.tax_type == TaxType::Percentage,
    );
    crate::validation::validators::lemma_combined_valid(head + tail);
    super::lemma_number_checks_pass(
        form.rate@,
        rate,
        "rate"@,
        "Rate must be a valid number"@,
        "Rate cannot be negative"@,
        form.tax_type == TaxType::Percentage,
    );
    let all = head + tail;
    if tax_validation(form, rate).is_valid {
        assert(all[0].is_valid && all[1].is_valid && all[2].is_valid && all[3].is_valid);
        assert forall|i: int| 0 <= i < tail.len() implies (#[trigger] tail[i]).is_valid by {
            assert(all[4 + i] == tail[i]);
        }
        assert(form.rate@.len() != 0);
    } else {
        if !is_blank_spec(form.name@) && 2 <= text_len(form.name@) <= 50 && !is_blank_spec(form.rate@) {
            assert(form.rate@.len() != 0) by {
                if form.rate@.len() == 0 {
                    assert(is_blank_spec(form.rate@));
                }
            }
            let k = choose|k: int| 0 <= k < all.len() && !(#[trigger] all[k]).is_valid;
            if k >= 4 {
                assert(tail[k - 4] == all[k]);
            }
        }
    }
}

} // verus!
