//! Discounts: their type, their scope and the discount form.
use vstd::prelude::*;
use crate::text::{is_blank_spec, str_eq, text_len};
use crate::validation::validators::{
    combine_results, combined, max_length, max_length_view, min_length, min_length_view, required,
    required_view, views,
};
use crate::validation::{ValidationResult, ValidationView};
use super::{number_checks, push_number_checks, NumberReading};

verus! {

/// Whether a discount is a share of the amount or a fixed sum.
#[derive(Clone, Copy, Debug, PartialEq, Eq, Structural)]
pub enum DiscountType {
    Percentage,
    FixedAmount,
}

/// Whether a discount applies to the whole invoice or to single line items.
#[derive(Clone, Copy, Debug, PartialEq, Eq, Structural)]
pub enum DiscountScope {
    GlobalInvoice,
    LineItem,
}

impl DiscountType {
    /// The type's name for people.
    pub open spec fn label_spec(self) -> Seq<char> {
        match self {
            DiscountType::FixedAmount => "Fixed Amount"@,
            DiscountType::Percentage => "Percentage"@,
        }
    }

    /// The type's name, as it is displayed.
    pub fn label(&self) -> (r: &'static str)
        ensures
            r@ == self.label_spec(),
    {
        match self {
            DiscountType::FixedAmount => "Fixed Amount",
            DiscountType::Percentage => "Percentage",
        }
    }

    /// The type's value in the type select.
    pub fn select_value(&self) -> (r: &'static str)
        ensures
            r@ == (if *self == DiscountType::FixedAmount {
                "FixedAmount"@
            } else {
                "Percentage"@
            }),
    {
        match self {
            DiscountType::FixedAmount => "FixedAmount",
            DiscountType::Percentage => "Percentage",
        }
    }

    /// The type chosen in the type select: `"FixedAmount"`, else a percentage.
    pub fn from_select_value(value: &str) -> (r: DiscountType)
        ensures
            r == (if value@ == "FixedAmount"@ {
                DiscountType::FixedAmount
            } else {
                DiscountType::Percentage
            }),
    {
        if str_eq(value, "FixedAmount") {
            DiscountType::FixedAmount
        } else {
            DiscountType::Percentage
        }
    }

    /// The unit shown after a discount's value: `%` for a percentage, `$` for a sum.
    pub fn unit_symbol(&self) -> (r: &'static str)
        ensures
            r@ == (if *self == DiscountType::Percentage {
                "%"@
            } else {
                "$"@
            }),
    {
        match self {
            DiscountType::Percentage => "%",
            DiscountType::FixedAmount => "$",
        }
    }
}

impl Default for DiscountType {
    fn default() -> (r: Self)
        ensures
            r == DiscountType::Percentage,
    {
        DiscountType::Percentage
    }
}

impl DiscountScope {
    /// The scope's name for people.
    pub open spec fn label_spec(self) -> Seq<char> {
        match self {
            DiscountScope::LineItem => "Line Item"@,
            DiscountScope::GlobalInvoice => "Global Invoice"@,
        }
    }

    /// The scope's name, as it is displayed.
    pub fn label(&self) -> (r: &'static str)
        ensures
            r@ == self.label_spec(),
    {
        match self {
            DiscountScope::LineItem => "Line Item",
            DiscountScope::GlobalInvoice => "Global Invoice",
        }
    }

    /// The scope's value in the scope select.
    pub fn select_value(&self) -> (r: &'static str)
        ensures
            r@ == (if *self == DiscountScope::LineItem {
                "LineItem"@
            } else {
                "GlobalInvoice"@
            }),
    {
        match self {
            DiscountScope::LineItem => "LineItem",
            DiscountScope::GlobalInvoice => "GlobalInvoice",
        }
    }

    /// The scope chosen in the scope select: `"LineItem"`, else the whole invoice.
    pub fn from_select_value(value: &str) -> (r: DiscountScope)
        ensures
            r == (if value@ == "LineItem"@ {
                DiscountScope::LineItem
            } else {
                DiscountScope::GlobalInvoice
            }),
    {
        if str_eq(value, "LineItem") {
            DiscountScope::LineItem
        } else {
            DiscountScope::GlobalInvoice
        }
    }
}

impl Default for DiscountScope {
    fn default() -> (r: Self)
        ensures
            r == DiscountScope::GlobalInvoice,
    {
        DiscountScope::GlobalInvoice
    }
}

/// The form a discount is added or edited with; the value is kept as typed.
#[derive(Clone, Debug, PartialEq)]
pub struct DiscountForm {
    pub name: String,
    pub description: String,
    pub discount_type: DiscountType,
    pub value: String,
    pub scope: DiscountScope,
    pub is_default: bool,
}

impl Default for DiscountForm {
    /// The empty form: a percentage on the whole invoice, nothing typed, not a default.
    fn default() -> (r: Self)
        ensures
            r.name@ == Seq::<char>::empty(),
            r.description@ == Seq::<char>::empty(),
            r.discount_type == DiscountType::Percentage,
            r.value@ == Seq::<char>::empty(),
            r.scope == DiscountScope::GlobalInvoice,
            !r.is_default,
    {
        DiscountForm {
            name: String::new(),
            description: String::new(),
            discount_type: DiscountType::Percentage,
            value: String::new(),
            scope: DiscountScope::GlobalInvoice,
            is_default: false,
        }
    }
}

/// A discount needs a name of 2 to 100 bytes, a description of at most 500
/// bytes and a value that reads as a number, not negative, and for a
/// percentage not above a hundred.
pub open spec fn discount_validation(form: DiscountForm, value: NumberReading) -> ValidationView {
    combined(
        seq![
            required_view(form.name@, "Discount Name"@),
            min_length_view(text_len(form.name@), 2, "Discount Name"@),
            max_length_view(text_len(form.name@), 100, "Discount Name"@),
            max_length_view(text_len(form.description@), 500, "Description"@),
            required_view(form.value@, "Value"@),
        ] + number_checks(
            form.value@,
            value,
            "value"@,
            "Value must be a valid number"@,
            "Value cannot be negative"@,
            form.discount_type == DiscountType::Percentage,
        ),
    )
}

impl DiscountForm {
    /// Checks the form; `value` is how its value text reads as a number.
    pub fn validate(&self, value: NumberReading) -> (r: ValidationResult)
        ensures
            r@ == discount_validation(*self, value),
    {
        let mut results: Vec<ValidationResult> = Vec::new();
        results.push(required(self.name.as_str(), "Discount Name"));
        results.push(min_length(self.name.as_str(), 2, "Discount Name"));
        results.push(max_length(self.name.as_str(), 100, "Discount Name"));
        results.push(max_length(self.description.as_str(), 500, "Description"));
        results.push(required(self.value.as_str(), "Value"));
        let ghost head = views(results@);
        let percentage = match self.discount_type {
            DiscountType::Percentage => true,
            DiscountType::FixedAmount => false,
        };
        push_number_checks(
            &mut results,
            self.value.as_str(),
            value,
            "value",
            "Value must be a valid number",
            "Value cannot be negative",
            percentage,
        );
        proof {
            assert(head =~= seq![
                required_view(self.name@, "Discount Name"@),
                min_length_view(text_len(self.name@), 2, "Discount Name"@),
                max_length_view(text_len(self.name@), 100, "Discount Name"@),
                max_length_view(text_len(self.description@), 500, "Description"@),
                required_view(self.value@, "Value"@),
            ]);
        }
        combine_results(results)
    }
}


/// A discount form passes exactly when its name is not blank and takes 2 to
/// 100 bytes, its description takes at most 500 bytes, its value is not
/// blank, and the value reads as a number that is not negative and, for a
/// percentage, not above a hundred.
pub proof fn lemma_discount_valid(form: DiscountForm, value: NumberReading)
    ensures
        discount_validation(form, value).is_valid <==> {
            &&& !is_blank_spec(form.name@)
            &&& 2 <= text_len(form.name@) <= 100
            &&& text_len(form.description@) <= 500
            &&& !is_blank_spec(form.value@)
            &&& (value == NumberReading::UpToHundred || (value == NumberReading::AboveHundred
                && form.discount_type == DiscountType::FixedAmount))
        },
{
    let head = seq![
        required_view(form.name@, "Discount Name"@),
        min_length_view(text_len(form.name@), 2, "Discount Name"@),
        max_length_view(text_len(form.name@), 100, "Discount Name"@),
        max_length_view(text_len(form.description@), 500, "Description"@),
        required_view(form.value@, "Value"@),
    ];
    let tail = number_checks(
        form.value@,
        value,
        "value"@,
        "Value must be a valid number"@,
        "Value cannot be negative"@,
        form.discount_type == DiscountType::Percentage,
    );
    crate::validation::validators::lemma_combined_valid(head + tail);
    super::lemma_number_checks_pass(
        form.value@,
        value,
        "value"@,
        "Value must be a valid number"@,
        "Value cannot be negative"@,
        form.discount_type == DiscountType::Percentage,
    );
    let all = head + tail;
    if discount_validation(form, value).is_valid {
        assert(all[0].is_valid && all[1].is_valid && all[2].is_valid && all[3].is_valid
            && all[4].is_valid);
        assert forall|i: int| 0 <= i < tail.len() implies (#[trigger] tail[i]).is_valid by {
            assert(all[5 + i] == tail[i]);
        }
        assert(form.value@.len() != 0);
    } else {
        if !is_blank_spec(form.name@) && 2 <= text_len(form.name@) <= 100 && text_len(
            form.description@,
        ) <= 500 && !is_blank_spec(form.value@) {
            assert(form.value@.len() != 0) by {
                if form.value@.len() == 0 {
                    assert(is_blank_spec(form.value@));
                }
            }
            let k = choose|k: int| 0 <= k < all.len() && !(#[trigger] all[k]).is_valid;
            if k >= 5 {
                assert(tail[k - 5] == all[k]);
            }
        }
    }
}

} // verus!
