//! Other charges: their scope and the charge form.
use vstd::prelude::*;
use crate::text::{is_blank_spec, str_eq, text_len};
use crate::validation::validators::{
    combine_results, combined, max_length, max_length_view, min_length, min_length_view, required,
    required_view, views,
};
use crate::validation::{ValidationResult, ValidationView};
use super::{number_checks, push_number_checks, NumberReading};

verus! {

/// Whether a charge applies to the whole invoice or to single line items.
#[derive(Clone, Copy, Debug, PartialEq, Eq, Structural)]
pub enum ChargeScope {
    GlobalInvoice,
    LineItem,
}

impl ChargeScope {
    /// The scope's name for people.
    pub open spec fn label_spec(self) -> Seq<char> {
        match self {
            ChargeScope::LineItem => "Line Item"@,
            ChargeScope::GlobalInvoice => "Global Invoice"@,
        }
    }

    /// The scope's name, as it is displayed.
    pub fn label(&self) -> (r: &'static str)
        ensures
            r@ == self.label_spec(),
    {
        match self {
            ChargeScope::LineItem => "Line Item",
            ChargeScope::GlobalInvoice => "Global Invoice",
        }
    }

    /// The scope chosen in the scope select: `"LineItem"`, else the whole invoice.
    pub fn from_select_value(value: &str) -> (r: ChargeScope)
        ensures
            r == (if value@ == "LineItem"@ {
                ChargeScope::LineItem
            } else {
                ChargeScope::GlobalInvoice
            }),
    {
        if str_eq(value, "LineItem") {
            ChargeScope::LineItem
        } else {
            ChargeScope::GlobalInvoice
        }
    }
}

impl Default for ChargeScope {
    fn default() -> (r: Self)
        ensures
            r == ChargeScope::GlobalInvoice,
    {
        ChargeScope::GlobalInvoice
    }
}

/// The form a charge is added or edited with; the amount is kept as typed.
#[derive(Clone, Debug, PartialEq)]
pub struct ChargeForm {
    pub name: String,
    pub description: String,
    pub amount: String,
    pub scope: ChargeScope,
    pub is_default: bool,
}

impl Default for ChargeForm {
    /// The empty form: a charge on the whole invoice, nothing typed, not a default.
    fn default() -> (r: Self)
        ensures
            r.name@ == Seq::<char>::empty(),
            r.description@ == Seq::<char>::empty(),
            r.amount@ == Seq::<char>::empty(),
            r.scope == ChargeScope::GlobalInvoice,
            !r.is_default,
    {
        ChargeForm {
            name: String::new(),
            description: String::new(),
            amount: String::new(),
            scope: ChargeScope::GlobalInvoice,
            is_default: false,
        }
    }
}

/// A charge needs a name of 2 to 50 bytes and an amount that reads as a
/// number that is not negative.
pub open spec fn charge_validation(form: ChargeForm, amount: NumberReading) -> ValidationView {
    combined(
        seq![
            required_view(form.name@, "Charge Name"@),
            min_length_view(text_len(form.name@), 2, "Charge Name"@),
            max_length_view(text_len(form.name@), 50, "Charge Name"@),
            required_view(form.amount@, "Amount"@),
        ] + number_checks(
            form.amount@,
            amount,
            "amount"@,
            "Amount must be a valid number"@,
            "Amount cannot be negative"@,
            false,
        ),
    )
}

impl ChargeForm {
    /// Checks the form; `amount` is how its amount text reads as a number.
    pub fn validate(&self, amount: NumberReading) -> (r: ValidationResult)
        ensures
            r@ == charge_validation(*self, amount),
    {
        let mut results: Vec<ValidationResult> = Vec::new();
        results.push(required(self.name.as_str(), "Charge Name"));
        results.push(min_length(self.name.as_str(), 2, "Charge Name"));
        results.push(max_length(self.name.as_str(), 50, "Charge Name"));
        results.push(required(self.amount.as_str(), "Amount"));
        let ghost head = views(results@);
        push_number_checks(
            &mut results,
            self.amount.as_str(),
            amount,
            "amount",
            "Amount must be a valid number",
            "Amount cannot be negative",
            false,
        );
        proof {
            assert(head =~= seq![
                required_view(self.name@, "Charge Name"@),
                min_length_view(text_len(self.name@), 2, "Charge Name"@),
                max_length_view(text_len(self.name@), 50, "Charge Name"@),
                required_view(self.amount@, "Amount"@),
            ]);
        }
        combine_results(results)
    }
}


/// A charge form passes exactly when its name is not blank and takes 2 to
/// 50 bytes, its amount is not blank, and the amount reads as a number that
/// is not negative.
pub proof fn lemma_charge_valid(form: ChargeForm, amount: NumberReading)
    ensures
        charge_validation(form, amount).is_valid <==> {
            &&& !is_blank_spec(form.name@)
            &&& 2 <= text_len(form.name@) <= 50
            &&& !is_blank_spec(form.amount@)
            &&& (amount == NumberReading::UpToHundred || amount == NumberReading::AboveHundred)
        },
{
    let head = seq![
        required_view(form.name@, "Charge Name"@),
        min_length_view(text_len(form.name@), 2, "Charge Name"@),
        max_length_view(text_len(form.name@), 50, "Charge Name"@),
        required_view(form.amount@, "Amount"@),
    ];
    let tail = number_checks(
        form.amount@,
        amount,
        "amount"@,
        "Amount must be a valid number"@,
        "Amount cannot be negative"@,
        false,
    );
    crate::validation::validators::lemma_combined_valid(head + tail);
    super::lemma_number_checks_pass(
        form.amount@,
        amount,
        "amount"@,
        "Amount must be a valid number"@,
        "Amount cannot be negative"@,
        false,
    );
    let all = head + tail;
    if charge_validation(form, amount).is_valid {
        assert(all[0].is_valid && all[1].is_valid && all[2].is_valid && all[3].is_valid);
        assert forall|i: int| 0 <= i < tail.len() implies (#[trigger] tail[i]).is_valid by {
            assert(all[4 + i] == tail[i]);
        }
        assert(form.amount@.len() != 0);
    } else {
        if !is_blank_spec(form.name@) && 2 <= text_len(form.name@) <= 50 && !is_blank_spec(
            form.amount@,
        ) {
            assert(form.amount@.len() != 0) by {
                if form.amount@.len() == 0 {
                    assert(is_blank_spec(form.amount@));
                }
            }
            let k = choose|k: int| 0 <= k < all.len() && !(#[trigger] all[k]).is_valid;
            if k >= 4 {
                assert(tail[k - 4] == all[k]);
            }
        }
    }
}

} // verus!
