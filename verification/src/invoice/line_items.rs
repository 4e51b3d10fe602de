//! Line items: the line-item form and its checks.
use vstd::prelude::*;
use crate::text::{copy_str, is_blank_spec, text_len};
use crate::validation::validators::{
    combine_results, combined, min_length, min_length_view, required, required_view, views,
};
use crate::validation::{failed_on, field_failure, ValidationResult, ValidationView};
use super::NumberReading;

verus! {

/// The form a line item is added or edited with. Quantity and unit price
/// are kept as typed; the taxes, discounts and charges picked for the item
/// are held by their identifiers.
#[derive(Clone, Debug, PartialEq)]
pub struct LineItemForm {
    pub name: String,
    pub description: String,
    pub quantity: String,
    pub unit_price: String,
    pub tax_ids: Vec<String>,
    pub discount_ids: Vec<String>,
    pub charge_ids: Vec<String>,
}

impl Default for LineItemForm {
    /// The empty form: nothing typed and nothing picked.
    fn default() -> (r: Self)
        ensures
            r.name@ == Seq::<char>::empty(),
            r.description@ == Seq::<char>::empty(),
            r.quantity@ == Seq::<char>::empty(),
            r.unit_price@ == Seq::<char>::empty(),
            r.tax_ids@.len() == 0,
            r.discount_ids@.len() == 0,
            r.charge_ids@.len() == 0,
    {
        LineItemForm {
            name: String::new(),
            description: String::new(),
            quantity: String::new(),
            unit_price: String::new(),
            tax_ids: Vec::new(),
            discount_ids: Vec::new(),
            charge_ids: Vec::new(),
        }
    }
}

/// The check that a field reads as a number.
pub open spec fn number_check(reading: NumberReading, key: Seq<char>, message: Seq<char>) -> Seq<
    ValidationView,
> {
    if reading == NumberReading::NotANumber {
        seq![failed_on(key, message)]
    } else {
        Seq::empty()
    }
}

/// A line item needs a name of at least 2 bytes, and a quantity and a unit
/// price that are filled in and read as numbers.
pub open spec fn line_item_validation(
    form: LineItemForm,
    quantity: NumberReading,
    unit_price: NumberReading,
) -> ValidationView {
    combined(
        seq![
            required_view(form.name@, "Item Name"@),
            min_length_view(text_len(form.name@), 2, "Item Name"@),
            required_view(form.quantity@, "Quantity"@),
            required_view(form.unit_price@, "Unit Price"@),
        ] + number_check(quantity, "quantity"@, "Quantity must be a valid number"@)
            + number_check(unit_price, "unit-price"@, "Unit Price must be a valid number"@),
    )
}

impl LineItemForm {
    /// Checks the form; `quantity` and `unit_price` are how those texts read as numbers.
    pub fn validate(&self, quantity: NumberReading, unit_price: NumberReading) -> (r:
        ValidationResult)
        ensures
            r@ == line_item_validation(*self, quantity, unit_price),
    {
        let mut results: Vec<ValidationResult> = Vec::new();
        results.push(required(self.name.as_str(), "Item Name"));
        results.push(min_length(self.name.as_str(), 2, "Item Name"));
        results.push(required(self.quantity.as_str(), "Quantity"));
        results.push(required(self.unit_price.as_str(), "Unit Price"));
        let ghost head = views(results@);
        if quantity == NumberReading::NotANumber {
            results.push(field_failure("quantity", copy_str("Quantity must be a valid number")));
        }
        let ghost middle = views(results@);
        if unit_price == NumberReading::NotANumber {
            results.push(
                field_failure("unit-price", copy_str("Unit Price must be a valid number")),
            );
        }
        proof {
            assert(head =~= seq![
                required_view(self.name@, "Item Name"@),
                min_length_view(text_len(self.name@), 2, "Item Name"@),
                required_view(self.quantity@, "Quantity"@),
                required_view(self.unit_price@, "Unit Price"@),
            ]);
            assert(middle =~= head + number_check(
                quantity,
                "quantity"@,
                "Quantity must be a valid number"@,
            ));
            assert(views(results@) =~= middle + number_check(
                unit_price,
                "unit-price"@,
                "Unit Price must be a valid number"@,
            ));
        }
        combine_results(results)
    }
}


/// A line item's form passes exactly when its name is not blank and takes
/// at least 2 bytes, and its quantity and unit price are not blank and read
/// as numbers.
pub proof fn lemma_line_item_valid(
    form: LineItemForm,
    quantity: NumberReading,
    unit_price: NumberReading,
)
    ensures
        line_item_validation(form, quantity, unit_price).is_valid <==> {
            &&& !is_blank_spec(form.name@)
            &&& 2 <= text_len(form.name@)
            &&& !is_blank_spec(form.quantity@)
            &&& !is_blank_spec(form.unit_price@)
            &&& quantity != NumberReading::NotANumber
            &&& unit_price != NumberReading::NotANumber
        },
{
    let head = seq![
        required_view(form.name@, "Item Name"@),
        min_length_view(text_len(form.name@), 2, "Item Name"@),
        required_view(form.quantity@, "Quantity"@),
        required_view(form.unit_price@, "Unit Price"@),
    ];
    let q = number_check(quantity, "quantity"@, "Quantity must be a valid number"@);
    let u = number_check(unit_price, "unit-price"@, "Unit Price must be a valid number"@);
    let all = head + q + u;
    crate::validation::validators::lemma_combined_valid(all);
    if line_item_validation(form, quantity, unit_price).is_valid {
        assert(all[0].is_valid && all[1].is_valid && all[2].is_valid && all[3].is_valid);
        if quantity == NumberReading::NotANumber {
            assert(all[4] == q[0]);
        }
        if unit_price == NumberReading::NotANumber {
            assert(all[4 + q.len() as int] == u[0]);
        }
    } else {
        let k = choose|k: int| 0 <= k < all.len() && !(#[trigger] all[k]).is_valid;
        if k >= 4 && k < 4 + q.len() {
            assert(all[k] == q[k - 4]);
        } else if k >= 4 + q.len() {
            assert(all[k] == u[k - 4 - q.len()]);
        }
    }
}

} // verus!
