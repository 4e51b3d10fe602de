use invomodo::invoice::charges::{ChargeForm, ChargeScope};
use invomodo::invoice::custom_fields::{
    default_custom_fields, CustomFieldForm, CustomFieldItem, FieldCategory, FieldType,
};
use invomodo::invoice::discounts::{DiscountForm, DiscountScope, DiscountType};
use invomodo::invoice::line_items::LineItemForm;
use invomodo::invoice::taxes::{TaxForm, TaxType};
use invomodo::invoice::NumberReading;
use invomodo::grid::{FormData, ItemData};
use invomodo::validation::ValidationResult;

fn field_error<'a>(r: &'a ValidationResult, field: &str) -> Option<&'a str> {
    r.field_errors.iter().find(|(k, _)| k == field).map(|(_, v)| v.as_str())
}

fn tax(name: &str, rate: &str, tax_type: TaxType) -> TaxForm {
    TaxForm { name: name.to_string(), tax_type, rate: rate.to_string() }
}

#[test]
fn tax_form_checks_rate() {
    assert!(tax("VAT", "10", TaxType::Percentage).validate(NumberReading::UpToHundred).is_valid);
    let r = tax("VAT", "abc", TaxType::Percentage).validate(NumberReading::NotANumber);
    assert_eq!(field_error(&r, "rate"), Some("Rate must be a valid number"));
    let r = tax("VAT", "-1", TaxType::Percentage).validate(NumberReading::Negative);
    assert_eq!(field_error(&r, "rate"), Some("Rate cannot be negative"));
    let r = tax("VAT", "150", TaxType::Percentage).validate(NumberReading::AboveHundred);
    assert_eq!(field_error(&r, "rate"), Some("Percentage cannot exceed 100%"));
    assert!(tax("Flat", "150", TaxType::FixedAmount).validate(NumberReading::AboveHundred).is_valid);
    let r = tax("VAT", "", TaxType::Percentage).validate(NumberReading::NotANumber);
    assert_eq!(field_error(&r, "Rate"), Some("Rate is required"));
    assert_eq!(field_error(&r, "rate"), None);
    let r = tax("V", "5", TaxType::Percentage).validate(NumberReading::UpToHundred);
    assert_eq!(field_error(&r, "Tax Name"), Some("Tax Name must be at least 2 characters"));
}

#[test]
fn discount_form_checks() {
    let mut f = DiscountForm {
        name: "Early Bird".to_string(),
        description: "10% off".to_string(),
        discount_type: DiscountType::Percentage,
        value: "10".to_string(),
        scope: DiscountScope::GlobalInvoice,
        is_default: true,
    };
    assert!(f.validate(NumberReading::UpToHundred).is_valid);
    let r = f.validate(NumberReading::AboveHundred);
    assert_eq!(field_error(&r, "value"), Some("Percentage cannot exceed 100%"));
    f.discount_type = DiscountType::FixedAmount;
    assert!(f.validate(NumberReading::AboveHundred).is_valid);
    let r = f.validate(NumberReading::Negative);
    assert_eq!(field_error(&r, "value"), Some("Value cannot be negative"));
    f.description = "d".repeat(501);
    let r = f.validate(NumberReading::UpToHundred);
    assert_eq!(field_error(&r, "Description"), Some("Description must be no more than 500 characters"));
}

#[test]
fn charge_form_checks() {
    let mut f = ChargeForm {
        name: "Shipping Fee".to_string(),
        description: String::new(),
        amount: "5".to_string(),
        scope: ChargeScope::GlobalInvoice,
        is_default: false,
    };
    assert!(f.validate(NumberReading::UpToHundred).is_valid);
    assert!(f.validate(NumberReading::AboveHundred).is_valid);
    let r = f.validate(NumberReading::Negative);
    assert_eq!(field_error(&r, "amount"), Some("Amount cannot be negative"));
    let r = f.validate(NumberReading::NotANumber);
    assert_eq!(field_error(&r, "amount"), Some("Amount must be a valid number"));
    f.name = "x".repeat(51);
    let r = f.validate(NumberReading::UpToHundred);
    assert_eq!(field_error(&r, "Charge Name"), Some("Charge Name must be no more than 50 characters"));
}

#[test]
fn line_item_form_checks() {
    let f = LineItemForm {
        name: "Website".to_string(),
        description: String::new(),
        quantity: "2".to_string(),
        unit_price: "x".to_string(),
        tax_ids: vec![],
        discount_ids: vec![],
        charge_ids: vec![],
    };
    assert!(f.validate(NumberReading::UpToHundred, NumberReading::AboveHundred).is_valid);
    let r = f.validate(NumberReading::UpToHundred, NumberReading::NotANumber);
    assert!(!r.is_valid);
    assert_eq!(field_error(&r, "unit-price"), Some("Unit Price must be a valid number"));
    let r = f.validate(NumberReading::NotANumber, NumberReading::NotANumber);
    assert_eq!(field_error(&r, "quantity"), Some("Quantity must be a valid number"));
    assert_eq!(r.field_errors.len(), 2);
    // a negative quantity is accepted
    assert!(f.validate(NumberReading::Negative, NumberReading::UpToHundred).is_valid);
}

#[test]
fn select_values_and_labels() {
    assert_eq!(FieldType::from_select_value("Email"), FieldType::Email);
    assert_eq!(FieldType::from_select_value("Textarea"), FieldType::Textarea);
    assert_eq!(FieldType::from_select_value("nonsense"), FieldType::Text);
    assert_eq!(FieldCategory::from_select_value("BillingDetails"), FieldCategory::BillingDetails);
    assert_eq!(FieldCategory::from_select_value("Global Invoice"), FieldCategory::GlobalInvoice);
    assert_eq!(FieldCategory::ClientAddress.label(), "Client Address");
    assert_eq!(FieldType::Checkbox.label(), "Checkbox");
    assert_eq!(TaxType::from_select_value("FixedAmount"), TaxType::FixedAmount);
    assert_eq!(TaxType::from_select_value("Percentage"), TaxType::Percentage);
    assert_eq!(TaxType::FixedAmount.label(), "Fixed Amount");
    assert_eq!(DiscountType::from_select_value("FixedAmount"), DiscountType::FixedAmount);
    assert_eq!(DiscountType::Percentage.select_value(), "Percentage");
    assert_eq!(DiscountType::Percentage.unit_symbol(), "%");
    assert_eq!(DiscountType::FixedAmount.unit_symbol(), "$");
    assert_eq!(DiscountScope::from_select_value("LineItem"), DiscountScope::LineItem);
    assert_eq!(DiscountScope::LineItem.label(), "Line Item");
    assert_eq!(DiscountScope::GlobalInvoice.select_value(), "GlobalInvoice");
    assert_eq!(ChargeScope::from_select_value("x"), ChargeScope::GlobalInvoice);
    assert_eq!(ChargeScope::GlobalInvoice.label(), "Global Invoice");
    assert_eq!(FieldType::default(), FieldType::Text);
    assert_eq!(FieldCategory::default(), FieldCategory::GlobalInvoice);
    assert_eq!(TaxType::default(), TaxType::Percentage);
    assert_eq!(DiscountScope::default(), DiscountScope::GlobalInvoice);
    assert_eq!(ChargeScope::default(), ChargeScope::GlobalInvoice);
}

#[test]
fn custom_field_item_round_trip() {
    let form = CustomFieldForm {
        name: "PO Number".to_string(),
        field_type: FieldType::Number,
        category: FieldCategory::BillerAddress,
        default_value: "0".to_string(),
        required: true,
        is_default: false,
    };
    let item = CustomFieldItem::from_form_props(&form);
    assert_eq!(item.id.len(), 36);
    assert_eq!(item.id.as_bytes()[14], b'4');
    assert_eq!(item.to_form_props(), form);
    let other = CustomFieldItem::from_form_props(&form);
    assert_ne!(item.id, other.id);
    assert_eq!(item.get_title(), "PO Number");
    assert_eq!(item.get_subtitle(), Some("0".to_string()));
    assert_eq!(
        item.get_metadata(),
        vec![
            ("field_type".to_string(), "Number".to_string()),
            ("category".to_string(), "Biller Address".to_string()),
            ("required".to_string(), "true".to_string()),
            ("is_default".to_string(), "false".to_string()),
        ]
    );
    assert_eq!(CustomFieldForm::default(), CustomFieldItem::blank_props());
}

#[test]
fn default_fields() {
    let f = default_custom_fields();
    assert_eq!(f.len(), 3);
    assert_eq!(f[0].name, "Due Date");
    assert_eq!(f[0].default_value, "30 days");
    assert!(f[0].required && f[0].is_default);
    assert_eq!(f[1].field_type, FieldType::Number);
    assert_eq!(f[2].category, FieldCategory::ClientAddress);
    assert_eq!(f[2].default_value, "CUST-");
}

#[test]
fn blank_forms() {
    let t = TaxForm::default();
    assert_eq!((t.name.as_str(), t.tax_type, t.rate.as_str()), ("", TaxType::Percentage, ""));
    let d = DiscountForm::default();
    assert_eq!(d.discount_type, DiscountType::Percentage);
    assert_eq!(d.scope, DiscountScope::GlobalInvoice);
    assert!(d.name.is_empty() && d.description.is_empty() && d.value.is_empty() && !d.is_default);
    let c = ChargeForm::default();
    assert_eq!(c.scope, ChargeScope::GlobalInvoice);
    assert!(c.name.is_empty() && c.description.is_empty() && c.amount.is_empty() && !c.is_default);
    let l = LineItemForm::default();
    assert!(l.name.is_empty() && l.quantity.is_empty() && l.unit_price.is_empty());
    assert!(l.tax_ids.is_empty() && l.discount_ids.is_empty() && l.charge_ids.is_empty());
    let item = <CustomFieldItem as FormData>::default();
    assert_eq!(item.id.len(), 36);
    assert!(item.name.is_empty() && !item.required);
    assert_eq!(<CustomFieldItem as FormData>::blank_props(), CustomFieldForm::blank());
}

#[test]
fn field_ids_have_uuid_shape() {
    let item = <CustomFieldItem as FormData>::default();
    let b = item.id.as_bytes();
    assert_eq!((b[8], b[13], b[14], b[18], b[23]), (b'-', b'-', b'4', b'-', b'-'));
}
