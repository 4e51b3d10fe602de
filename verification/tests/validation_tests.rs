use invomodo::validation::validators::{combine_results, email, email_result, max_length, min_length, required};
use invomodo::validation::{FormValidation, ValidationResult};
use invomodo::invoice::custom_fields::{CustomFieldForm, FieldCategory, FieldType};

fn field_error<'a>(r: &'a ValidationResult, field: &str) -> Option<&'a str> {
    r.field_errors.iter().find(|(k, _)| k == field).map(|(_, v)| v.as_str())
}

#[test]
fn new_result_passes() {
    let r = ValidationResult::new();
    assert!(r.is_valid);
    assert!(!r.has_errors());
    assert!(r.errors.is_empty());
    assert!(r.field_errors.is_empty());
}

#[test]
fn default_result_is_not_valid() {
    let r = ValidationResult::default();
    assert!(!r.is_valid);
    assert!(r.has_errors());
}

#[test]
fn with_error_fails_and_records() {
    let r = ValidationResult::new().with_error("bad".to_string());
    assert!(!r.is_valid);
    assert_eq!(r.errors, vec!["bad".to_string()]);
}

#[test]
fn with_field_error_replaces_earlier_message() {
    let r = ValidationResult::new()
        .with_field_error("name".to_string(), "first".to_string())
        .with_field_error("other".to_string(), "x".to_string())
        .with_field_error("name".to_string(), "second".to_string());
    assert!(r.has_errors());
    assert_eq!(r.field_errors.len(), 2);
    assert_eq!(field_error(&r, "name"), Some("second"));
    assert_eq!(field_error(&r, "other"), Some("x"));
}

#[test]
fn required_rejects_blank() {
    let r = required("  \t\n", "Name");
    assert!(!r.is_valid);
    assert_eq!(field_error(&r, "Name"), Some("Name is required"));
    let r = required("\u{3000}", "Name");
    assert!(!r.is_valid);
    assert!(required(" a ", "Name").is_valid);
    assert!(!required("", "Name").is_valid);
}

#[test]
fn min_length_counts_bytes() {
    let r = min_length("a", 2, "Item Name");
    assert_eq!(field_error(&r, "Item Name"), Some("Item Name must be at least 2 characters"));
    // one character of two bytes is long enough
    assert!(min_length("é", 2, "Item Name").is_valid);
    assert!(min_length("ab", 2, "Item Name").is_valid);
}

#[test]
fn max_length_message() {
    let r = max_length("abcdef", 5, "Tax Name");
    assert!(!r.is_valid);
    assert_eq!(field_error(&r, "Tax Name"), Some("Tax Name must be no more than 5 characters"));
    assert!(max_length("abcde", 5, "Tax Name").is_valid);
    let r = max_length(&"x".repeat(101), 100, "Discount Name");
    assert_eq!(field_error(&r, "Discount Name"), Some("Discount Name must be no more than 100 characters"));
}

#[test]
fn email_checks_shape() {
    assert!(email("user@example.com", "Email").is_valid);
    assert!(email("a@b.c", "Email").is_valid);
    let r = email("user@example", "Email");
    assert!(!r.is_valid);
    assert_eq!(field_error(&r, "Email"), Some("Email must be a valid email address"));
    assert!(!email("us er@example.com", "Email").is_valid);
    assert!(!email("a@@b.com", "Email").is_valid);
    assert!(!email("", "Email").is_valid);
}

#[test]
fn email_result_from_outcome() {
    assert!(email_result("Email", Some(true)).is_valid);
    assert!(!email_result("Email", Some(false)).is_valid);
    assert!(!email_result("Email", None).is_valid);
}

#[test]
fn combine_gathers_failures() {
    let a = ValidationResult::new().with_error("e1".to_string()).with_field_error("f".to_string(), "m1".to_string());
    let b = ValidationResult::new();
    let c = ValidationResult::new().with_error("e2".to_string()).with_field_error("f".to_string(), "m2".to_string());
    let r = combine_results(vec![a, b, c]);
    assert!(!r.is_valid);
    assert_eq!(r.errors, vec!["e1".to_string(), "e2".to_string()]);
    assert_eq!(r.field_errors.len(), 1);
    assert_eq!(field_error(&r, "f"), Some("m2"));
}

#[test]
fn combine_of_passing_results_passes() {
    let r = combine_results(vec![ValidationResult::new(), ValidationResult::new()]);
    assert!(r.is_valid);
    assert!(r.errors.is_empty());
    assert!(combine_results(vec![]).is_valid);
}

#[test]
fn combine_ignores_errors_of_valid_results() {
    let mut odd = ValidationResult::new();
    odd.errors.push("ignored".to_string());
    let r = combine_results(vec![odd]);
    assert!(r.is_valid);
    assert!(r.errors.is_empty());
}

#[test]
fn custom_field_form_validation() {
    let mut form = CustomFieldForm {
        name: "Due Date".to_string(),
        field_type: FieldType::Date,
        category: FieldCategory::GlobalInvoice,
        default_value: String::new(),
        required: true,
        is_default: false,
    };
    assert!(form.validate().is_valid);
    form.name = "D".to_string();
    let r = form.validate();
    assert!(!r.is_valid);
    assert_eq!(field_error(&r, "Field Name"), Some("Field Name must be at least 2 characters"));
    form.name = " ".to_string();
    let r = form.validate();
    // blank and too short: the later check's message wins for the field
    assert_eq!(field_error(&r, "Field Name"), Some("Field Name must be at least 2 characters"));
    form.name = "x".repeat(51);
    let r = form.validate();
    assert_eq!(field_error(&r, "Field Name"), Some("Field Name must be no more than 50 characters"));
}

#[test]
fn results_compare_by_what_they_say() {
    let a = ValidationResult::new()
        .with_field_error("name".to_string(), "Name is required".to_string())
        .with_field_error("rate".to_string(), "Rate cannot be negative".to_string());
    let b = ValidationResult::new()
        .with_field_error("rate".to_string(), "Rate cannot be negative".to_string())
        .with_field_error("name".to_string(), "Name is required".to_string());
    assert_eq!(a, b);
    let c = ValidationResult::new()
        .with_field_error("rate".to_string(), "other".to_string())
        .with_field_error("name".to_string(), "Name is required".to_string());
    assert_ne!(a, c);
    let d = a.clone().with_error("form".to_string());
    assert_ne!(a, d);
    assert_eq!(ValidationResult::new(), ValidationResult::new());
    assert_ne!(ValidationResult::new(), ValidationResult::default());
}
