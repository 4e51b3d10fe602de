use invomodo::validation::ValidationResult;
use invomodo::grid::{breakpoint_for_width, device_type_for_width, Breakpoint, DeviceType, EditableGrid, FormState, ItemState};
use invomodo::invoice::custom_fields::{default_custom_fields, CustomFieldForm, FieldCategory, FieldType};

fn form(name: &str) -> CustomFieldForm {
    CustomFieldForm {
        name: name.to_string(),
        field_type: FieldType::Email,
        category: FieldCategory::ClientAddress,
        default_value: "x@y.z".to_string(),
        required: true,
        is_default: false,
    }
}

#[test]
fn new_grid_is_fresh() {
    let grid = EditableGrid::new(default_custom_fields());
    assert_eq!(grid.item_count(), 3);
    assert!(!grid.is_empty());
    assert!(!grid.is_editing());
    assert_eq!(grid.editing_index(), None);
    assert_eq!(*grid.current_form(), CustomFieldForm::blank());
    let empty = EditableGrid::<invomodo::invoice::custom_fields::CustomFieldItem>::new(Vec::new());
    assert!(empty.is_empty());
    assert_eq!(empty.item_count(), 0);
}

#[test]
fn submit_adds_at_the_end() {
    let mut grid = EditableGrid::new(default_custom_fields());
    grid.update_form(form("Email"));
    assert_eq!(grid.current_form().name, "Email");
    grid.submit_form(form("Email"));
    assert_eq!(grid.item_count(), 4);
    let added = &grid.items()[3];
    assert_eq!(added.name, "Email");
    assert_eq!(added.field_type, FieldType::Email);
    assert_eq!(added.category, FieldCategory::ClientAddress);
    assert_eq!(added.default_value, "x@y.z");
    assert!(added.required);
    assert_eq!(added.id.len(), 36);
    assert_eq!(*grid.current_form(), CustomFieldForm::blank());
    assert!(!grid.is_editing());
}

#[test]
fn edit_then_submit_replaces() {
    let mut grid = EditableGrid::new(default_custom_fields());
    grid.edit_item(1);
    assert_eq!(grid.editing_index(), Some(1));
    assert!(grid.is_editing());
    assert_eq!(grid.current_form().name, "PO Number");
    assert_eq!(grid.current_form().field_type, FieldType::Number);
    grid.submit_form(form("Order"));
    assert_eq!(grid.item_count(), 3);
    assert_eq!(grid.items()[1].name, "Order");
    assert_eq!(grid.items()[0].name, "Due Date");
    assert_eq!(grid.items()[2].name, "Client ID");
    assert_eq!(grid.editing_index(), None);
}

#[test]
fn edit_past_the_end_is_ignored() {
    let mut grid = EditableGrid::new(default_custom_fields());
    grid.edit_item(7);
    assert_eq!(grid.editing_index(), None);
    assert_eq!(*grid.current_form(), CustomFieldForm::blank());
}

#[test]
fn delete_removes_and_stops_editing() {
    let mut grid = EditableGrid::new(default_custom_fields());
    grid.edit_item(0);
    grid.delete_item(2);
    assert_eq!(grid.item_count(), 2);
    assert_eq!(grid.editing_index(), Some(0));
    assert_eq!(grid.current_form().name, "Due Date");
    grid.delete_item(0);
    assert_eq!(grid.item_count(), 1);
    assert_eq!(grid.items()[0].name, "PO Number");
    assert_eq!(grid.editing_index(), None);
    assert_eq!(*grid.current_form(), CustomFieldForm::blank());
    grid.delete_item(5);
    assert_eq!(grid.item_count(), 1);
}

#[test]
fn cancel_and_clear() {
    let mut grid = EditableGrid::new(default_custom_fields());
    grid.edit_item(2);
    grid.cancel_edit();
    assert!(!grid.is_editing());
    assert_eq!(*grid.current_form(), CustomFieldForm::blank());
    grid.edit_item(1);
    grid.clear_form();
    assert!(!grid.is_editing());
    assert_eq!(*grid.current_form(), CustomFieldForm::blank());
    assert_eq!(grid.item_count(), 3);
}

#[test]
fn states_and_breakpoints() {
    let s = ItemState::new(5u32, 2);
    assert_eq!(s.data, 5);
    assert_eq!(s.index, 2);
    let f = FormState::new(1u8, Some(3));
    assert!(f.is_editing);
    assert_eq!(f.editing_index, Some(3));
    assert!(!FormState::new(1u8, None).is_editing);
    assert_eq!(breakpoint_for_width(639), Breakpoint::Mobile);
    assert_eq!(breakpoint_for_width(640), Breakpoint::Tablet);
    assert_eq!(breakpoint_for_width(1023), Breakpoint::Tablet);
    assert_eq!(breakpoint_for_width(1024), Breakpoint::Desktop);
    assert_eq!(device_type_for_width(1023), DeviceType::Mobile);
    assert_eq!(device_type_for_width(1024), DeviceType::Desktop);
    assert!(DeviceType::Mobile.is_mobile());
    assert!(DeviceType::Desktop.is_desktop());
    assert!(!DeviceType::Desktop.is_mobile());
}

#[test]
fn submit_only_when_valid_and_states() {
    let mut grid = EditableGrid::new(default_custom_fields());
    let failed = ValidationResult::new().with_error("bad".to_string());
    assert!(!grid.submit_if_valid(form("Email"), &failed));
    assert_eq!(grid.item_count(), 3);
    assert!(grid.submit_if_valid(form("Email"), &ValidationResult::new()));
    assert_eq!(grid.item_count(), 4);
    let states = grid.item_states();
    assert_eq!(states.len(), 4);
    for (k, s) in states.iter().enumerate() {
        assert_eq!(s.index, k);
        assert_eq!(s.data, grid.items()[k]);
    }
    grid.edit_item(2);
    let fs = grid.form_state();
    assert!(fs.is_editing);
    assert_eq!(fs.editing_index, Some(2));
    assert_eq!(fs.current_form.name, "Client ID");
}
