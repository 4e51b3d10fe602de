use invomodo::container::{container_data, FieldDef, FieldKind, GroupDef, ValueSource};
use invomodo::fields::RenderContext;

fn field(id: &str, kind: FieldKind, hidden: bool, order: Option<i64>) -> FieldDef {
    FieldDef { id: id.to_string(), kind, is_hidden: hidden, order_in_group: order, default_checked: true }
}

fn group(id: &str, ids: &[&str]) -> GroupDef {
    GroupDef { id: id.to_string(), field_ids: ids.iter().map(|s| s.to_string()).collect() }
}

#[test]
fn groups_sorted_and_ungrouped_once() {
    let fields = vec![
        field("a", FieldKind::Number, false, Some(2)),
        field("b", FieldKind::Checkbox, false, None),
        field("c", FieldKind::Other, false, Some(1)),
        field("d", FieldKind::Other, true, None),
        field("e", FieldKind::Other, false, None),
        field("e", FieldKind::Number, false, None),
    ];
    let groups = vec![group("g1", &["a", "b", "c", "d"]), group("g2", &["d", "zz"])];
    let values = vec!["c".to_string()];
    let mut ctx = RenderContext::new();
    ctx.validation_errors.push(("a".to_string(), vec!["x".to_string(), "y".to_string()]));
    ctx.toggle_group("g1".to_string());
    ctx.focus("b".to_string());
    let d = container_data(&fields, &groups, &values, &ctx);
    assert_eq!(d.groups.len(), 1);
    let g = &d.groups[0];
    assert_eq!(g.group, 0);
    assert!(g.is_expanded);
    assert_eq!(g.fields.iter().map(|e| e.field).collect::<Vec<_>>(), vec![1, 2, 0]);
    assert_eq!(g.fields[0].value, ValueSource::CheckboxDefault(true));
    assert!(g.fields[0].is_focused);
    assert_eq!(g.fields[1].value, ValueSource::Given(0));
    assert_eq!(g.fields[2].value, ValueSource::NumberDefault);
    assert_eq!(g.fields[2].error_count, 2);
    assert_eq!(g.fields[2].error_entry, Some(0));
    assert_eq!(d.ungrouped_fields.len(), 1);
    assert_eq!(d.ungrouped_fields[0].field, 5);
    assert_eq!(d.ungrouped_fields[0].value, ValueSource::NumberDefault);
    assert_eq!(d.total_fields, 4);
    assert_eq!(d.total_errors, 2);
    assert!(!d.is_valid);
}

#[test]
fn empty_form_is_valid() {
    let d = container_data(&Vec::new(), &Vec::new(), &Vec::new(), &RenderContext::new());
    assert!(d.groups.is_empty() && d.ungrouped_fields.is_empty());
    assert_eq!((d.total_fields, d.total_errors), (0, 0));
    assert!(d.is_valid);
    let fields = vec![field("t", FieldKind::Other, false, None)];
    let d = container_data(&fields, &vec![group("g", &["t"]), group("g", &[])], &Vec::new(), &RenderContext::new());
    assert!(d.groups.is_empty());
    assert_eq!(d.ungrouped_fields[0].value, ValueSource::TextDefault);
}

#[test]
fn toggling_keeps_error_messages() {
    let mut ctx = RenderContext::new();
    ctx.validation_errors.push(("a".to_string(), vec!["bad".to_string()]));
    let before = ctx.validation_errors.clone();
    ctx.toggle_group("g".to_string());
    ctx.focus("a".to_string());
    ctx.mark_dirty("a".to_string());
    ctx.blur();
    assert_eq!(ctx.validation_errors, before);
}
