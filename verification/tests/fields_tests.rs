use invomodo::fields::RenderContext;

#[test]
fn toggling_groups() {
    let mut ctx = RenderContext::new();
    assert!(!ctx.is_expanded("billing"));
    ctx.toggle_group("billing".to_string());
    assert!(ctx.is_expanded("billing"));
    ctx.toggle_group("client".to_string());
    ctx.toggle_group("billing".to_string());
    assert!(!ctx.is_expanded("billing"));
    assert!(ctx.is_expanded("client"));
}

#[test]
fn focus_dirty_and_reset() {
    let mut ctx = RenderContext::new();
    ctx.focus("po".to_string());
    assert!(ctx.is_focused("po"));
    assert!(!ctx.is_focused("due"));
    ctx.mark_dirty("po".to_string());
    ctx.mark_dirty("po".to_string());
    assert!(ctx.is_dirty("po"));
    assert_eq!(ctx.dirty_fields.len(), 1);
    ctx.toggle_group("g".to_string());
    ctx.validation_errors.push(("po".to_string(), vec!["bad".to_string()]));
    ctx.blur();
    assert!(!ctx.is_focused("po"));
    ctx.focus("po".to_string());
    ctx.reset();
    assert!(!ctx.is_focused("po"));
    assert!(!ctx.is_dirty("po"));
    assert!(ctx.validation_errors.is_empty());
    assert!(ctx.is_expanded("g"));
}
