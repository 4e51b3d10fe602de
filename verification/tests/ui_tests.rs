use invomodo::pdf::pdf_data_url;
use invomodo::responsive::{screen_size_for_width, ScreenSize, DESKTOP_QUERY, MOBILE_QUERY};
use invomodo::shared::LayoutMode;
use invomodo::text::{
    bool_to_string, chars_of, copy_str, is_blank, is_whitespace_char, str_contains, str_eq,
    u64_to_decimal, u64_to_lower_hex,
};
use invomodo::ui::{
    badge_class, button_class, card_class, default_profile, errors_note, get_layout_classes,
    input_class, is_tab_active, main_margin_class, nav_item_class, select_class,
    sidebar_state_class, switch_class, switch_thumb_class, switch_toggled, tab_class,
    table_cell_class, table_class, table_head_class, table_row_class, FieldGroupLayout,
    HeadlessRendererConfig, BADGE_BASE, BUTTON_BASE, CARD_BASE, INPUT_BASE, SELECT_BASE,
    SWITCH_BASE, TABLE_CELL_BASE, TABLE_HEAD_BASE, TABLE_ROW_BASE, THUMB_BASE,
};

#[test]
fn pdf_urls_carry_base64() {
    assert_eq!(pdf_data_url(b"Man"), "data:application/pdf;base64,TWFu");
    assert_eq!(pdf_data_url(b"Ma"), "data:application/pdf;base64,TWE=");
    assert_eq!(pdf_data_url(b""), "data:application/pdf;base64,");
    assert_eq!(pdf_data_url(b"%PDF-1.7"), "data:application/pdf;base64,JVBERi0xLjc=");
}

#[test]
fn button_classes() {
    assert_eq!(
        button_class("outline", "sm", "w-full"),
        format!("{} border border-gray-200 bg-white hover:bg-gray-50 hover:text-gray-900 h-9 px-3 w-full", BUTTON_BASE)
    );
    assert_eq!(
        button_class("unknown", "huge", ""),
        format!("{} bg-gray-900 text-white hover:bg-gray-800 h-10 px-4 py-2 ", BUTTON_BASE)
    );
    assert_eq!(
        button_class("destructive", "lg", "x"),
        format!("{} bg-red-500 text-white hover:bg-red-600 h-11 px-8 x", BUTTON_BASE)
    );
}

#[test]
fn badge_and_switch_classes() {
    assert_eq!(
        badge_class("secondary", "ml-2"),
        format!("{} bg-gray-100 text-gray-900 hover:bg-gray-200 ml-2", BADGE_BASE)
    );
    assert_eq!(badge_class("", ""), format!("{} bg-gray-900 text-gray-50 hover:bg-gray-800 ", BADGE_BASE));
    assert_eq!(switch_class(true, "a"), format!("{} bg-gray-900 a", SWITCH_BASE));
    assert_eq!(switch_class(false, "a"), format!("{} bg-gray-200 a", SWITCH_BASE));
    assert_eq!(switch_thumb_class(true), format!("{} translate-x-5", THUMB_BASE));
    assert_eq!(switch_thumb_class(false), format!("{} translate-x-0", THUMB_BASE));
    assert!(switch_toggled(false));
    assert!(!switch_toggled(true));
}

#[test]
fn tabs_and_sidebar() {
    assert_eq!(tab_class(true), "px-4 py-3 text-sm font-semibold border-b-2 border-indigo-600 text-gray-900");
    assert_eq!(
        tab_class(false),
        "px-4 py-3 text-sm font-semibold border-b-2 border-transparent text-gray-600 hover:text-gray-900"
    );
    assert!(is_tab_active("general", "general"));
    assert!(!is_tab_active("general", "taxes"));
    assert_eq!(sidebar_state_class(true, true), "translate-x-0");
    assert_eq!(sidebar_state_class(false, true), "w-16 -translate-x-full lg:translate-x-0");
    assert_eq!(sidebar_state_class(false, false), "w-64 -translate-x-full lg:translate-x-0");
    assert_eq!(main_margin_class(true), "lg:ml-16");
    assert_eq!(main_margin_class(false), "lg:ml-64");
}

#[test]
fn layouts_and_notes() {
    assert_eq!(get_layout_classes(&FieldGroupLayout::Vertical), "space-y-4");
    assert_eq!(get_layout_classes(&FieldGroupLayout::Horizontal), "flex flex-wrap items-start gap-x-6 gap-y-4");
    assert_eq!(get_layout_classes(&FieldGroupLayout::Grid { columns: 1 }), "grid grid-cols-1 gap-4");
    assert_eq!(get_layout_classes(&FieldGroupLayout::Grid { columns: 2 }), "grid grid-cols-1 md:grid-cols-2 gap-4");
    assert_eq!(
        get_layout_classes(&FieldGroupLayout::Grid { columns: 4 }),
        "grid grid-cols-1 md:grid-cols-2 lg:grid-cols-3 xl:grid-cols-4 gap-4"
    );
    assert_eq!(
        get_layout_classes(&FieldGroupLayout::Grid { columns: 9 }),
        "grid grid-cols-1 md:grid-cols-2 lg:grid-cols-3 gap-4"
    );
    assert_eq!(errors_note(0), "");
    assert_eq!(errors_note(3), ", 3 errors");
    let p = default_profile();
    assert_eq!(p.name, "John Doe");
    assert_eq!(p.email, "john@example.com");
    assert_eq!(p.avatar_url, None);
    let c = HeadlessRendererConfig::default();
    assert!(c.auto_generation_enabled && c.validation_enabled);
    assert!(!c.real_time_validation && !c.auto_save_enabled);
    assert_eq!(c.auto_save_debounce_ms, 1000);
    assert_ne!(LayoutMode::Public, LayoutMode::Authenticated);
}

#[test]
fn screen_sizes() {
    assert_eq!(screen_size_for_width(Some(767)), ScreenSize::Mobile);
    assert_eq!(screen_size_for_width(Some(768)), ScreenSize::Tablet);
    assert_eq!(screen_size_for_width(Some(1023)), ScreenSize::Tablet);
    assert_eq!(screen_size_for_width(Some(1024)), ScreenSize::Desktop);
    assert_eq!(screen_size_for_width(None), ScreenSize::Desktop);
    assert!(ScreenSize::Tablet.is_mobile_or_tablet());
    assert!(!ScreenSize::Desktop.is_mobile_or_tablet());
    assert!(ScreenSize::Mobile.is_mobile() && ScreenSize::Tablet.is_tablet() && ScreenSize::Desktop.is_desktop());
    assert_eq!(MOBILE_QUERY, "(max-width: 767px)");
    assert_eq!(DESKTOP_QUERY, "(min-width: 1024px)");
}

#[test]
fn text_helpers() {
    assert_eq!(u64_to_decimal(0), "0");
    assert_eq!(u64_to_decimal(1234567890), "1234567890");
    assert_eq!(u64_to_decimal(u64::MAX), u64::MAX.to_string());
    assert_eq!(u64_to_lower_hex(0), "0");
    assert_eq!(u64_to_lower_hex(0xcbf29ce484222325), "cbf29ce484222325");
    assert!(str_contains("Hello world", "o w"));
    assert!(str_contains("abc", ""));
    assert!(!str_contains("abc", "abcd"));
    assert!(str_eq("x", "x") && !str_eq("x", "y"));
    assert!(is_blank(" \t\n\u{3000}"));
    assert!(!is_blank(" a "));
    assert!(is_whitespace_char('\u{2028}'));
    assert!(!is_whitespace_char('_'));
    assert_eq!(chars_of("héllo"), vec!['h', 'é', 'l', 'l', 'o']);
    assert_eq!(copy_str("abc"), "abc");
    assert_eq!(bool_to_string(true), "true");
    assert_eq!(bool_to_string(false), "false");
}

#[test]
fn container_classes() {
    assert_eq!(card_class("p-4"), "rounded-2xl border border-gray-200 bg-white text-gray-950 shadow-sm p-4");
    assert_eq!(card_class(""), format!("{} ", CARD_BASE));
    assert_eq!(input_class("w-1/2"), format!("{} w-1/2", INPUT_BASE));
    assert!(INPUT_BASE.starts_with("flex h-10 w-full rounded-2xl"));
    assert_eq!(select_class("x"), format!("{} x", SELECT_BASE));
    assert_eq!(table_class("mt-2"), "w-full caption-bottom text-sm mt-2");
    assert_eq!(table_row_class(""), format!("{} ", TABLE_ROW_BASE));
    assert_eq!(table_head_class("w-8"), format!("{} w-8", TABLE_HEAD_BASE));
    assert_eq!(table_cell_class("a"), format!("{} a", TABLE_CELL_BASE));
    assert_eq!(
        nav_item_class(true),
        "flex w-full items-center rounded-md px-3 py-2 text-sm font-medium transition-colors bg-accent text-accent-foreground"
    );
    assert!(nav_item_class(false).ends_with("text-muted-foreground hover:bg-accent hover:text-accent-foreground"));
}
