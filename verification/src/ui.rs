//! Class names and default data of the user-interface pieces: buttons,
//! badges, switches, tabs, the sidebar and the field groups.
use vstd::prelude::*;
use crate::shared::UserProfile;
use crate::text::{copy_str, decimal, str_eq, u64_to_decimal};

verus! {

/// The classes every button has.
pub const BUTTON_BASE: &'static str = "inline-flex items-center justify-center rounded-2xl font-medium ring-offset-background transition-colors focus-visible:outline-none focus-visible:ring-2 focus-visible:ring-ring focus-visible:ring-offset-2 disabled:pointer-events-none disabled:opacity-50";

/// The classes of a button variant; unknown variants look like the default one.
pub open spec fn button_variant_spec(variant: Seq<char>) -> Seq<char> {
    if variant == "destructive"@ {
        "bg-red-500 text-white hover:bg-red-600"@
    } else if variant == "outline"@ {
        "border border-gray-200 bg-white hover:bg-gray-50 hover:text-gray-900"@
    } else if variant == "secondary"@ {
        "bg-gray-100 text-gray-900 hover:bg-gray-200"@
    } else if variant == "ghost"@ {
        "hover:bg-gray-100 hover:text-gray-900"@
    } else if variant == "link"@ {
        "text-blue-600 underline-offset-4 hover:underline"@
    } else {
        "bg-gray-900 text-white hover:bg-gray-800"@
    }
}

fn button_variant(variant: &str) -> (r: &'static str)
    ensures
        r@ == button_variant_spec(variant@),
{
    if str_eq(variant, "destructive") {
        "bg-red-500 text-white hover:bg-red-600"
    } else if str_eq(variant, "outline") {
        "border border-gray-200 bg-white hover:bg-gray-50 hover:text-gray-900"
    } else if str_eq(variant, "secondary") {
        "bg-gray-100 text-gray-900 hover:bg-gray-200"
    } else if str_eq(variant, "ghost") {
        "hover:bg-gray-100 hover:text-gray-900"
    } else if str_eq(variant, "link") {
        "text-blue-600 underline-offset-4 hover:underline"
    } else {
        "bg-gray-900 text-white hover:bg-gray-800"
    }
}

/// The classes of a button size; unknown sizes are the default one.
pub open spec fn button_size_spec(size: Seq<char>) -> Seq<char> {
    if size == "sm"@ {
        "h-9 px-3"@
    } else if size == "lg"@ {
        "h-11 px-8"@
    } else {
        "h-10 px-4 py-2"@
    }
}

fn button_size(size: &str) -> (r: &'static str)
    ensures
        r@ == button_size_spec(size@),
{
    if str_eq(size, "sm") {
        "h-9 px-3"
    } else if str_eq(size, "lg") {
        "h-11 px-8"
    } else {
        "h-10 px-4 py-2"
    }
}

/// The words joined by single spaces.
pub open spec fn spaced(a: Seq<char>, b: Seq<char>) -> Seq<char> {
    a + " "@ + b
}

fn join_spaced(a: &str, b: &str) -> (r: String)
    ensures
        r@ == spaced(a@, b@),
{
    let mut r = copy_str(a);
    r.append(" ");
    r.append(b);
    r
}

/// The classes of a button: the base classes, the variant's, the size's and the extra ones.
pub fn button_class(variant: &str, size: &str, class: &str) -> (r: String)
    ensures
        r@ == spaced(
            spaced(spaced(BUTTON_BASE@, button_variant_spec(variant@)), button_size_spec(size@)),
            class@,
        ),
{
    let a = join_spaced(BUTTON_BASE, button_variant(variant));
    let b = join_spaced(a.as_str(), button_size(size));
    join_spaced(b.as_str(), class)
}

/// The classes every badge has.
pub const BADGE_BASE: &'static str = "inline-flex items-center rounded-full px-2.5 py-0.5 text-xs font-semibold transition-colors focus:outline-none focus:ring-2 focus:ring-gray-950 focus:ring-offset-2";

/// The classes of a badge variant; unknown variants look like the default one.
pub open spec fn badge_variant_spec(variant: Seq<char>) -> Seq<char> {
    if variant == "secondary"@ {
        "bg-gray-100 text-gray-900 hover:bg-gray-200"@
    } else if variant == "destructive"@ {
        "bg-red-100 text-red-900 hover:bg-red-200"@
    } else if variant == "outline"@ {
        "border border-gray-200 text-gray-950"@
    } else {
        "bg-gray-900 text-gray-50 hover:bg-gray-800"@
    }
}

/// The classes of a badge: the base classes, the variant's and the extra ones.
pub fn badge_class(variant: &str, class: &str) -> (r: String)
    ensures
        r@ == spaced(spaced(BADGE_BASE@, badge_variant_spec(variant@)), class@),
{
    let v = if str_eq(variant, "secondary") {
        "bg-gray-100 text-gray-900 hover:bg-gray-200"
    } else if str_eq(variant, "destructive") {
        "bg-red-100 text-red-900 hover:bg-red-200"
    } else if str_eq(variant, "outline") {
        "border border-gray-200 text-gray-950"
    } else {
        "bg-gray-900 text-gray-50 hover:bg-gray-800"
    };
    let a = join_spaced(BADGE_BASE, v);
    join_spaced(a.as_str(), class)
}

/// The classes every switch has.
pub const SWITCH_BASE: &'static str = "peer inline-flex h-6 w-11 shrink-0 cursor-pointer items-center rounded-full border-2 border-transparent transition-colors focus-visible:outline-none focus-visible:ring-2 focus-visible:ring-gray-950 focus-visible:ring-offset-2 focus-visible:ring-offset-white disabled:cursor-not-allowed disabled:opacity-50";

/// The classes of a switch: dark when on, light when off, then the extra ones.
pub fn switch_class(checked: bool, class: &str) -> (r: String)
    ensures
        r@ == spaced(
            spaced(SWITCH_BASE@, if checked { "bg-gray-900"@ } else { "bg-gray-200"@ }),
            class@,
        ),
{
    let a = join_spaced(SWITCH_BASE, if checked { "bg-gray-900" } else { "bg-gray-200" });
    join_spaced(a.as_str(), class)
}

/// The classes every switch thumb has.
pub const THUMB_BASE: &'static str = "pointer-events-none block h-5 w-5 rounded-full bg-white shadow-lg ring-0 transition-transform";

/// The classes of a switch's thumb: moved to the right when on.
pub fn switch_thumb_class(checked: bool) -> (r: String)
    ensures
        r@ == spaced(THUMB_BASE@, if checked { "translate-x-5"@ } else { "translate-x-0"@ }),
{
    join_spaced(THUMB_BASE, if checked { "translate-x-5" } else { "translate-x-0" })
}

/// The value a switch reports when clicked: the opposite of its state.
pub fn switch_toggled(checked: bool) -> (r: bool)
    ensures
        r == !checked,
{
    !checked
}

/// The classes every card has.
pub const CARD_BASE: &'static str = "rounded-2xl border border-gray-200 bg-white text-gray-950 shadow-sm";

/// The classes of a card: the base classes and the extra ones.
pub fn card_class(class: &str) -> (r: String)
    ensures
        r@ == spaced(CARD_BASE@, class@),
{
    join_spaced(CARD_BASE, class)
}

/// The classes every text input has.
pub const INPUT_BASE: &'static str = "flex h-10 w-full rounded-2xl border border-gray-200 bg-white px-3 py-2 text-sm ring-offset-background file:border-0 file:bg-transparent file:text-sm file:font-medium placeholder:text-gray-500 focus-visible:outline-none focus-visible:ring-2 focus-visible:ring-gray-950 focus-visible:ring-offset-2 disabled:cursor-not-allowed disabled:opacity-50";

/// The classes of a text input: the base classes and the extra ones.
pub fn input_class(class: &str) -> (r: String)
    ensures
        r@ == spaced(INPUT_BASE@, class@),
{
    join_spaced(INPUT_BASE, class)
}

/// The classes every select has.
pub const SELECT_BASE: &'static str = "flex h-10 items-center justify-between rounded-2xl border border-gray-200 bg-white px-3 py-2 text-sm ring-offset-background placeholder:text-gray-500 focus:outline-none focus:ring-2 focus:ring-gray-950 focus:ring-offset-2 disabled:cursor-not-allowed disabled:opacity-50";

/// The classes of a select: the base classes and the extra ones.
pub fn select_class(class: &str) -> (r: String)
    ensures
        r@ == spaced(SELECT_BASE@, class@),
{
    join_spaced(SELECT_BASE, class)
}

/// The classes every table has.
pub const TABLE_BASE: &'static str = "w-full caption-bottom text-sm";

/// The classes of a table: the base classes and the extra ones.
pub fn table_class(class: &str) -> (r: String)
    ensures
        r@ == spaced(TABLE_BASE@, class@),
{
    join_spaced(TABLE_BASE, class)
}

/// The classes every table row has.
pub const TABLE_ROW_BASE: &'static str = "border-b transition-colors hover:bg-gray-50/50 data-[state=selected]:bg-gray-50";

/// The classes of a table row: the base classes and the extra ones.
pub fn table_row_class(class: &str) -> (r: String)
    ensures
        r@ == spaced(TABLE_ROW_BASE@, class@),
{
    join_spaced(TABLE_ROW_BASE, class)
}

/// The classes every table head cell has.
pub const TABLE_HEAD_BASE: &'static str = "h-12 px-4 text-left align-middle font-medium text-gray-500 [&:has([role=checkbox])]:pr-0";

/// The classes of a table head cell: the base classes and the extra ones.
pub fn table_head_class(class: &str) -> (r: String)
    ensures
        r@ == spaced(TABLE_HEAD_BASE@, class@),
{
    join_spaced(TABLE_HEAD_BASE, class)
}

/// The classes every table cell has.
pub const TABLE_CELL_BASE: &'static str = "p-4 align-middle [&:has([role=checkbox])]:pr-0";

/// The classes of a table cell: the base classes and the extra ones.
pub fn table_cell_class(class: &str) -> (r: String)
    ensures
        r@ == spaced(TABLE_CELL_BASE@, class@),
{
    join_spaced(TABLE_CELL_BASE, class)
}

/// The classes of a sidebar entry, highlighted when it is the active one.
pub open spec fn nav_item_class_spec(is_active: bool) -> Seq<char> {
    "flex w-full items-center rounded-md px-3 py-2 text-sm font-medium transition-colors "@ + if is_active {
        "bg-accent text-accent-foreground"@
    } else {
        "text-muted-foreground hover:bg-accent hover:text-accent-foreground"@
    }
}

/// The classes of a sidebar entry.
pub fn nav_item_class(is_active: bool) -> (r: String)
    ensures
        r@ == nav_item_class_spec(is_active),
{
    let mut classes = copy_str("flex w-full items-center rounded-md px-3 py-2 text-sm font-medium transition-colors ");
    if is_active {
        classes.append("bg-accent text-accent-foreground");
    } else {
        classes.append("text-muted-foreground hover:bg-accent hover:text-accent-foreground");
    }
    classes
}

/// The classes of a tab button, underlined when selected.
pub open spec fn tab_class_spec(selected: bool) -> Seq<char> {
    "px-4 py-3 text-sm font-semibold border-b-2 "@ + if selected {
        "border-indigo-600 text-gray-900"@
    } else {
        "border-transparent text-gray-600 hover:text-gray-900"@
    }
}

/// The classes of a tab button.
pub fn tab_class(selected: bool) -> (r: String)
    ensures
        r@ == tab_class_spec(selected),
{
    let mut classes = copy_str("px-4 py-3 text-sm font-semibold border-b-2 ");
    if selected {
        classes.append("border-indigo-600 text-gray-900");
    } else {
        classes.append("border-transparent text-gray-600 hover:text-gray-900");
    }
    classes
}

/// Whether the tab or panel named `name` is the active one.
pub fn is_tab_active(active: &str, name: &str) -> (r: bool)
    ensures
        r == (active@ == name@),
{
    str_eq(active, name)
}

/// The width and position of the sidebar: shown when opened on a small
/// screen, else narrow when collapsed and wide otherwise.
pub open spec fn sidebar_state_spec(is_mobile_open: bool, is_collapsed: bool) -> Seq<char> {
    if is_mobile_open {
        "translate-x-0"@
    } else if is_collapsed {
        "w-16 -translate-x-full lg:translate-x-0"@
    } else {
        "w-64 -translate-x-full lg:translate-x-0"@
    }
}

/// The classes of the sidebar that depend on its state.
pub fn sidebar_state_class(is_mobile_open: bool, is_collapsed: bool) -> (r: &'static str)
    ensures
        r@ == sidebar_state_spec(is_mobile_open, is_collapsed),
{
    if is_mobile_open {
        "translate-x-0"
    } else if is_collapsed {
        "w-16 -translate-x-full lg:translate-x-0"
    } else {
        "w-64 -translate-x-full lg:translate-x-0"
    }
}

/// The left margin of the main area, which leaves room for the sidebar.
pub fn main_margin_class(sidebar_collapsed: bool) -> (r: &'static str)
    ensures
        r@ == (if sidebar_collapsed { "lg:ml-16"@ } else { "lg:ml-64"@ }),
{
    if sidebar_collapsed {
        "lg:ml-16"
    } else {
        "lg:ml-64"
    }
}

/// How the fields of a group are laid out.
#[derive(Clone, Copy, Debug, PartialEq, Eq, Structural)]
pub enum FieldGroupLayout {
    Horizontal,
    Vertical,
    Grid { columns: u32 },
}

/// The classes of a group's layout; a grid of other than one to four columns has three.
pub open spec fn layout_classes_spec(layout: FieldGroupLayout) -> Seq<char> {
    match layout {
        FieldGroupLayout::Horizontal => "flex flex-wrap items-start gap-x-6 gap-y-4"@,
        FieldGroupLayout::Vertical => "space-y-4"@,
        FieldGroupLayout::Grid { columns } => if columns == 1 {
            "grid grid-cols-1 gap-4"@
        } else if columns == 2 {
            "grid grid-cols-1 md:grid-cols-2 gap-4"@
        } else if columns == 4 {
            "grid grid-cols-1 md:grid-cols-2 lg:grid-cols-3 xl:grid-cols-4 gap-4"@
        } else {
            "grid grid-cols-1 md:grid-cols-2 lg:grid-cols-3 gap-4"@
        },
    }
}

/// The classes of a group's layout.
pub fn get_layout_classes(layout: &FieldGroupLayout) -> (r: &'static str)
    ensures
        r@ == layout_classes_spec(*layout),
{
    match layout {
        FieldGroupLayout::Horizontal => "flex flex-wrap items-start gap-x-6 gap-y-4",
        FieldGroupLayout::Vertical => "space-y-4",
        FieldGroupLayout::Grid { columns } => match columns {
            1 => "grid grid-cols-1 gap-4",
            2 => "grid grid-cols-1 md:grid-cols-2 gap-4",
            3 => "grid grid-cols-1 md:grid-cols-2 lg:grid-cols-3 gap-4",
            4 => "grid grid-cols-1 md:grid-cols-2 lg:grid-cols-3 xl:grid-cols-4 gap-4",
            _ => "grid grid-cols-1 md:grid-cols-2 lg:grid-cols-3 gap-4",
        },
    }
}

/// The note on errors after a field count: empty without errors.
pub open spec fn errors_note_spec(errors: nat) -> Seq<char> {
    if errors > 0 {
        ", "@ + decimal(errors) + " errors"@
    } else {
        Seq::empty()
    }
}

/// The note on errors shown after a field count.
pub fn errors_note(errors: u64) -> (r: String)
    ensures
        r@ == errors_note_spec(errors as nat),
{
    if errors > 0 {
        let mut r = copy_str(", ");
        r.append(u64_to_decimal(errors).as_str());
        r.append(" errors");
        r
    } else {
        String::new()
    }
}

/// The profile shown when none is given.
pub fn default_profile() -> (r: UserProfile)
    ensures
        r.name@ == "John Doe"@,
        r.email@ == "john@example.com"@,
        r.avatar_url is None,
{
    UserProfile { name: copy_str("John Doe"), email: copy_str("john@example.com"), avatar_url: None }
}


/// How the headless fields renderer behaves.
#[derive(Clone, Debug, PartialEq)]
pub struct HeadlessRendererConfig {
    pub auto_generation_enabled: bool,
    pub validation_enabled: bool,
    pub real_time_validation: bool,
    pub auto_save_enabled: bool,
    pub auto_save_debounce_ms: u64,
}

impl Default for HeadlessRendererConfig {
    /// Generated values and validation on, checking as one types and saving
    /// automatically off, a one-second pause before saving.
    fn default() -> (r: Self)
        ensures
            r.auto_generation_enabled,
            r.validation_enabled,
            !r.real_time_validation,
            !r.auto_save_enabled,
            r.auto_save_debounce_ms == 1000,
    {
        HeadlessRendererConfig {
            auto_generation_enabled: true,
            validation_enabled: true,
            real_time_validation: false,
            auto_save_enabled: false,
            auto_save_debounce_ms: 1000,
        }
    }
}

} // verus!
