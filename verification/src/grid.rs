//! The headless editable grid: a list of items with a form that adds a new
//! item or edits one in place, and the responsive breakpoints the grid uses.
use vstd::prelude::*;
use crate::validation::ValidationResult;

verus! {

/// Items that a form can create and edit.
pub trait FormData: Sized {
    /// The form's own value, as the user types it.
    type FormProps;

    /// A new, empty item.
    fn default() -> Self;

    /// The form filled in with this item, for editing.
    fn to_form_props(&self) -> Self::FormProps;

    /// An item built from a submitted form.
    fn from_form_props(props: &Self::FormProps) -> Self;

    /// The empty form the grid returns to after a submit or a cancel.
    fn blank_props() -> Self::FormProps;
}

/// `form` is a form that `to_form_props` gives for `item`.
pub open spec fn form_for<T: FormData>(item: T, form: T::FormProps) -> bool {
    call_ensures(T::to_form_props, (&item,), form)
}

/// `item` is an item that `from_form_props` builds from `props`.
pub open spec fn built_from<T: FormData>(item: T, props: T::FormProps) -> bool {
    call_ensures(T::from_form_props, (&props,), item)
}

/// `form` is an empty form, as `blank_props` gives it.
pub open spec fn is_blank_form<T: FormData>(form: T::FormProps) -> bool {
    call_ensures(T::blank_props, (), form)
}

/// Items that can describe themselves in a list.
pub trait ItemData: Sized {
    /// The item's unique identifier.
    fn get_id(&self) -> String;

    /// The item's title.
    fn get_title(&self) -> String;

    /// A subtitle, if the item has one; by default there is none.
    fn get_subtitle(&self) -> (r: Option<String>)
        default_ensures
            r is None,
    {
        None
    }

    /// More details, as pairs of a key and a value; by default there are none.
    fn get_metadata(&self) -> (r: Vec<(String, String)>)
        default_ensures
            r@.len() == 0,
    {
        Vec::new()
    }
}

/// An item of the grid together with its position.
#[derive(Clone, Debug, PartialEq)]
pub struct ItemState<T> {
    pub data: T,
    pub index: usize,
}

impl<T> ItemState<T> {
    pub fn new(data: T, index: usize) -> (r: Self)
        ensures
            r.data == data,
            r.index == index,
    {
        ItemState { data, index }
    }
}

/// The form of the grid and whether it edits an item.
#[derive(Clone, Debug, PartialEq)]
pub struct FormState<P> {
    pub current_form: P,
    pub editing_index: Option<usize>,
    pub is_editing: bool,
}

impl<P> FormState<P> {
    /// The form state; it is editing exactly when an index is given.
    pub fn new(current_form: P, editing_index: Option<usize>) -> (r: Self)
        ensures
            r.current_form == current_form,
            r.editing_index == editing_index,
            r.is_editing == editing_index.is_some(),
    {
        let is_editing = editing_index.is_some();
        FormState { current_form, editing_index, is_editing }
    }
}

/// The grid as values: its items, its form and the item being edited.
pub struct GridView<T: FormData> {
    pub items: Seq<T>,
    pub form: T::FormProps,
    pub editing: Option<usize>,
}

/// The grid holds `items`, edits nothing and shows the empty form.
pub open spec fn is_fresh<T: FormData>(g: GridView<T>, items: Seq<T>) -> bool {
    g.items == items && g.editing is None && is_blank_form::<T>(g.form)
}

/// The items after submitting the new item `item`: while editing an item
/// that is still in the list it is replaced, while editing nothing the new
/// item is added at the end. (The grid then edits nothing, with an empty form.)
pub open spec fn submitted_items<T: FormData>(g: GridView<T>, item: T) -> Seq<T> {
    match g.editing {
        Some(i) => if i < g.items.len() {
            g.items.update(i as int, item)
        } else {
            g.items
        },
        None => g.items.push(item),
    }
}

/// Starting to edit item `i` of `g` gave `h`: the form is filled with the
/// item and the item is marked as edited; an index past the end is ignored.
pub open spec fn is_edited<T: FormData>(g: GridView<T>, i: usize, h: GridView<T>) -> bool {
    if i < g.items.len() {
        h.items == g.items && h.editing == Some(i) && form_for(g.items[i as int], h.form)
    } else {
        h == g
    }
}

/// The items after deleting item `i`; an index past the end removes nothing.
pub open spec fn deleted_items<T: FormData>(g: GridView<T>, i: usize) -> Seq<T> {
    if i < g.items.len() {
        g.items.remove(i as int)
    } else {
        g.items
    }
}

/// Deleting item `i` from `g` gave `h`: the item is gone, and when it was the
/// one being edited, editing stops and the form is emptied; otherwise the
/// form and the edited index stay as they were.
pub open spec fn is_deleted<T: FormData>(g: GridView<T>, i: usize, h: GridView<T>) -> bool {
    if g.editing == Some(i) {
        is_fresh(h, deleted_items(g, i))
    } else {
        h == GridView { items: deleted_items(g, i), form: g.form, editing: g.editing }
    }
}

/// The grid of items edited through a form.
pub struct EditableGrid<T: FormData> {
    items: Vec<T>,
    current_form: T::FormProps,
    editing_index: Option<usize>,
}

impl<T: FormData> View for EditableGrid<T> {
    type V = GridView<T>;

    closed spec fn view(&self) -> GridView<T> {
        GridView { items: self.items@, form: self.current_form, editing: self.editing_index }
    }
}

impl<T: FormData> EditableGrid<T> {
    /// A grid over the given items with a blank form.
    pub fn new(initial_data: Vec<T>) -> (r: Self)
        ensures
            is_fresh(r@, initial_data@),
    {
        EditableGrid { items: initial_data, current_form: T::blank_props(), editing_index: None }
    }

    /// The items, in order.
    pub fn items(&self) -> (r: &Vec<T>)
        ensures
            r@ == self@.items,
    {
        &self.items
    }

    /// The form as it stands.
    pub fn current_form(&self) -> (r: &T::FormProps)
        ensures
            *r == self@.form,
    {
        &self.current_form
    }

    /// The index of the item being edited, if any.
    pub fn editing_index(&self) -> (r: Option<usize>)
        ensures
            r == self@.editing,
    {
        self.editing_index
    }

    /// Whether an item is being edited.
    pub fn is_editing(&self) -> (r: bool)
        ensures
            r == self@.editing.is_some(),
    {
        self.editing_index.is_some()
    }

    /// Whether the grid has no items.
    pub fn is_empty(&self) -> (r: bool)
        ensures
            r == (self@.items.len() == 0),
    {
        self.items.len() == 0
    }

    /// The number of items.
    pub fn item_count(&self) -> (r: usize)
        ensures
            r == self@.items.len(),
    {
        self.items.len()
    }

    /// Submits a form: builds an item from it and adds it, or replaces the
    /// item being edited.
    pub fn submit_form(&mut self, form_data: T::FormProps)
        ensures
            exists|item: T|
                #![trigger built_from(item, form_data)]
                built_from(item, form_data) && is_fresh(final(self)@, submitted_items(old(self)@, item)),
    {
        let new_item = T::from_form_props(&form_data);
        let ghost item = new_item;
        match self.editing_index {
            Some(index) => {
                if index < self.items.len() {
                    self.items.set(index, new_item);
                }
            },
            None => {
                self.items.push(new_item);
            },
        }
        self.editing_index = None;
        self.current_form = T::blank_props();
        assert(built_from(item, form_data));
        assert(self@.items =~= submitted_items(old(self)@, item));
    }

    /// Starts editing item `index`: the form is filled with it.
    pub fn edit_item(&mut self, index: usize)
        ensures
            is_edited(old(self)@, index, final(self)@),
    {
        if index < self.items.len() {
            self.current_form = self.items[index].to_form_props();
            self.editing_index = Some(index);
        }
    }

    /// Deletes item `index`.
    pub fn delete_item(&mut self, index: usize)
        ensures
            is_deleted(old(self)@, index, final(self)@),
    {
        if index < self.items.len() {
            self.items.remove(index);
        }
        if self.editing_index == Some(index) {
            self.current_form = T::blank_props();
            self.editing_index = None;
        }
    }

    /// Stops editing and clears the form.
    pub fn cancel_edit(&mut self)
        ensures
            is_fresh(final(self)@, old(self)@.items),
    {
        self.current_form = T::blank_props();
        self.editing_index = None;
    }

    /// Replaces the form with what the user typed.
    pub fn update_form(&mut self, form_data: T::FormProps)
        ensures
            final(self)@ == (GridView {
                items: old(self)@.items,
                form: form_data,
                editing: old(self)@.editing,
            }),
    {
        self.current_form = form_data;
    }

    /// Clears the form and stops editing.
    pub fn clear_form(&mut self)
        ensures
            is_fresh(final(self)@, old(self)@.items),
    {
        self.current_form = T::blank_props();
        if self.editing_index.is_some() {
            self.editing_index = None;
        }
    }

    /// Submits a form when its check passed, as the grid's forms do: a
    /// failed check leaves the grid as it was.
    pub fn submit_if_valid(&mut self, form_data: T::FormProps, check: &ValidationResult) -> (submitted:
        bool)
        ensures
            submitted == check.is_valid,
            submitted ==> exists|item: T|
                #![trigger built_from(item, form_data)]
                built_from(item, form_data) && is_fresh(final(self)@, submitted_items(old(self)@, item)),
            !submitted ==> final(self)@ == old(self)@,
    {
        if check.is_valid {
            self.submit_form(form_data);
            true
        } else {
            false
        }
    }
}

impl<T: FormData> EditableGrid<T> where T::FormProps: Clone {
    /// The form and whether an item is being edited.
    pub fn form_state(&self) -> (r: FormState<T::FormProps>)
        ensures
            cloned(self@.form, r.current_form),
            r.editing_index == self@.editing,
            r.is_editing == self@.editing.is_some(),
    {
        FormState::new(self.current_form.clone(), self.editing_index)
    }
}

impl<T: FormData + Clone> EditableGrid<T> {
    /// The items paired with their positions, in order.
    pub fn item_states(&self) -> (r: Vec<ItemState<T>>)
        ensures
            r@.len() == self@.items.len(),
            forall|k: int|
                0 <= k < r@.len() ==> (#[trigger] r@[k]).index == k && cloned(self@.items[k], r@[k].data),
    {
        let mut r: Vec<ItemState<T>> = Vec::new();
        let mut k: usize = 0;
        while k < self.items.len()
            invariant
                k <= self.items@.len(),
                r@.len() == k,
                forall|j: int|
                    0 <= j < k ==> (#[trigger] r@[j]).index == j && cloned(self.items@[j], r@[j].data),
            decreases self.items.len() - k,
        {
            let data = self.items[k].clone();
            r.push(ItemState::new(data, k));
            k = k + 1;
        }
        r
    }
}

/// Screen widths of the editable grid.
#[derive(Clone, Copy, Debug, PartialEq, Eq, Structural)]
pub enum Breakpoint {
    /// Narrower than 640 pixels.
    Mobile,
    /// From 640 up to 1024 pixels.
    Tablet,
    /// 1024 pixels and wider.
    Desktop,
}

/// The layout the grid uses: cards on small screens, a table on large ones.
#[derive(Clone, Copy, Debug, PartialEq, Eq, Structural)]
pub enum DeviceType {
    Mobile,
    Desktop,
}

impl DeviceType {
    pub fn is_mobile(&self) -> (r: bool)
        ensures
            r == (*self == DeviceType::Mobile),
    {
        matches!(self, DeviceType::Mobile)
    }

    pub fn is_desktop(&self) -> (r: bool)
        ensures
            r == (*self == DeviceType::Desktop),
    {
        matches!(self, DeviceType::Desktop)
    }
}

/// The breakpoint of a window `width` pixels wide.
pub fn breakpoint_for_width(width: u64) -> (r: Breakpoint)
    ensures
        r == (if width < 640 {
            Breakpoint::Mobile
        } else if width < 1024 {
            Breakpoint::Tablet
        } else {
            Breakpoint::Desktop
        }),
{
    if width < 640 {
        Breakpoint::Mobile
    } else if width < 1024 {
        Breakpoint::Tablet
    } else {
        Breakpoint::Desktop
    }
}

/// The device type of a window `width` pixels wide.
pub fn device_type_for_width(width: u64) -> (r: DeviceType)
    ensures
        r == (if width < 1024 {
            DeviceType::Mobile
        } else {
            DeviceType::Desktop
        }),
{
    if width < 1024 {
        DeviceType::Mobile
    } else {
        DeviceType::Desktop
    }
}


/// Editing an item and submitting puts the new item in its place: the
/// other items and the count stay as they were.
pub proof fn lemma_edit_then_submit<T: FormData>(g: GridView<T>, i: usize, h: GridView<T>, item: T)
    requires
        i < g.items.len(),
        is_edited(g, i, h),
    ensures
        submitted_items(h, item) == g.items.update(i as int, item),
        submitted_items(h, item).len() == g.items.len(),
{
}

/// Submitting while no item is edited adds the new item at the end.
pub proof fn lemma_submit_appends<T: FormData>(g: GridView<T>, item: T)
    requires
        g.editing is None,
    ensures
        submitted_items(g, item) == g.items.push(item),
        submitted_items(g, item).len() == g.items.len() + 1,
{
}

/// Starting to edit never changes the items, so cancelling an edit leaves
/// the items as they were before it.
pub proof fn lemma_edit_keeps_items<T: FormData>(g: GridView<T>, i: usize, h: GridView<T>)
    requires
        is_edited(g, i, h),
    ensures
        h.items == g.items,
{
}

/// Deleting an item in the list removes exactly that item: the count drops
/// by one, earlier items keep their places and later ones move up by one.
pub proof fn lemma_delete_removes_one<T: FormData>(g: GridView<T>, i: usize)
    requires
        i < g.items.len(),
    ensures
        deleted_items(g, i).len() == g.items.len() - 1,
        forall|k: int| 0 <= k < i ==> #[trigger] deleted_items(g, i)[k] == g.items[k],
        forall|k: int| i <= k < g.items.len() - 1 ==> #[trigger] deleted_items(g, i)[k] == g.items[k + 1],
{
}

/// Deleting the item being edited stops the edit.
pub proof fn lemma_delete_edited_stops_edit<T: FormData>(g: GridView<T>, i: usize, h: GridView<T>)
    requires
        g.editing == Some(i),
        is_deleted(g, i, h),
    ensures
        h.editing is None,
        is_blank_form::<T>(h.form),
{
}

} // verus!
