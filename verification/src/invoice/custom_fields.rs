//! Custom fields that can be added to an invoice.
use vstd::prelude::*;
use crate::grid::{built_from, form_for, is_blank_form, FormData, ItemData};
use crate::text::{bool_text, bool_to_string, copy_str, is_blank_spec, str_eq, text_len};
use crate::validation::validators::{
    combine_results, combined, max_length, max_length_view, min_length, min_length_view, required,
    required_view,
};
use crate::validation::{FormValidation, ValidationResult, ValidationView};

verus! {

/// Where on the invoice a custom field appears.
#[derive(Clone, Copy, Debug, PartialEq, Eq, Structural)]
pub enum FieldCategory {
    GlobalInvoice,
    BillerAddress,
    ClientAddress,
    LineItem,
    BillingDetails,
}

/// What kind of value a custom field holds.
#[derive(Clone, Copy, Debug, PartialEq, Eq, Structural)]
pub enum FieldType {
    Text,
    Number,
    Email,
    Phone,
    Dropdown,
    Date,
    Checkbox,
    Textarea,
}

impl FieldCategory {
    /// The category's name for people.
    pub open spec fn label_spec(self) -> Seq<char> {
        match self {
            FieldCategory::BillerAddress => "Biller Address"@,
            FieldCategory::ClientAddress => "Client Address"@,
            FieldCategory::LineItem => "Line Item"@,
            FieldCategory::GlobalInvoice => "Global Invoice"@,
            FieldCategory::BillingDetails => "Billing Details"@,
        }
    }

    /// The category's name for people, as it is displayed.
    pub fn label(&self) -> (r: &'static str)
        ensures
            r@ == self.label_spec(),
    {
        match self {
            FieldCategory::BillerAddress => "Biller Address",
            FieldCategory::ClientAddress => "Client Address",
            FieldCategory::LineItem => "Line Item",
            FieldCategory::GlobalInvoice => "Global Invoice",
            FieldCategory::BillingDetails => "Billing Details",
        }
    }

    /// The category chosen in the category select: unknown values give the default.
    pub open spec fn from_select_spec(value: Seq<char>) -> FieldCategory {
        if value == "BillerAddress"@ {
            FieldCategory::BillerAddress
        } else if value == "ClientAddress"@ {
            FieldCategory::ClientAddress
        } else if value == "LineItem"@ {
            FieldCategory::LineItem
        } else if value == "BillingDetails"@ {
            FieldCategory::BillingDetails
        } else {
            FieldCategory::GlobalInvoice
        }
    }

    /// Reads the value of the category select.
    pub fn from_select_value(value: &str) -> (r: FieldCategory)
        ensures
            r == Self::from_select_spec(value@),
    {
        if str_eq(value, "BillerAddress") {
            FieldCategory::BillerAddress
        } else if str_eq(value, "ClientAddress") {
            FieldCategory::ClientAddress
        } else if str_eq(value, "LineItem") {
            FieldCategory::LineItem
        } else if str_eq(value, "BillingDetails") {
            FieldCategory::BillingDetails
        } else {
            FieldCategory::GlobalInvoice
        }
    }
}

impl Default for FieldCategory {
    fn default() -> (r: Self)
        ensures
            r == FieldCategory::GlobalInvoice,
    {
        FieldCategory::GlobalInvoice
    }
}

impl FieldType {
    /// The type's name, which is also its value in the type select.
    pub open spec fn label_spec(self) -> Seq<char> {
        match self {
            FieldType::Text => "Text"@,
            FieldType::Number => "Number"@,
            FieldType::Email => "Email"@,
            FieldType::Phone => "Phone"@,
            FieldType::Dropdown => "Dropdown"@,
            FieldType::Date => "Date"@,
            FieldType::Checkbox => "Checkbox"@,
            FieldType::Textarea => "Textarea"@,
        }
    }

    /// The type's name, as it is displayed.
    pub fn label(&self) -> (r: &'static str)
        ensures
            r@ == self.label_spec(),
    {
        match self {
            FieldType::Text => "Text",
            FieldType::Number => "Number",
            FieldType::Email => "Email",
            FieldType::Phone => "Phone",
            FieldType::Dropdown => "Dropdown",
            FieldType::Date => "Date",
            FieldType::Checkbox => "Checkbox",
            FieldType::Textarea => "Textarea",
        }
    }

    /// The type chosen in the type select: unknown values give `Text`.
    pub open spec fn from_select_spec(value: Seq<char>) -> FieldType {
        if value == "Number"@ {
            FieldType::Number
        } else if value == "Email"@ {
            FieldType::Email
        } else if value == "Phone"@ {
            FieldType::Phone
        } else if value == "Dropdown"@ {
            FieldType::Dropdown
        } else if value == "Date"@ {
            FieldType::Date
        } else if value == "Checkbox"@ {
            FieldType::Checkbox
        } else if value == "Textarea"@ {
            FieldType::Textarea
        } else {
            FieldType::Text
        }
    }

    /// Reads the value of the type select.
    pub fn from_select_value(value: &str) -> (r: FieldType)
        ensures
            r == Self::from_select_spec(value@),
    {
        if str_eq(value, "Number") {
            FieldType::Number
        } else if str_eq(value, "Email") {
            FieldType::Email
        } else if str_eq(value, "Phone") {
            FieldType::Phone
        } else if str_eq(value, "Dropdown") {
            FieldType::Dropdown
        } else if str_eq(value, "Date") {
            FieldType::Date
        } else if str_eq(value, "Checkbox") {
            FieldType::Checkbox
        } else if str_eq(value, "Textarea") {
            FieldType::Textarea
        } else {
            FieldType::Text
        }
    }
}

impl Default for FieldType {
    fn default() -> (r: Self)
        ensures
            r == FieldType::Text,
    {
        FieldType::Text
    }
}

/// A custom field of the invoice.
#[derive(Clone, Debug, PartialEq)]
pub struct CustomFieldItem {
    pub id: String,
    pub name: String,
    pub field_type: FieldType,
    pub category: FieldCategory,
    pub default_value: String,
    pub required: bool,
    pub is_default: bool,
}

/// The form a custom field is added or edited with.
#[derive(Clone, Debug, PartialEq)]
pub struct CustomFieldForm {
    pub name: String,
    pub field_type: FieldType,
    pub category: FieldCategory,
    pub default_value: String,
    pub required: bool,
    pub is_default: bool,
}

impl CustomFieldForm {
    /// The form holds the same values as `other`.
    pub open spec fn same_as(self, other: CustomFieldForm) -> bool {
        &&& self.name@ == other.name@
        &&& self.field_type == other.field_type
        &&& self.category == other.category
        &&& self.default_value@ == other.default_value@
        &&& self.required == other.required
        &&& self.is_default == other.is_default
    }

    /// The empty form: no name, a text field of the whole invoice, nothing checked.
    pub open spec fn is_blank(self) -> bool {
        &&& self.name@ == Seq::<char>::empty()
        &&& self.field_type == FieldType::Text
        &&& self.category == FieldCategory::GlobalInvoice
        &&& self.default_value@ == Seq::<char>::empty()
        &&& !self.required
        &&& !self.is_default
    }

    /// The empty form.
    pub fn blank() -> (r: Self)
        ensures
            r.is_blank(),
    {
        CustomFieldForm {
            name: String::new(),
            field_type: FieldType::Text,
            category: FieldCategory::GlobalInvoice,
            default_value: String::new(),
            required: false,
            is_default: false,
        }
    }
}

impl Default for CustomFieldForm {
    fn default() -> (r: Self)
        ensures
            r.is_blank(),
    {
        CustomFieldForm::blank()
    }
}

/// The name of a custom field is required and takes 2 to 50 bytes.
pub open spec fn custom_field_validation(form: CustomFieldForm) -> ValidationView {
    combined(
        seq![
            required_view(form.name@, "Field Name"@),
            min_length_view(text_len(form.name@), 2, "Field Name"@),
            max_length_view(text_len(form.name@), 50, "Field Name"@),
        ],
    )
}

impl FormValidation for CustomFieldForm {
    open spec fn validation(&self) -> ValidationView {
        custom_field_validation(*self)
    }

    fn validate(&self) -> (r: ValidationResult) {
        let mut results: Vec<ValidationResult> = Vec::new();
        results.push(required(self.name.as_str(), "Field Name"));
        results.push(min_length(self.name.as_str(), 2, "Field Name"));
        results.push(max_length(self.name.as_str(), 50, "Field Name"));
        let r = combine_results(results);
        proof {
            reveal_strlit("Field Name");
            assert(crate::validation::validators::views(results@) =~= seq![
                required_view(self.name@, "Field Name"@),
                min_length_view(text_len(self.name@), 2, "Field Name"@),
                max_length_view(text_len(self.name@), 50, "Field Name"@),
            ]);
        }
        r
    }
}

impl CustomFieldItem {
    /// The item holds the values of `form`.
    pub open spec fn holds(self, form: CustomFieldForm) -> bool {
        &&& self.name@ == form.name@
        &&& self.field_type == form.field_type
        &&& self.category == form.category
        &&& self.default_value@ == form.default_value@
        &&& self.required == form.required
        &&& self.is_default == form.is_default
    }

    /// The details listed for the field: its type, its category and its two flags.
    pub open spec fn metadata_spec(self) -> Seq<(Seq<char>, Seq<char>)> {
        seq![
            ("field_type"@, self.field_type.label_spec()),
            ("category"@, self.category.label_spec()),
            ("required"@, bool_text(self.required)),
            ("is_default"@, bool_text(self.is_default)),
        ]
    }
}

/// The texts of a list of key-value pairs.
pub open spec fn pair_texts(s: Seq<(String, String)>) -> Seq<(Seq<char>, Seq<char>)> {
    s.map_values(|p: (String, String)| (p.0@, p.1@))
}

fn pair(key: &str, value: String) -> (r: (String, String))
    ensures
        r.0@ == key@,
        r.1@ == value@,
{
    (copy_str(key), value)
}

impl FormData for CustomFieldItem {
    type FormProps = CustomFieldForm;

    fn default() -> (r: Self)
        ensures
            r.name@ == Seq::<char>::empty(),
            r.field_type == FieldType::Text,
            r.category == FieldCategory::GlobalInvoice,
            r.default_value@ == Seq::<char>::empty(),
            !r.required,
            !r.is_default,
            r.id@.len() == 36,
            r.id@[8] == '-' && r.id@[13] == '-' && r.id@[18] == '-' && r.id@[23] == '-',
            r.id@[14] == '4',
    {
        CustomFieldItem {
            id: crate::outside::new_uuid_v4(),
            name: String::new(),
            field_type: FieldType::Text,
            category: FieldCategory::GlobalInvoice,
            default_value: String::new(),
            required: false,
            is_default: false,
        }
    }

    fn to_form_props(&self) -> (p: CustomFieldForm)
        ensures
            self.holds(p),
    {
        CustomFieldForm {
            name: self.name.clone(),
            field_type: self.field_type,
            category: self.category,
            default_value: self.default_value.clone(),
            required: self.required,
            is_default: self.is_default,
        }
    }

    fn from_form_props(props: &CustomFieldForm) -> (r: Self)
        ensures
            r.holds(*props),
            r.id@.len() == 36,
            r.id@[8] == '-' && r.id@[13] == '-' && r.id@[18] == '-' && r.id@[23] == '-',
            r.id@[14] == '4',
    {
        CustomFieldItem {
            id: crate::outside::new_uuid_v4(),
            name: props.name.clone(),
            field_type: props.field_type,
            category: props.category,
            default_value: props.default_value.clone(),
            required: props.required,
            is_default: props.is_default,
        }
    }

    fn blank_props() -> (p: CustomFieldForm)
        ensures
            p.is_blank(),
    {
        CustomFieldForm {
            name: String::new(),
            field_type: FieldType::Text,
            category: FieldCategory::GlobalInvoice,
            default_value: String::new(),
            required: false,
            is_default: false,
        }
    }
}

impl ItemData for CustomFieldItem {
    fn get_id(&self) -> (r: String)
        ensures
            r@ == self.id@,
    {
        self.id.clone()
    }

    fn get_title(&self) -> (r: String)
        ensures
            r@ == self.name@,
    {
        self.name.clone()
    }

    fn get_subtitle(&self) -> (r: Option<String>)
        ensures
            r matches Some(s) && s@ == self.default_value@,
    {
        Some(self.default_value.clone())
    }

    fn get_metadata(&self) -> (r: Vec<(String, String)>)
        ensures
            pair_texts(r@) == self.metadata_spec(),
    {
        let mut r: Vec<(String, String)> = Vec::new();
        r.push(pair("field_type", copy_str(self.field_type.label())));
        r.push(pair("category", copy_str(self.category.label())));
        r.push(pair("required", bool_to_string(self.required)));
        r.push(pair("is_default", bool_to_string(self.is_default)));
        assert(pair_texts(r@) =~= self.metadata_spec());
        r
    }
}


fn custom_field(
    id: &str,
    name: &str,
    field_type: FieldType,
    category: FieldCategory,
    default_value: &str,
    required: bool,
    is_default: bool,
) -> (r: CustomFieldItem)
    ensures
        r.id@ == id@,
        r.name@ == name@,
        r.field_type == field_type,
        r.category == category,
        r.default_value@ == default_value@,
        r.required == required,
        r.is_default == is_default,
{
    CustomFieldItem {
        id: copy_str(id),
        name: copy_str(name),
        field_type,
        category,
        default_value: copy_str(default_value),
        required,
        is_default,
    }
}

/// The custom fields a new invoice starts with: a required due date of
/// "30 days" (a default field), an optional purchase-order number, and a
/// client ID that starts as "CUST-" among the client's address fields.
pub fn default_custom_fields() -> (r: Vec<CustomFieldItem>)
    ensures
        r@.len() == 3,
        r@[0].id@ == "1"@ && r@[0].name@ == "Due Date"@ && r@[0].field_type == FieldType::Date
            && r@[0].category == FieldCategory::GlobalInvoice && r@[0].default_value@ == "30 days"@
            && r@[0].required && r@[0].is_default,
        r@[1].id@ == "2"@ && r@[1].name@ == "PO Number"@ && r@[1].field_type == FieldType::Number
            && r@[1].category == FieldCategory::GlobalInvoice && r@[1].default_value@
            == Seq::<char>::empty() && !r@[1].required && !r@[1].is_default,
        r@[2].id@ == "3"@ && r@[2].name@ == "Client ID"@ && r@[2].field_type == FieldType::Text
            && r@[2].category == FieldCategory::ClientAddress && r@[2].default_value@ == "CUST-"@
            && !r@[2].required && !r@[2].is_default,
{
    let mut r: Vec<CustomFieldItem> = Vec::new();
    r.push(
        custom_field(
            "1",
            "Due Date",
            FieldType::Date,
            FieldCategory::GlobalInvoice,
            "30 days",
            true,
            true,
        ),
    );
    r.push(
        custom_field("2", "PO Number", FieldType::Number, FieldCategory::GlobalInvoice, "", false, false),
    );
    r.push(
        custom_field(
            "3",
            "Client ID",
            FieldType::Text,
            FieldCategory::ClientAddress,
            "CUST-",
            false,
            false,
        ),
    );
    proof {
        reveal_strlit("");
    }
    r
}


/// A custom field's form passes exactly when its name is not blank and
/// takes 2 to 50 bytes.
pub proof fn lemma_custom_field_valid(form: CustomFieldForm)
    ensures
        custom_field_validation(form).is_valid <==> (!is_blank_spec(form.name@) && 2 <= text_len(
            form.name@,
        ) <= 50),
{
    let vs = seq![
        required_view(form.name@, "Field Name"@),
        min_length_view(text_len(form.name@), 2, "Field Name"@),
        max_length_view(text_len(form.name@), 50, "Field Name"@),
    ];
    crate::validation::validators::lemma_combined_valid(vs);
    if custom_field_validation(form).is_valid {
        assert(vs[0].is_valid && vs[1].is_valid && vs[2].is_valid);
    }
}

/// In the editable grid of custom fields, the form of an edited field holds
/// the field's values, a submitted form becomes a field with those values and
/// a fresh identifier, and the empty form is the blank one.
pub proof fn lemma_custom_field_grid_forms(item: CustomFieldItem, form: CustomFieldForm)
    ensures
        form_for(item, form) ==> item.holds(form),
        built_from(item, form) ==> item.holds(form) && item.id@.len() == 36,
        is_blank_form::<CustomFieldItem>(form) ==> form.is_blank(),
{
}

} // verus!
