//! Form validation results and the common validators the invoice forms are built from.
use vstd::prelude::*;
use crate::text::{copy_str, decimal};

pub mod validators;

verus! {

/// A field error: the field's name and its message.
pub type FieldError = (String, String);

/// The field errors as a map from field name to message; a later entry for
/// the same field replaces an earlier one.
pub open spec fn field_map(s: Seq<FieldError>) -> Map<Seq<char>, Seq<char>>
    decreases s.len(),
{
    if s.len() == 0 {
        Map::empty()
    } else {
        field_map(s.drop_last()).insert(s.last().0@, s.last().1@)
    }
}

/// The messages of a list of strings.
pub open spec fn texts(s: Seq<String>) -> Seq<Seq<char>> {
    s.map_values(|e: String| e@)
}

/// The outcome of validating a form.
#[derive(Clone, Debug)]
pub struct ValidationResult {
    pub is_valid: bool,
    /// Errors that belong to the form as a whole.
    pub errors: Vec<String>,
    /// Errors that belong to one field each, at most one per field.
    pub field_errors: Vec<FieldError>,
}

/// What a validation result says, as values.
pub struct ValidationView {
    pub is_valid: bool,
    pub errors: Seq<Seq<char>>,
    pub field_errors: Map<Seq<char>, Seq<char>>,
}

impl View for ValidationResult {
    type V = ValidationView;

    open spec fn view(&self) -> ValidationView {
        ValidationView {
            is_valid: self.is_valid,
            errors: texts(self.errors@),
            field_errors: field_map(self.field_errors@),
        }
    }
}

/// No field name occurs twice among the field errors.
pub open spec fn unique_fields(s: Seq<FieldError>) -> bool {
    forall|i: int, j: int| 0 <= i < j < s.len() ==> s[i].0@ != s[j].0@
}

/// A result that passed: valid, no errors.
pub open spec fn passed() -> ValidationView {
    ValidationView { is_valid: true, errors: Seq::empty(), field_errors: Map::empty() }
}

/// A result that failed on one field.
pub open spec fn failed_on(field: Seq<char>, message: Seq<char>) -> ValidationView {
    ValidationView {
        is_valid: false,
        errors: Seq::empty(),
        field_errors: Map::empty().insert(field, message),
    }
}

/// The field errors that are not about field `k`.
pub open spec fn not_field(k: Seq<char>) -> spec_fn(FieldError) -> bool {
    |p: FieldError| p.0@ != k
}

proof fn lemma_field_map_without(s: Seq<FieldError>, k: Seq<char>)
    ensures
        field_map(s.filter(not_field(k))) == field_map(s).remove(k),
    decreases s.len(),
{
    reveal(Seq::filter);
    let f = not_field(k);
    if s.len() == 0 {
        assert(field_map(s).remove(k) =~= Map::empty());
    } else {
        let init = s.drop_last();
        lemma_field_map_without(init, k);
        let t = s.filter(f);
        if f(s.last()) {
            assert(t == init.filter(f).push(s.last()));
            assert(t.drop_last() =~= init.filter(f));
            assert(field_map(t) =~= field_map(s).remove(k));
        } else {
            assert(t == init.filter(f));
            assert(field_map(t) =~= field_map(s).remove(k));
        }
    }
}

proof fn lemma_unique_filter(s: Seq<FieldError>, k: Seq<char>)
    requires
        unique_fields(s),
    ensures
        unique_fields(s.filter(not_field(k))),
        forall|i: int|
            0 <= i < s.filter(not_field(k)).len() ==> (#[trigger] s.filter(not_field(k))[i]).0@ != k,
    decreases s.len(),
{
    broadcast use vstd::seq_lib::group_filter_ensures;

    let f = not_field(k);
    let t = s.filter(f);
    assert forall|i: int| 0 <= i < t.len() implies (#[trigger] t[i]).0@ != k by {
        assert(f(t[i]));
    }
    if s.len() > 0 {
        let init = s.drop_last();
        assert(unique_fields(init));
        lemma_unique_filter(init, k);
        reveal(Seq::filter);
        if f(s.last()) {
            assert(t == init.filter(f).push(s.last()));
            assert forall|i: int, j: int| 0 <= i < j < t.len() implies t[i].0@ != t[j].0@ by {
                if j == t.len() - 1 {
                    let a = t[i];
                    assert(init.filter(f)[i] == a);
                    assert(init.filter(f).contains(a));
                    init.lemma_filter_contains_rev(f, a);
                    let ii = choose|ii: int| 0 <= ii < init.len() && init[ii] == a;
                    assert(s[ii] == a);
                    assert(s[s.len() - 1] == s.last());
                } else {
                    assert(t[i] == init.filter(f)[i]);
                    assert(t[j] == init.filter(f)[j]);
                }
            }
        } else {
            assert(t == init.filter(f));
        }
    }
}

/// A field's error is the one its last entry gives.
proof fn lemma_field_map_last(s: Seq<FieldError>, k: Seq<char>, i: int)
    requires
        0 <= i < s.len(),
        s[i].0@ == k,
        forall|j: int| i < j < s.len() ==> s[j].0@ != k,
    ensures
        field_map(s).contains_key(k),
        field_map(s)[k] == s[i].1@,
    decreases s.len(),
{
    if i < s.len() - 1 {
        let init = s.drop_last();
        assert forall|j: int| i < j < init.len() implies init[j].0@ != k by {
            assert(init[j] == s[j]);
        }
        lemma_field_map_last(init, k, i);
    }
}

/// A field without entries has no error.
proof fn lemma_field_map_absent(s: Seq<FieldError>, k: Seq<char>)
    requires
        forall|j: int| 0 <= j < s.len() ==> s[j].0@ != k,
    ensures
        !field_map(s).contains_key(k),
    decreases s.len(),
{
    if s.len() > 0 {
        let init = s.drop_last();
        assert forall|j: int| 0 <= j < init.len() implies init[j].0@ != k by {
            assert(init[j] == s[j]);
        }
        lemma_field_map_absent(init, k);
    }
}

/// The fields with an error are those with an entry.
proof fn lemma_field_map_dom(s: Seq<FieldError>, k: Seq<char>)
    ensures
        field_map(s).contains_key(k) <==> exists|j: int| 0 <= j < s.len() && #[trigger] s[j].0@ == k,
    decreases s.len(),
{
    if s.len() > 0 {
        let init = s.drop_last();
        lemma_field_map_dom(init, k);
        if exists|j: int| 0 <= j < init.len() && #[trigger] init[j].0@ == k {
            let j = choose|j: int| 0 <= j < init.len() && #[trigger] init[j].0@ == k;
            assert(s[j] == init[j]);
        }
        if exists|j: int| 0 <= j < s.len() && #[trigger] s[j].0@ == k {
            let j = choose|j: int| 0 <= j < s.len() && #[trigger] s[j].0@ == k;
            if j < s.len() - 1 {
                assert(init[j] == s[j]);
            }
        }
    }
}

/// The index of the last entry of field `k`, if there is one.
fn last_entry(s: &Vec<FieldError>, k: &str) -> (r: Option<usize>)
    ensures
        match r {
            Some(i) => i < s@.len() && s@[i as int].0@ == k@ && field_map(s@).contains_key(k@)
                && field_map(s@)[k@] == s@[i as int].1@,
            None => !field_map(s@).contains_key(k@),
        },
{
    let mut i: usize = s.len();
    while i > 0
        invariant
            i <= s@.len(),
            forall|j: int| i <= j < s@.len() ==> s@[j].0@ != k@,
        decreases i,
    {
        if crate::text::str_eq(s[i - 1].0.as_str(), k) {
            proof {
                lemma_field_map_last(s@, k@, i - 1);
            }
            return Some(i - 1);
        }
        i = i - 1;
    }
    proof {
        lemma_field_map_absent(s@, k@);
    }
    None
}

/// Whether two lists of messages hold the same messages in the same order.
fn same_messages(a: &Vec<String>, b: &Vec<String>) -> (r: bool)
    ensures
        r == (texts(a@) == texts(b@)),
{
    if a.len() != b.len() {
        assert(texts(a@).len() != texts(b@).len());
        return false;
    }
    let mut i: usize = 0;
    while i < a.len()
        invariant
            a@.len() == b@.len(),
            i <= a@.len(),
            forall|j: int| 0 <= j < i ==> a@[j]@ == b@[j]@,
        decreases a.len() - i,
    {
        if !crate::text::str_eq(a[i].as_str(), b[i].as_str()) {
            assert(texts(a@)[i as int] != texts(b@)[i as int]);
            return false;
        }
        i = i + 1;
    }
    assert(texts(a@) =~= texts(b@));
    true
}

/// Whether two lists of field errors give every field the same error.
fn same_field_errors(a: &Vec<FieldError>, b: &Vec<FieldError>) -> (r: bool)
    ensures
        r == (field_map(a@) == field_map(b@)),
{
    let mut i: usize = 0;
    while i < a.len()
        invariant
            i <= a@.len(),
            forall|j: int|
                0 <= j < i ==> field_map(b@).contains_key(#[trigger] a@[j].0@) && field_map(b@)[a@[j].0@]
                    == field_map(a@)[a@[j].0@],
        decreases a.len() - i,
    {
        let key = a[i].0.as_str();
        let in_a = last_entry(a, key);
        let in_b = last_entry(b, key);
        proof {
            lemma_field_map_dom(a@, a@[i as int].0@);
        }
        match (in_a, in_b) {
            (Some(x), Some(y)) => {
                if !crate::text::str_eq(a[x].1.as_str(), b[y].1.as_str()) {
                    return false;
                }
            },
            _ => {
                return false;
            },
        }
        i = i + 1;
    }
    let mut i: usize = 0;
    while i < b.len()
        invariant
            i <= b@.len(),
            forall|j: int| 0 <= j < i ==> field_map(a@).contains_key(#[trigger] b@[j].0@),
            forall|j: int|
                0 <= j < a@.len() ==> field_map(b@).contains_key(#[trigger] a@[j].0@) && field_map(b@)[a@[j].0@]
                    == field_map(a@)[a@[j].0@],
        decreases b.len() - i,
    {
        let key = b[i].0.as_str();
        proof {
            lemma_field_map_dom(b@, b@[i as int].0@);
        }
        if last_entry(a, key).is_none() {
            return false;
        }
        i = i + 1;
    }
    proof {
        let ma = field_map(a@);
        let mb = field_map(b@);
        assert forall|k: Seq<char>|
            #[trigger] ma.dom().contains(k) == mb.dom().contains(k) && (ma.dom().contains(k) ==> ma[k]
                == mb[k]) by {
            lemma_field_map_dom(a@, k);
            lemma_field_map_dom(b@, k);
            if ma.contains_key(k) {
                let j = choose|j: int| 0 <= j < a@.len() && #[trigger] a@[j].0@ == k;
                assert(mb.contains_key(a@[j].0@));
            }
            if mb.contains_key(k) {
                let j = choose|j: int| 0 <= j < b@.len() && #[trigger] b@[j].0@ == k;
                assert(ma.contains_key(b@[j].0@));
            }
        }
        assert(ma.dom() =~= mb.dom());
        assert(ma =~= mb);
    }
    true
}

impl PartialEq for ValidationResult {
    /// Two results are equal when they say the same: the same validity, the
    /// same form-wide messages in order, and the same error for every field,
    /// whatever order the field errors were recorded in.
    fn eq(&self, other: &Self) -> (r: bool) {
        let valid = self.is_valid == other.is_valid;
        let messages = same_messages(&self.errors, &other.errors);
        let fields = same_field_errors(&self.field_errors, &other.field_errors);
        valid && messages && fields
    }
}

impl vstd::std_specs::cmp::PartialEqSpecImpl for ValidationResult {
    open spec fn obeys_eq_spec() -> bool {
        true
    }

    open spec fn eq_spec(&self, other: &ValidationResult) -> bool {
        self@ == other@
    }
}

impl ValidationResult {
    /// A result that passed.
    pub fn new() -> (r: Self)
        ensures
            r@ == passed(),
            unique_fields(r.field_errors@),
    {
        let r = ValidationResult { is_valid: true, errors: Vec::new(), field_errors: Vec::new() };
        assert(r@.errors =~= Seq::<Seq<char>>::empty());
        assert(r@.field_errors =~= Map::<Seq<char>, Seq<char>>::empty());
        r
    }

    /// Adds a form-wide error; the result no longer passes.
    pub fn with_error(self, error: String) -> (r: Self)
        ensures
            r@ == (ValidationView {
                is_valid: false,
                errors: self@.errors.push(error@),
                field_errors: self@.field_errors,
            }),
            r.field_errors@ == self.field_errors@,
    {
        let mut r = self;
        r.is_valid = false;
        let ghost before = r.errors@;
        r.errors.push(error);
        assert(texts(r.errors@) =~= texts(before).push(error@));
        r
    }

    /// Sets the error of one field, replacing any earlier error of that field;
    /// the result no longer passes.
    pub fn with_field_error(self, field: String, error: String) -> (r: Self)
        ensures
            r@ == (ValidationView {
                is_valid: false,
                errors: self@.errors,
                field_errors: self@.field_errors.insert(field@, error@),
            }),
            unique_fields(self.field_errors@) ==> unique_fields(r.field_errors@),
    {
        let mut r = self;
        r.is_valid = false;
        let ghost k = field@;
        let ghost f = not_field(k);
        let mut kept: Vec<FieldError> = Vec::new();
        let mut i: usize = 0;
        let n = r.field_errors.len();
        let mut old_errors = Vec::new();
        std::mem::swap(&mut old_errors, &mut r.field_errors);
        let ghost src = old_errors@;
        while i < n
            invariant
                n == src.len(),
                i <= n,
                k == field@,
                f == not_field(k),
                old_errors@ == src.subrange(i as int, n as int),
                kept@ == src.take(i as int).filter(f),
            decreases n - i,
        {
            let entry = old_errors.remove(0);
            let ghost before = kept@;
            proof {
                assert(entry == src[i as int]);
                assert(src.take(i + 1).drop_last() =~= src.take(i as int));
                assert(src.take(i + 1).last() == entry);
                reveal(Seq::filter);
                assert(src.take(i + 1).filter(f) == (if f(entry) {
                    before.push(entry)
                } else {
                    before
                }));
            }
            let same = crate::text::str_eq(entry.0.as_str(), field.as_str());
            if !same {
                kept.push(entry);
            }
            assert(old_errors@ =~= src.subrange(i + 1, n as int));
            i = i + 1;
        }
        assert(src.take(n as int) =~= src);
        proof {
            lemma_field_map_without(src, k);
            if unique_fields(src) {
                lemma_unique_filter(src, k);
            }
        }
        let ghost kept_before = kept@;
        kept.push((field, error));
        assert(kept@.drop_last() =~= kept_before);
        r.field_errors = kept;
        assert(field_map(r.field_errors@) =~= field_map(src).remove(k).insert(k, error@));
        assert(field_map(src).remove(k).insert(k, error@) =~= field_map(src).insert(k, error@));
        r
    }

    /// Whether the result failed.
    pub fn has_errors(&self) -> (r: bool)
        ensures
            r == !self.is_valid,
    {
        !self.is_valid
    }
}

impl Default for ValidationResult {
    /// The empty result, which is not marked valid.
    fn default() -> (r: Self)
        ensures
            r@ == (ValidationView {
                is_valid: false,
                errors: Seq::empty(),
                field_errors: Map::empty(),
            }),
    {
        let r = ValidationResult { is_valid: false, errors: Vec::new(), field_errors: Vec::new() };
        assert(r@.errors =~= Seq::<Seq<char>>::empty());
        assert(r@.field_errors =~= Map::<Seq<char>, Seq<char>>::empty());
        r
    }
}


/// The message that a required field is missing.
pub open spec fn required_message(field: Seq<char>) -> Seq<char> {
    field + " is required"@
}

/// The message that a field is too short.
pub open spec fn min_length_message(field: Seq<char>, min: nat) -> Seq<char> {
    field + " must be at least "@ + decimal(min) + " characters"@
}

/// The message that a field is too long.
pub open spec fn max_length_message(field: Seq<char>, max: nat) -> Seq<char> {
    field + " must be no more than "@ + decimal(max) + " characters"@
}

/// The message that a field is not an e-mail address.
pub open spec fn email_message(field: Seq<char>) -> Seq<char> {
    field + " must be a valid email address"@
}

pub(crate) fn joined(a: &str, b: &str) -> (r: String)
    ensures
        r@ == a@ + b@,
{
    let mut r = copy_str(a);
    r.append(b);
    r
}

/// Fails `field` with `message`.
pub(crate) fn field_failure(field: &str, message: String) -> (r: ValidationResult)
    ensures
        r@ == failed_on(field@, message@),
        unique_fields(r.field_errors@),
{
    let r = ValidationResult::new().with_field_error(copy_str(field), message);
    assert(r@.field_errors =~= Map::empty().insert(field@, message@));
    r
}


/// Forms that can check themselves.
pub trait FormValidation {
    /// The outcome of checking this form.
    spec fn validation(&self) -> ValidationView;

    /// Checks the form.
    fn validate(&self) -> (r: ValidationResult)
        ensures
            r@ == self.validation(),
    ;
}

} // verus!
