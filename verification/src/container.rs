//! What the fields renderer shows: the visible fields of each group, sorted
//! by their place in the group, the visible fields that belong to no group,
//! each with its value or default, its errors, focus and change marks, and
//! the totals of fields and errors.
//!
//! Fields, groups and values are given by position: an entry names the
//! field it shows by its index in the list of fields, a given value by its
//! index in the list of value names, and the errors by their index in the
//! render context.
use vstd::prelude::*;
use crate::fields::RenderContext;
use crate::text::str_eq;

verus! {

/// How a field's default value is chosen when the form holds none.
#[derive(Clone, Copy, Debug, PartialEq, Eq, Structural)]
pub enum FieldKind {
    /// A number field; its default is zero.
    Number,
    /// A checkbox; its default is whether it starts checked.
    Checkbox,
    /// Any other field; its default is its default text.
    Other,
}

/// A field of the form, as the renderer reads it.
#[derive(Clone, Debug)]
pub struct FieldDef {
    pub id: String,
    pub kind: FieldKind,
    pub is_hidden: bool,
    /// The field's place within its group; no place counts as 0.
    pub order_in_group: Option<i64>,
    pub default_checked: bool,
}

/// A group of fields, as the renderer reads it.
#[derive(Clone, Debug)]
pub struct GroupDef {
    pub id: String,
    /// The fields of the group, by identifier, in order.
    pub field_ids: Vec<String>,
}

/// Where a field's shown value comes from.
#[derive(Clone, Copy, Debug, PartialEq, Eq, Structural)]
pub enum ValueSource {
    /// The form's value at this index of the value names.
    Given(usize),
    /// Zero, for a number field without a value.
    NumberDefault,
    /// The field's starting check, for a checkbox without a value.
    CheckboxDefault(bool),
    /// The field's default text, for any other field without a value.
    TextDefault,
}

/// A field as it is shown.
#[derive(Clone, Copy, Debug, PartialEq, Eq, Structural)]
pub struct FieldEntry {
    /// The field's index in the list of fields.
    pub field: usize,
    pub value: ValueSource,
    /// The index of the field's errors in the render context, if any.
    pub error_entry: Option<usize>,
    /// How many errors the field has.
    pub error_count: usize,
    pub is_focused: bool,
    pub is_dirty: bool,
}

/// A group as it is shown.
#[derive(Clone, Debug)]
pub struct GroupEntry {
    /// The group's index in the list of groups.
    pub group: usize,
    pub fields: Vec<FieldEntry>,
    pub is_expanded: bool,
}

/// Everything the fields renderer shows.
#[derive(Clone, Debug)]
pub struct ContainerData {
    pub groups: Vec<GroupEntry>,
    pub ungrouped_fields: Vec<FieldEntry>,
    pub total_fields: usize,
    pub total_errors: usize,
    pub is_valid: bool,
}

/// The texts of a list of strings.
pub open spec fn strs(v: Seq<String>) -> Seq<Seq<char>> {
    v.map_values(|s: String| s@)
}

/// The identifiers of the fields.
pub open spec fn field_ids(f: Seq<FieldDef>) -> Seq<Seq<char>> {
    f.map_values(|d: FieldDef| d.id@)
}

/// The identifiers of the groups.
pub open spec fn group_ids(g: Seq<GroupDef>) -> Seq<Seq<char>> {
    g.map_values(|d: GroupDef| d.id@)
}

/// The field names that errors are recorded for, in order.
pub open spec fn error_ids(v: Seq<(String, Vec<String>)>) -> Seq<Seq<char>> {
    v.map_values(|e: (String, Vec<String>)| e.0@)
}

/// The last position of `k` in `ids`: the one a map keyed by name keeps.
pub open spec fn last_index(ids: Seq<Seq<char>>, k: Seq<char>) -> Option<int>
    decreases ids.len(),
{
    if ids.len() == 0 {
        None
    } else if ids.last() == k {
        Some(ids.len() - 1)
    } else {
        last_index(ids.drop_last(), k)
    }
}

/// The field shown for identifier `k`: the last field with that identifier,
/// unless it is hidden.
pub open spec fn visible_field(fields: Seq<FieldDef>, k: Seq<char>) -> Option<int> {
    match last_index(field_ids(fields), k) {
        Some(f) => if !fields[f].is_hidden {
            Some(f)
        } else {
            None
        },
        None => None,
    }
}

/// How field `f` is shown: its value, else its default; its errors; whether
/// it has the focus and whether it was changed.
pub open spec fn entry_spec(
    fields: Seq<FieldDef>,
    value_ids: Seq<Seq<char>>,
    ctx: RenderContext,
    f: int,
) -> FieldEntry {
    let d = fields[f];
    let e = last_index(error_ids(ctx.validation_errors@), d.id@);
    FieldEntry {
        field: f as usize,
        value: match last_index(value_ids, d.id@) {
            Some(i) => ValueSource::Given(i as usize),
            None => match d.kind {
                FieldKind::Number => ValueSource::NumberDefault,
                FieldKind::Checkbox => ValueSource::CheckboxDefault(d.default_checked),
                FieldKind::Other => ValueSource::TextDefault,
            },
        },
        error_entry: match e {
            Some(i) => Some(i as usize),
            None => None,
        },
        error_count: match e {
            Some(i) => ctx.validation_errors@[i].1@.len() as usize,
            None => 0,
        },
        is_focused: ctx@.focused == Some(d.id@),
        is_dirty: ctx@.dirty.contains(d.id@),
    }
}

/// A field's place within its group (0 when it has none).
pub open spec fn place(d: FieldDef) -> i64 {
    match d.order_in_group {
        Some(o) => o,
        None => 0,
    }
}

/// The entries of the visible fields named by `ids`, in that order, each
/// with its place.
pub open spec fn keyed_entries(
    fields: Seq<FieldDef>,
    value_ids: Seq<Seq<char>>,
    ctx: RenderContext,
    ids: Seq<Seq<char>>,
) -> Seq<(i64, FieldEntry)>
    decreases ids.len(),
{
    if ids.len() == 0 {
        Seq::empty()
    } else {
        let rest = keyed_entries(fields, value_ids, ctx, ids.drop_last());
        match visible_field(fields, ids.last()) {
            Some(f) => rest.push((place(fields[f]), entry_spec(fields, value_ids, ctx, f))),
            None => rest,
        }
    }
}

/// `x` put into `s` after every trailing entry whose place is not above its own.
pub open spec fn insert_by_place(s: Seq<(i64, FieldEntry)>, x: (i64, FieldEntry)) -> Seq<(i64, FieldEntry)>
    decreases s.len(),
{
    if s.len() == 0 {
        seq![x]
    } else if s.last().0 <= x.0 {
        s.push(x)
    } else {
        insert_by_place(s.drop_last(), x).push(s.last())
    }
}

/// The entries sorted by place; entries with the same place keep their order.
pub open spec fn sort_by_place(s: Seq<(i64, FieldEntry)>) -> Seq<(i64, FieldEntry)>
    decreases s.len(),
{
    if s.len() == 0 {
        s
    } else {
        insert_by_place(sort_by_place(s.drop_last()), s.last())
    }
}

/// The entries without their places.
pub open spec fn unkeyed(s: Seq<(i64, FieldEntry)>) -> Seq<FieldEntry> {
    s.map_values(|p: (i64, FieldEntry)| p.1)
}

/// Group `g` is the last group with its identifier (a map keyed by group
/// identifier keeps only that one).
pub open spec fn group_kept(groups: Seq<GroupDef>, g: int) -> bool {
    last_index(group_ids(groups), groups[g].id@) == Some(g)
}

/// The shown fields of group `g`, sorted by place.
pub open spec fn group_fields(
    fields: Seq<FieldDef>,
    value_ids: Seq<Seq<char>>,
    ctx: RenderContext,
    groups: Seq<GroupDef>,
    g: int,
) -> Seq<FieldEntry> {
    unkeyed(sort_by_place(keyed_entries(fields, value_ids, ctx, strs(groups[g].field_ids@))))
}

/// The groups shown among the first `n`: each kept group with at least one
/// shown field, as its index, its fields and whether it is open.
pub open spec fn groups_spec(
    fields: Seq<FieldDef>,
    value_ids: Seq<Seq<char>>,
    ctx: RenderContext,
    groups: Seq<GroupDef>,
    n: int,
) -> Seq<(int, Seq<FieldEntry>, bool)>
    decreases n,
{
    if n <= 0 {
        Seq::empty()
    } else {
        let rest = groups_spec(fields, value_ids, ctx, groups, n - 1);
        let g = n - 1;
        let es = group_fields(fields, value_ids, ctx, groups, g);
        if group_kept(groups, g) && es.len() > 0 {
            rest.push((g, es, ctx@.expanded.contains(groups[g].id@)))
        } else {
            rest
        }
    }
}

/// Identifier `k` names a shown field of a kept group.
pub open spec fn used(fields: Seq<FieldDef>, groups: Seq<GroupDef>, k: Seq<char>) -> bool {
    visible_field(fields, k) is Some && exists|g: int|
        0 <= g < groups.len() && group_kept(groups, g) && #[trigger] strs(groups[g].field_ids@).contains(k)
}

/// The shown fields among the first `n` that belong to no group: each
/// visible field that is the last with its identifier, once, in order.
pub open spec fn ungrouped_spec(
    fields: Seq<FieldDef>,
    value_ids: Seq<Seq<char>>,
    ctx: RenderContext,
    groups: Seq<GroupDef>,
    n: int,
) -> Seq<FieldEntry>
    decreases n,
{
    if n <= 0 {
        Seq::empty()
    } else {
        let rest = ungrouped_spec(fields, value_ids, ctx, groups, n - 1);
        let f = n - 1;
        let k = fields[f].id@;
        if last_index(field_ids(fields), k) == Some(f) && !fields[f].is_hidden && !used(fields, groups, k) {
            rest.push(entry_spec(fields, value_ids, ctx, f))
        } else {
            rest
        }
    }
}

/// The errors of a list of shown fields.
pub open spec fn error_sum(s: Seq<FieldEntry>) -> int
    decreases s.len(),
{
    if s.len() == 0 {
        0
    } else {
        error_sum(s.drop_last()) + s.last().error_count
    }
}

/// The number of fields shown in the groups.
pub open spec fn group_field_sum(s: Seq<(int, Seq<FieldEntry>, bool)>) -> int
    decreases s.len(),
{
    if s.len() == 0 {
        0
    } else {
        group_field_sum(s.drop_last()) + s.last().1.len()
    }
}

/// The errors of the fields shown in the groups.
pub open spec fn group_error_sum(s: Seq<(int, Seq<FieldEntry>, bool)>) -> int
    decreases s.len(),
{
    if s.len() == 0 {
        0
    } else {
        group_error_sum(s.drop_last()) + error_sum(s.last().1)
    }
}

/// The groups of the result, as values.
pub open spec fn group_views(s: Seq<GroupEntry>) -> Seq<(int, Seq<FieldEntry>, bool)> {
    s.map_values(|e: GroupEntry| (e.group as int, e.fields@, e.is_expanded))
}

proof fn lemma_last_index_found(ids: Seq<Seq<char>>, k: Seq<char>, i: int)
    requires
        0 <= i < ids.len(),
        ids[i] == k,
        forall|j: int| i < j < ids.len() ==> ids[j] != k,
    ensures
        last_index(ids, k) == Some(i),
    decreases ids.len(),
{
    if i < ids.len() - 1 {
        let init = ids.drop_last();
        assert forall|j: int| i < j < init.len() implies init[j] != k by {
            assert(init[j] == ids[j]);
        }
        lemma_last_index_found(init, k, i);
    }
}

proof fn lemma_last_index_absent(ids: Seq<Seq<char>>, k: Seq<char>)
    requires
        forall|j: int| 0 <= j < ids.len() ==> ids[j] != k,
    ensures
        last_index(ids, k) is None,
    decreases ids.len(),
{
    if ids.len() > 0 {
        let init = ids.drop_last();
        assert forall|j: int| 0 <= j < init.len() implies init[j] != k by {
            assert(init[j] == ids[j]);
        }
        lemma_last_index_absent(init, k);
    }
}

proof fn lemma_last_index_range(ids: Seq<Seq<char>>, k: Seq<char>)
    ensures
        last_index(ids, k) matches Some(i) ==> 0 <= i < ids.len() && ids[i] == k,
    decreases ids.len(),
{
    if ids.len() > 0 {
        lemma_last_index_range(ids.drop_last(), k);
    }
}

/// The last position of `k` among the texts of `ids`.
fn last_of(ids: &Vec<String>, k: &str) -> (r: Option<usize>)
    ensures
        match r {
            Some(i) => last_index(strs(ids@), k@) == Some(i as int) && i < ids@.len(),
            None => last_index(strs(ids@), k@) is None,
        },
{
    let ghost s = strs(ids@);
    let mut i: usize = ids.len();
    while i > 0
        invariant
            i <= ids@.len(),
            s == strs(ids@),
            forall|j: int| i <= j < ids@.len() ==> s[j] != k@,
        decreases i,
    {
        if str_eq(ids[i - 1].as_str(), k) {
            proof {
                lemma_last_index_found(s, k@, i - 1);
            }
            return Some(i - 1);
        }
        i = i - 1;
    }
    proof {
        lemma_last_index_absent(s, k@);
    }
    None
}

fn copy_text(s: &String) -> (r: String)
    ensures
        r@ == s@,
{
    crate::text::copy_str(s.as_str())
}

fn ids_of_fields(fields: &Vec<FieldDef>) -> (r: Vec<String>)
    ensures
        strs(r@) == field_ids(fields@),
{
    let mut r: Vec<String> = Vec::new();
    let mut i: usize = 0;
    while i < fields.len()
        invariant
            i <= fields@.len(),
            r@.len() == i,
            forall|j: int| 0 <= j < i ==> (#[trigger] r@[j])@ == fields@[j].id@,
        decreases fields.len() - i,
    {
        r.push(copy_text(&fields[i].id));
        i = i + 1;
    }
    assert(strs(r@) =~= field_ids(fields@));
    r
}

fn ids_of_groups(groups: &Vec<GroupDef>) -> (r: Vec<String>)
    ensures
        strs(r@) == group_ids(groups@),
{
    let mut r: Vec<String> = Vec::new();
    let mut i: usize = 0;
    while i < groups.len()
        invariant
            i <= groups@.len(),
            r@.len() == i,
            forall|j: int| 0 <= j < i ==> (#[trigger] r@[j])@ == groups@[j].id@,
        decreases groups.len() - i,
    {
        r.push(copy_text(&groups[i].id));
        i = i + 1;
    }
    assert(strs(r@) =~= group_ids(groups@));
    r
}

fn ids_of_errors(errors: &Vec<(String, Vec<String>)>) -> (r: Vec<String>)
    ensures
        strs(r@) == error_ids(errors@),
{
    let mut r: Vec<String> = Vec::new();
    let mut i: usize = 0;
    while i < errors.len()
        invariant
            i <= errors@.len(),
            r@.len() == i,
            forall|j: int| 0 <= j < i ==> (#[trigger] r@[j])@ == errors@[j].0@,
        decreases errors.len() - i,
    {
        r.push(copy_text(&errors[i].0));
        i = i + 1;
    }
    assert(strs(r@) =~= error_ids(errors@));
    r
}

/// The names needed to build entries.
struct Lookup {
    field_ids: Vec<String>,
    value_ids: Vec<String>,
    error_ids: Vec<String>,
}

fn entry(fields: &Vec<FieldDef>, look: &Lookup, ctx: &RenderContext, f: usize) -> (r: FieldEntry)
    requires
        f < fields@.len(),
        strs(look.field_ids@) == field_ids(fields@),
        strs(look.error_ids@) == error_ids(ctx.validation_errors@),
    ensures
        r == entry_spec(fields@, strs(look.value_ids@), *ctx, f as int),
{
    let d = &fields[f];
    let k = d.id.as_str();
    let value = match last_of(&look.value_ids, k) {
        Some(i) => ValueSource::Given(i),
        None => match d.kind {
            FieldKind::Number => ValueSource::NumberDefault,
            FieldKind::Checkbox => ValueSource::CheckboxDefault(d.default_checked),
            FieldKind::Other => ValueSource::TextDefault,
        },
    };
    let e = last_of(&look.error_ids, k);
    proof {
        lemma_last_index_range(error_ids(ctx.validation_errors@), k@);
    }
    let (error_entry, error_count) = match e {
        Some(i) => (Some(i), ctx.validation_errors[i].1.len()),
        None => (None, 0),
    };
    FieldEntry {
        field: f,
        value,
        error_entry,
        error_count,
        is_focused: ctx.is_focused(k),
        is_dirty: ctx.is_dirty(k),
    }
}

/// The shown field for identifier `k`, if any.
fn visible(fields: &Vec<FieldDef>, look: &Lookup, k: &str) -> (r: Option<usize>)
    requires
        strs(look.field_ids@) == field_ids(fields@),
    ensures
        match r {
            Some(f) => visible_field(fields@, k@) == Some(f as int) && f < fields@.len(),
            None => visible_field(fields@, k@) is None,
        },
{
    match last_of(&look.field_ids, k) {
        Some(f) => {
            proof {
                lemma_last_index_range(field_ids(fields@), k@);
            }
            if fields[f].is_hidden {
                None
            } else {
                Some(f)
            }
        },
        None => None,
    }
}

fn keyed(fields: &Vec<FieldDef>, look: &Lookup, ctx: &RenderContext, ids: &Vec<String>) -> (r: Vec<(i64, FieldEntry)>)
    requires
        strs(look.field_ids@) == field_ids(fields@),
        strs(look.error_ids@) == error_ids(ctx.validation_errors@),
    ensures
        r@ == keyed_entries(fields@, strs(look.value_ids@), *ctx, strs(ids@)),
{
    let ghost s = strs(ids@);
    let mut r: Vec<(i64, FieldEntry)> = Vec::new();
    let mut i: usize = 0;
    while i < ids.len()
        invariant
            i <= ids@.len(),
            s == strs(ids@),
            strs(look.field_ids@) == field_ids(fields@),
            strs(look.error_ids@) == error_ids(ctx.validation_errors@),
            r@ == keyed_entries(fields@, strs(look.value_ids@), *ctx, s.take(i as int)),
        decreases ids.len() - i,
    {
        proof {
            assert(s.take(i + 1).drop_last() =~= s.take(i as int));
            assert(s.take(i + 1).last() == ids@[i as int]@);
        }
        match visible(fields, look, ids[i].as_str()) {
            Some(f) => {
                let p: i64 = match fields[f].order_in_group {
                    Some(o) => o,
                    None => 0,
                };
                let e = entry(fields, look, ctx, f);
                r.push((p, e));
            },
            None => {},
        }
        i = i + 1;
    }
    assert(s.take(i as int) =~= s);
    r
}

proof fn lemma_insert_at(s: Seq<(i64, FieldEntry)>, x: (i64, FieldEntry), p: int)
    requires
        0 <= p <= s.len(),
        forall|j: int| p <= j < s.len() ==> s[j].0 > x.0,
        p > 0 ==> s[p - 1].0 <= x.0,
    ensures
        insert_by_place(s, x) == s.take(p).push(x) + s.skip(p),
    decreases s.len(),
{
    if s.len() == 0 {
        assert(s.take(p).push(x) + s.skip(p) =~= seq![x]);
    } else if p == s.len() {
        assert(s.take(p).push(x) + s.skip(p) =~= s.push(x));
    } else {
        let init = s.drop_last();
        assert forall|j: int| p <= j < init.len() implies init[j].0 > x.0 by {
            assert(init[j] == s[j]);
        }
        if p > 0 {
            assert(init[p - 1] == s[p - 1]);
        }
        lemma_insert_at(init, x, p);
        assert(s.last().0 > x.0);
        assert(init.take(p).push(x) + init.skip(p) + seq![s.last()] =~= s.take(p).push(x) + s.skip(p));
        assert((init.take(p).push(x) + init.skip(p)).push(s.last()) =~= init.take(p).push(x) + init.skip(p)
            + seq![s.last()]);
    }
}

fn sort_keyed(v: Vec<(i64, FieldEntry)>) -> (r: Vec<(i64, FieldEntry)>)
    ensures
        r@ == sort_by_place(v@),
{
    let mut out: Vec<(i64, FieldEntry)> = Vec::new();
    let mut i: usize = 0;
    while i < v.len()
        invariant
            i <= v@.len(),
            out@ == sort_by_place(v@.take(i as int)),
        decreases v.len() - i,
    {
        let x = v[i];
        proof {
            assert(v@.take(i + 1).drop_last() =~= v@.take(i as int));
            assert(v@.take(i + 1).last() == x);
        }
        let mut p: usize = out.len();
        while p > 0 && out[p - 1].0 > x.0
            invariant
                p <= out@.len(),
                forall|j: int| p <= j < out@.len() ==> out@[j].0 > x.0,
            decreases p,
        {
            p = p - 1;
        }
        proof {
            lemma_insert_at(out@, x, p as int);
        }
        let ghost before = out@;
        out.insert(p, x);
        assert(out@ =~= before.take(p as int).push(x) + before.skip(p as int));
        i = i + 1;
    }
    assert(v@.take(i as int) =~= v@);
    out
}

fn unkey(v: Vec<(i64, FieldEntry)>) -> (r: Vec<FieldEntry>)
    ensures
        r@ == unkeyed(v@),
{
    let mut r: Vec<FieldEntry> = Vec::new();
    let mut i: usize = 0;
    while i < v.len()
        invariant
            i <= v@.len(),
            r@.len() == i,
            forall|j: int| 0 <= j < i ==> r@[j] == v@[j].1,
        decreases v.len() - i,
    {
        r.push(v[i].1);
        i = i + 1;
    }
    assert(r@ =~= unkeyed(v@));
    r
}

/// Whether identifier `k` names a shown field of a kept group.
fn is_used(fields: &Vec<FieldDef>, groups: &Vec<GroupDef>, look: &Lookup, gids: &Vec<String>, k: &str) -> (r: bool)
    requires
        strs(look.field_ids@) == field_ids(fields@),
        strs(gids@) == group_ids(groups@),
    ensures
        r == used(fields@, groups@, k@),
{
    if visible(fields, look, k).is_none() {
        return false;
    }
    let mut g: usize = 0;
    while g < groups.len()
        invariant
            g <= groups@.len(),
            strs(gids@) == group_ids(groups@),
            visible_field(fields@, k@) is Some,
            forall|h: int|
                0 <= h < g ==> !(group_kept(groups@, h) && #[trigger] strs(groups@[h].field_ids@).contains(k@)),
        decreases groups.len() - g,
    {
        let kept = match last_of(gids, groups[g].id.as_str()) {
            Some(i) => i == g,
            None => false,
        };
        assert(group_ids(groups@)[g as int] == groups@[g as int].id@);
        assert(kept == group_kept(groups@, g as int));
        if kept {
            let ids = &groups[g].field_ids;
            assert(ids@ == groups@[g as int].field_ids@);
            let mut j: usize = 0;
            while j < ids.len()
                invariant
                    j <= ids@.len(),
                    g < groups@.len(),
                    ids@ == groups@[g as int].field_ids@,
                    group_kept(groups@, g as int),
                    visible_field(fields@, k@) is Some,
                    forall|t: int| 0 <= t < j ==> ids@[t]@ != k@,
                decreases ids.len() - j,
            {
                if str_eq(ids[j].as_str(), k) {
                    assert(strs(ids@)[j as int] == k@);
                    assert(strs(groups@[g as int].field_ids@).contains(k@));
                    return true;
                }
                j = j + 1;
            }
            assert(!strs(ids@).contains(k@)) by {
                if strs(ids@).contains(k@) {
                    let t = choose|t: int| 0 <= t < strs(ids@).len() && strs(ids@)[t] == k@;
                    assert(ids@[t]@ == k@);
                }
            }
        }
        g = g + 1;
    }
    false
}

proof fn lemma_sums_push_group(s: Seq<(int, Seq<FieldEntry>, bool)>, x: (int, Seq<FieldEntry>, bool))
    ensures
        group_field_sum(s.push(x)) == group_field_sum(s) + x.1.len(),
        group_error_sum(s.push(x)) == group_error_sum(s) + error_sum(x.1),
{
    assert(s.push(x).drop_last() =~= s);
}

proof fn lemma_error_sum_push(s: Seq<FieldEntry>, x: FieldEntry)
    ensures
        error_sum(s.push(x)) == error_sum(s) + x.error_count,
{
    assert(s.push(x).drop_last() =~= s);
}

/// Sums the errors of a list of shown fields.
fn count_errors(s: &Vec<FieldEntry>, limit: usize) -> (r: Option<usize>)
    ensures
        match r {
            Some(n) => n == error_sum(s@) && n <= limit,
            None => error_sum(s@) > limit,
        },
{
    let mut total: usize = 0;
    let mut i: usize = 0;
    while i < s.len()
        invariant
            i <= s@.len(),
            total == error_sum(s@.take(i as int)),
            total <= limit,
        decreases s.len() - i,
    {
        proof {
            assert(s@.take(i + 1).drop_last() =~= s@.take(i as int));
            lemma_error_sum_push(s@.take(i as int), s@[i as int]);
            assert(s@.take(i + 1) =~= s@.take(i as int).push(s@[i as int]));
        }
        let c = s[i].error_count;
        if c > limit - total {
            proof {
                lemma_error_sum_prefix(s@, i + 1);
            }
            return None;
        }
        total = total + c;
        i = i + 1;
    }
    assert(s@.take(i as int) =~= s@);
    Some(total)
}

/// The errors of a prefix are at most those of the whole list.
proof fn lemma_error_sum_prefix(s: Seq<FieldEntry>, n: int)
    requires
        0 <= n <= s.len(),
    ensures
        error_sum(s.take(n)) <= error_sum(s),
    decreases s.len(),
{
    if n < s.len() {
        assert(s.drop_last().take(n) =~= s.take(n));
        lemma_error_sum_prefix(s.drop_last(), n);
    } else {
        assert(s.take(n) =~= s);
    }
}

proof fn lemma_error_sum_nonneg(s: Seq<FieldEntry>)
    ensures
        error_sum(s) >= 0,
    decreases s.len(),
{
    if s.len() > 0 {
        lemma_error_sum_nonneg(s.drop_last());
    }
}

proof fn lemma_group_sums_monotone(
    fields: Seq<FieldDef>,
    value_ids: Seq<Seq<char>>,
    ctx: RenderContext,
    groups: Seq<GroupDef>,
    a: int,
    b: int,
)
    requires
        0 <= a <= b,
    ensures
        group_field_sum(groups_spec(fields, value_ids, ctx, groups, a)) <= group_field_sum(
            groups_spec(fields, value_ids, ctx, groups, b),
        ),
        group_error_sum(groups_spec(fields, value_ids, ctx, groups, a)) <= group_error_sum(
            groups_spec(fields, value_ids, ctx, groups, b),
        ),
    decreases b - a,
{
    if a < b {
        lemma_group_sums_monotone(fields, value_ids, ctx, groups, a, b - 1);
        let rest = groups_spec(fields, value_ids, ctx, groups, b - 1);
        let es = group_fields(fields, value_ids, ctx, groups, b - 1);
        if group_kept(groups, b - 1) && es.len() > 0 {
            let x = (b - 1, es, ctx@.expanded.contains(groups[b - 1].id@));
            lemma_sums_push_group(rest, x);
            lemma_error_sum_nonneg(es);
        }
    }
}

/// A group that is shown adds its fields and errors to the totals.
proof fn lemma_totals_grow(
    fields: Seq<FieldDef>,
    value_ids: Seq<Seq<char>>,
    ctx: RenderContext,
    groups: Seq<GroupDef>,
    g: int,
)
    requires
        0 <= g < groups.len(),
        group_kept(groups, g),
        group_fields(fields, value_ids, ctx, groups, g).len() > 0,
    ensures
        group_field_sum(groups_spec(fields, value_ids, ctx, groups, groups.len() as int)) >= group_field_sum(
            groups_spec(fields, value_ids, ctx, groups, g),
        ) + group_fields(fields, value_ids, ctx, groups, g).len(),
        group_error_sum(groups_spec(fields, value_ids, ctx, groups, groups.len() as int)) >= group_error_sum(
            groups_spec(fields, value_ids, ctx, groups, g),
        ) + error_sum(group_fields(fields, value_ids, ctx, groups, g)),
{
    let rest = groups_spec(fields, value_ids, ctx, groups, g);
    let es = group_fields(fields, value_ids, ctx, groups, g);
    let x = (g, es, ctx@.expanded.contains(groups[g].id@));
    lemma_sums_push_group(rest, x);
    lemma_group_sums_monotone(fields, value_ids, ctx, groups, g + 1, groups.len() as int);
}

/// The numbers of shown fields and of their errors fit in `usize`.
pub open spec fn totals_fit(
    fields: Seq<FieldDef>,
    groups: Seq<GroupDef>,
    value_ids: Seq<Seq<char>>,
    ctx: RenderContext,
) -> bool {
    let gs = groups_spec(fields, value_ids, ctx, groups, groups.len() as int);
    let us = ungrouped_spec(fields, value_ids, ctx, groups, fields.len() as int);
    &&& group_field_sum(gs) + us.len() <= usize::MAX
    &&& group_error_sum(gs) + error_sum(us) <= usize::MAX
}

/// What the fields renderer shows for these fields, groups, form values and
/// render context.
///
/// - `fields` are the fields that passed the renderer's filter; a map keyed
///   by identifier keeps the last field of each identifier.
/// - `value_names` are the identifiers the form holds values for; the last
///   position of a name is the one its value sits at.
/// - Each kept group (the last with its identifier) lists, in the order of
///   its `field_ids`, the shown field of each identifier, sorted by place
///   with ties kept in order; a group with no shown field is left out.
///   Groups come in the order of the list.
/// - The ungrouped fields are the visible fields, one per identifier, that
///   no kept group shows, in the order of the list.
/// - The totals count the shown fields and their errors; the form is valid
///   when there are none.
///
/// The totals must fit in `usize`, where the renderer's sums would overflow.
pub fn container_data(
    fields: &Vec<FieldDef>,
    groups: &Vec<GroupDef>,
    value_names: &Vec<String>,
    ctx: &RenderContext,
) -> (d: ContainerData)
    requires
        totals_fit(fields@, groups@, strs(value_names@), *ctx),
    ensures
        ({
            let gs = groups_spec(fields@, strs(value_names@), *ctx, groups@, groups@.len() as int);
            let us = ungrouped_spec(fields@, strs(value_names@), *ctx, groups@, fields@.len() as int);
            let nf = group_field_sum(gs) + us.len();
            let ne = group_error_sum(gs) + error_sum(us);
            &&& group_views(d.groups@) == gs
            &&& d.ungrouped_fields@ == us
            &&& d.total_fields == nf
            &&& d.total_errors == ne
            &&& d.is_valid == (ne == 0)
        }),
{
    let look = Lookup {
        field_ids: ids_of_fields(fields),
        value_ids: value_names.clone(),
        error_ids: ids_of_errors(&ctx.validation_errors),
    };
    assert(look.value_ids@ == value_names@);
    let gids = ids_of_groups(groups);
    let ghost vids = strs(value_names@);
    let ghost fs = fields@;
    let ghost gs_all = groups@;

    let mut out_groups: Vec<GroupEntry> = Vec::new();
    let mut total_fields: usize = 0;
    let mut total_errors: usize = 0;
    let mut g: usize = 0;
    while g < groups.len()
        invariant
            g <= groups@.len(),
            strs(look.field_ids@) == field_ids(fields@),
            strs(look.error_ids@) == error_ids(ctx.validation_errors@),
            strs(look.value_ids@) == vids,
            vids == strs(value_names@),
            strs(gids@) == group_ids(groups@),
            fs == fields@,
            totals_fit(fs, groups@, vids, *ctx),
            group_views(out_groups@) == groups_spec(fs, vids, *ctx, groups@, g as int),
            total_fields == group_field_sum(groups_spec(fs, vids, *ctx, groups@, g as int)),
            total_errors == group_error_sum(groups_spec(fs, vids, *ctx, groups@, g as int)),
        decreases groups.len() - g,
    {
        let ghost before = groups_spec(fs, vids, *ctx, groups@, g as int);
        let kept = match last_of(&gids, groups[g].id.as_str()) {
            Some(i) => i == g,
            None => false,
        };
        assert(group_ids(groups@)[g as int] == groups@[g as int].id@);
        let es = unkey(sort_keyed(keyed(fields, &look, ctx, &groups[g].field_ids)));
        proof {
            assert(es@ == group_fields(fs, vids, *ctx, groups@, g as int));
            assert(kept == group_kept(groups@, g as int));
        }
        if kept && es.len() > 0 {
            let n = es.len();
            let errs = match count_errors(&es, usize::MAX - total_errors) {
                Some(c) => c,
                None => {
                    proof {
                        lemma_totals_grow(fs, vids, *ctx, groups@, g as int);
                        lemma_error_sum_nonneg(ungrouped_spec(fs, vids, *ctx, groups@, fs.len() as int));
                    }
                    return vstd::pervasive::unreached();
                },
            };
            if n > usize::MAX - total_fields {
                proof {
                    lemma_totals_grow(fs, vids, *ctx, groups@, g as int);
                    lemma_error_sum_nonneg(ungrouped_spec(fs, vids, *ctx, groups@, fs.len() as int));
                }
                return vstd::pervasive::unreached();
            }
            let expanded = ctx.is_expanded(groups[g].id.as_str());
            let ghost ges = es@;
            out_groups.push(GroupEntry { group: g, fields: es, is_expanded: expanded });
            proof {
                lemma_sums_push_group(before, (g as int, ges, expanded));
                assert(group_views(out_groups@) =~= before.push((g as int, ges, expanded)));
            }
            total_fields = total_fields + n;
            total_errors = total_errors + errs;
        }
        g = g + 1;
    }

    let mut ungrouped: Vec<FieldEntry> = Vec::new();
    let mut f: usize = 0;
    while f < fields.len()
        invariant
            f <= fields@.len(),
            g == groups@.len(),
            strs(look.field_ids@) == field_ids(fields@),
            strs(look.error_ids@) == error_ids(ctx.validation_errors@),
            strs(look.value_ids@) == vids,
            strs(gids@) == group_ids(groups@),
            fs == fields@,
            vids == strs(value_names@),
            totals_fit(fs, groups@, vids, *ctx),
            total_fields == group_field_sum(groups_spec(fs, vids, *ctx, groups@, groups@.len() as int)),
            total_errors == group_error_sum(groups_spec(fs, vids, *ctx, groups@, groups@.len() as int)),
            group_views(out_groups@) == groups_spec(fs, vids, *ctx, groups@, groups@.len() as int),
            ungrouped@ == ungrouped_spec(fs, vids, *ctx, groups@, f as int),
        decreases fields.len() - f,
    {
        let k = fields[f].id.as_str();
        let last = match last_of(&look.field_ids, k) {
            Some(i) => i == f,
            None => false,
        };
        assert(field_ids(fields@)[f as int] == fields@[f as int].id@);
        assert(last == (last_index(field_ids(fs), fs[f as int].id@) == Some(f as int)));
        if last && !fields[f].is_hidden && !is_used(fields, groups, &look, &gids, k) {
            let e = entry(fields, &look, ctx, f);
            ungrouped.push(e);
        }
        f = f + 1;
    }

    let nu = ungrouped.len();
    let ue = match count_errors(&ungrouped, usize::MAX - total_errors) {
        Some(c) => c,
        None => {
            return vstd::pervasive::unreached();
        },
    };
    let total_fields = total_fields + nu;
    let total_errors = total_errors + ue;
    ContainerData {
        groups: out_groups,
        ungrouped_fields: ungrouped,
        total_fields,
        total_errors,
        is_valid: total_errors == 0,
    }
}

/// The entries are in order of place.
pub open spec fn sorted_by_place(s: Seq<(i64, FieldEntry)>) -> bool {
    forall|i: int, j: int| 0 <= i < j < s.len() ==> s[i].0 <= s[j].0
}

proof fn lemma_insert_keeps_sorted(s: Seq<(i64, FieldEntry)>, x: (i64, FieldEntry))
    requires
        sorted_by_place(s),
    ensures
        sorted_by_place(insert_by_place(s, x)),
        insert_by_place(s, x).len() == s.len() + 1,
        forall|i: int|
            0 <= i < insert_by_place(s, x).len() ==> #[trigger] insert_by_place(s, x)[i].0 == x.0 || exists|
                j: int,
            | 0 <= j < s.len() && s[j].0 == insert_by_place(s, x)[i].0,
    decreases s.len(),
{
    if s.len() > 0 && s.last().0 > x.0 {
        let init = s.drop_last();
        lemma_insert_keeps_sorted(init, x);
        let t = insert_by_place(init, x);
        let r = t.push(s.last());
        assert forall|i: int| 0 <= i < t.len() implies t[i].0 <= s.last().0 by {
            if t[i].0 != x.0 {
                let j = choose|j: int| 0 <= j < init.len() && init[j].0 == t[i].0;
                assert(init[j] == s[j]);
            }
        }
        assert forall|i: int| 0 <= i < r.len() implies #[trigger] r[i].0 == x.0 || exists|j: int|
            0 <= j < s.len() && s[j].0 == r[i].0 by {
            if i < t.len() {
                assert(r[i] == t[i]);
                if t[i].0 != x.0 {
                    let j = choose|j: int| 0 <= j < init.len() && init[j].0 == t[i].0;
                    assert(s[j] == init[j]);
                }
            } else {
                assert(s[s.len() - 1].0 == r[i].0);
            }
        }
    } else if s.len() > 0 {
        let r = s.push(x);
        assert forall|i: int| 0 <= i < r.len() implies #[trigger] r[i].0 == x.0 || exists|j: int|
            0 <= j < s.len() && s[j].0 == r[i].0 by {
            if i < s.len() {
                assert(s[i].0 == r[i].0);
            }
        }
    }
}

proof fn lemma_sort_sorted(s: Seq<(i64, FieldEntry)>)
    ensures
        sorted_by_place(sort_by_place(s)),
        sort_by_place(s).len() == s.len(),
    decreases s.len(),
{
    if s.len() > 0 {
        lemma_sort_sorted(s.drop_last());
        lemma_insert_keeps_sorted(sort_by_place(s.drop_last()), s.last());
    }
}

/// Every shown group has at least one field, and its fields come in order of
/// their place in the group.
pub proof fn lemma_shown_groups(
    fields: Seq<FieldDef>,
    value_ids: Seq<Seq<char>>,
    ctx: RenderContext,
    groups: Seq<GroupDef>,
    n: int,
)
    ensures
        forall|i: int|
            0 <= i < groups_spec(fields, value_ids, ctx, groups, n).len() ==> {
                let (g, es, _) = #[trigger] groups_spec(fields, value_ids, ctx, groups, n)[i];
                &&& es.len() > 0
                &&& es == group_fields(fields, value_ids, ctx, groups, g)
                &&& sorted_by_place(
                    sort_by_place(keyed_entries(fields, value_ids, ctx, strs(groups[g].field_ids@))),
                )
            },
    decreases n,
{
    if n > 0 {
        lemma_shown_groups(fields, value_ids, ctx, groups, n - 1);
        lemma_sort_sorted(keyed_entries(fields, value_ids, ctx, strs(groups[n - 1].field_ids@)));
        let rest = groups_spec(fields, value_ids, ctx, groups, n - 1);
        let all = groups_spec(fields, value_ids, ctx, groups, n);
        assert forall|i: int| 0 <= i < all.len() implies {
            let (g, es, _) = #[trigger] all[i];
            &&& es.len() > 0
            &&& es == group_fields(fields, value_ids, ctx, groups, g)
            &&& sorted_by_place(
                sort_by_place(keyed_entries(fields, value_ids, ctx, strs(groups[g].field_ids@))),
            )
        } by {
            if i < rest.len() {
                assert(all[i] == rest[i]);
            }
        }
    }
}

/// Each ungrouped entry shows a visible field that no shown group holds,
/// the last with its identifier, and no identifier is shown twice.
pub proof fn lemma_ungrouped_once(
    fields: Seq<FieldDef>,
    value_ids: Seq<Seq<char>>,
    ctx: RenderContext,
    groups: Seq<GroupDef>,
    n: int,
)
    requires
        n <= fields.len(),
        fields.len() <= usize::MAX,
    ensures
        forall|i: int|
            0 <= i < ungrouped_spec(fields, value_ids, ctx, groups, n).len() ==> {
                let f = (#[trigger] ungrouped_spec(fields, value_ids, ctx, groups, n)[i]).field as int;
                &&& 0 <= f < n
                &&& !fields[f].is_hidden
                &&& !used(fields, groups, fields[f].id@)
                &&& last_index(field_ids(fields), fields[f].id@) == Some(f)
            },
        forall|i: int, j: int|
            0 <= i < j < ungrouped_spec(fields, value_ids, ctx, groups, n).len() ==> fields[ungrouped_spec(
                fields,
                value_ids,
                ctx,
                groups,
                n,
            )[i].field as int].id@ != fields[ungrouped_spec(fields, value_ids, ctx, groups, n)[j].field as int].id@,
    decreases n,
{
    if n > 0 {
        lemma_ungrouped_once(fields, value_ids, ctx, groups, n - 1);
        let rest = ungrouped_spec(fields, value_ids, ctx, groups, n - 1);
        let all = ungrouped_spec(fields, value_ids, ctx, groups, n);
        let f = n - 1;
        assert forall|i: int| 0 <= i < all.len() implies {
            let g = (#[trigger] all[i]).field as int;
            &&& 0 <= g < n
            &&& !fields[g].is_hidden
            &&& !used(fields, groups, fields[g].id@)
            &&& last_index(field_ids(fields), fields[g].id@) == Some(g)
        } by {
            if i < rest.len() {
                assert(all[i] == rest[i]);
            } else {
                assert(all[i] == entry_spec(fields, value_ids, ctx, f));
                assert(all[i].field as int == f);
                assert(field_ids(fields)[f] == fields[f].id@);
            }
        }
        assert forall|i: int, j: int| 0 <= i < j < all.len() implies fields[all[i].field as int].id@
            != fields[all[j].field as int].id@ by {
            if j < rest.len() {
                assert(all[i] == rest[i] && all[j] == rest[j]);
            } else {
                assert(all[i] == rest[i]);
                let a = rest[i].field as int;
                assert(all[i].field as int == a);
                assert(all[j] == entry_spec(fields, value_ids, ctx, f));
                assert(all[j].field as int == f);
                assert(0 <= a < n - 1);
            }
        }
    }
}

/// `e` is how field `e.field` is shown.
pub open spec fn entry_of(fields: Seq<FieldDef>, value_ids: Seq<Seq<char>>, ctx: RenderContext, e: FieldEntry) -> bool {
    0 <= e.field < fields.len() && e == entry_spec(fields, value_ids, ctx, e.field as int)
}

/// What a shown entry says of its field, in terms of the inputs: a field
/// without a form value shows the default of its kind (zero for a number,
/// its own starting check for a checkbox, its default text otherwise); a
/// field with one shows the last value of its name; focus and change marks
/// follow the render context; its error entry is the last error listed
/// under its name, if any, and the count is that entry's number of messages.
pub open spec fn shows_field(fields: Seq<FieldDef>, value_ids: Seq<Seq<char>>, ctx: RenderContext, e: FieldEntry) -> bool {
    let d = fields[e.field as int];
    &&& 0 <= e.field < fields.len()
    &&& (forall|j: int| 0 <= j < value_ids.len() ==> value_ids[j] != d.id@) ==> {
        &&& d.kind == FieldKind::Number ==> e.value == ValueSource::NumberDefault
        &&& d.kind == FieldKind::Checkbox ==> e.value == ValueSource::CheckboxDefault(d.default_checked)
        &&& d.kind == FieldKind::Other ==> e.value == ValueSource::TextDefault
    }
    &&& (e.value matches ValueSource::Given(i) ==> {
        &&& i < value_ids.len()
        &&& value_ids[i as int] == d.id@
        &&& forall|j: int| i < j < value_ids.len() ==> value_ids[j] != d.id@
    })
    &&& ((exists|j: int| 0 <= j < value_ids.len() && value_ids[j] == d.id@) ==> e.value is Given)
    &&& (e.error_entry matches Some(i) ==> {
        &&& i < ctx.validation_errors@.len()
        &&& ctx.validation_errors@[i as int].0@ == d.id@
        &&& forall|j: int| i < j < ctx.validation_errors@.len() ==> ctx.validation_errors@[j].0@ != d.id@
        &&& e.error_count == ctx.validation_errors@[i as int].1@.len() as usize
    })
    &&& ((exists|j: int| 0 <= j < ctx.validation_errors@.len() && ctx.validation_errors@[j].0@ == d.id@)
        <==> e.error_entry is Some)
    &&& e.error_entry is None ==> e.error_count == 0
    &&& e.is_focused == (ctx@.focused == Some(d.id@))
    &&& e.is_dirty == ctx@.dirty.contains(d.id@)
}

proof fn lemma_entry_shows(fields: Seq<FieldDef>, value_ids: Seq<Seq<char>>, ctx: RenderContext, f: int)
    requires
        0 <= f < fields.len(),
        fields.len() <= usize::MAX,
        value_ids.len() <= usize::MAX,
    ensures
        entry_of(fields, value_ids, ctx, entry_spec(fields, value_ids, ctx, f)),
        ctx.validation_errors@.len() <= usize::MAX ==> shows_field(
            fields,
            value_ids,
            ctx,
            entry_spec(fields, value_ids, ctx, f),
        ),
{
    let d = fields[f];
    let e = entry_spec(fields, value_ids, ctx, f);
    assert(e.field as int == f);
    lemma_last_index_range(value_ids, d.id@);
    if forall|j: int| 0 <= j < value_ids.len() ==> value_ids[j] != d.id@ {
        lemma_last_index_absent(value_ids, d.id@);
    }
    if exists|j: int| 0 <= j < value_ids.len() && value_ids[j] == d.id@ {
        if last_index(value_ids, d.id@) is None {
            let j = choose|j: int| 0 <= j < value_ids.len() && value_ids[j] == d.id@;
            lemma_last_index_none_means_absent(value_ids, d.id@, j);
        }
    }
    if let Some(i) = last_index(value_ids, d.id@) {
        lemma_last_index_is_last(value_ids, d.id@);
    }
    let errs = ctx.validation_errors@;
    let eids = error_ids(errs);
    assert forall|j: int| 0 <= j < errs.len() implies (eids[j] == d.id@) == (errs[j].0@ == d.id@) by {}
    lemma_last_index_range(eids, d.id@);
    lemma_last_index_is_last(eids, d.id@);
    if let Some(i) = last_index(eids, d.id@) {
        assert(eids[i] == errs[i].0@);
        assert forall|j: int| i < j < errs.len() implies errs[j].0@ != d.id@ by {
            assert(eids[j] == errs[j].0@);
        }
    }
    if forall|j: int| 0 <= j < eids.len() ==> eids[j] != d.id@ {
        lemma_last_index_absent(eids, d.id@);
    }
    if exists|j: int| 0 <= j < errs.len() && errs[j].0@ == d.id@ {
        if last_index(eids, d.id@) is None {
            let j = choose|j: int| 0 <= j < errs.len() && errs[j].0@ == d.id@;
            lemma_last_index_none_means_absent(eids, d.id@, j);
        }
    }
}

proof fn lemma_last_index_none_means_absent(ids: Seq<Seq<char>>, k: Seq<char>, j: int)
    requires
        0 <= j < ids.len(),
        ids[j] == k,
    ensures
        last_index(ids, k) is Some,
    decreases ids.len(),
{
    if ids.last() != k {
        assert(j < ids.len() - 1);
        assert(ids.drop_last()[j] == ids[j]);
        lemma_last_index_none_means_absent(ids.drop_last(), k, j);
    }
}

proof fn lemma_last_index_is_last(ids: Seq<Seq<char>>, k: Seq<char>)
    ensures
        last_index(ids, k) matches Some(i) ==> forall|j: int| i < j < ids.len() ==> ids[j] != k,
    decreases ids.len(),
{
    if ids.len() > 0 && ids.last() != k {
        lemma_last_index_is_last(ids.drop_last(), k);
        lemma_last_index_range(ids.drop_last(), k);
        if let Some(i) = last_index(ids, k) {
            assert forall|j: int| i < j < ids.len() implies ids[j] != k by {
                if j < ids.len() - 1 {
                    assert(ids.drop_last()[j] == ids[j]);
                }
            }
        }
    }
}

/// All keyed entries are entries of the fields.
pub open spec fn all_keyed_entries(fields: Seq<FieldDef>, value_ids: Seq<Seq<char>>, ctx: RenderContext, s: Seq<(i64, FieldEntry)>) -> bool {
    forall|i: int| 0 <= i < s.len() ==> entry_of(fields, value_ids, ctx, #[trigger] s[i].1)
}

proof fn lemma_keyed_all(fields: Seq<FieldDef>, value_ids: Seq<Seq<char>>, ctx: RenderContext, ids: Seq<Seq<char>>)
    requires
        fields.len() <= usize::MAX,
        value_ids.len() <= usize::MAX,
    ensures
        all_keyed_entries(fields, value_ids, ctx, keyed_entries(fields, value_ids, ctx, ids)),
    decreases ids.len(),
{
    if ids.len() > 0 {
        lemma_keyed_all(fields, value_ids, ctx, ids.drop_last());
        lemma_last_index_range(field_ids(fields), ids.last());
        let rest = keyed_entries(fields, value_ids, ctx, ids.drop_last());
        if let Some(f) = visible_field(fields, ids.last()) {
            lemma_entry_shows(fields, value_ids, ctx, f);
            let all = keyed_entries(fields, value_ids, ctx, ids);
            assert forall|i: int| 0 <= i < all.len() implies entry_of(fields, value_ids, ctx, #[trigger] all[i].1) by {
                if i < rest.len() {
                    assert(all[i] == rest[i]);
                }
            }
        }
    }
}

proof fn lemma_insert_all(fields: Seq<FieldDef>, value_ids: Seq<Seq<char>>, ctx: RenderContext, s: Seq<(i64, FieldEntry)>, x: (i64, FieldEntry))
    requires
        all_keyed_entries(fields, value_ids, ctx, s),
        entry_of(fields, value_ids, ctx, x.1),
    ensures
        all_keyed_entries(fields, value_ids, ctx, insert_by_place(s, x)),
    decreases s.len(),
{
    if s.len() > 0 && s.last().0 > x.0 {
        let init = s.drop_last();
        assert forall|i: int| 0 <= i < init.len() implies entry_of(fields, value_ids, ctx, #[trigger] init[i].1) by {
            assert(init[i] == s[i]);
        }
        lemma_insert_all(fields, value_ids, ctx, init, x);
        let t = insert_by_place(init, x);
        let r = t.push(s.last());
        assert forall|i: int| 0 <= i < r.len() implies entry_of(fields, value_ids, ctx, #[trigger] r[i].1) by {
            if i < t.len() {
                assert(r[i] == t[i]);
            } else {
                assert(s[s.len() - 1] == r[i]);
            }
        }
    } else if s.len() > 0 {
        let r = s.push(x);
        assert forall|i: int| 0 <= i < r.len() implies entry_of(fields, value_ids, ctx, #[trigger] r[i].1) by {
            if i < s.len() {
                assert(r[i] == s[i]);
            }
        }
    }
}

proof fn lemma_sort_all(fields: Seq<FieldDef>, value_ids: Seq<Seq<char>>, ctx: RenderContext, s: Seq<(i64, FieldEntry)>)
    requires
        all_keyed_entries(fields, value_ids, ctx, s),
    ensures
        all_keyed_entries(fields, value_ids, ctx, sort_by_place(s)),
    decreases s.len(),
{
    if s.len() > 0 {
        let init = s.drop_last();
        assert forall|i: int| 0 <= i < init.len() implies entry_of(fields, value_ids, ctx, #[trigger] init[i].1) by {
            assert(init[i] == s[i]);
        }
        lemma_sort_all(fields, value_ids, ctx, init);
        assert(entry_of(fields, value_ids, ctx, s[s.len() - 1].1));
        lemma_insert_all(fields, value_ids, ctx, sort_by_place(init), s.last());
    }
}

proof fn lemma_groups_all(fields: Seq<FieldDef>, value_ids: Seq<Seq<char>>, ctx: RenderContext, groups: Seq<GroupDef>, n: int)
    requires
        fields.len() <= usize::MAX,
        value_ids.len() <= usize::MAX,
    ensures
        forall|i: int, j: int|
            0 <= i < groups_spec(fields, value_ids, ctx, groups, n).len() && 0 <= j < groups_spec(
                fields,
                value_ids,
                ctx,
                groups,
                n,
            )[i].1.len() ==> entry_of(fields, value_ids, ctx, #[trigger] groups_spec(fields, value_ids, ctx, groups, n)[i].1[j]),
    decreases n,
{
    if n > 0 {
        lemma_groups_all(fields, value_ids, ctx, groups, n - 1);
        let ks = keyed_entries(fields, value_ids, ctx, strs(groups[n - 1].field_ids@));
        lemma_keyed_all(fields, value_ids, ctx, strs(groups[n - 1].field_ids@));
        lemma_sort_all(fields, value_ids, ctx, ks);
        let es = group_fields(fields, value_ids, ctx, groups, n - 1);
        assert forall|j: int| 0 <= j < es.len() implies entry_of(fields, value_ids, ctx, #[trigger] es[j]) by {
            assert(es[j] == sort_by_place(ks)[j].1);
        }
        let rest = groups_spec(fields, value_ids, ctx, groups, n - 1);
        let all = groups_spec(fields, value_ids, ctx, groups, n);
        assert forall|i: int, j: int| 0 <= i < all.len() && 0 <= j < all[i].1.len() implies entry_of(
            fields,
            value_ids,
            ctx,
            #[trigger] all[i].1[j],
        ) by {
            if i < rest.len() {
                assert(all[i] == rest[i]);
            }
        }
    }
}

proof fn lemma_ungrouped_all(fields: Seq<FieldDef>, value_ids: Seq<Seq<char>>, ctx: RenderContext, groups: Seq<GroupDef>, n: int)
    requires
        n <= fields.len(),
        fields.len() <= usize::MAX,
        value_ids.len() <= usize::MAX,
    ensures
        forall|i: int|
            0 <= i < ungrouped_spec(fields, value_ids, ctx, groups, n).len() ==> entry_of(
                fields,
                value_ids,
                ctx,
                #[trigger] ungrouped_spec(fields, value_ids, ctx, groups, n)[i],
            ),
    decreases n,
{
    if n > 0 {
        lemma_ungrouped_all(fields, value_ids, ctx, groups, n - 1);
        lemma_entry_shows(fields, value_ids, ctx, n - 1);
        let rest = ungrouped_spec(fields, value_ids, ctx, groups, n - 1);
        let all = ungrouped_spec(fields, value_ids, ctx, groups, n);
        assert forall|i: int| 0 <= i < all.len() implies entry_of(fields, value_ids, ctx, #[trigger] all[i]) by {
            if i < rest.len() {
                assert(all[i] == rest[i]);
            }
        }
    }
}

/// Every field the renderer shows, grouped or not, shows the value the form
/// holds for it, else the default of its kind: zero for a number, its own
/// starting check for a checkbox and its default text otherwise; it points
/// at the last error listed under its name and counts that error's messages;
/// its focus and change marks are those of the render context.
pub proof fn lemma_shown_values(fields: Seq<FieldDef>, value_ids: Seq<Seq<char>>, ctx: RenderContext, groups: Seq<GroupDef>)
    requires
        fields.len() <= usize::MAX,
        value_ids.len() <= usize::MAX,
        ctx.validation_errors@.len() <= usize::MAX,
    ensures
        forall|i: int|
            0 <= i < ungrouped_spec(fields, value_ids, ctx, groups, fields.len() as int).len() ==> shows_field(
                fields,
                value_ids,
                ctx,
                #[trigger] ungrouped_spec(fields, value_ids, ctx, groups, fields.len() as int)[i],
            ),
        forall|i: int, j: int|
            0 <= i < groups_spec(fields, value_ids, ctx, groups, groups.len() as int).len() && 0 <= j
                < groups_spec(fields, value_ids, ctx, groups, groups.len() as int)[i].1.len() ==> shows_field(
                fields,
                value_ids,
                ctx,
                #[trigger] groups_spec(fields, value_ids, ctx, groups, groups.len() as int)[i].1[j],
            ),
{
    let us = ungrouped_spec(fields, value_ids, ctx, groups, fields.len() as int);
    let gs = groups_spec(fields, value_ids, ctx, groups, groups.len() as int);
    lemma_ungrouped_all(fields, value_ids, ctx, groups, fields.len() as int);
    lemma_groups_all(fields, value_ids, ctx, groups, groups.len() as int);
    assert forall|i: int| 0 <= i < us.len() implies shows_field(fields, value_ids, ctx, #[trigger] us[i]) by {
        assert(entry_of(fields, value_ids, ctx, us[i]));
        lemma_entry_shows(fields, value_ids, ctx, us[i].field as int);
    }
    assert forall|i: int, j: int| 0 <= i < gs.len() && 0 <= j < gs[i].1.len() implies shows_field(
        fields,
        value_ids,
        ctx,
        #[trigger] gs[i].1[j],
    ) by {
        assert(entry_of(fields, value_ids, ctx, gs[i].1[j]));
        lemma_entry_shows(fields, value_ids, ctx, gs[i].1[j].field as int);
    }
}

} // verus!
