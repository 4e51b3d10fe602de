//! The state the fields renderer keeps while the user works on a form of
//! custom fields: which field has the focus, which fields were changed,
//! which groups are open and the errors found per field.
use vstd::prelude::*;
use crate::text::{copy_str, str_eq};

verus! {

/// The names held by a list, as a set.
pub open spec fn names(v: Seq<String>) -> Set<Seq<char>> {
    Set::new(|k: Seq<char>| exists|i: int| 0 <= i < v.len() && #[trigger] v[i]@ == k)
}

/// No name occurs twice in the list.
pub open spec fn no_repeats(v: Seq<String>) -> bool {
    forall|i: int, j: int| 0 <= i < j < v.len() ==> v[i]@ != v[j]@
}

/// The render context of a form of custom fields.
#[derive(Clone, Debug)]
pub struct RenderContext {
    /// The errors found for each field.
    pub validation_errors: Vec<(String, Vec<String>)>,
    /// The field that has the focus, if any.
    pub focused_field: Option<String>,
    /// The fields the user has changed.
    pub dirty_fields: Vec<String>,
    /// The groups that are open.
    pub expanded_groups: Vec<String>,
}

/// The render context as values.
pub struct RenderContextView {
    pub error_fields: Set<Seq<char>>,
    pub focused: Option<Seq<char>>,
    pub dirty: Set<Seq<char>>,
    pub expanded: Set<Seq<char>>,
}

/// The names of the fields that errors are recorded for.
pub open spec fn error_names(v: Seq<(String, Vec<String>)>) -> Set<Seq<char>> {
    Set::new(|k: Seq<char>| exists|i: int| 0 <= i < v.len() && #[trigger] v[i].0@ == k)
}

impl View for RenderContext {
    type V = RenderContextView;

    open spec fn view(&self) -> RenderContextView {
        RenderContextView {
            error_fields: error_names(self.validation_errors@),
            focused: match self.focused_field {
                Some(f) => Some(f@),
                None => None,
            },
            dirty: names(self.dirty_fields@),
            expanded: names(self.expanded_groups@),
        }
    }
}

proof fn lemma_names_push(v: Seq<String>, x: String)
    ensures
        names(v.push(x)) == names(v).insert(x@),
{
    assert forall|k: Seq<char>| #[trigger] names(v.push(x)).contains(k) == names(v).insert(x@).contains(k) by {
        if names(v).contains(k) {
            let i = choose|i: int| 0 <= i < v.len() && #[trigger] v[i]@ == k;
            assert(v.push(x)[i] == v[i]);
        }
        if k == x@ {
            assert(v.push(x)[v.len() as int] == x);
        }
        if names(v.push(x)).contains(k) {
            let i = choose|i: int| 0 <= i < v.push(x).len() && #[trigger] v.push(x)[i]@ == k;
            if i < v.len() {
                assert(v.push(x)[i] == v[i]);
            }
        }
    }
    assert(names(v.push(x)) =~= names(v).insert(x@));
}

proof fn lemma_names_empty()
    ensures
        names(Seq::<String>::empty()) == Set::<Seq<char>>::empty(),
{
    assert(names(Seq::<String>::empty()) =~= Set::<Seq<char>>::empty());
}

/// `v` without the entries named `k`, built so far from the first `n` entries.
proof fn lemma_names_without_step(v: Seq<String>, kept: Seq<String>, k: Seq<char>, n: int)
    requires
        0 <= n < v.len(),
        names(kept) == names(v.take(n)).remove(k),
    ensures
        v[n]@ != k ==> names(kept.push(v[n])) == names(v.take(n + 1)).remove(k),
        v[n]@ == k ==> names(kept) == names(v.take(n + 1)).remove(k),
{
    assert(v.take(n + 1) =~= v.take(n).push(v[n]));
    lemma_names_push(v.take(n), v[n]);
    if v[n]@ != k {
        lemma_names_push(kept, v[n]);
        assert(names(kept.push(v[n])) =~= names(v.take(n + 1)).remove(k));
    } else {
        assert(names(kept) =~= names(v.take(n + 1)).remove(k));
    }
}

/// `x` is the name of one of the first `n` entries of `v`.
spec fn among_first(v: Seq<String>, n: int, x: Seq<char>) -> bool {
    exists|j: int| 0 <= j < n && #[trigger] v[j]@ == x
}

/// The list without the entries named `k`.
fn without(v: &Vec<String>, k: &str) -> (r: Vec<String>)
    ensures
        names(r@) == names(v@).remove(k@),
        no_repeats(v@) ==> no_repeats(r@),
{
    let mut kept: Vec<String> = Vec::new();
    let mut n: usize = 0;
    proof {
        lemma_names_empty();
        assert(v@.take(0) =~= Seq::<String>::empty());
        assert(names(kept@) =~= names(v@.take(0)).remove(k@));
    }
    while n < v.len()
        invariant
            n <= v@.len(),
            names(kept@) == names(v@.take(n as int)).remove(k@),
            forall|a: int| 0 <= a < kept@.len() ==> among_first(v@, n as int, (#[trigger] kept@[a])@),
            no_repeats(v@) ==> no_repeats(kept@),
        decreases v.len() - n,
    {
        proof {
            lemma_names_without_step(v@, kept@, k@, n as int);
        }
        if !str_eq(v[n].as_str(), k) {
            let c = copy_str(v[n].as_str());
            proof {
                assert(c@ == v@[n as int]@);
                lemma_names_push(kept@, c);
                lemma_names_push(kept@, v@[n as int]);
            }
            let ghost before = kept@;
            kept.push(c);
            proof {
                assert forall|a: int| 0 <= a < kept@.len() implies among_first(
                    v@,
                    n + 1,
                    (#[trigger] kept@[a])@,
                ) by {
                    if a < before.len() {
                        assert(kept@[a] == before[a]);
                        assert(among_first(v@, n as int, before[a]@));
                        let j = choose|j: int| 0 <= j < n && #[trigger] v@[j]@ == before[a]@;
                        assert(v@[j]@ == kept@[a]@);
                    } else {
                        assert(v@[n as int]@ == kept@[a]@);
                    }
                }
                if no_repeats(v@) {
                    assert forall|i: int, j: int| 0 <= i < j < kept@.len() implies kept@[i]@ != kept@[j]@ by {
                        if j == kept@.len() - 1 {
                            assert(kept@[i] == before[i]);
                            assert(among_first(v@, n as int, before[i]@));
                            let jj = choose|jj: int| 0 <= jj < n && #[trigger] v@[jj]@ == before[i]@;
                            assert(v@[jj]@ != v@[n as int]@);
                        } else {
                            assert(kept@[i] == before[i] && kept@[j] == before[j]);
                        }
                    }
                }
            }
        }
        n = n + 1;
    }
    assert(v@.take(n as int) =~= v@);
    kept
}

/// Whether a list holds the name `k`.
fn holds_name(v: &Vec<String>, k: &str) -> (r: bool)
    ensures
        r == names(v@).contains(k@),
{
    let mut i: usize = 0;
    while i < v.len()
        invariant
            i <= v@.len(),
            forall|j: int| 0 <= j < i ==> v@[j]@ != k@,
        decreases v.len() - i,
    {
        if str_eq(v[i].as_str(), k) {
            assert(v@[i as int]@ == k@);
            return true;
        }
        i = i + 1;
    }
    false
}

impl RenderContext {
    /// A context with no focus, no changes, no open groups and no errors.
    pub fn new() -> (r: Self)
        ensures
            r@.error_fields == Set::<Seq<char>>::empty(),
            r@.focused is None,
            r@.dirty == Set::<Seq<char>>::empty(),
            r@.expanded == Set::<Seq<char>>::empty(),
            no_repeats(r.dirty_fields@) && no_repeats(r.expanded_groups@),
    {
        let r = RenderContext {
            validation_errors: Vec::new(),
            focused_field: None,
            dirty_fields: Vec::new(),
            expanded_groups: Vec::new(),
        };
        proof {
            lemma_names_empty();
            assert(error_names(r.validation_errors@) =~= Set::<Seq<char>>::empty());
        }
        r
    }

    /// Whether group `id` is open.
    pub fn is_expanded(&self, id: &str) -> (r: bool)
        ensures
            r == self@.expanded.contains(id@),
    {
        holds_name(&self.expanded_groups, id)
    }

    /// Whether field `id` was changed.
    pub fn is_dirty(&self, id: &str) -> (r: bool)
        ensures
            r == self@.dirty.contains(id@),
    {
        holds_name(&self.dirty_fields, id)
    }

    /// Whether field `id` has the focus.
    pub fn is_focused(&self, id: &str) -> (r: bool)
        ensures
            r == (self@.focused == Some(id@)),
    {
        match &self.focused_field {
            Some(f) => str_eq(f.as_str(), id),
            None => false,
        }
    }

    /// Opens group `id` when it is closed and closes it when it is open.
    pub fn toggle_group(&mut self, id: String)
        ensures
            final(self).validation_errors@ == old(self).validation_errors@,
            final(self)@.expanded == (if old(self)@.expanded.contains(id@) {
                old(self)@.expanded.remove(id@)
            } else {
                old(self)@.expanded.insert(id@)
            }),
            final(self)@.dirty == old(self)@.dirty,
            final(self)@.focused == old(self)@.focused,
            final(self)@.error_fields == old(self)@.error_fields,
            no_repeats(old(self).expanded_groups@) ==> no_repeats(final(self).expanded_groups@),
    {
        if holds_name(&self.expanded_groups, id.as_str()) {
            self.expanded_groups = without(&self.expanded_groups, id.as_str());
        } else {
            proof {
                lemma_names_push(self.expanded_groups@, id);
            }
            self.expanded_groups.push(id);
        }
    }

    /// Gives field `id` the focus.
    pub fn focus(&mut self, id: String)
        ensures
            final(self).validation_errors@ == old(self).validation_errors@,
            final(self)@.focused == Some(id@),
            final(self)@.dirty == old(self)@.dirty,
            final(self)@.expanded == old(self)@.expanded,
            final(self)@.error_fields == old(self)@.error_fields,
    {
        self.focused_field = Some(id);
    }

    /// Takes the focus away (whichever field loses it).
    pub fn blur(&mut self)
        ensures
            final(self).validation_errors@ == old(self).validation_errors@,
            final(self)@.focused is None,
            final(self)@.dirty == old(self)@.dirty,
            final(self)@.expanded == old(self)@.expanded,
            final(self)@.error_fields == old(self)@.error_fields,
    {
        self.focused_field = None;
    }

    /// Records that field `id` was changed.
    pub fn mark_dirty(&mut self, id: String)
        ensures
            final(self).validation_errors@ == old(self).validation_errors@,
            final(self)@.dirty == old(self)@.dirty.insert(id@),
            final(self)@.focused == old(self)@.focused,
            final(self)@.expanded == old(self)@.expanded,
            final(self)@.error_fields == old(self)@.error_fields,
            no_repeats(old(self).dirty_fields@) ==> no_repeats(final(self).dirty_fields@),
    {
        if !holds_name(&self.dirty_fields, id.as_str()) {
            proof {
                lemma_names_push(self.dirty_fields@, id);
            }
            self.dirty_fields.push(id);
        } else {
            assert(old(self)@.dirty.insert(id@) =~= old(self)@.dirty);
        }
    }

    /// Resets the form: no errors, no changed fields and no focus; open
    /// groups stay open.
    pub fn reset(&mut self)
        ensures
            final(self)@.error_fields == Set::<Seq<char>>::empty(),
            final(self)@.focused is None,
            final(self)@.dirty == Set::<Seq<char>>::empty(),
            final(self)@.expanded == old(self)@.expanded,
            final(self).expanded_groups@ == old(self).expanded_groups@,
            no_repeats(final(self).dirty_fields@),
    {
        self.validation_errors = Vec::new();
        self.dirty_fields = Vec::new();
        self.focused_field = None;
        proof {
            lemma_names_empty();
            assert(error_names(self.validation_errors@) =~= Set::<Seq<char>>::empty());
        }
    }
}

/// Opening and closing a group twice leaves the open groups as they were.
pub proof fn lemma_toggle_twice(expanded: Set<Seq<char>>, id: Seq<char>)
    ensures
        ({
            let once = if expanded.contains(id) {
                expanded.remove(id)
            } else {
                expanded.insert(id)
            };
            if once.contains(id) {
                once.remove(id)
            } else {
                once.insert(id)
            }
        }) == expanded,
{
    if expanded.contains(id) {
        assert(expanded.remove(id).insert(id) =~= expanded);
    } else {
        assert(expanded.insert(id).remove(id) =~= expanded);
    }
}

} // verus!
