//! The headless grouped autocomplete: searching grouped items, limiting the
//! results and moving the highlight with the keyboard.
use vstd::prelude::*;
use crate::outside::{lowercase, to_lowercase};
use crate::text::{contains_spec, copy_str, occurs_at, str_contains, str_eq};

verus! {

/// Items that the autocomplete can search and show.
pub trait AutocompleteItem: Sized {
    type Id;

    /// The item's identifier.
    fn id(&self) -> Self::Id;

    /// The text a query is searched in.
    fn search_text(&self) -> String;

    /// The text shown for the item.
    fn display_text(&self) -> String;
}

/// A named group of items.
#[derive(Clone, Debug)]
pub struct AutocompleteGroup<T> {
    pub id: String,
    pub name: String,
    pub items: Vec<T>,
}

/// How the autocomplete behaves.
#[derive(Clone, Debug, PartialEq)]
pub struct AutocompleteConfig {
    /// Queries shorter than this many bytes are not searched.
    pub min_query_length: usize,
    /// At most this many results are shown per group, if set.
    pub max_results_per_group: Option<usize>,
    /// How long typing must pause before a search, in milliseconds.
    pub debounce_ms: u64,
    pub case_sensitive: bool,
}

impl Default for AutocompleteConfig {
    /// Search from the first byte, show all results, wait 300 ms, ignore case.
    fn default() -> (r: Self)
        ensures
            r.min_query_length == 1,
            r.max_results_per_group is None,
            r.debounce_ms == 300,
            !r.case_sensitive,
    {
        AutocompleteConfig {
            min_query_length: 1,
            max_results_per_group: None,
            debounce_ms: 300,
            case_sensitive: false,
        }
    }
}

/// A search text matches a query when the query occurs in it, ignoring case
/// unless the search is case-sensitive.
pub open spec fn text_matches(text: Seq<char>, query: Seq<char>, case_sensitive: bool) -> bool {
    if case_sensitive {
        contains_spec(text, query)
    } else {
        contains_spec(lowercase(text), lowercase(query))
    }
}

/// The items that a query finds, where `texts[i]` is the search text of
/// `items[i]`: all of them for an empty query, else those whose text
/// matches, in their order.
pub open spec fn found_items<T>(
    items: Seq<T>,
    texts: Seq<Seq<char>>,
    query: Seq<char>,
    case_sensitive: bool,
) -> Seq<T>
    decreases items.len(),
{
    if query.len() == 0 || items.len() == 0 {
        items
    } else {
        let rest = found_items(items.drop_last(), texts.drop_last(), query, case_sensitive);
        if text_matches(texts.last(), query, case_sensitive) {
            rest.push(items.last())
        } else {
            rest
        }
    }
}

/// `text` is a search text that `search_text` reports for `item`.
pub open spec fn reports_text<T: AutocompleteItem>(item: T, text: Seq<char>) -> bool {
    exists|s: String| call_ensures(T::search_text, (&item,), s) && s@ == text
}

/// `texts` gives every item of every group a search text that the item reports.
pub open spec fn texts_fit<T: AutocompleteItem>(groups: Seq<AutocompleteGroup<T>>, texts: Seq<Seq<Seq<char>>>) -> bool {
    &&& texts.len() == groups.len()
    &&& forall|i: int| 0 <= i < groups.len() ==> (#[trigger] texts[i]).len() == groups[i].items@.len()
    &&& forall|i: int, j: int|
        0 <= i < groups.len() && 0 <= j < groups[i].items@.len() ==> reports_text(
            groups[i].items@[j],
            #[trigger] texts[i][j],
        )
}

/// The groups a search returns, as identifier, name and items, where
/// `texts[g][i]` is the search text of item `i` of group `g`: for an empty
/// query every group with all its items, else every group with at least one
/// match, holding just its matches, in the original order.
pub open spec fn found_groups<T>(
    groups: Seq<AutocompleteGroup<T>>,
    texts: Seq<Seq<Seq<char>>>,
    query: Seq<char>,
    case_sensitive: bool,
) -> Seq<(Seq<char>, Seq<char>, Seq<T>)>
    decreases groups.len(),
{
    if groups.len() == 0 {
        Seq::empty()
    } else {
        let rest = found_groups(groups.drop_last(), texts.drop_last(), query, case_sensitive);
        let g = groups.last();
        let items = found_items(g.items@, texts.last(), query, case_sensitive);
        if query.len() != 0 && items.len() == 0 {
            rest
        } else {
            rest.push((g.id@, g.name@, items))
        }
    }
}

/// `b` holds clones of the items of `a`, in the same order.
pub open spec fn clones_of<T: Clone>(a: Seq<T>, b: Seq<T>) -> bool {
    a.len() == b.len() && forall|i: int| 0 <= i < a.len() ==> cloned(#[trigger] a[i], b[i])
}

/// The groups `result` are the groups `expected`, their items cloned.
pub open spec fn groups_as<T: Clone>(
    result: Seq<AutocompleteGroup<T>>,
    expected: Seq<(Seq<char>, Seq<char>, Seq<T>)>,
) -> bool {
    result.len() == expected.len() && forall|i: int|
        0 <= i < result.len() ==> {
            &&& (#[trigger] result[i]).id@ == expected[i].0
            &&& result[i].name@ == expected[i].1
            &&& clones_of(expected[i].2, result[i].items@)
        }
}

/// The views of a list of strings.
pub open spec fn string_views(v: Seq<String>) -> Seq<Seq<char>> {
    v.map_values(|s: String| s@)
}

/// A data source that searches groups held in memory.
#[derive(Clone, Debug)]
pub struct StaticDataSource<T> {
    pub groups: Vec<AutocompleteGroup<T>>,
    pub case_sensitive: bool,
}

fn search_key(text: &str, case_sensitive: bool) -> (r: String)
    ensures
        r@ == (if case_sensitive {
            text@
        } else {
            lowercase(text@)
        }),
{
    if case_sensitive {
        copy_str(text)
    } else {
        to_lowercase(text)
    }
}

/// Whether a search text matches a query.
pub fn search_text_matches(text: &str, query: &str, case_sensitive: bool) -> (r: bool)
    ensures
        r == text_matches(text@, query@, case_sensitive),
{
    let hay = search_key(text, case_sensitive);
    let key = search_key(query, case_sensitive);
    str_contains(hay.as_str(), key.as_str())
}

/// The items that a query finds, given the search text of each item (see `found_items`).
pub fn select_matches<T: Clone>(items: &Vec<T>, texts: &Vec<String>, query: &str, case_sensitive: bool) -> (r:
    Vec<T>)
    requires
        texts@.len() == items@.len(),
    ensures
        clones_of(found_items(items@, string_views(texts@), query@, case_sensitive), r@),
{
    let ghost tv = string_views(texts@);
    let mut out: Vec<T> = Vec::new();
    let empty = query.is_empty();
    let mut j: usize = 0;
    while j < items.len()
        invariant
            j <= items.len(),
            texts@.len() == items@.len(),
            tv == string_views(texts@),
            empty == (query@.len() == 0),
            clones_of(
                found_items(items@.take(j as int), tv.take(j as int), query@, case_sensitive),
                out@,
            ),
        decreases items.len() - j,
    {
        let item = &items[j];
        let ghost before = out@;
        let ghost prev = found_items(items@.take(j as int), tv.take(j as int), query@, case_sensitive);
        proof {
            assert(items@.take(j + 1).drop_last() =~= items@.take(j as int));
            assert(tv.take(j + 1).drop_last() =~= tv.take(j as int));
            assert(items@.take(j + 1).last() == *item);
            assert(tv.take(j + 1).last() == texts@[j as int]@);
        }
        let keep = empty || search_text_matches(texts[j].as_str(), query, case_sensitive);
        if keep {
            let c = item.clone();
            out.push(c);
            proof {
                let next = found_items(items@.take(j + 1), tv.take(j + 1), query@, case_sensitive);
                if empty {
                    assert(next == items@.take(j + 1));
                    assert(prev == items@.take(j as int));
                }
                assert(next =~= prev.push(*item));
                assert forall|i: int| 0 <= i < next.len() implies cloned(#[trigger] next[i], out@[i]) by {
                    if i < prev.len() {
                        assert(next[i] == prev[i]);
                        assert(out@[i] == before[i]);
                    }
                }
            }
        }
        j = j + 1;
    }
    assert(items@.take(j as int) =~= items@);
    assert(tv.take(j as int) =~= tv);
    out
}

/// The search text of every item of a group, in order.
fn texts_of<T: AutocompleteItem>(items: &Vec<T>) -> (r: Vec<String>)
    ensures
        r@.len() == items@.len(),
        forall|j: int| 0 <= j < items@.len() ==> reports_text(items@[j], #[trigger] r@[j]@),
{
    let mut r: Vec<String> = Vec::new();
    let mut j: usize = 0;
    while j < items.len()
        invariant
            j <= items.len(),
            r@.len() == j,
            forall|k: int| 0 <= k < j ==> reports_text(items@[k], #[trigger] r@[k]@),
        decreases items.len() - j,
    {
        let t = items[j].search_text();
        assert(reports_text(items@[j as int], t@));
        r.push(t);
        j = j + 1;
    }
    r
}

impl<T: AutocompleteItem + Clone> StaticDataSource<T> {
    pub fn new(groups: Vec<AutocompleteGroup<T>>, case_sensitive: bool) -> (r: Self)
        ensures
            r.groups@ == groups@,
            r.case_sensitive == case_sensitive,
    {
        StaticDataSource { groups, case_sensitive }
    }

    /// Searches the groups for a query (see `found_groups`), with the search
    /// texts that the items report.
    pub fn search(&self, query: &str) -> (r: Vec<AutocompleteGroup<T>>)
        ensures
            exists|texts: Seq<Seq<Seq<char>>>|
                #![trigger found_groups(self.groups@, texts, query@, self.case_sensitive)]
                texts_fit(self.groups@, texts) && groups_as(
                    r@,
                    found_groups(self.groups@, texts, query@, self.case_sensitive),
                ),
    {
        let empty = query.is_empty();
        let mut out: Vec<AutocompleteGroup<T>> = Vec::new();
        let ghost mut texts: Seq<Seq<Seq<char>>> = Seq::empty();
        let mut i: usize = 0;
        while i < self.groups.len()
            invariant
                i <= self.groups.len(),
                empty == (query@.len() == 0),
                texts_fit(self.groups@.take(i as int), texts),
                groups_as(
                    out@,
                    found_groups(self.groups@.take(i as int), texts, query@, self.case_sensitive),
                ),
            decreases self.groups.len() - i,
        {
            let g = &self.groups[i];
            let group_texts = texts_of(&g.items);
            let items = select_matches(&g.items, &group_texts, query, self.case_sensitive);
            let ghost before = out@;
            let ghost old_texts = texts;
            proof {
                texts = texts.push(string_views(group_texts@));
                assert(self.groups@.take(i + 1).drop_last() =~= self.groups@.take(i as int));
                assert(texts.drop_last() =~= old_texts);
                assert(self.groups@.take(i + 1).last() == *g);
                assert forall|k: int| 0 <= k < i + 1 implies (#[trigger] texts[k]).len()
                    == self.groups@.take(i + 1)[k].items@.len() by {
                    if k < i {
                        assert(texts[k] == old_texts[k]);
                        assert(self.groups@.take(i + 1)[k] == self.groups@.take(i as int)[k]);
                    }
                }
                assert forall|k: int, j: int|
                    0 <= k < i + 1 && 0 <= j < self.groups@.take(i + 1)[k].items@.len() implies reports_text(
                    self.groups@.take(i + 1)[k].items@[j],
                    #[trigger] texts[k][j],
                ) by {
                    if k < i {
                        assert(texts[k] == old_texts[k]);
                        assert(self.groups@.take(i + 1)[k] == self.groups@.take(i as int)[k]);
                    } else {
                        assert(texts[k] == string_views(group_texts@));
                        assert(texts[k][j] == group_texts@[j]@);
                    }
                }
            }
            if empty || items.len() > 0 {
                out.push(AutocompleteGroup { id: g.id.clone(), name: g.name.clone(), items });
                proof {
                    let e = found_groups(self.groups@.take(i + 1), texts, query@, self.case_sensitive);
                    assert forall|k: int| 0 <= k < out@.len() implies {
                        &&& (#[trigger] out@[k]).id@ == e[k].0
                        &&& out@[k].name@ == e[k].1
                        &&& clones_of(e[k].2, out@[k].items@)
                    } by {
                        if k < before.len() {
                            assert(out@[k] == before[k]);
                        }
                    }
                }
            }
            i = i + 1;
        }
        assert(self.groups@.take(i as int) =~= self.groups@);
        out
    }
}

/// The groups with at most `max` items each, when a maximum is set.
pub open spec fn limited<T>(groups: Seq<AutocompleteGroup<T>>, max: Option<usize>, result: Seq<
    AutocompleteGroup<T>,
>) -> bool {
    result.len() == groups.len() && forall|i: int|
        0 <= i < groups.len() ==> {
            &&& (#[trigger] result[i]).id == groups[i].id
            &&& result[i].name == groups[i].name
            &&& result[i].items@ == match max {
                Some(m) => if m < groups[i].items@.len() {
                    groups[i].items@.take(m as int)
                } else {
                    groups[i].items@
                },
                None => groups[i].items@,
            }
        }
}

/// Cuts every group down to `max_results_per_group` items, when that is set.
pub fn limit_results<T>(groups: Vec<AutocompleteGroup<T>>, max_results_per_group: Option<usize>) -> (r:
    Vec<AutocompleteGroup<T>>)
    ensures
        limited(groups@, max_results_per_group, r@),
{
    let ghost src = groups@;
    let mut rest = groups;
    let mut out: Vec<AutocompleteGroup<T>> = Vec::new();
    while rest.len() > 0
        invariant
            out@.len() + rest@.len() == src.len(),
            rest@ == src.subrange(out@.len() as int, src.len() as int),
            limited(src.take(out@.len() as int), max_results_per_group, out@),
        decreases rest.len(),
    {
        let mut g = rest.remove(0);
        match max_results_per_group {
            Some(m) => g.items.truncate(m),
            None => {},
        }
        let ghost before = out@;
        out.push(g);
        assert(rest@ =~= src.subrange(out@.len() as int, src.len() as int));
        assert forall|i: int| 0 <= i < out@.len() implies {
            &&& (#[trigger] out@[i]).id == src.take(out@.len() as int)[i].id
        } by {
            if i < before.len() {
                assert(out@[i] == before[i]);
            }
        }
        assert(limited(src.take(out@.len() as int), max_results_per_group, out@)) by {
            assert forall|i: int| 0 <= i < out@.len() implies {
                &&& (#[trigger] out@[i]).id == src.take(out@.len() as int)[i].id
                &&& out@[i].name == src.take(out@.len() as int)[i].name
                &&& out@[i].items@ == match max_results_per_group {
                    Some(m) => if m < src.take(out@.len() as int)[i].items@.len() {
                        src.take(out@.len() as int)[i].items@.take(m as int)
                    } else {
                        src.take(out@.len() as int)[i].items@
                    },
                    None => src.take(out@.len() as int)[i].items@,
                }
            } by {
                if i < before.len() {
                    assert(out@[i] == before[i]);
                    assert(src.take(out@.len() as int)[i] == src.take(before.len() as int)[i]);
                } else {
                    assert(src.take(out@.len() as int)[i] == src[i]);
                }
            }
        }
    }
    assert(src.take(out@.len() as int) =~= src);
    out
}

/// Whether a query is too short to be searched.
pub fn below_min_query(query: &str, min_query_length: usize) -> (r: bool)
    ensures
        r == (query.len() < min_query_length),
{
    query.len() < min_query_length
}


/// The number of items in each group.
pub fn group_sizes<T>(groups: &Vec<AutocompleteGroup<T>>) -> (r: Vec<usize>)
    ensures
        r@.len() == groups@.len(),
        forall|i: int| 0 <= i < groups@.len() ==> r@[i] == (#[trigger] groups@[i]).items@.len(),
{
    let mut r: Vec<usize> = Vec::new();
    let mut i: usize = 0;
    while i < groups.len()
        invariant
            i <= groups.len(),
            r@.len() == i,
            forall|k: int| 0 <= k < i ==> r@[k] == (#[trigger] groups@[k]).items@.len(),
        decreases groups.len() - i,
    {
        r.push(groups[i].items.len());
        i = i + 1;
    }
    r
}

/// The keys the autocomplete reacts to.
#[derive(Clone, Copy, Debug, PartialEq, Eq, Structural)]
pub enum NavKey {
    ArrowDown,
    ArrowUp,
    Enter,
    Escape,
    Other,
}

impl NavKey {
    /// The key named by a keyboard event's `key`.
    pub fn from_key(key: &str) -> (r: NavKey)
        ensures
            r == (if key@ == "ArrowDown"@ {
                NavKey::ArrowDown
            } else if key@ == "ArrowUp"@ {
                NavKey::ArrowUp
            } else if key@ == "Enter"@ {
                NavKey::Enter
            } else if key@ == "Escape"@ {
                NavKey::Escape
            } else {
                NavKey::Other
            }),
    {
        if str_eq(key, "ArrowDown") {
            NavKey::ArrowDown
        } else if str_eq(key, "ArrowUp") {
            NavKey::ArrowUp
        } else if str_eq(key, "Enter") {
            NavKey::Enter
        } else if str_eq(key, "Escape") {
            NavKey::Escape
        } else {
            NavKey::Other
        }
    }
}

/// A highlighted result: the group's index and the item's index in it.
pub type Position = (usize, usize);

/// The last item of the last group (its index saturates at 0 when that group is empty).
pub open spec fn last_position(sizes: Seq<usize>) -> Option<Position> {
    if sizes.len() == 0 {
        None
    } else {
        let last = sizes.last();
        Some(((sizes.len() - 1) as usize, if last > 0 { (last - 1) as usize } else { 0 }))
    }
}

/// Arrow down: the next item, the first item of the next group, or back to
/// the very first item after the last one (or from nowhere).
pub open spec fn down_spec(sizes: Seq<usize>, current: Option<Position>) -> Option<Position> {
    match current {
        None => Some((0, 0)),
        Some((g, i)) => if g < sizes.len() {
            if i + 1 < sizes[g as int] {
                Some((g, (i + 1) as usize))
            } else if g + 1 < sizes.len() {
                Some(((g + 1) as usize, 0))
            } else {
                Some((0, 0))
            }
        } else {
            Some((0, 0))
        },
    }
}

/// Arrow up: the previous item, the last item of the previous group, or
/// round to the very last item from the first one (or from nowhere).
pub open spec fn up_spec(sizes: Seq<usize>, current: Option<Position>) -> Option<Position> {
    match current {
        None => last_position(sizes),
        Some((g, i)) => if i > 0 {
            Some((g, (i - 1) as usize))
        } else if g > 0 {
            let prev = sizes[g - 1];
            Some(((g - 1) as usize, if prev > 0 { (prev - 1) as usize } else { 0 }))
        } else {
            last_position(sizes)
        },
    }
}

/// The highlight can move down without its index overflowing.
pub open spec fn can_move_down(sizes: Seq<usize>, current: Option<Position>) -> bool {
    match current {
        Some((g, i)) => g < sizes.len() ==> i < usize::MAX,
        None => true,
    }
}

/// The highlight can move up: a first item's previous group is among the results.
pub open spec fn can_move_up(sizes: Seq<usize>, current: Option<Position>) -> bool {
    match current {
        Some((g, i)) => i == 0 && g > 0 ==> g - 1 < sizes.len(),
        None => true,
    }
}

/// Moves the highlight down.
pub fn highlight_down(sizes: &Vec<usize>, current: Option<Position>) -> (r: Option<Position>)
    requires
        can_move_down(sizes@, current),
    ensures
        r == down_spec(sizes@, current),
{
    match current {
        None => Some((0, 0)),
        Some((g, i)) => {
            if g < sizes.len() {
                if i + 1 < sizes[g] {
                    Some((g, i + 1))
                } else if g + 1 < sizes.len() {
                    Some((g + 1, 0))
                } else {
                    Some((0, 0))
                }
            } else {
                Some((0, 0))
            }
        },
    }
}

fn last_of(sizes: &Vec<usize>) -> (r: Option<Position>)
    ensures
        r == last_position(sizes@),
{
    if sizes.len() == 0 {
        None
    } else {
        let last = sizes[sizes.len() - 1];
        Some((sizes.len() - 1, if last > 0 { last - 1 } else { 0 }))
    }
}

/// Moves the highlight up.
pub fn highlight_up(sizes: &Vec<usize>, current: Option<Position>) -> (r: Option<Position>)
    requires
        can_move_up(sizes@, current),
    ensures
        r == up_spec(sizes@, current),
{
    match current {
        None => last_of(sizes),
        Some((g, i)) => {
            if i > 0 {
                Some((g, i - 1))
            } else if g > 0 {
                let prev = sizes[g - 1];
                Some((g - 1, if prev > 0 { prev - 1 } else { 0 }))
            } else {
                last_of(sizes)
            }
        },
    }
}

/// What a key press does to the autocomplete.
#[derive(Clone, Copy, Debug, PartialEq, Eq)]
pub struct KeyOutcome {
    /// The browser's own handling of the key is suppressed.
    pub prevent_default: bool,
    /// The new highlight, or `None` to leave it.
    pub highlight: Option<Option<Position>>,
    /// The result to select, if any.
    pub select: Option<Position>,
    /// The result list closes.
    pub close: bool,
}

/// The highlighted position names an item among the results.
pub open spec fn names_item(sizes: Seq<usize>, p: Position) -> bool {
    p.0 < sizes.len() && p.1 < sizes[p.0 as int]
}

/// The effect of a key: the arrows move the highlight, Enter selects the
/// highlighted item if there is one, Escape closes the list and clears the
/// highlight; other keys do nothing.
pub open spec fn key_spec(key: NavKey, sizes: Seq<usize>, current: Option<Position>) -> KeyOutcome {
    match key {
        NavKey::ArrowDown => KeyOutcome {
            prevent_default: true,
            highlight: Some(down_spec(sizes, current)),
            select: None,
            close: false,
        },
        NavKey::ArrowUp => KeyOutcome {
            prevent_default: true,
            highlight: Some(up_spec(sizes, current)),
            select: None,
            close: false,
        },
        NavKey::Enter => KeyOutcome {
            prevent_default: true,
            highlight: None,
            select: match current {
                Some(p) => if names_item(sizes, p) {
                    Some(p)
                } else {
                    None
                },
                None => None,
            },
            close: false,
        },
        NavKey::Escape => KeyOutcome {
            prevent_default: true,
            highlight: Some(None),
            select: None,
            close: true,
        },
        NavKey::Other => KeyOutcome {
            prevent_default: false,
            highlight: None,
            select: None,
            close: false,
        },
    }
}

/// Handles a key press on the search field.
pub fn handle_key(key: NavKey, sizes: &Vec<usize>, current: Option<Position>) -> (r: KeyOutcome)
    requires
        key == NavKey::ArrowDown ==> can_move_down(sizes@, current),
        key == NavKey::ArrowUp ==> can_move_up(sizes@, current),
    ensures
        r == key_spec(key, sizes@, current),
{
    match key {
        NavKey::ArrowDown => KeyOutcome {
            prevent_default: true,
            highlight: Some(highlight_down(sizes, current)),
            select: None,
            close: false,
        },
        NavKey::ArrowUp => KeyOutcome {
            prevent_default: true,
            highlight: Some(highlight_up(sizes, current)),
            select: None,
            close: false,
        },
        NavKey::Enter => {
            let select = match current {
                Some((g, i)) => {
                    if g < sizes.len() && i < sizes[g] {
                        Some((g, i))
                    } else {
                        None
                    }
                },
                None => None,
            };
            KeyOutcome { prevent_default: true, highlight: None, select, close: false }
        },
        NavKey::Escape => KeyOutcome {
            prevent_default: true,
            highlight: Some(None),
            select: None,
            close: true,
        },
        NavKey::Other => KeyOutcome {
            prevent_default: false,
            highlight: None,
            select: None,
            close: false,
        },
    }
}

/// Moving down from an item and then up comes back to it.
pub proof fn lemma_down_then_up(sizes: Seq<usize>, p: Position)
    requires
        sizes.len() <= usize::MAX,
        names_item(sizes, p),
    ensures
        can_move_up(sizes, down_spec(sizes, Some(p))),
        up_spec(sizes, down_spec(sizes, Some(p))) == Some(p),
{
    let (g, i) = p;
    let n = sizes.len();
    if i + 1 < sizes[g as int] {
        assert(down_spec(sizes, Some(p)) == Some((g, (i + 1) as usize)));
    } else if g + 1 < n {
        assert(down_spec(sizes, Some(p)) == Some(((g + 1) as usize, 0usize)));
        assert(sizes[g as int] > 0);
    } else {
        assert(down_spec(sizes, Some(p)) == Some((0usize, 0usize)));
        assert(sizes.last() == sizes[g as int]);
    }
}

/// Moving up from a position in a group of the results and then down comes back to it
/// when that position is an item, or is the first place of an empty group.
pub proof fn lemma_up_then_down(sizes: Seq<usize>, p: Position)
    requires
        sizes.len() <= usize::MAX,
        p.0 < sizes.len(),
        p.1 < sizes[p.0 as int] || p.1 == 0,
    ensures
        can_move_down(sizes, up_spec(sizes, Some(p))),
        down_spec(sizes, up_spec(sizes, Some(p))) == Some(p),
{
    let (g, i) = p;
    let n = sizes.len();
    if i > 0 {
        assert(up_spec(sizes, Some(p)) == Some((g, (i - 1) as usize)));
    } else if g > 0 {
        let prev = sizes[g - 1];
        let q = ((g - 1) as usize, if prev > 0 { (prev - 1) as usize } else { 0usize });
        assert(up_spec(sizes, Some(p)) == Some(q));
        assert(down_spec(sizes, Some(q)) == Some(p));
    } else {
        let last = sizes.last();
        let q = ((n - 1) as usize, if last > 0 { (last - 1) as usize } else { 0usize });
        assert(up_spec(sizes, Some(p)) == Some(q));
        assert(sizes[q.0 as int] == last);
        assert(down_spec(sizes, Some(q)) == Some(p));
    }
}


/// What each key does, stated key by key: a key other than the arrows,
/// Enter and Escape leaves everything as it is and lets the browser handle
/// it; only Escape closes the list (and clears the highlight); only the
/// arrows move the highlight; only Enter selects, and it selects the
/// highlighted position exactly when that names an item.
pub proof fn lemma_key_effects(sizes: Seq<usize>, current: Option<Position>)
    ensures
        key_spec(NavKey::Other, sizes, current) == (KeyOutcome {
            prevent_default: false,
            highlight: None,
            select: None,
            close: false,
        }),
        forall|key: NavKey| #[trigger] key_spec(key, sizes, current).close <==> key == NavKey::Escape,
        forall|key: NavKey| #[trigger] key_spec(key, sizes, current).prevent_default <==> key != NavKey::Other,
        forall|key: NavKey|
            (#[trigger] key_spec(key, sizes, current).highlight is Some) <==> (key == NavKey::ArrowDown
                || key == NavKey::ArrowUp || key == NavKey::Escape),
        key_spec(NavKey::Escape, sizes, current).highlight == Some(None::<Position>),
        key_spec(NavKey::ArrowDown, sizes, current).highlight == Some(down_spec(sizes, current)),
        key_spec(NavKey::ArrowUp, sizes, current).highlight == Some(up_spec(sizes, current)),
        forall|key: NavKey| key != NavKey::Enter ==> (#[trigger] key_spec(key, sizes, current).select is None),
        forall|p: Position|
            key_spec(NavKey::Enter, sizes, current).select == Some(p) <==> (current == Some(p) && p.0
                < sizes.len() && p.1 < sizes[p.0 as int]),
{
}

/// `x` is an item of `items` whose search text matches the query.
pub open spec fn matching_item<T>(
    items: Seq<T>,
    texts: Seq<Seq<char>>,
    query: Seq<char>,
    case_sensitive: bool,
    x: T,
) -> bool {
    exists|k: int|
        0 <= k < items.len() && text_matches(texts[k], query, case_sensitive) && #[trigger] items[k]
            == x
}

/// Every item a non-empty query finds is an item whose search text matches
/// the query, and every item whose text matches it is found.
pub proof fn lemma_found_items_match<T>(
    items: Seq<T>,
    texts: Seq<Seq<char>>,
    query: Seq<char>,
    case_sensitive: bool,
)
    requires
        query.len() > 0,
        texts.len() == items.len(),
    ensures
        forall|i: int|
            0 <= i < found_items(items, texts, query, case_sensitive).len() ==> matching_item(
                items,
                texts,
                query,
                case_sensitive,
                #[trigger] found_items(items, texts, query, case_sensitive)[i],
            ),
        forall|k: int|
            0 <= k < items.len() && text_matches(texts[k], query, case_sensitive) ==> found_items(
                items,
                texts,
                query,
                case_sensitive,
            ).contains(#[trigger] items[k]),
    decreases items.len(),
{
    if items.len() > 0 {
        let f = found_items(items, texts, query, case_sensitive);
        let ip = items.drop_last();
        let tp = texts.drop_last();
        let rest = found_items(ip, tp, query, case_sensitive);
        lemma_found_items_match(ip, tp, query, case_sensitive);
        assert forall|i: int| 0 <= i < f.len() implies matching_item(
            items,
            texts,
            query,
            case_sensitive,
            #[trigger] f[i],
        ) by {
            if i < rest.len() {
                assert(f[i] == rest[i]);
                assert(matching_item(ip, tp, query, case_sensitive, rest[i]));
                let k = choose|k: int|
                    0 <= k < ip.len() && text_matches(tp[k], query, case_sensitive) && #[trigger] ip[k]
                        == rest[i];
                assert(items[k] == ip[k] && texts[k] == tp[k]);
            } else {
                let k = items.len() - 1;
                assert(f != rest);
                assert(items[k] == f[i]);
            }
        }
        assert forall|k: int|
            0 <= k < items.len() && text_matches(texts[k], query, case_sensitive) implies f.contains(
            #[trigger] items[k],
        ) by {
            if k < items.len() - 1 {
                assert(ip[k] == items[k] && tp[k] == texts[k]);
                assert(rest.contains(ip[k]));
                let j = choose|j: int| 0 <= j < rest.len() && rest[j] == ip[k];
                assert(f[j] == rest[j]);
            } else {
                assert(f[f.len() - 1] == items[k]);
            }
        }
    }
}

/// An empty query finds every group with all its items, whatever the search texts.
pub proof fn lemma_empty_query_finds_all<T>(
    groups: Seq<AutocompleteGroup<T>>,
    texts: Seq<Seq<Seq<char>>>,
    case_sensitive: bool,
)
    ensures
        found_groups(groups, texts, Seq::empty(), case_sensitive).len() == groups.len(),
        forall|i: int|
            0 <= i < groups.len() ==> #[trigger] found_groups(groups, texts, Seq::empty(), case_sensitive)[i]
                == (groups[i].id@, groups[i].name@, groups[i].items@),
    decreases groups.len(),
{
    if groups.len() > 0 {
        lemma_empty_query_finds_all(groups.drop_last(), texts.drop_last(), case_sensitive);
        assert forall|i: int| 0 <= i < groups.len() implies #[trigger] found_groups(
            groups,
            texts,
            Seq::empty(),
            case_sensitive,
        )[i] == (groups[i].id@, groups[i].name@, groups[i].items@) by {
            if i < groups.len() - 1 {
                assert(groups.drop_last()[i] == groups[i]);
            }
        }
    }
}

/// With a maximum set, no group keeps more items than the maximum, and a
/// group keeps all its items when it had no more than that.
pub proof fn lemma_limit_bounds<T>(
    groups: Seq<AutocompleteGroup<T>>,
    max: usize,
    result: Seq<AutocompleteGroup<T>>,
)
    requires
        limited(groups, Some(max), result),
    ensures
        forall|i: int| 0 <= i < result.len() ==> (#[trigger] result[i]).items@.len() <= max,
        forall|i: int|
            0 <= i < result.len() && groups[i].items@.len() <= max ==> (#[trigger] result[i]).items@
                == groups[i].items@,
{
    assert forall|i: int| 0 <= i < result.len() implies (#[trigger] result[i]).items@.len() <= max by {
        assert(groups[i].id == result[i].id);
    }
}

/// `idx` places the items of `a` in `b`, in order: `a[k]` is `b[idx[k]]`
/// and the places increase.
pub open spec fn embeds<A>(a: Seq<A>, b: Seq<A>, idx: Seq<int>) -> bool {
    &&& idx.len() == a.len()
    &&& forall|k: int| 0 <= k < a.len() ==> 0 <= #[trigger] idx[k] < b.len() && a[k] == b[idx[k]]
    &&& forall|j: int, k: int| 0 <= j < k < a.len() ==> idx[j] < idx[k]
}

/// `a` is a subsequence of `b`: `b` with some items left out.
pub open spec fn subsequence_of<A>(a: Seq<A>, b: Seq<A>) -> bool {
    exists|idx: Seq<int>| embeds(a, b, idx)
}

/// A text that contains a longer query contains the query's beginning.
proof fn lemma_contains_prefix(t: Seq<char>, q1: Seq<char>, s: Seq<char>)
    requires
        contains_spec(t, q1 + s),
    ensures
        contains_spec(t, q1),
{
    let i = choose|i: int| occurs_at(t, q1 + s, i);
    assert(t.subrange(i, i + q1.len()) =~= (q1 + s).subrange(0, q1.len() as int));
    assert((q1 + s).subrange(0, q1.len() as int) =~= q1);
    assert(occurs_at(t, q1, i));
}

/// When every text that matches `q2` matches `q1`, the items found for `q2`
/// are a subsequence of those found for `q1`.
proof fn lemma_narrower_items<T>(
    items: Seq<T>,
    texts: Seq<Seq<char>>,
    q1: Seq<char>,
    q2: Seq<char>,
    case_sensitive: bool,
)
    requires
        q1.len() > 0,
        q2.len() > 0,
        texts.len() == items.len(),
        forall|i: int|
            0 <= i < texts.len() && #[trigger] text_matches(texts[i], q2, case_sensitive) ==> text_matches(
                texts[i],
                q1,
                case_sensitive,
            ),
    ensures
        subsequence_of(
            found_items(items, texts, q2, case_sensitive),
            found_items(items, texts, q1, case_sensitive),
        ),
    decreases items.len(),
{
    let f1 = found_items(items, texts, q1, case_sensitive);
    let f2 = found_items(items, texts, q2, case_sensitive);
    if items.len() == 0 {
        assert(embeds(f2, f1, Seq::<int>::empty()));
    } else {
        let ip = items.drop_last();
        let tp = texts.drop_last();
        assert forall|i: int|
            0 <= i < tp.len() && #[trigger] text_matches(tp[i], q2, case_sensitive) implies text_matches(
            tp[i],
            q1,
            case_sensitive,
        ) by {
            assert(tp[i] == texts[i]);
        }
        lemma_narrower_items(ip, tp, q1, q2, case_sensitive);
        let r1 = found_items(ip, tp, q1, case_sensitive);
        let r2 = found_items(ip, tp, q2, case_sensitive);
        let idx = choose|idx: Seq<int>| embeds(r2, r1, idx);
        let last = texts.len() - 1;
        assert(texts.last() == texts[last]);
        if text_matches(texts.last(), q2, case_sensitive) {
            assert(text_matches(texts.last(), q1, case_sensitive));
            let idx2 = idx.push(r1.len() as int);
            assert(f2 == r2.push(items.last()));
            assert(f1 == r1.push(items.last()));
            assert forall|k: int| 0 <= k < f2.len() implies 0 <= #[trigger] idx2[k] < f1.len() && f2[k]
                == f1[idx2[k]] by {
                if k < r2.len() {
                    assert(idx2[k] == idx[k]);
                    assert(f2[k] == r2[k]);
                    assert(f1[idx[k]] == r1[idx[k]]);
                }
            }
            assert forall|j: int, k: int| 0 <= j < k < f2.len() implies idx2[j] < idx2[k] by {
                if k < r2.len() {
                    assert(idx2[j] == idx[j] && idx2[k] == idx[k]);
                } else {
                    assert(idx2[j] == idx[j]);
                }
            }
            assert(embeds(f2, f1, idx2));
        } else {
            assert(f2 == r2);
            if text_matches(texts.last(), q1, case_sensitive) {
                assert(f1 == r1.push(items.last()));
                assert forall|k: int| 0 <= k < f2.len() implies 0 <= #[trigger] idx[k] < f1.len() && f2[k]
                    == f1[idx[k]] by {
                    assert(f1[idx[k]] == r1[idx[k]]);
                }
                assert(embeds(f2, f1, idx));
            } else {
                assert(f1 == r1);
                assert(embeds(f2, f1, idx));
            }
        }
    }
}

/// Some group of `wider` has the identifier and name of `group` and holds
/// its items, in order, possibly among others.
pub open spec fn covered_by<T>(
    wider: Seq<(Seq<char>, Seq<char>, Seq<T>)>,
    group: (Seq<char>, Seq<char>, Seq<T>),
) -> bool {
    exists|j: int|
        0 <= j < wider.len() && (#[trigger] wider[j]).0 == group.0 && wider[j].1 == group.1
            && subsequence_of(group.2, wider[j].2)
}

/// Typing more of a query never adds results to a case-sensitive search:
/// every group found for the longer query is found for the shorter one, with
/// the same identifier, name and a subsequence of its items.
pub proof fn lemma_refined_query_narrows<T>(
    groups: Seq<AutocompleteGroup<T>>,
    texts: Seq<Seq<Seq<char>>>,
    q1: Seq<char>,
    s: Seq<char>,
)
    requires
        q1.len() > 0,
        texts.len() == groups.len(),
        forall|g: int| 0 <= g < groups.len() ==> (#[trigger] texts[g]).len() == groups[g].items@.len(),
    ensures
        forall|i: int|
            0 <= i < found_groups(groups, texts, q1 + s, true).len() ==> covered_by(
                found_groups(groups, texts, q1, true),
                #[trigger] found_groups(groups, texts, q1 + s, true)[i],
            ),
    decreases groups.len(),
{
    let q2 = q1 + s;
    let g1 = found_groups(groups, texts, q1, true);
    let g2 = found_groups(groups, texts, q2, true);
    if groups.len() > 0 {
        let gp = groups.drop_last();
        let tp = texts.drop_last();
        assert forall|g: int| 0 <= g < gp.len() implies (#[trigger] tp[g]).len() == gp[g].items@.len() by {
            assert(tp[g] == texts[g] && gp[g] == groups[g]);
        }
        lemma_refined_query_narrows(gp, tp, q1, s);
        let r1 = found_groups(gp, tp, q1, true);
        let r2 = found_groups(gp, tp, q2, true);
        let last = groups.last();
        let lt = texts.last();
        assert(lt == texts[groups.len() - 1]);
        assert forall|i: int| 0 <= i < lt.len() && #[trigger] text_matches(lt[i], q2, true) implies text_matches(
            lt[i],
            q1,
            true,
        ) by {
            lemma_contains_prefix(lt[i], q1, s);
        }
        lemma_narrower_items(last.items@, lt, q1, q2, true);
        let i1 = found_items(last.items@, lt, q1, true);
        let i2 = found_items(last.items@, lt, q2, true);
        if i2.len() != 0 {
            let idx = choose|idx: Seq<int>| embeds(i2, i1, idx);
            assert(0 <= idx[0] < i1.len());
            assert(g2 == r2.push((last.id@, last.name@, i2)));
            assert(g1 == r1.push((last.id@, last.name@, i1)));
        } else {
            assert(g2 == r2);
        }
        assert forall|i: int| 0 <= i < g2.len() implies covered_by(g1, #[trigger] g2[i]) by {
            if i < r2.len() {
                assert(g2[i] == r2[i]);
                assert(covered_by(r1, r2[i]));
                let j = choose|j: int|
                    0 <= j < r1.len() && (#[trigger] r1[j]).0 == r2[i].0 && r1[j].1 == r2[i].1
                        && subsequence_of(r2[i].2, r1[j].2);
                assert(g1[j] == r1[j]);
            } else {
                assert(g1[g1.len() - 1] == (last.id@, last.name@, i1));
            }
        }
    }
}

/// Every item of the type reports one search text: two calls of
/// `search_text` on the same item give the same text.
pub open spec fn one_text_per_item<T: AutocompleteItem>() -> bool {
    forall|item: T, a: String, b: String|
        call_ensures(T::search_text, (&item,), a) && call_ensures(T::search_text, (&item,), b) ==> a@
            == b@
}

/// Two searches of the same groups, case-sensitive, whose items each report
/// one search text: the search for a longer query finds no group that the
/// search for its beginning did not find, and no item that it did not find,
/// in the same order. `texts1` and `texts2` are the texts the two searches
/// read (see `search`).
pub proof fn lemma_refined_search_narrows<T: AutocompleteItem>(
    groups: Seq<AutocompleteGroup<T>>,
    texts1: Seq<Seq<Seq<char>>>,
    texts2: Seq<Seq<Seq<char>>>,
    q1: Seq<char>,
    s: Seq<char>,
)
    requires
        q1.len() > 0,
        one_text_per_item::<T>(),
        texts_fit(groups, texts1),
        texts_fit(groups, texts2),
    ensures
        forall|i: int|
            0 <= i < found_groups(groups, texts2, q1 + s, true).len() ==> covered_by(
                found_groups(groups, texts1, q1, true),
                #[trigger] found_groups(groups, texts2, q1 + s, true)[i],
            ),
{
    assert forall|g: int| 0 <= g < groups.len() implies #[trigger] texts1[g] == texts2[g] by {
        assert forall|j: int| 0 <= j < texts1[g].len() implies texts1[g][j] == texts2[g][j] by {
            assert(reports_text(groups[g].items@[j], texts1[g][j]));
            assert(reports_text(groups[g].items@[j], texts2[g][j]));
            let a = choose|a: String|
                call_ensures(T::search_text, (&groups[g].items@[j],), a) && a@ == texts1[g][j];
            let b = choose|b: String|
                call_ensures(T::search_text, (&groups[g].items@[j],), b) && b@ == texts2[g][j];
        }
        assert(texts1[g] =~= texts2[g]);
    }
    assert(texts1 =~= texts2);
    lemma_refined_query_narrows(groups, texts1, q1, s);
}

} // verus!
