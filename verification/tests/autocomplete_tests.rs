use invomodo::autocomplete::{
    below_min_query, group_sizes, handle_key, search_text_matches, select_matches, highlight_down, highlight_up, limit_results,
    AutocompleteConfig, AutocompleteGroup, AutocompleteItem, KeyOutcome, NavKey, StaticDataSource,
};

#[derive(Clone, Debug, PartialEq)]
struct Product {
    id: u32,
    name: String,
}

impl AutocompleteItem for Product {
    type Id = u32;

    fn id(&self) -> u32 {
        self.id
    }

    fn search_text(&self) -> String {
        self.name.clone()
    }

    fn display_text(&self) -> String {
        self.name.clone()
    }
}

fn product(id: u32, name: &str) -> Product {
    Product { id, name: name.to_string() }
}

fn groups() -> Vec<AutocompleteGroup<Product>> {
    vec![
        AutocompleteGroup {
            id: "fruit".to_string(),
            name: "Fruit".to_string(),
            items: vec![product(1, "Apple"), product(2, "Banana"), product(3, "Pineapple")],
        },
        AutocompleteGroup {
            id: "tools".to_string(),
            name: "Tools".to_string(),
            items: vec![product(4, "Hammer"), product(5, "APPLE peeler")],
        },
        AutocompleteGroup {
            id: "empty".to_string(),
            name: "Empty".to_string(),
            items: vec![],
        },
    ]
}

#[test]
fn config_defaults() {
    let c = AutocompleteConfig::default();
    assert_eq!(c.min_query_length, 1);
    assert_eq!(c.max_results_per_group, None);
    assert_eq!(c.debounce_ms, 300);
    assert!(!c.case_sensitive);
}

#[test]
fn search_ignores_case() {
    let source = StaticDataSource::new(groups(), false);
    let found = source.search("apple");
    assert_eq!(found.len(), 2);
    assert_eq!(found[0].id, "fruit");
    assert_eq!(found[0].items.iter().map(|p| p.id()).collect::<Vec<_>>(), vec![1, 3]);
    assert_eq!(found[1].name, "Tools");
    assert_eq!(found[1].items.iter().map(|p| p.id()).collect::<Vec<_>>(), vec![5]);
}

#[test]
fn search_case_sensitive() {
    let source = StaticDataSource::new(groups(), true);
    let found = source.search("apple");
    assert_eq!(found.len(), 1);
    assert_eq!(found[0].items.iter().map(|p| p.id()).collect::<Vec<_>>(), vec![3]);
    assert!(source.search("zebra").is_empty());
}

#[test]
fn empty_query_finds_everything() {
    let source = StaticDataSource::new(groups(), false);
    let found = source.search("");
    assert_eq!(found.len(), 3);
    assert_eq!(found[0].items.len(), 3);
    assert_eq!(found[1].items.len(), 2);
    assert!(found[2].items.is_empty());
    assert_eq!(found[0].items[1].display_text(), "Banana");
}

#[test]
fn limits_and_sizes() {
    let limited = limit_results(groups(), Some(1));
    assert_eq!(group_sizes(&limited), vec![1, 1, 0]);
    assert_eq!(limited[1].items[0].id, 4);
    let all = limit_results(groups(), None);
    assert_eq!(group_sizes(&all), vec![3, 2, 0]);
    assert!(below_min_query("ab", 3));
    assert!(!below_min_query("abc", 3));
}

#[test]
fn keys_by_name() {
    assert_eq!(NavKey::from_key("ArrowDown"), NavKey::ArrowDown);
    assert_eq!(NavKey::from_key("ArrowUp"), NavKey::ArrowUp);
    assert_eq!(NavKey::from_key("Enter"), NavKey::Enter);
    assert_eq!(NavKey::from_key("Escape"), NavKey::Escape);
    assert_eq!(NavKey::from_key("a"), NavKey::Other);
}

#[test]
fn highlight_moves_round() {
    let sizes = vec![2, 1];
    assert_eq!(highlight_down(&sizes, None), Some((0, 0)));
    assert_eq!(highlight_down(&sizes, Some((0, 0))), Some((0, 1)));
    assert_eq!(highlight_down(&sizes, Some((0, 1))), Some((1, 0)));
    assert_eq!(highlight_down(&sizes, Some((1, 0))), Some((0, 0)));
    assert_eq!(highlight_up(&sizes, None), Some((1, 0)));
    assert_eq!(highlight_up(&sizes, Some((1, 0))), Some((0, 1)));
    assert_eq!(highlight_up(&sizes, Some((0, 1))), Some((0, 0)));
    assert_eq!(highlight_up(&sizes, Some((0, 0))), Some((1, 0)));
    assert_eq!(highlight_up(&Vec::new(), None), None);
}

#[test]
fn down_then_up_returns() {
    let sizes = vec![3, 2, 4];
    for g in 0..sizes.len() {
        for i in 0..sizes[g] {
            let down = highlight_down(&sizes, Some((g, i)));
            assert_eq!(highlight_up(&sizes, down), Some((g, i)));
        }
    }
}

#[test]
fn key_outcomes() {
    let sizes = vec![2];
    assert_eq!(
        handle_key(NavKey::ArrowDown, &sizes, None),
        KeyOutcome { prevent_default: true, highlight: Some(Some((0, 0))), select: None, close: false }
    );
    assert_eq!(handle_key(NavKey::Enter, &sizes, Some((0, 1))).select, Some((0, 1)));
    assert_eq!(handle_key(NavKey::Enter, &sizes, Some((0, 2))).select, None);
    assert_eq!(handle_key(NavKey::Enter, &sizes, None).select, None);
    let esc = handle_key(NavKey::Escape, &sizes, Some((0, 0)));
    assert!(esc.close);
    assert_eq!(esc.highlight, Some(None));
    let other = handle_key(NavKey::Other, &sizes, Some((0, 0)));
    assert!(!other.prevent_default);
    assert_eq!(other.highlight, None);
}

#[test]
fn select_by_given_texts() {
    let items = vec![10, 20, 30];
    let texts = vec!["Red Apple".to_string(), "pear".to_string(), "apple pie".to_string()];
    assert_eq!(select_matches(&items, &texts, "APPLE", false), vec![10, 30]);
    assert_eq!(select_matches(&items, &texts, "apple", true), vec![30]);
    assert_eq!(select_matches(&items, &texts, "", true), vec![10, 20, 30]);
    assert!(select_matches(&items, &texts, "plum", false).is_empty());
    assert!(search_text_matches("Invoice Total", "TOTAL", false));
    assert!(!search_text_matches("Invoice Total", "TOTAL", true));
}

#[test]
fn refining_a_query_narrows_results() {
    let source = StaticDataSource::new(groups(), true);
    let wide = source.search("a");
    let narrow = source.search("ap");
    for g in &narrow {
        let w = wide.iter().find(|x| x.id == g.id).expect("group also found for the shorter query");
        let ids: Vec<u32> = w.items.iter().map(|p| p.id()).collect();
        let mut pos = 0;
        for p in &g.items {
            let at = ids[pos..].iter().position(|i| *i == p.id()).expect("item kept in order");
            pos += at + 1;
        }
    }
    assert_eq!(narrow.len(), 1);
    assert_eq!(narrow[0].items.iter().map(|p| p.id()).collect::<Vec<_>>(), vec![3]);
}
