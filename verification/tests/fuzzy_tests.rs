use mac_keyboard_mcp::keycode::KeyDatabase;
use mac_keyboard_mcp::search::FuzzySearcher;

#[test]
fn fuzzy_test_fuzzy_search() {
    let db = KeyDatabase::load().unwrap();
    let searcher = FuzzySearcher::new();

    // Should find "Command" when searching for "cmd"
    let results = searcher.search_keys(&db, "cmd", 5);
    assert!(!results.is_empty());
    assert_eq!(results[0].0.name, "Command");

    // Should find "Space" when searching for "spce"
    let results = searcher.search_keys(&db, "spce", 5);
    assert!(!results.is_empty());
    assert_eq!(results[0].0.name, "Space");
}

#[test]
fn test_alias_search() {
    let db = KeyDatabase::load().unwrap();
    let searcher = FuzzySearcher::new();

    // Should find "Command" when searching for "⌘"
    let results = searcher.search_keys(&db, "⌘", 5);
    assert!(!results.is_empty());
    assert_eq!(results[0].0.name, "Command");
}

use mac_keyboard_mcp::keycode::{KeyCategory, KeyCode};
use mac_keyboard_mcp::search::fuzzy::{best_hits, first_score};

#[test]
fn typos_find_the_key() {
    let db = KeyDatabase::load().unwrap();
    let searcher = FuzzySearcher::new();
    assert_eq!(searcher.search_keys(&db, "comand", 5)[0].0.name, "Command");
    assert_eq!(searcher.search_keys(&db, "spce", 5)[0].0.name, "Space");
    assert_eq!(searcher.search_keys(&db, "escp", 5)[0].0.name, "Escape");
}

#[test]
fn hits_are_ranked_and_cut_to_the_limit() {
    let db = KeyDatabase::load().unwrap();
    let searcher = FuzzySearcher::default();
    let all = searcher.search_keys(&db, "e", 1000);
    assert!(all.len() > 10);
    for pair in all.windows(2) {
        assert!(pair[0].1 >= pair[1].1);
    }
    for (i, (key, score)) in all.iter().enumerate() {
        assert!(*score > 0);
        for (other, _) in &all[i + 1..] {
            assert!(other.name != key.name);
        }
    }
    for limit in [0, 1, 3, 10] {
        assert_eq!(searcher.search_keys(&db, "e", limit), all[..limit].to_vec());
    }
    assert_eq!(searcher.search_keys(&db, "e", all.len() + 7), all);
}

#[test]
fn equal_scores_stand_in_catalog_order() {
    let db = KeyDatabase::load().unwrap();
    let searcher = FuzzySearcher::new();
    let hits = searcher.search_keys(&db, "numpad", 100);
    let all = db.all_keys();
    let place = |key: &KeyCode| all.iter().position(|k| k.name == key.name).unwrap();
    assert_eq!(hits.len(), 18);
    for pair in hits.windows(2) {
        assert!(pair[0].1 > pair[1].1 || place(pair[0].0) < place(pair[1].0));
    }
}

#[test]
fn queries_that_fit_nothing_find_nothing() {
    let db = KeyDatabase::load().unwrap();
    let searcher = FuzzySearcher::new();
    assert!(searcher.search_keys(&db, "qqqq", 5).is_empty());
    assert!(searcher.search_keys(&db, "中", 5).is_empty());
    // the empty query fits every name with the score 0, which does not count
    assert!(searcher.search_keys(&db, "", 5).is_empty());
}

#[test]
fn searches_repeat() {
    let db = KeyDatabase::load().unwrap();
    let searcher = FuzzySearcher::new();
    for query in ["comand", "aab", "mm", "e", "shift", "⌘"] {
        let first = searcher.search_keys(&db, query, 20);
        let _ = searcher.search_keys(&db, "some other query", 20);
        assert_eq!(searcher.search_keys(&db, query, 20), first);
        assert_eq!(FuzzySearcher::new().search_keys(&db, query, 20), first);
    }
}

#[test]
fn best_hits_keeps_positive_scores_in_stable_order() {
    let a = KeyCode::new("A", 0, KeyCategory::Letters);
    let b = KeyCode::new("B", 11, KeyCategory::Letters);
    let c = KeyCode::new("C", 8, KeyCategory::Letters);
    let d = KeyCode::new("D", 2, KeyCategory::Letters);
    let hits = vec![(&a, 10), (&b, 0), (&c, 30), (&d, 10), (&b, -5), (&a, 30), (&c, 1)];
    assert_eq!(
        best_hits(hits.clone(), 10),
        vec![(&c, 30), (&a, 30), (&a, 10), (&d, 10), (&c, 1)]
    );
    assert_eq!(best_hits(hits.clone(), 5), best_hits(hits.clone(), 10));
    assert_eq!(best_hits(hits.clone(), 3), vec![(&c, 30), (&a, 30), (&a, 10)]);
    assert_eq!(best_hits(hits.clone(), 1), vec![(&c, 30)]);
    assert!(best_hits(hits, 0).is_empty());
    assert!(best_hits(Vec::new(), 4).is_empty());
    assert!(best_hits(vec![(&a, 0), (&b, i64::MIN)], 4).is_empty());
    assert_eq!(best_hits(vec![(&a, i64::MAX), (&b, 1)], usize::MAX), vec![(&a, i64::MAX), (&b, 1)]);
}

fn similarity(searcher: &FuzzySearcher, a: &str, b: &str) -> f64 {
    let (best, longer) = searcher.similarity_terms(a, b);
    if best > 0 {
        (best as f64 / (longer as f64 * 100.0)).min(1.0).max(0.0)
    } else {
        0.0
    }
}

#[test]
fn test_similarity_calculation() {
    let searcher = FuzzySearcher::new();

    let sim1 = similarity(&searcher, "Command", "Command");
    println!("Exact match similarity: {}", sim1);
    assert!(sim1 > 0.0);

    let sim2 = similarity(&searcher, "Command", "Cmd");
    println!("Partial match similarity: {}", sim2);
    assert!(sim2 > 0.0);

    let sim3 = similarity(&searcher, "Command", "XYZ");
    println!("No match similarity: {}", sim3);
    assert_eq!(sim3, 0.0);
}

#[test]
fn similarity_terms_take_the_better_direction() {
    let searcher = FuzzySearcher::new();
    let (forth, longer) = searcher.similarity_terms("Command", "Cmd");
    let (back, _) = searcher.similarity_terms("Cmd", "Command");
    assert_eq!(forth, back);
    assert!(forth > 0);
    assert_eq!(longer, 7);
    assert_eq!(searcher.similarity_terms("Command", "XYZ"), (0, 7));
    assert_eq!(searcher.similarity_terms("", ""), (0, 0));
    assert_eq!(searcher.similarity_terms("⌘", "ab"), (0, 3));
    let same = searcher.similarity_terms("Command", "Command");
    let one =
        KeyDatabase::from_keys(vec![KeyCode::new("Command", 55, KeyCategory::ModifierKeys)])
            .unwrap();
    let hits = searcher.search_keys(&one, "Command", 1);
    assert_eq!(hits[0].1, same.0);
}

#[test]
fn the_first_score_of_a_key_counts() {
    assert_eq!(first_score(&vec![None, Some(5), Some(9)]), Some(5));
    assert_eq!(first_score(&vec![Some(7), None, Some(90)]), Some(7));
    assert_eq!(first_score(&vec![Some(0), Some(3)]), Some(0));
    assert_eq!(first_score(&vec![Some(-4), Some(3)]), Some(-4));
    assert_eq!(first_score(&vec![None, None]), None);
    assert_eq!(first_score(&Vec::new()), None);
}

#[test]
fn a_key_is_found_by_an_alias_where_its_name_does_not_fit() {
    let db = KeyDatabase::from_keys(vec![
        KeyCode::new("Return", 36, KeyCategory::SpecialKeys).with_alias("Enter").with_alias("↵"),
        KeyCode::new("Escape", 53, KeyCategory::SpecialKeys).with_alias("Esc"),
    ])
    .unwrap();
    let searcher = FuzzySearcher::new();
    let by_alias = searcher.search_keys(&db, "ent", 5);
    assert_eq!(by_alias.len(), 1);
    assert_eq!(by_alias[0].0.name, "Return");
    assert_eq!(by_alias[0].1, searcher.similarity_terms("Enter", "ent").0);
    // where the name fits, its score counts, though an alias would score higher
    let by_name = searcher.search_keys(&db, "e", 5);
    assert_eq!(by_name.len(), 2);
    let of_return = by_name.iter().find(|(key, _)| key.name == "Return").unwrap().1;
    assert_eq!(of_return, searcher.similarity_terms("Return", "e").0);
    assert!(of_return < searcher.similarity_terms("Enter", "e").0);
}

#[test]
fn scores_do_not_depend_on_earlier_searches() {
    let searcher = FuzzySearcher::new();
    assert_eq!(searcher.similarity_terms("aab", "aab"), (71, 3));
    assert_eq!(searcher.similarity_terms("a b a b", "ab").1, 7);
    assert_eq!(searcher.similarity_terms("aab", "aab"), (71, 3));
    let db = KeyDatabase::from_keys(vec![
        KeyCode::new("a b a b", 1, KeyCategory::SpecialKeys),
        KeyCode::new("aab", 2, KeyCategory::SpecialKeys),
    ])
    .unwrap();
    let hits = searcher.search_keys(&db, "aab", 5);
    assert_eq!(hits.len(), 2);
    assert_eq!(hits[0].0.name, "aab");
    assert_eq!(hits[0].1, 71);
    assert_eq!(hits[1].0.name, "a b a b");
    assert_eq!(searcher.search_keys(&db, "ab", 5).len(), 2);
    assert_eq!(searcher.search_keys(&db, "aab", 5), hits);
}
