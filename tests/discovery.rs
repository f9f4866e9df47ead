use bayesian_ssh::stats::tag_counts;
use bayesian_ssh::discovery::{deduplicate_and_rank, merge_lookups, ConnectionStore, DiscoveryError, SearchField};
use bayesian_ssh::matcher::{matches_enhanced_patterns, matches_lowered};
use bayesian_ssh::models::Connection;
use bayesian_ssh::scorer::{calculate_relevance_score, recency_score, text_bonus_lowered};

const NOW: i64 = 1_700_000_000;
const HOUR: i64 = 3600;

fn record(id: u128, name: &str, host: &str, tags: &[&str], last_used: Option<i64>) -> Connection {
    Connection {
        id,
        name: name.to_string(),
        host: host.to_string(),
        user: "admin".to_string(),
        port: 22,
        bastion: None,
        bastion_user: None,
        use_kerberos: false,
        key_path: None,
        created_at: NOW - 1000 * HOUR,
        last_used,
        tags: tags.iter().map(|t| t.to_string()).collect(),
    }
}

fn names(v: &[Connection]) -> Vec<String> {
    v.iter().map(|c| c.name.clone()).collect()
}

fn sample_store() -> ConnectionStore {
    ConnectionStore::new(vec![
        record(1, "web-01", "10.0.0.1", &["web", "prod"], Some(NOW - HOUR)),
        record(2, "prod-db-east", "db1.example.com", &["db"], Some(NOW - 30 * HOUR)),
        record(3, "web", "web.example.com", &[], Some(NOW - 900 * HOUR)),
        record(4, "staging-box", "10.0.0.9", &["staging"], None),
    ])
    .expect("store is ordered by recency")
}

#[test]
fn discover_returns_at_most_limit_unique_records() {
    let store = sample_store();
    let r = store.fuzzy_search_connections("web", 2, NOW);
    assert!(r.len() <= 2);
    let mut ids: Vec<u128> = r.iter().map(|c| c.id).collect();
    ids.sort();
    ids.dedup();
    assert_eq!(ids.len(), r.len());
    let all = store.fuzzy_search_connections("e", 10, NOW);
    let mut ids: Vec<u128> = all.iter().map(|c| c.id).collect();
    let n = ids.len();
    ids.sort();
    ids.dedup();
    assert_eq!(ids.len(), n);
}

#[test]
fn exact_name_ranks_first() {
    let store = sample_store();
    let r = store.fuzzy_search_connections("WEB", 10, NOW);
    assert_eq!(names(&r)[0], "web");
    assert!(names(&r).contains(&"web-01".to_string()));
    let exact = calculate_relevance_score(&r[0], "web", NOW);
    for other in &r[1..] {
        assert!(exact > calculate_relevance_score(other, "web", NOW));
    }
}

#[test]
fn empty_query_orders_by_recency() {
    let store = ConnectionStore::new(vec![
        record(1, "alpha", "a.example.com", &["x"], Some(NOW - HOUR)),
        record(2, "bravo", "b.example.com", &["y"], Some(NOW - 100 * HOUR)),
        record(3, "charlie", "c.example.com", &["z"], Some(NOW - 1000 * HOUR)),
        record(4, "delta", "d.example.com", &["w"], None),
    ])
    .unwrap();
    let r = store.fuzzy_search_connections("", 3, NOW);
    assert_eq!(names(&r), vec!["alpha", "bravo", "charlie"]);
    let r = store.fuzzy_search_connections("", 10, NOW);
    assert_eq!(names(&r), vec!["alpha", "bravo", "charlie", "delta"]);
}

#[test]
fn discover_twice_gives_same_order() {
    let store = sample_store();
    let a = store.fuzzy_search_connections("db", 10, NOW);
    let b = store.fuzzy_search_connections("db", 10, NOW);
    assert_eq!(names(&a), names(&b));
    let a = store.fuzzy_search_connections("", 10, NOW);
    let b = store.fuzzy_search_connections("", 10, NOW);
    assert_eq!(names(&a), names(&b));
}

#[test]
fn separators_are_ignored() {
    let store = sample_store();
    assert!(names(&store.fuzzy_search_connections("web01", 10, NOW)).contains(&"web-01".to_string()));
    assert!(names(&store.fuzzy_search_connections("web_01", 10, NOW)).contains(&"web-01".to_string()));
}

#[test]
fn acronym_matches() {
    let store = sample_store();
    assert!(names(&store.fuzzy_search_connections("pde", 10, NOW)).contains(&"prod-db-east".to_string()));
    assert!(matches_enhanced_patterns("pde", "prod-db-east"));
    assert!(matches_enhanced_patterns("PDE", "prod-db-east"));
}

#[test]
fn matcher_strategies() {
    assert!(matches_enhanced_patterns("prod east", "prod-db-east"));
    assert!(!matches_enhanced_patterns("prod west", "prod-db-east"));
    assert!(matches_enhanced_patterns("proddb", "prod-db-east"));
    assert!(matches_enhanced_patterns("web01", "web-01"));
    assert!(!matches_enhanced_patterns("x", "prod-db-east"));
    assert!(!matches_enhanced_patterns("zz", "prod-db-east"));
    assert!(matches_enhanced_patterns("pd", "prod-db"));
    // one character queries only match by substring after normalization
    assert!(matches_enhanced_patterns("p", "prod-db"));
    assert!(!matches_enhanced_patterns("q", "prod-db"));
}

#[test]
fn relevance_score_values() {
    let c = record(9, "web", "web.example.com", &["web"], Some(NOW - HOUR));
    assert_eq!(calculate_relevance_score(&c, "web", NOW), 255);
    assert_eq!(calculate_relevance_score(&c, "WEB", NOW), 255);
    let d = record(9, "web-01", "10.0.0.1", &[], None);
    // starts 50, contains 25, pattern 15
    assert_eq!(calculate_relevance_score(&d, "web", NOW), 90);
    assert_eq!(calculate_relevance_score(&d, "zzz", NOW), 0);
}

#[test]
fn recency_bonus_values() {
    assert_eq!(recency_score(None, NOW), 0);
    assert_eq!(recency_score(Some(NOW - 23 * HOUR), NOW), 30);
    assert_eq!(recency_score(Some(NOW - 24 * HOUR), NOW), 15);
    assert_eq!(recency_score(Some(NOW - 167 * HOUR), NOW), 15);
    assert_eq!(recency_score(Some(NOW - 168 * HOUR), NOW), 5);
    assert_eq!(recency_score(Some(NOW - 719 * HOUR), NOW), 5);
    assert_eq!(recency_score(Some(NOW - 720 * HOUR), NOW), 0);
    assert_eq!(recency_score(Some(NOW + HOUR), NOW), 30);
}

#[test]
fn lookups_are_case_insensitive_and_bounded() {
    let store = sample_store();
    assert_eq!(names(&store.search_by_field("WEB", SearchField::Name, 10)), vec!["web-01", "web"]);
    assert_eq!(names(&store.search_by_field("web", SearchField::Name, 1)), vec!["web-01"]);
    assert_eq!(names(&store.search_by_field("EXAMPLE", SearchField::Host, 10)), vec!["prod-db-east", "web"]);
    assert_eq!(names(&store.search_in_tags("PRO", 10)), vec!["web-01"]);
    assert_eq!(names(&store.enhanced_fuzzy_search("pde", 10)), vec!["prod-db-east"]);
    assert_eq!(names(&store.get_recent_connections(2)), vec!["web-01", "prod-db-east"]);
    assert_eq!(store.get_recent_connections(10).len(), 3);
}

#[test]
fn store_rejects_bad_order_and_duplicate_ids() {
    assert!(ConnectionStore::new(vec![
        record(1, "a", "h", &[], None),
        record(2, "b", "h", &[], Some(NOW)),
    ])
    .is_none());
    assert!(ConnectionStore::new(vec![
        record(1, "a", "h", &[], Some(NOW)),
        record(1, "b", "h", &[], Some(NOW - 1)),
    ])
    .is_none());
    let empty = ConnectionStore::new(Vec::new()).unwrap();
    assert!(empty.is_empty());
    assert!(empty.fuzzy_search_connections("anything", 10, NOW).is_empty());
}

#[test]
fn all_lookups_failing_is_unavailable() {
    let store = sample_store();
    let r = merge_lookups(None, None, None, None, "web", 10, NOW);
    assert_eq!(r.unwrap_err(), DiscoveryError::DiscoveryUnavailable);
    let only = vec![record(3, "web", "h", &[], None)];
    let r = merge_lookups(None, Some(only), None, None, "web", 10, NOW).unwrap();
    assert_eq!(names(&r), vec!["web"]);
}

#[test]
fn merge_deduplicates_and_ranks() {
    let store = sample_store();
    let a = store.search_by_field("web", SearchField::Name, 10);
    let b = store.search_in_tags("web", 10);
    let r = merge_lookups(Some(a.clone()), Some(b.clone()), None, Some(a.clone()), "Web", 10, NOW).unwrap();
    assert_eq!(names(&r), vec!["web", "web-01"]);
    let r = merge_lookups(Some(a), None, None, None, "web", 1, NOW).unwrap();
    assert_eq!(names(&r), vec!["web"]);
}

#[test]
fn ties_follow_store_order() {
    let store = ConnectionStore::new(vec![
        record(1, "alpha", "dbhost", &["db1"], Some(NOW - 240 * HOUR)),
        record(2, "xdb", "10.0.0.2", &[], Some(NOW - 960 * HOUR)),
    ])
    .unwrap();
    let a = &store.records()[0];
    let b = &store.records()[1];
    assert_eq!(calculate_relevance_score(a, "db", NOW), 40);
    assert_eq!(calculate_relevance_score(b, "db", NOW), 40);
    assert_eq!(names(&store.fuzzy_search_connections("db", 10, NOW)), vec!["alpha", "xdb"]);
    // the order in which the lookups are pooled does not matter
    let by_name = store.search_by_field("db", SearchField::Name, 10);
    let by_host = store.search_by_field("db", SearchField::Host, 10);
    let r = merge_lookups(Some(by_name), None, Some(by_host), None, "db", 10, NOW).unwrap();
    assert_eq!(names(&r), vec!["alpha", "xdb"]);
}

#[test]
fn same_last_use_orders_by_name() {
    assert!(ConnectionStore::new(vec![
        record(1, "b", "h", &[], Some(NOW)),
        record(2, "a", "h", &[], Some(NOW)),
    ])
    .is_none());
    let store = ConnectionStore::new(vec![
        record(1, "a", "h", &[], Some(NOW)),
        record(2, "b", "h", &[], Some(NOW)),
        record(3, "c", "h", &[], None),
        record(4, "d", "h", &[], None),
    ])
    .unwrap();
    assert_eq!(names(&store.fuzzy_search_connections("", 10, NOW)), vec!["a", "b", "c", "d"]);
}

#[test]
fn empty_query_ignores_tags() {
    let store = ConnectionStore::new(vec![
        record(1, "untagged", "a.example.com", &[], Some(NOW - HOUR)),
        record(2, "tagged", "b.example.com", &["x"], Some(NOW - 2 * HOUR)),
        record(3, "old", "c.example.com", &["y"], None),
    ])
    .unwrap();
    assert_eq!(names(&store.fuzzy_search_connections("", 10, NOW)), vec!["untagged", "tagged", "old"]);
    assert_eq!(names(&store.fuzzy_search_connections("", 2, NOW)), vec!["untagged", "tagged"]);
    assert_eq!(calculate_relevance_score(&store.records()[1], "", NOW), 30);
}

#[test]
fn same_result_within_recency_bands() {
    let store = sample_store();
    let a = store.fuzzy_search_connections("e", 10, NOW);
    let b = store.fuzzy_search_connections("e", 10, NOW + 60);
    assert_eq!(names(&a), names(&b));
}

#[test]
fn alphanumeric_prefix_matches() {
    // only the alphanumeric prefix strategy applies here
    assert!(matches_enhanced_patterns("db01e", "db.01:east"));
    assert!(!matches_enhanced_patterns("db", "x.d:b"));
    assert!(matches_enhanced_patterns("\u{e9}t", "\u{e9}:t"));
}

#[test]
fn store_statistics() {
    let store = sample_store();
    let stats = store.get_stats();
    assert_eq!(stats.total_connections, 4);
    assert_eq!(stats.most_used.as_ref().map(|c| c.name.as_str()), Some("web-01"));
    assert_eq!(names(&stats.recently_used), vec!["web-01", "prod-db-east", "web"]);
    let tags: Vec<(String, usize)> = stats.by_tag.iter().map(|t| (t.tag.clone(), t.count)).collect();
    assert_eq!(
        tags,
        vec![
            ("web".to_string(), 1),
            ("prod".to_string(), 1),
            ("db".to_string(), 1),
            ("staging".to_string(), 1)
        ]
    );
    let twice = vec![record(1, "a", "h", &["x", "y"], None), record(2, "b", "h", &["y"], None)];
    let counts: Vec<(String, usize)> = tag_counts(&twice).iter().map(|t| (t.tag.clone(), t.count)).collect();
    assert_eq!(counts, vec![("x".to_string(), 1), ("y".to_string(), 2)]);
    let empty = ConnectionStore::new(Vec::new()).unwrap().get_stats();
    assert!(empty.most_used.is_none() && empty.by_tag.is_empty());
}

#[test]
fn dedup_keeps_first_occurrence_of_every_pool_id() {
    let mut pool = vec![
        record(7, "first-seen", "h", &[], None),
        record(8, "db", "h", &[], None),
        record(7, "second-seen", "h", &[], Some(NOW)),
    ];
    deduplicate_and_rank(&mut pool, "db", NOW);
    assert_eq!(names(&pool), vec!["db", "first-seen"]);
    // a record outside any store is kept
    let mut pool = vec![record(99, "x", "h", &[], None)];
    deduplicate_and_rank(&mut pool, "zzz", NOW);
    assert_eq!(names(&pool), vec!["x"]);
}

#[test]
fn dedup_rank_breaks_ties_by_store_order() {
    let mut pool = vec![
        record(1, "b", "h", &[], Some(NOW - 10)),
        record(2, "a", "h", &[], Some(NOW - 10)),
        record(3, "c", "h", &[], None),
        record(4, "d", "h", &[], Some(NOW - 5)),
    ];
    deduplicate_and_rank(&mut pool, "", NOW);
    assert_eq!(names(&pool), vec!["d", "a", "b", "c"]);
}

#[test]
fn lowered_matching_and_bonuses() {
    assert!(matches_lowered("pde", "prod-db-east"));
    assert!(matches_lowered("web01", "web-01"));
    assert!(!matches_lowered("WEB01", "web-01"));
    let tags = vec!["web".to_string()];
    assert_eq!(text_bonus_lowered("web", "web", "web.example.com", &tags), 225);
    assert_eq!(text_bonus_lowered("web", "web-01", "10.0.0.1", &Vec::new()), 90);
    assert_eq!(text_bonus_lowered("db", "alpha", "dbhost", &vec!["db1".to_string()]), 35);
}
