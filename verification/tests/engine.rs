use secretfop::config::{CacheRecords, Snowflake};
use secretfop::engine::{commit_delivered, delivery_step, filter_feed, PostState};
use secretfop::sources::source::{ForeignMedia, ForeignPost};
use secretfop::telegram::SendOutcome;

fn post(id: u64, source_id: u64, media_count: usize) -> ForeignPost {
    ForeignPost {
        id: Snowflake::Number(id),
        source_id: Snowflake::Number(source_id),
        text: "text".to_string(),
        media: vec![ForeignMedia::Photo("http://img".to_string()); media_count],
        source: "feed".to_string(),
        url: "http://post".to_string(),
    }
}

fn ids(posts: &[ForeignPost]) -> Vec<u64> {
    posts.iter().map(|p| p.id.as_ref().unwrap_number()).collect()
}

#[test]
fn ordering_oldest_first() {
    let feed = vec![post(5, 1, 1), post(4, 1, 1), post(3, 1, 1)];
    let store = CacheRecords::new();
    let filtered = filter_feed(feed, &store);
    assert_eq!(ids(&filtered), vec![3, 4, 5]);
}

#[test]
fn dedup_boundary_is_strict() {
    let mut store = CacheRecords::new();
    store.advance(&Snowflake::Number(1), 10);
    let feed = vec![post(11, 1, 1), post(10, 1, 1)];
    let filtered = filter_feed(feed, &store);
    assert_eq!(ids(&filtered), vec![11]);
}

#[test]
fn media_empty_excluded() {
    let store = CacheRecords::new();
    let filtered = filter_feed(vec![post(7, 1, 0)], &store);
    assert!(filtered.is_empty());

    let mut seen = CacheRecords::new();
    seen.advance(&Snowflake::Number(1), 3);
    let filtered = filter_feed(vec![post(7, 1, 0)], &seen);
    assert!(filtered.is_empty());
}

#[test]
fn filter_rerun_unchanged() {
    let mut store = CacheRecords::new();
    store.advance(&Snowflake::Number(1), 4);
    let feed = vec![post(6, 1, 1), post(5, 1, 1), post(4, 1, 1)];
    let first = filter_feed(feed.clone(), &store);
    let second = filter_feed(feed, &store);
    assert_eq!(first, second);
    assert_eq!(ids(&first), vec![5, 6]);
}

#[test]
fn noncoercible_id_treated_unseen() {
    let mut store = CacheRecords::new();
    store.advance(&Snowflake::Number(1), 100);
    let mut odd = post(0, 1, 1);
    odd.id = Snowflake::String("not-a-number".to_string());
    let filtered = filter_feed(vec![odd], &store);
    assert_eq!(filtered.len(), 1);
}

#[test]
fn watermark_monotonic_over_advances() {
    let mut store = CacheRecords::new();
    let source = Snowflake::Number(1);
    let mut last = 0;
    for candidate in [10, 7, 10, 12, 3] {
        store.advance(&source, candidate);
        let now = store.get(&source).unwrap();
        assert!(now >= last);
        assert!(now >= candidate.min(last));
        last = now;
    }
    assert_eq!(store.get(&source), Some(12));
}

#[test]
fn advance_absent_key_inserts() {
    let mut store = CacheRecords::new();
    assert_eq!(store.get(&Snowflake::Number(1)), None);
    store.advance(&Snowflake::Number(1), 10);
    assert_eq!(store.get(&Snowflake::Number(1)), Some(10));
    assert_eq!(store.get(&Snowflake::Number(2)), None);
}

#[test]
fn advance_is_idempotent() {
    let mut store = CacheRecords::new();
    store.advance(&Snowflake::Number(1), 10);
    store.advance(&Snowflake::Number(1), 10);
    assert_eq!(store.get(&Snowflake::Number(1)), Some(10));
    assert_eq!(store.vk.len(), 1);
}

#[test]
fn string_and_number_source_share_key() {
    let mut store = CacheRecords::new();
    store.advance(&Snowflake::Number(5), 9);
    assert_eq!(store.get(&Snowflake::String("5".to_string())), Some(9));
}

#[test]
fn rate_limit_recovery() {
    let mut store = CacheRecords::new();
    let p = post(21, 1, 1);

    let state = PostState::Pending;
    let state = delivery_step(&state, &SendOutcome::RateLimited { retry_secs: 2 });
    let wait = match state {
        PostState::AwaitRetry { retry_secs } => retry_secs,
        _ => panic!("expected a retry window"),
    };
    assert_eq!(wait, 2);

    let state = delivery_step(&state, &SendOutcome::Delivered { message_id: 900 });
    assert_eq!(state, PostState::Delivered { message_id: 900 });
    commit_delivered(&mut store, &p);
    assert_eq!(store.get(&Snowflake::Number(1)), Some(21));
}

#[test]
fn permanent_failure_keeps_post_eligible() {
    let mut store = CacheRecords::new();
    let p = post(21, 1, 1);

    let state = delivery_step(
        &PostState::Pending,
        &SendOutcome::Rejected { error_code: 400, description: "bad".to_string() },
    );
    assert_eq!(state, PostState::Skipped);
    assert_eq!(store.get(&Snowflake::Number(1)), None);

    store.advance(&Snowflake::Number(99), 1);
    let filtered = filter_feed(vec![p], &store);
    assert_eq!(ids(&filtered), vec![21]);
}

#[test]
fn second_rate_limit_skips() {
    let state = delivery_step(&PostState::Pending, &SendOutcome::RateLimited { retry_secs: 1 });
    let state = delivery_step(&state, &SendOutcome::RateLimited { retry_secs: 30 });
    assert_eq!(state, PostState::Skipped);
}

#[test]
fn delivered_first_try() {
    let state = delivery_step(&PostState::Pending, &SendOutcome::Delivered { message_id: 7 });
    assert_eq!(state, PostState::Delivered { message_id: 7 });
}
