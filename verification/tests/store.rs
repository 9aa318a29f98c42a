//! The shared counter store.

use pdns_remote::State;

#[test]
fn get_on_fresh_store_is_none() {
    let state = State::new();
    assert_eq!(state.get("anything".to_string()), None);
}

#[test]
fn seed_then_get() {
    let state = State::new();
    state.seed("example".to_string(), 41);
    assert_eq!(state.get("example".to_string()), Some(41));
    assert_eq!(state.get("other".to_string()), None);
}

#[test]
fn test_seeds_the_monitor_key() {
    let state = State::new();
    state.test();
    assert_eq!(state.get("www.google.de".to_string()), Some(1));
}

#[test]
fn incr_on_missing_key_initializes_to_one() {
    let state = State::new();
    state.incr("fresh".to_string());
    assert_eq!(state.get("fresh".to_string()), Some(1));
}

#[test]
fn incr_adds_one() {
    let state = State::new();
    state.seed("k".to_string(), 10);
    state.incr("k".to_string());
    state.incr("k".to_string());
    assert_eq!(state.get("k".to_string()), Some(12));
}

#[test]
fn incr_saturates_at_the_ceiling() {
    let state = State::new();
    state.seed("k".to_string(), u32::MAX);
    state.incr("k".to_string());
    assert_eq!(state.get("k".to_string()), Some(u32::MAX));
}

#[test]
fn clones_share_one_store() {
    let state = State::new();
    let other = state.clone();
    other.seed("shared".to_string(), 7);
    assert_eq!(state.get("shared".to_string()), Some(7));
}

#[test]
fn concurrent_increments_lose_no_update() {
    // N tasks each increment the same pre-seeded key once; the final value
    // is exactly initial + N, however the tasks interleave.
    let n: u32 = 64;
    let state = State::new();
    state.seed("example".to_string(), 1);

    let rt = tokio::runtime::Builder::new_multi_thread()
        .worker_threads(4)
        .build()
        .unwrap();
    rt.block_on(async {
        let mut tasks = Vec::new();
        for _ in 0..n {
            let st = state.clone();
            tasks.push(tokio::spawn(async move {
                st.incr("example".to_string());
            }));
        }
        for t in tasks {
            t.await.unwrap();
        }
    });

    assert_eq!(state.get("example".to_string()), Some(1 + n));
}
